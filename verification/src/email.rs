//! E-mail value object.
//!
//! An address is accepted when it has the shape `local@domain`, where the
//! local part is one or more word characters, dots or hyphens, and the
//! domain is one or more labels of word characters or hyphens separated by
//! dots, the final label being at least two characters long.  Accepted
//! addresses are normalized to ASCII lower case.

use vstd::prelude::*;

use crate::error::AuthError;

verus! {

/// A word character: an ASCII letter, an ASCII digit or an underscore.
pub open spec fn is_word_char(c: char) -> bool {
    ('a' <= c && c <= 'z') || ('A' <= c && c <= 'Z') || ('0' <= c && c <= '9') || c == '_'
}

/// A character allowed in the local part of an address.
pub open spec fn is_local_char(c: char) -> bool {
    is_word_char(c) || c == '-' || c == '.'
}

/// A character allowed in a domain label.
pub open spec fn is_label_char(c: char) -> bool {
    is_word_char(c) || c == '-'
}

/// The local part: non-empty, every character a word character, dot or
/// hyphen.
pub open spec fn local_ok(s: Seq<char>) -> bool {
    &&& s.len() >= 1
    &&& forall|i: int| 0 <= i < s.len() ==> is_local_char(#[trigger] s[i])
}

/// `p` is the position of the last dot of `s`.
pub open spec fn is_last_dot(s: Seq<char>, p: int) -> bool {
    &&& 0 <= p < s.len()
    &&& s[p] == '.'
    &&& forall|j: int| p < j < s.len() ==> #[trigger] s[j] != '.'
}

/// The domain part: labels of word characters or hyphens separated by
/// single dots, at least two labels, no empty label, and at least two
/// characters after the last dot.
pub open spec fn domain_ok(s: Seq<char>) -> bool {
    &&& s.len() >= 1
    &&& forall|i: int| 0 <= i < s.len() ==> (is_label_char(#[trigger] s[i]) || s[i] == '.')
    &&& s[0] != '.'
    &&& forall|i: int| 0 <= i < s.len() - 1 ==> !(#[trigger] s[i] == '.' && s[i + 1] == '.')
    &&& exists|p: int| is_last_dot(s, p) && s.len() - p - 1 >= 2
}

/// A syntactically valid address: a local part, an `@`, and a domain.
pub open spec fn is_valid_email(s: Seq<char>) -> bool {
    exists|k: int|
        0 <= k < s.len() && #[trigger] s[k] == '@' && local_ok(s.take(k)) && domain_ok(
            s.skip(k + 1),
        )
}

/// ASCII lower-casing of one character: `A`..=`Z` map to `a`..=`z`, all
/// other characters are unchanged.
pub open spec fn lower_char(c: char) -> char {
    if 'A' <= c && c <= 'Z' {
        ((c as u32 + 32) as u32) as char
    } else {
        c
    }
}

/// ASCII lower-casing of a character sequence.
pub open spec fn lower_seq(s: Seq<char>) -> Seq<char> {
    s.map_values(|c: char| lower_char(c))
}

/// Lower-casing keeps each character class and keeps dots exactly where
/// they were, and is idempotent on characters.
proof fn lemma_lower_char_classes(c: char)
    ensures
        is_word_char(c) ==> is_word_char(lower_char(c)),
        is_local_char(c) ==> is_local_char(lower_char(c)),
        is_label_char(c) ==> is_label_char(lower_char(c)),
        (lower_char(c) == '.') == (c == '.'),
        (lower_char(c) == '@') == (c == '@'),
        lower_char(lower_char(c)) == lower_char(c),
{
}

/// A valid address stays valid under ASCII lower-casing, and lower-casing
/// is idempotent; together these make normalization idempotent under
/// re-parsing.
pub proof fn lemma_email_normalization_idempotent(s: Seq<char>)
    requires
        is_valid_email(s),
    ensures
        is_valid_email(lower_seq(s)),
        lower_seq(lower_seq(s)) == lower_seq(s),
{
    let t = lower_seq(s);
    assert forall|i: int| 0 <= i < s.len() implies lower_char(lower_char(s[i])) == lower_char(
        s[i],
    ) by {
        lemma_lower_char_classes(s[i]);
    }
    assert(lower_seq(t) =~= t);
    let k = choose|k: int|
        0 <= k < s.len() && #[trigger] s[k] == '@' && local_ok(s.take(k)) && domain_ok(
            s.skip(k + 1),
        );
    lemma_lower_char_classes(s[k]);
    assert(t.take(k) =~= lower_seq(s.take(k)));
    assert(t.skip(k + 1) =~= lower_seq(s.skip(k + 1)));
    lemma_lower_local(s.take(k));
    lemma_lower_domain(s.skip(k + 1));
    assert(t[k] == '@');
}

/// Lower-casing keeps a valid local part valid.
proof fn lemma_lower_local(s: Seq<char>)
    requires
        local_ok(s),
    ensures
        local_ok(lower_seq(s)),
{
    assert forall|i: int| 0 <= i < lower_seq(s).len() implies is_local_char(
        #[trigger] lower_seq(s)[i],
    ) by {
        lemma_lower_char_classes(s[i]);
    }
}

/// Lower-casing keeps a valid domain valid.
proof fn lemma_lower_domain(s: Seq<char>)
    requires
        domain_ok(s),
    ensures
        domain_ok(lower_seq(s)),
{
    let t = lower_seq(s);
    assert forall|i: int| 0 <= i < t.len() implies (is_label_char(#[trigger] t[i]) || t[i]
        == '.') by {
        lemma_lower_char_classes(s[i]);
    }
    lemma_lower_char_classes(s[0]);
    assert forall|i: int| 0 <= i < t.len() - 1 implies !(#[trigger] t[i] == '.' && t[i + 1]
        == '.') by {
        lemma_lower_char_classes(s[i]);
        lemma_lower_char_classes(s[i + 1]);
    }
    let p = choose|p: int| is_last_dot(s, p) && s.len() - p - 1 >= 2;
    lemma_lower_char_classes(s[p]);
    assert forall|j: int| p < j < t.len() implies #[trigger] t[j] != '.' by {
        lemma_lower_char_classes(s[j]);
    }
    assert(is_last_dot(t, p) && t.len() - p - 1 >= 2);
}

/// With the first `@` of `s` at position `k`, validity of `s` comes down
/// to the parts on either side of `k`.
proof fn lemma_valid_iff_first_at(s: Seq<char>, k: int)
    requires
        0 <= k < s.len(),
        s[k] == '@',
        forall|j: int| 0 <= j < k ==> #[trigger] s[j] != '@',
    ensures
        is_valid_email(s) == (local_ok(s.take(k)) && domain_ok(s.skip(k + 1))),
{
    if is_valid_email(s) {
        let k2 = choose|k2: int|
            0 <= k2 < s.len() && #[trigger] s[k2] == '@' && local_ok(s.take(k2)) && domain_ok(
                s.skip(k2 + 1),
            );
        if k2 > k {
            assert(s.take(k2)[k] == '@');
            assert(!is_local_char('@'));
            assert(false);
        }
        assert(k2 == k);
    }
}

/// A validated, lower-cased e-mail address.
///
/// Once constructed, `as_str` always returns a syntactically valid,
/// lower-cased address.
#[derive(Debug)]
pub struct Email {
    s: String,
}

impl View for Email {
    type V = Seq<char>;

    closed spec fn view(&self) -> Seq<char> {
        self.s@
    }
}

impl Email {
    /// The invariant every constructed value carries: the stored address
    /// is valid and already lower-cased.
    pub open spec fn wf(&self) -> bool {
        is_valid_email(self@) && lower_seq(self@) == self@
    }

    /// Parses and normalizes a raw address.  Succeeds exactly on input
    /// matching the address shape; the result is the ASCII-lower-cased
    /// form of the input.
    #[verifier::loop_isolation(false)]
    pub fn parse(email: String) -> (r: Result<Email, AuthError>)
        ensures
            r is Ok <==> is_valid_email(email@),
            r matches Ok(e) ==> e@ == lower_seq(email@) && e.wf(),
            r matches Err(err) ==> err == AuthError::ValidationError,
    {
        let s: &str = email.as_str();
        let n: usize = s.unicode_len();
        // Find the first '@'.
        let mut has_at: bool = false;
        let mut k: usize = 0;
        let mut i: usize = 0;
        while i < n
            invariant
                s@ == email@,
                n == email@.len(),
                i <= n,
                !has_at ==> forall|j: int| 0 <= j < i ==> #[trigger] email@[j] != '@',
                has_at ==> k < i && email@[k as int] == '@' && forall|j: int|
                    0 <= j < k ==> #[trigger] email@[j] != '@',
            decreases n - i,
        {
            let c = s.get_char(i);
            if !has_at && c == '@' {
                has_at = true;
                k = i;
            }
            i += 1;
        }
        if !has_at {
            assert(!is_valid_email(email@));
            return Err(AuthError::ValidationError);
        }
        proof {
            lemma_valid_iff_first_at(email@, k as int);
        }
        // Local part: non-empty, every character allowed.
        if k == 0 {
            assert(!local_ok(email@.take(k as int)));
            return Err(AuthError::ValidationError);
        }
        let mut i: usize = 0;
        while i < k
            invariant
                s@ == email@,
                n == email@.len(),
                k < n,
                i <= k,
                forall|j: int| 0 <= j < i ==> is_local_char(#[trigger] email@[j]),
            decreases k - i,
        {
            let c = s.get_char(i);
            if !check_local_char(c) {
                assert(email@.take(k as int)[i as int] == email@[i as int]);
                assert(!local_ok(email@.take(k as int)));
                return Err(AuthError::ValidationError);
            }
            i += 1;
        }
        assert forall|j: int| 0 <= j < k implies is_local_char(
            #[trigger] email@.take(k as int)[j],
        ) by {}
        assert(local_ok(email@.take(k as int)));
        // Domain part.
        let ghost d = email@.skip(k as int + 1);
        let m: usize = n - k - 1;
        assert(d.len() == m);
        if m == 0 {
            assert(!domain_ok(d));
            return Err(AuthError::ValidationError);
        }
        let mut has_dot: bool = false;
        let mut dot_pos: usize = 0;
        let mut prev_dot: bool = false;
        let mut i: usize = 0;
        while i < m
            invariant
                s@ == email@,
                n == email@.len(),
                k < n,
                m == n - k - 1,
                d == email@.skip(k as int + 1),
                d.len() == m,
                i <= m,
                forall|j: int| 0 <= j < i ==> (is_label_char(#[trigger] d[j]) || d[j] == '.'),
                i >= 1 ==> d[0] != '.',
                forall|j: int| 0 <= j < i - 1 ==> !(#[trigger] d[j] == '.' && d[j + 1] == '.'),
                prev_dot == (i >= 1 && d[i - 1] == '.'),
                !has_dot ==> forall|j: int| 0 <= j < i ==> #[trigger] d[j] != '.',
                has_dot ==> dot_pos < i && d[dot_pos as int] == '.' && forall|j: int|
                    dot_pos < j < i ==> #[trigger] d[j] != '.',
            decreases m - i,
        {
            let c = s.get_char(k + 1 + i);
            assert(c == d[i as int]);
            let c_is_dot = c == '.';
            if !check_label_char(c) && !c_is_dot {
                assert(!domain_ok(d));
                return Err(AuthError::ValidationError);
            }
            if i == 0 && c_is_dot {
                assert(!domain_ok(d));
                return Err(AuthError::ValidationError);
            }
            if prev_dot && c_is_dot {
                assert(d[i as int - 1] == '.' && d[i as int] == '.');
                assert(!domain_ok(d));
                return Err(AuthError::ValidationError);
            }
            if c_is_dot {
                has_dot = true;
                dot_pos = i;
            }
            prev_dot = c_is_dot;
            i += 1;
        }
        if !has_dot {
            assert forall|p: int| !(is_last_dot(d, p) && d.len() - p - 1 >= 2) by {}
            assert(!domain_ok(d));
            return Err(AuthError::ValidationError);
        }
        if m - dot_pos - 1 < 2 {
            // `dot_pos` is the last dot, so no position can witness a
            // final label of length two or more.
            assert forall|p: int| !(is_last_dot(d, p) && d.len() - p - 1 >= 2) by {
                if is_last_dot(d, p) && d.len() - p - 1 >= 2 {
                    if p < dot_pos {
                        assert(d[dot_pos as int] == '.');
                        assert(false);
                    }
                    if p > dot_pos {
                        assert(d[p] != '.');
                        assert(false);
                    }
                }
            }
            assert(!domain_ok(d));
            return Err(AuthError::ValidationError);
        }
        assert(is_last_dot(d, dot_pos as int) && d.len() - dot_pos - 1 >= 2);
        assert(domain_ok(d));
        assert(is_valid_email(email@));
        proof {
            lemma_valid_email_ascii(email@);
            lemma_email_normalization_idempotent(email@);
        }
        let lowered = ascii_lowercase(s);
        Ok(Email { s: lowered })
    }

    /// Read-only access to the normalized form.
    pub fn as_str(&self) -> (r: &str)
        ensures
            r@ == self@,
    {
        self.s.as_str()
    }
}

/// Exec test for a local-part character.
fn check_local_char(c: char) -> (r: bool)
    ensures
        r == is_local_char(c),
{
    check_label_char(c) || c == '.'
}

/// Exec test for a label character.
fn check_label_char(c: char) -> (r: bool)
    ensures
        r == is_label_char(c),
{
    let u = c as u32;
    (97 <= u && u <= 122) || (65 <= u && u <= 90) || (48 <= u && u <= 57) || c == '_' || c == '-'
}

/// The single-character string holding the lower-case form of an
/// upper-case ASCII letter.
fn lower_letter(c: char) -> (r: &'static str)
    requires
        'A' <= c && c <= 'Z',
    ensures
        r@ == seq![lower_char(c)],
{
    if c == 'A' {
        proof {
            reveal_strlit("a");
            vstd::utf8::char_u32_cast('a', 97);
            assert(("a")@ =~= seq![lower_char(c)]);
        }
        "a"
    } else if c == 'B' {
        proof {
            reveal_strlit("b");
            vstd::utf8::char_u32_cast('b', 98);
            assert(("b")@ =~= seq![lower_char(c)]);
        }
        "b"
    } else if c == 'C' {
        proof {
            reveal_strlit("c");
            vstd::utf8::char_u32_cast('c', 99);
            assert(("c")@ =~= seq![lower_char(c)]);
        }
        "c"
    } else if c == 'D' {
        proof {
            reveal_strlit("d");
            vstd::utf8::char_u32_cast('d', 100);
            assert(("d")@ =~= seq![lower_char(c)]);
        }
        "d"
    } else if c == 'E' {
        proof {
            reveal_strlit("e");
            vstd::utf8::char_u32_cast('e', 101);
            assert(("e")@ =~= seq![lower_char(c)]);
        }
        "e"
    } else if c == 'F' {
        proof {
            reveal_strlit("f");
            vstd::utf8::char_u32_cast('f', 102);
            assert(("f")@ =~= seq![lower_char(c)]);
        }
        "f"
    } else if c == 'G' {
        proof {
            reveal_strlit("g");
            vstd::utf8::char_u32_cast('g', 103);
            assert(("g")@ =~= seq![lower_char(c)]);
        }
        "g"
    } else if c == 'H' {
        proof {
            reveal_strlit("h");
            vstd::utf8::char_u32_cast('h', 104);
            assert(("h")@ =~= seq![lower_char(c)]);
        }
        "h"
    } else if c == 'I' {
        proof {
            reveal_strlit("i");
            vstd::utf8::char_u32_cast('i', 105);
            assert(("i")@ =~= seq![lower_char(c)]);
        }
        "i"
    } else if c == 'J' {
        proof {
            reveal_strlit("j");
            vstd::utf8::char_u32_cast('j', 106);
            assert(("j")@ =~= seq![lower_char(c)]);
        }
        "j"
    } else if c == 'K' {
        proof {
            reveal_strlit("k");
            vstd::utf8::char_u32_cast('k', 107);
            assert(("k")@ =~= seq![lower_char(c)]);
        }
        "k"
    } else if c == 'L' {
        proof {
            reveal_strlit("l");
            vstd::utf8::char_u32_cast('l', 108);
            assert(("l")@ =~= seq![lower_char(c)]);
        }
        "l"
    } else if c == 'M' {
        proof {
            reveal_strlit("m");
            vstd::utf8::char_u32_cast('m', 109);
            assert(("m")@ =~= seq![lower_char(c)]);
        }
        "m"
    } else if c == 'N' {
        proof {
            reveal_strlit("n");
            vstd::utf8::char_u32_cast('n', 110);
            assert(("n")@ =~= seq![lower_char(c)]);
        }
        "n"
    } else if c == 'O' {
        proof {
            reveal_strlit("o");
            vstd::utf8::char_u32_cast('o', 111);
            assert(("o")@ =~= seq![lower_char(c)]);
        }
        "o"
    } else if c == 'P' {
        proof {
            reveal_strlit("p");
            vstd::utf8::char_u32_cast('p', 112);
            assert(("p")@ =~= seq![lower_char(c)]);
        }
        "p"
    } else if c == 'Q' {
        proof {
            reveal_strlit("q");
            vstd::utf8::char_u32_cast('q', 113);
            assert(("q")@ =~= seq![lower_char(c)]);
        }
        "q"
    } else if c == 'R' {
        proof {
            reveal_strlit("r");
            vstd::utf8::char_u32_cast('r', 114);
            assert(("r")@ =~= seq![lower_char(c)]);
        }
        "r"
    } else if c == 'S' {
        proof {
            reveal_strlit("s");
            vstd::utf8::char_u32_cast('s', 115);
            assert(("s")@ =~= seq![lower_char(c)]);
        }
        "s"
    } else if c == 'T' {
        proof {
            reveal_strlit("t");
            vstd::utf8::char_u32_cast('t', 116);
            assert(("t")@ =~= seq![lower_char(c)]);
        }
        "t"
    } else if c == 'U' {
        proof {
            reveal_strlit("u");
            vstd::utf8::char_u32_cast('u', 117);
            assert(("u")@ =~= seq![lower_char(c)]);
        }
        "u"
    } else if c == 'V' {
        proof {
            reveal_strlit("v");
            vstd::utf8::char_u32_cast('v', 118);
            assert(("v")@ =~= seq![lower_char(c)]);
        }
        "v"
    } else if c == 'W' {
        proof {
            reveal_strlit("w");
            vstd::utf8::char_u32_cast('w', 119);
            assert(("w")@ =~= seq![lower_char(c)]);
        }
        "w"
    } else if c == 'X' {
        proof {
            reveal_strlit("x");
            vstd::utf8::char_u32_cast('x', 120);
            assert(("x")@ =~= seq![lower_char(c)]);
        }
        "x"
    } else if c == 'Y' {
        proof {
            reveal_strlit("y");
            vstd::utf8::char_u32_cast('y', 121);
            assert(("y")@ =~= seq![lower_char(c)]);
        }
        "y"
    } else if c == 'Z' {
        proof {
            reveal_strlit("z");
            vstd::utf8::char_u32_cast('z', 122);
            assert(("z")@ =~= seq![lower_char(c)]);
        }
        "z"
    } else {
        proof {
            assert(false);
        }
        ""
    }
}

/// A valid address is made of ASCII characters only: every character is
/// from the local classes, the `@`, or the domain classes.
proof fn lemma_valid_email_ascii(s: Seq<char>)
    requires
        is_valid_email(s),
    ensures
        vstd::utf8::is_ascii_chars(s),
{
    let k = choose|k: int|
        0 <= k < s.len() && #[trigger] s[k] == '@' && local_ok(s.take(k)) && domain_ok(
            s.skip(k + 1),
        );
    assert forall|i: int| 0 <= i < s.len() implies '\0' <= #[trigger] s[i] <= '\u{7f}' by {
        if i < k {
            assert(s.take(k)[i] == s[i]);
            assert(is_local_char(s[i]));
        } else if i > k {
            assert(s.skip(k + 1)[i - k - 1] == s[i]);
            assert(is_label_char(s[i]) || s[i] == '.');
        }
    }
}

/// Lower-cases an ASCII string character by character: upper-case
/// letters come from the letter table, every other character is taken
/// from the input itself.
#[verifier::loop_isolation(false)]
fn ascii_lowercase(s: &str) -> (r: String)
    requires
        s.is_ascii(),
    ensures
        r@ == lower_seq(s@),
{
    let n = s.unicode_len();
    let mut out = String::new();
    let mut i: usize = 0;
    proof {
        assert(out@ =~= lower_seq(s@.take(0)));
    }
    while i < n
        invariant
            n == s@.len(),
            i <= n,
            out@ == lower_seq(s@.take(i as int)),
        decreases n - i,
    {
        let c = s.get_char(i);
        let u = c as u32;
        let piece: &str = if 65 <= u && u <= 90 {
            lower_letter(c)
        } else {
            let p = s.substring_ascii(i, i + 1);
            proof {
                assert(p@ =~= seq![lower_char(s@[i as int])]);
            }
            p
        };
        out.append(piece);
        proof {
            assert(lower_seq(s@.take(i as int + 1)) =~= lower_seq(s@.take(i as int)) + seq![
                lower_char(s@[i as int]),
            ]);
        }
        i += 1;
    }
    proof {
        assert(s@.take(n as int) =~= s@);
    }
    out
}

} // verus!

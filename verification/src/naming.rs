//! Names of generated functions and parameters.
use vstd::prelude::*;
use vstd::string::*;

verus! {

/// The upper-case mapping of a character, which may be several characters.
pub uninterp spec fn char_uppercase(c: char) -> Seq<char>;

/// Whether a character is one of the 128 of ASCII.
pub open spec fn is_ascii_char(c: char) -> bool {
    (c as u32) < 128
}

/// The upper case of an ASCII character: `a` to `z` become `A` to `Z`, the
/// others stay.
pub open spec fn ascii_upper(c: char) -> char {
    if 97 <= (c as u32) && (c as u32) <= 122 {
        (((c as u32) - 32) as u8) as char
    } else {
        c
    }
}

/// `char::to_uppercase`, collected into a string. The mapping is the one of
/// the Unicode Character Database, without tailoring to a language, so the
/// result depends on the character alone. Of an ASCII character the
/// contract claims what that database gives: one character, the capital for
/// `a` to `z`, the character itself otherwise. Of any other character it
/// claims nothing.
#[verifier::external_body]
fn uppercase_of(c: char) -> (r: String)
    ensures
        r@ == char_uppercase(c),
        is_ascii_char(c) ==> r@ == seq![ascii_upper(c)],
{
    c.to_uppercase().collect()
}

/// The characters that part the segments of a name.
pub open spec fn is_separator(c: char) -> bool {
    c == ' ' || c == '_' || c == '-'
}

/// Whether position `i` of `s` holds the first letter of a segment.
pub open spec fn starts_segment(s: Seq<char>, i: int) -> bool {
    !is_separator(s[i]) && (i == 0 || is_separator(s[i - 1]))
}

/// The first `n` characters of `s` in the generated form.
pub open spec fn pascebab_upto(s: Seq<char>, n: int) -> Seq<char>
    decreases n,
{
    if n <= 0 {
        Seq::empty()
    } else if is_separator(s[n - 1]) {
        pascebab_upto(s, n - 1).push('-')
    } else if starts_segment(s, n - 1) {
        pascebab_upto(s, n - 1) + char_uppercase(s[n - 1])
    } else {
        pascebab_upto(s, n - 1).push(s[n - 1])
    }
}

/// A name in the generated form: every separator becomes a hyphen, the first
/// letter of every segment is put in upper case, the other letters stay.
pub open spec fn pascebab(s: Seq<char>) -> Seq<char> {
    pascebab_upto(s, s.len() as int)
}

/// Whether every character of `s` is ASCII.
pub open spec fn is_ascii_text(s: Seq<char>) -> bool {
    forall|i: int| 0 <= i < s.len() ==> is_ascii_char(#[trigger] s[i])
}

/// The character at position `i` of the generated form of an ASCII name.
pub open spec fn ascii_pascebab_char(s: Seq<char>, i: int) -> char {
    if is_separator(s[i]) {
        '-'
    } else if starts_segment(s, i) {
        ascii_upper(s[i])
    } else {
        s[i]
    }
}

/// The generated form of an ASCII name, character by character.
pub open spec fn ascii_pascebab(s: Seq<char>) -> Seq<char> {
    Seq::new(s.len(), |i: int| ascii_pascebab_char(s, i))
}

/// Converts a name written with spaces, underscores or hyphens. Of an ASCII
/// name the result is stated character by character.
pub fn pascebab_case(s: &str) -> (out: String)
    ensures
        out@ == pascebab(s@),
        s@.len() == 0 ==> out@.len() == 0,
        is_ascii_text(s@) ==> out@ == ascii_pascebab(s@),
{
    let n = s.unicode_len();
    let mut out = String::new();
    let mut is_next_uppercase = true;
    let mut i: usize = 0;
    while i < n
        invariant
            n == s@.len(),
            i <= n,
            out@ == pascebab_upto(s@, i as int),
            is_ascii_text(s@) ==> out@ == ascii_pascebab(s@).take(i as int),
            is_next_uppercase == (i == 0 || is_separator(s@[i - 1])),
        decreases n - i,
    {
        let c = s.get_char(i);
        let ghost before = out@;
        assert(ascii_pascebab(s@).take(i as int).push(ascii_pascebab_char(s@, i as int)) =~= ascii_pascebab(
            s@,
        ).take(i + 1));
        assert(is_ascii_text(s@) ==> is_ascii_char(s@[i as int]));
        if c == ' ' || c == '_' || c == '-' {
            is_next_uppercase = true;
            proof {
                reveal_strlit("-");
            }
            out.append("-");
            assert(out@ =~= before.push('-'));
        } else if is_next_uppercase {
            is_next_uppercase = false;
            let upper = uppercase_of(c);
            out.append(upper.as_str());
            assert(is_ascii_char(c) ==> out@ =~= before.push(ascii_upper(c)));
        } else {
            let piece = s.substring_char(i, i + 1);
            assert(piece@ =~= seq![c]);
            out.append(piece);
            assert(out@ =~= before.push(c));
        }
        i = i + 1;
    }
    assert(ascii_pascebab(s@).take(n as int) =~= ascii_pascebab(s@));
    out
}

/// The generated form of an ASCII name is ASCII and is its own generated
/// form: converting a second time changes nothing.
pub proof fn lemma_pascebab_idempotent(s: Seq<char>)
    requires
        is_ascii_text(s),
    ensures
        is_ascii_text(ascii_pascebab(s)),
        ascii_pascebab(ascii_pascebab(s)) == ascii_pascebab(s),
{
    let r = ascii_pascebab(s);
    assert forall|i: int| 0 <= i < s.len() implies is_ascii_char(#[trigger] r[i]) && is_separator(r[i])
        == is_separator(s[i]) && ascii_upper(ascii_upper(s[i])) == ascii_upper(s[i]) by {
        assert(is_ascii_char(s[i]));
        lemma_ascii_upper(s[i]);
    }
    assert forall|i: int| 0 <= i < r.len() implies ascii_pascebab_char(r, i) == r[i] by {
        assert(is_separator(r[i]) == is_separator(s[i]));
        if i > 0 {
            assert(is_separator(r[i - 1]) == is_separator(s[i - 1]));
        }
    }
    assert(ascii_pascebab(r) =~= r);
}

/// The upper case of an ASCII character is ASCII, is a separator only where
/// the character is one, and is its own upper case.
pub proof fn lemma_ascii_upper(c: char)
    requires
        is_ascii_char(c),
    ensures
        is_ascii_char(ascii_upper(c)),
        is_separator(ascii_upper(c)) == is_separator(c),
        ascii_upper(ascii_upper(c)) == ascii_upper(c),
{
    if 97 <= (c as u32) && (c as u32) <= 122 {
        let u = ascii_upper(c);
        assert((u as u32) == (c as u32) - 32);
    }
}

/// A name whose only separators are hyphens and whose segments each begin with
/// a character that is its own upper case is left as it stands.
pub proof fn lemma_pascebab_fixed_point(s: Seq<char>, n: int)
    requires
        0 <= n <= s.len(),
        forall|i: int| 0 <= i < s.len() ==> s[i] != ' ' && s[i] != '_',
        forall|i: int| 0 <= i < s.len() && starts_segment(s, i) ==> char_uppercase(s[i]) == seq![s[i]],
    ensures
        pascebab_upto(s, n) == s.take(n),
        n == s.len() ==> pascebab(s) == s,
    decreases n,
{
    if n > 0 {
        lemma_pascebab_fixed_point(s, n - 1);
        assert(s.take(n - 1).push(s[n - 1]) =~= s.take(n));
        assert(s.take(n - 1) + seq![s[n - 1]] =~= s.take(n));
    } else {
        assert(s.take(0) =~= Seq::<char>::empty());
    }
    if n == s.len() {
        assert(s.take(n) =~= s);
    }
}

} // verus!

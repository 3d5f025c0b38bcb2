//! Character-level string helpers.

use vstd::prelude::*;

verus! {

/// `String::push`: appends one character.
#[verifier::external_body]
pub(crate) fn push_char(s: &mut String, c: char)
    ensures
        final(s)@ == old(s)@.push(c),
{
    s.push(c)
}

/// What `str::to_uppercase` returns for a string with the given characters.
pub uninterp spec fn uppercase(s: Seq<char>) -> Seq<char>;

/// `str::to_uppercase`: the upper-case form of `s` under Unicode's case
/// mapping. Its result is named by `uppercase`, a function of the characters
/// of `s` alone; nothing further about the mapping is stated.
#[verifier::external_body]
pub(crate) fn str_to_uppercase(s: &str) -> (r: String)
    ensures
        r@ == uppercase(s@),
{
    s.to_uppercase()
}

/// The characters of `s`, each space replaced by an underscore.
pub open spec fn replace_spaces(s: Seq<char>) -> Seq<char> {
    Seq::new(s.len(), |i: int| if s[i] == ' ' { '_' } else { s[i] })
}

/// `s.replace(" ", "_")`.
pub fn replace_spaces_with_underscores(s: &str) -> (r: String)
    ensures
        r@ == replace_spaces(s@),
{
    let n = s.unicode_len();
    let mut res = String::new();
    let mut i: usize = 0;
    while i < n
        invariant
            n == s@.len(),
            i <= n,
            res@ =~= replace_spaces(s@).take(i as int),
        decreases n - i,
    {
        let c = s.get_char(i);
        if c == ' ' {
            push_char(&mut res, '_');
        } else {
            push_char(&mut res, c);
        }
        i = i + 1;
    }
    res
}

/// The characters of `s` in a vector.
pub fn chars_of(s: &str) -> (r: Vec<char>)
    ensures
        r@ == s@,
{
    let n = s.unicode_len();
    let mut res: Vec<char> = Vec::new();
    let mut i: usize = 0;
    while i < n
        invariant
            n == s@.len(),
            i <= n,
            res@ =~= s@.take(i as int),
        decreases n - i,
    {
        res.push(s.get_char(i));
        i = i + 1;
    }
    proof {
        assert(s@.take(n as int) =~= s@);
    }
    res
}

/// Whether two strings hold the same characters.
pub fn same_text(a: &str, b: &str) -> (r: bool)
    ensures
        r == (a@ == b@),
{
    String::from_str(a) == String::from_str(b)
}

/// The upper-case form of a character of Latin-1 whose Unicode upper-case
/// mapping is a single Latin-1 character: `a`-`z` and `à`-`þ` (but `÷`)
/// move down by 32, the rest of Latin-1 stays. `None` for `µ`, `ß` and
/// `ÿ`, whose upper-case forms are not one Latin-1 character, and for any
/// character beyond Latin-1.
pub open spec fn latin1_upper(c: char) -> Option<char> {
    if ('a' <= c && c <= 'z') || ('\u{e0}' <= c && c <= '\u{fe}' && c != '\u{f7}') {
        Some(((c as int) - 32) as char)
    } else if c == '\u{b5}' || c == '\u{df}' || (c as int) >= 0xff {
        None
    } else {
        Some(c)
    }
}

/// Whether every character of `s` has a Latin-1 upper-case form.
pub open spec fn all_latin1_upper(s: Seq<char>) -> bool {
    forall|i: int| 0 <= i < s.len() ==> #[trigger] latin1_upper(s[i]) is Some
}

/// The upper-case form of a string of such characters.
pub open spec fn latin1_uppercase(s: Seq<char>) -> Seq<char> {
    Seq::new(s.len(), |i: int| latin1_upper(s[i])->Some_0)
}

/// The Latin-1 upper-case form of one character.
pub fn latin1_upper_char(c: char) -> (r: Option<char>)
    ensures
        r == latin1_upper(c),
{
    if ('a' <= c && c <= 'z') || ('\u{e0}' <= c && c <= '\u{fe}' && c != '\u{f7}') {
        let code: u32 = c as u32;
        let up: u8 = (code - 32) as u8;
        Some(up as char)
    } else if c == '\u{b5}' || c == '\u{df}' || (c as u32) >= 0xff {
        None
    } else {
        Some(c)
    }
}

/// The upper-case form of `s` when every character has a Latin-1
/// upper-case form; `None` otherwise.
pub fn latin1_to_uppercase(s: &str) -> (r: Option<String>)
    ensures
        match r {
            Some(t) => all_latin1_upper(s@) && t@ == latin1_uppercase(s@),
            None => !all_latin1_upper(s@),
        },
{
    let n = s.unicode_len();
    let mut res = String::new();
    let mut i: usize = 0;
    while i < n
        invariant
            n == s@.len(),
            i <= n,
            forall|k: int| 0 <= k < i ==> #[trigger] latin1_upper(s@[k]) is Some,
            res@ =~= Seq::new(i as nat, |k: int| latin1_upper(s@[k])->Some_0),
        decreases n - i,
    {
        let c = s.get_char(i);
        match latin1_upper_char(c) {
            Some(u) => push_char(&mut res, u),
            None => return None,
        }
        i = i + 1;
    }
    Some(res)
}

} // verus!

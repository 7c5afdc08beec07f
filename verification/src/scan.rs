//! Small text utilities shared by the parsers: maximal runs of a character
//! class, substring extraction, ASCII lowercasing, and trimming.
use vstd::prelude::*;
use vstd::string::StrSliceExecFns;

use crate::chars::{
    comment_char, ftext, line_char, signature_data_char, token_char, trimmable, vchar, wsp,
};
use crate::outside::string_of_chars;

verus! {

/// The character classes that the grammar takes maximal runs of.
#[derive(Clone, Copy, PartialEq, Eq, Structural, Debug)]
pub enum CharClass {
    Wsp,
    Ftext,
    Token,
    SignatureData,
    Comment,
    VcharWsp,
    Line,
    NonComma,
    Trim,
}

pub open spec fn class_holds(k: CharClass, c: char) -> bool {
    match k {
        CharClass::Wsp => wsp(c),
        CharClass::Ftext => ftext(c),
        CharClass::Token => token_char(c),
        CharClass::SignatureData => signature_data_char(c),
        CharClass::Comment => comment_char(c),
        CharClass::VcharWsp => vchar(c) || wsp(c),
        CharClass::Line => line_char(c),
        CharClass::NonComma => c != ',',
        CharClass::Trim => trimmable(c),
    }
}

#[verifier::when_used_as_spec(class_holds)]
pub fn class_check(k: CharClass, c: char) -> (r: bool)
    ensures
        r == class_holds(k, c),
{
    match k {
        CharClass::Wsp => crate::chars::is_wsp(c),
        CharClass::Ftext => crate::chars::is_ftext_char(c),
        CharClass::Token => crate::chars::is_token_char(c),
        CharClass::SignatureData => crate::chars::is_signature_data_char(c),
        CharClass::Comment => crate::chars::is_wsp(c) || crate::chars::is_vchar(c) || (0x80
            <= c as u32 && c as u32 <= 0xfffff),
        CharClass::VcharWsp => crate::chars::is_vchar(c) || crate::chars::is_wsp(c),
        CharClass::Line => c != '\r' && c != '\n',
        CharClass::NonComma => c != ',',
        CharClass::Trim => c == ' ' || c == '\t' || c == '\r' || c == '\n',
    }
}

/// The first position at or after `i` whose character falls outside class `k`
/// (or the end of `s`).
pub open spec fn run_end(k: CharClass, s: Seq<char>, i: int) -> int
    decreases s.len() - i,
{
    if 0 <= i < s.len() && class_holds(k, s[i]) {
        run_end(k, s, i + 1)
    } else {
        i
    }
}

pub proof fn lemma_run_end(k: CharClass, s: Seq<char>, i: int)
    requires
        0 <= i <= s.len(),
    ensures
        i <= run_end(k, s, i) <= s.len(),
    decreases s.len() - i,
{
    if i < s.len() && class_holds(k, s[i]) {
        lemma_run_end(k, s, i + 1);
    }
}

/// Walks the maximal run of class `k` that starts at `i`.
pub fn scan(k: CharClass, s: &Vec<char>, i: usize) -> (j: usize)
    requires
        i <= s@.len(),
    ensures
        j == run_end(k, s@, i as int),
        i <= j <= s@.len(),
{
    let mut j: usize = i;
    while j < s.len() && class_check(k, s[j])
        invariant
            i <= j <= s@.len(),
            run_end(k, s@, i as int) == run_end(k, s@, j as int),
        decreases s@.len() - j,
    {
        proof {
            assert(run_end(k, s@, j as int) == run_end(k, s@, j as int + 1));
        }
        j = j + 1;
    }
    proof {
        assert(run_end(k, s@, j as int) == j as int);
    }
    j
}

/// Copies `s[a..b]` into a fresh vector.
pub fn subvec(s: &Vec<char>, a: usize, b: usize) -> (v: Vec<char>)
    requires
        a <= b <= s@.len(),
    ensures
        v@ == s@.subrange(a as int, b as int),
{
    let mut v: Vec<char> = Vec::new();
    let mut p: usize = a;
    while p < b
        invariant
            a <= p <= b,
            v@ == s@.subrange(a as int, p as int),
        decreases b - p,
    {
        v.push(s[p]);
        p = p + 1;
        proof {
            assert(v@ =~= s@.subrange(a as int, p as int));
        }
    }
    v
}

/// Copies `s[a..b]` into a fresh string.
pub fn string_of_range(s: &Vec<char>, a: usize, b: usize) -> (r: String)
    requires
        a <= b <= s@.len(),
    ensures
        r@ == s@.subrange(a as int, b as int),
{
    let v = subvec(s, a, b);
    string_of_chars(&v)
}

/// The characters of `s`, in order.
pub fn chars_vec(s: &str) -> (v: Vec<char>)
    ensures
        v@ == s@,
{
    let n: usize = s.unicode_len();
    let mut v: Vec<char> = Vec::new();
    let mut p: usize = 0;
    while p < n
        invariant
            0 <= p <= n,
            n == s@.len(),
            v@ == s@.subrange(0, p as int),
        decreases n - p,
    {
        let c = s.get_char(p);
        v.push(c);
        p = p + 1;
        proof {
            assert(v@ =~= s@.subrange(0, p as int));
        }
    }
    proof {
        assert(v@ =~= s@);
    }
    v
}

/// An upper-case ASCII letter mapped to lower case; anything else unchanged.
pub open spec fn lower_char(c: char) -> char {
    if 0x41 <= c as u32 && c as u32 <= 0x5a {
        (((c as u32) + 0x20) as u8) as char
    } else {
        c
    }
}

pub open spec fn lower_seq(s: Seq<char>) -> Seq<char> {
    Seq::new(s.len(), |i: int| lower_char(s[i]))
}

/// ASCII lowercasing of a character vector; field names hold only `ftext`
/// characters, so this agrees with Unicode lowercasing on every name the
/// grammar can produce.
pub fn ascii_lower(s: &Vec<char>) -> (v: Vec<char>)
    ensures
        v@ == lower_seq(s@),
{
    let mut v: Vec<char> = Vec::new();
    let mut p: usize = 0;
    while p < s.len()
        invariant
            0 <= p <= s@.len(),
            v@ == lower_seq(s@).subrange(0, p as int),
        decreases s@.len() - p,
    {
        let c = s[p];
        let lc: char = if 0x41 <= c as u32 && c as u32 <= 0x5a {
            #[verifier::truncate] (((c as u32) + 0x20) as u8) as char
        } else {
            c
        };
        v.push(lc);
        p = p + 1;
        proof {
            assert(v@ =~= lower_seq(s@).subrange(0, p as int));
        }
    }
    proof {
        assert(v@ =~= lower_seq(s@));
    }
    v
}

/// ASCII lowercasing of a whole string.
pub fn lower_string(s: &str) -> (r: String)
    ensures
        r@ == lower_seq(s@),
{
    let v = chars_vec(s);
    let lv = ascii_lower(&v);
    string_of_chars(&lv)
}

/// The first index of the suffix of trimmable characters that ends at `j`.
pub open spec fn rtrim_idx(s: Seq<char>, j: int) -> int
    decreases j,
{
    if 0 < j <= s.len() && trimmable(s[j - 1]) {
        rtrim_idx(s, j - 1)
    } else {
        j
    }
}

/// `s` with leading and trailing whitespace removed, as `str::trim` leaves it
/// on the character set a field value can hold.
pub open spec fn trim_of(s: Seq<char>) -> Seq<char> {
    let a = run_end(CharClass::Trim, s, 0);
    let b = rtrim_idx(s, s.len() as int);
    if a <= b {
        s.subrange(a, b)
    } else {
        Seq::empty()
    }
}

/// Trims `s` and hands the result back as a string.
pub fn trim_to_string(s: &Vec<char>) -> (r: String)
    ensures
        r@ == trim_of(s@),
{
    let a: usize = scan(CharClass::Trim, s, 0);
    let mut b: usize = s.len();
    while b > 0 && class_check(CharClass::Trim, s[b - 1])
        invariant
            0 <= b <= s@.len(),
            rtrim_idx(s@, s@.len() as int) == rtrim_idx(s@, b as int),
        decreases b,
    {
        proof {
            assert(rtrim_idx(s@, b as int) == rtrim_idx(s@, b as int - 1));
        }
        b = b - 1;
    }
    proof {
        assert(rtrim_idx(s@, b as int) == b as int);
    }
    if a <= b {
        string_of_range(s, a, b)
    } else {
        String::new()
    }
}

} // verus!

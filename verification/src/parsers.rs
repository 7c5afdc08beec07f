//! The line-oriented grammar of an unsigned security.txt body, after RFC 9116:
//!
//! ```text
//! body         =  1*line            ; and nothing may follow the last line
//! line         =  [ (comment / field) ] eol
//! eol          =  *WSP [CR] LF
//! comment      =  "#" *(WSP / VCHAR / %x80-FFFFF)
//! field        =  field-name ":" SP unstructured
//! field-name   =  1*ftext
//! unstructured =  *([FWS] VCHAR) *WSP     ; RFC 5322, obsolete parts omitted
//! FWS          =  [*WSP CRLF] 1*WSP
//! ```
//!
//! A comment is preferred over a field on lines that open with `#`.  The
//! captured field value runs from the start of `unstructured` to its last
//! VCHAR: internal folding whitespace is kept, the trailing `*WSP` is consumed
//! but not captured.
use vstd::prelude::*;

use crate::raw_field::{opt_rf_view, opt_rf_views, RawField, RawFieldView};
use crate::scan::{run_end, scan, string_of_range, CharClass};

verus! {

/// Where an `eol` that starts at `i` ends, if one does.
pub open spec fn eol_at(s: Seq<char>, i: int) -> Option<int> {
    let w = run_end(CharClass::Wsp, s, i);
    if w < s.len() && s[w] == '\n' {
        Some(w + 1)
    } else if w < s.len() && s[w] == '\r' && w + 1 < s.len() && s[w + 1] == '\n' {
        Some(w + 2)
    } else {
        None
    }
}

pub fn eol_parser(s: &Vec<char>, i: usize) -> (r: Option<usize>)
    requires
        i <= s@.len(),
    ensures
        match r {
            Some(e) => eol_at(s@, i as int) == Some(e as int) && i < e <= s@.len(),
            None => eol_at(s@, i as int) is None,
        },
{
    let w: usize = scan(CharClass::Wsp, s, i);
    if w < s.len() && s[w] == '\n' {
        Some(w + 1)
    } else if w < s.len() && s[w] == '\r' && w + 1 < s.len() && s[w + 1] == '\n' {
        Some(w + 2)
    } else {
        None
    }
}

/// Where an optional run of folding whitespace that starts at `i` ends: past
/// the FWS when one is present, else `i` itself.
pub open spec fn fws_opt_end(s: Seq<char>, i: int) -> int {
    let w = run_end(CharClass::Wsp, s, i);
    if w < s.len() && s[w] == '\r' && w + 1 < s.len() && s[w + 1] == '\n' {
        let w2 = run_end(CharClass::Wsp, s, w + 2);
        if w2 > w + 2 {
            w2
        } else {
            i
        }
    } else if w > i {
        w
    } else {
        i
    }
}

fn fws_opt_parser(s: &Vec<char>, i: usize) -> (k: usize)
    requires
        i <= s@.len(),
    ensures
        k == fws_opt_end(s@, i as int),
        i <= k <= s@.len(),
{
    let w: usize = scan(CharClass::Wsp, s, i);
    if w < s.len() && s[w] == '\r' && w + 1 < s.len() && s[w + 1] == '\n' {
        let w2: usize = scan(CharClass::Wsp, s, w + 2);
        if w2 > w + 2 {
            w2
        } else {
            i
        }
    } else if w > i {
        w
    } else {
        i
    }
}

/// The position after the last VCHAR that `*([FWS] VCHAR)` consumes from `i`:
/// the end of the captured part of an `unstructured` value.
pub open spec fn unstructured_core_end(s: Seq<char>, i: int) -> int
    decreases s.len() - i,
{
    let k = fws_opt_end(s, i);
    if i <= k < s.len() && crate::chars::vchar(s[k]) {
        unstructured_core_end(s, k + 1)
    } else {
        i
    }
}

pub fn unstructured_parser(s: &Vec<char>, i: usize) -> (vend: usize)
    requires
        i <= s@.len(),
    ensures
        vend == unstructured_core_end(s@, i as int),
        i <= vend <= s@.len(),
{
    let mut p: usize = i;
    #[verifier::loop_isolation(true)]
    loop
        invariant
            i <= p <= s@.len(),
            unstructured_core_end(s@, i as int) == unstructured_core_end(s@, p as int),
        ensures
            p == unstructured_core_end(s@, i as int),
        decreases s@.len() - p,
    {
        let k: usize = fws_opt_parser(s, p);
        if k < s.len() && crate::chars::is_vchar(s[k]) {
            proof {
                assert(unstructured_core_end(s@, p as int) == unstructured_core_end(
                    s@,
                    k as int + 1,
                ));
            }
            p = k + 1;
        } else {
            proof {
                assert(unstructured_core_end(s@, p as int) == p as int);
            }
            break;
        }
    }
    p
}

/// One grammar line starting at `i`: `None` when no line can be read there,
/// else the position after its LF together with the raw field it carries (a
/// comment or blank line carries none).
pub open spec fn line_at(s: Seq<char>, i: int) -> Option<(int, Option<RawFieldView>)> {
    if i < s.len() && s[i] == '#' {
        let j = run_end(CharClass::Comment, s, i + 1);
        match eol_at(s, j) {
            Some(e) => Some((e, None)),
            None => None,
        }
    } else {
        let j = run_end(CharClass::Ftext, s, i);
        if j > i && j < s.len() && s[j] == ':' && j + 1 < s.len() && s[j + 1] == ' ' {
            let vend = unstructured_core_end(s, j + 2);
            let wend = run_end(CharClass::Wsp, s, vend);
            match eol_at(s, wend) {
                Some(e) => Some(
                    (
                        e,
                        Some(
                            RawFieldView {
                                name: s.subrange(i, j),
                                value: s.subrange(j + 2, vend),
                            },
                        ),
                    ),
                ),
                None => None,
            }
        } else {
            match eol_at(s, i) {
                Some(e) => Some((e, None)),
                None => None,
            }
        }
    }
}

pub fn line_parser(s: &Vec<char>, i: usize) -> (r: Option<(usize, Option<RawField>)>)
    requires
        i <= s@.len(),
    ensures
        match r {
            Some(p) => line_at(s@, i as int) == Some((p.0 as int, opt_rf_view(p.1))) && i < p.0
                <= s@.len(),
            None => line_at(s@, i as int) is None,
        },
{
    if i < s.len() && s[i] == '#' {
        let j: usize = scan(CharClass::Comment, s, i + 1);
        match eol_parser(s, j) {
            Some(e) => Some((e, None)),
            None => None,
        }
    } else {
        let j: usize = scan(CharClass::Ftext, s, i);
        if j > i && j < s.len() && s[j] == ':' && j + 1 < s.len() && s[j + 1] == ' ' {
            let vend: usize = unstructured_parser(s, j + 2);
            let wend: usize = scan(CharClass::Wsp, s, vend);
            match eol_parser(s, wend) {
                Some(e) => {
                    let name = string_of_range(s, i, j);
                    let value = string_of_range(s, j + 2, vend);
                    Some((e, Some(RawField { name, value })))
                }
                None => None,
            }
        } else {
            match eol_parser(s, i) {
                Some(e) => Some((e, None)),
                None => None,
            }
        }
    }
}

/// Greedy repetition of `line` from `i`: the position where no further line
/// can be read, and everything collected on the way.
pub open spec fn lines_at(s: Seq<char>, i: int) -> (int, Seq<Option<RawFieldView>>)
    decreases s.len() - i,
{
    match line_at(s, i) {
        Some(p) => {
            if i < p.0 <= s.len() {
                let r = lines_at(s, p.0);
                (r.0, seq![p.1] + r.1)
            } else {
                (i, Seq::empty())
            }
        },
        None => (i, Seq::empty()),
    }
}

/// The whole unsigned body: one or more lines that consume the input exactly.
/// Trailing bytes after the final LF leave this at `None`.
pub open spec fn spec_body(s: Seq<char>) -> Option<Seq<Option<RawFieldView>>> {
    let r = lines_at(s, 0);
    if r.0 == s.len() && r.1.len() >= 1 {
        Some(r.1)
    } else {
        None
    }
}

/// Parses an unsigned body in full; `None` is a grammar failure.
pub fn body_parser(s: &Vec<char>) -> (r: Option<Vec<Option<RawField>>>)
    ensures
        match r {
            Some(v) => spec_body(s@) == Some(opt_rf_views(v@)),
            None => spec_body(s@) is None,
        },
{
    let mut out: Vec<Option<RawField>> = Vec::new();
    let mut i: usize = 0;
    #[verifier::loop_isolation(true)]
    loop
        invariant
            i <= s@.len(),
            lines_at(s@, 0).0 == lines_at(s@, i as int).0,
            lines_at(s@, 0).1 == opt_rf_views(out@) + lines_at(s@, i as int).1,
        ensures
            i <= s@.len(),
            line_at(s@, i as int) is None,
            lines_at(s@, 0).0 == i as int,
            lines_at(s@, 0).1 == opt_rf_views(out@),
        decreases s@.len() - i,
    {
        match line_parser(s, i) {
            Some(p) => {
                let (e, f) = p;
                proof {
                    let ghost tail = lines_at(s@, e as int);
                    assert(lines_at(s@, i as int) == (tail.0, seq![opt_rf_view(f)] + tail.1));
                    assert(opt_rf_views(out@.push(f)) =~= opt_rf_views(out@) + seq![
                        opt_rf_view(f),
                    ]);
                    assert((opt_rf_views(out@) + seq![opt_rf_view(f)]) + tail.1 =~= opt_rf_views(
                        out@,
                    ) + (seq![opt_rf_view(f)] + tail.1));
                }
                out.push(f);
                i = e;
            },
            None => {
                proof {
                    assert(lines_at(s@, i as int) == (i as int, Seq::<
                        Option<RawFieldView>,
                    >::empty()));
                    assert(opt_rf_views(out@) + Seq::<Option<RawFieldView>>::empty()
                        =~= opt_rf_views(out@));
                }
                break;
            },
        }
    }
    if i == s.len() && out.len() >= 1 {
        Some(out)
    } else {
        proof {
            assert(opt_rf_views(out@).len() == out@.len());
        }
        None
    }
}

} // verus!

//! The OpenPGP cleartext-signature frame of RFC 4880, section 7, as RFC 9116
//! allows it around a security.txt body:
//!
//! ```text
//! signed           =  cleartext-header 1*hash-header EOL cleartext signature
//! cleartext-header =  "-----BEGIN PGP SIGNED MESSAGE-----" EOL
//! hash-header      =  "Hash: " token *("," token) EOL
//! cleartext        =  *((line-dash / line-nodash) [CR] LF)
//! signature        =  "-----BEGIN PGP SIGNATURE-----" EOL
//!                     *armor-key EOL signature-data
//!                     "-----END PGP SIGNATURE-----" EOL
//! armor-key        =  token ": " *(VCHAR / WSP) EOL
//! signature-data   =  1*(1*(ALPHA / DIGIT / "=" / "+" / "/") EOL)
//! ```
//!
//! `EOL` is CRLF under strict options and `[CR] LF` otherwise; the endings of
//! cleartext lines are `[CR] LF` either way.  A cleartext line that opens
//! with `"- "` loses that prefix (dash-unescaping); one that opens with a
//! bare `-` ends the cleartext.  The recovered payload is the concatenation
//! of the unescaped lines, each keeping its ending.  The signature is kept
//! only to show the envelope is well formed; nothing checks its bytes.
use vstd::prelude::*;
use vstd::string::StringExecFns;

use crate::parse_error::ParseError;
use crate::scan::{run_end, scan, string_of_range, CharClass};
use crate::securitytxt_options::SecurityTxtOptions;

verus! {

/// The armored signature block: its base64 payload (line endings included)
/// and its armor keys.
#[derive(Debug, PartialEq)]
pub struct PGPSignature {
    pub signature: String,
    pub keys: Vec<(String, String)>,
}

/// The mathematical shadow of a `PGPSignature`.
pub struct PGPSignatureView {
    pub signature: Seq<char>,
    pub keys: Seq<(Seq<char>, Seq<char>)>,
}

impl View for PGPSignature {
    type V = PGPSignatureView;

    open spec fn view(&self) -> PGPSignatureView {
        PGPSignatureView { signature: self.signature@, keys: self.keys.deep_view() }
    }
}

/// A recognized cleartext envelope: the hash-armor headers, the recovered
/// (dash-unescaped) payload, and the signature block.
#[derive(Debug, PartialEq)]
pub struct PGPCleartextMessage {
    pub hash_armor_headers: Vec<Vec<String>>,
    pub cleartext: String,
    pub signature: PGPSignature,
}

/// The mathematical shadow of a `PGPCleartextMessage`.
pub struct PGPCleartextMessageView {
    pub hash_armor_headers: Seq<Seq<Seq<char>>>,
    pub cleartext: Seq<char>,
    pub signature: PGPSignatureView,
}

impl View for PGPCleartextMessage {
    type V = PGPCleartextMessageView;

    open spec fn view(&self) -> PGPCleartextMessageView {
        PGPCleartextMessageView {
            hash_armor_headers: self.hash_armor_headers.deep_view(),
            cleartext: self.cleartext@,
            signature: self.signature@,
        }
    }
}

/// Whether the characters of `t` stand at `i` in `s`.
pub open spec fn tag_at(s: Seq<char>, i: int, t: Seq<char>) -> bool {
    0 <= i && i + t.len() <= s.len() && s.subrange(i, i + t.len()) == t
}

/// Where a frame EOL starting at `i` ends: CRLF under strict options, else
/// LF or CRLF.
pub open spec fn peol_at(s: Seq<char>, i: int, strict: bool) -> Option<int> {
    if strict {
        if 0 <= i && i < s.len() && s[i] == '\r' && i + 1 < s.len() && s[i + 1] == '\n' {
            Some(i + 2)
        } else {
            None
        }
    } else {
        if 0 <= i && i < s.len() && s[i] == '\n' {
            Some(i + 1)
        } else if 0 <= i && i < s.len() && s[i] == '\r' && i + 1 < s.len() && s[i + 1] == '\n' {
            Some(i + 2)
        } else {
            None
        }
    }
}

/// Where a cleartext line ending starting at `i` ends: LF or CRLF, whatever
/// the options say.
pub open spec fn lineend_at(s: Seq<char>, i: int) -> Option<int> {
    if 0 <= i && i < s.len() && s[i] == '\n' {
        Some(i + 1)
    } else if 0 <= i && i < s.len() && s[i] == '\r' && i + 1 < s.len() && s[i + 1] == '\n' {
        Some(i + 2)
    } else {
        None
    }
}

/// One cleartext line starting at `i`: the position after its ending, and
/// its dash-unescaped text with the ending kept.  A line whose remainder
/// after the optional `"- "` opens with `-` only parses when the `"- "` was
/// there; a lone CR inside a line parses nowhere.
pub open spec fn clearline_at(s: Seq<char>, i: int) -> Option<(int, Seq<char>)> {
    if 0 <= i && i + 1 < s.len() && s[i] == '-' && s[i + 1] == ' ' {
        if i + 2 < s.len() {
            let c = run_end(CharClass::Line, s, i + 2);
            if i + 2 <= c <= s.len() {
                match lineend_at(s, c) {
                    Some(e) => Some((e, s.subrange(i + 2, e))),
                    None => None,
                }
            } else {
                None
            }
        } else {
            None
        }
    } else if 0 <= i && i < s.len() && s[i] != '-' {
        let c = run_end(CharClass::Line, s, i);
        if i <= c <= s.len() {
            match lineend_at(s, c) {
                Some(e) => Some((e, s.subrange(i, e))),
                None => None,
            }
        } else {
            None
        }
    } else {
        None
    }
}

/// Greedy repetition of cleartext lines from `i`: where they stop, and the
/// concatenation of their unescaped texts.
pub open spec fn cleartext_at(s: Seq<char>, i: int) -> (int, Seq<char>)
    decreases s.len() - i,
{
    match clearline_at(s, i) {
        Some(p) => {
            if i < p.0 <= s.len() {
                let r = cleartext_at(s, p.0);
                (r.0, p.1 + r.1)
            } else {
                (i, Seq::empty())
            }
        },
        None => (i, Seq::empty()),
    }
}

/// The `*("," token)` tail of a hash header from `i`: where it stops, and
/// the tokens gathered.
pub open spec fn hash_algs_rest(s: Seq<char>, i: int) -> (int, Seq<Seq<char>>)
    decreases s.len() - i,
{
    if 0 <= i && i < s.len() && s[i] == ',' {
        let j = run_end(CharClass::Token, s, i + 1);
        if i + 1 < j <= s.len() {
            let r = hash_algs_rest(s, j);
            (r.0, seq![s.subrange(i + 1, j)] + r.1)
        } else {
            (i, Seq::empty())
        }
    } else {
        (i, Seq::empty())
    }
}

/// One `hash-header` line at `i`: the position after its EOL and its hash
/// algorithm tokens.
pub open spec fn hash_header_at(s: Seq<char>, i: int, strict: bool) -> Option<
    (int, Seq<Seq<char>>),
> {
    let t = "Hash: "@;
    if tag_at(s, i, t) {
        let h = i + t.len();
        let j = run_end(CharClass::Token, s, h);
        if h < j <= s.len() {
            let r = hash_algs_rest(s, j);
            match peol_at(s, r.0, strict) {
                Some(e) => Some((e, seq![s.subrange(h, j)] + r.1)),
                None => None,
            }
        } else {
            None
        }
    } else {
        None
    }
}

/// Greedy repetition of hash headers from `i`.
pub open spec fn hash_headers_rest(s: Seq<char>, i: int, strict: bool) -> (
    int,
    Seq<Seq<Seq<char>>>,
)
    decreases s.len() - i,
{
    match hash_header_at(s, i, strict) {
        Some(p) => {
            if i < p.0 <= s.len() {
                let r = hash_headers_rest(s, p.0, strict);
                (r.0, seq![p.1] + r.1)
            } else {
                (i, Seq::empty())
            }
        },
        None => (i, Seq::empty()),
    }
}

/// One `armor-key` line at `i`: the position after its EOL, the key and the
/// value.
pub open spec fn armor_key_at(s: Seq<char>, i: int, strict: bool) -> Option<
    (int, (Seq<char>, Seq<char>)),
> {
    let j = run_end(CharClass::Token, s, i);
    if 0 <= i && i < j <= s.len() && tag_at(s, j, ": "@) {
        let v = run_end(CharClass::VcharWsp, s, j + 2);
        if j + 2 <= v <= s.len() {
            match peol_at(s, v, strict) {
                Some(e) => Some((e, (s.subrange(i, j), s.subrange(j + 2, v)))),
                None => None,
            }
        } else {
            None
        }
    } else {
        None
    }
}

/// Greedy repetition of armor keys from `i`.
pub open spec fn armor_keys_rest(s: Seq<char>, i: int, strict: bool) -> (
    int,
    Seq<(Seq<char>, Seq<char>)>,
)
    decreases s.len() - i,
{
    match armor_key_at(s, i, strict) {
        Some(p) => {
            if i < p.0 <= s.len() {
                let r = armor_keys_rest(s, p.0, strict);
                (r.0, seq![p.1] + r.1)
            } else {
                (i, Seq::empty())
            }
        },
        None => (i, Seq::empty()),
    }
}

/// One signature-data line at `i`: one or more base64 characters, then an
/// EOL.
pub open spec fn sig_line_at(s: Seq<char>, i: int, strict: bool) -> Option<int> {
    let j = run_end(CharClass::SignatureData, s, i);
    if 0 <= i && i < j <= s.len() {
        peol_at(s, j, strict)
    } else {
        None
    }
}

/// Greedy repetition of signature-data lines from `i`.
pub open spec fn sig_lines_rest(s: Seq<char>, i: int, strict: bool) -> int
    decreases s.len() - i,
{
    match sig_line_at(s, i, strict) {
        Some(e) => {
            if i < e <= s.len() {
                sig_lines_rest(s, e, strict)
            } else {
                i
            }
        },
        None => i,
    }
}

/// The whole signature-data block at `i`: at least one line, greedily many.
pub open spec fn sig_data_at(s: Seq<char>, i: int, strict: bool) -> Option<int> {
    match sig_line_at(s, i, strict) {
        Some(e) => {
            if i < e <= s.len() {
                Some(sig_lines_rest(s, e, strict))
            } else {
                None
            }
        },
        None => None,
    }
}

/// The armored signature block at `i`: the position after its tail EOL and
/// what it holds.
pub open spec fn signature_at(s: Seq<char>, i: int, strict: bool) -> Option<
    (int, PGPSignatureView),
> {
    let th = "-----BEGIN PGP SIGNATURE-----"@;
    let tt = "-----END PGP SIGNATURE-----"@;
    if tag_at(s, i, th) {
        match peol_at(s, i + th.len(), strict) {
            Some(a) => {
                let kr = armor_keys_rest(s, a, strict);
                if a <= kr.0 <= s.len() {
                    match peol_at(s, kr.0, strict) {
                        Some(b) => match sig_data_at(s, b, strict) {
                            Some(d) => {
                                if b <= d <= s.len() && tag_at(s, d, tt) {
                                    match peol_at(s, d + tt.len(), strict) {
                                        Some(e) => Some(
                                            (
                                                e,
                                                PGPSignatureView {
                                                    signature: s.subrange(b, d),
                                                    keys: kr.1,
                                                },
                                            ),
                                        ),
                                        None => None,
                                    }
                                } else {
                                    None
                                }
                            },
                            None => None,
                        },
                        None => None,
                    }
                } else {
                    None
                }
            },
            None => None,
        }
    } else {
        None
    }
}

/// The whole signed document: header, hash headers, a blank EOL, the
/// cleartext, and the signature, consuming the input exactly.
pub open spec fn signed_at(s: Seq<char>, strict: bool) -> Option<PGPCleartextMessageView> {
    let t0 = "-----BEGIN PGP SIGNED MESSAGE-----"@;
    if tag_at(s, 0, t0) {
        match peol_at(s, t0.len() as int, strict) {
            Some(a) => match hash_header_at(s, a, strict) {
                Some(h) => {
                    if a < h.0 <= s.len() {
                        let hr = hash_headers_rest(s, h.0, strict);
                        if h.0 <= hr.0 <= s.len() {
                            match peol_at(s, hr.0, strict) {
                                Some(b) => {
                                    let cr = cleartext_at(s, b);
                                    if b <= cr.0 <= s.len() {
                                        match signature_at(s, cr.0, strict) {
                                            Some(sg) => {
                                                if sg.0 == s.len() {
                                                    Some(
                                                        PGPCleartextMessageView {
                                                            hash_armor_headers: seq![h.1] + hr.1,
                                                            cleartext: cr.1,
                                                            signature: sg.1,
                                                        },
                                                    )
                                                } else {
                                                    None
                                                }
                                            },
                                            None => None,
                                        }
                                    } else {
                                        None
                                    }
                                },
                                None => None,
                            }
                        } else {
                            None
                        }
                    } else {
                        None
                    }
                },
                None => None,
            },
            None => None,
        }
    } else {
        None
    }
}

/// Compares the characters of `s` at `i` against the literal `t`.
pub fn match_tag(s: &Vec<char>, i: usize, t: &str) -> (r: Option<usize>)
    requires
        i <= s@.len(),
    ensures
        match r {
            Some(e) => tag_at(s@, i as int, t@) && e == i + t@.len() && i <= e <= s@.len(),
            None => !tag_at(s@, i as int, t@),
        },
{
    let n: usize = t.unicode_len();
    let sl: usize = s.len();
    if n > sl - i {
        return None;
    }
    let stop: usize = i + n;
    let mut q: usize = i;
    #[verifier::loop_isolation(true)]
    while q < stop
        invariant
            i <= q <= stop,
            stop == i + n,
            n == t@.len(),
            stop <= s@.len(),
            forall|m: int| 0 <= m < q - i ==> s@[i + m] == t@[m],
        decreases stop - q,
    {
        if s[q] != t.get_char(q - i) {
            proof {
                if tag_at(s@, i as int, t@) {
                    assert(s@.subrange(i as int, i + t@.len())[q - i] == t@[q - i]);
                }
            }
            return None;
        }
        q = q + 1;
    }
    proof {
        assert(s@.subrange(i as int, i + t@.len()) =~= t@);
    }
    Some(stop)
}

/// Recognizes a PGP cleartext envelope under the line-ending dialect that
/// its options call for.
pub struct PGPCleartextMessageParser {
    options: SecurityTxtOptions,
}

impl PGPCleartextMessageParser {
    /// The `strict` flag this parser was built with.
    pub closed spec fn spec_strict(&self) -> bool {
        self.options.strict
    }

    pub fn new(options: &SecurityTxtOptions) -> (r: Self)
        ensures
            r.spec_strict() == options.strict,
    {
        Self { options: *options }
    }

    /// A frame EOL at `i`.
    pub fn lf_parser(&self, s: &Vec<char>, i: usize) -> (r: Option<usize>)
        requires
            i <= s@.len(),
        ensures
            match r {
                Some(e) => peol_at(s@, i as int, self.spec_strict()) == Some(e as int) && i < e
                    <= s@.len(),
                None => peol_at(s@, i as int, self.spec_strict()) is None,
            },
    {
        if self.options.strict {
            if i < s.len() && s[i] == '\r' && i + 1 < s.len() && s[i + 1] == '\n' {
                Some(i + 2)
            } else {
                None
            }
        } else {
            if i < s.len() && s[i] == '\n' {
                Some(i + 1)
            } else if i < s.len() && s[i] == '\r' && i + 1 < s.len() && s[i + 1] == '\n' {
                Some(i + 2)
            } else {
                None
            }
        }
    }

    /// A cleartext line ending at `i`.
    fn lineend_parser(&self, s: &Vec<char>, i: usize) -> (r: Option<usize>)
        requires
            i <= s@.len(),
        ensures
            match r {
                Some(e) => lineend_at(s@, i as int) == Some(e as int) && i < e <= s@.len(),
                None => lineend_at(s@, i as int) is None,
            },
    {
        if i < s.len() && s[i] == '\n' {
            Some(i + 1)
        } else if i < s.len() && s[i] == '\r' && i + 1 < s.len() && s[i + 1] == '\n' {
            Some(i + 2)
        } else {
            None
        }
    }

    /// The opening armor line.
    pub fn cleartext_header_parser(&self, s: &Vec<char>, i: usize) -> (r: Option<usize>)
        requires
            i <= s@.len(),
        ensures
            match r {
                Some(e) => tag_at(s@, i as int, "-----BEGIN PGP SIGNED MESSAGE-----"@)
                    && peol_at(
                    s@,
                    i + "-----BEGIN PGP SIGNED MESSAGE-----"@.len(),
                    self.spec_strict(),
                ) == Some(e as int) && i < e <= s@.len(),
                None => ({
                    ||| !tag_at(s@, i as int, "-----BEGIN PGP SIGNED MESSAGE-----"@)
                    ||| peol_at(
                        s@,
                        i + "-----BEGIN PGP SIGNED MESSAGE-----"@.len(),
                        self.spec_strict(),
                    ) is None
                }),
            },
    {
        match match_tag(s, i, "-----BEGIN PGP SIGNED MESSAGE-----") {
            Some(j) => self.lf_parser(s, j),
            None => None,
        }
    }

    /// One or more token characters at `i`.
    pub fn token_parser(&self, s: &Vec<char>, i: usize) -> (r: Option<(usize, String)>)
        requires
            i <= s@.len(),
        ensures
            ({
                let j = run_end(CharClass::Token, s@, i as int);
                match r {
                    Some(p) => i < j && p.0 == j && p.1@ == s@.subrange(i as int, j),
                    None => j == i,
                }
            }),
    {
        let j: usize = scan(CharClass::Token, s, i);
        if j > i {
            Some((j, string_of_range(s, i, j)))
        } else {
            None
        }
    }

    /// A whole `hash-header` line at `i`.
    pub fn hash_header_parser(&self, s: &Vec<char>, i: usize) -> (r: Option<(usize, Vec<String>)>)
        requires
            i <= s@.len(),
        ensures
            match r {
                Some(p) => hash_header_at(s@, i as int, self.spec_strict()) == Some(
                    (p.0 as int, p.1.deep_view()),
                ) && i < p.0 <= s@.len(),
                None => hash_header_at(s@, i as int, self.spec_strict()) is None,
            },
    {
        let h: usize = match match_tag(s, i, "Hash: ") {
            Some(h) => h,
            None => {
                return None;
            },
        };
        let j: usize = scan(CharClass::Token, s, h);
        if j == h {
            return None;
        }
        let mut algs: Vec<String> = Vec::new();
        algs.push(string_of_range(s, h, j));
        let mut p: usize = j;
        proof {
            assert(algs.deep_view() =~= seq![s@.subrange(h as int, j as int)]);
        }
        #[verifier::loop_isolation(true)]
        loop
            invariant
                j <= p <= s@.len(),
                h < j <= s@.len(),
                hash_algs_rest(s@, j as int).0 == hash_algs_rest(s@, p as int).0,
                seq![s@.subrange(h as int, j as int)] + hash_algs_rest(s@, j as int).1
                    =~= algs.deep_view() + hash_algs_rest(s@, p as int).1,
            ensures
                p <= s@.len(),
                hash_algs_rest(s@, j as int).0 == p as int,
                seq![s@.subrange(h as int, j as int)] + hash_algs_rest(s@, j as int).1
                    =~= algs.deep_view(),
            decreases s@.len() - p,
        {
            if p < s.len() && s[p] == ',' {
                let q: usize = scan(CharClass::Token, s, p + 1);
                if q > p + 1 {
                    proof {
                        let ghost rest = hash_algs_rest(s@, q as int);
                        assert(hash_algs_rest(s@, p as int) == (
                            rest.0,
                            seq![s@.subrange(p + 1, q as int)] + rest.1,
                        ));
                    }
                    let alg = string_of_range(s, p + 1, q);
                    let ghost pre = algs.deep_view();
                    let ghost av = alg@;
                    algs.push(alg);
                    proof {
                        assert(algs.deep_view() =~= pre + seq![av]);
                        assert(algs.deep_view() + hash_algs_rest(s@, q as int).1 =~= seq![
                            s@.subrange(h as int, j as int),
                        ] + hash_algs_rest(s@, j as int).1);
                    }
                    p = q;
                } else {
                    proof {
                        assert(hash_algs_rest(s@, p as int) == (
                            p as int,
                            Seq::<Seq<char>>::empty(),
                        ));
                        assert(algs.deep_view() + Seq::<Seq<char>>::empty() =~= algs.deep_view());
                    }
                    break;
                }
            } else {
                proof {
                    assert(hash_algs_rest(s@, p as int) == (p as int, Seq::<Seq<char>>::empty()));
                    assert(algs.deep_view() + Seq::<Seq<char>>::empty() =~= algs.deep_view());
                }
                break;
            }
        }
        match self.lf_parser(s, p) {
            Some(e) => Some((e, algs)),
            None => None,
        }
    }

    /// A dash-escaped cleartext line at `i`: `"- "` then a line that opens
    /// with `-`, unescaped by dropping the `"- "`.
    pub fn line_dash_parser(&self, s: &Vec<char>, i: usize) -> (r: Option<(usize, String)>)
        requires
            i <= s@.len(),
        ensures
            match r {
                Some(p) => i + 1 < s@.len() && s@[i as int] == '-' && s@[i + 1] == ' ' && i + 2
                    < s@.len() && s@[i + 2] == '-' && clearline_at(s@, i as int) == Some(
                    (p.0 as int, p.1@),
                ) && i < p.0 <= s@.len(),
                None => !(i + 1 < s@.len() && s@[i as int] == '-' && s@[i + 1] == ' ' && i + 2
                    < s@.len() && s@[i + 2] == '-' && clearline_at(s@, i as int) is Some),
            },
    {
        if i < s.len() && i + 1 < s.len() && s[i] == '-' && s[i + 1] == ' ' && i + 2 < s.len()
            && s[i + 2] == '-' {
            let c: usize = scan(CharClass::Line, s, i + 2);
            match self.lineend_parser(s, c) {
                Some(e) => Some((e, string_of_range(s, i + 2, e))),
                None => None,
            }
        } else {
            None
        }
    }

    /// An unescaped cleartext line at `i`: an optional `"- "` dropped, the
    /// remainder not opening with `-`.
    pub fn line_nodash_parser(&self, s: &Vec<char>, i: usize) -> (r: Option<(usize, String)>)
        requires
            i <= s@.len(),
        ensures
            match r {
                Some(p) => clearline_at(s@, i as int) == Some((p.0 as int, p.1@)) && i < p.0
                    <= s@.len(),
                None => !(i + 1 < s@.len() && s@[i as int] == '-' && s@[i + 1] == ' ' && i + 2
                    < s@.len() && s@[i + 2] == '-') ==> clearline_at(s@, i as int) is None,
            },
    {
        if i < s.len() && i + 1 < s.len() && s[i] == '-' && s[i + 1] == ' ' {
            if i + 2 < s.len() && s[i + 2] != '-' {
                let c: usize = scan(CharClass::Line, s, i + 2);
                match self.lineend_parser(s, c) {
                    Some(e) => Some((e, string_of_range(s, i + 2, e))),
                    None => None,
                }
            } else {
                None
            }
        } else if i < s.len() && s[i] != '-' {
            let c: usize = scan(CharClass::Line, s, i);
            match self.lineend_parser(s, c) {
                Some(e) => Some((e, string_of_range(s, i, e))),
                None => None,
            }
        } else {
            None
        }
    }

    /// One cleartext line at `i`, dash branch first.
    fn clearline_parser(&self, s: &Vec<char>, i: usize) -> (r: Option<(usize, String)>)
        requires
            i <= s@.len(),
        ensures
            match r {
                Some(p) => clearline_at(s@, i as int) == Some((p.0 as int, p.1@)) && i < p.0
                    <= s@.len(),
                None => clearline_at(s@, i as int) is None,
            },
    {
        match self.line_dash_parser(s, i) {
            Some(p) => Some(p),
            None => self.line_nodash_parser(s, i),
        }
    }

    /// The whole cleartext from `i`: greedy lines, concatenated after
    /// unescaping.
    pub fn cleartext_parser(&self, s: &Vec<char>, i: usize) -> (r: (usize, String))
        requires
            i <= s@.len(),
        ensures
            cleartext_at(s@, i as int) == (r.0 as int, r.1@),
            i <= r.0 <= s@.len(),
    {
        let mut acc: String = String::new();
        let mut p: usize = i;
        #[verifier::loop_isolation(true)]
        loop
            invariant
                i <= p <= s@.len(),
                cleartext_at(s@, i as int).0 == cleartext_at(s@, p as int).0,
                cleartext_at(s@, i as int).1 == acc@ + cleartext_at(s@, p as int).1,
            ensures
                i <= p <= s@.len(),
                cleartext_at(s@, i as int).0 == p as int,
                cleartext_at(s@, i as int).1 == acc@,
            decreases s@.len() - p,
        {
            match self.clearline_parser(s, p) {
                Some(q) => {
                    let (e, line) = q;
                    proof {
                        let ghost rest = cleartext_at(s@, e as int);
                        assert(cleartext_at(s@, p as int) == (rest.0, line@ + rest.1));
                        assert((acc@ + line@) + rest.1 =~= acc@ + (line@ + rest.1));
                    }
                    acc.append(line.as_str());
                    p = e;
                },
                None => {
                    proof {
                        assert(cleartext_at(s@, p as int) == (p as int, Seq::<char>::empty()));
                        assert(acc@ + Seq::<char>::empty() =~= acc@);
                    }
                    break;
                },
            }
        }
        (p, acc)
    }

    /// The opening line of the signature block.
    pub fn armor_header_parser(&self, s: &Vec<char>, i: usize) -> (r: Option<usize>)
        requires
            i <= s@.len(),
        ensures
            match r {
                Some(e) => tag_at(s@, i as int, "-----BEGIN PGP SIGNATURE-----"@)
                    && peol_at(
                    s@,
                    i + "-----BEGIN PGP SIGNATURE-----"@.len(),
                    self.spec_strict(),
                ) == Some(e as int) && i < e <= s@.len(),
                None => ({
                    ||| !tag_at(s@, i as int, "-----BEGIN PGP SIGNATURE-----"@)
                    ||| peol_at(
                        s@,
                        i + "-----BEGIN PGP SIGNATURE-----"@.len(),
                        self.spec_strict(),
                    ) is None
                }),
            },
    {
        match match_tag(s, i, "-----BEGIN PGP SIGNATURE-----") {
            Some(j) => self.lf_parser(s, j),
            None => None,
        }
    }

    /// The closing line of the signature block.
    pub fn armor_tail_parser(&self, s: &Vec<char>, i: usize) -> (r: Option<usize>)
        requires
            i <= s@.len(),
        ensures
            match r {
                Some(e) => tag_at(s@, i as int, "-----END PGP SIGNATURE-----"@)
                    && peol_at(
                    s@,
                    i + "-----END PGP SIGNATURE-----"@.len(),
                    self.spec_strict(),
                ) == Some(e as int) && i < e <= s@.len(),
                None => ({
                    ||| !tag_at(s@, i as int, "-----END PGP SIGNATURE-----"@)
                    ||| peol_at(
                        s@,
                        i + "-----END PGP SIGNATURE-----"@.len(),
                        self.spec_strict(),
                    ) is None
                }),
            },
    {
        match match_tag(s, i, "-----END PGP SIGNATURE-----") {
            Some(j) => self.lf_parser(s, j),
            None => None,
        }
    }

    /// The `*armor-key` run from `i`.
    pub fn armor_keys_parser(&self, s: &Vec<char>, i: usize) -> (r: (
        usize,
        Vec<(String, String)>,
    ))
        requires
            i <= s@.len(),
        ensures
            armor_keys_rest(s@, i as int, self.spec_strict()).0 == r.0 as int,
            armor_keys_rest(s@, i as int, self.spec_strict()).1 == r.1.deep_view(),
            i <= r.0 <= s@.len(),
    {
        let mut keys: Vec<(String, String)> = Vec::new();
        let mut p: usize = i;
        proof {
            assert(keys.deep_view() =~= Seq::<(Seq<char>, Seq<char>)>::empty());
        }
        #[verifier::loop_isolation(true)]
        loop
            invariant
                i <= p <= s@.len(),
                armor_keys_rest(s@, i as int, self.spec_strict()).0 == armor_keys_rest(
                    s@,
                    p as int,
                    self.spec_strict(),
                ).0,
                armor_keys_rest(s@, i as int, self.spec_strict()).1 =~= keys.deep_view()
                    + armor_keys_rest(s@, p as int, self.spec_strict()).1,
            ensures
                i <= p <= s@.len(),
                armor_keys_rest(s@, i as int, self.spec_strict()).0 == p as int,
                armor_keys_rest(s@, i as int, self.spec_strict()).1 =~= keys.deep_view(),
            decreases s@.len() - p,
        {
            match self.armor_key_parser(s, p) {
                Some(q) => {
                    let (e, kv) = q;
                    proof {
                        let ghost rest = armor_keys_rest(s@, e as int, self.spec_strict());
                        assert(armor_keys_rest(s@, p as int, self.spec_strict()) == (
                            rest.0,
                            seq![(kv.0@, kv.1@)] + rest.1,
                        ));
                    }
                    let ghost pre = keys.deep_view();
                    let ghost kvv = (kv.0@, kv.1@);
                    keys.push(kv);
                    proof {
                        assert(keys.deep_view() =~= pre + seq![kvv]);
                        assert(keys.deep_view() + armor_keys_rest(
                            s@,
                            e as int,
                            self.spec_strict(),
                        ).1 =~= armor_keys_rest(s@, i as int, self.spec_strict()).1);
                    }
                    p = e;
                },
                None => {
                    proof {
                        assert(armor_keys_rest(s@, p as int, self.spec_strict()) == (
                            p as int,
                            Seq::<(Seq<char>, Seq<char>)>::empty(),
                        ));
                        assert(keys.deep_view() + Seq::<(Seq<char>, Seq<char>)>::empty()
                            =~= keys.deep_view());
                    }
                    break;
                },
            }
        }
        (p, keys)
    }

    /// One armor-key line at `i`.
    fn armor_key_parser(&self, s: &Vec<char>, i: usize) -> (r: Option<(usize, (String, String))>)
        requires
            i <= s@.len(),
        ensures
            match r {
                Some(p) => armor_key_at(s@, i as int, self.spec_strict()) == Some(
                    (p.0 as int, (p.1.0@, p.1.1@)),
                ) && i < p.0 <= s@.len(),
                None => armor_key_at(s@, i as int, self.spec_strict()) is None,
            },
    {
        let j: usize = scan(CharClass::Token, s, i);
        if j == i {
            return None;
        }
        proof {
            reveal_strlit(": ");
        }
        let c: usize = match match_tag(s, j, ": ") {
            Some(c) => c,
            None => {
                return None;
            },
        };
        let v: usize = scan(CharClass::VcharWsp, s, c);
        match self.lf_parser(s, v) {
            Some(e) => {
                let key = string_of_range(s, i, j);
                let val = string_of_range(s, c, v);
                Some((e, (key, val)))
            },
            None => None,
        }
    }

    /// The base64 signature data from `i`: one line or more, line endings
    /// kept.
    pub fn signature_data_parser(&self, s: &Vec<char>, i: usize) -> (r: Option<(usize, String)>)
        requires
            i <= s@.len(),
        ensures
            match r {
                Some(p) => sig_data_at(s@, i as int, self.spec_strict()) == Some(p.0 as int) && p.1@
                    == s@.subrange(i as int, p.0 as int) && i < p.0 <= s@.len(),
                None => sig_data_at(s@, i as int, self.spec_strict()) is None,
            },
    {
        let j: usize = scan(CharClass::SignatureData, s, i);
        if j == i {
            return None;
        }
        let e0: usize = match self.lf_parser(s, j) {
            Some(e0) => e0,
            None => {
                return None;
            },
        };
        let mut p: usize = e0;
        #[verifier::loop_isolation(true)]
        loop
            invariant
                i < e0 <= p <= s@.len(),
                sig_lines_rest(s@, e0 as int, self.spec_strict()) == sig_lines_rest(
                    s@,
                    p as int,
                    self.spec_strict(),
                ),
            ensures
                i < p <= s@.len(),
                sig_lines_rest(s@, e0 as int, self.spec_strict()) == p as int,
            decreases s@.len() - p,
        {
            let q: usize = scan(CharClass::SignatureData, s, p);
            if q == p {
                proof {
                    assert(sig_line_at(s@, p as int, self.spec_strict()) is None);
                    assert(sig_lines_rest(s@, p as int, self.spec_strict()) == p as int);
                }
                break;
            }
            match self.lf_parser(s, q) {
                Some(e) => {
                    proof {
                        assert(sig_line_at(s@, p as int, self.spec_strict()) == Some(e as int));
                        assert(sig_lines_rest(s@, p as int, self.spec_strict()) == sig_lines_rest(
                            s@,
                            e as int,
                            self.spec_strict(),
                        ));
                    }
                    p = e;
                },
                None => {
                    proof {
                        assert(sig_line_at(s@, p as int, self.spec_strict()) is None);
                        assert(sig_lines_rest(s@, p as int, self.spec_strict()) == p as int);
                    }
                    break;
                },
            }
        }
        Some((p, string_of_range(s, i, p)))
    }

    /// The whole signature block at `i`.
    pub fn signature_parser(&self, s: &Vec<char>, i: usize) -> (r: Option<(usize, PGPSignature)>)
        requires
            i <= s@.len(),
        ensures
            match r {
                Some(p) => signature_at(s@, i as int, self.spec_strict()) == Some(
                    (p.0 as int, p.1@),
                ) && i < p.0 <= s@.len(),
                None => signature_at(s@, i as int, self.spec_strict()) is None,
            },
    {
        let a: usize = match self.armor_header_parser(s, i) {
            Some(a) => a,
            None => {
                return None;
            },
        };
        let kr = self.armor_keys_parser(s, a);
        let (kend, keys) = kr;
        let b: usize = match self.lf_parser(s, kend) {
            Some(b) => b,
            None => {
                return None;
            },
        };
        match self.signature_data_parser(s, b) {
            Some(dp) => {
                let (d, data) = dp;
                match self.armor_tail_parser(s, d) {
                    Some(e) => Some((e, PGPSignature { signature: data, keys })),
                    None => None,
                }
            },
            None => None,
        }
    }

    /// The whole signed document, which must consume the input exactly.
    pub fn signed_parser(&self, s: &Vec<char>) -> (r: Option<PGPCleartextMessage>)
        ensures
            match r {
                Some(m) => signed_at(s@, self.spec_strict()) == Some(m@),
                None => signed_at(s@, self.spec_strict()) is None,
            },
    {
        let a: usize = match self.cleartext_header_parser(s, 0) {
            Some(a) => a,
            None => {
                return None;
            },
        };
        let h = match self.hash_header_parser(s, a) {
            Some(h) => h,
            None => {
                return None;
            },
        };
        let (h0, first) = h;
        let ghost firstv = first.deep_view();
        let mut headers: Vec<Vec<String>> = Vec::new();
        headers.push(first);
        let mut p: usize = h0;
        proof {
            assert(headers.deep_view() =~= seq![firstv]);
        }
        #[verifier::loop_isolation(true)]
        loop
            invariant
                h0 <= p <= s@.len(),
                hash_headers_rest(s@, h0 as int, self.spec_strict()).0 == hash_headers_rest(
                    s@,
                    p as int,
                    self.spec_strict(),
                ).0,
                seq![firstv] + hash_headers_rest(s@, h0 as int, self.spec_strict()).1
                    =~= headers.deep_view() + hash_headers_rest(s@, p as int, self.spec_strict()).1,
            ensures
                h0 <= p <= s@.len(),
                hash_headers_rest(s@, h0 as int, self.spec_strict()).0 == p as int,
                seq![firstv] + hash_headers_rest(s@, h0 as int, self.spec_strict()).1
                    =~= headers.deep_view(),
            decreases s@.len() - p,
        {
            match self.hash_header_parser(s, p) {
                Some(hp) => {
                    let (e, algs) = hp;
                    proof {
                        let ghost rest = hash_headers_rest(s@, e as int, self.spec_strict());
                        assert(hash_headers_rest(s@, p as int, self.spec_strict()) == (
                            rest.0,
                            seq![algs.deep_view()] + rest.1,
                        ));
                    }
                    let ghost pre = headers.deep_view();
                    let ghost algsv = algs.deep_view();
                    headers.push(algs);
                    proof {
                        assert(headers.deep_view() =~= pre + seq![algsv]);
                        assert(headers.deep_view() + hash_headers_rest(
                            s@,
                            e as int,
                            self.spec_strict(),
                        ).1 =~= seq![firstv] + hash_headers_rest(
                            s@,
                            h0 as int,
                            self.spec_strict(),
                        ).1);
                    }
                    p = e;
                },
                None => {
                    proof {
                        assert(hash_headers_rest(s@, p as int, self.spec_strict()) == (
                            p as int,
                            Seq::<Seq<Seq<char>>>::empty(),
                        ));
                        assert(headers.deep_view() + Seq::<Seq<Seq<char>>>::empty()
                            =~= headers.deep_view());
                    }
                    break;
                },
            }
        }
        let b: usize = match self.lf_parser(s, p) {
            Some(b) => b,
            None => {
                return None;
            },
        };
        let ct = self.cleartext_parser(s, b);
        let (cend, cleartext) = ct;
        match self.signature_parser(s, cend) {
            Some(sp) => {
                let (send, signature) = sp;
                if send == s.len() {
                    Some(PGPCleartextMessage { hash_armor_headers: headers, cleartext, signature })
                } else {
                    None
                }
            },
            None => None,
        }
    }

    /// Recognizes the envelope in `text`; a failure anywhere in the frame is
    /// `Malformed`.
    pub fn parse(&self, text: &str) -> (r: Result<PGPCleartextMessage, ParseError>)
        ensures
            match r {
                Ok(m) => signed_at(text@, self.spec_strict()) == Some(m@),
                Err(e) => signed_at(text@, self.spec_strict()) is None && e
                    == ParseError::Malformed,
            },
    {
        let v = crate::scan::chars_vec(text);
        match self.signed_parser(&v) {
            Some(m) => Ok(m),
            None => Err(ParseError::Malformed),
        }
    }
}

} // verus!

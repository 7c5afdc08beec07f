//! The bookkeeping of the collaborating crawler that probes sites for a
//! security.txt file.  The probing itself is network work and lives outside
//! the library; these are the plain values it passes around.
use vstd::prelude::*;
use vstd::string::StringExecFns;

use crate::outside::{parse_url_host, url_host_of};
use crate::pgpcleartextmessage::{match_tag, tag_at};
use crate::scan::chars_vec;

verus! {

/// Whether the characters of `p` stand somewhere in `s`.
pub open spec fn contains_seq(s: Seq<char>, p: Seq<char>) -> bool {
    exists|i: int| tag_at(s, i, p)
}

/// Whether `p` stands somewhere in `v`.
fn contains_str(v: &Vec<char>, p: &str) -> (r: bool)
    ensures
        r == contains_seq(v@, p@),
{
    let m: usize = p.unicode_len();
    let n: usize = v.len();
    if m > n {
        proof {
            assert forall|j: int| !tag_at(v@, j, p@) by {}
        }
        return false;
    }
    if m == 0 {
        proof {
            assert(v@.subrange(0, 0) =~= p@);
            assert(tag_at(v@, 0, p@));
        }
        return true;
    }
    let mut i: usize = 0;
    #[verifier::loop_isolation(true)]
    while i <= n - m
        invariant
            m == p@.len(),
            0 < m <= n,
            n == v@.len(),
            0 <= i <= n - m + 1,
            forall|j: int| 0 <= j < i ==> !tag_at(v@, j, p@),
        decreases n - i,
    {
        match match_tag(v, i, p) {
            Some(_) => {
                proof {
                    assert(tag_at(v@, i as int, p@));
                }
                return true;
            },
            None => {},
        }
        i = i + 1;
    }
    proof {
        assert forall|j: int| !tag_at(v@, j, p@) by {
            if 0 <= j < i {
            }
        }
    }
    false
}

/// Whether a Content-Type header marks a response the crawler accepts as a
/// security.txt file: a `text/plain` media type carrying `charset=utf-8`.
pub fn is_securitytxt_content_type(value: &str) -> (r: bool)
    ensures
        r == (tag_at(value@, 0, "text/plain"@) && contains_seq(value@, "charset=utf-8"@)),
{
    let v = chars_vec(value);
    let pref = match match_tag(&v, 0, "text/plain") {
        Some(_) => true,
        None => false,
    };
    pref && contains_str(&v, "charset=utf-8")
}

/// The outcome of probing one domain.
#[derive(Debug, PartialEq)]
pub struct Status {
    /// The domain that was probed.
    pub domain: String,
    /// Whether a parsable security.txt file was found.
    pub available: bool,
}

/// A site to probe: its domain and the candidate URLs, in the order they
/// are tried.
#[derive(Debug, PartialEq)]
pub struct Website {
    /// The domain of the site.
    pub domain: String,
    /// The URLs probed for this site, best known location first.
    pub urls: Vec<String>,
}

impl Website {
    /// The probe outcome for this site's domain.
    pub fn make_status(&self, available: bool) -> (r: Status)
        ensures
            r.domain@ == self.domain@,
            r.available == available,
    {
        Status { domain: self.domain.clone(), available }
    }

    /// Reads the host out of a URL and lays out the two candidate locations
    /// of its security.txt file, best known location first.
    pub fn from_url(s: &str) -> (r: Option<Website>)
        ensures
            match r {
                Some(w) => {
                    &&& url_host_of(s@) == Some(w.domain@)
                    &&& w.urls@.len() == 2
                    &&& w.urls@[0]@ == "https://"@ + w.domain@ + "/.well-known/security.txt"@
                    &&& w.urls@[1]@ == "https://"@ + w.domain@ + "/security.txt"@
                },
                None => url_host_of(s@) is None,
            },
    {
        match parse_url_host(s) {
            None => None,
            Some(host) => {
                let mut u1 = String::from_str("https://");
                u1.append(host.as_str());
                u1.append("/.well-known/security.txt");
                let mut u2 = String::from_str("https://");
                u2.append(host.as_str());
                u2.append("/security.txt");
                let mut urls: Vec<String> = Vec::new();
                urls.push(u1);
                urls.push(u2);
                Some(Website { domain: host, urls })
            },
        }
    }
}

/// What the crawler runs under: its command-line switches as plain values.
#[derive(Debug, PartialEq)]
pub struct Settings {
    /// Number of simultaneous domains to process.
    pub threads: usize,
    /// Seconds to wait before giving up a domain.
    pub timeout: u64,
    /// Whether to be strict with line endings or more relaxed.
    pub strict: bool,
    /// Only print domains for which the run was successful.
    pub quiet: bool,
    /// Print statistics before exit.
    pub print_stats: bool,
}

} // verus!

//! Runtime configuration of the download pipeline, and the optional
//! per-line parameters a work list may carry.

use vstd::prelude::*;

verus! {

/// Configuration consumed by the pipeline: how often a failed call is
/// retried, how long a single metadata or payload call may take, and how
/// many calls may be in flight at once.
pub struct Config {
    /// Number of additional attempts after a first failed call.
    pub retry_times: usize,
    /// Per-phase timeout, in whole seconds, for a metadata call.
    pub read_meta_timeout: usize,
    /// Upper bound on simultaneously in-flight network calls.
    pub max_concurrent_requests: usize,
    /// Per-phase timeout, in whole seconds, for a payload download.
    pub download_timeout: usize,
}

impl Config {
    /// A configuration is usable when both timeouts are positive and at
    /// least one request may be in flight.
    pub open spec fn wf(self) -> bool {
        &&& self.read_meta_timeout >= 1
        &&& self.download_timeout >= 1
        &&& self.max_concurrent_requests >= 1
    }
}

impl Default for Config {
    /// The values used when no configuration is supplied.
    fn default() -> (c: Config)
        ensures
            c.retry_times == 5,
            c.read_meta_timeout == 60,
            c.max_concurrent_requests == 3,
            c.download_timeout == 600,
            c.wf(),
    {
        Config {
            retry_times: 5,
            read_meta_timeout: 60,
            max_concurrent_requests: 3,
            download_timeout: 600,
        }
    }
}

/// Optional per-line parameters a work list entry may carry after its
/// accession range.
#[derive(Clone, Copy, Debug, PartialEq, Eq, Structural)]
pub enum Parameters {
    /// Name downloaded files after the run accession instead of the
    /// sample name.
    SRRNameOverride,
    /// Name downloaded files after the library name instead of the
    /// sample name.
    LibraryNameOverride,
}

/// Whether two string slices hold the same characters.
fn str_eq(a: &str, b: &str) -> (r: bool)
    ensures
        r == (a@ == b@),
{
    let alen = a.unicode_len();
    let blen = b.unicode_len();
    if alen != blen {
        return false;
    }
    let mut i: usize = 0;
    while i < alen
        invariant
            0 <= i <= alen,
            alen == a@.len(),
            alen == b@.len(),
            forall|j: int| 0 <= j < i ==> a@[j] == b@[j],
        decreases alen - i,
    {
        if a.get_char(i) != b.get_char(i) {
            return false;
        }
        i = i + 1;
    }
    proof {
        assert(a@ =~= b@);
    }
    true
}

impl Parameters {
    /// Reads a parameter word from a work-list line. Exactly the words
    /// `srr_name_override` and `library_name_override` are recognized.
    pub fn try_from(value: &str) -> (r: Result<Parameters, ()>)
        ensures
            value@ == "srr_name_override"@ ==> r == Ok::<Parameters, ()>(
                Parameters::SRRNameOverride,
            ),
            value@ == "library_name_override"@ ==> r == Ok::<Parameters, ()>(
                Parameters::LibraryNameOverride,
            ),
            value@ != "srr_name_override"@ && value@ != "library_name_override"@ ==> r == Err::<
                Parameters,
                (),
            >(()),
    {
        proof {
            reveal_strlit("srr_name_override");
            reveal_strlit("library_name_override");
            assert("srr_name_override"@.len() == 17);
            assert("library_name_override"@.len() == 21);
        }
        if str_eq(value, "srr_name_override") {
            Ok(Parameters::SRRNameOverride)
        } else if str_eq(value, "library_name_override") {
            Ok(Parameters::LibraryNameOverride)
        } else {
            Err(())
        }
    }
}

} // verus!

//! The inclusion filter: included and excluded sets of extensions, and the
//! keep/drop decision for one entry's extension. Exclusion always wins;
//! an entry without an extension cannot match a non-empty included set.

use vstd::prelude::*;

verus! {

/// The view of an optional extension as an optional text.
pub open spec fn ext_view(e: Option<String>) -> Option<Seq<char>> {
    match e {
        Some(s) => Some(s@),
        None => None,
    }
}

/// The keep/drop rule: an entry is kept iff the included set is empty or
/// holds its extension, and the excluded set does not hold its extension.
pub open spec fn spec_keep(
    ext: Option<Seq<char>>,
    included: Seq<Seq<char>>,
    excluded: Seq<Seq<char>>,
) -> bool {
    let in_include = match ext {
        Some(e) => included.contains(e),
        None => false,
    };
    let in_exclude = match ext {
        Some(e) => excluded.contains(e),
        None => false,
    };
    (included.len() == 0 || in_include) && !in_exclude
}

/// The configured included and excluded extension sets.
pub struct FilterSpec {
    pub included: Vec<String>,
    pub excluded: Vec<String>,
}

pub(crate) fn contains_string(v: &Vec<String>, s: &String) -> (r: bool)
    ensures
        r == v.deep_view().contains(s@),
{
    let n = v.len();
    let mut i: usize = 0;
    while i < n
        invariant
            i <= n,
            n == v@.len(),
            forall|k: int| 0 <= k < i ==> v.deep_view()[k] != s@,
        decreases n - i,
    {
        if v[i].eq(s) {
            proof {
                assert(v.deep_view()[i as int] == s@);
            }
            return true;
        }
        i = i + 1;
    }
    proof {
        assert(!v.deep_view().contains(s@)) by {
            if v.deep_view().contains(s@) {
                let k = choose|k: int| 0 <= k < v.deep_view().len() && v.deep_view()[k] == s@;
                assert(v.deep_view()[k] != s@);
            }
        }
    }
    false
}

impl FilterSpec {
    /// The keep decision of this filter for the extension `ext`.
    pub open spec fn spec_keeps(&self, ext: Option<Seq<char>>) -> bool {
        spec_keep(ext, self.included.deep_view(), self.excluded.deep_view())
    }

    pub fn new(included: Vec<String>, excluded: Vec<String>) -> (r: FilterSpec)
        ensures
            r.included == included,
            r.excluded == excluded,
    {
        FilterSpec { included, excluded }
    }

    /// Decides whether an entry with extension `ext` is kept.
    pub fn keep(&self, ext: &Option<String>) -> (r: bool)
        ensures
            r == self.spec_keeps(ext_view(*ext)),
    {
        let in_include = match ext {
            Some(e) => contains_string(&self.included, e),
            None => false,
        };
        let in_exclude = match ext {
            Some(e) => contains_string(&self.excluded, e),
            None => false,
        };
        (self.included.len() == 0 || in_include) && !in_exclude
    }
}

/// Law: the keep decision is total and repeatable. It is a function of
/// the extension and the two configured sets alone, so two filters with
/// the same sets decide every extension alike, and re-evaluating the
/// same filter on the same extension always yields the same boolean.
pub proof fn lemma_keep_deterministic(a: FilterSpec, b: FilterSpec, ext: Option<Seq<char>>)
    requires
        a.included.deep_view() == b.included.deep_view(),
        a.excluded.deep_view() == b.excluded.deep_view(),
    ensures
        a.spec_keeps(ext) == b.spec_keeps(ext),
{
}

} // verus!

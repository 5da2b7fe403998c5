//! The naming convention that ties the core to its collaborators: a reversed
//! dataset is named `<original>_rev`, and an accumulator group's derived
//! outputs live beside its inputs under `/<group>/<leaf>_rev` paths.

use vstd::prelude::*;

verus! {

/// `s` ends with the suffix `suf`.
pub open spec fn has_suffix(s: Seq<char>, suf: Seq<char>) -> bool {
    s.len() >= suf.len() && s.subrange(s.len() - suf.len(), s.len() as int) == suf
}

/// The suffix that marks a reversed output dataset.
pub open spec fn rev_suffix() -> Seq<char> {
    seq!['_', 'r', 'e', 'v']
}

/// Whether `name` ends with the characters of `suf`.
pub fn str_has_suffix(name: &str, suf: &str) -> (r: bool)
    ensures
        r == has_suffix(name@, suf@),
{
    let n: usize = name.unicode_len();
    let m: usize = suf.unicode_len();
    if n < m {
        return false;
    }
    let mut j: usize = 0;
    while j < m
        invariant
            n == name@.len(),
            m == suf@.len(),
            m <= n,
            j <= m,
            forall|k: int| 0 <= k < j ==> name@[n - m + k] == suf@[k],
        decreases m - j,
    {
        if name.get_char(n - m + j) != suf.get_char(j) {
            return false;
        }
        j = j + 1;
    }
    proof {
        assert(name@.subrange(n - m, n as int) =~= suf@);
    }
    true
}

/// Whether a dataset name already carries the reversed-output suffix, in
/// which case it must not be reversed again.
pub fn ends_with_rev(name: &str) -> (r: bool)
    ensures
        r == has_suffix(name@, rev_suffix()),
{
    let r = str_has_suffix(name, "_rev");
    proof {
        reveal_strlit("_rev");
        assert("_rev"@ =~= rev_suffix());
    }
    r
}

/// The name of the reversed twin of a dataset: `<base>_rev`.
pub fn make_rev_name(base: &str) -> (r: String)
    ensures
        r@ == base@ + rev_suffix(),
{
    let mut r: String = base.to_owned();
    r.append("_rev");
    proof {
        reveal_strlit("_rev");
        assert("_rev"@ =~= rev_suffix());
        assert(r@ =~= base@ + rev_suffix());
    }
    r
}

/// The fully qualified dataset paths that one accumulator group addresses:
/// the three reversed inputs and the two derived outputs.
pub struct StatsPaths {
    /// Path of the reversed running-sum dataset.
    pub sum: String,
    /// Path of the reversed running sum-of-squares dataset.
    pub sumsq: String,
    /// Path of the reversed observation-count dataset.
    pub count: String,
    /// Path of the mean dataset to be written.
    pub mean_out: String,
    /// Path of the standard-deviation dataset to be written.
    pub sd_out: String,
}

/// `/<group><leaf>` for a leaf name that carries its own leading slash.
fn group_leaf_path(group: &str, leaf: &str) -> (r: String)
    ensures
        r@ == "/"@ + group@ + leaf@,
{
    let mut r: String = String::from_str("/");
    r.append(group);
    r.append(leaf);
    proof {
        assert(r@ =~= "/"@ + group@ + leaf@);
    }
    r
}

/// The dataset paths addressed by the accumulator group `group`.
pub fn make_stats_paths(group: &str) -> (p: StatsPaths)
    ensures
        p.sum@ == "/"@ + group@ + "/sum_rev"@,
        p.sumsq@ == "/"@ + group@ + "/sumsq_rev"@,
        p.count@ == "/"@ + group@ + "/count_rev"@,
        p.mean_out@ == "/"@ + group@ + "/mean_rev"@,
        p.sd_out@ == "/"@ + group@ + "/sd_rev"@,
{
    StatsPaths {
        sum: group_leaf_path(group, "/sum_rev"),
        sumsq: group_leaf_path(group, "/sumsq_rev"),
        count: group_leaf_path(group, "/count_rev"),
        mean_out: group_leaf_path(group, "/mean_rev"),
        sd_out: group_leaf_path(group, "/sd_rev"),
    }
}

} // verus!

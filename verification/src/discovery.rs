//! Unit discovery filtering: which of the files found under the input root
//! are source units, and the unit record each one becomes.
//!
//! Walking the file tree is input/output work done outside the library; it
//! hands in every file path it found, at any nesting depth, and the filter
//! here keeps exactly those whose name ends with the source suffix.

use vstd::prelude::*;

use crate::paths::rel_path;
use crate::paths::seq_ends_with;
use crate::paths::seq_starts_with;
use crate::paths::source_suffix;
use crate::paths::source_suffix_spec;
use crate::paths::str_has_suffix;
use crate::paths::strip_root;

verus! {

/// One discovered source file, immutable once discovered.
pub struct SourceUnit {
    /// The unit's absolute path.
    pub abs_path: String,
    /// The unit's path relative to the input root.
    pub rel_path: String,
}

impl SourceUnit {
    /// The unit lies under `root`, its relative path agrees with its
    /// absolute path, and its name carries the source suffix.
    pub open spec fn wf(&self, root: Seq<char>) -> bool {
        &&& seq_starts_with(self.abs_path@, root)
        &&& self.rel_path@ == strip_root(self.abs_path@, root)
        &&& seq_ends_with(self.abs_path@, source_suffix_spec())
    }
}

/// The subsequence of `paths` ending with the source suffix, in input order.
pub open spec fn matching_paths(paths: Seq<Seq<char>>) -> Seq<Seq<char>>
    decreases paths.len(),
{
    if paths.len() == 0 {
        Seq::empty()
    } else {
        let rest = matching_paths(paths.drop_last());
        if seq_ends_with(paths.last(), source_suffix_spec()) {
            rest.push(paths.last())
        } else {
            rest
        }
    }
}

/// How many entries of `paths` end with the source suffix.
pub open spec fn matching_count(paths: Seq<Seq<char>>) -> nat
    decreases paths.len(),
{
    if paths.len() == 0 {
        0
    } else {
        matching_count(paths.drop_last()) + if seq_ends_with(
            paths.last(),
            source_suffix_spec(),
        ) {
            1nat
        } else {
            0nat
        }
    }
}

/// Discovery is exact: it yields as many units as there are matching-suffix
/// files, and every discovered path carries the source suffix — a
/// non-matching file is never discovered.
pub proof fn lemma_discovery_exact(paths: Seq<Seq<char>>)
    ensures
        matching_paths(paths).len() == matching_count(paths),
        forall|j: int| 0 <= j < matching_paths(paths).len() ==> seq_ends_with(
            #[trigger] matching_paths(paths)[j],
            source_suffix_spec(),
        ),
    decreases paths.len(),
{
    if paths.len() > 0 {
        lemma_discovery_exact(paths.drop_last());
    }
}

/// Discovery is complete: every file whose name carries the source suffix
/// is among the discovered paths, at any nesting depth.
pub proof fn lemma_discovery_complete(paths: Seq<Seq<char>>, p: Seq<char>)
    requires
        paths.contains(p),
        seq_ends_with(p, source_suffix_spec()),
    ensures
        matching_paths(paths).contains(p),
    decreases paths.len(),
{
    let i = choose|i: int| 0 <= i < paths.len() && paths[i] == p;
    let rest = matching_paths(paths.drop_last());
    if i == paths.len() - 1 {
        assert(matching_paths(paths)[rest.len() as int] == p);
    } else {
        assert(paths.drop_last()[i] == p);
        assert(paths.drop_last().contains(p));
        lemma_discovery_complete(paths.drop_last(), p);
        let j = choose|j: int| 0 <= j < rest.len() && rest[j] == p;
        assert(matching_paths(paths)[j] == p);
    }
}

/// Keeps exactly the files whose name ends with the source suffix, in input
/// order, and records each as a unit with its root-relative path.
pub fn select_units(root: &str, all_paths: &Vec<String>) -> (r: Vec<SourceUnit>)
    requires
        forall|i: int| 0 <= i < all_paths@.len() ==> seq_starts_with(
            (#[trigger] all_paths@[i])@,
            root@,
        ),
    ensures
        r@.map_values(|u: SourceUnit| u.abs_path@) == matching_paths(all_paths.deep_view()),
        forall|i: int| 0 <= i < r@.len() ==> (#[trigger] r@[i]).wf(root@),
{
    let mut out: Vec<SourceUnit> = Vec::new();
    let mut i: usize = 0;
    while i < all_paths.len()
        invariant
            i <= all_paths@.len(),
            forall|k: int| 0 <= k < all_paths@.len() ==> seq_starts_with(
                (#[trigger] all_paths@[k])@,
                root@,
            ),
            out@.map_values(|u: SourceUnit| u.abs_path@) == matching_paths(
                all_paths.deep_view().take(i as int),
            ),
            forall|k: int| 0 <= k < out@.len() ==> (#[trigger] out@[k]).wf(root@),
        decreases all_paths@.len() - i,
    {
        let ghost dv = all_paths.deep_view();
        let ghost out0 = out@;
        proof {
            assert(dv.take(i + 1).drop_last() =~= dv.take(i as int));
            assert(dv.take(i + 1).last() == dv[i as int]);
            assert(dv[i as int] == all_paths@[i as int]@);
        }
        if str_has_suffix(all_paths[i].as_str(), source_suffix()) {
            let abs = all_paths[i].clone();
            let rel = rel_path(abs.as_str(), root);
            out.push(SourceUnit { abs_path: abs, rel_path: rel });
        }
        proof {
            assert(out@.map_values(|u: SourceUnit| u.abs_path@) =~= matching_paths(
                dv.take(i + 1),
            ));
        }
        i = i + 1;
    }
    proof {
        assert(all_paths.deep_view().take(i as int) =~= all_paths.deep_view());
    }
    out
}

} // verus!

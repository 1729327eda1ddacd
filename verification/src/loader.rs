//! The loader over one folder of tabular files: filtering the
//! enumerated entries, the sequential strategy, and the driver's
//! choice among the strategies.

use vstd::prelude::*;
use vstd::string::StrSliceExecFns;

use crate::aggregate::{
    aggregate, spec_accounted_for, spec_ids, spec_path_views, spec_succeeded, spec_total_nanos,
    AggregateResult,
};
use crate::work::{execute_unit, TimingResult};

verus! {

/// Whether a path names a file with the `csv` extension: it ends in
/// `.csv`, and the character before that suffix exists and is no
/// separator, so the final path component has a non-empty stem. A
/// component named `.csv` alone has no extension and is not counted.
pub open spec fn spec_is_csv_path(p: Seq<char>) -> bool {
    &&& p.len() >= 5
    &&& p[p.len() - 4] == '.'
    &&& p[p.len() - 3] == 'c'
    &&& p[p.len() - 2] == 's'
    &&& p[p.len() - 1] == 'v'
    &&& p[p.len() - 5] != '/'
}

/// The entries of a list that name `csv` files, in list order.
pub open spec fn spec_csv_filtered(entries: Seq<String>) -> Seq<String>
    decreases entries.len(),
{
    if entries.len() == 0 {
        Seq::empty()
    } else {
        let rest = spec_csv_filtered(entries.drop_last());
        if spec_is_csv_path(entries.last()@) {
            rest.push(entries.last())
        } else {
            rest
        }
    }
}

/// Decide whether `p` names a file with the `csv` extension.
pub fn path_has_csv_extension(p: &String) -> (r: bool)
    ensures
        r == spec_is_csv_path(p@),
{
    let s = p.as_str();
    let n = s.unicode_len();
    if n < 5 {
        return false;
    }
    s.get_char(n - 4) == '.' && s.get_char(n - 3) == 'c' && s.get_char(n - 2) == 's' && s.get_char(
        n - 1,
    ) == 'v' && s.get_char(n - 5) != '/'
}

/// One of the three interchangeable ways to execute the file list.
#[derive(Clone, Copy, PartialEq, Eq, Structural, Debug)]
pub enum Strategy {
    /// One unit of work at a time, in list order, on the calling
    /// thread.
    Sequential,
    /// One concurrent task per file, all launched immediately, with no
    /// cap on how many run at once — a deliberate stress mode that
    /// trades resource pressure on large lists for maximal overlap.
    Concurrent,
    /// One worker per contiguous chunk of the list, the worker count
    /// bounded by the machine's available parallelism.
    Partitioned,
}

/// The driver's choice: two independent switches select exactly one
/// strategy — whether to run concurrently at all and, if so, whether
/// to bound the workers by the machine's processor count.
pub fn select_strategy(concurrent: bool, multi_core: bool) -> (s: Strategy)
    ensures
        s == (if concurrent {
            if multi_core {
                Strategy::Partitioned
            } else {
                Strategy::Concurrent
            }
        } else {
            Strategy::Sequential
        }),
{
    if concurrent {
        if multi_core {
            Strategy::Partitioned
        } else {
            Strategy::Concurrent
        }
    } else {
        Strategy::Sequential
    }
}

/// The loader for one folder of tabular files.
pub struct DataLoader {
    folder: String,
}

impl DataLoader {
    /// The folder this loader was created over.
    pub closed spec fn spec_folder(&self) -> Seq<char> {
        self.folder@
    }

    /// Create a loader over the folder whose files are to be loaded.
    pub fn new(folder: String) -> (loader: DataLoader)
        ensures
            loader.spec_folder() == folder@,
    {
        DataLoader { folder }
    }

    /// The folder to enumerate; the caller reads the directory and
    /// hands the entries back to `filter_csv_entries`.
    pub fn folder(&self) -> (f: &String)
        ensures
            f@ == self.spec_folder(),
    {
        &self.folder
    }

    /// Keep, in order, exactly the enumerated entries that name `csv`
    /// files: the file list every strategy works on.
    pub fn filter_csv_entries(&self, entries: Vec<String>) -> (kept: Vec<String>)
        ensures
            kept@ == spec_csv_filtered(entries@),
    {
        let mut kept: Vec<String> = Vec::new();
        let mut i: usize = 0;
        while i < entries.len()
            invariant
                i <= entries.len(),
                kept@ == spec_csv_filtered(entries@.take(i as int)),
            decreases entries.len() - i,
        {
            proof {
                assert(entries@.take(i + 1).drop_last() =~= entries@.take(i as int));
                assert(entries@.take(i + 1).last() == entries@[i as int]);
            }
            if path_has_csv_extension(&entries[i]) {
                kept.push(entries[i].clone());
            }
            i = i + 1;
        }
        proof {
            assert(entries@.take(entries@.len() as int) =~= entries@);
        }
        kept
    }

    /// Sequential strategy: execute one unit of work per file, one at
    /// a time, in list order, and total the results. Exactly one
    /// result comes back per file, under the file's own identifier and
    /// in the file's list position, so the reported order is the list
    /// order and every file is accounted for. The aggregate is the sum
    /// of the individually measured durations together with the
    /// success and failure counts.
    pub fn load_files_sequentially(&self, paths: Vec<String>) -> (out: (
        Vec<TimingResult>,
        AggregateResult,
    ))
        ensures
            out.0@.len() == paths@.len(),
            forall|i: int| 0 <= i < paths@.len() ==> (#[trigger] out.0@[i]).item == paths@[i],
            out.1.total_nanos as int == spec_total_nanos(out.0@),
            out.1.succeeded as int == spec_succeeded(out.0@),
            out.1.failed as int == out.0@.len() - spec_succeeded(out.0@),
            spec_accounted_for(spec_path_views(paths@), spec_ids(out.0@)),
    {
        let mut results: Vec<TimingResult> = Vec::new();
        let mut i: usize = 0;
        while i < paths.len()
            invariant
                i <= paths.len(),
                results@.len() == i,
                forall|j: int| 0 <= j < i ==> (#[trigger] results@[j]).item == paths@[j],
            decreases paths.len() - i,
        {
            let r = execute_unit(paths[i].clone());
            results.push(r);
            i = i + 1;
        }
        let agg = aggregate(&results);
        proof {
            assert(spec_ids(results@) =~= spec_path_views(paths@));
        }
        (results, agg)
    }
}

} // verus!

//! Classifying each scanned file, and gathering a scan's reports.

use crate::checker::BinaryDetected;
use vstd::prelude::*;

verus! {

/// Why a scanned file is reported.
#[derive(Clone, Copy, Debug, PartialEq, Eq, Structural)]
pub enum CheckStatus {
    /// The header was not found in the file.
    HeaderNotFound,
    /// The file appears to be binary.
    BinaryFile,
}

/// The report for one scanned file.
#[derive(Debug)]
pub struct FileResult {
    /// The file's path.
    pub path: String,
    /// Why the file is reported.
    pub status: CheckStatus,
}

/// Aggregated results of scanning a tree of files.
#[derive(Debug)]
pub struct FileResults {
    /// Paths that did not have the header.
    pub no_header_files: Vec<String>,
    /// Paths that appeared to be binary rather than UTF-8 text.
    pub binary_files: Vec<String>,
}

/// The paths `v` as sequences of characters.
pub open spec fn path_views(v: Seq<String>) -> Seq<Seq<char>> {
    v.map_values(|p: String| p@)
}

/// The paths of the reports in `results` with status `s`, in order.
pub open spec fn paths_with(results: Seq<FileResult>, s: CheckStatus) -> Seq<Seq<char>>
    decreases results.len(),
{
    if results.len() == 0 {
        seq![]
    } else {
        let rest = paths_with(results.drop_last(), s);
        if results.last().status == s {
            rest.push(results.last().path@)
        } else {
            rest
        }
    }
}

/// The report for one file given the checker's verdict on it: none when the header is
/// present, `HeaderNotFound` when it is absent, `BinaryFile` when the file is not text.
pub open spec fn classification(verdict: Result<bool, BinaryDetected>) -> Option<CheckStatus> {
    match verdict {
        Ok(true) => None,
        Ok(false) => Some(CheckStatus::HeaderNotFound),
        Err(_) => Some(CheckStatus::BinaryFile),
    }
}

/// The report for the file at `path` given the checker's verdict on it. The status depends on
/// the verdict alone: the path, and so its extension, plays no part.
pub fn classify(path: String, verdict: Result<bool, BinaryDetected>) -> (r: Option<FileResult>)
    ensures
        classification(verdict) is None ==> r is None,
        classification(verdict) matches Some(s) ==> (r matches Some(f) && f.path@ == path@
            && f.status == s),
{
    match verdict {
        Ok(true) => None,
        Ok(false) => Some(FileResult { path, status: CheckStatus::HeaderNotFound }),
        Err(_) => Some(FileResult { path, status: CheckStatus::BinaryFile }),
    }
}

impl FileResults {
    /// Results with no file reported.
    pub fn new() -> (r: Self)
        ensures
            r.no_header_files@.len() == 0,
            r.binary_files@.len() == 0,
    {
        FileResults { no_header_files: Vec::new(), binary_files: Vec::new() }
    }

    /// Returns `true` if any scanned file was reported, for lacking the header or for being
    /// binary.
    pub fn has_failure(&self) -> (r: bool)
        ensures
            r == (self.no_header_files@.len() > 0 || self.binary_files@.len() > 0),
    {
        !self.no_header_files.is_empty() || !self.binary_files.is_empty()
    }

    /// Adds the report `result` to the list for its status.
    pub fn record(&mut self, result: FileResult)
        ensures
            result.status == CheckStatus::HeaderNotFound ==> final(self).no_header_files@ == old(
                self,
            ).no_header_files@.push(result.path) && final(self).binary_files@ == old(
                self,
            ).binary_files@,
            result.status == CheckStatus::BinaryFile ==> final(self).binary_files@ == old(
                self,
            ).binary_files@.push(result.path) && final(self).no_header_files@ == old(
                self,
            ).no_header_files@,
    {
        match result.status {
            CheckStatus::HeaderNotFound => self.no_header_files.push(result.path),
            CheckStatus::BinaryFile => self.binary_files.push(result.path),
        }
    }

    /// The results of a scan whose reports are `results`, each kept in order under its status.
    pub fn from_results(results: Vec<FileResult>) -> (r: Self)
        ensures
            path_views(r.no_header_files@) == paths_with(results@, CheckStatus::HeaderNotFound),
            path_views(r.binary_files@) == paths_with(results@, CheckStatus::BinaryFile),
    {
        let ghost all = results@;
        let mut out = FileResults::new();
        assert(path_views(out.no_header_files@) == paths_with(all.take(0), CheckStatus::HeaderNotFound));
        assert(path_views(out.binary_files@) == paths_with(all.take(0), CheckStatus::BinaryFile));
        for result in it: results
            invariant
                it.seq() == all,
                path_views(out.no_header_files@) == paths_with(
                    all.take(it.index() as int),
                    CheckStatus::HeaderNotFound,
                ),
                path_views(out.binary_files@) == paths_with(
                    all.take(it.index() as int),
                    CheckStatus::BinaryFile,
                ),
        {
            let ghost i = it.index() as int;
            assert(all.take(i + 1).drop_last() == all.take(i));
            out.record(result);
        }
        assert(all.take(all.len() as int) == all);
        out
    }
}

/// Whether `a` and `b` list the same paths in the same order.
fn same_paths(a: &Vec<String>, b: &Vec<String>) -> (r: bool)
    ensures
        r == (path_views(a@) == path_views(b@)),
{
    if a.len() != b.len() {
        assert(path_views(a@).len() != path_views(b@).len());
        return false;
    }
    let mut i: usize = 0;
    while i < a.len()
        invariant
            i <= a.len(),
            a.len() == b.len(),
            forall|k: int| 0 <= k < i ==> a@[k]@ == b@[k]@,
        decreases a.len() - i,
    {
        let same = a[i] == b[i];
        if !same {
            assert(path_views(a@)[i as int] != path_views(b@)[i as int]);
            return false;
        }
        i = i + 1;
    }
    assert(path_views(a@) =~= path_views(b@));
    true
}

/// A copy of `v`, path for path.
fn copy_paths(v: &Vec<String>) -> (r: Vec<String>)
    ensures
        path_views(r@) == path_views(v@),
{
    let mut out: Vec<String> = Vec::new();
    let mut i: usize = 0;
    while i < v.len()
        invariant
            i <= v.len(),
            out@.len() == i,
            forall|k: int| 0 <= k < i ==> out@[k]@ == v@[k]@,
        decreases v.len() - i,
    {
        let p = v[i].clone();
        out.push(p);
        i = i + 1;
    }
    assert(path_views(out@) =~= path_views(v@));
    out
}

impl Clone for FileResults {
    fn clone(&self) -> (r: Self)
        ensures
            path_views(r.no_header_files@) == path_views(self.no_header_files@),
            path_views(r.binary_files@) == path_views(self.binary_files@),
    {
        FileResults {
            no_header_files: copy_paths(&self.no_header_files),
            binary_files: copy_paths(&self.binary_files),
        }
    }
}

impl PartialEq for FileResults {
    fn eq(&self, other: &FileResults) -> (r: bool) {
        same_paths(&self.no_header_files, &other.no_header_files) && same_paths(
            &self.binary_files,
            &other.binary_files,
        )
    }
}

impl vstd::std_specs::cmp::PartialEqSpecImpl for FileResults {
    open spec fn obeys_eq_spec() -> bool {
        true
    }

    open spec fn eq_spec(&self, other: &FileResults) -> bool {
        &&& path_views(self.no_header_files@) == path_views(other.no_header_files@)
        &&& path_views(self.binary_files@) == path_views(other.binary_files@)
    }
}

impl Default for FileResults {
    fn default() -> (r: Self)
        ensures
            r.no_header_files@.len() == 0,
            r.binary_files@.len() == 0,
    {
        FileResults::new()
    }
}

/// The reports among `outcomes`, which hold no error.
pub open spec fn reports<E>(outcomes: Seq<Result<FileResult, E>>) -> Seq<FileResult> {
    outcomes.map_values(|o: Result<FileResult, E>| o->Ok_0)
}

/// Gathers a scan's outcomes: the first error among them, or else the results of all the
/// reports, each kept in order under its status.
pub fn collect_scan<E>(outcomes: Vec<Result<FileResult, E>>) -> (r: Result<FileResults, E>)
    ensures
        (forall|i: int| 0 <= i < outcomes@.len() ==> outcomes@[i] is Ok) ==> (r matches Ok(res)
            && path_views(res.no_header_files@) == paths_with(
            reports(outcomes@),
            CheckStatus::HeaderNotFound,
        ) && path_views(res.binary_files@) == paths_with(
            reports(outcomes@),
            CheckStatus::BinaryFile,
        )),
        r is Err ==> exists|i: int|
            0 <= i < outcomes@.len() && outcomes@[i] is Err && outcomes@[i]->Err_0 == r->Err_0
                && forall|j: int|
                0 <= j < i ==> outcomes@[j] is Ok,
        (exists|i: int| 0 <= i < outcomes@.len() && outcomes@[i] is Err) ==> r is Err,
{
    let ghost all = outcomes@;
    let mut out = FileResults::new();
    assert(path_views(out.no_header_files@) == paths_with(
        reports(all.take(0)),
        CheckStatus::HeaderNotFound,
    ));
    assert(path_views(out.binary_files@) == paths_with(reports(all.take(0)), CheckStatus::BinaryFile));
    for outcome in it: outcomes
        invariant
            it.seq() == all,
            forall|j: int| 0 <= j < it.index() ==> all[j] is Ok,
            path_views(out.no_header_files@) == paths_with(
                reports(all.take(it.index() as int)),
                CheckStatus::HeaderNotFound,
            ),
            path_views(out.binary_files@) == paths_with(
                reports(all.take(it.index() as int)),
                CheckStatus::BinaryFile,
            ),
    {
        let ghost i = it.index() as int;
        match outcome {
            Ok(result) => {
                assert(reports(all.take(i + 1)).drop_last() == reports(all.take(i)));
                out.record(result);
            },
            Err(e) => {
                return Err(e);
            },
        }
    }
    assert(all.take(all.len() as int) == all);
    Ok(out)
}

/// A path is listed under status `s` exactly when some report with status `s` names it.
pub proof fn lemma_paths_with_contains(results: Seq<FileResult>, s: CheckStatus, p: Seq<char>)
    ensures
        paths_with(results, s).contains(p) <==> exists|i: int|
            0 <= i < results.len() && results[i].status == s && results[i].path@ == p,
    decreases results.len(),
{
    if results.len() > 0 {
        let init = results.drop_last();
        let last = results.last();
        let rest = paths_with(init, s);
        lemma_paths_with_contains(init, s, p);
        assert forall|i: int| 0 <= i < init.len() implies init[i] == results[i] by {}
        if last.status == s {
            let all = rest.push(last.path@);
            assert(paths_with(results, s) == all);
            if all.contains(p) {
                let k = choose|k: int| 0 <= k < all.len() && all[k] == p;
                if k < rest.len() {
                    assert(rest[k] == p);
                    assert(rest.contains(p));
                }
            }
            if rest.contains(p) {
                let k = choose|k: int| 0 <= k < rest.len() && rest[k] == p;
                assert(all[k] == p);
            }
            if last.path@ == p {
                assert(all[rest.len() as int] == p);
            }
        } else {
            assert(paths_with(results, s) == rest);
        }
        if exists|i: int| 0 <= i < results.len() && results[i].status == s && results[i].path@ == p {
            let i = choose|i: int|
                0 <= i < results.len() && results[i].status == s && results[i].path@ == p;
            if i < results.len() - 1 {
                assert(init[i] == results[i]);
            }
        }
    }
}

/// Gathering the same reports in any order lists the same paths under each status: the
/// results of a scan do not depend on which worker checked which file, or when.
pub proof fn lemma_results_independent_of_order(
    a: Seq<FileResult>,
    b: Seq<FileResult>,
    s: CheckStatus,
)
    requires
        a.to_set() == b.to_set(),
    ensures
        paths_with(a, s).to_set() == paths_with(b, s).to_set(),
{
    assert forall|p: Seq<char>| paths_with(a, s).to_set().contains(p) implies paths_with(
        b,
        s,
    ).to_set().contains(p) by {
        lemma_paths_with_contains(a, s, p);
        lemma_paths_with_contains(b, s, p);
        let i = choose|i: int| 0 <= i < a.len() && a[i].status == s && a[i].path@ == p;
        assert(a.to_set().contains(a[i]));
        assert(b.to_set().contains(a[i]));
    }
    assert forall|p: Seq<char>| paths_with(b, s).to_set().contains(p) implies paths_with(
        a,
        s,
    ).to_set().contains(p) by {
        lemma_paths_with_contains(a, s, p);
        lemma_paths_with_contains(b, s, p);
        let i = choose|i: int| 0 <= i < b.len() && b[i].status == s && b[i].path@ == p;
        assert(b.to_set().contains(b[i]));
        assert(a.to_set().contains(b[i]));
    }
    assert(paths_with(a, s).to_set() == paths_with(b, s).to_set());
}

/// The reports name each path once.
pub open spec fn distinct_paths(results: Seq<FileResult>) -> bool {
    forall|i: int, j: int|
        0 <= i < results.len() && 0 <= j < results.len() && i != j ==> #[trigger] results[i].path@
            != #[trigger] results[j].path@
}

/// When the reports name each path once, no path is listed twice under a status, and none is
/// listed under both.
pub proof fn lemma_results_disjoint(results: Seq<FileResult>)
    requires
        distinct_paths(results),
    ensures
        paths_with(results, CheckStatus::HeaderNotFound).no_duplicates(),
        paths_with(results, CheckStatus::BinaryFile).no_duplicates(),
        forall|p: Seq<char>|
            !(#[trigger] paths_with(results, CheckStatus::HeaderNotFound).contains(p) && paths_with(
                results,
                CheckStatus::BinaryFile,
            ).contains(p)),
    decreases results.len(),
{
    if results.len() > 0 {
        let init = results.drop_last();
        assert forall|i: int, j: int|
            0 <= i < init.len() && 0 <= j < init.len() && i != j implies #[trigger] init[i].path@
            != #[trigger] init[j].path@ by {
            assert(init[i] == results[i] && init[j] == results[j]);
        }
        lemma_results_disjoint(init);
        let last = results.last();
        assert forall|s: CheckStatus| !#[trigger] paths_with(init, s).contains(last.path@) by {
            lemma_paths_with_contains(init, s, last.path@);
            if paths_with(init, s).contains(last.path@) {
                let i = choose|i: int|
                    0 <= i < init.len() && init[i].status == s && init[i].path@ == last.path@;
                assert(results[i] == init[i]);
                assert(results[i].path@ != results[results.len() - 1].path@);
            }
        }
        assert forall|s: CheckStatus| #[trigger] paths_with(results, s).no_duplicates() by {
            let rest = paths_with(init, s);
            if last.status == s {
                let all = rest.push(last.path@);
                assert forall|a: int, b: int| 0 <= a < all.len() && 0 <= b < all.len() && a != b implies all[a] != all[b] by {
                    if a == rest.len() {
                        assert(rest.contains(all[b]));
                    } else if b == rest.len() {
                        assert(rest.contains(all[a]));
                    }
                }
            }
        }
        assert forall|p: Seq<char>|
            !(#[trigger] paths_with(results, CheckStatus::HeaderNotFound).contains(p)
                && paths_with(results, CheckStatus::BinaryFile).contains(p)) by {
            lemma_paths_with_contains(results, CheckStatus::HeaderNotFound, p);
            lemma_paths_with_contains(results, CheckStatus::BinaryFile, p);
            if paths_with(results, CheckStatus::HeaderNotFound).contains(p) && paths_with(
                results,
                CheckStatus::BinaryFile,
            ).contains(p) {
                let i = choose|i: int|
                    0 <= i < results.len() && results[i].status == CheckStatus::HeaderNotFound
                        && results[i].path@ == p;
                let j = choose|j: int|
                    0 <= j < results.len() && results[j].status == CheckStatus::BinaryFile
                        && results[j].path@ == p;
                assert(results[i].path@ != results[j].path@);
            }
        }
    }
}

/// In a scan whose reports name each path once, a file's path is listed under its report's
/// status, once, and not under the other status; a file found binary, say, is among the binary
/// files and not among those lacking the header.
pub proof fn lemma_report_listed_once(results: Seq<FileResult>, i: int)
    requires
        distinct_paths(results),
        0 <= i < results.len(),
    ensures
        paths_with(results, results[i].status).contains(results[i].path@),
        paths_with(results, results[i].status).no_duplicates(),
        results[i].status == CheckStatus::BinaryFile ==> !paths_with(
            results,
            CheckStatus::HeaderNotFound,
        ).contains(results[i].path@),
        results[i].status == CheckStatus::HeaderNotFound ==> !paths_with(
            results,
            CheckStatus::BinaryFile,
        ).contains(results[i].path@),
{
    lemma_paths_with_contains(results, results[i].status, results[i].path@);
    lemma_results_disjoint(results);
}

} // verus!

//! Deletion outcomes, the per-item deletion state machine, backup planning
//! and the scan of what an uninstall removes.

use crate::config::{mode_targets, targets_view, UninstallMode};
use crate::error::{IoErrorKind, ManagerError, ERROR_SHARING_VIOLATION};
use crate::naming::{first_free_name, indexed_name, views};
use crate::text::text_eq;
use vstd::prelude::*;
use vstd::string::*;

verus! {

// ---------------------------------------------------------------- outcomes

/// The outcome of deleting one path.
#[derive(Debug, Clone, PartialEq, Eq)]
pub enum DeletionStatus {
    Success,
    /// The path is still there; the error says why.
    Failed(ManagerError),
    /// The path did not exist when the deletion ran.
    Skipped,
}

/// One path and what became of it.
#[derive(Debug, Clone, PartialEq, Eq)]
pub struct DeletionResult {
    pub path: String,
    pub status: DeletionStatus,
}

/// What a glob-driven removal removed and what it could not.
#[derive(Debug, Clone, PartialEq, Eq)]
pub struct RemoveGlobResult {
    pub removed: Vec<String>,
    pub failed: Vec<(String, ManagerError)>,
}

pub open spec fn is_success(r: DeletionResult) -> bool {
    r.status is Success
}

pub open spec fn is_failed(r: DeletionResult) -> bool {
    r.status is Failed
}

pub open spec fn is_skipped(r: DeletionResult) -> bool {
    r.status is Skipped
}

/// How many results satisfy `f`.
pub open spec fn count_of(s: Seq<DeletionResult>, f: spec_fn(DeletionResult) -> bool) -> nat
    decreases s.len(),
{
    if s.len() == 0 {
        0
    } else {
        count_of(s.drop_last(), f) + if f(s.last()) { 1nat } else { 0nat }
    }
}

/// The paths of the failed results, in order.
pub open spec fn failed_paths(s: Seq<DeletionResult>) -> Seq<Seq<char>>
    decreases s.len(),
{
    if s.len() == 0 {
        seq![]
    } else if is_failed(s.last()) {
        failed_paths(s.drop_last()).push(s.last().path@)
    } else {
        failed_paths(s.drop_last())
    }
}

proof fn lemma_count_bound(s: Seq<DeletionResult>, f: spec_fn(DeletionResult) -> bool)
    ensures
        count_of(s, f) <= s.len(),
    decreases s.len(),
{
    if s.len() > 0 {
        lemma_count_bound(s.drop_last(), f);
    }
}

/// Counts successes, failures and skips.
pub fn count_results(results: &Vec<DeletionResult>) -> (r: (usize, usize, usize))
    ensures
        r.0 == count_of(results@, |x: DeletionResult| is_success(x)),
        r.1 == count_of(results@, |x: DeletionResult| is_failed(x)),
        r.2 == count_of(results@, |x: DeletionResult| is_skipped(x)),
        r.0 + r.1 + r.2 == results@.len(),
{
    let mut success: usize = 0;
    let mut failed: usize = 0;
    let mut skipped: usize = 0;
    let mut i: usize = 0;
    while i < results.len()
        invariant
            i <= results@.len(),
            success == count_of(results@.take(i as int), |x: DeletionResult| is_success(x)),
            failed == count_of(results@.take(i as int), |x: DeletionResult| is_failed(x)),
            skipped == count_of(results@.take(i as int), |x: DeletionResult| is_skipped(x)),
            success + failed + skipped == i,
        decreases results@.len() - i,
    {
        assert(results@.take(i + 1).drop_last() =~= results@.take(i as int));
        match &results[i].status {
            DeletionStatus::Success => success = success + 1,
            DeletionStatus::Failed(_) => failed = failed + 1,
            DeletionStatus::Skipped => skipped = skipped + 1,
        }
        i = i + 1;
    }
    assert(results@.take(i as int) =~= results@);
    (success, failed, skipped)
}

/// The paths whose deletion failed, in order.
pub fn extract_failed_files(results: &Vec<DeletionResult>) -> (r: Vec<String>)
    ensures
        views(r@) == failed_paths(results@),
{
    let mut out: Vec<String> = Vec::new();
    let mut i: usize = 0;
    while i < results.len()
        invariant
            i <= results@.len(),
            views(out@) == failed_paths(results@.take(i as int)),
        decreases results@.len() - i,
    {
        assert(results@.take(i + 1).drop_last() =~= results@.take(i as int));
        match &results[i].status {
            DeletionStatus::Failed(_) => {
                out.push(results[i].path.clone());
                assert(views(out@) =~= failed_paths(results@.take(i + 1)));
            },
            _ => {},
        }
        i = i + 1;
    }
    assert(results@.take(i as int) =~= results@);
    out
}

// ------------------------------------------------------- the state machine

/// How a removal call failed.
#[derive(Debug, Clone, Copy, PartialEq, Eq, Structural)]
pub enum RemoveFailure {
    /// Another process holds the file (a sharing violation).
    InUse,
    PermissionDenied,
    NotFound,
    Other,
}

/// The final verdict on one path.
#[derive(Debug, Clone, Copy, PartialEq, Eq, Structural)]
pub enum Verdict {
    Success,
    Skipped,
    InUse,
    PermissionDenied,
    /// The removal reported success but the path is still there.
    StillExists,
    Other,
}

/// Where the deletion of one path stands; each step but the last names the
/// observation the caller makes next.
#[derive(Debug, Clone, Copy, PartialEq, Eq, Structural)]
pub enum DeletionStep {
    /// Check whether the path exists.
    Probe,
    /// Remove it.
    Remove,
    /// Check that it is gone.
    VerifyGone,
    /// Make it owner-writable and remove it once more (then check it is gone).
    RetryWritable,
    Finished(Verdict),
}

/// An observation handed to the machine.
#[derive(Debug, Clone, Copy, PartialEq, Eq, Structural)]
pub enum DeletionEvent {
    Exists(bool),
    /// `None` when the removal succeeded.
    Removed(Option<RemoveFailure>),
}

/// The transition table. An event that does not answer the step's question
/// leaves the step as it is.
pub open spec fn deletion_step(s: DeletionStep, e: DeletionEvent) -> DeletionStep {
    match s {
        DeletionStep::Probe => match e {
            DeletionEvent::Exists(false) => DeletionStep::Finished(Verdict::Skipped),
            DeletionEvent::Exists(true) => DeletionStep::Remove,
            _ => s,
        },
        DeletionStep::Remove => match e {
            DeletionEvent::Removed(None) => DeletionStep::VerifyGone,
            DeletionEvent::Removed(Some(RemoveFailure::InUse)) => DeletionStep::Finished(Verdict::InUse),
            DeletionEvent::Removed(Some(RemoveFailure::PermissionDenied)) => DeletionStep::RetryWritable,
            DeletionEvent::Removed(Some(RemoveFailure::NotFound)) => DeletionStep::Finished(Verdict::Skipped),
            DeletionEvent::Removed(Some(RemoveFailure::Other)) => DeletionStep::Finished(Verdict::Other),
            _ => s,
        },
        DeletionStep::VerifyGone => match e {
            DeletionEvent::Exists(true) => DeletionStep::Finished(Verdict::StillExists),
            DeletionEvent::Exists(false) => DeletionStep::Finished(Verdict::Success),
            _ => s,
        },
        DeletionStep::RetryWritable => match e {
            DeletionEvent::Removed(None) => DeletionStep::VerifyGone,
            DeletionEvent::Removed(Some(_)) => DeletionStep::Finished(Verdict::PermissionDenied),
            _ => s,
        },
        DeletionStep::Finished(_) => s,
    }
}

/// Advances the deletion of one path by one observation.
pub fn deletion_next(s: DeletionStep, e: DeletionEvent) -> (r: DeletionStep)
    ensures
        r == deletion_step(s, e),
{
    match s {
        DeletionStep::Probe => match e {
            DeletionEvent::Exists(false) => DeletionStep::Finished(Verdict::Skipped),
            DeletionEvent::Exists(true) => DeletionStep::Remove,
            _ => s,
        },
        DeletionStep::Remove => match e {
            DeletionEvent::Removed(None) => DeletionStep::VerifyGone,
            DeletionEvent::Removed(Some(RemoveFailure::InUse)) => DeletionStep::Finished(Verdict::InUse),
            DeletionEvent::Removed(Some(RemoveFailure::PermissionDenied)) => DeletionStep::RetryWritable,
            DeletionEvent::Removed(Some(RemoveFailure::NotFound)) => DeletionStep::Finished(Verdict::Skipped),
            DeletionEvent::Removed(Some(RemoveFailure::Other)) => DeletionStep::Finished(Verdict::Other),
            _ => s,
        },
        DeletionStep::VerifyGone => match e {
            DeletionEvent::Exists(true) => DeletionStep::Finished(Verdict::StillExists),
            DeletionEvent::Exists(false) => DeletionStep::Finished(Verdict::Success),
            _ => s,
        },
        DeletionStep::RetryWritable => match e {
            DeletionEvent::Removed(None) => DeletionStep::VerifyGone,
            DeletionEvent::Removed(Some(_)) => DeletionStep::Finished(Verdict::PermissionDenied),
            _ => s,
        },
        DeletionStep::Finished(_) => s,
    }
}

/// Deleting a path that does not exist, or one that vanishes between the
/// existence check and the removal, ends in `Skipped` and never in a failure.
pub proof fn lemma_missing_path_is_skipped()
    ensures
        deletion_step(DeletionStep::Probe, DeletionEvent::Exists(false)) == DeletionStep::Finished(
            Verdict::Skipped,
        ),
        deletion_step(
            deletion_step(DeletionStep::Probe, DeletionEvent::Exists(true)),
            DeletionEvent::Removed(Some(RemoveFailure::NotFound)),
        ) == DeletionStep::Finished(Verdict::Skipped),
{
}

/// The event answers the question the step asks.
pub open spec fn answers(s: DeletionStep, e: DeletionEvent) -> bool {
    match s {
        DeletionStep::Probe | DeletionStep::VerifyGone => e is Exists,
        DeletionStep::Remove | DeletionStep::RetryWritable => e is Removed,
        DeletionStep::Finished(_) => true,
    }
}

/// At most how many more observations a step needs.
pub open spec fn steps_left(s: DeletionStep) -> nat {
    match s {
        DeletionStep::Probe => 4,
        DeletionStep::Remove => 3,
        DeletionStep::RetryWritable => 2,
        DeletionStep::VerifyGone => 1,
        DeletionStep::Finished(_) => 0,
    }
}

/// Every answered observation brings the deletion of a path closer to its
/// verdict, so each path is decided after at most four observations.
pub proof fn lemma_deletion_progresses(s: DeletionStep, e: DeletionEvent)
    requires
        answers(s, e),
        !(s is Finished),
    ensures
        steps_left(deletion_step(s, e)) < steps_left(s),
{
}

/// In a batch, a path that is missing when probed, or that vanishes before
/// the removal, is recorded as `Skipped` under its own name.
pub proof fn lemma_batch_records_missing_as_skipped(r: DeletionResult, path: Seq<char>, kind: IoErrorKind, message: Seq<char>, vanished: bool)
    requires
        records_verdict(
            r,
            if vanished {
                deletion_step(
                    deletion_step(DeletionStep::Probe, DeletionEvent::Exists(true)),
                    DeletionEvent::Removed(Some(RemoveFailure::NotFound)),
                )->Finished_0
            } else {
                deletion_step(DeletionStep::Probe, DeletionEvent::Exists(false))->Finished_0
            },
            path,
            kind,
            message,
        ),
    ensures
        r.status is Skipped,
        r.path@ == path,
{
}

/// `Success` is reached only by observing, after a removal reported success,
/// that the path is gone.
pub proof fn lemma_success_means_gone(s: DeletionStep, e: DeletionEvent)
    requires
        !(s is Finished),
        deletion_step(s, e) == DeletionStep::Finished(Verdict::Success),
    ensures
        s == DeletionStep::VerifyGone,
        e == DeletionEvent::Exists(false),
{
}

/// Classifies a failed removal: a sharing violation on Windows means the
/// file is in use; otherwise the error kind decides.
pub fn classify_remove_failure(os_code: Option<i32>, kind: IoErrorKind, on_windows: bool) -> (r: RemoveFailure)
    ensures
        on_windows && os_code == Some(ERROR_SHARING_VIOLATION) ==> r == RemoveFailure::InUse,
        !(on_windows && os_code == Some(ERROR_SHARING_VIOLATION)) ==> r == match kind {
            IoErrorKind::PermissionDenied => RemoveFailure::PermissionDenied,
            IoErrorKind::NotFound => RemoveFailure::NotFound,
            IoErrorKind::Other => RemoveFailure::Other,
        },
{
    if on_windows && os_code == Some(ERROR_SHARING_VIOLATION) {
        RemoveFailure::InUse
    } else {
        match kind {
            IoErrorKind::PermissionDenied => RemoveFailure::PermissionDenied,
            IoErrorKind::NotFound => RemoveFailure::NotFound,
            IoErrorKind::Other => RemoveFailure::Other,
        }
    }
}

/// The message recorded when a removal reported success but the path stayed.
pub open spec fn still_exists_message() -> Seq<char> {
    "执行删除后路径仍存在"@
}

/// `r` records verdict `v` for `path`; a failure of no more specific kind
/// is recorded as an I/O error of `kind` with `message`.
pub open spec fn records_verdict(r: DeletionResult, v: Verdict, path: Seq<char>, kind: IoErrorKind, message: Seq<char>) -> bool {
    &&& r.path@ == path
    &&& (v == Verdict::Success <==> r.status is Success)
    &&& (v == Verdict::Skipped <==> r.status is Skipped)
    &&& v == Verdict::InUse ==> r.status is Failed && r.status->Failed_0 is FileInUse
        && r.status->Failed_0->FileInUse_0@ == path
    &&& v == Verdict::PermissionDenied ==> r.status is Failed && r.status->Failed_0 is PermissionDenied
        && r.status->Failed_0->PermissionDenied_0@ == path
    &&& v == Verdict::StillExists ==> r.status is Failed && r.status->Failed_0 is Other
        && r.status->Failed_0->Other_0@ == still_exists_message()
    &&& v == Verdict::Other ==> r.status is Failed && r.status->Failed_0 is Io
        && r.status->Failed_0->Io_kind == kind && r.status->Failed_0->Io_message@ == message
}

/// The result for `path` given its verdict; `kind` and `message` describe
/// the I/O error behind a failure of no more specific kind.
pub fn verdict_result(v: Verdict, path: &str, kind: IoErrorKind, message: String) -> (r: DeletionResult)
    ensures
        records_verdict(r, v, path@, kind, message@),
{
    let status = match v {
        Verdict::Success => DeletionStatus::Success,
        Verdict::Skipped => DeletionStatus::Skipped,
        Verdict::InUse => DeletionStatus::Failed(ManagerError::FileInUse(String::from_str(path))),
        Verdict::PermissionDenied => DeletionStatus::Failed(
            ManagerError::PermissionDenied(String::from_str(path)),
        ),
        Verdict::StillExists => DeletionStatus::Failed(
            ManagerError::Other(String::from_str("执行删除后路径仍存在")),
        ),
        Verdict::Other => DeletionStatus::Failed(ManagerError::Io { kind, message }),
    };
    DeletionResult { path: String::from_str(path), status }
}

// ------------------------------------------------------------------- batch

/// What the caller of a batch deletion does next.
#[derive(Debug, Clone, PartialEq, Eq)]
pub enum BatchAction {
    /// Make the observation `step` asks for on path number `index`.
    Observe { index: usize, path: String, step: DeletionStep },
    /// Every path has its result.
    Done,
}

/// A batch deletion in progress: paths are handled one after the other,
/// each through the deletion state machine, and none is ever dropped.
pub struct DeletionBatch {
    paths: Vec<String>,
    results: Vec<DeletionResult>,
    step: DeletionStep,
}

impl DeletionBatch {
    pub closed spec fn paths_view(&self) -> Seq<Seq<char>> {
        views(self.paths@)
    }

    pub closed spec fn results_view(&self) -> Seq<DeletionResult> {
        self.results@
    }

    pub closed spec fn current_step(&self) -> DeletionStep {
        self.step
    }

    /// The results so far belong to the first paths, in order.
    pub open spec fn wf(&self) -> bool {
        &&& self.results_view().len() <= self.paths_view().len()
        &&& forall|i: int| 0 <= i < self.results_view().len() ==> (#[trigger] self.results_view()[i]).path@
            == self.paths_view()[i]
    }

    pub fn new(paths: Vec<String>) -> (r: DeletionBatch)
        ensures
            r.wf(),
            r.paths_view() == views(paths@),
            r.results_view().len() == 0,
            r.current_step() == DeletionStep::Probe,
    {
        DeletionBatch { paths, results: Vec::new(), step: DeletionStep::Probe }
    }

    /// The next observation to make, or `Done` once every path has a result.
    pub fn next_action(&self) -> (r: BatchAction)
        requires
            self.wf(),
        ensures
            r is Done <==> self.results_view().len() == self.paths_view().len(),
            r is Observe ==> r->index == self.results_view().len() && r->path@ == self.paths_view()[r->index as int]
                && r->step == self.current_step(),
    {
        let i = self.results.len();
        if i >= self.paths.len() {
            BatchAction::Done
        } else {
            assert(views(self.paths@)[i as int] == self.paths@[i as int]@);
            BatchAction::Observe { index: i, path: self.paths[i].clone(), step: self.step }
        }
    }

    /// Hands the observation for the current path to its state machine; when
    /// the machine finishes, the path's result is recorded and the next path
    /// starts. `kind` and `message` describe the I/O error behind a failure
    /// of no more specific kind.
    pub fn feed(&mut self, event: DeletionEvent, kind: IoErrorKind, message: String)
        requires
            old(self).wf(),
            old(self).results_view().len() < old(self).paths_view().len(),
        ensures
            final(self).wf(),
            final(self).paths_view() == old(self).paths_view(),
            ({
                let next = deletion_step(old(self).current_step(), event);
                &&& next is Finished ==> final(self).results_view().len() == old(self).results_view().len() + 1
                    && final(self).results_view().drop_last() == old(self).results_view()
                    && records_verdict(
                        final(self).results_view().last(),
                        next->Finished_0,
                        old(self).paths_view()[old(self).results_view().len() as int],
                        kind,
                        message@,
                    )
                    && final(self).current_step() == DeletionStep::Probe
                &&& !(next is Finished) ==> final(self).results_view() == old(self).results_view()
                    && final(self).current_step() == next
            }),
    {
        let next = deletion_next(self.step, event);
        match next {
            DeletionStep::Finished(v) => {
                let i = self.results.len();
                assert(views(self.paths@)[i as int] == self.paths@[i as int]@);
                let r = verdict_result(v, self.paths[i].as_str(), kind, message);
                let ghost r0 = self.results@;
                self.results.push(r);
                assert(self.results@.drop_last() =~= r0);
                self.step = DeletionStep::Probe;
            },
            _ => {
                self.step = next;
            },
        }
    }

    /// The results recorded so far.
    pub fn results(&self) -> (r: &Vec<DeletionResult>)
        ensures
            r@ == self.results_view(),
    {
        &self.results
    }

    /// The results, one per path, in the order of the paths.
    pub fn into_results(self) -> (r: Vec<DeletionResult>)
        requires
            self.wf(),
            self.results_view().len() == self.paths_view().len(),
        ensures
            r@.len() == self.paths_view().len(),
            forall|i: int| 0 <= i < r@.len() ==> (#[trigger] r@[i]).path@ == self.paths_view()[i],
            r@ == self.results_view(),
    {
        self.results
    }
}

// ------------------------------------------------------------------ backups

/// `name` is the first of the indexed names of `path` that `avoid` does
/// not hold: every earlier index is taken and `name` itself is free.
pub open spec fn is_first_free(name: Seq<char>, path: Seq<char>, suffix: Seq<char>, avoid: Seq<Seq<char>>) -> bool {
    &&& !avoid.contains(name)
    &&& exists|k: nat| {
        &&& name == #[trigger] indexed_name(path, suffix, k)
        &&& forall|j: nat| j < k ==> avoid.contains(indexed_name(path, suffix, j))
    }
}

/// Picks the backup name for `path`: `path.suffix`, or `path.suffix.n` for
/// the smallest `n` whose name is not among `taken`.
pub fn backup_with_index(path: &str, suffix: &str, taken: &Vec<String>) -> (r: String)
    ensures
        is_first_free(r@, path@, suffix@, views(taken@)),
{
    let (name, idx) = first_free_name(path, suffix, taken);
    assert(name@ == indexed_name(path@, suffix@, idx as nat));
    name
}

/// Picks backup names for several paths in turn; each is the first free
/// name of its path once `taken` and the names picked before it are avoided.
pub fn backup_paths_with_index(paths: &Vec<String>, suffix: &str, taken: &Vec<String>) -> (r: Vec<String>)
    ensures
        r@.len() == paths@.len(),
        forall|i: int| 0 <= i < r@.len() ==> is_first_free(#[trigger] r@[i]@, paths@[i]@, suffix@,
            views(taken@) + views(r@).take(i)),
{
    let mut used: Vec<String> = taken.clone();
    let mut out: Vec<String> = Vec::new();
    let mut i: usize = 0;
    assert(views(used@) =~= views(taken@) + views(out@));
    while i < paths.len()
        invariant
            i <= paths@.len(),
            out@.len() == i,
            views(used@) == views(taken@) + views(out@),
            forall|a: int| 0 <= a < out@.len() ==> is_first_free(#[trigger] out@[a]@, paths@[a]@, suffix@,
                views(taken@) + views(out@).take(a)),
        decreases paths@.len() - i,
    {
        let name = backup_with_index(paths[i].as_str(), suffix, &used);
        let ghost used0 = used@;
        let ghost out0 = out@;
        used.push(name.clone());
        out.push(name);
        assert(views(used@) =~= views(used0).push(name@));
        assert(views(out@) =~= views(out0).push(name@));
        assert(views(used@) =~= views(taken@) + views(out@));
        assert forall|a: int| 0 <= a < out@.len() implies is_first_free(#[trigger] out@[a]@, paths@[a]@, suffix@,
            views(taken@) + views(out@).take(a)) by {
            if a < out0.len() {
                assert(views(out@).take(a) =~= views(out0).take(a));
                assert(out@[a] == out0[a]);
            } else {
                assert(views(out@).take(a) =~= views(out0));
                assert(views(taken@) + views(out0) =~= views(used0));
            }
        }
        i = i + 1;
    }
    out
}

// ------------------------------------------------------------------- scans

/// Whether `path` matches the glob `pattern`, where `*` and `?` never match
/// a path separator. On Windows, `\\` is a separator too and `/` and `\\`
/// match each other.
pub uninterp spec fn glob_match(pattern: Seq<char>, path: Seq<char>) -> bool;

/// Relies on `glob::Pattern::new` and `Pattern::matches_with` (case-sensitive,
/// `*` and `?` not crossing a separator, which on Windows is `/` or `\\`):
/// the answer depends on the two strings alone. A pattern that does not
/// parse matches nothing.
#[verifier::external_body]
pub(crate) fn glob_matches_text(pattern: &str, path: &str) -> (r: bool)
    ensures
        r == glob_match(pattern@, path@),
{
    let options = glob::MatchOptions {
        case_sensitive: true,
        require_literal_separator: true,
        require_literal_leading_dot: false,
    };
    match glob::Pattern::new(pattern) {
        Ok(p) => p.matches_with(path, options),
        Err(_) => false,
    }
}

/// An entry found under the game root: its path relative to the root, with
/// `/` as separator, and whether it is a directory.
#[derive(Debug, Clone, PartialEq, Eq)]
pub struct FsEntry {
    pub path: String,
    pub is_dir: bool,
}

impl View for FsEntry {
    type V = (Seq<char>, bool);

    open spec fn view(&self) -> (Seq<char>, bool) {
        (self.path@, self.is_dir)
    }
}

pub open spec fn entries_view(v: Seq<FsEntry>) -> Seq<(Seq<char>, bool)> {
    v.map_values(|e: FsEntry| e@)
}

pub open spec fn has_wildcard(p: Seq<char>) -> bool {
    p.contains('*')
}

/// Whether a scan target selects an entry: by glob when the target holds a
/// `*`, else by equal path; the kind (directory or not) must agree.
pub open spec fn selects(target: (Seq<char>, bool), e: (Seq<char>, bool)) -> bool {
    &&& e.1 == target.1
    &&& if has_wildcard(target.0) {
        glob_match(target.0, e.0)
    } else {
        e.0 == target.0
    }
}

/// `base/rel`
pub open spec fn joined(base: Seq<char>, rel: Seq<char>) -> Seq<char> {
    base + "/"@ + rel
}

/// The entries one target selects, joined to `base`, in listing order.
pub open spec fn picks(base: Seq<char>, target: (Seq<char>, bool), entries: Seq<(Seq<char>, bool)>) -> Seq<Seq<char>>
    decreases entries.len(),
{
    if entries.len() == 0 {
        seq![]
    } else if selects(target, entries.last()) {
        picks(base, target, entries.drop_last()).push(joined(base, entries.last().0))
    } else {
        picks(base, target, entries.drop_last())
    }
}

/// What a scan finds: for each target in turn, the entries it selects.
pub open spec fn scan_result(base: Seq<char>, targets: Seq<(Seq<char>, bool)>, entries: Seq<(Seq<char>, bool)>) -> Seq<Seq<char>>
    decreases targets.len(),
{
    if targets.len() == 0 {
        seq![]
    } else {
        scan_result(base, targets.drop_last(), entries) + picks(base, targets.last(), entries)
    }
}

fn contains_wildcard(p: &str) -> (r: bool)
    ensures
        r == has_wildcard(p@),
{
    let n = p.unicode_len();
    let mut i: usize = 0;
    while i < n
        invariant
            i <= n,
            n == p@.len(),
            forall|k: int| 0 <= k < i ==> p@[k] != '*',
        decreases n - i,
    {
        if p.get_char(i) == '*' {
            assert(p@[i as int] == '*');
            return true;
        }
        i = i + 1;
    }
    false
}

fn join_path(base: &str, rel: &str) -> (r: String)
    ensures
        r@ == joined(base@, rel@),
{
    let mut r = String::from_str(base);
    r.append("/");
    r.append(rel);
    r
}

/// Collects, for each target of `mode` in order, the listed entries it
/// selects, as paths under `base`. `listing` is what exists under the root.
pub fn scan_existing_files(base: &str, mode: UninstallMode, listing: &Vec<FsEntry>) -> (r: Vec<String>)
    ensures
        views(r@) == scan_result(base@, mode_targets(mode), entries_view(listing@)),
{
    let targets = mode.get_targets();
    let ghost tv = mode_targets(mode);
    let ghost ev = entries_view(listing@);
    let mut out: Vec<String> = Vec::new();
    let mut t: usize = 0;
    assert(tv.take(0) =~= Seq::<(Seq<char>, bool)>::empty());
    while t < targets.len()
        invariant
            t <= targets@.len(),
            targets_view(targets@) == tv,
            ev == entries_view(listing@),
            views(out@) == scan_result(base@, tv.take(t as int), ev),
        decreases targets@.len() - t,
    {
        let (pattern, want_dir) = targets[t];
        let ghost target = tv[t as int];
        assert(target == (pattern@, want_dir));
        let wild = contains_wildcard(pattern);
        let ghost before = views(out@);
        let mut i: usize = 0;
        assert(ev.take(0) =~= Seq::<(Seq<char>, bool)>::empty());
        while i < listing.len()
            invariant
                i <= listing@.len(),
                ev == entries_view(listing@),
                target == (pattern@, want_dir),
                wild == has_wildcard(pattern@),
                views(out@) == before + picks(base@, target, ev.take(i as int)),
            decreases listing@.len() - i,
        {
            let e = &listing[i];
            assert(ev.take(i + 1).drop_last() =~= ev.take(i as int));
            assert(ev.take(i + 1).last() == e@);
            let hit = e.is_dir == want_dir && if wild {
                glob_matches_text(pattern, e.path.as_str())
            } else {
                text_eq(e.path.as_str(), pattern)
            };
            assert(hit == selects(target, e@));
            if hit {
                let ghost out0 = out@;
                let j = join_path(base, e.path.as_str());
                out.push(j);
                assert(views(out@) =~= views(out0).push(j@));
                assert(views(out@) =~= before + picks(base@, target, ev.take(i + 1)));
            } else {
                assert(views(out@) =~= before + picks(base@, target, ev.take(i + 1)));
            }
            i = i + 1;
        }
        assert(ev.take(i as int) =~= ev);
        assert(tv.take(t + 1).drop_last() =~= tv.take(t as int));
        assert(views(out@) =~= scan_result(base@, tv.take(t + 1), ev));
        t = t + 1;
    }
    assert(tv.take(t as int) =~= tv);
    out
}

/// Each listed path appears once.
pub open spec fn unique_paths(entries: Seq<(Seq<char>, bool)>) -> bool {
    forall|i: int, j: int| 0 <= i < j < entries.len() ==> entries[i].0 != entries[j].0
}

/// For each target in turn, `base/target` when the listing holds it with
/// the right kind.
pub open spec fn present_targets(base: Seq<char>, targets: Seq<(Seq<char>, bool)>, entries: Seq<(Seq<char>, bool)>) -> Seq<Seq<char>>
    decreases targets.len(),
{
    if targets.len() == 0 {
        seq![]
    } else {
        present_targets(base, targets.drop_last(), entries) + if entries.contains(targets.last()) {
            seq![joined(base, targets.last().0)]
        } else {
            seq![]
        }
    }
}

proof fn lemma_picks_literal(base: Seq<char>, t: (Seq<char>, bool), entries: Seq<(Seq<char>, bool)>)
    requires
        !has_wildcard(t.0),
        unique_paths(entries),
    ensures
        picks(base, t, entries) == if entries.contains(t) { seq![joined(base, t.0)] } else { Seq::<Seq<char>>::empty() },
    decreases entries.len(),
{
    if entries.len() > 0 {
        let rest = entries.drop_last();
        assert(unique_paths(rest));
        lemma_picks_literal(base, t, rest);
        if selects(t, entries.last()) {
            assert(entries.last() == t);
            assert(!rest.contains(t)) by {
                if rest.contains(t) {
                    let k = choose|k: int| 0 <= k < rest.len() && rest[k] == t;
                    assert(entries[k].0 == entries[entries.len() - 1].0);
                }
            }
            assert(entries.contains(t)) by { assert(entries[entries.len() - 1] == t); }
        } else {
            assert(entries.last() != t);
            if entries.contains(t) {
                let k = choose|k: int| 0 <= k < entries.len() && entries[k] == t;
                assert(k < entries.len() - 1);
                assert(rest[k] == t);
            }
            if rest.contains(t) {
                let k = choose|k: int| 0 <= k < rest.len() && rest[k] == t;
                assert(entries[k] == t);
            }
        }
    }
}

proof fn lemma_scan_literal_targets(base: Seq<char>, targets: Seq<(Seq<char>, bool)>, entries: Seq<(Seq<char>, bool)>)
    requires
        forall|i: int| 0 <= i < targets.len() ==> !has_wildcard(#[trigger] targets[i].0),
        unique_paths(entries),
    ensures
        scan_result(base, targets, entries) == present_targets(base, targets, entries),
    decreases targets.len(),
{
    if targets.len() > 0 {
        let rest = targets.drop_last();
        assert forall|i: int| 0 <= i < rest.len() implies !has_wildcard(#[trigger] rest[i].0) by {
            assert(rest[i] == targets[i]);
        }
        lemma_scan_literal_targets(base, rest, entries);
        assert(!has_wildcard(targets[targets.len() - 1].0));
        lemma_picks_literal(base, targets.last(), entries);
    }
}

proof fn lemma_no_star(s: Seq<char>)
    requires
        forall|i: int| 0 <= i < s.len() ==> s[i] != '*',
    ensures
        !has_wildcard(s),
{
}

/// A full uninstall finds, in target order, `base/BepInEx` (which holds the
/// plugin), each framework file of the game root and `base/ResourceEx`,
/// exactly those that the listing holds with the right kind.
pub proof fn lemma_full_scan(base: Seq<char>, entries: Seq<(Seq<char>, bool)>)
    requires
        unique_paths(entries),
    ensures
        scan_result(base, mode_targets(UninstallMode::Full), entries) == present_targets(
            base,
            mode_targets(UninstallMode::Full),
            entries,
        ),
{
    let t = mode_targets(UninstallMode::Full);
    reveal_strlit("BepInEx");
    reveal_strlit(".doorstop_version");
    reveal_strlit("changelog.txt");
    reveal_strlit("doorstop_config.ini");
    reveal_strlit("MinHook.x64.dll");
    reveal_strlit("winhttp.dll");
    reveal_strlit("ResourceEx");
    assert forall|i: int| 0 <= i < t.len() implies !has_wildcard(#[trigger] t[i].0) by {
        lemma_no_star(t[i].0);
    }
    lemma_scan_literal_targets(base, t, entries);
}

/// Writes `\\` separators as `/`.
pub open spec fn slashed(s: Seq<char>) -> Seq<char> {
    s.map_values(|c: char| if c == '\\' { '/' } else { c })
}

/// Rewrites a Windows path with forward slashes, the form glob patterns use.
pub fn normalize_path_for_glob(path: &str) -> (r: String)
    ensures
        r@ == slashed(path@),
{
    proof { reveal_strlit("/"); }
    let n = path.unicode_len();
    let mut out = String::new();
    let mut i: usize = 0;
    while i < n
        invariant
            i <= n,
            n == path@.len(),
            out@ == slashed(path@.take(i as int)),
        decreases n - i,
    {
        let ghost out0 = out@;
        let c = path.get_char(i);
        if c == '\\' {
            proof { reveal_strlit("/"); }
            assert("/"@ =~= seq!['/']);
            out.append("/");
        } else {
            let piece = path.substring_char(i, i + 1);
            assert(piece@ =~= seq![c]);
            out.append(piece);
        }
        assert(path@.take(i + 1) =~= path@.take(i as int).push(c));
        assert(slashed(path@.take(i + 1)) =~= slashed(path@.take(i as int)).push(if c == '\\' { '/' } else { c }));
        assert(out@ =~= slashed(path@.take(i + 1)));
        i = i + 1;
    }
    assert(path@.take(n as int) =~= path@);
    out
}

/// The names matched by a glob pattern, in order.
pub open spec fn glob_filtered(pattern: Seq<char>, names: Seq<Seq<char>>) -> Seq<Seq<char>>
    decreases names.len(),
{
    if names.len() == 0 {
        seq![]
    } else if glob_match(pattern, names.last()) {
        glob_filtered(pattern, names.drop_last()).push(names.last())
    } else {
        glob_filtered(pattern, names.drop_last())
    }
}

/// Keeps the names (of one directory's entries) that match `pattern`.
pub fn glob_filter(pattern: &str, names: &Vec<String>) -> (r: Vec<String>)
    ensures
        views(r@) == glob_filtered(pattern@, views(names@)),
{
    let ghost nv = views(names@);
    let mut out: Vec<String> = Vec::new();
    let mut i: usize = 0;
    while i < names.len()
        invariant
            i <= names@.len(),
            nv == views(names@),
            views(out@) == glob_filtered(pattern@, nv.take(i as int)),
        decreases names@.len() - i,
    {
        assert(nv.take(i + 1).drop_last() =~= nv.take(i as int));
        assert(nv.take(i + 1).last() == names@[i as int]@);
        if glob_matches_text(pattern, names[i].as_str()) {
            let ghost o0 = views(out@);
            out.push(names[i].clone());
            assert(views(out@) =~= o0.push(names@[i as int]@));
        }
        i = i + 1;
    }
    assert(nv.take(i as int) =~= nv);
    out
}

} // verus!

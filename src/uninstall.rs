//! The uninstall failure-recovery loop as decisions: how outstanding failures
//! are grouped, what to retry in which order, and what to do next.

use crate::file_ops::{DeletionResult, DeletionStatus};
use crate::error::ManagerError;
use crate::naming::{contains_name, views};
use crate::retry::{delay_spec, RetryPolicy};
use vstd::prelude::*;
use vstd::string::*;

verus! {

/// Runs uninstalls under one game root.
pub struct Uninstaller {
    pub game_root: String,
}

impl Uninstaller {
    pub fn new(game_root: String) -> (r: Uninstaller)
        ensures
            r.game_root == game_root,
    {
        Uninstaller { game_root }
    }
}

/// How a failed deletion is resolved.
#[derive(Debug, Clone, Copy, PartialEq, Eq, Structural)]
pub enum FailureClass {
    /// Retried automatically after a wait.
    InUse,
    /// Needs elevated privileges.
    Permission,
    Other,
}

pub open spec fn class_of(r: DeletionResult) -> Option<FailureClass> {
    match r.status {
        DeletionStatus::Failed(e) => match e {
            ManagerError::FileInUse(_) => Some(FailureClass::InUse),
            ManagerError::PermissionDenied(_) => Some(FailureClass::Permission),
            _ => Some(FailureClass::Other),
        },
        _ => None,
    }
}

/// The paths of the failures of class `c`, in order.
pub open spec fn class_paths(s: Seq<DeletionResult>, c: FailureClass) -> Seq<Seq<char>>
    decreases s.len(),
{
    if s.len() == 0 {
        seq![]
    } else if class_of(s.last()) == Some(c) {
        class_paths(s.drop_last(), c).push(s.last().path@)
    } else {
        class_paths(s.drop_last(), c)
    }
}

fn classify(r: &DeletionResult) -> (c: Option<FailureClass>)
    ensures
        c == class_of(*r),
{
    match &r.status {
        DeletionStatus::Failed(e) => match e {
            ManagerError::FileInUse(_) => Some(FailureClass::InUse),
            ManagerError::PermissionDenied(_) => Some(FailureClass::Permission),
            _ => Some(FailureClass::Other),
        },
        _ => None,
    }
}

/// The failed paths of one class, in order.
pub fn failures_of(results: &Vec<DeletionResult>, c: FailureClass) -> (r: Vec<String>)
    ensures
        views(r@) == class_paths(results@, c),
{
    let mut out: Vec<String> = Vec::new();
    let mut i: usize = 0;
    while i < results.len()
        invariant
            i <= results@.len(),
            views(out@) == class_paths(results@.take(i as int), c),
        decreases results@.len() - i,
    {
        assert(results@.take(i + 1).drop_last() =~= results@.take(i as int));
        if classify(&results[i]) == Some(c) {
            let ghost o0 = out@;
            out.push(results[i].path.clone());
            assert(views(out@) =~= views(o0).push(results@[i as int].path@));
        }
        i = i + 1;
    }
    assert(results@.take(i as int) =~= results@);
    out
}

/// `s` without repeats, keeping each first occurrence.
pub open spec fn dedup(s: Seq<Seq<char>>) -> Seq<Seq<char>>
    decreases s.len(),
{
    if s.len() == 0 {
        seq![]
    } else if dedup(s.drop_last()).contains(s.last()) {
        dedup(s.drop_last())
    } else {
        dedup(s.drop_last()).push(s.last())
    }
}

/// The order of a manual retry: when elevated, permission failures first;
/// otherwise the other failures first. Each path once.
pub open spec fn retry_sequence(perm: Seq<Seq<char>>, other: Seq<Seq<char>>, elevated: bool) -> Seq<Seq<char>> {
    if elevated {
        dedup(perm + other)
    } else {
        dedup(other + perm)
    }
}

fn append_unique(out: &mut Vec<String>, items: &Vec<String>)
    ensures
        views(final(out)@) == dedup_onto(views(old(out)@), views(items@)),
{
    let ghost base = views(out@);
    let mut i: usize = 0;
    while i < items.len()
        invariant
            i <= items@.len(),
            views(out@) == dedup_onto(base, views(items@).take(i as int)),
        decreases items@.len() - i,
    {
        assert(views(items@).take(i + 1).drop_last() =~= views(items@).take(i as int));
        if !contains_name(out, &items[i]) {
            let ghost o0 = out@;
            out.push(items[i].clone());
            assert(views(out@) =~= views(o0).push(items@[i as int]@));
        }
        i = i + 1;
    }
    assert(views(items@).take(i as int) =~= views(items@));
}

/// `base` extended by each item of `s` that it does not hold yet.
pub open spec fn dedup_onto(base: Seq<Seq<char>>, s: Seq<Seq<char>>) -> Seq<Seq<char>>
    decreases s.len(),
{
    if s.len() == 0 {
        base
    } else if dedup_onto(base, s.drop_last()).contains(s.last()) {
        dedup_onto(base, s.drop_last())
    } else {
        dedup_onto(base, s.drop_last()).push(s.last())
    }
}

proof fn lemma_dedup_onto_concat(a: Seq<Seq<char>>, b: Seq<Seq<char>>)
    ensures
        dedup_onto(dedup(a), b) == dedup(a + b),
    decreases b.len(),
{
    if b.len() == 0 {
        assert(a + b =~= a);
    } else {
        lemma_dedup_onto_concat(a, b.drop_last());
        assert((a + b).drop_last() =~= a + b.drop_last());
        assert((a + b).last() == b.last());
    }
}

/// The paths a manual retry deletes again, in order.
pub fn retry_order(perm: &Vec<String>, other: &Vec<String>, elevated: bool) -> (r: Vec<String>)
    ensures
        views(r@) == retry_sequence(views(perm@), views(other@), elevated),
{
    let mut out: Vec<String> = Vec::new();
    let (first, second) = if elevated { (perm, other) } else { (other, perm) };
    assert(dedup(Seq::<Seq<char>>::empty()) == Seq::<Seq<char>>::empty());
    assert(views(out@) =~= dedup(Seq::<Seq<char>>::empty()));
    append_unique(&mut out, first);
    proof {
        lemma_dedup_onto_concat(Seq::<Seq<char>>::empty(), views(first@));
        assert(Seq::<Seq<char>>::empty() + views(first@) =~= views(first@));
    }
    append_unique(&mut out, second);
    proof {
        lemma_dedup_onto_concat(views(first@), views(second@));
    }
    out
}

/// The results that remain after dropping every one whose path was retried.
pub open spec fn kept(all: Seq<DeletionResult>, retried: Seq<Seq<char>>) -> Seq<DeletionResult>
    decreases all.len(),
{
    if all.len() == 0 {
        seq![]
    } else if retried.contains(all.last().path@) {
        kept(all.drop_last(), retried)
    } else {
        kept(all.drop_last(), retried).push(all.last())
    }
}

/// Replaces the results of retried paths by the new ones: earlier results
/// of those paths are dropped and the new results appended.
pub fn merge_results(all: &mut Vec<DeletionResult>, retried: Vec<DeletionResult>)
    ensures
        final(all)@ == kept(old(all)@, retried@.map_values(|r: DeletionResult| r.path@)) + retried@,
{
    let ghost rv = retried@.map_values(|r: DeletionResult| r.path@);
    let mut paths: Vec<String> = Vec::new();
    let mut i: usize = 0;
    while i < retried.len()
        invariant
            i <= retried@.len(),
            rv == retried@.map_values(|r: DeletionResult| r.path@),
            views(paths@) == rv.take(i as int),
        decreases retried@.len() - i,
    {
        let ghost p0 = paths@;
        paths.push(retried[i].path.clone());
        assert(views(paths@) =~= views(p0).push(rv[i as int]));
        assert(rv.take(i + 1) =~= rv.take(i as int).push(rv[i as int]));
        i = i + 1;
    }
    assert(rv.take(i as int) =~= rv);
    let ghost a0 = all@;
    let mut src: Vec<DeletionResult> = Vec::new();
    std::mem::swap(&mut src, all);
    let mut out: Vec<DeletionResult> = Vec::new();
    let ghost mut j: int = 0;
    while src.len() > 0
        invariant
            0 <= j <= a0.len(),
            src@ == a0.skip(j),
            views(paths@) == rv,
            out@ == kept(a0.take(j), rv),
        decreases src@.len(),
    {
        assert(a0.take(j + 1).drop_last() =~= a0.take(j));
        let r = src.remove(0);
        assert(r == a0[j]);
        if !contains_name(&paths, &r.path) {
            out.push(r);
        }
        assert(src@ =~= a0.skip(j + 1));
        proof { j = j + 1; }
    }
    assert(a0.take(j) =~= a0);
    let mut rest = retried;
    out.append(&mut rest);
    *all = out;
}

/// What the recovery loop does next.
#[derive(Debug, Clone, PartialEq, Eq)]
pub enum Resolution {
    /// Nothing failed: report the summary.
    Done,
    /// Wait `delay_secs`, then delete the in-use `paths` again (try `attempt` of `attempts`).
    RetryInUse { delay_secs: u64, attempt: usize, attempts: usize, paths: Vec<String> },
    /// Offer to restart with elevated privileges.
    OfferElevation,
    /// Offer the user a manual retry; declining ends the loop.
    OfferManualRetry,
}

/// Decides the next step of the recovery loop. `in_use_retries` counts the
/// automatic retries already made in this round; `elevation_declined` says
/// the user turned elevation down in this round.
pub fn next_resolution(
    results: &Vec<DeletionResult>,
    in_use_retries: usize,
    policy: &RetryPolicy,
    elevated: bool,
    elevation_declined: bool,
) -> (r: Resolution)
    ensures
        ({
            let failures = class_paths(results@, FailureClass::InUse).len() + class_paths(results@, FailureClass::Permission).len()
                + class_paths(results@, FailureClass::Other).len();
            let in_use = class_paths(results@, FailureClass::InUse);
            let perm = class_paths(results@, FailureClass::Permission);
            &&& failures == 0 <==> r is Done
            &&& failures > 0 && in_use.len() > 0 && in_use_retries < policy.attempts <==> r is RetryInUse
            &&& r is RetryInUse ==> r->delay_secs == delay_spec(*policy, in_use_retries as nat)
                && r->attempt == in_use_retries + 1 && r->attempts == policy.attempts && views(r->paths@) == in_use
            &&& r is OfferElevation <==> failures > 0 && !(in_use.len() > 0 && in_use_retries < policy.attempts)
                && perm.len() > 0 && !elevated && !elevation_declined
            &&& r is OfferManualRetry <==> failures > 0 && !(in_use.len() > 0 && in_use_retries < policy.attempts)
                && !(perm.len() > 0 && !elevated && !elevation_declined)
        }),
{
    let in_use = failures_of(results, FailureClass::InUse);
    let perm = failures_of(results, FailureClass::Permission);
    let other = failures_of(results, FailureClass::Other);
    if in_use.len() == 0 && perm.len() == 0 && other.len() == 0 {
        return Resolution::Done;
    }
    if in_use.len() > 0 && in_use_retries < policy.attempts {
        let d = policy.delay_for_attempt(in_use_retries);
        return Resolution::RetryInUse {
            delay_secs: d,
            attempt: in_use_retries + 1,
            attempts: policy.attempts,
            paths: in_use,
        };
    }
    if perm.len() > 0 && !elevated && !elevation_declined {
        return Resolution::OfferElevation;
    }
    Resolution::OfferManualRetry
}

} // verus!

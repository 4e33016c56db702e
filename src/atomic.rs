//! All-or-nothing placement of a finished file: rename it into place, or,
//! across file systems, copy it next to the destination and rename the copy.

use crate::naming::{first_free_name, indexed_name, views};
use vstd::prelude::*;

verus! {

/// Where a placement stands; each step but the last two names the file
/// operation the caller performs next.
#[derive(Debug, Clone, Copy, PartialEq, Eq, Structural)]
pub enum PlaceStep {
    /// Rename the source onto the destination.
    Rename,
    /// Copy the source to a free temporary name beside the destination.
    CopyToTemp,
    /// Rename the temporary copy onto the destination.
    RenameTemp,
    /// Remove the source (its outcome does not matter).
    RemoveSource,
    /// Remove the temporary copy, then report the failure.
    DiscardTemp,
    Done,
    /// Both the rename and the copy route failed.
    Failed,
}

/// The transition table: `ok` is whether the step's operation succeeded.
pub open spec fn place_step(s: PlaceStep, ok: bool) -> PlaceStep {
    match s {
        PlaceStep::Rename => if ok { PlaceStep::Done } else { PlaceStep::CopyToTemp },
        PlaceStep::CopyToTemp => if ok { PlaceStep::RenameTemp } else { PlaceStep::Failed },
        PlaceStep::RenameTemp => if ok { PlaceStep::RemoveSource } else { PlaceStep::DiscardTemp },
        PlaceStep::RemoveSource => PlaceStep::Done,
        PlaceStep::DiscardTemp => PlaceStep::Failed,
        PlaceStep::Done => PlaceStep::Done,
        PlaceStep::Failed => PlaceStep::Failed,
    }
}

/// Advances a placement by the outcome of its last operation.
pub fn place_next(s: PlaceStep, ok: bool) -> (r: PlaceStep)
    ensures
        r == place_step(s, ok),
{
    match s {
        PlaceStep::Rename => if ok { PlaceStep::Done } else { PlaceStep::CopyToTemp },
        PlaceStep::CopyToTemp => if ok { PlaceStep::RenameTemp } else { PlaceStep::Failed },
        PlaceStep::RenameTemp => if ok { PlaceStep::RemoveSource } else { PlaceStep::DiscardTemp },
        PlaceStep::RemoveSource => PlaceStep::Done,
        PlaceStep::DiscardTemp => PlaceStep::Failed,
        PlaceStep::Done => PlaceStep::Done,
        PlaceStep::Failed => PlaceStep::Failed,
    }
}

/// The destination is written only by a successful rename: a placement
/// reaches `Done` straight from a successful rename of the source, or after
/// a successful rename of the complete temporary copy; a failed copy or
/// rename of the copy never reaches `Done`.
pub proof fn lemma_destination_written_by_rename(s: PlaceStep, ok: bool)
    ensures
        place_step(s, ok) == PlaceStep::Done ==> (s == PlaceStep::Rename && ok) || s == PlaceStep::RemoveSource
            || s == PlaceStep::Done,
        place_step(s, ok) == PlaceStep::RemoveSource ==> s == PlaceStep::RenameTemp && ok,
        s == PlaceStep::CopyToTemp && !ok ==> place_step(s, ok) == PlaceStep::Failed,
        s == PlaceStep::DiscardTemp ==> place_step(s, ok) == PlaceStep::Failed,
{
}

/// The contents of the three files a placement touches; `None` is absent.
pub struct PlaceFiles {
    pub source: Option<Seq<u8>>,
    pub dest: Option<Seq<u8>>,
    pub temp: Option<Seq<u8>>,
}

/// What one step's operation does to the files. A rename or removal that
/// fails changes nothing; a copy that fails may leave any bytes `junk` in
/// the temporary file.
pub open spec fn place_effect(s: PlaceStep, ok: bool, junk: Seq<u8>, f: PlaceFiles) -> PlaceFiles {
    match s {
        PlaceStep::Rename => if ok { PlaceFiles { source: None, dest: f.source, temp: f.temp } } else { f },
        PlaceStep::CopyToTemp => if ok {
            PlaceFiles { source: f.source, dest: f.dest, temp: f.source }
        } else {
            PlaceFiles { source: f.source, dest: f.dest, temp: Some(junk) }
        },
        PlaceStep::RenameTemp => if ok { PlaceFiles { source: f.source, dest: f.temp, temp: None } } else { f },
        PlaceStep::RemoveSource => if ok { PlaceFiles { source: None, dest: f.dest, temp: f.temp } } else { f },
        PlaceStep::DiscardTemp => if ok { PlaceFiles { source: f.source, dest: f.dest, temp: None } } else { f },
        _ => f,
    }
}

/// Where the step stands with the files, starting from source `c` and
/// destination `d`.
pub open spec fn place_inv(s: PlaceStep, f: PlaceFiles, c: Seq<u8>, d: Option<Seq<u8>>) -> bool {
    match s {
        PlaceStep::Rename | PlaceStep::CopyToTemp => f.source == Some(c) && f.dest == d,
        PlaceStep::RenameTemp => f.source == Some(c) && f.temp == Some(c) && f.dest == d,
        PlaceStep::RemoveSource | PlaceStep::Done => f.dest == Some(c),
        PlaceStep::DiscardTemp | PlaceStep::Failed => f.dest == d,
    }
}

/// Runs a placement through the outcomes `trace` (each with the bytes a
/// failed copy would leave), giving the final step and files.
pub open spec fn place_run(s: PlaceStep, f: PlaceFiles, trace: Seq<(bool, Seq<u8>)>) -> (PlaceStep, PlaceFiles)
    decreases trace.len(),
{
    if trace.len() == 0 {
        (s, f)
    } else {
        place_run(place_step(s, trace[0].0), place_effect(s, trace[0].0, trace[0].1, f), trace.drop_first())
    }
}

/// A placement of content `c` over a destination holding `d` (or absent):
/// at every moment of any run the destination holds `d` or exactly `c`,
/// never part of either, and a run that reaches `Done` leaves exactly `c`.
pub proof fn lemma_placement_all_or_nothing(
    s: PlaceStep,
    f: PlaceFiles,
    c: Seq<u8>,
    d: Option<Seq<u8>>,
    trace: Seq<(bool, Seq<u8>)>,
)
    requires
        place_inv(s, f, c, d),
    ensures
        place_inv(place_run(s, f, trace).0, place_run(s, f, trace).1, c, d),
        place_run(s, f, trace).1.dest == d || place_run(s, f, trace).1.dest == Some(c),
        place_run(s, f, trace).0 == PlaceStep::Done ==> place_run(s, f, trace).1.dest == Some(c),
    decreases trace.len(),
{
    if trace.len() > 0 {
        lemma_placement_all_or_nothing(
            place_step(s, trace[0].0),
            place_effect(s, trace[0].0, trace[0].1, f),
            c,
            d,
            trace.drop_first(),
        );
    }
}

/// The temporary name for a copy onto `dest`: `dest.tmp`, or `dest.tmp.n`
/// for the smallest `n` whose name is not among `taken`.
pub fn temp_name_for(dest: &str, taken: &Vec<String>) -> (r: String)
    ensures
        exists|k: nat| {
            &&& r@ == #[trigger] indexed_name(dest@, "tmp"@, k)
            &&& forall|j: nat| j < k ==> views(taken@).contains(indexed_name(dest@, "tmp"@, j))
        },
        !views(taken@).contains(r@),
{
    let (name, _idx) = first_free_name(dest, "tmp", taken);
    name
}

} // verus!

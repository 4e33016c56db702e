//! Upgrade decisions: which artifacts changed, and which installed files an
//! upgrade supersedes.

use crate::consolidate::ends_with_text;
use crate::error::ManagerError;
use crate::naming::views;
use crate::text::text_eq;
use vstd::prelude::*;
use vstd::string::*;

verus! {

/// What an upgrade has to fetch and deploy.
#[derive(Debug, Clone, Copy, PartialEq, Eq, Structural)]
pub struct UpgradePlan {
    pub dll_needs_upgrade: bool,
    /// A resource bundle is installed at all.
    pub has_resourceex: bool,
    pub resourceex_needs_upgrade: bool,
}

/// An upgrade needs an installed plugin; without one, the error that asks
/// the user to install first.
pub fn require_installed(current_dll: &Option<String>) -> (r: Result<(), ManagerError>)
    ensures
        r is Ok <==> current_dll is Some,
        r is Err ==> r->Err_0 is Other,
{
    match current_dll {
        Some(_) => Ok(()),
        None => Err(ManagerError::Other(String::from_str("未找到已安装的 MetaMystia Mod，请先使用安装功能。"))),
    }
}

/// Decides an upgrade from the installed versions (as consolidation found
/// them) and the latest ones. Without an installed plugin there is nothing
/// to upgrade.
pub fn plan_upgrade(
    current_dll: &Option<String>,
    current_resourceex: &Option<String>,
    latest_dll: &str,
    latest_resourceex: &str,
) -> (r: Result<UpgradePlan, ManagerError>)
    ensures
        r is Err <==> current_dll is None,
        r is Err ==> r->Err_0 is Other,
        r is Ok ==> {
            let p = r->Ok_0;
            let has_res = current_resourceex is Some && current_resourceex->Some_0@.len() > 0;
            &&& p.dll_needs_upgrade == (current_dll->Some_0@ != latest_dll@)
            &&& p.has_resourceex == has_res
            &&& p.resourceex_needs_upgrade == (has_res && current_resourceex->Some_0@ != latest_resourceex@)
        },
{
    if let Err(e) = require_installed(current_dll) {
        return Err(e);
    }
    let dll = current_dll.as_ref().unwrap();
    let dll_needs_upgrade = !text_eq(dll.as_str(), latest_dll);
    let (has_resourceex, resourceex_needs_upgrade) = match current_resourceex {
        Some(v) => {
            let has = v.as_str().unicode_len() > 0;
            (has, has && !text_eq(v.as_str(), latest_resourceex))
        },
        None => (false, false),
    };
    Ok(UpgradePlan { dll_needs_upgrade, has_resourceex, resourceex_needs_upgrade })
}

/// Whether the installed plugin and bundle differ from the latest versions;
/// what is not installed needs nothing.
pub fn has_updates(
    current_dll: &Option<String>,
    current_resourceex: &Option<String>,
    latest_dll: &str,
    latest_resourceex: &str,
) -> (r: (bool, bool))
    ensures
        r.0 == (current_dll is Some && current_dll->Some_0@ != latest_dll@),
        r.1 == (current_resourceex is Some && current_resourceex->Some_0@ != latest_resourceex@),
{
    let dll = match current_dll {
        Some(v) => !text_eq(v.as_str(), latest_dll),
        None => false,
    };
    let res = match current_resourceex {
        Some(v) => !text_eq(v.as_str(), latest_resourceex),
        None => false,
    };
    (dll, res)
}

/// An installed file an upgrade to `new_name` replaces: not the new file
/// itself and not an earlier backup.
pub open spec fn is_superseded(name: Seq<char>, new_name: Seq<char>) -> bool {
    name != new_name && !(4 <= name.len() && name.skip(name.len() - 4) == ".old"@)
}

pub open spec fn superseded(names: Seq<Seq<char>>, new_name: Seq<char>) -> Seq<Seq<char>>
    decreases names.len(),
{
    if names.len() == 0 {
        seq![]
    } else if is_superseded(names.last(), new_name) {
        superseded(names.drop_last(), new_name).push(names.last())
    } else {
        superseded(names.drop_last(), new_name)
    }
}

/// The installed files (names matched in the target directory) to back up
/// before `new_name` is deployed, in the given order.
pub fn superseded_files(existing: &Vec<String>, new_name: &str) -> (r: Vec<String>)
    ensures
        views(r@) == superseded(views(existing@), new_name@),
{
    let ghost ev = views(existing@);
    let mut out: Vec<String> = Vec::new();
    let mut i: usize = 0;
    while i < existing.len()
        invariant
            i <= existing@.len(),
            ev == views(existing@),
            views(out@) == superseded(ev.take(i as int), new_name@),
        decreases existing@.len() - i,
    {
        let name = existing[i].as_str();
        assert(ev.take(i + 1).drop_last() =~= ev.take(i as int));
        assert(ev.take(i + 1).last() == name@);
        let old_backup = ends_with_text(name, ".old");
        proof { reveal_strlit(".old"); }
        assert(".old"@.len() == 4);
        assert(old_backup == (4 <= name@.len() && name@.skip(name@.len() - 4) == ".old"@));
        if !text_eq(name, new_name) && !old_backup {
            let ghost o0 = out@;
            out.push(String::from_str(name));
            assert(views(out@) =~= views(o0).push(name@));
        }
        i = i + 1;
    }
    assert(ev.take(i as int) =~= ev);
    out
}

} // verus!

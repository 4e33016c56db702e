//! Install decisions: what the pre-install cleanup removes, whether to ask
//! about the resource bundle, and the framework configuration to write.

use crate::error::ManagerError;
use crate::file_ops::{entries_view, glob_match, joined, FsEntry};
use crate::naming::{contains_name, views};
use crate::text::text_eq;
use crate::uninstall::dedup_onto;
use vstd::prelude::*;
use vstd::string::*;

verus! {

/// Two characters are equal once ASCII letters are taken without case.
pub open spec fn same_ignoring_case(x: char, y: char) -> bool {
    ||| x == y
    ||| 'a' <= y && y <= 'z' && (x as int) + 32 == (y as int)
    ||| 'a' <= x && x <= 'z' && (y as int) + 32 == (x as int)
}

pub open spec fn eq_ignore_ascii_case(a: Seq<char>, b: Seq<char>) -> bool {
    a.len() == b.len() && forall|i: int| 0 <= i < a.len() ==> same_ignoring_case(a[i], b[i])
}

/// `p` is `BepInEx/<name>` for a single component `name`.
pub open spec fn framework_child(p: Seq<char>) -> Option<Seq<char>> {
    let pre = "BepInEx/"@;
    if pre.len() < p.len() && p.take(pre.len() as int) == pre && !p.skip(pre.len() as int).contains('/') {
        Some(p.skip(pre.len() as int))
    } else {
        None
    }
}

/// The framework files the cleanup removes from the game root.
pub open spec fn is_framework_file(p: Seq<char>) -> bool {
    p == ".doorstop_version"@ || p == "changelog.txt"@ || p == "doorstop_config.ini"@
        || p == "MinHook.x64.dll"@ || p == "winhttp.dll"@
}

/// Whether the pre-install cleanup removes a listed path: everything in the
/// framework directory but the plugin directory, the plugin itself, the
/// resource bundle, and the framework's files in the game root.
pub open spec fn cleanup_selects(p: Seq<char>) -> bool {
    ||| (framework_child(p) is Some && !eq_ignore_ascii_case(framework_child(p)->Some_0, "plugins"@))
    ||| glob_match("BepInEx/plugins/MetaMystia-*.dll"@, p)
    ||| glob_match("ResourceEx/ResourceExample-*.zip"@, p)
    ||| is_framework_file(p)
}

pub open spec fn cleanup_candidates(root: Seq<char>, entries: Seq<(Seq<char>, bool)>) -> Seq<Seq<char>>
    decreases entries.len(),
{
    if entries.len() == 0 {
        seq![]
    } else if cleanup_selects(entries.last().0) {
        cleanup_candidates(root, entries.drop_last()).push(joined(root, entries.last().0))
    } else {
        cleanup_candidates(root, entries.drop_last())
    }
}

fn same_char_ignoring_case(x: char, y: char) -> (r: bool)
    ensures
        r == same_ignoring_case(x, y),
{
    x == y || ('a' <= y && y <= 'z' && (x as u32) + 32 == (y as u32))
        || ('a' <= x && x <= 'z' && (y as u32) + 32 == (x as u32))
}

fn text_eq_ignore_ascii_case(a: &str, b: &str) -> (r: bool)
    ensures
        r == eq_ignore_ascii_case(a@, b@),
{
    let n = a.unicode_len();
    if n != b.unicode_len() {
        return false;
    }
    let mut i: usize = 0;
    while i < n
        invariant
            i <= n,
            n == a@.len(),
            n == b@.len(),
            forall|k: int| 0 <= k < i ==> same_ignoring_case(a@[k], b@[k]),
        decreases n - i,
    {
        if !same_char_ignoring_case(a.get_char(i), b.get_char(i)) {
            return false;
        }
        i = i + 1;
    }
    true
}

fn child_of_framework<'a>(p: &'a str) -> (r: Option<&'a str>)
    ensures
        r is Some <==> framework_child(p@) is Some,
        r is Some ==> r->Some_0@ == framework_child(p@)->Some_0,
{
    proof { reveal_strlit("BepInEx/"); }
    let n = p.unicode_len();
    if n <= 8 {
        return None;
    }
    let head = p.substring_char(0, 8);
    assert(head@ =~= p@.take(8));
    proof { reveal_strlit("BepInEx/"); }
    assert("BepInEx/"@.len() == 8);
    if !text_eq(head, "BepInEx/") {
        return None;
    }
    let mut i: usize = 8;
    while i < n
        invariant
            8 <= i <= n,
            n == p@.len(),
            "BepInEx/"@.len() == 8,
            p@.take(8) == "BepInEx/"@,
            forall|k: int| 8 <= k < i ==> p@[k] != '/',
        decreases n - i,
    {
        if p.get_char(i) == '/' {
            assert(p@.skip(8)[i - 8] == '/');
            assert(p@.skip(8).contains('/'));
            return None;
        }
        i = i + 1;
    }
    assert(!p@.skip(8).contains('/')) by {
        if p@.skip(8).contains('/') {
            let k = choose|k: int| 0 <= k < p@.skip(8).len() && p@.skip(8)[k] == '/';
            assert(p@[k + 8] == '/');
        }
    }
    Some(p.substring_char(8, n))
}

/// Whether the cleanup removes the listed path `p`.
fn selects(p: &str) -> (r: bool)
    ensures
        r == cleanup_selects(p@),
{
    let framework = match child_of_framework(p) {
        Some(name) => !text_eq_ignore_ascii_case(name, "plugins"),
        None => false,
    };
    framework || crate::file_ops::glob_matches_text("BepInEx/plugins/MetaMystia-*.dll", p)
        || crate::file_ops::glob_matches_text("ResourceEx/ResourceExample-*.zip", p)
        || text_eq(p, ".doorstop_version") || text_eq(p, "changelog.txt")
        || text_eq(p, "doorstop_config.ini") || text_eq(p, "MinHook.x64.dll")
        || text_eq(p, "winhttp.dll")
}

/// What an install removes before deploying over an existing installation,
/// as paths under `game_root`, each once, in listing order. `listing` is
/// what exists under the root, as paths relative to it.
pub fn install_cleanup_targets(game_root: &str, listing: &Vec<FsEntry>) -> (r: Vec<String>)
    ensures
        views(r@) == dedup_onto(Seq::empty(), cleanup_candidates(game_root@, entries_view(listing@))),
{
    let ghost ev = entries_view(listing@);
    let ghost mut cands: Seq<Seq<char>> = seq![];
    let mut out: Vec<String> = Vec::new();
    let mut i: usize = 0;
    assert(ev.take(0) =~= Seq::<(Seq<char>, bool)>::empty());
    while i < listing.len()
        invariant
            i <= listing@.len(),
            ev == entries_view(listing@),
            views(out@) == dedup_onto(Seq::empty(), cleanup_candidates(game_root@, ev.take(i as int))),
        decreases listing@.len() - i,
    {
        let p = listing[i].path.as_str();
        assert(ev.take(i + 1).drop_last() =~= ev.take(i as int));
        assert(ev.take(i + 1).last().0 == p@);
        let ghost prev = cleanup_candidates(game_root@, ev.take(i as int));
        if selects(p) {
            let mut full = String::from_str(game_root);
            full.append("/");
            full.append(p);
            assert(cleanup_candidates(game_root@, ev.take(i + 1)) == prev.push(joined(game_root@, p@)));
            assert(prev.push(joined(game_root@, p@)).drop_last() =~= prev);
            if !contains_name(&out, &full) {
                let ghost o0 = views(out@);
                out.push(full);
                assert(views(out@) =~= o0.push(joined(game_root@, p@)));
            }
        } else {
            assert(cleanup_candidates(game_root@, ev.take(i + 1)) == prev);
        }
        i = i + 1;
    }
    assert(ev.take(i as int) =~= ev);
    out
}

/// Whether the user must be asked about the resource bundle: not when a
/// reinstall finds one installed already, which is then kept.
pub fn ask_about_resourceex(cleanup_before_deploy: bool, bundle_present: bool) -> (r: bool)
    ensures
        r == !(cleanup_before_deploy && bundle_present),
{
    !(cleanup_before_deploy && bundle_present)
}

/// Turns the framework console off.
pub const LOGGING_SECTION: &'static str = "[Logging.Console]\n## Enables showing a console for log output.\n# Setting type: Boolean\n# Default value: true\nEnabled = false\n";

/// Points the framework at the mirror for the Unity base libraries.
pub const IL2CPP_SECTION: &'static str = "[IL2CPP]\n## URL to a ZIP file with managed Unity base libraries. They are used by Il2CppInterop to generate interop assemblies.\n## The URL can include {VERSION} template which will be replaced with the game's Unity engine version.\n## If a .zip file with the same filename as the URL (after template replacement) already exists in unity-libs, it will be used instead of downloading a new copy.\n## If you want to ensure BepInEx doesn't try to connect to the internet, set this to only the .zip filename (without a URL) and manually place the file in the unity-libs directory.\n##\n# Setting type: String\n# Default value: https://unity.bepinex.dev/libraries/{VERSION}.zip\nUnityBaseLibrariesSource = https://url.izakaya.cc/unity-library\n";

/// The framework configuration to write: the console section unless the
/// console is wanted, the library source section unless the framework came
/// from its vendor, joined by a blank line. Empty means nothing to write.
pub fn bepinex_config_text(show_console: bool, from_primary: bool) -> (r: String)
    ensures
        r@ == if !show_console && !from_primary {
            LOGGING_SECTION@ + "\n"@ + IL2CPP_SECTION@
        } else if !show_console {
            LOGGING_SECTION@
        } else if !from_primary {
            IL2CPP_SECTION@
        } else {
            Seq::empty()
        },
{
    let mut r = String::new();
    if !show_console {
        r.append(LOGGING_SECTION);
    }
    if !from_primary {
        if !show_console {
            r.append("\n");
        }
        r.append(IL2CPP_SECTION);
    }
    r
}

/// The version to install: the requested one when the server lists it,
/// else the newest listed one when none was requested.
pub fn choose_version(requested: &Option<String>, available: &Vec<String>) -> (r: Result<String, ManagerError>)
    ensures
        requested is None && available@.len() > 0 ==> r is Ok && r->Ok_0@ == available@[0]@,
        requested is None && available@.len() == 0 ==> r == Err::<String, ManagerError>(ManagerError::InvalidVersionInfo),
        requested is Some ==> (r is Ok <==> views(available@).contains(requested->Some_0@)),
        requested is Some && r is Ok ==> r->Ok_0@ == requested->Some_0@,
        requested is Some && r is Err ==> r->Err_0 is Other,
{
    match requested {
        None => {
            if available.len() == 0 {
                Err(ManagerError::InvalidVersionInfo)
            } else {
                Ok(available[0].clone())
            }
        },
        Some(v) => {
            if contains_name(available, v) {
                Ok(v.clone())
            } else {
                let mut msg = String::from_str("指定的版本不可用：");
                msg.append(v.as_str());
                Err(ManagerError::Other(msg))
            }
        },
    }
}

} // verus!

//! Archive extraction rules: which entries are safe, which are excluded, and
//! the plan of directories and files to write. Every entry is checked before
//! anything is written, so an unsafe archive leaves the destination untouched.

use crate::error::ManagerError;
use crate::file_ops::joined;
use vstd::prelude::*;
use vstd::string::*;

verus! {

pub open spec fn is_path_sep(c: char) -> bool {
    c == '/' || c == '\\'
}

/// The entry name starts at the root.
pub open spec fn is_rooted(s: Seq<char>) -> bool {
    s.len() > 0 && is_path_sep(s[0])
}

/// The entry name starts with a drive prefix such as `C:`.
pub open spec fn has_drive(s: Seq<char>) -> bool {
    s.len() >= 2 && s[1] == ':'
}

/// A `..` component starts at `i`.
pub open spec fn parent_at(s: Seq<char>, i: int) -> bool {
    &&& 0 <= i && i + 2 <= s.len()
    &&& s[i] == '.' && s[i + 1] == '.'
    &&& i == 0 || is_path_sep(s[i - 1])
    &&& i + 2 == s.len() || is_path_sep(s[i + 2])
}

pub open spec fn has_parent(s: Seq<char>) -> bool {
    exists|i: int| parent_at(s, i)
}

/// A name that stays inside the destination: relative, without a drive,
/// without `..` components and without NUL characters.
pub open spec fn is_safe_entry(s: Seq<char>) -> bool {
    !is_rooted(s) && !has_drive(s) && !has_parent(s) && !s.contains('\0')
}

/// The Unix mode marks a symbolic link.
pub open spec fn is_symlink_mode(m: Option<u32>) -> bool {
    match m {
        Some(v) => (v & 0o170000u32) == 0o120000u32,
        None => false,
    }
}

/// `entry` lies at or under `prefix`, component-wise.
pub open spec fn is_under(entry: Seq<char>, prefix: Seq<char>) -> bool {
    &&& prefix.len() <= entry.len()
    &&& entry.take(prefix.len() as int) == prefix
    &&& prefix.len() == entry.len() || is_path_sep(entry[prefix.len() as int])
}

pub open spec fn is_excluded(entry: Seq<char>, excludes: Seq<Seq<char>>) -> bool {
    exists|k: int| 0 <= k < excludes.len() && is_under(entry, #[trigger] excludes[k])
}

/// A directory entry's name ends with `/`.
pub open spec fn is_dir_name(s: Seq<char>) -> bool {
    s.len() > 0 && s.last() == '/'
}

/// One archive entry as the rules see it.
#[derive(Debug, Clone, PartialEq, Eq)]
pub struct ArchiveEntry {
    pub name: String,
    pub unix_mode: Option<u32>,
    /// The archive reader found the name to stay inside the destination.
    pub enclosed: bool,
}

/// The entry may be extracted at all.
pub open spec fn entry_allowed(e: ArchiveEntry) -> bool {
    e.enclosed && is_safe_entry(e.name@) && !is_symlink_mode(e.unix_mode)
}

/// One write of the plan: entry `index` goes to `path`, as a directory or a file.
#[derive(Debug, Clone, PartialEq, Eq)]
pub struct PlannedEntry {
    pub index: usize,
    pub path: String,
    pub is_dir: bool,
}

pub open spec fn planned_view(p: PlannedEntry) -> (nat, Seq<char>, bool) {
    (p.index as nat, p.path@, p.is_dir)
}

/// The plan for `entries`: each entry not excluded, in archive order.
pub open spec fn plan_of(entries: Seq<ArchiveEntry>, dest: Seq<char>, excludes: Seq<Seq<char>>) -> Seq<(nat, Seq<char>, bool)>
    decreases entries.len(),
{
    if entries.len() == 0 {
        seq![]
    } else {
        let rest = plan_of(entries.drop_last(), dest, excludes);
        let e = entries.last();
        if is_excluded(e.name@, excludes) {
            rest
        } else {
            rest.push(((entries.len() - 1) as nat, joined(dest, e.name@), is_dir_name(e.name@)))
        }
    }
}

fn is_sep_char(c: char) -> (r: bool)
    ensures
        r == is_path_sep(c),
{
    c == '/' || c == '\\'
}

/// Whether an entry name stays inside the destination.
pub fn is_safe_path(name: &str) -> (r: bool)
    ensures
        r == is_safe_entry(name@),
{
    let n = name.unicode_len();
    if n > 0 && is_sep_char(name.get_char(0)) {
        return false;
    }
    if n >= 2 && name.get_char(1) == ':' {
        return false;
    }
    let mut i: usize = 0;
    while i < n
        invariant
            i <= n,
            n == name@.len(),
            forall|k: int| 0 <= k < i ==> !parent_at(name@, k) && name@[k] != '\0',
        decreases n - i,
    {
        let c = name.get_char(i);
        if c == '\0' {
            assert(name@.contains('\0') && name@[i as int] == '\0');
            return false;
        }
        if c == '.' && i + 1 < n && name.get_char(i + 1) == '.'
            && (i == 0 || is_sep_char(name.get_char(i - 1)))
            && (i + 2 == n || is_sep_char(name.get_char(i + 2)))
        {
            assert(parent_at(name@, i as int));
            return false;
        }
        i = i + 1;
    }
    assert(!name@.contains('\0'));
    true
}

fn is_symlink(mode: Option<u32>) -> (r: bool)
    ensures
        r == is_symlink_mode(mode),
{
    match mode {
        Some(v) => (v & 0o170000u32) == 0o120000u32,
        None => false,
    }
}

fn under(entry: &str, prefix: &str) -> (r: bool)
    ensures
        r == is_under(entry@, prefix@),
{
    let n = entry.unicode_len();
    let m = prefix.unicode_len();
    if m > n {
        return false;
    }
    let mut i: usize = 0;
    while i < m
        invariant
            i <= m <= n,
            n == entry@.len(),
            m == prefix@.len(),
            forall|k: int| 0 <= k < i ==> entry@[k] == prefix@[k],
        decreases m - i,
    {
        if entry.get_char(i) != prefix.get_char(i) {
            assert(entry@.take(m as int)[i as int] != prefix@[i as int]);
            return false;
        }
        i = i + 1;
    }
    assert(entry@.take(m as int) =~= prefix@);
    m == n || is_sep_char(entry.get_char(m))
}

fn excluded(entry: &str, excludes: &Vec<String>) -> (r: bool)
    ensures
        r == is_excluded(entry@, excludes@.map_values(|s: String| s@)),
{
    let ghost ex = excludes@.map_values(|s: String| s@);
    let mut k: usize = 0;
    while k < excludes.len()
        invariant
            k <= excludes@.len(),
            ex == excludes@.map_values(|s: String| s@),
            forall|j: int| 0 <= j < k ==> !is_under(entry@, #[trigger] ex[j]),
        decreases excludes@.len() - k,
    {
        if under(entry, excludes[k].as_str()) {
            assert(is_under(entry@, ex[k as int]));
            return true;
        }
        k = k + 1;
    }
    false
}

fn unsafe_entry_error(name: &str) -> (r: ManagerError)
    ensures
        r is ExtractFailed,
{
    let mut msg = String::from_str("不安全的压缩包条目：");
    msg.append(name);
    ManagerError::ExtractFailed(msg)
}

/// The extraction rules behind every deployment.
pub struct Extractor;

impl Extractor {
    /// Checks every entry, then plans the writes for those not excluded.
    /// Fails with `ExtractFailed`, before anything is written, when any entry
    /// is unsafe or a symbolic link.
    pub fn extract_zip_safe_with_exclusions(
        entries: &Vec<ArchiveEntry>,
        dest_dir: &str,
        exclude_patterns: &Vec<String>,
    ) -> (r: Result<Vec<PlannedEntry>, ManagerError>)
        ensures
            r is Err <==> exists|i: int| 0 <= i < entries@.len() && !entry_allowed(#[trigger] entries@[i]),
            r is Err ==> r->Err_0 is ExtractFailed,
            r is Ok ==> r->Ok_0@.map_values(|p: PlannedEntry| planned_view(p)) == plan_of(
                entries@,
                dest_dir@,
                exclude_patterns@.map_values(|s: String| s@),
            ),
            r is Ok ==> forall|k: int| 0 <= k < r->Ok_0@.len() ==> {
                let p = #[trigger] r->Ok_0@[k];
                &&& p.index < entries@.len()
                &&& !is_excluded(entries@[p.index as int].name@, exclude_patterns@.map_values(|s: String| s@))
                &&& p.path@ == joined(dest_dir@, entries@[p.index as int].name@)
            },
    {
        let mut i: usize = 0;
        while i < entries.len()
            invariant
                i <= entries@.len(),
                forall|k: int| 0 <= k < i ==> entry_allowed(#[trigger] entries@[k]),
            decreases entries@.len() - i,
        {
            let e = &entries[i];
            if !e.enclosed || !is_safe_path(e.name.as_str()) || is_symlink(e.unix_mode) {
                assert(!entry_allowed(entries@[i as int]));
                return Err(unsafe_entry_error(e.name.as_str()));
            }
            i = i + 1;
        }
        let ghost ex = exclude_patterns@.map_values(|s: String| s@);
        let mut plan: Vec<PlannedEntry> = Vec::new();
        let mut j: usize = 0;
        assert(entries@.take(0) =~= Seq::<ArchiveEntry>::empty());
        while j < entries.len()
            invariant
                j <= entries@.len(),
                ex == exclude_patterns@.map_values(|s: String| s@),
                plan@.map_values(|p: PlannedEntry| planned_view(p)) == plan_of(entries@.take(j as int), dest_dir@, ex),
                forall|k: int| 0 <= k < plan@.len() ==> {
                    let p = #[trigger] plan@[k];
                    &&& p.index < j
                    &&& !is_excluded(entries@[p.index as int].name@, ex)
                    &&& p.path@ == joined(dest_dir@, entries@[p.index as int].name@)
                },
            decreases entries@.len() - j,
        {
            let e = &entries[j];
            assert(entries@.take(j + 1).drop_last() =~= entries@.take(j as int));
            assert(entries@.take(j + 1).last() == *e);
            if !excluded(e.name.as_str(), exclude_patterns) {
                let n = e.name.unicode_len();
                let is_dir = n > 0 && e.name.as_str().get_char(n - 1) == '/';
                let mut path = String::from_str(dest_dir);
                path.append("/");
                path.append(e.name.as_str());
                let ghost plan0 = plan@;
                plan.push(PlannedEntry { index: j, path, is_dir });
                assert(plan@.map_values(|p: PlannedEntry| planned_view(p)) =~= plan0.map_values(
                    |p: PlannedEntry| planned_view(p),
                ).push(planned_view(plan@.last())));
            }
            j = j + 1;
        }
        assert(entries@.take(j as int) =~= entries@);
        Ok(plan)
    }

    /// Plans the extraction of the whole archive.
    pub fn extract_zip_safe(entries: &Vec<ArchiveEntry>, dest_dir: &str) -> (r: Result<Vec<PlannedEntry>, ManagerError>)
        ensures
            r is Err <==> exists|i: int| 0 <= i < entries@.len() && !entry_allowed(#[trigger] entries@[i]),
            r is Err ==> r->Err_0 is ExtractFailed,
            r is Ok ==> r->Ok_0@.map_values(|p: PlannedEntry| planned_view(p)) == plan_of(
                entries@,
                dest_dir@,
                Seq::empty(),
            ),
    {
        let none: Vec<String> = Vec::new();
        assert(none@.map_values(|s: String| s@) =~= Seq::<Seq<char>>::empty());
        Self::extract_zip_safe_with_exclusions(entries, dest_dir, &none)
    }

    /// Plans the framework archive's extraction into the game root; with
    /// `skip_plugins` the existing plugin directory is left alone.
    pub fn deploy_bepinex(entries: &Vec<ArchiveEntry>, game_root: &str, skip_plugins: bool) -> (r: Result<Vec<PlannedEntry>, ManagerError>)
        ensures
            r is Err <==> exists|i: int| 0 <= i < entries@.len() && !entry_allowed(#[trigger] entries@[i]),
            r is Err ==> r->Err_0 is ExtractFailed,
            r is Ok ==> r->Ok_0@.map_values(|p: PlannedEntry| planned_view(p)) == plan_of(
                entries@,
                game_root@,
                if skip_plugins { seq![plugins_dir()] } else { Seq::empty() },
            ),
    {
        let mut ex: Vec<String> = Vec::new();
        if skip_plugins {
            ex.push(String::from_str("BepInEx/plugins"));
        }
        assert(ex@.map_values(|s: String| s@) =~= if skip_plugins { seq![plugins_dir()] } else { Seq::<Seq<char>>::empty() });
        Self::extract_zip_safe_with_exclusions(entries, game_root, &ex)
    }
}

/// The plugin directory under the game root.
pub open spec fn plugins_dir() -> Seq<char> {
    "BepInEx/plugins"@
}

} // verus!

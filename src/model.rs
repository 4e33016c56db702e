//! Remote version metadata and the file names derived from it.

use crate::error::ManagerError;
use crate::text::{trim, trimmed};
use vstd::prelude::*;
use vstd::string::*;

verus! {

/// The separator between the framework version and its file name.
pub open spec fn is_sep(c: char) -> bool {
    c == '#'
}

/// The index of the first separator at or after `from`, or `s.len()`.
pub open spec fn next_sep(s: Seq<char>, from: int) -> int
    decreases s.len() - from,
{
    if from < 0 || from >= s.len() {
        s.len() as int
    } else if is_sep(s[from]) {
        from
    } else {
        next_sep(s, from + 1)
    }
}

/// Whether the encoded framework field holds a separator at all.
pub open spec fn has_sep(s: Seq<char>) -> bool {
    next_sep(s, 0) < s.len()
}

/// The text before the first separator.
pub open spec fn first_field(s: Seq<char>) -> Seq<char> {
    s.subrange(0, next_sep(s, 0))
}

/// The text between the first separator and the next one (or the end).
pub open spec fn second_field(s: Seq<char>) -> Seq<char> {
    s.subrange(next_sep(s, 0) + 1, next_sep(s, next_sep(s, 0) + 1))
}

proof fn lemma_next_sep_bounds(s: Seq<char>, from: int)
    requires
        0 <= from <= s.len(),
    ensures
        from <= next_sep(s, from) <= s.len(),
    decreases s.len() - from,
{
    if from < s.len() && !is_sep(s[from]) {
        lemma_next_sep_bounds(s, from + 1);
    }
}

/// Finds the first separator at or after `from`.
fn find_sep(s: &str, from: usize) -> (r: usize)
    requires
        from <= s@.len(),
    ensures
        r == next_sep(s@, from as int),
{
    let n = s.unicode_len();
    let mut i = from;
    while i < n && s.get_char(i) != '#'
        invariant
            from <= i <= n,
            n == s@.len(),
            next_sep(s@, from as int) == next_sep(s@, i as int),
        decreases n - i,
    {
        i = i + 1;
    }
    i
}

/// Version metadata published by the distribution server.
#[derive(Clone)]
pub struct VersionInfo {
    /// The companion framework, encoded as `version#filename`.
    pub bep_in_ex: String,
    /// The latest manager version.
    pub manager: String,
    /// Plugin versions, newest first.
    pub dlls: Vec<String>,
    /// Resource bundle versions, newest first.
    pub zips: Vec<String>,
}

/// `MetaMystia-v<version>.dll`
pub open spec fn plugin_file_name(version: Seq<char>) -> Seq<char> {
    "MetaMystia-v"@ + trimmed(version) + ".dll"@
}

/// `ResourceExample-v<version>.zip`
pub open spec fn bundle_file_name(version: Seq<char>) -> Seq<char> {
    "ResourceExample-v"@ + trimmed(version) + ".zip"@
}

/// `meta-mystia-manager-v<version>.exe`
pub open spec fn manager_file_name(version: Seq<char>) -> Seq<char> {
    "meta-mystia-manager-v"@ + trimmed(version) + ".exe"@
}

fn framed(prefix: &str, middle: &str, suffix: &str) -> (r: String)
    ensures
        r@ == prefix@ + trimmed(middle@) + suffix@,
{
    let mut r = String::from_str(prefix);
    r.append(trim(middle));
    r.append(suffix);
    r
}

impl VersionInfo {
    /// Metadata is usable only if it lists at least one plugin and one bundle.
    pub fn validate(&self) -> (r: Result<(), ManagerError>)
        ensures
            r is Ok <==> self.dlls@.len() > 0 && self.zips@.len() > 0,
            r is Err ==> r->Err_0 == ManagerError::InvalidVersionInfo,
    {
        if self.dlls.len() == 0 {
            return Err(ManagerError::InvalidVersionInfo);
        }
        if self.zips.len() == 0 {
            return Err(ManagerError::InvalidVersionInfo);
        }
        Ok(())
    }

    /// The newest plugin version.
    pub fn latest_dll(&self) -> (r: &str)
        requires
            self.dlls@.len() > 0,
        ensures
            r@ == self.dlls@[0]@,
    {
        self.dlls[0].as_str()
    }

    /// The newest resource bundle version.
    pub fn latest_resourceex(&self) -> (r: &str)
        requires
            self.zips@.len() > 0,
        ensures
            r@ == self.zips@[0]@,
    {
        self.zips[0].as_str()
    }

    /// The framework file name: the trimmed text after the separator.
    pub fn bepinex_filename(&self) -> (r: Result<&str, ManagerError>)
        ensures
            r is Ok <==> has_sep(self.bep_in_ex@),
            r is Ok ==> r->Ok_0@ == trimmed(second_field(self.bep_in_ex@)),
            r is Err ==> r->Err_0 == ManagerError::InvalidVersionInfo,
    {
        let s = self.bep_in_ex.as_str();
        let n = s.unicode_len();
        proof { lemma_next_sep_bounds(s@, 0); }
        let k = find_sep(s, 0);
        if k >= n {
            return Err(ManagerError::InvalidVersionInfo);
        }
        proof { lemma_next_sep_bounds(s@, k + 1); }
        let e = find_sep(s, k + 1);
        Ok(trim(s.substring_char(k + 1, e)))
    }

    /// The framework version: the trimmed text before the separator.
    pub fn bepinex_version(&self) -> (r: Result<&str, ManagerError>)
        ensures
            r is Ok <==> has_sep(self.bep_in_ex@),
            r is Ok ==> r->Ok_0@ == trimmed(first_field(self.bep_in_ex@)),
            r is Err ==> r->Err_0 == ManagerError::InvalidVersionInfo,
    {
        let s = self.bep_in_ex.as_str();
        let n = s.unicode_len();
        proof { lemma_next_sep_bounds(s@, 0); }
        let k = find_sep(s, 0);
        if k >= n {
            return Err(ManagerError::InvalidVersionInfo);
        }
        Ok(trim(s.substring_char(0, k)))
    }

    /// The plugin file name for `version`.
    pub fn metamystia_filename(version: &str) -> (r: String)
        ensures
            r@ == plugin_file_name(version@),
    {
        framed("MetaMystia-v", version, ".dll")
    }

    /// The resource bundle file name for `version`.
    pub fn resourceex_filename(version: &str) -> (r: String)
        ensures
            r@ == bundle_file_name(version@),
    {
        framed("ResourceExample-v", version, ".zip")
    }

    /// The manager executable's file name for the advertised manager version.
    pub fn manager_filename(&self) -> (r: String)
        ensures
            r@ == manager_file_name(self.manager@),
    {
        framed("meta-mystia-manager-v", self.manager.as_str(), ".exe")
    }
}

/// The first entry of a list, or nothing.
pub open spec fn first_or_empty(v: Seq<String>) -> Seq<char> {
    if v.len() > 0 { v[0]@ } else { Seq::empty() }
}

fn first_text(v: &Vec<String>) -> (r: &str)
    ensures
        r@ == trimmed(first_or_empty(v@)),
{
    if v.len() > 0 {
        trim(v[0].as_str())
    } else {
        proof { reveal_strlit(""); }
        let e = "";
        assert(trimmed(Seq::<char>::empty()) == Seq::<char>::empty());
        assert(e@ =~= Seq::<char>::empty());
        e
    }
}

impl VersionInfo {
    /// One line naming the framework, plugin and bundle versions.
    pub fn describe(&self) -> (r: String)
        ensures
            r@ == "BepInEx: "@ + trimmed(self.bep_in_ex@) + ", dll: "@ + trimmed(first_or_empty(self.dlls@))
                + ", zip: "@ + trimmed(first_or_empty(self.zips@)),
    {
        let mut r = String::from_str("BepInEx: ");
        r.append(trim(self.bep_in_ex.as_str()));
        r.append(", dll: ");
        r.append(first_text(&self.dlls));
        r.append(", zip: ");
        r.append(first_text(&self.zips));
        r
    }
}

} // verus!

//! The working directory of a run, and the registry of directories to remove
//! on interrupt.

use crate::naming::{contains_name, views};
use crate::text::text_eq;
use vstd::prelude::*;
use vstd::string::*;

verus! {

/// The name of the per-run working directory under the game root.
pub const TEMP_DIR_NAME: &'static str = ".meta-mystia-tmp";

/// `base/.meta-mystia-tmp`
pub fn temp_dir_path(base: &str) -> (r: String)
    ensures
        r@ == base@ + "/"@ + TEMP_DIR_NAME@,
{
    let mut r = String::from_str(base);
    r.append("/");
    r.append(TEMP_DIR_NAME);
    r
}

/// Directories to remove if the process is interrupted; each listed once.
pub struct TempDirRegistry {
    dirs: Vec<String>,
}

impl TempDirRegistry {
    pub closed spec fn listed(&self) -> Seq<Seq<char>> {
        views(self.dirs@)
    }

    pub open spec fn wf(&self) -> bool {
        self.listed().no_duplicates()
    }

    pub fn new() -> (r: TempDirRegistry)
        ensures
            r.wf(),
            r.listed() == Seq::<Seq<char>>::empty(),
    {
        let r = TempDirRegistry { dirs: Vec::new() };
        assert(r.listed() =~= Seq::<Seq<char>>::empty());
        r
    }

    pub fn contains(&self, path: &String) -> (r: bool)
        ensures
            r == self.listed().contains(path@),
    {
        contains_name(&self.dirs, path)
    }

    /// The listed directories, in registration order.
    pub fn dirs(&self) -> (r: &Vec<String>)
        ensures
            views(r@) == self.listed(),
    {
        &self.dirs
    }

    /// Lists `path` unless it is listed already.
    pub fn register(&mut self, path: String)
        requires
            old(self).wf(),
        ensures
            final(self).wf(),
            old(self).listed().contains(path@) ==> final(self).listed() == old(self).listed(),
            !old(self).listed().contains(path@) ==> final(self).listed() == old(self).listed().push(path@),
    {
        if !contains_name(&self.dirs, &path) {
            let ghost d0 = views(self.dirs@);
            self.dirs.push(path);
            assert(views(self.dirs@) =~= d0.push(path@));
        }
    }

    /// Drops `path` from the list.
    pub fn unregister(&mut self, path: &str)
        requires
            old(self).wf(),
        ensures
            final(self).wf(),
            !final(self).listed().contains(path@),
            forall|x: Seq<char>| x != path@ ==> (final(self).listed().contains(x) <==> old(self).listed().contains(x)),
    {
        let ghost d0 = views(self.dirs@);
        let mut kept: Vec<String> = Vec::new();
        let mut src: Vec<String> = Vec::new();
        std::mem::swap(&mut src, &mut self.dirs);
        let ghost mut j: int = 0;
        while src.len() > 0
            invariant
                0 <= j <= d0.len(),
                d0.no_duplicates(),
                views(src@) == d0.skip(j),
                views(kept@).no_duplicates(),
                !views(kept@).contains(path@),
                forall|x: Seq<char>| views(kept@).contains(x) ==> d0.take(j).contains(x),
                forall|x: Seq<char>| x != path@ && d0.take(j).contains(x) ==> views(kept@).contains(x),
            decreases src@.len(),
        {
            let ghost src0 = src@;
            assert(views(src0).len() == d0.len() - j);
            assert(views(src0)[0] == d0[j]);
            let s = src.remove(0);
            assert(s@ == d0[j]);
            assert forall|i: int| 0 <= i < views(src@).len() implies views(src@)[i] == d0.skip(j + 1)[i] by {
                assert(src@[i] == src0[i + 1]);
                assert(views(src0)[i + 1] == d0.skip(j)[i + 1]);
            }
            assert(views(src@) =~= d0.skip(j + 1));
            assert(d0.take(j + 1) =~= d0.take(j).push(d0[j]));
            let ghost kb = views(kept@);
            if !text_eq(s.as_str(), path) {
                assert(!kb.contains(s@)) by {
                    if kb.contains(s@) {
                        let i = choose|i: int| 0 <= i < d0.take(j).len() && d0.take(j)[i] == s@;
                        assert(d0[i] == d0[j]);
                    }
                }
                kept.push(s);
                assert(views(kept@) =~= kb.push(d0[j]));
            } else {
                assert(views(kept@) == kb);
            }
            proof {
                assert forall|x: Seq<char>| views(kept@).contains(x) implies d0.take(j + 1).contains(x) by {
                    if x != d0[j] {
                        let i = choose|i: int| 0 <= i < views(kept@).len() && views(kept@)[i] == x;
                        assert(i < kb.len() && kb[i] == x);
                        assert(kb.contains(x));
                        let m = choose|m: int| 0 <= m < d0.take(j).len() && d0.take(j)[m] == x;
                        assert(d0.take(j + 1)[m] == x);
                    } else {
                        assert(d0.take(j + 1)[j] == x);
                    }
                }
                assert forall|x: Seq<char>| x != path@ && d0.take(j + 1).contains(x) implies views(kept@).contains(x) by {
                    let t1 = d0.take(j + 1);
                    let m = choose|m: int| 0 <= m < t1.len() && t1[m] == x;
                    if m == j {
                        assert(views(kept@)[views(kept@).len() - 1] == x);
                    } else {
                        assert(d0.take(j)[m] == x);
                        assert(kb.contains(x));
                        let i = choose|i: int| 0 <= i < kb.len() && kb[i] == x;
                        assert(views(kept@)[i] == x);
                    }
                }
                j = j + 1;
            }
        }
        assert(d0.take(j) =~= d0);
        self.dirs = kept;
    }
}

/// Removes the working directory when the run ends.
pub struct DirGuard {
    pub path: String,
}

impl DirGuard {
    /// Guards `path` and lists it for removal on interrupt.
    pub fn new(path: String, registry: &mut TempDirRegistry) -> (r: DirGuard)
        requires
            old(registry).wf(),
        ensures
            r.path@ == path@,
            final(registry).wf(),
            final(registry).listed().contains(path@),
    {
        let listed = path.clone();
        let ghost before = registry.listed();
        registry.register(listed);
        assert(registry.listed().contains(path@)) by {
            if !before.contains(path@) {
                assert(registry.listed()[before.len() as int] == path@);
            }
        }
        DirGuard { path }
    }

    /// Guards a directory another guard has listed already.
    pub fn from_existing(path: String) -> (r: DirGuard)
        ensures
            r.path@ == path@,
    {
        DirGuard { path }
    }
}

} // verus!

//! The dependency closure walk: which files go into the archive, in which
//! order, each one once.
//!
//! The walk is an explicit stack of paths still to visit. The caller asks
//! for the next file with [`Solver::next_file`], reads it, resolves the
//! libraries it needs and hands them back with [`Solver::push_libraries`].
//! The order of the visits is that of a depth-first walk in which each
//! binary's libraries are visited in the order the binary lists them.

use vstd::prelude::*;
use vstd::string::*;

use crate::archive::{Archive, EntrySpec, TarBuilderExt};
use crate::locate::strings_view;

verus! {

/// An absolute path.
pub open spec fn is_absolute(p: Seq<char>) -> bool {
    p.len() >= 1 && p[0] == '/'
}

/// The archive path of the file at absolute path `p`: `p` without its root.
pub open spec fn strip_root(p: Seq<char>) -> Seq<char> {
    p.skip(1)
}

/// The two symbolic links that open every archive: `sbin` pointing to `bin`,
/// and `usr` pointing to the archive root.
pub open spec fn layout_prefix() -> Seq<EntrySpec> {
    seq![
        EntrySpec::Symlink(seq!['b', 'i', 'n'], seq!['s', 'b', 'i', 'n']),
        EntrySpec::Symlink(seq!['.'], seq!['u', 's', 'r']),
    ]
}

/// The archive entry of a scanned file.
pub open spec fn file_entry(p: Seq<char>) -> EntrySpec {
    EntrySpec::File(p, strip_root(p))
}

/// The walk over the dependency closure, with the archive it fills.
pub struct Solver {
    files: Vec<String>,
    pending: Vec<String>,
    tar: Archive,
}

impl Solver {
    /// The files visited so far, in the order of their visits.
    pub closed spec fn files(&self) -> Seq<Seq<char>> {
        strings_view(self.files@)
    }

    /// The paths still to visit; the last one is visited first.
    pub closed spec fn pending(&self) -> Seq<Seq<char>> {
        strings_view(self.pending@)
    }

    /// The entries of the archive so far.
    pub closed spec fn entries(&self) -> Seq<EntrySpec> {
        self.tar.view_entries()
    }

    /// The archive holds the two layout links and then one entry for each
    /// visited file, in the order of the visits; no file is visited twice.
    pub open spec fn wf(&self) -> bool {
        &&& self.files().no_duplicates()
        &&& self.entries() == layout_prefix() + self.files().map_values(|p: Seq<char>| file_entry(p))
        &&& forall|i: int| 0 <= i < self.files().len() ==> is_absolute(#[trigger] self.files()[i])
        &&& forall|i: int| 0 <= i < self.pending().len() ==> is_absolute(#[trigger] self.pending()[i])
    }

    /// A walk that has visited nothing, over an archive that holds the two
    /// layout links.
    pub fn new() -> (r: Self)
        ensures
            r.wf(),
            r.files() == Seq::<Seq<char>>::empty(),
            r.pending() == Seq::<Seq<char>>::empty(),
            r.entries() == layout_prefix(),
    {
        let mut tar = Archive::new();
        tar.symlink("bin", "sbin");
        tar.symlink(".", "usr");
        let r = Solver { files: Vec::new(), pending: Vec::new(), tar };
        proof {
            reveal_strlit("bin");
            reveal_strlit("sbin");
            reveal_strlit(".");
            reveal_strlit("usr");
            assert(r.files() =~= Seq::<Seq<char>>::empty());
            assert(r.pending() =~= Seq::<Seq<char>>::empty());
            assert("bin"@ =~= seq!['b', 'i', 'n']);
            assert("sbin"@ =~= seq!['s', 'b', 'i', 'n']);
            assert("."@ =~= seq!['.']);
            assert("usr"@ =~= seq!['u', 's', 'r']);
            assert(r.entries() =~= layout_prefix());
            assert(r.files().map_values(|p: Seq<char>| file_entry(p)) =~= Seq::<EntrySpec>::empty());
            assert(layout_prefix() + Seq::<EntrySpec>::empty() =~= layout_prefix());
        }
        r
    }

    /// The archive as it stands.
    pub fn archive(&self) -> (r: &Archive)
        ensures
            r.view_entries() == self.entries(),
    {
        &self.tar
    }

    /// Gives back the archive.
    pub fn into_inner(self) -> (r: Archive)
        ensures
            r.view_entries() == self.entries(),
    {
        self.tar
    }

    /// Schedules the file at `path` to be visited next.
    pub fn scan_file(&mut self, path: &str)
        requires
            old(self).wf(),
            is_absolute(path@),
        ensures
            final(self).wf(),
            final(self).files() == old(self).files(),
            final(self).entries() == old(self).entries(),
            final(self).pending() == old(self).pending().push(path@),
    {
        let ghost old_pending = self.pending@;
        let owned = String::from_str(path);
        self.pending.push(owned);
        proof {
            crate::locate::lemma_strings_view_push(old_pending, owned);
            assert forall|i: int| 0 <= i < self.pending().len() implies is_absolute(#[trigger] self.pending()[i]) by {
                if i < self.pending().len() - 1 {
                    assert(self.pending()[i] == strings_view(old_pending)[i]);
                    assert(old(self).pending()[i] == strings_view(old_pending)[i]);
                } else {
                    assert(self.pending()[i] == path@);
                }
            }
        }
    }

    /// Schedules the libraries that the file just visited needs, so that
    /// they are visited in the order of `libs` before anything scheduled
    /// earlier.
    pub fn push_libraries(&mut self, libs: &Vec<String>)
        requires
            old(self).wf(),
            forall|i: int| 0 <= i < libs@.len() ==> is_absolute(#[trigger] libs@[i]@),
        ensures
            final(self).wf(),
            final(self).files() == old(self).files(),
            final(self).entries() == old(self).entries(),
            final(self).pending() == old(self).pending() + strings_view(libs@).reverse(),
    {
        let mut j: usize = libs.len();
        while j > 0
            invariant
                j <= libs@.len(),
                self.wf(),
                self.files() == old(self).files(),
                self.entries() == old(self).entries(),
                forall|i: int| 0 <= i < libs@.len() ==> is_absolute(#[trigger] libs@[i]@),
                self.pending() == old(self).pending() + strings_view(libs@).reverse().subrange(0, (libs@.len() - j) as int),
            decreases j,
        {
            j = j - 1;
            let ghost old_pending = self.pending@;
            self.pending.push(libs[j].clone());
            proof {
                crate::locate::lemma_strings_view_push(old_pending, libs@[j as int]);
                assert(strings_view(libs@).reverse().subrange(0, (libs@.len() - j) as int)
                    =~= strings_view(libs@).reverse().subrange(0, (libs@.len() - j - 1) as int).push(libs@[j as int]@));
            }
        }
        proof {
            assert(strings_view(libs@).reverse().subrange(0, libs@.len() as int) =~= strings_view(libs@).reverse());
        }
    }

    fn is_visited(&self, path: &String) -> (r: bool)
        ensures
            r == self.files().contains(path@),
    {
        let mut i: usize = 0;
        while i < self.files.len()
            invariant
                i <= self.files@.len(),
                forall|k: int| 0 <= k < i ==> self.files()[k] != path@,
            decreases self.files@.len() - i,
        {
            if self.files[i] == *path {
                proof {
                    assert(self.files()[i as int] == path@);
                }
                return true;
            }
            i = i + 1;
        }
        false
    }

    /// Takes scheduled paths, the last scheduled first, until one that has
    /// not been visited; records it as visited, appends its entry to the
    /// archive and returns it. `None` when every scheduled path has been
    /// visited already.
    pub fn next_file(&mut self) -> (r: Option<String>)
        requires
            old(self).wf(),
        ensures
            final(self).wf(),
            final(self).pending() == old(self).pending().subrange(0, final(self).pending().len() as int),
            forall|j: int| final(self).pending().len() < j < old(self).pending().len()
                ==> old(self).files().contains(#[trigger] old(self).pending()[j]),
            match r {
                Some(p) => {
                    &&& final(self).pending().len() < old(self).pending().len()
                    &&& p@ == old(self).pending()[final(self).pending().len() as int]
                    &&& !old(self).files().contains(p@)
                    &&& final(self).files() == old(self).files().push(p@)
                    &&& final(self).entries() == old(self).entries().push(file_entry(p@))
                },
                None => {
                    &&& final(self).pending().len() == 0
                    &&& (forall|j: int| 0 <= j < old(self).pending().len()
                        ==> old(self).files().contains(#[trigger] old(self).pending()[j]))
                    &&& final(self).files() == old(self).files()
                    &&& final(self).entries() == old(self).entries()
                },
            },
    {
        while self.pending.len() > 0
            invariant
                self.wf(),
                self.files() == old(self).files(),
                self.entries() == old(self).entries(),
                self.pending() == old(self).pending().subrange(0, self.pending().len() as int),
                self.pending().len() <= old(self).pending().len(),
                forall|j: int| self.pending().len() <= j < old(self).pending().len()
                    ==> old(self).files().contains(#[trigger] old(self).pending()[j]),
            decreases self.pending@.len(),
        {
            let ghost before = self.pending@;
            let p = self.pending.pop().unwrap();
            proof {
                assert(before =~= self.pending@.push(p));
                assert(strings_view(before)[self.pending@.len() as int] == p@);
                assert(is_absolute(strings_view(before)[self.pending@.len() as int]));
                assert(strings_view(before) == old(self).pending().subrange(0, before.len() as int));
                crate::locate::lemma_strings_view_push(self.pending@, p);
                assert(self.pending() =~= old(self).pending().subrange(0, self.pending().len() as int));
                assert(p@ == old(self).pending()[self.pending().len() as int]);
            }
            if !self.is_visited(&p) {
                let ghost old_files = self.files@;
                let ghost old_entries = self.entries();
                let archived = strip_leading_slash(p.as_str());
                self.tar.add(p.as_str(), archived.as_str());
                self.files.push(p.clone());
                proof {
                    crate::locate::lemma_strings_view_push(old_files, p);
                    assert(self.files().map_values(|q: Seq<char>| file_entry(q))
                        =~= strings_view(old_files).map_values(|q: Seq<char>| file_entry(q)).push(file_entry(p@)));
                    assert(self.entries() =~= layout_prefix() + self.files().map_values(|q: Seq<char>| file_entry(q)));
                    assert forall|i: int| 0 <= i < self.files().len() implies is_absolute(#[trigger] self.files()[i]) by {
                        if i < self.files().len() - 1 {
                            assert(self.files()[i] == strings_view(old_files)[i]);
                        }
                    }
                }
                return Some(p);
            }
        }
        None
    }
}

/// `path` without its leading `/`.
fn strip_leading_slash(path: &str) -> (r: String)
    requires
        is_absolute(path@),
    ensures
        r@ == strip_root(path@),
{
    let n = path.unicode_len();
    let s = path.substring_char(1, n);
    proof {
        assert(s@ =~= path@.skip(1));
    }
    String::from_str(s)
}

/// Each file is archived once: no two file entries of the archive are equal,
/// however many binaries need the same library and whatever cycles the
/// dependencies form.
pub proof fn lemma_each_file_archived_once(s: Solver, i: int, j: int)
    requires
        s.wf(),
        0 <= i < s.entries().len(),
        0 <= j < s.entries().len(),
        s.entries()[i] is File,
        s.entries()[i] == s.entries()[j],
    ensures
        i == j,
{
    let f = s.files();
    assert(i >= 2 && j >= 2);
    assert(s.entries()[i] == file_entry(f[i - 2]));
    assert(s.entries()[j] == file_entry(f[j - 2]));
    assert(f[i - 2] == f[j - 2]);
}

/// Every archive opens with the two layout links, before any scanned file.
pub proof fn lemma_layout_first(s: Solver)
    requires
        s.wf(),
    ensures
        s.entries().len() >= 2,
        s.entries().subrange(0, 2) == layout_prefix(),
        forall|k: int| 2 <= k < s.entries().len() ==> #[trigger] s.entries()[k] is File,
{
    assert(s.entries().subrange(0, 2) =~= layout_prefix());
    assert forall|k: int| 2 <= k < s.entries().len() implies #[trigger] s.entries()[k] is File by {
        assert(s.entries()[k] == file_entry(s.files()[k - 2]));
    }
}

} // verus!

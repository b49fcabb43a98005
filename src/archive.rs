//! The entries of a toolchain archive, in the order they are written.

use vstd::prelude::*;
use vstd::string::*;

verus! {

/// One entry of the archive.
#[derive(Debug, Clone, PartialEq, Eq)]
pub enum ArchiveEntry {
    /// A regular file copied from `file_path`, stored under `archive_path`
    /// with the file's metadata and content.
    File { file_path: String, archive_path: String },
    /// A symbolic link stored under `path` that points to `target`.
    Symlink { target: String, path: String },
    /// A regular file of length zero stored under `path`.
    Empty { path: String },
}

/// The mathematical value of an archive entry.
pub enum EntrySpec {
    File(Seq<char>, Seq<char>),
    Symlink(Seq<char>, Seq<char>),
    Empty(Seq<char>),
}

impl View for ArchiveEntry {
    type V = EntrySpec;

    open spec fn view(&self) -> EntrySpec {
        match self {
            ArchiveEntry::File { file_path, archive_path } => EntrySpec::File(file_path@, archive_path@),
            ArchiveEntry::Symlink { target, path } => EntrySpec::Symlink(target@, path@),
            ArchiveEntry::Empty { path } => EntrySpec::Empty(path@),
        }
    }
}

pub open spec fn entries_view(v: Seq<ArchiveEntry>) -> Seq<EntrySpec> {
    v.map_values(|e: ArchiveEntry| e@)
}

/// Appending to an archive: a file with its metadata, a symbolic link, or an
/// empty placeholder file. Entries are only ever appended.
pub trait TarBuilderExt {
    spec fn entries_spec(&self) -> Seq<EntrySpec>;

    /// Appends the file at `file_path`, stored under `tar_path`.
    fn add(&mut self, file_path: &str, tar_path: &str)
        ensures
            final(self).entries_spec() == old(self).entries_spec().push(EntrySpec::File(file_path@, tar_path@)),
    ;

    /// Appends a symbolic link stored under `src` that points to `dst`.
    fn symlink(&mut self, dst: &str, src: &str)
        ensures
            final(self).entries_spec() == old(self).entries_spec().push(EntrySpec::Symlink(dst@, src@)),
    ;

    /// Appends an empty regular file stored under `path`.
    fn empty(&mut self, path: &str)
        ensures
            final(self).entries_spec() == old(self).entries_spec().push(EntrySpec::Empty(path@)),
    ;
}

/// An archive under construction: its entries, in order.
pub struct Archive {
    entries: Vec<ArchiveEntry>,
}

impl Archive {
    pub closed spec fn view_entries(&self) -> Seq<EntrySpec> {
        entries_view(self.entries@)
    }

    /// An archive with no entries.
    pub fn new() -> (r: Self)
        ensures
            r.view_entries() == Seq::<EntrySpec>::empty(),
    {
        let r = Archive { entries: Vec::new() };
        proof {
            assert(r.view_entries() =~= Seq::<EntrySpec>::empty());
        }
        r
    }

    /// The entries, in the order they were appended.
    pub fn entries(&self) -> (r: &Vec<ArchiveEntry>)
        ensures
            entries_view(r@) == self.view_entries(),
    {
        &self.entries
    }

    fn push_entry(&mut self, e: ArchiveEntry)
        ensures
            final(self).view_entries() == old(self).view_entries().push(e@),
    {
        self.entries.push(e);
        proof {
            assert(final(self).view_entries() =~= old(self).view_entries().push(e@));
        }
    }
}

impl TarBuilderExt for Archive {
    open spec fn entries_spec(&self) -> Seq<EntrySpec> {
        self.view_entries()
    }

    fn add(&mut self, file_path: &str, tar_path: &str) {
        self.push_entry(ArchiveEntry::File {
            file_path: String::from_str(file_path),
            archive_path: String::from_str(tar_path),
        });
    }

    fn symlink(&mut self, dst: &str, src: &str) {
        self.push_entry(ArchiveEntry::Symlink {
            target: String::from_str(dst),
            path: String::from_str(src),
        });
    }

    fn empty(&mut self, path: &str) {
        self.push_entry(ArchiveEntry::Empty { path: String::from_str(path) });
    }
}

} // verus!

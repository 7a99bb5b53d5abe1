//! The directory model: the scanned contents of one directory, held as
//! name-sorted files and subdirectory stubs, with its listing as a pure
//! projection. Reading the file system is the caller's part: a scan takes
//! the raw enumeration as a value and rebuilds the contents from it.

use vstd::prelude::*;
use vstd::multiset::Multiset;

use crate::classify::{classify, display_line_of, FileEntry, FileEntryV, FileType};
use crate::seqs::filter_map;
use crate::text::{lex_le, lex_lt, str_lt, strip_slash, strip_slash_of};

verus! {

/// One raw result of enumerating a directory, as the host hands it in:
/// the child's name, its absolute path, whether it is a directory, and a
/// best-effort size for regular files.
#[derive(Debug, Clone)]
pub struct ScannedEntry {
    pub name: String,
    pub path: String,
    pub is_dir: bool,
    pub size: Option<u64>,
}

/// Mathematical image of a `ScannedEntry`.
#[verifier::ext_equal]
pub struct ScannedEntryV {
    pub name: Seq<char>,
    pub path: Seq<char>,
    pub is_dir: bool,
    pub size: Option<u64>,
}

impl View for ScannedEntry {
    type V = ScannedEntryV;

    open spec fn view(&self) -> ScannedEntryV {
        ScannedEntryV { name: self.name@, path: self.path@, is_dir: self.is_dir, size: self.size }
    }
}

impl DeepView for ScannedEntry {
    type V = ScannedEntryV;

    open spec fn deep_view(&self) -> ScannedEntryV {
        self.view()
    }
}

/// A subdirectory stub: name and absolute path only. Its contents are
/// scanned only when navigation enters it.
#[derive(Debug, Clone)]
pub struct SubdirRef {
    pub name: String,
    pub path: String,
}

/// Mathematical image of a `SubdirRef`.
#[verifier::ext_equal]
pub struct SubdirRefV {
    pub name: Seq<char>,
    pub path: Seq<char>,
}

impl View for SubdirRef {
    type V = SubdirRefV;

    open spec fn view(&self) -> SubdirRefV {
        SubdirRefV { name: self.name@, path: self.path@ }
    }
}

impl DeepView for SubdirRef {
    type V = SubdirRefV;

    open spec fn deep_view(&self) -> SubdirRefV {
        self.view()
    }
}

/// Why a scan was not applied.
#[derive(Debug, Clone, Copy, PartialEq, Eq, Structural)]
pub enum ScanError {
    /// The directory could not be enumerated: the caller handed in no
    /// raw listing.
    Unreadable,
}

/// The contents of one directory: regular files and subdirectory stubs,
/// each kept sorted by name after a scan.
#[derive(Debug, Clone)]
pub struct Directory {
    pub name: String,
    pub path: String,
    pub files: Vec<FileEntry>,
    pub subdirectories: Vec<SubdirRef>,
}

/// Mathematical image of a `Directory`.
#[verifier::ext_equal]
pub struct DirectoryV {
    pub name: Seq<char>,
    pub path: Seq<char>,
    pub files: Seq<FileEntryV>,
    pub subdirectories: Seq<SubdirRefV>,
}

impl View for Directory {
    type V = DirectoryV;

    open spec fn view(&self) -> DirectoryV {
        DirectoryV {
            name: self.name@,
            path: self.path@,
            files: self.files.deep_view(),
            subdirectories: self.subdirectories.deep_view(),
        }
    }
}

/// A hidden entry: its name starts with the marker character.
pub open spec fn is_hidden(name: Seq<char>) -> bool {
    name.len() > 0 && name[0] == '.'
}

/// Whether a raw child becomes a file entry of the model.
pub open spec fn keep_file(e: ScannedEntryV, include_hidden: bool) -> bool {
    !e.is_dir && (include_hidden || !is_hidden(e.name))
}

/// Whether a raw child becomes a subdirectory stub of the model.
pub open spec fn keep_subdir(e: ScannedEntryV, include_hidden: bool) -> bool {
    e.is_dir && (include_hidden || !is_hidden(e.name))
}

/// The file entry a raw child turns into: name and size carried over,
/// the kind derived from the name.
pub open spec fn file_entry_of(e: ScannedEntryV) -> FileEntryV {
    FileEntryV { name: e.name, filetype: classify(e.name), size: e.size }
}

/// The stub a raw child turns into.
pub open spec fn subdir_ref_of(e: ScannedEntryV) -> SubdirRefV {
    SubdirRefV { name: e.name, path: e.path }
}

/// The file entries a raw enumeration yields, in enumeration order.
pub open spec fn files_of(raw: Seq<ScannedEntryV>, include_hidden: bool) -> Seq<FileEntryV> {
    filter_map(
        raw,
        |e: ScannedEntryV| keep_file(e, include_hidden),
        |e: ScannedEntryV| file_entry_of(e),
    )
}

/// The subdirectory stubs a raw enumeration yields, in enumeration order.
pub open spec fn subdirs_of(raw: Seq<ScannedEntryV>, include_hidden: bool) -> Seq<SubdirRefV> {
    filter_map(
        raw,
        |e: ScannedEntryV| keep_subdir(e, include_hidden),
        |e: ScannedEntryV| subdir_ref_of(e),
    )
}

/// Files in ascending name order.
pub open spec fn sorted_files(s: Seq<FileEntryV>) -> bool {
    forall|i: int, j: int| 0 <= i < j < s.len() ==> lex_le(s[i].name, s[j].name)
}

/// Stubs in ascending name order.
pub open spec fn sorted_subdirs(s: Seq<SubdirRefV>) -> bool {
    forall|i: int, j: int| 0 <= i < j < s.len() ==> lex_le(s[i].name, s[j].name)
}

impl DirectoryV {
    /// A well-formed model: both halves sorted by name, as every scan
    /// leaves them.
    pub open spec fn wf(self) -> bool {
        sorted_files(self.files) && sorted_subdirs(self.subdirectories)
    }

    /// The names the directory displays: subdirectories first, each with
    /// a trailing separator marker, then files.
    pub open spec fn listing(self) -> Seq<Seq<char>> {
        self.subdirectories.map_values(|s: SubdirRefV| s.name + "/"@) + self.files.map_values(
            |f: FileEntryV| f.name,
        )
    }

    /// The decorated lines the directory displays, in listing order.
    pub open spec fn decorated_listing(self) -> Seq<Seq<char>> {
        self.subdirectories.map_values(|s: SubdirRefV| "\u{1f4c2} "@ + s.name + "/"@)
            + self.files.map_values(|f: FileEntryV| display_line_of(f))
    }
}

impl Directory {
    /// An empty model rooted at `path`; its contents arrive with the
    /// first scan.
    pub fn new(name: String, path: String) -> (d: Directory)
        ensures
            d@.name == name@,
            d@.path == path@,
            d@.files == Seq::<FileEntryV>::empty(),
            d@.subdirectories == Seq::<SubdirRefV>::empty(),
            d@.wf(),
    {
        let d = Directory { name, path, files: Vec::new(), subdirectories: Vec::new() };
        proof {
            assert(d@.files =~= Seq::<FileEntryV>::empty());
            assert(d@.subdirectories =~= Seq::<SubdirRefV>::empty());
        }
        d
    }

    /// Appends one file entry, leaving everything else untouched.
    pub fn add_file(&mut self, file: FileEntry)
        ensures
            final(self)@.files == old(self)@.files.push(file@),
            final(self)@.subdirectories == old(self)@.subdirectories,
            final(self)@.name == old(self)@.name,
            final(self)@.path == old(self)@.path,
    {
        self.files.push(file);
        proof {
            assert(self@.files =~= old(self)@.files.push(self.files@.last()@));
        }
    }

    /// Appends one subdirectory stub, leaving everything else untouched.
    pub fn add_subdirectory(&mut self, subdirectory: SubdirRef)
        ensures
            final(self)@.subdirectories == old(self)@.subdirectories.push(subdirectory@),
            final(self)@.files == old(self)@.files,
            final(self)@.name == old(self)@.name,
            final(self)@.path == old(self)@.path,
    {
        self.subdirectories.push(subdirectory);
        proof {
            assert(self@.subdirectories =~= old(self)@.subdirectories.push(
                self.subdirectories@.last()@,
            ));
        }
    }

    /// The displayed names: subdirectories first with a trailing marker,
    /// then files, in the stored order.
    pub fn entries(&self) -> (r: Vec<String>)
        ensures
            r.deep_view() == self@.listing(),
    {
        let mut r: Vec<String> = Vec::new();
        let nsub = self.subdirectories.len();
        let mut i: usize = 0;
        while i < nsub
            invariant
                i <= nsub,
                nsub == self@.subdirectories.len(),
                r.deep_view().len() == i as int,
                forall|k: int|
                    0 <= k < i ==> r.deep_view()[k] == self@.subdirectories[k].name + "/"@,
            decreases nsub - i,
        {
            let mut e = self.subdirectories[i].name.clone();
            e.append("/");
            let ghost prev = r.deep_view();
            let ghost ev = e@;
            r.push(e);
            proof {
                assert(r.deep_view() =~= prev.push(ev));
            }
            i = i + 1;
        }
        let nfile = self.files.len();
        let mut j: usize = 0;
        while j < nfile
            invariant
                j <= nfile,
                nfile == self@.files.len(),
                nsub == self@.subdirectories.len(),
                r.deep_view().len() == nsub + j,
                forall|k: int|
                    0 <= k < nsub ==> r.deep_view()[k] == self@.subdirectories[k].name + "/"@,
                forall|k: int|
                    0 <= k < j ==> r.deep_view()[nsub + k] == self@.files[k].name,
            decreases nfile - j,
        {
            let e = self.files[j].name.clone();
            let ghost prev = r.deep_view();
            let ghost ev = e@;
            r.push(e);
            proof {
                assert(r.deep_view() =~= prev.push(ev));
            }
            j = j + 1;
        }
        proof {
            assert(r.deep_view() =~= self@.listing());
        }
        r
    }

    /// The displayed lines: subdirectories first with a folder glyph and
    /// trailing marker, then files with their display lines.
    pub fn entries_with_symbols(&self) -> (r: Vec<String>)
        ensures
            r.deep_view() == self@.decorated_listing(),
    {
        let mut r: Vec<String> = Vec::new();
        let nsub = self.subdirectories.len();
        let mut i: usize = 0;
        while i < nsub
            invariant
                i <= nsub,
                nsub == self@.subdirectories.len(),
                r.deep_view().len() == i as int,
                forall|k: int|
                    0 <= k < i ==> r.deep_view()[k] == "\u{1f4c2} "@
                        + self@.subdirectories[k].name + "/"@,
            decreases nsub - i,
        {
            let mut e = String::new();
            e.append("\u{1f4c2} ");
            e.append(self.subdirectories[i].name.as_str());
            e.append("/");
            let ghost prev = r.deep_view();
            let ghost ev = e@;
            r.push(e);
            proof {
                assert(r.deep_view() =~= prev.push(ev));
                assert(ev =~= "\u{1f4c2} "@ + self@.subdirectories[i as int].name + "/"@);
            }
            i = i + 1;
        }
        let nfile = self.files.len();
        let mut j: usize = 0;
        while j < nfile
            invariant
                j <= nfile,
                nfile == self@.files.len(),
                nsub == self@.subdirectories.len(),
                r.deep_view().len() == nsub + j,
                forall|k: int|
                    0 <= k < nsub ==> r.deep_view()[k] == "\u{1f4c2} "@
                        + self@.subdirectories[k].name + "/"@,
                forall|k: int|
                    0 <= k < j ==> r.deep_view()[nsub + k] == display_line_of(self@.files[k]),
            decreases nfile - j,
        {
            let e = self.files[j].assign_symbol();
            let ghost prev = r.deep_view();
            let ghost ev = e@;
            r.push(e);
            proof {
                assert(r.deep_view() =~= prev.push(ev));
            }
            j = j + 1;
        }
        proof {
            assert(r.deep_view() =~= self@.decorated_listing());
        }
        r
    }
}

impl Directory {
    /// Replaces the contents from one raw enumeration of this
    /// directory's children, or reports the directory unreadable and
    /// leaves everything as it was. The new contents hold exactly the
    /// kept children — hidden ones only when `include_hidden_files` is
    /// set — with files classified by name, both halves sorted by name.
    pub fn scan_and_add(
        &mut self,
        listing: Option<Vec<ScannedEntry>>,
        include_hidden_files: bool,
    ) -> (r: Result<(), ScanError>)
        ensures
            match listing {
                None => {
                    &&& r == Result::<(), ScanError>::Err(ScanError::Unreadable)
                    &&& *final(self) == *old(self)
                },
                Some(raw) => {
                    &&& r == Result::<(), ScanError>::Ok(())
                    &&& final(self)@.name == old(self)@.name
                    &&& final(self)@.path == old(self)@.path
                    &&& final(self)@.wf()
                    &&& final(self)@.files.to_multiset() == files_of(
                        raw.deep_view(),
                        include_hidden_files,
                    ).to_multiset()
                    &&& final(self)@.subdirectories.to_multiset() == subdirs_of(
                        raw.deep_view(),
                        include_hidden_files,
                    ).to_multiset()
                },
            },
    {
        let raw = match listing {
            None => {
                return Err(ScanError::Unreadable);
            },
            Some(raw) => raw,
        };
        let ghost rawv = raw.deep_view();
        let mut files: Vec<FileEntry> = Vec::new();
        let mut subs: Vec<SubdirRef> = Vec::new();
        let n = raw.len();
        let mut k: usize = 0;
        proof {
            assert(files.deep_view() =~= files_of(rawv.take(0), include_hidden_files));
            assert(subs.deep_view() =~= subdirs_of(rawv.take(0), include_hidden_files));
        }
        while k < n
            invariant
                k <= n,
                n == rawv.len(),
                rawv == raw.deep_view(),
                files.deep_view() == files_of(rawv.take(k as int), include_hidden_files),
                subs.deep_view() == subdirs_of(rawv.take(k as int), include_hidden_files),
            decreases n - k,
        {
            let e = &raw[k];
            let hidden = is_hidden_x(e.name.as_str());
            proof {
                assert(rawv.take(k + 1).drop_last() =~= rawv.take(k as int));
                assert(rawv.take(k + 1).last() == rawv[k as int]);
            }
            if include_hidden_files || !hidden {
                if e.is_dir {
                    let s = SubdirRef { name: e.name.clone(), path: e.path.clone() };
                    let ghost prev = subs.deep_view();
                    let ghost sv = s@;
                    subs.push(s);
                    proof {
                        assert(subs.deep_view() =~= prev.push(sv));
                        assert(sv =~= subdir_ref_of(rawv[k as int]));
                        assert(subs.deep_view() =~= subdirs_of(
                            rawv.take(k as int),
                            include_hidden_files,
                        ).push(subdir_ref_of(rawv[k as int])));
                    }
                } else {
                    let mut f = FileEntry {
                        name: e.name.clone(),
                        filetype: FileType::Unknown,
                        size: e.size,
                    };
                    let t = f.enumerate_filetype();
                    f.filetype = t;
                    let ghost prev = files.deep_view();
                    let ghost fv = f@;
                    files.push(f);
                    proof {
                        assert(files.deep_view() =~= prev.push(fv));
                        assert(fv =~= file_entry_of(rawv[k as int]));
                        assert(files.deep_view() =~= files_of(
                            rawv.take(k as int),
                            include_hidden_files,
                        ).push(file_entry_of(rawv[k as int])));
                    }
                }
            }
            k = k + 1;
            proof {
                assert(files.deep_view() =~= files_of(rawv.take(k as int), include_hidden_files));
                assert(subs.deep_view() =~= subdirs_of(rawv.take(k as int), include_hidden_files));
            }
        }
        proof {
            assert(rawv.take(n as int) =~= rawv);
        }
        self.files = files;
        self.subdirectories = subs;
        self.sort_files();
        self.sort_subdirectories();
        Ok(())
    }

    /// Re-orders the file entries into ascending name order; nothing is
    /// added or dropped.
    pub fn sort_files(&mut self)
        ensures
            final(self)@.files.to_multiset() == old(self)@.files.to_multiset(),
            sorted_files(final(self)@.files),
            final(self)@.subdirectories == old(self)@.subdirectories,
            final(self)@.name == old(self)@.name,
            final(self)@.path == old(self)@.path,
    {
        let mut sorted: Vec<FileEntry> = Vec::new();
        proof {
            vstd::seq_lib::lemma_multiset_commutative(
                sorted.deep_view(),
                self@.files,
            );
            assert(sorted.deep_view() =~= Seq::<FileEntryV>::empty());
            assert(sorted.deep_view() + self@.files =~= self@.files);
            assert(sorted.deep_view().to_multiset().add(self@.files.to_multiset())
                =~= old(self)@.files.to_multiset());
        }
        while self.files.len() > 0
            invariant
                sorted_files(sorted.deep_view()),
                sorted.deep_view().to_multiset().add(self.files.deep_view().to_multiset())
                    == old(self)@.files.to_multiset(),
                self.subdirectories == old(self).subdirectories,
                self.name == old(self).name,
                self.path == old(self).path,
            decreases self.files.len(),
        {
            let ghost fprev = self.files.deep_view();
            let f = self.files.pop().unwrap();
            proof {
                assert(self.files.deep_view() =~= fprev.drop_last());
                crate::seqs::lemma_drop_last_multiset(fprev);
                assert(fprev.last() == f@);
            }
            let ghost sprev = sorted.deep_view();
            insert_file_sorted(&mut sorted, f);
            proof {
                assert forall|y: FileEntryV|
                    sorted.deep_view().to_multiset().add(
                        self.files.deep_view().to_multiset(),
                    ).count(y) == old(self)@.files.to_multiset().count(y) by {
                    assert(sorted.deep_view().to_multiset().count(y) == sprev.to_multiset().insert(
                        f@,
                    ).count(y));
                }
                assert(sorted.deep_view().to_multiset().add(
                    self.files.deep_view().to_multiset(),
                ) =~= old(self)@.files.to_multiset());
            }
        }
        proof {
            broadcast use vstd::seq_lib::group_to_multiset_ensures;
            broadcast use vstd::multiset::group_multiset_axioms;

            assert forall|y: FileEntryV|
                sorted.deep_view().to_multiset().count(y) == old(self)@.files.to_multiset().count(
                    y,
                ) by {
                assert(!self.files.deep_view().contains(y));
                assert(self.files.deep_view().to_multiset().count(y) == 0);
            }
            assert(sorted.deep_view().to_multiset() =~= old(self)@.files.to_multiset());
        }
        self.files = sorted;
    }

    /// Re-orders the subdirectory stubs into ascending name order;
    /// nothing is added or dropped.
    pub fn sort_subdirectories(&mut self)
        ensures
            final(self)@.subdirectories.to_multiset() == old(self)@.subdirectories.to_multiset(),
            sorted_subdirs(final(self)@.subdirectories),
            final(self)@.files == old(self)@.files,
            final(self)@.name == old(self)@.name,
            final(self)@.path == old(self)@.path,
    {
        let mut sorted: Vec<SubdirRef> = Vec::new();
        proof {
            vstd::seq_lib::lemma_multiset_commutative(
                sorted.deep_view(),
                self@.subdirectories,
            );
            assert(sorted.deep_view() =~= Seq::<SubdirRefV>::empty());
            assert(sorted.deep_view() + self@.subdirectories =~= self@.subdirectories);
            assert(sorted.deep_view().to_multiset().add(self@.subdirectories.to_multiset())
                =~= old(self)@.subdirectories.to_multiset());
        }
        while self.subdirectories.len() > 0
            invariant
                sorted_subdirs(sorted.deep_view()),
                sorted.deep_view().to_multiset().add(self.subdirectories.deep_view().to_multiset())
                    == old(self)@.subdirectories.to_multiset(),
                self.files == old(self).files,
                self.name == old(self).name,
                self.path == old(self).path,
            decreases self.subdirectories.len(),
        {
            let ghost fprev = self.subdirectories.deep_view();
            let s = self.subdirectories.pop().unwrap();
            proof {
                assert(self.subdirectories.deep_view() =~= fprev.drop_last());
                crate::seqs::lemma_drop_last_multiset(fprev);
                assert(fprev.last() == s@);
            }
            let ghost sprev = sorted.deep_view();
            insert_subdir_sorted(&mut sorted, s);
            proof {
                assert forall|y: SubdirRefV|
                    sorted.deep_view().to_multiset().add(
                        self.subdirectories.deep_view().to_multiset(),
                    ).count(y) == old(self)@.subdirectories.to_multiset().count(y) by {
                    assert(sorted.deep_view().to_multiset().count(y) == sprev.to_multiset().insert(
                        s@,
                    ).count(y));
                }
                assert(sorted.deep_view().to_multiset().add(
                    self.subdirectories.deep_view().to_multiset(),
                ) =~= old(self)@.subdirectories.to_multiset());
            }
        }
        proof {
            broadcast use vstd::seq_lib::group_to_multiset_ensures;
            broadcast use vstd::multiset::group_multiset_axioms;

            assert forall|y: SubdirRefV|
                sorted.deep_view().to_multiset().count(y)
                    == old(self)@.subdirectories.to_multiset().count(y) by {
                assert(!self.subdirectories.deep_view().contains(y));
                assert(self.subdirectories.deep_view().to_multiset().count(y) == 0);
            }
            assert(sorted.deep_view().to_multiset() =~= old(self)@.subdirectories.to_multiset());
        }
        self.subdirectories = sorted;
    }
}

/// Whether the name carries the hidden-entry marker.
fn is_hidden_x(s: &str) -> (r: bool)
    ensures
        r == is_hidden(s@),
{
    s.unicode_len() > 0 && s.get_char(0) == '.'
}

/// Inserts one entry into a name-sorted file vector, keeping it sorted.
fn insert_file_sorted(v: &mut Vec<FileEntry>, f: FileEntry)
    requires
        sorted_files(old(v).deep_view()),
    ensures
        sorted_files(final(v).deep_view()),
        final(v).deep_view().to_multiset() == old(v).deep_view().to_multiset().insert(f@),
{
    let n = v.len();
    let mut p: usize = 0;
    while p < n && !str_lt(f.name.as_str(), v[p].name.as_str())
        invariant
            p <= n,
            n == v@.len(),
            v == old(v),
            forall|j: int| 0 <= j < p ==> !lex_lt(f@.name, v.deep_view()[j].name),
        decreases n - p,
    {
        p = p + 1;
    }
    let ghost dv = v.deep_view();
    let ghost fv = f@;
    v.insert(p, f);
    proof {
        let dn = v.deep_view();
        assert(dn =~= dv.insert(p as int, fv));
        crate::seqs::lemma_insert_multiset(dv, p as int, fv);
        assert forall|i: int, j: int| 0 <= i < j < dn.len() implies lex_le(
            dn[i].name,
            dn[j].name,
        ) by {
            if j < p {
                assert(dn[i] == dv[i] && dn[j] == dv[j]);
            } else if i > p {
                assert(dn[i] == dv[i - 1] && dn[j] == dv[j - 1]);
            } else if i < p && j == p {
                assert(dn[i] == dv[i] && dn[j] == fv);
                crate::text::lemma_lex_not_lt(fv.name, dv[i].name);
            } else if i < p && j > p {
                assert(dn[i] == dv[i] && dn[j] == dv[j - 1]);
            } else if i == p && j > p {
                assert(dn[i] == fv && dn[j] == dv[j - 1]);
                assert(p < dv.len());
                assert(lex_lt(fv.name, dv[p as int].name));
                assert(lex_le(dv[p as int].name, dv[j - 1].name));
                crate::text::lemma_lex_le_transitive(fv.name, dv[p as int].name, dv[j - 1].name);
            }
        }
    }
}

/// Inserts one stub into a name-sorted subdirectory vector, keeping it
/// sorted.
fn insert_subdir_sorted(v: &mut Vec<SubdirRef>, s: SubdirRef)
    requires
        sorted_subdirs(old(v).deep_view()),
    ensures
        sorted_subdirs(final(v).deep_view()),
        final(v).deep_view().to_multiset() == old(v).deep_view().to_multiset().insert(s@),
{
    let n = v.len();
    let mut p: usize = 0;
    while p < n && !str_lt(s.name.as_str(), v[p].name.as_str())
        invariant
            p <= n,
            n == v@.len(),
            v == old(v),
            forall|j: int| 0 <= j < p ==> !lex_lt(s@.name, v.deep_view()[j].name),
        decreases n - p,
    {
        p = p + 1;
    }
    let ghost dv = v.deep_view();
    let ghost sv = s@;
    v.insert(p, s);
    proof {
        let dn = v.deep_view();
        assert(dn =~= dv.insert(p as int, sv));
        crate::seqs::lemma_insert_multiset(dv, p as int, sv);
        assert forall|i: int, j: int| 0 <= i < j < dn.len() implies lex_le(
            dn[i].name,
            dn[j].name,
        ) by {
            if j < p {
                assert(dn[i] == dv[i] && dn[j] == dv[j]);
            } else if i > p {
                assert(dn[i] == dv[i - 1] && dn[j] == dv[j - 1]);
            } else if i < p && j == p {
                assert(dn[i] == dv[i] && dn[j] == sv);
                crate::text::lemma_lex_not_lt(sv.name, dv[i].name);
            } else if i < p && j > p {
                assert(dn[i] == dv[i] && dn[j] == dv[j - 1]);
            } else if i == p && j > p {
                assert(dn[i] == sv && dn[j] == dv[j - 1]);
                assert(p < dv.len());
                assert(lex_lt(sv.name, dv[p as int].name));
                assert(lex_le(dv[p as int].name, dv[j - 1].name));
                crate::text::lemma_lex_le_transitive(sv.name, dv[p as int].name, dv[j - 1].name);
            }
        }
    }
}

/// Index of the first stub whose name matches exactly, or `-1`.
pub open spec fn find_index(s: Seq<SubdirRefV>, name: Seq<char>) -> int
    decreases s.len(),
{
    if s.len() == 0 {
        -1
    } else if s.first().name == name {
        0
    } else {
        let r = find_index(s.drop_first(), name);
        if r == -1 {
            -1
        } else {
            r + 1
        }
    }
}

pub proof fn lemma_find_index(s: Seq<SubdirRefV>, name: Seq<char>)
    ensures
        -1 <= find_index(s, name) < s.len(),
        find_index(s, name) >= 0 ==> s[find_index(s, name)].name == name,
        forall|j: int| 0 <= j < find_index(s, name) ==> s[j].name != name,
        find_index(s, name) == -1 ==> forall|j: int| 0 <= j < s.len() ==> s[j].name != name,
    decreases s.len(),
{
    if s.len() > 0 && s.first().name != name {
        lemma_find_index(s.drop_first(), name);
        let r = find_index(s.drop_first(), name);
        assert forall|j: int| 0 <= j < find_index(s, name) implies s[j].name != name by {
            if j > 0 {
                assert(s[j] == s.drop_first()[j - 1]);
            }
        }
        if r == -1 {
            assert forall|j: int| 0 <= j < s.len() implies s[j].name != name by {
                if j > 0 {
                    assert(s[j] == s.drop_first()[j - 1]);
                }
            }
        }
    }
}

impl Directory {
    /// The first subdirectory stub whose name equals `name` after a
    /// trailing separator marker is stripped from the input.
    pub fn find_subdirectory(&self, name: &str) -> (r: Option<&SubdirRef>)
        ensures
            ({
                let want = strip_slash_of(name@);
                let idx = find_index(self@.subdirectories, want);
                match r {
                    Some(s) => idx >= 0 && s@ == self@.subdirectories[idx],
                    None => idx == -1,
                }
            }),
    {
        let want = strip_slash(name);
        let n = self.subdirectories.len();
        let mut i: usize = 0;
        while i < n
            invariant
                i <= n,
                n == self@.subdirectories.len(),
                want@ == strip_slash_of(name@),
                forall|j: int| 0 <= j < i ==> self@.subdirectories[j].name != want@,
            decreases n - i,
        {
            if crate::text::str_eq(self.subdirectories[i].name.as_str(), want.as_str()) {
                proof {
                    let subs = self@.subdirectories;
                    lemma_find_index(subs, want@);
                    let idx = find_index(subs, want@);
                    assert(subs[i as int].name == want@);
                    if idx < i as int {
                        assert(subs[idx].name == want@);
                        assert(false);
                    }
                    if idx > i as int {
                        assert(subs[i as int].name != want@);
                        assert(false);
                    }
                }
                return Some(&self.subdirectories[i]);
            }
            i = i + 1;
        }
        proof {
            lemma_find_index(self@.subdirectories, want@);
        }
        None
    }
}

proof fn lemma_files_of_is_filter_map(
    raw: Seq<ScannedEntryV>,
    include_hidden: bool,
    k: spec_fn(ScannedEntryV) -> bool,
    f: spec_fn(ScannedEntryV) -> FileEntryV,
)
    requires
        forall|e: ScannedEntryV| #[trigger] k(e) == keep_file(e, include_hidden),
        forall|e: ScannedEntryV| #[trigger] f(e) == file_entry_of(e),
    ensures
        files_of(raw, include_hidden) == filter_map(raw, k, f),
    decreases raw.len(),
{
    if raw.len() > 0 {
        lemma_files_of_is_filter_map(raw.drop_last(), include_hidden, k, f);
    }
}

proof fn lemma_subdirs_of_is_filter_map(
    raw: Seq<ScannedEntryV>,
    include_hidden: bool,
    k: spec_fn(ScannedEntryV) -> bool,
    f: spec_fn(ScannedEntryV) -> SubdirRefV,
)
    requires
        forall|e: ScannedEntryV| #[trigger] k(e) == keep_subdir(e, include_hidden),
        forall|e: ScannedEntryV| #[trigger] f(e) == subdir_ref_of(e),
    ensures
        subdirs_of(raw, include_hidden) == filter_map(raw, k, f),
    decreases raw.len(),
{
    if raw.len() > 0 {
        lemma_subdirs_of_is_filter_map(raw.drop_last(), include_hidden, k, f);
    }
}

/// Law: which file entries and stubs a scan yields, as multisets, does
/// not depend on the order the file system enumerated the children in.
pub proof fn lemma_scan_order_irrelevant(
    raw1: Seq<ScannedEntryV>,
    raw2: Seq<ScannedEntryV>,
    include_hidden: bool,
)
    requires
        raw1.to_multiset() == raw2.to_multiset(),
    ensures
        files_of(raw1, include_hidden).to_multiset() == files_of(
            raw2,
            include_hidden,
        ).to_multiset(),
        subdirs_of(raw1, include_hidden).to_multiset() == subdirs_of(
            raw2,
            include_hidden,
        ).to_multiset(),
{
    let kf = |e: ScannedEntryV| keep_file(e, include_hidden);
    let ff = |e: ScannedEntryV| file_entry_of(e);
    lemma_files_of_is_filter_map(raw1, include_hidden, kf, ff);
    lemma_files_of_is_filter_map(raw2, include_hidden, kf, ff);
    crate::seqs::lemma_filter_map_permutation(raw1, raw2, kf, ff);
    let ks = |e: ScannedEntryV| keep_subdir(e, include_hidden);
    let fs = |e: ScannedEntryV| subdir_ref_of(e);
    lemma_subdirs_of_is_filter_map(raw1, include_hidden, ks, fs);
    lemma_subdirs_of_is_filter_map(raw2, include_hidden, ks, fs);
    crate::seqs::lemma_filter_map_permutation(raw1, raw2, ks, fs);
}

/// Law: two directories scanned from the same children — in whatever
/// enumeration order — display the same listing: all subdirectories,
/// name-ascending, before all files, name-ascending.
pub proof fn lemma_scan_listing_deterministic(
    d1: DirectoryV,
    d2: DirectoryV,
    raw1: Seq<ScannedEntryV>,
    raw2: Seq<ScannedEntryV>,
    include_hidden: bool,
)
    requires
        raw1.to_multiset() == raw2.to_multiset(),
        d1.wf(),
        d2.wf(),
        d1.files.to_multiset() == files_of(raw1, include_hidden).to_multiset(),
        d1.subdirectories.to_multiset() == subdirs_of(raw1, include_hidden).to_multiset(),
        d2.files.to_multiset() == files_of(raw2, include_hidden).to_multiset(),
        d2.subdirectories.to_multiset() == subdirs_of(raw2, include_hidden).to_multiset(),
    ensures
        d1.listing() == d2.listing(),
{
    broadcast use vstd::seq_lib::group_to_multiset_ensures;

    lemma_scan_order_irrelevant(raw1, raw2, include_hidden);
    let fname = |f: FileEntryV| f.name;
    let sname = |s: SubdirRefV| s.name;
    let n1 = d1.files.map_values(fname);
    let n2 = d2.files.map_values(fname);
    crate::seqs::lemma_map_values_multiset(d1.files, d2.files, fname);
    assert(n1 == n2) by {
        crate::seqs::lemma_sorted_names_unique(n1, n2);
    }
    let m1 = d1.subdirectories.map_values(sname);
    let m2 = d2.subdirectories.map_values(sname);
    crate::seqs::lemma_map_values_multiset(d1.subdirectories, d2.subdirectories, sname);
    assert(m1 == m2) by {
        crate::seqs::lemma_sorted_names_unique(m1, m2);
    }
    assert(d1.files.len() == d2.files.len()) by {
        assert(d1.files.len() == d1.files.to_multiset().len());
        assert(d2.files.len() == d2.files.to_multiset().len());
    }
    assert(d1.subdirectories.len() == d2.subdirectories.len()) by {
        assert(d1.subdirectories.len() == d1.subdirectories.to_multiset().len());
        assert(d2.subdirectories.len() == d2.subdirectories.to_multiset().len());
    }
    assert forall|k: int| 0 <= k < d1.listing().len() implies d1.listing()[k] == d2.listing()[k]
        by {
        let ns = d1.subdirectories.len();
        if k < ns {
            assert(m1[k] == d1.subdirectories[k].name);
            assert(m2[k] == d2.subdirectories[k].name);
        } else {
            assert(n1[k - ns] == d1.files[k - ns].name);
            assert(n2[k - ns] == d2.files[k - ns].name);
        }
    }
    assert(d1.listing() =~= d2.listing());
}

/// Law: a well-formed directory's listing is its subdirectories, in
/// ascending name order and each with the trailing marker, followed by
/// its files in ascending name order.
pub proof fn lemma_listing_shape(d: DirectoryV)
    requires
        d.wf(),
    ensures
        d.listing().len() == d.subdirectories.len() + d.files.len(),
        forall|k: int|
            0 <= k < d.subdirectories.len() ==> #[trigger] d.listing()[k]
                == d.subdirectories[k].name + "/"@,
        forall|k: int|
            d.subdirectories.len() <= k < d.listing().len() ==> #[trigger] d.listing()[k]
                == d.files[k - d.subdirectories.len()].name,
        forall|i: int, j: int|
            0 <= i < j < d.subdirectories.len() ==> lex_le(
                #[trigger] d.subdirectories[i].name,
                #[trigger] d.subdirectories[j].name,
            ),
        forall|i: int, j: int|
            0 <= i < j < d.files.len() ==> lex_le(
                #[trigger] d.files[i].name,
                #[trigger] d.files[j].name,
            ),
{
}

/// Law: every kept child of the raw enumeration appears in the scanned
/// contents — a scan drops nothing it should keep.
pub proof fn lemma_scan_contents_complete(
    d: DirectoryV,
    raw: Seq<ScannedEntryV>,
    include_hidden: bool,
)
    requires
        d.files.to_multiset() == files_of(raw, include_hidden).to_multiset(),
        d.subdirectories.to_multiset() == subdirs_of(raw, include_hidden).to_multiset(),
    ensures
        forall|i: int|
            0 <= i < raw.len() && keep_file(#[trigger] raw[i], include_hidden) ==> d.files.contains(
                file_entry_of(raw[i]),
            ),
        forall|i: int|
            0 <= i < raw.len() && keep_subdir(#[trigger] raw[i], include_hidden)
                ==> d.subdirectories.contains(subdir_ref_of(raw[i])),
{
    broadcast use vstd::seq_lib::group_to_multiset_ensures;

    let kf = |e: ScannedEntryV| keep_file(e, include_hidden);
    let ff = |e: ScannedEntryV| file_entry_of(e);
    lemma_files_of_is_filter_map(raw, include_hidden, kf, ff);
    let ks = |e: ScannedEntryV| keep_subdir(e, include_hidden);
    let fs = |e: ScannedEntryV| subdir_ref_of(e);
    lemma_subdirs_of_is_filter_map(raw, include_hidden, ks, fs);
    assert forall|i: int|
        0 <= i < raw.len() && keep_file(#[trigger] raw[i], include_hidden) implies d.files.contains(
        file_entry_of(raw[i]),
    ) by {
        crate::seqs::lemma_filter_map_complete(raw, kf, ff, i);
        let y = file_entry_of(raw[i]);
        assert(files_of(raw, include_hidden).contains(y));
        assert(files_of(raw, include_hidden).to_multiset().count(y) > 0);
        assert(d.files.to_multiset().count(y) > 0);
    }
    assert forall|i: int|
        0 <= i < raw.len() && keep_subdir(#[trigger] raw[i], include_hidden)
        implies d.subdirectories.contains(subdir_ref_of(raw[i])) by {
        crate::seqs::lemma_filter_map_complete(raw, ks, fs, i);
        let y = subdir_ref_of(raw[i]);
        assert(subdirs_of(raw, include_hidden).contains(y));
        assert(subdirs_of(raw, include_hidden).to_multiset().count(y) > 0);
        assert(d.subdirectories.to_multiset().count(y) > 0);
    }
}

/// One displayed file entry is the image of some kept raw child.
pub open spec fn file_sourced(
    d: DirectoryV,
    raw: Seq<ScannedEntryV>,
    include_hidden: bool,
    k: int,
) -> bool {
    exists|i: int|
        0 <= i < raw.len() && keep_file(#[trigger] raw[i], include_hidden) && file_entry_of(
            raw[i],
        ) == d.files[k]
}

/// One displayed stub is the image of some kept raw child.
pub open spec fn subdir_sourced(
    d: DirectoryV,
    raw: Seq<ScannedEntryV>,
    include_hidden: bool,
    k: int,
) -> bool {
    exists|i: int|
        0 <= i < raw.len() && keep_subdir(#[trigger] raw[i], include_hidden) && subdir_ref_of(
            raw[i],
        ) == d.subdirectories[k]
}

/// Law: every file entry and stub a scan yields is the image of some
/// kept child of the raw enumeration — nothing stale survives a rescan.
pub proof fn lemma_scan_contents_from_raw(
    d: DirectoryV,
    raw: Seq<ScannedEntryV>,
    include_hidden: bool,
)
    requires
        d.files.to_multiset() == files_of(raw, include_hidden).to_multiset(),
        d.subdirectories.to_multiset() == subdirs_of(raw, include_hidden).to_multiset(),
    ensures
        forall|k: int|
            0 <= k < d.files.len() ==> #[trigger] file_sourced(d, raw, include_hidden, k),
        forall|k: int|
            0 <= k < d.subdirectories.len() ==> #[trigger] subdir_sourced(
                d,
                raw,
                include_hidden,
                k,
            ),
{
    broadcast use vstd::seq_lib::group_to_multiset_ensures;

    let kf = |e: ScannedEntryV| keep_file(e, include_hidden);
    let ff = |e: ScannedEntryV| file_entry_of(e);
    lemma_files_of_is_filter_map(raw, include_hidden, kf, ff);
    let ks = |e: ScannedEntryV| keep_subdir(e, include_hidden);
    let fs = |e: ScannedEntryV| subdir_ref_of(e);
    lemma_subdirs_of_is_filter_map(raw, include_hidden, ks, fs);
    assert forall|k: int| 0 <= k < d.files.len() implies #[trigger] file_sourced(
        d,
        raw,
        include_hidden,
        k,
    ) by {
        let y = d.files[k];
        assert(d.files.contains(y));
        assert(d.files.to_multiset().count(y) > 0);
        assert(files_of(raw, include_hidden).contains(y));
        crate::seqs::lemma_filter_map_contains(raw, kf, ff, y);
        let i = choose|i: int| 0 <= i < raw.len() && kf(#[trigger] raw[i]) && ff(raw[i]) == y;
        assert(keep_file(raw[i], include_hidden) && file_entry_of(raw[i]) == d.files[k]);
    }
    assert forall|k: int| 0 <= k < d.subdirectories.len() implies #[trigger] subdir_sourced(
        d,
        raw,
        include_hidden,
        k,
    ) by {
        let y = d.subdirectories[k];
        assert(d.subdirectories.contains(y));
        assert(d.subdirectories.to_multiset().count(y) > 0);
        assert(subdirs_of(raw, include_hidden).contains(y));
        crate::seqs::lemma_filter_map_contains(raw, ks, fs, y);
        let i = choose|i: int| 0 <= i < raw.len() && ks(#[trigger] raw[i]) && fs(raw[i]) == y;
        assert(keep_subdir(raw[i], include_hidden) && subdir_ref_of(raw[i]) == d.subdirectories[k]);
    }
}

} // verus!

//! File classification: maps a file name to a semantic kind by its
//! extension, and renders a display line for a file entry.

use vstd::prelude::*;

use crate::text::{dec_of, find_last, last_index_of, str_eq, u64_dec};

verus! {

/// Semantic kind of a file, derived from its extension.
#[derive(Debug, Clone, Copy, PartialEq, Eq, Structural)]
pub enum FileType {
    Executable,
    Media,
    Document,
    Zip,
    Code,
    Unknown,
}

/// One regular file in a directory listing. `size` is best-effort:
/// absent when the size could not be read.
#[derive(Debug, Clone)]
pub struct FileEntry {
    pub name: String,
    pub filetype: FileType,
    pub size: Option<u64>,
}

/// Mathematical image of a `FileEntry`.
#[verifier::ext_equal]
pub struct FileEntryV {
    pub name: Seq<char>,
    pub filetype: FileType,
    pub size: Option<u64>,
}

impl View for FileEntry {
    type V = FileEntryV;

    open spec fn view(&self) -> FileEntryV {
        FileEntryV { name: self.name@, filetype: self.filetype, size: self.size }
    }
}

impl DeepView for FileEntry {
    type V = FileEntryV;

    open spec fn deep_view(&self) -> FileEntryV {
        self.view()
    }
}

/// ASCII lower-casing of a single character; anything outside `A`..`Z`
/// is left alone.
pub open spec fn lower_char(c: char) -> char {
    if 65 <= c as u32 && c as u32 <= 90 {
        (((c as u32) + 32) as u8) as char
    } else {
        c
    }
}

/// ASCII lower-casing of a character sequence.
pub open spec fn lower_of(s: Seq<char>) -> Seq<char>
    decreases s.len(),
{
    if s.len() == 0 {
        Seq::empty()
    } else {
        lower_of(s.drop_last()).push(lower_char(s.last()))
    }
}

/// The lower-cased extension of a name: what follows the last `.`, or
/// `None` when the name has no `.` at all.
pub open spec fn ext_of(name: Seq<char>) -> Option<Seq<char>> {
    let l = last_index_of(name, '.');
    if l == -1 {
        None
    } else {
        Some(lower_of(name.subrange(l + 1, name.len() as int)))
    }
}

/// The fixed extension table.
pub open spec fn kind_of_ext(e: Seq<char>) -> FileType {
    if e == "exe"@ || e == "bat"@ || e == "sh"@ {
        FileType::Executable
    } else if e == "mp3"@ || e == "mp4"@ || e == "wav"@ || e == "flac"@ || e == "jpg"@
        || e == "png"@ || e == "gif"@ {
        FileType::Media
    } else if e == "pdf"@ || e == "doc"@ || e == "docx"@ || e == "txt"@ || e == "odt"@
        || e == "json"@ || e == "toml"@ {
        FileType::Document
    } else if e == "zip"@ || e == "rar"@ || e == "7z"@ || e == "tar"@ || e == "gz"@ {
        FileType::Zip
    } else if e == "rs"@ || e == "py"@ || e == "js"@ || e == "java"@ || e == "c"@
        || e == "cpp"@ || e == "html"@ || e == "css"@ {
        FileType::Code
    } else {
        FileType::Unknown
    }
}

/// Kind of a file name: the table entry for its lower-cased extension;
/// `Unknown` for a name without one.
pub open spec fn classify(name: Seq<char>) -> FileType {
    match ext_of(name) {
        None => FileType::Unknown,
        Some(e) => kind_of_ext(e),
    }
}

fn lower_char_x(c: char) -> (r: char)
    ensures
        r == lower_char(c),
{
    let u = c as u32;
    if 65 <= u && u <= 90 {
        ((u + 32) as u8) as char
    } else {
        c
    }
}

/// The lower-cased slice `s[from..to]` as a fresh string.
fn lower_substring(s: &str, from: usize, to: usize) -> (r: String)
    requires
        from <= to <= s@.len(),
    ensures
        r@ == lower_of(s@.subrange(from as int, to as int)),
{
    let mut r = String::new();
    let mut j: usize = from;
    proof {
        assert(s@.subrange(from as int, from as int) =~= Seq::<char>::empty());
    }
    while j < to
        invariant
            from <= j <= to <= s@.len(),
            r@ == lower_of(s@.subrange(from as int, j as int)),
        decreases to - j,
    {
        let c = lower_char_x(s.get_char(j));
        r.push(c);
        proof {
            let pre = s@.subrange(from as int, j as int);
            let post = s@.subrange(from as int, j + 1 as int);
            assert(post.drop_last() =~= pre);
            assert(post.last() == s@[j as int]);
        }
        j = j + 1;
    }
    r
}

impl FileEntry {
    /// The kind this entry displays as: the cached kind when one was
    /// already assigned, otherwise the kind derived from the name.
    pub fn enumerate_filetype(&self) -> (t: FileType)
        ensures
            t == (if self.filetype != FileType::Unknown {
                self.filetype
            } else {
                classify(self.name@)
            }),
    {
        if self.filetype != FileType::Unknown {
            return self.filetype;
        }
        let name = self.name.as_str();
        match find_last(name, '.') {
            None => FileType::Unknown,
            Some(i) => {
                let len = name.unicode_len();
                let e = lower_substring(name, i + 1, len);
                let x = e.as_str();
                if str_eq(x, "exe") || str_eq(x, "bat") || str_eq(x, "sh") {
                    FileType::Executable
                } else if str_eq(x, "mp3") || str_eq(x, "mp4") || str_eq(x, "wav")
                    || str_eq(x, "flac") || str_eq(x, "jpg") || str_eq(x, "png")
                    || str_eq(x, "gif") {
                    FileType::Media
                } else if str_eq(x, "pdf") || str_eq(x, "doc") || str_eq(x, "docx")
                    || str_eq(x, "txt") || str_eq(x, "odt") || str_eq(x, "json")
                    || str_eq(x, "toml") {
                    FileType::Document
                } else if str_eq(x, "zip") || str_eq(x, "rar") || str_eq(x, "7z")
                    || str_eq(x, "tar") || str_eq(x, "gz") {
                    FileType::Zip
                } else if str_eq(x, "rs") || str_eq(x, "py") || str_eq(x, "js")
                    || str_eq(x, "java") || str_eq(x, "c") || str_eq(x, "cpp")
                    || str_eq(x, "html") || str_eq(x, "css") {
                    FileType::Code
                } else {
                    FileType::Unknown
                }
            },
        }
    }
}

/// The marker glyph shown before a file's name.
pub open spec fn symbol_of(t: FileType) -> Seq<char> {
    match t {
        FileType::Executable => "\u{2699}\u{fe0f} "@,
        FileType::Media => "\u{1f3b5} "@,
        FileType::Document => "\u{1f4c4} "@,
        FileType::Zip => "\u{1f5dc}\u{fe0f} "@,
        FileType::Code => "</> "@,
        FileType::Unknown => "\u{2753}"@,
    }
}

/// One digit character.
pub open spec fn digit_of(d: nat) -> char {
    ((48 + d % 10) as u8) as char
}

/// Exactly two digit characters for a value below one hundred.
pub open spec fn two_digits_of(d: nat) -> Seq<char> {
    seq![digit_of(d / 10), digit_of(d % 10)]
}

/// The human-readable size: whole and hundredth mebibytes, switching to
/// gibibytes at one gibibyte, both truncated; a fixed text when the size
/// is unknown.
pub open spec fn size_label_of(size: Option<u64>) -> Seq<char> {
    match size {
        None => "Size Unknown"@,
        Some(n) => {
            if n >= 0x40000000 {
                let g = (n as nat * 100) / 0x40000000;
                dec_of(g / 100) + "."@ + two_digits_of(g % 100) + " GB"@
            } else {
                let m = (n as nat * 100) / 0x100000;
                dec_of(m / 100) + "."@ + two_digits_of(m % 100) + " MB"@
            }
        },
    }
}

/// The display line of a file entry: marker, name, and size.
pub open spec fn display_line_of(e: FileEntryV) -> Seq<char> {
    symbol_of(e.filetype) + " "@ + e.name + " ("@ + size_label_of(e.size) + ")"@
}

fn push_two_digits(r: &mut String, d: u64)
    requires
        d < 100,
    ensures
        final(r)@ == old(r)@ + two_digits_of(d as nat),
{
    let hi = 48u8 + ((d / 10) as u8);
    let lo = 48u8 + ((d % 10) as u8);
    r.push(hi as char);
    r.push(lo as char);
    proof {
        assert(r@ =~= old(r)@ + two_digits_of(d as nat));
    }
}

/// The size part of a display line.
fn size_label(size: &Option<u64>) -> (r: String)
    ensures
        r@ == size_label_of(*size),
{
    match size {
        None => {
            let mut r = String::new();
            r.append("Size Unknown");
            proof {
                assert(r@ =~= "Size Unknown"@);
            }
            r
        },
        Some(n) => {
            let n = *n;
            if n >= 0x40000000 {
                let g = (((n as u128) * 100) / 0x40000000) as u64;
                let mut r = u64_dec(g / 100);
                r.append(".");
                push_two_digits(&mut r, g % 100);
                r.append(" GB");
                proof {
                    assert(g == (n as nat * 100) / 0x40000000);
                    assert(r@ =~= size_label_of(Some(n)));
                }
                r
            } else {
                let m = (((n as u128) * 100) / 0x100000) as u64;
                let mut r = u64_dec(m / 100);
                r.append(".");
                push_two_digits(&mut r, m % 100);
                r.append(" MB");
                proof {
                    assert(m == (n as nat * 100) / 0x100000);
                    assert(r@ =~= size_label_of(Some(n)));
                }
                r
            }
        },
    }
}

impl FileEntry {
    /// The line shown for this entry in a rendered listing.
    pub fn assign_symbol(&self) -> (r: String)
        ensures
            r@ == display_line_of(self@),
    {
        let mut r = String::new();
        match self.filetype {
            FileType::Executable => r.append("\u{2699}\u{fe0f} "),
            FileType::Media => r.append("\u{1f3b5} "),
            FileType::Document => r.append("\u{1f4c4} "),
            FileType::Zip => r.append("\u{1f5dc}\u{fe0f} "),
            FileType::Code => r.append("</> "),
            FileType::Unknown => r.append("\u{2753}"),
        }
        r.append(" ");
        r.append(self.name.as_str());
        r.append(" (");
        let label = size_label(&self.size);
        r.append(label.as_str());
        r.append(")");
        proof {
            assert(r@ =~= display_line_of(self@));
        }
        r
    }
}

} // verus!

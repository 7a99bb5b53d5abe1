//! The session: the modal interaction state machine over one current
//! directory, a selection cursor, a clipboard and an exit flag. Each
//! abstract input intent is one pure step that may ask the host for one
//! outside action; the host hands outcomes back through the `apply_`
//! functions.

use vstd::prelude::*;

use crate::cursor::{clamp_sel, next_sel, prev_sel, sel_in_range, Cursor};
use crate::directory::{
    find_index, files_of, subdirs_of, Directory, DirectoryV, ScanError, ScannedEntry, SubdirRef,
    SubdirRefV,
};
use crate::text::{
    basename, basename_of, join_path, parent_of, parent_path, strip_slash, strip_slash_of, trim,
    trim_of,
};

verus! {

/// The at-most-one pending clipboard entry: a source path, marked as a
/// cut (move) or a copy.
#[derive(Debug, Clone)]
pub struct Clipboard {
    pub cut: bool,
    pub path: String,
}

/// Mathematical image of a `Clipboard`.
#[verifier::ext_equal]
pub struct ClipboardV {
    pub cut: bool,
    pub path: Seq<char>,
}

impl View for Clipboard {
    type V = ClipboardV;

    open spec fn view(&self) -> ClipboardV {
        ClipboardV { cut: self.cut, path: self.path@ }
    }
}

/// The modal overlay: at most one is active, each carrying exactly the
/// data it needs.
#[derive(Debug, Clone)]
pub enum Modal {
    /// No overlay; navigation and commands are live.
    Browsing,
    /// Waiting for the user to confirm deleting the named entry.
    ConfirmDelete { target_name: String },
    /// Renaming the named entry; the buffer starts as its current name.
    Rename { original_name: String, input_buffer: String },
    /// Naming a file to create in the current directory.
    CreateNew { input_buffer: String },
}

/// Mathematical image of a `Modal`.
#[verifier::ext_equal]
pub enum ModalV {
    Browsing,
    ConfirmDelete { target_name: Seq<char> },
    Rename { original_name: Seq<char>, input_buffer: Seq<char> },
    CreateNew { input_buffer: Seq<char> },
}

impl View for Modal {
    type V = ModalV;

    open spec fn view(&self) -> ModalV {
        match self {
            Modal::Browsing => ModalV::Browsing,
            Modal::ConfirmDelete { target_name } => ModalV::ConfirmDelete {
                target_name: target_name@,
            },
            Modal::Rename { original_name, input_buffer } => ModalV::Rename {
                original_name: original_name@,
                input_buffer: input_buffer@,
            },
            Modal::CreateNew { input_buffer } => ModalV::CreateNew { input_buffer: input_buffer@ },
        }
    }
}

/// One abstract input intent, already decoded from the device by the
/// host.
#[derive(Debug, Clone, Copy, PartialEq, Eq, Structural)]
pub enum Intent {
    MoveUp,
    MoveDown,
    Enter,
    Parent,
    Open,
    Delete,
    Rename,
    Yank,
    CopyMark,
    CutMark,
    Paste,
    NewFile,
    TextInput(char),
    Backspace,
    Confirm,
    Cancel,
    Quit,
}

/// Why a navigation attempt was refused; all are recovered locally and
/// the session keeps its current directory.
#[derive(Debug, Clone, Copy, PartialEq, Eq, Structural)]
pub enum NavError {
    /// The selected entry is not a subdirectory (or nothing is selected).
    NotADirectory,
    /// The target directory could not be enumerated.
    ScanFailed,
    /// The current directory has no parent.
    AtRoot,
}

/// The one outside action a step asks of the host. The host performs it
/// and hands any outcome back through an `apply_` function.
#[derive(Debug, Clone)]
pub enum Effect {
    /// Nothing to do.
    Done,
    /// Open this path with the platform's default handler.
    OpenPath { path: String },
    /// Hand this path to the platform clipboard utility.
    YankPath { path: String },
    /// Enumerate the directory at `path` and hand the outcome to
    /// `Session::apply_navigation`.
    Navigate { name: String, path: String },
    /// Remove the entry at `path` (recursively when plain removal of a
    /// directory fails), then rescan through `Session::apply_rescan`.
    DeletePath { path: String },
    /// Rename `from` to `to`, then rescan through `Session::apply_rescan`.
    RenamePath { from: String, to: String },
    /// Create an empty file at `path`, then rescan through
    /// `Session::apply_rescan`.
    CreatePath { path: String },
    /// Copy `from` to `to`; when `remove_source` is set, remove `from`
    /// after a successful copy; then rescan through
    /// `Session::apply_rescan`.
    PastePath { from: String, to: String, remove_source: bool },
}

/// Mathematical image of an `Effect`.
#[verifier::ext_equal]
pub enum EffectV {
    Done,
    OpenPath { path: Seq<char> },
    YankPath { path: Seq<char> },
    Navigate { name: Seq<char>, path: Seq<char> },
    DeletePath { path: Seq<char> },
    RenamePath { from: Seq<char>, to: Seq<char> },
    CreatePath { path: Seq<char> },
    PastePath { from: Seq<char>, to: Seq<char>, remove_source: bool },
}

impl View for Effect {
    type V = EffectV;

    open spec fn view(&self) -> EffectV {
        match self {
            Effect::Done => EffectV::Done,
            Effect::OpenPath { path } => EffectV::OpenPath { path: path@ },
            Effect::YankPath { path } => EffectV::YankPath { path: path@ },
            Effect::Navigate { name, path } => EffectV::Navigate { name: name@, path: path@ },
            Effect::DeletePath { path } => EffectV::DeletePath { path: path@ },
            Effect::RenamePath { from, to } => EffectV::RenamePath { from: from@, to: to@ },
            Effect::CreatePath { path } => EffectV::CreatePath { path: path@ },
            Effect::PastePath { from, to, remove_source } => EffectV::PastePath {
                from: from@,
                to: to@,
                remove_source: *remove_source,
            },
        }
    }
}

/// The whole interactive state: current directory, preview of the
/// highlighted subdirectory, cursor, active modal, clipboard, the
/// hidden-files setting, and the exit flag.
#[derive(Debug)]
pub struct Session {
    pub dir: Directory,
    pub preview: Option<Directory>,
    pub cursor: Cursor,
    pub modal: Modal,
    pub clipboard: Option<Clipboard>,
    pub show_hidden_files: bool,
    pub exit: bool,
}

/// Mathematical image of a `Session`.
#[verifier::ext_equal]
pub struct SessionV {
    pub dir: DirectoryV,
    pub preview: Option<DirectoryV>,
    pub cursor: Option<usize>,
    pub modal: ModalV,
    pub clipboard: Option<ClipboardV>,
    pub show_hidden_files: bool,
    pub exit: bool,
}

impl View for Session {
    type V = SessionV;

    open spec fn view(&self) -> SessionV {
        SessionV {
            dir: self.dir@,
            preview: match self.preview {
                Some(ref d) => Some(d@),
                None => None,
            },
            cursor: self.cursor.selected,
            modal: self.modal@,
            clipboard: match self.clipboard {
                Some(ref c) => Some(c@),
                None => None,
            },
            show_hidden_files: self.show_hidden_files,
            exit: self.exit,
        }
    }
}

impl SessionV {
    /// The current listing length.
    pub open spec fn llen(self) -> int {
        self.dir.listing().len() as int
    }

    /// A well-formed session: the directory model is sorted and the
    /// selection lies inside its listing.
    pub open spec fn wf(self) -> bool {
        &&& self.dir.wf()
        &&& sel_in_range(self.cursor, self.llen())
    }

    /// The listing entry under the cursor, marker included.
    pub open spec fn sel_entry(self) -> Option<Seq<char>> {
        match self.cursor {
            Some(i) => if (i as int) < self.llen() {
                Some(self.dir.listing()[i as int])
            } else {
                None
            },
            None => None,
        }
    }

    /// The full path of the entry under the cursor, marker included.
    pub open spec fn sel_path(self) -> Option<Seq<char>> {
        match self.sel_entry() {
            Some(e) => Some(self.dir.path + "/"@ + e),
            None => None,
        }
    }

    /// The full path of the entry under the cursor, marker stripped.
    pub open spec fn sel_path_clean(self) -> Option<Seq<char>> {
        match self.sel_entry() {
            Some(e) => Some(self.dir.path + "/"@ + strip_slash_of(e)),
            None => None,
        }
    }

    /// The subdirectory stub navigation would descend into: the entry
    /// under the cursor when it carries the directory marker and a stub
    /// of that name exists.
    pub open spec fn enter_target(self) -> Option<SubdirRefV> {
        match self.sel_entry() {
            Some(e) => if e.len() > 0 && e.last() == '/' {
                let idx = find_index(self.dir.subdirectories, strip_slash_of(e));
                if idx >= 0 {
                    Some(self.dir.subdirectories[idx])
                } else {
                    None
                }
            } else {
                None
            },
            None => None,
        }
    }
}

impl Session {
    /// A fresh session with the given hidden-files setting and an empty
    /// placeholder directory; the first `apply_navigation` installs the
    /// real one.
    pub fn new(show_hidden_files: bool) -> (s: Session)
        ensures
            s@.wf(),
            s@.dir.files.len() == 0,
            s@.dir.subdirectories.len() == 0,
            s@.preview is None,
            s@.cursor is None,
            s@.modal is Browsing,
            s@.clipboard is None,
            s@.show_hidden_files == show_hidden_files,
            s@.exit == false,
    {
        Session {
            dir: Directory::new(String::new(), String::new()),
            preview: None,
            cursor: Cursor { selected: None },
            modal: Modal::Browsing,
            clipboard: None,
            show_hidden_files,
            exit: false,
        }
    }

    /// The current listing length.
    pub fn listing_len(&self) -> (n: usize)
        ensures
            n as int == self@.llen(),
    {
        self.dir.entries().len()
    }

    /// The listing entry under the cursor, marker included.
    pub fn selected_entry(&self) -> (r: Option<String>)
        ensures
            match r {
                Some(e) => self@.sel_entry() == Some(e@),
                None => self@.sel_entry() is None,
            },
    {
        match self.cursor.selected {
            Some(i) => {
                let e = self.dir.entries();
                if i < e.len() {
                    Some(e[i].clone())
                } else {
                    None
                }
            },
            None => None,
        }
    }

    /// The full path of the entry under the cursor, marker included.
    pub fn selected_path(&self) -> (r: Option<String>)
        ensures
            match r {
                Some(p) => self@.sel_path() == Some(p@),
                None => self@.sel_path() is None,
            },
    {
        match self.selected_entry() {
            Some(e) => Some(join_path(self.dir.path.as_str(), e.as_str())),
            None => None,
        }
    }

    /// Raises the exit flag; the host loop stops at the next turn.
    pub fn quit(&mut self)
        ensures
            final(self)@ == (SessionV { exit: true, ..old(self)@ }),
    {
        self.exit = true;
    }

    /// Moves the selection one entry down, wrapping at the bottom.
    pub fn select_next(&mut self)
        requires
            old(self)@.wf(),
        ensures
            final(self)@ == (SessionV {
                cursor: next_sel(old(self)@.cursor, old(self)@.llen()),
                ..old(self)@
            }),
            final(self)@.wf(),
    {
        let n = self.listing_len();
        self.cursor.next(n);
    }

    /// Moves the selection one entry up, wrapping at the top.
    pub fn select_previous(&mut self)
        requires
            old(self)@.wf(),
        ensures
            final(self)@ == (SessionV {
                cursor: prev_sel(old(self)@.cursor, old(self)@.llen()),
                ..old(self)@
            }),
            final(self)@.wf(),
    {
        let n = self.listing_len();
        self.cursor.previous(n);
    }

    /// Opens the delete confirmation for the entry under the cursor, if
    /// any.
    pub fn delete_file(&mut self)
        ensures
            match old(self)@.sel_entry() {
                Some(e) => final(self)@ == (SessionV {
                    modal: ModalV::ConfirmDelete { target_name: e },
                    ..old(self)@
                }),
                None => *final(self) == *old(self),
            },
    {
        match self.selected_entry() {
            Some(e) => {
                self.modal = Modal::ConfirmDelete { target_name: e };
            },
            None => {},
        }
    }

    /// Opens the rename dialog for the entry under the cursor, if any,
    /// with the buffer pre-filled with its current name, marker
    /// stripped.
    pub fn rename_file(&mut self)
        ensures
            match old(self)@.sel_entry() {
                Some(e) => final(self)@ == (SessionV {
                    modal: ModalV::Rename {
                        original_name: e,
                        input_buffer: strip_slash_of(e),
                    },
                    ..old(self)@
                }),
                None => *final(self) == *old(self),
            },
    {
        match self.selected_entry() {
            Some(e) => {
                let buf = strip_slash(e.as_str());
                self.modal = Modal::Rename { original_name: e, input_buffer: buf };
            },
            None => {},
        }
    }

    /// Opens the new-file dialog with an empty buffer.
    pub fn new_file(&mut self)
        ensures
            final(self)@ == (SessionV {
                modal: ModalV::CreateNew { input_buffer: Seq::<char>::empty() },
                ..old(self)@
            }),
    {
        self.modal = Modal::CreateNew { input_buffer: String::new() };
        proof {
            assert(self@.modal == (ModalV::CreateNew { input_buffer: Seq::<char>::empty() }));
        }
    }

    /// Marks the entry under the cursor, if any, as a pending copy,
    /// replacing any prior mark.
    pub fn handle_copy_file(&mut self)
        ensures
            match old(self)@.sel_path_clean() {
                Some(p) => final(self)@ == (SessionV {
                    clipboard: Some(ClipboardV { cut: false, path: p }),
                    ..old(self)@
                }),
                None => *final(self) == *old(self),
            },
    {
        match self.selected_entry() {
            Some(e) => {
                let clean = strip_slash(e.as_str());
                let p = join_path(self.dir.path.as_str(), clean.as_str());
                self.clipboard = Some(Clipboard { cut: false, path: p });
            },
            None => {},
        }
    }

    /// Marks the entry under the cursor, if any, as a pending cut,
    /// replacing any prior mark.
    pub fn handle_cut_file(&mut self)
        ensures
            match old(self)@.sel_path_clean() {
                Some(p) => final(self)@ == (SessionV {
                    clipboard: Some(ClipboardV { cut: true, path: p }),
                    ..old(self)@
                }),
                None => *final(self) == *old(self),
            },
    {
        match self.selected_entry() {
            Some(e) => {
                let clean = strip_slash(e.as_str());
                let p = join_path(self.dir.path.as_str(), clean.as_str());
                self.clipboard = Some(Clipboard { cut: true, path: p });
            },
            None => {},
        }
    }

    /// Resolves a pending clipboard mark into the copy the host must
    /// perform — into this directory, under the source's base name,
    /// removing the source afterwards when the mark was a cut — and
    /// clears the mark. Without a mark this is a no-op.
    pub fn handle_paste(&mut self) -> (eff: Effect)
        ensures
            match old(self)@.clipboard {
                Some(c) => final(self)@ == (SessionV { clipboard: None, ..old(self)@ }) && eff@
                    == (EffectV::PastePath {
                    from: c.path,
                    to: old(self)@.dir.path + "/"@ + basename_of(c.path),
                    remove_source: c.cut,
                }),
                None => *final(self) == *old(self) && eff@ is Done,
            },
    {
        match self.clipboard.take() {
            Some(c) => {
                let base = basename(c.path.as_str());
                let to = join_path(self.dir.path.as_str(), base.as_str());
                Effect::PastePath { from: c.path, to, remove_source: c.cut }
            },
            None => Effect::Done,
        }
    }

    /// The navigation an enter intent asks for: the selected
    /// subdirectory's name and path, or `NotADirectory` when the cursor
    /// does not sit on one.
    pub fn enter_directory(&self) -> (r: Result<Effect, NavError>)
        ensures
            match self@.enter_target() {
                Some(t) => r matches Ok(eff) && eff@ == (EffectV::Navigate {
                    name: t.name,
                    path: t.path,
                }),
                None => r == Result::<Effect, NavError>::Err(NavError::NotADirectory),
            },
    {
        let e = match self.selected_entry() {
            Some(e) => e,
            None => {
                return Err(NavError::NotADirectory);
            },
        };
        let len = e.as_str().unicode_len();
        if len == 0 || e.as_str().get_char(len - 1) != '/' {
            return Err(NavError::NotADirectory);
        }
        match self.dir.find_subdirectory(e.as_str()) {
            Some(s) => Ok(Effect::Navigate { name: s.name.clone(), path: s.path.clone() }),
            None => Err(NavError::NotADirectory),
        }
    }

    /// The navigation a parent intent asks for: the parent of the
    /// current path, or `AtRoot` when there is none.
    pub fn go_to_parent(&self) -> (r: Result<Effect, NavError>)
        ensures
            match parent_of(self@.dir.path) {
                Some(p) => r matches Ok(eff) && eff@ == (EffectV::Navigate {
                    name: basename_of(p),
                    path: p,
                }),
                None => r == Result::<Effect, NavError>::Err(NavError::AtRoot),
            },
    {
        match parent_path(self.dir.path.as_str()) {
            Some(p) => {
                let name = basename(p.as_str());
                Ok(Effect::Navigate { name, path: p })
            },
            None => Err(NavError::AtRoot),
        }
    }

    /// The subdirectory the preview panel should show: the stub under
    /// the cursor, when the cursor sits on a subdirectory.
    pub fn preview_target(&self) -> (r: Option<SubdirRef>)
        ensures
            match r {
                Some(s) => self@.enter_target() == Some(s@),
                None => self@.enter_target() is None,
            },
    {
        let e = match self.selected_entry() {
            Some(e) => e,
            None => {
                return None;
            },
        };
        let len = e.as_str().unicode_len();
        if len == 0 || e.as_str().get_char(len - 1) != '/' {
            return None;
        }
        match self.dir.find_subdirectory(e.as_str()) {
            Some(s) => Some(SubdirRef { name: s.name.clone(), path: s.path.clone() }),
            None => None,
        }
    }
}

/// The modal after one typed character: appended to the active buffer;
/// ignored by the delete confirmation.
pub open spec fn modal_text_of(m: ModalV, c: char) -> ModalV {
    match m {
        ModalV::Rename { original_name, input_buffer } => ModalV::Rename {
            original_name,
            input_buffer: input_buffer.push(c),
        },
        ModalV::CreateNew { input_buffer } => ModalV::CreateNew {
            input_buffer: input_buffer.push(c),
        },
        _ => m,
    }
}

/// The modal after one backspace: the active buffer loses its last
/// character, if it has one.
pub open spec fn modal_backspace_of(m: ModalV) -> ModalV {
    match m {
        ModalV::Rename { original_name, input_buffer } => ModalV::Rename {
            original_name,
            input_buffer: if input_buffer.len() > 0 {
                input_buffer.drop_last()
            } else {
                input_buffer
            },
        },
        ModalV::CreateNew { input_buffer } => ModalV::CreateNew {
            input_buffer: if input_buffer.len() > 0 {
                input_buffer.drop_last()
            } else {
                input_buffer
            },
        },
        _ => m,
    }
}

/// The action confirming the active modal asks of the host: delete the
/// confirmed target; rename to the trimmed buffer when it is non-empty;
/// create the trimmed buffer when it is non-empty; nothing otherwise.
pub open spec fn confirm_effect_of(dir_path: Seq<char>, m: ModalV) -> EffectV {
    match m {
        ModalV::Browsing => EffectV::Done,
        ModalV::ConfirmDelete { target_name } => EffectV::DeletePath {
            path: dir_path + "/"@ + strip_slash_of(target_name),
        },
        ModalV::Rename { original_name, input_buffer } => {
            let new_name = trim_of(input_buffer);
            if new_name.len() > 0 {
                EffectV::RenamePath {
                    from: dir_path + "/"@ + strip_slash_of(original_name),
                    to: dir_path + "/"@ + new_name,
                }
            } else {
                EffectV::Done
            }
        },
        ModalV::CreateNew { input_buffer } => {
            let new_name = trim_of(input_buffer);
            if new_name.len() > 0 {
                EffectV::CreatePath { path: dir_path + "/"@ + new_name }
            } else {
                EffectV::Done
            }
        },
    }
}

/// The transition relation of the session: how one intent takes the
/// state `pre` to `post` and which outside action `eff` it requests.
/// While a modal is active only text editing, confirm and cancel act;
/// every other intent changes nothing.
pub open spec fn step(pre: SessionV, intent: Intent, post: SessionV, eff: EffectV) -> bool {
    if !(pre.modal is Browsing) {
        match intent {
            Intent::TextInput(c) => post == (SessionV { modal: modal_text_of(pre.modal, c), ..pre })
                && eff is Done,
            Intent::Backspace => post == (SessionV { modal: modal_backspace_of(pre.modal), ..pre })
                && eff is Done,
            Intent::Confirm => post == (SessionV { modal: ModalV::Browsing, ..pre }) && eff
                == confirm_effect_of(pre.dir.path, pre.modal),
            Intent::Cancel => post == (SessionV { modal: ModalV::Browsing, ..pre })
                && eff is Done,
            _ => post == pre && eff is Done,
        }
    } else {
        match intent {
            Intent::MoveUp => post == (SessionV { cursor: prev_sel(pre.cursor, pre.llen()), ..pre })
                && eff is Done,
            Intent::MoveDown => post == (SessionV {
                cursor: next_sel(pre.cursor, pre.llen()),
                ..pre
            }) && eff is Done,
            Intent::Enter => post == pre && (match pre.enter_target() {
                Some(t) => eff == (EffectV::Navigate { name: t.name, path: t.path }),
                None => eff is Done,
            }),
            Intent::Parent => post == pre && (match parent_of(pre.dir.path) {
                Some(p) => eff == (EffectV::Navigate { name: basename_of(p), path: p }),
                None => eff is Done,
            }),
            Intent::Open => post == pre && (match pre.sel_path() {
                Some(p) => eff == (EffectV::OpenPath { path: p }),
                None => eff is Done,
            }),
            Intent::Yank => post == pre && (match pre.sel_path() {
                Some(p) => eff == (EffectV::YankPath { path: p }),
                None => eff is Done,
            }),
            Intent::Delete => eff is Done && (match pre.sel_entry() {
                Some(e) => post == (SessionV {
                    modal: ModalV::ConfirmDelete { target_name: e },
                    ..pre
                }),
                None => post == pre,
            }),
            Intent::Rename => eff is Done && (match pre.sel_entry() {
                Some(e) => post == (SessionV {
                    modal: ModalV::Rename { original_name: e, input_buffer: strip_slash_of(e) },
                    ..pre
                }),
                None => post == pre,
            }),
            Intent::NewFile => post == (SessionV {
                modal: ModalV::CreateNew { input_buffer: Seq::<char>::empty() },
                ..pre
            }) && eff is Done,
            Intent::CopyMark => eff is Done && (match pre.sel_path_clean() {
                Some(p) => post == (SessionV {
                    clipboard: Some(ClipboardV { cut: false, path: p }),
                    ..pre
                }),
                None => post == pre,
            }),
            Intent::CutMark => eff is Done && (match pre.sel_path_clean() {
                Some(p) => post == (SessionV {
                    clipboard: Some(ClipboardV { cut: true, path: p }),
                    ..pre
                }),
                None => post == pre,
            }),
            Intent::Paste => match pre.clipboard {
                Some(c) => post == (SessionV { clipboard: None, ..pre }) && eff
                    == (EffectV::PastePath {
                    from: c.path,
                    to: pre.dir.path + "/"@ + basename_of(c.path),
                    remove_source: c.cut,
                }),
                None => post == pre && eff is Done,
            },
            Intent::Quit => post == (SessionV { exit: true, ..pre }) && eff is Done,
            _ => post == pre && eff is Done,
        }
    }
}

impl Session {
    /// Swaps the active modal out, leaving `Browsing` behind.
    fn take_modal(&mut self) -> (m: Modal)
        ensures
            m@ == old(self)@.modal,
            final(self)@ == (SessionV { modal: ModalV::Browsing, ..old(self)@ }),
    {
        let mut m = Modal::Browsing;
        core::mem::swap(&mut m, &mut self.modal);
        m
    }

    /// Appends one typed character to the active input buffer.
    pub fn modal_text(&mut self, c: char)
        ensures
            final(self)@ == (SessionV { modal: modal_text_of(old(self)@.modal, c), ..old(self)@ }),
    {
        let m = self.take_modal();
        match m {
            Modal::Rename { original_name, mut input_buffer } => {
                input_buffer.push(c);
                self.modal = Modal::Rename { original_name, input_buffer };
            },
            Modal::CreateNew { mut input_buffer } => {
                input_buffer.push(c);
                self.modal = Modal::CreateNew { input_buffer };
            },
            other => {
                self.modal = other;
            },
        }
    }

    /// Removes the last character of the active input buffer.
    pub fn modal_backspace(&mut self)
        ensures
            final(self)@ == (SessionV {
                modal: modal_backspace_of(old(self)@.modal),
                ..old(self)@
            }),
    {
        let m = self.take_modal();
        match m {
            Modal::Rename { original_name, mut input_buffer } => {
                input_buffer.pop();
                self.modal = Modal::Rename { original_name, input_buffer };
            },
            Modal::CreateNew { mut input_buffer } => {
                input_buffer.pop();
                self.modal = Modal::CreateNew { input_buffer };
            },
            other => {
                self.modal = other;
            },
        }
    }

    /// Dismisses the active modal, discarding its target and buffer.
    pub fn modal_cancel(&mut self)
        ensures
            final(self)@ == (SessionV { modal: ModalV::Browsing, ..old(self)@ }),
    {
        let _ = self.take_modal();
    }

    /// Commits the active modal: returns to browsing and asks the host
    /// for the confirmed file operation, if the input names one.
    pub fn modal_confirm(&mut self) -> (eff: Effect)
        ensures
            final(self)@ == (SessionV { modal: ModalV::Browsing, ..old(self)@ }),
            eff@ == confirm_effect_of(old(self)@.dir.path, old(self)@.modal),
    {
        let m = self.take_modal();
        match m {
            Modal::Browsing => Effect::Done,
            Modal::ConfirmDelete { target_name } => {
                let clean = strip_slash(target_name.as_str());
                let path = join_path(self.dir.path.as_str(), clean.as_str());
                Effect::DeletePath { path }
            },
            Modal::Rename { original_name, input_buffer } => {
                let new_name = trim(input_buffer.as_str());
                if new_name.as_str().unicode_len() > 0 {
                    let clean = strip_slash(original_name.as_str());
                    let from = join_path(self.dir.path.as_str(), clean.as_str());
                    let to = join_path(self.dir.path.as_str(), new_name.as_str());
                    Effect::RenamePath { from, to }
                } else {
                    Effect::Done
                }
            },
            Modal::CreateNew { input_buffer } => {
                let new_name = trim(input_buffer.as_str());
                if new_name.as_str().unicode_len() > 0 {
                    let path = join_path(self.dir.path.as_str(), new_name.as_str());
                    Effect::CreatePath { path }
                } else {
                    Effect::Done
                }
            },
        }
    }

    /// One step of the session: routes the intent to the modal when one
    /// is active, else to the cursor, the navigation targets, the
    /// clipboard, a modal entry, or the exit flag, and returns the one
    /// outside action the host must perform.
    pub fn handle_intent(&mut self, intent: Intent) -> (eff: Effect)
        requires
            old(self)@.wf(),
        ensures
            final(self)@.wf(),
            step(old(self)@, intent, final(self)@, eff@),
    {
        let browsing = matches!(self.modal, Modal::Browsing);
        if !browsing {
            match intent {
                Intent::TextInput(c) => {
                    self.modal_text(c);
                    Effect::Done
                },
                Intent::Backspace => {
                    self.modal_backspace();
                    Effect::Done
                },
                Intent::Confirm => self.modal_confirm(),
                Intent::Cancel => {
                    self.modal_cancel();
                    Effect::Done
                },
                _ => Effect::Done,
            }
        } else {
            match intent {
                Intent::MoveUp => {
                    self.select_previous();
                    Effect::Done
                },
                Intent::MoveDown => {
                    self.select_next();
                    Effect::Done
                },
                Intent::Enter => match self.enter_directory() {
                    Ok(eff) => eff,
                    Err(_) => Effect::Done,
                },
                Intent::Parent => match self.go_to_parent() {
                    Ok(eff) => eff,
                    Err(_) => Effect::Done,
                },
                Intent::Open => match self.selected_path() {
                    Some(path) => Effect::OpenPath { path },
                    None => Effect::Done,
                },
                Intent::Yank => match self.selected_path() {
                    Some(path) => Effect::YankPath { path },
                    None => Effect::Done,
                },
                Intent::Delete => {
                    self.delete_file();
                    Effect::Done
                },
                Intent::Rename => {
                    self.rename_file();
                    Effect::Done
                },
                Intent::NewFile => {
                    self.new_file();
                    Effect::Done
                },
                Intent::CopyMark => {
                    self.handle_copy_file();
                    Effect::Done
                },
                Intent::CutMark => {
                    self.handle_cut_file();
                    Effect::Done
                },
                Intent::Paste => self.handle_paste(),
                Intent::Quit => {
                    self.quit();
                    Effect::Done
                },
                _ => Effect::Done,
            }
        }
    }

    /// Installs a freshly scanned directory as the current one and puts
    /// the selection on its first entry; on a failed enumeration the
    /// session is left exactly as it was.
    pub fn apply_navigation(
        &mut self,
        name: String,
        path: String,
        listing: Option<Vec<ScannedEntry>>,
    ) -> (r: Result<(), NavError>)
        ensures
            match listing {
                None => r == Result::<(), NavError>::Err(NavError::ScanFailed) && *final(self)
                    == *old(self),
                Some(raw) => {
                    &&& r == Result::<(), NavError>::Ok(())
                    &&& final(self)@.dir.name == name@
                    &&& final(self)@.dir.path == path@
                    &&& final(self)@.dir.files.to_multiset() == files_of(
                        raw.deep_view(),
                        old(self)@.show_hidden_files,
                    ).to_multiset()
                    &&& final(self)@.dir.subdirectories.to_multiset() == subdirs_of(
                        raw.deep_view(),
                        old(self)@.show_hidden_files,
                    ).to_multiset()
                    &&& final(self)@.cursor == (if final(self)@.llen() > 0 {
                        Some(0usize)
                    } else {
                        None::<usize>
                    })
                    &&& final(self)@.preview == old(self)@.preview
                    &&& final(self)@.modal == old(self)@.modal
                    &&& final(self)@.clipboard == old(self)@.clipboard
                    &&& final(self)@.show_hidden_files == old(self)@.show_hidden_files
                    &&& final(self)@.exit == old(self)@.exit
                    &&& final(self)@.wf()
                },
            },
    {
        match listing {
            None => Err(NavError::ScanFailed),
            Some(raw) => {
                let mut d = Directory::new(name, path);
                match d.scan_and_add(Some(raw), self.show_hidden_files) {
                    Ok(()) => {},
                    Err(_) => vstd::pervasive::unreached(),
                }
                self.dir = d;
                let n = self.listing_len();
                self.cursor = Cursor { selected: if n > 0 { Some(0) } else { None } };
                Ok(())
            },
        }
    }

    /// Rebuilds the current directory's contents from a fresh
    /// enumeration and re-validates the selection against the new
    /// listing; on a failed enumeration the prior contents are kept,
    /// byte for byte.
    pub fn apply_rescan(&mut self, listing: Option<Vec<ScannedEntry>>) -> (r: Result<
        (),
        ScanError,
    >)
        ensures
            match listing {
                None => r == Result::<(), ScanError>::Err(ScanError::Unreadable) && *final(self)
                    == *old(self),
                Some(raw) => {
                    &&& r == Result::<(), ScanError>::Ok(())
                    &&& final(self)@.dir.name == old(self)@.dir.name
                    &&& final(self)@.dir.path == old(self)@.dir.path
                    &&& final(self)@.dir.files.to_multiset() == files_of(
                        raw.deep_view(),
                        old(self)@.show_hidden_files,
                    ).to_multiset()
                    &&& final(self)@.dir.subdirectories.to_multiset() == subdirs_of(
                        raw.deep_view(),
                        old(self)@.show_hidden_files,
                    ).to_multiset()
                    &&& final(self)@.cursor == clamp_sel(old(self)@.cursor, final(self)@.llen())
                    &&& final(self)@.preview == old(self)@.preview
                    &&& final(self)@.modal == old(self)@.modal
                    &&& final(self)@.clipboard == old(self)@.clipboard
                    &&& final(self)@.show_hidden_files == old(self)@.show_hidden_files
                    &&& final(self)@.exit == old(self)@.exit
                    &&& final(self)@.wf()
                },
            },
    {
        match self.dir.scan_and_add(listing, self.show_hidden_files) {
            Err(e) => Err(e),
            Ok(()) => {
                let n = self.listing_len();
                self.cursor.clamp(n);
                Ok(())
            },
        }
    }

    /// Installs the preview panel's contents from a fresh enumeration of
    /// the highlighted subdirectory, or clears it when the enumeration
    /// failed. Nothing else changes.
    pub fn apply_preview(&mut self, name: String, path: String, listing: Option<Vec<ScannedEntry>>)
        ensures
            final(self)@ == (SessionV { preview: final(self)@.preview, ..old(self)@ }),
            match listing {
                None => final(self)@.preview is None,
                Some(raw) => match final(self)@.preview {
                    Some(p) => {
                        &&& p.name == name@
                        &&& p.path == path@
                        &&& p.wf()
                        &&& p.files.to_multiset() == files_of(
                            raw.deep_view(),
                            old(self)@.show_hidden_files,
                        ).to_multiset()
                        &&& p.subdirectories.to_multiset() == subdirs_of(
                            raw.deep_view(),
                            old(self)@.show_hidden_files,
                        ).to_multiset()
                    },
                    None => false,
                },
            },
    {
        match listing {
            None => {
                self.preview = None;
            },
            Some(raw) => {
                let mut d = Directory::new(name, path);
                match d.scan_and_add(Some(raw), self.show_hidden_files) {
                    Ok(()) => {
                        self.preview = Some(d);
                    },
                    Err(_) => vstd::pervasive::unreached(),
                }
            },
        }
    }

    /// Empties the preview panel.
    pub fn clear_preview(&mut self)
        ensures
            final(self)@ == (SessionV { preview: None, ..old(self)@ }),
    {
        self.preview = None;
    }
}

/// Law: pasting with a pending mark always asks the host to copy the
/// marked source into the current directory under the source's base
/// name, removes the source exactly when the mark was a cut, and clears
/// the mark; without a mark it asks nothing and changes nothing.
pub proof fn lemma_paste_plan(pre: SessionV, post: SessionV, eff: EffectV)
    requires
        pre.modal is Browsing,
        step(pre, Intent::Paste, post, eff),
    ensures
        match pre.clipboard {
            Some(c) => post == (SessionV { clipboard: None, ..pre }) && eff
                == (EffectV::PastePath {
                from: c.path,
                to: pre.dir.path + "/"@ + basename_of(c.path),
                remove_source: c.cut,
            }),
            None => post == pre && eff is Done,
        },
{
}

/// Law: while any modal is active, every intent other than text input,
/// backspace, confirm and cancel leaves the whole session untouched and
/// asks nothing of the host.
pub proof fn lemma_modal_exclusivity(pre: SessionV, intent: Intent, post: SessionV, eff: EffectV)
    requires
        step(pre, intent, post, eff),
        !(pre.modal is Browsing),
        !(intent is TextInput),
        !(intent is Backspace),
        !(intent is Confirm),
        !(intent is Cancel),
    ensures
        post == pre,
        eff is Done,
{
}

} // verus!

//! The editor controller: the mode state machine and the viewport, and the
//! dispatch of parsed commands to buffer mutation, save, mode toggling or
//! termination. Everything irreversible — process exit, filesystem writes —
//! is handed to the driver as a signal, never performed here.

use crate::command::Command;
use crate::file::{spec_line_count, File};
use crate::view::{delete_rel, insert_new_line_rel, insert_rel, navigate_rel, View};
use vstd::prelude::*;
use vstd::string::StringExecFns;
use vstd::view::View as _;

verus! {

/// Mode of the editor: governs how key events are interpreted.
#[derive(Clone, Copy, PartialEq, Eq, Structural, Debug)]
pub enum Mode {
    /// Normal mode: keys navigate, save, toggle or quit.
    Normal,
    /// Insert mode: keys edit the buffer.
    Insert,
}

/// The mode a toggle switches to.
pub open spec fn spec_toggle(m: Mode) -> Mode {
    match m {
        Mode::Normal => Mode::Insert,
        Mode::Insert => Mode::Normal,
    }
}

/// Mode involution: toggling twice from any starting mode returns to the
/// original mode.
pub proof fn lemma_toggle_involution(m: Mode)
    ensures
        spec_toggle(spec_toggle(m)) == m,
{
}

/// What the controller asks its driver to do after executing a command.
pub enum Signal {
    /// Keep processing events.
    Continue,
    /// Restore the terminal, then end the process with success.
    Terminate,
    /// Persist `content` at `path`: write it to a temporary path beside the
    /// target, then atomically rename the temporary path onto the target.
    SaveRequest {
        /// The target path.
        path: String,
        /// The exact bytes to persist: the serialized buffer, nothing more.
        content: Vec<u8>,
    },
    /// A save was asked for, but no file path is associated with the buffer;
    /// the condition is surfaced, not silently dropped.
    SavePathMissing,
}

/// The contents a save attempt leaves at the target path, given the contents
/// `before` the attempt, the new `content`, and whether the temporary write
/// and the rename succeed. The target changes only through the rename; the
/// driver attempts the rename only after the write succeeded (see
/// `rename_permitted`); and a rename atomically installs the full new
/// contents or, failing, leaves the target as it was.
pub open spec fn save_target_after(
    before: Option<Seq<u8>>,
    content: Seq<u8>,
    write_ok: bool,
    rename_ok: bool,
) -> Option<Seq<u8>> {
    if write_ok && rename_ok {
        Some(content)
    } else {
        before
    }
}

/// The temporary path a save writes to, beside its target: the target path
/// with `.tmp` appended.
pub fn temp_path(path: &str) -> (r: String)
    ensures
        r@ == path@ + ".tmp"@,
{
    let mut t = path.to_owned();
    t.append(".tmp");
    t
}

/// Whether the rename step of a save may run: exactly when the write of the
/// temporary file succeeded. A failed write aborts the save before anything
/// touches the target path.
pub fn rename_permitted(write_ok: bool) -> (r: bool)
    ensures
        r == write_ok,
{
    write_ok
}

/// Executable model of the save protocol, for exercising its guarantee: the
/// target is replaced only when the write succeeded and the rename then
/// succeeds; otherwise it keeps its previous contents.
pub fn save_protocol(
    target: Option<Vec<u8>>,
    content: Vec<u8>,
    write_ok: bool,
    rename_ok: bool,
) -> (r: Option<Vec<u8>>)
    ensures
        r.deep_view() == save_target_after(target.deep_view(), content@, write_ok, rename_ok),
{
    if rename_permitted(write_ok) && rename_ok {
        Some(content)
    } else {
        target
    }
}

/// Atomic save: if the write step fails, the target's contents after the
/// attempt equal its contents before the attempt; and whatever fails, the
/// target holds either its old contents or the full new contents, never a
/// mixture.
pub proof fn lemma_save_atomic(
    before: Option<Seq<u8>>,
    content: Seq<u8>,
    write_ok: bool,
    rename_ok: bool,
)
    ensures
        !write_ok ==> save_target_after(before, content, write_ok, rename_ok) == before,
        save_target_after(before, content, write_ok, rename_ok) == before || save_target_after(
            before,
            content,
            write_ok,
            rename_ok,
        ) == Some(content),
{
}

/// The state of the program: the file being edited, the view over it, and
/// the interpretation mode.
pub struct Editor {
    /// The path of the file being edited, if any.
    pub file_name: Option<String>,
    /// The current view of the file.
    pub view: View,
    /// The mode of the editor.
    pub mode: Mode,
}

impl Editor {
    pub open spec fn wf(self) -> bool {
        self.view.wf()
    }

    /// A fresh editor: an empty buffer in a 10-by-20 window at the origin,
    /// cursor at the origin, Normal mode, and the given file name, if any.
    pub fn new(file_name: Option<&str>) -> (r: Editor)
        ensures
            r.wf(),
            r.mode == Mode::Normal,
            r.file_name.deep_view() == file_name.deep_view(),
            r.view.file.lines_model() == Seq::<Seq<u8>>::empty(),
            !r.view.file.trailing_newline,
            r.view.height == 10 && r.view.width == 20,
            r.view.start_line == 0 && r.view.start_col == 0,
            r.view.cursor.0 == 0 && r.view.cursor.1 == 0,
    {
        let name = match file_name {
            Some(s) => Some(s.to_owned()),
            None => None,
        };
        Editor { file_name: name, view: View::new(File::new(), 10, 20), mode: Mode::Normal }
    }

    /// The editor state for an opened file: the buffer split from `data`, in
    /// the same fresh window as `new`, with `path` recorded for saves.
    /// Reading the bytes from disk is the driver's task; a path that cannot
    /// be read aborts startup there and no editor state is built.
    pub fn with_content(path: &str, data: &[u8]) -> (r: Editor)
        ensures
            r.wf(),
            r.mode == Mode::Normal,
            r.file_name.deep_view() == Some(path@),
            r.view.file.serialize() == data@,
            r.view.file.lines_model().len() == spec_line_count(data@),
            r.view.file.trailing_newline == (data@.len() > 0 && data@.last()
                == crate::file::NEWLINE),
            r.view.height == 10 && r.view.width == 20,
            r.view.start_line == 0 && r.view.start_col == 0,
            r.view.cursor.0 == 0 && r.view.cursor.1 == 0,
    {
        Editor {
            file_name: Some(path.to_owned()),
            view: View::new(File::from_bytes(data), 10, 20),
            mode: Mode::Normal,
        }
    }

    /// Applies one command to the editor state and says what the driver must
    /// do next: quitting and saving are returned as signals, every other
    /// command mutates the viewport or the mode in place.
    pub fn execute(&mut self, cmd: Command) -> (r: Signal)
        ensures
            old(self).wf() ==> final (self).wf(),
            match cmd {
                Command::Quit => *final (self) == *old(self) && (r is Terminate),
                Command::Move(dx, dy) => {
                    &&& final (self).mode == old(self).mode
                    &&& final (self).file_name == old(self).file_name
                    &&& navigate_rel(old(self).view, dx as int, dy as int, final (self).view)
                    &&& r is Continue
                },
                Command::Save => {
                    &&& *final (self) == *old(self)
                    &&& match old(self).file_name {
                        Some(p) => r matches Signal::SaveRequest { path, content } && path@ == p@
                            && content@ == old(self).view.file.serialize(),
                        None => r is SavePathMissing,
                    }
                },
                Command::ToggleMode => {
                    &&& final (self).mode == spec_toggle(old(self).mode)
                    &&& final (self).view == old(self).view
                    &&& final (self).file_name == old(self).file_name
                    &&& r is Continue
                },
                Command::Insert(c) => {
                    &&& final (self).mode == old(self).mode
                    &&& final (self).file_name == old(self).file_name
                    &&& insert_rel(old(self).view, c, final (self).view)
                    &&& r is Continue
                },
                Command::InsertNewLine => {
                    &&& final (self).mode == old(self).mode
                    &&& final (self).file_name == old(self).file_name
                    &&& insert_new_line_rel(old(self).view, final (self).view)
                    &&& r is Continue
                },
                Command::Delete => {
                    &&& final (self).mode == old(self).mode
                    &&& final (self).file_name == old(self).file_name
                    &&& delete_rel(old(self).view, final (self).view)
                    &&& r is Continue
                },
            },
    {
        match cmd {
            Command::Quit => Signal::Terminate,
            Command::Move(dx, dy) => {
                self.view.navigate(dx, dy);
                Signal::Continue
            },
            Command::Save => {
                match &self.file_name {
                    Some(path) => {
                        let content = self.view.dump_file();
                        Signal::SaveRequest { path: path.clone(), content }
                    },
                    None => Signal::SavePathMissing,
                }
            },
            Command::ToggleMode => {
                self.mode = match self.mode {
                    Mode::Normal => Mode::Insert,
                    Mode::Insert => Mode::Normal,
                };
                Signal::Continue
            },
            Command::Insert(c) => {
                self.view.insert(c);
                Signal::Continue
            },
            Command::InsertNewLine => {
                self.view.insert_new_line();
                Signal::Continue
            },
            Command::Delete => {
                self.view.delete();
                Signal::Continue
            },
        }
    }
}

} // verus!

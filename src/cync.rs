use vstd::prelude::*;

use crate::config::Config;
use crate::digest::{digest_text, hex_text};
use crate::error::Error;
use crate::files::{pullable, pushable, FileKind, FileState, FileViewer};
use crate::sync::{pull_from_remote, push_to_remote, Download, Upload};

verus! {

/// What the interface is doing.
#[derive(Debug)]
pub enum Mode {
    /// Browsing the list of files.
    Default,
    /// A file was selected; its classification, as it was when selected,
    /// waits for the user's decision.
    PendingAction(FileKind),
    /// There are no files at all.
    NoFilesFound,
}

/// A key the user pressed, as far as the interface tells keys apart.
#[derive(Debug, Clone, Copy, PartialEq, Eq, Structural)]
pub enum Key {
    Char(char),
    Enter,
    Other,
}

/// What the caller has to do after a key press.
#[derive(Debug, Clone, Copy, PartialEq, Eq, Structural)]
pub enum Action {
    Nothing,
    Quit,
    /// Push the file at this position, then reload.
    Push(usize),
    /// Pull the file at this position, then reload.
    Pull(usize),
}

/// The browsing and decision state over one reconciliation.
pub struct Cync {
    pub mode: Mode,
    pub config: Config,
    pub files: FileViewer,
    /// The highlighted row.
    pub cursor: usize,
    /// The row whose file waits for a decision.
    pub selected_file: Option<usize>,
}

/// The name the browsing state had in earlier versions.
pub type App = Cync;

/// The snapshot held by a pending decision.
pub open spec fn pending_state(m: Mode) -> Option<FileState> {
    match m {
        Mode::PendingAction(k) => Some(k@),
        _ => None,
    }
}

/// The row after `c` among `n` rows, wrapping round; 0 when there are none.
pub open spec fn next_index(c: nat, n: nat) -> nat {
    if n == 0 {
        0
    } else {
        (c + 1) % (n as int) as nat
    }
}

/// The row before `c` among `n` rows, wrapping round; 0 when there are none.
pub open spec fn prev_index(c: nat, n: nat) -> nat {
    if n == 0 {
        0
    } else if c == 0 {
        (n - 1) as nat
    } else {
        (c - 1) as nat
    }
}

/// The number of columns a text takes on a terminal.
pub uninterp spec fn display_width(s: Seq<char>) -> nat;

/// Relies on UnicodeWidthStr::width: the columns the text takes, which
/// depend on its characters alone.
#[verifier::external_body]
fn text_width(s: &str) -> (r: usize)
    ensures
        r == display_width(s@),
{
    unicode_width::UnicodeWidthStr::width(s)
}

pub open spec fn max_nat(a: nat, b: nat) -> nat {
    if a >= b {
        a
    } else {
        b
    }
}

/// The width of the digest of the local side, 0 where there is none.
pub open spec fn local_digest_width(s: FileState) -> nat {
    match s {
        FileState::RemoteOnly { .. } => 0,
        FileState::LocalOnly { digest, .. } => display_width(hex_text(digest as nat, 32)),
        FileState::Present { local_digest, .. } => display_width(hex_text(local_digest as nat, 32)),
    }
}

/// The width of the digest of the remote side, 0 where there is none.
pub open spec fn remote_digest_width(s: FileState) -> nat {
    match s {
        FileState::RemoteOnly { digest, .. } => display_width(hex_text(digest as nat, 32)),
        FileState::LocalOnly { .. } => 0,
        FileState::Present { remote_digest, .. } => display_width(hex_text(remote_digest as nat, 32)),
    }
}

/// The widest path of `s`.
pub open spec fn path_column(s: Seq<(Seq<char>, FileState)>) -> nat
    decreases s.len(),
{
    if s.len() == 0 {
        0
    } else {
        max_nat(path_column(s.drop_last()), display_width(s.last().0))
    }
}

/// The widest local digest of `s`.
pub open spec fn local_column(s: Seq<(Seq<char>, FileState)>) -> nat
    decreases s.len(),
{
    if s.len() == 0 {
        0
    } else {
        max_nat(local_column(s.drop_last()), local_digest_width(s.last().1))
    }
}

/// The widest remote digest of `s`.
pub open spec fn remote_column(s: Seq<(Seq<char>, FileState)>) -> nat
    decreases s.len(),
{
    if s.len() == 0 {
        0
    } else {
        max_nat(remote_column(s.drop_last()), remote_digest_width(s.last().1))
    }
}

/// `w` as a column width, saturating at `u16::MAX`.
pub open spec fn clamp_u16(w: nat) -> u16 {
    if w > u16::MAX {
        u16::MAX
    } else {
        w as u16
    }
}

fn to_u16(w: usize) -> (r: u16)
    ensures
        r == clamp_u16(w as nat),
{
    if w > 65535 {
        65535
    } else {
        w as u16
    }
}

impl Cync {
    /// The cursor is on a row (0 when there are
    /// none), the mode is `NoFilesFound` exactly when there are no files, and
    /// a decision is pending exactly when a row is selected.
    pub open spec fn wf(&self) -> bool {
        &&& (self.files@.len() == 0 ==> self.cursor == 0)
        &&& (self.files@.len() > 0 ==> self.cursor < self.files@.len())
        &&& (self.mode is NoFilesFound <==> self.files@.len() == 0)
        &&& (self.mode is PendingAction <==> self.selected_file is Some)
        &&& (self.selected_file is Some ==> self.selected_file.unwrap() < self.files@.len())
    }

    /// The state after a scan: browsing from the first row, or
    /// `NoFilesFound` when there are no files.
    pub fn new(config: Config, files: FileViewer) -> (r: Cync)
        ensures
            r.wf(),
            r.files@ == files@,
            r.config == config,
            r.cursor == 0,
            r.selected_file is None,
            files@.len() == 0 ==> r.mode is NoFilesFound,
            files@.len() > 0 ==> r.mode is Default,
    {
        let mode = if files.is_empty() {
            Mode::NoFilesFound
        } else {
            Mode::Default
        };
        Cync { mode, config, files, cursor: 0, selected_file: None }
    }

    /// Replaces the files with a new reconciliation and goes back to
    /// browsing. The cursor stays where it was if that row still exists, and
    /// moves to the last row otherwise.
    pub fn reload_files(&mut self, files: FileViewer)
        requires
            old(self).wf(),
        ensures
            final(self).wf(),
            final(self).files@ == files@,
            final(self).config == old(self).config,
            final(self).selected_file is None,
            files@.len() == 0 ==> final(self).mode is NoFilesFound && final(self).cursor == 0,
            files@.len() > 0 ==> final(self).mode is Default,
            files@.len() > 0 && old(self).cursor < files@.len() ==> final(self).cursor
                == old(self).cursor,
            files@.len() > 0 && old(self).cursor >= files@.len() ==> final(self).cursor
                == files@.len() - 1,
    {
        let n = files.len();
        self.files = files;
        self.selected_file = None;
        if n == 0 {
            self.mode = Mode::NoFilesFound;
            self.cursor = 0;
        } else {
            self.mode = Mode::Default;
            if self.cursor >= n {
                self.cursor = n - 1;
            }
        }
    }

    pub fn view_files(&self) -> (r: &FileViewer)
        ensures
            r == &self.files,
    {
        &self.files
    }

    /// Selects row `index`: its classification is kept as it is now, and
    /// waits for a decision.
    pub fn select_file(&mut self, index: usize)
        requires
            old(self).wf(),
            index < old(self).files@.len(),
        ensures
            final(self).wf(),
            pending_state(final(self).mode) == Some(old(self).files@[index as int].1),
            final(self).selected_file == Some(index),
            final(self).files == old(self).files,
            final(self).config == old(self).config,
            final(self).cursor == old(self).cursor,
    {
        let (_, kind) = self.files.nth(index);
        self.mode = Mode::PendingAction(kind.snapshot());
        self.selected_file = Some(index);
    }

    /// Leaves a pending decision without acting on it.
    pub fn cancel(&mut self)
        requires
            old(self).wf(),
        ensures
            final(self).wf(),
            final(self).files == old(self).files,
            final(self).config == old(self).config,
            final(self).cursor == old(self).cursor,
            final(self).selected_file is None,
            old(self).mode is PendingAction ==> final(self).mode is Default,
            !(old(self).mode is PendingAction) ==> final(self).mode == old(self).mode,
    {
        if let Mode::PendingAction(_) = self.mode {
            self.mode = Mode::Default;
        }
        self.selected_file = None;
    }

    /// Moves the cursor up one row, wrapping round to the last.
    pub fn prev_file(&mut self)
        requires
            old(self).wf(),
        ensures
            final(self).wf(),
            final(self).cursor == prev_index(old(self).cursor as nat, old(self).files@.len()),
            final(self).files == old(self).files,
            final(self).config == old(self).config,
            final(self).mode == old(self).mode,
            final(self).selected_file == old(self).selected_file,
    {
        let n = self.files.len();
        if n == 0 {
            self.cursor = 0;
        } else if self.cursor == 0 {
            self.cursor = n - 1;
        } else {
            self.cursor = self.cursor - 1;
        }
    }

    /// Moves the cursor down one row, wrapping round to the first.
    pub fn next_file(&mut self)
        requires
            old(self).wf(),
        ensures
            final(self).wf(),
            final(self).cursor == next_index(old(self).cursor as nat, old(self).files@.len()),
            final(self).files == old(self).files,
            final(self).config == old(self).config,
            final(self).mode == old(self).mode,
            final(self).selected_file == old(self).selected_file,
    {
        let n = self.files.len();
        if n == 0 {
            self.cursor = 0;
        } else if self.cursor >= n - 1 {
            assert((n as int) % (n as int) == 0) by (nonlinear_arith)
                requires
                    n > 0,
            ;
            self.cursor = 0;
        } else {
            proof {
                vstd::arithmetic::div_mod::lemma_small_mod((self.cursor + 1) as nat, n as nat);
            }
            self.cursor = self.cursor + 1;
        }
    }

    /// The upload that pushes the file at row `index` to the remote store,
    /// or `NothingToPush` where it exists only remotely.
    pub fn push_file_to_remote(&self, index: usize) -> (r: Result<Upload, Error>)
        requires
            self.wf(),
            index < self.files@.len(),
        ensures
            r is Err <==> self.files@[index as int].1 is RemoteOnly,
            r is Err ==> r == Err::<Upload, Error>(Error::NothingToPush),
            r is Ok ==> r->Ok_0.bucket@ == self.config.remote_directory_name@ && r->Ok_0.key@
                == self.files@[index as int].0 && r->Ok_0.contents@ == crate::sync::local_bytes(
                self.files@[index as int].1,
            ).unwrap(),
    {
        let (path, kind) = self.files.nth(index);
        push_to_remote(self.config.remote_directory(), path, kind)
    }

    /// The write that pulls the file at row `index` into the local
    /// directory, or `NothingToPull` where it exists only locally.
    pub fn pull_file_from_remote(&self, index: usize) -> (r: Result<Download, Error>)
        requires
            self.wf(),
            index < self.files@.len(),
        ensures
            r is Err <==> self.files@[index as int].1 is LocalOnly,
            r is Err ==> r == Err::<Download, Error>(Error::NothingToPull),
            r is Ok ==> r->Ok_0.target@ == crate::sync::joined(
                self.config.local_directory_name@,
                self.files@[index as int].0,
            ) && r->Ok_0.contents@ == crate::sync::remote_bytes(
                self.files@[index as int].1,
            ).unwrap(),
    {
        let (path, kind) = self.files.nth(index);
        pull_from_remote(self.config.local_directory(), path, kind)
    }

    /// The widths of the three columns: the widest path, the widest local
    /// digest and the widest remote digest, each saturating at `u16::MAX`.
    pub fn constraint_len_calculator(&self) -> (r: (u16, u16, u16))
        ensures
            r.0 == clamp_u16(path_column(self.files@)),
            r.1 == clamp_u16(local_column(self.files@)),
            r.2 == clamp_u16(remote_column(self.files@)),
    {
        let n = self.files.len();
        let mut path_len: usize = 0;
        let mut local_len: usize = 0;
        let mut remote_len: usize = 0;
        let mut i: usize = 0;
        while i < n
            invariant
                i <= n,
                n == self.files@.len(),
                path_len == path_column(self.files@.subrange(0, i as int)),
                local_len == local_column(self.files@.subrange(0, i as int)),
                remote_len == remote_column(self.files@.subrange(0, i as int)),
            decreases n - i,
        {
            let ghost prefix = self.files@.subrange(0, i as int);
            let ghost next = self.files@.subrange(0, i + 1);
            assert(next.drop_last() =~= prefix);
            let (path, kind) = self.files.nth(i);
            let w = text_width(path.as_str());
            if w > path_len {
                path_len = w;
            }
            match kind {
                FileKind::OnlyInRemote { hash, .. } => {
                    let t = digest_text(*hash);
                    let w = text_width(t.as_str());
                    if w > remote_len {
                        remote_len = w;
                    }
                },
                FileKind::OnlyInLocal { hash, .. } => {
                    let t = digest_text(*hash);
                    let w = text_width(t.as_str());
                    if w > local_len {
                        local_len = w;
                    }
                },
                FileKind::ExistsInBoth { local_hash, remote_hash, .. } => {
                    let t = digest_text(*local_hash);
                    let w = text_width(t.as_str());
                    if w > local_len {
                        local_len = w;
                    }
                    let t = digest_text(*remote_hash);
                    let w = text_width(t.as_str());
                    if w > remote_len {
                        remote_len = w;
                    }
                },
            }
            i = i + 1;
        }
        assert(self.files@.subrange(0, n as int) =~= self.files@);
        (to_u16(path_len), to_u16(local_len), to_u16(remote_len))
    }

    /// Reacts to a key. While browsing: `q` quits, `j` and `k` move down and
    /// up, Enter selects the row under the cursor. While a decision is
    /// pending: `q` cancels it, `t` asks for a push and `f` for a pull where
    /// that is offered for the selected file. With no files only `q` does
    /// anything. A push or a pull leaves the state as it is: the caller
    /// performs it and then reloads.
    pub fn handle_key(&mut self, key: Key) -> (r: Action)
        requires
            old(self).wf(),
        ensures
            final(self).wf(),
            final(self).files == old(self).files,
            final(self).config == old(self).config,
            old(self).mode is Default ==> {
                &&& key == Key::Char('q') ==> r == Action::Quit && *final(self) == *old(self)
                &&& key == Key::Char('j') ==> r == Action::Nothing && final(self).cursor
                    == next_index(old(self).cursor as nat, old(self).files@.len())
                    && final(self).mode is Default && final(self).selected_file is None
                &&& key == Key::Char('k') ==> r == Action::Nothing && final(self).cursor
                    == prev_index(old(self).cursor as nat, old(self).files@.len())
                    && final(self).mode is Default && final(self).selected_file is None
                &&& key == Key::Enter ==> r == Action::Nothing && pending_state(final(self).mode)
                    == Some(old(self).files@[old(self).cursor as int].1) && final(self).selected_file
                    == Some(old(self).cursor) && final(self).cursor == old(self).cursor
                &&& key != Key::Char('q') && key != Key::Char('j') && key != Key::Char('k') && key
                    != Key::Enter ==> r == Action::Nothing && *final(self) == *old(self)
            },
            old(self).mode is NoFilesFound ==> *final(self) == *old(self) && (key == Key::Char('q')
                ==> r == Action::Quit) && (key != Key::Char('q') ==> r == Action::Nothing),
            old(self).mode is PendingAction ==> {
                let s = pending_state(old(self).mode).unwrap();
                let i = old(self).selected_file.unwrap();
                &&& key == Key::Char('q') ==> r == Action::Nothing && final(self).mode is Default
                    && final(self).selected_file is None && final(self).cursor == old(self).cursor
                &&& key == Key::Char('t') ==> *final(self) == *old(self) && (pushable(s) ==> r
                    == Action::Push(i)) && (!pushable(s) ==> r == Action::Nothing)
                &&& key == Key::Char('f') ==> *final(self) == *old(self) && (pullable(s) ==> r
                    == Action::Pull(i)) && (!pullable(s) ==> r == Action::Nothing)
                &&& key != Key::Char('q') && key != Key::Char('t') && key != Key::Char('f') ==> r
                    == Action::Nothing && *final(self) == *old(self)
            },
    {
        match &self.mode {
            Mode::Default => match key {
                Key::Char('q') => Action::Quit,
                Key::Char('j') => {
                    self.next_file();
                    Action::Nothing
                },
                Key::Char('k') => {
                    self.prev_file();
                    Action::Nothing
                },
                Key::Enter => {
                    let c = self.cursor;
                    self.select_file(c);
                    Action::Nothing
                },
                _ => Action::Nothing,
            },
            Mode::NoFilesFound => match key {
                Key::Char('q') => Action::Quit,
                _ => Action::Nothing,
            },
            Mode::PendingAction(kind) => match key {
                Key::Char('q') => {
                    self.cancel();
                    Action::Nothing
                },
                Key::Char('t') => {
                    if kind.can_push() {
                        Action::Push(self.selected_file.unwrap())
                    } else {
                        Action::Nothing
                    }
                },
                Key::Char('f') => {
                    if kind.can_pull() {
                        Action::Pull(self.selected_file.unwrap())
                    } else {
                        Action::Nothing
                    }
                },
                _ => Action::Nothing,
            },
        }
    }
}

} // verus!

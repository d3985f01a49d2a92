use vstd::prelude::*;

use crate::bundles::{after_read, Bundle, BundleView, Note};
use crate::selection::{next_spec, prev_spec, Selection};

verus! {

/// Where the browser is in its life.
#[derive(Clone, Copy, Debug, PartialEq, Eq, Structural)]
pub enum BasaltState {
    Init,
    Running,
    Exiting,
}

/// A key pressed by the user, as far as the browser tells keys apart.
#[derive(Clone, Copy, Debug, PartialEq, Eq, Structural)]
pub enum Key {
    Char(char),
    Up,
    Down,
    Esc,
    Other,
}

/// What a key asks the browser to do.
#[derive(Clone, Copy, Debug, PartialEq, Eq, Structural)]
pub enum Command {
    Quit,
    SelectNext,
    SelectPrev,
    Refresh,
    Nothing,
}

/// `q` or Esc quits, `j` or Down moves forward, `k` or Up moves back, `r`
/// rescans the bundle; any other key does nothing.
pub open spec fn command_spec(key: Key) -> Command {
    match key {
        Key::Esc => Command::Quit,
        Key::Down => Command::SelectNext,
        Key::Up => Command::SelectPrev,
        Key::Char(c) => if c == 'q' {
            Command::Quit
        } else if c == 'j' {
            Command::SelectNext
        } else if c == 'k' {
            Command::SelectPrev
        } else if c == 'r' {
            Command::Refresh
        } else {
            Command::Nothing
        },
        Key::Other => Command::Nothing,
    }
}

/// The command a key stands for.
pub fn command_for(key: Key) -> (r: Command)
    ensures
        r == command_spec(key),
{
    match key {
        Key::Esc => Command::Quit,
        Key::Down => Command::SelectNext,
        Key::Up => Command::SelectPrev,
        Key::Char(c) => {
            if c == 'q' {
                Command::Quit
            } else if c == 'j' {
                Command::SelectNext
            } else if c == 'k' {
                Command::SelectPrev
            } else if c == 'r' {
                Command::Refresh
            } else {
                Command::Nothing
            }
        },
        Key::Other => Command::Nothing,
    }
}

/// Whether a cursor points into a bundle of `len` notes, or at nothing.
pub open spec fn fits(s: Selection, len: nat) -> bool {
    match s {
        Selection::Unselected => true,
        Selection::Selected(i) => i < len,
    }
}

/// The cursor kept on a bundle of `len` notes that replaces the one it moved
/// over: an index past the end moves to the last note, and with no notes at
/// all nothing stays selected.
pub open spec fn clamp_spec(s: Selection, len: nat) -> Selection {
    match s {
        Selection::Unselected => Selection::Unselected,
        Selection::Selected(i) => if len == 0 {
            Selection::Unselected
        } else if i < len {
            s
        } else {
            Selection::Selected((len - 1) as usize)
        },
    }
}

/// The note browser: the bundle on show, the cursor over its notes and the
/// browser's state.
#[derive(Debug)]
pub struct BasaltApp {
    state: BasaltState,
    bundle: Bundle,
    selection: Selection,
}

/// What the browser holds.
pub struct BasaltAppView {
    pub state: BasaltState,
    pub bundle: BundleView,
    pub selection: Selection,
}

impl View for BasaltApp {
    type V = BasaltAppView;

    closed spec fn view(&self) -> BasaltAppView {
        BasaltAppView { state: self.state, bundle: self.bundle@, selection: self.selection }
    }
}

impl BasaltApp {
    /// The cursor always points into the bundle, or at nothing.
    #[verifier::type_invariant]
    spec fn inv(self) -> bool {
        fits(self.selection, self.bundle@.notes.len())
    }

    /// A browser over `bundle`, not started, with nothing selected.
    pub fn new(bundle: Bundle) -> (r: BasaltApp)
        ensures
            r@ == (BasaltAppView {
                state: BasaltState::Init,
                bundle: bundle@,
                selection: Selection::Unselected,
            }),
    {
        BasaltApp { state: BasaltState::Init, bundle, selection: Selection::Unselected }
    }

    /// Enters the running state.
    pub fn start(&mut self)
        ensures
            final(self)@ == (BasaltAppView { state: BasaltState::Running, ..old(self)@ }),
    {
        proof {
            use_type_invariant(&*self);
        }
        self.state = BasaltState::Running;
    }

    /// The browser's state.
    pub fn state(&self) -> (r: BasaltState)
        ensures
            r == self@.state,
    {
        self.state
    }

    /// The cursor.
    pub fn selection(&self) -> (r: Selection)
        ensures
            r == self@.selection,
            fits(r, self@.bundle.notes.len()),
    {
        proof {
            use_type_invariant(self);
        }
        self.selection
    }

    /// The bundle on show.
    pub fn bundle(&self) -> (r: &Bundle)
        ensures
            r@ == self@.bundle,
    {
        &self.bundle
    }

    /// Acts on a key: quitting moves to the exiting state, the two moves step
    /// the cursor over the bundle's notes, and the command is handed back so
    /// that a rescan can be done by the caller.
    pub fn handle_key(&mut self, key: Key) -> (r: Command)
        ensures
            r == command_spec(key),
            final(self)@ == (match r {
                Command::Quit => BasaltAppView { state: BasaltState::Exiting, ..old(self)@ },
                Command::SelectNext => BasaltAppView {
                    selection: next_spec(old(self)@.selection, old(self)@.bundle.notes.len()),
                    ..old(self)@
                },
                Command::SelectPrev => BasaltAppView {
                    selection: prev_spec(old(self)@.selection, old(self)@.bundle.notes.len()),
                    ..old(self)@
                },
                _ => old(self)@,
            }),
    {
        proof {
            use_type_invariant(&*self);
        }
        let c = command_for(key);
        match c {
            Command::Quit => {
                self.state = BasaltState::Exiting;
            },
            Command::SelectNext => {
                let len = self.bundle.len();
                let mut s = self.selection;
                s.select_next(len);
                self.selection = s;
            },
            Command::SelectPrev => {
                let len = self.bundle.len();
                let mut s = self.selection;
                s.select_prev(len);
                self.selection = s;
            },
            _ => {},
        }
        c
    }

    /// Puts a freshly scanned bundle in place of the one on show, keeping the
    /// cursor within the new notes.
    pub fn replace_bundle(&mut self, bundle: Bundle)
        ensures
            final(self)@ == (BasaltAppView {
                state: old(self)@.state,
                bundle: bundle@,
                selection: clamp_spec(old(self)@.selection, bundle@.notes.len()),
            }),
    {
        let len = bundle.len();
        let s = match self.selection {
            Selection::Unselected => Selection::Unselected,
            Selection::Selected(i) => {
                if len == 0 {
                    Selection::Unselected
                } else if i < len {
                    Selection::Selected(i)
                } else {
                    Selection::Selected(len - 1)
                }
            },
        };
        *self = BasaltApp { state: self.state, bundle, selection: s };
    }

    /// The path of the selected note's file where it has to be read before
    /// the note can be shown; nothing when no note is selected or the
    /// selected one has been read.
    pub fn note_to_read(&self) -> (r: Option<String>)
        ensures
            match self@.selection {
                Selection::Unselected => r is None,
                Selection::Selected(i) => match r {
                    Some(p) => self@.bundle.notes[i as int].content is None
                        && p@ == self@.bundle.notes[i as int].path,
                    None => self@.bundle.notes[i as int].content is Some,
                },
            },
    {
        proof {
            use_type_invariant(self);
        }
        match self.selection {
            Selection::Unselected => None,
            Selection::Selected(i) => self.bundle.note_to_read(i),
        }
    }

    /// The selected note, after offering it `read`, the outcome of reading
    /// its file (see `Bundle::get_note`); nothing when no note is selected.
    pub fn current_note<E>(&mut self, read: Option<Result<String, E>>) -> (r: Option<&Note>)
        ensures
            final(self)@.state == old(self)@.state,
            final(self)@.selection == old(self)@.selection,
            match old(self)@.selection {
                Selection::Unselected => r is None && final(self)@ == old(self)@,
                Selection::Selected(i) => r matches Some(n) && final(self)@.bundle.path == old(
                    self,
                )@.bundle.path && final(self)@.bundle.notes =~= old(self)@.bundle.notes.update(
                    i as int,
                    after_read(old(self)@.bundle.notes[i as int], read),
                ) && n@ == final(self)@.bundle.notes[i as int],
            },
    {
        proof {
            use_type_invariant(&*self);
        }
        match self.selection {
            Selection::Unselected => None,
            Selection::Selected(i) => {
                let n = self.bundle.get_note(i, read);
                n
            },
        }
    }
}

} // verus!

//! What a listing on a terminal is told by its user, as plain values.

use vstd::prelude::*;
use crate::ops::InsertMode;
use crate::text::same_text;

verus! {

/// A key of the keyboard, as far as the components tell keys apart.
#[derive(Clone, Copy, Debug, PartialEq, Eq, Structural)]
pub enum KeyCode {
    Char(char),
    Enter,
    Esc,
    Backspace,
    Left,
    Right,
    Tab,
    /// Any other key.
    Other,
}

/// One event of a key.
#[derive(Clone, Copy, Debug, PartialEq, Eq, Structural)]
pub struct Key {
    /// The key.
    pub code: KeyCode,
    /// Whether control, and nothing but control, was held.
    pub control: bool,
    /// Whether the key went down.
    pub pressed: bool,
}

/// What the user asks for on the command line of the listing.
#[derive(Clone, Copy, Debug, PartialEq, Eq, Hash, Structural)]
pub enum UserCmd {
    /// Leave, and with `force` even if changes are not saved.
    Quit { force: bool },
    /// Save the tree.
    Save,
}

impl UserCmd {
    /// The command that `s` writes, if it writes one.
    pub open spec fn parsed(s: Seq<char>) -> Option<UserCmd> {
        if s == "q"@ || s == "quit"@ {
            Some(UserCmd::Quit { force: false })
        } else if s == "q!"@ || s == "quit!"@ {
            Some(UserCmd::Quit { force: true })
        } else if s == "w"@ || s == "write"@ {
            Some(UserCmd::Save)
        } else {
            None
        }
    }

    /// Read a command: `q` or `quit`, `q!` or `quit!`, `w` or `write`.
    /// Anything else comes back as the error.
    pub fn from_str(s: &str) -> (r: Result<UserCmd, String>)
        ensures
            match UserCmd::parsed(s@) {
                Some(cmd) => r == Ok::<UserCmd, String>(cmd),
                None => r is Err && r->Err_0@ == s@,
            },
    {
        if same_text(s, "q") || same_text(s, "quit") {
            Ok(UserCmd::Quit { force: false })
        } else if same_text(s, "q!") || same_text(s, "quit!") {
            Ok(UserCmd::Quit { force: true })
        } else if same_text(s, "w") || same_text(s, "write") {
            Ok(UserCmd::Save)
        } else {
            Err(s.to_owned())
        }
    }
}

/// What the listing reports to the program behind it. Nodes are named by
/// their row.
#[derive(Debug, PartialEq, Eq)]
#[allow(inconsistent_fields)]
pub enum Event {
    /// A command was entered.
    Command(UserCmd),
    /// Expand or collapse the node.
    ToggleNode { id: usize },
    /// Put a new node named `name` at the node.
    InsertNode { id: usize, mode: InsertMode, name: String },
    /// Delete the node.
    DeleteNode { id: usize },
    /// Open the data of the node.
    OpenNodeData { id: usize },
    /// Give the node the name `rename`.
    RenameNode { id: usize, rename: String },
    /// A node was marked, or the mark was taken away.
    MarkedNode { id: Option<usize> },
}

/// The view of an [`Event`]: the same, with names as sequences of
/// characters.
#[allow(inconsistent_fields)]
pub enum EventView {
    Command(UserCmd),
    ToggleNode { id: usize },
    InsertNode { id: usize, mode: InsertMode, name: Seq<char> },
    DeleteNode { id: usize },
    OpenNodeData { id: usize },
    RenameNode { id: usize, rename: Seq<char> },
    MarkedNode { id: Option<usize> },
}

impl View for Event {
    type V = EventView;

    open spec fn view(&self) -> EventView {
        match *self {
            Event::Command(cmd) => EventView::Command(cmd),
            Event::ToggleNode { id } => EventView::ToggleNode { id },
            Event::InsertNode { id, mode, name } => EventView::InsertNode { id, mode, name: name@ },
            Event::DeleteNode { id } => EventView::DeleteNode { id },
            Event::OpenNodeData { id } => EventView::OpenNodeData { id },
            Event::RenameNode { id, rename } => EventView::RenameNode { id, rename: rename@ },
            Event::MarkedNode { id } => EventView::MarkedNode { id },
        }
    }
}

/// The view of an optional event.
pub open spec fn event_view(event: Option<Event>) -> Option<EventView> {
    match event {
        Some(e) => Some(e@),
        None => None,
    }
}

impl EventView {
    /// The event that goes out once the user has answered the question that
    /// this event was waiting on, if one goes out.
    ///
    /// An insertion and a renaming take the answer as the name. A deletion
    /// goes out if the answer is `y` or `Y`. No other event waits on an
    /// answer.
    pub open spec fn answered(self, input: Seq<char>) -> Option<EventView> {
        match self {
            EventView::InsertNode { id, mode, name } => Some(
                EventView::InsertNode { id, mode, name: input },
            ),
            EventView::DeleteNode { id } => if input == "y"@ || input == "Y"@ {
                Some(self)
            } else {
                None
            },
            EventView::RenameNode { id, rename } => Some(
                EventView::RenameNode { id, rename: input },
            ),
            _ => None,
        }
    }
}

impl Event {
    /// Give the answer of the user to the event that was waiting on it.
    pub fn accept_input(self, input: String) -> (r: Option<Event>)
        ensures
            event_view(r) == self@.answered(input@),
    {
        match self {
            Event::InsertNode { id, mode, name } => Some(Event::InsertNode { id, mode, name: input }),
            Event::DeleteNode { id } => {
                if same_text(input.as_str(), "y") || same_text(input.as_str(), "Y") {
                    Some(Event::DeleteNode { id })
                } else {
                    None
                }
            },
            Event::RenameNode { id, rename } => Some(Event::RenameNode { id, rename: input }),
            _ => None,
        }
    }
}

} // verus!

//! The command line of the listing: a prompt that opens on a colon and
//! reads a command.

use vstd::prelude::*;
use crate::event::{Key, KeyCode, UserCmd};
use crate::user_input::{
    line_reacted,
    line_takes,
    InputPrompt,
    LineView,
    PromptFeedback,
    PromptOutcome,
    UserInputPrompt,
};

verus! {

/// What the command line answers to a key.
#[derive(Debug, PartialEq, Eq)]
pub struct CmdLineFeedback {
    /// Whether the key was for the command line.
    pub handled: bool,
    /// The command that was entered with this key, or the text that was
    /// entered and is no command.
    pub entered: Option<Result<UserCmd, String>>,
}

/// The view of a [`CmdLineFeedback`].
pub struct CmdLineOutcome {
    pub handled: bool,
    pub entered: Option<Result<UserCmd, Seq<char>>>,
}

impl View for CmdLineFeedback {
    type V = CmdLineOutcome;

    open spec fn view(&self) -> CmdLineOutcome {
        CmdLineOutcome {
            handled: self.handled,
            entered: match self.entered {
                Some(Ok(cmd)) => Some(Ok(cmd)),
                Some(Err(text)) => Some(Err(text@)),
                None => None,
            },
        }
    }
}

/// The command line.
#[derive(Debug)]
pub struct CmdLine {
    input_prompt: UserInputPrompt,
}

/// The words that the command line knows.
pub open spec fn known_commands() -> Seq<Seq<char>> {
    seq!["q"@, "q!"@, "quit"@, "quit!"@, "w"@, "write"@]
}

/// What a text that was entered is read as: a command, or the text itself
/// when it is none.
pub open spec fn read_command(text: Seq<char>) -> Result<UserCmd, Seq<char>> {
    match UserCmd::parsed(text) {
        Some(cmd) => Ok(cmd),
        None => Err(text),
    }
}

/// What a command line that shows `shown` makes of `key`: what it shows
/// then, and what it answers.
///
/// While the command line is open every key goes to its prompt, and a text
/// that is entered is read as a command. While it is closed, a colon that
/// goes down opens it, and no other key is for it.
pub open spec fn cmd_line_reacted(shown: Option<LineView>, key: Key) -> (
    Option<LineView>,
    CmdLineOutcome,
) {
    if shown is Some {
        let (next, out) = line_reacted(shown, key);
        (
            next,
            CmdLineOutcome {
                handled: !(out is Unhandled),
                entered: match out {
                    PromptOutcome::Answer(Some(text)) => Some(read_command(text)),
                    _ => None,
                },
            },
        )
    } else if key.pressed && key.code == KeyCode::Char(':') {
        (
            Some(LineView::fresh(":"@, known_commands())),
            CmdLineOutcome { handled: true, entered: None },
        )
    } else {
        (None, CmdLineOutcome { handled: false, entered: None })
    }
}

impl CmdLine {
    /// The line that is being typed, if the command line is open.
    pub closed spec fn shown(&self) -> Option<LineView> {
        self.input_prompt.shown()
    }

    /// The prompt expects the known commands.
    pub closed spec fn wf(&self) -> bool {
        self.input_prompt.expected() == known_commands()
    }

    /// A command line that is closed.
    pub fn new() -> (r: CmdLine)
        ensures
            r.wf(),
            r.shown() is None,
    {
        let mut words: Vec<String> = Vec::new();
        words.push("q".to_owned());
        words.push("q!".to_owned());
        words.push("quit".to_owned());
        words.push("quit!".to_owned());
        words.push("w".to_owned());
        words.push("write".to_owned());
        proof {
            assert(words.deep_view() =~= known_commands());
        }
        CmdLine { input_prompt: UserInputPrompt::new_with_completions(words) }
    }

    /// The line that is being typed, if the command line is open.
    pub fn prompt(&self) -> (r: Option<&InputPrompt>)
        ensures
            match r {
                Some(p) => self.shown() == Some(p@),
                None => self.shown() is None,
            },
    {
        self.input_prompt.prompt()
    }

    /// Whether `key` can be given to [`CmdLine::react_raw`].
    pub fn can_take(&self, key: Key) -> (r: bool)
        ensures
            r == line_takes(self.shown(), key),
    {
        self.input_prompt.can_take(key)
    }

    /// Take a key; see [`cmd_line_reacted`].
    pub fn react_raw(&mut self, key: Key) -> (r: CmdLineFeedback)
        requires
            old(self).wf(),
            line_takes(old(self).shown(), key),
        ensures
            final(self).wf(),
            (final(self).shown(), r@) == cmd_line_reacted(old(self).shown(), key),
    {
        if self.input_prompt.is_visible() {
            match self.input_prompt.react_raw(key) {
                PromptFeedback::Answer(Some(input)) => CmdLineFeedback {
                    handled: true,
                    entered: Some(UserCmd::from_str(input.as_str())),
                },
                PromptFeedback::Answer(None) => CmdLineFeedback { handled: true, entered: None },
                PromptFeedback::Handled => CmdLineFeedback { handled: true, entered: None },
                PromptFeedback::Unhandled => CmdLineFeedback { handled: false, entered: None },
            }
        } else if key.pressed && key.code == KeyCode::Char(':') {
            self.input_prompt.show();
            CmdLineFeedback { handled: true, entered: None }
        } else {
            CmdLineFeedback { handled: false, entered: None }
        }
    }
}

} // verus!

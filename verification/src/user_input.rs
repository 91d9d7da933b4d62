//! A one-line prompt that the user types an answer into.

use vstd::prelude::*;
use vstd::utf8::encode_utf8;
use crate::event::{Key, KeyCode};
use crate::text::{push_char, same_text};

verus! {

/// The number of bytes that `text` takes in UTF-8.
pub open spec fn byte_len(text: Seq<char>) -> nat {
    encode_utf8(text).len()
}

/// A text that has a character takes a byte at least.
pub proof fn lemma_byte_len_positive(text: Seq<char>)
    requires
        text.len() > 0,
    ensures
        byte_len(text) > 0,
{
}

/// How the answer typed so far stands to the answers that are expected.
#[derive(Clone, Copy, Debug, PartialEq, Eq, Structural)]
pub enum InputStatus {
    /// No answer is expected in particular.
    Free,
    /// The answer is one of those expected.
    Known,
    /// The answer is none of those expected.
    Unknown,
}

/// The view of a line that is being typed.
pub struct LineView {
    /// The text typed so far.
    pub text: Seq<char>,
    /// The place of the cursor.
    pub cursor: nat,
    /// The title before the text.
    pub title: Seq<char>,
    /// The answers that are expected.
    pub expected: Seq<Seq<char>>,
}

impl LineView {
    /// An empty line with the cursor at its start.
    pub open spec fn fresh(title: Seq<char>, expected: Seq<Seq<char>>) -> LineView {
        LineView { text: Seq::empty(), cursor: 0, title, expected }
    }

    /// Where in the text a character typed now goes: at the cursor, or at
    /// the end when the cursor is past it.
    pub open spec fn insert_at(self) -> int {
        if self.cursor <= self.text.len() {
            self.cursor as int
        } else {
            self.text.len() as int
        }
    }

    /// The line with the cursor one place to the right, but never past the
    /// number of bytes of the text. The text is not to be empty.
    pub open spec fn right(self) -> LineView {
        LineView {
            cursor: if self.cursor <= byte_len(self.text) - 1 {
                self.cursor + 1
            } else {
                byte_len(self.text)
            },
            ..self
        }
    }

    /// The line with the cursor one place to the left, unless it is at the
    /// start.
    pub open spec fn left(self) -> LineView {
        LineView {
            cursor: if self.cursor > 0 {
                (self.cursor - 1) as nat
            } else {
                0
            },
            ..self
        }
    }

    /// The line with `c` typed where the cursor is, and the cursor moved
    /// right.
    pub open spec fn typed(self, c: char) -> LineView {
        LineView { text: self.text.insert(self.insert_at(), c), ..self }.right()
    }

    /// Whether there is a character before the cursor to take out: the line
    /// is not empty and the cursor is not at its start.
    pub open spec fn can_erase(self) -> bool {
        self.text.len() > 0 && self.cursor > 0
    }

    /// The line without the character before the cursor, and the cursor
    /// moved left; the line as it is when there is nothing to take out. The
    /// cursor is not to be past the end of the text.
    pub open spec fn erased(self) -> LineView {
        if self.can_erase() {
            LineView {
                text: self.text.remove(self.cursor - 1),
                cursor: (self.cursor - 1) as nat,
                ..self
            }
        } else {
            self
        }
    }

    /// How the text stands to the answers that are expected.
    pub open spec fn status(self) -> InputStatus {
        if self.expected.len() == 0 {
            InputStatus::Free
        } else if self.expected.contains(self.text) {
            InputStatus::Known
        } else {
            InputStatus::Unknown
        }
    }
}

/// The line that is being typed: the text, the place of the cursor in it,
/// the title before it, and the answers that are expected.
#[derive(Debug)]
pub struct InputPrompt {
    input: String,
    cursor: usize,
    title: String,
    completions: Vec<String>,
}

impl View for InputPrompt {
    type V = LineView;

    closed spec fn view(&self) -> LineView {
        LineView {
            text: self.input@,
            cursor: self.cursor as nat,
            title: self.title@,
            expected: self.completions.deep_view(),
        }
    }
}

impl InputPrompt {
    /// An empty line with the title `:`, the cursor at its start, and no
    /// answer expected.
    pub fn new() -> (r: InputPrompt)
        ensures
            r@ == LineView::fresh(":"@, Seq::empty()),
    {
        let r = InputPrompt {
            input: String::new(),
            cursor: 0,
            title: ":".to_owned(),
            completions: Vec::new(),
        };
        proof {
            assert(r@.expected =~= Seq::<Seq<char>>::empty());
        }
        r
    }

    /// The number of bytes before the `cursor`-th character of the text, or
    /// of the whole text when it has fewer characters.
    pub fn to_byte_pos(&self, cursor: usize) -> (r: usize)
        ensures
            r == byte_len(
                self@.text.take(
                    if cursor <= self@.text.len() {
                        cursor as int
                    } else {
                        self@.text.len() as int
                    },
                ),
            ),
    {
        let n: usize = self.input.as_str().unicode_len();
        let k: usize = if cursor <= n {
            cursor
        } else {
            n
        };
        self.input.as_str().substring_char(0, k).as_bytes().len()
    }

    /// Type `c` where the cursor is, and move the cursor right.
    pub fn push_char(&mut self, c: char)
        ensures
            final(self)@ == old(self)@.typed(c),
    {
        let n: usize = self.input.as_str().unicode_len();
        let k: usize = if self.cursor <= n {
            self.cursor
        } else {
            n
        };
        let mut text: String = self.input.as_str().substring_char(0, k).to_owned();
        push_char(&mut text, c);
        text.append(self.input.as_str().substring_char(k, n));
        proof {
            assert(text@ =~= self.input@.insert(k as int, c));
        }
        self.input = text;
        self.move_cursor_right();
    }

    /// Take out the character before the cursor, and move the cursor left.
    /// Nothing happens on an empty line or with the cursor at the start.
    /// Otherwise the cursor must stand in the text or at its end.
    pub fn pop_char(&mut self) -> (r: Option<char>)
        requires
            old(self)@.can_erase() ==> old(self)@.cursor <= old(self)@.text.len(),
        ensures
            final(self)@ == old(self)@.erased(),
            r == if old(self)@.can_erase() {
                Some(old(self)@.text[old(self)@.cursor - 1])
            } else {
                None
            },
    {
        let n: usize = self.input.as_str().unicode_len();
        if n == 0 || self.cursor == 0 {
            return None;
        }
        let k: usize = self.cursor - 1;
        let c: char = self.input.as_str().get_char(k);
        let mut text: String = self.input.as_str().substring_char(0, k).to_owned();
        text.append(self.input.as_str().substring_char(k + 1, n));
        proof {
            assert(text@ =~= self.input@.remove(k as int));
        }
        self.input = text;
        self.move_cursor_left();
        Some(c)
    }

    /// Move the cursor one place left, unless it is at the start.
    pub fn move_cursor_left(&mut self)
        ensures
            final(self)@ == old(self)@.left(),
    {
        if self.cursor > 0 {
            self.cursor = self.cursor - 1;
        }
    }

    /// Move the cursor one place right, but never past the number of bytes
    /// of the text. The line must not be empty.
    pub fn move_cursor_right(&mut self)
        requires
            old(self)@.text.len() > 0,
        ensures
            final(self)@ == old(self)@.right(),
    {
        proof {
            lemma_byte_len_positive(self.input@);
        }
        let last: usize = self.input.as_str().as_bytes().len() - 1;
        if self.cursor <= last {
            self.cursor = self.cursor + 1;
        } else {
            self.cursor = last + 1;
        }
    }

    /// The place of the cursor.
    pub fn cursor(&self) -> (r: usize)
        ensures
            r == self@.cursor,
    {
        self.cursor
    }

    /// The text typed so far.
    pub fn as_str(&self) -> (r: &str)
        ensures
            r@ == self@.text,
    {
        self.input.as_str()
    }

    /// The title.
    pub fn title(&self) -> (r: &str)
        ensures
            r@ == self@.title,
    {
        self.title.as_str()
    }

    /// How the text typed so far stands to the answers that are expected.
    pub fn status(&self) -> (r: InputStatus)
        ensures
            r == self@.status(),
    {
        if self.completions.len() == 0 {
            proof {
                assert(self@.expected.len() == 0);
            }
            return InputStatus::Free;
        }
        let mut i: usize = 0;
        while i < self.completions.len()
            invariant
                i <= self.completions.len(),
                self@.expected.len() == self.completions@.len(),
                forall|j: int| 0 <= j < i ==> self@.expected[j] != self@.text,
            decreases self.completions.len() - i,
        {
            if same_text(self.completions[i].as_str(), self.input.as_str()) {
                proof {
                    assert(self@.expected[i as int] == self@.text);
                }
                return InputStatus::Known;
            }
            i = i + 1;
        }
        InputStatus::Unknown
    }
}

/// What a prompt answers to a key.
#[derive(Debug, PartialEq, Eq)]
pub enum PromptFeedback {
    /// The key is not for the prompt.
    Unhandled,
    /// The prompt took the key and stays.
    Handled,
    /// The prompt took the key and closed; its answer, the text or nothing,
    /// is to be sent to whoever asked.
    Answer(Option<String>),
}

/// The view of a [`PromptFeedback`].
pub enum PromptOutcome {
    Unhandled,
    Handled,
    Answer(Option<Seq<char>>),
}

impl View for PromptFeedback {
    type V = PromptOutcome;

    open spec fn view(&self) -> PromptOutcome {
        match *self {
            PromptFeedback::Unhandled => PromptOutcome::Unhandled,
            PromptFeedback::Handled => PromptOutcome::Handled,
            PromptFeedback::Answer(Some(text)) => PromptOutcome::Answer(Some(text@)),
            PromptFeedback::Answer(None) => PromptOutcome::Answer(None),
        }
    }
}

/// Whether `key` can be given to a prompt that shows `shown`: a backspace
/// that has something to take out must find the cursor in the text or at
/// its end, and the right arrow must not come to an empty line.
pub open spec fn line_takes(shown: Option<LineView>, key: Key) -> bool {
    match shown {
        Some(p) => if !key.pressed {
            true
        } else if key.code == KeyCode::Backspace {
            p.can_erase() ==> p.cursor <= p.text.len()
        } else if key.code == KeyCode::Right {
            p.text.len() > 0
        } else {
            true
        },
        None => true,
    }
}

/// What a prompt that shows `shown` makes of `key`: what it shows then,
/// and what it answers.
///
/// Only a key that goes down while a line is shown is for the prompt.
/// Escape closes the line and answers nothing; enter closes it and answers
/// the text. A character is typed, backspace takes one out, the arrows move
/// the cursor. No other key is for the prompt.
pub open spec fn line_reacted(shown: Option<LineView>, key: Key) -> (Option<LineView>, PromptOutcome) {
    match shown {
        Some(p) if key.pressed => match key.code {
            KeyCode::Esc => (None, PromptOutcome::Answer(None)),
            KeyCode::Enter => (None, PromptOutcome::Answer(Some(p.text))),
            KeyCode::Char(c) => (Some(p.typed(c)), PromptOutcome::Handled),
            KeyCode::Backspace => (Some(p.erased()), PromptOutcome::Handled),
            KeyCode::Left => (Some(p.left()), PromptOutcome::Handled),
            KeyCode::Right => (Some(p.right()), PromptOutcome::Handled),
            _ => (shown, PromptOutcome::Unhandled),
        },
        _ => (shown, PromptOutcome::Unhandled),
    }
}

/// A prompt that is shown or not, with the answers that it expects.
#[derive(Debug)]
pub struct UserInputPrompt {
    prompt: Option<InputPrompt>,
    completions: Vec<String>,
}

impl UserInputPrompt {
    /// The line that is shown, if one is.
    pub closed spec fn shown(&self) -> Option<LineView> {
        match self.prompt {
            Some(p) => Some(p@),
            None => None,
        }
    }

    /// The answers that a line will expect when it is shown.
    pub closed spec fn expected(&self) -> Seq<Seq<char>> {
        self.completions.deep_view()
    }

    /// A prompt that shows nothing yet and expects `completions`.
    pub fn new_with_completions(completions: Vec<String>) -> (r: UserInputPrompt)
        ensures
            r.shown() is None,
            r.expected() == completions.deep_view(),
    {
        UserInputPrompt { prompt: None, completions }
    }

    /// A prompt that shows nothing yet and expects no answer in
    /// particular.
    pub fn new() -> (r: UserInputPrompt)
        ensures
            r.shown() is None,
            r.expected() == Seq::<Seq<char>>::empty(),
    {
        let r = UserInputPrompt { prompt: None, completions: Vec::new() };
        proof {
            assert(r.expected() =~= Seq::<Seq<char>>::empty());
        }
        r
    }

    /// Whether a line is shown.
    pub fn is_visible(&self) -> (r: bool)
        ensures
            r == self.shown() is Some,
    {
        self.prompt.is_some()
    }

    /// A copy of the expected answers.
    fn copy_completions(&self) -> (r: Vec<String>)
        ensures
            r.deep_view() == self.expected(),
    {
        let mut out: Vec<String> = Vec::new();
        let mut i: usize = 0;
        while i < self.completions.len()
            invariant
                i <= self.completions.len(),
                out@.len() == i,
                forall|j: int| 0 <= j < i ==> out@[j]@ == self.completions@[j]@,
            decreases self.completions.len() - i,
        {
            out.push(self.completions[i].clone());
            i = i + 1;
        }
        proof {
            assert(out.deep_view() =~= self.completions.deep_view());
        }
        out
    }

    /// Show an empty line with the title `:`.
    pub fn show(&mut self)
        ensures
            final(self).expected() == old(self).expected(),
            final(self).shown() == Some(LineView::fresh(":"@, old(self).expected())),
    {
        self.show_with_title(":");
    }

    /// Show an empty line with the title `title`.
    pub fn show_with_title(&mut self, title: &str)
        ensures
            final(self).expected() == old(self).expected(),
            final(self).shown() == Some(LineView::fresh(title@, old(self).expected())),
    {
        let prompt = InputPrompt {
            input: String::new(),
            cursor: 0,
            title: title.to_owned(),
            completions: self.copy_completions(),
        };
        self.prompt = Some(prompt);
    }

    /// The line that is shown, if one is.
    pub fn prompt(&self) -> (r: Option<&InputPrompt>)
        ensures
            match r {
                Some(p) => self.shown() == Some(p@),
                None => self.shown() is None,
            },
    {
        self.prompt.as_ref()
    }

    /// Whether `key` can be given to [`UserInputPrompt::react_raw`].
    pub fn can_take(&self, key: Key) -> (r: bool)
        ensures
            r == line_takes(self.shown(), key),
    {
        match &self.prompt {
            Some(p) => {
                let n: usize = p.input.as_str().unicode_len();
                if !key.pressed {
                    true
                } else if key.code == KeyCode::Backspace {
                    !(n > 0 && p.cursor > 0) || p.cursor <= n
                } else if key.code == KeyCode::Right {
                    n > 0
                } else {
                    true
                }
            },
            None => true,
        }
    }

    /// Take a key; see [`line_reacted`].
    pub fn react_raw(&mut self, key: Key) -> (r: PromptFeedback)
        requires
            line_takes(old(self).shown(), key),
        ensures
            final(self).expected() == old(self).expected(),
            (final(self).shown(), r@) == line_reacted(old(self).shown(), key),
    {
        if !key.pressed {
            return PromptFeedback::Unhandled;
        }
        let mut line = match self.prompt.take() {
            Some(line) => line,
            None => {
                return PromptFeedback::Unhandled;
            },
        };
        match key.code {
            KeyCode::Esc => PromptFeedback::Answer(None),
            KeyCode::Enter => PromptFeedback::Answer(Some(line.input)),
            KeyCode::Char(c) => {
                line.push_char(c);
                self.prompt = Some(line);
                PromptFeedback::Handled
            },
            KeyCode::Backspace => {
                let _ = line.pop_char();
                self.prompt = Some(line);
                PromptFeedback::Handled
            },
            KeyCode::Left => {
                line.move_cursor_left();
                self.prompt = Some(line);
                PromptFeedback::Handled
            },
            KeyCode::Right => {
                line.move_cursor_right();
                self.prompt = Some(line);
                PromptFeedback::Handled
            },
            _ => {
                self.prompt = Some(line);
                PromptFeedback::Unhandled
            },
        }
    }
}

} // verus!

//! The listing of a tree on the screen: which row is selected, how far the
//! listing is scrolled, and what the keys do.

use vstd::prelude::*;
use crate::cursor::Cursor;
use crate::event::{event_view, Event, EventView, Key, KeyCode};
use crate::graph::{Graph, Node};
use crate::node::Arena;
use crate::ops::InsertMode;
use crate::user_input::{
    line_reacted,
    line_takes,
    LineView,
    PromptFeedback,
    PromptOutcome,
    UserInputPrompt,
};

verus! {

/// A rectangle of the screen.
#[derive(Clone, Copy, Debug, PartialEq, Eq, Structural)]
pub struct Area {
    pub x: u16,
    pub y: u16,
    pub width: u16,
    pub height: u16,
}

/// What the terminal reports.
#[derive(Clone, Copy, Debug, PartialEq, Eq, Structural)]
pub enum RawEvent {
    /// A key.
    Key(Key),
    /// The terminal has a new width and a new height.
    Resize(u16, u16),
    /// Anything else.
    Other,
}

/// What the listing answers to an event of the terminal.
#[derive(Debug, PartialEq, Eq)]
pub struct TreeFeedback {
    /// Whether the event was for the listing alone.
    pub handled: bool,
    /// The event that the listing reports to the program behind it.
    pub emitted: Option<Event>,
}

/// The view of a [`TreeFeedback`].
pub struct TreeOutcome {
    pub handled: bool,
    pub emitted: Option<EventView>,
}

impl View for TreeFeedback {
    type V = TreeOutcome;

    open spec fn view(&self) -> TreeOutcome {
        TreeOutcome { handled: self.handled, emitted: event_view(self.emitted) }
    }
}

/// The first row shown once the listing is scrolled just far enough to
/// show the row `selected`, from a listing that shows `height` rows from
/// the row `top` on.
pub open spec fn scrolled(selected: int, top: int, height: int) -> int {
    if selected < top {
        selected
    } else if selected - top >= height {
        selected + 1 - height
    } else {
        top
    }
}

/// The view of a listing.
pub struct ListingView {
    /// The rectangle that the listing is drawn in.
    pub rect: Area,
    /// The root of the listing.
    pub root: Node,
    /// The row that is selected.
    pub selected: int,
    /// The node under the cursor.
    pub at: Node,
    /// The first row that is shown.
    pub top: int,
    /// The line of the prompt, if it is open.
    pub line: Option<LineView>,
    /// The event that waits on the answer to the prompt.
    pub pending: Option<EventView>,
}

impl ListingView {
    /// The cursor is on the selected row of the listing of the root, and
    /// the root has no parent.
    pub open spec fn in_step(self, g: Graph) -> bool {
        &&& g.contains(self.root)
        &&& g.parent(self.root) is None
        &&& 0 <= self.selected < g.rows(self.root).len()
        &&& g.rows(self.root)[self.selected] == self.at
        &&& g.contains(self.at)
    }

    /// The listing with the row `selected` selected, `at` under the cursor,
    /// and scrolled just far enough to show that row.
    pub open spec fn on_row(self, selected: int, at: Node) -> ListingView {
        ListingView {
            selected,
            at,
            top: scrolled(selected, self.top, self.rect.height as int),
            ..self
        }
    }

    /// The listing with the row below selected, if there is one.
    pub open spec fn below(self, g: Graph) -> ListingView {
        if self.selected + 1 < g.rows(self.root).len() {
            self.on_row(self.selected + 1, g.rows(self.root)[self.selected + 1])
        } else {
            self
        }
    }

    /// The listing with the row above selected, if there is one.
    pub open spec fn above(self, g: Graph) -> ListingView {
        if self.selected > 0 {
            self.on_row(self.selected - 1, g.rows(self.root)[self.selected - 1])
        } else {
            self
        }
    }

    /// The listing with its prompt open under `title`, and `pending`
    /// waiting on the answer.
    pub open spec fn asking(self, title: Seq<char>, pending: EventView) -> ListingView {
        ListingView {
            line: Some(LineView::fresh(title, Seq::empty())),
            pending: Some(pending),
            ..self
        }
    }

    /// The listing that asks for the name of a node to put at the selected
    /// row in the mode `mode`.
    pub open spec fn asking_to_insert(self, title: Seq<char>, mode: InsertMode) -> ListingView {
        self.asking(
            title,
            EventView::InsertNode { id: self.selected as usize, mode, name: Seq::empty() },
        )
    }

    /// Whether `event` can be given to the listing: its prompt must take
    /// the key, and the selected row must lie among the first 65534.
    pub open spec fn takes(self, event: RawEvent) -> bool {
        &&& self.selected < 0xfffe
        &&& event matches RawEvent::Key(key) ==> line_takes(self.line, key)
    }

    /// What the listing makes of `event` over the graph `g`: what it is
    /// then, and what it answers.
    ///
    /// While the prompt is open, keys go to it and every event is taken;
    /// the text that the prompt answers completes the event that was
    /// waiting, which is then reported. Otherwise `t` and `s` select the
    /// row below and above; `o`, `O`, `i` and `I` ask for the name of a
    /// node to put after, before, inside at the bottom and inside at the
    /// top; `d` asks whether to delete; tab reports that the node is to be
    /// toggled; enter reports that the node is to be opened, and is left to
    /// others as well. A new size of the terminal is taken and left to
    /// others as well.
    pub open spec fn reacted(self, event: RawEvent, g: Graph) -> (ListingView, TreeOutcome) {
        let quiet = TreeOutcome { handled: true, emitted: None };
        let ignored = TreeOutcome { handled: false, emitted: None };
        let id = self.selected as usize;
        if self.line is Some {
            match event {
                RawEvent::Key(key) => {
                    let (line, out) = line_reacted(self.line, key);
                    match out {
                        PromptOutcome::Answer(Some(text)) => (
                            ListingView { line, pending: None, ..self },
                            TreeOutcome {
                                handled: true,
                                emitted: match self.pending {
                                    Some(waiting) => waiting.answered(text),
                                    None => None,
                                },
                            },
                        ),
                        _ => (ListingView { line, ..self }, quiet),
                    }
                },
                _ => (self, quiet),
            }
        } else {
            match event {
                RawEvent::Resize(width, height) => (
                    ListingView {
                        rect: Area { width, height, ..self.rect },
                        top: scrolled(self.selected, self.top, height as int),
                        ..self
                    },
                    ignored,
                ),
                RawEvent::Key(key) => match key.code {
                    KeyCode::Char('t') => (self.below(g), quiet),
                    KeyCode::Char('s') => (self.above(g), quiet),
                    KeyCode::Char('o') => (
                        self.asking_to_insert("insert after:"@, InsertMode::After),
                        quiet,
                    ),
                    KeyCode::Char('O') => (
                        self.asking_to_insert("insert before:"@, InsertMode::Before),
                        quiet,
                    ),
                    KeyCode::Char('i') => (
                        self.asking_to_insert("insert in/bottom:"@, InsertMode::InsideBottom),
                        quiet,
                    ),
                    KeyCode::Char('I') => (
                        self.asking_to_insert("insert in/top:"@, InsertMode::InsideTop),
                        quiet,
                    ),
                    KeyCode::Char('d') => (
                        self.asking("delete node (y/N):"@, EventView::DeleteNode { id }),
                        quiet,
                    ),
                    KeyCode::Enter => (
                        self,
                        TreeOutcome {
                            handled: false,
                            emitted: Some(EventView::OpenNodeData { id }),
                        },
                    ),
                    KeyCode::Tab => (
                        self,
                        TreeOutcome { handled: true, emitted: Some(EventView::ToggleNode { id }) },
                    ),
                    _ => (self, ignored),
                },
                RawEvent::Other => (self, ignored),
            }
        }
    }
}

/// The listing of a tree on the screen.
#[derive(Debug)]
pub struct TuiTree {
    rect: Area,
    root: Node,
    selected_node_id: usize,
    cursor: Cursor,
    top_shift: u16,
    input_prompt: UserInputPrompt,
    input_pending_event: Option<Event>,
}

impl View for TuiTree {
    type V = ListingView;

    closed spec fn view(&self) -> ListingView {
        ListingView {
            rect: self.rect,
            root: self.root,
            selected: self.selected_node_id as int,
            at: self.cursor@,
            top: self.top_shift as int,
            line: self.input_prompt.shown(),
            pending: event_view(self.input_pending_event),
        }
    }
}

impl TuiTree {
    /// The prompt of the listing expects no answer in particular.
    pub closed spec fn wf(&self) -> bool {
        self.input_prompt.expected() == Seq::<Seq<char>>::empty()
    }

    /// A listing of the tree under `root` in the rectangle `rect`, with the
    /// root selected, nothing scrolled and the prompt closed.
    pub fn new(rect: Area, root: Node) -> (r: TuiTree)
        ensures
            r.wf(),
            r@ == (ListingView {
                rect,
                root,
                selected: 0,
                at: root,
                top: 0,
                line: None,
                pending: None,
            }),
    {
        TuiTree {
            rect,
            root,
            selected_node_id: 0,
            cursor: Cursor::new(root),
            top_shift: 0,
            input_prompt: UserInputPrompt::new(),
            input_pending_event: None,
        }
    }

    /// The rectangle that the listing is drawn in.
    pub fn area(&self) -> (r: &Area)
        ensures
            *r == self@.rect,
    {
        &self.rect
    }

    /// Draw the listing in `rect` from now on.
    pub fn set_area(&mut self, rect: Area)
        ensures
            final(self).wf() == old(self).wf(),
            final(self)@ == (ListingView { rect, ..old(self)@ }),
    {
        self.rect = rect;
    }

    /// The row that is selected.
    pub fn selected_node_id(&self) -> (r: usize)
        ensures
            r == self@.selected,
    {
        self.selected_node_id
    }

    /// The first row that is shown.
    pub fn top_shift(&self) -> (r: u16)
        ensures
            r == self@.top,
    {
        self.top_shift
    }

    /// The cursor of the listing.
    pub fn cursor(&self) -> (r: &Cursor)
        ensures
            r@ == self@.at,
    {
        &self.cursor
    }

    /// The root of the listing.
    pub fn root_node(&self) -> (r: Node)
        ensures
            r == self@.root,
    {
        self.root
    }

    /// The prompt of the listing.
    pub fn input_prompt(&self) -> (r: &UserInputPrompt)
        ensures
            r.shown() == self@.line,
    {
        &self.input_prompt
    }

    /// Whether the cursor is on the selected row of the listing.
    pub fn is_in_step(&self, arena: &Arena) -> (r: bool)
        requires
            arena.wf(),
        ensures
            r == self@.in_step(arena@),
    {
        if !arena.contains(self.root) {
            return false;
        }
        if self.root.parent(arena).is_ok() {
            return false;
        }
        let (_, found) = self.root.get_node_by_line(arena, self.selected_node_id);
        match found {
            Some(n) => self.cursor.points_to(&n),
            None => false,
        }
    }

    /// Scroll just far enough to show the selected row.
    fn adjust_view(&mut self)
        requires
            old(self)@.selected <= 0xfffe,
        ensures
            final(self).wf() == old(self).wf(),
            final(self)@ == old(self)@.on_row(old(self)@.selected, old(self)@.at),
    {
        let top: usize = self.top_shift as usize;
        let height: usize = self.rect.height as usize;
        if self.selected_node_id < top {
            self.top_shift = self.selected_node_id as u16;
        } else if self.selected_node_id - top >= height {
            self.top_shift = (self.selected_node_id + 1 - height) as u16;
        }
    }

    /// Select the row above, if there is one; the answer is whether there
    /// is.
    pub fn select_prev_node(&mut self, arena: &Arena) -> (r: bool)
        requires
            arena.wf(),
            old(self)@.in_step(arena@),
            old(self)@.selected <= 0xfffe,
        ensures
            final(self).wf() == old(self).wf(),
            final(self)@ == old(self)@.above(arena@),
            final(self)@.in_step(arena@),
            r == (old(self)@.selected > 0),
    {
        proof {
            let g = arena@;
            if self@.selected > 0 {
                crate::listing::lemma_cursor_follows_rows(g, self@.root, self@.selected - 1);
                crate::listing::lemma_rows_are_nodes(g, self@.root, self@.selected - 1);
            } else {
                g.lemma_rows_first(self@.root);
                crate::listing::lemma_cursor_stops_at_the_ends(g, self@.root);
            }
        }
        if self.cursor.visual_prev(arena) {
            self.selected_node_id = self.selected_node_id - 1;
            self.adjust_view();
            true
        } else {
            false
        }
    }

    /// Select the row below, if there is one; the answer is whether there
    /// is.
    pub fn select_next_node(&mut self, arena: &Arena) -> (r: bool)
        requires
            arena.wf(),
            old(self)@.in_step(arena@),
            old(self)@.selected < 0xfffe,
        ensures
            final(self).wf() == old(self).wf(),
            final(self)@ == old(self)@.below(arena@),
            final(self)@.in_step(arena@),
            r == (old(self)@.selected + 1 < arena@.rows(old(self)@.root).len()),
    {
        proof {
            let g = arena@;
            if self@.selected + 1 < g.rows(self@.root).len() {
                crate::listing::lemma_cursor_follows_rows(g, self@.root, self@.selected);
                crate::listing::lemma_rows_are_nodes(g, self@.root, self@.selected + 1);
            } else {
                assert(g.rows(self@.root)[self@.selected] == g.rows(self@.root).last());
                crate::listing::lemma_cursor_stops_at_the_ends(g, self@.root);
            }
        }
        if self.cursor.visual_next(arena) {
            self.selected_node_id = self.selected_node_id + 1;
            self.adjust_view();
            true
        } else {
            false
        }
    }

    /// Count the selected row `shift` rows further down, or up for a
    /// negative `shift`; the cursor stays where it is.
    pub fn shift_selected_node_id(&mut self, shift: isize)
        requires
            0 <= old(self)@.selected + shift <= usize::MAX,
        ensures
            final(self).wf() == old(self).wf(),
            final(self)@ == (ListingView {
                selected: old(self)@.selected + shift,
                ..old(self)@
            }),
    {
        if shift >= 0 {
            self.selected_node_id = self.selected_node_id + (shift as usize);
        } else {
            let back: usize = ((-(shift + 1)) as usize) + 1;
            self.selected_node_id = self.selected_node_id - back;
        }
    }

    /// Ask for the name of a node to put at the selected row.
    fn open_prompt_insert_node(&mut self, title: &str, mode: InsertMode)
        requires
            old(self).wf(),
        ensures
            final(self).wf(),
            final(self)@ == old(self)@.asking_to_insert(title@, mode),
    {
        self.input_prompt.show_with_title(title);
        self.input_pending_event = Some(
            Event::InsertNode { id: self.selected_node_id, mode, name: String::new() },
        );
    }

    /// Ask whether the node of the selected row is to be deleted.
    fn open_prompt_delete_node(&mut self)
        requires
            old(self).wf(),
        ensures
            final(self).wf(),
            final(self)@ == old(self)@.asking(
                "delete node (y/N):"@,
                EventView::DeleteNode { id: old(self)@.selected as usize },
            ),
    {
        self.input_prompt.show_with_title("delete node (y/N):");
        self.input_pending_event = Some(Event::DeleteNode { id: self.selected_node_id });
    }

    /// Whether `event` can be given to [`TuiTree::react_raw`].
    pub fn can_take(&self, event: RawEvent) -> (r: bool)
        ensures
            r == self@.takes(event),
    {
        if self.selected_node_id >= 0xfffe {
            return false;
        }
        match event {
            RawEvent::Key(key) => self.input_prompt.can_take(key),
            _ => true,
        }
    }

    /// Take an event of the terminal; see [`ListingView::reacted`].
    pub fn react_raw(&mut self, event: RawEvent, arena: &Arena) -> (r: TreeFeedback)
        requires
            arena.wf(),
            old(self).wf(),
            old(self)@.in_step(arena@),
            old(self)@.takes(event),
        ensures
            final(self).wf(),
            final(self)@.in_step(arena@),
            (final(self)@, r@) == old(self)@.reacted(event, arena@),
    {
        if self.input_prompt.is_visible() {
            let mut emitted: Option<Event> = None;
            if let RawEvent::Key(key) = event {
                if let PromptFeedback::Answer(Some(input)) = self.input_prompt.react_raw(key) {
                    if let Some(waiting) = self.input_pending_event.take() {
                        emitted = waiting.accept_input(input);
                    }
                }
            }
            return TreeFeedback { handled: true, emitted };
        }
        match event {
            RawEvent::Resize(width, height) => {
                self.rect.width = width;
                self.rect.height = height;
                self.adjust_view();
                TreeFeedback { handled: false, emitted: None }
            },
            RawEvent::Key(key) => match key.code {
                KeyCode::Char('t') => {
                    self.select_next_node(arena);
                    TreeFeedback { handled: true, emitted: None }
                },
                KeyCode::Char('s') => {
                    self.select_prev_node(arena);
                    TreeFeedback { handled: true, emitted: None }
                },
                KeyCode::Char('o') => {
                    self.open_prompt_insert_node("insert after:", InsertMode::After);
                    TreeFeedback { handled: true, emitted: None }
                },
                KeyCode::Char('O') => {
                    self.open_prompt_insert_node("insert before:", InsertMode::Before);
                    TreeFeedback { handled: true, emitted: None }
                },
                KeyCode::Char('i') => {
                    self.open_prompt_insert_node("insert in/bottom:", InsertMode::InsideBottom);
                    TreeFeedback { handled: true, emitted: None }
                },
                KeyCode::Char('I') => {
                    self.open_prompt_insert_node("insert in/top:", InsertMode::InsideTop);
                    TreeFeedback { handled: true, emitted: None }
                },
                KeyCode::Char('d') => {
                    self.open_prompt_delete_node();
                    TreeFeedback { handled: true, emitted: None }
                },
                KeyCode::Enter => TreeFeedback {
                    handled: false,
                    emitted: Some(Event::OpenNodeData { id: self.selected_node_id }),
                },
                KeyCode::Tab => TreeFeedback {
                    handled: true,
                    emitted: Some(Event::ToggleNode { id: self.selected_node_id }),
                },
                _ => TreeFeedback { handled: false, emitted: None },
            },
            RawEvent::Other => TreeFeedback { handled: false, emitted: None },
        }
    }
}

} // verus!

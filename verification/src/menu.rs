//! A menu: a list of items, one of which is selected.

use vstd::prelude::*;
use crate::event::{Key, KeyCode};

verus! {

/// An item of a menu: a name, and the key that picks it if it has one.
#[derive(Debug, PartialEq, Eq, Hash)]
pub struct MenuItem {
    pub name: String,
    pub key: Option<char>,
}

impl Clone for MenuItem {
    fn clone(&self) -> (r: Self)
        ensures
            r == *self,
    {
        MenuItem { name: self.name.clone(), key: self.key }
    }
}

impl MenuItem {
    /// An item named `name` that `key` picks.
    pub fn new(name: &str, key: Option<char>) -> (r: MenuItem)
        ensures
            r.name@ == name@,
            r.key == key,
    {
        MenuItem { name: name.to_owned(), key }
    }

    /// An item named `name` that no key picks.
    pub fn from(name: &str) -> (r: MenuItem)
        ensures
            r.name@ == name@,
            r.key is None,
    {
        MenuItem { name: name.to_owned(), key: None }
    }
}

/// What a menu answers to a key.
#[derive(Debug, PartialEq, Eq)]
pub enum MenuFeedback {
    /// The key is not for the menu.
    Unhandled,
    /// The key moved the selection; the menu stays.
    Moved,
    /// The menu is done: an item was chosen, or none.
    Done(Option<MenuItem>),
}

/// The first of `items`, from the `i`-th on, that the key `c` picks.
pub open spec fn first_with_key(items: Seq<MenuItem>, c: char, i: int) -> Option<int>
    decreases items.len() - i,
{
    if i < 0 || i >= items.len() {
        None
    } else if items[i].key == Some(c) {
        Some(i)
    } else {
        first_with_key(items, c, i + 1)
    }
}

/// A menu of items, with one of them selected.
#[derive(Debug)]
pub struct Menu {
    items: Vec<MenuItem>,
    currently_selected: usize,
}

impl Menu {
    /// The items, first to last.
    pub closed spec fn items(&self) -> Seq<MenuItem> {
        self.items@
    }

    /// The place of the selected item.
    pub closed spec fn selection(&self) -> int {
        self.currently_selected as int
    }

    /// The selection is on an item, or on the first place of an empty menu.
    pub open spec fn wf(&self) -> bool {
        0 <= self.selection() && (self.selection() == 0 || self.selection() < self.items().len())
    }

    /// A menu of `items` with the first one selected.
    pub fn new(items: Vec<MenuItem>) -> (r: Menu)
        ensures
            r.wf(),
            r.items() == items@,
            r.selection() == 0,
    {
        Menu { items, currently_selected: 0 }
    }

    /// Select the item before, if there is one.
    pub fn select_prev(&mut self)
        requires
            old(self).wf(),
        ensures
            final(self).wf(),
            final(self).items() == old(self).items(),
            final(self).selection() == (if old(self).selection() > 0 {
                old(self).selection() - 1
            } else {
                0
            }),
    {
        if self.currently_selected > 1 {
            self.currently_selected = self.currently_selected - 1;
        } else {
            self.currently_selected = 0;
        }
    }

    /// Select the item after, if there is one. The menu must not be empty.
    pub fn select_next(&mut self)
        requires
            old(self).wf(),
            old(self).items().len() > 0,
        ensures
            final(self).wf(),
            final(self).items() == old(self).items(),
            final(self).selection() == (if old(self).selection() + 1 < old(self).items().len() {
                old(self).selection() + 1
            } else {
                old(self).items().len() - 1
            }),
    {
        let last: usize = self.items.len() - 1;
        if self.currently_selected + 1 < last {
            self.currently_selected = self.currently_selected + 1;
        } else {
            self.currently_selected = last;
        }
    }

    /// The name of the selected item, if the selection is on one.
    pub fn selected(&self) -> (r: Option<&str>)
        ensures
            match r {
                Some(name) => self.selection() < self.items().len() && name@
                    == self.items()[self.selection()].name@,
                None => self.selection() >= self.items().len(),
            },
    {
        if self.currently_selected < self.items.len() {
            Some(self.items[self.currently_selected].name.as_str())
        } else {
            None
        }
    }

    /// The items, first to last.
    pub fn entries(&self) -> (r: &Vec<MenuItem>)
        ensures
            r@ == self.items(),
    {
        &self.items
    }

    /// The place of the selected item.
    pub fn selected_index(&self) -> (r: usize)
        ensures
            r == self.selection(),
    {
        self.currently_selected
    }

    /// The selected item, if the selection is on one.
    fn selected_item(&self) -> (r: Option<MenuItem>)
        ensures
            r == if self.selection() < self.items().len() {
                Some(self.items()[self.selection()])
            } else {
                None
            },
    {
        if self.currently_selected < self.items.len() {
            Some(self.items[self.currently_selected].clone())
        } else {
            None
        }
    }

    /// The place of the first item that the key `c` picks.
    fn find_key(&self, c: char) -> (r: Option<usize>)
        ensures
            match r {
                Some(i) => first_with_key(self.items(), c, 0) == Some(i as int) && i
                    < self.items().len(),
                None => first_with_key(self.items(), c, 0) is None,
            },
    {
        let mut i: usize = 0;
        while i < self.items.len()
            invariant
                i <= self.items.len(),
                first_with_key(self.items@, c, 0) == first_with_key(self.items@, c, i as int),
            decreases self.items.len() - i,
        {
            match self.items[i].key {
                Some(k) => {
                    if k == c {
                        return Some(i);
                    }
                },
                None => {},
            }
            i = i + 1;
        }
        None
    }

    /// What the menu makes of `key`, whether or not the key went down.
    ///
    /// Control with `p` selects the item before, control with `n` the item
    /// after. Enter chooses the selected item, escape chooses none. Any
    /// other character chooses the first item that it picks, and selects
    /// it; a character that picks none, and any other key, is not for the
    /// menu. Control with `n` must not come to an empty menu.
    pub open spec fn reacted(&self, key: Key) -> (int, MenuFeedback) {
        match key.code {
            KeyCode::Char(c) => if c == 'p' && key.control {
                (
                    if self.selection() > 0 {
                        self.selection() - 1
                    } else {
                        0
                    },
                    MenuFeedback::Moved,
                )
            } else if c == 'n' && key.control {
                (
                    if self.selection() + 1 < self.items().len() {
                        self.selection() + 1
                    } else {
                        self.items().len() - 1
                    },
                    MenuFeedback::Moved,
                )
            } else {
                match first_with_key(self.items(), c, 0) {
                    Some(i) => (i, MenuFeedback::Done(Some(self.items()[i]))),
                    None => (self.selection(), MenuFeedback::Unhandled),
                }
            },
            KeyCode::Enter => (
                self.selection(),
                MenuFeedback::Done(
                    if self.selection() < self.items().len() {
                        Some(self.items()[self.selection()])
                    } else {
                        None
                    },
                ),
            ),
            KeyCode::Esc => (self.selection(), MenuFeedback::Done(None)),
            _ => (self.selection(), MenuFeedback::Unhandled),
        }
    }

    /// Take a key.
    pub fn react_raw(&mut self, key: Key) -> (r: MenuFeedback)
        requires
            old(self).wf(),
            key.code == KeyCode::Char('n') && key.control ==> old(self).items().len() > 0,
        ensures
            final(self).wf(),
            final(self).items() == old(self).items(),
            (final(self).selection(), r) == old(self).reacted(key),
    {
        match key.code {
            KeyCode::Char(c) => {
                if c == 'p' && key.control {
                    self.select_prev();
                    MenuFeedback::Moved
                } else if c == 'n' && key.control {
                    self.select_next();
                    MenuFeedback::Moved
                } else {
                    match self.find_key(c) {
                        Some(i) => {
                            self.currently_selected = i;
                            MenuFeedback::Done(Some(self.items[i].clone()))
                        },
                        None => MenuFeedback::Unhandled,
                    }
                }
            },
            KeyCode::Enter => MenuFeedback::Done(self.selected_item()),
            KeyCode::Esc => MenuFeedback::Done(None),
            _ => MenuFeedback::Unhandled,
        }
    }
}

/// What a menu on the screen answers to a key.
#[derive(Debug, PartialEq, Eq)]
pub enum TuiMenuFeedback {
    /// No menu is shown: the key is for someone else.
    Unhandled,
    /// The menu took the key and stays.
    Handled,
    /// The menu took the key and closed; its answer is to be sent to
    /// whoever asked.
    Answer(Option<MenuItem>),
}

/// A menu that is shown or not.
#[derive(Debug)]
pub struct TuiMenu {
    menu: Option<Menu>,
}

impl TuiMenu {
    /// The menu that is shown, if one is.
    pub closed spec fn shown(&self) -> Option<Menu> {
        self.menu
    }

    /// The menu that is shown is well formed.
    pub open spec fn wf(&self) -> bool {
        self.shown() matches Some(menu) ==> menu.wf()
    }

    /// No menu.
    pub fn new() -> (r: TuiMenu)
        ensures
            r.shown() is None,
            r.wf(),
    {
        TuiMenu { menu: None }
    }

    /// Show a menu of `items`, in place of the one that is shown.
    pub fn show(&mut self, items: Vec<MenuItem>)
        ensures
            final(self).wf(),
            final(self).shown() is Some,
            final(self).shown()->0.items() == items@,
            final(self).shown()->0.selection() == 0,
    {
        self.menu = Some(Menu::new(items));
    }

    /// The menu that is shown, if one is.
    pub fn menu(&self) -> (r: Option<&Menu>)
        ensures
            match r {
                Some(menu) => self.shown() == Some(*menu),
                None => self.shown() is None,
            },
    {
        self.menu.as_ref()
    }

    /// Whether `key` can be given to [`TuiMenu::react_raw`]: control with
    /// `n` must not come to an empty menu.
    pub fn can_take(&self, key: Key) -> (r: bool)
        ensures
            r == (key.code == KeyCode::Char('n') && key.control ==> (self.shown() matches Some(menu)
                ==> menu.items().len() > 0)),
    {
        match &self.menu {
            Some(menu) => !(key.code == KeyCode::Char('n') && key.control) || menu.items.len() > 0,
            None => true,
        }
    }

    /// Whether a menu is shown.
    pub fn is_visible(&self) -> (r: bool)
        ensures
            r == self.shown() is Some,
    {
        self.menu.is_some()
    }

    /// The number of rows that the menu takes, counted modulo 65536.
    pub fn height(&self) -> (r: u16)
        ensures
            r == match self.shown() {
                Some(menu) => menu.items().len() % 0x10000,
                None => 0,
            },
    {
        match &self.menu {
            Some(menu) => {
                let n: usize = menu.items.len();
                (n % 0x10000) as u16
            },
            None => 0,
        }
    }

    /// Take a key. A menu that is shown takes every key; it closes when it
    /// is done. Control with `n` must not come to an empty menu.
    pub fn react_raw(&mut self, key: Key) -> (r: TuiMenuFeedback)
        requires
            old(self).wf(),
            key.code == KeyCode::Char('n') && key.control ==> (old(self).shown() matches Some(menu)
                ==> menu.items().len() > 0),
        ensures
            final(self).wf(),
            match old(self).shown() {
                None => r == TuiMenuFeedback::Unhandled && final(self).shown() is None,
                Some(menu) => match menu.reacted(key).1 {
                    MenuFeedback::Done(item) => {
                        &&& r == TuiMenuFeedback::Answer(item)
                        &&& final(self).shown() is None
                    },
                    _ => {
                        &&& r == TuiMenuFeedback::Handled
                        &&& final(self).shown() is Some
                        &&& final(self).shown()->0.items() == menu.items()
                        &&& final(self).shown()->0.selection() == menu.reacted(key).0
                    },
                },
            },
    {
        let mut menu = match self.menu.take() {
            Some(menu) => menu,
            None => {
                return TuiMenuFeedback::Unhandled;
            },
        };
        match menu.react_raw(key) {
            MenuFeedback::Done(item) => TuiMenuFeedback::Answer(item),
            _ => {
                self.menu = Some(menu);
                TuiMenuFeedback::Handled
            },
        }
    }
}

} // verus!

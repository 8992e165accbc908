use vstd::prelude::*;

verus! {

/// The state of the interactive menu: its entries and the selected one.
pub struct App {
    pub items: Vec<String>,
    pub selected: Option<usize>,
}

/// A key press, as far as the menu cares.
#[derive(Clone, Copy, PartialEq, Eq, Debug)]
pub enum Key {
    Char(char),
    Up,
    Down,
    Enter,
    Other,
}

/// The selection after moving down from `sel` in a menu of `n` entries: the
/// first entry when nothing is selected, wrapping from the last to the first.
pub open spec fn next_spec(sel: Option<usize>, n: nat) -> usize {
    match sel {
        Some(i) => if i >= n - 1 { 0 } else { (i + 1) as usize },
        None => 0,
    }
}

/// The selection after moving up from `sel` in a menu of `n` entries: the
/// first entry when nothing is selected, wrapping from the first to the last.
pub open spec fn previous_spec(sel: Option<usize>, n: nat) -> usize {
    match sel {
        Some(i) => if i == 0 { (n - 1) as usize } else { (i - 1) as usize },
        None => 0,
    }
}

/// The index of the entry that ends the menu.
pub const QUIT_ENTRY: usize = 1;

impl App {
    /// The menu has at least one entry.
    pub open spec fn wf(&self) -> bool {
        self.items@.len() > 0
    }

    /// The menu with its two entries, nothing selected.
    pub fn new() -> (r: App)
        ensures
            r.wf(),
            r.items@.len() == 2,
            r.selected is None,
    {
        let mut items: Vec<String> = Vec::new();
        items.push(String::from_str("Scan Projects (Not fully implemented in TUI yet)"));
        items.push(String::from_str("Quit"));
        App { items, selected: None }
    }

    /// Moves the selection down.
    pub fn next(&mut self)
        requires
            old(self).wf(),
        ensures
            final(self).items == old(self).items,
            final(self).selected == Some(next_spec(old(self).selected, old(self).items@.len())),
    {
        let i = match self.selected {
            Some(i) => {
                if i >= self.items.len() - 1 {
                    0
                } else {
                    i + 1
                }
            },
            None => 0,
        };
        self.selected = Some(i);
    }

    /// Moves the selection up.
    pub fn previous(&mut self)
        requires
            old(self).wf(),
        ensures
            final(self).items == old(self).items,
            final(self).selected == Some(previous_spec(old(self).selected, old(self).items@.len())),
    {
        let i = match self.selected {
            Some(i) => {
                if i == 0 {
                    self.items.len() - 1
                } else {
                    i - 1
                }
            },
            None => 0,
        };
        self.selected = Some(i);
    }

    /// Handles a key press and says whether the menu ends: `q` ends it, the
    /// arrows move the selection, Enter ends it on the quit entry.
    pub fn handle_key(&mut self, key: Key) -> (quit: bool)
        requires
            old(self).wf(),
        ensures
            final(self).items == old(self).items,
            quit == (key == Key::Char('q') || (key == Key::Enter && old(self).selected == Some(QUIT_ENTRY))),
            key == Key::Down ==> final(self).selected == Some(
                next_spec(old(self).selected, old(self).items@.len()),
            ),
            key == Key::Up ==> final(self).selected == Some(
                previous_spec(old(self).selected, old(self).items@.len()),
            ),
            key != Key::Down && key != Key::Up ==> final(self).selected == old(self).selected,
    {
        match key {
            Key::Char(c) => c == 'q',
            Key::Down => {
                self.next();
                false
            },
            Key::Up => {
                self.previous();
                false
            },
            Key::Enter => match self.selected {
                Some(s) => s == QUIT_ENTRY,
                None => false,
            },
            Key::Other => false,
        }
    }
}

} // verus!

use vstd::prelude::*;

verus! {

/// Number of lines that a page step moves.
pub const PAGE_LINES: usize = 10;

/// Offset that stands for the bottom of the view.
pub const BOTTOM_OFFSET: usize = 1000;

/// Vertical position of the scroll view.
#[derive(Debug, Clone, PartialEq, Eq)]
pub struct ScrollState {
    pub vertical_scroll: usize,
}

impl Default for ScrollState {
    fn default() -> (state: Self)
        ensures
            state.vertical_scroll == 0,
    {
        ScrollState { vertical_scroll: 0 }
    }
}

impl ScrollState {
    /// Moves one line down.
    pub fn scroll_down(&mut self)
        requires
            old(self).vertical_scroll < usize::MAX,
        ensures
            final(self).vertical_scroll == old(self).vertical_scroll + 1,
    {
        self.vertical_scroll += 1;
    }

    /// Moves one line up, stopping at the top.
    pub fn scroll_up(&mut self)
        ensures
            final(self).vertical_scroll == if old(self).vertical_scroll >= 1 {
                old(self).vertical_scroll - 1
            } else {
                0
            },
    {
        self.vertical_scroll = self.vertical_scroll.saturating_sub(1);
    }

    /// Moves one page down.
    pub fn scroll_page_down(&mut self)
        requires
            old(self).vertical_scroll <= usize::MAX - PAGE_LINES,
        ensures
            final(self).vertical_scroll == old(self).vertical_scroll + PAGE_LINES,
    {
        self.vertical_scroll += PAGE_LINES;
    }

    /// Moves one page up, stopping at the top.
    pub fn scroll_page_up(&mut self)
        ensures
            final(self).vertical_scroll == if old(self).vertical_scroll >= PAGE_LINES {
                old(self).vertical_scroll - PAGE_LINES
            } else {
                0
            },
    {
        self.vertical_scroll = self.vertical_scroll.saturating_sub(PAGE_LINES);
    }

    /// Jumps to the first line.
    pub fn scroll_to_top(&mut self)
        ensures
            final(self).vertical_scroll == 0,
    {
        self.vertical_scroll = 0;
    }

    /// Jumps to the offset that stands for the bottom.
    pub fn scroll_to_bottom(&mut self)
        ensures
            final(self).vertical_scroll == BOTTOM_OFFSET,
    {
        self.vertical_scroll = BOTTOM_OFFSET;
    }
}

} // verus!

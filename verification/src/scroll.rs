use vstd::prelude::*;

verus! {

/// Rows of the viewport that the border and decoration take.
pub const RESERVED_ROWS: u16 = 5;

/// Rows and columns that one scroll step moves.
pub const SCROLL_STEP: usize = 3;

/// Where the view stands in the history, and whether it follows the newest
/// entry.
#[derive(Clone, Copy, Debug, PartialEq, Eq, Structural)]
pub struct ScrollState {
    pub vertical_offset: usize,
    pub horizontal_offset: usize,
    pub auto_follow: bool,
    pub viewport_height: u16,
}

/// The rows of a viewport that can show entries.
pub open spec fn content_rows(viewport_height: u16) -> nat {
    if viewport_height >= RESERVED_ROWS {
        (viewport_height - RESERVED_ROWS) as nat
    } else {
        0
    }
}

/// The largest vertical offset: the number of entries that do not fit
/// into the viewport.
pub open spec fn max_offset(entry_count: nat, viewport_height: u16) -> nat {
    if entry_count > content_rows(viewport_height) {
        (entry_count - content_rows(viewport_height)) as nat
    } else {
        0
    }
}

impl ScrollState {
    /// The largest vertical offset of this state over `entry_count` entries.
    pub open spec fn bottom(self, entry_count: nat) -> nat {
        max_offset(entry_count, self.viewport_height)
    }

    /// The vertical offset lies within the entries, and at the bottom while
    /// the view follows.
    pub open spec fn wf(self, entry_count: nat) -> bool {
        &&& self.vertical_offset <= self.bottom(entry_count)
        &&& self.auto_follow ==> self.vertical_offset == self.bottom(entry_count)
    }

    /// The state at start: at the top left, following, with the largest
    /// viewport.
    pub open spec fn initial() -> ScrollState {
        ScrollState {
            vertical_offset: 0,
            horizontal_offset: 0,
            auto_follow: true,
            viewport_height: u16::MAX,
        }
    }

    /// The state brought in line with a number of entries: at the bottom
    /// while following, else no lower than the bottom.
    pub open spec fn settled(self, entry_count: nat) -> ScrollState {
        ScrollState {
            vertical_offset: if self.auto_follow || self.vertical_offset > self.bottom(
                entry_count,
            ) {
                self.bottom(entry_count) as usize
            } else {
                self.vertical_offset
            },
            ..self
        }
    }

    /// One step up: following ends unless everything fits into the viewport.
    pub open spec fn up(self, entry_count: nat) -> ScrollState {
        ScrollState {
            vertical_offset: if self.vertical_offset < SCROLL_STEP {
                0
            } else {
                (self.vertical_offset - SCROLL_STEP) as usize
            },
            auto_follow: self.auto_follow && self.bottom(entry_count) == 0,
            ..self
        }
    }

    /// One step down, no lower than the bottom: following starts again
    /// there.
    pub open spec fn down(self, entry_count: nat) -> ScrollState {
        let target = if self.vertical_offset + SCROLL_STEP >= self.bottom(entry_count) {
            self.bottom(entry_count) as usize
        } else {
            (self.vertical_offset + SCROLL_STEP) as usize
        };
        ScrollState {
            vertical_offset: target,
            auto_follow: self.auto_follow || target == self.bottom(entry_count),
            ..self
        }
    }

    /// One step to the left, no further than the first column.
    pub open spec fn left(self) -> ScrollState {
        ScrollState {
            horizontal_offset: if self.horizontal_offset < SCROLL_STEP {
                0
            } else {
                (self.horizontal_offset - SCROLL_STEP) as usize
            },
            ..self
        }
    }

    /// One step to the right; the offset stops only at the largest number
    /// that it can hold.
    pub open spec fn right(self) -> ScrollState {
        ScrollState {
            horizontal_offset: if self.horizontal_offset + SCROLL_STEP > usize::MAX {
                usize::MAX
            } else {
                (self.horizontal_offset + SCROLL_STEP) as usize
            },
            ..self
        }
    }

    /// The state with another viewport height, settled on it.
    pub open spec fn resized(self, viewport_height: u16, entry_count: nat) -> ScrollState {
        (ScrollState { viewport_height, ..self }).settled(entry_count)
    }

    /// The state after `n` steps up.
    pub open spec fn up_times(self, entry_count: nat, n: nat) -> ScrollState
        decreases n,
    {
        if n == 0 {
            self
        } else {
            self.up(entry_count).up_times(entry_count, (n - 1) as nat)
        }
    }

    /// The state after `n` steps down.
    pub open spec fn down_times(self, entry_count: nat, n: nat) -> ScrollState
        decreases n,
    {
        if n == 0 {
            self
        } else {
            self.down(entry_count).down_times(entry_count, (n - 1) as nat)
        }
    }

    /// The state at start.
    pub fn new() -> (s: ScrollState)
        ensures
            s == ScrollState::initial(),
            s.wf(0),
    {
        ScrollState {
            vertical_offset: 0,
            horizontal_offset: 0,
            auto_follow: true,
            viewport_height: u16::MAX,
        }
    }

    /// The largest vertical offset over `entry_count` entries.
    pub fn max_main_axis(&self, entry_count: usize) -> (m: usize)
        ensures
            m == self.bottom(entry_count as nat),
    {
        let rows: usize = if self.viewport_height >= RESERVED_ROWS {
            (self.viewport_height - RESERVED_ROWS) as usize
        } else {
            0
        };
        if entry_count > rows {
            entry_count - rows
        } else {
            0
        }
    }

    /// Brings the vertical offset in line with the number of entries: to
    /// the bottom while following, else no lower than the bottom.
    pub fn settle(&mut self, entry_count: usize)
        ensures
            *final(self) == old(self).settled(entry_count as nat),
            final(self).wf(entry_count as nat),
    {
        let bottom = self.max_main_axis(entry_count);
        if self.auto_follow || self.vertical_offset > bottom {
            self.vertical_offset = bottom;
        }
    }

    /// Moves one step up, no further than offset 0.
    pub fn scroll_up(&mut self, entry_count: usize)
        ensures
            *final(self) == old(self).up(entry_count as nat),
            old(self).wf(entry_count as nat) ==> final(self).wf(entry_count as nat),
    {
        if self.max_main_axis(entry_count) > 0 {
            self.auto_follow = false;
        }
        if self.vertical_offset < SCROLL_STEP {
            self.vertical_offset = 0;
        } else {
            self.vertical_offset -= SCROLL_STEP;
        }
    }

    /// Moves one step down, no further than the bottom.
    pub fn scroll_down(&mut self, entry_count: usize)
        ensures
            *final(self) == old(self).down(entry_count as nat),
            old(self).wf(entry_count as nat) ==> final(self).wf(entry_count as nat),
    {
        let bottom = self.max_main_axis(entry_count);
        if self.vertical_offset >= bottom || bottom - self.vertical_offset <= SCROLL_STEP {
            self.vertical_offset = bottom;
        } else {
            self.vertical_offset += SCROLL_STEP;
        }
        if self.vertical_offset == bottom {
            self.auto_follow = true;
        }
    }

    /// Moves one step to the left, no further than the first column.
    pub fn scroll_left(&mut self)
        ensures
            *final(self) == old(self).left(),
    {
        if self.horizontal_offset < SCROLL_STEP {
            self.horizontal_offset = 0;
        } else {
            self.horizontal_offset -= SCROLL_STEP;
        }
    }

    /// Moves one step to the right.
    pub fn scroll_right(&mut self)
        ensures
            *final(self) == old(self).right(),
    {
        if self.horizontal_offset > usize::MAX - SCROLL_STEP {
            self.horizontal_offset = usize::MAX;
        } else {
            self.horizontal_offset += SCROLL_STEP;
        }
    }

    /// Takes a new viewport height and settles on it.
    pub fn resize(&mut self, viewport_height: u16, entry_count: usize)
        ensures
            *final(self) == old(self).resized(viewport_height, entry_count as nat),
            final(self).wf(entry_count as nat),
    {
        self.viewport_height = viewport_height;
        self.settle(entry_count);
    }
}

/// Steps up keep a valid state valid, and enough of them (a third of the
/// offset, rounded up) bring the view to offset 0, where further steps
/// leave it.
pub proof fn lemma_scroll_up_reaches_top(s: ScrollState, entry_count: nat, n: nat)
    requires
        s.wf(entry_count),
        entry_count <= usize::MAX,
    ensures
        s.up_times(entry_count, n).wf(entry_count),
        s.up_times(entry_count, n).vertical_offset <= s.vertical_offset,
        n * SCROLL_STEP >= s.vertical_offset ==> s.up_times(entry_count, n).vertical_offset == 0,
        s.vertical_offset == 0 ==> s.up(entry_count).vertical_offset == 0,
    decreases n,
{
    if n > 0 {
        lemma_scroll_up_reaches_top(s.up(entry_count), entry_count, (n - 1) as nat);
    }
}

/// Steps down keep a valid state valid, and enough of them (at least one,
/// and a third of the distance to the bottom, rounded up) bring the view to
/// the bottom and make it follow again. A step down starts following at the
/// bottom and nowhere else.
pub proof fn lemma_scroll_down_reaches_bottom(s: ScrollState, entry_count: nat, n: nat)
    requires
        s.wf(entry_count),
        entry_count <= usize::MAX,
    ensures
        s.down_times(entry_count, n).wf(entry_count),
        s.down_times(entry_count, n).vertical_offset >= s.vertical_offset,
        s.down_times(entry_count, n).viewport_height == s.viewport_height,
        n >= 1 && s.vertical_offset + n * SCROLL_STEP >= s.bottom(entry_count) ==> {
            &&& s.down_times(entry_count, n).vertical_offset == s.bottom(entry_count)
            &&& s.down_times(entry_count, n).auto_follow
        },
        s.down(entry_count).vertical_offset == s.bottom(entry_count) ==> s.down(
            entry_count,
        ).auto_follow,
        !s.auto_follow && s.down(entry_count).auto_follow ==> s.down(entry_count).vertical_offset
            == s.bottom(entry_count),
    decreases n,
{
    if n > 0 {
        lemma_scroll_down_reaches_bottom(s.down(entry_count), entry_count, (n - 1) as nat);
    }
}

} // verus!

//! Inline viewport management for the terminal UI.
//!
//! Manages a fixed-size rectangular region within the terminal's normal
//! scrollback, positioned at or near the bottom of the screen. This is the
//! "chat area" where the UI renders its content while the rest of the
//! terminal scrolls naturally.

use vstd::prelude::*;

verus! {

/// `a - b`, or 0 when `b > a` (as `u16::saturating_sub`).
pub open spec fn sat_sub(a: int, b: int) -> int {
    if a >= b {
        a - b
    } else {
        0
    }
}

/// `a + b`, or `u16::MAX` when that overflows (as `u16::saturating_add`).
pub open spec fn sat_add16(a: int, b: int) -> int {
    if a + b <= u16::MAX {
        a + b
    } else {
        u16::MAX as int
    }
}

/// Manages the inline viewport position and dimensions.
///
/// The viewport is a rectangular region rendered at a fixed position within
/// the terminal's normal scrollback (not alternate screen). It "floats" at
/// the bottom of the terminal, moving up as new history lines are inserted
/// above it.
#[derive(Debug, Clone)]
pub struct Viewport {
    /// Top row of the viewport (0-based, relative to terminal top)
    pub(crate) top: u16,
    /// Height of the viewport in rows
    pub(crate) height: u16,
    /// Width of the viewport in columns
    pub(crate) width: u16,
    /// Total screen height (rows)
    pub(crate) screen_height: u16,
    /// Whether the viewport is anchored to the bottom of the screen
    pub(crate) bottom_aligned: bool,
}

impl Viewport {
    pub closed spec fn spec_top(&self) -> int {
        self.top as int
    }

    pub closed spec fn spec_height(&self) -> int {
        self.height as int
    }

    pub closed spec fn spec_width(&self) -> int {
        self.width as int
    }

    pub closed spec fn spec_screen_height(&self) -> int {
        self.screen_height as int
    }

    pub closed spec fn spec_bottom_aligned(&self) -> bool {
        self.bottom_aligned
    }

    /// Create a new viewport starting just below the cursor.
    ///
    /// `cursor_row` is the 0-based row where the cursor was when the UI
    /// started. The viewport is placed at `cursor_row + 1` as the initial
    /// top, with a default height of 10 rows (less when the screen has fewer
    /// rows below that).
    pub fn new(cursor_row: u16, screen_width: u16, screen_height: u16) -> (v: Self)
        ensures
            v.spec_top() == sat_add16(cursor_row as int, 1),
            v.spec_height() == if sat_sub(screen_height as int, sat_add16(cursor_row as int, 1))
                < 10 {
                sat_sub(screen_height as int, sat_add16(cursor_row as int, 1))
            } else {
                10
            },
            v.spec_width() == screen_width,
            v.spec_screen_height() == screen_height,
            !v.spec_bottom_aligned(),
    {
        let initial_top = cursor_row.saturating_add(1);
        let room = screen_height.saturating_sub(initial_top);
        let initial_height = if room < 10 {
            room
        } else {
            10
        };
        Viewport {
            top: initial_top,
            height: initial_height,
            width: screen_width,
            screen_height,
            bottom_aligned: false,
        }
    }

    /// Get the viewport's top row (0-based).
    pub fn top(&self) -> (r: u16)
        ensures
            r == self.spec_top(),
    {
        self.top
    }

    /// Get the viewport height.
    pub fn height(&self) -> (r: u16)
        ensures
            r == self.spec_height(),
    {
        self.height
    }

    /// Get the viewport width.
    pub fn width(&self) -> (r: u16)
        ensures
            r == self.spec_width(),
    {
        self.width
    }

    /// Get the viewport size as `(width, height)`.
    pub fn size(&self) -> (r: (u16, u16))
        ensures
            r.0 == self.spec_width(),
            r.1 == self.spec_height(),
    {
        (self.width, self.height)
    }

    /// Get the screen height.
    pub fn screen_height(&self) -> (r: u16)
        ensures
            r == self.spec_screen_height(),
    {
        self.screen_height
    }

    /// Set the viewport height (at most the screen height).  A bottom-aligned
    /// viewport keeps its bottom edge on the last row.
    pub fn set_height(&mut self, height: u16)
        ensures
            final(self).spec_height() == if height <= old(self).spec_screen_height() {
                height as int
            } else {
                old(self).spec_screen_height()
            },
            final(self).spec_top() == if old(self).spec_bottom_aligned() {
                old(self).spec_screen_height() - final(self).spec_height()
            } else {
                old(self).spec_top()
            },
            final(self).spec_width() == old(self).spec_width(),
            final(self).spec_screen_height() == old(self).spec_screen_height(),
            final(self).spec_bottom_aligned() == old(self).spec_bottom_aligned(),
    {
        self.height = if height <= self.screen_height {
            height
        } else {
            self.screen_height
        };
        if self.bottom_aligned {
            self.top = self.screen_height.saturating_sub(self.height);
        }
    }

    /// Check if the viewport is bottom-aligned.
    pub fn is_bottom_aligned(&self) -> (r: bool)
        ensures
            r == self.spec_bottom_aligned(),
    {
        self.bottom_aligned
    }

    /// Set whether the viewport is anchored to the bottom of the screen.
    ///
    /// When bottom-aligned, `top` is automatically adjusted to keep the
    /// viewport at the bottom of the terminal.
    pub fn set_bottom_aligned(&mut self, aligned: bool)
        ensures
            final(self).spec_bottom_aligned() == aligned,
            final(self).spec_top() == if aligned {
                sat_sub(old(self).spec_screen_height(), old(self).spec_height())
            } else {
                old(self).spec_top()
            },
            final(self).spec_height() == old(self).spec_height(),
            final(self).spec_width() == old(self).spec_width(),
            final(self).spec_screen_height() == old(self).spec_screen_height(),
    {
        self.bottom_aligned = aligned;
        if aligned {
            self.top = self.screen_height.saturating_sub(self.height);
        }
    }

    /// Handle terminal resize.
    ///
    /// Returns `true` if the viewport dimensions changed and a full redraw
    /// is needed.
    pub fn handle_resize(&mut self, new_width: u16, new_height: u16) -> (changed: bool)
        ensures
            changed == (old(self).spec_width() != new_width || old(self).spec_screen_height()
                != new_height),
            final(self).spec_width() == new_width,
            final(self).spec_screen_height() == new_height,
            final(self).spec_height() == old(self).spec_height(),
            final(self).spec_bottom_aligned() == old(self).spec_bottom_aligned(),
            final(self).spec_top() == if old(self).spec_bottom_aligned() || sat_add16(
                old(self).spec_top(),
                old(self).spec_height(),
            ) > new_height {
                sat_sub(new_height as int, old(self).spec_height())
            } else {
                old(self).spec_top()
            },
    {
        let old_width = self.width;
        let old_screen_height = self.screen_height;

        self.width = new_width;
        self.screen_height = new_height;

        if self.bottom_aligned {
            self.top = new_height.saturating_sub(self.height);
        } else {
            if self.top.saturating_add(self.height) > new_height {
                self.top = new_height.saturating_sub(self.height);
            }
        }

        old_width != new_width || old_screen_height != new_height
    }

    /// Move the viewport up by `delta` rows (e.g., after inserting history
    /// lines).  Returns the actual number of rows moved (less if the top of
    /// the screen is reached).
    pub fn scroll_up(&mut self, delta: u16) -> (moved: u16)
        ensures
            moved == if delta <= old(self).spec_top() {
                delta as int
            } else {
                old(self).spec_top()
            },
            final(self).spec_top() == old(self).spec_top() - moved,
            final(self).spec_height() == old(self).spec_height(),
            final(self).spec_width() == old(self).spec_width(),
            final(self).spec_screen_height() == old(self).spec_screen_height(),
            final(self).spec_bottom_aligned() == old(self).spec_bottom_aligned(),
    {
        let actual = if delta <= self.top {
            delta
        } else {
            self.top
        };
        self.top = self.top - actual;
        actual
    }

    /// Get the bottom row of the viewport (0-based, exclusive).
    pub fn bottom(&self) -> (r: u16)
        ensures
            r == sat_add16(self.spec_top(), self.spec_height()),
    {
        self.top.saturating_add(self.height)
    }

    /// Check if the viewport fits entirely within the screen.
    pub fn fits_in_screen(&self) -> (r: bool)
        ensures
            r == (sat_add16(self.spec_top(), self.spec_height()) <= self.spec_screen_height()),
    {
        self.top.saturating_add(self.height) <= self.screen_height
    }
}

/// A bottom-aligned viewport no taller than the screen ends on the last row:
/// after `set_bottom_aligned(true)`, `bottom() == screen_height()`.
pub proof fn law_bottom_aligned_ends_at_screen_bottom(height: int, screen: int)
    requires
        0 <= height <= screen <= u16::MAX,
    ensures
        sat_add16(sat_sub(screen, height), height) == screen,
{
}

/// After a resize, a bottom-aligned viewport again ends on the last row of
/// the new screen, provided it is no taller than that screen.
pub proof fn law_resize_keeps_bottom_anchor(height: int, new_height: int)
    requires
        0 <= height <= new_height <= u16::MAX,
    ensures
        sat_add16(sat_sub(new_height, height), height) == new_height,
{
}

/// After a resize, a viewport no taller than the new screen fits in it.
pub proof fn law_resize_fits(old_top: int, height: int, new_height: int, aligned: bool)
    requires
        0 <= old_top <= u16::MAX,
        0 <= height <= new_height <= u16::MAX,
    ensures
        ({
            let top = if aligned || sat_add16(old_top, height) > new_height {
                sat_sub(new_height, height)
            } else {
                old_top
            };
            sat_add16(top, height) <= new_height
        }),
{
}

/// Scrolling up moves the viewport by exactly `min(delta, top)` rows and never
/// above the first row.
pub proof fn law_scroll_up_bounded(top: int, delta: int)
    requires
        0 <= top <= u16::MAX,
        0 <= delta <= u16::MAX,
    ensures
        ({
            let moved = if delta <= top { delta } else { top };
            0 <= top - moved && moved <= delta
        }),
{
}

} // verus!

//! Cursor over the day columns of the board: the focused column, a remembered
//! row and scroll offset per column, and an optional picked-up todo.
use vstd::prelude::*;
use crate::settings::Vertical;

verus! {

/// A todo picked up for moving, and where it was last seen.
#[derive(Clone, Copy, Debug, PartialEq, Eq, Structural)]
pub struct Selection {
    pub id: u128,
    pub column: usize,
    pub row: Option<usize>,
}

pub struct CursorState {
    pub focus: usize,
    pub day_rows: Vec<usize>,
    pub scroll_offsets: Vec<usize>,
    pub selection: Option<Selection>,
}

/// A remembered row clamped into a column of `len` rows.
pub open spec fn clamp_row(row: usize, len: usize) -> usize {
    if len == 0 {
        0
    } else if row >= len {
        (len - 1) as usize
    } else {
        row
    }
}

impl CursorState {
    pub open spec fn wf(&self) -> bool {
        self.day_rows@.len() == self.scroll_offsets@.len()
    }

    pub fn new(num_days: usize) -> (r: CursorState)
        ensures
            r.wf(),
            r.focus == 0,
            r.day_rows@ == Seq::new(num_days as nat, |i: int| 0usize),
            r.scroll_offsets@ == Seq::new(num_days as nat, |i: int| 0usize),
            r.selection is None,
    {
        let mut day_rows: Vec<usize> = Vec::new();
        let mut scroll_offsets: Vec<usize> = Vec::new();
        let mut i: usize = 0;
        while i < num_days
            invariant
                i <= num_days,
                day_rows@ == Seq::new(i as nat, |k: int| 0usize),
                scroll_offsets@ == Seq::new(i as nat, |k: int| 0usize),
            decreases num_days - i,
        {
            day_rows.push(0);
            scroll_offsets.push(0);
            i += 1;
            assert(day_rows@ =~= Seq::new(i as nat, |k: int| 0usize));
            assert(scroll_offsets@ =~= Seq::new(i as nat, |k: int| 0usize));
        }
        CursorState { focus: 0, day_rows, scroll_offsets, selection: None }
    }

    /// Moves the focused column's row one step in `dir` within `len` rows and
    /// drops the selection; an empty column changes nothing.
    pub fn move_vertical(&mut self, dir: Vertical, len: usize)
        requires
            old(self).wf(),
            old(self).focus < old(self).day_rows@.len(),
        ensures
            final(self).wf(),
            len == 0 ==> *final(self) == *old(self),
            len > 0 ==> final(self).day_rows@ == old(self).day_rows@.update(
                old(self).focus as int,
                if dir == Vertical::Up {
                    if old(self).day_rows@[old(self).focus as int] > 0 {
                        (old(self).day_rows@[old(self).focus as int] - 1) as usize
                    } else {
                        0usize
                    }
                } else if old(self).day_rows@[old(self).focus as int] + 1 < len {
                    (old(self).day_rows@[old(self).focus as int] + 1) as usize
                } else {
                    old(self).day_rows@[old(self).focus as int]
                },
            ) && final(self).selection is None && final(self).focus == old(self).focus
                && final(self).scroll_offsets == old(self).scroll_offsets,
    {
        if len == 0 {
            return;
        }
        let row = self.day_rows[self.focus];
        let next = crate::settings::step_row(row, len, dir);
        self.day_rows.set(self.focus, next);
        self.selection = None;
    }

    /// The remembered row of `col`, where that column has `len` rows and the
    /// row is among them.
    pub fn row_for(&self, col: usize, len: usize) -> (r: Option<usize>)
        ensures
            len == 0 || col >= self.day_rows@.len() || self.day_rows@[col as int] >= len ==> r is None,
            len > 0 && col < self.day_rows@.len() && self.day_rows@[col as int] < len ==> r == Some(
                self.day_rows@[col as int],
            ),
    {
        if len == 0 || col >= self.day_rows.len() {
            return None;
        }
        let row = self.day_rows[col];
        if row < len {
            Some(row)
        } else {
            None
        }
    }

    pub fn is_selected(&self, id: u128) -> (r: bool)
        ensures
            r == (self.selection matches Some(s) && s.id == id),
    {
        match self.selection {
            Some(s) => s.id == id,
            None => false,
        }
    }

    /// Fits the cursor to columns of the lengths `lens` after the board was
    /// reloaded. `found` is where the selected todo now stands, if it is still
    /// on the board; the selection follows it or is dropped.
    pub fn sync_after_refresh(&mut self, lens: &Vec<usize>, found: Option<(usize, usize)>)
        requires
            old(self).wf(),
            found matches Some(p) ==> p.0 < lens@.len(),
        ensures
            final(self).wf(),
            final(self).day_rows@.len() == lens@.len(),
            lens@.len() > 0 ==> final(self).focus < lens@.len(),
            forall|c: int|
                0 <= c < lens@.len() && (old(self).selection is None || found is None || c
                    != found.unwrap().0) ==> #[trigger] final(self).day_rows@[c] == clamp_row(
                    if c < old(self).day_rows@.len() {
                        old(self).day_rows@[c]
                    } else {
                        0usize
                    },
                    lens@[c],
                ),
            forall|c: int|
                0 <= c < lens@.len() ==> #[trigger] final(self).scroll_offsets@[c] == clamp_row(
                    if c < old(self).scroll_offsets@.len() {
                        old(self).scroll_offsets@[c]
                    } else {
                        0usize
                    },
                    lens@[c],
                ),
            old(self).selection is None ==> final(self).selection is None,
            old(self).selection matches Some(s) ==> match found {
                Some(p) => final(self).selection == Some(
                    Selection { column: p.0, row: Some(p.1), ..s },
                ) && final(self).day_rows@[p.0 as int] == p.1,
                None => final(self).selection is None,
            },
    {
        let n = lens.len();
        let ghost old_rows = self.day_rows@;
        let ghost old_scroll = self.scroll_offsets@;
        let mut rows: Vec<usize> = Vec::new();
        let mut scrolls: Vec<usize> = Vec::new();
        let mut i: usize = 0;
        while i < n
            invariant
                n == lens@.len(),
                i <= n,
                old_rows == self.day_rows@,
                old_scroll == self.scroll_offsets@,
                rows@.len() == i,
                scrolls@.len() == i,
                forall|c: int|
                    0 <= c < i ==> #[trigger] rows@[c] == clamp_row(
                        if c < old_rows.len() {
                            old_rows[c]
                        } else {
                            0usize
                        },
                        lens@[c],
                    ),
                forall|c: int|
                    0 <= c < i ==> #[trigger] scrolls@[c] == clamp_row(
                        if c < old_scroll.len() {
                            old_scroll[c]
                        } else {
                            0usize
                        },
                        lens@[c],
                    ),
            decreases n - i,
        {
            let len = lens[i];
            let row = if i < self.day_rows.len() {
                self.day_rows[i]
            } else {
                0
            };
            let scroll = if i < self.scroll_offsets.len() {
                self.scroll_offsets[i]
            } else {
                0
            };
            if len == 0 {
                rows.push(0);
                scrolls.push(0);
            } else {
                rows.push(if row >= len { len - 1 } else { row });
                scrolls.push(if scroll >= len { len - 1 } else { scroll });
            }
            i += 1;
        }
        self.day_rows = rows;
        self.scroll_offsets = scrolls;
        if self.focus >= n {
            self.focus = if n > 0 { n - 1 } else { 0 };
        }
        if let Some(selection) = self.selection {
            match found {
                Some((col, row)) => {
                    self.selection = Some(Selection { column: col, row: Some(row), ..selection });
                    self.day_rows.set(col, row);
                },
                None => {
                    self.selection = None;
                },
            }
        }
    }

    /// Scrolls column `col` so that its row lies within `visible_rows` lines.
    pub fn ensure_visible(&mut self, col: usize, visible_rows: usize)
        requires
            old(self).wf(),
        ensures
            final(self).wf(),
            final(self).day_rows == old(self).day_rows,
            final(self).focus == old(self).focus,
            final(self).selection == old(self).selection,
            col >= old(self).scroll_offsets@.len() ==> final(self).scroll_offsets == old(
                self,
            ).scroll_offsets,
            col < old(self).scroll_offsets@.len() ==> {
                let row = old(self).day_rows@[col as int];
                let scroll = old(self).scroll_offsets@[col as int];
                final(self).scroll_offsets@ == old(self).scroll_offsets@.update(
                    col as int,
                    if row < scroll {
                        row
                    } else if row >= scroll + visible_rows {
                        if visible_rows == 0 {
                            row
                        } else {
                            (row - (visible_rows - 1)) as usize
                        }
                    } else {
                        scroll
                    },
                )
            },
    {
        if col >= self.scroll_offsets.len() {
            return;
        }
        let row = self.day_rows[col];
        let scroll = self.scroll_offsets[col];
        if row < scroll {
            self.scroll_offsets.set(col, row);
        } else if row - scroll >= visible_rows {
            let keep = if visible_rows > 0 { visible_rows - 1 } else { 0 };
            self.scroll_offsets.set(col, row - keep);
        }
    }

    pub fn scroll_offset(&self, col: usize) -> (r: usize)
        ensures
            col < self.scroll_offsets@.len() ==> r == self.scroll_offsets@[col as int],
            col >= self.scroll_offsets@.len() ==> r == 0,
    {
        if col < self.scroll_offsets.len() {
            self.scroll_offsets[col]
        } else {
            0
        }
    }

    /// Focuses `row` of `col` and drops the selection.
    pub fn set_focus_row(&mut self, col: usize, row: usize)
        requires
            old(self).wf(),
        ensures
            final(self).wf(),
            final(self).focus == col,
            final(self).selection is None,
            final(self).scroll_offsets == old(self).scroll_offsets,
            col < old(self).day_rows@.len() ==> final(self).day_rows@ == old(self).day_rows@.update(
                col as int,
                row,
            ),
            col >= old(self).day_rows@.len() ==> final(self).day_rows == old(self).day_rows,
    {
        self.focus = col;
        if col < self.day_rows.len() {
            self.day_rows.set(col, row);
        }
        self.selection = None;
    }
}

} // verus!

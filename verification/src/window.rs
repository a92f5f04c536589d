//! A window onto a buffer: cursor, scroll offsets, selection and cached
//! search matches.
use vstd::prelude::*;
use vstd::utf8::encode_utf8;
use crate::buffer::{Buffer, occurrences};
use crate::text::{line_of, col_of, line_count};
use crate::strs::{str_eq, str_to_string};

verus! {

/// Lines kept visible above and below the cursor when the window is tall
/// enough.
pub const SCROLL_MARGIN: usize = 5;

/// Columns kept visible left of the cursor after a horizontal jump.
pub const H_MARGIN: usize = 10;

/// A view of a buffer.
pub struct Window {
    pub buffer_id: usize,
    pub cursor: usize,
    pub scroll_y: usize,
    pub scroll_x: usize,
    pub visible_lines: usize,
    pub visible_cols: usize,
    pub selection: Option<(usize, usize)>,
    pub search_matches: Vec<usize>,
    pub search_version: u64,
    pub search_cached_pattern: String,
}

/// The vertical scroll that keeps line `cl` visible, from scroll `sy` in a
/// window of `vl` lines over `total` lines.
pub open spec fn scroll_y_for(cl: int, sy: int, vl: int, total: int) -> int {
    let m = SCROLL_MARGIN as int;
    let y = if vl > m * 2 {
        if cl < sy + m {
            if cl > m { cl - m } else { 0 }
        } else if cl + m >= sy + vl {
            if cl + m + 1 > vl { cl + m + 1 - vl } else { 0 }
        } else {
            sy
        }
    } else if cl < sy {
        cl
    } else if cl >= sy + vl {
        cl + 1 - vl
    } else {
        sy
    };
    let max_scroll = if total > 1 { total - 1 } else { 0 };
    if y < max_scroll { y } else { max_scroll }
}

/// The horizontal scroll that keeps column `cc` visible, from scroll `sx` in
/// a window of `vc` columns.
pub open spec fn scroll_x_for(cc: int, sx: int, vc: int) -> int {
    let h = H_MARGIN as int;
    if cc < sx {
        if cc > h { cc - h } else { 0 }
    } else if cc >= sx + vc {
        cc + 1 + h - vc
    } else {
        sx
    }
}

impl Window {
    /// A window on buffer `buffer_id`, cursor at the start, 40 lines by 80
    /// columns, nothing selected or searched.
    pub fn new(buffer_id: usize) -> (w: Self)
        ensures
            w.buffer_id == buffer_id,
            w.cursor == 0,
            w.scroll_y == 0,
            w.scroll_x == 0,
            w.visible_lines == 40,
            w.visible_cols == 80,
            w.selection is None,
            w.search_matches@.len() == 0,
            w.search_version == u64::MAX,
            w.search_cached_pattern@ == Seq::<char>::empty(),
    {
        Window {
            buffer_id,
            cursor: 0,
            scroll_y: 0,
            scroll_x: 0,
            visible_lines: 40,
            visible_cols: 80,
            selection: None,
            search_matches: Vec::new(),
            search_version: u64::MAX,
            search_cached_pattern: String::new(),
        }
    }

    /// Scrolls so that the cursor stays visible, with a margin of lines
    /// around it when the window is tall enough.
    pub fn ensure_cursor_visible(&mut self, buffer: &Buffer)
        requires
            buffer.wf(),
            old(self).cursor <= buffer@.len(),
            buffer@.len() + 16 <= usize::MAX,
            old(self).scroll_y + old(self).visible_lines + 16 <= usize::MAX,
            old(self).scroll_x + old(self).visible_cols + 16 <= usize::MAX,
        ensures
            final(self).scroll_y == scroll_y_for(
                line_of(buffer@, old(self).cursor as int) as int,
                old(self).scroll_y as int,
                old(self).visible_lines as int,
                line_count(buffer@) as int,
            ),
            final(self).scroll_x == scroll_x_for(
                col_of(buffer@, old(self).cursor as int),
                old(self).scroll_x as int,
                old(self).visible_cols as int,
            ),
            final(self).cursor == old(self).cursor,
            final(self).buffer_id == old(self).buffer_id,
            final(self).visible_lines == old(self).visible_lines,
            final(self).visible_cols == old(self).visible_cols,
            final(self).selection == old(self).selection,
            final(self).search_matches@ == old(self).search_matches@,
            final(self).search_version == old(self).search_version,
            final(self).search_cached_pattern@ == old(self).search_cached_pattern@,
    {
        let (cursor_line, cursor_col) = buffer.cursor_position(self.cursor);
        proof {
            crate::text::lemma_nl_count_le_len(buffer@);
            crate::text::lemma_line_of_bounds(buffer@, self.cursor as int);
            crate::text::lemma_line_start_bounds(buffer@, line_of(buffer@, self.cursor as int));
        }
        let total = buffer.total_lines();
        if self.visible_lines > SCROLL_MARGIN * 2 {
            if cursor_line < self.scroll_y + SCROLL_MARGIN {
                self.scroll_y = cursor_line.saturating_sub(SCROLL_MARGIN);
            } else if cursor_line + SCROLL_MARGIN >= self.scroll_y + self.visible_lines {
                self.scroll_y = (cursor_line + SCROLL_MARGIN + 1).saturating_sub(self.visible_lines);
            }
        } else if cursor_line < self.scroll_y {
            self.scroll_y = cursor_line;
        } else if cursor_line >= self.scroll_y + self.visible_lines {
            self.scroll_y = cursor_line + 1 - self.visible_lines;
        }
        let max_scroll = total.saturating_sub(1);
        if max_scroll < self.scroll_y {
            self.scroll_y = max_scroll;
        }
        let h_margin = H_MARGIN;
        if cursor_col < self.scroll_x {
            self.scroll_x = cursor_col.saturating_sub(h_margin);
        } else if cursor_col >= self.scroll_x + self.visible_cols {
            self.scroll_x = cursor_col + 1 + h_margin - self.visible_cols;
        }
    }

    /// Refreshes the cached search matches unless the pattern and the
    /// buffer's change counter are those they were computed for.
    pub fn update_search_cache(&mut self, buffer: &Buffer, pattern: &str)
        requires
            buffer.wf(),
        ensures
            pattern@ == old(self).search_cached_pattern@ && buffer.version_num()
                == old(self).search_version ==> final(self).search_matches@
                == old(self).search_matches@,
            !(pattern@ == old(self).search_cached_pattern@ && buffer.version_num()
                == old(self).search_version) ==> {
                &&& pattern@.len() == 0 ==> final(self).search_matches@.len() == 0
                &&& pattern@.len() > 0 ==> {
                    let occ = occurrences(buffer@, pattern@, 0);
                    &&& final(self).search_matches@.len() == occ.len()
                    &&& forall|k: int|
                        0 <= k < occ.len() ==> final(self).search_matches@[k] == occ[k]
                }
            },
            final(self).search_cached_pattern@ == pattern@,
            final(self).search_version == buffer.version_num(),
            final(self).cursor == old(self).cursor,
            final(self).buffer_id == old(self).buffer_id,
            final(self).scroll_y == old(self).scroll_y,
            final(self).scroll_x == old(self).scroll_x,
            final(self).visible_lines == old(self).visible_lines,
            final(self).visible_cols == old(self).visible_cols,
            final(self).selection == old(self).selection,
    {
        let version = buffer.version();
        if str_eq(pattern, self.search_cached_pattern.as_str()) && version == self.search_version {
            return;
        }
        self.search_matches = buffer.find_all(pattern);
        self.search_cached_pattern = str_to_string(pattern);
        self.search_version = version;
    }
}

} // verus!

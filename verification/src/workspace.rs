//! A workspace: the windows on screen, how they are laid out, and which of
//! them has focus.
use vstd::prelude::*;
use crate::layout::{LayoutNode, SplitDirection, first_index, shift_ids};
use crate::window::Window;

verus! {

/// The windows of a workspace, their layout, the focused one, and the
/// working directory.
pub struct Workspace {
    pub windows: Vec<Window>,
    pub layout: LayoutNode,
    pub active_window: usize,
    pub cwd: String,
}

/// `s` holds each of `0..n` exactly once.
pub open spec fn ids_exactly(s: Seq<usize>, n: nat) -> bool {
    &&& forall|k: int| 0 <= k < s.len() ==> s[k] < n
    &&& forall|j: int, k: int| 0 <= j < k < s.len() ==> s[j] != s[k]
    &&& forall|x: usize| x < n ==> s.contains(x)
}

/// The window that takes focus when window `id` closes: the one before it
/// in the layout, or after it when it comes first.
pub open spec fn focus_after_close(leaves: Seq<usize>, id: usize) -> usize {
    let p = first_index(leaves, id);
    if p > 0 { leaves[p - 1] } else { leaves[1] }
}

/// Window id `x` after window `removed` was closed.
pub open spec fn shifted_id(x: usize, removed: usize) -> usize {
    if x > removed { (x - 1) as usize } else { x }
}

impl Workspace {
    /// The focused window exists, and the layout shows each window once.
    pub open spec fn wf(&self) -> bool {
        &&& self.active_window < self.windows@.len()
        &&& ids_exactly(self.layout.leaves_spec(), self.windows@.len())
    }

    /// One fresh window on buffer `buffer_id`, focused.
    pub fn new(buffer_id: usize, cwd: String) -> (ws: Self)
        ensures
            ws.wf(),
            ws.windows@.len() == 1,
            ws.active_window == 0,
            ws.windows@[0].buffer_id == buffer_id,
            ws.windows@[0].cursor == 0,
            ws.windows@[0].selection is None,
            ws.cwd@ == cwd@,
            ws.layout == LayoutNode::Leaf(0),
    {
        let w = Window::new(buffer_id);
        let ws = Workspace { windows: vec![w], layout: LayoutNode::single(0), active_window: 0, cwd };
        proof {
            assert(ws.layout.leaves_spec() == seq![0usize]);
            assert forall|x: usize| x < 1 implies ws.layout.leaves_spec().contains(x) by {
                assert(ws.layout.leaves_spec()[0] == x);
            }
        }
        ws
    }

    /// The focused window.
    pub fn window(&self) -> (w: &Window)
        requires
            self.wf(),
        ensures
            *w == self.windows@[self.active_window as int],
    {
        &self.windows[self.active_window]
    }

    /// The focused window, for changing it.
    pub fn window_mut(&mut self) -> (w: &mut Window)
        requires
            old(self).wf(),
        ensures
            *w == old(self).windows@[old(self).active_window as int],
            final(self).windows@ == old(self).windows@.update(
                old(self).active_window as int,
                *final(w),
            ),
            final(self).active_window == old(self).active_window,
            final(self).cwd == old(self).cwd,
            final(self).layout == old(self).layout,
    {
        &mut self.windows[self.active_window]
    }

    /// The focused window's cursor.
    pub fn cursor(&self) -> (c: usize)
        requires
            self.wf(),
        ensures
            c == self.windows@[self.active_window as int].cursor,
    {
        self.windows[self.active_window].cursor
    }
    /// Shows buffer `buffer_id` (of `buf_len_chars` chars) in the focused
    /// window, keeping the cursor on the text and dropping the selection.
    pub fn switch_buffer(&mut self, buffer_id: usize, buf_len_chars: usize)
        requires
            old(self).wf(),
        ensures
            final(self).wf(),
            ({
                let i = old(self).active_window as int;
                let o = old(self).windows@[i];
                let n = final(self).windows@[i];
                let last = if buf_len_chars > 0 { buf_len_chars - 1 } else { 0 };
                &&& final(self).windows@.len() == old(self).windows@.len()
                &&& forall|j: int| 0 <= j < old(self).windows@.len() && j != i ==> final(self).windows@[j] == old(self).windows@[j]
                &&& n.buffer_id == buffer_id
                &&& n.cursor == (if o.cursor < last { o.cursor as int } else { last })
                &&& n.selection is None
                &&& n.scroll_y == o.scroll_y && n.scroll_x == o.scroll_x
                &&& n.visible_lines == o.visible_lines && n.visible_cols == o.visible_cols
                &&& n == (Window { buffer_id, cursor: n.cursor, selection: None, ..o })
            }),
            final(self).active_window == old(self).active_window,
            final(self).cwd == old(self).cwd,
            final(self).layout == old(self).layout,
    {
        let i = self.active_window;
        let last = buf_len_chars.saturating_sub(1);
        let c = self.windows[i].cursor;
        self.windows[i].buffer_id = buffer_id;
        self.windows[i].cursor = if c < last { c } else { last };
        self.windows[i].selection = None;
    }

    /// Shows buffer `buffer_id` from its start in the focused window: cursor
    /// and scroll at 0, no selection.
    pub fn reset_window_for_buffer(&mut self, buffer_id: usize)
        requires
            old(self).wf(),
        ensures
            final(self).wf(),
            ({
                let i = old(self).active_window as int;
                let o = old(self).windows@[i];
                let n = final(self).windows@[i];
                &&& final(self).windows@.len() == old(self).windows@.len()
                &&& forall|j: int| 0 <= j < old(self).windows@.len() && j != i ==> final(self).windows@[j] == old(self).windows@[j]
                &&& n.buffer_id == buffer_id
                &&& n.cursor == 0
                &&& n.selection is None
                &&& n.scroll_y == 0 && n.scroll_x == 0
                &&& n.visible_lines == o.visible_lines && n.visible_cols == o.visible_cols
            }),
            final(self).active_window == old(self).active_window,
            final(self).cwd == old(self).cwd,
            final(self).layout == old(self).layout,
    {
        let i = self.active_window;
        self.windows[i].buffer_id = buffer_id;
        self.windows[i].cursor = 0;
        self.windows[i].selection = None;
        self.windows[i].scroll_y = 0;
        self.windows[i].scroll_x = 0;
    }

    /// After buffer `removed` was closed, leaving `buf_count` buffers: windows
    /// that showed it show the buffer now at its index (or the last one) from
    /// the start; windows on later buffers follow their buffer's index down.
    pub fn fix_buffer_ids_after_remove(&mut self, removed: usize, buf_count: usize)
        requires
            buf_count > 0 || forall|j: int| 0 <= j < old(self).windows@.len() ==> old(self).windows@[j].buffer_id != removed,
        ensures
            final(self).windows@.len() == old(self).windows@.len(),
            forall|j: int| 0 <= j < old(self).windows@.len() ==> {
                let o = #[trigger] old(self).windows@[j];
                let n = final(self).windows@[j];
                &&& o.buffer_id == removed ==> n.buffer_id == (if removed < buf_count - 1 { removed as int } else { buf_count - 1 }) && n.cursor == 0 && n.selection is None
                &&& o.buffer_id > removed ==> n.buffer_id == o.buffer_id - 1 && n.cursor == o.cursor && n.selection == o.selection
                &&& o.buffer_id < removed ==> n.buffer_id == o.buffer_id && n.cursor == o.cursor && n.selection == o.selection
                &&& n.scroll_y == o.scroll_y && n.scroll_x == o.scroll_x
                &&& o.buffer_id == removed ==> n == (Window { buffer_id: n.buffer_id, cursor: 0, selection: None, ..o })
                &&& o.buffer_id > removed ==> n == (Window { buffer_id: n.buffer_id, ..o })
                &&& o.buffer_id < removed ==> n == o
            },
            final(self).active_window == old(self).active_window,
            final(self).cwd == old(self).cwd,
            final(self).layout == old(self).layout,
    {
        let n = self.windows.len();
        let mut j: usize = 0;
        while j < n
            invariant
                n == self.windows@.len(),
                n == old(self).windows@.len(),
                j <= n,
                self.active_window == old(self).active_window,
                self.cwd == old(self).cwd,
                self.layout == old(self).layout,
                buf_count > 0 || forall|k: int| 0 <= k < old(self).windows@.len() ==> old(self).windows@[k].buffer_id != removed,
                forall|k: int| j <= k < n ==> self.windows@[k] == old(self).windows@[k],
                forall|k: int| 0 <= k < j ==> {
                    let o = #[trigger] old(self).windows@[k];
                    let w = self.windows@[k];
                    &&& o.buffer_id == removed ==> w.buffer_id == (if removed < buf_count - 1 { removed as int } else { buf_count - 1 }) && w.cursor == 0 && w.selection is None
                    &&& o.buffer_id > removed ==> w.buffer_id == o.buffer_id - 1 && w.cursor == o.cursor && w.selection == o.selection
                    &&& o.buffer_id < removed ==> w.buffer_id == o.buffer_id && w.cursor == o.cursor && w.selection == o.selection
                    &&& w.scroll_y == o.scroll_y && w.scroll_x == o.scroll_x
                    &&& o.buffer_id == removed ==> w == (Window { buffer_id: w.buffer_id, cursor: 0, selection: None, ..o })
                    &&& o.buffer_id > removed ==> w == (Window { buffer_id: w.buffer_id, ..o })
                    &&& o.buffer_id < removed ==> w == o
                },
            decreases n - j,
        {
            let id = self.windows[j].buffer_id;
            if id == removed {
                let last = buf_count - 1;
                self.windows[j].buffer_id = if removed < last { removed } else { last };
                self.windows[j].cursor = 0;
                self.windows[j].selection = None;
            } else if id > removed {
                self.windows[j].buffer_id = id - 1;
            }
            j = j + 1;
        }
    }
}


/// Inserting a new id `n` into a list holding each of `0..n` once gives one
/// holding each of `0..n+1` once.
proof fn lemma_ids_insert(s: Seq<usize>, n: usize, p: int)
    requires
        ids_exactly(s, n as nat),
        0 <= p <= s.len(),
    ensures
        ids_exactly(s.insert(p, n), (n + 1) as nat),
{
    let t = s.insert(p, n);
    s.insert_ensures(p, n);
    assert forall|j: int, k: int| 0 <= j < k < t.len() implies t[j] != t[k] by {
        if j < p && k < p {
        } else if j < p && k == p {
        } else if j < p {
            assert(t[k] == s[k - 1]);
        } else if j == p {
            assert(t[k] == s[k - 1]);
        } else {
            assert(t[j] == s[j - 1]);
            assert(t[k] == s[k - 1]);
        }
    }
    assert forall|x: usize| x < n + 1 implies t.contains(x) by {
        if x == n {
            assert(t[p] == n);
        } else {
            assert(s.contains(x));
            let i = choose|i: int| 0 <= i < s.len() && s[i] == x;
            if i < p {
                assert(t[i] == x);
            } else {
                assert(t[i + 1] == x);
            }
        }
    }
}

/// Removing id `id` (at `i`) from a list holding each of `0..n` once and
/// shifting the ids above it down gives one holding each of `0..n-1` once.
proof fn lemma_ids_remove(s: Seq<usize>, n: usize, id: usize, i: int)
    requires
        ids_exactly(s, n as nat),
        0 <= i < s.len(),
        s[i] == id,
    ensures
        ids_exactly(shift_ids(s.remove(i), id), (n - 1) as nat),
        forall|k: int| 0 <= k < s.remove(i).len() ==> s.remove(i)[k] != id,
{
    let r = s.remove(i);
    let t = shift_ids(r, id);
    s.remove_ensures(i);
    assert forall|k: int| 0 <= k < r.len() implies r[k] != id by {
        if k < i {
            assert(r[k] == s[k]);
        } else {
            assert(r[k] == s[k + 1]);
        }
    }
    assert forall|k: int| 0 <= k < t.len() implies t[k] < n - 1 by {
        if k < i {
            assert(r[k] == s[k]);
        } else {
            assert(r[k] == s[k + 1]);
        }
    }
    assert forall|j: int, k: int| 0 <= j < k < t.len() implies t[j] != t[k] by {
        let jj = if j < i { j } else { j + 1 };
        let kk = if k < i { k } else { k + 1 };
        assert(r[j] == s[jj]);
        assert(r[k] == s[kk]);
    }
    assert forall|x: usize| x < n - 1 implies t.contains(x) by {
        let y: usize = if x < id { x } else { (x + 1) as usize };
        assert(s.contains(y));
        let m = choose|m: int| 0 <= m < s.len() && s[m] == y;
        assert(m != i);
        let k = if m < i { m } else { m - 1 };
        assert(r[k] == y);
        assert(t[k] == x);
    }
}

impl Workspace {
    /// Splits the focused window in `direction`: a new window on the same
    /// buffer, at the same place, comes after it and takes focus.
    pub fn split(&mut self, direction: SplitDirection)
        requires
            old(self).wf(),
            old(self).windows@.len() < usize::MAX,
        ensures
            final(self).wf(),
            final(self).windows@.len() == old(self).windows@.len() + 1,
            forall|j: int| 0 <= j < old(self).windows@.len() ==> final(self).windows@[j] == old(self).windows@[j],
            final(self).windows@.last().buffer_id == old(self).windows@[old(self).active_window as int].buffer_id,
            final(self).windows@.last().cursor == old(self).windows@[old(self).active_window as int].cursor,
            final(self).layout == old(self).layout.split_spec(
                old(self).active_window,
                old(self).windows@.len() as usize,
                direction,
            ).0,
            final(self).active_window == old(self).windows@.len(),
            final(self).cwd == old(self).cwd,
    {
        let new_id = self.windows.len();
        let active = self.active_window;
        let mut w = Window::new(self.windows[active].buffer_id);
        w.cursor = self.windows[active].cursor;
        w.scroll_y = self.windows[active].scroll_y;
        w.scroll_x = self.windows[active].scroll_x;
        self.windows.push(w);
        proof {
            let leaves = old(self).layout.leaves_spec();
            assert(leaves.contains(active));
            old(self).layout.lemma_split_leaves(active, new_id, direction);
            crate::layout::lemma_first_index_found(leaves, active);
            lemma_ids_insert(leaves, new_id, first_index(leaves, active) + 1);
        }
        self.layout.split_leaf(active, new_id, direction);
        self.active_window = new_id;
    }

    /// Closes the focused window when there is another; focus goes to the
    /// window before it in the layout (after it, when it came first), and
    /// later windows move down one id.
    pub fn close_window(&mut self)
        requires
            old(self).wf(),
            old(self).layout.leaves_spec().len() > 1,
        ensures
            final(self).wf(),
            ({
                let id = old(self).active_window;
                &&& final(self).windows@ == old(self).windows@.remove(id as int)
                &&& final(self).layout == old(self).layout.remove_spec(id).0.shift_spec(id)
                &&& final(self).active_window == shifted_id(focus_after_close(old(self).layout.leaves_spec(), id), id)
            }),
            final(self).cwd == old(self).cwd,
    {
        let id = self.active_window;
        let n = self.windows.len();
        let ghost leaves = self.layout.leaves_spec();
        let order = self.layout.leaves();
        let mut p: usize = 0;
        while p < order.len() && order[p] != id
            invariant
                order@ == leaves,
                p <= order@.len(),
                forall|k: int| 0 <= k < p ==> order@[k] != id,
            decreases order@.len() - p,
        {
            p = p + 1;
        }
        proof {
            assert(leaves.contains(id));
            crate::layout::lemma_first_index_found(leaves, id);
            lemma_first_index_is(leaves, id, p as int);
        }
        let focus = if p > 0 { order[p - 1] } else { order[1] };
        proof {
            assert(focus != id);
            assert(focus < old(self).windows@.len());
        }
        self.layout.remove_leaf(id);
        proof {
            let i = choose|i: int|
                0 <= i < leaves.len() && leaves[i] == id && self.layout.leaves_spec() == leaves.remove(i);
            assert(i == p) by {
                if i != p {
                    assert(leaves[i] == leaves[p as int]);
                }
            }
            lemma_ids_remove(leaves, n, id, p as int);
        }
        self.windows.remove(id);
        self.layout.fix_ids_after_remove(id);
        self.active_window = if focus > id { focus - 1 } else { focus };
    }

    /// Moves focus to the window next to the focused one in `direction`
    /// (towards the second half when `forward`), if there is one.
    pub fn focus_direction(&mut self, direction: SplitDirection, forward: bool)
        requires
            old(self).wf(),
        ensures
            final(self).wf(),
            final(self).active_window == match old(self).layout.neighbor_spec(old(self).active_window, direction, forward) {
                Some(x) => x,
                None => old(self).active_window,
            },
            final(self).windows@ == old(self).windows@,
            final(self).layout == old(self).layout,
            final(self).cwd == old(self).cwd,
    {
        proof {
            self.layout.lemma_neighbor_in_layout(self.active_window, direction, forward);
        }
        if let Some(id) = self.layout.neighbor(self.active_window, direction, forward) {
            proof {
                let leaves = self.layout.leaves_spec();
                let i = choose|i: int| 0 <= i < leaves.len() && leaves[i] == id;
            }
            self.active_window = id;
        }
    }
}

/// The first index of `x` is the one before which `x` does not occur.
proof fn lemma_first_index_is(s: Seq<usize>, x: usize, p: int)
    requires
        0 <= p <= s.len(),
        forall|k: int| 0 <= k < p ==> s[k] != x,
        p < s.len() ==> s[p] == x,
        s.contains(x),
    ensures
        p < s.len(),
        first_index(s, x) == p,
    decreases s.len(),
{
    if p == s.len() {
        let i = choose|i: int| 0 <= i < s.len() && s[i] == x;
        assert(false);
    }
    if p > 0 {
        assert(s.drop_first().contains(x)) by {
            assert(s.drop_first()[p - 1] == x);
        }
        lemma_first_index_is(s.drop_first(), x, p - 1);
    }
}

/// Closing a window just split off gives the workspace back: the same
/// windows, the same layout, and focus on the window that was split.
pub proof fn law_close_undoes_split(ws: Workspace, direction: SplitDirection)
    requires
        ws.wf(),
        ws.windows@.len() < usize::MAX,
    ensures
        ({
            let n = ws.windows@.len() as usize;
            let split_layout = ws.layout.split_spec(ws.active_window, n, direction).0;
            let leaves2 = split_layout.leaves_spec();
            &&& split_layout.remove_spec(n).0.shift_spec(n) == ws.layout
            &&& shifted_id(focus_after_close(leaves2, n), n) == ws.active_window
        }),
{
    let n = ws.windows@.len() as usize;
    let leaves = ws.layout.leaves_spec();
    assert(leaves.contains(ws.active_window));
    if leaves.contains(n) {
        let i = choose|i: int| 0 <= i < leaves.len() && leaves[i] == n;
        assert(false);
    }
    crate::layout::law_remove_undoes_split(ws.layout, ws.active_window, n, direction);
    lemma_shift_noop(ws.layout, n);
    ws.layout.lemma_split_leaves(ws.active_window, n, direction);
    crate::layout::lemma_first_index_found(leaves, ws.active_window);
    let k = first_index(leaves, ws.active_window);
    let leaves2 = leaves.insert(k + 1, n);
    lemma_ids_insert(leaves, n, k + 1);
    assert(leaves2[k + 1] == n);
    assert(leaves2.contains(n));
    lemma_first_index_is(leaves2, n, k + 1);
    assert(leaves2[k] == ws.active_window);
}

/// Shifting ids above one that no window has changes nothing.
proof fn lemma_shift_noop(l: LayoutNode, n: usize)
    requires
        forall|k: int| 0 <= k < l.leaves_spec().len() ==> l.leaves_spec()[k] < n,
    ensures
        l.shift_spec(n) == l,
    decreases l,
{
    match l {
        LayoutNode::Leaf(id) => {
            assert(l.leaves_spec()[0] == id);
        },
        LayoutNode::Split { first, second, .. } => {
            let a = first.leaves_spec();
            let b = second.leaves_spec();
            assert forall|k: int| 0 <= k < a.len() implies a[k] < n by {
                assert((a + b)[k] == a[k]);
                assert(l.leaves_spec()[k] < n);
            }
            assert forall|k: int| 0 <= k < b.len() implies b[k] < n by {
                assert((a + b)[a.len() + k] == b[k]);
                assert(l.leaves_spec()[a.len() + k] < n);
            }
            lemma_shift_noop(*first, n);
            lemma_shift_noop(*second, n);
        },
    }
}

} // verus!

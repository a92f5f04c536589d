//! The window layout: a binary tree of splits whose leaves are window ids.
use vstd::prelude::*;

verus! {

/// How a split divides its area.
#[derive(Debug, Clone, Copy, PartialEq, Eq, Structural)]
pub enum SplitDirection {
    Horizontal,
    Vertical,
}

/// A layout: one window, or an area split in two halves, `first` to the
/// left of (or above) `second`.
pub enum LayoutNode {
    Leaf(usize),
    Split { direction: SplitDirection, first: Box<LayoutNode>, second: Box<LayoutNode> },
}

/// `s` with every id above `removed` lowered by one.
pub open spec fn shift_ids(s: Seq<usize>, removed: usize) -> Seq<usize> {
    s.map_values(|id: usize| if id > removed { (id - 1) as usize } else { id })
}

/// The index of the first `x` in `s`.
pub open spec fn first_index(s: Seq<usize>, x: usize) -> int
    decreases s.len(),
{
    if s.len() == 0 {
        0
    } else if s[0] == x {
        0
    } else {
        1 + first_index(s.drop_first(), x)
    }
}

impl LayoutNode {
    /// The window ids, first to second.
    pub open spec fn leaves_spec(self) -> Seq<usize>
        decreases self,
    {
        match self {
            LayoutNode::Leaf(id) => seq![id],
            LayoutNode::Split { first, second, .. } => first.leaves_spec() + second.leaves_spec(),
        }
    }

    /// The window that a move in `dir` (towards `second` when `forward`)
    /// reaches from `current`: within the innermost split along `dir` that
    /// has `current` on the side it leaves, the nearest window of the other
    /// side.
    pub open spec fn neighbor_spec(self, current: usize, dir: SplitDirection, forward: bool) -> Option<usize>
        decreases self,
    {
        match self {
            LayoutNode::Leaf(_) => None,
            LayoutNode::Split { direction, first, second } => {
                if direction == dir {
                    let (from, to) = if forward { (*first, *second) } else { (*second, *first) };
                    if from.leaves_spec().contains(current) {
                        match (if forward { first.neighbor_spec(current, dir, forward) } else {
                            second.neighbor_spec(current, dir, forward)
                        }) {
                            Some(inner) => Some(inner),
                            None => Some(if forward { to.leaves_spec()[0] } else { to.leaves_spec().last() }),
                        }
                    } else if to.leaves_spec().contains(current) {
                        if forward { second.neighbor_spec(current, dir, forward) } else { first.neighbor_spec(current, dir, forward) }
                    } else {
                        None
                    }
                } else if first.leaves_spec().contains(current) {
                    first.neighbor_spec(current, dir, forward)
                } else if second.leaves_spec().contains(current) {
                    second.neighbor_spec(current, dir, forward)
                } else {
                    None
                }
            },
        }
    }

    proof fn lemma_leaves_nonempty(&self)
        ensures
            self.leaves_spec().len() >= 1,
        decreases self,
    {
        match self {
            LayoutNode::Leaf(_) => {},
            LayoutNode::Split { first, second, .. } => {
                first.lemma_leaves_nonempty();
                second.lemma_leaves_nonempty();
            },
        }
    }

    /// A layout of one window.
    pub fn single(window_id: usize) -> (r: Self)
        ensures
            r == LayoutNode::Leaf(window_id),
            r.leaves_spec() == seq![window_id],
    {
        LayoutNode::Leaf(window_id)
    }

    /// Number of windows.
    pub fn leaf_count(&self) -> (n: usize)
        requires
            self.leaves_spec().len() <= usize::MAX,
        ensures
            n == self.leaves_spec().len(),
        decreases self,
    {
        match self {
            LayoutNode::Leaf(_) => 1,
            LayoutNode::Split { first, second, .. } => first.leaf_count() + second.leaf_count(),
        }
    }

    /// The window ids, first to second.
    pub fn leaves(&self) -> (v: Vec<usize>)
        ensures
            v@ == self.leaves_spec(),
        decreases self,
    {
        match self {
            LayoutNode::Leaf(id) => vec![*id],
            LayoutNode::Split { first, second, .. } => {
                let mut v = first.leaves();
                let mut w = second.leaves();
                v.append(&mut w);
                v
            },
        }
    }

    /// The first window.
    pub fn first_leaf(&self) -> (id: usize)
        ensures
            self.leaves_spec().len() > 0,
            id == self.leaves_spec()[0],
        decreases self,
    {
        proof {
            self.lemma_leaves_nonempty();
        }
        match self {
            LayoutNode::Leaf(id) => *id,
            LayoutNode::Split { first, .. } => first.first_leaf(),
        }
    }

    /// The last window.
    fn last_leaf(&self) -> (id: usize)
        ensures
            self.leaves_spec().len() > 0,
            id == self.leaves_spec().last(),
        decreases self,
    {
        proof {
            self.lemma_leaves_nonempty();
        }
        match self {
            LayoutNode::Leaf(id) => *id,
            LayoutNode::Split { second, .. } => second.last_leaf(),
        }
    }

    /// Whether window `target` is in the layout.
    fn contains_leaf(&self, target: usize) -> (b: bool)
        ensures
            b == self.leaves_spec().contains(target),
        decreases self,
    {
        match self {
            LayoutNode::Leaf(id) => {
                assert(seq![*id][0] == *id);
                *id == target
            },
            LayoutNode::Split { first, second, .. } => {
                let r = first.contains_leaf(target) || second.contains_leaf(target);
                proof {
                    let a = first.leaves_spec();
                    let b = second.leaves_spec();
                    if a.contains(target) {
                        let i = choose|i: int| 0 <= i < a.len() && a[i] == target;
                        assert((a + b)[i] == target);
                    }
                    if b.contains(target) {
                        let i = choose|i: int| 0 <= i < b.len() && b[i] == target;
                        assert((a + b)[a.len() + i] == target);
                    }
                    if (a + b).contains(target) {
                        let i = choose|i: int| 0 <= i < (a + b).len() && (a + b)[i] == target;
                        if i < a.len() {
                            assert(a[i] == target);
                        } else {
                            assert(b[i - a.len()] == target);
                        }
                    }
                }
                r
            },
        }
    }

    /// The window next to `current` in direction `dir` (towards the second
    /// half when `forward`), if any.
    pub fn neighbor(&self, current: usize, direction: SplitDirection, forward: bool) -> (r: Option<usize>)
        ensures
            r == self.neighbor_spec(current, direction, forward),
    {
        self.find_neighbor(current, direction, forward)
    }

    fn find_neighbor(&self, current: usize, dir: SplitDirection, forward: bool) -> (r: Option<usize>)
        ensures
            r == self.neighbor_spec(current, dir, forward),
        decreases self,
    {
        match self {
            LayoutNode::Leaf(_) => None,
            LayoutNode::Split { direction, first, second } => {
                if *direction == dir {
                    let in_from = if forward { first.contains_leaf(current) } else { second.contains_leaf(current) };
                    if in_from {
                        let inner = if forward {
                            first.find_neighbor(current, dir, forward)
                        } else {
                            second.find_neighbor(current, dir, forward)
                        };
                        if let Some(i) = inner {
                            return Some(i);
                        }
                        return Some(if forward { second.first_leaf() } else { first.last_leaf() });
                    }
                    let in_to = if forward { second.contains_leaf(current) } else { first.contains_leaf(current) };
                    if in_to {
                        return if forward {
                            second.find_neighbor(current, dir, forward)
                        } else {
                            first.find_neighbor(current, dir, forward)
                        };
                    }
                } else {
                    if first.contains_leaf(current) {
                        return first.find_neighbor(current, dir, forward);
                    }
                    if second.contains_leaf(current) {
                        return second.find_neighbor(current, dir, forward);
                    }
                }
                None
            },
        }
    }
}


/// `first_index` over a concatenation: within the first part when it holds
/// `x`, else past it.
proof fn lemma_first_index_concat(a: Seq<usize>, b: Seq<usize>, x: usize)
    ensures
        a.contains(x) ==> first_index(a + b, x) == first_index(a, x),
        !a.contains(x) ==> first_index(a + b, x) == a.len() + first_index(b, x),
    decreases a.len(),
{
    if a.len() > 0 {
        assert((a + b).drop_first() =~= a.drop_first() + b);
        assert((a + b)[0] == a[0]);
        lemma_first_index_concat(a.drop_first(), b, x);
        if a[0] != x {
            if a.contains(x) {
                let i = choose|i: int| 0 <= i < a.len() && a[i] == x;
                assert(a.drop_first()[i - 1] == x);
            }
            if a.drop_first().contains(x) {
                let i = choose|i: int| 0 <= i < a.drop_first().len() && a.drop_first()[i] == x;
                assert(a[i + 1] == x);
            }
        }
    } else {
        assert(a + b =~= b);
    }
}

/// The first occurrence of `x` is in bounds and holds `x`.
pub proof fn lemma_first_index_found(s: Seq<usize>, x: usize)
    requires
        s.contains(x),
    ensures
        0 <= first_index(s, x) < s.len(),
        s[first_index(s, x)] == x,
    decreases s.len(),
{
    if s[0] != x {
        let i = choose|i: int| 0 <= i < s.len() && s[i] == x;
        assert(s.drop_first()[i - 1] == x);
        lemma_first_index_found(s.drop_first(), x);
    }
}

impl LayoutNode {
    /// The layout with the first window `target` (first to second) split in
    /// `direction` into itself and `new_id`, and whether it was found.
    pub open spec fn split_spec(self, target: usize, new_id: usize, direction: SplitDirection) -> (LayoutNode, bool)
        decreases self,
    {
        match self {
            LayoutNode::Leaf(id) => if id == target {
                (
                    LayoutNode::Split {
                        direction,
                        first: Box::new(LayoutNode::Leaf(id)),
                        second: Box::new(LayoutNode::Leaf(new_id)),
                    },
                    true,
                )
            } else {
                (self, false)
            },
            LayoutNode::Split { direction: d, first, second } => {
                let (f, found) = first.split_spec(target, new_id, direction);
                if found {
                    (LayoutNode::Split { direction: d, first: Box::new(f), second }, true)
                } else {
                    let (g, found2) = second.split_spec(target, new_id, direction);
                    (LayoutNode::Split { direction: d, first, second: Box::new(g) }, found2)
                }
            },
        }
    }

    /// The layout with window `target` taken out of the first split found to
    /// hold it as a direct child, its sibling taking the split's place, and
    /// whether one was found. A single window is never removed.
    pub open spec fn remove_spec(self, target: usize) -> (LayoutNode, bool)
        decreases self,
    {
        match self {
            LayoutNode::Leaf(_) => (self, false),
            LayoutNode::Split { direction: d, first, second } => {
                if *first == LayoutNode::Leaf(target) {
                    (*second, true)
                } else if *second == LayoutNode::Leaf(target) {
                    (*first, true)
                } else {
                    let (f, found) = first.remove_spec(target);
                    if found {
                        (LayoutNode::Split { direction: d, first: Box::new(f), second }, true)
                    } else {
                        let (g, found2) = second.remove_spec(target);
                        (LayoutNode::Split { direction: d, first, second: Box::new(g) }, found2)
                    }
                }
            },
        }
    }

    /// The layout with every window id above `removed` lowered by one.
    pub open spec fn shift_spec(self, removed: usize) -> LayoutNode
        decreases self,
    {
        match self {
            LayoutNode::Leaf(id) => LayoutNode::Leaf(if id > removed { (id - 1) as usize } else { id }),
            LayoutNode::Split { direction, first, second } => LayoutNode::Split {
                direction,
                first: Box::new(first.shift_spec(removed)),
                second: Box::new(second.shift_spec(removed)),
            },
        }
    }

    /// Splitting finds `target` exactly when the layout holds it; the new
    /// window then comes right after the first `target`, and otherwise the
    /// layout is unchanged.
    pub proof fn lemma_split_leaves(self, target: usize, new_id: usize, direction: SplitDirection)
        ensures
            self.split_spec(target, new_id, direction).1 == self.leaves_spec().contains(target),
            self.split_spec(target, new_id, direction).1 ==> self.split_spec(target, new_id, direction).0.leaves_spec()
                == self.leaves_spec().insert(first_index(self.leaves_spec(), target) + 1, new_id),
            self.split_spec(target, new_id, direction).1 ==> self.split_spec(target, new_id, direction).0 is Split,
            !self.split_spec(target, new_id, direction).1 ==> self.split_spec(target, new_id, direction).0 == self,
        decreases self,
    {
        match self {
            LayoutNode::Leaf(id) => {
                assert(seq![id][0] == id);
                if id == target {
                    assert(first_index(seq![id], target) == 0);
                    let r = self.split_spec(target, new_id, direction).0;
                    assert(LayoutNode::Leaf(id).leaves_spec() == seq![id]);
                    assert(LayoutNode::Leaf(new_id).leaves_spec() == seq![new_id]);
                    assert(r.leaves_spec() == seq![id] + seq![new_id]);
                    assert(seq![id].insert(1, new_id) =~= seq![id] + seq![new_id]);
                }
            },
            LayoutNode::Split { direction: d, first, second } => {
                first.lemma_split_leaves(target, new_id, direction);
                second.lemma_split_leaves(target, new_id, direction);
                let a = first.leaves_spec();
                let b = second.leaves_spec();
                lemma_first_index_concat(a, b, target);
                if a.contains(target) {
                    let i = choose|i: int| 0 <= i < a.len() && a[i] == target;
                    assert((a + b)[i] == target);
                    lemma_first_index_found(a, target);
                    let k = first_index(a, target);
                    assert(a.insert(k + 1, new_id) + b =~= (a + b).insert(k + 1, new_id));
                } else {
                    if b.contains(target) {
                        let i = choose|i: int| 0 <= i < b.len() && b[i] == target;
                        assert((a + b)[a.len() + i] == target);
                        lemma_first_index_found(b, target);
                        let k = first_index(b, target);
                        assert(a + b.insert(k + 1, new_id) =~= (a + b).insert(a.len() + k + 1, new_id));
                    }
                    if (a + b).contains(target) {
                        let i = choose|i: int| 0 <= i < (a + b).len() && (a + b)[i] == target;
                        if i >= a.len() {
                            assert(b[i - a.len()] == target);
                        } else {
                            assert(a[i] == target);
                        }
                    }
                }
            },
        }
    }

    /// Removal takes one occurrence of `target` out of the windows exactly
    /// when the layout is a split that holds it; otherwise the layout is
    /// unchanged.
    pub proof fn lemma_remove_leaves(self, target: usize)
        ensures
            self.remove_spec(target).1 == (self is Split && self.leaves_spec().contains(target)),
            self.remove_spec(target).1 ==> exists|i: int|
                0 <= i < self.leaves_spec().len() && self.leaves_spec()[i] == target
                    && self.remove_spec(target).0.leaves_spec() == self.leaves_spec().remove(i),
            !self.remove_spec(target).1 ==> self.remove_spec(target).0 == self,
        decreases self,
    {
        match self {
            LayoutNode::Leaf(_) => {},
            LayoutNode::Split { direction: d, first, second } => {
                first.lemma_remove_leaves(target);
                second.lemma_remove_leaves(target);
                first.lemma_leaves_nonempty();
                second.lemma_leaves_nonempty();
                let a = first.leaves_spec();
                let b = second.leaves_spec();
                if *first == LayoutNode::Leaf(target) {
                    assert(a[0] == target);
                    assert((a + b)[0] == target);
                    assert((a + b).remove(0) =~= b);
                } else if *second == LayoutNode::Leaf(target) {
                    assert(b[0] == target);
                    assert((a + b)[a.len() as int] == target);
                    assert((a + b).remove(a.len() as int) =~= a);
                } else {
                    if first.remove_spec(target).1 {
                        let i = choose|i: int|
                            0 <= i < a.len() && a[i] == target && first.remove_spec(target).0.leaves_spec() == a.remove(i);
                        assert((a + b)[i] == target);
                        assert(a.remove(i) + b =~= (a + b).remove(i));
                    } else if second.remove_spec(target).1 {
                        let i = choose|i: int|
                            0 <= i < b.len() && b[i] == target && second.remove_spec(target).0.leaves_spec() == b.remove(i);
                        assert((a + b)[a.len() + i] == target);
                        assert(a + b.remove(i) =~= (a + b).remove(a.len() + i));
                    }
                    if (a + b).contains(target) {
                        let i = choose|i: int| 0 <= i < (a + b).len() && (a + b)[i] == target;
                        if i >= a.len() {
                            assert(b[i - a.len()] == target);
                        } else {
                            assert(a[i] == target);
                        }
                    }
                    if a.contains(target) {
                        let i = choose|i: int| 0 <= i < a.len() && a[i] == target;
                        assert((a + b)[i] == target);
                    }
                    if b.contains(target) {
                        let i = choose|i: int| 0 <= i < b.len() && b[i] == target;
                        assert((a + b)[a.len() + i] == target);
                    }
                }
            },
        }
    }

    /// Shifting ids shifts each window id and keeps their order.
    pub proof fn lemma_shift_leaves(self, removed: usize)
        ensures
            self.shift_spec(removed).leaves_spec() == shift_ids(self.leaves_spec(), removed),
        decreases self,
    {
        match self {
            LayoutNode::Leaf(id) => {
                assert(shift_ids(seq![id], removed) =~= seq![if id > removed { (id - 1) as usize } else { id }]);
            },
            LayoutNode::Split { first, second, .. } => {
                first.lemma_shift_leaves(removed);
                second.lemma_shift_leaves(removed);
                assert(shift_ids(first.leaves_spec() + second.leaves_spec(), removed) =~= shift_ids(
                    first.leaves_spec(),
                    removed,
                ) + shift_ids(second.leaves_spec(), removed));
            },
        }
    }

    fn split_owned(self, target: usize, new_id: usize, direction: SplitDirection) -> (r: (LayoutNode, bool))
        ensures
            r == self.split_spec(target, new_id, direction),
        decreases self,
    {
        match self {
            LayoutNode::Leaf(id) => if id == target {
                (
                    LayoutNode::Split {
                        direction,
                        first: Box::new(LayoutNode::Leaf(id)),
                        second: Box::new(LayoutNode::Leaf(new_id)),
                    },
                    true,
                )
            } else {
                (LayoutNode::Leaf(id), false)
            },
            LayoutNode::Split { direction: d, first, second } => {
                proof {
                    first.lemma_split_leaves(target, new_id, direction);
                }
                let (f, found) = (*first).split_owned(target, new_id, direction);
                if found {
                    (LayoutNode::Split { direction: d, first: Box::new(f), second }, true)
                } else {
                    let (g, found2) = (*second).split_owned(target, new_id, direction);
                    (LayoutNode::Split { direction: d, first: Box::new(f), second: Box::new(g) }, found2)
                }
            },
        }
    }

    fn remove_owned(self, target: usize) -> (r: (LayoutNode, bool))
        ensures
            r == self.remove_spec(target),
        decreases self,
    {
        match self {
            LayoutNode::Leaf(id) => (LayoutNode::Leaf(id), false),
            LayoutNode::Split { direction: d, first, second } => {
                let first_is = match &*first {
                    LayoutNode::Leaf(id) => *id == target,
                    _ => false,
                };
                if first_is {
                    return (*second, true);
                }
                let second_is = match &*second {
                    LayoutNode::Leaf(id) => *id == target,
                    _ => false,
                };
                if second_is {
                    return (*first, true);
                }
                proof {
                    first.lemma_remove_leaves(target);
                }
                let (f, found) = (*first).remove_owned(target);
                if found {
                    (LayoutNode::Split { direction: d, first: Box::new(f), second }, true)
                } else {
                    let (g, found2) = (*second).remove_owned(target);
                    (LayoutNode::Split { direction: d, first: Box::new(f), second: Box::new(g) }, found2)
                }
            },
        }
    }

    fn shift_owned(self, removed: usize) -> (r: LayoutNode)
        ensures
            r == self.shift_spec(removed),
        decreases self,
    {
        match self {
            LayoutNode::Leaf(id) => LayoutNode::Leaf(if id > removed { id - 1 } else { id }),
            LayoutNode::Split { direction, first, second } => LayoutNode::Split {
                direction,
                first: Box::new((*first).shift_owned(removed)),
                second: Box::new((*second).shift_owned(removed)),
            },
        }
    }

    /// Splits the first window `target` in `direction` into itself and a new
    /// window `new_id` after it. Returns whether `target` was found.
    pub fn split_leaf(&mut self, target: usize, new_id: usize, direction: SplitDirection) -> (r: bool)
        ensures
            (*final(self), r) == old(self).split_spec(target, new_id, direction),
            r == old(self).leaves_spec().contains(target),
            r ==> final(self).leaves_spec() == old(self).leaves_spec().insert(
                first_index(old(self).leaves_spec(), target) + 1,
                new_id,
            ),
            !r ==> *final(self) == *old(self),
    {
        proof {
            old(self).lemma_split_leaves(target, new_id, direction);
        }
        let mut node = LayoutNode::Leaf(0);
        std::mem::swap(&mut node, self);
        let (n, found) = node.split_owned(target, new_id, direction);
        *self = n;
        found
    }

    /// Removes window `target` from a split that holds it, the other half
    /// taking the split's place. Returns whether it was removed; a layout of
    /// one window is left alone.
    pub fn remove_leaf(&mut self, target: usize) -> (r: bool)
        ensures
            (*final(self), r) == old(self).remove_spec(target),
            r == (*old(self) is Split && old(self).leaves_spec().contains(target)),
            r ==> exists|i: int|
                0 <= i < old(self).leaves_spec().len() && old(self).leaves_spec()[i] == target
                    && final(self).leaves_spec() == old(self).leaves_spec().remove(i),
            !r ==> *final(self) == *old(self),
    {
        proof {
            old(self).lemma_remove_leaves(target);
        }
        let mut node = LayoutNode::Leaf(0);
        std::mem::swap(&mut node, self);
        let (n, found) = node.remove_owned(target);
        *self = n;
        found
    }

    /// Lowers by one every window id above `removed`, as after window
    /// `removed` was closed.
    pub fn fix_ids_after_remove(&mut self, removed: usize)
        ensures
            *final(self) == old(self).shift_spec(removed),
            final(self).leaves_spec() == shift_ids(old(self).leaves_spec(), removed),
    {
        proof {
            old(self).lemma_shift_leaves(removed);
        }
        let mut node = LayoutNode::Leaf(0);
        std::mem::swap(&mut node, self);
        *self = node.shift_owned(removed);
    }
}

/// Removing a window that was just split off gives the layout back: for a
/// layout holding `target` but not `new_id`, splitting `target` off into
/// `new_id` and then removing `new_id` restores the layout.
pub proof fn law_remove_undoes_split(l: LayoutNode, target: usize, new_id: usize, direction: SplitDirection)
    requires
        l.leaves_spec().contains(target),
        !l.leaves_spec().contains(new_id),
    ensures
        l.split_spec(target, new_id, direction).0.remove_spec(new_id) == (l, true),
    decreases l,
{
    l.lemma_split_leaves(target, new_id, direction);
    match l {
        LayoutNode::Leaf(id) => {
            assert(seq![id][0] == id);
        },
        LayoutNode::Split { direction: d, first, second } => {
            first.lemma_split_leaves(target, new_id, direction);
            second.lemma_split_leaves(target, new_id, direction);
            let a = first.leaves_spec();
            let b = second.leaves_spec();
            if a.contains(new_id) {
                let i = choose|i: int| 0 <= i < a.len() && a[i] == new_id;
                assert((a + b)[i] == new_id);
            }
            if b.contains(new_id) {
                let i = choose|i: int| 0 <= i < b.len() && b[i] == new_id;
                assert((a + b)[a.len() + i] == new_id);
            }
            first.lemma_remove_leaves(new_id);
            second.lemma_remove_leaves(new_id);
            if *first == LayoutNode::Leaf(new_id) {
                assert(a[0] == new_id);
            }
            if *second == LayoutNode::Leaf(new_id) {
                assert(b[0] == new_id);
            }
            if a.contains(target) {
                law_remove_undoes_split(*first, target, new_id, direction);
            } else {
                if (a + b).contains(target) {
                    let i = choose|i: int| 0 <= i < (a + b).len() && (a + b)[i] == target;
                    if i >= a.len() {
                        assert(b[i - a.len()] == target);
                    } else {
                        assert(a[i] == target);
                    }
                }
                law_remove_undoes_split(*second, target, new_id, direction);
            }
        },
    }
}


impl LayoutNode {
    /// The window a move reaches is one of the layout's windows.
    pub proof fn lemma_neighbor_in_layout(self, current: usize, dir: SplitDirection, forward: bool)
        ensures
            self.neighbor_spec(current, dir, forward) matches Some(x) ==> self.leaves_spec().contains(x),
        decreases self,
    {
        match self {
            LayoutNode::Leaf(_) => {},
            LayoutNode::Split { direction, first, second } => {
                first.lemma_neighbor_in_layout(current, dir, forward);
                second.lemma_neighbor_in_layout(current, dir, forward);
                first.lemma_leaves_nonempty();
                second.lemma_leaves_nonempty();
                let a = first.leaves_spec();
                let b = second.leaves_spec();
                match self.neighbor_spec(current, dir, forward) {
                    Some(x) => {
                        if a.contains(x) {
                            let i = choose|i: int| 0 <= i < a.len() && a[i] == x;
                            assert((a + b)[i] == x);
                        } else if b.contains(x) {
                            let i = choose|i: int| 0 <= i < b.len() && b[i] == x;
                            assert((a + b)[a.len() + i] == x);
                        } else {
                            assert(x == a[0] || x == a.last() || x == b[0] || x == b.last());
                            assert(a[0] == (a + b)[0]);
                            assert(a.last() == (a + b)[a.len() - 1]);
                            assert(b[0] == (a + b)[a.len() as int]);
                            assert(b.last() == (a + b)[a.len() + b.len() - 1]);
                        }
                    },
                    None => {},
                }
            },
        }
    }
}

} // verus!

verus! {

impl LayoutNode {
    /// Every split of the layout divides along `d`: its windows form one
    /// row (or column).
    pub open spec fn all_along(self, d: SplitDirection) -> bool
        decreases self,
    {
        match self {
            LayoutNode::Leaf(_) => true,
            LayoutNode::Split { direction, first, second } => direction == d && first.all_along(d) && second.all_along(d),
        }
    }
}

/// Moving between the windows of a row (or column) of splits along `d`
/// goes to the adjacent window: back from each window to the one just
/// before it, on to the one just after it, and nowhere past either end.
pub proof fn law_neighbor_adjacent(l: LayoutNode, d: SplitDirection)
    requires
        l.all_along(d),
        l.leaves_spec().no_duplicates(),
    ensures
        forall|i: int|
            0 <= i < l.leaves_spec().len() - 1 ==> l.neighbor_spec(#[trigger] l.leaves_spec()[i + 1], d, false)
                == Some(l.leaves_spec()[i]),
        forall|i: int|
            0 <= i < l.leaves_spec().len() - 1 ==> l.neighbor_spec(#[trigger] l.leaves_spec()[i], d, true)
                == Some(l.leaves_spec()[i + 1]),
        l.neighbor_spec(l.leaves_spec()[0], d, false) is None,
        l.neighbor_spec(l.leaves_spec().last(), d, true) is None,
    decreases l,
{
    l.lemma_leaves_nonempty();
    match l {
        LayoutNode::Leaf(_) => {},
        LayoutNode::Split { direction, first, second } => {
            let a = first.leaves_spec();
            let b = second.leaves_spec();
            let all = a + b;
            assert(all == l.leaves_spec());
            first.lemma_leaves_nonempty();
            second.lemma_leaves_nonempty();
            assert forall|i: int, j: int| 0 <= i < j < a.len() implies a[i] != a[j] by {
                assert(all[i] == a[i] && all[j] == a[j]);
            }
            assert forall|i: int, j: int| 0 <= i < j < b.len() implies b[i] != b[j] by {
                assert(all[a.len() + i] == b[i] && all[a.len() + j] == b[j]);
            }
            assert(a.no_duplicates());
            assert(b.no_duplicates());
            assert forall|x: usize| a.contains(x) implies !b.contains(x) by {
                if b.contains(x) {
                    let i = choose|i: int| 0 <= i < a.len() && a[i] == x;
                    let j = choose|j: int| 0 <= j < b.len() && b[j] == x;
                    assert(all[i] == all[a.len() + j]);
                }
            }
            law_neighbor_adjacent(*first, d);
            law_neighbor_adjacent(*second, d);
            assert forall|i: int| 0 <= i < all.len() - 1 implies l.neighbor_spec(#[trigger] all[i + 1], d, false) == Some(all[i]) by {
                if i + 1 < a.len() {
                    assert(all[i + 1] == a[i + 1] && all[i] == a[i]);
                    assert(a.contains(a[i + 1]));
                    assert(first.neighbor_spec(a[i + 1], d, false) == Some(a[i]));
                } else if i + 1 == a.len() {
                    assert(all[i + 1] == b[0] && all[i] == a.last());
                    assert(b.contains(b[0]));
                    assert(!a.contains(b[0]));
                } else {
                    let j = i - a.len();
                    assert(all[i + 1] == b[j + 1] && all[i] == b[j]);
                    assert(b.contains(b[j + 1]));
                    assert(!a.contains(b[j + 1]));
                    assert(second.neighbor_spec(b[j + 1], d, false) == Some(b[j]));
                }
            }
            assert forall|i: int| 0 <= i < all.len() - 1 implies l.neighbor_spec(#[trigger] all[i], d, true) == Some(all[i + 1]) by {
                if i + 1 < a.len() {
                    assert(all[i + 1] == a[i + 1] && all[i] == a[i]);
                    assert(a.contains(a[i]));
                    assert(first.neighbor_spec(a[i], d, true) == Some(a[i + 1]));
                } else if i + 1 == a.len() {
                    assert(all[i + 1] == b[0] && all[i] == a.last());
                    assert(a.contains(a[a.len() - 1]));
                    assert(first.neighbor_spec(a.last(), d, true) is None);
                } else {
                    let j = i - a.len();
                    assert(all[i + 1] == b[j + 1] && all[i] == b[j]);
                    assert(b.contains(b[j]));
                    assert(!a.contains(b[j]));
                    assert(second.neighbor_spec(b[j], d, true) == Some(b[j + 1]));
                }
            }
            assert(all[0] == a[0]);
            assert(a.contains(a[0]));
            assert(!b.contains(a[0]));
            assert(all.last() == b.last());
            assert(b.contains(b[b.len() - 1]));
            assert(!a.contains(b.last()));
        },
    }
}

} // verus!

verus! {

/// A move between windows never lands on the window it starts from, and
/// lands only on a window of the layout, when each window appears once.
pub proof fn law_neighbor_elsewhere(l: LayoutNode, current: usize, dir: SplitDirection, forward: bool)
    requires
        l.leaves_spec().no_duplicates(),
    ensures
        l.neighbor_spec(current, dir, forward) matches Some(x) ==> x != current && l.leaves_spec().contains(x),
    decreases l,
{
    l.lemma_neighbor_in_layout(current, dir, forward);
    match l {
        LayoutNode::Leaf(_) => {},
        LayoutNode::Split { direction, first, second } => {
            let a = first.leaves_spec();
            let b = second.leaves_spec();
            let all = a + b;
            assert(all == l.leaves_spec());
            first.lemma_leaves_nonempty();
            second.lemma_leaves_nonempty();
            assert forall|i: int, j: int| 0 <= i < j < a.len() implies a[i] != a[j] by {
                assert(all[i] == a[i] && all[j] == a[j]);
            }
            assert forall|i: int, j: int| 0 <= i < j < b.len() implies b[i] != b[j] by {
                assert(all[a.len() + i] == b[i] && all[a.len() + j] == b[j]);
            }
            assert forall|x: usize| a.contains(x) implies !b.contains(x) by {
                if b.contains(x) {
                    let i = choose|i: int| 0 <= i < a.len() && a[i] == x;
                    let j = choose|j: int| 0 <= j < b.len() && b[j] == x;
                    assert(all[i] == all[a.len() + j]);
                }
            }
            law_neighbor_elsewhere(*first, current, dir, forward);
            law_neighbor_elsewhere(*second, current, dir, forward);
            assert(a.contains(a[0]) && a.contains(a[a.len() - 1]));
            assert(b.contains(b[0]) && b.contains(b[b.len() - 1]));
        },
    }
}

} // verus!

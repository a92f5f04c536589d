//! Toast notifications: shown until their time is up or they are
//! dismissed, then faded out and dropped. Times are milliseconds on a clock
//! the caller reads.
use vstd::prelude::*;
use crate::strs::str_to_string;

verus! {

/// How long a dismissed toast takes to fade out, in milliseconds.
pub const FADE_OUT_MS: u64 = 200;

/// How many toasts may be shown (not fading out) at once.
pub const MAX_VISIBLE: usize = 5;

/// How a toast is marked.
#[derive(Debug, Clone, Copy, PartialEq, Eq, Structural)]
pub enum ToastLevel {
    Info,
    Success,
    Warning,
    Error,
}

/// A toast: its id, text and level, when it was shown, when it is to be
/// dismissed, and when it began to fade out (once it has).
pub struct Toast {
    pub id: usize,
    pub title: String,
    pub body: Option<String>,
    pub level: ToastLevel,
    pub created_at: u64,
    pub dismiss_at: u64,
    pub dismissing_at: Option<u64>,
}

/// A toast as values.
pub struct ToastView {
    pub id: usize,
    pub title: Seq<char>,
    pub body: Option<Seq<char>>,
    pub level: ToastLevel,
    pub created_at: u64,
    pub dismiss_at: u64,
    pub dismissing_at: Option<u64>,
}

impl View for Toast {
    type V = ToastView;

    open spec fn view(&self) -> ToastView {
        ToastView {
            id: self.id,
            title: self.title@,
            body: match self.body {
                Some(b) => Some(b@),
                None => None,
            },
            level: self.level,
            created_at: self.created_at,
            dismiss_at: self.dismiss_at,
            dismissing_at: self.dismissing_at,
        }
    }
}

impl Toast {
    /// Whether the toast has finished fading out at `now`.
    pub fn is_expired(&self, now: u64) -> (r: bool)
        ensures
            r == expired(self@, now),
    {
        match self.dismissing_at {
            Some(f) => (if now >= f { now - f } else { 0 }) >= FADE_OUT_MS,
            None => false,
        }
    }
}

/// Toasts as values.
pub open spec fn toast_views(s: Seq<Toast>) -> Seq<ToastView> {
    s.map_values(|t: Toast| t@)
}

/// Whether a toast has finished fading out at `now`.
pub open spec fn expired(t: ToastView, now: u64) -> bool {
    match t.dismissing_at {
        Some(f) => (if now >= f { now - f } else { 0 }) >= FADE_OUT_MS,
        None => false,
    }
}

/// The number of toasts of `s` not fading out.
pub open spec fn active_count(s: Seq<ToastView>) -> nat
    decreases s.len(),
{
    if s.len() == 0 {
        0
    } else {
        active_count(s.drop_last()) + if s.last().dismissing_at is None {
            1nat
        } else {
            0nat
        }
    }
}

/// The index of the first toast of `s` not fading out, if any.
pub open spec fn first_active(s: Seq<ToastView>) -> Option<int>
    decreases s.len(),
{
    if s.len() == 0 {
        None
    } else if s[0].dismissing_at is None {
        Some(0)
    } else {
        match first_active(s.drop_first()) {
            Some(i) => Some(i + 1),
            None => None,
        }
    }
}

/// `t` fading out from `now` on, if it was not already.
pub open spec fn start_fade(t: ToastView, now: u64) -> ToastView {
    if t.dismissing_at is None {
        ToastView { dismissing_at: Some(now), ..t }
    } else {
        t
    }
}

/// The toasts after a tick at `now`: those due begin to fade out, and
/// those done fading are dropped.
pub open spec fn ticked(s: Seq<ToastView>, now: u64) -> Seq<ToastView> {
    s.map_values(|t: ToastView| if t.dismissing_at is None && now >= t.dismiss_at { start_fade(t, now) } else { t }).filter(
        |t: ToastView| !expired(t, now),
    )
}

proof fn lemma_first_active(s: Seq<ToastView>)
    ensures
        first_active(s) is None <==> active_count(s) == 0,
        first_active(s) matches Some(i) ==> 0 <= i < s.len() && s[i].dismissing_at is None && forall|j: int|
            0 <= j < i ==> s[j].dismissing_at is Some,
        first_active(s) matches Some(i) ==> active_count(s.update(i, start_fade(s[i], 0))) + 1 == active_count(s),
    decreases s.len(),
{
    if s.len() > 0 {
        lemma_first_active(s.drop_first());
        lemma_active_count_front(s);
        if s[0].dismissing_at is None {
            let u = s.update(0, start_fade(s[0], 0));
            lemma_active_count_front(u);
            assert(u.drop_first() =~= s.drop_first());
        } else {
            match first_active(s.drop_first()) {
                Some(i) => {
                    assert forall|j: int| 0 <= j < i + 1 implies s[j].dismissing_at is Some by {
                        if j > 0 {
                            assert(s[j] == s.drop_first()[j - 1]);
                        }
                    }
                    let u = s.update(i + 1, start_fade(s[i + 1], 0));
                    lemma_active_count_front(u);
                    assert(u.drop_first() =~= s.drop_first().update(i, start_fade(s.drop_first()[i], 0)));
                },
                None => {},
            }
        }
    }
}

/// `active_count` read from the front.
proof fn lemma_active_count_front(s: Seq<ToastView>)
    requires
        s.len() > 0,
    ensures
        active_count(s) == active_count(s.drop_first()) + if s[0].dismissing_at is None { 1nat } else { 0nat },
    decreases s.len(),
{
    let one = |t: ToastView| if t.dismissing_at is None { 1nat } else { 0nat };
    if s.len() > 1 {
        lemma_active_count_front(s.drop_last());
        assert(s.drop_last().drop_first() =~= s.drop_first().drop_last());
        assert(s.drop_first().last() == s.last());
        assert(s.drop_last()[0] == s[0]);
        assert(active_count(s) == active_count(s.drop_last()) + one(s.last()));
        assert(active_count(s.drop_first()) == active_count(s.drop_first().drop_last()) + one(s.drop_first().last()));
    } else {
        assert(s.drop_first().len() == 0);
        assert(s.drop_last().len() == 0);
        assert(s.last() == s[0]);
        assert(active_count(s) == active_count(s.drop_last()) + one(s.last()));
    }
}

/// The toasts shown, and the id the next one gets.
pub struct ToastManager {
    toasts: Vec<Toast>,
    next_id: usize,
}

impl ToastManager {
    /// The toasts, oldest first.
    pub closed spec fn toasts_view(&self) -> Seq<ToastView> {
        toast_views(self.toasts@)
    }

    /// The id the next toast gets.
    pub closed spec fn next_id_view(&self) -> usize {
        self.next_id
    }

    /// No toasts.
    pub fn new() -> (m: Self)
        ensures
            m.toasts_view() == Seq::<ToastView>::empty(),
            m.next_id_view() == 0,
    {
        let m = ToastManager { toasts: Vec::new(), next_id: 0 };
        assert(m.toasts_view() =~= Seq::<ToastView>::empty());
        m
    }

    /// The toasts, oldest first.
    pub fn toasts(&self) -> (r: &Vec<Toast>)
        ensures
            toast_views(r@) == self.toasts_view(),
    {
        &self.toasts
    }

    /// Shows a toast at `now` for `duration_ms`; when that makes more than
    /// `MAX_VISIBLE` shown, the oldest shown one begins to fade out.
    pub fn push(&mut self, title: &str, body: Option<String>, level: ToastLevel, duration_ms: u64, now: u64)
        requires
            old(self).next_id_view() < usize::MAX,
            now + duration_ms <= u64::MAX,
        ensures
            ({
                let t = ToastView {
                    id: old(self).next_id_view(),
                    title: title@,
                    body: match body {
                        Some(b) => Some(b@),
                        None => None,
                    },
                    level,
                    created_at: now,
                    dismiss_at: (now + duration_ms) as u64,
                    dismissing_at: None,
                };
                final(self).toasts_view() == after_push(old(self).toasts_view(), t, now)
            }),
            final(self).next_id_view() == old(self).next_id_view() + 1,
            active_count(old(self).toasts_view()) <= MAX_VISIBLE ==> active_count(final(self).toasts_view()) <= MAX_VISIBLE,
    {
        let toast = Toast {
            id: self.next_id,
            title: str_to_string(title),
            body,
            level,
            created_at: now,
            dismiss_at: now + duration_ms,
            dismissing_at: None,
        };
        let ghost tv = toast@;
        self.next_id = self.next_id + 1;
        self.toasts.push(toast);
        let ghost s = self.toasts_view();
        proof {
            assert(s =~= old(self).toasts_view().push(tv));
            assert(s.drop_last() =~= old(self).toasts_view());
        }
        let mut active: usize = 0;
        let mut i: usize = 0;
        while i < self.toasts.len()
            invariant
                s == toast_views(self.toasts@),
                i <= self.toasts@.len(),
                active == active_count(s.take(i as int)),
                active <= i,
            decreases self.toasts@.len() - i,
        {
            proof {
                assert(s.take(i as int + 1).drop_last() =~= s.take(i as int));
                assert(s[i as int] == self.toasts@[i as int]@);
            }
            if self.toasts[i].dismissing_at.is_none() {
                active = active + 1;
            }
            i = i + 1;
        }
        proof {
            assert(s.take(s.len() as int) =~= s);
        }
        if active > MAX_VISIBLE {
            let mut j: usize = 0;
            while j < self.toasts.len() && self.toasts[j].dismissing_at.is_some()
                invariant
                    s == toast_views(self.toasts@),
                    j <= self.toasts@.len(),
                    forall|k: int| 0 <= k < j ==> s[k].dismissing_at is Some,
                decreases self.toasts@.len() - j,
            {
                proof {
                    assert(s[j as int] == self.toasts@[j as int]@);
                }
                j = j + 1;
            }
            proof {
                lemma_first_active(s);
                lemma_first_active_index(s, j as int);
            }
            if j < self.toasts.len() {
                self.toasts[j].dismissing_at = Some(now);
                proof {
                    assert(self.toasts_view() =~= s.update(j as int, start_fade(s[j as int], now)));
                    assert(start_fade(s[j as int], now).dismissing_at is Some);
                    lemma_fade_count(s, j as int, now);
                }
            }
        }
    }

    /// At `now`: toasts whose time is up begin to fade out, and toasts done
    /// fading are dropped.
    pub fn tick(&mut self, now: u64)
        ensures
            final(self).toasts_view() == ticked(old(self).toasts_view(), now),
            final(self).next_id_view() == old(self).next_id_view(),
    {
        let ghost s = self.toasts_view();
        let mut kept: Vec<Toast> = Vec::new();
        let mut old_toasts: Vec<Toast> = Vec::new();
        std::mem::swap(&mut old_toasts, &mut self.toasts);
        let ghost m = s.map_values(
            |t: ToastView| if t.dismissing_at is None && now >= t.dismiss_at { start_fade(t, now) } else { t },
        );
        let n = old_toasts.len();
        let mut i: usize = 0;
        while i < n
            invariant
                n == old_toasts@.len(),
                s == toast_views(old_toasts@),
                m == s.map_values(
                    |t: ToastView| if t.dismissing_at is None && now >= t.dismiss_at { start_fade(t, now) } else { t },
                ),
                i <= n,
                toast_views(kept@) == m.take(i as int).filter(|t: ToastView| !expired(t, now)),
            decreases n - i,
        {
            let t = &old_toasts[i];
            let dismissing = if t.dismissing_at.is_none() && now >= t.dismiss_at { Some(now) } else { t.dismissing_at };
            let gone = match dismissing {
                Some(f) => (if now >= f { now - f } else { 0 }) >= FADE_OUT_MS,
                None => false,
            };
            proof {
                assert(s[i as int] == old_toasts@[i as int]@);
                assert(m.take(i as int + 1).drop_last() =~= m.take(i as int));
                reveal(Seq::filter);
            }
            if !gone {
                let copy = Toast {
                    id: t.id,
                    title: str_to_string(t.title.as_str()),
                    body: match &t.body {
                        Some(b) => Some(str_to_string(b.as_str())),
                        None => None,
                    },
                    level: t.level,
                    created_at: t.created_at,
                    dismiss_at: t.dismiss_at,
                    dismissing_at: dismissing,
                };
                let ghost before = kept@;
                kept.push(copy);
                proof {
                    assert(toast_views(kept@) =~= toast_views(before).push(m[i as int]));
                }
            }
            i = i + 1;
        }
        proof {
            assert(m.take(n as int) =~= m);
        }
        self.toasts = kept;
    }

    /// Begins fading out the first toast with id `id` at `now`, unless it
    /// already is.
    pub fn dismiss(&mut self, id: usize, now: u64)
        ensures
            ({
                let s = old(self).toasts_view();
                match find_toast(s, id) {
                    Some(i) => final(self).toasts_view() == s.update(i, start_fade(s[i], now)),
                    None => final(self).toasts_view() == s,
                }
            }),
            final(self).next_id_view() == old(self).next_id_view(),
    {
        let ghost s = self.toasts_view();
        let mut i: usize = 0;
        while i < self.toasts.len() && self.toasts[i].id != id
            invariant
                s == toast_views(self.toasts@),
                i <= self.toasts@.len(),
                forall|k: int| 0 <= k < i ==> s[k].id != id,
            decreases self.toasts@.len() - i,
        {
            proof {
                assert(s[i as int] == self.toasts@[i as int]@);
            }
            i = i + 1;
        }
        proof {
            lemma_find_toast(s, id, i as int);
        }
        if i < self.toasts.len() {
            if self.toasts[i].dismissing_at.is_none() {
                self.toasts[i].dismissing_at = Some(now);
                proof {
                    assert(self.toasts_view() =~= s.update(i as int, start_fade(s[i as int], now)));
                }
            } else {
                proof {
                    assert(s.update(i as int, start_fade(s[i as int], now)) =~= s);
                }
            }
        }
    }

    /// Whether any toast is shown or fading.
    pub fn has_active_toasts(&self) -> (r: bool)
        ensures
            r == (self.toasts_view().len() > 0),
    {
        self.toasts.len() > 0
    }
}

/// The index of the first toast of `s` with id `id`, if any.
pub open spec fn find_toast(s: Seq<ToastView>, id: usize) -> Option<int>
    decreases s.len(),
{
    if s.len() == 0 {
        None
    } else if s[0].id == id {
        Some(0)
    } else {
        match find_toast(s.drop_first(), id) {
            Some(i) => Some(i + 1),
            None => None,
        }
    }
}

proof fn lemma_find_toast(s: Seq<ToastView>, id: usize, i: int)
    requires
        0 <= i <= s.len(),
        forall|k: int| 0 <= k < i ==> s[k].id != id,
        i < s.len() ==> s[i].id == id,
    ensures
        i < s.len() ==> find_toast(s, id) == Some(i),
        i == s.len() ==> find_toast(s, id) is None,
    decreases s.len(),
{
    if s.len() > 0 && i > 0 {
        lemma_find_toast(s.drop_first(), id, i - 1);
    }
}

proof fn lemma_first_active_index(s: Seq<ToastView>, j: int)
    requires
        0 <= j <= s.len(),
        forall|k: int| 0 <= k < j ==> s[k].dismissing_at is Some,
        j < s.len() ==> s[j].dismissing_at is None,
    ensures
        j < s.len() ==> first_active(s) == Some(j),
        j == s.len() ==> first_active(s) is None,
    decreases s.len(),
{
    if s.len() > 0 && j > 0 {
        lemma_first_active_index(s.drop_first(), j - 1);
    }
}

/// Starting the fade of a shown toast lowers the shown count by one, at
/// any time.
proof fn lemma_fade_count(s: Seq<ToastView>, j: int, now: u64)
    requires
        0 <= j < s.len(),
        s[j].dismissing_at is None,
    ensures
        active_count(s.update(j, start_fade(s[j], now))) + 1 == active_count(s),
    decreases s.len(),
{
    let u = s.update(j, start_fade(s[j], now));
    if j == s.len() - 1 {
        assert(u.drop_last() =~= s.drop_last());
    } else {
        lemma_fade_count(s.drop_last(), j, now);
        assert(u.drop_last() =~= s.drop_last().update(j, start_fade(s[j], now)));
    }
}

/// The toasts after pushing `t` onto `s` at time `now`: `t` comes last,
/// and when that shows more than `MAX_VISIBLE`, the oldest shown toast
/// starts to fade.
pub open spec fn after_push(s: Seq<ToastView>, t: ToastView, now: u64) -> Seq<ToastView> {
    let s2 = s.push(t);
    if active_count(s2) > MAX_VISIBLE {
        s2.update(first_active(s2)->0, start_fade(s2[first_active(s2)->0], now))
    } else {
        s2
    }
}

/// A push (`ToastManager::push`) never leaves more than `MAX_VISIBLE`
/// toasts shown when there were at most that many before.
pub proof fn law_push_keeps_visible_bound(s: Seq<ToastView>, t: ToastView, now: u64)
    requires
        active_count(s) <= MAX_VISIBLE,
        t.dismissing_at is None,
    ensures
        active_count(after_push(s, t, now)) <= MAX_VISIBLE,
{
    let s2 = s.push(t);
    assert(s2.drop_last() =~= s);
    lemma_first_active(s2);
    if active_count(s2) > MAX_VISIBLE {
        let i = first_active(s2)->0;
        lemma_fade_count(s2, i, now);
    }
}

} // verus!

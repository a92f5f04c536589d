//! Marks beside a window's scrollbar: the lines of the search matches and
//! of the buffer's diagnostics.
use vstd::prelude::*;
use crate::buffer::Buffer;
use crate::diagnostics::{Diagnostic, DiagnosticView, Severity, diag_views};
use crate::text::line_of;
use crate::window::Window;

verus! {

/// What a mark stands for, which sets its colour.
#[derive(Debug, Clone, Copy, PartialEq, Eq, Structural)]
pub enum MarkerKind {
    SearchMatch,
    Error,
    Warning,
    /// Information or a hint.
    Other,
}

/// A mark at a line.
#[derive(Debug, Clone, Copy, PartialEq, Eq, Structural)]
pub struct ScrollbarMarker {
    pub line: usize,
    pub kind: MarkerKind,
}

/// The mark of a diagnostic of severity `s`.
pub open spec fn severity_marker(s: Severity) -> MarkerKind {
    match s {
        Severity::Error => MarkerKind::Error,
        Severity::Warning => MarkerKind::Warning,
        _ => MarkerKind::Other,
    }
}

/// Marks for the search matches at `ms` that lie on text `t`, in order.
pub open spec fn match_markers(t: Seq<char>, ms: Seq<usize>) -> Seq<ScrollbarMarker>
    decreases ms.len(),
{
    if ms.len() == 0 {
        Seq::empty()
    } else if ms.last() < t.len() {
        match_markers(t, ms.drop_last()).push(
            ScrollbarMarker { line: line_of(t, ms.last() as int) as usize, kind: MarkerKind::SearchMatch },
        )
    } else {
        match_markers(t, ms.drop_last())
    }
}

/// Marks for diagnostics, in order.
pub open spec fn diag_markers(ds: Seq<DiagnosticView>) -> Seq<ScrollbarMarker> {
    ds.map_values(|d: DiagnosticView| ScrollbarMarker { line: d.line, kind: severity_marker(d.severity) })
}

/// The marks beside `win`'s scrollbar: its search matches (those on the
/// text of `buffer`, the buffer it shows), then `diagnostics`, the
/// buffer's.
pub fn scrollbar_markers(win: &Window, buffer: &Buffer, diagnostics: &[Diagnostic]) -> (r: Vec<ScrollbarMarker>)
    requires
        buffer.wf(),
    ensures
        r@ == match_markers(buffer@, win.search_matches@) + diag_markers(diag_views(diagnostics@)),
{
    let mut markers: Vec<ScrollbarMarker> = Vec::new();
    let len = buffer.len_chars();
    let mut i: usize = 0;
    while i < win.search_matches.len()
        invariant
            buffer.wf(),
            len == buffer@.len(),
            i <= win.search_matches@.len(),
            markers@ == match_markers(buffer@, win.search_matches@.take(i as int)),
        decreases win.search_matches@.len() - i,
    {
        proof {
            assert(win.search_matches@.take(i + 1).drop_last() =~= win.search_matches@.take(i as int));
        }
        let pos = win.search_matches[i];
        if pos < len {
            let line = buffer.char_to_line(pos);
            markers.push(ScrollbarMarker { line, kind: MarkerKind::SearchMatch });
        }
        i = i + 1;
    }
    assert(win.search_matches@.take(win.search_matches@.len() as int) =~= win.search_matches@);
    let ghost from_search = markers@;
    let mut k: usize = 0;
    while k < diagnostics.len()
        invariant
            k <= diagnostics@.len(),
            markers@ == from_search + diag_markers(diag_views(diagnostics@.take(k as int))),
        decreases diagnostics@.len() - k,
    {
        let d = &diagnostics[k];
        let kind = match d.severity {
            Severity::Error => MarkerKind::Error,
            Severity::Warning => MarkerKind::Warning,
            _ => MarkerKind::Other,
        };
        let ghost before = markers@;
        markers.push(ScrollbarMarker { line: d.line, kind });
        proof {
            assert(diag_views(diagnostics@.take(k + 1)) =~= diag_views(diagnostics@.take(k as int)).push(d@));
            assert(diag_markers(diag_views(diagnostics@.take(k + 1))) =~= diag_markers(
                diag_views(diagnostics@.take(k as int)),
            ).push(ScrollbarMarker { line: d.line, kind }));
            assert(markers@ =~= before.push(ScrollbarMarker { line: d.line, kind }));
        }
        k = k + 1;
    }
    assert(diagnostics@.take(diagnostics@.len() as int) =~= diagnostics@);
    markers
}


/// The least height of the scrollbar's thumb, in pixels.
pub const MIN_THUMB_HEIGHT: u64 = 20;

/// The thumb's height on a track `track_h` pixels tall, for a window of
/// `visible` lines over `total`: the share of the lines shown, at least
/// `MIN_THUMB_HEIGHT` and at most the track; the whole track with no lines.
pub open spec fn thumb_height(visible: int, total: int, track_h: int) -> int {
    if total == 0 {
        track_h
    } else {
        let shown = if visible < total { visible } else { total };
        let h0 = shown * track_h / total;
        let h1 = if h0 < MIN_THUMB_HEIGHT { MIN_THUMB_HEIGHT as int } else { h0 };
        if h1 > track_h { track_h } else { h1 }
    }
}

/// The lines a window can scroll by.
pub open spec fn scrollable(visible: int, total: int) -> int {
    if total > visible { total - visible } else { 0 }
}

/// The thumb's top: in proportion to the scroll over what can be scrolled,
/// along what the track leaves below the thumb.
pub open spec fn thumb_top(scroll_y: int, visible: int, total: int, track_h: int) -> int {
    let s = scrollable(visible, total);
    if total == 0 || s == 0 {
        0
    } else {
        scroll_y * (track_h - thumb_height(visible, total, track_h)) / s
    }
}

/// The thumb's top and height, in pixels, on a track `track_h` pixels tall
/// for a window scrolled to `scroll_y` showing `visible` of `total` lines.
pub fn thumb_geometry(scroll_y: usize, visible: usize, total: usize, track_h: u64) -> (r: (u128, u64))
    ensures
        r.0 == thumb_top(scroll_y as int, visible as int, total as int, track_h as int),
        r.1 == thumb_height(visible as int, total as int, track_h as int),
        r.1 <= track_h,
{
    if total == 0 {
        return (0, track_h);
    }
    let shown: u128 = if visible < total { visible as u128 } else { total as u128 };
    assert(shown * (track_h as u128) <= (total as u128) * (track_h as u128)) by (nonlinear_arith)
        requires shown <= total;
    assert((total as u128) * (track_h as u128) <= 0xffff_ffff_ffff_ffff * 0xffff_ffff_ffff_ffffu128) by (nonlinear_arith)
        requires total <= 0xffff_ffff_ffff_ffffu128, track_h <= 0xffff_ffff_ffff_ffffu128;
    let h0 = shown * (track_h as u128) / (total as u128);
    assert(h0 <= track_h) by (nonlinear_arith)
        requires h0 == (shown as int) * (track_h as int) / (total as int), shown <= total, total > 0;
    let h1: u64 = if h0 < MIN_THUMB_HEIGHT as u128 { MIN_THUMB_HEIGHT } else { h0 as u64 };
    let h: u64 = if h1 > track_h { track_h } else { h1 };
    let s: usize = if total > visible { total - visible } else { 0 };
    if s == 0 {
        return (0, h);
    }
    let room: u64 = track_h - h;
    assert((scroll_y as u128) * (room as u128) <= 0xffff_ffff_ffff_ffff * 0xffff_ffff_ffff_ffffu128) by (nonlinear_arith)
        requires scroll_y <= 0xffff_ffff_ffff_ffffu128, room <= 0xffff_ffff_ffff_ffffu128;
    let top = (scroll_y as u128) * (room as u128) / (s as u128);
    (top, h)
}

/// The line a click `y` pixels down a track `track_h` pixels tall points
/// at, over `total` lines: the click's share of the track (clipped to it)
/// of the lines, the last line at most; line 0 with no track or no lines.
pub open spec fn line_from_y(y: int, track_h: int, total: int) -> int {
    if track_h == 0 || total == 0 {
        0
    } else {
        let yy = if y < track_h { y } else { track_h };
        let line = yy * total / track_h;
        if line < total - 1 { line } else { total - 1 }
    }
}

/// The line a click on the scrollbar's track jumps to (see
/// `line_from_y`).
pub fn scrollbar_target_line(click_y: u64, track_h: u64, total: usize) -> (r: usize)
    ensures
        r == line_from_y(click_y as int, track_h as int, total as int),
{
    if track_h == 0 || total == 0 {
        return 0;
    }
    let yy: u64 = if click_y < track_h { click_y } else { track_h };
    assert((yy as u128) * (total as u128) <= 0xffff_ffff_ffff_ffff * 0xffff_ffff_ffff_ffffu128) by (nonlinear_arith)
        requires yy <= 0xffff_ffff_ffff_ffffu128, total <= 0xffff_ffff_ffff_ffffu128;
    let line = (yy as u128) * (total as u128) / (track_h as u128);
    assert(line <= total) by (nonlinear_arith)
        requires line == (yy as int) * (total as int) / (track_h as int), yy <= track_h, track_h > 0;
    let last = total - 1;
    if line < last as u128 { line as usize } else { last }
}

/// The scroll that dragging the thumb's top to `thumb_y` pixels (negative
/// above the track) gives: its share of the room below the thumb, clipped
/// to it, of what can be scrolled; none when the thumb fills the track.
pub open spec fn scroll_from_thumb(thumb_y: int, visible: int, total: int, track_h: int) -> int {
    let room = track_h - thumb_height(visible, total, track_h);
    if room <= 0 {
        0
    } else {
        let yy = if thumb_y < 0 { 0 } else if thumb_y > room { room } else { thumb_y };
        yy * scrollable(visible, total) / room
    }
}

/// The scroll for a thumb dragged to `thumb_y` (see `scroll_from_thumb`).
pub fn scroll_y_from_thumb_y(thumb_y: i64, visible: usize, total: usize, track_h: u64) -> (r: usize)
    ensures
        r == scroll_from_thumb(thumb_y as int, visible as int, total as int, track_h as int),
{
    let (_, h) = thumb_geometry(0, visible, total, track_h);
    let room: u64 = track_h - h;
    if room == 0 {
        return 0;
    }
    let yy: u64 = if thumb_y < 0 { 0 } else if thumb_y as u64 > room { room } else { thumb_y as u64 };
    let s: usize = if total > visible { total - visible } else { 0 };
    assert((yy as u128) * (s as u128) <= 0xffff_ffff_ffff_ffff * 0xffff_ffff_ffff_ffffu128) by (nonlinear_arith)
        requires yy <= 0xffff_ffff_ffff_ffffu128, s <= 0xffff_ffff_ffff_ffffu128;
    let v = (yy as u128) * (s as u128) / (room as u128);
    assert(v <= s) by (nonlinear_arith)
        requires v == (yy as int) * (s as int) / (room as int), yy <= room, room > 0;
    v as usize
}

} // verus!

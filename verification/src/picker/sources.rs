//! The lists a picker opens on: the open buffers, the project's files and
//! the places a language server pointed to.
use vstd::prelude::*;
use crate::action::{ActionView, EditorAction};
use crate::buffer::Buffer;
use crate::editor::buffer_with_path;
use crate::paths::{file_name_of, parent_of, relative_to, starts_with_path, path_file_name, path_parent, path_relative_to,
    path_starts_with};
use crate::picker::{Picker, PickerItem, PICKER_VISIBLE_LIMIT};
use crate::rope::{rope_byte_to_char, rope_line_to_byte, rope_slice_string, rope_text};
use crate::strs::{byte_len, char_at_byte, char_is_whitespace, lemma_char_at_byte_mono, trim_start, chars_lt, chars_of, decimal, lex_lt, lemma_lex_total, lemma_lex_trans, push_decimal, lemma_byte_len_concat, lemma_byte_len_ge, str_eq, str_to_string, string_of_chars,
    string_push, string_push_str, trim, trim_bounds};
use crate::text::{line_count, line_start, lemma_line_len_nn_bounds, lemma_line_start_bounds};

verus! {

/// `p` is a picker as `Picker::new` leaves it: titled `title`, listing all
/// of its `n` items in order, the first selected.
pub open spec fn opened(p: Picker, title: Seq<char>, n: nat, restore: Option<usize>) -> bool {
    &&& p.wf()
    &&& p.title@ == title
    &&& p.items@.len() == n
    &&& p.query@ == Seq::<char>::empty()
    &&& p.filtered@ == Seq::new(n, |i: int| i as usize)
    &&& p.selected == 0
    &&& p.scroll_offset == 0
    &&& p.visible_limit == PICKER_VISIBLE_LIMIT
    &&& p.restore_buffer == restore
}

/// The text an optional string holds.
pub open spec fn opt_view(o: Option<String>) -> Option<Seq<char>> {
    match o {
        Some(s) => Some(s@),
        None => None,
    }
}

/// A buffer's entry in the buffer list: its name, marked ` [+]` when it
/// has unsaved changes.
pub open spec fn buffer_label(b: Buffer) -> Seq<char> {
    if b.modified_flag() {
        b.name_chars() + " [+]"@
    } else {
        b.name_chars()
    }
}

/// `it` is the buffer list's item for buffer `id`: its label, its file's
/// path relative to `cwd` beside it, switching to it when accepted or
/// previewed.
pub open spec fn buffer_item(it: PickerItem, b: Buffer, id: int, cwd: Seq<char>) -> bool {
    &&& it.match_text@ == buffer_label(b)
    &&& it.display@ == buffer_label(b)
    &&& opt_view(it.detail) == (match b.path_chars() {
        Some(p) => Some(relative_to(p, cwd)),
        None => None,
    })
    &&& it.group is None
    &&& it.action@ == ActionView::SwitchToBuffer(id as usize)
    &&& (it.preview_action matches Some(a) && a@ == ActionView::SwitchToBuffer(id as usize))
}

/// A picker over the open buffers, in order.
pub fn buffer_picker(buffers: &[Buffer], cwd: &str, restore_buffer: Option<usize>) -> (p: Picker)
    requires
        forall|i: int| 0 <= i < buffers@.len() ==> (#[trigger] buffers@[i]).wf(),
    ensures
        opened(p, "Buffers"@, buffers@.len(), restore_buffer),
        forall|i: int| 0 <= i < buffers@.len() ==> buffer_item(#[trigger] p.items@[i], buffers@[i], i, cwd@),
{
    let mut items: Vec<PickerItem> = Vec::new();
    let mut id: usize = 0;
    while id < buffers.len()
        invariant
            id <= buffers@.len(),
            items@.len() == id,
            forall|i: int| 0 <= i < buffers@.len() ==> (#[trigger] buffers@[i]).wf(),
            forall|k: int| 0 <= k < id ==> buffer_item(#[trigger] items@[k], buffers@[k], k, cwd@),
        decreases buffers@.len() - id,
    {
        let buf = &buffers[id];
        let mut name = str_to_string(buf.name());
        if buf.is_modified() {
            string_push_str(&mut name, " [+]");
        }
        let detail = match buf.file_path() {
            Some(p) => Some(path_relative_to(p, cwd)),
            None => None,
        };
        let item = PickerItem {
            match_text: str_to_string(name.as_str()),
            display: name,
            detail,
            group: None,
            action: EditorAction::SwitchToBuffer(id),
            preview_action: Some(EditorAction::SwitchToBuffer(id)),
        };
        items.push(item);
        id = id + 1;
    }
    Picker::new("Buffers", items, restore_buffer)
}

/// Entry names the project file list leaves out, wherever they occur.
pub open spec fn skipped_name(name: Seq<char>) -> bool {
    name == ".git"@ || name == "target"@ || name == "node_modules"@ || name == "dist"@ || name == "build"@
}

/// Whether the project file list leaves out entries named `name` (and
/// what lies below them).
pub fn skipped_by_file_picker(name: &str) -> (r: bool)
    ensures
        r == skipped_name(name@),
{
    str_eq(name, ".git") || str_eq(name, "target") || str_eq(name, "node_modules") || str_eq(name, "dist")
        || str_eq(name, "build")
}

/// The paths of the entries that are files, in order.
pub open spec fn file_entries(es: Seq<(String, bool)>) -> Seq<Seq<char>>
    decreases es.len(),
{
    if es.len() == 0 {
        Seq::empty()
    } else if es.last().1 {
        file_entries(es.drop_last()).push(es.last().0@)
    } else {
        file_entries(es.drop_last())
    }
}

/// `it` is the project file list's item for the file at `path`: matched
/// by its path relative to `cwd`, showing its name with the directory
/// beside it (none at the top), opening it when accepted.
pub open spec fn file_item(it: PickerItem, path: Seq<char>, cwd: Seq<char>) -> bool {
    let rel = relative_to(path, cwd);
    &&& it.match_text@ == rel
    &&& it.display@ == file_name_of(rel)
    &&& opt_view(it.detail) == (match parent_of(rel) {
        Some(d) => if d.len() > 0 {
            Some(d)
        } else {
            None
        },
        None => None,
    })
    &&& it.group is None
    &&& it.action@ == ActionView::OpenFile(path)
    &&& it.preview_action is None
}

/// The first `max_results` entries of `entries`.
pub open spec fn first_entries(entries: Seq<(String, bool)>, max_results: usize) -> Seq<(String, bool)> {
    entries.take(if max_results < entries.len() { max_results as int } else { entries.len() as int })
}

/// A picker over the project's files: `entries` are the paths met walking
/// the project directory `cwd`, each with whether it is a file; of the
/// first `max_results`, the files are listed, in order.
pub fn file_picker(cwd: &str, entries: &[(String, bool)], max_results: usize, restore_buffer: Option<usize>) -> (p:
    Picker)
    ensures
        ({
            let fs = file_entries(first_entries(entries@, max_results));
            &&& opened(p, "Project Files"@, fs.len(), restore_buffer)
            &&& forall|i: int| 0 <= i < fs.len() ==> file_item(#[trigger] p.items@[i], fs[i], cwd@)
        }),
{
    let m = if max_results < entries.len() {
        max_results
    } else {
        entries.len()
    };
    let mut items: Vec<PickerItem> = Vec::new();
    let mut i: usize = 0;
    while i < m
        invariant
            m <= entries@.len(),
            m == (if max_results < entries@.len() { max_results as int } else { entries@.len() as int }),
            i <= m,
            items@.len() == file_entries(entries@.take(i as int)).len(),
            forall|k: int|
                0 <= k < items@.len() ==> file_item(#[trigger] items@[k], file_entries(entries@.take(i as int))[k], cwd@),
        decreases m - i,
    {
        proof {
            assert(entries@.take(i + 1).drop_last() =~= entries@.take(i as int));
            assert(entries@.take(i + 1).last() == entries@[i as int]);
        }
        let entry = &entries[i];
        if entry.1 {
            let path = entry.0.as_str();
            let rel = path_relative_to(path, cwd);
            let name = path_file_name(rel.as_str());
            let detail = match path_parent(rel.as_str()) {
                Some(d) => if d.as_str().unicode_len() > 0 {
                    Some(d)
                } else {
                    None
                },
                None => None,
            };
            let item = PickerItem {
                match_text: rel,
                display: name,
                detail,
                group: None,
                action: EditorAction::OpenFile(str_to_string(path)),
                preview_action: None,
            };
            items.push(item);
        }
        i = i + 1;
    }
    Picker::new("Project Files", items, restore_buffer)
}

/// Whether the first `n` bytes of `s` end where a char ends.
pub open spec fn cuts_at(s: Seq<char>, n: nat) -> bool {
    exists|k: int| 0 <= k <= s.len() && byte_len(s.take(k)) == n
}

/// How many chars make up the first `n` bytes of `s` (when `cuts_at`).
pub open spec fn cut_at(s: Seq<char>, n: nat) -> int {
    choose|k: int| 0 <= k <= s.len() && byte_len(s.take(k)) == n
}

/// Longer starts of a text take more bytes.
proof fn lemma_take_bytes_lt(s: Seq<char>, i: int, j: int)
    requires
        0 <= i < j <= s.len(),
    ensures
        byte_len(s.take(i)) < byte_len(s.take(j)),
{
    assert(s.take(j) =~= s.take(i) + s.subrange(i, j));
    lemma_byte_len_concat(s.take(i), s.subrange(i, j));
    lemma_byte_len_ge(s.subrange(i, j));
}

/// What a picker row shows of a line of text: the line trimmed, nothing if
/// that leaves nothing, and past 120 bytes its first 119 bytes and an
/// ellipsis.
pub open spec fn line_detail(t: Seq<char>) -> Option<Seq<char>> {
    let tr = trim(t);
    if tr.len() == 0 {
        None
    } else if byte_len(tr) > 120 {
        Some(tr.take(cut_at(tr, 119)) + "\u{2026}"@)
    } else {
        Some(tr)
    }
}

/// A long trimmed line can be cut after 119 bytes only where a char ends.
pub open spec fn detail_fits(t: Seq<char>) -> bool {
    byte_len(trim(t)) <= 120 || cuts_at(trim(t), 119)
}

/// The first chars of `v[a..b]` up to 119 bytes, and whether they make up
/// exactly 119 bytes.
fn cut_119(v: &Vec<char>, a: usize, b: usize) -> (r: (String, bool))
    requires
        a <= b <= v@.len(),
        byte_len(v@.subrange(a as int, b as int)) > 120,
    ensures
        r.1 == cuts_at(v@.subrange(a as int, b as int), 119),
        r.1 ==> r.0@ == v@.subrange(a as int, b as int).take(cut_at(v@.subrange(a as int, b as int), 119)),
{
    let ghost t = v@.subrange(a as int, b as int);
    let mut cut = String::new();
    let mut k: usize = a;
    proof {
        assert(t.take(0) =~= Seq::<char>::empty());
        assert(t.take(t.len() as int) =~= t);
    }
    while cut.as_str().as_bytes().len() < 119
        invariant
            t == v@.subrange(a as int, b as int),
            a <= k <= b <= v@.len(),
            byte_len(t) > 120,
            cut@ == t.take(k - a),
            k > a ==> byte_len(t.take(k - a - 1)) < 119,
        decreases b - k,
    {
        if k == b {
            proof {
                assert(t.take(k - a) =~= t);
            }
        }
        string_push(&mut cut, v[k]);
        proof {
            assert(t.take(k - a + 1) =~= t.take(k - a).push(v@[k as int]));
        }
        k = k + 1;
    }
    let n = cut.as_str().as_bytes().len();
    proof {
        let j = k - a;
        if n == 119 {
            assert(0 <= j <= t.len() && byte_len(t.take(j)) == 119);
            let c = cut_at(t, 119);
            if c < j {
                lemma_take_bytes_lt(t, c, j);
            } else if c > j {
                lemma_take_bytes_lt(t, j, c);
            }
        } else {
            assert(j > 0);
            assert forall|m: int| 0 <= m <= t.len() implies byte_len(#[trigger] t.take(m)) != 119 by {
                if m < j {
                    if m < j - 1 {
                        lemma_take_bytes_lt(t, m, j - 1);
                    }
                } else if m > j {
                    lemma_take_bytes_lt(t, j, m);
                }
            }
        }
    }
    (cut, n == 119)
}

/// The detail shown for a line of text (`line_detail`).
fn detail_of(line: &str) -> (r: Option<String>)
    requires
        detail_fits(line@),
    ensures
        opt_view(r) == line_detail(line@),
{
    let v = chars_of(line);
    let n = v.len();
    let (a, b) = trim_bounds(&v, 0, n);
    proof {
        assert(v@.subrange(0, n as int) =~= v@);
    }
    if a == b {
        return None;
    }
    let t = string_of_chars(&v, a, b);
    if t.as_str().as_bytes().len() <= 120 {
        return Some(t);
    }
    let (mut cut, _) = cut_119(&v, a, b);
    string_push_str(&mut cut, "\u{2026}");
    Some(cut)
}

/// Whether a line's detail can be cut where `line_detail` cuts it.
fn detail_fits_of(line: &str) -> (r: bool)
    ensures
        r == detail_fits(line@),
{
    let v = chars_of(line);
    let n = v.len();
    let (a, b) = trim_bounds(&v, 0, n);
    proof {
        assert(v@.subrange(0, n as int) =~= v@);
    }
    let t = string_of_chars(&v, a, b);
    if t.as_str().as_bytes().len() <= 120 {
        return true;
    }
    let (_, fits) = cut_119(&v, a, b);
    fits
}

/// Line `line` of `t`, with its line feed; none past the last line.
pub open spec fn text_line(t: Seq<char>, line: int) -> Option<Seq<char>> {
    if 0 <= line < line_count(t) {
        Some(t.subrange(line_start(t, line as nat), line_start(t, (line + 1) as nat)))
    } else {
        None
    }
}

/// The detail shown for line `line` of `t`; none when there is no such
/// line.
pub open spec fn detail_in(t: Seq<char>, line: int) -> Option<Seq<char>> {
    match text_line(t, line) {
        Some(l) => line_detail(l),
        None => None,
    }
}

/// Line `line` of `t`, if any, can be shown as a detail.
pub open spec fn fits_in(t: Seq<char>, line: int) -> bool {
    match text_line(t, line) {
        Some(l) => detail_fits(l),
        None => true,
    }
}

/// Line `line` of a buffer.
fn buffer_line(buffer: &Buffer, line: usize) -> (r: Option<String>)
    requires
        buffer.wf(),
    ensures
        opt_view(r) == text_line(buffer@, line as int),
{
    if line >= buffer.total_lines() {
        return None;
    }
    proof {
        lemma_line_len_nn_bounds(buffer@, line as nat);
        lemma_line_start_bounds(buffer@, line as nat);
    }
    let s = buffer.line_to_char(line);
    let e = buffer.line_to_char(line + 1);
    let r = buffer.yank_range(s, e);
    assert(r@ =~= buffer@.subrange(s as int, e as int));
    Some(r)
}

/// The detail of line `line` of a buffer and whether it fits; the detail
/// is meaningful only when it does.
fn detail_in_buffer(buffer: &Buffer, line: usize) -> (r: (Option<String>, bool))
    requires
        buffer.wf(),
    ensures
        r.1 == fits_in(buffer@, line as int),
        r.1 ==> opt_view(r.0) == detail_in(buffer@, line as int),
{
    match buffer_line(buffer, line) {
        Some(l) => {
            if detail_fits_of(l.as_str()) {
                (detail_of(l.as_str()), true)
            } else {
                (None, false)
            }
        },
        None => (None, true),
    }
}

/// The first buffer read from `path`.
fn find_buffer(buffers: &[Buffer], path: &str) -> (r: Option<usize>)
    requires
        forall|i: int| 0 <= i < buffers@.len() ==> (#[trigger] buffers@[i]).wf(),
    ensures
        match r {
            Some(i) => buffer_with_path(buffers@, path@, 0) == Some(i as int),
            None => buffer_with_path(buffers@, path@, 0) is None,
        },
        r matches Some(i) ==> i < buffers@.len(),
{
    let mut i: usize = 0;
    while i < buffers.len()
        invariant
            i <= buffers@.len(),
            forall|i: int| 0 <= i < buffers@.len() ==> (#[trigger] buffers@[i]).wf(),
            buffer_with_path(buffers@, path@, i as int) == buffer_with_path(buffers@, path@, 0),
        decreases buffers@.len() - i,
    {
        match buffers[i].file_path() {
            Some(p) => {
                if str_eq(p, path) {
                    return Some(i);
                }
            },
            None => {},
        }
        i = i + 1;
    }
    None
}

/// A place in a file that a language server pointed to: a path, and a
/// line and column counted from zero.
#[derive(Debug, Clone)]
pub struct LspLocation {
    pub path: String,
    pub line: usize,
    pub col: usize,
}

/// The plain values of an `LspLocation`.
pub struct LocationView {
    pub path: Seq<char>,
    pub line: usize,
    pub col: usize,
}

impl View for LspLocation {
    type V = LocationView;

    open spec fn view(&self) -> LocationView {
        LocationView { path: self.path@, line: self.line, col: self.col }
    }
}

/// The views of a list of locations.
pub open spec fn location_views(s: Seq<LspLocation>) -> Seq<LocationView> {
    s.map_values(|l: LspLocation| l@)
}

/// A copy of a location.
fn copy_location(l: &LspLocation) -> (r: LspLocation)
    ensures
        r@ == l@,
{
    LspLocation { path: str_to_string(l.path.as_str()), line: l.line, col: l.col }
}

/// The detail shown for a location: its line in the first buffer read from
/// its file, or else in the file's text `file`, when read.
pub open spec fn location_detail(l: LocationView, bufs: Seq<Buffer>, file: Option<Seq<char>>) -> Option<Seq<char>> {
    let from_buf = match buffer_with_path(bufs, l.path, 0) {
        Some(i) => detail_in(bufs[i]@, l.line as int),
        None => None,
    };
    if from_buf is Some {
        from_buf
    } else {
        match file {
            Some(f) => detail_in(f, l.line as int),
            None => None,
        }
    }
}

/// Each line `location_detail` looks at can be shown as a detail.
pub open spec fn location_fits(l: LocationView, bufs: Seq<Buffer>, file: Option<Seq<char>>) -> bool {
    let from_buf = match buffer_with_path(bufs, l.path, 0) {
        Some(i) => detail_in(bufs[i]@, l.line as int),
        None => None,
    };
    &&& (buffer_with_path(bufs, l.path, 0) matches Some(i) ==> fits_in(bufs[i]@, l.line as int))
    &&& (from_buf is None ==> (file matches Some(f) ==> fits_in(f, l.line as int)))
}

/// The detail of a location and whether it fits.
fn location_detail_of(l: &LspLocation, buffers: &[Buffer], file: &Option<String>) -> (r: (Option<String>, bool))
    requires
        forall|i: int| 0 <= i < buffers@.len() ==> (#[trigger] buffers@[i]).wf(),
    ensures
        r.1 == location_fits(l@, buffers@, opt_view(*file)),
        r.1 ==> opt_view(r.0) == location_detail(l@, buffers@, opt_view(*file)),
{
    let (d1, ok1) = match find_buffer(buffers, l.path.as_str()) {
        Some(i) => detail_in_buffer(&buffers[i], l.line),
        None => (None, true),
    };
    if d1.is_some() {
        return (d1, ok1);
    }
    match file {
        Some(text) => {
            let fb = Buffer::from_str(text.as_str(), "", "", true);
            let (d2, ok2) = detail_in_buffer(&fb, l.line);
            (d2, ok1 && ok2)
        },
        None => (None, ok1),
    }
}

/// Every location's detail lines can be shown.
pub open spec fn locations_fit(ls: Seq<LocationView>, bufs: Seq<Buffer>, files: Seq<Option<String>>) -> bool {
    forall|i: int| 0 <= i < ls.len() ==> location_fits(#[trigger] ls[i], bufs, opt_view(files[i]))
}

/// Whether the details of `locations` can be shown (`files[i]` being the
/// text of the file of `locations[i]`, when read): a long line is cut
/// after 119 bytes, which must be where a char ends.
pub fn location_details_fit(locations: &[LspLocation], buffers: &[Buffer], files: &[Option<String>]) -> (r: bool)
    requires
        files@.len() == locations@.len(),
        forall|i: int| 0 <= i < buffers@.len() ==> (#[trigger] buffers@[i]).wf(),
    ensures
        r == locations_fit(location_views(locations@), buffers@, files@),
{
    let mut i: usize = 0;
    while i < locations.len()
        invariant
            files@.len() == locations@.len(),
            i <= locations@.len(),
            forall|i: int| 0 <= i < buffers@.len() ==> (#[trigger] buffers@[i]).wf(),
            forall|k: int| 0 <= k < i ==> location_fits(#[trigger] location_views(locations@)[k], buffers@, opt_view(files@[k])),
        decreases locations@.len() - i,
    {
        let (_, ok) = location_detail_of(&locations[i], buffers, &files[i]);
        if !ok {
            assert(location_views(locations@)[i as int] == locations@[i as int]@);
            return false;
        }
        i = i + 1;
    }
    true
}

/// How a location's place reads: line and column counted from one.
pub open spec fn position_text(l: LocationView) -> Seq<char> {
    decimal((l.line + 1) as nat) + ":"@ + decimal((l.col + 1) as nat)
}

/// Appends a location's line and column, counted from one.
fn push_position(s: &mut String, l: &LspLocation)
    requires
        l.line < usize::MAX,
        l.col < usize::MAX,
    ensures
        final(s)@ == old(s)@ + position_text(l@),
{
    push_decimal(s, l.line + 1);
    string_push_str(s, ":");
    push_decimal(s, l.col + 1);
}

/// `it` is the item for location `l`: grouped under its path relative to
/// `cwd`, showing its line and column with `detail` beside them, opening
/// the file there when accepted.
pub open spec fn location_item(it: PickerItem, l: LocationView, cwd: Seq<char>, detail: Option<Seq<char>>) -> bool {
    let shown = relative_to(l.path, cwd);
    &&& it.match_text@ == shown + ":"@ + position_text(l)
    &&& it.display@ == position_text(l)
    &&& opt_view(it.detail) == detail
    &&& opt_view(it.group) == Some(shown)
    &&& it.action@ == (ActionView::OpenFileAtPosition { path: l.path, line: l.line, col: l.col })
    &&& it.preview_action is None
}

/// Lines and columns can be counted from one.
pub open spec fn positions_fit(ls: Seq<LocationView>) -> bool {
    forall|i: int| 0 <= i < ls.len() ==> (#[trigger] ls[i]).line < usize::MAX && ls[i].col < usize::MAX
}

/// A picker titled `label` over `locations`, in order; `files[i]` is the
/// text of the file of `locations[i]`, when it could be read, for the
/// detail of a location whose file no buffer holds.
pub fn lsp_location_picker(
    locations: &[LspLocation],
    label: &str,
    cwd: &str,
    buffers: &[Buffer],
    files: &[Option<String>],
    restore_buffer: Option<usize>,
) -> (p: Picker)
    requires
        files@.len() == locations@.len(),
        forall|i: int| 0 <= i < buffers@.len() ==> (#[trigger] buffers@[i]).wf(),
        positions_fit(location_views(locations@)),
        locations_fit(location_views(locations@), buffers@, files@),
    ensures
        opened(p, label@, locations@.len(), restore_buffer),
        forall|i: int|
            0 <= i < locations@.len() ==> location_item(
                #[trigger] p.items@[i],
                locations@[i]@,
                cwd@,
                location_detail(locations@[i]@, buffers@, opt_view(files@[i])),
            ),
{
    let mut items: Vec<PickerItem> = Vec::new();
    let mut i: usize = 0;
    while i < locations.len()
        invariant
            files@.len() == locations@.len(),
            i <= locations@.len(),
            items@.len() == i,
            forall|i: int| 0 <= i < buffers@.len() ==> (#[trigger] buffers@[i]).wf(),
            positions_fit(location_views(locations@)),
            locations_fit(location_views(locations@), buffers@, files@),
            forall|k: int|
                0 <= k < i ==> location_item(
                    #[trigger] items@[k],
                    locations@[k]@,
                    cwd@,
                    location_detail(locations@[k]@, buffers@, opt_view(files@[k])),
                ),
        decreases locations@.len() - i,
    {
        let l = &locations[i];
        assert(location_views(locations@)[i as int] == l@);
        let (detail, _) = location_detail_of(l, buffers, &files[i]);
        let shown = path_relative_to(l.path.as_str(), cwd);
        let mut match_text = str_to_string(shown.as_str());
        string_push_str(&mut match_text, ":");
        push_position(&mut match_text, l);
        let mut display = String::new();
        push_position(&mut display, l);
        let item = PickerItem {
            match_text,
            display,
            detail,
            group: Some(shown),
            action: EditorAction::OpenFileAtPosition { path: str_to_string(l.path.as_str()), line: l.line, col: l.col },
            preview_action: None,
        };
        items.push(item);
        i = i + 1;
    }
    Picker::new(label, items, restore_buffer)
}

/// The locations under `cwd`, in order.
pub open spec fn in_dir(ls: Seq<LocationView>, cwd: Seq<char>) -> Seq<LocationView>
    decreases ls.len(),
{
    if ls.len() == 0 {
        Seq::empty()
    } else if starts_with_path(ls.last().path, cwd) {
        in_dir(ls.drop_last(), cwd).push(ls.last())
    } else {
        in_dir(ls.drop_last(), cwd)
    }
}

/// The locations worth showing: for references, those under `cwd` (a
/// server may list thousands in libraries); for the rest, all.
pub open spec fn kept_locations(ls: Seq<LocationView>, label: Seq<char>, cwd: Seq<char>) -> Seq<LocationView> {
    if label == "References"@ {
        in_dir(ls, cwd)
    } else {
        ls
    }
}

/// Whether location `a` comes before `b`: by path in code point order
/// (which is the order of their UTF-8 bytes), then by line.
pub open spec fn place_lt(a: LocationView, b: LocationView) -> bool {
    lex_lt(a.path, b.path) || (a.path == b.path && a.line < b.line)
}

/// Entry `i` of `s` goes before entry `j` in a stable sort by place.
pub open spec fn goes_before(s: Seq<LocationView>, i: int, j: int) -> bool {
    place_lt(s[i], s[j]) || (!place_lt(s[j], s[i]) && i < j)
}

/// `order` lists the entries of `s` sorted by place, equal places in the
/// order they came.
pub open spec fn stable_by_place(s: Seq<LocationView>, order: Seq<usize>) -> bool {
    &&& order.len() == s.len()
    &&& forall|k: int| 0 <= k < order.len() ==> order[k] < s.len()
    &&& forall|j: int, k: int| 0 <= j < k < order.len() ==> goes_before(s, order[j] as int, order[k] as int)
}

/// `goes_before` is transitive.
proof fn lemma_goes_before_trans(s: Seq<LocationView>, a: int, b: int, c: int)
    requires
        0 <= a < s.len(),
        0 <= b < s.len(),
        0 <= c < s.len(),
        goes_before(s, a, b),
        goes_before(s, b, c),
    ensures
        goes_before(s, a, c),
{
    let (x, y, z) = (s[a].path, s[b].path, s[c].path);
    lemma_lex_total(x, y);
    lemma_lex_total(y, z);
    lemma_lex_total(x, z);
    lemma_lex_total(y, x);
    lemma_lex_total(z, y);
    lemma_lex_total(z, x);
    if lex_lt(x, y) && lex_lt(y, z) {
        lemma_lex_trans(x, y, z);
    }
    if lex_lt(z, x) && lex_lt(x, y) {
        lemma_lex_trans(z, x, y);
    }
    if lex_lt(y, z) && lex_lt(z, x) {
        lemma_lex_trans(y, z, x);
    }
}

/// Whether entry `a` of `ls` goes before entry `b`; `chars` holds the
/// chars of each path.
fn goes_before_of(ls: &Vec<LspLocation>, chars: &Vec<Vec<char>>, a: usize, b: usize) -> (r: bool)
    requires
        a < ls@.len(),
        b < ls@.len(),
        chars@.len() == ls@.len(),
        forall|i: int| 0 <= i < ls@.len() ==> (#[trigger] chars@[i])@ == ls@[i].path@,
    ensures
        r == goes_before(location_views(ls@), a as int, b as int),
{
    let x = &ls[a];
    let y = &ls[b];
    let same = str_eq(x.path.as_str(), y.path.as_str());
    let xy = chars_lt(&chars[a], &chars[b]) || (same && x.line < y.line);
    let yx = chars_lt(&chars[b], &chars[a]) || (same && y.line < x.line);
    xy || (!yx && a < b)
}

/// `ls` sorted by place, stably.
fn sort_by_place(ls: &Vec<LspLocation>) -> (r: Vec<LspLocation>)
    ensures
        exists|order: Seq<usize>|
            stable_by_place(location_views(ls@), order) && location_views(r@) == order.map_values(
                |i: usize| location_views(ls@)[i as int],
            ),
{
    let ghost s = location_views(ls@);
    let n = ls.len();
    let mut chars: Vec<Vec<char>> = Vec::new();
    let mut c: usize = 0;
    while c < n
        invariant
            n == ls@.len(),
            c <= n,
            chars@.len() == c,
            forall|i: int| 0 <= i < c ==> (#[trigger] chars@[i])@ == ls@[i].path@,
        decreases n - c,
    {
        chars.push(chars_of(ls[c].path.as_str()));
        c = c + 1;
    }
    let mut order: Vec<usize> = Vec::new();
    let mut i: usize = 0;
    while i < n
        invariant
            n == ls@.len(),
            s == location_views(ls@),
            chars@.len() == n,
            forall|i: int| 0 <= i < n ==> (#[trigger] chars@[i])@ == ls@[i].path@,
            i <= n,
            order@.len() == i,
            forall|k: int| 0 <= k < order@.len() ==> order@[k] < i,
            forall|j: int, k: int| 0 <= j < k < order@.len() ==> goes_before(s, order@[j] as int, order@[k] as int),
        decreases n - i,
    {
        let mut p: usize = 0;
        while p < order.len() && !goes_before_of(ls, &chars, i, order[p])
            invariant
                n == ls@.len(),
                s == location_views(ls@),
                chars@.len() == n,
                forall|i: int| 0 <= i < n ==> (#[trigger] chars@[i])@ == ls@[i].path@,
                i < n,
                p <= order@.len(),
                forall|k: int| 0 <= k < order@.len() ==> order@[k] < i,
                forall|k: int| 0 <= k < p ==> goes_before(s, order@[k] as int, i as int),
            decreases order@.len() - p,
        {
            proof {
                let q = order@[p as int] as int;
                lemma_lex_total(s[i as int].path, s[q].path);
            }
            p = p + 1;
        }
        let ghost old_order = order@;
        order.insert(p, i);
        proof {
            assert forall|j: int, k: int| 0 <= j < k < order@.len() implies goes_before(
                s,
                order@[j] as int,
                order@[k] as int,
            ) by {
                if j == p && k > p {
                    let m = old_order[k - 1] as int;
                    let q = old_order[p as int] as int;
                    if k - 1 > p {
                        lemma_goes_before_trans(s, i as int, q, m);
                    }
                }
            }
        }
        i = i + 1;
    }
    let mut r: Vec<LspLocation> = Vec::new();
    let mut k: usize = 0;
    while k < n
        invariant
            n == ls@.len(),
            s == location_views(ls@),
            order@.len() == n,
            forall|m: int| 0 <= m < order@.len() ==> order@[m] < n,
            k <= n,
            location_views(r@) == order@.take(k as int).map_values(|i: usize| s[i as int]),
        decreases n - k,
    {
        let c = copy_location(&ls[order[k]]);
        let ghost before = r@;
        r.push(c);
        proof {
            assert(location_views(r@) =~= location_views(before).push(c@));
            assert(order@.take(k as int + 1).map_values(|i: usize| s[i as int]) =~= order@.take(k as int).map_values(
                |i: usize| s[i as int],
            ).push(s[order@[k as int] as int]));
        }
        k = k + 1;
    }
    proof {
        assert(order@.take(n as int) =~= order@);
        assert(stable_by_place(s, order@));
    }
    r
}

/// What an answer listing places leads to.
pub enum LocationsOutcome {
    /// Nothing to show; the status line takes this message.
    NotFound(String),
    /// A single place: the status line takes `status`, and the editor goes
    /// to the place.
    Jump { status: String, location: LspLocation },
    /// Several places, to choose from in a picker, in this order.
    Choose(Vec<LspLocation>),
}

/// What to do with the places a language server answered a `label`
/// request with (definition, references, ...): references outside `cwd`
/// are dropped; then none is reported, one is gone to, and several are
/// sorted by file and line to choose from.
pub fn locations_outcome(locations: &[LspLocation], label: &str, cwd: &str) -> (r: LocationsOutcome)
    requires
        positions_fit(location_views(locations@)),
    ensures
        ({
            let ks = kept_locations(location_views(locations@), label@, cwd@);
            &&& ks.len() == 0 ==> (r matches LocationsOutcome::NotFound(m) && m@ == "No "@ + label@ + " found"@)
            &&& ks.len() == 1 ==> (r matches LocationsOutcome::Jump { status, location } && location@ == ks[0]
                && status@ == label@ + ": "@ + ks[0].path + ":"@ + position_text(ks[0]))
            &&& ks.len() > 1 ==> (r matches LocationsOutcome::Choose(v) && exists|order: Seq<usize>|
                stable_by_place(ks, order) && location_views(v@) == order.map_values(|i: usize| ks[i as int]))
        }),
{
    let ghost ls = location_views(locations@);
    let only_in_dir = str_eq(label, "References");
    let mut kept: Vec<LspLocation> = Vec::new();
    let mut i: usize = 0;
    while i < locations.len()
        invariant
            ls == location_views(locations@),
            positions_fit(ls),
            only_in_dir == (label@ == "References"@),
            i <= locations@.len(),
            location_views(kept@) == (if only_in_dir { in_dir(ls.take(i as int), cwd@) } else { ls.take(i as int) }),
            positions_fit(location_views(kept@)),
        decreases locations@.len() - i,
    {
        let ghost before = kept@;
        proof {
            assert(ls.take(i + 1).drop_last() =~= ls.take(i as int));
            assert(ls.take(i + 1).last() == locations@[i as int]@);
        }
        let l = &locations[i];
        if !only_in_dir || path_starts_with(l.path.as_str(), cwd) {
            kept.push(copy_location(l));
            proof {
                assert(location_views(kept@) =~= location_views(before).push(l@));
                assert(ls[i as int] == l@);
            }
        }
        i = i + 1;
    }
    proof {
        assert(ls.take(locations@.len() as int) =~= ls);
    }
    let ghost ks = location_views(kept@);
    if kept.len() == 0 {
        let mut m = str_to_string("No ");
        string_push_str(&mut m, label);
        string_push_str(&mut m, " found");
        LocationsOutcome::NotFound(m)
    } else if kept.len() == 1 {
        let l = &kept[0];
        assert(ks[0] == l@);
        let mut status = str_to_string(label);
        string_push_str(&mut status, ": ");
        string_push_str(&mut status, l.path.as_str());
        string_push_str(&mut status, ":");
        push_position(&mut status, l);
        LocationsOutcome::Jump { status, location: copy_location(l) }
    } else {
        LocationsOutcome::Choose(sort_by_place(&kept))
    }
}


/// A highlighted range of a file: UTF-8 byte offsets, and the highlight
/// (by its index) that colours it.
#[derive(Debug, Clone, Copy, PartialEq, Eq, Structural)]
pub struct HighlightRange {
    pub byte_start: u32,
    pub byte_end: u32,
    pub highlight: u32,
}

/// The colour of a piece of a detail.
#[derive(Debug, Clone, Copy, PartialEq, Eq, Structural)]
pub enum SpanColor {
    /// A detail nothing highlights.
    Plain,
    /// Text between highlights.
    Default,
    /// The colour of a highlight.
    Highlight(u32),
}

/// A piece of a detail and its colour.
#[derive(Debug, Clone)]
pub struct DetailSpan {
    pub text: String,
    pub color: SpanColor,
}

/// The plain values of a `DetailSpan`.
pub struct SpanView {
    pub text: Seq<char>,
    pub color: SpanColor,
}

/// The views of spans.
pub open spec fn span_views(s: Seq<DetailSpan>) -> Seq<SpanView> {
    s.map_values(|d: DetailSpan| SpanView { text: d.text@, color: d.color })
}

/// The highlights given, if any.
pub open spec fn opt_ranges(h: Option<&[HighlightRange]>) -> Option<Seq<HighlightRange>> {
    match h {
        Some(v) => Some(v@),
        None => None,
    }
}

/// The chars of `t` from byte offset `a` to byte offset `b`, each offset
/// taken to the char it falls in.
pub open spec fn byte_slice(t: Seq<char>, a: int, b: int) -> Seq<char> {
    t.subrange(char_at_byte(t, a), char_at_byte(t, b))
}

/// `s` without its trailing line feeds.
pub open spec fn strip_nl(s: Seq<char>) -> Seq<char>
    decreases s.len(),
{
    if s.len() > 0 && s.last() == '\n' {
        strip_nl(s.drop_last())
    } else {
        s
    }
}

/// One highlight's share of a detail: clipped to the trimmed line
/// `tbs..tbe`, the text from `pos` up to it in the default colour, then its
/// own text in its colour; `pos` moves to its end.
pub open spec fn span_step(t: Seq<char>, tbs: int, tbe: int, st: (int, Seq<SpanView>), h: HighlightRange) -> (
    int,
    Seq<SpanView>,
) {
    let ss = if h.byte_start as int > tbs { h.byte_start as int } else { tbs };
    let se = if (h.byte_end as int) < tbe { h.byte_end as int } else { tbe };
    if ss >= se {
        st
    } else {
        let gap = byte_slice(t, st.0, ss);
        let s1 = if st.0 < ss && gap.len() > 0 {
            st.1.push(SpanView { text: gap, color: SpanColor::Default })
        } else {
            st.1
        };
        let mid = byte_slice(t, ss, se);
        (se, if mid.len() > 0 { s1.push(SpanView { text: mid, color: SpanColor::Highlight(h.highlight) }) } else { s1 })
    }
}

/// `span_step` over the highlights, in order, from `tbs`.
pub open spec fn span_steps(t: Seq<char>, tbs: int, tbe: int, hs: Seq<HighlightRange>) -> (int, Seq<SpanView>)
    decreases hs.len(),
{
    if hs.len() == 0 {
        (tbs, Seq::empty())
    } else {
        span_step(t, tbs, tbe, span_steps(t, tbs, tbe, hs.drop_last()), hs.last())
    }
}

/// The coloured pieces of line `line` of `t`, whose detail is `detail`:
/// with no highlights, the detail in plain colour; else the trimmed line's
/// text cut at the highlights (clipped to it), the rest in the default
/// colour, or the detail in the default colour when nothing is left.
pub open spec fn line_spans(t: Seq<char>, line: int, detail: Seq<char>, hs: Option<Seq<HighlightRange>>) -> Seq<
    SpanView,
> {
    let lt = t.subrange(line_start(t, line as nat), line_start(t, (line + 1) as nat));
    let plain = seq![SpanView { text: detail, color: SpanColor::Plain }];
    let dflt = seq![SpanView { text: detail, color: SpanColor::Default }];
    match hs {
        None => plain,
        Some(hs) => if hs.len() == 0 {
            plain
        } else {
            let lbs = byte_len(t.take(line_start(t, line as nat)));
            let lbe = byte_len(t.take(line_start(t, (line + 1) as nat)));
            let tbs = lbs + (byte_len(lt) - byte_len(trim_start(lt)));
            let tbe0: int = lbs + byte_len(strip_nl(lt)) as int;
            let tbe: int = if tbe0 < lbe { tbe0 } else { lbe as int };
            if tbs >= tbe {
                dflt
            } else {
                let (pos, spans) = span_steps(t, tbs, tbe, hs);
                let tail = byte_slice(t, pos, tbe);
                let all = if pos < tbe && tail.len() > 0 {
                    spans.push(SpanView { text: tail, color: SpanColor::Default })
                } else {
                    spans
                };
                if all.len() == 0 {
                    dflt
                } else {
                    all
                }
            }
        },
    }
}

/// The number of leading whitespace chars of `v`.
fn leading_ws(v: &Vec<char>) -> (r: usize)
    ensures
        r <= v@.len(),
        v@.skip(r as int) == trim_start(v@),
{
    let n = v.len();
    let mut a: usize = 0;
    assert(v@.skip(0) =~= v@);
    while a < n && char_is_whitespace(v[a])
        invariant
            n == v@.len(),
            a <= n,
            trim_start(v@) == trim_start(v@.skip(a as int)),
        decreases n - a,
    {
        assert(v@.skip(a as int).drop_first() =~= v@.skip(a + 1));
        a = a + 1;
    }
    a
}

/// The number of chars of `v` before its trailing line feeds.
fn before_line_feeds(v: &Vec<char>) -> (r: usize)
    ensures
        r <= v@.len(),
        v@.take(r as int) == strip_nl(v@),
{
    let mut e: usize = v.len();
    assert(v@.take(e as int) =~= v@);
    while e > 0 && v[e - 1] == '\n'
        invariant
            e <= v@.len(),
            strip_nl(v@) == strip_nl(v@.take(e as int)),
        decreases e,
    {
        assert(v@.take(e as int).drop_last() =~= v@.take(e - 1));
        e = e - 1;
    }
    e
}

/// The chars of `buffer` between byte offsets `a` and `b`.
fn slice_bytes(buffer: &Buffer, a: usize, b: usize) -> (r: String)
    requires
        buffer.wf(),
        a <= b <= byte_len(buffer@),
    ensures
        r@ == byte_slice(buffer@, a as int, b as int),
{
    let r = buffer.rope();
    proof {
        lemma_char_at_byte_mono(buffer@, a as int, b as int);
    }
    let ca = rope_byte_to_char(r, a);
    let cb = rope_byte_to_char(r, b);
    rope_slice_string(r, ca, cb)
}

/// A copy of a string.
fn copy_string(s: &String) -> (r: String)
    ensures
        r@ == s@,
{
    str_to_string(s.as_str())
}

/// The trimmed line `tbs..tbe` of `buffer`'s text cut at the highlights
/// `hs`, what lies between and after them in the default colour.
fn cut_spans(buffer: &Buffer, hs: &[HighlightRange], tbs: usize, tbe: usize) -> (r: Vec<DetailSpan>)
    requires
        buffer.wf(),
        tbs < tbe <= byte_len(buffer@),
    ensures
        ({
            let t = buffer@;
            let (pos, spans) = span_steps(t, tbs as int, tbe as int, hs@);
            let tail = byte_slice(t, pos, tbe as int);
            span_views(r@) == (if pos < tbe && tail.len() > 0 {
                spans.push(SpanView { text: tail, color: SpanColor::Default })
            } else {
                spans
            })
        }),
{
    let ghost t = buffer@;
    proof {
        buffer.lemma_wf_fits();
    }
    let mut spans: Vec<DetailSpan> = Vec::new();
    let mut pos: usize = tbs;
    let mut i: usize = 0;
    while i < hs.len()
        invariant
            buffer.wf(),
            t == buffer@,
            byte_len(t) <= usize::MAX,
            tbs < tbe <= byte_len(t),
            i <= hs@.len(),
            (pos as int, span_views(spans@)) == span_steps(t, tbs as int, tbe as int, hs@.take(i as int)),
            tbs <= pos <= tbe,
        decreases hs@.len() - i,
    {
        proof {
            assert(hs@.take(i + 1).drop_last() =~= hs@.take(i as int));
        }
        let h = hs[i];
        let hs_start = h.byte_start as usize;
        let hs_end = h.byte_end as usize;
        let ss = if hs_start > tbs { hs_start } else { tbs };
        let se = if hs_end < tbe { hs_end } else { tbe };
        if ss < se {
            if pos < ss {
                let gap = slice_bytes(buffer, pos, ss);
                if gap.as_str().unicode_len() > 0 {
                    let ghost before = spans@;
                    spans.push(DetailSpan { text: gap, color: SpanColor::Default });
                    assert(span_views(spans@) =~= span_views(before).push(
                        SpanView { text: byte_slice(t, pos as int, ss as int), color: SpanColor::Default },
                    ));
                }
            }
            let mid = slice_bytes(buffer, ss, se);
            if mid.as_str().unicode_len() > 0 {
                let ghost before = spans@;
                spans.push(DetailSpan { text: mid, color: SpanColor::Highlight(h.highlight) });
                assert(span_views(spans@) =~= span_views(before).push(
                    SpanView { text: byte_slice(t, ss as int, se as int), color: SpanColor::Highlight(h.highlight) },
                ));
            }
            pos = se;
        }
        i = i + 1;
    }
    proof {
        assert(hs@.take(hs@.len() as int) =~= hs@);
    }
    if pos < tbe {
        let tail = slice_bytes(buffer, pos, tbe);
        if tail.as_str().unicode_len() > 0 {
            let ghost before = spans@;
            spans.push(DetailSpan { text: tail, color: SpanColor::Default });
            assert(span_views(spans@) =~= span_views(before).push(
                SpanView { text: byte_slice(t, pos as int, tbe as int), color: SpanColor::Default },
            ));
        }
    }
    spans
}

/// Line `line` of `buffer` as a picker row shows it: its detail
/// (`line_detail`) and that detail cut into coloured pieces by `highlights`
/// (byte ranges of the buffer's text, none when it is not highlighted); none
/// past the last line or for a blank line.
pub fn highlighted_line(buffer: &Buffer, highlights: Option<&[HighlightRange]>, line: usize) -> (r: Option<
    (Option<String>, Vec<DetailSpan>),
>)
    requires
        buffer.wf(),
        fits_in(buffer@, line as int),
    ensures
        match text_line(buffer@, line as int) {
            None => r is None,
            Some(lt) => if trim(lt).len() == 0 {
                r is None
            } else {
                r matches Some((d, spans)) && opt_view(d) == line_detail(lt) && span_views(spans@) == line_spans(
                    buffer@,
                    line as int,
                    line_detail(lt)->0,
                    opt_ranges(highlights),
                )
            },
        },
{
    let ghost t = buffer@;
    let lt = match buffer_line(buffer, line) {
        Some(l) => l,
        None => return None,
    };
    let d = match detail_of(lt.as_str()) {
        Some(d) => d,
        None => return None,
    };
    let dflt = DetailSpan { text: copy_string(&d), color: SpanColor::Default };
    let hs = match highlights {
        Some(h) => {
            if h.len() == 0 {
                let plain = DetailSpan { text: copy_string(&d), color: SpanColor::Plain };
                assert(span_views(seq![plain]) =~= seq![SpanView { text: d@, color: SpanColor::Plain }]);
                return Some((Some(d), vec![plain]));
            }
            h
        },
        None => {
            let plain = DetailSpan { text: copy_string(&d), color: SpanColor::Plain };
            assert(span_views(seq![plain]) =~= seq![SpanView { text: d@, color: SpanColor::Plain }]);
            return Some((Some(d), vec![plain]));
        },
    };
    let ghost ls = line_start(t, line as nat);
    let ghost ls1 = line_start(t, (line + 1) as nat);
    proof {
        lemma_line_len_nn_bounds(t, line as nat);
        lemma_line_start_bounds(t, line as nat);
        buffer.lemma_wf_fits();
        assert(t.take(ls1) =~= t.take(ls) + lt@);
        lemma_byte_len_concat(t.take(ls), lt@);
        assert(t =~= t.take(ls1) + t.skip(ls1));
        lemma_byte_len_concat(t.take(ls1), t.skip(ls1));
    }
    let nlines = buffer.total_lines();
    let lbs = rope_line_to_byte(buffer.rope(), line);
    let lbe = rope_line_to_byte(buffer.rope(), line + 1);
    let v = chars_of(lt.as_str());
    let a = leading_ws(&v);
    let e = before_line_feeds(&v);
    let lead = string_of_chars(&v, 0, a);
    let body = string_of_chars(&v, 0, e);
    proof {
        assert(v@ =~= v@.take(a as int) + v@.skip(a as int));
        lemma_byte_len_concat(v@.take(a as int), v@.skip(a as int));
        assert(v@ =~= v@.take(e as int) + v@.skip(e as int));
        lemma_byte_len_concat(v@.take(e as int), v@.skip(e as int));
        assert(lead@ =~= v@.take(a as int));
        assert(body@ =~= v@.take(e as int));
    }
    let tbs = lbs + lead.as_str().as_bytes().len();
    let tbe0 = lbs + body.as_str().as_bytes().len();
    let tbe = if tbe0 < lbe { tbe0 } else { lbe };
    if tbs >= tbe {
        assert(span_views(seq![dflt]) =~= seq![SpanView { text: d@, color: SpanColor::Default }]);
        return Some((Some(d), vec![dflt]));
    }
    let spans = cut_spans(buffer, hs, tbs, tbe);
    if spans.len() == 0 {
        assert(span_views(seq![dflt]) =~= seq![SpanView { text: d@, color: SpanColor::Default }]);
        return Some((Some(d), vec![dflt]));
    }
    Some((Some(d), spans))
}

} // verus!

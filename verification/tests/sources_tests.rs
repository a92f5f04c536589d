use vimax::action::EditorAction;
use vimax::buffer::Buffer;
use vimax::completions::completion_start;
use vimax::diagnostics::{Diagnostic, Severity};
use vimax::editor::{Editor, create_scratch_buffer};
use vimax::hover::{HoverItem, HoverReply, extract_hover_text};
use vimax::picker::sources::{
    HighlightRange, LocationsOutcome, LspLocation, SpanColor, buffer_picker, file_picker, highlighted_line,
    location_details_fit, locations_outcome, lsp_location_picker, skipped_by_file_picker,
};
use vimax::scrollbar::{MarkerKind, ScrollbarMarker, scrollbar_markers};
use vimax::window::Window;

fn loc(path: &str, line: usize, col: usize) -> LspLocation {
    LspLocation { path: String::from(path), line, col }
}

#[test]
fn completion_start_finds_the_typed_word() {
    let b = Buffer::from_str("let x = foo.ba\nsecond_wo", "t.rs", "/tmp/t.rs", false);
    // Cursor after "foo.ba": the word is "ba", starting after the dot.
    assert_eq!(completion_start(&b, 14), (12, String::from("ba")));
    // Cursor after "second_wo" on the next line: the whole line is the word.
    assert_eq!(completion_start(&b, 24), (15, String::from("second_wo")));
    // Right after a space: nothing typed yet.
    assert_eq!(completion_start(&b, 8), (8, String::new()));
}

#[test]
fn completion_start_counts_bytes_within_the_line() {
    // "é" takes two bytes, so the word after the space starts at byte 4 of
    // the line.
    let b = Buffer::from_str("é: ab", "t.rs", "/tmp/t.rs", false);
    assert_eq!(completion_start(&b, 5), (4, String::from("ab")));
}

#[test]
fn buffer_picker_lists_buffers() {
    let mut scratch = Buffer::new();
    scratch.set_name("*scratch*");
    scratch.insert_str(0, "hi");
    let file = Buffer::from_str("x", "main.rs", "/home/p/src/main.rs", false);
    let p = buffer_picker(&[scratch, file], "/home/p", Some(1));
    assert_eq!(p.title, "Buffers");
    assert_eq!(p.items.len(), 2);
    assert_eq!(p.items[0].display, "*scratch* [+]");
    assert_eq!(p.items[0].detail, None);
    assert_eq!(p.items[1].display, "main.rs");
    assert_eq!(p.items[1].detail.as_deref(), Some("src/main.rs"));
    assert!(matches!(p.items[1].action, EditorAction::SwitchToBuffer(1)));
    assert_eq!(p.restore_buffer, Some(1));
}

#[test]
fn file_picker_lists_files_within_the_limit() {
    let entries = vec![
        (String::from("/home/p"), false),
        (String::from("/home/p/Cargo.toml"), true),
        (String::from("/home/p/src"), false),
        (String::from("/home/p/src/main.rs"), true),
        (String::from("/home/p/src/lib.rs"), true),
    ];
    let p = file_picker("/home/p", &entries, 4, None);
    assert_eq!(p.title, "Project Files");
    assert_eq!(p.items.len(), 2);
    assert_eq!(p.items[0].match_text, "Cargo.toml");
    assert_eq!(p.items[0].detail, None);
    assert_eq!(p.items[1].match_text, "src/main.rs");
    assert_eq!(p.items[1].display, "main.rs");
    assert_eq!(p.items[1].detail.as_deref(), Some("src"));
    match &p.items[1].action {
        EditorAction::OpenFile(path) => assert_eq!(path, "/home/p/src/main.rs"),
        _ => panic!("expected OpenFile"),
    }
}

#[test]
fn file_picker_skips_build_and_vcs_directories() {
    for name in [".git", "target", "node_modules", "dist", "build"] {
        assert!(skipped_by_file_picker(name));
    }
    assert!(!skipped_by_file_picker("src"));
    assert!(!skipped_by_file_picker("targets"));
}

#[test]
fn location_picker_shows_lines_of_buffers_and_files() {
    let open = Buffer::from_str("fn main() {\n    run();\n}\n", "main.rs", "/home/p/src/main.rs", false);
    let long = format!("x{}", "y".repeat(200));
    let locations = vec![loc("/home/p/src/main.rs", 1, 4), loc("/home/p/src/lib.rs", 0, 0), loc("/elsewhere/a.rs", 0, 2)];
    let files = vec![None, Some(long.clone()), None];
    let buffers = vec![open];
    assert!(location_details_fit(&locations, &buffers, &files));
    let p = lsp_location_picker(&locations, "References", "/home/p", &buffers, &files, Some(0));
    assert_eq!(p.title, "References");
    assert_eq!(p.items[0].match_text, "src/main.rs:2:5");
    assert_eq!(p.items[0].display, "2:5");
    assert_eq!(p.items[0].detail.as_deref(), Some("run();"));
    assert_eq!(p.items[0].group.as_deref(), Some("src/main.rs"));
    let cut = format!("{}\u{2026}", &long[..119]);
    assert_eq!(p.items[1].detail.as_deref(), Some(cut.as_str()));
    assert_eq!(p.items[2].detail, None);
    assert_eq!(p.items[2].group.as_deref(), Some("/elsewhere/a.rs"));
    match &p.items[0].action {
        EditorAction::OpenFileAtPosition { path, line, col } => {
            assert_eq!(path, "/home/p/src/main.rs");
            assert_eq!((*line, *col), (1, 4));
        }
        _ => panic!("expected OpenFileAtPosition"),
    }
}

#[test]
fn location_detail_that_cannot_be_cut_is_reported() {
    // 118 ASCII bytes then a two-byte char: byte 119 falls inside it.
    let line = format!("{}é{}", "a".repeat(118), "b".repeat(10));
    let locations = vec![loc("/p/a.rs", 0, 0)];
    assert!(!location_details_fit(&locations, &[], &[Some(line)]));
}

#[test]
fn locations_outcome_reports_jumps_or_sorts() {
    match locations_outcome(&[], "Definition", "/p") {
        LocationsOutcome::NotFound(m) => assert_eq!(m, "No Definition found"),
        _ => panic!("expected NotFound"),
    }
    match locations_outcome(&[loc("/p/a.rs", 9, 3)], "Definition", "/p") {
        LocationsOutcome::Jump { status, location } => {
            assert_eq!(status, "Definition: /p/a.rs:10:4");
            assert_eq!(location.line, 9);
        }
        _ => panic!("expected Jump"),
    }
    // References outside the project are dropped.
    match locations_outcome(&[loc("/usr/lib/x.rs", 1, 1), loc("/p/b.rs", 2, 0)], "References", "/p") {
        LocationsOutcome::Jump { status, .. } => assert_eq!(status, "References: /p/b.rs:3:1"),
        _ => panic!("expected Jump"),
    }
    let many = [loc("/p/b.rs", 5, 0), loc("/p/a.rs", 7, 1), loc("/p/b.rs", 1, 0), loc("/p/a.rs", 7, 0)];
    match locations_outcome(&many, "Implementation", "/p") {
        LocationsOutcome::Choose(v) => {
            let got: Vec<(String, usize, usize)> = v.into_iter().map(|l| (l.path, l.line, l.col)).collect();
            assert_eq!(
                got,
                vec![
                    (String::from("/p/a.rs"), 7, 1),
                    (String::from("/p/a.rs"), 7, 0),
                    (String::from("/p/b.rs"), 1, 0),
                    (String::from("/p/b.rs"), 5, 0),
                ]
            );
        }
        _ => panic!("expected Choose"),
    }
}

#[test]
fn completion_start_refuses_a_wide_separator() {
    let ok = Buffer::from_str("a.bc", "t.rs", "/tmp/t.rs", false);
    assert!(vimax::completions::completion_start_ok(&ok, 4));
    // "→" is not a word char and takes three bytes.
    let wide = Buffer::from_str("a→bc", "t.rs", "/tmp/t.rs", false);
    assert!(!vimax::completions::completion_start_ok(&wide, 4));
    // With nothing but word chars before the cursor, any line will do.
    let word = Buffer::from_str("→\nabc", "t.rs", "/tmp/t.rs", false);
    assert!(vimax::completions::completion_start_ok(&word, 5));
}

#[test]
fn protocol_positions_count_utf16_units() {
    let b = Buffer::from_str("ab\n\u{1F600}x", "t.rs", "/tmp/t.rs", false);
    assert_eq!(vimax::lsp::lsp_position(&b, 1), (0, 1));
    assert_eq!(vimax::lsp::lsp_position(&b, 3), (1, 0));
    // The emoji takes two UTF-16 units.
    assert_eq!(vimax::lsp::lsp_position(&b, 4), (1, 2));
    assert_eq!(vimax::lsp::lsp_position(&b, 5), (1, 3));
}

#[test]
fn hover_replies_become_lines() {
    assert_eq!(extract_hover_text(&HoverReply::Text(String::from("a\nb"))), vec!["a", "b"]);
    assert_eq!(
        extract_hover_text(&HoverReply::Value(String::from("```rust\nfn f()\n```\ndoc"))),
        vec!["fn f()", "doc"]
    );
    let items = vec![
        HoverItem::Text(String::from("one")),
        HoverItem::Other,
        HoverItem::Value(String::from("```\ntwo\n```")),
    ];
    assert_eq!(extract_hover_text(&HoverReply::Items(items)), vec!["one", "two"]);
    assert_eq!(extract_hover_text(&HoverReply::Raw(String::from("{\n}"))), vec!["{", "}"]);
}

#[test]
fn scratch_buffer_welcomes() {
    let b = create_scratch_buffer();
    assert_eq!(b.name(), "*scratch*");
    assert!(b.text().starts_with("Welcome to remax."));
    assert!(b.is_modified());
    let mut e = Editor::new(String::from("/p"));
    e.push_first_buffer(b);
    assert_eq!(e.buffers.len(), 1);
    assert_eq!(e.buffer().name(), "*scratch*");
    assert_eq!(e.cursor(), 0);
}

#[test]
fn scrollbar_marks_matches_then_diagnostics() {
    let b = Buffer::from_str("ab\ncd\nef", "t.rs", "/tmp/t.rs", false);
    let mut w = Window::new(0);
    // The match at 99 lies past the text and gets no mark.
    w.search_matches = vec![1, 4, 99, 7];
    let diag = |line: usize, severity: Severity| Diagnostic {
        line,
        col_start: 0,
        col_end: 1,
        severity,
        message: String::from("m"),
        source: None,
    };
    let diags = vec![diag(2, Severity::Warning), diag(0, Severity::Error), diag(1, Severity::Hint)];
    let marks = scrollbar_markers(&w, &b, &diags);
    let expect = |line: usize, kind: MarkerKind| ScrollbarMarker { line, kind };
    assert_eq!(
        marks,
        vec![
            expect(0, MarkerKind::SearchMatch),
            expect(1, MarkerKind::SearchMatch),
            expect(2, MarkerKind::SearchMatch),
            expect(2, MarkerKind::Warning),
            expect(0, MarkerKind::Error),
            expect(1, MarkerKind::Other),
        ]
    );
}

#[test]
fn highlighted_line_cuts_the_trimmed_line_at_highlights() {
    let b = Buffer::from_str("fn main() {\n    let x = 1;\n\n}\n", "m.rs", "/p/m.rs", false);
    let spans_of = |hs: Option<&[HighlightRange]>| {
        let (detail, spans) = highlighted_line(&b, hs, 1).expect("line 1 has text");
        assert_eq!(detail.as_deref(), Some("let x = 1;"));
        spans.into_iter().map(|s| (s.text, s.color)).collect::<Vec<_>>()
    };
    let hl = |byte_start: u32, byte_end: u32, highlight: u32| HighlightRange { byte_start, byte_end, highlight };
    // No highlighting: the detail in plain colour.
    assert_eq!(spans_of(None), vec![(String::from("let x = 1;"), SpanColor::Plain)]);
    assert_eq!(spans_of(Some(&[])), vec![(String::from("let x = 1;"), SpanColor::Plain)]);
    // Line 1 starts at byte 12; its text after the indent runs from 16 to 26.
    let hs = [hl(16, 19, 3), hl(24, 25, 7)];
    assert_eq!(
        spans_of(Some(&hs)),
        vec![
            (String::from("let"), SpanColor::Highlight(3)),
            (String::from(" x = "), SpanColor::Default),
            (String::from("1"), SpanColor::Highlight(7)),
            (String::from(";"), SpanColor::Default),
        ]
    );
    // A highlight reaching into the indent is clipped to the text.
    assert_eq!(
        spans_of(Some(&[hl(10, 18, 2)])),
        vec![(String::from("le"), SpanColor::Highlight(2)), (String::from("t x = 1;"), SpanColor::Default)]
    );
    // Highlights elsewhere leave the text in the default colour.
    assert_eq!(spans_of(Some(&[hl(0, 2, 1)])), vec![(String::from("let x = 1;"), SpanColor::Default)]);
    // Blank lines and lines past the end show nothing.
    assert!(highlighted_line(&b, None, 2).is_none());
    assert!(highlighted_line(&b, None, 9).is_none());
}

use glancr::SearchMode;
use glancr::preview::{get_file_preview, FileInput, SpanColor};

fn text_input(content: &str) -> FileInput {
    FileInput::Text { content: content.to_string() }
}

#[test]
fn test_file_preview_basic() {
    let content = "fn main() {\n    println!(\"Hello\");\n}";
    let path = "test.rs".to_string();
    let (preview, scroll) = {
        let r = get_file_preview(&path, &text_input(content), &"".to_string(), SearchMode::Contents);
        (r.lines, r.scroll_target)
    };
    assert!(preview.len() > 0);
    assert_eq!(scroll, None);
}

#[test]
fn test_file_preview_with_query() {
    let content = "line one\nline two\nline three with match\nline four";
    let path = "test.rs".to_string();
    let r = get_file_preview(
        &path,
        &text_input(content),
        &"match".to_string(),
        SearchMode::Contents,
    );
    assert!(r.lines.len() > 0);
    println!("{:?}", r.scroll_target);

    assert_eq!(r.scroll_target, Some(3));
}

#[test]
fn test_file_preview_nonexistent_file() {
    let path = "nonexistent_file.txt".to_string();
    let r = get_file_preview(&path, &FileInput::Unreadable, &"".to_string(), SearchMode::Contents);

    assert_eq!(r.lines.len(), 1);
    assert_eq!(r.lines[0].spans[0].text, "Unable to read file");
    assert_eq!(r.scroll_target, None);
}

#[test]
fn test_file_preview_line_numbers() {
    let content = "line1\nline2\nline3";
    let path = "test.rs".to_string();
    let r = get_file_preview(&path, &text_input(content), &"".to_string(), SearchMode::Contents);

    let first_line_number = r.lines[0].spans[0].text.trim();
    assert_eq!(first_line_number, "1");
}

#[test]
fn test_file_preview_syntax_highlighting() {
    let content = "fn main() {\n    let x = 42;\n}";
    let path = "test.rs".to_string();
    let r = get_file_preview(&path, &text_input(content), &"".to_string(), SearchMode::Contents);

    println!("{:?}", r.lines[0].spans[1].text);
    assert!(r.lines[0].spans.len() > 1);
}

#[test]
fn preview_spans_carry_line_text() {
    let content = "fn main() {\n    let x = 42;\n}";
    let path = "test.rs".to_string();
    let r = get_file_preview(&path, &text_input(content), &"".to_string(), SearchMode::Contents);
    let expected = ["fn main() {", "    let x = 42;", "}"];
    assert_eq!(r.lines.len(), 3);
    for (i, want) in expected.iter().enumerate() {
        let mut joined = String::new();
        for span in r.lines[i].spans.iter().skip(1) {
            joined.push_str(&span.text);
        }
        assert_eq!(&joined, want);
    }
}

#[test]
fn preview_match_span_is_emphasized() {
    let content = "nothing here\na line with match inside\nlast";
    let path = "notes.txt".to_string();
    let r = get_file_preview(
        &path,
        &text_input(content),
        &"match".to_string(),
        SearchMode::Contents,
    );
    assert_eq!(r.scroll_target, Some(2));
    let mut found = false;
    for span in r.lines[1].spans.iter() {
        if span.highlighted {
            assert_eq!(span.text, "match");
            found = true;
        }
    }
    assert!(found);
}

#[test]
fn preview_invalid_regex_is_like_no_query() {
    let content = "alpha\nbeta";
    let path = "notes.txt".to_string();
    let r = get_file_preview(&path, &text_input(content), &"(".to_string(), SearchMode::Contents);
    assert_eq!(r.scroll_target, None);
    for line in r.lines.iter() {
        for span in line.spans.iter() {
            assert!(!span.highlighted);
        }
    }
}

#[test]
fn preview_filename_mode_has_no_scroll_target() {
    let content = "alpha\nbeta";
    let path = "notes.txt".to_string();
    let r = get_file_preview(
        &path,
        &text_input(content),
        &"beta".to_string(),
        SearchMode::Filename,
    );
    assert_eq!(r.scroll_target, None);
}

#[test]
fn preview_truncates_after_line_cap() {
    let mut content = String::new();
    for i in 0..1200 {
        content.push_str(&format!("line number {}\n", i));
    }
    let path = "big.txt".to_string();
    let r = get_file_preview(&path, &text_input(&content), &"".to_string(), SearchMode::Contents);
    assert_eq!(r.lines.len(), 1001);
    let last = &r.lines[1000];
    assert_eq!(last.spans.len(), 1);
    assert_eq!(last.spans[0].text, "File truncated - showing first 1000 lines only");
    assert_eq!(last.spans[0].fg, SpanColor::Yellow);
}

#[test]
fn large_preview_has_no_syntax_spans() {
    let lines: Vec<String> = vec![
        "fn main() {".to_string(),
        "    let x = two;".to_string(),
        "}".to_string(),
    ];
    let path = "huge.rs".to_string();
    let r = get_file_preview(
        &path,
        &FileInput::Large { lines },
        &"two".to_string(),
        SearchMode::Contents,
    );
    assert_eq!(r.lines[0].spans[0].fg, SpanColor::Yellow);
    assert_eq!(
        r.lines[0].spans[0].text,
        "Large file detected - showing plain text without syntax highlighting"
    );
    for line in r.lines.iter() {
        for span in line.spans.iter() {
            assert!(!matches!(span.fg, SpanColor::Rgb(_, _, _)));
        }
    }
    assert_eq!(r.scroll_target, Some(2));
    assert!(r.lines[2].spans[1].highlighted);
    assert!(!r.lines[1].spans[1].highlighted);
    assert_eq!(r.lines[2].spans[1].text, "    let x = two;");
}

#[test]
fn large_preview_filename_mode_plain() {
    let lines: Vec<String> = vec!["alpha".to_string(), "beta".to_string()];
    let r = glancr::preview::get_large_file_preview(
        &lines,
        &"beta".to_string(),
        SearchMode::Filename,
    );
    assert_eq!(r.scroll_target, None);
    assert_eq!(r.lines.len(), 3);
    for line in r.lines.iter() {
        for span in line.spans.iter() {
            assert!(!span.highlighted);
        }
    }
}

use glancr::SearchMode;
use glancr::filter::{filter_by_contents, filter_by_filename, filter_files, FileRecord};
use glancr::state::{clamp_selection, FinderState};

fn rec(path: &str, lines: &[&str]) -> FileRecord {
    FileRecord {
        path: path.to_string(),
        lines: lines.iter().map(|l| l.to_string()).collect(),
    }
}

fn sample() -> Vec<FileRecord> {
    vec![
        rec("src/main.rs", &["fn main() {", "    run();", "}"]),
        rec("readme.md", &["a project", "with docs"]),
        rec("src/lib.rs", &["pub fn run() {}", "// the match word"]),
    ]
}

#[test]
fn empty_query_is_identity_filename_mode() {
    let files = sample();
    let r = filter_files(&files, &"".to_string(), SearchMode::Filename);
    assert_eq!(r, vec!["src/main.rs", "readme.md", "src/lib.rs"]);
}

#[test]
fn empty_query_is_identity_contents_mode() {
    let files = sample();
    let r = filter_files(&files, &"".to_string(), SearchMode::Contents);
    assert_eq!(r, vec!["src/main.rs", "readme.md", "src/lib.rs"]);
}

#[test]
fn filename_filter_keeps_walk_order() {
    let files = sample();
    let r = filter_files(&files, &"src".to_string(), SearchMode::Filename);
    assert_eq!(r, vec!["src/main.rs", "src/lib.rs"]);
}

#[test]
fn filename_filter_is_subsequence_match() {
    let files = sample();
    let r = filter_by_filename(&files, &"smrs".to_string());
    assert_eq!(r, vec!["src/main.rs"]);
}

#[test]
fn contents_filter_keeps_matching_files() {
    let files = sample();
    let r = filter_files(&files, &"match".to_string(), SearchMode::Contents);
    assert_eq!(r, vec!["src/lib.rs"]);
}

#[test]
fn contents_filter_takes_regex_syntax() {
    let files = sample();
    let r = filter_by_contents(&files, &"ru.\\(\\)".to_string());
    assert_eq!(r, vec!["src/main.rs", "src/lib.rs"]);
}

#[test]
fn invalid_regex_gives_empty_set() {
    let files = sample();
    let r = filter_files(&files, &"(".to_string(), SearchMode::Contents);
    assert!(r.is_empty());
}

#[test]
fn clamp_selection_bounds() {
    assert_eq!(clamp_selection(5, 0), 0);
    assert_eq!(clamp_selection(5, 3), 2);
    assert_eq!(clamp_selection(1, 3), 1);
    assert_eq!(clamp_selection(0, 1), 0);
}

#[test]
fn selection_is_clamped_after_shrinking_filter() {
    let mut st = FinderState::new();
    st.set_mode(SearchMode::Filename);
    st.refresh(sample(), &"".to_string());
    assert_eq!(st.filtered.len(), 3);
    st.select_next();
    st.select_next();
    assert_eq!(st.selected, 2);
    st.apply_filter(&"smrs".to_string());
    assert_eq!(st.filtered.len(), 1);
    assert_eq!(st.selected, 0);
}

#[test]
fn selection_is_zero_when_filter_empties() {
    let mut st = FinderState::new();
    st.refresh(sample(), &"".to_string());
    st.select_next();
    st.apply_filter(&"(".to_string());
    assert!(st.filtered.is_empty());
    assert_eq!(st.selected, 0);
}

#[test]
fn selection_navigation_stays_in_range() {
    let mut st = FinderState::new();
    st.set_mode(SearchMode::Filename);
    st.refresh(sample(), &"".to_string());
    st.select_prev();
    assert_eq!(st.selected, 0);
    st.select_next();
    st.select_next();
    st.select_next();
    assert_eq!(st.selected, 2);
    let current = st.current_file().cloned();
    assert_eq!(current, Some("src/lib.rs".to_string()));
}

#[test]
fn current_file_is_none_when_empty() {
    let st = FinderState::new();
    assert!(st.current_file().is_none());
}

use glancr::config::Config;
use glancr::discovery::{dirty_paths_from_status, discover_filter, is_binary_head, Candidate};

fn cand(path: &str, head: &[u8]) -> Candidate {
    Candidate { path: path.to_string(), head: head.to_vec() }
}

#[test]
fn nul_in_first_kilobyte_is_binary() {
    assert!(is_binary_head(&vec![b'a', 0u8, b'b']));
    assert!(!is_binary_head(&vec![b'a', b'b', b'c']));
    assert!(!is_binary_head(&Vec::new()));
}

#[test]
fn nul_beyond_first_kilobyte_is_not_binary() {
    let mut head = vec![b'x'; 1024];
    head.push(0u8);
    assert!(!is_binary_head(&head));
    let mut head2 = vec![b'x'; 1023];
    head2.push(0u8);
    assert!(is_binary_head(&head2));
}

#[test]
fn binary_file_is_excluded_whatever_its_extension() {
    let cfg = Config::default();
    let cands = vec![
        cand("src/a.rs", b"fn a() {}"),
        cand("src/image.rs", b"PNG\0body"),
    ];
    let r = discover_filter(&cfg, &cands);
    assert_eq!(r, vec!["src/a.rs"]);
}

#[test]
fn ignored_directory_marker_excludes_path() {
    let cfg = Config::default();
    let cands = vec![
        cand("app/node_modules/pkg/index.js", b"ok"),
        cand("app/src/index.js", b"ok"),
    ];
    let r = discover_filter(&cfg, &cands);
    assert_eq!(r, vec!["app/src/index.js"]);
}

#[test]
fn ignore_rules_are_case_insensitive() {
    let cfg = Config::default();
    let cands = vec![
        cand("APP/NODE_MODULES/PKG/INDEX.JS", b"ok"),
        cand("assets/App.MIN.JS", b"ok"),
        cand("assets/app.js", b"ok"),
    ];
    let r = discover_filter(&cfg, &cands);
    assert_eq!(r, vec!["assets/app.js"]);
}

#[test]
fn ignored_name_pattern_excludes_file() {
    let cfg = Config::default();
    let cands = vec![
        cand("project/Cargo.lock", b"ok"),
        cand("project/run.log", b"ok"),
        cand("project/run.rs", b"ok"),
    ];
    let r = discover_filter(&cfg, &cands);
    assert_eq!(r, vec!["project/run.rs"]);
}

#[test]
fn discovery_keeps_walk_order() {
    let cfg = Config::default();
    let cands = vec![
        cand("b.rs", b"x"),
        cand("a.rs", b"x"),
        cand("c.rs", b"x"),
    ];
    let r = discover_filter(&cfg, &cands);
    assert_eq!(r, vec!["b.rs", "a.rs", "c.rs"]);
}

#[test]
fn dirty_paths_skip_status_columns() {
    let out = "M  src/a.rs\n?? notes/b.txt\nA  c.rs".to_string();
    let r = dirty_paths_from_status(&out);
    assert_eq!(r, vec!["src/a.rs", "notes/b.txt", "c.rs"]);
}

#[test]
fn dirty_paths_skip_blank_status_and_short_lines() {
    let out = "   unchanged.rs\nM\n?? kept.rs".to_string();
    let r = dirty_paths_from_status(&out);
    assert_eq!(r, vec!["kept.rs"]);
}

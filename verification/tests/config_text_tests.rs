use glancr::config::{default_command, default_ignored_dirs, default_ignored_patterns, Config};
use glancr::ignore::should_ignore_path;
use glancr::text::{extension_chars, file_name_chars, fmt_line_no, split_lines};

#[test]
fn default_command_is_cursor() {
    assert_eq!(default_command(), "cursor");
}

#[test]
fn default_ignore_lists() {
    let dirs = default_ignored_dirs();
    assert_eq!(dirs.len(), 12);
    assert_eq!(dirs[0], "/.git/");
    assert_eq!(dirs[1], "/node_modules/");
    assert_eq!(dirs[11], "/.yarn/");
    let pats = default_ignored_patterns();
    assert_eq!(pats.len(), 7);
    assert_eq!(pats[0], ".lock");
    assert_eq!(pats[6], ".cache");
}

#[test]
fn config_default_uses_the_lists() {
    let cfg = Config::default();
    assert_eq!(cfg.open_command, "cursor");
    assert_eq!(cfg.ignored_dirs, default_ignored_dirs());
    assert_eq!(cfg.ignored_patterns, default_ignored_patterns());
}

#[test]
fn ignore_matches_directory_markers_in_path() {
    let cfg = Config::default();
    assert!(should_ignore_path(&cfg, &"a/node_modules/b.js".to_string()));
    assert!(should_ignore_path(&cfg, &"A/NODE_MODULES/B.JS".to_string()));
    assert!(!should_ignore_path(&cfg, &"a/modules/b.js".to_string()));
}

#[test]
fn ignore_matches_name_patterns_only_in_file_name() {
    let cfg = Config::default();
    assert!(should_ignore_path(&cfg, &"pkg/Cargo.lock".to_string()));
    assert!(should_ignore_path(&cfg, &"site/app.min.js".to_string()));
    assert!(!should_ignore_path(&cfg, &"src/locker.rs".to_string()));
}

#[test]
fn custom_config_rules_apply() {
    let cfg = Config {
        open_command: "edit".to_string(),
        ignored_dirs: vec!["/secret/".to_string()],
        ignored_patterns: vec![".tmp".to_string()],
    };
    assert!(should_ignore_path(&cfg, &"a/secret/b.rs".to_string()));
    assert!(should_ignore_path(&cfg, &"a/b/note.tmp".to_string()));
    assert!(!should_ignore_path(&cfg, &"a/node_modules/b.rs".to_string()));
}

#[test]
fn line_numbers_are_right_aligned_in_four_columns() {
    assert_eq!(fmt_line_no(1), "   1 ");
    assert_eq!(fmt_line_no(42), "  42 ");
    assert_eq!(fmt_line_no(999), " 999 ");
    assert_eq!(fmt_line_no(1000), "1000 ");
    assert_eq!(fmt_line_no(12345), "12345 ");
}

#[test]
fn split_lines_follows_line_ending_rules() {
    assert_eq!(split_lines("a\nb"), vec!["a", "b"]);
    assert_eq!(split_lines("a\nb\n"), vec!["a", "b"]);
    assert_eq!(split_lines("a\r\nb"), vec!["a", "b"]);
    assert_eq!(split_lines("\n"), vec![""]);
    assert_eq!(split_lines(""), Vec::<String>::new());
    assert_eq!(split_lines("a\r"), vec!["a\r"]);
}

#[test]
fn file_name_and_extension_extraction() {
    let chars: Vec<char> = "src/app.TS".chars().collect();
    let name = file_name_chars(&chars);
    let name_str: String = name.iter().collect();
    assert_eq!(name_str, "app.TS");
    let ext: String = extension_chars(&name).iter().collect();
    assert_eq!(ext, "TS");

    let hidden: Vec<char> = ".gitignore".chars().collect();
    let ext2: String = extension_chars(&hidden).iter().collect();
    assert_eq!(ext2, "");

    let plain: Vec<char> = "README".chars().collect();
    let ext3: String = extension_chars(&plain).iter().collect();
    assert_eq!(ext3, "");
}

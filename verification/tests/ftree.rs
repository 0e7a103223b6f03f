use cli_tools::entries::{comes_first, name_le, sort_entries, visible_entries, Entry};
use cli_tools::ftree::{
    beyond_depth, child_prefix, entry_line, format_size, is_last, matches_pattern, parse_args,
    should_process_file, summary_text, unit_label, Config, Invocation, SizeText, TreeStats,
};

fn strings(list: &[&str]) -> Vec<String> {
    list.iter().map(|s| s.to_string()).collect()
}

fn config() -> Config {
    Config {
        root: ".".to_string(),
        max_depth: None,
        show_size: false,
        show_hidden: false,
        dirs_only: false,
        pattern: None,
        ignore: None,
    }
}

fn written(size: u64) -> String {
    match format_size(size) {
        SizeText::Plain(text) => text,
        SizeText::Scaled { size, divisor, unit } => {
            format!("{:.1} {}", size as f64 / divisor as f64, unit)
        }
    }
}

fn reference(size: u64) -> String {
    const UNITS: [&str; 6] = ["B", "KB", "MB", "GB", "TB", "PB"];
    let mut size = size as f64;
    let mut unit_index = 0;
    while size >= 1024.0 && unit_index < UNITS.len() - 1 {
        size /= 1024.0;
        unit_index += 1;
    }
    if unit_index == 0 {
        format!("{} {}", size as u64, UNITS[unit_index])
    } else {
        format!("{:.1} {}", size, UNITS[unit_index])
    }
}

#[test]
fn ftree_sizes_in_bytes() {
    assert_eq!(format_size(0), SizeText::Plain("0 B".to_string()));
    assert_eq!(format_size(1), SizeText::Plain("1 B".to_string()));
    assert_eq!(format_size(1023), SizeText::Plain("1023 B".to_string()));
}

#[test]
fn ftree_sizes_in_larger_units() {
    let scaled = |size: u64, divisor: u64, unit: &str| SizeText::Scaled {
        size,
        divisor,
        unit: unit.to_string(),
    };
    assert_eq!(format_size(1024), scaled(1024, 1024, "KB"));
    assert_eq!(format_size(1536), scaled(1536, 1024, "KB"));
    assert_eq!(format_size(1048575), scaled(1048575, 1024, "KB"));
    assert_eq!(format_size(1048576), scaled(1048576, 1048576, "MB"));
    assert_eq!(format_size(1073741823), scaled(1073741823, 1048576, "MB"));
    assert_eq!(format_size(1073741824), scaled(1073741824, 1073741824, "GB"));
    assert_eq!(format_size(1099511627776), scaled(1099511627776, 1099511627776, "TB"));
    assert_eq!(format_size(1125899906842623), scaled(1125899906842623, 1099511627776, "TB"));
    assert_eq!(format_size(1125899906842624), scaled(1125899906842624, 1125899906842624, "PB"));
    assert_eq!(format_size(u64::MAX), scaled(u64::MAX, 1125899906842624, "PB"));
}

#[test]
fn ftree_sizes_as_written() {
    assert_eq!(written(512), "512 B");
    assert_eq!(written(1536), "1.5 KB");
    assert_eq!(written(1048576), "1.0 MB");
    assert_eq!(written(u64::MAX), "16384.0 PB");
    let mut size: u64 = 1;
    while size < u64::MAX / 3 {
        for s in [size - 1, size, size + 1, size + size / 2, size * 3 - 1] {
            assert_eq!(written(s), reference(s), "{}", s);
        }
        size *= 2;
    }
    for s in [u64::MAX, u64::MAX - 1, (1 << 60) - 1, (1 << 53) + 1, (1 << 50) - 1] {
        assert_eq!(written(s), reference(s), "{}", s);
    }
}

#[test]
fn ftree_unit_labels() {
    let labels: Vec<&str> = (0..7).map(unit_label).collect();
    assert_eq!(labels, vec!["B", "KB", "MB", "GB", "TB", "PB", "PB"]);
}

#[test]
fn ftree_patterns() {
    assert!(matches_pattern("main.rs", "*.rs"));
    assert!(matches_pattern(".rs", "*.rs"));
    assert!(!matches_pattern("main.rsx", "*.rs"));
    assert!(!matches_pattern("rs", "*.rs"));
    assert!(matches_pattern("a.tar.gz", "*.tar.gz"));
    assert!(matches_pattern("anything.", "*."));
    assert!(!matches_pattern("anything", "*."));
    assert!(matches_pattern("target", "target"));
    assert!(matches_pattern("my-target-dir", "target"));
    assert!(!matches_pattern("targe", "target"));
    assert!(matches_pattern("anything", ""));
    assert!(matches_pattern("", ""));
    assert!(matches_pattern("a*b", "*"));
    assert!(!matches_pattern("ab", "*"));
    assert!(matches_pattern("x*rs", "*rs"));
    assert!(!matches_pattern("main.rs", "*rs"));
    for (name, pattern) in [("main.rs", "*.rs"), ("a", "*.a"), ("x", "x"), ("ééé.é", "*.é")] {
        let std = if pattern.starts_with("*.") {
            name.ends_with(&pattern[1..])
        } else {
            name.contains(pattern)
        };
        assert_eq!(matches_pattern(name, pattern), std);
    }
}

#[test]
fn ftree_hidden_entries() {
    let mut c = config();
    assert!(!should_process_file(".git", &c, true));
    assert!(!should_process_file(".", &c, true));
    assert!(should_process_file("src", &c, true));
    assert!(should_process_file("a.b", &c, false));
    assert!(should_process_file("", &c, false));
    c.show_hidden = true;
    assert!(should_process_file(".git", &c, true));
    assert!(should_process_file(".env", &c, false));
}

#[test]
fn ftree_directories_only() {
    let mut c = config();
    c.dirs_only = true;
    assert!(should_process_file("src", &c, true));
    assert!(!should_process_file("main.rs", &c, false));
}

#[test]
fn ftree_pattern_holds_files_not_directories() {
    let mut c = config();
    c.pattern = Some("*.rs".to_string());
    assert!(should_process_file("main.rs", &c, false));
    assert!(!should_process_file("main.c", &c, false));
    assert!(should_process_file("src", &c, true));
}

#[test]
fn ftree_ignore_holds_everything() {
    let mut c = config();
    c.ignore = Some("target".to_string());
    assert!(!should_process_file("target", &c, true));
    assert!(!should_process_file("target.txt", &c, false));
    assert!(should_process_file("src", &c, true));
    c.pattern = Some("*.txt".to_string());
    assert!(!should_process_file("target.txt", &c, false));
    assert!(should_process_file("notes.txt", &c, false));
}

#[test]
fn ftree_depth() {
    assert!(!beyond_depth(0, None));
    assert!(!beyond_depth(usize::MAX, None));
    assert!(!beyond_depth(2, Some(2)));
    assert!(beyond_depth(3, Some(2)));
    assert!(beyond_depth(1, Some(0)));
    assert!(!beyond_depth(0, Some(0)));
}

#[test]
fn ftree_lines() {
    assert_eq!(entry_line("", true, "src", false, true, ""), "└── src\n");
    assert_eq!(entry_line("│   ", false, "main.rs", false, false, "1.5 KB"), "│   ├── main.rs\n");
    assert_eq!(
        entry_line("│   ", false, "main.rs", true, false, "1.5 KB"),
        "│   ├── main.rs [1.5 KB]\n"
    );
    assert_eq!(entry_line("    ", true, "src", true, true, "4.0 KB"), "    └── src [DIR]\n");
}

#[test]
fn ftree_prefixes() {
    assert_eq!(child_prefix("│   ", true, false), "");
    assert_eq!(child_prefix("", false, true), "    ");
    assert_eq!(child_prefix("", false, false), "│   ");
    assert_eq!(child_prefix("│   ", false, true), "│       ");
    assert_eq!(child_prefix("    ", false, false), "    │   ");
}

#[test]
fn ftree_last_entries() {
    assert!(is_last(0, 1));
    assert!(is_last(4, 5));
    assert!(!is_last(3, 5));
    assert!(!is_last(0, 0));
    assert!(!is_last(usize::MAX, 0));
}

#[test]
fn ftree_counting() {
    let mut stats = TreeStats::default();
    assert_eq!(stats, TreeStats { total_dirs: 0, total_files: 0, total_size: 0 });
    stats.record(true, true, 4096);
    assert_eq!(stats, TreeStats { total_dirs: 0, total_files: 0, total_size: 0 });
    stats.record(true, false, 4096);
    assert_eq!(stats, TreeStats { total_dirs: 1, total_files: 0, total_size: 0 });
    stats.record(false, false, 100);
    stats.record(false, true, 23);
    assert_eq!(stats, TreeStats { total_dirs: 1, total_files: 2, total_size: 123 });
    assert!(stats.can_record(false, u64::MAX - 123));
    assert!(!stats.can_record(false, u64::MAX - 122));
    assert!(stats.can_record(true, u64::MAX));
    let full = TreeStats { total_dirs: usize::MAX, total_files: usize::MAX, total_size: 0 };
    assert!(!full.can_record(true, 0));
    assert!(!full.can_record(false, 0));
}

#[test]
fn ftree_summaries() {
    let stats = TreeStats { total_dirs: 3, total_files: 14, total_size: 2048 };
    assert_eq!(
        summary_text(&stats, false, "2.0 KB"),
        "\nSummary:\n  3 directories\n  14 files\n"
    );
    assert_eq!(
        summary_text(&stats, true, "2.0 KB"),
        "\nSummary:\n  3 directories\n  14 files\n  Total size: 2.0 KB\n"
    );
}

#[test]
fn ftree_args_by_default() {
    assert_eq!(parse_args(&strings(&["ftree"])), Invocation::Run(config()));
    assert_eq!(parse_args(&strings(&[])), Invocation::Run(config()));
}

#[test]
fn ftree_args_with_options() {
    let wanted = Config {
        root: "/path".to_string(),
        max_depth: Some(2),
        show_size: true,
        show_hidden: true,
        dirs_only: true,
        pattern: Some("*.rs".to_string()),
        ignore: Some("target".to_string()),
    };
    assert_eq!(
        parse_args(&strings(&[
            "ftree", "-L", "2", "-s", "-h", "-d", "-p", "*.rs", "-i", "target", "/path"
        ])),
        Invocation::Run(wanted.clone())
    );
    assert_eq!(
        parse_args(&strings(&[
            "ftree", "first", "--level", "2", "--size", "--hidden", "--dirs-only", "--pattern",
            "*.rs", "--ignore", "target", "/path"
        ])),
        Invocation::Run(wanted)
    );
}

#[test]
fn ftree_args_with_a_depth_that_is_no_number() {
    let mut wanted = config();
    wanted.max_depth = Some(0);
    assert_eq!(parse_args(&strings(&["ftree", "-L", "deep"])), Invocation::Run(wanted.clone()));
    assert_eq!(parse_args(&strings(&["ftree", "-L", "-1"])), Invocation::Run(wanted.clone()));
    assert_eq!(parse_args(&strings(&["ftree", "-L", "-s"])), Invocation::Run(wanted));
}

#[test]
fn ftree_args_with_a_value_missing() {
    assert_eq!(parse_args(&strings(&["ftree", "-L"])), Invocation::Run(config()));
    assert_eq!(parse_args(&strings(&["ftree", "-p"])), Invocation::Run(config()));
    let mut sized = config();
    sized.show_size = true;
    assert_eq!(parse_args(&strings(&["ftree", "-s", "--ignore"])), Invocation::Run(sized));
}

#[test]
fn ftree_args_values_are_taken_as_they_come() {
    let mut wanted = config();
    wanted.pattern = Some("--help".to_string());
    assert_eq!(parse_args(&strings(&["ftree", "-p", "--help"])), Invocation::Run(wanted));
}

#[test]
fn ftree_args_unknown_options_are_passed_over() {
    let mut wanted = config();
    wanted.root = "dir".to_string();
    assert_eq!(
        parse_args(&strings(&["ftree", "-x", "--what", "-", "dir"])),
        Invocation::Run(wanted)
    );
    let mut empty = config();
    empty.root = "".to_string();
    assert_eq!(parse_args(&strings(&["ftree", "dir", ""])), Invocation::Run(empty));
}

#[test]
fn ftree_args_asking_for_help() {
    assert_eq!(parse_args(&strings(&["ftree", "--help"])), Invocation::Help);
    assert_eq!(parse_args(&strings(&["ftree", "-s", "dir", "--help", "-L"])), Invocation::Help);
}

fn entry(name: &str, is_dir: bool) -> Entry {
    Entry { name: name.to_string(), is_dir, is_file: !is_dir }
}

fn names(list: &[Entry]) -> Vec<&str> {
    list.iter().map(|e| e.name.as_str()).collect()
}

#[test]
fn ftree_names_in_order() {
    let le = |a: &str, b: &str| {
        let x: Vec<char> = a.chars().collect();
        let y: Vec<char> = b.chars().collect();
        name_le(&x, &y)
    };
    let samples = ["", "a", "A", "ab", "b", "aa", "é", "z", "zz", "a b", "B", "日本", "~"];
    for a in samples {
        for b in samples {
            assert_eq!(le(a, b), a <= b, "{:?} {:?}", a, b);
        }
    }
}

#[test]
fn ftree_entries_in_order() {
    assert!(comes_first(&entry("z", true), &entry("a", false)));
    assert!(!comes_first(&entry("a", false), &entry("z", true)));
    assert!(comes_first(&entry("a", true), &entry("b", true)));
    assert!(comes_first(&entry("a", false), &entry("a", false)));
    assert!(!comes_first(&entry("b", false), &entry("a", false)));
    let link = Entry { name: "m".to_string(), is_dir: false, is_file: false };
    assert!(comes_first(&link, &entry("a", false)));
    assert!(comes_first(&entry("a", true), &link));
    assert!(!comes_first(&link, &entry("a", true)));
}

#[test]
fn ftree_sorting() {
    let list = vec![
        entry("main.rs", false),
        entry("src", true),
        entry("Cargo.toml", false),
        entry("docs", true),
        entry("README", false),
        entry("assets", true),
    ];
    let sorted = sort_entries(list.clone());
    assert_eq!(names(&sorted), vec!["assets", "docs", "src", "Cargo.toml", "README", "main.rs"]);
    let mut std = list;
    std.sort_by_key(|e| (e.is_file, e.name.clone()));
    assert_eq!(sorted, std);
    assert_eq!(sort_entries(Vec::new()), Vec::new());
}

#[test]
fn ftree_sorting_keeps_equals_in_their_order() {
    let first = Entry { name: "x".to_string(), is_dir: true, is_file: false };
    let second = Entry { name: "x".to_string(), is_dir: false, is_file: false };
    let sorted = sort_entries(vec![entry("y", true), first.clone(), second.clone()]);
    assert_eq!(sorted, vec![first.clone(), second.clone(), entry("y", true)]);
    let sorted = sort_entries(vec![second.clone(), entry("a", true), first.clone()]);
    assert_eq!(sorted, vec![entry("a", true), second, first]);
}

#[test]
fn ftree_sorting_as_the_standard_library_sorts() {
    let mut seed: u64 = 12345;
    for round in 0..50 {
        let mut list = Vec::new();
        for _ in 0..(round % 13) {
            seed = seed.wrapping_mul(6364136223846793005).wrapping_add(1442695040888963407);
            let name = format!("{}", (seed >> 33) % 7);
            let is_dir = (seed >> 20) % 2 == 0;
            let is_file = (seed >> 21) % 2 == 0;
            list.push(Entry { name, is_dir, is_file });
        }
        let mut std = list.clone();
        std.sort_by_key(|e| (e.is_file, e.name.clone()));
        assert_eq!(sort_entries(list), std);
    }
}

#[test]
fn ftree_visible_entries() {
    let list = vec![
        entry("main.rs", false),
        entry(".git", true),
        entry("target", true),
        entry("src", true),
        entry("notes.txt", false),
        entry("lib.rs", false),
    ];
    let mut c = config();
    assert_eq!(
        names(&visible_entries(&list, &c)),
        vec!["src", "target", "lib.rs", "main.rs", "notes.txt"]
    );
    c.pattern = Some("*.rs".to_string());
    c.ignore = Some("target".to_string());
    assert_eq!(names(&visible_entries(&list, &c)), vec!["src", "lib.rs", "main.rs"]);
    c.dirs_only = true;
    c.show_hidden = true;
    assert_eq!(names(&visible_entries(&list, &c)), vec![".git", "src"]);
}

#[test]
fn ftree_a_size_holds_at_least_one_of_its_unit() {
    let mut size: u64 = 1;
    loop {
        for s in [size, size + size / 3, size.saturating_mul(2) - 1] {
            match format_size(s) {
                SizeText::Plain(_) => assert!(s < 1024),
                SizeText::Scaled { size, divisor, unit } => {
                    assert_eq!(size, s);
                    assert!(divisor <= s);
                    assert!(unit == "PB" || s / divisor < 1024);
                    assert!(divisor.is_power_of_two());
                    assert_eq!(divisor.trailing_zeros() % 10, 0);
                }
            }
        }
        match size.checked_mul(2) {
            Some(next) => size = next,
            None => break,
        }
    }
}

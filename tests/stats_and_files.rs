use review_queue::locate::{find_gh_path, get_gh_path, gh_candidate_paths};
use review_queue::models::{ResourceLink, LinkType, Settings, Tag, TaskType, Theme};
use review_queue::stats::{
    count_listed, count_prs_from_output, date_windows, format_date, get_date_ranges, stats_search_args, Date,
};
use review_queue::storage::{
    backup_file_name, get_app_dir, get_backups_dir, get_data_path, get_images_dir, is_backup_expired,
    is_plain_base, select_backups,
};

fn date(year: i32, month: u32, day: u32) -> Date {
    Date { year, month, day }
}

#[test]
fn date_windows_in_a_leap_year() {
    let r = get_date_ranges(date(2024, 3, 15)).unwrap();
    assert_eq!(r.0, "2024-03-01");
    assert_eq!(r.1, "2024-02-01");
    assert_eq!(r.2, "2024-02-29");
    assert_eq!(r.3, "2023-12-16");
    assert_eq!(r.4, "2024-03-15");
}

#[test]
fn date_windows_across_a_year_boundary() {
    let w = date_windows(date(2024, 1, 10)).unwrap();
    assert_eq!(w.month_start, date(2024, 1, 1));
    assert_eq!(w.prev_month_start, date(2023, 12, 1));
    assert_eq!(w.prev_month_end, date(2023, 12, 31));
    assert_eq!(w.ninety_day_start, date(2023, 10, 12));
}

#[test]
fn dates_are_written_with_padding() {
    assert_eq!(format_date(date(987, 2, 3)), "0987-02-03");
    assert_eq!(format_date(date(2023, 11, 30)), "2023-11-30");
}

#[test]
fn counting_search_output() {
    assert_eq!(count_prs_from_output(true, "[{\"number\":1},{\"number\":2},{\"number\":3}]"), 3);
    assert_eq!(count_prs_from_output(true, "[]"), 0);
    assert_eq!(count_prs_from_output(false, "[1,2]"), 0);
    assert_eq!(count_prs_from_output(true, "not json"), 0);
    assert_eq!(count_listed(Some(7)), 7);
    assert_eq!(count_listed(None), 0);
}

#[test]
fn counting_search_arguments() {
    let args = stats_search_args("me", "2024-03-01", "2024-02-01", "2024-02-29", "2023-12-17");
    assert_eq!(args.len(), 6);
    let first: Vec<String> = [
        "search", "prs", "--repo", "shop/world", "--author", "me", "--merged", "--merged", ">=2024-03-01", "--json",
        "number", "--limit", "200",
    ]
    .iter()
    .map(|s| s.to_string())
    .collect();
    assert_eq!(args[0], first);
    assert_eq!(args[1][8], "2024-02-01..2024-02-29");
    assert_eq!(args[2][8], ">=2023-12-17");
    assert_eq!(args[4][4], "--reviewed-by");
    assert_eq!(args[5][8], ">=2023-12-17");
}

#[test]
fn tool_location_prefers_known_paths() {
    assert_eq!(gh_candidate_paths().len(), 4);
    let found = find_gh_path(&vec![false, true, true, false], Some("/x/gh".to_string()));
    assert_eq!(found, Some("/usr/local/bin/gh".to_string()));
    let found = find_gh_path(&vec![false, false, false, false], Some("  /x/gh\n".to_string()));
    assert_eq!(found, Some("/x/gh".to_string()));
    assert_eq!(find_gh_path(&vec![false, false, false, false], Some(" \n".to_string())), None);
    assert_eq!(find_gh_path(&vec![false, false, false, false], None), None);
}

#[test]
fn missing_tool_message() {
    assert_eq!(get_gh_path(&Some("/usr/bin/gh".to_string())), Ok("/usr/bin/gh".to_string()));
    assert_eq!(
        get_gh_path(&None),
        Err("GitHub CLI (gh) not found. Please install it: https://cli.github.com/".to_string())
    );
}

#[test]
fn storage_paths() {
    let app = get_app_dir("/home/u/.local/share");
    assert_eq!(app, "/home/u/.local/share/atulify");
    assert_eq!(get_data_path(&app), "/home/u/.local/share/atulify/data.json");
    assert_eq!(get_images_dir("/data/atulify/"), "/data/atulify/images");
    assert_eq!(get_backups_dir("/data/atulify"), "/data/atulify/backups");
    assert_eq!(get_app_dir(""), "atulify");
}

#[test]
fn backups_newest_first() {
    let names = vec![
        "data-2024-01-02.json".to_string(),
        "notes.txt".to_string(),
        "data-2024-03-01.json".to_string(),
        "data-2023-12-31.json.tmp".to_string(),
        "data-2024-02-10.json".to_string(),
    ];
    assert_eq!(
        select_backups(names),
        vec!["data-2024-03-01.json".to_string(), "data-2024-02-10.json".to_string(), "data-2024-01-02.json".to_string()]
    );
    assert_eq!(backup_file_name(date(2024, 3, 5)), "data-2024-03-05.json");
}

#[test]
fn backup_retention() {
    let week = 7 * 86400;
    assert!(is_backup_expired(0, week + 1));
    assert!(!is_backup_expired(0, week));
    assert!(!is_backup_expired(i64::MIN, i64::MIN));
}

#[test]
fn model_defaults_and_constructors() {
    let s = Settings::default();
    assert_eq!(s.theme, Theme::Obsidian);
    assert!(s.dark_mode && !s.launch_at_login && !s.onboarding_complete);
    assert_eq!(s.user_name, "");
    assert_eq!(TaskType::default(), TaskType::Regular);
    let t = Tag::new("work".to_string(), "#E53E3E".to_string());
    assert_eq!(t.id.len(), 36);
    assert_eq!(t.name, "work");
    let l = ResourceLink::new("https://x".to_string(), "x".to_string(), LinkType::Url);
    assert_eq!(l.id.len(), 36);
    assert_ne!(l.id, t.id);
}

#[test]
fn joinable_directories() {
    assert!(is_plain_base(""));
    assert!(is_plain_base("/home/u"));
    assert!(is_plain_base("C:\\Users\\u"));
    assert!(!is_plain_base("\\\\?\\C:\\x"));
    assert!(!is_plain_base("C:"));
}

#[test]
fn tool_path_trims_unicode_white_space() {
    let found = find_gh_path(&vec![false, false, false, false], Some("\u{3000}\t/x/gh\u{a0}\r\n".to_string()));
    assert_eq!(found, Some("/x/gh".to_string()));
}

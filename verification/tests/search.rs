use stakpak_tui::app::get_helper_commands;
use stakpak_tui::app::knows_command;
use stakpak_tui::app::predefined_command;
use stakpak_tui::file_search::BestMatchesList;
use stakpak_tui::file_search::DebouncedFilter;
use stakpak_tui::file_search::FileSearch;
use stakpak_tui::file_search::entry_text;
use stakpak_tui::file_search::filter_helpers;
use stakpak_tui::file_search::find_at_trigger;
use stakpak_tui::file_search::get_current_word;
use stakpak_tui::file_search::handle_at_trigger;
use stakpak_tui::file_search::is_before;
use stakpak_tui::file_search::can_answer;
use stakpak_tui::file_search::can_search;
use stakpak_tui::file_search::search_once;
use stakpak_tui::images::find_all_image_paths;
use stakpak_tui::images::is_supported_format;
use stakpak_tui::images::strip_quotes;
use stakpak_tui::input::bare_name;
use stakpak_tui::input::find_image_file_by_name;
use stakpak_tui::input::list_image_candidates;
use stakpak_tui::input::normalize_paste;
use stakpak_tui::collections::TextSet;
use stakpak_tui::model_switcher::format_recent_model_id;
use stakpak_tui::types::CommandSource;
use stakpak_tui::types::HelperCommand;

fn strings(v: &[&str]) -> Vec<String> {
    v.iter().map(|s| s.to_string()).collect()
}

fn command(name: &str) -> HelperCommand {
    HelperCommand {
        command: name.to_string(),
        description: String::new(),
        source: CommandSource::BuiltIn,
    }
}

fn names(v: &[HelperCommand]) -> Vec<&str> {
    v.iter().map(|c| c.command.as_str()).collect()
}

fn search(files: &[&str]) -> FileSearch {
    let mut s = FileSearch::new(0);
    s.scanned("/work", strings(files));
    s
}

#[test]
fn the_best_matches_are_kept() {
    let mut best = BestMatchesList::new(2);
    best.insert(Some(5), "five");
    best.insert(None, "none");
    best.insert(Some(9), "nine");
    best.insert(Some(7), "seven");
    best.insert(Some(1), "one");
    assert_eq!(best.len(), 2);
    assert_eq!(best.get_sorted_matches(), strings(&["nine", "seven"]));
}

#[test]
fn equal_matches_stand_in_the_order_of_texts() {
    let mut best = BestMatchesList::new(5);
    best.insert(Some(3), "b");
    best.insert(Some(3), "a");
    best.insert(Some(4), "z");
    assert_eq!(best.get_sorted_matches(), strings(&["z", "a", "b"]));
    assert!(is_before("a", "ab"));
    assert!(is_before("Z", "a"));
    assert!(!is_before("a", "a"));
    assert!(is_before("a", "é"));
    assert!(!is_before("é", "z"));
}

#[test]
fn a_list_without_room_keeps_nothing() {
    let mut best = BestMatchesList::new(0);
    best.insert(Some(5), "five");
    assert_eq!(best.len(), 0);
}

#[test]
fn the_same_text_waits() {
    let mut d = DebouncedFilter::new(120, 0);
    assert!(d.should_filter("a", 10));
    assert!(!d.should_filter("a", 10));
    assert!(!d.should_filter("a", 130));
    assert!(d.should_filter("b", 20));
    assert!(d.should_filter("a", 21));
    assert!(d.should_filter("a", 142));
}

#[test]
fn files_are_matched_loosely() {
    let mut s = search(&["src/main.rs", "README.md", "src/lib.rs"]);
    s.filter_files("main", 1);
    assert_eq!(s.get_filtered_files(), &strings(&["src/main.rs"]));
    s.filter_files("rs", 2);
    assert_eq!(s.filtered_count(), 2);
    assert!(s.get_filtered_files().iter().all(|f| f.ends_with(".rs")));
    s.filter_files("", 3);
    assert_eq!(s.get_filtered_files(), &strings(&["src/main.rs", "README.md", "src/lib.rs"]));
    assert_eq!(s.get_file_at_index(1), Some("README.md"));
    assert_eq!(s.get_file_at_index(3), None);
    s.filter_files("zzzz", 4);
    assert_eq!(s.filtered_count(), 0);
}

#[test]
fn capital_letters_ask_for_capital_letters() {
    let mut s = search(&["readme.md", "README.md"]);
    s.filter_files("readme", 1);
    assert_eq!(s.filtered_count(), 2);
    s.filter_files("README", 2);
    assert_eq!(s.get_filtered_files(), &strings(&["README.md"]));
}

#[test]
fn at_most_fifty_files_are_offered() {
    let many: Vec<String> = (0..80).map(|i| format!("file{i}.rs")).collect();
    let mut s = FileSearch::new(0);
    s.scanned("/work", many);
    s.filter_files("", 121);
    assert_eq!(s.filtered_count(), 50);
    s.filter_files("file", 122);
    assert_eq!(s.filtered_count(), 50);
}

#[test]
fn a_directory_is_read_once() {
    let mut s = FileSearch::new(0);
    assert!(s.needs_scan("/work"));
    s.scanned("/work", strings(&["a"]));
    assert!(!s.needs_scan("/work"));
    assert!(s.needs_scan("/other"));
    s.scanned("/work", Vec::new());
    assert!(s.needs_scan("/work"));
    s.force_reload_files("/work", strings(&["b"]));
    assert_eq!(s.file_suggestions, strings(&["b"]));
    s.clear_caches();
    assert!(s.needs_scan("/work"));
    assert_eq!(entry_text("src", true), "src/");
    assert_eq!(entry_text("a.rs", false), "a.rs");
}

#[test]
fn a_file_name_starts_behind_an_at_sign() {
    assert_eq!(find_at_trigger("see @ma", 7), Some(4));
    assert_eq!(find_at_trigger("@a @b", 5), Some(3));
    assert_eq!(find_at_trigger("mail@host", 9), None);
    assert_eq!(find_at_trigger("see @ ma", 8), None);
    assert_eq!(find_at_trigger("@ma", 1), Some(0));
    assert_eq!(get_current_word("see @ma", 7, Some('@')), "ma");
    assert_eq!(get_current_word("see @ma", 7, None), "@ma");
    assert_eq!(get_current_word("a b", 2, None), "");
    assert_eq!(get_current_word("none", 4, Some('@')), "");
}

#[test]
fn completions_are_searched_for_once() {
    let mut s = search(&["main.rs", "lib.rs"]);
    let helpers = vec![command("/help"), command("/clear"), command("/compact")];
    let r = search_once(&mut s, &helpers, "look at @main".to_string(), 13, 1);
    assert_eq!(r.filtered_files, strings(&["main.rs"]));
    assert!(r.filtered_helpers.is_empty());
    assert!(s.is_active());
    let r = search_once(&mut s, &helpers, "/C".to_string(), 2, 2);
    assert_eq!(names(&r.filtered_helpers), ["/clear", "/compact"]);
    assert!(r.filtered_files.is_empty());
    let r = search_once(&mut s, &helpers, "/".to_string(), 1, 3);
    assert_eq!(r.filtered_helpers.len(), 3);
    assert!(!handle_at_trigger("@zzzz", 5, &mut s, 4));
    s.reset();
    assert!(!s.is_active());
}

#[test]
fn commands_are_found_in_any_case() {
    let helpers = vec![command("/Help"), command("/status")];
    assert_eq!(names(&filter_helpers(&helpers, "/he")), ["/Help"]);
    assert_eq!(names(&filter_helpers(&helpers, "/ST")), ["/status"]);
    assert!(filter_helpers(&helpers, "he").is_empty());
    assert!(filter_helpers(&helpers, "").is_empty());
}

#[test]
fn the_users_own_commands_come_last() {
    let all = get_helper_commands(
        vec![command("/help"), command("/clear")],
        vec![predefined_command("review", "Review".to_string(), "Do it".to_string())],
        vec![command("/help"), command("/mine")],
    );
    assert_eq!(names(&all), ["/help", "/clear", "/review", "/mine"]);
    assert!(knows_command(&all, "/mine"));
    assert!(!knows_command(&all, "/other"));
}

#[test]
fn image_paths_are_found_in_a_text() {
    let spans = |s: &str| -> Vec<String> {
        find_all_image_paths(s)
            .into_iter()
            .map(|(a, b)| s.chars().skip(a).take(b - a).collect())
            .collect()
    };
    assert_eq!(
        spans("see '/tmp/a b.png' and /tmp/c.JPG"),
        strings(&["'/tmp/a b.png'", "/tmp/c.JPG"])
    );
    assert_eq!(spans("\"/x/y.gif\""), strings(&["\"/x/y.gif\""]));
    assert!(spans("no image here").is_empty());
    // The lower-case form of the first character has another length.
    assert_eq!(spans("\u{130} /tmp/a.PNG more"), strings(&["/tmp/a.PNG"]));
    assert_eq!(spans("\u{130}/a.png more"), strings(&["\u{130}/a.png"]));
    assert_eq!(strip_quotes("'/tmp/a.png'"), "/tmp/a.png");
    assert_eq!(strip_quotes("\"/tmp/a.png\""), "/tmp/a.png");
    assert_eq!(strip_quotes("'/tmp/a.png"), "/tmp/a.png");
    assert!(is_supported_format(&Some("PNG".to_string())));
    assert!(!is_supported_format(&Some("TIFF".to_string())));
    assert!(!is_supported_format(&Some("bmp".to_string())));
    assert!(is_supported_format(&None));
}

#[test]
fn images_are_looked_for_by_name() {
    let dirs = strings(&["/d", "/e/"]);
    let all = list_image_candidates("pic", &dirs);
    assert_eq!(all.len(), 16);
    assert_eq!(all[0], "/d/pic.png");
    assert_eq!(all[7], "/d/pic.tif");
    assert_eq!(all[8], "/e/pic.png");
    let files = TextSet::from_vec(strings(&["/e/pic.jpg", "/e/pic.gif"]));
    assert_eq!(find_image_file_by_name("pic", &dirs, &files), Some("/e/pic.jpg".to_string()));
    assert_eq!(find_image_file_by_name("other", &dirs, &files), None);
    assert!(bare_name(" pic "));
    assert!(!bare_name("a/pic"));
    assert!(!bare_name(""));
}

#[test]
fn pasted_line_ends_are_line_feeds() {
    assert_eq!(normalize_paste("a\r\nb\rc\n"), "a\nb\nc\n");
    assert_eq!(normalize_paste("plain"), "plain");
}

#[test]
fn recent_models_are_named_by_provider() {
    assert_eq!(format_recent_model_id("acme", "large"), "acme/large");
}

#[test]
fn long_queries_are_counted_as_far_as_the_matcher_can() {
    let long = "a".repeat(4000);
    let most = "a".repeat(2520);
    let mut s = search(&[long.as_str()]);
    s.filter_files(&most, 1000);
    assert_eq!(s.get_filtered_files().len(), 1);
    let mut s = search(&[most.as_str()]);
    s.filter_files(&most, 1000);
    assert_eq!(s.get_filtered_files().len(), 1);
    s.filter_files(&long, 2000);
    assert!(s.get_filtered_files().is_empty());
    assert!(can_search(&long, &strings(&[most.as_str()])));
    assert!(can_search(&most, &strings(&[long.as_str()])));
    assert!(can_search("", &strings(&[long.as_str()])));
    assert!(!can_search(&long, &strings(&["b", long.as_str()])));
    let s = search(&[long.as_str()]);
    assert!(can_answer(&s, &long, 4000));
    assert!(can_answer(&s, "@a", 2));
    assert!(!can_answer(&s, &format!("@{long}"), 4001));
}

#[test]
fn a_search_that_finds_nothing_keeps_the_mode() {
    let mut s = search(&["main.rs"]);
    let r = search_once(&mut s, &Vec::new(), "@zzz".to_string(), 4, 1);
    assert!(r.filtered_files.is_empty());
    assert!(!s.is_file_mode);
    assert_eq!(s.trigger_char, None);
    let _ = search_once(&mut s, &Vec::new(), "@main".to_string(), 5, 2);
    let _ = search_once(&mut s, &Vec::new(), "@zzz".to_string(), 4, 3);
    assert!(s.is_file_mode);
    assert_eq!(s.trigger_char, Some('@'));
}

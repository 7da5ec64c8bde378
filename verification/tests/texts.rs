use stakpak_tui::arguments::Field;
use stakpak_tui::arguments::FieldValue;
use stakpak_tui::arguments::JsonValue;
use stakpak_tui::arguments::fields_of;
use stakpak_tui::arguments::flag_value;
use stakpak_tui::arguments::parse_arguments;
use stakpak_tui::arguments::text_value;
use stakpak_tui::banner::BannerMessage;
use stakpak_tui::banner::BannerStyle;
use stakpak_tui::banner::banner_height;
use stakpak_tui::banner::lay_out_banner;
use stakpak_tui::collections::TextMap;
use stakpak_tui::collections::TextSet;
use stakpak_tui::file_diff::DiffRun;
use stakpak_tui::file_diff::DiffTag;
use stakpak_tui::file_diff::check_runs;
use stakpak_tui::file_diff::edit_of_call;
use stakpak_tui::file_diff::extract_starting_line_from_diff;
use stakpak_tui::file_diff::find_starting_line_in_file;
use stakpak_tui::file_diff::preview_diff_from_strings;
use stakpak_tui::file_diff::preview_diff_runs;
use stakpak_tui::file_diff::render_file_diff_block;
use stakpak_tui::file_diff::render_file_diff_block_from_args;
use stakpak_tui::file_diff::wrap_content;
use stakpak_tui::geometry::Rect;
use stakpak_tui::helper_block::format_number_with_separator;
use stakpak_tui::helper_block::handle_errors;
use stakpak_tui::helper_block::split_text;
use stakpak_tui::models::FunctionCall;
use stakpak_tui::models::ToolCall;
use stakpak_tui::models::ToolCallResult;
use stakpak_tui::models::ToolCallResultStatus;
use stakpak_tui::style::Color;
use stakpak_tui::style::Line;
use stakpak_tui::style::Tone;
use stakpak_tui::text::after_last;
use stakpak_tui::text::contains;
use stakpak_tui::text::four_columns;
use stakpak_tui::text::index_at;
use stakpak_tui::text::join;
use stakpak_tui::text::lines;
use stakpak_tui::text::parse_number;
use stakpak_tui::text::replace;
use stakpak_tui::text::to_decimal;
use stakpak_tui::text::trim;
use stakpak_tui::text::trim_end;
use stakpak_tui::text::trim_start;
use stakpak_tui::textarea::TextArea;
use stakpak_tui::tool_result::ToolChange;
use stakpak_tui::tool_result::change_in_fields;
use stakpak_tui::tool_result::extract_backup_path;
use stakpak_tui::tool_result::extract_diff_preview;
use stakpak_tui::tool_result::parse_diff_stats;
use stakpak_tui::tool_result::tool_change;

fn call(name: &str, arguments: &str) -> ToolCall {
    ToolCall {
        id: "c1".to_string(),
        call_type: "function".to_string(),
        function: FunctionCall {
            name: name.to_string(),
            bare_name: name.to_string(),
            arguments: arguments.to_string(),
        },
        metadata: None,
    }
}

fn strings(v: &[&str]) -> Vec<String> {
    v.iter().map(|s| s.to_string()).collect()
}

fn texts(v: &[Line]) -> Vec<String> {
    v.iter().map(|l| l.text()).collect()
}

fn run(tag: DiffTag, old_lines: &[&str], new_lines: &[&str]) -> DiffRun {
    DiffRun { tag, old_lines: strings(old_lines), new_lines: strings(new_lines) }
}

#[test]
fn white_space_is_trimmed() {
    assert_eq!(trim(" \t a b \u{a0}\n"), "a b");
    assert_eq!(trim_start("\u{2003}x "), "x ");
    assert_eq!(trim_end(" x\u{3000}"), " x");
    assert_eq!(trim("   "), "");
    for s in ["", " ", "a", " é ", "\u{85}q\u{200b}", "\r\nrow\r\n"] {
        assert_eq!(trim(s), s.trim());
        assert_eq!(trim_start(s), s.trim_start());
        assert_eq!(trim_end(s), s.trim_end());
    }
}

#[test]
fn lines_drop_their_ends() {
    for s in ["", "a", "a\n", "a\r\nb", "\n\n", "a\rb\n", "x\n\r\n"] {
        let expected: Vec<String> = s.lines().map(|l| l.to_string()).collect();
        assert_eq!(lines(s), expected);
    }
    assert_eq!(join(&strings(&["a", "b", "c"]), 2, ", "), "a, b");
}

#[test]
fn replacement_goes_from_left_to_right() {
    assert_eq!(replace("aaaa", "aa", "b"), "bb");
    assert_eq!(replace("aaa", "aa", "b"), "ba");
    assert_eq!(replace("ab", "", "-"), "-a-b-");
    assert_eq!(replace("abc", "x", "y"), "abc");
    assert!(contains("abc", "bc"));
    assert!(contains("abc", ""));
    assert!(!contains("abc", "ac"));
}

#[test]
fn numbers_are_read_and_written() {
    assert_eq!(to_decimal(0), "0");
    assert_eq!(to_decimal(18446744073709551615), "18446744073709551615");
    assert_eq!(parse_number("007"), Some(7));
    assert_eq!(parse_number("+7"), Some(7));
    assert_eq!(parse_number(""), None);
    assert_eq!(parse_number("+"), None);
    assert_eq!(parse_number("-1"), None);
    assert_eq!(parse_number("18446744073709551616"), None);
    assert_eq!(four_columns(7), "   7");
    assert_eq!(four_columns(12345), "12345");
}

#[test]
fn byte_offsets_name_characters() {
    assert_eq!(index_at("aé漢", 0), Some(0));
    assert_eq!(index_at("aé漢", 1), Some(1));
    assert_eq!(index_at("aé漢", 2), None);
    assert_eq!(index_at("aé漢", 3), Some(2));
    assert_eq!(index_at("aé漢", 6), Some(3));
    assert_eq!(index_at("aé漢", 7), None);
    assert_eq!(after_last("src/a/b.rs", '/'), "b.rs");
    assert_eq!(after_last("b.rs", '/'), "b.rs");
    assert_eq!(after_last("dir/", '/'), "");
}

#[test]
fn the_cursor_goes_with_the_text() {
    let mut t = TextArea::new();
    t.insert_str("né");
    assert_eq!((t.text(), t.cursor()), ("né", 3));
    t.set_cursor(1);
    t.insert_str("ot");
    assert_eq!((t.text(), t.cursor()), ("noté", 3));
    t.replace_range(0, 1, "xyz");
    assert_eq!((t.text(), t.cursor()), ("xyzoté", 5));
    t.set_text("");
    assert_eq!((t.text(), t.cursor()), ("", 0));
}

#[test]
fn the_last_value_of_a_key_counts() {
    let mut m: TextMap<u32> = TextMap::new();
    assert!(m.is_empty());
    m.insert("a".to_string(), 1);
    m.insert("b".to_string(), 2);
    m.insert("a".to_string(), 3);
    assert_eq!(m.get("a"), Some(&3));
    assert_eq!(m.get("b"), Some(&2));
    m.remove("a");
    assert_eq!(m.get("a"), None);
    m.clear();
    assert!(m.is_empty());

    let mut s = TextSet::from_vec(strings(&["x", "y", "x"]));
    assert_eq!(s.len(), 2);
    assert!(s.contains("y"));
    s.remove("y");
    s.insert("x".to_string());
    assert_eq!(s.to_vec(), strings(&["x"]));
}

#[test]
fn digits_stand_in_groups_of_three() {
    assert_eq!(format_number_with_separator(0), "0");
    assert_eq!(format_number_with_separator(999), "999");
    assert_eq!(format_number_with_separator(1000), "1,000");
    assert_eq!(format_number_with_separator(1234567), "1,234,567");
    assert_eq!(format_number_with_separator(4294967295), "4,294,967,295");
    assert_eq!(format_number_with_separator(4294967295).replace(',', ""), "4294967295");
    assert_eq!(split_text("a\n\nb", '\n'), strings(&["a", "", "b"]));
    assert_eq!(split_text("", '\n'), strings(&[""]));
}

#[test]
fn errors_of_the_backend_are_unwrapped() {
    let show = |e: &str| handle_errors(e.to_string(), "limit", "You have no tokens left");
    assert_eq!(show("the limit is reached"), "You have no tokens left");
    assert_eq!(show("Unknown(\"no route\")"), "no route");
    assert_eq!(show("Unknown(\"\")"), "Unknown(\"\")");
    assert_eq!(show("plain"), "plain");
    assert_eq!(show("Unknown(\"open"), "Unknown(\"open");
}

#[test]
fn a_banner_expires_unless_it_persists() {
    let short = BannerMessage::new("hi".to_string(), BannerStyle::Info, 1_000);
    assert!(!short.is_expired(61_000));
    assert!(short.is_expired(61_001));
    assert!(short.is_expired(1_000_000));
    let long = BannerMessage::persistent("hi".to_string(), BannerStyle::Error, 1_000);
    assert!(!long.is_expired(u64::MAX));
    assert_eq!(banner_height(&None, 0), 0);
    assert_eq!(banner_height(&Some(short), 61_000), 3);
    let gone = BannerMessage::new("hi".to_string(), BannerStyle::Info, 0);
    assert_eq!(banner_height(&Some(gone), 60_001), 0);
    assert_eq!(BannerStyle::Warning.color(), Color::Theme(Tone::Warning));
    assert_eq!(BannerStyle::Error.color(), Color::Theme(Tone::Danger));
    assert_eq!(BannerStyle::Info.color(), Color::Theme(Tone::Accent));
    assert_eq!(BannerStyle::Success.color(), Color::Theme(Tone::Success));
}

#[test]
fn banner_commands_can_be_clicked() {
    let m = BannerMessage::persistent(
        "run /init or / or a/b".to_string(),
        BannerStyle::Warning,
        0,
    );
    let area = Rect { x: 0, y: 5, width: 60, height: 3 };
    let r = lay_out_banner(&m, area);
    let commands: Vec<&str> = r.click_regions.iter().map(|(c, _)| c.as_str()).collect();
    assert_eq!(commands, ["/init"]);
    assert_eq!(r.click_regions[0].1.width, 5);
    assert!(r.row.text().contains("run /init or / or a/b"));
    assert_eq!(r.border, Color::Theme(Tone::Warning));

    let whole = BannerMessage::persistent_with_action(
        "press here".to_string(),
        BannerStyle::Info,
        "/init".to_string(),
        0,
    );
    let r = lay_out_banner(&whole, area);
    assert_eq!(r.click_regions.len(), 1);
    assert_eq!(r.click_regions[0].0, "/init");
}

#[test]
fn arguments_are_text_or_flags() {
    let text = FieldValue::Text("a".to_string());
    let flag = FieldValue::Flag(true);
    let other = FieldValue::Other("1".to_string());
    assert_eq!(text_value(Some(&text)), Some("a".to_string()));
    assert_eq!(text_value(Some(&flag)), None);
    assert_eq!(text_value(None), None);
    assert_eq!(flag_value(Some(&flag)), Some(true));
    assert_eq!(flag_value(Some(&other)), None);
}

#[test]
fn long_lines_break_at_spaces() {
    assert_eq!(wrap_content("short", 80, 12), strings(&["short"]));
    assert_eq!(wrap_content("one two three", 20, 12), strings(&["one two", "three"]));
    assert_eq!(wrap_content("abcdefghij", 16, 12), strings(&["abcd", "efgh", "ij"]));
    assert_eq!(wrap_content("", 80, 12), strings(&[""]));
}

#[test]
fn runs_of_a_diff_are_numbered() {
    let runs = vec![
        run(DiffTag::Equal, &["a\n", "b\n"], &["a\n", "b\n"]),
        run(DiffTag::Replace, &["c\n"], &["C\n", "D\n"]),
        run(DiffTag::Delete, &["e\n"], &[]),
        run(DiffTag::Insert, &[], &["f\n"]),
    ];
    assert!(check_runs(&runs, 30, None));
    let (rows, deletions, insertions, first, last) = preview_diff_runs(&runs, 30, Some(10));
    assert_eq!((deletions, insertions, first, last), (2, 3, 2, 6));
    let shown = texts(&rows);
    assert_eq!(shown[0], "  10   10    a");
    assert_eq!(shown[1], "  11   11    b");
    assert_eq!(shown[2].trim_end(), "  12       - c");
    assert_eq!(shown[3].trim_end(), "       12  + C");
    assert_eq!(shown[4].trim_end(), "       13  + D");
    assert_eq!(shown[5].trim_end(), "  13       - e");
    assert_eq!(shown[6].trim_end(), "       14  + f");
    for row in &shown[2..] {
        assert_eq!(row.chars().count(), 30);
    }
}

#[test]
fn nothing_changed_marks_nothing() {
    let runs = vec![run(DiffTag::Equal, &["a\n"], &["a\n"])];
    let (rows, deletions, insertions, first, last) = preview_diff_runs(&runs, 30, None);
    assert_eq!((rows.len(), deletions, insertions, first, last), (1, 0, 0, 0, 0));
    let (rows, _, _, first, last) = preview_diff_runs(&Vec::new(), 30, None);
    assert_eq!((rows.len(), first, last), (0, 0, 0));
}

#[test]
fn a_narrow_screen_has_no_room_for_a_diff() {
    let runs = vec![run(DiffTag::Delete, &["removed\n"], &[])];
    assert!(!check_runs(&runs, 13, None));
    assert!(check_runs(&runs, 14, None));
    let none = render_file_diff_block(
        &call("str_replace", "{\"old_str\":\"abc\",\"new_str\":\"x\",\"path\":\"f\"}"),
        5,
        None,
    );
    assert!(none.is_none());
}

#[test]
fn texts_are_compared_line_by_line() {
    let (rows, deletions, insertions, first, last) =
        preview_diff_from_strings("one\ntwo\nthree\n", "one\n2\nthree\n", 40, None);
    assert_eq!((deletions, insertions, first, last), (1, 1, 1, 3));
    let shown = texts(&rows);
    assert_eq!(shown[0], "   1    1    one");
    assert_eq!(shown[1].trim_end(), "   2       - two");
    assert_eq!(shown[2].trim_end(), "        2  + 2");
    assert_eq!(shown[3], "   3    3    three");
}

#[test]
fn wide_characters_take_two_columns() {
    let (rows, _, _, _, _) = preview_diff_from_strings("", "漢\n", 20, None);
    let row = rows[0].text();
    assert_eq!(row.trim_end(), "        1  + 漢");
    // Thirteen columns of prefix, two for the character, five of padding.
    assert_eq!(row.chars().count(), 13 + 1 + 5);
}

#[test]
fn the_first_hunk_says_where_it_starts() {
    assert_eq!(extract_starting_line_from_diff("x\n@@ -17,3 +18,4 @@\n"), Some(17));
    assert_eq!(extract_starting_line_from_diff("no hunk"), None);
    assert_eq!(find_starting_line_in_file(Some("a\nb\nc\n"), "c"), Some(3));
    assert_eq!(find_starting_line_in_file(Some("a\nb\n"), "z"), None);
    assert_eq!(find_starting_line_in_file(None, "a"), None);
}

#[test]
fn edits_are_read_from_the_arguments() {
    let e = edit_of_call(&call(
        "str_replace",
        "{\"old_str\":\"a\",\"new_str\":\"b\",\"path\":\"src/x.rs\"}",
    ));
    assert_eq!((e.old_str.as_str(), e.new_str.as_str(), e.path.as_str()), ("a", "b", "src/x.rs"));
    let e = edit_of_call(&call("create", "{\"file_text\":\"body\",\"path\":\"n\"}"));
    assert_eq!((e.old_str.as_str(), e.new_str.as_str(), e.path.as_str()), ("", "body", "n"));
    let e = edit_of_call(&call("create", "no json"));
    assert_eq!((e.old_str.as_str(), e.new_str.as_str()), ("", ""));
}

#[test]
fn a_block_shows_the_edit_of_a_call() {
    let c = call(
        "str_replace",
        "{\"old_str\":\"two\",\"new_str\":\"2\",\"path\":\"f.txt\"}",
    );
    let block = render_file_diff_block_from_args(&c, 60, None, Some("one\ntwo\n"));
    let (short, full) = block.expect("there is room");
    assert!(!short.is_empty());
    let all = texts(&full).join("\n");
    assert!(all.contains("f.txt"));
    assert!(all.contains("   2       - two"));
    assert!(all.contains("        2  + 2"));
    let named = render_file_diff_block_from_args(&c, 60, Some("@@ -40,1 +40,1 @@"), None);
    let (_, full) = named.expect("there is room");
    assert!(texts(&full).join("\n").contains("  40       - two"));
}

#[test]
fn diffs_are_counted_inside_blocks_only() {
    let message = "+ outside\n```diff\n--- a\n+++ b\n@@ -1 +1 @@\n-x\n+y\n+z\n```\n- outside";
    assert_eq!(parse_diff_stats(message), (2, 1));
    assert_eq!(parse_diff_stats(""), (0, 0));
    for (first, second) in [
        (message, message),
        (message, ""),
        ("", message),
        ("```diff\n+a\n```\r", message),
        ("```diff\n+a\n```\n", "```diff\n-b"),
        ("no diff", "+ none"),
    ] {
        let (a, b) = (parse_diff_stats(first), parse_diff_stats(second));
        assert_eq!(parse_diff_stats(&format!("{first}\n{second}")), (a.0 + b.0, a.1 + b.1));
    }
    assert_eq!(
        extract_diff_preview(message),
        Some("--- a\n+++ b\n@@ -1 +1 @@\n-x\n+y".to_string())
    );
    assert_eq!(extract_diff_preview("nothing"), None);
    assert_eq!(
        extract_backup_path("<file backup_path=\"/tmp/b\"/>"),
        Some("/tmp/b".to_string())
    );
    assert_eq!(extract_backup_path("backup_path=\"open"), None);
}

#[test]
fn a_result_tells_what_changed() {
    let fields = vec![
        Field { name: "path".to_string(), value: FieldValue::Text("a/b.rs".to_string()) },
        Field { name: "new_str".to_string(), value: FieldValue::Text("new".to_string()) },
    ];
    match change_in_fields("str_replace", &fields, "```diff\n+new\n```") {
        Some(ToolChange::Edit { path, new_str, single, added, removed, preview }) => {
            assert_eq!(path, "a/b.rs");
            assert_eq!(new_str, Some("new".to_string()));
            assert!(single);
            assert_eq!((added, removed), (1, 0));
            assert_eq!(preview, Some("+new".to_string()));
        }
        _ => panic!("an edit was made"),
    }
    match change_in_fields("remove", &fields, "backup_path=\"/tmp/x\"") {
        Some(ToolChange::Remove { path, backup }) => {
            assert_eq!(path, "a/b.rs");
            assert_eq!(backup, Some("/tmp/x".to_string()));
        }
        _ => panic!("a file was removed"),
    }
    assert!(change_in_fields("view", &fields, "").is_none());

    let result = |status, text: &str| ToolCallResult {
        call: call("create", "{\"path\":\"n.txt\",\"file_text\":\"a\\nb\"}"),
        result: text.to_string(),
        status,
    };
    assert!(tool_change(&result(ToolCallResultStatus::Success, "ok")).is_some());
    assert!(tool_change(&result(ToolCallResultStatus::Error, "ok")).is_none());
    assert!(tool_change(&result(ToolCallResultStatus::Success, "TOOL_CALL_REJECTED")).is_none());
}

#[test]
fn a_value_that_is_no_object_has_no_fields() {
    assert!(parse_arguments("[1, 2]").unwrap().is_empty());
    assert!(parse_arguments("\"text\"").unwrap().is_empty());
    assert!(parse_arguments("{").is_err());
    let fields = parse_arguments("{\"a\": \"b\", \"c\": true, \"d\": [1]}").unwrap();
    assert_eq!(fields.len(), 3);
    assert!(matches!(&fields[0].value, FieldValue::Text(t) if t == "b"));
    assert!(matches!(&fields[1].value, FieldValue::Flag(true)));
    assert!(matches!(&fields[2].value, FieldValue::Other(t) if t == "[1]"));
    assert!(fields_of(JsonValue::Plain(FieldValue::Flag(true))).is_empty());
    assert_eq!(fields_of(JsonValue::Object(fields)).len(), 3);
}

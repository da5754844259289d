use sandlock_control::address::socket_name;
use sandlock_control::discovery::{list_sandboxes, parse_proc_net_unix};
use sandlock_control::order::precedes;
use sandlock_control::table::is_white_space;

const TITLES: &str = "Num RefCount Protocol Flags Type St Inode Path\n";

fn line(flags: &str, path: &str) -> String {
    format!("0000000000000000: 00000002 00000000 {flags} 0001 01 11628860 {path}\n")
}

#[test]
fn longest_name_fits_sun_path() {
    let name = "x".repeat(64);
    // Leading NUL plus the name must fit the kernel's 108-byte sun_path.
    assert!(socket_name(u32::MAX, &name).len() < 108);
}

#[test]
fn parses_listening_sockets_for_uid_only() {
    let text = "Num RefCount Protocol Flags Type St Inode Path\n\
        0000000000000000: 00000002 00000000 00010000 0001 01 11628860 @sandlock/1000/alpha\n\
        0000000000000000: 00000003 00000000 00000000 0001 03 11628861 @sandlock/1000/alpha\n\
        0000000000000000: 00000002 00000000 00010000 0001 01 11628862 @sandlock/1001/other\n\
        0000000000000000: 00000002 00000000 00010000 0001 01 11628863 /run/user/1000/bus\n\
        0000000000000000: 00000002 00000000 00010000 0001 01 11628864 @sandlock/1000/beta\n";
    assert_eq!(parse_proc_net_unix(text, 1000), vec!["alpha", "beta"]);
    assert_eq!(parse_proc_net_unix(text, 1001), vec!["other"]);
}

#[test]
fn socket_names_are_spelled_out() {
    assert_eq!(socket_name(0, "a"), b"sandlock/0/a".to_vec());
    assert_eq!(socket_name(1000, "web-1"), b"sandlock/1000/web-1".to_vec());
    assert_eq!(socket_name(u32::MAX, ""), b"sandlock/4294967295/".to_vec());
    assert_eq!(socket_name(7, "\u{e9}"), b"sandlock/7/\xc3\xa9".to_vec());
}

#[test]
fn socket_names_tell_sandboxes_apart() {
    assert_ne!(socket_name(1, "0/a"), socket_name(10, "a"));
    assert_ne!(socket_name(1000, "a"), socket_name(1001, "a"));
    assert_ne!(socket_name(1000, "a"), socket_name(1000, "b"));
}

#[test]
fn names_are_sorted_and_listed_once() {
    let mut text = String::from(TITLES);
    for name in ["b", "a", "c", "b", "ab", "a"] {
        text.push_str(&line("00010000", &format!("@sandlock/5/{name}")));
    }
    assert_eq!(parse_proc_net_unix(&text, 5), vec!["a", "ab", "b", "c"]);
}

#[test]
fn names_sort_as_strings_do() {
    let names = ["z", "\u{e9}", "Z", "\u{10000}", "\u{ffff}", "aa", "a", "0", "-"];
    let mut text = String::from(TITLES);
    for name in names {
        text.push_str(&line("00010000", &format!("@sandlock/5/{name}")));
    }
    let mut expected: Vec<String> = names.iter().map(|n| n.to_string()).collect();
    expected.sort();
    assert_eq!(parse_proc_net_unix(&text, 5), expected);
    for a in names {
        for b in names {
            assert_eq!(precedes(a, b), a < b);
        }
    }
}

#[test]
fn the_first_line_holds_titles() {
    let text = line("00010000", "@sandlock/5/a");
    assert!(parse_proc_net_unix(&text, 5).is_empty());
    assert!(parse_proc_net_unix("", 5).is_empty());
    assert_eq!(parse_proc_net_unix(&format!("\n{text}"), 5), vec!["a"]);
}

#[test]
fn lines_without_a_path_are_passed_over() {
    let text = format!(
        "{TITLES}0: 2 0 00010000 1 1 9\n\n0: 2 0\n0: 2 0 00010000 1 1 9 @sandlock/5/a extra\n"
    );
    assert_eq!(parse_proc_net_unix(&text, 5), vec!["a"]);
}

#[test]
fn only_the_listening_flag_counts() {
    for flags in ["00000000", "0001000", "000100000", "00010001", "10000"] {
        let text = format!("{TITLES}{}", line(flags, "@sandlock/5/a"));
        assert!(parse_proc_net_unix(&text, 5).is_empty());
    }
}

#[test]
fn a_uid_is_matched_whole() {
    let text = format!("{TITLES}{}", line("00010000", "@sandlock/1000/a"));
    assert!(parse_proc_net_unix(&text, 100).is_empty());
    assert!(parse_proc_net_unix(&text, 10000).is_empty());
    assert_eq!(parse_proc_net_unix(&text, 1000), vec!["a"]);
    let filesystem = format!("{TITLES}{}", line("00010000", "sandlock/1000/a"));
    assert!(parse_proc_net_unix(&filesystem, 1000).is_empty());
}

#[test]
fn any_white_space_parts_columns_and_a_last_newline_is_optional() {
    let text = "titles\r\n0:\t2\u{a0}0\u{2003}00010000  1 1\u{3000}9 @sandlock/5/a\r\n0: 2 0 00010000 1 1 9 @sandlock/5/b";
    assert_eq!(parse_proc_net_unix(text, 5), vec!["a", "b"]);
}

#[test]
fn white_space_is_what_unicode_says() {
    let mut code: u32 = 0;
    while code <= 0x10ffff {
        if let Some(c) = char::from_u32(code) {
            assert_eq!(is_white_space(c), c.is_whitespace());
        }
        code += 1;
    }
}

#[test]
fn the_listing_follows_the_listener() {
    let before = format!("{TITLES}{}", line("00010000", "@sandlock/5/a"));
    let bound = format!("{before}{}", line("00010000", "@sandlock/5/new"));
    assert_eq!(parse_proc_net_unix(&before, 5), vec!["a"]);
    assert_eq!(parse_proc_net_unix(&bound, 5), vec!["a", "new"]);
    let between = format!(
        "{TITLES}{}{}",
        line("00010000", "@sandlock/5/new"),
        line("00010000", "@sandlock/5/a")
    );
    assert_eq!(parse_proc_net_unix(&between, 5), vec!["a", "new"]);
}

#[test]
fn a_foreign_name_that_is_no_text_is_passed_over() {
    let ours = line("00010000", "@sandlock/5/ours");
    let mut raw: Vec<u8> = TITLES.as_bytes().to_vec();
    raw.extend_from_slice(b"0: 2 0 00010000 1 1 9 @sandlock-probe-\xff\xfe\n");
    raw.extend_from_slice(ours.as_bytes());
    raw.extend_from_slice(b"0: 2 0 00010000 1 1 9 @sandlock/5/\xff\n");
    assert_eq!(list_sandboxes(&raw, 5), vec!["ours"]);
}

#[test]
fn bytes_and_text_list_the_same() {
    let text = format!(
        "{TITLES}{}{}",
        line("00010000", "@sandlock/5/\u{e9}t\u{e9}"),
        line("00010000", "@sandlock/5/a")
    );
    assert_eq!(list_sandboxes(text.as_bytes(), 5), parse_proc_net_unix(&text, 5));
    assert_eq!(list_sandboxes(text.as_bytes(), 5), vec!["a", "\u{e9}t\u{e9}"]);
    assert!(list_sandboxes(b"", 5).is_empty());
}

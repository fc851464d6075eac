use bulk_fetch::record::{is_separator, parse_line, parse_url_lines, split_tokens};

fn lines(text: &[&str]) -> Vec<String> {
    text.iter().map(|s| s.to_string()).collect()
}

#[test]
fn separator_matches_unicode_whitespace() {
    for u in 0u32..0x11_0000 {
        if let Some(c) = char::from_u32(u) {
            assert_eq!(is_separator(c), c.is_whitespace(), "char {:#x}", u);
        }
    }
}

#[test]
fn tokens_split_on_runs_of_whitespace() {
    let t = split_tokens("  http://h/x.png\t a  b \u{3000}c ");
    assert_eq!(t, vec!["http://h/x.png", "a", "b", "c"]);
    assert!(split_tokens("").is_empty());
    assert!(split_tokens(" \t ").is_empty());
}

#[test]
fn line_with_source_and_destination() {
    let img = parse_line("http://host/a.png a.png").unwrap();
    assert_eq!(img.url, "http://host/a.png");
    assert_eq!(img.file_name, "a.png");
}

#[test]
fn destination_keeps_inner_spaces_collapsed() {
    let img = parse_line("http://host/a.png  my \t holiday   photo.png").unwrap();
    assert_eq!(img.url, "http://host/a.png");
    assert_eq!(img.file_name, "my holiday photo.png");
}

#[test]
fn one_token_line_gives_no_record() {
    assert!(parse_line("http://example.com/x.png").is_none());
    assert!(parse_line("").is_none());
    assert!(parse_line("   ").is_none());
}

#[test]
fn malformed_line_is_set_aside() {
    let list = parse_url_lines(&lines(&[
        "http://host/a.png a.png",
        "http://example.com/x.png",
        "",
        "http://host/b.png dir/b.png",
    ]));
    assert_eq!(list.images.len(), 2);
    assert_eq!(list.images[0].file_name, "a.png");
    assert_eq!(list.images[1].url, "http://host/b.png");
    assert_eq!(list.images[1].file_name, "dir/b.png");
    assert_eq!(list.invalid_lines, vec!["http://example.com/x.png"]);
}

#[test]
fn empty_lines_are_passed_over_silently() {
    let list = parse_url_lines(&lines(&["", "", "   "]));
    assert!(list.images.is_empty());
    assert_eq!(list.invalid_lines, vec!["   "]);
    let none = parse_url_lines(&Vec::new());
    assert!(none.images.is_empty() && none.invalid_lines.is_empty());
}

#[test]
fn records_keep_the_order_of_the_lines() {
    let list = parse_url_lines(&lines(&["u3 c", "u1 a", "u2 b"]));
    let names: Vec<&str> = list.images.iter().map(|i| i.file_name.as_str()).collect();
    assert_eq!(names, vec!["c", "a", "b"]);
}

#[test]
fn duplicate_destinations_are_kept() {
    let list = parse_url_lines(&lines(&["u1 same.png", "u2 same.png"]));
    assert_eq!(list.images.len(), 2);
}

use gdrawer::order::{compare_text, TextOrder};
use gdrawer::text::{format_time, is_image_file_name, parse_u32, push_decimal, select_images};

#[test]
fn format_time_short_durations_in_seconds() {
    assert_eq!(format_time(0), "0sec");
    assert_eq!(format_time(5), "5sec");
    assert_eq!(format_time(59), "59sec");
    assert_eq!(format_time(60), "60sec");
    assert_eq!(format_time(99), "99sec");
}

#[test]
fn format_time_minutes_from_one_hundred_seconds() {
    assert_eq!(format_time(100), "1min 40sec");
    assert_eq!(format_time(120), "2min");
    assert_eq!(format_time(180), "3min");
    assert_eq!(format_time(185), "3min 5sec");
    assert_eq!(format_time(3599), "59min 59sec");
}

#[test]
fn format_time_refuses_an_hour_or_more() {
    assert_eq!(format_time(3600), "U retarded?");
    assert_eq!(format_time(u32::MAX), "U retarded?");
}

#[test]
fn push_decimal_appends_digits() {
    let mut s = String::from("n=");
    push_decimal(&mut s, 0);
    assert_eq!(s, "n=0");
    let mut t = String::new();
    push_decimal(&mut t, 4294967295);
    assert_eq!(t, "4294967295");
}

#[test]
fn parse_u32_accepts_std_notation() {
    assert_eq!(parse_u32("42"), Some(42));
    assert_eq!(parse_u32("007"), Some(7));
    assert_eq!(parse_u32("+7"), Some(7));
    assert_eq!(parse_u32("0"), Some(0));
    assert_eq!(parse_u32("4294967295"), Some(u32::MAX));
}

#[test]
fn parse_u32_rejects_what_std_rejects() {
    for text in ["", "+", "-", "-1", "4294967296", "99999999999999999999", "12a", " 1", "1 ", "++1", "1.0"] {
        assert_eq!(parse_u32(text), None, "{:?}", text);
        assert_eq!(parse_u32(text), text.parse::<u32>().ok(), "{:?}", text);
    }
}

#[test]
fn parse_u32_agrees_with_std_on_numbers() {
    for n in [0u32, 1, 9, 10, 99, 100, 65535, 1_000_000, u32::MAX - 1, u32::MAX] {
        let text = n.to_string();
        assert_eq!(parse_u32(&text), Some(n));
        assert_eq!(parse_u32(&format!("+{}", text)), text.parse::<u32>().ok());
    }
}

#[test]
fn decimal_text_reads_back() {
    // format_time writes short durations as their decimal notation
    for n in [0u32, 7, 42, 99] {
        let shown = format_time(n);
        let digits = shown.trim_end_matches("sec");
        assert_eq!(parse_u32(digits), Some(n));
    }
}

#[test]
fn image_extensions_in_any_case() {
    assert!(is_image_file_name("a.png"));
    assert!(is_image_file_name("A.PNG"));
    assert!(is_image_file_name("photo.jpg"));
    assert!(is_image_file_name("photo.JpEg"));
    assert!(is_image_file_name("archive.tar.png"));
    assert!(is_image_file_name("ü.jpeg"));
}

#[test]
fn non_image_names() {
    assert!(!is_image_file_name(".png"));
    assert!(!is_image_file_name("png"));
    assert!(!is_image_file_name("a.gif"));
    assert!(!is_image_file_name("a.png.txt"));
    assert!(!is_image_file_name("a."));
    assert!(!is_image_file_name(".."));
    assert!(!is_image_file_name("."));
    assert!(!is_image_file_name(""));
    assert!(!is_image_file_name("a.pngg"));
    assert!(!is_image_file_name("a.jpe"));
}

#[test]
fn select_images_keeps_images_in_order() {
    let entries = vec![
        ("/d".to_string(), "d".to_string()),
        ("/d/b.PNG".to_string(), "b.PNG".to_string()),
        ("/d/notes.txt".to_string(), "notes.txt".to_string()),
        ("/d/a.jpeg".to_string(), "a.jpeg".to_string()),
        ("/d/.jpg".to_string(), ".jpg".to_string()),
    ];
    assert_eq!(select_images(&entries), vec!["/d/b.PNG".to_string(), "/d/a.jpeg".to_string()]);
    assert!(select_images(&Vec::new()).is_empty());
}

#[test]
fn compare_text_is_lexicographic() {
    assert_eq!(compare_text("a", "b"), TextOrder::Less);
    assert_eq!(compare_text("b", "a"), TextOrder::Greater);
    assert_eq!(compare_text("abc", "abc"), TextOrder::Equal);
    assert_eq!(compare_text("ab", "abc"), TextOrder::Less);
    assert_eq!(compare_text("", ""), TextOrder::Equal);
    assert_eq!(compare_text("", "a"), TextOrder::Less);
    assert_eq!(compare_text("Z", "a"), TextOrder::Less);
    assert_eq!(compare_text("é", "z"), TextOrder::Greater);
}

#[test]
fn compare_text_agrees_with_string_order() {
    let words = ["", "a", "ab", "b", "Set", "set", "Set 2", "ü", "zz"];
    for x in words {
        for y in words {
            let expected = match x.cmp(y) {
                std::cmp::Ordering::Less => TextOrder::Less,
                std::cmp::Ordering::Equal => TextOrder::Equal,
                std::cmp::Ordering::Greater => TextOrder::Greater,
            };
            assert_eq!(compare_text(x, y), expected, "{:?} {:?}", x, y);
        }
    }
}

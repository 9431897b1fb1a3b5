use invoicer::artifact::{extension_start, has_preview_extension};
use invoicer::naming::{dir_name, matches_invoice, push_decimal, push_integer};

#[test]
fn dir_name_is_plain_decimal() {
    assert_eq!(dir_name(7), "7");
    assert_eq!(dir_name(0), "0");
    assert_eq!(dir_name(10), "10");
    assert_eq!(dir_name(100001), "100001");
    assert_eq!(dir_name(199), "199");
}

#[test]
fn dir_name_of_negative_numbers_has_a_sign() {
    assert_eq!(dir_name(-1), "-1");
    assert_eq!(dir_name(-120), "-120");
}

#[test]
fn dir_name_at_the_limits() {
    assert_eq!(dir_name(i32::MAX), "2147483647");
    assert_eq!(dir_name(i32::MIN), "-2147483648");
}

#[test]
fn dir_name_agrees_with_std() {
    let mut number: i32 = -5000;
    while number <= 5000 {
        assert_eq!(dir_name(number), number.to_string());
        number += 7;
    }
}

#[test]
fn push_decimal_appends() {
    let mut text = String::from("n=");
    push_decimal(&mut text, 18446744073709551615);
    assert_eq!(text, "n=18446744073709551615");
    push_decimal(&mut text, 0);
    assert_eq!(text, "n=184467440737095516150");
}

#[test]
fn push_integer_appends() {
    let mut text = String::from("a");
    push_integer(&mut text, -42);
    push_integer(&mut text, 42);
    assert_eq!(text, "a-4242");
}

#[test]
fn invoice_one_matches_only_its_own_directory() {
    assert!(matches_invoice(&String::from("1"), 1));
    assert!(!matches_invoice(&String::from("21"), 1));
    assert!(!matches_invoice(&String::from("100001"), 1));
    assert!(!matches_invoice(&String::from("11"), 1));
    assert!(!matches_invoice(&String::from("10"), 1));
}

#[test]
fn padded_names_do_not_match() {
    assert!(!matches_invoice(&String::from("01"), 1));
    assert!(!matches_invoice(&String::from("1 "), 1));
    assert!(!matches_invoice(&String::from(""), 0));
    assert!(matches_invoice(&String::from("0"), 0));
    assert!(!matches_invoice(&String::from("+5"), 5));
    assert!(matches_invoice(&String::from("-5"), -5));
    assert!(!matches_invoice(&String::from("5"), -5));
}

#[test]
fn twelve_does_not_match_one_hundred_and_twelve() {
    assert!(!matches_invoice(&String::from("112"), 12));
    assert!(matches_invoice(&String::from("12"), 12));
}

#[test]
fn extension_starts_after_the_last_dot() {
    assert_eq!(extension_start("a.jpg"), Some(2));
    assert_eq!(extension_start("a.b.jpg"), Some(4));
    assert_eq!(extension_start("a."), Some(2));
    assert_eq!(extension_start("..a"), Some(2));
    assert_eq!(extension_start("..."), Some(3));
}

#[test]
fn names_without_an_extension() {
    assert_eq!(extension_start(""), None);
    assert_eq!(extension_start("preview"), None);
    assert_eq!(extension_start(".jpg"), None);
    assert_eq!(extension_start("."), None);
    assert_eq!(extension_start(".."), None);
}

#[test]
fn extension_agrees_with_std_paths() {
    let names = [
        "a.jpg", ".jpg", "a.b.c", "a.", "..", "...", "..a", "a..b", "plain", "", ".hidden.txt",
        "\u{17e}.jpg", "x.j\u{17e}g",
    ];
    for name in names {
        let ours = extension_start(name).map(|at| name.chars().skip(at).collect::<String>());
        let theirs = std::path::Path::new(name)
            .extension()
            .map(|e| e.to_string_lossy().into_owned());
        assert_eq!(ours, theirs, "{}", name);
    }
}

#[test]
fn preview_images_end_in_jpg() {
    assert!(has_preview_extension("7.jpg"));
    assert!(has_preview_extension("invoice.7.jpg"));
    assert!(has_preview_extension("\u{10d}ek.jpg"));
    assert!(!has_preview_extension("7.JPG"));
    assert!(!has_preview_extension("7.jpeg"));
    assert!(!has_preview_extension("7.jpg.pdf"));
    assert!(!has_preview_extension("7.jp"));
    assert!(!has_preview_extension("7.jpx"));
    assert!(!has_preview_extension(".jpg"));
    assert!(!has_preview_extension("jpg"));
    assert!(!has_preview_extension("output.json"));
    assert!(!has_preview_extension(""));
}

use wcapp::paths::{category_name, display_name, is_image_path, join_path, recognized_extension};
use wcapp::text::{chars_of, str_le};

#[test]
fn recognizes_each_image_extension() {
    for name in ["a.jpg", "a.jpeg", "a.png", "a.bmp", "a.gif", "a.webp"] {
        assert!(is_image_path(name), "{}", name);
    }
}

#[test]
fn recognizes_extensions_in_any_case() {
    assert!(is_image_path("nature/A.JPG"));
    assert!(is_image_path("nature/a.JpEg"));
    assert!(is_image_path("city/b.PnG"));
    assert!(is_image_path("x.WEBP"));
}

#[test]
fn rejects_other_extensions() {
    for name in ["a.txt", "a.jpg.txt", "a.jp", "a.jpgg", "a.tiff", "a.svg", "a.", "a"] {
        assert!(!is_image_path(name), "{}", name);
    }
}

#[test]
fn a_leading_dot_starts_no_extension() {
    assert!(!is_image_path(".jpg"));
    assert!(!is_image_path("nature/.png"));
    assert!(is_image_path("nature/..png"));
    assert!(is_image_path(".hidden.gif"));
}

#[test]
fn the_extension_belongs_to_the_last_component() {
    assert!(!is_image_path("dir.jpg/readme"));
    assert!(!is_image_path("dir.jpg/"));
    assert!(is_image_path("dir.txt/a.bmp"));
}

#[test]
fn non_ascii_letters_do_not_fold_into_extensions() {
    // U+212A KELVIN SIGN and U+0130 have ASCII-looking lower-case forms.
    assert!(!is_image_path("a.\u{212a}pg"));
    assert!(!is_image_path("a.g\u{130}f"));
    assert!(is_image_path("\u{e9}t\u{e9}.png"));
}

#[test]
fn recognized_extension_takes_the_bare_extension() {
    assert!(recognized_extension(&chars_of("JPEG")));
    assert!(recognized_extension(&chars_of("gif")));
    assert!(!recognized_extension(&chars_of("")));
    assert!(!recognized_extension(&chars_of(".png")));
}

#[test]
fn join_separates_with_one_slash() {
    assert_eq!(join_path("/home/u/Pictures", "wcapp"), "/home/u/Pictures/wcapp");
    assert_eq!(join_path("/home/u/Pictures/", "wcapp"), "/home/u/Pictures/wcapp");
    assert_eq!(join_path("root", "nature/a.jpg"), "root/nature/a.jpg");
}

#[test]
fn join_with_an_absolute_or_an_empty_side() {
    assert_eq!(join_path("/root", "/etc/a.jpg"), "/etc/a.jpg");
    assert_eq!(join_path("", "nature/a.jpg"), "nature/a.jpg");
    assert_eq!(join_path("/root", ""), "/root/");
    assert_eq!(join_path("", ""), "");
}

#[test]
fn category_is_the_first_component() {
    assert_eq!(category_name("nature/a.jpg"), Some("nature".to_string()));
    assert_eq!(category_name("nature/deep/a.jpg"), Some("nature".to_string()));
    assert_eq!(category_name("a.jpg"), None);
    assert_eq!(category_name("/a.jpg"), None);
    assert_eq!(category_name(""), None);
}

#[test]
fn lexicographic_order_on_strings() {
    assert!(str_le("", ""));
    assert!(str_le("", "a"));
    assert!(!str_le("a", ""));
    assert!(str_le("city", "nature"));
    assert!(!str_le("nature", "city"));
    assert!(str_le("a", "ab"));
    assert!(!str_le("ab", "a"));
    assert!(str_le("B", "a"));
    assert!(str_le("a-b", "a/b"));
    assert!(str_le("same", "same"));
}

#[test]
fn lexicographic_order_agrees_with_std() {
    let words = ["", "a", "A", "ab", "b", "nature/a.jpg", "nature/B.jpg", "\u{e9}", "z", "a/b", "a-b"];
    for x in words {
        for y in words {
            assert_eq!(str_le(x, y), x <= y, "{:?} {:?}", x, y);
        }
    }
}

#[test]
fn a_wallpaper_is_shown_with_its_directory() {
    assert_eq!(display_name("/home/u/Pictures/wcapp/nature/a.jpg"), "nature/a.jpg");
    assert_eq!(display_name("nature/a.jpg"), "nature/a.jpg");
    assert_eq!(display_name("nature/trees/oak.png"), "trees/oak.png");
}

#[test]
fn a_wallpaper_without_directory_is_shown_by_its_name() {
    assert_eq!(display_name("a.jpg"), "a.jpg");
    assert_eq!(display_name("/a.jpg"), "a.jpg");
    assert_eq!(display_name(""), "");
}

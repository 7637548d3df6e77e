use playground::decimal::push_padded;
use playground::xkcd_lock::comic::Xkcd;
use playground::xkcd_lock::{is_safe_char, monitor_args, names_by_width, safe_path};

#[test]
fn safe_path_keeps_letters_numbers_and_spaces() {
    assert_eq!(safe_path("Exploits of a Mom"), "Exploits of a Mom");
    assert_eq!(safe_path("a/b\\c:d*e?f\"g<h>i|j"), "abcdefghij");
    assert_eq!(safe_path("git commit -m 'wip'"), "git commit m wip");
    assert_eq!(safe_path("1337: Part 2"), "1337 Part 2");
    assert_eq!(safe_path("Înţelegere ４２ ٣"), "Înţelegere ４２ ٣");
    assert_eq!(safe_path("tab\there\nnew"), "tabherenew");
    assert_eq!(safe_path(""), "");
    assert_eq!(safe_path("../.."), "");
}

#[test]
fn safe_char_is_alphanumeric_or_space() {
    assert!(is_safe_char('a', true));
    assert!(is_safe_char(' ', false));
    assert!(!is_safe_char('/', false));
    assert!(!is_safe_char('\u{a0}', false));
}

#[test]
fn filename_has_four_digits_at_least() {
    let comic = |num: u32, title: &str| Xkcd {
        num,
        title: title.to_string(),
        ..Default::default()
    };
    assert_eq!(comic(327, "Exploits of a Mom").filename(), "0327 - Exploits of a Mom.png");
    assert_eq!(comic(0, "").filename(), "0000 - .png");
    assert_eq!(comic(7, "a/b").filename(), "0007 - ab.png");
    assert_eq!(comic(1000, "1000 Comics").filename(), "1000 - 1000 Comics.png");
    assert_eq!(comic(9999, "x").filename(), "9999 - x.png");
    assert_eq!(comic(12345, "x").filename(), "12345 - x.png");
    assert_eq!(comic(u32::MAX, "x").filename(), "4294967295 - x.png");
}

#[test]
fn default_comic_is_empty() {
    let comic = Xkcd::default();
    assert_eq!(comic.img, "");
    assert_eq!(comic.title, "");
    assert_eq!(comic.alt, "");
    assert_eq!(comic.num, 0);
}

#[test]
fn numbers_are_padded_with_zeros() {
    let padded = |number: u64, width: usize| {
        let mut text = String::from(">");
        push_padded(&mut text, number, width);
        text
    };
    assert_eq!(padded(0, 0), ">0");
    assert_eq!(padded(0, 1), ">0");
    assert_eq!(padded(5, 3), ">005");
    assert_eq!(padded(10, 2), ">10");
    assert_eq!(padded(100, 2), ">100");
    assert_eq!(padded(u64::MAX, 4), ">18446744073709551615");
    assert_eq!(padded(90_210, 7), ">0090210");
}

#[test]
fn comic_goes_on_the_first_display_only() {
    let displays = vec!["DP-1".to_string(), "HDMI-A-1".to_string(), "eDP-1".to_string()];
    let args = monitor_args(&displays, "/tmp/comic.png", "/home/me/bg.png");
    assert_eq!(
        args,
        vec![
            "-i",
            "DP-1:/tmp/comic.png",
            "-i",
            "HDMI-A-1:/home/me/bg.png",
            "-i",
            "eDP-1:/home/me/bg.png",
        ]
    );
    let one = monitor_args(&vec!["eDP-1".to_string()], "c.png", "b.png");
    assert_eq!(one, vec!["-i", "eDP-1:c.png"]);
}

#[test]
fn widest_display_comes_first() {
    let display = |name: &str, width: u32| (name.to_string(), width);
    let names = names_by_width(vec![
        display("eDP-1", 1920),
        display("DP-1", 3840),
        display("HDMI-A-1", 1920),
        display("DP-2", 2560),
        display("DP-3", 3840),
        display("VGA-1", 0),
    ]);
    assert_eq!(names, vec!["DP-1", "DP-3", "DP-2", "eDP-1", "HDMI-A-1", "VGA-1"]);
    assert_eq!(names_by_width(Vec::new()), Vec::<String>::new());
    assert_eq!(names_by_width(vec![display("only", 7)]), vec!["only"]);
    let same = names_by_width(vec![display("c", 1), display("a", 1), display("b", 1)]);
    assert_eq!(same, vec!["c", "a", "b"]);
}

#[test]
fn kept_file_tells_its_comic() {
    let comic = Xkcd::from_file_name("0327 - Exploits of a Mom.png", 327)
        .unwrap()
        .unwrap();
    assert_eq!(comic.num, 327);
    assert_eq!(comic.title, "Exploits of a Mom");
    assert_eq!(comic.img, "");
    assert_eq!(comic.alt, "");
    let comic = Xkcd::from_file_name("+012345.jpeg", 12).unwrap().unwrap();
    assert_eq!(comic.title, ".");
    let comic = Xkcd::from_file_name("0001 - .png", 1).unwrap().unwrap();
    assert_eq!(comic.title, "");
    let comic = Xkcd::from_file_name("0002 - Înţelegere ٣.png", 2).unwrap().unwrap();
    assert_eq!(comic.title, "Înţelegere ٣");
    let comic = Xkcd::from_file_name("0003€né€c", 3).unwrap().unwrap();
    assert_eq!(comic.title, "né");
}

#[test]
fn kept_file_of_another_comic_is_passed_over() {
    assert!(matches!(Xkcd::from_file_name("0327 - Exploits of a Mom.png", 328), Some(None)));
    assert!(matches!(Xkcd::from_file_name("0327", 1), Some(None)));
    assert!(matches!(Xkcd::from_file_name("0327é", 1), Some(None)));
    assert!(matches!(Xkcd::from_file_name("12345 - x.png", 12345), Some(None)));
}

#[test]
fn file_that_is_no_kept_comic_cannot_be_read() {
    for name in ["", "032", "keep", "latest", "03é7 - x.png", "12€", "-327 - x.png", " 327 - x.png"] {
        assert!(Xkcd::from_file_name(name, 327).is_none(), "{name}");
    }
    // the file of the comic, with a name too short for a title
    assert!(Xkcd::from_file_name("0327", 327).is_none());
    assert!(Xkcd::from_file_name("0327 - png", 327).is_none());
    // a character lies across the beginning or the end of the title
    assert!(Xkcd::from_file_name("0327 -€ x.png", 327).is_none());
    assert!(Xkcd::from_file_name("0327 - x €png", 327).is_none());
}

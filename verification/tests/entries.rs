use lss::entry::{attach_suffix, quote, DisplayColor, FEntry, FType, Maxs};
use lss::listing::{format_long_info, is_hidden, push_entry, reverse_entries, sort};
use lss::mode::{get_mode, FileKind};
use lss::paint::Tint;
use lss::time::Time;

fn entry(name: &str, ftype: FType, size: u64) -> FEntry {
    FEntry {
        name: name.to_string(),
        path: format!("/srv/{}", name),
        ftype,
        modified: Time::new(0, 0),
        nblocks: 8,
        size,
        hsize: String::from("1.21K"),
        owner: String::from("root"),
        group: String::from("wheel"),
        mode: String::from("-rw-r--r--"),
    }
}

fn names_of(dir: &[FEntry]) -> Vec<&str> {
    dir.iter().map(|e| e.name.as_str()).collect()
}

#[test]
fn permission_strings() {
    assert_eq!(get_mode(FileKind::File, 0o644), "-rw-r--r--");
    assert_eq!(get_mode(FileKind::File, 0o100644), "-rw-r--r--");
    assert_eq!(get_mode(FileKind::Dir, 0o755), "drwxr-xr-x");
    assert_eq!(get_mode(FileKind::Symlink, 0o777), "lrwxrwxrwx");
    assert_eq!(get_mode(FileKind::Other, 0), "?---------");
    assert_eq!(get_mode(FileKind::File, 0o124), "---x-w-r--");
}

#[test]
fn special_bits_show_in_the_execute_places() {
    assert_eq!(get_mode(FileKind::File, 0o4755), "-rwsr-xr-x");
    assert_eq!(get_mode(FileKind::File, 0o4644), "-rwSr--r--");
    assert_eq!(get_mode(FileKind::File, 0o2755), "-rwxr-sr-x");
    assert_eq!(get_mode(FileKind::File, 0o2745), "-rwxr-Sr-x");
    assert_eq!(get_mode(FileKind::Dir, 0o1777), "drwxrwxrwt");
    assert_eq!(get_mode(FileKind::Dir, 0o1776), "drwxrwxrwT");
    assert_eq!(get_mode(FileKind::File, 0o7000), "---S--S--T");
    assert_eq!(get_mode(FileKind::File, 0o7777), "-rwsrwsrwt");
}

#[test]
fn kinds_become_types() {
    assert_eq!(FType::classify(FileKind::Dir, None, 0o755), FType::Dir);
    assert_eq!(FType::classify(FileKind::File, None, 0o644), FType::File(false));
    assert_eq!(FType::classify(FileKind::File, None, 0o744), FType::File(true));
    assert_eq!(FType::classify(FileKind::File, None, 0o010), FType::File(true));
    assert_eq!(FType::classify(FileKind::File, None, 0o001), FType::File(true));
    assert_eq!(FType::classify(FileKind::File, None, 0o4666), FType::File(false));
    assert_eq!(
        FType::classify(FileKind::Symlink, Some(String::from("target")), 0o777),
        FType::Symlink(String::from("target"))
    );
    assert_eq!(FType::classify(FileKind::Symlink, None, 0o777), FType::BrokenSymlink);
    assert_eq!(FType::classify(FileKind::Other, None, 0o666), FType::Other);
}

#[test]
fn types_have_marks_and_colours() {
    assert_eq!(FType::Dir.suffix(), Some('/'));
    assert_eq!(FType::Symlink(String::from("t")).suffix(), Some('@'));
    assert_eq!(FType::BrokenSymlink.suffix(), Some('!'));
    assert_eq!(FType::File(true).suffix(), None);
    assert_eq!(FType::File(false).suffix(), None);
    assert_eq!(FType::Other.suffix(), None);
    assert_eq!(FType::File(true).tint(), Tint::Green);
    assert_eq!(FType::File(false).tint(), Tint::White);
    assert_eq!(FType::Other.tint(), Tint::White);
    assert_eq!(FType::Dir.tint(), Tint::Blue);
    assert_eq!(FType::Symlink(String::from("t")).tint(), Tint::Cyan);
    assert_eq!(FType::BrokenSymlink.tint(), Tint::Red);
}

#[test]
fn marks_are_attached_where_asked_for() {
    assert_eq!(attach_suffix(String::from("src"), &FType::Dir, true), "src/");
    assert_eq!(attach_suffix(String::from("src"), &FType::Dir, false), "src");
    let link = FType::Symlink(String::from("v2"));
    assert_eq!(attach_suffix(String::from("cur"), &link, true), "cur@");
    assert_eq!(attach_suffix(String::from("old"), &FType::BrokenSymlink, true), "old!");
    assert_eq!(attach_suffix(String::from("a.txt"), &FType::File(true), true), "a.txt");
    assert_eq!(attach_suffix(String::from("\x1b[34msrc\x1b[0m"), &FType::Dir, true), "\x1b[34msrc\x1b[0m/");
    assert_eq!(quote("a b"), "\"a b\"");
    assert_eq!(quote(""), "\"\"");
}

#[test]
fn names_without_colour() {
    let dir = entry("src", FType::Dir, 0);
    assert_eq!(dir.get_colorless_name(true), "src/");
    assert_eq!(dir.get_colorless_name(false), "src");
    assert_eq!(dir.to_str(DisplayColor::Empty, false), "src/");
    assert_eq!(dir.to_str(DisplayColor::Empty, true), "\"src\"");
    assert_eq!(dir.to_str(DisplayColor::Standart, true), "\"src\"");
    let file = entry("a.txt", FType::File(false), 0);
    assert_eq!(file.to_str(DisplayColor::Empty, false), "a.txt");
    let link = entry("cur", FType::Symlink(String::from("v2")), 0);
    assert_eq!(link.to_str(DisplayColor::Empty, false), "cur@");
    let broken = entry("old", FType::BrokenSymlink, 0);
    assert_eq!(broken.to_str(DisplayColor::Empty, false), "old!");
}

#[test]
fn names_with_colour() {
    colored::control::set_override(true);
    let dir = entry("src", FType::Dir, 0);
    assert_eq!(dir.get_name_and_suffix(), (String::from("\x1b[34msrc\x1b[0m"), Some('/')));
    assert_eq!(dir.get_styled_name(true), "\x1b[34msrc\x1b[0m/");
    assert_eq!(dir.get_styled_name(false), "\x1b[34msrc\x1b[0m");
    assert_eq!(dir.to_str(DisplayColor::Standart, false), "\x1b[34msrc\x1b[0m/");
    assert_eq!(entry("run", FType::File(true), 0).get_styled_name(true), "\x1b[32mrun\x1b[0m");
    assert_eq!(entry("a", FType::File(false), 0).get_styled_name(true), "\x1b[37ma\x1b[0m");
    assert_eq!(entry("dev", FType::Other, 0).get_styled_name(true), "\x1b[37mdev\x1b[0m");
    assert_eq!(
        entry("cur", FType::Symlink(String::from("v2")), 0).get_styled_name(true),
        "\x1b[36mcur\x1b[0m@"
    );
    assert_eq!(entry("old", FType::BrokenSymlink, 0).get_styled_name(true), "\x1b[31mold\x1b[0m!");
    let shown = dir.to_display(DisplayColor::Standart, false);
    assert_eq!(shown.text, "\x1b[34msrc\x1b[0m/");
    assert_eq!(shown.width, 4);
    let link = entry("cur", FType::Symlink(String::from("v2")), 0);
    assert_eq!(
        link.long_name_text(DisplayColor::Standart, false, true),
        "\x1b[36mcur\x1b[0m -> v2"
    );
}

#[test]
fn names_when_colours_are_off() {
    colored::control::set_override(false);
    let dir = entry("src", FType::Dir, 0);
    assert_eq!(dir.get_styled_name(true), "src/");
    assert_eq!(dir.to_str(DisplayColor::Standart, false), "src/");
    let shown = dir.to_display(DisplayColor::Standart, false);
    assert_eq!(shown.text, "src/");
    assert_eq!(shown.width, 4);
}

#[test]
fn entries_for_the_layout_know_their_visible_width() {
    let dir = entry("src", FType::Dir, 0);
    let shown = dir.to_display(DisplayColor::Empty, false);
    assert_eq!(shown.text, "src/");
    assert_eq!(shown.width, 4);
    let quoted = dir.to_display(DisplayColor::Empty, true);
    assert_eq!(quoted.text, "\"src\"");
    assert_eq!(quoted.width, 5);
    let wide = entry("żółw", FType::File(false), 0).to_display(DisplayColor::Empty, false);
    assert_eq!(wide.width, 4);
}

#[test]
fn long_lines() {
    let maxs = Maxs { size: 6, hsize: 5, blocks: 3, name: 9, owner: 5, group: 5 };
    let file = entry("notes.txt", FType::File(false), 1234);
    assert_eq!(
        file.to_fixed_str(false, &maxs, false, DisplayColor::Empty, false, false),
        "-rw-r--r--  root wheel   1234 Jan  1 00:00 notes.txt"
    );
    assert_eq!(
        file.to_fixed_str(true, &maxs, true, DisplayColor::Empty, false, false),
        "  8 -rw-r--r--  root wheel 1.21K Jan  1 00:00 notes.txt"
    );
    assert_eq!(
        file.to_fixed_str(false, &maxs, true, DisplayColor::Standart, true, true),
        "  8 -rw-r--r--  root wheel   1234 Jan  1 00:00 \"notes.txt\""
    );
    assert_eq!(
        file.fixed_line(false, &maxs, false, "shown"),
        "-rw-r--r--  root wheel   1234 Jan  1 00:00 shown"
    );
}

#[test]
fn long_lines_do_not_cut_what_is_wider_than_its_column() {
    let maxs = Maxs::new();
    let file = entry("notes.txt", FType::File(false), 1234);
    assert_eq!(
        file.to_fixed_str(false, &maxs, true, DisplayColor::Empty, false, false),
        "8 -rw-r--r-- root wheel 1234 Jan  1 00:00 notes.txt"
    );
}

#[test]
fn links_show_their_target_in_the_long_listing() {
    let link = entry("cur", FType::Symlink(String::from("releases/v2")), 11);
    assert_eq!(link.long_name_text(DisplayColor::Empty, false, true), "cur -> releases/v2");
    assert_eq!(
        link.long_name_text(DisplayColor::Empty, true, true),
        "\"cur\" -> \"releases/v2\""
    );
    assert_eq!(
        link.long_name_text(DisplayColor::Standart, true, true),
        "\"cur\" -> \"releases/v2\""
    );
    assert_eq!(link.long_name_text(DisplayColor::Empty, false, false), "cur@");
    assert_eq!(link.long_name_text(DisplayColor::Empty, true, false), "\"cur\"");
    let broken = entry("old", FType::BrokenSymlink, 0);
    assert_eq!(broken.long_name_text(DisplayColor::Empty, false, true), "old!");
    let maxs = Maxs { size: 2, hsize: 5, blocks: 1, name: 3, owner: 4, group: 5 };
    assert_eq!(
        link.to_fixed_str(false, &maxs, false, DisplayColor::Empty, false, true),
        "-rw-r--r-- root wheel 11 Jan  1 00:00 cur -> releases/v2"
    );
}

#[test]
fn hidden_entries_start_with_a_dot() {
    assert!(is_hidden(".git", false));
    assert!(is_hidden(".", false));
    assert!(!is_hidden(".git", true));
    assert!(!is_hidden("a.b", false));
    assert!(!is_hidden("", false));
    assert!(!is_hidden("src", true));
}

#[test]
fn column_widths_grow_with_the_entries() {
    let mut maxs = Maxs::new();
    assert_eq!(maxs, Maxs { size: 0, hsize: 0, blocks: 0, name: 0, owner: 0, group: 0 });
    assert_eq!(maxs.note_blocks(17), 8);
    assert_eq!(maxs.blocks, 1);
    assert_eq!(maxs.note_blocks(2001), 1000);
    assert_eq!(maxs.blocks, 4);
    assert_eq!(maxs.note_blocks(0), 0);
    assert_eq!(maxs.blocks, 4);
    let mut dir = Vec::new();
    push_entry(&mut dir, &mut maxs, entry("notes.txt", FType::File(false), 1234));
    assert_eq!(maxs, Maxs { size: 4, hsize: 5, blocks: 4, name: 9, owner: 4, group: 5 });
    let mut big = entry("żółw", FType::File(false), 123456);
    big.owner = String::from("administrator");
    big.hsize = String::from("1K");
    push_entry(&mut dir, &mut maxs, big);
    // The name has four characters in seven bytes.
    assert_eq!(maxs, Maxs { size: 6, hsize: 5, blocks: 4, name: 9, owner: 13, group: 5 });
    assert_eq!(names_of(&dir), vec!["notes.txt", "żółw"]);
    let mut other = Maxs::new();
    other.note_entry(&dir[1]);
    assert_eq!(other, Maxs { size: 6, hsize: 2, blocks: 0, name: 7, owner: 13, group: 5 });
}

#[test]
fn entries_are_sorted_by_name() {
    let mut dir = vec![
        entry("b", FType::Dir, 3),
        entry("a", FType::Dir, 2),
        entry("B", FType::Dir, 1),
        entry("ab", FType::Dir, 0),
        entry("é", FType::Dir, 0),
        entry("", FType::Dir, 0),
    ];
    sort(&mut dir, false, false);
    assert_eq!(names_of(&dir), vec!["", "B", "a", "ab", "b", "é"]);
    sort(&mut dir, true, false);
    assert_eq!(names_of(&dir), vec!["é", "b", "ab", "a", "B", ""]);
}

#[test]
fn entries_are_sorted_by_size() {
    let mut dir = vec![
        entry("c", FType::Dir, 30),
        entry("a", FType::Dir, 10),
        entry("d", FType::Dir, 10),
        entry("b", FType::Dir, 20),
        entry("e", FType::Dir, 10),
    ];
    sort(&mut dir, false, true);
    // Entries of one size keep their order.
    assert_eq!(names_of(&dir), vec!["a", "d", "e", "b", "c"]);
    let mut back = vec![
        entry("c", FType::Dir, 30),
        entry("a", FType::Dir, 10),
        entry("d", FType::Dir, 10),
        entry("b", FType::Dir, 20),
        entry("e", FType::Dir, 10),
    ];
    sort(&mut back, true, true);
    assert_eq!(names_of(&back), vec!["c", "b", "e", "d", "a"]);
}

#[test]
fn entries_of_one_name_keep_their_order() {
    let mut dir = vec![
        entry("same", FType::Dir, 2),
        entry("other", FType::Dir, 9),
        entry("same", FType::Dir, 1),
    ];
    sort(&mut dir, false, false);
    assert_eq!(names_of(&dir), vec!["other", "same", "same"]);
    assert_eq!(dir[1].size, 2);
    assert_eq!(dir[2].size, 1);
}

#[test]
fn the_order_can_be_turned_round() {
    let mut dir = vec![entry("x", FType::Dir, 1), entry("y", FType::Dir, 2), entry("z", FType::Dir, 3)];
    reverse_entries(&mut dir);
    assert_eq!(names_of(&dir), vec!["z", "y", "x"]);
    let mut none: Vec<FEntry> = Vec::new();
    reverse_entries(&mut none);
    assert!(none.is_empty());
    sort(&mut none, true, true);
    assert!(none.is_empty());
}

#[test]
fn the_long_listing_has_a_line_for_each_entry() {
    assert_eq!(format_long_info(Vec::new()), "");
    assert_eq!(format_long_info(vec![String::from("one")]), "one");
    assert_eq!(
        format_long_info(vec![String::from("one"), String::from("two "), String::new()]),
        "one\ntwo \n"
    );
}

#[test]
fn colour_choices_are_read_in_any_case() {
    assert_eq!(DisplayColor::from_name("none"), DisplayColor::Empty);
    assert_eq!(DisplayColor::from_name("NONE"), DisplayColor::Empty);
    assert_eq!(DisplayColor::from_name("Empty"), DisplayColor::Empty);
    assert_eq!(DisplayColor::from_name("standart"), DisplayColor::Standart);
    assert_eq!(DisplayColor::from_name("always"), DisplayColor::Standart);
    assert_eq!(DisplayColor::from_name(""), DisplayColor::Standart);
    assert_eq!(DisplayColor::from_name("none "), DisplayColor::Standart);
    assert_eq!(DisplayColor::from_lowered("empty"), DisplayColor::Empty);
    assert_eq!(DisplayColor::from_lowered("NONE"), DisplayColor::Standart);
    assert_eq!(DisplayColor::default(), DisplayColor::Standart);
}

use cc_hub::style::{plain, Line, Lines};
use cc_hub::wrap::{rows_for, splits_between, wrap_lines, wrap_text, wrapped_total_rows, wraps};

#[test]
fn popups_wraps_on_word_boundaries() {
    assert_eq!(
        wrap_text("the quick brown fox", 9),
        vec!["the quick", "brown fox"]
    );
}

#[test]
fn popups_hard_splits_a_word_longer_than_width() {
    assert_eq!(wrap_text("abcdefgh", 3), vec!["abc", "def", "gh"]);
}

#[test]
fn popups_long_word_breaks_after_flushing_the_current_line() {
    assert_eq!(wrap_text("hi abcdefgh", 3), vec!["hi", "abc", "def", "gh"]);
}

#[test]
fn popups_empty_or_blank_text_yields_one_empty_row() {
    assert_eq!(wrap_text("", 10), vec![String::new()]);
    assert_eq!(wrap_text("   ", 10), vec![String::new()]);
}

#[test]
fn popups_zero_width_is_clamped_to_one_column() {
    assert_eq!(wrap_text("ab", 0), vec!["a", "b"]);
}

#[test]
fn ui_wraps_on_word_boundaries() {
    assert_eq!(
        wrap_text("the quick brown fox", 9),
        vec!["the quick", "brown fox"]
    );
}

#[test]
fn ui_hard_splits_a_word_longer_than_width() {
    assert_eq!(wrap_text("abcdefgh", 3), vec!["abc", "def", "gh"]);
}

#[test]
fn ui_long_word_breaks_after_flushing_the_current_line() {
    assert_eq!(wrap_text("hi abcdefgh", 3), vec!["hi", "abc", "def", "gh"]);
}

#[test]
fn ui_empty_or_blank_text_yields_one_empty_row() {
    assert_eq!(wrap_text("", 10), vec![String::new()]);
    assert_eq!(wrap_text("   ", 10), vec![String::new()]);
}

#[test]
fn ui_zero_width_is_clamped_to_one_column() {
    assert_eq!(wrap_text("ab", 0), vec!["a", "b"]);
}

fn one(s: &str) -> Lines {
    Lines::of(Line::of(s, plain()))
}

fn rows(s: &str, w: u16) -> usize {
    wrapped_total_rows(&one(s), w) as usize
}

#[test]
fn empty_and_short_lines_are_one_row() {
    assert_eq!(rows("", 10), 1);
    assert_eq!(rows("hello", 10), 1);
    assert_eq!(rows("hello", 5), 1);
}

#[test]
fn breaks_on_word_boundaries() {
    assert_eq!(rows("the quick brown fox", 9), 2);
    assert_eq!(rows("hello world", 5), 2);
}

#[test]
fn hard_splits_a_word_wider_than_the_row() {
    assert_eq!(rows("abcdefgh", 3), 3);
}

#[test]
fn zero_width_never_divides_by_zero() {
    assert_eq!(rows("abc", 0), 1);
}

#[test]
fn matches_renderer_on_divergent_shapes() {
    assert_eq!(rows(" leading", 4), 2);
    assert_eq!(rows("aaaa ", 4), 1);
    assert_eq!(rows("日本語のテキスト", 8), 2);
    assert_eq!(rows("emoji 🚀🚀🚀 line", 8), 3);
}

#[test]
fn spans_concatenate_and_lines_sum() {
    let mut wide = Line::of("the quick ", plain());
    wide.put("brown fox", plain());
    assert_eq!(wrapped_total_rows(&Lines::of(wide), 9), 2);

    let mut lines = one("short");
    lines.put(Line::of("the quick brown", plain()));
    assert_eq!(wrapped_total_rows(&lines, 9), 3);
}

#[test]
fn rows_of_lines_add_up_however_they_are_divided() {
    let texts = ["the quick brown fox", "", "abcdefgh ij", "日本語のテキスト"];
    for width in 1..12u16 {
        let mut all = Lines::none();
        let mut sum = 0;
        for t in texts {
            all.put(Line::of(t, plain()));
            sum += wrapped_total_rows(&one(t), width);
        }
        assert_eq!(wrapped_total_rows(&all, width), sum);
        for t in [texts[0], texts[3], "emoji 🚀🚀🚀 — line", "한국어 텍스트", "שלום עולם", "مرحبا", "สวสด", "कखग घङ", "né e\u{301}e 👩\u{200d}💻x"] {
            for (cut, _) in t.char_indices() {
                if !splits_between(&t[..cut], &t[cut..]) {
                    continue;
                }
                let mut divided = Line::of(&t[..cut], plain());
                divided.put(&t[cut..], plain());
                assert_eq!(wrapped_total_rows(&Lines::of(divided), width), wrapped_total_rows(&one(t), width));
            }
        }
    }
    let mut torn = Line::of("👩\u{200d}", plain());
    torn.put("💻", plain());
    assert_eq!((rows("👩\u{200d}💻", 2), wrapped_total_rows(&Lines::of(torn), 2)), (1, 2));
}

#[test]
fn texts_split_between_characters() {
    assert!(splits_between("", "abc") && splits_between("abc", "") && splits_between("", ""));
    assert!(splits_between("a\r", "\nb") && splits_between("a\u{7}", "b"));
    assert!(splits_between("한", "국") && splits_between("क", "ख") && splits_between("e\u{301}", "e\u{301}"));
    assert!(!splits_between("e", "\u{301}"));
    assert!(!splits_between("👩\u{200d}", "💻") && !splits_between("👩", "\u{200d}💻"));
    assert!(!splits_between("🇩", "🇪") && splits_between("🇩🇪", "🇫🇷"));
    assert!(!splits_between("क\u{94d}", "ख"));
}

#[test]
fn characters_that_stand_alone_split() {
    let ranges = [
        (0x0, 0x2ff), (0x370, 0x482), (0x48a, 0x590), (0x5d0, 0x5ea), (0x620, 0x64a), (0x671, 0x6d5),
        (0x904, 0x939), (0xe01, 0xe30), (0x1e00, 0x200b), (0x200e, 0x20cf), (0x20f1, 0x2cee), (0x2e00, 0x3029),
        (0x3030, 0x3098), (0x309b, 0xa66e), (0xac00, 0xd7a3), (0xe000, 0xfb1d), (0x1f200, 0x1f3fa),
        (0x1f400, 0x1ffff), (0xe0000, 0xe001f),
    ];
    let beside = ["a", "\n", "©", "क", "한", "각", "日", "🚀"];
    for c in ranges.into_iter().flat_map(|(from, to)| from..=to).filter_map(char::from_u32) {
        let one = c.to_string();
        for b in beside {
            assert!(splits_between(&one, b) && splits_between(b, &one), "{:?} {:?}", c, b);
        }
    }
}

#[test]
fn a_paragraph_counts_in_sixteen_bits() {
    let long = one(&"x".repeat(0x4000));
    let short = one(&"x".repeat(0x3fff));
    assert!(wraps(&long, 0x3fff) && !wraps(&long, 0x4000));
    assert!(wraps(&short, 0xffff));
    assert_eq!(wrapped_total_rows(&short, 0xffff), 1);
    assert_eq!(wrapped_total_rows(&long, 0x3fff), 2);
    let mut two = Line::of(&"x".repeat(0x3fff), plain());
    two.put("y", plain());
    assert!(!wraps(&Lines::of(two), 0x4000));
}

#[test]
fn wrapping_again_changes_nothing() {
    let texts = ["", "  a bb   ccc dddddddd\teeeee\n fffffff gggggggggggggg h ", "日本語のテキスト abc"];
    for t in texts {
        for width in 0..20 {
            let rows = wrap_text(t, width);
            assert_eq!(wrap_text(&rows.join(" "), width), rows);
        }
    }
}

#[test]
fn a_line_break_divides_the_rows() {
    for (a, b) in [("one two three", "four"), ("x\n\n y z \r", "\n\nlast\n\n"), ("ink", ""), ("\nfirst", "\n \n")] {
        for width in 0..20 {
            let mut rows = wrap_lines(a, width);
            rows.extend(wrap_lines(b, width));
            assert_eq!(wrap_lines(&format!("{}\n{}", a, b), width), rows);
        }
    }
}

#[test]
fn rows_are_counted_up_to_a_limit() {
    assert_eq!(rows_for(0, 10, 0), 0);
    assert_eq!(rows_for(3, 10, 0), 1);
    assert_eq!(rows_for(3, 10, 7), 7);
    assert_eq!(rows_for(3, 0, 7), 3);
    assert_eq!(rows_for(3, 10, 70_000), 65_535);
    assert_eq!(rows_for(70_000, 0, 0), 65_535);
}

#[test]
fn wrapping_keeps_every_character_that_is_seen() {
    let text = "  a bb   ccc dddddddd\teeeee\n fffffff gggggggggggggg h ";
    for width in 0..20 {
        let rows = wrap_text(text, width);
        assert!(rows.iter().all(|r| r.chars().count() <= width.max(1)));
        let seen: String = rows.concat().chars().filter(|c| !c.is_whitespace()).collect();
        let all: String = text.chars().filter(|c| !c.is_whitespace()).collect();
        assert_eq!(seen, all);
    }
}

#[test]
fn lines_keep_their_breaks() {
    assert_eq!(wrap_lines("one two\n\nthree", 20), vec!["one two", "", "three"]);
    assert_eq!(wrap_lines("one two three", 8), vec!["one two", "three"]);
    assert_eq!(wrap_lines("abcdefghijk", 3), vec!["abcdefgh", "ijk"]);
    assert_eq!(wrap_lines("a\n\n", 20), vec!["a"]);
    assert!(wrap_lines("", 20).is_empty());
}

use baguette::fields::{copy_range, sift, split_fields, strip_bounds, trim_bounds};
use baguette::glyph::{scan, scan_char, spell, Glyph};
use baguette::number::read_number;
use baguette::parser::{holds_char, names_pastry, pastry_kind, read_color, read_component};
use baguette::directive::PastryKind;
use baguette::text::{find, find_char, matches_at, to_ascii_lower};

fn text_of(glyphs: &[Glyph]) -> String {
    glyphs.iter().map(|g| g.ch).collect()
}

fn number(text: &str, max: u32) -> Option<u32> {
    let glyphs = scan(text);
    read_number(&glyphs, 0, glyphs.len(), max)
}

#[test]
fn scan_char_asks_unicode() {
    assert_eq!(scan_char('5'), Glyph { ch: '5', numeric: true, space: false });
    assert_eq!(scan_char('\u{00BD}'), Glyph { ch: '\u{00BD}', numeric: true, space: false });
    assert_eq!(scan_char('\u{2003}'), Glyph { ch: '\u{2003}', numeric: false, space: true });
    assert_eq!(scan_char(','), Glyph { ch: ',', numeric: false, space: false });
}

#[test]
fn spell_gives_back_the_characters() {
    let glyphs = scan("Cr\u{00F4}issant(1,2)");
    assert_eq!(spell(&glyphs, 0, glyphs.len()), "Cr\u{00F4}issant(1,2)");
    assert_eq!(spell(&glyphs, 2, 5), "\u{00F4}is");
    assert_eq!(spell(&glyphs, 4, 4), "");
}

#[test]
fn lower_case_touches_only_ascii_capitals() {
    assert_eq!(to_ascii_lower('A'), 'a');
    assert_eq!(to_ascii_lower('Z'), 'z');
    assert_eq!(to_ascii_lower('m'), 'm');
    assert_eq!(to_ascii_lower('@'), '@');
    assert_eq!(to_ascii_lower('['), '[');
    assert_eq!(to_ascii_lower('\u{00C9}'), '\u{00C9}');
}

#[test]
fn find_char_gives_the_first_index_from_the_start_given() {
    let glyphs = scan("a(b(c)");
    assert_eq!(find_char(&glyphs, 0, '('), 1);
    assert_eq!(find_char(&glyphs, 1, '('), 1);
    assert_eq!(find_char(&glyphs, 2, '('), 3);
    assert_eq!(find_char(&glyphs, 4, '('), 6);
    assert_eq!(find_char(&glyphs, 6, '('), 6);
    assert_eq!(find_char(&glyphs, 0, '?'), 6);
}

#[test]
fn matches_at_compares_in_place() {
    let glyphs = scan("xBaGuette");
    assert!(matches_at(&glyphs, &['B', 'a', 'G'], 1, false));
    assert!(!matches_at(&glyphs, &['b', 'a', 'g'], 1, false));
    assert!(matches_at(&glyphs, &['b', 'a', 'g'], 1, true));
    assert!(!matches_at(&glyphs, &['b', 'a', 'g'], 0, true));
    assert!(matches_at(&glyphs, &[], 9, false));
}

#[test]
fn find_looks_everywhere() {
    let glyphs = scan("say Croissant!");
    assert!(find(&glyphs, &['C', 'r', 'o'], false));
    assert!(!find(&glyphs, &['c', 'r', 'o'], false));
    assert!(find(&glyphs, &['c', 'r', 'o'], true));
    assert!(find(&glyphs, &['t', '!'], false));
    assert!(!find(&glyphs, &['t', '?'], false));
    assert!(find(&glyphs, &[], false));
    assert!(!find(&scan("ab"), &['a', 'b', 'c'], false));
    assert!(find(&scan(""), &[], true));
}

#[test]
fn holds_char_and_pastry_names() {
    assert!(holds_char(&scan("a)"), ')'));
    assert!(!holds_char(&scan("a("), ')'));
    assert!(names_pastry(&scan("xxBAGUETTExx")));
    assert!(names_pastry(&scan("(croissant")));
    assert!(!names_pastry(&scan("roissant")));
    assert!(!names_pastry(&scan("baguett")));
    assert_eq!(pastry_kind(&scan("a ROISSANT b")), PastryKind::Croissant);
    assert_eq!(pastry_kind(&scan("baguette")), PastryKind::Baguette);
    assert_eq!(pastry_kind(&scan("")), PastryKind::Baguette);
}

#[test]
fn numbers_are_plain_decimals() {
    assert_eq!(number("0", 255), Some(0));
    assert_eq!(number("42", 255), Some(42));
    assert_eq!(number("255", 255), Some(255));
    assert_eq!(number("256", 255), None);
    assert_eq!(number("000000000000000000000000255", 255), Some(255));
    assert_eq!(number("+17", 255), Some(17));
    assert_eq!(number("2147483647", 2147483647), Some(2147483647));
    assert_eq!(number("2147483648", 2147483647), None);
    assert_eq!(number("4294967295", u32::MAX), Some(u32::MAX));
    assert_eq!(number("4294967296", u32::MAX), None);
    assert_eq!(number("99999999999999999999999999999999", u32::MAX), None);
}

#[test]
fn what_is_no_decimal_is_no_number() {
    assert_eq!(number("", 255), None);
    assert_eq!(number("+", 255), None);
    assert_eq!(number("-1", 255), None);
    assert_eq!(number("++1", 255), None);
    assert_eq!(number("1+", 255), None);
    assert_eq!(number("1 ", 255), None);
    assert_eq!(number("12a", 255), None);
    assert_eq!(number("999x", 255), None);
    assert_eq!(number("\u{0663}", 255), None);
    assert_eq!(number("0x10", 255), None);
}

#[test]
fn read_number_reads_the_range_it_is_given() {
    let glyphs = scan("ab123cd");
    assert_eq!(read_number(&glyphs, 2, 5, 255), Some(123));
    assert_eq!(read_number(&glyphs, 2, 4, 255), Some(12));
    assert_eq!(read_number(&glyphs, 3, 3, 255), None);
    assert_eq!(read_number(&glyphs, 1, 5, 255), None);
}

#[test]
fn sift_keeps_numerals_and_on_request_commas() {
    let glyphs = scan("a1,b2\u{0663},(3)");
    assert_eq!(text_of(&sift(&glyphs, 0, glyphs.len(), true)), "1,2\u{0663},3");
    assert_eq!(text_of(&sift(&glyphs, 0, glyphs.len(), false)), "12\u{0663}3");
    assert_eq!(text_of(&sift(&glyphs, 2, 5, true)), ",2");
    assert_eq!(text_of(&sift(&glyphs, 3, 3, true)), "");
}

#[test]
fn fields_are_split_at_every_comma() {
    let split = |text: &str| -> Vec<String> {
        split_fields(&scan(text)).iter().map(|f| text_of(f)).collect()
    };
    assert_eq!(split("1,2,3"), vec!["1", "2", "3"]);
    assert_eq!(split(""), vec![""]);
    assert_eq!(split(","), vec!["", ""]);
    assert_eq!(split("a,,b,"), vec!["a", "", "b", ""]);
    assert_eq!(split("no comma"), vec!["no comma"]);
}

#[test]
fn copy_range_copies() {
    let glyphs = scan("abcdef");
    assert_eq!(text_of(&copy_range(&glyphs, 1, 4)), "bcd");
    assert_eq!(text_of(&copy_range(&glyphs, 0, 6)), "abcdef");
    assert_eq!(text_of(&copy_range(&glyphs, 6, 6)), "");
}

#[test]
fn trim_bounds_leave_out_whitespace_at_both_ends() {
    assert_eq!(trim_bounds(&scan("  a b\t\n")), (2, 5));
    assert_eq!(trim_bounds(&scan("ab")), (0, 2));
    assert_eq!(trim_bounds(&scan("")), (0, 0));
    assert_eq!(trim_bounds(&scan("   ")), (3, 3));
    assert_eq!(trim_bounds(&scan("\u{00A0}x\u{3000}")), (1, 2));
}

#[test]
fn strip_bounds_leave_out_prefixes_and_closers() {
    let prefix = ['P', '('];
    assert_eq!(strip_bounds(&scan("P(1,2)"), &prefix), (2, 5));
    assert_eq!(strip_bounds(&scan("P(P(P(1)))"), &prefix), (6, 7));
    assert_eq!(strip_bounds(&scan("xP(1)"), &prefix), (0, 4));
    assert_eq!(strip_bounds(&scan("P())"), &prefix), (2, 2));
    assert_eq!(strip_bounds(&scan("P("), &prefix), (2, 2));
    assert_eq!(strip_bounds(&scan(")))"), &prefix), (0, 0));
    assert_eq!(strip_bounds(&scan("P"), &prefix), (0, 1));
    assert_eq!(strip_bounds(&scan("ab)"), &[]), (0, 2));
}

#[test]
fn components_fall_back_to_255() {
    assert_eq!(read_component(&scan("17"), false), 17);
    assert_eq!(read_component(&scan(" 17 "), false), 255);
    assert_eq!(read_component(&scan(" 17 "), true), 17);
    assert_eq!(read_component(&scan(""), true), 255);
    assert_eq!(read_component(&scan("256"), true), 255);
    assert_eq!(read_component(&scan("0"), false), 0);
}

#[test]
fn colors_take_alpha_from_a_fourth_field() {
    let fields = |text: &str| split_fields(&scan(text));
    assert_eq!(read_color(&fields("1,2,3"), false), [1, 2, 3, 255]);
    assert_eq!(read_color(&fields("1,2,3,4"), false), [1, 2, 3, 4]);
    assert_eq!(read_color(&fields("1,2,3,4,5"), false), [1, 2, 3, 4]);
    assert_eq!(read_color(&fields("1,2,3,"), false), [1, 2, 3, 255]);
    assert_eq!(read_color(&fields(" 1,x, 3 ,0"), true), [1, 255, 3, 0]);
}

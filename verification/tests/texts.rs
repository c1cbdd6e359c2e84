use hardware_ingest::path::{file_name_extension, path_extension, path_file_name};
use hardware_ingest::text::{
    char_is_digit, char_is_space, char_lower, copy_range, decode_text, parse_unsigned, split_lines,
    split_words, str_chars, text_eq, text_is, to_lower, trim,
};

fn chars(s: &str) -> Vec<char> {
    s.chars().collect()
}

fn strings(v: Vec<Vec<char>>) -> Vec<String> {
    v.into_iter().map(|w| w.into_iter().collect()).collect()
}

#[test]
fn decoding_utf8() {
    assert_eq!(decode_text("héllo Ω".as_bytes()), Some(chars("héllo Ω")));
    assert_eq!(decode_text(b""), Some(vec![]));
    assert_eq!(decode_text(&[0x66, 0xff, 0x6f]), None);
    assert_eq!(decode_text(&[0xc3]), None);
    assert_eq!(str_chars("aß𝄞"), vec!['a', 'ß', '𝄞']);
}

#[test]
fn character_classes() {
    for c in [' ', '\t', '\n', '\r'] {
        assert!(char_is_space(c));
    }
    assert!(!char_is_space('a'));
    assert!(!char_is_space('\u{a0}'));
    assert!(char_is_digit('0') && char_is_digit('9'));
    assert!(!char_is_digit('/') && !char_is_digit(':') && !char_is_digit('٣'));
    assert_eq!(char_lower('A'), 'a');
    assert_eq!(char_lower('Z'), 'z');
    assert_eq!(char_lower('a'), 'a');
    assert_eq!(char_lower('['), '[');
    assert_eq!(char_lower('@'), '@');
    assert_eq!(char_lower('É'), 'É');
    assert_eq!(to_lower(&chars("KiCad_PCB.Ä")), chars("kicad_pcb.Ä"));
}

#[test]
fn comparing_and_copying() {
    assert!(text_is(&chars("solid"), "solid"));
    assert!(!text_is(&chars("solid"), "soli"));
    assert!(!text_is(&chars("soli"), "solid"));
    assert!(!text_is(&chars("solid"), "sol1d"));
    assert!(text_is(&[], ""));
    assert!(text_eq(&chars("abc"), &chars("abc")));
    assert!(!text_eq(&chars("abc"), &chars("abd")));
    assert!(!text_eq(&chars("abc"), &chars("ab")));
    assert_eq!(copy_range(&chars("abcdef"), 2, 5), chars("cde"));
    assert_eq!(copy_range(&chars("abcdef"), 3, 3), chars(""));
    assert_eq!(trim(&chars("  a b  ")), chars("a b"));
    assert_eq!(trim(&chars("   ")), chars(""));
    assert_eq!(trim(&chars("x")), chars("x"));
}

#[test]
fn words_and_lines() {
    assert_eq!(strings(split_words(&chars("  v 1.0\t2.0\r\n 3 "))), vec!["v", "1.0", "2.0", "3"]);
    assert_eq!(strings(split_words(&chars(""))), Vec::<String>::new());
    assert_eq!(strings(split_words(&chars(" \t "))), Vec::<String>::new());
    assert_eq!(strings(split_words(&chars("one"))), vec!["one"]);
    assert_eq!(strings(split_lines(&chars("a\n\nb c\n"))), vec!["a", "", "b c"]);
    assert_eq!(strings(split_lines(&chars("a\nb"))), vec!["a", "b"]);
    assert_eq!(strings(split_lines(&chars(""))), Vec::<String>::new());
    assert_eq!(strings(split_lines(&chars("\n"))), vec![""]);
    assert_eq!(strings(split_lines(&chars("x\r\ny"))), vec!["x\r", "y"]);
}

#[test]
fn unsigned_numbers() {
    assert_eq!(parse_unsigned(&chars("0")), Some(0));
    assert_eq!(parse_unsigned(&chars("0042")), Some(42));
    assert_eq!(parse_unsigned(&chars("18446744073709551615")), Some(u64::MAX));
    assert_eq!(parse_unsigned(&chars("18446744073709551616")), None);
    assert_eq!(parse_unsigned(&chars("99999999999999999999999")), None);
    assert_eq!(parse_unsigned(&chars("")), None);
    assert_eq!(parse_unsigned(&chars("12a")), None);
    assert_eq!(parse_unsigned(&chars("-1")), None);
    assert_eq!(parse_unsigned(&chars("+1")), None);
}

#[test]
fn file_names_and_extensions() {
    let ext = |p: &str| -> String { path_extension(&chars(p)).into_iter().collect() };
    let name = |p: &str| -> String { path_file_name(&chars(p)).into_iter().collect() };
    assert_eq!(ext("a/b/Model.STL"), "stl");
    assert_eq!(ext("archive.tar.GZ"), "gz");
    assert_eq!(ext(".hidden"), "");
    assert_eq!(ext("noext"), "");
    assert_eq!(ext("dir.d/file"), "");
    assert_eq!(ext("C:\\boards\\Main.KiCad_PCB"), "kicad_pcb");
    assert_eq!(ext("trailing."), "");
    assert_eq!(ext(""), "");
    assert_eq!(ext("a/.b.c"), "c");
    assert_eq!(ext("x.step/"), "step");
    assert_eq!(ext("models/part.STL/.//"), "stl");
    assert_eq!(ext("a.b/.."), "");
    assert_eq!(ext(".."), "");
    assert_eq!(ext("."), "");
    assert_eq!(ext("a/..b.c"), "c");
    assert_eq!(name("a/b/Model.STL"), "Model.STL");
    assert_eq!(name("plain"), "plain");
    assert_eq!(name("dir/"), "dir");
    assert_eq!(name("dir/sub/.\\"), "sub");
    assert_eq!(name("dir/.."), "");
    assert_eq!(name("../"), "");
    assert_eq!(name("./"), "");
    assert_eq!(name("/"), "");
    assert_eq!(name("..x"), "..x");
    assert_eq!(name("x."), "x.");
    assert_eq!(name("a\\b/c\\d.txt"), "d.txt");
    let e: String = file_name_extension(&chars("Data.Json")).into_iter().collect();
    assert_eq!(e, "json");
}

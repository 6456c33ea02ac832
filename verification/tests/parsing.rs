use semantic_memory_mcp::json::{
    copy_documents, json_to_string, parse_document, write_document, Fields, Json,
};
use semantic_memory_mcp::parsing::{
    parse_choice, parse_json, parse_json_value, parse_string_list, preview_of, read_choice,
    repair_json,
    strip_think_tags,
};
use semantic_memory_mcp::text::{
    cat4, chars_of, contains, copy_texts, decimal_text, has_white_space, holds, is_blank,
    is_white_space, join, parse_unsigned, same_text, split_words, strip_prefix, text_between,
    to_ascii_lowercase, trim,
};
use semantic_memory_mcp::trigrams::{larger_fraction, seven_tenths, Trigrams};
use serde_json::Value;

fn object(text: &str) -> Value {
    serde_json::from_str(text).unwrap()
}

#[test]
fn outputs_are_read_as_documents() {
    let answer = parse_json("Sure:\n```json\n{\"a\": [1, 2]}\n```").unwrap();
    assert_eq!(object(&answer)["a"][1], 2);
    assert_eq!(object(&parse_json_value("{\"a\": null}").unwrap())["a"], Value::Null);
    let unread = object(&parse_json("no document here").unwrap());
    assert_eq!(unread["ok"], false);
    assert_eq!(unread["input_preview"], "no document here");
    let unread = object(&parse_json_value("").unwrap());
    assert_eq!(unread["ok"], false);
    assert!(unread.get("input_preview").is_none());
}

#[test]
fn thoughts_are_stripped() {
    assert_eq!(strip_think_tags("<think>hm</think>answer"), "answer");
    assert_eq!(strip_think_tags("plain"), "plain");
}

#[test]
fn documents_are_repaired() {
    let repaired = repair_json("{'a': 1,}").unwrap();
    assert_eq!(object(&repaired)["a"], 1);
    let refused = object(&repair_json("not a document").unwrap());
    assert_eq!(refused["ok"], false);
    assert!(refused["error"].as_str().unwrap().starts_with("Could not repair JSON."));
}

#[test]
fn lists_and_choices_are_read() {
    assert_eq!(
        object(&parse_string_list("[\"a\", \"b\"]").unwrap()),
        object(r#"["a","b"]"#)
    );
    let options = vec!["yes".to_string(), "no".to_string()];
    assert_eq!(parse_choice("I would say yes.", &options).unwrap(), "yes");
    let refused = object(&parse_choice("neither", &options).unwrap());
    assert_eq!(refused["ok"], false);
    assert_eq!(refused["options"][1], "no");
}

#[test]
fn choices_may_start_with_any_letter() {
    let options = vec!["\u{e9}t\u{e9}".to_string(), "hiver".to_string()];
    assert_eq!(
        read_choice("Je dirais \u{c9}T\u{c9}, oui", &options).unwrap().unwrap(),
        "\u{e9}t\u{e9}"
    );
    assert_eq!(read_choice("plut\u{f4}t hiver", &options).unwrap().unwrap(), "hiver");
    assert_eq!(
        object(&read_choice("ni l'un", &options).unwrap().unwrap())["ok"],
        false
    );
    assert!(read_choice("x\u{e9}t\u{e9} hiver", &options).is_none());
    assert!(read_choice("hiver", &vec!["".to_string()]).is_none());
    let thought = "<think>x\u{e9}t\u{e9}</think>hiver";
    assert_eq!(read_choice(thought, &options).unwrap().unwrap(), "hiver");
}

#[test]
fn previews_are_cut_by_characters() {
    assert_eq!(preview_of("short"), "short");
    assert_eq!(preview_of(&"é".repeat(300)).chars().count(), 200);
}

#[test]
fn white_space_is_that_of_unicode() {
    for c in (0..=0x10FFFFu32).filter_map(char::from_u32) {
        assert_eq!(is_white_space(c), c.is_whitespace(), "{c:?}");
    }
    assert_eq!(trim("\u{2003} a b\n"), "a b");
    assert!(is_blank("\u{a0}\t"));
    assert!(!has_white_space("ab"));
    assert_eq!(split_words("  one\ttwo  three "), vec!["one", "two", "three"]);
}

#[test]
fn texts_are_cut_and_joined() {
    assert!(same_text("é", "é"));
    assert!(!same_text("a", "ab"));
    assert_eq!(strip_prefix("fact:x", "fact:"), Some("x".to_string()));
    assert_eq!(strip_prefix("fac", "fact:"), None);
    assert!(contains("abc", "bc"));
    assert!(contains("abc", ""));
    assert!(!contains("abc", "abcd"));
    assert_eq!(to_ascii_lowercase("ÀBC"), "Àbc");
    assert_eq!(cat4("a", "b", "c", "d"), "abcd");
    assert_eq!(text_between(&chars_of("héllo"), 1, 3), "él");
    let items = vec!["a".to_string(), "b".to_string()];
    assert_eq!(join(&items, "--"), "a--b");
    assert_eq!(join(&vec![], "--"), "");
    assert_eq!(copy_texts(&items), items);
    assert!(holds(&items, "b"));
    assert!(!holds(&items, "c"));
}

#[test]
fn numbers_are_read_and_written() {
    assert_eq!(decimal_text(0), "0");
    assert_eq!(decimal_text(u64::MAX), u64::MAX.to_string());
    assert_eq!(parse_unsigned("65535", 65_535), Some(65_535));
    assert_eq!(parse_unsigned("65536", 65_535), None);
    assert_eq!(parse_unsigned("+7", 10), "+7".parse::<u64>().ok());
    assert_eq!(parse_unsigned("", 10), None);
    assert_eq!(parse_unsigned("1_0", 100), None);
}

#[test]
fn documents_keep_what_they_hold() {
    let text = r#"{"a":[1,-2,0.5,"x",true,null],"b":{}}"#;
    let document = parse_document(text).unwrap();
    assert_eq!(write_document(&document), text);
    assert_eq!(
        json_to_string(&document).unwrap(),
        serde_json::to_string_pretty(&object(text)).unwrap()
    );
    assert_eq!(copy_documents(&vec![document.copy()]).len(), 1);
    assert!(parse_document("{").is_err());
    assert!(matches!(
        parse_document("18446744073709551615").unwrap(),
        Json::Unsigned(u64::MAX)
    ));
}

#[test]
fn objects_are_written_with_ordered_keys() {
    let built = Fields::new()
        .with_count("z", 1)
        .with_text("a", "quote \" and \u{1}")
        .with_null("m")
        .object();
    assert_eq!(write_document(&built), r#"{"a":"quote \" and \u0001","m":null,"z":1}"#);
    let changed = built.set("m", Json::Bool(true));
    assert!(changed.get_true("m"));
    assert_eq!(changed.get_text_or("z", "none"), "none");
    assert!(changed.get("q").is_none());
}

#[test]
fn members_are_read_by_type() {
    let document =
        parse_document(r#"{"list":["a","b"],"pairs":[["a","b"]],"mixed":["a",1]}"#).unwrap();
    assert_eq!(
        document.get("list").unwrap().as_text_list(),
        Some(vec!["a".to_string(), "b".to_string()])
    );
    assert_eq!(document.get("mixed").unwrap().as_text_list(), None);
    assert_eq!(
        document.get("pairs").unwrap().as_text_pairs(),
        Some(vec![("a".to_string(), "b".to_string())])
    );
    assert_eq!(document.get("list").unwrap().as_text_pairs(), None);
}

#[test]
fn similarity_is_shared_trigrams() {
    let a = Trigrams::of("Hello world");
    let b = Trigrams::of("hello WORLD");
    let (shared, total) = a.overlap(&b);
    assert_eq!(shared as u128, total);
    assert_eq!(a.overlap(&b), b.overlap(&a));
    let c = Trigrams::of("completely different");
    let (shared, total) = a.overlap(&c);
    assert!(!seven_tenths(shared, total));
    assert_eq!(a.overlap(&Trigrams::of("xyz")).0, 0);
    assert_eq!(Trigrams::of("").overlap(&Trigrams::of("")), (0, 0));
    assert_eq!(Trigrams::of("abcd").overlap(&Trigrams::of("abce")), (1, 3));
    assert!(seven_tenths(7, 10));
    assert!(!seven_tenths(69, 100));
    assert!(larger_fraction(1, 2, 1, 3));
    assert!(!larger_fraction(1, 3, 1, 3));
}

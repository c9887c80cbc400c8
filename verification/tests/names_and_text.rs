use workflow_engine::names::{
    ComponentName, EdgeId, FunctionName, InputName, InterfaceName, NodeId,
};
use workflow_engine::text::{
    ends_with, find_after_last, is_space_char, same, starts_with, trim, trim_end_of,
};

#[test]
fn names_are_shown_with_their_kind() {
    assert_eq!(ComponentName("hello".to_string()).to_string(), "component:hello");
    assert_eq!(FunctionName("greet".to_string()).to_string(), "func:greet");
    assert_eq!(InputName("name".to_string()).to_string(), "input:name");
    assert_eq!(NodeId("n1".to_string()).to_string(), "node:n1");
    assert_eq!(InterfaceName("wasi:cli".to_string()).to_string(), "interface:wasi:cli");
    assert_eq!(EdgeId("e1".to_string()).to_string(), "edge:e1");
    assert_eq!(NodeId(String::new()).to_string(), "node:");
}

#[test]
fn names_are_the_same_when_their_characters_are() {
    assert!(NodeId("a".to_string()).same(&NodeId("a".to_string())));
    assert!(!NodeId("a".to_string()).same(&NodeId("A".to_string())));
    assert!(!NodeId("a".to_string()).same(&NodeId("ab".to_string())));
    assert!(InputName("é".to_string()).same(&InputName("é".to_string())));
    assert!(ComponentName(String::new()).same(&ComponentName(String::new())));
    assert!(FunctionName("f".to_string()).same(&FunctionName("f".to_string())));
    assert!(!InterfaceName("i".to_string()).same(&InterfaceName("j".to_string())));
    assert!(!EdgeId("e".to_string()).same(&EdgeId("".to_string())));
}

#[test]
fn a_copy_of_a_name_is_the_name() {
    let id = NodeId("n1".to_string());
    assert_eq!(id.clone(), id);
}

#[test]
fn text_equality_is_by_characters() {
    assert!(same("", ""));
    assert!(same("héllo", "héllo"));
    assert!(!same("hello", "hellp"));
    assert!(!same("hello", "hell"));
    assert!(!same("é", "e"));
}

#[test]
fn prefixes() {
    assert!(starts_with("./a", "./"));
    assert!(starts_with("./", "./"));
    assert!(starts_with("abc", ""));
    assert!(!starts_with(".", "./"));
    assert!(!starts_with("", "/"));
    assert!(!starts_with("a/b", "/"));
    assert!(starts_with("éa", "é"));
}

#[test]
fn trimming_agrees_with_std() {
    for text in [
        "",
        " ",
        "a",
        " a",
        "a ",
        "  a b  ",
        "\t\n a\r\n",
        "\u{a0}a\u{2003}",
        "\u{3000}\u{85}x\u{1680}",
        "a\u{200b}",
        "\u{2028}\u{2029}\u{202f}\u{205f}",
        " é ",
    ] {
        assert_eq!(trim(text), text.trim(), "{text:?}");
    }
}

#[test]
fn white_space_is_what_std_says_it_is() {
    for code in 0u32..0x3100 {
        if let Some(c) = char::from_u32(code) {
            assert_eq!(is_space_char(c), c.is_whitespace(), "{code:#x}");
        }
    }
    assert!(!is_space_char('\u{feff}'));
    assert!(!is_space_char('\u{10ffff}'));
}

#[test]
fn suffixes() {
    assert!(ends_with("a.json", ".json"));
    assert!(ends_with(".json", ".json"));
    assert!(ends_with("abc", ""));
    assert!(!ends_with("json", ".json"));
    assert!(!ends_with("a.json ", ".json"));
    assert!(ends_with("aé", "é"));
}

#[test]
fn position_behind_the_last_occurrence() {
    assert_eq!(find_after_last("a/b/c", '/'), 4);
    assert_eq!(find_after_last("abc", '/'), 0);
    assert_eq!(find_after_last("", '/'), 0);
    assert_eq!(find_after_last("/", '/'), 1);
    assert_eq!(find_after_last("é.é", '.'), 2);
}

#[test]
fn trailing_characters_are_left_off() {
    assert_eq!(trim_end_of("a//", '/'), "a");
    assert_eq!(trim_end_of("a/b", '/'), "a/b");
    assert_eq!(trim_end_of("///", '/'), "");
    assert_eq!(trim_end_of("", '/'), "");
}

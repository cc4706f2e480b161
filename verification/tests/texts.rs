use cella::json::{copy, get, list, object, optional_texts, parse, render, text, texts, whole_under, Json};
use cella::names::NameMap;
use cella::path::{join as join_path, repo_name};
use cella::text::basic::{
    contains, ends_with, find, one_of, same, starts_with, strip_prefix, strip_suffix, trim,
    trim_end_of,
};
use cella::text::number::{decimal_text, hex16_text, hex_text, parse_number};
use cella::text::order::{sort, stands_before};
use cella::text::split::{join, lines, replace_char, split, split_once, words, Sep};

fn strings(list: &[&str]) -> Vec<String> {
    list.iter().map(|s| s.to_string()).collect()
}

const SAMPLES: [&str; 12] = [
    "", " ", "a", "a b", "\ta\u{a0}\u{3000}", "a\nb\r\n", "\r\n", "a\r", "\n\nx", "aXbXc", "日本", "aa",
];

#[test]
fn searching_as_std_does() {
    for s in SAMPLES {
        for p in ["", "a", "b", "aa", "\n", "本"] {
            assert_eq!(contains(s, p), s.contains(p));
            assert_eq!(starts_with(s, p), s.starts_with(p));
            assert_eq!(ends_with(s, p), s.ends_with(p));
            assert_eq!(strip_prefix(s, p).as_deref(), s.strip_prefix(p));
            assert_eq!(strip_suffix(s, p).as_deref(), s.strip_suffix(p));
            assert_eq!(find(s, p), s.find(p).map(|i| s[..i].chars().count()));
            assert_eq!(same(s, p), s == p);
        }
        assert_eq!(trim(s), s.trim());
        assert_eq!(trim_end_of(s, "a"), s.trim_end_matches("a"));
    }
    assert!(one_of(&strings(&["a", "b"]), "b") && !one_of(&strings(&["a"]), "c"));
}

#[test]
fn splitting_as_std_does() {
    for s in SAMPLES {
        assert_eq!(split(s, Sep::Char('X')), s.split('X').collect::<Vec<_>>());
        assert_eq!(words(s), s.split_whitespace().collect::<Vec<_>>());
        assert_eq!(lines(s), s.lines().collect::<Vec<_>>());
        assert_eq!(
            split_once(s, 'X'),
            s.split_once('X').map(|(a, b)| (a.to_string(), b.to_string()))
        );
        assert_eq!(replace_char(s, 'a', "<>"), s.replace('a', "<>"));
    }
    assert_eq!(join(&strings(&["a", "", "b"]), ", "), "a, , b");
    assert_eq!(join(&vec![], ", "), "");
}

#[test]
fn numerals_as_std_does() {
    for n in [0, 7, 10, 255, 4096, u64::MAX] {
        assert_eq!(decimal_text(n), n.to_string());
        assert_eq!(hex_text(n), format!("{n:x}"));
        assert_eq!(hex16_text(n), format!("{n:016x}"));
        assert_eq!(parse_number(&decimal_text(n), u64::MAX), Some(n));
    }
    for s in ["", "+", "+5", "-0", "007", "18446744073709551616", "1 ", "٣"] {
        assert_eq!(parse_number(s, u64::MAX), s.parse::<u64>().ok());
        assert_eq!(parse_number(s, u16::MAX as u64), s.parse::<u16>().ok().map(|n| n as u64));
    }
}

#[test]
fn order_as_std_has_it() {
    let list = ["b", "a", "aa", "B", "é", "", "a", "z", "日"];
    let mut sorted = strings(&list);
    sorted.sort();
    assert_eq!(sort(strings(&list)), sorted);
    for a in list {
        for b in list {
            assert_eq!(stands_before(a, b), a <= b);
        }
    }
}

#[test]
fn paths_joined_as_std_does() {
    for base in ["", "/", "/a", "/a/", "a", "."] {
        for part in ["", "b", "/b", "b/c", "../b"] {
            assert_eq!(join_path(base, part), std::path::Path::new(base).join(part).to_str().unwrap());
        }
    }
    assert_eq!(repo_name("/home/me/app"), "app");
    assert_eq!(repo_name("/"), "unknown");
}

#[test]
fn names_map() {
    let mut m: NameMap<u32> = NameMap::new();
    assert!(m.is_empty());
    m.insert("a".to_string(), 1);
    m.insert("b".to_string(), 2);
    m.insert("a".to_string(), 3);
    assert_eq!(m.get("a"), Some(&3));
    assert!(m.contains_key("b") && !m.contains_key("c"));
    let mut names = m.names();
    names.sort();
    assert_eq!(names, vec!["a", "b"]);
    assert!(m.remove("a") && !m.remove("a"));
    assert_eq!(m.get("a"), None);
}

#[test]
fn json_read_and_printed() {
    for (written, printed) in [
        ("{\"b\": 1, \"a\": [null, true, \"x\\n\"]}", "{\"a\":[null,true,\"x\\n\"],\"b\":1}"),
        ("-1.5", "-1.5"),
        ("18446744073709551615", "18446744073709551615"),
        ("{\"a\":1,\"a\":2}", "{\"a\":2}"),
    ] {
        let j = parse(written).unwrap();
        assert_eq!(render(&j), printed);
        assert_eq!(render(&copy(&j)), printed);
    }
    let e = parse("{").err().unwrap();
    assert_eq!(e, "EOF while parsing an object at line 1 column 1");
    let j = parse("{\"n\": 7, \"t\": \"x\"}").unwrap();
    assert_eq!(whole_under(&j, "n"), Some(7));
    assert_eq!(whole_under(&j, "t"), None);
    assert!(get(&j, "z").is_none());
}

#[test]
fn json_put_together() {
    let j = object(vec![
        ("l".to_string(), list(vec![text("a"), Json::Bool(false)])),
        ("t".to_string(), texts(&strings(&["x"]))),
        ("n".to_string(), optional_texts(&None)),
        ("s".to_string(), optional_texts(&Some(vec![]))),
    ]);
    assert_eq!(render(&j), "{\"l\":[\"a\",false],\"n\":null,\"s\":[],\"t\":[\"x\"]}");
}

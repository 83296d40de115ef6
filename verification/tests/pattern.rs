//! The scanner against the `regex` crate running the same pattern.

use abi::pattern::find_matches;
use regex::Regex;

const PATTERN: &str = r#"\((?P<k1>[a-zA-Z0-9_-]+)\s*,\s*(?P<k2>[a-zA-Z0-9_-]+)\)=\((?P<v1>[a-zA-Z0-9_-]+)\s*,\s*\[(?P<v2>[^\)\]]+)"#;

fn with_regex(s: &str) -> Vec<[String; 4]> {
    let re = Regex::new(PATTERN).unwrap();
    re.captures_iter(s)
        .map(|cap| {
            [
                cap["k1"].to_string(),
                cap["k2"].to_string(),
                cap["v1"].to_string(),
                cap["v2"].to_string(),
            ]
        })
        .collect()
}

fn with_scanner(s: &str) -> Vec<[String; 4]> {
    let chars: Vec<char> = s.chars().collect();
    let text = |a: usize, b: usize| chars[a..b].iter().collect::<String>();
    find_matches(&chars)
        .iter()
        .map(|c| {
            [
                text(c.key1.start, c.key1.end),
                text(c.key2.start, c.key2.end),
                text(c.value1.start, c.value1.end),
                text(c.value2.start, c.value2.end),
            ]
        })
        .collect()
}

#[test]
fn scanner_agrees_with_regex() {
    let samples = [
        "Key (resource_id, timespan)=(ocean-view-room-713, [\"2023-08-16 22:00:00+00\",\"2023-08-30 22:00:00+00\")) conflicts with existing key (resource_id, timespan)=(ocean-view-room-713, [\"2023-08-15 22:00:00+00\",\"2023-08-25 22:00:00+00\")).",
        "",
        "(",
        "(a,b)=(c,[",
        "(a,b)=(c,[d",
        "(a,b)=(c,[d]",
        "((a,b)=(c,[d)",
        "(a , b)=(c ,\u{3000}[x(y)z",
        "(a,b)=(c,[ d ](e,f)=(g,[h)",
        "(a\u{a0},\u{2028}b)=(c\n,\t[v1)(x,y)=(z,[w",
        "(a,b) =(c,[d)",
        "(a,b)=(c,[[[)",
        "(é,b)=(c,[d)(a,b)=(c,[é\u{85})",
        "(a,b)=(c,[d)(a,b)=(c,[e)(a,b)=(c,[f",
        "x(a,,b)=(c,[d)(a,b)=(,[d)(a,b)=(c,d)",
    ];
    for s in samples {
        assert_eq!(with_scanner(s), with_regex(s), "on {:?}", s);
    }
}

#[test]
fn scanner_finds_nothing_in_plain_text() {
    let chars: Vec<char> = "no parentheses at all".chars().collect();
    assert!(find_matches(&chars).is_empty());
}

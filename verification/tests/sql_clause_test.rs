use regex::Regex;
use stellar_k8s::char_class::{is_decimal_digit, is_word_char};
use stellar_k8s::maintenance::query_profiler::{equality_clause_columns, from_clause_table};

const QUERIES: &[&str] = &[
    "SELECT * FROM accounts WHERE account_id = $1",
    "select * from public.accounts where id = 5 and seq = $2",
    "SELECT * FROM ledgers",
    "SELECT * FROM ledgers, accounts WHERE a.x = 1",
    "SELECT * FROMx accounts",
    "SELECT x FROM   offers\tWHERE seller = 10 OR buyer=$3 AND amount = 4x",
    "update t set a = 1 where b = 2",
    "SELECT * FROM tablé WHERE colé = 1",
    "SELECT * FROM a(b)",
    "xfrom t WHERE k = 1 AND j = 22_",
    "SELECT * FROM ſomething where ſ = 1",
    "WHERE a = $ 1 AND b = $12 OR c =  7 ORDER BY d",
    "select from",
    "",
    "FROM t where a.b.c = 9, and d = 1",
    "SELECT * FROM t WHERE x = 1\u{3000}AND y = 2",
];

#[test]
fn from_clause_matches_the_regex() {
    let re = Regex::new(r"(?i)\bFROM\s+([a-zA-Z_][\w\.]*)(?:\s|$)").unwrap();
    for q in QUERIES {
        let expected = re.captures(q).and_then(|c| c.get(1)).map(|m| m.as_str().to_string());
        assert_eq!(from_clause_table(q), expected, "query {q:?}");
    }
}

#[test]
fn equality_clauses_match_the_regex() {
    let re = Regex::new(r"(?i)(?:WHERE|AND|OR)\s+([a-zA-Z_][\w\.]*)\s*=\s*[$]?[0-9]+(?:\b|\s)").unwrap();
    for q in QUERIES {
        let expected: Vec<String> =
            re.captures_iter(q).filter_map(|c| c.get(1)).map(|m| m.as_str().to_string()).collect();
        assert_eq!(equality_clause_columns(q), expected, "query {q:?}");
    }
}

#[test]
fn character_classes_match_the_regex() {
    let digit = Regex::new(r"^\d$").unwrap();
    let word = Regex::new(r"^\w$").unwrap();
    let samples = (0u32..128).chain((128u32..0x3100).step_by(7)).chain([0x5f, 0x300, 0x660, 0x200c, 0x203f, 0xff10, 0x1d7ce]);
    for code in samples {
        if let Some(c) = char::from_u32(code) {
            let text = c.to_string();
            assert_eq!(is_decimal_digit(c), digit.is_match(&text), "digit {code:#x}");
            assert_eq!(is_word_char(c), word.is_match(&text), "word {code:#x}");
        }
    }
}

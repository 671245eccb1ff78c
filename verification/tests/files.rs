use cfgloader::dotenv::{merge_lines, parse_file, parse_lines, preload, preload_first, strip_bom};
use cfgloader::{load_env_file, load_env_file_iter, CfgError, Env, FileRead, Line, Preload};

fn content(text: &str) -> FileRead {
    FileRead::Content(text.as_bytes().to_vec())
}

fn entry(key: &str, value: &str) -> Line {
    Line::Entry { key: key.to_string(), value: value.to_string() }
}

fn failure(not_found: bool, text: &str) -> Line {
    Line::Failure { not_found, text: text.to_string() }
}

fn load_failure(text: &str) -> CfgError {
    CfgError::LoadError { msg: "failed to load .env file".to_string(), source: text.to_string() }
}

fn no_file() -> CfgError {
    CfgError::LoadError {
        msg: "no .env file found in any provided path".to_string(),
        source: "not found".to_string(),
    }
}

#[test]
fn file_entries_fill_unset_keys() {
    let mut env = Env::new();
    let r = load_env_file(&mut env, &content("A=1\nB = two\n# note\n\nexport C=\"3 4\"\n"));
    assert_eq!(r, Ok(()));
    assert_eq!(env.get("A"), Some("1".to_string()));
    assert_eq!(env.get("B"), Some("two".to_string()));
    assert_eq!(env.get("C"), Some("3 4".to_string()));
    assert_eq!(env.get("D"), None);
}

#[test]
fn file_does_not_override_what_is_set() {
    let mut env = Env::new();
    env.set("KEY".to_string(), "1".to_string());
    let r = load_env_file(&mut env, &content("KEY=2\nOTHER=3\n"));
    assert_eq!(r, Ok(()));
    assert_eq!(env.get("KEY"), Some("1".to_string()));
    assert_eq!(env.get("OTHER"), Some("3".to_string()));
}

#[test]
fn first_of_two_entries_for_a_key_is_applied() {
    let mut env = Env::new();
    assert_eq!(load_env_file(&mut env, &content("K=first\nK=second\n")), Ok(()));
    assert_eq!(env.get("K"), Some("first".to_string()));
}

#[test]
fn missing_file_is_no_error_and_changes_nothing() {
    let mut env = Env::new();
    env.set("A".to_string(), "1".to_string());
    assert_eq!(load_env_file(&mut env, &FileRead::Missing), Ok(()));
    assert_eq!(env.get("A"), Some("1".to_string()));
    assert_eq!(env.get("B"), None);
}

#[test]
fn unreadable_file_is_a_load_error() {
    let mut env = Env::new();
    let r = load_env_file(&mut env, &FileRead::Unreadable("permission denied".to_string()));
    assert_eq!(r, Err(load_failure("permission denied")));
}

#[test]
fn malformed_line_is_a_load_error_and_keeps_what_came_before() {
    let mut env = Env::new();
    let r = load_env_file(&mut env, &content("A=1\nthis is bad\nB=2\n"));
    assert_eq!(
        r,
        Err(load_failure("Error parsing line: 'this is bad', error at line index: 5"))
    );
    assert_eq!(env.get("A"), Some("1".to_string()));
    assert_eq!(env.get("B"), None);
}

#[test]
fn text_that_is_no_utf8_is_a_load_error() {
    let mut env = Env::new();
    let r = load_env_file(&mut env, &FileRead::Content(vec![b'A', b'=', 0xFF, 0xFE, b'\n']));
    match r {
        Err(CfgError::LoadError { msg, .. }) => assert_eq!(msg, "failed to load .env file"),
        other => panic!("no load error: {other:?}"),
    }
    assert_eq!(env.get("A"), None);
}

#[test]
fn byte_order_mark_is_skipped() {
    let mut env = Env::new();
    let mut bytes = vec![0xEF, 0xBB, 0xBF];
    bytes.extend_from_slice(b"A=1\n");
    assert_eq!(load_env_file(&mut env, &FileRead::Content(bytes)), Ok(()));
    assert_eq!(env.get("A"), Some("1".to_string()));
}

#[test]
fn strip_bom_takes_off_the_mark_only() {
    assert_eq!(strip_bom(&[0xEF, 0xBB, 0xBF, b'A']), &[b'A']);
    assert_eq!(strip_bom(&[0xEF, 0xBB, 0xBF]), &[] as &[u8]);
    assert_eq!(strip_bom(&[0xEF, 0xBB, b'A']), &[0xEF, 0xBB, b'A']);
    assert_eq!(strip_bom(&[]), &[] as &[u8]);
    assert_eq!(strip_bom(b"A=1"), b"A=1");
}

#[test]
fn parse_lines_gives_entries_and_failures_in_order() {
    let lines = parse_lines(b"CFGLOADER_T1=1\n'bad\nCFGLOADER_T2=${CFGLOADER_T1}2\n");
    assert_eq!(lines.len(), 2);
    assert_eq!(lines[0], entry("CFGLOADER_T1", "1"));
    match &lines[1] {
        Line::Failure { not_found, .. } => assert!(!*not_found),
        other => panic!("no failure: {other:?}"),
    }
    let lines = parse_lines(b"CFGLOADER_T1=1\nCFGLOADER_T2=${CFGLOADER_T1}2\n");
    assert_eq!(lines, vec![entry("CFGLOADER_T1", "1"), entry("CFGLOADER_T2", "12")]);
}

#[test]
fn parse_file_keeps_missing_and_unreadable() {
    assert_eq!(parse_file(&FileRead::Missing), Preload::Missing);
    assert_eq!(
        parse_file(&FileRead::Unreadable("why".to_string())),
        Preload::Unreadable("why".to_string())
    );
    assert_eq!(parse_file(&content("A=1")), Preload::Lines(vec![entry("A", "1")]));
}

#[test]
fn merge_stops_at_the_first_failure() {
    let mut env = Env::new();
    let lines = vec![entry("A", "1"), failure(false, "bad"), entry("B", "2")];
    assert_eq!(merge_lines(&mut env, &lines), Err(load_failure("bad")));
    assert_eq!(env.get("A"), Some("1".to_string()));
    assert_eq!(env.get("B"), None);
}

#[test]
fn merge_takes_a_source_not_found_for_its_end() {
    let mut env = Env::new();
    let lines = vec![entry("A", "1"), failure(true, "gone"), entry("B", "2")];
    assert_eq!(merge_lines(&mut env, &lines), Ok(()));
    assert_eq!(env.get("A"), Some("1".to_string()));
    assert_eq!(env.get("B"), None);
}

#[test]
fn preload_of_each_kind() {
    let mut env = Env::new();
    assert_eq!(preload(&mut env, &Preload::Missing), Ok(()));
    assert_eq!(preload(&mut env, &Preload::Unreadable("x".to_string())), Err(load_failure("x")));
    assert_eq!(preload(&mut env, &Preload::Lines(vec![entry("A", "1")])), Ok(()));
    assert_eq!(env.get("A"), Some("1".to_string()));
}

#[test]
fn preload_twice_is_preload_once() {
    let file = Preload::Lines(vec![entry("A", "1"), entry("B", "2"), entry("A", "3")]);
    let mut once = Env::new();
    once.set("B".to_string(), "0".to_string());
    assert_eq!(preload(&mut once, &file), Ok(()));
    let mut twice = Env::new();
    twice.set("B".to_string(), "0".to_string());
    assert_eq!(preload(&mut twice, &file), Ok(()));
    assert_eq!(preload(&mut twice, &file), Ok(()));
    for key in ["A", "B", "C"] {
        assert_eq!(once.get(key), twice.get(key));
    }
    assert_eq!(once.get("A"), Some("1".to_string()));
    assert_eq!(once.get("B"), Some("0".to_string()));
}

#[test]
fn no_candidate_is_an_error() {
    let mut env = Env::new();
    assert_eq!(load_env_file_iter(&mut env, &vec![]), Err(no_file()));
    assert_eq!(preload_first(&mut env, &vec![]), Err(no_file()));
}

#[test]
fn first_candidate_without_error_wins() {
    let mut env = Env::new();
    let files = vec![
        FileRead::Unreadable("denied".to_string()),
        content("A=1\n"),
        content("A=2\nB=2\n"),
    ];
    assert_eq!(load_env_file_iter(&mut env, &files), Ok(()));
    assert_eq!(env.get("A"), Some("1".to_string()));
    assert_eq!(env.get("B"), None);
}

#[test]
fn missing_candidate_counts_as_taken_in() {
    let mut env = Env::new();
    let files = vec![FileRead::Missing, content("A=1\n")];
    assert_eq!(load_env_file_iter(&mut env, &files), Ok(()));
    assert_eq!(env.get("A"), None);
}

#[test]
fn where_every_candidate_fails_the_last_error_is_reported() {
    let mut env = Env::new();
    let files = vec![
        FileRead::Unreadable("first".to_string()),
        content("A=1\n=bad\n"),
        FileRead::Unreadable("last".to_string()),
    ];
    assert_eq!(load_env_file_iter(&mut env, &files), Err(load_failure("last")));
    assert_eq!(env.get("A"), Some("1".to_string()));
}

#[test]
fn text_without_any_byte_has_no_lines() {
    assert_eq!(parse_lines(b""), vec![]);
    assert_eq!(parse_lines(&[0xEF, 0xBB, 0xBF]), vec![]);
    let mut env = Env::new();
    env.set("A".to_string(), "1".to_string());
    assert_eq!(load_env_file(&mut env, &content("")), Ok(()));
    assert_eq!(env.get("A"), Some("1".to_string()));
}

fn is_key(s: &str) -> bool {
    let start = |c: char| c.is_ascii_alphabetic() || c == '_';
    s.chars().next().map_or(false, start)
        && s.chars().all(|c| c.is_ascii_alphanumeric() || c == '_' || c == '.')
}

#[test]
fn entries_name_their_variables_properly() {
    let texts: [&[u8]; 10] = [
        b"A=1\n_b.c9=2\nexport Z_1=3\nexport=4\n",
        b"1A=1\n",
        b".A=1\n",
        b"-A=1\n",
        b"A-B=1\n",
        b"A B=1\n",
        b" \tA=1\n",
        "Ä=1\n".as_bytes(),
        "A\u{00e9}=1\n".as_bytes(),
        b"=1\n",
    ];
    for text in texts {
        for line in parse_lines(text) {
            if let Line::Entry { key, .. } = line {
                assert!(is_key(&key), "{key:?}");
            }
        }
    }
    assert_eq!(
        parse_lines(b"A=1\n_b.c9=2\nexport Z_1=3\nexport=4\n"),
        vec![entry("A", "1"), entry("_b.c9", "2"), entry("Z_1", "3"), entry("export", "4")]
    );
    for text in [&b"1A=1\n"[..], b".A=1\n", b"-A=1\n", b"A-B=1\n", b"=1\n"] {
        let lines = parse_lines(text);
        assert_eq!(lines.len(), 1);
        assert!(matches!(lines[0], Line::Failure { not_found: false, .. }));
    }
}

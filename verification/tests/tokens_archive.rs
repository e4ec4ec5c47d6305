use std::io::Write;

use ceremony_coordinator::archive::parse_token_archive;
use ceremony_coordinator::coordinator::CoordinatorState;
use ceremony_coordinator::errors::ResponseError;
use ceremony_coordinator::participant::Participant;
use ceremony_coordinator::tokens::{check_token_format, TokenStore};

fn build_archive(cohorts: &[&[&str]]) -> Vec<u8> {
    let cursor = std::io::Cursor::new(Vec::new());
    let mut writer = zip::ZipWriter::new(cursor);
    let options = zip::write::FileOptions::default();
    for (i, cohort) in cohorts.iter().enumerate() {
        writer.start_file(format!("cohort_{}.json", i), options).unwrap();
        let tokens: Vec<String> = cohort.iter().map(|t| t.to_string()).collect();
        let body = serde_json::to_vec(&tokens).unwrap();
        writer.write_all(&body).unwrap();
    }
    writer.finish().unwrap().into_inner()
}

#[test]
fn token_format() {
    assert!(check_token_format("aaaaaaaaaaaaaaaaaaaa"));
    assert!(check_token_format("0123456789ABCDEFabcd"));
    assert!(!check_token_format("zzzzzzzzzzzzzzzzzzzz"));
    assert!(!check_token_format("aaaaaaaaaaaaaaaaaaa")); // 19 digits
    assert!(!check_token_format("aaaaaaaaaaaaaaaaaaaaa")); // 21 digits
    assert!(!check_token_format(""));
}

#[test]
fn check_token_kinds() {
    let store = TokenStore::new(vec![vec!["aaaaaaaaaaaaaaaaaaaa".to_string()]], 0);
    store.check_token(&"aaaaaaaaaaaaaaaaaaaa".to_string()).unwrap();
    assert!(matches!(
        store.check_token(&"not hex".to_string()),
        Err(ResponseError::InvalidTokenFormat)
    ));
    assert!(matches!(
        store.check_token(&"1111111111111111111f".to_string()),
        Err(ResponseError::InvalidToken(0))
    ));

    let exhausted = TokenStore::new(vec![vec!["aaaaaaaaaaaaaaaaaaaa".to_string()]], 1);
    assert!(matches!(
        exhausted.check_token(&"aaaaaaaaaaaaaaaaaaaa".to_string()),
        Err(ResponseError::CeremonyIsOver)
    ));
}

#[test]
fn archive_round_trip() {
    let bytes = build_archive(&[
        &["aaaaaaaaaaaaaaaaaaaa", "bbbbbbbbbbbbbbbbbbbb"],
        &["cccccccccccccccccccc"],
    ]);
    let cohorts = parse_token_archive(&bytes).unwrap();
    assert_eq!(cohorts.len(), 2);
    assert_eq!(cohorts[0], vec!["aaaaaaaaaaaaaaaaaaaa", "bbbbbbbbbbbbbbbbbbbb"]);
    assert_eq!(cohorts[1], vec!["cccccccccccccccccccc"]);
}

#[test]
fn archive_bad_bytes() {
    let err = parse_token_archive(&b"this is not a zip file".to_vec()).unwrap_err();
    assert!(matches!(err, ResponseError::IoError(_)));
}

#[test]
fn archive_bad_entry() {
    let cursor = std::io::Cursor::new(Vec::new());
    let mut writer = zip::ZipWriter::new(cursor);
    let options = zip::write::FileOptions::default();
    writer.start_file("cohort_0.json", options).unwrap();
    writer.write_all(b"{\"not\": \"a list\"}").unwrap();
    let bytes = writer.finish().unwrap().into_inner();
    let err = parse_token_archive(&bytes).unwrap_err();
    assert!(matches!(err, ResponseError::SerdeError(_)));
}

#[test]
fn cohort_update_keeps_current_set() {
    // Replacing the archive is accepted only when the current cohort's
    // token set is exactly what it was; future cohorts may change freely.
    let mut store = TokenStore::new(
        vec![
            vec!["aaaaaaaaaaaaaaaaaaaa".to_string(), "bbbbbbbbbbbbbbbbbbbb".to_string()],
            vec!["cccccccccccccccccccc".to_string()],
        ],
        0,
    );
    let new_cohorts = vec![
        // Same set, different order: accepted.
        vec!["bbbbbbbbbbbbbbbbbbbb".to_string(), "aaaaaaaaaaaaaaaaaaaa".to_string()],
        vec!["dddddddddddddddddddd".to_string()],
    ];
    store.check_new_tokens(&new_cohorts).unwrap();
    store.update_tokens(new_cohorts).unwrap();
    assert_eq!(store.tokens(1).unwrap()[0], "dddddddddddddddddddd");
}

#[test]
fn cohort_update_drift_is_refused() {
    // An archive in which cohort 0 differs from the current set by one
    // token is refused and nothing changes.
    let mut store = TokenStore::new(
        vec![vec!["aaaaaaaaaaaaaaaaaaaa".to_string(), "bbbbbbbbbbbbbbbbbbbb".to_string()]],
        0,
    );
    let drifted = vec![vec![
        "aaaaaaaaaaaaaaaaaaaa".to_string(),
        "eeeeeeeeeeeeeeeeeeee".to_string(),
    ]];
    let err = store.update_tokens(drifted).unwrap_err();
    assert_eq!(err.http_status(), 400);
    assert!(matches!(err, ResponseError::InvalidNewTokens));
    assert_eq!(
        store.tokens(0).unwrap().clone(),
        vec!["aaaaaaaaaaaaaaaaaaaa".to_string(), "bbbbbbbbbbbbbbbbbbbb".to_string()]
    );
}

#[test]
fn cohort_update_through_archive() {
    // The full update path: parse a drifted archive, and the coordinator
    // refuses it while its tokens stay usable.
    let verifier = Participant::new_verifier("v");
    let store = TokenStore::new(vec![vec!["aaaaaaaaaaaaaaaaaaaa".to_string()]], 0);
    let mut state = CoordinatorState::new(store, vec![verifier]);

    let drifted = build_archive(&[&["ffffffffffffffffffff"]]);
    let cohorts = parse_token_archive(&drifted).unwrap();
    assert!(matches!(
        state.update_tokens(cohorts),
        Err(ResponseError::InvalidNewTokens)
    ));
    state.tokens.check_token(&"aaaaaaaaaaaaaaaaaaaa".to_string()).unwrap();

    let same = build_archive(&[&["aaaaaaaaaaaaaaaaaaaa"], &["99999999999999999999"]]);
    let cohorts = parse_token_archive(&same).unwrap();
    state.update_tokens(cohorts).unwrap();
    state.tokens.check_token(&"aaaaaaaaaaaaaaaaaaaa".to_string()).unwrap();
}

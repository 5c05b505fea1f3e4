use ksu_webui::failure::Failure;
use ksu_webui::feature::{set_feature_persist, FeatureId, SetEvent, SetStep, ALL_FEATURES};
use ksu_webui::panel::PANEL_HTML;
use ksu_webui::status::{status_json, Reading, Status};
use ksu_webui::token::{
    constant_time_eq, load_or_create_token, new_token, same_token, stored_token, token_path,
    TokenEvent, TokenStep, TOKEN_FILE_MODE,
};
use std::collections::HashMap;

const PATH: &str = "/data/adb/ksu/webui_token";

fn failed(message: &str) -> Failure {
    Failure::new(message.to_string())
}

fn messages(e: Failure) -> Vec<String> {
    let mut all = vec![e.message];
    all.extend(e.causes);
    all
}

fn token_error(step: TokenStep) -> Vec<String> {
    match step {
        TokenStep::Done(Err(e)) => messages(e),
        other => panic!("{other:?}"),
    }
}

fn set_error(step: SetStep) -> Vec<String> {
    match step {
        SetStep::Done(Err(e)) => messages(e),
        other => panic!("{other:?}"),
    }
}

#[test]
fn a_failure_keeps_its_causes_apart() {
    let e = failed("denied");
    assert_eq!(e.describe(), "denied");
    let e = e.causing("cannot open".to_string()).causing("no token".to_string());
    assert_eq!(e.describe(), "no token: cannot open: denied");
    assert_eq!(messages(e), ["no token", "cannot open", "denied"]);
}

#[test]
fn bytes_are_compared_whole() {
    assert!(constant_time_eq(b"", b""));
    assert!(constant_time_eq(b"abc", b"abc"));
    assert!(!constant_time_eq(b"abc", b"abd"));
    assert!(!constant_time_eq(b"xbc", b"abc"));
    assert!(!constant_time_eq(b"ab", b"abc"));
    assert!(!constant_time_eq(&[0x80], &[0x00]));
    assert!(same_token("ü", "ü"));
    assert!(!same_token("ü", "u"));
}

#[test]
fn the_token_file_stands_in_the_working_directory() {
    assert_eq!(token_path("/data/adb/ksu/"), PATH);
    assert_eq!(token_path("/data/adb/ksu"), PATH);
    assert_eq!(token_path(""), "webui_token");
    assert_eq!(TOKEN_FILE_MODE, 0o600);
}

#[test]
fn a_stored_token_is_trimmed() {
    assert_eq!(stored_token(Some(" abc\n")), Some("abc".to_string()));
    assert_eq!(stored_token(Some(" \n\t")), None);
    assert_eq!(stored_token(Some("")), None);
    assert_eq!(stored_token(None), None);
}

#[test]
fn a_new_token_is_made_of_sixteen_bytes() {
    let bytes: Vec<u8> = (0xf0..=0xff).collect();
    assert_eq!(new_token(&bytes), "f0f1f2f3f4f5f6f7f8f9fafbfcfdfeff");
    let mut longer = bytes.clone();
    longer.push(7);
    assert_eq!(new_token(&longer), new_token(&bytes));
    assert_eq!(new_token(&[0xab]), "ab000000000000000000000000000000");
    assert_eq!(new_token(&[]), "00000000000000000000000000000000");
    assert_ne!(new_token(&[1]), new_token(&[2]));
}

#[test]
fn a_token_on_file_is_used() {
    let step = load_or_create_token(
        PATH,
        TokenStep::ReadFile,
        TokenEvent::Contents(Some("secret\n".to_string())),
    );
    assert!(matches!(step, TokenStep::Done(Ok(t)) if t == "secret"));
}

#[test]
fn a_missing_token_is_made_written_and_read_back() {
    let step = load_or_create_token(PATH, TokenStep::ReadFile, TokenEvent::Contents(None));
    assert!(matches!(step, TokenStep::ReadRandom));
    let step = load_or_create_token(PATH, step, TokenEvent::Random(Ok(vec![0x5a; 16])));
    assert!(matches!(step, TokenStep::CreateDirectory { .. }));
    let step = load_or_create_token(PATH, step, TokenEvent::Directory(Ok(())));
    let written = match &step {
        TokenStep::WriteFile { token, mode: 0o600 } => token.clone(),
        other => panic!("{other:?}"),
    };
    assert_eq!(written, "5a".repeat(16));
    let step = load_or_create_token(PATH, step, TokenEvent::Written(Ok(())));
    assert!(matches!(step, TokenStep::Restrict { mode: 0o600, .. }));
    let step = load_or_create_token(PATH, step, TokenEvent::Restricted(Ok(())));
    assert!(matches!(step, TokenStep::Done(Ok(t)) if t == written));
    let again = load_or_create_token(
        PATH,
        TokenStep::ReadFile,
        TokenEvent::Contents(Some(written.clone())),
    );
    assert!(matches!(again, TokenStep::Done(Ok(t)) if t == written));
}

#[test]
fn a_blank_token_file_counts_as_missing() {
    let step = load_or_create_token(
        PATH,
        TokenStep::ReadFile,
        TokenEvent::Contents(Some(" \n".to_string())),
    );
    assert!(matches!(step, TokenStep::ReadRandom));
}

#[test]
fn why_there_is_no_token_is_said() {
    let step = load_or_create_token(
        PATH,
        TokenStep::ReadRandom,
        TokenEvent::Random(Err(failed("denied"))),
    );
    assert_eq!(token_error(step), ["failed to read /dev/urandom", "denied"]);
    let step = load_or_create_token(
        PATH,
        TokenStep::CreateDirectory { token: "t".to_string() },
        TokenEvent::Directory(Err(failed("no directory"))),
    );
    assert_eq!(token_error(step), ["no directory"]);
    let step = load_or_create_token(
        PATH,
        TokenStep::WriteFile { token: "t".to_string(), mode: 0o600 },
        TokenEvent::Written(Err(failed("disk full"))),
    );
    assert_eq!(
        token_error(step),
        ["failed to write /data/adb/ksu/webui_token", "disk full"]
    );
}

#[test]
fn a_token_that_others_may_read_is_not_handed_out() {
    let step = load_or_create_token(
        PATH,
        TokenStep::Restrict { token: "t".to_string(), mode: 0o600 },
        TokenEvent::Restricted(Err(failed("not permitted"))),
    );
    assert_eq!(
        token_error(step),
        ["failed to restrict /data/adb/ksu/webui_token", "not permitted"]
    );
}

#[test]
fn an_outcome_of_something_else_leaves_the_token_pending() {
    let step = load_or_create_token(PATH, TokenStep::ReadFile, TokenEvent::Written(Ok(())));
    assert!(matches!(step, TokenStep::ReadFile));
}

#[test]
fn a_feature_is_applied_and_saved() {
    let step = set_feature_persist(SetStep::Resolve { id: 3, value: 1 }, SetEvent::Known(true));
    assert!(matches!(step, SetStep::Apply { id: 3, value: 1 }));
    let step = set_feature_persist(step, SetEvent::Applied(Ok(())));
    assert!(matches!(step, SetStep::LoadConfig { id: 3, value: 1 }));
    let saved = HashMap::from([(3, 0), (4, 9)]);
    let step = set_feature_persist(step, SetEvent::Config(Some(saved)));
    match &step {
        SetStep::SaveConfig { config } => {
            assert_eq!(config, &HashMap::from([(3, 1), (4, 9)]));
        }
        other => panic!("{other:?}"),
    }
    let step = set_feature_persist(step, SetEvent::Saved(Ok(())));
    assert!(matches!(step, SetStep::Done(Ok(()))));
}

#[test]
fn a_missing_config_starts_empty() {
    let step = set_feature_persist(
        SetStep::LoadConfig { id: 7, value: u64::MAX },
        SetEvent::Config(None),
    );
    assert!(matches!(step, SetStep::SaveConfig { config } if config == HashMap::from([(7, u64::MAX)])));
}

#[test]
fn an_unknown_feature_is_not_applied() {
    let step = set_feature_persist(SetStep::Resolve { id: 4294967295, value: 1 }, SetEvent::Known(false));
    assert_eq!(set_error(step), ["unknown feature id 4294967295"]);
}

#[test]
fn a_feature_that_the_kernel_refuses_is_not_saved() {
    let step = set_feature_persist(
        SetStep::Apply { id: 3, value: 1 },
        SetEvent::Applied(Err(failed("EPERM").causing("ioctl".to_string()))),
    );
    assert_eq!(set_error(step), ["ioctl", "EPERM"]);
}

#[test]
fn a_feature_that_is_not_saved_is_not_set() {
    let step = set_feature_persist(
        SetStep::SaveConfig { config: HashMap::from([(3, 1)]) },
        SetEvent::Saved(Err(failed("disk full"))),
    );
    assert_eq!(set_error(step), ["failed to save feature config", "disk full"]);
}

#[test]
fn the_page_has_a_label_for_every_feature() {
    for f in ALL_FEATURES {
        assert!(PANEL_HTML.contains(&format!("\n  {}:", f.name())), "{f:?}");
    }
    assert_eq!(ALL_FEATURES[0], FeatureId::SuCompat);
    assert_eq!(ALL_FEATURES[5], FeatureId::Stealth);
}

#[test]
fn the_status_shows_versions_and_features() {
    let known = |id: u32, value: u64, supported: bool| Reading {
        id,
        state: Some((value, supported)),
    };
    let status = Status {
        version_name: " v1.0\n".to_string(),
        full_version: "v1.0 \"x\" \\".to_string(),
        kernel_version_code: -1,
        kernel_features: 63,
        uapi_version: 2,
        port: 8389,
        readings: [
            known(0, 1, true),
            known(1, 0, true),
            known(2, 18446744073709551615, false),
            known(3, 5, true),
            Reading { id: 10, state: None },
            known(11, 0, false),
        ],
    };
    let expected = concat_all(&[
        "{\"version\":\"v1.0\",\"full_version\":\"v1.0 \\\"x\\\" \\\\\",",
        "\"kernel_version_code\":-1,\"kernel_features\":63,\"uapi_version\":2,\"port\":8389,",
        "\"features\":[",
        "{\"id\":0,\"name\":\"su_compat\",\"value\":1,\"supported\":true},",
        "{\"id\":1,\"name\":\"kernel_umount\",\"value\":0,\"supported\":true},",
        "{\"id\":2,\"name\":\"sulog\",\"value\":18446744073709551615,\"supported\":false},",
        "{\"id\":3,\"name\":\"adb_root\",\"value\":5,\"supported\":true},",
        "{\"id\":10,\"name\":\"selinux_hide\",\"value\":0,\"supported\":false},",
        "{\"id\":11,\"name\":\"stealth\",\"value\":0,\"supported\":false}",
        "]}",
    ]);
    assert_eq!(status_json(&status), expected);
}

fn concat_all(parts: &[&str]) -> String {
    parts.iter().copied().collect()
}

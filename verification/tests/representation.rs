use kasugai_box::representation::{
    poll_delay_ms, poll_step, poll_timeout_message, representation_list_url, FileRepresentations,
    PollStep, RepContent, RepInfo, RepStatus, RepresentationEntry, Representations, POLL_ATTEMPTS,
};

fn entry(name: &str, state: Option<&str>, template: Option<&str>) -> RepresentationEntry {
    RepresentationEntry {
        representation: name.to_string(),
        status: Some(RepStatus { state: state.map(String::from), code: None, message: None }),
        info: Some(RepInfo { url: Some("https://api.box.com/info".to_string()) }),
        content: Some(RepContent { url_template: template.map(String::from) }),
    }
}

fn file(entries: Vec<RepresentationEntry>) -> FileRepresentations {
    FileRepresentations { representations: Some(Representations { entries }) }
}

#[test]
fn ready_metadata_is_downloaded() {
    let f = file(vec![
        entry("jpg", Some("success"), Some("x")),
        entry("embedded_metadata", Some("viewable"), Some("https://dl.boxcloud.com/a/{+asset_path}?b=1")),
    ]);
    match poll_step(&f, false) {
        PollStep::Download { url } => assert_eq!(url, "https://dl.boxcloud.com/a/?b=1"),
        _ => panic!("expected a download"),
    }
}

#[test]
fn missing_representation_or_template_fails() {
    match poll_step(&FileRepresentations { representations: None }, false) {
        PollStep::Fail { message } => {
            assert_eq!(message, "embedded_metadata 表現が利用できません（未対応のファイル形式の可能性）")
        }
        _ => panic!("expected a failure"),
    }
    match poll_step(&file(vec![entry("embedded_metadata", Some("success"), None)]), false) {
        PollStep::Fail { message } => assert_eq!(message, "埋め込みメタデータの URL テンプレートがありません"),
        _ => panic!("expected a failure"),
    }
}

#[test]
fn error_state_reports_code_and_message() {
    let mut e = entry("embedded_metadata", Some("error"), None);
    e.status = Some(RepStatus {
        state: Some("error".to_string()),
        code: Some("E1".to_string()),
        message: Some("bad".to_string()),
    });
    match poll_step(&file(vec![e]), false) {
        PollStep::Fail { message } => assert_eq!(message, "Box embedded metadata 生成エラー: E1 bad"),
        _ => panic!("expected a failure"),
    }
    match poll_step(&file(vec![entry("embedded_metadata", Some("error"), None)]), true) {
        PollStep::Fail { message } => assert_eq!(message, "Box embedded metadata 生成エラー:  "),
        _ => panic!("expected a failure"),
    }
}

#[test]
fn generation_is_triggered_once() {
    let f = file(vec![entry("embedded_metadata", None, None)]);
    match poll_step(&f, false) {
        PollStep::Trigger { info_url } => assert_eq!(info_url.as_deref(), Some("https://api.box.com/info")),
        _ => panic!("expected a trigger"),
    }
    assert!(matches!(poll_step(&f, true), PollStep::Wait));
    let pending = file(vec![entry("embedded_metadata", Some("pending"), None)]);
    assert!(matches!(poll_step(&pending, false), PollStep::Wait));
}

#[test]
fn polling_schedule() {
    assert_eq!(POLL_ATTEMPTS, 30);
    assert_eq!(poll_delay_ms(0), 300);
    assert_eq!(poll_delay_ms(3), 300);
    assert_eq!(poll_delay_ms(4), 1000);
    let total: u64 = (0..POLL_ATTEMPTS).map(poll_delay_ms).sum();
    assert_eq!(total, 27_200);
    assert_eq!(poll_timeout_message(), "Box embedded metadata 生成がタイムアウトしました");
    assert_eq!(representation_list_url("42"), "https://api.box.com/2.0/files/42?fields=representations");
}

use yaak::cookies::{get_cookie_value, list_cookie_names};
use yaak::dns::{ends_with, is_localhost_name};
use yaak::encoding::decode_response_body;
use yaak::history::{launch_info, StoredLaunch};
use yaak::models::{Environment, Folder, Workspace};
use yaak::notifications::{first_unseen, get_updater_status, was_seen, YaakNotificationAction, YaakNotifier};
use yaak::sync::{
    checksum, format_written, migrated_parent_model, sniff_model_file, sync_model_kind, AnyModel,
    SyncError, SyncFormat, SyncModel, SyncModelKind,
};
use yaak::text::{is_whitespace, str_equal, trim};
use yaak::updates::{
    download_file_name, downloads_first, is_native_install, next_reply_step, update_key,
    UpdateMode, UpdateReplyError, UpdateReplyEvent, UpdateReplyPhase, UpdateReplyStep,
    UpdateResponse, UpdateResponseAction, UpdateTrigger, YaakUpdater,
};

fn strings(list: &[&str]) -> Vec<String> {
    list.iter().map(|s| s.to_string()).collect()
}

#[test]
fn update_mode_from_a_word() {
    assert_eq!(UpdateMode::new("beta"), UpdateMode::Beta);
    assert_eq!(UpdateMode::new("alpha"), UpdateMode::Alpha);
    assert_eq!(UpdateMode::new("stable"), UpdateMode::Stable);
    assert_eq!(UpdateMode::new("Beta"), UpdateMode::Stable);
    assert_eq!(UpdateMode::new(""), UpdateMode::Stable);
    assert_eq!(UpdateMode::Beta.to_string(), "beta");
    assert_eq!(UpdateMode::Alpha.to_string(), "alpha");
    assert_eq!(UpdateMode::Stable.to_string(), "stable");
    assert_eq!(UpdateTrigger::Background.as_str(), "background");
    assert_eq!(UpdateTrigger::User.as_str(), "user");
}

#[test]
fn update_check_is_due_after_the_period() {
    assert_eq!(UpdateMode::Stable.check_period_seconds(), 43200);
    assert_eq!(UpdateMode::Beta.check_period_seconds(), 10800);
    assert_eq!(UpdateMode::Alpha.check_period_seconds(), 3600);
    let mut updater = YaakUpdater::new();
    assert!(updater.is_check_due(43200, UpdateMode::Stable, false));
    assert!(!updater.is_check_due(43199, UpdateMode::Stable, false));
    assert!(!updater.is_check_due(1_000_000, UpdateMode::Stable, true));
    updater.mark_checked(1_000_000);
    assert!(!updater.is_check_due(1_000_000 + 3599, UpdateMode::Alpha, false));
    assert!(updater.is_check_due(1_000_000 + 3600, UpdateMode::Alpha, false));
    assert!(!updater.is_check_due(1_000_000 + 3600, UpdateMode::Beta, false));
    assert!(downloads_first(UpdateTrigger::Background, true));
    assert!(!downloads_first(UpdateTrigger::Background, false));
    assert!(!downloads_first(UpdateTrigger::User, true));
}

#[test]
fn update_reply_is_awaited_in_two_phases() {
    let closed = UpdateReplyEvent::Closed;
    let timed_out = UpdateReplyEvent::TimedOut;
    let ack = UpdateReplyEvent::Reply(UpdateResponse::Ack);
    let install = UpdateReplyEvent::Reply(UpdateResponse::Action { action: UpdateResponseAction::Install });
    let skip = UpdateReplyEvent::Reply(UpdateResponse::Action { action: UpdateResponseAction::Skip });
    let first = UpdateReplyPhase::AwaitingAck;
    let second = UpdateReplyPhase::AwaitingAction;
    assert_eq!(next_reply_step(first, ack), UpdateReplyStep::Wait(second));
    assert_eq!(next_reply_step(first, install), UpdateReplyStep::Chosen(UpdateResponseAction::Install));
    assert_eq!(next_reply_step(first, closed), UpdateReplyStep::Failed(UpdateReplyError::ClosedBeforeAck));
    assert_eq!(next_reply_step(first, timed_out), UpdateReplyStep::Failed(UpdateReplyError::TimedOutBeforeAck));
    assert_eq!(next_reply_step(second, ack), UpdateReplyStep::Wait(second));
    assert_eq!(next_reply_step(second, skip), UpdateReplyStep::Chosen(UpdateResponseAction::Skip));
    assert_eq!(next_reply_step(second, closed), UpdateReplyStep::Failed(UpdateReplyError::ClosedBeforeAction));
    assert_eq!(next_reply_step(second, timed_out), UpdateReplyStep::Wait(second));
    assert_eq!(UpdateReplyError::ClosedBeforeAck.as_str(), "frontend channel closed before ack");
    assert_eq!(UpdateReplyError::TimedOutBeforeAck.as_str(), "timed out waiting for frontend ack");
    assert_eq!(UpdateReplyError::ClosedBeforeAction.as_str(), "frontend channel closed before action");
}

#[test]
fn update_names_hold_the_md5_digest() {
    assert_eq!(update_key(""), "d41d8cd98f00b204e9800998ecf8427e");
    assert_eq!(update_key("abc"), "900150983cd24fb0d6963f7d28e17f72");
    assert_eq!(download_file_name("1.2.3", "abc"), "yaak-1.2.3-900150983cd24fb0d6963f7d28e17f72");
    assert!(is_native_install(Some("native")));
    assert!(!is_native_install(Some("Native")));
    assert!(!is_native_install(None));
}

#[test]
fn notifications_are_asked_for_every_hour() {
    let mut notifier = YaakNotifier::new();
    assert!(!notifier.is_check_due(3599));
    assert!(notifier.is_check_due(3600));
    notifier.mark_checked(5000);
    assert!(!notifier.is_check_due(5000));
    assert!(notifier.is_check_due(8600));
    assert_eq!(YaakNotificationAction::default(), YaakNotificationAction { label: String::new(), url: String::new() });
}

#[test]
fn first_unseen_notification_is_shown() {
    let seen = strings(&["a", "b"]);
    assert_eq!(first_unseen(&strings(&["a", "c", "d"]), &seen), Some(1));
    assert_eq!(first_unseen(&strings(&["b", "a"]), &seen), None);
    assert_eq!(first_unseen(&strings(&[]), &seen), None);
    assert_eq!(first_unseen(&strings(&["x"]), &strings(&[])), Some(0));
    assert!(was_seen(&seen, &"b".to_string()));
    assert!(!was_seen(&seen, &"B".to_string()));
}

#[test]
fn updater_status_words() {
    assert_eq!(get_updater_status(false, true, true), "missing");
    assert_eq!(get_updater_status(true, false, true), "disabled");
    assert_eq!(get_updater_status(true, true, false), "unsupported");
    assert_eq!(get_updater_status(true, true, true), "enabled");
}

#[test]
fn launch_after_an_update() {
    let stored = StoredLaunch {
        last_version: "1.0.0".to_string(),
        previous_version: "0.9.0".to_string(),
        version_since: 100,
        num_launches: 4,
    };
    let info = launch_info("1.1.0".to_string(), 10, &stored, 500);
    assert!(info.launched_after_update);
    assert_eq!(info.current_version, "1.1.0");
    assert_eq!(info.previous_version, "1.0.0");
    assert_eq!(info.version_since, 500);
    assert_eq!(info.user_since, 10);
    assert_eq!(info.num_launches, 5);
    let info = launch_info("1.0.0".to_string(), 10, &stored, 500);
    assert!(!info.launched_after_update);
    assert_eq!(info.previous_version, "0.9.0");
    assert_eq!(info.version_since, 100);
    let first = launch_info("1.0.0".to_string(), 10, &StoredLaunch::default(), 500);
    assert!(!first.launched_after_update);
    assert_eq!(first.previous_version, "");
    assert_eq!(first.num_launches, 1);
}

fn environment(id: &str, workspace_id: &str) -> Environment {
    Environment {
        id: id.to_string(),
        workspace_id: workspace_id.to_string(),
        created_at: 1,
        updated_at: 2,
        name: "e".to_string(),
        public: true,
        parent_model: "workspace".to_string(),
        parent_id: None,
        variables: vec![],
        color: None,
    }
}

#[test]
fn sync_model_ids() {
    let workspace = SyncModel::Workspace(Workspace { id: "wk_1".to_string(), updated_at: 9, name: "w".to_string() });
    assert_eq!(workspace.id(), "wk_1");
    assert_eq!(workspace.workspace_id(), "wk_1");
    assert_eq!(workspace.updated_at(), 9);
    let env = SyncModel::Environment(environment("ev_1", "wk_2"));
    assert_eq!(env.id(), "ev_1");
    assert_eq!(env.workspace_id(), "wk_2");
    assert_eq!(env.updated_at(), 2);
    let folder = SyncModel::Folder(Folder {
        id: "fl_1".to_string(),
        workspace_id: "wk_3".to_string(),
        updated_at: 4,
        folder_id: None,
        name: "f".to_string(),
    });
    assert_eq!(folder.id(), "fl_1");
    assert_eq!(folder.workspace_id(), "wk_3");
    assert_eq!(folder.updated_at(), 4);
}

#[test]
fn only_some_models_are_synced() {
    assert_eq!(
        SyncModel::try_from(AnyModel::Environment(environment("ev_1", "wk_1"))),
        Ok(SyncModel::Environment(environment("ev_1", "wk_1")))
    );
    assert_eq!(
        SyncModel::try_from(AnyModel::Other { model: "cookie_jar".to_string() }),
        Err(SyncError::UnknownModel("cookie_jar".to_string()))
    );
    assert_eq!(sync_model_kind("workspace"), Some(SyncModelKind::Workspace));
    assert_eq!(sync_model_kind("environment"), Some(SyncModelKind::Environment));
    assert_eq!(sync_model_kind("folder"), Some(SyncModelKind::Folder));
    assert_eq!(sync_model_kind("http_request"), Some(SyncModelKind::HttpRequest));
    assert_eq!(sync_model_kind("grpc_request"), Some(SyncModelKind::GrpcRequest));
    assert_eq!(sync_model_kind("websocket_request"), Some(SyncModelKind::WebsocketRequest));
    assert_eq!(sync_model_kind("plugin"), None);
    assert_eq!(sync_model_kind(""), None);
}

#[test]
fn environment_of_the_old_form_gets_a_parent() {
    assert_eq!(migrated_parent_model(Some(true), false), Some("workspace"));
    assert_eq!(migrated_parent_model(Some(false), false), Some("environment"));
    assert_eq!(migrated_parent_model(Some(false), true), None);
    assert_eq!(migrated_parent_model(Some(true), true), None);
    assert_eq!(migrated_parent_model(None, false), None);
}

#[test]
fn checksum_is_the_sha1_in_hex() {
    assert_eq!(checksum(&b"abc".to_vec()), "a9993e364706816aba3e25717850c26c9cd0d89d");
    assert_eq!(checksum(&vec![]), "da39a3ee5e6b4b0d3255bfef95601890afd80709");
}

#[test]
fn model_files_are_told_by_content_and_extension() {
    let yaml = b"model: environment\nid: ev_1\n".to_vec();
    assert_eq!(sniff_model_file(&yaml, "yaml"), Some(SyncFormat::Yaml));
    assert_eq!(sniff_model_file(&yaml, "yml"), Some(SyncFormat::Yaml));
    assert_eq!(sniff_model_file(&yaml, "json"), Some(SyncFormat::Json));
    assert_eq!(sniff_model_file(&yaml, "txt"), None);
    assert_eq!(sniff_model_file(&yaml, ""), None);
    assert_eq!(sniff_model_file(&b"model: x".to_vec(), "yaml"), None);
    assert_eq!(sniff_model_file(&b"id: x".to_vec(), "yaml"), None);
    assert_eq!(sniff_model_file(&b"modelid".to_vec(), "json"), Some(SyncFormat::Json));
    assert_eq!(sniff_model_file(&b"model id \xff".to_vec(), "json"), None);
    assert_eq!(sniff_model_file(&vec![], "json"), None);
    assert_eq!(format_written("yaml"), SyncFormat::Yaml);
    assert_eq!(format_written("yml"), SyncFormat::Yaml);
    assert_eq!(format_written("json"), SyncFormat::Json);
    assert_eq!(format_written("anything"), SyncFormat::Json);
}

#[test]
fn body_is_decoded_by_its_charset() {
    assert_eq!(decode_response_body(&b"caf\xe9".to_vec(), "text/plain; charset=iso-8859-1"), "café");
    assert_eq!(decode_response_body(&"café".as_bytes().to_vec(), "text/plain; charset=UTF-8"), "café");
    assert_eq!(decode_response_body(&"café".as_bytes().to_vec(), "application/json"), "café");
    assert_eq!(decode_response_body(&b"h\xffi".to_vec(), "text/plain"), "h\u{fffd}i");
    assert_eq!(decode_response_body(&b"h\xffi".to_vec(), "not a content type"), "h\u{fffd}i");
    assert_eq!(decode_response_body(&b"h\xffi".to_vec(), "text/plain; charset=no-such-set"), "h\u{fffd}i");
    assert_eq!(decode_response_body(&b"\xfe\xff\x00h".to_vec(), "text/plain; charset=iso-8859-1"), "h");
}

#[test]
fn cookies_are_read_by_name() {
    let raw = strings(&["a=1; Path=/; HttpOnly", "not a cookie", "b=\"2\"; Secure", " c = 3 ", "a=4"]);
    assert_eq!(list_cookie_names(&raw), strings(&["a", "b", "c", "a"]));
    assert_eq!(get_cookie_value(&raw, "a"), Some("1".to_string()));
    assert_eq!(get_cookie_value(&raw, "b"), Some("2".to_string()));
    assert_eq!(get_cookie_value(&raw, "c"), Some("3".to_string()));
    assert_eq!(get_cookie_value(&raw, "d"), None);
    assert_eq!(get_cookie_value(&raw, "A"), None);
    assert_eq!(list_cookie_names(&strings(&[])), strings(&[]));
}

#[test]
fn names_below_localhost() {
    assert!(is_localhost_name("app.localhost"));
    assert!(is_localhost_name("A.B.LocalHost"));
    assert!(is_localhost_name(".localhost"));
    assert!(!is_localhost_name("localhost"));
    assert!(!is_localhost_name("app.localhost.com"));
    assert!(!is_localhost_name(""));
    assert!(ends_with("abc", "bc"));
    assert!(ends_with("abc", ""));
    assert!(!ends_with("bc", "abc"));
}

#[test]
fn text_helpers() {
    for c in ['\t', '\n', '\u{b}', '\u{c}', '\r', ' ', '\u{85}', '\u{a0}', '\u{1680}', '\u{2000}', '\u{200a}', '\u{2028}', '\u{2029}', '\u{202f}', '\u{205f}', '\u{3000}'] {
        assert!(is_whitespace(c));
    }
    for c in ['a', '\u{0}', '\u{8}', '\u{e}', '\u{200b}', '\u{feff}', '\u{180e}', '_'] {
        assert!(!is_whitespace(c));
    }
    for code in 0..0x3100u32 {
        if let Some(c) = char::from_u32(code) {
            assert_eq!(is_whitespace(c), c.is_whitespace(), "{:x}", code);
        }
    }
    assert_eq!(trim(" \u{3000}a b\n"), "a b");
    assert_eq!(trim("\t\n "), "");
    assert_eq!(trim(""), "");
    assert_eq!(trim("é"), "é");
    assert!(str_equal("é", "é"));
    assert!(!str_equal("a", "ab"));
}

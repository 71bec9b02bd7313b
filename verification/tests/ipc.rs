use fedsurf::fed_protocol::Body;
use fedsurf::ipc::{cors_response, handle, tab_id_from_label, IpcCommand, IpcMsg};
use fedsurf::tabs::label_of;

fn msg(kind: &str, url: Option<&str>, favicon: Option<&str>, action: Option<&str>) -> IpcMsg {
    IpcMsg {
        kind: kind.to_string(),
        url: url.map(|u| u.to_string()),
        favicon: favicon.map(|f| f.to_string()),
        action: action.map(|a| a.to_string()),
    }
}

#[test]
fn labels_name_tabs() {
    assert_eq!(tab_id_from_label("tab-7"), Some(7));
    assert_eq!(tab_id_from_label("tab-0042"), Some(42));
    assert_eq!(tab_id_from_label("tab-+3"), Some(3));
    assert_eq!(tab_id_from_label("tab-4294967295"), Some(4294967295));
}

#[test]
fn other_labels_name_no_tab() {
    assert_eq!(tab_id_from_label("chrome"), None);
    assert_eq!(tab_id_from_label("tab-"), None);
    assert_eq!(tab_id_from_label("tab-+"), None);
    assert_eq!(tab_id_from_label("tab--1"), None);
    assert_eq!(tab_id_from_label("tab-1x"), None);
    assert_eq!(tab_id_from_label("tab-4294967296"), None);
    assert_eq!(tab_id_from_label("Tab-1"), None);
}

#[test]
fn label_round_trip() {
    for id in [0u32, 1, 9, 10, 12345, u32::MAX] {
        assert_eq!(tab_id_from_label(&label_of(id)), Some(id));
    }
}

#[test]
fn meta_message_updates_the_sender() {
    match handle("tab-3", Some(msg("meta", Some("fed://a.fed"), Some("fed://a.fed/i.png"), None))) {
        IpcCommand::Meta { id, url, favicon } => {
            assert_eq!(id, 3);
            assert_eq!(url.as_deref(), Some("fed://a.fed"));
            assert_eq!(favicon, "fed://a.fed/i.png");
        }
        _ => panic!("expected a meta update"),
    }
}

#[test]
fn meta_message_without_favicon_clears_it() {
    match handle("tab-3", Some(msg("meta", None, None, None))) {
        IpcCommand::Meta { id, url, favicon } => {
            assert_eq!(id, 3);
            assert_eq!(url, None);
            assert_eq!(favicon, "");
        }
        _ => panic!("expected a meta update"),
    }
}

#[test]
fn shortcut_message_forwards_the_action() {
    match handle("tab-9", Some(msg("shortcut", None, None, Some("next-tab")))) {
        IpcCommand::Shortcut { action } => assert_eq!(action, "next-tab"),
        _ => panic!("expected a shortcut"),
    }
}

#[test]
fn ignored_messages() {
    assert!(matches!(handle("tab-9", Some(msg("shortcut", None, None, None))), IpcCommand::Ignore));
    assert!(matches!(handle("tab-9", Some(msg("other", None, None, Some("x")))), IpcCommand::Ignore));
    assert!(matches!(handle("chrome", Some(msg("meta", None, None, None))), IpcCommand::Ignore));
    assert!(matches!(handle("tab-9", None), IpcCommand::Ignore));
}

#[test]
fn cors_answer() {
    let r = cors_response();
    assert_eq!(r.status, 200);
    let h: Vec<(String, String)> = r.headers.iter().map(|h| (h.name.clone(), h.value.clone())).collect();
    assert_eq!(
        h,
        vec![
            ("Access-Control-Allow-Origin".to_string(), "*".to_string()),
            ("Access-Control-Allow-Methods".to_string(), "POST, OPTIONS".to_string()),
            ("Access-Control-Allow-Headers".to_string(), "*".to_string()),
            ("Content-Type".to_string(), "text/plain".to_string()),
        ]
    );
    match r.body {
        Body::Bytes(b) => assert_eq!(b, b"ok".to_vec()),
        Body::Text(_) => panic!("expected bytes"),
    }
}

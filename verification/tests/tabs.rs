use fedsurf::fed_protocol::canonical_fed_url;
use fedsurf::tabs::{
    label_of, parse_action, tab_url, window_title_for, Action, CloseOutcome, TabMeta, TabState,
    HOME_URL,
};

fn with_tabs(n: usize) -> TabState {
    let mut s = TabState::new();
    for i in 0..n {
        s.create_tab_sync(format!("fed://t{}.fed", i));
    }
    s
}

#[test]
fn new_state_is_empty() {
    let s = TabState::default();
    assert!(s.order().is_empty());
    assert_eq!(s.current_active(), None);
    assert_eq!(s.next_id(), 1);
}

#[test]
fn create_hands_out_fresh_ids_in_order() {
    let mut s = TabState::new();
    assert_eq!(s.create_tab_sync("fed://a.fed".to_string()), (1, 0));
    assert_eq!(s.create_tab_sync("fed://b.fed".to_string()), (2, 1));
    assert_eq!(s.order(), &vec![1, 2]);
    assert_eq!(s.next_id(), 3);
    assert_eq!(s.current_active(), None);
    let m = s.meta_of(2).unwrap();
    assert_eq!(m.url, "fed://b.fed");
    assert_eq!(m.title, "");
    assert_eq!(m.favicon, "");
    assert!(m.loading);
}

#[test]
fn discard_undoes_create() {
    let mut s = with_tabs(2);
    s.activate_tab_sync(1).unwrap();
    let (id, _) = s.create_tab_sync("fed://x.fed".to_string());
    s.discard_tab(id);
    assert_eq!(s.order(), &vec![1, 2]);
    assert!(s.meta_of(id).is_none());
    assert_eq!(s.current_active(), Some(1));
    assert_eq!(s.next_id(), 4);
}

#[test]
fn activate_reports_previous_tab() {
    let mut s = with_tabs(3);
    assert_eq!(s.activate_tab_sync(2), Ok(None));
    assert_eq!(s.activate_tab_sync(2), Ok(None));
    assert_eq!(s.activate_tab_sync(3), Ok(Some(2)));
    assert_eq!(s.current_active(), Some(3));
}

#[test]
fn activate_unknown_tab_fails() {
    let mut s = with_tabs(1);
    assert_eq!(s.activate_tab_sync(9), Err("no tab 9".to_string()));
    assert_eq!(s.current_active(), None);
}

#[test]
fn close_active_prefers_right_neighbour() {
    let mut s = with_tabs(3);
    s.activate_tab_sync(2).unwrap();
    assert_eq!(s.close_tab_sync(2), CloseOutcome::Closed { next_active: Some(3) });
    assert_eq!(s.order(), &vec![1, 3]);
    assert_eq!(s.current_active(), None);
    assert!(s.meta_of(2).is_none());
}

#[test]
fn close_active_last_falls_back_to_new_last() {
    let mut s = with_tabs(3);
    s.activate_tab_sync(3).unwrap();
    assert_eq!(s.close_tab_sync(3), CloseOutcome::Closed { next_active: Some(2) });
    assert_eq!(s.activate_tab_sync(2), Ok(None));
}

#[test]
fn close_inactive_keeps_active() {
    let mut s = with_tabs(3);
    s.activate_tab_sync(1).unwrap();
    assert_eq!(s.close_tab_sync(3), CloseOutcome::Closed { next_active: None });
    assert_eq!(s.current_active(), Some(1));
}

#[test]
fn last_tab_goes_home_instead_of_closing() {
    let mut s = with_tabs(1);
    s.activate_tab_sync(1).unwrap();
    assert_eq!(s.close_tab_sync(1), CloseOutcome::GoHome);
    assert_eq!(s.order(), &vec![1]);
    assert_eq!(s.current_active(), Some(1));
}

#[test]
fn closing_twice_is_no_error() {
    let mut s = with_tabs(2);
    assert_eq!(s.close_tab_sync(1), CloseOutcome::Closed { next_active: None });
    assert_eq!(s.close_tab_sync(1), CloseOutcome::NotOpen);
    assert_eq!(s.order(), &vec![2]);
}

#[test]
fn move_tab_and_back() {
    let mut s = with_tabs(4);
    assert_eq!(s.move_tab_sync(1, 2), Ok(()));
    assert_eq!(s.order(), &vec![2, 3, 1, 4]);
    assert_eq!(s.move_tab_sync(1, 0), Ok(()));
    assert_eq!(s.order(), &vec![1, 2, 3, 4]);
}

#[test]
fn move_past_the_end_goes_last() {
    let mut s = with_tabs(3);
    assert_eq!(s.move_tab_sync(1, 99), Ok(()));
    assert_eq!(s.order(), &vec![2, 3, 1]);
}

#[test]
fn move_unknown_tab_fails() {
    let mut s = with_tabs(2);
    assert_eq!(s.move_tab_sync(5, 0), Err("no tab 5".to_string()));
    assert_eq!(s.order(), &vec![1, 2]);
}

#[test]
fn meta_update_real_navigation_clears_title() {
    let mut s = with_tabs(1);
    s.meta_update(1, None, Some("Old".to_string()), None, Some(false));
    let (info, active) = s
        .meta_update(1, Some("https://fed.localhost/other.fed".to_string()), None, None, None)
        .unwrap();
    assert!(!active);
    assert_eq!(info.id, 1);
    assert_eq!(info.meta.url, "fed://other.fed");
    assert_eq!(info.meta.title, "");
    assert!(!info.meta.loading);
}

#[test]
fn meta_update_fragment_change_keeps_title() {
    let mut s = TabState::new();
    s.create_tab_sync("fed://a.fed/page".to_string());
    s.activate_tab_sync(1).unwrap();
    s.meta_update(1, None, Some("Page".to_string()), None, None);
    let (info, active) = s
        .meta_update(1, Some("fed://a.fed/page#section".to_string()), None, None, None)
        .unwrap();
    assert!(active);
    assert_eq!(info.meta.url, "fed://a.fed/page#section");
    assert_eq!(info.meta.title, "Page");
}

#[test]
fn meta_update_sets_given_fields() {
    let mut s = with_tabs(1);
    let (info, _) = s
        .meta_update(1, Some("fed://new.fed".to_string()), Some("New".to_string()), Some("ico".to_string()), Some(true))
        .unwrap();
    assert_eq!(info.meta.url, "fed://new.fed");
    assert_eq!(info.meta.title, "New");
    assert_eq!(info.meta.favicon, "ico");
    assert!(info.meta.loading);
}

#[test]
fn meta_update_unknown_tab_is_ignored() {
    let mut s = with_tabs(1);
    assert!(s.meta_update(7, Some("fed://x".to_string()), None, None, None).is_none());
}

#[test]
fn window_title() {
    assert_eq!(window_title_for(""), "Fedsurf");
    assert_eq!(window_title_for("Home"), "Home \u{2014} Fedsurf");
    let mut s = with_tabs(2);
    assert_eq!(s.window_title(), "Fedsurf");
    s.activate_tab_sync(2).unwrap();
    s.meta_update(2, None, Some("Two".to_string()), None, None);
    assert_eq!(s.window_title(), "Two \u{2014} Fedsurf");
}

#[test]
fn snapshot_lists_tabs_in_order() {
    let mut s = with_tabs(3);
    s.move_tab_sync(3, 0).unwrap();
    s.activate_tab_sync(1).unwrap();
    let snap = s.snapshot("linux");
    let ids: Vec<u32> = snap.tabs.iter().map(|t| t.id).collect();
    assert_eq!(ids, vec![3, 1, 2]);
    assert_eq!(snap.tabs[0].meta.url, "fed://t2.fed");
    assert_eq!(snap.active, Some(1));
    assert_eq!(snap.platform, "linux");
}

#[test]
fn active_label_names_the_webview() {
    let mut s = with_tabs(2);
    assert_eq!(s.active_label(), None);
    s.activate_tab_sync(2).unwrap();
    assert_eq!(s.active_label(), Some("tab-2".to_string()));
    assert_eq!(label_of(12), "tab-12");
}

#[test]
fn cycle_wraps_around() {
    let mut s = with_tabs(3);
    s.activate_tab_sync(3).unwrap();
    assert_eq!(s.cycle_tab(1), Some(1));
    assert_eq!(s.cycle_tab(-1), Some(2));
    s.activate_tab_sync(1).unwrap();
    assert_eq!(s.cycle_tab(-1), Some(3));
    assert_eq!(s.cycle_tab(-4), Some(3));
    assert_eq!(s.cycle_tab(5), Some(3));
    assert_eq!(s.cycle_tab(isize::MIN), Some(2));
}

#[test]
fn cycle_without_active_starts_from_first() {
    let s = with_tabs(3);
    assert_eq!(s.cycle_tab(1), Some(2));
    assert_eq!(s.cycle_tab(-1), Some(3));
    assert_eq!(TabState::new().cycle_tab(1), None);
}

#[test]
fn next_then_previous_returns() {
    let mut s = with_tabs(4);
    for start in 1..=4u32 {
        s.activate_tab_sync(start).unwrap();
        let next = s.cycle_tab(1).unwrap();
        s.activate_tab_sync(next).unwrap();
        assert_eq!(s.cycle_tab(-1), Some(start));
    }
}

#[test]
fn jump_to_number() {
    let s = with_tabs(3);
    assert_eq!(s.jump_to_index(1), Some(1));
    assert_eq!(s.jump_to_index(3), Some(3));
    assert_eq!(s.jump_to_index(4), None);
    assert_eq!(s.jump_to_index(0), Some(1));
    assert_eq!(s.jump_to_index(9), Some(3));
    assert_eq!(s.jump_to_index(20), Some(3));
    assert_eq!(TabState::new().jump_to_index(1), None);
}

#[test]
fn actions_by_name() {
    assert_eq!(parse_action("new-tab"), Action::NewTab);
    assert_eq!(parse_action("close-tab"), Action::CloseTab);
    assert_eq!(parse_action("next-tab"), Action::NextTab);
    assert_eq!(parse_action("prev-tab"), Action::PrevTab);
    assert_eq!(parse_action("toggle-sidebar"), Action::ToggleSidebar);
    assert_eq!(parse_action("focus-address"), Action::FocusAddress);
    assert_eq!(parse_action("back"), Action::Back);
    assert_eq!(parse_action("forward"), Action::Forward);
    assert_eq!(parse_action("reload"), Action::Reload);
    assert_eq!(parse_action("devtools"), Action::DevTools);
    assert_eq!(parse_action("tab-1"), Action::JumpTo(1));
    assert_eq!(parse_action("tab-9"), Action::JumpTo(9));
    assert_eq!(parse_action("tab-x"), Action::Other);
    assert_eq!(parse_action("copy"), Action::Other);
}

#[test]
fn new_tab_url() {
    assert_eq!(tab_url(None), HOME_URL);
    assert_eq!(tab_url(Some("https://fed.localhost/a.fed".to_string())), "fed://a.fed");
    assert_eq!(tab_url(Some("https://example.com".to_string())), "https://example.com");
}

#[test]
fn meta_default_is_empty() {
    let m = TabMeta::default();
    assert_eq!(m.url, "");
    assert!(!m.loading);
    let c = m.copy();
    assert_eq!(c.title, "");
}

#[test]
fn tab_urls_stay_canonical() {
    let mut s = TabState::new();
    let url = tab_url(Some("http://fed.localhost/a.fed".to_string()));
    assert_eq!(canonical_fed_url(&url), url);
    s.create_tab_sync(url);
    for u in ["https://fed.localhost/b.fed#x", "fed://c.fed", "https://example.org/"] {
        let (info, _) = s.meta_update(1, Some(u.to_string()), None, None, None).unwrap();
        assert_eq!(canonical_fed_url(&info.meta.url), info.meta.url);
    }
    assert_eq!(s.meta_of(1).unwrap().url, "https://example.org/");
}

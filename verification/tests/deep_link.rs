use fedsurf::deep_link::{same_urls, LaunchEcho};

fn urls(v: &[&str]) -> Vec<String> {
    v.iter().map(|s| s.to_string()).collect()
}

#[test]
fn launch_echo_is_swallowed_once() {
    let mut e = LaunchEcho::new(urls(&["fed://a.fed"]));
    assert!(e.swallow(&urls(&["fed://a.fed"])));
    assert!(!e.swallow(&urls(&["fed://a.fed"])));
}

#[test]
fn other_batch_uses_up_the_echo() {
    let mut e = LaunchEcho::new(urls(&["fed://a.fed"]));
    assert!(!e.swallow(&urls(&["fed://b.fed"])));
    assert!(!e.swallow(&urls(&["fed://a.fed"])));
}

#[test]
fn empty_batch_is_ignored_and_keeps_the_echo() {
    let mut e = LaunchEcho::new(urls(&["fed://a.fed"]));
    assert!(e.swallow(&urls(&[])));
    assert!(e.swallow(&urls(&["fed://a.fed"])));
}

#[test]
fn no_launch_urls_no_echo() {
    let mut e = LaunchEcho::new(urls(&[]));
    assert!(!e.swallow(&urls(&["fed://a.fed"])));
}

#[test]
fn comparing_url_lists() {
    assert!(same_urls(&urls(&["a", "b"]), &urls(&["a", "b"])));
    assert!(!same_urls(&urls(&["a", "b"]), &urls(&["b", "a"])));
    assert!(!same_urls(&urls(&["a"]), &urls(&["a", "b"])));
    assert!(same_urls(&urls(&[]), &urls(&[])));
}

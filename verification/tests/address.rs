use fedsurf::address::{host_address, normalize_input, percent_encode, AddressPlan};

fn plan(input: &str) -> (u8, String) {
    match normalize_input(input) {
        AddressPlan::Rejected(e) => (0, e),
        AddressPlan::Navigate(u) => (1, u),
        AddressPlan::CheckHost(h) => (2, h),
    }
}

#[test]
fn percent_encoding() {
    assert_eq!(percent_encode("abc-XYZ_09.~"), "abc-XYZ_09.~");
    assert_eq!(percent_encode("a b&c"), "a+b%26c");
    assert_eq!(percent_encode("é"), "%C3%A9");
    assert_eq!(percent_encode("/?#"), "%2F%3F%23");
    assert_eq!(percent_encode(""), "");
}

#[test]
fn empty_input_is_rejected() {
    assert_eq!(plan(""), (0, "empty address".to_string()));
}

#[test]
fn explicit_schemes_pass_through() {
    assert_eq!(plan("fed://home.fed"), (1, "fed://home.fed".to_string()));
    assert_eq!(plan("http://x.org/a b"), (1, "http://x.org/a b".to_string()));
    assert_eq!(plan("https://X.org"), (1, "https://X.org".to_string()));
}

#[test]
fn hosts_need_a_tld_check() {
    assert_eq!(plan("Example.COM/Path?q#f"), (2, "example.com".to_string()));
    assert_eq!(plan("home.fed"), (2, "home.fed".to_string()));
}

#[test]
fn other_input_is_searched() {
    assert_eq!(plan("hello"), (1, "fed://fed.busca/?q=hello".to_string()));
    assert_eq!(plan("what is fed"), (1, "fed://fed.busca/?q=what+is+fed".to_string()));
    assert_eq!(plan("a b.c"), (1, "fed://fed.busca/?q=a+b.c".to_string()));
    assert_eq!(plan("/path.x"), (1, "fed://fed.busca/?q=%2Fpath.x".to_string()));
}

#[test]
fn host_addresses() {
    assert_eq!(host_address("Home.fed/x", true), "fed://Home.fed/x");
    assert_eq!(host_address("example.com", false), "https://example.com");
}

#[test]
fn every_address_bar_url_names_its_scheme() {
    for input in ["hello", "a b", "Example.COM", "fed://x", "http://y", "https://z", "é.à", "?"] {
        let url = match normalize_input(input) {
            AddressPlan::Navigate(u) => u,
            AddressPlan::CheckHost(_) => host_address(input, false),
            AddressPlan::Rejected(_) => panic!("only empty input is rejected"),
        };
        assert!(url.starts_with("fed://") || url.starts_with("http://") || url.starts_with("https://"));
    }
}

#[test]
fn encoded_query_is_one_value() {
    let encoded = percent_encode("a b&c=d#e?f/g é");
    assert!(!encoded.contains(|c: char| " &#?/=".contains(c)));
    assert_eq!(encoded, "a+b%26c%3Dd%23e%3Ff%2Fg+%C3%A9");
}

fn form_decode(s: &str) -> Vec<u8> {
    let hex = |c: u8| -> u8 {
        match c {
            b'0'..=b'9' => c - b'0',
            b'A'..=b'F' => c - b'A' + 10,
            b'a'..=b'f' => c - b'a' + 10,
            _ => 0,
        }
    };
    let b = s.as_bytes();
    let mut out = Vec::new();
    let mut i = 0;
    while i < b.len() {
        if b[i] == b'%' && i + 3 <= b.len() {
            out.push(hex(b[i + 1]) * 16 + hex(b[i + 2]));
            i += 3;
        } else if b[i] == b'+' {
            out.push(b' ');
            i += 1;
        } else {
            out.push(b[i]);
            i += 1;
        }
    }
    out
}

#[test]
fn encoded_query_decodes_back() {
    for q in ["", "plain", "a b+c", "100% sure", "é è ~_-.", "%41+", "&=#?/"] {
        assert_eq!(form_decode(&percent_encode(q)), q.as_bytes().to_vec());
    }
    assert_ne!(percent_encode("a+b"), percent_encode("a b"));
}

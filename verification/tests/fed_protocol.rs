use fedsurf::base64::base64_encode;
use fedsurf::fed_protocol::{
    canonical_fed_url, error_page, font_css, font_face, page_html, security_page, serve_fed, Body,
    FedOutcome, HttpResponse, DANGER_ACCENT, NORMAL_ACCENT, PAGE_HEAD,
};

fn text_of(r: &HttpResponse) -> String {
    match &r.body {
        Body::Text(t) => t.clone(),
        Body::Bytes(_) => panic!("expected an HTML page"),
    }
}

fn headers_of(r: &HttpResponse) -> Vec<(String, String)> {
    r.headers.iter().map(|h| (h.name.clone(), h.value.clone())).collect()
}

fn s(x: &str) -> String {
    x.to_string()
}

#[test]
fn canonical_maps_webview2_https_form() {
    assert_eq!(canonical_fed_url("https://fed.localhost/home.fed/a?b#c"), "fed://home.fed/a?b#c");
}

#[test]
fn canonical_maps_webview2_http_form() {
    assert_eq!(canonical_fed_url("http://fed.localhost/x.fed"), "fed://x.fed");
}

#[test]
fn canonical_keeps_other_urls() {
    assert_eq!(canonical_fed_url("fed://home.fed"), "fed://home.fed");
    assert_eq!(canonical_fed_url("https://example.com/"), "https://example.com/");
    assert_eq!(canonical_fed_url("https://fed.localhost"), "https://fed.localhost");
    assert_eq!(canonical_fed_url(""), "");
    assert_eq!(canonical_fed_url("https://fed.localhost/"), "fed://");
}

#[test]
fn canonical_is_idempotent_on_examples() {
    for raw in ["https://fed.localhost/a", "http://fed.localhost/b", "fed://c", "about:blank"] {
        let once = canonical_fed_url(raw);
        assert_eq!(canonical_fed_url(&once), once);
    }
}

#[test]
fn base64_rfc4648_vectors() {
    assert_eq!(base64_encode(b""), "");
    assert_eq!(base64_encode(b"f"), "Zg==");
    assert_eq!(base64_encode(b"fo"), "Zm8=");
    assert_eq!(base64_encode(b"foo"), "Zm9v");
    assert_eq!(base64_encode(b"foob"), "Zm9vYg==");
    assert_eq!(base64_encode(b"fooba"), "Zm9vYmE=");
    assert_eq!(base64_encode(b"foobar"), "Zm9vYmFy");
}

#[test]
fn base64_uses_plus_and_slash() {
    assert_eq!(base64_encode(&[0xfb, 0xff, 0xbf]), "+/+/");
    assert_eq!(base64_encode(&[0x00, 0x00, 0x00]), "AAAA");
    assert_eq!(base64_encode(&[0xff]), "/w==");
}

#[test]
fn base64_length_is_four_per_started_group() {
    for n in 0..20usize {
        let bytes: Vec<u8> = (0..n).map(|i| (i * 37) as u8).collect();
        assert_eq!(base64_encode(&bytes).len(), 4 * ((n + 2) / 3));
    }
}

#[test]
fn font_face_rule() {
    assert_eq!(
        font_face("Lilex", "normal", "100 700", b"foo"),
        "@font-face{font-family:'Lilex';font-style:normal;font-weight:100 700;src:url(data:font/woff2;base64,Zm9v) format('woff2')}"
    );
}

#[test]
fn font_css_has_three_rules() {
    let css = font_css(b"a", b"b", b"c");
    let lines: Vec<&str> = css.split('\n').collect();
    assert_eq!(lines.len(), 3);
    assert_eq!(lines[0], font_face("Averia Serif Libre", "normal", "400", b"a"));
    assert_eq!(lines[1], font_face("Averia Serif Libre", "normal", "700", b"b"));
    assert_eq!(lines[2], font_face("Lilex", "normal", "100 700", b"c"));
}

#[test]
fn page_html_fills_the_template() {
    let html = page_html("T", "D", false, "FONTS");
    assert!(html.starts_with(PAGE_HEAD));
    assert!(html.starts_with("<!doctype html><html><head><meta charset=\"utf-8\">\n"));
    assert!(html.contains("<title>T</title>\n<style>\nFONTS\n  :root {"));
    assert!(html.contains(&format!("--accent: {}; }}", NORMAL_ACCENT)));
    assert!(html.contains("<h1>T</h1>\n<p>D</p>\n"));
    assert!(html.ends_with("<footer>FEDSURF &middot; FEDERATE NETWORK</footer>\n</main></body></html>"));
    let danger = page_html("T", "D", true, "");
    assert!(danger.contains(&format!("--accent: {}; }}", DANGER_ACCENT)));
    assert!(!danger.contains(NORMAL_ACCENT));
}

#[test]
fn error_page_response() {
    let r = error_page(500, "Fedsurf is still starting", "Try again in a moment.", "");
    assert_eq!(r.status, 500);
    assert_eq!(headers_of(&r), vec![(s("Content-Type"), s("text/html; charset=utf-8"))]);
    assert_eq!(text_of(&r), page_html("Fedsurf is still starting", "Try again in a moment.", false, ""));
}

#[test]
fn security_page_response() {
    let r = security_page("bad.fed", "manifest", "hash mismatch", "");
    assert_eq!(r.status, 502);
    let detail = "Verification failed for <code>bad.fed</code> at the <strong>manifest</strong> layer.<br><br>hash mismatch<br><br>Fedsurf refused to render this content. This can mean tampering somewhere between you and the publisher.";
    assert_eq!(text_of(&r), page_html("Content failed verification", detail, true, ""));
}

#[test]
fn serve_fed_content_is_the_only_200() {
    let r = serve_fed(
        FedOutcome::Content { bytes: vec![1, 2, 3], mime: s("text/html"), hash: s("abc") },
        "",
    );
    assert_eq!(r.status, 200);
    assert_eq!(
        headers_of(&r),
        vec![
            (s("Content-Type"), s("text/html")),
            (s("ETag"), s("\"abc\"")),
            (s("X-Federate-Verified"), s("signature-chain+content-hash")),
        ]
    );
    match r.body {
        Body::Bytes(b) => assert_eq!(b, vec![1, 2, 3]),
        Body::Text(_) => panic!("content must be served as bytes"),
    }
}

#[test]
fn serve_fed_security_failure_never_shows_content() {
    let r = serve_fed(
        FedOutcome::SecurityFailure { domain: s("x.fed"), layer: s("tld"), reason: s("bad sig") },
        "",
    );
    assert_eq!(r.status, 502);
    let expected = security_page("x.fed", "tld", "bad sig", "");
    assert_eq!(text_of(&r), text_of(&expected));
}

fn check_error(outcome: FedOutcome, status: u16, title: &str, detail: &str) {
    let r = serve_fed(outcome, "F");
    assert_eq!(r.status, status);
    assert_eq!(text_of(&r), page_html(title, detail, false, "F"));
    assert_eq!(headers_of(&r), vec![(s("Content-Type"), s("text/html; charset=utf-8"))]);
}

#[test]
fn serve_fed_invalid_address() {
    check_error(
        FedOutcome::InvalidAddress { url: s("fed://"), error: s("empty host") },
        400,
        "Not a valid Federate address",
        "fed://<br><br>empty host",
    );
}

#[test]
fn serve_fed_not_federate() {
    check_error(
        FedOutcome::NotFederate { host: s("example.com") },
        400,
        "Not a Federate name",
        "<code>example.com</code> is not a valid Federate domain.",
    );
}

#[test]
fn serve_fed_tld_not_found() {
    check_error(
        FedOutcome::TldNotFound { tld: s("zzz") },
        404,
        "Unknown TLD",
        "<code>.zzz</code> is not in the Federate root registry.",
    );
}

#[test]
fn serve_fed_tld_unavailable() {
    check_error(
        FedOutcome::TldUnavailable { tld: s("old"), status: s("frozen") },
        451,
        "TLD unavailable",
        "<code>.old</code> exists but is not resolvable (status: frozen).",
    );
}

#[test]
fn serve_fed_delegated_unavailable() {
    check_error(
        FedOutcome::DelegatedUnavailable { domain: s("a.dl"), tld: s("dl"), reason: s("timeout") },
        502,
        "Registry unreachable",
        "<code>a.dl</code> lives under the delegated TLD <code>.dl</code>, whose registry cannot be reached right now.<br><br>timeout",
    );
}

#[test]
fn serve_fed_domain_not_found() {
    check_error(
        FedOutcome::DomainNotFound { domain: s("none.fed") },
        404,
        "Domain not registered",
        "<code>none.fed</code> is not registered on the Federate Network.",
    );
}

#[test]
fn serve_fed_domain_unavailable() {
    check_error(
        FedOutcome::DomainUnavailable { domain: s("s.fed"), status: s("suspended") },
        451,
        "Domain unavailable",
        "<code>s.fed</code> exists but is not active (status: suspended).",
    );
}

#[test]
fn serve_fed_path_not_found() {
    check_error(
        FedOutcome::PathNotFound { domain: s("home.fed"), path: s("/missing") },
        404,
        "Page not found",
        "<code>home.fed</code> publishes no file at <code>/missing</code>.",
    );
}

#[test]
fn serve_fed_unreachable() {
    check_error(
        FedOutcome::Unreachable { error: s("connection refused") },
        502,
        "Could not reach the Federate Network",
        "connection refused<br><br>Check your connection, or set <code>FEDSURF_BOOTSTRAP</code> to a reachable node.",
    );
}

fn b64_decode(s: &str) -> Vec<u8> {
    let val = |c: u8| -> u32 {
        match c {
            b'A'..=b'Z' => (c - b'A') as u32,
            b'a'..=b'z' => (c - b'a') as u32 + 26,
            b'0'..=b'9' => (c - b'0') as u32 + 52,
            b'+' => 62,
            b'/' => 63,
            _ => 0,
        }
    };
    let mut out = Vec::new();
    for g in s.as_bytes().chunks(4) {
        let n = (val(g[0]) << 18) | (val(g[1]) << 12) | (val(g[2]) << 6) | val(g[3]);
        out.push((n >> 16) as u8);
        if g[2] != b'=' {
            out.push((n >> 8) as u8);
        }
        if g[3] != b'=' {
            out.push(n as u8);
        }
    }
    out
}

#[test]
fn base64_decodes_back() {
    for n in 0..40usize {
        let bytes: Vec<u8> = (0..n).map(|i| (i * 97 + 13) as u8).collect();
        assert_eq!(b64_decode(&base64_encode(&bytes)), bytes);
    }
    assert_eq!(b64_decode(&base64_encode(&[0xff, 0x00, 0xfe, 0x01])), vec![0xff, 0x00, 0xfe, 0x01]);
}

#[test]
fn one_dialect_for_all_spellings() {
    for p in ["", "home.fed", "a.fed/x?y#z", "é/é"] {
        let fed = format!("fed://{p}");
        assert_eq!(canonical_fed_url(&format!("https://fed.localhost/{p}")), fed);
        assert_eq!(canonical_fed_url(&format!("http://fed.localhost/{p}")), fed);
        assert_eq!(canonical_fed_url(&fed), fed);
    }
}

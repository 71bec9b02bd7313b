//! The fed:// protocol handler's own logic: the canonical form of a request
//! URL, and the page (or verified content) that answers each resolution
//! outcome.

use vstd::prelude::*;

use crate::base64::{base64, base64_encode};
use crate::text::{chars_of, has_prefix, matches_at, push_chars_from, string_of};

verus! {

/// How WebView2 surfaces the `fed` scheme over HTTPS.
pub const HTTPS_FED_LOCALHOST: &'static str = "https://fed.localhost/";

/// How WebView2 surfaces the `fed` scheme over plain HTTP.
pub const HTTP_FED_LOCALHOST: &'static str = "http://fed.localhost/";

/// The canonical scheme prefix.
pub const FED_SCHEME: &'static str = "fed://";

/// The canonical `fed://` form of a request URL: the WebView2 spellings
/// `https://fed.localhost/<rest>` and `http://fed.localhost/<rest>` become
/// `fed://<rest>`; anything else is kept as it is.
pub open spec fn canonical_fed_url_spec(raw: Seq<char>) -> Seq<char> {
    if has_prefix(raw, HTTPS_FED_LOCALHOST@) {
        FED_SCHEME@ + raw.skip(HTTPS_FED_LOCALHOST@.len() as int)
    } else if has_prefix(raw, HTTP_FED_LOCALHOST@) {
        FED_SCHEME@ + raw.skip(HTTP_FED_LOCALHOST@.len() as int)
    } else {
        raw
    }
}

/// WebView2 (and Android) surface custom schemes as `https://<scheme>.localhost/...`.
/// Maps those request URLs back to canonical `fed://` form so parsing, state and
/// the address bar all speak one dialect on every platform.
pub fn canonical_fed_url(raw: &str) -> (r: String)
    ensures
        r@ == canonical_fed_url_spec(raw@),
{
    let v = chars_of(raw);
    let https = chars_of(HTTPS_FED_LOCALHOST);
    let http = chars_of(HTTP_FED_LOCALHOST);
    assert(v@.skip(0) =~= v@);
    if matches_at(&v, 0, &https) {
        let mut out = String::new();
        out.append(FED_SCHEME);
        push_chars_from(&mut out, &v, https.len());
        return out;
    }
    if matches_at(&v, 0, &http) {
        let mut out = String::new();
        out.append(FED_SCHEME);
        push_chars_from(&mut out, &v, http.len());
        return out;
    }
    string_of(&v)
}

/// The canonical form is a fixed point: mapping a canonical URL again
/// changes nothing.
pub proof fn lemma_canonical_fed_url_idempotent(raw: Seq<char>)
    ensures
        canonical_fed_url_spec(canonical_fed_url_spec(raw)) == canonical_fed_url_spec(raw),
{
    reveal_strlit("https://fed.localhost/");
    reveal_strlit("http://fed.localhost/");
    reveal_strlit("fed://");
    let c = canonical_fed_url_spec(raw);
    if has_prefix(raw, HTTPS_FED_LOCALHOST@) || has_prefix(raw, HTTP_FED_LOCALHOST@) {
        assert(c[0] == 'f');
        if c.len() >= HTTPS_FED_LOCALHOST@.len() {
            assert(c.take(HTTPS_FED_LOCALHOST@.len() as int)[0] == c[0]);
        }
        if c.len() >= HTTP_FED_LOCALHOST@.len() {
            assert(c.take(HTTP_FED_LOCALHOST@.len() as int)[0] == c[0]);
        }
    }
}


/// One dialect on every platform: the WebView2 spellings
/// `https://fed.localhost/<p>` and `http://fed.localhost/<p>` and the native
/// `fed://<p>` all map to the same canonical URL, `fed://<p>`, which is what
/// the resolver is asked for (so all three get the same answer).
pub proof fn lemma_one_dialect(p: Seq<char>)
    ensures
        canonical_fed_url_spec(HTTPS_FED_LOCALHOST@ + p) == FED_SCHEME@ + p,
        canonical_fed_url_spec(HTTP_FED_LOCALHOST@ + p) == FED_SCHEME@ + p,
        canonical_fed_url_spec(FED_SCHEME@ + p) == FED_SCHEME@ + p,
{
    reveal_strlit("https://fed.localhost/");
    reveal_strlit("http://fed.localhost/");
    reveal_strlit("fed://");
    let https = HTTPS_FED_LOCALHOST@;
    let http = HTTP_FED_LOCALHOST@;
    let fed = FED_SCHEME@;
    let a = https + p;
    assert(a.take(https.len() as int) =~= https);
    assert(a.skip(https.len() as int) =~= p);
    let b = http + p;
    if b.len() >= https.len() {
        assert(b.take(https.len() as int)[4] != https[4]);
    }
    assert(b.take(http.len() as int) =~= http);
    assert(b.skip(http.len() as int) =~= p);
    let c = fed + p;
    if c.len() >= https.len() {
        assert(c.take(https.len() as int)[0] != https[0]);
    }
    if c.len() >= http.len() {
        assert(c.take(http.len() as int)[0] != http[0]);
    }
}

// ---------------------------------------------------------------------------
// Pages and responses
// ---------------------------------------------------------------------------

/// Start of every error page, up to the title.
pub const PAGE_HEAD: &'static str = r#"<!doctype html><html><head><meta charset="utf-8">
<meta name="viewport" content="width=device-width, initial-scale=1">
<title>"#;

/// After the title: the style sheet opens with the embedded fonts.
pub const PAGE_STYLE: &'static str = r#"</title>
<style>
"#;

/// After the fonts: the palette, up to the accent colour.
pub const PAGE_ROOT: &'static str = r#"
  :root {
    --bg: #FBF6F0; --fg: #21211F; --muted: #544329; --border: #E8DEC5;
    --surface: #E8DEC5; --accent: "#;

/// After the accent colour: the rest of the style sheet, up to the heading.
pub const PAGE_BODY: &'static str = r#"; }
  * { margin: 0; box-sizing: border-box; }
  body { background: var(--bg); color: var(--fg); min-height: 100dvh;
    display: grid; place-items: center; padding: 24px;
    font: 15px/1.6 'Averia Serif Libre', Georgia, serif; }
  main { max-width: 560px; width: 100%; }
  .rule { width: 40px; height: 3px; background: var(--accent); margin-bottom: 20px; }
  h1 { font-size: 24px; font-weight: 700; margin-bottom: 12px; }
  p { color: var(--muted); overflow-wrap: break-word; }
  code { font: 440 13px/1.4 'Lilex', ui-monospace, Menlo, monospace;
    background: color-mix(in srgb, var(--surface) 65%, var(--bg));
    border-radius: 4px; padding: 1px 5px; }
  footer { margin-top: 28px; padding-top: 14px; border-top: 1px solid var(--border);
    font: 500 11px/1 'Lilex', ui-monospace, monospace;
    color: var(--muted); letter-spacing: 0.08em; }
</style></head><body><main>
<div class="rule"></div>
<h1>"#;

/// Between the heading and the detail paragraph.
pub const PAGE_TEXT: &'static str = r#"</h1>
<p>"#;

/// End of every error page.
pub const PAGE_FOOT: &'static str = r#"</p>
<footer>FEDSURF &middot; FEDERATE NETWORK</footer>
</main></body></html>"#;

/// Accent colour of security failures (terracotta).
pub const DANGER_ACCENT: &'static str = "#C86439";

/// Accent colour of every other page (bronze).
pub const NORMAL_ACCENT: &'static str = "#AE7A48";

/// The accent colour of a page.
pub open spec fn accent(danger: bool) -> Seq<char> {
    if danger {
        DANGER_ACCENT@
    } else {
        NORMAL_ACCENT@
    }
}

/// The branded HTML page with a title, a detail paragraph (HTML, inserted as
/// it is), the accent of a security failure or of an ordinary error, and the
/// embedded font style sheet.
pub open spec fn page_html_spec(
    title: Seq<char>,
    detail: Seq<char>,
    danger: bool,
    fonts: Seq<char>,
) -> Seq<char> {
    PAGE_HEAD@ + title + PAGE_STYLE@ + fonts + PAGE_ROOT@ + accent(danger) + PAGE_BODY@ + title
        + PAGE_TEXT@ + detail + PAGE_FOOT@
}

/// Renders the branded page (see [`page_html_spec`]); `fonts` is the
/// style sheet that [`font_css`] builds.
pub fn page_html(title: &str, detail: &str, danger: bool, fonts: &str) -> (r: String)
    ensures
        r@ == page_html_spec(title@, detail@, danger, fonts@),
{
    let accent_str = if danger {
        DANGER_ACCENT
    } else {
        NORMAL_ACCENT
    };
    let mut r = String::new();
    r.append(PAGE_HEAD);
    r.append(title);
    r.append(PAGE_STYLE);
    r.append(fonts);
    r.append(PAGE_ROOT);
    r.append(accent_str);
    r.append(PAGE_BODY);
    r.append(title);
    r.append(PAGE_TEXT);
    r.append(detail);
    r.append(PAGE_FOOT);
    r
}

// ---------------------------------------------------------------------------
// Embedded fonts
// ---------------------------------------------------------------------------

/// One `@font-face` rule whose source is the woff2 file itself, embedded as
/// a base64 data URL.
pub open spec fn font_face_spec(
    family: Seq<char>,
    style: Seq<char>,
    weight: Seq<char>,
    bytes: Seq<u8>,
) -> Seq<char> {
    "@font-face{font-family:'"@ + family + "';font-style:"@ + style + ";font-weight:"@ + weight
        + ";src:url(data:font/woff2;base64,"@ + base64(bytes) + ") format('woff2')}"@
}

/// Builds one `@font-face` rule (see [`font_face_spec`]).
pub fn font_face(family: &str, style: &str, weight: &str, bytes: &[u8]) -> (r: String)
    ensures
        r@ == font_face_spec(family@, style@, weight@, bytes@),
{
    let mut r = String::new();
    r.append("@font-face{font-family:'");
    r.append(family);
    r.append("';font-style:");
    r.append(style);
    r.append(";font-weight:");
    r.append(weight);
    r.append(";src:url(data:font/woff2;base64,");
    let encoded = base64_encode(bytes);
    r.append(encoded.as_str());
    r.append(") format('woff2')}");
    r
}

/// The browser-UI fonts as a style sheet: Averia Serif Libre regular (400)
/// and bold (700), and the Lilex variable font (100 to 700), one rule per
/// line, so that error pages render them without any asset origin.
pub open spec fn font_css_spec(serif_regular: Seq<u8>, serif_bold: Seq<u8>, mono: Seq<u8>) -> Seq<
    char,
> {
    font_face_spec("Averia Serif Libre"@, "normal"@, "400"@, serif_regular) + "\n"@
        + font_face_spec("Averia Serif Libre"@, "normal"@, "700"@, serif_bold) + "\n"@
        + font_face_spec("Lilex"@, "normal"@, "100 700"@, mono)
}

/// Builds the font style sheet from the three woff2 files (see
/// [`font_css_spec`]).
pub fn font_css(serif_regular: &[u8], serif_bold: &[u8], mono: &[u8]) -> (r: String)
    ensures
        r@ == font_css_spec(serif_regular@, serif_bold@, mono@),
{
    let mut r = font_face("Averia Serif Libre", "normal", "400", serif_regular);
    r.append("\n");
    let bold = font_face("Averia Serif Libre", "normal", "700", serif_bold);
    r.append(bold.as_str());
    r.append("\n");
    let lilex = font_face("Lilex", "normal", "100 700", mono);
    r.append(lilex.as_str());
    r
}

// ---------------------------------------------------------------------------
// Responses
// ---------------------------------------------------------------------------

/// One response header.
pub struct Header {
    pub name: String,
    pub value: String,
}

/// A response body: HTML text or raw bytes.
pub enum Body {
    Text(String),
    Bytes(Vec<u8>),
}

/// An HTTP response of a custom scheme handler.
pub struct HttpResponse {
    pub status: u16,
    pub headers: Vec<Header>,
    pub body: Body,
}

/// The mathematical content of a [`Body`].
pub enum BodyView {
    Text(Seq<char>),
    Bytes(Seq<u8>),
}

/// The mathematical content of an [`HttpResponse`].
pub struct ResponseView {
    pub status: u16,
    pub headers: Seq<(Seq<char>, Seq<char>)>,
    pub body: BodyView,
}

impl View for Header {
    type V = (Seq<char>, Seq<char>);

    open spec fn view(&self) -> (Seq<char>, Seq<char>) {
        (self.name@, self.value@)
    }
}

impl View for Body {
    type V = BodyView;

    open spec fn view(&self) -> BodyView {
        match self {
            Body::Text(t) => BodyView::Text(t@),
            Body::Bytes(b) => BodyView::Bytes(b@),
        }
    }
}

impl View for HttpResponse {
    type V = ResponseView;

    open spec fn view(&self) -> ResponseView {
        ResponseView {
            status: self.status,
            headers: self.headers@.map_values(|h: Header| h@),
            body: self.body@,
        }
    }
}

/// A header from two string slices.
pub fn header(name: &str, value: &str) -> (h: Header)
    ensures
        h@ == (name@, value@),
{
    let n = chars_of(name);
    let v = chars_of(value);
    Header { name: string_of(&n), value: string_of(&v) }
}

/// The response that carries an HTML page.
pub open spec fn html_response(status: u16, html: Seq<char>) -> ResponseView {
    ResponseView {
        status,
        headers: seq![("Content-Type"@, "text/html; charset=utf-8"@)],
        body: BodyView::Text(html),
    }
}

/// An error page: the branded page with the ordinary accent.
pub open spec fn error_page_spec(
    status: u16,
    title: Seq<char>,
    detail: Seq<char>,
    fonts: Seq<char>,
) -> ResponseView {
    html_response(status, page_html_spec(title, detail, false, fonts))
}

fn html_page_response(status: u16, html: String) -> (r: HttpResponse)
    ensures
        r@ == html_response(status, html@),
{
    let mut headers: Vec<Header> = Vec::new();
    headers.push(header("Content-Type", "text/html; charset=utf-8"));
    let r = HttpResponse { status, headers, body: Body::Text(html) };
    assert(r@.headers =~= seq![("Content-Type"@, "text/html; charset=utf-8"@)]);
    r
}

/// Answers with the branded error page.
pub fn error_page(status: u16, title: &str, detail: &str, fonts: &str) -> (r: HttpResponse)
    ensures
        r@ == error_page_spec(status, title@, detail@, fonts@),
{
    let body = page_html(title, detail, false, fonts);
    html_page_response(status, body)
}

/// The detail paragraph of a verification failure.
pub open spec fn security_detail(domain: Seq<char>, layer: Seq<char>, reason: Seq<char>) -> Seq<
    char,
> {
    "Verification failed for <code>"@ + domain + "</code> at the <strong>"@ + layer
        + "</strong> layer.<br><br>"@ + reason
        + "<br><br>Fedsurf refused to render this content. This can mean tampering somewhere between you and the publisher."@
}

/// A verification failure: a distinct page with the danger accent, status
/// 502; the content is never part of it.
pub open spec fn security_page_spec(
    domain: Seq<char>,
    layer: Seq<char>,
    reason: Seq<char>,
    fonts: Seq<char>,
) -> ResponseView {
    html_response(
        502,
        page_html_spec(
            "Content failed verification"@,
            security_detail(domain, layer, reason),
            true,
            fonts,
        ),
    )
}

/// Verification failures get a distinct, unmissable page: content is never
/// rendered when any signature or hash in the chain fails.
pub fn security_page(domain: &str, layer: &str, reason: &str, fonts: &str) -> (r: HttpResponse)
    ensures
        r@ == security_page_spec(domain@, layer@, reason@, fonts@),
{
    let mut detail = String::new();
    detail.append("Verification failed for <code>");
    detail.append(domain);
    detail.append("</code> at the <strong>");
    detail.append(layer);
    detail.append("</strong> layer.<br><br>");
    detail.append(reason);
    detail.append("<br><br>Fedsurf refused to render this content. This can mean tampering somewhere between you and the publisher.",
    );
    let body = page_html("Content failed verification", detail.as_str(), true, fonts);
    html_page_response(502, body)
}

// ---------------------------------------------------------------------------
// Answering a fed:// request
// ---------------------------------------------------------------------------

/// How a fed:// request came out: the address did not parse, the resolver
/// could not be reached, or one of the resolver's answers (its messages and
/// status values as text).
pub enum FedOutcome {
    /// The canonical URL is not a Federate address; `error` says why.
    InvalidAddress { url: String, error: String },
    /// Content whose signature chain and hash were verified.
    Content { bytes: Vec<u8>, mime: String, hash: String },
    NotFederate { host: String },
    TldNotFound { tld: String },
    TldUnavailable { tld: String, status: String },
    DelegatedUnavailable { domain: String, tld: String, reason: String },
    DomainNotFound { domain: String },
    DomainUnavailable { domain: String, status: String },
    PathNotFound { domain: String, path: String },
    /// A signature or hash in the chain failed at `layer`.
    SecurityFailure { domain: String, layer: String, reason: String },
    /// The Federate Network could not be reached.
    Unreachable { error: String },
}

/// The response to verified content: status 200, its MIME type, the
/// content hash as quoted ETag, the verification marker, and the bytes.
pub open spec fn content_response(bytes: Seq<u8>, mime: Seq<char>, hash: Seq<char>) -> ResponseView {
    ResponseView {
        status: 200,
        headers: seq![
            ("Content-Type"@, mime),
            ("ETag"@, "\""@ + hash + "\""@),
            ("X-Federate-Verified"@, "signature-chain+content-hash"@),
        ],
        body: BodyView::Bytes(bytes),
    }
}

/// The response to each outcome of a fed:// request.
pub open spec fn fed_response(o: FedOutcome, fonts: Seq<char>) -> ResponseView {
    match o {
        FedOutcome::Content { bytes, mime, hash } => content_response(bytes@, mime@, hash@),
        FedOutcome::SecurityFailure { domain, layer, reason } => security_page_spec(
            domain@,
            layer@,
            reason@,
            fonts,
        ),
        FedOutcome::InvalidAddress { url, error } => error_page_spec(
            400,
            "Not a valid Federate address"@,
            url@ + "<br><br>"@ + error@,
            fonts,
        ),
        FedOutcome::NotFederate { host } => error_page_spec(
            400,
            "Not a Federate name"@,
            "<code>"@ + host@ + "</code> is not a valid Federate domain."@,
            fonts,
        ),
        FedOutcome::TldNotFound { tld } => error_page_spec(
            404,
            "Unknown TLD"@,
            "<code>."@ + tld@ + "</code> is not in the Federate root registry."@,
            fonts,
        ),
        FedOutcome::TldUnavailable { tld, status } => error_page_spec(
            451,
            "TLD unavailable"@,
            "<code>."@ + tld@ + "</code> exists but is not resolvable (status: "@ + status@ + ")."@,
            fonts,
        ),
        FedOutcome::DelegatedUnavailable { domain, tld, reason } => error_page_spec(
            502,
            "Registry unreachable"@,
            "<code>"@ + domain@ + "</code> lives under the delegated TLD <code>."@ + tld@ + "</code>, whose registry cannot be reached right now.<br><br>"@ + reason@,
            fonts,
        ),
        FedOutcome::DomainNotFound { domain } => error_page_spec(
            404,
            "Domain not registered"@,
            "<code>"@ + domain@ + "</code> is not registered on the Federate Network."@,
            fonts,
        ),
        FedOutcome::DomainUnavailable { domain, status } => error_page_spec(
            451,
            "Domain unavailable"@,
            "<code>"@ + domain@ + "</code> exists but is not active (status: "@ + status@ + ")."@,
            fonts,
        ),
        FedOutcome::PathNotFound { domain, path } => error_page_spec(
            404,
            "Page not found"@,
            "<code>"@ + domain@ + "</code> publishes no file at <code>"@ + path@ + "</code>."@,
            fonts,
        ),
        FedOutcome::Unreachable { error } => error_page_spec(
            502,
            "Could not reach the Federate Network"@,
            error@ + "<br><br>Check your connection, or set <code>FEDSURF_BOOTSTRAP</code> to a reachable node."@,
            fonts,
        ),
    }
}

/// Answers a fed:// request from its outcome (see [`fed_response`]).
pub fn serve_fed(outcome: FedOutcome, fonts: &str) -> (r: HttpResponse)
    ensures
        r@ == fed_response(outcome, fonts@),
{
    match outcome {
        FedOutcome::Content { bytes, mime, hash } => {
            let mut etag = String::new();
            etag.append("\"");
            etag.append(hash.as_str());
            etag.append("\"");
            let mut headers: Vec<Header> = Vec::new();
            headers.push(Header { name: string_of(&chars_of("Content-Type")), value: mime });
            headers.push(Header { name: string_of(&chars_of("ETag")), value: etag });
            headers.push(header("X-Federate-Verified", "signature-chain+content-hash"));
            let r = HttpResponse { status: 200, headers, body: Body::Bytes(bytes) };
            assert(r@.headers =~= content_response(bytes@, mime@, hash@).headers);
            r
        },
        FedOutcome::SecurityFailure { domain, layer, reason } => security_page(
            domain.as_str(),
            layer.as_str(),
            reason.as_str(),
            fonts,
        ),
        FedOutcome::InvalidAddress { url, error } => {
            let mut d = String::new();
            d.append(url.as_str());
            d.append("<br><br>");
            d.append(error.as_str());
            error_page(400, "Not a valid Federate address", d.as_str(), fonts)
        },
        FedOutcome::NotFederate { host } => {
            let mut d = String::new();
            d.append("<code>");
            d.append(host.as_str());
            d.append("</code> is not a valid Federate domain.");
            error_page(400, "Not a Federate name", d.as_str(), fonts)
        },
        FedOutcome::TldNotFound { tld } => {
            let mut d = String::new();
            d.append("<code>.");
            d.append(tld.as_str());
            d.append("</code> is not in the Federate root registry.");
            error_page(404, "Unknown TLD", d.as_str(), fonts)
        },
        FedOutcome::TldUnavailable { tld, status } => {
            let mut d = String::new();
            d.append("<code>.");
            d.append(tld.as_str());
            d.append("</code> exists but is not resolvable (status: ");
            d.append(status.as_str());
            d.append(").");
            error_page(451, "TLD unavailable", d.as_str(), fonts)
        },
        FedOutcome::DelegatedUnavailable { domain, tld, reason } => {
            let mut d = String::new();
            d.append("<code>");
            d.append(domain.as_str());
            d.append("</code> lives under the delegated TLD <code>.");
            d.append(tld.as_str());
            d.append("</code>, whose registry cannot be reached right now.<br><br>");
            d.append(reason.as_str());
            error_page(502, "Registry unreachable", d.as_str(), fonts)
        },
        FedOutcome::DomainNotFound { domain } => {
            let mut d = String::new();
            d.append("<code>");
            d.append(domain.as_str());
            d.append("</code> is not registered on the Federate Network.");
            error_page(404, "Domain not registered", d.as_str(), fonts)
        },
        FedOutcome::DomainUnavailable { domain, status } => {
            let mut d = String::new();
            d.append("<code>");
            d.append(domain.as_str());
            d.append("</code> exists but is not active (status: ");
            d.append(status.as_str());
            d.append(").");
            error_page(451, "Domain unavailable", d.as_str(), fonts)
        },
        FedOutcome::PathNotFound { domain, path } => {
            let mut d = String::new();
            d.append("<code>");
            d.append(domain.as_str());
            d.append("</code> publishes no file at <code>");
            d.append(path.as_str());
            d.append("</code>.");
            error_page(404, "Page not found", d.as_str(), fonts)
        },
        FedOutcome::Unreachable { error } => {
            let mut d = String::new();
            d.append(error.as_str());
            d.append("<br><br>Check your connection, or set <code>FEDSURF_BOOTSTRAP</code> to a reachable node.");
            error_page(502, "Could not reach the Federate Network", d.as_str(), fonts)
        },
    }
}

/// Only verified content is ever answered with status 200 or with bytes:
/// every failure, a failed verification above all, gets an HTML page.
pub proof fn lemma_only_verified_content_is_served(o: FedOutcome, fonts: Seq<char>)
    ensures
        fed_response(o, fonts).status == 200 <==> o is Content,
        fed_response(o, fonts).body is Bytes <==> o is Content,
        o matches FedOutcome::SecurityFailure { domain, layer, reason } ==> fed_response(
            o,
            fonts,
        ).status == 502 && fed_response(o, fonts).body == BodyView::Text(
            page_html_spec(
                "Content failed verification"@,
                security_detail(domain@, layer@, reason@),
                true,
                fonts,
            ),
        ),
{
}

} // verus!

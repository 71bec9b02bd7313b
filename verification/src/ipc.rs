//! The `fedsurf-ipc://` channel: how tab pages (remote origins with no IPC
//! bridge) talk back to the browser. The injected script POSTs small JSON
//! messages; the webview label of the sender tells which tab sent them.
//!
//! Only two message kinds exist, both low-privilege by design (a hostile page
//! can at worst rearrange tabs, never touch the filesystem or other origins):
//!   meta     { url, favicon }  -> update that tab's sidebar entry
//!   shortcut { action }        -> keyboard shortcut forwarded from the page

use vstd::prelude::*;

use crate::decimal::{parse_unsigned, parse_unsigned_chars};
use crate::fed_protocol::{header, Body, BodyView, Header, HttpResponse, ResponseView};
use crate::tabs::{opt_view, tab_label, TabId};
use crate::text::{chars_of, has_prefix, matches_at, str_eq};

verus! {

/// A message from a tab page, as decoded from its JSON body; the optional
/// fields are absent when the JSON leaves them out.
pub struct IpcMsg {
    pub kind: String,
    pub url: Option<String>,
    pub favicon: Option<String>,
    pub action: Option<String>,
}

/// What the browser does with a message.
pub enum IpcCommand {
    /// Nothing: the sender is not a tab, the body did not decode, or the kind
    /// is unknown.
    Ignore,
    /// Update the sidebar entry of tab `id` (its URL when given, and its
    /// favicon, empty when none was reported).
    Meta { id: TabId, url: Option<String>, favicon: String },
    /// Run a keyboard shortcut that the page captured.
    Shortcut { action: String },
}

/// The mathematical content of an [`IpcCommand`].
pub enum IpcCommandView {
    Ignore,
    Meta { id: TabId, url: Option<Seq<char>>, favicon: Seq<char> },
    Shortcut { action: Seq<char> },
}

impl View for IpcCommand {
    type V = IpcCommandView;

    open spec fn view(&self) -> IpcCommandView {
        match self {
            IpcCommand::Ignore => IpcCommandView::Ignore,
            IpcCommand::Meta { id, url, favicon } => IpcCommandView::Meta {
                id: *id,
                url: opt_view(*url),
                favicon: favicon@,
            },
            IpcCommand::Shortcut { action } => IpcCommandView::Shortcut { action: action@ },
        }
    }
}

/// The tab a webview label names: `tab-` followed by a number that fits a
/// tab id, as `str::parse` reads it.
pub open spec fn label_tab_id(label: Seq<char>) -> Option<TabId> {
    if has_prefix(label, "tab-"@) {
        match parse_unsigned(label.skip("tab-"@.len() as int), u32::MAX as nat) {
            Some(n) => Some(n as TabId),
            None => None,
        }
    } else {
        None
    }
}

/// The tab a webview label names, if it names one (see [`label_tab_id`]).
pub fn tab_id_from_label(label: &str) -> (r: Option<TabId>)
    ensures
        r == label_tab_id(label@),
{
    let v = chars_of(label);
    let prefix = chars_of("tab-");
    assert(v@.skip(0) =~= v@);
    if !matches_at(&v, 0, &prefix) {
        return None;
    }
    match parse_unsigned_chars(&v, prefix.len(), u32::MAX as u64) {
        Some(n) => Some(n as TabId),
        None => None,
    }
}

/// The label of a tab names that tab again: labels and ids round-trip.
pub proof fn lemma_label_round_trip(id: TabId)
    ensures
        label_tab_id(tab_label(id)) == Some(id),
{
    let l = tab_label(id);
    let p = "tab-"@;
    assert(l.take(p.len() as int) =~= p);
    assert(l.skip(p.len() as int) =~= crate::decimal::decimal(id as nat));
    crate::decimal::lemma_parse_decimal(id as nat, u32::MAX as nat);
}

/// What the browser does with a message body decoded from a tab page
/// labelled `label` (`None` when the body did not decode).
pub open spec fn ipc_command(label: Seq<char>, msg: Option<IpcMsg>) -> IpcCommandView {
    match label_tab_id(label) {
        None => IpcCommandView::Ignore,
        Some(id) => match msg {
            None => IpcCommandView::Ignore,
            Some(m) => if m.kind@ == "meta"@ {
                IpcCommandView::Meta {
                    id,
                    url: opt_view(m.url),
                    favicon: match m.favicon {
                        Some(f) => f@,
                        None => Seq::empty(),
                    },
                }
            } else if m.kind@ == "shortcut"@ {
                match m.action {
                    Some(a) => IpcCommandView::Shortcut { action: a@ },
                    None => IpcCommandView::Ignore,
                }
            } else {
                IpcCommandView::Ignore
            },
        },
    }
}

/// Decides what a message from the page in webview `label` asks for (see
/// [`ipc_command`]).
pub fn handle(label: &str, msg: Option<IpcMsg>) -> (r: IpcCommand)
    ensures
        r@ == ipc_command(label@, msg),
{
    let id = match tab_id_from_label(label) {
        Some(id) => id,
        None => return IpcCommand::Ignore,
    };
    let m = match msg {
        Some(m) => m,
        None => return IpcCommand::Ignore,
    };
    if str_eq(m.kind.as_str(), "meta") {
        let favicon = match m.favicon {
            Some(f) => f,
            None => String::new(),
        };
        IpcCommand::Meta { id, url: m.url, favicon }
    } else if str_eq(m.kind.as_str(), "shortcut") {
        match m.action {
            Some(a) => IpcCommand::Shortcut { action: a },
            None => IpcCommand::Ignore,
        }
    } else {
        IpcCommand::Ignore
    }
}

/// The answer to every `fedsurf-ipc` request: permissive CORS headers, so
/// that `fetch()` from any page origin succeeds, and the body `ok` (the
/// request is one-way telemetry; nothing sensitive flows back).
pub open spec fn cors_response_spec() -> ResponseView {
    ResponseView {
        status: 200,
        headers: seq![
            ("Access-Control-Allow-Origin"@, "*"@),
            ("Access-Control-Allow-Methods"@, "POST, OPTIONS"@),
            ("Access-Control-Allow-Headers"@, "*"@),
            ("Content-Type"@, "text/plain"@),
        ],
        body: BodyView::Bytes(seq![111u8, 107u8]),
    }
}

/// Builds the answer to a `fedsurf-ipc` request (see [`cors_response_spec`]).
pub fn cors_response() -> (r: HttpResponse)
    ensures
        r@ == cors_response_spec(),
{
    let mut headers: Vec<Header> = Vec::new();
    headers.push(header("Access-Control-Allow-Origin", "*"));
    headers.push(header("Access-Control-Allow-Methods", "POST, OPTIONS"));
    headers.push(header("Access-Control-Allow-Headers", "*"));
    headers.push(header("Content-Type", "text/plain"));
    let mut body: Vec<u8> = Vec::new();
    body.push(111u8);
    body.push(107u8);
    let r = HttpResponse { status: 200, headers, body: Body::Bytes(body) };
    assert(r@.headers =~= cors_response_spec().headers);
    assert(body@ =~= seq![111u8, 107u8]);
    r
}

} // verus!

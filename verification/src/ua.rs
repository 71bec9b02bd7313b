//! Per-platform user agent and the script injected into every tab webview.
//!
//! The user agent matters: WKWebView/WebKitGTK's bare default (no
//! `Version/x Safari/x` token) makes Google & friends serve their legacy
//! no-JS pages, so a plain Safari user agent is presented instead. Windows
//! keeps WebView2's Chromium default.

use vstd::prelude::*;

use crate::text::{replace_all, replaced};

verus! {

/// The operating system the browser runs on, as far as its behaviour differs.
#[derive(Debug, PartialEq, Eq, Structural, Clone, Copy)]
pub enum Platform {
    MacOs,
    Windows,
    Linux,
    Other,
}

/// The platform named by Rust's operating-system name (`std::env::consts::OS`).
pub open spec fn platform_named(os: Seq<char>) -> Platform {
    if os == "macos"@ {
        Platform::MacOs
    } else if os == "windows"@ {
        Platform::Windows
    } else if os == "linux"@ {
        Platform::Linux
    } else {
        Platform::Other
    }
}

/// The platform named by an operating-system name (see [`platform_named`]).
pub fn platform_of(os: &str) -> (p: Platform)
    ensures
        p == platform_named(os@),
{
    if crate::text::str_eq(os, "macos") {
        Platform::MacOs
    } else if crate::text::str_eq(os, "windows") {
        Platform::Windows
    } else if crate::text::str_eq(os, "linux") {
        Platform::Linux
    } else {
        Platform::Other
    }
}

/// Safari's user agent on macOS.
pub const MACOS_USER_AGENT: &'static str = "Mozilla/5.0 (Macintosh; Intel Mac OS X 10_15_7) AppleWebKit/605.1.15 (KHTML, like Gecko) Version/17.6 Safari/605.1.15";

/// Safari's user agent, as WebKitGTK on Linux presents it.
pub const LINUX_USER_AGENT: &'static str = "Mozilla/5.0 (X11; Linux x86_64) AppleWebKit/605.1.15 (KHTML, like Gecko) Version/17.6 Safari/605.1.15";

/// The user agent tab webviews present: Safari's on macOS and Linux; none
/// (the engine's default) elsewhere.
pub open spec fn user_agent_spec(p: Platform) -> Option<Seq<char>> {
    match p {
        Platform::MacOs => Some(MACOS_USER_AGENT@),
        Platform::Linux => Some(LINUX_USER_AGENT@),
        _ => None,
    }
}

/// The user agent tab webviews present on `p` (see [`user_agent_spec`]).
pub fn user_agent(p: Platform) -> (r: Option<&'static str>)
    ensures
        match r {
            Some(u) => user_agent_spec(p) == Some(u@),
            None => user_agent_spec(p) is None,
        },
{
    match p {
        Platform::MacOs => Some(MACOS_USER_AGENT),
        Platform::Linux => Some(LINUX_USER_AGENT),
        _ => None,
    }
}

/// Where the injected script reports on Windows, whose WebView2 exposes
/// custom schemes as `https://<scheme>.localhost`.
pub const WINDOWS_IPC_ENDPOINT: &'static str = "https://fedsurf-ipc.localhost/report";

/// Where the injected script reports elsewhere.
pub const IPC_ENDPOINT: &'static str = "fedsurf-ipc://localhost/report";

/// Where the injected script phones home. Tab pages are remote origins, so
/// the IPC bridge is unavailable; instead they POST to the `fedsurf-ipc`
/// scheme.
pub open spec fn ipc_endpoint_spec(p: Platform) -> Seq<char> {
    if p == Platform::Windows {
        WINDOWS_IPC_ENDPOINT@
    } else {
        IPC_ENDPOINT@
    }
}

/// The script's flag for macOS, where the native menu handles shortcuts.
pub open spec fn is_mac_spec(p: Platform) -> Seq<char> {
    if p == Platform::MacOs {
        "true"@
    } else {
        "false"@
    }
}

/// The script injected into every page a tab loads, with its two
/// placeholders, `__ENDPOINT__` and `__IS_MAC__`.
pub const TEMPLATE: &'static str = r##"
(function () {
  if (window.__fedsurf) return;
  window.__fedsurf = true;

  /* ---- Federate scrollbar ------------------------------------------- */
  var css = [
    '::-webkit-scrollbar { width: 12px; height: 12px; }',
    '::-webkit-scrollbar-track { background: transparent; }',
    '::-webkit-scrollbar-thumb {',
    '  background: rgba(174, 122, 72, 0.55);',
    '  border-radius: 999px;',
    '  border: 3px solid transparent;',
    '  background-clip: padding-box;',
    '  min-height: 40px;',
    '}',
    '::-webkit-scrollbar-thumb:hover { background: rgba(174, 122, 72, 0.85); background-clip: padding-box; }',
    '::-webkit-scrollbar-thumb:active { background: #544329; background-clip: padding-box; }',
    '::-webkit-scrollbar-corner { background: transparent; }'
  ].join('\n');
  function addStyle() {
    if (document.getElementById('__fedsurf-scrollbar')) return;
    var s = document.createElement('style');
    s.id = '__fedsurf-scrollbar';
    s.textContent = css;
    (document.head || document.documentElement).appendChild(s);
  }
  addStyle();
  document.addEventListener('DOMContentLoaded', addStyle);

  /* ---- metadata reporting ------------------------------------------- */
  var ENDPOINT = '__ENDPOINT__';
  var IS_MAC = __IS_MAC__;
  function send(msg) {
    try {
      fetch(ENDPOINT, { method: 'POST', mode: 'no-cors', keepalive: true, body: JSON.stringify(msg) })
        .catch(function () {});
    } catch (e) {}
  }
  function favicon() {
    var best = '', bestScore = -1;
    var links = document.querySelectorAll('link[rel~="icon"], link[rel="shortcut icon"], link[rel="apple-touch-icon"]');
    for (var i = 0; i < links.length; i++) {
      var l = links[i];
      var href = l.getAttribute('href');
      if (!href) continue;
      var rel = (l.getAttribute('rel') || '').toLowerCase();
      var score = rel.indexOf('apple-touch') !== -1 ? 1 : 2;
      var size = parseInt((l.getAttribute('sizes') || ''), 10) || 0;
      if (size >= 24 && size <= 64) score += 2;
      else if (size > 64) score += 1;
      if (score > bestScore) {
        try { best = new URL(href, document.baseURI).href; bestScore = score; } catch (e) {}
      }
    }
    return best;
  }
  var last = '';
  function report() {
    var msg = { kind: 'meta', url: location.href, favicon: favicon() };
    var key = msg.url + '|' + msg.favicon;
    if (key === last) return;
    last = key;
    send(msg);
  }
  if (document.readyState === 'loading') document.addEventListener('DOMContentLoaded', report);
  else report();
  window.addEventListener('load', function () { setTimeout(report, 50); });
  ['pushState', 'replaceState'].forEach(function (m) {
    var orig = history[m];
    if (!orig) return;
    history[m] = function () {
      var r = orig.apply(this, arguments);
      setTimeout(report, 0);
      return r;
    };
  });
  window.addEventListener('popstate', function () { setTimeout(report, 0); });
  window.addEventListener('hashchange', function () { setTimeout(report, 0); });

  /* ---- browser shortcuts (fire even while the page has focus) --------
     macOS is excluded: the native menu handles accelerators there, and a
     preventDefault here would suppress it (WKWebView gives the page first
     crack at key equivalents). */
  if (IS_MAC) return;
  window.addEventListener('keydown', function (e) {
    var action = '';
    if (e.ctrlKey && !e.metaKey && !e.altKey && e.key === 'Tab') {
      action = e.shiftKey ? 'prev-tab' : 'next-tab';
    } else {
      var mod = IS_MAC ? (e.metaKey && !e.ctrlKey) : (e.ctrlKey && !e.metaKey);
      if (mod && !e.altKey && !e.shiftKey) {
        var k = e.key.toLowerCase();
        if (k === 't') action = 'new-tab';
        else if (k === 'w') action = 'close-tab';
        else if (k === 'l') action = 'focus-address';
        else if (k === 'b') action = 'toggle-sidebar';
        else if (k === 'r') action = 'reload';
        else if (k === '[') action = 'back';
        else if (k === ']') action = 'forward';
        else if (k >= '1' && k <= '9') action = 'tab-' + k;
      }
    }
    if (action) {
      e.preventDefault();
      send({ kind: 'shortcut', action: action });
    }
  }, true);
})();
"##;

/// The injected script for platform `p`: the template with the report
/// endpoint and the macOS flag filled in.
pub open spec fn init_script_spec(p: Platform) -> Seq<char> {
    replaced(
        replaced(TEMPLATE@, "__ENDPOINT__"@, ipc_endpoint_spec(p)),
        "__IS_MAC__"@,
        is_mac_spec(p),
    )
}

/// Injected into every page a tab loads (any scheme):
///   1. Federate-styled scrollbar.
///   2. Reports url + best favicon to the fedsurf-ipc scheme (incl. SPA navs).
///   3. Captures browser shortcuts that pages would otherwise swallow.
pub fn init_script(p: Platform) -> (r: String)
    ensures
        r@ == init_script_spec(p),
{
    let endpoint = if p == Platform::Windows {
        WINDOWS_IPC_ENDPOINT
    } else {
        IPC_ENDPOINT
    };
    let is_mac = if p == Platform::MacOs {
        "true"
    } else {
        "false"
    };
    proof {
        reveal_strlit("__ENDPOINT__");
        reveal_strlit("__IS_MAC__");
    }
    let first = replace_all(TEMPLATE, "__ENDPOINT__", endpoint);
    replace_all(first.as_str(), "__IS_MAC__", is_mac)
}

} // verus!

verus! {

/// The injected script tells macOS, and only macOS, that it runs there:
/// every other platform gets `false`, so its pages capture the browser
/// shortcuts; Windows, and only Windows, reports to the `https://` form of
/// the endpoint. Both placeholders of the template are filled in, the
/// endpoint first.
pub proof fn lemma_script_flags(p: Platform)
    ensures
        init_script_spec(p) == replaced(
            replaced(
                TEMPLATE@,
                "__ENDPOINT__"@,
                if p == Platform::Windows {
                    "https://fedsurf-ipc.localhost/report"@
                } else {
                    "fedsurf-ipc://localhost/report"@
                },
            ),
            "__IS_MAC__"@,
            if p == Platform::MacOs {
                "true"@
            } else {
                "false"@
            },
        ),
        p != Platform::MacOs ==> is_mac_spec(p) == "false"@,
        p == Platform::MacOs ==> is_mac_spec(p) == "true"@,
{
}

} // verus!

//! The tab model. The browser owns the list of tabs: their order, their
//! metadata, which one is active and the next id to hand out. Every operation
//! of the chrome (create, activate, close, move, metadata updates, keyboard
//! navigation) is a method here from the current state to the next state and
//! the action the window has to carry out.

use std::collections::HashMap;
use vstd::prelude::*;

use crate::decimal::{decimal, parse_unsigned, parse_unsigned_chars, push_decimal};
use crate::fed_protocol::{canonical_fed_url, canonical_fed_url_spec};
use crate::text::{
    before_fragment, chars_of, has_prefix, matches_at, same_before_fragment, str_eq,
    string_of,
};

verus! {

broadcast use vstd::std_specs::hash::group_hash_axioms;

/// Identifier of a tab; its webview is labelled `tab-<id>`.
pub type TabId = u32;

/// The page a new tab opens when no URL is given, and where the last tab goes
/// instead of closing.
pub const HOME_URL: &'static str = "fed://home.fed";

/// The Federate search page that non-address input is sent to.
pub const SEARCH_URL: &'static str = "fed://fed.busca";

/// Sidebar metadata of one tab.
pub struct TabMeta {
    pub url: String,
    pub title: String,
    pub favicon: String,
    pub loading: bool,
}

/// The mathematical content of a [`TabMeta`].
pub struct TabMetaView {
    pub url: Seq<char>,
    pub title: Seq<char>,
    pub favicon: Seq<char>,
    pub loading: bool,
}

impl View for TabMeta {
    type V = TabMetaView;

    open spec fn view(&self) -> TabMetaView {
        TabMetaView {
            url: self.url@,
            title: self.title@,
            favicon: self.favicon@,
            loading: self.loading,
        }
    }
}

impl Default for TabMeta {
    fn default() -> (m: Self)
        ensures
            m@ == empty_meta(Seq::empty(), false),
    {
        TabMeta { url: String::new(), title: String::new(), favicon: String::new(), loading: false }
    }
}

/// Metadata with the given URL and loading flag, no title and no favicon.
pub open spec fn empty_meta(url: Seq<char>, loading: bool) -> TabMetaView {
    TabMetaView { url, title: Seq::empty(), favicon: Seq::empty(), loading }
}

impl TabMeta {
    /// A field-by-field copy.
    pub fn copy(&self) -> (r: TabMeta)
        ensures
            r@ == self@,
    {
        TabMeta {
            url: self.url.clone(),
            title: self.title.clone(),
            favicon: self.favicon.clone(),
            loading: self.loading,
        }
    }
}

/// One row of the sidebar: a tab id and its metadata.
pub struct TabInfo {
    pub id: TabId,
    pub meta: TabMeta,
}

/// The authoritative tab list handed to the chrome.
pub struct TabsSnapshot {
    pub tabs: Vec<TabInfo>,
    pub active: Option<TabId>,
    pub platform: String,
}

/// The mathematical content of a [`TabState`].
pub struct TabsView {
    pub order: Seq<TabId>,
    pub meta: Map<TabId, TabMetaView>,
    pub active: Option<TabId>,
    pub next_id: nat,
}

/// The tab state is consistent: every tab occurs once in the order and has
/// metadata, nothing else has metadata, the active tab (if any) is open, and
/// every open id is below the next id to hand out.
pub open spec fn tabs_wf(v: TabsView) -> bool {
    &&& v.order.no_duplicates()
    &&& forall|id: TabId| #[trigger] v.meta.contains_key(id) <==> v.order.contains(id)
    &&& (v.active matches Some(a) ==> v.order.contains(a))
    &&& forall|i: int| 0 <= i < v.order.len() ==> #[trigger] v.order[i] < v.next_id
}

/// What closing a tab asks of the window.
#[derive(Debug, PartialEq, Eq, Structural)]
pub enum CloseOutcome {
    /// The tab was not open: nothing to do.
    NotOpen,
    /// It was the last tab: it stays, and navigates to the home page.
    GoHome,
    /// The tab is gone; its webview is to be closed. When it was the active
    /// tab, `next_active` is the tab to activate in its place.
    Closed { next_active: Option<TabId> },
}

/// The tab list: order, metadata, active tab and id counter.
pub struct TabState {
    order: Vec<TabId>,
    meta: HashMap<TabId, TabMeta>,
    active: Option<TabId>,
    next_id: TabId,
}

impl View for TabState {
    type V = TabsView;

    closed spec fn view(&self) -> TabsView {
        TabsView {
            order: self.order@,
            meta: self.meta@.map_values(|m: TabMeta| m@),
            active: self.active,
            next_id: self.next_id as nat,
        }
    }
}

/// The message of an operation on a tab that is not open.
pub open spec fn no_tab_error(id: TabId) -> Seq<char> {
    "no tab "@ + decimal(id as nat)
}

/// A `Result` with its error message taken by its characters.
pub open spec fn err_view<T>(r: Result<T, String>) -> Result<T, Seq<char>> {
    match r {
        Ok(x) => Ok(x),
        Err(e) => Err(e@),
    }
}

/// The state after activating `id`: unchanged when it is not open.
pub open spec fn activate_state(v: TabsView, id: TabId) -> TabsView {
    if v.order.contains(id) {
        TabsView { order: v.order, meta: v.meta, active: Some(id), next_id: v.next_id }
    } else {
        v
    }
}

/// The answer to activating `id`: the error when it is not open, else the
/// previously active tab when it was another one.
pub open spec fn activate_reply(v: TabsView, id: TabId) -> Result<Option<TabId>, Seq<char>> {
    if !v.order.contains(id) {
        Err(no_tab_error(id))
    } else {
        match v.active {
            Some(p) => if p != id {
                Ok(Some(p))
            } else {
                Ok(None)
            },
            None => Ok(None),
        }
    }
}

/// The order once `id` (which is open) has been taken out of it.
pub open spec fn order_without(v: TabsView, id: TabId) -> Seq<TabId> {
    v.order.remove(v.order.index_of(id))
}

/// The state after closing `id`: unchanged when it is not open or is the
/// only tab; else the tab leaves the order and the metadata, and the active
/// tab is cleared if it was this one.
pub open spec fn close_state(v: TabsView, id: TabId) -> TabsView {
    if !v.order.contains(id) || v.order.len() == 1 {
        v
    } else {
        TabsView {
            order: order_without(v, id),
            meta: v.meta.remove(id),
            active: if v.active == Some(id) {
                None
            } else {
                v.active
            },
            next_id: v.next_id,
        }
    }
}

/// What closing `id` asks of the window. When the active tab closes, the
/// tab now at its index (its right neighbour) is the next active one, or the
/// new last tab when it was the last.
pub open spec fn close_outcome(v: TabsView, id: TabId) -> CloseOutcome {
    if !v.order.contains(id) {
        CloseOutcome::NotOpen
    } else if v.order.len() == 1 {
        CloseOutcome::GoHome
    } else if v.active == Some(id) {
        let p = v.order.index_of(id);
        let rest = order_without(v, id);
        let k = if p < rest.len() {
            p
        } else {
            rest.len() - 1
        };
        CloseOutcome::Closed { next_active: Some(rest[k]) }
    } else {
        CloseOutcome::Closed { next_active: None }
    }
}

/// The state after moving `id` to index `to` (clamped to the end).
pub open spec fn move_state(v: TabsView, id: TabId, to: int) -> TabsView {
    if v.order.contains(id) {
        let rest = order_without(v, id);
        let at = if to < rest.len() {
            to
        } else {
            rest.len() as int
        };
        TabsView { order: rest.insert(at, id), meta: v.meta, active: v.active, next_id: v.next_id }
    } else {
        v
    }
}

/// The answer to moving `id`.
pub open spec fn move_reply(v: TabsView, id: TabId) -> Result<(), Seq<char>> {
    if v.order.contains(id) {
        Ok(())
    } else {
        Err(no_tab_error(id))
    }
}

/// The state after registering a new tab showing `url`: it gets the next id,
/// goes to the end of the order, loading, with no title or favicon.
pub open spec fn create_state(v: TabsView, url: Seq<char>) -> TabsView {
    let id = v.next_id as TabId;
    TabsView {
        order: v.order.push(id),
        meta: v.meta.insert(id, empty_meta(url, true)),
        active: v.active,
        next_id: v.next_id + 1,
    }
}

/// The state after taking tab `id` back out: it leaves the order and the
/// metadata, and is no longer active.
pub open spec fn discard_state(v: TabsView, id: TabId) -> TabsView {
    TabsView {
        order: if v.order.contains(id) {
            order_without(v, id)
        } else {
            v.order
        },
        meta: v.meta.remove(id),
        active: if v.active == Some(id) {
            None
        } else {
            v.active
        },
        next_id: v.next_id,
    }
}

/// An optional string taken by its characters.
pub open spec fn opt_view(o: Option<String>) -> Option<Seq<char>> {
    match o {
        Some(s) => Some(s@),
        None => None,
    }
}

/// Tab metadata after a navigation report: the URL is taken in canonical
/// form; a real navigation (the URL differs once fragments are dropped)
/// clears the stale title of the old page, a fragment-only change keeps it.
pub open spec fn navigated_meta(m: TabMetaView, url: Seq<char>) -> TabMetaView {
    let c = canonical_fed_url_spec(url);
    if c != m.url {
        TabMetaView {
            url: c,
            title: if before_fragment(c) != before_fragment(m.url) {
                Seq::empty()
            } else {
                m.title
            },
            favicon: m.favicon,
            loading: m.loading,
        }
    } else {
        m
    }
}

/// Tab metadata after merging an update: the URL first (see
/// [`navigated_meta`]), then the title, favicon and loading flag that are given.
pub open spec fn merged_meta(
    m: TabMetaView,
    url: Option<Seq<char>>,
    title: Option<Seq<char>>,
    favicon: Option<Seq<char>>,
    loading: Option<bool>,
) -> TabMetaView {
    let m1 = match url {
        Some(u) => navigated_meta(m, u),
        None => m,
    };
    TabMetaView {
        url: m1.url,
        title: match title {
            Some(t) => t,
            None => m1.title,
        },
        favicon: match favicon {
            Some(f) => f,
            None => m1.favicon,
        },
        loading: match loading {
            Some(l) => l,
            None => m1.loading,
        },
    }
}

/// The webview label of tab `id`: `tab-<id>`.
pub open spec fn tab_label(id: TabId) -> Seq<char> {
    "tab-"@ + decimal(id as nat)
}

/// The title of the active tab, or nothing.
pub open spec fn active_title(v: TabsView) -> Seq<char> {
    match v.active {
        Some(a) => if v.meta.contains_key(a) {
            v.meta[a].title
        } else {
            Seq::empty()
        },
        None => Seq::empty(),
    }
}

/// The window title for a page title: the browser's name alone when the page
/// has none, else the page title followed by the browser's name.
pub open spec fn window_title_text(title: Seq<char>) -> Seq<char> {
    if title.len() == 0 {
        "Fedsurf"@
    } else {
        title + " \u{2014} Fedsurf"@
    }
}

/// The index of the active tab in the order, or the first index when no open
/// tab is active.
pub open spec fn active_index(v: TabsView) -> int {
    match v.active {
        Some(a) => if v.order.contains(a) {
            v.order.index_of(a)
        } else {
            0
        },
        None => 0,
    }
}

/// The tab `delta` places after the active one, wrapping around the ends
/// (negative `delta` goes backwards); nothing when there is no tab.
pub open spec fn cycle_target(v: TabsView, delta: int) -> Option<TabId> {
    if v.order.len() == 0 {
        None
    } else {
        Some(v.order[(active_index(v) + delta) % (v.order.len() as int)])
    }
}

/// The tab that the shortcut for number `n` selects: numbers 1 to 8 select
/// that tab (counting from 1; 0 counts as 1), 9 and above the last tab.
pub open spec fn jump_target(v: TabsView, n: int) -> Option<TabId> {
    if v.order.len() == 0 {
        None
    } else if n >= 9 {
        Some(v.order.last())
    } else {
        let i = if n >= 1 {
            n - 1
        } else {
            0
        };
        if i < v.order.len() {
            Some(v.order[i])
        } else {
            None
        }
    }
}

/// The URL a new tab opens: the given one, or the home page, in canonical form.
pub open spec fn tab_url_spec(url: Option<Seq<char>>) -> Seq<char> {
    match url {
        Some(u) => canonical_fed_url_spec(u),
        None => canonical_fed_url_spec(HOME_URL@),
    }
}

/// Builds the message of an operation on a tab that is not open.
fn no_tab_message(id: TabId) -> (r: String)
    ensures
        r@ == no_tab_error(id),
{
    let mut v = chars_of("no tab ");
    push_decimal(&mut v, id as u64);
    string_of(&v)
}

/// In a sequence without duplicates, an element found at `p` is the one
/// `index_of` designates.
proof fn lemma_index_of_unique(s: Seq<TabId>, p: int)
    requires
        s.no_duplicates(),
        0 <= p < s.len(),
    ensures
        s.index_of(s[p]) == p,
{
    assert(s.contains(s[p]));
}

/// Where `id` stands in `order`, if it does.
fn position(order: &Vec<TabId>, id: TabId) -> (r: Option<usize>)
    ensures
        r matches Some(p) ==> p < order@.len() && order@[p as int] == id,
        r is None ==> !order@.contains(id),
{
    let mut i: usize = 0;
    while i < order.len()
        invariant
            i <= order@.len(),
            forall|k: int| 0 <= k < i ==> order@[k] != id,
        decreases order@.len() - i,
    {
        if order[i] == id {
            return Some(i);
        }
        i = i + 1;
    }
    None
}

/// The webview label of tab `id`.
pub fn label_of(id: TabId) -> (r: String)
    ensures
        r@ == tab_label(id),
{
    let mut v = chars_of("tab-");
    push_decimal(&mut v, id as u64);
    string_of(&v)
}

/// The URL a new tab opens (see [`tab_url_spec`]).
pub fn tab_url(url: Option<String>) -> (r: String)
    ensures
        r@ == tab_url_spec(opt_view(url)),
{
    match url {
        Some(u) => canonical_fed_url(u.as_str()),
        None => canonical_fed_url(HOME_URL),
    }
}

/// The window title for a page title (see [`window_title_text`]).
pub fn window_title_for(title: &str) -> (r: String)
    ensures
        r@ == window_title_text(title@),
{
    let v = chars_of(title);
    if v.len() == 0 {
        let mut r = String::new();
        r.append("Fedsurf");
        r
    } else {
        let mut r = string_of(&v);
        r.append(" \u{2014} Fedsurf");
        r
    }
}

/// `delta % n` in the Euclidean sense, for a positive length `n`.
fn wrap_offset(delta: isize, n: usize) -> (m: usize)
    requires
        n > 0,
    ensures
        m < n,
        m as int == delta as int % (n as int),
{
    if delta >= 0 {
        let d = delta as usize;
        d % n
    } else {
        let a: u128 = (-(delta as i128)) as u128;
        let k: usize = (a % (n as u128)) as usize;
        proof {
            let ai = a as int;
            let ni = n as int;
            let q = ai / ni;
            vstd::arithmetic::div_mod::lemma_fundamental_div_mod(ai, ni);
            assert(ai == ni * q + k);
            if k == 0 {
                assert(delta as int == (-q) * ni + 0) by (nonlinear_arith)
                    requires
                        ai == ni * q + k,
                        k == 0,
                        delta as int == -ai,
                ;
                vstd::arithmetic::div_mod::lemma_fundamental_div_mod_converse(
                    delta as int,
                    ni,
                    -q,
                    0,
                );
            } else {
                assert(delta as int == (-q - 1) * ni + (ni - k)) by (nonlinear_arith)
                    requires
                        ai == ni * q + k,
                        delta as int == -ai,
                ;
                vstd::arithmetic::div_mod::lemma_fundamental_div_mod_converse(
                    delta as int,
                    ni,
                    -q - 1,
                    ni - k,
                );
            }
        }
        if k == 0 {
            0
        } else {
            n - k
        }
    }
}

impl Default for TabState {
    fn default() -> (s: Self)
        ensures
            s.wf(),
            s@.order == Seq::<TabId>::empty(),
            s@.meta == Map::<TabId, TabMetaView>::empty(),
            s@.active is None,
            s@.next_id == 1,
    {
        let s = TabState { order: Vec::new(), meta: HashMap::new(), active: None, next_id: 1 };
        assert(s@.meta =~= Map::<TabId, TabMetaView>::empty());
        s
    }
}

impl TabState {
    /// The state is consistent (see [`tabs_wf`]).
    pub open spec fn wf(&self) -> bool {
        tabs_wf(self@)
    }

    /// An empty tab list whose first tab will get id 1.
    pub fn new() -> (s: Self)
        ensures
            s.wf(),
            s@.order == Seq::<TabId>::empty(),
            s@.meta == Map::<TabId, TabMetaView>::empty(),
            s@.active is None,
            s@.next_id == 1,
    {
        TabState::default()
    }

    /// The open tabs, first to last.
    pub fn order(&self) -> (r: &Vec<TabId>)
        ensures
            r@ == self@.order,
    {
        &self.order
    }

    /// The active tab, if any.
    pub fn current_active(&self) -> (r: Option<TabId>)
        ensures
            r == self@.active,
    {
        self.active
    }

    /// The id the next created tab will get.
    pub fn next_id(&self) -> (r: TabId)
        ensures
            r == self@.next_id,
    {
        self.next_id
    }

    /// A copy of the metadata of tab `id`, if it is open.
    pub fn meta_of(&self, id: TabId) -> (r: Option<TabMeta>)
        ensures
            r is Some <==> self@.meta.contains_key(id),
            r matches Some(m) ==> m@ == self@.meta[id],
    {
        match self.meta.get(&id) {
            Some(m) => Some(m.copy()),
            None => None,
        }
    }

    /// Registers a new tab showing `url` (already in canonical form) at the
    /// end of the order, loading, with no title or favicon. Returns its id and
    /// its index in the order. The active tab does not change.
    pub fn create_tab_sync(&mut self, url: String) -> (r: (TabId, usize))
        requires
            old(self).wf(),
            old(self)@.next_id < u32::MAX,
        ensures
            final(self).wf(),
            r.0 == old(self)@.next_id,
            !old(self)@.order.contains(r.0),
            r.1 == old(self)@.order.len(),
            final(self)@ == create_state(old(self)@, url@),
    {
        let ghost old_meta = self.meta@;
        let id = self.next_id;
        self.next_id = self.next_id + 1;
        let index = self.order.len();
        self.order.push(id);
        let meta = TabMeta { url, title: String::new(), favicon: String::new(), loading: true };
        self.meta.insert(id, meta);
        assert(self@.meta =~= old(self)@.meta.insert(id, empty_meta(meta@.url, true)));
        assert forall|k: int| 0 <= k < old(self)@.order.len() implies old(self)@.order[k] != id by {
            assert(old(self)@.order[k] < old(self)@.next_id);
        }
        proof {
            lemma_push_fresh(old(self)@.order, id);
        }
        (id, index)
    }

    /// Takes a tab that has no webview behind it back out of the state, so the
    /// sidebar never shows it. Nothing happens when `id` is not open.
    pub fn discard_tab(&mut self, id: TabId)
        requires
            old(self).wf(),
        ensures
            final(self).wf(),
            final(self)@ == discard_state(old(self)@, id),
    {
        if let Some(p) = position(&self.order, id) {
            proof {
                lemma_index_of_unique(self.order@, p as int);
                lemma_remove_keeps_others(self.order@, p as int);
            }
            self.order.remove(p);
        }
        self.meta.remove(&id);
        if self.active == Some(id) {
            self.active = None;
        }
        assert(self@.meta =~= old(self)@.meta.remove(id));
    }

    /// Merges new metadata into tab `id` (see [`merged_meta`]). Returns the
    /// full row to broadcast and whether the tab is the active one, or
    /// `None`, with nothing changed, when the tab is not open.
    pub fn meta_update(
        &mut self,
        id: TabId,
        url: Option<String>,
        title: Option<String>,
        favicon: Option<String>,
        loading: Option<bool>,
    ) -> (r: Option<(TabInfo, bool)>)
        requires
            old(self).wf(),
        ensures
            final(self).wf(),
            !old(self)@.meta.contains_key(id) ==> r is None && final(self)@ == old(self)@,
            old(self)@.meta.contains_key(id) ==> r is Some,
            old(self)@.meta.contains_key(id) ==> final(self)@ == (TabsView {
                order: old(self)@.order,
                meta: old(self)@.meta.insert(
                    id,
                    merged_meta(
                        old(self)@.meta[id],
                        opt_view(url),
                        opt_view(title),
                        opt_view(favicon),
                        loading,
                    ),
                ),
                active: old(self)@.active,
                next_id: old(self)@.next_id,
            }),
            r matches Some(x) ==> x.0.id == id && x.0.meta@ == final(self)@.meta[id] && x.1 == (
            old(self)@.active == Some(id)),
    {
        let ghost old_map = self.meta@;
        let removed = self.meta.remove(&id);
        let mut meta = match removed {
            None => {
                assert(self.meta@ =~= old_map);
                return None;
            },
            Some(m) => m,
        };
        let ghost m0 = meta@;
        if let Some(u) = url {
            let c = canonical_fed_url(u.as_str());
            if !str_eq(c.as_str(), meta.url.as_str()) {
                if !same_before_fragment(c.as_str(), meta.url.as_str()) {
                    meta.title = String::new();
                }
                meta.url = c;
            }
        }
        if let Some(t) = title {
            meta.title = t;
        }
        if let Some(f) = favicon {
            meta.favicon = f;
        }
        if let Some(l) = loading {
            meta.loading = l;
        }
        let info = TabInfo { id, meta: meta.copy() };
        self.meta.insert(id, meta);
        assert(self@.meta =~= old(self)@.meta.insert(
            id,
            merged_meta(m0, opt_view(url), opt_view(title), opt_view(favicon), loading),
        ));
        let is_active = match self.active {
            Some(a) => a == id,
            None => false,
        };
        Some((info, is_active))
    }

    /// The window title: the active tab's title followed by the browser's
    /// name, or the browser's name alone.
    pub fn window_title(&self) -> (r: String)
        ensures
            r@ == window_title_text(active_title(self@)),
    {
        proof {
            reveal_strlit("");
        }
        match self.active {
            Some(a) => match self.meta.get(&a) {
                Some(m) => window_title_for(m.title.as_str()),
                None => window_title_for(""),
            },
            None => window_title_for(""),
        }
    }

    /// The webview label of the active tab, if any.
    pub fn active_label(&self) -> (r: Option<String>)
        ensures
            self@.active is None ==> r is None,
            self@.active matches Some(a) ==> r matches Some(l) && l@ == tab_label(a),
    {
        match self.active {
            Some(a) => Some(label_of(a)),
            None => None,
        }
    }

    /// The authoritative tab list: one row per open tab, in order, with the
    /// active tab and the platform name.
    pub fn snapshot(&self, platform: &str) -> (r: TabsSnapshot)
        requires
            self.wf(),
        ensures
            r.tabs@.len() == self@.order.len(),
            forall|i: int|
                0 <= i < self@.order.len() ==> (#[trigger] r.tabs@[i]).id == self@.order[i]
                    && r.tabs@[i].meta@ == self@.meta[self@.order[i]],
            r.active == self@.active,
            r.platform@ == platform@,
    {
        let mut tabs: Vec<TabInfo> = Vec::new();
        let mut i: usize = 0;
        while i < self.order.len()
            invariant
                self.wf(),
                i <= self@.order.len(),
                tabs@.len() == i,
                forall|k: int|
                    0 <= k < i ==> (#[trigger] tabs@[k]).id == self@.order[k] && tabs@[k].meta@
                        == self@.meta[self@.order[k]],
            decreases self@.order.len() - i,
        {
            let id = self.order[i];
            assert(self@.order.contains(id));
            assert(self@.meta.contains_key(id));
            match self.meta.get(&id) {
                Some(m) => {
                    tabs.push(TabInfo { id, meta: m.copy() });
                },
                None => {
                    assert(false);
                },
            }
            i = i + 1;
        }
        let v = chars_of(platform);
        TabsSnapshot { tabs, active: self.active, platform: string_of(&v) }
    }

    /// The tab that "next tab" (`delta` 1) or "previous tab" (`delta` -1)
    /// selects, wrapping around (see [`cycle_target`]).
    pub fn cycle_tab(&self, delta: isize) -> (r: Option<TabId>)
        requires
            self.wf(),
        ensures
            r == cycle_target(self@, delta as int),
    {
        let n = self.order.len();
        if n == 0 {
            return None;
        }
        let pos: usize = match self.active {
            Some(a) => match position(&self.order, a) {
                Some(p) => {
                    proof {
                        lemma_index_of_unique(self.order@, p as int);
                    }
                    p
                },
                None => 0,
            },
            None => 0,
        };
        let m = wrap_offset(delta, n);
        let idx = if m < n - pos {
            pos + m
        } else {
            m - (n - pos)
        };
        proof {
            let ni = n as int;
            vstd::arithmetic::div_mod::lemma_add_mod_noop(pos as int, delta as int, ni);
            vstd::arithmetic::div_mod::lemma_small_mod(pos as nat, n as nat);
            if m < n - pos {
                vstd::arithmetic::div_mod::lemma_small_mod((pos + m) as nat, n as nat);
            } else {
                vstd::arithmetic::div_mod::lemma_fundamental_div_mod_converse(
                    pos + m,
                    ni,
                    1,
                    idx as int,
                );
            }
        }
        Some(self.order[idx])
    }

    /// The tab that the number shortcut `n` selects (see [`jump_target`]).
    pub fn jump_to_index(&self, n: usize) -> (r: Option<TabId>)
        ensures
            r == jump_target(self@, n as int),
    {
        let len = self.order.len();
        if len == 0 {
            return None;
        }
        if n >= 9 {
            return Some(self.order[len - 1]);
        }
        let i = if n >= 1 {
            n - 1
        } else {
            0
        };
        if i < len {
            Some(self.order[i])
        } else {
            None
        }
    }

    /// Makes tab `id` the active one. Fails when it is not open. On success
    /// returns the previously active tab when it was another one, whose
    /// webview is to be hidden.
    pub fn activate_tab_sync(&mut self, id: TabId) -> (r: Result<Option<TabId>, String>)
        requires
            old(self).wf(),
        ensures
            final(self).wf(),
            final(self)@ == activate_state(old(self)@, id),
            err_view(r) == activate_reply(old(self)@, id),
    {
        match position(&self.order, id) {
            None => Err(no_tab_message(id)),
            Some(_) => {
                let prev = self.active;
                self.active = Some(id);
                match prev {
                    Some(p) => if p != id {
                        Ok(Some(p))
                    } else {
                        Ok(None)
                    },
                    None => Ok(None),
                }
            },
        }
    }

    /// Closes tab `id`. Closing a tab that is not open does nothing (closing
    /// twice is no error). The last tab never closes: it goes home instead,
    /// so the window always has a live page. When the active tab closes, the
    /// tab that now stands at its place (its right neighbour) becomes the one
    /// to activate, or the new last tab when it was the last.
    pub fn close_tab_sync(&mut self, id: TabId) -> (r: CloseOutcome)
        requires
            old(self).wf(),
        ensures
            final(self).wf(),
            final(self)@ == close_state(old(self)@, id),
            r == close_outcome(old(self)@, id),
    {
        match position(&self.order, id) {
            None => CloseOutcome::NotOpen,
            Some(p) => {
                if self.order.len() == 1 {
                    return CloseOutcome::GoHome;
                }
                proof {
                    lemma_index_of_unique(self.order@, p as int);
                    lemma_remove_keeps_others(self.order@, p as int);
                }
                self.order.remove(p);
                self.meta.remove(&id);
                assert(self@.meta =~= old(self)@.meta.remove(id));
                let was_active = match self.active {
                    Some(a) => a == id,
                    None => false,
                };
                if was_active {
                    self.active = None;
                    let n = self.order.len();
                    let k = if p < n {
                        p
                    } else {
                        n - 1
                    };
                    CloseOutcome::Closed { next_active: Some(self.order[k]) }
                } else {
                    CloseOutcome::Closed { next_active: None }
                }
            },
        }
    }

    /// Moves tab `id` to position `to_index` of the order (or to the end when
    /// `to_index` is past it). Fails when the tab is not open.
    pub fn move_tab_sync(&mut self, id: TabId, to_index: usize) -> (r: Result<(), String>)
        requires
            old(self).wf(),
        ensures
            final(self).wf(),
            final(self)@ == move_state(old(self)@, id, to_index as int),
            err_view(r) == move_reply(old(self)@, id),
    {
        match position(&self.order, id) {
            None => Err(no_tab_message(id)),
            Some(p) => {
                proof {
                    lemma_index_of_unique(self.order@, p as int);
                    lemma_remove_keeps_others(self.order@, p as int);
                }
                self.order.remove(p);
                let ghost rest = self.order@;
                let n = self.order.len();
                let to = if to_index < n {
                    to_index
                } else {
                    n
                };
                self.order.insert(to, id);
                proof {
                    lemma_insert_fresh(rest, to as int, id);
                }
                Ok(())
            },
        }
    }
}

/// Appending an element that does not occur keeps the sequence free of
/// duplicates and adds exactly that element.
proof fn lemma_push_fresh(s: Seq<TabId>, id: TabId)
    requires
        s.no_duplicates(),
        !s.contains(id),
    ensures
        s.push(id).no_duplicates(),
        forall|x: TabId| #[trigger] s.push(id).contains(x) <==> (s.contains(x) || x == id),
{
    let r = s.push(id);
    assert forall|x: TabId| #[trigger] r.contains(x) <==> (s.contains(x) || x == id) by {
        if r.contains(x) {
            let i = choose|i: int| 0 <= i < r.len() && r[i] == x;
            if i < s.len() {
                assert(s[i] == x);
            }
        }
        if s.contains(x) {
            let j = choose|j: int| 0 <= j < s.len() && s[j] == x;
            assert(r[j] == x);
        }
        if x == id {
            assert(r[s.len() as int] == x);
        }
    }
    assert forall|i: int, j: int| 0 <= i < r.len() && 0 <= j < r.len() && i != j implies r[i] != r[j] by {
        if i < s.len() && j < s.len() {
        } else if i < s.len() {
            assert(s.contains(r[i]));
        } else if j < s.len() {
            assert(s.contains(r[j]));
        }
    }
}

/// Inserting an element that does not occur keeps the sequence free of
/// duplicates and adds exactly that element.
proof fn lemma_insert_fresh(s: Seq<TabId>, at: int, id: TabId)
    requires
        s.no_duplicates(),
        !s.contains(id),
        0 <= at <= s.len(),
    ensures
        s.insert(at, id).no_duplicates(),
        forall|x: TabId| #[trigger] s.insert(at, id).contains(x) <==> (s.contains(x) || x == id),
        forall|i: int|
            0 <= i < s.insert(at, id).len() ==> #[trigger] s.insert(at, id)[i] == if i < at {
                s[i]
            } else if i == at {
                id
            } else {
                s[i - 1]
            },
{
    let r = s.insert(at, id);
    s.insert_ensures(at, id);
    assert forall|i: int| 0 <= i < r.len() implies #[trigger] r[i] == if i < at {
        s[i]
    } else if i == at {
        id
    } else {
        s[i - 1]
    } by {
        if i > at {
            assert(r[(i - 1) + 1] == s[i - 1]);
        }
    }
    assert forall|x: TabId| #[trigger] r.contains(x) <==> (s.contains(x) || x == id) by {
        if r.contains(x) {
            let i = choose|i: int| 0 <= i < r.len() && r[i] == x;
            if i < at {
                assert(s[i] == x);
            } else if i > at {
                assert(s[i - 1] == x);
            }
        }
        if s.contains(x) {
            let j = choose|j: int| 0 <= j < s.len() && s[j] == x;
            if j < at {
                assert(r[j] == x);
            } else {
                assert(r[j + 1] == x);
            }
        }
        if x == id {
            assert(r[at] == x);
        }
    }
    assert forall|i: int, j: int| 0 <= i < r.len() && 0 <= j < r.len() && i != j implies r[i] != r[j] by {
        if i != at && j != at {
            let si = if i < at { i } else { i - 1 };
            let sj = if j < at { j } else { j - 1 };
            assert(r[i] == s[si]);
            assert(r[j] == s[sj]);
        } else if i == at {
            let sj = if j < at { j } else { j - 1 };
            assert(r[j] == s[sj]);
            assert(s.contains(r[j]));
        } else {
            let si = if i < at { i } else { i - 1 };
            assert(r[i] == s[si]);
            assert(s.contains(r[i]));
        }
    }
}

/// Removing the only occurrence of an element keeps the sequence free of
/// duplicates, keeps every other element and drops that one.
proof fn lemma_remove_keeps_others(s: Seq<TabId>, p: int)
    requires
        s.no_duplicates(),
        0 <= p < s.len(),
    ensures
        s.remove(p).no_duplicates(),
        forall|x: TabId| #[trigger] s.remove(p).contains(x) <==> (s.contains(x) && x != s[p]),
        forall|i: int|
            0 <= i < s.remove(p).len() ==> #[trigger] s.remove(p)[i] == if i < p {
                s[i]
            } else {
                s[i + 1]
            },
{
    let r = s.remove(p);
    assert forall|x: TabId| #[trigger] r.contains(x) <==> (s.contains(x) && x != s[p]) by {
        if r.contains(x) {
            let i = choose|i: int| 0 <= i < r.len() && r[i] == x;
            if i < p {
                assert(s[i] == x);
            } else {
                assert(s[i + 1] == x);
            }
        }
        if s.contains(x) && x != s[p] {
            let j = choose|j: int| 0 <= j < s.len() && s[j] == x;
            if j < p {
                assert(r[j] == x);
            } else {
                assert(r[j - 1] == x);
            }
        }
    }
}

} // verus!

verus! {

// ---------------------------------------------------------------------------
// Laws of the tab model
// ---------------------------------------------------------------------------

/// "Next tab" then "previous tab" comes back to the tab one started from.
pub proof fn lemma_next_then_previous(v: TabsView)
    requires
        tabs_wf(v),
        v.order.len() > 0,
    ensures
        cycle_target(v, 1) matches Some(b) && cycle_target(activate_state(v, b), -1) == Some(
            v.order[active_index(v)],
        ),
{
    let n = v.order.len() as int;
    let p = active_index(v);
    assert(0 <= p < n) by {
        if let Some(a) = v.active {
            if v.order.contains(a) {
                assert(v.order[v.order.index_of(a)] == a);
            }
        }
    }
    let q = (p + 1) % n;
    vstd::arithmetic::div_mod::lemma_mod_bound(p + 1, n);
    let b = v.order[q];
    let w = activate_state(v, b);
    assert(v.order.contains(b));
    lemma_index_of_unique(v.order, q);
    assert(active_index(w) == q);
    if p + 1 < n {
        vstd::arithmetic::div_mod::lemma_small_mod((p + 1) as nat, n as nat);
        vstd::arithmetic::div_mod::lemma_small_mod(p as nat, n as nat);
    } else {
        vstd::arithmetic::div_mod::lemma_mod_self_0(n);
        assert(q == 0);
        vstd::arithmetic::div_mod::lemma_fundamental_div_mod_converse(-1, n, -1, n - 1);
    }
}

/// Moving a tab keeps the same tabs open, the same number of them, and puts
/// the moved tab at the requested index (or at the end).
pub proof fn lemma_move_keeps_tabs(v: TabsView, id: TabId, to: int)
    requires
        tabs_wf(v),
        v.order.contains(id),
        to >= 0,
    ensures
        move_state(v, id, to).order.len() == v.order.len(),
        forall|x: TabId| #[trigger] move_state(v, id, to).order.contains(x) <==> v.order.contains(x),
        move_state(v, id, to).order[if to < v.order.len() - 1 {
            to
        } else {
            v.order.len() - 1
        }] == id,
        tabs_wf(move_state(v, id, to)),
{
    let p = v.order.index_of(id);
    assert(v.order[p] == id);
    lemma_remove_keeps_others(v.order, p);
    let rest = order_without(v, id);
    let at = if to < rest.len() {
        to
    } else {
        rest.len() as int
    };
    lemma_insert_fresh(rest, at, id);
    let w = move_state(v, id, to);
    assert forall|i: int| 0 <= i < w.order.len() implies #[trigger] w.order[i] < w.next_id by {
        if i != at {
            assert(rest.contains(w.order[i]));
            let j = choose|j: int| 0 <= j < v.order.len() && v.order[j] == w.order[i];
        }
    }
}

/// Taking a freshly created tab back out (when its webview could not be
/// made) leaves the tab list as it was; only the id counter has moved on.
pub proof fn lemma_discard_undoes_create(v: TabsView, url: Seq<char>)
    requires
        tabs_wf(v),
        v.next_id < u32::MAX,
    ensures
        discard_state(create_state(v, url), v.next_id as TabId) == (TabsView {
            order: v.order,
            meta: v.meta,
            active: v.active,
            next_id: v.next_id + 1,
        }),
{
    let id = v.next_id as TabId;
    let w = create_state(v, url);
    assert forall|k: int| 0 <= k < v.order.len() implies v.order[k] != id by {
        assert(v.order[k] < v.next_id);
    }
    lemma_push_fresh(v.order, id);
    let p = v.order.len() as int;
    assert(w.order[p] == id);
    lemma_index_of_unique(w.order, p);
    assert(w.order.remove(p) =~= v.order);
    assert(!v.meta.contains_key(id));
    assert(w.meta.remove(id) =~= v.meta);
    assert(v.active != Some(id));
}

/// Moving a tab away and then back to its old index restores the order.
pub proof fn lemma_move_back_restores(v: TabsView, id: TabId, to: int)
    requires
        tabs_wf(v),
        v.order.contains(id),
        to >= 0,
    ensures
        move_state(move_state(v, id, to), id, v.order.index_of(id)) == v,
{
    let p = v.order.index_of(id);
    assert(v.order[p] == id);
    lemma_remove_keeps_others(v.order, p);
    let rest = order_without(v, id);
    let at = if to < rest.len() {
        to
    } else {
        rest.len() as int
    };
    lemma_insert_fresh(rest, at, id);
    let w = move_state(v, id, to);
    assert(w.order[at] == id);
    lemma_index_of_unique(w.order, at);
    assert(w.order.remove(at) =~= rest);
    lemma_insert_fresh(rest, p, id);
    assert(rest.insert(p, id) =~= v.order);
}

/// Tab URLs speak one dialect: a tab opened on [`tab_url`] holds a URL in
/// canonical `fed://` form, and merging any update into metadata whose URL
/// is canonical keeps it canonical.
pub proof fn lemma_tab_urls_stay_canonical(
    m: TabMetaView,
    opened: Option<Seq<char>>,
    url: Option<Seq<char>>,
    title: Option<Seq<char>>,
    favicon: Option<Seq<char>>,
    loading: Option<bool>,
)
    ensures
        canonical_fed_url_spec(tab_url_spec(opened)) == tab_url_spec(opened),
        canonical_fed_url_spec(m.url) == m.url ==> canonical_fed_url_spec(
            merged_meta(m, url, title, favicon, loading).url,
        ) == merged_meta(m, url, title, favicon, loading).url,
{
    match opened {
        Some(u) => crate::fed_protocol::lemma_canonical_fed_url_idempotent(u),
        None => crate::fed_protocol::lemma_canonical_fed_url_idempotent(HOME_URL@),
    }
    if let Some(u) = url {
        crate::fed_protocol::lemma_canonical_fed_url_idempotent(u);
    }
}

/// The last tab never closes: closing always leaves at least one tab open.
pub proof fn lemma_close_keeps_a_tab(v: TabsView, id: TabId)
    requires
        tabs_wf(v),
        v.order.len() > 0,
    ensures
        close_state(v, id).order.len() > 0,
{
    if v.order.contains(id) && v.order.len() > 1 {
        let p = v.order.index_of(id);
        assert(v.order[p] == id);
    }
}

/// Closing a tab twice is no error: the second close finds nothing to do and
/// changes nothing.
pub proof fn lemma_close_twice(v: TabsView, id: TabId)
    requires
        tabs_wf(v),
        close_outcome(v, id) is Closed,
    ensures
        close_outcome(close_state(v, id), id) == CloseOutcome::NotOpen,
        close_state(close_state(v, id), id) == close_state(v, id),
{
    let p = v.order.index_of(id);
    assert(v.order[p] == id);
    lemma_remove_keeps_others(v.order, p);
}

/// The tab that closing the active tab designates is open, so activating it
/// succeeds.
pub proof fn lemma_close_then_activate(v: TabsView, id: TabId)
    requires
        tabs_wf(v),
        close_outcome(v, id) matches CloseOutcome::Closed { next_active: Some(_) },
    ensures
        close_outcome(v, id) matches CloseOutcome::Closed { next_active: Some(n) }
            && close_state(v, id).order.contains(n)
            && activate_reply(close_state(v, id), n) is Ok,
{
    let p = v.order.index_of(id);
    assert(v.order[p] == id);
    lemma_remove_keeps_others(v.order, p);
    let rest = order_without(v, id);
    let k = if p < rest.len() {
        p
    } else {
        rest.len() - 1
    };
    assert(rest.contains(rest[k]));
}

} // verus!

verus! {

// ---------------------------------------------------------------------------
// Shortcut and menu actions
// ---------------------------------------------------------------------------

/// A shortcut or menu action; menu item ids double as action names.
#[derive(Debug, PartialEq, Eq, Structural)]
pub enum Action {
    NewTab,
    CloseTab,
    NextTab,
    PrevTab,
    ToggleSidebar,
    FocusAddress,
    Back,
    Forward,
    Reload,
    DevTools,
    /// `tab-<n>`: the number shortcut `n` (see [`jump_target`]).
    JumpTo(usize),
    /// Anything else, such as the predefined menu items (copy, paste, quit).
    Other,
}

/// The action an action name stands for.
pub open spec fn action_named(a: Seq<char>) -> Action {
    if a == "new-tab"@ {
        Action::NewTab
    } else if a == "close-tab"@ {
        Action::CloseTab
    } else if a == "next-tab"@ {
        Action::NextTab
    } else if a == "prev-tab"@ {
        Action::PrevTab
    } else if a == "toggle-sidebar"@ {
        Action::ToggleSidebar
    } else if a == "focus-address"@ {
        Action::FocusAddress
    } else if a == "back"@ {
        Action::Back
    } else if a == "forward"@ {
        Action::Forward
    } else if a == "reload"@ {
        Action::Reload
    } else if a == "devtools"@ {
        Action::DevTools
    } else if has_prefix(a, "tab-"@) && parse_unsigned(a.skip("tab-"@.len() as int), usize::MAX as nat) is Some {
        Action::JumpTo(parse_unsigned(a.skip("tab-"@.len() as int), usize::MAX as nat).unwrap() as usize)
    } else {
        Action::Other
    }
}

/// Reads an action name (see [`action_named`]).
pub fn parse_action(action: &str) -> (r: Action)
    ensures
        r == action_named(action@),
{
    if str_eq(action, "new-tab") {
        Action::NewTab
    } else if str_eq(action, "close-tab") {
        Action::CloseTab
    } else if str_eq(action, "next-tab") {
        Action::NextTab
    } else if str_eq(action, "prev-tab") {
        Action::PrevTab
    } else if str_eq(action, "toggle-sidebar") {
        Action::ToggleSidebar
    } else if str_eq(action, "focus-address") {
        Action::FocusAddress
    } else if str_eq(action, "back") {
        Action::Back
    } else if str_eq(action, "forward") {
        Action::Forward
    } else if str_eq(action, "reload") {
        Action::Reload
    } else if str_eq(action, "devtools") {
        Action::DevTools
    } else {
        let v = chars_of(action);
        let prefix = chars_of("tab-");
        assert(v@.skip(0) =~= v@);
        if matches_at(&v, 0, &prefix) {
            match parse_unsigned_chars(&v, prefix.len(), usize::MAX as u64) {
                Some(n) => Action::JumpTo(n as usize),
                None => Action::Other,
            }
        } else {
            Action::Other
        }
    }
}

} // verus!

verus! {

// ---------------------------------------------------------------------------
// What the chrome's operations are for, stated over the tab list itself
// ---------------------------------------------------------------------------

/// Closing the active tab activates its right neighbour (the tab just after
/// it in the order), or, when it was the last tab, its left neighbour; a
/// tab that is not active designates nothing.
pub proof fn lemma_close_prefers_right_neighbour(v: TabsView, id: TabId, p: int)
    requires
        tabs_wf(v),
        0 <= p < v.order.len(),
        v.order[p] == id,
        v.order.len() > 1,
    ensures
        v.active == Some(id) ==> close_outcome(v, id) == (CloseOutcome::Closed {
            next_active: Some(
                if p + 1 < v.order.len() {
                    v.order[p + 1]
                } else {
                    v.order[p - 1]
                },
            ),
        }),
        v.active != Some(id) ==> close_outcome(v, id) == (CloseOutcome::Closed {
            next_active: None,
        }),
{
    lemma_index_of_unique(v.order, p);
    assert(v.order.contains(id));
    lemma_remove_keeps_others(v.order, p);
}

/// The number shortcuts: 1 to 8 select the tab at that position (counting
/// from 1) when there is one, and nothing otherwise; 9 and above select the
/// last tab.
pub proof fn lemma_number_shortcuts(v: TabsView, n: int)
    ensures
        1 <= n <= 8 && n <= v.order.len() ==> jump_target(v, n) == Some(v.order[n - 1]),
        1 <= n <= 8 && n > v.order.len() ==> jump_target(v, n) is None,
        n >= 9 && v.order.len() > 0 ==> jump_target(v, n) == Some(v.order[v.order.len() - 1]),
{
}

/// A metadata update sets every field it gives to exactly the given value,
/// whatever that value is (an empty favicon or title included), and keeps
/// the favicon and loading flag it does not give.
pub proof fn lemma_update_sets_given_fields(
    m: TabMetaView,
    url: Option<Seq<char>>,
    title: Option<Seq<char>>,
    favicon: Option<Seq<char>>,
    loading: Option<bool>,
)
    ensures
        title matches Some(t) ==> merged_meta(m, url, title, favicon, loading).title == t,
        favicon matches Some(f) ==> merged_meta(m, url, title, favicon, loading).favicon == f,
        favicon is None ==> merged_meta(m, url, title, favicon, loading).favicon == m.favicon,
        loading matches Some(l) ==> merged_meta(m, url, title, favicon, loading).loading == l,
        loading is None ==> merged_meta(m, url, title, favicon, loading).loading == m.loading,
        url is None && title is None ==> merged_meta(m, url, title, favicon, loading).title
            == m.title,
        url is None ==> merged_meta(m, url, title, favicon, loading).url == m.url,
{
}

} // verus!

verus! {

/// Closing an open tab, when others remain, takes exactly that tab out:
/// one tab fewer, every other tab still open in the same relative order,
/// its metadata gone, the others' kept.
pub proof fn lemma_close_removes_exactly(v: TabsView, id: TabId, p: int)
    requires
        tabs_wf(v),
        0 <= p < v.order.len(),
        v.order[p] == id,
        v.order.len() > 1,
    ensures
        close_state(v, id).order.len() == v.order.len() - 1,
        forall|i: int| 0 <= i < p ==> close_state(v, id).order[i] == v.order[i],
        forall|i: int| p <= i < v.order.len() - 1 ==> close_state(v, id).order[i] == v.order[i + 1],
        forall|x: TabId| #[trigger] close_state(v, id).order.contains(x) <==> (v.order.contains(x)
            && x != id),
        !close_state(v, id).meta.contains_key(id),
        forall|x: TabId| x != id ==> #[trigger] close_state(v, id).meta.contains_key(x) == v.meta.contains_key(x),
        tabs_wf(close_state(v, id)),
{
    lemma_index_of_unique(v.order, p);
    assert(v.order.contains(id));
    lemma_remove_keeps_others(v.order, p);
    let w = close_state(v, id);
    assert forall|i: int| 0 <= i < w.order.len() implies #[trigger] w.order[i] < w.next_id by {
        if i < p {
            assert(w.order[i] == v.order[i]);
        } else {
            assert(w.order[i] == v.order[i + 1]);
        }
    }
}

/// The part before the first `#` of `x + "#" + y`, when `x` has no `#`, is `x`.
proof fn lemma_before_fragment_split(x: Seq<char>, y: Seq<char>)
    requires
        !x.contains('#'),
    ensures
        before_fragment(x + seq!['#'] + y) == x,
    decreases x.len(),
{
    let s = x + seq!['#'] + y;
    if x.len() == 0 {
        assert(s[0] == '#');
    } else {
        assert(s[0] == x[0]);
        assert(!x.drop_first().contains('#')) by {
            if x.drop_first().contains('#') {
                let j = choose|j: int| 0 <= j < x.drop_first().len() && x.drop_first()[j] == '#';
                assert(x[j + 1] == '#');
            }
        }
        assert(s.drop_first() =~= x.drop_first() + seq!['#'] + y);
        lemma_before_fragment_split(x.drop_first(), y);
        assert(x =~= seq![x[0]] + x.drop_first());
    }
}

/// Up to the first `#`, the fragment-free part of a URL is the URL itself.
proof fn lemma_before_fragment_prefix(s: Seq<char>, i: int)
    requires
        0 <= i < s.len(),
        forall|j: int| 0 <= j <= i ==> s[j] != '#',
    ensures
        before_fragment(s).len() > i,
        before_fragment(s)[i] == s[i],
    decreases i,
{
    if i > 0 {
        lemma_before_fragment_prefix(s.drop_first(), i - 1);
    }
}

/// A report that only changes the fragment (`#...`) of the page's URL keeps
/// the title; one whose URL differs from the current one before any `#`
/// is a real navigation and clears it. Either way the new URL is stored.
pub proof fn lemma_navigation_and_title(m: TabMetaView, u: Seq<char>, frag: Seq<char>, i: int)
    ensures
        canonical_fed_url_spec(u) == m.url + seq!['#'] + frag && !m.url.contains('#') ==> {
            &&& merged_meta(m, Some(u), None, None, None).title == m.title
            &&& merged_meta(m, Some(u), None, None, None).url == canonical_fed_url_spec(u)
        },
        ({
            let c = canonical_fed_url_spec(u);
            &&& 0 <= i < c.len()
            &&& i < m.url.len()
            &&& c[i] != m.url[i]
            &&& forall|j: int| 0 <= j <= i ==> c[j] != '#' && m.url[j] != '#'
        }) ==> {
            &&& merged_meta(m, Some(u), None, None, None).title.len() == 0
            &&& merged_meta(m, Some(u), None, None, None).url == canonical_fed_url_spec(u)
        },
{
    let c = canonical_fed_url_spec(u);
    if c == m.url + seq!['#'] + frag && !m.url.contains('#') {
        lemma_before_fragment_split(m.url, frag);
        lemma_before_fragment_no_hash(m.url);
        assert(c.len() > m.url.len());
    }
    if 0 <= i < c.len() && i < m.url.len() && c[i] != m.url[i] && (forall|j: int|
        0 <= j <= i ==> c[j] != '#' && m.url[j] != '#') {
        assert forall|j: int| 0 <= j <= i implies m.url[j] != '#' by {
            assert(c[j] != '#');
        }
        lemma_before_fragment_prefix(c, i);
        lemma_before_fragment_prefix(m.url, i);
        assert(c != m.url);
    }
}

/// A URL without `#` is its own fragment-free part.
proof fn lemma_before_fragment_no_hash(s: Seq<char>)
    requires
        !s.contains('#'),
    ensures
        before_fragment(s) == s,
    decreases s.len(),
{
    if s.len() > 0 {
        assert(s[0] != '#');
        assert(!s.drop_first().contains('#')) by {
            if s.drop_first().contains('#') {
                let j = choose|j: int| 0 <= j < s.drop_first().len() && s.drop_first()[j] == '#';
                assert(s[j + 1] == '#');
            }
        }
        lemma_before_fragment_no_hash(s.drop_first());
        assert(s =~= seq![s[0]] + s.drop_first());
    }
}

} // verus!

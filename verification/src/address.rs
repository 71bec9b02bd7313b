//! Address-bar smarts: turning what was typed into a URL.
//!
//! - an explicit scheme (`fed://`, `http://`, `https://`) passes through;
//! - a bare word, or input with spaces, becomes a Federate search;
//! - `label.tld` whose TLD is in the verified Federate root goes to `fed://`;
//! - anything else with a dot goes to `https://`.
//!
//! Whether a TLD is in the verified root is looked up by the caller between
//! [`normalize_input`] and [`host_address`].

use vstd::prelude::*;
use vstd::string::StringSliceAdditionalSpecFns;

use crate::tabs::SEARCH_URL;
use crate::text::{chars_of, has_prefix, push_char, str_has_prefix, string_of};

verus! {

// ---------------------------------------------------------------------------
// Percent-encoding of search queries
// ---------------------------------------------------------------------------

/// Bytes that a query keeps as they are: ASCII letters and digits, `-`, `_`,
/// `.` and `~`.
pub open spec fn is_unreserved(b: u8) -> bool {
    (97 <= b <= 122) || (65 <= b <= 90) || (48 <= b <= 57) || b == 45 || b == 95 || b == 46
        || b == 126
}

/// An upper-case hexadecimal digit.
pub open spec fn hex_digit(d: int) -> char {
    if d < 10 {
        (d + 48) as char
    } else {
        (d + 55) as char
    }
}

/// How one byte of a query is written: unreserved bytes as themselves, a
/// space as `+`, anything else as `%` and two upper-case hex digits.
pub open spec fn encoded_byte(b: u8) -> Seq<char> {
    if is_unreserved(b) {
        seq![b as char]
    } else if b == 32 {
        seq!['+']
    } else {
        seq!['%', hex_digit(b as int / 16), hex_digit(b as int % 16)]
    }
}

/// The form encoding of a byte string, byte by byte.
pub open spec fn percent_encoded(bytes: Seq<u8>) -> Seq<char>
    decreases bytes.len(),
{
    if bytes.len() == 0 {
        Seq::empty()
    } else {
        percent_encoded(bytes.drop_last()) + encoded_byte(bytes.last())
    }
}

fn hex_char(d: u8) -> (c: char)
    requires
        d < 16,
    ensures
        c == hex_digit(d as int),
{
    if d < 10 {
        (d + 48) as char
    } else {
        (d + 55) as char
    }
}

/// Encodes `s` (its UTF-8 bytes) for the query string of a search URL.
pub fn percent_encode(s: &str) -> (out: String)
    ensures
        out@ == percent_encoded(s.spec_bytes()),
{
    let bytes = s.as_bytes();
    let mut out = String::new();
    let mut i: usize = 0;
    while i < bytes.len()
        invariant
            i <= bytes@.len(),
            bytes@ == s.spec_bytes(),
            out@ == percent_encoded(bytes@.take(i as int)),
        decreases bytes@.len() - i,
    {
        let b = bytes[i];
        let ghost before = out@;
        if (b >= 97 && b <= 122) || (b >= 65 && b <= 90) || (b >= 48 && b <= 57) || b == 45 || b
            == 95 || b == 46 || b == 126 {
            push_char(&mut out, b as char);
        } else if b == 32 {
            push_char(&mut out, '+');
        } else {
            push_char(&mut out, '%');
            push_char(&mut out, hex_char(b / 16));
            push_char(&mut out, hex_char(b % 16));
        }
        assert(out@ =~= before + encoded_byte(b));
        assert(bytes@.take(i + 1).drop_last() =~= bytes@.take(i as int));
        i = i + 1;
    }
    assert(bytes@.take(i as int) =~= bytes@);
    out
}

// ---------------------------------------------------------------------------
// Classifying input
// ---------------------------------------------------------------------------

/// Input that names its scheme.
pub open spec fn has_explicit_scheme(s: Seq<char>) -> bool {
    has_prefix(s, "fed://"@) || has_prefix(s, "http://"@) || has_prefix(s, "https://"@)
}

/// A character that ends the host part of an address.
pub open spec fn ends_host(c: char) -> bool {
    c == '/' || c == '?' || c == '#'
}

/// The host part of an address: what precedes the first `/`, `?` or `#`.
pub open spec fn host_part(s: Seq<char>) -> Seq<char>
    decreases s.len(),
{
    if s.len() == 0 {
        s
    } else if ends_host(s[0]) {
        Seq::empty()
    } else {
        seq![s[0]] + host_part(s.drop_first())
    }
}

/// ASCII upper-case letters made lower-case; every other character kept.
pub open spec fn ascii_lower(c: char) -> char {
    if 'A' <= c && c <= 'Z' {
        ((c as int) + 32) as char
    } else {
        c
    }
}

/// A string with its ASCII letters made lower-case.
pub open spec fn ascii_lowercase(s: Seq<char>) -> Seq<char> {
    s.map_values(|c: char| ascii_lower(c))
}

/// A host candidate has a dot and no space.
pub open spec fn looks_like_host(h: Seq<char>) -> bool {
    h.contains('.') && !h.contains(' ')
}

/// The Federate search URL for a query.
pub open spec fn search_url(query: Seq<u8>) -> Seq<char> {
    SEARCH_URL@ + "/?q="@ + percent_encoded(query)
}

/// What the address bar does with input, before any TLD lookup.
pub enum AddressPlan {
    /// The input cannot be navigated to; the message says why.
    Rejected(String),
    /// Navigate to this URL.
    Navigate(String),
    /// The input looks like a host name: its TLD decides between `fed://`
    /// and `https://` (see [`host_address`]).
    CheckHost(String),
}

/// The mathematical content of an [`AddressPlan`].
pub enum AddressPlanView {
    Rejected(Seq<char>),
    Navigate(Seq<char>),
    CheckHost(Seq<char>),
}

impl View for AddressPlan {
    type V = AddressPlanView;

    open spec fn view(&self) -> AddressPlanView {
        match self {
            AddressPlan::Rejected(e) => AddressPlanView::Rejected(e@),
            AddressPlan::Navigate(u) => AddressPlanView::Navigate(u@),
            AddressPlan::CheckHost(h) => AddressPlanView::CheckHost(h@),
        }
    }
}

/// What the address bar makes of input with characters `s` and UTF-8 bytes
/// `bytes` (see [`normalize_input`]).
pub open spec fn address_plan(s: Seq<char>, bytes: Seq<u8>) -> AddressPlanView {
    if s.len() == 0 {
        AddressPlanView::Rejected("empty address"@)
    } else if has_explicit_scheme(s) {
        AddressPlanView::Navigate(s)
    } else if looks_like_host(ascii_lowercase(host_part(s))) {
        AddressPlanView::CheckHost(ascii_lowercase(host_part(s)))
    } else {
        AddressPlanView::Navigate(search_url(bytes))
    }
}

/// Where the host part of `v` ends.
fn host_end(v: &Vec<char>) -> (n: usize)
    ensures
        n <= v@.len(),
        v@.take(n as int) == host_part(v@),
{
    let mut i: usize = 0;
    assert(v@.skip(0) =~= v@);
    assert(Seq::<char>::empty() + v@ =~= v@);
    assert(v@.take(0) =~= Seq::<char>::empty());
    while i < v.len()
        invariant
            i <= v@.len(),
            host_part(v@) == v@.take(i as int) + host_part(v@.skip(i as int)),
        decreases v@.len() - i,
    {
        let c = v[i];
        if c == '/' || c == '?' || c == '#' {
            assert(host_part(v@.skip(i as int)) =~= Seq::<char>::empty());
            assert(v@.take(i as int) + Seq::<char>::empty() =~= v@.take(i as int));
            return i;
        }
        assert(v@.skip(i as int).drop_first() =~= v@.skip(i + 1));
        assert(v@.take(i as int) + seq![v@[i as int]] =~= v@.take(i + 1));
        assert(v@.take(i as int) + (seq![v@[i as int]] + host_part(v@.skip(i + 1)))
            =~= v@.take(i + 1) + host_part(v@.skip(i + 1)));
        i = i + 1;
    }
    assert(v@.skip(i as int) =~= Seq::<char>::empty());
    assert(v@.take(i as int) =~= v@);
    assert(v@ + Seq::<char>::empty() =~= v@);
    i
}

/// The host part of `v`, made lower-case.
fn lower_host(v: &Vec<char>) -> (h: Vec<char>)
    ensures
        h@ == ascii_lowercase(host_part(v@)),
{
    let n = host_end(v);
    let mut h: Vec<char> = Vec::new();
    let mut i: usize = 0;
    while i < n
        invariant
            n <= v@.len(),
            v@.take(n as int) == host_part(v@),
            i <= n,
            h@ == ascii_lowercase(v@.take(i as int)),
        decreases n - i,
    {
        let c = v[i];
        let l = if c >= 'A' && c <= 'Z' {
            ((c as u8) + 32) as char
        } else {
            c
        };
        h.push(l);
        assert(v@.take(i + 1) =~= v@.take(i as int).push(c));
        assert(ascii_lowercase(v@.take(i + 1)) =~= ascii_lowercase(v@.take(i as int)).push(
            ascii_lower(c),
        ));
        i = i + 1;
    }
    h
}

/// What the address bar makes of `input` (already trimmed): an empty input
/// is rejected; a URL with an explicit scheme is navigated to as it is; a
/// lower-cased host part with a dot and no space needs its TLD checked;
/// anything else becomes a Federate search.
pub fn normalize_input(input: &str) -> (r: AddressPlan)
    ensures
        r@ == address_plan(input@, input.spec_bytes()),
{
    let v = chars_of(input);
    if v.len() == 0 {
        let mut e = String::new();
        e.append("empty address");
        return AddressPlan::Rejected(e);
    }
    if str_has_prefix(input, "fed://") || str_has_prefix(input, "http://") || str_has_prefix(
        input,
        "https://",
    ) {
        return AddressPlan::Navigate(string_of(&v));
    }
    let host = lower_host(&v);
    if crate::text::contains_char(&host, '.') && !crate::text::contains_char(&host, ' ') {
        return AddressPlan::CheckHost(string_of(&host));
    }
    let mut url = String::new();
    url.append(SEARCH_URL);
    url.append("/?q=");
    let q = percent_encode(input);
    url.append(q.as_str());
    AddressPlan::Navigate(url)
}

/// The URL for host-like input once its TLD has been looked up: `fed://`
/// when the host is a Federate domain whose TLD the verified root lists,
/// `https://` otherwise. The input is kept as typed.
pub fn host_address(input: &str, federate_tld: bool) -> (r: String)
    ensures
        r@ == (if federate_tld {
            "fed://"@
        } else {
            "https://"@
        }) + input@,
{
    let mut r = String::new();
    if federate_tld {
        r.append("fed://");
    } else {
        r.append("https://");
    }
    r.append(input);
    r
}

} // verus!

verus! {

// ---------------------------------------------------------------------------
// Laws of the address bar
// ---------------------------------------------------------------------------

/// A character that would end or split a query parameter value.
pub open spec fn is_query_delimiter(c: char) -> bool {
    c == ' ' || c == '&' || c == '#' || c == '?' || c == '/' || c == '='
}

/// A percent-encoded query is one parameter value: no character of it could
/// end or split the value, whatever was typed.
pub proof fn lemma_percent_encoded_stays_one_value(bytes: Seq<u8>)
    ensures
        forall|i: int|
            0 <= i < percent_encoded(bytes).len() ==> !is_query_delimiter(
                #[trigger] percent_encoded(bytes)[i],
            ),
    decreases bytes.len(),
{
    if bytes.len() > 0 {
        lemma_percent_encoded_stays_one_value(bytes.drop_last());
        let prev = percent_encoded(bytes.drop_last());
        let last = encoded_byte(bytes.last());
        assert forall|j: int| 0 <= j < last.len() implies !is_query_delimiter(#[trigger] last[j]) by {
            let b = bytes.last();
            if !is_unreserved(b) && b != 32 && j > 0 {
                let d = if j == 1 {
                    b as int / 16
                } else {
                    b as int % 16
                };
                assert(0 <= d < 16);
            }
        }
        assert forall|i: int|
            0 <= i < percent_encoded(bytes).len() implies !is_query_delimiter(
            #[trigger] percent_encoded(bytes)[i],
        ) by {
            if i < prev.len() {
                assert(percent_encoded(bytes)[i] == prev[i]);
            } else {
                assert(percent_encoded(bytes)[i] == last[i - prev.len()]);
            }
        }
    }
}

/// Every URL the address bar navigates to, directly or after the TLD
/// lookup, names its scheme: `fed://`, `http://` or `https://`.
pub proof fn lemma_address_bar_urls_have_a_scheme(s: Seq<char>, bytes: Seq<u8>, federate_tld: bool)
    ensures
        address_plan(s, bytes) matches AddressPlanView::Navigate(u) ==> has_explicit_scheme(u),
        address_plan(s, bytes) is CheckHost ==> has_explicit_scheme(
            (if federate_tld {
                "fed://"@
            } else {
                "https://"@
            }) + s,
        ),
{
    reveal_strlit("fed://");
    reveal_strlit("https://");
    reveal_strlit("fed://fed.busca");
    reveal_strlit("/?q=");
    let fed = "fed://"@;
    if s.len() > 0 && !has_explicit_scheme(s) && !looks_like_host(ascii_lowercase(host_part(s))) {
        let u = search_url(bytes);
        assert(u.take(fed.len() as int) =~= fed);
    }
    let https = "https://"@;
    assert((fed + s).take(fed.len() as int) =~= fed);
    assert((https + s).take(https.len() as int) =~= https);
}

} // verus!

verus! {

/// The value of a hexadecimal digit (either case; other characters count as 0).
pub open spec fn hex_value(c: char) -> int {
    if '0' <= c && c <= '9' {
        c as int - 48
    } else if 'A' <= c && c <= 'F' {
        c as int - 55
    } else if 'a' <= c && c <= 'f' {
        c as int - 87
    } else {
        0
    }
}

/// Form decoding: `+` is a space, `%XY` the byte `0xXY`, and any other
/// character its own (ASCII) byte.
pub open spec fn form_decoded(s: Seq<char>) -> Seq<u8>
    decreases s.len(),
{
    if s.len() == 0 {
        Seq::empty()
    } else if s[0] == '%' && s.len() >= 3 {
        seq![(hex_value(s[1]) * 16 + hex_value(s[2])) as u8] + form_decoded(s.skip(3))
    } else if s[0] == '+' {
        seq![32u8] + form_decoded(s.skip(1))
    } else {
        seq![s[0] as u8] + form_decoded(s.skip(1))
    }
}

/// Encoding a byte in front of a byte string puts its encoding in front.
proof fn lemma_percent_encoded_cons(b: u8, bs: Seq<u8>)
    ensures
        percent_encoded(seq![b] + bs) == encoded_byte(b) + percent_encoded(bs),
    decreases bs.len(),
{
    if bs.len() == 0 {
        assert(seq![b] + bs =~= seq![b]);
        assert(seq![b].drop_last() =~= Seq::<u8>::empty());
        assert(encoded_byte(b) + Seq::<char>::empty() =~= encoded_byte(b));
        assert(Seq::<char>::empty() + encoded_byte(b) =~= encoded_byte(b));
        assert(percent_encoded(Seq::<u8>::empty()) == Seq::<char>::empty());
        assert(percent_encoded(seq![b]) == percent_encoded(seq![b].drop_last()) + encoded_byte(b));
        assert(percent_encoded(bs) == Seq::<char>::empty());
    } else {
        let whole = seq![b] + bs;
        assert(whole.drop_last() =~= seq![b] + bs.drop_last());
        assert(whole.last() == bs.last());
        lemma_percent_encoded_cons(b, bs.drop_last());
        assert(percent_encoded(whole) == percent_encoded(whole.drop_last()) + encoded_byte(
            whole.last(),
        ));
        assert(percent_encoded(bs) == percent_encoded(bs.drop_last()) + encoded_byte(bs.last()));
        assert(encoded_byte(b) + percent_encoded(bs.drop_last()) + encoded_byte(bs.last())
            =~= encoded_byte(b) + (percent_encoded(bs.drop_last()) + encoded_byte(bs.last())));
    }
}

/// Decoding one encoded byte in front of more text gives the byte back.
proof fn lemma_form_decoded_cons(b: u8, rest: Seq<char>)
    ensures
        form_decoded(encoded_byte(b) + rest) == seq![b] + form_decoded(rest),
{
    let e = encoded_byte(b);
    let s = e + rest;
    if is_unreserved(b) {
        assert(s[0] == b as char);
        assert(s.skip(1) =~= rest);
    } else if b == 32 {
        assert(s[0] == '+');
        assert(s.skip(1) =~= rest);
    } else {
        let hi = b as int / 16;
        let lo = b as int % 16;
        assert(s[0] == '%' && s[1] == hex_digit(hi) && s[2] == hex_digit(lo));
        assert(hex_value(hex_digit(hi)) == hi);
        assert(hex_value(hex_digit(lo)) == lo);
        assert(s.skip(3) =~= rest);
    }
}

/// Decoding undoes the query encoding: every byte string comes back from
/// its encoded form (so the encoding is also one-to-one).
pub proof fn lemma_percent_round_trip(bytes: Seq<u8>)
    ensures
        form_decoded(percent_encoded(bytes)) == bytes,
    decreases bytes.len(),
{
    if bytes.len() > 0 {
        let b = bytes[0];
        let rest = bytes.skip(1);
        assert(bytes =~= seq![b] + rest);
        lemma_percent_encoded_cons(b, rest);
        lemma_form_decoded_cons(b, percent_encoded(rest));
        lemma_percent_round_trip(rest);
    }
}

} // verus!

verus! {

/// The host part of an address is a prefix of it that holds none of `/`,
/// `?` and `#`, and ends at the first of them (or at the end).
proof fn lemma_host_part_shape(s: Seq<char>)
    ensures
        host_part(s).len() <= s.len(),
        host_part(s) == s.take(host_part(s).len() as int),
        forall|i: int|
            0 <= i < host_part(s).len() ==> s[i] != '/' && s[i] != '?' && s[i] != '#',
        host_part(s).len() < s.len() ==> (s[host_part(s).len() as int] == '/' || s[host_part(
            s,
        ).len() as int] == '?' || s[host_part(s).len() as int] == '#'),
    decreases s.len(),
{
    if s.len() > 0 && !ends_host(s[0]) {
        let t = s.drop_first();
        lemma_host_part_shape(t);
        let h = host_part(s);
        assert(h == seq![s[0]] + host_part(t));
        assert forall|i: int| 0 <= i < h.len() implies s[i] != '/' && s[i] != '?' && s[i]
            != '#' by {
            if i > 0 {
                assert(s[i] == t[i - 1]);
            }
        }
        assert(h =~= s.take(h.len() as int));
        if h.len() < s.len() {
            assert(s[h.len() as int] == t[host_part(t).len() as int]);
        }
    } else if s.len() > 0 {
        assert(host_part(s) =~= s.take(0));
    }
}

/// The host candidate that goes to the TLD lookup is the input up to its
/// first `/`, `?` or `#`, with ASCII capitals made small: it holds none of
/// those characters, the input continues, if at all, with one of them, and
/// it has a dot and no space. Input with no explicit scheme whose host part
/// does not look like that is searched for on the Federate search page.
pub proof fn lemma_host_candidate(s: Seq<char>, bytes: Seq<u8>)
    ensures
        address_plan(s, bytes) matches AddressPlanView::CheckHost(h) ==> {
            &&& h.len() <= s.len()
            &&& forall|i: int|
                0 <= i < h.len() ==> h[i] == (if 'A' <= s[i] && s[i] <= 'Z' {
                    ((s[i] as int) + 32) as char
                } else {
                    s[i]
                }) && h[i] != '/' && h[i] != '?' && h[i] != '#'
            &&& h.len() < s.len() ==> (s[h.len() as int] == '/' || s[h.len() as int] == '?'
                || s[h.len() as int] == '#')
            &&& h.contains('.')
            &&& !h.contains(' ')
        },
        s.len() > 0 && !has_explicit_scheme(s) && !(address_plan(s, bytes) is CheckHost)
            ==> address_plan(s, bytes) == AddressPlanView::Navigate(
            "fed://fed.busca/?q="@ + percent_encoded(bytes),
        ),
{
    lemma_host_part_shape(s);
    let hp = host_part(s);
    assert forall|i: int| 0 <= i < hp.len() implies hp[i] == s[i] by {
        assert(hp[i] == s.take(hp.len() as int)[i]);
    }
    reveal_strlit("fed://fed.busca");
    reveal_strlit("/?q=");
    reveal_strlit("fed://fed.busca/?q=");
    assert(SEARCH_URL@ + "/?q="@ =~= "fed://fed.busca/?q="@);
}

} // verus!

//! fed:// links handed over by the operating system. The URLs a launch was
//! started with open the first tab; the deep-link plugin may replay that same
//! batch once more, and that one echo is swallowed so the tab is not opened
//! twice.

use vstd::prelude::*;

use crate::text::str_eq;

verus! {

/// A list of strings taken by their characters.
pub open spec fn urls_view(v: Seq<String>) -> Seq<Seq<char>> {
    v.map_values(|s: String| s@)
}

/// Whether two lists of URLs hold the same URLs in the same order.
pub fn same_urls(a: &Vec<String>, b: &Vec<String>) -> (r: bool)
    ensures
        r == (urls_view(a@) == urls_view(b@)),
{
    if a.len() != b.len() {
        assert(urls_view(a@).len() != urls_view(b@).len());
        return false;
    }
    let mut i: usize = 0;
    while i < a.len()
        invariant
            a@.len() == b@.len(),
            i <= a@.len(),
            forall|k: int| 0 <= k < i ==> a@[k]@ == b@[k]@,
        decreases a@.len() - i,
    {
        if !str_eq(a[i].as_str(), b[i].as_str()) {
            assert(urls_view(a@)[i as int] != urls_view(b@)[i as int]);
            return false;
        }
        i = i + 1;
    }
    assert(urls_view(a@) =~= urls_view(b@));
    true
}

/// The launch URLs that may still come back once as an echo.
pub struct LaunchEcho {
    pending: Option<Vec<String>>,
}

impl View for LaunchEcho {
    type V = Option<Seq<Seq<char>>>;

    closed spec fn view(&self) -> Option<Seq<Seq<char>>> {
        match self.pending {
            Some(v) => Some(urls_view(v@)),
            None => None,
        }
    }
}

impl LaunchEcho {
    /// Remembers the URLs the launch started with; there is no echo to
    /// expect when there were none.
    pub fn new(start_urls: Vec<String>) -> (e: LaunchEcho)
        ensures
            e@ == (if start_urls@.len() == 0 {
                None
            } else {
                Some(urls_view(start_urls@))
            }),
    {
        if start_urls.len() == 0 {
            LaunchEcho { pending: None }
        } else {
            LaunchEcho { pending: Some(start_urls) }
        }
    }

    /// Decides whether a batch of opened URLs is to be ignored: an empty
    /// batch always is (and changes nothing); the first non-empty batch uses
    /// up the expected echo, and is ignored when it is exactly the launch URLs.
    pub fn swallow(&mut self, urls: &Vec<String>) -> (skip: bool)
        ensures
            urls@.len() == 0 ==> skip && final(self)@ == old(self)@,
            urls@.len() > 0 ==> final(self)@ is None && skip == (old(self)@ == Some(
                urls_view(urls@),
            )),
    {
        if urls.len() == 0 {
            return true;
        }
        let pending = self.pending.take();
        match pending {
            Some(initial) => same_urls(&initial, urls),
            None => false,
        }
    }
}

} // verus!

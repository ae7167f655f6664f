//! How a launch URL is opened: some portals in the default browser, the rest
//! in the standalone flash player.
use vstd::prelude::*;

verus! {

/// Where a launch URL is opened.
#[derive(Debug, Clone, Copy, PartialEq, Eq)]
pub enum LaunchTarget {
    Browser,
    FlashPlayer,
}

/// `t` occurs in `s` at position `i`.
pub open spec fn occurs_at(s: Seq<char>, t: Seq<char>, i: int) -> bool {
    0 <= i && i + t.len() <= s.len() && s.subrange(i, i + t.len()) == t
}

/// `t` occurs somewhere in `s`.
pub open spec fn contains(s: Seq<char>, t: Seq<char>) -> bool {
    exists|i: int| occurs_at(s, t, i)
}

/// The URLs that open in the browser: those on the `337.com` portal and
/// those whose host begins with `s` over plain HTTP.
pub open spec fn opens_in_browser(url: Seq<char>) -> bool {
    contains(url, "337.com"@) || occurs_at(url, "http://s"@, 0)
}

fn occurs_at_exec(s: &str, t: &str, i: usize) -> (r: bool)
    ensures
        r == occurs_at(s@, t@, i as int),
{
    let n = s.unicode_len();
    let m = t.unicode_len();
    if i > n || m > n - i {
        return false;
    }
    let piece = s.substring_char(i, i + m).to_owned();
    let pat = t.to_owned();
    piece.eq(&pat)
}

fn contains_exec(s: &str, t: &str) -> (r: bool)
    ensures
        r == contains(s@, t@),
{
    let n = s.unicode_len();
    let mut i: usize = 0;
    while i < n
        invariant
            n == s@.len(),
            i <= n,
            forall|j: int| 0 <= j < i ==> !occurs_at(s@, t@, j),
        decreases n - i,
    {
        if occurs_at_exec(s, t, i) {
            return true;
        }
        i = i + 1;
    }
    occurs_at_exec(s, t, n)
}

/// Where `url` is opened.
pub fn launch_target(url: &str) -> (r: LaunchTarget)
    ensures
        r == (if opens_in_browser(url@) { LaunchTarget::Browser } else { LaunchTarget::FlashPlayer }),
{
    if contains_exec(url, "337.com") || occurs_at_exec(url, "http://s", 0) {
        LaunchTarget::Browser
    } else {
        LaunchTarget::FlashPlayer
    }
}

} // verus!

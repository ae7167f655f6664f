//! Saved accounts as the UI lists them.
use vstd::multiset::Multiset;
use vstd::prelude::*;

verus! {

broadcast use vstd::seq_lib::group_to_multiset_ensures, vstd::multiset::group_multiset_axioms;

/// A saved account: the credentials handed to a strategy, the strategy's
/// name, and optional display data.
#[derive(Debug, Clone, PartialEq, Eq)]
pub struct UserInfo {
    pub username: String,
    pub password: String,
    pub strategy: String,
    pub server: String,
    pub nickname: Option<String>,
    /// When the account was last used, in seconds since the epoch.
    pub last_used: Option<u64>,
}

/// When an account was last used; never-used accounts count as time zero.
pub open spec fn recency(u: UserInfo) -> u64 {
    match u.last_used {
        Some(t) => t,
        None => 0,
    }
}

/// Accounts are ordered most recently used first.
pub open spec fn most_recent_first(s: Seq<(String, UserInfo)>) -> bool {
    forall|i: int, j: int| 0 <= i < j < s.len() ==> recency(s[i].1) >= recency(s[j].1)
}

/// Where an account of recency `key` goes in `r`: before the first entry
/// that is not more recent than it.
pub open spec fn insert_position(r: Seq<(String, UserInfo)>, key: u64) -> int
    decreases r.len(),
{
    if r.len() == 0 || recency(r[0].1) <= key {
        0
    } else {
        1 + insert_position(r.drop_first(), key)
    }
}

/// `s` ordered most recently used first; accounts used at the same time
/// keep their relative order.
pub open spec fn by_recency(s: Seq<(String, UserInfo)>) -> Seq<(String, UserInfo)>
    decreases s.len(),
{
    if s.len() == 0 {
        s
    } else {
        let rest = by_recency(s.drop_first());
        rest.insert(insert_position(rest, recency(s[0].1)), s[0])
    }
}

proof fn lemma_insert_position(r: Seq<(String, UserInfo)>, key: u64, k: int)
    requires
        0 <= k <= r.len(),
        forall|j: int| 0 <= j < k ==> recency(#[trigger] r[j].1) > key,
        k == r.len() || recency(r[k].1) <= key,
    ensures
        insert_position(r, key) == k,
    decreases k,
{
    if k > 0 {
        let t = r.drop_first();
        assert forall|j: int| 0 <= j < k - 1 implies recency(#[trigger] t[j].1) > key by {
            assert(t[j] == r[j + 1]);
        }
        if k < r.len() {
            assert(t[k - 1] == r[k]);
        }
        assert(recency(r[0].1) > key);
        lemma_insert_position(t, key, k - 1);
    }
}

fn recency_of(u: &UserInfo) -> (r: u64)
    ensures
        r == recency(*u),
{
    match u.last_used {
        Some(t) => t,
        None => 0,
    }
}

/// The accounts, each keyed by its id, reordered most recently used first.
pub fn sort_by_recent(users: Vec<(String, UserInfo)>) -> (r: Vec<(String, UserInfo)>)
    ensures
        r@ == by_recency(users@),
        r@.to_multiset() == users@.to_multiset(),
        most_recent_first(r@),
{
    let ghost all = users@;
    let mut rest = users;
    let mut r: Vec<(String, UserInfo)> = Vec::new();
    while rest.len() > 0
        invariant
            rest@.to_multiset().add(r@.to_multiset()) == all.to_multiset(),
            most_recent_first(r@),
            rest@.len() <= all.len(),
            rest@ == all.subrange(0, rest@.len() as int),
            r@ == by_recency(all.subrange(rest@.len() as int, all.len() as int)),
        decreases rest@.len(),
    {
        let ghost before = rest@;
        let x = match rest.pop() {
            Some(x) => x,
            None => {
                return r;
            },
        };
        proof {
            assert(before =~= rest@.push(x));
            assert(rest@ =~= all.subrange(0, rest@.len() as int));
        }
        let key = recency_of(&x.1);
        let mut k: usize = 0;
        while k < r.len() && recency_of(&r[k].1) > key
            invariant
                k <= r@.len(),
                forall|j: int| 0 <= j < k ==> recency(#[trigger] r@[j].1) > key,
            decreases r@.len() - k,
        {
            k = k + 1;
        }
        let ghost old_r = r@;
        proof {
            lemma_insert_position(old_r, key, k as int);
            let i = rest@.len() as int;
            let suffix = all.subrange(i, all.len() as int);
            assert(all[i] == x);
            assert(suffix.drop_first() =~= all.subrange(i + 1, all.len() as int));
            assert(rest@ =~= all.subrange(0, i));
        }
        r.insert(k, x);
        proof {
            assert forall|i: int, j: int| 0 <= i < j < r@.len() implies recency(r@[i].1) >= recency(r@[j].1) by {
                if j < k {
                    assert(r@[i] == old_r[i] && r@[j] == old_r[j]);
                } else if j == k {
                    assert(r@[i] == old_r[i]);
                } else if i == k {
                    assert(r@[j] == old_r[j - 1]);
                    assert(recency(old_r[k as int].1) <= key);
                    assert(recency(old_r[k as int].1) >= recency(old_r[j - 1].1));
                } else if i < k {
                    assert(r@[i] == old_r[i] && r@[j] == old_r[j - 1]);
                } else {
                    assert(r@[i] == old_r[i - 1] && r@[j] == old_r[j - 1]);
                }
            }
            assert(rest@.to_multiset().add(r@.to_multiset()) =~= all.to_multiset());
        }
    }
    proof {
        assert(all.subrange(0, all.len() as int) =~= all);
        assert(rest@.to_multiset() =~= Multiset::empty());
        assert(r@.to_multiset() =~= all.to_multiset());
    }
    r
}

} // verus!

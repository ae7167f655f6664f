//! The script registry: strategy names mapped to script source text.
use vstd::prelude::*;

verus! {

/// Why a registry lookup failed.
#[derive(Debug, Clone, PartialEq, Eq)]
pub enum StrategyError {
    /// No script of the requested name is registered; carries that name.
    StrategyNotFound(String),
}

impl StrategyError {
    /// A human-readable description naming the strategy that was asked for.
    pub fn message(&self) -> (r: String)
        ensures
            match self {
                StrategyError::StrategyNotFound(n) => r@ == "strategy "@ + n@ + " does not exist"@,
            },
    {
        match self {
            StrategyError::StrategyNotFound(n) => {
                let head = String::from_str("strategy ");
                let with_name = head.concat(n.as_str());
                with_name.concat(" does not exist")
            },
        }
    }
}

/// Registered scripts, keyed by the base file name they were loaded from.
pub struct Strategy {
    scripts: Vec<(String, String)>,
}

/// The registry `m` after inserting each of `entries`, first to last; a
/// later entry replaces an earlier one of the same name.
pub open spec fn merged(m: Map<Seq<char>, Seq<char>>, entries: Seq<(String, String)>) -> Map<Seq<char>, Seq<char>>
    decreases entries.len(),
{
    if entries.len() == 0 {
        m
    } else {
        merged(m, entries.drop_last()).insert(entries.last().0@, entries.last().1@)
    }
}

/// Once a batch of scripts with distinct names is loaded, each of its names
/// is registered and maps to exactly the text it was loaded with.
pub proof fn law_loaded_scripts_are_found(m: Map<Seq<char>, Seq<char>>, entries: Seq<(String, String)>, i: int)
    requires
        0 <= i < entries.len(),
        forall|a: int, b: int| 0 <= a < b < entries.len() ==> entries[a].0@ != entries[b].0@,
    ensures
        merged(m, entries).contains_key(entries[i].0@),
        merged(m, entries)[entries[i].0@] == entries[i].1@,
    decreases entries.len(),
{
    if i < entries.len() - 1 {
        let rest = entries.drop_last();
        assert(rest[i] == entries[i]);
        law_loaded_scripts_are_found(m, rest, i);
        assert(entries.last() == entries[entries.len() - 1]);
    }
}

impl View for Strategy {
    type V = Map<Seq<char>, Seq<char>>;

    /// The registry as a map from name to script text.
    closed spec fn view(&self) -> Map<Seq<char>, Seq<char>> {
        Map::new(
            |k: Seq<char>| exists|i: int| 0 <= i < self.scripts@.len() && self.scripts@[i].0@ == k,
            |k: Seq<char>|
                self.scripts@[choose|i: int| 0 <= i < self.scripts@.len() && self.scripts@[i].0@ == k].1@,
        )
    }
}

impl Strategy {
    /// No name is stored twice.
    pub closed spec fn wf(&self) -> bool {
        forall|i: int, j: int|
            0 <= i < j < self.scripts@.len() ==> self.scripts@[i].0@ != self.scripts@[j].0@
    }

    proof fn lemma_view_at(&self, i: int)
        requires
            self.wf(),
            0 <= i < self.scripts@.len(),
        ensures
            self@.contains_key(self.scripts@[i].0@),
            self@[self.scripts@[i].0@] == self.scripts@[i].1@,
    {
        let k = self.scripts@[i].0@;
        assert(exists|j: int| 0 <= j < self.scripts@.len() && self.scripts@[j].0@ == k);
        let c = choose|j: int| 0 <= j < self.scripts@.len() && self.scripts@[j].0@ == k;
        assert(c == i) by {
            if c < i {
                assert(self.scripts@[c].0@ != self.scripts@[i].0@);
            } else if c > i {
                assert(self.scripts@[i].0@ != self.scripts@[c].0@);
            }
        }
    }

    /// An empty registry.
    pub fn new() -> (r: Strategy)
        ensures
            r.wf(),
            r@ == Map::<Seq<char>, Seq<char>>::empty(),
    {
        let r = Strategy { scripts: Vec::new() };
        assert(r@ =~= Map::<Seq<char>, Seq<char>>::empty());
        r
    }

    /// The position of `name` among the entries, if it is registered.
    fn position(&self, name: &str) -> (r: Option<usize>)
        requires
            self.wf(),
        ensures
            match r {
                Some(i) => i < self.scripts@.len() && self.scripts@[i as int].0@ == name@,
                None => !self@.contains_key(name@),
            },
    {
        let key = name.to_owned();
        let mut i: usize = 0;
        while i < self.scripts.len()
            invariant
                i <= self.scripts@.len(),
                key@ == name@,
                forall|j: int| 0 <= j < i ==> self.scripts@[j].0@ != name@,
            decreases self.scripts@.len() - i,
        {
            if self.scripts[i].0.eq(&key) {
                return Some(i);
            }
            i = i + 1;
        }
        None
    }

    /// Registers `script` under `name`, replacing any script of that name.
    pub fn insert(&mut self, name: String, script: String)
        requires
            old(self).wf(),
        ensures
            final(self).wf(),
            final(self)@ == old(self)@.insert(name@, script@),
    {
        let pos = self.position(name.as_str());
        match pos {
            Some(i) => {
                proof {
                    self.lemma_view_at(i as int);
                }
                self.scripts.set(i, (name, script));
            },
            None => {
                self.scripts.push((name, script));
            },
        }
        proof {
            let m = old(self)@.insert(name@, script@);
            assert forall|k: Seq<char>| #[trigger] self@.contains_key(k) implies m.contains_key(k) && self@[k] == m[k] by {
                let j = choose|j: int| 0 <= j < self.scripts@.len() && self.scripts@[j].0@ == k;
                self.lemma_view_at(j);
                if k != name@ {
                    assert(old(self).scripts@[j] == self.scripts@[j]);
                    old(self).lemma_view_at(j);
                }
            }
            assert forall|k: Seq<char>| #[trigger] m.contains_key(k) implies self@.contains_key(k) by {
                if k == name@ {
                    let j = match pos { Some(i) => i as int, None => old(self).scripts@.len() as int };
                    assert(self.scripts@[j].0@ == k);
                } else {
                    let j = choose|j: int| 0 <= j < old(self).scripts@.len() && old(self).scripts@[j].0@ == k;
                    assert(self.scripts@[j] == old(self).scripts@[j]);
                }
            }
            assert(self@ =~= m);
        }
    }

    /// Registers every entry, first to last; names already present are
    /// overwritten and no entry is ever removed.
    pub fn load(&mut self, entries: Vec<(String, String)>)
        requires
            old(self).wf(),
        ensures
            final(self).wf(),
            final(self)@ == merged(old(self)@, entries@),
    {
        let mut i: usize = 0;
        while i < entries.len()
            invariant
                self.wf(),
                i <= entries@.len(),
                self@ == merged(old(self)@, entries@.subrange(0, i as int)),
            decreases entries@.len() - i,
        {
            let name = entries[i].0.clone();
            let script = entries[i].1.clone();
            self.insert(name, script);
            proof {
                let pre = entries@.subrange(0, i as int + 1);
                assert(pre.drop_last() =~= entries@.subrange(0, i as int));
            }
            i = i + 1;
        }
        assert(entries@.subrange(0, entries@.len() as int) =~= entries@);
    }

    /// The names of all registered scripts, each once, in no particular order.
    pub fn list(&self) -> (r: Vec<String>)
        requires
            self.wf(),
        ensures
            forall|k: Seq<char>| self@.contains_key(k) <==> exists|i: int| 0 <= i < r@.len() && #[trigger] r@[i]@ == k,
            forall|i: int, j: int| 0 <= i < j < r@.len() ==> r@[i]@ != r@[j]@,
    {
        let mut r: Vec<String> = Vec::new();
        let mut i: usize = 0;
        while i < self.scripts.len()
            invariant
                self.wf(),
                i <= self.scripts@.len(),
                r@.len() == i,
                forall|j: int| 0 <= j < i ==> #[trigger] r@[j]@ == self.scripts@[j].0@,
            decreases self.scripts@.len() - i,
        {
            r.push(self.scripts[i].0.clone());
            i = i + 1;
        }
        proof {
            assert forall|k: Seq<char>| self@.contains_key(k) implies exists|i: int| 0 <= i < r@.len() && #[trigger] r@[i]@ == k by {
                let j = choose|j: int| 0 <= j < self.scripts@.len() && self.scripts@[j].0@ == k;
                assert(r@[j]@ == k);
            }
            assert forall|k: Seq<char>| (exists|i: int| 0 <= i < r@.len() && #[trigger] r@[i]@ == k) implies self@.contains_key(k) by {
                let j = choose|j: int| 0 <= j < r@.len() && #[trigger] r@[j]@ == k;
                self.lemma_view_at(j);
            }
        }
        r
    }

    /// The script registered under `name`.
    pub fn get(&self, name: &str) -> (r: Result<String, StrategyError>)
        requires
            self.wf(),
        ensures
            match r {
                Ok(s) => self@.contains_key(name@) && s@ == self@[name@],
                Err(StrategyError::StrategyNotFound(n)) => !self@.contains_key(name@) && n@ == name@,
            },
    {
        match self.position(name) {
            Some(i) => {
                proof {
                    self.lemma_view_at(i as int);
                }
                Ok(self.scripts[i].1.clone())
            },
            None => Err(StrategyError::StrategyNotFound(name.to_owned())),
        }
    }
}

} // verus!

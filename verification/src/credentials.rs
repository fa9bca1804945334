//! Which providers this process can authenticate, worked out once.
//!
//! The roster says which providers exist and which environment variable each
//! reads its key from; this is the shorter list that matters to a running
//! client: the providers whose variable actually holds a key. A snapshot, so
//! the set of providers a client can reach cannot change under it.

use vstd::prelude::*;

use crate::error::Error;
use crate::registry::load::{load, load_text};
use crate::registry::types::{copy_opt, opt_view};
use crate::registry::specs::SPECS_YAML;
use crate::text::{before, before_exec, chars_of, join2, lemma_before_total, lemma_before_transitive, text_eq};

verus! {

broadcast use crate::registry::types::group_registry_views;

/// A value read for a provider's key variable counts as a key only when it
/// is there and not empty: `OPENAI_API_KEY=` is a variable that is set and a
/// key that is not.
pub open spec fn is_key(v: Option<Seq<char>>) -> bool {
    v matches Some(s) && s.len() > 0
}

/// The key `values` hold for `provider`: the last one read for it.
pub open spec fn key_in(values: Seq<(Seq<char>, Option<Seq<char>>)>, provider: Seq<char>) -> Option<Seq<char>>
    decreases values.len(),
{
    if values.len() == 0 {
        None
    } else if values.last().0 == provider && is_key(values.last().1) {
        values.last().1
    } else {
        key_in(values.drop_last(), provider)
    }
}

/// Stored (provider, key) pairs, as read values.
pub open spec fn entries_of(keys: Seq<(String, String)>) -> Seq<(Seq<char>, Option<Seq<char>>)> {
    keys.map_values(|e: (String, String)| (e.0@, Some(e.1@)))
}

/// The API keys this process holds, by provider name.
pub struct Credentials {
    /// Each provider that has a key, with it, in the order read; a provider
    /// read twice keeps the later key.
    keys: Vec<(String, String)>,
}

impl Credentials {
    /// The accepted (provider, key) pairs.
    pub closed spec fn entries(&self) -> Seq<(Seq<char>, Option<Seq<char>>)> {
        entries_of(self.keys@)
    }

    /// The key held for `provider`.
    pub open spec fn key_for(&self, provider: Seq<char>) -> Option<Seq<char>> {
        key_in(self.entries(), provider)
    }

    #[verifier::type_invariant]
    closed spec fn wf(&self) -> bool {
        forall|i: int| 0 <= i < self.keys@.len() ==> self.keys@[i].1@.len() > 0
    }

    /// Keeps every provider whose key variable held a non-empty value.
    /// `values` pairs each provider with what its variable held (`None` when
    /// it names no variable or the variable is unset).
    pub fn from_values(values: Vec<(String, Option<String>)>) -> (r: Credentials)
        ensures
            forall|p: Seq<char>| #[trigger] r.key_for(p) == key_in(
                values@.map_values(|e: (String, Option<String>)| (e.0@, match e.1 {
                    Some(s) => Some(s@),
                    None => None,
                })),
                p,
            ),
    {
        let ghost vs = values@.map_values(|e: (String, Option<String>)| (e.0@, match e.1 {
            Some(s) => Some(s@),
            None => None,
        }));
        let mut keys: Vec<(String, String)> = Vec::new();
        let mut i: usize = 0;
        while i < values.len()
            invariant
                i <= values.len(),
                vs == values@.map_values(|e: (String, Option<String>)| (e.0@, match e.1 {
                    Some(s) => Some(s@),
                    None => None,
                })),
                forall|j: int| 0 <= j < keys@.len() ==> keys@[j].1@.len() > 0,
                forall|p: Seq<char>| #[trigger] key_in(entries_of(keys@), p) == key_in(
                    vs.take(i as int),
                    p,
                ),
            decreases values.len() - i,
        {
            let ghost before_keys = entries_of(keys@);
            proof {
                assert(vs.take(i as int + 1).drop_last() =~= vs.take(i as int));
                assert(vs.take(i as int + 1).last() == vs[i as int]);
            }
            assert(vs[i as int].0 == values@[i as int].0@);
            match &values[i].1 {
                Some(v) => {
                    assert(vs[i as int].1 == Some(v@));
                    if chars_of(v.as_str()).len() > 0 {
                        keys.push((values[i].0.clone(), v.clone()));
                        assert(entries_of(keys@).drop_last() =~= before_keys);
                        assert(entries_of(keys@).last() == vs[i as int]);
                    }
                    assert forall|p: Seq<char>| #[trigger] key_in(entries_of(keys@), p) == key_in(
                        vs.take(i as int + 1),
                        p,
                    ) by {
                        assert(key_in(before_keys, p) == key_in(vs.take(i as int), p));
                    }
                },
                None => {
                    assert(vs[i as int].1 is None);
                    assert forall|p: Seq<char>| #[trigger] key_in(entries_of(keys@), p) == key_in(
                        vs.take(i as int + 1),
                        p,
                    ) by {
                        assert(key_in(before_keys, p) == key_in(vs.take(i as int), p));
                    }
                },
            }
            i = i + 1;
        }
        assert(vs.take(i as int) =~= vs);
        Credentials { keys }
    }

    /// This provider's key, or `None` when none was read for it.
    pub fn get(&self, provider: &str) -> (r: Option<&str>)
        ensures
            match self.key_for(provider@) {
                Some(k) => r matches Some(s) && s@ == k,
                None => r is None,
            },
    {
        proof {
            use_type_invariant(self);
        }
        let ghost es = self.entries();
        let mut n = self.keys.len();
        assert(es.take(n as int) =~= es);
        while n > 0
            invariant
                n <= self.keys.len(),
                es == self.entries(),
                forall|i: int| 0 <= i < self.keys@.len() ==> self.keys@[i].1@.len() > 0,
                key_in(es, provider@) == key_in(es.take(n as int), provider@),
            decreases n,
        {
            assert(es.take(n as int).drop_last() =~= es.take(n as int - 1));
            assert(es.take(n as int).last() == es[n as int - 1]);
            if text_eq(self.keys[n - 1].0.as_str(), provider) {
                return Some(self.keys[n - 1].1.as_str());
            }
            n = n - 1;
        }
        None
    }
}

proof fn lemma_key_in(values: Seq<(Seq<char>, Option<Seq<char>>)>, p: Seq<char>)
    ensures
        key_in(values, p) is Some <==> exists|i: int|
            0 <= i < values.len() && values[i].0 == p && is_key(values[i].1),
    decreases values.len(),
{
    if values.len() > 0 {
        lemma_key_in(values.drop_last(), p);
        if exists|i: int| 0 <= i < values.len() && values[i].0 == p && is_key(values[i].1) {
            let i = choose|i: int| 0 <= i < values.len() && values[i].0 == p && is_key(values[i].1);
            if i < values.len() - 1 {
                assert(values.drop_last()[i] == values[i]);
            }
        }
        if exists|i: int|
            0 <= i < values.drop_last().len() && values.drop_last()[i].0 == p && is_key(
                values.drop_last()[i].1,
            ) {
            let i = choose|i: int|
                0 <= i < values.drop_last().len() && values.drop_last()[i].0 == p && is_key(
                    values.drop_last()[i].1,
                );
            assert(values[i] == values.drop_last()[i]);
        }
    }
}

/// Whether `s` holds a string spelled `p`.
pub open spec fn names_hold(s: Seq<String>, p: Seq<char>) -> bool {
    exists|i: int| 0 <= i < s.len() && s[i]@ == p
}

impl Credentials {
    /// The providers a request can be routed to, each once, in name order.
    pub fn names(&self) -> (r: Vec<String>)
        ensures
            forall|i: int, j: int| 0 <= i < j < r@.len() ==> before(r@[i]@, r@[j]@),
            forall|p: Seq<char>| #[trigger] names_hold(r@, p) <==> self.key_for(p) is Some,
    {
        proof {
            use_type_invariant(self);
        }
        let ghost es = self.entries();
        let mut r: Vec<String> = Vec::new();
        let mut k: usize = 0;
        while k < self.keys.len()
            invariant
                k <= self.keys.len(),
                es == self.entries(),
                es.len() == self.keys@.len(),
                forall|i: int| 0 <= i < self.keys@.len() ==> self.keys@[i].1@.len() > 0,
                forall|i: int, j: int| 0 <= i < j < r@.len() ==> before(r@[i]@, r@[j]@),
                forall|p: Seq<char>| #[trigger] names_hold(r@, p) <==> exists|i: int|
                    0 <= i < k && es[i].0 == p,
            decreases self.keys.len() - k,
        {
            let name = &self.keys[k].0;
            let nc = chars_of(name.as_str());
            let mut pos: usize = 0;
            while pos < r.len() && before_exec(chars_of(r[pos].as_str()).as_slice(), nc.as_slice())
                invariant
                    pos <= r@.len(),
                    nc@ == name@,
                    forall|j: int| 0 <= j < pos ==> before(r@[j]@, name@),
                    forall|i: int, j: int| 0 <= i < j < r@.len() ==> before(r@[i]@, r@[j]@),
                decreases r.len() - pos,
            {
                pos = pos + 1;
            }
            let ghost old_r = r@;
            let present = pos < r.len() && text_eq(r[pos].as_str(), name.as_str());
            if !present {
                proof {
                    if pos < old_r.len() {
                        lemma_before_total(old_r[pos as int]@, name@);
                    }
                    assert forall|j: int| pos <= j < old_r.len() implies before(name@, old_r[j]@) by {
                        lemma_before_total(old_r[pos as int]@, name@);
                        if j > pos {
                            lemma_before_transitive(name@, old_r[pos as int]@, old_r[j]@);
                        }
                    }
                }
                r.insert(pos, name.clone());
                proof {
                    assert(r@ == old_r.insert(pos as int, r@[pos as int]));
                    assert forall|i: int, j: int| 0 <= i < j < r@.len() implies before(r@[i]@, r@[j]@) by {
                        if i < pos && j == pos {
                        } else if i < pos && j > pos {
                            assert(r@[j] == old_r[j - 1]);
                            lemma_before_transitive(r@[i]@, name@, r@[j]@);
                        } else if i == pos {
                            assert(r@[j] == old_r[j - 1]);
                        } else if i > pos {
                            assert(r@[i] == old_r[i - 1]);
                            assert(r@[j] == old_r[j - 1]);
                        } else {
                            assert(r@[i] == old_r[i]);
                            assert(r@[j] == old_r[j]);
                        }
                    }
                    assert forall|p: Seq<char>| #[trigger] names_hold(r@, p) <==> exists|i: int|
                        0 <= i < k + 1 && es[i].0 == p by {
                        if names_hold(r@, p) {
                            let i = choose|i: int| 0 <= i < r@.len() && r@[i]@ == p;
                            if i < pos {
                                assert(old_r[i] == r@[i]);
                                assert(names_hold(old_r, p));
                            } else if i > pos {
                                assert(old_r[i - 1] == r@[i]);
                                assert(names_hold(old_r, p));
                            } else {
                                assert(es[k as int].0 == p);
                            }
                        }
                        if exists|i: int| 0 <= i < k + 1 && es[i].0 == p {
                            let i = choose|i: int| 0 <= i < k + 1 && es[i].0 == p;
                            if i < k {
                                assert(names_hold(old_r, p));
                                let j = choose|j: int| 0 <= j < old_r.len() && old_r[j]@ == p;
                                if j < pos {
                                    assert(r@[j] == old_r[j]);
                                } else {
                                    assert(r@[j + 1] == old_r[j]);
                                }
                            } else {
                                assert(r@[pos as int]@ == p);
                            }
                        }
                    }
                }
            } else {
                proof {
                    assert forall|p: Seq<char>| #[trigger] names_hold(r@, p) <==> exists|i: int|
                        0 <= i < k + 1 && es[i].0 == p by {
                        if exists|i: int| 0 <= i < k + 1 && es[i].0 == p {
                            let i = choose|i: int| 0 <= i < k + 1 && es[i].0 == p;
                            if i == k {
                                assert(r@[pos as int]@ == p);
                            }
                        }
                    }
                }
            }
            k = k + 1;
        }
        proof {
            assert forall|p: Seq<char>| #[trigger] names_hold(r@, p) <==> self.key_for(p) is Some by {
                lemma_key_in(es, p);
                if exists|i: int| 0 <= i < es.len() && es[i].0 == p {
                    let i = choose|i: int| 0 <= i < es.len() && es[i].0 == p;
                    assert(is_key(es[i].1));
                }
            }
        }
        r
    }
}

/// Each shipped provider's name and the environment variable it reads its
/// key from, in roster order: what a caller reads to build [`Credentials`].
pub fn key_variables() -> (r: Result<Vec<(String, Option<String>)>, Error>)
    ensures
        match load_text(SPECS_YAML@) {
            Err(e) => r matches Err(Error::Internal(m)) && m@ == "specs.yaml: "@ + e,
            Ok(reg) => r matches Ok(v) && v@.len() == reg.providers.len() && forall|i: int|
                0 <= i < v@.len() ==> #[trigger] v@[i].0@ == reg.providers[i].name && opt_view(
                    v@[i].1,
                ) == reg.providers[i].env_api_key,
        },
{
    match load(SPECS_YAML) {
        Err(e) => Err(Error::Internal(join2("specs.yaml: ", e.as_str()))),
        Ok(registry) => {
            let mut v: Vec<(String, Option<String>)> = Vec::new();
            let mut i: usize = 0;
            while i < registry.providers.len()
                invariant
                    i <= registry.providers.len(),
                    registry@.providers.len() == registry.providers.len(),
                    v@.len() == i,
                    forall|j: int|
                        0 <= j < i ==> #[trigger] v@[j].0@ == registry@.providers[j].name && opt_view(
                            v@[j].1,
                        ) == registry@.providers[j].env_api_key,
                decreases registry.providers.len() - i,
            {
                let p = &registry.providers[i];
                assert(registry@.providers[i as int] == p@);
                v.push((p.name.clone(), copy_opt(&p.env_api_key)));
                i = i + 1;
            }
            Ok(v)
        },
    }
}

} // verus!

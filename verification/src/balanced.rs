//! A client that load-balances across several provider/model pairs: each
//! request goes to the next candidate smooth weighted round-robin picks, and
//! the inner client's ordinary checks run on it from there.

use vstd::prelude::*;

use crate::balancer::{next, pick, sum, weights_of, zeros, Balancer, Candidate};
use crate::client::Client;
use crate::error::Error;
use crate::registry::fetch_model;
use crate::registry::load::load_text;
use crate::registry::specs::SPECS_YAML;
use crate::registry::types::RegistryView;
use crate::text::owned;

verus! {

/// The first candidate, from `i`, the roster does not register.
pub open spec fn first_unresolved(reg: RegistryView, cs: Seq<(&str, u32)>, i: int) -> Option<int>
    decreases cs.len() - i,
{
    if i < 0 || i >= cs.len() {
        None
    } else if reg.resolve(cs[i].0@) is None {
        Some(i)
    } else {
        first_unresolved(reg, cs, i + 1)
    }
}

/// The weights of `(model_str, weight)` pairs.
pub open spec fn pair_weights(cs: Seq<(&str, u32)>) -> Seq<int> {
    cs.map_values(|c: (&str, u32)| c.1 as int)
}

/// Balances requests over a fixed set of `(model_str, weight)` candidates.
pub struct BalancedClient<'a> {
    client: &'a Client,
    balancer: Balancer,
}

impl<'a> BalancedClient<'a> {
    /// The candidates, in the order given.
    pub closed spec fn candidates(&self) -> Seq<Candidate> {
        self.balancer.candidate_list()
    }

    /// Each candidate's current weight.
    pub closed spec fn current(&self) -> Seq<int> {
        self.balancer.current()
    }

    pub closed spec fn wf(&self) -> bool {
        self.balancer.wf()
    }

    /// The client every request is handed to.
    pub closed spec fn inner(&self) -> Client {
        *self.client
    }

    /// A balanced client over `candidates`: non-empty `(model_str, weight)`
    /// pairs, each `model_str` registered. The first candidate the roster
    /// does not register is the error.
    pub fn new(client: &'a Client, candidates: &[(&str, u32)]) -> (r: Result<BalancedClient<'a>, Error>)
        requires
            sum(pair_weights(candidates@)) <= i32::MAX,
        ensures
            candidates@.len() == 0 ==> (r matches Err(Error::InvalidInput(m)) && m@
                == "balanced client requires at least one candidate"@),
            candidates@.len() > 0 ==> match load_text(SPECS_YAML@) {
                Err(e) => r matches Err(Error::Internal(m)) && m@ == "specs.yaml: "@ + e,
                Ok(reg) => match first_unresolved(reg, candidates@, 0) {
                    Some(i) => r matches Err(Error::InvalidModel { given }) && given@
                        == candidates@[i].0@,
                    None => r matches Ok(b) && b.wf() && b.inner() == *client && b.current() == zeros(candidates@.len())
                        && b.candidates().len() == candidates@.len() && forall|i: int|
                        0 <= i < candidates@.len() ==> {
                            &&& (#[trigger] b.candidates()[i]).model_str@ == candidates@[i].0@
                            &&& b.candidates()[i].weight == candidates@[i].1
                            &&& reg.resolve(candidates@[i].0@) == Some(
                                (b.candidates()[i].provider@, b.candidates()[i].model@),
                            )
                        },
                },
            },
    {
        if candidates.len() == 0 {
            return Err(Error::InvalidInput(owned("balanced client requires at least one candidate")));
        }
        let mut resolved: Vec<Candidate> = Vec::new();
        let mut i: usize = 0;
        while i < candidates.len()
            invariant
                i <= candidates.len(),
                resolved@.len() == i,
                weights_of(resolved@) == pair_weights(candidates@).take(i as int),
                i > 0 ==> load_text(SPECS_YAML@) is Ok,
                load_text(SPECS_YAML@) matches Ok(reg) ==> {
                    &&& first_unresolved(reg, candidates@, 0) == first_unresolved(
                        reg,
                        candidates@,
                        i as int,
                    )
                    &&& forall|j: int|
                        0 <= j < i ==> {
                            &&& (#[trigger] resolved@[j]).model_str@ == candidates@[j].0@
                            &&& resolved@[j].weight == candidates@[j].1
                            &&& reg.resolve(candidates@[j].0@) == Some(
                                (resolved@[j].provider@, resolved@[j].model@),
                            )
                        }
                },
            decreases candidates.len() - i,
        {
            let (model_str, weight) = candidates[i];
            let (provider, model) = match fetch_model(model_str) {
                Ok(pair) => pair,
                Err(e) => {
                    return Err(e);
                },
            };
            let ghost before = resolved@;
            resolved.push(Candidate { model_str: owned(model_str), provider, model, weight });
            proof {
                assert(weights_of(resolved@) =~= weights_of(before).push(weight as int));
                assert(pair_weights(candidates@).take(i as int + 1) =~= pair_weights(candidates@).take(
                    i as int,
                ).push(weight as int));
                assert forall|j: int| 0 <= j < i + 1 implies #[trigger] resolved@[j] == if j < i {
                    before[j]
                } else {
                    resolved@[i as int]
                } by {}
            }
            i = i + 1;
        }
        assert(pair_weights(candidates@).take(i as int) =~= pair_weights(candidates@));
        Ok(BalancedClient { client, balancer: Balancer::new(resolved) })
    }

    /// The client every request is handed to.
    pub fn client(&self) -> (r: &'a Client)
        ensures
            *r == self.inner(),
    {
        self.client
    }

    /// Picks the next candidate and answers the `model_str` the request is
    /// rewritten to: the caller's model names the group, each candidate a
    /// concrete provider/model within it.
    pub fn next_model(&mut self) -> (r: String)
        requires
            old(self).wf(),
        ensures
            final(self).wf(),
            final(self).candidates() == old(self).candidates(),
            final(self).current() == next(weights_of(old(self).candidates()), old(self).current()),
            r@ == old(self).candidates()[pick(weights_of(old(self).candidates()), old(self).current())].model_str@,
    {
        self.balancer.select().model_str.clone()
    }
}

} // verus!

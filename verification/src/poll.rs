//! Bounded polling: the execution model has no primitive for one unit of
//! work to block on another, so a caller resolves a request through a chain
//! of short scheduled steps, each re-examining the queue, with a hard cap
//! on the number of steps.

use vstd::prelude::*;
use crate::data::{create_transition, find_request, OracleData};
use crate::model::{lemma_key_index_bounds, lemma_key_index_unique, req_index, req_key};
use crate::{Contract, ContractError, MAX_ITERATIONS};

verus! {

/// Where one polling chain stands: still pending with an iteration count,
/// resolved to the fulfilled value, or out of retry budget.
#[derive(Debug, Clone, PartialEq)]
pub enum PollState {
    Pending(u32),
    Resolved(String),
    Exhausted,
}

/// One polling transition: read the request (fatal if the id never
/// existed); if executed, resolve to its value; past the iteration cap,
/// give up; otherwise schedule one more step.
pub open spec fn spec_poll_step(q: Seq<OracleData>, id: Seq<char>, iteration: u32) -> Result<
    PollState,
    ContractError,
> {
    let i = req_index(q, id);
    if i < 0 {
        Err(ContractError::NotFound)
    } else if q[i].executed {
        Ok(PollState::Resolved(q[i].return_value->0))
    } else if iteration > MAX_ITERATIONS {
        Ok(PollState::Exhausted)
    } else {
        Ok(PollState::Pending((iteration + 1) as u32))
    }
}

/// What resolving `id` against `c` must yield: the fulfilled value once
/// executed, nothing when the chain can only exhaust, an error for an id
/// the queue never held.
pub open spec fn poll_outcome_ok(c: Contract, id: Seq<char>, res: Result<
    Option<String>,
    ContractError,
>) -> bool {
    let i = req_index(c.queued_data@, id);
    match res {
        Ok(v) => i >= 0 && (if c.queued_data@[i].executed {
            v is Some && v->0 == c.queued_data@[i].return_value->0
        } else {
            v is None
        }),
        Err(e) => i < 0 && e == ContractError::NotFound,
    }
}

/// The fixed resource the demonstration round asks for.
pub open spec fn demo_url() -> Seq<char> {
    "https://api.coingecko.com/api/v3/simple/price?ids=near&vs_currencies=usd"@
}

/// The demonstration round's empty payload.
pub open spec fn demo_payload() -> Seq<char> {
    "{}"@
}

impl Contract {
    /// One step of the polling chain; the host schedules the next step
    /// when this returns `Pending`.
    pub fn loop_await_return(&self, id: String, iteration: u32) -> (res: Result<
        PollState,
        ContractError,
    >)
        requires
            self.wf(),
        ensures
            res == spec_poll_step(self.queued_data@, id@, iteration),
    {
        match find_request(&self.queued_data, &id) {
            None => Err(ContractError::NotFound),
            Some(i) => {
                if self.queued_data[i].executed {
                    match &self.queued_data[i].return_value {
                        Some(v) => Ok(PollState::Resolved(v.clone())),
                        None => {
                            proof {
                                assert(self.queued_data@[i as int].executed
                                    <==> self.queued_data@[i as int].return_value is Some);
                                assert(false);
                            }
                            Err(ContractError::NotFound)
                        },
                    }
                } else if iteration > MAX_ITERATIONS {
                    Ok(PollState::Exhausted)
                } else {
                    Ok(PollState::Pending(iteration + 1))
                }
            },
        }
    }

    /// Run a whole polling chain from iteration 0 until it resolves or
    /// exhausts its budget.
    pub fn poll(&self, id: &String) -> (res: Result<Option<String>, ContractError>)
        requires
            self.wf(),
        ensures
            poll_outcome_ok(*self, id@, res),
    {
        let mut iteration: u32 = 0;
        loop
            invariant
                self.wf(),
                iteration <= MAX_ITERATIONS + 1,
            decreases MAX_ITERATIONS + 2 - iteration,
        {
            match self.loop_await_return(id.clone(), iteration) {
                Err(e) => {
                    return Err(e);
                },
                Ok(PollState::Resolved(v)) => {
                    return Ok(Some(v));
                },
                Ok(PollState::Exhausted) => {
                    return Ok(None);
                },
                Ok(PollState::Pending(n)) => {
                    iteration = n;
                },
            }
        }
    }

    /// The convenience entry: one check, then either the value right away
    /// or a fresh polling chain from iteration 0.
    pub fn loop_await_entry(&self, id: String) -> (res: Result<Option<String>, ContractError>)
        requires
            self.wf(),
        ensures
            poll_outcome_ok(*self, id@, res),
    {
        match find_request(&self.queued_data, &id) {
            None => Err(ContractError::NotFound),
            Some(i) => {
                if self.queued_data[i].executed {
                    match &self.queued_data[i].return_value {
                        Some(v) => Ok(Some(v.clone())),
                        None => {
                            proof {
                                assert(self.queued_data@[i as int].executed
                                    <==> self.queued_data@[i as int].return_value is Some);
                                assert(false);
                            }
                            Err(ContractError::NotFound)
                        },
                    }
                } else {
                    self.poll(&id)
                }
            },
        }
    }

    /// Create a request (fee-gated) and immediately begin the polling
    /// chain. With no fulfiller acting between the steps, the chain can
    /// only exhaust, so success yields no value.
    pub fn create_oracle_await(
        &mut self,
        url: String,
        data: String,
        creator: String,
        attached_deposit: u128,
        timestamp_ms: u64,
        seed: Vec<u8>,
    ) -> (res: Result<Option<String>, ContractError>)
        requires
            old(self).inv(),
        ensures
            final(self).inv(),
            match res {
                Ok(v) => attached_deposit >= old(self).fee_per_call && v is None && (exists|
                    req: OracleData,
                |
                    create_transition(
                        *old(self),
                        *final(self),
                        Ok::<OracleData, ContractError>(req),
                        url,
                        data,
                        creator,
                        timestamp_ms,
                        seed@,
                    )),
                Err(e) => *final(self) == *old(self) && (if attached_deposit < old(
                    self,
                ).fee_per_call {
                    e == ContractError::InsufficientFee
                } else {
                    create_transition(
                        *old(self),
                        *final(self),
                        Err::<OracleData, ContractError>(e),
                        url,
                        data,
                        creator,
                        timestamp_ms,
                        seed@,
                    )
                }),
            },
    {
        if attached_deposit < self.fee_per_call {
            return Err(ContractError::InsufficientFee);
        }
        match self.internal_create_oracle(url, data, creator, timestamp_ms, seed) {
            Err(e) => Err(e),
            Ok(req) => {
                proof {
                    let qpre = old(self).queued_data@;
                    let q2 = self.queued_data@;
                    lemma_key_index_bounds(qpre, req_key(), req.id@);
                    let ipre = req_index(qpre, req.id@);
                    if ipre >= 0 {
                        assert(q2 == qpre.update(ipre, req));
                        assert(q2[ipre] == req);
                        lemma_key_index_unique(q2, req_key(), req.id@, ipre);
                    } else {
                        assert(q2 == qpre.push(req));
                        assert(q2[qpre.len() as int] == req);
                        lemma_key_index_unique(q2, req_key(), req.id@, qpre.len() as int);
                    }
                    assert(req_index(q2, req.id@) >= 0);
                    assert(!q2[req_index(q2, req.id@)].executed);
                }
                match self.poll(&req.id) {
                    Ok(v) => Ok(v),
                    Err(_) => {
                        proof {
                            assert(false);
                        }
                        Ok(None)
                    },
                }
            },
        }
    }

    /// A demonstration round: create a request against a fixed price feed
    /// with an empty payload, then start the polling chain.
    pub fn demo_power(
        &mut self,
        creator: String,
        attached_deposit: u128,
        timestamp_ms: u64,
        seed: Vec<u8>,
    ) -> (res: Result<Option<String>, ContractError>)
        requires
            old(self).inv(),
        ensures
            final(self).inv(),
            match res {
                Ok(v) => attached_deposit >= old(self).fee_per_call && v is None && (exists|
                    u: String,
                    d: String,
                    req: OracleData,
                |
                    u@ == demo_url() && d@ == demo_payload() && create_transition(
                        *old(self),
                        *final(self),
                        Ok::<OracleData, ContractError>(req),
                        u,
                        d,
                        creator,
                        timestamp_ms,
                        seed@,
                    )),
                Err(e) => *final(self) == *old(self) && (attached_deposit < old(self).fee_per_call
                    ==> e == ContractError::InsufficientFee) && (attached_deposit >= old(
                    self,
                ).fee_per_call ==> exists|u: String, d: String|
                    u@ == demo_url() && d@ == demo_payload() && create_transition(
                        *old(self),
                        *final(self),
                        Err::<OracleData, ContractError>(e),
                        u,
                        d,
                        creator,
                        timestamp_ms,
                        seed@,
                    )),
            },
    {
        let url_s: String =
            "https://api.coingecko.com/api/v3/simple/price?ids=near&vs_currencies=usd".to_owned();
        let data_s: String = "{}".to_owned();
        let ghost ug = url_s;
        let ghost dg = data_s;
        let ghost cg = creator;
        let ghost sg = seed@;
        let res = self.create_oracle_await(
            url_s,
            data_s,
            creator,
            attached_deposit,
            timestamp_ms,
            seed,
        );
        proof {
            assert(ug@ == demo_url());
            assert(dg@ == demo_payload());
            match res {
                Ok(ref v) => {
                    let req = choose|req: OracleData|
                        create_transition(
                            *old(self),
                            *self,
                            Ok::<OracleData, ContractError>(req),
                            ug,
                            dg,
                            cg,
                            timestamp_ms,
                            sg,
                        );
                    assert(create_transition(
                        *old(self),
                        *self,
                        Ok::<OracleData, ContractError>(req),
                        ug,
                        dg,
                        cg,
                        timestamp_ms,
                        sg,
                    ));
                },
                Err(_) => {},
            }
        }
        res
    }

    /// Whether the chained call delivered a value; the host logs the value
    /// when it did.
    pub fn demo_callback(&mut self, call_result: Option<String>) -> (res: bool)
        ensures
            res == (call_result is Some),
            *final(self) == *old(self),
    {
        match call_result {
            Some(_) => true,
            None => false,
        }
    }
}

} // verus!

//! The failover router: the adapters of several providers behind one, tried
//! in order as long as the errors allow it.
//!
//! The router decides; the caller calls. For each request the caller asks
//! which adapter to try, calls it, and hands the result back, until the
//! router says what to return.

use crate::model::{AdapterInfo, AdapterInfoView, ForgeError, ForgeErrorView};
use crate::text::owned;
use vstd::prelude::*;

verus! {

/// How many adapters a router may try for one request.
#[derive(Debug, Clone, Copy, PartialEq, Eq)]
pub struct FailoverPolicy {
    pub max_adapters_to_try: usize,
}

impl Default for FailoverPolicy {
    fn default() -> (r: Self)
        ensures
            r.max_adapters_to_try == usize::MAX,
    {
        FailoverPolicy { max_adapters_to_try: usize::MAX }
    }
}

/// Whether an error lets the router go on to the next adapter: rate limits,
/// transport errors and provider errors do; validation, authentication and
/// internal errors end the request.
pub open spec fn retryable(error: ForgeErrorView) -> bool {
    error is RateLimited || error is Transport || error is Provider
}

/// The state of a request on its way through the adapters: how many may be
/// tried, how many were, and the last error that let the router go on.
pub struct FailoverState {
    pub candidates: usize,
    pub tried: usize,
    pub last_error: Option<ForgeErrorView>,
}

/// What the router says of a result.
pub enum VerdictView<R> {
    Return(Result<R, ForgeErrorView>),
    TryNext,
}

/// The error of a request for which no adapter is left: the last error that
/// let the router go on, or an internal error where there was none.
pub open spec fn exhausted(s: FailoverState) -> ForgeErrorView {
    match s.last_error {
        Some(e) => e,
        None => ForgeErrorView::Internal("failover router exhausted adapters without error"@),
    }
}

/// The index of the adapter to try next, if one is left.
pub open spec fn next_index(s: FailoverState) -> Option<usize> {
    if s.tried < s.candidates {
        Some(s.tried)
    } else {
        None
    }
}

/// The state after a result that lets the router go on.
pub open spec fn moved_on(s: FailoverState, e: ForgeErrorView) -> FailoverState {
    FailoverState { tried: (s.tried + 1) as usize, last_error: Some(e), ..s }
}

/// What the router says of the result of the adapter it tried.
pub open spec fn verdict<R>(outcome: Result<R, ForgeErrorView>) -> VerdictView<R> {
    match outcome {
        Ok(r) => VerdictView::Return(Ok(r)),
        Err(e) => if retryable(e) {
            VerdictView::TryNext
        } else {
            VerdictView::Return(Err(e))
        },
    }
}

/// The answer to a request and the number of adapters that were called for
/// it.
pub struct Routed<R> {
    pub answer: Result<R, ForgeErrorView>,
    pub calls: nat,
}

/// The whole way of a request from the state `s`, where `outcomes` holds
/// what the adapters answer, beginning with the one to try next.
pub open spec fn route<R>(s: FailoverState, outcomes: Seq<Result<R, ForgeErrorView>>) -> Routed<R>
    decreases outcomes.len(),
{
    if next_index(s) is None || outcomes.len() == 0 {
        Routed { answer: Err(exhausted(s)), calls: 0 }
    } else {
        match verdict(outcomes[0]) {
            VerdictView::Return(answer) => Routed { answer, calls: 1 },
            VerdictView::TryNext => {
                let rest = route(moved_on(s, outcomes[0]->Err_0), outcomes.drop_first());
                Routed { answer: rest.answer, calls: rest.calls + 1 }
            },
        }
    }
}

/// The state before any adapter was tried.
pub open spec fn fresh(candidates: usize) -> FailoverState {
    FailoverState { candidates, tried: 0, last_error: None }
}

/// The number of adapters that a router with `count` adapters tries at
/// most.
pub open spec fn candidates(count: nat, policy: FailoverPolicy) -> nat {
    if count <= policy.max_adapters_to_try {
        count
    } else {
        policy.max_adapters_to_try as nat
    }
}

/// The description of a router over adapters of which `first` is the first.
pub open spec fn router_info(first: AdapterInfoView) -> AdapterInfoView {
    AdapterInfoView { name: "failover-router"@, ..first }
}

/// After `k` errors that let the router go on, a success is returned, and
/// no adapter after it is called.
pub proof fn lemma_route_success<R>(
    s: FailoverState,
    outcomes: Seq<Result<R, ForgeErrorView>>,
    k: int,
)
    requires
        0 <= k < outcomes.len(),
        s.tried + k < s.candidates,
        forall|i: int| 0 <= i < k ==> (#[trigger] outcomes[i]) is Err && retryable(outcomes[i]->Err_0),
        outcomes[k] is Ok,
    ensures
        route(s, outcomes).answer == outcomes[k],
        route(s, outcomes).calls == k + 1,
    decreases k,
{
    if k > 0 {
        assert(outcomes[0] is Err && retryable(outcomes[0]->Err_0));
        let rest = outcomes.drop_first();
        assert forall|i: int| 0 <= i < k - 1 implies (#[trigger] rest[i]) is Err && retryable(
            rest[i]->Err_0,
        ) by {
            assert(rest[i] == outcomes[i + 1]);
        }
        lemma_route_success(moved_on(s, outcomes[0]->Err_0), rest, k - 1);
    }
}

/// After `k` errors that let the router go on, an error that does not is
/// returned, and no adapter after it is called.
pub proof fn lemma_route_terminal<R>(
    s: FailoverState,
    outcomes: Seq<Result<R, ForgeErrorView>>,
    k: int,
)
    requires
        0 <= k < outcomes.len(),
        s.tried + k < s.candidates,
        forall|i: int| 0 <= i < k ==> (#[trigger] outcomes[i]) is Err && retryable(outcomes[i]->Err_0),
        outcomes[k] is Err,
        !retryable(outcomes[k]->Err_0),
    ensures
        route(s, outcomes).answer == outcomes[k],
        route(s, outcomes).calls == k + 1,
    decreases k,
{
    if k > 0 {
        assert(outcomes[0] is Err && retryable(outcomes[0]->Err_0));
        let rest = outcomes.drop_first();
        assert forall|i: int| 0 <= i < k - 1 implies (#[trigger] rest[i]) is Err && retryable(
            rest[i]->Err_0,
        ) by {
            assert(rest[i] == outcomes[i + 1]);
        }
        lemma_route_terminal(moved_on(s, outcomes[0]->Err_0), rest, k - 1);
    }
}

/// Where every adapter that may be tried answers with an error that lets
/// the router go on, the last of these errors is returned, and each adapter
/// that may be tried is called once.
pub proof fn lemma_route_exhausted<R>(s: FailoverState, outcomes: Seq<Result<R, ForgeErrorView>>)
    requires
        s.tried <= s.candidates,
        outcomes.len() >= s.candidates - s.tried,
        forall|i: int|
            0 <= i < s.candidates - s.tried ==> (#[trigger] outcomes[i]) is Err && retryable(
                outcomes[i]->Err_0,
            ),
    ensures
        route(s, outcomes).calls == s.candidates - s.tried,
        route(s, outcomes).answer == Err::<R, ForgeErrorView>(
            if s.candidates - s.tried > 0 {
                outcomes[s.candidates - s.tried - 1]->Err_0
            } else {
                exhausted(s)
            },
        ),
    decreases s.candidates - s.tried,
{
    if s.tried < s.candidates {
        assert(outcomes[0] is Err && retryable(outcomes[0]->Err_0));
        let rest = outcomes.drop_first();
        let next = moved_on(s, outcomes[0]->Err_0);
        assert forall|i: int| 0 <= i < next.candidates - next.tried implies (
        #[trigger] rest[i]) is Err && retryable(rest[i]->Err_0) by {
            assert(rest[i] == outcomes[i + 1]);
        }
        lemma_route_exhausted(next, rest);
        if next.candidates - next.tried > 0 {
            assert(rest[next.candidates - next.tried - 1] == outcomes[s.candidates - s.tried - 1]);
        }
    }
}

/// The view of the result of an adapter.
pub open spec fn outcome_view<R>(result: Result<R, ForgeError>) -> Result<R, ForgeErrorView> {
    match result {
        Ok(r) => Ok(r),
        Err(e) => Err(e@),
    }
}

/// The views of the results of several adapters.
pub open spec fn outcome_views<R>(results: Seq<Result<R, ForgeError>>) -> Seq<
    Result<R, ForgeErrorView>,
> {
    Seq::new(results.len(), |i: int| outcome_view(results[i]))
}

/// Whether an error lets the router go on to the next adapter.
pub fn should_failover(error: &ForgeError) -> (r: bool)
    ensures
        r == retryable(error@),
{
    match error {
        ForgeError::RateLimited => true,
        ForgeError::Transport(_) => true,
        ForgeError::Provider(_) => true,
        _ => false,
    }
}

/// The first of the adapters, if there is one.
pub fn pick_first_healthy(adapters: &[AdapterInfo]) -> (r: Option<&AdapterInfo>)
    ensures
        match r {
            Some(info) => adapters@.len() > 0 && *info == adapters@[0],
            None => adapters@.len() == 0,
        },
{
    if adapters.len() > 0 {
        Some(&adapters[0])
    } else {
        None
    }
}

/// A request on its way through the adapters of a router.
pub struct Failover {
    candidates: usize,
    tried: usize,
    last_error: Option<ForgeError>,
}

/// What the router says of the result of an adapter.
pub enum Verdict<R> {
    /// The request is answered.
    Return(Result<R, ForgeError>),
    /// The next adapter is to be tried.
    TryNext,
}

impl<R> View for Verdict<R> {
    type V = VerdictView<R>;

    open spec fn view(&self) -> VerdictView<R> {
        match self {
            Verdict::Return(result) => VerdictView::Return(outcome_view(*result)),
            Verdict::TryNext => VerdictView::TryNext,
        }
    }
}

impl View for Failover {
    type V = FailoverState;

    closed spec fn view(&self) -> FailoverState {
        FailoverState {
            candidates: self.candidates,
            tried: self.tried,
            last_error: match self.last_error {
                Some(e) => Some(e@),
                None => None,
            },
        }
    }
}

impl Failover {
    /// The index of the adapter to try next, if one is left.
    pub fn next(&self) -> (r: Option<usize>)
        ensures
            r == next_index(self@),
    {
        if self.tried < self.candidates {
            Some(self.tried)
        } else {
            None
        }
    }

    /// Takes the result of the adapter that `next` named: a success and an
    /// error that ends the request are to be returned; any other error is
    /// kept, and the next adapter is to be tried.
    pub fn observe<R>(&mut self, result: Result<R, ForgeError>) -> (v: Verdict<R>)
        requires
            next_index(old(self)@) is Some,
        ensures
            v@ == verdict(outcome_view(result)),
            v is TryNext ==> result is Err && final(self)@ == moved_on(
                old(self)@,
                result->Err_0@,
            ),
            v is Return ==> final(self)@ == old(self)@,
    {
        match result {
            Ok(r) => Verdict::Return(Ok(r)),
            Err(e) => {
                if should_failover(&e) {
                    self.last_error = Some(e);
                    self.tried = self.tried + 1;
                    Verdict::TryNext
                } else {
                    Verdict::Return(Err(e))
                }
            },
        }
    }

    /// The error of a request for which no adapter is left.
    pub fn give_up(self) -> (e: ForgeError)
        ensures
            e@ == exhausted(self@),
    {
        match self.last_error {
            Some(e) => e,
            None => ForgeError::Internal(owned("failover router exhausted adapters without error")),
        }
    }
}

/// A router over the adapters of several providers.
pub struct FailoverRouter<A> {
    adapters: Vec<A>,
    policy: FailoverPolicy,
}

impl<A> FailoverRouter<A> {
    /// The adapters of the router, in the order in which they are tried.
    pub closed spec fn adapters(&self) -> Seq<A> {
        self.adapters@
    }

    /// The policy of the router.
    pub closed spec fn policy(&self) -> FailoverPolicy {
        self.policy
    }

    /// A router that tries every adapter. There must be an adapter.
    pub fn new(adapters: Vec<A>) -> (r: Result<Self, ForgeError>)
        ensures
            match r {
                Ok(router) => adapters@.len() > 0 && router.adapters() == adapters@
                    && router.policy().max_adapters_to_try == usize::MAX,
                Err(e) => adapters@.len() == 0 && e@ == ForgeErrorView::Validation(
                    "failover router requires at least one adapter"@,
                ),
            },
    {
        Self::with_policy(adapters, FailoverPolicy::default())
    }

    /// A router with a policy. There must be an adapter.
    pub fn with_policy(adapters: Vec<A>, policy: FailoverPolicy) -> (r: Result<Self, ForgeError>)
        ensures
            match r {
                Ok(router) => adapters@.len() > 0 && router.adapters() == adapters@
                    && router.policy() == policy,
                Err(e) => adapters@.len() == 0 && e@ == ForgeErrorView::Validation(
                    "failover router requires at least one adapter"@,
                ),
            },
    {
        if adapters.len() == 0 {
            return Err(
                ForgeError::Validation(owned("failover router requires at least one adapter")),
            );
        }
        Ok(FailoverRouter { adapters, policy })
    }

    /// The number of adapters that are tried at most for one request.
    pub fn adapters_to_try(&self) -> (r: usize)
        ensures
            r == candidates(self.adapters().len(), self.policy()),
    {
        if self.adapters.len() <= self.policy.max_adapters_to_try {
            self.adapters.len()
        } else {
            self.policy.max_adapters_to_try
        }
    }

    /// The adapter at `index`, if there is one.
    pub fn adapter(&self, index: usize) -> (r: Option<&A>)
        ensures
            match r {
                Some(a) => index < self.adapters().len() && *a == self.adapters()[index as int],
                None => index >= self.adapters().len(),
            },
    {
        if index < self.adapters.len() {
            Some(&self.adapters[index])
        } else {
            None
        }
    }

    /// Begins a request: no adapter was tried yet.
    pub fn begin(&self) -> (r: Failover)
        ensures
            r@ == fresh(candidates(self.adapters().len(), self.policy()) as usize),
    {
        Failover { candidates: self.adapters_to_try(), tried: 0, last_error: None }
    }

    /// The way of one request through the router, where `outcomes` holds
    /// what each adapter answers, beginning with the first: the answer, and
    /// the number of adapters that were called.
    pub fn route_outcomes<R>(&self, outcomes: Vec<Result<R, ForgeError>>) -> (r: (
        Result<R, ForgeError>,
        usize,
    ))
        ensures
            ({
                let routed = route(
                    fresh(candidates(self.adapters().len(), self.policy()) as usize),
                    outcome_views(outcomes@),
                );
                outcome_view(r.0) == routed.answer && r.1 == routed.calls
            }),
    {
        let mut left = outcomes;
        let mut state = self.begin();
        let mut calls: usize = 0;
        let ghost all = outcome_views(outcomes@);
        let ghost start = state@;
        assert(all.skip(0) =~= all);
        loop
            invariant
                calls <= all.len(),
                all == outcome_views(outcomes@),
                start == fresh(candidates(self.adapters().len(), self.policy()) as usize),
                state@.tried == calls,
                state@.candidates == start.candidates,
                outcome_views(left@) == all.skip(calls as int),
                route(start, all).answer == route(state@, all.skip(calls as int)).answer,
                route(start, all).calls == route(state@, all.skip(calls as int)).calls + calls,
            decreases left.len(),
        {
            if state.next().is_none() || left.len() == 0 {
                return (Err(state.give_up()), calls);
            }
            let ghost rest = all.skip(calls as int);
            let outcome = left.remove(0);
            assert(outcome_view(outcome) == rest[0]);
            assert(outcome_views(left@) =~= rest.drop_first());
            assert(rest.drop_first() =~= all.skip(calls + 1));
            match state.observe(outcome) {
                Verdict::Return(answer) => {
                    return (answer, calls + 1);
                },
                Verdict::TryNext => {
                    calls = calls + 1;
                },
            }
        }
    }

    /// The description of the router, given that of its first adapter: its
    /// own name, and the base URL and the capabilities of the first
    /// adapter.
    pub fn info(&self, first: AdapterInfo) -> (r: AdapterInfo)
        ensures
            r@ == router_info(first@),
    {
        AdapterInfo {
            name: owned("failover-router"),
            base_url: first.base_url,
            capabilities: first.capabilities,
        }
    }
}

} // verus!

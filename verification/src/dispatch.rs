//! The dispatcher: which request is issued when, to which endpoint, and what becomes of a
//! request once its attempt has completed. The dispatcher decides; its caller sleeps, runs
//! the attempts and hands every completion back.

use crate::contracts::ContractSet;
use crate::jsonrpc::{
    attempt_outcome, is_contract_code, ContainerView, FailureView, IsContractErr, IsContractResponse,
    TransportError,
};
use crate::settings::{Endpoint, JsonRpc, JsonRpcView};
use crate::timers::{reserved, DelayAccumulator};
use vstd::prelude::*;
use vstd::seq_lib::to_multiset_contains;

verus! {

/// The attempt ceiling: a request that has failed more often than this is abandoned.
pub const ATTEMPT_CEILING: u8 = 5;

/// An order to issue a request: wait `wait_ms` milliseconds, then run one attempt for
/// `container` against `url`.
#[derive(Debug, Clone, PartialEq, Eq)]
pub struct Launch {
    pub container: IsContractResponse,
    pub url: String,
    pub wait_ms: usize,
}

/// How a task that was started for a request has ended.
#[derive(Debug, Clone, PartialEq, Eq)]
pub enum Completion {
    /// The endpoint answered, and the address is classified.
    Answered(IsContractResponse),
    /// The transport failed.
    Failed(IsContractErr),
    /// The task did not run to its end, so there is neither an answer nor the request.
    Lost,
}

/// What the dispatcher made of a completion, and what is left for its caller to do.
#[derive(Debug, Clone, PartialEq, Eq)]
pub enum Action {
    /// The address is a contract and is now in the contract set.
    Recorded,
    /// The address is no contract; nothing is kept of it.
    Discarded,
    /// The attempt failed with `error`, and the request is to be issued again.
    Retry { launch: Launch, error: TransportError },
    /// The request has failed too often and is given up for good: report it.
    Abandon(IsContractErr),
    /// The task was lost; its request is not issued again: report it.
    Drop,
}

/// What the contracts say of a `Launch`.
pub struct LaunchView {
    pub container: ContainerView,
    pub url: Seq<char>,
    pub wait_ms: int,
}

/// What the contracts say of a `Completion`.
pub enum CompletionView {
    Answered(ContainerView),
    Failed(FailureView),
    Lost,
}

/// What the contracts say of an `Action`.
pub enum ActionView {
    Recorded,
    Discarded,
    Retry { launch: LaunchView, error: Seq<char> },
    Abandon(FailureView),
    Drop,
}

/// What the contracts say of a `Dispatcher`.
pub struct DispatcherView {
    pub endpoints: JsonRpcView,
    pub contracts: Map<Seq<char>, bool>,
}

/// A dispatcher and the backlog of the delay accumulator after a step, with the action
/// that the step asks for.
pub struct Step {
    pub dispatcher: DispatcherView,
    pub backlog: int,
    pub action: ActionView,
}

impl View for Launch {
    type V = LaunchView;

    open spec fn view(&self) -> LaunchView {
        LaunchView { container: self.container@, url: self.url@, wait_ms: self.wait_ms as int }
    }
}

impl View for Completion {
    type V = CompletionView;

    open spec fn view(&self) -> CompletionView {
        match self {
            Completion::Answered(container) => CompletionView::Answered(container@),
            Completion::Failed(failure) => CompletionView::Failed(failure@),
            Completion::Lost => CompletionView::Lost,
        }
    }
}

impl View for Action {
    type V = ActionView;

    open spec fn view(&self) -> ActionView {
        match self {
            Action::Recorded => ActionView::Recorded,
            Action::Discarded => ActionView::Discarded,
            Action::Retry { launch, error } => ActionView::Retry { launch: launch@, error: error@ },
            Action::Abandon(failure) => ActionView::Abandon(failure@),
            Action::Drop => ActionView::Drop,
        }
    }
}

/// The endpoint for a request of which `count` attempts have failed: the primary one when
/// `count` is even, the secondary one when it is odd. It depends on the count alone, not
/// on which endpoint failed last.
pub open spec fn endpoint_for(count: nat) -> Endpoint {
    if count % 2 == 0 {
        Endpoint::Primary
    } else {
        Endpoint::Secondary
    }
}

/// Whether a request of which `count` attempts have failed is given up.
pub open spec fn is_exhausted(count: nat) -> bool {
    count > ATTEMPT_CEILING
}

/// The order to issue `container` to `endpoint` when the backlog is `backlog`: the request
/// waits for the backlog that it finds.
pub open spec fn launch_order(
    endpoints: JsonRpcView,
    backlog: int,
    container: ContainerView,
    endpoint: Endpoint,
) -> LaunchView {
    LaunchView { container, url: endpoints.url(endpoint), wait_ms: backlog }
}

/// The backlog once a request for `endpoint` has reserved its slot.
pub open spec fn backlog_after_launch(endpoints: JsonRpcView, backlog: int, endpoint: Endpoint) -> int {
    reserved(backlog, endpoints.latency(endpoint) as int)
}

/// What the dispatcher does when a task has completed.
///
/// - A lost task is reported and its request is dropped.
/// - An answer puts the address into the contract set if it is a contract, and is
///   otherwise discarded.
/// - A failure is final once the request's count is over the ceiling. Up to the ceiling
///   the request is issued again, unchanged, to the endpoint that its count selects, after
///   reserving a slot with that endpoint's latency budget.
pub open spec fn step(dispatcher: DispatcherView, backlog: int, completion: CompletionView) -> Step {
    match completion {
        CompletionView::Lost => Step { dispatcher, backlog, action: ActionView::Drop },
        CompletionView::Answered(container) => if container.is_contract {
            Step {
                dispatcher: DispatcherView {
                    contracts: dispatcher.contracts.insert(container.address, false),
                    ..dispatcher
                },
                backlog,
                action: ActionView::Recorded,
            }
        } else {
            Step { dispatcher, backlog, action: ActionView::Discarded }
        },
        CompletionView::Failed(failure) => if is_exhausted(failure.container.count) {
            Step { dispatcher, backlog, action: ActionView::Abandon(failure) }
        } else {
            let endpoint = endpoint_for(failure.container.count);
            Step {
                dispatcher,
                backlog: backlog_after_launch(dispatcher.endpoints, backlog, endpoint),
                action: ActionView::Retry {
                    launch: launch_order(dispatcher.endpoints, backlog, failure.container, endpoint),
                    error: failure.error,
                },
            }
        },
    }
}

/// The state of a run: the endpoints, which never change, and the contracts found so far.
pub struct Dispatcher {
    jsonrpc: JsonRpc,
    contracts: ContractSet,
}

impl View for Dispatcher {
    type V = DispatcherView;

    closed spec fn view(&self) -> DispatcherView {
        DispatcherView { endpoints: self.jsonrpc@, contracts: self.contracts@ }
    }
}

impl Dispatcher {
    /// A dispatcher for the two endpoints of `jsonrpc` that has found no contract yet.
    pub fn new(jsonrpc: JsonRpc) -> (dispatcher: Dispatcher)
        ensures
            dispatcher@ == (DispatcherView { endpoints: jsonrpc@, contracts: Map::empty() }),
    {
        Dispatcher { jsonrpc, contracts: ContractSet::new() }
    }

    /// The endpoint for a request of which `count` attempts have failed.
    pub fn endpoint(count: u8) -> (endpoint: Endpoint)
        ensures
            endpoint == endpoint_for(count as nat),
    {
        if count % 2 == 0 {
            Endpoint::Primary
        } else {
            Endpoint::Secondary
        }
    }

    fn launch(
        &self,
        accumulator: &mut DelayAccumulator,
        container: IsContractResponse,
        endpoint: Endpoint,
    ) -> (launch: Launch)
        ensures
            launch@ == launch_order(self@.endpoints, old(accumulator)@, container@, endpoint),
            final(accumulator)@ == backlog_after_launch(
                self@.endpoints,
                old(accumulator)@,
                endpoint,
            ),
    {
        let url = self.jsonrpc.url(endpoint).clone();
        let wait_ms = accumulator.reserve(self.jsonrpc.latency(endpoint) as usize);
        Launch { container, url, wait_ms }
    }

    /// Starts the classification of `address`: a fresh request, for the primary endpoint,
    /// that waits for the backlog it finds and adds the endpoint's latency budget to it.
    pub fn dispatch(&self, accumulator: &mut DelayAccumulator, address: String) -> (launch: Launch)
        ensures
            launch@ == launch_order(
                self@.endpoints,
                old(accumulator)@,
                ContainerView::fresh(address@),
                Endpoint::Primary,
            ),
            final(accumulator)@ == backlog_after_launch(
                self@.endpoints,
                old(accumulator)@,
                Endpoint::Primary,
            ),
    {
        self.launch(accumulator, IsContractResponse::new(address), Endpoint::Primary)
    }

    /// Handles the completion of a task, as `step` says.
    pub fn complete(&mut self, accumulator: &mut DelayAccumulator, completion: Completion) -> (action:
        Action)
        ensures
            (Step { dispatcher: final(self)@, backlog: final(accumulator)@, action: action@ })
                == step(old(self)@, old(accumulator)@, completion@),
    {
        match completion {
            Completion::Lost => Action::Drop,
            Completion::Answered(container) => {
                if container.is_contract {
                    self.contracts.insert(container.address);
                    Action::Recorded
                } else {
                    Action::Discarded
                }
            },
            Completion::Failed(failure) => {
                if failure.container.count > ATTEMPT_CEILING {
                    Action::Abandon(failure)
                } else {
                    let endpoint = Dispatcher::endpoint(failure.container.count);
                    let launch = self.launch(accumulator, failure.container, endpoint);
                    Action::Retry { launch, error: failure.error }
                }
            },
        }
    }

    /// The contracts found so far.
    pub fn contracts(&self) -> (contracts: &ContractSet)
        ensures
            contracts@ == self@.contracts,
    {
        &self.contracts
    }

    /// Ends the run and hands out the contracts that it found.
    pub fn into_contracts(self) -> (contracts: ContractSet)
        ensures
            contracts@ == self@.contracts,
    {
        self.contracts
    }
}

/// The dispatcher and the backlog after `completions` have been handled one after the
/// other, starting from `dispatcher` and `backlog`.
pub open spec fn drained(
    dispatcher: DispatcherView,
    backlog: int,
    completions: Seq<CompletionView>,
) -> (DispatcherView, int)
    decreases completions.len(),
{
    if completions.len() == 0 {
        (dispatcher, backlog)
    } else {
        let before = drained(dispatcher, backlog, completions.drop_last());
        let last = step(before.0, before.1, completions.last());
        (last.dispatcher, last.backlog)
    }
}

/// Whether `completion` is an answer that says that `address` is a contract.
pub open spec fn reports_contract(completion: CompletionView, address: Seq<char>) -> bool {
    completion matches CompletionView::Answered(container) && container.is_contract
        && container.address == address
}

/// The addresses that some completion among `completions` reports as a contract.
pub open spec fn reported_contracts(completions: Seq<CompletionView>) -> Set<Seq<char>> {
    Set::new(
        |address: Seq<char>|
            exists|i: int|
                0 <= i < completions.len() && #[trigger] reports_contract(completions[i], address),
    )
}

/// The contract set that holds `contracts` and, with the flag `false`, every address of
/// `reported`.
pub open spec fn with_reported(contracts: Map<Seq<char>, bool>, reported: Set<Seq<char>>) -> Map<
    Seq<char>,
    bool,
> {
    Map::new(
        |address: Seq<char>| contracts.contains_key(address) || reported.contains(address),
        |address: Seq<char>|
            if reported.contains(address) {
                false
            } else {
                contracts[address]
            },
    )
}

/// Handling completions changes nothing of the dispatcher but its contract set, which
/// then holds what it held before and every address that a completion reported as a
/// contract, and nothing else.
pub proof fn lemma_drained_contracts(
    dispatcher: DispatcherView,
    backlog: int,
    completions: Seq<CompletionView>,
)
    ensures
        drained(dispatcher, backlog, completions).0 == (DispatcherView {
            contracts: with_reported(dispatcher.contracts, reported_contracts(completions)),
            ..dispatcher
        }),
    decreases completions.len(),
{
    let reported = reported_contracts(completions);
    if completions.len() == 0 {
        assert(with_reported(dispatcher.contracts, reported) =~= dispatcher.contracts);
    } else {
        let earlier = completions.drop_last();
        lemma_drained_contracts(dispatcher, backlog, earlier);
        let before = drained(dispatcher, backlog, earlier);
        assert forall|address: Seq<char>| reported.contains(address) <==> (reported_contracts(
            earlier,
        ).contains(address) || reports_contract(completions.last(), address)) by {
            if reported.contains(address) {
                let i = choose|i: int|
                    0 <= i < completions.len() && #[trigger] reports_contract(
                        completions[i],
                        address,
                    );
                if i < earlier.len() {
                    assert(reports_contract(earlier[i], address));
                }
            }
            if reported_contracts(earlier).contains(address) {
                let i = choose|i: int|
                    0 <= i < earlier.len() && #[trigger] reports_contract(earlier[i], address);
                assert(reports_contract(completions[i], address));
            }
            if reports_contract(completions.last(), address) {
                assert(reports_contract(completions[completions.len() - 1], address));
            }
        }
        assert(step(before.0, before.1, completions.last()).dispatcher.contracts =~= with_reported(
            dispatcher.contracts,
            reported,
        ));
    }
}

/// The contracts that a run finds do not depend on the order in which the tasks complete:
/// two sequences of the same completions leave the same contract set.
pub proof fn lemma_completion_order_is_irrelevant(
    dispatcher: DispatcherView,
    backlog: int,
    first: Seq<CompletionView>,
    second: Seq<CompletionView>,
)
    requires
        first.to_multiset() == second.to_multiset(),
    ensures
        drained(dispatcher, backlog, first).0 == drained(dispatcher, backlog, second).0,
{
    lemma_drained_contracts(dispatcher, backlog, first);
    lemma_drained_contracts(dispatcher, backlog, second);
    assert forall|address: Seq<char>| reported_contracts(first).contains(address)
        <==> reported_contracts(second).contains(address) by {
        if reported_contracts(first).contains(address) {
            let i = choose|i: int|
                0 <= i < first.len() && #[trigger] reports_contract(first[i], address);
            assert(first.contains(first[i]));
            to_multiset_contains(first, first[i]);
            to_multiset_contains(second, first[i]);
            assert(second.contains(first[i]));
            let j = choose|j: int| 0 <= j < second.len() && second[j] == first[i];
            assert(reports_contract(second[j], address));
        }
        if reported_contracts(second).contains(address) {
            let i = choose|i: int|
                0 <= i < second.len() && #[trigger] reports_contract(second[i], address);
            assert(second.contains(second[i]));
            to_multiset_contains(second, second[i]);
            to_multiset_contains(first, second[i]);
            assert(first.contains(second[i]));
            let j = choose|j: int| 0 <= j < first.len() && first[j] == second[i];
            assert(reports_contract(first[j], address));
        }
    }
    assert(reported_contracts(first) =~= reported_contracts(second));
}

/// The answers of a run in which the first attempt for each of `addresses` succeeds and
/// returns the code at the same place in `codes`, in the order of the addresses.
pub open spec fn first_attempt_answers(
    addresses: Seq<Seq<char>>,
    codes: Seq<Seq<char>>,
) -> Seq<CompletionView> {
    Seq::new(
        addresses.len(),
        |i: int|
            match attempt_outcome(ContainerView::fresh(addresses[i]), Ok(codes[i])) {
                Ok(container) => CompletionView::Answered(container),
                Err(failure) => CompletionView::Failed(failure),
            },
    )
}

/// When every address is answered at its first attempt, a dispatcher that starts with no
/// contract ends with exactly the addresses whose code is that of a contract, in whatever
/// order the answers arrive.
pub proof fn lemma_concurrent_run_finds_contracts(
    endpoints: JsonRpcView,
    backlog: int,
    addresses: Seq<Seq<char>>,
    codes: Seq<Seq<char>>,
    arrivals: Seq<CompletionView>,
)
    requires
        addresses.len() == codes.len(),
        arrivals.to_multiset() == first_attempt_answers(addresses, codes).to_multiset(),
    ensures
        drained(
            DispatcherView { endpoints, contracts: Map::empty() },
            backlog,
            arrivals,
        ).0.contracts.dom() == Set::new(
            |address: Seq<char>|
                exists|i: int|
                    0 <= i < addresses.len() && #[trigger] addresses[i] == address
                        && is_contract_code(codes[i]),
        ),
{
    let start = DispatcherView { endpoints, contracts: Map::empty() };
    let answers = first_attempt_answers(addresses, codes);
    lemma_completion_order_is_irrelevant(start, backlog, arrivals, answers);
    lemma_drained_contracts(start, backlog, answers);
    let found = Set::new(
        |address: Seq<char>|
            exists|i: int|
                0 <= i < addresses.len() && #[trigger] addresses[i] == address && is_contract_code(
                    codes[i],
                ),
    );
    assert forall|address: Seq<char>| reported_contracts(answers).contains(address)
        <==> found.contains(address) by {
        if reported_contracts(answers).contains(address) {
            let i = choose|i: int|
                0 <= i < answers.len() && #[trigger] reports_contract(answers[i], address);
            assert(addresses[i] == address && is_contract_code(codes[i]));
        }
        if found.contains(address) {
            let i = choose|i: int|
                0 <= i < addresses.len() && #[trigger] addresses[i] == address && is_contract_code(
                    codes[i],
                );
            assert(reports_contract(answers[i], address));
        }
    }
    assert(with_reported(start.contracts, reported_contracts(answers)).dom() =~= found);
}

/// What becomes of a request whose every attempt fails with `error`: the orders by which
/// it is issued again, one after the other, and the step that ends it.
pub struct FailingRun {
    pub retries: Seq<LaunchView>,
    pub end: Step,
}

/// The run of `container`, of which an attempt is under way, when that attempt and every
/// later one fails with `error`.
pub open spec fn failing_run(
    dispatcher: DispatcherView,
    backlog: int,
    container: ContainerView,
    error: Seq<char>,
) -> FailingRun
    decreases ATTEMPT_CEILING + 1 - container.count,
{
    let failure = FailureView { container: container.attempted(), error };
    let next = step(dispatcher, backlog, CompletionView::Failed(failure));
    match next.action {
        ActionView::Retry { launch, error: _ } => {
            let rest = failing_run(next.dispatcher, next.backlog, launch.container, error);
            FailingRun { retries: seq![launch] + rest.retries, end: rest.end }
        },
        _ => FailingRun { retries: Seq::empty(), end: next },
    }
}

/// A request whose attempts all fail is issued again until its count is over the ceiling
/// and is then abandoned. Each retry carries the request with a count that is one higher
/// than that of the attempt before, to the endpoint that this count selects; the contract
/// set is never touched.
pub proof fn lemma_failing_run(
    dispatcher: DispatcherView,
    backlog: int,
    container: ContainerView,
    error: Seq<char>,
)
    ensures
        ({
            let run = failing_run(dispatcher, backlog, container, error);
            let retries = if container.count < ATTEMPT_CEILING {
                ATTEMPT_CEILING - container.count
            } else {
                0
            };
            &&& run.retries.len() == retries
            &&& forall|k: int|
                0 <= k < retries ==> (#[trigger] run.retries[k]).container == (ContainerView {
                    count: (container.count + 1 + k) as nat,
                    ..container
                }) && run.retries[k].url == dispatcher.endpoints.url(
                    endpoint_for((container.count + 1 + k) as nat),
                )
            &&& run.end.dispatcher == dispatcher
            &&& run.end.action == ActionView::Abandon(
                FailureView {
                    container: ContainerView {
                        count: (container.count + 1 + retries) as nat,
                        ..container
                    },
                    error,
                },
            )
        }),
    decreases ATTEMPT_CEILING + 1 - container.count,
{
    let failure = FailureView { container: container.attempted(), error };
    let next = step(dispatcher, backlog, CompletionView::Failed(failure));
    if container.count < ATTEMPT_CEILING {
        lemma_failing_run(next.dispatcher, next.backlog, container.attempted(), error);
        let run = failing_run(dispatcher, backlog, container, error);
        let rest = failing_run(next.dispatcher, next.backlog, container.attempted(), error);
        assert(run.retries == seq![next.action->launch] + rest.retries);
        assert forall|k: int| 0 <= k < ATTEMPT_CEILING - container.count implies (
        #[trigger] run.retries[k]).container == (ContainerView {
            count: (container.count + 1 + k) as nat,
            ..container
        }) && run.retries[k].url == dispatcher.endpoints.url(
            endpoint_for((container.count + 1 + k) as nat),
        ) by {
            if k > 0 {
                assert(run.retries[k] == rest.retries[k - 1]);
            }
        }
    }
}

/// Attempt monotonicity: a failed attempt raises the count of its request by exactly one,
/// and whatever the dispatcher then does, retry or abandon, it hands the request on with
/// that count and for the same address.
pub proof fn lemma_failure_counts_once(
    dispatcher: DispatcherView,
    backlog: int,
    container: ContainerView,
    error: Seq<char>,
)
    ensures
        attempt_outcome(container, Err(error)) matches Err(failure) && failure.container
            == (ContainerView { count: container.count + 1, ..container }) && match step(
            dispatcher,
            backlog,
            CompletionView::Failed(failure),
        ).action {
            ActionView::Retry { launch, error: _ } => launch.container == failure.container,
            ActionView::Abandon(abandoned) => abandoned.container == failure.container,
            _ => false,
        },
{
}

/// Ceiling enforcement: a fresh request whose transport always fails is issued again
/// exactly five times and then abandoned, with six failed attempts counted. The step that
/// abandons it is the only one that does, and the contract set is as it was.
pub proof fn lemma_ceiling(
    dispatcher: DispatcherView,
    backlog: int,
    address: Seq<char>,
    error: Seq<char>,
)
    ensures
        ({
            let run = failing_run(dispatcher, backlog, ContainerView::fresh(address), error);
            &&& run.retries.len() == 5
            &&& forall|k: int|
                0 <= k < 5 ==> (#[trigger] run.retries[k]).container.count == k + 1
            &&& run.end.action == ActionView::Abandon(
                FailureView {
                    container: ContainerView { address, is_contract: false, count: 6 },
                    error,
                },
            )
            &&& run.end.dispatcher == dispatcher
        }),
{
    lemma_failing_run(dispatcher, backlog, ContainerView::fresh(address), error);
}

/// Endpoint alternation: of the five retries of a fresh request that keeps failing, the
/// first, third and fifth go to the secondary endpoint and the second and fourth to the
/// primary one.
pub proof fn lemma_endpoints_alternate(
    dispatcher: DispatcherView,
    backlog: int,
    address: Seq<char>,
    error: Seq<char>,
)
    ensures
        ({
            let run = failing_run(dispatcher, backlog, ContainerView::fresh(address), error);
            &&& run.retries.len() == 5
            &&& run.retries[0].url == dispatcher.endpoints.url_2
            &&& run.retries[1].url == dispatcher.endpoints.url_1
            &&& run.retries[2].url == dispatcher.endpoints.url_2
            &&& run.retries[3].url == dispatcher.endpoints.url_1
            &&& run.retries[4].url == dispatcher.endpoints.url_2
        }),
{
    lemma_failing_run(dispatcher, backlog, ContainerView::fresh(address), error);
    let run = failing_run(dispatcher, backlog, ContainerView::fresh(address), error);
    assert(run.retries[0].url == dispatcher.endpoints.url(endpoint_for(1)));
    assert(run.retries[1].url == dispatcher.endpoints.url(endpoint_for(2)));
    assert(run.retries[2].url == dispatcher.endpoints.url(endpoint_for(3)));
    assert(run.retries[3].url == dispatcher.endpoints.url(endpoint_for(4)));
    assert(run.retries[4].url == dispatcher.endpoints.url(endpoint_for(5)));
}

/// The endpoint of a retry depends on the parity of the count alone, so that the retry
/// after the next failure goes to the other endpoint.
pub proof fn lemma_endpoint_parity(count: nat)
    ensures
        endpoint_for(count) == Endpoint::Primary <==> count % 2 == 0,
        endpoint_for(count) == Endpoint::Secondary <==> count % 2 == 1,
        endpoint_for(count + 1) != endpoint_for(count),
{
}

} // verus!

//! Read-only executions: `execute_read_only_bytecode` and
//! `execute_read_only_call`.
//!
//! A client has the node execute bytecode, or call a function, without a trace
//! in the ledger. A batch of such requests is worked off one by one. Where a
//! request names no caller, a random address is drawn for it; then execution is
//! asked; and its outcome, good or bad, becomes the response to that request.

use crate::api::{Public, API};
use crate::error::{check_arguments, too_many_arguments, ApiError};
use crate::models::{Address, Amount, Slot};
use std::collections::VecDeque;
use vstd::prelude::*;
use vstd::string::*;

verus! {

/// A request to execute bytecode.
#[derive(PartialEq, Eq, Debug)]
pub struct ReadOnlyBytecodeExecution {
    /// How much gas the execution may use.
    pub max_gas: u64,
    /// The gas price that the execution sees.
    pub simulated_gas_price: Amount,
    /// The code.
    pub bytecode: Vec<u8>,
    /// The address that executes it, if the client cares.
    pub address: Option<Address>,
}

/// A request to call a function of a smart contract.
#[derive(PartialEq, Eq, Debug)]
pub struct ReadOnlyCall {
    /// How much gas the call may use.
    pub max_gas: u64,
    /// The gas price that the call sees.
    pub simulated_gas_price: Amount,
    /// The address of the smart contract.
    pub target_address: Address,
    /// The function to call.
    pub target_function: String,
    /// The argument of the function.
    pub parameter: Vec<u8>,
    /// The address that calls, if the client cares.
    pub caller_address: Option<Address>,
}

/// One request of a batch.
#[derive(PartialEq, Eq, Debug)]
pub enum ReadOnlyJob {
    Bytecode(ReadOnlyBytecodeExecution),
    Call(ReadOnlyCall),
}

/// One level of the call stack on which execution starts.
#[derive(PartialEq, Eq, Debug)]
pub struct ExecutionStackElement {
    /// Whose code runs.
    pub address: Address,
    /// The coins that were sent along.
    pub coins: Amount,
    /// The addresses to which the code may write.
    pub owned_addresses: Vec<Address>,
}

/// What to execute.
#[derive(PartialEq, Eq, Debug)]
pub enum ReadOnlyExecutionTarget {
    BytecodeExecution(Vec<u8>),
    FunctionCall { target_addr: Address, target_func: String, parameter: Vec<u8> },
}

/// What execution is asked.
#[derive(PartialEq, Eq, Debug)]
pub struct ReadOnlyExecutionRequest {
    pub max_gas: u64,
    pub simulated_gas_price: Amount,
    pub call_stack: Vec<ExecutionStackElement>,
    pub target: ReadOnlyExecutionTarget,
}

/// What execution says of a run that succeeded. `Event` is the type of the
/// events that smart contracts emit.
#[derive(PartialEq, Eq, Debug)]
pub struct ExecutionOutput<Event> {
    /// The slot at which the run took place.
    pub slot: Slot,
    /// The events that were emitted, in order.
    pub events: Vec<Event>,
}

/// Whether a read-only execution succeeded.
#[derive(PartialEq, Eq, Debug)]
pub enum ReadOnlyResult {
    /// It failed, for the reason given.
    Error(String),
    /// It succeeded.
    Success,
}

/// The response to one request of a batch.
#[derive(PartialEq, Eq, Debug)]
pub struct ExecuteReadOnlyResponse<Event> {
    pub executed_at: Slot,
    pub result: ReadOnlyResult,
    pub output_events: Vec<Event>,
}

/// An [`ExecutionStackElement`] with its addresses as a sequence.
pub struct StackElementView {
    pub address: Address,
    pub coins: Amount,
    pub owned_addresses: Seq<Address>,
}

/// A [`ReadOnlyExecutionTarget`] with its contents as sequences.
pub enum TargetView {
    BytecodeExecution(Seq<u8>),
    FunctionCall { target_addr: Address, target_func: Seq<char>, parameter: Seq<u8> },
}

/// A [`ReadOnlyExecutionRequest`] with its contents as sequences.
#[verifier::ext_equal]
pub struct RequestView {
    pub max_gas: u64,
    pub simulated_gas_price: Amount,
    pub call_stack: Seq<StackElementView>,
    pub target: TargetView,
}

/// A [`ReadOnlyResult`] with its text as a sequence of characters.
pub enum ResultView {
    Error(Seq<char>),
    Success,
}

/// An [`ExecuteReadOnlyResponse`] with its contents as sequences.
pub struct ResponseView<Event> {
    pub executed_at: Slot,
    pub result: ResultView,
    pub output_events: Seq<Event>,
}

impl View for ExecutionStackElement {
    type V = StackElementView;

    open spec fn view(&self) -> StackElementView {
        StackElementView {
            address: self.address,
            coins: self.coins,
            owned_addresses: self.owned_addresses@,
        }
    }
}

impl View for ReadOnlyExecutionTarget {
    type V = TargetView;

    open spec fn view(&self) -> TargetView {
        match self {
            ReadOnlyExecutionTarget::BytecodeExecution(bytecode) => TargetView::BytecodeExecution(
                bytecode@,
            ),
            ReadOnlyExecutionTarget::FunctionCall {
                target_addr,
                target_func,
                parameter,
            } => TargetView::FunctionCall {
                target_addr: *target_addr,
                target_func: target_func@,
                parameter: parameter@,
            },
        }
    }
}

impl View for ReadOnlyExecutionRequest {
    type V = RequestView;

    open spec fn view(&self) -> RequestView {
        RequestView {
            max_gas: self.max_gas,
            simulated_gas_price: self.simulated_gas_price,
            call_stack: self.call_stack@.map_values(|element: ExecutionStackElement| element@),
            target: self.target@,
        }
    }
}

impl View for ReadOnlyResult {
    type V = ResultView;

    open spec fn view(&self) -> ResultView {
        match self {
            ReadOnlyResult::Error(text) => ResultView::Error(text@),
            ReadOnlyResult::Success => ResultView::Success,
        }
    }
}

impl<Event> View for ExecuteReadOnlyResponse<Event> {
    type V = ResponseView<Event>;

    open spec fn view(&self) -> ResponseView<Event> {
        ResponseView {
            executed_at: self.executed_at,
            result: self.result@,
            output_events: self.output_events@,
        }
    }
}

/// The responses with their contents as sequences.
pub open spec fn response_views<Event>(
    responses: Seq<ExecuteReadOnlyResponse<Event>>,
) -> Seq<ResponseView<Event>> {
    responses.map_values(|response: ExecuteReadOnlyResponse<Event>| response@)
}

/// The caller that the request names.
pub open spec fn named_caller(job: ReadOnlyJob) -> Option<Address> {
    match job {
        ReadOnlyJob::Bytecode(execution) => execution.address,
        ReadOnlyJob::Call(call) => call.caller_address,
    }
}

/// The level of the call stack on which the code of `address` runs: it got no
/// coins, and may write to its own address only.
pub open spec fn stack_level(address: Address) -> StackElementView {
    StackElementView { address, coins: Amount(0), owned_addresses: seq![address] }
}

/// What execution is asked on behalf of `job` when `caller` calls.
pub open spec fn request_of(job: ReadOnlyJob, caller: Address) -> RequestView {
    match job {
        ReadOnlyJob::Bytecode(execution) => RequestView {
            max_gas: execution.max_gas,
            simulated_gas_price: execution.simulated_gas_price,
            call_stack: seq![stack_level(caller)],
            target: TargetView::BytecodeExecution(execution.bytecode@),
        },
        ReadOnlyJob::Call(call) => RequestView {
            max_gas: call.max_gas,
            simulated_gas_price: call.simulated_gas_price,
            call_stack: seq![stack_level(caller), stack_level(call.target_address)],
            target: TargetView::FunctionCall {
                target_addr: call.target_address,
                target_func: call.target_function@,
                parameter: call.parameter@,
            },
        },
    }
}

/// The response that an outcome of execution gives. A failure is dated to the
/// genesis slot and comes without events.
pub open spec fn response_of<Event>(
    outcome: Result<ExecutionOutput<Event>, String>,
) -> ResponseView<Event> {
    match outcome {
        Ok(output) => ResponseView {
            executed_at: output.slot,
            result: ResultView::Success,
            output_events: output.events@,
        },
        Err(error) => ResponseView {
            executed_at: Slot::genesis(),
            result: ResultView::Error("readonly call failed: "@ + error@),
            output_events: Seq::empty(),
        },
    }
}

/// Where a batch stands: what is to be done next, the requests that come after
/// that, and the responses so far.
#[verifier::ext_equal]
pub enum StepView<Event> {
    DrawAddress {
        job: ReadOnlyJob,
        pending: Seq<ReadOnlyJob>,
        responses: Seq<ResponseView<Event>>,
    },
    Execute {
        request: RequestView,
        pending: Seq<ReadOnlyJob>,
        responses: Seq<ResponseView<Event>>,
    },
    Reply(Seq<ResponseView<Event>>),
}

/// Where a batch stands before the first of its `pending` requests is begun.
pub open spec fn next_step<Event>(
    pending: Seq<ReadOnlyJob>,
    responses: Seq<ResponseView<Event>>,
) -> StepView<Event> {
    if pending.len() == 0 {
        StepView::Reply(responses)
    } else {
        let job = pending[0];
        let rest = pending.drop_first();
        match named_caller(job) {
            Some(caller) => StepView::Execute {
                request: request_of(job, caller),
                pending: rest,
                responses,
            },
            None => StepView::DrawAddress { job, pending: rest, responses },
        }
    }
}

/// What to do next for a batch.
pub enum ReadOnlyStep<Event> {
    /// Draw a random address.
    DrawAddress(AwaitingAddress<Event>),
    /// Have the request executed.
    Execute(ReadOnlyExecutionRequest, AwaitingOutcome<Event>),
    /// Answer the client.
    Reply(Vec<ExecuteReadOnlyResponse<Event>>),
}

/// A batch that needs an address for its next request.
pub struct AwaitingAddress<Event> {
    job: ReadOnlyJob,
    pending: VecDeque<ReadOnlyJob>,
    responses: Vec<ExecuteReadOnlyResponse<Event>>,
}

/// A batch whose next request is being executed.
pub struct AwaitingOutcome<Event> {
    pending: VecDeque<ReadOnlyJob>,
    responses: Vec<ExecuteReadOnlyResponse<Event>>,
}

impl<Event> View for ReadOnlyStep<Event> {
    type V = StepView<Event>;

    open spec fn view(&self) -> StepView<Event> {
        match self {
            ReadOnlyStep::DrawAddress(state) => StepView::DrawAddress {
                job: state.job(),
                pending: state.pending(),
                responses: state.responses(),
            },
            ReadOnlyStep::Execute(request, state) => StepView::Execute {
                request: request@,
                pending: state.pending(),
                responses: state.responses(),
            },
            ReadOnlyStep::Reply(responses) => StepView::Reply(response_views(responses@)),
        }
    }
}

impl<Event> AwaitingAddress<Event> {
    /// The request for which an address is drawn.
    pub closed spec fn job(self) -> ReadOnlyJob {
        self.job
    }

    /// The requests that come after it.
    pub closed spec fn pending(self) -> Seq<ReadOnlyJob> {
        self.pending@
    }

    /// The responses so far.
    pub closed spec fn responses(self) -> Seq<ResponseView<Event>> {
        response_views(self.responses@)
    }

    /// Goes on with the address that was drawn.
    pub fn drawn(self, address: Address) -> (step: ReadOnlyStep<Event>)
        ensures
            step@ == (StepView::Execute {
                request: request_of(self.job(), address),
                pending: self.pending(),
                responses: self.responses(),
            }),
    {
        ReadOnlyStep::Execute(
            request(self.job, address),
            AwaitingOutcome { pending: self.pending, responses: self.responses },
        )
    }
}

impl<Event> AwaitingOutcome<Event> {
    /// The requests that come after the one that is being executed.
    pub closed spec fn pending(self) -> Seq<ReadOnlyJob> {
        self.pending@
    }

    /// The responses so far.
    pub closed spec fn responses(self) -> Seq<ResponseView<Event>> {
        response_views(self.responses@)
    }

    /// Goes on with the outcome of the execution; an error is given as text.
    pub fn executed(self, outcome: Result<ExecutionOutput<Event>, String>) -> (step: ReadOnlyStep<
        Event,
    >)
        ensures
            step@ == next_step(self.pending(), self.responses().push(response_of(outcome))),
    {
        let mut responses = self.responses;
        let ghost before = responses@;
        let answer = response(outcome);
        responses.push(answer);
        assert(response_views(responses@) =~= response_views(before).push(answer@));
        advance(self.pending, responses)
    }
}

/// The level of the call stack on which the code of `address` runs.
fn stack_element(address: Address) -> (element: ExecutionStackElement)
    ensures
        element@ == stack_level(address),
{
    let owned_addresses: Vec<Address> = vec![address];
    assert(owned_addresses@ =~= seq![address]);
    ExecutionStackElement { address, coins: Amount(0), owned_addresses }
}

/// The request that execution gets on behalf of `job` when `caller` calls.
fn request(job: ReadOnlyJob, caller: Address) -> (request: ReadOnlyExecutionRequest)
    ensures
        request@ == request_of(job, caller),
{
    match job {
        ReadOnlyJob::Bytecode(execution) => {
            let request = ReadOnlyExecutionRequest {
                max_gas: execution.max_gas,
                simulated_gas_price: execution.simulated_gas_price,
                target: ReadOnlyExecutionTarget::BytecodeExecution(execution.bytecode),
                call_stack: vec![stack_element(caller)],
            };
            assert(request@.call_stack =~= seq![stack_level(caller)]);
            request
        },
        ReadOnlyJob::Call(call) => {
            let request = ReadOnlyExecutionRequest {
                max_gas: call.max_gas,
                simulated_gas_price: call.simulated_gas_price,
                target: ReadOnlyExecutionTarget::FunctionCall {
                    target_func: call.target_function,
                    target_addr: call.target_address,
                    parameter: call.parameter,
                },
                call_stack: vec![stack_element(caller), stack_element(call.target_address)],
            };
            assert(request@.call_stack =~= seq![
                stack_level(caller),
                stack_level(call.target_address),
            ]);
            request
        },
    }
}

/// The response that an outcome of execution gives.
fn response<Event>(outcome: Result<ExecutionOutput<Event>, String>) -> (response:
    ExecuteReadOnlyResponse<Event>)
    ensures
        response@ == response_of(outcome),
{
    match outcome {
        Ok(output) => ExecuteReadOnlyResponse {
            executed_at: output.slot,
            result: ReadOnlyResult::Success,
            output_events: output.events,
        },
        Err(error) => ExecuteReadOnlyResponse {
            executed_at: Slot { period: 0, thread: 0 },
            result: ReadOnlyResult::Error(
                "readonly call failed: ".to_string().concat(error.as_str()),
            ),
            output_events: Vec::new(),
        },
    }
}

/// Takes the next request of a batch, or ends the batch.
fn advance<Event>(
    pending: VecDeque<ReadOnlyJob>,
    responses: Vec<ExecuteReadOnlyResponse<Event>>,
) -> (step: ReadOnlyStep<Event>)
    ensures
        step@ == next_step(pending@, response_views(responses@)),
{
    let mut rest = pending;
    match rest.pop_front() {
        None => ReadOnlyStep::Reply(responses),
        Some(job) => {
            assert(rest@ =~= pending@.drop_first());
            let named: Option<Address> = match &job {
                ReadOnlyJob::Bytecode(execution) => execution.address,
                ReadOnlyJob::Call(call) => call.caller_address,
            };
            match named {
                Some(caller) => ReadOnlyStep::Execute(
                    request(job, caller),
                    AwaitingOutcome { pending: rest, responses },
                ),
                None => ReadOnlyStep::DrawAddress(
                    AwaitingAddress { job, pending: rest, responses },
                ),
            }
        },
    }
}

/// The requests to execute bytecode, as a batch.
pub open spec fn bytecode_jobs(reqs: Seq<ReadOnlyBytecodeExecution>) -> Seq<ReadOnlyJob> {
    reqs.map_values(|req: ReadOnlyBytecodeExecution| ReadOnlyJob::Bytecode(req))
}

/// The requests to call a function, as a batch.
pub open spec fn call_jobs(reqs: Seq<ReadOnlyCall>) -> Seq<ReadOnlyJob> {
    reqs.map_values(|req: ReadOnlyCall| ReadOnlyJob::Call(req))
}

impl<Consensus, Execution, Selector, Pool, Network, Storage> API<
    Public<Consensus, Execution, Selector, Pool, Network, Storage>,
> {
    /// Begins a batch of executions of bytecode.
    pub fn execute_read_only_bytecode<Event>(
        &self,
        reqs: Vec<ReadOnlyBytecodeExecution>,
    ) -> (begun: Result<ReadOnlyStep<Event>, ApiError>)
        ensures
            match begun {
                Ok(step) => {
                    &&& reqs@.len() <= self.max_arguments()
                    &&& step@ == next_step::<Event>(bytecode_jobs(reqs@), Seq::empty())
                },
                Err(error) => {
                    &&& reqs@.len() > self.max_arguments()
                    &&& error@ == too_many_arguments()
                },
            },
    {
        if let Err(error) = check_arguments(reqs.len(), self.0.api_settings.max_arguments) {
            return Err(error);
        }
        let mut pending: VecDeque<ReadOnlyJob> = VecDeque::with_capacity(reqs.len());
        for req in it: reqs
            invariant
                it.seq() == reqs@,
                pending@ =~= bytecode_jobs(reqs@).take(it.index() as int),
        {
            pending.push_back(ReadOnlyJob::Bytecode(req));
        }
        assert(pending@ =~= bytecode_jobs(reqs@));
        let responses: Vec<ExecuteReadOnlyResponse<Event>> = Vec::with_capacity(pending.len());
        assert(response_views(responses@) =~= Seq::empty());
        Ok(advance(pending, responses))
    }

    /// Begins a batch of calls.
    pub fn execute_read_only_call<Event>(&self, reqs: Vec<ReadOnlyCall>) -> (begun: Result<
        ReadOnlyStep<Event>,
        ApiError,
    >)
        ensures
            match begun {
                Ok(step) => {
                    &&& reqs@.len() <= self.max_arguments()
                    &&& step@ == next_step::<Event>(call_jobs(reqs@), Seq::empty())
                },
                Err(error) => {
                    &&& reqs@.len() > self.max_arguments()
                    &&& error@ == too_many_arguments()
                },
            },
    {
        if let Err(error) = check_arguments(reqs.len(), self.0.api_settings.max_arguments) {
            return Err(error);
        }
        let mut pending: VecDeque<ReadOnlyJob> = VecDeque::with_capacity(reqs.len());
        for req in it: reqs
            invariant
                it.seq() == reqs@,
                pending@ =~= call_jobs(reqs@).take(it.index() as int),
        {
            pending.push_back(ReadOnlyJob::Call(req));
        }
        assert(pending@ =~= call_jobs(reqs@));
        let responses: Vec<ExecuteReadOnlyResponse<Event>> = Vec::with_capacity(pending.len());
        assert(response_views(responses@) =~= Seq::empty());
        Ok(advance(pending, responses))
    }
}

/// Whoever calls, execution is asked for the same thing, under the same limits:
/// the caller only shows in the call stack. There it stands at the bottom; a
/// called contract stands above it. No level of the stack got coins, and each
/// may write to its own address only.
pub proof fn law_caller_only_shows_in_the_call_stack(
    job: ReadOnlyJob,
    caller: Address,
    other: Address,
)
    ensures
        ({
            let request = request_of(job, caller);
            let levels = request.call_stack;
            &&& request.max_gas == request_of(job, other).max_gas
            &&& request.simulated_gas_price == request_of(job, other).simulated_gas_price
            &&& request.target == request_of(job, other).target
            &&& levels[0].address == caller
            &&& job is Bytecode ==> levels.len() == 1
            &&& job matches ReadOnlyJob::Call(call) ==> levels.len() == 2 && levels[1].address
                == call.target_address
            &&& forall|i: int|
                0 <= i < levels.len() ==> {
                    &&& (#[trigger] levels[i]).coins == Amount(0)
                    &&& levels[i].owned_addresses == seq![levels[i].address]
                }
        }),
{
}

/// How many steps a batch takes from `step` to its end, at most.
pub open spec fn steps_left<Event>(step: StepView<Event>) -> nat {
    match step {
        StepView::DrawAddress { job, pending, responses } => 2 * pending.len() + 2,
        StepView::Execute { request, pending, responses } => 2 * pending.len() + 1,
        StepView::Reply(responses) => 0,
    }
}

/// What a batch does from `step` to its end: the requests that it has executed,
/// and the responses that the client gets. The addresses that it draws are
/// `draws`, and execution answers with `outcomes`, each in order.
pub open spec fn transcript<Event>(
    step: StepView<Event>,
    draws: Seq<Address>,
    outcomes: Seq<Result<ExecutionOutput<Event>, String>>,
) -> (Seq<RequestView>, Seq<ResponseView<Event>>)
    decreases steps_left(step),
{
    match step {
        StepView::DrawAddress { job, pending, responses } => transcript(
            StepView::Execute { request: request_of(job, draws[0]), pending, responses },
            draws.drop_first(),
            outcomes,
        ),
        StepView::Execute { request, pending, responses } => {
            let rest = transcript(
                next_step(pending, responses.push(response_of(outcomes[0]))),
                draws,
                outcomes.drop_first(),
            );
            (seq![request] + rest.0, rest.1)
        },
        StepView::Reply(responses) => (Seq::empty(), responses),
    }
}

/// How many of the first `n` requests of a batch name no caller.
pub open spec fn unnamed_callers(jobs: Seq<ReadOnlyJob>, n: int) -> nat
    decreases n,
{
    if n <= 0 {
        0
    } else {
        (if named_caller(jobs[0]) is None {
            1nat
        } else {
            0nat
        }) + unnamed_callers(jobs.drop_first(), n - 1)
    }
}

/// The address on whose behalf request `i` of a batch is executed: the caller
/// that it names, or else the next address that is drawn.
pub open spec fn caller_of(jobs: Seq<ReadOnlyJob>, draws: Seq<Address>, i: int) -> Address {
    match named_caller(jobs[i]) {
        Some(caller) => caller,
        None => draws[unnamed_callers(jobs, i) as int],
    }
}

/// Every request of a batch is executed once, in order, and each gets the
/// response that its own outcome gives, in the same order. A request that fails
/// neither ends the batch nor changes another response. A caller that is named
/// is used; an address is drawn only for a request that names none, and no draw
/// serves twice.
pub proof fn law_one_response_per_request<Event>(
    jobs: Seq<ReadOnlyJob>,
    draws: Seq<Address>,
    outcomes: Seq<Result<ExecutionOutput<Event>, String>>,
)
    requires
        outcomes.len() == jobs.len(),
        draws.len() == unnamed_callers(jobs, jobs.len() as int),
    ensures
        ({
            let (requests, responses) = transcript(
                next_step(jobs, Seq::empty()),
                draws,
                outcomes,
            );
            &&& requests == Seq::new(
                jobs.len(),
                |i: int| request_of(jobs[i], caller_of(jobs, draws, i)),
            )
            &&& responses == outcomes.map_values(
                |outcome: Result<ExecutionOutput<Event>, String>| response_of(outcome),
            )
        }),
{
    lemma_transcript(jobs, Seq::empty(), draws, outcomes);
    let responses = transcript(next_step(jobs, Seq::empty()), draws, outcomes).1;
    assert(responses =~= outcomes.map_values(
        |outcome: Result<ExecutionOutput<Event>, String>| response_of(outcome),
    ));
}

/// A request that names no caller adds to the count of those after it.
proof fn lemma_unnamed_callers_grow(jobs: Seq<ReadOnlyJob>, i: int, n: int)
    requires
        0 <= i < n <= jobs.len(),
        named_caller(jobs[i]) is None,
    ensures
        unnamed_callers(jobs, i) < unnamed_callers(jobs, n),
    decreases n,
{
    if i > 0 {
        lemma_unnamed_callers_grow(jobs.drop_first(), i - 1, n - 1);
    }
}

/// What a batch does with its pending requests once it has some responses.
proof fn lemma_transcript<Event>(
    pending: Seq<ReadOnlyJob>,
    responses: Seq<ResponseView<Event>>,
    draws: Seq<Address>,
    outcomes: Seq<Result<ExecutionOutput<Event>, String>>,
)
    requires
        outcomes.len() == pending.len(),
        draws.len() == unnamed_callers(pending, pending.len() as int),
    ensures
        transcript(next_step(pending, responses), draws, outcomes).0 == Seq::new(
            pending.len(),
            |i: int| request_of(pending[i], caller_of(pending, draws, i)),
        ),
        transcript(next_step(pending, responses), draws, outcomes).1 == responses + Seq::new(
            pending.len(),
            |i: int| response_of(outcomes[i]),
        ),
    decreases pending.len(),
{
    reveal_with_fuel(transcript, 3);
    let requests = transcript(next_step(pending, responses), draws, outcomes).0;
    let expected = Seq::new(
        pending.len(),
        |i: int| request_of(pending[i], caller_of(pending, draws, i)),
    );
    if pending.len() == 0 {
        assert(requests =~= expected);
        assert(transcript(next_step(pending, responses), draws, outcomes).1 =~= responses
            + Seq::new(pending.len(), |i: int| response_of(outcomes[i])));
    } else {
        let rest = pending.drop_first();
        let told = responses.push(response_of(outcomes[0]));
        let drawn = if named_caller(pending[0]) is None {
            draws.drop_first()
        } else {
            draws
        };
        lemma_transcript(rest, told, drawn, outcomes.drop_first());
        let tail = transcript(next_step(rest, told), drawn, outcomes.drop_first());
        assert(requests =~= seq![request_of(pending[0], caller_of(pending, draws, 0))] + tail.0);
        assert forall|i: int| 0 <= i < pending.len() implies requests[i] == expected[i] by {
            if i > 0 {
                assert(requests[i] == tail.0[i - 1]);
                assert(rest[i - 1] == pending[i]);
                if named_caller(pending[i]) is None {
                    lemma_unnamed_callers_grow(rest, i - 1, rest.len() as int);
                }
                assert(unnamed_callers(pending, i) == unnamed_callers(rest, i - 1) + (if named_caller(
                    pending[0],
                ) is None {
                    1nat
                } else {
                    0nat
                }));
            }
        }
        assert(requests =~= expected);
        assert(tail.1 =~= responses + Seq::new(
            pending.len(),
            |i: int| response_of(outcomes[i]),
        ));
    }
}

/// What a batch is told between two steps.
pub enum BatchReply<Event> {
    /// The address that was drawn.
    Drawn(Address),
    /// The outcome of an execution.
    Executed(Result<ExecutionOutput<Event>, String>),
}

/// Whether `next` comes of going on from `step` with `reply`.
pub open spec fn batch_goes_on<Event>(
    step: ReadOnlyStep<Event>,
    reply: BatchReply<Event>,
    next: ReadOnlyStep<Event>,
) -> bool {
    match (step, reply) {
        (ReadOnlyStep::DrawAddress(state), BatchReply::Drawn(address)) => call_ensures(
            AwaitingAddress::<Event>::drawn,
            (state, address),
            next,
        ),
        (ReadOnlyStep::Execute(_, state), BatchReply::Executed(outcome)) => call_ensures(
            AwaitingOutcome::<Event>::executed,
            (state, outcome),
            next,
        ),
        _ => false,
    }
}

/// Whether a batch goes through `steps` to its end when it is told `replies`.
pub open spec fn is_batch_run<Event>(
    steps: Seq<ReadOnlyStep<Event>>,
    replies: Seq<BatchReply<Event>>,
) -> bool {
    &&& steps.len() == replies.len() + 1
    &&& forall|k: int|
        0 <= k < replies.len() ==> batch_goes_on(steps[k], #[trigger] replies[k], steps[k + 1])
    &&& steps.last() is Reply
}

/// Whether requests are executed at the places `at` of a run with `len` replies:
/// each directly after the one before it, or, if it is one of the `unnamed`, with
/// one draw in between; and nothing comes after the last.
#[verifier::opaque]
spec fn is_timetable(at: Seq<int>, unnamed: Seq<bool>, len: int) -> bool {
    &&& at.len() == unnamed.len()
    &&& forall|i: int|
        #![trigger unnamed[i]]
        0 <= i < at.len() ==> at[i] == (if i == 0 {
            0
        } else {
            at[i - 1] + 1
        }) + (if unnamed[i] {
            1int
        } else {
            0int
        })
    &&& forall|i: int| 0 <= i < at.len() ==> 0 <= #[trigger] at[i] < len
    &&& len == if at.len() == 0 {
        0
    } else {
        at.last() + 1
    }
}

/// Whether a level of the call stack got no coins and may write to its own address
/// only.
spec fn is_bare_level(level: ExecutionStackElement) -> bool {
    &&& level.coins.0 == 0
    &&& level.owned_addresses@ == seq![level.address]
}

/// Whether execution is asked for exactly the call that the client asks for, on a
/// stack of a caller and the called contract.
spec fn asks_for_call(request: ReadOnlyExecutionRequest, call: ReadOnlyCall) -> bool {
    &&& request.max_gas == call.max_gas
    &&& request.simulated_gas_price == call.simulated_gas_price
    &&& request.target matches ReadOnlyExecutionTarget::FunctionCall {
        target_addr,
        target_func,
        parameter,
    }
    &&& target_addr == call.target_address
    &&& target_func@ == call.target_function@
    &&& parameter@ == call.parameter@
    &&& request.call_stack@.len() == 2
    &&& is_bare_level(request.call_stack@[0])
    &&& is_bare_level(request.call_stack@[1])
    &&& request.call_stack@[1].address == call.target_address
}

/// Whether execution is asked for exactly the code that the client asks for, on a
/// stack of a caller only.
spec fn asks_for_bytecode(
    request: ReadOnlyExecutionRequest,
    execution: ReadOnlyBytecodeExecution,
) -> bool {
    &&& request.max_gas == execution.max_gas
    &&& request.simulated_gas_price == execution.simulated_gas_price
    &&& request.target matches ReadOnlyExecutionTarget::BytecodeExecution(bytecode)
    &&& bytecode@ == execution.bytecode@
    &&& request.call_stack@.len() == 1
    &&& is_bare_level(request.call_stack@[0])
}

/// Whether execution is asked for what the client asks for.
spec fn asks_for(request: ReadOnlyExecutionRequest, job: ReadOnlyJob) -> bool {
    match job {
        ReadOnlyJob::Bytecode(execution) => asks_for_bytecode(request, execution),
        ReadOnlyJob::Call(call) => asks_for_call(request, call),
    }
}

/// Whether a response tells an outcome as it is: a success with its slot and its
/// events; a failure in the words of execution, without events, as of period 0 in
/// thread 0.
spec fn tells_outcome<Event>(
    response: ExecuteReadOnlyResponse<Event>,
    outcome: Result<ExecutionOutput<Event>, String>,
) -> bool {
    match outcome {
        Ok(output) => {
            &&& response.executed_at == output.slot
            &&& response.result is Success
            &&& response.output_events@ == output.events@
        },
        Err(error) => {
            &&& response.executed_at.period == 0
            &&& response.executed_at.thread == 0
            &&& response.result matches ReadOnlyResult::Error(text)
            &&& text@ == "readonly call failed: "@ + error@
            &&& response.output_events@.len() == 0
        },
    }
}

/// A request that has the view of what is asked on behalf of a job asks for that
/// job.
proof fn lemma_asks_for(request: ReadOnlyExecutionRequest, job: ReadOnlyJob, caller: Address)
    requires
        request@ == request_of(job, caller),
    ensures
        asks_for(request, job),
        request.call_stack@[0].address == caller,
{
    let levels = request.call_stack@.map_values(|element: ExecutionStackElement| element@);
    assert(request@.call_stack == levels);
    assert forall|i: int| 0 <= i < levels.len() implies request.call_stack@[i]@
        == #[trigger] levels[i] by {}
    assert(levels.len() == request_of(job, caller).call_stack.len());
    assert(request.call_stack@[0]@ == levels[0]);
    assert(levels[0] == stack_level(caller));
    if let ReadOnlyJob::Call(call) = job {
        assert(request.call_stack@[1]@ == levels[1]);
        assert(levels[1] == stack_level(call.target_address));
    }
}

/// Whether a run has `job` executed at the place `at` and tells its outcome in
/// `response`. The caller is the one that the job names, or else the address that
/// was drawn directly before.
#[verifier::opaque]
spec fn executes_job<Event>(
    job: ReadOnlyJob,
    at: int,
    steps: Seq<ReadOnlyStep<Event>>,
    replies: Seq<BatchReply<Event>>,
    response: ExecuteReadOnlyResponse<Event>,
) -> bool {
    &&& steps[at] matches ReadOnlyStep::Execute(request, _)
    &&& replies[at] matches BatchReply::Executed(outcome)
    &&& asks_for(request, job)
    &&& match named_caller(job) {
        Some(caller) => request.call_stack@[0].address == caller,
        None => {
            &&& at >= 1
            &&& steps[at - 1] is DrawAddress
            &&& replies[at - 1] == BatchReply::<Event>::Drawn(request.call_stack@[0].address)
        },
    }
    &&& tells_outcome(response, outcome)
}

/// What a run does with its first request: it has it executed at the place `at`.
proof fn lemma_first_job<Event>(
    jobs: Seq<ReadOnlyJob>,
    before: Seq<ResponseView<Event>>,
    steps: Seq<ReadOnlyStep<Event>>,
    replies: Seq<BatchReply<Event>>,
) -> (at: int)
    requires
        is_batch_run(steps, replies),
        jobs.len() > 0,
        steps[0]@ == next_step(jobs, before),
    ensures
        at == if named_caller(jobs[0]) is None {
            1int
        } else {
            0int
        },
        at < replies.len(),
        replies[at] is Executed,
        steps[at + 1]@ == next_step(
            jobs.drop_first(),
            before.push(response_of(replies[at]->Executed_0)),
        ),
        forall|response: ExecuteReadOnlyResponse<Event>|
            response@ == response_of(replies[at]->Executed_0) ==> #[trigger] executes_job(
                jobs[0],
                at,
                steps,
                replies,
                response,
            ),
{
    reveal(executes_job);
    assert(batch_goes_on(steps[0], replies[0], steps[1]));
    match named_caller(jobs[0]) {
        Some(caller) => {
            lemma_asks_for(steps[0]->Execute_0, jobs[0], caller);
            0
        },
        None => {
            assert(batch_goes_on(steps[1], replies[1], steps[2]));
            lemma_asks_for(steps[1]->Execute_0, jobs[0], replies[0]->Drawn_0);
            1
        },
    }
}

/// What is so of a later part of a run is so of the run.
proof fn lemma_later_job<Event>(
    job: ReadOnlyJob,
    at: int,
    skipped: int,
    steps: Seq<ReadOnlyStep<Event>>,
    replies: Seq<BatchReply<Event>>,
    response: ExecuteReadOnlyResponse<Event>,
)
    requires
        0 <= skipped <= replies.len(),
        0 <= at < replies.len() - skipped,
        steps.len() == replies.len() + 1,
        executes_job(job, at, steps.skip(skipped), replies.skip(skipped), response),
    ensures
        executes_job(job, at + skipped, steps, replies, response),
{
    reveal(executes_job);
    assert(steps.skip(skipped)[at] == steps[at + skipped]);
    assert(replies.skip(skipped)[at] == replies[at + skipped]);
    if at >= 1 {
        assert(steps.skip(skipped)[at - 1] == steps[at + skipped - 1]);
        assert(replies.skip(skipped)[at - 1] == replies[at + skipped - 1]);
    }
}

/// A timetable with a request before it.
proof fn lemma_timetable_after(later: Seq<int>, unnamed: Seq<bool>, first: bool, len: int)
    requires
        is_timetable(later, unnamed, len),
    ensures
        ({
            let place: int = if first {
                1
            } else {
                0
            };
            is_timetable(
                seq![place] + later.map_values(|k: int| k + (place + 1)),
                seq![first] + unnamed,
                len + (place + 1),
            )
        }),
{
    let place: int = if first {
        1
    } else {
        0
    };
    reveal(is_timetable);
    let at = seq![place] + later.map_values(|k: int| k + (place + 1));
    assert forall|i: int| 1 <= i < at.len() implies #[trigger] at[i] == later[i - 1] + place
        + 1 by {}
    let all = seq![first] + unnamed;
    assert forall|i: int|
        #![trigger all[i]]
        0 <= i < at.len() implies at[i] == (if i == 0 {
        0
    } else {
        at[i - 1] + 1
    }) + (if all[i] {
        1int
    } else {
        0int
    }) by {
        if i > 0 {
            assert(at[i] == later[i - 1] + place + 1);
            assert(all[i] == unnamed[i - 1]);
            if i > 1 {
                assert(at[i - 1] == later[i - 2] + place + 1);
            }
        }
    }
    assert forall|i: int| 0 <= i < at.len() implies 0 <= #[trigger] at[i] < len + (place + 1) by {
        if i > 0 {
            assert(at[i] == later[i - 1] + place + 1);
        }
    }
}

/// A later part of a run is a run.
proof fn lemma_later_batch_run<Event>(
    steps: Seq<ReadOnlyStep<Event>>,
    replies: Seq<BatchReply<Event>>,
    skipped: int,
)
    requires
        is_batch_run(steps, replies),
        0 <= skipped <= replies.len(),
    ensures
        is_batch_run(steps.skip(skipped), replies.skip(skipped)),
        steps.skip(skipped).last() == steps.last(),
{
    let later_steps = steps.skip(skipped);
    let later_replies = replies.skip(skipped);
    assert forall|k: int| 0 <= k < later_replies.len() implies batch_goes_on(
        later_steps[k],
        #[trigger] later_replies[k],
        later_steps[k + 1],
    ) by {
        let there = k + skipped;
        assert(batch_goes_on(steps[there], replies[there], steps[there + 1]));
    }
}

/// What a batch does from its next request on, and where it has each executed.
proof fn lemma_batch_run<Event>(
    jobs: Seq<ReadOnlyJob>,
    before: Seq<ResponseView<Event>>,
    steps: Seq<ReadOnlyStep<Event>>,
    replies: Seq<BatchReply<Event>>,
) -> (at: Seq<int>)
    requires
        is_batch_run(steps, replies),
        steps[0]@ == next_step(jobs, before),
    ensures
        is_timetable(
            at,
            jobs.map_values(|job: ReadOnlyJob| named_caller(job) is None),
            replies.len() as int,
        ),
        at.len() == jobs.len(),
        steps.last()->Reply_0@.len() == before.len() + jobs.len(),
        forall|i: int|
            0 <= i < before.len() ==> (#[trigger] steps.last()->Reply_0@[i])@ == before[i],
        forall|i: int|
            0 <= i < jobs.len() ==> executes_job(
                jobs[i],
                #[trigger] at[i],
                steps,
                replies,
                steps.last()->Reply_0@[before.len() + i],
            ),
    decreases jobs.len(),
{
    let responses = steps.last()->Reply_0@;
    let is_unnamed = |job: ReadOnlyJob| named_caller(job) is None;
    if jobs.len() == 0 {
        if replies.len() > 0 {
            assert(batch_goes_on(steps[0], replies[0], steps[1]));
        }
        assert forall|i: int| 0 <= i < before.len() implies (#[trigger] responses[i])@
            == before[i] by {
            assert(response_views(responses)[i] == before[i]);
        }
        assert(response_views(responses).len() == before.len());
        reveal(is_timetable);
        Seq::empty()
    } else {
        let place = lemma_first_job(jobs, before, steps, replies);
        let outcome = replies[place]->Executed_0;
        let told = before.push(response_of(outcome));
        let rest = jobs.drop_first();
        let later_steps = steps.skip(place + 1);
        let later_replies = replies.skip(place + 1);
        lemma_later_batch_run(steps, replies, place + 1);
        let later = lemma_batch_run(rest, told, later_steps, later_replies);
        let at = seq![place] + later.map_values(|k: int| k + (place + 1));
        lemma_timetable_after(
            later,
            rest.map_values(is_unnamed),
            is_unnamed(jobs[0]),
            later_replies.len() as int,
        );
        assert(seq![is_unnamed(jobs[0])] + rest.map_values(is_unnamed) =~= jobs.map_values(
            is_unnamed,
        ));
        assert forall|i: int| 0 <= i < before.len() implies (#[trigger] responses[i])@
            == before[i] by {
            assert(responses[i]@ == told[i]);
        }
        assert(responses[before.len() as int]@ == told[before.len() as int]);
        assert forall|i: int| 0 <= i < jobs.len() implies executes_job(
            jobs[i],
            #[trigger] at[i],
            steps,
            replies,
            responses[before.len() + i],
        ) by {
            if i == 0 {
                assert(executes_job(
                    jobs[0],
                    place,
                    steps,
                    replies,
                    responses[before.len() as int],
                ));
            } else {
                assert(at[i] == later[i - 1] + (place + 1));
                assert(0 <= later[i - 1] < later_replies.len()) by {
                    reveal(is_timetable);
                }
                assert(jobs[i] == rest[i - 1]);
                assert(executes_job(
                    rest[i - 1],
                    later[i - 1],
                    later_steps,
                    later_replies,
                    responses[told.len() + (i - 1)],
                ));
                lemma_later_job(
                    jobs[i],
                    later[i - 1],
                    place + 1,
                    steps,
                    replies,
                    responses[before.len() + i],
                );
            }
        }
        at
    }
}

/// However a batch of calls goes, execution is asked once for each call, in the
/// order of the batch, with the client's own limits, function and argument, whether
/// or not a caller is named; and the client gets the response to each call at the
/// same place. A batch is refused exactly if it has more calls than the limit
/// allows. The executions stand at the places `at` among the steps.
pub proof fn law_calls_are_executed_as_they_are_asked<
    Consensus,
    Execution,
    Selector,
    Pool,
    Network,
    Storage,
    Event,
>(
    api: API<Public<Consensus, Execution, Selector, Pool, Network, Storage>>,
    reqs: Vec<ReadOnlyCall>,
    begun: Result<ReadOnlyStep<Event>, ApiError>,
    steps: Seq<ReadOnlyStep<Event>>,
    replies: Seq<BatchReply<Event>>,
) -> (at: Seq<int>)
    requires
        call_ensures(
            API::<
                Public<Consensus, Execution, Selector, Pool, Network, Storage>,
            >::execute_read_only_call::<
                Event,
            >,
            (&api, reqs),
            begun,
        ),
        begun matches Ok(step) ==> is_batch_run(steps, replies) && steps[0] == step,
    ensures
        begun is Ok <==> reqs@.len() <= api.0.api_settings.max_arguments,
        begun matches Err(error) ==> (error matches ApiError::TooManyArguments(text) && text@
            == "too many arguments"@),
        begun is Ok ==> {
            &&& at.len() == reqs@.len()
            &&& replies.len() == if at.len() == 0 {
                0
            } else {
                at.last() + 1
            }
            &&& forall|i: int|
                #![trigger reqs@[i]]
                0 <= i < reqs@.len() ==> at[i] == (if i == 0 {
                    0
                } else {
                    at[i - 1] + 1
                }) + (if reqs@[i].caller_address is None {
                    1int
                } else {
                    0int
                })
            &&& forall|i: int| 0 <= i < reqs@.len() ==> 0 <= #[trigger] at[i] < replies.len()
            &&& steps.last() matches ReadOnlyStep::Reply(responses)
            &&& responses@.len() == reqs@.len()
            &&& forall|i: int|
                0 <= i < reqs@.len() ==> {
                    &&& steps[#[trigger] at[i]] matches ReadOnlyStep::Execute(request, _)
                    &&& replies[at[i]] matches BatchReply::Executed(outcome)
                    &&& request.max_gas == reqs@[i].max_gas
                    &&& request.simulated_gas_price == reqs@[i].simulated_gas_price
                    &&& request.target matches ReadOnlyExecutionTarget::FunctionCall {
                        target_addr,
                        target_func,
                        parameter,
                    }
                    &&& target_addr == reqs@[i].target_address
                    &&& target_func@ == reqs@[i].target_function@
                    &&& parameter@ == reqs@[i].parameter@
                    &&& request.call_stack@.len() == 2
                    &&& request.call_stack@[0].coins.0 == 0
                    &&& request.call_stack@[0].owned_addresses@ == seq![
                        request.call_stack@[0].address,
                    ]
                    &&& request.call_stack@[1].coins.0 == 0
                    &&& request.call_stack@[1].owned_addresses@ == seq![
                        request.call_stack@[1].address,
                    ]
                    &&& request.call_stack@[1].address == reqs@[i].target_address
                    &&& match reqs@[i].caller_address {
                        Some(caller) => request.call_stack@[0].address == caller,
                        None => {
                            &&& steps[at[i] - 1] is DrawAddress
                            &&& replies[at[i] - 1] == BatchReply::<Event>::Drawn(
                                request.call_stack@[0].address,
                            )
                        },
                    }
                    &&& match outcome {
                        Ok(output) => {
                            &&& responses@[i].executed_at == output.slot
                            &&& responses@[i].result is Success
                            &&& responses@[i].output_events@ == output.events@
                        },
                        Err(error) => {
                            &&& responses@[i].executed_at.period == 0
                            &&& responses@[i].executed_at.thread == 0
                            &&& responses@[i].result matches ReadOnlyResult::Error(text)
                            &&& text@ == "readonly call failed: "@ + error@
                            &&& responses@[i].output_events@.len() == 0
                        },
                    }
                }
        },
{
    if begun is Ok {
        reveal(executes_job);
        reveal(is_timetable);
        let jobs = call_jobs(reqs@);
        let at = lemma_batch_run(jobs, Seq::empty(), steps, replies);
        let unnamed = reqs@.map_values(|req: ReadOnlyCall| req.caller_address is None);
        assert(unnamed =~= jobs.map_values(|job: ReadOnlyJob| named_caller(job) is None));
        assert forall|i: int| #![trigger reqs@[i]] 0 <= i < reqs@.len() implies unnamed[i] == (
        reqs@[i].caller_address is None) by {}
        assert forall|i: int| 0 <= i < reqs@.len() implies #[trigger] jobs[i]
            == ReadOnlyJob::Call(reqs@[i]) by {}
        assert forall|i: int| 0 <= i < reqs@.len() implies executes_job(
            ReadOnlyJob::Call(reqs@[i]),
            #[trigger] at[i],
            steps,
            replies,
            steps.last()->Reply_0@[i],
        ) by {
            assert(jobs[i] == ReadOnlyJob::Call(reqs@[i]));
        }
        at
    } else {
        Seq::empty()
    }
}

/// However a batch of executions of bytecode goes, execution is asked once for each
/// of them, in the order of the batch, with the client's own limits and code,
/// whether or not an address is named; and the client gets the response to each at
/// the same place. A batch is refused exactly if it has more of them than the limit
/// allows. The executions stand at the places `at` among the steps.
pub proof fn law_bytecode_is_executed_as_it_is_asked<
    Consensus,
    Execution,
    Selector,
    Pool,
    Network,
    Storage,
    Event,
>(
    api: API<Public<Consensus, Execution, Selector, Pool, Network, Storage>>,
    reqs: Vec<ReadOnlyBytecodeExecution>,
    begun: Result<ReadOnlyStep<Event>, ApiError>,
    steps: Seq<ReadOnlyStep<Event>>,
    replies: Seq<BatchReply<Event>>,
) -> (at: Seq<int>)
    requires
        call_ensures(
            API::<
                Public<Consensus, Execution, Selector, Pool, Network, Storage>,
            >::execute_read_only_bytecode::<
                Event,
            >,
            (&api, reqs),
            begun,
        ),
        begun matches Ok(step) ==> is_batch_run(steps, replies) && steps[0] == step,
    ensures
        begun is Ok <==> reqs@.len() <= api.0.api_settings.max_arguments,
        begun matches Err(error) ==> (error matches ApiError::TooManyArguments(text) && text@
            == "too many arguments"@),
        begun is Ok ==> {
            &&& at.len() == reqs@.len()
            &&& replies.len() == if at.len() == 0 {
                0
            } else {
                at.last() + 1
            }
            &&& forall|i: int|
                #![trigger reqs@[i]]
                0 <= i < reqs@.len() ==> at[i] == (if i == 0 {
                    0
                } else {
                    at[i - 1] + 1
                }) + (if reqs@[i].address is None {
                    1int
                } else {
                    0int
                })
            &&& forall|i: int| 0 <= i < reqs@.len() ==> 0 <= #[trigger] at[i] < replies.len()
            &&& steps.last() matches ReadOnlyStep::Reply(responses)
            &&& responses@.len() == reqs@.len()
            &&& forall|i: int|
                0 <= i < reqs@.len() ==> {
                    &&& steps[#[trigger] at[i]] matches ReadOnlyStep::Execute(request, _)
                    &&& replies[at[i]] matches BatchReply::Executed(outcome)
                    &&& request.max_gas == reqs@[i].max_gas
                    &&& request.simulated_gas_price == reqs@[i].simulated_gas_price
                    &&& request.target matches ReadOnlyExecutionTarget::BytecodeExecution(
                        bytecode,
                    )
                    &&& bytecode@ == reqs@[i].bytecode@
                    &&& request.call_stack@.len() == 1
                    &&& request.call_stack@[0].coins.0 == 0
                    &&& request.call_stack@[0].owned_addresses@ == seq![
                        request.call_stack@[0].address,
                    ]
                    &&& match reqs@[i].address {
                        Some(caller) => request.call_stack@[0].address == caller,
                        None => {
                            &&& steps[at[i] - 1] is DrawAddress
                            &&& replies[at[i] - 1] == BatchReply::<Event>::Drawn(
                                request.call_stack@[0].address,
                            )
                        },
                    }
                    &&& match outcome {
                        Ok(output) => {
                            &&& responses@[i].executed_at == output.slot
                            &&& responses@[i].result is Success
                            &&& responses@[i].output_events@ == output.events@
                        },
                        Err(error) => {
                            &&& responses@[i].executed_at.period == 0
                            &&& responses@[i].executed_at.thread == 0
                            &&& responses@[i].result matches ReadOnlyResult::Error(text)
                            &&& text@ == "readonly call failed: "@ + error@
                            &&& responses@[i].output_events@.len() == 0
                        },
                    }
                }
        },
{
    if begun is Ok {
        reveal(executes_job);
        reveal(is_timetable);
        let jobs = bytecode_jobs(reqs@);
        let at = lemma_batch_run(jobs, Seq::empty(), steps, replies);
        let unnamed = reqs@.map_values(|req: ReadOnlyBytecodeExecution| req.address is None);
        assert(unnamed =~= jobs.map_values(|job: ReadOnlyJob| named_caller(job) is None));
        assert forall|i: int| #![trigger reqs@[i]] 0 <= i < reqs@.len() implies unnamed[i] == (
        reqs@[i].address is None) by {}
        assert forall|i: int| 0 <= i < reqs@.len() implies #[trigger] jobs[i]
            == ReadOnlyJob::Bytecode(reqs@[i]) by {}
        assert forall|i: int| 0 <= i < reqs@.len() implies executes_job(
            ReadOnlyJob::Bytecode(reqs@[i]),
            #[trigger] at[i],
            steps,
            replies,
            steps.last()->Reply_0@[i],
        ) by {
            assert(jobs[i] == ReadOnlyJob::Bytecode(reqs@[i]));
        }
        at
    } else {
        Seq::empty()
    }
}

} // verus!

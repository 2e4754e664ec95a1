//! The intake of new operations: `send_operations`.
//!
//! A client sends operations, each as a signature, the creator's public key and
//! the serialized content. One after the other is deserialized and has its
//! integrity verified. The first fault rejects the request as a whole; only
//! when there is none do the operations go to the pool.

use crate::api::{Public, API};
use crate::error::{
    check_arguments, deserialize_error, too_many_arguments, ApiError, ApiErrorView, ModelsError,
};
use crate::models::{OperationId, Wrapped};
use crate::sequences::queue;
use std::collections::VecDeque;
use vstd::prelude::*;

verus! {

/// An operation as a client sends it.
#[derive(PartialEq, Eq, Debug)]
pub struct OperationInput {
    /// The public key of the operation's creator.
    pub creator_public_key: Vec<u8>,
    /// The creator's signature of the operation.
    pub signature: Vec<u8>,
    /// The content of the operation, serialized.
    pub serialized_content: Vec<u8>,
}

/// What deserialization makes of some bytes: what is left of them, and the
/// operation; or an error, as text. `T` is the type of an operation's content.
pub type Deserialized<T> = Result<(Vec<u8>, Wrapped<OperationId, T>), String>;

/// The serialized form of an operation: the signature, the creator's public key
/// and the content, one after the other.
pub open spec fn serialized(input: OperationInput) -> Seq<u8> {
    input.signature@ + input.creator_public_key@ + input.serialized_content@
}

/// The identifiers of the operations, in order.
pub open spec fn ids_of<T>(operations: Seq<Wrapped<OperationId, T>>) -> Seq<OperationId> {
    operations.map_values(|operation: Wrapped<OperationId, T>| operation.id)
}

/// Where a request stands: what is to be done next, the inputs that come after
/// that, and the operations that passed so far.
#[verifier::ext_equal]
pub enum SubmissionView<T> {
    Deserialize {
        bytes: Seq<u8>,
        pending: Seq<OperationInput>,
        verified: Seq<Wrapped<OperationId, T>>,
    },
    VerifyIntegrity {
        operation: Wrapped<OperationId, T>,
        pending: Seq<OperationInput>,
        verified: Seq<Wrapped<OperationId, T>>,
    },
    Submit { operations: Seq<Wrapped<OperationId, T>>, ids: Seq<OperationId> },
    Reject(ApiErrorView),
}

/// Where a request stands before the first of its `pending` inputs is begun.
pub open spec fn next_submission<T>(
    pending: Seq<OperationInput>,
    verified: Seq<Wrapped<OperationId, T>>,
) -> SubmissionView<T> {
    if pending.len() == 0 {
        SubmissionView::Submit { operations: verified, ids: ids_of(verified) }
    } else {
        SubmissionView::Deserialize {
            bytes: serialized(pending[0]),
            pending: pending.drop_first(),
            verified,
        }
    }
}

/// Where a request stands once the bytes of an input were deserialized. The
/// operation has to take up all of them.
pub open spec fn after_deserialization<T>(
    outcome: Deserialized<T>,
    pending: Seq<OperationInput>,
    verified: Seq<Wrapped<OperationId, T>>,
) -> SubmissionView<T> {
    match outcome {
        Err(error) => SubmissionView::Reject(deserialize_error(error@)),
        Ok((rest, operation)) => if rest@.len() == 0 {
            SubmissionView::VerifyIntegrity { operation, pending, verified }
        } else {
            SubmissionView::Reject(
                deserialize_error("There is data left after operation deserialization"@),
            )
        },
    }
}

/// Where a request stands once the integrity of an operation was verified.
pub open spec fn after_verification<T>(
    outcome: Result<(), ApiError>,
    operation: Wrapped<OperationId, T>,
    pending: Seq<OperationInput>,
    verified: Seq<Wrapped<OperationId, T>>,
) -> SubmissionView<T> {
    match outcome {
        Err(error) => SubmissionView::Reject(error@),
        Ok(_) => next_submission(pending, verified.push(operation)),
    }
}

/// What to do next for a request.
pub enum SubmissionStep<T> {
    /// Deserialize an operation from the bytes.
    Deserialize(Vec<u8>, AwaitingDeserialization<T>),
    /// Verify the integrity of the operation that the state shows.
    VerifyIntegrity(AwaitingVerification<T>),
    /// Hand the operations to the pool, and answer the client with their
    /// identifiers.
    Submit(Vec<Wrapped<OperationId, T>>, Vec<OperationId>),
    /// Answer the client with the error.
    Reject(ApiError),
}

/// A request whose next operation is being deserialized.
pub struct AwaitingDeserialization<T> {
    pending: VecDeque<OperationInput>,
    verified: Vec<Wrapped<OperationId, T>>,
}

/// A request whose next operation is being verified.
pub struct AwaitingVerification<T> {
    operation: Wrapped<OperationId, T>,
    pending: VecDeque<OperationInput>,
    verified: Vec<Wrapped<OperationId, T>>,
}

impl<T> View for SubmissionStep<T> {
    type V = SubmissionView<T>;

    open spec fn view(&self) -> SubmissionView<T> {
        match self {
            SubmissionStep::Deserialize(bytes, state) => SubmissionView::Deserialize {
                bytes: bytes@,
                pending: state.pending(),
                verified: state.verified(),
            },
            SubmissionStep::VerifyIntegrity(state) => SubmissionView::VerifyIntegrity {
                operation: state.spec_operation(),
                pending: state.pending(),
                verified: state.verified(),
            },
            SubmissionStep::Submit(operations, ids) => SubmissionView::Submit {
                operations: operations@,
                ids: ids@,
            },
            SubmissionStep::Reject(error) => SubmissionView::Reject(error@),
        }
    }
}

impl<T> AwaitingDeserialization<T> {
    /// The inputs that come after the one that is being deserialized.
    pub closed spec fn pending(self) -> Seq<OperationInput> {
        self.pending@
    }

    /// The operations that passed so far.
    pub closed spec fn verified(self) -> Seq<Wrapped<OperationId, T>> {
        self.verified@
    }

    /// Goes on with what deserialization made of the bytes.
    pub fn deserialized(self, outcome: Deserialized<T>) -> (step: SubmissionStep<T>)
        ensures
            step@ == after_deserialization(outcome, self.pending(), self.verified()),
            outcome matches Err(error) ==> step == SubmissionStep::<T>::Reject(
                ApiError::ModelsError(ModelsError::DeserializeError(error)),
            ),
    {
        match outcome {
            Err(error) => SubmissionStep::Reject(
                ApiError::ModelsError(ModelsError::DeserializeError(error)),
            ),
            Ok((rest, operation)) => if rest.is_empty() {
                SubmissionStep::VerifyIntegrity(
                    AwaitingVerification {
                        operation,
                        pending: self.pending,
                        verified: self.verified,
                    },
                )
            } else {
                SubmissionStep::Reject(
                    ApiError::ModelsError(
                        ModelsError::DeserializeError(
                            "There is data left after operation deserialization".to_string(),
                        ),
                    ),
                )
            },
        }
    }
}

impl<T> AwaitingVerification<T> {
    /// The operation that is being verified.
    pub closed spec fn spec_operation(self) -> Wrapped<OperationId, T> {
        self.operation
    }

    /// The inputs that come after it.
    pub closed spec fn pending(self) -> Seq<OperationInput> {
        self.pending@
    }

    /// The operations that passed so far.
    pub closed spec fn verified(self) -> Seq<Wrapped<OperationId, T>> {
        self.verified@
    }

    /// The operation whose integrity is to be verified.
    pub fn operation(&self) -> (operation: &Wrapped<OperationId, T>)
        ensures
            *operation == self.spec_operation(),
    {
        &self.operation
    }

    /// Goes on with what the verification says.
    pub fn checked(self, outcome: Result<(), ApiError>) -> (step: SubmissionStep<T>)
        ensures
            step@ == after_verification(
                outcome,
                self.spec_operation(),
                self.pending(),
                self.verified(),
            ),
            outcome matches Err(error) ==> step == SubmissionStep::<T>::Reject(error),
    {
        match outcome {
            Err(error) => SubmissionStep::Reject(error),
            Ok(_) => {
                let mut verified = self.verified;
                verified.push(self.operation);
                advance(self.pending, verified)
            },
        }
    }
}

/// The serialized form of an operation.
fn serialize(input: OperationInput) -> (bytes: Vec<u8>)
    ensures
        bytes@ == serialized(input),
{
    let mut bytes = input.signature;
    let mut creator_public_key = input.creator_public_key;
    let mut serialized_content = input.serialized_content;
    bytes.append(&mut creator_public_key);
    bytes.append(&mut serialized_content);
    bytes
}

/// Takes the next input of a request, or submits what passed.
fn advance<T>(
    pending: VecDeque<OperationInput>,
    verified: Vec<Wrapped<OperationId, T>>,
) -> (step: SubmissionStep<T>)
    ensures
        step@ == next_submission(pending@, verified@),
{
    let mut rest = pending;
    match rest.pop_front() {
        Some(input) => {
            assert(rest@ =~= pending@.drop_first());
            SubmissionStep::Deserialize(
                serialize(input),
                AwaitingDeserialization { pending: rest, verified },
            )
        },
        None => {
            let mut ids: Vec<OperationId> = Vec::with_capacity(verified.len());
            let mut i: usize = 0;
            while i < verified.len()
                invariant
                    i <= verified@.len(),
                    ids@ =~= ids_of(verified@).take(i as int),
                decreases verified@.len() - i,
            {
                ids.push(verified[i].id);
                i += 1;
            }
            assert(ids@ =~= ids_of(verified@));
            SubmissionStep::Submit(verified, ids)
        },
    }
}

impl<Consensus, Execution, Selector, Pool, Network, Storage> API<
    Public<Consensus, Execution, Selector, Pool, Network, Storage>,
> {
    /// Begins the intake of operations.
    pub fn send_operations<T>(&self, ops: Vec<OperationInput>) -> (step: SubmissionStep<T>)
        ensures
            step@ == if ops@.len() > self.max_arguments() {
                SubmissionView::Reject(too_many_arguments())
            } else {
                next_submission::<T>(ops@, Seq::empty())
            },
    {
        if let Err(error) = check_arguments(ops.len(), self.0.api_settings.max_arguments) {
            return SubmissionStep::Reject(error);
        }
        advance(queue(ops), Vec::new())
    }
}

/// How many steps a request takes from `step` to its end, at most.
pub open spec fn steps_left<T>(step: SubmissionView<T>) -> nat {
    match step {
        SubmissionView::Deserialize { bytes, pending, verified } => 2 * pending.len() + 2,
        SubmissionView::VerifyIntegrity { operation, pending, verified } => 2 * pending.len() + 1,
        _ => 0,
    }
}

/// What a request does from `step` to its end: the bytes that it has
/// deserialized, and the step that ends it. `replies` holds, for each input in
/// order, what deserialization and what verification say of it.
pub open spec fn transcript<T>(
    step: SubmissionView<T>,
    replies: Seq<(Deserialized<T>, Result<(), ApiError>)>,
) -> (Seq<Seq<u8>>, SubmissionView<T>)
    decreases steps_left(step),
{
    match step {
        SubmissionView::Deserialize { bytes, pending, verified } => {
            let rest = transcript(
                after_deserialization(replies[0].0, pending, verified),
                replies,
            );
            (seq![bytes] + rest.0, rest.1)
        },
        SubmissionView::VerifyIntegrity { operation, pending, verified } => transcript(
            after_verification(replies[0].1, operation, pending, verified),
            replies.drop_first(),
        ),
        _ => (Seq::empty(), step),
    }
}

/// The error with which an input is rejected, or `None` if it passes.
pub open spec fn fault<T>(reply: (Deserialized<T>, Result<(), ApiError>)) -> Option<ApiErrorView> {
    match reply.0 {
        Err(error) => Some(deserialize_error(error@)),
        Ok((rest, operation)) => if rest@.len() > 0 {
            Some(deserialize_error("There is data left after operation deserialization"@))
        } else {
            match reply.1 {
                Err(error) => Some(error@),
                Ok(_) => None,
            }
        },
    }
}

/// The operations that deserialization found, in order.
pub open spec fn operations_of<T>(
    replies: Seq<(Deserialized<T>, Result<(), ApiError>)>,
) -> Seq<Wrapped<OperationId, T>> {
    replies.map_values(
        |reply: (Deserialized<T>, Result<(), ApiError>)| reply.0->Ok_0.1,
    )
}

/// When every operation passes, all of them are submitted, in the order in
/// which the client sent them, and the client gets their identifiers in that
/// order. What was deserialized is the serialized form of each.
pub proof fn law_valid_operations_are_submitted<T>(
    inputs: Seq<OperationInput>,
    replies: Seq<(Deserialized<T>, Result<(), ApiError>)>,
)
    requires
        replies.len() == inputs.len(),
        forall|i: int| 0 <= i < replies.len() ==> fault(#[trigger] replies[i]) is None,
    ensures
        ({
            let (bytes, end) = transcript(next_submission(inputs, Seq::empty()), replies);
            &&& bytes == inputs.map_values(|input: OperationInput| serialized(input))
            &&& end == SubmissionView::Submit {
                operations: operations_of(replies),
                ids: ids_of(operations_of(replies)),
            }
        }),
{
    lemma_transcript_without_fault(inputs, Seq::empty(), replies);
    assert(Seq::<Wrapped<OperationId, T>>::empty() + operations_of(replies) =~= operations_of(
        replies,
    ));
}

/// The first operation that does not pass rejects the whole request with its
/// error: nothing is submitted, whatever came before or comes after, and
/// nothing after it is looked at.
pub proof fn law_first_fault_rejects_the_request<T>(
    inputs: Seq<OperationInput>,
    replies: Seq<(Deserialized<T>, Result<(), ApiError>)>,
    first: int,
)
    requires
        replies.len() == inputs.len(),
        0 <= first < replies.len(),
        forall|i: int| 0 <= i < first ==> fault(#[trigger] replies[i]) is None,
        fault(replies[first]) is Some,
    ensures
        ({
            let (bytes, end) = transcript(next_submission(inputs, Seq::empty()), replies);
            &&& bytes == inputs.take(first + 1).map_values(
                |input: OperationInput| serialized(input),
            )
            &&& end == SubmissionView::<T>::Reject(fault(replies[first])->0)
        }),
{
    lemma_transcript_with_fault(inputs, Seq::empty(), replies, first);
}

/// What a request does with its pending inputs when all of them pass.
proof fn lemma_transcript_without_fault<T>(
    pending: Seq<OperationInput>,
    verified: Seq<Wrapped<OperationId, T>>,
    replies: Seq<(Deserialized<T>, Result<(), ApiError>)>,
)
    requires
        replies.len() == pending.len(),
        forall|i: int| 0 <= i < replies.len() ==> fault(#[trigger] replies[i]) is None,
    ensures
        ({
            let (bytes, end) = transcript(next_submission(pending, verified), replies);
            &&& bytes == pending.map_values(|input: OperationInput| serialized(input))
            &&& end == SubmissionView::Submit {
                operations: verified + operations_of(replies),
                ids: ids_of(verified + operations_of(replies)),
            }
        }),
    decreases pending.len(),
{
    reveal_with_fuel(transcript, 3);
    let (bytes, end) = transcript(next_submission(pending, verified), replies);
    if pending.len() == 0 {
        assert(verified + operations_of(replies) =~= verified);
    } else {
        assert(fault(replies[0]) is None);
        let passed = verified.push(replies[0].0->Ok_0.1);
        let rest = replies.drop_first();
        lemma_transcript_without_fault(pending.drop_first(), passed, rest);
        assert(passed + operations_of(rest) =~= verified + operations_of(replies));
    }
    assert(bytes =~= pending.map_values(|input: OperationInput| serialized(input)));
}

/// What a request does with its pending inputs when one of them does not pass.
proof fn lemma_transcript_with_fault<T>(
    pending: Seq<OperationInput>,
    verified: Seq<Wrapped<OperationId, T>>,
    replies: Seq<(Deserialized<T>, Result<(), ApiError>)>,
    first: int,
)
    requires
        replies.len() == pending.len(),
        0 <= first < replies.len(),
        forall|i: int| 0 <= i < first ==> fault(#[trigger] replies[i]) is None,
        fault(replies[first]) is Some,
    ensures
        ({
            let (bytes, end) = transcript(next_submission(pending, verified), replies);
            &&& bytes == pending.take(first + 1).map_values(
                |input: OperationInput| serialized(input),
            )
            &&& end == SubmissionView::<T>::Reject(fault(replies[first])->0)
        }),
    decreases pending.len(),
{
    reveal_with_fuel(transcript, 3);
    let (bytes, end) = transcript(next_submission(pending, verified), replies);
    if first > 0 {
        assert(fault(replies[0]) is None);
        let passed = verified.push(replies[0].0->Ok_0.1);
        lemma_transcript_with_fault(
            pending.drop_first(),
            passed,
            replies.drop_first(),
            first - 1,
        );
    }
    assert(bytes =~= pending.take(first + 1).map_values(
        |input: OperationInput| serialized(input),
    ));
}

/// What a request is told between two steps.
pub enum SubmissionReply<T> {
    /// What deserialization makes of the bytes.
    Deserialized(Deserialized<T>),
    /// What the verification of the operation's integrity says.
    Checked(Result<(), ApiError>),
}

/// Whether `next` comes of going on from `step` with `reply`.
pub open spec fn submission_goes_on<T>(
    step: SubmissionStep<T>,
    reply: SubmissionReply<T>,
    next: SubmissionStep<T>,
) -> bool {
    match (step, reply) {
        (
            SubmissionStep::Deserialize(_, state),
            SubmissionReply::Deserialized(outcome),
        ) => call_ensures(AwaitingDeserialization::<T>::deserialized, (state, outcome), next),
        (
            SubmissionStep::VerifyIntegrity(state),
            SubmissionReply::Checked(outcome),
        ) => call_ensures(AwaitingVerification::<T>::checked, (state, outcome), next),
        _ => false,
    }
}

/// Whether a request goes through `steps` to its end when it is told `replies`.
pub open spec fn is_submission_run<T>(
    steps: Seq<SubmissionStep<T>>,
    replies: Seq<SubmissionReply<T>>,
) -> bool {
    &&& steps.len() == replies.len() + 1
    &&& forall|k: int|
        0 <= k < replies.len() ==> submission_goes_on(
            steps[k],
            #[trigger] replies[k],
            steps[k + 1],
        )
    &&& steps.last() is Submit || steps.last() is Reject
}

/// Whether deserialization took up all the bytes and found `operation` in them.
spec fn found_operation<T>(
    reply: SubmissionReply<T>,
    operation: Wrapped<OperationId, T>,
) -> bool {
    reply matches SubmissionReply::Deserialized(Ok((rest, found))) && rest@.len() == 0 && found
        == operation
}

/// Whether a run through `steps` with `replies` takes `input` as the `i`th one, if
/// it comes so far: it has the signature, the public key and the content of the
/// input deserialized, one after the other; then it has the operation that was
/// found verified; and it goes on only if nothing went wrong.
spec fn takes_input<T>(
    input: OperationInput,
    i: int,
    steps: Seq<SubmissionStep<T>>,
    replies: Seq<SubmissionReply<T>>,
) -> bool {
    &&& 2 * i < replies.len() ==> {
        &&& steps[2 * i] matches SubmissionStep::Deserialize(bytes, _)
        &&& bytes@ == input.signature@ + input.creator_public_key@ + input.serialized_content@
    }
    &&& 2 * i + 1 < replies.len() ==> {
        &&& steps[2 * i + 1] matches SubmissionStep::VerifyIntegrity(state)
        &&& found_operation(replies[2 * i], state.spec_operation())
    }
    &&& 2 * i + 2 < replies.len() ==> replies[2 * i + 1] matches SubmissionReply::Checked(Ok(_))
}

/// Whether a run through `steps` with `replies` takes the inputs in turn, and
/// nothing else.
spec fn takes_inputs_in_turn<T>(
    inputs: Seq<OperationInput>,
    steps: Seq<SubmissionStep<T>>,
    replies: Seq<SubmissionReply<T>>,
) -> bool {
    &&& replies.len() <= 2 * inputs.len()
    &&& forall|i: int|
        0 <= i < inputs.len() ==> #[trigger] takes_input(inputs[i], i, steps, replies)
}

/// Whether `operation` was found in the `i`th input and verified.
spec fn passed_as<T>(
    operation: Wrapped<OperationId, T>,
    i: int,
    replies: Seq<SubmissionReply<T>>,
) -> bool {
    &&& found_operation(replies[2 * i], operation)
    &&& replies[2 * i + 1] matches SubmissionReply::Checked(Ok(_))
}

/// Whether a run that is told `replies` ends with exactly the operations that
/// were found in the `count` inputs after `verified`, in their order, each under
/// its own identifier, all of them found and verified.
spec fn ends_with_all<T>(
    count: nat,
    verified: Seq<Wrapped<OperationId, T>>,
    replies: Seq<SubmissionReply<T>>,
    operations: Seq<Wrapped<OperationId, T>>,
    ids: Seq<OperationId>,
) -> bool {
    &&& replies.len() == 2 * count
    &&& operations.len() == verified.len() + count
    &&& ids.len() == operations.len()
    &&& forall|i: int| 0 <= i < ids.len() ==> #[trigger] ids[i] == operations[i].id
    &&& forall|i: int| 0 <= i < verified.len() ==> #[trigger] operations[i] == verified[i]
    &&& forall|i: int|
        0 <= i < count ==> #[trigger] passed_as(operations[verified.len() + i], i, replies)
}

/// Whether `error` is the fault that `reply` reports: bytes that could not be
/// deserialized, bytes that were left over, or an operation without integrity.
spec fn is_fault<T>(reply: SubmissionReply<T>, error: ApiError) -> bool {
    match reply {
        SubmissionReply::Deserialized(Err(text)) => error == ApiError::ModelsError(
            ModelsError::DeserializeError(text),
        ),
        SubmissionReply::Deserialized(Ok((rest, _))) => {
            &&& rest@.len() > 0
            &&& error matches ApiError::ModelsError(ModelsError::DeserializeError(text))
            &&& text@ == "There is data left after operation deserialization"@
        },
        SubmissionReply::Checked(outcome) => outcome == Err::<(), ApiError>(error),
    }
}

/// What a run does with its first input.
proof fn lemma_first_input<T>(
    inputs: Seq<OperationInput>,
    verified: Seq<Wrapped<OperationId, T>>,
    steps: Seq<SubmissionStep<T>>,
    replies: Seq<SubmissionReply<T>>,
)
    requires
        is_submission_run(steps, replies),
        inputs.len() > 0,
        steps[0]@ == next_submission(inputs, verified),
    ensures
        replies.len() > 0,
        takes_input(inputs[0], 0, steps, replies),
        replies.len() > 2 || steps.last() is Submit ==> {
            &&& replies.len() >= 2
            &&& passed_as(replies[0]->Deserialized_0->Ok_0.1, 0, replies)
            &&& steps[2]@ == next_submission(
                inputs.drop_first(),
                verified.push(replies[0]->Deserialized_0->Ok_0.1),
            )
        },
        replies.len() <= 2 ==> (steps.last() matches SubmissionStep::Reject(error) ==> is_fault(
            replies.last(),
            error,
        )),
{
    assert(submission_goes_on(steps[0], replies[0], steps[1]));
    if replies.len() > 1 {
        assert(submission_goes_on(steps[1], replies[1], steps[2]));
        if replies.len() > 2 {
            assert(submission_goes_on(steps[2], replies[2], steps[3]));
        }
    }
}

/// What is so of a later part of a run is so of the run.
proof fn lemma_later_input<T>(
    input: OperationInput,
    i: int,
    steps: Seq<SubmissionStep<T>>,
    replies: Seq<SubmissionReply<T>>,
)
    requires
        i >= 1,
        replies.len() >= 2,
        steps.len() == replies.len() + 1,
        takes_input(input, i - 1, steps.skip(2), replies.skip(2)),
    ensures
        takes_input(input, i, steps, replies),
{
    let later_steps = steps.skip(2);
    let later_replies = replies.skip(2);
    if 2 * i < replies.len() {
        assert(later_steps[2 * (i - 1)] == steps[2 * i]);
        assert(later_replies[2 * (i - 1)] == replies[2 * i]);
    }
    if 2 * i + 1 < replies.len() {
        assert(later_steps[2 * (i - 1) + 1] == steps[2 * i + 1]);
        assert(later_replies[2 * (i - 1) + 1] == replies[2 * i + 1]);
    }
}

/// What a request does from its next input on.
proof fn lemma_submission_run<T>(
    inputs: Seq<OperationInput>,
    verified: Seq<Wrapped<OperationId, T>>,
    steps: Seq<SubmissionStep<T>>,
    replies: Seq<SubmissionReply<T>>,
)
    requires
        is_submission_run(steps, replies),
        steps[0]@ == next_submission(inputs, verified),
    ensures
        takes_inputs_in_turn(inputs, steps, replies),
        match steps.last() {
            SubmissionStep::Submit(operations, ids) => ends_with_all(
                inputs.len(),
                verified,
                replies,
                operations@,
                ids@,
            ),
            SubmissionStep::Reject(error) => replies.len() > 0 && is_fault(replies.last(), error),
            _ => false,
        },
    decreases inputs.len(),
{
    if inputs.len() == 0 {
        if replies.len() > 0 {
            assert(submission_goes_on(steps[0], replies[0], steps[1]));
        }
    } else {
        lemma_first_input(inputs, verified, steps, replies);
        if replies.len() > 2 || steps.last() is Submit {
            let passed = verified.push(replies[0]->Deserialized_0->Ok_0.1);
            let rest = inputs.drop_first();
            let later_steps = steps.skip(2);
            let later_replies = replies.skip(2);
            assert forall|k: int| 0 <= k < later_replies.len() implies submission_goes_on(
                later_steps[k],
                #[trigger] later_replies[k],
                later_steps[k + 1],
            ) by {
                assert(submission_goes_on(steps[k + 2], replies[k + 2], steps[k + 3]));
            }
            assert(later_steps.last() == steps.last());
            lemma_submission_run(rest, passed, later_steps, later_replies);
            assert forall|i: int| 0 <= i < inputs.len() implies #[trigger] takes_input(
                inputs[i],
                i,
                steps,
                replies,
            ) by {
                if i > 0 {
                    assert(takes_input(rest[i - 1], i - 1, later_steps, later_replies));
                    lemma_later_input(inputs[i], i, steps, replies);
                }
            }
            match steps.last() {
                SubmissionStep::Submit(operations, ids) => {
                    lemma_all_submitted(rest.len(), verified, replies, operations@, ids@);
                },
                _ => {
                    assert(later_replies.last() == replies.last());
                },
            }
        } else {
            assert forall|i: int| 0 <= i < inputs.len() implies #[trigger] takes_input(
                inputs[i],
                i,
                steps,
                replies,
            ) by {}
        }
    }
}

/// Where a later part of a run ends with all operations, so does the run.
proof fn lemma_all_submitted<T>(
    count: nat,
    verified: Seq<Wrapped<OperationId, T>>,
    replies: Seq<SubmissionReply<T>>,
    operations: Seq<Wrapped<OperationId, T>>,
    ids: Seq<OperationId>,
)
    requires
        replies.len() >= 2,
        passed_as(replies[0]->Deserialized_0->Ok_0.1, 0, replies),
        ends_with_all(
            count,
            verified.push(replies[0]->Deserialized_0->Ok_0.1),
            replies.skip(2),
            operations,
            ids,
        ),
    ensures
        ends_with_all(count + 1, verified, replies, operations, ids),
{
    let passed = verified.push(replies[0]->Deserialized_0->Ok_0.1);
    let later = replies.skip(2);
    assert(operations[verified.len() as int] == passed[verified.len() as int]);
    assert forall|i: int| 0 <= i < verified.len() implies #[trigger] operations[i]
        == verified[i] by {
        assert(operations[i] == passed[i]);
    }
    assert forall|i: int| 0 <= i < count + 1 implies #[trigger] passed_as(
        operations[verified.len() + i],
        i,
        replies,
    ) by {
        if i > 0 {
            assert(passed_as(operations[passed.len() + (i - 1)], i - 1, later));
            assert(later[2 * (i - 1)] == replies[2 * i]);
            assert(later[2 * (i - 1) + 1] == replies[2 * i + 1]);
        }
    }
}

/// However a request to take in operations goes, it takes the inputs in turn, the
/// `i`th one as the `i`th, and as the client sent them. It ends with a submission
/// only if every operation was found and verified, and then all of them are
/// submitted, in the order of the inputs, and the client gets their own
/// identifiers in that order. It is rejected only with the fault that the last
/// reply reports, or unread because there are more operations than the limit
/// allows.
pub proof fn law_operations_are_taken_in_as_they_are_sent<
    Consensus,
    Execution,
    Selector,
    Pool,
    Network,
    Storage,
    T,
>(
    api: API<Public<Consensus, Execution, Selector, Pool, Network, Storage>>,
    inputs: Vec<OperationInput>,
    steps: Seq<SubmissionStep<T>>,
    replies: Seq<SubmissionReply<T>>,
    i: int,
)
    requires
        is_submission_run(steps, replies),
        call_ensures(
            API::<
                Public<Consensus, Execution, Selector, Pool, Network, Storage>,
            >::send_operations::<
                T,
            >,
            (&api, inputs),
            steps[0],
        ),
    ensures
        inputs@.len() > api.0.api_settings.max_arguments ==> {
            &&& replies.len() == 0
            &&& steps.last() matches SubmissionStep::Reject(ApiError::TooManyArguments(text))
            &&& text@ == "too many arguments"@
        },
        inputs@.len() <= api.0.api_settings.max_arguments ==> {
            &&& replies.len() <= 2 * inputs@.len()
            &&& 0 <= i < inputs@.len() && 2 * i < replies.len() ==> {
                &&& steps[2 * i] matches SubmissionStep::Deserialize(bytes, _)
                &&& bytes@ == inputs@[i].signature@ + inputs@[i].creator_public_key@
                    + inputs@[i].serialized_content@
            }
            &&& 0 <= i < inputs@.len() && 2 * i + 1 < replies.len() ==> {
                &&& replies[2 * i] matches SubmissionReply::Deserialized(Ok((rest, found)))
                &&& rest@.len() == 0
                &&& steps[2 * i + 1] matches SubmissionStep::VerifyIntegrity(state)
                &&& forall|operation: &Wrapped<OperationId, T>| #[trigger]
                    call_ensures(AwaitingVerification::<T>::operation, (&state,), operation)
                        ==> *operation == found
            }
            &&& 0 <= i < inputs@.len() && 2 * i + 2 < replies.len() ==> (
            replies[2 * i + 1] matches SubmissionReply::Checked(Ok(_)))
            &&& steps.last() matches SubmissionStep::Submit(operations, ids) ==> {
                &&& replies.len() == 2 * inputs@.len()
                &&& operations@.len() == inputs@.len()
                &&& ids@.len() == inputs@.len()
                &&& 0 <= i < inputs@.len() ==> {
                    &&& replies[2 * i] matches SubmissionReply::Deserialized(Ok((rest, found)))
                    &&& rest@.len() == 0
                    &&& replies[2 * i + 1] matches SubmissionReply::Checked(Ok(_))
                    &&& operations@[i] == found
                    &&& ids@[i] == found.id
                }
            }
            &&& steps.last() matches SubmissionStep::Reject(error) ==> {
                &&& replies.len() > 0
                &&& match replies.last() {
                    SubmissionReply::Deserialized(Err(text)) => error == ApiError::ModelsError(
                        ModelsError::DeserializeError(text),
                    ),
                    SubmissionReply::Deserialized(Ok((rest, _))) => {
                        &&& rest@.len() > 0
                        &&& error matches ApiError::ModelsError(ModelsError::DeserializeError(text))
                        &&& text@ == "There is data left after operation deserialization"@
                    },
                    SubmissionReply::Checked(outcome) => outcome == Err::<(), ApiError>(error),
                }
            }
        },
{
    if inputs@.len() > api.0.api_settings.max_arguments {
        if replies.len() > 0 {
            assert(submission_goes_on(steps[0], replies[0], steps[1]));
        }
    } else {
        lemma_submission_run(inputs@, Seq::empty(), steps, replies);
        if 0 <= i < inputs@.len() {
            assert(takes_input(inputs@[i], i, steps, replies));
        }
        if let SubmissionStep::Submit(operations, ids) = steps.last() {
            let none = Seq::<Wrapped<OperationId, T>>::empty();
            if 0 <= i < inputs@.len() {
                assert(passed_as(operations@[none.len() + i], i, replies));
                assert(ids@[i] == operations@[i].id);
            }
        }
    }
}

} // verus!

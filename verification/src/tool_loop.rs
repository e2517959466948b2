//! The tool loop: model turns and tool executions in turn, until the model
//! answers without asking for a tool or the number of turns is used up.
//!
//! The loop is a state machine. The caller sends the request of the current
//! turn to the model and hands the response back; the machine executes the
//! tools, and says whether the loop has finished, goes on, or failed.

use crate::json::{json_text, member_seq, push_member, Json, JsonValue};
use crate::model::{
    valid_request, validate_request, validation, views,
    ChatRequest, ChatRequestView, ChatResponse, ChatResponseView, ForgeError, ForgeErrorView,
    Message, MessageView, Role, ToolCall, ToolCallView,
};
use crate::text::{concat3, decimal, decimal_string, owned};
use crate::tools::{outcome_view, ToolError, ToolErrorView, ToolExecutor, ToolOutcome};
use vstd::prelude::*;
use vstd::string::*;

verus! {

/// The number of turns of a loop for which the caller names none.
pub const DEFAULT_MAX_ITERATIONS: usize = 8;

/// How long a tool loop may run.
#[derive(Debug, Clone, Copy, PartialEq, Eq)]
pub struct ToolLoopOptions {
    pub max_iterations: usize,
}

impl Default for ToolLoopOptions {
    fn default() -> (r: Self)
        ensures
            r.max_iterations == DEFAULT_MAX_ITERATIONS,
    {
        ToolLoopOptions { max_iterations: DEFAULT_MAX_ITERATIONS }
    }
}

/// One executed tool call.
#[derive(Debug, PartialEq, Eq)]
pub struct ToolInvocation {
    pub call_id: String,
    pub name: String,
    pub input: Json,
    pub output: Json,
}

/// The outcome of a loop that finished.
#[derive(Debug, PartialEq, Eq)]
pub struct ToolLoopResult {
    pub final_response: ChatResponse,
    pub tool_invocations: Vec<ToolInvocation>,
    pub iterations: usize,
}

/// The mathematical value of a `ToolInvocation`.
pub struct ToolInvocationView {
    pub call_id: Seq<char>,
    pub name: Seq<char>,
    pub input: JsonValue,
    pub output: JsonValue,
}

/// The mathematical value of a `ToolLoopResult`.
pub struct ToolLoopResultView {
    pub final_response: ChatResponseView,
    pub tool_invocations: Seq<ToolInvocationView>,
    pub iterations: usize,
}

impl View for ToolInvocation {
    type V = ToolInvocationView;

    open spec fn view(&self) -> ToolInvocationView {
        ToolInvocationView {
            call_id: self.call_id@,
            name: self.name@,
            input: self.input@,
            output: self.output@,
        }
    }
}

impl View for ToolLoopResult {
    type V = ToolLoopResultView;

    open spec fn view(&self) -> ToolLoopResultView {
        ToolLoopResultView {
            final_response: self.final_response@,
            tool_invocations: views(self.tool_invocations@),
            iterations: self.iterations,
        }
    }
}

/// The state of a loop: the request of the current turn, the tool calls
/// executed so far, the number of the current turn, counted from 1, and the
/// number of turns allowed.
pub struct LoopState {
    pub request: ChatRequestView,
    pub invocations: Seq<ToolInvocationView>,
    pub iteration: usize,
    pub max_iterations: usize,
}

/// What a turn leads to.
pub enum TurnView {
    Finished(ToolLoopResultView),
    Continue(LoopState),
    Failed(ForgeErrorView),
}

/// The conversation and the record of a turn while its tools are executed,
/// and the error that stopped it, if any.
pub struct Round {
    pub messages: Seq<MessageView>,
    pub invocations: Seq<ToolInvocationView>,
    pub error: Option<ForgeErrorView>,
}

/// The error for an option with no turns.
pub open spec fn no_turns() -> ForgeErrorView {
    ForgeErrorView::Validation("max_iterations must be greater than 0"@)
}

/// The error for a failed tool.
pub open spec fn tool_failure(name: Seq<char>, error: ToolErrorView) -> ForgeErrorView {
    ForgeErrorView::Provider("tool '"@ + name + "' execution failed: "@ + error.message())
}

/// The error for a loop that used up its turns.
pub open spec fn turns_used_up(max_iterations: usize) -> ForgeErrorView {
    ForgeErrorView::Provider(
        "tool loop exceeded max iterations ("@ + decimal(max_iterations as nat) + ")"@,
    )
}

/// The reply to a tool call, as the next turn's prompt carries it.
pub open spec fn reply_payload(call: ToolCallView, output: JsonValue) -> JsonValue {
    JsonValue::Object(
        seq![
            ("tool_call_id"@, JsonValue::String(call.id)),
            ("name"@, JsonValue::String(call.name)),
            ("output"@, output),
        ],
    )
}

/// The tool message for an executed call.
pub open spec fn reply_message(call: ToolCallView, output: JsonValue) -> MessageView {
    MessageView { role: Role::Tool, content: json_text(reply_payload(call, output)) }
}

/// The record of an executed call.
pub open spec fn invocation(call: ToolCallView, output: JsonValue) -> ToolInvocationView {
    ToolInvocationView { call_id: call.id, name: call.name, input: call.arguments, output }
}

/// One tool call with what the executor answered: a record and a tool
/// message, or the error that stops the loop.
pub open spec fn record(round: Round, call: ToolCallView, outcome: ToolOutcome) -> Round {
    match outcome {
        Ok(output) => Round {
            messages: round.messages.push(reply_message(call, output)),
            invocations: round.invocations.push(invocation(call, output)),
            error: None,
        },
        Err(e) => Round { error: Some(tool_failure(call.name, e)), ..round },
    }
}

/// The tool calls of a turn in order, each with what the executor answered,
/// up to the first failure.
pub open spec fn tool_round(start: Round, calls: Seq<ToolCallView>, outcomes: Seq<ToolOutcome>) -> Round
    decreases calls.len(),
{
    if calls.len() == 0 {
        start
    } else {
        let before = tool_round(start, calls.drop_last(), outcomes.drop_last());
        if before.error is Some {
            before
        } else {
            record(before, calls.last(), outcomes.last())
        }
    }
}

/// Whether the executor gave the answers to the calls that were made: each
/// call up to the first failure, with its name and its arguments.
pub open spec fn answered<T: ToolExecutor>(
    tools: &T,
    calls: Seq<ToolCallView>,
    outcomes: Seq<ToolOutcome>,
) -> bool {
    forall|i: int|
        0 <= i < calls.len() && i < outcomes.len() && (forall|j: int|
            0 <= j < i ==> (#[trigger] outcomes[j]) is Ok) ==> tools.answers(
            (#[trigger] calls[i]).name,
            calls[i].arguments,
            outcomes[i],
        )
}

/// The assistant message that stands for a response in the next prompt.
pub open spec fn assistant_message(response: ChatResponseView) -> MessageView {
    MessageView { role: Role::Assistant, content: response.output_text }
}

/// One turn: a response without tool calls finishes the loop; else the
/// tools are executed, and the loop goes on unless a tool failed or the
/// turns are used up.
pub open spec fn turn(state: LoopState, response: ChatResponseView, outcomes: Seq<ToolOutcome>) -> TurnView {
    if response.tool_calls.len() == 0 {
        TurnView::Finished(
            ToolLoopResultView {
                final_response: response,
                tool_invocations: state.invocations,
                iterations: state.iteration,
            },
        )
    } else {
        let round = tool_round(
            Round {
                messages: state.request.messages.push(assistant_message(response)),
                invocations: state.invocations,
                error: None,
            },
            response.tool_calls,
            outcomes,
        );
        match round.error {
            Some(e) => TurnView::Failed(e),
            None => if state.iteration >= state.max_iterations {
                TurnView::Failed(turns_used_up(state.max_iterations))
            } else {
                TurnView::Continue(
                    LoopState {
                        request: ChatRequestView { messages: round.messages, ..state.request },
                        invocations: round.invocations,
                        iteration: (state.iteration + 1) as usize,
                        max_iterations: state.max_iterations,
                    },
                )
            },
        }
    }
}

/// The first state of a loop, or the objection to its request or options.
pub open spec fn start(request: ChatRequestView, options: ToolLoopOptions) -> Result<
    LoopState,
    ForgeErrorView,
> {
    match validation(request) {
        Err(e) => Err(e),
        Ok(()) => if options.max_iterations == 0 {
            Err(no_turns())
        } else {
            Ok(
                LoopState {
                    request,
                    invocations: Seq::empty(),
                    iteration: 1,
                    max_iterations: options.max_iterations,
                },
            )
        },
    }
}

/// Whether every tool of a turn gave an output.
pub open spec fn all_succeed(calls: Seq<ToolCallView>, outcomes: Seq<ToolOutcome>) -> bool {
    outcomes.len() == calls.len() && forall|i: int|
        0 <= i < outcomes.len() ==> (#[trigger] outcomes[i]) is Ok
}

/// The records of the tool calls of a turn whose tools all gave an output.
pub open spec fn turn_invocations(calls: Seq<ToolCallView>, outcomes: Seq<ToolOutcome>) -> Seq<
    ToolInvocationView,
> {
    Seq::new(calls.len(), |i: int| invocation(calls[i], outcomes[i]->Ok_0))
}

/// The records of the tool calls of several turns, in order.
pub open spec fn all_invocations(
    responses: Seq<ChatResponseView>,
    outcomes: Seq<Seq<ToolOutcome>>,
) -> Seq<ToolInvocationView>
    decreases responses.len(),
{
    if responses.len() == 0 {
        Seq::empty()
    } else {
        turn_invocations(responses[0].tool_calls, outcomes[0]) + all_invocations(
            responses.drop_first(),
            outcomes.drop_first(),
        )
    }
}

/// Several turns one after another, as long as the loop goes on.
pub open spec fn run_turns(
    state: LoopState,
    responses: Seq<ChatResponseView>,
    outcomes: Seq<Seq<ToolOutcome>>,
) -> TurnView
    decreases responses.len(),
{
    if responses.len() == 0 {
        TurnView::Continue(state)
    } else {
        match turn(state, responses[0], outcomes[0]) {
            TurnView::Continue(next) => run_turns(
                next,
                responses.drop_first(),
                outcomes.drop_first(),
            ),
            other => other,
        }
    }
}

proof fn lemma_round_succeeds(start: Round, calls: Seq<ToolCallView>, outcomes: Seq<ToolOutcome>)
    requires
        start.error is None,
        all_succeed(calls, outcomes),
    ensures
        tool_round(start, calls, outcomes).error is None,
        tool_round(start, calls, outcomes).invocations == start.invocations + turn_invocations(
            calls,
            outcomes,
        ),
    decreases calls.len(),
{
    if calls.len() == 0 {
        assert(start.invocations + turn_invocations(calls, outcomes) =~= start.invocations);
    } else {
        assert(all_succeed(calls.drop_last(), outcomes.drop_last())) by {
            assert forall|i: int| 0 <= i < outcomes.drop_last().len() implies (
            #[trigger] outcomes.drop_last()[i]) is Ok by {
                assert(outcomes.drop_last()[i] == outcomes[i]);
            }
        }
        lemma_round_succeeds(start, calls.drop_last(), outcomes.drop_last());
        assert(outcomes.last() == outcomes[outcomes.len() - 1]);
        assert(start.invocations + turn_invocations(calls, outcomes) =~= (start.invocations
            + turn_invocations(calls.drop_last(), outcomes.drop_last())).push(
            invocation(calls.last(), outcomes.last()->Ok_0),
        ));
    }
}

/// A response without tool calls ends the loop in the turn in which it
/// comes, with the records gathered so far; a loop that has just begun
/// ends in exactly one iteration.
pub proof fn lemma_tool_free_turn(
    state: LoopState,
    response: ChatResponseView,
    outcomes: Seq<ToolOutcome>,
)
    requires
        response.tool_calls.len() == 0,
    ensures
        turn(state, response, outcomes) == TurnView::Finished(
            ToolLoopResultView {
                final_response: response,
                tool_invocations: state.invocations,
                iterations: state.iteration,
            },
        ),
        forall|request: ChatRequestView, options: ToolLoopOptions|
            #[trigger] start(request, options) == Ok::<LoopState, ForgeErrorView>(state)
                ==> state.iteration == 1 && state.invocations.len() == 0,
{
}

/// After `k` turns that ask for tools, all of which give an output, a
/// response without tool calls ends the loop in `k + 1` turns, with one
/// record for each tool call, in order, provided that the turns are
/// allowed.
pub proof fn lemma_alternating_turns(
    state: LoopState,
    responses: Seq<ChatResponseView>,
    outcomes: Seq<Seq<ToolOutcome>>,
    last: ChatResponseView,
)
    requires
        outcomes.len() == responses.len(),
        state.iteration + responses.len() <= state.max_iterations,
        forall|i: int|
            0 <= i < responses.len() ==> (#[trigger] responses[i]).tool_calls.len() > 0
                && all_succeed(responses[i].tool_calls, outcomes[i]),
        last.tool_calls.len() == 0,
    ensures
        run_turns(state, responses.push(last), outcomes.push(Seq::empty())) matches TurnView::Finished(
            result,
        ) && result.final_response == last && result.iterations == state.iteration
            + responses.len() && result.tool_invocations == state.invocations + all_invocations(
            responses,
            outcomes,
        ),
    decreases responses.len(),
{
    let all = responses.push(last);
    let answers = outcomes.push(Seq::empty());
    if responses.len() == 0 {
        assert(all[0] == last);
        assert(state.invocations + all_invocations(responses, outcomes) =~= state.invocations);
    } else {
        let response = responses[0];
        assert(all[0] == response);
        assert(answers[0] == outcomes[0]);
        let first = Round {
            messages: state.request.messages.push(assistant_message(response)),
            invocations: state.invocations,
            error: None,
        };
        lemma_round_succeeds(first, response.tool_calls, outcomes[0]);
        let round = tool_round(first, response.tool_calls, outcomes[0]);
        let next = LoopState {
            request: ChatRequestView { messages: round.messages, ..state.request },
            invocations: round.invocations,
            iteration: (state.iteration + 1) as usize,
            max_iterations: state.max_iterations,
        };
        assert(turn(state, response, outcomes[0]) == TurnView::Continue(next));
        assert(all.drop_first() =~= responses.drop_first().push(last));
        assert(answers.drop_first() =~= outcomes.drop_first().push(Seq::empty()));
        assert forall|i: int| 0 <= i < responses.drop_first().len() implies (
        #[trigger] responses.drop_first()[i]).tool_calls.len() > 0 && all_succeed(
            responses.drop_first()[i].tool_calls,
            outcomes.drop_first()[i],
        ) by {
            assert(responses.drop_first()[i] == responses[i + 1]);
            assert(outcomes.drop_first()[i] == outcomes[i + 1]);
        }
        lemma_alternating_turns(next, responses.drop_first(), outcomes.drop_first(), last);
        assert((state.invocations + turn_invocations(response.tool_calls, outcomes[0]))
            + all_invocations(responses.drop_first(), outcomes.drop_first()) =~= state.invocations
            + all_invocations(responses, outcomes));
    }
}

/// A response that asks for tools in the last turn allowed fails the loop,
/// its turns being used up, even where every tool gives an output.
pub proof fn lemma_last_turn_fails(
    state: LoopState,
    response: ChatResponseView,
    outcomes: Seq<ToolOutcome>,
)
    requires
        state.iteration >= state.max_iterations,
        response.tool_calls.len() > 0,
        all_succeed(response.tool_calls, outcomes),
    ensures
        turn(state, response, outcomes) == TurnView::Failed(turns_used_up(state.max_iterations)),
{
    let first = Round {
        messages: state.request.messages.push(assistant_message(response)),
        invocations: state.invocations,
        error: None,
    };
    lemma_round_succeeds(first, response.tool_calls, outcomes);
}

/// A tool loop under way.
pub struct ToolLoop {
    request: ChatRequest,
    invocations: Vec<ToolInvocation>,
    iteration: usize,
    max_iterations: usize,
}

/// What a turn of a tool loop led to.
pub enum ToolLoopTurn {
    /// The model answered without asking for a tool.
    Finished(ToolLoopResult),
    /// The tools were executed; the loop goes on with the next turn.
    Continue(ToolLoop),
    /// A tool failed, or the turns are used up.
    Failed(ForgeError),
}

impl View for ToolLoop {
    type V = LoopState;

    closed spec fn view(&self) -> LoopState {
        LoopState {
            request: self.request@,
            invocations: views(self.invocations@),
            iteration: self.iteration,
            max_iterations: self.max_iterations,
        }
    }
}

impl View for ToolLoopTurn {
    type V = TurnView;

    open spec fn view(&self) -> TurnView {
        match self {
            ToolLoopTurn::Finished(result) => TurnView::Finished(result@),
            ToolLoopTurn::Continue(next) => TurnView::Continue(next@),
            ToolLoopTurn::Failed(e) => TurnView::Failed(e@),
        }
    }
}

/// The view of a new loop, or of the objection in its place.
pub open spec fn start_view(r: Result<ToolLoop, ForgeError>) -> Result<LoopState, ForgeErrorView> {
    match r {
        Ok(l) => Ok(l@),
        Err(e) => Err(e@),
    }
}

/// What a tool call with its answer adds to a turn: the record and the tool
/// message, or the error that stops the loop.
pub fn record_outcome(call: &ToolCall, outcome: Result<Json, ToolError>) -> (r: Result<
    (ToolInvocation, Message),
    ForgeError,
>)
    ensures
        match r {
            Ok((inv, message)) => outcome matches Ok(output) && inv@ == invocation(
                call@,
                output@,
            ) && message@ == reply_message(call@, output@),
            Err(e) => outcome matches Err(cause) && e@ == tool_failure(call@.name, cause@),
        },
{
    match outcome {
        Ok(output) => {
            let mut members: Vec<(String, Json)> = Vec::new();
            assert(member_seq(members@) =~= Seq::empty());
            push_member(&mut members, "tool_call_id", Json::String(call.id.clone()));
            push_member(&mut members, "name", Json::String(call.name.clone()));
            push_member(&mut members, "output", output.clone());
            let payload = Json::object(members);
            assert(payload@->Object_0 =~= reply_payload(call@, output@)->Object_0);
            let message = Message { role: Role::Tool, content: payload.to_text() };
            let inv = ToolInvocation {
                call_id: call.id.clone(),
                name: call.name.clone(),
                input: call.arguments.clone(),
                output,
            };
            Ok((inv, message))
        },
        Err(cause) => {
            let text = cause.message();
            let mut message = concat3("tool '", call.name.as_str(), "' execution failed: ");
            message.append(text.as_str());
            Err(ForgeError::Provider(message))
        },
    }
}

proof fn lemma_round_stops(
    start: Round,
    calls: Seq<ToolCallView>,
    outcomes: Seq<ToolOutcome>,
    k: int,
)
    requires
        0 <= k <= calls.len(),
        outcomes.len() == calls.len(),
        tool_round(start, calls.take(k), outcomes.take(k)).error is Some,
    ensures
        tool_round(start, calls, outcomes) == tool_round(start, calls.take(k), outcomes.take(k)),
    decreases calls.len() - k,
{
    if k == calls.len() {
        assert(calls.take(k) =~= calls);
        assert(outcomes.take(k) =~= outcomes);
    } else {
        assert(calls.take(k + 1).drop_last() =~= calls.take(k));
        assert(outcomes.take(k + 1).drop_last() =~= outcomes.take(k));
        lemma_round_stops(start, calls, outcomes, k + 1);
    }
}

impl ToolLoop {
    /// Begins a loop. The request must be valid and the options must allow
    /// at least one turn; else nothing is begun.
    pub fn start(request: ChatRequest, options: ToolLoopOptions) -> (r: Result<
        ToolLoop,
        ForgeError,
    >)
        ensures
            start_view(r) == start(request@, options),
            r is Ok <==> valid_request(request@) && options.max_iterations > 0,
            r matches Err(e) ==> e is Validation,
    {
        match validate_request(&request) {
            Err(e) => {
                return Err(e);
            },
            Ok(()) => {},
        }
        if options.max_iterations == 0 {
            return Err(ForgeError::Validation(owned("max_iterations must be greater than 0")));
        }
        let l = ToolLoop {
            request,
            invocations: Vec::new(),
            iteration: 1,
            max_iterations: options.max_iterations,
        };
        assert(l@.invocations =~= Seq::empty());
        Ok(l)
    }

    /// The request to send to the model in the current turn.
    pub fn request(&self) -> (r: ChatRequest)
        ensures
            r@ == self@.request,
    {
        self.request.clone()
    }

    /// The number of the current turn, counted from 1.
    pub fn iteration(&self) -> (r: usize)
        ensures
            r == self@.iteration,
    {
        self.iteration
    }

    /// Takes the model's response of the current turn. Without tool calls
    /// the loop is finished. Else the assistant's text and, for each tool
    /// call in order, the executor's output are added to the conversation;
    /// the first failing tool stops the loop, and so does the end of the
    /// last turn allowed.
    pub fn advance<T: ToolExecutor>(self, response: ChatResponse, tools: &T) -> (r: ToolLoopTurn)
        ensures
            exists|outcomes: Seq<ToolOutcome>|
                outcomes.len() == response@.tool_calls.len() && answered(
                    tools,
                    response@.tool_calls,
                    outcomes,
                ) && r@ == #[trigger] turn(self@, response@, outcomes),
            response@.tool_calls.len() == 0 ==> r@ == turn(self@, response@, Seq::empty()),
    {
        let mut this = self;
        if response.tool_calls.len() == 0 {
            let result = ToolLoopResult {
                final_response: response,
                tool_invocations: this.invocations,
                iterations: this.iteration,
            };
            let r = ToolLoopTurn::Finished(result);
            assert(r@ == turn(self@, response@, Seq::empty()));
            return r;
        }
        let ghost calls = response@.tool_calls;
        let ghost first = Round {
            messages: self@.request.messages.push(assistant_message(response@)),
            invocations: self@.invocations,
            error: None,
        };
        this.request.messages.push(
            Message { role: Role::Assistant, content: response.output_text.clone() },
        );
        assert(views(this.request.messages@) =~= first.messages);
        let ghost mut outcomes: Seq<ToolOutcome> = Seq::empty();
        let mut i: usize = 0;
        assert(calls.take(0) =~= Seq::empty());
        while i < response.tool_calls.len()
            invariant
                i <= response.tool_calls.len(),
                calls == views(response.tool_calls@),
                first == (Round {
                    messages: self@.request.messages.push(assistant_message(response@)),
                    invocations: self@.invocations,
                    error: None,
                }),
                outcomes.len() == i,
                forall|k: int| 0 <= k < i ==> (#[trigger] outcomes[k]) is Ok,
                forall|k: int|
                    0 <= k < i ==> tools.answers(
                        (#[trigger] calls[k]).name,
                        calls[k].arguments,
                        outcomes[k],
                    ),
                this.iteration == self@.iteration,
                this.max_iterations == self@.max_iterations,
                this.request@ == (ChatRequestView {
                    messages: views(this.request.messages@),
                    ..self@.request
                }),
                (Round {
                    messages: views(this.request.messages@),
                    invocations: views(this.invocations@),
                    error: None,
                }) == tool_round(first, calls.take(i as int), outcomes),
            decreases response.tool_calls.len() - i,
        {
            let call = &response.tool_calls[i];
            let answer = tools.call(call.name.as_str(), call.arguments.clone());
            let ghost before = tool_round(first, calls.take(i as int), outcomes);
            proof {
                assert(calls.take(i + 1).drop_last() =~= calls.take(i as int));
                assert(calls.take(i + 1).last() == call@);
                assert(calls[i as int] == call@);
                assert(outcomes.push(outcome_view(answer)).drop_last() =~= outcomes);
                outcomes = outcomes.push(outcome_view(answer));
            }
            match record_outcome(call, answer) {
                Ok((inv, message)) => {
                    this.invocations.push(inv);
                    this.request.messages.push(message);
                    assert(views(this.request.messages@) =~= before.messages.push(message@));
                    assert(views(this.invocations@) =~= before.invocations.push(inv@));
                },
                Err(e) => {
                    proof {
                        let failed = tool_round(first, calls.take(i + 1), outcomes);
                        assert(failed.error == Some(e@));
                        let rest = Seq::new(
                            (calls.len() - i - 1) as nat,
                            |k: int| Err::<JsonValue, ToolErrorView>(ToolErrorView::NotFound(Seq::empty())),
                        );
                        let full = outcomes + rest;
                        assert(full.take(i + 1) =~= outcomes);
                        lemma_round_stops(first, calls, full, i + 1);
                        assert(turn(self@, response@, full) == TurnView::Failed(e@));
                        assert(full[i as int] is Err);
                        assert forall|k: int|
                            0 <= k < calls.len() && k < full.len() && (forall|j: int|
                                0 <= j < k ==> (#[trigger] full[j]) is Ok) implies tools.answers(
                            (#[trigger] calls[k]).name,
                            calls[k].arguments,
                            full[k],
                        ) by {
                            if k > i {
                                assert(full[i as int] is Ok);
                            }
                            assert(full[k] == outcomes[k]);
                        }
                        assert(answered(tools, calls, full));
                    }
                    return ToolLoopTurn::Failed(e);
                },
            }
            i += 1;
        }
        assert(calls.take(response.tool_calls.len() as int) =~= calls);
        if this.iteration >= this.max_iterations {
            let count = decimal_string(this.max_iterations);
            let message = concat3("tool loop exceeded max iterations (", count.as_str(), ")");
            let r = ToolLoopTurn::Failed(ForgeError::Provider(message));
            assert(r@ == turn(self@, response@, outcomes));
            return r;
        }
        this.iteration = this.iteration + 1;
        let r = ToolLoopTurn::Continue(this);
        assert(r@ == turn(self@, response@, outcomes));
        r
    }
}

} // verus!

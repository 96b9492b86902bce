//! What holds of whole runs of a token stream, from its opening on.
use vstd::prelude::*;

use crate::engine::language_model::prefill;
use crate::engine::language_model::stream::{
    AcceptedToken, DecodingState, ForwardPassChaining, LanguageModelState, Phase, ResolvePoint,
    StreamAction, StreamEvent, StreamModel, StreamSettings,
};
use crate::engine::language_model::stream;
use crate::engine::language_model::stream_laws;

verus! {

/// What drives a stream on.
pub ghost enum StreamStep {
    /// A call of `generate` begins.
    Generate,
    /// The backend answers.
    Answer { event: StreamEvent },
    /// The backend has sampled a tree.
    Tree { accepted: Seq<AcceptedToken>, norm_bytes: Option<usize> },
}

/// The stream after a step, and what the backend does next.
pub open spec fn stepped(stream: StreamModel, step: StreamStep) -> (StreamModel, StreamAction) {
    match step {
        StreamStep::Generate => stream.generated(),
        StreamStep::Answer { event } => stream.resumed(event),
        StreamStep::Tree { accepted, norm_bytes } => stream.tree_sampled(
            accepted,
            norm_bytes,
            stream.control.phase->TreeSampling_capture,
        ),
    }
}

/// The step can be taken, and is not a failure that ends the call.
pub open spec fn allows(stream: StreamModel, step: StreamStep) -> bool {
    match step {
        StreamStep::Generate => {
            &&& stream.control.phase is Ready
            &&& stream.control.decoding_state !is Invalid
            &&& stream.control.metrics.num_tokens_returned < usize::MAX
        },
        StreamStep::Answer { event } => stream.expects(event) && stream_laws::succeeds(
            stream,
            event,
        ),
        StreamStep::Tree { accepted, .. } => stream.expects_tree(accepted),
    }
}

/// The stream behind all steps.
pub open spec fn after(stream: StreamModel, steps: Seq<StreamStep>) -> StreamModel
    decreases steps.len(),
{
    if steps.len() == 0 {
        stream
    } else {
        stepped(after(stream, steps.drop_last()), steps.last()).0
    }
}

/// What the last step asks of the backend.
pub open spec fn last_action(stream: StreamModel, steps: Seq<StreamStep>) -> StreamAction {
    stepped(after(stream, steps.drop_last()), steps.last()).1
}

/// The steps can be taken one after the other, and none fails.
pub open spec fn is_run(stream: StreamModel, steps: Seq<StreamStep>) -> bool
    decreases steps.len(),
{
    steps.len() > 0 ==> is_run(stream, steps.drop_last()) && allows(
        after(stream, steps.drop_last()),
        steps.last(),
    )
}

/// The tokens that were handed out.
pub open spec fn yielded(stream: StreamModel, steps: Seq<StreamStep>) -> Seq<u64>
    decreases steps.len(),
{
    if steps.len() == 0 {
        Seq::empty()
    } else {
        match last_action(stream, steps) {
            StreamAction::Return(Some(token)) => yielded(stream, steps.drop_last()).push(token),
            _ => yielded(stream, steps.drop_last()),
        }
    }
}

/// The prompt with the tokens before it, and what was handed out, in order.
pub open spec fn whole_history(stream: StreamModel) -> Seq<u64> {
    if stream.is_opening() {
        stream_laws::whole_context(stream)
    } else {
        stream.history()
    }
}

/// What a stream is admitted with.
pub open spec fn is_admissible(
    state: LanguageModelState,
    input: Seq<u64>,
    settings: StreamSettings,
) -> bool {
    &&& state.tokens@.len() + input.len() <= usize::MAX
    &&& settings.suffix_repetition_length matches Some(length) ==> 2 + length <= u32::MAX
    &&& input.len() == 0 ==> state.last_output_token is Some
    &&& !stream::lacks_seed(state, input)
    &&& !stream::overflows_context(state, input)
}

proof fn lemma_admitted(state: LanguageModelState, input: Seq<u64>, settings: StreamSettings)
    requires
        is_admissible(state, input, settings),
    ensures
        stream::admitted(state, input, settings).wf(),
        whole_history(stream::admitted(state, input, settings)) == state.tokens@ + input,
{
    let admitted = stream::admitted(state, input, settings);
    assert(input.skip(0) =~= input);
    assert(prefill::covered(admitted.parts, 0) == 0);
    if input.len() > 0 {
        prefill::law_parts_cover_the_prompt(input.len() as int, settings.split_logits_row);
        lemma_parts_are_few(admitted.parts, admitted.parts.len() as int);
    } else {
        assert(prefill::batch_count(0) == 0);
    }
}

proof fn lemma_parts_are_few(parts: Seq<prefill::PrefillPart>, count: int)
    requires
        prefill::parts_are_contiguous(parts),
        0 <= count <= parts.len(),
    ensures
        count <= prefill::covered(parts, count),
    decreases count,
{
    if count > 0 {
        lemma_parts_are_few(parts, count - 1);
        assert(parts[count - 1].start == prefill::covered(parts, count - 1));
    }
}

/// A step keeps a stream well formed.
proof fn lemma_step_is_wf(stream: StreamModel, step: StreamStep)
    requires
        stream.wf(),
        allows(stream, step),
    ensures
        stepped(stream, step).0.wf(),
{
    match step {
        StreamStep::Generate => {},
        StreamStep::Answer { event } => {
            stream::lemma_resumed_is_wf(stream, event);
        },
        StreamStep::Tree { accepted, norm_bytes } => {
            if let Some(bytes) = norm_bytes {
                stream::lemma_row_is_inside(
                    accepted.last().index as int,
                    stream.control.batch_size as int,
                    bytes as int,
                );
            }
        },
    }
}

proof fn lemma_run_is_wf(stream: StreamModel, steps: Seq<StreamStep>)
    requires
        stream.wf(),
        is_run(stream, steps),
    ensures
        after(stream, steps).wf(),
    decreases steps.len(),
{
    if steps.len() > 0 {
        lemma_run_is_wf(stream, steps.drop_last());
        lemma_step_is_wf(after(stream, steps.drop_last()), steps.last());
    }
}

/// A step hands out a token and appends it to the whole history, or keeps both.
proof fn lemma_step_extends_history(stream: StreamModel, step: StreamStep)
    requires
        stream.wf(),
        allows(stream, step),
    ensures
        ({
            let (next, action) = stepped(stream, step);
            match action {
                StreamAction::Return(Some(token)) => whole_history(next) == whole_history(
                    stream,
                ).push(token),
                _ => whole_history(next) == whole_history(stream),
            }
        }),
{
    match step {
        StreamStep::Generate => {
            stream_laws::law_generate_extends_history(stream);
        },
        StreamStep::Answer { event } => {
            if stream.is_opening() {
                lemma_opening_keeps_history(stream, event);
            } else {
                stream_laws::law_resume_extends_history(stream, event);
            }
        },
        StreamStep::Tree { accepted, norm_bytes } => {
            stream_laws::law_tree_extends_history(
                stream,
                accepted,
                norm_bytes,
                stream.control.phase->TreeSampling_capture,
            );
        },
    }
}

proof fn lemma_opening_keeps_history(stream: StreamModel, event: StreamEvent)
    requires
        stream.wf(),
        stream.is_opening(),
        stream.expects(event),
        event !is Failed,
    ensures
        stream.resumed(event).1 !is Return,
        whole_history(stream.resumed(event).0) == whole_history(stream),
{
    let next = stream.resumed(event).0;
    if stream.input.len() > 0 {
        stream_laws::law_prompt_is_recorded(stream, event);
        if stream.control.phase is OpenSubmit {
            assert(next.tokens + next.unrecorded() =~= next.tokens);
        }
    } else {
        lemma_parts_of_nothing(stream);
        assert(stream.tokens + stream.input.skip(0) =~= stream.tokens);
        assert(next.tokens + next.input.skip(0) =~= next.tokens);
        assert(next.tokens + next.unrecorded() =~= next.tokens);
    }
}

proof fn lemma_parts_of_nothing(stream: StreamModel)
    requires
        stream.wf(),
        stream.is_opening(),
        stream.input.len() == 0,
    ensures
        stream.parts.len() == 0,
        stream.control.parts_encoded == 0,
        prefill::covered(stream.parts, 0) == 0,
{
    assert(prefill::batch_count(0) == 0);
}

/// A stream that was admitted with a prompt behind the tokens of a model, that was run without a
/// failure and that is closed between two calls, leaves the model with those tokens, the prompt and
/// all tokens that it handed out, in order. None is lost, also where a speculated run of tokens was
/// handed out in part.
pub proof fn law_closed_stream_leaves_what_it_yielded(
    state: LanguageModelState,
    input: Seq<u64>,
    settings: StreamSettings,
    steps: Seq<StreamStep>,
)
    requires
        is_admissible(state, input, settings),
        is_run(stream::admitted(state, input, settings), steps),
        after(stream::admitted(state, input, settings), steps).control.phase is Ready,
    ensures
        ({
            let opened = stream::admitted(state, input, settings);
            let closed = after(opened, steps);
            closed.wf() && closed.tokens + closed.unrecorded() == state.tokens@ + input + yielded(
                opened,
                steps,
            )
        }),
{
    let opened = stream::admitted(state, input, settings);
    let closed = after(opened, steps);
    lemma_admitted(state, input, settings);
    lemma_run_is_wf(opened, steps);
    lemma_run_extends_history(opened, steps);
    stream_laws::law_closing_loses_no_token(closed, 0);
}

proof fn lemma_run_extends_history(stream: StreamModel, steps: Seq<StreamStep>)
    requires
        stream.wf(),
        is_run(stream, steps),
    ensures
        whole_history(after(stream, steps)) == whole_history(stream) + yielded(stream, steps),
    decreases steps.len(),
{
    if steps.len() > 0 {
        let front = steps.drop_last();
        lemma_run_is_wf(stream, front);
        lemma_run_extends_history(stream, front);
        lemma_step_extends_history(after(stream, front), steps.last());
        assert(whole_history(after(stream, steps)) =~= whole_history(stream) + yielded(
            stream,
            steps,
        ));
    } else {
        assert(whole_history(stream) + Seq::<u64>::empty() =~= whole_history(stream));
    }
}

/// The steps are the beginning of one call of `generate`: the first begins it, and no other does.
pub open spec fn begins_call(stream: StreamModel, steps: Seq<StreamStep>) -> bool {
    &&& is_run(stream, steps)
    &&& steps.len() > 0
    &&& steps[0] is Generate
    &&& forall|i: int| 0 < i < steps.len() ==> #[trigger] steps[i] !is Generate
}

/// The steps are one whole call of `generate`.
pub open spec fn is_call(stream: StreamModel, steps: Seq<StreamStep>) -> bool {
    begins_call(stream, steps) && last_action(stream, steps) is Return
}

proof fn lemma_call_is_shortened(stream: StreamModel, steps: Seq<StreamStep>)
    requires
        begins_call(stream, steps),
        steps.len() > 1,
    ensures
        begins_call(stream, steps.drop_last()),
        steps.last() !is Generate,
        allows(after(stream, steps.drop_last()), steps.last()),
{
    assert(steps.last() == steps[steps.len() - 1]);
    assert forall|i: int| 0 < i < steps.len() - 1 implies #[trigger] steps.drop_last()[i]
        !is Generate by {
        assert(steps.drop_last()[i] == steps[i]);
    }
}

/// The call ends where it returns, and only then, and a token that is handed out is counted.
pub open spec fn ends_call(before: StreamModel, next: StreamModel, action: StreamAction) -> bool {
    &&& action is Return <==> next.control.phase is Ready
    &&& stream_laws::is_open(next)
    &&& next.control.max_context_length == before.control.max_context_length
    &&& stream_laws::returned_by_ended_calls(next) == stream_laws::returned_by_ended_calls(before)
        + match action {
        StreamAction::Return(Some(_)) => 1int,
        _ => 0int,
    }
}

proof fn lemma_step_ends_call(stream: StreamModel, step: StreamStep)
    requires
        stream.wf(),
        stream_laws::is_open(stream),
        allows(stream, step),
    ensures
        ends_call(stream, stepped(stream, step).0, stepped(stream, step).1),
{
    match step {
        StreamStep::Generate => {},
        StreamStep::Answer { event } => {
            lemma_answer_ends_call(stream, event);
        },
        StreamStep::Tree { accepted, norm_bytes } => {},
    }
}

#[verifier::rlimit(40)]
proof fn lemma_answer_ends_call(stream: StreamModel, event: StreamEvent)
    requires
        stream.wf(),
        stream_laws::is_open(stream),
        stream.expects(event),
        stream_laws::succeeds(stream, event),
    ensures
        ends_call(stream, stream.resumed(event).0, stream.resumed(event).1),
{
}

/// A call that has not returned has handed out nothing; one that has, has handed out its token.
proof fn lemma_call_yields_at_its_end(stream: StreamModel, steps: Seq<StreamStep>)
    requires
        stream.wf(),
        stream_laws::is_open(stream),
        begins_call(stream, steps),
    ensures
        ({
            let next = after(stream, steps);
            &&& next.wf()
            &&& stream_laws::is_open(next)
            &&& next.control.max_context_length == stream.control.max_context_length
            &&& next.control.phase is Ready <==> last_action(stream, steps) is Return
            &&& yielded(stream, steps) == match last_action(stream, steps) {
                StreamAction::Return(Some(token)) => seq![token],
                _ => Seq::empty(),
            }
            &&& stream_laws::returned_by_ended_calls(next) == stream_laws::returned_by_ended_calls(
                stream,
            ) + yielded(stream, steps).len()
        }),
    decreases steps.len(),
{
    let front = steps.drop_last();
    lemma_run_is_wf(stream, steps);
    if steps.len() == 1 {
        assert(front =~= Seq::empty());
        assert(yielded(stream, front) == Seq::<u64>::empty());
        lemma_step_ends_call(stream, steps.last());
    } else {
        lemma_call_is_shortened(stream, steps);
        lemma_run_is_wf(stream, front);
        lemma_call_yields_at_its_end(stream, front);
        assert(after(stream, front).control.phase !is Ready);
        lemma_step_ends_call(after(stream, front), steps.last());
    }
    assert(yielded(stream, steps) =~= match last_action(stream, steps) {
        StreamAction::Return(Some(token)) => seq![token],
        _ => Seq::empty(),
    });
}

/// A call that hands out a token raises the count of returned tokens by one; a call that ends the
/// stream leaves it.
pub proof fn law_call_counts_its_token(stream: StreamModel, steps: Seq<StreamStep>)
    requires
        stream.wf(),
        stream_laws::is_open(stream),
        is_call(stream, steps),
    ensures
        after(stream, steps).control.metrics.num_tokens_returned
            == stream.control.metrics.num_tokens_returned + match last_action(stream, steps) {
            StreamAction::Return(Some(_)) => 1int,
            _ => 0int,
        },
{
    lemma_call_yields_at_its_end(stream, steps);
    lemma_call_begins_ready(stream, steps);
}

proof fn lemma_call_begins_ready(stream: StreamModel, steps: Seq<StreamStep>)
    requires
        begins_call(stream, steps),
    ensures
        stream.control.phase is Ready,
        stream.control.decoding_state !is Invalid,
    decreases steps.len(),
{
    if steps.len() == 1 {
        assert(steps.drop_last() =~= Seq::empty());
    } else {
        lemma_call_is_shortened(stream, steps);
        lemma_call_begins_ready(stream, steps.drop_last());
    }
}

/// The backend answers a token in flight, and the root of a sampled tree, with `sampled`.
pub open spec fn samples(step: StreamStep, sampled: u32) -> bool {
    match step {
        StreamStep::Answer { event: StreamEvent::Token(token) } => token == sampled,
        StreamStep::Tree { accepted, .. } => accepted[0].output == sampled,
        _ => true,
    }
}

/// The token that the running call returns, where the backend has sampled `sampled`.
pub open spec fn promised(stream: StreamModel, sampled: u32) -> Option<u64> {
    match stream.control.phase {
        Phase::Ready => stream.pending_token(sampled),
        Phase::SeedGrammar { token } => Some(token),
        Phase::TreeSampling { .. } => Some(sampled as u64),
        Phase::AcceptEncoding { .. } => Some(stream.accepted.last().output),
        _ => match stream.control.chaining {
            ForwardPassChaining::Constant { token, .. } => Some(token),
            ForwardPassChaining::InFlight { .. } => Some(sampled as u64),
        },
    }
}

proof fn lemma_step_keeps_promise(stream: StreamModel, step: StreamStep, sampled: u32)
    requires
        stream.wf(),
        stream_laws::is_open(stream),
        allows(stream, step),
        samples(step, sampled),
    ensures
        match stepped(stream, step).1 {
            StreamAction::Return(token) => token == promised(stream, sampled),
            _ => promised(stepped(stream, step).0, sampled) == promised(stream, sampled),
        },
{
    match step {
        StreamStep::Generate => {},
        StreamStep::Answer { event } => {
            lemma_answer_keeps_promise(stream, event, sampled);
        },
        StreamStep::Tree { accepted, norm_bytes } => {},
    }
}

proof fn lemma_answer_keeps_promise(stream: StreamModel, event: StreamEvent, sampled: u32)
    requires
        stream.wf(),
        stream_laws::is_open(stream),
        stream.expects(event),
        stream_laws::succeeds(stream, event),
        event matches StreamEvent::Token(token) ==> token == sampled,
    ensures
        match stream.resumed(event).1 {
            StreamAction::Return(token) => token == promised(stream, sampled),
            _ => promised(stream.resumed(event).0, sampled) == promised(stream, sampled),
        },
{
}

/// The token that a closed stream keeps for the next one is the token that the next call would have
/// handed out, whatever the backend samples; a stream that has halted keeps none, and its next call
/// hands out none.
pub proof fn law_next_call_yields_the_kept_token(
    stream: StreamModel,
    steps: Seq<StreamStep>,
    sampled: u32,
)
    requires
        stream.wf(),
        stream_laws::is_open(stream),
        is_call(stream, steps),
        forall|i: int| 0 <= i < steps.len() ==> samples(#[trigger] steps[i], sampled),
    ensures
        last_action(stream, steps) == StreamAction::Return(stream.pending_token(sampled)),
{
    lemma_call_begins_ready(stream, steps);
    lemma_call_keeps_promise(stream, steps, sampled);
}

proof fn lemma_call_keeps_promise(stream: StreamModel, steps: Seq<StreamStep>, sampled: u32)
    requires
        stream.wf(),
        stream_laws::is_open(stream),
        begins_call(stream, steps),
        forall|i: int| 0 <= i < steps.len() ==> samples(#[trigger] steps[i], sampled),
    ensures
        match last_action(stream, steps) {
            StreamAction::Return(token) => token == promised(stream, sampled),
            _ => promised(after(stream, steps), sampled) == promised(stream, sampled),
        },
    decreases steps.len(),
{
    let front = steps.drop_last();
    assert(samples(steps[steps.len() - 1], sampled));
    if steps.len() == 1 {
        assert(front =~= Seq::empty());
        lemma_step_keeps_promise(stream, steps.last(), sampled);
    } else {
        lemma_call_is_shortened(stream, steps);
        lemma_call_yields_at_its_end(stream, front);
        assert forall|i: int| 0 <= i < front.len() implies samples(#[trigger] front[i], sampled) by {
            assert(front[i] == steps[i]);
        }
        lemma_call_keeps_promise(stream, front, sampled);
        assert(after(stream, front).control.phase !is Ready);
        lemma_step_keeps_promise(after(stream, front), steps.last(), sampled);
    }
}

/// The backend is to work on a new forward pass.
pub open spec fn is_pass(action: StreamAction) -> bool {
    action is QueryShape || action is ProposeTree || action is EncodePass || action is FinishPass
}

/// No step asks the backend for a new forward pass.
pub open spec fn runs_no_pass(stream: StreamModel, steps: Seq<StreamStep>) -> bool
    decreases steps.len(),
{
    steps.len() > 0 ==> runs_no_pass(stream, steps.drop_last()) && !is_pass(
        last_action(stream, steps),
    )
}

/// The backend answered that the context is full.
pub open spec fn meets_full_context(stream: StreamModel, steps: Seq<StreamStep>) -> bool
    decreases steps.len(),
{
    &&& steps.len() > 0
    &&& meets_full_context(stream, steps.drop_last()) || (steps.last() matches StreamStep::Answer {
        event: StreamEvent::Context(context_length),
    } && (stream.control.max_context_length matches Some(limit) && context_length >= limit))
}

/// The running call does not know the length of the context yet.
pub open spec fn is_early(stream: StreamModel) -> bool {
    match stream.control.phase {
        Phase::SeedGrammar { .. } | Phase::TreeSampling { .. } | Phase::AcceptEncoding { .. }
        | Phase::ContextLength => true,
        _ => false,
    }
}

/// The running call only waits for its last token.
pub open spec fn is_halting(stream: StreamModel) -> bool {
    &&& stream.control.decoding_state is Halted
    &&& match stream.control.phase {
        Phase::Ready | Phase::Resolving { point: ResolvePoint::Halt } | Phase::GrammarAccepting {
            point: ResolvePoint::Halt,
        } => true,
        _ => false,
    }
}

proof fn lemma_step_in_call(stream: StreamModel, step: StreamStep)
    requires
        stream.wf(),
        stream_laws::is_open(stream),
        allows(stream, step),
    ensures
        ({
            let (next, action) = stepped(stream, step);
            let same_passes = next.control.metrics.num_decode_forward_passes
                == stream.control.metrics.num_decode_forward_passes;
            &&& is_early(next) ==> (is_early(stream) || step is Generate) && !is_pass(action)
                && same_passes
            &&& is_halting(stream) && step !is Generate ==> is_halting(next) && !is_pass(action)
                && same_passes && (action is Return ==> action->Return_0 is Some)
            &&& (step matches StreamStep::Answer { event: StreamEvent::Context(context_length) }
                && (stream.control.max_context_length matches Some(limit) && context_length
                >= limit)) ==> is_early(stream) && is_halting(next) && !is_pass(action)
                && same_passes && (action is Return ==> action->Return_0 is Some)
        }),
{
}

proof fn lemma_early_call_runs_no_pass(stream: StreamModel, steps: Seq<StreamStep>)
    requires
        stream.wf(),
        stream_laws::is_open(stream),
        begins_call(stream, steps),
        is_early(after(stream, steps)),
    ensures
        runs_no_pass(stream, steps),
        after(stream, steps).control.metrics.num_decode_forward_passes
            == stream.control.metrics.num_decode_forward_passes,
    decreases steps.len(),
{
    let front = steps.drop_last();
    if steps.len() == 1 {
        assert(front =~= Seq::empty());
        assert(runs_no_pass(stream, front));
        lemma_step_in_call(stream, steps.last());
    } else {
        lemma_call_is_shortened(stream, steps);
        lemma_call_yields_at_its_end(stream, front);
        lemma_step_in_call(after(stream, front), steps.last());
        lemma_early_call_runs_no_pass(stream, front);
    }
}

proof fn lemma_full_context(stream: StreamModel, steps: Seq<StreamStep>)
    requires
        stream.wf(),
        stream_laws::is_open(stream),
        begins_call(stream, steps),
        meets_full_context(stream, steps),
    ensures
        runs_no_pass(stream, steps),
        is_halting(after(stream, steps)),
        last_action(stream, steps) is Return ==> last_action(stream, steps)->Return_0 is Some,
        after(stream, steps).control.metrics.num_decode_forward_passes
            == stream.control.metrics.num_decode_forward_passes,
    decreases steps.len(),
{
    let front = steps.drop_last();
    if steps.len() == 1 {
        assert(!meets_full_context(stream, front));
        assert(steps.last() == steps[0]);
    } else {
        lemma_call_is_shortened(stream, steps);
        lemma_call_yields_at_its_end(stream, front);
        lemma_step_in_call(after(stream, front), steps.last());
        if meets_full_context(stream, front) {
            lemma_full_context(stream, front);
        } else {
            lemma_early_call_runs_no_pass(stream, front);
        }
    }
}

/// A call that finds the context full hands out its token and runs no new forward pass. The call
/// behind it ends the stream, and changes neither the tokens nor the counts.
pub proof fn law_full_context_ends_the_stream(stream: StreamModel, steps: Seq<StreamStep>)
    requires
        stream.wf(),
        stream_laws::is_open(stream),
        is_call(stream, steps),
        meets_full_context(stream, steps),
    ensures
        runs_no_pass(stream, steps),
        after(stream, steps).control.metrics.num_decode_forward_passes
            == stream.control.metrics.num_decode_forward_passes,
        last_action(stream, steps)->Return_0 is Some,
        ({
            let (next, action) = after(stream, steps).generated();
            &&& action == StreamAction::Return(None)
            &&& next.tokens == after(stream, steps).tokens
            &&& next.control.metrics == after(stream, steps).control.metrics
        }),
{
    lemma_full_context(stream, steps);
    lemma_call_yields_at_its_end(stream, steps);
}

} // verus!

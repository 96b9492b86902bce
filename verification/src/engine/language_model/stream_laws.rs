//! What holds of a token stream over several steps.
use vstd::prelude::*;

use crate::engine::language_model::prefill;
use crate::engine::language_model::stream::{
    AcceptedToken, CloseAction, DecodingState, LanguageModelState, Phase,
    ResolvePoint, StreamAction, StreamEvent, StreamModel, StreamSettings,
};
use crate::engine::language_model::stream;

verus! {

/// A call that ended by handing out `token`, or that still runs, left the history as it should.
pub open spec fn follows(before: StreamModel, after: StreamModel, action: StreamAction) -> bool {
    match action {
        StreamAction::Return(Some(token)) => after.history() == before.history().push(token),
        _ => after.history() == before.history(),
    }
}

/// The stream is open: no prompt is being encoded.
pub open spec fn is_open(stream: StreamModel) -> bool {
    !stream.is_opening() && stream.control.phase !is Abandoned
}

/// The event is not a failure that ends the call.
pub open spec fn succeeds(stream: StreamModel, event: StreamEvent) -> bool {
    event is Failed ==> stream.control.phase is SeedGrammar
}

/// Beginning a call of `generate` keeps the history, or hands out one token and appends it.
pub proof fn law_generate_extends_history(before: StreamModel)
    requires
        before.wf(),
        before.control.phase is Ready,
        before.control.decoding_state !is Invalid,
    ensures
        follows(before, before.generated().0, before.generated().1),
{
    let (after, action) = before.generated();
    match before.control.decoding_state {
        DecodingState::Seeded { seed_token } => {
            assert(after.tokens.drop_last() =~= before.tokens);
            assert(before.tokens + before.unrecorded() =~= before.tokens);
        },
        DecodingState::Accepting { num_accepted, .. } => {
            lemma_accepting(before, num_accepted as int);
            assert(after.history() =~= match action {
                StreamAction::Return(Some(token)) => before.history().push(token),
                _ => before.history(),
            });
        },
        _ => {},
    }
}

proof fn lemma_accepting(stream: StreamModel, count: int)
    requires
        0 <= count < stream.accepted.len(),
    ensures
        stream::outputs(stream.accepted, count + 1) == stream::outputs(stream.accepted, count).push(
            stream.accepted[count].output,
        ),
{
    assert(stream::outputs(stream.accepted, count + 1) =~= stream::outputs(
        stream.accepted,
        count,
    ).push(stream.accepted[count].output));
}

/// Walking a sampled tree keeps the history, or hands out one token and appends it.
pub proof fn law_tree_extends_history(
    before: StreamModel,
    accepted: Seq<AcceptedToken>,
    norm_bytes: Option<usize>,
    capture: bool,
)
    requires
        before.wf(),
        before.expects_tree(accepted),
    ensures
        follows(
            before,
            before.tree_sampled(accepted, norm_bytes, capture).0,
            before.tree_sampled(accepted, norm_bytes, capture).1,
        ),
{
    let (after, action) = before.tree_sampled(accepted, norm_bytes, capture);
    assert(before.tokens + before.unrecorded() =~= before.tokens);
    if accepted.len() == 1 {
        assert(after.history() =~= before.tokens);
    } else {
        assert(after.history() =~= before.tokens.push(accepted[0].output));
    }
}

/// Every answer of the backend keeps the history, or ends the call with one token and appends it:
/// the tokens that `generate` returns are the growth of the history, in order and without a gap.
pub proof fn law_resume_extends_history(before: StreamModel, event: StreamEvent)
    requires
        before.wf(),
        before.expects(event),
        succeeds(before, event),
        is_open(before),
    ensures
        follows(before, before.resumed(event).0, before.resumed(event).1),
{
    let (after, action) = before.resumed(event);
    match before.control.phase {
        Phase::AcceptEncoding { .. } => {
            let count = before.accepted.len() as int;
            lemma_accepting(before, count - 1);
            assert(after.tokens.drop_last() =~= before.tokens + stream::outputs(
                before.accepted,
                count - 1,
            ));
        },
        Phase::Resolving { point } => {
            assert(after.tokens.drop_last() =~= before.tokens);
            assert(before.tokens + before.unrecorded() =~= before.tokens);
            assert(after.tokens + after.unrecorded() =~= after.tokens);
        },
        _ => {
            lemma_chaining_extends_history(before, event);
        },
    }
}

proof fn lemma_chaining_extends_history(before: StreamModel, event: StreamEvent)
    requires
        before.wf(),
        before.expects(event),
        succeeds(before, event),
        is_open(before),
        before.control.phase !is AcceptEncoding,
        before.control.phase !is Resolving,
    ensures
        follows(before, before.resumed(event).0, before.resumed(event).1),
{
    let (after, action) = before.resumed(event);
    assert(after.tokens == before.tokens);
    assert(before.tokens + before.unrecorded() =~= before.tokens);
    assert(after.tokens + after.unrecorded() =~= after.tokens);
    if before.known_token() is Some {
        assert(before.tokens =~= before.tokens.drop_last().push(before.tokens.last()));
    }
}

/// Once the token of a call is known, the call hands out that token or goes on with it.
pub proof fn law_known_token_is_returned(before: StreamModel, event: StreamEvent)
    requires
        before.wf(),
        before.expects(event),
        succeeds(before, event),
        before.known_token() is Some,
    ensures
        before.resumed(event).1 == StreamAction::Return(before.known_token()) || (
        before.resumed(event).0.known_token() == before.known_token()
            && before.resumed(event).1 !is Return && before.resumed(event).1 !is Fail),
{
}

/// The tokens, and behind them what of the prompt is not yet encoded.
pub open spec fn whole_context(stream: StreamModel) -> Seq<u64> {
    stream.tokens + stream.input.skip(
        prefill::covered(stream.parts, stream.control.parts_encoded as int),
    )
}

/// While a prompt is encoded, the tokens grow by it part by part: tokens and rest together stay the
/// same until the prefill is submitted, and then there is no rest.
pub proof fn law_prompt_is_recorded(before: StreamModel, event: StreamEvent)
    requires
        before.wf(),
        before.expects(event),
        event !is Failed,
        before.is_opening(),
        before.input.len() > 0,
    ensures
        before.control.phase !is OpenSubmit ==> before.resumed(event).1 !is Opened && whole_context(
            before.resumed(event).0,
        ) == whole_context(before),
        before.control.phase is OpenSubmit ==> before.resumed(event).1 is Opened
            && before.resumed(event).0.tokens == whole_context(before),
{
    if before.control.phase is OpenPart {
        assert(before.resumed(event) == before.part_encoded());
        lemma_part_keeps_context(before);
    } else if before.control.phase is OpenSubmit {
        assert(before.resumed(event).1 is Opened && before.resumed(event).0.tokens
            == before.tokens);
        lemma_submitted_prompt_is_whole(before);
    } else {
        lemma_opening_keeps_tokens(before, event);
    }
}

proof fn lemma_part_keeps_context(before: StreamModel)
    requires
        before.wf(),
        before.control.phase is OpenPart,
    ensures
        whole_context(before.part_encoded().0) == whole_context(before),
        before.part_encoded().1 !is Opened,
{
    let index = before.control.parts_encoded as int;
    let after = before.part_encoded().0;
    stream::lemma_parts(before, index);
    let from = prefill::covered(before.parts, index);
    let to = prefill::covered(before.parts, index + 1);
    assert(after.tokens + after.input.skip(to) =~= before.tokens + before.input.skip(from));
}

proof fn lemma_submitted_prompt_is_whole(before: StreamModel)
    requires
        before.wf(),
        before.control.phase is OpenSubmit,
        before.input.len() > 0,
    ensures
        before.tokens == whole_context(before),
{
    prefill::law_parts_cover_the_prompt(
        before.input.len() as int,
        before.control.settings.split_logits_row,
    );
    assert(before.tokens + before.input.skip(before.input.len() as int) =~= before.tokens);
}

proof fn lemma_opening_keeps_tokens(before: StreamModel, event: StreamEvent)
    requires
        before.expects(event),
        event !is Failed,
        before.is_opening(),
        before.input.len() > 0,
        before.control.phase !is OpenPart,
        before.control.phase !is OpenSubmit,
    ensures
        before.resumed(event).1 !is Opened,
        whole_context(before.resumed(event).0) == whole_context(before),
{
}

/// No tree is proposed and no forward pass is encoded once the context is full.
pub proof fn law_full_context_runs_no_pass(before: StreamModel, event: StreamEvent)
    requires
        before.wf(),
        before.expects(event),
    ensures
        ({
            let (after, action) = before.resumed(event);
            action is ProposeTree || action is EncodePass || action is FinishPass
                || action is QueryShape ==> !after.context_is_full()
        }),
{
}

/// A stream whose context is full hands out the token in flight and then ends.
pub proof fn law_full_context_halts(before: StreamModel, context_length: u32)
    requires
        before.wf(),
        before.control.phase is ContextLength,
        before.control.max_context_length matches Some(limit) && context_length >= limit,
    ensures
        ({
            let (after, action) = before.resumed(StreamEvent::Context(context_length));
            &&& after.control.decoding_state is Halted
            &&& action is WaitForToken || action == StreamAction::Return(before.known_token())
            &&& after.with_phase(Phase::Ready).generated().1 == StreamAction::Return(None)
        }),
{
}

/// How many tokens calls that have ended handed out.
pub open spec fn returned_by_ended_calls(stream: StreamModel) -> int {
    stream.control.metrics.num_tokens_returned - if stream.is_chaining()
        || stream.control.phase is AcceptEncoding {
        1int
    } else {
        0
    }
}

/// The count of returned tokens grows by one with each token that is handed out, and only then.
pub proof fn law_returned_tokens_are_counted(before: StreamModel, event: StreamEvent)
    requires
        before.wf(),
        before.expects(event),
        succeeds(before, event),
        is_open(before),
    ensures
        returned_by_ended_calls(before.resumed(event).0) == returned_by_ended_calls(before) + if
            before.resumed(event).1 is Return {
            1int
        } else {
            0
        },
{
}

/// A closed stream gives back its history, and the token that it keeps for the next stream is the
/// one that the next call would have handed out.
pub proof fn law_closing_loses_no_token(before: StreamModel, sampled: u32)
    requires
        before.wf(),
        before.control.phase is Ready,
    ensures
        before.tokens + before.unrecorded() == before.history(),
        before.control.decoding_state is Seeded ==> before.generated().0.known_token()
            == before.pending_token(sampled),
        before.control.decoding_state is Accepting ==> match before.generated().1 {
            StreamAction::Return(token) => token == before.pending_token(sampled),
            _ => before.generated().0.resumed(StreamEvent::Done).0.known_token()
                == before.pending_token(sampled),
        },
        before.control.decoding_state matches DecodingState::ForwardPassPending { full_accept: true, .. }
            ==> before.pending_token(sampled) == before.generated().0.token_arrived(
            ResolvePoint::Bitmask,
            sampled as u64,
        ).0.with_phase(Phase::PassFinishing).known_token(),
{
}

/// A stream that is opened without a prompt hands out the token that was left over, first.
pub proof fn law_seed_token_comes_first(
    state: LanguageModelState,
    settings: StreamSettings,
    seed: u64,
)
    requires
        state.last_output_token == Some(seed),
        settings.suffix_repetition_length matches Some(length) ==> 2 + length <= u32::MAX,
    ensures
        ({
            let admitted = stream::admitted(state, Seq::empty(), settings);
            let asked = admitted.resumed(StreamEvent::Flag(false)).0;
            let opened = if settings.suffix_repetition_length is Some {
                asked.resumed(StreamEvent::Done).0
            } else {
                asked
            };
            &&& opened.control.phase is Ready
            &&& opened.history() == state.tokens@
            &&& opened.generated().0.known_token() == Some(seed)
        }),
{
    let admitted = stream::admitted(state, Seq::empty(), settings);
    let asked = admitted.resumed(StreamEvent::Flag(false)).0;
    let opened = if settings.suffix_repetition_length is Some {
        asked.resumed(StreamEvent::Done).0
    } else {
        asked
    };
    assert(opened.tokens + opened.unrecorded() =~= state.tokens@);
}

/// How many rows of a tree were proposed and not yet judged.
pub open spec fn unjudged(stream: StreamModel) -> int {
    match (stream.control.phase, stream.control.decoding_state) {
        (Phase::TreeSampling { .. }, _) => stream.control.batch_size as int,
        (_, DecodingState::ForwardPassPending { full_accept: false, .. }) => {
            stream.control.batch_size as int
        },
        _ => 0,
    }
}

/// Each accepted token was proposed.
pub open spec fn accepts_only_proposals(stream: StreamModel) -> bool {
    stream.control.metrics.num_tokens_accepted + unjudged(stream)
        <= stream.control.metrics.num_tokens_proposed
}

/// Beginning a call accepts no token that was not proposed.
pub proof fn law_generate_accepts_only_proposals(before: StreamModel)
    requires
        before.wf(),
        accepts_only_proposals(before),
        before.control.phase is Ready,
        before.control.decoding_state !is Invalid,
    ensures
        accepts_only_proposals(before.generated().0),
{
}

/// No answer of the backend makes the stream accept a token that was not proposed.
#[verifier::rlimit(40)]
pub proof fn law_resume_accepts_only_proposals(before: StreamModel, event: StreamEvent)
    requires
        before.wf(),
        accepts_only_proposals(before),
        before.expects(event),
    ensures
        accepts_only_proposals(before.resumed(event).0),
{
}

/// Walking a tree accepts no token that was not proposed.
pub proof fn law_tree_accepts_only_proposals(
    before: StreamModel,
    accepted: Seq<AcceptedToken>,
    norm_bytes: Option<usize>,
    capture: bool,
)
    requires
        before.wf(),
        accepts_only_proposals(before),
        before.expects_tree(accepted),
    ensures
        accepts_only_proposals(before.tree_sampled(accepted, norm_bytes, capture).0),
{
}

/// The captures that run: around the pending pass or the one whose tree is handed out, and those that
/// the running call holds.
pub open spec fn running_captures(stream: StreamModel) -> int {
    (match stream.control.decoding_state {
        DecodingState::ForwardPassPending { capture: true, .. } => 1int,
        DecodingState::Accepting { capture: true, .. } => 1int,
        _ => 0int,
    }) + (if stream.captures_output() {
        1int
    } else {
        0int
    }) + (if stream.captures_encoding() {
        1int
    } else {
        0int
    })
}

/// At most one capture runs, and none of an earlier pass while one is to be started.
pub open spec fn captures_one_pass(stream: StreamModel) -> bool {
    &&& running_captures(stream) <= 1
    &&& match stream.control.phase {
        Phase::OpenCaptureQuery | Phase::OpenCaptureStart | Phase::CaptureStart => {
            running_captures(stream) == 0
        },
        _ => true,
    }
}

/// A stream that was admitted captures nothing.
pub proof fn law_admitted_stream_is_not_captured(
    state: LanguageModelState,
    input: Seq<u64>,
    settings: StreamSettings,
)
    ensures
        captures_one_pass(stream::admitted(state, input, settings)),
        running_captures(stream::admitted(state, input, settings)) == 0,
{
}

/// Beginning a call lets no two captures run at once.
pub proof fn law_generate_captures_one_pass(before: StreamModel)
    requires
        before.wf(),
        captures_one_pass(before),
        before.control.phase is Ready,
        before.control.decoding_state !is Invalid,
    ensures
        captures_one_pass(before.generated().0),
{
}

/// No answer of the backend lets two captures run at once: before a capture starts, the capture of
/// the pass before it has ended.
#[verifier::rlimit(60)]
pub proof fn law_resume_captures_one_pass(before: StreamModel, event: StreamEvent)
    requires
        before.wf(),
        captures_one_pass(before),
        before.expects(event),
    ensures
        captures_one_pass(before.resumed(event).0),
{
}

/// Walking a tree lets no two captures run at once.
pub proof fn law_tree_captures_one_pass(
    before: StreamModel,
    accepted: Seq<AcceptedToken>,
    norm_bytes: Option<usize>,
)
    requires
        before.wf(),
        captures_one_pass(before),
        before.expects_tree(accepted),
    ensures
        captures_one_pass(
            before.tree_sampled(
                accepted,
                norm_bytes,
                before.control.phase->TreeSampling_capture,
            ).0,
        ),
{
}

/// A call that fails holds at most one capture; once that is ended, only the capture around the pass
/// that stays pending runs.
pub proof fn law_failing_ends_the_capture(before: StreamModel)
    requires
        before.wf(),
        captures_one_pass(before),
        before.expects(StreamEvent::Failed),
        before.control.phase !is SeedGrammar,
    ensures
        running_captures(before.resumed(StreamEvent::Failed).0) == running_captures(before) - if
            before.holds_capture() {
            1int
        } else {
            0int
        },
{
}

/// A stream that is closed between two calls ends the capture that runs, if one does.
pub proof fn law_closing_ends_the_capture(stream: StreamModel)
    requires
        stream.wf(),
        stream.control.phase is Ready,
    ensures
        match stream.close_action() {
            CloseAction::Close => running_captures(stream) == 0,
            CloseAction::WaitForPass { end_capture, .. } => end_capture == (running_captures(stream)
                == 1),
            CloseAction::AcceptPrefix { end_capture, .. } => end_capture == (running_captures(
                stream,
            ) == 1),
        },
{
}

} // verus!

//! What each action of a token stream asks for.
use vstd::prelude::*;

use crate::engine::language_model::prefill;
use crate::engine::language_model::stream;
use crate::engine::language_model::stream::{
    AcceptedToken, CloseAction, DecodingState, ForwardPassChaining, LanguageModelState,
    LanguageModelStream, LanguageModelStreamError, PassInput, Phase, RefusedStream, StreamAction,
    StreamEvent, StreamModel, StreamSettings,
};
use crate::engine::language_model::stream_laws;

verus! {

/// A part of a prompt is encoded as it must be: it is the part of the context that comes next. Where
/// it ends the prompt, the next token is sampled behind it, with the seed of the last token where
/// sampling is random, and under the mask of the grammar where there is one; else nothing is sampled.
pub open spec fn encodes_the_next_part(after: StreamModel, action: StreamAction) -> bool {
    action matches StreamAction::EncodePart { part, position, seed_index, masked, ring_length } ==> {
        let settings = after.control.settings;
        let end = part.start + part.length;
        &&& after.tokens.len() == position
        &&& 0 < part.length <= 1024
        &&& end <= after.input.len()
        &&& after.tokens + after.input.subrange(part.start as int, end)
            == stream_laws::whole_context(after).take(position + part.length)
        &&& part.sample_last <==> end == after.input.len()
        &&& masked <==> settings.grammar && end == after.input.len()
        &&& seed_index is Some <==> settings.stochastic && end == after.input.len()
        &&& seed_index matches Some(index) ==> index == stream_laws::whole_context(after).len() - 1
        &&& ring_length == settings.suffix_repetition_length
    }
}

/// What is sampled by a stream with a grammar is sampled under a mask, and nothing is masked without a
/// grammar.
pub open spec fn samples_under_the_grammar(after: StreamModel, action: StreamAction) -> bool {
    match action {
        StreamAction::EncodePart { part, masked, .. } => masked == (part.sample_last
            && after.control.settings.grammar),
        StreamAction::FinishPass { bitmask, .. } => bitmask is Unmasked
            <==> !after.control.settings.grammar,
        _ => true,
    }
}

/// Every answer while a prompt is encoded leads to the part that comes next, if to any.
pub proof fn law_prompt_is_encoded_part_by_part(before: StreamModel, event: StreamEvent)
    requires
        before.wf(),
        before.expects(event),
    ensures
        encodes_the_next_part(before.resumed(event).0, before.resumed(event).1),
{
    let (after, action) = before.resumed(event);
    if action is EncodePart {
        stream::lemma_resumed_is_wf(before, event);
        lemma_part_is_next(after);
        assert(before.control.phase is OpenPrepare || before.control.phase is OpenPart);
        assert(action == after.encode_part());
    }
}

proof fn lemma_part_is_next(stream: StreamModel)
    requires
        stream.wf(),
        stream.control.phase is OpenPart,
    ensures
        encodes_the_next_part(stream, stream.encode_part()),
{
    let index = stream.control.parts_encoded as int;
    let part = stream.parts[index];
    let from = prefill::covered(stream.parts, index);
    let end = part.start + part.length;
    let count = stream.input.len() as int;
    stream::lemma_parts(stream, index);
    if count == 0 {
        assert(prefill::batch_count(0) == 0);
    }
    prefill::law_parts_cover_the_prompt(count, stream.control.settings.split_logits_row);
    if index + 1 < stream.parts.len() {
        stream::lemma_parts(stream, index + 1);
    }
    let whole = stream_laws::whole_context(stream);
    assert(whole.len() == stream.tokens.len() + count - from);
    assert(stream.tokens + stream.input.subrange(part.start as int, end) =~= whole.take(
        stream.tokens.len() + part.length,
    ));
}

/// Whatever a stream with a grammar samples, it samples under the mask of the grammar.
pub proof fn law_samples_are_masked(before: StreamModel, event: StreamEvent)
    requires
        before.wf(),
        before.expects(event),
    ensures
        samples_under_the_grammar(before.resumed(event).0, before.resumed(event).1),
{
}

/// What a pass is sampled with: a mask for each node of its input where that was known when the pass was
/// encoded, and one mask for the token behind the one in flight where it was not; seeds where
/// sampling is random. All rows are accepted at once where the pass reads no tree, and then the
/// repetition ring takes them.
pub proof fn law_pass_is_sampled_as_set(before: StreamModel, event: StreamEvent)
    requires
        before.wf(),
        before.expects(event),
    ensures
        before.resumed(event).1 matches StreamAction::FinishPass {
            bitmask,
            seeds,
            accept_all,
            ring_length,
            batch_size,
        } ==> {
            let after = before.resumed(event).0;
            let settings = before.control.settings;
            &&& bitmask is Unmasked <==> !settings.grammar
            &&& bitmask is PerNode <==> settings.grammar && before.control.phase
                == Phase::PassEncoding { chained: false }
            &&& bitmask is Next <==> settings.grammar && before.control.phase
                != Phase::PassEncoding { chained: false }
            &&& bitmask is Next ==> after.known_token() is Some
            &&& seeds == settings.stochastic
            &&& accept_all == !before.control.tree
            &&& ring_length == if before.control.tree {
                None
            } else {
                settings.suffix_repetition_length
            }
            &&& batch_size == before.control.batch_size
            &&& after.control.tree == before.control.tree
            &&& after.control.batch_size == before.control.batch_size
        },
{
}

/// A pass reads the nodes of the tree that was just proposed, or one token: the one that the call hands
/// out where it is known, and else the one that the pass before samples. Its seeds follow the length
/// of the context, and commands that were not yet submitted are gone on with.
pub proof fn law_pass_reads_what_follows(before: StreamModel, event: StreamEvent)
    requires
        before.wf(),
        before.expects(event),
    ensures
        before.resumed(event).1 matches StreamAction::EncodePass {
            input,
            root_seed_index,
            batch_size,
            open_encoder,
        } ==> {
            let after = before.resumed(event).0;
            &&& match input {
                PassInput::Tree => event == StreamEvent::Proposal { nodes: batch_size },
                PassInput::Token(token) => batch_size == 1 && event !is Proposal && after.known_token()
                    == Some(token),
                PassInput::Chained => batch_size == 1 && event !is Proposal && after.known_token()
                    is None,
            }
            &&& after.control.tree == (input is Tree)
            &&& after.control.batch_size == batch_size
            &&& root_seed_index == after.control.context_length
            &&& open_encoder == !after.control.encoder_open
            &&& after.control.phase == Phase::PassEncoding { chained: input is Chained }
        },
{
}

/// The pass that was finished is pending: its first token is handed out as sampled where all its rows
/// were accepted, and judged first where it read a tree.
pub proof fn law_finished_pass_is_pending(before: StreamModel, output_norm: bool)
    requires
        before.wf(),
        before.control.phase is PassFinishing,
        before.expects(StreamEvent::Pass { output_norm }),
    ensures
        ({
            let after = before.resumed(StreamEvent::Pass { output_norm }).0;
            let action = before.resumed(StreamEvent::Pass { output_norm }).1;
            &&& after.control.decoding_state == (DecodingState::ForwardPassPending {
                full_accept: !before.control.tree,
                output_norm,
                capture: before.control.capture,
            })
            &&& match before.known_token() {
                Some(token) => action == StreamAction::Return(Some(token)),
                None => action is WaitForToken,
            }
        }),
{
}

/// The counts grow with what was done and with nothing else: a pass that is submitted counts once and
/// with its rows, a prompt with its tokens.
pub proof fn law_counts_follow_the_passes(before: StreamModel, event: StreamEvent)
    requires
        before.wf(),
        before.expects(event),
    ensures
        ({
            let old_counts = before.control.metrics;
            let new_counts = before.resumed(event).0.control.metrics;
            let decoded = before.control.phase is PassFinishing && event is Pass;
            let prefilled = before.control.phase is OpenSubmit && event is Pass;
            let rows = before.control.batch_size;
            &&& new_counts.num_decode_forward_passes == old_counts.num_decode_forward_passes + if decoded {
                1int
            } else {
                0
            }
            &&& new_counts.num_prefill_forward_passes == old_counts.num_prefill_forward_passes
                + if prefilled {
                1int
            } else {
                0
            }
            &&& new_counts.num_tokens_prefilled == old_counts.num_tokens_prefilled + if prefilled {
                before.input.len() as int
            } else {
                0
            }
            &&& new_counts.num_tokens_proposed == old_counts.num_tokens_proposed + if decoded {
                rows as int
            } else if prefilled {
                1
            } else {
                0
            }
            &&& new_counts.num_tokens_accepted == old_counts.num_tokens_accepted + if decoded
                && !before.control.tree {
                rows as int
            } else if prefilled {
                1
            } else {
                0
            }
        }),
{
}

/// The accepted nodes of a tree are counted when the tree was walked.
pub proof fn law_walked_tree_is_counted(
    before: StreamModel,
    accepted: Seq<AcceptedToken>,
    norm_bytes: Option<usize>,
    capture: bool,
)
    requires
        before.wf(),
        before.expects_tree(accepted),
    ensures
        ({
            let old_counts = before.control.metrics;
            let new_counts = before.tree_sampled(accepted, norm_bytes, capture).0.control.metrics;
            &&& new_counts.num_tokens_accepted == old_counts.num_tokens_accepted + accepted.len()
            &&& new_counts.num_tokens_returned == old_counts.num_tokens_returned + 1
            &&& new_counts.num_tokens_proposed == old_counts.num_tokens_proposed
            &&& new_counts.num_decode_forward_passes == old_counts.num_decode_forward_passes
            &&& new_counts.num_tokens_prefilled == old_counts.num_tokens_prefilled
        }),
{
}

/// The nodes of a tree that were accepted are handed out one after the other, the first at once; the
/// last one is handed out by the call that accepts the rows of all of them.
pub proof fn law_walked_tree_is_handed_out(
    before: StreamModel,
    accepted: Seq<AcceptedToken>,
    norm_bytes: Option<usize>,
    capture: bool,
)
    requires
        before.wf(),
        before.expects_tree(accepted),
    ensures
        ({
            let (after, action) = before.tree_sampled(accepted, norm_bytes, capture);
            &&& after.accepted == accepted
            &&& accepted.len() > 1 ==> action == StreamAction::Return(Some(accepted[0].output))
                && after.control.decoding_state is Accepting
                && after.control.decoding_state->num_accepted == 1
                && after.control.decoding_state->Accepting_capture == capture
            &&& accepted.len() == 1 ==> accepts_all_rows(after, action, norm_bytes, capture)
        }),
{
    assert(before.control.batch_size > 0);
    if let Some(bytes) = norm_bytes {
        let last = accepted.last().index as int;
        assert(accepted[accepted.len() - 1].index < before.control.batch_size);
        stream::lemma_row_is_inside(last, before.control.batch_size as int, bytes as int);
        assert((last + 1) * (bytes / before.control.batch_size) == last * (bytes
            / before.control.batch_size) + (bytes / before.control.batch_size)) by (nonlinear_arith);
        assert(0 <= last * (bytes / before.control.batch_size)) by (nonlinear_arith)
            requires
                last >= 0,
                bytes / before.control.batch_size >= 0,
        ;
    }
}

/// The rows of all accepted nodes are accepted, the hidden state of the last one is kept where there is
/// any, and the repetition ring takes the nodes. The hidden states of all rows are equally long.
pub open spec fn accepts_all_rows(
    after: StreamModel,
    action: StreamAction,
    norm_bytes: Option<usize>,
    capture: bool,
) -> bool {
    action matches StreamAction::EncodeAccept { count, norm_row, ring_length, end_capture } && {
        &&& count == after.accepted.len()
        &&& ring_length == after.control.settings.suffix_repetition_length
        &&& end_capture == capture
        &&& norm_row is Some <==> norm_bytes is Some
        &&& norm_row matches Some(row) ==> {
            let bytes = norm_bytes->0 as int / after.control.batch_size as int;
            &&& row.start == after.accepted.last().index * bytes
            &&& row.end == row.start + bytes
            &&& row.end <= norm_bytes->0
        }
    }
}

/// A call that goes on with accepted nodes hands out the next one; with the last one it accepts the rows
/// of all of them first.
pub proof fn law_accepted_nodes_are_handed_out(before: StreamModel)
    requires
        before.wf(),
        before.control.phase is Ready,
        before.control.decoding_state is Accepting,
    ensures
        ({
            let (after, action) = before.generated();
            let handed_out = before.control.decoding_state->num_accepted as int;
            let row_bytes = before.control.decoding_state->row_bytes;
            &&& after.accepted == before.accepted
            &&& handed_out + 1 < before.accepted.len() ==> {
                &&& action == StreamAction::Return(Some(before.accepted[handed_out].output))
                &&& after.control.decoding_state is Accepting
                &&& after.control.decoding_state->num_accepted == handed_out + 1
                &&& after.control.decoding_state->row_bytes == row_bytes
                &&& after.control.decoding_state->Accepting_capture
                    == before.control.decoding_state->Accepting_capture
            }
            &&& handed_out + 1 == before.accepted.len() ==> {
                &&& action matches StreamAction::EncodeAccept {
                    count,
                    norm_row,
                    ring_length,
                    end_capture,
                } && count == before.accepted.len() && ring_length
                    == before.control.settings.suffix_repetition_length && end_capture
                    == before.control.decoding_state->Accepting_capture && (norm_row is Some
                    <==> row_bytes is Some) && (norm_row matches Some(row) ==> row.start
                    == before.accepted.last().index * row_bytes->0 && row.end == row.start
                    + row_bytes->0)
            }
        }),
{
    if let Some(bytes) = before.control.decoding_state->row_bytes {
        let last = before.accepted.last().index as int;
        assert((last + 1) * bytes == last * bytes + bytes) by (nonlinear_arith);
        assert(0 <= last * bytes) by (nonlinear_arith)
            requires
                last >= 0,
                bytes >= 0,
        ;
    }
}

/// A token that is asked for while it is in flight is waited for, where it is known the call goes on: what
/// was encoded is submitted first where the mask of the pass depends on the token, and the capture
/// around the pass that samples the token ends.
pub proof fn law_tokens_in_flight_are_waited_for(before: StreamModel, event: StreamEvent)
    requires
        before.wf(),
        before.expects(event),
    ensures
        before.resumed(event).1 matches StreamAction::WaitForToken { submit_encoded, end_capture } ==> {
            let after = before.resumed(event).0;
            &&& after.known_token() is None
            &&& after.control.chaining is InFlight
            &&& end_capture == after.control.chaining->capture
            &&& submit_encoded == (before.control.phase is PassEncoding)
        },
{
}

/// A token that arrives is recorded, and the grammar takes it where there is one.
pub proof fn law_arrived_token_is_taken(before: StreamModel, token: u32)
    requires
        before.wf(),
        before.control.phase is Resolving,
    ensures
        ({
            let (after, action) = before.resumed(StreamEvent::Token(token));
            &&& after.tokens == before.tokens.push(token as u64)
            &&& before.control.settings.grammar ==> action == (StreamAction::AcceptInGrammar {
                token: token as u64,
            })
            &&& !before.control.settings.grammar ==> action !is AcceptInGrammar
            &&& after.control.chaining == (ForwardPassChaining::Constant {
                token: token as u64,
                output_norm: before.control.chaining->InFlight_output_norm,
            })
        }),
{
}

/// A token that a call begins with is known, recorded and taken by the grammar where there is one; the
/// token of a pending pass is in flight; a tree that was sampled is waited for.
pub proof fn law_call_begins_with_what_is_left(before: StreamModel)
    requires
        before.wf(),
        before.control.phase is Ready,
    ensures
        ({
            let (after, action) = before.generated();
            match before.control.decoding_state {
                DecodingState::Seeded { seed_token } => {
                    &&& after.tokens == before.tokens.push(seed_token)
                    &&& after.known_token() == Some(seed_token)
                    &&& action == if before.control.settings.grammar {
                        StreamAction::OfferToGrammar { token: seed_token }
                    } else {
                        StreamAction::QueryContextLength
                    }
                },
                DecodingState::ForwardPassPending { full_accept, output_norm, capture } => {
                    &&& after.tokens == before.tokens
                    &&& action == if full_accept {
                        StreamAction::QueryContextLength
                    } else {
                        StreamAction::WaitForTree
                    }
                    &&& full_accept ==> after.control.chaining == (ForwardPassChaining::InFlight {
                        output_norm,
                        capture,
                    })
                    &&& full_accept ==> !after.control.encoder_open
                },
                DecodingState::Accepting { .. } => action is Return || action is EncodeAccept,
                DecodingState::Halted => action == StreamAction::Return(None) && after.tokens
                    == before.tokens && after.control.metrics == before.control.metrics,
                DecodingState::Invalid => action == StreamAction::Fail,
            }
        }),
{
}

/// Behind the accepted rows of a tree the call goes on with the last accepted token, what was encoded is
/// not yet submitted, and all outputs of the tree are recorded.
pub proof fn law_accepted_outputs_are_recorded(before: StreamModel)
    requires
        before.wf(),
        before.control.phase is AcceptEncoding,
    ensures
        ({
            let (after, action) = before.resumed(StreamEvent::Done);
            let count = before.accepted.len() as int;
            &&& after.tokens.len() == before.tokens.len() + count
            &&& after.tokens.take(before.tokens.len() as int) == before.tokens
            &&& forall|i: int|
                0 <= i < count ==> after.tokens[before.tokens.len() + i] == (
                #[trigger] before.accepted[i]).output
            &&& after.known_token() == Some(before.accepted[count - 1].output)
            &&& after.control.chaining is Constant
            &&& after.control.chaining->Constant_output_norm
                == before.control.phase->AcceptEncoding_output_norm
            &&& after.control.encoder_open
            &&& action == StreamAction::QueryContextLength
        }),
{
    let after = before.resumed(StreamEvent::Done).0;
    assert(after.tokens.take(before.tokens.len() as int) =~= before.tokens);
}

/// A tree is proposed only behind a known token whose hidden state the speculator has: its root is that
/// token. What was encoded to accept the tree before it is submitted first.
pub proof fn law_tree_grows_from_the_known_token(before: StreamModel, event: StreamEvent)
    requires
        before.wf(),
        before.expects(event),
    ensures
        before.resumed(event).1 matches StreamAction::ProposeTree { root_token, submit_accept } ==> {
            let after = before.resumed(event).0;
            &&& after.known_token() == Some(root_token)
            &&& after.control.chaining->Constant_output_norm
            &&& submit_accept == before.control.encoder_open
            &&& !after.control.encoder_open
        },
{
}

/// A speculator is asked, with what is left of the context, for every pass, and a stream without one never
/// asks; where there is no shape, the pass reads one token.
pub proof fn law_speculator_is_asked(before: StreamModel, event: StreamEvent)
    requires
        before.wf(),
        before.expects(event),
        event !is Failed,
        before.control.phase is CaptureStart || (before.control.phase is CaptureQuery && event
            == StreamEvent::Flag(false)) || before.control.phase is ShapeQuery,
    ensures
        before.control.phase !is ShapeQuery ==> (before.resumed(event).1 is QueryShape
            <==> before.control.settings.speculator),
        before.control.phase !is ShapeQuery && !before.control.settings.speculator
            ==> before.resumed(event).1 is EncodePass,
        before.control.phase is ShapeQuery && event == StreamEvent::Flag(false) ==> before.resumed(
            event,
        ).1 is EncodePass,
        before.control.phase is ShapeQuery && event == StreamEvent::Flag(true) ==> match (
            before.control.chaining
        ) {
            ForwardPassChaining::InFlight { .. } => before.resumed(event).1 is WaitForToken,
            ForwardPassChaining::Constant { output_norm, .. } => if output_norm {
                before.resumed(event).1 is ProposeTree
            } else {
                before.resumed(event).1 is EncodePass
            },
        },
        before.resumed(event).1 matches StreamAction::QueryShape { budget } ==> match (
            before.control.max_context_length
        ) {
            Some(limit) => budget is Some && budget->0 + before.control.context_length == limit,
            None => budget is None,
        },
{
}

/// A capture is asked for before every pass, and starts only when the token of the pass before it is
/// known.
pub proof fn law_capture_waits_for_the_token(before: StreamModel, event: StreamEvent)
    requires
        before.wf(),
        before.expects(event),
        event !is Failed,
    ensures
        before.control.phase is ContextLength && !(before.control.max_context_length matches Some(limit)
            && event->Context_0 >= limit) ==> before.resumed(event).1 == StreamAction::QueryCapture
            && before.resumed(event).0.control.context_length == event->Context_0,
        before.resumed(event).1 is StartCapture && !before.is_opening() ==> before.resumed(
            event,
        ).0.known_token() is Some,
        before.control.phase is CaptureStart || before.control.phase is OpenCaptureStart
            ==> before.resumed(event).0.control.capture,
{
}

/// The transformer state is prepared for the tokens before the last batch, in whole batches of 1024, and
/// for the rows of one batch.
pub proof fn law_prefill_is_prepared(before: StreamModel, context_length: u32)
    requires
        before.wf(),
        before.control.phase is OpenContextLength,
        before.expects(StreamEvent::Context(context_length)),
    ensures
        ({
            let action = before.resumed(StreamEvent::Context(context_length)).1;
            let count = before.input.len() as int;
            action matches StreamAction::Prepare { context_length: prepared, rows } && {
                let lead = prepared - context_length;
                &&& lead % 1024 == 0
                &&& lead < count <= lead + 1024
                &&& rows == if count < 1024 {
                    count
                } else {
                    1024
                }
            }
        }),
{
}

/// The ring holds two words and as many tokens as the repetition penalty looks at; without a penalty there
/// is none.
pub proof fn law_ring_fits_the_penalty(before: StreamModel, event: StreamEvent)
    requires
        before.wf(),
        before.expects(event),
        event !is Failed,
        before.control.phase is OpenCaptureStart || before.control.phase is OpenCaptureQuery,
    ensures
        before.resumed(event).1 is CreateRing <==> before.control.settings.suffix_repetition_length is Some
            && event != StreamEvent::Flag(true),
        before.resumed(event).1 matches StreamAction::CreateRing { words } ==> words == 2
            + before.control.settings.suffix_repetition_length->0,
{
}

/// A ring begins with an offset of zero and the number of its tokens; those are the last tokens of the
/// context in their order, as many as fit, and zeros fill the rest.
pub proof fn law_ring_holds_the_last_tokens(tokens: Seq<u64>, length: u32)
    requires
        2 + length <= u32::MAX,
    ensures
        ({
            let ring = stream::ring_words(tokens, length);
            let held = ring[1] as int;
            &&& ring.len() == 2 + length
            &&& ring[0] == 0
            &&& held <= length
            &&& held <= tokens.len()
            &&& held == length || held == tokens.len()
            &&& forall|i: int|
                0 <= i < held ==> #[trigger] ring[2 + i] as int == tokens[tokens.len() - held + i] as int
                    % 0x1_0000_0000
            &&& forall|i: int| held <= i < length ==> #[trigger] ring[2 + i] == 0
        }),
{
}

/// What a stream was opened with stays: its settings, its prompt and the limit of its context. Tokens are
/// only ever added behind those that are there.
pub proof fn law_settings_stay(before: StreamModel, event: StreamEvent)
    requires
        before.wf(),
        before.expects(event),
    ensures
        ({
            let after = before.resumed(event).0;
            &&& after.control.settings == before.control.settings
            &&& after.control.max_context_length == before.control.max_context_length
            &&& after.input == before.input
            &&& after.parts == before.parts
            &&& before.tokens.is_prefix_of(after.tokens)
        }),
{
}

/// Closing a stream between two calls accepts exactly the rows whose tokens were handed out: the first row
/// of a tree that was not walked, the rows up to the token that is kept of one that was handed out in
/// part, and none where all rows were accepted before.
pub proof fn law_closing_accepts_what_was_handed_out(stream: StreamModel)
    requires
        stream.wf(),
        stream.control.phase is Ready,
    ensures
        match stream.control.decoding_state {
            DecodingState::ForwardPassPending { full_accept, capture, .. } => stream.close_action()
                == (CloseAction::WaitForPass { accept_root: !full_accept, end_capture: capture }),
            DecodingState::Accepting { num_accepted, capture, .. } => stream.close_action()
                matches CloseAction::AcceptPrefix { count, end_capture } && count == num_accepted + 1
                && count == stream.unrecorded().len() + 1 && end_capture == capture,
            _ => stream.close_action() == CloseAction::Close,
        },
{
}

/// A stream is refused where neither the model nor the prompt has a token and where the prompt does not fit
/// behind the tokens of the model, and then the model is given back as it was. An admitted stream
/// holds the tokens and the prompt, has done nothing, and asks about a capture first.
pub proof fn law_streams_are_admitted_where_they_fit(
    state: LanguageModelState,
    input: Vec<u64>,
    settings: StreamSettings,
    result: Result<(LanguageModelStream, StreamAction), RefusedStream>,
)
    requires
        call_ensures(LanguageModelStream::new, (state, input, settings), result),
    ensures
        ({
            let count = state.tokens@.len() + input@.len();
            let fits = state.max_context_length matches Some(limit) ==> count <= limit;
            match result {
                Ok((opened, action)) => {
                    &&& count > 0
                    &&& fits
                    &&& action == StreamAction::QueryCapture
                    &&& opened@.tokens == state.tokens@
                    &&& opened@.input == input@
                    &&& opened@.accepted.len() == 0
                    &&& opened@.control.settings == settings
                    &&& opened@.control.max_context_length == state.max_context_length
                    &&& opened@.control.last_output_token == state.last_output_token
                    &&& opened@.control.metrics == stream::no_metrics()
                    &&& opened@.control.phase is OpenCaptureQuery
                    &&& opened@.control.parts_encoded == 0
                    &&& stream_laws::whole_context(opened@) == state.tokens@ + input@
                },
                Err(refused) => {
                    &&& refused.state == state
                    &&& match refused.error {
                        LanguageModelStreamError::NoSeedToken => count == 0,
                        LanguageModelStreamError::ContextOverflow => count > 0 && !fits,
                    }
                },
            }
        }),
{
    if let Ok((opened, _)) = result {
        assert(stream_laws::whole_context(opened@) =~= state.tokens@ + input@);
    }
}

/// A stream that opens without a prompt takes the token that was left over, and one with a prompt forgets
/// it.
pub proof fn law_left_over_token_is_taken_once(before: StreamModel)
    requires
        before.wf(),
        before.control.phase is OpenRing,
    ensures
        ({
            let (after, action) = before.resumed(StreamEvent::Done);
            &&& after.control.last_output_token is None
            &&& before.input.len() == 0 ==> action == (StreamAction::Opened {
                end_capture: before.control.capture,
            }) && Some(after.control.decoding_state->seed_token)
                == before.control.last_output_token && after.control.decoding_state is Seeded
            &&& before.input.len() > 0 ==> action == StreamAction::QueryContextLength
        }),
{
}

/// A prompt that was submitted leaves a pending pass whose token is in flight.
pub proof fn law_submitted_prompt_is_pending(before: StreamModel, output_norm: bool)
    requires
        before.wf(),
        before.control.phase is OpenSubmit,
    ensures
        ({
            let (after, action) = before.resumed(StreamEvent::Pass { output_norm });
            &&& action == (StreamAction::Opened { end_capture: false })
            &&& after.control.phase is Ready
            &&& after.control.decoding_state == (DecodingState::ForwardPassPending {
                full_accept: true,
                output_norm,
                capture: before.control.capture,
            })
            &&& after.control.metrics.num_tokens_returned == 0
        }),
{
}

/// A closed stream leaves its tokens and those that it handed out and had not recorded, the limit of the
/// context, and the token that it did not hand out.
pub proof fn law_closed_stream_leaves_its_tokens(
    closed: LanguageModelStream,
    sampled: u32,
    state: LanguageModelState,
)
    requires
        closed@.wf(),
        closed@.control.phase is Ready,
        call_ensures(LanguageModelStream::into_state, (closed, sampled), state),
    ensures
        state.max_context_length == closed@.control.max_context_length,
        closed@.tokens.is_prefix_of(state.tokens@),
        match closed@.control.decoding_state {
            DecodingState::Seeded { seed_token } => state.last_output_token == Some(seed_token)
                && state.tokens@ == closed@.tokens,
            DecodingState::ForwardPassPending { .. } => state.last_output_token == Some(
                sampled as u64,
            ) && state.tokens@ == closed@.tokens,
            DecodingState::Accepting { num_accepted, .. } => {
                &&& state.last_output_token == Some(closed@.accepted[num_accepted as int].output)
                &&& state.tokens@.len() == closed@.tokens.len() + num_accepted
                &&& forall|i: int|
                    0 <= i < num_accepted ==> state.tokens@[closed@.tokens.len() + i] == (
                    #[trigger] closed@.accepted[i]).output
            },
            _ => state.last_output_token is None && state.tokens@ == closed@.tokens,
        },
{
    if closed@.control.decoding_state !is Accepting {
        assert(closed@.tokens + closed@.unrecorded() =~= closed@.tokens);
    }
}

/// A stream that could not be opened leaves the tokens that it had recorded.
pub proof fn law_abandoned_stream_leaves_its_tokens(
    abandoned: LanguageModelStream,
    state: LanguageModelState,
)
    requires
        call_ensures(LanguageModelStream::abandon, (abandoned,), state),
    ensures
        state.tokens@ == abandoned@.tokens,
        state.max_context_length == abandoned@.control.max_context_length,
        state.last_output_token == abandoned@.control.last_output_token,
{
}

/// A call that fails while a stream is opened abandons it; a later one leaves the stream between two
/// calls. Neither changes a token or a count.
pub proof fn law_failure_ends_the_call(before: StreamModel)
    requires
        before.wf(),
        before.control.phase !is SeedGrammar,
        before.expects(StreamEvent::Failed),
    ensures
        ({
            let (after, action) = before.resumed(StreamEvent::Failed);
            &&& action == StreamAction::Fail
            &&& after.tokens == before.tokens
            &&& after.control.metrics == before.control.metrics
            &&& after.control.decoding_state == before.control.decoding_state
            &&& after.control.phase == if before.is_opening() {
                Phase::Abandoned
            } else {
                Phase::Ready
            }
        }),
{
}

/// The mask of a row has a bit for each token of the vocabulary, in words of 32 bits of which none is
/// without such a bit; the masks of all rows are equally long.
pub proof fn law_masks_hold_the_vocabulary(vocab_size: usize, rows: usize, bytes: usize)
    requires
        stream::mask_bytes(vocab_size, rows) <= usize::MAX,
        call_ensures(stream::bitmask_bytes, (vocab_size, rows), bytes),
    ensures
        exists|words: int|
            bytes == #[trigger] (rows * words) * 4 && 32 * words >= vocab_size && 32 * words < vocab_size
                + 32,
{
    let words = (vocab_size + 31) / 32;
    assert(bytes == (rows * words) * 4);
    assert(32 * words >= vocab_size && 32 * words < vocab_size + 32);
}

/// Rows are accepted by the indices of their nodes, and the ring takes the tokens of the nodes, each as the
/// low 32 bits of it.
pub proof fn law_accepted_rows_are_named(
    handed: LanguageModelStream,
    count: usize,
    indices: Vec<u32>,
    words: Vec<u32>,
)
    requires
        count <= handed@.accepted.len(),
        call_ensures(LanguageModelStream::accepted_indices, (&handed, count), indices),
        call_ensures(LanguageModelStream::accepted_inputs, (&handed,), words),
    ensures
        indices@.len() == count,
        words@.len() == handed@.accepted.len(),
        forall|i: int|
            0 <= i < count ==> #[trigger] indices@[i] as int == handed@.accepted[i].index as int
                % 0x1_0000_0000,
        forall|i: int|
            0 <= i < handed@.accepted.len() ==> #[trigger] words@[i] as int
                == handed@.accepted[i].input as int % 0x1_0000_0000,
{
}

/// Whatever a stream is answered, it goes on with the part of the prompt that comes next, samples under the
/// mask of its grammar, and keeps its settings.
pub proof fn law_resumed_stream_goes_on(
    stream: &mut LanguageModelStream,
    event: StreamEvent,
    action: StreamAction,
)
    requires
        old(stream)@.wf(),
        old(stream)@.expects(event),
        call_ensures(LanguageModelStream::resume, (stream, event), action),
    ensures
        (final(stream)@, action) == old(stream)@.resumed(event),
        encodes_the_next_part(final(stream)@, action),
        final(stream)@.control.settings == old(stream)@.control.settings,
{
    law_prompt_is_encoded_part_by_part(old(stream)@, event);
    law_settings_stay(old(stream)@, event);
}

/// A call of a stream, and what a walked tree leads to, are those of its model; so is what it waits for.
pub proof fn law_streams_act_as_their_models(
    stream: &mut LanguageModelStream,
    other: &mut LanguageModelStream,
    accepted: Vec<AcceptedToken>,
    norm_bytes: Option<usize>,
    event: StreamEvent,
    action: StreamAction,
    walked: StreamAction,
    expected: bool,
    tree_expected: bool,
    held: bool,
    ready: bool,
    closing: CloseAction,
)
    requires
        call_ensures(LanguageModelStream::generate, (stream,), action),
        call_ensures(LanguageModelStream::resume_with_tree, (other, accepted, norm_bytes), walked),
        call_ensures(LanguageModelStream::is_expected, (&*old(stream), event), expected),
        call_ensures(LanguageModelStream::holds_capture, (&*old(stream),), held),
        call_ensures(LanguageModelStream::can_generate, (&*old(stream),), ready),
        call_ensures(LanguageModelStream::close_action, (&*old(stream),), closing),
    ensures
        (final(stream)@, action) == old(stream)@.generated(),
        (final(other)@, walked) == old(other)@.tree_sampled(
            accepted@,
            norm_bytes,
            old(other)@.control.phase->TreeSampling_capture,
        ),
        expected == old(stream)@.expects(event),
        held == old(stream)@.holds_capture(),
        closing == old(stream)@.close_action(),
        ready ==> old(stream)@.control.phase is Ready && old(stream)@.control.decoding_state !is Invalid,
        old(stream)@.control.phase is Ready && old(stream)@.control.decoding_state !is Invalid && old(
            stream,
        )@.control.metrics.num_tokens_returned < usize::MAX ==> ready,
{
}

/// A new stream has the tokens of the model and the prompt, has counted nothing, and first asks whether a
/// capture was wanted.
pub proof fn law_new_stream_has_the_prompt(
    state: LanguageModelState,
    input: Vec<u64>,
    settings: StreamSettings,
    stream: LanguageModelStream,
    action: StreamAction,
    tokens: &[u64],
    prompt: &[u64],
    metrics: &stream::TokenStreamMetrics,
)
    requires
        call_ensures(
            LanguageModelStream::new,
            (state, input, settings),
            Ok::<(LanguageModelStream, StreamAction), RefusedStream>((stream, action)),
        ),
        call_ensures(LanguageModelStream::tokens, (&stream,), tokens),
        call_ensures(LanguageModelStream::input, (&stream,), prompt),
        call_ensures(LanguageModelStream::metrics, (&stream,), metrics),
    ensures
        tokens@ == state.tokens@,
        prompt@ == input@,
        action == StreamAction::QueryCapture,
        metrics.num_tokens_returned == 0,
        metrics.num_prefill_forward_passes == 0,
        metrics.num_decode_forward_passes == 0,
        stream@.control.settings == settings,
        stream@.control.max_context_length == state.max_context_length,
        stream@.control.last_output_token == state.last_output_token,
        state.max_context_length matches Some(limit) ==> tokens@.len() + prompt@.len() <= limit,
        tokens@.len() + prompt@.len() > 0,
{
}

/// The ring of a stream holds the last tokens of its context.
pub proof fn law_ring_of_a_stream(stream: LanguageModelStream, length: u32, words: Vec<u32>, at: int)
    requires
        2 + length <= u32::MAX,
        call_ensures(LanguageModelStream::initial_ring, (&stream, length), words),
    ensures
        words@.len() == 2 + length,
        words@[0] == 0,
        words@[1] as int == if stream@.tokens.len() < length {
            stream@.tokens.len() as int
        } else {
            length as int
        },
        0 <= at < words@[1] ==> words@[2 + at] as int == stream@.tokens[stream@.tokens.len() - words@[1]
            + at] as int % 0x1_0000_0000,
        words@[1] <= at < length ==> words@[2 + at] == 0,
{
    law_ring_holds_the_last_tokens(stream@.tokens, length);
    let ring = stream::ring_words(stream@.tokens, length);
    if 0 <= at < words@[1] {
        assert(ring[2 + at] as int == stream@.tokens[stream@.tokens.len() - words@[1] + at] as int
            % 0x1_0000_0000);
    }
    if words@[1] <= at < length {
        assert(ring[2 + at] == 0);
    }
}

/// A word of a token is its low half.
pub proof fn law_words_are_the_low_halves(tokens: &[u64], words: Vec<u32>, at: int)
    requires
        call_ensures(stream::token_words, (tokens,), words),
        0 <= at < tokens@.len(),
    ensures
        words@.len() == tokens@.len(),
        tokens@[at] < 0x1_0000_0000 ==> words@[at] == tokens@[at],
        (tokens@[at] - words@[at]) % 0x1_0000_0000 == 0,
{
}

} // verus!

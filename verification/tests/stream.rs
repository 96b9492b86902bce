//! Token streams, driven step by step.
use uzu_engine::data_type::DataType;
use uzu_engine::engine::language_model::model::{
    DecoderCapabilities, LanguageModel, LanguageModelConfig, TokenCodecConfig,
};
use uzu_engine::engine::language_model::prefill::{PrefillPart, prefill_parts};
use uzu_engine::engine::language_model::stream::{
    AcceptedToken, ByteRange, CloseAction, LanguageModelState, LanguageModelStream,
    LanguageModelStreamError, PassBitmask, PassInput, StreamAction, StreamEvent, StreamSettings,
    TokenStreamMetrics, bitmask_bytes, token_words,
};

const PLAIN: StreamSettings = StreamSettings {
    suffix_repetition_length: None,
    stochastic: false,
    grammar: false,
    speculator: false,
    split_logits_row: false,
};

fn state(tokens: &[u64], limit: Option<u32>, last: Option<u64>) -> LanguageModelState {
    LanguageModelState {
        tokens: tokens.to_vec(),
        max_context_length: limit,
        last_output_token: last,
    }
}

/// Answers each event and expects the action behind it.
fn play(stream: &mut LanguageModelStream, script: &[(StreamEvent, StreamAction)]) {
    for (step, (event, action)) in script.iter().enumerate() {
        assert!(stream.is_expected(*event), "step {step}");
        assert_eq!(stream.resume(*event), *action, "step {step}");
    }
}

const DONE: StreamEvent = StreamEvent::Done;
const NO: StreamEvent = StreamEvent::Flag(false);
const YES: StreamEvent = StreamEvent::Flag(true);

fn open(
    state: LanguageModelState,
    input: &[u64],
    settings: StreamSettings,
    output_norm: bool,
) -> LanguageModelStream {
    let before = state.tokens.len();
    let (mut stream, action) = LanguageModelStream::new(state, input.to_vec(), settings).unwrap();
    assert_eq!(action, StreamAction::QueryCapture);
    let mut action = stream.resume(NO);
    if let Some(length) = settings.suffix_repetition_length {
        assert_eq!(action, StreamAction::CreateRing { words: length + 2 });
        action = stream.resume(DONE);
    }
    if !input.is_empty() {
        assert_eq!(action, StreamAction::QueryContextLength);
        action = stream.resume(StreamEvent::Context(before as u32));
        assert!(matches!(action, StreamAction::Prepare { .. }));
        action = stream.resume(DONE);
        while let StreamAction::EncodePart { .. } = action {
            action = stream.resume(DONE);
        }
        assert_eq!(action, StreamAction::SubmitPrefill);
        action = stream.resume(StreamEvent::Pass { output_norm });
    }
    assert_eq!(action, StreamAction::Opened { end_capture: false });
    stream
}

#[test]
fn a_stream_without_tokens_is_refused() {
    let refused = LanguageModelStream::new(state(&[], None, None), Vec::new(), PLAIN).unwrap_err();
    assert_eq!(refused.error, LanguageModelStreamError::NoSeedToken);
    assert_eq!(refused.state, state(&[], None, None));
}

#[test]
fn a_prompt_that_does_not_fit_is_refused() {
    let given = || state(&[1, 2], Some(4), Some(3));
    let refused = LanguageModelStream::new(given(), vec![5, 6, 7], PLAIN).unwrap_err();
    assert_eq!(refused.error, LanguageModelStreamError::ContextOverflow);
    assert_eq!(refused.state, given());
    assert!(LanguageModelStream::new(given(), vec![5, 6], PLAIN).is_ok());
}

#[test]
fn the_prompt_is_prefilled_before_the_stream_opens() {
    let settings = StreamSettings { stochastic: true, split_logits_row: true, ..PLAIN };
    let (mut stream, action) =
        LanguageModelStream::new(state(&[1], None, Some(9)), vec![5, 6, 7], settings).unwrap();
    assert_eq!(action, StreamAction::QueryCapture);
    let part = |start, length, sample_last| PrefillPart { start, length, sample_last };
    play(
        &mut stream,
        &[
            (YES, StreamAction::StartCapture),
            (DONE, StreamAction::QueryContextLength),
            (StreamEvent::Context(1), StreamAction::Prepare { context_length: 1, rows: 3 }),
            (
                DONE,
                StreamAction::EncodePart {
                    part: part(0, 2, false),
                    position: 1,
                    seed_index: None,
                    masked: false,
                    ring_length: None,
                },
            ),
            (
                DONE,
                StreamAction::EncodePart {
                    part: part(2, 1, true),
                    position: 3,
                    seed_index: Some(3),
                    masked: false,
                    ring_length: None,
                },
            ),
            (DONE, StreamAction::SubmitPrefill),
            (StreamEvent::Pass { output_norm: false }, StreamAction::Opened { end_capture: false }),
        ],
    );
    assert_eq!(stream.tokens(), &[1, 5, 6, 7]);
    assert_eq!(
        *stream.metrics(),
        TokenStreamMetrics {
            num_prefill_forward_passes: 1,
            num_tokens_prefilled: 3,
            num_decode_forward_passes: 0,
            num_tokens_proposed: 1,
            num_tokens_accepted: 1,
            num_tokens_returned: 0,
        }
    );
}

#[test]
fn the_next_pass_starts_before_a_token_is_read() {
    let mut stream = open(state(&[], None, None), &[5, 6, 7], PLAIN, false);
    assert!(stream.can_generate());
    assert_eq!(stream.generate(), StreamAction::QueryContextLength);
    play(
        &mut stream,
        &[
            (StreamEvent::Context(3), StreamAction::QueryCapture),
            (
                NO,
                StreamAction::EncodePass {
                    input: PassInput::Chained,
                    root_seed_index: 3,
                    batch_size: 1,
                    open_encoder: true,
                },
            ),
            (
                DONE,
                StreamAction::FinishPass {
                    bitmask: PassBitmask::Unmasked,
                    seeds: false,
                    accept_all: true,
                    ring_length: None,
                    batch_size: 1,
                },
            ),
            (
                StreamEvent::Pass { output_norm: false },
                StreamAction::WaitForToken { submit_encoded: false, end_capture: false },
            ),
            (StreamEvent::Token(9), StreamAction::Return(Some(9))),
        ],
    );
    assert_eq!(stream.tokens(), &[5, 6, 7, 9]);
    assert_eq!(stream.metrics().num_tokens_returned, 1);
    assert_eq!(stream.metrics().num_decode_forward_passes, 1);
    // What was sampled and not handed out seeds the next stream.
    assert_eq!(stream.close_action(), CloseAction::WaitForPass { accept_root: false, end_capture: false });
    assert_eq!(stream.into_state(11), state(&[5, 6, 7, 9], None, Some(11)));
}

#[test]
fn a_seed_is_handed_out_first() {
    let mut stream = open(state(&[5, 6], None, Some(7)), &[], PLAIN, false);
    assert_eq!(stream.generate(), StreamAction::QueryContextLength);
    play(
        &mut stream,
        &[
            (StreamEvent::Context(2), StreamAction::QueryCapture),
            (
                NO,
                StreamAction::EncodePass {
                    input: PassInput::Token(7),
                    root_seed_index: 2,
                    batch_size: 1,
                    open_encoder: true,
                },
            ),
            (
                DONE,
                StreamAction::FinishPass {
                    bitmask: PassBitmask::Unmasked,
                    seeds: false,
                    accept_all: true,
                    ring_length: None,
                    batch_size: 1,
                },
            ),
            (StreamEvent::Pass { output_norm: false }, StreamAction::Return(Some(7))),
        ],
    );
    assert_eq!(stream.tokens(), &[5, 6, 7]);
}

#[test]
fn an_unused_seed_is_kept() {
    let stream = open(state(&[5, 6], None, Some(7)), &[], PLAIN, false);
    assert_eq!(stream.close_action(), CloseAction::Close);
    assert_eq!(stream.into_state(0), state(&[5, 6], None, Some(7)));
}

#[test]
fn a_full_context_ends_the_stream() {
    let mut stream = open(state(&[], Some(3), None), &[5, 6, 7], PLAIN, false);
    assert_eq!(stream.generate(), StreamAction::QueryContextLength);
    play(
        &mut stream,
        &[
            (StreamEvent::Context(3), StreamAction::WaitForToken { submit_encoded: false, end_capture: false }),
            (StreamEvent::Token(9), StreamAction::Return(Some(9))),
        ],
    );
    assert_eq!(stream.close_action(), CloseAction::Close);
    assert_eq!(stream.generate(), StreamAction::Return(None));
    assert!(!stream.can_generate());
    assert_eq!(stream.into_state(0), state(&[5, 6, 7, 9], Some(3), None));
}

#[test]
fn a_grammar_masks_the_token_that_follows() {
    let settings = StreamSettings { grammar: true, ..PLAIN };
    let mut stream = open(state(&[], None, None), &[5], settings, false);
    assert_eq!(stream.generate(), StreamAction::QueryContextLength);
    play(
        &mut stream,
        &[
            (StreamEvent::Context(1), StreamAction::QueryCapture),
            (
                NO,
                StreamAction::EncodePass {
                    input: PassInput::Chained,
                    root_seed_index: 1,
                    batch_size: 1,
                    open_encoder: true,
                },
            ),
            (DONE, StreamAction::WaitForToken { submit_encoded: true, end_capture: false }),
            (StreamEvent::Token(9), StreamAction::AcceptInGrammar { token: 9 }),
            (
                DONE,
                StreamAction::FinishPass {
                    bitmask: PassBitmask::Next,
                    seeds: false,
                    accept_all: true,
                    ring_length: None,
                    batch_size: 1,
                },
            ),
            (StreamEvent::Pass { output_norm: false }, StreamAction::Return(Some(9))),
        ],
    );
}

/// A stream that has proposed a tree of five nodes behind the token 9.
fn speculating() -> LanguageModelStream {
    let settings =
        StreamSettings { speculator: true, suffix_repetition_length: Some(4), ..PLAIN };
    let mut stream = open(state(&[], Some(100), None), &[5, 6, 7], settings, true);
    assert_eq!(stream.generate(), StreamAction::QueryContextLength);
    play(
        &mut stream,
        &[
            (StreamEvent::Context(3), StreamAction::QueryCapture),
            (NO, StreamAction::QueryShape { budget: Some(97) }),
            (YES, StreamAction::WaitForToken { submit_encoded: false, end_capture: false }),
            (
                StreamEvent::Token(9),
                StreamAction::ProposeTree { root_token: 9, submit_accept: false },
            ),
            (
                StreamEvent::Proposal { nodes: 5 },
                StreamAction::EncodePass {
                    input: PassInput::Tree,
                    root_seed_index: 3,
                    batch_size: 5,
                    open_encoder: true,
                },
            ),
            (
                DONE,
                StreamAction::FinishPass {
                    bitmask: PassBitmask::Unmasked,
                    seeds: false,
                    accept_all: false,
                    ring_length: None,
                    batch_size: 5,
                },
            ),
            (StreamEvent::Pass { output_norm: true }, StreamAction::Return(Some(9))),
        ],
    );
    stream
}

fn sampled() -> Vec<AcceptedToken> {
    vec![
        AcceptedToken { index: 0, input: 9, output: 20 },
        AcceptedToken { index: 2, input: 20, output: 21 },
        AcceptedToken { index: 4, input: 21, output: 22 },
    ]
}

#[test]
fn accepted_tokens_are_handed_out_one_by_one() {
    let mut stream = speculating();
    assert_eq!(stream.generate(), StreamAction::WaitForTree);
    assert!(stream.is_tree_expected(&sampled()));
    assert_eq!(
        stream.resume_with_tree(sampled(), Some(5 * 64)),
        StreamAction::Return(Some(20))
    );
    assert_eq!(stream.tokens(), &[5, 6, 7, 9]);
    assert_eq!(stream.generate(), StreamAction::Return(Some(21)));
    let action = stream.generate();
    assert_eq!(
        action,
        StreamAction::EncodeAccept {
            count: 3,
            norm_row: Some(ByteRange { start: 256, end: 320 }),
            ring_length: Some(4),
            end_capture: false,
        }
    );
    assert_eq!(stream.accepted_indices(3), vec![0, 2, 4]);
    assert_eq!(stream.accepted_inputs(), vec![9, 20, 21]);
    assert_eq!(stream.resume(DONE), StreamAction::QueryContextLength);
    assert_eq!(stream.tokens(), &[5, 6, 7, 9, 20, 21, 22]);
    assert_eq!(
        *stream.metrics(),
        TokenStreamMetrics {
            num_prefill_forward_passes: 1,
            num_tokens_prefilled: 3,
            num_decode_forward_passes: 1,
            num_tokens_proposed: 6,
            num_tokens_accepted: 4,
            num_tokens_returned: 4,
        }
    );
}

#[test]
fn closing_keeps_the_accepted_tokens_that_were_handed_out() {
    let mut stream = speculating();
    assert_eq!(stream.generate(), StreamAction::WaitForTree);
    stream.resume_with_tree(sampled(), None);
    assert_eq!(stream.close_action(), CloseAction::AcceptPrefix { count: 2, end_capture: false });
    assert_eq!(stream.into_state(0), state(&[5, 6, 7, 9, 20], Some(100), Some(21)));
}

#[test]
fn closing_an_unread_tree_keeps_its_root() {
    let stream = speculating();
    assert_eq!(stream.close_action(), CloseAction::WaitForPass { accept_root: true, end_capture: false });
    assert_eq!(stream.into_state(20), state(&[5, 6, 7, 9], Some(100), Some(20)));
}

#[test]
fn a_tree_is_not_proposed_without_a_hidden_state() {
    let settings = StreamSettings { speculator: true, ..PLAIN };
    let mut stream = open(state(&[], None, None), &[5], settings, false);
    stream.generate();
    play(
        &mut stream,
        &[
            (StreamEvent::Context(1), StreamAction::QueryCapture),
            (NO, StreamAction::QueryShape { budget: None }),
            (YES, StreamAction::WaitForToken { submit_encoded: false, end_capture: false }),
            (
                StreamEvent::Token(9),
                StreamAction::EncodePass {
                    input: PassInput::Token(9),
                    root_seed_index: 1,
                    batch_size: 1,
                    open_encoder: true,
                },
            ),
        ],
    );
}

#[test]
fn a_failure_ends_the_stream() {
    let mut stream = open(state(&[], None, None), &[5], PLAIN, false);
    stream.generate();
    assert_eq!(stream.resume(StreamEvent::Failed), StreamAction::Fail);
    assert!(!stream.can_generate());
    assert!(!stream.is_expected(DONE));
    assert_eq!(stream.close_action(), CloseAction::Close);

    let (mut stream, _) = LanguageModelStream::new(state(&[1], None, None), vec![5], PLAIN).unwrap();
    assert_eq!(stream.resume(StreamEvent::Failed), StreamAction::Fail);
    assert_eq!(stream.abandon().tokens, vec![1]);
}

#[test]
fn the_ring_starts_with_the_last_tokens() {
    let settings = StreamSettings { suffix_repetition_length: Some(3), ..PLAIN };
    let (stream, _) =
        LanguageModelStream::new(state(&[1, 2, 3, 0x1_0000_0004], None, None), vec![5], settings)
            .unwrap();
    assert_eq!(stream.initial_ring(3), vec![0, 3, 2, 3, 4]);
    assert_eq!(stream.initial_ring(6), vec![0, 4, 1, 2, 3, 4, 0, 0]);
    assert_eq!(stream.input(), &[5]);
    assert_eq!(token_words(&[1, 0x2_0000_0003]), vec![1, 3]);
}

#[test]
fn masks_hold_a_bit_for_each_token() {
    assert_eq!(bitmask_bytes(64, 1), 8);
    assert_eq!(bitmask_bytes(65, 3), 36);
    assert_eq!(bitmask_bytes(0, 3), 0);
}

#[test]
fn captures_end_with_their_passes() {
    let (mut stream, _) = LanguageModelStream::new(state(&[1], None, Some(2)), Vec::new(), PLAIN).unwrap();
    play(
        &mut stream,
        &[
            (YES, StreamAction::StartCapture),
            (DONE, StreamAction::Opened { end_capture: true }),
        ],
    );
    assert_eq!(stream.generate(), StreamAction::QueryContextLength);
    play(
        &mut stream,
        &[
            (StreamEvent::Context(1), StreamAction::QueryCapture),
            (YES, StreamAction::StartCapture),
            (
                DONE,
                StreamAction::EncodePass {
                    input: PassInput::Token(2),
                    root_seed_index: 1,
                    batch_size: 1,
                    open_encoder: true,
                },
            ),
            (
                DONE,
                StreamAction::FinishPass {
                    bitmask: PassBitmask::Unmasked,
                    seeds: false,
                    accept_all: true,
                    ring_length: None,
                    batch_size: 1,
                },
            ),
            (StreamEvent::Pass { output_norm: false }, StreamAction::Return(Some(2))),
        ],
    );
    assert_eq!(
        stream.close_action(),
        CloseAction::WaitForPass { accept_root: false, end_capture: true }
    );
    assert_eq!(stream.generate(), StreamAction::QueryContextLength);
    play(
        &mut stream,
        &[
            (StreamEvent::Context(2), StreamAction::QueryCapture),
            // The capture of the last pass ends before the next one starts.
            (YES, StreamAction::WaitForToken { submit_encoded: false, end_capture: true }),
            (StreamEvent::Token(3), StreamAction::StartCapture),
        ],
    );
}

#[test]
fn malformed_trees_are_not_expected() {
    let mut stream = speculating();
    assert!(!stream.is_tree_expected(&sampled()));
    stream.generate();
    assert!(!stream.is_tree_expected(&[]));
    assert!(!stream.is_tree_expected(&[AcceptedToken { index: 5, input: 9, output: 1 }]));
    assert!(stream.is_tree_expected(&[AcceptedToken { index: 4, input: 9, output: 1 }]));
}

#[test]
fn prompts_are_cut_into_batches() {
    let part = |start, length, sample_last| PrefillPart { start, length, sample_last };
    assert_eq!(prefill_parts(0, true), vec![]);
    assert_eq!(prefill_parts(1, true), vec![part(0, 1, true)]);
    assert_eq!(
        prefill_parts(2049, false),
        vec![part(0, 1024, false), part(1024, 1024, false), part(2048, 1, true)]
    );
    assert_eq!(
        prefill_parts(2048, true),
        vec![part(0, 1024, false), part(1024, 1023, false), part(2047, 1, true)]
    );
}

fn model(data_type: Option<DataType>, length: Option<u32>, sparse: bool) -> LanguageModel {
    LanguageModel::new(
        LanguageModelConfig {
            token_codec_config: TokenCodecConfig::Chat {
                end_of_thinking_tag: Some("</think>".to_string()),
            },
            data_type,
        },
        DecoderCapabilities { max_context_length: length, speculation_supported: true },
        sparse,
        true,
    )
}

#[test]
fn a_model_recommends_what_a_device_can_hold() {
    assert_eq!(model(None, Some(32768), false).recommended_context_length(true), Some(8192));
    assert_eq!(model(None, Some(32768), false).recommended_context_length(false), Some(16384));
    assert_eq!(model(None, Some(4096), false).recommended_context_length(true), Some(4096));
    assert_eq!(model(None, Some(32768), true).recommended_context_length(true), Some(32768));
    assert_eq!(model(None, None, false).recommended_context_length(false), None);
    let model = model(Some(DataType::F32), Some(7), false);
    assert_eq!(model.max_context_length(), Some(7));
    assert_eq!(model.end_of_thinking_tag(), Some("</think>"));
    assert_eq!(model.data_type(), DataType::F32);
    assert!(model.speculation_supported());
    let raw = LanguageModel::new(
        LanguageModelConfig { token_codec_config: TokenCodecConfig::RawText, data_type: None },
        DecoderCapabilities { max_context_length: None, speculation_supported: false },
        false,
        false,
    );
    assert_eq!(raw.end_of_thinking_tag(), None);
    assert_eq!(raw.data_type(), DataType::BF16);
}

/// Answers each action as a backend without a grammar or speculator would, up to the end of the call.
fn finish(stream: &mut LanguageModelStream, first: StreamAction, context: u32, sampled: u32) -> Option<u64> {
    let mut action = first;
    loop {
        action = match action {
            StreamAction::Return(token) => return token,
            StreamAction::QueryContextLength => stream.resume(StreamEvent::Context(context)),
            StreamAction::QueryCapture => stream.resume(NO),
            StreamAction::EncodePass { .. } => stream.resume(DONE),
            StreamAction::FinishPass { .. } => {
                stream.resume(StreamEvent::Pass { output_norm: false })
            }
            StreamAction::WaitForToken { .. } => stream.resume(StreamEvent::Token(sampled)),
            other => panic!("{other:?}"),
        };
    }
}

#[test]
fn a_run_leaves_the_prompt_and_what_it_yielded() {
    let mut stream = open(state(&[1], Some(5), Some(9)), &[5, 6], PLAIN, false);
    let mut yielded = Vec::new();
    for (context, sampled) in [(3, 20), (4, 21), (5, 22)] {
        let action = stream.generate();
        yielded.extend(finish(&mut stream, action, context, sampled));
        assert_eq!(stream.metrics().num_tokens_returned, yielded.len());
    }
    assert_eq!(yielded, [20, 21, 22]);
    let before = *stream.metrics();
    assert_eq!(before.num_decode_forward_passes, 2);
    assert_eq!(stream.generate(), StreamAction::Return(None));
    assert_eq!(*stream.metrics(), before);
    assert_eq!(stream.tokens(), &[1, 5, 6, 20, 21, 22]);
}

#[test]
fn a_closed_stream_keeps_the_next_token() {
    let mut stream = open(state(&[1], None, Some(9)), &[5, 6], PLAIN, false);
    let action = stream.generate();
    assert_eq!(finish(&mut stream, action, 3, 20), Some(20));
    let kept = stream.into_state(21);
    assert_eq!(kept, state(&[1, 5, 6, 20], None, Some(21)));
}

#[test]
fn a_call_that_fails_ends_its_capture() {
    let (mut stream, _) =
        LanguageModelStream::new(state(&[1], None, Some(9)), vec![5], PLAIN).unwrap();
    assert_eq!(stream.resume(YES), StreamAction::StartCapture);
    assert!(!stream.holds_capture());
    stream.resume(DONE);
    assert!(stream.holds_capture());
    assert_eq!(stream.resume(StreamEvent::Failed), StreamAction::Fail);
    assert!(!stream.holds_capture());

    let mut stream = open(state(&[1], None, Some(9)), &[], PLAIN, false);
    stream.generate();
    stream.resume(StreamEvent::Context(1));
    assert_eq!(stream.resume(YES), StreamAction::StartCapture);
    stream.resume(DONE);
    assert!(stream.holds_capture());
    stream.resume(DONE);
    let returned = stream.resume(StreamEvent::Pass { output_norm: false });
    assert_eq!(returned, StreamAction::Return(Some(9)));
    assert!(!stream.holds_capture());
    assert_eq!(
        stream.close_action(),
        CloseAction::WaitForPass { accept_root: false, end_capture: true }
    );
    stream.generate();
    assert!(stream.holds_capture());
}

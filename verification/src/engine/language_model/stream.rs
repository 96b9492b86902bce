//! The decoding state machine of a token stream.
//!
//! A [`LanguageModelStream`] decides what the backend does next and learns from the backend's
//! answers. [`LanguageModelStream::new`] and [`LanguageModelStream::generate`] return the first
//! [`StreamAction`]; each action is answered with [`LanguageModelStream::resume`] (or, where a
//! proposed tree was sampled, with [`LanguageModelStream::resume_with_tree`]) until an action ends
//! the call.
use vstd::prelude::*;

use crate::arithmetic::div_ceil;
use crate::data_type::DataType;
use crate::engine::language_model::prefill;
use crate::engine::language_model::prefill::{prefill_parts, PrefillPart, MAX_BATCH_SIZE};

verus! {

/// Counts of what a stream has done.
#[derive(Clone, Copy, Debug, PartialEq, Eq)]
pub struct TokenStreamMetrics {
    pub num_prefill_forward_passes: usize,
    pub num_tokens_prefilled: usize,
    pub num_decode_forward_passes: usize,
    pub num_tokens_proposed: usize,
    pub num_tokens_accepted: usize,
    pub num_tokens_returned: usize,
}

/// What a model remembers between two streams.
#[derive(Debug, PartialEq, Eq)]
pub struct LanguageModelState {
    pub tokens: Vec<u64>,
    pub max_context_length: Option<u32>,
    /// A token that was sampled but not handed out by the last stream.
    pub last_output_token: Option<u64>,
}

/// The model and the options that a stream runs with.
#[derive(Clone, Copy, Debug, PartialEq, Eq)]
pub struct StreamSettings {
    /// How many trailing tokens the repetition penalty looks at, where there is one.
    pub suffix_repetition_length: Option<u32>,
    /// Whether sampling draws random numbers.
    pub stochastic: bool,
    /// Whether a grammar restricts the output.
    pub grammar: bool,
    /// Whether a speculator proposes trees of tokens.
    pub speculator: bool,
    /// Whether prefilling skips the trailing layers, so that the sampled row is encoded alone.
    pub split_logits_row: bool,
}

/// Why a stream cannot be opened.
#[derive(Clone, Copy, Debug, PartialEq, Eq)]
pub enum LanguageModelStreamError {
    NoSeedToken,
    ContextOverflow,
}

/// A refused stream: the reason, and the model state as it was given.
#[derive(Debug, PartialEq, Eq)]
pub struct RefusedStream {
    pub error: LanguageModelStreamError,
    pub state: LanguageModelState,
}

/// A node of a proposed tree whose token was accepted.
#[derive(Clone, Copy, Debug, PartialEq, Eq)]
pub struct AcceptedToken {
    /// The index of the node in the linearized tree.
    pub index: usize,
    /// The token of the node.
    pub input: u64,
    /// The token that was sampled behind it.
    pub output: u64,
}

/// What the last finished step left to be handed out.
#[derive(Clone, Copy, Debug, PartialEq, Eq)]
pub enum DecodingState {
    /// A token that was sampled by an earlier stream.
    Seeded { seed_token: u64 },
    /// A forward pass that was submitted.
    ForwardPassPending {
        /// Whether each token of the pass was accepted when it was encoded.
        full_accept: bool,
        /// Whether the pass hands over its last hidden state.
        output_norm: bool,
        /// Whether a capture runs around the pass.
        capture: bool,
    },
    /// Accepted tokens of a tree, of which the first `num_accepted` were handed out.
    Accepting { num_accepted: usize, row_bytes: Option<usize>, capture: bool },
    /// The context is full.
    Halted,
    /// A step has begun and not ended.
    Invalid,
}

/// Where the token that goes into the next forward pass is.
#[derive(Clone, Copy, Debug, PartialEq, Eq)]
pub enum ForwardPassChaining {
    Constant { token: u64, output_norm: bool },
    InFlight { output_norm: bool, capture: bool },
}

/// What the token in flight is needed for.
#[derive(Clone, Copy, Debug, PartialEq, Eq)]
pub enum ResolvePoint {
    Halt,
    Capture,
    Speculation,
    Bitmask,
    Return,
}

/// What the stream waits for.
#[derive(Clone, Copy, Debug, PartialEq, Eq)]
pub enum Phase {
    OpenCaptureQuery,
    OpenCaptureStart,
    OpenRing,
    OpenContextLength,
    OpenPrepare,
    OpenPart,
    OpenSubmit,
    Abandoned,
    Ready,
    SeedGrammar { token: u64 },
    TreeSampling { capture: bool },
    AcceptEncoding { output_norm: bool, capture: bool },
    ContextLength,
    CaptureQuery,
    CaptureStart,
    ShapeQuery,
    TreeProposal,
    PassEncoding { chained: bool },
    PassFinishing,
    Resolving { point: ResolvePoint },
    GrammarAccepting { point: ResolvePoint },
}

/// A range of bytes.
#[derive(Clone, Copy, Debug, PartialEq, Eq)]
pub struct ByteRange {
    pub start: usize,
    pub end: usize,
}

/// The tokens that a forward pass reads.
#[derive(Clone, Copy, Debug, PartialEq, Eq)]
pub enum PassInput {
    /// One token.
    Token(u64),
    /// The one token that the previous pass samples.
    Chained,
    /// The nodes of the proposed tree.
    Tree,
}

/// How a grammar masks the samples of a pass.
#[derive(Clone, Copy, Debug, PartialEq, Eq)]
pub enum PassBitmask {
    Unmasked,
    /// One mask for the token that follows the grammar's state.
    Next,
    /// One mask for each node of the input.
    PerNode,
}

/// What the backend is to do.
#[derive(Clone, Copy, Debug, PartialEq, Eq)]
pub enum StreamAction {
    /// Say whether a capture is asked for; answered by `Flag`.
    QueryCapture,
    /// Start the capture; answered by `Done`.
    StartCapture,
    /// Allocate the repetition ring and fill it with `initial_ring`; answered by `Done`.
    CreateRing { words: u32 },
    /// Read the context length of the transformer state; answered by `Context`.
    QueryContextLength,
    /// Prepare the transformer state for the prefill; answered by `Done`.
    Prepare { context_length: u32, rows: u32 },
    /// Encode a part of the prompt, which stands at `position` in the context, and accept it;
    /// `seed_index` gives the seed of the sampled row. Answered by `Done`.
    EncodePart {
        part: PrefillPart,
        position: usize,
        seed_index: Option<u64>,
        masked: bool,
        ring_length: Option<u32>,
    },
    /// Submit the encoded prefill; answered by `Pass`.
    SubmitPrefill,
    /// The stream is open; a capture around no pass ends.
    Opened { end_capture: bool },
    /// Let the grammar take the seed token; answered by `Done`, or by `Failed`, which is ignored.
    OfferToGrammar { token: u64 },
    /// Wait for the sampled tree and walk it; answered by `resume_with_tree`.
    WaitForTree,
    /// Accept the rows `accepted_indices(count)`, keep the hidden state in `norm_row`, put
    /// `accepted_inputs` into the ring and end the capture; answered by `Done`.
    EncodeAccept {
        count: usize,
        norm_row: Option<ByteRange>,
        ring_length: Option<u32>,
        end_capture: bool,
    },
    /// Ask the speculator for the shape of a tree that fits the budget; answered by `Flag`.
    QueryShape { budget: Option<u32> },
    /// Submit what was encoded for the accepted tokens and propose a tree; answered by `Proposal`.
    ProposeTree { root_token: u64, submit_accept: bool },
    /// Encode a forward pass; answered by `Done`.
    EncodePass { input: PassInput, root_seed_index: u64, batch_size: usize, open_encoder: bool },
    /// Wait for the token in flight, before that submit what was encoded, and behind it end the capture
    /// around the pass; answered by `Token`.
    WaitForToken { submit_encoded: bool, end_capture: bool },
    /// Let the grammar take a token; answered by `Done`.
    AcceptInGrammar { token: u64 },
    /// Sample, accept all rows where `accept_all`, and submit the pass; answered by `Pass`.
    FinishPass {
        bitmask: PassBitmask,
        seeds: bool,
        accept_all: bool,
        ring_length: Option<u32>,
        batch_size: usize,
    },
    /// `generate` returns the token, or the end of the stream.
    Return(Option<u64>),
    /// The call returns the backend's error.
    Fail,
}

/// What the backend is to do before a stream is closed.
#[derive(Clone, Copy, Debug, PartialEq, Eq)]
pub enum CloseAction {
    /// Nothing.
    Close,
    /// Wait for the pending pass, accept its first row where `accept_root`, read the first sampled
    /// token, and end the capture around the pass.
    WaitForPass { accept_root: bool, end_capture: bool },
    /// Accept the rows `accepted_indices(count)`, and end the capture around their pass.
    AcceptPrefix { count: usize, end_capture: bool },
}

/// What the backend answers.
#[derive(Clone, Copy, Debug, PartialEq, Eq)]
pub enum StreamEvent {
    Done,
    Failed,
    Flag(bool),
    Context(u32),
    Token(u32),
    Proposal { nodes: usize },
    Pass { output_norm: bool },
}

/// The fields of a stream that are plain values.
#[derive(Clone, Copy, Debug, PartialEq, Eq)]
pub struct StreamControl {
    pub max_context_length: Option<u32>,
    pub last_output_token: Option<u64>,
    pub settings: StreamSettings,
    pub metrics: TokenStreamMetrics,
    pub decoding_state: DecodingState,
    pub phase: Phase,
    /// The token that the running call returns.
    pub chaining: ForwardPassChaining,
    /// Whether commands are encoded and not yet submitted.
    pub encoder_open: bool,
    pub context_length: u32,
    pub capture: bool,
    /// Whether the running pass reads a tree.
    pub tree: bool,
    /// The number of rows of the running pass.
    pub batch_size: usize,
    /// The number of parts of the prompt that were encoded.
    pub parts_encoded: usize,
}

/// A stream of tokens.
#[derive(Debug)]
pub struct LanguageModelStream {
    tokens: Vec<u64>,
    accepted: Vec<AcceptedToken>,
    input: Vec<u64>,
    parts: Vec<PrefillPart>,
    control: StreamControl,
}

/// A stream as a mathematical value.
#[verifier::ext_equal]
pub struct StreamModel {
    pub tokens: Seq<u64>,
    pub accepted: Seq<AcceptedToken>,
    pub input: Seq<u64>,
    pub parts: Seq<PrefillPart>,
    pub control: StreamControl,
}

impl View for LanguageModelStream {
    type V = StreamModel;

    closed spec fn view(&self) -> StreamModel {
        StreamModel {
            tokens: self.tokens@,
            accepted: self.accepted@,
            input: self.input@,
            parts: self.parts@,
            control: self.control,
        }
    }
}

/// The tokens that were sampled behind the first `count` accepted nodes.
pub open spec fn outputs(accepted: Seq<AcceptedToken>, count: int) -> Seq<u64> {
    Seq::new(count as nat, |i: int| accepted[i].output)
}

/// The low half of a token, as the backend reads it.
pub open spec fn token_word(token: u64) -> u32 {
    (token % 0x1_0000_0000) as u32
}

/// The repetition ring at the start: an offset, the number of tokens in it, the last `length`
/// tokens, and zeros up to its end.
pub open spec fn ring_words(tokens: Seq<u64>, length: u32) -> Seq<u32> {
    let kept = if tokens.len() < length {
        tokens.len() as int
    } else {
        length as int
    };
    Seq::new(
        (2 + length) as nat,
        |i: int|
            if i == 0 {
                0
            } else if i == 1 {
                kept as u32
            } else if i < 2 + kept {
                token_word(tokens[tokens.len() - kept + (i - 2)])
            } else {
                0
            },
    )
}

pub open spec fn no_metrics() -> TokenStreamMetrics {
    TokenStreamMetrics {
        num_prefill_forward_passes: 0,
        num_tokens_prefilled: 0,
        num_decode_forward_passes: 0,
        num_tokens_proposed: 0,
        num_tokens_accepted: 0,
        num_tokens_returned: 0,
    }
}

impl StreamModel {
    pub open spec fn with_phase(self, phase: Phase) -> StreamModel {
        StreamModel { control: StreamControl { phase, ..self.control }, ..self }
    }

    pub open spec fn with_decoding_state(self, decoding_state: DecodingState) -> StreamModel {
        StreamModel { control: StreamControl { decoding_state, ..self.control }, ..self }
    }

    pub open spec fn with_chaining(self, chaining: ForwardPassChaining) -> StreamModel {
        StreamModel { control: StreamControl { chaining, ..self.control }, ..self }
    }

    pub open spec fn with_token(self, token: u64) -> StreamModel {
        StreamModel { tokens: self.tokens.push(token), ..self }
    }

    pub open spec fn count_returned(self) -> StreamModel {
        let metrics = self.control.metrics;
        StreamModel {
            control: StreamControl {
                metrics: TokenStreamMetrics {
                    num_tokens_returned: (metrics.num_tokens_returned + 1) as usize,
                    ..metrics
                },
                ..self.control
            },
            ..self
        }
    }

    /// The length of the context that would make the stream halt is known and reached.
    pub open spec fn context_is_full(self) -> bool {
        self.control.max_context_length matches Some(limit) && self.control.context_length >= limit
    }

    // Opening a stream.

    pub open spec fn opened_capture(self, capture: bool) -> (StreamModel, StreamAction) {
        let next = StreamModel { control: StreamControl { capture, ..self.control }, ..self };
        match self.control.settings.suffix_repetition_length {
            Some(length) => (
                next.with_phase(Phase::OpenRing),
                StreamAction::CreateRing { words: (2 + length) as u32 },
            ),
            None => next.opened_ring(),
        }
    }

    pub open spec fn opened_ring(self) -> (StreamModel, StreamAction) {
        let next = StreamModel {
            control: StreamControl { last_output_token: None, ..self.control },
            ..self
        };
        if self.input.len() > 0 {
            (next.with_phase(Phase::OpenContextLength), StreamAction::QueryContextLength)
        } else {
            (
                next.with_decoding_state(
                    DecodingState::Seeded { seed_token: self.control.last_output_token->Some_0 },
                ).with_phase(Phase::Ready),
                StreamAction::Opened { end_capture: self.control.capture },
            )
        }
    }

    /// The part of the prompt that is encoded next.
    pub open spec fn encode_part(self) -> StreamAction {
        let part = self.parts[self.control.parts_encoded as int];
        let sampled_seed = part.sample_last && self.control.settings.stochastic;
        StreamAction::EncodePart {
            part,
            position: self.tokens.len() as usize,
            seed_index: if sampled_seed {
                Some((self.tokens.len() + part.length - 1) as u64)
            } else {
                None
            },
            masked: part.sample_last && self.control.settings.grammar,
            ring_length: self.control.settings.suffix_repetition_length,
        }
    }

    pub open spec fn part_encoded(self) -> (StreamModel, StreamAction) {
        let part = self.parts[self.control.parts_encoded as int];
        let next = StreamModel {
            tokens: self.tokens + self.input.subrange(
                part.start as int,
                part.start + part.length,
            ),
            control: StreamControl {
                parts_encoded: (self.control.parts_encoded + 1) as usize,
                ..self.control
            },
            ..self
        };
        if next.control.parts_encoded < self.parts.len() {
            (next, next.encode_part())
        } else {
            (next.with_phase(Phase::OpenSubmit), StreamAction::SubmitPrefill)
        }
    }

    pub open spec fn prefill_submitted(self, output_norm: bool) -> (StreamModel, StreamAction) {
        let control = StreamControl {
            metrics: TokenStreamMetrics {
                num_prefill_forward_passes: 1,
                num_tokens_prefilled: self.input.len() as usize,
                num_tokens_proposed: 1,
                num_tokens_accepted: 1,
                ..no_metrics()
            },
            decoding_state: DecodingState::ForwardPassPending {
                full_accept: true,
                output_norm,
                capture: self.control.capture,
            },
            phase: Phase::Ready,
            ..self.control
        };
        (StreamModel { control, ..self }, StreamAction::Opened { end_capture: false })
    }

    // Generating a token.

    pub open spec fn ask_context(
        self,
        chaining: ForwardPassChaining,
        encoder_open: bool,
    ) -> (StreamModel, StreamAction) {
        let control = StreamControl {
            chaining,
            encoder_open,
            phase: Phase::ContextLength,
            ..self.control
        };
        (StreamModel { control, ..self }, StreamAction::QueryContextLength)
    }

    pub open spec fn generated(self) -> (StreamModel, StreamAction) {
        let taken = self.with_decoding_state(DecodingState::Invalid);
        match self.control.decoding_state {
            DecodingState::Seeded { seed_token } => if self.control.settings.grammar {
                (
                    taken.with_token(seed_token).with_phase(Phase::SeedGrammar { token: seed_token }),
                    StreamAction::OfferToGrammar { token: seed_token },
                )
            } else {
                taken.with_token(seed_token).seed_offered(seed_token)
            },
            DecodingState::ForwardPassPending { full_accept, output_norm, capture } => if full_accept {
                taken.count_returned().ask_context(
                    ForwardPassChaining::InFlight { output_norm, capture },
                    false,
                )
            } else {
                (taken.with_phase(Phase::TreeSampling { capture }), StreamAction::WaitForTree)
            },
            DecodingState::Accepting { num_accepted, row_bytes, capture } => self.next_accepted(
                num_accepted,
                row_bytes,
                capture,
            ),
            DecodingState::Halted => (taken, StreamAction::Return(None)),
            DecodingState::Invalid => (self, StreamAction::Fail),
        }
    }

    pub open spec fn seed_offered(self, token: u64) -> (StreamModel, StreamAction) {
        self.count_returned().ask_context(
            ForwardPassChaining::Constant { token, output_norm: false },
            false,
        )
    }

    /// Hands out the accepted token at `num_accepted`.
    pub open spec fn next_accepted(
        self,
        num_accepted: usize,
        row_bytes: Option<usize>,
        capture: bool,
    ) -> (StreamModel, StreamAction) {
        let counted = self.count_returned();
        if num_accepted + 1 < self.accepted.len() {
            (
                counted.with_decoding_state(
                    DecodingState::Accepting {
                        num_accepted: (num_accepted + 1) as usize,
                        row_bytes,
                        capture,
                    },
                ).with_phase(Phase::Ready),
                StreamAction::Return(Some(self.accepted[num_accepted as int].output)),
            )
        } else {
            let row = self.accepted.last().index;
            (
                counted.with_decoding_state(DecodingState::Invalid).with_phase(
                    Phase::AcceptEncoding { output_norm: row_bytes is Some, capture },
                ),
                StreamAction::EncodeAccept {
                    count: self.accepted.len() as usize,
                    norm_row: match row_bytes {
                        Some(bytes) => Some(
                            ByteRange {
                                start: (row * bytes) as usize,
                                end: ((row + 1) * bytes) as usize,
                            },
                        ),
                        None => None,
                    },
                    ring_length: self.control.settings.suffix_repetition_length,
                    end_capture: capture,
                },
            )
        }
    }

    /// The bytes of one row of the last hidden state of the running pass, where the pass kept it in
    /// `norm_bytes` bytes.
    pub open spec fn row_bytes(self, norm_bytes: Option<usize>) -> Option<usize> {
        match norm_bytes {
            Some(bytes) => Some(bytes / self.control.batch_size),
            None => None,
        }
    }

    pub open spec fn tree_sampled(
        self,
        accepted: Seq<AcceptedToken>,
        norm_bytes: Option<usize>,
        capture: bool,
    ) -> (StreamModel, StreamAction) {
        let metrics = self.control.metrics;
        StreamModel {
            accepted,
            control: StreamControl {
                metrics: TokenStreamMetrics {
                    num_tokens_accepted: (metrics.num_tokens_accepted + accepted.len()) as usize,
                    ..metrics
                },
                ..self.control
            },
            ..self
        }.next_accepted(0, self.row_bytes(norm_bytes), capture)
    }

    pub open spec fn accept_encoded(self, output_norm: bool) -> (StreamModel, StreamAction) {
        let token = self.accepted.last().output;
        StreamModel {
            tokens: self.tokens + outputs(self.accepted, self.accepted.len() as int),
            accepted: Seq::empty(),
            ..self
        }.ask_context(ForwardPassChaining::Constant { token, output_norm }, true)
    }

    pub open spec fn context_known(self, context_length: u32) -> (StreamModel, StreamAction) {
        let next = StreamModel {
            control: StreamControl { context_length, ..self.control },
            ..self
        };
        if next.context_is_full() {
            next.with_decoding_state(DecodingState::Halted).resolve(ResolvePoint::Halt)
        } else {
            (next.with_phase(Phase::CaptureQuery), StreamAction::QueryCapture)
        }
    }

    pub open spec fn capture_known(self, capture: bool) -> (StreamModel, StreamAction) {
        let next = StreamModel { control: StreamControl { capture, ..self.control }, ..self };
        if self.control.settings.speculator {
            (
                next.with_phase(Phase::ShapeQuery),
                StreamAction::QueryShape {
                    budget: match self.control.max_context_length {
                        Some(limit) => Some((limit - self.control.context_length) as u32),
                        None => None,
                    },
                },
            )
        } else {
            next.encode_pass(false, 1)
        }
    }

    pub open spec fn encode_pass(self, tree: bool, batch_size: usize) -> (StreamModel, StreamAction) {
        let input = if tree {
            PassInput::Tree
        } else {
            match self.control.chaining {
                ForwardPassChaining::Constant { token, .. } => PassInput::Token(token),
                ForwardPassChaining::InFlight { .. } => PassInput::Chained,
            }
        };
        let control = StreamControl {
            tree,
            batch_size,
            phase: Phase::PassEncoding { chained: input is Chained },
            ..self.control
        };
        (
            StreamModel { control, ..self },
            StreamAction::EncodePass {
                input,
                root_seed_index: self.control.context_length as u64,
                batch_size,
                open_encoder: !self.control.encoder_open,
            },
        )
    }

    pub open spec fn finish_pass(self, chained: bool) -> (StreamModel, StreamAction) {
        (
            self.with_phase(Phase::PassFinishing),
            StreamAction::FinishPass {
                bitmask: if !self.control.settings.grammar {
                    PassBitmask::Unmasked
                } else if chained {
                    PassBitmask::Next
                } else {
                    PassBitmask::PerNode
                },
                seeds: self.control.settings.stochastic,
                accept_all: !self.control.tree,
                ring_length: if self.control.tree {
                    None
                } else {
                    self.control.settings.suffix_repetition_length
                },
                batch_size: self.control.batch_size,
            },
        )
    }

    pub open spec fn pass_finished(self, output_norm: bool) -> (StreamModel, StreamAction) {
        let metrics = self.control.metrics;
        let batch_size = self.control.batch_size;
        let next = StreamModel {
            control: StreamControl {
                metrics: TokenStreamMetrics {
                    num_decode_forward_passes: (metrics.num_decode_forward_passes + 1) as usize,
                    num_tokens_proposed: (metrics.num_tokens_proposed + batch_size) as usize,
                    num_tokens_accepted: if self.control.tree {
                        metrics.num_tokens_accepted
                    } else {
                        (metrics.num_tokens_accepted + batch_size) as usize
                    },
                    ..metrics
                },
                decoding_state: DecodingState::ForwardPassPending {
                    full_accept: !self.control.tree,
                    output_norm,
                    capture: self.control.capture,
                },
                ..self.control
            },
            ..self
        };
        next.resolve(ResolvePoint::Return)
    }

    /// The token in flight is needed.
    pub open spec fn resolve(self, point: ResolvePoint) -> (StreamModel, StreamAction) {
        match self.control.chaining {
            ForwardPassChaining::Constant { token, output_norm } => self.resolved(
                point,
                token,
                output_norm,
            ),
            ForwardPassChaining::InFlight { capture, .. } => (
                self.with_phase(Phase::Resolving { point }),
                StreamAction::WaitForToken {
                    submit_encoded: point is Bitmask,
                    end_capture: capture,
                },
            ),
        }
    }

    pub open spec fn token_arrived(self, point: ResolvePoint, token: u64) -> (
        StreamModel,
        StreamAction,
    ) {
        let output_norm = self.control.chaining->InFlight_output_norm;
        let next = self.with_token(token).with_chaining(
            ForwardPassChaining::Constant { token, output_norm },
        );
        if self.control.settings.grammar {
            (
                next.with_phase(Phase::GrammarAccepting { point }),
                StreamAction::AcceptInGrammar { token },
            )
        } else {
            next.resolved(point, token, output_norm)
        }
    }

    /// The call goes on with a token that is known.
    pub open spec fn resolved(self, point: ResolvePoint, token: u64, output_norm: bool) -> (
        StreamModel,
        StreamAction,
    ) {
        match point {
            ResolvePoint::Halt | ResolvePoint::Return => (
                self.with_phase(Phase::Ready),
                StreamAction::Return(Some(token)),
            ),
            ResolvePoint::Capture => (
                self.with_phase(Phase::CaptureStart),
                StreamAction::StartCapture,
            ),
            ResolvePoint::Speculation => if output_norm {
                (
                    StreamModel {
                        control: StreamControl {
                            encoder_open: false,
                            phase: Phase::TreeProposal,
                            ..self.control
                        },
                        ..self
                    },
                    StreamAction::ProposeTree {
                        root_token: token,
                        submit_accept: self.control.encoder_open,
                    },
                )
            } else {
                self.encode_pass(false, 1)
            },
            ResolvePoint::Bitmask => self.finish_pass(true),
        }
    }

    /// The backend failed: the call ends.
    pub open spec fn failed(self) -> (StreamModel, StreamAction) {
        let phase = if self.is_opening() {
            Phase::Abandoned
        } else {
            Phase::Ready
        };
        (self.with_phase(phase), StreamAction::Fail)
    }

    pub open spec fn is_opening(self) -> bool {
        match self.control.phase {
            Phase::OpenCaptureQuery | Phase::OpenCaptureStart | Phase::OpenRing
            | Phase::OpenContextLength | Phase::OpenPrepare | Phase::OpenPart
            | Phase::OpenSubmit => true,
            _ => false,
        }
    }

    /// The capture that was asked for last runs, around a pass that is being encoded.
    pub open spec fn captures_encoding(self) -> bool {
        self.control.capture && match self.control.phase {
            Phase::OpenRing | Phase::OpenContextLength | Phase::OpenPrepare | Phase::OpenPart
            | Phase::OpenSubmit | Phase::ShapeQuery | Phase::TreeProposal
            | Phase::PassEncoding { .. } | Phase::PassFinishing | Phase::Resolving {
                point: ResolvePoint::Speculation | ResolvePoint::Bitmask,
            } | Phase::GrammarAccepting {
                point: ResolvePoint::Speculation | ResolvePoint::Bitmask,
            } => true,
            _ => false,
        }
    }

    /// A capture runs around the pass whose tokens the running call hands out.
    pub open spec fn captures_output(self) -> bool {
        match (self.control.phase, self.control.chaining) {
            (Phase::TreeSampling { capture }, _) => capture,
            (Phase::AcceptEncoding { capture, .. }, _) => capture,
            (_, ForwardPassChaining::InFlight { capture, .. }) => capture && self.is_chaining(),
            _ => false,
        }
    }

    /// A capture runs that ends where the running call fails.
    pub open spec fn holds_capture(self) -> bool {
        self.captures_encoding() || self.captures_output()
    }

    /// What closing the stream asks of the backend.
    pub open spec fn close_action(self) -> CloseAction {
        match self.control.decoding_state {
            DecodingState::ForwardPassPending { full_accept, capture, .. } => {
                CloseAction::WaitForPass { accept_root: !full_accept, end_capture: capture }
            },
            DecodingState::Accepting { num_accepted, capture, .. } => CloseAction::AcceptPrefix {
                count: (num_accepted + 1) as usize,
                end_capture: capture,
            },
            _ => CloseAction::Close,
        }
    }

    /// The token that was sampled and not handed out; `sampled` is the first token of a pending
    /// pass.
    pub open spec fn pending_token(self, sampled: u32) -> Option<u64> {
        match self.control.decoding_state {
            DecodingState::Seeded { seed_token } => Some(seed_token),
            DecodingState::ForwardPassPending { .. } => Some(sampled as u64),
            DecodingState::Accepting { num_accepted, .. } => Some(
                self.accepted[num_accepted as int].output,
            ),
            DecodingState::Halted => None,
            DecodingState::Invalid => None,
        }
    }

    /// The tokens that were handed out and are not yet part of `tokens`.
    pub open spec fn unrecorded(self) -> Seq<u64> {
        match (self.control.phase, self.control.decoding_state) {
            (Phase::AcceptEncoding { .. }, _) => outputs(self.accepted, self.accepted.len() - 1),
            (_, DecodingState::Accepting { num_accepted, .. }) => outputs(
                self.accepted,
                num_accepted as int,
            ),
            _ => Seq::empty(),
        }
    }

    /// The prompt and the tokens that were handed out, in order.
    pub open spec fn history(self) -> Seq<u64> {
        match self.known_token() {
            Some(_) => self.tokens.drop_last(),
            None => self.tokens + self.unrecorded(),
        }
    }

    /// The state after the event, and what the backend does next.
    pub open spec fn resumed(self, event: StreamEvent) -> (StreamModel, StreamAction) {
        match (self.control.phase, event) {
            (Phase::SeedGrammar { token }, _) => self.seed_offered(token),
            (_, StreamEvent::Failed) => self.failed(),
            (Phase::OpenCaptureQuery, StreamEvent::Flag(capture)) => if capture {
                (self.with_phase(Phase::OpenCaptureStart), StreamAction::StartCapture)
            } else {
                self.opened_capture(false)
            },
            (Phase::OpenCaptureStart, _) => self.opened_capture(true),
            (Phase::OpenRing, _) => self.opened_ring(),
            (Phase::OpenContextLength, StreamEvent::Context(context_length)) => (
                self.with_phase(Phase::OpenPrepare),
                StreamAction::Prepare {
                    context_length: (context_length + prefill_lead(self.input.len() as int)) as u32,
                    rows: if self.input.len() < MAX_BATCH_SIZE {
                        self.input.len() as u32
                    } else {
                        MAX_BATCH_SIZE as u32
                    },
                },
            ),
            (Phase::OpenPrepare, _) => (self.with_phase(Phase::OpenPart), self.encode_part()),
            (Phase::OpenPart, _) => self.part_encoded(),
            (Phase::OpenSubmit, StreamEvent::Pass { output_norm }) => self.prefill_submitted(
                output_norm,
            ),
            (Phase::AcceptEncoding { output_norm, .. }, _) => self.accept_encoded(output_norm),
            (Phase::ContextLength, StreamEvent::Context(context_length)) => self.context_known(
                context_length,
            ),
            (Phase::CaptureQuery, StreamEvent::Flag(capture)) => if capture {
                self.resolve(ResolvePoint::Capture)
            } else {
                self.capture_known(false)
            },
            (Phase::CaptureStart, _) => self.capture_known(true),
            (Phase::ShapeQuery, StreamEvent::Flag(shape)) => if shape {
                self.resolve(ResolvePoint::Speculation)
            } else {
                self.encode_pass(false, 1)
            },
            (Phase::TreeProposal, StreamEvent::Proposal { nodes }) => self.encode_pass(true, nodes),
            (Phase::PassEncoding { chained }, _) => if chained && self.control.settings.grammar {
                self.resolve(ResolvePoint::Bitmask)
            } else {
                self.finish_pass(chained)
            },
            (Phase::PassFinishing, StreamEvent::Pass { output_norm }) => self.pass_finished(
                output_norm,
            ),
            (Phase::Resolving { point }, StreamEvent::Token(token)) => self.token_arrived(
                point,
                token as u64,
            ),
            (Phase::GrammarAccepting { point }, _) => self.resolve(point),
            _ => self.failed(),
        }
    }

    /// The event is an answer to the action that the stream waits for, and no count overflows.
    pub open spec fn expects(self, event: StreamEvent) -> bool {
        let metrics = self.control.metrics;
        match (self.control.phase, event) {
            (Phase::Ready, _) => false,
            (Phase::Abandoned, _) => false,
            (Phase::TreeSampling { .. }, StreamEvent::Failed) => true,
            (Phase::TreeSampling { .. }, _) => false,
            (_, StreamEvent::Failed) => true,
            (
                Phase::OpenCaptureQuery | Phase::CaptureQuery | Phase::ShapeQuery,
                StreamEvent::Flag(_),
            ) => true,
            (
                Phase::OpenCaptureQuery | Phase::CaptureQuery | Phase::ShapeQuery,
                _,
            ) => false,
            (Phase::OpenContextLength, StreamEvent::Context(context_length)) => context_length
                + prefill_lead(self.input.len() as int) <= u32::MAX,
            (Phase::OpenContextLength, _) => false,
            (Phase::ContextLength, StreamEvent::Context(_)) => true,
            (Phase::ContextLength, _) => false,
            (Phase::OpenSubmit, StreamEvent::Pass { .. }) => true,
            (Phase::OpenSubmit, _) => false,
            (Phase::PassFinishing, StreamEvent::Pass { .. }) => {
                &&& metrics.num_decode_forward_passes < usize::MAX
                &&& metrics.num_tokens_proposed + self.control.batch_size <= usize::MAX
                &&& metrics.num_tokens_accepted + self.control.batch_size <= usize::MAX
            },
            (Phase::PassFinishing, _) => false,
            (Phase::TreeProposal, StreamEvent::Proposal { nodes }) => nodes > 0,
            (Phase::TreeProposal, _) => false,
            (Phase::Resolving { .. }, StreamEvent::Token(_)) => true,
            (Phase::Resolving { .. }, _) => false,
            (_, StreamEvent::Done) => true,
            _ => false,
        }
    }

    /// The accepted nodes are an answer to a sampled tree, and no count overflows.
    pub open spec fn expects_tree(self, accepted: Seq<AcceptedToken>) -> bool {
        &&& self.control.phase is TreeSampling
        &&& 0 < accepted.len() <= self.control.batch_size
        &&& forall|i: int|
            0 <= i < accepted.len() ==> (#[trigger] accepted[i]).index < self.control.batch_size
        &&& self.control.metrics.num_tokens_accepted + accepted.len() <= usize::MAX
    }

    /// What holds of every stream between two calls.
    pub open spec fn wf(self) -> bool {
        let control = self.control;
        &&& self.accepted.len() <= usize::MAX
        &&& match control.settings.suffix_repetition_length {
            Some(length) => 2 + length <= u32::MAX,
            None => true,
        }
        &&& match control.phase {
            Phase::OpenCaptureQuery | Phase::OpenCaptureStart | Phase::OpenRing => self.input.len()
                == 0 ==> control.last_output_token is Some,
            Phase::OpenContextLength => self.input.len() > 0,
            _ => true,
        }
        &&& self.is_opening() ==> {
            &&& control.metrics == no_metrics()
            &&& control.parts_encoded == 0 || control.phase is OpenPart || control.phase is OpenSubmit
            &&& self.parts == prefill::parts_of(
                self.input.len() as int,
                control.settings.split_logits_row,
            )
            &&& self.input.len() <= usize::MAX
            &&& self.tokens.len() + self.input.len() - prefill::covered(
                self.parts,
                control.parts_encoded as int,
            ) <= usize::MAX
            &&& control.parts_encoded <= self.parts.len() <= usize::MAX
        }
        &&& control.phase is OpenPrepare || control.phase is OpenPart ==> control.parts_encoded
            < self.parts.len()
        &&& control.phase is OpenSubmit ==> control.parts_encoded == self.parts.len()
        &&& match control.decoding_state {
            DecodingState::Accepting { num_accepted, row_bytes, capture } => {
                &&& control.phase is Ready
                &&& 0 < num_accepted < self.accepted.len()
                &&& row_bytes matches Some(bytes) ==> (self.accepted.last().index + 1) * bytes
                    <= usize::MAX
            },
            DecodingState::ForwardPassPending { full_accept, .. } => full_accept || control.tree,
            _ => true,
        }
        &&& control.tree ==> control.batch_size > 0
        &&& control.phase is TreeSampling ==> control.tree
        &&& match control.phase {
            Phase::SeedGrammar { .. } | Phase::TreeSampling { .. } => {
                control.metrics.num_tokens_returned < usize::MAX
            },
            Phase::AcceptEncoding { .. } => self.accepted.len() > 0,
            Phase::Resolving { point: ResolvePoint::Halt } | Phase::GrammarAccepting {
                point: ResolvePoint::Halt,
            } => control.decoding_state is Halted,
            Phase::CaptureQuery | Phase::CaptureStart | Phase::ShapeQuery | Phase::TreeProposal
            | Phase::PassEncoding { .. } | Phase::PassFinishing | Phase::Resolving { .. }
            | Phase::GrammarAccepting { .. } => {
                !self.context_is_full()
            },
            _ => true,
        }
        &&& match control.phase {
            Phase::Resolving { .. } => control.chaining is InFlight,
            Phase::GrammarAccepting { .. } | Phase::CaptureStart | Phase::TreeProposal => {
                control.chaining is Constant
            },
            _ => true,
        }
        &&& match control.phase {
            Phase::Ready | Phase::Abandoned | Phase::Resolving {
                point: ResolvePoint::Halt | ResolvePoint::Return,
            } | Phase::GrammarAccepting { point: ResolvePoint::Halt | ResolvePoint::Return } => true,
            _ => control.decoding_state is Invalid,
        }
        &&& match self.known_token() {
            Some(token) => self.tokens.len() > 0 && self.tokens.last() == token,
            None => true,
        }
    }

    /// A call of `generate` runs and has found where its token is.
    pub open spec fn is_chaining(self) -> bool {
        match self.control.phase {
            Phase::ContextLength | Phase::CaptureQuery | Phase::CaptureStart | Phase::ShapeQuery
            | Phase::TreeProposal | Phase::PassEncoding { .. } | Phase::PassFinishing
            | Phase::Resolving { .. } | Phase::GrammarAccepting { .. } => true,
            _ => false,
        }
    }

    /// The token that the running call will return, where it is known and recorded already.
    pub open spec fn known_token(self) -> Option<u64> {
        match self.control.phase {
            Phase::SeedGrammar { token } => Some(token),
            _ => match self.control.chaining {
                ForwardPassChaining::Constant { token, .. } => if self.is_chaining() {
                    Some(token)
                } else {
                    None
                },
                ForwardPassChaining::InFlight { .. } => None,
            },
        }
    }
}

/// The state of a stream that was just admitted.
pub open spec fn admitted(
    state: LanguageModelState,
    input: Seq<u64>,
    settings: StreamSettings,
) -> StreamModel {
    StreamModel {
        tokens: state.tokens@,
        accepted: Seq::empty(),
        input,
        parts: prefill::parts_of(input.len() as int, settings.split_logits_row),
        control: StreamControl {
            max_context_length: state.max_context_length,
            last_output_token: state.last_output_token,
            settings,
            metrics: no_metrics(),
            decoding_state: DecodingState::Invalid,
            phase: Phase::OpenCaptureQuery,
            chaining: ForwardPassChaining::InFlight { output_norm: false, capture: false },
            encoder_open: false,
            context_length: 0,
            capture: false,
            tree: false,
            batch_size: 0,
            parts_encoded: 0,
        },
    }
}

/// Neither the model nor the prompt has a token.
pub open spec fn lacks_seed(state: LanguageModelState, input: Seq<u64>) -> bool {
    state.tokens@.len() == 0 && input.len() == 0
}

/// The prompt does not fit behind the tokens of the model.
pub open spec fn overflows_context(state: LanguageModelState, input: Seq<u64>) -> bool {
    state.max_context_length matches Some(limit) && state.tokens@.len() + input.len() > limit
}

/// How many tokens of a prompt of `length` tokens come before its last batch.
pub open spec fn prefill_lead(length: int) -> int {
    (prefill::batch_count(length) - 1) * MAX_BATCH_SIZE
}

pub(crate) proof fn lemma_row_is_inside(row: int, rows: int, bytes: int)
    requires
        0 <= row < rows,
        0 <= bytes,
    ensures
        (row + 1) * (bytes / rows) <= bytes,
{
    assert((row + 1) * (bytes / rows) <= bytes) by (nonlinear_arith)
        requires
            0 <= row < rows,
            0 <= bytes,
    ;
}

proof fn lemma_token_word(token: u64)
    ensures
        token as u32 == token_word(token),
{
    assert(token as u32 == (token % 0x1_0000_0000) as u32) by (bit_vector);
}

/// The tokens as the backend reads them.
pub fn token_words(tokens: &[u64]) -> (words: Vec<u32>)
    ensures
        words@ == Seq::new(tokens@.len(), |i: int| token_word(tokens@[i])),
{
    let mut words: Vec<u32> = Vec::new();
    let mut i: usize = 0;
    while i < tokens.len()
        invariant
            i <= tokens@.len(),
            words@ == Seq::new(i as nat, |j: int| token_word(tokens@[j])),
        decreases tokens@.len() - i,
    {
        proof {
            lemma_token_word(tokens@[i as int]);
        }
        let ghost before = words@;
        words.push(tokens[i] as u32);
        i += 1;
        assert(words@ =~= Seq::new(i as nat, |j: int| token_word(tokens@[j])));
    }
    words
}

/// The bytes of the masks of `rows` rows of samples: one bit for each token that a model knows, in
/// whole words.
pub open spec fn mask_bytes(vocab_size: usize, rows: usize) -> int {
    let bits = DataType::U32.size_in_bytes() * 8;
    rows * ((vocab_size + bits - 1) / bits) * DataType::U32.size_in_bytes()
}

/// The bytes of the masks of `rows` rows of samples.
pub fn bitmask_bytes(vocab_size: usize, rows: usize) -> (bytes: usize)
    requires
        mask_bytes(vocab_size, rows) <= usize::MAX,
    ensures
        bytes == mask_bytes(vocab_size, rows),
{
    let words: usize = div_ceil(vocab_size, DataType::U32.size_in_bits());
    assert(0 <= rows * words) by (nonlinear_arith)
        requires
            0 <= rows,
            0 <= words,
    ;
    rows * words * DataType::U32.size_in_bytes()
}

impl LanguageModelStream {
    /// Admits a stream over `input` behind the tokens of `state`.
    ///
    /// The first action asks whether the prefill is to be captured.
    pub fn new(state: LanguageModelState, input: Vec<u64>, settings: StreamSettings) -> (result:
        Result<(LanguageModelStream, StreamAction), RefusedStream>)
        requires
            state.tokens@.len() + input@.len() <= usize::MAX,
            settings.suffix_repetition_length matches Some(length) ==> 2 + length <= u32::MAX,
            input@.len() == 0 && !lacks_seed(state, input@) && !overflows_context(state, input@)
                ==> state.last_output_token is Some,
        ensures
            match result {
                Ok((stream, action)) => {
                    &&& !lacks_seed(state, input@)
                    &&& !overflows_context(state, input@)
                    &&& stream@ == admitted(state, input@, settings)
                    &&& stream@.wf()
                    &&& action == StreamAction::QueryCapture
                },
                Err(refused) => {
                    &&& refused.state == state
                    &&& match refused.error {
                        LanguageModelStreamError::NoSeedToken => lacks_seed(state, input@),
                        LanguageModelStreamError::ContextOverflow => !lacks_seed(state, input@)
                            && overflows_context(state, input@),
                    }
                },
            },
    {
        if state.tokens.len() == 0 && input.len() == 0 {
            return Err(RefusedStream { error: LanguageModelStreamError::NoSeedToken, state });
        }
        if let Some(limit) = state.max_context_length {
            if state.tokens.len() + input.len() > limit as usize {
                return Err(
                    RefusedStream { error: LanguageModelStreamError::ContextOverflow, state },
                );
            }
        }
        let parts: Vec<PrefillPart> = prefill_parts(input.len(), settings.split_logits_row);
        let stream = LanguageModelStream {
            tokens: state.tokens,
            accepted: Vec::new(),
            input,
            parts,
            control: StreamControl {
                max_context_length: state.max_context_length,
                last_output_token: state.last_output_token,
                settings,
                metrics: TokenStreamMetrics {
                    num_prefill_forward_passes: 0,
                    num_tokens_prefilled: 0,
                    num_decode_forward_passes: 0,
                    num_tokens_proposed: 0,
                    num_tokens_accepted: 0,
                    num_tokens_returned: 0,
                },
                decoding_state: DecodingState::Invalid,
                phase: Phase::OpenCaptureQuery,
                chaining: ForwardPassChaining::InFlight { output_norm: false, capture: false },
                encoder_open: false,
                context_length: 0,
                capture: false,
                tree: false,
                batch_size: 0,
                parts_encoded: 0,
            },
        };
        assert(stream@ =~= admitted(state, stream.input@, settings));
        assert(stream.parts@.len() == stream.parts.len());
        Ok((stream, StreamAction::QueryCapture))
    }

    /// The counts of what the stream has done.
    pub fn metrics(&self) -> (metrics: &TokenStreamMetrics)
        ensures
            *metrics == self@.control.metrics,
    {
        &self.control.metrics
    }

    /// The tokens of the context.
    pub fn tokens(&self) -> (tokens: &[u64])
        ensures
            tokens@ == self@.tokens,
    {
        self.tokens.as_slice()
    }

    /// The prompt.
    pub fn input(&self) -> (input: &[u64])
        ensures
            input@ == self@.input,
    {
        self.input.as_slice()
    }

    /// What the repetition ring holds at the start.
    pub fn initial_ring(&self, length: u32) -> (words: Vec<u32>)
        requires
            2 + length <= u32::MAX,
        ensures
            words@ == ring_words(self@.tokens, length),
    {
        let count: usize = self.tokens.len();
        let kept: usize = if count < length as usize {
            count
        } else {
            length as usize
        };
        let mut words: Vec<u32> = Vec::new();
        words.push(0);
        words.push(kept as u32);
        let ghost ring = ring_words(self@.tokens, length);
        let mut i: usize = 0;
        while i < kept
            invariant
                i <= kept <= count,
                kept <= length,
                kept == if count < length { count as int } else { length as int },
                count == self.tokens@.len(),
                ring == ring_words(self@.tokens, length),
                2 + length <= u32::MAX,
                words@ == ring.take(2 + i),
            decreases kept - i,
        {
            let token: u64 = self.tokens[count - kept + i];
            proof {
                lemma_token_word(token);
            }
            words.push(token as u32);
            i += 1;
            assert(words@ =~= ring.take(2 + i));
        }
        while i < length as usize
            invariant
                kept <= i <= length,
                kept == if self.tokens@.len() < length {
                    self.tokens@.len() as int
                } else {
                    length as int
                },
                ring == ring_words(self@.tokens, length),
                2 + length <= u32::MAX,
                words@ == ring.take(2 + i),
            decreases length - i,
        {
            words.push(0);
            i += 1;
            assert(words@ =~= ring.take(2 + i));
        }
        assert(words@ =~= ring);
        words
    }

    /// The rows of the first `count` accepted nodes in the linearized tree.
    pub fn accepted_indices(&self, count: usize) -> (indices: Vec<u32>)
        requires
            count <= self@.accepted.len(),
        ensures
            indices@ == Seq::new(
                count as nat,
                |i: int| token_word(self@.accepted[i].index as u64),
            ),
    {
        let mut indices: Vec<u32> = Vec::new();
        let mut i: usize = 0;
        while i < count
            invariant
                i <= count <= self.accepted@.len(),
                indices@ == Seq::new(
                    i as nat,
                    |j: int| token_word(self.accepted@[j].index as u64),
                ),
            decreases count - i,
        {
            let index: u64 = self.accepted[i].index as u64;
            proof {
                lemma_token_word(index);
            }
            indices.push(index as u32);
            i += 1;
            assert(indices@ =~= Seq::new(
                i as nat,
                |j: int| token_word(self.accepted@[j].index as u64),
            ));
        }
        indices
    }

    /// The tokens of the accepted nodes.
    pub fn accepted_inputs(&self) -> (words: Vec<u32>)
        ensures
            words@ == Seq::new(
                self@.accepted.len(),
                |i: int| token_word(self@.accepted[i].input),
            ),
    {
        let mut words: Vec<u32> = Vec::new();
        let mut i: usize = 0;
        while i < self.accepted.len()
            invariant
                i <= self.accepted@.len(),
                words@ == Seq::new(i as nat, |j: int| token_word(self.accepted@[j].input)),
            decreases self.accepted@.len() - i,
        {
            let input: u64 = self.accepted[i].input;
            proof {
                lemma_token_word(input);
            }
            words.push(input as u32);
            i += 1;
            assert(words@ =~= Seq::new(i as nat, |j: int| token_word(self.accepted@[j].input)));
        }
        words
    }

    fn opened_capture(&mut self, capture: bool) -> (action: StreamAction)
        requires
            old(self)@.wf(),
            old(self)@.input.len() == 0 ==> old(self)@.control.last_output_token is Some,
        ensures
            (final(self)@, action) == old(self)@.opened_capture(capture),
    {
        self.control.capture = capture;
        match self.control.settings.suffix_repetition_length {
            Some(length) => {
                self.control.phase = Phase::OpenRing;
                StreamAction::CreateRing { words: 2 + length }
            },
            None => self.opened_ring(),
        }
    }

    fn opened_ring(&mut self) -> (action: StreamAction)
        requires
            old(self)@.input.len() == 0 ==> old(self)@.control.last_output_token is Some,
        ensures
            (final(self)@, action) == old(self)@.opened_ring(),
    {
        let last: Option<u64> = self.control.last_output_token;
        self.control.last_output_token = None;
        if self.input.len() > 0 {
            self.control.phase = Phase::OpenContextLength;
            return StreamAction::QueryContextLength;
        }
        self.control.decoding_state = DecodingState::Seeded { seed_token: last.unwrap() };
        self.control.phase = Phase::Ready;
        StreamAction::Opened { end_capture: self.control.capture }
    }

    fn encode_part(&self) -> (action: StreamAction)
        requires
            self@.control.parts_encoded < self@.parts.len(),
            self@.tokens.len() + self@.parts[self@.control.parts_encoded as int].length
                <= usize::MAX,
            self@.parts[self@.control.parts_encoded as int].length > 0,
        ensures
            action == self@.encode_part(),
    {
        let part: PrefillPart = self.parts[self.control.parts_encoded];
        let position: usize = self.tokens.len();
        StreamAction::EncodePart {
            part,
            position,
            seed_index: if part.sample_last && self.control.settings.stochastic {
                Some((position + (part.length - 1)) as u64)
            } else {
                None
            },
            masked: part.sample_last && self.control.settings.grammar,
            ring_length: self.control.settings.suffix_repetition_length,
        }
    }

    fn part_encoded(&mut self) -> (action: StreamAction)
        requires
            old(self)@.wf(),
            old(self)@.control.phase is OpenPart,
        ensures
            (final(self)@, action) == old(self)@.part_encoded(),
            final(self)@.wf(),
    {
        let ghost before = self@;
        let index: usize = self.control.parts_encoded;
        let part: PrefillPart = self.parts[index];
        let count: usize = self.parts.len();
        proof {
            lemma_parts(before, index as int);
        }
        let end: usize = part.start + part.length;
        let mut i: usize = part.start;
        let ghost tokens = self.tokens@;
        while i < end
            invariant
                part.start <= i <= end <= self.input@.len(),
                self.input@ == before.input,
                self.parts@ == before.parts,
                self.accepted@ == before.accepted,
                self.control == before.control,
                self.tokens@ == tokens + self.input@.subrange(part.start as int, i as int),
            decreases end - i,
        {
            let token: u64 = self.input[i];
            self.tokens.push(token);
            i += 1;
            assert(self.tokens@ =~= tokens + self.input@.subrange(part.start as int, i as int));
        }
        self.control.parts_encoded = index + 1;
        if self.control.parts_encoded < count {
            proof {
                lemma_parts(before, index + 1);
            }
            self.encode_part()
        } else {
            self.control.phase = Phase::OpenSubmit;
            StreamAction::SubmitPrefill
        }
    }

    fn prefill_submitted(&mut self, output_norm: bool) -> (action: StreamAction)
        requires
            old(self)@.wf(),
            old(self)@.control.phase is OpenSubmit,
        ensures
            (final(self)@, action) == old(self)@.prefill_submitted(output_norm),
    {
        self.control.metrics.num_prefill_forward_passes = 1;
        self.control.metrics.num_tokens_prefilled = self.input.len();
        self.control.metrics.num_tokens_proposed = 1;
        self.control.metrics.num_tokens_accepted = 1;
        self.control.decoding_state = DecodingState::ForwardPassPending {
            full_accept: true,
            output_norm,
            capture: self.control.capture,
        };
        self.control.phase = Phase::Ready;
        StreamAction::Opened { end_capture: false }
    }

    fn ask_context(&mut self, chaining: ForwardPassChaining, encoder_open: bool) -> (action:
        StreamAction)
        ensures
            (final(self)@, action) == old(self)@.ask_context(chaining, encoder_open),
    {
        self.control.chaining = chaining;
        self.control.encoder_open = encoder_open;
        self.control.phase = Phase::ContextLength;
        StreamAction::QueryContextLength
    }

    /// Starts to produce the next token.
    ///
    /// A stream whose last call failed or returned no token cannot go on.
    pub fn generate(&mut self) -> (action: StreamAction)
        requires
            old(self)@.wf(),
            old(self)@.control.phase is Ready,
            old(self)@.control.decoding_state !is Invalid,
            old(self)@.control.metrics.num_tokens_returned < usize::MAX,
        ensures
            (final(self)@, action) == old(self)@.generated(),
            final(self)@.wf(),
    {
        match self.control.decoding_state {
            DecodingState::Seeded { seed_token } => {
                self.control.decoding_state = DecodingState::Invalid;
                self.tokens.push(seed_token);
                if self.control.settings.grammar {
                    self.control.phase = Phase::SeedGrammar { token: seed_token };
                    StreamAction::OfferToGrammar { token: seed_token }
                } else {
                    self.seed_offered(seed_token)
                }
            },
            DecodingState::ForwardPassPending { full_accept, output_norm, capture } => {
                self.control.decoding_state = DecodingState::Invalid;
                if full_accept {
                    self.control.metrics.num_tokens_returned =
                        self.control.metrics.num_tokens_returned + 1;
                    self.ask_context(ForwardPassChaining::InFlight { output_norm, capture }, false)
                } else {
                    self.control.phase = Phase::TreeSampling { capture };
                    StreamAction::WaitForTree
                }
            },
            DecodingState::Accepting { num_accepted, row_bytes, capture } => self.next_accepted(
                num_accepted,
                row_bytes,
                capture,
            ),
            DecodingState::Halted => {
                self.control.decoding_state = DecodingState::Invalid;
                StreamAction::Return(None)
            },
            DecodingState::Invalid => StreamAction::Fail,
        }
    }

    fn seed_offered(&mut self, token: u64) -> (action: StreamAction)
        requires
            old(self)@.control.metrics.num_tokens_returned < usize::MAX,
        ensures
            (final(self)@, action) == old(self)@.seed_offered(token),
    {
        self.control.metrics.num_tokens_returned = self.control.metrics.num_tokens_returned + 1;
        self.ask_context(ForwardPassChaining::Constant { token, output_norm: false }, false)
    }

    fn next_accepted(
        &mut self,
        num_accepted: usize,
        row_bytes: Option<usize>,
        capture: bool,
    ) -> (action: StreamAction)
        requires
            num_accepted < old(self)@.accepted.len(),
            row_bytes matches Some(bytes) ==> (old(self)@.accepted.last().index + 1) * bytes
                <= usize::MAX,
            old(self)@.control.metrics.num_tokens_returned < usize::MAX,
        ensures
            (final(self)@, action) == old(self)@.next_accepted(num_accepted, row_bytes, capture),
    {
        self.control.metrics.num_tokens_returned = self.control.metrics.num_tokens_returned + 1;
        if num_accepted < self.accepted.len() - 1 {
            let token: u64 = self.accepted[num_accepted].output;
            self.control.decoding_state = DecodingState::Accepting {
                num_accepted: num_accepted + 1,
                row_bytes,
                capture,
            };
            self.control.phase = Phase::Ready;
            return StreamAction::Return(Some(token));
        }
        let row: usize = self.accepted[self.accepted.len() - 1].index;
        let norm_row: Option<ByteRange> = match row_bytes {
            Some(bytes) => {
                proof {
                    assert((row + 1) * bytes == row * bytes + bytes) by (nonlinear_arith);
                    assert(0 <= row * bytes) by (nonlinear_arith);
                }
                let start: usize = row * bytes;
                Some(ByteRange { start, end: start + bytes })
            },
            None => None,
        };
        self.control.decoding_state = DecodingState::Invalid;
        self.control.phase = Phase::AcceptEncoding { output_norm: row_bytes.is_some(), capture };
        StreamAction::EncodeAccept {
            count: self.accepted.len(),
            norm_row,
            ring_length: self.control.settings.suffix_repetition_length,
            end_capture: capture,
        }
    }

    /// Goes on with the nodes of a sampled tree that were accepted.
    ///
    /// `norm_bytes` is the size of the last hidden state of all nodes, where the pass kept it.
    pub fn resume_with_tree(
        &mut self,
        accepted: Vec<AcceptedToken>,
        norm_bytes: Option<usize>,
    ) -> (action: StreamAction)
        requires
            old(self)@.wf(),
            old(self)@.expects_tree(accepted@),
        ensures
            (final(self)@, action) == old(self)@.tree_sampled(
                accepted@,
                norm_bytes,
                old(self)@.control.phase->TreeSampling_capture,
            ),
            final(self)@.wf(),
    {
        let capture: bool = match self.control.phase {
            Phase::TreeSampling { capture } => capture,
            _ => false,
        };
        let nodes: usize = self.control.batch_size;
        let row_bytes: Option<usize> = match norm_bytes {
            Some(bytes) => Some(bytes / nodes),
            None => None,
        };
        proof {
            if let Some(bytes) = norm_bytes {
                lemma_row_is_inside(accepted@.last().index as int, nodes as int, bytes as int);
            }
        }
        self.control.metrics.num_tokens_accepted = self.control.metrics.num_tokens_accepted
            + accepted.len();
        self.accepted = accepted;
        self.next_accepted(0, row_bytes, capture)
    }

    fn accept_encoded(&mut self, output_norm: bool) -> (action: StreamAction)
        requires
            old(self)@.accepted.len() > 0,
        ensures
            (final(self)@, action) == old(self)@.accept_encoded(output_norm),
    {
        let ghost before = self@;
        let count: usize = self.accepted.len();
        self.record_outputs(count);
        let token: u64 = self.accepted[count - 1].output;
        self.accepted = Vec::new();
        self.ask_context(ForwardPassChaining::Constant { token, output_norm }, true)
    }

    /// Appends the tokens that were sampled behind the first `count` accepted nodes.
    fn record_outputs(&mut self, count: usize)
        requires
            count <= old(self)@.accepted.len(),
        ensures
            final(self)@ == (StreamModel {
                tokens: old(self)@.tokens + outputs(old(self)@.accepted, count as int),
                ..old(self)@
            }),
    {
        let ghost before = self@;
        let mut i: usize = 0;
        assert(self.tokens@ =~= before.tokens + outputs(before.accepted, 0));
        while i < count
            invariant
                i <= count <= before.accepted.len(),
                self.input@ == before.input,
                self.parts@ == before.parts,
                self.accepted@ == before.accepted,
                self.control == before.control,
                self.tokens@ == before.tokens + outputs(before.accepted, i as int),
            decreases count - i,
        {
            let token: u64 = self.accepted[i].output;
            self.tokens.push(token);
            i += 1;
            assert(self.tokens@ =~= before.tokens + outputs(before.accepted, i as int));
        }
    }

    fn context_known(&mut self, context_length: u32) -> (action: StreamAction)
        ensures
            (final(self)@, action) == old(self)@.context_known(context_length),
    {
        self.control.context_length = context_length;
        let full: bool = match self.control.max_context_length {
            Some(limit) => context_length >= limit,
            None => false,
        };
        if full {
            self.control.decoding_state = DecodingState::Halted;
            self.resolve(ResolvePoint::Halt)
        } else {
            self.control.phase = Phase::CaptureQuery;
            StreamAction::QueryCapture
        }
    }

    fn capture_known(&mut self, capture: bool) -> (action: StreamAction)
        requires
            !old(self)@.context_is_full(),
        ensures
            (final(self)@, action) == old(self)@.capture_known(capture),
    {
        self.control.capture = capture;
        if self.control.settings.speculator {
            self.control.phase = Phase::ShapeQuery;
            StreamAction::QueryShape {
                budget: match self.control.max_context_length {
                    Some(limit) => Some(limit - self.control.context_length),
                    None => None,
                },
            }
        } else {
            self.encode_pass(false, 1)
        }
    }

    fn encode_pass(&mut self, tree: bool, batch_size: usize) -> (action: StreamAction)
        ensures
            (final(self)@, action) == old(self)@.encode_pass(tree, batch_size),
    {
        let input: PassInput = if tree {
            PassInput::Tree
        } else {
            match self.control.chaining {
                ForwardPassChaining::Constant { token, .. } => PassInput::Token(token),
                ForwardPassChaining::InFlight { .. } => PassInput::Chained,
            }
        };
        let chained: bool = match input {
            PassInput::Chained => true,
            _ => false,
        };
        self.control.tree = tree;
        self.control.batch_size = batch_size;
        self.control.phase = Phase::PassEncoding { chained };
        StreamAction::EncodePass {
            input,
            root_seed_index: self.control.context_length as u64,
            batch_size,
            open_encoder: !self.control.encoder_open,
        }
    }

    fn finish_pass(&mut self, chained: bool) -> (action: StreamAction)
        ensures
            (final(self)@, action) == old(self)@.finish_pass(chained),
    {
        self.control.phase = Phase::PassFinishing;
        StreamAction::FinishPass {
            bitmask: if !self.control.settings.grammar {
                PassBitmask::Unmasked
            } else if chained {
                PassBitmask::Next
            } else {
                PassBitmask::PerNode
            },
            seeds: self.control.settings.stochastic,
            accept_all: !self.control.tree,
            ring_length: if self.control.tree {
                None
            } else {
                self.control.settings.suffix_repetition_length
            },
            batch_size: self.control.batch_size,
        }
    }

    fn pass_finished(&mut self, output_norm: bool) -> (action: StreamAction)
        requires
            old(self)@.control.metrics.num_decode_forward_passes < usize::MAX,
            old(self)@.control.metrics.num_tokens_proposed + old(self)@.control.batch_size
                <= usize::MAX,
            old(self)@.control.metrics.num_tokens_accepted + old(self)@.control.batch_size
                <= usize::MAX,
        ensures
            (final(self)@, action) == old(self)@.pass_finished(output_norm),
    {
        let batch_size: usize = self.control.batch_size;
        self.control.metrics.num_decode_forward_passes =
            self.control.metrics.num_decode_forward_passes + 1;
        self.control.metrics.num_tokens_proposed = self.control.metrics.num_tokens_proposed
            + batch_size;
        if !self.control.tree {
            self.control.metrics.num_tokens_accepted = self.control.metrics.num_tokens_accepted
                + batch_size;
        }
        self.control.decoding_state = DecodingState::ForwardPassPending {
            full_accept: !self.control.tree,
            output_norm,
            capture: self.control.capture,
        };
        self.resolve(ResolvePoint::Return)
    }

    fn resolve(&mut self, point: ResolvePoint) -> (action: StreamAction)
        ensures
            (final(self)@, action) == old(self)@.resolve(point),
    {
        match self.control.chaining {
            ForwardPassChaining::Constant { token, output_norm } => self.resolved(
                point,
                token,
                output_norm,
            ),
            ForwardPassChaining::InFlight { capture, .. } => {
                self.control.phase = Phase::Resolving { point };
                StreamAction::WaitForToken {
                    submit_encoded: match point {
                        ResolvePoint::Bitmask => true,
                        _ => false,
                    },
                    end_capture: capture,
                }
            },
        }
    }

    fn token_arrived(&mut self, point: ResolvePoint, token: u64) -> (action: StreamAction)
        requires
            old(self)@.control.chaining is InFlight,
        ensures
            (final(self)@, action) == old(self)@.token_arrived(point, token),
    {
        let output_norm: bool = match self.control.chaining {
            ForwardPassChaining::InFlight { output_norm, .. } => output_norm,
            ForwardPassChaining::Constant { .. } => false,
        };
        self.tokens.push(token);
        self.control.chaining = ForwardPassChaining::Constant { token, output_norm };
        if self.control.settings.grammar {
            self.control.phase = Phase::GrammarAccepting { point };
            StreamAction::AcceptInGrammar { token }
        } else {
            self.resolved(point, token, output_norm)
        }
    }

    fn resolved(&mut self, point: ResolvePoint, token: u64, output_norm: bool) -> (action:
        StreamAction)
        ensures
            (final(self)@, action) == old(self)@.resolved(point, token, output_norm),
    {
        match point {
            ResolvePoint::Halt | ResolvePoint::Return => {
                self.control.phase = Phase::Ready;
                StreamAction::Return(Some(token))
            },
            ResolvePoint::Capture => {
                self.control.phase = Phase::CaptureStart;
                StreamAction::StartCapture
            },
            ResolvePoint::Speculation => if output_norm {
                let submit_accept: bool = self.control.encoder_open;
                self.control.encoder_open = false;
                self.control.phase = Phase::TreeProposal;
                StreamAction::ProposeTree { root_token: token, submit_accept }
            } else {
                self.encode_pass(false, 1)
            },
            ResolvePoint::Bitmask => self.finish_pass(true),
        }
    }

    fn failed(&mut self) -> (action: StreamAction)
        ensures
            (final(self)@, action) == old(self)@.failed(),
    {
        self.control.phase = match self.control.phase {
            Phase::OpenCaptureQuery
            | Phase::OpenCaptureStart
            | Phase::OpenRing
            | Phase::OpenContextLength
            | Phase::OpenPrepare
            | Phase::OpenPart
            | Phase::OpenSubmit => Phase::Abandoned,
            _ => Phase::Ready,
        };
        StreamAction::Fail
    }

    fn prepare(&mut self, context_length: u32) -> (action: StreamAction)
        requires
            old(self)@.wf(),
            old(self)@.control.phase is OpenContextLength,
            context_length + prefill_lead(old(self)@.input.len() as int) <= u32::MAX,
        ensures
            (final(self)@, action) == old(self)@.resumed(StreamEvent::Context(context_length)),
            final(self)@.wf(),
    {
        let count: usize = self.input.len();
        let batches: usize = div_ceil(count, MAX_BATCH_SIZE);
        let lead: usize = (batches - 1) * MAX_BATCH_SIZE;
        let rows: usize = if count < MAX_BATCH_SIZE {
            count
        } else {
            MAX_BATCH_SIZE
        };
        self.control.phase = Phase::OpenPrepare;
        proof {
            prefill::law_parts_cover_the_prompt(
                count as int,
                self.control.settings.split_logits_row,
            );
        }
        StreamAction::Prepare { context_length: context_length + lead as u32, rows: rows as u32 }
    }

    /// Whether the event is an answer to the last action.
    pub fn is_expected(&self, event: StreamEvent) -> (expected: bool)
        requires
            self@.wf(),
        ensures
            expected == self@.expects(event),
    {
        match (self.control.phase, event) {
            (Phase::Ready, _) => false,
            (Phase::Abandoned, _) => false,
            (Phase::TreeSampling { .. }, StreamEvent::Failed) => true,
            (Phase::TreeSampling { .. }, _) => false,
            (_, StreamEvent::Failed) => true,
            (
                Phase::OpenCaptureQuery | Phase::CaptureQuery | Phase::ShapeQuery,
                StreamEvent::Flag(_),
            ) => true,
            (Phase::OpenCaptureQuery | Phase::CaptureQuery | Phase::ShapeQuery, _) => false,
            (Phase::OpenContextLength, StreamEvent::Context(context_length)) => {
                let batches: usize = div_ceil(self.input.len(), MAX_BATCH_SIZE);
                let lead: usize = (batches - 1) * MAX_BATCH_SIZE;
                lead <= (u32::MAX - context_length) as usize
            },
            (Phase::OpenContextLength, _) => false,
            (Phase::ContextLength, StreamEvent::Context(_)) => true,
            (Phase::ContextLength, _) => false,
            (Phase::OpenSubmit, StreamEvent::Pass { .. }) => true,
            (Phase::OpenSubmit, _) => false,
            (Phase::PassFinishing, StreamEvent::Pass { .. }) => {
                let rows: usize = self.control.batch_size;
                self.control.metrics.num_decode_forward_passes < usize::MAX
                    && self.control.metrics.num_tokens_proposed <= usize::MAX - rows
                    && self.control.metrics.num_tokens_accepted <= usize::MAX - rows
            },
            (Phase::PassFinishing, _) => false,
            (Phase::TreeProposal, StreamEvent::Proposal { nodes }) => nodes > 0,
            (Phase::TreeProposal, _) => false,
            (Phase::Resolving { .. }, StreamEvent::Token(_)) => true,
            (Phase::Resolving { .. }, _) => false,
            (_, StreamEvent::Done) => true,
            _ => false,
        }
    }

    /// Whether the accepted nodes are an answer to a sampled tree.
    pub fn is_tree_expected(&self, accepted: &[AcceptedToken]) -> (expected: bool)
        ensures
            expected == self@.expects_tree(accepted@),
    {
        let sampling: bool = match self.control.phase {
            Phase::TreeSampling { .. } => true,
            _ => false,
        };
        if !sampling || accepted.len() == 0 || accepted.len() > self.control.batch_size {
            return false;
        }
        let mut i: usize = 0;
        while i < accepted.len()
            invariant
                i <= accepted@.len(),
                forall|j: int|
                    0 <= j < i ==> (#[trigger] accepted@[j]).index < self@.control.batch_size,
            decreases accepted@.len() - i,
        {
            if accepted[i].index >= self.control.batch_size {
                assert(accepted@[i as int].index >= self@.control.batch_size);
                return false;
            }
            i += 1;
        }
        self.control.metrics.num_tokens_accepted <= usize::MAX - accepted.len()
    }

    /// Whether a capture runs that is to be ended where the running call fails: that of the pass that
    /// is encoded, or of the pass whose tokens the call hands out.
    pub fn holds_capture(&self) -> (held: bool)
        ensures
            held == self@.holds_capture(),
    {
        let in_flight: bool = match self.control.chaining {
            ForwardPassChaining::InFlight { capture, .. } => capture,
            ForwardPassChaining::Constant { .. } => false,
        };
        match self.control.phase {
            Phase::TreeSampling { capture } | Phase::AcceptEncoding { capture, .. } => capture,
            Phase::OpenRing
            | Phase::OpenContextLength
            | Phase::OpenPrepare
            | Phase::OpenPart
            | Phase::OpenSubmit => self.control.capture,
            Phase::ShapeQuery
            | Phase::TreeProposal
            | Phase::PassEncoding { .. }
            | Phase::PassFinishing
            | Phase::Resolving { point: ResolvePoint::Speculation | ResolvePoint::Bitmask }
            | Phase::GrammarAccepting {
                point: ResolvePoint::Speculation | ResolvePoint::Bitmask,
            } => self.control.capture || in_flight,
            Phase::ContextLength
            | Phase::CaptureQuery
            | Phase::CaptureStart
            | Phase::Resolving { .. }
            | Phase::GrammarAccepting { .. } => in_flight,
            _ => false,
        }
    }

    /// Whether a token can be generated.
    pub fn can_generate(&self) -> (ready: bool)
        ensures
            ready == (self@.control.phase is Ready && self@.control.decoding_state !is Invalid
                && self@.control.metrics.num_tokens_returned < usize::MAX),
    {
        let waits: bool = match self.control.phase {
            Phase::Ready => false,
            _ => true,
        };
        let invalid: bool = match self.control.decoding_state {
            DecodingState::Invalid => true,
            _ => false,
        };
        !waits && !invalid && self.control.metrics.num_tokens_returned < usize::MAX
    }

    /// Goes on with the backend's answer to the last action.
    pub fn resume(&mut self, event: StreamEvent) -> (action: StreamAction)
        requires
            old(self)@.wf(),
            old(self)@.expects(event),
        ensures
            (final(self)@, action) == old(self)@.resumed(event),
            final(self)@.wf(),
    {
        proof {
            lemma_resumed_is_wf(self@, event);
        }
        match (self.control.phase, event) {
            (Phase::SeedGrammar { token }, _) => self.seed_offered(token),
            (_, StreamEvent::Failed) => self.failed(),
            (Phase::OpenCaptureQuery, StreamEvent::Flag(capture)) => if capture {
                self.control.phase = Phase::OpenCaptureStart;
                StreamAction::StartCapture
            } else {
                self.opened_capture(false)
            },
            (Phase::OpenCaptureStart, _) => self.opened_capture(true),
            (Phase::OpenRing, _) => self.opened_ring(),
            (Phase::OpenContextLength, StreamEvent::Context(context_length)) => self.prepare(
                context_length,
            ),
            (Phase::OpenPrepare, _) => {
                proof {
                    lemma_parts(self@, 0);
                }
                self.control.phase = Phase::OpenPart;
                self.encode_part()
            },
            (Phase::OpenPart, _) => self.part_encoded(),
            (Phase::OpenSubmit, StreamEvent::Pass { output_norm }) => self.prefill_submitted(
                output_norm,
            ),
            (Phase::AcceptEncoding { output_norm, .. }, _) => self.accept_encoded(output_norm),
            (Phase::ContextLength, StreamEvent::Context(context_length)) => self.context_known(
                context_length,
            ),
            (Phase::CaptureQuery, StreamEvent::Flag(capture)) => if capture {
                self.resolve(ResolvePoint::Capture)
            } else {
                self.capture_known(false)
            },
            (Phase::CaptureStart, _) => self.capture_known(true),
            (Phase::ShapeQuery, StreamEvent::Flag(shape)) => if shape {
                self.resolve(ResolvePoint::Speculation)
            } else {
                self.encode_pass(false, 1)
            },
            (Phase::TreeProposal, StreamEvent::Proposal { nodes }) => self.encode_pass(true, nodes),
            (Phase::PassEncoding { chained }, _) => if chained && self.control.settings.grammar {
                self.resolve(ResolvePoint::Bitmask)
            } else {
                self.finish_pass(chained)
            },
            (Phase::PassFinishing, StreamEvent::Pass { output_norm }) => self.pass_finished(
                output_norm,
            ),
            (Phase::Resolving { point }, StreamEvent::Token(token)) => self.token_arrived(
                point,
                token as u64,
            ),
            (Phase::GrammarAccepting { point }, _) => self.resolve(point),
            _ => self.failed(),
        }
    }

    /// What closing the stream asks of the backend.
    pub fn close_action(&self) -> (action: CloseAction)
        requires
            self@.wf(),
        ensures
            action == self@.close_action(),
    {
        match self.control.decoding_state {
            DecodingState::ForwardPassPending { full_accept, capture, .. } => {
                CloseAction::WaitForPass { accept_root: !full_accept, end_capture: capture }
            },
            DecodingState::Accepting { num_accepted, capture, .. } => CloseAction::AcceptPrefix {
                count: num_accepted + 1,
                end_capture: capture,
            },
            _ => CloseAction::Close,
        }
    }

    /// Closes the stream between two calls and hands back what the model remembers.
    ///
    /// `sampled` is the first token that a pending pass sampled; without such a pass it is ignored.
    pub fn into_state(self, sampled: u32) -> (state: LanguageModelState)
        requires
            self@.wf(),
            self@.control.phase is Ready,
        ensures
            state.tokens@ == self@.tokens + self@.unrecorded(),
            state.max_context_length == self@.control.max_context_length,
            state.last_output_token == self@.pending_token(sampled),
    {
        let mut stream = self;
        let last_output_token: Option<u64> = match stream.control.decoding_state {
            DecodingState::Seeded { seed_token } => Some(seed_token),
            DecodingState::ForwardPassPending { .. } => Some(sampled as u64),
            DecodingState::Accepting { num_accepted, .. } => {
                stream.record_outputs(num_accepted);
                Some(stream.accepted[num_accepted].output)
            },
            DecodingState::Halted => None,
            DecodingState::Invalid => None,
        };
        assert(self@.unrecorded() =~= Seq::<u64>::empty() ==> self@.tokens + self@.unrecorded()
            =~= self@.tokens);
        LanguageModelState {
            tokens: stream.tokens,
            max_context_length: stream.control.max_context_length,
            last_output_token,
        }
    }

    /// Hands back what the model remembers when the stream could not be opened.
    pub fn abandon(self) -> (state: LanguageModelState)
        requires
            self@.control.phase is Abandoned,
        ensures
            state.tokens@ == self@.tokens,
            state.max_context_length == self@.control.max_context_length,
            state.last_output_token == self@.control.last_output_token,
    {
        LanguageModelState {
            tokens: self.tokens,
            max_context_length: self.control.max_context_length,
            last_output_token: self.control.last_output_token,
        }
    }
}

/// An answer that the stream waits for keeps it well formed.
pub(crate) proof fn lemma_resumed_is_wf(stream: StreamModel, event: StreamEvent)
    requires
        stream.wf(),
        stream.expects(event),
    ensures
        stream.resumed(event).0.wf(),
{
    if stream.is_opening() {
        lemma_opening_is_wf(stream, event);
    } else {
        match stream.control.phase {
            Phase::CaptureQuery | Phase::CaptureStart | Phase::ShapeQuery | Phase::Resolving { .. }
            | Phase::GrammarAccepting { .. } => {
                lemma_generating_is_wf(stream, event);
            },
            _ => {},
        }
    }
}

proof fn lemma_generating_is_wf(stream: StreamModel, event: StreamEvent)
    requires
        stream.wf(),
        stream.expects(event),
        match stream.control.phase {
            Phase::CaptureQuery | Phase::CaptureStart | Phase::ShapeQuery | Phase::Resolving { .. }
            | Phase::GrammarAccepting { .. } => true,
            _ => false,
        },
    ensures
        stream.resumed(event).0.wf(),
{
}

proof fn lemma_opening_is_wf(stream: StreamModel, event: StreamEvent)
    requires
        stream.wf(),
        stream.expects(event),
        stream.is_opening(),
    ensures
        stream.resumed(event).0.wf(),
{
    if stream.control.phase is OpenPart {
        lemma_parts(stream, stream.control.parts_encoded as int);
    } else if stream.control.phase is OpenContextLength {
        prefill::law_parts_cover_the_prompt(
            stream.input.len() as int,
            stream.control.settings.split_logits_row,
        );
    }
}

/// While a prompt is encoded, the part at `index` lies inside it.
pub proof fn lemma_parts(stream: StreamModel, index: int)
    requires
        stream.wf(),
        stream.is_opening(),
        0 <= index < stream.parts.len(),
    ensures
        stream.parts[index].start == prefill::covered(stream.parts, index),
        0 < stream.parts[index].length,
        stream.parts[index].start + stream.parts[index].length == prefill::covered(
            stream.parts,
            index + 1,
        ) <= stream.input.len(),
{
    let count = stream.input.len() as int;
    let split = stream.control.settings.split_logits_row;
    if count > 0 {
        prefill::law_parts_cover_the_prompt(count, split);
        assert(prefill::parts_are_contiguous(stream.parts));
        lemma_covered_grows(stream.parts, index + 1);
    } else {
        assert(prefill::batch_count(0) == 0);
    }
}

proof fn lemma_covered_grows(parts: Seq<PrefillPart>, index: int)
    requires
        prefill::parts_are_contiguous(parts),
        0 <= index <= parts.len(),
    ensures
        prefill::covered(parts, index) <= prefill::covered(parts, parts.len() as int),
    decreases parts.len() - index,
{
    if index < parts.len() {
        lemma_covered_grows(parts, index + 1);
        assert(parts[index].start == prefill::covered(parts, index));
    }
}

} // verus!

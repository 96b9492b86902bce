//! What is known of a language model once it is loaded.
use vstd::prelude::*;

use crate::arithmetic::min_u32;
use crate::data_type::DataType;
use crate::text;

verus! {

/// How text and tokens are turned into each other.
#[derive(Debug, PartialEq, Eq)]
pub enum TokenCodecConfig {
    /// For conversations. The tag stands between reasoning and answer, where the model separates
    /// them.
    Chat { end_of_thinking_tag: Option<String> },
    RawText,
}

/// The configuration of a language model.
#[derive(Debug, PartialEq, Eq)]
pub struct LanguageModelConfig {
    pub token_codec_config: TokenCodecConfig,
    pub data_type: Option<DataType>,
}

impl LanguageModelConfig {
    /// The type that the model computes with.
    pub open spec fn spec_model_data_type(&self) -> DataType {
        match self.data_type {
            Some(data_type) => data_type,
            None => DataType::BF16,
        }
    }

    /// The type that the model computes with, which need not be given.
    #[verifier::when_used_as_spec(spec_model_data_type)]
    pub fn model_data_type(&self) -> (data_type: DataType)
        ensures
            data_type == self.model_data_type(),
    {
        match self.data_type {
            Some(data_type) => data_type,
            None => DataType::BF16,
        }
    }
}

/// What the layers of a model allow.
#[derive(Clone, Copy, Debug, PartialEq, Eq)]
pub struct DecoderCapabilities {
    /// The greatest number of tokens in the context, where there is one.
    pub max_context_length: Option<u32>,
    pub speculation_supported: bool,
}

/// A language model.
#[derive(Debug, PartialEq, Eq)]
pub struct LanguageModel {
    decoder: DecoderCapabilities,
    /// The device gives memory only to the parts of a buffer that are used.
    sparse_buffers: bool,
    end_of_thinking_tag: Option<String>,
    data_type: DataType,
}

impl LanguageModel {
    /// What the layers allow.
    pub closed spec fn decoder(self) -> DecoderCapabilities {
        self.decoder
    }

    /// Whether unused parts of a buffer need no memory.
    pub closed spec fn has_sparse_buffers(self) -> bool {
        self.sparse_buffers
    }

    /// The tag between reasoning and answer.
    pub closed spec fn tag(self) -> Option<Seq<char>> {
        self.end_of_thinking_tag.deep_view()
    }

    /// The type that the model computes with.
    pub closed spec fn computes_with(self) -> DataType {
        self.data_type
    }

    /// The model of a configuration. A model that cannot check proposals may not have a speculator.
    pub fn new(
        config: LanguageModelConfig,
        decoder: DecoderCapabilities,
        sparse_buffers: bool,
        has_speculator: bool,
    ) -> (model: LanguageModel)
        requires
            has_speculator ==> decoder.speculation_supported,
        ensures
            model.decoder() == decoder,
            model.has_sparse_buffers() == sparse_buffers,
            model.computes_with() == config.model_data_type(),
            model.tag() == match config.token_codec_config {
                TokenCodecConfig::Chat { end_of_thinking_tag } => end_of_thinking_tag.deep_view(),
                TokenCodecConfig::RawText => None,
            },
    {
        let data_type: DataType = config.model_data_type();
        let end_of_thinking_tag: Option<String> = match config.token_codec_config {
            TokenCodecConfig::Chat { end_of_thinking_tag } => end_of_thinking_tag,
            TokenCodecConfig::RawText => None,
        };
        LanguageModel { decoder, sparse_buffers, end_of_thinking_tag, data_type }
    }

    /// The greatest number of tokens in the context, where there is one.
    pub fn max_context_length(&self) -> (length: Option<u32>)
        ensures
            length == self.decoder().max_context_length,
    {
        self.decoder.max_context_length
    }

    /// The number of tokens in the context that a device of the given kind can be expected to hold.
    /// Where unused context needs no memory, or none grows with the context, that is the greatest
    /// number.
    pub fn recommended_context_length(&self, is_ios: bool) -> (length: Option<u32>)
        ensures
            length == match self.decoder().max_context_length {
                None => None,
                Some(greatest) => if self.has_sparse_buffers() {
                    Some(greatest)
                } else if is_ios {
                    Some(min_u32(greatest, 8192))
                } else {
                    Some(min_u32(greatest, 16384))
                },
            },
            (length matches Some(length) ==> self.decoder().max_context_length matches Some(greatest)
                && length <= greatest),
    {
        let max_context_length: Option<u32> = self.max_context_length();
        if self.sparse_buffers {
            max_context_length
        } else {
            match max_context_length {
                Some(max_context_length) => {
                    let platform: u32 = if is_ios {
                        8192
                    } else {
                        16384
                    };
                    Some(min_u32(max_context_length, platform))
                },
                None => None,
            }
        }
    }

    /// Whether the model can check proposals.
    pub fn speculation_supported(&self) -> (supported: bool)
        ensures
            supported == self.decoder().speculation_supported,
    {
        self.decoder.speculation_supported
    }

    /// The text between reasoning and answer, where the model separates them.
    pub fn end_of_thinking_tag(&self) -> (tag: Option<&str>)
        ensures
            tag.deep_view() == self.tag(),
    {
        match &self.end_of_thinking_tag {
            Some(tag) => Some(tag.as_str()),
            None => None,
        }
    }

    /// The type that the model computes with.
    pub fn data_type(&self) -> (data_type: DataType)
        ensures
            data_type == self.computes_with(),
    {
        self.data_type
    }
}

/// A model computes with the type that is configured, or with brain floats; its tag is that of the codec
/// for conversations.
pub proof fn law_model_follows_its_configuration(
    config: LanguageModelConfig,
    decoder: DecoderCapabilities,
    sparse_buffers: bool,
    has_speculator: bool,
    model: LanguageModel,
    data_type: DataType,
    supported: bool,
    longest: Option<u32>,
    tag: Option<&str>,
)
    requires
        call_ensures(LanguageModel::new, (config, decoder, sparse_buffers, has_speculator), model),
        call_ensures(LanguageModel::data_type, (&model,), data_type),
        call_ensures(LanguageModel::speculation_supported, (&model,), supported),
        call_ensures(LanguageModel::max_context_length, (&model,), longest),
        call_ensures(LanguageModel::end_of_thinking_tag, (&model,), tag),
    ensures
        config.data_type matches Some(configured) ==> data_type == configured,
        config.data_type is None ==> data_type == DataType::BF16,
        supported == decoder.speculation_supported,
        longest == decoder.max_context_length,
        config.token_codec_config is RawText ==> tag is None,
        config.token_codec_config matches TokenCodecConfig::Chat { end_of_thinking_tag } ==> match
            end_of_thinking_tag {
            Some(text) => tag matches Some(shown) && shown@ == text@,
            None => tag is None,
        },
{
}

/// A context is recommended where there is a greatest one. It is the greatest where unused context needs no
/// memory, and else as much of it as fits in 8192 tokens on a phone and in 16384 elsewhere.
pub proof fn law_recommended_context_fits_the_device(
    config: LanguageModelConfig,
    decoder: DecoderCapabilities,
    sparse_buffers: bool,
    has_speculator: bool,
    model: LanguageModel,
    is_ios: bool,
    length: Option<u32>,
)
    requires
        call_ensures(LanguageModel::new, (config, decoder, sparse_buffers, has_speculator), model),
        call_ensures(LanguageModel::recommended_context_length, (&model, is_ios), length),
    ensures
        length is Some <==> decoder.max_context_length is Some,
        length matches Some(length) ==> length <= decoder.max_context_length->0,
        length matches Some(length) ==> (sparse_buffers ==> length == decoder.max_context_length->0),
        length matches Some(length) ==> (!sparse_buffers ==> length <= (if is_ios {
            8192u32
        } else {
            16384u32
        })),
        length matches Some(length) ==> (length < decoder.max_context_length->0 ==> length == (if is_ios {
            8192u32
        } else {
            16384u32
        })),
{
}

} // verus!

//! Mixture-of-experts routing and expert execution.
use vstd::prelude::*;

use crate::backends::common::gpu_types::router_topk::{
    ROUTER_TOPK_MAX_EXPERTS, ROUTER_TOPK_MAX_MODEL_DIM, ROUTER_TOPK_MAX_SELECTED_EXPERTS,
};
use crate::config::weight_matrix::{AnyWeightMatrixSpec, FullPrecisionSpec, Layout};
use crate::data_type::DataType;
use crate::text;

verus! {

/// An activation function.
#[derive(Clone, Copy, Debug, PartialEq, Eq, Structural)]
pub enum ActivationType {
    SILU,
    GELUApprox,
    /// Any other one, by its number.
    Other(u32),
}

/// The configuration of a mixture of experts.
#[derive(Clone, Copy, Debug, PartialEq, Eq)]
pub struct MixtureOfExpertsConfig {
    pub num_routed_experts: u32,
    pub num_active_routed_experts: u32,
    pub num_shared_experts: u32,
    pub expert_hidden_dim: u32,
    /// Whether the output of the experts is gated.
    pub has_gate: bool,
    pub router_has_biases: bool,
    pub has_up_biases: bool,
    pub has_down_biases: bool,
    pub activation: ActivationType,
    /// Whether the weights of the selected experts are normalized by a softmax.
    pub softmax_routing: bool,
}

/// The extents of a mixture of experts.
#[derive(Clone, Copy, Debug, PartialEq, Eq)]
pub struct MoeShape {
    pub expert_count: u32,
    pub routes_per_token: u32,
    pub fused_hidden_dim: u32,
}

/// Why a mixture of experts is not supported.
#[derive(Debug, PartialEq, Eq)]
pub enum MoeBlockError {
    InvalidModelDim,
    InvalidRoutedExpertCount,
    InvalidActiveExpertCount,
    InvalidExpertHiddenDim,
    UnsupportedSharedExperts,
    UnsupportedExpertGate,
    UnsupportedNoBiases,
    UnsupportedRouterConfiguration(AnyWeightMatrixSpec),
    UnsupportedExpertActivation(ActivationType),
}

impl MoeBlockError {
    /// The reason in words, where `shown` is how the refused configuration or activation is written.
    pub open spec fn spec_message(self, shown: Seq<char>) -> Seq<char> {
        match self {
            MoeBlockError::InvalidModelDim => {
                "MoE model_dim must be nonzero, divisible by 4, and within the fused router capacity"@
            },
            MoeBlockError::InvalidRoutedExpertCount => {
                "MoE num_routed_experts must be nonzero and within the fused router capacity"@
            },
            MoeBlockError::InvalidActiveExpertCount => {
                "MoE num_active_routed_experts must be nonzero, within TopK capacity, and <= num_routed_experts"@
            },
            MoeBlockError::InvalidExpertHiddenDim => {
                "MoE expert_hidden_dim must be > 0 and 2 * expert_hidden_dim must fit in u32"@
            },
            MoeBlockError::UnsupportedSharedExperts => {
                "MoE shared experts are not supported"@
            },
            MoeBlockError::UnsupportedExpertGate => {
                "MoE expert gate is not supported"@
            },
            MoeBlockError::UnsupportedNoBiases => {
                "MoE without router, up, and down biases is not supported"@
            },
            MoeBlockError::UnsupportedRouterConfiguration(_) => {
                "Unsupported MoE router configuration: "@ + shown
            },
            MoeBlockError::UnsupportedExpertActivation(_) => {
                "Unsupported MoE expert activation: "@ + shown
            },
        }
    }

    /// The reason in words. Where a configuration or an activation is refused, `shown` is how it is
    /// written; else it is not used.
    pub fn message(&self, shown: &str) -> (message: String)
        ensures
            message@ == self.spec_message(shown@),
    {
        match self {
            MoeBlockError::InvalidModelDim => text::copy_str(
                "MoE model_dim must be nonzero, divisible by 4, and within the fused router capacity",
            ),
            MoeBlockError::InvalidRoutedExpertCount => text::copy_str(
                "MoE num_routed_experts must be nonzero and within the fused router capacity",
            ),
            MoeBlockError::InvalidActiveExpertCount => text::copy_str(
                "MoE num_active_routed_experts must be nonzero, within TopK capacity, and <= num_routed_experts",
            ),
            MoeBlockError::InvalidExpertHiddenDim => text::copy_str(
                "MoE expert_hidden_dim must be > 0 and 2 * expert_hidden_dim must fit in u32",
            ),
            MoeBlockError::UnsupportedSharedExperts => text::copy_str(
                "MoE shared experts are not supported",
            ),
            MoeBlockError::UnsupportedExpertGate => text::copy_str(
                "MoE expert gate is not supported",
            ),
            MoeBlockError::UnsupportedNoBiases => text::copy_str(
                "MoE without router, up, and down biases is not supported",
            ),
            MoeBlockError::UnsupportedRouterConfiguration(_) => {
                let mut message: String = text::copy_str("Unsupported MoE router configuration: ");
                text::push_str(&mut message, shown);
                message
            },
            MoeBlockError::UnsupportedExpertActivation(_) => {
                let mut message: String = text::copy_str("Unsupported MoE expert activation: ");
                text::push_str(&mut message, shown);
                message
            },
        }
    }
}

pub open spec fn spec_valid_model_dim(model_dim: u32) -> bool {
    0 < model_dim <= ROUTER_TOPK_MAX_MODEL_DIM && model_dim % 4 == 0
}

/// Whether the router holds a row of the model's width.
pub fn valid_model_dim(model_dim: u32) -> (valid: bool)
    ensures
        valid == spec_valid_model_dim(model_dim),
{
    model_dim != 0 && model_dim <= ROUTER_TOPK_MAX_MODEL_DIM && model_dim % 4 == 0
}

/// What is wrong with the numbers of experts.
pub open spec fn expert_count_fault(routed: u32, active: u32) -> Option<MoeBlockError> {
    if !(0 < routed <= ROUTER_TOPK_MAX_EXPERTS) {
        Some(MoeBlockError::InvalidRoutedExpertCount)
    } else if !(0 < active <= ROUTER_TOPK_MAX_SELECTED_EXPERTS && active <= routed) {
        Some(MoeBlockError::InvalidActiveExpertCount)
    } else {
        None
    }
}

/// Checks the numbers of experts.
pub fn validate_expert_counts(routed: u32, active: u32) -> (result: Result<(), MoeBlockError>)
    ensures
        result == match expert_count_fault(routed, active) {
            Some(error) => Err::<(), MoeBlockError>(error),
            None => Ok(()),
        },
{
    if routed == 0 || routed > ROUTER_TOPK_MAX_EXPERTS {
        return Err(MoeBlockError::InvalidRoutedExpertCount);
    }
    if active == 0 || active > ROUTER_TOPK_MAX_SELECTED_EXPERTS || active > routed {
        return Err(MoeBlockError::InvalidActiveExpertCount);
    }
    Ok(())
}

/// What is wrong with a configuration.
pub open spec fn config_fault(config: MixtureOfExpertsConfig, model_dim: u32) -> Option<
    MoeBlockError,
> {
    if !spec_valid_model_dim(model_dim) {
        Some(MoeBlockError::InvalidModelDim)
    } else if expert_count_fault(
        config.num_routed_experts,
        config.num_active_routed_experts,
    ) is Some {
        expert_count_fault(config.num_routed_experts, config.num_active_routed_experts)
    } else if !(0 < config.expert_hidden_dim && 2 * config.expert_hidden_dim <= u32::MAX) {
        Some(MoeBlockError::InvalidExpertHiddenDim)
    } else if config.num_shared_experts != 0 {
        Some(MoeBlockError::UnsupportedSharedExperts)
    } else if config.has_gate {
        Some(MoeBlockError::UnsupportedExpertGate)
    } else if !config.router_has_biases || !config.has_up_biases || !config.has_down_biases {
        Some(MoeBlockError::UnsupportedNoBiases)
    } else if config.activation is Other {
        Some(MoeBlockError::UnsupportedExpertActivation(config.activation))
    } else {
        None
    }
}

/// The extents of a configuration that is supported.
pub open spec fn shape_of(config: MixtureOfExpertsConfig) -> MoeShape {
    MoeShape {
        expert_count: config.num_routed_experts,
        routes_per_token: config.num_active_routed_experts,
        fused_hidden_dim: (2 * config.expert_hidden_dim) as u32,
    }
}

/// The weights of all experts' projections.
#[derive(Debug, PartialEq, Eq)]
pub struct ExpertBankPlan {
    pub spec: AnyWeightMatrixSpec,
    pub input_dim: u32,
    pub output_dim: u32,
    pub expert_count: u32,
    pub weights_data_type: DataType,
    pub input_data_type: DataType,
    pub output_data_type: DataType,
}

/// The weights of the router.
#[derive(Clone, Copy, Debug, PartialEq, Eq)]
pub struct RouterPlan {
    /// The rows of the weights, and the number of biases.
    pub expert_count: u32,
    /// The columns of the weights.
    pub model_dim: u32,
    pub routes_per_token: u32,
    /// Whether the weights of the selected experts are normalized.
    pub renormalize: bool,
    pub data_type: DataType,
}

/// What is loaded for a mixture of experts.
#[derive(Debug, PartialEq, Eq)]
pub struct MoeBlock {
    pub shape: MoeShape,
    pub router: RouterPlan,
    pub up_projection: ExpertBankPlan,
    pub down_projection: ExpertBankPlan,
}

/// The storage of experts that name none: full precision with a row for each output.
pub open spec fn is_expert_spec(stored: Option<AnyWeightMatrixSpec>, spec: AnyWeightMatrixSpec) -> bool {
    match stored {
        Some(stored) => spec == stored,
        None => spec == AnyWeightMatrixSpec::FullPrecisionSpec(
            FullPrecisionSpec { layout: Layout::OutputInput },
        ),
    }
}

/// The router's weights are stored in full precision, with a row for each expert.
pub open spec fn is_router_spec(spec: AnyWeightMatrixSpec) -> bool {
    spec == AnyWeightMatrixSpec::FullPrecisionSpec(
        FullPrecisionSpec { layout: Layout::OutputInput },
    )
}

impl MoeBlock {
    /// The storage of an expert's weights; `stored` is what the parameters name, if anything.
    fn expert_spec(stored: Option<AnyWeightMatrixSpec>) -> (spec: AnyWeightMatrixSpec)
        ensures
            is_expert_spec(stored, spec),
    {
        match stored {
            Some(spec) => spec,
            None => AnyWeightMatrixSpec::FullPrecisionSpec(FullPrecisionSpec::output_input()),
        }
    }

    /// Checks a configuration and gives its extents.
    pub fn validate_config(config: &MixtureOfExpertsConfig, model_dim: u32) -> (result: Result<
        MoeShape,
        MoeBlockError,
    >)
        ensures
            result == match config_fault(*config, model_dim) {
                Some(error) => Err::<MoeShape, MoeBlockError>(error),
                None => Ok(shape_of(*config)),
            },
    {
        if !valid_model_dim(model_dim) {
            return Err(MoeBlockError::InvalidModelDim);
        }
        if let Err(error) = validate_expert_counts(
            config.num_routed_experts,
            config.num_active_routed_experts,
        ) {
            return Err(error);
        }
        let fused_hidden_dim: u32 = match config.expert_hidden_dim.checked_mul(2) {
            Some(dim) => dim,
            None => {
                return Err(MoeBlockError::InvalidExpertHiddenDim);
            },
        };
        if config.expert_hidden_dim == 0 {
            return Err(MoeBlockError::InvalidExpertHiddenDim);
        }
        if config.num_shared_experts != 0 {
            return Err(MoeBlockError::UnsupportedSharedExperts);
        }
        if config.has_gate {
            return Err(MoeBlockError::UnsupportedExpertGate);
        }
        if !config.router_has_biases || !config.has_up_biases || !config.has_down_biases {
            return Err(MoeBlockError::UnsupportedNoBiases);
        }
        match config.activation {
            ActivationType::GELUApprox | ActivationType::SILU => {},
            activation => {
                return Err(MoeBlockError::UnsupportedExpertActivation(activation));
            },
        }
        Ok(
            MoeShape {
                expert_count: config.num_routed_experts,
                routes_per_token: config.num_active_routed_experts,
                fused_hidden_dim,
            },
        )
    }

    fn load_router(
        config: &MixtureOfExpertsConfig,
        shape: &MoeShape,
        model_dim: u32,
        data_type: DataType,
        spec: AnyWeightMatrixSpec,
    ) -> (result: Result<RouterPlan, MoeBlockError>)
        ensures
            result == if is_router_spec(spec) {
                Ok::<RouterPlan, MoeBlockError>(
                    RouterPlan {
                        expert_count: shape.expert_count,
                        model_dim,
                        routes_per_token: shape.routes_per_token,
                        renormalize: config.softmax_routing,
                        data_type,
                    },
                )
            } else {
                Err(MoeBlockError::UnsupportedRouterConfiguration(spec))
            },
    {
        if let AnyWeightMatrixSpec::FullPrecisionSpec(full_precision) = &spec {
            if full_precision.layout == Layout::OutputInput {
                return Ok(
                    RouterPlan {
                        expert_count: shape.expert_count,
                        model_dim,
                        routes_per_token: shape.routes_per_token,
                        renormalize: config.softmax_routing,
                        data_type,
                    },
                );
            }
        }
        Err(MoeBlockError::UnsupportedRouterConfiguration(spec))
    }

    /// Plans what is loaded for a mixture of experts. The specs are what the parameters say of the
    /// router's weights and, if anything, of the weights of the experts' projections.
    pub fn new(
        config: &MixtureOfExpertsConfig,
        model_dim: u32,
        data_type: DataType,
        router_spec: AnyWeightMatrixSpec,
        up_spec: Option<AnyWeightMatrixSpec>,
        down_spec: Option<AnyWeightMatrixSpec>,
    ) -> (result: Result<MoeBlock, MoeBlockError>)
        ensures
            match result {
                Ok(block) => {
                    let shape = shape_of(*config);
                    &&& config_fault(*config, model_dim) is None
                    &&& is_router_spec(router_spec)
                    &&& block.shape == shape
                    &&& block.router == (RouterPlan {
                        expert_count: shape.expert_count,
                        model_dim,
                        routes_per_token: shape.routes_per_token,
                        renormalize: config.softmax_routing,
                        data_type,
                    })
                    &&& is_expert_spec(up_spec, block.up_projection.spec)
                    &&& is_expert_spec(down_spec, block.down_projection.spec)
                    &&& block.up_projection == (ExpertBankPlan {
                        spec: block.up_projection.spec,
                        input_dim: model_dim,
                        output_dim: shape.fused_hidden_dim,
                        expert_count: shape.expert_count,
                        weights_data_type: data_type,
                        input_data_type: data_type,
                        output_data_type: DataType::F32,
                    })
                    &&& block.down_projection == (ExpertBankPlan {
                        spec: block.down_projection.spec,
                        input_dim: config.expert_hidden_dim,
                        output_dim: model_dim,
                        expert_count: shape.expert_count,
                        weights_data_type: data_type,
                        input_data_type: DataType::F32,
                        output_data_type: data_type,
                    })
                },
                Err(error) => match config_fault(*config, model_dim) {
                    Some(fault) => error == fault,
                    None => !is_router_spec(router_spec) && error
                        == MoeBlockError::UnsupportedRouterConfiguration(router_spec),
                },
            },
    {
        let shape: MoeShape = match MoeBlock::validate_config(config, model_dim) {
            Ok(shape) => shape,
            Err(error) => {
                return Err(error);
            },
        };
        let router: RouterPlan = match MoeBlock::load_router(
            config,
            &shape,
            model_dim,
            data_type,
            router_spec,
        ) {
            Ok(router) => router,
            Err(error) => {
                return Err(error);
            },
        };
        let up_projection = ExpertBankPlan {
            spec: MoeBlock::expert_spec(up_spec),
            input_dim: model_dim,
            output_dim: shape.fused_hidden_dim,
            expert_count: shape.expert_count,
            weights_data_type: data_type,
            input_data_type: data_type,
            output_data_type: DataType::F32,
        };
        let down_projection = ExpertBankPlan {
            spec: MoeBlock::expert_spec(down_spec),
            input_dim: config.expert_hidden_dim,
            output_dim: model_dim,
            expert_count: shape.expert_count,
            weights_data_type: data_type,
            input_data_type: DataType::F32,
            output_data_type: data_type,
        };
        Ok(MoeBlock { shape, router, up_projection, down_projection })
    }
}

/// The output of the first projection is read by the second: it holds two numbers for every hidden
/// unit. Both projections have the same experts.
pub proof fn law_projections_fit_together(config: MixtureOfExpertsConfig, model_dim: u32)
    requires
        config_fault(config, model_dim) is None,
    ensures
        shape_of(config).fused_hidden_dim == 2 * config.expert_hidden_dim,
        1 <= shape_of(config).routes_per_token <= shape_of(config).expert_count,
{
}

/// A configuration is supported exactly where a token's row has a multiple of four numbers, 4096 at most;
/// there are 512 experts at most, of which a token takes 128 at most and no more than there are; twice
/// the hidden units are counted by 32 bits; no expert is shared or gated; all biases are there; and
/// the activation is one of two. The extents are those of the configuration.
pub proof fn law_supported_configurations(
    config: MixtureOfExpertsConfig,
    model_dim: u32,
    result: Result<MoeShape, MoeBlockError>,
)
    requires
        call_ensures(MoeBlock::validate_config, (&config, model_dim), result),
    ensures
        result is Ok <==> {
            &&& model_dim % 4 == 0
            &&& 4 <= model_dim <= 4096
            &&& 1 <= config.num_active_routed_experts <= config.num_routed_experts <= 512
            &&& config.num_active_routed_experts <= 128
            &&& 1 <= config.expert_hidden_dim < 0x8000_0000
            &&& config.num_shared_experts == 0
            &&& !config.has_gate
            &&& config.router_has_biases && config.has_up_biases && config.has_down_biases
            &&& config.activation is SILU || config.activation is GELUApprox
        },
        result matches Ok(shape) ==> shape.expert_count == config.num_routed_experts
            && shape.routes_per_token == config.num_active_routed_experts && shape.fused_hidden_dim
            == config.expert_hidden_dim + config.expert_hidden_dim,
{
}

/// A configuration is refused for what is wrong with it.
pub proof fn law_refusals_name_a_fault(
    config: MixtureOfExpertsConfig,
    model_dim: u32,
    error: MoeBlockError,
)
    requires
        call_ensures(
            MoeBlock::validate_config,
            (&config, model_dim),
            Err::<MoeShape, MoeBlockError>(error),
        ),
    ensures
        match error {
            MoeBlockError::InvalidModelDim => model_dim == 0 || model_dim > 4096 || model_dim % 4 != 0,
            MoeBlockError::InvalidRoutedExpertCount => config.num_routed_experts == 0
                || config.num_routed_experts > 512,
            MoeBlockError::InvalidActiveExpertCount => config.num_active_routed_experts == 0
                || config.num_active_routed_experts > 128 || config.num_active_routed_experts
                > config.num_routed_experts,
            MoeBlockError::InvalidExpertHiddenDim => config.expert_hidden_dim == 0
                || config.expert_hidden_dim >= 0x8000_0000,
            MoeBlockError::UnsupportedSharedExperts => config.num_shared_experts > 0,
            MoeBlockError::UnsupportedExpertGate => config.has_gate,
            MoeBlockError::UnsupportedNoBiases => !(config.router_has_biases && config.has_up_biases
                && config.has_down_biases),
            MoeBlockError::UnsupportedExpertActivation(activation) => activation == config.activation
                && activation is Other,
            MoeBlockError::UnsupportedRouterConfiguration(_) => false,
        },
        model_dim == 0 || model_dim > 4096 || model_dim % 4 != 0 ==> error is InvalidModelDim,
{
}

/// A token's row goes through the router and the first projection, whose output, in single precision, is
/// halved to the hidden units that the second projection takes back to a row of the token's width and
/// type. Both projections hold every expert and are stored as named.
pub proof fn law_rows_pass_through_the_experts(
    config: MixtureOfExpertsConfig,
    model_dim: u32,
    data_type: DataType,
    router_spec: AnyWeightMatrixSpec,
    up_spec: Option<AnyWeightMatrixSpec>,
    down_spec: Option<AnyWeightMatrixSpec>,
    block: MoeBlock,
)
    requires
        call_ensures(
            MoeBlock::new,
            (&config, model_dim, data_type, router_spec, up_spec, down_spec),
            Ok::<MoeBlock, MoeBlockError>(block),
        ),
    ensures
        router_spec == AnyWeightMatrixSpec::FullPrecisionSpec(
            FullPrecisionSpec { layout: Layout::OutputInput },
        ),
        block.router.model_dim == model_dim,
        block.router.expert_count == config.num_routed_experts,
        block.router.routes_per_token == config.num_active_routed_experts,
        block.router.renormalize == config.softmax_routing,
        block.router.data_type == data_type,
        block.up_projection.input_dim == model_dim,
        block.up_projection.output_dim == 2 * block.down_projection.input_dim,
        block.down_projection.input_dim == config.expert_hidden_dim,
        block.down_projection.output_dim == model_dim,
        block.up_projection.input_data_type == data_type,
        block.up_projection.output_data_type == DataType::F32,
        block.down_projection.input_data_type == block.up_projection.output_data_type,
        block.down_projection.output_data_type == data_type,
        block.up_projection.weights_data_type == data_type,
        block.down_projection.weights_data_type == data_type,
        block.up_projection.expert_count == config.num_routed_experts,
        block.down_projection.expert_count == config.num_routed_experts,
        block.shape.expert_count == config.num_routed_experts,
        block.shape.routes_per_token == config.num_active_routed_experts,
        block.shape.fused_hidden_dim == block.up_projection.output_dim,
        up_spec matches Some(spec) ==> block.up_projection.spec == spec,
        down_spec matches Some(spec) ==> block.down_projection.spec == spec,
        up_spec is None ==> block.up_projection.spec == router_spec,
        down_spec is None ==> block.down_projection.spec == router_spec,
{
}

/// A refusal of the router's weights shows how they are stored, one of an activation which it is.
pub proof fn law_refusals_show_what_is_refused(error: MoeBlockError, shown: &str, message: String)
    requires
        call_ensures(MoeBlockError::message, (&error, shown), message),
        error is UnsupportedRouterConfiguration || error is UnsupportedExpertActivation,
    ensures
        message@.len() > shown@.len(),
        message@.skip(message@.len() - shown@.len()) == shown@,
{
    reveal_strlit("Unsupported MoE router configuration: ");
    reveal_strlit("Unsupported MoE expert activation: ");
    assert(message@.skip(message@.len() - shown@.len()) =~= shown@);
}

/// The checks of the width and of the numbers of experts can be made on their own.
pub proof fn law_checks_can_be_made_alone(
    model_dim: u32,
    routed: u32,
    active: u32,
    valid: bool,
    result: Result<(), MoeBlockError>,
)
    requires
        call_ensures(valid_model_dim, (model_dim,), valid),
        call_ensures(validate_expert_counts, (routed, active), result),
    ensures
        valid <==> 4 <= model_dim <= 4096 && model_dim % 4 == 0,
        result is Ok <==> 1 <= active <= routed <= 512 && active <= 128,
        result == Err::<(), MoeBlockError>(MoeBlockError::InvalidRoutedExpertCount) <==> routed == 0 || routed
            > 512,
{
}

} // verus!

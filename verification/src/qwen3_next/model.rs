//! The plan of a model: its layers, its caches, and what is saved of it.
use vstd::prelude::*;

use crate::qwen3_next::attention::at_least_one;
use crate::qwen3_next::config::{holds_heads, law_linear_widths, Config, LayerType};
use crate::qwen3_next::rollback::{
    distinct, distinct_numbers, law_distinct_covers, law_distinct_keeps_order,
};
use crate::text::{dec, decimal, Fault};

verus! {

/// The kind of cache that a layer has.
#[derive(Clone, Copy, Debug, PartialEq, Eq, Structural)]
pub enum HybridLayerType {
    Attention,
    Recurrent,
}

/// The sizes of the recurrent states of a layer.
#[derive(Clone, Copy, Debug, PartialEq, Eq, Structural)]
pub struct RecurrentLayerConfig {
    pub conv_dim: usize,
    pub conv_width: usize,
    pub heads: usize,
    pub key_dim: usize,
    pub value_dim: usize,
}

/// What the pipeline asks of a model.
#[derive(Clone, Copy, Debug, PartialEq, Eq, Structural)]
pub struct ModelConfigMetadata {
    pub max_seq_len: usize,
    pub num_layers: usize,
    pub hidden_size: usize,
    pub num_kv_heads: usize,
    pub num_attn_heads: usize,
    pub sliding_window: Option<usize>,
    pub k_head_dim: usize,
    pub v_head_dim: usize,
}

/// What it takes to build a model.
#[derive(Debug)]
pub struct ModelPlan {
    pub layer_types: Vec<LayerType>,
    /// Whether the embedding also gives the logits.
    pub tied: bool,
    /// The devices that need rotary embeddings.
    pub rope_devices: Vec<usize>,
    pub num_full: usize,
    pub num_linear: usize,
    pub cache_layers: Vec<HybridLayerType>,
    pub recurrent: RecurrentLayerConfig,
    pub metadata: ModelConfigMetadata,
}

pub open spec fn kind_count(kinds: Seq<LayerType>, kind: LayerType, n: int) -> nat
    decreases n,
{
    if n <= 0 {
        0
    } else {
        kind_count(kinds, kind, n - 1) + if kinds[n - 1] == kind {
            1nat
        } else {
            0nat
        }
    }
}

/// The devices of the full-attention layers among the first `n`.
pub open spec fn full_devices(kinds: Seq<LayerType>, devices: Seq<usize>, n: int) -> Seq<usize>
    decreases n,
{
    if n <= 0 {
        Seq::empty()
    } else if kinds[n - 1] == LayerType::FullAttention {
        full_devices(kinds, devices, n - 1).push(devices[n - 1])
    } else {
        full_devices(kinds, devices, n - 1)
    }
}

pub open spec fn cache_kind(kind: LayerType) -> HybridLayerType {
    match kind {
        LayerType::FullAttention => HybridLayerType::Attention,
        LayerType::LinearAttention => HybridLayerType::Recurrent,
    }
}

/// The caches of the layers, and that of the head that comes after them.
pub open spec fn cache_kinds(config: Config) -> Seq<HybridLayerType> {
    config.kinds().map_values(|kind: LayerType| cache_kind(kind)) + Seq::new(
        config.mtp_count(),
        |i: int| HybridLayerType::Attention,
    )
}

pub open spec fn metadata_of(config: Config, world_size: usize) -> ModelConfigMetadata {
    ModelConfigMetadata {
        max_seq_len: config.max_position_embeddings,
        num_layers: (config.num_hidden_layers + config.mtp_count()) as usize,
        hidden_size: config.hidden_size,
        num_kv_heads: at_least_one(config.num_key_value_heads / world_size),
        num_attn_heads: config.num_attention_heads / world_size,
        sliding_window: None,
        k_head_dim: config.head_dim,
        v_head_dim: config.head_dim,
    }
}

pub open spec fn recurrent_of(config: Config) -> RecurrentLayerConfig {
    RecurrentLayerConfig {
        conv_dim: config.conv_dim() as usize,
        conv_width: config.linear_conv_kernel_dim,
        heads: config.linear_num_value_heads,
        key_dim: config.linear_key_head_dim,
        value_dim: config.linear_value_head_dim,
    }
}

pub open spec fn plan_is(plan: ModelPlan, config: Config, devices: Seq<usize>, world_size: usize) -> bool {
    let kinds = config.kinds();
    let n = kinds.len() as int;
    let full = full_devices(kinds, devices, n);
    &&& plan.layer_types@ == kinds
    &&& plan.tied == config.tie_word_embeddings
    &&& plan.rope_devices@ == distinct(full, full.len() as int)
    &&& plan.num_full == kind_count(kinds, LayerType::FullAttention, n)
    &&& plan.num_linear == kind_count(kinds, LayerType::LinearAttention, n)
    &&& plan.cache_layers@ == cache_kinds(config)
    &&& plan.recurrent == recurrent_of(config)
    &&& plan.metadata == metadata_of(config, world_size)
}

/// Whether a model can be planned: layers come at an interval, the layers and
/// the widths can be counted, and there is a process to run it.
pub open spec fn can_plan(config: Config, devices: Seq<usize>, world_size: usize) -> bool {
    &&& config.has_interval()
    &&& devices.len() >= config.num_hidden_layers
    &&& config.conv_dim() <= usize::MAX
    &&& config.num_hidden_layers + config.mtp_count() <= usize::MAX
    &&& world_size > 0
}

/// Tests whether a model can be planned.
pub fn model_can_be_planned(config: &Config, devices: &Vec<usize>, world_size: usize) -> (can: bool)
    ensures
        can == can_plan(*config, devices@, world_size),
{
    (config.num_hidden_layers == 0 || config.full_attention_interval > 0) && devices.len()
        >= config.num_hidden_layers && config.conv_dim_fits() && config.num_hidden_layers
        <= usize::MAX - config.mtp_layers() && world_size > 0
}

fn cache_layers(kinds: &Vec<LayerType>, mtp_layers: usize) -> (list: Vec<HybridLayerType>)
    requires
        mtp_layers <= 1,
    ensures
        list@ == kinds@.map_values(|kind: LayerType| cache_kind(kind)) + Seq::new(
            mtp_layers as nat,
            |i: int| HybridLayerType::Attention,
        ),
{
    let mut list: Vec<HybridLayerType> = Vec::new();
    let mut i: usize = 0;
    while i < kinds.len()
        invariant
            i <= kinds@.len(),
            list@ == kinds@.take(i as int).map_values(|kind: LayerType| cache_kind(kind)),
        decreases kinds@.len() - i,
    {
        match kinds[i] {
            LayerType::FullAttention => {
                list.push(HybridLayerType::Attention);
            },
            LayerType::LinearAttention => {
                list.push(HybridLayerType::Recurrent);
            },
        }
        i = i + 1;
        assert(list@ =~= kinds@.take(i as int).map_values(|kind: LayerType| cache_kind(kind)));
    }
    assert(kinds@.take(i as int) =~= kinds@);
    if mtp_layers > 0 {
        list.push(HybridLayerType::Attention);
    }
    assert(list@ =~= kinds@.map_values(|kind: LayerType| cache_kind(kind)) + Seq::new(
        mtp_layers as nat,
        |k: int| HybridLayerType::Attention,
    ));
    list
}

/// What it takes to build a model over the devices of its layers. Layers without
/// experts are not supported.
pub fn plan_model(config: &Config, devices: &Vec<usize>, world_size: usize) -> (plan: Result<
    ModelPlan,
    Fault,
>)
    requires
        config.mlp_only_layers@.len() == 0 ==> can_plan(*config, devices@, world_size),
    ensures
        match plan {
            Ok(plan) => config.mlp_only_layers@.len() == 0 && plan_is(
                plan,
                *config,
                devices@,
                world_size,
            ),
            Err(fault) => config.mlp_only_layers@.len() > 0 && fault@
                == "Qwen3Next `mlp_only_layers` is not implemented yet in mistral.rs."@,
        },
{
    if config.mlp_only_layers.len() > 0 {
        return Err(
            Fault::of("Qwen3Next `mlp_only_layers` is not implemented yet in mistral.rs."),
        );
    }
    let kinds: Vec<LayerType> = config.layer_types();
    let mut full: Vec<usize> = Vec::new();
    let mut num_full: usize = 0;
    let mut num_linear: usize = 0;
    let mut i: usize = 0;
    while i < kinds.len()
        invariant
            i <= kinds@.len(),
            kinds@.len() <= devices@.len(),
            full@ == full_devices(kinds@, devices@, i as int),
            num_full == kind_count(kinds@, LayerType::FullAttention, i as int),
            num_linear == kind_count(kinds@, LayerType::LinearAttention, i as int),
            num_full <= i,
            num_linear <= i,
        decreases kinds@.len() - i,
    {
        match kinds[i] {
            LayerType::FullAttention => {
                full.push(devices[i]);
                num_full = num_full + 1;
            },
            LayerType::LinearAttention => {
                num_linear = num_linear + 1;
            },
        }
        i = i + 1;
    }
    let rope_devices: Vec<usize> = distinct_numbers(&full);
    let cache: Vec<HybridLayerType> = cache_layers(&kinds, config.mtp_layers());
    let kv_heads: usize = config.num_key_value_heads / world_size;
    Ok(
        ModelPlan {
            layer_types: kinds,
            tied: config.tie_word_embeddings,
            rope_devices,
            num_full,
            num_linear,
            cache_layers: cache,
            recurrent: RecurrentLayerConfig {
                conv_dim: config.linear_conv_dim(),
                conv_width: config.linear_conv_kernel_dim,
                heads: config.linear_num_value_heads,
                key_dim: config.linear_key_head_dim,
                value_dim: config.linear_value_head_dim,
            },
            metadata: ModelConfigMetadata {
                max_seq_len: config.max_position_embeddings,
                num_layers: config.num_hidden_layers + config.mtp_layers(),
                hidden_size: config.hidden_size,
                num_kv_heads: if kv_heads < 1 {
                    1
                } else {
                    kv_heads
                },
                num_attn_heads: config.num_attention_heads / world_size,
                sliding_window: None,
                k_head_dim: config.head_dim,
                v_head_dim: config.head_dim,
            },
        },
    )
}

/// Every layer is of one kind or the other.
pub proof fn law_kinds_are_counted(kinds: Seq<LayerType>, n: int)
    requires
        0 <= n <= kinds.len(),
    ensures
        kind_count(kinds, LayerType::FullAttention, n) + kind_count(
            kinds,
            LayerType::LinearAttention,
            n,
        ) == n,
    decreases n,
{
    if n > 0 {
        law_kinds_are_counted(kinds, n - 1);
    }
}

proof fn lemma_full_device_is_listed(kinds: Seq<LayerType>, devices: Seq<usize>, n: int, i: int)
    requires
        0 <= i < n <= kinds.len(),
        kinds[i] == LayerType::FullAttention,
    ensures
        full_devices(kinds, devices, n).contains(devices[i]),
    decreases n,
{
    let list = full_devices(kinds, devices, n);
    if i == n - 1 {
        assert(list[list.len() - 1] == devices[i]);
    } else {
        lemma_full_device_is_listed(kinds, devices, n - 1, i);
        let before = full_devices(kinds, devices, n - 1);
        let at = choose|at: int| 0 <= at < before.len() && before[at] == devices[i];
        assert(list[at] == devices[i]);
    }
}

proof fn lemma_full_devices_len(kinds: Seq<LayerType>, devices: Seq<usize>, n: int)
    requires
        0 <= n,
    ensures
        full_devices(kinds, devices, n).len() <= n,
    decreases n,
{
    if n > 0 {
        lemma_full_devices_len(kinds, devices, n - 1);
    }
}

/// The device of every full-attention layer has rotary embeddings, and no device
/// has them twice.
pub proof fn law_full_layers_have_ropes(
    plan: ModelPlan,
    config: Config,
    devices: Seq<usize>,
    world_size: usize,
)
    requires
        plan_is(plan, config, devices, world_size),
    ensures
        plan.rope_devices@.no_duplicates(),
        forall|i: int|
            0 <= i < config.kinds().len() && config.kinds()[i] == LayerType::FullAttention
                ==> plan.rope_devices@.contains(#[trigger] devices[i]),
{
    let kinds = config.kinds();
    let n = kinds.len() as int;
    let full = full_devices(kinds, devices, n);
    lemma_full_devices_len(kinds, devices, n);
    law_distinct_covers(full, full.len() as int);
    assert forall|i: int| 0 <= i < n && kinds[i] == LayerType::FullAttention implies plan.rope_devices@.contains(
        #[trigger] devices[i],
    ) by {
        lemma_full_device_is_listed(kinds, devices, n, i);
        let at = choose|at: int| 0 <= at < full.len() && full[at] == devices[i];
        assert(full[at] == devices[i]);
    }
}

/// A layer has a paged cache where it has a cache of keys and values.
pub proof fn law_paged_layers_have_attention_caches(config: Config)
    ensures
        cache_kinds(config).len() == config.paged_mask().len(),
        forall|i: int|
            0 <= i < cache_kinds(config).len() ==> (#[trigger] cache_kinds(config)[i]
                == HybridLayerType::Attention) == config.paged_mask()[i],
{
    let n = config.kinds().len() as int;
    assert forall|i: int| 0 <= i < cache_kinds(config).len() implies (#[trigger] cache_kinds(
        config,
    )[i] == HybridLayerType::Attention) == config.paged_mask()[i] by {
        if i < n {
            assert(cache_kinds(config)[i] == cache_kind(config.kinds()[i]));
        }
    }
}

// What is saved of a model beside its quantized weights.

/// A part of a model that is saved as it is: all tensors of a module, or one
/// tensor.
#[derive(Debug)]
pub enum ResidualPart {
    Module(String),
    Tensor(String),
}

pub enum ResidualView {
    Module(Seq<char>),
    Tensor(Seq<char>),
}

impl View for ResidualPart {
    type V = ResidualView;

    open spec fn view(&self) -> ResidualView {
        match self {
            ResidualPart::Module(path) => ResidualView::Module(path@),
            ResidualPart::Tensor(path) => ResidualView::Tensor(path@),
        }
    }
}

pub open spec fn part_views(parts: Seq<ResidualPart>) -> Seq<ResidualView> {
    parts.map_values(|part: ResidualPart| part@)
}

pub open spec fn layer_prefix(layer_idx: int) -> Seq<char> {
    "model.layers."@ + dec(layer_idx as nat)
}

pub open spec fn mixer_parts(prefix: Seq<char>, kind: LayerType) -> Seq<ResidualView> {
    match kind {
        LayerType::FullAttention => seq![
            ResidualView::Module(prefix + ".self_attn.q_norm"@),
            ResidualView::Module(prefix + ".self_attn.k_norm"@),
        ],
        LayerType::LinearAttention => seq![
            ResidualView::Tensor(prefix + ".linear_attn.conv1d.weight"@),
            ResidualView::Tensor(prefix + ".linear_attn.dt_bias"@),
            ResidualView::Tensor(prefix + ".linear_attn.A_log"@),
            ResidualView::Tensor(prefix + ".linear_attn.norm.weight"@),
        ],
    }
}

pub open spec fn norm_parts(prefix: Seq<char>) -> Seq<ResidualView> {
    seq![
        ResidualView::Module(prefix + ".input_layernorm"@),
        ResidualView::Module(prefix + ".post_attention_layernorm"@),
    ]
}

pub open spec fn gate_parts(prefix: Seq<char>) -> Seq<ResidualView> {
    seq![
        ResidualView::Tensor(prefix + ".mlp.gate.weight"@),
        ResidualView::Tensor(prefix + ".mlp.shared_expert_gate.weight"@),
    ]
}

pub open spec fn layer_parts(kinds: Seq<LayerType>, n: int) -> Seq<ResidualView>
    decreases n,
{
    if n <= 0 {
        Seq::empty()
    } else {
        layer_parts(kinds, n - 1) + norm_parts(layer_prefix(n - 1)) + mixer_parts(
            layer_prefix(n - 1),
            kinds[n - 1],
        ) + gate_parts(layer_prefix(n - 1))
    }
}

pub open spec fn mtp_parts() -> Seq<ResidualView> {
    seq![
        ResidualView::Module("mtp.pre_fc_norm_embedding"@),
        ResidualView::Module("mtp.pre_fc_norm_hidden"@),
        ResidualView::Module("mtp.norm"@),
    ] + norm_parts("mtp.layers.0"@) + mixer_parts("mtp.layers.0"@, LayerType::FullAttention)
}

/// All parts of a model, with those of the head where it has one.
pub open spec fn model_parts(kinds: Seq<LayerType>, mtp: bool) -> Seq<ResidualView> {
    let parts = seq![
        ResidualView::Module("model.embed_tokens"@),
        ResidualView::Module("model.norm"@),
    ] + layer_parts(kinds, kinds.len() as int);
    if mtp {
        parts + mtp_parts()
    } else {
        parts
    }
}

fn path(prefix: &String, name: &str) -> (joined: String)
    ensures
        joined@ == prefix@ + name@,
{
    String::from_str(prefix.as_str()).concat(name)
}

fn push_norms(parts: &mut Vec<ResidualPart>, prefix: &String)
    ensures
        part_views(final(parts)@) == part_views(old(parts)@) + norm_parts(prefix@),
{
    parts.push(ResidualPart::Module(path(prefix, ".input_layernorm")));
    parts.push(ResidualPart::Module(path(prefix, ".post_attention_layernorm")));
    assert(part_views(parts@) =~= part_views(old(parts)@) + norm_parts(prefix@));
}

fn push_mixer(parts: &mut Vec<ResidualPart>, prefix: &String, kind: LayerType)
    ensures
        part_views(final(parts)@) == part_views(old(parts)@) + mixer_parts(prefix@, kind),
{
    match kind {
        LayerType::FullAttention => {
            parts.push(ResidualPart::Module(path(prefix, ".self_attn.q_norm")));
            parts.push(ResidualPart::Module(path(prefix, ".self_attn.k_norm")));
        },
        LayerType::LinearAttention => {
            parts.push(ResidualPart::Tensor(path(prefix, ".linear_attn.conv1d.weight")));
            parts.push(ResidualPart::Tensor(path(prefix, ".linear_attn.dt_bias")));
            parts.push(ResidualPart::Tensor(path(prefix, ".linear_attn.A_log")));
            parts.push(ResidualPart::Tensor(path(prefix, ".linear_attn.norm.weight")));
        },
    }
    assert(part_views(parts@) =~= part_views(old(parts)@) + mixer_parts(prefix@, kind));
}

fn push_gates(parts: &mut Vec<ResidualPart>, prefix: &String)
    ensures
        part_views(final(parts)@) == part_views(old(parts)@) + gate_parts(prefix@),
{
    parts.push(ResidualPart::Tensor(path(prefix, ".mlp.gate.weight")));
    parts.push(ResidualPart::Tensor(path(prefix, ".mlp.shared_expert_gate.weight")));
    assert(part_views(parts@) =~= part_views(old(parts)@) + gate_parts(prefix@));
}

fn push_head(parts: &mut Vec<ResidualPart>)
    ensures
        part_views(final(parts)@) == part_views(old(parts)@) + mtp_parts(),
{
    parts.push(ResidualPart::Module(String::from_str("mtp.pre_fc_norm_embedding")));
    parts.push(ResidualPart::Module(String::from_str("mtp.pre_fc_norm_hidden")));
    parts.push(ResidualPart::Module(String::from_str("mtp.norm")));
    let prefix: String = String::from_str("mtp.layers.0");
    push_norms(parts, &prefix);
    push_mixer(parts, &prefix, LayerType::FullAttention);
    assert(part_views(parts@) =~= part_views(old(parts)@) + mtp_parts());
}

/// The parts of a model that are saved beside its quantized weights.
pub fn residual_parts(kinds: &Vec<LayerType>, mtp: bool) -> (parts: Vec<ResidualPart>)
    ensures
        part_views(parts@) == model_parts(kinds@, mtp),
{
    let mut parts: Vec<ResidualPart> = Vec::new();
    parts.push(ResidualPart::Module(String::from_str("model.embed_tokens")));
    parts.push(ResidualPart::Module(String::from_str("model.norm")));
    let ghost first = seq![
        ResidualView::Module("model.embed_tokens"@),
        ResidualView::Module("model.norm"@),
    ];
    let mut i: usize = 0;
    assert(part_views(parts@) =~= first + layer_parts(kinds@, 0));
    while i < kinds.len()
        invariant
            i <= kinds@.len(),
            part_views(parts@) == first + layer_parts(kinds@, i as int),
        decreases kinds@.len() - i,
    {
        let prefix: String = String::from_str("model.layers.").concat(decimal(i as u64).as_str());
        push_norms(&mut parts, &prefix);
        push_mixer(&mut parts, &prefix, kinds[i]);
        push_gates(&mut parts, &prefix);
        i = i + 1;
        assert(part_views(parts@) =~= first + layer_parts(kinds@, i as int));
    }
    if mtp {
        push_head(&mut parts);
    }
    parts
}

/// Layers of a kind are counted one by one.
pub proof fn law_kinds_are_counted_one_by_one(kinds: Seq<LayerType>, kind: LayerType, n: int)
    requires
        0 <= n <= kinds.len(),
    ensures
        kind_count(kinds, kind, n) == kinds.take(n).filter(|k: LayerType| k == kind).len(),
    decreases n,
{
    let same = |k: LayerType| k == kind;
    reveal(Seq::filter);
    if n > 0 {
        law_kinds_are_counted_one_by_one(kinds, kind, n - 1);
        assert(kinds.take(n).drop_last() =~= kinds.take(n - 1));
        assert(kinds.take(n).last() == kinds[n - 1]);
    } else {
        assert(kinds.take(0) =~= Seq::<LayerType>::empty());
    }
}

proof fn lemma_full_devices_are_of_full_layers(
    kinds: Seq<LayerType>,
    devices: Seq<usize>,
    n: int,
    device: usize,
)
    requires
        0 <= n <= kinds.len(),
        full_devices(kinds, devices, n).contains(device),
    ensures
        exists|i: int|
            0 <= i < n && kinds[i] == LayerType::FullAttention && #[trigger] devices[i] == device,
    decreases n,
{
    let list = full_devices(kinds, devices, n);
    let at = choose|at: int| 0 <= at < list.len() && list[at] == device;
    if n > 0 {
        let before = full_devices(kinds, devices, n - 1);
        if at < before.len() {
            assert(before[at] == device);
            lemma_full_devices_are_of_full_layers(kinds, devices, n - 1, device);
            let i = choose|i: int|
                0 <= i < n - 1 && kinds[i] == LayerType::FullAttention && #[trigger] devices[i]
                    == device;
            assert(devices[i] == device);
        } else {
            assert(devices[n - 1] == device);
        }
    }
}

/// A plan is that of its configuration: it has a cache for each layer, of keys and values
/// exactly where a layer has full attention, and one more of these for the head that
/// predicts several tokens; rotary embeddings on the devices of the layers with full
/// attention and on no other; and each layer is counted as what it is.
pub proof fn law_plans_follow_layers(
    plan: ModelPlan,
    config: Config,
    devices: Seq<usize>,
    world_size: usize,
)
    requires
        plan_is(plan, config, devices, world_size),
        can_plan(config, devices, world_size),
    ensures
        plan.layer_types@.len() == config.num_hidden_layers,
        plan.tied == config.tie_word_embeddings,
        plan.cache_layers@.len() == plan.metadata.num_layers,
        plan.metadata.num_layers == if config.mtp {
            config.num_hidden_layers + 1
        } else {
            config.num_hidden_layers as int
        },
        forall|i: int|
            0 <= i < config.num_hidden_layers ==> (#[trigger] plan.cache_layers@[i]
                == HybridLayerType::Attention <==> plan.layer_types@[i]
                == LayerType::FullAttention),
        config.mtp ==> plan.cache_layers@[config.num_hidden_layers as int]
            == HybridLayerType::Attention,
        plan.num_full == plan.layer_types@.filter(
            |kind: LayerType| kind == LayerType::FullAttention,
        ).len(),
        plan.num_full + plan.num_linear == config.num_hidden_layers,
        forall|device: usize| #[trigger]
            plan.rope_devices@.contains(device) <==> exists|i: int|
                0 <= i < config.num_hidden_layers && plan.layer_types@[i]
                    == LayerType::FullAttention && #[trigger] devices[i] == device,
{
    let kinds = config.kinds();
    let n = kinds.len() as int;
    let full = full_devices(kinds, devices, n);
    law_kinds_are_counted(kinds, n);
    law_kinds_are_counted_one_by_one(kinds, LayerType::FullAttention, n);
    assert(kinds.take(n) =~= kinds);
    law_full_layers_have_ropes(plan, config, devices, world_size);
    lemma_full_devices_len(kinds, devices, n);
    law_distinct_covers(full, full.len() as int);
    assert forall|i: int| 0 <= i < n implies (#[trigger] plan.cache_layers@[i]
        == HybridLayerType::Attention <==> plan.layer_types@[i] == LayerType::FullAttention) by {
        assert(cache_kinds(config)[i] == cache_kind(kinds[i]));
    }
    assert forall|device: usize| #[trigger] plan.rope_devices@.contains(device) implies exists|i: int|
        0 <= i < config.num_hidden_layers && plan.layer_types@[i] == LayerType::FullAttention
            && #[trigger] devices[i] == device by {
        let at = choose|at: int|
            0 <= at < plan.rope_devices@.len() && plan.rope_devices@[at] == device;
        law_distinct_keeps_order(full, full.len() as int);
        assert(full.contains(device));
        lemma_full_devices_are_of_full_layers(kinds, devices, n, device);
    }
}

/// The sizes of a plan are those of its configuration: a device keeps an even share of the
/// heads, of key-value heads at least one, and a recurrent state has a matrix for each
/// value head, of the size of a key by that of a value, and a window of the convolution.
pub proof fn law_plans_follow_sizes(
    plan: ModelPlan,
    config: Config,
    devices: Seq<usize>,
    world_size: usize,
)
    requires
        plan_is(plan, config, devices, world_size),
        can_plan(config, devices, world_size),
    ensures
        ({
            let meta = plan.metadata;
            let state = plan.recurrent;
            &&& meta.max_seq_len == config.max_position_embeddings
            &&& meta.hidden_size == config.hidden_size
            &&& meta.sliding_window is None
            &&& meta.k_head_dim == config.head_dim && meta.v_head_dim == config.head_dim
            &&& meta.num_attn_heads * world_size <= config.num_attention_heads < (
            meta.num_attn_heads + 1) * world_size
            &&& config.num_key_value_heads < world_size ==> meta.num_kv_heads == 1
            &&& config.num_key_value_heads >= world_size ==> meta.num_kv_heads * world_size
                <= config.num_key_value_heads < (meta.num_kv_heads + 1) * world_size
            &&& state.conv_dim == config.conv_dim()
            &&& state.conv_width == config.linear_conv_kernel_dim
            &&& holds_heads(config.value_dim() as int, state.heads as int, state.value_dim as int)
            &&& state.key_dim == config.linear_key_head_dim
            &&& state.heads == config.linear_num_value_heads
            &&& state.value_dim == config.linear_value_head_dim
        }),
{
    let (heads, kv, n) = (
        config.num_attention_heads as int,
        config.num_key_value_heads as int,
        world_size as int,
    );
    law_linear_widths(config);
    vstd::arithmetic::div_mod::lemma_fundamental_div_mod(heads, n);
    vstd::arithmetic::div_mod::lemma_fundamental_div_mod(kv, n);
    let (x, y) = (heads / n, kv / n);
    assert(n * x == x * n && (x + 1) * n == x * n + n) by (nonlinear_arith);
    assert(n * y == y * n && (y + 1) * n == y * n + n) by (nonlinear_arith);
    if kv >= n {
        assert(y >= 1) by (nonlinear_arith)
            requires
                kv == n * y + kv % n,
                kv % n < n,
                kv >= n,
                n > 0,
        ;
    } else {
        vstd::arithmetic::div_mod::lemma_basic_div(kv, n);
    }
}

/// Whether a module is saved whole.
pub open spec fn saves_module(parts: Seq<ResidualView>, path: Seq<char>) -> bool {
    parts.contains(ResidualView::Module(path))
}

/// Whether a tensor is saved.
pub open spec fn saves_tensor(parts: Seq<ResidualView>, path: Seq<char>) -> bool {
    parts.contains(ResidualView::Tensor(path))
}

proof fn lemma_joined_contains(a: Seq<ResidualView>, b: Seq<ResidualView>, part: ResidualView)
    requires
        a.contains(part) || b.contains(part),
    ensures
        (a + b).contains(part),
{
    if a.contains(part) {
        let i = choose|i: int| 0 <= i < a.len() && a[i] == part;
        assert((a + b)[i] == part);
    } else {
        let i = choose|i: int| 0 <= i < b.len() && b[i] == part;
        assert((a + b)[a.len() + i] == part);
    }
}

proof fn lemma_layer_is_saved(kinds: Seq<LayerType>, n: int, i: int, part: ResidualView)
    requires
        0 <= i < n,
        norm_parts(layer_prefix(i)).contains(part) || mixer_parts(
            layer_prefix(i),
            kinds[i],
        ).contains(part) || gate_parts(layer_prefix(i)).contains(part),
    ensures
        layer_parts(kinds, n).contains(part),
    decreases n,
{
    let before = layer_parts(kinds, n - 1);
    let (a, b, c) = (
        norm_parts(layer_prefix(n - 1)),
        mixer_parts(layer_prefix(n - 1), kinds[n - 1]),
        gate_parts(layer_prefix(n - 1)),
    );
    if i < n - 1 {
        lemma_layer_is_saved(kinds, n - 1, i, part);
    }
    if before.contains(part) || a.contains(part) {
        lemma_joined_contains(before, a, part);
    }
    if (before + a).contains(part) || b.contains(part) {
        lemma_joined_contains(before + a, b, part);
    }
    lemma_joined_contains(before + a + b, c, part);
}

proof fn lemma_layer_parts_len(kinds: Seq<LayerType>, n: int)
    requires
        0 <= n <= kinds.len(),
    ensures
        layer_parts(kinds, n).len() == 6 * kind_count(kinds, LayerType::FullAttention, n) + 8
            * kind_count(kinds, LayerType::LinearAttention, n),
    decreases n,
{
    if n > 0 {
        lemma_layer_parts_len(kinds, n - 1);
    }
}

/// Whether the norms of a layer are saved, its gates, and what is not quantized of its
/// attention.
pub open spec fn saves_layer(parts: Seq<ResidualView>, prefix: Seq<char>, kind: LayerType) -> bool {
    &&& saves_module(parts, prefix + ".input_layernorm"@)
    &&& saves_module(parts, prefix + ".post_attention_layernorm"@)
    &&& saves_tensor(parts, prefix + ".mlp.gate.weight"@)
    &&& saves_tensor(parts, prefix + ".mlp.shared_expert_gate.weight"@)
    &&& kind == LayerType::FullAttention ==> {
        &&& saves_module(parts, prefix + ".self_attn.q_norm"@)
        &&& saves_module(parts, prefix + ".self_attn.k_norm"@)
    }
    &&& kind == LayerType::LinearAttention ==> {
        &&& saves_tensor(parts, prefix + ".linear_attn.conv1d.weight"@)
        &&& saves_tensor(parts, prefix + ".linear_attn.dt_bias"@)
        &&& saves_tensor(parts, prefix + ".linear_attn.A_log"@)
        &&& saves_tensor(parts, prefix + ".linear_attn.norm.weight"@)
    }
}

proof fn lemma_part_is_saved(kinds: Seq<LayerType>, mtp: bool, i: int, part: ResidualView)
    requires
        0 <= i < kinds.len(),
        norm_parts(layer_prefix(i)).contains(part) || mixer_parts(
            layer_prefix(i),
            kinds[i],
        ).contains(part) || gate_parts(layer_prefix(i)).contains(part),
    ensures
        model_parts(kinds, mtp).contains(part),
{
    let first = seq![
        ResidualView::Module("model.embed_tokens"@),
        ResidualView::Module("model.norm"@),
    ];
    let layers = layer_parts(kinds, kinds.len() as int);
    lemma_layer_is_saved(kinds, kinds.len() as int, i, part);
    lemma_joined_contains(first, layers, part);
    if mtp {
        lemma_joined_contains(first + layers, mtp_parts(), part);
    }
}

/// Of each layer everything that is not quantized is saved, under the name of the layer.
pub proof fn law_layers_are_saved(kinds: Seq<LayerType>, mtp: bool, i: int)
    requires
        0 <= i < kinds.len(),
    ensures
        saves_layer(model_parts(kinds, mtp), "model.layers."@ + dec(i as nat), kinds[i]),
{
    let prefix = "model.layers."@ + dec(i as nat);
    let (a, b, c) = (norm_parts(prefix), mixer_parts(prefix, kinds[i]), gate_parts(prefix));
    assert(a[0] == ResidualView::Module(prefix + ".input_layernorm"@));
    assert(a[1] == ResidualView::Module(prefix + ".post_attention_layernorm"@));
    assert(c[0] == ResidualView::Tensor(prefix + ".mlp.gate.weight"@));
    assert(c[1] == ResidualView::Tensor(prefix + ".mlp.shared_expert_gate.weight"@));
    lemma_part_is_saved(kinds, mtp, i, a[0]);
    lemma_part_is_saved(kinds, mtp, i, a[1]);
    lemma_part_is_saved(kinds, mtp, i, c[0]);
    lemma_part_is_saved(kinds, mtp, i, c[1]);
    if kinds[i] == LayerType::FullAttention {
        assert(b[0] == ResidualView::Module(prefix + ".self_attn.q_norm"@));
        assert(b[1] == ResidualView::Module(prefix + ".self_attn.k_norm"@));
        lemma_part_is_saved(kinds, mtp, i, b[0]);
        lemma_part_is_saved(kinds, mtp, i, b[1]);
    } else {
        assert(b[0] == ResidualView::Tensor(prefix + ".linear_attn.conv1d.weight"@));
        assert(b[1] == ResidualView::Tensor(prefix + ".linear_attn.dt_bias"@));
        assert(b[2] == ResidualView::Tensor(prefix + ".linear_attn.A_log"@));
        assert(b[3] == ResidualView::Tensor(prefix + ".linear_attn.norm.weight"@));
        lemma_part_is_saved(kinds, mtp, i, b[0]);
        lemma_part_is_saved(kinds, mtp, i, b[1]);
        lemma_part_is_saved(kinds, mtp, i, b[2]);
        lemma_part_is_saved(kinds, mtp, i, b[3]);
    }
}

/// Beside the layers the embedding and the last norm are saved, and the norms of the head
/// that predicts several tokens where there is one; and nothing else is.
pub proof fn law_models_are_saved(kinds: Seq<LayerType>, mtp: bool)
    ensures
        ({
            let parts = model_parts(kinds, mtp);
            let head = "mtp.layers.0"@;
            &&& saves_module(parts, "model.embed_tokens"@)
            &&& saves_module(parts, "model.norm"@)
            &&& mtp ==> {
                &&& saves_module(parts, "mtp.pre_fc_norm_embedding"@)
                &&& saves_module(parts, "mtp.pre_fc_norm_hidden"@)
                &&& saves_module(parts, "mtp.norm"@)
                &&& saves_module(parts, head + ".input_layernorm"@)
                &&& saves_module(parts, head + ".post_attention_layernorm"@)
                &&& saves_module(parts, head + ".self_attn.q_norm"@)
                &&& saves_module(parts, head + ".self_attn.k_norm"@)
            }
            &&& parts.len() == 2 + 6 * kind_count(
                kinds,
                LayerType::FullAttention,
                kinds.len() as int,
            ) + 8 * kind_count(kinds, LayerType::LinearAttention, kinds.len() as int) + if mtp {
                7int
            } else {
                0
            }
        }),
{
    let parts = model_parts(kinds, mtp);
    let layers = layer_parts(kinds, kinds.len() as int);
    lemma_layer_parts_len(kinds, kinds.len() as int);
    assert(parts[0] == ResidualView::Module("model.embed_tokens"@));
    assert(parts[1] == ResidualView::Module("model.norm"@));
    if mtp {
        let at = 2 + layers.len() as int;
        let head = "mtp.layers.0"@;
        assert(parts[at] == ResidualView::Module("mtp.pre_fc_norm_embedding"@));
        assert(parts[at + 1] == ResidualView::Module("mtp.pre_fc_norm_hidden"@));
        assert(parts[at + 2] == ResidualView::Module("mtp.norm"@));
        assert(parts[at + 3] == ResidualView::Module(head + ".input_layernorm"@));
        assert(parts[at + 4] == ResidualView::Module(head + ".post_attention_layernorm"@));
        assert(parts[at + 5] == ResidualView::Module(head + ".self_attn.q_norm"@));
        assert(parts[at + 6] == ResidualView::Module(head + ".self_attn.k_norm"@));
    }
}

/// A model can be planned exactly where its layers come at an interval, each has a device,
/// its layers and the width of its convolution are counted, and there is a process.
pub proof fn law_models_can_be_planned(config: Config, devices: Seq<usize>, world_size: usize)
    ensures
        can_plan(config, devices, world_size) <==> {
            &&& config.num_hidden_layers == 0 || config.full_attention_interval != 0
            &&& config.num_hidden_layers <= devices.len()
            &&& 2 * (config.linear_num_key_heads * config.linear_key_head_dim)
                + config.linear_num_value_heads * config.linear_value_head_dim <= usize::MAX
            &&& config.mtp ==> config.num_hidden_layers < usize::MAX
            &&& world_size != 0
        },
{
    let (a, b) = (config.linear_num_key_heads as int, config.linear_key_head_dim as int);
    let (c, d) = (config.linear_num_value_heads as int, config.linear_value_head_dim as int);
    assert(0 <= a * b && 0 <= c * d) by (nonlinear_arith)
        requires
            a >= 0,
            b >= 0,
            c >= 0,
            d >= 0,
    ;
}

} // verus!

//! The configuration of a model, and the sizes that follow from it.
use vstd::prelude::*;

verus! {

/// The counts and switches of a model's configuration.
#[derive(Debug)]
pub struct Config {
    pub vocab_size: usize,
    pub hidden_size: usize,
    pub intermediate_size: usize,
    pub num_hidden_layers: usize,
    pub num_attention_heads: usize,
    pub num_key_value_heads: usize,
    pub max_position_embeddings: usize,
    pub head_dim: usize,
    pub linear_conv_kernel_dim: usize,
    pub linear_key_head_dim: usize,
    pub linear_value_head_dim: usize,
    pub linear_num_key_heads: usize,
    pub linear_num_value_heads: usize,
    pub decoder_sparse_step: usize,
    pub moe_intermediate_size: usize,
    pub shared_expert_intermediate_size: usize,
    pub num_experts_per_tok: usize,
    pub num_experts: usize,
    pub norm_topk_prob: bool,
    pub mlp_only_layers: Vec<usize>,
    pub full_attention_interval: usize,
    pub tie_word_embeddings: bool,
    /// Whether the head that predicts several tokens is loaded.
    pub mtp: bool,
}

/// The kind of a layer.
#[derive(Clone, Copy, Debug, PartialEq, Eq, Structural)]
pub enum LayerType {
    FullAttention,
    LinearAttention,
}

/// The kind of layer `i`: with an interval of 4, layers 3, 7, 11 and so on have
/// full attention.
pub open spec fn layer_kind(interval: usize, i: int) -> LayerType {
    if (i + 1) % (interval as int) == 0 {
        LayerType::FullAttention
    } else {
        LayerType::LinearAttention
    }
}

impl Config {
    /// Whether the kinds of layers can be told: layers come at an interval.
    pub open spec fn has_interval(&self) -> bool {
        self.num_hidden_layers > 0 ==> self.full_attention_interval > 0
    }

    pub open spec fn kinds(&self) -> Seq<LayerType> {
        Seq::new(
            self.num_hidden_layers as nat,
            |i: int| layer_kind(self.full_attention_interval, i),
        )
    }

    pub open spec fn mtp_count(&self) -> nat {
        if self.mtp {
            1
        } else {
            0
        }
    }

    /// The layers with a paged cache: those with full attention, and the head
    /// that comes after them.
    pub open spec fn paged_mask(&self) -> Seq<bool> {
        self.kinds().map_values(|kind: LayerType| kind == LayerType::FullAttention) + Seq::new(
            self.mtp_count(),
            |i: int| true,
        )
    }

    /// The layers that the head that predicts several tokens adds.
    pub fn mtp_layers(&self) -> (count: usize)
        ensures
            count == self.mtp_count(),
    {
        if self.mtp {
            1
        } else {
            0
        }
    }

    /// The place of the head among the layers with a cache: right after the
    /// stack.
    pub fn mtp_kv_layer_idx(&self) -> (index: usize)
        ensures
            index == self.num_hidden_layers,
    {
        self.num_hidden_layers
    }

    /// The kind of each layer of the stack.
    pub fn layer_types(&self) -> (kinds: Vec<LayerType>)
        requires
            self.has_interval(),
        ensures
            kinds@ == self.kinds(),
    {
        let mut kinds: Vec<LayerType> = Vec::new();
        let mut i: usize = 0;
        while i < self.num_hidden_layers
            invariant
                i <= self.num_hidden_layers,
                self.has_interval(),
                kinds@ == self.kinds().take(i as int),
            decreases self.num_hidden_layers - i,
        {
            if (i + 1) % self.full_attention_interval == 0 {
                kinds.push(LayerType::FullAttention);
            } else {
                kinds.push(LayerType::LinearAttention);
            }
            i = i + 1;
            assert(kinds@ =~= self.kinds().take(i as int));
        }
        assert(kinds@ =~= self.kinds());
        kinds
    }

    /// Which layers have a paged cache: those with full attention, and the head
    /// that predicts several tokens.
    pub fn paged_kv_layers(&self) -> (mask: Vec<bool>)
        requires
            self.has_interval(),
        ensures
            mask@ == self.paged_mask(),
    {
        let kinds: Vec<LayerType> = self.layer_types();
        let mut mask: Vec<bool> = Vec::new();
        let mut i: usize = 0;
        while i < kinds.len()
            invariant
                i <= kinds@.len(),
                mask@ == kinds@.take(i as int).map_values(
                    |kind: LayerType| kind == LayerType::FullAttention,
                ),
            decreases kinds@.len() - i,
        {
            mask.push(kinds[i] == LayerType::FullAttention);
            i = i + 1;
            assert(mask@ =~= kinds@.take(i as int).map_values(
                |kind: LayerType| kind == LayerType::FullAttention,
            ));
        }
        assert(kinds@.take(i as int) =~= kinds@);
        if self.mtp {
            mask.push(true);
        }
        assert(mask@ =~= self.paged_mask());
        mask
    }

    pub open spec fn key_dim(&self) -> nat {
        (self.linear_num_key_heads * self.linear_key_head_dim) as nat
    }

    pub open spec fn value_dim(&self) -> nat {
        (self.linear_num_value_heads * self.linear_value_head_dim) as nat
    }

    /// Queries, keys and values side by side.
    pub open spec fn conv_dim(&self) -> nat {
        self.key_dim() * 2 + self.value_dim()
    }

    /// The width of all keys of a linear-attention layer.
    pub fn linear_key_dim(&self) -> (width: usize)
        requires
            self.key_dim() <= usize::MAX,
        ensures
            width == self.key_dim(),
    {
        self.linear_num_key_heads * self.linear_key_head_dim
    }

    /// The width of all values of a linear-attention layer.
    pub fn linear_value_dim(&self) -> (width: usize)
        requires
            self.value_dim() <= usize::MAX,
        ensures
            width == self.value_dim(),
    {
        self.linear_num_value_heads * self.linear_value_head_dim
    }

    /// The width of the convolution of a linear-attention layer: queries, keys
    /// and values.
    pub fn linear_conv_dim(&self) -> (width: usize)
        requires
            self.conv_dim() <= usize::MAX,
        ensures
            width == self.conv_dim(),
    {
        proof {
            assert(self.linear_num_key_heads * self.linear_key_head_dim >= 0) by (nonlinear_arith);
            assert(self.linear_num_value_heads * self.linear_value_head_dim >= 0)
                by (nonlinear_arith);
        }
        self.linear_key_dim() * 2 + self.linear_value_dim()
    }

    /// Tests whether the width of the convolution can be counted in a `usize`.
    pub fn conv_dim_fits(&self) -> (fits: bool)
        ensures
            fits == (self.conv_dim() <= usize::MAX),
    {
        proof {
            assert(self.linear_num_key_heads * self.linear_key_head_dim >= 0) by (nonlinear_arith);
            assert(self.linear_num_value_heads * self.linear_value_head_dim >= 0)
                by (nonlinear_arith);
        }
        let key: usize = match self.linear_num_key_heads.checked_mul(self.linear_key_head_dim) {
            Some(key) => key,
            None => return false,
        };
        let value: usize = match self.linear_num_value_heads.checked_mul(
            self.linear_value_head_dim,
        ) {
            Some(value) => value,
            None => return false,
        };
        match key.checked_mul(2) {
            Some(both) => both.checked_add(value).is_some(),
            None => false,
        }
    }
}

/// The mask covers the stack and the head, a layer of the stack is in it exactly
/// if it has full attention, and the head always is.
pub proof fn law_paged_mask(config: Config)
    ensures
        config.paged_mask().len() == config.num_hidden_layers + config.mtp_count(),
        forall|i: int|
            0 <= i < config.num_hidden_layers ==> #[trigger] config.paged_mask()[i] == (
            config.kinds()[i] == LayerType::FullAttention),
        config.mtp ==> config.paged_mask()[config.num_hidden_layers as int],
{
}

/// With an interval of 1 every layer has full attention.
pub proof fn law_interval_of_one(config: Config)
    requires
        config.full_attention_interval == 1,
    ensures
        forall|i: int|
            0 <= i < config.num_hidden_layers ==> #[trigger] config.kinds()[i]
                == LayerType::FullAttention,
{
}

/// Between two layers with full attention lie one fewer linear ones than the
/// interval says.
pub proof fn law_full_attention_comes_at_intervals(config: Config, i: int, j: int)
    requires
        config.full_attention_interval > 0,
        0 <= i < config.num_hidden_layers,
        config.kinds()[i] == LayerType::FullAttention,
        i < j < config.num_hidden_layers,
        j <= i + config.full_attention_interval,
    ensures
        config.kinds()[j] == LayerType::FullAttention <==> j == i
            + config.full_attention_interval,
{
    let n = config.full_attention_interval as int;
    vstd::arithmetic::div_mod::lemma_add_mod_noop(i + 1, j - i, n);
    assert((i + 1) + (j - i) == j + 1);
    if j - i < n {
        vstd::arithmetic::div_mod::lemma_small_mod((j - i) as nat, n as nat);
    } else {
        vstd::arithmetic::div_mod::lemma_mod_self_0(n);
    }
    vstd::arithmetic::div_mod::lemma_mod_twice(j - i, n);
}

/// A layer has full attention exactly where it ends a whole number of intervals.
pub proof fn law_full_attention_ends_intervals(config: Config, i: int)
    requires
        config.full_attention_interval > 0,
        0 <= i < config.num_hidden_layers,
    ensures
        config.kinds().len() == config.num_hidden_layers,
        config.kinds()[i] == LayerType::FullAttention <==> exists|k: int|
            i + 1 == #[trigger] (k * config.full_attention_interval),
        config.kinds()[i] == LayerType::LinearAttention <==> config.kinds()[i]
            != LayerType::FullAttention,
{
    let n = config.full_attention_interval as int;
    vstd::arithmetic::div_mod::lemma_fundamental_div_mod(i + 1, n);
    if config.kinds()[i] == LayerType::FullAttention {
        let k = (i + 1) / n;
        assert(n * k == k * n) by (nonlinear_arith);
        assert(i + 1 == k * config.full_attention_interval);
    }
    if exists|k: int| i + 1 == #[trigger] (k * config.full_attention_interval) {
        let k = choose|k: int| i + 1 == #[trigger] (k * config.full_attention_interval);
        vstd::arithmetic::div_mod::lemma_mod_multiples_basic(k, n);
    }
}

/// The place of element `e` of head `h` in a row of heads of size `d`.
pub open spec fn head_place(h: int, e: int, d: int) -> int {
    h * d + e
}

/// Whether a row of a width holds heads of a size and nothing else: each element of each
/// head has its place in it, and each place is that of an element of a head.
pub open spec fn holds_heads(width: int, heads: int, d: int) -> bool {
    &&& forall|h: int, e: int|
        0 <= h < heads && 0 <= e < d ==> 0 <= #[trigger] head_place(h, e, d) < width
    &&& forall|p: int| 0 <= p < width ==> #[trigger] is_of_head(p, heads, d)
}

/// Whether a place is that of an element of a head.
pub open spec fn is_of_head(p: int, heads: int, d: int) -> bool {
    exists|h: int, e: int| 0 <= h < heads && 0 <= e < d && p == #[trigger] head_place(h, e, d)
}

pub(crate) proof fn lemma_holds_heads(heads: int, d: int)
    requires
        heads >= 0,
        d >= 0,
    ensures
        holds_heads(heads * d, heads, d),
{
    let width = heads * d;
    assert forall|h: int, e: int| 0 <= h < heads && 0 <= e < d implies 0 <= #[trigger] head_place(
        h,
        e,
        d,
    ) < width by {
        assert(0 <= h * d + e < heads * d) by (nonlinear_arith)
            requires
                0 <= h < heads,
                0 <= e < d,
        ;
    }
    assert forall|p: int| 0 <= p < width implies #[trigger] is_of_head(p, heads, d) by {
        assert(d > 0) by (nonlinear_arith)
            requires
                0 <= p < heads * d,
                d >= 0,
        ;
        let (h, e) = (p / d, p % d);
        vstd::arithmetic::div_mod::lemma_fundamental_div_mod(p, d);
        assert(d * h == h * d) by (nonlinear_arith);
        assert(0 <= h < heads) by (nonlinear_arith)
            requires
                p == h * d + e,
                0 <= e < d,
                0 <= p < heads * d,
        ;
        assert(p == head_place(h, e, d));
    }
}

/// The rows of a linear-attention layer hold its heads: keys those of keys, values those of
/// values, and the convolution queries, keys and values one after the other.
pub proof fn law_linear_widths(config: Config)
    ensures
        holds_heads(
            config.key_dim() as int,
            config.linear_num_key_heads as int,
            config.linear_key_head_dim as int,
        ),
        holds_heads(
            config.value_dim() as int,
            config.linear_num_value_heads as int,
            config.linear_value_head_dim as int,
        ),
        config.conv_dim() - config.key_dim() == config.key_dim() + config.value_dim(),
{
    let (a, b) = (config.linear_num_key_heads as int, config.linear_key_head_dim as int);
    let (c, d) = (config.linear_num_value_heads as int, config.linear_value_head_dim as int);
    lemma_holds_heads(a, b);
    lemma_holds_heads(c, d);
    assert(0 <= a * b && 0 <= c * d) by (nonlinear_arith)
        requires
            a >= 0,
            b >= 0,
            c >= 0,
            d >= 0,
    ;
}

/// The head that predicts several tokens adds a layer with a paged cache where it is
/// loaded, and none where it is not.
pub proof fn law_prediction_adds_a_layer(config: Config)
    ensures
        config.mtp ==> config.paged_mask().len() == config.num_hidden_layers + 1,
        !config.mtp ==> config.paged_mask().len() == config.num_hidden_layers,
{
}

} // verus!

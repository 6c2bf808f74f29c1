//! The head that predicts several tokens: when it is there, how far it looks
//! ahead, and the rows that it reads.
use candle_core::Tensor;
use vstd::prelude::*;

use crate::paged::info::{check_rank, rank_check};
use crate::qwen3_next::config::Config;
use crate::qwen3_next::packed::WeightNames;
use crate::qwen3_next::store::{is_empty_state, SpecStore};
use crate::tensor::{
    all_span, can_join, cat, clone_tensor, dims_of, in_shape, is_joined, join_on_host,
    joined_entries, tensor_cell, tensor_dims, tensor_fault,
};
use crate::text::{answer, dec, decimal, outcome, texts, Fault, Refusal};

verus! {

/// The tokens that the head predicts unless told otherwise.
pub const DEFAULT_MTP_N_PREDICT: usize = 2;

/// The same, for a model of at least `MTP_LARGE_HIDDEN_SIZE`.
pub const DEFAULT_MTP_N_PREDICT_LARGE: usize = 3;

pub const MTP_LARGE_HIDDEN_SIZE: usize = 4096;

/// The token that stands where none is known yet.
pub const PLACEHOLDER_TOKEN: u32 = 0;

// The head itself.

/// The weight that a checkpoint with a head has.
pub const MTP_FC_WEIGHT: &'static str = "mtp.fc.weight";

/// The sizes of the projection that joins an embedding and a hidden state, and
/// the places of the head among the layers and among the caches.
#[derive(Clone, Copy, Debug, PartialEq, Eq, Structural)]
pub struct MtpHeadPlan {
    pub fc_in: usize,
    pub fc_out: usize,
    pub layer_idx: usize,
    pub kv_layer_idx: usize,
}

/// Whether a checkpoint has a head.
pub open spec fn has_head(weights: WeightNames) -> bool {
    weights.has_path(MTP_FC_WEIGHT@)
}

/// The plan of a head.
pub open spec fn head_plan_of(config: Config) -> MtpHeadPlan {
    MtpHeadPlan {
        fc_in: (2 * config.hidden_size) as usize,
        fc_out: config.hidden_size,
        layer_idx: config.num_hidden_layers,
        kv_layer_idx: config.num_hidden_layers,
    }
}

/// Plans the head, where the checkpoint has one.
pub fn plan_mtp_head(config: &Config, weights: &WeightNames) -> (plan: Result<MtpHeadPlan, Fault>)
    requires
        weights.has_path(MTP_FC_WEIGHT@) ==> 2 * config.hidden_size <= usize::MAX,
    ensures
        outcome(plan) == if weights.has_path(MTP_FC_WEIGHT@) {
            Ok::<MtpHeadPlan, Seq<char>>(
                MtpHeadPlan {
                    fc_in: (2 * config.hidden_size) as usize,
                    fc_out: config.hidden_size,
                    layer_idx: config.num_hidden_layers,
                    kv_layer_idx: config.num_hidden_layers,
                },
            )
        } else {
            Err(
                "`--mtp` requested but the checkpoint has no built-in MTP head (`mtp.fc.weight`)."@,
            )
        },
        plan matches Ok(plan) ==> plan == head_plan_of(*config),
        plan is Ok == has_head(*weights),
{
    if !weights.contains_path(MTP_FC_WEIGHT) {
        return Err(
            Fault::of(
                "`--mtp` requested but the checkpoint has no built-in MTP head (`mtp.fc.weight`).",
            ),
        );
    }
    Ok(
        MtpHeadPlan {
            fc_in: 2 * config.hidden_size,
            fc_out: config.hidden_size,
            layer_idx: config.num_hidden_layers,
            kv_layer_idx: config.mtp_kv_layer_idx(),
        },
    )
}

/// Checks that the head was loaded.
pub fn mtp_head_check(loaded: bool) -> (r: Result<(), Fault>)
    ensures
        outcome(r) == if loaded {
            Ok::<(), Seq<char>>(())
        } else {
            Err("Qwen3Next MTP head is not loaded"@)
        },
{
    if loaded {
        Ok(())
    } else {
        Err(Fault::of("Qwen3Next MTP head is not loaded"))
    }
}

/// Checks that the paged cache has a layer for the head.
pub fn mtp_cache_check(layers: usize, kv_layer_idx: usize) -> (r: Result<(), Fault>)
    ensures
        outcome(r) == if kv_layer_idx < layers {
            Ok::<(), Seq<char>>(())
        } else {
            Err("paged cache has no MTP layer"@)
        },
{
    if kv_layer_idx < layers {
        Ok(())
    } else {
        Err(Fault::of("paged cache has no MTP layer"))
    }
}

// Attaching a drafter.

/// What a drafter is asked to be.
#[derive(Debug)]
pub struct MtpConfig {
    /// Whether it is the head of the model itself.
    pub builtin: bool,
    pub n_predict: Option<usize>,
    /// Whether it gives logits with weights that are quantized anew.
    pub requantizes_logits: bool,
}

#[derive(Debug)]
pub enum SpeculativeConfig {
    Mtp(MtpConfig),
    /// No drafter, or one of another kind.
    Other,
}

/// A model as the target of a drafter: how far it looks ahead, where 0 is not at
/// all, and what is kept of its passes.
pub struct SpeculativeTarget {
    pub n_predict: usize,
    pub store: SpecStore,
}

/// What attaching a drafter asks for.
#[derive(Clone, Copy, Debug, PartialEq, Eq, Structural)]
pub struct Attached {
    pub n_predict: usize,
    /// Whether the weights that give its logits are quantized anew. Where they
    /// are not, those of the model are used.
    pub requantizes_logits: bool,
}

pub open spec fn default_n_predict(hidden_size: usize) -> usize {
    if hidden_size >= MTP_LARGE_HIDDEN_SIZE {
        DEFAULT_MTP_N_PREDICT_LARGE
    } else {
        DEFAULT_MTP_N_PREDICT
    }
}

pub open spec fn chosen_n_predict(config: MtpConfig, hidden_size: usize) -> usize {
    match config.n_predict {
        Some(n) => n,
        None => default_n_predict(hidden_size),
    }
}

pub open spec fn attach_refusal(config: MtpConfig, head_loaded: bool, hidden_size: usize) -> Refusal {
    Refusal::none().unless(
        config.builtin,
        "Qwen3Next supports only the built-in MTP drafter"@,
    ).unless(
        head_loaded,
        "The built-in MTP head was not loaded; pass `--mtp` when loading the model."@,
    ).unless(
        chosen_n_predict(config, hidden_size) != 0,
        "MTP n_predict must be at least 1."@,
    )
}

/// The tokens that are drafted for a sequence, where any are.
pub open spec fn drafted(n_predict: usize) -> Option<usize> {
    if n_predict == 0 {
        None
    } else {
        Some(n_predict)
    }
}

/// The numbers of drafted tokens for which passes are captured ahead.
pub open spec fn captured_ahead(n_predict: usize) -> Seq<usize> {
    if n_predict == 0 {
        Seq::empty()
    } else {
        seq![n_predict]
    }
}

impl SpeculativeTarget {
    /// A target without a drafter.
    pub fn new() -> (target: SpeculativeTarget)
        ensures
            target.n_predict == 0,
            !target.store.store,
            is_empty_state(target.store.state),
    {
        SpeculativeTarget { n_predict: 0, store: SpecStore::new() }
    }

    /// Attaches the head as a drafter, or takes it away.
    pub fn attach_speculative(
        &mut self,
        config: &SpeculativeConfig,
        head_loaded: bool,
        hidden_size: usize,
    ) -> (attached: Result<Option<Attached>, Fault>)
        ensures
            match config {
                SpeculativeConfig::Other => {
                    &&& attached matches Ok(None)
                    &&& final(self).n_predict == 0
                    &&& !final(self).store.store
                    &&& is_empty_state(final(self).store.state)
                },
                SpeculativeConfig::Mtp(config) => {
                    let refusal = attach_refusal(*config, head_loaded, hidden_size);
                    let n_predict = chosen_n_predict(*config, hidden_size);
                    &&& outcome(attached) == answer(
                        refusal,
                        Some(
                            Attached { n_predict, requantizes_logits: config.requantizes_logits },
                        ),
                    )
                    &&& final(self).store.state == old(self).store.state
                    &&& if refusal.message is None {
                        final(self).n_predict == n_predict && final(self).store.store
                    } else {
                        final(self).n_predict == old(self).n_predict && final(self).store.store
                            == old(self).store.store
                    }
                },
            },
    {
        let config: &MtpConfig = match config {
            SpeculativeConfig::Other => {
                self.n_predict = 0;
                self.store.set_store_spec_hidden(false);
                return Ok(None);
            },
            SpeculativeConfig::Mtp(config) => config,
        };
        if !config.builtin {
            return Err(Fault::of("Qwen3Next supports only the built-in MTP drafter"));
        }
        if !head_loaded {
            return Err(
                Fault::of(
                    "The built-in MTP head was not loaded; pass `--mtp` when loading the model.",
                ),
            );
        }
        let n_predict: usize = match config.n_predict {
            Some(n) => n,
            None => {
                if hidden_size >= MTP_LARGE_HIDDEN_SIZE {
                    DEFAULT_MTP_N_PREDICT_LARGE
                } else {
                    DEFAULT_MTP_N_PREDICT
                }
            },
        };
        if n_predict == 0 {
            return Err(Fault::of("MTP n_predict must be at least 1."));
        }
        self.n_predict = n_predict;
        self.store.set_store_spec_hidden(true);
        Ok(Some(Attached { n_predict, requantizes_logits: config.requantizes_logits }))
    }

    pub fn has_speculative_proposer(&self) -> (has: bool)
        ensures
            has == (self.n_predict > 0),
    {
        self.n_predict > 0
    }

    /// The tokens that are drafted for each sequence of a batch.
    pub fn speculative_plan(&self) -> (plan: Option<usize>)
        ensures
            plan == if self.n_predict == 0 {
                None
            } else {
                Some(self.n_predict)
            },
            plan == drafted(self.n_predict),
    {
        if self.n_predict == 0 {
            None
        } else {
            Some(self.n_predict)
        }
    }

    /// The numbers of drafted tokens for which passes are captured ahead.
    pub fn speculative_graph_plans(&self) -> (plans: Vec<usize>)
        ensures
            plans@ == if self.n_predict == 0 {
                Seq::<usize>::empty()
            } else {
                seq![self.n_predict]
            },
            plans@ == captured_ahead(self.n_predict),
    {
        let mut plans: Vec<usize> = Vec::new();
        if self.n_predict > 0 {
            plans.push(self.n_predict);
        }
        assert(plans@ =~= if self.n_predict == 0 {
            Seq::<usize>::empty()
        } else {
            seq![self.n_predict]
        });
        plans
    }
}

// What the head reads.

/// A token that the head reads, with its place in its sequence: the hidden state
/// at `position` goes with the token after it.
#[derive(Clone, Copy, Debug, PartialEq, Eq, Structural)]
pub struct DraftRow {
    pub seq_id: usize,
    pub position: usize,
    pub token: u32,
}

/// The columns of a list of rows.
#[derive(Debug)]
pub struct DraftInputs {
    pub tokens: Vec<u32>,
    pub positions: Vec<u32>,
    pub seq_ids: Vec<usize>,
    pub context_lens: Vec<usize>,
}

/// Whether each row has a place that can be counted.
pub open spec fn rows_count(rows: Seq<DraftRow>) -> bool {
    forall|i: int| 0 <= i < rows.len() ==> (#[trigger] rows[i]).position < usize::MAX
}

pub open spec fn inputs_are(inputs: DraftInputs, rows: Seq<DraftRow>) -> bool {
    &&& inputs.tokens@ == rows.map_values(|row: DraftRow| row.token)
    &&& inputs.positions@ == rows.map_values(|row: DraftRow| row.position as u32)
    &&& inputs.seq_ids@ == rows.map_values(|row: DraftRow| row.seq_id)
    &&& inputs.context_lens@ == rows.map_values(|row: DraftRow| (row.position + 1) as usize)
}

/// The columns of a list of rows: the context of a row ends after its place.
pub fn draft_inputs(rows: &Vec<DraftRow>) -> (inputs: DraftInputs)
    requires
        rows_count(rows@),
    ensures
        inputs_are(inputs, rows@),
{
    let mut inputs: DraftInputs = DraftInputs {
        tokens: Vec::new(),
        positions: Vec::new(),
        seq_ids: Vec::new(),
        context_lens: Vec::new(),
    };
    let mut i: usize = 0;
    proof {
        let none = rows@.take(0);
        assert(none =~= Seq::<DraftRow>::empty());
        assert(inputs.tokens@ =~= none.map_values(|row: DraftRow| row.token));
        assert(inputs.positions@ =~= none.map_values(|row: DraftRow| row.position as u32));
        assert(inputs.seq_ids@ =~= none.map_values(|row: DraftRow| row.seq_id));
        assert(inputs.context_lens@ =~= none.map_values(
            |row: DraftRow| (row.position + 1) as usize,
        ));
    }
    while i < rows.len()
        invariant
            i <= rows@.len(),
            rows_count(rows@),
            inputs_are(inputs, rows@.take(i as int)),
        decreases rows@.len() - i,
    {
        let row: DraftRow = rows[i];
        let ghost seen = rows@.take(i as int);
        inputs.tokens.push(row.token);
        inputs.positions.push(#[verifier::truncate] (row.position as u32));
        inputs.seq_ids.push(row.seq_id);
        inputs.context_lens.push(row.position + 1);
        i = i + 1;
        proof {
            let now = rows@.take(i as int);
            assert(now =~= seen.push(row));
            assert(inputs.tokens@ =~= now.map_values(|row: DraftRow| row.token));
            assert(inputs.positions@ =~= now.map_values(|row: DraftRow| row.position as u32));
            assert(inputs.seq_ids@ =~= now.map_values(|row: DraftRow| row.seq_id));
            assert(inputs.context_lens@ =~= now.map_values(
                |row: DraftRow| (row.position + 1) as usize,
            ));
        }
    }
    assert(rows@.take(i as int) =~= rows@);
    inputs
}

/// What the head reads of a chunk of prompts, as one block.
#[derive(Debug)]
pub struct ShiftedChunk {
    pub batch: usize,
    pub seq_len: usize,
    /// Row by row, the token after each place.
    pub tokens: Vec<u32>,
    pub offsets: Vec<usize>,
}

/// The token after row `row` of a chunk. In the last chunk of a prompt, the token
/// after its end is not known yet.
pub open spec fn token_after(
    toks: Seq<u32>,
    start: usize,
    end: usize,
    row: int,
    is_final: bool,
) -> u32 {
    let next = start + row + 1;
    if (next < end || !is_final) && next < toks.len() {
        toks[next]
    } else {
        PLACEHOLDER_TOKEN
    }
}

pub open spec fn shifted_row(
    toks: Seq<u32>,
    start: usize,
    end: usize,
    seq_len: usize,
    is_final: bool,
) -> Seq<u32> {
    Seq::new(seq_len as nat, |row: int| token_after(toks, start, end, row, is_final))
}

/// The tokens after each place of the first `n` chunks.
pub open spec fn shifted_rows(
    chunks: Seq<(usize, usize)>,
    tokens: Seq<Vec<u32>>,
    seq_len: usize,
    is_final: bool,
    n: int,
) -> Seq<u32>
    decreases n,
{
    if n <= 0 {
        Seq::empty()
    } else {
        shifted_rows(chunks, tokens, seq_len, is_final, n - 1) + shifted_row(
            tokens[n - 1]@,
            chunks[n - 1].0,
            chunks[n - 1].1,
            seq_len,
            is_final,
        )
    }
}

pub open spec fn chunk_refusal(hidden_dims: Seq<usize>, chunks: nat) -> Refusal {
    Refusal::none().or(rank_check(3, hidden_dims)).unless(
        hidden_dims[0] == chunks,
        "MTP prefill capture has "@ + dec(hidden_dims[0] as nat) + " rows for "@ + dec(chunks)
            + " sequences"@,
    )
}

/// Whether the places of all chunks can be counted.
pub open spec fn chunks_count(chunks: Seq<(usize, usize)>, seq_len: usize) -> bool {
    forall|k: int| 0 <= k < chunks.len() ==> (#[trigger] chunks[k]).0 + seq_len <= usize::MAX
}

pub open spec fn pairs(a: nat, b: nat) -> nat {
    if a < b {
        a
    } else {
        b
    }
}

fn push_shifted_row(
    shifted: &mut Vec<u32>,
    toks: &Vec<u32>,
    start: usize,
    end: usize,
    seq_len: usize,
    is_final: bool,
)
    requires
        start + seq_len <= usize::MAX,
    ensures
        final(shifted)@ == old(shifted)@ + shifted_row(toks@, start, end, seq_len, is_final),
{
    let ghost before = shifted@;
    let ghost whole = shifted_row(toks@, start, end, seq_len, is_final);
    let mut row: usize = 0;
    while row < seq_len
        invariant
            row <= seq_len,
            start + seq_len <= usize::MAX,
            whole == shifted_row(toks@, start, end, seq_len, is_final),
            shifted@ == before + whole.take(row as int),
        decreases seq_len - row,
    {
        let next: usize = start + row + 1;
        if (next < end || !is_final) && next < toks.len() {
            shifted.push(toks[next]);
        } else {
            shifted.push(PLACEHOLDER_TOKEN);
        }
        row = row + 1;
        assert(shifted@ =~= before + whole.take(row as int));
    }
    assert(whole.take(row as int) =~= whole);
}

/// What the head reads of a chunk of prompts, where the hidden states of the
/// chunk were captured.
pub fn shifted_chunk(
    hidden_dims: &Vec<usize>,
    chunks: &[(usize, usize)],
    tokens: &[Vec<u32>],
    is_final: bool,
) -> (chunk: Result<ShiftedChunk, Fault>)
    requires
        chunk_refusal(hidden_dims@, chunks@.len()).message is None ==> chunks_count(
            chunks@,
            hidden_dims@[1],
        ),
    ensures
        match chunk {
            Ok(chunk) => {
                let n = pairs(chunks@.len(), tokens@.len()) as int;
                &&& chunk_refusal(hidden_dims@, chunks@.len()).message is None
                &&& chunk.batch == hidden_dims@[0]
                &&& chunk.seq_len == hidden_dims@[1]
                &&& chunk.tokens@ == shifted_rows(chunks@, tokens@, hidden_dims@[1], is_final, n)
                &&& chunk.offsets@ == chunks@.take(n).map_values(|range: (usize, usize)| range.0)
            },
            Err(fault) => chunk_refusal(hidden_dims@, chunks@.len()).message == Some(fault@),
        },
{
    check_rank(3, hidden_dims)?;
    let batch: usize = hidden_dims[0];
    let seq_len: usize = hidden_dims[1];
    if batch != chunks.len() {
        return Err(
            Fault::new(
                String::from_str("MTP prefill capture has ").concat(
                    decimal(batch as u64).as_str(),
                ).concat(" rows for ").concat(decimal(chunks.len() as u64).as_str()).concat(
                    " sequences",
                ),
            ),
        );
    }
    let mut shifted: Vec<u32> = Vec::new();
    let mut offsets: Vec<usize> = Vec::new();
    let mut i: usize = 0;
    assert(offsets@ =~= chunks@.take(0).map_values(|range: (usize, usize)| range.0));
    while i < chunks.len() && i < tokens.len()
        invariant
            i <= chunks@.len(),
            i <= tokens@.len(),
            chunks_count(chunks@, seq_len),
            shifted@ == shifted_rows(chunks@, tokens@, seq_len, is_final, i as int),
            offsets@ == chunks@.take(i as int).map_values(|range: (usize, usize)| range.0),
        decreases chunks@.len() - i,
    {
        let (start, end): (usize, usize) = chunks[i];
        offsets.push(start);
        push_shifted_row(&mut shifted, &tokens[i], start, end, seq_len, is_final);
        i = i + 1;
        assert(offsets@ =~= chunks@.take(i as int).map_values(|range: (usize, usize)| range.0));
    }
    Ok(ShiftedChunk { batch, seq_len, tokens: shifted, offsets })
}

// What the head reads.

/// Two tensors as a list.
pub open spec fn pair(a: Tensor, b: Tensor) -> Seq<Tensor> {
    seq![a, b]
}

/// The input of the head: the embedding of each token, and beside it the hidden
/// state that the target has of the token before. A device may fail to join them.
pub fn head_input(embeds: &Tensor, hidden: &Tensor) -> (joined: Result<Tensor, Fault>)
    requires
        tensor_dims(*embeds).len() > 0 ==> can_join(
            pair(*embeds, *hidden),
            (tensor_dims(*embeds).len() - 1) as usize,
        ),
    ensures
        ({
            let rank = tensor_dims(*embeds).len();
            if rank == 0 {
                outcome(joined) == Err::<Tensor, Seq<char>>(
                    "cat: dimension index -1 out of range for shape []"@,
                )
            } else {
                &&& joined matches Ok(joined) ==> is_joined(joined, pair(*embeds, *hidden), rank - 1)
                &&& tensor_dims(*hidden).len() < rank ==> joined is Err
                &&& join_on_host(pair(*embeds, *hidden), (rank - 1) as usize) ==> joined is Ok
            }
        }),
{
    let rank: usize = dims_of(embeds).len();
    if rank == 0 {
        return Err(Fault::of("cat: dimension index -1 out of range for shape []"));
    }
    let mut parts: Vec<Tensor> = Vec::new();
    parts.push(clone_tensor(embeds));
    parts.push(clone_tensor(hidden));
    proof {
        assert(parts@ =~= pair(*embeds, *hidden));
        if tensor_dims(*hidden).len() < rank {
            assert(parts@[1] == *hidden);
            assert(!all_span(parts@, (rank - 1) as usize));
        }
    }
    match cat(&parts, rank - 1) {
        Ok(joined) => Ok(joined),
        Err(error) => Err(tensor_fault(error)),
    }
}

/// The mask of a chunk of prompts.
#[derive(Clone, Copy, Debug, PartialEq, Eq, Structural)]
pub enum ChunkMask {
    /// No token sees a later one.
    Causal,
    /// There is none.
    Absent,
}

/// The mask of a first chunk, or of another.
pub open spec fn mask_of(first_prompt_chunk: bool) -> ChunkMask {
    if first_prompt_chunk {
        ChunkMask::Causal
    } else {
        ChunkMask::Absent
    }
}

/// The mask that a chunk is read under: a causal one for the first of a prompt,
/// and none for any other.
pub fn chunk_mask(first_prompt_chunk: bool) -> (mask: ChunkMask)
    ensures
        mask == if first_prompt_chunk {
            ChunkMask::Causal
        } else {
            ChunkMask::Absent
        },
        mask == mask_of(first_prompt_chunk),
{
    if first_prompt_chunk {
        ChunkMask::Causal
    } else {
        ChunkMask::Absent
    }
}

// Laws.

/// A drafter is attached exactly where it is the head of the model, which is loaded, and
/// is not asked to predict nothing. Unless told otherwise it predicts two tokens, or
/// three for hidden states of 4096 features or more.
pub proof fn law_drafters_are_attached(config: MtpConfig, head_loaded: bool, hidden_size: usize)
    ensures
        attach_refusal(config, head_loaded, hidden_size).message is None <==> config.builtin
            && head_loaded && config.n_predict != Some(0usize),
        config.n_predict is Some ==> chosen_n_predict(config, hidden_size)
            == config.n_predict->0,
        config.n_predict is None && hidden_size < 4096 ==> chosen_n_predict(config, hidden_size)
            == 2,
        config.n_predict is None && hidden_size >= 4096 ==> chosen_n_predict(config, hidden_size)
            == 3,
{
}

/// The columns have an entry for each row: its token, its place, its sequence, and the
/// length of the context that ends with it.
pub proof fn law_columns_are_those_of_rows(inputs: DraftInputs, rows: Seq<DraftRow>, i: int)
    requires
        inputs_are(inputs, rows),
        rows_count(rows),
        0 <= i < rows.len(),
    ensures
        inputs.tokens@.len() == rows.len() && inputs.positions@.len() == rows.len(),
        inputs.seq_ids@.len() == rows.len() && inputs.context_lens@.len() == rows.len(),
        inputs.tokens@[i] == rows[i].token,
        inputs.seq_ids@[i] == rows[i].seq_id,
        inputs.context_lens@[i] == rows[i].position + 1,
        rows[i].position <= u32::MAX ==> inputs.positions@[i] == rows[i].position,
{
    assert(rows[i].position < usize::MAX);
}

/// A chunk is read where its hidden states have three dimensions, of which the first
/// counts its sequences; no more pairs are read than there are of either side.
pub proof fn law_chunks_are_read(hidden_dims: Seq<usize>, chunks: nat, tokens: nat)
    ensures
        chunk_refusal(hidden_dims, chunks).message is None <==> hidden_dims.len() == 3
            && hidden_dims[0] == chunks,
        pairs(chunks, tokens) <= chunks && pairs(chunks, tokens) <= tokens,
        pairs(chunks, tokens) == chunks || pairs(chunks, tokens) == tokens,
{
}

/// Row `r` of sequence `b` of a chunk goes with the token after it in the prompt. Where the
/// prompt has no such token, or the chunk is the last and ends before it, zero stands
/// for it.
pub proof fn law_chunks_pair_rows_with_next_tokens(
    chunks: Seq<(usize, usize)>,
    tokens: Seq<Vec<u32>>,
    seq_len: usize,
    is_final: bool,
    n: int,
    b: int,
    r: int,
)
    requires
        0 <= b < n <= chunks.len(),
        n <= tokens.len(),
        0 <= r < seq_len,
    ensures
        ({
            let shifted = shifted_rows(chunks, tokens, seq_len, is_final, n);
            let (start, end) = chunks[b];
            let next = start + r + 1;
            &&& shifted.len() == n * seq_len
            &&& 0 <= b * seq_len + r < shifted.len()
            &&& is_final && next >= end ==> shifted[b * seq_len + r] == 0
            &&& next >= tokens[b]@.len() ==> shifted[b * seq_len + r] == 0
            &&& next < tokens[b]@.len() && (next < end || !is_final) ==> shifted[b * seq_len + r]
                == tokens[b]@[next]
        }),
    decreases n,
{
    lemma_shifted_len(chunks, tokens, seq_len, is_final, n);
    lemma_shifted_len(chunks, tokens, seq_len, is_final, n - 1);
    let w = seq_len as int;
    assert(0 <= b * w + r < n * w) by (nonlinear_arith)
        requires
            0 <= b < n,
            0 <= r < w,
    ;
    let before = shifted_rows(chunks, tokens, seq_len, is_final, n - 1);
    let shifted = shifted_rows(chunks, tokens, seq_len, is_final, n);
    if b < n - 1 {
        law_chunks_pair_rows_with_next_tokens(chunks, tokens, seq_len, is_final, n - 1, b, r);
        assert(shifted[b * w + r] == before[b * w + r]);
    } else {
        assert(shifted[b * w + r] == shifted_row(
            tokens[b]@,
            chunks[b].0,
            chunks[b].1,
            seq_len,
            is_final,
        )[r]);
    }
}

proof fn lemma_shifted_len(
    chunks: Seq<(usize, usize)>,
    tokens: Seq<Vec<u32>>,
    seq_len: usize,
    is_final: bool,
    n: int,
)
    requires
        0 <= n,
    ensures
        shifted_rows(chunks, tokens, seq_len, is_final, n).len() == n * seq_len,
    decreases n,
{
    if n > 0 {
        lemma_shifted_len(chunks, tokens, seq_len, is_final, n - 1);
        let w = seq_len as int;
        assert((n - 1) * w + w == n * w) by (nonlinear_arith);
    } else {
        assert(0 * seq_len == 0);
    }
}

/// The input of the head has the features of the embedding first, and those of the hidden
/// state behind them.
pub proof fn law_embeddings_come_first(
    joined: Tensor,
    embeds: Tensor,
    hidden: Tensor,
    index: Seq<int>,
)
    requires
        tensor_dims(embeds).len() > 0,
        tensor_dims(hidden).len() == tensor_dims(embeds).len(),
        is_joined(joined, pair(embeds, hidden), tensor_dims(embeds).len() - 1),
    ensures
        ({
            let last = tensor_dims(embeds).len() - 1;
            &&& in_shape(index, tensor_dims(embeds)) ==> tensor_cell(joined, index) == tensor_cell(
                embeds,
                index,
            )
            &&& in_shape(index, tensor_dims(hidden)) ==> tensor_cell(
                joined,
                index.update(last, index[last] + tensor_dims(embeds)[last]),
            ) == tensor_cell(hidden, index)
        }),
{
    let last = tensor_dims(embeds).len() - 1;
    let parts = pair(embeds, hidden);
    reveal_with_fuel(joined_entries, 2);
    assert(joined_entries(parts, last, 0) == 0);
    assert(joined_entries(parts, last, 1) == tensor_dims(parts[0])[last]);
    assert(parts[0] == embeds && parts[1] == hidden);
    if in_shape(index, tensor_dims(embeds)) {
        assert(tensor_cell(parts[0], index) == tensor_cell(embeds, index));
        assert(index.update(last, index[last] + 0) =~= index);
    }
    if in_shape(index, tensor_dims(hidden)) {
        assert(tensor_cell(parts[1], index) == tensor_cell(hidden, index));
    }
}

/// A checkpoint has a head where it has its weight. The head takes an embedding and a
/// hidden state side by side to a hidden state, and comes right after the layers of the
/// stack, among the layers and among the caches.
pub proof fn law_heads_are_planned(config: Config, weights: WeightNames)
    requires
        2 * config.hidden_size <= usize::MAX,
    ensures
        has_head(weights) <==> texts(weights.residual@).contains("mtp.fc.weight"@) || texts(
            weights.source@,
        ).contains("mtp.fc.weight"@),
        head_plan_of(config).fc_out == config.hidden_size,
        head_plan_of(config).fc_in == config.hidden_size + config.hidden_size,
        config.mtp ==> head_plan_of(config).kv_layer_idx == config.paged_mask().len() - 1,
        head_plan_of(config).layer_idx == config.kinds().len(),
{
    assert(MTP_FC_WEIGHT@ == "mtp.fc.weight"@);
}

/// Passes are captured ahead for exactly the number of tokens that is drafted, and none
/// where nothing is. Only the first chunk of a prompt has a mask.
pub proof fn law_captures_follow_drafts(n_predict: usize, n: usize)
    ensures
        drafted(n_predict) is Some <==> n_predict > 0,
        drafted(n_predict) == Some(n) <==> captured_ahead(n_predict).contains(n),
        n_predict > 0 ==> drafted(n_predict) == Some(n_predict),
        captured_ahead(n_predict).no_duplicates(),
        mask_of(true) == ChunkMask::Causal && mask_of(false) == ChunkMask::Absent,
{
    if n_predict > 0 {
        assert(captured_ahead(n_predict)[0] == n_predict);
    }
}

} // verus!

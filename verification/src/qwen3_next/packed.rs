//! Linear attention over several sequences packed into one row of tokens.
use std::ops::Range;
use vstd::prelude::*;
use vstd::string::*;

use crate::text::{answer, dec, decimal, lists_text, outcome, texts, Fault, Refusal};

verus! {

/// What a batch does to the recurrent states.
#[derive(Clone, Copy, Debug, PartialEq, Eq, Structural)]
pub enum RecurrentBatchKind {
    Prefill,
    Decode,
    SpeculativeDecode,
}

/// The tokens of one sequence, and the row of its recurrent state.
#[derive(Debug, PartialEq, Eq)]
pub struct PackedGdnSegment {
    pub token_range: Range<usize>,
    pub state_index: usize,
}

/// The tokens of the first `n` sequences.
pub open spec fn tokens_before(query_lens: Seq<usize>, n: int) -> nat
    decreases n,
{
    if n <= 0 {
        0
    } else {
        tokens_before(query_lens, n - 1) + query_lens[n - 1] as nat
    }
}

/// The refusal of the first `n` lengths: each must be positive and their sum
/// must fit.
pub open spec fn lengths_refusal(query_lens: Seq<usize>, n: int) -> Refusal
    decreases n,
{
    if n <= 0 {
        Refusal::none()
    } else {
        lengths_refusal(query_lens, n - 1).unless(
            query_lens[n - 1] != 0,
            "Qwen3-Next packed GDN logical sequence "@ + dec((n - 1) as nat)
                + " has zero tokens"@,
        ).unless(
            tokens_before(query_lens, n) <= usize::MAX,
            "Qwen3-Next packed GDN length overflow"@,
        )
    }
}

pub open spec fn segments_refusal(
    physical_batch: usize,
    physical_tokens: usize,
    query_lens: Seq<usize>,
) -> Refusal {
    let shape = Refusal::none().unless(
        physical_batch == 1,
        "Qwen3-Next packed GDN requires physical batch size 1, got "@ + dec(physical_batch as nat),
    ).unless(
        query_lens.len() > 0,
        "Qwen3-Next packed GDN requires at least one logical sequence"@,
    );
    let total = tokens_before(query_lens, query_lens.len() as int);
    shape.or(
        answer(lengths_refusal(query_lens, query_lens.len() as int), ()),
    ).unless(
        total == physical_tokens,
        "Qwen3-Next packed GDN has "@ + dec(total) + " logical tokens but "@ + dec(
            physical_tokens as nat,
        ) + " physical tokens"@,
    )
}

/// The segment of sequence `i`: its tokens follow those of the sequences before
/// it.
pub open spec fn segment_at(query_lens: Seq<usize>, i: int) -> PackedGdnSegment {
    PackedGdnSegment {
        token_range: Range {
            start: tokens_before(query_lens, i) as usize,
            end: tokens_before(query_lens, i + 1) as usize,
        },
        state_index: i as usize,
    }
}

pub open spec fn segments(query_lens: Seq<usize>) -> Seq<PackedGdnSegment> {
    Seq::new(query_lens.len(), |i: int| segment_at(query_lens, i))
}

/// An outcome that lists segments.
pub open spec fn segments_outcome(r: Result<Vec<PackedGdnSegment>, Fault>) -> Result<
    Seq<PackedGdnSegment>,
    Seq<char>,
> {
    match r {
        Ok(list) => Ok(list@),
        Err(fault) => Err(fault@),
    }
}

proof fn lemma_lengths_refuse(query_lens: Seq<usize>, m: int, n: int)
    requires
        0 <= m <= n,
        lengths_refusal(query_lens, m).message is Some,
    ensures
        lengths_refusal(query_lens, n) == lengths_refusal(query_lens, m),
    decreases n,
{
    if m < n {
        lemma_lengths_refuse(query_lens, m, n - 1);
    }
}

/// Splits a packed row of tokens into the segments of its sequences.
pub fn packed_gdn_segments(
    physical_batch: usize,
    physical_tokens: usize,
    query_lens: &[usize],
) -> (split: Result<Vec<PackedGdnSegment>, Fault>)
    ensures
        segments_outcome(split) == answer(
            segments_refusal(physical_batch, physical_tokens, query_lens@),
            segments(query_lens@),
        ),
{
    if physical_batch != 1 {
        return Err(
            Fault::new(
                String::from_str(
                    "Qwen3-Next packed GDN requires physical batch size 1, got ",
                ).concat(decimal(physical_batch as u64).as_str()),
            ),
        );
    }
    if query_lens.len() == 0 {
        return Err(Fault::of("Qwen3-Next packed GDN requires at least one logical sequence"));
    }
    let ghost lens = query_lens@;
    let ghost refusal = segments_refusal(physical_batch, physical_tokens, lens);
    let mut offset: usize = 0;
    let mut split: Vec<PackedGdnSegment> = Vec::new();
    let mut i: usize = 0;
    while i < query_lens.len()
        invariant
            i <= lens.len(),
            lens == query_lens@,
            physical_batch == 1,
            lens.len() > 0,
            refusal == segments_refusal(physical_batch, physical_tokens, lens),
            lengths_refusal(lens, i as int).message is None,
            offset == tokens_before(lens, i as int),
            split@.len() == i,
            forall|k: int| 0 <= k < i ==> #[trigger] split@[k] == segment_at(lens, k),
        decreases lens.len() - i,
    {
        let query_len: usize = query_lens[i];
        if query_len == 0 {
            proof {
                lemma_lengths_refuse(lens, i + 1, lens.len() as int);
            }
            return Err(
                Fault::new(
                    String::from_str("Qwen3-Next packed GDN logical sequence ").concat(
                        decimal(i as u64).as_str(),
                    ).concat(" has zero tokens"),
                ),
            );
        }
        let end: usize = match offset.checked_add(query_len) {
            Some(end) => end,
            None => {
                proof {
                    lemma_lengths_refuse(lens, i + 1, lens.len() as int);
                }
                return Err(Fault::of("Qwen3-Next packed GDN length overflow"));
            },
        };
        split.push(PackedGdnSegment { token_range: Range { start: offset, end }, state_index: i });
        offset = end;
        i = i + 1;
    }
    if offset != physical_tokens {
        return Err(
            Fault::new(
                String::from_str("Qwen3-Next packed GDN has ").concat(
                    decimal(offset as u64).as_str(),
                ).concat(" logical tokens but ").concat(
                    decimal(physical_tokens as u64).as_str(),
                ).concat(" physical tokens"),
            ),
        );
    }
    assert(split@ =~= segments(lens));
    Ok(split)
}

pub(crate) proof fn lemma_lengths_hold(query_lens: Seq<usize>, n: int, i: int)
    requires
        0 <= i < n <= query_lens.len(),
        lengths_refusal(query_lens, n).message is None,
    ensures
        query_lens[i] != 0,
        tokens_before(query_lens, i) < tokens_before(query_lens, i + 1),
        tokens_before(query_lens, i + 1) <= tokens_before(query_lens, n),
        tokens_before(query_lens, n) <= usize::MAX,
    decreases n,
{
    if i < n - 1 {
        lemma_lengths_hold(query_lens, n - 1, i);
    }
}

/// The segments partition the tokens in order: the first begins at the first
/// token, each begins where the one before it ends, the last ends at the last
/// token, none is empty, and segment `i` goes with state row `i`.
pub proof fn law_segments_partition_tokens(
    physical_batch: usize,
    physical_tokens: usize,
    query_lens: Seq<usize>,
)
    requires
        segments_refusal(physical_batch, physical_tokens, query_lens).message is None,
    ensures
        ({
            let split = segments(query_lens);
            &&& split.len() == query_lens.len()
            &&& split[0].token_range.start == 0
            &&& split[split.len() - 1].token_range.end == physical_tokens
            &&& forall|i: int|
                0 <= i < split.len() ==> {
                    &&& (#[trigger] split[i]).state_index == i
                    &&& split[i].token_range.start < split[i].token_range.end <= physical_tokens
                    &&& split[i].token_range.end - split[i].token_range.start == query_lens[i]
                }
            &&& forall|i: int, j: int|
                0 <= i && j == i + 1 && j < split.len() ==> (
                #[trigger] split[i]).token_range.end == (#[trigger] split[j]).token_range.start
        }),
{
    let split = segments(query_lens);
    let n = query_lens.len() as int;
    assert forall|i: int| 0 <= i < split.len() implies {
        &&& (#[trigger] split[i]).state_index == i
        &&& split[i].token_range.start < split[i].token_range.end <= physical_tokens
        &&& split[i].token_range.end - split[i].token_range.start == query_lens[i]
    } by {
        lemma_lengths_hold(query_lens, n, i);
        lemma_index_fits(query_lens, n, i);
    }
    assert forall|i: int, j: int| 0 <= i && j == i + 1 && j < split.len() implies (
    #[trigger] split[i]).token_range.end == (#[trigger] split[j]).token_range.start by {}
    lemma_lengths_hold(query_lens, n, 0);
    lemma_lengths_hold(query_lens, n, n - 1);
}

/// Positive lengths that add up to a `usize` are no more than a `usize` counts.
proof fn lemma_index_fits(query_lens: Seq<usize>, n: int, i: int)
    requires
        0 <= i < n <= query_lens.len(),
        lengths_refusal(query_lens, n).message is None,
    ensures
        i <= tokens_before(query_lens, i),
        i <= usize::MAX,
    decreases i,
{
    lemma_lengths_hold(query_lens, n, i);
    if i > 0 {
        lemma_index_fits(query_lens, n, i - 1);
        lemma_lengths_hold(query_lens, n, i - 1);
    }
}

pub open spec fn state_rows_refusal(logical: usize, conv: usize, recurrent: usize) -> Refusal {
    Refusal::none().unless(
        conv == logical,
        "Qwen3-Next packed GDN has "@ + dec(conv as nat) + " convolution state rows but "@ + dec(
            logical as nat,
        ) + " logical sequences"@,
    ).unless(
        recurrent == logical,
        "Qwen3-Next packed GDN has "@ + dec(recurrent as nat) + " recurrent state rows but "@ + dec(
            logical as nat,
        ) + " logical sequences"@,
    )
}

fn state_rows_fault(rows: usize, kind: &str, logical: usize) -> (fault: Fault)
    ensures
        fault@ == "Qwen3-Next packed GDN has "@ + dec(rows as nat) + kind@ + dec(logical as nat)
            + " logical sequences"@,
{
    Fault::new(
        String::from_str("Qwen3-Next packed GDN has ").concat(
            decimal(rows as u64).as_str(),
        ).concat(kind).concat(decimal(logical as u64).as_str()).concat(" logical sequences"),
    )
}

/// Checks that there is one state row of each kind for each sequence.
pub fn validate_packed_gdn_state_rows(
    logical_batch: usize,
    conv_state_batch: usize,
    recurrent_state_batch: usize,
) -> (r: Result<(), Fault>)
    ensures
        outcome(r) == answer(
            state_rows_refusal(logical_batch, conv_state_batch, recurrent_state_batch),
            (),
        ),
{
    if conv_state_batch != logical_batch {
        return Err(
            state_rows_fault(conv_state_batch, " convolution state rows but ", logical_batch),
        );
    }
    if recurrent_state_batch != logical_batch {
        return Err(
            state_rows_fault(recurrent_state_batch, " recurrent state rows but ", logical_batch),
        );
    }
    Ok(())
}

// The weights of a linear-attention layer.

/// How the input projections of a layer are stored.
#[derive(Clone, Copy, Debug, PartialEq, Eq, Structural)]
pub enum GdnInputProjectionKind {
    Split,
    SplitQkvzGroupedBa,
    Grouped,
}

/// The names of a model's weights, as tensors and in a further source, and the
/// layer that is looked at.
#[derive(Debug)]
pub struct WeightNames {
    pub prefix: String,
    pub residual: Vec<String>,
    pub source: Vec<String>,
}

impl WeightNames {
    /// Whether there is a weight of that full name, as a tensor or in the further
    /// source.
    pub open spec fn has_path(&self, path: Seq<char>) -> bool {
        texts(self.residual@).contains(path) || texts(self.source@).contains(path)
    }

    /// Whether the layer has a weight.
    pub open spec fn has(&self, name: Seq<char>) -> bool {
        self.has_path(self.prefix@ + "."@ + name)
    }

    /// Tests whether there is a weight of that full name.
    pub fn contains_path(&self, path: &str) -> (found: bool)
        ensures
            found == self.has_path(path@),
    {
        lists_text(&self.residual, path) || lists_text(&self.source, path)
    }

    fn contains(&self, name: &str) -> (found: bool)
        ensures
            found == self.has(name@),
    {
        let path: String = String::from_str(self.prefix.as_str()).concat(".").concat(name);
        self.contains_path(path.as_str())
    }
}

pub open spec fn projection_kind(names: WeightNames) -> GdnInputProjectionKind {
    if names.has("in_proj_b.weight"@) && names.has("in_proj_a.weight"@) {
        GdnInputProjectionKind::Split
    } else if names.has("in_proj_qkv.weight"@) {
        GdnInputProjectionKind::SplitQkvzGroupedBa
    } else {
        GdnInputProjectionKind::Grouped
    }
}

/// How the input projections of a layer are stored, by the weights it has.
pub fn gdn_input_projection_kind(names: &WeightNames) -> (kind: GdnInputProjectionKind)
    ensures
        kind == projection_kind(*names),
{
    if names.contains("in_proj_b.weight") && names.contains("in_proj_a.weight") {
        GdnInputProjectionKind::Split
    } else if names.contains("in_proj_qkv.weight") {
        GdnInputProjectionKind::SplitQkvzGroupedBa
    } else {
        GdnInputProjectionKind::Grouped
    }
}

/// A weight counts the same whether it is a tensor or in the further source.
pub proof fn law_projection_kind_ignores_the_place_of_weights(a: WeightNames, b: WeightNames)
    requires
        forall|name: Seq<char>| #[trigger] a.has(name) == b.has(name),
    ensures
        projection_kind(a) == projection_kind(b),
{
    assert(a.has("in_proj_b.weight"@) == b.has("in_proj_b.weight"@));
    assert(a.has("in_proj_a.weight"@) == b.has("in_proj_a.weight"@));
    assert(a.has("in_proj_qkv.weight"@) == b.has("in_proj_qkv.weight"@));
}

// Switches.

/// Whether a pass keeps what it takes to replay it.
pub open spec fn stashes_replay(
    native_speculative_commit: bool,
    store_spec_hidden: bool,
    query_len: usize,
    batch_kind: Option<RecurrentBatchKind>,
    continuation_without_cache: bool,
) -> bool {
    &&& !native_speculative_commit
    &&& store_spec_hidden
    &&& query_len > 1
    &&& batch_kind == Some(RecurrentBatchKind::SpeculativeDecode)
    &&& continuation_without_cache
}

/// Whether what a forward pass did to the recurrent states is kept, to be
/// replayed where part of it is rejected: for a speculative step that no native
/// commit covers.
pub fn should_stash_gdn_replay(
    native_speculative_commit: bool,
    store_spec_hidden: bool,
    query_len: usize,
    batch_kind: Option<RecurrentBatchKind>,
    continuation_without_cache: bool,
) -> (stash: bool)
    ensures
        stash == (!native_speculative_commit && store_spec_hidden && query_len > 1 && batch_kind
            == Some(RecurrentBatchKind::SpeculativeDecode) && continuation_without_cache),
        stash == stashes_replay(
            native_speculative_commit,
            store_spec_hidden,
            query_len,
            batch_kind,
            continuation_without_cache,
        ),
{
    !native_speculative_commit && store_spec_hidden && query_len > 1 && batch_kind == Some(
        RecurrentBatchKind::SpeculativeDecode,
    ) && continuation_without_cache
}

/// Whether all flags are set.
pub open spec fn all_set(flags: Seq<bool>) -> bool {
    forall|i: int| 0 <= i < flags.len() ==> #[trigger] flags[i]
}

/// Whether the devices that hold recurrent states can keep checkpoints: there
/// are CUDA kernels, there is a device, and every device is a CUDA device.
pub fn recurrent_checkpoint_devices_supported(cuda_kernels: bool, is_cuda: &[bool]) -> (supported:
    bool)
    ensures
        supported == (cuda_kernels && is_cuda@.len() > 0 && all_set(is_cuda@)),
{
    if !cuda_kernels || is_cuda.len() == 0 {
        return false;
    }
    let mut i: usize = 0;
    while i < is_cuda.len()
        invariant
            i <= is_cuda@.len(),
            forall|k: int| 0 <= k < i ==> #[trigger] is_cuda@[k],
        decreases is_cuda@.len() - i,
    {
        if !is_cuda[i] {
            return false;
        }
        i = i + 1;
    }
    true
}

proof fn lemma_lengths_are_positive(query_lens: Seq<usize>, n: int)
    requires
        0 <= n <= query_lens.len(),
        forall|i: int| 0 <= i < n ==> #[trigger] query_lens[i] > 0,
        tokens_before(query_lens, n) <= usize::MAX,
    ensures
        lengths_refusal(query_lens, n).message is None,
    decreases n,
{
    if n > 0 {
        lemma_lengths_are_positive(query_lens, n - 1);
    }
}

/// A packed row is split exactly where it is one row, holds a sequence, no sequence is
/// empty, and the sequences have as many tokens as the row.
pub proof fn law_rows_are_split(
    physical_batch: usize,
    physical_tokens: usize,
    query_lens: Seq<usize>,
)
    ensures
        segments_refusal(physical_batch, physical_tokens, query_lens).message is None <==> {
            &&& physical_batch == 1
            &&& query_lens.len() > 0
            &&& forall|i: int| 0 <= i < query_lens.len() ==> #[trigger] query_lens[i] > 0
            &&& tokens_before(query_lens, query_lens.len() as int) == physical_tokens
        },
{
    let n = query_lens.len() as int;
    if segments_refusal(physical_batch, physical_tokens, query_lens).message is None {
        assert forall|i: int| 0 <= i < n implies #[trigger] query_lens[i] > 0 by {
            lemma_lengths_hold(query_lens, n, i);
        }
    }
    if (forall|i: int| 0 <= i < n ==> #[trigger] query_lens[i] > 0) && tokens_before(
        query_lens,
        n,
    ) == physical_tokens {
        lemma_lengths_are_positive(query_lens, n);
    }
}

/// States are taken exactly where there is one row of each kind for each sequence.
pub proof fn law_state_rows(logical: usize, conv: usize, recurrent: usize)
    ensures
        state_rows_refusal(logical, conv, recurrent).message is None <==> conv == logical
            && recurrent == logical,
{
}

/// The input projections are split where the layer has both small ones, split in part
/// where it has the large one and not both small ones, and grouped where it has neither.
pub proof fn law_projection_kinds(names: WeightNames)
    ensures
        ({
            let b = names.prefix@ + ".in_proj_b.weight"@;
            let a = names.prefix@ + ".in_proj_a.weight"@;
            let qkv = names.prefix@ + ".in_proj_qkv.weight"@;
            let listed = |path: Seq<char>|
                texts(names.residual@).contains(path) || texts(names.source@).contains(path);
            &&& projection_kind(names) == GdnInputProjectionKind::Split <==> listed(a) && listed(b)
            &&& projection_kind(names) == GdnInputProjectionKind::SplitQkvzGroupedBa <==> listed(qkv)
                && !(listed(a) && listed(b))
            &&& projection_kind(names) == GdnInputProjectionKind::Grouped <==> !listed(qkv) && !(listed(
                a,
            ) && listed(b))
        }),
{
    reveal_strlit(".");
    reveal_strlit(".in_proj_b.weight");
    reveal_strlit(".in_proj_a.weight");
    reveal_strlit(".in_proj_qkv.weight");
    reveal_strlit("in_proj_b.weight");
    reveal_strlit("in_proj_a.weight");
    reveal_strlit("in_proj_qkv.weight");
    let prefix = names.prefix@;
    assert(prefix + "."@ + "in_proj_b.weight"@ =~= prefix + ".in_proj_b.weight"@);
    assert(prefix + "."@ + "in_proj_a.weight"@ =~= prefix + ".in_proj_a.weight"@);
    assert(prefix + "."@ + "in_proj_qkv.weight"@ =~= prefix + ".in_proj_qkv.weight"@);
}

/// A replay is prepared for speculative steps of several tokens alone, and neither where
/// nothing is captured, nor where a native commit undoes the step, nor over cached
/// tokens.
pub proof fn law_replays_are_prepared(
    native: bool,
    store: bool,
    query_len: usize,
    batch_kind: Option<RecurrentBatchKind>,
    fresh: bool,
)
    ensures
        stashes_replay(native, store, query_len, batch_kind, fresh) ==> batch_kind == Some(
            RecurrentBatchKind::SpeculativeDecode,
        ),
        !stashes_replay(true, store, query_len, batch_kind, fresh),
        !stashes_replay(native, false, query_len, batch_kind, fresh),
        !stashes_replay(native, store, query_len, batch_kind, false),
        query_len <= 1 ==> !stashes_replay(native, store, query_len, batch_kind, fresh),
        query_len >= 2 ==> stashes_replay(
            false,
            true,
            query_len,
            Some(RecurrentBatchKind::SpeculativeDecode),
            true,
        ),
{
}

} // verus!

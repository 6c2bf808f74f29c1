//! Attention over a paged cache.
use candle_core::Tensor;
use vstd::prelude::*;
use vstd::string::*;

use crate::arith::{ceil_div, divide_up, law_align_up};
use crate::paged::info::{
    address_of, check_device, check_dtype, check_rank, device_check, dtype_check, elements,
    head_start, law_first_element_is_at_the_origin, lemma_dot3, lemma_dot4, lemma_dot5,
    lemma_nothing, lemma_reached, origin, points_at, rank_check, row_start, same_dims, DType, Layout, Place, TensorInfo,
};
use crate::paged::quant::{
    side_cache_dtype, side_code, side_scales, validate_side_scales, BlockQuantKind,
};
use crate::paged::workspace::{
    exp_sums_bytes, exp_sums_offset, law_workspace_parts, plan_workspace, tmp_out_bytes,
    workspace_bytes, workspace_fits, workspace_plan, Workspace,
};
use crate::tensor::{
    countable, handy, in_shape, on_one_device, row_major, tensor_cell, tensor_dims, tensor_f32,
    tensor_fault, tensor_type, to_f32,
};
use crate::text::{
    answer, bracketed, bracketed_text, dec, decimal, lemma_compares, lemma_names, outcome,
    parenthesised, parenthesised_text, says, Fault, Refusal,
};

verus! {

/// Tokens of one partition of the partitioned kernel. Whatever keys cached
/// launches must take it as part of their shape.
pub const PAGED_ATTENTION_V2_PARTITION_SIZE: usize = 512;

/// The operands of attention besides the queries.
#[derive(Debug)]
pub struct PagedAttention {
    pub key_cache: TensorInfo,
    pub value_cache: TensorInfo,
    pub block_tables: TensorInfo,
    pub context_lens: TensorInfo,
    pub alibi_slopes: Option<TensorInfo>,
    pub max_context_len: usize,
    pub k_scale: Option<TensorInfo>,
    pub v_scale: Option<TensorInfo>,
    pub k_res: Option<TensorInfo>,
    pub v_res: Option<TensorInfo>,
    /// The sinks in `f32`, as `sink_values` gives them.
    pub sinks: Option<TensorInfo>,
    pub k_quant: Option<BlockQuantKind>,
    pub v_quant: Option<BlockQuantKind>,
}

pub open spec fn optional_wf(tensor: Option<TensorInfo>) -> bool {
    tensor matches Some(tensor) ==> tensor.wf()
}

impl PagedAttention {
    pub open spec fn wf(&self) -> bool {
        &&& self.key_cache.wf()
        &&& self.value_cache.wf()
        &&& self.block_tables.wf()
        &&& self.context_lens.wf()
        &&& optional_wf(self.alibi_slopes)
        &&& optional_wf(self.k_scale)
        &&& optional_wf(self.v_scale)
        &&& optional_wf(self.k_res)
        &&& optional_wf(self.v_res)
        &&& optional_wf(self.sinks)
        &&& self.sinks matches Some(sinks) ==> sinks.dtype == DType::F32
    }

    pub open spec fn k_code(&self) -> Option<u32> {
        side_code(self.key_cache.dtype, self.k_quant)
    }

    pub open spec fn v_code(&self) -> Option<u32> {
        side_code(self.value_cache.dtype, self.v_quant)
    }
}

/// The address of an operand that may be missing.
pub open spec fn optional_first(tensor: Option<TensorInfo>) -> Option<u64> {
    match tensor {
        Some(tensor) => Some(tensor.first()),
        None => None,
    }
}

pub(crate) fn optional_address(tensor: &Option<TensorInfo>) -> (ptr: Option<u64>)
    requires
        optional_wf(*tensor),
    ensures
        ptr == optional_first(*tensor),
{
    match tensor {
        Some(tensor) => Some(tensor.first_address()),
        None => None,
    }
}

/// The refusal of an operand that may be missing, and else is on the device and
/// has elements of type `dtype`.
pub open spec fn optional_check(
    tensor: Option<TensorInfo>,
    name: Seq<char>,
    dtype: DType,
) -> Result<(), Seq<char>> {
    match tensor {
        None => Ok(()),
        Some(tensor) => match device_check(tensor, name) {
            Err(message) => Err(message),
            Ok(()) => dtype_check(dtype, tensor.dtype),
        },
    }
}

pub(crate) fn check_optional(tensor: &Option<TensorInfo>, name: &str, dtype: DType) -> (r: Result<
    (),
    Fault,
>)
    ensures
        outcome(r) == optional_check(*tensor, name@, dtype),
{
    match tensor {
        None => Ok(()),
        Some(tensor) => {
            check_device(tensor, name)?;
            check_dtype(dtype, tensor.dtype)
        },
    }
}

/// The sinks are on a device. Their type is known.
pub open spec fn sinks_check(sinks: Option<TensorInfo>) -> Result<(), Seq<char>> {
    match sinks {
        None => Ok(()),
        Some(sinks) => device_check(sinks, "sinks"@),
    }
}

fn check_sinks(sinks: &Option<TensorInfo>) -> (r: Result<(), Fault>)
    ensures
        outcome(r) == sinks_check(*sinks),
{
    match sinks {
        None => Ok(()),
        Some(sinks) => check_device(sinks, "sinks"),
    }
}

/// Whether a tensor holds the elements of another as `f32`. It is that tensor where
/// its elements are `f32`.
pub open spec fn is_widened(wide: Tensor, tensor: Tensor) -> bool {
    &&& tensor_dims(wide) == tensor_dims(tensor)
    &&& tensor_type(wide) == "F32"@
    &&& on_one_device(wide, tensor)
    &&& if tensor_type(tensor) == "F32"@ {
        wide == tensor
    } else {
        row_major(wide)
    }
    &&& forall|index: Seq<int>|
        in_shape(index, tensor_dims(wide)) ==> (tensor_f32(tensor, index) matches Some(bits)
            ==> #[trigger] tensor_cell(wide, index) == bits)
}

/// The sinks as the kernel reads them, in `f32`, whatever the type that they are
/// kept in. A device may fail to convert them, and so may the host for elements
/// that it only holds.
pub fn sink_values(sinks: Option<&Tensor>) -> (values: Result<Option<Tensor>, Fault>)
    requires
        sinks matches Some(sinks) ==> countable(tensor_dims(*sinks)),
    ensures
        match (sinks, values) {
            (None, Ok(None)) => true,
            (Some(sinks), Ok(Some(values))) => is_widened(values, *sinks),
            (Some(sinks), Err(_)) => !handy(*sinks) && tensor_type(*sinks) != "F32"@,
            _ => false,
        },
{
    match sinks {
        None => Ok(None),
        Some(sinks) => match to_f32(sinks) {
            Ok(values) => Ok(Some(values)),
            Err(error) => Err(tensor_fault(error)),
        },
    }
}

/// Whether a kernel computes with elements of a type.
pub open spec fn is_native(dtype: DType) -> bool {
    dtype == DType::F16 || dtype == DType::BF16 || dtype == DType::F32
}

/// The elements that a cache of a code holds: fp8, bytes of a block kind, or
/// the type that the kernel computes with.
pub open spec fn payload_dtype(code: Option<u32>, native: DType) -> DType {
    if code == Some(3u32) {
        DType::F8E4M3
    } else if code == Some(4u32) || code == Some(5u32) {
        DType::U8
    } else {
        native
    }
}

fn payload(code: u32, native: DType) -> (dtype: DType)
    ensures
        dtype == payload_dtype(Some(code), native),
{
    if code == 3 {
        DType::F8E4M3
    } else if code == 4 || code == 5 {
        DType::U8
    } else {
        native
    }
}

pub open spec fn no_code(dtype: DType) -> Seq<char> {
    "cache dtype "@ + dtype.name_text() + " is not supported"@
}

pub(crate) fn no_code_fault(dtype: DType) -> (fault: Fault)
    ensures
        fault@ == no_code(dtype),
{
    Fault::new(String::from_str("cache dtype ").concat(dtype.name()).concat(" is not supported"))
}

/// The message for a tensor of the wrong rank. `stated` is the wanted rank and
/// the tensor's short name.
pub open spec fn rank_message(name: Seq<char>, stated: Seq<char>, layout: Layout) -> Seq<char> {
    "paged-attention expects `"@ + name + "` tensor to be of rank "@ + stated + layout.text() + ")"@
}

pub(crate) fn rank_fault(name: &str, stated: &str, layout: &Layout) -> (fault: Fault)
    ensures
        fault@ == rank_message(name@, stated@, *layout),
{
    Fault::new(
        String::from_str("paged-attention expects `").concat(name).concat(
            "` tensor to be of rank ",
        ).concat(stated).concat(layout.describe().as_str()).concat(")"),
    )
}

pub const NO_FP8: &'static str = "FP8 is not supported on this system.";

/// What is refused for the types, the devices and the ranks of the operands.
pub open spec fn operands_refusal(op: PagedAttention, q: TensorInfo, fp8: bool) -> Refusal {
    Refusal::none().unless(
        q.place == Place::Cuda,
        "no cpu support for paged-attention"@,
    ).unless(
        is_native(q.dtype),
        "paged-attention is only supported for f32/f16/bf16 ("@ + q.dtype.name_text() + ")"@,
    ).or(side_scales(op.key_cache.dtype, op.k_scale, "K"@, "paged_attention"@)).or(
        side_scales(op.value_cache.dtype, op.v_scale, "V"@, "paged_attention"@),
    ).unless(op.k_code() is Some, no_code(op.key_cache.dtype)).unless(
        op.v_code() is Some,
        no_code(op.value_cache.dtype),
    ).unless(
        fp8 || (op.k_code() != Some(3u32) && op.v_code() != Some(3u32)),
        NO_FP8@,
    ).or(device_check(op.key_cache, "key_cache"@)).or(
        device_check(op.value_cache, "value_cache"@),
    ).or(device_check(op.block_tables, "block_tables"@)).or(
        device_check(op.context_lens, "context_lens"@),
    ).unless(q.layout.rank() == 3, rank_message("q"@, "3 (q: "@, q.layout)).unless(
        op.key_cache.layout.rank() == 5,
        rank_message("key_cache"@, "5 (key_cache: "@, op.key_cache.layout),
    ).unless(
        op.value_cache.layout.rank() == 4,
        rank_message("value_cache"@, "4 (value_cache: "@, op.value_cache.layout),
    ).or(dtype_check(payload_dtype(op.k_code(), q.dtype), op.key_cache.dtype)).or(
        dtype_check(payload_dtype(op.v_code(), q.dtype), op.value_cache.dtype),
    ).or(dtype_check(DType::U32, op.context_lens.dtype)).or(
        dtype_check(DType::U32, op.block_tables.dtype),
    ).or(optional_check(op.alibi_slopes, "context_lens"@, DType::F32)).or(
        optional_check(op.k_scale, "k_scale"@, DType::F32),
    ).or(optional_check(op.v_scale, "v_scale"@, DType::F32)).or(
        optional_check(op.k_res, "k_res"@, DType::U8),
    ).or(optional_check(op.v_res, "v_res"@, DType::U8)).or(sinks_check(op.sinks))
}

/// The head sizes that the kernels are built for.
pub open spec fn has_kernel(head_size: usize) -> bool {
    ||| head_size == 64
    ||| head_size == 80
    ||| head_size == 96
    ||| head_size == 112
    ||| head_size == 128
    ||| head_size == 192
    ||| head_size == 256
    ||| head_size == 512
}

/// What is refused before the key cache is matched with the head size.
pub open spec fn queries_refusal(op: PagedAttention, q: TensorInfo, fp8: bool) -> Refusal {
    let num_seqs = q.dims()[0];
    let tables = op.block_tables.dims();
    operands_refusal(op, q, fp8).unless(
        has_kernel(q.dims()[2]),
        "`head_size` must be one of 64, 80, 96, 112, 128, 192, 256 or 512"@,
    ).or(rank_check(2, tables)).unless(
        tables[0] == num_seqs,
        "shape mismatch block_tables "@ + bracketed(tables) + ", expected "@ + parenthesised(
            seq![num_seqs, tables[1]],
        ),
    )
}

/// The chunks that a head takes in the key cache. A chunk of four-bit payloads
/// covers 32 elements.
pub open spec fn key_chunks(op: PagedAttention, head_size: usize) -> usize {
    if op.k_quant == Some(BlockQuantKind::Q4_0) {
        head_size / 32
    } else {
        head_size / op.key_cache.dims()[4]
    }
}

/// The slots of a block in the value cache. Two four-bit payloads share one.
pub open spec fn value_slots(op: PagedAttention) -> usize {
    if op.v_quant == Some(BlockQuantKind::Q4_0) {
        op.key_cache.dims()[3] / 2
    } else {
        op.key_cache.dims()[3]
    }
}

pub open spec fn cache_mismatch(key_cache: Seq<usize>, value_cache: Seq<usize>) -> Seq<char> {
    "shape mismatch key_cache "@ + bracketed(key_cache) + " and value_cache "@ + bracketed(
        value_cache,
    )
}

pub(crate) fn cache_mismatch_fault(key_cache: &Vec<usize>, value_cache: &Vec<usize>) -> (fault:
    Fault)
    ensures
        fault@ == cache_mismatch(key_cache@, value_cache@),
{
    Fault::new(
        String::from_str("shape mismatch key_cache ").concat(
            bracketed_text(key_cache.as_slice()).as_str(),
        ).concat(" and value_cache ").concat(bracketed_text(value_cache.as_slice()).as_str()),
    )
}

/// The message for one tensor of the wrong shape, with the wanted one as text.
pub open spec fn shape_mismatch(name: Seq<char>, dims: Seq<usize>, expected: Seq<char>) -> Seq<
    char,
> {
    "shape mismatch "@ + name + " "@ + bracketed(dims) + ", expected "@ + expected
}

pub(crate) fn shape_mismatch_fault(name: &str, dims: &Vec<usize>, expected: &str) -> (fault: Fault)
    ensures
        fault@ == shape_mismatch(name@, dims@, expected@),
{
    Fault::new(
        String::from_str("shape mismatch ").concat(name).concat(" ").concat(
            bracketed_text(dims.as_slice()).as_str(),
        ).concat(", expected ").concat(expected),
    )
}

/// All that is refused.
pub open spec fn attention_refusal(op: PagedAttention, q: TensorInfo, fp8: bool) -> Refusal {
    let num_seqs = q.dims()[0];
    let head_size = q.dims()[2];
    let kc = op.key_cache.dims();
    let vc = op.value_cache.dims();
    queries_refusal(op, q, fp8).unless(
        kc[2] == key_chunks(op, head_size),
        shape_mismatch(
            "key_cache"@,
            kc,
            parenthesised(seq![kc[0], kc[1], key_chunks(op, head_size), kc[3], kc[4]]),
        ),
    ).unless(vc == seq![kc[0], kc[1], head_size, value_slots(op)], cache_mismatch(kc, vc)).or(
        rank_check(1, op.context_lens.dims()),
    ).unless(
        op.context_lens.dims()[0] == num_seqs,
        shape_mismatch("context_lens"@, op.context_lens.dims(), dec(num_seqs as nat)),
    )
}

/// The kernel that attention runs on: one that takes a context whole, or one
/// that takes it in partitions and needs a workspace.
#[derive(Clone, Copy, Debug, PartialEq, Eq, Structural)]
pub enum AttentionKernel {
    V1,
    V2 { partitions: usize, workspace: Workspace },
}

/// What a kernel is launched with. Missing operands have no address.
#[derive(Clone, Copy, Debug)]
pub struct AttentionLaunch {
    pub kernel: AttentionKernel,
    pub dtype: DType,
    pub out_elements: usize,
    pub q: u64,
    pub key_cache: u64,
    pub value_cache: u64,
    pub alibi_slopes: Option<u64>,
    pub block_tables: u64,
    pub context_lens: u64,
    pub k_scale: Option<u64>,
    pub v_scale: Option<u64>,
    pub k_res: Option<u64>,
    pub v_res: Option<u64>,
    pub sinks: Option<u64>,
    pub num_kv_heads: usize,
    pub block_size: usize,
    pub max_context_len: usize,
    pub num_seqs: usize,
    pub num_heads: usize,
    pub head_size: usize,
    pub max_num_blocks_per_seq: usize,
    pub q_stride: usize,
    pub kv_block_stride: usize,
    pub kv_head_stride: usize,
    pub v_block_stride: usize,
    pub v_head_stride: usize,
    pub k_cache_dtype: u32,
    pub v_cache_dtype: u32,
}

/// The longest context that is looked at: what the block tables can hold, and
/// no more than the stated maximum.
pub open spec fn effective_context(op: PagedAttention) -> nat {
    let held = op.block_tables.dims()[1] * op.key_cache.dims()[3];
    if held < op.max_context_len {
        held as nat
    } else {
        op.max_context_len as nat
    }
}

pub open spec fn context_partitions(op: PagedAttention) -> nat {
    ceil_div(effective_context(op), 512)
}

/// The rows of a launch: one for each head of each sequence.
pub open spec fn query_rows(q: TensorInfo) -> nat {
    (q.dims()[0] * q.dims()[1]) as nat
}

/// Whether there is nothing to gain from partitions: one would do, or there are
/// rows enough to keep a device busy.
pub open spec fn prefers_whole(op: PagedAttention, q: TensorInfo) -> bool {
    context_partitions(op) == 1 || query_rows(q) > 512
}

/// Whether the context is taken whole. A partition must then hold whole blocks.
pub open spec fn takes_whole(op: PagedAttention, q: TensorInfo) -> bool {
    prefers_whole(op, q) && 512usize % op.key_cache.dims()[3] == 0
}

pub open spec fn attention_kernel(op: PagedAttention, q: TensorInfo) -> AttentionKernel {
    if takes_whole(op, q) {
        AttentionKernel::V1
    } else {
        AttentionKernel::V2 {
            partitions: context_partitions(op) as usize,
            workspace: workspace_plan(
                query_rows(q),
                context_partitions(op),
                q.dims()[2] as nat,
                q.dtype.bytes(),
            ),
        }
    }
}

pub open spec fn attention_launch(op: PagedAttention, q: TensorInfo) -> AttentionLaunch {
    AttentionLaunch {
        kernel: attention_kernel(op, q),
        dtype: q.dtype,
        out_elements: elements(q.dims()) as usize,
        q: q.first(),
        key_cache: op.key_cache.first(),
        value_cache: op.value_cache.first(),
        alibi_slopes: optional_first(op.alibi_slopes),
        block_tables: op.block_tables.first(),
        context_lens: op.context_lens.first(),
        k_scale: optional_first(op.k_scale),
        v_scale: optional_first(op.v_scale),
        k_res: optional_first(op.k_res),
        v_res: optional_first(op.v_res),
        sinks: optional_first(op.sinks),
        num_kv_heads: op.key_cache.dims()[1],
        block_size: op.key_cache.dims()[3],
        max_context_len: effective_context(op) as usize,
        num_seqs: q.dims()[0],
        num_heads: q.dims()[1],
        head_size: q.dims()[2],
        max_num_blocks_per_seq: op.block_tables.dims()[1],
        q_stride: q.layout.stride@[0],
        kv_block_stride: op.key_cache.layout.stride@[0],
        kv_head_stride: op.key_cache.layout.stride@[1],
        v_block_stride: op.value_cache.layout.stride@[0],
        v_head_stride: op.value_cache.layout.stride@[1],
        k_cache_dtype: op.k_code()->0,
        v_cache_dtype: op.v_code()->0,
    }
}

/// Whether chunks of the key cache have a size, where heads are divided into
/// them.
pub open spec fn chunks_have_size(op: PagedAttention) -> bool {
    op.k_quant == Some(BlockQuantKind::Q4_0) || op.key_cache.dims()[4] > 0
}

/// Whether every count of a launch fits a `usize`, and blocks have a size where
/// partitions are divided into them.
pub open spec fn counts_fit(op: PagedAttention, q: TensorInfo) -> bool {
    &&& elements(q.dims()) <= usize::MAX
    &&& op.block_tables.dims()[1] * op.key_cache.dims()[3] <= usize::MAX
    &&& prefers_whole(op, q) ==> op.key_cache.dims()[3] > 0
    &&& !takes_whole(op, q) ==> workspace_bytes(
        query_rows(q),
        context_partitions(op),
        q.dims()[2] as nat,
        q.dtype.bytes(),
    ) <= usize::MAX
}

/// Whether every count that a launch asks for has a value.
pub open spec fn attention_in_range(op: PagedAttention, q: TensorInfo, fp8: bool) -> bool {
    &&& queries_refusal(op, q, fp8).message is None ==> chunks_have_size(op)
    &&& attention_refusal(op, q, fp8).message is None ==> counts_fit(op, q)
}

// The checks.

fn check_operands(op: &PagedAttention, q: &TensorInfo, fp8: bool) -> (codes: Result<
    (u32, u32),
    Fault,
>)
    ensures
        match codes {
            Ok((k, v)) => {
                &&& operands_refusal(*op, *q, fp8).message is None
                &&& op.k_code() == Some(k)
                &&& op.v_code() == Some(v)
            },
            Err(fault) => operands_refusal(*op, *q, fp8).message == Some(fault@),
        },
{
    if q.place != Place::Cuda {
        return Err(Fault::of("no cpu support for paged-attention"));
    }
    if q.dtype != DType::F32 && q.dtype != DType::F16 && q.dtype != DType::BF16 {
        return Err(
            Fault::new(
                String::from_str("paged-attention is only supported for f32/f16/bf16 (").concat(
                    q.dtype.name(),
                ).concat(")"),
            ),
        );
    }
    validate_side_scales(op.key_cache.dtype, &op.k_scale, "K", "paged_attention")?;
    validate_side_scales(op.value_cache.dtype, &op.v_scale, "V", "paged_attention")?;
    let k_code: u32 = match side_cache_dtype(op.key_cache.dtype, op.k_quant) {
        Some(code) => code,
        None => return Err(no_code_fault(op.key_cache.dtype)),
    };
    let v_code: u32 = match side_cache_dtype(op.value_cache.dtype, op.v_quant) {
        Some(code) => code,
        None => return Err(no_code_fault(op.value_cache.dtype)),
    };
    if (k_code == 3 || v_code == 3) && !fp8 {
        return Err(Fault::of(NO_FP8));
    }
    check_device(&op.key_cache, "key_cache")?;
    check_device(&op.value_cache, "value_cache")?;
    check_device(&op.block_tables, "block_tables")?;
    check_device(&op.context_lens, "context_lens")?;
    if q.layout.dims.len() != 3 {
        return Err(rank_fault("q", "3 (q: ", &q.layout));
    }
    if op.key_cache.layout.dims.len() != 5 {
        return Err(rank_fault("key_cache", "5 (key_cache: ", &op.key_cache.layout));
    }
    if op.value_cache.layout.dims.len() != 4 {
        return Err(rank_fault("value_cache", "4 (value_cache: ", &op.value_cache.layout));
    }
    check_dtype(payload(k_code, q.dtype), op.key_cache.dtype)?;
    check_dtype(payload(v_code, q.dtype), op.value_cache.dtype)?;
    check_dtype(DType::U32, op.context_lens.dtype)?;
    check_dtype(DType::U32, op.block_tables.dtype)?;
    check_optional(&op.alibi_slopes, "context_lens", DType::F32)?;
    check_optional(&op.k_scale, "k_scale", DType::F32)?;
    check_optional(&op.v_scale, "v_scale", DType::F32)?;
    check_optional(&op.k_res, "k_res", DType::U8)?;
    check_optional(&op.v_res, "v_res", DType::U8)?;
    check_sinks(&op.sinks)?;
    Ok((k_code, v_code))
}

fn check_queries(op: &PagedAttention, q: &TensorInfo, fp8: bool) -> (codes: Result<
    (u32, u32),
    Fault,
>)
    ensures
        match codes {
            Ok((k, v)) => {
                &&& queries_refusal(*op, *q, fp8).message is None
                &&& operands_refusal(*op, *q, fp8).message is None
                &&& op.k_code() == Some(k)
                &&& op.v_code() == Some(v)
            },
            Err(fault) => queries_refusal(*op, *q, fp8).message == Some(fault@),
        },
{
    let codes: (u32, u32) = check_operands(op, q, fp8)?;
    let head_size: usize = q.layout.dims[2];
    if !(head_size == 64 || head_size == 80 || head_size == 96 || head_size == 112 || head_size
        == 128 || head_size == 192 || head_size == 256 || head_size == 512) {
        return Err(
            Fault::of("`head_size` must be one of 64, 80, 96, 112, 128, 192, 256 or 512"),
        );
    }
    let tables: &Vec<usize> = &op.block_tables.layout.dims;
    check_rank(2, tables)?;
    let num_seqs: usize = q.layout.dims[0];
    if tables[0] != num_seqs {
        let mut expected: Vec<usize> = Vec::new();
        expected.push(num_seqs);
        expected.push(tables[1]);
        assert(expected@ =~= seq![num_seqs, tables@[1]]);
        return Err(
            Fault::new(
                String::from_str("shape mismatch block_tables ").concat(
                    bracketed_text(tables.as_slice()).as_str(),
                ).concat(", expected ").concat(parenthesised_text(expected.as_slice()).as_str()),
            ),
        );
    }
    Ok(codes)
}

fn check_caches(op: &PagedAttention, q: &TensorInfo) -> (r: Result<(), Fault>)
    requires
        q.layout.rank() == 3,
        op.key_cache.layout.rank() == 5,
        op.value_cache.layout.rank() == 4,
        chunks_have_size(*op),
    ensures
        forall|fp8: bool|
            queries_refusal(*op, *q, fp8).message is None ==> (#[trigger] attention_refusal(
                *op,
                *q,
                fp8,
            )).message == match r {
                Ok(()) => None::<Seq<char>>,
                Err(fault) => Some(fault@),
            },
{
    let num_seqs: usize = q.layout.dims[0];
    let head_size: usize = q.layout.dims[2];
    let kc: &Vec<usize> = &op.key_cache.layout.dims;
    let chunks: usize = if op.k_quant == Some(BlockQuantKind::Q4_0) {
        head_size / 32
    } else {
        head_size / kc[4]
    };
    if kc[2] != chunks {
        let mut expected: Vec<usize> = Vec::new();
        expected.push(kc[0]);
        expected.push(kc[1]);
        expected.push(chunks);
        expected.push(kc[3]);
        expected.push(kc[4]);
        assert(expected@ =~= seq![kc@[0], kc@[1], chunks, kc@[3], kc@[4]]);
        return Err(
            shape_mismatch_fault(
                "key_cache",
                kc,
                parenthesised_text(expected.as_slice()).as_str(),
            ),
        );
    }
    let slots: usize = if op.v_quant == Some(BlockQuantKind::Q4_0) {
        kc[3] / 2
    } else {
        kc[3]
    };
    let mut expected: Vec<usize> = Vec::new();
    expected.push(kc[0]);
    expected.push(kc[1]);
    expected.push(head_size);
    expected.push(slots);
    assert(expected@ =~= seq![kc@[0], kc@[1], head_size, slots]);
    if !same_dims(expected.as_slice(), op.value_cache.layout.dims.as_slice()) {
        return Err(cache_mismatch_fault(kc, &op.value_cache.layout.dims));
    }
    check_rank(1, &op.context_lens.layout.dims)?;
    if op.context_lens.layout.dims[0] != num_seqs {
        return Err(
            shape_mismatch_fault(
                "context_lens",
                &op.context_lens.layout.dims,
                decimal(num_seqs as u64).as_str(),
            ),
        );
    }
    Ok(())
}

// The launch.

proof fn lemma_query_elements(q: TensorInfo)
    requires
        q.layout.rank() == 3,
        q.dims()[2] >= 1,
    ensures
        elements(q.dims()) == q.dims()[0] * q.dims()[1] * q.dims()[2],
        query_rows(q) <= elements(q.dims()),
{
    let d = q.dims();
    reveal_with_fuel(elements, 4);
    assert(d.drop_last().drop_last().drop_last() =~= Seq::<usize>::empty());
    let a = d[0] as int;
    let b = d[1] as int;
    let c = d[2] as int;
    assert(1 * a == a);
    assert(a * b <= a * b * c) by (nonlinear_arith)
        requires
            a >= 0,
            b >= 0,
            c >= 1,
    ;
}

fn choose_kernel(op: &PagedAttention, q: &TensorInfo, context: usize) -> (kernel: AttentionKernel)
    requires
        q.layout.rank() == 3,
        op.key_cache.layout.rank() == 5,
        op.block_tables.layout.rank() == 2,
        has_kernel(q.dims()[2]),
        is_native(q.dtype),
        counts_fit(*op, *q),
        context == effective_context(*op),
    ensures
        kernel == attention_kernel(*op, *q),
{
    let block_size: usize = op.key_cache.layout.dims[3];
    let partitions: usize = divide_up(context, PAGED_ATTENTION_V2_PARTITION_SIZE);
    proof {
        lemma_query_elements(*q);
    }
    let rows: usize = q.layout.dims[0] * q.layout.dims[1];
    if (partitions == 1 || rows > 512) && PAGED_ATTENTION_V2_PARTITION_SIZE % block_size == 0 {
        AttentionKernel::V1
    } else {
        let workspace: Workspace = plan_workspace(
            rows,
            partitions,
            q.layout.dims[2],
            q.dtype.size_in_bytes(),
        );
        AttentionKernel::V2 { partitions, workspace }
    }
}

fn effective_context_len(op: &PagedAttention) -> (context: usize)
    requires
        op.key_cache.layout.rank() == 5,
        op.block_tables.layout.rank() == 2,
        op.block_tables.dims()[1] * op.key_cache.dims()[3] <= usize::MAX,
    ensures
        context == effective_context(*op),
{
    let held: usize = op.block_tables.layout.dims[1] * op.key_cache.layout.dims[3];
    if held < op.max_context_len {
        held
    } else {
        op.max_context_len
    }
}

/// Attention of the queries `q`, of shape sequences, heads and head size, over
/// a paged cache: what the kernel is launched with. `fp8` says whether fp8
/// kernels are there.
pub fn paged_attention(op: &PagedAttention, q: &TensorInfo, fp8: bool) -> (launch: Result<
    AttentionLaunch,
    Fault,
>)
    requires
        op.wf(),
        q.wf(),
        attention_in_range(*op, *q, fp8),
    ensures
        outcome(launch) == answer(attention_refusal(*op, *q, fp8), attention_launch(*op, *q)),
        launch matches Ok(launch) ==> {
            &&& finds_operands(launch, *op, *q)
            &&& counts_operands(launch, *op, *q)
            &&& launch.block_size > 0 ==> kernel_fits(launch)
        },
{
    let (k_cache_dtype, v_cache_dtype): (u32, u32) = check_queries(op, q, fp8)?;
    check_caches(op, q)?;
    let context: usize = effective_context_len(op);
    let kernel: AttentionKernel = choose_kernel(op, q, context);
    proof {
        law_launch_finds_operands(*op, *q, fp8);
        law_launch_counts_operands(*op, *q, fp8);
        if op.key_cache.dims()[3] > 0 {
            law_kernel_fits(*op, *q, fp8);
        }
        lemma_query_elements(*q);
    }
    let rows: usize = q.layout.dims[0] * q.layout.dims[1];
    Ok(
        AttentionLaunch {
            kernel,
            dtype: q.dtype,
            out_elements: rows * q.layout.dims[2],
            q: q.first_address(),
            key_cache: op.key_cache.first_address(),
            value_cache: op.value_cache.first_address(),
            alibi_slopes: optional_address(&op.alibi_slopes),
            block_tables: op.block_tables.first_address(),
            context_lens: op.context_lens.first_address(),
            k_scale: optional_address(&op.k_scale),
            v_scale: optional_address(&op.v_scale),
            k_res: optional_address(&op.k_res),
            v_res: optional_address(&op.v_res),
            sinks: optional_address(&op.sinks),
            num_kv_heads: op.key_cache.layout.dims[1],
            block_size: op.key_cache.layout.dims[3],
            max_context_len: context,
            num_seqs: q.layout.dims[0],
            num_heads: q.layout.dims[1],
            head_size: q.layout.dims[2],
            max_num_blocks_per_seq: op.block_tables.layout.dims[1],
            q_stride: q.layout.stride[0],
            kv_block_stride: op.key_cache.layout.stride[0],
            kv_head_stride: op.key_cache.layout.stride[1],
            v_block_stride: op.value_cache.layout.stride[0],
            v_head_stride: op.value_cache.layout.stride[1],
            k_cache_dtype,
            v_cache_dtype,
        },
    )
}

fn counts_do_fit(op: &PagedAttention, q: &TensorInfo) -> (fit: bool)
    requires
        q.layout.rank() == 3,
        op.key_cache.layout.rank() == 5,
        op.block_tables.layout.rank() == 2,
        has_kernel(q.dims()[2]),
        is_native(q.dtype),
    ensures
        fit == counts_fit(*op, *q),
{
    proof {
        lemma_query_elements(*q);
    }
    let rows: usize = match q.layout.dims[0].checked_mul(q.layout.dims[1]) {
        Some(rows) => rows,
        None => return false,
    };
    if rows.checked_mul(q.layout.dims[2]).is_none() {
        return false;
    }
    let block_size: usize = op.key_cache.layout.dims[3];
    if op.block_tables.layout.dims[1].checked_mul(block_size).is_none() {
        return false;
    }
    let context: usize = effective_context_len(op);
    let partitions: usize = divide_up(context, PAGED_ATTENTION_V2_PARTITION_SIZE);
    if partitions == 1 || rows > 512 {
        if block_size == 0 {
            return false;
        }
        if PAGED_ATTENTION_V2_PARTITION_SIZE % block_size == 0 {
            return true;
        }
    }
    workspace_fits(rows, partitions, q.layout.dims[2], q.dtype.size_in_bytes())
}

/// Tests whether every count that a launch asks for has a value.
pub fn attention_is_in_range(op: &PagedAttention, q: &TensorInfo, fp8: bool) -> (in_range: bool)
    ensures
        in_range == attention_in_range(*op, *q, fp8),
{
    match check_queries(op, q, fp8) {
        Ok(_) => {},
        Err(_) => return true,
    }
    if op.k_quant != Some(BlockQuantKind::Q4_0) && op.key_cache.layout.dims[4] == 0 {
        return false;
    }
    match check_caches(op, q) {
        Ok(()) => counts_do_fit(op, q),
        Err(_) => true,
    }
}

/// Each side of a split cache is taken on its own: the scale and the residual
/// of one side are launched as they are whatever the other side has.
pub proof fn law_sides_are_independent(op: PagedAttention, other: PagedAttention, q: TensorInfo)
    requires
        op.key_cache == other.key_cache,
        op.k_scale == other.k_scale,
        op.k_res == other.k_res,
        op.k_quant == other.k_quant,
    ensures
        attention_launch(op, q).key_cache == attention_launch(other, q).key_cache,
        attention_launch(op, q).k_scale == attention_launch(other, q).k_scale,
        attention_launch(op, q).k_res == attention_launch(other, q).k_res,
        attention_launch(op, q).k_cache_dtype == attention_launch(other, q).k_cache_dtype,
{
}

/// The partitions of a context cover it, and one fewer would not.
pub proof fn law_partitions_cover_context(op: PagedAttention)
    ensures
        effective_context(op) <= context_partitions(op) * 512 < effective_context(op) + 512,
        effective_context(op) <= op.max_context_len,
        effective_context(op) <= op.block_tables.dims()[1] * op.key_cache.dims()[3],
{
    crate::arith::law_ceil_div(effective_context(op), 512);
    assert(op.block_tables.dims()[1] * op.key_cache.dims()[3] >= 0) by (nonlinear_arith);
}

/// Whether a launch finds the elements of its operands: block `b` and head `h` of
/// either cache, sequence `s` of the queries, and the first element of all others.
pub open spec fn finds_operands(launch: AttentionLaunch, op: PagedAttention, q: TensorInfo) -> bool {
    &&& forall|b: int, h: int| #[trigger]
        address_of(op.key_cache, head_start(5, b, h)) == launch.key_cache + (b
            * launch.kv_block_stride + h * launch.kv_head_stride) * op.key_cache.dtype.bytes()
    &&& forall|b: int, h: int| #[trigger]
        address_of(op.value_cache, head_start(4, b, h)) == launch.value_cache + (b
            * launch.v_block_stride + h * launch.v_head_stride) * op.value_cache.dtype.bytes()
    &&& forall|s: int| #[trigger]
        address_of(q, row_start(3, s)) == launch.q + (s * launch.q_stride) * q.dtype.bytes()
    &&& launch.block_tables == address_of(op.block_tables, origin(2))
    &&& launch.context_lens == address_of(op.context_lens, origin(1))
    &&& points_at(launch.alibi_slopes, op.alibi_slopes)
    &&& points_at(launch.k_scale, op.k_scale)
    &&& points_at(launch.v_scale, op.v_scale)
    &&& points_at(launch.k_res, op.k_res)
    &&& points_at(launch.v_res, op.v_res)
    &&& points_at(launch.sinks, op.sinks)
}

/// The base and the strides of a launch lead to the elements of the tensors that
/// were handed in, each tensor to its own.
pub proof fn law_launch_finds_operands(op: PagedAttention, q: TensorInfo, fp8: bool)
    requires
        op.wf(),
        q.wf(),
        attention_refusal(op, q, fp8).message is None,
    ensures
        finds_operands(attention_launch(op, q), op, q),
{
    let launch = attention_launch(op, q);
    let (kc, vc) = (op.key_cache, op.value_cache);
    law_first_element_is_at_the_origin(kc);
    law_first_element_is_at_the_origin(vc);
    law_first_element_is_at_the_origin(q);
    law_first_element_is_at_the_origin(op.block_tables);
    law_first_element_is_at_the_origin(op.context_lens);
    lemma_points(op.alibi_slopes);
    lemma_points(op.k_scale);
    lemma_points(op.v_scale);
    lemma_points(op.k_res);
    lemma_points(op.v_res);
    lemma_points(op.sinks);
    assert forall|b: int, h: int| #[trigger]
        address_of(kc, head_start(5, b, h)) == launch.key_cache + (b * launch.kv_block_stride + h
            * launch.kv_head_stride) * kc.dtype.bytes() by {
        assert(head_start(5, b, h) =~= seq![b, h, 0, 0, 0]);
        lemma_dot5(b, h, 0, 0, 0, kc.layout.stride@);
        lemma_nothing(kc.layout.stride@);
        lemma_reached(
            kc,
            head_start(5, b, h),
            b * launch.kv_block_stride + h * launch.kv_head_stride,
        );
    }
    assert forall|b: int, h: int| #[trigger]
        address_of(vc, head_start(4, b, h)) == launch.value_cache + (b * launch.v_block_stride + h
            * launch.v_head_stride) * vc.dtype.bytes() by {
        assert(head_start(4, b, h) =~= seq![b, h, 0, 0]);
        lemma_dot4(b, h, 0, 0, vc.layout.stride@);
        lemma_nothing(vc.layout.stride@);
        lemma_reached(
            vc,
            head_start(4, b, h),
            b * launch.v_block_stride + h * launch.v_head_stride,
        );
    }
    assert forall|s: int| #[trigger]
        address_of(q, row_start(3, s)) == launch.q + (s * launch.q_stride) * q.dtype.bytes() by {
        assert(row_start(3, s) =~= seq![s, 0, 0]);
        lemma_dot3(s, 0, 0, q.layout.stride@);
        lemma_nothing(q.layout.stride@);
        lemma_reached(q, row_start(3, s), s * launch.q_stride);
    }
}

pub(crate) proof fn lemma_points(tensor: Option<TensorInfo>)
    requires
        optional_wf(tensor),
    ensures
        points_at(optional_first(tensor), tensor),
{
    if let Some(tensor) = tensor {
        law_first_element_is_at_the_origin(tensor);
    }
}

/// Whether the counts of a launch are those of its operands: every sequence of the
/// queries has a row of the block tables and a length, both caches have blocks of
/// `block_size` slots for `num_kv_heads` heads of `head_size` elements, and the
/// context is what the tables can hold, cut at the stated maximum.
pub open spec fn counts_operands(
    launch: AttentionLaunch,
    op: PagedAttention,
    q: TensorInfo,
) -> bool {
    let (kc, vc) = (op.key_cache.dims(), op.value_cache.dims());
    &&& q.dims() == seq![launch.num_seqs, launch.num_heads, launch.head_size]
    &&& launch.out_elements == launch.num_seqs * launch.num_heads * launch.head_size
    &&& op.block_tables.dims() == seq![launch.num_seqs, launch.max_num_blocks_per_seq]
    &&& op.context_lens.dims() == seq![launch.num_seqs]
    &&& kc[0] == vc[0]
    &&& kc[1] == launch.num_kv_heads && vc[1] == launch.num_kv_heads
    &&& kc[3] == launch.block_size
    &&& vc[2] == launch.head_size
    &&& op.v_quant != Some(BlockQuantKind::Q4_0) ==> vc[3] == launch.block_size
    &&& op.v_quant == Some(BlockQuantKind::Q4_0) ==> vc[3] == launch.block_size / 2
    &&& op.k_quant != Some(BlockQuantKind::Q4_0) ==> kc[2] == launch.head_size / kc[4]
    &&& op.k_quant == Some(BlockQuantKind::Q4_0) ==> kc[2] == launch.head_size / 32
    &&& launch.max_context_len <= op.max_context_len
    &&& launch.max_context_len <= launch.max_num_blocks_per_seq * launch.block_size
    &&& launch.max_context_len == op.max_context_len || launch.max_context_len
        == launch.max_num_blocks_per_seq * launch.block_size
    &&& launch.dtype == q.dtype
}

pub proof fn law_launch_counts_operands(op: PagedAttention, q: TensorInfo, fp8: bool)
    requires
        op.wf(),
        q.wf(),
        attention_refusal(op, q, fp8).message is None,
        attention_in_range(op, q, fp8),
    ensures
        counts_operands(attention_launch(op, q), op, q),
{
    let d = q.dims();
    assert(d =~= seq![d[0], d[1], d[2]]);
    assert(elements(d) == d[0] * d[1] * d[2]) by {
        reveal_with_fuel(elements, 4);
        assert(d.drop_last() =~= seq![d[0], d[1]]);
        assert(seq![d[0], d[1]].drop_last() =~= seq![d[0]]);
        assert(seq![d[0]].drop_last() =~= Seq::<usize>::empty());
        assert(1 * d[0] == d[0]);
    }
    let t = op.block_tables.dims();
    assert(t =~= seq![t[0], t[1]]);
    let c = op.context_lens.dims();
    assert(c =~= seq![c[0]]);
    law_partitions_cover_context(op);
}

/// Whether the kernel of a launch fits its counts. A context is taken whole where
/// one partition holds it or heads alone keep the device busy, and a partition is
/// made of whole blocks. Else partitions of 512 tokens cover it, the last of them
/// not in vain, and the workspace has room for what each of them gives.
pub open spec fn kernel_fits(launch: AttentionLaunch) -> bool {
    let context = launch.max_context_len as int;
    let rows = launch.num_seqs * launch.num_heads;
    let whole = ((0 < context && context <= 512) || rows > 512) && 512int % (
    launch.block_size as int) == 0;
    match launch.kernel {
        AttentionKernel::V1 => whole,
        AttentionKernel::V2 { partitions, workspace } => {
            &&& !whole
            &&& context <= partitions * 512 < context + 512
            &&& workspace.tmp_out == 0
            &&& workspace.tmp_out + rows * partitions * launch.head_size * launch.dtype.bytes()
                <= workspace.exp_sums
            &&& workspace.exp_sums + rows * partitions * 4 <= workspace.max_logits
            &&& workspace.max_logits + rows * partitions * 4 <= workspace.bytes
            &&& workspace.bytes < rows * partitions * launch.head_size * launch.dtype.bytes() + 2
                * (rows * partitions * 4) + 32
        },
    }
}

pub proof fn law_kernel_fits(op: PagedAttention, q: TensorInfo, fp8: bool)
    requires
        op.wf(),
        q.wf(),
        attention_refusal(op, q, fp8).message is None,
        attention_in_range(op, q, fp8),
        op.key_cache.dims()[3] > 0,
    ensures
        kernel_fits(attention_launch(op, q)),
{
    let launch = attention_launch(op, q);
    let context = effective_context(op);
    law_launch_counts_operands(op, q, fp8);
    law_partitions_cover_context(op);
    crate::arith::law_ceil_div(context, 512);
    assert(context_partitions(op) == 1 <==> 0 < context <= 512);
    if !takes_whole(op, q) {
        let (rows, parts) = (query_rows(q), context_partitions(op));
        let (head, elem) = (q.dims()[2] as nat, q.dtype.bytes());
        law_workspace_parts(rows, parts, head, elem);
        law_align_up(tmp_out_bytes(rows, parts, head, elem), 16);
        law_align_up(
            exp_sums_offset(rows, parts, head, elem) + exp_sums_bytes(rows, parts),
            16,
        );
        assert(parts <= usize::MAX) by {
            assert(parts * 512 < context + 512);
        }
    }
}

/// The caches are launched with the codes of what they hold.
pub proof fn law_launch_tells_payloads(op: PagedAttention, q: TensorInfo, fp8: bool)
    requires
        attention_refusal(op, q, fp8).message is None,
    ensures
        ({
            let launch = attention_launch(op, q);
            &&& side_code(op.key_cache.dtype, op.k_quant) == Some(launch.k_cache_dtype)
            &&& side_code(op.value_cache.dtype, op.v_quant) == Some(launch.v_cache_dtype)
            &&& op.k_quant is Some <==> op.key_cache.dtype == DType::U8
            &&& op.v_quant is Some <==> op.value_cache.dtype == DType::U8
            &&& op.k_quant is None ==> op.key_cache.dtype == q.dtype || op.key_cache.dtype
                == DType::F8E4M3
            &&& op.v_quant is None ==> op.value_cache.dtype == q.dtype || op.value_cache.dtype
                == DType::F8E4M3
            &&& launch.k_cache_dtype == 3 || launch.v_cache_dtype == 3 ==> fp8
        }),
{
}

/// Whether the operands of an attention are of the kinds that it takes: native
/// queries, caches of the same elements or of fp8 or bytes with the scales that
/// go with them, tables of `u32`, all on the device.
pub open spec fn operands_are_taken(op: PagedAttention, q: TensorInfo, fp8: bool) -> bool {
    &&& q.dtype == DType::F16 || q.dtype == DType::BF16 || q.dtype == DType::F32
    &&& q.layout.rank() == 3 && op.key_cache.layout.rank() == 5 && op.value_cache.layout.rank()
        == 4
    &&& q.place == Place::Cuda && op.key_cache.place == Place::Cuda && op.value_cache.place
        == Place::Cuda && op.block_tables.place == Place::Cuda && op.context_lens.place
        == Place::Cuda
    &&& op.block_tables.dtype == DType::U32 && op.context_lens.dtype == DType::U32
    &&& side_is_taken(op.key_cache.dtype, op.k_quant, op.k_scale, q.dtype, fp8)
    &&& side_is_taken(op.value_cache.dtype, op.v_quant, op.v_scale, q.dtype, fp8)
    &&& is_on_device(op.alibi_slopes, DType::F32)
    &&& is_on_device(op.k_scale, DType::F32)
    &&& is_on_device(op.v_scale, DType::F32)
    &&& is_on_device(op.k_res, DType::U8)
    &&& is_on_device(op.v_res, DType::U8)
    &&& op.sinks matches Some(sinks) ==> sinks.place == Place::Cuda
}

pub open spec fn side_is_taken(
    cache: DType,
    kind: Option<BlockQuantKind>,
    scale: Option<TensorInfo>,
    native: DType,
    fp8: bool,
) -> bool {
    match kind {
        Some(_) => cache == DType::U8 && scale is Some,
        None => if cache == DType::F8E4M3 {
            fp8 && scale is Some && elements(scale->0.dims()) == 1
        } else {
            cache == native && scale is None
        },
    }
}

pub open spec fn is_on_device(tensor: Option<TensorInfo>, dtype: DType) -> bool {
    tensor matches Some(tensor) ==> tensor.place == Place::Cuda && tensor.dtype == dtype
}

/// Attention is refused unless its operands are of the kinds that it takes and
/// their shapes agree, and for no other reason.
pub proof fn law_attention_is_refused_for_reasons(op: PagedAttention, q: TensorInfo, fp8: bool)
    ensures
        attention_refusal(op, q, fp8).message is None <==> {
            let (d, kc, vc) = (q.dims(), op.key_cache.dims(), op.value_cache.dims());
            &&& operands_are_taken(op, q, fp8)
            &&& seq![64usize, 80, 96, 112, 128, 192, 256, 512].contains(d[2])
            &&& op.block_tables.layout.rank() == 2 && op.block_tables.dims()[0] == d[0]
            &&& op.context_lens.layout.rank() == 1 && op.context_lens.dims()[0] == d[0]
            &&& kc[2] == if op.k_quant == Some(BlockQuantKind::Q4_0) {
                d[2] / 32
            } else {
                d[2] / kc[4]
            }
            &&& vc[0] == kc[0] && vc[1] == kc[1] && vc[2] == d[2]
            &&& vc[3] == if op.v_quant == Some(BlockQuantKind::Q4_0) {
                kc[3] / 2
            } else {
                kc[3]
            }
        },
{
    let (d, kc, vc) = (q.dims(), op.key_cache.dims(), op.value_cache.dims());
    let sizes = seq![64usize, 80, 96, 112, 128, 192, 256, 512];
    assert(sizes.contains(d[2]) <==> has_kernel(d[2])) by {
        assert(sizes[0] == 64 && sizes[1] == 80 && sizes[2] == 96 && sizes[3] == 112);
        assert(sizes[4] == 128 && sizes[5] == 192 && sizes[6] == 256 && sizes[7] == 512);
    }
    let want = seq![kc[0], kc[1], d[2], value_slots(op)];
    if vc.len() == 4 {
        assert(vc == want <==> vc[0] == want[0] && vc[1] == want[1] && vc[2] == want[2] && vc[3]
            == want[3]) by {
            if vc[0] == want[0] && vc[1] == want[1] && vc[2] == want[2] && vc[3] == want[3] {
                assert(vc =~= want);
            }
        }
    }
    assert(operands_refusal(op, q, fp8).message is None <==> operands_are_taken(op, q, fp8));
}

/// Sinks are widened element by element: those of `f32` are as they are, and of any other
/// the shape stays and each element that `f32` tells is told.
pub proof fn law_sinks_are_widened(wide: Tensor, sinks: Tensor, index: Seq<int>)
    requires
        is_widened(wide, sinks),
        in_shape(index, tensor_dims(sinks)),
    ensures
        tensor_type(sinks) == "F32"@ ==> wide == sinks,
        tensor_type(wide) == "F32"@,
        tensor_dims(wide) == tensor_dims(sinks),
        tensor_f32(sinks, index) is Some ==> tensor_cell(wide, index) == tensor_f32(sinks, index)->0,
{
}

/// An attention that is not refused is in range exactly where the elements of its queries
/// and the slots of its tables are counted, blocks have a size where partitions are
/// divided into them, and where it is partitioned the workspace is counted.
pub proof fn law_attention_is_in_range(op: PagedAttention, q: TensorInfo, fp8: bool)
    requires
        attention_refusal(op, q, fp8).message is None,
        op.key_cache.dims()[4] > 0,
        op.key_cache.dims()[3] > 0,
    ensures
        attention_in_range(op, q, fp8) <==> {
            let slots = op.block_tables.dims()[1] * op.key_cache.dims()[3];
            &&& elements(q.dims()) <= usize::MAX
            &&& slots <= usize::MAX
            &&& attention_kernel(op, q) is V2 ==> workspace_bytes(
                query_rows(q),
                context_partitions(op),
                q.dims()[2] as nat,
                q.dtype.bytes(),
            ) <= usize::MAX
        },
{
}

/// What is refused for its type, its rank or its shape is told: by the type; by the name of
/// the tensor, and then its layout; by the shape of the key cache, and then that of the value
/// cache; and by the name and the shape that a tensor has, and then what was expected.
pub proof fn law_refusals_tell_what_is_odd(
    dtype: DType,
    name: Seq<char>,
    stated: Seq<char>,
    layout: Layout,
    key_cache: Seq<usize>,
    value_cache: Seq<usize>,
    expected: Seq<char>,
)
    ensures
        says(no_code(dtype), "cache dtype "@ + dtype.name_text(), " is not supported"@),
        says(
            rank_message(name, stated, layout),
            "paged-attention expects `"@ + name,
            stated + layout.text() + ")"@,
        ),
        says(
            cache_mismatch(key_cache, value_cache),
            "shape mismatch key_cache "@ + bracketed(key_cache),
            " and value_cache "@ + bracketed(value_cache),
        ),
        says(
            shape_mismatch(name, key_cache, expected),
            "shape mismatch "@ + name + " "@ + bracketed(key_cache),
            ", expected "@ + expected,
        ),
{
    lemma_names("cache dtype "@, dtype.name_text(), " is not supported"@);
    lemma_compares(
        "paged-attention expects `"@,
        name,
        "` tensor to be of rank "@,
        stated + layout.text(),
        ")"@,
    );
    assert("paged-attention expects `"@ + name + "` tensor to be of rank "@ + (stated
        + layout.text()) + ")"@ =~= rank_message(name, stated, layout));
    lemma_names(
        "shape mismatch key_cache "@,
        bracketed(key_cache),
        " and value_cache "@ + bracketed(value_cache),
    );
    assert("shape mismatch key_cache "@ + bracketed(key_cache) + (" and value_cache "@ + bracketed(
        value_cache,
    )) =~= cache_mismatch(key_cache, value_cache));
    lemma_names("shape mismatch "@ + name + " "@, bracketed(key_cache), ", expected "@ + expected);
    assert("shape mismatch "@ + name + " "@ + bracketed(key_cache) + (", expected "@ + expected)
        =~= shape_mismatch(name, key_cache, expected));
}

} // verus!

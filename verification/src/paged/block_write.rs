//! Writes of keys and values into block-quantized caches.
use vstd::prelude::*;
use vstd::string::*;

use crate::paged::attention::{
    cache_mismatch, cache_mismatch_fault, check_optional, is_native, optional_check, optional_wf,
    shape_mismatch, shape_mismatch_fault,
};
use crate::paged::cache_write::{
    cache_launch, check_devices, check_rows, check_slots, devices_refusal, has_rows,
    law_launch_writes_operands, launch_write, narrow_stride, rows_refusal, same_but_key_payload,
    same_but_value_payload, slots_refusal, stride_check, writes_operands, CacheLaunch, CacheWrite,
    Rows,
};
use crate::paged::cache_input::cache_input_refusal;
use crate::paged::info::{
    check_dtype, check_rank, dtype_check, elements, rank_check, same_dims, DType, Place, TensorInfo,
};
use crate::paged::quant::BlockQuantKind;
use crate::text::{
    answer, bracketed, bracketed_text, dec, decimal, outcome, parenthesised, parenthesised_text,
    Fault, Refusal,
};

verus! {

/// The bytes of a chunk of the key cache.
pub const BLOCK_X: usize = 16;

/// The elements that share one scale.
pub const BLOCK_ELEMENTS: usize = 32;

/// The largest head that the kernels take.
pub const BLOCK_MAX_HEAD: usize = 512;

// The words of the two formats.

pub open spec fn op_name(kind: BlockQuantKind) -> Seq<char> {
    match kind {
        BlockQuantKind::Q8_0 => "reshape_and_cache_q8"@,
        BlockQuantKind::Q4_0 => "reshape_and_cache_q4"@,
    }
}

fn op_word(kind: BlockQuantKind) -> (word: &'static str)
    ensures
        word@ == op_name(kind),
{
    match kind {
        BlockQuantKind::Q8_0 => "reshape_and_cache_q8",
        BlockQuantKind::Q4_0 => "reshape_and_cache_q4",
    }
}

pub open spec fn payload_name(kind: BlockQuantKind) -> Seq<char> {
    match kind {
        BlockQuantKind::Q8_0 => " requires an int8 (U8) "@,
        BlockQuantKind::Q4_0 => " requires a nibble (U8) "@,
    }
}

fn payload_word(kind: BlockQuantKind) -> (word: &'static str)
    ensures
        word@ == payload_name(kind),
{
    match kind {
        BlockQuantKind::Q8_0 => " requires an int8 (U8) ",
        BlockQuantKind::Q4_0 => " requires a nibble (U8) ",
    }
}

/// The name of a sidecar in messages about devices.
pub open spec fn sidecar_name(kind: BlockQuantKind, name: Seq<char>) -> Seq<char> {
    match kind {
        BlockQuantKind::Q8_0 => "Q8 "@ + name,
        BlockQuantKind::Q4_0 => "Q4 "@ + name,
    }
}

fn sidecar_word(kind: BlockQuantKind, name: &str) -> (word: String)
    ensures
        word@ == sidecar_name(kind, name@),
{
    match kind {
        BlockQuantKind::Q8_0 => String::from_str("Q8 ").concat(name),
        BlockQuantKind::Q4_0 => String::from_str("Q4 ").concat(name),
    }
}

// The shapes of the two formats.

/// The chunks that a head takes in the key cache.
pub open spec fn block_chunks(kind: BlockQuantKind, head_size: usize) -> usize {
    match kind {
        BlockQuantKind::Q8_0 => head_size / 16,
        BlockQuantKind::Q4_0 => head_size / 32,
    }
}

/// The bytes that the slots of a block take in the value cache.
pub open spec fn block_slots(kind: BlockQuantKind, block_size: usize) -> usize {
    match kind {
        BlockQuantKind::Q8_0 => block_size,
        BlockQuantKind::Q4_0 => block_size / 2,
    }
}

/// The scales of the keys: one for every 32 elements of every slot.
pub open spec fn k_scales_shape(w: CacheWrite) -> Seq<usize> {
    let kc = w.key_cache.dims();
    seq![kc[0], w.heads(), kc[3], w.head_size() / 32]
}

/// The scales of the values, with slots last.
pub open spec fn v_scales_shape(w: CacheWrite) -> Seq<usize> {
    let kc = w.key_cache.dims();
    seq![kc[0], w.heads(), w.head_size() / 32, kc[3]]
}

// What is refused.

pub open spec fn cache_dtype_message(
    kind: BlockQuantKind,
    side: Seq<char>,
    got: DType,
) -> Seq<char> {
    op_name(kind) + payload_name(kind) + side + " cache, got "@ + got.name_text()
}

/// The refusal of a sidecar whose elements are not of the wanted type.
pub open spec fn sidecar_dtype(
    kind: BlockQuantKind,
    tensor: Option<TensorInfo>,
    wanted: DType,
    article: Seq<char>,
    name: Seq<char>,
) -> Result<(), Seq<char>> {
    match tensor {
        None => Ok(()),
        Some(tensor) => if tensor.dtype == wanted {
            Ok(())
        } else {
            Err(op_name(kind) + article + name + ", got "@ + tensor.dtype.name_text())
        },
    }
}

/// What is refused for the types of the operands.
pub open spec fn block_types_refusal(
    kind: BlockQuantKind,
    w: CacheWrite,
    k_res: Option<TensorInfo>,
    v_res: Option<TensorInfo>,
) -> Refusal {
    Refusal::none().unless(
        is_native(w.key.dtype),
        "dtype "@ + w.key.dtype.name_text() + " is not supported"@,
    ).unless(
        w.write_k ==> w.key_cache.dtype == DType::U8,
        cache_dtype_message(kind, "K"@, w.key_cache.dtype),
    ).unless(
        w.write_v ==> w.value_cache.dtype == DType::U8,
        cache_dtype_message(kind, "V"@, w.value_cache.dtype),
    ).or(sidecar_dtype(kind, w.k_scale, DType::F32, " requires f32 "@, "k_scales"@)).or(
        sidecar_dtype(kind, w.v_scale, DType::F32, " requires f32 "@, "v_scales"@),
    ).unless(
        w.write_k ==> w.k_scale is Some,
        op_name(kind) + " needs k_scales to write K"@,
    ).unless(
        w.write_v ==> w.v_scale is Some,
        op_name(kind) + " needs v_scales to write V"@,
    ).or(sidecar_dtype(kind, k_res, DType::U8, " requires u8 "@, "k_res"@)).or(
        sidecar_dtype(kind, v_res, DType::U8, " requires u8 "@, "v_res"@),
    )
}

/// The refusal of a sidecar of the wrong shape.
pub open spec fn sidecar_shape(
    tensor: Option<TensorInfo>,
    name: Seq<char>,
    shape: Seq<usize>,
) -> Result<(), Seq<char>> {
    match tensor {
        None => Ok(()),
        Some(tensor) => if tensor.dims() == shape {
            Ok(())
        } else {
            Err(shape_mismatch(name, tensor.dims(), bracketed(shape)))
        },
    }
}

/// What is refused of the key side, where it is written.
pub open spec fn block_keys_refusal(
    so_far: Refusal,
    kind: BlockQuantKind,
    w: CacheWrite,
    k_res: Option<TensorInfo>,
) -> Refusal {
    let kc = w.key_cache.dims();
    let chunks = block_chunks(kind, w.head_size());
    if !w.write_k {
        so_far
    } else {
        so_far.unless(
            kc[4] == 16,
            op_name(kind) + " requires x = 16 packing, got "@ + dec(kc[4] as nat),
        ).unless(
            kc[1] == w.heads() && kc[2] == chunks,
            shape_mismatch(
                "key_cache"@,
                kc,
                parenthesised(seq![kc[0], w.heads(), chunks, kc[3], kc[4]]),
            ),
        ).or(sidecar_shape(w.k_scale, "k_scales"@, k_scales_shape(w))).or(
            sidecar_shape(k_res, "k_res"@, k_scales_shape(w).push(4)),
        )
    }
}

/// What is refused of the value side, where it is written.
pub open spec fn block_values_refusal(
    so_far: Refusal,
    kind: BlockQuantKind,
    w: CacheWrite,
    v_res: Option<TensorInfo>,
) -> Refusal {
    let kc = w.key_cache.dims();
    let vc = w.value_cache.dims();
    if !w.write_v {
        so_far
    } else {
        so_far.or(rank_check(4, vc)).unless(
            vc == seq![kc[0], w.heads(), w.head_size(), block_slots(kind, kc[3])],
            cache_mismatch(kc, vc),
        ).or(sidecar_shape(w.v_scale, "v_scales"@, v_scales_shape(w))).or(
            sidecar_shape(v_res, "v_res"@, v_scales_shape(w).push(4)),
        ).unless(
            kind == BlockQuantKind::Q4_0 ==> kc[3] % 2 == 0,
            op_name(kind) + " requires an even block_size, got "@ + dec(kc[3] as nat),
        )
    }
}

/// What is refused for the shapes of the operands.
pub open spec fn block_shapes_refusal(
    so_far: Refusal,
    kind: BlockQuantKind,
    w: CacheWrite,
    k_res: Option<TensorInfo>,
    v_res: Option<TensorInfo>,
) -> Refusal {
    let heads = rows_refusal(devices_refusal(so_far, w), w, op_name(kind)).unless(
        w.head_size() % 32 == 0 && w.head_size() <= 512,
        op_name(kind) + " requires head_size % 32 == 0 and <= 512, got "@ + dec(
            w.head_size() as nat,
        ),
    ).or(rank_check(5, w.key_cache.dims()));
    let keys = block_keys_refusal(heads, kind, w, k_res);
    slots_refusal(block_values_refusal(keys, kind, w, v_res), w)
}

/// All that is refused.
pub open spec fn block_refusal(
    kind: BlockQuantKind,
    w: CacheWrite,
    k_res: Option<TensorInfo>,
    v_res: Option<TensorInfo>,
) -> Refusal {
    let types = block_types_refusal(kind, w, k_res, v_res);
    block_shapes_refusal(types, kind, w, k_res, v_res).or(
        dtype_check(DType::I64, w.slot_mapping.dtype),
    ).or(optional_check(w.k_scale, sidecar_name(kind, "k_scales"@), DType::F32)).or(
        optional_check(w.v_scale, sidecar_name(kind, "v_scales"@), DType::F32),
    ).or(stride_check(w.key_stride())).or(stride_check(w.value_stride())).or(
        dtype_check(w.key.dtype, w.value.dtype),
    ).or(optional_check(k_res, sidecar_name(kind, "k_res"@), DType::U8)).or(
        optional_check(v_res, sidecar_name(kind, "v_res"@), DType::U8),
    )
}

// The checks.

fn op_fault(kind: BlockQuantKind, text: &str) -> (fault: Fault)
    ensures
        fault@ == op_name(kind) + text@,
{
    Fault::new(String::from_str(op_word(kind)).concat(text))
}

fn op_number_fault(kind: BlockQuantKind, text: &str, number: usize) -> (fault: Fault)
    ensures
        fault@ == op_name(kind) + text@ + dec(number as nat),
{
    Fault::new(String::from_str(op_word(kind)).concat(text).concat(decimal(number as u64).as_str()))
}

fn cache_dtype_fault(kind: BlockQuantKind, side: &str, got: DType) -> (fault: Fault)
    ensures
        fault@ == cache_dtype_message(kind, side@, got),
{
    Fault::new(
        String::from_str(op_word(kind)).concat(payload_word(kind)).concat(side).concat(
            " cache, got ",
        ).concat(got.name()),
    )
}

fn check_sidecar_dtype(
    kind: BlockQuantKind,
    tensor: &Option<TensorInfo>,
    wanted: DType,
    article: &str,
    name: &str,
) -> (r: Result<(), Fault>)
    ensures
        outcome(r) == sidecar_dtype(kind, *tensor, wanted, article@, name@),
{
    if let Some(tensor) = tensor {
        if tensor.dtype != wanted {
            return Err(
                Fault::new(
                    String::from_str(op_word(kind)).concat(article).concat(name).concat(
                        ", got ",
                    ).concat(tensor.dtype.name()),
                ),
            );
        }
    }
    Ok(())
}

fn check_block_types(
    kind: BlockQuantKind,
    w: &CacheWrite,
    k_res: &Option<TensorInfo>,
    v_res: &Option<TensorInfo>,
) -> (r: Result<(), Fault>)
    ensures
        match r {
            Ok(()) => block_types_refusal(kind, *w, *k_res, *v_res).message is None,
            Err(fault) => block_types_refusal(kind, *w, *k_res, *v_res).message == Some(fault@),
        },
{
    if w.key.dtype != DType::F16 && w.key.dtype != DType::BF16 && w.key.dtype != DType::F32 {
        return Err(
            Fault::new(
                String::from_str("dtype ").concat(w.key.dtype.name()).concat(" is not supported"),
            ),
        );
    }
    if w.write_k && w.key_cache.dtype != DType::U8 {
        return Err(cache_dtype_fault(kind, "K", w.key_cache.dtype));
    }
    if w.write_v && w.value_cache.dtype != DType::U8 {
        return Err(cache_dtype_fault(kind, "V", w.value_cache.dtype));
    }
    check_sidecar_dtype(kind, &w.k_scale, DType::F32, " requires f32 ", "k_scales")?;
    check_sidecar_dtype(kind, &w.v_scale, DType::F32, " requires f32 ", "v_scales")?;
    if w.write_k && w.k_scale.is_none() {
        return Err(op_fault(kind, " needs k_scales to write K"));
    }
    if w.write_v && w.v_scale.is_none() {
        return Err(op_fault(kind, " needs v_scales to write V"));
    }
    check_sidecar_dtype(kind, k_res, DType::U8, " requires u8 ", "k_res")?;
    check_sidecar_dtype(kind, v_res, DType::U8, " requires u8 ", "v_res")
}

fn check_sidecar_shape(tensor: &Option<TensorInfo>, name: &str, shape: &Vec<usize>) -> (r: Result<
    (),
    Fault,
>)
    ensures
        outcome(r) == sidecar_shape(*tensor, name@, shape@),
{
    if let Some(tensor) = tensor {
        if !same_dims(tensor.layout.dims.as_slice(), shape.as_slice()) {
            return Err(
                shape_mismatch_fault(
                    name,
                    &tensor.layout.dims,
                    bracketed_text(shape.as_slice()).as_str(),
                ),
            );
        }
    }
    Ok(())
}

fn check_block_keys(
    kind: BlockQuantKind,
    w: &CacheWrite,
    rows: &Rows,
    k_res: &Option<TensorInfo>,
) -> (r: Result<(), Fault>)
    requires
        rows.of(*w),
        w.key_cache.layout.rank() == 5,
    ensures
        match r {
            Ok(()) => block_keys_refusal(Refusal::none(), kind, *w, *k_res).message is None,
            Err(fault) => block_keys_refusal(Refusal::none(), kind, *w, *k_res).message == Some(
                fault@,
            ),
        },
{
    if !w.write_k {
        return Ok(());
    }
    let kc: &Vec<usize> = &w.key_cache.layout.dims;
    if kc[4] != BLOCK_X {
        return Err(op_number_fault(kind, " requires x = 16 packing, got ", kc[4]));
    }
    let chunks: usize = match kind {
        BlockQuantKind::Q8_0 => rows.head_size / BLOCK_X,
        BlockQuantKind::Q4_0 => rows.head_size / BLOCK_ELEMENTS,
    };
    if kc[1] != rows.heads || kc[2] != chunks {
        let mut expected: Vec<usize> = Vec::new();
        expected.push(kc[0]);
        expected.push(rows.heads);
        expected.push(chunks);
        expected.push(kc[3]);
        expected.push(kc[4]);
        assert(expected@ =~= seq![kc@[0], w.heads(), chunks, kc@[3], kc@[4]]);
        return Err(
            shape_mismatch_fault(
                "key_cache",
                kc,
                parenthesised_text(expected.as_slice()).as_str(),
            ),
        );
    }
    let mut shape: Vec<usize> = Vec::new();
    shape.push(kc[0]);
    shape.push(rows.heads);
    shape.push(kc[3]);
    shape.push(rows.head_size / BLOCK_ELEMENTS);
    assert(shape@ =~= k_scales_shape(*w));
    check_sidecar_shape(&w.k_scale, "k_scales", &shape)?;
    shape.push(4);
    check_sidecar_shape(k_res, "k_res", &shape)
}

fn check_block_values(
    kind: BlockQuantKind,
    w: &CacheWrite,
    rows: &Rows,
    v_res: &Option<TensorInfo>,
) -> (r: Result<(), Fault>)
    requires
        rows.of(*w),
        w.key_cache.layout.rank() == 5,
    ensures
        match r {
            Ok(()) => block_values_refusal(Refusal::none(), kind, *w, *v_res).message is None,
            Err(fault) => block_values_refusal(Refusal::none(), kind, *w, *v_res).message == Some(
                fault@,
            ),
        },
{
    if !w.write_v {
        return Ok(());
    }
    let kc: &Vec<usize> = &w.key_cache.layout.dims;
    let vc: &Vec<usize> = &w.value_cache.layout.dims;
    check_rank(4, vc)?;
    let slots: usize = match kind {
        BlockQuantKind::Q8_0 => kc[3],
        BlockQuantKind::Q4_0 => kc[3] / 2,
    };
    let mut expected: Vec<usize> = Vec::new();
    expected.push(kc[0]);
    expected.push(rows.heads);
    expected.push(rows.head_size);
    expected.push(slots);
    assert(expected@ =~= seq![kc@[0], w.heads(), w.head_size(), slots]);
    if !same_dims(vc.as_slice(), expected.as_slice()) {
        return Err(cache_mismatch_fault(kc, vc));
    }
    let mut shape: Vec<usize> = Vec::new();
    shape.push(kc[0]);
    shape.push(rows.heads);
    shape.push(rows.head_size / BLOCK_ELEMENTS);
    shape.push(kc[3]);
    assert(shape@ =~= v_scales_shape(*w));
    check_sidecar_shape(&w.v_scale, "v_scales", &shape)?;
    shape.push(4);
    check_sidecar_shape(v_res, "v_res", &shape)?;
    if kind == BlockQuantKind::Q4_0 && kc[3] % 2 != 0 {
        return Err(op_number_fault(kind, " requires an even block_size, got ", kc[3]));
    }
    Ok(())
}

fn check_block_shapes(
    kind: BlockQuantKind,
    w: &CacheWrite,
    k_res: &Option<TensorInfo>,
    v_res: &Option<TensorInfo>,
) -> (rows: Result<Rows, Fault>)
    requires
        w.wf(),
    ensures
        match rows {
            Ok(rows) => {
                &&& block_shapes_refusal(Refusal::none(), kind, *w, *k_res, *v_res).message is None
                &&& rows.of(*w)
                &&& w.key_cache.layout.rank() == 5
            },
            Err(fault) => block_shapes_refusal(
                Refusal::none(),
                kind,
                *w,
                *k_res,
                *v_res,
            ).message == Some(fault@),
        },
{
    check_devices(w)?;
    let rows: Rows = check_rows(w, op_word(kind))?;
    if rows.head_size % BLOCK_ELEMENTS != 0 || rows.head_size > BLOCK_MAX_HEAD {
        return Err(
            op_number_fault(
                kind,
                " requires head_size % 32 == 0 and <= 512, got ",
                rows.head_size,
            ),
        );
    }
    check_rank(5, &w.key_cache.layout.dims)?;
    check_block_keys(kind, w, &rows, k_res)?;
    check_block_values(kind, w, &rows, v_res)?;
    check_slots(w, rows.tokens)?;
    Ok(rows)
}

fn reshape_and_cache_blocks(
    kind: BlockQuantKind,
    w: &CacheWrite,
    k_res: &Option<TensorInfo>,
    v_res: &Option<TensorInfo>,
) -> (launch: Result<CacheLaunch, Fault>)
    requires
        w.wf(),
        optional_wf(*k_res),
        optional_wf(*v_res),
    ensures
        outcome(launch) == answer(
            block_refusal(kind, *w, *k_res, *v_res),
            cache_launch(*w, kind.code(), kind.code(), *k_res, *v_res),
        ),
        launch matches Ok(launch) ==> writes_operands(launch, *w, *k_res, *v_res),
{
    check_block_types(kind, w, k_res, v_res)?;
    let rows: Rows = check_block_shapes(kind, w, k_res, v_res)?;
    check_dtype(DType::I64, w.slot_mapping.dtype)?;
    check_optional(&w.k_scale, sidecar_word(kind, "k_scales").as_str(), DType::F32)?;
    check_optional(&w.v_scale, sidecar_word(kind, "v_scales").as_str(), DType::F32)?;
    let key_stride: i32 = narrow_stride(rows.key_stride)?;
    let value_stride: i32 = narrow_stride(rows.value_stride)?;
    check_dtype(w.key.dtype, w.value.dtype)?;
    check_optional(k_res, sidecar_word(kind, "k_res").as_str(), DType::U8)?;
    check_optional(v_res, sidecar_word(kind, "v_res").as_str(), DType::U8)?;
    let code: u32 = kind.cache_dtype();
    proof {
        law_launch_writes_operands(*w, code, code, *k_res, *v_res);
    }
    Ok(launch_write(w, &rows, (key_stride, value_stride), (code, code), k_res, v_res))
}

/// Writes keys and values as eight-bit blocks, with one scale for every 32
/// elements. A side that is not written may have no scales, and its cache is
/// not looked at beyond its shape.
pub fn reshape_and_cache_q8(w: &CacheWrite) -> (launch: Result<CacheLaunch, Fault>)
    requires
        w.wf(),
    ensures
        outcome(launch) == answer(
            block_refusal(BlockQuantKind::Q8_0, *w, None, None),
            cache_launch(*w, 4, 4, None, None),
        ),
        launch matches Ok(launch) ==> writes_operands(launch, *w, None, None),
{
    reshape_and_cache_blocks(BlockQuantKind::Q8_0, w, &None, &None)
}

/// Writes keys and values as four-bit blocks, with one scale for every 32
/// elements and, if they are there, residual bits. A side that is not written
/// may have no scales, and its cache is not looked at beyond its shape.
pub fn reshape_and_cache_q4(
    w: &CacheWrite,
    k_res: &Option<TensorInfo>,
    v_res: &Option<TensorInfo>,
) -> (launch: Result<CacheLaunch, Fault>)
    requires
        w.wf(),
        optional_wf(*k_res),
        optional_wf(*v_res),
    ensures
        outcome(launch) == answer(
            block_refusal(BlockQuantKind::Q4_0, *w, *k_res, *v_res),
            cache_launch(*w, 5, 5, *k_res, *v_res),
        ),
        launch matches Ok(launch) ==> writes_operands(launch, *w, *k_res, *v_res),
{
    reshape_and_cache_blocks(BlockQuantKind::Q4_0, w, k_res, v_res)
}

/// A key cache that is not written may hold anything.
pub proof fn law_masked_block_keys_are_ignored(
    kind: BlockQuantKind,
    a: CacheWrite,
    b: CacheWrite,
    k_res: Option<TensorInfo>,
    v_res: Option<TensorInfo>,
)
    requires
        same_but_key_payload(a, b),
        !a.write_k,
    ensures
        block_refusal(kind, a, k_res, v_res) == block_refusal(kind, b, k_res, v_res),
        cache_launch(a, kind.code(), kind.code(), k_res, v_res) == cache_launch(
            b,
            kind.code(),
            kind.code(),
            k_res,
            v_res,
        ),
{
}

/// A value cache that is not written may hold anything.
pub proof fn law_masked_block_values_are_ignored(
    kind: BlockQuantKind,
    a: CacheWrite,
    b: CacheWrite,
    k_res: Option<TensorInfo>,
    v_res: Option<TensorInfo>,
)
    requires
        same_but_value_payload(a, b),
        !a.write_v,
    ensures
        block_refusal(kind, a, k_res, v_res) == block_refusal(kind, b, k_res, v_res),
        cache_launch(a, kind.code(), kind.code(), k_res, v_res) == cache_launch(
            b,
            kind.code(),
            kind.code(),
            k_res,
            v_res,
        ),
{
}

// What the two formats hold.

/// The bits that one element takes in a format.
pub open spec fn payload_bits(kind: BlockQuantKind) -> nat {
    match kind {
        BlockQuantKind::Q8_0 => 8,
        BlockQuantKind::Q4_0 => 4,
    }
}

/// The elements of a cache of so many blocks of so many slots.
pub open spec fn held(blocks: usize, heads: usize, slots: usize, head_size: usize) -> nat {
    blocks as nat * heads as nat * slots as nat * head_size as nat
}

proof fn lemma_payload_bits(kind: BlockQuantKind, n: nat)
    ensures
        payload_bits(kind) * n == if kind == BlockQuantKind::Q8_0 {
            8 * n
        } else {
            4 * n
        },
{
    if kind == BlockQuantKind::Q8_0 {
        assert(payload_bits(kind) == 8);
    } else {
        assert(payload_bits(kind) == 4);
    }
}

proof fn lemma_elements4(dims: Seq<usize>)
    requires
        dims.len() == 4,
    ensures
        elements(dims) == held(dims[0], dims[1], dims[2], dims[3]),
{
    reveal_with_fuel(elements, 5);
    let (a, b, c) = (dims.drop_last(), dims.take(2), dims.take(1));
    assert(a.drop_last() =~= b && b.drop_last() =~= c && c.drop_last() =~= Seq::<usize>::empty());
}

proof fn lemma_elements5(dims: Seq<usize>)
    requires
        dims.len() == 5,
    ensures
        elements(dims) == held(dims[0], dims[1], dims[2], dims[3]) * dims[4],
{
    lemma_elements4(dims.drop_last());
    reveal_with_fuel(elements, 2);
}

/// Whether the key side of a write is as large as its elements need: each takes the
/// bits of the format, each 32 share one scale, and each has one residual bit where
/// there are residuals.
pub open spec fn keys_have_room(kind: BlockQuantKind, w: CacheWrite, k_res: Option<TensorInfo>) -> bool {
    let kc = w.key_cache.dims();
    let all = held(kc[0], w.heads(), kc[3], w.head_size());
    &&& 8 * elements(kc) == payload_bits(kind) * all
    &&& 32 * elements(w.k_scale->0.dims()) == all
    &&& k_res matches Some(res) ==> 8 * elements(res.dims()) == all
    &&& kc[4] == 16
}

/// The same of the value side.
pub open spec fn values_have_room(
    kind: BlockQuantKind,
    w: CacheWrite,
    v_res: Option<TensorInfo>,
) -> bool {
    let kc = w.key_cache.dims();
    let all = held(kc[0], w.heads(), kc[3], w.head_size());
    &&& 8 * elements(w.value_cache.dims()) == payload_bits(kind) * all
    &&& 32 * elements(w.v_scale->0.dims()) == all
    &&& v_res matches Some(res) ==> 8 * elements(res.dims()) == all
}

/// The caches of a write that is not refused, and what stands beside them, have room
/// for their elements and for nothing more.
pub proof fn law_block_caches_hold_their_elements(
    kind: BlockQuantKind,
    w: CacheWrite,
    k_res: Option<TensorInfo>,
    v_res: Option<TensorInfo>,
)
    requires
        block_refusal(kind, w, k_res, v_res).message is None,
    ensures
        w.write_k ==> keys_have_room(kind, w, k_res),
        w.write_v ==> values_have_room(kind, w, v_res),
{
    if w.write_k {
        lemma_keys_have_room(kind, w, k_res);
    }
    if w.write_v {
        lemma_values_have_room(kind, w, v_res);
    }
}

proof fn lemma_keys_have_room(kind: BlockQuantKind, w: CacheWrite, k_res: Option<TensorInfo>)
    requires
        w.write_k,
        w.k_scale is Some,
        w.head_size() % 32 == 0,
        w.key_cache.dims().len() == 5,
        block_keys_refusal(Refusal::none(), kind, w, k_res).message is None,
    ensures
        keys_have_room(kind, w, k_res),
{
    let kc = w.key_cache.dims();
    let (b, h, s, n) = (kc[0] as int, w.heads() as int, kc[3] as int, w.head_size() as int);
    let q = n / 32;
    assert(n == 32 * q && n / 16 == 2 * q);
    let unit = b * h * s * q;
    let all = held(kc[0], w.heads(), kc[3], w.head_size());
    lemma_payload_bits(kind, all);
    assert(all == 32 * unit) by (nonlinear_arith)
        requires
            n == 32 * q,
            unit == b * h * s * q,
            all == b * h * s * n,
    ;
    let chunks = block_chunks(kind, w.head_size()) as int;
    lemma_elements5(kc);
    let cells = elements(kc) as int;
    assert(cells == 16 * (b * h * s * chunks)) by (nonlinear_arith)
        requires
            cells == b * h * chunks * s * 16,
    ;
    assert(b * h * s * (2 * q) == 2 * unit) by (nonlinear_arith)
        requires
            unit == b * h * s * q,
    ;
    let shape = k_scales_shape(w);
    lemma_elements4(shape);
    lemma_elements5(shape.push(4));
    assert(shape.push(4).drop_last() =~= shape);
    assert(elements(shape) == unit);
    assert(elements(shape.push(4)) == unit * 4);
}

proof fn lemma_values_have_room(kind: BlockQuantKind, w: CacheWrite, v_res: Option<TensorInfo>)
    requires
        w.write_v,
        w.v_scale is Some,
        w.head_size() % 32 == 0,
        w.key_cache.dims().len() == 5,
        block_values_refusal(Refusal::none(), kind, w, v_res).message is None,
    ensures
        values_have_room(kind, w, v_res),
{
    let kc = w.key_cache.dims();
    let vc = w.value_cache.dims();
    let (b, h, s, n) = (kc[0] as int, w.heads() as int, kc[3] as int, w.head_size() as int);
    let q = n / 32;
    assert(n == 32 * q);
    let unit = b * h * s * q;
    let all = held(kc[0], w.heads(), kc[3], w.head_size());
    lemma_payload_bits(kind, all);
    assert(all == 32 * unit) by (nonlinear_arith)
        requires
            n == 32 * q,
            unit == b * h * s * q,
            all == b * h * s * n,
    ;
    lemma_elements4(vc);
    let slots = block_slots(kind, kc[3]) as int;
    let cells = elements(vc) as int;
    assert(cells == b * h * slots * n) by (nonlinear_arith)
        requires
            cells == b * h * n * slots,
    ;
    if kind == BlockQuantKind::Q4_0 {
        assert(s == 2 * slots);
        assert(all == 2 * cells) by (nonlinear_arith)
            requires
                s == 2 * slots,
                cells == b * h * slots * n,
                all == b * h * s * n,
        ;
    }
    let shape = v_scales_shape(w);
    lemma_elements4(shape);
    lemma_elements5(shape.push(4));
    assert(shape.push(4).drop_last() =~= shape);
    assert(b * h * q * s == unit) by (nonlinear_arith)
        requires
            unit == b * h * s * q,
    ;
    assert(elements(shape) == unit);
    assert(elements(shape.push(4)) == unit * 4);
}

/// Whether a sidecar is missing or on the device, with elements of a type.
pub open spec fn sidecar_is_taken(tensor: Option<TensorInfo>, dtype: DType) -> bool {
    tensor matches Some(tensor) ==> tensor.dtype == dtype && tensor.place == Place::Cuda
}

pub open spec fn has_shape(tensor: Option<TensorInfo>, shape: Seq<usize>) -> bool {
    tensor matches Some(tensor) ==> tensor.dims() == shape
}

/// Whether the key side of a write is such as a format needs: a chunk of 16 bytes
/// holds as many elements as fit, and sidecars go by slots and then blocks of 32.
pub open spec fn keys_are_taken(
    kind: BlockQuantKind,
    w: CacheWrite,
    k_res: Option<TensorInfo>,
) -> bool {
    let kc = w.key_cache.dims();
    let (heads, size) = (w.heads(), w.head_size());
    &&& kc[4] == 16 && kc[1] == heads
    &&& 16 * 8 * kc[2] == payload_bits(kind) * size
    &&& has_shape(w.k_scale, seq![kc[0], heads, kc[3], size / 32])
    &&& has_shape(k_res, seq![kc[0], heads, kc[3], size / 32, 4])
}

/// The same of the value side, whose sidecars go by blocks and then slots.
pub open spec fn values_are_taken(
    kind: BlockQuantKind,
    w: CacheWrite,
    v_res: Option<TensorInfo>,
) -> bool {
    let (kc, vc) = (w.key_cache.dims(), w.value_cache.dims());
    let (heads, size) = (w.heads(), w.head_size());
    &&& vc.len() == 4 && vc[0] == kc[0] && vc[1] == heads && vc[2] == size
    &&& 8 * vc[3] == payload_bits(kind) * kc[3]
    &&& has_shape(w.v_scale, seq![kc[0], heads, size / 32, kc[3]])
    &&& has_shape(v_res, seq![kc[0], heads, size / 32, kc[3], 4])
}

proof fn lemma_keys_are_taken(kind: BlockQuantKind, w: CacheWrite, k_res: Option<TensorInfo>)
    requires
        w.write_k,
        w.head_size() % 32 == 0,
        w.key_cache.dims().len() == 5,
    ensures
        block_keys_refusal(Refusal::none(), kind, w, k_res).message is None <==> keys_are_taken(
            kind,
            w,
            k_res,
        ),
{
    let kc = w.key_cache.dims();
    let (heads, size) = (w.heads(), w.head_size());
    assert(size == 32 * (size / 32) && size / 16 == 2 * (size / 32));
    let (bits, all, chunks) = (payload_bits(kind) as int, size as int, kc[2] as int);
    match kind {
        BlockQuantKind::Q8_0 => {
            assert(16 * 8 * chunks == bits * all <==> chunks == 2 * (all / 32)) by (nonlinear_arith)
                requires
                    bits == 8,
                    all == 32 * (all / 32),
            ;
        },
        BlockQuantKind::Q4_0 => {
            assert(16 * 8 * chunks == bits * all <==> chunks == all / 32) by (nonlinear_arith)
                requires
                    bits == 4,
                    all == 32 * (all / 32),
            ;
        },
    }
    assert(k_scales_shape(w).push(4) =~= seq![kc[0], heads, kc[3], size / 32, 4]);
}

proof fn lemma_values_are_taken(kind: BlockQuantKind, w: CacheWrite, v_res: Option<TensorInfo>)
    requires
        w.write_v,
        w.key_cache.dims().len() == 5,
    ensures
        block_values_refusal(Refusal::none(), kind, w, v_res).message is None <==> values_are_taken(
            kind,
            w,
            v_res,
        ),
{
    let (kc, vc) = (w.key_cache.dims(), w.value_cache.dims());
    let (heads, size) = (w.heads(), w.head_size());
    lemma_payload_bits(kind, kc[3] as nat);
    assert(v_scales_shape(w).push(4) =~= seq![kc[0], heads, size / 32, kc[3], 4]);
    let want = seq![kc[0], heads, size, block_slots(kind, kc[3])];
    if vc.len() == 4 {
        if vc[0] == want[0] && vc[1] == want[1] && vc[2] == want[2] && vc[3] == want[3] {
            assert(vc =~= want);
        }
    }
}

/// Whether the operands of a block write are of the kinds that it takes.
pub open spec fn blocks_are_taken(
    w: CacheWrite,
    k_res: Option<TensorInfo>,
    v_res: Option<TensorInfo>,
) -> bool {
    &&& w.key.dtype == DType::F16 || w.key.dtype == DType::BF16 || w.key.dtype == DType::F32
    &&& w.value.dtype == w.key.dtype && w.slot_mapping.dtype == DType::I64
    &&& w.key.place == Place::Cuda && w.value.place == Place::Cuda && w.key_cache.place
        == Place::Cuda && w.value_cache.place == Place::Cuda && w.slot_mapping.place == Place::Cuda
    &&& sidecar_is_taken(w.k_scale, DType::F32) && sidecar_is_taken(w.v_scale, DType::F32)
    &&& sidecar_is_taken(k_res, DType::U8) && sidecar_is_taken(v_res, DType::U8)
    &&& w.write_k ==> w.key_cache.dtype == DType::U8 && w.k_scale is Some
    &&& w.write_v ==> w.value_cache.dtype == DType::U8 && w.v_scale is Some
}

/// A block write is refused unless its operands are of the kinds that it takes, rows
/// agree, heads are made of whole blocks, and the written caches and what stands
/// beside them have room for such heads, and for no other reason.
pub proof fn law_block_writes_are_refused_for_reasons(
    kind: BlockQuantKind,
    w: CacheWrite,
    k_res: Option<TensorInfo>,
    v_res: Option<TensorInfo>,
)
    ensures
        block_refusal(kind, w, k_res, v_res).message is None <==> {
            &&& blocks_are_taken(w, k_res, v_res)
            &&& has_rows(w.key.layout) && has_rows(w.value.layout) && w.sides_match()
            &&& w.head_size() % 32 == 0 && w.head_size() <= 512
            &&& w.key_cache.dims().len() == 5
            &&& w.write_k ==> keys_are_taken(kind, w, k_res)
            &&& w.write_v ==> values_are_taken(kind, w, v_res)
            &&& w.slot_mapping.layout.rank() == 1 && w.slot_mapping.dims()[0] == w.tokens()
            &&& w.key_stride() <= i32::MAX && w.value_stride() <= i32::MAX
        },
{
    assert(cache_input_refusal(w.key.layout, "key"@, op_name(kind)).message is None <==> has_rows(
        w.key.layout,
    ));
    assert(cache_input_refusal(w.value.layout, "value"@, op_name(kind)).message is None
        <==> has_rows(w.value.layout));
    if w.head_size() % 32 == 0 && w.key_cache.dims().len() == 5 {
        if w.write_k {
            lemma_keys_are_taken(kind, w, k_res);
        }
        if w.write_v {
            lemma_values_are_taken(kind, w, v_res);
        }
    }
}

} // verus!

//! Writes of keys and values into a paged cache.
use vstd::prelude::*;
use vstd::string::*;

use crate::paged::attention::{
    cache_mismatch, cache_mismatch_fault, check_optional, is_native, lemma_points, no_code,
    no_code_fault, optional_address, optional_check, optional_first, optional_wf, rank_fault, rank_message,
    shape_mismatch, shape_mismatch_fault, NO_FP8,
};
use crate::arith::saturated;
use crate::paged::cache_input::{
    cache_input, cache_input_answer, cache_input_layout, cache_input_refusal, dense_heads, flattens,
    law_rows_of_rank_four, law_rows_of_rank_three, row_stride,
};
use crate::paged::info::{
    address_of, check_device, check_dtype, check_rank, device_check, dtype_check, elements,
    law_first_element_is_at_the_origin, lemma_reached, origin, points_at, rank_check, same_dims,
    DType, Layout, Place, TensorInfo,
};
use crate::paged::quant::{native_code, side_code, side_scales, validate_side_scales};
use crate::text::{
    answer, bracketed, bracketed_text, dec, decimal, outcome, parenthesised, parenthesised_text,
    Fault, Refusal,
};

verus! {

/// Keys and values, the caches they go to, and the slot of each token. A side
/// that is not written is left as it is.
#[derive(Debug)]
pub struct CacheWrite {
    pub key: TensorInfo,
    pub value: TensorInfo,
    pub key_cache: TensorInfo,
    pub value_cache: TensorInfo,
    pub k_scale: Option<TensorInfo>,
    pub v_scale: Option<TensorInfo>,
    pub slot_mapping: TensorInfo,
    pub write_k: bool,
    pub write_v: bool,
}

impl CacheWrite {
    pub open spec fn wf(&self) -> bool {
        &&& self.key.wf()
        &&& self.value.wf()
        &&& self.key_cache.wf()
        &&& self.value_cache.wf()
        &&& optional_wf(self.k_scale)
        &&& optional_wf(self.v_scale)
        &&& self.slot_mapping.wf()
    }

    /// The number of tokens.
    pub open spec fn tokens(&self) -> usize {
        cache_input(self.key.layout).0
    }

    pub open spec fn heads(&self) -> usize {
        cache_input(self.key.layout).1
    }

    pub open spec fn head_size(&self) -> usize {
        cache_input(self.key.layout).2
    }

    pub open spec fn key_stride(&self) -> usize {
        cache_input(self.key.layout).3
    }

    pub open spec fn value_stride(&self) -> usize {
        cache_input(self.value.layout).3
    }

    /// Whether keys and values are of one shape.
    pub open spec fn sides_match(&self) -> bool {
        let k = cache_input(self.key.layout);
        let v = cache_input(self.value.layout);
        k.0 == v.0 && k.1 == v.1 && k.2 == v.2
    }
}

/// What a write is launched with. A side that is not written has no cache
/// address.
#[derive(Clone, Copy, Debug)]
pub struct CacheLaunch {
    pub key: u64,
    pub value: u64,
    pub key_cache: Option<u64>,
    pub value_cache: Option<u64>,
    pub k_scale: Option<u64>,
    pub v_scale: Option<u64>,
    pub k_res: Option<u64>,
    pub v_res: Option<u64>,
    pub slots: u64,
    pub num_tokens: usize,
    pub num_heads: usize,
    pub head_size: usize,
    pub block_size: usize,
    pub x: usize,
    pub key_stride: i32,
    pub value_stride: i32,
    /// The kernel's code for the elements of keys and values.
    pub internal_type: u32,
    /// The kernel's codes for the caches. A native side that is not written has
    /// code 0, which nothing looks at.
    pub k_cache_dtype: u32,
    pub v_cache_dtype: u32,
    pub write_k: bool,
    pub write_v: bool,
}

// Checks that all writes share.

pub open spec fn devices_refusal(so_far: Refusal, w: CacheWrite) -> Refusal {
    so_far.or(device_check(w.key, "key"@)).or(device_check(w.value, "value"@)).or(
        device_check(w.key_cache, "key_cache"@),
    ).or(device_check(w.value_cache, "value_cache"@)).or(
        device_check(w.slot_mapping, "slot_mapping"@),
    )
}

pub(crate) fn check_devices(w: &CacheWrite) -> (r: Result<(), Fault>)
    ensures
        match r {
            Ok(()) => devices_refusal(Refusal::none(), *w).message is None,
            Err(fault) => devices_refusal(Refusal::none(), *w).message == Some(fault@),
        },
{
    check_device(&w.key, "key")?;
    check_device(&w.value, "value")?;
    check_device(&w.key_cache, "key_cache")?;
    check_device(&w.value_cache, "value_cache")?;
    check_device(&w.slot_mapping, "slot_mapping")
}

/// The rows of keys and values, which must agree.
pub open spec fn rows_refusal(so_far: Refusal, w: CacheWrite, op: Seq<char>) -> Refusal {
    so_far.or(cache_input_answer(w.key.layout, "key"@, op)).or(
        cache_input_answer(w.value.layout, "value"@, op),
    ).unless(
        w.sides_match(),
        "shape mismatch k "@ + bracketed(w.key.dims()) + " and v "@ + bracketed(w.value.dims()),
    )
}

/// The rows of a write.
pub struct Rows {
    pub tokens: usize,
    pub heads: usize,
    pub head_size: usize,
    pub key_stride: usize,
    pub value_stride: usize,
}

impl Rows {
    pub open spec fn of(self, w: CacheWrite) -> bool {
        &&& self.tokens == w.tokens()
        &&& self.heads == w.heads()
        &&& self.head_size == w.head_size()
        &&& self.key_stride == w.key_stride()
        &&& self.value_stride == w.value_stride()
    }
}

pub(crate) fn check_rows(w: &CacheWrite, op: &str) -> (rows: Result<Rows, Fault>)
    requires
        w.wf(),
    ensures
        match rows {
            Ok(rows) => rows_refusal(Refusal::none(), *w, op@).message is None && rows.of(*w),
            Err(fault) => rows_refusal(Refusal::none(), *w, op@).message == Some(fault@),
        },
{
    let (tokens, heads, head_size, key_stride): (usize, usize, usize, usize) = cache_input_layout(
        &w.key.layout,
        "key",
        op,
    )?;
    let (v_tokens, v_heads, v_head_size, value_stride): (usize, usize, usize, usize) =
        cache_input_layout(&w.value.layout, "value", op)?;
    if tokens != v_tokens || heads != v_heads || head_size != v_head_size {
        return Err(
            Fault::new(
                String::from_str("shape mismatch k ").concat(
                    bracketed_text(w.key.layout.dims.as_slice()).as_str(),
                ).concat(" and v ").concat(
                    bracketed_text(w.value.layout.dims.as_slice()).as_str(),
                ),
            ),
        );
    }
    Ok(Rows { tokens, heads, head_size, key_stride, value_stride })
}

pub open spec fn slots_refusal(so_far: Refusal, w: CacheWrite) -> Refusal {
    so_far.or(rank_check(1, w.slot_mapping.dims())).unless(
        w.slot_mapping.dims()[0] == w.tokens(),
        shape_mismatch("slot_mapping"@, w.slot_mapping.dims(), dec(w.tokens() as nat)),
    )
}

pub(crate) fn check_slots(w: &CacheWrite, tokens: usize) -> (r: Result<(), Fault>)
    requires
        tokens == w.tokens(),
    ensures
        match r {
            Ok(()) => slots_refusal(Refusal::none(), *w).message is None,
            Err(fault) => slots_refusal(Refusal::none(), *w).message == Some(fault@),
        },
{
    check_rank(1, &w.slot_mapping.layout.dims)?;
    if w.slot_mapping.layout.dims[0] != tokens {
        return Err(
            shape_mismatch_fault(
                "slot_mapping",
                &w.slot_mapping.layout.dims,
                decimal(tokens as u64).as_str(),
            ),
        );
    }
    Ok(())
}

/// A stride as the kernels take it.
pub open spec fn stride_check(stride: usize) -> Result<i32, Seq<char>> {
    if stride <= i32::MAX {
        Ok(stride as i32)
    } else {
        Err("out of range integral type conversion attempted"@)
    }
}

pub(crate) fn narrow_stride(stride: usize) -> (narrowed: Result<i32, Fault>)
    ensures
        outcome(narrowed) == stride_check(stride),
{
    if stride as u64 <= i32::MAX as u64 {
        Ok(stride as i32)
    } else {
        Err(Fault::of("out of range integral type conversion attempted"))
    }
}

// Native and fp8 caches.

/// The kernel's code for one side: that of its elements where it is written,
/// and that of no account where it is not.
pub open spec fn written_code(cache: TensorInfo, write: bool, quantized: Seq<char>) -> Result<
    u32,
    Seq<char>,
> {
    if !write {
        Ok(0)
    } else {
        match native_code(cache.dtype) {
            Some(code) => Ok(code),
            None => if cache.dtype == DType::U8 {
                Err(quantized)
            } else {
                Err(no_code(cache.dtype))
            },
        }
    }
}

fn written_code_of(cache: &TensorInfo, write: bool, quantized: &str) -> (code: Result<u32, Fault>)
    ensures
        outcome(code) == written_code(*cache, write, quantized@),
{
    if !write {
        return Ok(0);
    }
    match cache.dtype {
        DType::F16 => Ok(0),
        DType::BF16 => Ok(1),
        DType::F32 => Ok(2),
        DType::F8E4M3 => Ok(3),
        DType::U8 => Err(Fault::of(quantized)),
        _ => Err(no_code_fault(cache.dtype)),
    }
}

pub const QUANTIZED_K: &'static str =
    "reshape_and_cache only writes native/fp8 K sides; quantized K goes through reshape_and_cache_q8/q4";

pub const QUANTIZED_V: &'static str =
    "reshape_and_cache only writes native/fp8 V sides; quantized V goes through reshape_and_cache_q8/q4";

/// The scale that a written side needs.
pub open spec fn written_scales(
    cache: TensorInfo,
    scale: Option<TensorInfo>,
    write: bool,
    side: Seq<char>,
) -> Result<(), Seq<char>> {
    if write {
        side_scales(cache.dtype, scale, side, "reshape_and_cache"@)
    } else {
        Ok(())
    }
}

/// The elements that a written cache holds: fp8, or those of the keys.
pub open spec fn written_payload(cache: TensorInfo, write: bool, native: DType) -> Result<
    (),
    Seq<char>,
> {
    if !write || cache.dtype == DType::F8E4M3 {
        Ok(())
    } else {
        dtype_check(native, cache.dtype)
    }
}

/// A scale that is there needs fp8 kernels.
pub open spec fn fp8_scale_check(scale: Option<TensorInfo>, name: Seq<char>, fp8: bool) -> Result<
    (),
    Seq<char>,
> {
    if scale is Some && !fp8 {
        Err(NO_FP8@)
    } else {
        optional_check(scale, name, DType::F32)
    }
}

pub open spec fn is_fp8_write(w: CacheWrite) -> bool {
    (w.write_k && w.key_cache.dtype == DType::F8E4M3) || (w.write_v && w.value_cache.dtype
        == DType::F8E4M3)
}

/// What is refused before the key cache is matched with the head size.
pub open spec fn native_rows_refusal(w: CacheWrite, fp8: bool) -> Refusal {
    let types = Refusal::none().unless(
        is_native(w.key.dtype),
        "reshape_and_cache is only supported for f32, f16 and bf16 ("@ + w.key.dtype.name_text()
            + ")"@,
    ).or(written_code(w.key_cache, w.write_k, QUANTIZED_K@)).or(
        written_code(w.value_cache, w.write_v, QUANTIZED_V@),
    ).or(written_scales(w.key_cache, w.k_scale, w.write_k, "K"@)).or(
        written_scales(w.value_cache, w.v_scale, w.write_v, "V"@),
    );
    let payloads = devices_refusal(types, w).unless(
        w.key_cache.layout.rank() == 5,
        rank_message("key_cache"@, "5 (key_cache: "@, w.key_cache.layout),
    ).unless(
        w.value_cache.layout.rank() == 4,
        rank_message("value_cache"@, "4 (value_cache: "@, w.value_cache.layout),
    ).or(dtype_check(w.key.dtype, w.value.dtype)).or(
        dtype_check(DType::I64, w.slot_mapping.dtype),
    ).unless(fp8 || !is_fp8_write(w), NO_FP8@).or(
        written_payload(w.key_cache, w.write_k, w.key.dtype),
    ).or(written_payload(w.value_cache, w.write_v, w.key.dtype)).or(
        fp8_scale_check(w.k_scale, "k_scale"@, fp8),
    ).or(fp8_scale_check(w.v_scale, "v_scale"@, fp8));
    rows_refusal(payloads, w, "paged-attention"@)
}

/// All that is refused.
pub open spec fn native_refusal(w: CacheWrite, fp8: bool) -> Refusal {
    let kc = w.key_cache.dims();
    let vc = w.value_cache.dims();
    let caches = native_rows_refusal(w, fp8).unless(
        w.write_k ==> kc[1] == w.heads() && kc[2] == w.head_size() / kc[4],
        shape_mismatch(
            "value_cache"@,
            vc,
            parenthesised(seq![kc[0], w.heads(), w.head_size() / kc[4], kc[3], kc[4]]),
        ),
    ).unless(
        w.write_v ==> vc == seq![kc[0], w.heads(), w.head_size(), kc[3]],
        cache_mismatch(kc, vc),
    );
    slots_refusal(caches, w).or(stride_check(w.key_stride())).or(stride_check(w.value_stride()))
}

/// The address of a cache that is written.
pub open spec fn written_first(cache: TensorInfo, write: bool) -> Option<u64> {
    if write {
        Some(cache.first())
    } else {
        None
    }
}

fn written_address(cache: &TensorInfo, write: bool) -> (ptr: Option<u64>)
    requires
        cache.wf(),
    ensures
        ptr == written_first(*cache, write),
{
    if write {
        Some(cache.first_address())
    } else {
        None
    }
}

/// The kernel's code for the elements of keys and values.
pub open spec fn input_code(dtype: DType) -> u32 {
    match dtype {
        DType::F16 => 0,
        DType::BF16 => 1,
        _ => 2,
    }
}

fn input_code_of(dtype: DType) -> (code: u32)
    ensures
        code == input_code(dtype),
{
    match dtype {
        DType::F16 => 0,
        DType::BF16 => 1,
        _ => 2,
    }
}

/// What a write is launched with, given the codes and the residuals.
pub open spec fn cache_launch(
    w: CacheWrite,
    k_code: u32,
    v_code: u32,
    k_res: Option<TensorInfo>,
    v_res: Option<TensorInfo>,
) -> CacheLaunch {
    CacheLaunch {
        key: w.key.first(),
        value: w.value.first(),
        key_cache: written_first(w.key_cache, w.write_k),
        value_cache: written_first(w.value_cache, w.write_v),
        k_scale: optional_first(w.k_scale),
        v_scale: optional_first(w.v_scale),
        k_res: optional_first(k_res),
        v_res: optional_first(v_res),
        slots: w.slot_mapping.first(),
        num_tokens: w.tokens(),
        num_heads: w.heads(),
        head_size: w.head_size(),
        block_size: w.key_cache.dims()[3],
        x: w.key_cache.dims()[4],
        key_stride: w.key_stride() as i32,
        value_stride: w.value_stride() as i32,
        internal_type: input_code(w.key.dtype),
        k_cache_dtype: k_code,
        v_cache_dtype: v_code,
        write_k: w.write_k,
        write_v: w.write_v,
    }
}

pub(crate) fn launch_write(
    w: &CacheWrite,
    rows: &Rows,
    strides: (i32, i32),
    codes: (u32, u32),
    k_res: &Option<TensorInfo>,
    v_res: &Option<TensorInfo>,
) -> (launch: CacheLaunch)
    requires
        w.wf(),
        rows.of(*w),
        w.key_cache.layout.rank() == 5,
        optional_wf(*k_res),
        optional_wf(*v_res),
        strides.0 == w.key_stride(),
        strides.1 == w.value_stride(),
    ensures
        launch == cache_launch(*w, codes.0, codes.1, *k_res, *v_res),
{
    CacheLaunch {
        key: w.key.first_address(),
        value: w.value.first_address(),
        key_cache: written_address(&w.key_cache, w.write_k),
        value_cache: written_address(&w.value_cache, w.write_v),
        k_scale: optional_address(&w.k_scale),
        v_scale: optional_address(&w.v_scale),
        k_res: optional_address(k_res),
        v_res: optional_address(v_res),
        slots: w.slot_mapping.first_address(),
        num_tokens: rows.tokens,
        num_heads: rows.heads,
        head_size: rows.head_size,
        block_size: w.key_cache.layout.dims[3],
        x: w.key_cache.layout.dims[4],
        key_stride: strides.0,
        value_stride: strides.1,
        internal_type: input_code_of(w.key.dtype),
        k_cache_dtype: codes.0,
        v_cache_dtype: codes.1,
        write_k: w.write_k,
        write_v: w.write_v,
    }
}

/// Whether heads can be divided into the chunks of a key cache that is written.
pub open spec fn native_in_range(w: CacheWrite, fp8: bool) -> bool {
    native_rows_refusal(w, fp8).message is None && w.write_k ==> w.key_cache.dims()[4] > 0
}

fn check_fp8_scale(scale: &Option<TensorInfo>, name: &str, fp8: bool) -> (r: Result<(), Fault>)
    ensures
        outcome(r) == fp8_scale_check(*scale, name@, fp8),
{
    if scale.is_some() && !fp8 {
        return Err(Fault::of(NO_FP8));
    }
    check_optional(scale, name, DType::F32)
}

fn check_written_scales(
    cache: &TensorInfo,
    scale: &Option<TensorInfo>,
    write: bool,
    side: &str,
) -> (r: Result<(), Fault>)
    ensures
        outcome(r) == written_scales(*cache, *scale, write, side@),
{
    if write {
        validate_side_scales(cache.dtype, scale, side, "reshape_and_cache")
    } else {
        Ok(())
    }
}

fn check_written_payload(cache: &TensorInfo, write: bool, native: DType) -> (r: Result<(), Fault>)
    ensures
        outcome(r) == written_payload(*cache, write, native),
{
    if !write || cache.dtype == DType::F8E4M3 {
        Ok(())
    } else {
        check_dtype(native, cache.dtype)
    }
}

/// The codes of a native write and its rows.
struct NativeRows {
    codes: (u32, u32),
    rows: Rows,
}

fn check_native_rows(w: &CacheWrite, fp8: bool) -> (checked: Result<NativeRows, Fault>)
    requires
        w.wf(),
    ensures
        match checked {
            Ok(checked) => {
                &&& native_rows_refusal(*w, fp8).message is None
                &&& checked.rows.of(*w)
                &&& written_code(w.key_cache, w.write_k, QUANTIZED_K@) == Ok::<u32, Seq<char>>(
                    checked.codes.0,
                )
                &&& written_code(w.value_cache, w.write_v, QUANTIZED_V@) == Ok::<u32, Seq<char>>(
                    checked.codes.1,
                )
                &&& w.key_cache.layout.rank() == 5
                &&& w.value_cache.layout.rank() == 4
            },
            Err(fault) => native_rows_refusal(*w, fp8).message == Some(fault@),
        },
{
    if w.key.dtype != DType::F32 && w.key.dtype != DType::F16 && w.key.dtype != DType::BF16 {
        return Err(
            Fault::new(
                String::from_str(
                    "reshape_and_cache is only supported for f32, f16 and bf16 (",
                ).concat(w.key.dtype.name()).concat(")"),
            ),
        );
    }
    let k_code: u32 = written_code_of(&w.key_cache, w.write_k, QUANTIZED_K)?;
    let v_code: u32 = written_code_of(&w.value_cache, w.write_v, QUANTIZED_V)?;
    check_written_scales(&w.key_cache, &w.k_scale, w.write_k, "K")?;
    check_written_scales(&w.value_cache, &w.v_scale, w.write_v, "V")?;
    check_devices(w)?;
    if w.key_cache.layout.dims.len() != 5 {
        return Err(rank_fault("key_cache", "5 (key_cache: ", &w.key_cache.layout));
    }
    if w.value_cache.layout.dims.len() != 4 {
        return Err(rank_fault("value_cache", "4 (value_cache: ", &w.value_cache.layout));
    }
    check_dtype(w.key.dtype, w.value.dtype)?;
    check_dtype(DType::I64, w.slot_mapping.dtype)?;
    if ((w.write_k && k_code == 3) || (w.write_v && v_code == 3)) && !fp8 {
        return Err(Fault::of(NO_FP8));
    }
    check_written_payload(&w.key_cache, w.write_k, w.key.dtype)?;
    check_written_payload(&w.value_cache, w.write_v, w.key.dtype)?;
    check_fp8_scale(&w.k_scale, "k_scale", fp8)?;
    check_fp8_scale(&w.v_scale, "v_scale", fp8)?;
    let rows: Rows = check_rows(w, "paged-attention")?;
    Ok(NativeRows { codes: (k_code, v_code), rows })
}

/// Tests whether heads can be divided into the chunks of a key cache that is
/// written.
pub fn native_is_in_range(w: &CacheWrite, fp8: bool) -> (in_range: bool)
    requires
        w.wf(),
    ensures
        in_range == native_in_range(*w, fp8),
{
    match check_native_rows(w, fp8) {
        Ok(_) => !w.write_k || w.key_cache.layout.dims[4] > 0,
        Err(_) => true,
    }
}

/// What a native write is launched with.
pub open spec fn native_launch(w: CacheWrite) -> CacheLaunch {
    cache_launch(
        w,
        written_code(w.key_cache, w.write_k, QUANTIZED_K@)->Ok_0,
        written_code(w.value_cache, w.write_v, QUANTIZED_V@)->Ok_0,
        None,
        None,
    )
}

/// Writes keys and values to native or fp8 caches. Keys have the shape tokens,
/// heads and head size, or batch, sequence, heads and head size; values have
/// the same. `fp8` says whether fp8 kernels are there.
pub fn reshape_and_cache(w: &CacheWrite, fp8: bool) -> (launch: Result<CacheLaunch, Fault>)
    requires
        w.wf(),
        native_in_range(*w, fp8),
    ensures
        outcome(launch) == answer(native_refusal(*w, fp8), native_launch(*w)),
        launch matches Ok(launch) ==> writes_operands(launch, *w, None, None),
{
    let checked: NativeRows = check_native_rows(w, fp8)?;
    let rows: &Rows = &checked.rows;
    let kc: &Vec<usize> = &w.key_cache.layout.dims;
    if w.write_k {
        let chunks: usize = rows.head_size / kc[4];
        if kc[1] != rows.heads || kc[2] != chunks {
            let mut expected: Vec<usize> = Vec::new();
            expected.push(kc[0]);
            expected.push(rows.heads);
            expected.push(chunks);
            expected.push(kc[3]);
            expected.push(kc[4]);
            assert(expected@ =~= seq![kc@[0], w.heads(), chunks, kc@[3], kc@[4]]);
            return Err(
                shape_mismatch_fault(
                    "value_cache",
                    &w.value_cache.layout.dims,
                    parenthesised_text(expected.as_slice()).as_str(),
                ),
            );
        }
    }
    if w.write_v {
        let mut expected: Vec<usize> = Vec::new();
        expected.push(kc[0]);
        expected.push(rows.heads);
        expected.push(rows.head_size);
        expected.push(kc[3]);
        assert(expected@ =~= seq![kc@[0], w.heads(), w.head_size(), kc@[3]]);
        if !same_dims(expected.as_slice(), w.value_cache.layout.dims.as_slice()) {
            return Err(cache_mismatch_fault(kc, &w.value_cache.layout.dims));
        }
    }
    check_slots(w, rows.tokens)?;
    let key_stride: i32 = narrow_stride(rows.key_stride)?;
    let value_stride: i32 = narrow_stride(rows.value_stride)?;
    proof {
        law_launch_writes_operands(*w, checked.codes.0, checked.codes.1, None, None);
    }
    Ok(launch_write(w, rows, (key_stride, value_stride), checked.codes, &None, &None))
}

/// Whether two writes differ in nothing but the key cache's element type,
/// strides and address.
pub open spec fn same_but_key_payload(a: CacheWrite, b: CacheWrite) -> bool {
    &&& a.key == b.key
    &&& a.value == b.value
    &&& a.value_cache == b.value_cache
    &&& a.k_scale == b.k_scale
    &&& a.v_scale == b.v_scale
    &&& a.slot_mapping == b.slot_mapping
    &&& a.write_k == b.write_k
    &&& a.write_v == b.write_v
    &&& a.key_cache.dims() == b.key_cache.dims()
    &&& a.key_cache.place == b.key_cache.place
}

/// Whether two writes differ in nothing but the value cache's element type,
/// strides and address.
pub open spec fn same_but_value_payload(a: CacheWrite, b: CacheWrite) -> bool {
    &&& a.key == b.key
    &&& a.value == b.value
    &&& a.key_cache == b.key_cache
    &&& a.k_scale == b.k_scale
    &&& a.v_scale == b.v_scale
    &&& a.slot_mapping == b.slot_mapping
    &&& a.write_k == b.write_k
    &&& a.write_v == b.write_v
    &&& a.value_cache.dims() == b.value_cache.dims()
    &&& a.value_cache.place == b.value_cache.place
}

/// A key cache that is not written may hold anything: a write to the other side
/// is launched in the same way whatever it holds. Its rank must be right, since
/// the message about a wrong rank shows its strides.
pub proof fn law_masked_keys_are_ignored(a: CacheWrite, b: CacheWrite, fp8: bool)
    requires
        same_but_key_payload(a, b),
        !a.write_k,
        a.key_cache.layout.rank() == 5,
    ensures
        native_refusal(a, fp8) == native_refusal(b, fp8),
        native_launch(a) == native_launch(b),
        native_launch(a).key_cache is None,
        forall|k_code: u32, v_code: u32| #[trigger]
            cache_launch(a, k_code, v_code, None, None) == cache_launch(
                b,
                k_code,
                v_code,
                None,
                None,
            ),
{
}

/// A value cache that is not written may hold anything.
pub proof fn law_masked_values_are_ignored(a: CacheWrite, b: CacheWrite, fp8: bool)
    requires
        same_but_value_payload(a, b),
        !a.write_v,
        a.value_cache.layout.rank() == 4,
    ensures
        native_refusal(a, fp8) == native_refusal(b, fp8),
        native_launch(a) == native_launch(b),
        native_launch(a).value_cache is None,
        forall|k_code: u32, v_code: u32| #[trigger]
            cache_launch(a, k_code, v_code, None, None) == cache_launch(
                b,
                k_code,
                v_code,
                None,
                None,
            ),
{
}

/// Whether a written cache is the one that a pointer leads to, and no pointer is
/// given for one that is not.
pub open spec fn points_at_written(ptr: Option<u64>, cache: TensorInfo, write: bool) -> bool {
    if write {
        points_at(ptr, Some(cache))
    } else {
        ptr is None
    }
}

/// Whether a launch reads and writes the tensors of a write: keys are read from the
/// keys and values from the values, they go to the cache of their own side, and
/// each further operand is found at its first element.
pub open spec fn writes_operands(
    launch: CacheLaunch,
    w: CacheWrite,
    k_res: Option<TensorInfo>,
    v_res: Option<TensorInfo>,
) -> bool {
    &&& launch.key == address_of(w.key, origin(w.key.layout.rank()))
    &&& launch.value == address_of(w.value, origin(w.value.layout.rank()))
    &&& points_at_written(launch.key_cache, w.key_cache, w.write_k)
    &&& points_at_written(launch.value_cache, w.value_cache, w.write_v)
    &&& launch.slots == address_of(w.slot_mapping, origin(w.slot_mapping.layout.rank()))
    &&& points_at(launch.k_scale, w.k_scale)
    &&& points_at(launch.v_scale, w.v_scale)
    &&& points_at(launch.k_res, k_res)
    &&& points_at(launch.v_res, v_res)
    &&& launch.write_k == w.write_k
    &&& launch.write_v == w.write_v
}

/// A write is launched on the tensors that were handed in, each in its own part.
pub proof fn law_launch_writes_operands(
    w: CacheWrite,
    k_code: u32,
    v_code: u32,
    k_res: Option<TensorInfo>,
    v_res: Option<TensorInfo>,
)
    requires
        w.wf(),
        optional_wf(k_res),
        optional_wf(v_res),
    ensures
        writes_operands(cache_launch(w, k_code, v_code, k_res, v_res), w, k_res, v_res),
{
    law_first_element_is_at_the_origin(w.key);
    law_first_element_is_at_the_origin(w.value);
    law_first_element_is_at_the_origin(w.key_cache);
    law_first_element_is_at_the_origin(w.value_cache);
    law_first_element_is_at_the_origin(w.slot_mapping);
    lemma_points(w.k_scale);
    lemma_points(w.v_scale);
    lemma_points(k_res);
    lemma_points(v_res);
}

/// Whether element `d` of head `h` of a token is found from the first element of a
/// tensor by the strides of a launch. Tokens come batch by batch in a tensor of
/// four dimensions.
pub open spec fn finds_token(
    tensor: TensorInfo,
    base: u64,
    stride: int,
    head_size: int,
    b: int,
    s: int,
    h: int,
    d: int,
) -> bool {
    let (index, token) = if tensor.layout.rank() == 3 {
        (seq![s, h, d], s)
    } else {
        (seq![b, s, h, d], b * tensor.dims()[1] + s)
    };
    address_of(tensor, index) == base + (token * stride + h * head_size + d) * tensor.dtype.bytes()
}

proof fn lemma_finds_token(tensor: TensorInfo, b: int, s: int, h: int, d: int)
    requires
        tensor.wf(),
        tensor.layout.rank() == 3 || tensor.layout.rank() == 4,
        flattens(tensor.layout),
        dense_heads(tensor.layout),
        tensor.layout.rank() == 4 ==> {
            &&& tensor.dims()[1] * row_stride(tensor.layout) <= usize::MAX
            &&& 0 <= b < tensor.dims()[0]
            &&& 0 <= s < tensor.dims()[1]
        },
    ensures
        finds_token(
            tensor,
            tensor.first(),
            cache_input(tensor.layout).3 as int,
            cache_input(tensor.layout).2 as int,
            b,
            s,
            h,
            d,
        ),
{
    let stride = cache_input(tensor.layout).3 as int;
    let head_size = cache_input(tensor.layout).2 as int;
    if tensor.layout.rank() == 3 {
        law_rows_of_rank_three(tensor.layout, s, h, d);
        lemma_reached(tensor, seq![s, h, d], s * stride + h * head_size + d);
    } else {
        law_rows_of_rank_four(tensor.layout, b, s, h, d);
        lemma_reached(
            tensor,
            seq![b, s, h, d],
            (b * tensor.dims()[1] + s) * stride + h * head_size + d,
        );
    }
}

/// The strides of an accepted write lead to every element of the keys and of the
/// values. Where batches are flattened, the stride between them must be a true
/// product.
pub proof fn law_launch_finds_tokens(
    w: CacheWrite,
    op: Seq<char>,
    k_code: u32,
    v_code: u32,
    b: int,
    s: int,
    h: int,
    d: int,
)
    requires
        w.wf(),
        rows_refusal(Refusal::none(), w, op).message is None,
        stride_check(w.key_stride()) is Ok,
        stride_check(w.value_stride()) is Ok,
        w.key.layout.rank() == w.value.layout.rank(),
        w.key.layout.rank() == 4 ==> {
            &&& w.key.dims() == w.value.dims()
            &&& w.key.dims()[1] * row_stride(w.key.layout) <= usize::MAX
            &&& w.key.dims()[1] * row_stride(w.value.layout) <= usize::MAX
            &&& 0 <= b < w.key.dims()[0]
            &&& 0 <= s < w.key.dims()[1]
        },
    ensures
        ({
            let launch = cache_launch(w, k_code, v_code, None, None);
            let head_size = launch.head_size as int;
            &&& finds_token(w.key, launch.key, launch.key_stride as int, head_size, b, s, h, d)
            &&& finds_token(w.value, launch.value, launch.value_stride as int, head_size, b, s, h, d)
        }),
{
    lemma_finds_token(w.key, b, s, h, d);
    lemma_finds_token(w.value, b, s, h, d);
}

/// The counts of an accepted write are those of its keys and of its values: so many
/// tokens, each with so many heads of so many elements, and a slot for each.
pub proof fn law_launch_counts_tokens(w: CacheWrite, op: Seq<char>, k_code: u32, v_code: u32)
    requires
        slots_refusal(rows_refusal(Refusal::none(), w, op), w).message is None,
    ensures
        ({
            let launch = cache_launch(w, k_code, v_code, None, None);
            &&& holds_tokens(w.key.dims(), launch)
            &&& holds_tokens(w.value.dims(), launch)
            &&& w.slot_mapping.dims() == seq![launch.num_tokens]
            &&& w.key_cache.dims()[3] == launch.block_size
            &&& w.key_cache.dims()[4] == launch.x
        }),
{
    let (k, v, s) = (w.key.dims(), w.value.dims(), w.slot_mapping.dims());
    assert(s =~= seq![s[0]]);
    if k.len() == 3 {
        assert(k =~= seq![k[0], k[1], k[2]]);
    } else {
        assert(k =~= seq![k[0], k[1], k[2], k[3]]);
        assert(k[0] * k[1] >= 0) by (nonlinear_arith);
    }
    if v.len() == 3 {
        assert(v =~= seq![v[0], v[1], v[2]]);
    } else {
        assert(v =~= seq![v[0], v[1], v[2], v[3]]);
        assert(v[0] * v[1] >= 0) by (nonlinear_arith);
    }
}

/// Whether a tensor has the tokens of a launch, in one dimension or in two.
pub open spec fn holds_tokens(dims: Seq<usize>, launch: CacheLaunch) -> bool {
    if dims.len() == 3 {
        dims == seq![launch.num_tokens, launch.num_heads, launch.head_size]
    } else {
        &&& dims.len() == 4
        &&& dims[0] * dims[1] == launch.num_tokens
        &&& dims[2] == launch.num_heads
        &&& dims[3] == launch.head_size
    }
}

/// Whether the operands of a native write are of the kinds that it takes.
pub open spec fn native_is_taken(w: CacheWrite, fp8: bool) -> bool {
    &&& w.key.dtype == DType::F16 || w.key.dtype == DType::BF16 || w.key.dtype == DType::F32
    &&& w.value.dtype == w.key.dtype
    &&& w.slot_mapping.dtype == DType::I64
    &&& w.key.place == Place::Cuda && w.value.place == Place::Cuda && w.key_cache.place
        == Place::Cuda && w.value_cache.place == Place::Cuda && w.slot_mapping.place == Place::Cuda
    &&& w.key_cache.layout.rank() == 5 && w.value_cache.layout.rank() == 4
    &&& w.write_k ==> native_side_is_taken(w.key_cache.dtype, w.k_scale, w.key.dtype, fp8)
    &&& w.write_v ==> native_side_is_taken(w.value_cache.dtype, w.v_scale, w.key.dtype, fp8)
    &&& w.k_scale matches Some(scale) ==> fp8 && scale.place == Place::Cuda && scale.dtype
        == DType::F32
    &&& w.v_scale matches Some(scale) ==> fp8 && scale.place == Place::Cuda && scale.dtype
        == DType::F32
}

pub open spec fn native_side_is_taken(
    cache: DType,
    scale: Option<TensorInfo>,
    native: DType,
    fp8: bool,
) -> bool {
    if cache == DType::F8E4M3 {
        fp8 && scale is Some && elements(scale->0.dims()) == 1
    } else {
        cache == native && scale is None
    }
}

/// Whether a tensor is read as rows of tokens: heads are dense, rows do not overlap,
/// and batches follow each other as rows do.
pub open spec fn has_rows(layout: Layout) -> bool {
    let rank = layout.rank() as int;
    &&& rank == 3 || rank == 4
    &&& rank == 4 ==> layout.dims@[0] * layout.dims@[1] <= usize::MAX
    &&& layout.stride@[rank - 1] == 1
    &&& layout.stride@[rank - 2] == layout.dims@[rank - 1]
    &&& row_stride(layout) >= saturated(layout.dims@[rank - 2], layout.dims@[rank - 1])
    &&& rank == 4 && layout.dims@[0] > 1 && layout.dims@[1] > 1 ==> layout.stride@[0]
        == saturated(layout.dims@[1], layout.stride@[1])
}

/// A native write is refused unless its operands are of the kinds that it takes, their
/// rows agree and the written caches hold such heads, and for no other reason.
pub proof fn law_native_writes_are_refused_for_reasons(w: CacheWrite, fp8: bool)
    ensures
        native_refusal(w, fp8).message is None <==> {
            let (kc, vc) = (w.key_cache.dims(), w.value_cache.dims());
            &&& native_is_taken(w, fp8)
            &&& has_rows(w.key.layout) && has_rows(w.value.layout)
            &&& w.tokens() == cache_input(w.value.layout).0
            &&& w.heads() == cache_input(w.value.layout).1
            &&& w.head_size() == cache_input(w.value.layout).2
            &&& w.write_k ==> kc[1] == w.heads() && kc[2] == w.head_size() / kc[4]
            &&& w.write_v ==> vc[0] == kc[0] && vc[1] == w.heads() && vc[2] == w.head_size()
                && vc[3] == kc[3]
            &&& w.slot_mapping.layout.rank() == 1 && w.slot_mapping.dims()[0] == w.tokens()
            &&& w.key_stride() <= i32::MAX && w.value_stride() <= i32::MAX
        },
{
    let (kc, vc) = (w.key_cache.dims(), w.value_cache.dims());
    let want = seq![kc[0], w.heads(), w.head_size(), kc[3]];
    if vc.len() == 4 {
        assert(vc == want <==> vc[0] == want[0] && vc[1] == want[1] && vc[2] == want[2] && vc[3]
            == want[3]) by {
            if vc[0] == want[0] && vc[1] == want[1] && vc[2] == want[2] && vc[3] == want[3] {
                assert(vc =~= want);
            }
        }
    }
    assert(cache_input_refusal(w.key.layout, "key"@, "paged-attention"@).message is None
        <==> has_rows(w.key.layout));
    assert(cache_input_refusal(w.value.layout, "value"@, "paged-attention"@).message is None
        <==> has_rows(w.value.layout));
}

/// A native write tells the kernel what it reads and what the written caches hold,
/// by the codes that attention knows them by.
pub proof fn law_native_codes(w: CacheWrite, fp8: bool)
    requires
        native_refusal(w, fp8).message is None,
    ensures
        ({
            let launch = native_launch(w);
            &&& side_code(w.key.dtype, None) == Some(launch.internal_type)
            &&& w.write_k ==> side_code(w.key_cache.dtype, None) == Some(launch.k_cache_dtype)
            &&& w.write_v ==> side_code(w.value_cache.dtype, None) == Some(launch.v_cache_dtype)
            &&& !w.write_k ==> launch.k_cache_dtype == 0
            &&& !w.write_v ==> launch.v_cache_dtype == 0
            &&& launch.k_res is None && launch.v_res is None
        }),
{
}

/// A write is in range unless it writes keys into chunks without a size.
pub proof fn law_native_writes_are_in_range(w: CacheWrite, fp8: bool)
    ensures
        w.key_cache.dims()[4] > 0 ==> native_in_range(w, fp8),
        !w.write_k ==> native_in_range(w, fp8),
        native_refusal(w, fp8).message is None && w.write_k ==> (native_in_range(w, fp8)
            <==> w.key_cache.dims()[4] > 0),
{
}

/// A side that is not written has no code of account. One that is written is refused where
/// its elements are quantized, by the words for its side, and where no kernel knows them,
/// by their type.
pub proof fn law_odd_sides_are_refused(cache: TensorInfo, write: bool, quantized: Seq<char>)
    ensures
        written_code(cache, write, quantized) is Err ==> write && native_code(cache.dtype) is None,
        !write ==> written_code(cache, write, quantized) == Ok::<u32, Seq<char>>(0),
        write && cache.dtype == DType::U8 ==> written_code(cache, write, quantized) == Err::<
            u32,
            Seq<char>,
        >(quantized),
        write && native_code(cache.dtype) is None && cache.dtype != DType::U8 ==> written_code(
            cache,
            write,
            quantized,
        ) == Err::<u32, Seq<char>>(no_code(cache.dtype)),
{
}

/// Quantized keys are refused as keys and quantized values as values, wherever rows of a
/// known type are written into them.
pub proof fn law_quantized_sides_are_told_apart(w: CacheWrite, fp8: bool)
    requires
        is_native(w.key.dtype),
    ensures
        w.write_k && w.key_cache.dtype == DType::U8 ==> native_refusal(w, fp8).message == Some(
            "reshape_and_cache only writes native/fp8 K sides; quantized K goes through reshape_and_cache_q8/q4"@,
        ),
        !w.write_k && w.write_v && w.value_cache.dtype == DType::U8 ==> native_refusal(
            w,
            fp8,
        ).message == Some(
            "reshape_and_cache only writes native/fp8 V sides; quantized V goes through reshape_and_cache_q8/q4"@,
        ),
{
}

} // verus!

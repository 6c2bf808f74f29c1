//! Flash attention for prefill on ROCm devices.
use candle_core::Tensor;
use vstd::prelude::*;

use crate::paged::info::{
    address_of, check_rank, elements, lemma_dot4, lemma_reached, rank_check, DType, Place,
    TensorInfo,
};
use crate::tensor::{
    at4, contiguous, countable, in_shape, row_major, same_kind, same_tensor, takes_shape,
    tensor_cell, tensor_dims, tensor_fault,
};
use crate::text::{answer, outcome, Fault, Refusal};

verus! {

/// The shape of an attention that the kernel takes: batches of queries of
/// `heads` heads and `seq_len` tokens, over keys and values of `kv_heads` heads
/// and `kv_len` tokens.
#[derive(Clone, Copy, Debug, PartialEq, Eq, Structural)]
pub struct CkShape {
    pub batch: usize,
    pub heads: usize,
    pub kv_heads: usize,
    pub seq_len: usize,
    pub kv_len: usize,
    pub head_dim: usize,
    /// The elements of the output, which has the shape of the queries.
    pub out_elements: usize,
    /// One log-sum for each row of the output.
    pub lse_elements: usize,
}

/// Whether the kernel takes these operands, all of four dimensions: batch,
/// heads, tokens and head size.
pub open spec fn ck_takes(q: TensorInfo, k: TensorInfo, v: TensorInfo) -> bool {
    let head_dim = q.dims()[3];
    &&& head_dim == k.dims()[3]
    &&& head_dim == v.dims()[3]
    &&& head_dim == 128 || head_dim == 256
    &&& q.dims()[2] > 1
    &&& q.dtype == DType::BF16
    &&& k.dtype == DType::BF16
    &&& v.dtype == DType::BF16
}

pub open spec fn ck_ranks_refusal(q: TensorInfo, k: TensorInfo, v: TensorInfo) -> Refusal {
    Refusal::none().or(rank_check(4, q.dims())).or(rank_check(4, k.dims())).or(
        rank_check(4, v.dims()),
    )
}

pub open spec fn ck_refusal(q: TensorInfo, k: TensorInfo, v: TensorInfo) -> Refusal {
    ck_ranks_refusal(q, k, v).unless(
        ck_takes(q, k, v) ==> q.place == Place::Cuda,
        "expected a cuda device, got cpu"@,
    )
}

pub open spec fn ck_shape(q: TensorInfo, k: TensorInfo, v: TensorInfo) -> Option<CkShape> {
    let d = q.dims();
    if ck_takes(q, k, v) {
        Some(
            CkShape {
                batch: d[0],
                heads: d[1],
                kv_heads: k.dims()[1],
                seq_len: d[2],
                kv_len: k.dims()[2],
                head_dim: d[3],
                out_elements: (d[0] * d[1] * d[2] * d[3]) as usize,
                lse_elements: (d[0] * d[1] * d[2]) as usize,
            },
        )
    } else {
        None
    }
}

/// Whether the output can be counted in a `usize`.
pub open spec fn ck_in_range(q: TensorInfo, k: TensorInfo, v: TensorInfo) -> bool {
    ck_refusal(q, k, v).message is None && ck_takes(q, k, v) ==> q.dims()[0] * q.dims()[1]
        * q.dims()[2] * q.dims()[3] <= usize::MAX
}

/// The shape of an attention that the kernel takes; `None` where another one
/// has to.
pub fn ck_flash_attn(q: &TensorInfo, k: &TensorInfo, v: &TensorInfo) -> (shape: Result<
    Option<CkShape>,
    Fault,
>)
    requires
        ck_in_range(*q, *k, *v),
    ensures
        outcome(shape) == answer(ck_refusal(*q, *k, *v), ck_shape(*q, *k, *v)),
{
    check_rank(4, &q.layout.dims)?;
    check_rank(4, &k.layout.dims)?;
    check_rank(4, &v.layout.dims)?;
    let head_dim: usize = q.layout.dims[3];
    if head_dim != k.layout.dims[3] || head_dim != v.layout.dims[3] {
        return Ok(None);
    }
    if head_dim != 128 && head_dim != 256 {
        return Ok(None);
    }
    let seq_len: usize = q.layout.dims[2];
    if seq_len <= 1 {
        return Ok(None);
    }
    if q.dtype != DType::BF16 || k.dtype != DType::BF16 || v.dtype != DType::BF16 {
        return Ok(None);
    }
    if q.place != Place::Cuda {
        return Err(Fault::of("expected a cuda device, got cpu"));
    }
    let batch: usize = q.layout.dims[0];
    let heads: usize = q.layout.dims[1];
    assert(0 <= batch * heads <= batch * heads * seq_len && batch * heads * seq_len <= batch * heads
        * seq_len * head_dim) by (nonlinear_arith)
        requires
            seq_len >= 1,
            head_dim >= 1,
            batch >= 0,
            heads >= 0,
    ;
    let lse_elements: usize = batch * heads * seq_len;
    Ok(
        Some(
            CkShape {
                batch,
                heads,
                kv_heads: k.layout.dims[1],
                seq_len,
                kv_len: k.layout.dims[2],
                head_dim,
                out_elements: lse_elements * head_dim,
                lse_elements,
            },
        ),
    )
}

/// Tests whether the output can be counted in a `usize`.
pub fn ck_is_in_range(q: &TensorInfo, k: &TensorInfo, v: &TensorInfo) -> (in_range: bool)
    ensures
        in_range == ck_in_range(*q, *k, *v),
{
    if q.layout.dims.len() != 4 || k.layout.dims.len() != 4 || v.layout.dims.len() != 4 {
        return true;
    }
    let d: &Vec<usize> = &q.layout.dims;
    if d[3] != k.layout.dims[3] || d[3] != v.layout.dims[3] || (d[3] != 128 && d[3] != 256) || d[2]
        <= 1 || q.dtype != DType::BF16 || k.dtype != DType::BF16 || v.dtype != DType::BF16
        || q.place != Place::Cuda {
        return true;
    }
    let ghost (a, b, c, e) = (d@[0] as int, d@[1] as int, d@[2] as int, d@[3] as int);
    assert(a * b <= a * b * c && a * b * c <= a * b * c * e) by (nonlinear_arith)
        requires
            a >= 0,
            b >= 0,
            c >= 1,
            e >= 1,
    ;
    let rows: usize = match d[0].checked_mul(d[1]) {
        Some(rows) => rows,
        None => return false,
    };
    match rows.checked_mul(d[2]) {
        Some(rows) => rows.checked_mul(d[3]).is_some(),
        None => false,
    }
}

/// The strides of one operand between tokens, heads and batches.
#[derive(Clone, Copy, Debug, PartialEq, Eq, Structural)]
pub struct CkStrides {
    pub token: usize,
    pub head: usize,
    pub batch: usize,
}

/// What the kernel is launched with. The output has the strides of the queries.
#[derive(Clone, Copy, Debug)]
pub struct CkLaunch {
    pub q: u64,
    pub k: u64,
    pub v: u64,
    pub q_strides: CkStrides,
    pub k_strides: CkStrides,
    pub v_strides: CkStrides,
    pub out_strides: CkStrides,
    /// 0 for none, 1 for causal from the top left, 2 for causal from the bottom
    /// right, where keys come before the queries.
    pub mask_type: i32,
}

pub open spec fn ck_strides(tensor: TensorInfo) -> CkStrides {
    CkStrides {
        token: tensor.layout.stride@[2],
        head: tensor.layout.stride@[1],
        batch: tensor.layout.stride@[0],
    }
}

fn strides_of(tensor: &TensorInfo) -> (strides: CkStrides)
    requires
        tensor.layout.wf(),
        tensor.layout.rank() == 4,
    ensures
        strides == ck_strides(*tensor),
{
    CkStrides {
        token: tensor.layout.stride[2],
        head: tensor.layout.stride[1],
        batch: tensor.layout.stride[0],
    }
}

pub open spec fn ck_storage_refusal(q: TensorInfo, k: TensorInfo, v: TensorInfo) -> Refusal {
    Refusal::none().unless(q.place == Place::Cuda, "q must be cuda storage"@).unless(
        k.place == Place::Cuda,
        "k must be cuda storage"@,
    ).unless(v.place == Place::Cuda, "v must be cuda storage"@)
}

pub open spec fn ck_launch(
    q: TensorInfo,
    k: TensorInfo,
    v: TensorInfo,
    mask_type: i32,
) -> CkLaunch {
    CkLaunch {
        q: q.first(),
        k: k.first(),
        v: v.first(),
        q_strides: ck_strides(q),
        k_strides: ck_strides(k),
        v_strides: ck_strides(v),
        out_strides: ck_strides(q),
        mask_type,
    }
}

/// The operands of the kernel.
pub struct CkOperands {
    pub q: Tensor,
    pub k: Tensor,
    pub v: Tensor,
}

/// Whether a tensor is another in row-major order, or that one itself where it is
/// so already.
pub open spec fn is_dense(dense: Tensor, tensor: Tensor) -> bool {
    &&& row_major(dense)
    &&& same_tensor(dense, tensor)
    &&& same_kind(dense, tensor)
    &&& row_major(tensor) ==> dense == tensor
}

fn dense_of(tensor: &Tensor) -> (dense: Result<Tensor, Fault>)
    requires
        countable(tensor_dims(*tensor)),
    ensures
        takes_shape(*tensor) ==> dense is Ok,
        dense matches Ok(dense) ==> is_dense(dense, *tensor),
{
    match contiguous(tensor) {
        Ok(dense) => Ok(dense),
        Err(error) => Err(tensor_fault(error)),
    }
}

/// The operands as the kernel reads them, in row-major order. A device may fail to
/// copy one that is not so already.
pub fn ck_operands(q: &Tensor, k: &Tensor, v: &Tensor) -> (operands: Result<CkOperands, Fault>)
    requires
        countable(tensor_dims(*q)),
        countable(tensor_dims(*k)),
        countable(tensor_dims(*v)),
    ensures
        takes_shape(*q) && takes_shape(*k) && takes_shape(*v) ==> operands is Ok,
        operands matches Ok(operands) ==> {
            &&& is_dense(operands.q, *q)
            &&& is_dense(operands.k, *k)
            &&& is_dense(operands.v, *v)
        },
{
    let q: Tensor = dense_of(q)?;
    let k: Tensor = dense_of(k)?;
    let v: Tensor = dense_of(v)?;
    Ok(CkOperands { q, k, v })
}

/// What the kernel is launched with, for operands whose shape it takes and whose
/// elements have been made contiguous.
pub fn ck_flash_launch(q: &TensorInfo, k: &TensorInfo, v: &TensorInfo, mask_type: i32) -> (launch:
    Result<CkLaunch, Fault>)
    requires
        q.wf(),
        k.wf(),
        v.wf(),
        q.layout.rank() == 4,
        k.layout.rank() == 4,
        v.layout.rank() == 4,
    ensures
        outcome(launch) == answer(
            ck_storage_refusal(*q, *k, *v),
            ck_launch(*q, *k, *v, mask_type),
        ),
{
    if q.place != Place::Cuda {
        return Err(Fault::of("q must be cuda storage"));
    }
    if k.place != Place::Cuda {
        return Err(Fault::of("k must be cuda storage"));
    }
    if v.place != Place::Cuda {
        return Err(Fault::of("v must be cuda storage"));
    }
    Ok(
        CkLaunch {
            q: q.first_address(),
            k: k.first_address(),
            v: v.first_address(),
            q_strides: strides_of(q),
            k_strides: strides_of(k),
            v_strides: strides_of(v),
            out_strides: strides_of(q),
            mask_type,
        },
    )
}

/// The output has the shape of the queries, and one log-sum for each of its
/// rows.
pub proof fn law_ck_output_has_query_shape(q: TensorInfo, k: TensorInfo, v: TensorInfo)
    requires
        ck_refusal(q, k, v).message is None,
        ck_takes(q, k, v),
        ck_in_range(q, k, v),
    ensures
        ck_shape(q, k, v)->0.out_elements == elements(q.dims()),
        ck_shape(q, k, v)->0.lse_elements * ck_shape(q, k, v)->0.head_dim == elements(q.dims()),
{
    let d = q.dims();
    reveal_with_fuel(elements, 5);
    assert(d.drop_last().drop_last().drop_last().drop_last() =~= Seq::<usize>::empty());
    assert(1 * (d[0] as nat) == d[0]);
    let (a, b, c, e) = (d[0] as int, d[1] as int, d[2] as int, d[3] as int);
    assert(0 <= a * b * c <= a * b * c * e) by (nonlinear_arith)
        requires
            a >= 0,
            b >= 0,
            c >= 1,
            e >= 1,
    ;
}

/// Whether a base and strides lead to every element of a tensor of batches, heads, tokens
/// and head elements that lie side by side.
pub open spec fn finds_elements(base: u64, strides: CkStrides, tensor: TensorInfo) -> bool {
    forall|b: int, h: int, t: int, e: int|
        address_of(tensor, #[trigger] at4(b, h, t, e)) == base + (b * strides.batch + h
            * strides.head + t * strides.token + e * tensor.layout.stride@[3])
            * tensor.dtype.bytes()
}

proof fn lemma_elements_found(tensor: TensorInfo)
    requires
        tensor.wf(),
        tensor.layout.rank() == 4,
    ensures
        finds_elements(tensor.first(), ck_strides(tensor), tensor),
{
    let strides = ck_strides(tensor);
    let step = tensor.layout.stride@[3];
    assert forall|b: int, h: int, t: int, e: int|
        address_of(tensor, #[trigger] at4(b, h, t, e)) == tensor.first() + (b * strides.batch + h
            * strides.head + t * strides.token + e * step) * tensor.dtype.bytes() by {
        assert(at4(b, h, t, e) =~= seq![b, h, t, e]);
        lemma_dot4(b, h, t, e, tensor.layout.stride@);
        lemma_reached(
            tensor,
            at4(b, h, t, e),
            b * strides.batch + h * strides.head + t * strides.token + e * step,
        );
    }
}

/// The bases and the strides of a launch lead to the elements of the queries, the keys and
/// the values, and the output is laid out as the queries are.
pub proof fn law_ck_launch_finds_operands(
    q: TensorInfo,
    k: TensorInfo,
    v: TensorInfo,
    mask_type: i32,
)
    requires
        q.wf() && q.layout.rank() == 4,
        k.wf() && k.layout.rank() == 4,
        v.wf() && v.layout.rank() == 4,
    ensures
        ({
            let launch = ck_launch(q, k, v, mask_type);
            &&& finds_elements(launch.q, launch.q_strides, q)
            &&& finds_elements(launch.k, launch.k_strides, k)
            &&& finds_elements(launch.v, launch.v_strides, v)
            &&& launch.out_strides == launch.q_strides
            &&& launch.mask_type == mask_type
        }),
        ck_storage_refusal(q, k, v).message is None <==> q.place == Place::Cuda && k.place
            == Place::Cuda && v.place == Place::Cuda,
{
    lemma_elements_found(q);
    lemma_elements_found(k);
    lemma_elements_found(v);
}

/// The kernel takes an attention exactly where all operands have four dimensions and
/// elements of bfloat16, their heads have one size, which is 128 or 256, and there is
/// more than one query; the sizes are those of the operands.
pub proof fn law_ck_shape_is_that_of_operands(q: TensorInfo, k: TensorInfo, v: TensorInfo)
    requires
        ck_refusal(q, k, v).message is None,
    ensures
        q.dims().len() == 4 && k.dims().len() == 4 && v.dims().len() == 4,
        ck_shape(q, k, v) is Some <==> {
            &&& q.dtype == DType::BF16 && k.dtype == DType::BF16 && v.dtype == DType::BF16
            &&& q.dims()[3] == 128 || q.dims()[3] == 256
            &&& k.dims()[3] == q.dims()[3] && v.dims()[3] == q.dims()[3]
            &&& q.dims()[2] > 1
        },
        ck_shape(q, k, v) matches Some(shape) ==> {
            &&& q.dims() == seq![shape.batch, shape.heads, shape.seq_len, shape.head_dim]
            &&& k.dims() == seq![k.dims()[0], shape.kv_heads, shape.kv_len, shape.head_dim]
            &&& q.place == Place::Cuda
        },
{
}

/// Operands of four dimensions are refused exactly where the kernel would take them and
/// they are not on a device.
pub proof fn law_ck_is_refused_for_reasons(q: TensorInfo, k: TensorInfo, v: TensorInfo)
    ensures
        ck_refusal(q, k, v).message is None <==> {
            &&& q.dims().len() == 4 && k.dims().len() == 4 && v.dims().len() == 4
            &&& ck_shape(q, k, v) is Some ==> q.place == Place::Cuda
        },
{
}

/// An attention is in range unless the kernel takes it and its output has more elements
/// than can be counted.
pub proof fn law_ck_is_in_range(q: TensorInfo, k: TensorInfo, v: TensorInfo)
    ensures
        ck_refusal(q, k, v).message is Some ==> ck_in_range(q, k, v),
        ck_shape(q, k, v) is None ==> ck_in_range(q, k, v),
        ck_refusal(q, k, v).message is None && ck_shape(q, k, v) is Some ==> (ck_in_range(q, k, v)
            <==> elements(q.dims()) <= usize::MAX),
{
    let d = q.dims();
    if d.len() == 4 {
        reveal_with_fuel(elements, 5);
        assert(d.drop_last().drop_last().drop_last().drop_last() =~= Seq::<usize>::empty());
        assert(1 * (d[0] as nat) == d[0]);
    }
}

/// A dense operand has the shape and the elements of the operand that was handed in, and
/// only their order in storage may differ.
pub proof fn law_dense_operands_are_the_same(dense: Tensor, tensor: Tensor, index: Seq<int>)
    requires
        is_dense(dense, tensor),
        in_shape(index, tensor_dims(tensor)),
    ensures
        row_major(dense),
        tensor_dims(dense) == tensor_dims(tensor),
        tensor_cell(dense, index) == tensor_cell(tensor, index),
        row_major(tensor) ==> dense == tensor,
{
}

} // verus!

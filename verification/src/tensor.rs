//! Tensors, as `candle_core` holds and reshapes them.
//!
//! The functions here hand work to `candle_core`. What they claim of it is
//! stated over the shape of a tensor and the element at each index. Tensors may
//! share storage; the claims are of what a tensor holds while no one writes to
//! its storage, and nothing in this library does. Nor do they speak of a machine
//! that runs out of memory: a new tensor may be larger than what it can hold.
use vstd::prelude::*;

use crate::paged::info::elements;
use crate::text::{same_text, Fault};

verus! {

#[verifier::external_type_specification]
#[verifier::external_body]
pub struct ExTensor(candle_core::Tensor);

#[verifier::external_type_specification]
#[verifier::external_body]
pub struct ExError(candle_core::Error);

/// The dimensions of a tensor.
pub uninterp spec fn tensor_dims(tensor: candle_core::Tensor) -> Seq<usize>;

/// The bits of the element of a tensor at an index.
pub uninterp spec fn tensor_cell(tensor: candle_core::Tensor, index: Seq<int>) -> int;

/// The element of a tensor at an index, as `u32`.
pub uninterp spec fn tensor_u32(tensor: candle_core::Tensor, index: Seq<int>) -> u32;

/// The bits of the element of a tensor at an index, as `f32`. There are none for
/// what is not a number, whose bits a conversion leaves open.
pub uninterp spec fn tensor_f32(tensor: candle_core::Tensor, index: Seq<int>) -> Option<u32>;

/// The name of the type of a tensor's elements.
pub uninterp spec fn tensor_type(tensor: candle_core::Tensor) -> Seq<char>;

/// The device of a tensor, by a number. That of the host is zero.
pub uninterp spec fn tensor_device(tensor: candle_core::Tensor) -> int;

/// Whether a tensor lies in its storage in the order that counts the last
/// dimension fastest, with nothing between its elements.
pub uninterp spec fn row_major(tensor: candle_core::Tensor) -> bool;

/// The text of an error.
pub uninterp spec fn error_text(error: candle_core::Error) -> Seq<char>;

/// Whether a tensor is in the memory of the host.
pub open spec fn on_host(tensor: candle_core::Tensor) -> bool {
    tensor_device(tensor) == 0
}

/// Whether two tensors are on one device.
pub open spec fn on_one_device(a: candle_core::Tensor, b: candle_core::Tensor) -> bool {
    tensor_device(a) == tensor_device(b)
}

/// The index of an element of a tensor of one dimension.
pub open spec fn at1(a: int) -> Seq<int> {
    seq![a]
}

/// The index of an element of a tensor of two dimensions.
pub open spec fn at2(a: int, b: int) -> Seq<int> {
    seq![a, b]
}

/// The index of an element of a tensor of three dimensions.
pub open spec fn at3(a: int, b: int, c: int) -> Seq<int> {
    seq![a, b, c]
}

/// The index of an element of a tensor of four dimensions.
pub open spec fn at4(a: int, b: int, c: int, d: int) -> Seq<int> {
    seq![a, b, c, d]
}

/// Whether an index points into a shape.
pub open spec fn in_shape(index: Seq<int>, dims: Seq<usize>) -> bool {
    &&& index.len() == dims.len()
    &&& forall|i: int| 0 <= i < dims.len() ==> 0 <= #[trigger] index[i] < dims[i]
}

/// The place of an index in the order that counts the last dimension fastest.
pub open spec fn flat(index: Seq<int>, dims: Seq<usize>) -> int
    decreases dims.len(),
{
    if dims.len() == 0 {
        0
    } else {
        flat(index.drop_last(), dims.drop_last()) * dims.last() + index.last()
    }
}

/// Whether two tensors have one shape and the same bits in each place.
pub open spec fn same_bits(a: candle_core::Tensor, b: candle_core::Tensor) -> bool {
    &&& tensor_dims(a) == tensor_dims(b)
    &&& forall|index: Seq<int>|
        in_shape(index, tensor_dims(b)) ==> #[trigger] tensor_cell(a, index) == tensor_cell(
            b,
            index,
        )
}

/// Whether two tensors have one shape and the same elements.
pub open spec fn same_tensor(a: candle_core::Tensor, b: candle_core::Tensor) -> bool {
    &&& same_bits(a, b)
    &&& forall|index: Seq<int>|
        in_shape(index, tensor_dims(b)) ==> #[trigger] tensor_u32(a, index) == tensor_u32(b, index)
}

/// Whether elements of a type are copied and converted on the host. Those of the
/// other types are only held there.
pub open spec fn plain_type(name: Seq<char>) -> bool {
    ||| name == "U8"@
    ||| name == "U32"@
    ||| name == "I16"@
    ||| name == "I32"@
    ||| name == "I64"@
    ||| name == "BF16"@
    ||| name == "F16"@
    ||| name == "F32"@
    ||| name == "F64"@
    ||| name == "F8E4M3"@
}

/// Whether two tensors have elements of one type and are on one device.
pub open spec fn same_kind(a: candle_core::Tensor, b: candle_core::Tensor) -> bool {
    tensor_type(a) == tensor_type(b) && on_one_device(a, b)
}

/// Whether a tensor can be copied without the help of a device.
pub open spec fn handy(tensor: candle_core::Tensor) -> bool {
    &&& on_host(tensor)
    &&& plain_type(tensor_type(tensor))
    &&& countable(tensor_dims(tensor))
}

/// Whether a tensor takes another shape without the help of a device.
pub open spec fn takes_shape(tensor: candle_core::Tensor) -> bool {
    row_major(tensor) || handy(tensor)
}

/// A size, or one for an empty dimension.
pub open spec fn one_or_more(n: usize) -> nat {
    if n == 0 {
        1
    } else {
        n as nat
    }
}

/// The elements of a shape, if its empty dimensions had one entry each.
pub open spec fn spread(dims: Seq<usize>) -> nat
    decreases dims.len(),
{
    if dims.len() == 0 {
        1
    } else {
        spread(dims.drop_last()) * one_or_more(dims.last())
    }
}

/// Whether the elements of a shape can be counted, whichever dimension is read
/// first.
pub open spec fn countable(dims: Seq<usize>) -> bool {
    spread(dims) <= usize::MAX
}

/// A shape has no more elements than its spread.
pub(crate) proof fn lemma_elements_within(dims: Seq<usize>)
    ensures
        elements(dims) <= spread(dims),
    decreases dims.len(),
{
    if dims.len() > 0 {
        lemma_elements_within(dims.drop_last());
        let (e, n) = (elements(dims.drop_last()), spread(dims.drop_last()));
        let (last, wide) = (dims.last() as nat, one_or_more(dims.last()));
        assert(e * last <= n * wide) by (nonlinear_arith)
            requires
                e <= n,
                last <= wide,
        ;
    }
}

/// The first dimensions of a shape spread no further than all.
pub(crate) proof fn lemma_spread_grows(dims: Seq<usize>, k: int)
    requires
        0 <= k <= dims.len(),
    ensures
        spread(dims.take(k)) <= spread(dims),
    decreases dims.len() - k,
{
    if k == dims.len() {
        assert(dims.take(k) =~= dims);
    } else {
        lemma_spread_grows(dims, k + 1);
        let next = dims.take(k + 1);
        assert(next.drop_last() =~= dims.take(k));
        let (n, last) = (spread(dims.take(k)), one_or_more(next.last()));
        assert(n <= n * last) by (nonlinear_arith)
            requires
                last >= 1,
        ;
    }
}

pub(crate) proof fn lemma_spread2(a: usize, b: usize)
    ensures
        spread(seq![a, b]) == one_or_more(a) * one_or_more(b),
{
    let dims = seq![a, b];
    reveal_with_fuel(spread, 3);
    assert(dims.drop_last() =~= seq![a]);
    assert(seq![a].drop_last() =~= Seq::<usize>::empty());
    assert(1 * one_or_more(a) == one_or_more(a));
}

pub(crate) proof fn lemma_spread3(a: usize, b: usize, c: usize)
    ensures
        spread(seq![a, b, c]) == one_or_more(a) * one_or_more(b) * one_or_more(c),
{
    assert(seq![a, b, c].drop_last() =~= seq![a, b]);
    lemma_spread2(a, b);
}

pub(crate) proof fn lemma_spread4(a: usize, b: usize, c: usize, d: usize)
    ensures
        spread(seq![a, b, c, d]) == one_or_more(a) * one_or_more(b) * one_or_more(c) * one_or_more(
            d,
        ),
{
    assert(seq![a, b, c, d].drop_last() =~= seq![a, b, c]);
    lemma_spread3(a, b, c);
}

pub(crate) proof fn lemma_spread1(a: usize)
    ensures
        spread(seq![a]) == one_or_more(a),
{
    reveal_with_fuel(spread, 2);
    assert(seq![a].drop_last() =~= Seq::<usize>::empty());
    assert(1 * one_or_more(a) == one_or_more(a));
}

/// A shape of two dimensions, one of them empty, can be counted.
pub(crate) proof fn lemma_makes2(a: usize, b: usize)
    ensures
        makes_shape(seq![a, b]),
{
    let dims = seq![a, b];
    lemma_spread2(a, b);
    if has_nothing(dims) {
        let i = choose|i: int| 0 <= i < dims.len() && #[trigger] dims[i] == 0;
        assert(i == 0 || i == 1);
        assert(1 * one_or_more(b) == one_or_more(b));
        assert(one_or_more(a) * 1 == one_or_more(a));
    }
}

/// A shape of one entry and two dimensions, one of them empty, can be counted.
pub(crate) proof fn lemma_makes3(a: usize, b: usize)
    ensures
        makes_shape(seq![1usize, a, b]),
{
    let dims = seq![1usize, a, b];
    lemma_spread3(1, a, b);
    if has_nothing(dims) {
        let i = choose|i: int| 0 <= i < dims.len() && #[trigger] dims[i] == 0;
        assert(i == 1 || i == 2);
        assert(1 * one_or_more(a) == one_or_more(a));
        assert(1 * one_or_more(b) == one_or_more(b));
        assert(one_or_more(a) * 1 == one_or_more(a));
    }
}

/// Exchanging two dimensions keeps the spread of a shape.
pub(crate) proof fn lemma_spread_exchanged(dims: Seq<usize>)
    requires
        dims.len() >= 3,
    ensures
        spread(exchanged(dims, 1, 2)) == spread(dims),
    decreases dims.len(),
{
    let other = exchanged(dims, 1, 2);
    if dims.len() == 3 {
        let (a, b, c) = (dims[0], dims[1], dims[2]);
        assert(dims =~= seq![a, b, c]);
        assert(other =~= seq![a, c, b]);
        lemma_spread3(a, b, c);
        lemma_spread3(a, c, b);
        let (x, y, z) = (one_or_more(a), one_or_more(b), one_or_more(c));
        assert(x * y * z == x * z * y) by (nonlinear_arith);
    } else {
        lemma_spread_exchanged(dims.drop_last());
        assert(other.drop_last() =~= exchanged(dims.drop_last(), 1, 2));
        assert(other.last() == dims.last());
    }
}

/// Exchanging two dimensions keeps the number of elements.
pub(crate) proof fn lemma_elements_exchanged(dims: Seq<usize>)
    requires
        dims.len() >= 3,
    ensures
        elements(exchanged(dims, 1, 2)) == elements(dims),
    decreases dims.len(),
{
    let other = exchanged(dims, 1, 2);
    if dims.len() == 3 {
        let (a, b, c) = (dims[0], dims[1], dims[2]);
        assert(dims.drop_last() =~= seq![a, b]);
        assert(other.drop_last() =~= seq![a, c]);
        assert(seq![a, b].drop_last() =~= seq![a]);
        assert(seq![a, c].drop_last() =~= seq![a]);
        let n = elements(seq![a]);
        assert(elements(seq![a, b]) == n * (b as nat));
        assert(elements(seq![a, c]) == n * (c as nat));
        assert(n * (b as nat) * (c as nat) == n * (c as nat) * (b as nat)) by (nonlinear_arith);
    } else {
        lemma_elements_exchanged(dims.drop_last());
        assert(other.drop_last() =~= exchanged(dims.drop_last(), 1, 2));
        assert(other.last() == dims.last());
    }
}

/// Whether the elements of a shape can be counted.
pub fn shape_counts(dims: &Vec<usize>) -> (counts: bool)
    ensures
        counts == countable(dims@),
{
    let mut count: usize = 1;
    let mut i: usize = 0;
    assert(dims@.take(0) =~= Seq::<usize>::empty());
    while i < dims.len()
        invariant
            i <= dims@.len(),
            count == spread(dims@.take(i as int)),
        decreases dims@.len() - i,
    {
        proof {
            let next = dims@.take(i + 1);
            assert(next.drop_last() =~= dims@.take(i as int));
            assert(next.last() == dims@[i as int]);
            lemma_spread_grows(dims@, i + 1);
        }
        let size: usize = if dims[i] == 0 {
            1
        } else {
            dims[i]
        };
        match count.checked_mul(size) {
            Some(next) => count = next,
            None => return false,
        }
        i = i + 1;
    }
    assert(dims@.take(i as int) =~= dims@);
    true
}

/// Whether the elements of a new shape can be counted, or fill more memory than
/// there is.
pub fn shape_is_made(dims: &Vec<usize>) -> (made: bool)
    ensures
        made == makes_shape(dims@),
{
    let mut i: usize = 0;
    while i < dims.len()
        invariant
            i <= dims@.len(),
            forall|k: int| 0 <= k < i ==> #[trigger] dims@[k] != 0,
        decreases dims@.len() - i,
    {
        if dims[i] == 0 {
            assert(dims@[i as int] == 0);
            return shape_counts(dims);
        }
        i = i + 1;
    }
    true
}

/// Whether the elements of a tensor can be counted. They cannot be where one
/// entry is repeated beyond measure.
pub fn tensor_counts(tensor: &candle_core::Tensor) -> (counts: bool)
    ensures
        counts == countable(tensor_dims(*tensor)),
{
    shape_counts(&dims_of(tensor))
}

/// `<candle_core::Error as ToString>::to_string`.
#[verifier::external_body]
fn text_of_error(error: &candle_core::Error) -> (text: String)
    ensures
        text@ == error_text(*error),
{
    error.to_string()
}

/// The refusal that an error of `candle_core` makes.
pub(crate) fn tensor_fault(error: candle_core::Error) -> (fault: Fault)
    ensures
        fault@ == error_text(error),
{
    Fault::new(text_of_error(&error))
}

/// `candle_core::Tensor::dims`.
#[verifier::external_body]
pub(crate) fn dims_of(tensor: &candle_core::Tensor) -> (dims: Vec<usize>)
    ensures
        dims@ == tensor_dims(*tensor),
{
    tensor.dims().to_vec()
}

/// `candle_core::Tensor::dtype`, by its name. Different types have different
/// names.
#[verifier::external_body]
pub(crate) fn type_of(tensor: &candle_core::Tensor) -> (name: String)
    ensures
        name@ == tensor_type(*tensor),
{
    format!("{:?}", tensor.dtype())
}

/// `candle_core::Tensor::is_contiguous`.
#[verifier::external_body]
fn is_contiguous(tensor: &candle_core::Tensor) -> (dense: bool)
    ensures
        dense == row_major(*tensor),
{
    tensor.is_contiguous()
}

/// Whether a tensor lies in row-major order, so that it takes another shape
/// without a copy.
pub fn is_row_major(tensor: &candle_core::Tensor) -> (dense: bool)
    ensures
        dense == row_major(*tensor),
{
    is_contiguous(tensor)
}

/// `candle_core::Device::is_cpu`, of the device of a tensor.
#[verifier::external_body]
fn is_cpu(tensor: &candle_core::Tensor) -> (host: bool)
    ensures
        host == (tensor_device(*tensor) == 0),
{
    tensor.device().is_cpu()
}

fn is_plain_type(name: &str) -> (plain: bool)
    ensures
        plain == plain_type(name@),
{
    same_text(name, "U8") || same_text(name, "U32") || same_text(name, "I16") || same_text(
        name,
        "I32",
    ) || same_text(name, "I64") || same_text(name, "BF16") || same_text(name, "F16") || same_text(
        name,
        "F32",
    ) || same_text(name, "F64") || same_text(name, "F8E4M3")
}

/// Whether a tensor can be copied without the help of a device.
pub fn is_handy(tensor: &candle_core::Tensor) -> (fits: bool)
    ensures
        fits == handy(*tensor),
{
    is_cpu(tensor) && is_plain_type(type_of(tensor).as_str()) && tensor_counts(tensor)
}

/// `candle_core::Device::same_device`, of the devices of two tensors.
#[verifier::external_body]
pub(crate) fn same_device(a: &candle_core::Tensor, b: &candle_core::Tensor) -> (same: bool)
    ensures
        same == (tensor_device(*a) == tensor_device(*b)),
{
    a.device().same_device(b.device())
}

/// `<candle_core::Tensor as Clone>::clone`: another handle of the same tensor.
#[verifier::external_body]
pub(crate) fn clone_tensor(tensor: &candle_core::Tensor) -> (copy: candle_core::Tensor)
    ensures
        copy == *tensor,
{
    tensor.clone()
}

/// `candle_core::Tensor::to_device`, to the device of another tensor: the tensor
/// itself where it is there already, and else one of the same bits. Another device
/// may fail to copy it, and what its elements convert to there is left open.
#[verifier::external_body]
pub(crate) fn moved_to(tensor: &candle_core::Tensor, like: &candle_core::Tensor) -> (moved: Result<
    candle_core::Tensor,
    candle_core::Error,
>)
    ensures
        on_one_device(*tensor, *like) ==> (moved matches Ok(moved) && moved == *tensor),
        moved matches Ok(moved) ==> {
            &&& same_bits(moved, *tensor)
            &&& tensor_type(moved) == tensor_type(*tensor)
            &&& on_one_device(moved, *like)
        },
{
    tensor.to_device(like.device())
}

/// The dimensions after `len` entries are taken of dimension `dim`.
pub open spec fn narrowed_dims(dims: Seq<usize>, dim: int, len: usize) -> Seq<usize> {
    dims.update(dim, len)
}

/// Whether dimension `dim` has `len` entries from `start` on.
pub open spec fn has_entries(dims: Seq<usize>, dim: usize, start: usize, len: usize) -> bool {
    dim < dims.len() && start + len <= dims[dim as int]
}

/// Whether the end of `len` entries from `start` on can be counted. It has to be
/// for a dimension of the greatest size only: in any other, entries that cannot
/// be counted are not there.
pub open spec fn end_counts(dims: Seq<usize>, dim: usize, start: usize, len: usize) -> bool {
    dim < dims.len() && dims[dim as int] == usize::MAX ==> start + len <= usize::MAX
}

/// Whether `part` is of the kind of `whole`, and holds the `len` entries of its
/// dimension `dim` from `start` on.
pub open spec fn is_narrowed(
    part: candle_core::Tensor,
    whole: candle_core::Tensor,
    dim: int,
    start: usize,
    len: usize,
) -> bool {
    &&& same_kind(part, whole)
    &&& tensor_dims(part) == narrowed_dims(tensor_dims(whole), dim, len)
    &&& forall|index: Seq<int>|
        in_shape(index, tensor_dims(part)) ==> #[trigger] tensor_cell(part, index) == tensor_cell(
            whole,
            index.update(dim, index[dim] + start),
        )
    &&& forall|index: Seq<int>|
        in_shape(index, tensor_dims(part)) ==> #[trigger] tensor_u32(part, index) == tensor_u32(
            whole,
            index.update(dim, index[dim] + start),
        )
}

/// `candle_core::Tensor::narrow`: the entries of one dimension from `start` on,
/// where they are all there.
#[verifier::external_body]
pub(crate) fn narrow(tensor: &candle_core::Tensor, dim: usize, start: usize, len: usize) -> (part:
    Result<candle_core::Tensor, candle_core::Error>)
    requires
        end_counts(tensor_dims(*tensor), dim, start, len),
    ensures
        part is Ok == has_entries(tensor_dims(*tensor), dim, start, len),
        part matches Ok(part) ==> is_narrowed(part, *tensor, dim as int, start, len),
{
    tensor.narrow(dim, start, len)
}

/// Whether two tensors of one kind hold the same elements in the same order, in
/// whatever shapes.
pub open spec fn same_order(a: candle_core::Tensor, b: candle_core::Tensor) -> bool {
    &&& same_kind(a, b)
    &&& forall|i: Seq<int>, j: Seq<int>|
        in_shape(i, tensor_dims(a)) && in_shape(j, tensor_dims(b)) && flat(i, tensor_dims(a))
            == flat(j, tensor_dims(b)) ==> #[trigger] tensor_cell(a, i) == #[trigger] tensor_cell(
            b,
            j,
        )
    &&& forall|i: Seq<int>, j: Seq<int>|
        in_shape(i, tensor_dims(a)) && in_shape(j, tensor_dims(b)) && flat(i, tensor_dims(a))
            == flat(j, tensor_dims(b)) ==> #[trigger] tensor_u32(a, i) == #[trigger] tensor_u32(
            b,
            j,
        )
}

/// `candle_core::Tensor::reshape`: the same elements in another shape, in row-major
/// order. It fails where the shapes differ in their number of elements. A tensor
/// that is not in row-major order is copied, which the device may fail to do.
#[verifier::external_body]
pub(crate) fn reshape(tensor: &candle_core::Tensor, shape: &Vec<usize>) -> (shaped: Result<
    candle_core::Tensor,
    candle_core::Error,
>)
    requires
        countable(shape@),
        countable(tensor_dims(*tensor)),
    ensures
        elements(shape@) != elements(tensor_dims(*tensor)) ==> shaped is Err,
        elements(shape@) == elements(tensor_dims(*tensor)) && takes_shape(*tensor) ==> shaped is Ok,
        shaped matches Ok(shaped) ==> {
            &&& tensor_dims(shaped) == shape@
            &&& same_order(shaped, *tensor)
            &&& row_major(shaped)
        },
{
    tensor.reshape(shape.as_slice())
}

/// A sequence with two entries exchanged.
pub open spec fn exchanged<T>(s: Seq<T>, a: int, b: int) -> Seq<T> {
    s.update(a, s[b]).update(b, s[a])
}

pub open spec fn has_dims(dims: Seq<usize>, a: usize, b: usize) -> bool {
    a < dims.len() && b < dims.len()
}

/// Whether `turned` is `tensor` with two dimensions exchanged.
pub open spec fn is_turned(
    turned: candle_core::Tensor,
    tensor: candle_core::Tensor,
    a: int,
    b: int,
) -> bool {
    &&& same_kind(turned, tensor)
    &&& tensor_dims(turned) == exchanged(tensor_dims(tensor), a, b)
    &&& forall|index: Seq<int>|
        in_shape(index, tensor_dims(turned)) ==> #[trigger] tensor_cell(turned, index)
            == tensor_cell(tensor, exchanged(index, a, b))
}

/// `candle_core::Tensor::transpose`: two dimensions exchanged, where both are
/// there.
#[verifier::external_body]
pub(crate) fn transpose(tensor: &candle_core::Tensor, a: usize, b: usize) -> (turned: Result<
    candle_core::Tensor,
    candle_core::Error,
>)
    ensures
        turned is Ok == has_dims(tensor_dims(*tensor), a, b),
        turned matches Ok(turned) ==> is_turned(turned, *tensor, a as int, b as int),
{
    tensor.transpose(a, b)
}

/// `candle_core::Tensor::contiguous`: the same tensor in row-major order, itself
/// where it is so already. Any other is copied, which the device may fail to do.
#[verifier::external_body]
pub(crate) fn contiguous(tensor: &candle_core::Tensor) -> (copy: Result<
    candle_core::Tensor,
    candle_core::Error,
>)
    requires
        countable(tensor_dims(*tensor)),
    ensures
        takes_shape(*tensor) ==> copy is Ok,
        row_major(*tensor) ==> (copy matches Ok(copy) && copy == *tensor),
        copy matches Ok(copy) ==> {
            &&& same_tensor(copy, *tensor)
            &&& same_kind(copy, *tensor)
            &&& row_major(copy)
        },
{
    tensor.contiguous()
}

/// The dimensions after `count` entries are selected of dimension `dim`.
pub open spec fn selected_dims(dims: Seq<usize>, count: nat, dim: usize) -> Seq<usize> {
    dims.update(dim as int, count as usize)
}

/// Whether a dimension of a shape is empty.
pub open spec fn has_nothing(dims: Seq<usize>) -> bool {
    exists|i: int| 0 <= i < dims.len() && #[trigger] dims[i] == 0
}

/// Whether the elements of a new shape can be counted, or fill more memory than
/// there is.
pub open spec fn makes_shape(dims: Seq<usize>) -> bool {
    has_nothing(dims) ==> countable(dims)
}

/// Whether all entries that are listed of dimension `dim` are there, and what they
/// make can be counted.
pub open spec fn can_select(dims: Seq<usize>, indexes: Seq<u32>, dim: usize) -> bool {
    &&& dim < dims.len()
    &&& countable(selected_dims(dims, indexes.len(), dim))
    &&& forall|k: int|
        0 <= k < indexes.len() ==> #[trigger] indexes[k] < dims[dim as int] && indexes[k] < u32::MAX
}

/// `candle_core::Tensor::index_select` with indexes of type `u32`: entry `k` of
/// dimension `dim` is entry `indexes[k]` of the tensor, for every index that is
/// there. Nothing is claimed of the others: `u32::MAX` may select zeros, and a
/// device may read past the end or fail. On the host it needs row-major order.
#[verifier::external_body]
pub(crate) fn index_select(tensor: &candle_core::Tensor, indexes: &Vec<u32>, dim: usize) -> (rows:
    Result<candle_core::Tensor, candle_core::Error>)
    requires
        countable(tensor_dims(*tensor)),
        dim < tensor_dims(*tensor).len() ==> makes_shape(
            selected_dims(tensor_dims(*tensor), indexes@.len(), dim),
        ),
    ensures
        dim >= tensor_dims(*tensor).len() ==> rows is Err,
        row_major(*tensor) && handy(*tensor) && can_select(tensor_dims(*tensor), indexes@, dim)
            ==> rows is Ok,
        rows matches Ok(rows) ==> {
            &&& tensor_dims(rows) == selected_dims(tensor_dims(*tensor), indexes@.len(), dim)
            &&& same_kind(rows, *tensor)
            &&& forall|index: Seq<int>|
                in_shape(index, tensor_dims(rows)) && indexes@[index[dim as int]] < tensor_dims(
                    *tensor,
                )[dim as int] && indexes@[index[dim as int]] < u32::MAX
                    ==> #[trigger] tensor_cell(rows, index) == tensor_cell(
                    *tensor,
                    index.update(dim as int, indexes@[index[dim as int]] as int),
                )
        },
{
    let indexes = candle_core::Tensor::new(indexes.as_slice(), tensor.device())?;
    tensor.index_select(&indexes, dim)
}

/// Whether `wide` is `tensor` with a dimension of one entry put in at `dim`.
pub open spec fn is_unsqueezed(
    wide: candle_core::Tensor,
    tensor: candle_core::Tensor,
    dim: int,
) -> bool {
    &&& same_kind(wide, tensor)
    &&& tensor_dims(wide) == tensor_dims(tensor).insert(dim, 1)
    &&& forall|index: Seq<int>|
        in_shape(index, tensor_dims(wide)) ==> #[trigger] tensor_cell(wide, index) == tensor_cell(
            tensor,
            index.remove(dim),
        )
    &&& forall|index: Seq<int>|
        in_shape(index, tensor_dims(wide)) ==> #[trigger] tensor_u32(wide, index) == tensor_u32(
            tensor,
            index.remove(dim),
        )
}

/// `candle_core::Tensor::unsqueeze`: a dimension of one entry put in at `dim`,
/// where that is not past the last dimension.
#[verifier::external_body]
pub(crate) fn unsqueeze(tensor: &candle_core::Tensor, dim: usize) -> (wide: Result<
    candle_core::Tensor,
    candle_core::Error,
>)
    ensures
        wide is Ok == (dim <= tensor_dims(*tensor).len()),
        wide matches Ok(wide) ==> is_unsqueezed(wide, *tensor, dim as int),
{
    tensor.unsqueeze(dim)
}

/// Whether `thin` is `tensor` without dimension `dim`, where that has one entry,
/// and else `tensor` itself.
pub open spec fn is_squeezed(
    thin: candle_core::Tensor,
    tensor: candle_core::Tensor,
    dim: int,
) -> bool {
    if tensor_dims(tensor)[dim] == 1 {
        &&& same_kind(thin, tensor)
        &&& tensor_dims(thin) == tensor_dims(tensor).remove(dim)
        &&& forall|index: Seq<int>|
            in_shape(index, tensor_dims(thin)) ==> #[trigger] tensor_cell(thin, index)
                == tensor_cell(tensor, index.insert(dim, 0))
        &&& forall|index: Seq<int>|
            in_shape(index, tensor_dims(thin)) ==> #[trigger] tensor_u32(thin, index) == tensor_u32(
                tensor,
                index.insert(dim, 0),
            )
    } else {
        thin == tensor
    }
}

/// `candle_core::Tensor::squeeze`: a dimension of one entry taken out; one of
/// any other size stays. It fails where the dimension is not there.
#[verifier::external_body]
pub(crate) fn squeeze(tensor: &candle_core::Tensor, dim: usize) -> (thin: Result<
    candle_core::Tensor,
    candle_core::Error,
>)
    ensures
        thin is Ok == has_dims(tensor_dims(*tensor), dim, dim),
        thin matches Ok(thin) ==> is_squeezed(thin, *tensor, dim as int),
{
    tensor.squeeze(dim)
}

/// `candle_core::Tensor::to_dtype` to `u32`: every element converted. A device
/// may fail to do so, and so may the host for elements that it only holds.
#[verifier::external_body]
pub(crate) fn to_u32(tensor: &candle_core::Tensor) -> (converted: Result<
    candle_core::Tensor,
    candle_core::Error,
>)
    requires
        countable(tensor_dims(*tensor)),
    ensures
        handy(*tensor) ==> converted is Ok,
        converted matches Ok(converted) ==> {
            &&& tensor_dims(converted) == tensor_dims(*tensor)
            &&& tensor_type(converted) == "U32"@
            &&& on_one_device(converted, *tensor)
            &&& forall|index: Seq<int>|
                in_shape(index, tensor_dims(converted)) ==> #[trigger] tensor_u32(converted, index)
                    == tensor_u32(*tensor, index)
        },
{
    tensor.to_dtype(candle_core::DType::U32)
}

/// `candle_core::Tensor::to_dtype` to `f32`: every element converted, in row-major
/// order, or the tensor itself where its elements are `f32`. A device may fail to
/// do so, and so may the host for elements that it only holds.
#[verifier::external_body]
pub(crate) fn to_f32(tensor: &candle_core::Tensor) -> (converted: Result<
    candle_core::Tensor,
    candle_core::Error,
>)
    requires
        countable(tensor_dims(*tensor)),
    ensures
        handy(*tensor) ==> converted is Ok,
        tensor_type(*tensor) == "F32"@ ==> (converted matches Ok(converted) && converted
            == *tensor),
        converted matches Ok(converted) ==> {
            &&& tensor_dims(converted) == tensor_dims(*tensor)
            &&& tensor_type(converted) == "F32"@
            &&& on_one_device(converted, *tensor)
            &&& tensor_type(*tensor) != "F32"@ ==> row_major(converted)
            &&& forall|index: Seq<int>|
                in_shape(index, tensor_dims(converted)) ==> (tensor_f32(
                    *tensor,
                    index,
                ) matches Some(bits) ==> #[trigger] tensor_cell(converted, index) == bits)
        },
{
    tensor.to_dtype(candle_core::DType::F32)
}

/// `candle_core::Tensor::to_vec2` for `u32`: the elements of a tensor of two
/// dimensions, row by row. It fails for any other rank and for elements that
/// are not `u32`, and where a device cannot be read.
#[verifier::external_body]
pub(crate) fn to_rows(tensor: &candle_core::Tensor) -> (rows: Result<
    Vec<Vec<u32>>,
    candle_core::Error,
>)
    requires
        countable(tensor_dims(*tensor)),
    ensures
        tensor_dims(*tensor).len() != 2 ==> rows is Err,
        tensor_dims(*tensor).len() == 2 && handy(*tensor) && tensor_type(*tensor) == "U32"@
            ==> rows is Ok,
        rows matches Ok(rows) ==> {
            &&& rows@.len() == tensor_dims(*tensor)[0]
            &&& forall|i: int|
                0 <= i < rows@.len() ==> (#[trigger] rows@[i])@.len() == tensor_dims(*tensor)[1]
            &&& forall|i: int, j: int|
                0 <= i < rows@.len() && 0 <= j < tensor_dims(*tensor)[1] ==> #[trigger] rows@[i]@[j]
                    == tensor_u32(*tensor, at2(i, j))
        },
{
    tensor.to_vec2::<u32>()
}

/// The entries of dimension `dim` in the first `n` tensors.
pub open spec fn joined_entries(tensors: Seq<candle_core::Tensor>, dim: int, n: int) -> nat
    decreases n,
{
    if n <= 0 {
        0
    } else {
        joined_entries(tensors, dim, n - 1) + tensor_dims(tensors[n - 1])[dim] as nat
    }
}

/// The dimensions of tensors that are joined in dimension `dim`.
pub open spec fn joined_dims(tensors: Seq<candle_core::Tensor>, dim: int) -> Seq<usize> {
    tensor_dims(tensors[0]).update(
        dim,
        joined_entries(tensors, dim, tensors.len() as int) as usize,
    )
}

/// Whether `whole` is of the kind of the first tensor, and holds the entries of
/// all one after another in dimension `dim`.
pub open spec fn is_joined(
    whole: candle_core::Tensor,
    tensors: Seq<candle_core::Tensor>,
    dim: int,
) -> bool {
    &&& same_kind(whole, tensors[0])
    &&& tensor_dims(whole) == joined_dims(tensors, dim)
    &&& forall|k: int, index: Seq<int>|
        0 <= k < tensors.len() && in_shape(index, tensor_dims(tensors[k])) ==> tensor_cell(
            whole,
            index.update(dim, index[dim] + joined_entries(tensors, dim, k)),
        ) == #[trigger] tensor_cell(tensors[k], index)
}

/// Whether all tensors have a dimension `dim`.
pub open spec fn all_span(tensors: Seq<candle_core::Tensor>, dim: usize) -> bool {
    forall|k: int| 0 <= k < tensors.len() ==> dim < tensor_dims(#[trigger] tensors[k]).len()
}

/// Whether the elements of every tensor can be counted.
pub open spec fn all_count(tensors: Seq<candle_core::Tensor>) -> bool {
    forall|k: int| 0 <= k < tensors.len() ==> countable(tensor_dims(#[trigger] tensors[k]))
}

/// Whether the elements of all tensors can be counted, and so can what they make.
pub open spec fn can_join(tensors: Seq<candle_core::Tensor>, dim: usize) -> bool {
    &&& all_count(tensors)
    &&& tensors.len() > 0 && all_span(tensors, dim) ==> {
        &&& joined_entries(tensors, dim as int, tensors.len() as int) <= usize::MAX
        &&& makes_shape(joined_dims(tensors, dim as int))
    }
}

/// Whether tensors differ in dimension `dim` at most, are all on the host, and
/// make a tensor there that can be counted.
pub open spec fn join_on_host(tensors: Seq<candle_core::Tensor>, dim: usize) -> bool {
    &&& tensors.len() > 0
    &&& dim < tensor_dims(tensors[0]).len()
    &&& plain_type(tensor_type(tensors[0]))
    &&& countable(joined_dims(tensors, dim as int))
    &&& forall|k: int|
        0 <= k < tensors.len() ==> {
            &&& on_host(#[trigger] tensors[k])
            &&& tensor_type(tensors[k]) == tensor_type(tensors[0])
            &&& tensor_dims(tensors[k]) == tensor_dims(tensors[0]).update(
                dim as int,
                tensor_dims(tensors[k])[dim as int],
            )
        }
}

/// `candle_core::Tensor::cat`: the entries of several tensors one after another
/// in one dimension. It fails for no tensors, and gives a single tensor back; it
/// also fails where the tensors differ in rank, type, device or another dimension,
/// or where a device cannot copy them.
#[verifier::external_body]
pub(crate) fn cat(tensors: &Vec<candle_core::Tensor>, dim: usize) -> (whole: Result<
    candle_core::Tensor,
    candle_core::Error,
>)
    requires
        can_join(tensors@, dim),
    ensures
        tensors@.len() == 0 ==> whole is Err,
        tensors@.len() == 1 ==> (whole matches Ok(whole) && whole == tensors@[0]),
        tensors@.len() > 1 && !all_span(tensors@, dim) ==> whole is Err,
        join_on_host(tensors@, dim) ==> whole is Ok,
        whole matches Ok(whole) ==> all_span(tensors@, dim) ==> is_joined(
            whole,
            tensors@,
            dim as int,
        ),
{
    candle_core::Tensor::cat(tensors.as_slice(), dim)
}

/// Whether tensors have one shape and one type, are all on the host, and make a
/// tensor there that can be counted.
pub open spec fn stack_on_host(tensors: Seq<candle_core::Tensor>) -> bool {
    &&& tensors.len() > 0
    &&& plain_type(tensor_type(tensors[0]))
    &&& countable(tensor_dims(tensors[0]).insert(0, tensors.len() as usize))
    &&& forall|k: int|
        0 <= k < tensors.len() ==> {
            &&& on_host(#[trigger] tensors[k])
            &&& tensor_type(tensors[k]) == tensor_type(tensors[0])
            &&& tensor_dims(tensors[k]) == tensor_dims(tensors[0])
        }
}

/// `candle_core::Tensor::stack` in dimension 0: one entry for each tensor. It
/// fails for no tensors; it also fails where the tensors differ in shape, type
/// or device, or where a device cannot copy them.
#[verifier::external_body]
pub(crate) fn stack_rows(tensors: &Vec<candle_core::Tensor>) -> (whole: Result<
    candle_core::Tensor,
    candle_core::Error,
>)
    requires
        all_count(tensors@),
        tensors@.len() > 0 ==> makes_shape(
            tensor_dims(tensors@[0]).insert(0, tensors@.len() as usize),
        ),
    ensures
        tensors@.len() == 0 ==> whole is Err,
        stack_on_host(tensors@) ==> whole is Ok,
        whole matches Ok(whole) ==> {
            &&& same_kind(whole, tensors@[0])
            &&& tensor_dims(whole) == tensor_dims(tensors@[0]).insert(0, tensors@.len() as usize)
            &&& forall|k: int, index: Seq<int>|
                0 <= k < tensors@.len() && in_shape(index, tensor_dims(tensors@[k]))
                    ==> tensor_cell(whole, index.insert(0, k)) == #[trigger] tensor_cell(
                    tensors@[k],
                    index,
                )
        },
{
    candle_core::Tensor::stack(tensors.as_slice(), 0)
}

// What follows from the claims.

/// Narrowing to all entries changes nothing.
pub proof fn law_narrow_to_all(
    part: candle_core::Tensor,
    whole: candle_core::Tensor,
    dim: int,
)
    requires
        0 <= dim < tensor_dims(whole).len(),
        is_narrowed(part, whole, dim, 0, tensor_dims(whole)[dim]),
    ensures
        same_tensor(part, whole),
        same_kind(part, whole),
{
    assert(tensor_dims(part) =~= tensor_dims(whole));
    assert forall|index: Seq<int>| in_shape(index, tensor_dims(whole)) implies #[trigger] tensor_cell(
        part,
        index,
    ) == tensor_cell(whole, index) by {
        assert(index.update(dim, index[dim] + 0) =~= index);
    }
    assert forall|index: Seq<int>| in_shape(index, tensor_dims(whole)) implies #[trigger] tensor_u32(
        part,
        index,
    ) == tensor_u32(whole, index) by {
        assert(index.update(dim, index[dim] + 0) =~= index);
    }
}

/// Narrowing from the start twice is narrowing once, to the smaller number.
pub proof fn law_narrow_composes(
    small: candle_core::Tensor,
    middle: candle_core::Tensor,
    whole: candle_core::Tensor,
    dim: int,
    m: usize,
    n: usize,
)
    requires
        0 <= dim < tensor_dims(whole).len(),
        m <= n,
        is_narrowed(middle, whole, dim, 0, n),
        is_narrowed(small, middle, dim, 0, m),
    ensures
        is_narrowed(small, whole, dim, 0, m),
{
    assert(tensor_dims(small) =~= narrowed_dims(tensor_dims(whole), dim, m));
    assert forall|index: Seq<int>| in_shape(index, tensor_dims(small)) implies in_shape(
        index,
        tensor_dims(middle),
    ) && index.update(dim, index[dim] + 0) == index by {
        assert(index.update(dim, index[dim] + 0) =~= index);
        assert(index[dim] < m);
        assert forall|i: int| 0 <= i < tensor_dims(middle).len() implies 0 <= #[trigger] index[i]
            < tensor_dims(middle)[i] by {}
    }
    assert forall|index: Seq<int>| in_shape(index, tensor_dims(small)) implies #[trigger] tensor_cell(
        small,
        index,
    ) == tensor_cell(whole, index.update(dim, index[dim] + 0)) by {
        assert(tensor_cell(middle, index) == tensor_cell(
            whole,
            index.update(dim, index[dim] + 0),
        ));
    }
    assert forall|index: Seq<int>| in_shape(index, tensor_dims(small)) implies #[trigger] tensor_u32(
        small,
        index,
    ) == tensor_u32(whole, index.update(dim, index[dim] + 0)) by {
        assert(tensor_u32(middle, index) == tensor_u32(
            whole,
            index.update(dim, index[dim] + 0),
        ));
    }
}

} // verus!

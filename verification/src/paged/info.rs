//! Tensors as a launch sees them: element type, layout, device and address.
use vstd::prelude::*;
use vstd::string::*;

use crate::text::{bracketed, bracketed_text, dec, decimal, outcome, Fault};

verus! {

/// The type of a tensor's elements.
#[derive(Clone, Copy, Debug, PartialEq, Eq, Structural)]
pub enum DType {
    U8,
    U32,
    I16,
    I32,
    I64,
    BF16,
    F16,
    F32,
    F64,
    F8E4M3,
    F6E2M3,
    F6E3M2,
    F4,
    F8E8M0,
}

impl DType {
    pub open spec fn name_text(self) -> Seq<char> {
        match self {
            DType::U8 => "U8"@,
            DType::U32 => "U32"@,
            DType::I16 => "I16"@,
            DType::I32 => "I32"@,
            DType::I64 => "I64"@,
            DType::BF16 => "BF16"@,
            DType::F16 => "F16"@,
            DType::F32 => "F32"@,
            DType::F64 => "F64"@,
            DType::F8E4M3 => "F8E4M3"@,
            DType::F6E2M3 => "F6E2M3"@,
            DType::F6E3M2 => "F6E3M2"@,
            DType::F4 => "F4"@,
            DType::F8E8M0 => "F8E8M0"@,
        }
    }

    /// The name of the type in messages.
    pub fn name(self) -> (name: &'static str)
        ensures
            name@ == self.name_text(),
    {
        match self {
            DType::U8 => "U8",
            DType::U32 => "U32",
            DType::I16 => "I16",
            DType::I32 => "I32",
            DType::I64 => "I64",
            DType::BF16 => "BF16",
            DType::F16 => "F16",
            DType::F32 => "F32",
            DType::F64 => "F64",
            DType::F8E4M3 => "F8E4M3",
            DType::F6E2M3 => "F6E2M3",
            DType::F6E3M2 => "F6E3M2",
            DType::F4 => "F4",
            DType::F8E8M0 => "F8E8M0",
        }
    }

    /// The bytes that one element takes. The types narrower than a byte have no
    /// size of their own.
    pub open spec fn bytes(self) -> nat {
        match self {
            DType::U8 => 1,
            DType::U32 => 4,
            DType::I16 => 2,
            DType::I32 => 4,
            DType::I64 => 8,
            DType::BF16 => 2,
            DType::F16 => 2,
            DType::F32 => 4,
            DType::F64 => 8,
            DType::F8E4M3 => 1,
            DType::F6E2M3 => 0,
            DType::F6E3M2 => 0,
            DType::F4 => 0,
            DType::F8E8M0 => 1,
        }
    }

    pub fn size_in_bytes(self) -> (size: usize)
        ensures
            size == self.bytes(),
            size <= 8,
    {
        match self {
            DType::U8 => 1,
            DType::U32 => 4,
            DType::I16 => 2,
            DType::I32 => 4,
            DType::I64 => 8,
            DType::BF16 => 2,
            DType::F16 => 2,
            DType::F32 => 4,
            DType::F64 => 8,
            DType::F8E4M3 => 1,
            DType::F6E2M3 => 0,
            DType::F6E3M2 => 0,
            DType::F4 => 0,
            DType::F8E8M0 => 1,
        }
    }
}

/// The strided layout of a tensor, in elements.
#[derive(Debug)]
pub struct Layout {
    pub dims: Vec<usize>,
    pub stride: Vec<usize>,
    pub start_offset: usize,
}

impl Layout {
    /// Every dimension has a stride.
    pub open spec fn wf(&self) -> bool {
        self.dims@.len() == self.stride@.len()
    }

    pub open spec fn rank(&self) -> nat {
        self.dims@.len()
    }

    pub open spec fn text(&self) -> Seq<char> {
        "Layout { shape: "@ + bracketed(self.dims@) + ", stride: "@ + bracketed(self.stride@)
            + ", start_offset: "@ + dec(self.start_offset as nat) + " }"@
    }

    /// The layout as messages show it.
    pub fn describe(&self) -> (text: String)
        ensures
            text@ == self.text(),
    {
        String::from_str("Layout { shape: ").concat(
            bracketed_text(self.dims.as_slice()).as_str(),
        ).concat(", stride: ").concat(bracketed_text(self.stride.as_slice()).as_str()).concat(
            ", start_offset: ",
        ).concat(decimal(self.start_offset as u64).as_str()).concat(" }")
    }
}

/// The place, in elements from the start of the storage, of an element.
pub open spec fn place(layout: Layout, index: Seq<int>) -> int
    recommends
        index.len() == layout.rank(),
{
    layout.start_offset + dot(index, layout.stride@)
}

pub open spec fn dot(index: Seq<int>, stride: Seq<usize>) -> int
    decreases index.len(),
{
    if index.len() == 0 {
        0
    } else {
        dot(index.drop_last(), stride) + index.last() * stride[index.len() - 1]
    }
}

/// Where the storage of a tensor is.
#[derive(Clone, Copy, Debug, PartialEq, Eq, Structural)]
pub enum Place {
    Host,
    Cuda,
}

/// A tensor, but for its elements.
#[derive(Debug)]
pub struct TensorInfo {
    pub dtype: DType,
    pub layout: Layout,
    pub place: Place,
    /// The address of the storage, where the tensor is on a device.
    pub address: u64,
}

/// The address of element `lo` of a storage whose elements take `bytes` bytes.
pub open spec fn element_address(address: u64, lo: usize, bytes: nat) -> int {
    address + lo * bytes
}

impl TensorInfo {
    /// The first element of a tensor has an address.
    pub open spec fn wf(&self) -> bool {
        &&& self.layout.wf()
        &&& element_address(self.address, self.layout.start_offset, self.dtype.bytes()) <= u64::MAX
        &&& self.layout.start_offset * self.dtype.bytes() <= usize::MAX
    }

    pub open spec fn dims(&self) -> Seq<usize> {
        self.layout.dims@
    }

    /// The address of the first element.
    pub open spec fn first(&self) -> u64 {
        element_address(self.address, self.layout.start_offset, self.dtype.bytes()) as u64
    }
}

/// The address of element `lo` of a storage, where `address` is that of the
/// storage on some stream.
pub fn slice_ptr_on_stream(address: u64, lo: usize, bytes: usize) -> (ptr: u64)
    requires
        element_address(address, lo, bytes as nat) <= u64::MAX,
        lo * bytes <= usize::MAX,
    ensures
        ptr == element_address(address, lo, bytes as nat),
{
    address + (lo * bytes) as u64
}

/// The address of element `lo` of a storage, where `address` is that of the
/// storage on its own stream.
pub fn slice_ptr(address: u64, lo: usize, bytes: usize) -> (ptr: u64)
    requires
        element_address(address, lo, bytes as nat) <= u64::MAX,
        lo * bytes <= usize::MAX,
    ensures
        ptr == element_address(address, lo, bytes as nat),
{
    slice_ptr_on_stream(address, lo, bytes)
}

/// Tests whether element `lo` of a storage has an address.
pub fn slice_ptr_fits(address: u64, lo: usize, bytes: usize) -> (fits: bool)
    ensures
        fits == (element_address(address, lo, bytes as nat) <= u64::MAX && lo * bytes
            <= usize::MAX),
{
    match lo.checked_mul(bytes) {
        Some(offset) => address.checked_add(offset as u64).is_some(),
        None => false,
    }
}

impl TensorInfo {
    /// Tests whether the tensor is well formed.
    pub fn is_wf(&self) -> (wf: bool)
        ensures
            wf == self.wf(),
    {
        self.layout.dims.len() == self.layout.stride.len() && slice_ptr_fits(
            self.address,
            self.layout.start_offset,
            self.dtype.size_in_bytes(),
        )
    }

    /// The address of the first element.
    pub(crate) fn first_address(&self) -> (ptr: u64)
        requires
            self.wf(),
        ensures
            ptr == self.first(),
    {
        slice_ptr(self.address, self.layout.start_offset, self.dtype.size_in_bytes())
    }
}

// Messages about tensors.

pub open spec fn off_device(name: Seq<char>) -> Seq<char> {
    name + " must be a cuda tensor"@
}

pub(crate) fn off_device_fault(name: &str) -> (fault: Fault)
    ensures
        fault@ == off_device(name@),
{
    Fault::new(String::from_str(name).concat(" must be a cuda tensor"))
}

pub open spec fn wrong_dtype(expected: DType, got: DType) -> Seq<char> {
    "unexpected dtype, expected: "@ + expected.name_text() + ", got: "@ + got.name_text()
}

pub(crate) fn wrong_dtype_fault(expected: DType, got: DType) -> (fault: Fault)
    ensures
        fault@ == wrong_dtype(expected, got),
{
    Fault::new(
        String::from_str("unexpected dtype, expected: ").concat(expected.name()).concat(
            ", got: ",
        ).concat(got.name()),
    )
}

/// The refusal of a tensor whose elements are not of type `expected`.
pub open spec fn dtype_check(expected: DType, got: DType) -> Result<(), Seq<char>> {
    if expected == got {
        Ok(())
    } else {
        Err(wrong_dtype(expected, got))
    }
}

pub(crate) fn check_dtype(expected: DType, got: DType) -> (r: Result<(), Fault>)
    ensures
        outcome(r) == dtype_check(expected, got),
{
    if expected == got {
        Ok(())
    } else {
        Err(wrong_dtype_fault(expected, got))
    }
}

pub open spec fn device_check(tensor: TensorInfo, name: Seq<char>) -> Result<(), Seq<char>> {
    if tensor.place == Place::Cuda {
        Ok(())
    } else {
        Err(off_device(name))
    }
}

pub(crate) fn check_device(tensor: &TensorInfo, name: &str) -> (r: Result<(), Fault>)
    ensures
        outcome(r) == device_check(*tensor, name@),
{
    if tensor.place == Place::Cuda {
        Ok(())
    } else {
        Err(off_device_fault(name))
    }
}

pub open spec fn wrong_rank(expected: nat, dims: Seq<usize>) -> Seq<char> {
    "unexpected rank, expected: "@ + dec(expected) + ", got: "@ + dec(dims.len()) + " ("@
        + bracketed(dims) + ")"@
}

/// The refusal of a shape that has not `expected` dimensions.
pub open spec fn rank_check(expected: nat, dims: Seq<usize>) -> Result<(), Seq<char>> {
    if dims.len() == expected {
        Ok(())
    } else {
        Err(wrong_rank(expected, dims))
    }
}

pub(crate) fn check_rank(expected: usize, dims: &Vec<usize>) -> (r: Result<(), Fault>)
    ensures
        outcome(r) == rank_check(expected as nat, dims@),
{
    if dims.len() == expected {
        return Ok(());
    }
    Err(
        Fault::new(
            String::from_str("unexpected rank, expected: ").concat(
                decimal(expected as u64).as_str(),
            ).concat(", got: ").concat(decimal(dims.len() as u64).as_str()).concat(" (").concat(
                bracketed_text(dims.as_slice()).as_str(),
            ).concat(")"),
        ),
    )
}

pub(crate) fn same_dims(a: &[usize], b: &[usize]) -> (same: bool)
    ensures
        same == (a@ == b@),
{
    if a.len() != b.len() {
        return false;
    }
    let mut i: usize = 0;
    while i < a.len()
        invariant
            i <= a@.len(),
            a@.len() == b@.len(),
            forall|k: int| 0 <= k < i ==> a@[k] == b@[k],
        decreases a@.len() - i,
    {
        if a[i] != b[i] {
            return false;
        }
        i = i + 1;
    }
    assert(a@ =~= b@);
    true
}

// Element counts.

/// The number of elements of a shape.
pub open spec fn elements(dims: Seq<usize>) -> nat
    decreases dims.len(),
{
    if dims.len() == 0 {
        1
    } else {
        elements(dims.drop_last()) * dims.last() as nat
    }
}

pub open spec fn all_one(dims: Seq<usize>) -> bool {
    forall|i: int| 0 <= i < dims.len() ==> #[trigger] dims[i] == 1
}

/// A shape has one element exactly if all its dimensions are one.
pub proof fn law_one_element(dims: Seq<usize>)
    ensures
        elements(dims) == 1 <==> all_one(dims),
    decreases dims.len(),
{
    if dims.len() > 0 {
        let rest = dims.drop_last();
        law_one_element(rest);
        let a = elements(rest);
        let b = dims.last() as nat;
        if all_one(dims) {
            assert(all_one(rest));
        }
        if a * b == 1 {
            assert(a == 1 && b == 1) by (nonlinear_arith)
                requires
                    a * b == 1,
            ;
            assert forall|i: int| 0 <= i < dims.len() implies #[trigger] dims[i] == 1 by {
                if i < dims.len() - 1 {
                    assert(rest[i] == dims[i]);
                }
            }
        }
        if all_one(dims) {
            assert(dims.last() == 1);
        }
    }
}

pub(crate) fn has_one_element(dims: &Vec<usize>) -> (one: bool)
    ensures
        one == (elements(dims@) == 1),
{
    proof {
        law_one_element(dims@);
    }
    let mut i: usize = 0;
    while i < dims.len()
        invariant
            i <= dims@.len(),
            forall|k: int| 0 <= k < i ==> #[trigger] dims@[k] == 1,
            elements(dims@) == 1 <==> all_one(dims@),
        decreases dims@.len() - i,
    {
        if dims[i] != 1 {
            return false;
        }
        i = i + 1;
    }
    true
}

// Addresses of elements.

/// The index whose places are all zero.
pub open spec fn origin(rank: nat) -> Seq<int> {
    Seq::new(rank, |i: int| 0)
}

/// The index of the first element of row `s` in the first dimension.
pub open spec fn row_start(rank: nat, s: int) -> Seq<int> {
    origin(rank).update(0, s)
}

/// The index of the first element of head `h` in block `b`: the first two
/// dimensions are blocks and heads.
pub open spec fn head_start(rank: nat, b: int, h: int) -> Seq<int> {
    origin(rank).update(0, b).update(1, h)
}

/// The address of an element of a tensor: so many elements, each of the size of its
/// type, behind the start of the storage as the layout says.
pub open spec fn address_of(tensor: TensorInfo, index: Seq<int>) -> int {
    tensor.address + place(tensor.layout, index) * tensor.dtype.bytes()
}

/// Whether a pointer is the address of the first element of an operand, and missing
/// exactly where the operand is.
pub open spec fn points_at(ptr: Option<u64>, tensor: Option<TensorInfo>) -> bool {
    match (ptr, tensor) {
        (Some(ptr), Some(tensor)) => ptr == address_of(tensor, origin(tensor.layout.rank())),
        (None, None) => true,
        _ => false,
    }
}

proof fn lemma_dot_origin(rank: nat, stride: Seq<usize>)
    ensures
        dot(origin(rank), stride) == 0,
    decreases rank,
{
    if rank > 0 {
        let less = (rank - 1) as nat;
        lemma_dot_origin(less, stride);
        assert(origin(rank).drop_last() =~= origin(less));
        assert(0 * stride[rank - 1] == 0);
    }
}

/// The first element of a tensor lies at its origin.
pub proof fn law_first_element_is_at_the_origin(tensor: TensorInfo)
    requires
        tensor.wf(),
    ensures
        tensor.first() == address_of(tensor, origin(tensor.layout.rank())),
{
    lemma_dot_origin(tensor.layout.rank(), tensor.layout.stride@);
    assert(tensor.layout.start_offset * tensor.dtype.bytes() >= 0) by (nonlinear_arith);
}

/// An element lies so many elements behind the first as its strides say.
pub(crate) proof fn lemma_reached(tensor: TensorInfo, index: Seq<int>, offset: int)
    requires
        tensor.wf(),
        dot(index, tensor.layout.stride@) == offset,
    ensures
        address_of(tensor, index) == tensor.first() + offset * tensor.dtype.bytes(),
{
    let start = tensor.layout.start_offset as int;
    let bytes = tensor.dtype.bytes() as int;
    assert((start + offset) * bytes == start * bytes + offset * bytes) by (nonlinear_arith);
    assert(tensor.layout.start_offset * tensor.dtype.bytes() >= 0) by (nonlinear_arith);
}

pub(crate) proof fn lemma_nothing(stride: Seq<usize>)
    ensures
        forall|i: int| 0 * #[trigger] stride[i] == 0,
{
    assert forall|i: int| 0 * #[trigger] stride[i] == 0 by {
        let step = stride[i] as int;
        assert(0 * step == 0) by (nonlinear_arith);
    }
}

pub(crate) proof fn lemma_dot1(a: int, stride: Seq<usize>)
    ensures
        dot(seq![a], stride) == a * stride[0],
{
    reveal_with_fuel(dot, 2);
    assert(seq![a].drop_last() =~= Seq::<int>::empty());
}

pub(crate) proof fn lemma_dot2(a: int, b: int, stride: Seq<usize>)
    ensures
        dot(seq![a, b], stride) == a * stride[0] + b * stride[1],
{
    lemma_dot1(a, stride);
    reveal_with_fuel(dot, 2);
    assert(seq![a, b].drop_last() =~= seq![a]);
}

pub(crate) proof fn lemma_dot3(a: int, b: int, c: int, stride: Seq<usize>)
    ensures
        dot(seq![a, b, c], stride) == a * stride[0] + b * stride[1] + c * stride[2],
{
    lemma_dot2(a, b, stride);
    reveal_with_fuel(dot, 2);
    assert(seq![a, b, c].drop_last() =~= seq![a, b]);
}

pub(crate) proof fn lemma_dot4(a: int, b: int, c: int, d: int, stride: Seq<usize>)
    ensures
        dot(seq![a, b, c, d], stride) == a * stride[0] + b * stride[1] + c * stride[2] + d
            * stride[3],
{
    lemma_dot3(a, b, c, stride);
    reveal_with_fuel(dot, 2);
    assert(seq![a, b, c, d].drop_last() =~= seq![a, b, c]);
}

pub(crate) proof fn lemma_dot5(a: int, b: int, c: int, d: int, e: int, stride: Seq<usize>)
    ensures
        dot(seq![a, b, c, d, e], stride) == a * stride[0] + b * stride[1] + c * stride[2] + d
            * stride[3] + e * stride[4],
{
    lemma_dot4(a, b, c, d, stride);
    reveal_with_fuel(dot, 2);
    assert(seq![a, b, c, d, e].drop_last() =~= seq![a, b, c, d]);
}

/// A type with a name that ends in a number of bits takes as many: its name is a few
/// letters and then eight times the bytes of an element.
pub proof fn law_names_tell_sizes(dtype: DType)
    ensures
        match dtype {
            DType::U8 | DType::U32 => dtype.name_text() == "U"@ + dec(8 * dtype.bytes()),
            DType::I16 | DType::I32 | DType::I64 => dtype.name_text() == "I"@ + dec(
                8 * dtype.bytes(),
            ),
            DType::BF16 => dtype.name_text() == "BF"@ + dec(8 * dtype.bytes()),
            DType::F16 | DType::F32 | DType::F64 => dtype.name_text() == "F"@ + dec(
                8 * dtype.bytes(),
            ),
            DType::F8E4M3 | DType::F8E8M0 => dtype.bytes() == 1,
            DType::F6E2M3 | DType::F6E3M2 | DType::F4 => dtype.bytes() == 0,
        },
{
    reveal_strlit("U");
    reveal_strlit("I");
    reveal_strlit("F");
    reveal_strlit("BF");
    reveal_strlit("U8");
    reveal_strlit("U32");
    reveal_strlit("I16");
    reveal_strlit("I32");
    reveal_strlit("I64");
    reveal_strlit("BF16");
    reveal_strlit("F16");
    reveal_strlit("F32");
    reveal_strlit("F64");
    reveal_with_fuel(dec, 3);
    assert("U8"@ =~= "U"@ + dec(8));
    assert("U32"@ =~= "U"@ + dec(32));
    assert("I16"@ =~= "I"@ + dec(16));
    assert("I32"@ =~= "I"@ + dec(32));
    assert("I64"@ =~= "I"@ + dec(64));
    assert("BF16"@ =~= "BF"@ + dec(16));
    assert("F16"@ =~= "F"@ + dec(16));
    assert("F32"@ =~= "F"@ + dec(32));
    assert("F64"@ =~= "F"@ + dec(64));
}

/// A check of a rank, a type or a device holds exactly where the tensor has what is
/// expected of it.
pub proof fn law_checks_hold(
    rank: nat,
    dims: Seq<usize>,
    expected: DType,
    got: DType,
    tensor: TensorInfo,
    name: Seq<char>,
)
    ensures
        rank_check(rank, dims) is Ok <==> dims.len() == rank,
        dtype_check(expected, got) is Ok <==> expected == got,
        device_check(tensor, name) is Ok <==> tensor.place == Place::Cuda,
{
}

/// A shape has as many elements as its first dimension has entries, times those of an
/// entry.
pub proof fn law_elements_multiply(n: usize, dims: Seq<usize>)
    ensures
        elements(seq![n] + dims) == n * elements(dims),
        elements(Seq::<usize>::empty()) == 1,
    decreases dims.len(),
{
    let whole = seq![n] + dims;
    if dims.len() > 0 {
        law_elements_multiply(n, dims.drop_last());
        assert(whole.drop_last() =~= seq![n] + dims.drop_last());
        assert(whole.last() == dims.last());
        let part = elements(whole.drop_last());
        let (a, b) = (elements(dims.drop_last()), dims.last() as nat);
        assert(part * b == n * (a * b)) by (nonlinear_arith)
            requires
                part == n * a,
        ;
        assert(elements(whole) == part * b);
        assert(elements(dims) == a * b);
    } else {
        assert(whole =~= seq![n]);
        assert(whole.drop_last() =~= Seq::<usize>::empty());
        assert(elements(Seq::<usize>::empty()) == 1);
        assert(elements(whole) == elements(whole.drop_last()) * (n as nat));
        assert(1 * (n as nat) == n);
        let one = elements(dims);
        assert(n * one == n) by (nonlinear_arith)
            requires
                one == 1,
        ;
    }
}

} // verus!

//! Quantized caches: the kinds, the kernel codes and the scales that go with
//! them.
use vstd::prelude::*;
use vstd::string::*;

use crate::paged::info::{
    all_one, elements, has_one_element, law_one_element, DType, TensorInfo,
};
use crate::text::{outcome, Fault};

verus! {

/// Block-quantized payloads of a cache. Both are stored as bytes, with a scale
/// for every 32 elements beside them, so a byte tensor alone does not tell
/// them apart.
#[derive(Clone, Copy, Debug, PartialEq, Eq, Structural)]
pub enum BlockQuantKind {
    Q8_0,
    Q4_0,
}

impl BlockQuantKind {
    pub open spec fn code(self) -> u32 {
        match self {
            BlockQuantKind::Q8_0 => 4,
            BlockQuantKind::Q4_0 => 5,
        }
    }

    /// The kernel's code for a cache of this kind.
    pub fn cache_dtype(self) -> (code: u32)
        ensures
            code == self.code(),
    {
        match self {
            BlockQuantKind::Q8_0 => 4,
            BlockQuantKind::Q4_0 => 5,
        }
    }
}

/// The kernel's code for a native or fp8 cache.
pub open spec fn native_code(dtype: DType) -> Option<u32> {
    match dtype {
        DType::F16 => Some(0),
        DType::BF16 => Some(1),
        DType::F32 => Some(2),
        DType::F8E4M3 => Some(3),
        _ => None,
    }
}

/// The kernel's code for one side of a cache: that of its block kind, if it
/// has one, and else that of its elements.
pub open spec fn side_code(dtype: DType, kind: Option<BlockQuantKind>) -> Option<u32> {
    match kind {
        Some(kind) => Some(kind.code()),
        None => native_code(dtype),
    }
}

/// The kernel's code for one side of a cache: 0, 1 and 2 for native elements, 3
/// for fp8, 4 and 5 by the block kind. `None` for anything else.
pub fn side_cache_dtype(dtype: DType, kind: Option<BlockQuantKind>) -> (code: Option<u32>)
    ensures
        code == side_code(dtype, kind),
{
    if let Some(kind) = kind {
        return Some(kind.cache_dtype());
    }
    match dtype {
        DType::F16 => Some(0),
        DType::BF16 => Some(1),
        DType::F32 => Some(2),
        DType::F8E4M3 => Some(3),
        _ => None,
    }
}

/// A code tells the payload: no two kinds of cache share one.
pub proof fn law_side_codes_differ(
    a: DType,
    a_kind: Option<BlockQuantKind>,
    b: DType,
    b_kind: Option<BlockQuantKind>,
)
    requires
        side_code(a, a_kind) is Some,
        side_code(a, a_kind) == side_code(b, b_kind),
    ensures
        a_kind == b_kind,
        a_kind is None ==> a == b,
{
}

/// The refusal of a scale that does not go with a cache.
pub open spec fn side_scales(
    cache_dtype: DType,
    scale: Option<TensorInfo>,
    side: Seq<char>,
    op: Seq<char>,
) -> Result<(), Seq<char>> {
    match (cache_dtype, scale) {
        (DType::F8E4M3, Some(scale)) => if scale.dtype == DType::F32 && elements(scale.dims())
            == 1 {
            Ok(())
        } else {
            Err(op + " requires a scalar f32 "@ + side + " scale for an f8e4m3 cache"@)
        },
        (DType::F8E4M3, None) => Err(
            op + " requires an explicit "@ + side + " scale for an f8e4m3 cache"@,
        ),
        (DType::U8, Some(scale)) => if scale.dtype == DType::F32 {
            Ok(())
        } else {
            Err(op + " requires an f32 "@ + side + " scale sidecar for a block-quantized cache"@)
        },
        (DType::U8, None) => Err(
            op + " requires an explicit "@ + side
                + " scale sidecar for a block-quantized cache"@,
        ),
        (_, None) => Ok(()),
        (_, Some(_)) => Err(
            op + " only accepts a "@ + side + " scale for an f8e4m3 or block-quantized cache"@,
        ),
    }
}

fn side_fault(op: &str, before: &str, side: &str, after: &str) -> (fault: Fault)
    ensures
        fault@ == op@ + before@ + side@ + after@,
{
    Fault::new(String::from_str(op).concat(before).concat(side).concat(after))
}

/// Checks that one side of a cache has the scale that it needs: one number for
/// fp8, a tensor of numbers for block-quantized payloads, none for the rest.
pub fn validate_side_scales(
    cache_dtype: DType,
    scale: &Option<TensorInfo>,
    side: &str,
    op: &str,
) -> (r: Result<(), Fault>)
    ensures
        outcome(r) == side_scales(cache_dtype, *scale, side@, op@),
{
    match (cache_dtype, scale) {
        (DType::F8E4M3, Some(scale)) => {
            if scale.dtype != DType::F32 || !has_one_element(&scale.layout.dims) {
                return Err(
                    side_fault(op, " requires a scalar f32 ", side, " scale for an f8e4m3 cache"),
                );
            }
        },
        (DType::F8E4M3, None) => {
            return Err(
                side_fault(op, " requires an explicit ", side, " scale for an f8e4m3 cache"),
            );
        },
        (DType::U8, Some(scale)) => {
            if scale.dtype != DType::F32 {
                return Err(
                    side_fault(
                        op,
                        " requires an f32 ",
                        side,
                        " scale sidecar for a block-quantized cache",
                    ),
                );
            }
        },
        (DType::U8, None) => {
            return Err(
                side_fault(
                    op,
                    " requires an explicit ",
                    side,
                    " scale sidecar for a block-quantized cache",
                ),
            );
        },
        (_, None) => {},
        _ => {
            return Err(
                side_fault(
                    op,
                    " only accepts a ",
                    side,
                    " scale for an f8e4m3 or block-quantized cache",
                ),
            );
        },
    }
    Ok(())
}

/// The codes are those of the kernels, and count up with the payloads.
pub proof fn law_codes_are_those_of_the_kernels(dtype: DType, kind: BlockQuantKind)
    ensures
        side_code(dtype, Some(kind)) == Some(
            if kind == BlockQuantKind::Q8_0 {
                4u32
            } else {
                5u32
            },
        ),
        side_code(DType::F16, None) == Some(0u32),
        side_code(DType::BF16, None) == Some(1u32),
        side_code(DType::F32, None) == Some(2u32),
        side_code(DType::F8E4M3, None) == Some(3u32),
        side_code(dtype, None) is Some <==> {
            ||| dtype == DType::F16
            ||| dtype == DType::BF16
            ||| dtype == DType::F32
            ||| dtype == DType::F8E4M3
        },
{
}

/// What goes with a cache is settled by its elements: one number in fp8, numbers
/// beside bytes, and nothing beside any other.
pub proof fn law_scales_go_with_caches(
    cache_dtype: DType,
    scale: Option<TensorInfo>,
    side: Seq<char>,
    op: Seq<char>,
)
    ensures
        side_scales(cache_dtype, scale, side, op) is Ok <==> if cache_dtype == DType::F8E4M3
            || cache_dtype == DType::U8 {
            &&& scale matches Some(scale)
            &&& scale.dtype == DType::F32
            &&& cache_dtype == DType::F8E4M3 ==> forall|i: int|
                0 <= i < scale.dims().len() ==> #[trigger] scale.dims()[i] == 1
        } else {
            scale is None
        },
{
    if let Some(scale) = scale {
        law_one_element(scale.dims());
        assert(all_one(scale.dims()) == forall|i: int|
            0 <= i < scale.dims().len() ==> #[trigger] scale.dims()[i] == 1);
    }
}

} // verus!

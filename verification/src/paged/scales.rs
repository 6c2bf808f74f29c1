//! The scales of block-quantized caches, found by the cache that they belong to.
use candle_core::Tensor;
use vstd::prelude::*;

use crate::cache_map::{CacheKey, CacheMap};
use crate::paged::quant::BlockQuantKind;
use crate::sync::setting_text;
use crate::tensor::clone_tensor;
use crate::text::{chars_of, same_text};

verus! {

/// The scales of a layer, of either side that is block-quantized, and the bits
/// that refine it where they are kept.
pub struct BlockQuantScales {
    pub k: Option<Tensor>,
    pub v: Option<Tensor>,
    pub k_kind: Option<BlockQuantKind>,
    pub v_kind: Option<BlockQuantKind>,
    pub k_res: Option<Tensor>,
    pub v_res: Option<Tensor>,
}

/// The scales of a layer of which both sides have eight bits.
pub struct Q8LayerScales {
    pub k: Tensor,
    pub v: Tensor,
}

/// The entry on file for a cache, where there is one.
pub open spec fn on_file<V>(registry: Map<CacheKey, V>, key: CacheKey) -> Option<V> {
    if registry.contains_key(key) {
        Some(registry[key])
    } else {
        None
    }
}

fn copy_optional(tensor: &Option<Tensor>) -> (copy: Option<Tensor>)
    ensures
        copy == *tensor,
{
    match tensor {
        Some(tensor) => Some(clone_tensor(tensor)),
        None => None,
    }
}

/// Files the scales of a cache, in place of those that it had.
pub fn register_block_scales(
    registry: &mut CacheMap<BlockQuantScales>,
    key: CacheKey,
    scales: BlockQuantScales,
)
    ensures
        final(registry)@ == old(registry)@.insert(key, scales),
{
    registry.insert(key, scales);
}

/// The scales of a cache, where it has any.
pub fn lookup_block_scales(registry: &CacheMap<BlockQuantScales>, key: CacheKey) -> (scales:
    Option<BlockQuantScales>)
    ensures
        scales == on_file(registry@, key),
{
    match registry.get(key) {
        Some(scales) => Some(
            BlockQuantScales {
                k: copy_optional(&scales.k),
                v: copy_optional(&scales.v),
                k_kind: scales.k_kind,
                v_kind: scales.v_kind,
                k_res: copy_optional(&scales.k_res),
                v_res: copy_optional(&scales.v_res),
            },
        ),
        None => None,
    }
}

/// Drops the scales of a cache.
pub fn unregister_block_scales(registry: &mut CacheMap<BlockQuantScales>, key: CacheKey)
    ensures
        final(registry)@ == old(registry)@.remove(key),
{
    registry.remove(key);
}

/// Files the scales of a cache, in place of those that it had.
pub fn register_q8_scales(
    registry: &mut CacheMap<Q8LayerScales>,
    key: CacheKey,
    scales: Q8LayerScales,
)
    ensures
        final(registry)@ == old(registry)@.insert(key, scales),
{
    registry.insert(key, scales);
}

/// The scales of a cache, where it has any.
pub fn lookup_q8_scales(registry: &CacheMap<Q8LayerScales>, key: CacheKey) -> (scales:
    Option<Q8LayerScales>)
    ensures
        scales == on_file(registry@, key),
{
    match registry.get(key) {
        Some(scales) => Some(
            Q8LayerScales { k: clone_tensor(&scales.k), v: clone_tensor(&scales.v) },
        ),
        None => None,
    }
}

/// Drops the scales of a cache.
pub fn unregister_q8_scales(registry: &mut CacheMap<Q8LayerScales>, key: CacheKey)
    ensures
        final(registry)@ == old(registry)@.remove(key),
{
    registry.remove(key);
}

/// A cache has the scales that were filed for it last, until they are dropped;
/// what is done for one cache leaves every other as it was.
pub proof fn law_caches_do_not_collide<V>(
    registry: Map<CacheKey, V>,
    key: CacheKey,
    other: CacheKey,
    scales: V,
)
    requires
        key != other,
    ensures
        on_file(registry.insert(key, scales), key) == Some(scales),
        on_file(registry.remove(key), key) is None,
        on_file(registry.insert(key, scales), other) == on_file(registry, other),
        on_file(registry.remove(key), other) == on_file(registry, other),
{
}

// A history of calls.

/// What is done for a cache.
pub enum Filing<V> {
    Register(V),
    Unregister,
}

/// What is on file after the first `n` calls, each for a cache.
pub open spec fn filed<V>(calls: Seq<(CacheKey, Filing<V>)>, n: int) -> Map<CacheKey, V>
    decreases n,
{
    if n <= 0 {
        Map::empty()
    } else {
        let (key, filing) = calls[n - 1];
        match filing {
            Filing::Register(scales) => filed(calls, n - 1).insert(key, scales),
            Filing::Unregister => filed(calls, n - 1).remove(key),
        }
    }
}

/// What is found for a cache is what was filed for it last: nothing where that was
/// dropped, or where there was never anything. Calls for other caches change
/// nothing.
pub proof fn law_last_filing_is_found<V>(
    calls: Seq<(CacheKey, Filing<V>)>,
    n: int,
    key: CacheKey,
    last: int,
)
    requires
        -1 <= last < n <= calls.len(),
        last >= 0 ==> calls[last].0 == key,
        forall|k: int| last < k < n ==> (#[trigger] calls[k]).0 != key,
    ensures
        on_file(filed(calls, n), key) == if last < 0 {
            None
        } else {
            match calls[last].1 {
                Filing::Register(scales) => Some(scales),
                Filing::Unregister => None,
            }
        },
    decreases n,
{
    if last < n - 1 {
        assert(calls[n - 1].0 != key);
        if n - 1 > 0 || last >= 0 {
            law_last_filing_is_found(calls, n - 1, key, last);
        }
    }
}

// The switch of the bits that refine.

/// A letter from `A` to `Z` in lower case, and any other character as it is.
pub open spec fn lower(c: char) -> char {
    if 'A' <= c && c <= 'Z' {
        (c as int + 32) as char
    } else {
        c
    }
}

pub open spec fn lowered(text: Seq<char>) -> Seq<char> {
    text.map_values(|c: char| lower(c))
}

/// Whether `c` is the letter `small`, in either case.
fn is_letter(c: char, small: char, large: char) -> (same: bool)
    requires
        'a' <= small <= 'z',
        large as int == small as int - 32,
    ensures
        same == (lower(c) == small),
{
    c == small || c == large
}

/// Whether a setting keeps the bits that refine a cache of four bits: where it is
/// `1`, or `true` in letters of any case.
pub open spec fn qjl_reading(setting: Option<Seq<char>>) -> bool {
    match setting {
        Some(text) => text == "1"@ || lowered(text) == "true"@,
        None => false,
    }
}

/// Reads the setting of the bits that refine.
pub fn qjl_flag(setting: Option<&str>) -> (enabled: bool)
    ensures
        enabled == qjl_reading(setting_text(setting)),
{
    let text: &str = match setting {
        Some(text) => text,
        None => return false,
    };
    if same_text(text, "1") {
        return true;
    }
    let chars: Vec<char> = chars_of(text);
    proof {
        reveal_strlit("true");
        let low = lowered(text@);
        assert(low.len() == chars@.len());
        assert("true"@.len() == 4);
        if chars@.len() == 4 {
            assert(forall|i: int| 0 <= i < 4 ==> #[trigger] low[i] == lower(chars@[i]));
            if low[0] == 't' && low[1] == 'r' && low[2] == 'u' && low[3] == 'e' {
                assert(low =~= "true"@);
            }
        }
    }
    chars.len() == 4 && is_letter(chars[0], 't', 'T') && is_letter(chars[1], 'r', 'R')
        && is_letter(chars[2], 'u', 'U') && is_letter(chars[3], 'e', 'E')
}

/// The reading that is kept once a setting is read: the one that was kept before,
/// and else that of the setting.
pub open spec fn qjl_kept(kept: Option<bool>, setting: Option<Seq<char>>) -> bool {
    match kept {
        Some(enabled) => enabled,
        None => qjl_reading(setting),
    }
}

/// Whether the bits that refine are kept. The first reading stays.
pub fn qjl_enabled(kept: &mut Option<bool>, setting: Option<&str>) -> (enabled: bool)
    ensures
        enabled == qjl_kept(*old(kept), setting_text(setting)),
        *final(kept) == Some(enabled),
{
    let enabled: bool = match *kept {
        Some(enabled) => enabled,
        None => qjl_flag(setting),
    };
    *kept = Some(enabled);
    enabled
}

/// What is kept after the first `n` readings of a setting that may change.
pub open spec fn qjl_after(settings: Seq<Option<Seq<char>>>, n: int) -> Option<bool>
    decreases n,
{
    if n <= 0 {
        None
    } else {
        Some(qjl_kept(qjl_after(settings, n - 1), settings[n - 1]))
    }
}

/// Every reading gives what the first did, whatever the setting has become.
pub proof fn law_first_reading_stays(settings: Seq<Option<Seq<char>>>, n: int)
    requires
        0 < n <= settings.len(),
    ensures
        qjl_after(settings, n) == Some(qjl_reading(settings[0])),
    decreases n,
{
    if n > 1 {
        law_first_reading_stays(settings, n - 1);
    } else {
        assert(qjl_after(settings, 0) is None);
    }
}

/// The words that a setting is read from: the digit, or four letters, each in either case.
pub proof fn law_qjl_words(text: Seq<char>)
    ensures
        !qjl_reading(None),
        qjl_reading(Some(text)) <==> text == seq!['1'] || {
            &&& text.len() == 4
            &&& text[0] == 't' || text[0] == 'T'
            &&& text[1] == 'r' || text[1] == 'R'
            &&& text[2] == 'u' || text[2] == 'U'
            &&& text[3] == 'e' || text[3] == 'E'
        },
{
    reveal_strlit("1");
    reveal_strlit("true");
    assert("1"@ =~= seq!['1']);
    assert("true"@ =~= seq!['t', 'r', 'u', 'e']);
    let low = lowered(text);
    assert(low.len() == text.len());
    assert forall|i: int| 0 <= i < text.len() implies #[trigger] low[i] == lower(text[i]) by {}
    if text.len() == 4 {
        assert(low =~= seq![lower(text[0]), lower(text[1]), lower(text[2]), lower(text[3])]);
        if lower(text[0]) == 't' && lower(text[1]) == 'r' && lower(text[2]) == 'u' && lower(
            text[3],
        ) == 'e' {
            assert(low =~= "true"@);
        } else if low == "true"@ {
            assert(low[0] == 't' && low[1] == 'r' && low[2] == 'u' && low[3] == 'e');
        }
    }
}

} // verus!

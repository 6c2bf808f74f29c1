//! When attention waits for its device.
use vstd::prelude::*;

use crate::paged::info::DType;
use crate::text::same_text;

verus! {

/// What the setting of `MRS_ATTENTION_SYNC` asks for: `0` never, `1` always.
/// Any other text, or none, leaves it to the memory that is left.
pub open spec fn forced_sync(setting: Option<Seq<char>>) -> Option<bool> {
    match setting {
        Some(text) => if text == "0"@ {
            Some(false)
        } else if text == "1"@ {
            Some(true)
        } else {
            None
        },
        None => None,
    }
}

/// The text of a setting, where it is set.
pub open spec fn setting_text(setting: Option<&str>) -> Option<Seq<char>> {
    match setting {
        Some(text) => Some(text@),
        None => None,
    }
}

/// Reads the setting.
pub fn sync_override(setting: Option<&str>) -> (force: Option<bool>)
    ensures
        force == forced_sync(setting_text(setting)),
{
    proof {
        reveal_strlit("0");
        reveal_strlit("1");
    }
    match setting {
        Some(text) => if same_text(text, "0") {
            Some(false)
        } else if same_text(text, "1") {
            Some(true)
        } else {
            None
        },
        None => None,
    }
}

/// The reading that is kept once a setting is read: the one that was kept before,
/// and else that of the setting.
pub open spec fn kept_sync(kept: Option<Option<bool>>, setting: Option<Seq<char>>) -> Option<bool> {
    match kept {
        Some(force) => force,
        None => forced_sync(setting),
    }
}

/// What the setting asks for. The first reading stays.
pub fn settled_override(kept: &mut Option<Option<bool>>, setting: Option<&str>) -> (force: Option<
    bool,
>)
    ensures
        force == kept_sync(*old(kept), setting_text(setting)),
        *final(kept) == Some(force),
{
    let force: Option<bool> = match *kept {
        Some(force) => force,
        None => sync_override(setting),
    };
    *kept = Some(force);
    force
}

/// What is kept after the first `n` readings of a setting that may change.
pub open spec fn sync_after(settings: Seq<Option<Seq<char>>>, n: int) -> Option<Option<bool>>
    decreases n,
{
    if n <= 0 {
        None
    } else {
        Some(kept_sync(sync_after(settings, n - 1), settings[n - 1]))
    }
}

/// Every reading gives what the first did, whatever the setting has become.
pub proof fn law_first_override_stays(settings: Seq<Option<Seq<char>>>, n: int)
    requires
        0 < n <= settings.len(),
    ensures
        sync_after(settings, n) == Some(forced_sync(settings[0])),
    decreases n,
{
    if n > 1 {
        law_first_override_stays(settings, n - 1);
    } else {
        assert(sync_after(settings, 0) is None);
    }
}

/// Four GiB, or all that can be addressed where that is less.
pub open spec fn four_gib() -> usize {
    if 0x1_0000_0000u64 <= usize::MAX {
        0x1_0000_0000u64 as usize
    } else {
        usize::MAX
    }
}

/// Whether attention waits for its device.
pub open spec fn waits(on_cpu: bool, force: Option<bool>, available: usize) -> bool {
    !on_cpu && match force {
        Some(forced) => forced,
        None => available < four_gib(),
    }
}

/// Whether attention waits for its device before it allocates: never on a CPU,
/// and elsewhere as the override says, or where less than four GiB are left.
pub fn maybe_synchronize(on_cpu: bool, force: Option<bool>, available: usize) -> (wait: bool)
    ensures
        wait == (!on_cpu && match force {
            Some(forced) => forced,
            None => available < four_gib(),
        }),
        wait == waits(on_cpu, force, available),
{
    if on_cpu {
        return false;
    }
    let threshold: usize = if 0x1_0000_0000u64 <= usize::MAX as u64 {
        0x1_0000_0000u64 as usize
    } else {
        usize::MAX
    };
    match force {
        Some(forced) => forced,
        None => available < threshold,
    }
}

/// The element type that softmax is computed in. The two half types lose too
/// much in the exponential, and are widened.
pub open spec fn softmax_type(scores: DType) -> DType {
    if scores == DType::BF16 || scores == DType::F16 {
        DType::F32
    } else {
        scores
    }
}

pub fn softmax_dtype(scores: DType) -> (dtype: DType)
    ensures
        dtype == softmax_type(scores),
{
    if scores == DType::BF16 || scores == DType::F16 {
        DType::F32
    } else {
        scores
    }
}

/// The setting forces a wait where it is `1`, forbids one where it is `0`, and else leaves
/// it open.
pub proof fn law_overrides_are_read(text: Seq<char>)
    ensures
        forced_sync(None) is None,
        forced_sync(Some(text)) == Some(true) <==> text == seq!['1'],
        forced_sync(Some(text)) == Some(false) <==> text == seq!['0'],
{
    reveal_strlit("0");
    reveal_strlit("1");
    assert("0"@ =~= seq!['0']);
    assert("1"@ =~= seq!['1']);
    assert(seq!['0'][0] != seq!['1'][0]);
}

/// Four GiB are four times two to the thirtieth, as far as they can be addressed.
pub proof fn law_four_gib()
    ensures
        four_gib() <= 4 * 1024 * 1024 * 1024,
        four_gib() == 4 * 1024 * 1024 * 1024 || four_gib() == usize::MAX,
{
}

/// Softmax is never computed in a type of 16 bits, keeps a type that has more, and takes
/// no less room than the scores.
pub proof fn law_softmax_is_wide(scores: DType)
    ensures
        softmax_type(scores) != DType::BF16 && softmax_type(scores) != DType::F16,
        scores != DType::BF16 && scores != DType::F16 ==> softmax_type(scores) == scores,
        scores == DType::BF16 || scores == DType::F16 ==> softmax_type(scores) == DType::F32,
        softmax_type(scores).bytes() >= scores.bytes(),
{
}

/// A CPU is never waited for, and another device as the override says. Without one it is
/// waited for where memory is short of four GiB, which more memory never makes so.
pub proof fn law_short_memory_is_waited_for(force: Option<bool>, less: usize, more: usize)
    requires
        less <= more,
    ensures
        !waits(true, force, less),
        waits(false, Some(true), less) && !waits(false, Some(false), less),
        waits(false, None, more) ==> waits(false, None, less),
        less >= 4 * 1024 * 1024 * 1024 ==> !waits(false, None, less),
        less < 4 * 1024 * 1024 * 1024 && less < usize::MAX ==> waits(false, None, less),
{
}

} // verus!

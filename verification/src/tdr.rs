//! Keeping dispatches of the output head clear of the driver's timeout.

use vstd::prelude::*;

verus! {

/// Vocabulary size above which the head is at medium risk of a timeout.
pub const MEDIUM_RISK_VOCAB: usize = 100_000;

/// Vocabulary size above which the head is at high risk of a timeout.
pub const HIGH_RISK_VOCAB: usize = 200_000;

/// Vocabulary entries that a workgroup of the head is counted for.
pub const TOKENS_PER_GROUP: usize = 32;

/// Workgroups of a large head that fit the default time budget of 100 ms: after a
/// fixed cost of 500 ns, each takes 500 ns.
pub const LARGE_HEAD_BUDGET: u32 = 199_999;

/// How likely a dispatch of the head is to time out.
pub open spec fn risk_name(n_vocab: int) -> Seq<char> {
    if n_vocab > HIGH_RISK_VOCAB {
        "High"@
    } else if n_vocab > MEDIUM_RISK_VOCAB {
        "Medium"@
    } else {
        "Low"@
    }
}

/// Derives the timeout risk from the model's vocabulary alone.
pub fn derive_tdr_risk_from_metadata(n_vocab: usize) -> (r: &'static str)
    ensures
        r@ == risk_name(n_vocab as int),
{
    if n_vocab > HIGH_RISK_VOCAB {
        "High"
    } else if n_vocab > MEDIUM_RISK_VOCAB {
        "Medium"
    } else {
        "Low"
    }
}

/// The risk level as it stands in logs.
pub open spec fn risk_label(n_vocab: int) -> Seq<char> {
    if n_vocab > HIGH_RISK_VOCAB {
        "TDR_RISK_HIGH"@
    } else if n_vocab > MEDIUM_RISK_VOCAB {
        "TDR_RISK_MEDIUM"@
    } else {
        "TDR_RISK_LOW"@
    }
}

/// The risk level for logs.
pub fn risk_level_string(n_vocab: usize) -> (r: String)
    ensures
        r@ == risk_label(n_vocab as int),
{
    if n_vocab > HIGH_RISK_VOCAB {
        "TDR_RISK_HIGH".to_string()
    } else if n_vocab > MEDIUM_RISK_VOCAB {
        "TDR_RISK_MEDIUM".to_string()
    } else {
        "TDR_RISK_LOW".to_string()
    }
}

/// GPU milliseconds above which a run has to yield.
pub open spec fn yield_limit(n_vocab: int) -> u32 {
    if n_vocab > HIGH_RISK_VOCAB {
        10
    } else if n_vocab > MEDIUM_RISK_VOCAB {
        20
    } else {
        50
    }
}

/// Computes the GPU milliseconds above which a run has to yield.
pub fn yield_limit_ms(n_vocab: usize) -> (ms: u32)
    ensures
        ms == yield_limit(n_vocab as int),
{
    if n_vocab > HIGH_RISK_VOCAB {
        10
    } else if n_vocab > MEDIUM_RISK_VOCAB {
        20
    } else {
        50
    }
}

/// The most workgroups of the head that one dispatch may have within the default
/// budget: all of them, but for a large head no more than the budget allows, and
/// one at least.
pub open spec fn max_safe_groups(n_vocab: int) -> int {
    let groups = n_vocab / TOKENS_PER_GROUP as int;
    if groups > LARGE_HEAD_BUDGET {
        LARGE_HEAD_BUDGET as int
    } else if groups < 1 {
        1
    } else {
        groups
    }
}

/// Computes the most workgroups of the head within the default budget.
pub fn default_max_safe_workgroups(n_vocab: usize) -> (r: u32)
    ensures
        r == max_safe_groups(n_vocab as int),
{
    let groups: usize = n_vocab / TOKENS_PER_GROUP;
    if groups > LARGE_HEAD_BUDGET as usize {
        LARGE_HEAD_BUDGET
    } else if groups < 1 {
        1
    } else {
        groups as u32
    }
}

/// Whether dispatches of this many workgroups use more than four fifths of what is
/// safe.
pub open spec fn needs_more_tiles(current_wgs: int, n_vocab: int) -> bool {
    5 * current_wgs > 4 * max_safe_groups(n_vocab)
}

/// Whether the head should be split into more tiles: its dispatches use more than
/// four fifths of what is safe.
pub fn should_increase_tiles(current_wgs: u32, n_vocab: usize) -> (r: bool)
    ensures
        r == (5 * current_wgs > 4 * max_safe_groups(n_vocab as int)),
        r == needs_more_tiles(current_wgs as int, n_vocab as int),
{
    let max_safe: u32 = default_max_safe_workgroups(n_vocab);
    5 * current_wgs as u64 > 4 * max_safe as u64
}

/// Dispatching more at once never takes the need for more tiles away, and a larger
/// vocabulary never raises the time that a run may take before it yields.
pub proof fn law_risk_grows(wgs: u32, more_wgs: u32, n_vocab: usize, larger: usize)
    requires
        wgs <= more_wgs,
        n_vocab <= larger,
    ensures
        5 * wgs > 4 * max_safe_groups(n_vocab as int) ==> 5 * more_wgs > 4 * max_safe_groups(
            n_vocab as int,
        ),
        yield_limit(larger as int) <= yield_limit(n_vocab as int),
        max_safe_groups(n_vocab as int) <= max_safe_groups(larger as int),
{
}

/// The names of the risk, its label in logs and the time limit change at the same
/// vocabulary sizes, 100000 and 200000.
pub proof fn law_risk_levels_agree(n_vocab: int)
    ensures
        n_vocab <= 100_000 ==> risk_name(n_vocab) == "Low"@ && risk_label(n_vocab)
            == "TDR_RISK_LOW"@ && yield_limit(n_vocab) == 50,
        100_000 < n_vocab <= 200_000 ==> risk_name(n_vocab) == "Medium"@ && risk_label(n_vocab)
            == "TDR_RISK_MEDIUM"@ && yield_limit(n_vocab) == 20,
        n_vocab > 200_000 ==> risk_name(n_vocab) == "High"@ && risk_label(n_vocab)
            == "TDR_RISK_HIGH"@ && yield_limit(n_vocab) == 10,
{
}

/// The safe number of workgroups is at least one and at most what takes 100 ms: after
/// 500 ns each group takes 500 ns. Within that it is the number of whole groups of 32
/// that the vocabulary has.
pub proof fn law_safe_groups_fit_the_budget(n_vocab: int)
    requires
        n_vocab >= 0,
    ensures
        ({
            let g = max_safe_groups(n_vocab);
            &&& g >= 1
            &&& 500 + 500 * g <= 100_000_000
            &&& g > 1 ==> g * 32 <= n_vocab
            &&& 500 + 500 * (g + 1) <= 100_000_000 ==> (g + 1) * 32 > n_vocab
        }),
{
}

/// Dispatches of all that is safe are too large, those of four fifths of it are not,
/// and one workgroup more is.
pub proof fn law_tiles_keep_a_fifth_in_reserve(n_vocab: int, fifth: int)
    requires
        n_vocab >= 0,
        max_safe_groups(n_vocab) == 5 * fifth,
    ensures
        needs_more_tiles(5 * fifth, n_vocab),
        !needs_more_tiles(4 * fifth, n_vocab),
        needs_more_tiles(4 * fifth + 1, n_vocab),
{
}

} // verus!

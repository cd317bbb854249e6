//! Choices of a forward pass, as environment variables spell them.

use crate::full_model::ForwardOptions;
use crate::text::{chars_of, decimal, digit_value, law_numeral_is_faithful, numeral_value};
use vstd::prelude::*;

verus! {

/// Whether `c` is the ASCII letter `lower` in either case.
pub open spec fn same_letter(c: char, lower: char) -> bool {
    c == lower || ('A' <= c <= 'Z' && c as int + 32 == lower as int)
}

/// Whether a variable switches something on: it is `1`, or `true` in any case.
pub open spec fn switches_on(value: Option<Seq<char>>) -> bool {
    match value {
        Some(v) => v == seq!['1'] || (v.len() == 4 && same_letter(v[0], 't') && same_letter(
            v[1],
            'r',
        ) && same_letter(v[2], 'u') && same_letter(v[3], 'e')),
        None => false,
    }
}

fn is_letter(c: char, lower: char, upper: char) -> (r: bool)
    requires
        'a' <= lower <= 'z',
        upper as int + 32 == lower as int,
    ensures
        r == same_letter(c, lower),
{
    c == lower || c == upper
}

/// What a variable holds, in characters.
pub open spec fn text_of(value: Option<&str>) -> Option<Seq<char>> {
    match value {
        Some(v) => Some(v@),
        None => None,
    }
}

/// Tests whether a variable switches something on.
pub fn is_switched_on(value: Option<&str>) -> (r: bool)
    ensures
        r == switches_on(text_of(value)),
{
    match value {
        Some(v) => {
            let chars = chars_of(v);
            let n: usize = chars.len();
            if n == 1 {
                assert(v@ == seq!['1'] <==> v@[0] == '1') by {
                    if v@[0] == '1' {
                        assert(v@ =~= seq!['1']);
                    }
                }
                chars[0] == '1'
            } else if n == 4 {
                is_letter(chars[0], 't', 'T') && is_letter(chars[1], 'r', 'R') && is_letter(
                    chars[2],
                    'u',
                    'U',
                ) && is_letter(chars[3], 'e', 'E')
            } else {
                false
            }
        },
        None => false,
    }
}

/// Whether `c` is a decimal digit.
pub open spec fn is_digit(c: char) -> bool {
    '0' <= c <= '9'
}

/// Whether `s` is made of decimal digits alone.
pub open spec fn all_digits(s: Seq<char>) -> bool {
    forall|i: int| 0 <= i < s.len() ==> is_digit(#[trigger] s[i])
}

/// `s` without the plus sign that it may begin with.
pub open spec fn unsigned_part(s: Seq<char>) -> Seq<char> {
    if s.len() > 0 && s[0] == '+' {
        s.skip(1)
    } else {
        s
    }
}

/// A count as a variable spells it: decimal digits, perhaps behind a plus sign,
/// that stand for a 32-bit number.
pub open spec fn count_in(s: Seq<char>) -> Option<u32> {
    let digits = unsigned_part(s);
    if digits.len() > 0 && all_digits(digits) && numeral_value(digits, 10) <= u32::MAX {
        Some(numeral_value(digits, 10) as u32)
    } else {
        None
    }
}

/// Reads a count.
pub fn parse_count(s: &str) -> (r: Option<u32>)
    ensures
        r == count_in(s@),
{
    let chars = chars_of(s);
    let n: usize = chars.len();
    let start: usize = if n > 0 && chars[0] == '+' {
        1
    } else {
        0
    };
    let ghost digits = unsigned_part(s@);
    assert(digits =~= s@.skip(start as int));
    if n == start {
        return None;
    }
    let mut value: u64 = 0;
    let mut too_large: bool = false;
    let mut i: usize = start;
    assert(digits.take(0).len() == 0);
    while i < n
        invariant
            start <= i <= n,
            n == s@.len(),
            chars@ == s@,
            digits == unsigned_part(s@),
            digits == s@.skip(start as int),
            forall|k: int| 0 <= k < i - start ==> is_digit(#[trigger] digits[k]),
            !too_large ==> value == numeral_value(digits.take(i - start), 10) && value <= u32::MAX,
            too_large ==> numeral_value(digits.take(i - start), 10) > u32::MAX,
        decreases n - i,
    {
        let c: char = chars[i];
        assert(c == digits[i - start]);
        if c < '0' || c > '9' {
            assert(!is_digit(digits[i - start]));
            return None;
        }
        let d: u64 = c as u64 - '0' as u64;
        proof {
            let some = digits.take(i - start + 1);
            assert(some.drop_last() =~= digits.take(i - start));
            assert(some.last() == c);
            assert(digit_value(c) == d);
        }
        if !too_large {
            value = value * 10 + d;
            if value > u32::MAX as u64 {
                too_large = true;
            }
        }
        i += 1;
    }
    assert(digits.take(n - start) =~= digits);
    if too_large {
        None
    } else {
        Some(value as u32)
    }
}

/// The variables that shape a forward pass, where they are set.
#[derive(Debug, Clone, Copy)]
pub struct ForwardVars<'a> {
    /// `AIRFRAME_PINGPONG_ACTIVATION`
    pub pingpong: Option<&'a str>,
    /// `SHIMMY_PREFILL_CHUNK`
    pub prefill_chunk: Option<&'a str>,
    /// `AIRFRAME_TRACE_PREFILL_LAYERS`
    pub trace_layers: Option<&'a str>,
    /// `SHIMMY_DISABLE_OUTPUT_NORM`
    pub disable_output_norm: Option<&'a str>,
}

/// Tokens per dispatch that a variable asks for: one, unless it holds a count.
pub open spec fn chunk_asked_for(value: Option<Seq<char>>) -> u32 {
    match value {
        Some(v) => match count_in(v) {
            Some(n) => n,
            None => 1,
        },
        None => 1,
    }
}

/// The choices that the variables make, beside those of the caller.
pub open spec fn chosen_options(
    vars: ForwardVars,
    ffn_kind_policy: u32,
    qkv_layout_policy: u32,
    override_head: bool,
    external_cache: bool,
) -> ForwardOptions {
    ForwardOptions {
        prefill_chunk: chunk_asked_for(text_of(vars.prefill_chunk)),
        ffn_kind_policy,
        qkv_layout_policy,
        pingpong: switches_on(text_of(vars.pingpong)),
        trace_layers: switches_on(text_of(vars.trace_layers)),
        disable_output_norm: switches_on(text_of(vars.disable_output_norm)),
        override_head,
        external_cache,
    }
}

/// The choices that the variables make. The route policies, the head weights and
/// the cache are the caller's.
pub fn forward_options(
    vars: &ForwardVars,
    ffn_kind_policy: u32,
    qkv_layout_policy: u32,
    override_head: bool,
    external_cache: bool,
) -> (options: ForwardOptions)
    ensures
        options == (ForwardOptions {
            prefill_chunk: chunk_asked_for(text_of(vars.prefill_chunk)),
            ffn_kind_policy,
            qkv_layout_policy,
            pingpong: switches_on(text_of(vars.pingpong)),
            trace_layers: switches_on(text_of(vars.trace_layers)),
            disable_output_norm: switches_on(text_of(vars.disable_output_norm)),
            override_head,
            external_cache,
        }),
        options == chosen_options(
            *vars,
            ffn_kind_policy,
            qkv_layout_policy,
            override_head,
            external_cache,
        ),
{
    let prefill_chunk: u32 = match vars.prefill_chunk {
        Some(v) => match parse_count(v) {
            Some(n) => n,
            None => 1,
        },
        None => 1,
    };
    ForwardOptions {
        prefill_chunk,
        ffn_kind_policy,
        qkv_layout_policy,
        pingpong: is_switched_on(vars.pingpong),
        trace_layers: is_switched_on(vars.trace_layers),
        disable_output_norm: is_switched_on(vars.disable_output_norm),
        override_head,
        external_cache,
    }
}

/// A count in decimal is read back as itself.
pub proof fn law_count_is_read_back(n: u32)
    ensures
        count_in(decimal(n as nat)) == Some(n),
{
    let s = decimal(n as nat);
    law_numeral_is_faithful(n as nat, 10);
    lemma_decimal_digits(n as nat);
    assert(is_digit(s[0]));
}

proof fn lemma_decimal_digits(n: nat)
    ensures
        all_digits(decimal(n)),
        decimal(n).len() > 0,
    decreases n,
{
    law_numeral_is_faithful(n, 10);
    if n >= 10 {
        lemma_decimal_digits(n / 10);
    }
}

/// The lower-case form of an ASCII letter; other characters stay.
pub open spec fn lowered(c: char) -> char {
    if 'A' <= c <= 'Z' {
        (c as int + 32) as char
    } else {
        c
    }
}

/// A variable switches something on just when it holds `1`, or `true` in any mix of
/// cases; one that is not set switches nothing on.
pub proof fn law_only_one_and_true_switch_on(v: Seq<char>)
    ensures
        switches_on(Some(v)) <==> v == "1"@ || (v.len() == 4 && forall|i: int|
            0 <= i < 4 ==> lowered(#[trigger] v[i]) == "true"@[i]),
        !switches_on(None),
{
    reveal_strlit("1");
    reveal_strlit("true");
    assert("1"@ =~= seq!['1']);
    if v.len() == 4 {
        assert((forall|i: int| 0 <= i < 4 ==> lowered(#[trigger] v[i]) == "true"@[i]) <==> lowered(
            v[0],
        ) == 't' && lowered(v[1]) == 'r' && lowered(v[2]) == 'u' && lowered(v[3]) == 'e') by {
            if lowered(v[0]) == 't' && lowered(v[1]) == 'r' && lowered(v[2]) == 'u' && lowered(v[3])
                == 'e' {
                assert forall|i: int| 0 <= i < 4 implies lowered(#[trigger] v[i]) == "true"@[i] by {
                    assert(i == 0 || i == 1 || i == 2 || i == 3);
                }
            }
        }
    }
}

/// A variable asks for the tokens that it spells, and for one where it is not set or
/// spells no count. A count may have a plus sign, but no other character besides its
/// digits.
pub proof fn law_chunk_variable_is_a_count(n: u32, v: Seq<char>, i: int)
    ensures
        chunk_asked_for(None) == 1,
        chunk_asked_for(Some(decimal(n as nat))) == n,
        count_in(v) is None ==> chunk_asked_for(Some(v)) == 1,
        v.len() == 0 ==> count_in(v) is None,
        0 < i < v.len() && !('0' <= v[i] <= '9') ==> count_in(v) is None,
        v.len() > 0 && v[0] != '+' && !('0' <= v[0] <= '9') ==> count_in(v) is None,
{
    law_count_is_read_back(n);
    if 0 < i < v.len() && !('0' <= v[i] <= '9') {
        let digits = unsigned_part(v);
        if v[0] == '+' {
            assert(digits[i - 1] == v[i]);
        } else {
            assert(digits[i] == v[i]);
        }
    }
    if v.len() > 0 && v[0] != '+' && !('0' <= v[0] <= '9') {
        assert(unsigned_part(v)[0] == v[0]);
    }
}

/// Each variable makes a choice of its own, and the caller's choices are taken as they
/// are: setting one variable anew changes no other choice.
pub proof fn law_each_variable_makes_its_own_choice(
    vars: ForwardVars,
    value: Option<&str>,
    ffn_kind_policy: u32,
    qkv_layout_policy: u32,
    override_head: bool,
    external_cache: bool,
)
    ensures
        ({
            let chosen = |v: ForwardVars|
                chosen_options(
                    v,
                    ffn_kind_policy,
                    qkv_layout_policy,
                    override_head,
                    external_cache,
                );
            let o = chosen(vars);
            let on = switches_on(text_of(value));
            &&& chosen(ForwardVars { pingpong: value, ..vars }) == (ForwardOptions {
                pingpong: on,
                ..o
            })
            &&& chosen(ForwardVars { trace_layers: value, ..vars }) == (ForwardOptions {
                trace_layers: on,
                ..o
            })
            &&& chosen(ForwardVars { disable_output_norm: value, ..vars }) == (ForwardOptions {
                disable_output_norm: on,
                ..o
            })
            &&& chosen(ForwardVars { prefill_chunk: value, ..vars }) == (ForwardOptions {
                prefill_chunk: chunk_asked_for(text_of(value)),
                ..o
            })
            &&& o.ffn_kind_policy == ffn_kind_policy
            &&& o.qkv_layout_policy == qkv_layout_policy
            &&& o.override_head == override_head
            &&& o.external_cache == external_cache
        }),
{
}

/// A plus sign before the digits changes nothing, and a number of more than 32 bits is
/// no count.
pub proof fn law_counts_are_plain_numbers(digits: Seq<char>, n: nat)
    ensures
        digits.len() > 0 && digits[0] != '+' ==> count_in(seq!['+'] + digits) == count_in(digits),
        n > u32::MAX ==> count_in(decimal(n)) is None,
{
    assert((seq!['+'] + digits).skip(1) =~= digits);
    law_numeral_is_faithful(n, 10);
    lemma_decimal_digits(n);
    assert(is_digit(decimal(n)[0]));
}

} // verus!

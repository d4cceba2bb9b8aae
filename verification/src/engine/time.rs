use vstd::prelude::*;

verus! {

/// A musical time signature, such as 4/4 or 6/8.
#[derive(Clone, Copy, Debug, PartialEq, Eq, Structural)]
pub struct TimeSignature {
    pub numerator: u32,
    pub denominator: u32,
}

impl Default for TimeSignature {
    /// Common time: 4/4.
    fn default() -> (ts: Self)
        ensures
            ts == (TimeSignature { numerator: 4, denominator: 4 }),
    {
        TimeSignature { numerator: 4, denominator: 4 }
    }
}

/// Where grid step `step_index` falls when `steps_per_bar` steps make a
/// bar: whether it starts a bar, and the (1-based) number of its bar.
pub fn grid_bar_position(step_index: u64, steps_per_bar: u64) -> (r: (bool, u32))
    requires
        steps_per_bar > 0,
        ((step_index / steps_per_bar) as u32) < u32::MAX,
    ensures
        r.0 == (step_index % steps_per_bar == 0),
        r.1 == ((step_index / steps_per_bar) as u32) + 1,
{
    let is_bar_start = step_index % steps_per_bar == 0;
    let bar_number = (step_index / steps_per_bar) as u32 + 1;
    (is_bar_start, bar_number)
}

/// Consecutive grid steps within one bar share its number; the step that
/// completes a bar starts the next one.
pub proof fn lemma_bar_numbers_advance(s: nat, d: nat)
    requires
        d > 0,
    ensures
        (s + 1) % d == 0 ==> (s + 1) / d == s / d + 1,
        (s + 1) % d != 0 ==> (s + 1) / d == s / d,
{
    let s = s as int;
    let d = d as int;
    vstd::arithmetic::div_mod::lemma_fundamental_div_mod(s, d);
    vstd::arithmetic::div_mod::lemma_fundamental_div_mod(s + 1, d);
    if (s + 1) % d == 0 {
        assert(s % d == d - 1) by (nonlinear_arith)
            requires s == d * (s / d) + s % d, s + 1 == d * ((s + 1) / d), 0 <= s % d < d, d > 0;
        assert(s + 1 == (s / d + 1) * d + 0) by (nonlinear_arith)
            requires s == d * (s / d) + s % d, s % d == d - 1;
        vstd::arithmetic::div_mod::lemma_fundamental_div_mod_converse(s + 1, d, s / d + 1, 0);
    } else {
        assert(s % d + 1 < d) by (nonlinear_arith)
            requires s == d * (s / d) + s % d, s + 1 == d * ((s + 1) / d) + (s + 1) % d,
                0 <= s % d < d, 0 < (s + 1) % d < d, d > 0;
        assert(s + 1 == (s / d) * d + (s % d + 1)) by (nonlinear_arith)
            requires s == d * (s / d) + s % d;
        vstd::arithmetic::div_mod::lemma_fundamental_div_mod_converse(s + 1, d, s / d, s % d + 1);
    }
}

} // verus!

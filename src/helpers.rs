use vstd::prelude::*;
use crate::arith::{lemma_div_bounds, lemma_le_div_iff, lemma_div_le_cross, lemma_mul_le_right};
use crate::errors::DexError;

verus! {

/// Denominator of every fee rate: a rate of `MAX_PERCENT` is the whole amount.
pub const MAX_PERCENT: u64 = 100_000;

/// Reserve amounts, share supplies and fee amounts.
pub type Amount = u128;

/// Largest value an `Amount` can hold.
pub open spec fn amount_max() -> int {
    u128::MAX as int
}

/// The fee rate `MAX_PERCENT` as a mathematical integer.
pub open spec fn max_pct() -> int {
    MAX_PERCENT as int
}

/// `amount_a * reserve_b / reserve_a`, rounded down.
pub open spec fn quote_spec(amount_a: int, reserve_a: int, reserve_b: int) -> int {
    amount_a * reserve_b / reserve_a
}

/// `quote` has a nonzero divisor and no overflow.
pub open spec fn quote_ok(amount_a: int, reserve_a: int, reserve_b: int) -> bool {
    reserve_a > 0 && amount_a * reserve_b <= amount_max()
}

/// Constant-product output for `amount_in`, without fee: `amount_in * reserve_out / (reserve_in + amount_in)`.
pub open spec fn out_no_fee_spec(amount_in: int, reserve_in: int, reserve_out: int) -> int {
    amount_in * reserve_out / (reserve_in + amount_in)
}

/// `get_amount_out_no_fee` has a nonzero divisor and no overflow.
pub open spec fn out_no_fee_ok(amount_in: int, reserve_in: int, reserve_out: int) -> bool {
    &&& reserve_in + amount_in > 0
    &&& reserve_in + amount_in <= amount_max()
    &&& amount_in * reserve_out <= amount_max()
}

/// Constant-product input needed for `amount_out`, without fee, rounded up:
/// `reserve_in * amount_out / (reserve_out - amount_out) + 1`.
pub open spec fn in_no_fee_spec(amount_out: int, reserve_in: int, reserve_out: int) -> int {
    reserve_in * amount_out / (reserve_out - amount_out) + 1
}

/// `get_amount_in_no_fee` has an output below the reserve and no overflow.
pub open spec fn in_no_fee_ok(amount_out: int, reserve_in: int, reserve_out: int) -> bool {
    &&& amount_out < reserve_out
    &&& reserve_in * amount_out <= amount_max()
    &&& in_no_fee_spec(amount_out, reserve_in, reserve_out) <= amount_max()
}

/// Output for `amount_in` with the total fee rate `total_fee` charged on the input or on the output.
pub open spec fn amount_out_spec(amount_in: int, reserve_in: int, reserve_out: int, fee_in: bool, total_fee: int) -> int {
    if fee_in {
        let with_fee = amount_in * (max_pct() - total_fee);
        with_fee * reserve_out / (reserve_in * max_pct() + with_fee)
    } else {
        out_no_fee_spec(amount_in, reserve_in, reserve_out) * (max_pct() - total_fee) / max_pct()
    }
}

/// `get_amount_out` has a nonzero divisor and no overflow.
pub open spec fn amount_out_ok(amount_in: int, reserve_in: int, reserve_out: int, fee_in: bool, total_fee: int) -> bool {
    if fee_in {
        let with_fee = amount_in * (max_pct() - total_fee);
        &&& with_fee <= amount_max()
        &&& with_fee * reserve_out <= amount_max()
        &&& reserve_in * max_pct() + with_fee <= amount_max()
        &&& reserve_in * max_pct() + with_fee > 0
    } else {
        &&& out_no_fee_ok(amount_in, reserve_in, reserve_out)
        &&& out_no_fee_spec(amount_in, reserve_in, reserve_out) * (max_pct() - total_fee) <= amount_max()
    }
}

/// Input needed for `amount_out` with the total fee rate `total_fee` charged on the input or on the output.
pub open spec fn amount_in_spec(amount_out: int, reserve_in: int, reserve_out: int, fee_in: bool, total_fee: int) -> int {
    if fee_in {
        amount_out * reserve_in * max_pct() / ((reserve_out - amount_out) * (max_pct() - total_fee)) + 1
    } else {
        in_no_fee_spec(amount_out * max_pct() / (max_pct() - total_fee), reserve_in, reserve_out)
    }
}

/// `get_amount_in` has an output below the reserve, a nonzero divisor and no overflow.
pub open spec fn amount_in_ok(amount_out: int, reserve_in: int, reserve_out: int, fee_in: bool, total_fee: int) -> bool {
    if fee_in {
        &&& amount_out < reserve_out
        &&& amount_out * reserve_in * max_pct() <= amount_max()
        &&& (reserve_out - amount_out) * (max_pct() - total_fee) <= amount_max()
        &&& amount_in_spec(amount_out, reserve_in, reserve_out, fee_in, total_fee) <= amount_max()
    } else {
        &&& amount_out * max_pct() <= amount_max()
        &&& in_no_fee_ok(amount_out * max_pct() / (max_pct() - total_fee), reserve_in, reserve_out)
    }
}

/// Fee parts `(lp, owner, total)` of `amount` at the rates `lp_rate` and `owner_rate`.
/// On the input side the fee is taken out of `amount`; otherwise `amount` is what is left
/// after the fee, and the total is grossed up from it, the owner part being the residue.
pub open spec fn fee_split_spec(amount: int, is_input: bool, lp_rate: int, owner_rate: int) -> (int, int, int) {
    let total_rate = lp_rate + owner_rate;
    if is_input {
        (amount * lp_rate / max_pct(), amount * owner_rate / max_pct(), amount * total_rate / max_pct())
    } else {
        let total = amount * total_rate / (max_pct() - total_rate);
        let lp = total * lp_rate / total_rate;
        (lp, total - lp, total)
    }
}

/// `get_fee_amounts` has a positive total rate where it divides by it, and no overflow.
pub open spec fn fee_split_ok(amount: int, is_input: bool, lp_rate: int, owner_rate: int) -> bool {
    let total_rate = lp_rate + owner_rate;
    if is_input {
        amount * total_rate <= amount_max()
    } else {
        &&& total_rate > 0
        &&& amount * total_rate <= amount_max()
        &&& (amount * total_rate / (max_pct() - total_rate)) * lp_rate <= amount_max()
    }
}

/// A pair of fee rates whose sum stays below `MAX_PERCENT`.
pub open spec fn valid_fees(lp_rate: int, owner_rate: int) -> bool {
    lp_rate + owner_rate < max_pct()
}

/// `a * b`, or an arithmetic failure on overflow.
pub(crate) fn mul_amounts(a: Amount, b: Amount) -> (r: Result<Amount, DexError>)
    ensures
        r is Ok <==> a * b <= amount_max(),
        r matches Ok(v) ==> v == a * b,
        r matches Err(e) ==> e == DexError::ArithmeticFailure,
{
    match a.checked_mul(b) {
        Some(v) => Ok(v),
        None => Err(DexError::ArithmeticFailure),
    }
}

/// `a + b`, or an arithmetic failure on overflow.
pub(crate) fn add_amounts(a: Amount, b: Amount) -> (r: Result<Amount, DexError>)
    ensures
        r is Ok <==> a + b <= amount_max(),
        r matches Ok(v) ==> v == a + b,
        r matches Err(e) ==> e == DexError::ArithmeticFailure,
{
    match a.checked_add(b) {
        Some(v) => Ok(v),
        None => Err(DexError::ArithmeticFailure),
    }
}

/// Fee and constant-product pricing.
pub struct HelpersModule;

impl HelpersModule {
    /// Counterpart of `token_amount` at the ratio of the two reserves, rounded down.
    pub fn quote(token_amount: Amount, token_liquidity: Amount, base_liquidity: Amount) -> (r: Result<Amount, DexError>)
        ensures
            r is Ok <==> quote_ok(token_amount as int, token_liquidity as int, base_liquidity as int),
            r matches Ok(v) ==> v == quote_spec(token_amount as int, token_liquidity as int, base_liquidity as int),
            r matches Err(e) ==> e == DexError::ArithmeticFailure,
    {
        if token_liquidity == 0 {
            return Err(DexError::ArithmeticFailure);
        }
        let n = mul_amounts(token_amount, base_liquidity)?;
        Ok(n / token_liquidity)
    }

    /// Constant-product output without fee. With both reserves positive it stays below `liquidity_out`.
    pub fn get_amount_out_no_fee(amount_in: Amount, liquidity_in: Amount, liquidity_out: Amount) -> (r: Result<Amount, DexError>)
        ensures
            r is Ok <==> out_no_fee_ok(amount_in as int, liquidity_in as int, liquidity_out as int),
            r matches Ok(v) ==> v == out_no_fee_spec(amount_in as int, liquidity_in as int, liquidity_out as int),
            r matches Ok(v) ==> v <= liquidity_out,
            r matches Ok(v) ==> (liquidity_in > 0 && liquidity_out > 0 ==> v < liquidity_out),
            r matches Err(e) ==> e == DexError::ArithmeticFailure,
    {
        let numerator = match amount_in.checked_mul(liquidity_out) {
            Some(v) => v,
            None => return Err(DexError::ArithmeticFailure),
        };
        let denominator = match liquidity_in.checked_add(amount_in) {
            Some(v) => v,
            None => return Err(DexError::ArithmeticFailure),
        };
        if denominator == 0 {
            return Err(DexError::ArithmeticFailure);
        }
        proof {
            lemma_out_no_fee_bound(amount_in as int, liquidity_in as int, liquidity_out as int);
        }
        Ok(numerator / denominator)
    }

    /// Constant-product input without fee, rounded up; fails unless `amount_out < liquidity_out`.
    pub fn get_amount_in_no_fee(amount_out: Amount, liquidity_in: Amount, liquidity_out: Amount) -> (r: Result<Amount, DexError>)
        ensures
            r is Ok <==> in_no_fee_ok(amount_out as int, liquidity_in as int, liquidity_out as int),
            r matches Ok(v) ==> v == in_no_fee_spec(amount_out as int, liquidity_in as int, liquidity_out as int),
            r matches Err(e) ==> e == DexError::ArithmeticFailure,
    {
        if amount_out >= liquidity_out {
            return Err(DexError::ArithmeticFailure);
        }
        let numerator = mul_amounts(liquidity_in, amount_out)?;
        let denominator = liquidity_out - amount_out;
        let q = numerator / denominator;
        add_amounts(q, 1)
    }

    /// Output for `amount_in` after the total fee rate `total_fee`, charged on the input when
    /// `fee_in` and on the output otherwise.
    pub fn get_amount_out(
        amount_in: Amount,
        liquidity_in: Amount,
        liquidity_out: Amount,
        fee_in: bool,
        total_fee: u64,
    ) -> (r: Result<Amount, DexError>)
        requires
            total_fee < MAX_PERCENT,
        ensures
            r is Ok <==> amount_out_ok(amount_in as int, liquidity_in as int, liquidity_out as int, fee_in, total_fee as int),
            r matches Ok(v) ==> v == amount_out_spec(amount_in as int, liquidity_in as int, liquidity_out as int, fee_in, total_fee as int),
            r matches Err(e) ==> e == DexError::ArithmeticFailure,
    {
        let kept_rate = (MAX_PERCENT - total_fee) as u128;
        if fee_in {
            let amount_in_with_fee = mul_amounts(amount_in, kept_rate)?;
            let numerator = mul_amounts(amount_in_with_fee, liquidity_out)?;
            let scaled_in = mul_amounts(liquidity_in, MAX_PERCENT as u128)?;
            let denominator = add_amounts(scaled_in, amount_in_with_fee)?;
            if denominator == 0 {
                return Err(DexError::ArithmeticFailure);
            }
            Ok(numerator / denominator)
        } else {
            let amount_out_no_fee = Self::get_amount_out_no_fee(amount_in, liquidity_in, liquidity_out)?;
            let kept = mul_amounts(amount_out_no_fee, kept_rate)?;
            Ok(kept / (MAX_PERCENT as u128))
        }
    }

    /// Input needed for `amount_out` under the total fee rate `total_fee`, charged on the input
    /// when `fee_in` and on the output otherwise. Fails when the output reaches the reserve.
    pub fn get_amount_in(
        amount_out: Amount,
        liquidity_in: Amount,
        liquidity_out: Amount,
        fee_in: bool,
        total_fee: u64,
    ) -> (r: Result<Amount, DexError>)
        requires
            total_fee < MAX_PERCENT,
        ensures
            r is Ok <==> amount_in_ok(amount_out as int, liquidity_in as int, liquidity_out as int, fee_in, total_fee as int),
            r matches Ok(v) ==> v == amount_in_spec(amount_out as int, liquidity_in as int, liquidity_out as int, fee_in, total_fee as int),
            r matches Err(e) ==> e == DexError::ArithmeticFailure,
    {
        let kept_rate = (MAX_PERCENT - total_fee) as u128;
        if fee_in {
            if amount_out >= liquidity_out {
                return Err(DexError::ArithmeticFailure);
            }
            proof {
                let p = amount_out as int * liquidity_in as int;
                assert(p * max_pct() >= p) by (nonlinear_arith)
                    requires
                        p >= 0,
                ;
            }
            let product = mul_amounts(amount_out, liquidity_in)?;
            let numerator = mul_amounts(product, MAX_PERCENT as u128)?;
            let denominator = mul_amounts(liquidity_out - amount_out, kept_rate)?;
            proof {
                let d1 = liquidity_out as int - amount_out as int;
                let d2 = kept_rate as int;
                assert(d1 * d2 > 0) by (nonlinear_arith)
                    requires
                        d1 > 0,
                        d2 > 0,
                ;
            }
            add_amounts(numerator / denominator, 1)
        } else {
            let scaled_out = mul_amounts(amount_out, MAX_PERCENT as u128)?;
            let amount_out_with_fee = scaled_out / kept_rate;
            Self::get_amount_in_no_fee(amount_out_with_fee, liquidity_in, liquidity_out)
        }
    }

    /// Fee parts `(lp, owner, total)` of `amount`; the parts add up to the total exactly when the
    /// fee is grossed up from an output, and up to rounding of each part on the input side.
    pub fn get_fee_amounts(amount: Amount, is_input: bool, lp_fee: u64, owner_fee: u64) -> (r: Result<
        (Amount, Amount, Amount),
        DexError,
    >)
        requires
            valid_fees(lp_fee as int, owner_fee as int),
        ensures
            r is Ok <==> fee_split_ok(amount as int, is_input, lp_fee as int, owner_fee as int),
            r matches Ok((l, o, t)) ==> (l as int, o as int, t as int) == fee_split_spec(
                amount as int,
                is_input,
                lp_fee as int,
                owner_fee as int,
            ),
            r matches Ok((l, o, t)) ==> l + o <= t,
            r matches Ok((l, o, t)) ==> (is_input ==> t <= amount),
            r matches Ok((l, o, t)) ==> (!is_input ==> l + o == t),
            r matches Err(e) ==> e == DexError::ArithmeticFailure,
    {
        let total_fee = lp_fee + owner_fee;
        if is_input {
            let total_product = mul_amounts(amount, total_fee as u128)?;
            proof {
                lemma_mul_le_right(lp_fee as int, total_fee as int, amount as int);
                lemma_mul_le_right(owner_fee as int, total_fee as int, amount as int);
                lemma_fee_parts_sum(amount as int, true, lp_fee as int, owner_fee as int);
            }
            let lp_product = amount * (lp_fee as u128);
            let owner_product = amount * (owner_fee as u128);
            Ok((lp_product / (MAX_PERCENT as u128), owner_product / (MAX_PERCENT as u128), total_product / (MAX_PERCENT as u128)))
        } else {
            if total_fee == 0 {
                return Err(DexError::ArithmeticFailure);
            }
            let total_product = mul_amounts(amount, total_fee as u128)?;
            let total_fee_amount = total_product / ((MAX_PERCENT - total_fee) as u128);
            let lp_product = mul_amounts(total_fee_amount, lp_fee as u128)?;
            let lp_fee_amount = lp_product / (total_fee as u128);
            proof {
                lemma_fee_parts_sum(amount as int, false, lp_fee as int, owner_fee as int);
            }
            Ok((lp_fee_amount, total_fee_amount - lp_fee_amount, total_fee_amount))
        }
    }
}

/// The parts of a fee add up to its total when it is grossed up from an output; on the input
/// side, where each part is rounded down alone, exactly when the remainders of the two parts
/// stay below `MAX_PERCENT`, and otherwise the total exceeds them by one. No part exceeds the
/// amount on the input side.
pub proof fn lemma_fee_parts_sum(amount: int, is_input: bool, lp_rate: int, owner_rate: int)
    requires
        amount >= 0,
        lp_rate >= 0,
        owner_rate >= 0,
        valid_fees(lp_rate, owner_rate),
        !is_input ==> lp_rate + owner_rate > 0,
    ensures
        ({
            let (lp, owner, total) = fee_split_spec(amount, is_input, lp_rate, owner_rate);
            &&& 0 <= lp
            &&& 0 <= owner
            &&& is_input ==> total <= amount
            &&& is_input ==> (lp + owner == total <==> (amount * lp_rate) % max_pct() + (amount * owner_rate) % max_pct()
                < max_pct())
            &&& is_input ==> lp + owner <= total <= lp + owner + 1
            &&& !is_input ==> lp + owner == total
        }),
{
    let total_rate = lp_rate + owner_rate;
    if is_input {
        let a = amount * lp_rate;
        let b = amount * owner_rate;
        assert(a + b == amount * total_rate && a >= 0 && b >= 0) by (nonlinear_arith)
            requires
                a == amount * lp_rate,
                b == amount * owner_rate,
                total_rate == lp_rate + owner_rate,
                amount >= 0,
                lp_rate >= 0,
                owner_rate >= 0,
        ;
        lemma_div_bounds(a, max_pct());
        lemma_div_bounds(b, max_pct());
        lemma_div_bounds(a + b, max_pct());
        assert(amount * total_rate <= amount * max_pct()) by (nonlinear_arith)
            requires
                total_rate < max_pct(),
                amount >= 0,
        ;
        lemma_le_div_iff(amount, amount * total_rate, max_pct());
        lemma_le_div_iff(amount + 1, amount * total_rate, max_pct());
    } else {
        let total = amount * total_rate / (max_pct() - total_rate);
        assert(amount * total_rate >= 0) by (nonlinear_arith)
            requires
                amount >= 0,
                total_rate >= 0,
        ;
        lemma_div_bounds(amount * total_rate, max_pct() - total_rate);
        assert(total * lp_rate <= total * total_rate && total * lp_rate >= 0) by (nonlinear_arith)
            requires
                lp_rate <= total_rate,
                total >= 0,
                lp_rate >= 0,
        ;
        lemma_div_bounds(total * lp_rate, total_rate);
        lemma_div_le_cross(total * lp_rate, total_rate, total, 1);
    }
}

/// With a positive input reserve the output without fee stays below the output reserve.
pub proof fn lemma_out_no_fee_bound(amount_in: int, reserve_in: int, reserve_out: int)
    requires
        amount_in >= 0,
        reserve_in >= 0,
        reserve_out >= 0,
        reserve_in + amount_in > 0,
    ensures
        0 <= out_no_fee_spec(amount_in, reserve_in, reserve_out) <= reserve_out,
        reserve_in > 0 && reserve_out > 0 ==> out_no_fee_spec(amount_in, reserve_in, reserve_out) < reserve_out,
{
    let d = reserve_in + amount_in;
    let n = amount_in * reserve_out;
    assert(n >= 0) by (nonlinear_arith)
        requires
            n == amount_in * reserve_out,
            amount_in >= 0,
            reserve_out >= 0,
    ;
    lemma_div_bounds(n, d);
    lemma_le_div_iff(reserve_out, n, d);
    assert(n <= reserve_out * d) by (nonlinear_arith)
        requires
            n == amount_in * reserve_out,
            d == reserve_in + amount_in,
            reserve_in >= 0,
            reserve_out >= 0,
    ;
    lemma_le_div_iff(reserve_out + 1, n, d);
    assert((reserve_out + 1) * d == reserve_out * d + d) by (nonlinear_arith);
    if reserve_in > 0 && reserve_out > 0 {
        assert(n < reserve_out * d) by (nonlinear_arith)
            requires
                n == amount_in * reserve_out,
                d == reserve_in + amount_in,
                reserve_in > 0,
                reserve_out > 0,
        ;
        lemma_le_div_iff(reserve_out, n, d);
    }
}


/// The output without fee never decreases as the input grows.
pub proof fn lemma_out_no_fee_monotonic(amount_in1: int, amount_in2: int, reserve_in: int, reserve_out: int)
    requires
        0 <= amount_in1 <= amount_in2,
        reserve_in > 0,
        reserve_out >= 0,
    ensures
        out_no_fee_spec(amount_in1, reserve_in, reserve_out) <= out_no_fee_spec(amount_in2, reserve_in, reserve_out),
{
    let n1 = amount_in1 * reserve_out;
    let n2 = amount_in2 * reserve_out;
    let d1 = reserve_in + amount_in1;
    let d2 = reserve_in + amount_in2;
    assert(n1 * d2 <= n2 * d1 && n1 >= 0 && n2 >= 0) by (nonlinear_arith)
        requires
            n1 == amount_in1 * reserve_out,
            n2 == amount_in2 * reserve_out,
            d1 == reserve_in + amount_in1,
            d2 == reserve_in + amount_in2,
            0 <= amount_in1 <= amount_in2,
            reserve_in > 0,
            reserve_out >= 0,
    ;
    lemma_div_le_cross(n1, d1, n2, d2);
}

/// Asking back, without fee, the input for the output that `amount_in` bought gives at least
/// `amount_in` exactly when that output plus the remainder its rounding dropped stays within
/// the output reserve.
pub proof fn lemma_round_trip_out_then_in(amount_in: int, reserve_in: int, reserve_out: int)
    requires
        amount_in >= 0,
        reserve_in > 0,
        reserve_out > 0,
    ensures
        ({
            let out = out_no_fee_spec(amount_in, reserve_in, reserve_out);
            &&& out < reserve_out
            &&& in_no_fee_spec(out, reserve_in, reserve_out) >= amount_in <==> out + (amount_in * reserve_out) % (
            reserve_in + amount_in) <= reserve_out
        }),
{
    lemma_out_no_fee_bound(amount_in, reserve_in, reserve_out);
    let y = out_no_fee_spec(amount_in, reserve_in, reserve_out);
    let d = reserve_in + amount_in;
    let n = amount_in * reserve_out;
    assert(n >= 0) by (nonlinear_arith)
        requires
            n == amount_in * reserve_out,
            amount_in >= 0,
            reserve_out >= 0,
    ;
    lemma_div_bounds(n, d);
    let rem = n % d;
    let e = reserve_out - y;
    assert(reserve_in * y >= 0) by (nonlinear_arith)
        requires
            reserve_in > 0,
            y >= 0,
    ;
    lemma_le_div_iff(amount_in - 1, reserve_in * y, e);
    assert((amount_in - 1) * e <= reserve_in * y <==> y + rem <= reserve_out) by (nonlinear_arith)
        requires
            y * d + rem == n,
            n == amount_in * reserve_out,
            d == reserve_in + amount_in,
            e == reserve_out - y,
    ;
}

/// Rounding never favours the trader: the input asked, without fee, for `amount_out` buys at
/// least `amount_out` back.
pub proof fn lemma_round_trip_in_then_out(amount_out: int, reserve_in: int, reserve_out: int)
    requires
        0 <= amount_out < reserve_out,
        reserve_in >= 0,
    ensures
        out_no_fee_spec(in_no_fee_spec(amount_out, reserve_in, reserve_out), reserve_in, reserve_out) >= amount_out,
{
    let e = reserve_out - amount_out;
    let n = reserve_in * amount_out;
    assert(n >= 0) by (nonlinear_arith)
        requires
            n == reserve_in * amount_out,
            reserve_in >= 0,
            amount_out >= 0,
    ;
    lemma_div_bounds(n, e);
    let z = in_no_fee_spec(amount_out, reserve_in, reserve_out);
    assert(z * e > n) by (nonlinear_arith)
        requires
            z == n / e + 1,
            n < (n / e) * e + e,
    ;
    assert(amount_out * (reserve_in + z) <= z * reserve_out && z * reserve_out >= 0) by (nonlinear_arith)
        requires
            z * e > n,
            n == reserve_in * amount_out,
            e == reserve_out - amount_out,
            z >= 1,
            reserve_out > 0,
    ;
    lemma_le_div_iff(amount_out, z * reserve_out, reserve_in + z);
}

} // verus!

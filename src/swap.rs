use vstd::prelude::*;
use crate::arith::{lemma_div_bounds, lemma_mul_le_right};
use crate::config::{has_pair, pair_index, ConfigModule, Pair, PairState, Payment, State, TokenId};
use crate::errors::DexError;
use crate::helpers::{
    add_amounts, amount_in_ok, amount_in_spec, amount_max, amount_out_ok, amount_out_spec, fee_split_ok, fee_split_spec, in_no_fee_ok, in_no_fee_spec,
    out_no_fee_ok, out_no_fee_spec, valid_fees, Amount,
    HelpersModule,
};

verus! {

/// Fixed-input swap against reserves `(reserve_in, reserve_out)`:
/// `(amount_out, new_reserve_in, new_reserve_out, owner_fee_amount)`.
pub open spec fn swap_in_spec(amount_in: int, reserve_in: int, reserve_out: int, fee_in: bool, lp_rate: int, owner_rate: int) -> (int, int, int, int) {
    if fee_in {
        let (lp, owner, total) = fee_split_spec(amount_in, true, lp_rate, owner_rate);
        let left = amount_in - total;
        let out = out_no_fee_spec(left, reserve_in, reserve_out);
        (out, reserve_in + left + lp, reserve_out - out, owner)
    } else {
        let out = out_no_fee_spec(amount_in, reserve_in, reserve_out);
        let (lp, owner, total) = fee_split_spec(out, true, lp_rate, owner_rate);
        (out - total, reserve_in + amount_in, reserve_out - out + lp, owner)
    }
}

/// `do_swap_fixed_input` computes without a zero divisor or an overflow.
pub open spec fn swap_in_ok(amount_in: int, reserve_in: int, reserve_out: int, fee_in: bool, lp_rate: int, owner_rate: int) -> bool {
    if fee_in {
        let (lp, owner, total) = fee_split_spec(amount_in, true, lp_rate, owner_rate);
        let left = amount_in - total;
        &&& fee_split_ok(amount_in, true, lp_rate, owner_rate)
        &&& out_no_fee_ok(left, reserve_in, reserve_out)
        &&& reserve_in + left + lp <= amount_max()
    } else {
        let out = out_no_fee_spec(amount_in, reserve_in, reserve_out);
        &&& out_no_fee_ok(amount_in, reserve_in, reserve_out)
        &&& fee_split_ok(out, true, lp_rate, owner_rate)
    }
}

/// Fixed-output swap against reserves `(reserve_in, reserve_out)`:
/// `(amount_in, new_reserve_in, new_reserve_out, owner_fee_amount)`.
pub open spec fn swap_out_spec(amount_out: int, reserve_in: int, reserve_out: int, fee_in: bool, lp_rate: int, owner_rate: int) -> (int, int, int, int) {
    if fee_in {
        let in_no_fee = in_no_fee_spec(amount_out, reserve_in, reserve_out);
        let (lp, owner, total) = fee_split_spec(in_no_fee, false, lp_rate, owner_rate);
        (in_no_fee + total, reserve_in + in_no_fee + lp, reserve_out - amount_out, owner)
    } else {
        let (lp, owner, total) = fee_split_spec(amount_out, false, lp_rate, owner_rate);
        let out_with_fee = amount_out + total;
        let amount_in = in_no_fee_spec(out_with_fee, reserve_in, reserve_out);
        (amount_in, reserve_in + amount_in, reserve_out - out_with_fee + lp, owner)
    }
}

/// `do_swap_fixed_output` computes without a zero divisor, an output at the reserve, or an overflow.
pub open spec fn swap_out_ok(amount_out: int, reserve_in: int, reserve_out: int, fee_in: bool, lp_rate: int, owner_rate: int) -> bool {
    if fee_in {
        let in_no_fee = in_no_fee_spec(amount_out, reserve_in, reserve_out);
        let (lp, owner, total) = fee_split_spec(in_no_fee, false, lp_rate, owner_rate);
        &&& in_no_fee_ok(amount_out, reserve_in, reserve_out)
        &&& fee_split_ok(in_no_fee, false, lp_rate, owner_rate)
        &&& in_no_fee + total <= amount_max()
        &&& reserve_in + in_no_fee + lp <= amount_max()
    } else {
        let (lp, owner, total) = fee_split_spec(amount_out, false, lp_rate, owner_rate);
        let out_with_fee = amount_out + total;
        &&& fee_split_ok(amount_out, false, lp_rate, owner_rate)
        &&& out_with_fee <= amount_max()
        &&& in_no_fee_ok(out_with_fee, reserve_in, reserve_out)
        &&& reserve_in + in_no_fee_spec(out_with_fee, reserve_in, reserve_out) <= amount_max()
    }
}

/// A fixed-input swap on pair `p` paying `amount_in` of `token_in`, with reserves kept as
/// (token, base): `(amount_out, new_liquidity_token, new_liquidity_base, owner_fee_amount)`.
/// The fee is charged on the input exactly when the input is the base asset.
pub open spec fn pair_swap_in(p: Pair, token_in: TokenId, amount_in: int) -> (int, int, int, int) {
    if token_in == p.base_token {
        let (out, new_base, new_token, fee) = swap_in_spec(amount_in, p.liquidity_base as int, p.liquidity_token as int, true, p.lp_fee as int, p.owner_fee as int);
        (out, new_token, new_base, fee)
    } else {
        swap_in_spec(amount_in, p.liquidity_token as int, p.liquidity_base as int, false, p.lp_fee as int, p.owner_fee as int)
    }
}

/// `pair_swap_in` computes without a zero divisor or an overflow.
pub open spec fn pair_swap_in_ok(p: Pair, token_in: TokenId, amount_in: int) -> bool {
    if token_in == p.base_token {
        swap_in_ok(amount_in, p.liquidity_base as int, p.liquidity_token as int, true, p.lp_fee as int, p.owner_fee as int)
    } else {
        swap_in_ok(amount_in, p.liquidity_token as int, p.liquidity_base as int, false, p.lp_fee as int, p.owner_fee as int)
    }
}

/// A fixed-output swap on pair `p` paying with `token_in` for `amount_out`, with reserves kept
/// as (token, base): `(amount_in, new_liquidity_token, new_liquidity_base, owner_fee_amount)`.
pub open spec fn pair_swap_out(p: Pair, token_in: TokenId, amount_out: int) -> (int, int, int, int) {
    if token_in == p.base_token {
        let (amount_in, new_base, new_token, fee) = swap_out_spec(amount_out, p.liquidity_base as int, p.liquidity_token as int, true, p.lp_fee as int, p.owner_fee as int);
        (amount_in, new_token, new_base, fee)
    } else {
        swap_out_spec(amount_out, p.liquidity_token as int, p.liquidity_base as int, false, p.lp_fee as int, p.owner_fee as int)
    }
}

/// `pair_swap_out` computes without a zero divisor, an output at the reserve, or an overflow.
pub open spec fn pair_swap_out_ok(p: Pair, token_in: TokenId, amount_out: int) -> bool {
    if token_in == p.base_token {
        swap_out_ok(amount_out, p.liquidity_base as int, p.liquidity_token as int, true, p.lp_fee as int, p.owner_fee as int)
    } else {
        swap_out_ok(amount_out, p.liquidity_token as int, p.liquidity_base as int, false, p.lp_fee as int, p.owner_fee as int)
    }
}

/// What a swap moves: the input kept, the output paid to the caller, the owner's fee paid in
/// the base asset, and the part of the payment handed back.
#[derive(PartialEq, Eq, Structural, Clone, Copy, Debug)]
pub struct SwapOutcome {
    pub pair_id: usize,
    pub amount_in: Amount,
    pub amount_out: Amount,
    pub owner_fee: Amount,
    pub refund: Amount,
}

/// The pair found for a swap paying `token_in` for `token_out`, or why there is none to use.
pub open spec fn swap_target(state: State, pairs: Seq<Pair>, token_in: TokenId, token_out: TokenId) -> Result<Pair, DexError> {
    if state != State::Active {
        Err(DexError::NotActive)
    } else if !has_pair(pairs, token_in, token_out) {
        Err(DexError::NotFound)
    } else {
        let p = pairs[pair_index(pairs, token_in, token_out)];
        if p.state != PairState::Active {
            Err(DexError::PairNotActive)
        } else {
            Ok(p)
        }
    }
}

/// Outcome of `swap_fixed_input`: the updated pair and what moves, or the error.
pub open spec fn swap_fixed_input_spec(state: State, pairs: Seq<Pair>, payment: Payment, token_out: TokenId, min_amount_out: Amount) -> Result<(Pair, SwapOutcome), DexError> {
    match swap_target(state, pairs, payment.token, token_out) {
        Err(e) => Err(e),
        Ok(p) => if !pair_swap_in_ok(p, payment.token, payment.amount as int) {
            Err(DexError::ArithmeticFailure)
        } else {
            let (out, new_token, new_base, fee) = pair_swap_in(p, payment.token, payment.amount as int);
            if out < min_amount_out {
                Err(DexError::SlippageExceeded)
            } else {
                Ok((
                    Pair { liquidity_token: new_token as Amount, liquidity_base: new_base as Amount, ..p },
                    SwapOutcome { pair_id: p.id, amount_in: payment.amount, amount_out: out as Amount, owner_fee: fee as Amount, refund: 0 },
                ))
            }
        },
    }
}

/// Outcome of `swap_fixed_output`: the updated pair and what moves, or the error.
pub open spec fn swap_fixed_output_spec(state: State, pairs: Seq<Pair>, payment: Payment, token_out: TokenId, amount_out_wanted: Amount) -> Result<(Pair, SwapOutcome), DexError> {
    match swap_target(state, pairs, payment.token, token_out) {
        Err(e) => Err(e),
        Ok(p) => if !pair_swap_out_ok(p, payment.token, amount_out_wanted as int) {
            Err(DexError::ArithmeticFailure)
        } else {
            let (amount_in, new_token, new_base, fee) = pair_swap_out(p, payment.token, amount_out_wanted as int);
            if !(0 < amount_in <= payment.amount) {
                Err(DexError::SlippageExceeded)
            } else {
                Ok((
                    Pair { liquidity_token: new_token as Amount, liquidity_base: new_base as Amount, ..p },
                    SwapOutcome {
                        pair_id: p.id,
                        amount_in: amount_in as Amount,
                        amount_out: amount_out_wanted,
                        owner_fee: fee as Amount,
                        refund: (payment.amount - amount_in) as Amount,
                    },
                ))
            }
        },
    }
}

/// Outcome of `get_amount_out_view`.
pub open spec fn amount_out_view_spec(pairs: Seq<Pair>, token_in: TokenId, token_out: TokenId, amount_in: Amount) -> Result<Amount, DexError> {
    if amount_in == 0 {
        Err(DexError::InvalidPayment)
    } else if !has_pair(pairs, token_in, token_out) {
        Err(DexError::NotFound)
    } else {
        let p = pairs[pair_index(pairs, token_in, token_out)];
        let fee_in = token_in == p.base_token;
        let total = p.lp_fee + p.owner_fee;
        let (reserve_in, reserve_out) = if token_in == p.token {
            (p.liquidity_token as int, p.liquidity_base as int)
        } else {
            (p.liquidity_base as int, p.liquidity_token as int)
        };
        if reserve_out == 0 {
            Err(DexError::InsufficientLiquidity)
        } else if !amount_out_ok(amount_in as int, reserve_in, reserve_out, fee_in, total) {
            Err(DexError::ArithmeticFailure)
        } else {
            Ok(amount_out_spec(amount_in as int, reserve_in, reserve_out, fee_in, total) as Amount)
        }
    }
}

/// Outcome of `get_amount_in_view`.
pub open spec fn amount_in_view_spec(pairs: Seq<Pair>, token_in: TokenId, token_out: TokenId, amount_out: Amount) -> Result<Amount, DexError> {
    if amount_out == 0 {
        Err(DexError::InvalidPayment)
    } else if !has_pair(pairs, token_in, token_out) {
        Err(DexError::NotFound)
    } else {
        let p = pairs[pair_index(pairs, token_in, token_out)];
        let fee_in = token_in == p.base_token;
        let total = p.lp_fee + p.owner_fee;
        let (reserve_in, reserve_out) = if token_in == p.token {
            (p.liquidity_token as int, p.liquidity_base as int)
        } else {
            (p.liquidity_base as int, p.liquidity_token as int)
        };
        if reserve_out == 0 {
            Err(DexError::InsufficientLiquidity)
        } else if !amount_in_ok(amount_out as int, reserve_in, reserve_out, fee_in, total) {
            Err(DexError::ArithmeticFailure)
        } else {
            Ok(amount_in_spec(amount_out as int, reserve_in, reserve_out, fee_in, total) as Amount)
        }
    }
}

/// Swaps against the pairs of a registry.
pub struct SwapModule;

impl SwapModule {
    /// Swaps the whole payment for the other asset of its pair, paying out at least
    /// `min_amount_out`. The product of the pair's reserves never decreases.
    pub fn swap_fixed_input(store: &mut ConfigModule, payment: Payment, token_out: TokenId, min_amount_out: Amount) -> (r: Result<SwapOutcome, DexError>)
        requires
            old(store).wf(),
        ensures
            final(store).wf(),
            match swap_fixed_input_spec(old(store).state, old(store).pairs@, payment, token_out, min_amount_out) {
                Ok((p, outcome)) => {
                    &&& r == Ok::<SwapOutcome, DexError>(outcome)
                    &&& final(store).pairs@ == old(store).pairs_with(p)
                    &&& old(store).same_but_pairs(final(store))
                },
                Err(e) => r == Err::<SwapOutcome, DexError>(e) && *final(store) == *old(store),
            },
            r matches Ok(o) ==> final(store).pairs@[o.pair_id as int].liquidity_token * final(store).pairs@[o.pair_id as int].liquidity_base
                >= old(store).pairs@[o.pair_id as int].liquidity_token * old(store).pairs@[o.pair_id as int].liquidity_base,
    {
        if store.state != State::Active {
            return Err(DexError::NotActive);
        }
        let i = match store.find_pair_index(payment.token, token_out) {
            Some(i) => i,
            None => return Err(DexError::NotFound),
        };
        let pair = store.pairs[i];
        if pair.state != PairState::Active {
            return Err(DexError::PairNotActive);
        }
        let fee_in = payment.token == pair.base_token;
        let swapped = if token_out == pair.base_token {
            Self::do_swap_fixed_input(payment.amount, pair.liquidity_token, pair.liquidity_base, fee_in, pair.lp_fee, pair.owner_fee)
        } else {
            match Self::do_swap_fixed_input(payment.amount, pair.liquidity_base, pair.liquidity_token, fee_in, pair.lp_fee, pair.owner_fee) {
                Ok((out, new_base, new_token, fee)) => Ok((out, new_token, new_base, fee)),
                Err(e) => Err(e),
            }
        };
        let (amount_out, new_token_liquidity, new_base_liquidity, owner_fee) = match swapped {
            Ok(v) => v,
            Err(e) => return Err(e),
        };
        if amount_out < min_amount_out {
            return Err(DexError::SlippageExceeded);
        }
        let updated = Pair { liquidity_token: new_token_liquidity, liquidity_base: new_base_liquidity, ..pair };
        store.pairs.set(i, updated);
        proof {
            assert(store.pairs@ =~= old(store).pairs_with(updated));
        }
        Ok(SwapOutcome { pair_id: pair.id, amount_in: payment.amount, amount_out, owner_fee, refund: 0 })
    }

    /// Buys exactly `amount_out_wanted` of `token_out` with at most the payment, handing back
    /// what is left of it. The product of the pair's reserves never decreases.
    pub fn swap_fixed_output(store: &mut ConfigModule, payment: Payment, token_out: TokenId, amount_out_wanted: Amount) -> (r: Result<SwapOutcome, DexError>)
        requires
            old(store).wf(),
        ensures
            final(store).wf(),
            match swap_fixed_output_spec(old(store).state, old(store).pairs@, payment, token_out, amount_out_wanted) {
                Ok((p, outcome)) => {
                    &&& r == Ok::<SwapOutcome, DexError>(outcome)
                    &&& final(store).pairs@ == old(store).pairs_with(p)
                    &&& old(store).same_but_pairs(final(store))
                },
                Err(e) => r == Err::<SwapOutcome, DexError>(e) && *final(store) == *old(store),
            },
            r matches Ok(o) ==> o.amount_in + o.refund == payment.amount,
            r matches Ok(o) ==> final(store).pairs@[o.pair_id as int].liquidity_token * final(store).pairs@[o.pair_id as int].liquidity_base
                >= old(store).pairs@[o.pair_id as int].liquidity_token * old(store).pairs@[o.pair_id as int].liquidity_base,
    {
        if store.state != State::Active {
            return Err(DexError::NotActive);
        }
        let i = match store.find_pair_index(payment.token, token_out) {
            Some(i) => i,
            None => return Err(DexError::NotFound),
        };
        let pair = store.pairs[i];
        if pair.state != PairState::Active {
            return Err(DexError::PairNotActive);
        }
        let fee_in = payment.token == pair.base_token;
        let swapped = if token_out == pair.base_token {
            Self::do_swap_fixed_output(amount_out_wanted, pair.liquidity_token, pair.liquidity_base, fee_in, pair.lp_fee, pair.owner_fee)
        } else {
            match Self::do_swap_fixed_output(amount_out_wanted, pair.liquidity_base, pair.liquidity_token, fee_in, pair.lp_fee, pair.owner_fee) {
                Ok((amount_in, new_base, new_token, fee)) => Ok((amount_in, new_token, new_base, fee)),
                Err(e) => Err(e),
            }
        };
        let (amount_in, new_token_liquidity, new_base_liquidity, owner_fee) = match swapped {
            Ok(v) => v,
            Err(e) => return Err(e),
        };
        if !(amount_in > 0 && amount_in <= payment.amount) {
            return Err(DexError::SlippageExceeded);
        }
        let updated = Pair { liquidity_token: new_token_liquidity, liquidity_base: new_base_liquidity, ..pair };
        store.pairs.set(i, updated);
        proof {
            assert(store.pairs@ =~= old(store).pairs_with(updated));
        }
        Ok(SwapOutcome { pair_id: pair.id, amount_in, amount_out: amount_out_wanted, owner_fee, refund: payment.amount - amount_in })
    }

    /// Expected output for `amount_in` of `token_in`, under the pair's current reserves and fees.
    pub fn get_amount_out_view(store: &ConfigModule, token_in: TokenId, token_out: TokenId, amount_in: Amount) -> (r: Result<Amount, DexError>)
        requires
            store.wf(),
        ensures
            r == amount_out_view_spec(store.pairs@, token_in, token_out, amount_in),
    {
        if amount_in == 0 {
            return Err(DexError::InvalidPayment);
        }
        let pair = match store.get_pair_by_tickers(token_in, token_out) {
            Some(p) => p,
            None => return Err(DexError::NotFound),
        };
        let fee_in = token_in == pair.base_token;
        let total_fee = pair.lp_fee + pair.owner_fee;
        if token_in == pair.token {
            if pair.liquidity_base == 0 {
                return Err(DexError::InsufficientLiquidity);
            }
            HelpersModule::get_amount_out(amount_in, pair.liquidity_token, pair.liquidity_base, fee_in, total_fee)
        } else {
            if pair.liquidity_token == 0 {
                return Err(DexError::InsufficientLiquidity);
            }
            HelpersModule::get_amount_out(amount_in, pair.liquidity_base, pair.liquidity_token, fee_in, total_fee)
        }
    }

    /// Input of `token_in` needed for `amount_out` of `token_out`, under the pair's current
    /// reserves and fees.
    pub fn get_amount_in_view(store: &ConfigModule, token_in: TokenId, token_out: TokenId, amount_out: Amount) -> (r: Result<Amount, DexError>)
        requires
            store.wf(),
        ensures
            r == amount_in_view_spec(store.pairs@, token_in, token_out, amount_out),
    {
        if amount_out == 0 {
            return Err(DexError::InvalidPayment);
        }
        let pair = match store.get_pair_by_tickers(token_in, token_out) {
            Some(p) => p,
            None => return Err(DexError::NotFound),
        };
        let fee_in = token_in == pair.base_token;
        let total_fee = pair.lp_fee + pair.owner_fee;
        if token_in == pair.token {
            if pair.liquidity_base == 0 {
                return Err(DexError::InsufficientLiquidity);
            }
            HelpersModule::get_amount_in(amount_out, pair.liquidity_token, pair.liquidity_base, fee_in, total_fee)
        } else {
            if pair.liquidity_token == 0 {
                return Err(DexError::InsufficientLiquidity);
            }
            HelpersModule::get_amount_in(amount_out, pair.liquidity_base, pair.liquidity_token, fee_in, total_fee)
        }
    }

    /// Resolves a fixed-input swap: the output, the new reserves and the owner's fee.
    /// The product of the reserves never decreases.
    pub fn do_swap_fixed_input(
        amount_in: Amount,
        liquidity_in: Amount,
        liquidity_out: Amount,
        fee_in: bool,
        lp_fee: u64,
        owner_fee: u64,
    ) -> (r: Result<(Amount, Amount, Amount, Amount), DexError>)
        requires
            valid_fees(lp_fee as int, owner_fee as int),
        ensures
            r is Ok <==> swap_in_ok(amount_in as int, liquidity_in as int, liquidity_out as int, fee_in, lp_fee as int, owner_fee as int),
            r matches Ok((out, new_in, new_out, fee)) ==> (out as int, new_in as int, new_out as int, fee as int)
                == swap_in_spec(amount_in as int, liquidity_in as int, liquidity_out as int, fee_in, lp_fee as int, owner_fee as int),
            r matches Ok((out, new_in, new_out, fee)) ==> new_in * new_out >= liquidity_in * liquidity_out,
            r matches Ok((out, new_in, new_out, fee)) ==> (liquidity_in > 0 && liquidity_out > 0 ==> new_in > 0 && new_out > 0),
            r matches Err(e) ==> e == DexError::ArithmeticFailure,
    {
        if fee_in {
            let (lp_fee_amount, owner_fee_amount, total_fee_amount) = HelpersModule::get_fee_amounts(amount_in, true, lp_fee, owner_fee)?;
            let left_amount_in = amount_in - total_fee_amount;
            let amount_out = HelpersModule::get_amount_out_no_fee(left_amount_in, liquidity_in, liquidity_out)?;
            let new_liquidity_in = add_amounts(liquidity_in + left_amount_in, lp_fee_amount)?;
            proof {
                lemma_out_no_fee_keeps_product(left_amount_in as int, liquidity_in as int, liquidity_out as int);
                lemma_mul_le_right(liquidity_in + left_amount_in, new_liquidity_in as int, liquidity_out - amount_out);
            }
            Ok((amount_out, new_liquidity_in, liquidity_out - amount_out, owner_fee_amount))
        } else {
            let amount_out = HelpersModule::get_amount_out_no_fee(amount_in, liquidity_in, liquidity_out)?;
            let (lp_fee_amount, owner_fee_amount, total_fee_amount) = HelpersModule::get_fee_amounts(amount_out, true, lp_fee, owner_fee)?;
            let new_liquidity_out = liquidity_out - amount_out + lp_fee_amount;
            proof {
                lemma_out_no_fee_keeps_product(amount_in as int, liquidity_in as int, liquidity_out as int);
                lemma_mul_le_right(liquidity_out - amount_out, new_liquidity_out as int, liquidity_in + amount_in);
                assert((liquidity_in + amount_in) * (liquidity_out - amount_out) == (liquidity_out - amount_out) * (liquidity_in + amount_in)) by (nonlinear_arith);
                assert((liquidity_in + amount_in) * new_liquidity_out == new_liquidity_out * (liquidity_in + amount_in)) by (nonlinear_arith);
            }
            Ok((amount_out - total_fee_amount, liquidity_in + amount_in, new_liquidity_out, owner_fee_amount))
        }
    }

    /// Resolves a fixed-output swap: the input owed, the new reserves and the owner's fee.
    /// Fails when the output, with its fee where the fee is on the output, reaches the reserve.
    /// The product of the reserves never decreases.
    pub fn do_swap_fixed_output(
        amount_out: Amount,
        liquidity_in: Amount,
        liquidity_out: Amount,
        fee_in: bool,
        lp_fee: u64,
        owner_fee: u64,
    ) -> (r: Result<(Amount, Amount, Amount, Amount), DexError>)
        requires
            valid_fees(lp_fee as int, owner_fee as int),
        ensures
            r is Ok <==> swap_out_ok(amount_out as int, liquidity_in as int, liquidity_out as int, fee_in, lp_fee as int, owner_fee as int),
            r matches Ok((amount_in, new_in, new_out, fee)) ==> (amount_in as int, new_in as int, new_out as int, fee as int)
                == swap_out_spec(amount_out as int, liquidity_in as int, liquidity_out as int, fee_in, lp_fee as int, owner_fee as int),
            r matches Ok((amount_in, new_in, new_out, fee)) ==> new_in * new_out >= liquidity_in * liquidity_out,
            r matches Ok((amount_in, new_in, new_out, fee)) ==> (liquidity_in > 0 && liquidity_out > 0 ==> new_in > 0 && new_out > 0),
            r matches Err(e) ==> e == DexError::ArithmeticFailure,
    {
        if fee_in {
            let amount_in_no_fee = HelpersModule::get_amount_in_no_fee(amount_out, liquidity_in, liquidity_out)?;
            let (lp_fee_amount, owner_fee_amount, total_fee_amount) = HelpersModule::get_fee_amounts(amount_in_no_fee, false, lp_fee, owner_fee)?;
            let amount_in = add_amounts(amount_in_no_fee, total_fee_amount)?;
            let grown_in = add_amounts(liquidity_in, amount_in_no_fee)?;
            let new_liquidity_in = add_amounts(grown_in, lp_fee_amount)?;
            proof {
                lemma_in_no_fee_keeps_product(amount_out as int, liquidity_in as int, liquidity_out as int);
                lemma_mul_le_right(grown_in as int, new_liquidity_in as int, liquidity_out - amount_out);
            }
            Ok((amount_in, new_liquidity_in, liquidity_out - amount_out, owner_fee_amount))
        } else {
            let (lp_fee_amount, owner_fee_amount, total_fee_amount) = HelpersModule::get_fee_amounts(amount_out, false, lp_fee, owner_fee)?;
            let left_amount_out = add_amounts(amount_out, total_fee_amount)?;
            let amount_in = HelpersModule::get_amount_in_no_fee(left_amount_out, liquidity_in, liquidity_out)?;
            let new_liquidity_in = add_amounts(liquidity_in, amount_in)?;
            let new_liquidity_out = liquidity_out - left_amount_out + lp_fee_amount;
            proof {
                lemma_in_no_fee_keeps_product(left_amount_out as int, liquidity_in as int, liquidity_out as int);
                lemma_mul_le_right(liquidity_out - left_amount_out, new_liquidity_out as int, new_liquidity_in as int);
                assert(new_liquidity_in * (liquidity_out - left_amount_out) == (liquidity_out - left_amount_out) * new_liquidity_in) by (nonlinear_arith);
                assert(new_liquidity_in * new_liquidity_out == new_liquidity_out * new_liquidity_in) by (nonlinear_arith);
            }
            Ok((amount_in, new_liquidity_in, new_liquidity_out, owner_fee_amount))
        }
    }
}

/// The constant-product input without fee, rounded up, keeps the product of the reserves.
proof fn lemma_in_no_fee_keeps_product(amount_out: int, reserve_in: int, reserve_out: int)
    requires
        0 <= amount_out < reserve_out,
        reserve_in >= 0,
    ensures
        (reserve_in + in_no_fee_spec(amount_out, reserve_in, reserve_out)) * (reserve_out - amount_out) >= reserve_in * reserve_out,
{
    let e = reserve_out - amount_out;
    let n = reserve_in * amount_out;
    assert(n >= 0) by (nonlinear_arith)
        requires
            n == reserve_in * amount_out,
            reserve_in >= 0,
            amount_out >= 0,
    ;
    lemma_div_bounds(n, e);
    let z = in_no_fee_spec(amount_out, reserve_in, reserve_out);
    assert((reserve_in + z) * e >= reserve_in * reserve_out) by (nonlinear_arith)
        requires
            z == n / e + 1,
            n < (n / e) * e + e,
            n == reserve_in * amount_out,
            e == reserve_out - amount_out,
    ;
}

/// The constant-product output without fee keeps the product of the reserves.
proof fn lemma_out_no_fee_keeps_product(amount_in: int, reserve_in: int, reserve_out: int)
    requires
        amount_in >= 0,
        reserve_in >= 0,
        reserve_out >= 0,
        reserve_in + amount_in > 0,
    ensures
        (reserve_in + amount_in) * (reserve_out - out_no_fee_spec(amount_in, reserve_in, reserve_out)) >= reserve_in * reserve_out,
{
    let d = reserve_in + amount_in;
    let n = amount_in * reserve_out;
    assert(n >= 0) by (nonlinear_arith)
        requires
            n == amount_in * reserve_out,
            amount_in >= 0,
            reserve_out >= 0,
    ;
    lemma_div_bounds(n, d);
    let q = n / d;
    assert(d * (reserve_out - q) >= reserve_in * reserve_out) by (nonlinear_arith)
        requires
            q * d <= n,
            n == amount_in * reserve_out,
            d == reserve_in + amount_in,
    ;
}

} // verus!

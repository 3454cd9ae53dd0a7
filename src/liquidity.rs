use vstd::prelude::*;
use crate::arith::{lemma_div_bounds, lemma_div_le_cross, lemma_le_div_iff};
use crate::config::{has_lp_token, has_pair, lp_index, pair_index, Address, ConfigModule, Pair, PairState, Payment, State, TokenId};
use crate::errors::DexError;
use crate::helpers::{add_amounts, amount_max, mul_amounts, quote_ok, quote_spec, Amount, HelpersModule};

verus! {

/// What a deposit keeps on pair `p` of `token_amount` and `base_amount`, and the shares it
/// mints: `(token_added, base_added, minted)`. The first deposit keeps everything and mints
/// the base amount; later ones keep the largest part at the pool's ratio and mint the smaller
/// of the two proportional share counts.
pub open spec fn deposit_spec(p: Pair, token_amount: int, base_amount: int) -> (int, int, int) {
    if p.lp_supply == 0 {
        (token_amount, base_amount, base_amount)
    } else {
        let base_optimal = quote_spec(token_amount, p.liquidity_token as int, p.liquidity_base as int);
        let (token_added, base_added) = if base_optimal < base_amount {
            (token_amount, base_optimal)
        } else {
            (quote_spec(base_amount, p.liquidity_base as int, p.liquidity_token as int), base_amount)
        };
        let by_token = token_added * p.lp_supply / p.liquidity_token as int;
        let by_base = base_added * p.lp_supply / p.liquidity_base as int;
        (token_added, base_added, if by_token < by_base { by_token } else { by_base })
    }
}

/// The deposit computes without overflow.
pub open spec fn deposit_ok(p: Pair, token_amount: int, base_amount: int) -> bool {
    let (token_added, base_added, minted) = deposit_spec(p, token_amount, base_amount);
    let base_optimal = quote_spec(token_amount, p.liquidity_token as int, p.liquidity_base as int);
    &&& p.lp_supply > 0 ==> {
        &&& quote_ok(token_amount, p.liquidity_token as int, p.liquidity_base as int)
        &&& base_optimal >= base_amount ==> quote_ok(base_amount, p.liquidity_base as int, p.liquidity_token as int)
        &&& token_added * p.lp_supply <= amount_max()
        &&& base_added * p.lp_supply <= amount_max()
    }
    &&& p.liquidity_token + token_added <= amount_max()
    &&& p.liquidity_base + base_added <= amount_max()
    &&& p.lp_supply + minted <= amount_max()
}

/// Pair `p` after the deposit of `token_amount` and `base_amount`.
pub open spec fn deposited(p: Pair, token_amount: int, base_amount: int) -> Pair {
    let (token_added, base_added, minted) = deposit_spec(p, token_amount, base_amount);
    Pair {
        liquidity_token: (p.liquidity_token + token_added) as Amount,
        liquidity_base: (p.liquidity_base + base_added) as Amount,
        lp_supply: (p.lp_supply + minted) as Amount,
        ..p
    }
}

/// What redeeming `shares` of pair `p` pays out: `(token_amount, base_amount)`, each reserve's
/// share rounded down.
pub open spec fn withdraw_spec(p: Pair, shares: int) -> (int, int) {
    (p.liquidity_token * shares / p.lp_supply as int, p.liquidity_base * shares / p.lp_supply as int)
}

/// The withdrawal computes without overflow.
pub open spec fn withdraw_ok(p: Pair, shares: int) -> bool {
    p.liquidity_token * shares <= amount_max() && p.liquidity_base * shares <= amount_max()
}

/// Pair `p` after redeeming `shares`; with no share left it stops swapping.
pub open spec fn withdrawn(p: Pair, shares: int) -> Pair {
    let (token_amount, base_amount) = withdraw_spec(p, shares);
    Pair {
        liquidity_token: (p.liquidity_token - token_amount) as Amount,
        liquidity_base: (p.liquidity_base - base_amount) as Amount,
        lp_supply: (p.lp_supply - shares) as Amount,
        state: if p.lp_supply == shares { PairState::ActiveNoSwap } else { p.state },
        ..p
    }
}

/// What a deposit moves: the shares minted to the caller, and the surplus of each asset
/// handed back.
#[derive(PartialEq, Eq, Structural, Clone, Copy, Debug)]
pub struct AddLiquidityOutcome {
    pub pair_id: usize,
    pub lp_token: TokenId,
    pub lp_amount: Amount,
    pub token_refund: Amount,
    pub base_refund: Amount,
}

/// What a withdrawal pays to the caller; the shares paid in are burnt.
#[derive(PartialEq, Eq, Structural, Clone, Copy, Debug)]
pub struct RemoveLiquidityOutcome {
    pub pair_id: usize,
    pub lp_token: TokenId,
    pub lp_amount: Amount,
    pub token_amount: Amount,
    pub base_amount: Amount,
}

/// Outcome of `add_liquidity`: the updated pair and what moves, or the error.
pub open spec fn add_liquidity_spec(state: State, pairs: Seq<Pair>, caller: Address, payments: Seq<Payment>) -> Result<(Pair, AddLiquidityOutcome), DexError> {
    if state != State::Active {
        Err(DexError::NotActive)
    } else if payments.len() != 2 {
        Err(DexError::InvalidPayment)
    } else if !has_pair(pairs, payments[0].token, payments[1].token) {
        Err(DexError::NotFound)
    } else {
        let p = pairs[pair_index(pairs, payments[0].token, payments[1].token)];
        let (base_amount, token_amount) = if payments[0].token == p.token {
            (payments[1].amount as int, payments[0].amount as int)
        } else {
            (payments[0].amount as int, payments[1].amount as int)
        };
        if p.state == PairState::Inactive {
            Err(DexError::PairNotActive)
        } else if p.lp_supply == 0 && p.owner != caller {
            Err(DexError::NotOwner)
        } else if token_amount == 0 || base_amount == 0 {
            Err(DexError::InvalidPayment)
        } else if !deposit_ok(p, token_amount, base_amount) {
            Err(DexError::ArithmeticFailure)
        } else {
            let (token_added, base_added, minted) = deposit_spec(p, token_amount, base_amount);
            Ok((
                deposited(p, token_amount, base_amount),
                AddLiquidityOutcome {
                    pair_id: p.id,
                    lp_token: p.lp_token,
                    lp_amount: minted as Amount,
                    token_refund: (token_amount - token_added) as Amount,
                    base_refund: (base_amount - base_added) as Amount,
                },
            ))
        }
    }
}

/// Outcome of `remove_liquidity`: the updated pair and what moves, or the error.
pub open spec fn remove_liquidity_spec(state: State, pairs: Seq<Pair>, payment: Payment) -> Result<(Pair, RemoveLiquidityOutcome), DexError> {
    if state != State::Active {
        Err(DexError::NotActive)
    } else if !has_lp_token(pairs, payment.token) {
        Err(DexError::InvalidPayment)
    } else {
        let p = pairs[lp_index(pairs, payment.token)];
        if p.state == PairState::Inactive {
            Err(DexError::PairNotActive)
        } else if payment.amount == 0 || payment.amount > p.lp_supply {
            Err(DexError::InvalidPayment)
        } else if !withdraw_ok(p, payment.amount as int) {
            Err(DexError::ArithmeticFailure)
        } else {
            let (token_amount, base_amount) = withdraw_spec(p, payment.amount as int);
            Ok((
                withdrawn(p, payment.amount as int),
                RemoveLiquidityOutcome {
                    pair_id: p.id,
                    lp_token: p.lp_token,
                    lp_amount: payment.amount,
                    token_amount: token_amount as Amount,
                    base_amount: base_amount as Amount,
                },
            ))
        }
    }
}

/// Deposits into and withdrawals from the pairs of a registry.
pub struct LiquidityModule;

impl LiquidityModule {
    /// Deposits the two attached payments into their pair. The first deposit is the owner's and
    /// mints the base amount; later ones keep the amounts at the pool's ratio, hand back the
    /// surplus and mint the smaller proportional share count.
    pub fn add_liquidity(store: &mut ConfigModule, caller: Address, payments: &Vec<Payment>) -> (r: Result<AddLiquidityOutcome, DexError>)
        requires
            old(store).wf(),
        ensures
            final(store).wf(),
            match add_liquidity_spec(old(store).state, old(store).pairs@, caller, payments@) {
                Ok((p, outcome)) => {
                    &&& r == Ok::<AddLiquidityOutcome, DexError>(outcome)
                    &&& final(store).pairs@ == old(store).pairs_with(p)
                    &&& old(store).same_but_pairs(final(store))
                },
                Err(e) => r == Err::<AddLiquidityOutcome, DexError>(e) && *final(store) == *old(store),
            },
    {
        if store.state != State::Active {
            return Err(DexError::NotActive);
        }
        if payments.len() != 2 {
            return Err(DexError::InvalidPayment);
        }
        let first = payments[0];
        let second = payments[1];
        let i = match store.find_pair_index(first.token, second.token) {
            Some(i) => i,
            None => return Err(DexError::NotFound),
        };
        let pair = store.pairs[i];
        if pair.state == PairState::Inactive {
            return Err(DexError::PairNotActive);
        }
        if pair.lp_supply == 0 && pair.owner != caller {
            return Err(DexError::NotOwner);
        }
        let (base_amount, token_amount) = if first.token == pair.token {
            (second.amount, first.amount)
        } else {
            (first.amount, second.amount)
        };
        if token_amount == 0 || base_amount == 0 {
            return Err(DexError::InvalidPayment);
        }
        proof {
            lemma_deposit_bounds(pair, token_amount as int, base_amount as int);
        }
        let (token_added, base_added, minted) = if pair.lp_supply == 0 {
            (token_amount, base_amount, base_amount)
        } else {
            let base_optimal = HelpersModule::quote(token_amount, pair.liquidity_token, pair.liquidity_base)?;
            let (token_added, base_added) = if base_optimal < base_amount {
                (token_amount, base_optimal)
            } else {
                let token_optimal = HelpersModule::quote(base_amount, pair.liquidity_base, pair.liquidity_token)?;
                (token_optimal, base_amount)
            };
            let by_token = mul_amounts(token_added, pair.lp_supply)? / pair.liquidity_token;
            let by_base = mul_amounts(base_added, pair.lp_supply)? / pair.liquidity_base;
            (token_added, base_added, if by_token < by_base { by_token } else { by_base })
        };
        let new_token_liquidity = add_amounts(pair.liquidity_token, token_added)?;
        let new_base_liquidity = add_amounts(pair.liquidity_base, base_added)?;
        let new_supply = add_amounts(pair.lp_supply, minted)?;
        let updated = Pair {
            liquidity_token: new_token_liquidity,
            liquidity_base: new_base_liquidity,
            lp_supply: new_supply,
            ..pair
        };
        store.pairs.set(i, updated);
        proof {
            assert(store.pairs@ =~= old(store).pairs_with(updated));
        }
        Ok(AddLiquidityOutcome {
            pair_id: pair.id,
            lp_token: pair.lp_token,
            lp_amount: minted,
            token_refund: token_amount - token_added,
            base_refund: base_amount - base_added,
        })
    }

    /// Redeems the attached shares for each reserve's proportional part, rounded down; a pair
    /// left with no share stops swapping.
    pub fn remove_liquidity(store: &mut ConfigModule, payment: Payment) -> (r: Result<RemoveLiquidityOutcome, DexError>)
        requires
            old(store).wf(),
        ensures
            final(store).wf(),
            match remove_liquidity_spec(old(store).state, old(store).pairs@, payment) {
                Ok((p, outcome)) => {
                    &&& r == Ok::<RemoveLiquidityOutcome, DexError>(outcome)
                    &&& final(store).pairs@ == old(store).pairs_with(p)
                    &&& old(store).same_but_pairs(final(store))
                },
                Err(e) => r == Err::<RemoveLiquidityOutcome, DexError>(e) && *final(store) == *old(store),
            },
    {
        if store.state != State::Active {
            return Err(DexError::NotActive);
        }
        let i = match store.find_lp_index(payment.token) {
            Some(i) => i,
            None => return Err(DexError::InvalidPayment),
        };
        let pair = store.pairs[i];
        if pair.state == PairState::Inactive {
            return Err(DexError::PairNotActive);
        }
        let shares = payment.amount;
        if shares == 0 || shares > pair.lp_supply {
            return Err(DexError::InvalidPayment);
        }
        let base_amount = mul_amounts(pair.liquidity_base, shares)? / pair.lp_supply;
        let token_amount = mul_amounts(pair.liquidity_token, shares)? / pair.lp_supply;
        proof {
            lemma_share_of_reserve(pair.liquidity_token as int, shares as int, pair.lp_supply as int);
            lemma_share_of_reserve(pair.liquidity_base as int, shares as int, pair.lp_supply as int);
        }
        let new_supply = pair.lp_supply - shares;
        let updated = Pair {
            liquidity_token: pair.liquidity_token - token_amount,
            liquidity_base: pair.liquidity_base - base_amount,
            lp_supply: new_supply,
            state: if new_supply == 0 { PairState::ActiveNoSwap } else { pair.state },
            ..pair
        };
        store.pairs.set(i, updated);
        proof {
            assert(store.pairs@ =~= old(store).pairs_with(updated));
        }
        Ok(RemoveLiquidityOutcome { pair_id: pair.id, lp_token: pair.lp_token, lp_amount: shares, token_amount, base_amount })
    }
}

/// A later deposit keeps no more of either asset than was paid.
proof fn lemma_deposit_bounds(p: Pair, token_amount: int, base_amount: int)
    requires
        p.wf(),
        token_amount >= 0,
        base_amount >= 0,
    ensures
        ({
            let (token_added, base_added, minted) = deposit_spec(p, token_amount, base_amount);
            &&& 0 <= token_added <= token_amount
            &&& 0 <= base_added <= base_amount
            &&& minted >= 0
        }),
{
    if p.lp_supply > 0 {
        let t = p.liquidity_token as int;
        let b = p.liquidity_base as int;
        let s = p.lp_supply as int;
        assert(token_amount * b >= 0 && base_amount * t >= 0) by (nonlinear_arith)
            requires
                token_amount >= 0,
                base_amount >= 0,
                t > 0,
                b > 0,
        ;
        lemma_div_bounds(token_amount * b, t);
        lemma_div_bounds(base_amount * t, b);
        let base_optimal = quote_spec(token_amount, t, b);
        if base_optimal >= base_amount {
            lemma_le_div_iff(base_amount, token_amount * b, t);
            lemma_div_le_cross(base_amount * t, b, token_amount, 1);
        }
        let (token_added, base_added, minted) = deposit_spec(p, token_amount, base_amount);
        assert(token_added * s >= 0 && base_added * s >= 0) by (nonlinear_arith)
            requires
                token_added >= 0,
                base_added >= 0,
                s > 0,
        ;
        lemma_div_bounds(token_added * s, t);
        lemma_div_bounds(base_added * s, b);
    }
}

/// The share `shares / supply` of a reserve, rounded down, is at most the reserve; all of it
/// for all the shares, and less than all of a positive reserve for fewer.
proof fn lemma_share_of_reserve(reserve: int, shares: int, supply: int)
    requires
        reserve >= 0,
        0 < shares <= supply,
    ensures
        0 <= reserve * shares / supply <= reserve,
        shares == supply ==> reserve * shares / supply == reserve,
        shares < supply && reserve > 0 ==> reserve * shares / supply < reserve,
{
    assert(0 <= reserve * shares <= reserve * supply) by (nonlinear_arith)
        requires
            reserve >= 0,
            0 < shares <= supply,
    ;
    lemma_div_bounds(reserve * shares, supply);
    lemma_div_le_cross(reserve * shares, supply, reserve, 1);
    lemma_le_div_iff(reserve, reserve * shares, supply);
    if shares < supply && reserve > 0 {
        assert(reserve * shares < reserve * supply) by (nonlinear_arith)
            requires
                reserve > 0,
                shares < supply,
        ;
    }
}

/// Depositing and then at once redeeming the shares that deposit minted gives back no more of
/// either asset than the deposit kept, which is no more than was paid; the first deposit into
/// an empty pair gives back exactly what was paid.
pub proof fn lemma_liquidity_round_trip(p: Pair, token_amount: int, base_amount: int)
    requires
        p.wf(),
        token_amount > 0,
        base_amount > 0,
        deposit_ok(p, token_amount, base_amount),
    ensures
        ({
            let (token_added, base_added, minted) = deposit_spec(p, token_amount, base_amount);
            let (token_back, base_back) = withdraw_spec(deposited(p, token_amount, base_amount), minted);
            &&& token_back <= token_added <= token_amount
            &&& base_back <= base_added <= base_amount
            &&& p.lp_supply == 0 ==> token_back == token_amount && base_back == base_amount
        }),
{
    lemma_deposit_bounds(p, token_amount, base_amount);
    let (token_added, base_added, minted) = deposit_spec(p, token_amount, base_amount);
    let t = p.liquidity_token as int;
    let b = p.liquidity_base as int;
    let s = p.lp_supply as int;
    if s == 0 {
        lemma_share_of_reserve(token_amount, base_amount, base_amount);
        lemma_share_of_reserve(base_amount, base_amount, base_amount);
    } else {
        lemma_minted_share(t, s, token_added, minted, token_added * s / t);
        lemma_minted_share(b, s, base_added, minted, base_added * s / b);
    }
}

/// Redeeming `minted <= added * supply / reserve` shares right after they were minted for
/// `added` gives back at most `added`.
proof fn lemma_minted_share(reserve: int, supply: int, added: int, minted: int, bound: int)
    requires
        reserve > 0,
        supply > 0,
        added >= 0,
        0 <= minted <= bound,
        bound == added * supply / reserve,
    ensures
        (reserve + added) * minted / (supply + minted) <= added,
{
    assert(added * supply >= 0) by (nonlinear_arith)
        requires
            added >= 0,
            supply > 0,
    ;
    lemma_div_bounds(added * supply, reserve);
    assert((reserve + added) * minted <= added * (supply + minted) && (reserve + added) * minted >= 0) by (nonlinear_arith)
        requires
            bound * reserve <= added * supply,
            minted <= bound,
            0 <= minted,
            reserve > 0,
            added >= 0,
    ;
    lemma_div_le_cross((reserve + added) * minted, supply + minted, added, 1);
}

} // verus!

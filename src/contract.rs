use vstd::prelude::*;
use crate::config::{has_lp_token, has_pair, Address, ConfigModule, Pair, PairState, State, TokenId};
use crate::errors::DexError;
use crate::helpers::{valid_fees, Amount, MAX_PERCENT};

verus! {

/// A pair creation waiting for its share asset to be issued. No pair exists for it yet.
#[derive(PartialEq, Eq, Structural, Clone, Copy, Debug)]
pub struct PendingPair {
    pub caller: Address,
    pub base_token: TokenId,
    pub token: TokenId,
    pub decimals: u8,
    pub lp_fee: u64,
    pub owner_fee: u64,
    pub issue_cost: Amount,
}

/// How a pair creation ended once the issuance answered.
#[derive(PartialEq, Eq, Structural, Clone, Copy, Debug)]
pub enum CreationOutcome {
    /// The pair was recorded under this id.
    Created { id: usize },
    /// No pair was recorded; the issue cost goes back to the creator.
    Refunded { to: Address, amount: Amount },
}

/// Why a creation request is refused, if it is.
pub open spec fn create_pair_error(c: ConfigModule, caller_whitelisted: bool, base_token: TokenId, token: TokenId, lp_fee: u64, owner_fee: u64) -> Option<DexError> {
    if !caller_whitelisted {
        Some(DexError::NotWhitelisted)
    } else if c.state != State::Active {
        Some(DexError::NotActive)
    } else if !c.base_tokens@.contains(base_token) || base_token == token {
        Some(DexError::WrongBaseToken)
    } else if has_pair(c.pairs@, token, base_token) {
        Some(DexError::DuplicatePair)
    } else if !valid_fees(lp_fee as int, owner_fee as int) {
        Some(DexError::InvalidFee)
    } else {
        None
    }
}

/// The issued share asset can complete `pending`: the pair is still new, its assets distinct,
/// its fees valid, and the share asset not used by another pair.
pub open spec fn can_complete(c: ConfigModule, pending: PendingPair, lp_token: TokenId) -> bool {
    &&& pending.token != pending.base_token
    &&& valid_fees(pending.lp_fee as int, pending.owner_fee as int)
    &&& !has_pair(c.pairs@, pending.token, pending.base_token)
    &&& !has_lp_token(c.pairs@, lp_token)
}

/// The new pair that completes `pending` with share asset `lp_token` under id `id`.
pub open spec fn new_pair(pending: PendingPair, lp_token: TokenId, id: usize) -> Pair {
    Pair {
        id,
        owner: pending.caller,
        state: PairState::ActiveNoSwap,
        token: pending.token,
        base_token: pending.base_token,
        lp_token,
        decimals: pending.decimals,
        lp_supply: 0,
        lp_fee: pending.lp_fee,
        owner_fee: pending.owner_fee,
        liquidity_token: 0,
        liquidity_base: 0,
    }
}

/// Why the owner of pair `id` cannot act on it now, if anything stops them.
pub open spec fn pair_owner_error(c: ConfigModule, caller: Address, id: usize) -> Option<DexError> {
    if c.state != State::Active {
        Some(DexError::NotActive)
    } else if id >= c.pairs.len() {
        Some(DexError::NotFound)
    } else if c.pairs@[id as int].owner != caller {
        Some(DexError::NotOwner)
    } else {
        None
    }
}

/// Some pair has `token` as its base asset.
pub open spec fn base_in_use(pairs: Seq<Pair>, token: TokenId) -> bool {
    exists|i: int| 0 <= i < pairs.len() && #[trigger] pairs[i].base_token == token
}

/// Whether some pair of `config` has `token` as its base asset.
fn pairs_use_base(config: &ConfigModule, token: TokenId) -> (r: bool)
    ensures
        r == base_in_use(config.pairs@, token),
{
    let mut j: usize = 0;
    while j < config.pairs.len()
        invariant
            j <= config.pairs.len(),
            forall|k: int| 0 <= k < j ==> (#[trigger] config.pairs@[k]).base_token != token,
        decreases config.pairs.len() - j,
    {
        if config.pairs[j].base_token == token {
            proof {
                assert(config.pairs@[j as int].base_token == token);
            }
            return true;
        }
        j += 1;
    }
    false
}

/// The exchange: a registry of pairs with their lifecycle.
pub struct TFNTestDEXContract {
    pub config: ConfigModule,
}

impl TFNTestDEXContract {
    /// The registry is well formed.
    pub open spec fn wf(&self) -> bool {
        self.config.wf()
    }

    /// A new exchange owned by `owner`, answering to the platform `platform_sc`, whose
    /// governance asset is the first base asset; it starts active.
    pub fn init(owner: Address, platform_sc: Address, governance_token: TokenId) -> (r: Self)
        ensures
            r.wf(),
            r.config.owner == owner,
            r.config.state == State::Active,
            r.config.platform_sc == Some(platform_sc),
            r.config.base_tokens@ == seq![governance_token],
            r.config.pairs@.len() == 0,
    {
        let mut base_tokens: Vec<TokenId> = Vec::new();
        base_tokens.push(governance_token);
        let config = ConfigModule { owner, state: State::Active, platform_sc: Some(platform_sc), base_tokens, pairs: Vec::new() };
        TFNTestDEXContract { config }
    }

    /// Checks a request to create a pair of `token` against the base asset `base_token`, and
    /// returns what the issuance of its share asset must carry to complete it. Nothing is
    /// recorded before `lp_token_issue_callback`.
    pub fn create_pair(
        &self,
        caller: Address,
        caller_whitelisted: bool,
        base_token: TokenId,
        token: TokenId,
        decimals: u8,
        lp_fee: u64,
        owner_fee: u64,
        issue_cost: Amount,
    ) -> (r: Result<PendingPair, DexError>)
        requires
            self.wf(),
        ensures
            match create_pair_error(self.config, caller_whitelisted, base_token, token, lp_fee, owner_fee) {
                Some(e) => r == Err::<PendingPair, DexError>(e),
                None => r == Ok::<PendingPair, DexError>(
                    PendingPair { caller, base_token, token, decimals, lp_fee, owner_fee, issue_cost },
                ),
            },
    {
        if !caller_whitelisted {
            return Err(DexError::NotWhitelisted);
        }
        if self.config.state != State::Active {
            return Err(DexError::NotActive);
        }
        if !self.config.is_base_token(base_token) || base_token == token {
            return Err(DexError::WrongBaseToken);
        }
        if self.config.find_pair_index(token, base_token).is_some() {
            return Err(DexError::DuplicatePair);
        }
        if !(lp_fee < MAX_PERCENT && owner_fee < MAX_PERCENT - lp_fee) {
            return Err(DexError::InvalidFee);
        }
        Ok(PendingPair { caller, base_token, token, decimals, lp_fee, owner_fee, issue_cost })
    }

    /// Completes a pair creation once the issuance answered: with the issued share asset the
    /// pair is recorded under the next id, ready for liquidity; on a failed issuance, or where
    /// the pair can no longer be recorded, the issue cost goes back to the creator.
    pub fn lp_token_issue_callback(&mut self, pending: PendingPair, result: Option<TokenId>) -> (r: CreationOutcome)
        requires
            old(self).wf(),
        ensures
            final(self).wf(),
            match result {
                Some(lp_token) => if can_complete(old(self).config, pending, lp_token) {
                    &&& r == (CreationOutcome::Created { id: old(self).config.pairs.len() })
                    &&& final(self).config.pairs@ == old(self).config.pairs@.push(new_pair(pending, lp_token, old(self).config.pairs.len()))
                    &&& old(self).config.same_but_pairs(&final(self).config)
                } else {
                    r == (CreationOutcome::Refunded { to: pending.caller, amount: pending.issue_cost }) && *final(self) == *old(self)
                },
                None => r == (CreationOutcome::Refunded { to: pending.caller, amount: pending.issue_cost }) && *final(self) == *old(self),
            },
    {
        let refund = CreationOutcome::Refunded { to: pending.caller, amount: pending.issue_cost };
        let lp_token = match result {
            Some(t) => t,
            None => return refund,
        };
        if pending.token == pending.base_token || !(pending.lp_fee < MAX_PERCENT && pending.owner_fee < MAX_PERCENT - pending.lp_fee) {
            return refund;
        }
        if self.config.find_pair_index(pending.token, pending.base_token).is_some() || self.config.find_lp_index(lp_token).is_some() {
            return refund;
        }
        let id = self.config.pairs.len();
        let pair = Pair {
            id,
            owner: pending.caller,
            state: PairState::ActiveNoSwap,
            token: pending.token,
            base_token: pending.base_token,
            lp_token,
            decimals: pending.decimals,
            lp_supply: 0,
            lp_fee: pending.lp_fee,
            owner_fee: pending.owner_fee,
            liquidity_token: 0,
            liquidity_base: 0,
        };
        self.config.pairs.push(pair);
        proof {
            let n = old(self).config.pairs@.len();
            assert forall|i: int| 0 <= i < n implies !crate::config::pair_matches(
                #[trigger] self.config.pairs@[i],
                pair.token,
                pair.base_token,
            ) by {
                assert(self.config.pairs@[i] == old(self).config.pairs@[i]);
            }
            assert forall|i: int| 0 <= i < n implies (#[trigger] self.config.pairs@[i]).lp_token != lp_token by {
                assert(self.config.pairs@[i] == old(self).config.pairs@[i]);
            }
        }
        CreationOutcome::Created { id }
    }

    /// Sets the state of pair `id` for its owner, where `pair_owner_error` finds nothing.
    fn set_pair_state(&mut self, id: usize, state: PairState)
        requires
            old(self).wf(),
            id < old(self).config.pairs.len(),
            state == PairState::Active ==> old(self).config.pairs@[id as int].lp_supply > 0,
        ensures
            final(self).wf(),
            final(self).config.pairs@ == old(self).config.pairs_with(Pair { state, ..old(self).config.pairs@[id as int] }),
            old(self).config.same_but_pairs(&final(self).config),
    {
        let updated = Pair { state, ..self.config.pairs[id] };
        self.config.pairs.set(id, updated);
        proof {
            assert(self.config.pairs@ =~= old(self).config.pairs_with(updated));
        }
    }

    /// Opens pair `id` to swaps; only its owner may, and only while it holds liquidity.
    pub fn set_pair_active(&mut self, caller: Address, id: usize) -> (r: Result<(), DexError>)
        requires
            old(self).wf(),
        ensures
            final(self).wf(),
            match pair_owner_error(old(self).config, caller, id) {
                Some(e) => r == Err::<(), DexError>(e) && *final(self) == *old(self),
                None => if old(self).config.pairs@[id as int].lp_supply == 0 {
                    r == Err::<(), DexError>(DexError::InsufficientLiquidity) && *final(self) == *old(self)
                } else {
                    &&& r is Ok
                    &&& final(self).config.pairs@ == old(self).config.pairs_with(
                        Pair { state: PairState::Active, ..old(self).config.pairs@[id as int] },
                    )
                    &&& old(self).config.same_but_pairs(&final(self).config)
                },
            },
    {
        self.check_pair_owner(caller, id)?;
        if self.config.pairs[id].lp_supply == 0 {
            return Err(DexError::InsufficientLiquidity);
        }
        self.set_pair_state(id, PairState::Active);
        Ok(())
    }

    /// Closes pair `id` to swaps but not to liquidity; only its owner may, and only while it
    /// holds liquidity.
    pub fn set_pair_active_no_swap(&mut self, caller: Address, id: usize) -> (r: Result<(), DexError>)
        requires
            old(self).wf(),
        ensures
            final(self).wf(),
            match pair_owner_error(old(self).config, caller, id) {
                Some(e) => r == Err::<(), DexError>(e) && *final(self) == *old(self),
                None => if old(self).config.pairs@[id as int].lp_supply == 0 {
                    r == Err::<(), DexError>(DexError::InsufficientLiquidity) && *final(self) == *old(self)
                } else {
                    &&& r is Ok
                    &&& final(self).config.pairs@ == old(self).config.pairs_with(
                        Pair { state: PairState::ActiveNoSwap, ..old(self).config.pairs@[id as int] },
                    )
                    &&& old(self).config.same_but_pairs(&final(self).config)
                },
            },
    {
        self.check_pair_owner(caller, id)?;
        if self.config.pairs[id].lp_supply == 0 {
            return Err(DexError::InsufficientLiquidity);
        }
        self.set_pair_state(id, PairState::ActiveNoSwap);
        Ok(())
    }

    /// Closes pair `id` to swaps and liquidity; only its owner may.
    pub fn set_pair_inactive(&mut self, caller: Address, id: usize) -> (r: Result<(), DexError>)
        requires
            old(self).wf(),
        ensures
            final(self).wf(),
            match pair_owner_error(old(self).config, caller, id) {
                Some(e) => r == Err::<(), DexError>(e) && *final(self) == *old(self),
                None => {
                    &&& r is Ok
                    &&& final(self).config.pairs@ == old(self).config.pairs_with(
                        Pair { state: PairState::Inactive, ..old(self).config.pairs@[id as int] },
                    )
                    &&& old(self).config.same_but_pairs(&final(self).config)
                },
            },
    {
        self.check_pair_owner(caller, id)?;
        self.set_pair_state(id, PairState::Inactive);
        Ok(())
    }

    /// Sets the fee rates of pair `id`; only its owner may, and the two must stay below
    /// `MAX_PERCENT` together.
    pub fn change_pair_fees(&mut self, caller: Address, id: usize, new_lp_fee: u64, new_owner_fee: u64) -> (r: Result<(), DexError>)
        requires
            old(self).wf(),
        ensures
            final(self).wf(),
            match pair_owner_error(old(self).config, caller, id) {
                Some(e) => r == Err::<(), DexError>(e) && *final(self) == *old(self),
                None => if !valid_fees(new_lp_fee as int, new_owner_fee as int) {
                    r == Err::<(), DexError>(DexError::InvalidFee) && *final(self) == *old(self)
                } else {
                    &&& r is Ok
                    &&& final(self).config.pairs@ == old(self).config.pairs_with(
                        Pair { lp_fee: new_lp_fee, owner_fee: new_owner_fee, ..old(self).config.pairs@[id as int] },
                    )
                    &&& old(self).config.same_but_pairs(&final(self).config)
                },
            },
    {
        self.check_pair_owner(caller, id)?;
        if !(new_lp_fee < MAX_PERCENT && new_owner_fee < MAX_PERCENT - new_lp_fee) {
            return Err(DexError::InvalidFee);
        }
        let updated = Pair { lp_fee: new_lp_fee, owner_fee: new_owner_fee, ..self.config.pairs[id] };
        self.config.pairs.set(id, updated);
        proof {
            assert(self.config.pairs@ =~= old(self).config.pairs_with(updated));
        }
        Ok(())
    }

    /// Refuses the call unless the registry is active and `caller` owns pair `id`.
    fn check_pair_owner(&self, caller: Address, id: usize) -> (r: Result<(), DexError>)
        ensures
            match pair_owner_error(self.config, caller, id) {
                Some(e) => r == Err::<(), DexError>(e),
                None => r is Ok,
            },
    {
        if self.config.state != State::Active {
            return Err(DexError::NotActive);
        }
        if id >= self.config.pairs.len() {
            return Err(DexError::NotFound);
        }
        if self.config.pairs[id].owner != caller {
            return Err(DexError::NotOwner);
        }
        Ok(())
    }

    /// Makes `token` a base asset, at the request of a whitelisted caller.
    pub fn add_base_token(&mut self, caller_whitelisted: bool, token: TokenId) -> (r: Result<(), DexError>)
        requires
            old(self).wf(),
        ensures
            final(self).wf(),
            old(self).config.state != State::Active ==> r == Err::<(), DexError>(DexError::NotActive),
            old(self).config.state == State::Active && old(self).config.base_tokens@.contains(token)
                ==> r == Err::<(), DexError>(DexError::BaseTokenExists),
            old(self).config.state == State::Active && !old(self).config.base_tokens@.contains(token) && !caller_whitelisted
                ==> r == Err::<(), DexError>(DexError::NotWhitelisted),
            r is Ok <==> old(self).config.state == State::Active && !old(self).config.base_tokens@.contains(token) && caller_whitelisted,
            r is Ok ==> final(self).config.base_tokens@ == old(self).config.base_tokens@.push(token),
            r is Ok ==> final(self).config.pairs@ == old(self).config.pairs@,
            r is Ok ==> final(self).config.state == old(self).config.state && final(self).config.owner == old(self).config.owner
                && final(self).config.platform_sc == old(self).config.platform_sc,
            r is Err ==> *final(self) == *old(self),
    {
        if self.config.state != State::Active {
            return Err(DexError::NotActive);
        }
        if self.config.is_base_token(token) {
            return Err(DexError::BaseTokenExists);
        }
        if !caller_whitelisted {
            return Err(DexError::NotWhitelisted);
        }
        self.config.insert_base_token(token);
        Ok(())
    }

    /// Removes `token` from the base assets, at the request of a whitelisted caller, unless a
    /// pair still has it as its base asset.
    pub fn remove_base_token(&mut self, caller_whitelisted: bool, token: TokenId) -> (r: Result<(), DexError>)
        requires
            old(self).wf(),
        ensures
            final(self).wf(),
            old(self).config.state != State::Active ==> r == Err::<(), DexError>(DexError::NotActive),
            old(self).config.state == State::Active && !old(self).config.base_tokens@.contains(token)
                ==> r == Err::<(), DexError>(DexError::WrongBaseToken),
            old(self).config.state == State::Active && old(self).config.base_tokens@.contains(token) && !caller_whitelisted
                ==> r == Err::<(), DexError>(DexError::NotWhitelisted),
            old(self).config.state == State::Active && old(self).config.base_tokens@.contains(token) && caller_whitelisted
                && base_in_use(old(self).config.pairs@, token) ==> r == Err::<(), DexError>(DexError::AssetInUse),
            r is Ok <==> old(self).config.state == State::Active && old(self).config.base_tokens@.contains(token) && caller_whitelisted
                && !base_in_use(old(self).config.pairs@, token),
            r is Ok ==> forall|t: TokenId| #[trigger] final(self).config.base_tokens@.contains(t) <==> old(self).config.base_tokens@.contains(t) && t != token,
            r is Ok ==> final(self).config.pairs@ == old(self).config.pairs@,
            r is Ok ==> final(self).config.state == old(self).config.state && final(self).config.owner == old(self).config.owner
                && final(self).config.platform_sc == old(self).config.platform_sc,
            r is Err ==> *final(self) == *old(self),
    {
        if self.config.state != State::Active {
            return Err(DexError::NotActive);
        }
        let k = match self.config.base_token_index(token) {
            Some(k) => k,
            None => return Err(DexError::WrongBaseToken),
        };
        if !caller_whitelisted {
            return Err(DexError::NotWhitelisted);
        }
        if pairs_use_base(&self.config, token) {
            return Err(DexError::AssetInUse);
        }
        let ghost before = self.config.base_tokens@;
        self.config.base_tokens.remove(k);
        proof {
            let after = self.config.base_tokens@;
            assert(after == before.remove(k as int));
            assert forall|t: TokenId| #[trigger] after.contains(t) <==> before.contains(t) && t != token by {
                if before.contains(t) && t != token {
                    let m = choose|m: int| 0 <= m < before.len() && before[m] == t;
                    if m < k {
                        assert(after[m] == t);
                    } else {
                        assert(m != k as int);
                        assert(after[m - 1] == t);
                    }
                }
                if after.contains(t) {
                    let m = choose|m: int| 0 <= m < after.len() && after[m] == t;
                    if m < k {
                        assert(before[m] == t);
                    } else {
                        assert(before[m + 1] == t);
                    }
                }
            }
            assert(after.no_duplicates()) by {
                assert forall|a: int, b: int| 0 <= a < after.len() && 0 <= b < after.len() && a != b implies after[a] != after[b] by {
                    let a2 = if a < k { a } else { a + 1 };
                    let b2 = if b < k { b } else { b + 1 };
                    assert(after[a] == before[a2]);
                    assert(after[b] == before[b2]);
                }
            }
        }
        Ok(())
    }
}

} // verus!

use vstd::prelude::*;
use crate::errors::DexError;
use crate::helpers::{valid_fees, Amount};

verus! {

/// Identifier of an asset.
pub type TokenId = u64;

/// Identifier of an account.
pub type Address = u64;

/// State of the whole registry.
#[derive(PartialEq, Eq, Structural, Clone, Copy, Debug)]
pub enum State {
    Inactive,
    Active,
}

/// Lifecycle state of one pair.
#[derive(PartialEq, Eq, Structural, Clone, Copy, Debug)]
pub enum PairState {
    Inactive,
    ActiveNoSwap,
    Active,
}

/// A market of two assets with its reserves, share supply and fee rates.
#[derive(PartialEq, Eq, Structural, Clone, Copy, Debug)]
pub struct Pair {
    pub id: usize,
    pub owner: Address,
    pub state: PairState,
    pub token: TokenId,
    pub base_token: TokenId,
    pub lp_token: TokenId,
    pub decimals: u8,
    pub lp_supply: Amount,
    pub lp_fee: u64,
    pub owner_fee: u64,
    pub liquidity_token: Amount,
    pub liquidity_base: Amount,
}

impl Pair {
    /// Fee rates below `MAX_PERCENT`, two distinct assets, reserves that are both empty exactly
    /// when no share is out, and swaps only with shares out.
    pub open spec fn wf(&self) -> bool {
        &&& valid_fees(self.lp_fee as int, self.owner_fee as int)
        &&& self.token != self.base_token
        &&& self.lp_supply == 0 ==> self.liquidity_token == 0 && self.liquidity_base == 0
        &&& self.lp_supply > 0 ==> self.liquidity_token > 0 && self.liquidity_base > 0
        &&& self.state == PairState::Active ==> self.lp_supply > 0
    }
}

/// An amount of one asset attached to a call.
#[derive(PartialEq, Eq, Structural, Clone, Copy, Debug)]
pub struct Payment {
    pub token: TokenId,
    pub amount: Amount,
}

/// The pair trades `token1` against `token2`, in either order.
pub open spec fn pair_matches(p: Pair, token1: TokenId, token2: TokenId) -> bool {
    (p.base_token == token1 && p.token == token2) || (p.token == token1 && p.base_token == token2)
}

/// Some pair trades `token1` against `token2`.
pub open spec fn has_pair(pairs: Seq<Pair>, token1: TokenId, token2: TokenId) -> bool {
    exists|i: int| 0 <= i < pairs.len() && #[trigger] pair_matches(pairs[i], token1, token2)
}

/// Index of the pair that trades `token1` against `token2`, where `has_pair` holds.
pub open spec fn pair_index(pairs: Seq<Pair>, token1: TokenId, token2: TokenId) -> int {
    choose|i: int| 0 <= i < pairs.len() && #[trigger] pair_matches(pairs[i], token1, token2)
}

/// Some pair has `lp_token` as its share asset.
pub open spec fn has_lp_token(pairs: Seq<Pair>, lp_token: TokenId) -> bool {
    exists|i: int| 0 <= i < pairs.len() && #[trigger] pairs[i].lp_token == lp_token
}

/// Index of the pair whose share asset is `lp_token`, where `has_lp_token` holds.
pub open spec fn lp_index(pairs: Seq<Pair>, lp_token: TokenId) -> int {
    choose|i: int| 0 <= i < pairs.len() && #[trigger] pairs[i].lp_token == lp_token
}

/// The pair that trades `token1` against `token2`, if any.
pub open spec fn find_pair(pairs: Seq<Pair>, token1: TokenId, token2: TokenId) -> Option<Pair> {
    if has_pair(pairs, token1, token2) {
        Some(pairs[pair_index(pairs, token1, token2)])
    } else {
        None
    }
}

/// The registry: its state, its owner, the platform it answers to, the base assets and the pairs.
/// A pair's id is its index, and ids are never reused.
pub struct ConfigModule {
    pub owner: Address,
    pub state: State,
    pub platform_sc: Option<Address>,
    pub base_tokens: Vec<TokenId>,
    pub pairs: Vec<Pair>,
}

impl ConfigModule {
    /// Every pair well formed and at its own index, at most one pair per two assets and per
    /// share asset, and no base asset listed twice.
    pub open spec fn wf(&self) -> bool {
        &&& forall|i: int| 0 <= i < self.pairs.len() ==> (#[trigger] self.pairs[i]).wf() && self.pairs[i].id == i
        &&& forall|i: int, j: int|
            0 <= i < self.pairs.len() && 0 <= j < self.pairs.len() && i != j
                ==> !pair_matches(#[trigger] self.pairs[i], #[trigger] self.pairs[j].token, self.pairs[j].base_token)
        &&& forall|i: int, j: int|
            0 <= i < self.pairs.len() && 0 <= j < self.pairs.len() && i != j
                ==> (#[trigger] self.pairs[i]).lp_token != (#[trigger] self.pairs[j]).lp_token
        &&& self.base_tokens@.no_duplicates()
    }

    /// `other` differs from this registry at most in its pairs.
    pub open spec fn same_but_pairs(&self, other: &ConfigModule) -> bool {
        &&& other.owner == self.owner
        &&& other.state == self.state
        &&& other.platform_sc == self.platform_sc
        &&& other.base_tokens@ == self.base_tokens@
    }

    /// This registry with the pair at `p.id` replaced by `p`.
    pub open spec fn pairs_with(&self, p: Pair) -> Seq<Pair> {
        self.pairs@.update(p.id as int, p)
    }

    /// An empty registry, inactive, owned by `owner`.
    pub fn new(owner: Address) -> (r: Self)
        ensures
            r.wf(),
            r.owner == owner,
            r.state == State::Inactive,
            r.platform_sc is None,
            r.base_tokens@.len() == 0,
            r.pairs@.len() == 0,
    {
        ConfigModule { owner, state: State::Inactive, platform_sc: None, base_tokens: Vec::new(), pairs: Vec::new() }
    }

    /// The registry's state.
    pub fn get_state(&self) -> (r: State)
        ensures
            r == self.state,
    {
        self.state
    }

    /// The id the next pair will get.
    pub fn last_pair_id(&self) -> (r: usize)
        ensures
            r == self.pairs.len(),
    {
        self.pairs.len()
    }

    /// Position of `token` among the base assets.
    pub fn base_token_index(&self, token: TokenId) -> (r: Option<usize>)
        ensures
            r is Some <==> self.base_tokens@.contains(token),
            r matches Some(k) ==> k < self.base_tokens.len() && self.base_tokens@[k as int] == token,
    {
        let mut i: usize = 0;
        while i < self.base_tokens.len()
            invariant
                i <= self.base_tokens.len(),
                forall|j: int| 0 <= j < i ==> self.base_tokens@[j] != token,
            decreases self.base_tokens.len() - i,
        {
            if self.base_tokens[i] == token {
                return Some(i);
            }
            i += 1;
        }
        None
    }

    /// Whether `token` is a base asset.
    pub fn is_base_token(&self, token: TokenId) -> (r: bool)
        ensures
            r == self.base_tokens@.contains(token),
    {
        self.base_token_index(token).is_some()
    }

    /// Opens the registry; only its owner may, once the platform and a base asset are known.
    pub fn set_state_active(&mut self, caller: Address) -> (r: Result<(), DexError>)
        requires
            old(self).wf(),
        ensures
            final(self).wf(),
            caller != old(self).owner ==> r == Err::<(), DexError>(DexError::NotOwner),
            caller == old(self).owner && old(self).platform_sc is None ==> r == Err::<(), DexError>(DexError::PlatformNotSet),
            caller == old(self).owner && old(self).platform_sc is Some && old(self).base_tokens@.len() == 0
                ==> r == Err::<(), DexError>(DexError::NoBaseTokens),
            r is Ok <==> caller == old(self).owner && old(self).platform_sc is Some && old(self).base_tokens@.len() > 0,
            r is Ok ==> *final(self) == (ConfigModule { state: State::Active, ..*old(self) }),
            r is Err ==> *final(self) == *old(self),
    {
        if caller != self.owner {
            return Err(DexError::NotOwner);
        }
        if self.platform_sc.is_none() {
            return Err(DexError::PlatformNotSet);
        }
        if self.base_tokens.len() == 0 {
            return Err(DexError::NoBaseTokens);
        }
        self.state = State::Active;
        Ok(())
    }

    /// Closes the registry; only its owner may.
    pub fn set_state_inactive(&mut self, caller: Address) -> (r: Result<(), DexError>)
        requires
            old(self).wf(),
        ensures
            final(self).wf(),
            r is Ok <==> caller == old(self).owner,
            r matches Err(e) ==> e == DexError::NotOwner,
            r is Ok ==> *final(self) == (ConfigModule { state: State::Inactive, ..*old(self) }),
            r is Err ==> *final(self) == *old(self),
    {
        if caller != self.owner {
            return Err(DexError::NotOwner);
        }
        self.state = State::Inactive;
        Ok(())
    }

    /// Records the platform once, and makes the governance asset it supplies a base asset.
    pub fn set_platform_address(&mut self, caller: Address, platform_sc: Address, governance_token: TokenId) -> (r: Result<(), DexError>)
        requires
            old(self).wf(),
        ensures
            final(self).wf(),
            caller != old(self).owner ==> r == Err::<(), DexError>(DexError::NotOwner),
            caller == old(self).owner && old(self).platform_sc is Some ==> r == Err::<(), DexError>(DexError::PlatformAlreadySet),
            r is Ok <==> caller == old(self).owner && old(self).platform_sc is None,
            r is Ok ==> final(self).platform_sc == Some(platform_sc),
            r is Ok ==> forall|t: TokenId| #[trigger] final(self).base_tokens@.contains(t) <==> old(self).base_tokens@.contains(t) || t == governance_token,
            r is Ok ==> final(self).pairs@ == old(self).pairs@ && final(self).state == old(self).state && final(self).owner == old(self).owner,
            r is Err ==> *final(self) == *old(self),
    {
        if caller != self.owner {
            return Err(DexError::NotOwner);
        }
        if self.platform_sc.is_some() {
            return Err(DexError::PlatformAlreadySet);
        }
        self.platform_sc = Some(platform_sc);
        self.insert_base_token(governance_token);
        proof {
            assert forall|t: TokenId| #[trigger] self.base_tokens@.contains(t) <==> old(self).base_tokens@.contains(t) || t == governance_token by {
                if t == governance_token && !old(self).base_tokens@.contains(t) {
                    assert(self.base_tokens@[self.base_tokens@.len() - 1] == t);
                }
                if old(self).base_tokens@.contains(t) && !old(self).base_tokens@.contains(governance_token) {
                    let k = choose|k: int| 0 <= k < old(self).base_tokens@.len() && old(self).base_tokens@[k] == t;
                    assert(self.base_tokens@[k] == t);
                }
            }
        }
        Ok(())
    }

    /// Adds `token` to the base assets unless it is there.
    pub(crate) fn insert_base_token(&mut self, token: TokenId)
        requires
            old(self).wf(),
        ensures
            final(self).wf(),
            !old(self).base_tokens@.contains(token) ==> final(self).base_tokens@ == old(self).base_tokens@.push(token),
            old(self).base_tokens@.contains(token) ==> final(self).base_tokens@ == old(self).base_tokens@,
            final(self).pairs@ == old(self).pairs@,
            final(self).state == old(self).state,
            final(self).owner == old(self).owner,
            final(self).platform_sc == old(self).platform_sc,
    {
        if !self.is_base_token(token) {
            self.base_tokens.push(token);
        }
    }

    /// The base assets.
    pub fn get_base_tokens(&self) -> (r: Vec<TokenId>)
        ensures
            r@ == self.base_tokens@,
    {
        let r = self.base_tokens.clone();
        assert(r@ =~= self.base_tokens@);
        r
    }

    /// Every pair, in order of id.
    pub fn get_pairs(&self) -> (r: Vec<Pair>)
        ensures
            r@ == self.pairs@,
    {
        let r = self.pairs.clone();
        assert(r@ =~= self.pairs@);
        r
    }

    /// The pair with id `id`, if there is one.
    pub fn pair(&self, id: usize) -> (r: Option<Pair>)
        ensures
            r == (if id < self.pairs.len() { Some(self.pairs@[id as int]) } else { None::<Pair> }),
    {
        if id < self.pairs.len() {
            Some(self.pairs[id])
        } else {
            None
        }
    }

    /// Index of the pair that trades `token1` against `token2`, in either order.
    pub fn find_pair_index(&self, token1: TokenId, token2: TokenId) -> (r: Option<usize>)
        requires
            self.wf(),
        ensures
            r is Some <==> has_pair(self.pairs@, token1, token2),
            r matches Some(i) ==> i == pair_index(self.pairs@, token1, token2) && i < self.pairs.len(),
    {
        let mut i: usize = 0;
        while i < self.pairs.len()
            invariant
                i <= self.pairs.len(),
                self.wf(),
                forall|j: int| 0 <= j < i ==> !pair_matches(#[trigger] self.pairs@[j], token1, token2),
            decreases self.pairs.len() - i,
        {
            let p = &self.pairs[i];
            if (p.base_token == token1 && p.token == token2) || (p.token == token1 && p.base_token == token2) {
                proof {
                    assert(pair_matches(self.pairs@[i as int], token1, token2));
                    let k = pair_index(self.pairs@, token1, token2);
                    assert(pair_matches(self.pairs@[k], token1, token2));
                    if k != i {
                        assert(pair_matches(self.pairs@[k], self.pairs@[i as int].token, self.pairs@[i as int].base_token));
                    }
                }
                return Some(i);
            }
            i += 1;
        }
        None
    }

    /// The pair that trades `token1` against `token2`, in either order.
    pub fn get_pair_by_tickers(&self, token1: TokenId, token2: TokenId) -> (r: Option<Pair>)
        requires
            self.wf(),
        ensures
            r == find_pair(self.pairs@, token1, token2),
    {
        match self.find_pair_index(token1, token2) {
            Some(i) => Some(self.pairs[i]),
            None => None,
        }
    }

    /// Index of the pair whose share asset is `lp_token`.
    pub fn find_lp_index(&self, lp_token: TokenId) -> (r: Option<usize>)
        requires
            self.wf(),
        ensures
            r is Some <==> has_lp_token(self.pairs@, lp_token),
            r matches Some(i) ==> i == lp_index(self.pairs@, lp_token) && i < self.pairs.len(),
    {
        let mut i: usize = 0;
        while i < self.pairs.len()
            invariant
                i <= self.pairs.len(),
                self.wf(),
                forall|j: int| 0 <= j < i ==> (#[trigger] self.pairs@[j]).lp_token != lp_token,
            decreases self.pairs.len() - i,
        {
            if self.pairs[i].lp_token == lp_token {
                proof {
                    assert(self.pairs@[i as int].lp_token == lp_token);
                    let k = lp_index(self.pairs@, lp_token);
                    assert(self.pairs@[k].lp_token == lp_token);
                }
                return Some(i);
            }
            i += 1;
        }
        None
    }

    /// The pair whose share asset is `lp_token`.
    pub fn get_pair_by_lp_token(&self, lp_token: TokenId) -> (r: Option<Pair>)
        requires
            self.wf(),
        ensures
            r == (if has_lp_token(self.pairs@, lp_token) {
                Some(self.pairs@[lp_index(self.pairs@, lp_token)])
            } else {
                None::<Pair>
            }),
    {
        match self.find_lp_index(lp_token) {
            Some(i) => Some(self.pairs[i]),
            None => None,
        }
    }
}

} // verus!

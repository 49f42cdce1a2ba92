//! The token itself: its state and the operations of the contract, each
//! proved against the model in `model`.

use vstd::prelude::*;
use crate::address::Address;
use crate::ledger::{Ledger, distinct_keys, nonnegative_amounts, entries_map, lemma_entries_at};
use crate::model::{
    TokenError, TokenState, StorageKey, EventRecord, EffectsView, initialize_effects,
    mint_effects, burn_effects, transfer_effects, approve_effects, transfer_from_effects,
    token_name, token_symbol,
};
use crate::sum::{lemma_sum_insert, lemma_sum_bounds, lemma_sum_two};

verus! {

/// The key of a storage entry of the token.
#[derive(Debug, PartialEq, Eq)]
pub enum DataKey {
    Admin,
    Name,
    Symbol,
    Decimals,
    TotalSupply,
    Balance(Address),
    Allowance(Address, Address),
}

impl View for DataKey {
    type V = StorageKey;

    open spec fn view(&self) -> StorageKey {
        match self {
            DataKey::Admin => StorageKey::Admin,
            DataKey::Name => StorageKey::Name,
            DataKey::Symbol => StorageKey::Symbol,
            DataKey::Decimals => StorageKey::Decimals,
            DataKey::TotalSupply => StorageKey::TotalSupply,
            DataKey::Balance(a) => StorageKey::Balance(a@),
            DataKey::Allowance(o, s) => StorageKey::Allowance(o@, s@),
        }
    }
}

/// An event that an operation announces.
#[derive(Debug, PartialEq, Eq)]
pub enum TokenEvent {
    Mint { to: Address, amount: i128 },
    Burn { from: Address, amount: i128 },
    Transfer { from: Address, to: Address, amount: i128 },
    Approve { owner: Address, spender: Address, amount: i128 },
}

impl View for TokenEvent {
    type V = EventRecord;

    open spec fn view(&self) -> EventRecord {
        match self {
            TokenEvent::Mint { to, amount } => EventRecord::Mint { to: to@, amount: *amount as int },
            TokenEvent::Burn { from, amount } => EventRecord::Burn { from: from@, amount: *amount as int },
            TokenEvent::Transfer { from, to, amount } => EventRecord::Transfer {
                from: from@,
                to: to@,
                amount: *amount as int,
            },
            TokenEvent::Approve { owner, spender, amount } => EventRecord::Approve {
                owner: owner@,
                spender: spender@,
                amount: *amount as int,
            },
        }
    }
}

/// The first topic of every event of the token.
pub open spec fn event_namespace() -> Seq<char> {
    "nova_tok"@
}

/// The second topic of an event: the name of the action.
pub open spec fn event_action(e: EventRecord) -> Seq<char> {
    match e {
        EventRecord::Mint { .. } => "mint"@,
        EventRecord::Burn { .. } => "burn"@,
        EventRecord::Transfer { .. } => "transfer"@,
        EventRecord::Approve { .. } => "approve"@,
    }
}

impl TokenEvent {
    /// The first topic of every event of the token.
    pub fn namespace() -> (s: &'static str)
        ensures
            s@ == event_namespace(),
    {
        "nova_tok"
    }

    /// The second topic of this event: the name of the action.
    pub fn action(&self) -> (s: &'static str)
        ensures
            s@ == event_action(self@),
    {
        match self {
            TokenEvent::Mint { .. } => "mint",
            TokenEvent::Burn { .. } => "burn",
            TokenEvent::Transfer { .. } => "transfer",
            TokenEvent::Approve { .. } => "approve",
        }
    }
}

/// What a successful operation did besides changing the state.
#[derive(Debug, PartialEq, Eq)]
pub struct Effects {
    /// The event it announced, if any.
    pub event: Option<TokenEvent>,
    /// The storage entries it wrote, in order.
    pub writes: Vec<DataKey>,
}

impl View for Effects {
    type V = EffectsView;

    open spec fn view(&self) -> EffectsView {
        EffectsView {
            event: match self.event {
                Some(e) => Some(e@),
                None => None,
            },
            writes: self.writes@.map_values(|k: DataKey| k@),
        }
    }
}

/// The addresses that authorized the current invocation.
pub open spec fn signers(authorized: Seq<Address>) -> Seq<Seq<u8>> {
    authorized.map_values(|a: Address| a@)
}

/// Whether `a` is among the addresses that authorized the invocation.
fn signed_by(authorized: &[Address], a: &Address) -> (r: bool)
    ensures
        r == signers(authorized@).contains(a@),
{
    let n = authorized.len();
    let mut i: usize = 0;
    while i < n
        invariant
            n == authorized@.len(),
            i <= n,
            forall|j: int| 0 <= j < i ==> authorized@[j]@ != a@,
        decreases n - i,
    {
        if authorized[i].same_as(a) {
            assert(signers(authorized@)[i as int] == a@);
            return true;
        }
        i = i + 1;
    }
    assert forall|j: int| 0 <= j < signers(authorized@).len() implies signers(authorized@)[j] != a@ by {
        assert(signers(authorized@)[j] == authorized@[j]@);
    }
    false
}

/// The state the token's storage holds, given as entries.
pub open spec fn stored_state(
    admin: Option<Address>,
    name: Seq<u8>,
    symbol: Seq<u8>,
    decimals: u32,
    total_supply: i128,
    balances: Seq<(Address, i128)>,
    allowances: Seq<((Address, Address), i128)>,
) -> TokenState {
    TokenState {
        admin: match admin {
            Some(a) => Some(a@),
            None => None,
        },
        name,
        symbol,
        decimals,
        total_supply: total_supply as int,
        balances: entries_map(balances),
        allowances: entries_map(allowances),
    }
}

/// A fungible token: an administrator who may mint, metadata, balances,
/// allowances and the total supply.
pub struct NovaToken {
    admin: Option<Address>,
    name: Vec<u8>,
    symbol: Vec<u8>,
    decimals: u32,
    total_supply: i128,
    balances: Ledger<Address>,
    allowances: Ledger<(Address, Address)>,
}

impl View for NovaToken {
    type V = TokenState;

    closed spec fn view(&self) -> TokenState {
        TokenState {
            admin: match self.admin {
                Some(a) => Some(a@),
                None => None,
            },
            name: self.name@,
            symbol: self.symbol@,
            decimals: self.decimals,
            total_supply: self.total_supply as int,
            balances: self.balances@,
            allowances: self.allowances@,
        }
    }
}

impl NovaToken {
    /// The representation is sound and its state is consistent.
    pub closed spec fn wf(&self) -> bool {
        &&& self.balances.wf()
        &&& self.allowances.wf()
        &&& self@.valid()
    }

    /// A well-formed token's state is consistent: no negative balance or
    /// allowance, and the balances within the total supply.
    pub proof fn lemma_wf_valid(&self)
        requires
            self.wf(),
        ensures
            self@.valid(),
    {
    }

    /// A token with nothing stored yet.
    pub fn new() -> (t: NovaToken)
        ensures
            t.wf(),
            t@ == TokenState::empty(),
    {
        let t = NovaToken {
            admin: None,
            name: Vec::new(),
            symbol: Vec::new(),
            decimals: 0,
            total_supply: 0,
            balances: Ledger::new(),
            allowances: Ledger::new(),
        };
        proof {
            t.balances.lemma_wf();
            t.allowances.lemma_wf();
            assert(t@ =~= TokenState::empty());
        }
        t
    }

    /// The token whose storage holds the given entries, if they are
    /// consistent: no key twice, no negative amount, and a state that
    /// `valid` accepts.
    pub fn from_storage(
        admin: Option<Address>,
        name: Vec<u8>,
        symbol: Vec<u8>,
        decimals: u32,
        total_supply: i128,
        balances: Vec<(Address, i128)>,
        allowances: Vec<((Address, Address), i128)>,
    ) -> (r: Option<NovaToken>)
        ensures
            r is Some <==> {
                &&& distinct_keys(balances@)
                &&& nonnegative_amounts(balances@)
                &&& distinct_keys(allowances@)
                &&& nonnegative_amounts(allowances@)
                &&& stored_state(admin, name@, symbol@, decimals, total_supply, balances@, allowances@).valid()
            },
            r matches Some(t) ==> t.wf() && t@ == stored_state(
                admin,
                name@,
                symbol@,
                decimals,
                total_supply,
                balances@,
                allowances@,
            ),
            r matches Some(t) ==> {
                &&& t@.admin == (match admin {
                    Some(a) => Some(a@),
                    None => None,
                })
                &&& t@.name == name@
                &&& t@.symbol == symbol@
                &&& t@.decimals == decimals
                &&& t@.total_supply == total_supply
                &&& t@.balances == entries_map(balances@)
                &&& t@.allowances == entries_map(allowances@)
            },
            r matches Some(t) ==> forall|i: int|
                0 <= i < balances@.len() ==> #[trigger] t@.balance_of(balances@[i].0@) == balances@[i].1,
            r matches Some(t) ==> forall|i: int|
                0 <= i < allowances@.len() ==> #[trigger] t@.allowance_of(allowances@[i].0.0@, allowances@[i].0.1@)
                    == allowances@[i].1,
    {
        let ghost state = stored_state(admin, name@, symbol@, decimals, total_supply, balances@, allowances@);
        let ghost bal_entries = balances@;
        let ghost alw_entries = allowances@;
        let bal = match Ledger::from_entries(balances) {
            Some(l) => l,
            None => return None,
        };
        let alw = match Ledger::from_entries(allowances) {
            Some(l) => l,
            None => return None,
        };
        proof {
            bal.lemma_wf();
            alw.lemma_wf();
        }
        let sum = match bal.total() {
            Some(s) => s,
            None => return None,
        };
        if sum > total_supply {
            return None;
        }
        if admin.is_none() && total_supply != 0 {
            return None;
        }
        let t = NovaToken {
            admin,
            name,
            symbol,
            decimals,
            total_supply,
            balances: bal,
            allowances: alw,
        };
        assert(t@ =~= state);
        proof {
            assert forall|i: int| 0 <= i < bal_entries.len() implies #[trigger] t@.balance_of(bal_entries[i].0@)
                == bal_entries[i].1 by {
                lemma_entries_at(bal_entries, i);
            }
            assert forall|i: int| 0 <= i < alw_entries.len() implies #[trigger] t@.allowance_of(
                alw_entries[i].0.0@,
                alw_entries[i].0.1@,
            ) == alw_entries[i].1 by {
                lemma_entries_at(alw_entries, i);
            }
        }
        Some(t)
    }

    /// The administrator, once `initialize` has named one.
    pub fn admin(&self) -> (r: Option<&Address>)
        ensures
            match r {
                Some(a) => self@.admin == Some(a@),
                None => self@.admin is None,
            },
    {
        match &self.admin {
            Some(a) => Some(a),
            None => None,
        }
    }

    fn total_supply_raw(&self) -> (r: i128)
        ensures
            r == self@.total_supply,
    {
        self.total_supply
    }

    fn allowance_raw(&self, owner: &Address, spender: &Address) -> (r: i128)
        requires
            self.wf(),
        ensures
            r == self@.allowance_of(owner@, spender@),
    {
        let key = (owner.clone(), spender.clone());
        self.allowances.get(&key)
    }

    fn balance_of(&self, addr: &Address) -> (r: i128)
        requires
            self.wf(),
        ensures
            r == self@.balance_of(addr@),
    {
        self.balances.get(addr)
    }

    fn set_balance(&mut self, addr: &Address, amount: i128)
        requires
            old(self).balances.wf(),
            amount >= 0,
        ensures
            final(self).balances.wf(),
            final(self).allowances == old(self).allowances,
            final(self)@ == old(self)@.with_balance(addr@, amount as int),
    {
        self.balances.set(addr, amount);
    }

    /// Names `admin` as administrator and sets the metadata: name "NovaToken",
    /// symbol "NOVA", 7 decimals, total supply zero. Refused once an
    /// administrator has been named.
    pub fn initialize(&mut self, admin: Address) -> (r: Result<Effects, TokenError>)
        requires
            old(self).wf(),
        ensures
            final(self).wf(),
            match r {
                Ok(fx) => {
                    &&& old(self)@.initialize_error() is None
                    &&& final(self)@ == old(self)@.initialized(admin@)
                    &&& fx@ == initialize_effects()
                },
                Err(e) => old(self)@.initialize_error() == Some(e) && final(self)@ == old(self)@,
            },
    {
        if self.admin.is_some() {
            return Err(TokenError::AlreadyInitialized);
        }
        proof {
            self.balances.lemma_wf();
            lemma_sum_bounds(self.balances@, admin@);
        }
        self.admin = Some(admin);
        self.name = vec![78u8, 111u8, 118u8, 97u8, 84u8, 111u8, 107u8, 101u8, 110u8];
        self.symbol = vec![78u8, 79u8, 86u8, 65u8];
        self.decimals = 7;
        self.total_supply = 0;
        let fx = Effects {
            event: None,
            writes: vec![
                DataKey::Admin,
                DataKey::Name,
                DataKey::Symbol,
                DataKey::Decimals,
                DataKey::TotalSupply,
            ],
        };
        proof {
            assert(self.name@ =~= token_name());
            assert(self.symbol@ =~= token_symbol());
            assert(self@ =~= old(self)@.initialized(admin@));
            assert(fx@.writes =~= initialize_effects().writes);
        }
        Ok(fx)
    }

    /// Mints `amount` new tokens to `to`. The administrator must authorize it.
    pub fn mint(&mut self, authorized: &[Address], to: Address, amount: i128) -> (r: Result<Effects, TokenError>)
        requires
            old(self).wf(),
        ensures
            final(self).wf(),
            match r {
                Ok(fx) => {
                    &&& old(self)@.mint_error(signers(authorized@), amount as int) is None
                    &&& final(self)@ == old(self)@.minted(to@, amount as int)
                    &&& fx@ == mint_effects(to@, amount as int)
                },
                Err(e) => old(self)@.mint_error(signers(authorized@), amount as int) == Some(e)
                    && final(self)@ == old(self)@,
            },
    {
        let admin_addr = match self.admin() {
            Some(a) => a,
            None => return Err(TokenError::NotInitialized),
        };
        if !signed_by(authorized, admin_addr) {
            return Err(TokenError::Unauthorized);
        }
        if amount <= 0 {
            return Err(TokenError::NonPositiveAmount);
        }
        if self.total_supply_raw() > i128::MAX - amount {
            return Err(TokenError::Overflow);
        }
        let ghost s0 = self@;
        proof {
            self.balances.lemma_wf();
            lemma_sum_bounds(self.balances@, to@);
            lemma_sum_insert(self.balances@, to@, s0.balance_of(to@) + amount);
        }
        let new_bal = self.balance_of(&to) + amount;
        self.set_balance(&to, new_bal);
        self.total_supply = self.total_supply + amount;
        proof {
            self.balances.lemma_wf();
            assert(self@ =~= s0.minted(to@, amount as int));
        }
        let fx = Effects {
            event: Some(TokenEvent::Mint { to: to.clone(), amount }),
            writes: vec![DataKey::Balance(to), DataKey::TotalSupply],
        };
        proof {
            assert(fx@.writes =~= mint_effects(to@, amount as int).writes);
        }
        Ok(fx)
    }

    /// Burns `amount` tokens of `from`, who must authorize it.
    pub fn burn(&mut self, authorized: &[Address], from: Address, amount: i128) -> (r: Result<Effects, TokenError>)
        requires
            old(self).wf(),
        ensures
            final(self).wf(),
            match r {
                Ok(fx) => {
                    &&& old(self)@.burn_error(signers(authorized@), from@, amount as int) is None
                    &&& final(self)@ == old(self)@.burned(from@, amount as int)
                    &&& fx@ == burn_effects(from@, amount as int)
                },
                Err(e) => old(self)@.burn_error(signers(authorized@), from@, amount as int) == Some(e)
                    && final(self)@ == old(self)@,
            },
    {
        if !signed_by(authorized, &from) {
            return Err(TokenError::Unauthorized);
        }
        if amount <= 0 {
            return Err(TokenError::NonPositiveAmount);
        }
        let bal = self.balance_of(&from);
        if bal < amount {
            return Err(TokenError::InsufficientBalance);
        }
        let ghost s0 = self@;
        proof {
            self.balances.lemma_wf();
            lemma_sum_bounds(self.balances@, from@);
            lemma_sum_insert(self.balances@, from@, bal - amount);
        }
        self.set_balance(&from, bal - amount);
        self.total_supply = self.total_supply_raw() - amount;
        proof {
            self.balances.lemma_wf();
            assert(self@ =~= s0.burned(from@, amount as int));
        }
        let fx = Effects {
            event: Some(TokenEvent::Burn { from: from.clone(), amount }),
            writes: vec![DataKey::Balance(from), DataKey::TotalSupply],
        };
        proof {
            assert(fx@.writes =~= burn_effects(from@, amount as int).writes);
        }
        Ok(fx)
    }

    /// Debits `amount` from `from`, then credits it to `to`; the caller has
    /// already checked authorization and the balance.
    fn move_balance(&mut self, from: &Address, to: &Address, amount: i128)
        requires
            old(self).wf(),
            amount > 0,
            old(self)@.balance_of(from@) >= amount,
        ensures
            final(self).wf(),
            final(self)@ == old(self)@.transferred(from@, to@, amount as int),
    {
        let ghost s0 = self@;
        let from_bal = self.balance_of(from);
        proof {
            self.balances.lemma_wf();
            lemma_sum_bounds(self.balances@, from@);
            if from@ != to@ && self.balances@.contains_key(to@) {
                lemma_sum_two(self.balances@, from@, to@);
            }
            lemma_sum_insert(self.balances@, from@, from_bal - amount);
        }
        self.set_balance(from, from_bal - amount);
        let ghost s1 = self@;
        proof {
            self.balances.lemma_wf();
        }
        let to_bal = self.balance_of(to);
        proof {
            lemma_sum_insert(self.balances@, to@, to_bal + amount);
        }
        self.set_balance(to, to_bal + amount);
        proof {
            self.balances.lemma_wf();
            assert(self@ =~= s0.transferred(from@, to@, amount as int));
        }
    }

    /// Transfers `amount` tokens from `from` to `to`; `from` must authorize it.
    pub fn transfer(&mut self, authorized: &[Address], from: Address, to: Address, amount: i128) -> (r: Result<Effects, TokenError>)
        requires
            old(self).wf(),
        ensures
            final(self).wf(),
            match r {
                Ok(fx) => {
                    &&& old(self)@.transfer_error(signers(authorized@), from@, amount as int) is None
                    &&& final(self)@ == old(self)@.transferred(from@, to@, amount as int)
                    &&& fx@ == transfer_effects(from@, to@, amount as int)
                },
                Err(e) => old(self)@.transfer_error(signers(authorized@), from@, amount as int) == Some(e)
                    && final(self)@ == old(self)@,
            },
    {
        if !signed_by(authorized, &from) {
            return Err(TokenError::Unauthorized);
        }
        if amount <= 0 {
            return Err(TokenError::NonPositiveAmount);
        }
        let from_bal = self.balance_of(&from);
        if from_bal < amount {
            return Err(TokenError::InsufficientBalance);
        }
        self.move_balance(&from, &to, amount);
        let fx = Effects {
            event: Some(TokenEvent::Transfer { from: from.clone(), to: to.clone(), amount }),
            writes: vec![DataKey::Balance(from), DataKey::Balance(to)],
        };
        proof {
            assert(fx@.writes =~= transfer_effects(from@, to@, amount as int).writes);
        }
        Ok(fx)
    }

    /// Lets `spender` move up to `amount` of `owner`'s tokens; `owner` must
    /// authorize it. The new allowance replaces the old one.
    pub fn approve(&mut self, authorized: &[Address], owner: Address, spender: Address, amount: i128) -> (r: Result<Effects, TokenError>)
        requires
            old(self).wf(),
        ensures
            final(self).wf(),
            match r {
                Ok(fx) => {
                    &&& old(self)@.approve_error(signers(authorized@), owner@, amount as int) is None
                    &&& final(self)@ == old(self)@.approved(owner@, spender@, amount as int)
                    &&& fx@ == approve_effects(owner@, spender@, amount as int)
                },
                Err(e) => old(self)@.approve_error(signers(authorized@), owner@, amount as int) == Some(e)
                    && final(self)@ == old(self)@,
            },
    {
        if !signed_by(authorized, &owner) {
            return Err(TokenError::Unauthorized);
        }
        if amount < 0 {
            return Err(TokenError::NegativeAmount);
        }
        let ghost s0 = self@;
        let key = (owner.clone(), spender.clone());
        self.allowances.set(&key, amount);
        proof {
            self.allowances.lemma_wf();
            assert(self@ =~= s0.approved(owner@, spender@, amount as int));
        }
        let fx = Effects {
            event: Some(TokenEvent::Approve { owner: owner.clone(), spender: spender.clone(), amount }),
            writes: vec![DataKey::Allowance(owner, spender)],
        };
        proof {
            assert(fx@.writes =~= approve_effects(owner@, spender@, amount as int).writes);
        }
        Ok(fx)
    }

    /// The balance of `addr`.
    pub fn balance(&self, addr: &Address) -> (r: i128)
        requires
            self.wf(),
        ensures
            r == self@.balance_of(addr@),
    {
        self.balance_of(addr)
    }

    /// What `spender` may still move out of `owner`'s balance.
    pub fn allowance(&self, owner: &Address, spender: &Address) -> (r: i128)
        requires
            self.wf(),
        ensures
            r == self@.allowance_of(owner@, spender@),
    {
        self.allowance_raw(owner, spender)
    }

    /// Moves `amount` of `from`'s tokens to `to` on `spender`'s allowance,
    /// which shrinks by `amount`; `spender` must authorize it.
    pub fn transfer_from(
        &mut self,
        authorized: &[Address],
        from: Address,
        spender: Address,
        to: Address,
        amount: i128,
    ) -> (r: Result<Effects, TokenError>)
        requires
            old(self).wf(),
        ensures
            final(self).wf(),
            match r {
                Ok(fx) => {
                    &&& old(self)@.transfer_from_error(signers(authorized@), from@, spender@, amount as int) is None
                    &&& final(self)@ == old(self)@.transferred_from(from@, spender@, to@, amount as int)
                    &&& fx@ == transfer_from_effects(from@, spender@, to@, amount as int)
                },
                Err(e) => old(self)@.transfer_from_error(signers(authorized@), from@, spender@, amount as int)
                    == Some(e) && final(self)@ == old(self)@,
            },
    {
        if !signed_by(authorized, &spender) {
            return Err(TokenError::Unauthorized);
        }
        if amount <= 0 {
            return Err(TokenError::NonPositiveAmount);
        }
        let allowance = self.allowance_raw(&from, &spender);
        if allowance < amount {
            return Err(TokenError::InsufficientAllowance);
        }
        let from_bal = self.balance_of(&from);
        if from_bal < amount {
            return Err(TokenError::InsufficientBalance);
        }
        let ghost s0 = self@;
        self.move_balance(&from, &to, amount);
        let key = (from.clone(), spender.clone());
        self.allowances.set(&key, allowance - amount);
        proof {
            self.allowances.lemma_wf();
            assert(self@ =~= s0.transferred_from(from@, spender@, to@, amount as int));
        }
        let fx = Effects {
            event: Some(TokenEvent::Transfer { from: from.clone(), to: to.clone(), amount }),
            writes: vec![DataKey::Balance(from.clone()), DataKey::Balance(to), DataKey::Allowance(from, spender)],
        };
        proof {
            assert(fx@.writes =~= transfer_from_effects(from@, spender@, to@, amount as int).writes);
        }
        Ok(fx)
    }

    /// The name of the token; empty before `initialize`.
    pub fn name(&self) -> (r: Vec<u8>)
        ensures
            r@ == self@.name,
    {
        let r = self.name.clone();
        assert(r@ =~= self.name@);
        r
    }

    /// The symbol of the token; empty before `initialize`.
    pub fn symbol(&self) -> (r: Vec<u8>)
        ensures
            r@ == self@.symbol,
    {
        let r = self.symbol.clone();
        assert(r@ =~= self.symbol@);
        r
    }

    /// The number of decimals; zero before `initialize`.
    pub fn decimals(&self) -> (r: u32)
        ensures
            r == self@.decimals,
    {
        self.decimals
    }

    /// The number of tokens in existence.
    pub fn total_supply(&self) -> (r: i128)
        ensures
            r == self@.total_supply,
    {
        self.total_supply_raw()
    }
}

} // verus!

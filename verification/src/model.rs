//! The mathematical model of the token: its state, the operations on it, and
//! what each operation writes and announces.

use vstd::prelude::*;
use crate::ledger::amount_at;
use crate::sum::{sum_values, all_nonnegative};

verus! {

/// Why an operation was refused. A refused operation changes nothing.
#[derive(Clone, Copy, Debug, PartialEq, Eq, Structural)]
pub enum TokenError {
    /// `initialize` on a token that already has an administrator.
    AlreadyInitialized,
    /// Minting before `initialize` named an administrator.
    NotInitialized,
    /// The address that must authorize the operation did not.
    Unauthorized,
    /// An amount that must be above zero was not.
    NonPositiveAmount,
    /// An allowance that must not be negative was.
    NegativeAmount,
    /// The account holds less than the amount.
    InsufficientBalance,
    /// The spender may move less than the amount.
    InsufficientAllowance,
    /// The total supply would exceed `i128::MAX`.
    Overflow,
}

/// The text with which the token reports each refusal.
pub open spec fn error_text(e: TokenError) -> Seq<char> {
    match e {
        TokenError::AlreadyInitialized => "already initialized"@,
        TokenError::NotInitialized => "not initialized"@,
        TokenError::Unauthorized => "unauthorized"@,
        TokenError::NonPositiveAmount => "amount must be positive"@,
        TokenError::NegativeAmount => "amount cannot be negative"@,
        TokenError::InsufficientBalance => "insufficient balance"@,
        TokenError::InsufficientAllowance => "insufficient allowance"@,
        TokenError::Overflow => "attempt to add with overflow"@,
    }
}

impl TokenError {
    /// The text with which the token reports this refusal.
    pub fn message(&self) -> (m: &'static str)
        ensures
            m@ == error_text(*self),
    {
        match self {
            TokenError::AlreadyInitialized => "already initialized",
            TokenError::NotInitialized => "not initialized",
            TokenError::Unauthorized => "unauthorized",
            TokenError::NonPositiveAmount => "amount must be positive",
            TokenError::NegativeAmount => "amount cannot be negative",
            TokenError::InsufficientBalance => "insufficient balance",
            TokenError::InsufficientAllowance => "insufficient allowance",
            TokenError::Overflow => "attempt to add with overflow",
        }
    }
}

/// The bytes of the name that `initialize` gives the token: "NovaToken".
pub open spec fn token_name() -> Seq<u8> {
    seq![78u8, 111u8, 118u8, 97u8, 84u8, 111u8, 107u8, 101u8, 110u8]
}

/// The bytes of the symbol that `initialize` gives the token: "NOVA".
pub open spec fn token_symbol() -> Seq<u8> {
    seq![78u8, 79u8, 86u8, 65u8]
}

/// The number of decimals that `initialize` gives the token.
pub open spec fn token_decimals() -> u32 {
    7
}

/// A storage entry of the token, by its key.
pub enum StorageKey {
    Admin,
    Name,
    Symbol,
    Decimals,
    TotalSupply,
    Balance(Seq<u8>),
    Allowance(Seq<u8>, Seq<u8>),
}

/// An event that an operation announces.
pub enum EventRecord {
    Mint { to: Seq<u8>, amount: int },
    Burn { from: Seq<u8>, amount: int },
    Transfer { from: Seq<u8>, to: Seq<u8>, amount: int },
    Approve { owner: Seq<u8>, spender: Seq<u8>, amount: int },
}

/// What a successful operation did besides changing the state: the storage
/// entries it wrote, in order, and the event it announced.
pub struct EffectsView {
    pub event: Option<EventRecord>,
    pub writes: Seq<StorageKey>,
}

/// The whole state of the token.
pub struct TokenState {
    pub admin: Option<Seq<u8>>,
    pub name: Seq<u8>,
    pub symbol: Seq<u8>,
    pub decimals: u32,
    pub total_supply: int,
    pub balances: Map<Seq<u8>, int>,
    pub allowances: Map<(Seq<u8>, Seq<u8>), int>,
}

impl TokenState {
    /// The state before `initialize`: nothing stored.
    pub open spec fn empty() -> TokenState {
        TokenState {
            admin: None,
            name: Seq::empty(),
            symbol: Seq::empty(),
            decimals: 0,
            total_supply: 0,
            balances: Map::empty(),
            allowances: Map::empty(),
        }
    }

    /// The balance of `a`: zero for an account never credited.
    pub open spec fn balance_of(self, a: Seq<u8>) -> int {
        amount_at(self.balances, a)
    }

    /// What `spender` may still move out of `owner`'s balance.
    pub open spec fn allowance_of(self, owner: Seq<u8>, spender: Seq<u8>) -> int {
        amount_at(self.allowances, (owner, spender))
    }

    /// The sum of all balances.
    pub open spec fn balance_sum(self) -> int {
        sum_values(self.balances)
    }

    /// A consistent state: no negative balance or allowance, the balances add
    /// up to no more than the total supply, the total supply fits in an
    /// `i128`, and nothing is held before an administrator is named.
    pub open spec fn valid(self) -> bool {
        &&& self.balances.dom().finite()
        &&& self.allowances.dom().finite()
        &&& all_nonnegative(self.balances)
        &&& all_nonnegative(self.allowances)
        &&& self.balance_sum() <= self.total_supply <= i128::MAX
        &&& self.admin is None ==> self.total_supply == 0
    }

    pub open spec fn with_balance(self, a: Seq<u8>, v: int) -> TokenState {
        TokenState { balances: self.balances.insert(a, v), ..self }
    }

    pub open spec fn with_allowance(self, owner: Seq<u8>, spender: Seq<u8>, v: int) -> TokenState {
        TokenState { allowances: self.allowances.insert((owner, spender), v), ..self }
    }

    // ── initialize ───────────────────────────────────────────────────────

    pub open spec fn initialize_error(self) -> Option<TokenError> {
        if self.admin is Some {
            Some(TokenError::AlreadyInitialized)
        } else {
            None
        }
    }

    pub open spec fn initialized(self, admin: Seq<u8>) -> TokenState {
        TokenState {
            admin: Some(admin),
            name: token_name(),
            symbol: token_symbol(),
            decimals: token_decimals(),
            total_supply: 0,
            ..self
        }
    }

    // ── mint ─────────────────────────────────────────────────────────────

    pub open spec fn mint_error(self, signers: Seq<Seq<u8>>, amount: int) -> Option<TokenError> {
        match self.admin {
            None => Some(TokenError::NotInitialized),
            Some(admin) => if !signers.contains(admin) {
                Some(TokenError::Unauthorized)
            } else if amount <= 0 {
                Some(TokenError::NonPositiveAmount)
            } else if self.total_supply + amount > i128::MAX {
                Some(TokenError::Overflow)
            } else {
                None
            },
        }
    }

    pub open spec fn minted(self, to: Seq<u8>, amount: int) -> TokenState {
        TokenState {
            total_supply: self.total_supply + amount,
            ..self.with_balance(to, self.balance_of(to) + amount)
        }
    }

    // ── burn ─────────────────────────────────────────────────────────────

    pub open spec fn burn_error(self, signers: Seq<Seq<u8>>, from: Seq<u8>, amount: int) -> Option<TokenError> {
        if !signers.contains(from) {
            Some(TokenError::Unauthorized)
        } else if amount <= 0 {
            Some(TokenError::NonPositiveAmount)
        } else if self.balance_of(from) < amount {
            Some(TokenError::InsufficientBalance)
        } else {
            None
        }
    }

    pub open spec fn burned(self, from: Seq<u8>, amount: int) -> TokenState {
        TokenState {
            total_supply: self.total_supply - amount,
            ..self.with_balance(from, self.balance_of(from) - amount)
        }
    }

    // ── transfer ─────────────────────────────────────────────────────────

    pub open spec fn transfer_error(self, signers: Seq<Seq<u8>>, from: Seq<u8>, amount: int) -> Option<TokenError> {
        self.burn_error(signers, from, amount)
    }

    /// `from` is debited first, then `to` is credited, so a transfer to
    /// oneself leaves the balance as it was.
    pub open spec fn transferred(self, from: Seq<u8>, to: Seq<u8>, amount: int) -> TokenState {
        let debited = self.with_balance(from, self.balance_of(from) - amount);
        debited.with_balance(to, debited.balance_of(to) + amount)
    }

    // ── approve ──────────────────────────────────────────────────────────

    pub open spec fn approve_error(self, signers: Seq<Seq<u8>>, owner: Seq<u8>, amount: int) -> Option<TokenError> {
        if !signers.contains(owner) {
            Some(TokenError::Unauthorized)
        } else if amount < 0 {
            Some(TokenError::NegativeAmount)
        } else {
            None
        }
    }

    pub open spec fn approved(self, owner: Seq<u8>, spender: Seq<u8>, amount: int) -> TokenState {
        self.with_allowance(owner, spender, amount)
    }

    // ── transfer_from ────────────────────────────────────────────────────

    pub open spec fn transfer_from_error(
        self,
        signers: Seq<Seq<u8>>,
        from: Seq<u8>,
        spender: Seq<u8>,
        amount: int,
    ) -> Option<TokenError> {
        if !signers.contains(spender) {
            Some(TokenError::Unauthorized)
        } else if amount <= 0 {
            Some(TokenError::NonPositiveAmount)
        } else if self.allowance_of(from, spender) < amount {
            Some(TokenError::InsufficientAllowance)
        } else if self.balance_of(from) < amount {
            Some(TokenError::InsufficientBalance)
        } else {
            None
        }
    }

    pub open spec fn transferred_from(self, from: Seq<u8>, spender: Seq<u8>, to: Seq<u8>, amount: int) -> TokenState {
        self.transferred(from, to, amount).with_allowance(
            from,
            spender,
            self.allowance_of(from, spender) - amount,
        )
    }
}

// ── What each operation writes and announces ─────────────────────────────

pub open spec fn initialize_effects() -> EffectsView {
    EffectsView {
        event: None,
        writes: seq![
            StorageKey::Admin,
            StorageKey::Name,
            StorageKey::Symbol,
            StorageKey::Decimals,
            StorageKey::TotalSupply,
        ],
    }
}

pub open spec fn mint_effects(to: Seq<u8>, amount: int) -> EffectsView {
    EffectsView {
        event: Some(EventRecord::Mint { to, amount }),
        writes: seq![StorageKey::Balance(to), StorageKey::TotalSupply],
    }
}

pub open spec fn burn_effects(from: Seq<u8>, amount: int) -> EffectsView {
    EffectsView {
        event: Some(EventRecord::Burn { from, amount }),
        writes: seq![StorageKey::Balance(from), StorageKey::TotalSupply],
    }
}

pub open spec fn transfer_effects(from: Seq<u8>, to: Seq<u8>, amount: int) -> EffectsView {
    EffectsView {
        event: Some(EventRecord::Transfer { from, to, amount }),
        writes: seq![StorageKey::Balance(from), StorageKey::Balance(to)],
    }
}

pub open spec fn approve_effects(owner: Seq<u8>, spender: Seq<u8>, amount: int) -> EffectsView {
    EffectsView {
        event: Some(EventRecord::Approve { owner, spender, amount }),
        writes: seq![StorageKey::Allowance(owner, spender)],
    }
}

pub open spec fn transfer_from_effects(from: Seq<u8>, spender: Seq<u8>, to: Seq<u8>, amount: int) -> EffectsView {
    EffectsView {
        event: Some(EventRecord::Transfer { from, to, amount }),
        writes: seq![
            StorageKey::Balance(from),
            StorageKey::Balance(to),
            StorageKey::Allowance(from, spender),
        ],
    }
}

} // verus!

//! Properties of the token as a whole: what every operation keeps, what one
//! operation undoes of another, and what a read gives back of a write.

use vstd::prelude::*;
use crate::model::{
    TokenState, TokenError, StorageKey, EventRecord, EffectsView, token_name, token_symbol, token_decimals,
    initialize_effects, mint_effects, burn_effects, transfer_effects, approve_effects, transfer_from_effects,
};
use crate::sum::{all_nonnegative, lemma_sum_insert, lemma_sum_bounds};

verus! {

/// An operation of the token, with its arguments.
pub enum Operation {
    Initialize { admin: Seq<u8> },
    Mint { to: Seq<u8>, amount: int },
    Burn { from: Seq<u8>, amount: int },
    Transfer { from: Seq<u8>, to: Seq<u8>, amount: int },
    Approve { owner: Seq<u8>, spender: Seq<u8>, amount: int },
    TransferFrom { from: Seq<u8>, spender: Seq<u8>, to: Seq<u8>, amount: int },
}

/// An invocation: an operation and the addresses that authorized it.
pub struct Call {
    pub signers: Seq<Seq<u8>>,
    pub op: Operation,
}

/// The state after a call: the operation's result where it succeeds, the
/// state unchanged where it is refused.
pub open spec fn step(s: TokenState, c: Call) -> TokenState {
    match c.op {
        Operation::Initialize { admin } => if s.initialize_error() is None {
            s.initialized(admin)
        } else {
            s
        },
        Operation::Mint { to, amount } => if s.mint_error(c.signers, amount) is None {
            s.minted(to, amount)
        } else {
            s
        },
        Operation::Burn { from, amount } => if s.burn_error(c.signers, from, amount) is None {
            s.burned(from, amount)
        } else {
            s
        },
        Operation::Transfer { from, to, amount } => if s.transfer_error(c.signers, from, amount) is None {
            s.transferred(from, to, amount)
        } else {
            s
        },
        Operation::Approve { owner, spender, amount } => if s.approve_error(c.signers, owner, amount) is None {
            s.approved(owner, spender, amount)
        } else {
            s
        },
        Operation::TransferFrom { from, spender, to, amount } => if s.transfer_from_error(
            c.signers,
            from,
            spender,
            amount,
        ) is None {
            s.transferred_from(from, spender, to, amount)
        } else {
            s
        },
    }
}

/// The state after a sequence of calls, in order.
pub open spec fn run(s: TokenState, calls: Seq<Call>) -> TokenState
    decreases calls.len(),
{
    if calls.len() == 0 {
        s
    } else {
        step(run(s, calls.drop_last()), calls.last())
    }
}

/// The tokens in existence that no listed balance holds.
pub open spec fn unheld_supply(s: TokenState) -> int {
    s.total_supply - s.balance_sum()
}

proof fn lemma_with_balance(s: TokenState, a: Seq<u8>, v: int)
    requires
        s.valid(),
        v >= 0,
    ensures
        s.with_balance(a, v).balances.dom().finite(),
        all_nonnegative(s.with_balance(a, v).balances),
        s.with_balance(a, v).balance_sum() == s.balance_sum() - s.balance_of(a) + v,
        s.balance_of(a) >= 0,
        s.balance_of(a) <= s.balance_sum(),
{
    lemma_sum_insert(s.balances, a, v);
    lemma_sum_bounds(s.balances, a);
}

proof fn lemma_transferred(s: TokenState, from: Seq<u8>, to: Seq<u8>, amount: int)
    requires
        s.valid(),
        amount > 0,
        s.balance_of(from) >= amount,
    ensures
        s.transferred(from, to, amount).valid(),
        s.transferred(from, to, amount).balance_sum() == s.balance_sum(),
        s.transferred(from, to, amount).total_supply == s.total_supply,
{
    let d = s.with_balance(from, s.balance_of(from) - amount);
    lemma_with_balance(s, from, s.balance_of(from) - amount);
    lemma_with_balance(d, to, d.balance_of(to) + amount);
}

/// Every operation keeps the state consistent (no negative balance or
/// allowance, the balances within the total supply), and none creates or
/// destroys tokens outside the balances: the supply that no balance holds
/// is the same after the call as before.
pub proof fn lemma_step_keeps_supply(s: TokenState, c: Call)
    requires
        s.valid(),
    ensures
        step(s, c).valid(),
        unheld_supply(step(s, c)) == unheld_supply(s),
{
    let t = step(s, c);
    match c.op {
        Operation::Initialize { admin } => {
            if s.initialize_error() is None {
                lemma_sum_bounds(s.balances, admin);
            }
        },
        Operation::Mint { to, amount } => {
            if s.mint_error(c.signers, amount) is None {
                lemma_with_balance(s, to, s.balance_of(to) + amount);
            }
        },
        Operation::Burn { from, amount } => {
            if s.burn_error(c.signers, from, amount) is None {
                lemma_with_balance(s, from, s.balance_of(from) - amount);
            }
        },
        Operation::Transfer { from, to, amount } => {
            if s.transfer_error(c.signers, from, amount) is None {
                lemma_transferred(s, from, to, amount);
            }
        },
        Operation::Approve { owner, spender, amount } => {},
        Operation::TransferFrom { from, spender, to, amount } => {
            if s.transfer_from_error(c.signers, from, spender, amount) is None {
                lemma_transferred(s, from, to, amount);
            }
        },
    }
}

/// Starting from the empty token, after any sequence of calls the state is
/// consistent and the total supply equals the sum of all balances.
pub proof fn lemma_supply_is_sum_of_balances(calls: Seq<Call>)
    ensures
        run(TokenState::empty(), calls).valid(),
        run(TokenState::empty(), calls).total_supply == run(TokenState::empty(), calls).balance_sum(),
    decreases calls.len(),
{
    if calls.len() == 0 {
        assert(TokenState::empty().balance_sum() == 0);
    } else {
        lemma_supply_is_sum_of_balances(calls.drop_last());
        lemma_step_keeps_supply(run(TokenState::empty(), calls.drop_last()), calls.last());
    }
}

/// A transfer changes neither the total supply nor the sum of the balances,
/// debits `from` and credits `to` by the amount when they differ, and leaves
/// every other balance as it was.
pub proof fn lemma_transfer_moves_only(s: TokenState, signers: Seq<Seq<u8>>, from: Seq<u8>, to: Seq<u8>, amount: int, other: Seq<u8>)
    requires
        s.valid(),
        s.transfer_error(signers, from, amount) is None,
    ensures
        s.transferred(from, to, amount).total_supply == s.total_supply,
        s.transferred(from, to, amount).balance_sum() == s.balance_sum(),
        from != to ==> s.transferred(from, to, amount).balance_of(from) == s.balance_of(from) - amount,
        from != to ==> s.transferred(from, to, amount).balance_of(to) == s.balance_of(to) + amount,
        from == to ==> s.transferred(from, to, amount).balance_of(from) == s.balance_of(from),
        other != from && other != to ==> s.transferred(from, to, amount).balance_of(other) == s.balance_of(other),
{
    lemma_transferred(s, from, to, amount);
}

/// Minting to an account and then burning the same amount from it restores
/// every balance and the total supply.
pub proof fn lemma_burn_undoes_mint(s: TokenState, signers: Seq<Seq<u8>>, to: Seq<u8>, amount: int, a: Seq<u8>)
    requires
        s.valid(),
        s.mint_error(signers, amount) is None,
        signers.contains(to),
    ensures
        s.minted(to, amount).burn_error(signers, to, amount) is None,
        s.minted(to, amount).burned(to, amount).balance_of(a) == s.balance_of(a),
        s.minted(to, amount).burned(to, amount).total_supply == s.total_supply,
{
    lemma_sum_bounds(s.balances, to);
}

/// A transfer back of the same amount restores every balance.
pub proof fn lemma_transfer_back_restores(s: TokenState, signers: Seq<Seq<u8>>, from: Seq<u8>, to: Seq<u8>, amount: int, a: Seq<u8>)
    requires
        s.valid(),
        s.transfer_error(signers, from, amount) is None,
        signers.contains(to),
    ensures
        s.transferred(from, to, amount).transfer_error(signers, to, amount) is None,
        s.transferred(from, to, amount).transferred(to, from, amount).balance_of(a) == s.balance_of(a),
        s.transferred(from, to, amount).transferred(to, from, amount).total_supply == s.total_supply,
{
    lemma_sum_bounds(s.balances, from);
}

/// The allowance read after an approval is the amount approved, and the
/// approval changes no other allowance and no balance.
pub proof fn lemma_allowance_reads_approval(
    s: TokenState,
    owner: Seq<u8>,
    spender: Seq<u8>,
    amount: int,
    o: Seq<u8>,
    p: Seq<u8>,
    a: Seq<u8>,
)
    ensures
        s.approved(owner, spender, amount).allowance_of(owner, spender) == amount,
        (o, p) != (owner, spender) ==> s.approved(owner, spender, amount).allowance_of(o, p) == s.allowance_of(o, p),
        s.approved(owner, spender, amount).balance_of(a) == s.balance_of(a),
        s.approved(owner, spender, amount).total_supply == s.total_supply,
{
}

/// A spender's transfer moves balances exactly as the owner's own transfer
/// would, and shrinks that spender's allowance by the amount.
pub proof fn lemma_transfer_from_spends_allowance(
    s: TokenState,
    signers: Seq<Seq<u8>>,
    from: Seq<u8>,
    spender: Seq<u8>,
    to: Seq<u8>,
    amount: int,
    a: Seq<u8>,
)
    requires
        s.valid(),
        s.transfer_from_error(signers, from, spender, amount) is None,
    ensures
        s.transferred_from(from, spender, to, amount).allowance_of(from, spender) == s.allowance_of(from, spender) - amount,
        s.transferred_from(from, spender, to, amount).allowance_of(from, spender) >= 0,
        s.transferred_from(from, spender, to, amount).balance_of(a) == s.transferred(from, to, amount).balance_of(a),
        s.transferred_from(from, spender, to, amount).total_supply == s.total_supply,
{
}

/// Whether the call is a successful approval of `spender` on `owner`'s tokens.
pub open spec fn approves_pair(s: TokenState, c: Call, owner: Seq<u8>, spender: Seq<u8>) -> bool {
    match c.op {
        Operation::Approve { owner: o, spender: p, amount } => o == owner && p == spender
            && s.approve_error(c.signers, o, amount) is None,
        _ => false,
    }
}

/// The amount that the call moves out of `owner`'s balance on `spender`'s
/// allowance: that of a successful `transfer_from` by this pair, else zero.
pub open spec fn spent_on(s: TokenState, c: Call, owner: Seq<u8>, spender: Seq<u8>) -> int {
    match c.op {
        Operation::TransferFrom { from, spender: p, to, amount } => if from == owner && p == spender
            && s.transfer_from_error(c.signers, from, p, amount) is None {
            amount
        } else {
            0
        },
        _ => 0,
    }
}

/// Whether some call of the sequence successfully approves the pair again.
pub open spec fn reapproved(s: TokenState, calls: Seq<Call>, owner: Seq<u8>, spender: Seq<u8>) -> bool
    decreases calls.len(),
{
    if calls.len() == 0 {
        false
    } else {
        reapproved(s, calls.drop_last(), owner, spender) || approves_pair(
            run(s, calls.drop_last()),
            calls.last(),
            owner,
            spender,
        )
    }
}

/// The total that the sequence moves out of `owner`'s balance on `spender`'s
/// allowance.
pub open spec fn spent(s: TokenState, calls: Seq<Call>, owner: Seq<u8>, spender: Seq<u8>) -> int
    decreases calls.len(),
{
    if calls.len() == 0 {
        0
    } else {
        spent(s, calls.drop_last(), owner, spender) + spent_on(
            run(s, calls.drop_last()),
            calls.last(),
            owner,
            spender,
        )
    }
}

proof fn lemma_step_allowance(s: TokenState, c: Call, owner: Seq<u8>, spender: Seq<u8>)
    requires
        !approves_pair(s, c, owner, spender),
    ensures
        step(s, c).allowance_of(owner, spender) == s.allowance_of(owner, spender) - spent_on(
            s,
            c,
            owner,
            spender,
        ),
{
}

/// A spender spends only up to what was approved: along any sequence of calls
/// from a consistent state that approves the pair no more, the amounts its
/// successful `transfer_from` calls move out of the owner's balance add up to
/// at most the allowance at the start, and the allowance left is the
/// allowance at the start less that sum.
pub proof fn lemma_allowance_bounds_spending(s: TokenState, calls: Seq<Call>, owner: Seq<u8>, spender: Seq<u8>)
    requires
        s.valid(),
        !reapproved(s, calls, owner, spender),
    ensures
        run(s, calls).allowance_of(owner, spender) == s.allowance_of(owner, spender) - spent(
            s,
            calls,
            owner,
            spender,
        ),
        0 <= spent(s, calls, owner, spender) <= s.allowance_of(owner, spender),
    decreases calls.len(),
{
    if calls.len() != 0 {
        let d = calls.drop_last();
        lemma_allowance_bounds_spending(s, d, owner, spender);
        lemma_run_keeps_valid(s, d);
        lemma_step_keeps_supply(run(s, d), calls.last());
        lemma_step_allowance(run(s, d), calls.last(), owner, spender);
        let r = run(s, calls);
        assert(r.allowance_of(owner, spender) >= 0) by {
            if r.allowances.contains_key((owner, spender)) {
                assert(all_nonnegative(r.allowances));
            }
        }
        assert(spent_on(run(s, d), calls.last(), owner, spender) >= 0);
    }
}

/// After a successful `approve(owner, spender, amount)`, any sequence of
/// calls that approves the pair no more lets the spender move at most
/// `amount`, and leaves `amount` less what it moved as the allowance.
pub proof fn lemma_approval_bounds_spending(
    s: TokenState,
    signers: Seq<Seq<u8>>,
    owner: Seq<u8>,
    spender: Seq<u8>,
    amount: int,
    calls: Seq<Call>,
)
    requires
        s.valid(),
        s.approve_error(signers, owner, amount) is None,
        !reapproved(s.approved(owner, spender, amount), calls, owner, spender),
    ensures
        run(s.approved(owner, spender, amount), calls).allowance_of(owner, spender) == amount - spent(
            s.approved(owner, spender, amount),
            calls,
            owner,
            spender,
        ),
        0 <= spent(s.approved(owner, spender, amount), calls, owner, spender) <= amount,
{
    let c = Call { signers, op: Operation::Approve { owner, spender, amount } };
    lemma_step_keeps_supply(s, c);
    assert(step(s, c) == s.approved(owner, spender, amount));
    lemma_allowance_bounds_spending(s.approved(owner, spender, amount), calls, owner, spender);
}

/// Every sequence of calls keeps a consistent state consistent.
pub proof fn lemma_run_keeps_valid(s: TokenState, calls: Seq<Call>)
    requires
        s.valid(),
    ensures
        run(s, calls).valid(),
    decreases calls.len(),
{
    if calls.len() != 0 {
        lemma_run_keeps_valid(s, calls.drop_last());
        lemma_step_keeps_supply(run(s, calls.drop_last()), calls.last());
    }
}

/// Once a token has an administrator, no sequence of calls changes the
/// administrator, the name, the symbol or the decimals, and every further
/// `initialize` is refused.
pub proof fn lemma_metadata_fixed_once_initialized(s: TokenState, calls: Seq<Call>)
    requires
        s.admin is Some,
    ensures
        run(s, calls).admin == s.admin,
        run(s, calls).name == s.name,
        run(s, calls).symbol == s.symbol,
        run(s, calls).decimals == s.decimals,
        run(s, calls).initialize_error() == Some(TokenError::AlreadyInitialized),
    decreases calls.len(),
{
    if calls.len() != 0 {
        lemma_metadata_fixed_once_initialized(s, calls.drop_last());
    }
}

/// After a successful `initialize(admin)`, in every later state the
/// administrator is `admin`, the name "NovaToken", the symbol "NOVA" and the
/// decimals 7.
pub proof fn lemma_initialize_fixes_metadata(s: TokenState, admin: Seq<u8>, calls: Seq<Call>)
    requires
        s.initialize_error() is None,
    ensures
        run(s.initialized(admin), calls).admin == Some(admin),
        run(s.initialized(admin), calls).name == token_name(),
        run(s.initialized(admin), calls).symbol == token_symbol(),
        run(s.initialized(admin), calls).decimals == token_decimals(),
{
    lemma_metadata_fixed_once_initialized(s.initialized(admin), calls);
}


// ── What each operation does, in terms of its inputs ─────────────────────

/// `initialize` succeeds exactly when no administrator is named yet. It then
/// names `admin`, sets the metadata and a zero total supply, and leaves every
/// balance and allowance as it was.
pub proof fn lemma_initialize_behaviour(s: TokenState, admin: Seq<u8>)
    ensures
        (s.initialize_error() is None) <==> (s.admin is None),
        s.admin is Some ==> s.initialize_error() == Some(TokenError::AlreadyInitialized),
        s.initialized(admin).admin == Some(admin),
        s.initialized(admin).name == token_name(),
        s.initialized(admin).symbol == token_symbol(),
        s.initialized(admin).decimals == token_decimals(),
        s.initialized(admin).total_supply == 0,
        s.initialized(admin).balances == s.balances,
        s.initialized(admin).allowances == s.allowances,
        token_name() == "NovaToken"@.map_values(|c: char| c as u8),
        token_symbol() == "NOVA"@.map_values(|c: char| c as u8),
        token_decimals() == 7,
{
    reveal_strlit("NovaToken");
    reveal_strlit("NOVA");
    assert(token_name() =~= "NovaToken"@.map_values(|c: char| c as u8));
    assert(token_symbol() =~= "NOVA"@.map_values(|c: char| c as u8));
}

/// `mint` succeeds exactly when an administrator is named, signs, the amount
/// is positive and the new total supply fits in an `i128`; whoever else signs
/// does not matter. It credits `to` with the amount, adds the amount to the
/// total supply, and changes nothing else.
pub proof fn lemma_mint_behaviour(s: TokenState, signers: Seq<Seq<u8>>, to: Seq<u8>, amount: int, a: Seq<u8>)
    ensures
        (s.mint_error(signers, amount) is None) <==> (s.admin matches Some(adm) && signers.contains(adm)
            && amount > 0 && s.total_supply + amount <= i128::MAX),
        s.admin is None ==> s.mint_error(signers, amount) == Some(TokenError::NotInitialized),
        s.admin matches Some(adm) && !signers.contains(adm) ==> s.mint_error(signers, amount) == Some(
            TokenError::Unauthorized,
        ),
        s.admin matches Some(adm) && signers.contains(adm) && amount <= 0 ==> s.mint_error(signers, amount)
            == Some(TokenError::NonPositiveAmount),
        s.admin matches Some(adm) && signers.contains(adm) && amount > 0 && s.total_supply + amount
            > i128::MAX ==> s.mint_error(signers, amount) == Some(TokenError::Overflow),
        s.minted(to, amount).balance_of(to) == s.balance_of(to) + amount,
        a != to ==> s.minted(to, amount).balance_of(a) == s.balance_of(a),
        s.minted(to, amount).total_supply == s.total_supply + amount,
        s.minted(to, amount).allowances == s.allowances,
        s.minted(to, amount).admin == s.admin,
{
}

/// `burn` succeeds exactly when `from` signs, the amount is positive and
/// `from` holds at least the amount. It debits `from` and the total supply by
/// the amount, and changes nothing else.
pub proof fn lemma_burn_behaviour(s: TokenState, signers: Seq<Seq<u8>>, from: Seq<u8>, amount: int, a: Seq<u8>)
    ensures
        (s.burn_error(signers, from, amount) is None) <==> (signers.contains(from) && amount > 0
            && amount <= s.balance_of(from)),
        !signers.contains(from) ==> s.burn_error(signers, from, amount) == Some(TokenError::Unauthorized),
        signers.contains(from) && amount <= 0 ==> s.burn_error(signers, from, amount) == Some(
            TokenError::NonPositiveAmount,
        ),
        signers.contains(from) && amount > 0 && s.balance_of(from) < amount ==> s.burn_error(signers, from, amount)
            == Some(TokenError::InsufficientBalance),
        s.burned(from, amount).balance_of(from) == s.balance_of(from) - amount,
        a != from ==> s.burned(from, amount).balance_of(a) == s.balance_of(a),
        s.burned(from, amount).total_supply == s.total_supply - amount,
        s.burned(from, amount).allowances == s.allowances,
        s.burned(from, amount).admin == s.admin,
{
}

/// `transfer` succeeds exactly when `from` signs, the amount is positive and
/// `from` holds at least the amount (the balance may equal it), whoever else
/// signs, the administrator included. It moves the amount from `from` to
/// `to` (nothing, when they are the same account) and changes nothing else.
pub proof fn lemma_transfer_behaviour(
    s: TokenState,
    signers: Seq<Seq<u8>>,
    from: Seq<u8>,
    to: Seq<u8>,
    amount: int,
    a: Seq<u8>,
)
    ensures
        (s.transfer_error(signers, from, amount) is None) <==> (signers.contains(from) && amount > 0
            && amount <= s.balance_of(from)),
        !signers.contains(from) ==> s.transfer_error(signers, from, amount) == Some(TokenError::Unauthorized),
        signers.contains(from) && amount <= 0 ==> s.transfer_error(signers, from, amount) == Some(
            TokenError::NonPositiveAmount,
        ),
        signers.contains(from) && amount > 0 && s.balance_of(from) < amount ==> s.transfer_error(
            signers,
            from,
            amount,
        ) == Some(TokenError::InsufficientBalance),
        from != to ==> s.transferred(from, to, amount).balance_of(from) == s.balance_of(from) - amount,
        from != to ==> s.transferred(from, to, amount).balance_of(to) == s.balance_of(to) + amount,
        from == to ==> s.transferred(from, to, amount).balance_of(from) == s.balance_of(from),
        a != from && a != to ==> s.transferred(from, to, amount).balance_of(a) == s.balance_of(a),
        s.transferred(from, to, amount).total_supply == s.total_supply,
        s.transferred(from, to, amount).allowances == s.allowances,
        s.transferred(from, to, amount).admin == s.admin,
{
}

/// `approve` succeeds exactly when `owner` signs and the amount is not
/// negative (zero revokes). The allowance of the pair becomes the amount;
/// nothing else changes.
pub proof fn lemma_approve_behaviour(
    s: TokenState,
    signers: Seq<Seq<u8>>,
    owner: Seq<u8>,
    spender: Seq<u8>,
    amount: int,
    o: Seq<u8>,
    p: Seq<u8>,
)
    ensures
        (s.approve_error(signers, owner, amount) is None) <==> (signers.contains(owner) && amount >= 0),
        !signers.contains(owner) ==> s.approve_error(signers, owner, amount) == Some(TokenError::Unauthorized),
        signers.contains(owner) && amount < 0 ==> s.approve_error(signers, owner, amount) == Some(
            TokenError::NegativeAmount,
        ),
        s.approved(owner, spender, amount).allowance_of(owner, spender) == amount,
        (o, p) != (owner, spender) ==> s.approved(owner, spender, amount).allowance_of(o, p) == s.allowance_of(o, p),
        s.approved(owner, spender, amount).balances == s.balances,
        s.approved(owner, spender, amount).total_supply == s.total_supply,
        s.approved(owner, spender, amount).admin == s.admin,
{
}

/// `transfer_from` succeeds exactly when `spender` signs, the amount is
/// positive, and both the allowance of the pair and the balance of `from`
/// cover it (either may equal it). It moves balances as `transfer` does,
/// lowers that allowance by the amount, and changes nothing else.
pub proof fn lemma_transfer_from_behaviour(
    s: TokenState,
    signers: Seq<Seq<u8>>,
    from: Seq<u8>,
    spender: Seq<u8>,
    to: Seq<u8>,
    amount: int,
    a: Seq<u8>,
    o: Seq<u8>,
    p: Seq<u8>,
)
    ensures
        (s.transfer_from_error(signers, from, spender, amount) is None) <==> (signers.contains(spender)
            && amount > 0 && amount <= s.allowance_of(from, spender) && amount <= s.balance_of(from)),
        !signers.contains(spender) ==> s.transfer_from_error(signers, from, spender, amount) == Some(
            TokenError::Unauthorized,
        ),
        signers.contains(spender) && amount <= 0 ==> s.transfer_from_error(signers, from, spender, amount)
            == Some(TokenError::NonPositiveAmount),
        signers.contains(spender) && amount > 0 && s.allowance_of(from, spender) < amount
            ==> s.transfer_from_error(signers, from, spender, amount) == Some(TokenError::InsufficientAllowance),
        signers.contains(spender) && amount > 0 && amount <= s.allowance_of(from, spender) && s.balance_of(from)
            < amount ==> s.transfer_from_error(signers, from, spender, amount) == Some(
            TokenError::InsufficientBalance,
        ),
        from != to ==> s.transferred_from(from, spender, to, amount).balance_of(from) == s.balance_of(from)
            - amount,
        from != to ==> s.transferred_from(from, spender, to, amount).balance_of(to) == s.balance_of(to) + amount,
        from == to ==> s.transferred_from(from, spender, to, amount).balance_of(from) == s.balance_of(from),
        a != from && a != to ==> s.transferred_from(from, spender, to, amount).balance_of(a) == s.balance_of(a),
        s.transferred_from(from, spender, to, amount).allowance_of(from, spender) == s.allowance_of(from, spender)
            - amount,
        (o, p) != (from, spender) ==> s.transferred_from(from, spender, to, amount).allowance_of(o, p)
            == s.allowance_of(o, p),
        s.transferred_from(from, spender, to, amount).total_supply == s.total_supply,
        s.transferred_from(from, spender, to, amount).admin == s.admin,
{
}

// ── What each operation writes and announces ─────────────────────────────

/// Whether the storage entry at `k` differs between two states: it appears
/// or disappears, or holds another value.
pub open spec fn entry_changed(s: TokenState, t: TokenState, k: StorageKey) -> bool {
    match k {
        StorageKey::Admin => s.admin != t.admin,
        StorageKey::Name => s.name != t.name,
        StorageKey::Symbol => s.symbol != t.symbol,
        StorageKey::Decimals => s.decimals != t.decimals,
        StorageKey::TotalSupply => s.total_supply != t.total_supply,
        StorageKey::Balance(a) => s.balances.contains_key(a) != t.balances.contains_key(a) || s.balance_of(a)
            != t.balance_of(a),
        StorageKey::Allowance(o, p) => s.allowances.contains_key((o, p)) != t.allowances.contains_key((o, p))
            || s.allowance_of(o, p) != t.allowance_of(o, p),
    }
}

/// Whether the call succeeds in the state.
pub open spec fn succeeds(s: TokenState, c: Call) -> bool {
    match c.op {
        Operation::Initialize { .. } => s.initialize_error() is None,
        Operation::Mint { amount, .. } => s.mint_error(c.signers, amount) is None,
        Operation::Burn { from, amount } => s.burn_error(c.signers, from, amount) is None,
        Operation::Transfer { from, amount, .. } => s.transfer_error(c.signers, from, amount) is None,
        Operation::Approve { owner, amount, .. } => s.approve_error(c.signers, owner, amount) is None,
        Operation::TransferFrom { from, spender, amount, .. } => s.transfer_from_error(
            c.signers,
            from,
            spender,
            amount,
        ) is None,
    }
}

/// What a successful call writes and announces.
pub open spec fn call_effects(c: Call) -> EffectsView {
    match c.op {
        Operation::Initialize { .. } => initialize_effects(),
        Operation::Mint { to, amount } => mint_effects(to, amount),
        Operation::Burn { from, amount } => burn_effects(from, amount),
        Operation::Transfer { from, to, amount } => transfer_effects(from, to, amount),
        Operation::Approve { owner, spender, amount } => approve_effects(owner, spender, amount),
        Operation::TransferFrom { from, spender, to, amount } => transfer_from_effects(from, spender, to, amount),
    }
}

/// A successful call lists among its writes every storage entry that it
/// changes, so storing the listed entries stores the whole new state.
pub proof fn lemma_writes_cover_changes(s: TokenState, c: Call, k: StorageKey)
    requires
        succeeds(s, c),
        entry_changed(s, step(s, c), k),
    ensures
        call_effects(c).writes.contains(k),
{
    let w = call_effects(c).writes;
    match c.op {
        Operation::Initialize { admin } => {
            match k {
                StorageKey::Admin => assert(w[0] == k),
                StorageKey::Name => assert(w[1] == k),
                StorageKey::Symbol => assert(w[2] == k),
                StorageKey::Decimals => assert(w[3] == k),
                StorageKey::TotalSupply => assert(w[4] == k),
                _ => {},
            }
        },
        Operation::Mint { to, amount } => {
            match k {
                StorageKey::Balance(a) => assert(w[0] == k),
                StorageKey::TotalSupply => assert(w[1] == k),
                _ => {},
            }
        },
        Operation::Burn { from, amount } => {
            match k {
                StorageKey::Balance(a) => assert(w[0] == k),
                StorageKey::TotalSupply => assert(w[1] == k),
                _ => {},
            }
        },
        Operation::Transfer { from, to, amount } => {
            match k {
                StorageKey::Balance(a) => {
                    if a == from {
                        assert(w[0] == k);
                    } else {
                        assert(w[1] == k);
                    }
                },
                _ => {},
            }
        },
        Operation::Approve { owner, spender, amount } => {
            match k {
                StorageKey::Allowance(o, p) => assert(w[0] == k),
                _ => {},
            }
        },
        Operation::TransferFrom { from, spender, to, amount } => {
            match k {
                StorageKey::Balance(a) => {
                    if a == from {
                        assert(w[0] == k);
                    } else {
                        assert(w[1] == k);
                    }
                },
                StorageKey::Allowance(o, p) => assert(w[2] == k),
                _ => {},
            }
        },
    }
}

/// Every successful approval writes the allowance entry of its pair, zero
/// amounts (revocations) included, and announces the owner, the spender and
/// the amount.
pub proof fn lemma_approve_writes_its_entry(owner: Seq<u8>, spender: Seq<u8>, amount: int)
    ensures
        approve_effects(owner, spender, amount).writes.contains(StorageKey::Allowance(owner, spender)),
        approve_effects(owner, spender, amount).event == Some(EventRecord::Approve { owner, spender, amount }),
{
    assert(approve_effects(owner, spender, amount).writes[0] == StorageKey::Allowance(owner, spender));
}

/// A spender's transfer announces the same event as the owner's own
/// transfer of the amount, and writes the same balance entries followed by
/// the allowance entry of the pair.
pub proof fn lemma_transfer_from_effects_extend_transfer(
    from: Seq<u8>,
    spender: Seq<u8>,
    to: Seq<u8>,
    amount: int,
)
    ensures
        transfer_from_effects(from, spender, to, amount).event == transfer_effects(from, to, amount).event,
        transfer_from_effects(from, spender, to, amount).writes == transfer_effects(from, to, amount).writes.push(
            StorageKey::Allowance(from, spender),
        ),
{
    assert(transfer_from_effects(from, spender, to, amount).writes =~= transfer_effects(from, to, amount).writes.push(
        StorageKey::Allowance(from, spender),
    ));
}

/// Mint, burn and transfer announce who gained or lost what.
pub proof fn lemma_events_name_parties(from: Seq<u8>, to: Seq<u8>, amount: int)
    ensures
        mint_effects(to, amount).event == Some(EventRecord::Mint { to, amount }),
        burn_effects(from, amount).event == Some(EventRecord::Burn { from, amount }),
        transfer_effects(from, to, amount).event == Some(EventRecord::Transfer { from, to, amount }),
        initialize_effects().event is None,
{
}

} // verus!

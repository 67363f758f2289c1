use vstd::prelude::*;
use crate::errors::TokenError;
use crate::state::{
    allowance_of, approve_effect, approve_result, balance_of, blank, burn_effect, burn_result,
    conserved, initialize_effect, initialize_result, mint_effect, mint_result, moved, settled,
    transfer_effect, transfer_from_effect, transfer_from_result, transfer_result, valid,
    LedgerState,
};
use crate::storage::kept;
use crate::sums::{
    amount_of, lemma_sum_covers, lemma_sum_covers_two, lemma_sum_insert, lemma_sum_nonnegative,
    lemma_sum_remove, map_sum,
};

verus! {

/// What holds of every state that the operations can reach: the state is
/// valid, the balances add up to the supply, and nothing is in circulation
/// before the ledger is set up.
pub open spec fn consistent(s: LedgerState) -> bool {
    &&& valid(s)
    &&& conserved(s)
    &&& !s.initialized ==> s.supply == 0
}

/// One call of an operation, with its arguments.
pub enum Call {
    Initialize { admin: Seq<char>, name: Seq<char>, symbol: Seq<char>, decimals: u32 },
    Mint { auth: Set<Seq<char>>, to: Seq<char>, amount: i128 },
    Burn { auth: Set<Seq<char>>, from: Seq<char>, amount: i128 },
    Transfer { auth: Set<Seq<char>>, from: Seq<char>, to: Seq<char>, amount: i128 },
    Approve { auth: Set<Seq<char>>, owner: Seq<char>, spender: Seq<char>, amount: i128 },
    TransferFrom {
        auth: Set<Seq<char>>,
        spender: Seq<char>,
        from: Seq<char>,
        to: Seq<char>,
        amount: i128,
    },
}

/// The state after one call.
pub open spec fn step(s: LedgerState, call: Call) -> LedgerState {
    match call {
        Call::Initialize { admin, name, symbol, decimals } => settled(
            s,
            initialize_result(s, name, symbol, decimals),
            initialize_effect(s, admin, name, symbol, decimals),
        ),
        Call::Mint { auth, to, amount } => settled(
            s,
            mint_result(s, auth, to, amount as int),
            mint_effect(s, to, amount as int),
        ),
        Call::Burn { auth, from, amount } => settled(
            s,
            burn_result(s, auth, from, amount as int),
            burn_effect(s, from, amount as int),
        ),
        Call::Transfer { auth, from, to, amount } => settled(
            s,
            transfer_result(s, auth, from, to, amount as int),
            transfer_effect(s, from, to, amount as int),
        ),
        Call::Approve { auth, owner, spender, amount } => settled(
            s,
            approve_result(s, auth, owner, amount as int),
            approve_effect(s, owner, spender, amount as int),
        ),
        Call::TransferFrom { auth, spender, from, to, amount } => settled(
            s,
            transfer_from_result(s, auth, spender, from, to, amount as int),
            transfer_from_effect(s, spender, from, to, amount as int),
        ),
    }
}

/// The state after a series of calls on a new ledger.
pub open spec fn run(calls: Seq<Call>) -> LedgerState
    decreases calls.len(),
{
    if calls.len() == 0 {
        blank()
    } else {
        step(run(calls.drop_last()), calls.last())
    }
}

/// Moving an amount between two different holders leaves the sum of all
/// balances as it was, and keeps every balance positive and in range.
pub proof fn lemma_moved(balances: Map<Seq<char>, int>, from: Seq<char>, to: Seq<char>, amount: int)
    requires
        balances.dom().finite(),
        forall|a: Seq<char>| #[trigger] balances.contains_key(a) ==> 0 < balances[a] <= i128::MAX,
        from != to,
        0 < amount <= amount_of(balances, from),
        amount_of(balances, to) + amount <= i128::MAX,
    ensures
        moved(balances, from, to, amount).dom().finite(),
        map_sum(moved(balances, from, to, amount)) == map_sum(balances),
        forall|a: Seq<char>| #[trigger]
            moved(balances, from, to, amount).contains_key(a) ==> 0 < moved(
                balances,
                from,
                to,
                amount,
            )[a] <= i128::MAX,
{
    let rest = amount_of(balances, from) - amount;
    let debited = kept(balances, from, rest);
    if rest == 0 {
        lemma_sum_remove(balances, from);
    } else {
        lemma_sum_insert(balances, from, rest);
    }
    lemma_sum_insert(debited, to, amount_of(balances, to) + amount);
}

/// The supply invariant: one call on a consistent state leaves a consistent
/// state, so the balances still add up to the supply.
pub proof fn lemma_step_consistent(s: LedgerState, call: Call)
    requires
        consistent(s),
    ensures
        consistent(step(s, call)),
{
    match call {
        Call::Initialize { admin, name, symbol, decimals } => {},
        Call::Mint { auth, to, amount } => {
            if mint_result(s, auth, to, amount as int) is Ok {
                lemma_sum_insert(s.balances, to, balance_of(s, to) + amount);
            }
        },
        Call::Burn { auth, from, amount } => {
            if burn_result(s, auth, from, amount as int) is Ok {
                let rest = balance_of(s, from) - amount;
                if rest == 0 {
                    lemma_sum_remove(s.balances, from);
                } else {
                    lemma_sum_insert(s.balances, from, rest);
                }
            }
        },
        Call::Transfer { auth, from, to, amount } => {
            if transfer_result(s, auth, from, to, amount as int) is Ok {
                lemma_moved(s.balances, from, to, amount as int);
            }
        },
        Call::Approve { auth, owner, spender, amount } => {},
        Call::TransferFrom { auth, spender, from, to, amount } => {
            if transfer_from_result(s, auth, spender, from, to, amount as int) is Ok {
                lemma_moved(s.balances, from, to, amount as int);
            }
        },
    }
}

/// In every state that a series of calls reaches from a new ledger, the
/// balances add up to the supply.
pub proof fn lemma_reachable_consistent(calls: Seq<Call>)
    ensures
        consistent(run(calls)),
        map_sum(run(calls).balances) == run(calls).supply,
        run(calls).supply >= 0,
    decreases calls.len(),
{
    if calls.len() == 0 {
        assert(map_sum(blank().balances) == 0);
    } else {
        lemma_reachable_consistent(calls.drop_last());
        lemma_step_consistent(run(calls.drop_last()), calls.last());
    }
    lemma_sum_nonnegative(run(calls).balances);
}

/// Where the balances add up to the supply, moving or destroying what a
/// holder has cannot leave the range of amounts: a transfer, a delegated
/// transfer and a burn are never refused for overflow.
pub proof fn lemma_consistent_never_overflows(
    s: LedgerState,
    auth: Set<Seq<char>>,
    spender: Seq<char>,
    from: Seq<char>,
    to: Seq<char>,
    amount: int,
)
    requires
        consistent(s),
    ensures
        transfer_result(s, auth, from, to, amount) != Err::<(), TokenError>(
            TokenError::OverflowError,
        ),
        transfer_from_result(s, auth, spender, from, to, amount) != Err::<(), TokenError>(
            TokenError::OverflowError,
        ),
        burn_result(s, auth, from, amount) != Err::<(), TokenError>(TokenError::OverflowError),
{
    lemma_sum_covers(s.balances, from);
    if from != to {
        lemma_sum_covers_two(s.balances, from, to);
    }
}

/// The state after `owner` approved, one after the other, each of `amounts`
/// for `spender`.
pub open spec fn approved_in_turn(
    s: LedgerState,
    auth: Set<Seq<char>>,
    owner: Seq<char>,
    spender: Seq<char>,
    amounts: Seq<i128>,
) -> LedgerState
    decreases amounts.len(),
{
    if amounts.len() == 0 {
        s
    } else {
        step(
            approved_in_turn(s, auth, owner, spender, amounts.drop_last()),
            Call::Approve { auth, owner, spender, amount: amounts.last() },
        )
    }
}

/// Approvals of one owner for one spender touch no other allowance, no
/// balance and not the supply.
pub proof fn lemma_approvals_frame(
    s: LedgerState,
    auth: Set<Seq<char>>,
    owner: Seq<char>,
    spender: Seq<char>,
    amounts: Seq<i128>,
)
    ensures
        approved_in_turn(s, auth, owner, spender, amounts).allowances.remove((owner, spender))
            == s.allowances.remove((owner, spender)),
        approved_in_turn(s, auth, owner, spender, amounts).initialized == s.initialized,
        approved_in_turn(s, auth, owner, spender, amounts).balances == s.balances,
        approved_in_turn(s, auth, owner, spender, amounts).supply == s.supply,
    decreases amounts.len(),
{
    if amounts.len() > 0 {
        let before = approved_in_turn(s, auth, owner, spender, amounts.drop_last());
        lemma_approvals_frame(s, auth, owner, spender, amounts.drop_last());
        let after = approved_in_turn(s, auth, owner, spender, amounts);
        assert(after.allowances.remove((owner, spender)) =~= before.allowances.remove(
            (owner, spender),
        ));
    }
}

/// Revoking is final: once the owner approves zero, the spender's allowance is
/// zero and the table of allowances is what it would be had the owner never
/// approved anything for that spender, whatever was approved before.
pub proof fn lemma_revoke(
    s: LedgerState,
    auth: Set<Seq<char>>,
    owner: Seq<char>,
    spender: Seq<char>,
    amounts: Seq<i128>,
)
    requires
        s.initialized,
        auth.contains(owner),
    ensures
        ({
            let approved = approved_in_turn(s, auth, owner, spender, amounts);
            let revoked = step(approved, Call::Approve { auth, owner, spender, amount: 0 });
            &&& approve_result(approved, auth, owner, 0) is Ok
            &&& allowance_of(revoked, owner, spender) == 0
            &&& revoked.allowances == s.allowances.remove((owner, spender))
        }),
{
    lemma_approvals_frame(s, auth, owner, spender, amounts);
}

/// Minting and then burning the same amount restores the balances and the
/// supply: the burn is accepted, and both are what they were before the mint.
pub proof fn lemma_mint_then_burn(
    s: LedgerState,
    minter: Set<Seq<char>>,
    burner: Set<Seq<char>>,
    account: Seq<char>,
    amount: int,
)
    requires
        valid(s),
        mint_result(s, minter, account, amount) is Ok,
        burner.contains(account),
    ensures
        ({
            let minted = mint_effect(s, account, amount);
            let burned = burn_effect(minted, account, amount);
            &&& burn_result(minted, burner, account, amount) is Ok
            &&& balance_of(burned, account) == balance_of(s, account)
            &&& burned.supply == s.supply
            &&& burned.balances == s.balances
        }),
{
    let minted = mint_effect(s, account, amount);
    let burned = burn_effect(minted, account, amount);
    assert(burned.balances =~= s.balances);
}

/// A transfer moves value and creates none: the supply stays, what the two
/// parties hold together stays, and nobody else's balance changes.
pub proof fn lemma_transfer_conserves(
    s: LedgerState,
    auth: Set<Seq<char>>,
    from: Seq<char>,
    to: Seq<char>,
    amount: int,
)
    ensures
        ({
            let after = settled(
                s,
                transfer_result(s, auth, from, to, amount),
                transfer_effect(s, from, to, amount),
            );
            &&& after.supply == s.supply
            &&& balance_of(after, from) + balance_of(after, to) == balance_of(s, from)
                + balance_of(s, to)
            &&& forall|other: Seq<char>|
                other != from && other != to ==> balance_of(after, other) == balance_of(s, other)
        }),
{
}

/// A ledger is set up once: after a first `initialize` has succeeded, every
/// further one is refused as `AlreadyInitialized` and changes nothing.
pub proof fn lemma_initialize_once(
    s: LedgerState,
    first: Call,
    second: Call,
)
    requires
        first is Initialize,
        second is Initialize,
        initialize_result(
            s,
            first->Initialize_name,
            first->Initialize_symbol,
            first->Initialize_decimals,
        ) is Ok,
    ensures
        initialize_result(
            step(s, first),
            second->Initialize_name,
            second->Initialize_symbol,
            second->Initialize_decimals,
        ) == Err::<(), TokenError>(TokenError::AlreadyInitialized),
        step(step(s, first), second) == step(s, first),
{
}

/// The refusals at the edges: minting zero is an invalid amount; a transfer to
/// oneself is an invalid recipient; burning one more than one holds is an
/// insufficient balance. None of them changes the state.
pub proof fn lemma_boundaries(s: LedgerState, auth: Set<Seq<char>>, account: Seq<char>, amount: i128)
    requires
        valid(s),
        s.initialized,
        s.admin is Some,
        auth.contains(account),
        auth.contains(s.admin->Some_0),
        amount > 0,
    ensures
        mint_result(s, auth, account, 0) == Err::<(), TokenError>(TokenError::InvalidAmount),
        transfer_result(s, auth, account, account, amount as int) == Err::<(), TokenError>(
            TokenError::InvalidRecipient,
        ),
        burn_result(s, auth, account, balance_of(s, account) + 1) == Err::<(), TokenError>(
            TokenError::InsufficientBalance,
        ),
        step(s, Call::Mint { auth, to: account, amount: 0 }) == s,
        step(s, Call::Transfer { auth, from: account, to: account, amount }) == s,
        balance_of(s, account) < i128::MAX ==> step(
            s,
            Call::Burn { auth, from: account, amount: (balance_of(s, account) + 1) as i128 },
        ) == s,
{
}

} // verus!

//! Laws of the ledger: facts that hold of every state and every record,
//! proved once and for all over the engine's transition functions.

use vstd::prelude::*;

use crate::engine::{
    account_or_new, dispute_allowed, empty_ledger, settle_allowed, spec_process, LedgerView,
};
use crate::types::{RecordView, TransactionType};

verus! {

/// Whether a record is accepted at state `s`: it passes every
/// precondition of its handler, so applying it mutates balances or
/// dispute state. A record that is not accepted is silently dropped
/// (though a rejected funds move may still create the referenced
/// account, empty and unlocked).
pub open spec fn accepted(s: LedgerView, r: RecordView) -> bool {
    match r.tx_type {
        TransactionType::Deposit => deposit_accepted(s, r),
        TransactionType::Withdrawal => withdrawal_accepted(s, r),
        TransactionType::Dispute => dispute_allowed(s, r.client, r.tx),
        TransactionType::Resolve => settle_allowed(s, r.client, r.tx),
        TransactionType::Chargeback => settle_allowed(s, r.client, r.tx),
    }
}

/// A deposit is accepted when an amount is present (absent and
/// non-positive amounts both read as `None`) and the account is not locked.
pub open spec fn deposit_accepted(s: LedgerView, r: RecordView) -> bool {
    &&& r.tx_type is Deposit
    &&& r.amount is Some
    &&& !account_or_new(s, r.client).locked
}

/// A withdrawal is accepted when an amount is present, the account is not
/// locked, and `available` covers the amount.
pub open spec fn withdrawal_accepted(s: LedgerView, r: RecordView) -> bool {
    &&& r.tx_type is Withdrawal
    &&& r.amount is Some
    &&& !account_or_new(s, r.client).locked
    &&& account_or_new(s, r.client).available >= r.amount->0
}

/// Applying a record once more cannot change anything a rejected
/// application has already settled: processing the same record again
/// yields exactly the state the first (rejected) application produced.
pub proof fn lemma_rejection_idempotent(s: LedgerView, r: RecordView)
    requires
        !accepted(s, r),
    ensures
        !accepted(spec_process(s, r), r),
        spec_process(spec_process(s, r), r) == spec_process(s, r),
{
    let s1 = spec_process(s, r);
    match r.tx_type {
        TransactionType::Withdrawal => {
            if r.amount is Some && !account_or_new(s, r.client).locked {
                assert(account_or_new(s1, r.client) == account_or_new(s, r.client));
                assert(spec_process(s1, r) =~= s1);
            }
        },
        _ => {},
    }
}

/// A rejected record can be reapplied any number of times: every
/// application beyond the first leaves the state exactly as the first
/// one left it.
pub open spec fn spec_process_n(s: LedgerView, r: RecordView, n: nat) -> LedgerView
    decreases n,
{
    if n == 0 {
        s
    } else {
        spec_process(spec_process_n(s, r, (n - 1) as nat), r)
    }
}

pub proof fn lemma_rejection_idempotent_n(s: LedgerView, r: RecordView, n: nat)
    requires
        !accepted(s, r),
        n >= 1,
    ensures
        spec_process_n(s, r, n) == spec_process(s, r),
    decreases n,
{
    if n == 1 {
        assert(spec_process_n(s, r, 0nat) == s);
    } else {
        lemma_rejection_idempotent_n(s, r, (n - 1) as nat);
        lemma_rejection_idempotent(s, r);
    }
}

/// A dispute record aimed at transaction `t` by client `c`.
pub open spec fn dispute_record(c: u16, t: u32) -> RecordView {
    RecordView { tx_type: TransactionType::Dispute, client: c, tx: t, amount: Option::None }
}

/// A resolve record aimed at transaction `t` by client `c`.
pub open spec fn resolve_record(c: u16, t: u32) -> RecordView {
    RecordView { tx_type: TransactionType::Resolve, client: c, tx: t, amount: Option::None }
}

/// A chargeback record aimed at transaction `t` by client `c`.
pub open spec fn chargeback_record(c: u16, t: u32) -> RecordView {
    RecordView { tx_type: TransactionType::Chargeback, client: c, tx: t, amount: Option::None }
}

/// Disputing a deposit and then resolving it restores `available` and
/// `held` — in fact the whole ledger, up to the lazy creation of the
/// client's account — to their pre-dispute values exactly, provided
/// neither move saturates (the disputed amount must not drive `available`
/// below or `held` above the representable range).
pub proof fn lemma_dispute_resolve_restores(s: LedgerView, c: u16, t: u32)
    requires
        dispute_allowed(s, c, t),
        i64::MIN <= account_or_new(s, c).available - s.txs[t].amount <= i64::MAX,
        i64::MIN <= account_or_new(s, c).held + s.txs[t].amount <= i64::MAX,
    ensures
        spec_process(spec_process(s, dispute_record(c, t)), resolve_record(c, t)) == (LedgerView {
            accounts: s.accounts.insert(c, account_or_new(s, c)),
            txs: s.txs,
        }),
        s.accounts.contains_key(c) ==> spec_process(
            spec_process(s, dispute_record(c, t)),
            resolve_record(c, t),
        ) == s,
{
    let st = s.txs[t];
    let a0 = account_or_new(s, c);
    let s1 = spec_process(s, dispute_record(c, t));
    let a1 = account_or_new(s1, c);
    assert(a1.available == a0.available - st.amount && a1.held == a0.held + st.amount);
    assert(settle_allowed(s1, c, t));
    let s2 = spec_process(s1, resolve_record(c, t));
    assert(account_or_new(s2, c) == a0);
    assert(s2.accounts =~= s.accounts.insert(c, account_or_new(s, c)));
    assert(s2.txs =~= s.txs);
    if s.accounts.contains_key(c) {
        assert(s2.accounts =~= s.accounts);
        assert(s2 =~= s);
    }
}

/// Chargeback is terminal: once a stored deposit is charged back, every
/// later dispute, resolve or chargeback aimed at it — by any client — is
/// rejected and leaves the state exactly unchanged.
pub proof fn lemma_chargeback_is_terminal(s: LedgerView, r: RecordView, t: u32)
    requires
        s.txs.contains_key(t),
        s.txs[t].dispute_state is ChargedBack,
        r.tx == t,
        r.tx_type is Dispute || r.tx_type is Resolve || r.tx_type is Chargeback,
    ensures
        spec_process(s, r) == s,
{
}

/// A successful chargeback leaves the deposit charged back and the
/// account locked.
pub proof fn lemma_chargeback_outcome(s: LedgerView, c: u16, t: u32)
    requires
        settle_allowed(s, c, t),
    ensures
        spec_process(s, chargeback_record(c, t)).txs[t].dispute_state is ChargedBack,
        account_or_new(spec_process(s, chargeback_record(c, t)), c).locked,
{
}

/// The charged-back state survives any later record except a deposit
/// that reuses the same transaction id (input streams are assumed not to
/// reuse ids; the engine does not special-case a duplicate).
pub proof fn lemma_chargeback_persists(s: LedgerView, r: RecordView, t: u32)
    requires
        s.txs.contains_key(t),
        s.txs[t].dispute_state is ChargedBack,
        !(r.tx_type is Deposit && r.tx == t),
    ensures
        spec_process(s, r).txs.contains_key(t),
        spec_process(s, r).txs[t].dispute_state is ChargedBack,
{
}

/// A whole run of records: apply each in order.
pub open spec fn run(s: LedgerView, rs: Seq<RecordView>) -> LedgerView
    decreases rs.len(),
{
    if rs.len() == 0 {
        s
    } else {
        run(spec_process(s, rs[0]), rs.skip(1))
    }
}

/// Over a whole run: as long as no deposit reuses the transaction id, a
/// charged-back deposit stays charged back.
pub proof fn lemma_chargeback_terminal_trace(s: LedgerView, rs: Seq<RecordView>, t: u32)
    requires
        s.txs.contains_key(t),
        s.txs[t].dispute_state is ChargedBack,
        forall|i: int|
            0 <= i < rs.len() ==> !((#[trigger] rs[i]).tx_type is Deposit && rs[i].tx == t),
    ensures
        run(s, rs).txs.contains_key(t),
        run(s, rs).txs[t].dispute_state is ChargedBack,
    decreases rs.len(),
{
    if rs.len() > 0 {
        lemma_chargeback_persists(s, rs[0], t);
        lemma_chargeback_terminal_trace(spec_process(s, rs[0]), rs.skip(1), t);
    }
}

/// A locked account rejects every deposit and withdrawal outright — no
/// funds move, no record is stored, and the state is exactly unchanged.
pub proof fn lemma_locked_rejects_funds_moves(s: LedgerView, r: RecordView)
    requires
        account_or_new(s, r.client).locked,
        r.tx_type is Deposit || r.tx_type is Withdrawal,
    ensures
        spec_process(s, r) == s,
{
}

/// A lock is permanent: no record ever unlocks an account.
pub proof fn lemma_lock_persists(s: LedgerView, r: RecordView, c: u16)
    requires
        account_or_new(s, c).locked,
    ensures
        account_or_new(spec_process(s, r), c).locked,
{
}

/// Whether a dispute, resolve or chargeback is accepted depends only on
/// the stored deposits, never on the accounts — so a locked account's
/// other transactions continue to be evaluated by the normal
/// state-machine rules.
pub proof fn lemma_dispute_lifecycle_ignores_accounts(s1: LedgerView, s2: LedgerView, c: u16, t: u32)
    requires
        s1.txs == s2.txs,
    ensures
        dispute_allowed(s1, c, t) == dispute_allowed(s2, c, t),
        settle_allowed(s1, c, t) == settle_allowed(s2, c, t),
{
}

/// A client's total funds, `available + held`, as an unbounded integer.
/// A client with no account yet has total zero.
pub open spec fn total_int(s: LedgerView, c: u16) -> int {
    account_or_new(s, c).available + account_or_new(s, c).held
}

/// A record's amount, where present, is non-negative. Every record the
/// engine actually reads satisfies this: absent and non-positive decimal
/// amounts both read as `None`, and the fixed-point conversion of a
/// positive decimal is non-negative.
pub open spec fn record_wf(r: RecordView) -> bool {
    r.amount is Some ==> r.amount->0 >= 0
}

/// The step touching client `c` stays within the representable range, so
/// none of its saturating operations clamps.
pub open spec fn step_in_range_for(s: LedgerView, r: RecordView, c: u16) -> bool {
    r.client == c ==> {
        let acct = account_or_new(s, r.client);
        match r.tx_type {
            TransactionType::Deposit => deposit_accepted(s, r) ==> acct.available + r.amount->0
                <= i64::MAX,
            TransactionType::Withdrawal => true,
            TransactionType::Dispute => dispute_allowed(s, r.client, r.tx) ==> {
                let amt = s.txs[r.tx].amount;
                &&& i64::MIN <= acct.available - amt <= i64::MAX
                &&& i64::MIN <= acct.held + amt <= i64::MAX
            },
            TransactionType::Resolve => settle_allowed(s, r.client, r.tx) ==> {
                let amt = s.txs[r.tx].amount;
                &&& i64::MIN <= acct.available + amt <= i64::MAX
                &&& i64::MIN <= acct.held - amt <= i64::MAX
            },
            TransactionType::Chargeback => true,
        }
    }
}

/// What an accepted deposit for client `c` adds to the total.
pub open spec fn deposit_gain(s: LedgerView, r: RecordView, c: u16) -> int {
    if r.client == c && deposit_accepted(s, r) {
        r.amount->0 as int
    } else {
        0
    }
}

/// What an accepted withdrawal for client `c` takes from the total.
pub open spec fn withdrawal_loss(s: LedgerView, r: RecordView, c: u16) -> int {
    if r.client == c && withdrawal_accepted(s, r) {
        r.amount->0 as int
    } else {
        0
    }
}

/// The sum of the amounts of the accepted deposits for client `c` along a
/// run.
pub open spec fn deposits_sum(s: LedgerView, rs: Seq<RecordView>, c: u16) -> int
    decreases rs.len(),
{
    if rs.len() == 0 {
        0
    } else {
        deposit_gain(s, rs[0], c) + deposits_sum(spec_process(s, rs[0]), rs.skip(1), c)
    }
}

/// The sum of the amounts of the accepted withdrawals for client `c`
/// along a run.
pub open spec fn withdrawals_sum(s: LedgerView, rs: Seq<RecordView>, c: u16) -> int
    decreases rs.len(),
{
    if rs.len() == 0 {
        0
    } else {
        withdrawal_loss(s, rs[0], c) + withdrawals_sum(spec_process(s, rs[0]), rs.skip(1), c)
    }
}

/// No chargeback for client `c` is accepted anywhere along the run.
pub open spec fn chargeback_free(s: LedgerView, rs: Seq<RecordView>, c: u16) -> bool
    decreases rs.len(),
{
    rs.len() == 0 || {
        &&& !(rs[0].client == c && rs[0].tx_type is Chargeback && settle_allowed(
            s,
            rs[0].client,
            rs[0].tx,
        ))
        &&& chargeback_free(spec_process(s, rs[0]), rs.skip(1), c)
    }
}

/// Every record of the run is well-formed and every step touching `c`
/// stays within the representable range.
pub open spec fn trace_in_range_for(s: LedgerView, rs: Seq<RecordView>, c: u16) -> bool
    decreases rs.len(),
{
    rs.len() == 0 || {
        &&& record_wf(rs[0])
        &&& step_in_range_for(s, rs[0], c)
        &&& trace_in_range_for(spec_process(s, rs[0]), rs.skip(1), c)
    }
}

/// One step of conservation: barring an accepted chargeback for `c`, a
/// step within range moves `c`'s total by exactly its accepted deposit
/// amount minus its accepted withdrawal amount — disputes and resolves
/// only move funds between `available` and `held`.
pub proof fn lemma_step_total(s: LedgerView, r: RecordView, c: u16)
    requires
        record_wf(r),
        step_in_range_for(s, r, c),
        !(r.client == c && r.tx_type is Chargeback && settle_allowed(s, r.client, r.tx)),
    ensures
        total_int(spec_process(s, r), c) == total_int(s, c) + deposit_gain(s, r, c)
            - withdrawal_loss(s, r, c),
{
}

/// Funds are conserved along a run, from any starting state.
pub proof fn lemma_conservation_trace(s: LedgerView, rs: Seq<RecordView>, c: u16)
    requires
        trace_in_range_for(s, rs, c),
        chargeback_free(s, rs, c),
    ensures
        total_int(run(s, rs), c) == total_int(s, c) + deposits_sum(s, rs, c) - withdrawals_sum(
            s,
            rs,
            c,
        ),
    decreases rs.len(),
{
    if rs.len() > 0 {
        lemma_step_total(s, rs[0], c);
        lemma_conservation_trace(spec_process(s, rs[0]), rs.skip(1), c);
    }
}

/// For any run from the initial state in which no chargeback for client
/// `c` is accepted and no step for `c` saturates, the client's final
/// total equals the sum of its accepted deposit amounts minus the sum of
/// its accepted withdrawal amounts — however many dispute/resolve cycles
/// occurred in between.
pub proof fn lemma_conservation(rs: Seq<RecordView>, c: u16)
    requires
        trace_in_range_for(empty_ledger(), rs, c),
        chargeback_free(empty_ledger(), rs, c),
    ensures
        total_int(run(empty_ledger(), rs), c) == deposits_sum(empty_ledger(), rs, c)
            - withdrawals_sum(empty_ledger(), rs, c),
{
    lemma_conservation_trace(empty_ledger(), rs, c);
}

} // verus!

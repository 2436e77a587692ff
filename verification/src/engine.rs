//! The ledger engine: per-client accounts, stored deposits with their
//! dispute state, and one `process` step per input record. Every rejection
//! is silent; the state after each step is pinned down exactly by the
//! `spec_*` transition functions below.

use std::collections::HashMap;
use vstd::prelude::*;

use crate::fixed::{decimal_is_positive, sat_add, sat_sub, spec_sat_add, spec_sat_sub, to_fixed};
use crate::types::{
    Account, AccountOutput, DisputeState, RecordView, StoredTransaction, Transaction,
    TransactionType,
};

verus! {

broadcast use vstd::std_specs::hash::group_hash_axioms;

/// The engine's whole state as mathematical maps: accounts by client id,
/// stored deposits by transaction id.
#[verifier::ext_equal]
pub struct LedgerView {
    pub accounts: Map<u16, Account>,
    pub txs: Map<u32, StoredTransaction>,
}

/// The state of a newly constructed engine: no accounts, no stored deposits.
pub open spec fn empty_ledger() -> LedgerView {
    LedgerView { accounts: Map::empty(), txs: Map::empty() }
}

/// The account of `client`, or a fresh zero account where none exists yet
/// (accounts are created lazily on first reference).
pub open spec fn account_or_new(s: LedgerView, client: u16) -> Account {
    if s.accounts.contains_key(client) {
        s.accounts[client]
    } else {
        Account { available: 0, held: 0, locked: false }
    }
}

/// One deposit step. `amount` is the record's amount as the engine reads
/// it (`None` when absent or non-positive, which is rejected). A locked
/// account rejects the deposit; otherwise the amount is added to
/// `available` (saturating) and the deposit is stored, ready to be
/// disputed, overwriting any stored record with the same transaction id.
pub open spec fn spec_deposit(s: LedgerView, client: u16, txid: u32, amount: Option<i64>) -> LedgerView {
    match amount {
        Option::None => s,
        Option::Some(amt) => {
            let acct = account_or_new(s, client);
            if acct.locked {
                s
            } else {
                LedgerView {
                    accounts: s.accounts.insert(
                        client,
                        Account {
                            available: spec_sat_add(acct.available as int, amt as int) as i64,
                            held: acct.held,
                            locked: acct.locked,
                        },
                    ),
                    txs: s.txs.insert(
                        txid,
                        StoredTransaction {
                            client,
                            amount: amt,
                            dispute_state: DisputeState::Undisputed,
                        },
                    ),
                }
            }
        },
    }
}

/// One withdrawal step. Rejected when the amount is absent or
/// non-positive, when the account is locked, or when `available` is
/// strictly less than the amount; the account is still created lazily in
/// the insufficient-funds case, as any referenced account is. Withdrawals
/// are never stored, so they can never be disputed.
pub open spec fn spec_withdrawal(s: LedgerView, client: u16, amount: Option<i64>) -> LedgerView {
    match amount {
        Option::None => s,
        Option::Some(amt) => {
            let acct = account_or_new(s, client);
            if acct.locked {
                s
            } else if acct.available >= amt {
                LedgerView {
                    accounts: s.accounts.insert(
                        client,
                        Account {
                            available: spec_sat_sub(acct.available as int, amt as int) as i64,
                            held: acct.held,
                            locked: acct.locked,
                        },
                    ),
                    txs: s.txs,
                }
            } else {
                LedgerView { accounts: s.accounts.insert(client, acct), txs: s.txs }
            }
        },
    }
}

/// Whether a dispute of transaction `txid` by `client` is accepted: the
/// stored deposit exists, belongs to that client, and is currently
/// undisputed. A locked account does not block disputes.
pub open spec fn dispute_allowed(s: LedgerView, client: u16, txid: u32) -> bool {
    &&& s.txs.contains_key(txid)
    &&& s.txs[txid].client == client
    &&& s.txs[txid].dispute_state is Undisputed
}

/// One dispute step: the deposit becomes `Disputed`, and its amount moves
/// from `available` to `held` (both saturating).
pub open spec fn spec_dispute(s: LedgerView, client: u16, txid: u32) -> LedgerView {
    if dispute_allowed(s, client, txid) {
        let stored = s.txs[txid];
        let acct = account_or_new(s, client);
        LedgerView {
            accounts: s.accounts.insert(
                client,
                Account {
                    available: spec_sat_sub(acct.available as int, stored.amount as int) as i64,
                    held: spec_sat_add(acct.held as int, stored.amount as int) as i64,
                    locked: acct.locked,
                },
            ),
            txs: s.txs.insert(
                txid,
                StoredTransaction { dispute_state: DisputeState::Disputed, ..stored },
            ),
        }
    } else {
        s
    }
}

/// Whether a resolve or chargeback of transaction `txid` by `client` is
/// accepted: the stored deposit exists, belongs to that client, and is
/// currently disputed. A locked account does not block either.
pub open spec fn settle_allowed(s: LedgerView, client: u16, txid: u32) -> bool {
    &&& s.txs.contains_key(txid)
    &&& s.txs[txid].client == client
    &&& s.txs[txid].dispute_state is Disputed
}

/// One resolve step: the deposit returns to `Undisputed` (it may be
/// disputed again later), and its amount moves back from `held` to
/// `available` (both saturating).
pub open spec fn spec_resolve(s: LedgerView, client: u16, txid: u32) -> LedgerView {
    if settle_allowed(s, client, txid) {
        let stored = s.txs[txid];
        let acct = account_or_new(s, client);
        LedgerView {
            accounts: s.accounts.insert(
                client,
                Account {
                    available: spec_sat_add(acct.available as int, stored.amount as int) as i64,
                    held: spec_sat_sub(acct.held as int, stored.amount as int) as i64,
                    locked: acct.locked,
                },
            ),
            txs: s.txs.insert(
                txid,
                StoredTransaction { dispute_state: DisputeState::Undisputed, ..stored },
            ),
        }
    } else {
        s
    }
}

/// One chargeback step: the deposit becomes `ChargedBack` (terminal), its
/// amount leaves `held` (saturating), and the account is locked for good.
pub open spec fn spec_chargeback(s: LedgerView, client: u16, txid: u32) -> LedgerView {
    if settle_allowed(s, client, txid) {
        let stored = s.txs[txid];
        let acct = account_or_new(s, client);
        LedgerView {
            accounts: s.accounts.insert(
                client,
                Account {
                    available: acct.available,
                    held: spec_sat_sub(acct.held as int, stored.amount as int) as i64,
                    locked: true,
                },
            ),
            txs: s.txs.insert(
                txid,
                StoredTransaction { dispute_state: DisputeState::ChargedBack, ..stored },
            ),
        }
    } else {
        s
    }
}

/// One engine step: dispatch on the record's type.
pub open spec fn spec_process(s: LedgerView, r: RecordView) -> LedgerView {
    match r.tx_type {
        TransactionType::Deposit => spec_deposit(s, r.client, r.tx, r.amount),
        TransactionType::Withdrawal => spec_withdrawal(s, r.client, r.amount),
        TransactionType::Dispute => spec_dispute(s, r.client, r.tx),
        TransactionType::Resolve => spec_resolve(s, r.client, r.tx),
        TransactionType::Chargeback => spec_chargeback(s, r.client, r.tx),
    }
}

/// The snapshot row for one account.
pub open spec fn spec_account_output(client: u16, acct: Account) -> AccountOutput {
    AccountOutput {
        client,
        available: acct.available,
        held: acct.held,
        total: spec_sat_add(acct.available as int, acct.held as int) as i64,
        locked: acct.locked,
    }
}

/// The transaction-processing engine. It owns all mutable state; the
/// snapshot returns owned copies, never references into it.
pub struct Engine {
    accounts: HashMap<u16, Account>,
    clients: Vec<u16>,
    transactions: HashMap<u32, StoredTransaction>,
}

impl View for Engine {
    type V = LedgerView;

    closed spec fn view(&self) -> LedgerView {
        LedgerView { accounts: self.accounts@, txs: self.transactions@ }
    }
}

impl Engine {
    /// The engine's internal bookkeeping is sound: `clients` lists each
    /// known client id exactly once.
    pub closed spec fn wf(&self) -> bool {
        &&& self.clients@.no_duplicates()
        &&& forall|c: u16| self.accounts@.contains_key(c) <==> self.clients@.contains(c)
    }

    /// A fresh engine with no accounts and no stored deposits.
    pub fn new() -> (r: Engine)
        ensures
            r.wf(),
            r@ == empty_ledger(),
    {
        let r = Engine {
            accounts: HashMap::new(),
            clients: Vec::new(),
            transactions: HashMap::new(),
        };
        proof {
            assert(r@ =~= empty_ledger());
        }
        r
    }

    /// The account of `client` as currently recorded, or a fresh zero
    /// account where none exists.
    fn account_or_new(&self, client: u16) -> (r: Account)
        ensures
            r == account_or_new(self@, client),
    {
        match self.accounts.get(&client) {
            Some(a) => *a,
            None => Account { available: 0, held: 0, locked: false },
        }
    }

    /// Record `acct` under `client`, creating the account if it is new.
    fn upsert_account(&mut self, client: u16, acct: Account)
        requires
            old(self).wf(),
        ensures
            final(self).wf(),
            final(self)@.accounts == old(self)@.accounts.insert(client, acct),
            final(self)@.txs == old(self)@.txs,
    {
        let present = self.accounts.contains_key(&client);
        if !present {
            self.clients.push(client);
        }
        self.accounts.insert(client, acct);
        proof {
            broadcast use vstd::seq_lib::lemma_seq_contains_after_push;

            let s0 = old(self).clients@;
            let s1 = self.clients@;
            if !present {
                assert(s1 == s0.push(client));
                assert(!s0.contains(client));
                assert forall|i: int, j: int| 0 <= i < j < s1.len() implies s1[i] != s1[j] by {
                    if j == s1.len() - 1 {
                        assert(s0.contains(s0[i]));
                    }
                }
            }
        }
    }

    /// Apply a deposit record; see `spec_deposit` for the exact effect.
    fn deposit(&mut self, tx: Transaction)
        requires
            old(self).wf(),
        ensures
            final(self).wf(),
            final(self)@ == spec_deposit(
                old(self)@,
                tx.client,
                tx.tx,
                crate::types::amount_view(tx.amount),
            ),
    {
        let decimal_amount = match tx.amount {
            Some(d) => d,
            None => {
                return ;
            },
        };
        if !decimal_is_positive(&decimal_amount) {
            return ;
        }
        let amount = to_fixed(decimal_amount);
        let acct = self.account_or_new(tx.client);
        if acct.locked {
            return ;
        }
        let updated = Account {
            available: sat_add(acct.available, amount),
            held: acct.held,
            locked: acct.locked,
        };
        self.upsert_account(tx.client, updated);
        self.transactions.insert(
            tx.tx,
            StoredTransaction {
                client: tx.client,
                amount,
                dispute_state: DisputeState::Undisputed,
            },
        );
        proof {
            assert(self@ =~= spec_deposit(
                old(self)@,
                tx.client,
                tx.tx,
                crate::types::amount_view(tx.amount),
            ));
        }
    }

    /// Apply a withdrawal record; see `spec_withdrawal` for the exact effect.
    fn withdrawal(&mut self, tx: Transaction)
        requires
            old(self).wf(),
        ensures
            final(self).wf(),
            final(self)@ == spec_withdrawal(
                old(self)@,
                tx.client,
                crate::types::amount_view(tx.amount),
            ),
    {
        let decimal_amount = match tx.amount {
            Some(d) => d,
            None => {
                return ;
            },
        };
        if !decimal_is_positive(&decimal_amount) {
            return ;
        }
        let amount = to_fixed(decimal_amount);
        let acct = self.account_or_new(tx.client);
        if acct.locked {
            return ;
        }
        if acct.available >= amount {
            let updated = Account {
                available: sat_sub(acct.available, amount),
                held: acct.held,
                locked: acct.locked,
            };
            self.upsert_account(tx.client, updated);
        } else {
            self.upsert_account(tx.client, acct);
        }
        proof {
            assert(self@ =~= spec_withdrawal(
                old(self)@,
                tx.client,
                crate::types::amount_view(tx.amount),
            ));
        }
    }

    /// Apply a dispute record; see `spec_dispute` for the exact effect.
    /// Only stored deposits can be disputed, and only while undisputed; a
    /// locked account does not block the dispute.
    fn dispute(&mut self, tx: Transaction)
        requires
            old(self).wf(),
        ensures
            final(self).wf(),
            final(self)@ == spec_dispute(old(self)@, tx.client, tx.tx),
    {
        let stored = match self.transactions.get(&tx.tx) {
            Some(st) => *st,
            None => {
                return ;
            },
        };
        if stored.client != tx.client || stored.dispute_state != DisputeState::Undisputed {
            return ;
        }
        let acct = self.account_or_new(tx.client);
        let updated = Account {
            available: sat_sub(acct.available, stored.amount),
            held: sat_add(acct.held, stored.amount),
            locked: acct.locked,
        };
        self.upsert_account(tx.client, updated);
        self.transactions.insert(
            tx.tx,
            StoredTransaction { dispute_state: DisputeState::Disputed, ..stored },
        );
        proof {
            assert(self@ =~= spec_dispute(old(self)@, tx.client, tx.tx));
        }
    }

    /// Apply a resolve record; see `spec_resolve` for the exact effect.
    /// The deposit returns to good standing and may be disputed again.
    fn resolve(&mut self, tx: Transaction)
        requires
            old(self).wf(),
        ensures
            final(self).wf(),
            final(self)@ == spec_resolve(old(self)@, tx.client, tx.tx),
    {
        let stored = match self.transactions.get(&tx.tx) {
            Some(st) => *st,
            None => {
                return ;
            },
        };
        if stored.client != tx.client || stored.dispute_state != DisputeState::Disputed {
            return ;
        }
        let acct = self.account_or_new(tx.client);
        let updated = Account {
            available: sat_add(acct.available, stored.amount),
            held: sat_sub(acct.held, stored.amount),
            locked: acct.locked,
        };
        self.upsert_account(tx.client, updated);
        self.transactions.insert(
            tx.tx,
            StoredTransaction { dispute_state: DisputeState::Undisputed, ..stored },
        );
        proof {
            assert(self@ =~= spec_resolve(old(self)@, tx.client, tx.tx));
        }
    }

    /// Apply a chargeback record; see `spec_chargeback` for the exact
    /// effect. The deposit's dispute state becomes terminal and the
    /// account is locked for good.
    fn chargeback(&mut self, tx: Transaction)
        requires
            old(self).wf(),
        ensures
            final(self).wf(),
            final(self)@ == spec_chargeback(old(self)@, tx.client, tx.tx),
    {
        let stored = match self.transactions.get(&tx.tx) {
            Some(st) => *st,
            None => {
                return ;
            },
        };
        if stored.client != tx.client || stored.dispute_state != DisputeState::Disputed {
            return ;
        }
        let acct = self.account_or_new(tx.client);
        let updated = Account {
            available: acct.available,
            held: sat_sub(acct.held, stored.amount),
            locked: true,
        };
        self.upsert_account(tx.client, updated);
        self.transactions.insert(
            tx.tx,
            StoredTransaction { dispute_state: DisputeState::ChargedBack, ..stored },
        );
        proof {
            assert(self@ =~= spec_chargeback(old(self)@, tx.client, tx.tx));
        }
    }

    /// Apply one input record. All rejection is silent: a record that
    /// fails any precondition leaves the state unchanged, and nothing is
    /// reported to the caller. The new state is exactly
    /// `spec_process(old(self)@, tx@)`.
    pub fn process(&mut self, tx: Transaction)
        requires
            old(self).wf(),
        ensures
            final(self).wf(),
            final(self)@ == spec_process(old(self)@, tx@),
    {
        match tx.tx_type {
            TransactionType::Deposit => self.deposit(tx),
            TransactionType::Withdrawal => self.withdrawal(tx),
            TransactionType::Dispute => self.dispute(tx),
            TransactionType::Resolve => self.resolve(tx),
            TransactionType::Chargeback => self.chargeback(tx),
        }
    }

    /// The final balance snapshot: one row per known client, in no
    /// promised order, each an owned copy with the derived total.
    pub fn output(&self) -> (r: Vec<AccountOutput>)
        requires
            self.wf(),
        ensures
            r@.len() == self@.accounts.dom().len(),
            forall|i: int|
                0 <= i < r@.len() ==> self@.accounts.contains_key(#[trigger] r@[i].client)
                    && r@[i] == spec_account_output(r@[i].client, self@.accounts[r@[i].client]),
            forall|i: int, j: int| 0 <= i < j < r@.len() ==> r@[i].client != r@[j].client,
            forall|c: u16|
                #[trigger] self@.accounts.contains_key(c) ==> exists|i: int|
                    0 <= i < r@.len() && r@[i].client == c,
    {
        let mut out: Vec<AccountOutput> = Vec::new();
        let n = self.clients.len();
        let mut idx: usize = 0;
        while idx < n
            invariant
                self.wf(),
                n == self.clients@.len(),
                idx <= n,
                out@.len() == idx,
                forall|k: int|
                    0 <= k < idx ==> (#[trigger] out@[k]).client == self.clients@[k]
                        && self@.accounts.contains_key(self.clients@[k]) && out@[k]
                        == spec_account_output(self.clients@[k], self@.accounts[self.clients@[k]]),
            decreases n - idx,
        {
            let c = self.clients[idx];
            proof {
                assert(self.clients@.contains(c));
            }
            let acct = match self.accounts.get(&c) {
                Some(a) => *a,
                None => Account { available: 0, held: 0, locked: false },
            };
            proof {
                assert(acct == self@.accounts[c]);
            }
            out.push(
                AccountOutput {
                    client: c,
                    available: acct.available,
                    held: acct.held,
                    total: sat_add(acct.available, acct.held),
                    locked: acct.locked,
                },
            );
            idx += 1;
        }
        proof {
            let cl = self.clients@;
            cl.unique_seq_to_set();
            assert(cl.to_set() =~= self@.accounts.dom());
            assert forall|i: int, j: int| 0 <= i < j < out@.len() implies out@[i].client
                != out@[j].client by {
                assert(out@[i].client == cl[i] && out@[j].client == cl[j]);
            }
            assert forall|c: u16| self@.accounts.contains_key(c) implies exists|i: int|
                0 <= i < out@.len() && out@[i].client == c by {
                assert(cl.contains(c));
                let k = choose|k: int| 0 <= k < cl.len() && cl[k] == c;
                assert(out@[k].client == c);
            }
        }
        out
    }
}

impl Default for Engine {
    /// Same as `Engine::new`.
    fn default() -> (r: Engine)
        ensures
            r.wf(),
            r@ == empty_ledger(),
    {
        Engine::new()
    }
}

} // verus!

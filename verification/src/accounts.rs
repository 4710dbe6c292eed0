//! Account state: per-sender nonces with atomic block application.
//!
//! A transaction is accepted only with `nonce == account nonce + 1`,
//! and applying a block advances the nonces it touched, so a committed
//! block can never be applied twice: replay protection falls out of
//! the nonce discipline.

use vstd::prelude::*;
use vstd::string::*;
use crate::block::Block;
use crate::consensus::ConsensusError;
use crate::transaction::Transaction;

verus! {

/// One account's replay counter.
#[derive(Clone, Debug)]
pub struct AccountEntry {
    /// Account address.
    pub address: String,
    /// Last accepted nonce.
    pub nonce: u64,
}

/// The account store: one entry per address.
pub struct AccountState {
    /// The stored entries.
    pub accounts: Vec<AccountEntry>,
}

/// A store is well-formed when no address occurs twice.
pub open spec fn spec_accounts_wf(s: &AccountState) -> bool {
    forall|i: int, j: int|
        0 <= i < j < s.accounts@.len() ==> #[trigger] s.accounts@[i].address@
            != #[trigger] s.accounts@[j].address@
}

/// The abstract view of the store: a map from address to nonce.
pub open spec fn spec_state_map(s: Seq<AccountEntry>) -> Map<Seq<char>, u64>
    decreases s.len(),
{
    if s.len() == 0 {
        Map::empty()
    } else {
        spec_state_map(s.drop_last()).insert(s.last().address@, s.last().nonce)
    }
}

/// The nonce of an address: its stored value, or zero when unknown.
pub open spec fn spec_nonce(m: Map<Seq<char>, u64>, a: Seq<char>) -> int {
    if m.dom().contains(a) {
        m[a] as int
    } else {
        0
    }
}

/// Whether a batch of transactions applies cleanly: each in turn
/// carries exactly the successor of its sender's nonce.
pub open spec fn spec_txs_ok(m: Map<Seq<char>, u64>, txs: Seq<Transaction>) -> bool
    decreases txs.len(),
{
    txs.len() == 0 || (txs[0].nonce == spec_nonce(m, txs[0].sender@) + 1 && spec_txs_ok(
        m.insert(txs[0].sender@, txs[0].nonce),
        txs.drop_first(),
    ))
}

/// The state after applying a batch of transactions.
pub open spec fn spec_apply_txs(m: Map<Seq<char>, u64>, txs: Seq<Transaction>) -> Map<
    Seq<char>,
    u64,
>
    decreases txs.len(),
{
    if txs.len() == 0 {
        m
    } else {
        spec_apply_txs(m.insert(txs[0].sender@, txs[0].nonce), txs.drop_first())
    }
}

/// A found entry carries the map's value for its address.
proof fn lemma_state_map_found(s: Seq<AccountEntry>, a: Seq<char>, i: int)
    requires
        0 <= i < s.len(),
        s[i].address@ == a,
        forall|j: int, k: int|
            0 <= j < k < s.len() ==> #[trigger] s[j].address@ != #[trigger] s[k].address@,
    ensures
        spec_state_map(s).dom().contains(a),
        spec_state_map(s)[a] == s[i].nonce,
    decreases s.len(),
{
    if i < s.len() - 1 {
        assert(s.last().address@ != a);
        assert(s.drop_last()[i] == s[i]);
        lemma_state_map_found(s.drop_last(), a, i);
    }
}

/// An address in no entry is not in the map.
proof fn lemma_state_map_missing(s: Seq<AccountEntry>, a: Seq<char>)
    requires
        forall|j: int| 0 <= j < s.len() ==> #[trigger] s[j].address@ != a,
    ensures
        !spec_state_map(s).dom().contains(a),
    decreases s.len(),
{
    if s.len() > 0 {
        lemma_state_map_missing(s.drop_last(), a);
    }
}

/// Replacing the entry at `i` turns the map into an insert.
proof fn lemma_state_map_update(
    before: Seq<AccountEntry>,
    after: Seq<AccountEntry>,
    a: Seq<char>,
    n: u64,
    i: int,
)
    requires
        0 <= i < before.len(),
        after.len() == before.len(),
        before[i].address@ == a,
        after[i].address@ == a,
        after[i].nonce == n,
        forall|j: int| 0 <= j < before.len() && j != i ==> #[trigger] after[j] == before[j],
        forall|j: int| 0 <= j < before.len() && j != i ==> #[trigger] before[j].address@ != a,
    ensures
        spec_state_map(after) =~= spec_state_map(before).insert(a, n),
    decreases before.len(),
{
    if i == before.len() - 1 {
        assert(after.drop_last() =~= before.drop_last());
    } else {
        assert(after.last() == before.last());
        assert(after.drop_last()[i] == after[i]);
        assert(before.drop_last()[i] == before[i]);
        assert forall|j: int|
            0 <= j < before.drop_last().len() && j != i implies #[trigger] after.drop_last()[j]
            == before.drop_last()[j] by {
            assert(after.drop_last()[j] == after[j]);
            assert(before.drop_last()[j] == before[j]);
        }
        assert forall|j: int|
            0 <= j < before.drop_last().len() && j != i implies #[trigger] before.drop_last()[j].address@
            != a by {
            assert(before.drop_last()[j] == before[j]);
        }
        lemma_state_map_update(before.drop_last(), after.drop_last(), a, n, i);
        assert(before.last().address@ != a);
        assert(spec_state_map(after) =~= spec_state_map(before).insert(a, n));
    }
}

/// Appending a fresh entry turns the map into an insert.
proof fn lemma_state_map_push(before: Seq<AccountEntry>, after: Seq<AccountEntry>, a: Seq<char>, n: u64)
    requires
        after.len() == before.len() + 1,
        forall|j: int| 0 <= j < before.len() ==> #[trigger] after[j] == before[j],
        after.last().address@ == a,
        after.last().nonce == n,
    ensures
        spec_state_map(after) =~= spec_state_map(before).insert(a, n),
{
    assert(after.drop_last() =~= before);
}

impl AccountState {
    /// An empty store: every account starts at nonce zero.
    pub fn new() -> (r: Self)
        ensures
            r.accounts@.len() == 0,
            spec_accounts_wf(&r),
            spec_state_map(r.accounts@) =~= Map::empty(),
    {
        AccountState { accounts: Vec::new() }
    }

    /// The nonce of an address; zero for unknown accounts.
    pub fn get_nonce(&self, address: &String) -> (r: u64)
        requires
            spec_accounts_wf(self),
        ensures
            r == spec_nonce(spec_state_map(self.accounts@), address@),
    {
        let mut i: usize = 0;
        while i < self.accounts.len()
            invariant
                i <= self.accounts@.len(),
                spec_accounts_wf(self),
                forall|j: int| 0 <= j < i ==> #[trigger] self.accounts@[j].address@ != address@,
            decreases self.accounts@.len() - i,
        {
            if self.accounts[i].address.eq(address) {
                proof {
                    lemma_state_map_found(self.accounts@, address@, i as int);
                }
                return self.accounts[i].nonce;
            }
            i = i + 1;
        }
        proof {
            lemma_state_map_missing(self.accounts@, address@);
        }
        0
    }

    /// Set the nonce of an address, inserting the account if new.
    fn set_nonce(&mut self, address: &String, nonce: u64)
        requires
            spec_accounts_wf(old(self)),
        ensures
            spec_accounts_wf(final(self)),
            spec_state_map(final(self).accounts@) == spec_state_map(old(self).accounts@).insert(
                address@,
                nonce,
            ),
    {
        let mut i: usize = 0;
        while i < self.accounts.len()
            invariant
                i <= self.accounts@.len(),
                spec_accounts_wf(self),
                self.accounts@ == old(self).accounts@,
                forall|j: int| 0 <= j < i ==> #[trigger] self.accounts@[j].address@ != address@,
            decreases self.accounts@.len() - i,
        {
            if self.accounts[i].address.eq(address) {
                let ghost before = self.accounts@;
                let entry = AccountEntry { address: address.clone(), nonce };
                self.accounts.set(i, entry);
                proof {
                    assert forall|i2: int, j2: int|
                        0 <= i2 < j2 < self.accounts@.len() implies #[trigger] self.accounts@[i2].address@
                        != #[trigger] self.accounts@[j2].address@ by {
                        if i2 != i as int {
                            assert(self.accounts@[i2] == before[i2]);
                        }
                        if j2 != i as int {
                            assert(self.accounts@[j2] == before[j2]);
                        }
                    }
                    lemma_state_map_update(before, self.accounts@, address@, nonce, i as int);
                }
                return ;
            }
            i = i + 1;
        }
        let ghost before = self.accounts@;
        let entry = AccountEntry { address: address.clone(), nonce };
        self.accounts.push(entry);
        proof {
            assert forall|i2: int, j2: int|
                0 <= i2 < j2 < self.accounts@.len() implies #[trigger] self.accounts@[i2].address@
                != #[trigger] self.accounts@[j2].address@ by {
                if j2 < self.accounts@.len() - 1 {
                    assert(self.accounts@[i2] == before[i2]);
                    assert(self.accounts@[j2] == before[j2]);
                } else {
                    assert(self.accounts@[i2] == before[i2]);
                }
            }
            lemma_state_map_push(before, self.accounts@, address@, nonce);
        }
    }

    /// Apply a block atomically.
    ///
    /// Succeeds if and only if every transaction, in block order,
    /// carries exactly the successor of its sender's nonce; on success
    /// the touched nonces advance, and on failure the state is
    /// untouched.
    #[verifier::loop_isolation(false)]
    pub fn apply_block(&mut self, b: &Block) -> (r: Result<(), ConsensusError>)
        requires
            spec_accounts_wf(old(self)),
        ensures
            spec_accounts_wf(final(self)),
            r is Ok <==> spec_txs_ok(spec_state_map(old(self).accounts@), b.transactions@),
            r is Ok ==> spec_state_map(final(self).accounts@) == spec_apply_txs(
                spec_state_map(old(self).accounts@),
                b.transactions@,
            ),
            r is Err ==> final(self).accounts@ == old(self).accounts@,
    {
        // Work on a copy so failure leaves the state untouched.
        let mut working = AccountState { accounts: Vec::new() };
        let mut i: usize = 0;
        while i < self.accounts.len()
            invariant
                i <= self.accounts@.len(),
                working.accounts@.len() == i,
                forall|j: int|
                    0 <= j < i ==> #[trigger] working.accounts@[j].address@
                        == self.accounts@[j].address@ && working.accounts@[j].nonce
                        == self.accounts@[j].nonce,
            decreases self.accounts@.len() - i,
        {
            let e = &self.accounts[i];
            working.accounts.push(AccountEntry { address: e.address.clone(), nonce: e.nonce });
            i = i + 1;
        }
        proof {
            lemma_state_map_congruent(self.accounts@, working.accounts@);
            assert(spec_accounts_wf(&working));
        }
        let ghost m0 = spec_state_map(self.accounts@);
        proof {
            assert(b.transactions@.skip(0) =~= b.transactions@);
            assert(b.transactions@.take(0) =~= Seq::<Transaction>::empty());
            assert(spec_apply_txs(m0, b.transactions@.take(0)) == m0);
        }
        let mut t: usize = 0;
        while t < b.transactions.len()
            invariant
                t <= b.transactions@.len(),
                spec_accounts_wf(&working),
                spec_state_map(working.accounts@) == spec_apply_txs(m0, b.transactions@.take(
                    t as int,
                )),
                spec_txs_ok(m0, b.transactions@) <==> spec_txs_ok(
                    spec_state_map(working.accounts@),
                    b.transactions@.skip(t as int),
                ),
            decreases b.transactions@.len() - t,
        {
            let tx = &b.transactions[t];
            let current = working.get_nonce(&tx.sender);
            proof {
                assert(b.transactions@.skip(t as int)[0] == b.transactions@[t as int]);
            }
            if current == u64::MAX || tx.nonce != current + 1 {
                proof {
                    assert(!spec_txs_ok(
                        spec_state_map(working.accounts@),
                        b.transactions@.skip(t as int),
                    ));
                }
                return Err(
                    ConsensusError::BlockValidation(
                        String::from_str("transaction nonce out of sequence"),
                    ),
                );
            }
            let ghost wm = spec_state_map(working.accounts@);
            working.set_nonce(&tx.sender, tx.nonce);
            proof {
                lemma_apply_take_step(m0, b.transactions@, t as int);
                assert(b.transactions@.skip(t as int).drop_first() =~= b.transactions@.skip(t + 1));
                let head = b.transactions@.skip(t as int)[0];
                assert(head == b.transactions@[t as int]);
                assert(head.nonce == spec_nonce(wm, head.sender@) + 1);
                assert(spec_state_map(working.accounts@) == wm.insert(head.sender@, head.nonce));
                assert(spec_txs_ok(wm, b.transactions@.skip(t as int)) <==> spec_txs_ok(
                    spec_state_map(working.accounts@),
                    b.transactions@.skip(t + 1),
                ));
            }
            t = t + 1;
        }
        proof {
            assert(b.transactions@.take(b.transactions@.len() as int) =~= b.transactions@);
            assert(b.transactions@.skip(b.transactions@.len() as int) =~= Seq::<
                Transaction,
            >::empty());
        }
        self.accounts = working.accounts;
        Ok(())
    }
}

/// Entrywise-equal stores have the same map and the same shape.
proof fn lemma_state_map_congruent(a: Seq<AccountEntry>, b: Seq<AccountEntry>)
    requires
        a.len() == b.len(),
        forall|j: int|
            0 <= j < a.len() ==> #[trigger] b[j].address@ == a[j].address@ && b[j].nonce
                == a[j].nonce,
    ensures
        spec_state_map(a) =~= spec_state_map(b),
        forall|i: int, j: int|
            0 <= i < j < a.len() && a[i].address@ != a[j].address@ ==> #[trigger] b[i].address@
                != #[trigger] b[j].address@,
    decreases a.len(),
{
    if a.len() > 0 {
        assert forall|j: int|
            0 <= j < a.drop_last().len() implies #[trigger] b.drop_last()[j].address@
            == a.drop_last()[j].address@ && b.drop_last()[j].nonce == a.drop_last()[j].nonce by {
            assert(a.drop_last()[j] == a[j]);
            assert(b.drop_last()[j] == b[j]);
        }
        lemma_state_map_congruent(a.drop_last(), b.drop_last());
    }
}

/// One application step: the map after `t + 1` transactions is the map
/// after `t` with the next sender's nonce inserted.
proof fn lemma_apply_take_step(m: Map<Seq<char>, u64>, txs: Seq<Transaction>, t: int)
    requires
        0 <= t < txs.len(),
    ensures
        spec_apply_txs(m, txs.take(t + 1)) == spec_apply_txs(m, txs.take(t)).insert(
            txs[t].sender@,
            txs[t].nonce,
        ),
    decreases t,
{
    if t == 0 {
        assert(txs.take(1).drop_first() =~= Seq::<Transaction>::empty());
        assert(txs.take(1)[0] == txs[0]);
        assert(txs.take(0) =~= Seq::<Transaction>::empty());
        assert(spec_apply_txs(m, txs.take(0)) == m);
        assert(spec_apply_txs(m, txs.take(1)) == spec_apply_txs(
            m.insert(txs.take(1)[0].sender@, txs.take(1)[0].nonce),
            txs.take(1).drop_first(),
        ));
        assert(spec_apply_txs(m, txs.take(1)) == m.insert(txs[0].sender@, txs[0].nonce));
    } else {
        assert(txs.take(t + 1)[0] == txs[0]);
        assert(txs.take(t)[0] == txs[0]);
        assert(txs.take(t + 1).drop_first() =~= txs.drop_first().take(t));
        assert(txs.take(t).drop_first() =~= txs.drop_first().take(t - 1));
        assert(txs.drop_first()[t - 1] == txs[t]);
        let m1 = m.insert(txs[0].sender@, txs[0].nonce);
        lemma_apply_take_step(m1, txs.drop_first(), t - 1);
        assert(spec_apply_txs(m, txs.take(t + 1)) == spec_apply_txs(
            m1,
            txs.take(t + 1).drop_first(),
        ));
        assert(spec_apply_txs(m, txs.take(t)) == spec_apply_txs(m1, txs.take(t).drop_first()));
        assert(spec_apply_txs(m1, txs.drop_first().take(t)) == spec_apply_txs(
            m1,
            txs.drop_first().take(t - 1),
        ).insert(txs[t].sender@, txs[t].nonce));
    }
}

/// Applying transactions never lowers any account's nonce.
proof fn lemma_apply_monotone(m: Map<Seq<char>, u64>, txs: Seq<Transaction>, a: Seq<char>)
    requires
        spec_txs_ok(m, txs),
    ensures
        spec_nonce(spec_apply_txs(m, txs), a) >= spec_nonce(m, a),
    decreases txs.len(),
{
    if txs.len() > 0 {
        let m1 = m.insert(txs[0].sender@, txs[0].nonce);
        lemma_apply_monotone(m1, txs.drop_first(), a);
        assert(spec_nonce(m1, a) >= spec_nonce(m, a));
    }
}

/// Reapplying a committed block is forbidden: once a non-empty block
/// has applied, its first transaction's nonce is no longer the
/// successor of its sender's nonce, so the same block cannot apply
/// again.
pub proof fn lemma_reapply_forbidden(m: Map<Seq<char>, u64>, txs: Seq<Transaction>)
    requires
        txs.len() > 0,
        spec_txs_ok(m, txs),
    ensures
        !spec_txs_ok(spec_apply_txs(m, txs), txs),
{
    let s0 = txs[0].sender@;
    let m1 = m.insert(s0, txs[0].nonce);
    lemma_apply_monotone(m1, txs.drop_first(), s0);
    assert(spec_nonce(m1, s0) == txs[0].nonce);
    assert(spec_nonce(spec_apply_txs(m, txs), s0) >= txs[0].nonce);
}

} // verus!

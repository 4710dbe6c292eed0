//! The 20/20/50/10 transaction selector and the block efficiency score.
//!
//! Selection is a pure function of the mempool snapshot and the
//! configuration, so that every validator re-derives the identical
//! selection and the identical efficiency score.  Ordering within each
//! stage is total: ties on the stage key fall back to the transaction id
//! in lexicographic order.
//!
//! All scores are fixed-point integers scaled by 1e6, so peers produce
//! identical `u64` values with no floating-point drift.

use vstd::prelude::*;
use vstd::relations::sorted_by;
use vstd::seq_lib::*;
use vstd::multiset::Multiset;
use vstd::string::*;
use vstd::utf8::*;

verus! {

/// Fixed-point scale: one unit of a score is 1e-6.
pub const SCORE_SCALE: u64 = 1_000_000;

/// Cumulative points after which the point-to-coin ratio halves once.
pub const FIRST_HALVING_THRESHOLD: u64 = 30_000_000_000;

/// Cumulative points after which the point-to-coin ratio halves twice.
pub const SECOND_HALVING_THRESHOLD: u64 = 60_000_000_000;

/// Configuration for transaction selection.
#[derive(Clone, Debug)]
pub struct TransactionSelectorConfig {
    /// Maximum number of transactions per block.
    pub max_transactions_per_block: usize,
    /// Target block size in bytes.
    pub target_block_size: u64,
    /// Cumulative points spent over the chain's history.
    pub total_points_spent: u64,
    /// Minimum transaction fee in points.
    pub min_transaction_fee: u64,
}

impl Default for TransactionSelectorConfig {
    /// Defaults: 1000 transactions, a 1 MB target, no points spent yet,
    /// a minimum fee of one point.
    fn default() -> (r: Self)
        ensures
            r.max_transactions_per_block == 1000,
            r.target_block_size == 1_000_000,
            r.total_points_spent == 0,
            r.min_transaction_fee == 1,
    {
        TransactionSelectorConfig {
            max_transactions_per_block: 1000,
            target_block_size: 1_000_000,
            total_points_spent: 0,
            min_transaction_fee: 1,
        }
    }
}

/// A mempool transaction as the selector sees it: its identity and the
/// three quantities the 20/20/50/10 stages order by.
#[derive(Debug)]
pub struct TransactionWithMetadata {
    /// Transaction identifier (hex of the transaction hash); the
    /// tiebreaker of every ordering stage.
    pub id: String,
    /// Fee in points.
    pub point_price: u64,
    /// Size in bytes (data volume in points).
    pub point_data: u64,
    /// Creation time, seconds since epoch.
    pub timestamp: u64,
}

impl Clone for TransactionWithMetadata {
    fn clone(&self) -> (r: Self)
        ensures
            r == *self,
    {
        TransactionWithMetadata {
            id: self.id.clone(),
            point_price: self.point_price,
            point_data: self.point_data,
            timestamp: self.timestamp,
        }
    }
}

/// Lexicographic order on character sequences.
pub open spec fn lex_le(a: Seq<char>, b: Seq<char>) -> bool
    decreases a.len(),
{
    if a.len() == 0 {
        true
    } else if b.len() == 0 {
        false
    } else if a[0] == b[0] {
        lex_le(a.drop_first(), b.drop_first())
    } else {
        a[0] < b[0]
    }
}

/// The lexicographic order is total.
pub proof fn lemma_lex_le_total(a: Seq<char>, b: Seq<char>)
    ensures
        lex_le(a, b) || lex_le(b, a),
    decreases a.len(),
{
    if a.len() > 0 && b.len() > 0 && a[0] == b[0] {
        lemma_lex_le_total(a.drop_first(), b.drop_first());
    }
}

/// The lexicographic order is transitive.
pub proof fn lemma_lex_le_trans(a: Seq<char>, b: Seq<char>, c: Seq<char>)
    requires
        lex_le(a, b),
        lex_le(b, c),
    ensures
        lex_le(a, c),
    decreases a.len(),
{
    if a.len() > 0 && b.len() > 0 && c.len() > 0 && a[0] == b[0] && b[0] == c[0] {
        lemma_lex_le_trans(a.drop_first(), b.drop_first(), c.drop_first());
    }
}

/// The lexicographic order is antisymmetric.
pub proof fn lemma_lex_le_antisymmetric(a: Seq<char>, b: Seq<char>)
    requires
        lex_le(a, b),
        lex_le(b, a),
    ensures
        a == b,
    decreases a.len(),
{
    if a.len() == 0 {
        assert(b.len() == 0);
        assert(a =~= b);
    } else {
        assert(b.len() > 0);
        assert(a[0] == b[0]);
        let ad = a.drop_first();
        let bd = b.drop_first();
        lemma_lex_le_antisymmetric(ad, bd);
        assert(ad == bd);
        assert(ad.len() == a.len() - 1);
        assert(bd.len() == b.len() - 1);
        assert(a.len() == b.len());
        assert forall|i: int| 0 <= i < a.len() implies a[i] == b[i] by {
            if i > 0 {
                assert(ad[i - 1] == a[i]);
                assert(bd[i - 1] == b[i]);
            }
        }
        assert(a =~= b);
    }
}

/// Comparing two sequences that agree on their first `i` characters is
/// decided at index `i`.
proof fn lemma_lex_le_from_index(a: Seq<char>, b: Seq<char>, i: int)
    requires
        0 <= i <= a.len(),
        i <= b.len(),
        forall|j: int| 0 <= j < i ==> a[j] == b[j],
    ensures
        i == a.len() ==> lex_le(a, b),
        i < a.len() && i == b.len() ==> !lex_le(a, b),
        i < a.len() && i < b.len() && a[i] != b[i] ==> (lex_le(a, b) <==> a[i] < b[i]),
    decreases i,
{
    if i > 0 {
        lemma_lex_le_from_index(a.drop_first(), b.drop_first(), i - 1);
        assert(a[0] == b[0]);
        assert(a.drop_first().len() == a.len() - 1);
        assert(forall|j: int| 0 <= j < i - 1 ==> a.drop_first()[j] == b.drop_first()[j]);
        if i < a.len() && i < b.len() {
            assert(a.drop_first()[i - 1] == a[i]);
            assert(b.drop_first()[i - 1] == b[i]);
        }
    }
}

/// Lexicographic comparison of two ASCII strings.
pub fn id_le(a: &String, b: &String) -> (r: bool)
    requires
        is_ascii_chars(a@),
        is_ascii_chars(b@),
    ensures
        r == lex_le(a@, b@),
{
    proof {
        broadcast use is_ascii_chars_nat_bound;

        is_ascii_chars_encode_utf8(a@);
        is_ascii_chars_encode_utf8(b@);
    }
    let a_len = a.as_str().unicode_len();
    let b_len = b.as_str().unicode_len();
    let mut i: usize = 0;
    loop
        invariant
            is_ascii_chars(a@),
            is_ascii_chars(b@),
            a_len == a@.len(),
            b_len == b@.len(),
            i <= a_len,
            i <= b_len,
            forall|j: int| 0 <= j < i ==> a@[j] == b@[j],
        decreases a_len - i,
    {
        if i >= a_len || i >= b_len {
            proof {
                lemma_lex_le_from_index(a@, b@, i as int);
            }
            return a_len <= b_len;
        }
        let ca = a.as_str().get_ascii(i);
        let cb = b.as_str().get_ascii(i);
        proof {
            broadcast use is_ascii_chars_nat_bound;

            assert(a@[i as int] as nat <= 0x7f);
            assert(b@[i as int] as nat <= 0x7f);
        }
        if ca != cb {
            proof {
                lemma_lex_le_from_index(a@, b@, i as int);
            }
            return ca < cb;
        }
        i = i + 1;
    }
}

/// The key a selection stage orders by.
#[derive(Clone, Copy, Debug)]
pub enum SortStage {
    /// Highest fee first.
    High,
    /// Lowest fee first.
    Low,
    /// Closest to the mempool's average fee first, then lower fee first.
    Avg { avg: u64 },
    /// Oldest first.
    Old,
}

/// Absolute value.
pub open spec fn int_abs(x: int) -> int {
    if x < 0 {
        -x
    } else {
        x
    }
}

/// Primary sort key of a stage, as an integer to be minimized.
pub open spec fn stage_key1(st: SortStage, t: TransactionWithMetadata) -> int {
    match st {
        SortStage::High => -(t.point_price as int),
        SortStage::Low => t.point_price as int,
        SortStage::Avg { avg } => int_abs(t.point_price as int - avg as int),
        SortStage::Old => t.timestamp as int,
    }
}

/// Secondary sort key of a stage.
pub open spec fn stage_key2(st: SortStage, t: TransactionWithMetadata) -> int {
    match st {
        SortStage::Avg { .. } => t.point_price as int,
        _ => 0,
    }
}

/// The total order of a selection stage: primary key, then secondary
/// key, then the transaction id lexicographically.
pub open spec fn stage_le(st: SortStage, x: TransactionWithMetadata, y: TransactionWithMetadata) -> bool {
    stage_key1(st, x) < stage_key1(st, y)
        || (stage_key1(st, x) == stage_key1(st, y) && (stage_key2(st, x) < stage_key2(st, y)
            || (stage_key2(st, x) == stage_key2(st, y) && lex_le(x.id@, y.id@))))
}

/// The stage order as a binary relation.
pub open spec fn stage_le_fn(st: SortStage) -> spec_fn(TransactionWithMetadata, TransactionWithMetadata) -> bool {
    |x: TransactionWithMetadata, y: TransactionWithMetadata| stage_le(st, x, y)
}

/// Every stage order is total.
pub proof fn lemma_stage_le_total(st: SortStage, x: TransactionWithMetadata, y: TransactionWithMetadata)
    ensures
        stage_le(st, x, y) || stage_le(st, y, x),
{
    lemma_lex_le_total(x.id@, y.id@);
}

/// Every stage order is transitive.
pub proof fn lemma_stage_le_trans(
    st: SortStage,
    x: TransactionWithMetadata,
    y: TransactionWithMetadata,
    z: TransactionWithMetadata,
)
    requires
        stage_le(st, x, y),
        stage_le(st, y, z),
    ensures
        stage_le(st, x, z),
{
    if stage_key1(st, x) == stage_key1(st, z) && stage_key2(st, x) == stage_key2(st, z)
        && stage_key1(st, x) == stage_key1(st, y) && stage_key2(st, x) == stage_key2(st, y) {
        lemma_lex_le_trans(x.id@, y.id@, z.id@);
    }
}

/// Two transactions below each other in one stage order share an id.
pub proof fn lemma_stage_le_antisymmetric(
    st: SortStage,
    x: TransactionWithMetadata,
    y: TransactionWithMetadata,
)
    requires
        stage_le(st, x, y),
        stage_le(st, y, x),
    ensures
        x.id@ == y.id@,
{
    assert(stage_key1(st, x) == stage_key1(st, y));
    assert(stage_key2(st, x) == stage_key2(st, y));
    assert(lex_le(x.id@, y.id@));
    assert(lex_le(y.id@, x.id@));
    lemma_lex_le_antisymmetric(x.id@, y.id@);
}

/// Executable form of the stage order.
fn stage_le_exec(st: &SortStage, x: &TransactionWithMetadata, y: &TransactionWithMetadata) -> (r: bool)
    requires
        is_ascii_chars(x.id@),
        is_ascii_chars(y.id@),
    ensures
        r == stage_le(*st, *x, *y),
{
    match st {
        SortStage::High => {
            if x.point_price != y.point_price {
                x.point_price > y.point_price
            } else {
                id_le(&x.id, &y.id)
            }
        },
        SortStage::Low => {
            if x.point_price != y.point_price {
                x.point_price < y.point_price
            } else {
                id_le(&x.id, &y.id)
            }
        },
        SortStage::Avg { avg } => {
            let dx = if x.point_price >= *avg {
                x.point_price - *avg
            } else {
                *avg - x.point_price
            };
            let dy = if y.point_price >= *avg {
                y.point_price - *avg
            } else {
                *avg - y.point_price
            };
            if dx != dy {
                dx < dy
            } else if x.point_price != y.point_price {
                x.point_price < y.point_price
            } else {
                id_le(&x.id, &y.id)
            }
        },
        SortStage::Old => {
            if x.timestamp != y.timestamp {
                x.timestamp < y.timestamp
            } else {
                id_le(&x.id, &y.id)
            }
        },
    }
}

/// All ids in the sequence are ASCII.
pub open spec fn all_ids_ascii(s: Seq<TransactionWithMetadata>) -> bool {
    forall|i: int| 0 <= i < s.len() ==> is_ascii_chars(#[trigger] s[i].id@)
}

/// No two elements of the sequence share an id.
pub open spec fn distinct_ids(s: Seq<TransactionWithMetadata>) -> bool {
    forall|i: int, j: int| 0 <= i < j < s.len() ==> #[trigger] s[i].id@ != #[trigger] s[j].id@
}

/// Sort a batch of transactions in place by the given stage order.
fn sort_by_stage(st: &SortStage, v: &mut Vec<TransactionWithMetadata>)
    requires
        all_ids_ascii(old(v)@),
    ensures
        final(v)@.to_multiset() == old(v)@.to_multiset(),
        final(v)@.len() == old(v)@.len(),
        sorted_by(final(v)@, stage_le_fn(*st)),
        all_ids_ascii(final(v)@),
{
    broadcast use {vstd::seq_lib::group_to_multiset_ensures, vstd::multiset::group_multiset_axioms};

    let ghost orig = v@;
    let mut r: Vec<TransactionWithMetadata> = Vec::new();
    loop
        invariant
            r@.to_multiset().add(v@.to_multiset()) =~= orig.to_multiset(),
            r@.len() + v@.len() == orig.len(),
            sorted_by(r@, stage_le_fn(*st)),
            all_ids_ascii(r@),
            all_ids_ascii(v@),
        ensures
            r@.to_multiset() == orig.to_multiset(),
            r@.len() == orig.len(),
            sorted_by(r@, stage_le_fn(*st)),
            all_ids_ascii(r@),
        decreases v@.len(),
    {
        let ghost src_before = v@;
        let popped = v.pop();
        let x = match popped {
            Some(x) => x,
            None => {
                proof {
                    assert(src_before.len() == 0);
                    to_multiset_len(src_before);
                    vstd::multiset::lemma_multiset_empty_len(src_before.to_multiset());
                    assert(src_before.to_multiset() =~= Multiset::empty());
                    assert(r@.to_multiset() =~= orig.to_multiset());
                }
                break;
            },
        };
        proof {
            assert(src_before =~= v@.push(x));
            to_multiset_build(v@, x);
            assert((v@.push(x)).to_multiset() =~= v@.to_multiset().insert(x));
            assert(src_before.to_multiset() =~= v@.to_multiset().insert(x));
            assert(src_before[src_before.len() - 1] == x);
            assert(is_ascii_chars(x.id@));
        }
        let mut p: usize = 0;
        while p < r.len() && stage_le_exec(st, &r[p], &x)
            invariant
                p <= r@.len(),
                forall|k: int| 0 <= k < p ==> stage_le(*st, #[trigger] r@[k], x),
                all_ids_ascii(r@),
                is_ascii_chars(x.id@),
            decreases r@.len() - p,
        {
            p = p + 1;
        }
        let ghost r_before = r@;
        proof {
            if p < r_before.len() {
                lemma_stage_le_total(*st, r_before[p as int], x);
                assert(stage_le(*st, x, r_before[p as int]));
            }
        }
        r.insert(p, x);
        proof {
            assert(r@ == r_before.insert(p as int, x));
            r_before.insert_ensures(p as int, x);
            let le = stage_le_fn(*st);
            assert forall|i: int, j: int| 0 <= i < j < r@.len() implies #[trigger] le(
                r@[i],
                r@[j],
            ) by {
                let pi = p as int;
                if i < pi && j < pi {
                    assert(le(r_before[i], r_before[j]));
                } else if i < pi && j == pi {
                    assert(stage_le(*st, r_before[i], x));
                } else if i < pi && j > pi {
                    assert(le(r_before[i], r_before[j - 1]));
                } else if i == pi && j > pi {
                    assert(stage_le(*st, x, r_before[pi]));
                    if j - 1 > pi {
                        assert(le(r_before[pi], r_before[j - 1]));
                        lemma_stage_le_trans(*st, x, r_before[pi], r_before[j - 1]);
                    }
                } else {
                    assert(i > pi && j > pi);
                    assert(le(r_before[i - 1], r_before[j - 1]));
                }
                assert(stage_le(*st, r@[i], r@[j]));
            }
            assert(sorted_by(r@, stage_le_fn(*st)));
            to_multiset_insert(r_before, p as int, x);
            assert(r@.to_multiset() =~= r_before.to_multiset().insert(x));
            assert(r@.to_multiset().add(v@.to_multiset()) =~= orig.to_multiset());
            assert forall|i: int| 0 <= i < r@.len() implies is_ascii_chars(#[trigger] r@[i].id@) by {
                if i < p as int {
                    assert(r@[i] == r_before[i]);
                } else if i == p as int {
                    assert(r@[i] == x);
                } else {
                    assert(r@[i] == r_before[i - 1]);
                }
            }
        }
    }
    *v = r;
}

/// Sum of the fees of a batch of transactions.
pub open spec fn spec_sum_prices(s: Seq<TransactionWithMetadata>) -> int
    decreases s.len(),
{
    if s.len() == 0 {
        0
    } else {
        spec_sum_prices(s.drop_last()) + s.last().point_price
    }
}

/// Sum of the byte sizes of a batch of transactions.
pub open spec fn spec_sum_data(s: Seq<TransactionWithMetadata>) -> int
    decreases s.len(),
{
    if s.len() == 0 {
        0
    } else {
        spec_sum_data(s.drop_last()) + s.last().point_data
    }
}

/// Both sums are sums of non-negative terms: every prefix sum lies
/// between zero and the full sum.
pub proof fn lemma_sum_take_bounds(s: Seq<TransactionWithMetadata>, j: int)
    requires
        0 <= j <= s.len(),
    ensures
        0 <= spec_sum_prices(s.take(j)) <= spec_sum_prices(s),
        0 <= spec_sum_data(s.take(j)) <= spec_sum_data(s),
        j < s.len() ==> spec_sum_prices(s.take(j + 1)) == spec_sum_prices(s.take(j))
            + s[j].point_price,
        j < s.len() ==> spec_sum_data(s.take(j + 1)) == spec_sum_data(s.take(j)) + s[j].point_data,
    decreases s.len() - j,
{
    if j < s.len() {
        assert(s.take(j + 1).drop_last() =~= s.take(j));
        assert(s.take(j + 1).last() == s[j]);
        lemma_sum_take_bounds(s, j + 1);
        lemma_sum_nonneg(s.take(j));
    } else {
        assert(s.take(j) =~= s);
        lemma_sum_nonneg(s);
    }
}

/// Sums of non-negative terms are non-negative.
pub proof fn lemma_sum_nonneg(s: Seq<TransactionWithMetadata>)
    ensures
        spec_sum_prices(s) >= 0,
        spec_sum_data(s) >= 0,
    decreases s.len(),
{
    if s.len() > 0 {
        lemma_sum_nonneg(s.drop_last());
    }
}

/// Sums distribute over concatenation.
pub proof fn lemma_sum_concat(a: Seq<TransactionWithMetadata>, b: Seq<TransactionWithMetadata>)
    ensures
        spec_sum_prices(a + b) == spec_sum_prices(a) + spec_sum_prices(b),
        spec_sum_data(a + b) == spec_sum_data(a) + spec_sum_data(b),
    decreases b.len(),
{
    if b.len() == 0 {
        assert(a + b =~= a);
    } else {
        assert((a + b).drop_last() =~= a + b.drop_last());
        assert((a + b).last() == b.last());
        lemma_sum_concat(a, b.drop_last());
    }
}

/// Total fee of a batch.
fn sum_prices(v: &Vec<TransactionWithMetadata>) -> (r: u64)
    requires
        spec_sum_prices(v@) <= u64::MAX,
    ensures
        r == spec_sum_prices(v@),
{
    let mut acc: u64 = 0;
    let mut i: usize = 0;
    proof {
        assert(v@.take(0) =~= Seq::<TransactionWithMetadata>::empty());
    }
    while i < v.len()
        invariant
            i <= v@.len(),
            spec_sum_prices(v@) <= u64::MAX,
            acc == spec_sum_prices(v@.take(i as int)),
        decreases v@.len() - i,
    {
        proof {
            lemma_sum_take_bounds(v@, i as int);
            lemma_sum_take_bounds(v@, i + 1);
        }
        acc = acc + v[i].point_price;
        i = i + 1;
    }
    proof {
        assert(v@.take(v@.len() as int) =~= v@);
    }
    acc
}

/// Total byte size of a batch.
fn sum_data(v: &Vec<TransactionWithMetadata>) -> (r: u64)
    requires
        spec_sum_data(v@) <= u64::MAX,
    ensures
        r == spec_sum_data(v@),
{
    let mut acc: u64 = 0;
    let mut i: usize = 0;
    proof {
        assert(v@.take(0) =~= Seq::<TransactionWithMetadata>::empty());
    }
    while i < v.len()
        invariant
            i <= v@.len(),
            spec_sum_data(v@) <= u64::MAX,
            acc == spec_sum_data(v@.take(i as int)),
        decreases v@.len() - i,
    {
        proof {
            lemma_sum_take_bounds(v@, i as int);
            lemma_sum_take_bounds(v@, i + 1);
        }
        acc = acc + v[i].point_data;
        i = i + 1;
    }
    proof {
        assert(v@.take(v@.len() as int) =~= v@);
    }
    acc
}

/// Transactions selected for a block, partitioned into the four
/// 20/20/50/10 buckets, each in its stage order.
#[derive(Debug)]
pub struct SelectedTransactions {
    /// Highest fees, descending.
    pub high_price: Vec<TransactionWithMetadata>,
    /// Lowest fees, ascending.
    pub low_price: Vec<TransactionWithMetadata>,
    /// Closest to the snapshot's average fee.
    pub avg_price: Vec<TransactionWithMetadata>,
    /// Oldest by timestamp.
    pub oldest: Vec<TransactionWithMetadata>,
    /// Mean fee of the whole mempool snapshot.
    pub avg_point_price: u64,
    /// Total number of selected transactions.
    pub total_selected: usize,
}

/// The four buckets in selection order, as one sequence.
pub open spec fn all_selected(r: SelectedTransactions) -> Seq<TransactionWithMetadata> {
    r.high_price@ + r.low_price@ + r.avg_price@ + r.oldest@
}

impl SelectedTransactions {
    /// The empty selection.
    pub fn empty() -> (r: Self)
        ensures
            r.high_price@.len() == 0,
            r.low_price@.len() == 0,
            r.avg_price@.len() == 0,
            r.oldest@.len() == 0,
            r.avg_point_price == 0,
            r.total_selected == 0,
    {
        SelectedTransactions {
            high_price: Vec::new(),
            low_price: Vec::new(),
            avg_price: Vec::new(),
            oldest: Vec::new(),
            avg_point_price: 0,
            total_selected: 0,
        }
    }

    /// All selected transactions as one flat list, in bucket order.
    pub fn all_transactions(&self) -> (r: Vec<TransactionWithMetadata>)
        ensures
            r@ == all_selected(*self),
    {
        let mut out: Vec<TransactionWithMetadata> = Vec::new();
        append_clones(&mut out, &self.high_price);
        append_clones(&mut out, &self.low_price);
        append_clones(&mut out, &self.avg_price);
        append_clones(&mut out, &self.oldest);
        proof {
            assert(out@ =~= all_selected(*self));
        }
        out
    }
}

/// Append a copy of every element of `src` to `dst`.
fn append_clones(dst: &mut Vec<TransactionWithMetadata>, src: &Vec<TransactionWithMetadata>)
    ensures
        final(dst)@ == old(dst)@ + src@,
{
    let mut i: usize = 0;
    while i < src.len()
        invariant
            i <= src@.len(),
            dst@ == old(dst)@ + src@.take(i as int),
        decreases src@.len() - i,
    {
        let ghost before = dst@;
        dst.push(src[i].clone());
        proof {
            assert(dst@ =~= old(dst)@ + src@.take(i + 1));
        }
        i = i + 1;
    }
    proof {
        assert(src@.take(src@.len() as int) =~= src@);
    }
}

/// The smaller of two integers.
pub open spec fn spec_min_int(a: int, b: int) -> int {
    if a < b {
        a
    } else {
        b
    }
}

/// N: how many transactions a selection may use in total.
pub open spec fn spec_selection_target(len: int, max: int) -> int {
    spec_min_int(len, max)
}

/// Size of the high-fee bucket: ceil(N/5), capped by what is left.
pub open spec fn spec_count_high(n: int) -> int {
    spec_min_int((n + 4) / 5, n)
}

/// Size of the low-fee bucket.
pub open spec fn spec_count_low(n: int) -> int {
    spec_min_int((n + 4) / 5, n - spec_count_high(n))
}

/// Size of the average-fee bucket: ceil(N/2), capped by what is left.
pub open spec fn spec_count_avg(n: int) -> int {
    spec_min_int((n + 1) / 2, n - spec_count_high(n) - spec_count_low(n))
}

/// Size of the oldest bucket: ceil(N/10), capped by what is left.
pub open spec fn spec_count_old(n: int) -> int {
    spec_min_int((n + 9) / 10, n - spec_count_high(n) - spec_count_low(n) - spec_count_avg(n))
}

/// A sequence permuted from one with pairwise-distinct ids also has
/// pairwise-distinct ids.
pub proof fn lemma_distinct_ids_perm(a: Seq<TransactionWithMetadata>, b: Seq<TransactionWithMetadata>)
    requires
        a.to_multiset() == b.to_multiset(),
        distinct_ids(a),
    ensures
        distinct_ids(b),
{
    assert forall|i: int, j: int| 0 <= i < j < b.len() implies #[trigger] b[i].id@
        != #[trigger] b[j].id@ by {
        if b[i].id@ == b[j].id@ {
            to_multiset_contains(b, b[i]);
            to_multiset_contains(b, b[j]);
            to_multiset_contains(a, b[i]);
            to_multiset_contains(a, b[j]);
            assert(b.contains(b[i]));
            assert(a.contains(b[i]));
            assert(a.contains(b[j]));
            if b[i] == b[j] {
                to_multiset_remove(b, i);
                assert(b.remove(i)[j - 1] == b[j]);
                assert(b.remove(i).contains(b[j]));
                to_multiset_contains(b.remove(i), b[j]);
                assert(b.to_multiset().remove(b[i]).count(b[i]) > 0);
                assert(b.to_multiset().count(b[i]) >= 2);
                assert(a.to_multiset().count(b[i]) >= 2);
                let k = choose|k: int| 0 <= k < a.len() && a[k] == b[i];
                to_multiset_remove(a, k);
                assert(a.to_multiset().remove(a[k]).count(b[i]) >= 1);
                to_multiset_contains(a.remove(k), b[i]);
                assert(a.remove(k).contains(b[i]));
                let l = choose|l: int| 0 <= l < a.remove(k).len() && a.remove(k)[l] == b[i];
                a.remove_ensures(k);
                if l < k {
                    assert(a[l] == b[i]);
                    assert(a[l].id@ == a[k].id@);
                } else {
                    assert(a[l + 1] == b[i]);
                    assert(a[l + 1].id@ == a[k].id@);
                }
            } else {
                let k = choose|k: int| 0 <= k < a.len() && a[k] == b[i];
                let l = choose|l: int| 0 <= l < a.len() && a[l] == b[j];
                assert(k != l);
                assert(a[k].id@ == a[l].id@);
            }
        }
    }
}

/// The four buckets of one selection never share a transaction id: a
/// transaction is selected into at most one bucket.
pub proof fn lemma_buckets_pairwise_disjoint(
    h: Seq<TransactionWithMetadata>,
    l: Seq<TransactionWithMetadata>,
    av: Seq<TransactionWithMetadata>,
    o: Seq<TransactionWithMetadata>,
)
    requires
        distinct_ids(h + l + av + o),
    ensures
        distinct_ids(h),
        distinct_ids(l),
        distinct_ids(av),
        distinct_ids(o),
        forall|i: int, j: int|
            0 <= i < h.len() && 0 <= j < l.len() ==> #[trigger] h[i].id@ != #[trigger] l[j].id@,
        forall|i: int, j: int|
            0 <= i < h.len() && 0 <= j < av.len() ==> #[trigger] h[i].id@ != #[trigger] av[j].id@,
        forall|i: int, j: int|
            0 <= i < h.len() && 0 <= j < o.len() ==> #[trigger] h[i].id@ != #[trigger] o[j].id@,
        forall|i: int, j: int|
            0 <= i < l.len() && 0 <= j < av.len() ==> #[trigger] l[i].id@ != #[trigger] av[j].id@,
        forall|i: int, j: int|
            0 <= i < l.len() && 0 <= j < o.len() ==> #[trigger] l[i].id@ != #[trigger] o[j].id@,
        forall|i: int, j: int|
            0 <= i < av.len() && 0 <= j < o.len() ==> #[trigger] av[i].id@ != #[trigger] o[j].id@,
{
    let s = h + l + av + o;
    assert forall|i: int| 0 <= i < h.len() implies s[i] == h[i] by {}
    assert forall|i: int| 0 <= i < l.len() implies s[h.len() + i] == l[i] by {}
    assert forall|i: int| 0 <= i < av.len() implies s[h.len() + l.len() + i] == av[i] by {}
    assert forall|i: int| 0 <= i < o.len() implies s[h.len() + l.len() + av.len() + i] == o[i] by {}
}


/// Sort the pool by the stage order and move its first `count`
/// transactions out as the stage's bucket.
fn take_stage(st: &SortStage, v: &mut Vec<TransactionWithMetadata>, count: usize) -> (out: Vec<
    TransactionWithMetadata>)
    requires
        count <= old(v)@.len(),
        all_ids_ascii(old(v)@),
    ensures
        out@.len() == count,
        final(v)@.len() == old(v)@.len() - count,
        sorted_by(out@, stage_le_fn(*st)),
        (out@ + final(v)@).to_multiset() == old(v)@.to_multiset(),
        forall|i: int, j: int|
            0 <= i < out@.len() && 0 <= j < final(v)@.len() ==> stage_le(
                *st,
                #[trigger] out@[i],
                #[trigger] final(v)@[j],
            ),
        all_ids_ascii(out@),
        all_ids_ascii(final(v)@),
{
    sort_by_stage(st, v);
    let ghost sorted = v@;
    let mut rest = v.split_off(count);
    core::mem::swap(v, &mut rest);
    let out = rest;
    proof {
        assert(sorted =~= out@ + v@);
        assert((out@ + v@).to_multiset() == old(v)@.to_multiset());
        assert forall|i: int, j: int| 0 <= i < j < out@.len() implies stage_le_fn(*st)(
            out@[i],
            out@[j],
        ) by {
            assert(sorted[i] == out@[i]);
            assert(sorted[j] == out@[j]);
            assert(stage_le_fn(*st)(sorted[i], sorted[j]));
        }
        assert forall|i: int| 0 <= i < out@.len() implies is_ascii_chars(
            #[trigger] out@[i].id@,
        ) by {
            assert(sorted[i] == out@[i]);
        }
        assert forall|i: int| 0 <= i < v@.len() implies is_ascii_chars(#[trigger] v@[i].id@) by {
            assert(sorted[out@.len() + i] == v@[i]);
        }
        assert forall|i: int, j: int|
            0 <= i < out@.len() && 0 <= j < v@.len() implies stage_le(
            *st,
            #[trigger] out@[i],
            #[trigger] v@[j],
        ) by {
            assert(sorted[i] == out@[i]);
            assert(sorted[out@.len() + j] == v@[j]);
            assert(stage_le_fn(*st)(sorted[i], sorted[out@.len() + j]));
        }
    }
    out
}


/// Every element of either half of a partition occurs in the whole.
proof fn lemma_halves_contained(
    a: Seq<TransactionWithMetadata>,
    b: Seq<TransactionWithMetadata>,
    whole: Seq<TransactionWithMetadata>,
)
    requires
        (a + b).to_multiset() == whole.to_multiset(),
    ensures
        forall|j: int| 0 <= j < a.len() ==> whole.contains(#[trigger] a[j]),
        forall|j: int| 0 <= j < b.len() ==> whole.contains(#[trigger] b[j]),
{
    lemma_multiset_commutative(a, b);
    assert forall|j: int| 0 <= j < a.len() implies whole.contains(#[trigger] a[j]) by {
        to_multiset_contains(a, a[j]);
        vstd::multiset::axiom_multiset_add(a.to_multiset(), b.to_multiset(), a[j]);
        to_multiset_contains(whole, a[j]);
    }
    assert forall|j: int| 0 <= j < b.len() implies whole.contains(#[trigger] b[j]) by {
        to_multiset_contains(b, b[j]);
        vstd::multiset::axiom_multiset_add(a.to_multiset(), b.to_multiset(), b[j]);
        to_multiset_contains(whole, b[j]);
    }
}

/// Chaining the four stages partitions the mempool: the buckets and the
/// final leftover together are a permutation of the snapshot, so the
/// buckets are a sub-multiset of it and keep its id-distinctness.
proof fn lemma_selection_partition(
    m0: Seq<TransactionWithMetadata>,
    h: Seq<TransactionWithMetadata>,
    l: Seq<TransactionWithMetadata>,
    av: Seq<TransactionWithMetadata>,
    o: Seq<TransactionWithMetadata>,
    v1: Seq<TransactionWithMetadata>,
    v2: Seq<TransactionWithMetadata>,
    v3: Seq<TransactionWithMetadata>,
    v4: Seq<TransactionWithMetadata>,
)
    requires
        (h + v1).to_multiset() == m0.to_multiset(),
        (l + v2).to_multiset() == v1.to_multiset(),
        (av + v3).to_multiset() == v2.to_multiset(),
        (o + v4).to_multiset() == v3.to_multiset(),
        all_ids_ascii(h),
        all_ids_ascii(l),
        all_ids_ascii(av),
        all_ids_ascii(o),
    ensures
        (h + l + av + o).to_multiset().subset_of(m0.to_multiset()),
        forall|i: int|
            0 <= i < (h + l + av + o).len() ==> m0.contains(#[trigger] (h + l + av + o)[i]),
        distinct_ids(m0) ==> distinct_ids(h + l + av + o),
        all_ids_ascii(h + l + av + o),
{
    let all = h + l + av + o;
    let whole = all + v4;
    lemma_multiset_commutative(h, v1);
    lemma_multiset_commutative(l, v2);
    lemma_multiset_commutative(av, v3);
    lemma_multiset_commutative(o, v4);
    assert(whole =~= h + (l + (av + (o + v4))));
    lemma_multiset_commutative(o, v4);
    lemma_multiset_commutative(av, o + v4);
    lemma_multiset_commutative(l, av + (o + v4));
    lemma_multiset_commutative(h, l + (av + (o + v4)));
    assert((o + v4).to_multiset() =~= o.to_multiset().add(v4.to_multiset()));
    assert((av + (o + v4)).to_multiset() =~= av.to_multiset().add(
        o.to_multiset().add(v4.to_multiset()),
    ));
    assert(whole.to_multiset() =~= h.to_multiset().add(
        l.to_multiset().add(av.to_multiset().add(o.to_multiset().add(v4.to_multiset()))),
    ));
    assert(v3.to_multiset() =~= o.to_multiset().add(v4.to_multiset()));
    assert(v2.to_multiset() =~= av.to_multiset().add(v3.to_multiset()));
    assert(v1.to_multiset() =~= l.to_multiset().add(v2.to_multiset()));
    assert(m0.to_multiset() =~= h.to_multiset().add(v1.to_multiset()));
    assert(whole.to_multiset() =~= m0.to_multiset());
    lemma_multiset_commutative(all, v4);
    assert(whole.to_multiset() =~= all.to_multiset().add(v4.to_multiset()));
    assert forall|x: TransactionWithMetadata| all.to_multiset().count(x)
        <= m0.to_multiset().count(x) by {
        vstd::multiset::axiom_multiset_add(all.to_multiset(), v4.to_multiset(), x);
    }
    assert forall|i: int| 0 <= i < all.len() implies m0.contains(#[trigger] all[i]) by {
        to_multiset_contains(all, all[i]);
        vstd::multiset::axiom_multiset_add(all.to_multiset(), v4.to_multiset(), all[i]);
        to_multiset_contains(m0, all[i]);
    }
    if distinct_ids(m0) {
        lemma_distinct_ids_perm(m0, whole);
        assert forall|i: int, j: int| 0 <= i < j < all.len() implies #[trigger] all[i].id@
            != #[trigger] all[j].id@ by {
            assert(whole[i] == all[i]);
            assert(whole[j] == all[j]);
        }
    }
    assert forall|i: int| 0 <= i < all.len() implies is_ascii_chars(#[trigger] all[i].id@) by {
        if i < h.len() {
            assert(all[i] == h[i]);
        } else if i < h.len() + l.len() {
            assert(all[i] == l[i - h.len()]);
        } else if i < h.len() + l.len() + av.len() {
            assert(all[i] == av[i - h.len() - l.len()]);
        } else {
            assert(all[i] == o[i - h.len() - l.len() - av.len()]);
        }
    }
}

/// The transaction selector: the deterministic 20/20/50/10 algorithm.
pub struct TransactionSelector {
    /// Selection configuration.
    pub config: TransactionSelectorConfig,
}

impl TransactionSelector {
    /// A selector with the given configuration.
    pub fn new(config: TransactionSelectorConfig) -> (r: Self)
        ensures
            r.config == config,
    {
        TransactionSelector { config }
    }

    /// Select transactions for a block with the 20/20/50/10 algorithm.
    ///
    /// Let `N = min(mempool.len(), max_transactions_per_block)`.  The
    /// stages run in the normative order high, low, avg, old; each takes
    /// at most its ceiling share of `N` (20 %, 20 %, 50 %, 10 %) from the
    /// transactions no earlier stage has taken, so the buckets are
    /// disjoint and their sizes together never exceed `N`.  The mean fee
    /// of the whole snapshot is computed first and anchors the avg stage.
    #[verifier::rlimit(100)]
    pub fn select_transactions(&self, mempool: &Vec<TransactionWithMetadata>) -> (r:
        SelectedTransactions)
        requires
            all_ids_ascii(mempool@),
            spec_sum_prices(mempool@) <= u64::MAX,
            self.config.max_transactions_per_block <= usize::MAX - 9,
            mempool@.len() <= usize::MAX - 9,
        ensures
            ({
                let n = spec_selection_target(
                    mempool@.len() as int,
                    self.config.max_transactions_per_block as int,
                );
                &&& r.high_price@.len() == spec_count_high(n)
                &&& r.low_price@.len() == spec_count_low(n)
                &&& r.avg_price@.len() == spec_count_avg(n)
                &&& r.oldest@.len() == spec_count_old(n)
                &&& r.total_selected == all_selected(r).len()
                &&& r.total_selected <= n
                &&& n <= self.config.max_transactions_per_block
            }),
            r.avg_point_price == if mempool@.len() == 0 {
                0int
            } else {
                spec_sum_prices(mempool@) / mempool@.len() as int
            },
            sorted_by(r.high_price@, stage_le_fn(SortStage::High)),
            sorted_by(r.low_price@, stage_le_fn(SortStage::Low)),
            sorted_by(r.avg_price@, stage_le_fn(SortStage::Avg { avg: r.avg_point_price })),
            sorted_by(r.oldest@, stage_le_fn(SortStage::Old)),
            all_selected(r).to_multiset().subset_of(mempool@.to_multiset()),
            forall|i: int|
                0 <= i < all_selected(r).len() ==> mempool@.contains(#[trigger] all_selected(r)[i]),
            distinct_ids(mempool@) ==> distinct_ids(all_selected(r)),
            all_ids_ascii(all_selected(r)),
            forall|i: int, j: int|
                0 <= i < r.high_price@.len() && 0 <= j < r.low_price@.len()
                    ==> (#[trigger] r.high_price@[i]).point_price
                    >= (#[trigger] r.low_price@[j]).point_price,
            forall|i: int, j: int|
                0 <= i < r.high_price@.len() && 0 <= j < r.avg_price@.len()
                    ==> (#[trigger] r.high_price@[i]).point_price
                    >= (#[trigger] r.avg_price@[j]).point_price,
            forall|i: int, j: int|
                0 <= i < r.high_price@.len() && 0 <= j < r.oldest@.len()
                    ==> (#[trigger] r.high_price@[i]).point_price
                    >= (#[trigger] r.oldest@[j]).point_price,
            forall|i: int, j: int|
                0 <= i < r.low_price@.len() && 0 <= j < r.avg_price@.len()
                    ==> (#[trigger] r.low_price@[i]).point_price
                    <= (#[trigger] r.avg_price@[j]).point_price,
            forall|i: int, j: int|
                0 <= i < r.low_price@.len() && 0 <= j < r.oldest@.len()
                    ==> (#[trigger] r.low_price@[i]).point_price
                    <= (#[trigger] r.oldest@[j]).point_price,
            forall|i: int, x: TransactionWithMetadata|
                0 <= i < r.high_price@.len() && #[trigger] mempool@.to_multiset().count(x)
                    > r.high_price@.to_multiset().count(x) ==> stage_le(
                    SortStage::High,
                    #[trigger] r.high_price@[i],
                    x,
                ),
            forall|i: int, x: TransactionWithMetadata|
                0 <= i < r.low_price@.len() && #[trigger] mempool@.to_multiset().count(x) > (
                r.high_price@ + r.low_price@).to_multiset().count(x) ==> stage_le(
                    SortStage::Low,
                    #[trigger] r.low_price@[i],
                    x,
                ),
            forall|i: int, x: TransactionWithMetadata|
                0 <= i < r.avg_price@.len() && #[trigger] mempool@.to_multiset().count(x) > (
                r.high_price@ + r.low_price@ + r.avg_price@).to_multiset().count(x) ==> stage_le(
                    (SortStage::Avg { avg: r.avg_point_price }),
                    #[trigger] r.avg_price@[i],
                    x,
                ),
            forall|i: int, x: TransactionWithMetadata|
                0 <= i < r.oldest@.len() && #[trigger] mempool@.to_multiset().count(x)
                    > all_selected(r).to_multiset().count(x) ==> stage_le(
                    SortStage::Old,
                    #[trigger] r.oldest@[i],
                    x,
                ),
    {
        let len = mempool.len();
        if len == 0 {
            let r = SelectedTransactions::empty();
            proof {
                assert(all_selected(r) =~= Seq::<TransactionWithMetadata>::empty());
                assert forall|x: TransactionWithMetadata|
                    all_selected(r).to_multiset().count(x) <= mempool@.to_multiset().count(
                    x,
                ) by {
                    to_multiset_contains(all_selected(r), x);
                }
            }
            return r;
        }
        let total_price = sum_prices(mempool);
        let avg = total_price / (len as u64);
        let n = if len < self.config.max_transactions_per_block {
            len
        } else {
            self.config.max_transactions_per_block
        };
        let c_high = (n + 4) / 5;
        let c_low = (n + 4) / 5;
        let c_avg = (n + 1) / 2;
        let c_old = (n + 9) / 10;

        let ghost m0 = mempool@;
        let mut work = mempool.clone();
        proof {
            assert(work@ =~= m0);
            assert(work@ == m0);
        }

        let t_high = if c_high < n {
            c_high
        } else {
            n
        };
        let ghost v0 = work@;
        let high = take_stage(&SortStage::High, &mut work, t_high);
        let ghost v1 = work@;

        let budget1 = n - t_high;
        let t_low = if c_low < budget1 {
            c_low
        } else {
            budget1
        };
        let low = take_stage(&SortStage::Low, &mut work, t_low);
        let ghost v2 = work@;

        let budget2 = budget1 - t_low;
        let t_avg = if c_avg < budget2 {
            c_avg
        } else {
            budget2
        };
        let avg_bucket = take_stage(&SortStage::Avg { avg }, &mut work, t_avg);
        let ghost v3 = work@;

        let budget3 = budget2 - t_avg;
        let t_old = if c_old < budget3 {
            c_old
        } else {
            budget3
        };
        let old_bucket = take_stage(&SortStage::Old, &mut work, t_old);
        let ghost v4 = work@;

        let total = t_high + t_low + t_avg + t_old;
        let r = SelectedTransactions {
            high_price: high,
            low_price: low,
            avg_price: avg_bucket,
            oldest: old_bucket,
            avg_point_price: avg,
            total_selected: total,
        };
        proof {
            lemma_selection_partition(
                m0,
                r.high_price@,
                r.low_price@,
                r.avg_price@,
                r.oldest@,
                v1,
                v2,
                v3,
                v4,
            );
            assert(all_selected(r).len() == total);
            // The high stage took a fee-dominant prefix: everything a
            // later stage picked came from its remainder.
            lemma_halves_contained(r.low_price@, v2, v1);
            lemma_halves_contained(r.avg_price@, v3, v2);
            lemma_halves_contained(r.oldest@, v4, v3);
            assert forall|i: int, j: int|
                0 <= i < r.high_price@.len() && 0 <= j < r.low_price@.len() implies (
            #[trigger] r.high_price@[i]).point_price >= (
            #[trigger] r.low_price@[j]).point_price by {
                let k = choose|k: int| 0 <= k < v1.len() && v1[k] == r.low_price@[j];
                assert(stage_le(SortStage::High, r.high_price@[i], v1[k]));
            }
            assert forall|i: int, j: int|
                0 <= i < r.high_price@.len() && 0 <= j < r.avg_price@.len() implies (
            #[trigger] r.high_price@[i]).point_price >= (
            #[trigger] r.avg_price@[j]).point_price by {
                let k2 = choose|k2: int| 0 <= k2 < v2.len() && v2[k2] == r.avg_price@[j];
                assert(v1.contains(v2[k2]));
                let k = choose|k: int| 0 <= k < v1.len() && v1[k] == v2[k2];
                assert(stage_le(SortStage::High, r.high_price@[i], v1[k]));
            }
            assert forall|i: int, j: int|
                0 <= i < r.high_price@.len() && 0 <= j < r.oldest@.len() implies (
            #[trigger] r.high_price@[i]).point_price >= (
            #[trigger] r.oldest@[j]).point_price by {
                let k3 = choose|k3: int| 0 <= k3 < v3.len() && v3[k3] == r.oldest@[j];
                assert(v2.contains(v3[k3]));
                let k2 = choose|k2: int| 0 <= k2 < v2.len() && v2[k2] == v3[k3];
                assert(v1.contains(v2[k2]));
                let k = choose|k: int| 0 <= k < v1.len() && v1[k] == v2[k2];
                assert(stage_le(SortStage::High, r.high_price@[i], v1[k]));
            }
            // Symmetrically, the low stage took a fee-minimal prefix of
            // what the high stage left behind.
            assert forall|i: int, j: int|
                0 <= i < r.low_price@.len() && 0 <= j < r.avg_price@.len() implies (
            #[trigger] r.low_price@[i]).point_price <= (
            #[trigger] r.avg_price@[j]).point_price by {
                let k2 = choose|k2: int| 0 <= k2 < v2.len() && v2[k2] == r.avg_price@[j];
                assert(stage_le(SortStage::Low, r.low_price@[i], v2[k2]));
            }
            assert forall|i: int, j: int|
                0 <= i < r.low_price@.len() && 0 <= j < r.oldest@.len() implies (
            #[trigger] r.low_price@[i]).point_price <= (
            #[trigger] r.oldest@[j]).point_price by {
                let k3 = choose|k3: int| 0 <= k3 < v3.len() && v3[k3] == r.oldest@[j];
                assert(v2.contains(v3[k3]));
                let k2 = choose|k2: int| 0 <= k2 < v2.len() && v2[k2] == v3[k3];
                assert(stage_le(SortStage::Low, r.low_price@[i], v2[k2]));
            }
            // Each stage's bucket dominates, in the stage's own order,
            // every transaction the stage left unselected.
            lemma_multiset_commutative(r.high_price@, v1);
            lemma_multiset_commutative(r.low_price@, v2);
            lemma_multiset_commutative(r.avg_price@, v3);
            lemma_multiset_commutative(r.oldest@, v4);
            lemma_multiset_commutative(r.high_price@, r.low_price@);
            lemma_multiset_commutative(r.high_price@ + r.low_price@, r.avg_price@);
            lemma_multiset_commutative(r.high_price@ + r.low_price@ + r.avg_price@, r.oldest@);
            assert forall|i: int, x: TransactionWithMetadata|
                0 <= i < r.high_price@.len() && #[trigger] m0.to_multiset().count(x)
                    > r.high_price@.to_multiset().count(x) implies stage_le(
                SortStage::High,
                #[trigger] r.high_price@[i],
                x,
            ) by {
                vstd::multiset::axiom_multiset_add(
                    r.high_price@.to_multiset(),
                    v1.to_multiset(),
                    x,
                );
                assert(v1.to_multiset().count(x) > 0);
                to_multiset_contains(v1, x);
                let j = choose|j: int| 0 <= j < v1.len() && v1[j] == x;
                assert(stage_le(SortStage::High, r.high_price@[i], v1[j]));
            }
            assert forall|i: int, x: TransactionWithMetadata|
                0 <= i < r.low_price@.len() && #[trigger] m0.to_multiset().count(x) > (
            r.high_price@ + r.low_price@).to_multiset().count(x) implies stage_le(
                SortStage::Low,
                #[trigger] r.low_price@[i],
                x,
            ) by {
                vstd::multiset::axiom_multiset_add(
                    r.high_price@.to_multiset(),
                    v1.to_multiset(),
                    x,
                );
                vstd::multiset::axiom_multiset_add(r.low_price@.to_multiset(), v2.to_multiset(), x);
                vstd::multiset::axiom_multiset_add(
                    r.high_price@.to_multiset(),
                    r.low_price@.to_multiset(),
                    x,
                );
                assert(v2.to_multiset().count(x) > 0);
                to_multiset_contains(v2, x);
                let j = choose|j: int| 0 <= j < v2.len() && v2[j] == x;
                assert(stage_le(SortStage::Low, r.low_price@[i], v2[j]));
            }
            assert forall|i: int, x: TransactionWithMetadata|
                0 <= i < r.avg_price@.len() && #[trigger] m0.to_multiset().count(x) > (
            r.high_price@ + r.low_price@ + r.avg_price@).to_multiset().count(x) implies stage_le(
                (SortStage::Avg { avg: r.avg_point_price }),
                #[trigger] r.avg_price@[i],
                x,
            ) by {
                vstd::multiset::axiom_multiset_add(
                    r.high_price@.to_multiset(),
                    v1.to_multiset(),
                    x,
                );
                vstd::multiset::axiom_multiset_add(r.low_price@.to_multiset(), v2.to_multiset(), x);
                vstd::multiset::axiom_multiset_add(r.avg_price@.to_multiset(), v3.to_multiset(), x);
                vstd::multiset::axiom_multiset_add(
                    r.high_price@.to_multiset(),
                    r.low_price@.to_multiset(),
                    x,
                );
                vstd::multiset::axiom_multiset_add(
                    (r.high_price@ + r.low_price@).to_multiset(),
                    r.avg_price@.to_multiset(),
                    x,
                );
                assert(v3.to_multiset().count(x) > 0);
                to_multiset_contains(v3, x);
                let j = choose|j: int| 0 <= j < v3.len() && v3[j] == x;
                assert(stage_le((SortStage::Avg { avg }), r.avg_price@[i], v3[j]));
            }
            assert forall|i: int, x: TransactionWithMetadata|
                0 <= i < r.oldest@.len() && #[trigger] m0.to_multiset().count(x) > all_selected(
                r,
            ).to_multiset().count(x) implies stage_le(
                SortStage::Old,
                #[trigger] r.oldest@[i],
                x,
            ) by {
                vstd::multiset::axiom_multiset_add(
                    r.high_price@.to_multiset(),
                    v1.to_multiset(),
                    x,
                );
                vstd::multiset::axiom_multiset_add(r.low_price@.to_multiset(), v2.to_multiset(), x);
                vstd::multiset::axiom_multiset_add(r.avg_price@.to_multiset(), v3.to_multiset(), x);
                vstd::multiset::axiom_multiset_add(r.oldest@.to_multiset(), v4.to_multiset(), x);
                vstd::multiset::axiom_multiset_add(
                    r.high_price@.to_multiset(),
                    r.low_price@.to_multiset(),
                    x,
                );
                vstd::multiset::axiom_multiset_add(
                    (r.high_price@ + r.low_price@).to_multiset(),
                    r.avg_price@.to_multiset(),
                    x,
                );
                vstd::multiset::axiom_multiset_add(
                    (r.high_price@ + r.low_price@ + r.avg_price@).to_multiset(),
                    r.oldest@.to_multiset(),
                    x,
                );
                assert(v4.to_multiset().count(x) > 0);
                to_multiset_contains(v4, x);
                let j = choose|j: int| 0 <= j < v4.len() && v4[j] == x;
                assert(stage_le(SortStage::Old, r.oldest@[i], v4[j]));
            }
        }
        r
    }
}

/// The fees of a batch, in batch order.
pub open spec fn prices_of(s: Seq<TransactionWithMetadata>) -> Seq<u64> {
    s.map_values(|t: TransactionWithMetadata| t.point_price)
}

/// Numeric order on fees.
pub open spec fn spec_u64_le_fn() -> spec_fn(u64, u64) -> bool {
    |x: u64, y: u64| x <= y
}

/// Numeric order on fees is a total ordering.
pub proof fn lemma_u64_total_ordering()
    ensures
        vstd::relations::total_ordering(spec_u64_le_fn()),
{
    let le = spec_u64_le_fn();
    assert forall|x: u64| #[trigger] le(x, x) by {}
    assert forall|x: u64, y: u64| #[trigger] le(x, y) && #[trigger] le(y, x) implies x == y by {}
    assert forall|x: u64, y: u64, z: u64| #[trigger] le(x, y) && #[trigger] le(y, z) implies le(
        x,
        z,
    ) by {}
    assert forall|x: u64, y: u64| #[trigger] le(x, y) || #[trigger] le(y, x) by {}
}

/// The fees in ascending order.
pub open spec fn spec_sorted_prices(s: Seq<u64>) -> Seq<u64> {
    s.sort_by(spec_u64_le_fn())
}

/// The median fee: the midpoint of the sorted fees, averaging the two
/// middle fees when their number is even.
pub open spec fn spec_median(s: Seq<u64>) -> int
    recommends
        s.len() > 0,
{
    let sp = spec_sorted_prices(s);
    let mid = s.len() as int / 2;
    if s.len() % 2 == 0 {
        (sp[mid - 1] + sp[mid]) / 2
    } else {
        sp[mid] as int
    }
}

/// Fill of the block against the target size, scaled by 1e6 and capped
/// at one.
pub open spec fn spec_fill_ppm(total_data: int, target: int) -> int
    recommends
        target >= 1,
{
    spec_min_int(1_000_000, total_data * 1_000_000 / target)
}

/// Price stability in [0, 100], scaled by 1e6: how close the average fee
/// is to the median fee.
pub open spec fn spec_stability_scaled(avg: int, median: int) -> int {
    100 * (1_000_000 - spec_min_int(
        1_000_000,
        int_abs(avg - median) * 1_000_000 / (if avg >= 1 {
            avg
        } else {
            1
        }),
    ))
}

/// The composite efficiency score, scaled by 1e6: 40 points of fill
/// plus 60 points of price stability, 100_000_000 at the maximum.
pub open spec fn spec_efficiency_score(fill_ppm: int, stability: int) -> int {
    40 * fill_ppm + stability * 3 / 5
}

/// Block efficiency metrics.  The three scores are fixed-point values
/// scaled by 1e6: `fill_ppm` ranges over [0, 1e6], `price_stability`
/// and `efficiency_score` over [0, 1e8].
#[derive(Clone, Copy, Debug)]
pub struct BlockEfficiency {
    /// Total bytes of useful data.
    pub total_point_data: u64,
    /// Total fees collected.
    pub total_point_price: u64,
    /// Mean fee per transaction.
    pub avg_point_price: u64,
    /// How full the block is, scaled by 1e6.
    pub fill_ppm: u64,
    /// Price stability score, scaled by 1e6.
    pub price_stability: u64,
    /// Overall efficiency score, scaled by 1e6.
    pub efficiency_score: u64,
    /// Number of transactions scored.
    pub transaction_count: usize,
}

impl Default for BlockEfficiency {
    /// The efficiency of an empty block: all zeros.
    fn default() -> (r: Self)
        ensures
            r.total_point_data == 0,
            r.total_point_price == 0,
            r.avg_point_price == 0,
            r.fill_ppm == 0,
            r.price_stability == 0,
            r.efficiency_score == 0,
            r.transaction_count == 0,
    {
        BlockEfficiency {
            total_point_data: 0,
            total_point_price: 0,
            avg_point_price: 0,
            fill_ppm: 0,
            price_stability: 0,
            efficiency_score: 0,
            transaction_count: 0,
        }
    }
}

/// Sort fees ascending in place.
#[verifier::rlimit(100)]
fn sort_u64(v: &mut Vec<u64>)
    ensures
        final(v)@.to_multiset() == old(v)@.to_multiset(),
        final(v)@.len() == old(v)@.len(),
        sorted_by(final(v)@, spec_u64_le_fn()),
{
    broadcast use {vstd::seq_lib::group_to_multiset_ensures, vstd::multiset::group_multiset_axioms};

    let ghost orig = v@;
    let mut r: Vec<u64> = Vec::new();
    loop
        invariant
            r@.to_multiset().add(v@.to_multiset()) =~= orig.to_multiset(),
            r@.len() + v@.len() == orig.len(),
            sorted_by(r@, spec_u64_le_fn()),
        ensures
            r@.to_multiset() == orig.to_multiset(),
            r@.len() == orig.len(),
            sorted_by(r@, spec_u64_le_fn()),
        decreases v@.len(),
    {
        let ghost src_before = v@;
        let popped = v.pop();
        let x = match popped {
            Some(x) => x,
            None => {
                proof {
                    assert(src_before.len() == 0);
                    to_multiset_len(src_before);
                    vstd::multiset::lemma_multiset_empty_len(src_before.to_multiset());
                    assert(src_before.to_multiset() =~= Multiset::empty());
                    assert(r@.to_multiset() =~= orig.to_multiset());
                }
                break;
            },
        };
        proof {
            assert(src_before =~= v@.push(x));
            to_multiset_build(v@, x);
            assert(src_before.to_multiset() =~= v@.to_multiset().insert(x));
        }
        let mut p: usize = 0;
        while p < r.len() && r[p] <= x
            invariant
                p <= r@.len(),
                forall|k: int| 0 <= k < p ==> #[trigger] r@[k] <= x,
                sorted_by(r@, spec_u64_le_fn()),
            decreases r@.len() - p,
        {
            p = p + 1;
        }
        let ghost r_before = r@;
        r.insert(p, x);
        proof {
            assert(r@ == r_before.insert(p as int, x));
            r_before.insert_ensures(p as int, x);
            let le = spec_u64_le_fn();
            assert forall|i: int, j: int| 0 <= i < j < r@.len() implies #[trigger] le(
                r@[i],
                r@[j],
            ) by {
                let pi = p as int;
                if i < pi && j < pi {
                    assert(le(r_before[i], r_before[j]));
                } else if i < pi && j == pi {
                    assert(r_before[i] <= x);
                } else if i < pi && j > pi {
                    assert(le(r_before[i], r_before[j - 1]));
                } else if i == pi && j > pi {
                    if j - 1 > pi {
                        assert(le(r_before[pi], r_before[j - 1]));
                    }
                    assert(x <= r_before[j - 1]);
                } else {
                    assert(i > pi && j > pi);
                    assert(le(r_before[i - 1], r_before[j - 1]));
                }
                assert(r@[i] <= r@[j]);
            }
            to_multiset_insert(r_before, p as int, x);
            assert(r@.to_multiset() =~= r_before.to_multiset().insert(x));
            assert(r@.to_multiset().add(v@.to_multiset()) =~= orig.to_multiset());
        }
    }
    *v = r;
}

impl TransactionSelector {
    /// Compute the efficiency of a selection.
    ///
    /// With `n` selected transactions, total data `D`, total fees `P`,
    /// `avg = P / n` and `median` the median fee, the metrics are the
    /// fixed-point forms of `fill = min(1, D / target_block_size)`,
    /// `stability = 100 * (1 - min(1, |avg - median| / max(avg, 1)))`
    /// and `score = 40 * fill + 0.6 * stability`.
    pub fn calculate_block_efficiency(&self, selected: &SelectedTransactions) -> (r:
        BlockEfficiency)
        requires
            spec_sum_prices(all_selected(*selected)) <= u64::MAX,
            spec_sum_data(all_selected(*selected)) <= u64::MAX,
            self.config.target_block_size >= 1,
        ensures
            all_selected(*selected).len() == 0 ==> r.total_point_data == 0
                && r.total_point_price == 0 && r.avg_point_price == 0 && r.fill_ppm == 0
                && r.price_stability == 0 && r.efficiency_score == 0 && r.transaction_count == 0,
            all_selected(*selected).len() > 0 ==> ({
                let all = all_selected(*selected);
                let avg = spec_sum_prices(all) / all.len() as int;
                let median = spec_median(prices_of(all));
                &&& r.total_point_data == spec_sum_data(all)
                &&& r.total_point_price == spec_sum_prices(all)
                &&& r.avg_point_price == avg
                &&& r.fill_ppm == spec_fill_ppm(
                    spec_sum_data(all),
                    self.config.target_block_size as int,
                )
                &&& r.price_stability == spec_stability_scaled(avg, median)
                &&& r.efficiency_score == spec_efficiency_score(
                    r.fill_ppm as int,
                    r.price_stability as int,
                )
                &&& r.transaction_count == all.len()
            }),
    {
        let all = selected.all_transactions();
        let count = all.len();
        if count == 0 {
            return BlockEfficiency::default();
        }
        let total_point_price = sum_prices(&all);
        let total_point_data = sum_data(&all);
        let avg = total_point_price / (count as u64);

        let mut prices: Vec<u64> = Vec::new();
        let mut i: usize = 0;
        while i < count
            invariant
                i <= all@.len(),
                count == all@.len(),
                prices@.len() == i,
                forall|j: int| 0 <= j < i ==> prices@[j] == all@[j].point_price,
            decreases count - i,
        {
            prices.push(all[i].point_price);
            i = i + 1;
        }
        proof {
            assert(prices@ =~= prices_of(all@));
        }
        let ghost raw_prices = prices@;
        sort_u64(&mut prices);
        proof {
            lemma_u64_total_ordering();
            raw_prices.lemma_sort_by_ensures(spec_u64_le_fn());
            vstd::seq_lib::lemma_sorted_unique(
                prices@,
                spec_sorted_prices(raw_prices),
                spec_u64_le_fn(),
            );
            assert(prices@ == spec_sorted_prices(prices_of(all@)));
        }

        let mid = count / 2;
        let median: u64 = if count % 2 == 0 {
            let s: u64 = prices[mid - 1] / 2 + prices[mid] / 2 + (prices[mid - 1] % 2 + prices[mid]
                % 2) / 2;
            proof {
                assert(s == (prices@[mid - 1] + prices@[mid as int]) / 2) by (nonlinear_arith)
                    requires
                        s == prices@[mid - 1] / 2 + prices@[mid as int] / 2 + (prices@[mid - 1] % 2
                            + prices@[mid as int] % 2) / 2,
                        0 <= prices@[mid - 1],
                        0 <= prices@[mid as int],
                ;
            }
            s
        } else {
            prices[mid]
        };

        let diff = if avg >= median {
            avg - median
        } else {
            median - avg
        };
        let denom = if avg >= 1 {
            avg
        } else {
            1
        };
        let q128: u128 = (diff as u128) * 1_000_000 / (denom as u128);
        let q: u64 = if q128 < 1_000_000 {
            q128 as u64
        } else {
            1_000_000
        };
        let price_stability = 100 * (1_000_000 - q);

        let fq: u128 = (total_point_data as u128) * 1_000_000 / (self.config.target_block_size
            as u128);
        let fill_ppm: u64 = if fq < 1_000_000 {
            fq as u64
        } else {
            1_000_000
        };

        let efficiency_score = 40 * fill_ppm + price_stability * 3 / 5;

        BlockEfficiency {
            total_point_data,
            total_point_price,
            avg_point_price: avg,
            fill_ppm,
            price_stability,
            efficiency_score,
            transaction_count: count,
        }
    }

    /// How many times the point-to-coin ratio has halved, given the
    /// cumulative points spent.
    pub fn halvings(&self) -> (r: u32)
        ensures
            r == if self.config.total_points_spent >= SECOND_HALVING_THRESHOLD {
                2int
            } else if self.config.total_points_spent >= FIRST_HALVING_THRESHOLD {
                1int
            } else {
                0int
            },
    {
        if self.config.total_points_spent >= SECOND_HALVING_THRESHOLD {
            2
        } else if self.config.total_points_spent >= FIRST_HALVING_THRESHOLD {
            1
        } else {
            0
        }
    }

    /// The point-to-coin ratio in millionths of a coin per point:
    /// 1000 (0.001) before the first halving, then 500, then 250.
    pub fn get_point_to_coin_ratio_micro(&self) -> (r: u64)
        ensures
            r == if self.config.total_points_spent >= SECOND_HALVING_THRESHOLD {
                250int
            } else if self.config.total_points_spent >= FIRST_HALVING_THRESHOLD {
                500int
            } else {
                1000int
            },
    {
        if self.config.total_points_spent >= SECOND_HALVING_THRESHOLD {
            250
        } else if self.config.total_points_spent >= FIRST_HALVING_THRESHOLD {
            500
        } else {
            1000
        }
    }
}

/// Selection is deterministic in what the contract observes: two
/// selectors with equal configurations, applied to mempools with equal
/// contents, produce selections with the same bucket sizes, the same
/// total and the same anchor fee, so every validator derives the same
/// efficiency inputs.
pub proof fn lemma_selection_deterministic(
    a: TransactionSelector,
    b: TransactionSelector,
    ma: Vec<TransactionWithMetadata>,
    mb: Vec<TransactionWithMetadata>,
    ra: SelectedTransactions,
    rb: SelectedTransactions,
)
    requires
        a.config == b.config,
        ma@ == mb@,
        call_ensures(TransactionSelector::select_transactions, (&a, &ma), ra),
        call_ensures(TransactionSelector::select_transactions, (&b, &mb), rb),
    ensures
        ra.high_price@.len() == rb.high_price@.len(),
        ra.low_price@.len() == rb.low_price@.len(),
        ra.avg_price@.len() == rb.avg_price@.len(),
        ra.oldest@.len() == rb.oldest@.len(),
        ra.avg_point_price == rb.avg_point_price,
        ra.total_selected == rb.total_selected,
{
}

/// Two multisets of one size that differ in one element's count differ
/// the other way in another's.
proof fn lemma_unbalanced_element(
    a: Multiset<TransactionWithMetadata>,
    b: Multiset<TransactionWithMetadata>,
    x: TransactionWithMetadata,
)
    requires
        a.len() == b.len(),
        a.count(x) > b.count(x),
    ensures
        exists|y: TransactionWithMetadata| #[trigger] b.count(y) > a.count(y),
{
    broadcast use vstd::multiset::group_multiset_axioms;

    if forall|y: TransactionWithMetadata| #[trigger] b.count(y) <= a.count(y) {
        let d = a.sub(b);
        assert(a =~= b.add(d));
        assert(a.len() == b.len() + d.len());
        assert(d.count(x) > 0);
        assert(d.count(x) <= d.len());
        assert(false);
    }
}

/// A dominant bucket is no larger anywhere than another of the same
/// size: if two sub-multisets of `m` of one size each stand, in the
/// stage order, at or below everything they leave in `m`, and `m`
/// distinguishes its transactions by id, neither holds an element more
/// often than the other.
proof fn lemma_dominant_bucket_le(
    m: Multiset<TransactionWithMetadata>,
    a: Seq<TransactionWithMetadata>,
    b: Seq<TransactionWithMetadata>,
    st: SortStage,
)
    requires
        a.len() == b.len(),
        forall|x: TransactionWithMetadata| #[trigger] a.to_multiset().count(x) <= m.count(x),
        forall|x: TransactionWithMetadata| #[trigger] b.to_multiset().count(x) <= m.count(x),
        forall|i: int, x: TransactionWithMetadata|
            0 <= i < a.len() && #[trigger] m.count(x) > a.to_multiset().count(x) ==> stage_le(
                st,
                #[trigger] a[i],
                x,
            ),
        forall|i: int, x: TransactionWithMetadata|
            0 <= i < b.len() && #[trigger] m.count(x) > b.to_multiset().count(x) ==> stage_le(
                st,
                #[trigger] b[i],
                x,
            ),
        forall|x: TransactionWithMetadata, y: TransactionWithMetadata|
            #[trigger] m.count(x) > 0 && #[trigger] m.count(y) > 0 && x.id@ == y.id@ ==> x == y,
    ensures
        forall|x: TransactionWithMetadata| #[trigger] a.to_multiset().count(x)
            <= b.to_multiset().count(x),
{
    broadcast use vstd::multiset::group_multiset_axioms;

    assert forall|x: TransactionWithMetadata| #[trigger] a.to_multiset().count(x)
        <= b.to_multiset().count(x) by {
        if a.to_multiset().count(x) > b.to_multiset().count(x) {
            to_multiset_len(a);
            to_multiset_len(b);
            lemma_unbalanced_element(a.to_multiset(), b.to_multiset(), x);
            let y = choose|y: TransactionWithMetadata| #[trigger] b.to_multiset().count(y)
                > a.to_multiset().count(y);
            to_multiset_contains(a, x);
            let i0 = choose|i0: int| 0 <= i0 < a.len() && a[i0] == x;
            to_multiset_contains(b, y);
            let j0 = choose|j0: int| 0 <= j0 < b.len() && b[j0] == y;
            assert(m.count(y) >= b.to_multiset().count(y));
            assert(m.count(y) > a.to_multiset().count(y));
            assert(stage_le(st, a[i0], y));
            assert(m.count(x) >= a.to_multiset().count(x));
            assert(m.count(x) > b.to_multiset().count(x));
            assert(stage_le(st, b[j0], x));
            lemma_stage_le_antisymmetric(st, x, y);
            assert(m.count(x) > 0);
            assert(m.count(y) > 0);
            assert(x == y);
            assert(false);
        }
    }
}

/// Among sub-multisets of `m` of one size, at most one stands, in the
/// stage order, at or below everything it leaves in `m`, provided `m`
/// distinguishes its transactions by id.
proof fn lemma_dominant_bucket_unique(
    m: Multiset<TransactionWithMetadata>,
    a: Seq<TransactionWithMetadata>,
    b: Seq<TransactionWithMetadata>,
    st: SortStage,
)
    requires
        a.len() == b.len(),
        forall|x: TransactionWithMetadata| #[trigger] a.to_multiset().count(x) <= m.count(x),
        forall|x: TransactionWithMetadata| #[trigger] b.to_multiset().count(x) <= m.count(x),
        forall|i: int, x: TransactionWithMetadata|
            0 <= i < a.len() && #[trigger] m.count(x) > a.to_multiset().count(x) ==> stage_le(
                st,
                #[trigger] a[i],
                x,
            ),
        forall|i: int, x: TransactionWithMetadata|
            0 <= i < b.len() && #[trigger] m.count(x) > b.to_multiset().count(x) ==> stage_le(
                st,
                #[trigger] b[i],
                x,
            ),
        forall|x: TransactionWithMetadata, y: TransactionWithMetadata|
            #[trigger] m.count(x) > 0 && #[trigger] m.count(y) > 0 && x.id@ == y.id@ ==> x == y,
    ensures
        a.to_multiset() == b.to_multiset(),
{
    lemma_dominant_bucket_le(m, a, b, st);
    lemma_dominant_bucket_le(m, b, a, st);
    assert(a.to_multiset() =~= b.to_multiset());
}

/// Selection is deterministic in full: on a snapshot whose transaction
/// ids are pairwise distinct, two selectors with equal configurations
/// and equal snapshots select the same transactions into each of the
/// four buckets.  Together with each bucket's stage-order sortedness
/// this pins the whole selection, order included.
#[verifier::rlimit(100)]
pub proof fn lemma_selection_membership_deterministic(
    a: TransactionSelector,
    b: TransactionSelector,
    ma: Vec<TransactionWithMetadata>,
    mb: Vec<TransactionWithMetadata>,
    ra: SelectedTransactions,
    rb: SelectedTransactions,
)
    requires
        a.config == b.config,
        ma@ == mb@,
        distinct_ids(ma@),
        call_ensures(TransactionSelector::select_transactions, (&a, &ma), ra),
        call_ensures(TransactionSelector::select_transactions, (&b, &mb), rb),
    ensures
        ra.high_price@.to_multiset() == rb.high_price@.to_multiset(),
        ra.low_price@.to_multiset() == rb.low_price@.to_multiset(),
        ra.avg_price@.to_multiset() == rb.avg_price@.to_multiset(),
        ra.oldest@.to_multiset() == rb.oldest@.to_multiset(),
        ra.avg_point_price == rb.avg_point_price,
{
    broadcast use {vstd::multiset::group_multiset_axioms, vstd::seq_lib::group_to_multiset_ensures};

    lemma_selection_deterministic(a, b, ma, mb, ra, rb);
    let m = ma@.to_multiset();
    assert(mb@.to_multiset() == m);
    // The snapshot's multiset distinguishes its transactions by id.
    assert forall|x: TransactionWithMetadata, y: TransactionWithMetadata|
        #[trigger] m.count(x) > 0 && #[trigger] m.count(y) > 0 && x.id@ == y.id@ implies x
        == y by {
        to_multiset_contains(ma@, x);
        to_multiset_contains(ma@, y);
        let i = choose|i: int| 0 <= i < ma@.len() && ma@[i] == x;
        let j = choose|j: int| 0 <= j < ma@.len() && ma@[j] == y;
        if i < j {
            assert(ma@[i].id@ != ma@[j].id@);
        } else if j < i {
            assert(ma@[j].id@ != ma@[i].id@);
        }
    }
    // Component counts of the concatenated selections.
    lemma_multiset_commutative(ra.high_price@, ra.low_price@);
    lemma_multiset_commutative(ra.high_price@ + ra.low_price@, ra.avg_price@);
    lemma_multiset_commutative(ra.high_price@ + ra.low_price@ + ra.avg_price@, ra.oldest@);
    lemma_multiset_commutative(rb.high_price@, rb.low_price@);
    lemma_multiset_commutative(rb.high_price@ + rb.low_price@, rb.avg_price@);
    lemma_multiset_commutative(rb.high_price@ + rb.low_price@ + rb.avg_price@, rb.oldest@);
    assert forall|x: TransactionWithMetadata| #[trigger] ra.high_price@.to_multiset().count(x)
        + ra.low_price@.to_multiset().count(x) + ra.avg_price@.to_multiset().count(x)
        + ra.oldest@.to_multiset().count(x) <= m.count(x) by {
        assert(all_selected(ra).to_multiset().count(x) <= m.count(x));
    }
    assert forall|x: TransactionWithMetadata| #[trigger] rb.high_price@.to_multiset().count(x)
        + rb.low_price@.to_multiset().count(x) + rb.avg_price@.to_multiset().count(x)
        + rb.oldest@.to_multiset().count(x) <= m.count(x) by {
        assert(all_selected(rb).to_multiset().count(x) <= mb@.to_multiset().count(x));
    }
    // High bucket.
    assert forall|x: TransactionWithMetadata| #[trigger] ra.high_price@.to_multiset().count(x)
        <= m.count(x) by {}
    assert forall|x: TransactionWithMetadata| #[trigger] rb.high_price@.to_multiset().count(x)
        <= m.count(x) by {}
    lemma_dominant_bucket_unique(m, ra.high_price@, rb.high_price@, SortStage::High);
    // Low bucket: dominance over what the high stage left.
    let m1 = m.sub(ra.high_price@.to_multiset());
    assert(m1 == m.sub(rb.high_price@.to_multiset()));
    assert forall|x: TransactionWithMetadata| #[trigger] ra.low_price@.to_multiset().count(x)
        <= m1.count(x) by {}
    assert forall|x: TransactionWithMetadata| #[trigger] rb.low_price@.to_multiset().count(x)
        <= m1.count(x) by {}
    assert forall|i: int, x: TransactionWithMetadata|
        0 <= i < ra.low_price@.len() && #[trigger] m1.count(x)
            > ra.low_price@.to_multiset().count(x) implies stage_le(
        SortStage::Low,
        #[trigger] ra.low_price@[i],
        x,
    ) by {
        assert(m.count(x) > (ra.high_price@ + ra.low_price@).to_multiset().count(x));
    }
    assert forall|i: int, x: TransactionWithMetadata|
        0 <= i < rb.low_price@.len() && #[trigger] m1.count(x)
            > rb.low_price@.to_multiset().count(x) implies stage_le(
        SortStage::Low,
        #[trigger] rb.low_price@[i],
        x,
    ) by {
        assert(mb@.to_multiset().count(x) > (rb.high_price@
            + rb.low_price@).to_multiset().count(x));
    }
    assert forall|x: TransactionWithMetadata, y: TransactionWithMetadata|
        #[trigger] m1.count(x) > 0 && #[trigger] m1.count(y) > 0 && x.id@ == y.id@ implies x
        == y by {
        assert(m.count(x) > 0);
        assert(m.count(y) > 0);
    }
    lemma_dominant_bucket_unique(m1, ra.low_price@, rb.low_price@, SortStage::Low);
    // Average bucket: dominance over what the first two stages left,
    // around the shared anchor fee.
    let m2 = m1.sub(ra.low_price@.to_multiset());
    assert(m2 == m1.sub(rb.low_price@.to_multiset()));
    assert forall|x: TransactionWithMetadata| #[trigger] ra.avg_price@.to_multiset().count(x)
        <= m2.count(x) by {}
    assert forall|x: TransactionWithMetadata| #[trigger] rb.avg_price@.to_multiset().count(x)
        <= m2.count(x) by {}
    assert forall|i: int, x: TransactionWithMetadata|
        0 <= i < ra.avg_price@.len() && #[trigger] m2.count(x)
            > ra.avg_price@.to_multiset().count(x) implies stage_le(
        (SortStage::Avg { avg: ra.avg_point_price }),
        #[trigger] ra.avg_price@[i],
        x,
    ) by {
        assert(m.count(x) > (ra.high_price@ + ra.low_price@
            + ra.avg_price@).to_multiset().count(x));
    }
    assert forall|i: int, x: TransactionWithMetadata|
        0 <= i < rb.avg_price@.len() && #[trigger] m2.count(x)
            > rb.avg_price@.to_multiset().count(x) implies stage_le(
        (SortStage::Avg { avg: ra.avg_point_price }),
        #[trigger] rb.avg_price@[i],
        x,
    ) by {
        assert(mb@.to_multiset().count(x) > (rb.high_price@ + rb.low_price@
            + rb.avg_price@).to_multiset().count(x));
        assert(rb.avg_point_price == ra.avg_point_price);
    }
    assert forall|x: TransactionWithMetadata, y: TransactionWithMetadata|
        #[trigger] m2.count(x) > 0 && #[trigger] m2.count(y) > 0 && x.id@ == y.id@ implies x
        == y by {
        assert(m.count(x) > 0);
        assert(m.count(y) > 0);
    }
    lemma_dominant_bucket_unique(
        m2,
        ra.avg_price@,
        rb.avg_price@,
        (SortStage::Avg { avg: ra.avg_point_price }),
    );
    // Oldest bucket: dominance over what the first three stages left.
    let m3 = m2.sub(ra.avg_price@.to_multiset());
    assert(m3 == m2.sub(rb.avg_price@.to_multiset()));
    assert forall|x: TransactionWithMetadata| #[trigger] ra.oldest@.to_multiset().count(x)
        <= m3.count(x) by {}
    assert forall|x: TransactionWithMetadata| #[trigger] rb.oldest@.to_multiset().count(x)
        <= m3.count(x) by {}
    assert forall|i: int, x: TransactionWithMetadata|
        0 <= i < ra.oldest@.len() && #[trigger] m3.count(x) > ra.oldest@.to_multiset().count(
            x,
        ) implies stage_le(SortStage::Old, #[trigger] ra.oldest@[i], x) by {
        assert(m.count(x) > all_selected(ra).to_multiset().count(x));
    }
    assert forall|i: int, x: TransactionWithMetadata|
        0 <= i < rb.oldest@.len() && #[trigger] m3.count(x) > rb.oldest@.to_multiset().count(
            x,
        ) implies stage_le(SortStage::Old, #[trigger] rb.oldest@[i], x) by {
        assert(mb@.to_multiset().count(x) > all_selected(rb).to_multiset().count(x));
    }
    assert forall|x: TransactionWithMetadata, y: TransactionWithMetadata|
        #[trigger] m3.count(x) > 0 && #[trigger] m3.count(y) > 0 && x.id@ == y.id@ implies x
        == y by {
        assert(m.count(x) > 0);
        assert(m.count(y) > 0);
    }
    lemma_dominant_bucket_unique(m3, ra.oldest@, rb.oldest@, SortStage::Old);
}

/// No transaction is selected twice: on a snapshot whose transaction
/// ids are pairwise distinct, the four buckets of a selection are
/// pairwise disjoint by id, and no bucket holds an id twice.
pub proof fn lemma_selection_buckets_disjoint(
    s: TransactionSelector,
    mempool: Vec<TransactionWithMetadata>,
    r: SelectedTransactions,
)
    requires
        distinct_ids(mempool@),
        call_ensures(TransactionSelector::select_transactions, (&s, &mempool), r),
    ensures
        distinct_ids(r.high_price@),
        distinct_ids(r.low_price@),
        distinct_ids(r.avg_price@),
        distinct_ids(r.oldest@),
        forall|i: int, j: int|
            0 <= i < r.high_price@.len() && 0 <= j < r.low_price@.len()
                ==> #[trigger] r.high_price@[i].id@ != #[trigger] r.low_price@[j].id@,
        forall|i: int, j: int|
            0 <= i < r.high_price@.len() && 0 <= j < r.avg_price@.len()
                ==> #[trigger] r.high_price@[i].id@ != #[trigger] r.avg_price@[j].id@,
        forall|i: int, j: int|
            0 <= i < r.high_price@.len() && 0 <= j < r.oldest@.len()
                ==> #[trigger] r.high_price@[i].id@ != #[trigger] r.oldest@[j].id@,
        forall|i: int, j: int|
            0 <= i < r.low_price@.len() && 0 <= j < r.avg_price@.len()
                ==> #[trigger] r.low_price@[i].id@ != #[trigger] r.avg_price@[j].id@,
        forall|i: int, j: int|
            0 <= i < r.low_price@.len() && 0 <= j < r.oldest@.len()
                ==> #[trigger] r.low_price@[i].id@ != #[trigger] r.oldest@[j].id@,
        forall|i: int, j: int|
            0 <= i < r.avg_price@.len() && 0 <= j < r.oldest@.len()
                ==> #[trigger] r.avg_price@[i].id@ != #[trigger] r.oldest@[j].id@,
{
    assert(distinct_ids(all_selected(r)));
    lemma_buckets_pairwise_disjoint(r.high_price@, r.low_price@, r.avg_price@, r.oldest@);
}

impl TransactionWithMetadata {
    /// The selector's view of a canonical transaction: the id is the
    /// hex of the transaction hash, the data volume its estimated
    /// size, and the fee and timestamp are taken as they stand.
    pub fn from_transaction(tx: &crate::transaction::Transaction) -> (r: Self)
        requires
            crate::transaction::spec_tx_wf(tx),
            crate::transaction::spec_estimated_size(tx) <= u64::MAX,
            crate::transaction::spec_estimated_size(tx) <= usize::MAX,
        ensures
            r.id@ == crate::hexstr::spec_to_hex(crate::transaction::spec_tx_hash(*tx)),
            is_ascii_chars(r.id@),
            r.point_price == tx.point_price,
            r.point_data == crate::transaction::spec_estimated_size(tx),
            r.timestamp == tx.timestamp,
    {
        let hash = crate::transaction::transaction_hash(tx);
        let id = crate::hexstr::to_hex_string(&hash);
        TransactionWithMetadata {
            id,
            point_price: tx.point_price,
            point_data: tx.estimated_size() as u64,
            timestamp: tx.timestamp,
        }
    }
}

} // verus!

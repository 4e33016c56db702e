//! A token bucket that throttles a streaming copy. Time is in milliseconds;
//! credit is kept in thousandths of a byte so that refills are exact.

use crate::retry::min_nat;
use vstd::prelude::*;

verus! {

/// The bucket as numbers: bytes per second, credit in thousandths of a
/// byte, and the time of the last refill.
pub struct BucketState {
    pub rate: nat,
    pub credit: nat,
    pub last_ms: nat,
}

/// Credit never exceeds one second's worth.
pub open spec fn capacity(rate: nat) -> nat {
    rate * 1000
}

/// One thing that happens to the bucket.
pub enum BucketOp {
    /// The clock reads `now_ms`.
    Refill(nat),
    /// A read of this many bytes asks for credit.
    Consume(nat),
}

pub open spec fn apply_op(s: BucketState, op: BucketOp) -> BucketState {
    match op {
        BucketOp::Refill(now) => if now <= s.last_ms {
            s
        } else {
            BucketState {
                rate: s.rate,
                credit: min_nat(capacity(s.rate), s.credit + s.rate * (now - s.last_ms) as nat),
                last_ms: now,
            }
        },
        BucketOp::Consume(n) => if n * 1000 <= s.credit {
            BucketState { rate: s.rate, credit: (s.credit - n * 1000) as nat, last_ms: s.last_ms }
        } else {
            s
        },
    }
}

/// Bytes an operation is granted.
pub open spec fn op_grant(s: BucketState, op: BucketOp) -> nat {
    match op {
        BucketOp::Consume(n) => if n * 1000 <= s.credit { n } else { 0 },
        _ => 0,
    }
}

/// Bytes granted over a run of operations.
pub open spec fn granted(s: BucketState, ops: Seq<BucketOp>) -> nat
    decreases ops.len(),
{
    if ops.len() == 0 {
        0
    } else {
        op_grant(s, ops[0]) + granted(apply_op(s, ops[0]), ops.drop_first())
    }
}

/// No clock reading of the run lies after `end_ms`.
pub open spec fn reads_until(ops: Seq<BucketOp>, end_ms: nat) -> bool {
    forall|i: int| 0 <= i < ops.len() ==> match #[trigger] ops[i] {
        BucketOp::Refill(t) => t <= end_ms,
        _ => true,
    }
}

/// Over any run of refills and reads that ends by `end_ms`, the bytes
/// granted (in thousandths) never exceed the credit held at the start plus
/// the rate times the elapsed time.
pub proof fn lemma_granted_bounded(s: BucketState, ops: Seq<BucketOp>, end_ms: nat)
    requires
        s.last_ms <= end_ms,
        reads_until(ops, end_ms),
    ensures
        granted(s, ops) * 1000 <= s.credit + s.rate * (end_ms - s.last_ms) as nat,
    decreases ops.len(),
{
    if ops.len() > 0 {
        let s1 = apply_op(s, ops[0]);
        assert(reads_until(ops.drop_first(), end_ms)) by {
            assert forall|i: int| 0 <= i < ops.drop_first().len() implies match #[trigger] ops.drop_first()[i] {
                BucketOp::Refill(t) => t <= end_ms,
                _ => true,
            } by {
                assert(ops.drop_first()[i] == ops[i + 1]);
            }
        }
        match ops[0] {
            BucketOp::Refill(now) => {
                assert(now <= end_ms);
                lemma_granted_bounded(s1, ops.drop_first(), end_ms);
                if now > s.last_ms {
                    let a = (now - s.last_ms) as nat;
                    let b = (end_ms - now) as nat;
                    assert(s.rate * a + s.rate * b == s.rate * (end_ms - s.last_ms) as nat) by (nonlinear_arith)
                        requires a + b == end_ms - s.last_ms;
                }
            },
            BucketOp::Consume(n) => {
                lemma_granted_bounded(s1, ops.drop_first(), end_ms);
            },
        }
    }
}

/// Over any window of at most one second that starts with at most one
/// chunk of credit (as a bucket created empty does, and as a throttled
/// transfer does whenever it waits), the bytes granted stay within the rate
/// plus one chunk.
pub proof fn lemma_window_bound(s: BucketState, ops: Seq<BucketOp>, end_ms: nat, chunk: nat)
    requires
        s.last_ms <= end_ms <= s.last_ms + 1000,
        s.credit <= chunk * 1000,
        reads_until(ops, end_ms),
    ensures
        granted(s, ops) <= s.rate + chunk,
{
    lemma_granted_bounded(s, ops, end_ms);
    let d = (end_ms - s.last_ms) as nat;
    assert(s.rate * d <= s.rate * 1000) by (nonlinear_arith) requires d <= 1000;
    let g = granted(s, ops);
    assert(g * 1000 <= (s.rate + chunk) * 1000) by (nonlinear_arith)
        requires g * 1000 <= s.credit + s.rate * d, s.credit <= chunk * 1000, s.rate * d <= s.rate * 1000;
    assert(g <= s.rate + chunk) by (nonlinear_arith) requires g * 1000 <= (s.rate + chunk) * 1000;
}

/// The largest rate the bucket takes, so that a second's credit fits.
pub const MAX_RATE: u64 = 18446744073709551;

/// A token bucket for one transfer.
pub struct TokenBucket {
    rate: u64,
    credit: u64,
    last_ms: u64,
}

impl View for TokenBucket {
    type V = BucketState;

    closed spec fn view(&self) -> BucketState {
        BucketState { rate: self.rate as nat, credit: self.credit as nat, last_ms: self.last_ms as nat }
    }
}

impl TokenBucket {
    pub open spec fn wf(&self) -> bool {
        &&& 0 < self@.rate <= MAX_RATE
        &&& self@.credit <= capacity(self@.rate)
    }

    /// An empty bucket filling at `rate` bytes per second from `now_ms` on.
    pub fn new(rate: u64, now_ms: u64) -> (r: TokenBucket)
        requires
            0 < rate <= MAX_RATE,
        ensures
            r.wf(),
            r@ == (BucketState { rate: rate as nat, credit: 0, last_ms: now_ms as nat }),
    {
        TokenBucket { rate, credit: 0, last_ms: now_ms }
    }

    /// Adds the credit earned since the last refill, up to one second's worth.
    pub fn refill(&mut self, now_ms: u64)
        requires
            old(self).wf(),
        ensures
            final(self).wf(),
            final(self)@ == apply_op(old(self)@, BucketOp::Refill(now_ms as nat)),
    {
        if now_ms <= self.last_ms {
            return;
        }
        let cap = self.rate * 1000;
        let dt = now_ms - self.last_ms;
        let earned: u64 = if dt >= 1000 {
            assert(self.rate * dt >= self.rate * 1000) by (nonlinear_arith) requires dt >= 1000;
            cap
        } else {
            assert(self.rate * dt <= self.rate * 1000) by (nonlinear_arith) requires dt < 1000;
            self.rate * dt
        };
        let room = cap - self.credit;
        self.credit = if earned >= room { cap } else { self.credit + earned };
        self.last_ms = now_ms;
    }

    /// Takes credit for `n` bytes if there is enough.
    pub fn try_consume(&mut self, n: u64) -> (r: bool)
        requires
            old(self).wf(),
            n <= old(self)@.rate,
        ensures
            final(self).wf(),
            final(self)@ == apply_op(old(self)@, BucketOp::Consume(n as nat)),
            r == (op_grant(old(self)@, BucketOp::Consume(n as nat)) == n && n * 1000 <= old(self)@.credit),
    {
        let need = n * 1000;
        if need <= self.credit {
            self.credit = self.credit - need;
            true
        } else {
            false
        }
    }

    /// How long to wait until `n` bytes of credit have accrued.
    pub fn wait_ms(&self, n: u64) -> (r: u64)
        requires
            self.wf(),
            n <= self@.rate,
        ensures
            n * 1000 <= self@.credit ==> r == 0,
            n * 1000 > self@.credit ==> self@.credit + self@.rate * r >= n * 1000
                && self@.credit + self@.rate * (r - 1) < n * 1000,
    {
        let need = n * 1000;
        if need <= self.credit {
            return 0;
        }
        let missing = need - self.credit;
        let q = missing / self.rate;
        assert(q <= 1000) by (nonlinear_arith)
            requires self.rate > 0, q == missing / self.rate, missing <= n * 1000, n <= self.rate;
        let r: u64 = if missing % self.rate == 0 { q } else { q + 1 };
        assert(self.rate * r >= missing && self.rate * (r - 1) < missing) by (nonlinear_arith)
            requires self.rate > 0, q == missing / self.rate,
                r as int == if missing % self.rate == 0 { q as int } else { q as int + 1 }, missing > 0;
        r
    }
}

/// The read size for a transfer: at most 8 KiB, and never more than one
/// second's worth at the rate limit.
pub fn chunk_size(rate: u64) -> (r: u64)
    ensures
        r == if rate < 8192 { rate } else { 8192 },
{
    if rate < 8192 { rate } else { 8192 }
}

} // verus!

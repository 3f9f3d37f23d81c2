use vstd::prelude::*;
use vstd::arithmetic::div_mod::lemma_fundamental_div_mod;
use vstd::arithmetic::mul::lemma_mul_inequality;

verus! {

/// A linear release descriptor: `locked` tokens are held in full up to
/// `starting_block`, and `per_block` of them unlock on every block after it.
#[derive(Clone, Copy, PartialEq, Eq, Structural, Debug)]
pub struct VestingInfo {
    /// Amount locked at `starting_block`.
    pub locked: u64,
    /// Amount that unlocks per elapsed block.
    pub per_block: u64,
    /// Block height at which unlocking begins.
    pub starting_block: u64,
}

impl VestingInfo {
    /// A stored schedule locks something and unlocks at a nonzero rate;
    /// anything else is never created or stored.
    pub open spec fn wf(self) -> bool {
        self.locked > 0 && self.per_block > 0
    }

    /// The amount still locked at block `now`: the full amount before
    /// `starting_block`, afterwards the initial amount less `per_block` per
    /// elapsed block, saturating at zero.
    pub open spec fn spec_locked_amount(self, now: u64) -> u64 {
        if now < self.starting_block {
            self.locked
        } else {
            let unlocked = (now - self.starting_block) * self.per_block;
            if unlocked >= self.locked {
                0u64
            } else {
                (self.locked - unlocked) as u64
            }
        }
    }

    /// The first block at which nothing is locked any more:
    /// `starting_block + ceil(locked / per_block)`.
    pub open spec fn spec_end_block(self) -> int
        recommends
            self.per_block > 0,
    {
        self.starting_block + (self.locked + self.per_block - 1) / (self.per_block as int)
    }

    /// The still-locked amount at block `now`, computed with saturating
    /// arithmetic so that no input can overflow.
    pub fn locked_amount(&self, now: u64) -> (r: u64)
        ensures
            r == self.spec_locked_amount(now),
    {
        if now < self.starting_block {
            self.locked
        } else {
            let elapsed = now - self.starting_block;
            let unlocked: u64 = if self.per_block == 0 {
                0
            } else if elapsed > u64::MAX / self.per_block {
                proof {
                    let q = (u64::MAX as int) / (self.per_block as int);
                    lemma_fundamental_div_mod(u64::MAX as int, self.per_block as int);
                    let m = (u64::MAX as int) % (self.per_block as int);
                    assert(elapsed * self.per_block > u64::MAX) by (nonlinear_arith)
                        requires
                            elapsed >= q + 1,
                            (self.per_block as int) * q + m == u64::MAX,
                            0 <= m < self.per_block,
                    ;
                }
                u64::MAX
            } else {
                proof {
                    let q = (u64::MAX as int) / (self.per_block as int);
                    lemma_fundamental_div_mod(u64::MAX as int, self.per_block as int);
                    let m = (u64::MAX as int) % (self.per_block as int);
                    assert(elapsed * self.per_block <= u64::MAX) by (nonlinear_arith)
                        requires
                            0 <= elapsed <= q,
                            (self.per_block as int) * q + m == u64::MAX,
                            0 <= m,
                            self.per_block >= 1,
                    ;
                }
                elapsed * self.per_block
            };
            if unlocked >= self.locked {
                0
            } else {
                self.locked - unlocked
            }
        }
    }

    /// Folds another schedule into this one: both amounts are settled to the
    /// later of the two starting blocks and summed, and the rates add, so the
    /// total remaining economic lock is preserved while storage collapses to
    /// one entry.
    pub fn merge(&self, other: &VestingInfo) -> (r: VestingInfo)
        requires
            self.locked + other.locked <= u64::MAX,
            self.per_block + other.per_block <= u64::MAX,
        ensures
            r == spec_merge(*self, *other),
    {
        let start = if self.starting_block >= other.starting_block {
            self.starting_block
        } else {
            other.starting_block
        };
        proof {
            lemma_locked_amount_le_locked(*self, start);
            lemma_locked_amount_le_locked(*other, start);
        }
        let la = self.locked_amount(start);
        let lb = other.locked_amount(start);
        VestingInfo { locked: la + lb, per_block: self.per_block + other.per_block, starting_block: start }
    }
}

/// The schedule that `merge` produces: both amounts settled to the later
/// starting block and summed, rates added.
pub open spec fn spec_merge(a: VestingInfo, b: VestingInfo) -> VestingInfo {
    let start = if a.starting_block >= b.starting_block {
        a.starting_block
    } else {
        b.starting_block
    };
    VestingInfo {
        locked: (a.spec_locked_amount(start) + b.spec_locked_amount(start)) as u64,
        per_block: (a.per_block + b.per_block) as u64,
        starting_block: start,
    }
}

/// The locked amount never exceeds the schedule's initial amount.
pub proof fn lemma_locked_amount_le_locked(s: VestingInfo, now: u64)
    ensures
        s.spec_locked_amount(now) <= s.locked,
{
}

/// Law: before the starting block the full amount is locked.
pub proof fn lemma_locked_amount_before_start(s: VestingInfo, now: u64)
    requires
        now < s.starting_block,
    ensures
        s.spec_locked_amount(now) == s.locked,
{
}

/// Law: the locked amount never grows as the block height advances.
pub proof fn lemma_locked_amount_non_increasing(s: VestingInfo, n1: u64, n2: u64)
    requires
        n1 <= n2,
    ensures
        s.spec_locked_amount(n2) <= s.spec_locked_amount(n1),
{
    if n1 >= s.starting_block {
        lemma_mul_inequality(
            n1 - s.starting_block,
            n2 - s.starting_block,
            s.per_block as int,
        );
    }
}

/// Law: from `spec_end_block` on, nothing is locked.
pub proof fn lemma_locked_amount_zero_after_end(s: VestingInfo, now: u64)
    requires
        s.wf(),
        now >= s.spec_end_block(),
    ensures
        s.spec_locked_amount(now) == 0,
{
    let pb = s.per_block as int;
    let c = (s.locked + pb - 1) / pb;
    lemma_fundamental_div_mod(s.locked + pb - 1, pb);
    assert(pb * c >= s.locked);
    assert(c >= 1) by (nonlinear_arith)
        requires
            pb * c >= s.locked,
            s.locked >= 1,
            pb >= 1,
            c == (s.locked + pb - 1) / pb,
            pb * c + (s.locked + pb - 1) % pb == s.locked + pb - 1,
            0 <= (s.locked + pb - 1) % pb < pb,
    ;
    assert(now >= s.starting_block);
    let elapsed = now - s.starting_block;
    assert(elapsed >= c);
    lemma_mul_inequality(c, elapsed, pb);
    assert(c * pb == pb * c) by (nonlinear_arith);
    assert(elapsed * pb >= s.locked);
}

/// Law: before `spec_end_block` something is still locked, so the locked
/// amount reaches zero exactly at `spec_end_block`.
pub proof fn lemma_locked_amount_positive_before_end(s: VestingInfo, now: u64)
    requires
        s.wf(),
        now < s.spec_end_block(),
    ensures
        s.spec_locked_amount(now) > 0,
{
    if now >= s.starting_block {
        let pb = s.per_block as int;
        let c = (s.locked + pb - 1) / pb;
        lemma_fundamental_div_mod(s.locked + pb - 1, pb);
        let elapsed = now - s.starting_block;
        assert(elapsed <= c - 1);
        lemma_mul_inequality(elapsed, c - 1, pb);
        assert((c - 1) * pb == pb * c - pb) by (nonlinear_arith);
        assert(elapsed * pb <= pb * c - pb);
        assert(pb * c <= s.locked + pb - 1);
        assert(elapsed * pb < s.locked);
    }
}

/// Law: merging preserves the total remaining economic lock — at the later
/// of the two starting blocks, the merged schedule locks exactly what the
/// two schedules still lock together.
pub proof fn lemma_merge_preserves_value(a: VestingInfo, b: VestingInfo)
    requires
        a.locked + b.locked <= u64::MAX,
    ensures
        spec_merge(a, b).spec_locked_amount(spec_merge(a, b).starting_block)
            == a.spec_locked_amount(spec_merge(a, b).starting_block) + b.spec_locked_amount(
            spec_merge(a, b).starting_block,
        ),
{
    let m = spec_merge(a, b);
    let start = m.starting_block;
    lemma_locked_amount_le_locked(a, start);
    lemma_locked_amount_le_locked(b, start);
    assert(((start - start) as int) * (m.per_block as int) == 0) by (nonlinear_arith);
}

/// Law: merging is commutative — folding schedule `b` into `a` yields the
/// very same schedule as folding `a` into `b`.
pub proof fn lemma_merge_commutative(a: VestingInfo, b: VestingInfo)
    ensures
        spec_merge(a, b) == spec_merge(b, a),
{
}

/// Law: merging in either order yields the same locked amount at every
/// block height.
pub proof fn lemma_merge_commutative_locked_amount(a: VestingInfo, b: VestingInfo, now: u64)
    ensures
        spec_merge(a, b).spec_locked_amount(now) == spec_merge(b, a).spec_locked_amount(now),
{
    lemma_merge_commutative(a, b);
}

/// Merging two well-formed schedules yields a well-formed schedule: the one
/// with the later starting block still holds its full amount at that block.
pub proof fn lemma_merge_wf(a: VestingInfo, b: VestingInfo)
    requires
        a.wf(),
        b.wf(),
        a.locked + b.locked <= u64::MAX,
        a.per_block + b.per_block <= u64::MAX,
    ensures
        spec_merge(a, b).wf(),
{
    let start = spec_merge(a, b).starting_block;
    lemma_locked_amount_le_locked(a, start);
    lemma_locked_amount_le_locked(b, start);
    if a.starting_block >= b.starting_block {
        assert(((start - a.starting_block) as int) * (a.per_block as int) == 0) by (nonlinear_arith)
            requires
                start == a.starting_block,
        ;
        assert(a.spec_locked_amount(start) == a.locked);
    } else {
        assert(((start - b.starting_block) as int) * (b.per_block as int) == 0) by (nonlinear_arith)
            requires
                start == b.starting_block,
        ;
        assert(b.spec_locked_amount(start) == b.locked);
    }
}

} // verus!

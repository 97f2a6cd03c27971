use vstd::prelude::*;
use std::collections::VecDeque;

verus! {

/// Direction of the loss trend over a window of steps.
#[derive(Clone, Copy, PartialEq, Eq, Structural, Debug)]
pub enum LossTrendV2 {
    Decreasing,
    Stable,
    Increasing,
    Unknown,
}

/// The window after pushing `v` into `s` when the window holds at most `cap` values.
pub open spec fn bounded_push<T>(s: Seq<T>, v: T, cap: usize) -> Seq<T> {
    if cap == 0 {
        s
    } else if s.len() >= cap {
        s.skip(s.len() - cap + 1).push(v)
    } else {
        s.push(v)
    }
}

/// Pushes a value into a window of at most `cap` values, dropping the oldest ones.
pub fn push_bounded<T>(q: &mut VecDeque<T>, v: T, cap: usize)
    ensures
        final(q)@ == bounded_push(old(q)@, v, cap),
{
    if cap == 0 {
        return;
    }
    let ghost s0 = q@;
    while q.len() >= cap
        invariant
            cap > 0,
            q@.len() <= s0.len(),
            q@ == s0.skip(s0.len() - q@.len()),
            q@.len() < s0.len() ==> q@.len() == cap - 1 || q@.len() >= cap,
        decreases q@.len(),
    {
        let ghost before = q@;
        q.pop_front();
        proof {
            assert(q@ =~= s0.skip(s0.len() - q@.len()));
        }
    }
    proof {
        if s0.len() < cap {
            assert(s0.skip(0) =~= s0);
        }
    }
    q.push_back(v);
}

/// The value before the last one, if the window holds two values or more.
pub fn second_last<T: Copy>(q: &VecDeque<T>) -> (r: Option<T>)
    ensures
        q@.len() < 2 ==> r is None,
        q@.len() >= 2 ==> r == Some(q@[q@.len() - 2]),
{
    let n = q.len();
    if n < 2 {
        return None;
    }
    Some(q[n - 2])
}

/// The kinds of warning the observer issues.
#[derive(Clone, Copy, PartialEq, Eq, Structural, Debug)]
pub enum WarningKind {
    LossIncrease,
    LossStagnation,
    GradientExplosion,
    NanValue,
}

pub open spec fn kind_slot(k: WarningKind) -> int {
    match k {
        WarningKind::LossIncrease => 0,
        WarningKind::LossStagnation => 1,
        WarningKind::GradientExplosion => 2,
        WarningKind::NanValue => 3,
    }
}

/// Caps the number of warnings issued per kind (`0`: no cap).
pub struct WarningLimiter {
    max_per_type: usize,
    counts: Vec<usize>,
}

impl WarningLimiter {
    /// Warnings issued so far of each kind.
    pub closed spec fn issued(&self, k: WarningKind) -> usize {
        self.counts@[kind_slot(k)]
    }

    pub closed spec fn max_spec(&self) -> usize {
        self.max_per_type
    }

    /// Consistency: one counter per kind, none above the cap.
    pub closed spec fn wf(&self) -> bool {
        &&& self.counts@.len() == 4
        &&& self.max_per_type > 0 ==> forall|i: int| 0 <= i < 4 ==> self.counts@[i] <= self.max_per_type
    }

    pub fn new(max_per_type: usize) -> (r: Self)
        ensures
            r.wf(),
            r.max_spec() == max_per_type,
            forall|k: WarningKind| r.issued(k) == 0,
    {
        let mut counts: Vec<usize> = Vec::new();
        counts.push(0);
        counts.push(0);
        counts.push(0);
        counts.push(0);
        WarningLimiter { max_per_type, counts }
    }

    /// Decides whether a warning of the given kind is issued, and counts it when it is.
    pub fn accept(&mut self, kind: WarningKind) -> (r: bool)
        requires
            old(self).wf(),
            old(self).issued(kind) < usize::MAX,
        ensures
            final(self).wf(),
            final(self).max_spec() == old(self).max_spec(),
            r == (old(self).max_spec() == 0 || old(self).issued(kind) < old(self).max_spec()),
            final(self).issued(kind) == if r {
                old(self).issued(kind) + 1
            } else {
                old(self).issued(kind) as int
            },
            forall|k: WarningKind| k != kind ==> final(self).issued(k) == old(self).issued(k),
    {
        let slot: usize = match kind {
            WarningKind::LossIncrease => 0,
            WarningKind::LossStagnation => 1,
            WarningKind::GradientExplosion => 2,
            WarningKind::NanValue => 3,
        };
        let c = self.counts[slot];
        if self.max_per_type == 0 || c < self.max_per_type {
            self.counts.set(slot, c + 1);
            proof {
                assert forall|k: WarningKind| k != kind implies self.issued(k) == old(self).issued(k) by {
                    assert(kind_slot(k) != kind_slot(kind));
                }
            }
            true
        } else {
            false
        }
    }

    /// Warnings issued so far of a kind.
    pub fn issued_count(&self, kind: WarningKind) -> (r: usize)
        requires
            self.wf(),
        ensures
            r == self.issued(kind),
    {
        let slot: usize = match kind {
            WarningKind::LossIncrease => 0,
            WarningKind::LossStagnation => 1,
            WarningKind::GradientExplosion => 2,
            WarningKind::NanValue => 3,
        };
        self.counts[slot]
    }
}

/// With a cap, no kind of warning is ever issued more often than the cap.
pub proof fn law_warnings_capped(l: WarningLimiter, k: WarningKind)
    requires
        l.wf(),
        l.max_spec() > 0,
    ensures
        l.issued(k) <= l.max_spec(),
{
    reveal(WarningLimiter::issued);
    reveal(WarningLimiter::wf);
    reveal(WarningLimiter::max_spec);
    assert(0 <= kind_slot(k) < 4);
}

/// The plateau counter after an epoch: reset when the best loss improved,
/// one more when the epoch had steps but no improvement.
pub fn next_plateau_counter(counter: usize, improved: bool, had_steps: bool) -> (r: usize)
    requires
        !improved && had_steps ==> counter < usize::MAX,
    ensures
        r == if improved {
            0
        } else if had_steps {
            counter + 1
        } else {
            counter as int
        },
{
    if improved {
        0
    } else if had_steps {
        counter + 1
    } else {
        counter
    }
}

/// A plateau: too many epochs without improvement of the best loss.
pub fn is_plateau(plateau_counter: usize, plateau_patience: usize) -> (r: bool)
    ensures
        r == (plateau_counter >= plateau_patience),
{
    plateau_counter >= plateau_patience
}

/// Whether a reassignment is due: any one of three conditions fires it —
/// `min_between` epochs have passed since the last one (an epoch counter
/// behind the last reassignment counts as no epoch), the loss of the last
/// epoch rose above the threshold, or the loss is on a plateau.
pub open spec fn reassign_decision(
    epoch: int,
    last_reassign_epoch: int,
    min_between: int,
    plateau: bool,
    loss_rose: bool,
) -> bool {
    let since = if epoch >= last_reassign_epoch {
        epoch - last_reassign_epoch
    } else {
        0
    };
    since >= min_between || loss_rose || plateau
}

/// Whether a reassignment is due.
pub fn should_reassign(
    epoch: usize,
    last_reassign_epoch: usize,
    min_between: usize,
    plateau: bool,
    loss_rose: bool,
) -> (r: bool)
    ensures
        r == reassign_decision(epoch as int, last_reassign_epoch as int, min_between as int, plateau, loss_rose),
{
    let since = epoch.saturating_sub(last_reassign_epoch);
    if since >= min_between {
        return true;
    }
    if loss_rose {
        return true;
    }
    plateau
}

/// Each of the three conditions alone fires a reassignment, and without any
/// of them none is due.
pub proof fn law_reassign_triggers(epoch: int, last: int, min_between: int, plateau: bool, loss_rose: bool)
    requires
        0 <= last <= epoch,
    ensures
        epoch - last >= min_between ==> reassign_decision(epoch, last, min_between, plateau, loss_rose),
        plateau ==> reassign_decision(epoch, last, min_between, plateau, loss_rose),
        loss_rose ==> reassign_decision(epoch, last, min_between, plateau, loss_rose),
        epoch - last < min_between && !plateau && !loss_rose ==> !reassign_decision(
            epoch,
            last,
            min_between,
            plateau,
            loss_rose,
        ),
{
}

/// The trend of the loss over a window: unknown with fewer than two values
/// or a negligible first half; else falling, rising or stable as the
/// relative change between the halves goes below, above or within the threshold.
pub fn classify_trend(history_len: usize, first_half_negligible: bool, falls: bool, rises: bool) -> (r: LossTrendV2)
    ensures
        r == if history_len < 2 || first_half_negligible {
            LossTrendV2::Unknown
        } else if falls {
            LossTrendV2::Decreasing
        } else if rises {
            LossTrendV2::Increasing
        } else {
            LossTrendV2::Stable
        },
{
    if history_len < 2 {
        return LossTrendV2::Unknown;
    }
    if first_half_negligible {
        return LossTrendV2::Unknown;
    }
    if falls {
        LossTrendV2::Decreasing
    } else if rises {
        LossTrendV2::Increasing
    } else {
        LossTrendV2::Stable
    }
}

/// The counters of the observer: the epoch and the step within it, the steps,
/// gradient norms and NaN events of the current epoch, all NaN events, the
/// epochs without a better loss, and the epoch of the last reassignment.
#[derive(Clone, Copy, PartialEq, Eq, Structural, Debug)]
pub struct EpochCounters {
    pub epoch: usize,
    pub step_in_epoch: usize,
    pub epoch_step_count: usize,
    pub epoch_grad_count: usize,
    pub epoch_nan_count: usize,
    pub total_nan_count: usize,
    pub plateau_counter: usize,
    pub last_reassign_epoch: usize,
}

/// What an epoch leaves for its report.
#[derive(Clone, Copy, PartialEq, Eq, Structural, Debug)]
pub struct EpochTally {
    pub epoch: usize,
    pub steps: usize,
    pub grad_steps: usize,
    pub nan_count: usize,
    pub plateau_counter: usize,
}

impl EpochCounters {
    /// All counters at zero.
    pub fn new() -> (r: Self)
        ensures
            r == (EpochCounters {
                epoch: 0,
                step_in_epoch: 0,
                epoch_step_count: 0,
                epoch_grad_count: 0,
                epoch_nan_count: 0,
                total_nan_count: 0,
                plateau_counter: 0,
                last_reassign_epoch: 0,
            }),
    {
        EpochCounters {
            epoch: 0,
            step_in_epoch: 0,
            epoch_step_count: 0,
            epoch_grad_count: 0,
            epoch_nan_count: 0,
            total_nan_count: 0,
            plateau_counter: 0,
            last_reassign_epoch: 0,
        }
    }

    /// Counts one step, and its gradient norm when the graph gave one.
    pub fn record_step(&mut self, has_grad_norm: bool)
        requires
            old(self).step_in_epoch < usize::MAX,
            old(self).epoch_step_count < usize::MAX,
            has_grad_norm ==> old(self).epoch_grad_count < usize::MAX,
        ensures
            *final(self) == (EpochCounters {
                step_in_epoch: (old(self).step_in_epoch + 1) as usize,
                epoch_step_count: (old(self).epoch_step_count + 1) as usize,
                epoch_grad_count: if has_grad_norm {
                    (old(self).epoch_grad_count + 1) as usize
                } else {
                    old(self).epoch_grad_count
                },
                ..*old(self)
            }),
    {
        if has_grad_norm {
            self.epoch_grad_count = self.epoch_grad_count + 1;
        }
        self.epoch_step_count = self.epoch_step_count + 1;
        self.step_in_epoch = self.step_in_epoch + 1;
    }

    /// Counts a NaN event; returns the epoch and the step it belongs to.
    pub fn record_nan(&mut self) -> (r: (usize, usize))
        requires
            old(self).epoch_nan_count < usize::MAX,
            old(self).total_nan_count < usize::MAX,
        ensures
            r == (old(self).epoch, old(self).step_in_epoch),
            *final(self) == (EpochCounters {
                epoch_nan_count: (old(self).epoch_nan_count + 1) as usize,
                total_nan_count: (old(self).total_nan_count + 1) as usize,
                ..*old(self)
            }),
    {
        self.epoch_nan_count = self.epoch_nan_count + 1;
        self.total_nan_count = self.total_nan_count + 1;
        (self.epoch, self.step_in_epoch)
    }

    /// Ends the epoch: the plateau counter moves on (reset when the best loss
    /// improved, one more when the epoch had steps), the epoch's tally is
    /// returned, the per-epoch counters start again from zero and the epoch
    /// advances by one.
    pub fn end_epoch(&mut self, improved: bool) -> (r: EpochTally)
        requires
            old(self).epoch < usize::MAX,
            !improved && old(self).epoch_step_count > 0 ==> old(self).plateau_counter < usize::MAX,
        ensures
            r.epoch == old(self).epoch,
            r.steps == old(self).epoch_step_count,
            r.grad_steps == old(self).epoch_grad_count,
            r.nan_count == old(self).epoch_nan_count,
            r.plateau_counter == final(self).plateau_counter,
            final(self).plateau_counter == if improved {
                0
            } else if old(self).epoch_step_count > 0 {
                old(self).plateau_counter + 1
            } else {
                old(self).plateau_counter as int
            },
            final(self).epoch == old(self).epoch + 1,
            final(self).step_in_epoch == 0,
            final(self).epoch_step_count == 0,
            final(self).epoch_grad_count == 0,
            final(self).epoch_nan_count == 0,
            final(self).total_nan_count == old(self).total_nan_count,
            final(self).last_reassign_epoch == old(self).last_reassign_epoch,
    {
        self.plateau_counter = next_plateau_counter(self.plateau_counter, improved, self.epoch_step_count > 0);
        let tally = EpochTally {
            epoch: self.epoch,
            steps: self.epoch_step_count,
            grad_steps: self.epoch_grad_count,
            nan_count: self.epoch_nan_count,
            plateau_counter: self.plateau_counter,
        };
        self.step_in_epoch = 0;
        self.epoch_step_count = 0;
        self.epoch_grad_count = 0;
        self.epoch_nan_count = 0;
        self.epoch = self.epoch + 1;
        tally
    }

    /// Records that the distributor re-planned at the current epoch.
    pub fn mark_reassigned(&mut self)
        ensures
            *final(self) == (EpochCounters { last_reassign_epoch: old(self).epoch, ..*old(self) }),
    {
        self.last_reassign_epoch = self.epoch;
    }

    /// Whether a reassignment is due at the current epoch.
    pub fn reassign_due(&self, min_between: usize, plateau_patience: usize, loss_rose: bool) -> (r: bool)
        ensures
            r == reassign_decision(
                self.epoch as int,
                self.last_reassign_epoch as int,
                min_between as int,
                self.plateau_counter >= plateau_patience,
                loss_rose,
            ),
    {
        should_reassign(
            self.epoch,
            self.last_reassign_epoch,
            min_between,
            is_plateau(self.plateau_counter, plateau_patience),
            loss_rose,
        )
    }
}

} // verus!

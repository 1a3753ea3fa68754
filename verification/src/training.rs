//! Training and validation of the weights on pairs of drawn shapes.
//!
//! A sample of the first kind should be refused and one of the second
//! accepted. Training corrects the weights after each sample that they
//! get wrong, at once, so that the next sample meets the corrected
//! weights. Every epoch draws the same samples: it starts its stream from
//! the training seed again.

use crate::cells::{
    binary, bounded, combined, combines, drift, lemma_combined_bounded, lemma_combined_drift,
    lemma_drift_bounded, lemma_drift_chain, lemma_load_bound, load, rectangular, Rows,
};
use crate::classifier::{
    after_negative, after_positive, correct_negative, correct_positive, predict, predicts,
};
use crate::grid::{grid_fits, lemma_raster_binary, Grid};
use crate::rasterizer::{sample, sample_drawn, shape_drawn, ShapeKind};
use crate::stream::{seeded_state, Stream};
use crate::visual::extremes;
use vstd::prelude::*;

verus! {

/// What a run is given: the raster, the cutoff of the classifier, the two
/// kinds of shape, and the seed and length of training and of validation.
#[derive(Clone, Copy, Debug)]
pub struct Config {
    /// Columns of the raster.
    pub width: usize,
    /// Rows of the raster.
    pub height: usize,
    /// The least activation that the classifier accepts.
    pub cutoff: i64,
    /// The kind that the classifier should refuse.
    pub shape_a: ShapeKind,
    /// The kind that the classifier should accept.
    pub shape_b: ShapeKind,
    /// The seed from which every epoch draws its samples.
    pub train_seed: u64,
    /// Pairs of samples in an epoch.
    pub train_step: usize,
    /// Epochs in a run.
    pub train_epochs: usize,
    /// The seed from which validation draws its samples.
    pub validate_seed: u64,
    /// Pairs of samples in a validation.
    pub validate_step: usize,
    /// Whether training keeps snapshots of the weights.
    pub snapshots: bool,
}

/// Weights, the state of the stream and the errors counted so far.
pub struct Outcome {
    pub weights: Rows,
    pub state: Seq<u8>,
    pub errors: nat,
}

/// What one epoch reports.
#[derive(Clone, Copy, Debug, PartialEq, Eq, Structural)]
pub struct EpochRecord {
    /// The epoch, counted from 0.
    pub epoch: usize,
    /// Samples that the weights got wrong.
    pub errors: usize,
    /// Samples shown.
    pub total: usize,
}

/// The weights as they stood at the end of an epoch.
pub struct Snapshot {
    /// The epoch, counted from 0.
    pub epoch: usize,
    pub weights: Grid,
}

/// What a run of training reports.
pub struct TrainingLog {
    /// One record for each epoch, in order.
    pub records: Vec<EpochRecord>,
    /// The snapshots that were due, in order.
    pub snapshots: Vec<Snapshot>,
}

/// How many epochs lie between snapshots around `epoch`.
pub open spec fn cadence(epoch: nat) -> nat {
    if epoch < 10 {
        1
    } else if epoch < 100 {
        10
    } else if epoch < 1000 {
        100
    } else {
        1000
    }
}

/// Whether a snapshot is due after `epoch`.
pub open spec fn snapshot_due(epoch: nat) -> bool {
    epoch % cadence(epoch) == 0
}

/// The epochs below `epochs` after which a snapshot is due, in order.
pub open spec fn snapshot_epochs(epochs: nat) -> Seq<nat>
    decreases epochs,
{
    if epochs == 0 {
        Seq::empty()
    } else if snapshot_due((epochs - 1) as nat) {
        snapshot_epochs((epochs - 1) as nat).push((epochs - 1) as nat)
    } else {
        snapshot_epochs((epochs - 1) as nat)
    }
}

/// How many epochs lie between snapshots around `epoch`: 1 below 10, 10
/// below 100, 100 below 1000, 1000 from there on.
pub fn snapshot_cadence(epoch: usize) -> (step: usize)
    ensures
        step == cadence(epoch as nat),
{
    if epoch < 10 {
        1
    } else if epoch < 100 {
        10
    } else if epoch < 1000 {
        100
    } else {
        1000
    }
}

/// Whether a snapshot is due after `epoch`.
pub fn is_snapshot_epoch(epoch: usize) -> (due: bool)
    ensures
        due == snapshot_due(epoch as nat),
{
    epoch % snapshot_cadence(epoch) == 0
}

impl Config {
    /// Whether the raster can be allocated, leaves both kinds of shape
    /// their draws, and the samples of an epoch and of a validation can be
    /// counted.
    pub open spec fn valid(&self) -> bool {
        &&& grid_fits(self.height, self.width)
        &&& self.shape_a.fits(self.width, self.height)
        &&& self.shape_b.fits(self.width, self.height)
        &&& 2 * self.train_step <= usize::MAX
        &&& 2 * self.validate_step <= usize::MAX
    }

    /// Whether `weights` has the size of the raster.
    pub open spec fn suits(&self, weights: &Grid) -> bool {
        &&& weights.wf()
        &&& weights.rows() == self.height
        &&& weights.columns() == self.width
    }

    /// The greatest magnitude that every weight can have at once without
    /// an activation leaving `i64`.
    pub open spec fn capacity(&self) -> int {
        i64::MAX as int / (self.height * self.width)
    }

    /// Whether `weights` can take `corrections` more corrections, each of
    /// which moves a weight by at most one, and stay within the capacity.
    pub open spec fn leaves_room(&self, weights: Rows, corrections: int) -> bool {
        bounded(weights, self.width as nat, self.capacity() - corrections)
    }

    /// One pair of samples in training: a shape of the first kind, which
    /// is taken from the weights if they accept it, then a shape of the
    /// second kind, which is added to them if they refuse it.
    pub open spec fn pair_trained(&self, before: Outcome) -> Outcome {
        let width = self.width as nat;
        let a = sample_drawn(self.shape_a, before.state, self.width, self.height);
        let s1 = shape_drawn(self.shape_a, before.state, self.width, self.height).1;
        let miss_a: nat = if predicts(before.weights, a, width, self.cutoff) {
            1
        } else {
            0
        };
        let w1 = after_positive(before.weights, a, width, self.cutoff);
        let b = sample_drawn(self.shape_b, s1, self.width, self.height);
        let s2 = shape_drawn(self.shape_b, s1, self.width, self.height).1;
        let miss_b: nat = if predicts(w1, b, width, self.cutoff) {
            0
        } else {
            1
        };
        let w2 = after_negative(w1, b, width, self.cutoff);
        Outcome { weights: w2, state: s2, errors: before.errors + miss_a + miss_b }
    }

    /// `pairs` pairs of samples in training, one after the other.
    pub open spec fn pairs_trained(&self, start: Outcome, pairs: nat) -> Outcome
        decreases pairs,
    {
        if pairs == 0 {
            start
        } else {
            self.pair_trained(self.pairs_trained(start, (pairs - 1) as nat))
        }
    }

    /// One epoch on `weights`: the stream starts from the training seed,
    /// no error is counted yet, and `train_step` pairs follow.
    pub open spec fn epoch_trained(&self, weights: Rows) -> Outcome {
        self.pairs_trained(
            Outcome { weights, state: seeded_state(self.train_seed), errors: 0 },
            self.train_step as nat,
        )
    }

    /// The weights after `epochs` epochs.
    pub open spec fn epochs_trained(&self, weights: Rows, epochs: nat) -> Rows
        decreases epochs,
    {
        if epochs == 0 {
            weights
        } else {
            self.epoch_trained(self.epochs_trained(weights, (epochs - 1) as nat)).weights
        }
    }

    /// The errors of epoch `epoch`, counted from 0, of a run that starts
    /// with `weights`.
    pub open spec fn epoch_errors(&self, weights: Rows, epoch: nat) -> nat {
        self.epoch_trained(self.epochs_trained(weights, epoch)).errors
    }

    /// One pair of samples in validation: the state of the stream and the
    /// errors counted, before and after.
    pub open spec fn pair_judged(&self, weights: Rows, before: (Seq<u8>, nat)) -> (Seq<u8>, nat) {
        let width = self.width as nat;
        let a = sample_drawn(self.shape_a, before.0, self.width, self.height);
        let s1 = shape_drawn(self.shape_a, before.0, self.width, self.height).1;
        let miss_a: nat = if predicts(weights, a, width, self.cutoff) {
            1
        } else {
            0
        };
        let b = sample_drawn(self.shape_b, s1, self.width, self.height);
        let s2 = shape_drawn(self.shape_b, s1, self.width, self.height).1;
        let miss_b: nat = if predicts(weights, b, width, self.cutoff) {
            0
        } else {
            1
        };
        (s2, before.1 + miss_a + miss_b)
    }

    /// `pairs` pairs of samples in validation, one after the other.
    pub open spec fn pairs_judged(&self, weights: Rows, start: (Seq<u8>, nat), pairs: nat) -> (
        Seq<u8>,
        nat,
    )
        decreases pairs,
    {
        if pairs == 0 {
            start
        } else {
            self.pair_judged(weights, self.pairs_judged(weights, start, (pairs - 1) as nat))
        }
    }

    /// The errors of a validation of `weights`.
    pub open spec fn validation_errors(&self, weights: Rows) -> nat {
        self.pairs_judged(weights, (seeded_state(self.validate_seed), 0), self.validate_step as nat).1
    }
}

/// Weights that have room for a correction can be shown any raster of
/// zeros and ones: the activation stays within `i64`, and so do the sum
/// and the difference, which have room for one correction less.
pub proof fn lemma_room_for_sample(config: Config, weights: Rows, sample: Rows, room: int)
    requires
        config.valid(),
        config.height >= 1,
        config.width >= 1,
        weights.len() == config.height,
        sample.len() == config.height,
        rectangular(weights, config.width as nat),
        rectangular(sample, config.width as nat),
        binary(sample, config.width as nat),
        config.leaves_room(weights, room),
        room >= 0,
    ensures
        load(weights, sample, config.width as nat) <= i64::MAX,
        room >= 1 ==> {
            &&& combines(weights, sample, 1)
            &&& combines(weights, sample, -1)
            &&& config.leaves_room(combined(weights, sample, 1), room - 1)
            &&& config.leaves_room(combined(weights, sample, -1), room - 1)
            &&& drift(weights, combined(weights, sample, 1), config.width as nat, 1)
            &&& drift(weights, combined(weights, sample, -1), config.width as nat, 1)
        },
{
    let width = config.width as nat;
    let cells = config.height * config.width;
    let limit = config.capacity() - room;
    assert(cells >= 1) by (nonlinear_arith)
        requires
            cells == config.height * config.width,
            config.height >= 1,
            config.width >= 1,
    ;
    assert(-limit <= weights[0][0] <= limit);
    lemma_load_bound(weights, sample, width, limit);
    assert(weights.len() * width * limit <= i64::MAX) by (nonlinear_arith)
        requires
            weights.len() * width == cells,
            cells >= 1,
            0 <= limit <= i64::MAX as int / cells,
    ;
    if room >= 1 {
        lemma_combined_bounded(weights, sample, width, 1, limit);
        lemma_combined_bounded(weights, sample, width, -1, limit);
        lemma_combined_drift(weights, sample, width, 1);
        lemma_combined_drift(weights, sample, width, -1);
    }
}

/// Weights with room for more corrections have room for fewer.
pub proof fn lemma_room_shrinks(config: Config, weights: Rows, room: int, less: int)
    requires
        config.leaves_room(weights, room),
        less <= room,
    ensures
        config.leaves_room(weights, less),
{
    let limit = config.capacity() - room;
    assert forall|r: int, c: int| 0 <= r < weights.len() && 0 <= c < config.width implies -(
    config.capacity() - less) <= #[trigger] weights[r][c] <= config.capacity() - less by {
        assert(-limit <= weights[r][c] <= limit);
    }
}

/// Weights that have drifted use up as much of their room.
pub proof fn lemma_room_after_drift(config: Config, before: Rows, after: Rows, room: int, distance: int)
    requires
        config.leaves_room(before, room),
        drift(before, after, config.width as nat, distance),
    ensures
        config.leaves_room(after, room - distance),
{
    lemma_drift_bounded(before, after, config.width as nat, config.capacity() - room, distance);
}

/// Shows the weights one pair of samples from the stream and corrects
/// them after each: a shape of the first kind, then one of the second.
/// Returns how many of the two they got wrong.
pub fn train_pair(config: &Config, weights: &mut Grid, stream: &mut Stream) -> (errors: usize)
    requires
        config.valid(),
        config.suits(old(weights)),
        config.leaves_room(old(weights)@, 2),
    ensures
        config.suits(final(weights)),
        errors <= 2,
        drift(old(weights)@, final(weights)@, config.width as nat, 2),
        (Outcome { weights: final(weights)@, state: final(stream)@, errors: errors as nat })
            == config.pair_trained(
            Outcome { weights: old(weights)@, state: old(stream)@, errors: 0 },
        ),
{
    let ghost width = config.width as nat;
    let ghost w0 = weights@;
    let mut errors: usize = 0;
    let shape_a: Grid = sample(config.shape_a, stream, config.width, config.height);
    proof {
        lemma_raster_binary(
            shape_drawn(config.shape_a, old(stream)@, config.width, config.height).0,
            config.height as nat,
            width,
        );
        lemma_room_shrinks(*config, w0, 2, 1);
        lemma_room_for_sample(*config, w0, shape_a@, 1);
    }
    if correct_positive(weights, &shape_a, config.cutoff) {
        errors = errors + 1;
    }
    let ghost w1 = weights@;
    let ghost s1 = stream@;
    let shape_b: Grid = sample(config.shape_b, stream, config.width, config.height);
    proof {
        lemma_raster_binary(
            shape_drawn(config.shape_b, s1, config.width, config.height).0,
            config.height as nat,
            width,
        );
        lemma_room_after_drift(*config, w0, w1, 2, 1);
        lemma_room_for_sample(*config, w1, shape_b@, 1);
    }
    if correct_negative(weights, &shape_b, config.cutoff) {
        errors = errors + 1;
    }
    proof {
        lemma_drift_chain(w0, w1, weights@, width, 1, 1);
    }
    errors
}

/// Runs one epoch on the weights: a fresh stream from the training seed,
/// then `train_step` pairs of samples. Returns the errors of the epoch.
pub fn train_epoch(config: &Config, weights: &mut Grid) -> (errors: usize)
    requires
        config.valid(),
        config.suits(old(weights)),
        config.leaves_room(old(weights)@, 2 * config.train_step),
    ensures
        config.suits(final(weights)),
        final(weights)@ == config.epoch_trained(old(weights)@).weights,
        errors == config.epoch_trained(old(weights)@).errors,
        errors <= 2 * config.train_step,
        drift(old(weights)@, final(weights)@, config.width as nat, 2 * config.train_step),
{
    let ghost width = config.width as nat;
    let ghost w0 = weights@;
    let ghost start = Outcome { weights: w0, state: seeded_state(config.train_seed), errors: 0 };
    let mut stream: Stream = Stream::new(config.train_seed);
    let mut errors: usize = 0;
    let mut done: usize = 0;
    while done < config.train_step
        invariant
            config.valid(),
            config.suits(weights),
            config.leaves_room(w0, 2 * config.train_step),
            done <= config.train_step,
            errors <= 2 * done,
            drift(w0, weights@, width, 2 * done),
            width == config.width,
            (Outcome { weights: weights@, state: stream@, errors: errors as nat })
                == config.pairs_trained(start, done as nat),
        decreases config.train_step - done,
    {
        let ghost before = Outcome { weights: weights@, state: stream@, errors: errors as nat };
        proof {
            lemma_room_after_drift(*config, w0, weights@, 2 * config.train_step, 2 * done);
            lemma_room_shrinks(*config, weights@, 2 * config.train_step - 2 * done, 2);
        }
        let ghost w_before = weights@;
        let missed: usize = train_pair(config, weights, &mut stream);
        proof {
            lemma_drift_chain(w0, w_before, weights@, width, 2 * done, 2);
            assert(config.pairs_trained(start, (done + 1) as nat) == config.pair_trained(before));
        }
        errors = errors + missed;
        done = done + 1;
    }
    errors
}

/// Trains the weights for `train_epochs` epochs, each on the same
/// samples, and reports the errors of each epoch and, where snapshots are
/// kept, the weights after each epoch at which one is due.
pub fn train(config: &Config, weights: &mut Grid) -> (log: TrainingLog)
    requires
        config.valid(),
        config.suits(old(weights)),
        config.leaves_room(old(weights)@, 2 * config.train_step * config.train_epochs),
    ensures
        config.suits(final(weights)),
        final(weights)@ == config.epochs_trained(old(weights)@, config.train_epochs as nat),
        log.records@.len() == config.train_epochs,
        forall|e: int|
            0 <= e < config.train_epochs ==> {
                &&& (#[trigger] log.records@[e]).epoch == e
                &&& log.records@[e].errors == config.epoch_errors(old(weights)@, e as nat)
                &&& log.records@[e].total == 2 * config.train_step
                &&& log.records@[e].errors <= log.records@[e].total
            },
        log.snapshots@.len() == if config.snapshots {
            snapshot_epochs(config.train_epochs as nat).len()
        } else {
            0
        },
        forall|i: int|
            0 <= i < log.snapshots@.len() ==> {
                &&& (#[trigger] log.snapshots@[i]).epoch == snapshot_epochs(
                    config.train_epochs as nat,
                )[i]
                &&& config.suits(&log.snapshots@[i].weights)
                &&& log.snapshots@[i].weights@ == config.epochs_trained(
                    old(weights)@,
                    (log.snapshots@[i].epoch + 1) as nat,
                )
            },
{
    let ghost width = config.width as nat;
    let ghost w0 = weights@;
    let ghost per_epoch: int = 2 * config.train_step;
    let total: usize = 2 * config.train_step;
    let mut records: Vec<EpochRecord> = Vec::new();
    let mut snapshots: Vec<Snapshot> = Vec::new();
    let mut epoch: usize = 0;
    while epoch < config.train_epochs
        invariant
            config.valid(),
            config.suits(weights),
            config.leaves_room(w0, per_epoch * config.train_epochs),
            per_epoch == 2 * config.train_step,
            total == 2 * config.train_step,
            width == config.width,
            epoch <= config.train_epochs,
            drift(w0, weights@, width, per_epoch * epoch),
            weights@ == config.epochs_trained(w0, epoch as nat),
            records@.len() == epoch,
            forall|e: int|
                0 <= e < epoch ==> {
                    &&& (#[trigger] records@[e]).epoch == e
                    &&& records@[e].errors == config.epoch_errors(w0, e as nat)
                    &&& records@[e].total == 2 * config.train_step
                    &&& records@[e].errors <= records@[e].total
                },
            snapshots@.len() == if config.snapshots {
                snapshot_epochs(epoch as nat).len()
            } else {
                0
            },
            forall|i: int|
                0 <= i < snapshots@.len() ==> {
                    &&& (#[trigger] snapshots@[i]).epoch == snapshot_epochs(epoch as nat)[i]
                    &&& snapshots@[i].epoch < epoch
                    &&& config.suits(&snapshots@[i].weights)
                    &&& snapshots@[i].weights@ == config.epochs_trained(
                        w0,
                        (snapshots@[i].epoch + 1) as nat,
                    )
                },
        decreases config.train_epochs - epoch,
    {
        proof {
            lemma_room_after_drift(
                *config,
                w0,
                weights@,
                per_epoch * config.train_epochs,
                per_epoch * epoch,
            );
            assert(per_epoch * config.train_epochs - per_epoch * epoch >= per_epoch)
                by (nonlinear_arith)
                requires
                    per_epoch >= 0,
                    epoch < config.train_epochs,
            ;
            lemma_room_shrinks(
                *config,
                weights@,
                per_epoch * config.train_epochs - per_epoch * epoch,
                per_epoch,
            );
        }
        let ghost w_before = weights@;
        let errors: usize = train_epoch(config, weights);
        proof {
            lemma_drift_chain(w0, w_before, weights@, width, per_epoch * epoch, per_epoch);
            assert(per_epoch * epoch + per_epoch == per_epoch * (epoch + 1)) by (nonlinear_arith);
        }
        records.push(EpochRecord { epoch, errors, total });
        if config.snapshots && is_snapshot_epoch(epoch) {
            let copy: Grid = weights.duplicate();
            snapshots.push(Snapshot { epoch, weights: copy });
        }
        epoch = epoch + 1;
    }
    TrainingLog { records, snapshots }
}

/// What a validation reports.
#[derive(Clone, Copy, Debug, PartialEq, Eq, Structural)]
pub struct Tally {
    /// Samples that the weights got wrong.
    pub errors: usize,
    /// Samples shown.
    pub total: usize,
}

/// Shows the weights one pair of samples from the stream and leaves them
/// as they are. Returns how many of the two they got wrong.
pub fn judge_pair(config: &Config, weights: &Grid, stream: &mut Stream) -> (errors: usize)
    requires
        config.valid(),
        config.suits(weights),
        config.leaves_room(weights@, 0),
    ensures
        errors <= 2,
        (final(stream)@, errors as nat) == config.pair_judged(weights@, (old(stream)@, 0)),
{
    let ghost width = config.width as nat;
    let mut errors: usize = 0;
    let shape_a: Grid = sample(config.shape_a, stream, config.width, config.height);
    proof {
        lemma_raster_binary(
            shape_drawn(config.shape_a, old(stream)@, config.width, config.height).0,
            config.height as nat,
            width,
        );
        lemma_room_for_sample(*config, weights@, shape_a@, 0);
    }
    if predict(weights, &shape_a, config.cutoff) {
        errors = errors + 1;
    }
    let ghost s1 = stream@;
    let shape_b: Grid = sample(config.shape_b, stream, config.width, config.height);
    proof {
        lemma_raster_binary(
            shape_drawn(config.shape_b, s1, config.width, config.height).0,
            config.height as nat,
            width,
        );
        lemma_room_for_sample(*config, weights@, shape_b@, 0);
    }
    if !predict(weights, &shape_b, config.cutoff) {
        errors = errors + 1;
    }
    errors
}

/// Validates the weights: a fresh stream from the validation seed, then
/// `validate_step` pairs of samples, none of which changes the weights.
pub fn validate(config: &Config, weights: &Grid) -> (tally: Tally)
    requires
        config.valid(),
        config.suits(weights),
        config.leaves_room(weights@, 0),
    ensures
        tally.errors == config.validation_errors(weights@),
        tally.total == 2 * config.validate_step,
        tally.errors <= tally.total,
{
    let ghost start = (seeded_state(config.validate_seed), 0nat);
    let mut stream: Stream = Stream::new(config.validate_seed);
    let mut errors: usize = 0;
    let mut done: usize = 0;
    while done < config.validate_step
        invariant
            config.valid(),
            config.suits(weights),
            config.leaves_room(weights@, 0),
            done <= config.validate_step,
            errors <= 2 * done,
            (stream@, errors as nat) == config.pairs_judged(weights@, start, done as nat),
        decreases config.validate_step - done,
    {
        let ghost before = (stream@, errors as nat);
        let missed: usize = judge_pair(config, weights, &mut stream);
        proof {
            assert(config.pairs_judged(weights@, start, (done + 1) as nat) == config.pair_judged(
                weights@,
                before,
            ));
        }
        errors = errors + missed;
        done = done + 1;
    }
    Tally { errors, total: 2 * config.validate_step }
}

impl Config {
    /// Computes `valid`.
    pub fn is_valid(&self) -> (ok: bool)
        ensures
            ok == self.valid(),
    {
        let words: usize = isize::MAX as usize / 8;
        let fits: bool = if self.height == 0 || self.width == 0 {
            self.height <= isize::MAX as usize && self.width <= isize::MAX as usize
        } else {
            self.height <= words && self.width <= words / self.height
        };
        proof {
            if self.height > 0 && self.width > 0 {
                let h = self.height as int;
                let w = self.width as int;
                let m = isize::MAX as int;
                assert(h * w * 8 <= m <==> h <= m / 8 && w <= (m / 8) / h) by (nonlinear_arith)
                    requires
                        h > 0,
                        w > 0,
                        m >= 0,
                ;
                assert(h * w * 8 <= m ==> h <= m && w <= m) by (nonlinear_arith)
                    requires
                        h > 0,
                        w > 0,
                ;
            } else {
                assert(self.height * self.width * 8 == 0) by (nonlinear_arith)
                    requires
                        self.height == 0 || self.width == 0,
                ;
            }
        }
        fits && self.shape_a.can_fit(self.width, self.height) && self.shape_b.can_fit(
            self.width,
            self.height,
        ) && self.train_step <= usize::MAX / 2 && self.validate_step <= usize::MAX / 2
    }

    /// Computes `leaves_room`: whether `weights` can take `corrections`
    /// more corrections.
    pub fn has_room(&self, weights: &Grid, corrections: usize) -> (ok: bool)
        requires
            self.valid(),
            self.suits(weights),
        ensures
            ok == self.leaves_room(weights@, corrections as int),
    {
        proof {
            assert(1 <= self.height * self.width <= isize::MAX) by (nonlinear_arith)
                requires
                    self.height >= 1,
                    self.width >= 1,
                    self.height * self.width * 8 <= isize::MAX,
            ;
        }
        let cells: i64 = (self.height * self.width) as i64;
        let capacity: i64 = i64::MAX / cells;
        let limit: i128 = capacity as i128 - corrections as i128;
        let (min, max) = extremes(weights, self.height, self.width);
        -limit <= min as i128 && max as i128 <= limit
    }
}

} // verus!

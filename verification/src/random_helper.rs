//! Choice of an index by weight: each index is drawn in proportion to its weight.

use rand::rngs::ThreadRng;
use rand::RngCore;
use vstd::prelude::*;
use vstd::set_lib::lemma_int_range;

verus! {

/// Sum of the first `n` weights.
pub open spec fn weight_before(weights: Seq<u32>, n: int) -> int
    decreases n,
{
    if n <= 0 {
        0
    } else {
        weight_before(weights, n - 1) + weights[n - 1]
    }
}

/// Sum of all weights.
pub open spec fn total_weight(weights: Seq<u32>) -> int {
    weight_before(weights, weights.len() as int)
}

/// `index` is the entry whose share of `[0, total)` holds `value`: the shares lie one
/// after another in the order of the weights, each as long as its weight.
pub open spec fn selects(weights: Seq<u32>, value: int, index: int) -> bool {
    &&& 0 <= index < weights.len()
    &&& weight_before(weights, index) <= value < weight_before(weights, index + 1)
}

/// `index` is the entry that the raw draw picks, once the draw is reduced modulo the
/// total weight.
pub open spec fn picked_by(weights: Seq<u32>, draw: u32, index: int) -> bool {
    selects(weights, draw as int % total_weight(weights), index)
}

/// The running sum never shrinks.
pub proof fn lemma_weight_before_grows(weights: Seq<u32>, i: int, j: int)
    requires
        0 <= i <= j,
    ensures
        0 <= weight_before(weights, i) <= weight_before(weights, j),
    decreases j,
{
    if j > 0 {
        if i < j {
            lemma_weight_before_grows(weights, i, j - 1);
        } else {
            lemma_weight_before_grows(weights, i - 1, j - 1);
        }
    }
}

/// No value belongs to two entries.
pub proof fn lemma_selection_is_unique(weights: Seq<u32>, value: int, i: int, j: int)
    requires
        selects(weights, value, i),
        selects(weights, value, j),
    ensures
        i == j,
{
    if i < j {
        lemma_weight_before_grows(weights, i + 1, j);
    } else if j < i {
        lemma_weight_before_grows(weights, j + 1, i);
    }
}

/// Every value below the total weight belongs to some entry.
pub proof fn lemma_selection_exists(weights: Seq<u32>, value: int) -> (index: int)
    requires
        0 <= value < total_weight(weights),
    ensures
        selects(weights, value, index),
{
    lemma_first_exceeding(weights, value, weights.len() as int)
}

proof fn lemma_first_exceeding(weights: Seq<u32>, value: int, n: int) -> (index: int)
    requires
        0 <= n <= weights.len(),
        0 <= value < weight_before(weights, n),
    ensures
        selects(weights, value, index),
        index < n,
    decreases n,
{
    if value >= weight_before(weights, n - 1) {
        n - 1
    } else {
        lemma_first_exceeding(weights, value, n - 1)
    }
}

/// An entry is selected by exactly as many values as its weight says, so a value
/// drawn evenly from `[0, total)` selects it with probability `weight / total`.
pub proof fn lemma_share_is_weight(weights: Seq<u32>, index: int)
    requires
        0 <= index < weights.len(),
    ensures
        Set::new(|value: int| selects(weights, value, index)).finite(),
        Set::new(|value: int| selects(weights, value, index)).len() == weights[index],
{
    let low = weight_before(weights, index);
    let high = weight_before(weights, index + 1);
    lemma_int_range(low, high);
    assert(Set::new(|value: int| selects(weights, value, index)) =~= vstd::set_lib::set_int_range(
        low,
        high,
    ));
}

/// An entry is selected by some value if and only if its weight is not zero.
pub proof fn lemma_selectable_iff_weighted(weights: Seq<u32>, index: int)
    requires
        0 <= index < weights.len(),
    ensures
        (exists|value: int| selects(weights, value, index)) <==> weights[index] > 0,
{
    if weights[index] > 0 {
        assert(selects(weights, weight_before(weights, index), index));
    }
}

/// Every entry whose weight is not zero is picked by some draw, where the total
/// weight is one that a draw can reach.
pub proof fn lemma_weighted_index_can_be_drawn(weights: Seq<u32>, index: int) -> (draw: u32)
    requires
        0 <= index < weights.len(),
        weights[index] > 0,
        total_weight(weights) <= u32::MAX,
    ensures
        picked_by(weights, draw, index),
{
    lemma_weight_before_grows(weights, 0, index);
    lemma_weight_before_grows(weights, index + 1, weights.len() as int);
    let value = weight_before(weights, index);
    assert(value % total_weight(weights) == value) by (nonlinear_arith)
        requires
            0 <= value < total_weight(weights),
    ;
    value as u32
}

/// With a single entry every draw selects it.
pub proof fn lemma_single_weight_selects_first(weights: Seq<u32>, draw: u32, index: int)
    requires
        weights.len() == 1,
        picked_by(weights, draw, index),
    ensures
        index == 0,
{
}

/// The generator of `rand` that each thread keeps for itself. Nothing is known of
/// its state; it is only carried along and handed to `next_draw`.
#[verifier::external_type_specification]
#[verifier::external_body]
pub struct ExThreadRng(rand::rngs::ThreadRng);

/// `rand::thread_rng`: a handle to the calling thread's generator. Nothing is
/// claimed of it. The call stops the program if the system gives no entropy.
#[verifier::external_body]
fn thread_generator() -> ThreadRng {
    rand::thread_rng()
}

/// `RngCore::next_u32` on the thread's generator: the next 32 random bits. Nothing
/// is claimed of the value.
#[verifier::external_body]
fn next_draw(random: &mut ThreadRng) -> u32 {
    random.next_u32()
}

/// Why a list of weights cannot be drawn from.
#[derive(Clone, Copy, Debug, PartialEq, Eq, Structural)]
pub enum WeightError {
    /// The list has no entry.
    Empty,
    /// All weights are zero.
    ZeroTotal,
    /// The weights add up to more than a draw can reach.
    TotalTooLarge,
}

/// Draws indices into a list of weights, each in proportion to its weight.
pub struct RandomHelper {
    random: ThreadRng,
    probabilities: Vec<u32>,
    sum: u32,
}

impl RandomHelper {
    /// The weights are not empty, and the stored sum is their total and is positive.
    pub closed spec fn well_formed(&self) -> bool {
        &&& self.probabilities@.len() > 0
        &&& self.sum > 0
        &&& self.sum == total_weight(self.probabilities@)
    }

    /// The weights, in the order in which they were given.
    pub closed spec fn weights(&self) -> Seq<u32> {
        self.probabilities@
    }

    /// What a well-formed helper holds: some weights, with a positive total that a
    /// draw can reach.
    pub proof fn lemma_weights_are_drawable(&self)
        requires
            self.well_formed(),
        ensures
            self.weights().len() > 0,
            0 < total_weight(self.weights()) <= u32::MAX,
    {
    }

    /// Takes the weights, unless they are empty, all zero, or too heavy in sum.
    pub fn new(probabilities: Vec<u32>) -> (made: Result<RandomHelper, WeightError>)
        ensures
            match made {
                Ok(helper) => {
                    &&& helper.well_formed()
                    &&& helper.weights() == probabilities@
                    &&& probabilities@.len() > 0
                    &&& 0 < total_weight(probabilities@) <= u32::MAX
                },
                Err(WeightError::Empty) => probabilities@.len() == 0,
                Err(WeightError::ZeroTotal) => {
                    &&& probabilities@.len() > 0
                    &&& total_weight(probabilities@) == 0
                },
                Err(WeightError::TotalTooLarge) => total_weight(probabilities@) > u32::MAX,
            },
    {
        if probabilities.len() == 0 {
            return Err(WeightError::Empty);
        }
        let mut sum: u32 = 0;
        let mut i: usize = 0;
        while i < probabilities.len()
            invariant
                i <= probabilities@.len(),
                sum == weight_before(probabilities@, i as int),
            decreases probabilities@.len() - i,
        {
            let weight: u32 = probabilities[i];
            if weight > u32::MAX - sum {
                proof {
                    lemma_weight_before_grows(
                        probabilities@,
                        i as int + 1,
                        probabilities@.len() as int,
                    );
                }
                return Err(WeightError::TotalTooLarge);
            }
            sum = sum + weight;
            i = i + 1;
        }
        if sum == 0 {
            return Err(WeightError::ZeroTotal);
        }
        Ok(RandomHelper { random: thread_generator(), probabilities, sum })
    }

    /// The index that a raw draw picks: the draw is reduced modulo the total weight,
    /// and the first index whose running sum of weights exceeds it is returned.
    pub fn index_for_draw(&self, draw: u32) -> (index: usize)
        requires
            self.well_formed(),
        ensures
            picked_by(self.weights(), draw, index as int),
    {
        let random_val: u32 = draw % self.sum;
        let mut random_val_counter: u64 = 0;
        let mut i: usize = 0;
        while i < self.probabilities.len()
            invariant
                i <= self.probabilities@.len(),
                self.well_formed(),
                random_val as int == draw as int % total_weight(self.probabilities@),
                random_val_counter == weight_before(self.probabilities@, i as int),
                random_val_counter <= random_val,
            decreases self.probabilities@.len() - i,
        {
            random_val_counter = random_val_counter + self.probabilities[i] as u64;
            if random_val_counter > random_val as u64 {
                return i;
            }
            i = i + 1;
        }
        0
    }

    /// Draws the next index. Whatever the generator gives, the index is the one
    /// that `index_for_draw` returns for the value drawn, so it names a weight
    /// that is not zero; the weights stay as they are.
    pub fn next_index(&mut self) -> (index: usize)
        requires
            old(self).well_formed(),
        ensures
            final(self).well_formed(),
            final(self).weights() == old(self).weights(),
            exists|draw: u32| #[trigger] picked_by(old(self).weights(), draw, index as int),
            index < old(self).weights().len(),
            old(self).weights()[index as int] > 0,
    {
        let draw: u32 = next_draw(&mut self.random);
        self.index_for_draw(draw)
    }
}

} // verus!

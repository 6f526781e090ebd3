use crate::config::gate_args::GateArgs;
use crate::execution::job::Job;
use vstd::prelude::*;

verus! {

/// The step that SplitMix64 adds to its state before each draw.
pub const GAMMA: u64 = 0x9e37_79b9_7f4a_7c15;

/// The first multiplier of SplitMix64's output mix.
pub const MIX_A: u64 = 0xbf58_476d_1ce4_e5b9;

/// The second multiplier of SplitMix64's output mix.
pub const MIX_B: u64 = 0x94d0_49bb_1331_11eb;

/// SplitMix64's output function: the number drawn from a state.
pub open spec fn mixed(state: u64) -> u64 {
    let first = vstd::wrapping::u64_specs::wrapping_mul(state ^ (state >> 30u64), MIX_A);
    let second = vstd::wrapping::u64_specs::wrapping_mul(first ^ (first >> 27u64), MIX_B);
    second ^ (second >> 31u64)
}

/// The state that follows `state`.
pub open spec fn next_state(state: u64) -> u64 {
    vstd::wrapping::u64_specs::wrapping_add(state, GAMMA)
}

/// `s` with the items at `i` and `j` exchanged.
pub open spec fn swapped<T>(s: Seq<T>, i: int, j: int) -> Seq<T> {
    s.update(i, s[j]).update(j, s[i])
}

/// The Fisher-Yates walk from position `index` down to position 1: at each
/// position the state advances, a draw picks a position at or below it, and
/// the two items change places.
pub open spec fn shuffle_down<T>(s: Seq<T>, state: u64, index: int) -> Seq<T>
    decreases index,
{
    if index < 1 {
        s
    } else {
        let state_after = next_state(state);
        let pick = (mixed(state_after) % ((index + 1) as u64)) as int;
        shuffle_down(swapped(s, index, pick), state_after, index - 1)
    }
}

/// The order that `seed` gives `s`: the walk from the last position down.
pub open spec fn shuffled<T>(s: Seq<T>, seed: u64) -> Seq<T> {
    shuffle_down(s, seed, s.len() - 1)
}

/// The seed a run's order is drawn from: none without `--random`, the given
/// seed with one, and otherwise `drawn`.
pub open spec fn seed_choice(random: bool, seed: Option<u64>, drawn: u64) -> Option<u64> {
    if !random {
        None
    } else {
        match seed {
            Some(given) => Some(given),
            None => Some(drawn),
        }
    }
}

/// The order of `jobs` under an optional seed: untouched without one.
pub open spec fn ordered<T>(jobs: Seq<T>, seed: Option<u64>) -> Seq<T> {
    match seed {
        Some(s) => shuffled(jobs, s),
        None => jobs,
    }
}

proof fn lemma_update_to_multiset<T>(s: Seq<T>, i: int, x: T)
    requires
        0 <= i < s.len(),
    ensures
        s.update(i, x).to_multiset() == s.to_multiset().remove(s[i]).insert(x),
{
    broadcast use vstd::seq_lib::group_to_multiset_ensures;

    let u = s.update(i, x);
    assert(u.remove(i) =~= s.remove(i));
    assert(u.to_multiset().remove(x) == s.to_multiset().remove(s[i]));
    assert(u.to_multiset().contains(x)) by {
        assert(u[i] == x);
        assert(u.contains(x));
    }
    assert(u.to_multiset() =~= u.to_multiset().remove(x).insert(x));
}

proof fn lemma_swapped_to_multiset<T>(s: Seq<T>, i: int, j: int)
    requires
        0 <= i < s.len(),
        0 <= j < s.len(),
    ensures
        swapped(s, i, j).to_multiset() == s.to_multiset(),
        swapped(s, i, j).len() == s.len(),
{
    broadcast use vstd::seq_lib::group_to_multiset_ensures;

    let first = s.update(i, s[j]);
    lemma_update_to_multiset(s, i, s[j]);
    lemma_update_to_multiset(first, j, s[i]);
    if i == j {
        assert(swapped(s, i, j) =~= s);
    } else {
        assert(first[j] == s[j]);
        assert(s.to_multiset().contains(s[i])) by {
            assert(s.contains(s[i]));
        }
        assert(s.to_multiset().contains(s[j])) by {
            assert(s.contains(s[j]));
        }
        assert(s.to_multiset().remove(s[i]).insert(s[j]).remove(s[j]).insert(s[i])
            =~= s.to_multiset());
    }
}

proof fn lemma_shuffle_down_to_multiset<T>(s: Seq<T>, state: u64, index: int)
    requires
        index < s.len(),
        index < u64::MAX,
    ensures
        shuffle_down(s, state, index).to_multiset() == s.to_multiset(),
        shuffle_down(s, state, index).len() == s.len(),
    decreases index,
{
    if index >= 1 {
        let state_after = next_state(state);
        let pick = (mixed(state_after) % ((index + 1) as u64)) as int;
        assert((index + 1) as u64 == index + 1);
        assert(0 <= pick <= index);
        lemma_swapped_to_multiset(s, index, pick);
        lemma_shuffle_down_to_multiset(swapped(s, index, pick), state_after, index - 1);
    }
}

/// A shuffle keeps every job exactly once: the shuffled list holds the same
/// jobs, each as many times, as the list it was given.
pub proof fn lemma_shuffled_is_a_permutation<T>(s: Seq<T>, seed: u64)
    requires
        s.len() <= u64::MAX,
    ensures
        shuffled(s, seed).to_multiset() == s.to_multiset(),
        shuffled(s, seed).len() == s.len(),
{
    lemma_shuffle_down_to_multiset(s, seed, s.len() - 1);
}

/// A list of fewer than two jobs has one order, whatever the seed.
pub proof fn lemma_short_lists_are_unchanged<T>(s: Seq<T>, seed: u64)
    requires
        s.len() < 2,
    ensures
        shuffled(s, seed) == s,
{
}

/// The clock's reading in nanoseconds since the Unix epoch, cut to 64 bits;
/// 0 for a clock set before the epoch.
#[verifier::external_body]
fn seed_from_clock() -> u64 {
    match std::time::SystemTime::now().duration_since(std::time::UNIX_EPOCH) {
        Ok(elapsed) => elapsed.as_nanos() as u64,
        Err(_) => 0,
    }
}

/// The order the jobs are handed to the slot pool. Shuffled only when asked,
/// with a seeded SplitMix64 Fisher-Yates walk, so that a seed picks one order
/// and picks the same one every time.
pub struct JobOrder;

impl JobOrder {
    /// SplitMix64's output mix of `state`.
    pub fn mix(state: u64) -> (drawn: u64)
        ensures
            drawn == mixed(state),
    {
        let first = (state ^ (state >> 30)).wrapping_mul(MIX_A);
        let second = (first ^ (first >> 27)).wrapping_mul(MIX_B);
        second ^ (second >> 31)
    }

    /// `jobs` with the items at `index` and `pick` exchanged.
    fn swap_jobs(jobs: &mut Vec<Job>, index: usize, pick: usize)
        requires
            pick <= index < old(jobs)@.len(),
        ensures
            final(jobs)@ == swapped(old(jobs)@, index as int, pick as int),
    {
        if pick < index {
            let ghost before = jobs@;
            let taken = jobs.remove(index);
            let mut held = taken;
            jobs.set_and_swap(pick, &mut held);
            jobs.insert(index, held);
            assert(jobs@ =~= swapped(before, index as int, pick as int));
        } else {
            assert(jobs@ =~= swapped(jobs@, index as int, pick as int));
        }
    }

    /// `jobs` in the order that `seed` picks: Fisher-Yates walked from the
    /// end, each position drawing its partner from a SplitMix64 stream.
    pub fn shuffle(jobs: Vec<Job>, seed: u64) -> (shuffled_jobs: Vec<Job>)
        ensures
            shuffled_jobs@ == shuffled(jobs@, seed),
    {
        let mut jobs = jobs;
        let ghost original = jobs@;
        let count = jobs.len();
        if count < 2 {
            return jobs;
        }
        let mut state = seed;
        let mut index: usize = count - 1;
        while index >= 1
            invariant
                index < count,
                count == jobs@.len(),
                shuffled(original, seed) == shuffle_down(jobs@, state, index as int),
            decreases index,
        {
            state = state.wrapping_add(GAMMA);
            let pick = (Self::mix(state) % (index as u64 + 1)) as usize;
            Self::swap_jobs(&mut jobs, index, pick);
            index = index - 1;
        }
        jobs
    }

    /// The seed a run's order comes from: none unless `--random`, then the
    /// given `--seed`, or else one drawn from the clock.
    pub fn seed_for(args: &GateArgs) -> (seed: Option<u64>)
        ensures
            !args.random ==> seed.is_none(),
            args.random ==> seed.is_some(),
            args.random && args.seed.is_some() ==> seed == args.seed,
    {
        if !args.random {
            return None;
        }
        match args.seed {
            Some(given) => Some(given),
            None => Some(seed_from_clock()),
        }
    }

    /// `jobs` in the order an optional seed picks, untouched without one.
    pub fn in_order(jobs: Vec<Job>, seed: Option<u64>) -> (ordered_jobs: Vec<Job>)
        ensures
            ordered_jobs@ == ordered(jobs@, seed),
    {
        match seed {
            Some(s) => Self::shuffle(jobs, s),
            None => jobs,
        }
    }

    /// The jobs in the order the run hands them out: as found without
    /// `--random`, otherwise shuffled by `--seed` or by a seed from the clock.
    pub fn apply(jobs: Vec<Job>, args: &GateArgs) -> (ordered_jobs: Vec<Job>)
        ensures
            !args.random ==> ordered_jobs@ == jobs@,
            args.random && args.seed.is_some() ==> ordered_jobs@ == shuffled(
                jobs@,
                args.seed.unwrap(),
            ),
            args.random ==> exists|drawn: u64| ordered_jobs@ == #[trigger] shuffled(jobs@, drawn),
    {
        let seed = Self::seed_for(args);
        Self::in_order(jobs, seed)
    }
}

} // verus!

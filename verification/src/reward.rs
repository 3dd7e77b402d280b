//! Which nodes' blocks earn the most: a running maximum with its ties.

use vstd::prelude::*;
use vstd::string::*;

verus! {

/// The state of a comparison: the highest reward seen so far and the names
/// of the nodes that reported it, in the order in which they were recorded.
#[verifier::ext_equal]
pub struct Tally {
    pub max_reward: u64,
    pub winners: Seq<Seq<char>>,
}

/// The tally before any reward was recorded.
pub open spec fn empty_tally() -> Tally {
    Tally { max_reward: 0, winners: Seq::empty() }
}

/// Records one reward: a strictly higher one replaces the winners by its
/// node, an equal one adds its node to them, a lower one changes nothing.
pub open spec fn record_of(t: Tally, name: Seq<char>, reward: u64) -> Tally {
    if reward > t.max_reward {
        Tally { max_reward: reward, winners: seq![name] }
    } else if reward == t.max_reward {
        Tally { max_reward: t.max_reward, winners: t.winners.push(name) }
    } else {
        t
    }
}

/// The tally after recording `(name, reward)` entries from first to last.
pub open spec fn tally_of(entries: Seq<(Seq<char>, u64)>) -> Tally
    decreases entries.len(),
{
    if entries.len() == 0 {
        empty_tally()
    } else {
        record_of(tally_of(entries.drop_last()), entries.last().0, entries.last().1)
    }
}

/// The highest reward among the entries; zero where there is none.
pub open spec fn highest(entries: Seq<(Seq<char>, u64)>) -> u64
    decreases entries.len(),
{
    if entries.len() == 0 {
        0
    } else {
        let before = highest(entries.drop_last());
        if entries.last().1 > before {
            entries.last().1
        } else {
            before
        }
    }
}

/// The positions of the entries that hold `reward`, ascending.
pub open spec fn positions_of(entries: Seq<(Seq<char>, u64)>, reward: u64) -> Seq<int>
    decreases entries.len(),
{
    if entries.len() == 0 {
        Seq::empty()
    } else {
        let before = positions_of(entries.drop_last(), reward);
        if entries.last().1 == reward {
            before.push(entries.len() - 1)
        } else {
            before
        }
    }
}

/// The names at the given positions.
pub open spec fn names_at(entries: Seq<(Seq<char>, u64)>, positions: Seq<int>) -> Seq<Seq<char>> {
    Seq::new(positions.len(), |k: int| entries[positions[k]].0)
}

/// `highest` is the maximum: no entry exceeds it, and some entry attains it
/// unless there is none.
pub proof fn lemma_highest_is_maximum(entries: Seq<(Seq<char>, u64)>)
    ensures
        forall|i: int| 0 <= i < entries.len() ==> (#[trigger] entries[i]).1 <= highest(entries),
        entries.len() > 0 ==> exists|i: int|
            0 <= i < entries.len() && (#[trigger] entries[i]).1 == highest(entries),
        entries.len() == 0 ==> highest(entries) == 0,
    decreases entries.len(),
{
    if entries.len() > 0 {
        let before = entries.drop_last();
        lemma_highest_is_maximum(before);
        assert forall|i: int| 0 <= i < entries.len() implies (#[trigger] entries[i]).1 <= highest(
            entries,
        ) by {
            if i < before.len() {
                assert(before[i] == entries[i]);
            }
        }
        if entries.last().1 > highest(before) || before.len() == 0 {
            assert(entries[entries.len() - 1].1 == highest(entries));
        } else {
            let i = choose|i: int| 0 <= i < before.len() && (#[trigger] before[i]).1 == highest(before);
            assert(entries[i] == before[i]);
        }
    }
}

/// `positions_of` lists exactly the positions that hold the reward, each
/// once, in ascending order.
pub proof fn lemma_positions(entries: Seq<(Seq<char>, u64)>, reward: u64)
    ensures
        forall|i: int|
            positions_of(entries, reward).contains(i) <==> (0 <= i < entries.len()
                && entries[i].1 == reward),
        forall|a: int, b: int|
            0 <= a < b < positions_of(entries, reward).len() ==> positions_of(entries, reward)[a]
                < positions_of(entries, reward)[b],
    decreases entries.len(),
{
    let here = positions_of(entries, reward);
    if entries.len() > 0 {
        let before = entries.drop_last();
        let earlier = positions_of(before, reward);
        lemma_positions(before, reward);
        assert forall|i: int| here.contains(i) <==> (0 <= i < entries.len() && entries[i].1
            == reward) by {
            if 0 <= i < before.len() {
                assert(before[i] == entries[i]);
            }
            if here.contains(i) {
                let k = choose|k: int| 0 <= k < here.len() && here[k] == i;
                if k < earlier.len() {
                    assert(earlier[k] == i);
                    assert(earlier.contains(i));
                }
            }
            if 0 <= i < entries.len() && entries[i].1 == reward {
                if i < before.len() {
                    assert(earlier.contains(i));
                    let k = choose|k: int| 0 <= k < earlier.len() && earlier[k] == i;
                    assert(here[k] == i);
                } else {
                    assert(here[here.len() - 1] == i);
                }
            }
        }
        assert forall|a: int, b: int| 0 <= a < b < here.len() implies here[a] < here[b] by {
            if b < earlier.len() {
                assert(here[a] == earlier[a] && here[b] == earlier[b]);
            } else {
                assert(earlier[a] == here[a]);
                assert(earlier.contains(earlier[a]));
            }
        }
    }
}

/// Recording rewards one after another leaves the maximum of all, and as
/// winners the nodes at exactly the positions that hold it, in input order.
pub proof fn lemma_tally_is_maximum_with_ties(entries: Seq<(Seq<char>, u64)>)
    ensures
        tally_of(entries).max_reward == highest(entries),
        tally_of(entries).winners == names_at(entries, positions_of(entries, highest(entries))),
    decreases entries.len(),
{
    let top = highest(entries);
    if entries.len() == 0 {
        assert(tally_of(entries).winners =~= names_at(entries, positions_of(entries, top)));
    } else {
        let before = entries.drop_last();
        let last = entries.last();
        lemma_tally_is_maximum_with_ties(before);
        let earlier = positions_of(before, highest(before));
        assert forall|k: int| 0 <= k < earlier.len() implies before[earlier[k]]
            == entries[earlier[k]] by {
            lemma_positions(before, highest(before));
            assert(earlier.contains(earlier[k]));
        }
        if last.1 > highest(before) {
            lemma_highest_is_maximum(before);
            lemma_positions(before, top);
            let none = positions_of(before, top);
            if none.len() > 0 {
                assert(none.contains(none[0]));
            }
            assert(tally_of(entries).winners =~= names_at(entries, positions_of(entries, top)));
        } else {
            assert(tally_of(entries).winners =~= names_at(entries, positions_of(entries, top)));
        }
    }
}

/// Keeps the highest reward reported so far and the nodes that reported it.
pub struct RewardAccumulator {
    max_reward: u64,
    max_reward_nodes: Vec<String>,
}

impl View for RewardAccumulator {
    type V = Tally;

    closed spec fn view(&self) -> Tally {
        Tally { max_reward: self.max_reward, winners: self.max_reward_nodes.deep_view() }
    }
}

impl RewardAccumulator {
    /// An accumulator that has seen no reward: maximum zero, no winner.
    pub fn new() -> (acc: Self)
        ensures
            acc@ == empty_tally(),
    {
        let acc = RewardAccumulator { max_reward: 0, max_reward_nodes: Vec::new() };
        assert(acc.max_reward_nodes.deep_view() =~= Seq::<Seq<char>>::empty());
        acc
    }

    /// Takes one node's reward into the comparison.
    pub fn record(&mut self, name: &str, reward: u64)
        ensures
            final(self)@ == record_of(old(self)@, name@, reward),
    {
        if reward > self.max_reward {
            self.max_reward = reward;
            let mut nodes: Vec<String> = Vec::new();
            nodes.push(String::from_str(name));
            self.max_reward_nodes = nodes;
            assert(self.max_reward_nodes.deep_view() =~= seq![name@]);
        } else if reward == self.max_reward {
            self.max_reward_nodes.push(String::from_str(name));
            assert(self.max_reward_nodes.deep_view() =~= old(self).max_reward_nodes.deep_view().push(
                name@,
            ));
        }
    }

    /// The highest reward recorded so far.
    pub fn max_reward(&self) -> (reward: u64)
        ensures
            reward == self@.max_reward,
    {
        self.max_reward
    }

    /// The nodes that reported the highest reward, in recording order.
    pub fn winners(&self) -> (nodes: &Vec<String>)
        ensures
            nodes.deep_view() == self@.winners,
    {
        &self.max_reward_nodes
    }

    /// Gives up the accumulator for its winners.
    pub fn into_winners(self) -> (nodes: Vec<String>)
        ensures
            nodes.deep_view() == self@.winners,
    {
        self.max_reward_nodes
    }
}

} // verus!

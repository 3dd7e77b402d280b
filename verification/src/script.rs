//! What is done with the endpoint's results: each node is paired with the
//! result at its position, its reward is compared and its result persisted,
//! node after node, until one of them fails.

use crate::action::{action_views, Action, ActionView};
use crate::endpoint::{EndpointView, PostEndpoint};
use crate::error::{outcome_view, PostError, PostErrorView};
use crate::json::{evaluation_views, Evaluation, EvaluationView};
use crate::layout::{label_dir, label_dir_of, result_path, result_path_of};
use crate::reward::{tally_of, RewardAccumulator};
use vstd::prelude::*;
use vstd::string::*;

verus! {

/// The actions that handle a batch of results, in order, and the outcome of
/// the submission once they have all been done.
#[derive(Debug)]
pub struct Script {
    pub actions: Vec<Action>,
    pub outcome: Result<(), PostError>,
}

/// Mathematical value of a [`Script`].
#[verifier::ext_equal]
pub struct ScriptView {
    pub actions: Seq<ActionView>,
    pub outcome: Result<(), PostErrorView>,
}

impl View for Script {
    type V = ScriptView;

    open spec fn view(&self) -> ScriptView {
        ScriptView { actions: action_views(self.actions@), outcome: outcome_view(self.outcome) }
    }
}

/// Starts the cause of a decode failure for a result without a reward; the
/// node's name follows.
pub const NO_REWARD: &'static str =
    "no unsigned integer at attestation_rewards.total in the result of ";

/// Why a result without a reward fails the submission.
pub open spec fn missing_reward(name: Seq<char>) -> PostErrorView {
    PostErrorView::Decode { cause: NO_REWARD@ + name }
}

/// Whether a node's result can be handled to the end: it holds a reward
/// where rewards are compared, and has an encoding where results are kept.
pub open spec fn pair_succeeds(cfg: EndpointView, result: EvaluationView) -> bool {
    &&& cfg.compare_rewards ==> result.reward is Some
    &&& cfg.persistence_dir is Some ==> result.encoding is Ok
}

/// What is done for one node and its result: the reward is reported, then
/// the label's directory is ensured and the result written under it. A
/// result without a reward fails before anything is done for it; one that
/// cannot be encoded fails once the directory is ensured.
pub open spec fn pair_script(
    cfg: EndpointView,
    node: (Seq<char>, Seq<char>),
    result: EvaluationView,
    slot: u64,
) -> ScriptView {
    let (name, label) = node;
    if cfg.compare_rewards && result.reward is None {
        ScriptView { actions: Seq::empty(), outcome: Err(missing_reward(name)) }
    } else {
        let report = if cfg.compare_rewards {
            seq![ActionView::ReportReward { name, reward: result.reward->0 }]
        } else {
            Seq::empty()
        };
        match cfg.persistence_dir {
            None => ScriptView { actions: report, outcome: Ok(()) },
            Some(dir) => {
                let ensure = ActionView::EnsureDir { path: label_dir_of(dir, label) };
                match result.encoding {
                    Err(cause) => ScriptView {
                        actions: report.push(ensure),
                        outcome: Err(PostErrorView::Encode { cause }),
                    },
                    Ok(bytes) => ScriptView {
                        actions: report.push(ensure).push(
                            ActionView::WriteFile {
                                path: result_path_of(dir, label, name, slot),
                                bytes,
                            },
                        ),
                        outcome: Ok(()),
                    },
                }
            },
        }
    }
}

/// How many nodes are paired with a result: as many as the shorter of the
/// two sequences holds. What is left over on either side is ignored.
pub open spec fn paired(nodes: Seq<(Seq<char>, Seq<char>)>, results: Seq<EvaluationView>) -> nat {
    if nodes.len() <= results.len() {
        nodes.len()
    } else {
        results.len()
    }
}

/// What is done for the first `n` pairs: pair after pair, up to and
/// including the first one that fails.
pub open spec fn batch_script(
    cfg: EndpointView,
    nodes: Seq<(Seq<char>, Seq<char>)>,
    results: Seq<EvaluationView>,
    slot: u64,
    n: nat,
) -> ScriptView
    decreases n,
{
    if n == 0 {
        ScriptView { actions: Seq::empty(), outcome: Ok(()) }
    } else {
        let before = batch_script(cfg, nodes, results, slot, (n - 1) as nat);
        if before.outcome is Err {
            before
        } else {
            let here = pair_script(cfg, nodes[n - 1], results[n - 1], slot);
            ScriptView { actions: before.actions + here.actions, outcome: here.outcome }
        }
    }
}

/// The reward of a result, zero where it has none.
pub open spec fn reward_or_zero(result: EvaluationView) -> u64 {
    match result.reward {
        Some(reward) => reward,
        None => 0,
    }
}

/// The names and rewards of the first `n` pairs, in order.
pub open spec fn entries_of(
    nodes: Seq<(Seq<char>, Seq<char>)>,
    results: Seq<EvaluationView>,
    n: nat,
) -> Seq<(Seq<char>, u64)> {
    Seq::new(n, |i: int| (nodes[i].0, reward_or_zero(results[i])))
}

/// What is done with a batch of results: every pair in turn, and, where
/// rewards are compared and no pair failed, a last report of the nodes whose
/// reward is the highest.
pub open spec fn script_of(
    cfg: EndpointView,
    nodes: Seq<(Seq<char>, Seq<char>)>,
    results: Seq<EvaluationView>,
    slot: u64,
) -> ScriptView {
    let n = paired(nodes, results);
    let batch = batch_script(cfg, nodes, results, slot, n);
    if cfg.compare_rewards && batch.outcome is Ok {
        ScriptView {
            actions: batch.actions.push(
                ActionView::ReportWinners { names: tally_of(entries_of(nodes, results, n)).winners },
            ),
            outcome: Ok(()),
        }
    } else {
        batch
    }
}

/// Once a pair has failed, the pairs after it add nothing.
pub proof fn lemma_failure_ends_batch(
    cfg: EndpointView,
    nodes: Seq<(Seq<char>, Seq<char>)>,
    results: Seq<EvaluationView>,
    slot: u64,
    k: nat,
    n: nat,
)
    requires
        k <= n,
        batch_script(cfg, nodes, results, slot, k).outcome is Err,
    ensures
        batch_script(cfg, nodes, results, slot, n) == batch_script(cfg, nodes, results, slot, k),
    decreases n,
{
    if k < n {
        lemma_failure_ends_batch(cfg, nodes, results, slot, k, (n - 1) as nat);
    }
}

/// The actions of each of the first `n` pairs, one sequence per pair.
pub open spec fn pair_actions(
    cfg: EndpointView,
    nodes: Seq<(Seq<char>, Seq<char>)>,
    results: Seq<EvaluationView>,
    slot: u64,
    n: nat,
) -> Seq<Seq<ActionView>> {
    Seq::new(n, |i: int| pair_script(cfg, nodes[i], results[i], slot).actions)
}

/// What ends a script whose pairs all succeeded: the report of the winners
/// where rewards are compared, nothing otherwise.
pub open spec fn closing_report(
    cfg: EndpointView,
    nodes: Seq<(Seq<char>, Seq<char>)>,
    results: Seq<EvaluationView>,
) -> Seq<ActionView> {
    if cfg.compare_rewards {
        seq![
            ActionView::ReportWinners {
                names: tally_of(entries_of(nodes, results, paired(nodes, results))).winners,
            },
        ]
    } else {
        Seq::empty()
    }
}

/// While no pair fails, the batch is the actions of the first pair, then
/// those of the second, and so on: nothing left out, nothing repeated,
/// nothing out of place.
pub proof fn lemma_pairs_in_order(
    cfg: EndpointView,
    nodes: Seq<(Seq<char>, Seq<char>)>,
    results: Seq<EvaluationView>,
    slot: u64,
    n: nat,
)
    requires
        n <= paired(nodes, results),
        forall|i: int| 0 <= i < n ==> pair_succeeds(cfg, #[trigger] results[i]),
    ensures
        batch_script(cfg, nodes, results, slot, n).outcome is Ok,
        batch_script(cfg, nodes, results, slot, n).actions == pair_actions(
            cfg,
            nodes,
            results,
            slot,
            n,
        ).flatten(),
    decreases n,
{
    if n > 0 {
        let m = (n - 1) as nat;
        lemma_pairs_in_order(cfg, nodes, results, slot, m);
        let here = pair_script(cfg, nodes[n - 1], results[n - 1], slot);
        assert(pair_succeeds(cfg, results[n - 1]));
        assert(pair_actions(cfg, nodes, results, slot, n) =~= pair_actions(
            cfg,
            nodes,
            results,
            slot,
            m,
        ).push(here.actions));
        pair_actions(cfg, nodes, results, slot, m).lemma_flatten_push(here.actions);
    }
}

/// Where there are as many nodes as results and none of them fails, every
/// pair is handled exactly once, in input order: the script is the actions
/// of pair 0, then those of pair 1, up to the last pair, and then the closing
/// report. It ends in success.
pub proof fn lemma_every_pair_once_in_order(
    cfg: EndpointView,
    nodes: Seq<(Seq<char>, Seq<char>)>,
    results: Seq<EvaluationView>,
    slot: u64,
)
    requires
        nodes.len() == results.len(),
        forall|i: int| 0 <= i < results.len() ==> pair_succeeds(cfg, #[trigger] results[i]),
    ensures
        script_of(cfg, nodes, results, slot).outcome is Ok,
        script_of(cfg, nodes, results, slot).actions == pair_actions(
            cfg,
            nodes,
            results,
            slot,
            nodes.len(),
        ).flatten() + closing_report(cfg, nodes, results),
{
    lemma_pairs_in_order(cfg, nodes, results, slot, nodes.len());
}

/// A pair that succeeds takes the same number of actions whatever it holds:
/// one report where rewards are compared, and a directory and a file where
/// results are kept.
pub open spec fn actions_per_pair(cfg: EndpointView) -> nat {
    (if cfg.compare_rewards {
        1nat
    } else {
        0nat
    }) + (if cfg.persistence_dir is Some {
        2nat
    } else {
        0nat
    })
}

/// While no pair fails, pair `i` owns the actions from position
/// `i * actions_per_pair` on: they are its own, in their order.
pub proof fn lemma_pair_position(
    cfg: EndpointView,
    nodes: Seq<(Seq<char>, Seq<char>)>,
    results: Seq<EvaluationView>,
    slot: u64,
    n: nat,
    i: int,
)
    requires
        n <= paired(nodes, results),
        forall|k: int| 0 <= k < n ==> pair_succeeds(cfg, #[trigger] results[k]),
        0 <= i < n,
    ensures
        batch_script(cfg, nodes, results, slot, n).actions.len() == n * actions_per_pair(cfg),
        0 <= i * actions_per_pair(cfg),
        (i + 1) * actions_per_pair(cfg) <= n * actions_per_pair(cfg),
        batch_script(cfg, nodes, results, slot, n).actions.subrange(
            i * actions_per_pair(cfg),
            (i + 1) * actions_per_pair(cfg),
        ) == pair_script(cfg, nodes[i], results[i], slot).actions,
    decreases n,
{
    let c = actions_per_pair(cfg);
    let m = (n - 1) as nat;
    let whole = batch_script(cfg, nodes, results, slot, n).actions;
    let before = batch_script(cfg, nodes, results, slot, m).actions;
    let last = pair_script(cfg, nodes[n - 1], results[n - 1], slot).actions;
    lemma_pairs_in_order(cfg, nodes, results, slot, m);
    assert(pair_succeeds(cfg, results[n - 1]));
    assert(last.len() == c);
    assert(whole == before + last);
    assert(m * c + c == n * c) by (nonlinear_arith)
        requires
            m + 1 == n,
    ;
    assert(0 <= i * c && (i + 1) * c <= n * c && (i + 1) * c == i * c + c) by (nonlinear_arith)
        requires
            0 <= i < n,
            0 <= c,
    ;
    if m == 0 {
        assert(before.len() == 0);
        assert(whole.subrange(0, c as int) =~= last);
    } else if i < m {
        lemma_pair_position(cfg, nodes, results, slot, m, i);
        assert((i + 1) * c <= m * c) by (nonlinear_arith)
            requires
                0 <= i < m,
                0 <= c,
        ;
        assert(whole.subrange(i * c, (i + 1) * c) =~= before.subrange(i * c, (i + 1) * c));
    } else {
        lemma_pair_position(cfg, nodes, results, slot, m, 0);
        assert(before.len() == m * c);
        assert(whole.subrange(i * c, (i + 1) * c) =~= last);
    }
}

/// The first `n` pairs are handled alike in two batches that agree on them.
pub proof fn lemma_batch_reads_its_pairs_only(
    cfg: EndpointView,
    nodes: Seq<(Seq<char>, Seq<char>)>,
    results: Seq<EvaluationView>,
    others: Seq<(Seq<char>, Seq<char>)>,
    other_results: Seq<EvaluationView>,
    slot: u64,
    n: nat,
)
    requires
        forall|i: int| 0 <= i < n ==> nodes[i] == others[i] && results[i] == other_results[i],
    ensures
        batch_script(cfg, nodes, results, slot, n) == batch_script(
            cfg,
            others,
            other_results,
            slot,
            n,
        ),
    decreases n,
{
    if n > 0 {
        lemma_batch_reads_its_pairs_only(
            cfg,
            nodes,
            results,
            others,
            other_results,
            slot,
            (n - 1) as nat,
        );
    }
}

/// Nodes without a result and results without a node change nothing: the
/// script is that of the two sequences cut to the length of the shorter.
pub proof fn lemma_extras_are_ignored(
    cfg: EndpointView,
    nodes: Seq<(Seq<char>, Seq<char>)>,
    results: Seq<EvaluationView>,
    slot: u64,
)
    ensures
        script_of(cfg, nodes, results, slot) == script_of(
            cfg,
            nodes.take(paired(nodes, results) as int),
            results.take(paired(nodes, results) as int),
            slot,
        ),
{
    let n = paired(nodes, results);
    let cut_nodes = nodes.take(n as int);
    let cut_results = results.take(n as int);
    assert(paired(cut_nodes, cut_results) == n);
    lemma_batch_reads_its_pairs_only(cfg, nodes, results, cut_nodes, cut_results, slot, n);
    assert(entries_of(nodes, results, n) =~= entries_of(cut_nodes, cut_results, n));
}

/// Without nodes nothing is persisted, whatever the endpoint answered: the
/// submission succeeds, and all that is left to do is to report that no node
/// won, where rewards are compared.
pub proof fn lemma_empty_batch(
    cfg: EndpointView,
    nodes: Seq<(Seq<char>, Seq<char>)>,
    results: Seq<EvaluationView>,
    slot: u64,
)
    requires
        nodes.len() == 0,
    ensures
        script_of(cfg, nodes, results, slot).outcome is Ok,
        script_of(cfg, nodes, results, slot).actions == if cfg.compare_rewards {
            seq![ActionView::ReportWinners { names: Seq::empty() }]
        } else {
            Seq::empty()
        },
{
    assert(entries_of(nodes, results, 0) =~= Seq::empty());
}

/// Whether an action is one that a script holds: a report, a directory to
/// ensure or a file to write.
pub open spec fn is_effect(action: ActionView) -> bool {
    action is ReportReward || action is EnsureDir || action is WriteFile || action is ReportWinners
}

/// A batch holds nothing but reports, directories and files.
pub proof fn lemma_batch_holds_effects(
    cfg: EndpointView,
    nodes: Seq<(Seq<char>, Seq<char>)>,
    results: Seq<EvaluationView>,
    slot: u64,
    n: nat,
)
    ensures
        forall|i: int|
            0 <= i < batch_script(cfg, nodes, results, slot, n).actions.len() ==> is_effect(
                #[trigger] batch_script(cfg, nodes, results, slot, n).actions[i],
            ),
    decreases n,
{
    if n > 0 {
        lemma_batch_holds_effects(cfg, nodes, results, slot, (n - 1) as nat);
    }
}

/// A script holds nothing but reports, directories and files: it never asks
/// to send, to read or to finish.
pub proof fn lemma_script_holds_effects(
    cfg: EndpointView,
    nodes: Seq<(Seq<char>, Seq<char>)>,
    results: Seq<EvaluationView>,
    slot: u64,
)
    ensures
        forall|i: int|
            0 <= i < script_of(cfg, nodes, results, slot).actions.len() ==> is_effect(
                #[trigger] script_of(cfg, nodes, results, slot).actions[i],
            ),
{
    lemma_batch_holds_effects(cfg, nodes, results, slot, paired(nodes, results));
}

fn copy_bytes(bytes: &Vec<u8>) -> (copy: Vec<u8>)
    ensures
        copy@ == bytes@,
{
    let mut copy: Vec<u8> = Vec::new();
    let mut i: usize = 0;
    while i < bytes.len()
        invariant
            i <= bytes.len(),
            copy@ == bytes@.take(i as int),
        decreases bytes.len() - i,
    {
        copy.push(bytes[i]);
        assert(bytes@.take(i + 1) =~= bytes@.take(i as int).push(bytes@[i as int]));
        i += 1;
    }
    assert(bytes@.take(bytes.len() as int) =~= bytes@);
    copy
}

impl PostEndpoint {
    /// Plans what is done with the results of a batch. Node `i` goes with
    /// result `i`; nodes without a result and results without a node are
    /// ignored. The script ends with the first pair that fails, and with the
    /// error of that pair as its outcome.
    pub fn plan(
        &self,
        names_and_labels: &Vec<(String, String)>,
        results: &Vec<Evaluation>,
        slot: u64,
    ) -> (script: Script)
        ensures
            script@ == script_of(
                self@,
                names_and_labels.deep_view(),
                evaluation_views(results@),
                slot,
            ),
    {
        let ghost cfg = self@;
        let ghost nodes = names_and_labels.deep_view();
        let ghost evals = evaluation_views(results@);
        let n = if names_and_labels.len() <= results.len() {
            names_and_labels.len()
        } else {
            results.len()
        };
        let compare = self.compare_rewards();
        let mut actions: Vec<Action> = Vec::new();
        let mut tally = RewardAccumulator::new();
        let mut i: usize = 0;
        assert(action_views(actions@) =~= Seq::<ActionView>::empty());
        assert(entries_of(nodes, evals, 0) =~= Seq::empty());
        while i < n
            invariant
                i <= n,
                n == paired(nodes, evals),
                cfg == self@,
                compare == cfg.compare_rewards,
                nodes == names_and_labels.deep_view(),
                evals == evaluation_views(results@),
                batch_script(cfg, nodes, evals, slot, i as nat) == (ScriptView {
                    actions: action_views(actions@),
                    outcome: Ok(()),
                }),
                compare ==> tally@ == tally_of(entries_of(nodes, evals, i as nat)),
            decreases n - i,
        {
            let name = &names_and_labels[i].0;
            let label = &names_and_labels[i].1;
            let result = &results[i];
            let ghost before = action_views(actions@);
            let ghost here = pair_script(cfg, nodes[i as int], evals[i as int], slot);
            assert(nodes[i as int] == (name@, label@));
            assert(evals[i as int] == result@);
            if compare {
                match result.reward {
                    None => {
                        let cause = String::from_str(NO_REWARD).concat(name.as_str());
                        proof {
                            assert(action_views(actions@) =~= before + here.actions);
                            lemma_failure_ends_batch(cfg, nodes, evals, slot, (i + 1) as nat, n as nat);
                        }
                        return Script { actions, outcome: Err(PostError::Decode { cause }) };
                    },
                    Some(reward) => {
                        actions.push(Action::ReportReward { name: name.clone(), reward });
                        tally.record(name.as_str(), reward);
                        proof {
                            let grown = entries_of(nodes, evals, (i + 1) as nat);
                            assert(grown.drop_last() =~= entries_of(nodes, evals, i as nat));
                            assert(grown.last() == (name@, reward));
                        }
                    },
                }
            }
            match self.persistence_dir() {
                None => {
                    assert(action_views(actions@) =~= before + here.actions);
                },
                Some(dir) => {
                    actions.push(Action::EnsureDir { path: label_dir(dir.as_str(), label.as_str()) });
                    match &result.encoding {
                        Err(cause) => {
                            let cause = cause.clone();
                            proof {
                                assert(action_views(actions@) =~= before + here.actions);
                                lemma_failure_ends_batch(
                                    cfg,
                                    nodes,
                                    evals,
                                    slot,
                                    (i + 1) as nat,
                                    n as nat,
                                );
                            }
                            return Script { actions, outcome: Err(PostError::Encode { cause }) };
                        },
                        Ok(bytes) => {
                            actions.push(
                                Action::WriteFile {
                                    path: result_path(
                                        dir.as_str(),
                                        label.as_str(),
                                        name.as_str(),
                                        slot,
                                    ),
                                    bytes: copy_bytes(bytes),
                                },
                            );
                            assert(action_views(actions@) =~= before + here.actions);
                        },
                    }
                },
            }
            i += 1;
        }
        if compare {
            let ghost before = action_views(actions@);
            let names = tally.into_winners();
            actions.push(Action::ReportWinners { names });
            assert(action_views(actions@) =~= before.push(
                ActionView::ReportWinners {
                    names: tally_of(entries_of(nodes, evals, n as nat)).winners,
                },
            ));
        }
        Script { actions, outcome: Ok(()) }
    }
}

} // verus!

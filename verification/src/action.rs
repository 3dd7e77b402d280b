//! What a submission asks its caller to do.

use crate::error::{outcome_view, PostError, PostErrorView};
use vstd::prelude::*;

verus! {

/// One thing for the caller to do. The caller performs it and reports what
/// came of it as an [`Event`](crate::submission::Event), except for `Finish`,
/// which ends the submission.
#[derive(Debug)]
pub enum Action {
    /// Issue one HTTP POST to `url` with `body` as its JSON body.
    Send { url: String, body: Vec<u8> },
    /// The endpoint refused the batch: read the response body as text.
    ReadFailureText,
    /// The endpoint accepted the batch: read the whole response body.
    ReadBody,
    /// Report the reward, in gwei, that a node's block earns.
    ReportReward { name: String, reward: u64 },
    /// Make sure that the directory exists, with its parents; one that is
    /// already there is no failure.
    EnsureDir { path: String },
    /// Create the file, or empty the one that is there, and write the bytes.
    WriteFile { path: String, bytes: Vec<u8> },
    /// Report the nodes whose blocks earn the highest reward.
    ReportWinners { names: Vec<String> },
    /// Return `outcome` to whoever asked for the submission.
    Finish { outcome: Result<(), PostError> },
}

/// Mathematical value of an [`Action`].
pub enum ActionView {
    Send { url: Seq<char>, body: Seq<u8> },
    ReadFailureText,
    ReadBody,
    ReportReward { name: Seq<char>, reward: u64 },
    EnsureDir { path: Seq<char> },
    WriteFile { path: Seq<char>, bytes: Seq<u8> },
    ReportWinners { names: Seq<Seq<char>> },
    Finish { outcome: Result<(), PostErrorView> },
}

impl View for Action {
    type V = ActionView;

    open spec fn view(&self) -> ActionView {
        match self {
            Action::Send { url, body } => ActionView::Send { url: url@, body: body@ },
            Action::ReadFailureText => ActionView::ReadFailureText,
            Action::ReadBody => ActionView::ReadBody,
            Action::ReportReward { name, reward } => ActionView::ReportReward {
                name: name@,
                reward: *reward,
            },
            Action::EnsureDir { path } => ActionView::EnsureDir { path: path@ },
            Action::WriteFile { path, bytes } => ActionView::WriteFile {
                path: path@,
                bytes: bytes@,
            },
            Action::ReportWinners { names } => ActionView::ReportWinners {
                names: names.deep_view(),
            },
            Action::Finish { outcome } => ActionView::Finish { outcome: outcome_view(*outcome) },
        }
    }
}

/// The views of actions, in order.
pub open spec fn action_views(actions: Seq<Action>) -> Seq<ActionView> {
    Seq::new(actions.len(), |i: int| actions[i]@)
}

} // verus!

//! The configuration of an endpoint: where to post, where to persist, and
//! whether to compare rewards.

use std::sync::Arc;
use vstd::prelude::*;

verus! {

/// An evaluation endpoint and what to do with its answers. Made once and
/// never changed; any number of submissions may share it.
pub struct PostEndpoint {
    url: String,
    persistence_dir: Option<String>,
    compare_rewards: bool,
}

/// Mathematical value of a [`PostEndpoint`].
pub struct EndpointView {
    pub url: Seq<char>,
    pub persistence_dir: Option<Seq<char>>,
    pub compare_rewards: bool,
}

/// The view of an optional text.
pub open spec fn text_view(text: Option<String>) -> Option<Seq<char>> {
    match text {
        Some(t) => Some(t@),
        None => None,
    }
}

impl View for PostEndpoint {
    type V = EndpointView;

    closed spec fn view(&self) -> EndpointView {
        EndpointView {
            url: self.url@,
            persistence_dir: text_view(self.persistence_dir),
            compare_rewards: self.compare_rewards,
        }
    }
}

impl PostEndpoint {
    /// Makes the configuration of an endpoint. `persistence_dir`, where
    /// given, is the directory under which results are kept; it is taken as
    /// it is. Nothing is sent or written here.
    pub fn new(url: String, persistence_dir: Option<String>, compare_rewards: bool) -> (endpoint:
        Arc<Self>)
        ensures
            endpoint@ == (EndpointView {
                url: url@,
                persistence_dir: text_view(persistence_dir),
                compare_rewards,
            }),
    {
        Arc::new(PostEndpoint { url, persistence_dir, compare_rewards })
    }

    /// The URL that batches are posted to.
    pub fn url(&self) -> (url: &String)
        ensures
            url@ == self@.url,
    {
        &self.url
    }

    /// The directory under which results are kept, if any.
    pub fn persistence_dir(&self) -> (dir: &Option<String>)
        ensures
            text_view(*dir) == self@.persistence_dir,
    {
        &self.persistence_dir
    }

    /// Whether the rewards of the nodes are compared.
    pub fn compare_rewards(&self) -> (compare: bool)
        ensures
            compare == self@.compare_rewards,
    {
        self.compare_rewards
    }
}

impl Clone for PostEndpoint {
    fn clone(&self) -> (copy: Self)
        ensures
            copy@ == self@,
    {
        let persistence_dir = match &self.persistence_dir {
            Some(dir) => Some(dir.clone()),
            None => None,
        };
        PostEndpoint {
            url: self.url.clone(),
            persistence_dir,
            compare_rewards: self.compare_rewards,
        }
    }
}

} // verus!

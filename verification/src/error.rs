//! The ways in which a submission fails, one per pipeline stage.

use vstd::prelude::*;
use vstd::string::*;

verus! {

/// Why a submission failed. Every variant carries the context of its stage.
#[derive(Debug)]
pub enum PostError {
    /// The request never produced a response.
    Transport { cause: String },
    /// The endpoint answered with a status outside the success range; `body`
    /// is the response text, or [`GARBLED_BODY`] where it could not be read.
    HttpStatus { body: String },
    /// The response body could not be read as a JSON array, or one result
    /// holds no unsigned integer where the reward is expected.
    Decode { cause: String },
    /// A directory or a result file could not be created.
    FsCreate { path: String, cause: String },
    /// A result file could not be written.
    FsWrite { path: String, cause: String },
    /// A result could not be encoded back to JSON bytes.
    Encode { cause: String },
}

/// Mathematical value of a [`PostError`].
pub enum PostErrorView {
    Transport { cause: Seq<char> },
    HttpStatus { body: Seq<char> },
    Decode { cause: Seq<char> },
    FsCreate { path: Seq<char>, cause: Seq<char> },
    FsWrite { path: Seq<char>, cause: Seq<char> },
    Encode { cause: Seq<char> },
}

impl View for PostError {
    type V = PostErrorView;

    open spec fn view(&self) -> PostErrorView {
        match self {
            PostError::Transport { cause } => PostErrorView::Transport { cause: cause@ },
            PostError::HttpStatus { body } => PostErrorView::HttpStatus { body: body@ },
            PostError::Decode { cause } => PostErrorView::Decode { cause: cause@ },
            PostError::FsCreate { path, cause } => PostErrorView::FsCreate {
                path: path@,
                cause: cause@,
            },
            PostError::FsWrite { path, cause } => PostErrorView::FsWrite {
                path: path@,
                cause: cause@,
            },
            PostError::Encode { cause } => PostErrorView::Encode { cause: cause@ },
        }
    }
}

/// Stands in for the response text of a rejected request whose body could not
/// be read.
pub const GARBLED_BODY: &'static str = "<body garbled>";

/// The text of an error: the stage, then the underlying cause.
pub open spec fn message_of(e: PostErrorView) -> Seq<char> {
    match e {
        PostErrorView::Transport { cause } => "POST error: "@ + cause,
        PostErrorView::HttpStatus { body } => "POST failed: "@ + body,
        PostErrorView::Decode { cause } => "invalid JSON from POST endpoint: "@ + cause,
        PostErrorView::FsCreate { path, cause } => "unable to create "@ + path + ": "@ + cause,
        PostErrorView::FsWrite { path, cause } => "unable to write "@ + path + ": "@ + cause,
        PostErrorView::Encode { cause } => "JSON error: "@ + cause,
    }
}

/// The view of an outcome: success, or the view of the error.
pub open spec fn outcome_view(r: Result<(), PostError>) -> Result<(), PostErrorView> {
    match r {
        Ok(_) => Ok(()),
        Err(e) => Err(e@),
    }
}

impl PostError {
    /// A descriptive message that names the stage and the underlying cause.
    pub fn message(&self) -> (text: String)
        ensures
            text@ == message_of(self@),
    {
        match self {
            PostError::Transport { cause } => {
                String::from_str("POST error: ").concat(cause.as_str())
            },
            PostError::HttpStatus { body } => {
                String::from_str("POST failed: ").concat(body.as_str())
            },
            PostError::Decode { cause } => {
                String::from_str("invalid JSON from POST endpoint: ").concat(cause.as_str())
            },
            PostError::FsCreate { path, cause } => {
                String::from_str("unable to create ").concat(path.as_str()).concat(": ").concat(
                    cause.as_str(),
                )
            },
            PostError::FsWrite { path, cause } => {
                String::from_str("unable to write ").concat(path.as_str()).concat(": ").concat(
                    cause.as_str(),
                )
            },
            PostError::Encode { cause } => {
                String::from_str("JSON error: ").concat(cause.as_str())
            },
        }
    }
}

} // verus!

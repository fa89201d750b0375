//! The closed vocabulary of requests and responses that peers exchange.
//!
//! Each type has a view: the same value with its text as sequences of
//! characters and its lists as sequences. Contracts speak of views.

use vstd::prelude::*;

verus! {

/// An operation one peer asks another to perform against a named repository.
#[derive(Debug, Clone, PartialEq, Eq)]
pub enum GitRequest {
    /// Clone the repository at the given location.
    Clone(String),
    /// Fetch from the named remote, optionally restricted to refspecs.
    Fetch(String, Option<Vec<String>>),
    /// Push the given refspecs to the named remote.
    Push(String, Vec<String>),
    /// List the references of the named remote.
    LsRemote(String),
    /// Report the status of the named repository.
    Status(String),
}

/// The answer to a request. Only the `Error` variant signals failure.
#[derive(Debug, Clone, PartialEq, Eq)]
pub enum GitResponse {
    /// The operation succeeded; the text is advisory.
    Success(String),
    /// The operation failed for the stated reason.
    Error(String),
    /// The references of a remote, as (reference name, object id) pairs in order.
    LsRemote(Vec<(String, String)>),
    /// The status text of a repository.
    Status(String),
    /// A raw binary payload such as a packfile or a file body.
    Data(Vec<u8>),
}

/// A request for the content that a content identifier names.
#[derive(Debug, Clone, PartialEq, Eq)]
pub struct FileRequest {
    pub file_id: String,
}

/// The content that was asked for.
#[derive(Debug, Clone, PartialEq, Eq)]
pub struct FileResponse {
    pub file_body: Vec<u8>,
}

/// Any request a peer may send: an operation on a repository, or a request
/// for content.
#[derive(Debug, Clone, PartialEq, Eq)]
pub enum Request {
    Git(GitRequest),
    File(FileRequest),
}

/// Any response a peer may get: the answer to an operation on a repository,
/// or the answer to a request for content. The file exchange has no variant
/// for failure: a response without content is its refusal.
#[derive(Debug, Clone, PartialEq, Eq)]
pub enum Response {
    Git(GitResponse),
    File(FileResponse),
}

/// The view of a [`GitRequest`].
pub enum GitRequestView {
    Clone(Seq<char>),
    Fetch(Seq<char>, Option<Seq<Seq<char>>>),
    Push(Seq<char>, Seq<Seq<char>>),
    LsRemote(Seq<char>),
    Status(Seq<char>),
}

/// The view of a [`GitResponse`].
pub enum GitResponseView {
    Success(Seq<char>),
    Error(Seq<char>),
    LsRemote(Seq<(Seq<char>, Seq<char>)>),
    Status(Seq<char>),
    Data(Seq<u8>),
}

/// The view of a [`Response`].
pub enum ResponseView {
    Git(GitResponseView),
    File(Seq<u8>),
}

/// Whether a response tells the asking peer that its request failed: the
/// `Error` variant of the git exchange, or a file response without content.
pub open spec fn is_refusal(response: ResponseView) -> bool {
    match response {
        ResponseView::Git(answer) => answer is Error,
        ResponseView::File(file_body) => file_body.len() == 0,
    }
}

/// The texts of a list of strings.
pub open spec fn texts(list: Seq<String>) -> Seq<Seq<char>> {
    Seq::new(list.len(), |i: int| list[i]@)
}

/// The texts of a list of pairs of strings.
pub open spec fn text_pairs(list: Seq<(String, String)>) -> Seq<(Seq<char>, Seq<char>)> {
    Seq::new(list.len(), |i: int| (list[i].0@, list[i].1@))
}

impl View for GitRequest {
    type V = GitRequestView;

    open spec fn view(&self) -> GitRequestView {
        match self {
            GitRequest::Clone(location) => GitRequestView::Clone(location@),
            GitRequest::Fetch(remote, refspecs) => GitRequestView::Fetch(
                remote@,
                match refspecs {
                    Some(list) => Some(texts(list@)),
                    None => None,
                },
            ),
            GitRequest::Push(remote, refspecs) => GitRequestView::Push(remote@, texts(refspecs@)),
            GitRequest::LsRemote(remote) => GitRequestView::LsRemote(remote@),
            GitRequest::Status(location) => GitRequestView::Status(location@),
        }
    }
}

impl View for GitResponse {
    type V = GitResponseView;

    open spec fn view(&self) -> GitResponseView {
        match self {
            GitResponse::Success(message) => GitResponseView::Success(message@),
            GitResponse::Error(cause) => GitResponseView::Error(cause@),
            GitResponse::LsRemote(refs) => GitResponseView::LsRemote(text_pairs(refs@)),
            GitResponse::Status(status) => GitResponseView::Status(status@),
            GitResponse::Data(bytes) => GitResponseView::Data(bytes@),
        }
    }
}

impl View for Response {
    type V = ResponseView;

    open spec fn view(&self) -> ResponseView {
        match self {
            Response::Git(answer) => ResponseView::Git(answer@),
            Response::File(answer) => ResponseView::File(answer.file_body@),
        }
    }
}

impl Response {
    /// Whether this response tells the asking peer that its request failed.
    pub fn is_error(&self) -> (b: bool)
        ensures
            b == is_refusal(self@),
    {
        match self {
            Response::Git(answer) => answer.is_error(),
            Response::File(answer) => answer.file_body.len() == 0,
        }
    }
}

impl GitResponse {
    /// Whether this response is the explicit failure variant.
    pub fn is_error(&self) -> (b: bool)
        ensures
            b == (self is Error),
    {
        match self {
            GitResponse::Error(_) => true,
            _ => false,
        }
    }
}

} // verus!

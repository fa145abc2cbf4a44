//! What to ask of the hosting service for one file at one reference, and what to make of
//! its answer.

use vstd::prelude::*;

verus! {

/// One file of a repository at one reference: what a single request to the service names.
#[derive(Clone, Debug, PartialEq, Eq)]
pub struct ContentRequest {
    pub owner: String,
    pub repo: String,
    pub reference: String,
    pub path: String,
}

/// A `ContentRequest` with its texts as sequences of characters.
pub struct RequestView {
    pub owner: Seq<char>,
    pub repo: Seq<char>,
    pub reference: Seq<char>,
    pub path: Seq<char>,
}

impl View for ContentRequest {
    type V = RequestView;

    open spec fn view(&self) -> RequestView {
        RequestView {
            owner: self.owner@,
            repo: self.repo@,
            reference: self.reference@,
            path: self.path@,
        }
    }
}

/// Why a file could not be had.
#[derive(Clone, Debug, PartialEq, Eq)]
pub enum FetchError {
    /// The request itself failed, in transport or at the service; the message is kept.
    Request(String),
    /// The service answered with no item at all.
    NotFound,
    /// The first item of the answer carries no text that could be decoded.
    NoContent,
}

/// A `FetchError` with its text as a sequence of characters.
pub enum FetchFault {
    Request(Seq<char>),
    NotFound,
    NoContent,
}

impl View for FetchError {
    type V = FetchFault;

    open spec fn view(&self) -> FetchFault {
        match *self {
            FetchError::Request(message) => FetchFault::Request(message@),
            FetchError::NotFound => FetchFault::NotFound,
            FetchError::NoContent => FetchFault::NoContent,
        }
    }
}

impl FetchFault {
    /// The fault in words: for a failed request, the message that came with it.
    pub open spec fn text(self) -> Seq<char> {
        match self {
            FetchFault::Request(message) => message,
            FetchFault::NotFound => "File not found"@,
            FetchFault::NoContent => "File has no content"@,
        }
    }
}

impl FetchError {
    /// The fault in words.
    pub fn message(&self) -> (message: String)
        ensures
            message@ == self@.text(),
    {
        match self {
            FetchError::Request(message) => message.clone(),
            FetchError::NotFound => "File not found".to_owned(),
            FetchError::NoContent => "File has no content".to_owned(),
        }
    }
}

/// What an answer yields. A failed request gives its message; of the items of an answer
/// only the first counts, and its text is the file.
pub open spec fn content_spec(response: Result<Vec<Option<String>>, String>) -> Result<
    Seq<char>,
    FetchFault,
> {
    match response {
        Err(message) => Err(FetchFault::Request(message@)),
        Ok(items) => if items@.len() == 0 {
            Err(FetchFault::NotFound)
        } else {
            match items@[0] {
                Some(text) => Ok(text@),
                None => Err(FetchFault::NoContent),
            }
        },
    }
}

/// A result of `select_content` with its texts as sequences of characters.
pub open spec fn fetched_view(r: Result<String, FetchError>) -> Result<Seq<char>, FetchFault> {
    match r {
        Ok(text) => Ok(text@),
        Err(e) => Err(e@),
    }
}

/// Takes the file out of the service's answer: `response` is the failure of the request,
/// or the decoded text of each item that came back, `None` for an item without any.
pub fn select_content(response: Result<Vec<Option<String>>, String>) -> (r: Result<
    String,
    FetchError,
>)
    ensures
        fetched_view(r) == content_spec(response),
{
    match response {
        Err(message) => Err(FetchError::Request(message)),
        Ok(items) => {
            if items.len() == 0 {
                Err(FetchError::NotFound)
            } else {
                match &items[0] {
                    Some(text) => Ok(text.clone()),
                    None => Err(FetchError::NoContent),
                }
            }
        },
    }
}

} // verus!

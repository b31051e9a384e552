//! The capture worker as the pipeline sees it: the request that asks for one
//! screenshot, and what the worker's reply means for the item.

use vstd::prelude::*;
use vstd::string::*;
use crate::json::{
    bytes_of, json_single_member, json_text_member, single_member, text_member, text_of,
};
use crate::status::ItemStatus;

verus! {

/// One call of the capture worker: a `POST` of a JSON body to `endpoint`.
#[derive(Clone, Debug, PartialEq, Eq)]
pub struct CaptureRequest {
    /// The worker's base address followed by the capture path.
    pub endpoint: String,
    /// The page to capture.
    pub url: String,
}

pub struct CaptureRequestView {
    pub endpoint: Seq<char>,
    pub url: Seq<char>,
}

impl View for CaptureRequest {
    type V = CaptureRequestView;

    open spec fn view(&self) -> CaptureRequestView {
        CaptureRequestView { endpoint: self.endpoint@, url: self.url@ }
    }
}

/// How one call of the capture worker ended.
#[derive(Clone, Debug, PartialEq, Eq)]
pub enum CaptureReply {
    /// No response: the worker was not reached, the call timed out, or the
    /// request could not be sent.
    Unreachable,
    /// The worker responded. `body` is `None` if the response's body could not
    /// be read.
    Answered { status: u16, body: Option<Vec<u8>> },
}

pub enum CaptureReplyView {
    Unreachable,
    Answered { status: u16, body: Option<Seq<u8>> },
}

impl View for CaptureReply {
    type V = CaptureReplyView;

    open spec fn view(&self) -> CaptureReplyView {
        match self {
            CaptureReply::Unreachable => CaptureReplyView::Unreachable,
            CaptureReply::Answered { status, body } => CaptureReplyView::Answered {
                status: *status,
                body: bytes_of(*body),
            },
        }
    }
}

/// The terminal result of an item's one capture attempt.
#[derive(Clone, Debug, PartialEq, Eq)]
pub enum Outcome {
    /// The screenshot is stored under `key`.
    Stored { key: String },
    /// The attempt failed; there is no key.
    Failed,
}

pub enum OutcomeView {
    Stored { key: Seq<char> },
    Failed,
}

impl View for Outcome {
    type V = OutcomeView;

    open spec fn view(&self) -> OutcomeView {
        match self {
            Outcome::Stored { key } => OutcomeView::Stored { key: key@ },
            Outcome::Failed => OutcomeView::Failed,
        }
    }
}

impl OutcomeView {
    /// The status that the outcome gives its item: never `Pending`.
    pub open spec fn status(self) -> ItemStatus {
        match self {
            OutcomeView::Stored { .. } => ItemStatus::Completed,
            OutcomeView::Failed => ItemStatus::Failed,
        }
    }

    /// The storage key that the outcome gives its item: one exactly when the
    /// status is `Completed`.
    pub open spec fn storage_key(self) -> Option<Seq<char>> {
        match self {
            OutcomeView::Stored { key } => Some(key),
            OutcomeView::Failed => None,
        }
    }
}

impl Outcome {
    pub fn status(&self) -> (r: ItemStatus)
        ensures
            r == self@.status(),
            r.terminal(),
    {
        match self {
            Outcome::Stored { .. } => ItemStatus::Completed,
            Outcome::Failed => ItemStatus::Failed,
        }
    }

    pub fn storage_key(&self) -> (r: Option<&String>)
        ensures
            match r {
                Some(key) => self@.storage_key() == Some(key@),
                None => self@.storage_key().is_none(),
            },
            r.is_some() <==> self@.status() == ItemStatus::Completed,
    {
        match self {
            Outcome::Stored { key } => Some(key),
            Outcome::Failed => None,
        }
    }

    /// A copy with the same view.
    pub fn duplicate(&self) -> (r: Outcome)
        ensures
            r@ == self@,
    {
        match self {
            Outcome::Stored { key } => Outcome::Stored { key: key.clone() },
            Outcome::Failed => Outcome::Failed,
        }
    }
}

/// The path of the capture operation below the worker's base address.
pub open spec fn capture_path() -> Seq<char> {
    "/screenshot"@
}

/// The name of the request's one member, which holds the page's address.
pub open spec fn url_member() -> Seq<char> {
    "url"@
}

/// The name of the response's member that holds the storage key.
pub open spec fn key_member() -> Seq<char> {
    "s3Key"@
}

/// The request for `url` to the worker at `worker`.
pub open spec fn request_for(worker: Seq<char>, url: Seq<char>) -> CaptureRequestView {
    CaptureRequestView { endpoint: worker + capture_path(), url }
}

/// A status from 200 to 299 is a success; every other is a failure.
pub open spec fn succeeded(status: u16) -> bool {
    200 <= status < 300
}

/// A success without a readable key counts as a success with the empty key.
pub open spec fn key_or_empty(member: Option<Seq<char>>) -> Seq<char> {
    match member {
        Some(key) => key,
        None => Seq::empty(),
    }
}

/// The outcome of a response with `status` whose body holds `member` as its
/// key member.
pub open spec fn outcome_from_spec(status: u16, member: Option<Seq<char>>) -> OutcomeView {
    if succeeded(status) {
        OutcomeView::Stored { key: key_or_empty(member) }
    } else {
        OutcomeView::Failed
    }
}

/// The key member of a response's body; none where the body was not read.
pub open spec fn member_of(body: Option<Seq<u8>>) -> Option<Seq<char>> {
    match body {
        Some(bytes) => json_text_member(bytes, key_member()),
        None => None,
    }
}

/// The outcome of a reply: stored under the body's key, or under the empty
/// key, if the worker answered with a success status, and failed otherwise.
pub open spec fn outcome_of(reply: CaptureReplyView) -> OutcomeView {
    match reply {
        CaptureReplyView::Unreachable => OutcomeView::Failed,
        CaptureReplyView::Answered { status, body } => outcome_from_spec(status, member_of(body)),
    }
}

/// Builds the request that captures `url` through the worker at `worker`.
pub fn capture_request(worker: &str, url: &str) -> (r: CaptureRequest)
    ensures
        r@ == request_for(worker@, url@),
{
    let endpoint = String::from_str(worker).concat("/screenshot");
    CaptureRequest { endpoint, url: String::from_str(url) }
}

impl CaptureRequest {
    /// The JSON body to post: an object whose member `url` is the page's
    /// address. `None` if it could not be written, in which case nothing can be
    /// sent and the call counts as `CaptureReply::Unreachable`.
    pub fn body(&self) -> (r: Option<Vec<u8>>)
        ensures
            bytes_of(r) == json_single_member(url_member(), self.url@),
    {
        single_member("url", self.url.as_str())
    }
}

pub fn is_success(status: u16) -> (r: bool)
    ensures
        r == succeeded(status),
{
    200 <= status && status < 300
}

/// The outcome of a response, given its status and the key member found in its
/// body.
pub fn outcome_from(status: u16, member: Option<String>) -> (r: Outcome)
    ensures
        r@ == outcome_from_spec(status, text_of(member)),
{
    if is_success(status) {
        match member {
            Some(key) => Outcome::Stored { key },
            None => Outcome::Stored { key: String::new() },
        }
    } else {
        Outcome::Failed
    }
}

/// Reads the key member out of a response's body.
pub fn read_key_member(body: &Option<Vec<u8>>) -> (r: Option<String>)
    ensures
        text_of(r) == member_of(bytes_of(*body)),
{
    match body {
        Some(bytes) => text_member(bytes.as_slice(), "s3Key"),
        None => None,
    }
}

/// Decides what a reply means for its item. The body is looked at only where
/// the status is a success.
pub fn classify(reply: &CaptureReply) -> (r: Outcome)
    ensures
        r@ == outcome_of(reply@),
        r@.status().terminal(),
        r@.storage_key().is_some() <==> r@.status() == ItemStatus::Completed,
{
    match reply {
        CaptureReply::Unreachable => Outcome::Failed,
        CaptureReply::Answered { status, body } => {
            if is_success(*status) {
                outcome_from(*status, read_key_member(body))
            } else {
                Outcome::Failed
            }
        },
    }
}

} // verus!

//! What a mail provider hands back: typed errors, message envelopes and the
//! batches of a mailbox sync.

use crate::models::{EmailSummary, EmailSummaryView};
use crate::text::{opt_text, push_text, texts};
use vstd::prelude::*;
use vstd::string::*;

pub mod imap;

verus! {

/// The most messages `fetch_recent` asks the server for.
pub const MAX_RECENT_LIMIT: usize = 200;

/// Bounds of the number of UIDs fetched per chunk of a sync.
pub const MIN_CHUNK_SIZE: usize = 50;

pub const MAX_CHUNK_SIZE: usize = 1000;

#[derive(Debug)]
pub enum ProviderError {
    Authentication(String),
    Network(String),
    Imap(String),
    Other(String),
}

pub enum ProviderErrorView {
    Authentication(Seq<char>),
    Network(Seq<char>),
    Imap(Seq<char>),
    Other(Seq<char>),
}

impl View for ProviderError {
    type V = ProviderErrorView;

    open spec fn view(&self) -> ProviderErrorView {
        match self {
            ProviderError::Authentication(m) => ProviderErrorView::Authentication(m@),
            ProviderError::Network(m) => ProviderErrorView::Network(m@),
            ProviderError::Imap(m) => ProviderErrorView::Imap(m@),
            ProviderError::Other(m) => ProviderErrorView::Other(m@),
        }
    }
}

impl ProviderErrorView {
    /// The message an error carries.
    pub open spec fn message(self) -> Seq<char> {
        match self {
            ProviderErrorView::Authentication(m) => m,
            ProviderErrorView::Network(m) => m,
            ProviderErrorView::Imap(m) => m,
            ProviderErrorView::Other(m) => m,
        }
    }

    /// The text an error is logged and shown with.
    pub open spec fn description(self) -> Seq<char> {
        match self {
            ProviderErrorView::Authentication(m) => "authentication failed: "@ + m,
            ProviderErrorView::Network(m) => "network error: "@ + m,
            ProviderErrorView::Imap(m) => "imap error: "@ + m,
            ProviderErrorView::Other(m) => "unexpected provider error: "@ + m,
        }
    }
}

/// The step of a session at which a failure was met.
#[derive(Debug, Clone, Copy, PartialEq, Eq, Structural)]
pub enum SessionStep {
    /// Building the TLS connector, opening the socket, the TLS handshake.
    Connect,
    /// LOGIN.
    Authenticate,
    /// Any command after LOGIN.
    Command,
    /// Anything around the session: a closed channel, a failed background task.
    Surrounding,
}

impl ProviderError {
    /// The error for a failure at `step`: failures to connect are network
    /// errors, a refused LOGIN is an authentication error, a failed command is
    /// an IMAP error, anything else is `Other`.
    pub fn at_step(step: SessionStep, message: String) -> (r: ProviderError)
        ensures
            r@ == match step {
                SessionStep::Connect => ProviderErrorView::Network(message@),
                SessionStep::Authenticate => ProviderErrorView::Authentication(message@),
                SessionStep::Command => ProviderErrorView::Imap(message@),
                SessionStep::Surrounding => ProviderErrorView::Other(message@),
            },
    {
        match step {
            SessionStep::Connect => ProviderError::Network(message),
            SessionStep::Authenticate => ProviderError::Authentication(message),
            SessionStep::Command => ProviderError::Imap(message),
            SessionStep::Surrounding => ProviderError::Other(message),
        }
    }

    /// The error for a background task that did not finish.
    pub fn background_failure(detail: &str) -> (r: ProviderError)
        ensures
            r@ == ProviderErrorView::Other("Background task failure: "@ + detail@),
    {
        let mut message = "Background task failure: ".to_owned();
        push_text(&mut message, detail);
        ProviderError::Other(message)
    }

    /// The text an error is logged and shown with.
    pub fn describe(&self) -> (r: String)
        ensures
            r@ == self@.description(),
    {
        match self {
            ProviderError::Authentication(m) => {
                let mut out = "authentication failed: ".to_owned();
                push_text(&mut out, m.as_str());
                out
            },
            ProviderError::Network(m) => {
                let mut out = "network error: ".to_owned();
                push_text(&mut out, m.as_str());
                out
            },
            ProviderError::Imap(m) => {
                let mut out = "imap error: ".to_owned();
                push_text(&mut out, m.as_str());
                out
            },
            ProviderError::Other(m) => {
                let mut out = "unexpected provider error: ".to_owned();
                push_text(&mut out, m.as_str());
                out
            },
        }
    }
}

/// The number of messages `fetch_recent` asks for, given the caller's limit.
pub open spec fn recent_limit_of(limit: usize) -> Option<usize> {
    if limit == 0 {
        None
    } else if limit > MAX_RECENT_LIMIT {
        Some(MAX_RECENT_LIMIT)
    } else {
        Some(limit)
    }
}

/// Checks the limit of a `fetch_recent` request: zero is refused with
/// `Other`, anything above 200 is cut down to 200.
pub fn recent_limit(limit: usize) -> (r: Result<usize, ProviderError>)
    ensures
        match recent_limit_of(limit) {
            Some(n) => r == Ok::<usize, ProviderError>(n),
            None => r is Err && r->Err_0@ == ProviderErrorView::Other(
                "limit must be greater than zero"@,
            ),
        },
{
    if limit == 0 {
        Err(ProviderError::Other("limit must be greater than zero".to_owned()))
    } else if limit > MAX_RECENT_LIMIT {
        Ok(MAX_RECENT_LIMIT)
    } else {
        Ok(limit)
    }
}

/// The chunk size a sync works with: the caller's, held within 50 and 1000.
pub open spec fn clamped_chunk(requested: usize) -> usize {
    if requested < MIN_CHUNK_SIZE {
        MIN_CHUNK_SIZE
    } else if requested > MAX_CHUNK_SIZE {
        MAX_CHUNK_SIZE
    } else {
        requested
    }
}

pub fn chunk_size(requested: usize) -> (r: usize)
    ensures
        MIN_CHUNK_SIZE <= r <= MAX_CHUNK_SIZE,
        r == clamped_chunk(requested),
{
    if requested < MIN_CHUNK_SIZE {
        MIN_CHUNK_SIZE
    } else if requested > MAX_CHUNK_SIZE {
        MAX_CHUNK_SIZE
    } else {
        requested
    }
}

#[derive(Debug, Clone)]
pub struct MessageEnvelope {
    pub summary: EmailSummary,
    pub snippet: Option<String>,
    pub body: Option<Vec<u8>>,
    pub flags: Vec<String>,
}

pub struct MessageEnvelopeView {
    pub summary: EmailSummaryView,
    pub snippet: Option<Seq<char>>,
    pub body: Option<Seq<u8>>,
    pub flags: Seq<Seq<char>>,
}

/// The view of an optional byte string.
pub open spec fn opt_bytes(o: Option<Vec<u8>>) -> Option<Seq<u8>> {
    match o {
        Some(b) => Some(b@),
        None => None,
    }
}

impl View for MessageEnvelope {
    type V = MessageEnvelopeView;

    open spec fn view(&self) -> MessageEnvelopeView {
        MessageEnvelopeView {
            summary: self.summary@,
            snippet: opt_text(self.snippet),
            body: opt_bytes(self.body),
            flags: texts(self.flags@),
        }
    }
}

/// The views of a list of envelopes.
pub open spec fn envelope_views(v: Seq<MessageEnvelope>) -> Seq<MessageEnvelopeView> {
    v.map_values(|m: MessageEnvelope| m@)
}

#[derive(Debug)]
pub struct BatchResult {
    pub index: usize,
    pub total: usize,
    pub requested: usize,
    pub fetched: usize,
    pub messages: Vec<MessageEnvelope>,
}

pub struct BatchResultView {
    pub index: usize,
    pub total: usize,
    pub requested: usize,
    pub fetched: usize,
    pub messages: Seq<MessageEnvelopeView>,
}

impl View for BatchResult {
    type V = BatchResultView;

    open spec fn view(&self) -> BatchResultView {
        BatchResultView {
            index: self.index,
            total: self.total,
            requested: self.requested,
            fetched: self.fetched,
            messages: envelope_views(self.messages@),
        }
    }
}

} // verus!

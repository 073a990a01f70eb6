//! The errors that the service answers with.
use vstd::prelude::*;

verus! {

/// The kind of an error.
#[derive(Debug, Clone, Copy, PartialEq, Eq)]
pub enum Code {
    InvalidArgument,
    NotFound,
    FailedPrecondition,
    Unavailable,
    Internal,
    Unimplemented,
}

/// An error: its kind, and a message for the caller.
#[derive(Debug, PartialEq, Eq)]
pub struct Status {
    pub code: Code,
    pub message: String,
}

/// The mathematical content of a [`Status`].
#[verifier::ext_equal]
pub struct StatusView {
    pub code: Code,
    pub message: Seq<char>,
}

impl DeepView for Status {
    type V = StatusView;

    open spec fn deep_view(&self) -> StatusView {
        StatusView { code: self.code, message: self.message@ }
    }
}

/// The error of kind `code` with the message `message`.
pub open spec fn error(code: Code, message: Seq<char>) -> StatusView {
    StatusView { code, message }
}

impl Status {
    /// Makes an error.
    pub fn new(code: Code, message: &str) -> (r: Self)
        ensures
            r.deep_view() == error(code, message@),
    {
        Status { code, message: message.to_string() }
    }

    /// The kind of the error.
    pub fn code(&self) -> (c: Code)
        ensures
            c == self.code,
    {
        self.code
    }
}

/// A call to another node of the cluster.
#[derive(Debug, Clone, Copy, PartialEq, Eq)]
pub enum PeerCall {
    ConnectOwner,
    ConnectDataNode,
    PutChunk,
    ReadChunk,
    DeleteChunk,
    GetBatch,
    PutBatch,
}

/// The words that come before the node's name in the message of a failed call.
pub open spec fn peer_call_text(call: PeerCall) -> Seq<char> {
    match call {
        PeerCall::ConnectOwner => "connect metadata owner "@,
        PeerCall::ConnectDataNode => "connect data node "@,
        PeerCall::PutChunk => "put chunk to "@,
        PeerCall::ReadChunk => "read chunk from "@,
        PeerCall::DeleteChunk => "delete chunk from "@,
        PeerCall::GetBatch => "get batch from "@,
        PeerCall::PutBatch => "put batch to "@,
    }
}

/// The error for a call to the node `node_id` that failed with `cause`.
pub open spec fn peer_error(call: PeerCall, node_id: Seq<char>, cause: Seq<char>) -> StatusView {
    error(Code::Unavailable, peer_call_text(call) + node_id + ": "@ + cause)
}

/// The error for a call to the node `node_id` that failed with `cause`.
pub fn peer_failure(call: PeerCall, node_id: &str, cause: &str) -> (r: Status)
    ensures
        r.deep_view() == peer_error(call, node_id@, cause@),
{
    let prefix = match call {
        PeerCall::ConnectOwner => "connect metadata owner ",
        PeerCall::ConnectDataNode => "connect data node ",
        PeerCall::PutChunk => "put chunk to ",
        PeerCall::ReadChunk => "read chunk from ",
        PeerCall::DeleteChunk => "delete chunk from ",
        PeerCall::GetBatch => "get batch from ",
        PeerCall::PutBatch => "put batch to ",
    };
    let mut message = prefix.to_string();
    message.append(node_id);
    message.append(": ");
    message.append(cause);
    Status { code: Code::Unavailable, message }
}

/// The error for a stream of pieces of a stripe that broke with `cause`.
pub fn chunk_stream_failure(cause: &str) -> (r: Status)
    ensures
        r.deep_view() == error(Code::Unavailable, "read chunk stream: "@ + cause@),
{
    let mut message = "read chunk stream: ".to_string();
    message.append(cause);
    Status { code: Code::Unavailable, message }
}

} // verus!

//! Models of the host-facing values: the attributes, outbound messages and
//! responses a contract invocation produces, the slice of the host
//! environment the protocol reads (logical time), and the error type.
//! The host shell converts these to and from its own representations.

use vstd::prelude::*;
use crate::strutil::{chars_string, dec_digits, push_lit, u64_to_dec};

verus! {

/// A key/value pair attached to a response for operator visibility.
#[derive(Clone, Debug, PartialEq, Eq)]
pub struct Attribute {
    pub key: String,
    pub value: String,
}

/// `a` carries exactly the key `k` and value `v`.
pub open spec fn attr_is(a: Attribute, k: Seq<char>, v: Seq<char>) -> bool {
    a.key@ == k && a.value@ == v
}

/// Build an attribute from literals.
pub fn attr(k: &str, v: &str) -> (a: Attribute)
    ensures
        attr_is(a, k@, v@),
{
    Attribute { key: k.to_owned(), value: v.to_owned() }
}

/// An outbound effect requested from the host.
#[derive(Clone, Debug, PartialEq, Eq)]
pub enum OutboundMsg {
    /// Send `data` as a packet on the channel, to be relayed to the remote
    /// domain; `timeout` is an absolute deadline in logical seconds.
    SendPacket { channel_id: String, data: String, timeout: u64 },
    /// Invoke another local contract with the opaque command `msg`.
    Execute { contract_addr: String, msg: Vec<u8> },
}

/// When the host must report the completion of an outbound message back to
/// this contract.
#[derive(Clone, Debug, PartialEq, Eq)]
pub enum ReplyOn {
    Success,
    Never,
}

/// An outbound message plus its continuation id and reply policy.
#[derive(Clone, Debug, PartialEq, Eq)]
pub struct SubMsg {
    pub id: u64,
    pub msg: OutboundMsg,
    pub reply_on: ReplyOn,
}

impl SubMsg {
    /// A fire-and-forget message; the host never reports back.
    pub fn new(msg: OutboundMsg) -> (r: SubMsg)
        ensures
            r.id == 0 && r.msg == msg && r.reply_on == ReplyOn::Never,
    {
        SubMsg { id: 0, msg, reply_on: ReplyOn::Never }
    }

    /// A sub-call whose success completion resumes this contract under the
    /// continuation id `id`.
    pub fn reply_on_success(msg: OutboundMsg, id: u64) -> (r: SubMsg)
        ensures
            r.id == id && r.msg == msg && r.reply_on == ReplyOn::Success,
    {
        SubMsg { id, msg, reply_on: ReplyOn::Success }
    }
}

/// The result of a direct invocation.
#[derive(Clone, Debug, PartialEq, Eq)]
pub struct Response {
    pub attributes: Vec<Attribute>,
    pub messages: Vec<SubMsg>,
    /// Set by a reply handler; the host delivers it as the acknowledgement
    /// of the packet whose processing issued the sub-call.
    pub data: Option<String>,
}

impl Response {
    /// An empty response.
    pub fn new() -> (r: Response)
        ensures
            r.attributes@ =~= Seq::<Attribute>::empty(),
            r.messages@ =~= Seq::<SubMsg>::empty(),
            r.data is None,
    {
        Response { attributes: Vec::new(), messages: Vec::new(), data: None }
    }
}

/// The result of handling an inbound packet.  `acknowledgement` is `None`
/// when a sub-call was issued and the acknowledgement is deferred to the
/// reply handler.
#[derive(Clone, Debug, PartialEq, Eq)]
pub struct IbcReceiveResponse {
    pub attributes: Vec<Attribute>,
    pub messages: Vec<SubMsg>,
    pub acknowledgement: Option<String>,
}

/// The result of handling an acknowledgement or channel-lifecycle event.
#[derive(Clone, Debug, PartialEq, Eq)]
pub struct IbcBasicResponse {
    pub attributes: Vec<Attribute>,
    pub messages: Vec<SubMsg>,
}

/// The slice of the host environment the protocol reads: the current
/// logical time, in seconds.
#[derive(Clone, Debug, PartialEq, Eq)]
pub struct Env {
    pub time: u64,
}

/// The completion of a sub-call, as reported back by the host.
#[derive(Clone, Debug, PartialEq, Eq)]
pub enum ReplyOutcome {
    /// The sub-call succeeded; `data` is whatever the callee set as its
    /// response data, if anything.
    Success { data: Option<Vec<u8>> },
    /// The sub-call failed with the given reason.
    Failure { err: String },
}

/// A completion event: the continuation id of the sub-call it answers and
/// its outcome.
#[derive(Clone, Debug, PartialEq, Eq)]
pub struct Reply {
    pub id: u64,
    pub result: ReplyOutcome,
}

/// An acknowledgement delivered for a packet this contract sent earlier.
#[derive(Clone, Debug, PartialEq, Eq)]
pub struct IbcPacketAckMsg {
    /// The channel the original packet was sent on.
    pub src_channel: String,
    /// The data of the original packet.
    pub original_data: String,
    /// The acknowledgement envelope text.
    pub ack_data: String,
}

/// Failures surfaced to the caller of a direct invocation or reply.
#[derive(Clone, Debug, PartialEq, Eq)]
pub enum ContractError {
    /// An inbound packet or acknowledgement was not a canonical envelope.
    Decode,
    /// A completion event carried a continuation id outside the known set.
    UnknownReplyId { id: u64 },
    /// A channel handshake proposed an incompatible version.
    InvalidVersion,
    /// A channel handshake proposed an incompatible ordering.
    OnlyUnorderedChannels,
}

impl ContractError {
    /// The human-readable description of this error.
    pub open spec fn text_rep(self) -> Seq<char> {
        match self {
            ContractError::Decode => "invalid envelope encoding"@,
            ContractError::UnknownReplyId { id } => "Unknown reply id: "@ + dec_digits(
                id as nat,
            ),
            ContractError::InvalidVersion => "invalid channel version"@,
            ContractError::OnlyUnorderedChannels => "only unordered channels are supported"@,
        }
    }

    /// Render the description.
    pub fn text(&self) -> (r: String)
        ensures
            r@ == self.text_rep(),
    {
        match self {
            ContractError::Decode => "invalid envelope encoding".to_owned(),
            ContractError::UnknownReplyId { id } => {
                let mut out: Vec<char> = Vec::new();
                push_lit(&mut out, "Unknown reply id: ");
                let mut ds = u64_to_dec(*id);
                out.append(&mut ds);
                chars_string(&out)
            },
            ContractError::InvalidVersion => "invalid channel version".to_owned(),
            ContractError::OnlyUnorderedChannels => {
                "only unordered channels are supported".to_owned()
            },
        }
    }
}

} // verus!

//! The dispatcher contract: it accepts a dispatch request on its execute
//! surface, forwards the embedded command as a packet on a channel, and, on
//! the receiving side, decodes inbound packets and invokes the embedded
//! command against its target through a sub-call whose completion is
//! correlated by a reserved continuation id.

use vstd::prelude::*;
use crate::ack::{spec_ack_dec, spec_ack_enc, Ack, AckRep};
use crate::b64::{b64_dec, b64_decode_from, b64_enc, b64_encode_into, lemma_b64_enc_wire,
    lemma_b64_round_trip, lemma_b64_wire_plain};
use crate::jstr::{connections_json, ends_brace2, esc, esc_into, lemma_p_lit, lemma_p_qstr_esc,
    lemma_p_raw_of, p_lit, p_lit_exec, p_qstr, p_qstr_exec, p_raw, p_raw_exec,
    spec_connections_enc};
use crate::registry::{conn_views, Registry};
use crate::response::{attr, attr_is, ContractError, Env, IbcBasicResponse,
    IbcReceiveResponse, OutboundMsg, Reply, ReplyOn, ReplyOutcome, Response, SubMsg};
use crate::strutil::{chars_string, push_lit, str_chars, str_views};

verus! {

/// The continuation id reserved for the sub-call a received packet issues.
pub const REPLY_ID_DISPATCH: u64 = 1;

/// Instantiation takes no parameters.
#[derive(Clone, Debug, PartialEq, Eq)]
pub struct InstantiateMsg {}

/// The execute surface: dispatch an opaque command to a target contract on
/// the domain reached through `channel`.
#[derive(Clone, Debug, PartialEq, Eq)]
pub enum ExecuteMsg {
    Dispatch { channel: String, target_address: String, msg: Vec<u8> },
}

/// The query surface.
#[derive(Clone, Debug, PartialEq, Eq)]
pub enum QueryMsg {
    GetConnections {},
}

/// The connections query response: the connected channels in ascending
/// order.
#[derive(Clone, Debug, PartialEq, Eq)]
pub struct GetConnectionsResponse {
    pub connections: Vec<String>,
}

/// The packet envelope: the opaque command and the target it is meant for,
/// with optional routing metadata.
#[derive(Clone, Debug, PartialEq, Eq)]
pub enum IbcExecuteMsg {
    Dispatch { msg: Vec<u8>, target_address: String, channel: Option<String> },
}

/// Mathematical model of a packet envelope.
pub enum PacketRep {
    Dispatch { msg: Seq<u8>, target_address: Seq<char>, channel: Option<Seq<char>> },
}

impl View for IbcExecuteMsg {
    type V = PacketRep;

    open spec fn view(&self) -> PacketRep {
        match self {
            IbcExecuteMsg::Dispatch { msg, target_address, channel } => PacketRep::Dispatch {
                msg: msg@,
                target_address: target_address@,
                channel: match channel {
                    Some(c) => Some(c@),
                    None => None,
                },
            },
        }
    }
}

/// Wire text of a packet envelope.
pub open spec fn spec_packet_enc(p: PacketRep) -> Seq<char> {
    match p {
        PacketRep::Dispatch { msg, target_address, channel } => "{\"dispatch\":{\"msg\":\""@
            + b64_enc(msg) + seq!['"'] + ",\"target_address\":\""@ + esc(target_address)
            + seq!['"'] + match channel {
            Some(c) => ",\"channel\":\""@ + esc(c) + seq!['"'] + "}}"@,
            None => "}}"@,
        },
    }
}

/// Packet envelope of a wire text; `None` unless the text is a canonical
/// encoding.
pub open spec fn spec_packet_dec(s: Seq<char>) -> Option<PacketRep> {
    match p_lit(s, "{\"dispatch\":{\"msg\":\""@) {
        Some(r1) => match p_raw(r1) {
            Some((mraw, r2)) => match b64_dec(mraw) {
                Some(m) => match p_lit(r2, ",\"target_address\":\""@) {
                    Some(r3) => match p_qstr(r3) {
                        Some((t, r4)) => if r4 == seq!['}', '}'] {
                            Some(PacketRep::Dispatch { msg: m, target_address: t, channel: None })
                        } else {
                            match p_lit(r4, ",\"channel\":\""@) {
                                Some(r5) => match p_qstr(r5) {
                                    Some((c, r6)) => if r6 == seq!['}', '}'] {
                                        Some(
                                            PacketRep::Dispatch {
                                                msg: m,
                                                target_address: t,
                                                channel: Some(c),
                                            },
                                        )
                                    } else {
                                        None
                                    },
                                    None => None,
                                },
                                None => None,
                            }
                        },
                        None => None,
                    },
                    None => None,
                },
                None => None,
            },
            None => None,
        },
        None => None,
    }
}

/// Round trip: decoding the encoding of any packet envelope gives it back,
/// for every target address and payload.
pub proof fn lemma_packet_round_trip(p: PacketRep)
    ensures
        spec_packet_dec(spec_packet_enc(p)) == Some(p),
{
    reveal_strlit("{\"dispatch\":{\"msg\":\"");
    reveal_strlit(",\"target_address\":\"");
    reveal_strlit(",\"channel\":\"");
    reveal_strlit("}}");
    match p {
        PacketRep::Dispatch { msg, target_address, channel } => {
            let s = spec_packet_enc(p);
            let tail = match channel {
                Some(c) => ",\"channel\":\""@ + esc(c) + seq!['"'] + "}}"@,
                None => "}}"@,
            };
            let r3v = esc(target_address) + seq!['"'] + tail;
            let r2v = ",\"target_address\":\""@ + r3v;
            let r1v = b64_enc(msg) + seq!['"'] + r2v;
            assert(s =~= "{\"dispatch\":{\"msg\":\""@ + r1v);
            lemma_p_lit("{\"dispatch\":{\"msg\":\""@, r1v);
            lemma_b64_enc_wire(msg);
            assert forall|i: int| 0 <= i < b64_enc(msg).len() implies b64_enc(msg)[i] != '"' by {
                lemma_b64_wire_plain(b64_enc(msg)[i]);
            }
            assert(r1v =~= b64_enc(msg) + seq!['"'] + r2v);
            lemma_p_raw_of(b64_enc(msg), r2v);
            lemma_b64_round_trip(msg);
            lemma_p_lit(",\"target_address\":\""@, r3v);
            lemma_p_qstr_esc(target_address, tail);
            match channel {
                None => {
                    assert(tail =~= seq!['}', '}']);
                },
                Some(c) => {
                    assert(tail.len() >= 15);
                    assert(tail != seq!['}', '}']) by {
                        if tail == seq!['}', '}'] {
                            assert(tail.len() == 2);
                        }
                    }
                    let r5v = esc(c) + seq!['"'] + "}}"@;
                    assert(tail =~= ",\"channel\":\""@ + r5v);
                    lemma_p_lit(",\"channel\":\""@, r5v);
                    lemma_p_qstr_esc(c, "}}"@);
                    assert("}}"@ =~= seq!['}', '}']);
                },
            }
        },
    }
}

/// No two packet envelopes share a wire text: a packet on the wire
/// determines the target and payload it carries.
pub proof fn lemma_packet_enc_injective(p1: PacketRep, p2: PacketRep)
    requires
        spec_packet_enc(p1) == spec_packet_enc(p2),
    ensures
        p1 == p2,
{
    lemma_packet_round_trip(p1);
    lemma_packet_round_trip(p2);
}

impl IbcExecuteMsg {
    /// Encode this packet envelope as wire text.
    pub fn encode(&self) -> (r: String)
        ensures
            r@ == spec_packet_enc(self@),
    {
        match self {
            IbcExecuteMsg::Dispatch { msg, target_address, channel } => {
                let mut out: Vec<char> = Vec::new();
                push_lit(&mut out, "{\"dispatch\":{\"msg\":\"");
                b64_encode_into(msg, 0, &mut out);
                out.push('"');
                push_lit(&mut out, ",\"target_address\":\"");
                let tc = str_chars(target_address.as_str());
                esc_into(&tc, 0, &mut out);
                out.push('"');
                match channel {
                    Some(c) => {
                        push_lit(&mut out, ",\"channel\":\"");
                        let cc = str_chars(c.as_str());
                        esc_into(&cc, 0, &mut out);
                        out.push('"');
                        push_lit(&mut out, "}}");
                        proof {
                            assert(cc@.skip(0) =~= cc@);
                        }
                    },
                    None => {
                        push_lit(&mut out, "}}");
                    },
                }
                proof {
                    assert(msg@.skip(0) =~= msg@);
                    assert(tc@.skip(0) =~= tc@);
                    assert(out@ =~= spec_packet_enc(self@));
                }
                chars_string(&out)
            },
        }
    }

    /// Decode a wire text; succeeds exactly on canonical encodings.
    pub fn decode(s: &str) -> (r: Option<IbcExecuteMsg>)
        ensures
            match r {
                Some(m) => spec_packet_dec(s@) == Some(m@),
                None => spec_packet_dec(s@) is None,
            },
    {
        let v = str_chars(s);
        assert(v@.skip(0) =~= v@);
        let j1 = match p_lit_exec(&v, 0, "{\"dispatch\":{\"msg\":\"") {
            Some(j) => j,
            None => {
                return None;
            },
        };
        let (mraw, j2) = match p_raw_exec(&v, j1) {
            Some(x) => x,
            None => {
                return None;
            },
        };
        let m = match b64_decode_from(&mraw, 0) {
            Some(m) => m,
            None => {
                assert(mraw@.skip(0) =~= mraw@);
                return None;
            },
        };
        assert(mraw@.skip(0) =~= mraw@);
        let j3 = match p_lit_exec(&v, j2, ",\"target_address\":\"") {
            Some(j) => j,
            None => {
                return None;
            },
        };
        let (t, j4) = match p_qstr_exec(&v, j3) {
            Some(x) => x,
            None => {
                return None;
            },
        };
        if ends_brace2(&v, j4) {
            return Some(
                IbcExecuteMsg::Dispatch {
                    msg: m,
                    target_address: chars_string(&t),
                    channel: None,
                },
            );
        }
        let j5 = match p_lit_exec(&v, j4, ",\"channel\":\"") {
            Some(j) => j,
            None => {
                return None;
            },
        };
        let (c, j6) = match p_qstr_exec(&v, j5) {
            Some(x) => x,
            None => {
                return None;
            },
        };
        if ends_brace2(&v, j6) {
            Some(
                IbcExecuteMsg::Dispatch {
                    msg: m,
                    target_address: chars_string(&t),
                    channel: Some(chars_string(&c)),
                },
            )
        } else {
            None
        }
    }
}

/// Mathematical model of a dispatch request on the execute surface.
pub enum ExecRep {
    Dispatch { channel: Seq<char>, target_address: Seq<char>, msg: Seq<u8> },
}

impl View for ExecuteMsg {
    type V = ExecRep;

    open spec fn view(&self) -> ExecRep {
        match self {
            ExecuteMsg::Dispatch { channel, target_address, msg } => ExecRep::Dispatch {
                channel: channel@,
                target_address: target_address@,
                msg: msg@,
            },
        }
    }
}

/// Wire text of a dispatch request.
pub open spec fn spec_exec_msg_enc(m: ExecRep) -> Seq<char> {
    match m {
        ExecRep::Dispatch { channel, target_address, msg } => "{\"dispatch\":{\"channel\":\""@
            + esc(channel) + seq!['"'] + ",\"target_address\":\""@ + esc(target_address)
            + seq!['"'] + ",\"msg\":\""@ + b64_enc(msg) + seq!['"'] + "}}"@,
    }
}

/// Dispatch request of a wire text; `None` unless the text is a canonical
/// encoding.
pub open spec fn spec_exec_msg_dec(s: Seq<char>) -> Option<ExecRep> {
    match p_lit(s, "{\"dispatch\":{\"channel\":\""@) {
        Some(r1) => match p_qstr(r1) {
            Some((c, r2)) => match p_lit(r2, ",\"target_address\":\""@) {
                Some(r3) => match p_qstr(r3) {
                    Some((t, r4)) => match p_lit(r4, ",\"msg\":\""@) {
                        Some(r5) => match p_raw(r5) {
                            Some((mraw, r6)) => match b64_dec(mraw) {
                                Some(m) => if r6 == seq!['}', '}'] {
                                    Some(
                                        ExecRep::Dispatch {
                                            channel: c,
                                            target_address: t,
                                            msg: m,
                                        },
                                    )
                                } else {
                                    None
                                },
                                None => None,
                            },
                            None => None,
                        },
                        None => None,
                    },
                    None => None,
                },
                None => None,
            },
            None => None,
        },
        None => None,
    }
}

/// Round trip: decoding the encoding of any dispatch request gives it back.
pub proof fn lemma_exec_msg_round_trip(m: ExecRep)
    ensures
        spec_exec_msg_dec(spec_exec_msg_enc(m)) == Some(m),
{
    reveal_strlit("{\"dispatch\":{\"channel\":\"");
    reveal_strlit(",\"target_address\":\"");
    reveal_strlit(",\"msg\":\"");
    reveal_strlit("}}");
    match m {
        ExecRep::Dispatch { channel, target_address, msg } => {
            let s = spec_exec_msg_enc(m);
            let r5v = b64_enc(msg) + seq!['"'] + "}}"@;
            let r4v = ",\"msg\":\""@ + r5v;
            let r3v = esc(target_address) + seq!['"'] + r4v;
            let r2v = ",\"target_address\":\""@ + r3v;
            let r1v = esc(channel) + seq!['"'] + r2v;
            assert(s =~= "{\"dispatch\":{\"channel\":\""@ + r1v);
            lemma_p_lit("{\"dispatch\":{\"channel\":\""@, r1v);
            lemma_p_qstr_esc(channel, r2v);
            lemma_p_lit(",\"target_address\":\""@, r3v);
            lemma_p_qstr_esc(target_address, r4v);
            lemma_p_lit(",\"msg\":\""@, r5v);
            lemma_b64_enc_wire(msg);
            assert forall|i: int| 0 <= i < b64_enc(msg).len() implies b64_enc(msg)[i] != '"' by {
                lemma_b64_wire_plain(b64_enc(msg)[i]);
            }
            assert(r5v =~= b64_enc(msg) + seq!['"'] + "}}"@);
            lemma_p_raw_of(b64_enc(msg), "}}"@);
            lemma_b64_round_trip(msg);
            assert("}}"@ =~= seq!['}', '}']);
        },
    }
}

impl ExecuteMsg {
    /// Encode this dispatch request as wire text.
    pub fn encode(&self) -> (r: String)
        ensures
            r@ == spec_exec_msg_enc(self@),
    {
        match self {
            ExecuteMsg::Dispatch { channel, target_address, msg } => {
                let mut out: Vec<char> = Vec::new();
                push_lit(&mut out, "{\"dispatch\":{\"channel\":\"");
                let cc = str_chars(channel.as_str());
                esc_into(&cc, 0, &mut out);
                out.push('"');
                push_lit(&mut out, ",\"target_address\":\"");
                let tc = str_chars(target_address.as_str());
                esc_into(&tc, 0, &mut out);
                out.push('"');
                push_lit(&mut out, ",\"msg\":\"");
                b64_encode_into(msg, 0, &mut out);
                out.push('"');
                push_lit(&mut out, "}}");
                proof {
                    assert(cc@.skip(0) =~= cc@);
                    assert(tc@.skip(0) =~= tc@);
                    assert(msg@.skip(0) =~= msg@);
                    assert(out@ =~= spec_exec_msg_enc(self@));
                }
                chars_string(&out)
            },
        }
    }

    /// Decode a wire text; succeeds exactly on canonical encodings.
    pub fn decode(s: &str) -> (r: Option<ExecuteMsg>)
        ensures
            match r {
                Some(m) => spec_exec_msg_dec(s@) == Some(m@),
                None => spec_exec_msg_dec(s@) is None,
            },
    {
        let v = str_chars(s);
        assert(v@.skip(0) =~= v@);
        let j1 = match p_lit_exec(&v, 0, "{\"dispatch\":{\"channel\":\"") {
            Some(j) => j,
            None => {
                return None;
            },
        };
        let (c, j2) = match p_qstr_exec(&v, j1) {
            Some(x) => x,
            None => {
                return None;
            },
        };
        let j3 = match p_lit_exec(&v, j2, ",\"target_address\":\"") {
            Some(j) => j,
            None => {
                return None;
            },
        };
        let (t, j4) = match p_qstr_exec(&v, j3) {
            Some(x) => x,
            None => {
                return None;
            },
        };
        let j5 = match p_lit_exec(&v, j4, ",\"msg\":\"") {
            Some(j) => j,
            None => {
                return None;
            },
        };
        let (mraw, j6) = match p_raw_exec(&v, j5) {
            Some(x) => x,
            None => {
                return None;
            },
        };
        let m = match b64_decode_from(&mraw, 0) {
            Some(m) => m,
            None => {
                assert(mraw@.skip(0) =~= mraw@);
                return None;
            },
        };
        assert(mraw@.skip(0) =~= mraw@);
        if ends_brace2(&v, j6) {
            Some(
                ExecuteMsg::Dispatch {
                    channel: chars_string(&c),
                    target_address: chars_string(&t),
                    msg: m,
                },
            )
        } else {
            None
        }
    }
}

/// Record contract metadata; the version bookkeeping itself is host
/// business.
pub fn instantiate(_msg: InstantiateMsg) -> (r: Response)
    ensures
        r.attributes@.len() == 1,
        attr_is(r.attributes@[0], "method"@, "instantiate"@),
        r.messages@.len() == 0,
        r.data is None,
{
    let mut res = Response::new();
    res.attributes.push(attr("method", "instantiate"));
    res
}

/// Direct invocation: every variant dispatches remotely.
pub fn execute(env: &Env, msg: ExecuteMsg) -> (r: Result<Response, ContractError>)
    requires
        env.time + 300 <= u64::MAX,
    ensures
        r matches Ok(res) && match msg {
            ExecuteMsg::Dispatch { channel, target_address, msg } => dispatch_remote_ensures(
                env,
                channel@,
                target_address@,
                msg@,
                res,
            ),
        },
{
    match msg {
        ExecuteMsg::Dispatch { channel, target_address, msg } => execute_dispatch_remote(
            env,
            msg,
            channel,
            target_address,
        ),
    }
}

/// What a remote dispatch produces: two attributes and a single
/// fire-and-forget packet on the requested channel, carrying the canonical
/// envelope around the command and timing out 300 logical seconds from now.
pub open spec fn dispatch_remote_ensures(
    env: &Env,
    channel: Seq<char>,
    target_address: Seq<char>,
    msg: Seq<u8>,
    res: Response,
) -> bool {
    &&& res.attributes@.len() == 2
    &&& attr_is(res.attributes@[0], "method"@, "execute_dispatch_remote"@)
    &&& attr_is(res.attributes@[1], "channel"@, channel)
    &&& res.messages@.len() == 1
    &&& res.messages@[0].reply_on == ReplyOn::Never
    &&& res.messages@[0].msg matches OutboundMsg::SendPacket { channel_id, data, timeout }
        && channel_id@ == channel && data@ == spec_packet_enc(
        PacketRep::Dispatch { msg, target_address, channel: None },
    ) && timeout == env.time + 300
    &&& res.data is None
}

/// Dispatch via a channel to the target domain by sending a packet.
pub fn execute_dispatch_remote(
    env: &Env,
    msg: Vec<u8>,
    channel: String,
    target_address: String,
) -> (r: Result<Response, ContractError>)
    requires
        env.time + 300 <= u64::MAX,
    ensures
        r matches Ok(res) && dispatch_remote_ensures(env, channel@, target_address@, msg@, res),
{
    let ghost gm = msg@;
    let ghost gt = target_address@;
    let envelope = IbcExecuteMsg::Dispatch { msg, target_address, channel: None };
    let data = envelope.encode();
    let packet = OutboundMsg::SendPacket {
        channel_id: channel.clone(),
        data,
        timeout: env.time + 300,
    };
    let mut res = Response::new();
    res.attributes.push(attr("method", "execute_dispatch_remote"));
    res.attributes.push(attr("channel", channel.as_str()));
    res.messages.push(SubMsg::new(packet));
    Ok(res)
}

/// Answer a query against the registry.
pub fn query(state: &Registry, msg: QueryMsg) -> (r: String)
    ensures
        r@ == spec_connections_enc(state.conns()),
{
    match msg {
        QueryMsg::GetConnections {} => {
            let resp = query_connections(state);
            proof {
                assert(str_views(resp.connections@) =~= state.conns());
            }
            connections_json(&resp.connections)
        },
    }
}

/// The connected channels, in the order the registry keeps them
/// (ascending when the registry is well formed).
pub fn query_connections(state: &Registry) -> (r: GetConnectionsResponse)
    ensures
        conn_views(r.connections@) == state.conns(),
{
    GetConnectionsResponse { connections: state.list_connections() }
}

/// What receiving a packet produces when its envelope decodes: one
/// attribute, no immediate acknowledgement, and a sub-call against the
/// embedded target under the reserved continuation id.
pub open spec fn dispatch_target_ensures(
    target_address: Seq<char>,
    msg: Seq<u8>,
    res: IbcReceiveResponse,
) -> bool {
    &&& res.attributes@.len() == 1
    &&& attr_is(res.attributes@[0], "method"@, "dispatch_target_contract"@)
    &&& res.messages@.len() == 1
    &&& res.messages@[0].reply_on == ReplyOn::Success
    &&& res.messages@[0].id == REPLY_ID_DISPATCH
    &&& res.messages@[0].msg matches OutboundMsg::Execute { contract_addr, msg: m }
        && contract_addr@ == target_address && m@ == msg
    &&& res.acknowledgement is None
}

/// Handle an inbound packet.  Whatever the input, a response comes back:
/// a malformed envelope is answered with an error acknowledgement that is
/// itself a canonical (hence decodable) envelope, never a failure.
pub fn ibc_packet_receive(data: &str) -> (res: IbcReceiveResponse)
    ensures
        match spec_packet_dec(data@) {
            Some(p) => (p matches PacketRep::Dispatch { msg, target_address, channel }
                && dispatch_target_ensures(target_address, msg, res)),
            None => {
                &&& res.attributes@.len() == 2
                &&& attr_is(res.attributes@[0], "method"@, "ibc_packet_receive"@)
                &&& attr_is(
                    res.attributes@[1],
                    "error"@,
                    ContractError::Decode.text_rep(),
                )
                &&& res.messages@.len() == 0
                &&& res.acknowledgement matches Some(a) && a@ == spec_ack_enc(
                    AckRep::Error(ContractError::Decode.text_rep()),
                )
            },
        },
{
    match do_ibc_packet_receive(data) {
        Ok(res) => res,
        Err(e) => {
            let text = e.text();
            let mut res = IbcReceiveResponse {
                attributes: Vec::new(),
                messages: Vec::new(),
                acknowledgement: Some(Ack::fail(text.as_str())),
            };
            res.attributes.push(attr("method", "ibc_packet_receive"));
            res.attributes.push(attr("error", text.as_str()));
            res
        },
    }
}

/// Error isolation: the acknowledgement the receiver produces for a
/// malformed packet is itself a canonical envelope, so the sender can
/// always decode the failure; packet processing never ends without a
/// well-formed acknowledgement.
pub proof fn lemma_malformed_packet_ack_decodes()
    ensures
        spec_ack_dec(spec_ack_enc(AckRep::Error(ContractError::Decode.text_rep()))) == Some(
            AckRep::Error(ContractError::Decode.text_rep()),
        ),
{
    crate::ack::lemma_ack_round_trip(AckRep::Error(ContractError::Decode.text_rep()));
}

/// Decode an inbound packet and dispatch on the embedded command; a
/// malformed envelope is a decode error.
pub fn do_ibc_packet_receive(data: &str) -> (r: Result<IbcReceiveResponse, ContractError>)
    ensures
        match spec_packet_dec(data@) {
            Some(p) => r matches Ok(res) && (p matches PacketRep::Dispatch {
                msg,
                target_address,
                channel,
            } && dispatch_target_ensures(target_address, msg, res)),
            None => r matches Err(e) && e == ContractError::Decode,
        },
{
    match IbcExecuteMsg::decode(data) {
        Some(m) => match m {
            IbcExecuteMsg::Dispatch { msg, target_address, channel } => dispatch_target_contract(
                target_address,
                msg,
            ),
        },
        None => Err(ContractError::Decode),
    }
}

/// Issue the embedded command against its local target as a sub-call; the
/// acknowledgement is deferred to the reply handler, so none is set here.
pub fn dispatch_target_contract(contract_addr: String, msg: Vec<u8>) -> (r: Result<
    IbcReceiveResponse,
    ContractError,
>)
    ensures
        r matches Ok(res) && dispatch_target_ensures(contract_addr@, msg@, res),
{
    let sub = SubMsg::reply_on_success(
        OutboundMsg::Execute { contract_addr, msg },
        REPLY_ID_DISPATCH,
    );
    let mut res = IbcReceiveResponse {
        attributes: Vec::new(),
        messages: Vec::new(),
        acknowledgement: None,
    };
    res.attributes.push(attr("method", "dispatch_target_contract"));
    res.messages.push(sub);
    Ok(res)
}

/// Acknowledgement for a packet this contract sent: nothing is pending on
/// it, so nothing happens.
pub fn ibc_packet_ack() -> (r: IbcBasicResponse)
    ensures
        r.attributes@.len() == 0,
        r.messages@.len() == 0,
{
    IbcBasicResponse { attributes: Vec::new(), messages: Vec::new() }
}

/// JSON text of a sub-call outcome, delivered as the packet's
/// acknowledgement data.  The outcome model carries the payload or the
/// failure reason alone, so the events list is always empty.
pub open spec fn spec_outcome_enc(o: ReplyOutcome) -> Seq<char> {
    match o {
        ReplyOutcome::Success { data: Some(d) } => "{\"ok\":{\"events\":[],\"data\":\""@
            + b64_enc(d@) + seq!['"'] + "}}"@,
        ReplyOutcome::Success { data: None } => "{\"ok\":{\"events\":[],\"data\":null}}"@,
        ReplyOutcome::Failure { err } => "{\"error\":\""@ + esc(err@) + seq!['"'] + "}"@,
    }
}

/// Route a completion event by its continuation id.  The only id this
/// contract ever hands out is the packet-dispatch id; any other is a
/// protocol violation and fatal.
pub fn reply(msg: Reply) -> (r: Result<Response, ContractError>)
    ensures
        msg.id == REPLY_ID_DISPATCH ==> (r matches Ok(res) && reply_ensures(msg.result, res)),
        msg.id != REPLY_ID_DISPATCH ==> (r matches Err(e) && e == (ContractError::UnknownReplyId {
            id: msg.id,
        })),
{
    if msg.id == REPLY_ID_DISPATCH {
        handle_target_contract_reply(msg)
    } else {
        Err(ContractError::UnknownReplyId { id: msg.id })
    }
}

/// What resuming the packet-dispatch continuation produces: the sub-call
/// outcome, encoded, becomes the response data, which the host delivers as
/// the packet's acknowledgement.
pub open spec fn reply_ensures(outcome: ReplyOutcome, res: Response) -> bool {
    &&& res.attributes@.len() == 1
    &&& attr_is(res.attributes@[0], "action"@, "handle_target_contract_reply"@)
    &&& res.messages@.len() == 0
    &&& res.data matches Some(d) && d@ == spec_outcome_enc(outcome)
}

/// Resume after the dispatched sub-call completed: wrap its outcome as this
/// packet's acknowledgement data.
pub fn handle_target_contract_reply(msg: Reply) -> (r: Result<Response, ContractError>)
    ensures
        r matches Ok(res) && reply_ensures(msg.result, res),
{
    let mut out: Vec<char> = Vec::new();
    match &msg.result {
        ReplyOutcome::Success { data: Some(d) } => {
            push_lit(&mut out, "{\"ok\":{\"events\":[],\"data\":\"");
            b64_encode_into(d, 0, &mut out);
            out.push('"');
            push_lit(&mut out, "}}");
            proof {
                assert(d@.skip(0) =~= d@);
                assert(out@ =~= spec_outcome_enc(msg.result));
            }
        },
        ReplyOutcome::Success { data: None } => {
            push_lit(&mut out, "{\"ok\":{\"events\":[],\"data\":null}}");
            assert(out@ =~= spec_outcome_enc(msg.result));
        },
        ReplyOutcome::Failure { err } => {
            push_lit(&mut out, "{\"error\":\"");
            let ec = str_chars(err.as_str());
            esc_into(&ec, 0, &mut out);
            out.push('"');
            push_lit(&mut out, "}");
            proof {
                assert(ec@.skip(0) =~= ec@);
                assert(out@ =~= spec_outcome_enc(msg.result));
            }
        },
    }
    let mut res = Response::new();
    res.attributes.push(attr("action", "handle_target_contract_reply"));
    res.data = Some(chars_string(&out));
    Ok(res)
}

} // verus!

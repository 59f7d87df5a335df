//! The ping contract: the origin side sends a ping packet on a channel and,
//! when the acknowledgement comes back carrying the expected `pong`
//! response, increments that channel's counter in the registry; the
//! receiving side answers every ping with a success acknowledgement whose
//! inner response is `pong`.  Channel lifecycle events maintain the
//! connection registry.

use vstd::prelude::*;
use crate::ack::{spec_ack_dec, spec_ack_enc, Ack, AckRep};
use crate::jstr::{connections_json, esc, lemma_p_lit, lemma_p_qstr_esc, p_lit,
    p_lit_exec, p_qstr, p_qstr_exec, spec_connections_enc};
use crate::registry::{conn_views, Registry};
use crate::response::{attr, attr_is, ContractError, Env, IbcBasicResponse,
    IbcReceiveResponse, OutboundMsg, ReplyOn, Response, SubMsg};
use crate::strutil::{chars_eq, chars_string, dec_digits, push_lit, str_chars, str_views,
    u64_to_dec, utf8_string};
use vstd::utf8::{decode_utf8, encode_utf8, encode_utf8_decode_utf8, encode_utf8_valid_utf8,
    valid_utf8};

verus! {

/// The channel version this contract negotiates in a handshake.
pub const IBC_VERSION: &'static str = "ibc-example-v1";

/// Instantiation takes no parameters.
#[derive(Clone, Debug, PartialEq, Eq)]
pub struct InstantiateMsg {}

/// The execute surface: ping the counterpart on a channel.
#[derive(Clone, Debug, PartialEq, Eq)]
pub enum ExecuteMsg {
    Ping { channel: String },
}

/// The query surface.
#[derive(Clone, Debug, PartialEq, Eq)]
pub enum QueryMsg {
    GetConnections {},
    GetCounter { channel: String },
}

/// The connections query response: the connected channels in ascending
/// order.
#[derive(Clone, Debug, PartialEq, Eq)]
pub struct GetConnectionsResponse {
    pub connections: Vec<String>,
}

/// The counter query response.
#[derive(Clone, Debug, PartialEq, Eq)]
pub struct GetCounterResponse {
    pub count: u32,
}

/// The packet envelope this contract understands.
#[derive(Clone, Debug, PartialEq, Eq)]
pub enum IbcExecuteMsg {
    Ping {},
}

/// The inner response a receiver embeds in its success acknowledgement.
#[derive(Clone, Debug, PartialEq, Eq)]
pub struct IbcPingResponse {
    pub result: String,
}

/// Wire text of the ping packet envelope.
pub open spec fn spec_ping_enc() -> Seq<char> {
    "{\"ping\":{}}"@
}

/// Is a wire text the canonical ping envelope?
pub open spec fn spec_ping_dec(s: Seq<char>) -> bool {
    s == spec_ping_enc()
}

impl IbcExecuteMsg {
    /// Encode this packet envelope as wire text.
    pub fn encode(&self) -> (r: String)
        ensures
            r@ == spec_ping_enc(),
    {
        "{\"ping\":{}}".to_owned()
    }

    /// Decode a wire text; succeeds exactly on the canonical encoding.
    pub fn decode(s: &str) -> (r: Option<IbcExecuteMsg>)
        ensures
            r is Some <==> spec_ping_dec(s@),
    {
        let v = str_chars(s);
        assert(v@.skip(0) =~= v@);
        match p_lit_exec(&v, 0, "{\"ping\":{}}") {
            Some(j) => {
                if j == v.len() {
                    proof {
                        assert(v@.skip(j as int) =~= Seq::<char>::empty());
                        assert(v@.take(("{\"ping\":{}}"@).len() as int) =~= v@);
                    }
                    Some(IbcExecuteMsg::Ping {})
                } else {
                    proof {
                        if v@ == spec_ping_enc() {
                            assert(v@.skip(j as int).len() == 0);
                        }
                    }
                    None
                }
            },
            None => {
                proof {
                    if v@ == spec_ping_enc() {
                        lemma_p_lit("{\"ping\":{}}"@, Seq::<char>::empty());
                        assert(spec_ping_enc() + Seq::<char>::empty() =~= v@);
                    }
                }
                None
            },
        }
    }
}

/// Wire text of an inner ping response.
pub open spec fn spec_ping_response_enc(result: Seq<char>) -> Seq<char> {
    "{\"result\":\""@ + esc(result) + seq!['"'] + "}"@
}

/// Inner ping response of a wire text; `None` unless the text is a
/// canonical encoding.
pub open spec fn spec_ping_response_dec(s: Seq<char>) -> Option<Seq<char>> {
    match p_lit(s, "{\"result\":\""@) {
        Some(r1) => match p_qstr(r1) {
            Some((content, r2)) => if r2 == seq!['}'] {
                Some(content)
            } else {
                None
            },
            None => None,
        },
        None => None,
    }
}

/// Round trip: decoding the encoding of any inner ping response gives the
/// result string back.
pub proof fn lemma_ping_response_round_trip(result: Seq<char>)
    ensures
        spec_ping_response_dec(spec_ping_response_enc(result)) == Some(result),
{
    reveal_strlit("{\"result\":\"");
    reveal_strlit("}");
    let rest = esc(result) + seq!['"'] + "}"@;
    assert(spec_ping_response_enc(result) =~= "{\"result\":\""@ + rest);
    lemma_p_lit("{\"result\":\""@, rest);
    lemma_p_qstr_esc(result, "}"@);
    assert("}"@ =~= seq!['}']);
}

impl IbcPingResponse {
    /// Encode this inner response as wire text.
    pub fn encode(&self) -> (r: String)
        ensures
            r@ == spec_ping_response_enc(self.result@),
    {
        let mut out: Vec<char> = Vec::new();
        push_lit(&mut out, "{\"result\":\"");
        let rc = str_chars(self.result.as_str());
        crate::jstr::esc_into(&rc, 0, &mut out);
        out.push('"');
        out.push('}');
        proof {
            reveal_strlit("}");
            assert(rc@.skip(0) =~= rc@);
            assert(out@ =~= spec_ping_response_enc(self.result@));
        }
        chars_string(&out)
    }

    /// Decode a wire text; succeeds exactly on canonical encodings.
    pub fn decode(s: &str) -> (r: Option<IbcPingResponse>)
        ensures
            match r {
                Some(p) => spec_ping_response_dec(s@) == Some(p.result@),
                None => spec_ping_response_dec(s@) is None,
            },
    {
        let v = str_chars(s);
        assert(v@.skip(0) =~= v@);
        let j1 = match p_lit_exec(&v, 0, "{\"result\":\"") {
            Some(j) => j,
            None => {
                return None;
            },
        };
        let (content, j2) = match p_qstr_exec(&v, j1) {
            Some(x) => x,
            None => {
                return None;
            },
        };
        if v.len() - j2 == 1 && v[j2] == '}' {
            proof {
                assert(v@.skip(j2 as int) =~= seq!['}']);
            }
            Some(IbcPingResponse { result: chars_string(&content) })
        } else {
            proof {
                if v@.skip(j2 as int) == seq!['}'] {
                    assert(v@.skip(j2 as int).len() == seq!['}'].len());
                    assert(v@.skip(j2 as int)[0] == v@[j2 as int]);
                    assert(false);
                }
            }
            None
        }
    }
}

/// Record contract metadata; the version bookkeeping itself is host
/// business.
pub fn instantiate(_msg: InstantiateMsg) -> (r: Response)
    ensures
        r.attributes@.len() == 1,
        attr_is(r.attributes@[0], "method"@, "instantiate"@),
        r.messages@.len() == 0,
        r.data is None,
{
    let mut res = Response::new();
    res.attributes.push(attr("method", "instantiate"));
    res
}

/// What a ping dispatch produces: two attributes and a single
/// fire-and-forget ping packet on the requested channel, timing out 300
/// logical seconds from now.
pub open spec fn ping_ensures(env: &Env, channel: Seq<char>, res: Response) -> bool {
    &&& res.attributes@.len() == 2
    &&& attr_is(res.attributes@[0], "method"@, "execute_ping"@)
    &&& attr_is(res.attributes@[1], "channel"@, channel)
    &&& res.messages@.len() == 1
    &&& res.messages@[0].reply_on == ReplyOn::Never
    &&& res.messages@[0].msg matches OutboundMsg::SendPacket { channel_id, data, timeout }
        && channel_id@ == channel && data@ == spec_ping_enc() && timeout == env.time + 300
    &&& res.data is None
}

/// Direct invocation: every variant sends a ping.
pub fn execute(env: &Env, msg: ExecuteMsg) -> (r: Result<Response, ContractError>)
    requires
        env.time + 300 <= u64::MAX,
    ensures
        r matches Ok(res) && match msg {
            ExecuteMsg::Ping { channel } => ping_ensures(env, channel@, res),
        },
{
    match msg {
        ExecuteMsg::Ping { channel } => ping(env, channel),
    }
}

/// Send a ping packet on the channel.
pub fn ping(env: &Env, channel: String) -> (r: Result<Response, ContractError>)
    requires
        env.time + 300 <= u64::MAX,
    ensures
        r matches Ok(res) && ping_ensures(env, channel@, res),
{
    let envelope = IbcExecuteMsg::Ping {};
    let packet = OutboundMsg::SendPacket {
        channel_id: channel.clone(),
        data: envelope.encode(),
        timeout: env.time + 300,
    };
    let mut res = Response::new();
    res.attributes.push(attr("method", "execute_ping"));
    res.attributes.push(attr("channel", channel.as_str()));
    res.messages.push(SubMsg::new(packet));
    Ok(res)
}

/// Wire text of the counter query response.
pub open spec fn spec_counter_enc(count: u32) -> Seq<char> {
    "{\"count\":"@ + dec_digits(count as nat) + "}"@
}

/// Answer a query against the registry.
pub fn query(state: &Registry, msg: QueryMsg) -> (r: String)
    ensures
        match msg {
            QueryMsg::GetConnections {} => r@ == spec_connections_enc(state.conns()),
            QueryMsg::GetCounter { channel } => r@ == spec_counter_enc(state.cnt(channel@)),
        },
{
    match msg {
        QueryMsg::GetConnections {} => {
            let resp = query_connections(state);
            proof {
                assert(str_views(resp.connections@) =~= state.conns());
            }
            connections_json(&resp.connections)
        },
        QueryMsg::GetCounter { channel } => {
            let resp = query_counter(state, &channel);
            let mut out: Vec<char> = Vec::new();
            push_lit(&mut out, "{\"count\":");
            let mut ds = u64_to_dec(resp.count as u64);
            out.append(&mut ds);
            out.push('}');
            proof {
                reveal_strlit("}");
                assert(out@ =~= spec_counter_enc(state.cnt(channel@)));
            }
            chars_string(&out)
        },
    }
}

/// The connected channels, in the order the registry keeps them
/// (ascending when the registry is well formed).
pub fn query_connections(state: &Registry) -> (r: GetConnectionsResponse)
    ensures
        conn_views(r.connections@) == state.conns(),
{
    GetConnectionsResponse { connections: state.list_connections() }
}

/// The counter of a channel; zero for an unknown channel.
pub fn query_counter(state: &Registry, channel: &String) -> (r: GetCounterResponse)
    ensures
        r.count == state.cnt(channel@),
{
    GetCounterResponse { count: state.counter(channel) }
}

/// What receiving a ping produces: the operation attributes and a success
/// acknowledgement embedding the `pong` response.
pub open spec fn receive_ping_ensures(res: IbcReceiveResponse) -> bool {
    &&& res.attributes@.len() == 2
    &&& attr_is(res.attributes@[0], "method"@, "execute_ping"@)
    &&& attr_is(res.attributes@[1], "result"@, "pong"@)
    &&& res.messages@.len() == 0
    &&& res.acknowledgement matches Some(a) && a@ == spec_ack_enc(
        AckRep::Result(encode_utf8(spec_ping_response_enc("pong"@))),
    )
}

/// Handle an inbound packet.  Whatever the input, a response comes back:
/// a malformed envelope is answered with an error acknowledgement that is
/// itself a canonical (hence decodable) envelope, never a failure.
pub fn ibc_packet_receive(data: &str) -> (res: IbcReceiveResponse)
    ensures
        spec_ping_dec(data@) ==> receive_ping_ensures(res),
        !spec_ping_dec(data@) ==> {
            &&& res.attributes@.len() == 2
            &&& attr_is(res.attributes@[0], "method"@, "ibc_packet_receive"@)
            &&& attr_is(res.attributes@[1], "error"@, ContractError::Decode.text_rep())
            &&& res.messages@.len() == 0
            &&& res.acknowledgement matches Some(a) && a@ == spec_ack_enc(
                AckRep::Error(ContractError::Decode.text_rep()),
            )
        },
{
    match do_ibc_packet_receive(data) {
        Ok(res) => res,
        Err(e) => {
            let text = e.text();
            let mut res = IbcReceiveResponse {
                attributes: Vec::new(),
                messages: Vec::new(),
                acknowledgement: Some(Ack::fail(text.as_str())),
            };
            res.attributes.push(attr("method", "ibc_packet_receive"));
            res.attributes.push(attr("error", text.as_str()));
            res
        },
    }
}

/// Decode an inbound packet and dispatch on the embedded command; a
/// malformed envelope is a decode error.
pub fn do_ibc_packet_receive(data: &str) -> (r: Result<IbcReceiveResponse, ContractError>)
    ensures
        spec_ping_dec(data@) ==> (r matches Ok(res) && receive_ping_ensures(res)),
        !spec_ping_dec(data@) ==> (r matches Err(e) && e == ContractError::Decode),
{
    match IbcExecuteMsg::decode(data) {
        Some(m) => match m {
            IbcExecuteMsg::Ping {} => receive_ping(),
        },
        None => Err(ContractError::Decode),
    }
}

/// Answer a ping: a success acknowledgement embedding the `pong` response.
pub fn receive_ping() -> (r: Result<IbcReceiveResponse, ContractError>)
    ensures
        r matches Ok(res) && receive_ping_ensures(res),
{
    let inner = IbcPingResponse { result: "pong".to_owned() };
    let inner_text = inner.encode();
    let inner_bytes = vstd::string::StrSliceExecFns::as_bytes_vec(inner_text.as_str());
    let mut res = IbcReceiveResponse {
        attributes: Vec::new(),
        messages: Vec::new(),
        acknowledgement: Some(Ack::success_data(&inner_bytes)),
    };
    res.attributes.push(attr("method", "execute_ping"));
    res.attributes.push(attr("result", "pong"));
    Ok(res)
}

/// Is this acknowledgement a success whose payload is the `pong` inner
/// response — the one case that counts a completed round trip?
pub open spec fn ack_is_pong(a: AckRep) -> bool {
    a matches AckRep::Result(d) && valid_utf8(d) && spec_ping_response_dec(decode_utf8(d))
        == Some("pong"@)
}

/// What handling a ping acknowledgement produces, as a function of the
/// decoded acknowledgement and the prior registry state: an error
/// acknowledgement or an inner response of an unexpected shape is reported
/// in the attributes and leaves the registry unchanged — never a failure;
/// a `pong` increments the channel's counter.
pub open spec fn ack_ping_ensures(
    pre: Registry,
    post: Registry,
    caller: Seq<char>,
    a: AckRep,
    r: Result<IbcBasicResponse, ContractError>,
) -> bool {
    match a {
        AckRep::Error(e) => r matches Ok(res) && {
            &&& post == pre
            &&& res.attributes@.len() == 2
            &&& attr_is(res.attributes@[0], "action"@, "ack_ping"@)
            &&& attr_is(res.attributes@[1], "error"@, e)
            &&& res.messages@.len() == 0
        },
        AckRep::Result(d) => {
            if !valid_utf8(d) || spec_ping_response_dec(decode_utf8(d)) is None {
                r matches Ok(res) && {
                    &&& post == pre
                    &&& res.attributes@.len() == 2
                    &&& attr_is(res.attributes@[0], "action"@, "ack_ping"@)
                    &&& attr_is(res.attributes@[1], "error"@, "unexpected inner response"@)
                    &&& res.messages@.len() == 0
                }
            } else {
                let result = spec_ping_response_dec(decode_utf8(d)).unwrap();
                if result == "pong"@ {
                    r matches Ok(res) && {
                        &&& post.cnt(caller) == pre.cnt(caller) + 1
                        &&& (forall|c: Seq<char>| c != caller ==> post.cnt(c) == pre.cnt(c))
                        &&& post.connections == pre.connections
                        &&& res.attributes@.len() == 1
                        &&& attr_is(res.attributes@[0], "action"@, "ack_ping"@)
                        &&& res.messages@.len() == 0
                    }
                } else {
                    r matches Ok(res) && {
                        &&& post == pre
                        &&& res.attributes@.len() == 2
                        &&& attr_is(res.attributes@[0], "action"@, "ack_ping"@)
                        &&& attr_is(
                            res.attributes@[1],
                            "error"@,
                            "Not pong, Result is: "@ + result,
                        )
                        &&& res.messages@.len() == 0
                    }
                }
            }
        },
    }
}

/// Report a success acknowledgement whose payload did not have the shape
/// of the inner ping response: an error outcome, not a failure.
fn bad_inner_report() -> (r: Result<IbcBasicResponse, ContractError>)
    ensures
        r matches Ok(res) && {
            &&& res.attributes@.len() == 2
            &&& attr_is(res.attributes@[0], "action"@, "ack_ping"@)
            &&& attr_is(res.attributes@[1], "error"@, "unexpected inner response"@)
            &&& res.messages@.len() == 0
        },
{
    let mut out = IbcBasicResponse { attributes: Vec::new(), messages: Vec::new() };
    out.attributes.push(attr("action", "ack_ping"));
    out.attributes.push(attr("error", "unexpected inner response"));
    Ok(out)
}

/// Handle the acknowledgement of a ping this contract sent on `caller`.
/// Counter headroom is needed only where the counter moves: on a `pong`.
pub fn ack_ping(state: &mut Registry, caller: String, res: Ack) -> (r: Result<
    IbcBasicResponse,
    ContractError,
>)
    requires
        ack_is_pong(res@) ==> old(state).cnt(caller@) < u32::MAX,
    ensures
        ack_ping_ensures(*old(state), *final(state), caller@, res@, r),
{
    let ghost ga = res@;
    let data = match res {
        Ack::Result(d) => d,
        Ack::Error(e) => {
            let mut out = IbcBasicResponse { attributes: Vec::new(), messages: Vec::new() };
            out.attributes.push(attr("action", "ack_ping"));
            out.attributes.push(attr("error", e.as_str()));
            return Ok(out);
        },
    };
    let text = match utf8_string(&data) {
        Some(t) => t,
        None => {
            return bad_inner_report();
        },
    };
    let inner = match IbcPingResponse::decode(text.as_str()) {
        Some(p) => p,
        None => {
            return bad_inner_report();
        },
    };
    let rc = str_chars(inner.result.as_str());
    let pc = str_chars("pong");
    if chars_eq(&rc, &pc) {
        proof {
            assert(ack_is_pong(ga));
        }
        state.bump(&caller);
        let mut out = IbcBasicResponse { attributes: Vec::new(), messages: Vec::new() };
        out.attributes.push(attr("action", "ack_ping"));
        Ok(out)
    } else {
        let mut msg: Vec<char> = Vec::new();
        push_lit(&mut msg, "Not pong, Result is: ");
        let mut rc2 = rc;
        msg.append(&mut rc2);
        let msgs = chars_string(&msg);
        let mut out = IbcBasicResponse { attributes: Vec::new(), messages: Vec::new() };
        out.attributes.push(attr("action", "ack_ping"));
        out.attributes.push(attr("error", msgs.as_str()));
        Ok(out)
    }
}

/// Handle an acknowledgement event: check it answers a ping this contract
/// sent, decode the acknowledgement envelope, and resume.  A malformed
/// original packet or envelope is a decode error.
pub fn ibc_packet_ack(state: &mut Registry, msg: crate::response::IbcPacketAckMsg) -> (r: Result<
    IbcBasicResponse,
    ContractError,
>)
    requires
        match spec_ack_dec(msg.ack_data@) {
            Some(a) => (spec_ping_dec(msg.original_data@) && ack_is_pong(a)) ==> old(state).cnt(
                msg.src_channel@,
            ) < u32::MAX,
            None => true,
        },
    ensures
        (!spec_ping_dec(msg.original_data@) || spec_ack_dec(msg.ack_data@) is None) ==> (r
            matches Err(e) && e == ContractError::Decode && *final(state) == *old(state)),
        spec_ping_dec(msg.original_data@) ==> match spec_ack_dec(msg.ack_data@) {
            Some(a) => ack_ping_ensures(*old(state), *final(state), msg.src_channel@, a, r),
            None => true,
        },
{
    let original = match IbcExecuteMsg::decode(msg.original_data.as_str()) {
        Some(m) => m,
        None => {
            return Err(ContractError::Decode);
        },
    };
    let a = match Ack::decode(msg.ack_data.as_str()) {
        Some(a) => a,
        None => {
            return Err(ContractError::Decode);
        },
    };
    match original {
        IbcExecuteMsg::Ping {} => ack_ping(state, msg.src_channel, a),
    }
}

/// Validate a channel handshake: only unordered channels speaking this
/// contract's version are accepted.
pub fn ibc_channel_open(ordered: bool, version: &str) -> (r: Result<(), ContractError>)
    ensures
        ordered ==> (r matches Err(e) && e == ContractError::OnlyUnorderedChannels),
        !ordered && version@ != IBC_VERSION@ ==> (r matches Err(e) && e
            == ContractError::InvalidVersion),
        !ordered && version@ == IBC_VERSION@ ==> r is Ok,
{
    if ordered {
        return Err(ContractError::OnlyUnorderedChannels);
    }
    let vc = str_chars(version);
    let ic = str_chars(IBC_VERSION);
    if !chars_eq(&vc, &ic) {
        return Err(ContractError::InvalidVersion);
    }
    Ok(())
}

/// A channel completed its handshake: record it in the registry.
pub fn ibc_channel_connect(state: &mut Registry, channel_id: String) -> (r: IbcBasicResponse)
    requires
        old(state).wf(),
    ensures
        final(state).wf(),
        forall|c: Seq<char>|
            final(state).has_conn(c) <==> (old(state).has_conn(c) || c == channel_id@),
        forall|c: Seq<char>| final(state).cnt(c) == old(state).cnt(c),
        r.attributes@.len() == 2,
        attr_is(r.attributes@[0], "method"@, "ibc_channel_connect"@),
        attr_is(r.attributes@[1], "channel_id"@, channel_id@),
        r.messages@.len() == 0,
{
    let mut out = IbcBasicResponse { attributes: Vec::new(), messages: Vec::new() };
    out.attributes.push(attr("method", "ibc_channel_connect"));
    out.attributes.push(attr("channel_id", channel_id.as_str()));
    state.connect(channel_id);
    out
}

/// A channel closed: remove it from the registry.
pub fn ibc_channel_close(state: &mut Registry, channel_id: &String) -> (r: IbcBasicResponse)
    requires
        old(state).wf(),
    ensures
        final(state).wf(),
        forall|c: Seq<char>|
            final(state).has_conn(c) <==> (old(state).has_conn(c) && c != channel_id@),
        forall|c: Seq<char>| final(state).cnt(c) == old(state).cnt(c),
        r.attributes@.len() == 2,
        attr_is(r.attributes@[0], "method"@, "ibc_channel_close"@),
        attr_is(r.attributes@[1], "channel"@, channel_id@),
        r.messages@.len() == 0,
{
    let mut out = IbcBasicResponse { attributes: Vec::new(), messages: Vec::new() };
    out.attributes.push(attr("method", "ibc_channel_close"));
    out.attributes.push(attr("channel", channel_id.as_str()));
    state.disconnect(channel_id);
    out
}

/// Round trip through the receiver and the acknowledgement handler: the
/// acknowledgement that answering a ping produces decodes to a success
/// whose payload decodes to the `pong` response — so the origin side, fed
/// that acknowledgement, takes its counter-increment path.
pub proof fn lemma_pong_ack_well_formed()
    ensures
        ({
            let ack = spec_ack_enc(AckRep::Result(encode_utf8(spec_ping_response_enc("pong"@))));
            let d = encode_utf8(spec_ping_response_enc("pong"@));
            &&& spec_ack_dec(ack) == Some(AckRep::Result(d))
            &&& valid_utf8(d)
            &&& spec_ping_response_dec(decode_utf8(d)) == Some("pong"@)
        }),
{
    let inner = spec_ping_response_enc("pong"@);
    let d = encode_utf8(inner);
    crate::ack::lemma_ack_round_trip(AckRep::Result(d));
    encode_utf8_valid_utf8(inner);
    encode_utf8_decode_utf8(inner);
    lemma_ping_response_round_trip("pong"@);
}

} // verus!

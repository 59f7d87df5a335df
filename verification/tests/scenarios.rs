//! End-to-end rounds through the protocol: ping round trips, error
//! isolation on malformed packets, the connections query over the channel
//! lifecycle, and a local two-hop dispatch.

use ibc_dispatch::ack::Ack;
use ibc_dispatch::controller;
use ibc_dispatch::dispatcher;
use ibc_dispatch::echo;
use ibc_dispatch::example;
use ibc_dispatch::registry::Registry;
use ibc_dispatch::response::{
    Attribute, Env, IbcPacketAckMsg, OutboundMsg, Reply, ReplyOutcome,
};

const TEST_CHANNEL: &str = "channel-1";

fn attrs(pairs: &[(&str, &str)]) -> Vec<Attribute> {
    pairs
        .iter()
        .map(|(k, v)| Attribute { key: k.to_string(), value: v.to_string() })
        .collect()
}

/// Dispatch a ping, let the remote receiver answer, feed the
/// acknowledgement back: the channel's counter goes from 0 to 1.
#[test]
fn ping_round_trip_increments_counter() {
    let mut origin = Registry::new();
    let env = Env { time: 1000 };
    example::ibc_channel_connect(&mut origin, TEST_CHANNEL.to_string());
    assert_eq!(example::query_counter(&origin, &TEST_CHANNEL.to_string()).count, 0);

    // origin side: send the ping
    let res = example::execute(
        &env,
        example::ExecuteMsg::Ping { channel: TEST_CHANNEL.to_string() },
    )
    .unwrap();
    let packet_data = match &res.messages[0].msg {
        OutboundMsg::SendPacket { data, .. } => data.clone(),
        other => panic!("expected packet, got {:?}", other),
    };

    // remote side: the receiver answers with a success ack embedding pong
    let recv = example::ibc_packet_receive(&packet_data);
    let ack_data = recv.acknowledgement.expect("receiver must always set an ack");
    let inner = Ack::parse(&ack_data);
    let inner_text = String::from_utf8(inner).unwrap();
    assert_eq!(
        example::IbcPingResponse::decode(&inner_text).unwrap().result,
        "pong"
    );

    // origin side: the ack handler counts the completed round trip
    let res = example::ibc_packet_ack(
        &mut origin,
        IbcPacketAckMsg {
            src_channel: TEST_CHANNEL.to_string(),
            original_data: packet_data,
            ack_data,
        },
    )
    .unwrap();
    assert_eq!(res.attributes, attrs(&[("action", "ack_ping")]));
    assert_eq!(example::query_counter(&origin, &TEST_CHANNEL.to_string()).count, 1);
}

/// An acknowledgement whose inner response is not `pong` is reported as an
/// error attribute and leaves the counter unchanged.
#[test]
fn not_pong_is_reported_not_counted() {
    let mut origin = Registry::new();
    let env = Env { time: 1000 };
    let res = example::execute(
        &env,
        example::ExecuteMsg::Ping { channel: TEST_CHANNEL.to_string() },
    )
    .unwrap();
    let packet_data = match &res.messages[0].msg {
        OutboundMsg::SendPacket { data, .. } => data.clone(),
        other => panic!("expected packet, got {:?}", other),
    };

    let inner = example::IbcPingResponse { result: "notpong".to_string() };
    let ack_data = Ack::success_data(&inner.encode().into_bytes());

    let res = example::ibc_packet_ack(
        &mut origin,
        IbcPacketAckMsg {
            src_channel: TEST_CHANNEL.to_string(),
            original_data: packet_data,
            ack_data,
        },
    )
    .unwrap();
    assert_eq!(
        res.attributes,
        attrs(&[("action", "ack_ping"), ("error", "Not pong, Result is: notpong")])
    );
    assert_eq!(example::query_counter(&origin, &TEST_CHANNEL.to_string()).count, 0);
}

/// A success acknowledgement whose payload is not an inner ping response
/// is reported as an error outcome — not a failure — and leaves the
/// counter unchanged.
#[test]
fn bad_inner_response_is_reported_not_counted() {
    let mut origin = Registry::new();
    let res = example::ibc_packet_ack(
        &mut origin,
        IbcPacketAckMsg {
            src_channel: TEST_CHANNEL.to_string(),
            original_data: "{\"ping\":{}}".to_string(),
            ack_data: Ack::success_data(&b"not an inner response".to_vec()),
        },
    )
    .unwrap();
    assert_eq!(
        res.attributes,
        attrs(&[("action", "ack_ping"), ("error", "unexpected inner response")])
    );
    assert_eq!(example::query_counter(&origin, &TEST_CHANNEL.to_string()).count, 0);
}

/// An error acknowledgement is reported and leaves the counter unchanged.
#[test]
fn error_ack_is_reported_not_counted() {
    let mut origin = Registry::new();
    let res = example::ibc_packet_ack(
        &mut origin,
        IbcPacketAckMsg {
            src_channel: TEST_CHANNEL.to_string(),
            original_data: "{\"ping\":{}}".to_string(),
            ack_data: Ack::fail("remote failed"),
        },
    )
    .unwrap();
    assert_eq!(
        res.attributes,
        attrs(&[("action", "ack_ping"), ("error", "remote failed")])
    );
    assert_eq!(example::query_counter(&origin, &TEST_CHANNEL.to_string()).count, 0);
}

/// Malformed packet data never aborts the receiver: it always answers with
/// an error acknowledgement that itself decodes.
#[test]
fn malformed_packets_always_get_error_acks() {
    for bad in [
        "",
        "garbage",
        "{\"ping\":{}} ",
        "{\"dispatch\":{\"msg\":\"!!\",\"target_address\":\"t\"}}",
        "{\"ping\":{}}}",
        "\u{0}\u{1}\u{2}",
    ] {
        let res = example::ibc_packet_receive(bad);
        let ack = res.acknowledgement.expect("an ack is owed for every packet");
        match Ack::decode(&ack) {
            Some(Ack::Error(e)) => assert_eq!(e, "invalid envelope encoding"),
            other => panic!("expected decodable error ack, got {:?}", other),
        }
        assert_eq!(
            res.attributes,
            attrs(&[("method", "ibc_packet_receive"), ("error", "invalid envelope encoding")])
        );

        let res = dispatcher::ibc_packet_receive(bad);
        let ack = res.acknowledgement.expect("an ack is owed for every packet");
        match Ack::decode(&ack) {
            Some(Ack::Error(e)) => assert_eq!(e, "invalid envelope encoding"),
            other => panic!("expected decodable error ack, got {:?}", other),
        }
    }
}

/// The connections query is empty before any channel connects and lists the
/// channel afterwards.
#[test]
fn connections_query_over_lifecycle() {
    let mut state = Registry::new();
    assert_eq!(
        example::query(&state, example::QueryMsg::GetConnections {}),
        "{\"connections\":[]}"
    );
    assert!(example::query_connections(&state).connections.is_empty());

    example::ibc_channel_connect(&mut state, TEST_CHANNEL.to_string());
    assert_eq!(
        example::query_connections(&state).connections,
        vec![TEST_CHANNEL.to_string()]
    );
    assert_eq!(
        dispatcher::query(&state, dispatcher::QueryMsg::GetConnections {}),
        "{\"connections\":[\"channel-1\"]}"
    );
}

/// A local two-hop dispatch: the controller hands an echo command to the
/// dispatcher, the dispatcher forwards and sub-calls the echo contract, and
/// the final acknowledgement carries the echoed string.
#[test]
fn local_two_hop_dispatch() {
    let env = Env { time: 500 };

    // hop 1: the controller wraps the command for the dispatcher
    let res = controller::execute(controller::ExecuteMsg::Dispatch {
        dispatcher_address: "dispatcher-addr".to_string(),
        channel: TEST_CHANNEL.to_string(),
        target_address: "echo-addr".to_string(),
        echo: "hi".to_string(),
    })
    .unwrap();
    // the controller's attributes name the contract it dispatched through
    assert_eq!(
        res.attributes,
        attrs(&[("action", "execute_controller"), ("ibc-contract", "dispatcher-addr")])
    );
    let (sub_addr, sub_msg) = match &res.messages[0].msg {
        OutboundMsg::Execute { contract_addr, msg } => (contract_addr.clone(), msg.clone()),
        other => panic!("expected sub-call, got {:?}", other),
    };
    assert_eq!(sub_addr, "dispatcher-addr");

    // the host routes the sub-call to the dispatcher's execute surface
    let dispatch_msg =
        dispatcher::ExecuteMsg::decode(&String::from_utf8(sub_msg).unwrap()).unwrap();
    let res = dispatcher::execute(&env, dispatch_msg).unwrap();
    let packet_data = match &res.messages[0].msg {
        OutboundMsg::SendPacket { data, .. } => data.clone(),
        other => panic!("expected packet, got {:?}", other),
    };

    // hop 2: the receiving dispatcher sub-calls the echo contract
    let recv = dispatcher::ibc_packet_receive(&packet_data);
    assert_eq!(recv.acknowledgement, None, "the ack is deferred to the reply");
    let (echo_addr, echo_msg) = match &recv.messages[0].msg {
        OutboundMsg::Execute { contract_addr, msg } => (contract_addr.clone(), msg.clone()),
        other => panic!("expected sub-call, got {:?}", other),
    };
    assert_eq!(echo_addr, "echo-addr");

    let echo_cmd = echo::ExecuteMsg::decode(&String::from_utf8(echo_msg).unwrap()).unwrap();
    let (mut echo_state, _res) = echo::instantiate(echo::InstantiateMsg {});
    echo::execute(&mut echo_state, echo_cmd).unwrap();
    assert_eq!(echo_state.echo, "hi");

    // the echo contract's completion resumes the dispatcher, which wraps
    // the echoed bytes as the packet's acknowledgement
    let res = dispatcher::reply(Reply {
        id: dispatcher::REPLY_ID_DISPATCH,
        result: ReplyOutcome::Success { data: Some(echo_state.echo.clone().into_bytes()) },
    })
    .unwrap();
    let ack = res.data.unwrap();
    assert_eq!(ack, "{\"ok\":{\"events\":[],\"data\":\"aGk=\"}}");

    // the controller's own continuation resumes on the way back
    let res = controller::reply(Reply {
        id: controller::REPLY_ID_MINT,
        result: ReplyOutcome::Success { data: Some(ack.into_bytes()) },
    })
    .unwrap();
    assert_eq!(res.attributes, attrs(&[("action", "handle_target_contract_reply")]));
}

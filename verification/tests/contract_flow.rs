//! The contract surfaces: instantiation, handshakes, ping dispatch, channel
//! close, the echo contract, the registry, and the reply correlator.

use ibc_dispatch::controller;
use ibc_dispatch::dispatcher;
use ibc_dispatch::echo;
use ibc_dispatch::example;
use ibc_dispatch::registry::Registry;
use ibc_dispatch::response::{
    Attribute, ContractError, Env, OutboundMsg, Reply, ReplyOn, ReplyOutcome, SubMsg,
};

const TEST_CHANNEL: &str = "channel-1";

fn attrs(pairs: &[(&str, &str)]) -> Vec<Attribute> {
    pairs
        .iter()
        .map(|(k, v)| Attribute { key: k.to_string(), value: v.to_string() })
        .collect()
}

#[test]
fn execute_proper_initialization() {
    let (_state, response) = echo::instantiate(echo::InstantiateMsg {});
    // assert response contains empty echo
    let attribute = response.attributes.iter().find(|a| a.key == "echo").unwrap();
    assert_eq!("", attribute.value);
}

#[test]
fn execute_echo() {
    let (mut state, _res) = echo::instantiate(echo::InstantiateMsg {});

    let msg = echo::ExecuteMsg::Echo { echo: "Hello, world!".to_string() };
    let response = echo::execute(&mut state, msg).unwrap();
    // assert response contains hello world echo
    let attribute = response.attributes.iter().find(|a| a.key == "echo").unwrap();
    assert_eq!("Hello, world!", attribute.value);

    // assert query
    let echo_response = echo::query_echo(&state);
    assert_eq!("Hello, world!", echo_response.echo);
    assert_eq!(
        echo::query(&state, echo::QueryMsg::Echo {}),
        "{\"echo\":\"Hello, world!\"}"
    );
}

#[test]
fn tests_proper_initialization() {
    let res = example::instantiate(example::InstantiateMsg {});
    assert_eq!(0, res.messages.len());
    assert_eq!(res.attributes, attrs(&[("method", "instantiate")]));
}

#[test]
fn enforce_version_in_handshake() {
    example::ibc_channel_open(true, example::IBC_VERSION).unwrap_err();
    example::ibc_channel_open(false, "wrong_version").unwrap_err();
    example::ibc_channel_open(false, example::IBC_VERSION).unwrap();
}

#[test]
fn proper_handshake_flow() {
    let mut state = Registry::new();

    example::ibc_channel_open(false, example::IBC_VERSION).unwrap();
    let res = example::ibc_channel_connect(&mut state, TEST_CHANNEL.to_string());

    assert_eq!(res.messages, vec![]);
    assert_eq!(
        res.attributes,
        attrs(&[("method", "ibc_channel_connect"), ("channel_id", TEST_CHANNEL)])
    );

    // we should have one item (the test channel) in the connections
    let res = example::query_connections(&state);
    assert_eq!(1, res.connections.len());
    assert_eq!(TEST_CHANNEL, res.connections[0]);
}

#[test]
fn execute_ping() {
    let mut state = Registry::new();
    let env = Env { time: 1000 };

    let msg = example::ExecuteMsg::Ping { channel: TEST_CHANNEL.to_string() };
    let res = example::execute(&env, msg).unwrap();

    // verify attributes are correct
    assert_eq!(
        res.attributes,
        attrs(&[("method", "execute_ping"), ("channel", TEST_CHANNEL)])
    );

    // verify the sent packet is correct: fixed 300-second relative timeout
    assert_eq!(
        res.messages[0],
        SubMsg {
            id: 0,
            msg: OutboundMsg::SendPacket {
                channel_id: TEST_CHANNEL.to_string(),
                data: "{\"ping\":{}}".to_string(),
                timeout: 1000 + 300,
            },
            reply_on: ReplyOn::Never,
        }
    );

    let packet_data = match &res.messages[0].msg {
        OutboundMsg::SendPacket { data, .. } => data.clone(),
        other => panic!("expected packet, got {:?}", other),
    };
    let res = example::ibc_packet_receive(&packet_data);

    example::ibc_channel_connect(&mut state, TEST_CHANNEL.to_string());

    // verify we got the result attr, pong
    assert_eq!(
        res.attributes,
        attrs(&[("method", "execute_ping"), ("result", "pong")])
    );

    let query_res = example::query_connections(&state);
    assert_eq!(query_res.connections, vec![TEST_CHANNEL.to_string()]);
}

#[test]
fn close_channel() {
    let mut state = Registry::new();
    example::ibc_channel_connect(&mut state, TEST_CHANNEL.to_string());

    let value = example::query_connections(&state);
    assert_eq!(value.connections, vec![TEST_CHANNEL.to_string()]);

    let res = example::ibc_channel_close(&mut state, &TEST_CHANNEL.to_string());

    // no messages
    assert_eq!(0, res.messages.len());

    // verify attributes
    assert_eq!(
        res.attributes,
        attrs(&[("method", "ibc_channel_close"), ("channel", TEST_CHANNEL)])
    );

    // the channel is gone
    let value = example::query_connections(&state);
    assert!(value.connections.is_empty());
}

#[test]
fn connections_stay_sorted() {
    let mut state = Registry::new();
    for c in ["channel-9", "channel-1", "channel-5", "channel-1"] {
        example::ibc_channel_connect(&mut state, c.to_string());
    }
    let res = example::query_connections(&state);
    assert_eq!(res.connections, vec!["channel-1", "channel-5", "channel-9"]);
    assert_eq!(
        example::query(&state, example::QueryMsg::GetConnections {}),
        "{\"connections\":[\"channel-1\",\"channel-5\",\"channel-9\"]}"
    );

    example::ibc_channel_close(&mut state, &"channel-5".to_string());
    let res = example::query_connections(&state);
    assert_eq!(res.connections, vec!["channel-1", "channel-9"]);
}

#[test]
fn counter_defaults_to_zero() {
    let state = Registry::new();
    let res = example::query_counter(&state, &"channel-3".to_string());
    assert_eq!(res.count, 0);
    assert_eq!(
        example::query(&state, example::QueryMsg::GetCounter { channel: "channel-3".to_string() }),
        "{\"count\":0}"
    );
}

#[test]
fn dispatcher_initialization() {
    let res = dispatcher::instantiate(dispatcher::InstantiateMsg {});
    assert_eq!(res.attributes, attrs(&[("method", "instantiate")]));
    assert_eq!(res.messages.len(), 0);
}

#[test]
fn dispatcher_remote_dispatch() {
    let env = Env { time: 77 };
    let res = dispatcher::execute(
        &env,
        dispatcher::ExecuteMsg::Dispatch {
            channel: TEST_CHANNEL.to_string(),
            target_address: "tgt".to_string(),
            msg: b"abc".to_vec(),
        },
    )
    .unwrap();
    assert_eq!(
        res.attributes,
        attrs(&[("method", "execute_dispatch_remote"), ("channel", TEST_CHANNEL)])
    );
    assert_eq!(
        res.messages[0],
        SubMsg {
            id: 0,
            msg: OutboundMsg::SendPacket {
                channel_id: TEST_CHANNEL.to_string(),
                data: "{\"dispatch\":{\"msg\":\"YWJj\",\"target_address\":\"tgt\"}}".to_string(),
                timeout: 77 + 300,
            },
            reply_on: ReplyOn::Never,
        }
    );
}

#[test]
fn dispatcher_receive_issues_sub_call() {
    let packet = dispatcher::IbcExecuteMsg::Dispatch {
        msg: b"command".to_vec(),
        target_address: "target-contract".to_string(),
        channel: None,
    }
    .encode();
    let res = dispatcher::ibc_packet_receive(&packet);
    assert_eq!(res.acknowledgement, None);
    assert_eq!(res.attributes, attrs(&[("method", "dispatch_target_contract")]));
    assert_eq!(
        res.messages[0],
        SubMsg {
            id: dispatcher::REPLY_ID_DISPATCH,
            msg: OutboundMsg::Execute {
                contract_addr: "target-contract".to_string(),
                msg: b"command".to_vec(),
            },
            reply_on: ReplyOn::Success,
        }
    );
}

#[test]
fn dispatcher_reply_routing() {
    // the known continuation id resumes and wraps the outcome as the ack data
    let res = dispatcher::reply(Reply {
        id: dispatcher::REPLY_ID_DISPATCH,
        result: ReplyOutcome::Success { data: Some(b"hi".to_vec()) },
    })
    .unwrap();
    assert_eq!(res.attributes, attrs(&[("action", "handle_target_contract_reply")]));
    assert_eq!(res.data, Some("{\"ok\":{\"events\":[],\"data\":\"aGk=\"}}".to_string()));

    let res = dispatcher::reply(Reply {
        id: dispatcher::REPLY_ID_DISPATCH,
        result: ReplyOutcome::Success { data: None },
    })
    .unwrap();
    assert_eq!(res.data, Some("{\"ok\":{\"events\":[],\"data\":null}}".to_string()));

    let res = dispatcher::reply(Reply {
        id: dispatcher::REPLY_ID_DISPATCH,
        result: ReplyOutcome::Failure { err: "boom".to_string() },
    })
    .unwrap();
    assert_eq!(res.data, Some("{\"error\":\"boom\"}".to_string()));

    // any unknown id is fatal
    let err = dispatcher::reply(Reply {
        id: 7,
        result: ReplyOutcome::Success { data: None },
    })
    .unwrap_err();
    assert_eq!(err, ContractError::UnknownReplyId { id: 7 });
    assert_eq!(err.text(), "Unknown reply id: 7");
}

#[test]
fn controller_reply_routing() {
    // dispatching registers continuation id 0; resuming with 0 invokes the
    // resume handler, any other id aborts with the unknown-reply-id error
    let res = controller::execute_dispatch_local(
        "dispatcher".to_string(),
        TEST_CHANNEL.to_string(),
        "echo-addr".to_string(),
        "hello".to_string(),
    )
    .unwrap();
    assert_eq!(res.messages[0].id, 0);
    assert_eq!(res.messages[0].reply_on, ReplyOn::Success);

    let res = controller::reply(Reply {
        id: 0,
        result: ReplyOutcome::Success { data: None },
    })
    .unwrap();
    assert_eq!(res.attributes, attrs(&[("action", "handle_target_contract_reply")]));

    let err = controller::reply(Reply {
        id: 12345,
        result: ReplyOutcome::Success { data: None },
    })
    .unwrap_err();
    assert_eq!(err, ContractError::UnknownReplyId { id: 12345 });
    assert_eq!(err.text(), "Unknown reply id: 12345");
}

#[test]
fn error_texts() {
    assert_eq!(ContractError::Decode.text(), "invalid envelope encoding");
    assert_eq!(ContractError::InvalidVersion.text(), "invalid channel version");
    assert_eq!(
        ContractError::OnlyUnorderedChannels.text(),
        "only unordered channels are supported"
    );
    assert_eq!(
        ContractError::UnknownReplyId { id: 1234567890123 }.text(),
        "Unknown reply id: 1234567890123"
    );
}

#[test]
fn dispatcher_ack_is_inert() {
    let res = dispatcher::ibc_packet_ack();
    assert_eq!(res.attributes.len(), 0);
    assert_eq!(res.messages.len(), 0);
}

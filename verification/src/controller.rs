//! The controller contract: it wraps an echo command for a target on
//! another domain, hands it to the local dispatcher as a sub-call under a
//! reserved continuation id, and resumes when the dispatcher's work
//! completes.

use vstd::prelude::*;
use crate::dispatcher::{spec_exec_msg_enc, ExecRep};
use crate::echo::spec_echo_msg_enc;
use crate::response::{attr, attr_is, ContractError, OutboundMsg, Reply, ReplyOn,
    Response, SubMsg};
use vstd::string::StrSliceExecFns;
use vstd::utf8::encode_utf8;

verus! {

/// The continuation id reserved for the controller's dispatcher sub-call.
pub const REPLY_ID_MINT: u64 = 0;

/// Instantiation takes no parameters.
#[derive(Clone, Debug, PartialEq, Eq)]
pub struct InstantiateMsg {}

/// The execute surface: have the dispatcher at `dispatcher_address` forward
/// an echo command for `target_address`, reached through `channel`.
#[derive(Clone, Debug, PartialEq, Eq)]
pub enum ExecuteMsg {
    Dispatch { dispatcher_address: String, channel: String, target_address: String, echo: String },
}

/// Create the contract.
pub fn instantiate(_msg: InstantiateMsg) -> (r: Response)
    ensures
        r.attributes@.len() == 1,
        attr_is(r.attributes@[0], "action"@, "instantiate"@),
        r.messages@.len() == 0,
        r.data is None,
{
    let mut res = Response::new();
    res.attributes.push(attr("action", "instantiate"));
    res
}

/// What a local dispatch produces: two attributes naming the operation and
/// the dispatcher, and one sub-call to the dispatcher, under the reserved
/// continuation id, carrying the dispatch request that wraps the encoded
/// echo command.
pub open spec fn dispatch_local_ensures(
    dispatcher_address: Seq<char>,
    channel: Seq<char>,
    target_address: Seq<char>,
    echo: Seq<char>,
    r: Result<Response, ContractError>,
) -> bool {
    r matches Ok(res) && {
        &&& res.attributes@.len() == 2
        &&& attr_is(res.attributes@[0], "action"@, "execute_controller"@)
        &&& attr_is(res.attributes@[1], "ibc-contract"@, dispatcher_address)
        &&& res.messages@.len() == 1
        &&& res.messages@[0].reply_on == ReplyOn::Success
        &&& res.messages@[0].id == REPLY_ID_MINT
        &&& res.messages@[0].msg matches OutboundMsg::Execute { contract_addr, msg }
            && contract_addr@ == dispatcher_address && msg@ == encode_utf8(
            spec_exec_msg_enc(
                ExecRep::Dispatch {
                    channel,
                    target_address,
                    msg: encode_utf8(spec_echo_msg_enc(echo)),
                },
            ),
        )
        &&& res.data is None
    }
}

/// Direct invocation: every variant dispatches locally.
pub fn execute(msg: ExecuteMsg) -> (r: Result<Response, ContractError>)
    ensures
        match msg {
            ExecuteMsg::Dispatch { dispatcher_address, channel, target_address, echo } =>
                dispatch_local_ensures(
                dispatcher_address@,
                channel@,
                target_address@,
                echo@,
                r,
            ),
        },
{
    match msg {
        ExecuteMsg::Dispatch { dispatcher_address, channel, target_address, echo } =>
            execute_dispatch_local(dispatcher_address, channel, target_address, echo),
    }
}

/// Wrap the echo command in a dispatch request and hand it to the
/// dispatcher as a sub-call that resumes this contract on success.
pub fn execute_dispatch_local(
    dispatcher_address: String,
    channel: String,
    target_address: String,
    echo: String,
) -> (r: Result<Response, ContractError>)
    ensures
        dispatch_local_ensures(dispatcher_address@, channel@, target_address@, echo@, r),
{
    let echo_execute_msg = crate::echo::ExecuteMsg::Echo { echo };
    let echo_text = echo_execute_msg.encode();
    let echo_bytes = StrSliceExecFns::as_bytes_vec(echo_text.as_str());
    let dispatch_msg = crate::dispatcher::ExecuteMsg::Dispatch {
        channel,
        target_address,
        msg: echo_bytes,
    };
    let dispatch_text = dispatch_msg.encode();
    let dispatch_bytes = StrSliceExecFns::as_bytes_vec(dispatch_text.as_str());
    let sub = SubMsg::reply_on_success(
        OutboundMsg::Execute { contract_addr: dispatcher_address.clone(), msg: dispatch_bytes },
        REPLY_ID_MINT,
    );
    let mut res = Response::new();
    res.attributes.push(attr("action", "execute_controller"));
    res.attributes.push(attr("ibc-contract", dispatcher_address.as_str()));
    res.messages.push(sub);
    Ok(res)
}

/// Route a completion event by its continuation id.  The only id this
/// contract ever hands out is the dispatcher-call id; any other is a
/// protocol violation and fatal.
pub fn reply(msg: Reply) -> (r: Result<Response, ContractError>)
    ensures
        msg.id == REPLY_ID_MINT ==> (r matches Ok(res) && reply_ensures(res)),
        msg.id != REPLY_ID_MINT ==> (r matches Err(e) && e == (ContractError::UnknownReplyId {
            id: msg.id,
        })),
{
    if msg.id == REPLY_ID_MINT {
        handle_target_contract_reply(msg)
    } else {
        Err(ContractError::UnknownReplyId { id: msg.id })
    }
}

/// What resuming the dispatcher-call continuation produces.
pub open spec fn reply_ensures(res: Response) -> bool {
    &&& res.attributes@.len() == 1
    &&& attr_is(res.attributes@[0], "action"@, "handle_target_contract_reply"@)
    &&& res.messages@.len() == 0
    &&& res.data is None
}

/// Resume after the dispatcher's work completed.
pub fn handle_target_contract_reply(_msg: Reply) -> (r: Result<Response, ContractError>)
    ensures
        r matches Ok(res) && reply_ensures(res),
{
    let mut res = Response::new();
    res.attributes.push(attr("action", "handle_target_contract_reply"));
    Ok(res)
}

} // verus!

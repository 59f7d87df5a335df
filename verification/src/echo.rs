//! The echo contract: a minimal target for a dispatched command.  It keeps
//! the last echoed string as its state and answers a query with it.

use vstd::prelude::*;
use crate::jstr::{ends_brace2, esc, esc_into, lemma_p_lit, lemma_p_qstr_esc, p_lit, p_lit_exec,
    p_qstr, p_qstr_exec};
use crate::response::{attr, attr_is, ContractError, Response};
use crate::strutil::{chars_string, push_lit, str_chars};

verus! {

/// The contract state: the last echoed string.
#[derive(Clone, Debug, PartialEq, Eq)]
pub struct State {
    pub echo: String,
}

/// Instantiation takes no parameters.
#[derive(Clone, Debug, PartialEq, Eq)]
pub struct InstantiateMsg {}

/// The execute surface: store the given string.
#[derive(Clone, Debug, PartialEq, Eq)]
pub enum ExecuteMsg {
    Echo { echo: String },
}

/// The query surface.
#[derive(Clone, Debug, PartialEq, Eq)]
pub enum QueryMsg {
    Echo {},
}

/// The echo query response.
#[derive(Clone, Debug, PartialEq, Eq)]
pub struct EchoResponse {
    pub echo: String,
}

/// Wire text of an echo command.
pub open spec fn spec_echo_msg_enc(echo: Seq<char>) -> Seq<char> {
    "{\"echo\":{\"echo\":\""@ + esc(echo) + seq!['"'] + "}}"@
}

/// Echo command of a wire text; `None` unless the text is a canonical
/// encoding.
pub open spec fn spec_echo_msg_dec(s: Seq<char>) -> Option<Seq<char>> {
    match p_lit(s, "{\"echo\":{\"echo\":\""@) {
        Some(r1) => match p_qstr(r1) {
            Some((content, r2)) => if r2 == seq!['}', '}'] {
                Some(content)
            } else {
                None
            },
            None => None,
        },
        None => None,
    }
}

/// Round trip: decoding the encoding of any echo command gives the string
/// back.
pub proof fn lemma_echo_msg_round_trip(echo: Seq<char>)
    ensures
        spec_echo_msg_dec(spec_echo_msg_enc(echo)) == Some(echo),
{
    reveal_strlit("{\"echo\":{\"echo\":\"");
    reveal_strlit("}}");
    let rest = esc(echo) + seq!['"'] + "}}"@;
    assert(spec_echo_msg_enc(echo) =~= "{\"echo\":{\"echo\":\""@ + rest);
    lemma_p_lit("{\"echo\":{\"echo\":\""@, rest);
    lemma_p_qstr_esc(echo, "}}"@);
    assert("}}"@ =~= seq!['}', '}']);
}

impl ExecuteMsg {
    /// Encode this command as wire text.
    pub fn encode(&self) -> (r: String)
        ensures
            self matches ExecuteMsg::Echo { echo } && r@ == spec_echo_msg_enc(echo@),
    {
        match self {
            ExecuteMsg::Echo { echo } => {
                let mut out: Vec<char> = Vec::new();
                push_lit(&mut out, "{\"echo\":{\"echo\":\"");
                let ec = str_chars(echo.as_str());
                esc_into(&ec, 0, &mut out);
                out.push('"');
                push_lit(&mut out, "}}");
                proof {
                    assert(ec@.skip(0) =~= ec@);
                    assert(out@ =~= spec_echo_msg_enc(echo@));
                }
                chars_string(&out)
            },
        }
    }

    /// Decode a wire text; succeeds exactly on canonical encodings.
    pub fn decode(s: &str) -> (r: Option<ExecuteMsg>)
        ensures
            match r {
                Some(m) => m matches ExecuteMsg::Echo { echo } && spec_echo_msg_dec(s@) == Some(
                    echo@,
                ),
                None => spec_echo_msg_dec(s@) is None,
            },
    {
        let v = str_chars(s);
        assert(v@.skip(0) =~= v@);
        let j1 = match p_lit_exec(&v, 0, "{\"echo\":{\"echo\":\"") {
            Some(j) => j,
            None => {
                return None;
            },
        };
        let (content, j2) = match p_qstr_exec(&v, j1) {
            Some(x) => x,
            None => {
                return None;
            },
        };
        if ends_brace2(&v, j2) {
            Some(ExecuteMsg::Echo { echo: chars_string(&content) })
        } else {
            None
        }
    }
}

/// Wire text of the echo query response.
pub open spec fn spec_echo_response_enc(echo: Seq<char>) -> Seq<char> {
    "{\"echo\":\""@ + esc(echo) + seq!['"'] + "}"@
}

/// Create the contract with an empty echo.
pub fn instantiate(_msg: InstantiateMsg) -> (r: (State, Response))
    ensures
        r.0.echo@ == Seq::<char>::empty(),
        r.1.attributes@.len() == 2,
        attr_is(r.1.attributes@[0], "action"@, "instantiate"@),
        attr_is(r.1.attributes@[1], "echo"@, Seq::<char>::empty()),
        r.1.messages@.len() == 0,
        r.1.data is None,
{
    let state = State { echo: String::new() };
    let mut res = Response::new();
    res.attributes.push(attr("action", "instantiate"));
    res.attributes.push(attr("echo", ""));
    proof {
        reveal_strlit("");
        assert(""@ =~= Seq::<char>::empty());
    }
    (state, res)
}

/// Direct invocation: every variant stores its string.
pub fn execute(state: &mut State, msg: ExecuteMsg) -> (r: Result<Response, ContractError>)
    ensures
        msg matches ExecuteMsg::Echo { echo } && execute_echo_ensures(echo@, *final(state), r),
{
    match msg {
        ExecuteMsg::Echo { echo } => execute_echo(state, echo),
    }
}

/// What echoing produces: the new state holds the string and the response
/// reports it.
pub open spec fn execute_echo_ensures(
    echo: Seq<char>,
    post: State,
    r: Result<Response, ContractError>,
) -> bool {
    &&& post.echo@ == echo
    &&& r matches Ok(res) && {
        &&& res.attributes@.len() == 2
        &&& attr_is(res.attributes@[0], "action"@, "execute_echo"@)
        &&& attr_is(res.attributes@[1], "echo"@, echo)
        &&& res.messages@.len() == 0
        &&& res.data is None
    }
}

/// Store the string and report it.
pub fn execute_echo(state: &mut State, echo: String) -> (r: Result<Response, ContractError>)
    ensures
        execute_echo_ensures(echo@, *final(state), r),
{
    state.echo = echo.clone();
    let mut res = Response::new();
    res.attributes.push(attr("action", "execute_echo"));
    res.attributes.push(attr("echo", echo.as_str()));
    Ok(res)
}

/// Answer a query against the state.
pub fn query(state: &State, msg: QueryMsg) -> (r: String)
    ensures
        r@ == spec_echo_response_enc(state.echo@),
{
    match msg {
        QueryMsg::Echo {} => {
            let resp = query_echo(state);
            let mut out: Vec<char> = Vec::new();
            push_lit(&mut out, "{\"echo\":\"");
            let ec = str_chars(resp.echo.as_str());
            esc_into(&ec, 0, &mut out);
            out.push('"');
            out.push('}');
            proof {
                reveal_strlit("}");
                assert(ec@.skip(0) =~= ec@);
                assert(out@ =~= spec_echo_response_enc(state.echo@));
            }
            chars_string(&out)
        },
    }
}

/// The last echoed string.
pub fn query_echo(state: &State) -> (r: EchoResponse)
    ensures
        r.echo@ == state.echo@,
{
    EchoResponse { echo: state.echo.clone() }
}

} // verus!

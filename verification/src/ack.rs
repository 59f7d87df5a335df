//! The acknowledgement envelope.  Every inbound packet is answered with
//! exactly one acknowledgement: either a success carrying an opaque result
//! payload, or an error carrying a human-readable reason.  On the wire it is
//! the JSON document `{"result":"<base64>"}` or `{"error":"<string>"}`.

use vstd::prelude::*;
use crate::b64::{
    b64_dec, b64_decode_from, b64_enc, b64_encode_into, lemma_b64_enc_wire, lemma_b64_round_trip,
    lemma_b64_wire_plain,
};
use crate::jstr::{
    esc, esc_into, lemma_p_lit, lemma_p_qstr_esc, lemma_p_raw_of, p_lit, p_lit_exec, p_qstr,
    p_qstr_exec, p_raw, p_raw_exec,
};
use crate::strutil::{chars_string, push_lit, str_chars};

verus! {

/// A success result (opaque payload bytes) or an error (reason text).
#[derive(Clone, Debug, PartialEq, Eq)]
pub enum Ack {
    Result(Vec<u8>),
    Error(String),
}

/// Mathematical model of an acknowledgement.
pub enum AckRep {
    Result(Seq<u8>),
    Error(Seq<char>),
}

impl View for Ack {
    type V = AckRep;

    open spec fn view(&self) -> AckRep {
        match self {
            Ack::Result(d) => AckRep::Result(d@),
            Ack::Error(e) => AckRep::Error(e@),
        }
    }
}

/// Wire text of an acknowledgement.
pub open spec fn spec_ack_enc(a: AckRep) -> Seq<char> {
    match a {
        AckRep::Result(d) => "{\"result\":\""@ + b64_enc(d) + "\"}"@,
        AckRep::Error(e) => "{\"error\":\""@ + esc(e) + "\"}"@,
    }
}

/// Acknowledgement of a wire text; `None` unless the text is a canonical
/// encoding.
pub open spec fn spec_ack_dec(s: Seq<char>) -> Option<AckRep> {
    match p_lit(s, "{\"result\":\""@) {
        Some(r1) => match p_raw(r1) {
            Some((content, r2)) => match b64_dec(content) {
                Some(d) => if r2 == seq!['}'] {
                    Some(AckRep::Result(d))
                } else {
                    None
                },
                None => None,
            },
            None => None,
        },
        None => match p_lit(s, "{\"error\":\""@) {
            Some(r1) => match p_qstr(r1) {
                Some((content, r2)) => if r2 == seq!['}'] {
                    Some(AckRep::Error(content))
                } else {
                    None
                },
                None => None,
            },
            None => None,
        },
    }
}

/// Round trip: decoding the encoding of any acknowledgement gives it back.
/// This covers both the error text (`{"error":...}` carries any string
/// unchanged) and the result payload (`{"result":...}` carries any bytes
/// unchanged).
pub proof fn lemma_ack_round_trip(a: AckRep)
    ensures
        spec_ack_dec(spec_ack_enc(a)) == Some(a),
{
    reveal_strlit("{\"result\":\"");
    reveal_strlit("{\"error\":\"");
    reveal_strlit("\"}");
    match a {
        AckRep::Result(d) => {
            let s = spec_ack_enc(a);
            let rest = b64_enc(d) + seq!['"'] + seq!['}'];
            assert(s =~= "{\"result\":\""@ + rest);
            lemma_p_lit("{\"result\":\""@, rest);
            lemma_b64_enc_wire(d);
            assert forall|i: int| 0 <= i < b64_enc(d).len() implies b64_enc(d)[i] != '"' by {
                lemma_b64_wire_plain(b64_enc(d)[i]);
            }
            lemma_p_raw_of(b64_enc(d), seq!['}']);
            lemma_b64_round_trip(d);
        },
        AckRep::Error(e) => {
            let s = spec_ack_enc(a);
            let rest = esc(e) + seq!['"'] + seq!['}'];
            assert(s =~= "{\"error\":\""@ + rest);
            assert(p_lit(s, "{\"result\":\""@) is None) by {
                if p_lit(s, "{\"result\":\""@) is Some {
                    assert(s.take(11)[2] == s[2]);
                    assert(s[2] == 'e');
                    assert(("{\"result\":\""@)[2] == 'r');
                }
            }
            lemma_p_lit("{\"error\":\""@, rest);
            lemma_p_qstr_esc(e, seq!['}']);
        },
    }
}

/// No two acknowledgements share a wire text: an envelope on the wire
/// determines the acknowledgement it carries.
pub proof fn lemma_ack_enc_injective(a1: AckRep, a2: AckRep)
    requires
        spec_ack_enc(a1) == spec_ack_enc(a2),
    ensures
        a1 == a2,
{
    lemma_ack_round_trip(a1);
    lemma_ack_round_trip(a2);
}

/// Append the wire text of a success acknowledgement with payload `d`.
fn ack_result_into(d: &Vec<u8>, out: &mut Vec<char>)
    ensures
        final(out)@ == old(out)@ + spec_ack_enc(AckRep::Result(d@)),
{
    push_lit(out, "{\"result\":\"");
    b64_encode_into(d, 0, out);
    push_lit(out, "\"}");
    proof {
        assert(d@.skip(0) =~= d@);
        assert(out@ =~= old(out)@ + spec_ack_enc(AckRep::Result(d@)));
    }
}

impl Ack {
    /// The canonical success envelope with no result data: it carries the
    /// fixed one-byte marker payload `1`.
    pub fn success() -> (r: String)
        ensures
            r@ == spec_ack_enc(AckRep::Result(seq![49u8])),
    {
        let mut d: Vec<u8> = Vec::new();
        d.push(49);
        assert(d@ =~= seq![49u8]);
        Self::success_data(&d)
    }

    /// The success envelope carrying the already-serialized payload `d`.
    pub fn success_data(d: &Vec<u8>) -> (r: String)
        ensures
            r@ == spec_ack_enc(AckRep::Result(d@)),
    {
        let mut out: Vec<char> = Vec::new();
        ack_result_into(d, &mut out);
        chars_string(&out)
    }

    /// The error envelope carrying the reason `err`.
    pub fn fail(err: &str) -> (r: String)
        ensures
            r@ == spec_ack_enc(AckRep::Error(err@)),
    {
        let mut out: Vec<char> = Vec::new();
        push_lit(&mut out, "{\"error\":\"");
        let ec = str_chars(err);
        esc_into(&ec, 0, &mut out);
        push_lit(&mut out, "\"}");
        proof {
            assert(ec@.skip(0) =~= ec@);
            assert(out@ =~= spec_ack_enc(AckRep::Error(err@)));
        }
        chars_string(&out)
    }

    /// Decode a wire text; succeeds exactly on canonical encodings.
    pub fn decode(s: &str) -> (r: Option<Ack>)
        ensures
            match r {
                Some(a) => spec_ack_dec(s@) == Some(a@),
                None => spec_ack_dec(s@) is None,
            },
    {
        let v = str_chars(s);
        assert(v@.skip(0) =~= v@);
        match p_lit_exec(&v, 0, "{\"result\":\"") {
            Some(j1) => {
                match p_raw_exec(&v, j1) {
                    Some((content, j2)) => {
                        match b64_decode_from(&content, 0) {
                            Some(d) => {
                                assert(content@.skip(0) =~= content@);
                                if v.len() - j2 == 1 && v[j2] == '}' {
                                    assert(v@.skip(j2 as int) =~= seq!['}']);
                                    Some(Ack::Result(d))
                                } else {
                                    proof {
                                        if v@.skip(j2 as int) == seq!['}'] {
                                            assert(v@.skip(j2 as int).len() == seq![
                                                '}',
                                            ].len());
                                            assert(v@.skip(j2 as int)[0] == v@[j2 as int]);
                                            assert(false);
                                        }
                                    }
                                    None
                                }
                            },
                            None => None,
                        }
                    },
                    None => None,
                }
            },
            None => {
                match p_lit_exec(&v, 0, "{\"error\":\"") {
                    Some(j1) => {
                        match p_qstr_exec(&v, j1) {
                            Some((content, j2)) => {
                                if v.len() - j2 == 1 && v[j2] == '}' {
                                    assert(v@.skip(j2 as int) =~= seq!['}']);
                                    Some(Ack::Error(chars_string(&content)))
                                } else {
                                    proof {
                                        if v@.skip(j2 as int) == seq!['}'] {
                                            assert(v@.skip(j2 as int).len() == seq![
                                                '}',
                                            ].len());
                                            assert(v@.skip(j2 as int)[0] == v@[j2 as int]);
                                            assert(false);
                                        }
                                    }
                                    None
                                }
                            },
                            None => None,
                        }
                    },
                    None => None,
                }
            },
        }
    }

    /// The success payload; the caller must already have established that
    /// this acknowledgement is a success.
    pub fn unwrap(self) -> (r: Vec<u8>)
        requires
            self@ is Result,
        ensures
            self@ == AckRep::Result(r@),
    {
        match self {
            Ack::Result(d) => d,
            Ack::Error(_) => unreached(),
        }
    }

    /// The error reason; the caller must already have established that this
    /// acknowledgement is an error.
    pub fn unwrap_err(self) -> (r: String)
        requires
            self@ is Error,
        ensures
            self@ == AckRep::Error(r@),
    {
        match self {
            Ack::Result(_) => unreached(),
            Ack::Error(e) => e,
        }
    }

    /// Decode a wire text known to be a canonical success envelope and
    /// return its payload.
    pub fn parse(s: &str) -> (r: Vec<u8>)
        requires
            spec_ack_dec(s@) matches Some(a) && a is Result,
        ensures
            spec_ack_dec(s@) == Some(AckRep::Result(r@)),
    {
        let a = Self::decode(s);
        match a {
            Some(a) => a.unwrap(),
            None => unreached(),
        }
    }
}

} // verus!

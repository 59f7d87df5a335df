//! Base64 (RFC 4648, with `=` padding) for the opaque payloads carried
//! inside the JSON envelopes.  The encoder and decoder are verified to
//! invert one another, and every character the encoder emits lies in the
//! base64 alphabet, so an encoded payload never collides with the JSON
//! string delimiters around it.

use vstd::prelude::*;

verus! {

/// The alphabet character for a six-bit value.
pub open spec fn b64_char(x: u8) -> char {
    if x < 26 {
        ((65 + x) as u8) as char
    } else if x < 52 {
        ((97 + (x - 26)) as u8) as char
    } else if x < 62 {
        ((48 + (x - 52)) as u8) as char
    } else if x == 62 {
        '+'
    } else {
        '/'
    }
}

/// The six-bit value of an alphabet character, `None` outside the alphabet.
pub open spec fn b64_val(c: char) -> Option<u8> {
    let u = c as u32;
    if 65 <= u && u <= 90 {
        Some((u - 65) as u8)
    } else if 97 <= u && u <= 122 {
        Some((u - 97 + 26) as u8)
    } else if 48 <= u && u <= 57 {
        Some((u - 48 + 52) as u8)
    } else if u == 43 {
        Some(62u8)
    } else if u == 47 {
        Some(63u8)
    } else {
        None
    }
}

/// A character the encoder may emit: the alphabet, or the padding `=`.
pub open spec fn b64_wire(c: char) -> bool {
    b64_val(c) is Some || c == '='
}

/// Decoding inverts the alphabet map.
pub proof fn lemma_b64_val_char(x: u8)
    requires
        x < 64,
    ensures
        b64_val(b64_char(x)) == Some(x),
        b64_char(x) != '=',
{
}

/// Every wire character is a printable ASCII character distinct from the
/// JSON string delimiters.
pub proof fn lemma_b64_wire_plain(c: char)
    requires
        b64_wire(c),
    ensures
        c != '"',
        c != '\\',
        (c as u32) >= 0x20,
{
    if c == '=' {
        assert(('=' as u32) == 61);
    }
}

/// The four six-bit groups of a three-byte block.
pub open spec fn sextets(x: u8, y: u8, z: u8) -> (u8, u8, u8, u8) {
    (x >> 2, ((x & 3) << 4) | (y >> 4), ((y & 15) << 2) | (z >> 6), z & 63)
}

/// The three bytes packed by four six-bit groups.
pub open spec fn pack3(s0: u8, s1: u8, s2: u8, s3: u8) -> (u8, u8, u8) {
    ((s0 << 2) | (s1 >> 4), ((s1 & 15) << 4) | (s2 >> 2), ((s2 & 3) << 6) | s3)
}

/// Splitting three bytes into six-bit groups and packing them again is the
/// identity, and the groups are six bits wide.
pub proof fn lemma_sextets_pack(x: u8, y: u8, z: u8)
    ensures
        ({
            let (s0, s1, s2, s3) = sextets(x, y, z);
            &&& s0 < 64
            &&& s1 < 64
            &&& s2 < 64
            &&& s3 < 64
            &&& pack3(s0, s1, s2, s3) == (x, y, z)
            &&& (z == 0 ==> s3 == 0 && (s2 & 3) == 0)
            &&& (y == 0 && z == 0 ==> s2 == 0 && (s1 & 15) == 0)
        }),
{
    assert((x >> 2) < 64 && (((x & 3) << 4) | (y >> 4)) < 64 && (((y & 15) << 2) | (z >> 6)) < 64
        && (z & 63) < 64 && (((x >> 2) << 2) | ((((x & 3) << 4) | (y >> 4)) >> 4)) == x && (((((x
        & 3) << 4) | (y >> 4)) & 15) << 4) | ((((y & 15) << 2) | (z >> 6)) >> 2) == y && (((((y
        & 15) << 2) | (z >> 6)) & 3) << 6) | (z & 63) == z && (z == 0 ==> (z & 63) == 0 && ((((y
        & 15) << 2) | (z >> 6)) & 3) == 0) && (y == 0 && z == 0 ==> (((y & 15) << 2) | (z >> 6))
        == 0 && ((((x & 3) << 4) | (y >> 4)) & 15) == 0)) by (bit_vector);
}

/// Base64 text of a byte sequence, most significant group first.
pub open spec fn b64_enc(b: Seq<u8>) -> Seq<char>
    decreases b.len(),
{
    if b.len() == 0 {
        Seq::empty()
    } else if b.len() == 1 {
        let (s0, s1, s2, s3) = sextets(b[0], 0, 0);
        seq![b64_char(s0), b64_char(s1), '=', '=']
    } else if b.len() == 2 {
        let (s0, s1, s2, s3) = sextets(b[0], b[1], 0);
        seq![b64_char(s0), b64_char(s1), b64_char(s2), '=']
    } else {
        let (s0, s1, s2, s3) = sextets(b[0], b[1], b[2]);
        seq![b64_char(s0), b64_char(s1), b64_char(s2), b64_char(s3)] + b64_enc(b.skip(3))
    }
}

/// Bytes of a base64 text; `None` unless the text is a canonical encoding.
pub open spec fn b64_dec(s: Seq<char>) -> Option<Seq<u8>>
    decreases s.len(),
{
    if s.len() == 0 {
        Some(Seq::empty())
    } else if s.len() < 4 {
        None
    } else {
        match (b64_val(s[0]), b64_val(s[1])) {
            (Some(s0), Some(s1)) => {
                if s[2] == '=' {
                    let (b0, b1, b2) = pack3(s0, s1, 0, 0);
                    if s.len() == 4 && s[3] == '=' && (s1 & 15) == 0 {
                        Some(seq![b0])
                    } else {
                        None
                    }
                } else if s[3] == '=' {
                    match b64_val(s[2]) {
                        Some(s2) => {
                            let (b0, b1, b2) = pack3(s0, s1, s2, 0);
                            if s.len() == 4 && (s2 & 3) == 0 {
                                Some(seq![b0, b1])
                            } else {
                                None
                            }
                        },
                        None => None,
                    }
                } else {
                    match (b64_val(s[2]), b64_val(s[3]), b64_dec(s.skip(4))) {
                        (Some(s2), Some(s3), Some(rest)) => {
                            let (b0, b1, b2) = pack3(s0, s1, s2, s3);
                            Some(seq![b0, b1, b2] + rest)
                        },
                        _ => None,
                    }
                }
            },
            _ => None,
        }
    }
}

/// Round trip: decoding an encoding gives back the bytes.
pub proof fn lemma_b64_round_trip(b: Seq<u8>)
    ensures
        b64_dec(b64_enc(b)) == Some(b),
    decreases b.len(),
{
    if b.len() == 0 {
        assert(b64_dec(b64_enc(b)) =~= Some(b));
    } else if b.len() == 1 {
        let (s0, s1, s2, s3) = sextets(b[0], 0, 0);
        lemma_sextets_pack(b[0], 0, 0);
        lemma_b64_val_char(s0);
        lemma_b64_val_char(s1);
        assert(b64_dec(b64_enc(b)).unwrap() =~= b);
    } else if b.len() == 2 {
        let (s0, s1, s2, s3) = sextets(b[0], b[1], 0);
        lemma_sextets_pack(b[0], b[1], 0);
        lemma_b64_val_char(s0);
        lemma_b64_val_char(s1);
        lemma_b64_val_char(s2);
        assert(b64_dec(b64_enc(b)).unwrap() =~= b);
    } else {
        let (s0, s1, s2, s3) = sextets(b[0], b[1], b[2]);
        lemma_sextets_pack(b[0], b[1], b[2]);
        lemma_b64_val_char(s0);
        lemma_b64_val_char(s1);
        lemma_b64_val_char(s2);
        lemma_b64_val_char(s3);
        lemma_b64_round_trip(b.skip(3));
        let e = b64_enc(b);
        assert(e.skip(4) =~= b64_enc(b.skip(3)));
        assert(b64_dec(e).unwrap() =~= seq![b[0], b[1], b[2]] + b.skip(3));
        assert(seq![b[0], b[1], b[2]] + b.skip(3) =~= b);
    }
}

/// Every character of an encoding is a wire character.
pub proof fn lemma_b64_enc_wire(b: Seq<u8>)
    ensures
        forall|i: int| 0 <= i < b64_enc(b).len() ==> #[trigger] b64_wire(b64_enc(b)[i]),
    decreases b.len(),
{
    if b.len() == 0 {
    } else if b.len() == 1 {
        let (s0, s1, s2, s3) = sextets(b[0], 0, 0);
        lemma_sextets_pack(b[0], 0, 0);
        lemma_b64_val_char(s0);
        lemma_b64_val_char(s1);
    } else if b.len() == 2 {
        let (s0, s1, s2, s3) = sextets(b[0], b[1], 0);
        lemma_sextets_pack(b[0], b[1], 0);
        lemma_b64_val_char(s0);
        lemma_b64_val_char(s1);
        lemma_b64_val_char(s2);
    } else {
        let (s0, s1, s2, s3) = sextets(b[0], b[1], b[2]);
        lemma_sextets_pack(b[0], b[1], b[2]);
        lemma_b64_val_char(s0);
        lemma_b64_val_char(s1);
        lemma_b64_val_char(s2);
        lemma_b64_val_char(s3);
        lemma_b64_enc_wire(b.skip(3));
        assert(b64_enc(b).skip(4) =~= b64_enc(b.skip(3)));
        assert forall|i: int| 0 <= i < b64_enc(b).len() implies #[trigger] b64_wire(
            b64_enc(b)[i],
        ) by {
            if i >= 4 {
                assert(b64_enc(b)[i] == b64_enc(b.skip(3))[i - 4]);
            }
        }
    }
}

/// The alphabet character for a six-bit value.
fn b64_char_exec(x: u8) -> (c: char)
    requires
        x < 64,
    ensures
        c == b64_char(x),
{
    if x < 26 {
        (65 + x) as char
    } else if x < 52 {
        (97 + (x - 26)) as char
    } else if x < 62 {
        (48 + (x - 52)) as char
    } else if x == 62 {
        '+'
    } else {
        '/'
    }
}

/// The six-bit value of an alphabet character.
fn b64_val_exec(c: char) -> (r: Option<u8>)
    ensures
        r == b64_val(c),
{
    let u = c as u32;
    if 65 <= u && u <= 90 {
        Some((u - 65) as u8)
    } else if 97 <= u && u <= 122 {
        Some((u - 97 + 26) as u8)
    } else if 48 <= u && u <= 57 {
        Some((u - 48 + 52) as u8)
    } else if u == 43 {
        Some(62u8)
    } else if u == 47 {
        Some(63u8)
    } else {
        None
    }
}

/// Append the base64 text of `b[i..]` to `out`.
pub fn b64_encode_into(b: &Vec<u8>, i: usize, out: &mut Vec<char>)
    requires
        i <= b@.len(),
    ensures
        final(out)@ == old(out)@ + b64_enc(b@.skip(i as int)),
    decreases b@.len() - i,
{
    let n = b.len() - i;
    if n == 0 {
        assert(out@ =~= old(out)@ + b64_enc(b@.skip(i as int)));
    } else if n == 1 {
        let x = b[i];
        proof {
            lemma_sextets_pack(x, 0, 0);
            assert((((x & 3) << 4) | (0u8 >> 4)) == ((x & 3) << 4)) by (bit_vector);
        }
        out.push(b64_char_exec(x >> 2));
        out.push(b64_char_exec((x & 3) << 4));
        out.push('=');
        out.push('=');
        assert(out@ =~= old(out)@ + b64_enc(b@.skip(i as int)));
    } else if n == 2 {
        let x = b[i];
        let y = b[i + 1];
        proof {
            lemma_sextets_pack(x, y, 0);
            assert((((y & 15) << 2) | (0u8 >> 6)) == ((y & 15) << 2)) by (bit_vector);
        }
        out.push(b64_char_exec(x >> 2));
        out.push(b64_char_exec(((x & 3) << 4) | (y >> 4)));
        out.push(b64_char_exec((y & 15) << 2));
        out.push('=');
        assert(out@ =~= old(out)@ + b64_enc(b@.skip(i as int)));
    } else {
        let x = b[i];
        let y = b[i + 1];
        let z = b[i + 2];
        proof {
            lemma_sextets_pack(x, y, z);
        }
        out.push(b64_char_exec(x >> 2));
        out.push(b64_char_exec(((x & 3) << 4) | (y >> 4)));
        out.push(b64_char_exec(((y & 15) << 2) | (z >> 6)));
        out.push(b64_char_exec(z & 63));
        b64_encode_into(b, i + 3, out);
        assert(b@.skip(i as int).skip(3) =~= b@.skip(i + 3));
        assert(out@ =~= old(out)@ + b64_enc(b@.skip(i as int)));
    }
}

/// Decode the base64 text `s[i..]`.
pub fn b64_decode_from(s: &Vec<char>, i: usize) -> (r: Option<Vec<u8>>)
    requires
        i <= s@.len(),
    ensures
        match r {
            Some(v) => b64_dec(s@.skip(i as int)) == Some(v@),
            None => b64_dec(s@.skip(i as int)) is None,
        },
    decreases s@.len() - i,
{
    let n = s.len() - i;
    if n == 0 {
        let v: Vec<u8> = Vec::new();
        assert(b64_dec(s@.skip(i as int)) =~= Some(v@));
        Some(v)
    } else if n < 4 {
        None
    } else {
        let v0 = b64_val_exec(s[i]);
        let v1 = b64_val_exec(s[i + 1]);
        match (v0, v1) {
            (Some(s0), Some(s1)) => {
                if s[i + 2] == '=' {
                    if n == 4 && s[i + 3] == '=' && (s1 & 15) == 0 {
                        let mut v: Vec<u8> = Vec::new();
                        v.push((s0 << 2) | (s1 >> 4));
                        assert(b64_dec(s@.skip(i as int)) =~= Some(v@));
                        Some(v)
                    } else {
                        None
                    }
                } else if s[i + 3] == '=' {
                    match b64_val_exec(s[i + 2]) {
                        Some(s2) => {
                            if n == 4 && (s2 & 3) == 0 {
                                let mut v: Vec<u8> = Vec::new();
                                v.push((s0 << 2) | (s1 >> 4));
                                v.push(((s1 & 15) << 4) | (s2 >> 2));
                                assert(b64_dec(s@.skip(i as int)) =~= Some(v@));
                                Some(v)
                            } else {
                                None
                            }
                        },
                        None => None,
                    }
                } else {
                    match (b64_val_exec(s[i + 2]), b64_val_exec(s[i + 3])) {
                        (Some(s2), Some(s3)) => {
                            proof {
                                assert(s@.skip(i as int).skip(4) =~= s@.skip(i + 4));
                            }
                            match b64_decode_from(s, i + 4) {
                                Some(rest) => {
                                    let mut v: Vec<u8> = Vec::new();
                                    v.push((s0 << 2) | (s1 >> 4));
                                    v.push(((s1 & 15) << 4) | (s2 >> 2));
                                    v.push(((s2 & 3) << 6) | s3);
                                    let mut v2 = rest;
                                    let ghost gv = v@;
                                    v.append(&mut v2);
                                    assert(b64_dec(s@.skip(i as int)) =~= Some(v@));
                                    Some(v)
                                },
                                None => None,
                            }
                        },
                        _ => None,
                    }
                }
            },
            _ => None,
        }
    }
}

} // verus!

//! JSON string escaping and the small parsing combinators the envelope
//! decoders are built from.  The escaper maps `"` to `\"`, `\` to `\\` and
//! control characters to `\u00xx`; the parser accepts exactly that canonical
//! form, so escaping and parsing invert one another.

use vstd::prelude::*;
use vstd::string::StrSliceExecFns;
use crate::strutil::{chars_string, push_lit, str_chars, str_views};

verus! {

/// JSON text of a list of strings, without the surrounding brackets.
pub open spec fn spec_strlist_enc(ss: Seq<Seq<char>>) -> Seq<char>
    decreases ss.len(),
{
    if ss.len() == 0 {
        Seq::empty()
    } else if ss.len() == 1 {
        seq!['"'] + esc(ss[0]) + seq!['"']
    } else {
        seq!['"'] + esc(ss[0]) + seq!['"'] + seq![','] + spec_strlist_enc(ss.skip(1))
    }
}

/// JSON text of the connections query response.
pub open spec fn spec_connections_enc(ss: Seq<Seq<char>>) -> Seq<char> {
    "{\"connections\":["@ + spec_strlist_enc(ss) + "]}"@
}

/// Append the JSON text of `ss[i..]` to `out`.
pub fn strlist_into(ss: &Vec<String>, i: usize, out: &mut Vec<char>)
    requires
        i <= ss@.len(),
    ensures
        final(out)@ == old(out)@ + spec_strlist_enc(str_views(ss@).skip(i as int)),
    decreases ss@.len() - i,
{
    let n = ss.len() - i;
    if n == 0 {
        assert(out@ =~= old(out)@ + spec_strlist_enc(str_views(ss@).skip(i as int)));
    } else {
        out.push('"');
        let sc = str_chars(ss[i].as_str());
        esc_into(&sc, 0, out);
        out.push('"');
        if n > 1 {
            out.push(',');
        }
        strlist_into(ss, i + 1, out);
        proof {
            assert(sc@.skip(0) =~= sc@);
            assert(str_views(ss@).skip(i as int)[0] == ss@[i as int]@);
            assert(str_views(ss@).skip(i as int).skip(1) =~= str_views(ss@).skip(i + 1));
            assert(out@ =~= old(out)@ + spec_strlist_enc(str_views(ss@).skip(i as int)));
        }
    }
}

/// Encode a connections query response as wire text.
pub fn connections_json(ss: &Vec<String>) -> (r: String)
    ensures
        r@ == spec_connections_enc(str_views(ss@)),
{
    let mut out: Vec<char> = Vec::new();
    push_lit(&mut out, "{\"connections\":[");
    strlist_into(ss, 0, &mut out);
    push_lit(&mut out, "]}");
    proof {
        assert(str_views(ss@).skip(0) =~= str_views(ss@));
        assert(out@ =~= spec_connections_enc(str_views(ss@)));
    }
    chars_string(&out)
}

/// Lower-case hexadecimal digit for a value below 16.
pub open spec fn hex_char(d: u8) -> char {
    if d < 10 {
        ((48 + d) as u8) as char
    } else {
        ((87 + d) as u8) as char
    }
}

/// Value of a lower-case hexadecimal digit.
pub open spec fn hex_val(c: char) -> Option<u8> {
    let u = c as u32;
    if 48 <= u && u <= 57 {
        Some((u - 48) as u8)
    } else if 97 <= u && u <= 102 {
        Some((u - 87) as u8)
    } else {
        None
    }
}

/// The escape sequence a character contributes to a JSON string body.
pub open spec fn esc_char(c: char) -> Seq<char> {
    if c == '"' {
        seq!['\\', '"']
    } else if c == '\\' {
        seq!['\\', '\\']
    } else if (c as u32) < 0x20 {
        seq!['\\', 'u', '0', '0', hex_char(((c as u32) / 16) as u8), hex_char(((c as u32) % 16) as u8)]
    } else {
        seq![c]
    }
}

/// The escaped body of a JSON string.
pub open spec fn esc(s: Seq<char>) -> Seq<char>
    decreases s.len(),
{
    if s.len() == 0 {
        Seq::empty()
    } else {
        esc_char(s[0]) + esc(s.skip(1))
    }
}

/// Parse an escaped string body up to and including the closing quote;
/// returns the unescaped content and the remaining input.
pub open spec fn p_qstr(s: Seq<char>) -> Option<(Seq<char>, Seq<char>)>
    decreases s.len(),
{
    if s.len() == 0 {
        None
    } else if s[0] == '"' {
        Some((Seq::empty(), s.skip(1)))
    } else if s[0] == '\\' {
        if s.len() < 2 {
            None
        } else if s[1] == '"' || s[1] == '\\' {
            match p_qstr(s.skip(2)) {
                Some((c, r)) => Some((seq![s[1]] + c, r)),
                None => None,
            }
        } else if s[1] == 'u' {
            if s.len() < 6 {
                None
            } else if s[2] == '0' && s[3] == '0' {
                match (hex_val(s[4]), hex_val(s[5])) {
                    (Some(h), Some(l)) => {
                        let v = (16 * h + l) as u8;
                        if v < 0x20 {
                            match p_qstr(s.skip(6)) {
                                Some((c, r)) => Some((seq![v as char] + c, r)),
                                None => None,
                            }
                        } else {
                            None
                        }
                    },
                    _ => None,
                }
            } else {
                None
            }
        } else {
            None
        }
    } else if (s[0] as u32) < 0x20 {
        None
    } else {
        match p_qstr(s.skip(1)) {
            Some((c, r)) => Some((seq![s[0]] + c, r)),
            None => None,
        }
    }
}

/// Hex digits decode to their value.
pub proof fn lemma_hex_val_char(d: u8)
    requires
        d < 16,
    ensures
        hex_val(hex_char(d)) == Some(d),
{
}

/// Parsing inverts escaping: the parser consumes the escaped body and the
/// closing quote and returns the original content and the rest.
pub proof fn lemma_p_qstr_esc(s: Seq<char>, rest: Seq<char>)
    ensures
        p_qstr(esc(s) + seq!['"'] + rest) == Some((s, rest)),
    decreases s.len(),
{
    let inp = esc(s) + seq!['"'] + rest;
    if s.len() == 0 {
        assert(inp =~= seq!['"'] + rest);
        assert(inp[0] == '"');
        assert(inp.skip(1) =~= rest);
    } else {
        let c = s[0];
        let tail = esc(s.skip(1)) + seq!['"'] + rest;
        assert(inp =~= esc_char(c) + tail);
        lemma_p_qstr_esc(s.skip(1), rest);
        if c == '"' {
            assert(inp[0] == '\\' && inp[1] == '"');
            assert(inp.skip(2) =~= tail);
            assert(seq![c] + s.skip(1) =~= s);
        } else if c == '\\' {
            assert(inp[0] == '\\' && inp[1] == '\\');
            assert(inp.skip(2) =~= tail);
            assert(seq![c] + s.skip(1) =~= s);
        } else if (c as u32) < 0x20 {
            let u = c as u32;
            let h = (u / 16) as u8;
            let l = (u % 16) as u8;
            lemma_hex_val_char(h);
            lemma_hex_val_char(l);
            assert(inp[0] == '\\' && inp[1] == 'u' && inp[2] == '0' && inp[3] == '0' && inp[4]
                == hex_char(h) && inp[5] == hex_char(l));
            assert(inp.skip(6) =~= tail);
            let v = (16 * h + l) as u8;
            assert(v as u32 == u);
            assert((v as char) == c) by {
                vstd::utf8::char_u32_cast(c, c as u32);
                assert((v as char) as u32 == v as u32);
            }
            assert(seq![v as char] + s.skip(1) =~= s);
        } else {
            assert(inp[0] == c);
            assert(inp.skip(1) =~= tail);
            assert(seq![c] + s.skip(1) =~= s);
        }
    }
}

/// Append the escape sequence of `c` to `out`.
pub fn esc_char_into(c: char, out: &mut Vec<char>)
    ensures
        final(out)@ == old(out)@ + esc_char(c),
{
    let u = c as u32;
    if c == '"' {
        out.push('\\');
        out.push('"');
        assert(out@ =~= old(out)@ + esc_char(c));
    } else if c == '\\' {
        out.push('\\');
        out.push('\\');
        assert(out@ =~= old(out)@ + esc_char(c));
    } else if u < 0x20 {
        out.push('\\');
        out.push('u');
        out.push('0');
        out.push('0');
        let h = (u / 16) as u8;
        let l = (u % 16) as u8;
        out.push(if h < 10 {
            (48 + h) as char
        } else {
            (87 + h) as char
        });
        out.push(if l < 10 {
            (48 + l) as char
        } else {
            (87 + l) as char
        });
        assert(out@ =~= old(out)@ + esc_char(c));
    } else {
        out.push(c);
        assert(out@ =~= old(out)@ + esc_char(c));
    }
}

/// Append the escaped body of `s[i..]` to `out`.
pub fn esc_into(s: &Vec<char>, i: usize, out: &mut Vec<char>)
    requires
        i <= s@.len(),
    ensures
        final(out)@ == old(out)@ + esc(s@.skip(i as int)),
    decreases s@.len() - i,
{
    if i == s.len() {
        assert(out@ =~= old(out)@ + esc(s@.skip(i as int)));
    } else {
        esc_char_into(s[i], out);
        esc_into(s, i + 1, out);
        assert(s@.skip(i as int).skip(1) =~= s@.skip(i + 1));
        assert(s@.skip(i as int)[0] == s@[i as int]);
        assert(out@ =~= old(out)@ + esc(s@.skip(i as int)));
    }
}

/// Parse an escaped string body of `v` starting at `i`; on success the
/// content and the index just past the closing quote.
pub fn p_qstr_exec(v: &Vec<char>, i: usize) -> (r: Option<(Vec<char>, usize)>)
    requires
        i <= v@.len(),
    ensures
        match r {
            Some((c, j)) => i < j <= v@.len() && p_qstr(v@.skip(i as int)) == Some(
                (c@, v@.skip(j as int)),
            ),
            None => p_qstr(v@.skip(i as int)) is None,
        },
    decreases v@.len() - i,
{
    let ghost s = v@.skip(i as int);
    let n = v.len() - i;
    if n == 0 {
        None
    } else if v[i] == '"' {
        let c: Vec<char> = Vec::new();
        assert(s.skip(1) =~= v@.skip(i + 1));
        assert(p_qstr(s) == Some((c@, v@.skip(i + 1))));
        Some((c, i + 1))
    } else if v[i] == '\\' {
        if n < 2 {
            None
        } else if v[i + 1] == '"' || v[i + 1] == '\\' {
            assert(s.skip(2) =~= v@.skip(i + 2));
            match p_qstr_exec(v, i + 2) {
                Some((c, j)) => {
                    let mut c2 = c;
                    c2.insert(0, v[i + 1]);
                    assert(c2@ =~= seq![s[1]] + c@);
                    Some((c2, j))
                },
                None => None,
            }
        } else if v[i + 1] == 'u' {
            if n < 6 {
                None
            } else if v[i + 2] == '0' && v[i + 3] == '0' {
                let hv = hex_val_exec(v[i + 4]);
                let lv = hex_val_exec(v[i + 5]);
                match (hv, lv) {
                    (Some(h), Some(l)) => {
                        let val = 16 * h + l;
                        if val < 0x20 {
                            assert(s.skip(6) =~= v@.skip(i + 6));
                            match p_qstr_exec(v, i + 6) {
                                Some((c, j)) => {
                                    let mut c2 = c;
                                    c2.insert(0, val as char);
                                    assert(c2@ =~= seq![val as char] + c@);
                                    Some((c2, j))
                                },
                                None => None,
                            }
                        } else {
                            None
                        }
                    },
                    _ => None,
                }
            } else {
                None
            }
        } else {
            None
        }
    } else if (v[i] as u32) < 0x20 {
        None
    } else {
        assert(s.skip(1) =~= v@.skip(i + 1));
        match p_qstr_exec(v, i + 1) {
            Some((c, j)) => {
                let mut c2 = c;
                c2.insert(0, v[i]);
                assert(c2@ =~= seq![s[0]] + c@);
                Some((c2, j))
            },
            None => None,
        }
    }
}

fn hex_val_exec(c: char) -> (r: Option<u8>)
    ensures
        r == hex_val(c),
{
    let u = c as u32;
    if 48 <= u && u <= 57 {
        Some((u - 48) as u8)
    } else if 97 <= u && u <= 102 {
        Some((u - 87) as u8)
    } else {
        None
    }
}

/// Strip a literal prefix, returning the remaining input.
pub open spec fn p_lit(s: Seq<char>, lit: Seq<char>) -> Option<Seq<char>> {
    if lit.len() <= s.len() && s.take(lit.len() as int) == lit {
        Some(s.skip(lit.len() as int))
    } else {
        None
    }
}

/// A literal prefix always strips from in front of itself.
pub proof fn lemma_p_lit(lit: Seq<char>, rest: Seq<char>)
    ensures
        p_lit(lit + rest, lit) == Some(rest),
{
    assert((lit + rest).take(lit.len() as int) =~= lit);
    assert((lit + rest).skip(lit.len() as int) =~= rest);
}

/// Match the literal `lit` at position `i` of `v`; on success the index
/// just past it.
pub fn p_lit_exec(v: &Vec<char>, i: usize, lit: &str) -> (r: Option<usize>)
    requires
        i <= v@.len(),
    ensures
        match r {
            Some(j) => i <= j <= v@.len() && p_lit(v@.skip(i as int), lit@) == Some(
                v@.skip(j as int),
            ),
            None => p_lit(v@.skip(i as int), lit@) is None,
        },
{
    let ln = lit.unicode_len();
    let n = v.len();
    if ln > n - i {
        return None;
    }
    let mut k: usize = 0;
    while k < ln
        invariant
            0 <= k <= ln,
            i + ln <= n,
            n == v@.len(),
            ln == lit@.len(),
            forall|m: int| 0 <= m < k ==> v@.skip(i as int)[m] == lit@[m],
        decreases ln - k,
    {
        let lc = lit.get_char(k);
        if v[i + k] != lc {
            assert(v@.skip(i as int)[k as int] != lit@[k as int]);
            assert(p_lit(v@.skip(i as int), lit@) is None) by {
                if lit@.len() <= v@.skip(i as int).len() && v@.skip(i as int).take(
                    lit@.len() as int,
                ) == lit@ {
                    assert(v@.skip(i as int).take(lit@.len() as int)[k as int] == lit@[k as int]);
                }
            }
            return None;
        }
        k = k + 1;
    }
    assert(v@.skip(i as int).take(lit@.len() as int) =~= lit@);
    assert(v@.skip(i as int).skip(lit@.len() as int) =~= v@.skip(i + ln));
    Some(i + ln)
}

/// Does the input end, from position `j`, with exactly the two closing
/// braces of a nested object?
pub fn ends_brace2(v: &Vec<char>, j: usize) -> (r: bool)
    requires
        j <= v@.len(),
    ensures
        r == (v@.skip(j as int) == seq!['}', '}']),
{
    if v.len() - j == 2 && v[j] == '}' && v[j + 1] == '}' {
        proof {
            assert(v@.skip(j as int) =~= seq!['}', '}']);
        }
        true
    } else {
        proof {
            if v@.skip(j as int) == seq!['}', '}'] {
                assert(v@.skip(j as int).len() == seq!['}', '}'].len());
                assert(v@.skip(j as int)[0] == v@[j as int]);
                assert(v@.skip(j as int)[1] == v@[j + 1]);
                assert(false);
            }
        }
        false
    }
}

/// Scan a string body with no escapes up to and including the closing
/// quote; returns the raw content and the remaining input.
pub open spec fn p_raw(s: Seq<char>) -> Option<(Seq<char>, Seq<char>)>
    decreases s.len(),
{
    if s.len() == 0 {
        None
    } else if s[0] == '"' {
        Some((Seq::empty(), s.skip(1)))
    } else {
        match p_raw(s.skip(1)) {
            Some((c, r)) => Some((seq![s[0]] + c, r)),
            None => None,
        }
    }
}

/// A quote-free content scans to itself.
pub proof fn lemma_p_raw_of(content: Seq<char>, rest: Seq<char>)
    requires
        forall|i: int| 0 <= i < content.len() ==> content[i] != '"',
    ensures
        p_raw(content + seq!['"'] + rest) == Some((content, rest)),
    decreases content.len(),
{
    let inp = content + seq!['"'] + rest;
    if content.len() == 0 {
        assert(inp =~= seq!['"'] + rest);
        assert(inp[0] == '"');
        assert(inp.skip(1) =~= rest);
    } else {
        lemma_p_raw_of(content.skip(1), rest);
        assert(inp.skip(1) =~= content.skip(1) + seq!['"'] + rest);
        assert(inp[0] == content[0]);
        assert(seq![content[0]] + content.skip(1) =~= content);
    }
}

/// Scan a raw string body of `v` starting at `i`.
pub fn p_raw_exec(v: &Vec<char>, i: usize) -> (r: Option<(Vec<char>, usize)>)
    requires
        i <= v@.len(),
    ensures
        match r {
            Some((c, j)) => i < j <= v@.len() && p_raw(v@.skip(i as int)) == Some(
                (c@, v@.skip(j as int)),
            ),
            None => p_raw(v@.skip(i as int)) is None,
        },
    decreases v@.len() - i,
{
    let ghost s = v@.skip(i as int);
    if i == v.len() {
        None
    } else if v[i] == '"' {
        let c: Vec<char> = Vec::new();
        assert(s.skip(1) =~= v@.skip(i + 1));
        assert(p_raw(s) == Some((c@, v@.skip(i + 1))));
        Some((c, i + 1))
    } else {
        assert(s.skip(1) =~= v@.skip(i + 1));
        match p_raw_exec(v, i + 1) {
            Some((c, j)) => {
                let mut c2 = c;
                c2.insert(0, v[i]);
                assert(c2@ =~= seq![s[0]] + c@);
                Some((c2, j))
            },
            None => None,
        }
    }
}

} // verus!

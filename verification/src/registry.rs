//! The persistent channel-keyed state: a presence flag per connected
//! channel and a monotonic counter per channel.  Connections are kept in
//! ascending lexicographic order so that the connections query lists them
//! in that order; counters are a keyed list read through a first-match
//! lookup that defaults to zero.

use vstd::prelude::*;
use crate::strutil::{chars_lt, lex_lt, lex_lt_irrefl, lex_lt_total, lex_lt_trans, str_chars};

verus! {

/// The channel identifiers of a list of connections.
pub open spec fn conn_views(v: Seq<String>) -> Seq<Seq<char>> {
    v.map_values(|s: String| s@)
}

/// Strictly ascending in lexicographic order (hence duplicate-free).
pub open spec fn strictly_sorted(v: Seq<Seq<char>>) -> bool {
    forall|i: int, j: int| 0 <= i < j < v.len() ==> lex_lt(v[i], v[j])
}

/// The counter of channel `c`: the first matching entry, or zero.
pub open spec fn cnt_of(s: Seq<(String, u32)>, c: Seq<char>) -> u32
    decreases s.len(),
{
    if s.len() == 0 {
        0
    } else if s[0].0@ == c {
        s[0].1
    } else {
        cnt_of(s.skip(1), c)
    }
}

/// The channel-keyed protocol state.
#[derive(Clone, Debug, PartialEq, Eq)]
pub struct Registry {
    pub connections: Vec<String>,
    pub counters: Vec<(String, u32)>,
}

impl Registry {
    /// The connected channels, in storage order.
    pub open spec fn conns(self) -> Seq<Seq<char>> {
        conn_views(self.connections@)
    }

    /// Well-formed: the connections are strictly ascending.
    pub open spec fn wf(self) -> bool {
        strictly_sorted(self.conns())
    }

    /// Channel `c` is connected.
    pub open spec fn has_conn(self, c: Seq<char>) -> bool {
        self.conns().contains(c)
    }

    /// The counter of channel `c` (zero for an unknown channel).
    pub open spec fn cnt(self, c: Seq<char>) -> u32 {
        cnt_of(self.counters@, c)
    }

    /// The empty registry: nothing connected, every counter zero.
    pub fn new() -> (r: Registry)
        ensures
            r.wf(),
            forall|c: Seq<char>| !r.has_conn(c),
            forall|c: Seq<char>| r.cnt(c) == 0,
    {
        Registry { connections: Vec::new(), counters: Vec::new() }
    }

    /// Record channel `channel` as connected.  Every other channel's
    /// presence and every counter is unchanged.
    pub fn connect(&mut self, channel: String)
        requires
            old(self).wf(),
        ensures
            final(self).wf(),
            forall|c: Seq<char>|
                final(self).has_conn(c) <==> (old(self).has_conn(c) || c == channel@),
            forall|c: Seq<char>| final(self).cnt(c) == old(self).cnt(c),
    {
        let cv = str_chars(channel.as_str());
        let r = find_pos(&self.connections, &cv, 0);
        let ghost oldc = self.conns();
        if r < self.connections.len() && self.connections[r] == channel {
            proof {
                assert(oldc[r as int] == channel@);
                assert(self.has_conn(channel@));
            }
        } else {
            proof {
                self.connections@.insert_ensures(r as int, channel);
            }
            self.connections.insert(r, channel);
            proof {
                let newc = self.conns();
                assert forall|i: int| 0 <= i < r implies newc[i] == oldc[i] by {
                    assert(self.connections@[i] == old(self).connections@[i]);
                }
                assert(newc[r as int] == channel@);
                assert forall|i: int| r < i < newc.len() implies newc[i] == oldc[i - 1] by {
                    assert(self.connections@[i] == old(self).connections@[i - 1]);
                }
                // the new element orders strictly after everything before it
                // and strictly before everything after it
                assert forall|i: int| r <= i < oldc.len() implies lex_lt(channel@, oldc[i]) by {
                    assert(!lex_lt(oldc[r as int], channel@));
                    if oldc[r as int] == channel@ {
                        // ruled out by the branch test
                        assert(old(self).connections@[r as int]@ == channel@);
                        assert(false);
                    }
                    if !lex_lt(channel@, oldc[r as int]) {
                        lex_lt_total(oldc[r as int], channel@);
                        assert(false);
                    }
                    if i > r {
                        lex_lt_trans(channel@, oldc[r as int], oldc[i]);
                    }
                }
                assert forall|i: int, j: int| 0 <= i < j < newc.len() implies lex_lt(
                    newc[i],
                    newc[j],
                ) by {
                    if j < r {
                    } else if j == r {
                        assert(lex_lt(oldc[i], channel@));
                    } else if i < r {
                        assert(newc[j] == oldc[j - 1]);
                        if j - 1 == i {
                            assert(lex_lt(oldc[i], channel@));
                            assert(lex_lt(channel@, oldc[i]));
                            lex_lt_trans(oldc[i], channel@, oldc[i]);
                            lex_lt_irrefl(oldc[i]);
                        }
                    } else if i == r {
                        assert(newc[j] == oldc[j - 1]);
                        assert(lex_lt(channel@, oldc[j - 1]));
                    } else {
                        assert(newc[i] == oldc[i - 1] && newc[j] == oldc[j - 1]);
                    }
                }
                assert forall|c: Seq<char>|
                    final(self).has_conn(c) <==> (old(self).has_conn(c) || c == channel@) by {
                    if old(self).has_conn(c) {
                        let k = choose|k: int| 0 <= k < oldc.len() && oldc[k] == c;
                        if k < r {
                            assert(newc[k] == c);
                        } else {
                            assert(newc[k + 1] == c);
                        }
                        assert(final(self).has_conn(c));
                    }
                    if c == channel@ {
                        assert(newc[r as int] == c);
                        assert(final(self).has_conn(c));
                    }
                    if final(self).has_conn(c) {
                        let k = choose|k: int| 0 <= k < newc.len() && newc[k] == c;
                        if k < r {
                            assert(oldc[k] == c);
                            assert(old(self).has_conn(c));
                        } else if k == r {
                        } else {
                            assert(oldc[k - 1] == c);
                            assert(old(self).has_conn(c));
                        }
                    }
                }
            }
        }
    }

    /// Remove channel `channel` from the connections.  Every other
    /// channel's presence and every counter is unchanged.
    pub fn disconnect(&mut self, channel: &String)
        requires
            old(self).wf(),
        ensures
            final(self).wf(),
            forall|c: Seq<char>|
                final(self).has_conn(c) <==> (old(self).has_conn(c) && c != channel@),
            forall|c: Seq<char>| final(self).cnt(c) == old(self).cnt(c),
    {
        let ghost oldc = self.conns();
        match find_eq(&self.connections, channel, 0) {
            Some(j) => {
                proof {
                    self.connections@.remove_ensures(j as int);
                }
                self.connections.remove(j);
                proof {
                    let newc = self.conns();
                    assert forall|i: int| 0 <= i < j implies newc[i] == oldc[i] by {
                        assert(self.connections@[i] == old(self).connections@[i]);
                    }
                    assert forall|i: int| j <= i < newc.len() implies newc[i] == oldc[i + 1] by {
                        assert(self.connections@[i] == old(self).connections@[i + 1]);
                    }
                    assert forall|i: int, j2: int| 0 <= i < j2 < newc.len() implies lex_lt(
                        newc[i],
                        newc[j2],
                    ) by {
                        if i < j && j2 >= j {
                            assert(lex_lt(oldc[i], oldc[j2 + 1]));
                        }
                    }
                    // duplicates are impossible in a strictly sorted list,
                    // so removing index j removes the only occurrence
                    assert forall|k: int| 0 <= k < oldc.len() && k != j implies oldc[k]
                        != channel@ by {
                        if oldc[k] == channel@ {
                            if k < j {
                                assert(lex_lt(oldc[k], oldc[j as int]));
                            } else {
                                assert(lex_lt(oldc[j as int], oldc[k]));
                            }
                            lex_lt_irrefl(channel@);
                        }
                    }
                    assert forall|c: Seq<char>|
                        final(self).has_conn(c) <==> (old(self).has_conn(c) && c != channel@) by {
                        if final(self).has_conn(c) {
                            let k = choose|k: int| 0 <= k < newc.len() && newc[k] == c;
                            if k < j {
                                assert(oldc[k] == c);
                            } else {
                                assert(oldc[k + 1] == c);
                            }
                            assert(old(self).has_conn(c));
                            if c == channel@ {
                                if k < j {
                                    assert(oldc[k] != channel@);
                                } else {
                                    assert(oldc[k + 1] != channel@);
                                }
                                assert(false);
                            }
                        }
                        if old(self).has_conn(c) && c != channel@ {
                            let k = choose|k: int| 0 <= k < oldc.len() && oldc[k] == c;
                            assert(k != j);
                            if k < j {
                                assert(newc[k] == c);
                            } else {
                                assert(newc[k - 1] == c);
                            }
                            assert(final(self).has_conn(c));
                        }
                    }
                }
            },
            None => {
                proof {
                    if old(self).has_conn(channel@) {
                        let k = choose|k: int| 0 <= k < oldc.len() && oldc[k] == channel@;
                        assert(old(self).connections@[k]@ == channel@);
                        assert(false);
                    }
                }
            },
        }
    }

    /// Increment the counter of channel `channel` (from zero for an unknown
    /// channel).  Every other counter and the connections are unchanged.
    pub fn bump(&mut self, channel: &String)
        requires
            old(self).cnt(channel@) < u32::MAX,
        ensures
            final(self).connections == old(self).connections,
            final(self).cnt(channel@) == old(self).cnt(channel@) + 1,
            forall|c: Seq<char>| c != channel@ ==> final(self).cnt(c) == old(self).cnt(c),
    {
        let ghost olds = self.counters@;
        match find_key(&self.counters, channel, 0) {
            Some(j) => {
                proof {
                    lemma_cnt_first(olds, channel@, j as int);
                }
                let key = self.counters[j].0.clone();
                let val = self.counters[j].1;
                proof {
                    self.counters@.remove_ensures(j as int);
                    self.counters@.remove(j as int).insert_ensures(j as int, (key, (val + 1) as u32));
                }
                self.counters.remove(j);
                self.counters.insert(j, (key, val + 1));
                proof {
                    let news = self.counters@;
                    assert(news.len() == olds.len());
                    assert forall|k: int| 0 <= k < olds.len() && k != j implies news[k]
                        == olds[k] by {}
                    assert(news[j as int].0@ == olds[j as int].0@);
                    assert(news[j as int].1 == val + 1);
                    lemma_cnt_update(olds, news, j as int, channel@);
                    assert forall|c: Seq<char>| c != channel@ implies cnt_of(news, c) == cnt_of(
                        olds,
                        c,
                    ) by {
                        lemma_cnt_update(olds, news, j as int, c);
                    }
                }
            },
            None => {
                proof {
                    lemma_cnt_none(olds, channel@);
                }
                self.counters.push((channel.clone(), 1));
                proof {
                    let news = self.counters@;
                    assert(news =~= olds + seq![(news[olds.len() as int].0, 1u32)]);
                    lemma_cnt_push(olds, news[olds.len() as int], channel@);
                    assert forall|c: Seq<char>| c != channel@ implies cnt_of(news, c) == cnt_of(
                        olds,
                        c,
                    ) by {
                        lemma_cnt_push(olds, news[olds.len() as int], c);
                    }
                }
            },
        }
    }

    /// Read the counter of channel `channel`; zero for an unknown channel.
    pub fn counter(&self, channel: &String) -> (r: u32)
        ensures
            r == self.cnt(channel@),
    {
        match find_key(&self.counters, channel, 0) {
            Some(j) => {
                proof {
                    lemma_cnt_first(self.counters@, channel@, j as int);
                }
                self.counters[j].1
            },
            None => {
                proof {
                    lemma_cnt_none(self.counters@, channel@);
                }
                0
            },
        }
    }

    /// The connected channels, in ascending lexicographic order.
    pub fn list_connections(&self) -> (r: Vec<String>)
        ensures
            conn_views(r@) == self.conns(),
    {
        let mut out: Vec<String> = Vec::new();
        let mut i: usize = 0;
        while i < self.connections.len()
            invariant
                i <= self.connections@.len(),
                out@.len() == i,
                forall|k: int| 0 <= k < i ==> out@[k] == self.connections@[k],
            decreases self.connections@.len() - i,
        {
            out.push(self.connections[i].clone());
            i = i + 1;
        }
        proof {
            assert(out@ =~= self.connections@);
            assert(conn_views(out@) =~= self.conns());
        }
        out
    }
}

/// First index at or after `i` whose element does not order strictly
/// before `cv`; `v.len()` if all do.
fn find_pos(v: &Vec<String>, cv: &Vec<char>, i: usize) -> (r: usize)
    requires
        i <= v@.len(),
    ensures
        i <= r <= v@.len(),
        forall|k: int| i <= k < r ==> lex_lt(v@[k]@, cv@),
        r < v@.len() ==> !lex_lt(v@[r as int]@, cv@),
    decreases v@.len() - i,
{
    if i == v.len() {
        i
    } else {
        let ev = str_chars(v[i].as_str());
        if chars_lt(&ev, cv) {
            find_pos(v, cv, i + 1)
        } else {
            i
        }
    }
}

/// First index at or after `i` whose element equals `channel`.
fn find_eq(v: &Vec<String>, channel: &String, i: usize) -> (r: Option<usize>)
    requires
        i <= v@.len(),
    ensures
        match r {
            Some(j) => i <= j < v@.len() && v@[j as int]@ == channel@ && forall|k: int|
                i <= k < j ==> v@[k]@ != channel@,
            None => forall|k: int| i <= k < v@.len() ==> v@[k]@ != channel@,
        },
    decreases v@.len() - i,
{
    if i == v.len() {
        None
    } else if v[i] == *channel {
        Some(i)
    } else {
        find_eq(v, channel, i + 1)
    }
}

/// First index at or after `i` whose entry is keyed by `channel`.
fn find_key(v: &Vec<(String, u32)>, channel: &String, i: usize) -> (r: Option<usize>)
    requires
        i <= v@.len(),
    ensures
        match r {
            Some(j) => i <= j < v@.len() && v@[j as int].0@ == channel@ && forall|k: int|
                i <= k < j ==> v@[k].0@ != channel@,
            None => forall|k: int| i <= k < v@.len() ==> v@[k].0@ != channel@,
        },
    decreases v@.len() - i,
{
    if i == v.len() {
        None
    } else if v[i].0 == *channel {
        Some(i)
    } else {
        find_key(v, channel, i + 1)
    }
}

/// The counter of `c` is the value of its first matching entry.
proof fn lemma_cnt_first(s: Seq<(String, u32)>, c: Seq<char>, j: int)
    requires
        0 <= j < s.len(),
        s[j].0@ == c,
        forall|k: int| 0 <= k < j ==> s[k].0@ != c,
    ensures
        cnt_of(s, c) == s[j].1,
    decreases j,
{
    if j > 0 {
        lemma_cnt_first(s.skip(1), c, j - 1);
    }
}

/// With no matching entry the counter is zero.
proof fn lemma_cnt_none(s: Seq<(String, u32)>, c: Seq<char>)
    requires
        forall|k: int| 0 <= k < s.len() ==> s[k].0@ != c,
    ensures
        cnt_of(s, c) == 0,
    decreases s.len(),
{
    if s.len() > 0 {
        lemma_cnt_none(s.skip(1), c);
    }
}

/// Replacing the value of the first entry keyed `s[j].0@` changes only
/// that key's counter.
proof fn lemma_cnt_update(s: Seq<(String, u32)>, s2: Seq<(String, u32)>, j: int, c: Seq<char>)
    requires
        0 <= j < s.len(),
        s2.len() == s.len(),
        forall|k: int| 0 <= k < s.len() && k != j ==> s2[k] == s[k],
        s2[j].0@ == s[j].0@,
        forall|k: int| 0 <= k < j ==> s[k].0@ != s[j].0@,
    ensures
        cnt_of(s2, c) == if c == s[j].0@ {
            s2[j].1
        } else {
            cnt_of(s, c)
        },
    decreases j,
{
    if j == 0 {
        if c != s[0].0@ {
            assert(s2.skip(1) =~= s.skip(1));
        }
    } else {
        assert(s2[0] == s[0]);
        lemma_cnt_update(s.skip(1), s2.skip(1), j - 1, c);
        assert(s.skip(1)[j - 1] == s[j]);
    }
}

/// Appending an entry under a fresh key changes only that key's counter.
proof fn lemma_cnt_push(s: Seq<(String, u32)>, e: (String, u32), c: Seq<char>)
    requires
        forall|k: int| 0 <= k < s.len() ==> s[k].0@ != e.0@,
    ensures
        cnt_of(s + seq![e], c) == if c == e.0@ {
            e.1
        } else {
            cnt_of(s, c)
        },
    decreases s.len(),
{
    let se = s + seq![e];
    if s.len() == 0 {
        assert(se[0] == e);
        assert(se.skip(1) =~= Seq::<(String, u32)>::empty());
        if c != e.0@ {
            assert(cnt_of(se, c) == cnt_of(se.skip(1), c));
        }
    } else {
        assert(se[0] == s[0]);
        assert forall|k: int| 0 <= k < s.skip(1).len() implies s.skip(1)[k].0@ != e.0@ by {
            assert(s.skip(1)[k] == s[k + 1]);
        }
        lemma_cnt_push(s.skip(1), e, c);
        assert(se.skip(1) =~= s.skip(1) + seq![e]);
        if s[0].0@ == c {
            assert(c != e.0@);
        }
    }
}

} // verus!

//! The NBT shape the join-game packet carries. The proxy never looks inside
//! a compound: it finds where the compound ends, so that it can keep it as
//! the bytes it received and write them back unchanged.
use vstd::prelude::*;

use crate::buffer::{be_value, lemma_skip_append, lemma_skip_skip, skip};

verus! {

broadcast use lemma_skip_skip, lemma_skip_append;

/// Deepest nesting of lists and compounds accepted.
pub const MAX_DEPTH: usize = 512;

/// The big-endian signed value of the first four bytes of `s`.
pub open spec fn be_i32(s: Seq<u8>) -> int {
    be_value(s.subrange(0, 4)) as int - if s[0] >= 128 {
        0x1_0000_0000int
    } else {
        0int
    }
}

/// Payload width of the tags of fixed size; 0 for the others.
pub open spec fn fixed_width(id: u8) -> nat {
    if id == 1 {
        1
    } else if id == 2 {
        2
    } else if id == 3 || id == 5 {
        4
    } else if id == 4 || id == 6 {
        8
    } else {
        0
    }
}

/// Element width of the array tags; 0 for the others.
pub open spec fn array_width(id: u8) -> nat {
    if id == 7 {
        1
    } else if id == 11 {
        4
    } else if id == 12 {
        8
    } else {
        0
    }
}

/// The length of the payload of a tag of type `id` at the front of `s`, at
/// nesting depth `depth`; `None` where it is malformed, cut short, of an
/// unknown type, or nested too deep.
pub open spec fn payload_len(id: u8, s: Seq<u8>, depth: nat) -> Option<nat>
    decreases s.len(), 1nat,
{
    if fixed_width(id) > 0 {
        if fixed_width(id) <= s.len() {
            Some(fixed_width(id))
        } else {
            None
        }
    } else if array_width(id) > 0 {
        if s.len() < 4 || be_i32(s) < 0 || 4 + be_i32(s) * array_width(id) > s.len() {
            None
        } else {
            Some((4 + be_i32(s) * array_width(id)) as nat)
        }
    } else if id == 8 {
        if s.len() < 2 || 2 + be_value(s.subrange(0, 2)) > s.len() {
            None
        } else {
            Some(2 + be_value(s.subrange(0, 2)))
        }
    } else if id == 9 {
        if depth >= MAX_DEPTH || s.len() < 5 || be_i32(s.subrange(1, 5)) < 0 {
            None
        } else {
            match items_len(s[0], be_i32(s.subrange(1, 5)) as nat, skip(s, 5), depth + 1) {
                Some(k) => Some(5 + k),
                None => None,
            }
        }
    } else if id == 10 {
        if depth >= MAX_DEPTH {
            None
        } else {
            entries_len(s, depth + 1)
        }
    } else {
        None
    }
}

/// The length of `count` payloads of type `id` one after the other.
pub open spec fn items_len(id: u8, count: nat, s: Seq<u8>, depth: nat) -> Option<nat>
    decreases s.len(), 2nat,
{
    if count == 0 {
        Some(0)
    } else {
        match payload_len(id, s, depth) {
            Some(k) => if 1 <= k && k <= s.len() {
                match items_len(id, (count - 1) as nat, skip(s, k), depth) {
                    Some(m) => Some(k + m),
                    None => None,
                }
            } else {
                None
            },
            None => None,
        }
    }
}

/// The length of the named tags of a compound, its end tag included.
pub open spec fn entries_len(s: Seq<u8>, depth: nat) -> Option<nat>
    decreases s.len(), 0nat,
{
    if s.len() == 0 {
        None
    } else if s[0] == 0 {
        Some(1)
    } else if s.len() < 3 || 3 + be_value(s.subrange(1, 3)) > s.len() {
        None
    } else {
        let h = 3 + be_value(s.subrange(1, 3));
        match payload_len(s[0], skip(s, h), depth) {
            Some(k) => if h + k <= s.len() {
                match entries_len(skip(s, h + k), depth) {
                    Some(m) => Some(h + k + m),
                    None => None,
                }
            } else {
                None
            },
            None => None,
        }
    }
}

/// The length of a named root compound at the front of `s`: tag type 10, a
/// name, then the compound's entries.
pub open spec fn root_len(s: Seq<u8>) -> Option<nat> {
    if s.len() < 3 || s[0] != 10 || 3 + be_value(s.subrange(1, 3)) > s.len() {
        None
    } else {
        let h = 3 + be_value(s.subrange(1, 3));
        match entries_len(skip(s, h), 1) {
            Some(k) => Some(h + k),
            None => None,
        }
    }
}

proof fn lemma_payload_bound(id: u8, s: Seq<u8>, depth: nat)
    ensures
        payload_len(id, s, depth) matches Some(k) ==> k <= s.len(),
    decreases s.len(), 1nat,
{
    if id == 9 && depth < MAX_DEPTH && s.len() >= 5 && be_i32(s.subrange(1, 5)) >= 0 {
        lemma_items_bound(s[0], be_i32(s.subrange(1, 5)) as nat, skip(s, 5), depth + 1);
    } else if id == 10 && depth < MAX_DEPTH {
        lemma_entries_bound(s, depth + 1);
    }
}

proof fn lemma_items_bound(id: u8, count: nat, s: Seq<u8>, depth: nat)
    ensures
        items_len(id, count, s, depth) matches Some(k) ==> k <= s.len(),
    decreases s.len(), 2nat,
{
    if count > 0 {
        lemma_payload_bound(id, s, depth);
        if let Some(k) = payload_len(id, s, depth) {
            if 1 <= k && k <= s.len() {
                lemma_items_bound(id, (count - 1) as nat, skip(s, k), depth);
            }
        }
    }
}

proof fn lemma_entries_bound(s: Seq<u8>, depth: nat)
    ensures
        entries_len(s, depth) matches Some(k) ==> 1 <= k <= s.len(),
    decreases s.len(), 0nat,
{
    if s.len() >= 3 && s[0] != 0 && 3 + be_value(s.subrange(1, 3)) <= s.len() {
        let h = 3 + be_value(s.subrange(1, 3));
        lemma_payload_bound(s[0], skip(s, h), depth);
        if let Some(k) = payload_len(s[0], skip(s, h), depth) {
            if h + k <= s.len() {
                lemma_entries_bound(skip(s, h + k), depth);
            }
        }
    }
}

proof fn lemma_payload_prefix(id: u8, s: Seq<u8>, t: Seq<u8>, depth: nat)
    requires
        payload_len(id, s, depth) is Some,
    ensures
        payload_len(id, s + t, depth) == payload_len(id, s, depth),
    decreases s.len(), 1nat,
{
    let st = s + t;
    if s.len() >= 1 {
        assert(st[0] == s[0]);
    }
    if s.len() >= 2 {
        assert(st.subrange(0, 2) =~= s.subrange(0, 2));
    }
    if s.len() >= 4 {
        assert(st.subrange(0, 4) =~= s.subrange(0, 4));
    }
    if s.len() >= 5 {
        assert(st.subrange(1, 5) =~= s.subrange(1, 5));
    }
    if id == 9 {
        lemma_items_prefix(s[0], be_i32(s.subrange(1, 5)) as nat, skip(s, 5), t, depth + 1);
    } else if id == 10 {
        lemma_entries_prefix(s, t, depth + 1);
    }
}

proof fn lemma_items_prefix(id: u8, count: nat, s: Seq<u8>, t: Seq<u8>, depth: nat)
    requires
        items_len(id, count, s, depth) is Some,
    ensures
        items_len(id, count, s + t, depth) == items_len(id, count, s, depth),
    decreases s.len(), 2nat,
{
    if count > 0 {
        lemma_payload_prefix(id, s, t, depth);
        let k = payload_len(id, s, depth)->Some_0;
        lemma_items_prefix(id, (count - 1) as nat, skip(s, k), t, depth);
    }
}

proof fn lemma_entries_prefix(s: Seq<u8>, t: Seq<u8>, depth: nat)
    requires
        entries_len(s, depth) is Some,
    ensures
        entries_len(s + t, depth) == entries_len(s, depth),
    decreases s.len(), 0nat,
{
    let st = s + t;
    assert(st[0] == s[0]);
    if s[0] != 0 {
        assert(st.subrange(1, 3) =~= s.subrange(1, 3));
        let h = 3 + be_value(s.subrange(1, 3));
        lemma_payload_prefix(s[0], skip(s, h), t, depth);
        let k = payload_len(s[0], skip(s, h), depth)->Some_0;
        lemma_entries_prefix(skip(s, h + k), t, depth);
    }
}

/// A root compound reads the same with bytes appended.
pub proof fn lemma_root_prefix(s: Seq<u8>, t: Seq<u8>)
    requires
        root_len(s) is Some,
    ensures
        root_len(s + t) == root_len(s),
{
    let st = s + t;
    assert(st[0] == s[0]);
    assert(st.subrange(1, 3) =~= s.subrange(1, 3));
    let h = 3 + be_value(s.subrange(1, 3));
    lemma_entries_prefix(skip(s, h), t, 1);
}

/// A root compound takes at most the bytes there are.
pub proof fn lemma_root_bound(s: Seq<u8>)
    ensures
        root_len(s) matches Some(k) ==> 4 <= k <= s.len(),
{
    if s.len() >= 3 && s[0] == 10 && 3 + be_value(s.subrange(1, 3)) <= s.len() {
        let h = 3 + be_value(s.subrange(1, 3));
        lemma_entries_bound(skip(s, h), 1);
    }
}

proof fn lemma_be2(s: Seq<u8>)
    requires
        s.len() >= 2,
    ensures
        be_value(s.subrange(0, 2)) == s[0] as nat * 256 + s[1] as nat,
{
    reveal_with_fuel(be_value, 3);
    let t = s.subrange(0, 2);
    assert(t.drop_last() =~= s.subrange(0, 1));
    assert(t.drop_last().drop_last() =~= Seq::<u8>::empty());
}

proof fn lemma_be4(s: Seq<u8>)
    requires
        s.len() >= 4,
    ensures
        be_value(s.subrange(0, 4)) == ((s[0] as nat * 256 + s[1] as nat) * 256 + s[2] as nat) * 256
            + s[3] as nat,
{
    reveal_with_fuel(be_value, 5);
    let t = s.subrange(0, 4);
    assert(t.drop_last() =~= s.subrange(0, 3));
    assert(t.drop_last().drop_last() =~= s.subrange(0, 2));
    assert(t.drop_last().drop_last().drop_last() =~= s.subrange(0, 1));
    assert(t.drop_last().drop_last().drop_last().drop_last() =~= Seq::<u8>::empty());
}

/// The value of the big-endian u16 at `pos`.
fn read_u16_at(buf: &[u8], pos: usize) -> (r: usize)
    requires
        pos + 2 <= buf@.len(),
    ensures
        r == be_value(skip(buf@, pos as nat).subrange(0, 2)),
{
    proof {
        lemma_be2(skip(buf@, pos as nat));
    }
    buf[pos] as usize * 256 + buf[pos + 1] as usize
}

/// The value of the big-endian i32 at `pos`, where it is not negative.
fn read_len_at(buf: &[u8], pos: usize) -> (r: Option<usize>)
    requires
        pos + 4 <= buf@.len(),
    ensures
        match r {
            Some(n) => be_i32(skip(buf@, pos as nat)) == n && n < 0x8000_0000,
            None => be_i32(skip(buf@, pos as nat)) < 0,
        },
{
    proof {
        lemma_be4(skip(buf@, pos as nat));
    }
    if buf[pos] >= 128 {
        return None;
    }
    let n = ((buf[pos] as usize * 256 + buf[pos + 1] as usize) * 256 + buf[pos + 2] as usize) * 256
        + buf[pos + 3] as usize;
    Some(n)
}

/// Finds where the payload of a tag of type `id` that starts at `pos` ends.
pub fn skip_payload(buf: &[u8], pos: usize, id: u8, depth: usize) -> (r: Option<usize>)
    requires
        pos <= buf@.len(),
    ensures
        match payload_len(id, skip(buf@, pos as nat), depth as nat) {
            Some(k) => r == Some((pos + k) as usize),
            None => r is None,
        },
        r matches Some(e) ==> pos <= e <= buf@.len(),
    decreases buf@.len() - pos, 1nat,
{
    let ghost s = skip(buf@, pos as nat);
    let rem = buf.len() - pos;
    if id == 1 || id == 2 || id == 3 || id == 4 || id == 5 || id == 6 {
        let w: usize = if id == 1 {
            1
        } else if id == 2 {
            2
        } else if id == 3 || id == 5 {
            4
        } else {
            8
        };
        if w <= rem {
            Some(pos + w)
        } else {
            None
        }
    } else if id == 7 || id == 11 || id == 12 {
        let w: usize = if id == 7 {
            1
        } else if id == 11 {
            4
        } else {
            8
        };
        if rem < 4 {
            return None;
        }
        match read_len_at(buf, pos) {
            None => None,
            Some(n) => {
                let q = (rem - 4) / w;
                let ghost ni = n as int;
                let ghost wi = w as int;
                let ghost ri = (rem - 4) as int;
                if n > q {
                    proof {
                        assert(ni * wi > ri) by (nonlinear_arith)
                            requires
                                ni > ri / wi,
                                wi > 0,
                        ;
                    }
                    None
                } else {
                    proof {
                        assert(ni * wi <= ri) by (nonlinear_arith)
                            requires
                                ni <= ri / wi,
                                wi > 0,
                                ni >= 0,
                        ;
                    }
                    Some(pos + 4 + n * w)
                }
            },
        }
    } else if id == 8 {
        if rem < 2 {
            return None;
        }
        let n = read_u16_at(buf, pos);
        if n > rem - 2 {
            None
        } else {
            Some(pos + 2 + n)
        }
    } else if id == 9 {
        if depth >= MAX_DEPTH || rem < 5 {
            return None;
        }
        assert(skip(buf@, (pos + 1) as nat).subrange(0, 4) =~= s.subrange(1, 5).subrange(0, 4));
        let count = match read_len_at(buf, pos + 1) {
            Some(n) => n,
            None => return None,
        };
        match skip_items(buf, pos + 5, buf[pos], count, depth + 1) {
            Some(end) => Some(end),
            None => None,
        }
    } else if id == 10 {
        if depth >= MAX_DEPTH {
            return None;
        }
        skip_entries(buf, pos, depth + 1)
    } else {
        None
    }
}

/// Finds where `count` payloads of type `id` that start at `pos` end.
fn skip_items(buf: &[u8], pos: usize, id: u8, count: usize, depth: usize) -> (r: Option<usize>)
    requires
        pos <= buf@.len(),
    ensures
        match items_len(id, count as nat, skip(buf@, pos as nat), depth as nat) {
            Some(k) => r == Some((pos + k) as usize),
            None => r is None,
        },
        r matches Some(e) ==> pos <= e <= buf@.len(),
    decreases buf@.len() - pos, 2nat,
{
    let ghost s0 = skip(buf@, pos as nat);
    let mut at = pos;
    let mut i: usize = 0;
    while i < count
        invariant
            pos <= at <= buf@.len(),
            i <= count,
            s0 == skip(buf@, pos as nat),
            items_len(id, count as nat, s0, depth as nat) == match items_len(
                id,
                (count - i) as nat,
                skip(buf@, at as nat),
                depth as nat,
            ) {
                Some(m) => Some(((at - pos) + m) as nat),
                None => None::<nat>,
            },
        decreases count - i,
    {
        let ghost here = skip(buf@, at as nat);
        let ghost rest = (count - i - 1) as nat;
        proof {
            lemma_payload_bound(id, here, depth as nat);
        }
        match skip_payload(buf, at, id, depth) {
            None => {
                assert(items_len(id, (count - i) as nat, here, depth as nat) is None);
                return None;
            },
            Some(e) => {
                assert(payload_len(id, here, depth as nat) is Some);
                let ghost k = payload_len(id, here, depth as nat)->Some_0;
                let total = buf.len();
                assert(at + k <= total);
                assert(e == at + k);
                if e == at {
                    assert(items_len(id, (count - i) as nat, here, depth as nat) is None);
                    return None;
                }
                proof {
                    assert(skip(here, k) == skip(buf@, e as nat));
                    assert(items_len(id, (count - i) as nat, here, depth as nat) == match items_len(
                        id,
                        rest,
                        skip(here, k),
                        depth as nat,
                    ) {
                        Some(m) => Some(k + m),
                        None => None::<nat>,
                    });
                }
                at = e;
            },
        }
        i = i + 1;
    }
    Some(at)
}

/// Finds where the entries of a compound that start at `pos` end.
fn skip_entries(buf: &[u8], pos: usize, depth: usize) -> (r: Option<usize>)
    requires
        pos <= buf@.len(),
    ensures
        match entries_len(skip(buf@, pos as nat), depth as nat) {
            Some(k) => r == Some((pos + k) as usize),
            None => r is None,
        },
        r matches Some(e) ==> pos < e <= buf@.len(),
    decreases buf@.len() - pos, 0nat,
{
    let rem = buf.len() - pos;
    if rem == 0 {
        return None;
    }
    let id = buf[pos];
    if id == 0 {
        return Some(pos + 1);
    }
    if rem < 3 {
        return None;
    }
    let name = read_u16_at(buf, pos + 1);
    assert(skip(buf@, (pos + 1) as nat).subrange(0, 2) =~= skip(buf@, pos as nat).subrange(1, 3));
    if name > rem - 3 {
        return None;
    }
    let h = pos + 3 + name;
    let ghost s = skip(buf@, pos as nat);
    let ghost hl = (3 + name) as nat;
    assert(skip(s, hl) == skip(buf@, h as nat));
    proof {
        lemma_payload_bound(id, skip(s, hl), depth as nat);
        lemma_entries_bound(s, depth as nat);
    }
    let end = match skip_payload(buf, h, id, depth) {
        Some(e) => e,
        None => return None,
    };
    let ghost k = (end - h) as nat;
    assert(skip(s, hl + k) == skip(buf@, end as nat));
    let r = skip_entries(buf, end, depth);
    assert(entries_len(s, depth as nat) == match entries_len(skip(s, hl + k), depth as nat) {
        Some(m) => Some(hl + k + m),
        None => None::<nat>,
    });
    r
}

/// Finds where a named root compound that starts at `pos` ends.
pub fn skip_root(buf: &[u8], pos: usize) -> (r: Option<usize>)
    requires
        pos <= buf@.len(),
    ensures
        match root_len(skip(buf@, pos as nat)) {
            Some(k) => r == Some((pos + k) as usize),
            None => r is None,
        },
        r matches Some(e) ==> pos < e <= buf@.len(),
{
    let rem = buf.len() - pos;
    if rem < 3 || buf[pos] != 10 {
        return None;
    }
    let name = read_u16_at(buf, pos + 1);
    assert(skip(buf@, (pos + 1) as nat).subrange(0, 2) =~= skip(buf@, pos as nat).subrange(1, 3));
    if name > rem - 3 {
        return None;
    }
    skip_entries(buf, pos + 3 + name, 1)
}

} // verus!

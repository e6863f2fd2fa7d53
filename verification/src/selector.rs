//! Target-message selection: which single message of a room's history should
//! be marked as the "read up to" point.
//!
//! A message is *excluded* when its body carries the broadcast marker
//! `[toall]` or a mention `[To:<id>]` of a watched account. The target is the
//! message immediately after the last excluded one — or the first message
//! when nothing is excluded — and there is no target when that position
//! falls past the end of the list.
//!
//! Substring tests are stated over the UTF-8 bytes of the text, which is
//! what a literal substring test on the text itself means.

use vstd::prelude::*;
use vstd::utf8::encode_utf8;
use crate::models::Message;

verus! {

/// `pat` occurs at position `i` of `hay`.
pub open spec fn match_at(hay: Seq<u8>, pat: Seq<u8>, i: int) -> bool {
    &&& 0 <= i
    &&& i + pat.len() <= hay.len()
    &&& hay.subrange(i, i + pat.len()) == pat
}

/// `pat` occurs somewhere in `hay`.
pub open spec fn contains_pattern(hay: Seq<u8>, pat: Seq<u8>) -> bool {
    exists|i: int| match_at(hay, pat, i)
}

/// The UTF-8 bytes of the broadcast marker `[toall]`.
pub open spec fn toall_marker() -> Seq<u8> {
    seq![
        '[' as u8,
        't' as u8,
        'o' as u8,
        'a' as u8,
        'l' as u8,
        'l' as u8,
        ']' as u8,
    ]
}

/// The UTF-8 bytes of the mention marker `[To:<id>]` for one account id,
/// given by its UTF-8 bytes.
pub open spec fn mention_marker(id: Seq<u8>) -> Seq<u8> {
    seq!['[' as u8, 'T' as u8, 'o' as u8, ':' as u8] + id + seq![']' as u8]
}

/// The UTF-8 bytes of each account id of an exclusion list.
pub open spec fn ids_bytes(ids: Seq<String>) -> Seq<Seq<u8>> {
    ids.map_values(|id: String| encode_utf8(id@))
}

/// A body is excluded when it carries the broadcast marker or a mention of
/// any of the given accounts.
pub open spec fn body_excluded(body: Seq<u8>, ids: Seq<Seq<u8>>) -> bool {
    ||| contains_pattern(body, toall_marker())
    ||| exists|k: int| 0 <= k < ids.len() && contains_pattern(body, mention_marker(ids[k]))
}

/// The message at index `i` is excluded.
pub open spec fn excluded_at(msgs: Seq<Message>, ids: Seq<Seq<u8>>, i: int) -> bool {
    body_excluded(encode_utf8(msgs[i].body@), ids)
}

/// `t` is the selection target: in range, immediately after an excluded
/// message (or the very first index), with nothing excluded at or after it.
/// At most one index satisfies this.
pub open spec fn is_target_index(msgs: Seq<Message>, ids: Seq<Seq<u8>>, t: int) -> bool {
    &&& 0 <= t < msgs.len()
    &&& (t == 0 || excluded_at(msgs, ids, t - 1))
    &&& forall|j: int| t <= j < msgs.len() ==> !excluded_at(msgs, ids, j)
}

/// The selection target as a value: the unique index satisfying
/// [`is_target_index`], if any.
pub open spec fn spec_target_index(msgs: Seq<Message>, ids: Seq<Seq<u8>>) -> Option<int> {
    if exists|t: int| is_target_index(msgs, ids, t) {
        Some(choose|t: int| is_target_index(msgs, ids, t))
    } else {
        None
    }
}

/// The selection target is unique: everything at or after a target is
/// clean, while everything but the first position demands an excluded
/// predecessor.
pub proof fn lemma_target_unique(msgs: Seq<Message>, ids: Seq<Seq<u8>>, t1: int, t2: int)
    requires
        is_target_index(msgs, ids, t1),
        is_target_index(msgs, ids, t2),
    ensures
        t1 == t2,
{
    if t1 < t2 {
        assert(!excluded_at(msgs, ids, t2 - 1));
    }
    if t2 < t1 {
        assert(!excluded_at(msgs, ids, t1 - 1));
    }
}

/// `pat` occurs at position `i` of `hay`.
fn matches_at(hay: &[u8], pat: &[u8], i: usize) -> (r: bool)
    requires
        i + pat@.len() <= hay@.len(),
    ensures
        r == match_at(hay@, pat@, i as int),
{
    let hlen = hay.len();
    let plen = pat.len();
    let mut j: usize = 0;
    while j < plen
        invariant
            hlen == hay@.len(),
            plen == pat@.len(),
            i + plen <= hlen,
            0 <= j <= plen,
            forall|k: int| 0 <= k < j ==> hay@[i + k] == pat@[k],
        decreases plen - j,
    {
        if hay[i + j] != pat[j] {
            assert(hay@.subrange(i as int, i + pat@.len())[j as int] != pat@[j as int]);
            return false;
        }
        j = j + 1;
    }
    proof {
        assert(hay@.subrange(i as int, i + pat@.len()) =~= pat@);
    }
    true
}

/// Literal substring test: `pat` occurs somewhere in `hay`.
fn contains_subslice(hay: &[u8], pat: &[u8]) -> (r: bool)
    ensures
        r == contains_pattern(hay@, pat@),
{
    if pat.len() > hay.len() {
        return false;
    }
    let last = hay.len() - pat.len();
    let mut i: usize = 0;
    loop
        invariant
            pat@.len() <= hay@.len(),
            last == hay@.len() - pat@.len(),
            0 <= i <= last,
            forall|k: int| 0 <= k < i ==> !match_at(hay@, pat@, k),
        ensures
            forall|k: int| 0 <= k <= last ==> !match_at(hay@, pat@, k),
        decreases last - i,
    {
        if matches_at(hay, pat, i) {
            return true;
        }
        if i == last {
            break;
        }
        i = i + 1;
    }
    proof {
        assert forall|k: int| !match_at(hay@, pat@, k) by {
            if match_at(hay@, pat@, k) {
                assert(0 <= k <= last);
            }
        }
    }
    false
}

/// The broadcast marker as bytes.
fn toall_pattern() -> (r: Vec<u8>)
    ensures
        r@ == toall_marker(),
{
    let mut v: Vec<u8> = Vec::new();
    v.push('[' as u8);
    v.push('t' as u8);
    v.push('o' as u8);
    v.push('a' as u8);
    v.push('l' as u8);
    v.push('l' as u8);
    v.push(']' as u8);
    proof {
        assert(v@ =~= toall_marker());
    }
    v
}

/// The mention marker `[To:<id>]` for one account id, as bytes.
fn mention_pattern(id: &str) -> (r: Vec<u8>)
    ensures
        r@ == mention_marker(encode_utf8(id@)),
{
    let id_bytes = id.as_bytes();
    let mut v: Vec<u8> = Vec::new();
    v.push('[' as u8);
    v.push('T' as u8);
    v.push('o' as u8);
    v.push(':' as u8);
    let mut j: usize = 0;
    while j < id_bytes.len()
        invariant
            0 <= j <= id_bytes@.len(),
            id_bytes@ == encode_utf8(id@),
            v@ == seq!['[' as u8, 'T' as u8, 'o' as u8, ':' as u8] + id_bytes@.subrange(
                0,
                j as int,
            ),
        decreases id_bytes@.len() - j,
    {
        v.push(id_bytes[j]);
        proof {
            assert(id_bytes@.subrange(0, j + 1) =~= id_bytes@.subrange(0, j as int).push(
                id_bytes@[j as int],
            ));
        }
        j = j + 1;
    }
    v.push(']' as u8);
    proof {
        assert(id_bytes@.subrange(0, id_bytes@.len() as int) =~= id_bytes@);
        assert(v@ =~= mention_marker(encode_utf8(id@)));
    }
    v
}

/// Whether the message must not be silently acknowledged: its body carries
/// the broadcast marker or a mention of one of the excluded accounts.
pub fn is_message_to_be_excluded(message: &Message, exclude_account_ids: &Vec<String>) -> (r:
    bool)
    ensures
        r == body_excluded(encode_utf8(message.body@), ids_bytes(exclude_account_ids@)),
{
    let body = message.body.as_str().as_bytes();
    let toall = toall_pattern();
    if contains_subslice(body, toall.as_slice()) {
        return true;
    }
    let ghost ids = ids_bytes(exclude_account_ids@);
    let mut k: usize = 0;
    while k < exclude_account_ids.len()
        invariant
            ids == ids_bytes(exclude_account_ids@),
            0 <= k <= exclude_account_ids@.len(),
            body@ == encode_utf8(message.body@),
            forall|n: int| 0 <= n < k ==> !contains_pattern(body@, mention_marker(ids[n])),
        decreases exclude_account_ids@.len() - k,
    {
        let pattern = mention_pattern(exclude_account_ids[k].as_str());
        if contains_subslice(body, pattern.as_slice()) {
            proof {
                assert(ids[k as int] == encode_utf8(exclude_account_ids@[k as int]@));
                assert(contains_pattern(body@, mention_marker(ids[k as int])));
            }
            return true;
        }
        k = k + 1;
    }
    false
}

/// The index of the message to mark as read, if any: the position just after
/// the last excluded message (the first position when nothing is excluded),
/// unless that position falls past the end of the list.
pub fn select_target_index(messages: &Vec<Message>, exclude_account_ids: &Vec<String>) -> (r:
    Option<usize>)
    ensures
        (r is Some) <==> (exists|t: int|
            is_target_index(messages@, ids_bytes(exclude_account_ids@), t)),
        (r matches Some(t) ==> is_target_index(
            messages@,
            ids_bytes(exclude_account_ids@),
            t as int,
        )),
{
    let ghost ids = ids_bytes(exclude_account_ids@);
    let n = messages.len();
    let mut i: usize = n;
    while i > 0
        invariant
            ids == ids_bytes(exclude_account_ids@),
            n == messages@.len(),
            0 <= i <= n,
            forall|j: int| i <= j < n ==> !excluded_at(messages@, ids, j),
        decreases i,
    {
        i = i - 1;
        if is_message_to_be_excluded(&messages[i], exclude_account_ids) {
            // The last excluded message sits at index i; the target is the
            // message right after it, when there is one.
            if i + 1 < n {
                proof {
                    assert(is_target_index(messages@, ids, i + 1));
                }
                return Some(i + 1);
            } else {
                proof {
                    assert forall|t: int| !is_target_index(messages@, ids, t) by {
                        if is_target_index(messages@, ids, t) {
                            // Every index at or after the target is clean,
                            // yet the last message is excluded.
                            assert(!excluded_at(messages@, ids, i as int));
                        }
                    }
                }
                return None;
            }
        }
    }
    if n > 0 {
        proof {
            assert(is_target_index(messages@, ids, 0));
        }
        Some(0)
    } else {
        None
    }
}

} // verus!

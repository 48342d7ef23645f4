//! The messages around a message, in the order in which they were written.
use vstd::prelude::*;

use crate::json::{text, Json, JsonV};
use crate::text::text_less;

verus! {

/// When a message was written; zero where it does not say.
pub open spec fn written_at(m: JsonV) -> int {
    match m.at("create_time"@).as_signed() {
        Some(t) => t,
        None => 0,
    }
}

/// Whether one message comes before another: by the time of writing, then by
/// identifier.
pub open spec fn comes_before(a: JsonV, b: JsonV) -> bool {
    written_at(a) < written_at(b) || (written_at(a) == written_at(b) && crate::text::text_lt(
        a.text_at("message_id"@),
        b.text_at("message_id"@),
    ))
}

/// Ordered messages with one more among them: behind all that do not come
/// after it.
pub open spec fn slotted(s: Seq<JsonV>, m: JsonV) -> Seq<JsonV>
    decreases s.len(),
{
    if s.len() > 0 && comes_before(m, s.last()) {
        slotted(s.drop_last(), m).push(s.last())
    } else {
        s.push(m)
    }
}

/// Messages in order; those that neither comes before the other stay as they
/// were.
pub open spec fn ordered(s: Seq<JsonV>) -> Seq<JsonV>
    decreases s.len(),
{
    if s.len() == 0 {
        s
    } else {
        slotted(ordered(s.drop_last()), s.last())
    }
}

/// Whether no message stands behind one that it comes before.
pub open spec fn in_order(s: Seq<JsonV>) -> bool {
    forall|i: int, k: int| 0 <= i < k < s.len() ==> !comes_before(#[trigger] s[k], #[trigger] s[i])
}

proof fn lemma_before_is_transitive(a: JsonV, b: JsonV, c: JsonV)
    requires
        !comes_before(b, a),
        !comes_before(c, b),
    ensures
        !comes_before(c, a),
{
    let x = a.text_at("message_id"@);
    let y = b.text_at("message_id"@);
    let z = c.text_at("message_id"@);
    if comes_before(c, a) {
        crate::text::lemma_text_lt_total(x, y);
        crate::text::lemma_text_lt_total(y, z);
        if crate::text::text_lt(x, y) && crate::text::text_lt(y, z) {
            crate::text::lemma_text_lt_transitive(x, y, z);
        }
        if crate::text::text_lt(x, z) && crate::text::text_lt(z, x) {
            crate::text::lemma_text_lt_transitive(x, z, x);
        }
        crate::text::lemma_text_lt_irreflexive(x);
    }
}

proof fn lemma_before_is_asymmetric(a: JsonV, b: JsonV)
    requires
        comes_before(a, b),
    ensures
        !comes_before(b, a),
{
    let x = a.text_at("message_id"@);
    let y = b.text_at("message_id"@);
    if comes_before(b, a) {
        crate::text::lemma_text_lt_transitive(x, y, x);
        crate::text::lemma_text_lt_irreflexive(x);
    }
}

proof fn lemma_slotted(s: Seq<JsonV>, m: JsonV)
    requires
        in_order(s),
    ensures
        in_order(slotted(s, m)),
        slotted(s, m).to_multiset() =~= s.to_multiset().insert(m),
        forall|i: int|
            0 <= i < slotted(s, m).len() ==> (#[trigger] slotted(s, m)[i] == m || s.contains(
                slotted(s, m)[i],
            )),
    decreases s.len(),
{
    broadcast use vstd::seq_lib::group_to_multiset_ensures;

    if s.len() > 0 && comes_before(m, s.last()) {
        let front = s.drop_last();
        let r = slotted(front, m);
        lemma_slotted(front, m);
        lemma_before_is_asymmetric(m, s.last());
        assert forall|i: int, k: int| 0 <= i < k < r.push(s.last()).len() implies !comes_before(
            #[trigger] r.push(s.last())[k],
            #[trigger] r.push(s.last())[i],
        ) by {
            if k == r.len() {
                if r[i] != m {
                    assert(front.contains(r[i]));
                    let j = choose|j: int| 0 <= j < front.len() && front[j] == r[i];
                    assert(s[j] == r[i]);
                }
            }
        }
        assert(s =~= front.push(s.last()));
        assert forall|i: int| 0 <= i < slotted(s, m).len() implies (#[trigger] slotted(s, m)[i] == m
            || s.contains(slotted(s, m)[i])) by {
            if i < r.len() {
                assert(slotted(s, m)[i] == r[i]);
                if r[i] != m {
                    assert(front.contains(r[i]));
                    let j = choose|j: int| 0 <= j < front.len() && front[j] == r[i];
                    assert(s[j] == r[i]);
                }
            } else {
                assert(slotted(s, m)[i] == s[s.len() - 1]);
            }
        }
    } else {
        assert forall|i: int, k: int| 0 <= i < k < s.push(m).len() implies !comes_before(
            #[trigger] s.push(m)[k],
            #[trigger] s.push(m)[i],
        ) by {
            if k == s.len() && i < s.len() - 1 {
                lemma_before_is_transitive(s[i], s.last(), m);
            }
        }
        assert forall|i: int| 0 <= i < slotted(s, m).len() implies (#[trigger] slotted(s, m)[i] == m
            || s.contains(slotted(s, m)[i])) by {
            if i < s.len() {
                assert(slotted(s, m)[i] == s[i]);
            }
        }
    }
}

/// Ordering loses no message and adds none, and no message then stands behind
/// one that it comes before.
pub proof fn law_context_is_ordered(s: Seq<JsonV>)
    ensures
        in_order(ordered(s)),
        ordered(s).to_multiset() =~= s.to_multiset(),
    decreases s.len(),
{
    broadcast use vstd::seq_lib::group_to_multiset_ensures;

    if s.len() > 0 {
        law_context_is_ordered(s.drop_last());
        lemma_slotted(ordered(s.drop_last()), s.last());
        assert(s =~= s.drop_last().push(s.last()));
    }
}

fn is_before(a: &Json, b: &Json) -> (r: bool)
    ensures
        r == comes_before(a@, b@),
{
    let s: i64 = match a.signed_at("create_time") {
        Some(t) => t,
        None => 0,
    };
    let t: i64 = match b.signed_at("create_time") {
        Some(t) => t,
        None => 0,
    };
    if s != t {
        return s < t;
    }
    let x = text(a, "message_id");
    let y = text(b, "message_id");
    text_less(x.as_str(), y.as_str())
}

proof fn lemma_slotted_is_insert(s: Seq<JsonV>, m: JsonV, at: int)
    requires
        0 <= at <= s.len(),
        forall|k: int| at <= k < s.len() ==> comes_before(m, #[trigger] s[k]),
        at > 0 ==> !comes_before(m, s[at - 1]),
    ensures
        slotted(s, m) == s.insert(at, m),
    decreases s.len(),
{
    if at < s.len() {
        lemma_slotted_is_insert(s.drop_last(), m, at);
        assert(s.drop_last().insert(at, m).push(s.last()) =~= s.insert(at, m));
    } else {
        assert(s.push(m) =~= s.insert(at, m));
    }
}

/// Puts messages in order.
pub fn order(items: Vec<Json>) -> (r: Vec<Json>)
    ensures
        crate::json::items_view(r@) == ordered(crate::json::items_view(items@)),
{
    let ghost all = crate::json::items_view(items@);
    let ghost given = items@;
    let mut out: Vec<Json> = Vec::new();
    assert(crate::json::items_view(out@) =~= ordered(all.take(0)));
    for m in it: items
        invariant
            it.seq() == given,
            all == crate::json::items_view(given),
            crate::json::items_view(out@) == ordered(all.take(it.index() as int)),
    {
        let ghost before = crate::json::items_view(out@);
        let ghost done = it.index() as int;
        let mut at: usize = out.len();
        while at > 0 && is_before(&m, &out[at - 1])
            invariant
                at <= out@.len(),
                before == crate::json::items_view(out@),
                forall|k: int| at <= k < before.len() ==> comes_before(m@, #[trigger] before[k]),
            decreases at,
        {
            assert(before[at - 1] == out@[at - 1]@);
            at = at - 1;
        }
        proof {
            if at > 0 {
                assert(before[at - 1] == out@[at - 1]@);
            }
            lemma_slotted_is_insert(before, m@, at as int);
            assert(all.take(done + 1).drop_last() =~= all.take(done));
            assert(all.take(done + 1).last() == m@);
        }
        out.insert(at, m);
        assert(crate::json::items_view(out@) =~= before.insert(at as int, m@));
    }
    assert(all.take(all.len() as int) =~= all);
    out
}

/// Whether a message was written at that time and has that identifier.
pub open spec fn is_keyed(m: JsonV, time: int, id: Seq<char>) -> bool {
    written_at(m) == time && m.text_at("message_id"@) == id
}

proof fn lemma_slotted_keeps_equals(s: Seq<JsonV>, m: JsonV, time: int, id: Seq<char>)
    ensures
        slotted(s, m).filter(|x: JsonV| is_keyed(x, time, id)) == if is_keyed(m, time, id) {
            s.filter(|x: JsonV| is_keyed(x, time, id)).push(m)
        } else {
            s.filter(|x: JsonV| is_keyed(x, time, id))
        },
    decreases s.len(),
{
    reveal(Seq::filter);
    let f = |x: JsonV| is_keyed(x, time, id);
    if s.len() > 0 && comes_before(m, s.last()) {
        lemma_slotted_keeps_equals(s.drop_last(), m, time, id);
        let t = slotted(s.drop_last(), m);
        assert(t.push(s.last()).drop_last() =~= t);
        crate::text::lemma_text_lt_irreflexive(id);
    } else {
        assert(s.push(m).drop_last() =~= s);
    }
}

/// Messages of one time and one identifier keep the order that they had.
pub proof fn law_equal_messages_keep_their_order(s: Seq<JsonV>, time: int, id: Seq<char>)
    ensures
        ordered(s).filter(|x: JsonV| is_keyed(x, time, id)) == s.filter(
            |x: JsonV| is_keyed(x, time, id),
        ),
    decreases s.len(),
{
    reveal(Seq::filter);
    if s.len() > 0 {
        law_equal_messages_keep_their_order(s.drop_last(), time, id);
        lemma_slotted_keeps_equals(ordered(s.drop_last()), s.last(), time, id);
    }
}

/// Messages are ordered by the time at which they were written and then by their
/// identifiers. A message that names no time counts as written at zero.
pub proof fn law_messages_are_ordered_by_time(a: JsonV, b: JsonV)
    ensures
        a.at("create_time"@) matches JsonV::Num(n) && n <= i64::MAX ==> written_at(a)
            == a.at("create_time"@)->Num_0,
        !(a.at("create_time"@) is Num) ==> written_at(a) == 0,
        comes_before(a, b) <==> written_at(a) < written_at(b) || (written_at(a) == written_at(b)
            && crate::text::text_lt(a.text_at("message_id"@), b.text_at("message_id"@))),
{
}

} // verus!

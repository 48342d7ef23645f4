//! The messages around a message: what a request for them is answered, from the
//! texts that the archive holds to the items in their order.
use vstd::prelude::*;

use crate::backend::{BackendV, EventV, StageV};
use crate::filter::{ClauseV, Order};
use crate::json::{JsonRead, JsonV};
use crate::model::{Archive, Filed};
use crate::query::Items;
use crate::source::SourceMessageV;
use crate::sql::{AnswerV, Form, SqlV, StatementV};

verus! {

/// What the text of a message holds.
pub open spec fn item_of(m: Filed) -> JsonV {
    value_of(m.data)
}

/// What a text holds, where it can be read.
pub open spec fn value_of(text: Seq<char>) -> JsonV {
    crate::json::json_value(vstd::utf8::encode_utf8(text))->Ok_0
}

/// What the texts of messages hold, one after another.
pub open spec fn items_of(s: Seq<Filed>) -> Seq<JsonV> {
    Seq::new(s.len(), |i: int| item_of(s[i]))
}

/// Whether the text of a message can be read and says when the message was
/// written and which it is.
pub open spec fn is_faithful(m: Filed) -> bool {
    &&& crate::json::json_value(vstd::utf8::encode_utf8(m.data)) is Ok
    &&& item_of(m) is Obj
    &&& item_of(m).at("create_time"@).as_signed() == Some(m.time as int)
    &&& item_of(m).at("message_id"@).as_text() == Some(m.id)
}

/// The messages of a list from so many before a place to so many from it on, as
/// far as the list goes.
pub open spec fn around(s: Seq<Filed>, k: int, count: int) -> Seq<Filed> {
    s.subrange(
        if k > count {
            k - count
        } else {
            0
        },
        if k + count < s.len() {
            k + count
        } else {
            s.len() as int
        },
    )
}

/// The question for the messages around a message.
pub open spec fn context_query(m: Filed, count: i64) -> StatementV {
    crate::sql::st4(
        Form::Context,
        SqlV::Text(m.conversation),
        SqlV::Int(m.time),
        SqlV::Text(m.id),
        SqlV::Int(count),
    )
}

// -------------------------------------------------------------- the two sides

proof fn lemma_where_the_message_stands(
    a: Archive,
    conversation: Seq<char>,
    all: Seq<Filed>,
    k: int,
    i: int,
)
    requires
        crate::model::lists(
            a,
            seq![ClauseV::Conversation(conversation)],
            Order::OldestFirst,
            all,
        ),
        0 <= k < all.len(),
        0 <= i < all.len(),
    ensures
        all[i].conversation == conversation,
        crate::model::precedes(all[i], all[k].time, all[k].id) <==> i < k,
{
    let clauses = seq![ClauseV::Conversation(conversation)];
    assert(crate::model::fits(a, clauses, all[i]));
    assert(crate::model::admits(a, clauses[0], all[i]));
    if i < k {
        assert(crate::model::stands_before(Order::OldestFirst, all[i], all[k]));
    } else if k < i {
        assert(crate::model::stands_before(Order::OldestFirst, all[k], all[i]));
        crate::model::lemma_stands_before_is_asymmetric(Order::OldestFirst, all[k], all[i]);
    } else {
        crate::text::lemma_text_lt_irreflexive(all[k].id);
    }
}

proof fn lemma_conversation_is_listed(
    a: Archive,
    conversation: Seq<char>,
    all: Seq<Filed>,
    m: Filed,
)
    requires
        crate::model::lists(
            a,
            seq![ClauseV::Conversation(conversation)],
            Order::OldestFirst,
            all,
        ),
        a.messages.contains(m),
        m.conversation == conversation,
    ensures
        all.contains(m),
{
    let i = choose|i: int| 0 <= i < a.messages.len() && a.messages[i] == m;
    assert(crate::model::fits(
        a,
        seq![ClauseV::Conversation(conversation)],
        a.messages[i],
    ));
}

proof fn lemma_side_behind(
    a: Archive,
    conversation: Seq<char>,
    all: Seq<Filed>,
    k: int,
    from: Seq<Filed>,
)
    requires
        crate::model::lists(
            a,
            seq![ClauseV::Conversation(conversation)],
            Order::OldestFirst,
            all,
        ),
        0 <= k < all.len(),
        crate::model::lists_side(a, conversation, all[k].time, all[k].id, false, from),
    ensures
        from == all.skip(k),
{
    let rest = all.skip(k);
    assert forall|m: Filed| from.contains(m) <==> #[trigger] rest.contains(m) by {
        if from.contains(m) {
            let i = choose|i: int| 0 <= i < from.len() && from[i] == m;
            assert(a.messages.contains(from[i]));
            lemma_conversation_is_listed(a, conversation, all, m);
            let j = choose|j: int| 0 <= j < all.len() && all[j] == m;
            lemma_where_the_message_stands(a, conversation, all, k, j);
            assert(rest[j - k] == m);
        }
        if rest.contains(m) {
            let j = choose|j: int| 0 <= j < rest.len() && rest[j] == m;
            assert(all[j + k] == m);
            lemma_where_the_message_stands(a, conversation, all, k, j + k);
            assert(a.messages.contains(all[j + k]));
            let i = choose|i: int| 0 <= i < a.messages.len() && a.messages[i] == m;
            assert(from.contains(a.messages[i]));
        }
    }
    assert forall|i: int, j: int| 0 <= i < j < from.len() implies crate::model::stands_before(
        Order::OldestFirst,
        #[trigger] from[i],
        #[trigger] from[j],
    ) by {}
    assert forall|i: int, j: int| 0 <= i < j < rest.len() implies crate::model::stands_before(
        Order::OldestFirst,
        #[trigger] rest[i],
        #[trigger] rest[j],
    ) by {
        assert(rest[i] == all[i + k] && rest[j] == all[j + k]);
    }
    crate::model::lemma_ordered_alike(Order::OldestFirst, from, rest);
}

proof fn lemma_side_before(
    a: Archive,
    conversation: Seq<char>,
    all: Seq<Filed>,
    k: int,
    before: Seq<Filed>,
)
    requires
        crate::model::lists(
            a,
            seq![ClauseV::Conversation(conversation)],
            Order::OldestFirst,
            all,
        ),
        0 <= k < all.len(),
        crate::model::lists_side(a, conversation, all[k].time, all[k].id, true, before),
    ensures
        before == all.take(k).reverse(),
{
    let rest = all.take(k).reverse();
    assert forall|m: Filed| before.contains(m) <==> #[trigger] rest.contains(m) by {
        if before.contains(m) {
            let i = choose|i: int| 0 <= i < before.len() && before[i] == m;
            assert(a.messages.contains(before[i]));
            lemma_conversation_is_listed(a, conversation, all, m);
            let j = choose|j: int| 0 <= j < all.len() && all[j] == m;
            lemma_where_the_message_stands(a, conversation, all, k, j);
            assert(rest[k - 1 - j] == m);
        }
        if rest.contains(m) {
            let j = choose|j: int| 0 <= j < rest.len() && rest[j] == m;
            assert(all[k - 1 - j] == m);
            lemma_where_the_message_stands(a, conversation, all, k, k - 1 - j);
            assert(a.messages.contains(all[k - 1 - j]));
            let i = choose|i: int| 0 <= i < a.messages.len() && a.messages[i] == m;
            assert(before.contains(a.messages[i]));
        }
    }
    assert forall|i: int, j: int| 0 <= i < j < before.len() implies crate::model::stands_before(
        Order::NewestFirst,
        #[trigger] before[i],
        #[trigger] before[j],
    ) by {}
    assert forall|i: int, j: int| 0 <= i < j < rest.len() implies crate::model::stands_before(
        Order::NewestFirst,
        #[trigger] rest[i],
        #[trigger] rest[j],
    ) by {
        assert(rest[i] == all[k - 1 - i] && rest[j] == all[k - 1 - j]);
        assert(crate::model::stands_before(Order::OldestFirst, all[k - 1 - j], all[k - 1 - i]));
    }
    crate::model::lemma_ordered_alike(Order::NewestFirst, before, rest);
}

proof fn lemma_sides_make_the_window(
    a: Archive,
    all: Seq<Filed>,
    k: int,
    count: i64,
    answer: AnswerV,
)
    requires
        crate::model::sound(a),
        0 <= k < all.len(),
        crate::model::lists(
            a,
            seq![ClauseV::Conversation(all[k].conversation)],
            Order::OldestFirst,
            all,
        ),
        count > 0,
        crate::model::tells(a, context_query(all[k], count), answer),
    ensures
        answer is Texts,
        answer->Texts_0.to_multiset() == crate::model::data_in(
            around(all, k, count as int),
        ).to_multiset(),
{
    let m = all[k];
    assert(a.messages.contains(all[k]));
    crate::model::law_context_is_the_window(a, m, count, answer);
    let data = answer->Texts_0;
    let (before, from) = choose|before: Seq<Filed>, from: Seq<Filed>| #[trigger]
        crate::model::lists_side(a, m.conversation, m.time, m.id, true, before) && #[trigger]
        crate::model::lists_side(a, m.conversation, m.time, m.id, false, from) && from.len() > 0
            && from[0] == m && data.to_multiset() == crate::model::data_in(
            crate::model::first_of(before, count as int),
        ).to_multiset().add(
            crate::model::data_in(crate::model::first_of(from, count as int)).to_multiset(),
        );
    lemma_side_before(a, m.conversation, all, k, before);
    lemma_side_behind(a, m.conversation, all, k, from);
    let n = count as int;
    let low: int = if k > n {
        k - n
    } else {
        0
    };
    let high: int = if k + n < all.len() {
        k + n
    } else {
        all.len() as int
    };
    let left = crate::model::data_in(all.subrange(low, k));
    let right = crate::model::data_in(all.subrange(k, high));
    assert(crate::model::data_in(crate::model::first_of(before, n)) =~= left.reverse());
    assert(crate::model::data_in(crate::model::first_of(from, n)) =~= right);
    left.lemma_reverse_to_multiset();
    vstd::seq_lib::lemma_multiset_commutative(left, right);
    assert(crate::model::data_in(around(all, k, n)) =~= left + right);
}

// ------------------------------------------------------------------ the items

proof fn lemma_alike_when_read(s: Seq<Seq<char>>, t: Seq<Seq<char>>)
    requires
        s.to_multiset() == t.to_multiset(),
    ensures
        Seq::new(s.len(), |i: int| value_of(s[i])).to_multiset() == Seq::new(
            t.len(),
            |i: int| value_of(t[i]),
        ).to_multiset(),
    decreases s.len(),
{
    broadcast use vstd::seq_lib::group_to_multiset_ensures;

    let x = Seq::new(s.len(), |i: int| value_of(s[i]));
    let y = Seq::new(t.len(), |i: int| value_of(t[i]));
    assert(s.len() == s.to_multiset().len() && t.len() == t.to_multiset().len());
    if s.len() == 0 {
        assert(x =~= y);
    } else {
        let last = s.last();
        assert(s.contains(s[s.len() - 1]));
        assert(s.to_multiset().count(last) > 0);
        assert(t.contains(last));
        let j = choose|j: int| 0 <= j < t.len() && t[j] == last;
        let front = s.drop_last();
        let rest = t.remove(j);
        assert(s =~= front.push(last));
        assert(front.to_multiset() =~= s.to_multiset().remove(last));
        assert(rest.to_multiset() =~= t.to_multiset().remove(last));
        lemma_alike_when_read(front, rest);
        let p = Seq::new(front.len(), |i: int| value_of(front[i]));
        let q = Seq::new(rest.len(), |i: int| value_of(rest[i]));
        assert(x =~= p.push(value_of(last)));
        assert(y.remove(j) =~= q);
        assert(y[j] == value_of(last));
        assert(y.contains(y[j]));
        assert(y.to_multiset().count(y[j]) > 0);
        assert(q.to_multiset() == y.to_multiset().remove(y[j]));
        assert(y.to_multiset() =~= q.to_multiset().insert(value_of(last)));
    }
}

proof fn lemma_all_are_read(texts: Seq<Seq<char>>)
    requires
        forall|i: int|
            0 <= i < texts.len() ==> crate::json::json_value(
                vstd::utf8::encode_utf8(#[trigger] texts[i]),
            ) is Ok,
    ensures
        crate::query::parsed_items(texts) == Items::Ok(
            Seq::new(texts.len(), |i: int| value_of(texts[i])),
        ),
    decreases texts.len(),
{
    let all = Seq::new(texts.len(), |i: int| value_of(texts[i]));
    if texts.len() == 0 {
        assert(all =~= Seq::empty());
    } else {
        let front = texts.drop_last();
        assert forall|i: int| 0 <= i < front.len() implies crate::json::json_value(
            vstd::utf8::encode_utf8(#[trigger] front[i]),
        ) is Ok by {
            assert(front[i] == texts[i]);
        }
        lemma_all_are_read(front);
        assert(crate::json::json_value(
            vstd::utf8::encode_utf8(texts[texts.len() - 1]),
        ) is Ok);
        assert(all =~= Seq::new(front.len(), |i: int| value_of(front[i])).push(
            value_of(texts.last()),
        ));
    }
}

proof fn lemma_one_order(s: Seq<JsonV>, t: Seq<JsonV>)
    requires
        s.to_multiset() == t.to_multiset(),
        crate::context::in_order(s),
        forall|i: int, k: int|
            0 <= i < k < t.len() ==> crate::context::comes_before(
                #[trigger] t[i],
                #[trigger] t[k],
            ),
    ensures
        s == t,
    decreases s.len(),
{
    broadcast use vstd::seq_lib::group_to_multiset_ensures;

    assert(s.len() == s.to_multiset().len() && t.len() == t.to_multiset().len());
    if s.len() == 0 {
        assert(s =~= t);
    } else {
        let n = s.len() - 1;
        assert(s.contains(s[n]) && t.contains(t[n]));
        assert(s.to_multiset().count(s[n]) > 0 && t.to_multiset().count(t[n]) > 0);
        assert(t.contains(s[n]) && s.contains(t[n]));
        let i = choose|i: int| 0 <= i < t.len() && t[i] == s[n];
        let j = choose|j: int| 0 <= j < s.len() && s[j] == t[n];
        if i < n {
            assert(crate::context::comes_before(t[i], t[n]));
            if j < n {
                assert(!crate::context::comes_before(s[n], s[j]));
            } else {
                crate::text::lemma_text_lt_irreflexive(s[n].text_at("message_id"@));
            }
        }
        let front = s.drop_last();
        let rest = t.drop_last();
        assert(s =~= front.push(s[n]) && t =~= rest.push(t[n]));
        assert(front.to_multiset() =~= s.to_multiset().remove(s[n]));
        assert(rest.to_multiset() =~= t.to_multiset().remove(t[n]));
        assert forall|i: int, k: int| 0 <= i < k < front.len() implies !crate::context::comes_before(
            #[trigger] front[k],
            #[trigger] front[i],
        ) by {
            assert(front[i] == s[i] && front[k] == s[k]);
        }
        assert forall|i: int, k: int| 0 <= i < k < rest.len() implies crate::context::comes_before(
            #[trigger] rest[i],
            #[trigger] rest[k],
        ) by {
            assert(rest[i] == t[i] && rest[k] == t[k]);
        }
        lemma_one_order(front, rest);
    }
}

/// A request for the messages around a message is answered with what the texts
/// of those messages hold, in the order in which they were written: of all
/// messages of its conversation, the nearest before it, the message itself and
/// the nearest after it, as many on either side of its place as were asked for
/// and are there. That holds of every archive whose texts say when their
/// messages were written and which they are.
pub proof fn law_context_is_answered_in_order(
    b: BackendV,
    a: Archive,
    all: Seq<Filed>,
    k: int,
    count: i64,
    home: AnswerV,
    answer: AnswerV,
)
    requires
        crate::model::sound(a),
        0 <= k < all.len(),
        crate::model::lists(
            a,
            seq![ClauseV::Conversation(all[k].conversation)],
            Order::OldestFirst,
            all,
        ),
        forall|i: int| 0 <= i < all.len() ==> is_faithful(#[trigger] all[i]),
        crate::model::is_enabled(a, all[k].conversation),
        count > 0,
        crate::model::tells(a, crate::sql::st1(Form::MessageHome, SqlV::Text(all[k].id)), home),
        crate::model::tells(a, context_query(all[k], count), answer),
    ensures
        crate::backend::serve_step(
            b,
            StageV::Home { id: all[k].id, count },
            EventV::Answers { answers: seq![home] },
        ) == crate::backend::ask(
            b,
            crate::backend::run(seq![context_query(all[k], count)]),
            StageV::Context,
        ),
        crate::backend::serve_step(
            b,
            StageV::Context,
            EventV::Answers { answers: seq![answer] },
        ) == crate::backend::reply(
            b,
            crate::index::items_answer(items_of(around(all, k, count as int))),
        ),
{
    broadcast use vstd::seq_lib::group_to_multiset_ensures;

    assert(a.messages.contains(all[k]));
    crate::model::law_message_is_shown_while_enabled(a, all[k], home);
    assert(seq![home][0] == home && seq![answer][0] == answer);
    lemma_sides_make_the_window(a, all, k, count, answer);
    let data = answer->Texts_0;
    let window = around(all, k, count as int);
    let texts = crate::model::data_in(window);
    let low: int = if k > count {
        k - count
    } else {
        0
    };
    assert forall|i: int| 0 <= i < data.len() implies crate::json::json_value(
        vstd::utf8::encode_utf8(#[trigger] data[i]),
    ) is Ok by {
        assert(data.contains(data[i]));
        assert(data.to_multiset().count(data[i]) > 0);
        assert(texts.contains(data[i]));
        let j = choose|j: int| 0 <= j < texts.len() && texts[j] == data[i];
        assert(window[j] == all[low + j]);
        assert(is_faithful(all[low + j]));
    }
    lemma_all_are_read(data);
    lemma_alike_when_read(data, texts);
    let items = Seq::new(data.len(), |i: int| value_of(data[i]));
    let target = items_of(window);
    assert(target =~= Seq::new(texts.len(), |i: int| value_of(texts[i])));
    crate::context::law_context_is_ordered(items);
    assert forall|i: int, j: int| 0 <= i < j < target.len() implies crate::context::comes_before(
        #[trigger] target[i],
        #[trigger] target[j],
    ) by {
        let m = all[low + i];
        let n = all[low + j];
        assert(window[i] == m && window[j] == n);
        assert(is_faithful(m) && is_faithful(n));
        assert(crate::model::stands_before(Order::OldestFirst, m, n));
    }
    lemma_one_order(crate::context::ordered(items), target);
}

/// What is filed of a message is faithful, wherever its stored text reads back as
/// the message, which filing it promises.
pub proof fn law_filed_text_is_faithful(source: SourceMessageV, filed: Filed)
    requires
        filed.id == crate::index::message_id(source),
        filed.time == source.message.create_time,
        filed.data == crate::json::json_text(crate::index::message_data(source)),
        crate::json::json_value(vstd::utf8::encode_utf8(filed.data)) == JsonRead::Ok(
            crate::json::settled(crate::index::message_data(source)),
        ),
    ensures
        is_faithful(filed),
{
    let j = crate::index::message_data(source);
    let o = j->Obj_0;
    reveal_strlit("message_id");
    reveal_strlit("conversation_id");
    reveal_strlit("member_id");
    reveal_strlit("create_time");
    reveal_strlit("created_at");
    reveal_strlit("sort_seq");
    reveal_strlit("type");
    reveal_strlit("text");
    reveal_strlit("content");
    reveal_strlit("source");
    assert("message_id"@.len() == 10 && "message_id"@[0] == 'm');
    assert("conversation_id"@.len() == 15 && "member_id"@.len() == 9);
    assert("create_time"@.len() == 11);
    assert("created_at"@.len() == 10 && "created_at"@[0] == 'c');
    assert("sort_seq"@.len() == 8);
    assert("type"@.len() == 4 && "type"@[1] == 'y');
    assert("text"@.len() == 4 && "text"@[1] == 'e');
    assert("content"@.len() == 7 && "source"@.len() == 6);
    assert(crate::json::names_differ(o));
    crate::json::law_settling_keeps_members(j, "create_time"@);
    crate::json::law_settling_keeps_members(j, "message_id"@);
    crate::json::lemma_member_at(o, 0);
    crate::json::lemma_member_at(o, 3);
}

} // verus!

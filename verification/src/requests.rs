//! What each request asks for, what bounds it, and what it is refused for.
use vstd::prelude::*;

use crate::backend::{AskV, BackendStepV, BackendV, EntryV, EventV, RoomMemberV, SetupV, StageV};
use crate::cursor::CursorV;
use crate::filter::Order;
use crate::index::{NextV, Outcome, Resolved, StepV};
use crate::json::JsonV;
use crate::query::{Names, Planned};
use crate::source::WechatDbV;
use crate::sql::{AnswerV, Form, SqlV, StatementV};

verus! {

// ------------------------------------------------------------------ bounds

/// A page holds as many messages or members as were asked for, but at least one
/// and at most five hundred. Where no number was asked for that is not below
/// zero, it holds fifty messages or a hundred members.
pub proof fn law_pages_are_bounded(p: JsonV)
    ensures
        p.at("limit"@) matches JsonV::Num(n) ==> {
            &&& 1 <= n <= 500 ==> crate::query::query_limit(p) == n && crate::index::members_limit(
                p,
            ) == n
            &&& n == 0 ==> crate::query::query_limit(p) == 1 && crate::index::members_limit(p) == 1
            &&& n > 500 ==> crate::query::query_limit(p) == 500 && crate::index::members_limit(p)
                == 500
            &&& n < 0 ==> crate::query::query_limit(p) == 50 && crate::index::members_limit(p)
                == 100
        },
        !(p.at("limit"@) is Num) ==> crate::query::query_limit(p) == 50
            && crate::index::members_limit(p) == 100,
{
}

/// As many messages are shown on either side of one as were asked for, but at
/// least one and at most a hundred; twenty where no number was asked for.
pub proof fn law_context_is_bounded(p: JsonV)
    ensures
        p.at("context"@) matches JsonV::Num(n) ==> {
            &&& 1 <= n <= 100 ==> crate::backend::context_count(p) == n
            &&& n < 1 ==> crate::backend::context_count(p) == 1
            &&& 100 < n <= i64::MAX ==> crate::backend::context_count(p) == 100
            &&& n > i64::MAX ==> crate::backend::context_count(p) == 20
        },
        !(p.at("context"@) is Num) ==> crate::backend::context_count(p) == 20,
{
}

/// A page of the source holds as many rows as were asked for, but at least one
/// and at most 512.
pub proof fn law_source_pages_are_bounded(limit: usize)
    ensures
        1 <= limit <= 512 ==> crate::source::page_cap(limit) == limit,
        limit == 0 ==> crate::source::page_cap(limit) == 1,
        limit > 512 ==> crate::source::page_cap(limit) == 512,
{
}

// ----------------------------------------------------------------- filters

/// The texts at the front of a list are those before the first item that is no
/// text.
pub proof fn law_texts_at_the_front(a: Seq<JsonV>)
    ensures
        crate::query::leading_texts(a).len() <= a.len(),
        forall|i: int|
            0 <= i < crate::query::leading_texts(a).len() ==> a[i] == JsonV::Str(
                #[trigger] crate::query::leading_texts(a)[i],
            ),
        crate::query::leading_texts(a).len() < a.len() ==> !(
        a[crate::query::leading_texts(a).len() as int] is Str),
    decreases a.len(),
{
    if a.len() > 0 && a[0] is Str {
        let rest = a.skip(1);
        law_texts_at_the_front(rest);
        let texts = crate::query::leading_texts(a);
        assert forall|i: int| 0 <= i < texts.len() implies a[i] == JsonV::Str(#[trigger] texts[i]) by {
            if i > 0 {
                assert(rest[i - 1] == a[i]);
                assert(texts[i] == crate::query::leading_texts(rest)[i - 1]);
            }
        }
        if texts.len() < a.len() {
            assert(rest[texts.len() - 1] == a[texts.len() as int]);
        }
    }
}

/// Every name in a filter stands for one member: the one that answers to it, or
/// itself where none does. A name that several answer to is refused, and nothing
/// else is.
pub proof fn law_names_stand_for_members(names: Seq<Seq<char>>, found: Seq<Seq<Seq<char>>>)
    requires
        names.len() == found.len(),
    ensures
        crate::query::member_ids(names, found) is Ok <==> forall|i: int|
            0 <= i < found.len() ==> (#[trigger] found[i]).len() <= 1,
        crate::query::member_ids(names, found) matches Ok(ids) ==> ids.len() == names.len()
            && forall|i: int|
            0 <= i < names.len() ==> #[trigger] ids[i] == if found[i].len() == 1 {
                found[i][0]
            } else {
                names[i]
            },
        crate::query::member_ids(names, found) matches Err(e) ==> exists|i: int|
            0 <= i < found.len() && (#[trigger] found[i]).len() > 1 && e == "ambiguous_member: "@
                + crate::json::json_text(crate::json::text_list(found[i])) && forall|k: int|
                0 <= k < i ==> (#[trigger] found[k]).len() <= 1,
{
    lemma_names(names, found);
}

proof fn lemma_names(names: Seq<Seq<char>>, found: Seq<Seq<Seq<char>>>)
    requires
        names.len() <= found.len(),
    ensures
        crate::query::member_ids(names, found) is Ok <==> forall|i: int|
            0 <= i < names.len() ==> (#[trigger] found[i]).len() <= 1,
        crate::query::member_ids(names, found) matches Ok(ids) ==> ids.len() == names.len()
            && forall|i: int|
            0 <= i < names.len() ==> #[trigger] ids[i] == if found[i].len() == 1 {
                found[i][0]
            } else {
                names[i]
            },
        crate::query::member_ids(names, found) matches Err(e) ==> exists|i: int|
            0 <= i < names.len() && (#[trigger] found[i]).len() > 1 && e == "ambiguous_member: "@
                + crate::json::json_text(crate::json::text_list(found[i])) && forall|k: int|
                0 <= k < i ==> (#[trigger] found[k]).len() <= 1,
    decreases names.len(),
{
    if names.len() > 0 {
        let before = names.drop_last();
        let i = names.len() - 1;
        lemma_names(before, found);
        if crate::query::member_ids(before, found) is Ok && found[i].len() > 1 {
            assert(forall|k: int| 0 <= k < i ==> (#[trigger] found[k]).len() <= 1);
        }
    }
}

/// Whether a member of a request names no point in time although it holds text.
pub open spec fn is_no_instant(p: JsonV, name: Seq<char>) -> bool {
    p.at(name) matches JsonV::Str(s) && crate::primitives::rfc3339_instant(s) is None
}

/// Whether the range of time that a request names has an end that is not behind
/// its start.
pub open spec fn is_no_range(p: JsonV) -> bool {
    p.at("start"@) matches JsonV::Str(s) && (p.at("end"@) matches JsonV::Str(t) && (
    crate::primitives::rfc3339_instant(s) matches Some(x) && (crate::primitives::rfc3339_instant(
        t,
    ) matches Some(y) && (y.0 < x.0 || (y.0 == x.0 && y.1 <= x.1)))))
}

/// Whether a filter of a request lists more than a hundred items.
pub open spec fn is_too_long(p: JsonV, name: Seq<char>) -> bool {
    p.at(name) matches JsonV::Arr(a) && a.len() > 100
}

/// Whether a filter of a request lists something other than text.
pub open spec fn lists_no_text(p: JsonV, name: Seq<char>) -> bool {
    p.at(name) matches JsonV::Arr(a) && exists|i: int| 0 <= i < a.len() && !(#[trigger] a[i] is Str)
}

/// Whether a filter by types lists a text that is no type.
pub open spec fn lists_no_type(p: JsonV) -> bool {
    p.at("types"@) matches JsonV::Arr(a) && exists|i: int|
        0 <= i < crate::query::leading_texts(a).len() && !crate::content::is_type(
            #[trigger] crate::query::leading_texts(a)[i],
        )
}

proof fn lemma_front(a: Seq<JsonV>)
    ensures
        crate::query::leading_texts(a).len() < a.len() <==> exists|i: int|
            0 <= i < a.len() && !(#[trigger] a[i] is Str),
{
    law_texts_at_the_front(a);
    let texts = crate::query::leading_texts(a);
    if texts.len() < a.len() {
        assert(!(a[texts.len() as int] is Str));
    } else {
        assert forall|i: int| 0 <= i < a.len() implies #[trigger] a[i] is Str by {
            assert(a[i] == JsonV::Str(texts[i]));
        }
    }
}

/// A request for messages is refused for what is wrong with it, and for nothing
/// else: for a time without a zone, for a range that ends before it begins, for
/// a filter that is too long or lists something other than text, for a name that
/// several members answer to, and for a type that there is not.
pub proof fn law_bad_requests_are_refused(
    p: JsonV,
    updates: bool,
    conversation: Seq<char>,
    snapshot: i64,
    old: Option<CursorV>,
    found: Seq<Seq<Seq<char>>>,
)
    requires
        found.len() == crate::query::member_names(p).len(),
    ensures
        ({
            let q = crate::query::planned_query(p, updates, conversation, snapshot, old, found);
            let times = is_no_instant(p, "start"@) || is_no_instant(p, "end"@);
            let ambiguous = exists|i: int| 0 <= i < found.len() && (#[trigger] found[i]).len() > 1;
            let members = is_too_long(p, "members"@) || ambiguous || lists_no_text(p, "members"@);
            let types = is_too_long(p, "types"@) || lists_no_type(p) || lists_no_text(p, "types"@);
            &&& q is Ok <==> !times && !is_no_range(p) && !members && !types
            &&& times ==> q == Planned::Err("time_requires_RFC3339_timezone"@)
            &&& !times && is_no_range(p) ==> q == Planned::Err("invalid_time_range"@)
            &&& !times && !is_no_range(p) && is_too_long(p, "members"@) ==> q == Planned::Err(
                "too_many_filters"@,
            )
            &&& !times && !is_no_range(p) && !is_too_long(p, "members"@) && !ambiguous
                && lists_no_text(p, "members"@) ==> q == Planned::Err("filter_must_be_string"@)
            &&& !times && !is_no_range(p) && !members && is_too_long(p, "types"@) ==> q
                == Planned::Err("too_many_filters"@)
            &&& !times && !is_no_range(p) && !members && !is_too_long(p, "types"@) && lists_no_type(
                p,
            ) ==> q == Planned::Err("invalid_message_type"@)
            &&& !times && !is_no_range(p) && !members && !is_too_long(p, "types"@)
                && !lists_no_type(p) && lists_no_text(p, "types"@) ==> q == Planned::Err(
                "filter_must_be_string"@,
            )
        }),
{
    if let JsonV::Arr(a) = p.at("members"@) {
        lemma_front(a);
        if a.len() <= 100 {
            law_names_stand_for_members(crate::query::leading_texts(a), found);
        }
    }
    if let JsonV::Arr(a) = p.at("types"@) {
        lemma_front(a);
        let texts = crate::query::leading_texts(a);
        assert(crate::query::all_types(texts) <==> !exists|i: int|
            0 <= i < texts.len() && !crate::content::is_type(#[trigger] texts[i]));
    }
}

/// Messages are asked for in the order that was asked for: the oldest first
/// where the request says so, else the newest first; updates as they were filed.
/// One more is asked for than the page may hold.
pub proof fn law_messages_are_asked_for_in_order(
    p: JsonV,
    updates: bool,
    conversation: Seq<char>,
    snapshot: i64,
    old: Option<CursorV>,
    found: Seq<Seq<Seq<char>>>,
)
    ensures
        crate::query::planned_query(p, updates, conversation, snapshot, old, found) matches Ok(q)
            ==> {
            &&& q.limit == crate::query::query_limit(p) + 1
            &&& updates <==> q.order == Order::AsFiled
            &&& !updates && p.at("order"@) == JsonV::Str("asc"@) <==> q.order == Order::OldestFirst
        },
{
    reveal_strlit("asc");
    assert("asc"@.len() == 3);
}

// ----------------------------------------------------------- conversations

/// A name stands for a conversation exactly where one is found for it. Where
/// none is found it is refused, and where several are, it is refused with all of
/// them.
pub proof fn law_one_conversation_is_found(ids: Seq<Seq<char>>)
    ensures
        crate::index::resolved(ids) is Ok <==> ids.len() == 1,
        ids.len() == 1 ==> crate::index::resolved(ids) == Resolved::Ok(ids[0]),
        ids.len() == 0 ==> crate::index::resolved(ids) == Resolved::Err(
            "conversation_unavailable"@,
        ),
        ids.len() > 1 ==> crate::index::resolved(ids) == Resolved::Err(
            "ambiguous_conversation: "@ + crate::json::json_text(crate::json::text_list(ids)),
        ),
{
}

/// A request goes on with the one conversation that was found for its name, and
/// is refused as the name is where there is none or several.
pub proof fn law_requests_go_on_with_the_conversation(
    index: crate::index::IndexV,
    p: JsonV,
    updates: bool,
    id: Seq<char>,
    ids: Seq<Seq<char>>,
    conversation: Seq<char>,
    scope: Seq<char>,
    snapshot: i64,
    limit: usize,
)
    ensures
        crate::index::index_step(
            index,
            NextV::Conversation { p, updates },
            seq![AnswerV::Texts(seq![id])],
        ) == (StepV::Ask {
            script: crate::index::facts_script(p, id),
            next: NextV::Facts { p, updates, conversation: id },
        }),
        crate::index::index_step(
            index,
            NextV::MembersConversation { p },
            seq![AnswerV::Texts(seq![id])],
        ) == (StepV::Ask {
            script: crate::index::members_facts_script(),
            next: NextV::MembersFacts { p, conversation: id },
        }),
        crate::index::resolved(ids) matches Err(e) ==> crate::index::index_step(
            index,
            NextV::Conversation { p, updates },
            seq![AnswerV::Texts(ids)],
        ) == StepV::Done(Outcome::Err(e)) && crate::index::index_step(
            index,
            NextV::MembersConversation { p },
            seq![AnswerV::Texts(ids)],
        ) == StepV::Done(Outcome::Err(e)),
        crate::index::index_step(
            index,
            NextV::MembersPage { conversation, scope, snapshot, limit },
            seq![AnswerV::Texts(ids)],
        ) == crate::index::members_found(conversation, scope, snapshot, limit, ids),
{
    assert(seq![AnswerV::Texts(seq![id])][0] == AnswerV::Texts(seq![id]));
    assert(seq![AnswerV::Texts(ids)][0] == AnswerV::Texts(ids));
}

/// What has to be known before a request is planned is asked for, and the plan
/// goes by it: the state of the conversation, how often permissions have
/// changed, the newest message, and, for each name in the filter by members, who
/// answers to it.
pub proof fn law_plan_goes_by_the_facts(
    a: crate::model::Archive,
    index: crate::index::IndexV,
    p: JsonV,
    updates: bool,
    conversation: Seq<char>,
    answers: Seq<AnswerV>,
)
    requires
        answers.len() == crate::index::facts_script(p, conversation).len(),
        forall|i: int|
            0 <= i < answers.len() ==> crate::model::tells(
                a,
                #[trigger] crate::index::facts_script(p, conversation)[i],
                answers[i],
            ),
    ensures
        answers.len() == 3 + crate::query::member_names(p).len(),
        crate::model::tells(
            a,
            crate::sql::st1(Form::State, SqlV::Text(conversation)),
            answers[0],
        ),
        answers[1] matches AnswerV::Number(n) && n == a.generation,
        crate::model::tells(a, crate::sql::st0(Form::NewestMessage), answers[2]),
        forall|i: int|
            0 <= i < crate::query::member_names(p).len() ==> crate::model::tells(
                a,
                crate::sql::st2(
                    Form::MemberIds,
                    SqlV::Text(conversation),
                    SqlV::Text(#[trigger] crate::query::member_names(p)[i]),
                ),
                answers[3 + i],
            ),
        answers[0] is Text && answers[2] is Number ==> crate::index::index_step(
            index,
            NextV::Facts { p, updates, conversation },
            answers,
        ) == crate::index::query_planned(
            index,
            p,
            updates,
            conversation,
            answers[0]->Text_0,
            answers[1]->Number_0,
            answers[2]->Number_0,
            Seq::new((answers.len() - 3) as nat, |i: int| answers[3 + i]->Texts_0),
        ),
{
    let script = crate::index::facts_script(p, conversation);
    let names = crate::query::member_names(p);
    assert(script[0] == crate::sql::st1(Form::State, SqlV::Text(conversation)));
    assert(script[1] == crate::sql::st0(Form::Generation));
    assert(script[2] == crate::sql::st0(Form::NewestMessage));
    assert forall|i: int| 0 <= i < names.len() implies script[3 + i] == crate::sql::st2(
        Form::MemberIds,
        SqlV::Text(conversation),
        SqlV::Text(#[trigger] names[i]),
    ) && crate::model::tells(a, script[3 + i], answers[3 + i]) by {}
    assert forall|i: int| 3 <= i < answers.len() implies (#[trigger] answers[i]) is Texts by {
        assert(crate::model::tells(a, script[i], answers[i]));
        assert(script[i] == crate::index::lookups(conversation, names)[i - 3]);
    }
}

/// A conversation that is not ready is not searched: the request is answered
/// with its state.
pub proof fn law_nothing_is_searched_before_it_is_ready(
    index: crate::index::IndexV,
    p: JsonV,
    updates: bool,
    conversation: Seq<char>,
    state: Seq<char>,
    generation: i64,
    newest: i64,
    found: Seq<Seq<Seq<char>>>,
)
    ensures
        state != "ready"@ ==> crate::index::query_planned(
            index,
            p,
            updates,
            conversation,
            state,
            generation,
            newest,
            found,
        ) == StepV::Done(Outcome::Ok(crate::query::not_ready(state))),
        crate::index::query_planned(
            index,
            p,
            updates,
            conversation,
            state,
            generation,
            newest,
            found,
        ) is Ask ==> state == "ready"@,
{
}

/// What is shown of a conversation that is listed is asked for by the text that
/// was given: the enabled ones that it occurs in, or, where the owner asks, all.
pub proof fn law_lists_go_by_what_is_asked(
    a: crate::model::Archive,
    index: crate::index::IndexV,
    q: Seq<char>,
    local: bool,
    answer: AnswerV,
)
    requires
        crate::index::list_begin(q, local) is Ask,
        crate::model::tells(a, crate::index::list_begin(q, local)->script[0], answer),
    ensures
        crate::index::list_begin(q, local)->script.len() == 1,
        crate::index::index_step(
            index,
            crate::index::list_begin(q, local)->next,
            seq![answer],
        ) matches StepV::Done(Ok(page)) && exists|all: Seq<crate::sql::ConversationRowV>|
            #![trigger all.len()]
            page.at("items"@) == JsonV::Arr(
                crate::index::listed_items(crate::model::first_of(all, 200)),
            ) && (forall|c: crate::sql::ConversationRowV| #[trigger]
                all.contains(c) <==> a.conversations.contains(c) && (c.enabled || local) && (
                crate::text::occurs(c.name, q) || crate::text::occurs(c.id, q))) && forall|
                i: int,
                k: int,
            |
                0 <= i < k < all.len() ==> crate::model::listed_before(
                    #[trigger] all[i],
                    #[trigger] all[k],
                ),
{
    let flag: i64 = if local {
        1
    } else {
        0
    };
    let statement = crate::sql::st2(Form::List, SqlV::Text(q), SqlV::Int(flag));
    assert(crate::index::list_begin(q, local)->script[0] == statement);
    crate::dialect::law_no_more_is_told(a, Seq::empty(), q, flag, Seq::empty(), answer);
    let rows = answer->Conversations_0;
    let all = choose|v: Seq<crate::sql::ConversationRowV>| #[trigger]
        crate::model::lists_conversations(a, q, flag, v) && rows == crate::model::first_of(v, 200);
    assert(seq![answer][0] == answer);
    assert forall|c: crate::sql::ConversationRowV| #[trigger] all.contains(c)
        <==> a.conversations.contains(c) && (c.enabled || local) && (crate::text::occurs(c.name, q)
        || crate::text::occurs(c.id, q)) by {
        if all.contains(c) {
            let i = choose|i: int| 0 <= i < all.len() && all[i] == c;
            assert(crate::model::belongs(all[i], q, flag));
        }
        if a.conversations.contains(c) && crate::model::belongs(c, q, flag) {
            let i = choose|i: int| 0 <= i < a.conversations.len() && a.conversations[i] == c;
            assert(crate::model::belongs(a.conversations[i], q, flag));
        }
    }
    assert(all.len() >= 0);
}

/// Opening an archive makes its tables where they are missing, and asks which
/// account it belongs to and which secret it keeps.
pub proof fn law_opening_asks_for_the_account(account: Seq<char>)
    ensures
        crate::index::open_begin(account) == (crate::index::OpenStepV::Ask {
            script: seq![
                crate::sql::st0(Form::Schema),
                crate::sql::st0(Form::StoredAccount),
                crate::sql::st0(Form::CursorKey),
            ],
            next: crate::index::OpenNextV::Read { account },
        }),
{
}

/// A query for messages is followed by the question how often permissions have
/// changed: the cursor that is handed back goes by the answer.
pub proof fn law_pages_go_by_the_permissions_at_their_end(
    index: crate::index::IndexV,
    p: JsonV,
    updates: bool,
    conversation: Seq<char>,
    state: Seq<char>,
    generation: i64,
    newest: i64,
    found: Seq<Seq<Seq<char>>>,
)
    ensures
        crate::index::query_planned(
            index,
            p,
            updates,
            conversation,
            state,
            generation,
            newest,
            found,
        ) matches StepV::Ask { script, next } ==> {
            &&& script.len() == 2
            &&& script[0] is Messages
            &&& script[1] == crate::sql::st0(Form::Generation)
            &&& next matches NextV::Rows { updates: u, limit, scope, snapshot, .. } && u == updates
                && limit == crate::query::query_limit(p) && scope == crate::query::query_scope(
                p,
                updates,
            ) && (updates ==> snapshot == i64::MAX)
        },
{
}

/// A request that presents no cursor begins at the beginning. One that presents
/// a cursor goes on from it, or is refused as the cursor is.
pub proof fn law_cursors_are_taken_as_they_are(
    index: crate::index::IndexV,
    p: JsonV,
    scope: Seq<char>,
    generation: i64,
)
    ensures
        (!(p.at("cursor"@) is Str) || p.at("cursor"@) == JsonV::Str(Seq::empty()))
            ==> crate::index::presented(index, p, scope, generation)
            == crate::index::Presented::Ok(None),
        p.at("cursor"@) matches JsonV::Str(token) && token.len() > 0 ==> match crate::cursor::unsealed(
            index.secret,
            index.account,
            scope,
            generation,
            p.at("cursor"@)->Str_0,
        ) {
            Ok(c) => crate::index::presented(index, p, scope, generation)
                == crate::index::Presented::Ok(Some(c)),
            Err(e) => crate::index::presented(index, p, scope, generation)
                == crate::index::Presented::Err(e),
        },
{
}

/// What has to be known before members are asked for is asked for, and the page
/// goes by it: how often permissions have changed, and the newest member.
pub proof fn law_member_pages_go_by_the_facts(
    a: crate::model::Archive,
    index: crate::index::IndexV,
    p: JsonV,
    conversation: Seq<char>,
    answers: Seq<AnswerV>,
)
    requires
        answers.len() == crate::index::members_facts_script().len(),
        forall|i: int|
            0 <= i < answers.len() ==> crate::model::tells(
                a,
                #[trigger] crate::index::members_facts_script()[i],
                answers[i],
            ),
    ensures
        crate::index::index_step(
            index,
            NextV::MembersFacts { p, conversation },
            answers,
        ) == crate::index::members_planned(
            index,
            p,
            conversation,
            a.generation as i64,
            crate::model::newest_member(a.members) as i64,
        ),
{
    let script = crate::index::members_facts_script();
    assert(script[0] == crate::sql::st0(Form::Generation));
    assert(script[1] == crate::sql::st0(Form::NewestMember));
    assert(crate::model::tells(a, script[0], answers[0]));
    assert(crate::model::tells(a, script[1], answers[1]));
}

/// A page of members is asked for by what was asked: in the conversation, by the
/// text, behind the member at which the cursor stopped, as of when the first
/// page was read, and one more than the page may hold.
pub proof fn law_members_are_asked_for(
    index: crate::index::IndexV,
    p: JsonV,
    conversation: Seq<char>,
    generation: i64,
    newest: i64,
)
    ensures
        ({
            let scope = crate::query::members_scope(conversation, p.text_at("query"@));
            match crate::index::presented(index, p, scope, generation) {
                Err(e) => crate::index::members_planned(index, p, conversation, generation, newest)
                    == StepV::Done(Outcome::Err(e)),
                Ok(old) => crate::index::members_planned(
                    index,
                    p,
                    conversation,
                    generation,
                    newest,
                ) matches StepV::Ask { script, .. } && script == seq![
                    crate::sql::st(
                        Form::MemberPage,
                        seq![
                            SqlV::Text(conversation),
                            SqlV::Text(
                                if old is Some {
                                    old->0.id
                                } else {
                                    Seq::empty()
                                },
                            ),
                            SqlV::Int(
                                if old is Some {
                                    old->0.snapshot
                                } else {
                                    newest
                                },
                            ),
                            SqlV::Text(p.text_at("query"@)),
                            SqlV::Int((crate::index::members_limit(p) + 1) as i64),
                        ],
                    ),
                ],
            }
        }),
{
}

// ----------------------------------------------------------- the backend

/// How the methods are told apart.
proof fn lemma_methods()
    ensures
        "initialize"@.len() == 10,
        "status"@.len() == 6,
        "find_conversations"@.len() == 18,
        "local_list"@.len() == 10,
        "local_discover"@.len() == 14,
        "local_grant"@.len() == 11,
        "local_revoke"@.len() == 12,
        "local_quota"@.len() == 11,
        "sync"@.len() == 4,
        "get_messages"@.len() == 12,
        "search_messages"@.len() == 15,
        "get_updates"@.len() == 11,
        "list_members"@.len() == 12,
        "get_message_context"@.len() == 19,
        "authorize_message"@.len() == 17,
        "get_media"@.len() == 9,
        "get_messages"@[0] == 'g',
        "get_updates"@[0] == 'g',
        "initialize"@[0] == 'i',
        "list_members"@[0] == 'l',
        "list_members"@[1] == 'i',
        "local_grant"@[0] == 'l',
        "local_grant"@[6] == 'g',
        "local_list"@[0] == 'l',
        "local_quota"@[0] == 'l',
        "local_quota"@[6] == 'q',
        "local_revoke"@[0] == 'l',
        "local_revoke"@[1] == 'o',
{
    reveal_strlit("initialize");
    reveal_strlit("status");
    reveal_strlit("find_conversations");
    reveal_strlit("local_list");
    reveal_strlit("local_discover");
    reveal_strlit("local_grant");
    reveal_strlit("local_revoke");
    reveal_strlit("local_quota");
    reveal_strlit("sync");
    reveal_strlit("get_messages");
    reveal_strlit("search_messages");
    reveal_strlit("get_updates");
    reveal_strlit("list_members");
    reveal_strlit("get_message_context");
    reveal_strlit("authorize_message");
    reveal_strlit("get_media");
}

/// Whether a turn leaves the backend as it is and runs these statements, each by
/// itself.
pub open spec fn runs(b: BackendV, turn: crate::backend::Turn, script: Seq<StatementV>, stage: StageV) -> bool {
    &&& turn.backend == b
    &&& turn.step == (BackendStepV::Ask {
        ask: AskV::Statements { script, atomic: false },
        stage,
    })
}

/// Whether a turn leaves the backend as it is and refuses.
pub open spec fn refuses(b: BackendV, turn: crate::backend::Turn, text: Seq<char>) -> bool {
    turn.backend == b && turn.step == BackendStepV::Done(Outcome::Err(text))
}

/// Whether a turn leaves the backend as it is and answers.
pub open spec fn answers_with(b: BackendV, turn: crate::backend::Turn, answer: JsonV) -> bool {
    turn.backend == b && turn.step == BackendStepV::Done(Outcome::Ok(answer))
}

/// What is asked of the archive first: a list by the text asked for, of what may
/// be read or, for the owner, of everything; a conversation by its name, for
/// messages, updates and members; a message by its identifier.
pub proof fn law_requests_ask_the_archive(b: BackendV, p: JsonV)
    requires
        b.index is Some,
    ensures
        runs(
            b,
            crate::backend::requested(b, "find_conversations"@, p),
            seq![crate::sql::st2(Form::List, SqlV::Text(p.text_at("query"@)), SqlV::Int(0))],
            StageV::Archive { next: NextV::Listing },
        ),
        runs(
            b,
            crate::backend::requested(b, "local_list"@, p),
            seq![crate::sql::st2(Form::List, SqlV::Text(Seq::empty()), SqlV::Int(1))],
            StageV::Archive { next: NextV::Listing },
        ),
        runs(
            b,
            crate::backend::requested(b, "get_messages"@, p),
            seq![crate::sql::st1(Form::Resolve, SqlV::Text(p.text_at("conversation"@)))],
            StageV::Archive { next: NextV::Conversation { p, updates: false } },
        ),
        runs(
            b,
            crate::backend::requested(b, "search_messages"@, p),
            seq![crate::sql::st1(Form::Resolve, SqlV::Text(p.text_at("conversation"@)))],
            StageV::Archive { next: NextV::Conversation { p, updates: false } },
        ),
        runs(
            b,
            crate::backend::requested(b, "get_updates"@, p),
            seq![crate::sql::st1(Form::Resolve, SqlV::Text(p.text_at("conversation"@)))],
            StageV::Archive { next: NextV::Conversation { p, updates: true } },
        ),
        runs(
            b,
            crate::backend::requested(b, "list_members"@, p),
            seq![crate::sql::st1(Form::Resolve, SqlV::Text(p.text_at("conversation"@)))],
            StageV::Archive { next: NextV::MembersConversation { p } },
        ),
        runs(
            b,
            crate::backend::requested(b, "get_message_context"@, p),
            seq![crate::sql::st1(Form::MessageHome, SqlV::Text(p.text_at("message_id"@)))],
            StageV::Home {
                id: p.text_at("message_id"@),
                count: crate::backend::context_count(p),
            },
        ),
        runs(
            b,
            crate::backend::requested(b, "authorize_message"@, p),
            seq![crate::sql::st1(Form::MessageData, SqlV::Text(p.text_at("message_id"@)))],
            StageV::Message { media: false },
        ),
        runs(
            b,
            crate::backend::requested(b, "get_media"@, p),
            seq![crate::sql::st1(Form::MessageData, SqlV::Text(p.text_at("message_id"@)))],
            StageV::Message { media: true },
        ),
{
    lemma_methods();
}

/// Contacts are looked for by the text asked for, no more than two hundred, and
/// only where there is a source.
pub proof fn law_contacts_are_looked_for(b: BackendV, p: JsonV, contacts: Seq<crate::backend::ContactV>)
    requires
        b.index is Some,
    ensures
        b.source is None ==> refuses(
            b,
            crate::backend::requested(b, "local_discover"@, p),
            "source_unavailable"@,
        ),
        b.source is Some ==> crate::backend::requested(b, "local_discover"@, p) == (
        crate::backend::Turn {
            backend: b,
            step: BackendStepV::Ask {
                ask: AskV::FindContacts { keyword: p.text_at("query"@), limit: 200 },
                stage: StageV::Contacts,
            },
        }),
        answers_with(
            b,
            crate::backend::serve_step(b, StageV::Contacts, EventV::Contacts { contacts }),
            crate::backend::contact_answer(contacts),
        ),
{
    lemma_methods();
}

/// A quota is set where it is a number of bytes of at least a mebibyte that fits
/// into 64 bits with a sign, and refused in every other case. It is written in
/// decimal.
pub proof fn law_quota_is_set(b: BackendV, p: JsonV)
    requires
        b.index is Some,
    ensures
        p.at("bytes"@) matches JsonV::Num(n) && 1024 * 1024 <= n <= i64::MAX ==> runs(
            b,
            crate::backend::requested(b, "local_quota"@, p),
            seq![
                crate::sql::st1(
                    Form::SetQuota,
                    SqlV::Text(crate::text::decimal(p.at("bytes"@)->Num_0)),
                ),
            ],
            StageV::Acknowledged,
        ),
        !(p.at("bytes"@) matches JsonV::Num(n) && 1024 * 1024 <= n <= i64::MAX) ==> refuses(
            b,
            crate::backend::requested(b, "local_quota"@, p),
            "invalid_quota"@,
        ),
{
    lemma_methods();
}

/// The state is told of the archive as it is: how large the archive and its log
/// are together, the quota, and the conversations that may be read.
pub proof fn law_state_is_measured(
    b: BackendV,
    p: JsonV,
    archive: u64,
    log: u64,
    quota: i64,
    rows: Seq<crate::sql::ConversationRowV>,
)
    requires
        b.index is Some,
        archive + log <= u64::MAX,
    ensures
        crate::backend::requested(b, "status"@, p) == (crate::backend::Turn {
            backend: b,
            step: BackendStepV::Ask { ask: AskV::MeasureArchive, stage: StageV::Measured },
        }),
        runs(
            b,
            crate::backend::serve_step(b, StageV::Measured, EventV::Sizes { archive, log }),
            seq![
                crate::sql::st0(Form::Quota),
                crate::sql::st2(Form::List, SqlV::Text(Seq::empty()), SqlV::Int(0)),
            ],
            StageV::Status { bytes: (archive + log) as u64 },
        ),
        answers_with(
            b,
            crate::backend::serve_step(
                b,
                StageV::Status { bytes: (archive + log) as u64 },
                EventV::Answers { answers: seq![AnswerV::Number(quota), AnswerV::Conversations(rows)] },
            ),
            crate::backend::status_answer(b, (archive + log) as u64, quota, rows),
        ),
{
    lemma_methods();
    let answers = seq![AnswerV::Number(quota), AnswerV::Conversations(rows)];
    assert(answers[0] == AnswerV::Number(quota) && answers[1] == AnswerV::Conversations(rows));
}

/// Setting up checks the request: the key is hexadecimal and of 32 bytes, there
/// is an account, and the number that images are decrypted by, where there is
/// one, is made of at most 32 digits. What is refused is refused for the first
/// of these that fails.
pub proof fn law_set_up_is_checked(b: BackendV, p: JsonV)
    ensures
        ({
            let key = p.text_at("key"@);
            let uin = p.text_at("image_uin"@);
            let turn = crate::backend::requested(b, "initialize"@, p);
            let good_key = crate::primitives::is_hex(key) && key.len() == 64;
            let good_uin = uin.len() <= 32 && forall|i: int|
                0 <= i < uin.len() ==> '0' <= #[trigger] uin[i] <= '9';
            &&& !crate::primitives::is_hex(key) ==> refuses(b, turn, "invalid_key"@)
            &&& crate::primitives::is_hex(key) && key.len() != 64 ==> refuses(
                b,
                turn,
                "invalid_key_length"@,
            )
            &&& good_key && p.text_at("account"@).len() == 0 ==> refuses(
                b,
                turn,
                "account_required"@,
            )
            &&& good_key && p.text_at("account"@).len() > 0 && !good_uin ==> turn.step
                == BackendStepV::Done(Outcome::Err("invalid_image_config"@))
            &&& good_key && p.text_at("account"@).len() > 0 && good_uin ==> turn.step is Ask
        }),
{
    lemma_methods();
    let uin = p.text_at("image_uin"@);
    assert(crate::text::all_digits(uin) <==> forall|i: int|
        0 <= i < uin.len() ==> '0' <= #[trigger] uin[i] <= '9') by {
        if crate::text::all_digits(uin) {
            assert forall|i: int| 0 <= i < uin.len() implies '0' <= #[trigger] uin[i] <= '9' by {
                assert(crate::text::is_digit(uin[i]));
            }
        }
    }
}

/// Setting up goes by the request: the key of images is derived from the number
/// and the account, and where there is no number there is no such key; then the
/// files of an earlier session are looked for beside the archive that was named.
pub proof fn law_set_up_goes_by_the_request(b: BackendV, p: JsonV, key: Seq<u8>)
    requires
        crate::backend::requested(b, "initialize"@, p).step is Ask,
    ensures
        ({
            let setup = SetupV {
                data_root: p.text_at("data_root"@),
                key: crate::primitives::hex_bytes(p.text_at("key"@)),
                account: p.text_at("account"@),
            };
            let uin = p.text_at("image_uin"@);
            let archive = p.text_at("index_path"@);
            let told = BackendV {
                image_config_unavailable: p.at("image_config_unavailable"@) == JsonV::Bool(true),
                ..b
            };
            &&& uin.len() == 0 ==> crate::backend::requested(b, "initialize"@, p) == (
            crate::backend::Turn {
                backend: BackendV { image_key: None, archive_path: archive, ..told },
                step: BackendStepV::Ask {
                    ask: AskV::ListAssets { archive },
                    stage: StageV::Assets { setup },
                },
            })
            &&& uin.len() > 0 ==> crate::backend::requested(b, "initialize"@, p) == (
            crate::backend::Turn {
                backend: told,
                step: BackendStepV::Ask {
                    ask: AskV::DeriveImageKey { uin, account: setup.account },
                    stage: StageV::ImageKey { setup, archive },
                },
            })
            &&& crate::backend::setup_step(
                b,
                StageV::ImageKey { setup, archive },
                EventV::ImageKey { key },
            ) == (crate::backend::Turn {
                backend: BackendV { image_key: Some(key), archive_path: archive, ..b },
                step: BackendStepV::Ask {
                    ask: AskV::ListAssets { archive },
                    stage: StageV::Assets { setup },
                },
            })
        }),
{
    lemma_methods();
}

/// Of the entries beside the archive those are removed that are files and whose
/// names begin with `asset-`: all of them, each once, and no others.
pub proof fn law_files_of_earlier_sessions_are_removed(entries: Seq<EntryV>, i: int)
    requires
        0 <= i < entries.len() <= usize::MAX,
    ensures
        crate::backend::stale(entries).contains(i as usize) <==> entries[i].file
            && entries[i].name.len() >= 6 && entries[i].name.take(6) == "asset-"@,
        forall|k: int|
            0 <= k < crate::backend::stale(entries).len() ==> (
            #[trigger] crate::backend::stale(entries)[k]) < entries.len(),
        forall|k: int, l: int|
            0 <= k < l < crate::backend::stale(entries).len() ==> (
            #[trigger] crate::backend::stale(entries)[k]) < (#[trigger] crate::backend::stale(
                entries,
            )[l]),
    decreases entries.len(),
{
    reveal_strlit("asset-");
    lemma_stale(entries);
    assert(crate::backend::is_stale(entries[i]) <==> entries[i].file && entries[i].name.len() >= 6
        && entries[i].name.take(6) == "asset-"@) by {
        if "asset-"@.is_prefix_of(entries[i].name) {
            assert(entries[i].name.take(6) =~= "asset-"@);
        }
    }
    let which = crate::backend::stale(entries);
    if which.contains(i as usize) {
        let k = choose|k: int| 0 <= k < which.len() && which[k] == i as usize;
        assert(crate::backend::is_stale(entries[which[k] as int]));
    }
}

proof fn lemma_stale(entries: Seq<EntryV>)
    requires
        entries.len() <= usize::MAX,
    ensures
        forall|k: int|
            0 <= k < crate::backend::stale(entries).len() ==> (
            #[trigger] crate::backend::stale(entries)[k]) < entries.len()
                && crate::backend::is_stale(entries[crate::backend::stale(entries)[k] as int]),
        forall|k: int, l: int|
            0 <= k < l < crate::backend::stale(entries).len() ==> (
            #[trigger] crate::backend::stale(entries)[k]) < (#[trigger] crate::backend::stale(
                entries,
            )[l]),
        forall|i: int|
            0 <= i < entries.len() && crate::backend::is_stale(#[trigger] entries[i])
                ==> crate::backend::stale(entries).contains(i as usize),
    decreases entries.len(),
{
    if entries.len() > 0 {
        let before = entries.drop_last();
        lemma_stale(before);
        let which = crate::backend::stale(entries);
        let first = crate::backend::stale(before);
        assert forall|i: int| 0 <= i < entries.len() && crate::backend::is_stale(
            #[trigger] entries[i],
        ) implies which.contains(i as usize) by {
            if i < before.len() {
                assert(crate::backend::is_stale(before[i]));
                let k = choose|k: int| 0 <= k < first.len() && first[k] == i as usize;
                assert(which[k] == i as usize);
            } else {
                assert(which[first.len() as int] == i as usize);
            }
        }
    }
}

/// Setting up goes on from stage to stage: the files found are removed, the
/// archive is opened for the account, it is asked whether half-done imports were
/// restarted already, imports that a column's type had stopped are taken up, and
/// then the source is looked for and opened with the key.
pub proof fn law_set_up_goes_on(
    b: BackendV,
    setup: SetupV,
    entries: Seq<EntryV>,
    index: crate::index::IndexV,
    nested: bool,
    answers: Seq<AnswerV>,
)
    ensures
        crate::backend::setup_step(
            b,
            StageV::Assets { setup },
            EventV::Assets { entries },
        ) == crate::backend::ask(
            b,
            AskV::RemoveAssets { which: crate::backend::stale(entries) },
            StageV::Cleaned { setup },
        ),
        crate::backend::setup_step(b, StageV::Cleaned { setup }, EventV::Done)
            == crate::backend::ask(
            b,
            AskV::OpenArchive { archive: b.archive_path },
            StageV::Connected { setup },
        ),
        crate::backend::setup_step(b, StageV::Connected { setup }, EventV::Done)
            == crate::backend::after_open(
            b,
            setup,
            crate::index::open_begin(setup.account),
        ),
        runs(
            BackendV { index: Some(index), ..b },
            crate::backend::setup_step(b, StageV::Protected { setup, index }, EventV::Done),
            seq![crate::sql::st0(Form::Migrated)],
            StageV::Migrated { setup },
        ),
        runs(
            b,
            crate::backend::setup_step(
                b,
                StageV::Restarted { setup },
                EventV::Answers { answers },
            ),
            seq![crate::sql::st0(Form::RetryColumnErrors)],
            StageV::Retried { setup },
        ),
        crate::backend::setup_step(
            b,
            StageV::Retried { setup },
            EventV::Answers { answers },
        ) == crate::backend::ask(
            BackendV { has_import_work: true, ..b },
            AskV::FindStorage { data_root: setup.data_root },
            StageV::Storage { setup },
        ),
        crate::backend::setup_step(
            b,
            StageV::Storage { setup },
            EventV::Storage { nested },
        ) == crate::backend::ask(
            b,
            AskV::OpenSource { data_root: setup.data_root, nested, key: setup.key },
            StageV::Source,
        ),
{
}

/// The archive is opened step by step: its statements are run, each by itself;
/// once it is open it is protected; and where it cannot be opened the request is
/// refused for that.
pub proof fn law_opening_goes_on(
    b: BackendV,
    setup: SetupV,
    script: Seq<StatementV>,
    next: crate::index::OpenNextV,
    index: crate::index::IndexV,
    text: Seq<char>,
)
    ensures
        runs(
            b,
            crate::backend::after_open(b, setup, crate::index::OpenStepV::Ask { script, next }),
            script,
            StageV::Opening { setup, next },
        ),
        crate::backend::after_open(
            b,
            setup,
            crate::index::OpenStepV::Done(crate::index::Opened::Ok(index)),
        ) == (crate::backend::Turn {
            backend: b,
            step: BackendStepV::Ask {
                ask: AskV::ProtectArchive,
                stage: StageV::Protected { setup, index },
            },
        }),
        refuses(
            b,
            crate::backend::after_open(
                b,
                setup,
                crate::index::OpenStepV::Done(crate::index::Opened::Err(text)),
            ),
            text,
        ),
{
}

/// What the archive, the search for media and a sync ask for is asked for as it
/// is, and what they answer or refuse is answered or refused as it is; a sync
/// that is done is answered so.
pub proof fn law_operations_are_handed_on(
    b: BackendV,
    script: Seq<StatementV>,
    next: NextV,
    r: Outcome,
    msg: JsonV,
    media: crate::media::MediaAskV,
    media_next: crate::media::MediaNextV,
    text: Seq<char>,
)
    ensures
        runs(
            b,
            crate::backend::after_archive(b, StepV::Ask { script, next }),
            script,
            StageV::Archive { next },
        ),
        crate::backend::after_archive(b, StepV::Done(r)) == (crate::backend::Turn {
            backend: b,
            step: BackendStepV::Done(r),
        }),
        crate::backend::after_media(
            b,
            msg,
            crate::media::MediaStepV::Ask { ask: media, next: media_next },
        ) == (crate::backend::Turn {
            backend: b,
            step: BackendStepV::Ask {
                ask: AskV::Media { ask: media },
                stage: StageV::Media { msg, next: media_next },
            },
        }),
        crate::backend::after_media(b, msg, crate::media::MediaStepV::Done(r)) == (
        crate::backend::Turn { backend: b, step: BackendStepV::Done(r) }),
        answers_with(
            b,
            crate::backend::after_sync(b, crate::sync::SyncStepV::Done(crate::import::Imported::Ok(()))),
            crate::backend::flag_answer("ok"),
        ),
        refuses(
            b,
            crate::backend::after_sync(
                b,
                crate::sync::SyncStepV::Done(crate::import::Imported::Err(text)),
            ),
            text,
        ),
{
}

/// A source that cannot be opened leaves the archive readable: there is no
/// source, nothing is imported, and the state says why.
pub proof fn law_archive_is_readable_without_a_source(b: BackendV)
    ensures
        crate::backend::setup_step(b, StageV::Source, EventV::Source { db: None })
            == crate::backend::ask(
            BackendV {
                source: None,
                has_import_work: false,
                error: Some("source_unavailable_or_invalid_key"@),
                ..b
            },
            AskV::MeasureArchive,
            StageV::Measured,
        ),
{
}

/// A source that can be opened is taken up whatever its sessions are like. Its
/// sessions are read only where an index serves that, and the state says which
/// it was.
pub proof fn law_source_is_taken_up(
    b: BackendV,
    db: WechatDbV,
    search: crate::source::SearchV,
    plan: Option<Seq<Seq<char>>>,
    ok: bool,
)
    ensures
        crate::backend::setup_step(
            b,
            StageV::SessionPlan { db, search },
            EventV::SessionPlan { plan },
        ) == if plan is Some && crate::source::is_range_search(plan->0) {
            crate::backend::ask(
                b,
                AskV::ReadSessions { read: search },
                StageV::SessionsRead { db },
            )
        } else {
            crate::backend::ask(
                BackendV {
                    source: Some(db),
                    error: Some("incompatible_session_range_index"@),
                    ..b
                },
                AskV::MeasureArchive,
                StageV::Measured,
            )
        },
        crate::backend::setup_step(
            b,
            StageV::SessionsRead { db },
            EventV::SessionsRead { ok },
        ) == crate::backend::ask(
            BackendV {
                source: Some(db),
                error: Some(
                    if ok {
                        "live_sync_unverified: session timestamp and shard routing are not a durable change log"@
                    } else {
                        "incompatible_session_range_index"@
                    },
                ),
                ..b
            },
            AskV::MeasureArchive,
            StageV::Measured,
        ),
{
}

/// The sessions of a source are described line by line, and then it is asked how
/// they would be read in order: from the first on, one at a time. That very read
/// is run where the plan allows it.
pub proof fn law_sessions_are_probed(b: BackendV, db: WechatDbV, table: Option<crate::backend::SessionTableV>)
    ensures
        ({
            let keys = crate::text::joined(seq!["sort_timestamp"@, "username"@], ","@);
            let sql = "SELECT username,sort_timestamp FROM SessionTable WHERE ("@ + keys
                + ") > (?1,?2) ORDER BY "@ + keys + " LIMIT ?3"@;
            let values = seq![SqlV::Int(0), SqlV::Text(Seq::empty()), SqlV::Int(1)];
            crate::backend::setup_step(
                b,
                StageV::Sessions { db },
                EventV::Sessions { table },
            ) == (crate::backend::Turn {
                backend: BackendV {
                    session_diagnostics: if table is Some {
                        table->0.lines + table->0.plan
                    } else {
                        seq!["schema_diagnostic_failed"@]
                    },
                    ..b
                },
                step: BackendStepV::Ask {
                    ask: AskV::ExplainSessions { sql: "EXPLAIN QUERY PLAN "@ + sql, values },
                    stage: StageV::SessionPlan {
                        db,
                        search: crate::source::SearchV { sql, values },
                    },
                },
            })
        }),
{
    reveal_strlit("sort_timestamp");
    reveal_strlit("username");
    reveal_strlit(",");
    reveal_strlit("SELECT username,sort_timestamp FROM SessionTable WHERE (");
    reveal_strlit(") > (?1,?2) ORDER BY ");
    reveal_strlit(" LIMIT ?3");
    reveal_strlit(
        "SELECT username,sort_timestamp FROM SessionTable WHERE (sort_timestamp,username) > (?1,?2) ORDER BY sort_timestamp,username LIMIT ?3",
    );
    let keys = crate::text::joined(seq!["sort_timestamp"@, "username"@], ","@);
    crate::text::law_parts_are_joined(seq!["sort_timestamp"@], "username"@, ","@);
    assert(seq!["sort_timestamp"@].push("username"@) =~= seq!["sort_timestamp"@, "username"@]);
    assert("SELECT username,sort_timestamp FROM SessionTable WHERE ("@ + keys
        + ") > (?1,?2) ORDER BY "@ + keys + " LIMIT ?3"@ =~= crate::backend::session_probe().sql);
}

/// Allowing a conversation needs a source and an identifier. Once it is allowed,
/// its import begins from every shard of the source, and the members of its
/// groups are noted.
pub proof fn law_permission_begins_the_import(
    b: BackendV,
    p: JsonV,
    id: Seq<char>,
    answers: Seq<AnswerV>,
    rooms: Option<Seq<Seq<RoomMemberV>>>,
)
    requires
        b.index is Some,
    ensures
        b.source is None ==> refuses(
            b,
            crate::backend::requested(b, "local_grant"@, p),
            "source_unavailable"@,
        ),
        b.source is Some && p.text_at("conversation_id"@).len() == 0 ==> refuses(
            b,
            crate::backend::requested(b, "local_grant"@, p),
            "conversation_required"@,
        ),
        b.source is Some && p.text_at("conversation_id"@).len() > 0 ==> crate::backend::requested(
            b,
            "local_grant"@,
            p,
        ) == crate::backend::ask(
            b,
            AskV::Statements {
                script: seq![
                    crate::sql::st2(
                        Form::Grant,
                        SqlV::Text(p.text_at("conversation_id"@)),
                        SqlV::Text(p.text_at("name"@)),
                    ),
                    crate::sql::st0(Form::BumpGeneration),
                ],
                atomic: true,
            },
            StageV::Granted { id: p.text_at("conversation_id"@) },
        ),
        b.source matches Some(db) ==> crate::backend::serve_step(
            b,
            StageV::Granted { id },
            EventV::Answers { answers },
        ) == crate::backend::ask(
            BackendV { has_import_work: true, ..b },
            AskV::Statements {
                script: Seq::new(
                    db.shards.len(),
                    |i: int|
                        crate::sql::st3(
                            Form::InsertPosition,
                            SqlV::Text(id),
                            SqlV::Text(db.shards[i]),
                            SqlV::Text(crate::text::decimal(i64::MIN as int)),
                        ),
                ),
                atomic: false,
            },
            StageV::Positions { id },
        ),
        crate::backend::serve_step(b, StageV::Positions { id }, EventV::Answers { answers })
            == crate::backend::ask(b, AskV::FindRooms { username: id }, StageV::Rooms { id }),
        rooms is None ==> answers_with(
            b,
            crate::backend::serve_step(b, StageV::Rooms { id }, EventV::Rooms { rooms }),
            crate::backend::granted_answer(id),
        ),
        rooms is Some ==> runs(
            b,
            crate::backend::serve_step(b, StageV::Rooms { id }, EventV::Rooms { rooms }),
            crate::backend::rooms_script(id, rooms->0),
            StageV::Members { id },
        ),
        answers_with(
            b,
            crate::backend::serve_step(b, StageV::Members { id }, EventV::Answers { answers }),
            crate::backend::granted_answer(id),
        ),
{
    lemma_methods();
}

/// The members of every group are noted, one by one and in order, each under the
/// name it goes by in the group or, where it has none, under its identifier.
pub proof fn law_members_of_groups_are_noted(
    id: Seq<char>,
    rooms: Seq<Seq<RoomMemberV>>,
    room: Seq<RoomMemberV>,
    m: RoomMemberV,
)
    ensures
        crate::backend::rooms_script(id, Seq::empty()) == Seq::<StatementV>::empty(),
        crate::backend::rooms_script(id, rooms.push(Seq::empty())) == crate::backend::rooms_script(
            id,
            rooms,
        ),
        crate::backend::rooms_script(id, rooms.push(room.push(m))) == crate::backend::rooms_script(
            id,
            rooms.push(room),
        ).push(
            crate::sql::st3(
                Form::InsertNamedMember,
                SqlV::Text(id),
                SqlV::Text(m.user_name),
                SqlV::Text(
                    if m.display_name is Some {
                        m.display_name->0
                    } else {
                        m.user_name
                    },
                ),
            ),
        ),
{
    assert(rooms.push(Seq::<RoomMemberV>::empty()).drop_last() =~= rooms);
    assert(rooms.push(room).drop_last() =~= rooms);
    assert(rooms.push(room.push(m)).drop_last() =~= rooms);
    assert(crate::backend::rooms_script(id, rooms.push(Seq::empty()))
        =~= crate::backend::rooms_script(id, rooms));
    assert(crate::backend::room_script(id, room.push(m)) =~= crate::backend::room_script(
        id,
        room,
    ).push(
        crate::sql::st3(
            Form::InsertNamedMember,
            SqlV::Text(id),
            SqlV::Text(m.user_name),
            SqlV::Text(
                if m.display_name is Some {
                    m.display_name->0
                } else {
                    m.user_name
                },
            ),
        ),
    ));
    assert(crate::backend::rooms_script(id, rooms.push(room.push(m)))
        =~= crate::backend::rooms_script(id, rooms.push(room)).push(
        crate::sql::st3(
            Form::InsertNamedMember,
            SqlV::Text(id),
            SqlV::Text(m.user_name),
            SqlV::Text(
                if m.display_name is Some {
                    m.display_name->0
                } else {
                    m.user_name
                },
            ),
        ),
    ));
}

/// A message that may not be shown is refused, and so are its surroundings and
/// its media. One that may be shown is authorized, or searched for its media in
/// the source.
pub proof fn law_messages_are_shown_or_refused(
    b: BackendV,
    id: Seq<char>,
    count: i64,
    media: bool,
    conversation: Seq<char>,
    time: i64,
    data: Seq<char>,
)
    ensures
        refuses(
            b,
            crate::backend::serve_step(
                b,
                StageV::Message { media },
                EventV::Answers { answers: seq![AnswerV::MaybeText(None)] },
            ),
            "message_unavailable"@,
        ),
        refuses(
            b,
            crate::backend::serve_step(
                b,
                StageV::Home { id, count },
                EventV::Answers { answers: seq![AnswerV::Home(None)] },
            ),
            "message_unavailable"@,
        ),
        runs(
            b,
            crate::backend::serve_step(
                b,
                StageV::Home { id, count },
                EventV::Answers { answers: seq![AnswerV::Home(Some((conversation, time)))] },
            ),
            seq![
                crate::sql::st4(
                    Form::Context,
                    SqlV::Text(conversation),
                    SqlV::Int(time),
                    SqlV::Text(id),
                    SqlV::Int(count),
                ),
            ],
            StageV::Context,
        ),
        crate::json::json_value(vstd::utf8::encode_utf8(data)) matches Ok(msg) ==> {
            let turn = crate::backend::serve_step(
                b,
                StageV::Message { media },
                EventV::Answers { answers: seq![AnswerV::MaybeText(Some(data))] },
            );
            &&& !media ==> answers_with(b, turn, crate::backend::flag_answer("authorized"))
            &&& media && b.source is None ==> refuses(b, turn, "source_unavailable"@)
            &&& media && b.source is Some ==> turn == crate::backend::after_media(
                b,
                msg,
                crate::media::media_begin(b.source->0.has_account_dir, msg),
            )
        },
{
    let none: Option<Seq<char>> = None;
    let some: Option<Seq<char>> = Some(data);
    let nowhere: Option<(Seq<char>, i64)> = None;
    let home = Some((conversation, time));
    assert(seq![AnswerV::MaybeText(none)][0] == AnswerV::MaybeText(none));
    assert(seq![AnswerV::MaybeText(some)][0] == AnswerV::MaybeText(some));
    assert(seq![AnswerV::Home(nowhere)][0] == AnswerV::Home(nowhere));
    assert(seq![AnswerV::Home(home)][0] == AnswerV::Home(home));
}

} // verus!

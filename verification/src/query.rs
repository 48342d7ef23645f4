//! How a request for messages becomes a query: its limits and scope, the
//! conditions it sets, and the page that is made of the rows found.
use vstd::prelude::*;

use crate::content::is_message_type;
use crate::cursor::{Cursor, CursorV};
use crate::fault::Fault;
use crate::filter::{Clause, ClauseV, MessageQuery, MessageQueryV, Order};
use crate::json::{
    list_of, object_of, parse, put, render, str_json, text, texts_json, Field, FieldV, Json, JsonV,
};
use crate::primitives::{digest, hex_encode, parse_rfc3339};
use crate::search::{match_query, trim};
use crate::sql::{MessageRow, MessageRowV};
use crate::text::{concat, same};

verus! {

// ----------------------------------------------------------------- numbers

/// The number asked for, or the usual one, kept between 1 and `most`.
pub open spec fn clamped(asked: Option<int>, usual: int, most: int) -> int {
    let n = match asked {
        Some(n) => n,
        None => usual,
    };
    if n < 1 {
        1
    } else if n > most {
        most
    } else {
        n
    }
}

/// The number that the member `name` asks for, or the usual one, kept between
/// 1 and `most`.
pub fn clamp_at(p: &Json, name: &str, usual: u64, most: u64) -> (r: i64)
    requires
        1 <= most <= i64::MAX,
    ensures
        r == clamped(p@.at(name@).as_unsigned(), usual as int, most as int),
{
    let n: u64 = match p.unsigned_at(name) {
        Some(n) => n,
        None => usual,
    };
    if n < 1 {
        1
    } else if n > most {
        most as i64
    } else {
        n as i64
    }
}

// ------------------------------------------------------------------- scope

/// Whether a member says how to page through an answer rather than what the
/// answer is.
pub open spec fn is_paging(name: Seq<char>) -> bool {
    name == "cursor"@ || name == "limit"@ || name == "wait_seconds"@
}

/// The members that say what an answer is.
pub open spec fn lasting(fields: Seq<FieldV>) -> Seq<FieldV>
    decreases fields.len(),
{
    if fields.len() == 0 {
        Seq::empty()
    } else if is_paging(fields.last().name) {
        lasting(fields.drop_last())
    } else {
        lasting(fields.drop_last()).push(fields.last())
    }
}

/// A request without what says how to page through its answer.
pub open spec fn canonical(p: JsonV) -> JsonV {
    match p {
        JsonV::Obj(fields) => JsonV::Obj(lasting(fields)),
        _ => p,
    }
}

/// The digest of a text, in hexadecimal.
pub open spec fn text_digest(s: Seq<char>) -> Seq<char> {
    crate::primitives::hex_text(crate::primitives::sha256(vstd::utf8::encode_utf8(s)))
}

/// What a request for messages is a request for, however it is paged.
pub open spec fn query_scope(p: JsonV, updates: bool) -> Seq<char> {
    text_digest(
        (if updates {
            "true:"@
        } else {
            "false:"@
        }) + crate::json::json_text(canonical(p)),
    )
}

/// What a request for members is a request for, however it is paged.
pub open spec fn members_scope(conversation: Seq<char>, query: Seq<char>) -> Seq<char> {
    text_digest(
        "members:"@ + crate::json::json_text(crate::json::text_list(seq![conversation, query])),
    )
}

fn digest_text(s: &str) -> (r: String)
    ensures
        r@ == text_digest(s@),
{
    let d = digest(s.as_bytes());
    hex_encode(d.as_slice())
}

fn without_paging(p: &Json) -> (r: Json)
    ensures
        r@ == canonical(p@),
{
    match p {
        Json::Obj(o) => {
            let mut out: Vec<Field> = Vec::new();
            let mut i: usize = 0;
            let ghost all = crate::json::fields_view(o@);
            assert(crate::json::fields_view(out@) =~= lasting(all.take(0)));
            while i < o.len()
                invariant
                    all == crate::json::fields_view(o@),
                    i <= o@.len(),
                    crate::json::fields_view(out@) == lasting(all.take(i as int)),
                decreases o@.len() - i,
            {
                assert(all.take(i + 1).drop_last() =~= all.take(i as int));
                assert(all.take(i + 1).last() == all[i as int]);
                let name = o[i].name.as_str();
                if !same(name, "cursor") && !same(name, "limit") && !same(name, "wait_seconds") {
                    put(&mut out, name, o[i].value.copy());
                }
                i = i + 1;
            }
            assert(all.take(all.len() as int) =~= all);
            Json::Obj(out)
        },
        _ => p.copy(),
    }
}

/// What a request for messages is a request for.
pub fn scope_of_query(p: &Json, updates: bool) -> (r: String)
    ensures
        r@ == query_scope(p@, updates),
{
    let rest = without_paging(p);
    let body = render(&rest);
    let all = concat(
        if updates {
            "true:"
        } else {
            "false:"
        },
        body.as_str(),
    );
    digest_text(all.as_str())
}

/// What a request for members is a request for.
pub fn scope_of_members(conversation: &str, query: &str) -> (r: String)
    ensures
        r@ == members_scope(conversation@, query@),
{
    let both = vec![conversation.to_owned(), query.to_owned()];
    let list = texts_json(&both);
    assert(crate::text::texts_view(both@) =~= seq![conversation@, query@]);
    let body = render(&list);
    let all = concat("members:", body.as_str());
    digest_text(all.as_str())
}

// -------------------------------------------------------------- conditions

/// Conditions, or the text of a refusal.
pub type Clauses = Result<Seq<ClauseV>, Seq<char>>;

/// Whether conditions and a refusal are what `spec` says.
pub open spec fn clauses_are(r: Result<Vec<Clause>, Fault>, spec: Clauses) -> bool {
    match r {
        Ok(v) => spec == Clauses::Ok(crate::filter::clauses_view(v@)),
        Err(f) => spec == Clauses::Err(f@),
    }
}

/// The point in time that a member names, where it holds text.
pub open spec fn instant_at(p: JsonV, name: Seq<char>) -> Option<Option<(i64, u32)>> {
    match p.at(name).as_text() {
        Some(s) => Some(crate::primitives::rfc3339_instant(s)),
        None => None,
    }
}

/// Whether the first point in time comes before the second.
pub open spec fn earlier(a: (i64, u32), b: (i64, u32)) -> bool {
    a.0 < b.0 || (a.0 == b.0 && a.1 < b.1)
}

/// The conditions on the time of a message.
pub open spec fn time_clauses(p: JsonV) -> Clauses {
    let start = instant_at(p, "start"@);
    let end = instant_at(p, "end"@);
    if start == Some(None::<(i64, u32)>) || end == Some(None::<(i64, u32)>) {
        Clauses::Err("time_requires_RFC3339_timezone"@)
    } else {
        match (start, end) {
            (Some(Some(a)), Some(Some(b))) => if earlier(a, b) {
                Clauses::Ok(seq![ClauseV::Since(a.0), ClauseV::Until(b.0)])
            } else {
                Clauses::Err("invalid_time_range"@)
            },
            (Some(Some(a)), _) => Clauses::Ok(seq![ClauseV::Since(a.0)]),
            (_, Some(Some(b))) => Clauses::Ok(seq![ClauseV::Until(b.0)]),
            _ => Clauses::Ok(Seq::empty()),
        }
    }
}

fn time_conditions(p: &Json) -> (r: Result<Vec<Clause>, Fault>)
    ensures
        clauses_are(r, time_clauses(p@)),
{
    let mut out: Vec<Clause> = Vec::new();
    let start = match p.str_at("start") {
        Some(s) => match parse_rfc3339(s.as_str()) {
            Some(t) => Some(t),
            None => {
                return Err(Fault::TimeRequiresZone);
            },
        },
        None => None,
    };
    let end = match p.str_at("end") {
        Some(s) => match parse_rfc3339(s.as_str()) {
            Some(t) => Some(t),
            None => {
                return Err(Fault::TimeRequiresZone);
            },
        },
        None => None,
    };
    if let Some(a) = start {
        out.push(Clause::Since(a.0));
    }
    if let Some(b) = end {
        out.push(Clause::Until(b.0));
    }
    if let (Some(a), Some(b)) = (start, end) {
        if !(a.0 < b.0 || (a.0 == b.0 && a.1 < b.1)) {
            return Err(Fault::InvalidTimeRange);
        }
    }
    assert(crate::filter::clauses_view(out@) =~= time_clauses(p@)->Ok_0);
    Ok(out)
}

/// The texts that a list begins with.
pub open spec fn leading_texts(a: Seq<JsonV>) -> Seq<Seq<char>>
    decreases a.len(),
{
    if a.len() == 0 {
        Seq::empty()
    } else {
        match a[0].as_text() {
            Some(s) => seq![s] + leading_texts(a.skip(1)),
            None => Seq::empty(),
        }
    }
}

fn texts_at_front(a: &Vec<Json>) -> (r: Vec<String>)
    ensures
        crate::text::texts_view(r@) == leading_texts(crate::json::items_view(a@)),
{
    let ghost all = crate::json::items_view(a@);
    let mut out: Vec<String> = Vec::new();
    let mut i: usize = 0;
    assert(all.skip(0) =~= all);
    assert(crate::text::texts_view(out@) + leading_texts(all) =~= leading_texts(all));
    while i < a.len()
        invariant
            all == crate::json::items_view(a@),
            i <= a@.len(),
            crate::text::texts_view(out@) + leading_texts(all.skip(i as int)) == leading_texts(all),
        decreases a@.len() - i,
    {
        let ghost before = out@;
        assert(all.skip(i as int)[0] == a@[i as int]@);
        match a[i].as_str() {
            Some(s) => {
                out.push(s.clone());
                assert(all.skip(i as int).skip(1) =~= all.skip(i + 1));
                assert(crate::text::texts_view(out@) + leading_texts(all.skip(i + 1))
                    =~= crate::text::texts_view(before) + (seq![s@] + leading_texts(
                    all.skip(i + 1),
                )));
            },
            None => {
                assert(crate::text::texts_view(out@) =~= leading_texts(all));
                return out;
            },
        }
        i = i + 1;
    }
    assert(crate::text::texts_view(out@) =~= leading_texts(all));
    out
}

/// The names in the filter by members that have to be looked up.
pub open spec fn member_names(p: JsonV) -> Seq<Seq<char>> {
    match p.at("members"@).as_items() {
        Some(a) => if a.len() > 100 {
            Seq::empty()
        } else {
            leading_texts(a)
        },
        None => Seq::empty(),
    }
}

/// The names in the filter by members that have to be looked up.
pub fn names_of_members(p: &Json) -> (r: Vec<String>)
    ensures
        crate::text::texts_view(r@) == member_names(p@),
{
    match p.items_at("members") {
        Some(a) => {
            if a.len() > 100 {
                let out: Vec<String> = Vec::new();
                assert(crate::text::texts_view(out@) =~= Seq::empty());
                out
            } else {
                texts_at_front(a)
            }
        },
        None => {
            let out: Vec<String> = Vec::new();
            assert(crate::text::texts_view(out@) =~= Seq::empty());
            out
        },
    }
}

/// The members that names stand for, or the text of a refusal.
pub type Names = Result<Seq<Seq<char>>, Seq<char>>;

/// The member that each name stands for: the one it was found to be, or the
/// name itself where none answers to it. A name to which several members
/// answer is refused.
pub open spec fn member_ids(names: Seq<Seq<char>>, found: Seq<Seq<Seq<char>>>) -> Names
    decreases names.len(),
{
    if names.len() == 0 {
        Names::Ok(Seq::empty())
    } else {
        let i = names.len() - 1;
        match member_ids(names.drop_last(), found) {
            Err(e) => Names::Err(e),
            Ok(ids) => if found[i].len() > 1 {
                Names::Err(
                    "ambiguous_member: "@ + crate::json::json_text(
                        crate::json::text_list(found[i]),
                    ),
                )
            } else if found[i].len() == 1 {
                Names::Ok(ids.push(found[i][0]))
            } else {
                Names::Ok(ids.push(names[i]))
            },
        }
    }
}

/// The views of the lists that were found.
pub open spec fn found_view(v: Seq<Vec<String>>) -> Seq<Seq<Seq<char>>> {
    Seq::new(v.len(), |i: int| crate::text::texts_view(v[i]@))
}

/// The condition that a filter by members sets.
pub open spec fn member_clauses(p: JsonV, found: Seq<Seq<Seq<char>>>) -> Clauses {
    match p.at("members"@).as_items() {
        None => Clauses::Ok(Seq::empty()),
        Some(a) => if a.len() == 0 {
            Clauses::Ok(Seq::empty())
        } else if a.len() > 100 {
            Clauses::Err("too_many_filters"@)
        } else {
            match member_ids(leading_texts(a), found) {
                Err(e) => Clauses::Err(e),
                Ok(ids) => if leading_texts(a).len() < a.len() {
                    Clauses::Err("filter_must_be_string"@)
                } else {
                    Clauses::Ok(seq![ClauseV::Members(ids)])
                },
            }
        },
    }
}

proof fn lemma_leading_texts_len(a: Seq<JsonV>)
    ensures
        leading_texts(a).len() <= a.len(),
    decreases a.len(),
{
    if a.len() > 0 && a[0].as_text() is Some {
        lemma_leading_texts_len(a.skip(1));
    }
}

fn member_conditions(p: &Json, found: &Vec<Vec<String>>) -> (r: Result<Vec<Clause>, Fault>)
    requires
        found@.len() == member_names(p@).len(),
    ensures
        clauses_are(r, member_clauses(p@, found_view(found@))),
{
    let mut out: Vec<Clause> = Vec::new();
    let a = match p.items_at("members") {
        Some(a) => a,
        None => {
            assert(crate::filter::clauses_view(out@) =~= Seq::empty());
            return Ok(out);
        },
    };
    if a.len() == 0 {
        assert(crate::filter::clauses_view(out@) =~= Seq::empty());
        return Ok(out);
    }
    if a.len() > 100 {
        return Err(Fault::TooManyFilters);
    }
    let names = texts_at_front(a);
    let mut ids: Vec<String> = Vec::new();
    let mut i: usize = 0;
    let ghost all = crate::text::texts_view(names@);
    let ghost answers = found_view(found@);
    assert(crate::text::texts_view(ids@) =~= Seq::empty());
    while i < names.len()
        invariant
            all == crate::text::texts_view(names@),
            all == leading_texts(crate::json::items_view(a@)),
            answers == found_view(found@),
            found@.len() == all.len(),
            p@.at("members"@).as_items() == Some(crate::json::items_view(a@)),
            0 < a@.len() <= 100,
            i <= names@.len(),
            member_ids(all.take(i as int), answers) == Names::Ok(crate::text::texts_view(ids@)),
        decreases names@.len() - i,
    {
        let ghost before = ids@;
        assert(all.take(i + 1).drop_last() =~= all.take(i as int));
        assert(answers[i as int] == crate::text::texts_view(found@[i as int]@));
        if found[i].len() > 1 {
            let list = texts_json(&found[i]);
            let body = render(&list);
            proof {
                lemma_first_refusal(all, answers, i + 1);
            }
            return Err(Fault::AmbiguousMember(body));
        }
        if found[i].len() == 1 {
            ids.push(found[i][0].clone());
        } else {
            ids.push(names[i].clone());
        }
        assert(crate::text::texts_view(ids@) =~= crate::text::texts_view(before).push(
            ids@.last()@,
        ));
        i = i + 1;
    }
    assert(all.take(all.len() as int) =~= all);
    proof {
        lemma_leading_texts_len(crate::json::items_view(a@));
    }
    if names.len() < a.len() {
        return Err(Fault::FilterMustBeString);
    }
    out.push(Clause::Members(ids));
    assert(crate::filter::clauses_view(out@) =~= seq![
        ClauseV::Members(crate::text::texts_view(ids@)),
    ]);
    Ok(out)
}

proof fn lemma_first_refusal(names: Seq<Seq<char>>, found: Seq<Seq<Seq<char>>>, i: int)
    requires
        0 <= i <= names.len(),
        member_ids(names.take(i), found) is Err,
    ensures
        member_ids(names, found) == member_ids(names.take(i), found),
    decreases names.len(),
{
    if i == names.len() {
        assert(names.take(i) =~= names);
    } else {
        assert(names.drop_last().take(i) =~= names.take(i));
        lemma_first_refusal(names.drop_last(), found, i);
    }
}

/// Whether every text names a type of message.
pub open spec fn all_types(v: Seq<Seq<char>>) -> bool {
    forall|i: int| 0 <= i < v.len() ==> crate::content::is_type(#[trigger] v[i])
}

/// The condition that a filter by types sets.
pub open spec fn type_clauses(p: JsonV) -> Clauses {
    match p.at("types"@).as_items() {
        None => Clauses::Ok(Seq::empty()),
        Some(a) => if a.len() == 0 {
            Clauses::Ok(Seq::empty())
        } else if a.len() > 100 {
            Clauses::Err("too_many_filters"@)
        } else if !all_types(leading_texts(a)) {
            Clauses::Err("invalid_message_type"@)
        } else if leading_texts(a).len() < a.len() {
            Clauses::Err("filter_must_be_string"@)
        } else {
            Clauses::Ok(seq![ClauseV::Types(leading_texts(a))])
        },
    }
}

fn type_conditions(p: &Json) -> (r: Result<Vec<Clause>, Fault>)
    ensures
        clauses_are(r, type_clauses(p@)),
{
    let mut out: Vec<Clause> = Vec::new();
    let a = match p.items_at("types") {
        Some(a) => a,
        None => {
            assert(crate::filter::clauses_view(out@) =~= Seq::empty());
            return Ok(out);
        },
    };
    if a.len() == 0 {
        assert(crate::filter::clauses_view(out@) =~= Seq::empty());
        return Ok(out);
    }
    if a.len() > 100 {
        return Err(Fault::TooManyFilters);
    }
    let names = texts_at_front(a);
    let ghost all = crate::text::texts_view(names@);
    let mut i: usize = 0;
    while i < names.len()
        invariant
            all == crate::text::texts_view(names@),
            all == leading_texts(crate::json::items_view(a@)),
            p@.at("types"@).as_items() == Some(crate::json::items_view(a@)),
            0 < a@.len() <= 100,
            i <= names@.len(),
            forall|k: int| 0 <= k < i ==> crate::content::is_type(#[trigger] all[k]),
        decreases names@.len() - i,
    {
        assert(all[i as int] == names@[i as int]@);
        if !is_message_type(names[i].as_str()) {
            assert(!all_types(all));
            return Err(Fault::InvalidMessageType);
        }
        i = i + 1;
    }
    proof {
        lemma_leading_texts_len(crate::json::items_view(a@));
    }
    if names.len() < a.len() {
        return Err(Fault::FilterMustBeString);
    }
    out.push(Clause::Types(names));
    assert(crate::filter::clauses_view(out@) =~= seq![ClauseV::Types(all)]);
    Ok(out)
}

/// The condition that a keyword sets.
pub open spec fn keyword_clauses(p: JsonV) -> Seq<ClauseV> {
    if crate::search::trimmed(p.text_at("keyword"@)).len() == 0 {
        Seq::empty()
    } else {
        seq![ClauseV::Matching(crate::search::full_text_query(p.text_at("keyword"@)))]
    }
}

/// Whether the newest messages come first: unless the oldest are asked for, or
/// what was filed since.
pub open spec fn newest_first(p: JsonV, updates: bool) -> bool {
    !updates && p.text_at("order"@) != "asc"@
}

/// The condition that keeps to what comes after a cursor.
pub open spec fn position_clauses(p: JsonV, updates: bool, old: Option<CursorV>) -> Seq<ClauseV> {
    if updates {
        seq![ClauseV::FiledAfter(since(old))]
    } else {
        match old {
            Some(c) => if newest_first(p, updates) {
                seq![ClauseV::Before(c.time, c.id)]
            } else {
                seq![ClauseV::After(c.time, c.id)]
            },
            None => Seq::empty(),
        }
    }
}

/// Where a cursor stopped, zero without one.
pub open spec fn since(old: Option<CursorV>) -> i64 {
    match old {
        Some(c) => c.time,
        None => 0,
    }
}

/// The newest message that an answer takes into account: any, where updates
/// are asked for; else what was there when the first page was read.
pub open spec fn snapshot_of(updates: bool, old: Option<CursorV>, newest: i64) -> i64 {
    if updates {
        i64::MAX
    } else {
        match old {
            Some(c) => c.snapshot,
            None => newest,
        }
    }
}

/// The conditions that a request sets, in the order in which they stand.
pub open spec fn query_clauses(
    p: JsonV,
    updates: bool,
    conversation: Seq<char>,
    snapshot: i64,
    old: Option<CursorV>,
    found: Seq<Seq<Seq<char>>>,
) -> Clauses {
    match time_clauses(p) {
        Err(e) => Clauses::Err(e),
        Ok(times) => match member_clauses(p, found) {
            Err(e) => Clauses::Err(e),
            Ok(members) => match type_clauses(p) {
                Err(e) => Clauses::Err(e),
                Ok(types) => Clauses::Ok(
                    seq![ClauseV::Conversation(conversation), ClauseV::UpTo(snapshot)] + times
                        + members + types + keyword_clauses(p) + position_clauses(p, updates, old),
                ),
            },
        },
    }
}

/// The query that a request stands for, or the text of a refusal.
pub type Planned = Result<MessageQueryV, Seq<char>>;

/// The query that a request stands for. One row more than the page may hold is
/// asked for, to tell whether there is more.
pub open spec fn planned_query(
    p: JsonV,
    updates: bool,
    conversation: Seq<char>,
    snapshot: i64,
    old: Option<CursorV>,
    found: Seq<Seq<Seq<char>>>,
) -> Planned {
    match query_clauses(p, updates, conversation, snapshot, old, found) {
        Err(e) => Planned::Err(e),
        Ok(clauses) => Planned::Ok(
            MessageQueryV {
                clauses,
                order: if updates {
                    Order::AsFiled
                } else if newest_first(p, updates) {
                    Order::NewestFirst
                } else {
                    Order::OldestFirst
                },
                limit: (query_limit(p) + 1) as i64,
            },
        ),
    }
}

/// How many messages a page may hold.
pub open spec fn query_limit(p: JsonV) -> int {
    clamped(p.at("limit"@).as_unsigned(), 50, 500)
}

proof fn lemma_lasting_from_the_front(o: Seq<FieldV>)
    requires
        o.len() > 0,
    ensures
        lasting(o) == if is_paging(o[0].name) {
            lasting(o.skip(1))
        } else {
            seq![o[0]] + lasting(o.skip(1))
        },
    decreases o.len(),
{
    reveal_with_fuel(lasting, 2);
    if o.len() == 1 {
        assert(o.drop_last() =~= Seq::empty());
        assert(o.skip(1) =~= Seq::empty());
        assert(lasting(o) =~= if is_paging(o[0].name) {
            Seq::empty()
        } else {
            seq![o[0]]
        });
    } else {
        lemma_lasting_from_the_front(o.drop_last());
        assert(o.drop_last().skip(1) =~= o.skip(1).drop_last());
        assert(lasting(o) =~= if is_paging(o[0].name) {
            lasting(o.skip(1))
        } else {
            seq![o[0]] + lasting(o.skip(1))
        });
    }
}

proof fn lemma_lasting_keeps_members(o: Seq<FieldV>, name: Seq<char>)
    requires
        !is_paging(name),
    ensures
        crate::json::member(lasting(o), name) == crate::json::member(o, name),
    decreases o.len(),
{
    if o.len() > 0 {
        lemma_lasting_from_the_front(o);
        lemma_lasting_keeps_members(o.skip(1), name);
        if !is_paging(o[0].name) {
            assert((seq![o[0]] + lasting(o.skip(1))).skip(1) =~= lasting(o.skip(1)));
        }
    }
}

proof fn lemma_asked_alike(p: JsonV, q: JsonV, name: Seq<char>)
    requires
        canonical(p) == canonical(q),
        !is_paging(name),
    ensures
        p.at(name) == q.at(name),
{
    if let JsonV::Obj(o) = p {
        lemma_lasting_keeps_members(o, name);
    }
    if let JsonV::Obj(o) = q {
        lemma_lasting_keeps_members(o, name);
    }
}

/// What says how to page through an answer does not count, wherever it stands
/// among the members of a request.
pub proof fn law_paging_does_not_count(o: Seq<FieldV>, i: int, f: FieldV)
    requires
        is_paging(f.name),
        0 <= i <= o.len(),
    ensures
        canonical(JsonV::Obj(o.insert(i, f))) == canonical(JsonV::Obj(o)),
    decreases o.len(),
{
    let all = o.insert(i, f);
    if i == o.len() {
        assert(all.drop_last() =~= o);
    } else {
        assert(all.last() == o.last());
        assert(all.drop_last() =~= o.drop_last().insert(i, f));
        law_paging_does_not_count(o.drop_last(), i, f);
        assert(lasting(all.drop_last()) == lasting(o.drop_last()));
    }
}

/// Saying how to page changes neither what a request is a request for nor what
/// it asks for: where two requests are alike but for a cursor, a limit or a time
/// to wait, their scope and their conditions are the same. The cursor of a page
/// is therefore good for the same request, paged in any way.
pub proof fn law_paging_changes_no_request(
    p: JsonV,
    q: JsonV,
    updates: bool,
    conversation: Seq<char>,
    snapshot: i64,
    old: Option<CursorV>,
    found: Seq<Seq<Seq<char>>>,
)
    requires
        canonical(p) == canonical(q),
    ensures
        query_scope(p, updates) == query_scope(q, updates),
        p.text_at("conversation"@) == q.text_at("conversation"@),
        p.text_at("query"@) == q.text_at("query"@),
        member_names(p) == member_names(q),
        query_clauses(p, updates, conversation, snapshot, old, found) == query_clauses(
            q,
            updates,
            conversation,
            snapshot,
            old,
            found,
        ),
        newest_first(p, updates) == newest_first(q, updates),
{
    reveal_strlit("cursor");
    reveal_strlit("limit");
    reveal_strlit("wait_seconds");
    reveal_strlit("start");
    reveal_strlit("end");
    reveal_strlit("members");
    reveal_strlit("types");
    reveal_strlit("keyword");
    reveal_strlit("order");
    reveal_strlit("conversation");
    reveal_strlit("query");
    assert("limit"@[0] == 'l' && "start"@[0] == 's' && "types"@[0] == 't' && "order"@[0] == 'o');
    assert("wait_seconds"@[0] == 'w' && "conversation"@[0] == 'c' && "query"@[0] == 'q');
    assert("cursor"@.len() == 6 && "members"@.len() == 7 && "keyword"@.len() == 7);
    assert("end"@.len() == 3 && "conversation"@.len() == 12);
    lemma_asked_alike(p, q, "start"@);
    lemma_asked_alike(p, q, "end"@);
    lemma_asked_alike(p, q, "members"@);
    lemma_asked_alike(p, q, "types"@);
    lemma_asked_alike(p, q, "keyword"@);
    lemma_asked_alike(p, q, "order"@);
    lemma_asked_alike(p, q, "conversation"@);
    lemma_asked_alike(p, q, "query"@);
}

/// The view of a cursor that may be missing.
pub open spec fn old_view(old: Option<Cursor>) -> Option<CursorV> {
    match old {
        Some(c) => Some(c@),
        None => None,
    }
}

/// The query that a request stands for.
pub fn plan_query(
    p: &Json,
    updates: bool,
    conversation: &str,
    snapshot: i64,
    old: &Option<Cursor>,
    found: &Vec<Vec<String>>,
) -> (r: Result<MessageQuery, Fault>)
    requires
        found@.len() == member_names(p@).len(),
    ensures
        match r {
            Ok(q) => planned_query(
                p@,
                updates,
                conversation@,
                snapshot,
                old_view(*old),
                found_view(found@),
            ) == Planned::Ok(q@),
            Err(f) => planned_query(
                p@,
                updates,
                conversation@,
                snapshot,
                old_view(*old),
                found_view(found@),
            ) == Planned::Err(f@),
        },
{
    let limit: i64 = clamp_at(p, "limit", 50, 500);
    let order_text = text(p, "order");
    let desc = !updates && !same(order_text.as_str(), "asc");
    let mut clauses = vec![Clause::Conversation(conversation.to_owned()), Clause::UpTo(snapshot)];
    let ghost c0 = clauses@;
    let mut times = match time_conditions(p) {
        Ok(v) => v,
        Err(f) => {
            return Err(f);
        },
    };
    let mut members = match member_conditions(p, found) {
        Ok(v) => v,
        Err(f) => {
            return Err(f);
        },
    };
    let mut types = match type_conditions(p) {
        Ok(v) => v,
        Err(f) => {
            return Err(f);
        },
    };
    let ghost (c1, c2, c3) = (times@, members@, types@);
    clauses.append(&mut times);
    clauses.append(&mut members);
    clauses.append(&mut types);
    let keyword = text(p, "keyword");
    let core = trim(keyword.as_str());
    let mut rest: Vec<Clause> = Vec::new();
    if !core.as_str().is_empty() {
        rest.push(Clause::Matching(match_query(keyword.as_str())));
    }
    assert(crate::filter::clauses_view(rest@) =~= keyword_clauses(p@));
    let ghost c4 = rest@;
    clauses.append(&mut rest);
    let mut place: Vec<Clause> = Vec::new();
    if updates {
        place.push(
            Clause::FiledAfter(
                match old {
                    Some(c) => c.time,
                    None => 0,
                },
            ),
        );
    } else if let Some(c) = old {
        if desc {
            place.push(Clause::Before(c.time, c.id.clone()));
        } else {
            place.push(Clause::After(c.time, c.id.clone()));
        }
    }
    assert(crate::filter::clauses_view(place@) =~= position_clauses(p@, updates, old_view(*old)));
    let ghost c5 = place@;
    clauses.append(&mut place);
    let order = if updates {
        Order::AsFiled
    } else if desc {
        Order::NewestFirst
    } else {
        Order::OldestFirst
    };
    assert(crate::filter::clauses_view(c0) =~= seq![
        ClauseV::Conversation(conversation@),
        ClauseV::UpTo(snapshot),
    ]);
    assert(crate::filter::clauses_view(clauses@) =~= crate::filter::clauses_view(c0)
        + crate::filter::clauses_view(c1) + crate::filter::clauses_view(c2)
        + crate::filter::clauses_view(c3) + crate::filter::clauses_view(c4)
        + crate::filter::clauses_view(c5));
    Ok(MessageQuery { clauses, order, limit: limit + 1 })
}

// -------------------------------------------------------------------- pages

/// Values that were read, or the text of an error.
pub type Items = Result<Seq<JsonV>, Seq<char>>;

/// What each text holds as JSON; the first that holds none ends it.
pub open spec fn parsed_items(texts: Seq<Seq<char>>) -> Items
    decreases texts.len(),
{
    if texts.len() == 0 {
        Items::Ok(Seq::empty())
    } else {
        match parsed_items(texts.drop_last()) {
            Err(e) => Items::Err(e),
            Ok(items) => match crate::json::json_value(vstd::utf8::encode_utf8(texts.last())) {
                Err(e) => Items::Err(e),
                Ok(j) => Items::Ok(items.push(j)),
            },
        }
    }
}

proof fn lemma_first_bad_item(texts: Seq<Seq<char>>, i: int)
    requires
        0 <= i <= texts.len(),
        parsed_items(texts.take(i)) is Err,
    ensures
        parsed_items(texts) == parsed_items(texts.take(i)),
    decreases texts.len(),
{
    if i == texts.len() {
        assert(texts.take(i) =~= texts);
    } else {
        assert(texts.drop_last().take(i) =~= texts.take(i));
        lemma_first_bad_item(texts.drop_last(), i);
    }
}

/// What each text holds as JSON.
pub fn parse_items(texts: &Vec<String>) -> (r: Result<Vec<Json>, Fault>)
    ensures
        match r {
            Ok(v) => parsed_items(crate::text::texts_view(texts@)) == Items::Ok(
                crate::json::items_view(v@),
            ),
            Err(f) => parsed_items(crate::text::texts_view(texts@)) == Items::Err(f@),
        },
{
    let ghost all = crate::text::texts_view(texts@);
    let mut out: Vec<Json> = Vec::new();
    let mut i: usize = 0;
    assert(crate::json::items_view(out@) =~= Seq::empty());
    while i < texts.len()
        invariant
            all == crate::text::texts_view(texts@),
            i <= texts@.len(),
            parsed_items(all.take(i as int)) == Items::Ok(crate::json::items_view(out@)),
        decreases texts@.len() - i,
    {
        let ghost before = out@;
        assert(all.take(i + 1).drop_last() =~= all.take(i as int));
        assert(all.take(i + 1).last() == texts@[i as int]@);
        match parse(texts[i].as_str().as_bytes()) {
            Ok(j) => {
                out.push(j);
                assert(crate::json::items_view(out@) =~= crate::json::items_view(before).push(j@));
            },
            Err(e) => {
                proof {
                    lemma_first_bad_item(all, i + 1);
                }
                return Err(Fault::Other(e));
            },
        }
        i = i + 1;
    }
    assert(all.take(all.len() as int) =~= all);
    Ok(out)
}

/// The rows that fit a page.
pub open spec fn shown(rows: Seq<MessageRowV>, limit: int) -> Seq<MessageRowV> {
    if rows.len() > limit {
        rows.take(limit)
    } else {
        rows
    }
}

/// The stored forms of a list of rows.
pub open spec fn data_of(rows: Seq<MessageRowV>) -> Seq<Seq<char>> {
    Seq::new(rows.len(), |i: int| rows[i].data)
}

/// Where a page stopped: the number of its last message, where updates are
/// asked for, else its time, and its identifier. A page of updates that holds
/// nothing stops where it began; any other such page stops nowhere.
pub open spec fn stopped(rows: Seq<MessageRowV>, updates: bool, since: i64) -> Option<
    (i64, Seq<char>),
> {
    if rows.len() > 0 {
        Some(
            (
                if updates {
                    rows.last().seq
                } else {
                    rows.last().time
                },
                rows.last().id,
            ),
        )
    } else if updates {
        Some((since, Seq::empty()))
    } else {
        None
    }
}

/// The answer that holds a page of messages.
pub open spec fn message_page(items: Seq<JsonV>, more: bool, cursor: Option<Seq<char>>) -> JsonV {
    crate::json::object(
        seq![
            crate::json::field_v("items", JsonV::Arr(items)),
            crate::json::field_v("has_more", JsonV::Bool(more)),
            crate::json::field_v("next_cursor", crate::json::text_or_null(cursor)),
            crate::json::field_v("archive_semantics", JsonV::Str("first_observed"@)),
            crate::json::field_v("index_state", JsonV::Str("ready"@)),
        ],
    )
}

/// The answer to a query of a conversation that is not ready.
pub open spec fn not_ready(state: Seq<char>) -> JsonV {
    crate::json::object(
        seq![
            crate::json::field_v("state", JsonV::Str(state)),
            crate::json::field_v("items", JsonV::Arr(Seq::empty())),
        ],
    )
}

/// A text, or `Null` where there is none.
pub fn text_or_null_json(s: Option<String>) -> (r: Json)
    ensures
        r@ == crate::json::text_or_null(
            match s {
                Some(s) => Some(s@),
                None => None,
            },
        ),
{
    match s {
        Some(s) => Json::Str(s),
        None => Json::Null,
    }
}

/// The answer that holds a page of messages.
pub fn page_json(items: Vec<Json>, more: bool, cursor: Option<String>) -> (r: Json)
    ensures
        r@ == message_page(
            crate::json::items_view(items@),
            more,
            match cursor {
                Some(s) => Some(s@),
                None => None,
            },
        ),
{
    let mut o: Vec<Field> = Vec::new();
    assert(crate::json::fields_view(o@) =~= Seq::empty());
    let ghost list = crate::json::items_view(items@);
    put(&mut o, "items", list_of(items));
    put(&mut o, "has_more", Json::Bool(more));
    put(&mut o, "next_cursor", text_or_null_json(cursor));
    put(&mut o, "archive_semantics", str_json("first_observed"));
    put(&mut o, "index_state", str_json("ready"));
    assert(crate::json::fields_view(o@) =~= message_page(
        list,
        more,
        match cursor {
            Some(s) => Some(s@),
            None => None,
        },
    )->Obj_0);
    object_of(o)
}

/// The answer to a query of a conversation that is not ready.
pub fn not_ready_json(state: &str) -> (r: Json)
    ensures
        r@ == not_ready(state@),
{
    let mut o: Vec<Field> = Vec::new();
    let none: Vec<Json> = Vec::new();
    assert(crate::json::fields_view(o@) =~= Seq::empty());
    assert(crate::json::items_view(none@) =~= Seq::empty());
    put(&mut o, "state", str_json(state));
    put(&mut o, "items", list_of(none));
    assert(crate::json::fields_view(o@) =~= not_ready(state@)->Obj_0);
    object_of(o)
}

/// The stored forms of the rows that fit a page.
pub fn shown_data(rows: &Vec<MessageRow>, limit: usize) -> (r: Vec<String>)
    ensures
        crate::text::texts_view(r@) == data_of(shown(crate::sql::rows_view(rows@), limit as int)),
{
    let n: usize = if rows.len() > limit {
        limit
    } else {
        rows.len()
    };
    let mut out: Vec<String> = Vec::new();
    let mut i: usize = 0;
    while i < n
        invariant
            i <= n <= rows@.len(),
            out@.len() == i,
            forall|k: int| 0 <= k < i ==> (#[trigger] out@[k])@ == rows@[k].data@,
        decreases n - i,
    {
        out.push(rows[i].data.clone());
        i = i + 1;
    }
    assert(crate::text::texts_view(out@) =~= data_of(
        shown(crate::sql::rows_view(rows@), limit as int),
    ));
    out
}

/// What a cursor is bound to tells requests apart: it is the digest of a text
/// that names the kind of request, and behind it all of the request but what
/// pages through its answer. The texts of two kinds are never the same, and
/// those of two requests of one kind are the same only where the requests are
/// written the same.
pub proof fn law_scopes_tell_requests_apart(
    p: JsonV,
    q: JsonV,
    conversation: Seq<char>,
    query: Seq<char>,
)
    ensures
        exists|s: Seq<char>, t: Seq<char>, m: Seq<char>|
            query_scope(p, true) == #[trigger] text_digest(s) && query_scope(q, false)
                == #[trigger] text_digest(t) && members_scope(conversation, query)
                == #[trigger] text_digest(m) && s != t && s != m && t != m,
        forall|updates: bool|
            #![trigger query_scope(p, updates)]
            exists|s: Seq<char>, t: Seq<char>|
                query_scope(p, updates) == #[trigger] text_digest(s) && query_scope(q, updates)
                    == #[trigger] text_digest(t) && (s == t ==> crate::json::json_text(canonical(p))
                    == crate::json::json_text(canonical(q))),
        exists|m: Seq<char>| #[trigger]
            text_digest(m) == members_scope(conversation, query) && m.skip(8)
                == crate::json::json_text(crate::json::text_list(seq![conversation, query])),
{
    reveal_strlit("true:");
    reveal_strlit("false:");
    reveal_strlit("members:");
    let tp = crate::json::json_text(canonical(p));
    let tq = crate::json::json_text(canonical(q));
    let tm = crate::json::json_text(crate::json::text_list(seq![conversation, query]));
    let s = "true:"@ + tp;
    let t = "false:"@ + tq;
    let m = "members:"@ + tm;
    assert(s[0] == 't' && t[0] == 'f' && m[0] == 'm');
    assert(query_scope(p, true) == text_digest(s));
    assert(query_scope(q, false) == text_digest(t));
    assert(members_scope(conversation, query) == text_digest(m));
    assert(m.skip(8) =~= tm);
    assert forall|updates: bool| #![trigger query_scope(p, updates)] exists|
        s: Seq<char>,
        t: Seq<char>,
    |
        query_scope(p, updates) == #[trigger] text_digest(s) && query_scope(q, updates)
            == #[trigger] text_digest(t) && (s == t ==> tp == tq) by {
        let head = if updates {
            "true:"@
        } else {
            "false:"@
        };
        assert((head + tp).skip(head.len() as int) =~= tp);
        assert((head + tq).skip(head.len() as int) =~= tq);
        assert(query_scope(p, updates) == text_digest(head + tp));
        assert(query_scope(q, updates) == text_digest(head + tq));
    }
}

/// What pages through an answer are the cursor, the limit and the time to wait,
/// and nothing else. All other members of a request count, each as it is and in
/// its place.
pub proof fn law_all_but_paging_counts(o: Seq<FieldV>, f: FieldV)
    ensures
        is_paging(f.name) <==> f.name == "cursor"@ || f.name == "limit"@ || f.name
            == "wait_seconds"@,
        canonical(JsonV::Obj(Seq::empty())) == JsonV::Obj(Seq::empty()),
        is_paging(f.name) ==> canonical(JsonV::Obj(o.push(f))) == canonical(JsonV::Obj(o)),
        !is_paging(f.name) ==> canonical(JsonV::Obj(o.push(f))) == JsonV::Obj(
            canonical(JsonV::Obj(o))->Obj_0.push(f),
        ),
{
    assert(o.push(f).drop_last() =~= o);
}

/// Stored texts are read one by one, each as the JSON that it holds; where one
/// holds none, nothing is shown, and the first such text says why.
pub proof fn law_stored_texts_are_read(texts: Seq<Seq<char>>)
    ensures
        parsed_items(texts) matches Ok(items) ==> items.len() == texts.len() && forall|i: int|
            0 <= i < texts.len() ==> crate::json::json_value(
                vstd::utf8::encode_utf8(#[trigger] texts[i]),
            ) == crate::json::JsonRead::Ok(items[i]),
        parsed_items(texts) matches Err(e) ==> exists|i: int|
            0 <= i < texts.len() && crate::json::json_value(
                vstd::utf8::encode_utf8(#[trigger] texts[i]),
            ) == crate::json::JsonRead::Err(e) && forall|k: int|
                0 <= k < i ==> crate::json::json_value(
                    vstd::utf8::encode_utf8(#[trigger] texts[k]),
                ) is Ok,
    decreases texts.len(),
{
    if texts.len() > 0 {
        let before = texts.drop_last();
        law_stored_texts_are_read(before);
        if let Ok(items) = parsed_items(texts) {
            let first = parsed_items(before)->Ok_0;
            assert forall|i: int| 0 <= i < texts.len() implies crate::json::json_value(
                vstd::utf8::encode_utf8(#[trigger] texts[i]),
            ) == crate::json::JsonRead::Ok(items[i]) by {
                if i < before.len() {
                    assert(before[i] == texts[i]);
                }
            }
        } else if let Err(e) = parsed_items(before) {
            let i = choose|i: int|
                0 <= i < before.len() && crate::json::json_value(
                    vstd::utf8::encode_utf8(#[trigger] before[i]),
                ) == crate::json::JsonRead::Err(e) && forall|k: int|
                    0 <= k < i ==> crate::json::json_value(
                        vstd::utf8::encode_utf8(#[trigger] before[k]),
                    ) is Ok;
            assert(before[i] == texts[i]);
            assert forall|k: int| 0 <= k < i implies crate::json::json_value(
                vstd::utf8::encode_utf8(#[trigger] texts[k]),
            ) is Ok by {
                assert(before[k] == texts[k]);
            }
        } else {
            let n = texts.len() - 1;
            assert forall|k: int| 0 <= k < n implies crate::json::json_value(
                vstd::utf8::encode_utf8(#[trigger] texts[k]),
            ) is Ok by {
                assert(before[k] == texts[k]);
            }
            assert(texts[n] == texts.last());
        }
    }
}

/// A page shows the rows found from the first on, as many as it may hold, and
/// stops at the last that it shows: at its time, or at its number where updates
/// are asked for. A page that shows nothing stops nowhere, but for updates,
/// which stop where they began.
pub proof fn law_pages_stop_at_their_last_row(
    rows: Seq<MessageRowV>,
    updates: bool,
    since: i64,
    limit: int,
)
    requires
        limit >= 0,
    ensures
        shown(rows, limit).len() <= limit,
        shown(rows, limit).len() == rows.len() || shown(rows, limit).len() == limit,
        shown(rows, limit).is_prefix_of(rows),
        rows.len() > 0 && updates ==> stopped(rows, updates, since) == Some(
            (rows.last().seq, rows.last().id),
        ),
        rows.len() > 0 && !updates ==> stopped(rows, updates, since) == Some(
            (rows.last().time, rows.last().id),
        ),
        rows.len() == 0 && updates ==> stopped(rows, updates, since) == Some(
            (since, Seq::<char>::empty()),
        ),
        rows.len() == 0 && !updates ==> stopped(rows, updates, since) is None,
{
}

} // verus!

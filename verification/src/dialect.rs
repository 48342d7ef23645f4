//! How the database reads what it is asked: the small part of its language that
//! the statements are written in, what is written for each part of it, and what
//! each part means. The laws here tie the texts of the statements to what the
//! archive takes them for.
use vstd::prelude::*;

use crate::filter::{ClauseV, MessageQueryV, Order};
use crate::model::{Archive, Filed, Known, Position};
use crate::sql::{AnswerV, ConversationRowV, Form, Shape, SqlV, StatementV};

verus! {

// ------------------------------------------------------------- the language

/// A column of a table.
pub enum Column {
    Id,
    Name,
    Enabled,
    State,
    Number,
    Conversation,
    Member,
    Time,
    SortSeq,
    Kind,
    Body,
    Tokens,
    Data,
    Shard,
    Place,
    Done,
    Rowid,
}

/// A row of a table.
pub enum Row {
    Conversation(ConversationRowV),
    Message(Filed),
    Member(Known),
    Place(Position),
}

/// How two values compare.
pub enum Relation {
    Equal,
    Less,
    AtMost,
    More,
    AtLeast,
}

/// The name of a column.
pub open spec fn column_text(c: Column) -> Seq<char> {
    match c {
        Column::Id => "id"@,
        Column::Name => "name"@,
        Column::Enabled => "enabled"@,
        Column::State => "state"@,
        Column::Number => "seq"@,
        Column::Conversation => "conversation"@,
        Column::Member => "member"@,
        Column::Time => "time"@,
        Column::SortSeq => "sort_seq"@,
        Column::Kind => "type"@,
        Column::Body => "body"@,
        Column::Tokens => "fts_body"@,
        Column::Data => "data"@,
        Column::Shard => "shard"@,
        Column::Place => "position"@,
        Column::Done => "done"@,
        Column::Rowid => "rowid"@,
    }
}

/// A truth value as it is stored.
pub open spec fn flag(b: bool) -> SqlV {
    SqlV::Int(
        if b {
            1
        } else {
            0
        },
    )
}

/// What a row holds in a column. What a table has no such column for is left
/// open.
pub open spec fn field(row: Row, c: Column) -> SqlV {
    match row {
        Row::Conversation(r) => match c {
            Column::Id => SqlV::Text(r.id),
            Column::Name => SqlV::Text(r.name),
            Column::Enabled => flag(r.enabled),
            Column::State => SqlV::Text(r.state),
            _ => arbitrary(),
        },
        Row::Message(r) => match c {
            Column::Number => SqlV::Int(r.seq),
            Column::Id => SqlV::Text(r.id),
            Column::Conversation => SqlV::Text(r.conversation),
            Column::Member => SqlV::Text(r.member),
            Column::Time => SqlV::Int(r.time),
            Column::Kind => SqlV::Text(r.kind),
            Column::Tokens => SqlV::Text(r.tokens),
            Column::Data => SqlV::Text(r.data),
            _ => arbitrary(),
        },
        Row::Member(r) => match c {
            Column::Rowid => SqlV::Int(r.rowid),
            Column::Conversation => SqlV::Text(r.conversation),
            Column::Id => SqlV::Text(r.id),
            Column::Name => SqlV::Text(r.name),
            _ => arbitrary(),
        },
        Row::Place(r) => match c {
            Column::Conversation => SqlV::Text(r.conversation),
            Column::Shard => SqlV::Text(r.shard),
            Column::Place => SqlV::Text(r.position),
            Column::Done => flag(r.done),
            _ => arbitrary(),
        },
    }
}

/// The sign of a relation.
pub open spec fn sign(r: Relation) -> Seq<char> {
    match r {
        Relation::Equal => "="@,
        Relation::Less => "<"@,
        Relation::AtMost => "<="@,
        Relation::More => ">"@,
        Relation::AtLeast => ">="@,
    }
}

/// Whether one value comes before another: numbers by size, texts by their
/// characters, numbers before texts.
pub open spec fn value_lt(x: SqlV, y: SqlV) -> bool {
    match (x, y) {
        (SqlV::Int(m), SqlV::Int(n)) => m < n,
        (SqlV::Text(s), SqlV::Text(t)) => crate::text::text_lt(s, t),
        (SqlV::Int(_), SqlV::Text(_)) => true,
        (SqlV::Text(_), SqlV::Int(_)) => false,
    }
}

/// Whether one pair of values comes before another: by the first values, then
/// by the second.
pub open spec fn pair_lt(x: (SqlV, SqlV), y: (SqlV, SqlV)) -> bool {
    value_lt(x.0, y.0) || (x.0 == y.0 && value_lt(x.1, y.1))
}

/// Whether two values compare so.
pub open spec fn compares(x: SqlV, r: Relation, y: SqlV) -> bool {
    match r {
        Relation::Equal => x == y,
        Relation::Less => value_lt(x, y),
        Relation::AtMost => x == y || value_lt(x, y),
        Relation::More => value_lt(y, x),
        Relation::AtLeast => x == y || value_lt(y, x),
    }
}

/// Whether two pairs of values compare so.
pub open spec fn pairs_compare(x: (SqlV, SqlV), r: Relation, y: (SqlV, SqlV)) -> bool {
    match r {
        Relation::Equal => x == y,
        Relation::Less => pair_lt(x, y),
        Relation::AtMost => x == y || pair_lt(x, y),
        Relation::More => pair_lt(y, x),
        Relation::AtLeast => x == y || pair_lt(y, x),
    }
}

// ------------------------------------------------- conditions on a message

/// A condition on a message `m`, as the database reads it. Each question mark
/// stands for the next value bound.
pub enum Condition {
    /// A column compares so with a value.
    Is(Column, Relation),
    /// Two columns together compare so with two values.
    Pair(Column, Column, Relation),
    /// A column holds one of so many values.
    Among(Column, nat),
    /// The full-text index finds the message by a query.
    Found,
}

/// So many question marks, commas between them.
pub open spec fn question_marks(n: nat) -> Seq<char>
    decreases n,
{
    if n == 0 {
        Seq::empty()
    } else if n == 1 {
        "?"@
    } else {
        question_marks((n - 1) as nat) + ",?"@
    }
}

/// A condition as it is written.
pub open spec fn condition_text(c: Condition) -> Seq<char> {
    match c {
        Condition::Is(x, r) => "m."@ + column_text(x) + sign(r) + "?"@,
        Condition::Pair(x, y, r) => "(m."@ + column_text(x) + ",m."@ + column_text(y) + ")"@ + sign(
            r,
        ) + "(?,?)"@,
        Condition::Among(x, n) => "m."@ + column_text(x) + " IN ("@ + question_marks(n) + ")"@,
        Condition::Found => "m.seq IN (SELECT rowid FROM message_fts WHERE message_fts MATCH ?)"@,
    }
}

/// How many values a condition takes.
pub open spec fn takes(c: Condition) -> nat {
    match c {
        Condition::Is(_, _) => 1,
        Condition::Pair(_, _, _) => 2,
        Condition::Among(_, n) => n,
        Condition::Found => 1,
    }
}

/// Whether a message meets a condition, given the values that it takes.
pub open spec fn meets(a: Archive, c: Condition, m: Filed, values: Seq<SqlV>) -> bool {
    match c {
        Condition::Is(x, r) => compares(field(Row::Message(m), x), r, values[0]),
        Condition::Pair(x, y, r) => pairs_compare(
            (field(Row::Message(m), x), field(Row::Message(m), y)),
            r,
            (values[0], values[1]),
        ),
        Condition::Among(x, _) => values.contains(field(Row::Message(m), x)),
        Condition::Found => values[0] matches SqlV::Text(query) && (a.finds)(query, m.tokens),
    }
}

/// Whether a condition as the database reads it is written for this one, takes
/// the values bound to it, and is met by the same messages.
pub open spec fn reads_as(a: Archive, c: ClauseV, r: Condition) -> bool {
    &&& c.sql_text() == condition_text(r)
    &&& c.bound().len() == takes(r)
    &&& forall|m: Filed| #[trigger] meets(a, r, m, c.bound()) <==> crate::model::admits(a, c, m)
}

proof fn lemma_marks(n: nat)
    ensures
        crate::filter::marks(n) == question_marks(n),
    decreases n,
{
    reveal_strlit(",");
    reveal_strlit("?");
    reveal_strlit(",?");
    let parts = Seq::new(n, |i: int| "?"@);
    if n >= 2 {
        let before = Seq::new((n - 1) as nat, |i: int| "?"@);
        assert(parts.drop_last() =~= before);
        lemma_marks((n - 1) as nat);
        assert(crate::filter::marks(n) =~= question_marks(n));
    }
}

proof fn lemma_bound_texts(v: Seq<Seq<char>>, s: Seq<char>)
    ensures
        crate::filter::bound_texts(v).contains(SqlV::Text(s)) <==> v.contains(s),
{
    if v.contains(s) {
        let i = choose|i: int| 0 <= i < v.len() && v[i] == s;
        assert(crate::filter::bound_texts(v)[i] == SqlV::Text(s));
    }
}

/// The condition that the database reads in the text of one.
spec fn reading(c: ClauseV) -> Condition {
    match c {
        ClauseV::Conversation(_) => Condition::Is(Column::Conversation, Relation::Equal),
        ClauseV::UpTo(_) => Condition::Is(Column::Number, Relation::AtMost),
        ClauseV::Since(_) => Condition::Is(Column::Time, Relation::AtLeast),
        ClauseV::Until(_) => Condition::Is(Column::Time, Relation::Less),
        ClauseV::Members(v) => Condition::Among(Column::Member, v.len()),
        ClauseV::Types(v) => Condition::Among(Column::Kind, v.len()),
        ClauseV::Matching(_) => Condition::Found,
        ClauseV::FiledAfter(_) => Condition::Is(Column::Number, Relation::More),
        ClauseV::Before(_, _) => Condition::Pair(Column::Time, Column::Id, Relation::Less),
        ClauseV::After(_, _) => Condition::Pair(Column::Time, Column::Id, Relation::More),
    }
}

proof fn lemma_condition_texts(c: ClauseV)
    ensures
        c.sql_text() == condition_text(reading(c)),
{
    reveal_strlit("m.conversation=?");
    reveal_strlit("m.seq<=?");
    reveal_strlit("m.time>=?");
    reveal_strlit("m.time<?");
    reveal_strlit("m.member IN (");
    reveal_strlit("m.type IN (");
    reveal_strlit("m.seq>?");
    reveal_strlit("(m.time,m.id)<(?,?)");
    reveal_strlit("(m.time,m.id)>(?,?)");
    reveal_strlit("m.");
    reveal_strlit("(m.");
    reveal_strlit(",m.");
    reveal_strlit(")");
    reveal_strlit("(?,?)");
    reveal_strlit("?");
    reveal_strlit(" IN (");
    reveal_strlit("conversation");
    reveal_strlit("seq");
    reveal_strlit("time");
    reveal_strlit("id");
    reveal_strlit("member");
    reveal_strlit("type");
    reveal_strlit("=");
    reveal_strlit("<");
    reveal_strlit("<=");
    reveal_strlit(">");
    reveal_strlit(">=");
    match c {
        ClauseV::Members(v) => {
            lemma_marks(v.len());
            assert("m."@ + "member"@ + " IN ("@ =~= "m.member IN ("@);
        },
        ClauseV::Types(v) => {
            lemma_marks(v.len());
            assert("m."@ + "type"@ + " IN ("@ =~= "m.type IN ("@);
        },
        _ => {},
    }
    assert(c.sql_text() =~= condition_text(reading(c)));
}

proof fn lemma_reading(a: Archive, c: ClauseV)
    ensures
        reads_as(a, c, reading(c)),
{
    lemma_condition_texts(c);
    assert forall|m: Filed| #[trigger] meets(a, reading(c), m, c.bound()) <==> crate::model::admits(
        a,
        c,
        m,
    ) by {
        match c {
            ClauseV::Members(v) => lemma_bound_texts(v, m.member),
            ClauseV::Types(v) => lemma_bound_texts(v, m.kind),
            _ => {},
        }
    }
}

/// The text of a condition, read as the database reads it, holds of a stored
/// message exactly when the condition admits the message: the start of a range
/// is met from that time on and its end before that time, a list of members or
/// types by each of them, a place in the order by what stands on its side of
/// it.
pub proof fn law_condition_texts_mean_the_conditions(a: Archive, c: ClauseV)
    ensures
        exists|r: Condition| #[trigger] reads_as(a, c, r),
{
    lemma_reading(a, c);
}

// ---------------------------------------------------- queries for messages

/// Conditions as they are written: all of them are to hold.
pub open spec fn conditions_text(v: Seq<Condition>) -> Seq<char>
    decreases v.len(),
{
    if v.len() == 0 {
        Seq::empty()
    } else if v.len() == 1 {
        condition_text(v[0])
    } else {
        conditions_text(v.drop_last()) + " AND "@ + condition_text(v.last())
    }
}

/// Whether a message meets all the conditions, each taking its values behind
/// those of the conditions before it, and no value is left.
pub open spec fn meets_all(a: Archive, v: Seq<Condition>, m: Filed, values: Seq<SqlV>) -> bool
    decreases v.len(),
{
    if v.len() == 0 {
        values.len() == 0
    } else {
        let n = values.len() - takes(v.last());
        &&& 0 <= n
        &&& meets(a, v.last(), m, values.skip(n))
        &&& meets_all(a, v.drop_last(), m, values.take(n))
    }
}

/// The columns by which messages are ordered, each upwards or downwards.
pub type Keys = Seq<(Column, bool)>;

/// An order as it is written.
pub open spec fn keys_text(keys: Keys) -> Seq<char>
    decreases keys.len(),
{
    if keys.len() == 0 {
        Seq::empty()
    } else {
        let last = "m."@ + column_text(keys.last().0) + if keys.last().1 {
            " ASC"@
        } else {
            " DESC"@
        };
        if keys.len() == 1 {
            last
        } else {
            keys_text(keys.drop_last()) + ","@ + last
        }
    }
}

/// Whether an order puts one message before another: by the first column in
/// which they differ.
pub open spec fn keys_put_before(keys: Keys, m: Filed, n: Filed) -> bool
    decreases keys.len(),
{
    if keys.len() == 0 {
        false
    } else {
        let x = field(Row::Message(m), keys[0].0);
        let y = field(Row::Message(n), keys[0].0);
        if x == y {
            keys_put_before(keys.skip(1), m, n)
        } else if keys[0].1 {
            value_lt(x, y)
        } else {
            value_lt(y, x)
        }
    }
}

/// The keys that the database reads in the text of an order.
spec fn keys_of(order: Order) -> Keys {
    match order {
        Order::AsFiled => seq![(Column::Number, true)],
        Order::OldestFirst => seq![(Column::Time, true), (Column::Id, true)],
        Order::NewestFirst => seq![(Column::Time, false), (Column::Id, false)],
    }
}

/// A query for messages as it is written.
pub open spec fn select_text(v: Seq<Condition>, keys: Keys) -> Seq<char> {
    "SELECT m.data,m.time,m.id,m.seq FROM messages m WHERE "@ + conditions_text(v) + " ORDER BY "@
        + keys_text(keys) + " LIMIT ?"@
}

proof fn lemma_order(order: Order)
    ensures
        order.sql_text() == keys_text(keys_of(order)),
        forall|m: Filed, n: Filed| #[trigger]
            keys_put_before(keys_of(order), m, n) <==> crate::model::stands_before(order, m, n),
{
    reveal_strlit("m.seq ASC");
    reveal_strlit("m.time ASC,m.id ASC");
    reveal_strlit("m.time DESC,m.id DESC");
    reveal_strlit("m.");
    reveal_strlit("seq");
    reveal_strlit("time");
    reveal_strlit("id");
    reveal_strlit(" ASC");
    reveal_strlit(" DESC");
    reveal_strlit(",");
    reveal_with_fuel(keys_text, 3);
    reveal_with_fuel(keys_put_before, 3);
    let keys = keys_of(order);
    assert(order.sql_text() =~= keys_text(keys)) by {
        if keys.len() == 2 {
            assert(keys.drop_last() =~= seq![keys[0]]);
        }
    }
    assert forall|m: Filed, n: Filed| #[trigger]
        keys_put_before(keys_of(order), m, n) <==> crate::model::stands_before(order, m, n) by {
        crate::text::lemma_text_lt_irreflexive(m.id);
    }
}

proof fn lemma_joined_conditions(clauses: Seq<ClauseV>)
    ensures
        crate::text::joined(clauses.map_values(|c: ClauseV| c.sql_text()), " AND "@)
            == conditions_text(clauses.map_values(|c: ClauseV| reading(c))),
    decreases clauses.len(),
{
    let texts = clauses.map_values(|c: ClauseV| c.sql_text());
    let v = clauses.map_values(|c: ClauseV| reading(c));
    if clauses.len() > 0 {
        let before = clauses.drop_last();
        lemma_condition_texts(clauses.last());
        lemma_joined_conditions(before);
        assert(texts.drop_last() =~= before.map_values(|c: ClauseV| c.sql_text()));
        assert(v.drop_last() =~= before.map_values(|c: ClauseV| reading(c)));
    }
}

proof fn lemma_meets_all(a: Archive, clauses: Seq<ClauseV>, m: Filed)
    ensures
        meets_all(
            a,
            clauses.map_values(|c: ClauseV| reading(c)),
            m,
            crate::filter::bound_by(clauses),
        ) <==> crate::model::fits(a, clauses, m),
    decreases clauses.len(),
{
    let v = clauses.map_values(|c: ClauseV| reading(c));
    let values = crate::filter::bound_by(clauses);
    if clauses.len() > 0 {
        let before = clauses.drop_last();
        let last = clauses.last();
        lemma_reading(a, last);
        lemma_meets_all(a, before, m);
        assert(v.drop_last() =~= before.map_values(|c: ClauseV| reading(c)));
        let n = values.len() - takes(v.last());
        assert(values.skip(n) =~= last.bound());
        assert(values.take(n) =~= crate::filter::bound_by(before));
        if crate::model::fits(a, clauses, m) {
            assert(crate::model::admits(a, clauses[clauses.len() - 1], m));
            assert forall|i: int| 0 <= i < before.len() implies crate::model::admits(
                a,
                #[trigger] before[i],
                m,
            ) by {
                assert(crate::model::admits(a, clauses[i], m));
            }
        }
        if crate::model::fits(a, before, m) && crate::model::admits(a, last, m) {
            assert forall|i: int| 0 <= i < clauses.len() implies crate::model::admits(
                a,
                #[trigger] clauses[i],
                m,
            ) by {
                if i < before.len() {
                    assert(crate::model::admits(a, before[i], m));
                }
            }
        }
    }
}

/// Whether a query is written for these conditions and this order, is met by
/// the messages that the query asks for, and puts them in its order.
pub open spec fn query_reads_as(a: Archive, q: MessageQueryV, v: Seq<Condition>, keys: Keys) -> bool {
    &&& q.sql_text() == select_text(v, keys)
    &&& q.bound().len() > 0
    &&& q.bound().last() == SqlV::Int(q.limit)
    &&& forall|m: Filed| #[trigger]
        meets_all(a, v, m, q.bound().drop_last()) <==> crate::model::fits(a, q.clauses, m)
    &&& forall|m: Filed, n: Filed| #[trigger]
        keys_put_before(keys, m, n) <==> crate::model::stands_before(q.order, m, n)
}

/// A query, read as the database reads it, asks for the messages that fit its
/// conditions, all together, in its order, and for no more than its limit.
pub proof fn law_query_texts_mean_the_queries(a: Archive, q: MessageQueryV)
    ensures
        exists|v: Seq<Condition>, keys: Keys| #[trigger] query_reads_as(a, q, v, keys),
{
    let v = q.clauses.map_values(|c: ClauseV| reading(c));
    let keys = keys_of(q.order);
    lemma_joined_conditions(q.clauses);
    lemma_order(q.order);
    assert(q.bound().drop_last() =~= crate::filter::bound_by(q.clauses));
    assert forall|m: Filed| #[trigger]
        meets_all(a, v, m, q.bound().drop_last()) <==> crate::model::fits(a, q.clauses, m) by {
        lemma_meets_all(a, q.clauses, m);
    }
    assert(query_reads_as(a, q, v, keys));
}

// ------------------------------------------------------- fixed statements

/// How a statement calls a table: by no name where it is the only one.
pub enum Alias {
    Alone,
    M,
    C,
    P,
}

/// What stands in a test: a column, a parameter by its number, a number or a
/// text.
pub enum Term {
    Field(Alias, Column),
    Param(int),
    Number(int),
    Quoted(Seq<char>),
}

/// A test that a row, or rows that are joined, pass or not.
pub enum Test {
    /// Two terms compare so.
    Is(Term, Relation, Term),
    /// Two terms together compare so with two others.
    Pair(Term, Term, Relation, Term, Term),
    /// The second text occurs in the first.
    Within(Term, Term),
    /// The term is a number other than zero.
    NotZero(Term),
    Either(Box<Test>, Box<Test>),
    Both(Box<Test>, Box<Test>),
}

/// The name of a table before its columns.
pub open spec fn alias_text(a: Alias) -> Seq<char> {
    match a {
        Alias::Alone => Seq::empty(),
        Alias::M => "m."@,
        Alias::C => "c."@,
        Alias::P => "p."@,
    }
}

/// A text between quotes.
pub open spec fn quoted(s: Seq<char>) -> Seq<char> {
    "'"@ + s + "'"@
}

/// A term as it is written.
pub open spec fn term_text(t: Term) -> Seq<char> {
    match t {
        Term::Field(a, c) => alias_text(a) + column_text(c),
        Term::Param(n) => "?"@ + crate::text::decimal(n),
        Term::Number(n) => crate::text::decimal(n),
        Term::Quoted(s) => quoted(s),
    }
}

/// A test as it is written.
pub open spec fn test_text(t: Test) -> Seq<char>
    decreases t,
{
    match t {
        Test::Is(x, r, y) => term_text(x) + sign(r) + term_text(y),
        Test::Pair(x, y, r, u, v) => "("@ + term_text(x) + ","@ + term_text(y) + ")"@ + sign(r)
            + "("@ + term_text(u) + ","@ + term_text(v) + ")"@,
        Test::Within(x, y) => "instr("@ + term_text(x) + ","@ + term_text(y) + ")>0"@,
        Test::NotZero(x) => term_text(x),
        Test::Either(s, t) => "("@ + test_text(*s) + " OR "@ + test_text(*t) + ")"@,
        Test::Both(s, t) => test_text(*s) + " AND "@ + test_text(*t),
    }
}

/// Terms as they are written, commas between them.
pub open spec fn terms_text(v: Seq<Term>) -> Seq<char>
    decreases v.len(),
{
    if v.len() == 0 {
        Seq::empty()
    } else if v.len() == 1 {
        term_text(v[0])
    } else {
        terms_text(v.drop_last()) + ","@ + term_text(v.last())
    }
}

/// The value of a term, by the rows and the values bound.
pub open spec fn value(t: Term, rows: spec_fn(Alias) -> Row, args: Seq<SqlV>) -> SqlV {
    match t {
        Term::Field(a, c) => field(rows(a), c),
        Term::Param(n) => args[n - 1],
        Term::Number(n) => SqlV::Int(n as i64),
        Term::Quoted(s) => SqlV::Text(s),
    }
}

/// Whether rows pass a test.
pub open spec fn passes(t: Test, rows: spec_fn(Alias) -> Row, args: Seq<SqlV>) -> bool
    decreases t,
{
    match t {
        Test::Is(x, r, y) => compares(value(x, rows, args), r, value(y, rows, args)),
        Test::Pair(x, y, r, u, v) => pairs_compare(
            (value(x, rows, args), value(y, rows, args)),
            r,
            (value(u, rows, args), value(v, rows, args)),
        ),
        Test::Within(x, y) => value(x, rows, args) matches SqlV::Text(s) && (value(
            y,
            rows,
            args,
        ) matches SqlV::Text(t) && crate::text::occurs(s, t)),
        Test::NotZero(x) => value(x, rows, args) matches SqlV::Int(n) && n != 0,
        Test::Either(s, t) => passes(*s, rows, args) || passes(*t, rows, args),
        Test::Both(s, t) => passes(*s, rows, args) && passes(*t, rows, args),
    }
}

/// The one row of a statement on one table.
pub open spec fn alone(row: Row) -> spec_fn(Alias) -> Row {
    |a: Alias| row
}

/// A column of the only table.
pub open spec fn own(c: Column) -> Term {
    Term::Field(Alias::Alone, c)
}

/// Whether two terms are equal.
pub open spec fn same(x: Term, y: Term) -> Test {
    Test::Is(x, Relation::Equal, y)
}

/// Whether a column of the only table holds the value of a parameter.
pub open spec fn given(c: Column, n: int) -> Test {
    same(own(c), Term::Param(n))
}

/// Two tests together.
pub open spec fn both(s: Test, t: Test) -> Test {
    Test::Both(Box::new(s), Box::new(t))
}

/// One test or the other.
pub open spec fn either(s: Test, t: Test) -> Test {
    Test::Either(Box::new(s), Box::new(t))
}

/// Whether a conversation is enabled.
pub open spec fn test_enabled() -> Test {
    same(own(Column::Enabled), Term::Number(1))
}

/// Whether a conversation is enabled and answers to the name bound.
pub open spec fn test_called() -> Test {
    both(test_enabled(), either(given(Column::Id, 1), given(Column::Name, 1)))
}

/// Whether a conversation belongs in the list asked for.
pub open spec fn test_listed() -> Test {
    both(
        either(test_enabled(), Test::NotZero(Term::Param(2))),
        either(
            Test::Within(own(Column::Name), Term::Param(1)),
            Test::Within(own(Column::Id), Term::Param(1)),
        ),
    )
}

/// Whether a member of the conversation bound answers to the name bound.
pub open spec fn test_answers() -> Test {
    both(given(Column::Conversation, 1), either(given(Column::Id, 2), given(Column::Name, 2)))
}

/// Whether a member belongs on the page asked for.
pub open spec fn test_member() -> Test {
    both(
        both(
            both(
                given(Column::Conversation, 1),
                Test::Is(own(Column::Id), Relation::More, Term::Param(2)),
            ),
            Test::Is(own(Column::Rowid), Relation::AtMost, Term::Param(3)),
        ),
        either(
            Test::Within(own(Column::Name), Term::Param(4)),
            Test::Within(own(Column::Id), Term::Param(4)),
        ),
    )
}

/// Whether a row gives a name of the member bound.
pub open spec fn test_name() -> Test {
    both(
        both(given(Column::Conversation, 1), given(Column::Id, 2)),
        Test::Is(own(Column::Rowid), Relation::AtMost, Term::Param(3)),
    )
}

/// Whether a place is that of the conversation and the shard bound.
pub open spec fn test_place() -> Test {
    both(given(Column::Conversation, 1), given(Column::Shard, 2))
}

/// Whether a place of the conversation bound is not done with.
pub open spec fn test_open_place() -> Test {
    both(given(Column::Conversation, 1), same(own(Column::Done), Term::Number(0)))
}

/// Whether a message and a conversation belong together, and the conversation
/// is enabled.
pub open spec fn test_home() -> Test {
    both(
        same(Term::Field(Alias::C, Column::Id), Term::Field(Alias::M, Column::Conversation)),
        same(Term::Field(Alias::C, Column::Enabled), Term::Number(1)),
    )
}

/// Whether a message is the one bound.
pub open spec fn test_message() -> Test {
    same(Term::Field(Alias::M, Column::Id), Term::Param(1))
}

/// Whether a message of the conversation bound compares so with the time and
/// the identifier bound.
pub open spec fn test_side(r: Relation) -> Test {
    both(
        given(Column::Conversation, 1),
        Test::Pair(own(Column::Time), own(Column::Id), r, Term::Param(2), Term::Param(3)),
    )
}

/// Whether a place and a conversation belong together.
pub open spec fn test_joined() -> Test {
    same(Term::Field(Alias::C, Column::Id), Term::Field(Alias::P, Column::Conversation))
}

/// Whether an import is to be taken up.
pub open spec fn test_due() -> Test {
    both(
        both(
            same(Term::Field(Alias::P, Column::Done), Term::Number(0)),
            same(Term::Field(Alias::C, Column::Enabled), Term::Number(1)),
        ),
        same(Term::Field(Alias::C, Column::State), Term::Quoted("indexing"@)),
    )
}

/// Whether a setting is the one of this name.
pub open spec fn key_is(key: Seq<char>) -> Seq<char> {
    "key="@ + quoted(key)
}

/// The columns that filing a message fills, in order.
pub open spec fn filed_columns() -> Seq<Column> {
    seq![
        Column::Id,
        Column::Conversation,
        Column::Member,
        Column::Time,
        Column::SortSeq,
        Column::Kind,
        Column::Body,
        Column::Tokens,
        Column::Data,
    ]
}

/// Columns as they are written, commas between them.
pub open spec fn columns_text(v: Seq<Column>) -> Seq<char> {
    terms_text(Seq::new(v.len(), |i: int| own(v[i])))
}

/// The parameters from the first to the last.
pub open spec fn params(n: nat) -> Seq<Term> {
    Seq::new(n, |i: int| Term::Param(i + 1))
}

/// What is filled in of a conversation that is enabled anew: its identifier, its
/// name, that it is enabled, and its state.
pub open spec fn granted_row() -> Seq<Term> {
    seq![Term::Param(1), Term::Param(2), Term::Number(1), Term::Quoted("indexing"@)]
}

/// How many rows a statement asks for at most.
pub open spec fn most(form: Form) -> int {
    match form {
        Form::List => 200,
        _ => 21,
    }
}

/// A statement as it is written, part by part.
pub open spec fn written(form: Form) -> Seq<char> {
    match form {
        Form::Schema => crate::sql::SCHEMA@,
        Form::StoredAccount => "SELECT value FROM settings WHERE "@ + key_is("account"@),
        Form::KeepAccount => "INSERT OR IGNORE INTO settings VALUES("@ + quoted("account"@) + ",?1)"@,
        Form::CursorKey => "SELECT value FROM settings WHERE "@ + key_is("cursor_key"@),
        Form::StoreCursorKey => "INSERT INTO settings VALUES("@ + quoted("cursor_key"@) + ",?1)"@,
        Form::Generation => "SELECT CAST(value AS INTEGER) FROM settings WHERE "@ + key_is("generation"@),
        Form::BumpGeneration => "UPDATE settings SET value=CAST(value AS INTEGER)+1 WHERE "@ + key_is("generation"@),
        Form::Grant => "INSERT INTO conversations VALUES("@ + terms_text(granted_row()) + ") ON CONFLICT(id) DO UPDATE SET enabled=1,name=excluded.name"@,
        Form::Disable => "UPDATE conversations SET enabled=0 WHERE "@ + test_text(given(Column::Id, 1)),
        Form::DeleteMessages => "DELETE FROM messages WHERE "@ + test_text(given(Column::Conversation, 1)),
        Form::DeleteMembers => "DELETE FROM members WHERE "@ + test_text(given(Column::Conversation, 1)),
        Form::DeletePositions => "DELETE FROM import_positions WHERE "@ + test_text(given(Column::Conversation, 1)),
        Form::DeleteConversation => "DELETE FROM conversations WHERE "@ + test_text(given(Column::Id, 1)),
        Form::Resolve => "SELECT id FROM conversations WHERE "@ + test_text(test_called()) + " ORDER BY id LIMIT "@ + crate::text::decimal(most(Form::Resolve)),
        Form::EnabledConversations => "SELECT id FROM conversations WHERE "@ + test_text(test_enabled()) + " ORDER BY id"@,
        Form::State => "SELECT state FROM conversations WHERE "@ + test_text(given(Column::Id, 1)),
        Form::List => "SELECT id,name,state,enabled FROM conversations WHERE "@ + test_text(test_listed()) + " ORDER BY name,id LIMIT "@ + crate::text::decimal(most(Form::List)),
        Form::InsertMessage => "INSERT OR IGNORE INTO messages("@ + columns_text(filed_columns()) + ") VALUES("@ + terms_text(params(9)) + ")"@,
        Form::InsertMember => "INSERT OR IGNORE INTO members VALUES("@ + terms_text(seq![Term::Param(1), Term::Param(2), Term::Param(2)]) + ")"@,
        Form::InsertNamedMember => "INSERT OR IGNORE INTO members VALUES("@ + terms_text(params(3)) + ")"@,
        Form::NewestMessage => "SELECT COALESCE(MAX("@ + column_text(Column::Number) + "),0) FROM messages"@,
        Form::MemberIds => "SELECT DISTINCT id FROM members WHERE "@ + test_text(test_answers()) + " LIMIT "@ + crate::text::decimal(most(Form::MemberIds)),
        Form::NewestMember => "SELECT COALESCE(MAX("@ + column_text(Column::Rowid) + "),0) FROM members"@,
        Form::MemberPage => "SELECT id FROM members WHERE "@ + test_text(test_member()) + " GROUP BY id ORDER BY id LIMIT ?5"@,
        Form::MemberNames => "SELECT name FROM members WHERE "@ + test_text(test_name()) + " ORDER BY name"@,
        Form::Quota => "SELECT CAST(value AS INTEGER) FROM settings WHERE "@ + key_is("quota"@),
        Form::SetQuota => "UPDATE settings SET value=?1 WHERE "@ + key_is("quota"@),
        Form::Migrated => "SELECT EXISTS(SELECT 1 FROM settings WHERE "@ + key_is("history_rowid_v1"@) + ")"@,
        Form::RestartImports => "UPDATE import_positions SET position="@ + quoted(crate::backend::first_position()) + ",done=0 WHERE conversation IN (SELECT id FROM conversations WHERE state IN ("@ + quoted("indexing"@) + ","@ + quoted("incompatible_message_index"@) + "))"@,
        Form::ReopenIncompatible => "UPDATE conversations SET state='indexing' WHERE "@ + test_text(same(own(Column::State), Term::Quoted("incompatible_message_index"@))),
        Form::MarkMigrated => "INSERT INTO settings(key,value) VALUES("@ + quoted("history_rowid_v1"@) + ",'1')"@,
        Form::RetryColumnErrors => "UPDATE conversations SET state='indexing' WHERE state LIKE "@ + quoted("history_column_type_error%"@),
        Form::InsertPosition => "INSERT OR IGNORE INTO import_positions VALUES("@ + terms_text(params(3).push(Term::Number(0))) + ")"@,
        Form::SavedPosition => "SELECT position FROM import_positions WHERE "@ + test_text(test_place()),
        Form::MessageHome => "SELECT m.conversation,m.time FROM messages m JOIN conversations c ON "@ + test_text(test_home()) + " WHERE "@ + test_text(test_message()),
        Form::Context => "SELECT data FROM (SELECT * FROM messages WHERE "@ + test_text(test_side(Relation::Less)) + " ORDER BY time DESC,id DESC LIMIT ?4) UNION ALL SELECT data FROM (SELECT * FROM messages WHERE "@ + test_text(test_side(Relation::AtLeast)) + " ORDER BY time,id LIMIT ?4)"@,
        Form::MessageData => "SELECT m.data FROM messages m JOIN conversations c ON "@ + test_text(test_home()) + " WHERE "@ + test_text(test_message()),
        Form::PendingImport => "SELECT p.conversation,p.shard,p.position FROM import_positions p JOIN conversations c ON "@ + test_text(test_joined()) + " WHERE "@ + test_text(test_due()) + " LIMIT 1"@,
        Form::SetState => "UPDATE conversations SET state=?2 WHERE "@ + test_text(given(Column::Id, 1)),
        Form::SetPosition => "UPDATE import_positions SET position=?3,done=?4 WHERE "@ + test_text(test_place()),
        Form::MarkReady => "UPDATE conversations SET state='ready' WHERE "@ + test_text(given(Column::Id, 1)) + " AND NOT EXISTS(SELECT 1 FROM import_positions WHERE "@ + test_text(test_open_place()) + ")"@,
    }
}

proof fn lemma_numbers()
    ensures
        crate::text::decimal(0) == seq!['0'],
        crate::text::decimal(1) == seq!['1'],
        crate::text::decimal(2) == seq!['2'],
        crate::text::decimal(3) == seq!['3'],
        crate::text::decimal(4) == seq!['4'],
        crate::text::decimal(5) == seq!['5'],
        crate::text::decimal(6) == seq!['6'],
        crate::text::decimal(7) == seq!['7'],
        crate::text::decimal(8) == seq!['8'],
        crate::text::decimal(9) == seq!['9'],
        crate::text::decimal(21) == seq!['2', '1'],
        crate::text::decimal(200) == seq!['2', '0', '0'],
{
    reveal_with_fuel(crate::text::digits, 4);
    assert(crate::text::decimal(21) =~= seq!['2', '1']);
    assert(crate::text::decimal(200) =~= seq!['2', '0', '0']);
}

proof fn lemma_text_stored_account()
    ensures
        Form::StoredAccount.sql_text() == written(Form::StoredAccount),
{
    reveal_strlit("SELECT value FROM settings WHERE key='account'");
    reveal_strlit("SELECT value FROM settings WHERE ");
    reveal_strlit("account");
    reveal_strlit("key=");
    reveal_strlit("'");
    assert(Form::StoredAccount.sql_text() =~= written(Form::StoredAccount));
}

proof fn lemma_text_keep_account()
    ensures
        Form::KeepAccount.sql_text() == written(Form::KeepAccount),
{
    reveal_strlit("INSERT OR IGNORE INTO settings VALUES('account',?1)");
    reveal_strlit("INSERT OR IGNORE INTO settings VALUES(");
    reveal_strlit("account");
    reveal_strlit(",?1)");
    reveal_strlit("'");
    assert(Form::KeepAccount.sql_text() =~= written(Form::KeepAccount));
}

proof fn lemma_text_cursor_key()
    ensures
        Form::CursorKey.sql_text() == written(Form::CursorKey),
{
    reveal_strlit("SELECT value FROM settings WHERE key='cursor_key'");
    reveal_strlit("SELECT value FROM settings WHERE ");
    reveal_strlit("cursor_key");
    reveal_strlit("key=");
    reveal_strlit("'");
    assert(Form::CursorKey.sql_text() =~= written(Form::CursorKey));
}

proof fn lemma_text_store_cursor_key()
    ensures
        Form::StoreCursorKey.sql_text() == written(Form::StoreCursorKey),
{
    reveal_strlit("INSERT INTO settings VALUES('cursor_key',?1)");
    reveal_strlit("INSERT INTO settings VALUES(");
    reveal_strlit("cursor_key");
    reveal_strlit(",?1)");
    reveal_strlit("'");
    assert(Form::StoreCursorKey.sql_text() =~= written(Form::StoreCursorKey));
}

proof fn lemma_text_generation()
    ensures
        Form::Generation.sql_text() == written(Form::Generation),
{
    reveal_strlit("SELECT CAST(value AS INTEGER) FROM settings WHERE key='generation'");
    reveal_strlit("SELECT CAST(value AS INTEGER) FROM settings WHERE ");
    reveal_strlit("generation");
    reveal_strlit("key=");
    reveal_strlit("'");
    assert(Form::Generation.sql_text() =~= written(Form::Generation));
}

proof fn lemma_text_bump_generation()
    ensures
        Form::BumpGeneration.sql_text() == written(Form::BumpGeneration),
{
    reveal_strlit("UPDATE settings SET value=CAST(value AS INTEGER)+1 WHERE key='generation'");
    reveal_strlit("UPDATE settings SET value=CAST(value AS INTEGER)+1 WHERE ");
    reveal_strlit("generation");
    reveal_strlit("key=");
    reveal_strlit("'");
    assert(Form::BumpGeneration.sql_text() =~= written(Form::BumpGeneration));
}

proof fn lemma_text_grant()
    ensures
        Form::Grant.sql_text() == written(Form::Grant),
{
    lemma_rows();
    reveal_strlit("INSERT INTO conversations VALUES(?1,?2,1,'indexing') ON CONFLICT(id) DO UPDATE SET enabled=1,name=excluded.name");
    reveal_strlit("INSERT INTO conversations VALUES(");
    reveal_strlit(") ON CONFLICT(id) DO UPDATE SET enabled=1,name=excluded.name");
    reveal_strlit("?1,?2,1,'indexing'");
    assert(Form::Grant.sql_text() =~= written(Form::Grant));
}

proof fn lemma_text_disable()
    ensures
        Form::Disable.sql_text() == written(Form::Disable),
{
    lemma_numbers();
    reveal_with_fuel(test_text, 5);
    reveal_strlit("UPDATE conversations SET enabled=0 WHERE id=?1");
    reveal_strlit("UPDATE conversations SET enabled=0 WHERE ");
    reveal_strlit("id");
    reveal_strlit("=");
    reveal_strlit("?");
    assert(Form::Disable.sql_text() =~= written(Form::Disable));
}

proof fn lemma_text_delete_messages()
    ensures
        Form::DeleteMessages.sql_text() == written(Form::DeleteMessages),
{
    lemma_numbers();
    reveal_with_fuel(test_text, 5);
    reveal_strlit("DELETE FROM messages WHERE conversation=?1");
    reveal_strlit("DELETE FROM messages WHERE ");
    reveal_strlit("conversation");
    reveal_strlit("=");
    reveal_strlit("?");
    assert(Form::DeleteMessages.sql_text() =~= written(Form::DeleteMessages));
}

proof fn lemma_text_delete_members()
    ensures
        Form::DeleteMembers.sql_text() == written(Form::DeleteMembers),
{
    lemma_numbers();
    reveal_with_fuel(test_text, 5);
    reveal_strlit("DELETE FROM members WHERE conversation=?1");
    reveal_strlit("DELETE FROM members WHERE ");
    reveal_strlit("conversation");
    reveal_strlit("=");
    reveal_strlit("?");
    assert(Form::DeleteMembers.sql_text() =~= written(Form::DeleteMembers));
}

proof fn lemma_text_delete_positions()
    ensures
        Form::DeletePositions.sql_text() == written(Form::DeletePositions),
{
    lemma_numbers();
    reveal_with_fuel(test_text, 5);
    reveal_strlit("DELETE FROM import_positions WHERE conversation=?1");
    reveal_strlit("DELETE FROM import_positions WHERE ");
    reveal_strlit("conversation");
    reveal_strlit("=");
    reveal_strlit("?");
    assert(Form::DeletePositions.sql_text() =~= written(Form::DeletePositions));
}

proof fn lemma_text_delete_conversation()
    ensures
        Form::DeleteConversation.sql_text() == written(Form::DeleteConversation),
{
    lemma_numbers();
    reveal_with_fuel(test_text, 5);
    reveal_strlit("DELETE FROM conversations WHERE id=?1");
    reveal_strlit("DELETE FROM conversations WHERE ");
    reveal_strlit("id");
    reveal_strlit("=");
    reveal_strlit("?");
    assert(Form::DeleteConversation.sql_text() =~= written(Form::DeleteConversation));
}

proof fn lemma_text_resolve()
    ensures
        Form::Resolve.sql_text() == written(Form::Resolve),
{
    lemma_numbers();
    reveal_with_fuel(test_text, 5);
    reveal_strlit("SELECT id FROM conversations WHERE enabled=1 AND (id=?1 OR name=?1) ORDER BY id LIMIT 21");
    reveal_strlit("SELECT id FROM conversations WHERE ");
    reveal_strlit(" ORDER BY id LIMIT ");
    reveal_strlit("enabled");
    reveal_strlit("=");
    reveal_strlit("id");
    reveal_strlit("name");
    reveal_strlit("?");
    reveal_strlit("(");
    reveal_strlit(" OR ");
    reveal_strlit(")");
    reveal_strlit(" AND ");
    assert(Form::Resolve.sql_text() =~= written(Form::Resolve));
}

proof fn lemma_text_enabled_conversations()
    ensures
        Form::EnabledConversations.sql_text() == written(Form::EnabledConversations),
{
    lemma_numbers();
    reveal_with_fuel(test_text, 5);
    reveal_strlit("SELECT id FROM conversations WHERE enabled=1 ORDER BY id");
    reveal_strlit("SELECT id FROM conversations WHERE ");
    reveal_strlit(" ORDER BY id");
    reveal_strlit("enabled");
    reveal_strlit("=");
    assert(Form::EnabledConversations.sql_text() =~= written(Form::EnabledConversations));
}

proof fn lemma_text_state()
    ensures
        Form::State.sql_text() == written(Form::State),
{
    lemma_numbers();
    reveal_with_fuel(test_text, 5);
    reveal_strlit("SELECT state FROM conversations WHERE id=?1");
    reveal_strlit("SELECT state FROM conversations WHERE ");
    reveal_strlit("id");
    reveal_strlit("=");
    reveal_strlit("?");
    assert(Form::State.sql_text() =~= written(Form::State));
}

proof fn lemma_text_list()
    ensures
        Form::List.sql_text() == written(Form::List),
{
    lemma_numbers();
    reveal_with_fuel(test_text, 5);
    reveal_strlit("SELECT id,name,state,enabled FROM conversations WHERE (enabled=1 OR ?2) AND (instr(name,?1)>0 OR instr(id,?1)>0) ORDER BY name,id LIMIT 200");
    reveal_strlit("SELECT id,name,state,enabled FROM conversations WHERE ");
    reveal_strlit(" ORDER BY name,id LIMIT ");
    reveal_strlit("enabled");
    reveal_strlit("=");
    reveal_strlit("(");
    reveal_strlit(" OR ");
    reveal_strlit(")");
    reveal_strlit(" AND ");
    reveal_strlit("?");
    reveal_strlit("instr(");
    reveal_strlit(",");
    reveal_strlit(")>0");
    reveal_strlit("name");
    reveal_strlit("id");
    assert(Form::List.sql_text() =~= written(Form::List));
}

proof fn lemma_text_insert_message()
    ensures
        Form::InsertMessage.sql_text() == written(Form::InsertMessage),
{
    lemma_columns();
    lemma_params();
    reveal_strlit("INSERT OR IGNORE INTO messages(id,conversation,member,time,sort_seq,type,body,fts_body,data) VALUES(?1,?2,?3,?4,?5,?6,?7,?8,?9)");
    reveal_strlit("INSERT OR IGNORE INTO messages(");
    reveal_strlit(") VALUES(");
    reveal_strlit(")");
    reveal_strlit("?1,?2,?3,?4,?5,?6,?7,?8,?9");
    reveal_strlit("id,conversation,member,time,sort_seq,type,body,fts_body,data");
    assert(Form::InsertMessage.sql_text() =~= written(Form::InsertMessage));
}

proof fn lemma_text_insert_member()
    ensures
        Form::InsertMember.sql_text() == written(Form::InsertMember),
{
    lemma_rows();
    reveal_strlit("INSERT OR IGNORE INTO members VALUES(?1,?2,?2)");
    reveal_strlit("INSERT OR IGNORE INTO members VALUES(");
    reveal_strlit(")");
    reveal_strlit("?1,?2,?2");
    assert(Form::InsertMember.sql_text() =~= written(Form::InsertMember));
}

proof fn lemma_text_insert_named_member()
    ensures
        Form::InsertNamedMember.sql_text() == written(Form::InsertNamedMember),
{
    lemma_rows();
    reveal_strlit("INSERT OR IGNORE INTO members VALUES(?1,?2,?3)");
    reveal_strlit("INSERT OR IGNORE INTO members VALUES(");
    reveal_strlit(")");
    reveal_strlit("?1,?2,?3");
    assert(Form::InsertNamedMember.sql_text() =~= written(Form::InsertNamedMember));
}

proof fn lemma_text_newest_message()
    ensures
        Form::NewestMessage.sql_text() == written(Form::NewestMessage),
{
    reveal_strlit("SELECT COALESCE(MAX(seq),0) FROM messages");
    reveal_strlit("SELECT COALESCE(MAX(");
    reveal_strlit("),0) FROM messages");
    reveal_strlit("seq");
    assert(Form::NewestMessage.sql_text() =~= written(Form::NewestMessage));
}

proof fn lemma_text_member_ids()
    ensures
        Form::MemberIds.sql_text() == written(Form::MemberIds),
{
    lemma_numbers();
    reveal_with_fuel(test_text, 5);
    reveal_strlit("SELECT DISTINCT id FROM members WHERE conversation=?1 AND (id=?2 OR name=?2) LIMIT 21");
    reveal_strlit("SELECT DISTINCT id FROM members WHERE ");
    reveal_strlit(" LIMIT ");
    reveal_strlit("conversation");
    reveal_strlit("=");
    reveal_strlit("?");
    reveal_strlit(" AND ");
    reveal_strlit("(");
    reveal_strlit(" OR ");
    reveal_strlit(")");
    reveal_strlit("id");
    reveal_strlit("name");
    assert(Form::MemberIds.sql_text() =~= written(Form::MemberIds));
}

proof fn lemma_text_newest_member()
    ensures
        Form::NewestMember.sql_text() == written(Form::NewestMember),
{
    reveal_strlit("SELECT COALESCE(MAX(rowid),0) FROM members");
    reveal_strlit("SELECT COALESCE(MAX(");
    reveal_strlit("),0) FROM members");
    reveal_strlit("rowid");
    assert(Form::NewestMember.sql_text() =~= written(Form::NewestMember));
}

proof fn lemma_text_member_page()
    ensures
        Form::MemberPage.sql_text() == written(Form::MemberPage),
{
    lemma_numbers();
    reveal_with_fuel(test_text, 5);
    reveal_strlit("SELECT id FROM members WHERE conversation=?1 AND id>?2 AND rowid<=?3 AND (instr(name,?4)>0 OR instr(id,?4)>0) GROUP BY id ORDER BY id LIMIT ?5");
    reveal_strlit("SELECT id FROM members WHERE ");
    reveal_strlit(" GROUP BY id ORDER BY id LIMIT ?5");
    reveal_strlit("conversation");
    reveal_strlit("=");
    reveal_strlit("?");
    reveal_strlit(" AND ");
    reveal_strlit(">");
    reveal_strlit("<=");
    reveal_strlit("rowid");
    reveal_strlit("(");
    reveal_strlit(" OR ");
    reveal_strlit(")");
    reveal_strlit("id");
    reveal_strlit("name");
    reveal_strlit("instr(");
    reveal_strlit(",");
    reveal_strlit(")>0");
    assert(Form::MemberPage.sql_text() =~= written(Form::MemberPage));
}

proof fn lemma_text_member_names()
    ensures
        Form::MemberNames.sql_text() == written(Form::MemberNames),
{
    lemma_numbers();
    reveal_with_fuel(test_text, 5);
    reveal_strlit("SELECT name FROM members WHERE conversation=?1 AND id=?2 AND rowid<=?3 ORDER BY name");
    reveal_strlit("SELECT name FROM members WHERE ");
    reveal_strlit(" ORDER BY name");
    reveal_strlit("conversation");
    reveal_strlit("id");
    reveal_strlit("rowid");
    reveal_strlit("=");
    reveal_strlit("<=");
    reveal_strlit("?");
    reveal_strlit(" AND ");
    assert(Form::MemberNames.sql_text() =~= written(Form::MemberNames));
}

proof fn lemma_text_quota()
    ensures
        Form::Quota.sql_text() == written(Form::Quota),
{
    reveal_strlit("SELECT CAST(value AS INTEGER) FROM settings WHERE key='quota'");
    reveal_strlit("SELECT CAST(value AS INTEGER) FROM settings WHERE ");
    reveal_strlit("quota");
    reveal_strlit("key=");
    reveal_strlit("'");
    assert(Form::Quota.sql_text() =~= written(Form::Quota));
}

proof fn lemma_text_set_quota()
    ensures
        Form::SetQuota.sql_text() == written(Form::SetQuota),
{
    reveal_strlit("UPDATE settings SET value=?1 WHERE key='quota'");
    reveal_strlit("UPDATE settings SET value=?1 WHERE ");
    reveal_strlit("quota");
    reveal_strlit("key=");
    reveal_strlit("'");
    assert(Form::SetQuota.sql_text() =~= written(Form::SetQuota));
}

proof fn lemma_text_migrated()
    ensures
        Form::Migrated.sql_text() == written(Form::Migrated),
{
    reveal_strlit("SELECT EXISTS(SELECT 1 FROM settings WHERE key='history_rowid_v1')");
    reveal_strlit("SELECT EXISTS(SELECT 1 FROM settings WHERE ");
    reveal_strlit("history_rowid_v1");
    reveal_strlit(")");
    reveal_strlit("key=");
    reveal_strlit("'");
    assert(Form::Migrated.sql_text() =~= written(Form::Migrated));
}

proof fn lemma_text_restart_imports()
    ensures
        Form::RestartImports.sql_text() == written(Form::RestartImports),
{
    lemma_first_position();
    reveal_strlit("UPDATE import_positions SET position='-9223372036854775808',done=0 WHERE conversation IN (SELECT id FROM conversations WHERE state IN ('indexing','incompatible_message_index'))");
    reveal_strlit("UPDATE import_positions SET position=");
    reveal_strlit(",done=0 WHERE conversation IN (SELECT id FROM conversations WHERE state IN (");
    reveal_strlit("indexing");
    reveal_strlit(",");
    reveal_strlit("incompatible_message_index");
    reveal_strlit("))");
    reveal_strlit("'");
    reveal_strlit("-9223372036854775808");
    assert(Form::RestartImports.sql_text() =~= written(Form::RestartImports));
}

proof fn lemma_text_reopen_incompatible()
    ensures
        Form::ReopenIncompatible.sql_text() == written(Form::ReopenIncompatible),
{
    lemma_numbers();
    reveal_with_fuel(test_text, 5);
    reveal_strlit("UPDATE conversations SET state='indexing' WHERE state='incompatible_message_index'");
    reveal_strlit("UPDATE conversations SET state='indexing' WHERE ");
    reveal_strlit("incompatible_message_index");
    reveal_strlit("state");
    reveal_strlit("=");
    reveal_strlit("'");
    assert(Form::ReopenIncompatible.sql_text() =~= written(Form::ReopenIncompatible));
}

proof fn lemma_text_mark_migrated()
    ensures
        Form::MarkMigrated.sql_text() == written(Form::MarkMigrated),
{
    reveal_strlit("INSERT INTO settings(key,value) VALUES('history_rowid_v1','1')");
    reveal_strlit("INSERT INTO settings(key,value) VALUES(");
    reveal_strlit("history_rowid_v1");
    reveal_strlit(",'1')");
    reveal_strlit("'");
    assert(Form::MarkMigrated.sql_text() =~= written(Form::MarkMigrated));
}

proof fn lemma_text_retry_column_errors()
    ensures
        Form::RetryColumnErrors.sql_text() == written(Form::RetryColumnErrors),
{
    reveal_strlit("UPDATE conversations SET state='indexing' WHERE state LIKE 'history_column_type_error%'");
    reveal_strlit("UPDATE conversations SET state='indexing' WHERE state LIKE ");
    reveal_strlit("history_column_type_error%");
    reveal_strlit("'");
    assert(Form::RetryColumnErrors.sql_text() =~= written(Form::RetryColumnErrors));
}

proof fn lemma_text_insert_position()
    ensures
        Form::InsertPosition.sql_text() == written(Form::InsertPosition),
{
    lemma_rows();
    reveal_strlit("INSERT OR IGNORE INTO import_positions VALUES(?1,?2,?3,0)");
    reveal_strlit("INSERT OR IGNORE INTO import_positions VALUES(");
    reveal_strlit(")");
    reveal_strlit("?1,?2,?3,0");
    assert(Form::InsertPosition.sql_text() =~= written(Form::InsertPosition));
}

proof fn lemma_text_saved_position()
    ensures
        Form::SavedPosition.sql_text() == written(Form::SavedPosition),
{
    lemma_numbers();
    reveal_with_fuel(test_text, 5);
    reveal_strlit("SELECT position FROM import_positions WHERE conversation=?1 AND shard=?2");
    reveal_strlit("SELECT position FROM import_positions WHERE ");
    reveal_strlit("conversation");
    reveal_strlit("shard");
    reveal_strlit("=");
    reveal_strlit("?");
    reveal_strlit(" AND ");
    assert(Form::SavedPosition.sql_text() =~= written(Form::SavedPosition));
}

proof fn lemma_text_message_home()
    ensures
        Form::MessageHome.sql_text() == written(Form::MessageHome),
{
    lemma_numbers();
    reveal_with_fuel(test_text, 5);
    reveal_strlit("SELECT m.conversation,m.time FROM messages m JOIN conversations c ON c.id=m.conversation AND c.enabled=1 WHERE m.id=?1");
    reveal_strlit("SELECT m.conversation,m.time FROM messages m JOIN conversations c ON ");
    reveal_strlit(" WHERE ");
    reveal_strlit("m.");
    reveal_strlit("c.");
    reveal_strlit("id");
    reveal_strlit("conversation");
    reveal_strlit("enabled");
    reveal_strlit("=");
    reveal_strlit(" AND ");
    reveal_strlit("?");
    assert(Form::MessageHome.sql_text() =~= written(Form::MessageHome));
}

proof fn lemma_text_context()
    ensures
        Form::Context.sql_text() == written(Form::Context),
{
    lemma_numbers();
    reveal_with_fuel(test_text, 5);
    reveal_strlit("SELECT data FROM (SELECT * FROM messages WHERE conversation=?1 AND (time,id)<(?2,?3) ORDER BY time DESC,id DESC LIMIT ?4) UNION ALL SELECT data FROM (SELECT * FROM messages WHERE conversation=?1 AND (time,id)>=(?2,?3) ORDER BY time,id LIMIT ?4)");
    reveal_strlit("SELECT data FROM (SELECT * FROM messages WHERE ");
    reveal_strlit(" ORDER BY time DESC,id DESC LIMIT ?4) UNION ALL SELECT data FROM (SELECT * FROM messages WHERE ");
    reveal_strlit(" ORDER BY time,id LIMIT ?4)");
    reveal_strlit("conversation");
    reveal_strlit("=");
    reveal_strlit("?");
    reveal_strlit(" AND ");
    reveal_strlit("(");
    reveal_strlit(")");
    reveal_strlit(",");
    reveal_strlit("time");
    reveal_strlit("id");
    reveal_strlit("<");
    reveal_strlit(">=");
    assert(Form::Context.sql_text() =~= written(Form::Context));
}

proof fn lemma_text_message_data()
    ensures
        Form::MessageData.sql_text() == written(Form::MessageData),
{
    lemma_numbers();
    reveal_with_fuel(test_text, 5);
    reveal_strlit("SELECT m.data FROM messages m JOIN conversations c ON c.id=m.conversation AND c.enabled=1 WHERE m.id=?1");
    reveal_strlit("SELECT m.data FROM messages m JOIN conversations c ON ");
    reveal_strlit(" WHERE ");
    reveal_strlit("m.");
    reveal_strlit("c.");
    reveal_strlit("id");
    reveal_strlit("conversation");
    reveal_strlit("enabled");
    reveal_strlit("=");
    reveal_strlit(" AND ");
    reveal_strlit("?");
    assert(Form::MessageData.sql_text() =~= written(Form::MessageData));
}

proof fn lemma_text_pending_import()
    ensures
        Form::PendingImport.sql_text() == written(Form::PendingImport),
{
    lemma_numbers();
    reveal_with_fuel(test_text, 5);
    reveal_strlit("SELECT p.conversation,p.shard,p.position FROM import_positions p JOIN conversations c ON c.id=p.conversation WHERE p.done=0 AND c.enabled=1 AND c.state='indexing' LIMIT 1");
    reveal_strlit("SELECT p.conversation,p.shard,p.position FROM import_positions p JOIN conversations c ON ");
    reveal_strlit(" WHERE ");
    reveal_strlit(" LIMIT 1");
    reveal_strlit("c.");
    reveal_strlit("p.");
    reveal_strlit("id");
    reveal_strlit("conversation");
    reveal_strlit("=");
    reveal_strlit("done");
    reveal_strlit("enabled");
    reveal_strlit("state");
    reveal_strlit(" AND ");
    reveal_strlit("'");
    reveal_strlit("indexing");
    assert(Form::PendingImport.sql_text() =~= written(Form::PendingImport));
}

proof fn lemma_text_set_state()
    ensures
        Form::SetState.sql_text() == written(Form::SetState),
{
    lemma_numbers();
    reveal_with_fuel(test_text, 5);
    reveal_strlit("UPDATE conversations SET state=?2 WHERE id=?1");
    reveal_strlit("UPDATE conversations SET state=?2 WHERE ");
    reveal_strlit("id");
    reveal_strlit("=");
    reveal_strlit("?");
    assert(Form::SetState.sql_text() =~= written(Form::SetState));
}

proof fn lemma_text_set_position()
    ensures
        Form::SetPosition.sql_text() == written(Form::SetPosition),
{
    lemma_numbers();
    reveal_with_fuel(test_text, 5);
    reveal_strlit("UPDATE import_positions SET position=?3,done=?4 WHERE conversation=?1 AND shard=?2");
    reveal_strlit("UPDATE import_positions SET position=?3,done=?4 WHERE ");
    reveal_strlit("conversation");
    reveal_strlit("shard");
    reveal_strlit("=");
    reveal_strlit("?");
    reveal_strlit(" AND ");
    assert(Form::SetPosition.sql_text() =~= written(Form::SetPosition));
}

proof fn lemma_text_mark_ready()
    ensures
        Form::MarkReady.sql_text() == written(Form::MarkReady),
{
    lemma_numbers();
    reveal_with_fuel(test_text, 5);
    reveal_strlit("UPDATE conversations SET state='ready' WHERE id=?1 AND NOT EXISTS(SELECT 1 FROM import_positions WHERE conversation=?1 AND done=0)");
    reveal_strlit("UPDATE conversations SET state='ready' WHERE ");
    reveal_strlit(" AND NOT EXISTS(SELECT 1 FROM import_positions WHERE ");
    reveal_strlit(")");
    reveal_strlit("id");
    reveal_strlit("=");
    reveal_strlit("?");
    reveal_strlit("conversation");
    reveal_strlit("done");
    reveal_strlit(" AND ");
    assert(Form::MarkReady.sql_text() =~= written(Form::MarkReady));
}

proof fn lemma_first_position()
    ensures
        crate::backend::first_position() == "-9223372036854775808"@,
{
    reveal_strlit("-9223372036854775808");
    reveal_with_fuel(crate::text::digits, 20);
    assert(crate::backend::first_position() =~= "-9223372036854775808"@);
}

proof fn lemma_terms(v: Seq<Term>, last: Term)
    requires
        v.len() > 0,
    ensures
        terms_text(v.push(last)) == terms_text(v) + ","@ + term_text(last),
{
    assert(v.push(last).drop_last() =~= v);
}

proof fn lemma_rows()
    ensures
        terms_text(granted_row()) == "?1,?2,1,'indexing'"@,
        terms_text(seq![Term::Param(1), Term::Param(2), Term::Param(2)]) == "?1,?2,?2"@,
        terms_text(params(3)) == "?1,?2,?3"@,
        terms_text(params(3).push(Term::Number(0))) == "?1,?2,?3,0"@,
{
    lemma_numbers();
    reveal_strlit("?1,?2,1,'indexing'");
    reveal_strlit("?1,?2,?2");
    reveal_strlit("?1,?2,?3");
    reveal_strlit("?1,?2,?3,0");
    reveal_strlit("'");
    reveal_strlit("indexing");
    reveal_strlit("?");
    reveal_strlit(",");
    let one = seq![Term::Param(1)];
    let two = one.push(Term::Param(2));
    lemma_terms(one, Term::Param(2));
    lemma_terms(two, Term::Param(2));
    lemma_terms(two, Term::Param(3));
    lemma_terms(two, Term::Number(1));
    lemma_terms(two.push(Term::Number(1)), Term::Quoted("indexing"@));
    lemma_terms(params(3), Term::Number(0));
    assert(granted_row() =~= two.push(Term::Number(1)).push(Term::Quoted("indexing"@)));
    assert(seq![Term::Param(1), Term::Param(2), Term::Param(2)] =~= two.push(Term::Param(2)));
    assert(params(3) =~= two.push(Term::Param(3)));
    assert(terms_text(granted_row()) =~= "?1,?2,1,'indexing'"@);
    assert(terms_text(seq![Term::Param(1), Term::Param(2), Term::Param(2)]) =~= "?1,?2,?2"@);
    assert(terms_text(params(3)) =~= "?1,?2,?3"@);
    assert(terms_text(params(3).push(Term::Number(0))) =~= "?1,?2,?3,0"@);
}

proof fn lemma_params()
    ensures
        terms_text(params(9)) == "?1,?2,?3,?4,?5,?6,?7,?8,?9"@,
{
    lemma_numbers();
    reveal_strlit("?1,?2,?3,?4,?5,?6,?7,?8,?9");
    reveal_strlit("?");
    reveal_strlit(",");
    assert(params(1) =~= seq![Term::Param(1)]);
    lemma_terms(params(1), Term::Param(2));
    assert(params(2) =~= params(1).push(Term::Param(2)));
    lemma_terms(params(2), Term::Param(3));
    assert(params(3) =~= params(2).push(Term::Param(3)));
    lemma_terms(params(3), Term::Param(4));
    assert(params(4) =~= params(3).push(Term::Param(4)));
    lemma_terms(params(4), Term::Param(5));
    assert(params(5) =~= params(4).push(Term::Param(5)));
    lemma_terms(params(5), Term::Param(6));
    assert(params(6) =~= params(5).push(Term::Param(6)));
    lemma_terms(params(6), Term::Param(7));
    assert(params(7) =~= params(6).push(Term::Param(7)));
    lemma_terms(params(7), Term::Param(8));
    assert(params(8) =~= params(7).push(Term::Param(8)));
    lemma_terms(params(8), Term::Param(9));
    assert(params(9) =~= params(8).push(Term::Param(9)));
    assert(terms_text(params(9)) =~= "?1,?2,?3,?4,?5,?6,?7,?8,?9"@);
}

proof fn lemma_columns()
    ensures
        columns_text(filed_columns())
            == "id,conversation,member,time,sort_seq,type,body,fts_body,data"@,
{
    reveal_strlit("id,conversation,member,time,sort_seq,type,body,fts_body,data");
    reveal_strlit("id");
    reveal_strlit("conversation");
    reveal_strlit("member");
    reveal_strlit("time");
    reveal_strlit("sort_seq");
    reveal_strlit("type");
    reveal_strlit("body");
    reveal_strlit("fts_body");
    reveal_strlit("data");
    reveal_strlit(",");
    let v1 = seq![own(Column::Id)];
    let v2 = v1.push(own(Column::Conversation));
    lemma_terms(v1, own(Column::Conversation));
    let v3 = v2.push(own(Column::Member));
    lemma_terms(v2, own(Column::Member));
    let v4 = v3.push(own(Column::Time));
    lemma_terms(v3, own(Column::Time));
    let v5 = v4.push(own(Column::SortSeq));
    lemma_terms(v4, own(Column::SortSeq));
    let v6 = v5.push(own(Column::Kind));
    lemma_terms(v5, own(Column::Kind));
    let v7 = v6.push(own(Column::Body));
    lemma_terms(v6, own(Column::Body));
    let v8 = v7.push(own(Column::Tokens));
    lemma_terms(v7, own(Column::Tokens));
    let v9 = v8.push(own(Column::Data));
    lemma_terms(v8, own(Column::Data));
    assert(Seq::new(filed_columns().len(), |i: int| own(filed_columns()[i])) =~= v9);
    assert(columns_text(filed_columns())
        =~= "id,conversation,member,time,sort_seq,type,body,fts_body,data"@);
}

/// Every statement is written so, part by part: what it says of rows is the test
/// that stands in it.
pub proof fn law_statements_are_written_so(form: Form)
    ensures
        form.sql_text() == written(form),
{
    match form {
        Form::Schema => {},
        Form::StoredAccount => lemma_text_stored_account(),
        Form::KeepAccount => lemma_text_keep_account(),
        Form::CursorKey => lemma_text_cursor_key(),
        Form::StoreCursorKey => lemma_text_store_cursor_key(),
        Form::Generation => lemma_text_generation(),
        Form::BumpGeneration => lemma_text_bump_generation(),
        Form::Grant => lemma_text_grant(),
        Form::Disable => lemma_text_disable(),
        Form::DeleteMessages => lemma_text_delete_messages(),
        Form::DeleteMembers => lemma_text_delete_members(),
        Form::DeletePositions => lemma_text_delete_positions(),
        Form::DeleteConversation => lemma_text_delete_conversation(),
        Form::Resolve => lemma_text_resolve(),
        Form::EnabledConversations => lemma_text_enabled_conversations(),
        Form::State => lemma_text_state(),
        Form::List => lemma_text_list(),
        Form::InsertMessage => lemma_text_insert_message(),
        Form::InsertMember => lemma_text_insert_member(),
        Form::InsertNamedMember => lemma_text_insert_named_member(),
        Form::NewestMessage => lemma_text_newest_message(),
        Form::MemberIds => lemma_text_member_ids(),
        Form::NewestMember => lemma_text_newest_member(),
        Form::MemberPage => lemma_text_member_page(),
        Form::MemberNames => lemma_text_member_names(),
        Form::Quota => lemma_text_quota(),
        Form::SetQuota => lemma_text_set_quota(),
        Form::Migrated => lemma_text_migrated(),
        Form::RestartImports => lemma_text_restart_imports(),
        Form::ReopenIncompatible => lemma_text_reopen_incompatible(),
        Form::MarkMigrated => lemma_text_mark_migrated(),
        Form::RetryColumnErrors => lemma_text_retry_column_errors(),
        Form::InsertPosition => lemma_text_insert_position(),
        Form::SavedPosition => lemma_text_saved_position(),
        Form::MessageHome => lemma_text_message_home(),
        Form::Context => lemma_text_context(),
        Form::MessageData => lemma_text_message_data(),
        Form::PendingImport => lemma_text_pending_import(),
        Form::SetState => lemma_text_set_state(),
        Form::SetPosition => lemma_text_set_position(),
        Form::MarkReady => lemma_text_mark_ready(),
    }
}

/// What is deleted are the rows that pass the test of the statement, and nothing
/// else.
pub proof fn law_deletions_mean_their_tests(a: Archive, id: Seq<char>)
    ensures
        crate::model::effect(a, crate::sql::st1(Form::DeleteMessages, SqlV::Text(id))) == (Archive {
            messages: a.messages.filter(
                |m: Filed|
                    !passes(
                        given(Column::Conversation, 1),
                        alone(Row::Message(m)),
                        seq![SqlV::Text(id)],
                    ),
            ),
            ..a
        }),
        crate::model::effect(a, crate::sql::st1(Form::DeleteMembers, SqlV::Text(id))) == (Archive {
            members: a.members.filter(
                |m: Known|
                    !passes(
                        given(Column::Conversation, 1),
                        alone(Row::Member(m)),
                        seq![SqlV::Text(id)],
                    ),
            ),
            ..a
        }),
        crate::model::effect(a, crate::sql::st1(Form::DeletePositions, SqlV::Text(id))) == (
        Archive {
            positions: a.positions.filter(
                |p: Position|
                    !passes(
                        given(Column::Conversation, 1),
                        alone(Row::Place(p)),
                        seq![SqlV::Text(id)],
                    ),
            ),
            ..a
        }),
        crate::model::effect(a, crate::sql::st1(Form::DeleteConversation, SqlV::Text(id))) == (
        Archive {
            conversations: a.conversations.filter(
                |c: ConversationRowV|
                    !passes(
                        given(Column::Id, 1),
                        alone(Row::Conversation(c)),
                        seq![SqlV::Text(id)],
                    ),
            ),
            ..a
        }),
{
    let args = seq![SqlV::Text(id)];
    assert((|m: Filed| !passes(given(Column::Conversation, 1), alone(Row::Message(m)), args))
        =~= (|m: Filed| m.conversation != crate::model::text_arg(args, 0)));
    assert((|m: Known| !passes(given(Column::Conversation, 1), alone(Row::Member(m)), args))
        =~= (|m: Known| m.conversation != crate::model::text_arg(args, 0)));
    assert((|p: Position| !passes(given(Column::Conversation, 1), alone(Row::Place(p)), args))
        =~= (|p: Position| p.conversation != crate::model::text_arg(args, 0)));
    assert((|c: ConversationRowV| !passes(given(Column::Id, 1), alone(Row::Conversation(c)), args))
        =~= (|c: ConversationRowV| c.id != crate::model::text_arg(args, 0)));
}

/// Whether a text fits a pattern, in which `%` stands for any characters and `_`
/// for any one; the case of letters does not count.
pub open spec fn like(s: Seq<char>, pattern: Seq<char>) -> bool
    decreases s.len() + pattern.len(),
{
    if pattern.len() == 0 {
        s.len() == 0
    } else if pattern[0] == '%' {
        like(s, pattern.skip(1)) || (s.len() > 0 && like(s.skip(1), pattern))
    } else {
        s.len() > 0 && (pattern[0] == '_' || crate::model::folded(s[0]) == crate::model::folded(
            pattern[0],
        )) && like(s.skip(1), pattern.skip(1))
    }
}

proof fn lemma_anything_fits(s: Seq<char>, pattern: Seq<char>)
    requires
        pattern.len() == 1,
        pattern[0] == '%',
    ensures
        like(s, pattern),
    decreases s.len(),
{
    reveal_with_fuel(like, 2);
    if s.len() > 0 {
        lemma_anything_fits(s.skip(1), pattern);
    }
}

proof fn lemma_like_prefix(s: Seq<char>, p: Seq<char>)
    requires
        !p.contains('%'),
    ensures
        like(s, p.push('%')) <==> s.len() >= p.len() && forall|i: int|
            0 <= i < p.len() ==> #[trigger] p[i] == '_' || crate::model::folded(s[i])
                == crate::model::folded(p[i]),
    decreases p.len(),
{
    let pattern = p.push('%');
    if p.len() == 0 {
        lemma_anything_fits(s, pattern);
    } else {
        let rest = p.skip(1);
        assert(pattern.skip(1) =~= rest.push('%'));
        assert forall|i: int| 0 <= i < rest.len() implies rest[i] != '%' by {
            assert(p.contains(p[i + 1]));
        }
        assert(p.contains(p[0]));
        if s.len() > 0 {
            lemma_like_prefix(s.skip(1), rest);
            if like(s, pattern) {
                assert forall|i: int| 0 <= i < p.len() implies #[trigger] p[i] == '_'
                    || crate::model::folded(s[i]) == crate::model::folded(p[i]) by {
                    if i > 0 {
                        assert(rest[i - 1] == p[i]);
                        assert(s.skip(1)[i - 1] == s[i]);
                    }
                }
            }
            if s.len() >= p.len() && forall|i: int|
                0 <= i < p.len() ==> #[trigger] p[i] == '_' || crate::model::folded(s[i])
                    == crate::model::folded(p[i]) {
                assert forall|i: int| 0 <= i < rest.len() implies #[trigger] rest[i] == '_'
                    || crate::model::folded(s.skip(1)[i]) == crate::model::folded(rest[i]) by {
                    assert(p[i + 1] == rest[i]);
                }
                assert(p[0] == '_' || crate::model::folded(s[0]) == crate::model::folded(p[0]));
            }
        }
    }
}

proof fn lemma_column_errors(state: Seq<char>)
    ensures
        crate::model::is_column_error(state) <==> like(state, "history_column_type_error%"@),
{
    reveal_strlit("history_column_type_error");
    reveal_strlit("history_column_type_error%");
    let p = "history_column_type_error"@;
    assert("history_column_type_error%"@ =~= p.push('%'));
    assert forall|i: int| 0 <= i < p.len() implies p[i] != '%' && crate::model::folded(
        #[trigger] p[i],
    ) == p[i] as int by {}
    assert(!p.contains('%'));
    lemma_like_prefix(state, p);
}

/// What is changed are the rows that pass the test of the statement, in the
/// columns that it sets, and nothing else.
pub proof fn law_updates_mean_their_tests(
    a: Archive,
    id: Seq<char>,
    state: Seq<char>,
    shard: Seq<char>,
    position: Seq<char>,
    done: i64,
)
    ensures
        crate::model::effect(a, crate::sql::st1(Form::Disable, SqlV::Text(id))) =~= (Archive {
            conversations: Seq::new(
                a.conversations.len(),
                |i: int|
                    if passes(
                        given(Column::Id, 1),
                        alone(Row::Conversation(a.conversations[i])),
                        seq![SqlV::Text(id)],
                    ) {
                        ConversationRowV { enabled: false, ..a.conversations[i] }
                    } else {
                        a.conversations[i]
                    },
            ),
            ..a
        }),
        crate::model::effect(
            a,
            crate::sql::st2(Form::SetState, SqlV::Text(id), SqlV::Text(state)),
        ) =~= (Archive {
            conversations: Seq::new(
                a.conversations.len(),
                |i: int|
                    if passes(
                        given(Column::Id, 1),
                        alone(Row::Conversation(a.conversations[i])),
                        seq![SqlV::Text(id), SqlV::Text(state)],
                    ) {
                        ConversationRowV { state, ..a.conversations[i] }
                    } else {
                        a.conversations[i]
                    },
            ),
            ..a
        }),
        crate::model::effect(
            a,
            crate::sql::st4(
                Form::SetPosition,
                SqlV::Text(id),
                SqlV::Text(shard),
                SqlV::Text(position),
                SqlV::Int(done),
            ),
        ) =~= (Archive {
            positions: Seq::new(
                a.positions.len(),
                |i: int|
                    if passes(
                        test_place(),
                        alone(Row::Place(a.positions[i])),
                        seq![SqlV::Text(id), SqlV::Text(shard)],
                    ) {
                        Position { position, done: done != 0, ..a.positions[i] }
                    } else {
                        a.positions[i]
                    },
            ),
            ..a
        }),
        crate::model::effect(a, crate::sql::st1(Form::MarkReady, SqlV::Text(id))) =~= (Archive {
            conversations: Seq::new(
                a.conversations.len(),
                |i: int|
                    if passes(
                        given(Column::Id, 1),
                        alone(Row::Conversation(a.conversations[i])),
                        seq![SqlV::Text(id)],
                    ) && !exists|k: int|
                        0 <= k < a.positions.len() && passes(
                            test_open_place(),
                            alone(Row::Place(#[trigger] a.positions[k])),
                            seq![SqlV::Text(id)],
                        ) {
                        ConversationRowV { state: "ready"@, ..a.conversations[i] }
                    } else {
                        a.conversations[i]
                    },
            ),
            ..a
        }),
        crate::model::effect(a, crate::sql::st0(Form::ReopenIncompatible)) =~= (Archive {
            conversations: Seq::new(
                a.conversations.len(),
                |i: int|
                    if passes(
                        same(own(Column::State), Term::Quoted("incompatible_message_index"@)),
                        alone(Row::Conversation(a.conversations[i])),
                        Seq::empty(),
                    ) {
                        ConversationRowV { state: "indexing"@, ..a.conversations[i] }
                    } else {
                        a.conversations[i]
                    },
            ),
            ..a
        }),
        crate::model::effect(a, crate::sql::st0(Form::RetryColumnErrors)) =~= (Archive {
            conversations: Seq::new(
                a.conversations.len(),
                |i: int|
                    if like(a.conversations[i].state, "history_column_type_error%"@) {
                        ConversationRowV { state: "indexing"@, ..a.conversations[i] }
                    } else {
                        a.conversations[i]
                    },
            ),
            ..a
        }),
        crate::model::effect(a, crate::sql::st0(Form::RestartImports)) =~= (Archive {
            positions: Seq::new(
                a.positions.len(),
                |i: int|
                    if exists|k: int|
                        0 <= k < a.conversations.len() && (#[trigger] a.conversations[k]).id
                            == a.positions[i].conversation && (a.conversations[k].state
                            == "indexing"@ || a.conversations[k].state
                            == "incompatible_message_index"@) {
                        Position {
                            position: crate::backend::first_position(),
                            done: false,
                            ..a.positions[i]
                        }
                    } else {
                        a.positions[i]
                    },
            ),
            ..a
        }),
        crate::text::parsed(crate::backend::first_position()) == Some(i64::MIN),
{
    reveal_with_fuel(passes, 4);
    let conversations = a.conversations;
    crate::text::law_decimal_round_trip(i64::MIN);
    assert forall|i: int| 0 <= i < conversations.len() implies (crate::model::is_column_error(
        (#[trigger] conversations[i]).state,
    ) <==> like(conversations[i].state, "history_column_type_error%"@)) by {
        lemma_column_errors(conversations[i].state);
    }
    let of_id = seq![SqlV::Text(id)];
    assert forall|p: Position| #[trigger] passes(
        test_open_place(),
        alone(Row::Place(p)),
        of_id,
    ) <==> p.conversation == id && !p.done by {}
    assert(crate::model::is_pending(a, id) <==> exists|k: int|
        0 <= k < a.positions.len() && passes(
            test_open_place(),
            alone(Row::Place(#[trigger] a.positions[k])),
            seq![SqlV::Text(id)],
        ));
}

/// What is filled in are the columns in their order: a conversation that is
/// enabled, a message that is filed, a member that is noted and a place that is
/// begun hold what is bound for each column, and what the statement itself
/// names.
pub proof fn law_inserts_mean_their_columns(a: Archive, args: Seq<SqlV>)
    ensures
        args.len() == 2 && args[0] is Text && args[1] is Text && !crate::model::is_listed(
            a,
            args[0]->Text_0,
        ) ==> crate::model::effect(a, crate::sql::st(Form::Grant, args)).conversations.len()
            == a.conversations.len() + 1 && holds_row(
            Row::Conversation(
                crate::model::effect(a, crate::sql::st(Form::Grant, args)).conversations.last(),
            ),
            seq![Column::Id, Column::Name, Column::Enabled, Column::State],
            granted_row(),
            args,
        ),
        args.len() == 9 && args[0] is Text && args[1] is Text && args[2] is Text && args[3] is Int
            && args[5] is Text && args[7] is Text && args[8] is Text && !crate::model::is_filed(
            a,
            args[0]->Text_0,
        ) ==> {
            let b = crate::model::effect(a, crate::sql::st(Form::InsertMessage, args));
            let row = Row::Message(b.messages.last());
            &&& b.messages.len() == a.messages.len() + 1
            &&& forall|i: int|
                0 <= i < 9 && filed_columns()[i] != Column::SortSeq && filed_columns()[i]
                    != Column::Body ==> field(row, #[trigger] filed_columns()[i]) == value(
                    params(9)[i],
                    alone(row),
                    args,
                )
        },
        args.len() == 2 && args[0] is Text && args[1] is Text && !crate::model::is_known(
            a,
            args[0]->Text_0,
            args[1]->Text_0,
            args[1]->Text_0,
        ) ==> holds_row(
            Row::Member(
                crate::model::effect(a, crate::sql::st(Form::InsertMember, args)).members.last(),
            ),
            seq![Column::Conversation, Column::Id, Column::Name],
            seq![Term::Param(1), Term::Param(2), Term::Param(2)],
            args,
        ),
        args.len() == 3 && args[0] is Text && args[1] is Text && args[2] is Text
            && !crate::model::is_known(a, args[0]->Text_0, args[1]->Text_0, args[2]->Text_0)
            ==> holds_row(
            Row::Member(
                crate::model::effect(a, crate::sql::st(Form::InsertNamedMember, args)).members.last(),
            ),
            seq![Column::Conversation, Column::Id, Column::Name],
            params(3),
            args,
        ),
        args.len() == 3 && args[0] is Text && args[1] is Text && args[2] is Text
            && !crate::model::has_place(a, args[0]->Text_0, args[1]->Text_0) ==> holds_row(
            Row::Place(
                crate::model::effect(a, crate::sql::st(Form::InsertPosition, args)).positions.last(),
            ),
            seq![Column::Conversation, Column::Shard, Column::Place, Column::Done],
            params(3).push(Term::Number(0)),
            args,
        ),
{
}

/// Whether a row holds in each column the value of the term for it.
pub open spec fn holds_row(row: Row, columns: Seq<Column>, terms: Seq<Term>, args: Seq<SqlV>) -> bool {
    &&& columns.len() == terms.len()
    &&& forall|i: int|
        0 <= i < columns.len() ==> field(row, #[trigger] columns[i]) == value(
            terms[i],
            alone(row),
            args,
        )
}

/// What is asked of the conversations goes by the tests of the statements: who
/// answers to a name, who is enabled, and who belongs in a list.
pub proof fn law_conversations_are_asked_by_their_tests(
    a: Archive,
    name: Seq<char>,
    id: Seq<char>,
    query: Seq<char>,
    all: i64,
    answer: AnswerV,
)
    ensures
        crate::model::is_called(a, name, id) <==> exists|i: int|
            0 <= i < a.conversations.len() && (#[trigger] a.conversations[i]).id == id && passes(
                test_called(),
                alone(Row::Conversation(a.conversations[i])),
                seq![SqlV::Text(name)],
            ),
        crate::model::is_enabled(a, id) <==> exists|i: int|
            0 <= i < a.conversations.len() && (#[trigger] a.conversations[i]).id == id && passes(
                test_enabled(),
                alone(Row::Conversation(a.conversations[i])),
                Seq::empty(),
            ),
        forall|c: ConversationRowV| #[trigger]
            crate::model::belongs(c, query, all) <==> passes(
                test_listed(),
                alone(Row::Conversation(c)),
                seq![SqlV::Text(query), SqlV::Int(all)],
            ),
{
    reveal_with_fuel(passes, 5);
    let of_name = seq![SqlV::Text(name)];
    assert forall|c: ConversationRowV| #[trigger] passes(
        test_called(),
        alone(Row::Conversation(c)),
        of_name,
    ) <==> c.enabled && (c.id == name || c.name == name) by {}
    assert forall|c: ConversationRowV| #[trigger] passes(
        test_enabled(),
        alone(Row::Conversation(c)),
        Seq::empty(),
    ) <==> c.enabled by {}
}

/// No more conversations are told than the statement asks for.
pub proof fn law_no_more_is_told(
    a: Archive,
    name: Seq<char>,
    query: Seq<char>,
    all: i64,
    conversation: Seq<char>,
    answer: AnswerV,
)
    ensures
        crate::model::tells(a, crate::sql::st1(Form::Resolve, SqlV::Text(name)), answer) <==> (
        answer matches AnswerV::Texts(ids) && exists|v: Seq<Seq<char>>| #[trigger]
            crate::model::lists_ids(v, crate::model::called(a, name)) && ids
                == crate::model::first_of(v, most(Form::Resolve))),
        crate::model::tells(
            a,
            crate::sql::st2(Form::List, SqlV::Text(query), SqlV::Int(all)),
            answer,
        ) <==> (answer matches AnswerV::Conversations(rows) && exists|v: Seq<ConversationRowV>|
            #[trigger]
            crate::model::lists_conversations(a, query, all, v) && rows == crate::model::first_of(
                v,
                most(Form::List),
            )),
        crate::model::tells(
            a,
            crate::sql::st2(Form::MemberIds, SqlV::Text(conversation), SqlV::Text(name)),
            answer,
        ) ==> (answer matches AnswerV::Texts(ids) && ids.no_duplicates() && ids.len() <= most(
            Form::MemberIds,
        ) && (forall|i: int|
            0 <= i < ids.len() ==> crate::model::answers_to(
                a,
                conversation,
                name,
                #[trigger] ids[i],
            )) && (ids.len() < most(Form::MemberIds) ==> forall|id: Seq<char>|
            crate::model::answers_to(a, conversation, name, id) ==> #[trigger] ids.contains(id))),
{
    let resolve = crate::sql::st1(Form::Resolve, SqlV::Text(name));
    let list = crate::sql::st2(Form::List, SqlV::Text(query), SqlV::Int(all));
    assert(crate::model::text_arg(resolve->Fixed_args, 0) == name);
    assert(crate::model::text_arg(list->Fixed_args, 0) == query);
    assert(crate::model::int_arg(list->Fixed_args, 1) == all);
    if crate::model::tells(a, resolve, answer) {
        let v = choose|v: Seq<Seq<char>>| #[trigger]
            crate::model::lists_ids(
                v,
                crate::model::called(a, crate::model::text_arg(resolve->Fixed_args, 0)),
            ) && answer->Texts_0 == crate::model::first_of(v, 21);
        assert(crate::model::lists_ids(v, crate::model::called(a, name)));
    }
    if crate::model::tells(a, list, answer) {
        let v = choose|v: Seq<ConversationRowV>| #[trigger]
            crate::model::lists_conversations(
                a,
                crate::model::text_arg(list->Fixed_args, 0),
                crate::model::int_arg(list->Fixed_args, 1),
                v,
            ) && answer->Conversations_0 == crate::model::first_of(v, 200);
        assert(crate::model::lists_conversations(a, query, all, v));
    }
}

/// What is asked of the members goes by the tests of the statements: who answers
/// to a name, who belongs on a page, and under which names a member was seen.
pub proof fn law_members_are_asked_by_their_tests(
    a: Archive,
    conversation: Seq<char>,
    name: Seq<char>,
    id: Seq<char>,
    behind: Seq<char>,
    snapshot: i64,
    query: Seq<char>,
)
    ensures
        crate::model::answers_to(a, conversation, name, id) <==> exists|i: int|
            0 <= i < a.members.len() && (#[trigger] a.members[i]).id == id && passes(
                test_answers(),
                alone(Row::Member(a.members[i])),
                seq![SqlV::Text(conversation), SqlV::Text(name)],
            ),
        crate::text::text_lt(behind, id) && crate::model::is_member(
            a,
            conversation,
            snapshot,
            query,
            id,
        ) <==> exists|i: int|
            0 <= i < a.members.len() && (#[trigger] a.members[i]).id == id && passes(
                test_member(),
                alone(Row::Member(a.members[i])),
                seq![
                    SqlV::Text(conversation),
                    SqlV::Text(behind),
                    SqlV::Int(snapshot),
                    SqlV::Text(query),
                ],
            ),
        crate::model::is_name_of(a, conversation, id, snapshot, name) <==> exists|i: int|
            0 <= i < a.members.len() && (#[trigger] a.members[i]).name == name && passes(
                test_name(),
                alone(Row::Member(a.members[i])),
                seq![SqlV::Text(conversation), SqlV::Text(id), SqlV::Int(snapshot)],
            ),
{
    reveal_with_fuel(passes, 5);
    let of_name = seq![SqlV::Text(conversation), SqlV::Text(name)];
    let of_page = seq![
        SqlV::Text(conversation),
        SqlV::Text(behind),
        SqlV::Int(snapshot),
        SqlV::Text(query),
    ];
    let of_member = seq![SqlV::Text(conversation), SqlV::Text(id), SqlV::Int(snapshot)];
    assert forall|m: Known| #[trigger] passes(
        test_answers(),
        alone(Row::Member(m)),
        of_name,
    ) <==> m.conversation == conversation && (m.id == name || m.name == name) by {}
    assert forall|m: Known| #[trigger] passes(
        test_member(),
        alone(Row::Member(m)),
        of_page,
    ) <==> m.conversation == conversation && crate::text::text_lt(behind, m.id) && m.rowid
        <= snapshot && (crate::text::occurs(m.name, query) || crate::text::occurs(m.id, query)) by {}
    assert forall|m: Known| #[trigger] passes(
        test_name(),
        alone(Row::Member(m)),
        of_member,
    ) <==> m.conversation == conversation && m.id == id && m.rowid <= snapshot by {}
}

/// A message and the conversation that it is joined with.
pub open spec fn message_with(m: Filed, c: ConversationRowV) -> spec_fn(Alias) -> Row {
    |x: Alias|
        if x == Alias::C {
            Row::Conversation(c)
        } else {
            Row::Message(m)
        }
}

/// A place and the conversation that it is joined with.
pub open spec fn place_with(p: Position, c: ConversationRowV) -> spec_fn(Alias) -> Row {
    |x: Alias|
        if x == Alias::C {
            Row::Conversation(c)
        } else {
            Row::Place(p)
        }
}

/// What is asked of messages and of imports goes by the tests of the statements:
/// which message may be shown, which stand on each side of one, which import is
/// to be taken up, and where an import goes on.
pub proof fn law_messages_are_asked_by_their_tests(
    a: Archive,
    id: Seq<char>,
    m: Filed,
    conversation: Seq<char>,
    time: i64,
    p: Position,
    shard: Seq<char>,
)
    ensures
        crate::model::is_shown(a, id, m) <==> a.messages.contains(m) && exists|i: int|
            0 <= i < a.conversations.len() && passes(
                test_home(),
                message_with(m, #[trigger] a.conversations[i]),
                seq![SqlV::Text(id)],
            ) && passes(
                test_message(),
                message_with(m, a.conversations[i]),
                seq![SqlV::Text(id)],
            ),
        m.conversation == conversation && crate::model::precedes(m, time, id) <==> passes(
            test_side(Relation::Less),
            alone(Row::Message(m)),
            seq![SqlV::Text(conversation), SqlV::Int(time), SqlV::Text(id)],
        ),
        m.conversation == conversation && !crate::model::precedes(m, time, id) <==> passes(
            test_side(Relation::AtLeast),
            alone(Row::Message(m)),
            seq![SqlV::Text(conversation), SqlV::Int(time), SqlV::Text(id)],
        ),
        crate::model::is_due(a, p) <==> exists|i: int|
            0 <= i < a.conversations.len() && passes(
                test_joined(),
                place_with(p, #[trigger] a.conversations[i]),
                Seq::empty(),
            ) && passes(test_due(), place_with(p, a.conversations[i]), Seq::empty()),
        crate::model::is_place(p, conversation, shard) <==> passes(
            test_place(),
            alone(Row::Place(p)),
            seq![SqlV::Text(conversation), SqlV::Text(shard)],
        ),
{
    reveal_with_fuel(passes, 4);
    crate::text::lemma_text_lt_total(m.id, id);
    crate::text::lemma_text_lt_irreflexive(id);
    if crate::text::text_lt(m.id, id) && crate::text::text_lt(id, m.id) {
        crate::text::lemma_text_lt_transitive(m.id, id, m.id);
        crate::text::lemma_text_lt_irreflexive(m.id);
    }
    let of_id = seq![SqlV::Text(id)];
    assert forall|c: ConversationRowV| #[trigger] passes(
        test_home(),
        message_with(m, c),
        of_id,
    ) <==> c.id == m.conversation && c.enabled by {}
    assert forall|c: ConversationRowV| #[trigger] passes(
        test_message(),
        message_with(m, c),
        of_id,
    ) <==> m.id == id by {}
    assert forall|c: ConversationRowV| #[trigger] passes(
        test_joined(),
        place_with(p, c),
        Seq::empty(),
    ) <==> c.id == p.conversation by {}
    assert forall|c: ConversationRowV| #[trigger] passes(
        test_due(),
        place_with(p, c),
        Seq::empty(),
    ) <==> !p.done && c.enabled && c.state == "indexing"@ by {}
}

/// The newest message and the newest member are those with the highest number;
/// where there is none, the number is zero.
pub proof fn law_newest_is_the_highest(a: Archive, message: AnswerV, member: AnswerV)
    requires
        crate::model::sound(a),
        crate::model::tells(a, crate::sql::st0(Form::NewestMessage), message),
        crate::model::tells(a, crate::sql::st0(Form::NewestMember), member),
        forall|i: int| 0 <= i < a.members.len() ==> (#[trigger] a.members[i]).rowid > 0,
    ensures
        message matches AnswerV::Number(n) && is_highest(
            Seq::new(a.messages.len(), |i: int| field(Row::Message(a.messages[i]), Column::Number)),
            n,
        ),
        member matches AnswerV::Number(n) && is_highest(
            Seq::new(a.members.len(), |i: int| field(Row::Member(a.members[i]), Column::Rowid)),
            n,
        ),
{
    let numbers = Seq::new(
        a.messages.len(),
        |i: int| field(Row::Message(a.messages[i]), Column::Number),
    );
    if a.messages.len() > 0 {
        assert(numbers[numbers.len() - 1] == SqlV::Int(message->Number_0));
        assert forall|i: int| 0 <= i < numbers.len() implies (#[trigger] numbers[i] matches SqlV::Int(
            k,
        ) && k <= message->Number_0) by {
            assert(a.messages[i].seq <= a.messages[a.messages.len() - 1].seq);
        }
    }
    lemma_newest_member(a.members);
    assert(Seq::new(a.members.len(), |i: int| field(Row::Member(a.members[i]), Column::Rowid))
        =~= Seq::new(a.members.len(), |i: int| SqlV::Int(a.members[i].rowid)));
}

/// Whether a number is the highest of these, or zero where there is none.
pub open spec fn is_highest(v: Seq<SqlV>, n: i64) -> bool {
    if v.len() == 0 {
        n == 0
    } else {
        &&& v.contains(SqlV::Int(n))
        &&& forall|i: int| 0 <= i < v.len() ==> (#[trigger] v[i] matches SqlV::Int(k) && k <= n)
    }
}

proof fn lemma_newest_member(members: Seq<Known>)
    requires
        forall|i: int| 0 <= i < members.len() ==> (#[trigger] members[i]).rowid > 0,
    ensures
        0 <= crate::model::newest_member(members) <= i64::MAX,
        is_highest(
            Seq::new(members.len(), |i: int| SqlV::Int(members[i].rowid)),
            crate::model::newest_member(members) as i64,
        ),
    decreases members.len(),
{
    if members.len() > 0 {
        let before = members.drop_last();
        lemma_newest_member(before);
        let v = Seq::new(members.len(), |i: int| SqlV::Int(members[i].rowid));
        let w = Seq::new(before.len(), |i: int| SqlV::Int(before[i].rowid));
        let n = crate::model::newest_member(members) as i64;
        if members.last().rowid > crate::model::newest_member(before) {
            assert(v[members.len() - 1] == SqlV::Int(n));
        } else {
            assert(before.len() > 0);
            let k = choose|k: int| 0 <= k < w.len() && w[k] == SqlV::Int(n);
            assert(v[k] == SqlV::Int(n));
        }
        assert forall|i: int| 0 <= i < v.len() implies (#[trigger] v[i] matches SqlV::Int(k) && k
            <= n) by {
            if i < before.len() {
                assert(w[i] == v[i]);
            }
        }
    }
}


/// Whether an answer is of a shape.
pub open spec fn has_shape(answer: AnswerV, shape: Shape) -> bool {
    match shape {
        Shape::Text => answer is Text,
        Shape::MaybeText => answer is MaybeText,
        Shape::Number => answer is Number,
        Shape::Texts => answer is Texts,
        Shape::Conversations => answer is Conversations,
        Shape::Messages => answer is Messages,
        Shape::Home => answer is Home,
        Shape::Import => answer is Import,
        Shape::Changed => answer is Changed,
        Shape::Batch => true,
    }
}

/// A question is answered in the shape that it promises.
pub proof fn law_answers_have_their_shape(a: Archive, s: StatementV, answer: AnswerV)
    requires
        s.reads_only(),
        crate::model::tells(a, s, answer),
    ensures
        has_shape(answer, s.answers()),
{
}

/// What leaves the archive as it is begins with the word that asks, and what
/// changes it does not.
pub proof fn law_questions_are_selections(form: Form)
    requires
        form != Form::Schema,
    ensures
        form.reads_only() <==> form.sql_text().take(6) == "SELECT"@,
{
    reveal_strlit("SELECT");
    match form {
        Form::Schema => {},
        Form::StoredAccount => {
            reveal_strlit("SELECT value FROM settings WHERE key='account'");
            assert(form.sql_text().take(6) =~= "SELECT"@);
        },
        Form::KeepAccount => {
            reveal_strlit("INSERT OR IGNORE INTO settings VALUES('account',?1)");
            assert(form.sql_text().take(6)[0] == 'I');
            assert("SELECT"@[0] == 'S');
        },
        Form::CursorKey => {
            reveal_strlit("SELECT value FROM settings WHERE key='cursor_key'");
            assert(form.sql_text().take(6) =~= "SELECT"@);
        },
        Form::StoreCursorKey => {
            reveal_strlit("INSERT INTO settings VALUES('cursor_key',?1)");
            assert(form.sql_text().take(6)[0] == 'I');
            assert("SELECT"@[0] == 'S');
        },
        Form::Generation => {
            reveal_strlit("SELECT CAST(value AS INTEGER) FROM settings WHERE key='generation'");
            assert(form.sql_text().take(6) =~= "SELECT"@);
        },
        Form::BumpGeneration => {
            reveal_strlit("UPDATE settings SET value=CAST(value AS INTEGER)+1 WHERE key='generation'");
            assert(form.sql_text().take(6)[0] == 'U');
            assert("SELECT"@[0] == 'S');
        },
        Form::Grant => {
            reveal_strlit("INSERT INTO conversations VALUES(?1,?2,1,'indexing') ON CONFLICT(id) DO UPDATE SET enabled=1,name=excluded.name");
            assert(form.sql_text().take(6)[0] == 'I');
            assert("SELECT"@[0] == 'S');
        },
        Form::Disable => {
            reveal_strlit("UPDATE conversations SET enabled=0 WHERE id=?1");
            assert(form.sql_text().take(6)[0] == 'U');
            assert("SELECT"@[0] == 'S');
        },
        Form::DeleteMessages => {
            reveal_strlit("DELETE FROM messages WHERE conversation=?1");
            assert(form.sql_text().take(6)[0] == 'D');
            assert("SELECT"@[0] == 'S');
        },
        Form::DeleteMembers => {
            reveal_strlit("DELETE FROM members WHERE conversation=?1");
            assert(form.sql_text().take(6)[0] == 'D');
            assert("SELECT"@[0] == 'S');
        },
        Form::DeletePositions => {
            reveal_strlit("DELETE FROM import_positions WHERE conversation=?1");
            assert(form.sql_text().take(6)[0] == 'D');
            assert("SELECT"@[0] == 'S');
        },
        Form::DeleteConversation => {
            reveal_strlit("DELETE FROM conversations WHERE id=?1");
            assert(form.sql_text().take(6)[0] == 'D');
            assert("SELECT"@[0] == 'S');
        },
        Form::Resolve => {
            reveal_strlit("SELECT id FROM conversations WHERE enabled=1 AND (id=?1 OR name=?1) ORDER BY id LIMIT 21");
            assert(form.sql_text().take(6) =~= "SELECT"@);
        },
        Form::EnabledConversations => {
            reveal_strlit("SELECT id FROM conversations WHERE enabled=1 ORDER BY id");
            assert(form.sql_text().take(6) =~= "SELECT"@);
        },
        Form::State => {
            reveal_strlit("SELECT state FROM conversations WHERE id=?1");
            assert(form.sql_text().take(6) =~= "SELECT"@);
        },
        Form::List => {
            reveal_strlit("SELECT id,name,state,enabled FROM conversations WHERE (enabled=1 OR ?2) AND (instr(name,?1)>0 OR instr(id,?1)>0) ORDER BY name,id LIMIT 200");
            assert(form.sql_text().take(6) =~= "SELECT"@);
        },
        Form::InsertMessage => {
            reveal_strlit("INSERT OR IGNORE INTO messages(id,conversation,member,time,sort_seq,type,body,fts_body,data) VALUES(?1,?2,?3,?4,?5,?6,?7,?8,?9)");
            assert(form.sql_text().take(6)[0] == 'I');
            assert("SELECT"@[0] == 'S');
        },
        Form::InsertMember => {
            reveal_strlit("INSERT OR IGNORE INTO members VALUES(?1,?2,?2)");
            assert(form.sql_text().take(6)[0] == 'I');
            assert("SELECT"@[0] == 'S');
        },
        Form::InsertNamedMember => {
            reveal_strlit("INSERT OR IGNORE INTO members VALUES(?1,?2,?3)");
            assert(form.sql_text().take(6)[0] == 'I');
            assert("SELECT"@[0] == 'S');
        },
        Form::NewestMessage => {
            reveal_strlit("SELECT COALESCE(MAX(seq),0) FROM messages");
            assert(form.sql_text().take(6) =~= "SELECT"@);
        },
        Form::MemberIds => {
            reveal_strlit("SELECT DISTINCT id FROM members WHERE conversation=?1 AND (id=?2 OR name=?2) LIMIT 21");
            assert(form.sql_text().take(6) =~= "SELECT"@);
        },
        Form::NewestMember => {
            reveal_strlit("SELECT COALESCE(MAX(rowid),0) FROM members");
            assert(form.sql_text().take(6) =~= "SELECT"@);
        },
        Form::MemberPage => {
            reveal_strlit("SELECT id FROM members WHERE conversation=?1 AND id>?2 AND rowid<=?3 AND (instr(name,?4)>0 OR instr(id,?4)>0) GROUP BY id ORDER BY id LIMIT ?5");
            assert(form.sql_text().take(6) =~= "SELECT"@);
        },
        Form::MemberNames => {
            reveal_strlit("SELECT name FROM members WHERE conversation=?1 AND id=?2 AND rowid<=?3 ORDER BY name");
            assert(form.sql_text().take(6) =~= "SELECT"@);
        },
        Form::Quota => {
            reveal_strlit("SELECT CAST(value AS INTEGER) FROM settings WHERE key='quota'");
            assert(form.sql_text().take(6) =~= "SELECT"@);
        },
        Form::SetQuota => {
            reveal_strlit("UPDATE settings SET value=?1 WHERE key='quota'");
            assert(form.sql_text().take(6)[0] == 'U');
            assert("SELECT"@[0] == 'S');
        },
        Form::Migrated => {
            reveal_strlit("SELECT EXISTS(SELECT 1 FROM settings WHERE key='history_rowid_v1')");
            assert(form.sql_text().take(6) =~= "SELECT"@);
        },
        Form::RestartImports => {
            reveal_strlit("UPDATE import_positions SET position='-9223372036854775808',done=0 WHERE conversation IN (SELECT id FROM conversations WHERE state IN ('indexing','incompatible_message_index'))");
            assert(form.sql_text().take(6)[0] == 'U');
            assert("SELECT"@[0] == 'S');
        },
        Form::ReopenIncompatible => {
            reveal_strlit("UPDATE conversations SET state='indexing' WHERE state='incompatible_message_index'");
            assert(form.sql_text().take(6)[0] == 'U');
            assert("SELECT"@[0] == 'S');
        },
        Form::MarkMigrated => {
            reveal_strlit("INSERT INTO settings(key,value) VALUES('history_rowid_v1','1')");
            assert(form.sql_text().take(6)[0] == 'I');
            assert("SELECT"@[0] == 'S');
        },
        Form::RetryColumnErrors => {
            reveal_strlit("UPDATE conversations SET state='indexing' WHERE state LIKE 'history_column_type_error%'");
            assert(form.sql_text().take(6)[0] == 'U');
            assert("SELECT"@[0] == 'S');
        },
        Form::InsertPosition => {
            reveal_strlit("INSERT OR IGNORE INTO import_positions VALUES(?1,?2,?3,0)");
            assert(form.sql_text().take(6)[0] == 'I');
            assert("SELECT"@[0] == 'S');
        },
        Form::SavedPosition => {
            reveal_strlit("SELECT position FROM import_positions WHERE conversation=?1 AND shard=?2");
            assert(form.sql_text().take(6) =~= "SELECT"@);
        },
        Form::MessageHome => {
            reveal_strlit("SELECT m.conversation,m.time FROM messages m JOIN conversations c ON c.id=m.conversation AND c.enabled=1 WHERE m.id=?1");
            assert(form.sql_text().take(6) =~= "SELECT"@);
        },
        Form::Context => {
            reveal_strlit("SELECT data FROM (SELECT * FROM messages WHERE conversation=?1 AND (time,id)<(?2,?3) ORDER BY time DESC,id DESC LIMIT ?4) UNION ALL SELECT data FROM (SELECT * FROM messages WHERE conversation=?1 AND (time,id)>=(?2,?3) ORDER BY time,id LIMIT ?4)");
            assert(form.sql_text().take(6) =~= "SELECT"@);
        },
        Form::MessageData => {
            reveal_strlit("SELECT m.data FROM messages m JOIN conversations c ON c.id=m.conversation AND c.enabled=1 WHERE m.id=?1");
            assert(form.sql_text().take(6) =~= "SELECT"@);
        },
        Form::PendingImport => {
            reveal_strlit("SELECT p.conversation,p.shard,p.position FROM import_positions p JOIN conversations c ON c.id=p.conversation WHERE p.done=0 AND c.enabled=1 AND c.state='indexing' LIMIT 1");
            assert(form.sql_text().take(6) =~= "SELECT"@);
        },
        Form::SetState => {
            reveal_strlit("UPDATE conversations SET state=?2 WHERE id=?1");
            assert(form.sql_text().take(6)[0] == 'U');
            assert("SELECT"@[0] == 'S');
        },
        Form::SetPosition => {
            reveal_strlit("UPDATE import_positions SET position=?3,done=?4 WHERE conversation=?1 AND shard=?2");
            assert(form.sql_text().take(6)[0] == 'U');
            assert("SELECT"@[0] == 'S');
        },
        Form::MarkReady => {
            reveal_strlit("UPDATE conversations SET state='ready' WHERE id=?1 AND NOT EXISTS(SELECT 1 FROM import_positions WHERE conversation=?1 AND done=0)");
            assert(form.sql_text().take(6)[0] == 'U');
            assert("SELECT"@[0] == 'S');
        },
    }
}

// -------------------------------------------------------------- the tables

/// A table as it is made where it is missing, with its columns and keys.
pub open spec fn table_text(name: Seq<char>, columns: Seq<Seq<char>>) -> Seq<char> {
    "CREATE TABLE IF NOT EXISTS "@ + name + "("@ + crate::text::joined(columns, ","@) + ");"@
}

/// What makes an archive, part by part: deleted rows are overwritten; each
/// conversation, message, name of a member and place of an import is there once;
/// messages are numbered upwards and never twice by the same number; the
/// full-text index follows what is filed and what is deleted; and a new archive
/// has seen no change of permissions and has the usual quota.
pub open spec fn schema_parts() -> Seq<Seq<char>> {
    seq![
        "PRAGMA journal_mode=WAL; PRAGMA foreign_keys=ON; PRAGMA secure_delete=ON;"@,
        table_text(
            "settings"@,
            seq![
                "key TEXT PRIMARY KEY"@,
                "value TEXT NOT NULL"@,
            ],
        ),
        table_text(
            "conversations"@,
            seq![
                "id TEXT PRIMARY KEY"@,
                "name TEXT NOT NULL"@,
                "enabled INTEGER NOT NULL"@,
                "state TEXT NOT NULL"@,
            ],
        ),
        table_text(
            "messages"@,
            seq![
                "seq INTEGER PRIMARY KEY AUTOINCREMENT"@,
                "id TEXT UNIQUE NOT NULL"@,
                "conversation TEXT NOT NULL"@,
                "member TEXT NOT NULL"@,
                "time INTEGER NOT NULL"@,
                "sort_seq INTEGER NOT NULL"@,
                "type TEXT NOT NULL"@,
                "body TEXT NOT NULL"@,
                "fts_body TEXT NOT NULL"@,
                "data TEXT NOT NULL"@,
            ],
        ),
        "CREATE INDEX IF NOT EXISTS by_time ON messages(conversation,time,id);"@,
        "CREATE INDEX IF NOT EXISTS by_member ON messages(conversation,member,time,id);"@,
        "CREATE INDEX IF NOT EXISTS by_type ON messages(conversation,type,time,id);"@,
        "CREATE INDEX IF NOT EXISTS by_sort ON messages(conversation,sort_seq,id);"@,
        table_text(
            "members"@,
            seq![
                "conversation TEXT"@,
                " id TEXT"@,
                " name TEXT"@,
                " PRIMARY KEY(conversation,id,name)"@,
            ],
        ),
        table_text(
            "import_positions"@,
            seq![
                "conversation TEXT"@,
                "shard TEXT"@,
                "position TEXT NOT NULL"@,
                "done INTEGER NOT NULL DEFAULT 0"@,
                "PRIMARY KEY(conversation,shard)"@,
            ],
        ),
        "CREATE VIRTUAL TABLE IF NOT EXISTS message_fts USING fts5(fts_body,content='messages',content_rowid='seq');"@,
        "CREATE TRIGGER IF NOT EXISTS messages_ai AFTER INSERT ON messages BEGIN INSERT INTO message_fts(rowid,fts_body) VALUES(new.seq,new.fts_body); END;"@,
        "CREATE TRIGGER IF NOT EXISTS messages_ad AFTER DELETE ON messages BEGIN INSERT INTO message_fts(message_fts,rowid,fts_body) VALUES('delete',old.seq,old.fts_body); END;"@,
        "INSERT OR IGNORE INTO settings VALUES('generation','0');"@,
        "INSERT OR IGNORE INTO settings VALUES('quota','5368709120');"@,
    ]
}

proof fn lemma_table_settings()
    ensures
        table_text(
            "settings"@,
            seq![
                "key TEXT PRIMARY KEY"@,
                "value TEXT NOT NULL"@,
            ],
        ) == "CREATE TABLE IF NOT EXISTS settings(key TEXT PRIMARY KEY,value TEXT NOT NULL);"@,
{
    reveal_strlit("CREATE TABLE IF NOT EXISTS settings(key TEXT PRIMARY KEY,value TEXT NOT NULL);");
    reveal_strlit("CREATE TABLE IF NOT EXISTS ");
    reveal_strlit("settings");
    reveal_strlit("(");
    reveal_strlit(",");
    reveal_strlit(");");
    reveal_strlit("key TEXT PRIMARY KEY");
    reveal_strlit("value TEXT NOT NULL");
    let v0 = seq!["key TEXT PRIMARY KEY"@];
    let v1 = v0.push("value TEXT NOT NULL"@);
    crate::text::law_parts_are_joined(v0, "value TEXT NOT NULL"@, ","@);
    assert(v1 =~= seq![
        "key TEXT PRIMARY KEY"@,
        "value TEXT NOT NULL"@,
    ]);
    assert(table_text("settings"@, v1) =~= "CREATE TABLE IF NOT EXISTS settings(key TEXT PRIMARY KEY,value TEXT NOT NULL);"@);
}

proof fn lemma_table_conversations()
    ensures
        table_text(
            "conversations"@,
            seq![
                "id TEXT PRIMARY KEY"@,
                "name TEXT NOT NULL"@,
                "enabled INTEGER NOT NULL"@,
                "state TEXT NOT NULL"@,
            ],
        ) == "CREATE TABLE IF NOT EXISTS conversations(id TEXT PRIMARY KEY,name TEXT NOT NULL,enabled INTEGER NOT NULL,state TEXT NOT NULL);"@,
{
    reveal_strlit("CREATE TABLE IF NOT EXISTS conversations(id TEXT PRIMARY KEY,name TEXT NOT NULL,enabled INTEGER NOT NULL,state TEXT NOT NULL);");
    reveal_strlit("CREATE TABLE IF NOT EXISTS ");
    reveal_strlit("conversations");
    reveal_strlit("(");
    reveal_strlit(",");
    reveal_strlit(");");
    reveal_strlit("id TEXT PRIMARY KEY");
    reveal_strlit("name TEXT NOT NULL");
    reveal_strlit("enabled INTEGER NOT NULL");
    reveal_strlit("state TEXT NOT NULL");
    let v0 = seq!["id TEXT PRIMARY KEY"@];
    let v1 = v0.push("name TEXT NOT NULL"@);
    crate::text::law_parts_are_joined(v0, "name TEXT NOT NULL"@, ","@);
    let v2 = v1.push("enabled INTEGER NOT NULL"@);
    crate::text::law_parts_are_joined(v1, "enabled INTEGER NOT NULL"@, ","@);
    let v3 = v2.push("state TEXT NOT NULL"@);
    crate::text::law_parts_are_joined(v2, "state TEXT NOT NULL"@, ","@);
    assert(v3 =~= seq![
        "id TEXT PRIMARY KEY"@,
        "name TEXT NOT NULL"@,
        "enabled INTEGER NOT NULL"@,
        "state TEXT NOT NULL"@,
    ]);
    assert(table_text("conversations"@, v3) =~= "CREATE TABLE IF NOT EXISTS conversations(id TEXT PRIMARY KEY,name TEXT NOT NULL,enabled INTEGER NOT NULL,state TEXT NOT NULL);"@);
}

proof fn lemma_table_messages()
    ensures
        table_text(
            "messages"@,
            seq![
                "seq INTEGER PRIMARY KEY AUTOINCREMENT"@,
                "id TEXT UNIQUE NOT NULL"@,
                "conversation TEXT NOT NULL"@,
                "member TEXT NOT NULL"@,
                "time INTEGER NOT NULL"@,
                "sort_seq INTEGER NOT NULL"@,
                "type TEXT NOT NULL"@,
                "body TEXT NOT NULL"@,
                "fts_body TEXT NOT NULL"@,
                "data TEXT NOT NULL"@,
            ],
        ) == "CREATE TABLE IF NOT EXISTS messages(seq INTEGER PRIMARY KEY AUTOINCREMENT,id TEXT UNIQUE NOT NULL,conversation TEXT NOT NULL,member TEXT NOT NULL,time INTEGER NOT NULL,sort_seq INTEGER NOT NULL,type TEXT NOT NULL,body TEXT NOT NULL,fts_body TEXT NOT NULL,data TEXT NOT NULL);"@,
{
    reveal_strlit("CREATE TABLE IF NOT EXISTS messages(seq INTEGER PRIMARY KEY AUTOINCREMENT,id TEXT UNIQUE NOT NULL,conversation TEXT NOT NULL,member TEXT NOT NULL,time INTEGER NOT NULL,sort_seq INTEGER NOT NULL,type TEXT NOT NULL,body TEXT NOT NULL,fts_body TEXT NOT NULL,data TEXT NOT NULL);");
    reveal_strlit("CREATE TABLE IF NOT EXISTS ");
    reveal_strlit("messages");
    reveal_strlit("(");
    reveal_strlit(",");
    reveal_strlit(");");
    reveal_strlit("seq INTEGER PRIMARY KEY AUTOINCREMENT");
    reveal_strlit("id TEXT UNIQUE NOT NULL");
    reveal_strlit("conversation TEXT NOT NULL");
    reveal_strlit("member TEXT NOT NULL");
    reveal_strlit("time INTEGER NOT NULL");
    reveal_strlit("sort_seq INTEGER NOT NULL");
    reveal_strlit("type TEXT NOT NULL");
    reveal_strlit("body TEXT NOT NULL");
    reveal_strlit("fts_body TEXT NOT NULL");
    reveal_strlit("data TEXT NOT NULL");
    let v0 = seq!["seq INTEGER PRIMARY KEY AUTOINCREMENT"@];
    let v1 = v0.push("id TEXT UNIQUE NOT NULL"@);
    crate::text::law_parts_are_joined(v0, "id TEXT UNIQUE NOT NULL"@, ","@);
    let v2 = v1.push("conversation TEXT NOT NULL"@);
    crate::text::law_parts_are_joined(v1, "conversation TEXT NOT NULL"@, ","@);
    let v3 = v2.push("member TEXT NOT NULL"@);
    crate::text::law_parts_are_joined(v2, "member TEXT NOT NULL"@, ","@);
    let v4 = v3.push("time INTEGER NOT NULL"@);
    crate::text::law_parts_are_joined(v3, "time INTEGER NOT NULL"@, ","@);
    let v5 = v4.push("sort_seq INTEGER NOT NULL"@);
    crate::text::law_parts_are_joined(v4, "sort_seq INTEGER NOT NULL"@, ","@);
    let v6 = v5.push("type TEXT NOT NULL"@);
    crate::text::law_parts_are_joined(v5, "type TEXT NOT NULL"@, ","@);
    let v7 = v6.push("body TEXT NOT NULL"@);
    crate::text::law_parts_are_joined(v6, "body TEXT NOT NULL"@, ","@);
    let v8 = v7.push("fts_body TEXT NOT NULL"@);
    crate::text::law_parts_are_joined(v7, "fts_body TEXT NOT NULL"@, ","@);
    let v9 = v8.push("data TEXT NOT NULL"@);
    crate::text::law_parts_are_joined(v8, "data TEXT NOT NULL"@, ","@);
    assert(v9 =~= seq![
        "seq INTEGER PRIMARY KEY AUTOINCREMENT"@,
        "id TEXT UNIQUE NOT NULL"@,
        "conversation TEXT NOT NULL"@,
        "member TEXT NOT NULL"@,
        "time INTEGER NOT NULL"@,
        "sort_seq INTEGER NOT NULL"@,
        "type TEXT NOT NULL"@,
        "body TEXT NOT NULL"@,
        "fts_body TEXT NOT NULL"@,
        "data TEXT NOT NULL"@,
    ]);
    assert(table_text("messages"@, v9) =~= "CREATE TABLE IF NOT EXISTS messages(seq INTEGER PRIMARY KEY AUTOINCREMENT,id TEXT UNIQUE NOT NULL,conversation TEXT NOT NULL,member TEXT NOT NULL,time INTEGER NOT NULL,sort_seq INTEGER NOT NULL,type TEXT NOT NULL,body TEXT NOT NULL,fts_body TEXT NOT NULL,data TEXT NOT NULL);"@);
}

proof fn lemma_table_members()
    ensures
        table_text(
            "members"@,
            seq![
                "conversation TEXT"@,
                " id TEXT"@,
                " name TEXT"@,
                " PRIMARY KEY(conversation,id,name)"@,
            ],
        ) == "CREATE TABLE IF NOT EXISTS members(conversation TEXT, id TEXT, name TEXT, PRIMARY KEY(conversation,id,name));"@,
{
    reveal_strlit("CREATE TABLE IF NOT EXISTS members(conversation TEXT, id TEXT, name TEXT, PRIMARY KEY(conversation,id,name));");
    reveal_strlit("CREATE TABLE IF NOT EXISTS ");
    reveal_strlit("members");
    reveal_strlit("(");
    reveal_strlit(",");
    reveal_strlit(");");
    reveal_strlit("conversation TEXT");
    reveal_strlit(" id TEXT");
    reveal_strlit(" name TEXT");
    reveal_strlit(" PRIMARY KEY(conversation,id,name)");
    let v0 = seq!["conversation TEXT"@];
    let v1 = v0.push(" id TEXT"@);
    crate::text::law_parts_are_joined(v0, " id TEXT"@, ","@);
    let v2 = v1.push(" name TEXT"@);
    crate::text::law_parts_are_joined(v1, " name TEXT"@, ","@);
    let v3 = v2.push(" PRIMARY KEY(conversation,id,name)"@);
    crate::text::law_parts_are_joined(v2, " PRIMARY KEY(conversation,id,name)"@, ","@);
    assert(v3 =~= seq![
        "conversation TEXT"@,
        " id TEXT"@,
        " name TEXT"@,
        " PRIMARY KEY(conversation,id,name)"@,
    ]);
    assert(table_text("members"@, v3) =~= "CREATE TABLE IF NOT EXISTS members(conversation TEXT, id TEXT, name TEXT, PRIMARY KEY(conversation,id,name));"@);
}

proof fn lemma_table_import_positions()
    ensures
        table_text(
            "import_positions"@,
            seq![
                "conversation TEXT"@,
                "shard TEXT"@,
                "position TEXT NOT NULL"@,
                "done INTEGER NOT NULL DEFAULT 0"@,
                "PRIMARY KEY(conversation,shard)"@,
            ],
        ) == "CREATE TABLE IF NOT EXISTS import_positions(conversation TEXT,shard TEXT,position TEXT NOT NULL,done INTEGER NOT NULL DEFAULT 0,PRIMARY KEY(conversation,shard));"@,
{
    reveal_strlit("CREATE TABLE IF NOT EXISTS import_positions(conversation TEXT,shard TEXT,position TEXT NOT NULL,done INTEGER NOT NULL DEFAULT 0,PRIMARY KEY(conversation,shard));");
    reveal_strlit("CREATE TABLE IF NOT EXISTS ");
    reveal_strlit("import_positions");
    reveal_strlit("(");
    reveal_strlit(",");
    reveal_strlit(");");
    reveal_strlit("conversation TEXT");
    reveal_strlit("shard TEXT");
    reveal_strlit("position TEXT NOT NULL");
    reveal_strlit("done INTEGER NOT NULL DEFAULT 0");
    reveal_strlit("PRIMARY KEY(conversation,shard)");
    let v0 = seq!["conversation TEXT"@];
    let v1 = v0.push("shard TEXT"@);
    crate::text::law_parts_are_joined(v0, "shard TEXT"@, ","@);
    let v2 = v1.push("position TEXT NOT NULL"@);
    crate::text::law_parts_are_joined(v1, "position TEXT NOT NULL"@, ","@);
    let v3 = v2.push("done INTEGER NOT NULL DEFAULT 0"@);
    crate::text::law_parts_are_joined(v2, "done INTEGER NOT NULL DEFAULT 0"@, ","@);
    let v4 = v3.push("PRIMARY KEY(conversation,shard)"@);
    crate::text::law_parts_are_joined(v3, "PRIMARY KEY(conversation,shard)"@, ","@);
    assert(v4 =~= seq![
        "conversation TEXT"@,
        "shard TEXT"@,
        "position TEXT NOT NULL"@,
        "done INTEGER NOT NULL DEFAULT 0"@,
        "PRIMARY KEY(conversation,shard)"@,
    ]);
    assert(table_text("import_positions"@, v4) =~= "CREATE TABLE IF NOT EXISTS import_positions(conversation TEXT,shard TEXT,position TEXT NOT NULL,done INTEGER NOT NULL DEFAULT 0,PRIMARY KEY(conversation,shard));"@);
}

/// The archive is made of these parts, one behind the other.
pub proof fn law_archive_is_made_of_its_parts()
    ensures
        crate::sql::SCHEMA@ == crate::text::joined(schema_parts(), "\n          "@),
{
    reveal_strlit(
        "PRAGMA journal_mode=WAL; PRAGMA foreign_keys=ON; PRAGMA secure_delete=ON;\n          CREATE TABLE IF NOT EXISTS settings(key TEXT PRIMARY KEY,value TEXT NOT NULL);\n          CREATE TABLE IF NOT EXISTS conversations(id TEXT PRIMARY KEY,name TEXT NOT NULL,enabled INTEGER NOT NULL,state TEXT NOT NULL);\n          CREATE TABLE IF NOT EXISTS messages(seq INTEGER PRIMARY KEY AUTOINCREMENT,id TEXT UNIQUE NOT NULL,conversation TEXT NOT NULL,member TEXT NOT NULL,time INTEGER NOT NULL,sort_seq INTEGER NOT NULL,type TEXT NOT NULL,body TEXT NOT NULL,fts_body TEXT NOT NULL,data TEXT NOT NULL);\n          CREATE INDEX IF NOT EXISTS by_time ON messages(conversation,time,id);\n          CREATE INDEX IF NOT EXISTS by_member ON messages(conversation,member,time,id);\n          CREATE INDEX IF NOT EXISTS by_type ON messages(conversation,type,time,id);\n          CREATE INDEX IF NOT EXISTS by_sort ON messages(conversation,sort_seq,id);\n          CREATE TABLE IF NOT EXISTS members(conversation TEXT, id TEXT, name TEXT, PRIMARY KEY(conversation,id,name));\n          CREATE TABLE IF NOT EXISTS import_positions(conversation TEXT,shard TEXT,position TEXT NOT NULL,done INTEGER NOT NULL DEFAULT 0,PRIMARY KEY(conversation,shard));\n          CREATE VIRTUAL TABLE IF NOT EXISTS message_fts USING fts5(fts_body,content='messages',content_rowid='seq');\n          CREATE TRIGGER IF NOT EXISTS messages_ai AFTER INSERT ON messages BEGIN INSERT INTO message_fts(rowid,fts_body) VALUES(new.seq,new.fts_body); END;\n          CREATE TRIGGER IF NOT EXISTS messages_ad AFTER DELETE ON messages BEGIN INSERT INTO message_fts(message_fts,rowid,fts_body) VALUES('delete',old.seq,old.fts_body); END;\n          INSERT OR IGNORE INTO settings VALUES('generation','0');\n          INSERT OR IGNORE INTO settings VALUES('quota','5368709120');",
    );
    reveal_strlit("\n          ");
    reveal_strlit("PRAGMA journal_mode=WAL; PRAGMA foreign_keys=ON; PRAGMA secure_delete=ON;");
    reveal_strlit("CREATE TABLE IF NOT EXISTS settings(key TEXT PRIMARY KEY,value TEXT NOT NULL);");
    reveal_strlit("CREATE TABLE IF NOT EXISTS conversations(id TEXT PRIMARY KEY,name TEXT NOT NULL,enabled INTEGER NOT NULL,state TEXT NOT NULL);");
    reveal_strlit("CREATE TABLE IF NOT EXISTS messages(seq INTEGER PRIMARY KEY AUTOINCREMENT,id TEXT UNIQUE NOT NULL,conversation TEXT NOT NULL,member TEXT NOT NULL,time INTEGER NOT NULL,sort_seq INTEGER NOT NULL,type TEXT NOT NULL,body TEXT NOT NULL,fts_body TEXT NOT NULL,data TEXT NOT NULL);");
    reveal_strlit("CREATE INDEX IF NOT EXISTS by_time ON messages(conversation,time,id);");
    reveal_strlit("CREATE INDEX IF NOT EXISTS by_member ON messages(conversation,member,time,id);");
    reveal_strlit("CREATE INDEX IF NOT EXISTS by_type ON messages(conversation,type,time,id);");
    reveal_strlit("CREATE INDEX IF NOT EXISTS by_sort ON messages(conversation,sort_seq,id);");
    reveal_strlit("CREATE TABLE IF NOT EXISTS members(conversation TEXT, id TEXT, name TEXT, PRIMARY KEY(conversation,id,name));");
    reveal_strlit("CREATE TABLE IF NOT EXISTS import_positions(conversation TEXT,shard TEXT,position TEXT NOT NULL,done INTEGER NOT NULL DEFAULT 0,PRIMARY KEY(conversation,shard));");
    reveal_strlit("CREATE VIRTUAL TABLE IF NOT EXISTS message_fts USING fts5(fts_body,content='messages',content_rowid='seq');");
    reveal_strlit("CREATE TRIGGER IF NOT EXISTS messages_ai AFTER INSERT ON messages BEGIN INSERT INTO message_fts(rowid,fts_body) VALUES(new.seq,new.fts_body); END;");
    reveal_strlit("CREATE TRIGGER IF NOT EXISTS messages_ad AFTER DELETE ON messages BEGIN INSERT INTO message_fts(message_fts,rowid,fts_body) VALUES('delete',old.seq,old.fts_body); END;");
    reveal_strlit("INSERT OR IGNORE INTO settings VALUES('generation','0');");
    reveal_strlit("INSERT OR IGNORE INTO settings VALUES('quota','5368709120');");
    lemma_table_settings();
    lemma_table_conversations();
    lemma_table_messages();
    lemma_table_members();
    lemma_table_import_positions();
    let sep = "\n          "@;
    let v0 = seq!["PRAGMA journal_mode=WAL; PRAGMA foreign_keys=ON; PRAGMA secure_delete=ON;"@];
    let v1 = v0.push("CREATE TABLE IF NOT EXISTS settings(key TEXT PRIMARY KEY,value TEXT NOT NULL);"@);
    crate::text::law_parts_are_joined(v0, "CREATE TABLE IF NOT EXISTS settings(key TEXT PRIMARY KEY,value TEXT NOT NULL);"@, sep);
    let v2 = v1.push("CREATE TABLE IF NOT EXISTS conversations(id TEXT PRIMARY KEY,name TEXT NOT NULL,enabled INTEGER NOT NULL,state TEXT NOT NULL);"@);
    crate::text::law_parts_are_joined(v1, "CREATE TABLE IF NOT EXISTS conversations(id TEXT PRIMARY KEY,name TEXT NOT NULL,enabled INTEGER NOT NULL,state TEXT NOT NULL);"@, sep);
    let v3 = v2.push("CREATE TABLE IF NOT EXISTS messages(seq INTEGER PRIMARY KEY AUTOINCREMENT,id TEXT UNIQUE NOT NULL,conversation TEXT NOT NULL,member TEXT NOT NULL,time INTEGER NOT NULL,sort_seq INTEGER NOT NULL,type TEXT NOT NULL,body TEXT NOT NULL,fts_body TEXT NOT NULL,data TEXT NOT NULL);"@);
    crate::text::law_parts_are_joined(v2, "CREATE TABLE IF NOT EXISTS messages(seq INTEGER PRIMARY KEY AUTOINCREMENT,id TEXT UNIQUE NOT NULL,conversation TEXT NOT NULL,member TEXT NOT NULL,time INTEGER NOT NULL,sort_seq INTEGER NOT NULL,type TEXT NOT NULL,body TEXT NOT NULL,fts_body TEXT NOT NULL,data TEXT NOT NULL);"@, sep);
    let v4 = v3.push("CREATE INDEX IF NOT EXISTS by_time ON messages(conversation,time,id);"@);
    crate::text::law_parts_are_joined(v3, "CREATE INDEX IF NOT EXISTS by_time ON messages(conversation,time,id);"@, sep);
    let v5 = v4.push("CREATE INDEX IF NOT EXISTS by_member ON messages(conversation,member,time,id);"@);
    crate::text::law_parts_are_joined(v4, "CREATE INDEX IF NOT EXISTS by_member ON messages(conversation,member,time,id);"@, sep);
    let v6 = v5.push("CREATE INDEX IF NOT EXISTS by_type ON messages(conversation,type,time,id);"@);
    crate::text::law_parts_are_joined(v5, "CREATE INDEX IF NOT EXISTS by_type ON messages(conversation,type,time,id);"@, sep);
    let v7 = v6.push("CREATE INDEX IF NOT EXISTS by_sort ON messages(conversation,sort_seq,id);"@);
    crate::text::law_parts_are_joined(v6, "CREATE INDEX IF NOT EXISTS by_sort ON messages(conversation,sort_seq,id);"@, sep);
    let v8 = v7.push("CREATE TABLE IF NOT EXISTS members(conversation TEXT, id TEXT, name TEXT, PRIMARY KEY(conversation,id,name));"@);
    crate::text::law_parts_are_joined(v7, "CREATE TABLE IF NOT EXISTS members(conversation TEXT, id TEXT, name TEXT, PRIMARY KEY(conversation,id,name));"@, sep);
    let v9 = v8.push("CREATE TABLE IF NOT EXISTS import_positions(conversation TEXT,shard TEXT,position TEXT NOT NULL,done INTEGER NOT NULL DEFAULT 0,PRIMARY KEY(conversation,shard));"@);
    crate::text::law_parts_are_joined(v8, "CREATE TABLE IF NOT EXISTS import_positions(conversation TEXT,shard TEXT,position TEXT NOT NULL,done INTEGER NOT NULL DEFAULT 0,PRIMARY KEY(conversation,shard));"@, sep);
    let v10 = v9.push("CREATE VIRTUAL TABLE IF NOT EXISTS message_fts USING fts5(fts_body,content='messages',content_rowid='seq');"@);
    crate::text::law_parts_are_joined(v9, "CREATE VIRTUAL TABLE IF NOT EXISTS message_fts USING fts5(fts_body,content='messages',content_rowid='seq');"@, sep);
    let v11 = v10.push("CREATE TRIGGER IF NOT EXISTS messages_ai AFTER INSERT ON messages BEGIN INSERT INTO message_fts(rowid,fts_body) VALUES(new.seq,new.fts_body); END;"@);
    crate::text::law_parts_are_joined(v10, "CREATE TRIGGER IF NOT EXISTS messages_ai AFTER INSERT ON messages BEGIN INSERT INTO message_fts(rowid,fts_body) VALUES(new.seq,new.fts_body); END;"@, sep);
    let v12 = v11.push("CREATE TRIGGER IF NOT EXISTS messages_ad AFTER DELETE ON messages BEGIN INSERT INTO message_fts(message_fts,rowid,fts_body) VALUES('delete',old.seq,old.fts_body); END;"@);
    crate::text::law_parts_are_joined(v11, "CREATE TRIGGER IF NOT EXISTS messages_ad AFTER DELETE ON messages BEGIN INSERT INTO message_fts(message_fts,rowid,fts_body) VALUES('delete',old.seq,old.fts_body); END;"@, sep);
    let v13 = v12.push("INSERT OR IGNORE INTO settings VALUES('generation','0');"@);
    crate::text::law_parts_are_joined(v12, "INSERT OR IGNORE INTO settings VALUES('generation','0');"@, sep);
    let v14 = v13.push("INSERT OR IGNORE INTO settings VALUES('quota','5368709120');"@);
    crate::text::law_parts_are_joined(v13, "INSERT OR IGNORE INTO settings VALUES('quota','5368709120');"@, sep);
    assert(v14 =~= schema_parts());
    assert(crate::text::joined(v0, sep) =~= crate::sql::SCHEMA@.take(73));
    assert(crate::text::joined(v1, sep) =~= crate::sql::SCHEMA@.take(162));
    assert(crate::text::joined(v2, sep) =~= crate::sql::SCHEMA@.take(299));
    assert(crate::text::joined(v3, sep) =~= crate::sql::SCHEMA@.take(585));
    assert(crate::text::joined(v4, sep) =~= crate::sql::SCHEMA@.take(665));
    assert(crate::text::joined(v5, sep) =~= crate::sql::SCHEMA@.take(754));
    assert(crate::text::joined(v6, sep) =~= crate::sql::SCHEMA@.take(839));
    assert(crate::text::joined(v7, sep) =~= crate::sql::SCHEMA@.take(923));
    assert(crate::text::joined(v8, sep) =~= crate::sql::SCHEMA@.take(1043));
    assert(crate::text::joined(v9, sep) =~= crate::sql::SCHEMA@.take(1215));
    assert(crate::text::joined(v10, sep) =~= crate::sql::SCHEMA@.take(1333));
    assert(crate::text::joined(v11, sep) =~= crate::sql::SCHEMA@.take(1490));
    assert(crate::text::joined(v12, sep) =~= crate::sql::SCHEMA@.take(1668));
    assert(crate::text::joined(v13, sep) =~= crate::sql::SCHEMA@.take(1735));
    assert(crate::text::joined(v14, sep) =~= crate::sql::SCHEMA@.take(1806));
    assert(crate::sql::SCHEMA@.take(1806) =~= crate::sql::SCHEMA@);
}

} // verus!

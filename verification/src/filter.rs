//! Which messages a query asks for: its conditions, their order, and the
//! statement that says so to the database.
use vstd::prelude::*;

use crate::sql::{bind, SqlV, SqlValue};
use crate::text::{concat, join};

verus! {

/// One condition on a message.
pub enum Clause {
    /// It belongs to the conversation.
    Conversation(String),
    /// It was filed no later than the message of this number.
    UpTo(i64),
    /// It was written at this time or later.
    Since(i64),
    /// It was written before this time.
    Until(i64),
    /// It was written by one of these members.
    Members(Vec<String>),
    /// It is of one of these types.
    Types(Vec<String>),
    /// Its text matches this full-text query.
    Matching(String),
    /// It was filed later than the message of this number.
    FiledAfter(i64),
    /// It comes before this time and identifier.
    Before(i64, String),
    /// It comes after this time and identifier.
    After(i64, String),
}

/// The mathematical view of a condition.
pub enum ClauseV {
    Conversation(Seq<char>),
    UpTo(i64),
    Since(i64),
    Until(i64),
    Members(Seq<Seq<char>>),
    Types(Seq<Seq<char>>),
    Matching(Seq<char>),
    FiledAfter(i64),
    Before(i64, Seq<char>),
    After(i64, Seq<char>),
}

impl View for Clause {
    type V = ClauseV;

    open spec fn view(&self) -> ClauseV {
        match self {
            Clause::Conversation(s) => ClauseV::Conversation(s@),
            Clause::UpTo(n) => ClauseV::UpTo(*n),
            Clause::Since(n) => ClauseV::Since(*n),
            Clause::Until(n) => ClauseV::Until(*n),
            Clause::Members(v) => ClauseV::Members(crate::text::texts_view(v@)),
            Clause::Types(v) => ClauseV::Types(crate::text::texts_view(v@)),
            Clause::Matching(s) => ClauseV::Matching(s@),
            Clause::FiledAfter(n) => ClauseV::FiledAfter(*n),
            Clause::Before(t, s) => ClauseV::Before(*t, s@),
            Clause::After(t, s) => ClauseV::After(*t, s@),
        }
    }
}

/// The views of a list of conditions.
pub open spec fn clauses_view(v: Seq<Clause>) -> Seq<ClauseV> {
    Seq::new(v.len(), |i: int| v[i]@)
}

/// As many question marks as asked for, commas between them.
pub open spec fn marks(n: nat) -> Seq<char> {
    crate::text::joined(Seq::new(n, |i: int| "?"@), ","@)
}

/// Each text as a bound value.
pub open spec fn bound_texts(v: Seq<Seq<char>>) -> Seq<SqlV> {
    Seq::new(v.len(), |i: int| SqlV::Text(v[i]))
}

impl ClauseV {
    /// The condition in the language of the database.
    pub open spec fn sql_text(self) -> Seq<char> {
        match self {
            ClauseV::Conversation(_) => "m.conversation=?"@,
            ClauseV::UpTo(_) => "m.seq<=?"@,
            ClauseV::Since(_) => "m.time>=?"@,
            ClauseV::Until(_) => "m.time<?"@,
            ClauseV::Members(v) => "m.member IN ("@ + marks(v.len()) + ")"@,
            ClauseV::Types(v) => "m.type IN ("@ + marks(v.len()) + ")"@,
            ClauseV::Matching(_) =>
                "m.seq IN (SELECT rowid FROM message_fts WHERE message_fts MATCH ?)"@,
            ClauseV::FiledAfter(_) => "m.seq>?"@,
            ClauseV::Before(_, _) => "(m.time,m.id)<(?,?)"@,
            ClauseV::After(_, _) => "(m.time,m.id)>(?,?)"@,
        }
    }

    /// The values that the condition speaks of, in order.
    pub open spec fn bound(self) -> Seq<SqlV> {
        match self {
            ClauseV::Conversation(s) => seq![SqlV::Text(s)],
            ClauseV::UpTo(n) => seq![SqlV::Int(n)],
            ClauseV::Since(n) => seq![SqlV::Int(n)],
            ClauseV::Until(n) => seq![SqlV::Int(n)],
            ClauseV::Members(v) => bound_texts(v),
            ClauseV::Types(v) => bound_texts(v),
            ClauseV::Matching(s) => seq![SqlV::Text(s)],
            ClauseV::FiledAfter(n) => seq![SqlV::Int(n)],
            ClauseV::Before(t, s) => seq![SqlV::Int(t), SqlV::Text(s)],
            ClauseV::After(t, s) => seq![SqlV::Int(t), SqlV::Text(s)],
        }
    }
}

fn question_marks(n: usize) -> (r: String)
    ensures
        r@ == marks(n as nat),
{
    let mut parts: Vec<String> = Vec::new();
    let mut i: usize = 0;
    while i < n
        invariant
            i <= n,
            parts@.len() == i,
            forall|k: int| 0 <= k < i ==> (#[trigger] parts@[k])@ == "?"@,
        decreases n - i,
    {
        parts.push("?".to_owned());
        i = i + 1;
    }
    assert(crate::text::texts_view(parts@) =~= Seq::new(n as nat, |i: int| "?"@));
    join(&parts, ",")
}

fn one_of(head: &str, n: usize) -> (r: String)
    ensures
        r@ == head@ + marks(n as nat) + ")"@,
{
    let list = question_marks(n);
    let open = concat(head, list.as_str());
    concat(open.as_str(), ")")
}

fn push_texts(out: &mut Vec<SqlValue>, v: &Vec<String>)
    ensures
        crate::sql::values_view(final(out)@) == crate::sql::values_view(old(out)@) + bound_texts(
            crate::text::texts_view(v@),
        ),
{
    let ghost before = out@;
    let mut i: usize = 0;
    while i < v.len()
        invariant
            i <= v@.len(),
            before == old(out)@,
            out@.len() == before.len() + i,
            forall|k: int| 0 <= k < before.len() ==> #[trigger] out@[k] == before[k],
            forall|k: int|
                before.len() <= k < out@.len() ==> (#[trigger] out@[k])@ == SqlV::Text(
                    v@[k - before.len()]@,
                ),
        decreases v@.len() - i,
    {
        out.push(SqlValue::Text(v[i].clone()));
        i = i + 1;
    }
    assert(crate::sql::values_view(out@) =~= crate::sql::values_view(before) + bound_texts(
        crate::text::texts_view(v@),
    ));
}

fn push_one(out: &mut Vec<SqlValue>, v: SqlValue)
    ensures
        crate::sql::values_view(final(out)@) == crate::sql::values_view(old(out)@) + seq![v@],
{
    out.push(v);
    assert(crate::sql::values_view(out@) =~= crate::sql::values_view(old(out)@) + seq![v@]);
}

impl Clause {
    /// The condition in the language of the database.
    pub fn sql(&self) -> (r: String)
        ensures
            r@ == self@.sql_text(),
    {
        match self {
            Clause::Conversation(_) => "m.conversation=?".to_owned(),
            Clause::UpTo(_) => "m.seq<=?".to_owned(),
            Clause::Since(_) => "m.time>=?".to_owned(),
            Clause::Until(_) => "m.time<?".to_owned(),
            Clause::Members(v) => one_of("m.member IN (", v.len()),
            Clause::Types(v) => one_of("m.type IN (", v.len()),
            Clause::Matching(_) =>
                "m.seq IN (SELECT rowid FROM message_fts WHERE message_fts MATCH ?)".to_owned(),
            Clause::FiledAfter(_) => "m.seq>?".to_owned(),
            Clause::Before(_, _) => "(m.time,m.id)<(?,?)".to_owned(),
            Clause::After(_, _) => "(m.time,m.id)>(?,?)".to_owned(),
        }
    }

    fn push_values(&self, out: &mut Vec<SqlValue>)
        ensures
            crate::sql::values_view(final(out)@) == crate::sql::values_view(old(out)@)
                + self@.bound(),
    {
        match self {
            Clause::Conversation(s) => push_one(out, bind(s.as_str())),
            Clause::UpTo(n) => push_one(out, SqlValue::Int(*n)),
            Clause::Since(n) => push_one(out, SqlValue::Int(*n)),
            Clause::Until(n) => push_one(out, SqlValue::Int(*n)),
            Clause::Members(v) => push_texts(out, v),
            Clause::Types(v) => push_texts(out, v),
            Clause::Matching(s) => push_one(out, bind(s.as_str())),
            Clause::FiledAfter(n) => push_one(out, SqlValue::Int(*n)),
            Clause::Before(t, s) => {
                push_one(out, SqlValue::Int(*t));
                push_one(out, bind(s.as_str()));
                assert(crate::sql::values_view(out@) =~= crate::sql::values_view(old(out)@)
                    + self@.bound());
            },
            Clause::After(t, s) => {
                push_one(out, SqlValue::Int(*t));
                push_one(out, bind(s.as_str()));
                assert(crate::sql::values_view(out@) =~= crate::sql::values_view(old(out)@)
                    + self@.bound());
            },
        }
    }
}

/// The order in which messages are asked for.
#[derive(Clone, Copy, Debug, PartialEq, Eq, Structural)]
pub enum Order {
    /// As they were filed.
    AsFiled,
    OldestFirst,
    NewestFirst,
}

impl Order {
    /// The order in the language of the database.
    pub open spec fn sql_text(self) -> Seq<char> {
        match self {
            Order::AsFiled => "m.seq ASC"@,
            Order::OldestFirst => "m.time ASC,m.id ASC"@,
            Order::NewestFirst => "m.time DESC,m.id DESC"@,
        }
    }

    fn sql(self) -> (r: &'static str)
        ensures
            r@ == self.sql_text(),
    {
        match self {
            Order::AsFiled => "m.seq ASC",
            Order::OldestFirst => "m.time ASC,m.id ASC",
            Order::NewestFirst => "m.time DESC,m.id DESC",
        }
    }
}

/// The messages that meet every condition, in an order, up to a number.
pub struct MessageQuery {
    pub clauses: Vec<Clause>,
    pub order: Order,
    pub limit: i64,
}

/// The mathematical view of a query.
pub struct MessageQueryV {
    pub clauses: Seq<ClauseV>,
    pub order: Order,
    pub limit: i64,
}

impl View for MessageQuery {
    type V = MessageQueryV;

    open spec fn view(&self) -> MessageQueryV {
        MessageQueryV {
            clauses: clauses_view(self.clauses@),
            order: self.order,
            limit: self.limit,
        }
    }
}

/// The values that a list of conditions speaks of, in order.
pub open spec fn bound_by(clauses: Seq<ClauseV>) -> Seq<SqlV>
    decreases clauses.len(),
{
    if clauses.len() == 0 {
        Seq::empty()
    } else {
        bound_by(clauses.drop_last()) + clauses.last().bound()
    }
}

impl MessageQueryV {
    /// The statement that asks for the messages.
    pub open spec fn sql_text(self) -> Seq<char> {
        "SELECT m.data,m.time,m.id,m.seq FROM messages m WHERE "@ + crate::text::joined(
            self.clauses.map_values(|c: ClauseV| c.sql_text()),
            " AND "@,
        ) + " ORDER BY "@ + self.order.sql_text() + " LIMIT ?"@
    }

    /// The values bound to its parameters.
    pub open spec fn bound(self) -> Seq<SqlV> {
        bound_by(self.clauses).push(SqlV::Int(self.limit))
    }
}

impl MessageQuery {
    /// The statement that asks for the messages.
    pub fn sql(&self) -> (r: String)
        ensures
            r@ == self@.sql_text(),
    {
        let mut parts: Vec<String> = Vec::new();
        let mut i: usize = 0;
        while i < self.clauses.len()
            invariant
                i <= self.clauses@.len(),
                parts@.len() == i,
                forall|k: int|
                    0 <= k < i ==> (#[trigger] parts@[k])@ == self.clauses@[k]@.sql_text(),
            decreases self.clauses@.len() - i,
        {
            parts.push(self.clauses[i].sql());
            i = i + 1;
        }
        assert(crate::text::texts_view(parts@) =~= self@.clauses.map_values(
            |c: ClauseV| c.sql_text(),
        ));
        let all = join(&parts, " AND ");
        let s = concat("SELECT m.data,m.time,m.id,m.seq FROM messages m WHERE ", all.as_str());
        let s = concat(s.as_str(), " ORDER BY ");
        let s = concat(s.as_str(), self.order.sql());
        concat(s.as_str(), " LIMIT ?")
    }

    /// The values bound to its parameters.
    pub fn values(&self) -> (r: Vec<SqlValue>)
        ensures
            crate::sql::values_view(r@) == self@.bound(),
    {
        let mut out: Vec<SqlValue> = Vec::new();
        let mut i: usize = 0;
        let ghost all = self@.clauses;
        assert(crate::sql::values_view(out@) =~= bound_by(all.take(0)));
        while i < self.clauses.len()
            invariant
                all == clauses_view(self.clauses@),
                i <= self.clauses@.len(),
                crate::sql::values_view(out@) == bound_by(all.take(i as int)),
            decreases self.clauses@.len() - i,
        {
            assert(all.take(i + 1).drop_last() =~= all.take(i as int));
            self.clauses[i].push_values(&mut out);
            i = i + 1;
        }
        assert(all.take(all.len() as int) =~= all);
        push_one(&mut out, SqlValue::Int(self.limit));
        assert(crate::sql::values_view(out@) =~= self@.bound());
        out
    }
}

} // verus!

//! What the statements mean: the archive as tables, what each statement
//! changes in them, and what a true answer to a question is. The database does
//! the work; this is the account of it by which the laws of the archive are
//! stated.
use vstd::prelude::*;

use crate::cursor::CursorV;
use crate::filter::{ClauseV, MessageQueryV, Order};
use crate::index::{IndexV, NextV, Presented, Resolved, StepV};
use crate::json::JsonV;
use crate::query::Clauses;
use crate::source::SourceMessageV;
use crate::sql::{AnswerV, ConversationRowV, Form, MessageRowV, SqlV, StatementV};

verus! {

/// A message that has been filed.
pub struct Filed {
    pub seq: i64,
    pub id: Seq<char>,
    pub conversation: Seq<char>,
    pub member: Seq<char>,
    pub time: i64,
    pub kind: Seq<char>,
    pub tokens: Seq<char>,
    pub data: Seq<char>,
}

/// A name under which a member was seen.
pub struct Known {
    pub rowid: i64,
    pub conversation: Seq<char>,
    pub id: Seq<char>,
    pub name: Seq<char>,
}

/// How far the import of a conversation from a shard has come.
pub struct Position {
    pub conversation: Seq<char>,
    pub shard: Seq<char>,
    /// The row number to go on behind, in digits.
    pub position: Seq<char>,
    pub done: bool,
}

/// The archive.
#[verifier::ext_equal]
pub struct Archive {
    /// The account that it belongs to, once it is noted.
    pub account: Option<Seq<char>>,
    /// The secret that cursors are sealed with, in hexadecimal, once it is noted.
    pub secret: Option<Seq<char>>,
    /// How often permissions have changed.
    pub generation: int,
    /// The size above which it warns, in digits.
    pub quota: Seq<char>,
    /// Whether imports count by row number.
    pub migrated: bool,
    pub conversations: Seq<ConversationRowV>,
    pub messages: Seq<Filed>,
    /// The highest number that was ever given to a message.
    pub top: int,
    pub members: Seq<Known>,
    pub positions: Seq<Position>,
    /// Whether a full-text query finds a text.
    pub finds: spec_fn(Seq<char>, Seq<char>) -> bool,
}

/// The archive that the tables make where there was none.
pub open spec fn fresh(finds: spec_fn(Seq<char>, Seq<char>) -> bool) -> Archive {
    Archive {
        account: None,
        secret: None,
        generation: 0,
        quota: "5368709120"@,
        migrated: false,
        conversations: Seq::empty(),
        messages: Seq::empty(),
        top: 0,
        members: Seq::empty(),
        positions: Seq::empty(),
        finds,
    }
}

/// What holds of every archive: identifiers are unique, messages are numbered
/// upwards, and each shard has one place for each conversation.
pub open spec fn sound(a: Archive) -> bool {
    &&& forall|i: int, k: int|
        0 <= i < k < a.messages.len() ==> (#[trigger] a.messages[i]).seq < (
        #[trigger] a.messages[k]).seq && a.messages[i].id != a.messages[k].id
    &&& forall|i: int| 0 <= i < a.messages.len() ==> 0 < (#[trigger] a.messages[i]).seq <= a.top
    &&& 0 <= a.top
    &&& forall|i: int, k: int|
        0 <= i < k < a.conversations.len() ==> (#[trigger] a.conversations[i]).id != (
        #[trigger] a.conversations[k]).id
    &&& forall|i: int, k: int|
        0 <= i < k < a.positions.len() ==> !is_place(
            #[trigger] a.positions[k],
            (#[trigger] a.positions[i]).conversation,
            a.positions[i].shard,
        )
}

/// Whether a place is that of a conversation in a shard.
pub open spec fn is_place(p: Position, conversation: Seq<char>, shard: Seq<char>) -> bool {
    p.conversation == conversation && p.shard == shard
}

// ------------------------------------------------------------------ changes

/// The text bound to a parameter.
pub open spec fn text_arg(args: Seq<SqlV>, i: int) -> Seq<char> {
    match args[i] {
        SqlV::Text(s) => s,
        SqlV::Int(_) => Seq::empty(),
    }
}

/// The number bound to a parameter.
pub open spec fn int_arg(args: Seq<SqlV>, i: int) -> i64 {
    match args[i] {
        SqlV::Int(n) => n,
        SqlV::Text(_) => 0,
    }
}

/// Whether a conversation is listed.
pub open spec fn is_listed(a: Archive, id: Seq<char>) -> bool {
    exists|i: int| 0 <= i < a.conversations.len() && (#[trigger] a.conversations[i]).id == id
}

/// Whether a message has been filed.
pub open spec fn is_filed(a: Archive, id: Seq<char>) -> bool {
    exists|i: int| 0 <= i < a.messages.len() && (#[trigger] a.messages[i]).id == id
}

/// Whether a member was seen under a name.
pub open spec fn is_known(
    a: Archive,
    conversation: Seq<char>,
    id: Seq<char>,
    name: Seq<char>,
) -> bool {
    exists|i: int|
        0 <= i < a.members.len() && (#[trigger] a.members[i]).conversation == conversation
            && a.members[i].id == id && a.members[i].name == name
}

/// The conversations, with one of them enabled under a name.
pub open spec fn enabled(
    c: Seq<ConversationRowV>,
    id: Seq<char>,
    name: Seq<char>,
) -> Seq<ConversationRowV> {
    Seq::new(
        c.len(),
        |i: int|
            if c[i].id == id {
                ConversationRowV { enabled: true, name, ..c[i] }
            } else {
                c[i]
            },
    )
}

/// The conversations, with one of them disabled.
pub open spec fn disabled(c: Seq<ConversationRowV>, id: Seq<char>) -> Seq<ConversationRowV> {
    Seq::new(
        c.len(),
        |i: int|
            if c[i].id == id {
                ConversationRowV { enabled: false, ..c[i] }
            } else {
                c[i]
            },
    )
}

/// The message that a statement files.
pub open spec fn filed_by(args: Seq<SqlV>, seq: int) -> Filed {
    Filed {
        seq: seq as i64,
        id: text_arg(args, 0),
        conversation: text_arg(args, 1),
        member: text_arg(args, 2),
        time: int_arg(args, 3),
        kind: text_arg(args, 5),
        tokens: text_arg(args, 7),
        data: text_arg(args, 8),
    }
}

/// The highest row number among the members, zero where there is none.
pub open spec fn newest_member(members: Seq<Known>) -> int
    decreases members.len(),
{
    if members.len() == 0 {
        0
    } else if members.last().rowid > newest_member(members.drop_last()) {
        members.last().rowid as int
    } else {
        newest_member(members.drop_last())
    }
}

/// The archive with a member noted under a name, unless it is known under it.
pub open spec fn noted(
    a: Archive,
    conversation: Seq<char>,
    id: Seq<char>,
    name: Seq<char>,
) -> Archive {
    if is_known(a, conversation, id, name) {
        a
    } else {
        Archive {
            members: a.members.push(
                Known { rowid: (newest_member(a.members) + 1) as i64, conversation, id, name },
            ),
            ..a
        }
    }
}

/// Whether a place is noted for a conversation in a shard.
pub open spec fn has_place(a: Archive, conversation: Seq<char>, shard: Seq<char>) -> bool {
    exists|i: int|
        0 <= i < a.positions.len() && is_place(#[trigger] a.positions[i], conversation, shard)
}

/// The places, with that of a conversation in a shard moved.
pub open spec fn moved(
    places: Seq<Position>,
    conversation: Seq<char>,
    shard: Seq<char>,
    position: Seq<char>,
    done: bool,
) -> Seq<Position> {
    Seq::new(
        places.len(),
        |i: int|
            if is_place(places[i], conversation, shard) {
                Position { position, done, ..places[i] }
            } else {
                places[i]
            },
    )
}

/// Whether an import of a conversation is not complete.
pub open spec fn is_pending(a: Archive, conversation: Seq<char>) -> bool {
    exists|i: int|
        0 <= i < a.positions.len() && (#[trigger] a.positions[i]).conversation == conversation
            && !a.positions[i].done
}

/// The conversations, with the state of one of them set.
pub open spec fn in_state(
    c: Seq<ConversationRowV>,
    id: Seq<char>,
    state: Seq<char>,
) -> Seq<ConversationRowV> {
    Seq::new(
        c.len(),
        |i: int|
            if c[i].id == id {
                ConversationRowV { state, ..c[i] }
            } else {
                c[i]
            },
    )
}

/// A letter as the database compares it where case does not count.
pub open spec fn folded(c: char) -> int {
    if 'A' <= c <= 'Z' {
        c as int + 32
    } else {
        c as int
    }
}

/// Whether a state says that the type of a column stopped an import: what the
/// pattern `history_column_type_error%` fits, in which `_` stands for any
/// character and case does not count.
pub open spec fn is_column_error(state: Seq<char>) -> bool {
    let pattern = "history_column_type_error"@;
    state.len() >= pattern.len() && forall|i: int|
        0 <= i < pattern.len() ==> #[trigger] pattern[i] == '_' || folded(state[i])
            == pattern[i] as int
}

/// Whether the import of a conversation in that state is restarted when imports
/// come to count by row number.
pub open spec fn is_restarted(state: Seq<char>) -> bool {
    state == "indexing"@ || state == "incompatible_message_index"@
}

/// Whether the places of a conversation are restarted with it.
pub open spec fn restarts(a: Archive, conversation: Seq<char>) -> bool {
    exists|i: int|
        0 <= i < a.conversations.len() && (#[trigger] a.conversations[i]).id == conversation
            && is_restarted(a.conversations[i].state)
}

/// The conversations, with the state of some of them set back to the beginning
/// of an import.
pub open spec fn reopened(
    c: Seq<ConversationRowV>,
    which: spec_fn(Seq<char>) -> bool,
) -> Seq<ConversationRowV> {
    Seq::new(
        c.len(),
        |i: int|
            if which(c[i].state) {
                ConversationRowV { state: "indexing"@, ..c[i] }
            } else {
                c[i]
            },
    )
}

/// What a statement makes of the archive. A statement that adds a setting fails
/// where the setting is there, and changes nothing then.
pub open spec fn effect(a: Archive, s: StatementV) -> Archive {
    match s {
        StatementV::Fixed { form, args } => match form {
            Form::Grant => {
                let id = text_arg(args, 0);
                let name = text_arg(args, 1);
                Archive {
                    conversations: if is_listed(a, id) {
                        enabled(a.conversations, id, name)
                    } else {
                        a.conversations.push(
                            ConversationRowV { id, name, state: "indexing"@, enabled: true },
                        )
                    },
                    ..a
                }
            },
            Form::Disable => Archive {
                conversations: disabled(a.conversations, text_arg(args, 0)),
                ..a
            },
            Form::DeleteMessages => Archive {
                messages: a.messages.filter(|m: Filed| m.conversation != text_arg(args, 0)),
                ..a
            },
            Form::DeleteMembers => Archive {
                members: a.members.filter(|m: Known| m.conversation != text_arg(args, 0)),
                ..a
            },
            Form::DeletePositions => Archive {
                positions: a.positions.filter(|p: Position| p.conversation != text_arg(args, 0)),
                ..a
            },
            Form::DeleteConversation => Archive {
                conversations: a.conversations.filter(
                    |c: ConversationRowV| c.id != text_arg(args, 0),
                ),
                ..a
            },
            Form::BumpGeneration => Archive { generation: a.generation + 1, ..a },
            Form::InsertMessage => if is_filed(a, text_arg(args, 0)) {
                a
            } else {
                Archive {
                    messages: a.messages.push(filed_by(args, a.top + 1)),
                    top: a.top + 1,
                    ..a
                }
            },
            Form::InsertMember => noted(a, text_arg(args, 0), text_arg(args, 1), text_arg(args, 1)),
            Form::InsertNamedMember => noted(
                a,
                text_arg(args, 0),
                text_arg(args, 1),
                text_arg(args, 2),
            ),
            Form::InsertPosition => if has_place(a, text_arg(args, 0), text_arg(args, 1)) {
                a
            } else {
                Archive {
                    positions: a.positions.push(
                        Position {
                            conversation: text_arg(args, 0),
                            shard: text_arg(args, 1),
                            position: text_arg(args, 2),
                            done: false,
                        },
                    ),
                    ..a
                }
            },
            Form::SetPosition => Archive {
                positions: moved(
                    a.positions,
                    text_arg(args, 0),
                    text_arg(args, 1),
                    text_arg(args, 2),
                    int_arg(args, 3) != 0,
                ),
                ..a
            },
            Form::MarkReady => if is_pending(a, text_arg(args, 0)) {
                a
            } else {
                Archive {
                    conversations: in_state(a.conversations, text_arg(args, 0), "ready"@),
                    ..a
                }
            },
            Form::SetState => Archive {
                conversations: in_state(a.conversations, text_arg(args, 0), text_arg(args, 1)),
                ..a
            },
            Form::RestartImports => Archive {
                positions: Seq::new(
                    a.positions.len(),
                    |i: int|
                        if restarts(a, a.positions[i].conversation) {
                            Position {
                                position: crate::backend::first_position(),
                                done: false,
                                ..a.positions[i]
                            }
                        } else {
                            a.positions[i]
                        },
                ),
                ..a
            },
            Form::ReopenIncompatible => Archive {
                conversations: reopened(
                    a.conversations,
                    |s: Seq<char>| s == "incompatible_message_index"@,
                ),
                ..a
            },
            Form::RetryColumnErrors => Archive {
                conversations: reopened(a.conversations, |s: Seq<char>| is_column_error(s)),
                ..a
            },
            Form::MarkMigrated => Archive { migrated: true, ..a },
            Form::KeepAccount => if a.account is None {
                Archive { account: Some(text_arg(args, 0)), ..a }
            } else {
                a
            },
            Form::StoreCursorKey => if a.secret is None {
                Archive { secret: Some(text_arg(args, 0)), ..a }
            } else {
                a
            },
            Form::SetQuota => Archive { quota: text_arg(args, 0), ..a },
            _ => a,
        },
        StatementV::Messages(_) => a,
    }
}

/// What a script makes of the archive.
pub open spec fn after(a: Archive, script: Seq<StatementV>) -> Archive
    decreases script.len(),
{
    if script.len() == 0 {
        a
    } else {
        effect(after(a, script.drop_last()), script.last())
    }
}

pub(crate) proof fn lemma_after_two(a: Archive, s: StatementV, t: StatementV)
    ensures
        after(a, seq![s, t]) == effect(effect(a, s), t),
{
    reveal_with_fuel(after, 3);
    assert(seq![s, t].drop_last() =~= seq![s]);
    assert(seq![s].drop_last() =~= Seq::empty());
}

pub(crate) proof fn lemma_after_joined(a: Archive, s: Seq<StatementV>, t: Seq<StatementV>)
    ensures
        after(a, s + t) == after(after(a, s), t),
    decreases t.len(),
{
    if t.len() == 0 {
        assert(s + t =~= s);
    } else {
        assert((s + t).drop_last() =~= s + t.drop_last());
        lemma_after_joined(a, s, t.drop_last());
    }
}

// ------------------------------------------------------------------ answers

/// Whether a message meets a condition.
pub open spec fn admits(a: Archive, clause: ClauseV, m: Filed) -> bool {
    match clause {
        ClauseV::Conversation(id) => m.conversation == id,
        ClauseV::UpTo(n) => m.seq <= n,
        ClauseV::Since(t) => m.time >= t,
        ClauseV::Until(t) => m.time < t,
        ClauseV::Members(ids) => ids.contains(m.member),
        ClauseV::Types(kinds) => kinds.contains(m.kind),
        ClauseV::Matching(query) => (a.finds)(query, m.tokens),
        ClauseV::FiledAfter(n) => m.seq > n,
        ClauseV::Before(t, id) => m.time < t || (m.time == t && crate::text::text_lt(m.id, id)),
        ClauseV::After(t, id) => m.time > t || (m.time == t && crate::text::text_lt(id, m.id)),
    }
}

/// Whether a message meets every condition.
pub open spec fn fits(a: Archive, clauses: Seq<ClauseV>, m: Filed) -> bool {
    forall|i: int| 0 <= i < clauses.len() ==> admits(a, #[trigger] clauses[i], m)
}

/// Whether one message was written before another: by time, then by
/// identifier.
pub open spec fn older(m: Filed, n: Filed) -> bool {
    m.time < n.time || (m.time == n.time && crate::text::text_lt(m.id, n.id))
}

/// Whether one message stands before another in an order.
pub open spec fn stands_before(order: Order, m: Filed, n: Filed) -> bool {
    match order {
        Order::AsFiled => m.seq < n.seq,
        Order::OldestFirst => older(m, n),
        Order::NewestFirst => older(n, m),
    }
}

/// Whether a list holds the messages that meet the conditions, all of them and
/// no others, in order.
pub open spec fn lists(a: Archive, clauses: Seq<ClauseV>, order: Order, s: Seq<Filed>) -> bool {
    &&& forall|i: int|
        0 <= i < s.len() ==> a.messages.contains(#[trigger] s[i]) && fits(a, clauses, s[i])
    &&& forall|i: int|
        0 <= i < a.messages.len() && fits(a, clauses, #[trigger] a.messages[i]) ==> s.contains(
            a.messages[i],
        )
    &&& forall|i: int, k: int|
        0 <= i < k < s.len() ==> stands_before(order, #[trigger] s[i], #[trigger] s[k])
}

/// Messages as they come back.
pub open spec fn rows_of(s: Seq<Filed>) -> Seq<MessageRowV> {
    Seq::new(
        s.len(),
        |i: int| MessageRowV { data: s[i].data, time: s[i].time, id: s[i].id, seq: s[i].seq },
    )
}

/// The first of a list, no more than asked for. A number below zero asks for all.
pub open spec fn first_of<T>(s: Seq<T>, limit: int) -> Seq<T> {
    if 0 <= limit < s.len() {
        s.take(limit)
    } else {
        s
    }
}

/// Whether a member was seen under a name or identifier that a text occurs in,
/// no later than the row of that number.
pub open spec fn is_member(
    a: Archive,
    conversation: Seq<char>,
    snapshot: i64,
    query: Seq<char>,
    id: Seq<char>,
) -> bool {
    exists|i: int|
        0 <= i < a.members.len() && (#[trigger] a.members[i]).conversation == conversation
            && a.members[i].id == id && a.members[i].rowid <= snapshot && (crate::text::occurs(
            a.members[i].name,
            query,
        ) || crate::text::occurs(id, query))
}

/// Whether a list holds the members behind an identifier, all of them and no
/// others, each once, in order.
pub open spec fn lists_members(
    a: Archive,
    conversation: Seq<char>,
    after: Seq<char>,
    snapshot: i64,
    query: Seq<char>,
    s: Seq<Seq<char>>,
) -> bool {
    &&& forall|i: int|
        0 <= i < s.len() ==> crate::text::text_lt(after, #[trigger] s[i]) && is_member(
            a,
            conversation,
            snapshot,
            query,
            s[i],
        )
    &&& forall|id: Seq<char>|
        crate::text::text_lt(after, id) && is_member(a, conversation, snapshot, query, id)
            ==> #[trigger] s.contains(id)
    &&& forall|i: int, k: int|
        0 <= i < k < s.len() ==> crate::text::text_lt(#[trigger] s[i], #[trigger] s[k])
}

/// Whether a conversation is enabled.
pub open spec fn is_enabled(a: Archive, id: Seq<char>) -> bool {
    exists|i: int|
        0 <= i < a.conversations.len() && (#[trigger] a.conversations[i]).id == id
            && a.conversations[i].enabled
}

/// Whether a list holds the identifiers for which something holds, all of them
/// and no others, in order.
pub open spec fn lists_ids(s: Seq<Seq<char>>, holds: spec_fn(Seq<char>) -> bool) -> bool {
    &&& forall|i: int| 0 <= i < s.len() ==> holds(#[trigger] s[i])
    &&& forall|id: Seq<char>| holds(id) ==> #[trigger] s.contains(id)
    &&& forall|i: int, k: int|
        0 <= i < k < s.len() ==> crate::text::text_lt(#[trigger] s[i], #[trigger] s[k])
}

/// Whether a conversation is enabled and answers to a name.
pub open spec fn is_called(a: Archive, name: Seq<char>, id: Seq<char>) -> bool {
    exists|i: int|
        0 <= i < a.conversations.len() && (#[trigger] a.conversations[i]).id == id
            && a.conversations[i].enabled && (id == name || a.conversations[i].name == name)
}

/// The conversations that are enabled and answer to a name.
pub open spec fn called(a: Archive, name: Seq<char>) -> spec_fn(Seq<char>) -> bool {
    |id: Seq<char>| is_called(a, name, id)
}

/// Whether a conversation belongs in a list: a text occurs in its name or
/// identifier, and it is enabled or all are asked for, by a number other than
/// zero.
pub open spec fn belongs(c: ConversationRowV, query: Seq<char>, all: i64) -> bool {
    (c.enabled || all != 0) && (crate::text::occurs(c.name, query) || crate::text::occurs(c.id, query))
}

/// Whether one conversation is listed before another: by name, then by
/// identifier.
pub open spec fn listed_before(c: ConversationRowV, d: ConversationRowV) -> bool {
    crate::text::text_lt(c.name, d.name) || (c.name == d.name && crate::text::text_lt(c.id, d.id))
}

/// Whether a list holds the conversations that belong in it, all of them and no
/// others, in order.
pub open spec fn lists_conversations(
    a: Archive,
    query: Seq<char>,
    all: i64,
    s: Seq<ConversationRowV>,
) -> bool {
    &&& forall|i: int|
        0 <= i < s.len() ==> a.conversations.contains(#[trigger] s[i]) && belongs(s[i], query, all)
    &&& forall|i: int|
        0 <= i < a.conversations.len() && belongs(#[trigger] a.conversations[i], query, all)
            ==> s.contains(a.conversations[i])
    &&& forall|i: int, k: int|
        0 <= i < k < s.len() ==> listed_before(#[trigger] s[i], #[trigger] s[k])
}

/// Whether a member of a conversation answers to a name.
pub open spec fn answers_to(
    a: Archive,
    conversation: Seq<char>,
    name: Seq<char>,
    id: Seq<char>,
) -> bool {
    exists|i: int|
        0 <= i < a.members.len() && (#[trigger] a.members[i]).conversation == conversation
            && a.members[i].id == id && (id == name || a.members[i].name == name)
}

/// Whether a member was seen under a name, no later than the row of that number.
pub open spec fn is_name_of(
    a: Archive,
    conversation: Seq<char>,
    id: Seq<char>,
    snapshot: i64,
    name: Seq<char>,
) -> bool {
    exists|i: int|
        0 <= i < a.members.len() && (#[trigger] a.members[i]).conversation == conversation
            && a.members[i].id == id && a.members[i].rowid <= snapshot && a.members[i].name == name
}

/// Whether a message stands before a time and identifier.
pub open spec fn precedes(m: Filed, time: i64, id: Seq<char>) -> bool {
    m.time < time || (m.time == time && crate::text::text_lt(m.id, id))
}

/// Whether a list holds the messages of a conversation on one side of a time and
/// identifier, all of them and no others, the nearest first.
pub open spec fn lists_side(
    a: Archive,
    conversation: Seq<char>,
    time: i64,
    id: Seq<char>,
    before: bool,
    s: Seq<Filed>,
) -> bool {
    &&& forall|i: int|
        0 <= i < s.len() ==> a.messages.contains(#[trigger] s[i]) && s[i].conversation
            == conversation && precedes(s[i], time, id) == before
    &&& forall|i: int|
        0 <= i < a.messages.len() && (#[trigger] a.messages[i]).conversation == conversation
            && precedes(a.messages[i], time, id) == before ==> s.contains(a.messages[i])
    &&& forall|i: int, k: int|
        0 <= i < k < s.len() ==> if before {
            older(#[trigger] s[k], #[trigger] s[i])
        } else {
            older(s[i], s[k])
        }
}

/// The texts of messages.
pub open spec fn data_in(s: Seq<Filed>) -> Seq<Seq<char>> {
    Seq::new(s.len(), |i: int| s[i].data)
}

/// Whether a message is the one of an identifier and may be shown.
pub open spec fn is_shown(a: Archive, id: Seq<char>, m: Filed) -> bool {
    a.messages.contains(m) && m.id == id && is_enabled(a, m.conversation)
}

/// Whether that is the conversation and the time of the message of an
/// identifier, where there is one that may be shown.
pub open spec fn is_home(a: Archive, id: Seq<char>, home: Option<(Seq<char>, i64)>) -> bool {
    match home {
        Some((conversation, time)) => exists|m: Filed| #[trigger]
            is_shown(a, id, m) && m.conversation == conversation && m.time == time,
        None => forall|m: Filed| !#[trigger] is_shown(a, id, m),
    }
}

/// Whether that is the text of the message of an identifier, where there is one
/// that may be shown.
pub open spec fn is_text(a: Archive, id: Seq<char>, data: Option<Seq<char>>) -> bool {
    match data {
        Some(data) => exists|m: Filed| #[trigger] is_shown(a, id, m) && m.data == data,
        None => forall|m: Filed| !#[trigger] is_shown(a, id, m),
    }
}

/// Whether an import is to be taken up: it is not complete, and its conversation
/// is enabled and being imported.
pub open spec fn is_due(a: Archive, p: Position) -> bool {
    !p.done && exists|i: int|
        0 <= i < a.conversations.len() && (#[trigger] a.conversations[i]).id == p.conversation
            && a.conversations[i].enabled && a.conversations[i].state == "indexing"@
}

/// Whether an answer is true of the archive as it is before the statement. Of
/// the statements that write, only the filing of a message is asked for what it
/// changed.
pub open spec fn tells(a: Archive, s: StatementV, answer: AnswerV) -> bool {
    match s {
        StatementV::Messages(q) => answer matches AnswerV::Messages(rows)
            && exists|all: Seq<Filed>| #[trigger]
            lists(a, q.clauses, q.order, all) && rows == first_of(rows_of(all), q.limit as int),
        StatementV::Fixed { form, args } => match form {
            Form::StoredAccount => answer == AnswerV::MaybeText(a.account),
            Form::CursorKey => answer == AnswerV::MaybeText(a.secret),
            Form::Generation => answer matches AnswerV::Number(n) && n == a.generation,
            Form::Quota => answer matches AnswerV::Number(n) && (crate::text::parsed(
                a.quota,
            ) matches Some(q) ==> n == q),
            Form::Migrated => answer matches AnswerV::Number(n) && (n != 0) == a.migrated,
            Form::NewestMessage => answer matches AnswerV::Number(n) && n == if a.messages.len()
                == 0 {
                0
            } else {
                a.messages.last().seq as int
            },
            Form::NewestMember => answer matches AnswerV::Number(n) && n == newest_member(
                a.members,
            ),
            Form::Resolve => answer matches AnswerV::Texts(ids)
                && exists|all: Seq<Seq<char>>| #[trigger]
                lists_ids(all, called(a, text_arg(args, 0))) && ids == first_of(all, 21),
            Form::EnabledConversations => answer matches AnswerV::Texts(ids) && lists_ids(
                ids,
                |id: Seq<char>| is_enabled(a, id),
            ),
            Form::State => answer matches AnswerV::Text(state) && exists|i: int|
                0 <= i < a.conversations.len() && (#[trigger] a.conversations[i]).id == text_arg(
                    args,
                    0,
                ) && a.conversations[i].state == state,
            Form::List => answer matches AnswerV::Conversations(rows)
                && exists|all: Seq<ConversationRowV>| #[trigger]
                lists_conversations(a, text_arg(args, 0), int_arg(args, 1), all) && rows
                    == first_of(all, 200),
            Form::MemberIds => answer matches AnswerV::Texts(ids) && ids.no_duplicates()
                && ids.len() <= 21 && (forall|i: int|
                0 <= i < ids.len() ==> answers_to(
                    a,
                    text_arg(args, 0),
                    text_arg(args, 1),
                    #[trigger] ids[i],
                )) && (ids.len() < 21 ==> forall|id: Seq<char>|
                answers_to(a, text_arg(args, 0), text_arg(args, 1), id) ==> #[trigger] ids.contains(
                    id,
                )),
            Form::MemberPage => answer matches AnswerV::Texts(ids)
                && exists|all: Seq<Seq<char>>| #[trigger]
                lists_members(
                    a,
                    text_arg(args, 0),
                    text_arg(args, 1),
                    int_arg(args, 2),
                    text_arg(args, 3),
                    all,
                ) && ids == first_of(all, int_arg(args, 4) as int),
            Form::MemberNames => answer matches AnswerV::Texts(names) && lists_ids(
                names,
                |name: Seq<char>|
                    is_name_of(a, text_arg(args, 0), text_arg(args, 1), int_arg(args, 2), name),
            ),
            Form::MessageHome => answer matches AnswerV::Home(home) && is_home(
                a,
                text_arg(args, 0),
                home,
            ),
            Form::MessageData => answer matches AnswerV::MaybeText(data) && is_text(
                a,
                text_arg(args, 0),
                data,
            ),
            Form::Context => answer matches AnswerV::Texts(data) && exists|
                before: Seq<Filed>,
                from: Seq<Filed>,
            |
                #[trigger] lists_side(
                    a,
                    text_arg(args, 0),
                    int_arg(args, 1),
                    text_arg(args, 2),
                    true,
                    before,
                ) && #[trigger] lists_side(
                    a,
                    text_arg(args, 0),
                    int_arg(args, 1),
                    text_arg(args, 2),
                    false,
                    from,
                ) && data.to_multiset() == data_in(
                    first_of(before, int_arg(args, 3) as int),
                ).to_multiset().add(
                    data_in(first_of(from, int_arg(args, 3) as int)).to_multiset(),
                ),
            Form::PendingImport => answer matches AnswerV::Import(due) && match due {
                Some((conversation, shard, position)) => exists|i: int|
                    0 <= i < a.positions.len() && is_due(a, #[trigger] a.positions[i])
                        && a.positions[i].conversation == conversation && a.positions[i].shard
                        == shard && a.positions[i].position == position,
                None => forall|i: int|
                    0 <= i < a.positions.len() ==> !is_due(a, #[trigger] a.positions[i]),
            },
            Form::SavedPosition => answer matches AnswerV::MaybeText(position) && match position {
                Some(position) => exists|i: int|
                    0 <= i < a.positions.len() && is_place(
                        #[trigger] a.positions[i],
                        text_arg(args, 0),
                        text_arg(args, 1),
                    ) && a.positions[i].position == position,
                None => !has_place(a, text_arg(args, 0), text_arg(args, 1)),
            },
            Form::InsertMessage => answer matches AnswerV::Changed(n) && n == if is_filed(
                a,
                text_arg(args, 0),
            ) {
                0
            } else {
                1int
            },
            _ => true,
        },
    }
}

// ------------------------------------------------------------------- filing

/// Whether the archive has grown: all that was filed is still there and comes
/// first, and what has been added is numbered above it.
pub open spec fn grown(a: Archive, b: Archive) -> bool {
    &&& b.messages.len() >= a.messages.len()
    &&& b.messages.take(a.messages.len() as int) == a.messages
    &&& forall|i: int| a.messages.len() <= i < b.messages.len() ==> (#[trigger] b.messages[i]).seq > a.top
    &&& b.finds == a.finds
    &&& b.top >= a.top
}

/// Filing a message adds it at the end, unless its identifier is known; then
/// nothing changes among the messages.
pub proof fn law_filing_adds_or_keeps(a: Archive, m: SourceMessageV)
    requires
        sound(a),
        a.top < i64::MAX,
    ensures
        ({
            let b = after(a, crate::index::insert_script(m));
            &&& sound(b)
            &&& grown(a, b)
            &&& b.top <= a.top + 1
            &&& b == (Archive { messages: b.messages, top: b.top, members: b.members, ..a })
            &&& is_filed(a, crate::index::message_id(m)) ==> b.messages == a.messages && b.top == a.top
            &&& !is_filed(a, crate::index::message_id(m)) ==> b.messages == a.messages.push(
                b.messages.last(),
            ) && b.messages.last().id == crate::index::message_id(m) && b.messages.last().seq
                == a.top + 1 && b.messages.last().conversation == m.message.talker@
                && b.messages.last().time == m.message.create_time && b.messages.last().data
                == crate::json::json_text(crate::index::message_data(m))
        }),
{
    let s = crate::index::file_message(m);
    let t = crate::index::insert_script(m)[1];
    assert(crate::index::insert_script(m) =~= seq![s, t]);
    lemma_after_two(a, s, t);
    let id = crate::index::message_id(m);
    let c = effect(a, s);
    if is_filed(a, id) {
        assert(c == a);
    } else {
        assert(c.messages == a.messages.push(c.messages.last()));
    }
    let b = effect(c, t);
    assert(b.messages == c.messages);
    assert(b.messages.take(a.messages.len() as int) =~= a.messages);
}

/// The archive keeps what it saw first of a message: filing another message
/// under the same identifier changes no message, whatever it holds.
pub proof fn law_first_observed_is_kept(a: Archive, m: SourceMessageV, n: SourceMessageV)
    requires
        sound(a),
        a.top + 1 < i64::MAX,
        crate::index::message_id(m) == crate::index::message_id(n),
    ensures
        after(
            after(a, crate::index::insert_script(m)),
            crate::index::insert_script(n),
        ).messages == after(a, crate::index::insert_script(m)).messages,
{
    law_filing_adds_or_keeps(a, m);
    let b = after(a, crate::index::insert_script(m));
    law_filing_adds_or_keeps(b, n);
    if !is_filed(a, crate::index::message_id(m)) {
        assert(b.messages[b.messages.len() - 1].id == crate::index::message_id(m));
    }
    assert(is_filed(b, crate::index::message_id(n)));
}

/// Importing messages only adds to the archive, and only messages and members.
pub proof fn law_importing_grows(a: Archive, batch: Seq<SourceMessageV>)
    requires
        sound(a),
        a.top + batch.len() < i64::MAX,
    ensures
        grown(a, after(a, crate::import::batch_script(batch))),
        sound(after(a, crate::import::batch_script(batch))),
        after(a, crate::import::batch_script(batch)).top <= a.top + batch.len(),
        ({
            let b = after(a, crate::import::batch_script(batch));
            b == (Archive { messages: b.messages, top: b.top, members: b.members, ..a })
        }),
    decreases batch.len(),
{
    if batch.len() == 0 {
        assert(a.messages.take(a.messages.len() as int) =~= a.messages);
    } else {
        law_importing_grows(a, batch.drop_last());
        let head = crate::import::batch_script(batch.drop_last());
        let tail = crate::index::insert_script(batch.last());
        lemma_after_joined(a, head, tail);
        let b = after(a, head);
        law_filing_adds_or_keeps(b, batch.last());
        let c = after(b, tail);
        assert(c.messages.take(a.messages.len() as int) =~= c.messages.take(
            b.messages.len() as int,
        ).take(a.messages.len() as int));
        assert forall|i: int| a.messages.len() <= i < c.messages.len() implies (
        #[trigger] c.messages[i]).seq > a.top by {
            if i < b.messages.len() {
                assert(c.messages.take(b.messages.len() as int)[i] == b.messages[i]);
            }
        }
    }
}

// ------------------------------------------------------------------ queries

pub(crate) proof fn lemma_grown_lists_alike(
    a: Archive,
    b: Archive,
    clauses: Seq<ClauseV>,
    order: Order,
    snapshot: i64,
    s: Seq<Filed>,
)
    requires
        grown(a, b),
        snapshot <= a.top,
        clauses.contains(ClauseV::UpTo(snapshot)),
    ensures
        lists(a, clauses, order, s) <==> lists(b, clauses, order, s),
{
    let n = a.messages.len() as int;
    let at = choose|i: int| 0 <= i < clauses.len() && clauses[i] == ClauseV::UpTo(snapshot);
    assert forall|m: Filed| fits(a, clauses, m) == fits(b, clauses, m) by {
        if fits(a, clauses, m) {
            assert forall|i: int| 0 <= i < clauses.len() implies admits(
                b,
                #[trigger] clauses[i],
                m,
            ) by {
                assert(admits(a, clauses[i], m));
            }
        }
        if fits(b, clauses, m) {
            assert forall|i: int| 0 <= i < clauses.len() implies admits(
                a,
                #[trigger] clauses[i],
                m,
            ) by {
                assert(admits(b, clauses[i], m));
            }
        }
    }
    assert forall|i: int| 0 <= i < n implies a.messages[i] == #[trigger] b.messages[i] by {
        assert(b.messages.take(n)[i] == b.messages[i]);
    }
    assert forall|m: Filed| fits(a, clauses, m) implies (a.messages.contains(m)
        == b.messages.contains(m)) by {
        assert(admits(a, clauses[at], m));
        if a.messages.contains(m) {
            let i = choose|i: int| 0 <= i < a.messages.len() && a.messages[i] == m;
            assert(b.messages[i] == m);
        }
        if b.messages.contains(m) {
            let i = choose|i: int| 0 <= i < b.messages.len() && b.messages[i] == m;
            assert(i < n);
            assert(a.messages[i] == m);
        }
    }
    if lists(a, clauses, order, s) {
        assert forall|i: int| 0 <= i < b.messages.len() && fits(
            b,
            clauses,
            #[trigger] b.messages[i],
        ) implies s.contains(b.messages[i]) by {
            let m = b.messages[i];
            assert(fits(a, clauses, m));
            assert(b.messages.contains(m));
            assert(a.messages.contains(m));
            let k = choose|k: int| 0 <= k < a.messages.len() && a.messages[k] == m;
            assert(fits(a, clauses, a.messages[k]));
        }
    }
    if lists(b, clauses, order, s) {
        assert forall|i: int| 0 <= i < a.messages.len() && fits(
            a,
            clauses,
            #[trigger] a.messages[i],
        ) implies s.contains(a.messages[i]) by {
            assert(b.messages[i] == a.messages[i]);
            assert(fits(b, clauses, b.messages[i]));
        }
    }
}

proof fn lemma_snapshot_is_a_condition(
    p: JsonV,
    updates: bool,
    conversation: Seq<char>,
    snapshot: i64,
    old: Option<CursorV>,
    found: Seq<Seq<Seq<char>>>,
)
    requires
        crate::query::query_clauses(p, updates, conversation, snapshot, old, found) is Ok,
    ensures
        ({
            let clauses = crate::query::query_clauses(
                p,
                updates,
                conversation,
                snapshot,
                old,
                found,
            )->Ok_0;
            &&& clauses.len() >= 2
            &&& clauses[0] == ClauseV::Conversation(conversation)
            &&& clauses[1] == ClauseV::UpTo(snapshot)
        }),
{
}

/// The pages of a query are stable: messages that are filed after the first
/// page was read change none of them. A page is a true answer before they are
/// filed exactly when it is one afterwards.
pub proof fn law_pages_are_stable(
    a: Archive,
    b: Archive,
    p: JsonV,
    conversation: Seq<char>,
    snapshot: i64,
    old: Option<CursorV>,
    found: Seq<Seq<Seq<char>>>,
    answer: AnswerV,
)
    requires
        grown(a, b),
        snapshot <= a.top,
        crate::query::planned_query(p, false, conversation, snapshot, old, found) is Ok,
    ensures
        ({
            let q = crate::query::planned_query(
                p,
                false,
                conversation,
                snapshot,
                old,
                found,
            )->Ok_0;
            tells(a, StatementV::Messages(q), answer) <==> tells(
                b,
                StatementV::Messages(q),
                answer,
            )
        }),
{
    lemma_snapshot_is_a_condition(p, false, conversation, snapshot, old, found);
    let q = crate::query::planned_query(p, false, conversation, snapshot, old, found)->Ok_0;
    assert(q.clauses[1] == ClauseV::UpTo(snapshot));
    assert(q.clauses.contains(ClauseV::UpTo(snapshot)));
    assert forall|all: Seq<Filed>| #[trigger]
        lists(a, q.clauses, q.order, all) == lists(b, q.clauses, q.order, all) by {
        lemma_grown_lists_alike(a, b, q.clauses, q.order, snapshot, all);
    }
    if tells(a, StatementV::Messages(q), answer) {
        let rows = answer->Messages_0;
        let all = choose|all: Seq<Filed>| #[trigger]
            lists(a, q.clauses, q.order, all) && rows == first_of(rows_of(all), q.limit as int);
        assert(lists(b, q.clauses, q.order, all));
    }
    if tells(b, StatementV::Messages(q), answer) {
        let rows = answer->Messages_0;
        let all = choose|all: Seq<Filed>| #[trigger]
            lists(b, q.clauses, q.order, all) && rows == first_of(rows_of(all), q.limit as int);
        assert(lists(a, q.clauses, q.order, all));
    }
}

proof fn lemma_older_is_transitive(l: Filed, m: Filed, n: Filed)
    requires
        older(l, m),
        older(m, n),
    ensures
        older(l, n),
{
    if l.time == m.time && m.time == n.time {
        crate::text::lemma_text_lt_transitive(l.id, m.id, n.id);
    }
}

proof fn lemma_older_is_asymmetric(m: Filed, n: Filed)
    requires
        older(m, n),
    ensures
        !older(n, m),
{
    if older(n, m) {
        crate::text::lemma_text_lt_transitive(m.id, n.id, m.id);
        crate::text::lemma_text_lt_irreflexive(m.id);
    }
}

/// The conditions of a query that do not say where a page begins.
pub open spec fn lasting_clauses(
    p: JsonV,
    updates: bool,
    conversation: Seq<char>,
    snapshot: i64,
    found: Seq<Seq<Seq<char>>>,
) -> Seq<ClauseV> {
    let c = crate::query::query_clauses(p, updates, conversation, snapshot, None, found)->Ok_0;
    if updates {
        c.drop_last()
    } else {
        c
    }
}

proof fn lemma_clauses_split(
    p: JsonV,
    updates: bool,
    conversation: Seq<char>,
    snapshot: i64,
    old: Option<CursorV>,
    found: Seq<Seq<Seq<char>>>,
)
    requires
        crate::query::query_clauses(p, updates, conversation, snapshot, None, found) is Ok,
    ensures
        crate::query::query_clauses(p, updates, conversation, snapshot, old, found) == Clauses::Ok(
            lasting_clauses(p, updates, conversation, snapshot, found)
                + crate::query::position_clauses(p, updates, old),
        ),
{
    let base = lasting_clauses(p, updates, conversation, snapshot, found);
    let with_old = crate::query::query_clauses(p, updates, conversation, snapshot, old, found);
    assert(with_old is Ok);
    assert(with_old->Ok_0 =~= base + crate::query::position_clauses(p, updates, old));
}

proof fn lemma_fits_split(a: Archive, c: Seq<ClauseV>, d: Seq<ClauseV>, m: Filed)
    ensures
        fits(a, c + d, m) <==> fits(a, c, m) && fits(a, d, m),
{
    if fits(a, c + d, m) {
        assert forall|i: int| 0 <= i < c.len() implies admits(a, #[trigger] c[i], m) by {
            assert((c + d)[i] == c[i]);
        }
        assert forall|i: int| 0 <= i < d.len() implies admits(a, #[trigger] d[i], m) by {
            assert((c + d)[c.len() + i] == d[i]);
        }
    }
    if fits(a, c, m) && fits(a, d, m) {
        assert forall|i: int| 0 <= i < (c + d).len() implies admits(
            a,
            #[trigger] (c + d)[i],
            m,
        ) by {
            if i < c.len() {
                assert((c + d)[i] == c[i]);
            } else {
                assert((c + d)[i] == d[i - c.len()]);
            }
        }
    }
}

/// Where a page stops: the cursor behind a message.
pub open spec fn behind(c: CursorV, updates: bool, m: Filed) -> bool {
    if updates {
        c.time == m.seq
    } else {
        c.time == m.time && c.id == m.id
    }
}

/// The order in which a request shows messages.
pub open spec fn order_of(p: JsonV, updates: bool) -> Order {
    if updates {
        Order::AsFiled
    } else if crate::query::newest_first(p, updates) {
        Order::NewestFirst
    } else {
        Order::OldestFirst
    }
}

proof fn lemma_position_is_order(
    a: Archive,
    p: JsonV,
    updates: bool,
    c: CursorV,
    last: Filed,
    m: Filed,
)
    requires
        behind(c, updates, last),
    ensures
        fits(a, crate::query::position_clauses(p, updates, Some(c)), m) <==> stands_before(
            order_of(p, updates),
            last,
            m,
        ),
{
    let d = crate::query::position_clauses(p, updates, Some(c));
    assert(d.len() == 1);
    assert(fits(a, d, m) <==> admits(a, d[0], m));
}

proof fn lemma_stands_before_is_transitive(order: Order, l: Filed, m: Filed, n: Filed)
    requires
        stands_before(order, l, m),
        stands_before(order, m, n),
    ensures
        stands_before(order, l, n),
{
    match order {
        Order::AsFiled => {},
        Order::OldestFirst => {
            lemma_older_is_transitive(l, m, n);
        },
        Order::NewestFirst => {
            lemma_older_is_transitive(n, m, l);
        },
    }
}

pub(crate) proof fn lemma_stands_before_is_asymmetric(order: Order, m: Filed, n: Filed)
    requires
        stands_before(order, m, n),
    ensures
        !stands_before(order, n, m),
{
    match order {
        Order::AsFiled => {},
        Order::OldestFirst => {
            lemma_older_is_asymmetric(m, n);
        },
        Order::NewestFirst => {
            lemma_older_is_asymmetric(n, m);
        },
    }
}

/// Pages neither repeat nor leave out a message: where a list is what a request
/// shows from some place on, the request with the cursor behind any message of
/// the list shows exactly the rest of it, in the same order.
pub proof fn law_next_page_goes_on(
    a: Archive,
    p: JsonV,
    updates: bool,
    conversation: Seq<char>,
    snapshot: i64,
    old: Option<CursorV>,
    found: Seq<Seq<Seq<char>>>,
    s: Seq<Filed>,
    n: int,
    c: CursorV,
)
    requires
        crate::query::query_clauses(p, updates, conversation, snapshot, old, found) is Ok,
        lists(
            a,
            crate::query::query_clauses(p, updates, conversation, snapshot, old, found)->Ok_0,
            order_of(p, updates),
            s,
        ),
        0 < n <= s.len(),
        behind(c, updates, s[n - 1]),
    ensures
        crate::query::query_clauses(p, updates, conversation, snapshot, Some(c), found) is Ok,
        lists(
            a,
            crate::query::query_clauses(p, updates, conversation, snapshot, Some(c), found)->Ok_0,
            order_of(p, updates),
            s.skip(n),
        ),
{
    let order = order_of(p, updates);
    let base = lasting_clauses(p, updates, conversation, snapshot, found);
    let was = crate::query::position_clauses(p, updates, old);
    let now = crate::query::position_clauses(p, updates, Some(c));
    lemma_clauses_split(p, updates, conversation, snapshot, old, found);
    lemma_clauses_split(p, updates, conversation, snapshot, Some(c), found);
    let last = s[n - 1];
    let rest = s.skip(n);
    assert forall|i: int| 0 <= i < rest.len() implies a.messages.contains(#[trigger] rest[i])
        && fits(a, base + now, rest[i]) by {
        assert(rest[i] == s[n + i]);
        lemma_fits_split(a, base, was, s[n + i]);
        lemma_position_is_order(a, p, updates, c, last, s[n + i]);
        lemma_fits_split(a, base, now, s[n + i]);
    }
    assert forall|i: int| 0 <= i < a.messages.len() && fits(
        a,
        base + now,
        #[trigger] a.messages[i],
    ) implies rest.contains(a.messages[i]) by {
        let m = a.messages[i];
        lemma_fits_split(a, base, now, m);
        lemma_position_is_order(a, p, updates, c, last, m);
        lemma_fits_split(a, base, was, last);
        lemma_still_behind(a, p, updates, old, last, m);
        lemma_fits_split(a, base, was, m);
        assert(s.contains(m));
        let k = choose|k: int| 0 <= k < s.len() && s[k] == m;
        if k < n - 1 {
            lemma_stands_before_is_asymmetric(order, s[k], s[n - 1]);
        } else if k == n - 1 {
            lemma_stands_before_is_asymmetric(order, last, m);
        }
        assert(rest[k - n] == m);
    }
}

proof fn lemma_still_behind(
    a: Archive,
    p: JsonV,
    updates: bool,
    old: Option<CursorV>,
    last: Filed,
    m: Filed,
)
    requires
        fits(a, crate::query::position_clauses(p, updates, old), last),
        stands_before(order_of(p, updates), last, m),
    ensures
        fits(a, crate::query::position_clauses(p, updates, old), m),
{
    let d = crate::query::position_clauses(p, updates, old);
    if d.len() > 0 {
        assert(admits(a, d[0], last));
        match old {
            Some(c) => {
                let place = Filed { seq: c.time, time: c.time, id: c.id, ..last };
                lemma_position_is_order(a, p, updates, c, place, last);
                lemma_stands_before_is_transitive(order_of(p, updates), place, last, m);
                lemma_position_is_order(a, p, updates, c, place, m);
            },
            None => {
                assert(admits(a, d[0], m));
            },
        }
    }
}

/// Asking for updates again does not use them up, and none is missed: where a
/// list is what is new from some place on, and the archive then grows, whatever
/// is new in it from that place on is either in the list or shown behind the
/// list's last message, and not both.
pub proof fn law_updates_miss_nothing(
    a: Archive,
    b: Archive,
    p: JsonV,
    conversation: Seq<char>,
    old: Option<CursorV>,
    found: Seq<Seq<Seq<char>>>,
    s: Seq<Filed>,
    t: Seq<Filed>,
    c: CursorV,
    m: Filed,
)
    requires
        sound(a),
        grown(a, b),
        crate::query::query_clauses(p, true, conversation, i64::MAX, old, found) is Ok,
        lists(
            a,
            crate::query::query_clauses(p, true, conversation, i64::MAX, old, found)->Ok_0,
            Order::AsFiled,
            s,
        ),
        s.len() > 0,
        behind(c, true, s.last()),
        lists(
            b,
            crate::query::query_clauses(p, true, conversation, i64::MAX, Some(c), found)->Ok_0,
            Order::AsFiled,
            t,
        ),
        b.messages.contains(m),
        fits(
            b,
            crate::query::query_clauses(p, true, conversation, i64::MAX, old, found)->Ok_0,
            m,
        ),
    ensures
        s.contains(m) != t.contains(m),
{
    let base = lasting_clauses(p, true, conversation, i64::MAX, found);
    let was = crate::query::position_clauses(p, true, old);
    let now = crate::query::position_clauses(p, true, Some(c));
    lemma_clauses_split(p, true, conversation, i64::MAX, old, found);
    lemma_clauses_split(p, true, conversation, i64::MAX, Some(c), found);
    lemma_fits_split(b, base, was, m);
    lemma_fits_split(b, base, now, m);
    lemma_position_is_order(b, p, true, c, s.last(), m);
    assert(fits(a, base + was, m)) by {
        assert forall|i: int| 0 <= i < (base + was).len() implies admits(
            a,
            #[trigger] (base + was)[i],
            m,
        ) by {
            assert(admits(b, (base + was)[i], m));
        }
    }
    let at = choose|i: int| 0 <= i < b.messages.len() && b.messages[i] == m;
    if s.contains(m) {
        let k = choose|k: int| 0 <= k < s.len() && s[k] == m;
        if k < s.len() - 1 {
            assert(stands_before(Order::AsFiled, s[k], s[s.len() - 1]));
        }
        if t.contains(m) {
            let j = choose|j: int| 0 <= j < t.len() && t[j] == m;
            assert(fits(b, base + now, t[j]));
        }
    } else {
        if at < a.messages.len() {
            assert(b.messages.take(a.messages.len() as int)[at] == a.messages[at]);
            assert(fits(a, base + was, a.messages[at]));
            assert(s.contains(a.messages[at]));
        }
        let l = choose|l: int| 0 <= l < a.messages.len() && a.messages[l] == s[s.len() - 1];
        assert(a.messages.contains(s[s.len() - 1]));
        assert(a.messages[l].seq <= a.top);
        assert(fits(b, base + now, b.messages[at]));
        assert(t.contains(m));
    }
}

pub(crate) proof fn lemma_ordered_alike(order: Order, s: Seq<Filed>, t: Seq<Filed>)
    requires
        forall|i: int, k: int|
            0 <= i < k < s.len() ==> stands_before(order, #[trigger] s[i], #[trigger] s[k]),
        forall|i: int, k: int|
            0 <= i < k < t.len() ==> stands_before(order, #[trigger] t[i], #[trigger] t[k]),
        forall|m: Filed| s.contains(m) <==> #[trigger] t.contains(m),
    ensures
        s == t,
    decreases s.len(),
{
    if s.len() == 0 {
        if t.len() > 0 {
            assert(t.contains(t[0]));
        }
        assert(s =~= t);
    } else {
        assert(s.contains(s[0]));
        assert(t.contains(s[0]));
        let k = choose|k: int| 0 <= k < t.len() && t[k] == s[0];
        assert(t.contains(t[0]));
        let j = choose|j: int| 0 <= j < s.len() && s[j] == t[0];
        if k > 0 {
            assert(stands_before(order, t[0], t[k]));
            if j > 0 {
                assert(stands_before(order, s[0], s[j]));
            }
            lemma_stands_before_is_asymmetric(order, t[0], s[0]);
        }
        assert(s[0] == t[0]);
        assert forall|m: Filed| s.skip(1).contains(m) <==> #[trigger] t.skip(1).contains(m) by {
            lemma_rest_of_ordered(order, s, m);
            lemma_rest_of_ordered(order, t, m);
            assert(s.contains(m) <==> t.contains(m));
        }
        lemma_ordered_alike(order, s.skip(1), t.skip(1));
        assert(s =~= seq![s[0]] + s.skip(1));
        assert(t =~= seq![t[0]] + t.skip(1));
    }
}

proof fn lemma_rest_of_ordered(order: Order, s: Seq<Filed>, m: Filed)
    requires
        s.len() > 0,
        forall|i: int, k: int|
            0 <= i < k < s.len() ==> stands_before(order, #[trigger] s[i], #[trigger] s[k]),
    ensures
        s.skip(1).contains(m) <==> s.contains(m) && m != s[0],
{
    if s.skip(1).contains(m) {
        let i = choose|i: int| 0 <= i < s.skip(1).len() && s.skip(1)[i] == m;
        assert(s[i + 1] == m);
        assert(stands_before(order, s[0], s[i + 1]));
        if m == s[0] {
            lemma_stands_before_is_asymmetric(order, m, m);
        }
    }
    if s.contains(m) && m != s[0] {
        let i = choose|i: int| 0 <= i < s.len() && s[i] == m;
        assert(s.skip(1)[i - 1] == m);
    }
}

pub(crate) proof fn lemma_lists_alike(
    a: Archive,
    clauses: Seq<ClauseV>,
    order: Order,
    s: Seq<Filed>,
    t: Seq<Filed>,
)
    requires
        lists(a, clauses, order, s),
        lists(a, clauses, order, t),
    ensures
        s == t,
{
    assert forall|m: Filed| s.contains(m) <==> #[trigger] t.contains(m) by {
        if s.contains(m) {
            let i = choose|i: int| 0 <= i < s.len() && s[i] == m;
            let k = choose|k: int| 0 <= k < a.messages.len() && a.messages[k] == s[i];
            assert(a.messages.contains(s[i]));
            assert(fits(a, clauses, a.messages[k]));
        }
        if t.contains(m) {
            let i = choose|i: int| 0 <= i < t.len() && t[i] == m;
            let k = choose|k: int| 0 <= k < a.messages.len() && a.messages[k] == t[i];
            assert(a.messages.contains(t[i]));
            assert(fits(a, clauses, a.messages[k]));
        }
    }
    lemma_ordered_alike(order, s, t);
}

/// Asking the same again of the same archive is answered the same: a query has
/// one true answer. As queries change nothing, a page that was lost on the way
/// can be asked for again.
pub proof fn law_same_question_same_answer(a: Archive, q: MessageQueryV, x: AnswerV, y: AnswerV)
    requires
        tells(a, StatementV::Messages(q), x),
        tells(a, StatementV::Messages(q), y),
    ensures
        x == y,
{
    let s = choose|all: Seq<Filed>| #[trigger]
        lists(a, q.clauses, q.order, all) && x->Messages_0 == first_of(
            rows_of(all),
            q.limit as int,
        );
    let t = choose|all: Seq<Filed>| #[trigger]
        lists(a, q.clauses, q.order, all) && y->Messages_0 == first_of(
            rows_of(all),
            q.limit as int,
        );
    lemma_lists_alike(a, q.clauses, q.order, s, t);
}

/// A page shows the first messages of the whole list, as many as it may hold,
/// each as it was stored, and says whether there are more.
pub proof fn law_page_shows_the_first(
    a: Archive,
    index: IndexV,
    p: JsonV,
    updates: bool,
    conversation: Seq<char>,
    generation: i64,
    newest: i64,
    found: Seq<Seq<Seq<char>>>,
    all: Seq<Filed>,
    rows: Seq<MessageRowV>,
    later: i64,
)
    requires
        crate::index::query_planned(
            index,
            p,
            updates,
            conversation,
            "ready"@,
            generation,
            newest,
            found,
        ) is Ask,
        ({
            let plan = crate::index::query_planned(
                index,
                p,
                updates,
                conversation,
                "ready"@,
                generation,
                newest,
                found,
            );
            let q = plan->script[0]->Messages_0;
            &&& lists(a, q.clauses, q.order, all)
            &&& tells(a, plan->script[0], AnswerV::Messages(rows))
        }),
    ensures
        ({
            let plan = crate::index::query_planned(
                index,
                p,
                updates,
                conversation,
                "ready"@,
                generation,
                newest,
                found,
            );
            let page = crate::index::index_step(
                index,
                plan->next,
                seq![AnswerV::Messages(rows), AnswerV::Number(later)],
            );
            let limit = crate::query::query_limit(p);
            match crate::query::parsed_items(
                crate::query::data_of(rows_of(first_of(all, limit))),
            ) {
                Err(e) => page == crate::index::refused(e),
                Ok(items) => page matches StepV::Done(Ok(answer)) && answer.at("items"@)
                    == JsonV::Arr(items) && answer.at("has_more"@) == JsonV::Bool(
                    all.len() > limit,
                ),
            }
        }),
{
    let plan = crate::index::query_planned(
        index,
        p,
        updates,
        conversation,
        "ready"@,
        generation,
        newest,
        found,
    );
    let q = plan->script[0]->Messages_0;
    let limit = crate::query::query_limit(p);
    assert(q.limit == limit + 1);
    let truth = choose|s: Seq<Filed>| #[trigger]
        lists(a, q.clauses, q.order, s) && rows == first_of(rows_of(s), q.limit as int);
    lemma_lists_alike(a, q.clauses, q.order, truth, all);
    assert(crate::query::shown(rows, limit) =~= rows_of(first_of(all, limit)));
    assert((rows.len() > limit) == (all.len() > limit));
    assert((plan->next)->Rows_limit == limit);
    let told = seq![AnswerV::Messages(rows), AnswerV::Number(later)];
    assert(told[0] == AnswerV::Messages(rows) && told[1] == AnswerV::Number(later));
    let page = crate::index::index_step(index, plan->next, told);
    reveal_strlit("items");
    reveal_strlit("has_more");
    reveal_with_fuel(crate::json::member, 3);
    assert("items"@.len() != "has_more"@.len());
}

/// A page shows messages of the one conversation that was asked for, and no
/// more of them than the page may hold, which is never more than 500.
pub proof fn law_page_is_confined(
    a: Archive,
    p: JsonV,
    updates: bool,
    conversation: Seq<char>,
    snapshot: i64,
    old: Option<CursorV>,
    found: Seq<Seq<Seq<char>>>,
    s: Seq<Filed>,
)
    requires
        crate::query::query_clauses(p, updates, conversation, snapshot, old, found) is Ok,
        lists(
            a,
            crate::query::query_clauses(p, updates, conversation, snapshot, old, found)->Ok_0,
            order_of(p, updates),
            s,
        ),
    ensures
        forall|i: int| 0 <= i < s.len() ==> (#[trigger] s[i]).conversation == conversation,
        crate::query::shown(rows_of(s), crate::query::query_limit(p)).len() <= 500,
{
    lemma_snapshot_is_a_condition(p, updates, conversation, snapshot, old, found);
    let clauses = crate::query::query_clauses(
        p,
        updates,
        conversation,
        snapshot,
        old,
        found,
    )->Ok_0;
    assert forall|i: int| 0 <= i < s.len() implies (#[trigger] s[i]).conversation
        == conversation by {
        assert(fits(a, clauses, s[i]));
        assert(admits(a, clauses[0], s[i]));
    }
}

proof fn lemma_fits_one(a: Archive, c: ClauseV, m: Filed)
    ensures
        fits(a, seq![c], m) <==> admits(a, c, m),
{
    assert(seq![c][0] == c);
}

/// Filters combine: a message meets the conditions of a request exactly when
/// it is of the conversation, was filed in time, was written in the range of
/// time, by one of the members, is of one of the types, and is found by the
/// keyword, as far as the request says so.
pub proof fn law_filters_combine(
    a: Archive,
    p: JsonV,
    conversation: Seq<char>,
    snapshot: i64,
    found: Seq<Seq<Seq<char>>>,
    m: Filed,
)
    requires
        crate::query::query_clauses(p, false, conversation, snapshot, None, found) is Ok,
    ensures
        fits(
            a,
            crate::query::query_clauses(p, false, conversation, snapshot, None, found)->Ok_0,
            m,
        ) <==> {
            &&& m.conversation == conversation
            &&& m.seq <= snapshot
            &&& crate::query::instant_at(p, "start"@) matches Some(Some(t)) ==> m.time >= t.0
            &&& crate::query::instant_at(p, "end"@) matches Some(Some(t)) ==> m.time < t.0
            &&& p.at("members"@).as_items() matches Some(list) ==> list.len() == 0
                || crate::query::member_ids(crate::query::leading_texts(list), found)->Ok_0.contains(
                m.member,
            )
            &&& p.at("types"@).as_items() matches Some(list) ==> list.len() == 0
                || crate::query::leading_texts(list).contains(m.kind)
            &&& crate::search::trimmed(p.text_at("keyword"@)).len() > 0 ==> (a.finds)(
                crate::search::full_text_query(p.text_at("keyword"@)),
                m.tokens,
            )
        },
{
    let times = crate::query::time_clauses(p)->Ok_0;
    let members = crate::query::member_clauses(p, found)->Ok_0;
    let types = crate::query::type_clauses(p)->Ok_0;
    let keyword = crate::query::keyword_clauses(p);
    let first = seq![ClauseV::Conversation(conversation), ClauseV::UpTo(snapshot)];
    let none = crate::query::position_clauses(p, false, None);
    lemma_fits_split(a, first + times + members + types + keyword, none, m);
    lemma_fits_split(a, first + times + members + types, keyword, m);
    lemma_fits_split(a, first + times + members, types, m);
    lemma_fits_split(a, first + times, members, m);
    lemma_fits_split(a, first, times, m);
    assert(first =~= seq![ClauseV::Conversation(conversation)] + seq![ClauseV::UpTo(snapshot)]);
    lemma_fits_split(
        a,
        seq![ClauseV::Conversation(conversation)],
        seq![ClauseV::UpTo(snapshot)],
        m,
    );
    lemma_fits_one(a, ClauseV::Conversation(conversation), m);
    lemma_fits_one(a, ClauseV::UpTo(snapshot), m);
    lemma_times_fit(a, p, m);
    if members.len() > 0 {
        assert(members =~= seq![members[0]]);
        lemma_fits_one(a, members[0], m);
    }
    if types.len() > 0 {
        assert(types =~= seq![types[0]]);
        lemma_fits_one(a, types[0], m);
    }
    if keyword.len() > 0 {
        lemma_fits_one(a, keyword[0], m);
    }
}

proof fn lemma_times_fit(a: Archive, p: JsonV, m: Filed)
    requires
        crate::query::time_clauses(p) is Ok,
    ensures
        fits(a, crate::query::time_clauses(p)->Ok_0, m) <==> {
            &&& crate::query::instant_at(p, "start"@) matches Some(Some(t)) ==> m.time >= t.0
            &&& crate::query::instant_at(p, "end"@) matches Some(Some(t)) ==> m.time < t.0
        },
{
    let times = crate::query::time_clauses(p)->Ok_0;
    if times.len() == 1 {
        assert(times =~= seq![times[0]]);
        lemma_fits_one(a, times[0], m);
    } else if times.len() == 2 {
        assert(times =~= seq![times[0]] + seq![times[1]]);
        lemma_fits_split(a, seq![times[0]], seq![times[1]], m);
        lemma_fits_one(a, times[0], m);
        lemma_fits_one(a, times[1], m);
    }
}

// ------------------------------------------------------------------ members

/// Pages of members neither repeat nor leave out a member: behind any member
/// of a list comes exactly the rest of the list.
pub proof fn law_next_member_page_goes_on(
    a: Archive,
    conversation: Seq<char>,
    after: Seq<char>,
    snapshot: i64,
    query: Seq<char>,
    s: Seq<Seq<char>>,
    n: int,
)
    requires
        lists_members(a, conversation, after, snapshot, query, s),
        0 < n <= s.len(),
    ensures
        lists_members(a, conversation, s[n - 1], snapshot, query, s.skip(n)),
{
    let rest = s.skip(n);
    let last = s[n - 1];
    assert forall|i: int| 0 <= i < rest.len() implies crate::text::text_lt(
        last,
        #[trigger] rest[i],
    ) && is_member(a, conversation, snapshot, query, rest[i]) by {
        assert(rest[i] == s[n + i]);
        assert(crate::text::text_lt(s[n - 1], s[n + i]));
    }
    assert forall|id: Seq<char>|
        crate::text::text_lt(last, id) && is_member(
            a,
            conversation,
            snapshot,
            query,
            id,
        ) implies #[trigger] rest.contains(id) by {
        crate::text::lemma_text_lt_transitive(after, last, id);
        assert(s.contains(id));
        let k = choose|k: int| 0 <= k < s.len() && s[k] == id;
        if k < n - 1 {
            crate::text::lemma_text_lt_transitive(s[k], last, s[k]);
        }
        crate::text::lemma_text_lt_irreflexive(id);
        assert(rest[k - n] == id);
    }
    assert forall|i: int, k: int| 0 <= i < k < rest.len() implies crate::text::text_lt(
        #[trigger] rest[i],
        #[trigger] rest[k],
    ) by {
        assert(rest[i] == s[n + i] && rest[k] == s[n + k]);
    }
}

/// The pages of members are stable: members that are noted after the first page
/// was read change none of them.
pub proof fn law_member_pages_are_stable(
    a: Archive,
    b: Archive,
    conversation: Seq<char>,
    after: Seq<char>,
    snapshot: i64,
    query: Seq<char>,
    s: Seq<Seq<char>>,
)
    requires
        b.members.len() >= a.members.len(),
        b.members.take(a.members.len() as int) == a.members,
        forall|i: int|
            a.members.len() <= i < b.members.len() ==> (#[trigger] b.members[i]).rowid > snapshot,
    ensures
        lists_members(a, conversation, after, snapshot, query, s) <==> lists_members(
            b,
            conversation,
            after,
            snapshot,
            query,
            s,
        ),
{
    assert forall|i: int| 0 <= i < a.members.len() implies a.members[i]
        == #[trigger] b.members[i] by {
        assert(b.members.take(a.members.len() as int)[i] == b.members[i]);
    }
    assert forall|id: Seq<char>|
        is_member(a, conversation, snapshot, query, id) == is_member(
            b,
            conversation,
            snapshot,
            query,
            id,
        ) by {
        if is_member(a, conversation, snapshot, query, id) {
            let i = choose|i: int|
                0 <= i < a.members.len() && (#[trigger] a.members[i]).conversation == conversation
                    && a.members[i].id == id && a.members[i].rowid <= snapshot && (
                crate::text::occurs(a.members[i].name, query) || crate::text::occurs(id, query));
            assert(b.members[i] == a.members[i]);
        }
        if is_member(b, conversation, snapshot, query, id) {
            let i = choose|i: int|
                0 <= i < b.members.len() && (#[trigger] b.members[i]).conversation == conversation
                    && b.members[i].id == id && b.members[i].rowid <= snapshot && (
                crate::text::occurs(b.members[i].name, query) || crate::text::occurs(id, query));
            assert(a.members[i] == b.members[i]);
        }
    }
}

/// Noting a member adds it behind every member that is known, so that the
/// pages that are being read stay as they are.
pub proof fn law_noting_adds_above(
    a: Archive,
    conversation: Seq<char>,
    id: Seq<char>,
    name: Seq<char>,
    snapshot: i64,
)
    requires
        snapshot <= newest_member(a.members) < i64::MAX,
    ensures
        ({
            let b = noted(a, conversation, id, name);
            &&& b.members.len() >= a.members.len()
            &&& b.members.take(a.members.len() as int) == a.members
            &&& forall|i: int|
                a.members.len() <= i < b.members.len() ==> (#[trigger] b.members[i]).rowid
                    > snapshot
            &&& is_known(b, conversation, id, name)
        }),
{
    let b = noted(a, conversation, id, name);
    lemma_newest_member_is_no_debt(a.members);
    assert(b.members.take(a.members.len() as int) =~= a.members);
    if !is_known(a, conversation, id, name) {
        assert(b.members[a.members.len() as int].name == name);
    }
}

proof fn lemma_newest_member_is_no_debt(members: Seq<Known>)
    ensures
        newest_member(members) >= 0,
    decreases members.len(),
{
    if members.len() > 0 {
        lemma_newest_member_is_no_debt(members.drop_last());
    }
}

// -------------------------------------------------------------- permissions

proof fn lemma_revoked(a: Archive, id: Seq<char>, delete: bool)
    ensures
        ({
            let b = after(a, crate::index::revoke_script(id, delete));
            &&& b.generation == a.generation + 1
            &&& b.top == a.top
            &&& b.finds == a.finds
            &&& !delete ==> b.conversations == disabled(a.conversations, id) && b.messages
                == a.messages && b.members == a.members && b.positions == a.positions
            &&& delete ==> b.conversations == disabled(a.conversations, id).filter(
                |c: ConversationRowV| c.id != id,
            ) && b.messages == a.messages.filter(|m: Filed| m.conversation != id) && b.members
                == a.members.filter(|m: Known| m.conversation != id) && b.positions
                == a.positions.filter(|p: Position| p.conversation != id)
        }),
{
    let s0 = crate::sql::st1(Form::Disable, SqlV::Text(id));
    let s5 = crate::sql::st0(Form::BumpGeneration);
    assert(text_arg(seq![SqlV::Text(id)], 0) == id);
    if delete {
        let s1 = crate::sql::st1(Form::DeleteMessages, SqlV::Text(id));
        let s2 = crate::sql::st1(Form::DeleteMembers, SqlV::Text(id));
        let s3 = crate::sql::st1(Form::DeletePositions, SqlV::Text(id));
        let s4 = crate::sql::st1(Form::DeleteConversation, SqlV::Text(id));
        assert(crate::index::revoke_script(id, delete) =~= seq![s0, s1] + seq![s2, s3] + seq![
            s4,
            s5,
        ]);
        lemma_after_joined(a, seq![s0, s1] + seq![s2, s3], seq![s4, s5]);
        lemma_after_joined(a, seq![s0, s1], seq![s2, s3]);
        lemma_after_two(a, s0, s1);
        let b = effect(effect(a, s0), s1);
        lemma_after_two(b, s2, s3);
        let c = effect(effect(b, s2), s3);
        lemma_after_two(c, s4, s5);
        let d = effect(effect(c, s4), s5);
        assert(d.messages =~= a.messages.filter(|m: Filed| m.conversation != id));
        assert(d.members =~= a.members.filter(|m: Known| m.conversation != id));
        assert(d.positions =~= a.positions.filter(|p: Position| p.conversation != id));
        assert(d.conversations =~= disabled(a.conversations, id).filter(
            |c: ConversationRowV| c.id != id,
        ));
    } else {
        assert(crate::index::revoke_script(id, delete) =~= seq![s0, s5]);
        lemma_after_two(a, s0, s5);
    }
}

/// A conversation that was withdrawn is out of reach: no name leads to it, it
/// is not listed, and none of its messages has a home.
pub proof fn law_withdrawn_is_out_of_reach(
    a: Archive,
    id: Seq<char>,
    delete: bool,
    name: Seq<char>,
    answer: AnswerV,
)
    ensures
        ({
            let b = after(a, crate::index::revoke_script(id, delete));
            &&& !is_enabled(b, id)
            &&& tells(b, crate::sql::st1(Form::Resolve, SqlV::Text(name)), answer)
                ==> crate::index::resolved(answer->Texts_0) != Resolved::Ok(id)
            &&& tells(b, crate::index::list_query(name, false), answer) ==> forall|i: int|
                0 <= i < answer->Conversations_0.len() ==> (
                #[trigger] answer->Conversations_0[i]).id != id
            &&& tells(b, crate::sql::st1(Form::MessageHome, SqlV::Text(name)), answer)
                ==> !(answer->Home_0 matches Some((conversation, _)) && conversation == id)
        }),
{
    broadcast use vstd::seq_lib::group_filter_ensures;

    lemma_revoked(a, id, delete);
    let b = after(a, crate::index::revoke_script(id, delete));
    assert forall|i: int| 0 <= i < b.conversations.len() implies (
    #[trigger] b.conversations[i]).id != id || !b.conversations[i].enabled by {
        if delete {
            assert(b.conversations.contains(b.conversations[i]));
        }
    }
    let ids = answer->Texts_0;
    if tells(b, crate::sql::st1(Form::Resolve, SqlV::Text(name)), answer) && ids.len() == 1 {
        assert(is_enabled(b, ids[0]));
    }
    if tells(b, crate::index::list_query(name, false), answer) {
        let rows = answer->Conversations_0;
        assert forall|i: int| 0 <= i < rows.len() implies (#[trigger] rows[i]).id != id by {
            assert(b.conversations.contains(rows[i]));
            let k = choose|k: int| 0 <= k < b.conversations.len() && b.conversations[k] == rows[i];
            assert(b.conversations[k].enabled);
        }
    }
}

proof fn lemma_kept_was_there<T>(s: Seq<T>, keep: spec_fn(T) -> bool, x: T)
    requires
        s.filter(keep).contains(x),
    ensures
        s.contains(x),
        keep(x),
    decreases s.len(),
{
    reveal(Seq::filter);
    if s.len() > 0 {
        let front = s.drop_last().filter(keep);
        if !front.contains(x) {
            let i = choose|i: int| 0 <= i < s.filter(keep).len() && s.filter(keep)[i] == x;
            if i < front.len() {
                assert(front[i] == x);
            }
            assert(s[s.len() - 1] == x);
        } else {
            lemma_kept_was_there(s.drop_last(), keep, x);
            let i = choose|i: int| 0 <= i < s.drop_last().len() && s.drop_last()[i] == x;
            assert(s[i] == x);
        }
    }
}

/// Withdrawing a conversation with all that was filed of it leaves nothing of
/// it, and nothing else is lost.
pub proof fn law_deletion_is_complete(a: Archive, id: Seq<char>)
    ensures
        ({
            let b = after(a, crate::index::revoke_script(id, true));
            &&& !is_listed(b, id)
            &&& forall|m: Filed| #[trigger]
                b.messages.contains(m) <==> a.messages.contains(m) && m.conversation != id
            &&& forall|m: Known| #[trigger]
                b.members.contains(m) <==> a.members.contains(m) && m.conversation != id
            &&& forall|p: Position| #[trigger]
                b.positions.contains(p) <==> a.positions.contains(p) && p.conversation != id
        }),
{
    broadcast use vstd::seq_lib::group_filter_ensures;

    lemma_revoked(a, id, true);
    let b = after(a, crate::index::revoke_script(id, true));
    assert forall|i: int| 0 <= i < b.conversations.len() implies (
    #[trigger] b.conversations[i]).id != id by {
        assert(b.conversations.contains(b.conversations[i]));
    }
    let keep = |m: Filed| m.conversation != id;
    assert forall|m: Filed| #[trigger] b.messages.contains(m) implies a.messages.contains(m)
        && m.conversation != id by {
        lemma_kept_was_there(a.messages, keep, m);
    }
    assert forall|m: Filed| a.messages.contains(m) && m.conversation != id implies
        #[trigger] b.messages.contains(m) by {
        let i = choose|i: int| 0 <= i < a.messages.len() && a.messages[i] == m;
        assert(keep(a.messages[i]));
    }
    let keep = |m: Known| m.conversation != id;
    assert forall|m: Known| #[trigger] b.members.contains(m) implies a.members.contains(m)
        && m.conversation != id by {
        lemma_kept_was_there(a.members, keep, m);
    }
    assert forall|m: Known| a.members.contains(m) && m.conversation != id implies
        #[trigger] b.members.contains(m) by {
        let i = choose|i: int| 0 <= i < a.members.len() && a.members[i] == m;
        assert(keep(a.members[i]));
    }
    let keep = |p: Position| p.conversation != id;
    assert forall|p: Position| #[trigger] b.positions.contains(p) implies a.positions.contains(p)
        && p.conversation != id by {
        lemma_kept_was_there(a.positions, keep, p);
    }
    assert forall|p: Position| a.positions.contains(p) && p.conversation != id implies
        #[trigger] b.positions.contains(p) by {
        let i = choose|i: int| 0 <= i < a.positions.len() && a.positions[i] == p;
        assert(keep(a.positions[i]));
    }
}

/// Withdrawing a conversation without deleting it keeps every message, and how
/// far its import has come.
pub proof fn law_withdrawal_keeps_messages(a: Archive, id: Seq<char>)
    ensures
        after(a, crate::index::revoke_script(id, false)).messages == a.messages,
        after(a, crate::index::revoke_script(id, false)).members == a.members,
        after(a, crate::index::revoke_script(id, false)).positions == a.positions,
{
    lemma_revoked(a, id, false);
}

/// A message is shown, and has a home, exactly while its conversation is
/// enabled: what is told of it is its text, its conversation and its time, and
/// nothing otherwise.
pub proof fn law_message_is_shown_while_enabled(a: Archive, m: Filed, answer: AnswerV)
    requires
        sound(a),
        a.messages.contains(m),
    ensures
        tells(a, crate::sql::st1(Form::MessageData, SqlV::Text(m.id)), answer) <==> answer
            == AnswerV::MaybeText(
            if is_enabled(a, m.conversation) {
                Some(m.data)
            } else {
                None
            },
        ),
        tells(a, crate::sql::st1(Form::MessageHome, SqlV::Text(m.id)), answer) <==> answer
            == AnswerV::Home(
            if is_enabled(a, m.conversation) {
                Some((m.conversation, m.time))
            } else {
                None
            },
        ),
{
    assert(text_arg(seq![SqlV::Text(m.id)], 0) == m.id);
    assert forall|n: Filed| #[trigger] is_shown(a, m.id, n) implies n == m by {
        let i = choose|i: int| 0 <= i < a.messages.len() && a.messages[i] == m;
        let k = choose|k: int| 0 <= k < a.messages.len() && a.messages[k] == n;
        if i < k {
            assert(a.messages[i].id != a.messages[k].id);
        } else if k < i {
            assert(a.messages[k].id != a.messages[i].id);
        }
    }
    assert(is_shown(a, m.id, m) <==> is_enabled(a, m.conversation));
}

proof fn lemma_side_begins_with_the_message(
    a: Archive,
    m: Filed,
    count: i64,
    from: Seq<Filed>,
)
    requires
        sound(a),
        a.messages.contains(m),
        count > 0,
        lists_side(a, m.conversation, m.time, m.id, false, from),
    ensures
        from.len() > 0,
        from[0] == m,
        first_of(from, count as int).contains(m),
{
    crate::text::lemma_text_lt_irreflexive(m.id);
    let at = choose|i: int| 0 <= i < a.messages.len() && a.messages[i] == m;
    assert(!precedes(a.messages[at], m.time, m.id));
    assert(from.contains(m));
    let k = choose|k: int| 0 <= k < from.len() && from[k] == m;
    if k > 0 {
        assert(older(from[0], from[k]));
        assert(precedes(from[0], m.time, m.id));
    }
    assert(first_of(from, count as int)[0] == m);
}

/// The messages around a message hold the message itself, and no more than were
/// asked for on either side: what is told is the texts of the nearest messages of
/// its conversation before it, and of the nearest at or behind it, which is the
/// message itself and those after it.
pub proof fn law_context_is_the_window(a: Archive, m: Filed, count: i64, answer: AnswerV)
    requires
        sound(a),
        a.messages.contains(m),
        count > 0,
        tells(
            a,
            crate::sql::st4(
                Form::Context,
                SqlV::Text(m.conversation),
                SqlV::Int(m.time),
                SqlV::Text(m.id),
                SqlV::Int(count),
            ),
            answer,
        ),
    ensures
        answer matches AnswerV::Texts(data) && data.contains(m.data) && data.len() <= 2 * count
            && exists|before: Seq<Filed>, from: Seq<Filed>| #[trigger]
            lists_side(a, m.conversation, m.time, m.id, true, before) && #[trigger] lists_side(
                a,
                m.conversation,
                m.time,
                m.id,
                false,
                from,
            ) && from.len() > 0 && from[0] == m && data.to_multiset() == data_in(
                first_of(before, count as int),
            ).to_multiset().add(data_in(first_of(from, count as int)).to_multiset()),
{
    broadcast use vstd::seq_lib::group_to_multiset_ensures;

    let args = seq![
        SqlV::Text(m.conversation),
        SqlV::Int(m.time),
        SqlV::Text(m.id),
        SqlV::Int(count),
    ];
    assert(text_arg(args, 0) == m.conversation);
    assert(int_arg(args, 1) == m.time);
    assert(text_arg(args, 2) == m.id);
    assert(int_arg(args, 3) == count);
    let data = answer->Texts_0;
    let (before, from) = choose|before: Seq<Filed>, from: Seq<Filed>| #[trigger]
        lists_side(a, m.conversation, m.time, m.id, true, before) && #[trigger] lists_side(
            a,
            m.conversation,
            m.time,
            m.id,
            false,
            from,
        ) && data.to_multiset() == data_in(first_of(before, count as int)).to_multiset().add(
            data_in(first_of(from, count as int)).to_multiset(),
        );
    lemma_side_begins_with_the_message(a, m, count, from);
    let near = data_in(first_of(before, count as int));
    let rest = data_in(first_of(from, count as int));
    assert(rest[0] == m.data);
    assert(rest.contains(m.data));
    assert(rest.to_multiset().count(m.data) > 0);
    assert(data.to_multiset().count(m.data) > 0);
    assert(data.to_multiset().len() == near.to_multiset().len() + rest.to_multiset().len());
}

proof fn lemma_ids_alike(s: Seq<Seq<char>>, t: Seq<Seq<char>>, holds: spec_fn(Seq<char>) -> bool)
    requires
        lists_ids(s, holds),
        lists_ids(t, holds),
    ensures
        s.len() == 0 ==> t.len() == 0,
        s.len() == 1 ==> t == s,
{
    if t.len() > 0 {
        assert(holds(t[0]));
        assert(s.contains(t[0]));
    }
    if s.len() == 1 {
        assert(holds(s[0]));
        assert(t.contains(s[0]));
        if t.len() > 1 {
            assert(holds(t[1]));
            assert(s.contains(t[1]));
            assert(crate::text::text_lt(t[0], t[1]));
            crate::text::lemma_text_lt_irreflexive(t[0]);
        }
        assert(t =~= s);
    }
}

/// A name stands for a conversation exactly where that conversation is the only
/// enabled one that answers to it. A name that none answers to is refused, and
/// one that several answer to is refused with the first of them.
pub proof fn law_names_resolve(a: Archive, name: Seq<char>, all: Seq<Seq<char>>, answer: AnswerV)
    requires
        lists_ids(all, called(a, name)),
        tells(a, crate::sql::st1(Form::Resolve, SqlV::Text(name)), answer),
    ensures
        all.len() == 1 ==> crate::index::resolved(answer->Texts_0) == Resolved::Ok(all[0]),
        all.len() == 0 ==> crate::index::resolved(answer->Texts_0) == Resolved::Err(
            "conversation_unavailable"@,
        ),
        all.len() > 1 ==> crate::index::resolved(answer->Texts_0) is Err,
{
    assert(text_arg(seq![SqlV::Text(name)], 0) == name);
    let ids = answer->Texts_0;
    let truth = choose|s: Seq<Seq<char>>| #[trigger]
        lists_ids(s, called(a, name)) && ids == first_of(s, 21);
    lemma_ids_alike(all, truth, called(a, name));
    lemma_ids_alike(truth, all, called(a, name));
}

/// Allowing a conversation enables it under the name given, new or not, and
/// counts as a change of permissions.
pub proof fn law_allowed_is_enabled(a: Archive, id: Seq<char>, name: Seq<char>)
    ensures
        ({
            let b = after(a, crate::index::grant_script(id, name));
            &&& is_enabled(b, id)
            &&& b.generation == a.generation + 1
            &&& b.messages == a.messages
            &&& forall|i: int|
                0 <= i < b.conversations.len() && (#[trigger] b.conversations[i]).id == id
                    ==> b.conversations[i].name == name && b.conversations[i].enabled
        }),
{
    let s = crate::sql::st2(Form::Grant, SqlV::Text(id), SqlV::Text(name));
    let t = crate::sql::st0(Form::BumpGeneration);
    assert(crate::index::grant_script(id, name) =~= seq![s, t]);
    lemma_after_two(a, s, t);
    let b = effect(effect(a, s), t);
    if is_listed(a, id) {
        let i = choose|i: int|
            0 <= i < a.conversations.len() && (#[trigger] a.conversations[i]).id == id;
        assert(b.conversations[i].id == id && b.conversations[i].enabled);
    } else {
        let i = a.conversations.len() as int;
        assert(b.conversations[i].id == id && b.conversations[i].enabled);
        assert forall|k: int| 0 <= k < i implies (#[trigger] b.conversations[k]).id != id by {
            assert(b.conversations[k] == a.conversations[k]);
        }
    }
}

/// Every change of permissions ends the cursors that are out: a cursor that was
/// accepted before is refused at any later generation.
pub proof fn law_permissions_end_cursors(
    index: IndexV,
    p: JsonV,
    scope: Seq<char>,
    generation: i64,
    later: i64,
)
    requires
        crate::index::presented(index, p, scope, generation) matches Ok(Some(_)),
        generation < later,
    ensures
        crate::index::presented(index, p, scope, later) == Presented::Err(
            "cursor_scope_changed"@,
        ),
{
    crate::cursor::law_cursor_is_bound(
        index.secret,
        index.account,
        scope,
        generation,
        index.account,
        scope,
        later,
        p.text_at("cursor"@),
    );
}

// ------------------------------------------------------------------ reading

/// Whether a step runs nothing but questions.
pub open spec fn only_asks(step: StepV) -> bool {
    step matches StepV::Ask { script, .. } ==> forall|i: int|
        0 <= i < script.len() ==> (#[trigger] script[i]).reads_only()
}

/// Listing, querying and paging change nothing: every statement they run, at
/// every stage and whatever it was told, is a question. Asking again therefore
/// finds what was found before.
pub proof fn law_queries_only_ask(
    index: IndexV,
    p: JsonV,
    q: Seq<char>,
    updates: bool,
    next: NextV,
    answers: Seq<AnswerV>,
)
    ensures
        only_asks(crate::index::query_begin(p, updates)),
        only_asks(crate::index::members_begin(p)),
        only_asks(crate::index::list_begin(q, updates)),
        only_asks(crate::index::index_step(index, next, answers)),
{
}

/// A question changes nothing in the archive.
pub proof fn law_questions_change_nothing(a: Archive, script: Seq<StatementV>)
    requires
        forall|i: int| 0 <= i < script.len() ==> (#[trigger] script[i]).reads_only(),
    ensures
        after(a, script) == a,
    decreases script.len(),
{
    if script.len() > 0 {
        assert forall|i: int| 0 <= i < script.drop_last().len() implies (
        #[trigger] script.drop_last()[i]).reads_only() by {
            assert(script[i].reads_only());
        }
        law_questions_change_nothing(a, script.drop_last());
        assert(script[script.len() - 1].reads_only());
    }
}

} // verus!

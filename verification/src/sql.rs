//! The statements that the archive's database is asked, and what it answers.
use vstd::prelude::*;

use crate::filter::{MessageQuery, MessageQueryV};

verus! {

/// The tables, indexes and triggers of the archive.
pub const SCHEMA: &'static str = "PRAGMA journal_mode=WAL; PRAGMA foreign_keys=ON; PRAGMA secure_delete=ON;
          CREATE TABLE IF NOT EXISTS settings(key TEXT PRIMARY KEY,value TEXT NOT NULL);
          CREATE TABLE IF NOT EXISTS conversations(id TEXT PRIMARY KEY,name TEXT NOT NULL,enabled INTEGER NOT NULL,state TEXT NOT NULL);
          CREATE TABLE IF NOT EXISTS messages(seq INTEGER PRIMARY KEY AUTOINCREMENT,id TEXT UNIQUE NOT NULL,conversation TEXT NOT NULL,member TEXT NOT NULL,time INTEGER NOT NULL,sort_seq INTEGER NOT NULL,type TEXT NOT NULL,body TEXT NOT NULL,fts_body TEXT NOT NULL,data TEXT NOT NULL);
          CREATE INDEX IF NOT EXISTS by_time ON messages(conversation,time,id);
          CREATE INDEX IF NOT EXISTS by_member ON messages(conversation,member,time,id);
          CREATE INDEX IF NOT EXISTS by_type ON messages(conversation,type,time,id);
          CREATE INDEX IF NOT EXISTS by_sort ON messages(conversation,sort_seq,id);
          CREATE TABLE IF NOT EXISTS members(conversation TEXT, id TEXT, name TEXT, PRIMARY KEY(conversation,id,name));
          CREATE TABLE IF NOT EXISTS import_positions(conversation TEXT,shard TEXT,position TEXT NOT NULL,done INTEGER NOT NULL DEFAULT 0,PRIMARY KEY(conversation,shard));
          CREATE VIRTUAL TABLE IF NOT EXISTS message_fts USING fts5(fts_body,content='messages',content_rowid='seq');
          CREATE TRIGGER IF NOT EXISTS messages_ai AFTER INSERT ON messages BEGIN INSERT INTO message_fts(rowid,fts_body) VALUES(new.seq,new.fts_body); END;
          CREATE TRIGGER IF NOT EXISTS messages_ad AFTER DELETE ON messages BEGIN INSERT INTO message_fts(message_fts,rowid,fts_body) VALUES('delete',old.seq,old.fts_body); END;
          INSERT OR IGNORE INTO settings VALUES('generation','0');
          INSERT OR IGNORE INTO settings VALUES('quota','5368709120');";

/// A value bound to a parameter of a statement.
pub enum SqlValue {
    Int(i64),
    Text(String),
}

/// The mathematical view of a bound value.
pub enum SqlV {
    Int(i64),
    Text(Seq<char>),
}

impl View for SqlValue {
    type V = SqlV;

    open spec fn view(&self) -> SqlV {
        match self {
            SqlValue::Int(n) => SqlV::Int(*n),
            SqlValue::Text(s) => SqlV::Text(s@),
        }
    }
}

/// The views of a list of bound values.
pub open spec fn values_view(v: Seq<SqlValue>) -> Seq<SqlV> {
    Seq::new(v.len(), |i: int| v[i]@)
}

/// A statement whose text is fixed.
#[derive(Clone, Copy, Debug, PartialEq, Eq, Structural)]
pub enum Form {
    /// Creates the tables, indexes and triggers that are missing.
    Schema,
    /// The account that the archive belongs to.
    StoredAccount,
    /// Notes the account, unless one is noted.
    KeepAccount,
    /// The secret that cursors are sealed with, in hexadecimal.
    CursorKey,
    /// Notes the secret that cursors are sealed with.
    StoreCursorKey,
    /// How often permissions have changed.
    Generation,
    /// Counts a change of permissions.
    BumpGeneration,
    /// Enables a conversation under a name.
    Grant,
    /// Disables a conversation.
    Disable,
    /// Deletes the messages of a conversation.
    DeleteMessages,
    /// Deletes the members of a conversation.
    DeleteMembers,
    /// Deletes how far the import of a conversation has come.
    DeletePositions,
    /// Deletes a conversation.
    DeleteConversation,
    /// The enabled conversations that answer to a name.
    Resolve,
    /// The enabled conversations.
    EnabledConversations,
    /// How far a conversation has been imported.
    State,
    /// The conversations that a text occurs in.
    List,
    /// Files a message, unless it is filed already.
    InsertMessage,
    /// Notes a member under the identifier alone.
    InsertMember,
    /// Notes a member under a name.
    InsertNamedMember,
    /// The number of the message that was filed last.
    NewestMessage,
    /// The members of a conversation that answer to a name.
    MemberIds,
    /// The number of the member that was noted last.
    NewestMember,
    /// The members of a conversation that a text occurs in, after a given one.
    MemberPage,
    /// The names under which a member was noted.
    MemberNames,
    /// The size above which the archive warns.
    Quota,
    /// Sets the size above which the archive warns.
    SetQuota,
    /// Whether imports count by row number already.
    Migrated,
    /// Restarts the imports that are not complete.
    RestartImports,
    /// Takes up again the conversations that had no usable index.
    ReopenIncompatible,
    /// Notes that imports count by row number.
    MarkMigrated,
    /// Takes up again the conversations that a column's type had stopped.
    RetryColumnErrors,
    /// Schedules the import of a conversation from a shard.
    InsertPosition,
    /// The place that an import goes on from.
    SavedPosition,
    /// The conversation and time of a message that may be shown.
    MessageHome,
    /// The messages around a message.
    Context,
    /// A message that may be shown.
    MessageData,
    /// One import that is not complete.
    PendingImport,
    /// Notes how far a conversation has been imported.
    SetState,
    /// Notes how far an import has come.
    SetPosition,
    /// Marks a conversation ready once all its imports are complete.
    MarkReady,
}

/// What a statement gives back.
#[derive(Clone, Copy, Debug, PartialEq, Eq, Structural)]
pub enum Shape {
    /// Nothing: the text holds several statements.
    Batch,
    /// The number of rows that it changed.
    Changed,
    /// One row of one text.
    Text,
    /// One row of one text, or none.
    MaybeText,
    /// One row of one number.
    Number,
    /// Rows of one text.
    Texts,
    /// Rows of a conversation's identifier, name, state and whether it is
    /// enabled.
    Conversations,
    /// Rows of a message's data, time, identifier and number.
    Messages,
    /// One row of a conversation and a time, or none.
    Home,
    /// One row of a conversation, a shard and a position, or none.
    Import,
}

impl Form {
    /// The text of the statement.
    pub open spec fn sql_text(self) -> Seq<char> {
        match self {
            Form::Schema => SCHEMA@,
            Form::StoredAccount => "SELECT value FROM settings WHERE key='account'"@,
            Form::KeepAccount => "INSERT OR IGNORE INTO settings VALUES('account',?1)"@,
            Form::CursorKey => "SELECT value FROM settings WHERE key='cursor_key'"@,
            Form::StoreCursorKey => "INSERT INTO settings VALUES('cursor_key',?1)"@,
            Form::Generation => "SELECT CAST(value AS INTEGER) FROM settings WHERE key='generation'"@,
            Form::BumpGeneration => "UPDATE settings SET value=CAST(value AS INTEGER)+1 WHERE key='generation'"@,
            Form::Grant => "INSERT INTO conversations VALUES(?1,?2,1,'indexing') ON CONFLICT(id) DO UPDATE SET enabled=1,name=excluded.name"@,
            Form::Disable => "UPDATE conversations SET enabled=0 WHERE id=?1"@,
            Form::DeleteMessages => "DELETE FROM messages WHERE conversation=?1"@,
            Form::DeleteMembers => "DELETE FROM members WHERE conversation=?1"@,
            Form::DeletePositions => "DELETE FROM import_positions WHERE conversation=?1"@,
            Form::DeleteConversation => "DELETE FROM conversations WHERE id=?1"@,
            Form::Resolve => "SELECT id FROM conversations WHERE enabled=1 AND (id=?1 OR name=?1) ORDER BY id LIMIT 21"@,
            Form::EnabledConversations => "SELECT id FROM conversations WHERE enabled=1 ORDER BY id"@,
            Form::State => "SELECT state FROM conversations WHERE id=?1"@,
            Form::List => "SELECT id,name,state,enabled FROM conversations WHERE (enabled=1 OR ?2) AND (instr(name,?1)>0 OR instr(id,?1)>0) ORDER BY name,id LIMIT 200"@,
            Form::InsertMessage => "INSERT OR IGNORE INTO messages(id,conversation,member,time,sort_seq,type,body,fts_body,data) VALUES(?1,?2,?3,?4,?5,?6,?7,?8,?9)"@,
            Form::InsertMember => "INSERT OR IGNORE INTO members VALUES(?1,?2,?2)"@,
            Form::InsertNamedMember => "INSERT OR IGNORE INTO members VALUES(?1,?2,?3)"@,
            Form::NewestMessage => "SELECT COALESCE(MAX(seq),0) FROM messages"@,
            Form::MemberIds => "SELECT DISTINCT id FROM members WHERE conversation=?1 AND (id=?2 OR name=?2) LIMIT 21"@,
            Form::NewestMember => "SELECT COALESCE(MAX(rowid),0) FROM members"@,
            Form::MemberPage => "SELECT id FROM members WHERE conversation=?1 AND id>?2 AND rowid<=?3 AND (instr(name,?4)>0 OR instr(id,?4)>0) GROUP BY id ORDER BY id LIMIT ?5"@,
            Form::MemberNames => "SELECT name FROM members WHERE conversation=?1 AND id=?2 AND rowid<=?3 ORDER BY name"@,
            Form::Quota => "SELECT CAST(value AS INTEGER) FROM settings WHERE key='quota'"@,
            Form::SetQuota => "UPDATE settings SET value=?1 WHERE key='quota'"@,
            Form::Migrated => "SELECT EXISTS(SELECT 1 FROM settings WHERE key='history_rowid_v1')"@,
            Form::RestartImports => "UPDATE import_positions SET position='-9223372036854775808',done=0 WHERE conversation IN (SELECT id FROM conversations WHERE state IN ('indexing','incompatible_message_index'))"@,
            Form::ReopenIncompatible => "UPDATE conversations SET state='indexing' WHERE state='incompatible_message_index'"@,
            Form::MarkMigrated => "INSERT INTO settings(key,value) VALUES('history_rowid_v1','1')"@,
            Form::RetryColumnErrors => "UPDATE conversations SET state='indexing' WHERE state LIKE 'history_column_type_error%'"@,
            Form::InsertPosition => "INSERT OR IGNORE INTO import_positions VALUES(?1,?2,?3,0)"@,
            Form::SavedPosition => "SELECT position FROM import_positions WHERE conversation=?1 AND shard=?2"@,
            Form::MessageHome => "SELECT m.conversation,m.time FROM messages m JOIN conversations c ON c.id=m.conversation AND c.enabled=1 WHERE m.id=?1"@,
            Form::Context => "SELECT data FROM (SELECT * FROM messages WHERE conversation=?1 AND (time,id)<(?2,?3) ORDER BY time DESC,id DESC LIMIT ?4) UNION ALL SELECT data FROM (SELECT * FROM messages WHERE conversation=?1 AND (time,id)>=(?2,?3) ORDER BY time,id LIMIT ?4)"@,
            Form::MessageData => "SELECT m.data FROM messages m JOIN conversations c ON c.id=m.conversation AND c.enabled=1 WHERE m.id=?1"@,
            Form::PendingImport => "SELECT p.conversation,p.shard,p.position FROM import_positions p JOIN conversations c ON c.id=p.conversation WHERE p.done=0 AND c.enabled=1 AND c.state='indexing' LIMIT 1"@,
            Form::SetState => "UPDATE conversations SET state=?2 WHERE id=?1"@,
            Form::SetPosition => "UPDATE import_positions SET position=?3,done=?4 WHERE conversation=?1 AND shard=?2"@,
            Form::MarkReady => "UPDATE conversations SET state='ready' WHERE id=?1 AND NOT EXISTS(SELECT 1 FROM import_positions WHERE conversation=?1 AND done=0)"@,
        }
    }

    /// The text of the statement.
    pub fn sql(self) -> (r: &'static str)
        ensures
            r@ == self.sql_text(),
    {
        match self {
            Form::Schema => SCHEMA,
            Form::StoredAccount => "SELECT value FROM settings WHERE key='account'",
            Form::KeepAccount => "INSERT OR IGNORE INTO settings VALUES('account',?1)",
            Form::CursorKey => "SELECT value FROM settings WHERE key='cursor_key'",
            Form::StoreCursorKey => "INSERT INTO settings VALUES('cursor_key',?1)",
            Form::Generation => "SELECT CAST(value AS INTEGER) FROM settings WHERE key='generation'",
            Form::BumpGeneration => "UPDATE settings SET value=CAST(value AS INTEGER)+1 WHERE key='generation'",
            Form::Grant => "INSERT INTO conversations VALUES(?1,?2,1,'indexing') ON CONFLICT(id) DO UPDATE SET enabled=1,name=excluded.name",
            Form::Disable => "UPDATE conversations SET enabled=0 WHERE id=?1",
            Form::DeleteMessages => "DELETE FROM messages WHERE conversation=?1",
            Form::DeleteMembers => "DELETE FROM members WHERE conversation=?1",
            Form::DeletePositions => "DELETE FROM import_positions WHERE conversation=?1",
            Form::DeleteConversation => "DELETE FROM conversations WHERE id=?1",
            Form::Resolve => "SELECT id FROM conversations WHERE enabled=1 AND (id=?1 OR name=?1) ORDER BY id LIMIT 21",
            Form::EnabledConversations => "SELECT id FROM conversations WHERE enabled=1 ORDER BY id",
            Form::State => "SELECT state FROM conversations WHERE id=?1",
            Form::List => "SELECT id,name,state,enabled FROM conversations WHERE (enabled=1 OR ?2) AND (instr(name,?1)>0 OR instr(id,?1)>0) ORDER BY name,id LIMIT 200",
            Form::InsertMessage => "INSERT OR IGNORE INTO messages(id,conversation,member,time,sort_seq,type,body,fts_body,data) VALUES(?1,?2,?3,?4,?5,?6,?7,?8,?9)",
            Form::InsertMember => "INSERT OR IGNORE INTO members VALUES(?1,?2,?2)",
            Form::InsertNamedMember => "INSERT OR IGNORE INTO members VALUES(?1,?2,?3)",
            Form::NewestMessage => "SELECT COALESCE(MAX(seq),0) FROM messages",
            Form::MemberIds => "SELECT DISTINCT id FROM members WHERE conversation=?1 AND (id=?2 OR name=?2) LIMIT 21",
            Form::NewestMember => "SELECT COALESCE(MAX(rowid),0) FROM members",
            Form::MemberPage => "SELECT id FROM members WHERE conversation=?1 AND id>?2 AND rowid<=?3 AND (instr(name,?4)>0 OR instr(id,?4)>0) GROUP BY id ORDER BY id LIMIT ?5",
            Form::MemberNames => "SELECT name FROM members WHERE conversation=?1 AND id=?2 AND rowid<=?3 ORDER BY name",
            Form::Quota => "SELECT CAST(value AS INTEGER) FROM settings WHERE key='quota'",
            Form::SetQuota => "UPDATE settings SET value=?1 WHERE key='quota'",
            Form::Migrated => "SELECT EXISTS(SELECT 1 FROM settings WHERE key='history_rowid_v1')",
            Form::RestartImports => "UPDATE import_positions SET position='-9223372036854775808',done=0 WHERE conversation IN (SELECT id FROM conversations WHERE state IN ('indexing','incompatible_message_index'))",
            Form::ReopenIncompatible => "UPDATE conversations SET state='indexing' WHERE state='incompatible_message_index'",
            Form::MarkMigrated => "INSERT INTO settings(key,value) VALUES('history_rowid_v1','1')",
            Form::RetryColumnErrors => "UPDATE conversations SET state='indexing' WHERE state LIKE 'history_column_type_error%'",
            Form::InsertPosition => "INSERT OR IGNORE INTO import_positions VALUES(?1,?2,?3,0)",
            Form::SavedPosition => "SELECT position FROM import_positions WHERE conversation=?1 AND shard=?2",
            Form::MessageHome => "SELECT m.conversation,m.time FROM messages m JOIN conversations c ON c.id=m.conversation AND c.enabled=1 WHERE m.id=?1",
            Form::Context => "SELECT data FROM (SELECT * FROM messages WHERE conversation=?1 AND (time,id)<(?2,?3) ORDER BY time DESC,id DESC LIMIT ?4) UNION ALL SELECT data FROM (SELECT * FROM messages WHERE conversation=?1 AND (time,id)>=(?2,?3) ORDER BY time,id LIMIT ?4)",
            Form::MessageData => "SELECT m.data FROM messages m JOIN conversations c ON c.id=m.conversation AND c.enabled=1 WHERE m.id=?1",
            Form::PendingImport => "SELECT p.conversation,p.shard,p.position FROM import_positions p JOIN conversations c ON c.id=p.conversation WHERE p.done=0 AND c.enabled=1 AND c.state='indexing' LIMIT 1",
            Form::SetState => "UPDATE conversations SET state=?2 WHERE id=?1",
            Form::SetPosition => "UPDATE import_positions SET position=?3,done=?4 WHERE conversation=?1 AND shard=?2",
            Form::MarkReady => "UPDATE conversations SET state='ready' WHERE id=?1 AND NOT EXISTS(SELECT 1 FROM import_positions WHERE conversation=?1 AND done=0)",
        }
    }

    /// What the statement gives back.
    pub open spec fn answers(self) -> Shape {
        match self {
            Form::Schema => Shape::Batch,
            Form::StoredAccount => Shape::MaybeText,
            Form::KeepAccount => Shape::Changed,
            Form::CursorKey => Shape::MaybeText,
            Form::StoreCursorKey => Shape::Changed,
            Form::Generation => Shape::Number,
            Form::BumpGeneration => Shape::Changed,
            Form::Grant => Shape::Changed,
            Form::Disable => Shape::Changed,
            Form::DeleteMessages => Shape::Changed,
            Form::DeleteMembers => Shape::Changed,
            Form::DeletePositions => Shape::Changed,
            Form::DeleteConversation => Shape::Changed,
            Form::Resolve => Shape::Texts,
            Form::EnabledConversations => Shape::Texts,
            Form::State => Shape::Text,
            Form::List => Shape::Conversations,
            Form::InsertMessage => Shape::Changed,
            Form::InsertMember => Shape::Changed,
            Form::InsertNamedMember => Shape::Changed,
            Form::NewestMessage => Shape::Number,
            Form::MemberIds => Shape::Texts,
            Form::NewestMember => Shape::Number,
            Form::MemberPage => Shape::Texts,
            Form::MemberNames => Shape::Texts,
            Form::Quota => Shape::Number,
            Form::SetQuota => Shape::Changed,
            Form::Migrated => Shape::Number,
            Form::RestartImports => Shape::Changed,
            Form::ReopenIncompatible => Shape::Changed,
            Form::MarkMigrated => Shape::Changed,
            Form::RetryColumnErrors => Shape::Changed,
            Form::InsertPosition => Shape::Changed,
            Form::SavedPosition => Shape::MaybeText,
            Form::MessageHome => Shape::Home,
            Form::Context => Shape::Texts,
            Form::MessageData => Shape::MaybeText,
            Form::PendingImport => Shape::Import,
            Form::SetState => Shape::Changed,
            Form::SetPosition => Shape::Changed,
            Form::MarkReady => Shape::Changed,
        }
    }

    /// What the statement gives back.
    pub fn shape(self) -> (r: Shape)
        ensures
            r == self.answers(),
    {
        match self {
            Form::Schema => Shape::Batch,
            Form::StoredAccount => Shape::MaybeText,
            Form::KeepAccount => Shape::Changed,
            Form::CursorKey => Shape::MaybeText,
            Form::StoreCursorKey => Shape::Changed,
            Form::Generation => Shape::Number,
            Form::BumpGeneration => Shape::Changed,
            Form::Grant => Shape::Changed,
            Form::Disable => Shape::Changed,
            Form::DeleteMessages => Shape::Changed,
            Form::DeleteMembers => Shape::Changed,
            Form::DeletePositions => Shape::Changed,
            Form::DeleteConversation => Shape::Changed,
            Form::Resolve => Shape::Texts,
            Form::EnabledConversations => Shape::Texts,
            Form::State => Shape::Text,
            Form::List => Shape::Conversations,
            Form::InsertMessage => Shape::Changed,
            Form::InsertMember => Shape::Changed,
            Form::InsertNamedMember => Shape::Changed,
            Form::NewestMessage => Shape::Number,
            Form::MemberIds => Shape::Texts,
            Form::NewestMember => Shape::Number,
            Form::MemberPage => Shape::Texts,
            Form::MemberNames => Shape::Texts,
            Form::Quota => Shape::Number,
            Form::SetQuota => Shape::Changed,
            Form::Migrated => Shape::Number,
            Form::RestartImports => Shape::Changed,
            Form::ReopenIncompatible => Shape::Changed,
            Form::MarkMigrated => Shape::Changed,
            Form::RetryColumnErrors => Shape::Changed,
            Form::InsertPosition => Shape::Changed,
            Form::SavedPosition => Shape::MaybeText,
            Form::MessageHome => Shape::Home,
            Form::Context => Shape::Texts,
            Form::MessageData => Shape::MaybeText,
            Form::PendingImport => Shape::Import,
            Form::SetState => Shape::Changed,
            Form::SetPosition => Shape::Changed,
            Form::MarkReady => Shape::Changed,
        }
    }

    /// Whether the statement leaves the archive as it is.
    pub open spec fn reads_only(self) -> bool {
        self.answers() != Shape::Batch && self.answers() != Shape::Changed
    }
}

/// One statement, with the values bound to its parameters.
pub enum Statement {
    Fixed { form: Form, args: Vec<SqlValue> },
    Messages(MessageQuery),
}

/// The mathematical view of a statement.
pub enum StatementV {
    Fixed { form: Form, args: Seq<SqlV> },
    Messages(MessageQueryV),
}

impl View for Statement {
    type V = StatementV;

    open spec fn view(&self) -> StatementV {
        match self {
            Statement::Fixed { form, args } => StatementV::Fixed {
                form: *form,
                args: values_view(args@),
            },
            Statement::Messages(q) => StatementV::Messages(q@),
        }
    }
}

/// The views of a list of statements.
pub open spec fn script_view(v: Seq<Statement>) -> Seq<StatementV> {
    Seq::new(v.len(), |i: int| v[i]@)
}

impl StatementV {
    /// The text of the statement.
    pub open spec fn sql_text(self) -> Seq<char> {
        match self {
            StatementV::Fixed { form, .. } => form.sql_text(),
            StatementV::Messages(q) => q.sql_text(),
        }
    }

    /// The values bound to its parameters, in order.
    pub open spec fn bound(self) -> Seq<SqlV> {
        match self {
            StatementV::Fixed { args, .. } => args,
            StatementV::Messages(q) => q.bound(),
        }
    }

    /// What the statement gives back.
    pub open spec fn answers(self) -> Shape {
        match self {
            StatementV::Fixed { form, .. } => form.answers(),
            StatementV::Messages(_) => Shape::Messages,
        }
    }

    /// Whether the statement leaves the archive as it is.
    pub open spec fn reads_only(self) -> bool {
        match self {
            StatementV::Fixed { form, .. } => form.reads_only(),
            StatementV::Messages(_) => true,
        }
    }
}

/// A statement without parameters.
pub open spec fn st0(form: Form) -> StatementV {
    StatementV::Fixed { form, args: Seq::empty() }
}

/// A statement with one parameter.
pub open spec fn st1(form: Form, a: SqlV) -> StatementV {
    StatementV::Fixed { form, args: seq![a] }
}

/// A statement with two parameters.
pub open spec fn st2(form: Form, a: SqlV, b: SqlV) -> StatementV {
    StatementV::Fixed { form, args: seq![a, b] }
}

/// A statement with three parameters.
pub open spec fn st3(form: Form, a: SqlV, b: SqlV, c: SqlV) -> StatementV {
    StatementV::Fixed { form, args: seq![a, b, c] }
}

/// A statement with four parameters.
pub open spec fn st4(form: Form, a: SqlV, b: SqlV, c: SqlV, d: SqlV) -> StatementV {
    StatementV::Fixed { form, args: seq![a, b, c, d] }
}

/// A statement with any number of parameters.
pub open spec fn st(form: Form, args: Seq<SqlV>) -> StatementV {
    StatementV::Fixed { form, args }
}

/// Binds a text.
pub fn bind(s: &str) -> (r: SqlValue)
    ensures
        r@ == SqlV::Text(s@),
{
    SqlValue::Text(s.to_owned())
}

impl Statement {
    /// A statement without parameters.
    pub fn of0(form: Form) -> (r: Statement)
        ensures
            r@ == st0(form),
    {
        let args: Vec<SqlValue> = Vec::new();
        assert(values_view(args@) =~= Seq::empty());
        Statement::Fixed { form, args }
    }

    /// A statement with one parameter.
    pub fn of1(form: Form, a: SqlValue) -> (r: Statement)
        ensures
            r@ == st1(form, a@),
    {
        let args = vec![a];
        assert(values_view(args@) =~= seq![a@]);
        Statement::Fixed { form, args }
    }

    /// A statement with two parameters.
    pub fn of2(form: Form, a: SqlValue, b: SqlValue) -> (r: Statement)
        ensures
            r@ == st2(form, a@, b@),
    {
        let args = vec![a, b];
        assert(values_view(args@) =~= seq![a@, b@]);
        Statement::Fixed { form, args }
    }

    /// A statement with three parameters.
    pub fn of3(form: Form, a: SqlValue, b: SqlValue, c: SqlValue) -> (r: Statement)
        ensures
            r@ == st3(form, a@, b@, c@),
    {
        let args = vec![a, b, c];
        assert(values_view(args@) =~= seq![a@, b@, c@]);
        Statement::Fixed { form, args }
    }

    /// A statement with four parameters.
    pub fn of4(form: Form, a: SqlValue, b: SqlValue, c: SqlValue, d: SqlValue) -> (r: Statement)
        ensures
            r@ == st4(form, a@, b@, c@, d@),
    {
        let args = vec![a, b, c, d];
        assert(values_view(args@) =~= seq![a@, b@, c@, d@]);
        Statement::Fixed { form, args }
    }

    /// A statement with any number of parameters.
    pub fn of(form: Form, args: Vec<SqlValue>) -> (r: Statement)
        ensures
            r@ == st(form, values_view(args@)),
    {
        Statement::Fixed { form, args }
    }

    /// The text of the statement.
    pub fn sql(&self) -> (r: String)
        ensures
            r@ == self@.sql_text(),
    {
        match self {
            Statement::Fixed { form, .. } => form.sql().to_owned(),
            Statement::Messages(q) => q.sql(),
        }
    }

    /// The values bound to its parameters, in order.
    pub fn values(&self) -> (r: Vec<SqlValue>)
        ensures
            values_view(r@) == self@.bound(),
    {
        match self {
            Statement::Fixed { args, .. } => copy_values(args),
            Statement::Messages(q) => q.values(),
        }
    }

    /// What the statement gives back.
    pub fn shape(&self) -> (r: Shape)
        ensures
            r == self@.answers(),
    {
        match self {
            Statement::Fixed { form, .. } => form.shape(),
            Statement::Messages(_) => Shape::Messages,
        }
    }
}

/// Copies bound values.
pub fn copy_values(v: &Vec<SqlValue>) -> (r: Vec<SqlValue>)
    ensures
        values_view(r@) == values_view(v@),
{
    let mut out: Vec<SqlValue> = Vec::new();
    let mut i: usize = 0;
    while i < v.len()
        invariant
            i <= v@.len(),
            out@.len() == i,
            forall|k: int| 0 <= k < i ==> (#[trigger] out@[k])@ == v@[k]@,
        decreases v@.len() - i,
    {
        match &v[i] {
            SqlValue::Int(n) => out.push(SqlValue::Int(*n)),
            SqlValue::Text(s) => out.push(SqlValue::Text(s.clone())),
        }
        i = i + 1;
    }
    assert(values_view(out@) =~= values_view(v@));
    out
}

/// A conversation, as it is listed.
pub struct ConversationRow {
    pub id: String,
    pub name: String,
    pub state: String,
    pub enabled: bool,
}

/// The mathematical view of a listed conversation.
pub struct ConversationRowV {
    pub id: Seq<char>,
    pub name: Seq<char>,
    pub state: Seq<char>,
    pub enabled: bool,
}

impl View for ConversationRow {
    type V = ConversationRowV;

    open spec fn view(&self) -> ConversationRowV {
        ConversationRowV {
            id: self.id@,
            name: self.name@,
            state: self.state@,
            enabled: self.enabled,
        }
    }
}

/// A message, as it is found.
pub struct MessageRow {
    pub data: String,
    pub time: i64,
    pub id: String,
    pub seq: i64,
}

/// The mathematical view of a found message.
pub struct MessageRowV {
    pub data: Seq<char>,
    pub time: i64,
    pub id: Seq<char>,
    pub seq: i64,
}

impl View for MessageRow {
    type V = MessageRowV;

    open spec fn view(&self) -> MessageRowV {
        MessageRowV { data: self.data@, time: self.time, id: self.id@, seq: self.seq }
    }
}

/// The views of a list of messages.
pub open spec fn rows_view(v: Seq<MessageRow>) -> Seq<MessageRowV> {
    Seq::new(v.len(), |i: int| v[i]@)
}

/// The views of a list of conversations.
pub open spec fn conversations_view(v: Seq<ConversationRow>) -> Seq<ConversationRowV> {
    Seq::new(v.len(), |i: int| v[i]@)
}

/// What the database gave back for one statement.
pub enum Answer {
    Done,
    Changed(u64),
    Text(String),
    MaybeText(Option<String>),
    Number(i64),
    Texts(Vec<String>),
    Conversations(Vec<ConversationRow>),
    Messages(Vec<MessageRow>),
    Home(Option<(String, i64)>),
    Import(Option<(String, String, String)>),
}

/// The mathematical view of an answer.
pub enum AnswerV {
    Done,
    Changed(u64),
    Text(Seq<char>),
    MaybeText(Option<Seq<char>>),
    Number(i64),
    Texts(Seq<Seq<char>>),
    Conversations(Seq<ConversationRowV>),
    Messages(Seq<MessageRowV>),
    Home(Option<(Seq<char>, i64)>),
    Import(Option<(Seq<char>, Seq<char>, Seq<char>)>),
}

impl View for Answer {
    type V = AnswerV;

    open spec fn view(&self) -> AnswerV {
        match self {
            Answer::Done => AnswerV::Done,
            Answer::Changed(n) => AnswerV::Changed(*n),
            Answer::Text(s) => AnswerV::Text(s@),
            Answer::MaybeText(s) => AnswerV::MaybeText(
                match s {
                    Some(s) => Some(s@),
                    None => None,
                },
            ),
            Answer::Number(n) => AnswerV::Number(*n),
            Answer::Texts(v) => AnswerV::Texts(crate::text::texts_view(v@)),
            Answer::Conversations(v) => AnswerV::Conversations(conversations_view(v@)),
            Answer::Messages(v) => AnswerV::Messages(rows_view(v@)),
            Answer::Home(h) => AnswerV::Home(
                match h {
                    Some((c, t)) => Some((c@, *t)),
                    None => None,
                },
            ),
            Answer::Import(i) => AnswerV::Import(
                match i {
                    Some((c, s, p)) => Some((c@, s@, p@)),
                    None => None,
                },
            ),
        }
    }
}

/// The views of a list of answers.
pub open spec fn answers_view(v: Seq<Answer>) -> Seq<AnswerV> {
    Seq::new(v.len(), |i: int| v[i]@)
}

} // verus!

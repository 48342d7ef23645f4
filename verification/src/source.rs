//! Bounded reads of the source databases. Every read is a search of an index,
//! never a scan; a read whose plan says otherwise is refused.
use vstd::prelude::*;

use crate::content::Message;
use crate::sql::{bind, copy_values, SqlV, SqlValue};
use crate::text::{
    chars_of, concat, contains, copy_texts, ends_with, has_char, join, only_digits, starts_with, string_of,
};

verus! {

/// Where a message stands in its conversation. The local number keeps apart
/// messages that have not been sent, whose server number is zero.
#[derive(Debug, Clone, Copy, PartialEq, Eq, PartialOrd, Ord, Structural)]
pub struct MessagePosition {
    pub sort_seq: i64,
    pub create_time: i64,
    pub server_id: i64,
    pub local_id: i64,
}

impl Default for MessagePosition {
    fn default() -> (r: MessagePosition)
        ensures
            r == (MessagePosition { sort_seq: 0, create_time: 0, server_id: 0, local_id: 0 }),
    {
        MessagePosition { sort_seq: 0, create_time: 0, server_id: 0, local_id: 0 }
    }
}

/// A message, with the place where it was found.
pub struct SourceMessage {
    pub position: MessagePosition,
    pub shard_id: String,
    pub message: Message,
}

/// The mathematical view of a message with its place.
pub struct SourceMessageV {
    pub position: MessagePosition,
    pub shard_id: Seq<char>,
    pub message: Message,
}

impl View for SourceMessage {
    type V = SourceMessageV;

    open spec fn view(&self) -> SourceMessageV {
        SourceMessageV {
            position: self.position,
            shard_id: self.shard_id@,
            message: self.message,
        }
    }
}

/// The views of messages.
pub open spec fn messages_view(v: Seq<SourceMessage>) -> Seq<SourceMessageV> {
    Seq::new(v.len(), |i: int| v[i]@)
}

/// Why a read of the source is refused.
#[derive(Debug)]
pub enum DbFault {
    /// What was asked for does not exist.
    NotFound(String),
    /// The session database does not lie inside a data directory.
    NoShards,
    /// No index serves the read.
    NoRangeIndex(String),
}

/// The mathematical view of a refusal.
pub enum DbFaultV {
    NotFound(Seq<char>),
    NoShards,
    NoRangeIndex(Seq<char>),
}

impl View for DbFault {
    type V = DbFaultV;

    open spec fn view(&self) -> DbFaultV {
        match self {
            DbFault::NotFound(text) => DbFaultV::NotFound(text@),
            DbFault::NoShards => DbFaultV::NoShards,
            DbFault::NoRangeIndex(text) => DbFaultV::NoRangeIndex(text@),
        }
    }
}

/// The source databases of one account.
pub struct WechatDb {
    /// The file name of each message shard that was found when the source was
    /// opened; `None` for a path without a name that is text.
    pub shards: Vec<Option<String>>,
    /// Whether the session database lies inside a data directory, beside the
    /// message databases.
    pub has_data_dir: bool,
    /// Whether the data directory lies inside a directory of the account.
    pub has_account_dir: bool,
}

/// The mathematical view of the source databases.
pub struct WechatDbV {
    pub shards: Seq<Seq<char>>,
    pub has_data_dir: bool,
    pub has_account_dir: bool,
}

impl View for WechatDb {
    type V = WechatDbV;

    open spec fn view(&self) -> WechatDbV {
        WechatDbV {
            shards: present(self.shards@),
            has_data_dir: self.has_data_dir,
            has_account_dir: self.has_account_dir,
        }
    }
}

// --------------------------------------------------------- plans of queries

/// Whether one step of a plan is a search that an index serves.
pub open spec fn is_index_search(step: Seq<char>) -> bool {
    crate::text::occurs(step, "SEARCH"@) && (crate::text::occurs(step, "INDEX"@)
        || crate::text::occurs(step, "PRIMARY KEY"@))
}

/// Whether one step of a plan goes over a whole table or sorts.
pub open spec fn is_unbounded(step: Seq<char>) -> bool {
    crate::text::occurs(step, "SCAN "@) || crate::text::occurs(step, "TEMP B-TREE"@)
}

/// Whether a plan searches an index and does nothing unbounded.
pub open spec fn is_range_search(plan: Seq<Seq<char>>) -> bool {
    (exists|i: int| 0 <= i < plan.len() && is_index_search(#[trigger] plan[i])) && (forall|i: int|
        0 <= i < plan.len() ==> !is_unbounded(#[trigger] plan[i]))
}

/// Accepts the plan of a query where it is a search of an index, and not
/// merely a scan that an index covers.
pub fn require_range_search(plan: &Vec<String>) -> (r: Result<(), DbFault>)
    ensures
        match r {
            Ok(()) => is_range_search(crate::text::texts_view(plan@)),
            Err(DbFault::NoRangeIndex(text)) => !is_range_search(crate::text::texts_view(plan@))
                && text@ == "incompatible_source_index: bounded range index required"@,
            Err(_) => false,
        },
{
    let mut searched = false;
    let mut unbounded = false;
    let mut i: usize = 0;
    let ghost steps = crate::text::texts_view(plan@);
    while i < plan.len()
        invariant
            steps == crate::text::texts_view(plan@),
            i <= plan@.len(),
            searched == exists|k: int| 0 <= k < i && is_index_search(#[trigger] steps[k]),
            unbounded == exists|k: int| 0 <= k < i && is_unbounded(#[trigger] steps[k]),
        decreases plan@.len() - i,
    {
        let step = plan[i].as_str();
        assert(step@ == steps[i as int]);
        if contains(step, "SEARCH") && (contains(step, "INDEX") || contains(step, "PRIMARY KEY")) {
            assert(is_index_search(steps[i as int]));
            searched = true;
        }
        if contains(step, "SCAN ") || contains(step, "TEMP B-TREE") {
            assert(is_unbounded(steps[i as int]));
            unbounded = true;
        }
        i = i + 1;
    }
    if !searched || unbounded {
        Err(
            DbFault::NoRangeIndex(
                "incompatible_source_index: bounded range index required".to_owned(),
            ),
        )
    } else {
        Ok(())
    }
}

/// A read of the source that has yet to be approved: it can be explained, and
/// no more.
pub struct Search {
    sql: String,
    values: Vec<SqlValue>,
}

/// A read whose plan has been accepted.
pub struct Approved {
    sql: String,
    values: Vec<SqlValue>,
}

/// The mathematical view of either: the statement and the values bound to it.
pub struct SearchV {
    pub sql: Seq<char>,
    pub values: Seq<SqlV>,
}

impl View for Search {
    type V = SearchV;

    closed spec fn view(&self) -> SearchV {
        SearchV { sql: self.sql@, values: crate::sql::values_view(self.values@) }
    }
}

impl View for Approved {
    type V = SearchV;

    closed spec fn view(&self) -> SearchV {
        SearchV { sql: self.sql@, values: crate::sql::values_view(self.values@) }
    }
}

impl Search {
    /// The statement that asks for the plan of the read.
    pub fn explanation(&self) -> (r: String)
        ensures
            r@ == "EXPLAIN QUERY PLAN "@ + self@.sql,
    {
        concat("EXPLAIN QUERY PLAN ", self.sql.as_str())
    }

    /// The values bound to it.
    pub fn values(&self) -> (r: &Vec<SqlValue>)
        ensures
            crate::sql::values_view(r@) == self@.values,
    {
        &self.values
    }

    /// Accepts the read where its plan is a search of an index. There is no
    /// other way to a read that can be run.
    pub fn approve(self, plan: &Vec<String>) -> (r: Result<Approved, DbFault>)
        ensures
            match r {
                Ok(a) => is_range_search(crate::text::texts_view(plan@)) && a@ == self@,
                Err(DbFault::NoRangeIndex(text)) => !is_range_search(
                    crate::text::texts_view(plan@),
                ) && text@ == "incompatible_source_index: bounded range index required"@,
                Err(_) => false,
            },
    {
        match require_range_search(plan) {
            Ok(()) => Ok(Approved { sql: self.sql, values: self.values }),
            Err(f) => Err(f),
        }
    }
}

impl Approved {
    /// The statement.
    pub fn sql(&self) -> (r: &str)
        ensures
            r@ == self@.sql,
    {
        self.sql.as_str()
    }

    /// The values bound to it.
    pub fn values(&self) -> (r: &Vec<SqlValue>)
        ensures
            crate::sql::values_view(r@) == self@.values,
    {
        &self.values
    }
}

// ------------------------------------------------------------------ limits

/// The number of rows that a page may have: what was asked for, but at least
/// one and at most 512.
pub open spec fn page_cap(limit: usize) -> i64 {
    if limit < 1 {
        1
    } else if limit > 512 {
        512
    } else {
        limit as i64
    }
}

fn cap_of(limit: usize) -> (r: i64)
    ensures
        r == page_cap(limit),
{
    if limit < 1 {
        1
    } else if limit > 512 {
        512
    } else {
        limit as i64
    }
}

// ------------------------------------------------------------ shard names

/// Whether a name is a shard identifier that stays inside its directory.
pub open spec fn is_shard_id(s: Seq<char>) -> bool {
    &&& "message_"@.is_prefix_of(s)
    &&& crate::text::has_suffix(s, ".db"@)
    &&& !s.contains('/')
    &&& !s.contains('\\')
}

/// Whether a file name is that of a message shard: digits between the prefix
/// and the suffix.
pub open spec fn is_shard_file(s: Seq<char>) -> bool {
    exists|n: Seq<char>|
        n.len() > 0 && crate::text::all_digits(n) && s == #[trigger] ("message_"@ + n + ".db"@)
}

/// Whether a file name is that of a message shard.
pub fn is_shard_name(s: &str) -> (r: bool)
    ensures
        r == is_shard_file(s@),
{
    proof {
        reveal_strlit("message_");
        reveal_strlit(".db");
    }
    let v = chars_of(s);
    if v.len() < 12 || !starts_with(s, "message_") || !ends_with(s, ".db") {
        proof {
            if is_shard_file(s@) {
                let n = choose|n: Seq<char>|
                    n.len() > 0 && crate::text::all_digits(n) && s@ == #[trigger] ("message_"@ + n
                        + ".db"@);
                assert(s@.subrange(0, 8) =~= "message_"@);
                assert(s@.subrange(s@.len() - 3, s@.len() as int) =~= ".db"@);
                assert(crate::text::occurs_at(s@, ".db"@, s@.len() - 3));
            }
        }
        return false;
    }
    let middle = string_of(&v, 8, v.len() - 3);
    proof {
        assert(s@.subrange(s@.len() - 3, s@.len() - 3 + 3) =~= ".db"@);
        assert(s@ =~= "message_"@ + middle@ + ".db"@);
        if is_shard_file(s@) {
            let n = choose|n: Seq<char>|
                n.len() > 0 && crate::text::all_digits(n) && s@ == #[trigger] ("message_"@ + n
                    + ".db"@);
            assert(middle@ =~= n);
        }
    }
    only_digits(middle.as_str())
}

/// The file name of every shard that is taken up names it without leaving the
/// directory.
pub proof fn law_shard_file_is_shard_id(s: Seq<char>)
    requires
        is_shard_file(s),
    ensures
        is_shard_id(s),
{
    reveal_strlit("message_");
    reveal_strlit(".db");
    let n = choose|n: Seq<char>|
        n.len() > 0 && crate::text::all_digits(n) && s == #[trigger] ("message_"@ + n + ".db"@);
    assert(s.subrange(0, 8) =~= "message_"@);
    assert(s.subrange(s.len() - 3, s.len() - 3 + 3) =~= ".db"@);
    assert forall|i: int| 0 <= i < s.len() implies s[i] != '/' && s[i] != '\\' by {
        if 8 <= i < s.len() - 3 {
            assert(s[i] == n[i - 8]);
            assert(crate::text::is_digit(n[i - 8]));
        } else if i < 8 {
            assert(s[i] == "message_"@[i]);
        } else {
            assert(s[i] == ".db"@[i - (s.len() - 3)]);
        }
    }
}

// ------------------------------------------------------------ one page read

/// A bounded read of one conversation from one shard.
pub struct PageRead {
    pub shard: String,
    pub talker: String,
    pub after: MessagePosition,
    pub cap: i64,
    /// The row number to go on from, where the read goes by row numbers.
    pub history: Option<i64>,
    /// The snapshot that is read; the shard as it is now where there is none.
    pub snapshot: Option<usize>,
}

/// The mathematical view of a read.
pub struct PageReadV {
    pub shard: Seq<char>,
    pub talker: Seq<char>,
    pub after: MessagePosition,
    pub cap: i64,
    pub history: Option<i64>,
    pub snapshot: Option<usize>,
}

impl View for PageRead {
    type V = PageReadV;

    open spec fn view(&self) -> PageReadV {
        PageReadV {
            shard: self.shard@,
            talker: self.talker@,
            after: self.after,
            cap: self.cap,
            history: self.history,
            snapshot: self.snapshot,
        }
    }
}

/// One cell of a row: bytes, whether they are text or not, or anything else.
pub enum Cell {
    Bytes(Vec<u8>),
    Other,
}

/// One row of a page, as it was read.
pub struct PageRow {
    pub position: MessagePosition,
    pub local_type: i64,
    pub sender: String,
    pub content: Cell,
    pub packed: Cell,
    pub status: Option<i32>,
    pub content_type: Option<i64>,
    pub compressed: Cell,
    pub rowid: i64,
}

/// The mathematical view of a row, each cell by its bytes.
pub struct PageRowV {
    pub position: MessagePosition,
    pub local_type: i64,
    pub sender: Seq<char>,
    pub content: Seq<u8>,
    pub packed: Seq<u8>,
    pub status: Option<i32>,
    pub content_type: Option<i64>,
    pub compressed: Seq<u8>,
    pub rowid: i64,
}

/// The bytes of a cell, none where it holds something else.
pub open spec fn cell_bytes(c: Cell) -> Seq<u8> {
    match c {
        Cell::Bytes(b) => b@,
        Cell::Other => Seq::empty(),
    }
}

impl View for PageRow {
    type V = PageRowV;

    open spec fn view(&self) -> PageRowV {
        PageRowV {
            position: self.position,
            local_type: self.local_type,
            sender: self.sender@,
            content: cell_bytes(self.content),
            packed: cell_bytes(self.packed),
            status: self.status,
            content_type: self.content_type,
            compressed: cell_bytes(self.compressed),
            rowid: self.rowid,
        }
    }
}

/// What the decoder of messages is given for a row.
pub struct Encoded {
    pub position: MessagePosition,
    pub local_type: i64,
    pub sender: String,
    pub talker: String,
    pub content: Vec<u8>,
    pub packed: Option<Vec<u8>>,
    pub status: i32,
    pub content_type: Option<i64>,
    pub compressed: Option<Vec<u8>>,
    /// Whether the conversation is a group.
    pub group: bool,
}

/// The mathematical view of that.
pub struct EncodedV {
    pub position: MessagePosition,
    pub local_type: i64,
    pub sender: Seq<char>,
    pub talker: Seq<char>,
    pub content: Seq<u8>,
    pub packed: Option<Seq<u8>>,
    pub status: i32,
    pub content_type: Option<i64>,
    pub compressed: Option<Seq<u8>>,
    pub group: bool,
}

/// The view of bytes that may be missing.
pub open spec fn bytes_view(b: Option<Vec<u8>>) -> Option<Seq<u8>> {
    match b {
        Some(b) => Some(b@),
        None => None,
    }
}

impl View for Encoded {
    type V = EncodedV;

    open spec fn view(&self) -> EncodedV {
        EncodedV {
            position: self.position,
            local_type: self.local_type,
            sender: self.sender@,
            talker: self.talker@,
            content: self.content@,
            packed: bytes_view(self.packed),
            status: self.status,
            content_type: self.content_type,
            compressed: bytes_view(self.compressed),
            group: self.group,
        }
    }
}

/// Empty bytes count as missing.
pub open spec fn if_any(b: Seq<u8>) -> Option<Seq<u8>> {
    if b.len() > 0 {
        Some(b)
    } else {
        None
    }
}

/// What the decoder is given for a row of a conversation. Empty cells count as
/// missing, except the content, which is then empty; a missing status is zero.
pub open spec fn encoded(talker: Seq<char>, row: PageRowV) -> EncodedV {
    EncodedV {
        position: row.position,
        local_type: row.local_type,
        sender: row.sender,
        talker,
        content: row.content,
        packed: if_any(row.packed),
        status: match row.status {
            Some(s) => s,
            None => 0i32,
        },
        content_type: row.content_type,
        compressed: if_any(row.compressed),
        group: crate::text::has_suffix(talker, "@chatroom"@),
    }
}

fn bytes_of(c: Cell) -> (r: Vec<u8>)
    ensures
        r@ == cell_bytes(c),
{
    match c {
        Cell::Bytes(b) => b,
        Cell::Other => Vec::new(),
    }
}

fn bytes_if_any(c: Cell) -> (r: Option<Vec<u8>>)
    ensures
        bytes_view(r) == if_any(cell_bytes(c)),
{
    let b = bytes_of(c);
    if b.len() > 0 {
        Some(b)
    } else {
        None
    }
}

/// The text of a column, or `NULL` where the table lacks it.
pub open spec fn column_or_null(there: bool, column: Seq<char>) -> Seq<char> {
    if there {
        column
    } else {
        "NULL"@
    }
}

impl PageReadV {
    /// The condition and order of the read.
    pub open spec fn predicate(self) -> Seq<char> {
        if self.history is Some {
            "m.rowid>?1 ORDER BY m.rowid LIMIT ?2"@
        } else {
            "(m.sort_seq,m.create_time,m.server_id,m.local_id)>(?1,?2,?3,?4) ORDER BY m.sort_seq,m.create_time,m.server_id,m.local_id LIMIT ?5"@
        }
    }

    /// The statement that reads the page from the conversation's table.
    pub open spec fn sql_text(self, table: Seq<char>, ct: bool, compressed: bool) -> Seq<char> {
        "SELECT m.sort_seq,m.create_time,m.server_id,m.local_id,m.local_type,COALESCE(n.user_name,''),m.message_content,m.packed_info_data,m.status,"@
            + column_or_null(ct, "m.WCDB_CT_message_content"@) + ","@ + column_or_null(
            compressed,
            "m.compress_content"@,
        ) + ",m.rowid FROM ["@ + table
            + "] m LEFT JOIN Name2Id n ON m.real_sender_id=n.rowid WHERE "@ + self.predicate()
    }

    /// The values bound to its parameters.
    pub open spec fn bound(self) -> Seq<SqlV> {
        match self.history {
            Some(rowid) => seq![SqlV::Int(rowid), SqlV::Int(self.cap)],
            None => seq![
                SqlV::Int(self.after.sort_seq),
                SqlV::Int(self.after.create_time),
                SqlV::Int(self.after.server_id),
                SqlV::Int(self.after.local_id),
                SqlV::Int(self.cap),
            ],
        }
    }

    /// The read of the page from the conversation's table.
    pub open spec fn search(self, table: Seq<char>, ct: bool, compressed: bool) -> SearchV {
        SearchV { sql: self.sql_text(table, ct, compressed), values: self.bound() }
    }

    /// The row number to go on from when no row was read.
    pub open spec fn start(self) -> i64 {
        match self.history {
            Some(rowid) => rowid,
            None => 0,
        }
    }
}

/// Whether a conversation has a table in a shard.
pub open spec fn table_question() -> Seq<char> {
    "SELECT EXISTS(SELECT 1 FROM sqlite_master WHERE type='table' AND name=?1)"@
}

/// The statement that tells whether a conversation has a table in a shard.
pub fn table_exists_sql() -> (r: &'static str)
    ensures
        r@ == table_question(),
        r@ == "SELECT EXISTS(SELECT 1 FROM sqlite_master WHERE type='table' AND name=?1)"@,
{
    "SELECT EXISTS(SELECT 1 FROM sqlite_master WHERE type='table' AND name=?1)"
}

impl PageRead {
    /// The row number to go on from when no row was read.
    fn start(&self) -> (r: i64)
        ensures
            r == self@.start(),
    {
        match self.history {
            Some(rowid) => rowid,
            None => 0,
        }
    }

    /// The read of the page from the conversation's table, given which of the
    /// two newer columns the table has.
    fn search(&self, table: &str, ct: bool, compressed: bool) -> (r: Search)
        ensures
            r@ == self@.search(table@, ct, compressed),
    {
        let s = concat(
            "SELECT m.sort_seq,m.create_time,m.server_id,m.local_id,m.local_type,COALESCE(n.user_name,''),m.message_content,m.packed_info_data,m.status,",
            if ct {
                "m.WCDB_CT_message_content"
            } else {
                "NULL"
            },
        );
        let s = concat(s.as_str(), ",");
        let s = concat(
            s.as_str(),
            if compressed {
                "m.compress_content"
            } else {
                "NULL"
            },
        );
        let s = concat(s.as_str(), ",m.rowid FROM [");
        let s = concat(s.as_str(), table);
        let s = concat(
            s.as_str(),
            "] m LEFT JOIN Name2Id n ON m.real_sender_id=n.rowid WHERE ",
        );
        let sql = if self.history.is_some() {
            concat(s.as_str(), "m.rowid>?1 ORDER BY m.rowid LIMIT ?2")
        } else {
            concat(
                s.as_str(),
                "(m.sort_seq,m.create_time,m.server_id,m.local_id)>(?1,?2,?3,?4) ORDER BY m.sort_seq,m.create_time,m.server_id,m.local_id LIMIT ?5",
            )
        };
        let values = match self.history {
            Some(rowid) => vec![SqlValue::Int(rowid), SqlValue::Int(self.cap)],
            None => vec![
                SqlValue::Int(self.after.sort_seq),
                SqlValue::Int(self.after.create_time),
                SqlValue::Int(self.after.server_id),
                SqlValue::Int(self.after.local_id),
                SqlValue::Int(self.cap),
            ],
        };
        assert(crate::sql::values_view(values@) =~= self@.bound());
        Search { sql, values }
    }
}

/// Where the read of a page stands.
pub enum ReadNext {
    /// Whether there is a table was asked.
    Table { read: PageRead },
    /// The plan was asked for.
    Plan { read: PageRead, search: Search },
    /// A row was asked for.
    Row { read: PageRead, out: Vec<SourceMessage>, last: i64 },
    /// A row is being decoded.
    Message { read: PageRead, out: Vec<SourceMessage>, position: MessagePosition, last: i64 },
}

/// The mathematical view of that.
pub enum ReadNextV {
    Table { read: PageReadV },
    Plan { read: PageReadV, search: SearchV },
    Row { read: PageReadV, out: Seq<SourceMessageV>, last: i64 },
    Message { read: PageReadV, out: Seq<SourceMessageV>, position: MessagePosition, last: i64 },
}

impl View for ReadNext {
    type V = ReadNextV;

    open spec fn view(&self) -> ReadNextV {
        match self {
            ReadNext::Table { read } => ReadNextV::Table { read: read@ },
            ReadNext::Plan { read, search } => ReadNextV::Plan { read: read@, search: search@ },
            ReadNext::Row { read, out, last } => ReadNextV::Row {
                read: read@,
                out: messages_view(out@),
                last: *last,
            },
            ReadNext::Message { read, out, position, last } => ReadNextV::Message {
                read: read@,
                out: messages_view(out@),
                position: *position,
                last: *last,
            },
        }
    }
}

/// What to do outside to read a page.
pub enum ReadAsk {
    /// See which table holds the conversation, in the snapshot or, where there
    /// is none, in the shard as it is now.
    FindTable { shard: String, talker: String, snapshot: Option<usize> },
    /// Explain a read, in the same place.
    Explain { sql: String, values: Vec<SqlValue>, snapshot: Option<usize> },
    /// Begin an approved read, in the same place, and give its first row.
    FirstRow { read: Approved, snapshot: Option<usize> },
    /// Give the next row of that read.
    NextRow,
    /// Decode a row.
    Decode { row: Encoded },
}

/// The mathematical view of that.
pub enum ReadAskV {
    FindTable { shard: Seq<char>, talker: Seq<char>, snapshot: Option<usize> },
    Explain { sql: Seq<char>, values: Seq<SqlV>, snapshot: Option<usize> },
    FirstRow { read: SearchV, snapshot: Option<usize> },
    NextRow,
    Decode { row: EncodedV },
}

impl View for ReadAsk {
    type V = ReadAskV;

    open spec fn view(&self) -> ReadAskV {
        match self {
            ReadAsk::FindTable { shard, talker, snapshot } => ReadAskV::FindTable {
                shard: shard@,
                talker: talker@,
                snapshot: *snapshot,
            },
            ReadAsk::Explain { sql, values, snapshot } => ReadAskV::Explain {
                sql: sql@,
                values: crate::sql::values_view(values@),
                snapshot: *snapshot,
            },
            ReadAsk::FirstRow { read, snapshot } => ReadAskV::FirstRow {
                read: read@,
                snapshot: *snapshot,
            },
            ReadAsk::NextRow => ReadAskV::NextRow,
            ReadAsk::Decode { row } => ReadAskV::Decode { row: row@ },
        }
    }
}

/// A table of messages, and which of the two newer columns it has.
pub struct MessageTable {
    pub name: String,
    pub content_type: bool,
    pub compressed: bool,
}

/// What came of it.
pub enum ReadEvent {
    /// The table, where the shard has one for the conversation.
    Table(Option<MessageTable>),
    /// The steps of the plan.
    Plan(Vec<String>),
    /// The row, where there is one more.
    Row(Option<PageRow>),
    /// The message that a row holds.
    Message(Message),
}

/// The mathematical view of that.
pub enum ReadEventV {
    Table(Option<(Seq<char>, bool, bool)>),
    Plan(Seq<Seq<char>>),
    Row(Option<PageRowV>),
    Message(Message),
}

impl View for ReadEvent {
    type V = ReadEventV;

    open spec fn view(&self) -> ReadEventV {
        match self {
            ReadEvent::Table(t) => ReadEventV::Table(
                match t {
                    Some(t) => Some((t.name@, t.content_type, t.compressed)),
                    None => None,
                },
            ),
            ReadEvent::Plan(plan) => ReadEventV::Plan(crate::text::texts_view(plan@)),
            ReadEvent::Row(row) => ReadEventV::Row(
                match row {
                    Some(row) => Some(row@),
                    None => None,
                },
            ),
            ReadEvent::Message(m) => ReadEventV::Message(*m),
        }
    }
}

/// What to do next to read a page.
pub enum ReadStep {
    Ask { ask: ReadAsk, next: ReadNext },
    /// The page, and the number of the last row, from which the next page goes
    /// on.
    Done(Vec<SourceMessage>, i64),
    Refused(DbFault),
}

/// The mathematical view of that.
pub enum ReadStepV {
    Ask { ask: ReadAskV, next: ReadNextV },
    Done(Seq<SourceMessageV>, i64),
    Refused(DbFaultV),
}

impl View for ReadStep {
    type V = ReadStepV;

    open spec fn view(&self) -> ReadStepV {
        match self {
            ReadStep::Ask { ask, next } => ReadStepV::Ask { ask: ask@, next: next@ },
            ReadStep::Done(out, last) => ReadStepV::Done(messages_view(out@), *last),
            ReadStep::Refused(f) => ReadStepV::Refused(f@),
        }
    }
}

/// What reading a page asks for first.
pub open spec fn read_begin(read: PageReadV) -> ReadStepV {
    ReadStepV::Ask {
        ask: ReadAskV::FindTable {
            shard: read.shard,
            talker: read.talker,
            snapshot: read.snapshot,
        },
        next: ReadNextV::Table { read },
    }
}

/// What comes after each stage of reading a page.
pub open spec fn read_step(next: ReadNextV, event: ReadEventV) -> ReadStepV {
    match (next, event) {
        (ReadNextV::Table { read }, ReadEventV::Table(table)) => match table {
            None => ReadStepV::Done(Seq::empty(), read.start()),
            Some((name, ct, compressed)) => {
                let search = read.search(name, ct, compressed);
                ReadStepV::Ask {
                    ask: ReadAskV::Explain {
                        sql: "EXPLAIN QUERY PLAN "@ + search.sql,
                        values: search.values,
                        snapshot: read.snapshot,
                    },
                    next: ReadNextV::Plan { read, search },
                }
            },
        },
        (ReadNextV::Plan { read, search }, ReadEventV::Plan(plan)) => if is_range_search(plan) {
            ReadStepV::Ask {
                ask: ReadAskV::FirstRow { read: search, snapshot: read.snapshot },
                next: ReadNextV::Row { read, out: Seq::empty(), last: read.start() },
            }
        } else {
            ReadStepV::Refused(
                DbFaultV::NoRangeIndex(
                    "incompatible_source_index: bounded range index required"@,
                ),
            )
        },
        (ReadNextV::Row { read, out, last }, ReadEventV::Row(row)) => match row {
            None => ReadStepV::Done(out, last),
            Some(row) => ReadStepV::Ask {
                ask: ReadAskV::Decode { row: encoded(read.talker, row) },
                next: ReadNextV::Message { read, out, position: row.position, last: row.rowid },
            },
        },
        (
            ReadNextV::Message { read, out, position, last },
            ReadEventV::Message(message),
        ) => ReadStepV::Ask {
            ask: ReadAskV::NextRow,
            next: ReadNextV::Row {
                read,
                out: out.push(SourceMessageV { position, shard_id: read.shard, message }),
                last,
            },
        },
        _ => ReadStepV::Refused(DbFaultV::NotFound("unexpected answer"@)),
    }
}

/// No row is read unless the plan of the read is a search of an index that
/// neither scans nor sorts.
pub proof fn law_no_scan_is_run(next: ReadNextV, event: ReadEventV)
    requires
        read_step(next, event) matches ReadStepV::Ask { ask, .. } && ask is FirstRow,
    ensures
        event matches ReadEventV::Plan(plan) && is_range_search(plan),
{
}

/// The read that is going on.
pub open spec fn read_of(next: ReadNextV) -> PageReadV {
    match next {
        ReadNextV::Table { read } => read,
        ReadNextV::Plan { read, .. } => read,
        ReadNextV::Row { read, .. } => read,
        ReadNextV::Message { read, .. } => read,
    }
}

/// Whether a step of a read that goes on looks nowhere but where the read does.
pub open spec fn keeps_to(read: PageReadV, step: ReadStepV) -> bool {
    step matches ReadStepV::Ask { ask, next } ==> read_of(next) == read && match ask {
        ReadAskV::FindTable { shard, talker, snapshot } => shard == read.shard && talker
            == read.talker && snapshot == read.snapshot,
        ReadAskV::Explain { snapshot, .. } => snapshot == read.snapshot,
        ReadAskV::FirstRow { snapshot, .. } => snapshot == read.snapshot,
        _ => true,
    }
}

/// A read keeps to its place from its first step to its last: a read of a
/// snapshot asks for nothing but that snapshot, and a read of the shard as it
/// is now for no snapshot.
pub proof fn law_read_keeps_to_its_place(read: PageReadV, next: ReadNextV, event: ReadEventV)
    ensures
        keeps_to(read, read_begin(read)),
        keeps_to(read_of(next), read_step(next, event)),
{
}

/// Where a read stands once it has taken up some rows, each with the message
/// that it was decoded to.
pub open spec fn fed(read: PageReadV, rows: Seq<PageRowV>, messages: Seq<Message>) -> ReadNextV
    decreases rows.len(),
{
    if rows.len() == 0 {
        ReadNextV::Row { read, out: Seq::empty(), last: read.start() }
    } else {
        let before = fed(read, rows.drop_last(), messages.drop_last());
        let decoding = read_step(before, ReadEventV::Row(Some(rows.last())));
        let taken = read_step(decoding->next, ReadEventV::Message(messages.last()));
        taken->next
    }
}

/// Every row that is read becomes one message of the page, in order and with
/// its place, and the page ends with the number of its last row.
pub proof fn law_every_row_is_kept(
    read: PageReadV,
    rows: Seq<PageRowV>,
    messages: Seq<Message>,
)
    requires
        rows.len() == messages.len(),
    ensures
        read_step(fed(read, rows, messages), ReadEventV::Row(None)) == ReadStepV::Done(
            Seq::new(
                rows.len(),
                |i: int|
                    SourceMessageV {
                        position: rows[i].position,
                        shard_id: read.shard,
                        message: messages[i],
                    },
            ),
            if rows.len() == 0 {
                read.start()
            } else {
                rows.last().rowid
            },
        ),
{
    lemma_fed(read, rows, messages);
}

proof fn lemma_fed(read: PageReadV, rows: Seq<PageRowV>, messages: Seq<Message>)
    requires
        rows.len() == messages.len(),
    ensures
        fed(read, rows, messages) == (ReadNextV::Row {
            read,
            out: Seq::new(
                rows.len(),
                |i: int|
                    SourceMessageV {
                        position: rows[i].position,
                        shard_id: read.shard,
                        message: messages[i],
                    },
            ),
            last: if rows.len() == 0 {
                read.start()
            } else {
                rows.last().rowid
            },
        }),
    decreases rows.len(),
{
    let out = Seq::new(
        rows.len(),
        |i: int|
            SourceMessageV {
                position: rows[i].position,
                shard_id: read.shard,
                message: messages[i],
            },
    );
    if rows.len() == 0 {
        assert(out =~= Seq::empty());
    } else {
        lemma_fed(read, rows.drop_last(), messages.drop_last());
        let front = fed(read, rows.drop_last(), messages.drop_last())->Row_out;
        assert(out =~= front.push(
            SourceMessageV {
                position: rows.last().position,
                shard_id: read.shard,
                message: messages.last(),
            },
        ));
    }
}

/// Whether row numbers rise.
pub open spec fn rising(t: Seq<i64>) -> bool {
    forall|i: int, k: int| 0 <= i < k < t.len() ==> #[trigger] t[i] < #[trigger] t[k]
}

/// The rows of a table behind a row number, which is what a read by row
/// numbers asks for.
pub open spec fn beyond(t: Seq<i64>, p: i64) -> Seq<i64>
    decreases t.len(),
{
    if t.len() == 0 || t[0] > p {
        t
    } else {
        beyond(t.skip(1), p)
    }
}

proof fn lemma_beyond(t: Seq<i64>, p: i64, n: int)
    requires
        rising(t),
        0 <= n <= t.len(),
        forall|i: int| 0 <= i < n ==> #[trigger] t[i] <= p,
        forall|i: int| n <= i < t.len() ==> #[trigger] t[i] > p,
    ensures
        beyond(t, p) == t.skip(n),
    decreases t.len(),
{
    if n == 0 {
        assert(t.skip(0) =~= t);
    } else {
        assert(t[0] <= p);
        assert forall|i: int| 0 <= i < n - 1 implies #[trigger] t.skip(1)[i] <= p by {
            assert(t[i + 1] <= p);
        }
        assert forall|i: int| n - 1 <= i < t.skip(1).len() implies #[trigger] t.skip(1)[i] > p by {
            assert(t[i + 1] > p);
        }
        lemma_beyond(t.skip(1), p, n - 1);
        assert(t.skip(1).skip(n - 1) =~= t.skip(n));
    }
}

proof fn lemma_where_beyond_begins(t: Seq<i64>, p: i64) -> (n: int)
    requires
        rising(t),
    ensures
        0 <= n <= t.len(),
        forall|i: int| 0 <= i < n ==> #[trigger] t[i] <= p,
        forall|i: int| n <= i < t.len() ==> #[trigger] t[i] > p,
        beyond(t, p) == t.skip(n),
    decreases t.len(),
{
    if t.len() == 0 || t[0] > p {
        assert forall|i: int| 0 <= i < t.len() implies #[trigger] t[i] > p by {
            if i > 0 {
                assert(t[0] < t[i]);
            }
        }
        lemma_beyond(t, p, 0);
        0
    } else {
        let m = lemma_where_beyond_begins(t.skip(1), p);
        assert forall|i: int| 0 <= i < m + 1 implies #[trigger] t[i] <= p by {
            if i > 0 {
                assert(t.skip(1)[i - 1] <= p);
            }
        }
        assert forall|i: int| m + 1 <= i < t.len() implies #[trigger] t[i] > p by {
            assert(t.skip(1)[i - 1] > p);
        }
        lemma_beyond(t, p, m + 1);
        m + 1
    }
}

/// Pages by row numbers neither repeat nor leave out a row: what lies behind
/// the last row of a page is exactly what the page left, and a page that is not
/// full leaves nothing.
pub proof fn law_history_pages_go_on(t: Seq<i64>, p: i64, page: Seq<i64>, cap: int)
    requires
        rising(t),
        cap > 0,
        page == beyond(t, p).take(
            if beyond(t, p).len() < cap {
                beyond(t, p).len() as int
            } else {
                cap
            },
        ),
    ensures
        page.len() > 0 ==> beyond(t, page.last()) == beyond(t, p).skip(page.len() as int),
        page.len() < cap ==> page == beyond(t, p),
        forall|i: int| 0 <= i < page.len() ==> #[trigger] page[i] > p,
{
    let n = lemma_where_beyond_begins(t, p);
    let rest = beyond(t, p);
    if page.len() > 0 {
        let m = n + page.len();
        assert(page.last() == t[m - 1]);
        lemma_beyond(t, page.last(), m);
        assert(t.skip(m) =~= t.skip(n).skip(page.len() as int));
    }
    assert forall|i: int| 0 <= i < page.len() implies #[trigger] page[i] > p by {
        assert(page[i] == t[n + i]);
    }
    if page.len() < cap {
        assert(page =~= rest);
    }
}

/// Begins to read a page.
pub fn read_source_connection(read: PageRead) -> (r: ReadStep)
    ensures
        r@ == read_begin(read@),
{
    ReadStep::Ask {
        ask: ReadAsk::FindTable {
            shard: read.shard.clone(),
            talker: read.talker.clone(),
            snapshot: read.snapshot,
        },
        next: ReadNext::Table { read },
    }
}

/// Goes on reading a page.
pub fn resume(next: ReadNext, event: ReadEvent) -> (r: ReadStep)
    ensures
        r@ == read_step(next@, event@),
{
    match (next, event) {
        (ReadNext::Table { read }, ReadEvent::Table(table)) => match table {
            None => {
                let out: Vec<SourceMessage> = Vec::new();
                assert(messages_view(out@) =~= Seq::empty());
                ReadStep::Done(out, read.start())
            },
            Some(t) => {
                let search = read.search(t.name.as_str(), t.content_type, t.compressed);
                ReadStep::Ask {
                    ask: ReadAsk::Explain {
                        sql: search.explanation(),
                        values: copy_values(search.values()),
                        snapshot: read.snapshot,
                    },
                    next: ReadNext::Plan { read, search },
                }
            },
        },
        (ReadNext::Plan { read, search }, ReadEvent::Plan(plan)) => match search.approve(&plan) {
            Ok(approved) => {
                let out: Vec<SourceMessage> = Vec::new();
                assert(messages_view(out@) =~= Seq::empty());
                let last: i64 = read.start();
                ReadStep::Ask {
                    ask: ReadAsk::FirstRow { read: approved, snapshot: read.snapshot },
                    next: ReadNext::Row { read, out, last },
                }
            },
            Err(f) => ReadStep::Refused(f),
        },
        (ReadNext::Row { read, out, last }, ReadEvent::Row(row)) => match row {
            None => ReadStep::Done(out, last),
            Some(row) => {
                let position = row.position;
                let last: i64 = row.rowid;
                let row = Encoded {
                    position,
                    local_type: row.local_type,
                    sender: row.sender,
                    talker: read.talker.clone(),
                    content: bytes_of(row.content),
                    packed: bytes_if_any(row.packed),
                    status: match row.status {
                        Some(s) => s,
                        None => 0,
                    },
                    content_type: row.content_type,
                    compressed: bytes_if_any(row.compressed),
                    group: ends_with(read.talker.as_str(), "@chatroom"),
                };
                ReadStep::Ask {
                    ask: ReadAsk::Decode { row },
                    next: ReadNext::Message { read, out, position, last },
                }
            },
        },
        (ReadNext::Message { read, out, position, last }, ReadEvent::Message(message)) => {
            let ghost before = messages_view(out@);
            let mut out = out;
            out.push(SourceMessage { position, shard_id: read.shard.clone(), message });
            assert(messages_view(out@) =~= before.push(
                SourceMessageV { position, shard_id: read@.shard, message },
            ));
            ReadStep::Ask { ask: ReadAsk::NextRow, next: ReadNext::Row { read, out, last } }
        },
        _ => ReadStep::Refused(DbFault::NotFound("unexpected answer".to_owned())),
    }
}

// -------------------------------------------------------------- snapshots

/// One shard that has been pinned: the read transaction that was begun for it
/// under the number it carries, and that goes on until the snapshot is dropped.
pub struct HistorySnapshot {
    shard: String,
    handle: usize,
}

/// The mathematical view of a snapshot.
pub struct HistorySnapshotV {
    pub shard: Seq<char>,
    pub handle: usize,
}

impl View for HistorySnapshot {
    type V = HistorySnapshotV;

    closed spec fn view(&self) -> HistorySnapshotV {
        HistorySnapshotV { shard: self.shard@, handle: self.handle }
    }
}

/// The views of snapshots.
pub open spec fn snapshots_view(v: Seq<HistorySnapshot>) -> Seq<HistorySnapshotV> {
    Seq::new(v.len(), |i: int| v[i]@)
}

/// The read of a page from a snapshot, by row numbers.
pub open spec fn snapshot_read(
    s: HistorySnapshotV,
    talker: Seq<char>,
    after: i64,
    limit: usize,
) -> PageReadV {
    PageReadV {
        shard: s.shard,
        talker,
        after: MessagePosition { sort_seq: 0, create_time: 0, server_id: 0, local_id: 0 },
        cap: page_cap(limit),
        history: Some(after),
        snapshot: Some(s.handle),
    }
}

impl HistorySnapshot {
    /// The file name of the shard.
    pub fn shard_id(&self) -> (r: &str)
        ensures
            r@ == self@.shard,
    {
        self.shard.as_str()
    }

    /// A read of the conversation from the snapshot, by row numbers.
    pub fn page(&self, talker: &str, after: i64, limit: usize) -> (r: PageRead)
        ensures
            r@ == snapshot_read(self@, talker@, after, limit),
    {
        PageRead {
            shard: self.shard.clone(),
            talker: talker.to_owned(),
            after: MessagePosition::default(),
            cap: cap_of(limit),
            history: Some(after),
            snapshot: Some(self.handle),
        }
    }
}

/// What to do outside to take snapshots.
pub enum PinAsk {
    /// List the files of the message directory.
    ListFiles,
    /// Open a shard under a number, begin a transaction, and read once so that
    /// it begins now.
    Pin { shard: String, handle: usize, begin: String, read: String },
}

/// The mathematical view of that.
pub enum PinAskV {
    ListFiles,
    Pin { shard: Seq<char>, handle: usize, begin: Seq<char>, read: Seq<char> },
}

impl View for PinAsk {
    type V = PinAskV;

    open spec fn view(&self) -> PinAskV {
        match self {
            PinAsk::ListFiles => PinAskV::ListFiles,
            PinAsk::Pin { shard, handle, begin, read } => PinAskV::Pin {
                shard: shard@,
                handle: *handle,
                begin: begin@,
                read: read@,
            },
        }
    }
}

/// What came of it.
pub enum PinEvent {
    /// The names of the files.
    Files(Vec<String>),
    /// The shard is pinned.
    Pinned,
}

/// The mathematical view of that.
pub enum PinEventV {
    Files(Seq<Seq<char>>),
    Pinned,
}

impl View for PinEvent {
    type V = PinEventV;

    open spec fn view(&self) -> PinEventV {
        match self {
            PinEvent::Files(names) => PinEventV::Files(crate::text::texts_view(names@)),
            PinEvent::Pinned => PinEventV::Pinned,
        }
    }
}

/// Where the taking of snapshots stands.
pub enum PinNext {
    /// The files are being listed.
    Listing,
    /// The shards before one are pinned, and that one is being pinned.
    Pinning { shards: Vec<String>, at: usize },
}

/// The mathematical view of that.
pub enum PinNextV {
    Listing,
    Pinning { shards: Seq<Seq<char>>, at: usize },
}

impl View for PinNext {
    type V = PinNextV;

    open spec fn view(&self) -> PinNextV {
        match self {
            PinNext::Listing => PinNextV::Listing,
            PinNext::Pinning { shards, at } => PinNextV::Pinning {
                shards: crate::text::texts_view(shards@),
                at: *at,
            },
        }
    }
}

/// What to do next to take snapshots.
pub enum PinStep {
    Ask { ask: PinAsk, next: PinNext },
    Done(Vec<HistorySnapshot>),
    Refused(DbFault),
}

/// The mathematical view of that.
pub enum PinStepV {
    Ask { ask: PinAskV, next: PinNextV },
    Done(Seq<HistorySnapshotV>),
    Refused(DbFaultV),
}

impl View for PinStep {
    type V = PinStepV;

    open spec fn view(&self) -> PinStepV {
        match self {
            PinStep::Ask { ask, next } => PinStepV::Ask { ask: ask@, next: next@ },
            PinStep::Done(v) => PinStepV::Done(snapshots_view(v@)),
            PinStep::Refused(f) => PinStepV::Refused(f@),
        }
    }
}

/// The snapshots of shards, each under its own number.
pub open spec fn taken(shards: Seq<Seq<char>>) -> Seq<HistorySnapshotV> {
    Seq::new(shards.len(), |i: int| HistorySnapshotV { shard: shards[i], handle: i as usize })
}

/// Pinning the shards from one on. There are no snapshots before the last is
/// pinned.
pub open spec fn pin_from(shards: Seq<Seq<char>>, at: int) -> PinStepV {
    if 0 <= at < shards.len() {
        PinStepV::Ask {
            ask: PinAskV::Pin {
                shard: shards[at],
                handle: at as usize,
                begin: "BEGIN"@,
                read: "SELECT rootpage FROM sqlite_master LIMIT 1"@,
            },
            next: PinNextV::Pinning { shards, at: at as usize },
        }
    } else {
        PinStepV::Done(taken(shards))
    }
}

/// What taking snapshots asks for first, or why it is refused.
pub open spec fn pin_begin(db: WechatDbV) -> PinStepV {
    if db.has_data_dir {
        PinStepV::Ask { ask: PinAskV::ListFiles, next: PinNextV::Listing }
    } else {
        PinStepV::Refused(DbFaultV::NoShards)
    }
}

/// What comes after each stage of taking snapshots.
pub open spec fn pin_step(next: PinNextV, event: PinEventV) -> PinStepV {
    match (next, event) {
        (PinNextV::Listing, PinEventV::Files(names)) => pin_from(shard_files(names), 0),
        (PinNextV::Pinning { shards, at }, PinEventV::Pinned) => pin_from(shards, at + 1),
        _ => PinStepV::Refused(DbFaultV::NotFound("unexpected answer"@)),
    }
}

/// The step once the files are listed and so many shards are pinned.
pub open spec fn pinned(names: Seq<Seq<char>>, n: nat) -> PinStepV
    decreases n,
{
    if n == 0 {
        pin_step(PinNextV::Listing, PinEventV::Files(names))
    } else {
        pin_step(pinned(names, (n - 1) as nat)->next, PinEventV::Pinned)
    }
}

/// Every shard is pinned, each once and under its own number, before there is
/// a snapshot to read any of them from.
pub proof fn law_all_shards_are_pinned_first(names: Seq<Seq<char>>, n: nat)
    requires
        n <= shard_files(names).len() <= usize::MAX,
    ensures
        n < shard_files(names).len() ==> (pinned(names, n) matches PinStepV::Ask { ask, .. } && ask
            == (PinAskV::Pin {
            shard: shard_files(names)[n as int],
            handle: n as usize,
            begin: "BEGIN"@,
            read: "SELECT rootpage FROM sqlite_master LIMIT 1"@,
        })),
        n == shard_files(names).len() ==> pinned(names, n) == PinStepV::Done(
            taken(shard_files(names)),
        ),
{
    lemma_pinned(names, n);
}

proof fn lemma_pinned(names: Seq<Seq<char>>, n: nat)
    requires
        n <= shard_files(names).len() <= usize::MAX,
    ensures
        pinned(names, n) == pin_from(shard_files(names), n as int),
    decreases n,
{
    if n > 0 {
        lemma_pinned(names, (n - 1) as nat);
    }
}

fn pinning(shards: Vec<String>, at: usize) -> (r: PinStep)
    ensures
        r@ == pin_from(crate::text::texts_view(shards@), at as int),
{
    if at < shards.len() {
        return PinStep::Ask {
            ask: PinAsk::Pin {
                shard: shards[at].clone(),
                handle: at,
                begin: "BEGIN".to_owned(),
                read: "SELECT rootpage FROM sqlite_master LIMIT 1".to_owned(),
            },
            next: PinNext::Pinning { shards, at },
        };
    }
    let mut out: Vec<HistorySnapshot> = Vec::new();
    let mut i: usize = 0;
    while i < shards.len()
        invariant
            i <= shards@.len(),
            out@.len() == i,
            forall|k: int|
                0 <= k < i ==> (#[trigger] out@[k])@ == (HistorySnapshotV {
                    shard: shards@[k]@,
                    handle: k as usize,
                }),
        decreases shards@.len() - i,
    {
        out.push(HistorySnapshot { shard: shards[i].clone(), handle: i });
        i = i + 1;
    }
    assert(snapshots_view(out@) =~= taken(crate::text::texts_view(shards@)));
    PinStep::Done(out)
}

fn files_of_shards(names: &Vec<String>) -> (r: Vec<String>)
    ensures
        crate::text::texts_view(r@) == shard_files(crate::text::texts_view(names@)),
{
    let mut out: Vec<String> = Vec::new();
    let mut i: usize = 0;
    let ghost all = crate::text::texts_view(names@);
    assert(crate::text::texts_view(out@) =~= shard_files(all.take(0)));
    while i < names.len()
        invariant
            i <= names@.len(),
            all == crate::text::texts_view(names@),
            crate::text::texts_view(out@) == shard_files(all.take(i as int)),
        decreases names@.len() - i,
    {
        let ghost before = out@;
        assert(all.take(i + 1).drop_last() =~= all.take(i as int));
        assert(all.take(i + 1).last() == names@[i as int]@);
        if is_shard_name(names[i].as_str()) {
            out.push(names[i].clone());
            assert(crate::text::texts_view(out@) =~= crate::text::texts_view(before).push(
                names@[i as int]@,
            ));
        }
        i = i + 1;
    }
    assert(all.take(all.len() as int) =~= all);
    out
}

/// Goes on taking snapshots.
pub fn resume_pins(next: PinNext, event: PinEvent) -> (r: PinStep)
    ensures
        r@ == pin_step(next@, event@),
{
    match (next, event) {
        (PinNext::Listing, PinEvent::Files(names)) => pinning(files_of_shards(&names), 0),
        (PinNext::Pinning { shards, at }, PinEvent::Pinned) => if at < shards.len() {
            pinning(shards, at + 1)
        } else {
            pinning(shards, at)
        },
        _ => PinStep::Refused(DbFault::NotFound("unexpected answer".to_owned())),
    }
}

// ------------------------------------------------------------- the source

/// A read of a page, or why it is refused.
pub type Page = Result<PageReadV, DbFaultV>;

/// The read of a page from a shard. A name that could lead out of the message
/// directory is refused.
pub open spec fn page_read(
    db: WechatDbV,
    shard: Seq<char>,
    talker: Seq<char>,
    after: MessagePosition,
    limit: usize,
    history: Option<i64>,
) -> Page {
    if !is_shard_id(shard) {
        Page::Err(DbFaultV::NotFound("invalid shard identifier"@))
    } else if !db.has_data_dir {
        Page::Err(DbFaultV::NoShards)
    } else {
        Page::Ok(
            PageReadV { shard, talker, after, cap: page_cap(limit), history, snapshot: None },
        )
    }
}

/// The read of a page by row numbers.
pub open spec fn history_read(
    db: WechatDbV,
    shard: Seq<char>,
    talker: Seq<char>,
    after_rowid: i64,
    limit: usize,
) -> Page {
    page_read(
        db,
        shard,
        talker,
        MessagePosition { sort_seq: 0, create_time: 0, server_id: 0, local_id: 0 },
        limit,
        Some(after_rowid),
    )
}

/// An index of the session table, with its columns.
pub struct IndexColumns {
    pub name: String,
    pub columns: Vec<String>,
}

/// One line for an index.
pub open spec fn index_line(index: IndexColumns) -> Seq<char> {
    "index "@ + index.name@ + ": "@ + crate::text::joined(
        crate::text::texts_view(index.columns@),
        ","@,
    )
}

/// One line for each index.
pub open spec fn index_lines(indexes: Seq<IndexColumns>) -> Seq<Seq<char>> {
    Seq::new(indexes.len(), |i: int| index_line(indexes[i]))
}

/// The names that are there, in order.
pub open spec fn present(shards: Seq<Option<String>>) -> Seq<Seq<char>>
    decreases shards.len(),
{
    if shards.len() == 0 {
        Seq::empty()
    } else {
        match shards.last() {
            Some(name) => present(shards.drop_last()).push(name@),
            None => present(shards.drop_last()),
        }
    }
}

/// The names that are shard files, in order.
pub open spec fn shard_files(names: Seq<Seq<char>>) -> Seq<Seq<char>>
    decreases names.len(),
{
    if names.len() == 0 {
        Seq::empty()
    } else if is_shard_file(names.last()) {
        shard_files(names.drop_last()).push(names.last())
    } else {
        shard_files(names.drop_last())
    }
}

/// Which indexes the session table has.
pub open spec fn indexes_question() -> Seq<char> {
    "SELECT name FROM pragma_index_list('SessionTable')"@
}

/// Which columns an index has, in order.
pub open spec fn columns_question() -> Seq<char> {
    "SELECT name FROM pragma_index_info(?1) ORDER BY seqno"@
}

/// How the session table would be read in order.
pub open spec fn plan_question() -> Seq<char> {
    "EXPLAIN QUERY PLAN SELECT username,sort_timestamp FROM SessionTable WHERE (sort_timestamp,username)>(0,'') ORDER BY sort_timestamp,username LIMIT 128"@
}

/// The read of the sessions that changed after a time and name.
pub open spec fn session_read(timestamp: i64, username: Seq<char>, limit: usize) -> SearchV {
    SearchV {
        sql: "SELECT username,sort_timestamp FROM SessionTable WHERE (sort_timestamp,username) > (?1,?2) ORDER BY sort_timestamp,username LIMIT ?3"@,
        values: seq![SqlV::Int(timestamp), SqlV::Text(username), SqlV::Int(page_cap(limit))],
    }
}

/// The statement that lists the indexes of the session table.
pub fn session_indexes_sql() -> (r: &'static str)
    ensures
        r@ == indexes_question(),
        r@ == "SELECT name FROM pragma_index_list('SessionTable')"@,
{
    "SELECT name FROM pragma_index_list('SessionTable')"
}

/// The statement that lists the columns of an index.
pub fn index_columns_sql() -> (r: &'static str)
    ensures
        r@ == columns_question(),
        r@ == "SELECT name FROM pragma_index_info(?1) ORDER BY seqno"@,
{
    "SELECT name FROM pragma_index_info(?1) ORDER BY seqno"
}

/// The statement that asks how the session table would be read in order.
pub fn session_plan_sql() -> (r: &'static str)
    ensures
        r@ == plan_question(),
        r@
            == "EXPLAIN QUERY PLAN SELECT username,sort_timestamp FROM SessionTable WHERE (sort_timestamp,username)>(0,'') ORDER BY sort_timestamp,username LIMIT 128"@,
{
    "EXPLAIN QUERY PLAN SELECT username,sort_timestamp FROM SessionTable WHERE (sort_timestamp,username)>(0,'') ORDER BY sort_timestamp,username LIMIT 128"
}

impl WechatDb {
    /// What is known of the session table's indexes: one line for each index,
    /// then the steps of the plan by which the table would be read in order.
    pub fn session_index_diagnostics(
        &self,
        indexes: &Vec<IndexColumns>,
        plan: &Vec<String>,
    ) -> (r: Vec<String>)
        ensures
            crate::text::texts_view(r@) == index_lines(indexes@) + crate::text::texts_view(plan@),
    {
        let mut out: Vec<String> = Vec::new();
        let mut i: usize = 0;
        while i < indexes.len()
            invariant
                i <= indexes@.len(),
                out@.len() == i,
                forall|k: int| 0 <= k < i ==> (#[trigger] out@[k])@ == index_line(indexes@[k]),
            decreases indexes@.len() - i,
        {
            let head = concat("index ", indexes[i].name.as_str());
            let head = concat(head.as_str(), ": ");
            let columns = join(&indexes[i].columns, ",");
            out.push(concat(head.as_str(), columns.as_str()));
            i = i + 1;
        }
        let mut steps = copy_texts(plan);
        let ghost first = out@;
        let ghost second = steps@;
        out.append(&mut steps);
        assert(crate::text::texts_view(out@) =~= crate::text::texts_view(first)
            + crate::text::texts_view(second));
        assert(crate::text::texts_view(first) =~= index_lines(indexes@));
        out
    }

    /// A bounded read of the sessions that changed after a time and name. It
    /// has to be approved before it can be run.
    pub fn session_changes_page(&self, timestamp: i64, username: &str, limit: usize) -> (r: Search)
        ensures
            r@ == session_read(timestamp, username@, limit),
            r@.sql
                == "SELECT username,sort_timestamp FROM SessionTable WHERE (sort_timestamp,username) > (?1,?2) ORDER BY sort_timestamp,username LIMIT ?3"@,
            r@.values == seq![
                SqlV::Int(timestamp),
                SqlV::Text(username@),
                SqlV::Int(page_cap(limit)),
            ],
    {
        let values = vec![
            SqlValue::Int(timestamp),
            bind(username),
            SqlValue::Int(cap_of(limit)),
        ];
        assert(crate::sql::values_view(values@) =~= seq![
            SqlV::Int(timestamp),
            SqlV::Text(username@),
            SqlV::Int(page_cap(limit)),
        ]);
        let sql = "SELECT username,sort_timestamp FROM SessionTable WHERE (sort_timestamp,username) > (?1,?2) ORDER BY sort_timestamp,username LIMIT ?3".to_owned();
        Search { sql, values }
    }

    /// The file names of the message shards.
    pub fn source_shards(&self) -> (r: Vec<String>)
        ensures
            crate::text::texts_view(r@) == self@.shards,
    {
        let mut out: Vec<String> = Vec::new();
        let mut i: usize = 0;
        assert(crate::text::texts_view(out@) =~= present(self.shards@.take(0)));
        while i < self.shards.len()
            invariant
                i <= self.shards@.len(),
                crate::text::texts_view(out@) == present(self.shards@.take(i as int)),
            decreases self.shards@.len() - i,
        {
            let ghost before = out@;
            assert(self.shards@.take(i + 1).drop_last() =~= self.shards@.take(i as int));
            if let Some(name) = &self.shards[i] {
                out.push(name.clone());
                assert(crate::text::texts_view(out@) =~= crate::text::texts_view(before).push(
                    name@,
                ));
            }
            i = i + 1;
        }
        assert(self.shards@.take(self.shards@.len() as int) =~= self.shards@);
        out
    }

    /// Begins to take snapshots, one for each shard in the message directory,
    /// shards that appeared since the source was opened included. All are pinned
    /// before any can be read.
    pub fn history_snapshots(&self) -> (r: PinStep)
        ensures
            r@ == pin_begin(self@),
    {
        if !self.has_data_dir {
            return PinStep::Refused(DbFault::NoShards);
        }
        PinStep::Ask { ask: PinAsk::ListFiles, next: PinNext::Listing }
    }

    fn read_source_page(
        &self,
        shard_id: &str,
        talker: &str,
        after: &MessagePosition,
        limit: usize,
        history: Option<i64>,
    ) -> (r: Result<PageRead, DbFault>)
        ensures
            match r {
                Ok(read) => page_read(self@, shard_id@, talker@, *after, limit, history)
                    == Page::Ok(read@),
                Err(f) => page_read(self@, shard_id@, talker@, *after, limit, history)
                    == Page::Err(f@),
            },
    {
        if !starts_with(shard_id, "message_") || !ends_with(shard_id, ".db") || has_char(
            shard_id,
            '/',
        ) || has_char(shard_id, '\\') {
            return Err(DbFault::NotFound("invalid shard identifier".to_owned()));
        }
        if !self.has_data_dir {
            return Err(DbFault::NoShards);
        }
        Ok(
            PageRead {
                shard: shard_id.to_owned(),
                talker: talker.to_owned(),
                after: *after,
                cap: cap_of(limit),
                history,
                snapshot: None,
            },
        )
    }

    /// A bounded read of the messages after a position, from one shard.
    pub fn source_page(
        &self,
        shard_id: &str,
        talker: &str,
        after: &MessagePosition,
        limit: usize,
    ) -> (r: Result<PageRead, DbFault>)
        ensures
            match r {
                Ok(read) => page_read(self@, shard_id@, talker@, *after, limit, None) == Page::Ok(
                    read@,
                ),
                Err(f) => page_read(self@, shard_id@, talker@, *after, limit, None) == Page::Err(
                    f@,
                ),
            },
    {
        self.read_source_page(shard_id, talker, after, limit, None)
    }

    /// A bounded read by row numbers, from one shard: for importing what is
    /// there, which needs no index of positions. It does not find changes.
    pub fn history_page(
        &self,
        shard_id: &str,
        talker: &str,
        after_rowid: i64,
        limit: usize,
    ) -> (r: Result<PageRead, DbFault>)
        ensures
            match r {
                Ok(read) => history_read(self@, shard_id@, talker@, after_rowid, limit)
                    == Page::Ok(read@),
                Err(f) => history_read(self@, shard_id@, talker@, after_rowid, limit)
                    == Page::Err(f@),
            },
    {
        self.read_source_page(shard_id, talker, &MessagePosition::default(), limit, Some(after_rowid))
    }
}

// -------------------------------------------------------------------- laws

/// A plan is accepted exactly when some step of it searches an index or a
/// primary key, and no step scans a table or sorts.
pub proof fn law_plans_are_accepted_by_their_steps(plan: Seq<Seq<char>>)
    ensures
        is_range_search(plan) <==> (exists|i: int|
            0 <= i < plan.len() && crate::text::occurs(#[trigger] plan[i], "SEARCH"@) && (
            crate::text::occurs(plan[i], "INDEX"@) || crate::text::occurs(plan[i], "PRIMARY KEY"@)))
            && !exists|i: int|
            0 <= i < plan.len() && (crate::text::occurs(#[trigger] plan[i], "SCAN "@)
                || crate::text::occurs(plan[i], "TEMP B-TREE"@)),
{
    if exists|i: int|
        0 <= i < plan.len() && crate::text::occurs(#[trigger] plan[i], "SEARCH"@) && (
        crate::text::occurs(plan[i], "INDEX"@) || crate::text::occurs(plan[i], "PRIMARY KEY"@)) {
        let i = choose|i: int|
            0 <= i < plan.len() && crate::text::occurs(#[trigger] plan[i], "SEARCH"@) && (
            crate::text::occurs(plan[i], "INDEX"@) || crate::text::occurs(plan[i], "PRIMARY KEY"@));
        assert(is_index_search(plan[i]));
    }
    if is_range_search(plan) {
        let i = choose|i: int| 0 <= i < plan.len() && is_index_search(#[trigger] plan[i]);
        assert(crate::text::occurs(plan[i], "SEARCH"@));
        assert forall|k: int| 0 <= k < plan.len() implies !(crate::text::occurs(
            #[trigger] plan[k],
            "SCAN "@,
        ) || crate::text::occurs(plan[k], "TEMP B-TREE"@)) by {
            assert(!is_unbounded(plan[k]));
        }
    }
}

/// The file of a message shard is called `message_`, a number in digits, and
/// `.db`, and nothing else.
pub proof fn law_shard_files_are_numbered(s: Seq<char>)
    ensures
        is_shard_file(s) <==> {
            &&& s.len() >= 12
            &&& s.take(8) == "message_"@
            &&& s.skip(s.len() - 3) == ".db"@
            &&& forall|i: int| 8 <= i < s.len() - 3 ==> '0' <= #[trigger] s[i] <= '9'
        },
{
    reveal_strlit("message_");
    reveal_strlit(".db");
    if is_shard_file(s) {
        let n = choose|n: Seq<char>|
            n.len() > 0 && crate::text::all_digits(n) && s == #[trigger] ("message_"@ + n + ".db"@);
        assert(s.take(8) =~= "message_"@);
        assert(s.skip(s.len() - 3) =~= ".db"@);
        assert forall|i: int| 8 <= i < s.len() - 3 implies '0' <= #[trigger] s[i] <= '9' by {
            assert(s[i] == n[i - 8]);
            assert(crate::text::is_digit(n[i - 8]));
        }
    }
    if s.len() >= 12 && s.take(8) == "message_"@ && s.skip(s.len() - 3) == ".db"@ && forall|i: int|
        8 <= i < s.len() - 3 ==> '0' <= #[trigger] s[i] <= '9' {
        let n = s.subrange(8, s.len() - 3);
        assert forall|i: int| 0 <= i < n.len() implies crate::text::is_digit(#[trigger] n[i]) by {
            assert(s[i + 8] == n[i]);
        }
        assert(s =~= s.take(8) + n + s.skip(s.len() - 3));
        assert(s == "message_"@ + n + ".db"@);
    }
}

/// Of the files of the message directory the shards are taken up, all of them
/// and no others, in order.
pub proof fn law_all_shards_are_taken_up(names: Seq<Seq<char>>, name: Seq<char>)
    ensures
        shard_files(Seq::empty()) == Seq::<Seq<char>>::empty(),
        is_shard_file(name) ==> shard_files(names.push(name)) == shard_files(names).push(name),
        !is_shard_file(name) ==> shard_files(names.push(name)) == shard_files(names),
{
    assert(names.push(name).drop_last() =~= names);
}

/// The shards of a source are those whose names are known, in order.
pub proof fn law_shards_are_those_with_a_name(shards: Seq<Option<String>>, name: Option<String>)
    ensures
        present(Seq::empty()) == Seq::<Seq<char>>::empty(),
        name is Some ==> present(shards.push(name)) == present(shards).push(name->0@),
        name is None ==> present(shards.push(name)) == present(shards),
{
    assert(shards.push(name).drop_last() =~= shards);
}

/// A page is read in the shard, for the conversation, behind the place and no
/// further than what was asked for; a name that is no shard's, or that could
/// lead out of the directory, is refused, and so is every name where there is no
/// directory.
pub proof fn law_pages_are_read_where_they_are_asked_for(
    db: WechatDbV,
    shard: Seq<char>,
    talker: Seq<char>,
    after: MessagePosition,
    limit: usize,
    history: Option<i64>,
)
    ensures
        ({
            let good = "message_"@.is_prefix_of(shard) && crate::text::has_suffix(shard, ".db"@)
                && !shard.contains('/') && !shard.contains('\\');
            let r = page_read(db, shard, talker, after, limit, history);
            &&& r is Ok <==> good && db.has_data_dir
            &&& !good ==> r == Page::Err(DbFaultV::NotFound("invalid shard identifier"@))
            &&& good && !db.has_data_dir ==> r == Page::Err(DbFaultV::NoShards)
            &&& r matches Ok(read) ==> read.shard == shard && read.talker == talker && read.after
                == after && read.history == history && read.cap == page_cap(limit)
                && read.snapshot is None
        }),
{
}

/// A row goes to the decoder as it was read, with its conversation and whether
/// that is a group: bytes that are empty count as missing but for the content,
/// and a status that is missing counts as zero.
pub proof fn law_rows_are_decoded_as_read(
    talker: Seq<char>,
    row: PageRowV,
    read: PageReadV,
    out: Seq<SourceMessageV>,
    last: i64,
)
    ensures
        ({
            let e = encoded(talker, row);
            &&& e.position == row.position
            &&& e.local_type == row.local_type
            &&& e.sender == row.sender
            &&& e.talker == talker
            &&& e.content == row.content
            &&& e.content_type == row.content_type
            &&& e.packed is None <==> row.packed.len() == 0
            &&& e.packed matches Some(bytes) ==> bytes == row.packed
            &&& e.compressed is None <==> row.compressed.len() == 0
            &&& e.compressed matches Some(bytes) ==> bytes == row.compressed
            &&& row.status is Some ==> e.status == row.status->0
            &&& row.status is None ==> e.status == 0
            &&& e.group <==> crate::text::has_suffix(talker, "@chatroom"@)
        }),
        read_step(
            ReadNextV::Row { read, out, last },
            ReadEventV::Row(Some(row)),
        ) matches ReadStepV::Ask { ask, .. } && ask == (ReadAskV::Decode {
            row: encoded(read.talker, row),
        }),
{
}

/// The columns of a page, in the order of what a row holds: the place, the type,
/// the sender, the content, the packed bytes, the status, the two newer columns
/// where the table has them, and the row number.
pub open spec fn page_columns(ct: bool, compressed: bool) -> Seq<Seq<char>> {
    seq![
        "m.sort_seq"@,
        "m.create_time"@,
        "m.server_id"@,
        "m.local_id"@,
        "m.local_type"@,
        "COALESCE(n.user_name,'')"@,
        "m.message_content"@,
        "m.packed_info_data"@,
        "m.status"@,
        if ct {
            "m.WCDB_CT_message_content"@
        } else {
            "NULL"@
        },
        if compressed {
            "m.compress_content"@
        } else {
            "NULL"@
        },
        "m.rowid"@,
    ]
}

/// The columns that the place of a message is made of.
pub open spec fn place_columns() -> Seq<Seq<char>> {
    seq!["m.sort_seq"@, "m.create_time"@, "m.server_id"@, "m.local_id"@]
}

/// What those columns hold for a place.
pub open spec fn place_values(p: MessagePosition) -> Seq<SqlV> {
    seq![
        SqlV::Int(p.sort_seq),
        SqlV::Int(p.create_time),
        SqlV::Int(p.server_id),
        SqlV::Int(p.local_id),
    ]
}

proof fn lemma_place_columns()
    ensures
        crate::text::joined(place_columns(), ","@)
            == "m.sort_seq,m.create_time,m.server_id,m.local_id"@,
{
    reveal_strlit(",");
    reveal_strlit("m.sort_seq");
    reveal_strlit("m.create_time");
    reveal_strlit("m.server_id");
    reveal_strlit("m.local_id");
    reveal_strlit("m.sort_seq,m.create_time,m.server_id,m.local_id");
    let c1 = seq!["m.sort_seq"@];
    let c2 = c1.push("m.create_time"@);
    let c3 = c2.push("m.server_id"@);
    crate::text::law_parts_are_joined(c1, "m.create_time"@, ","@);
    crate::text::law_parts_are_joined(c2, "m.server_id"@, ","@);
    crate::text::law_parts_are_joined(c3, "m.local_id"@, ","@);
    assert(c3.push("m.local_id"@) =~= place_columns());
    assert(crate::text::joined(place_columns(), ","@)
        =~= "m.sort_seq,m.create_time,m.server_id,m.local_id"@);
}

proof fn lemma_page_columns(ct: bool, compressed: bool)
    ensures
        crate::text::joined(page_columns(ct, compressed), ","@)
            == "m.sort_seq,m.create_time,m.server_id,m.local_id,m.local_type,COALESCE(n.user_name,''),m.message_content,m.packed_info_data,m.status,"@
            + column_or_null(ct, "m.WCDB_CT_message_content"@) + ","@ + column_or_null(
            compressed,
            "m.compress_content"@,
        ) + ",m.rowid"@,
{
    reveal_strlit(",");
    reveal_strlit("m.sort_seq,m.create_time,m.server_id,m.local_id");
    reveal_strlit(
        "m.sort_seq,m.create_time,m.server_id,m.local_id,m.local_type,COALESCE(n.user_name,''),m.message_content,m.packed_info_data,m.status,",
    );
    reveal_strlit("m.local_type");
    reveal_strlit("COALESCE(n.user_name,'')");
    reveal_strlit("m.message_content");
    reveal_strlit("m.packed_info_data");
    reveal_strlit("m.status");
    reveal_strlit("m.rowid");
    reveal_strlit(",m.rowid");
    lemma_place_columns();
    let c4 = place_columns();
    let c5 = c4.push("m.local_type"@);
    let c6 = c5.push("COALESCE(n.user_name,'')"@);
    let c7 = c6.push("m.message_content"@);
    let c8 = c7.push("m.packed_info_data"@);
    let c9 = c8.push("m.status"@);
    let c10 = c9.push(column_or_null(ct, "m.WCDB_CT_message_content"@));
    let c11 = c10.push(column_or_null(compressed, "m.compress_content"@));
    crate::text::law_parts_are_joined(c4, "m.local_type"@, ","@);
    crate::text::law_parts_are_joined(c5, "COALESCE(n.user_name,'')"@, ","@);
    crate::text::law_parts_are_joined(c6, "m.message_content"@, ","@);
    crate::text::law_parts_are_joined(c7, "m.packed_info_data"@, ","@);
    crate::text::law_parts_are_joined(c8, "m.status"@, ","@);
    crate::text::law_parts_are_joined(
        c9,
        column_or_null(ct, "m.WCDB_CT_message_content"@),
        ","@,
    );
    crate::text::law_parts_are_joined(
        c10,
        column_or_null(compressed, "m.compress_content"@),
        ","@,
    );
    crate::text::law_parts_are_joined(c11, "m.rowid"@, ","@);
    assert(c11.push("m.rowid"@) =~= page_columns(ct, compressed));
    let head =
        "m.sort_seq,m.create_time,m.server_id,m.local_id,m.local_type,COALESCE(n.user_name,''),m.message_content,m.packed_info_data,m.status,"@;
    assert(crate::text::joined(c9, ","@) + ","@ =~= head);
    assert(crate::text::joined(page_columns(ct, compressed), ","@) =~= head + column_or_null(
        ct,
        "m.WCDB_CT_message_content"@,
    ) + ","@ + column_or_null(compressed, "m.compress_content"@) + ",m.rowid"@);
}

/// A page is read from the table of the conversation, column by column, with the
/// sender's name where there is one. By row numbers, it holds the rows behind
/// the one given, in the order of their numbers; else the rows behind the place
/// given, in the order of their places. It holds no more rows than its bound.
pub proof fn law_pages_are_written_so(
    read: PageReadV,
    table: Seq<char>,
    ct: bool,
    compressed: bool,
)
    ensures
        read.sql_text(table, ct, compressed) == "SELECT "@ + crate::text::joined(
            page_columns(ct, compressed),
            ","@,
        ) + " FROM ["@ + table + "] m LEFT JOIN Name2Id n ON m.real_sender_id=n.rowid WHERE "@
            + read.predicate(),
        read.history is Some ==> read.predicate() == "m.rowid"@ + ">?1 ORDER BY "@ + "m.rowid"@
            + " LIMIT ?2"@ && read.bound() == seq![
            SqlV::Int(read.history->0),
            SqlV::Int(read.cap),
        ],
        read.history is None ==> read.predicate() == "("@ + crate::text::joined(
            place_columns(),
            ","@,
        ) + ")>(?1,?2,?3,?4) ORDER BY "@ + crate::text::joined(place_columns(), ","@) + " LIMIT ?5"@
            && read.bound() == place_values(read.after).push(SqlV::Int(read.cap)),
{
    lemma_page_columns(ct, compressed);
    lemma_place_columns();
    reveal_strlit("SELECT ");
    reveal_strlit(",m.rowid");
    reveal_strlit(" FROM [");
    reveal_strlit(",m.rowid FROM [");
    reveal_strlit(
        "m.sort_seq,m.create_time,m.server_id,m.local_id,m.local_type,COALESCE(n.user_name,''),m.message_content,m.packed_info_data,m.status,",
    );
    reveal_strlit(
        "SELECT m.sort_seq,m.create_time,m.server_id,m.local_id,m.local_type,COALESCE(n.user_name,''),m.message_content,m.packed_info_data,m.status,",
    );
    let head =
        "m.sort_seq,m.create_time,m.server_id,m.local_id,m.local_type,COALESCE(n.user_name,''),m.message_content,m.packed_info_data,m.status,"@;
    assert("SELECT "@ + head
        =~= "SELECT m.sort_seq,m.create_time,m.server_id,m.local_id,m.local_type,COALESCE(n.user_name,''),m.message_content,m.packed_info_data,m.status,"@);
    assert(",m.rowid"@ + " FROM ["@ =~= ",m.rowid FROM ["@);
    let a = column_or_null(ct, "m.WCDB_CT_message_content"@);
    let b = column_or_null(compressed, "m.compress_content"@);
    let tail = "] m LEFT JOIN Name2Id n ON m.real_sender_id=n.rowid WHERE "@;
    assert(read.sql_text(table, ct, compressed) =~= "SELECT "@ + crate::text::joined(
        page_columns(ct, compressed),
        ","@,
    ) + " FROM ["@ + table + tail + read.predicate());
    lemma_predicates(read);
}

proof fn lemma_predicates(read: PageReadV)
    ensures
        read.history is Some ==> read.predicate() == "m.rowid"@ + ">?1 ORDER BY "@ + "m.rowid"@
            + " LIMIT ?2"@,
        read.history is None ==> read.predicate() == "("@
            + "m.sort_seq,m.create_time,m.server_id,m.local_id"@ + ")>(?1,?2,?3,?4) ORDER BY "@
            + "m.sort_seq,m.create_time,m.server_id,m.local_id"@ + " LIMIT ?5"@,
{
    if read.history is Some {
        reveal_strlit("m.rowid>?1 ORDER BY m.rowid LIMIT ?2");
        reveal_strlit("m.rowid");
        reveal_strlit(">?1 ORDER BY ");
        reveal_strlit(" LIMIT ?2");
        assert("m.rowid>?1 ORDER BY m.rowid LIMIT ?2"@ =~= "m.rowid"@ + ">?1 ORDER BY "@
            + "m.rowid"@ + " LIMIT ?2"@);
    } else {
        reveal_strlit(
            "(m.sort_seq,m.create_time,m.server_id,m.local_id)>(?1,?2,?3,?4) ORDER BY m.sort_seq,m.create_time,m.server_id,m.local_id LIMIT ?5",
        );
        reveal_strlit("(");
        reveal_strlit("m.sort_seq,m.create_time,m.server_id,m.local_id");
        reveal_strlit(")>(?1,?2,?3,?4) ORDER BY ");
        reveal_strlit(" LIMIT ?5");
        assert(read.predicate() =~= "("@ + "m.sort_seq,m.create_time,m.server_id,m.local_id"@
            + ")>(?1,?2,?3,?4) ORDER BY "@ + "m.sort_seq,m.create_time,m.server_id,m.local_id"@
            + " LIMIT ?5"@);
    }
}

/// A conversation that has no table in a shard has nothing there to read: the
/// page is empty and goes on where it began. One that has a table is read only
/// once the plan of the read has been asked for, of the very statement that is
/// then run.
pub proof fn law_plans_are_asked_for_first(
    read: PageReadV,
    table: Seq<char>,
    ct: bool,
    compressed: bool,
    plan: Seq<Seq<char>>,
)
    ensures
        read_step(ReadNextV::Table { read }, ReadEventV::Table(None)) == ReadStepV::Done(
            Seq::empty(),
            match read.history {
                Some(rowid) => rowid,
                None => 0,
            },
        ),
        read_step(
            ReadNextV::Table { read },
            ReadEventV::Table(Some((table, ct, compressed))),
        ) matches ReadStepV::Ask { ask, next } && {
            &&& ask == (ReadAskV::Explain {
                sql: "EXPLAIN QUERY PLAN "@ + read.sql_text(table, ct, compressed),
                values: read.bound(),
                snapshot: read.snapshot,
            })
            &&& is_range_search(plan) ==> (read_step(
                next,
                ReadEventV::Plan(plan),
            ) matches ReadStepV::Ask { ask, .. } && ask == (ReadAskV::FirstRow {
                read: SearchV {
                    sql: read.sql_text(table, ct, compressed),
                    values: read.bound(),
                },
                snapshot: read.snapshot,
            }))
            &&& !is_range_search(plan) ==> read_step(next, ReadEventV::Plan(plan))
                == ReadStepV::Refused(
                DbFaultV::NoRangeIndex("incompatible_source_index: bounded range index required"@),
            )
        },
{
}

/// An index of the sessions is described by its name and its columns.
pub proof fn law_indexes_are_described(indexes: Seq<IndexColumns>, i: int)
    requires
        0 <= i < indexes.len(),
    ensures
        index_lines(indexes).len() == indexes.len(),
        index_lines(indexes)[i] == "index "@ + indexes[i].name@ + ": "@ + crate::text::joined(
            crate::text::texts_view(indexes[i].columns@),
            ","@,
        ),
{
}

/// The columns that sessions are ordered by.
pub open spec fn session_keys() -> Seq<char> {
    crate::text::joined(seq!["sort_timestamp"@, "username"@], ","@)
}

proof fn lemma_session_keys()
    ensures
        session_keys() == "sort_timestamp,username"@,
{
    reveal_strlit("sort_timestamp");
    reveal_strlit("username");
    reveal_strlit(",");
    reveal_strlit("sort_timestamp,username");
    crate::text::law_parts_are_joined(seq!["sort_timestamp"@], "username"@, ","@);
    assert(seq!["sort_timestamp"@].push("username"@) =~= seq!["sort_timestamp"@, "username"@]);
    assert(session_keys() =~= "sort_timestamp,username"@);
}

/// Sessions are read behind a time and a name, in the order of their times and
/// names, no more than the bound. The plan that is described is that of reading
/// them so from the first on. A table is looked for by its name among the
/// tables, and the indexes of the sessions, each with its columns in order, by
/// theirs.
pub proof fn law_sessions_are_read_in_order(timestamp: i64, username: Seq<char>, limit: usize)
    ensures
        session_read(timestamp, username, limit).sql
            == "SELECT username,sort_timestamp FROM SessionTable WHERE ("@ + session_keys()
            + ") > (?1,?2) ORDER BY "@ + session_keys() + " LIMIT ?3"@,
        session_read(timestamp, username, limit).values == seq![
            SqlV::Int(timestamp),
            SqlV::Text(username),
            SqlV::Int(page_cap(limit)),
        ],
        plan_question()
            == "EXPLAIN QUERY PLAN SELECT username,sort_timestamp FROM SessionTable WHERE ("@
            + session_keys() + ")>(0,'') ORDER BY "@ + session_keys() + " LIMIT 128"@,
        table_question() == "SELECT EXISTS(SELECT 1 FROM sqlite_master WHERE "@ + "type='table'"@
            + " AND "@ + "name=?1"@ + ")"@,
        indexes_question() == "SELECT name FROM "@ + "pragma_index_list('SessionTable')"@,
        columns_question() == "SELECT name FROM "@ + "pragma_index_info(?1)"@ + " ORDER BY seqno"@,
{
    lemma_session_keys();
    reveal_strlit("sort_timestamp,username");
    reveal_strlit("SELECT username,sort_timestamp FROM SessionTable WHERE (");
    reveal_strlit(") > (?1,?2) ORDER BY ");
    reveal_strlit(" LIMIT ?3");
    reveal_strlit(
        "SELECT username,sort_timestamp FROM SessionTable WHERE (sort_timestamp,username) > (?1,?2) ORDER BY sort_timestamp,username LIMIT ?3",
    );
    assert(session_read(timestamp, username, limit).sql
        =~= "SELECT username,sort_timestamp FROM SessionTable WHERE ("@ + session_keys()
        + ") > (?1,?2) ORDER BY "@ + session_keys() + " LIMIT ?3"@);
    reveal_strlit("EXPLAIN QUERY PLAN SELECT username,sort_timestamp FROM SessionTable WHERE (");
    reveal_strlit(")>(0,'') ORDER BY ");
    reveal_strlit(" LIMIT 128");
    reveal_strlit(
        "EXPLAIN QUERY PLAN SELECT username,sort_timestamp FROM SessionTable WHERE (sort_timestamp,username)>(0,'') ORDER BY sort_timestamp,username LIMIT 128",
    );
    assert(plan_question()
        =~= "EXPLAIN QUERY PLAN SELECT username,sort_timestamp FROM SessionTable WHERE ("@
        + session_keys() + ")>(0,'') ORDER BY "@ + session_keys() + " LIMIT 128"@);
    reveal_strlit("SELECT EXISTS(SELECT 1 FROM sqlite_master WHERE type='table' AND name=?1)");
    reveal_strlit("SELECT EXISTS(SELECT 1 FROM sqlite_master WHERE ");
    reveal_strlit("type='table'");
    reveal_strlit(" AND ");
    reveal_strlit("name=?1");
    reveal_strlit(")");
    reveal_strlit("SELECT name FROM pragma_index_list('SessionTable')");
    reveal_strlit("SELECT name FROM ");
    reveal_strlit("pragma_index_list('SessionTable')");
    reveal_strlit("SELECT name FROM pragma_index_info(?1) ORDER BY seqno");
    reveal_strlit("pragma_index_info(?1)");
    reveal_strlit(" ORDER BY seqno");
}

} // verus!

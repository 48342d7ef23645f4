//! Bounded reads of the source, and the import of what they find.
use imcp_wechat::backend::Backend;
use imcp_wechat::content::{Message, MessageContent};
use imcp_wechat::import::{
    ColumnKind, HistoryFault, ImportAsk, ImportEvent, ImportNext, ImportStep,
};
use imcp_wechat::index::{Index, OpenNext, OpenStep};
use imcp_wechat::json::Json;
use imcp_wechat::source::{
    index_columns_sql, is_shard_name, read_source_connection, require_range_search, resume,
    resume_pins, session_indexes_sql, session_plan_sql, table_exists_sql, Cell, DbFault, Encoded,
    HistorySnapshot, IndexColumns, MessagePosition, MessageTable, PageRead, PageRow, PinAsk,
    PinEvent, PinStep, ReadAsk, ReadEvent, ReadNext, ReadStep, SourceMessage, WechatDb,
};
use imcp_wechat::sql::{Answer, SqlValue, Statement};
use rusqlite::types::{Value, ValueRef};
use rusqlite::{params_from_iter, Connection};

fn source() -> WechatDb {
    WechatDb {
        shards: vec![Some("message_0.db".to_owned()), None, Some("message_1.db".to_owned())],
        has_data_dir: true,
        has_account_dir: true,
    }
}

fn bound(values: &[SqlValue]) -> Vec<Value> {
    values
        .iter()
        .map(|v| match v {
            SqlValue::Int(n) => Value::Integer(*n),
            SqlValue::Text(t) => Value::Text(t.clone()),
        })
        .collect()
}

fn plan(c: &Connection, sql: &str, values: &[SqlValue]) -> Vec<String> {
    let mut stmt = c.prepare(sql).unwrap();
    let rows = stmt.query_map(params_from_iter(bound(values)), |r| r.get(3)).unwrap();
    rows.map(|r| r.unwrap()).collect()
}

fn table_of(talker: &str) -> String {
    format!("Msg_{talker}")
}

fn find_table(c: &Connection, talker: &str) -> Option<MessageTable> {
    let name = table_of(talker);
    let there: bool = c.query_row(table_exists_sql(), [&name], |r| r.get(0)).unwrap();
    if !there {
        return None;
    }
    let has = |column: &str| -> bool {
        c.query_row(
            "SELECT EXISTS(SELECT 1 FROM pragma_table_info(?1) WHERE name=?2)",
            [name.as_str(), column],
            |r| r.get(0),
        )
        .unwrap()
    };
    Some(MessageTable {
        content_type: has("WCDB_CT_message_content"),
        compressed: has("compress_content"),
        name,
    })
}

fn cell(v: ValueRef<'_>) -> Cell {
    match v {
        ValueRef::Blob(b) | ValueRef::Text(b) => Cell::Bytes(b.to_vec()),
        _ => Cell::Other,
    }
}

fn rows(c: &Connection, sql: &str, values: &[SqlValue]) -> Vec<PageRow> {
    let mut stmt = c.prepare(sql).unwrap();
    let rows = stmt
        .query_map(params_from_iter(bound(values)), |r| {
            Ok(PageRow {
                position: MessagePosition {
                    sort_seq: r.get(0)?,
                    create_time: r.get(1)?,
                    server_id: r.get(2)?,
                    local_id: r.get(3)?,
                },
                local_type: r.get(4)?,
                sender: r.get(5)?,
                content: cell(r.get_ref(6)?),
                packed: cell(r.get_ref(7)?),
                status: r.get(8)?,
                content_type: r.get(9)?,
                compressed: cell(r.get_ref(10)?),
                rowid: r.get(11)?,
            })
        })
        .unwrap();
    rows.map(|r| r.unwrap()).collect()
}

fn decode(row: Encoded) -> Message {
    Message {
        sort_seq: row.position.sort_seq,
        server_id: row.position.server_id,
        msg_type: row.local_type,
        sub_type: 0,
        sender: row.sender,
        talker: row.talker,
        create_time: row.position.create_time,
        content: MessageContent::Text(String::from_utf8(row.content).unwrap()),
        detail: Json::Null,
        status: row.status,
    }
}

/// Hands the rows of one read out one by one.
struct Reader<'a> {
    c: &'a Connection,
    rows: Vec<PageRow>,
}

impl<'a> Reader<'a> {
    fn answer(&mut self, ask: ReadAsk) -> ReadEvent {
        match ask {
            ReadAsk::FindTable { talker, .. } => ReadEvent::Table(find_table(self.c, &talker)),
            ReadAsk::Explain { sql, values, .. } => ReadEvent::Plan(plan(self.c, &sql, &values)),
            ReadAsk::FirstRow { read, .. } => {
                self.rows = rows(self.c, read.sql(), read.values());
                self.rows.reverse();
                ReadEvent::Row(self.rows.pop())
            }
            ReadAsk::NextRow => ReadEvent::Row(self.rows.pop()),
            ReadAsk::Decode { row } => {
                assert!(row.packed.is_none() && row.compressed.is_none());
                ReadEvent::Message(decode(row))
            }
        }
    }
}

fn read(c: &Connection, page: Result<PageRead, DbFault>) -> Result<(Vec<SourceMessage>, i64), DbFault> {
    let mut reader = Reader { c, rows: Vec::new() };
    let mut step = read_source_connection(page?);
    loop {
        match step {
            ReadStep::Ask { ask, next } => step = resume(next, reader.answer(ask)),
            ReadStep::Done(out, last) => return Ok((out, last)),
            ReadStep::Refused(f) => return Err(f),
        }
    }
}

fn shard(talker: &str) -> Connection {
    let c = Connection::open_in_memory().unwrap();
    let table = table_of(talker);
    c.execute_batch(&format!(
        "CREATE TABLE Timestamp(timestamp INTEGER); INSERT INTO Timestamp VALUES(1);
         CREATE TABLE Name2Id(user_name TEXT); INSERT INTO Name2Id VALUES('wxid_alice');
         CREATE TABLE [{table}](local_id INTEGER PRIMARY KEY,sort_seq INTEGER,create_time INTEGER,server_id INTEGER,local_type INTEGER,real_sender_id INTEGER,message_content BLOB,packed_info_data BLOB,status INTEGER);
         INSERT INTO [{table}] VALUES(2,10,1,100,1,1,X'6869',NULL,0),(7,10,1,101,1,1,X'6869',NULL,0),(20,1,1,102,1,1,X'6869',NULL,0);"
    ))
    .unwrap();
    c.execute_batch(&format!(
        "ALTER TABLE [{table}] ADD COLUMN compress_content BLOB; UPDATE [{table}] SET packed_info_data='',compress_content='';"
    ))
    .unwrap();
    c
}

#[test]
fn history_pages_do_not_need_sort_index() {
    let c = shard("wxid_alice");
    let db = source();
    let start = MessagePosition::default();
    assert!(read(&c, db.source_page("message_0.db", "wxid_alice", &start, 2)).is_err());
    let (first, cursor) =
        read(&c, db.history_page("message_0.db", "wxid_alice", i64::MIN, 2)).unwrap();
    assert_eq!(first.len(), 2);
    assert_eq!(cursor, 7);
    let (last, cursor) =
        read(&c, db.history_page("message_0.db", "wxid_alice", cursor, 2)).unwrap();
    assert_eq!(last.len(), 1);
    assert_eq!(last[0].position.local_id, 20);
    assert_eq!(cursor, 20);
    assert!(read(&c, db.history_page("message_0.db", "wxid_alice", cursor, 2)).unwrap().0.is_empty());
}

#[test]
fn rejects_scan_accepts_range() {
    let c = Connection::open_in_memory().unwrap();
    c.execute_batch("CREATE TABLE SessionTable(username TEXT,sort_timestamp INTEGER)").unwrap();
    let sql = "SELECT username,sort_timestamp FROM SessionTable WHERE (sort_timestamp,username)>(?1,?2) ORDER BY sort_timestamp,username LIMIT 100";
    let explain = format!("EXPLAIN QUERY PLAN {sql}");
    let values = [SqlValue::Int(0), SqlValue::Text(String::new())];
    assert!(require_range_search(&plan(&c, &explain, &values)).is_err());
    c.execute_batch("CREATE INDEX session_range ON SessionTable(sort_timestamp,username)").unwrap();
    assert!(require_range_search(&plan(&c, &explain, &values)).is_ok());
}

#[test]
fn an_index_of_positions_serves_pages_by_position() {
    let c = shard("wxid_alice");
    c.execute_batch("CREATE INDEX positions ON [Msg_wxid_alice](sort_seq,create_time,server_id,local_id)")
        .unwrap();
    let start = MessagePosition::default();
    let (page, _) = read(&c, source().source_page("message_0.db", "wxid_alice", &start, 2)).unwrap();
    let order: Vec<i64> = page.iter().map(|m| m.position.local_id).collect();
    assert_eq!(order, [20, 2]);
    let (rest, _) =
        read(&c, source().source_page("message_0.db", "wxid_alice", &page[1].position, 2)).unwrap();
    assert_eq!(rest.len(), 1);
    assert_eq!(rest[0].position.local_id, 7);
    assert_eq!(rest[0].shard_id, "message_0.db");
    assert_eq!(rest[0].message.sender, "wxid_alice");
}

#[test]
fn conversations_without_a_table_are_empty() {
    let c = shard("wxid_alice");
    let (page, last) = read(&c, source().history_page("message_0.db", "bob", 5, 2)).unwrap();
    assert!(page.is_empty());
    assert_eq!(last, 5);
}

#[test]
fn shard_names_stay_inside_their_directory() {
    let db = source();
    for bad in ["message_0", "x.db", "message_/../a.db", "message_\\a.db", "contact.db"] {
        assert!(matches!(db.history_page(bad, "t", 0, 1), Err(DbFault::NotFound(_))));
    }
    assert!(db.history_page("message_0.db", "t", 0, 1).is_ok());
    let outside = WechatDb { shards: Vec::new(), has_data_dir: false, has_account_dir: false };
    assert!(matches!(outside.history_page("message_0.db", "t", 0, 1), Err(DbFault::NoShards)));
    assert!(matches!(outside.history_snapshots(), PinStep::Refused(DbFault::NoShards)));
    assert!(is_shard_name("message_12.db"));
    assert!(!is_shard_name("message_.db"));
    assert!(!is_shard_name("message_1x.db"));
    assert!(!is_shard_name("message_1.db-wal"));
    assert!(!is_shard_name("biz_message_1.db"));
}

/// Pins the shards among those files, and says what was asked on the way.
fn pinned(db: &WechatDb, names: &[&str]) -> (Vec<HistorySnapshot>, Vec<String>) {
    let mut asked: Vec<String> = Vec::new();
    let mut step = db.history_snapshots();
    loop {
        match step {
            PinStep::Ask { ask: PinAsk::ListFiles, next } => {
                let names = names.iter().map(|s| s.to_string()).collect();
                step = resume_pins(next, PinEvent::Files(names));
            }
            PinStep::Ask { ask: PinAsk::Pin { shard, handle, begin, read }, next } => {
                asked.push(format!("{handle} {shard}: {begin}; {read}"));
                step = resume_pins(next, PinEvent::Pinned);
            }
            PinStep::Done(snapshots) => return (snapshots, asked),
            PinStep::Refused(_) => panic!("refused"),
        }
    }
}

#[test]
fn snapshots_are_taken_of_shards_only() {
    let names = ["message_0.db", "message_0.db-wal", "message_fts.db", "message_10.db"];
    let (snapshots, asked) = pinned(&source(), &names);
    assert_eq!(
        asked,
        [
            "0 message_0.db: BEGIN; SELECT rootpage FROM sqlite_master LIMIT 1",
            "1 message_10.db: BEGIN; SELECT rootpage FROM sqlite_master LIMIT 1",
        ]
    );
    let taken: Vec<&str> = snapshots.iter().map(|s| s.shard_id()).collect();
    assert_eq!(taken, ["message_0.db", "message_10.db"]);
    let c = shard("wxid_alice");
    let (page, last) = read(&c, Ok(snapshots[0].page("wxid_alice", 2, 600))).unwrap();
    assert_eq!(page.len(), 2);
    assert_eq!(last, 20);
    assert_eq!(source().source_shards(), ["message_0.db", "message_1.db"]);
    let (none, _) = pinned(&source(), &["contact.db"]);
    assert!(none.is_empty());
}

#[test]
fn reads_of_a_snapshot_stay_in_it() {
    let (snapshots, _) = pinned(&source(), &["message_0.db", "message_1.db"]);
    let page = snapshots[1].page("c", 5, 128);
    assert_eq!(page.snapshot, Some(1));
    assert_eq!(page.history, Some(5));
    assert_eq!(page.shard, "message_1.db");
    assert_eq!(source().history_page("message_1.db", "c", 5, 128).unwrap().snapshot, None);
    let next = match read_source_connection(page) {
        ReadStep::Ask { ask: ReadAsk::FindTable { shard, snapshot, .. }, next } => {
            assert_eq!((shard.as_str(), snapshot), ("message_1.db", Some(1)));
            next
        }
        _ => panic!("not looked for"),
    };
    let table = MessageTable { name: "t".to_owned(), content_type: true, compressed: true };
    let next = match resume(next, ReadEvent::Table(Some(table))) {
        ReadStep::Ask { ask: ReadAsk::Explain { snapshot, .. }, next } => {
            assert_eq!(snapshot, Some(1));
            next
        }
        _ => panic!("not explained"),
    };
    let plan = vec!["SEARCH m USING INTEGER PRIMARY KEY (rowid>?)".to_owned()];
    match resume(next, ReadEvent::Plan(plan)) {
        ReadStep::Ask { ask: ReadAsk::FirstRow { snapshot, .. }, .. } => {
            assert_eq!(snapshot, Some(1));
        }
        _ => panic!("not read"),
    }
}

#[test]
fn page_sizes_are_kept_between_bounds() {
    let db = source();
    assert_eq!(db.history_page("message_0.db", "t", 0, 0).unwrap().cap, 1);
    assert_eq!(db.history_page("message_0.db", "t", 0, 128).unwrap().cap, 128);
    assert_eq!(db.history_page("message_0.db", "t", 0, 9999).unwrap().cap, 512);
}

#[test]
fn session_reads_are_explained_before_they_run() {
    let c = Connection::open_in_memory().unwrap();
    c.execute_batch("CREATE TABLE SessionTable(username TEXT,sort_timestamp INTEGER)").unwrap();
    c.execute_batch("INSERT INTO SessionTable VALUES('a',5),('b',6)").unwrap();
    let search = source().session_changes_page(5, "a", 0);
    let steps = plan(&c, &search.explanation(), search.values());
    assert!(matches!(search.approve(&steps), Err(DbFault::NoRangeIndex(t)) if t == "incompatible_source_index: bounded range index required"));
    c.execute_batch("CREATE INDEX session_range ON SessionTable(sort_timestamp,username)").unwrap();
    let search = source().session_changes_page(5, "a", 0);
    let steps = plan(&c, &search.explanation(), search.values());
    let approved = search.approve(&steps).unwrap();
    let mut stmt = c.prepare(approved.sql()).unwrap();
    let found: Vec<String> = stmt
        .query_map(params_from_iter(bound(approved.values())), |r| r.get(0))
        .unwrap()
        .map(|r| r.unwrap())
        .collect();
    assert_eq!(found, ["b"]);
}

#[test]
fn session_indexes_are_described() {
    let c = Connection::open_in_memory().unwrap();
    c.execute_batch(
        "CREATE TABLE SessionTable(username TEXT,sort_timestamp INTEGER);
         CREATE INDEX session_range ON SessionTable(sort_timestamp,username)",
    )
    .unwrap();
    let mut stmt = c.prepare(session_indexes_sql()).unwrap();
    let names: Vec<String> = stmt.query_map([], |r| r.get(0)).unwrap().map(|r| r.unwrap()).collect();
    let indexes: Vec<IndexColumns> = names
        .into_iter()
        .map(|name| {
            let mut columns = c.prepare(index_columns_sql()).unwrap();
            let columns = columns.query_map([&name], |r| r.get(0)).unwrap().map(|r| r.unwrap()).collect();
            IndexColumns { name, columns }
        })
        .collect();
    let steps = plan(&c, session_plan_sql(), &[]);
    let lines = source().session_index_diagnostics(&indexes, &steps);
    assert_eq!(lines[0], "index session_range: sort_timestamp,username");
    assert_eq!(lines.len(), 1 + steps.len());
    assert!(lines[1].contains("SEARCH"));
}

// ------------------------------------------------------------------- import

fn importer() -> Backend {
    let next = OpenNext::Stored { account: "a".to_owned(), secret: vec![7; 32] };
    let mut b = Backend::new();
    b.index = match Index::opening(next, Vec::new()) {
        OpenStep::Done(Ok(index)) => Some(index),
        _ => panic!("not open"),
    };
    b.source = Some(source());
    b.has_import_work = true;
    b
}

fn pending(b: &mut Backend, answer: Option<(&str, &str, &str)>) -> ImportStep {
    let next = match b.import_batch() {
        ImportStep::Ask { ask: ImportAsk::Statements { script, atomic }, next } => {
            assert_eq!(script.len(), 1);
            assert!(!atomic);
            next
        }
        _ => panic!("nothing asked"),
    };
    let answer = answer.map(|(c, s, p)| (c.to_owned(), s.to_owned(), p.to_owned()));
    b.importing(next, ImportEvent::Answers { answers: vec![Answer::Import(answer)] })
}

fn import(b: &mut Backend, c: &Connection, position: &str) -> (Vec<Statement>, bool) {
    let mut reader = Reader { c, rows: Vec::new() };
    let mut step = pending(b, Some(("wxid_alice", "message_0.db", position)));
    loop {
        match step {
            ImportStep::Ask { ask: ImportAsk::Read { ask }, next } => {
                let event = reader.answer(ask);
                step = b.importing(next, ImportEvent::Read { event });
            }
            ImportStep::Ask { ask: ImportAsk::Statements { script, atomic }, next } => {
                assert!(matches!(
                    b.importing(next, ImportEvent::Answers { answers: Vec::new() }),
                    ImportStep::Done(Ok(()))
                ));
                return (script, atomic);
            }
            ImportStep::Done(_) => panic!("nothing filed"),
        }
    }
}

fn shown(v: &SqlValue) -> String {
    match v {
        SqlValue::Int(n) => format!("{n}"),
        SqlValue::Text(t) => t.clone(),
    }
}

#[test]
fn a_page_is_filed_with_the_place_to_go_on_from() {
    let c = shard("wxid_alice");
    let mut b = importer();
    let (script, atomic) = import(&mut b, &c, "-9223372036854775808");
    assert!(atomic);
    assert_eq!(script.len(), 3 * 2 + 2);
    assert_eq!(shown(&script[0].values()[0]), "wxid_alice:100");
    let place: Vec<String> = script[6].values().iter().map(shown).collect();
    assert_eq!(place, ["wxid_alice", "message_0.db", "20", "1"]);
    assert!(script[7].sql().starts_with("UPDATE conversations SET state='ready'"));
    assert!(b.has_import_work);
}

#[test]
fn a_full_page_is_not_the_last() {
    let c = shard("wxid_alice");
    for n in 100..300 {
        c.execute_batch(&format!(
            "INSERT INTO [Msg_wxid_alice] VALUES({n},1,1,{n},1,1,X'6869',NULL,0,NULL)"
        ))
        .unwrap();
    }
    let (script, _) = import(&mut importer(), &c, "0");
    assert_eq!(script.len(), 128 * 2 + 2);
    assert_eq!(shown(&script[256].values()[3]), "0");
    assert_eq!(shown(&script[256].values()[2]), "224");
}

#[test]
fn nothing_pending_ends_the_work() {
    let mut b = importer();
    assert!(matches!(pending(&mut b, None), ImportStep::Done(Ok(()))));
    assert!(!b.has_import_work);
    assert!(matches!(b.import_batch(), ImportStep::Done(Ok(()))));
}

#[test]
fn a_place_that_is_no_number_is_refused() {
    match pending(&mut importer(), Some(("c", "message_0.db", "x"))) {
        ImportStep::Done(Err(f)) => assert_eq!(f.message(), "invalid digit found in string"),
        _ => panic!("went on"),
    }
    for (place, words) in [
        ("", "cannot parse integer from empty string"),
        ("9223372036854775808", "number too large to fit in target type"),
        ("-9223372036854775809", "number too small to fit in target type"),
    ] {
        match pending(&mut importer(), Some(("c", "message_0.db", place))) {
            ImportStep::Done(Err(f)) => assert_eq!(f.message(), words),
            _ => panic!("went on"),
        }
    }
}

fn failure(fault: HistoryFault) -> String {
    let mut b = importer();
    let next = match pending(&mut b, Some(("c", "message_0.db", "0"))) {
        ImportStep::Ask { next, .. } => next,
        ImportStep::Done(_) => panic!("done"),
    };
    state(b.importing(next, ImportEvent::Failed { fault }))
}

fn state(step: ImportStep) -> String {
    match step {
        ImportStep::Ask { ask: ImportAsk::Statements { script, .. }, .. } => {
            assert_eq!(script.len(), 1);
            assert_eq!(script[0].sql(), "UPDATE conversations SET state=?2 WHERE id=?1");
            shown(&script[0].values()[1])
        }
        _ => panic!("nothing noted"),
    }
}

#[test]
fn failures_are_noted_by_their_kind() {
    let column = HistoryFault::ColumnType { column: 4, kind: ColumnKind::Text };
    assert_eq!(failure(column), "history_column_type_error:4:Text");
    let column = HistoryFault::ColumnType { column: 0, kind: ColumnKind::Null };
    assert_eq!(failure(column), "history_column_type_error:0:Null");
    assert_eq!(failure(HistoryFault::Sql), "history_sql_error");
    assert_eq!(failure(HistoryFault::RangeIndex), "history_range_index_missing");
    assert_eq!(failure(HistoryFault::Decode), "history_decode_error");
    assert_eq!(failure(HistoryFault::Key), "history_key_error");
    assert_eq!(failure(HistoryFault::Other), "history_read_failed");
    let step = pending(&mut importer(), Some(("c", "../x", "0")));
    assert_eq!(state(step), "history_read_failed");
}

#[test]
fn a_scan_of_history_is_noted_and_not_run() {
    let mut b = importer();
    let next = ImportNext::Reading {
        conversation: "c".to_owned(),
        shard: "message_0.db".to_owned(),
        next: match read_source_connection(source().history_page("message_0.db", "c", 0, 1).unwrap()) {
            ReadStep::Ask { next, .. } => next,
            _ => panic!("nothing asked"),
        },
    };
    let table = MessageTable { name: "t".to_owned(), content_type: true, compressed: false };
    let event = ImportEvent::Read { event: ReadEvent::Table(Some(table)) };
    let next = match b.importing(next, event) {
        ImportStep::Ask { ask: ImportAsk::Read { ask: ReadAsk::Explain { sql, .. } }, next } => {
            assert!(sql.contains("m.WCDB_CT_message_content,NULL,m.rowid FROM [t] m"));
            next
        }
        _ => panic!("not explained"),
    };
    let event = ImportEvent::Read { event: ReadEvent::Plan(vec!["SCAN m".to_owned()]) };
    assert_eq!(state(b.importing(next, event)), "history_range_index_missing");
}

#[test]
fn reads_refuse_answers_that_do_not_fit() {
    let page = source().history_page("message_0.db", "c", 0, 1).unwrap();
    let next = ReadNext::Table { read: page };
    assert!(matches!(resume(next, ReadEvent::Row(None)), ReadStep::Refused(DbFault::NotFound(_))));
}

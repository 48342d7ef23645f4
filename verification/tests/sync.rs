//! The sync by hand, with shards in files and the archive in memory.
use imcp_wechat::backend::{Ask, Backend, BackendStep, Event};
use imcp_wechat::content::{Message, MessageContent};
use imcp_wechat::fault::Fault;
use imcp_wechat::import::HistoryFault;
use imcp_wechat::index::{Index, OpenStep};
use imcp_wechat::json::Json;
use imcp_wechat::source::{
    table_exists_sql, Cell, MessagePosition, MessageTable, PageRow, PinAsk, PinEvent, ReadAsk,
    ReadEvent, WechatDb,
};
use imcp_wechat::sql::{Answer, Shape, SqlValue, Statement};
use imcp_wechat::sync::{SyncAsk, SyncEvent};
use rusqlite::types::Value;
use rusqlite::{params_from_iter, Connection, OptionalExtension};
use tempfile::TempDir;

fn bound(values: &[SqlValue]) -> Vec<Value> {
    values
        .iter()
        .map(|v| match v {
            SqlValue::Int(n) => Value::Integer(*n),
            SqlValue::Text(t) => Value::Text(t.clone()),
        })
        .collect()
}

fn run(db: &Connection, s: &Statement) -> Answer {
    let sql = s.sql();
    let values = params_from_iter(bound(&s.values()));
    match s.shape() {
        Shape::Batch => {
            db.execute_batch(&sql).unwrap();
            Answer::Done
        }
        Shape::Changed => Answer::Changed(db.execute(&sql, values).unwrap() as u64),
        Shape::MaybeText => {
            Answer::MaybeText(db.query_row(&sql, values, |r| r.get(0)).optional().unwrap())
        }
        Shape::Texts => {
            let mut stmt = db.prepare(&sql).unwrap();
            let rows = stmt.query_map(values, |r| r.get(0)).unwrap();
            Answer::Texts(rows.map(|r| r.unwrap()).collect())
        }
        _ => panic!("not needed here"),
    }
}

/// The archive, the shards, and what was done to them.
struct World {
    archive: Connection,
    dir: TempDir,
    shards: Vec<&'static str>,
    pins: Vec<Connection>,
    rows: Vec<PageRow>,
    /// How many messages were decoded.
    decoded: usize,
    /// How many pages were filed, each with its place.
    pages: usize,
    dropped: bool,
    /// What to do to the first shard once all are pinned.
    meanwhile: Option<String>,
    /// The snapshot whose read fails.
    broken: Option<usize>,
}

impl World {
    fn shard(&self, name: &str) -> Connection {
        Connection::open(self.dir.path().join(name)).unwrap()
    }

    fn add(&self, shard: &str, talker: &str, rows: std::ops::Range<i64>) {
        let c = self.shard(shard);
        c.execute_batch("BEGIN").unwrap();
        c.execute_batch(&format!(
            "CREATE TABLE IF NOT EXISTS [Msg_{talker}](local_id INTEGER PRIMARY KEY,sort_seq INTEGER,create_time INTEGER,server_id INTEGER,local_type INTEGER,real_sender_id INTEGER,message_content BLOB,packed_info_data BLOB,status INTEGER)"
        ))
        .unwrap();
        for n in rows {
            c.execute_batch(&format!(
                "INSERT INTO [Msg_{talker}] VALUES({n},{n},{n},{n},1,1,X'6869',NULL,0)"
            ))
            .unwrap();
        }
        c.execute_batch("COMMIT").unwrap();
    }

    fn texts(&self, sql: &str) -> Vec<String> {
        let mut stmt = self.archive.prepare(sql).unwrap();
        let rows = stmt.query_map([], |r| r.get(0)).unwrap();
        rows.map(|r| r.unwrap()).collect()
    }

    fn pin(&mut self, ask: PinAsk) -> PinEvent {
        match ask {
            PinAsk::ListFiles => {
                PinEvent::Files(self.shards.iter().map(|s| s.to_string()).collect())
            }
            PinAsk::Pin { shard, handle, begin, read } => {
                assert_eq!(handle, self.pins.len());
                let c = self.shard(&shard);
                c.execute_batch(&begin).unwrap();
                c.query_row(&read, [], |_| Ok(())).unwrap();
                self.pins.push(c);
                PinEvent::Pinned
            }
        }
    }

    fn read(&mut self, ask: ReadAsk) -> ReadEvent {
        match ask {
            ReadAsk::FindTable { talker, snapshot, .. } => {
                let c = &self.pins[snapshot.unwrap()];
                let name = format!("Msg_{talker}");
                let there: bool = c.query_row(table_exists_sql(), [&name], |r| r.get(0)).unwrap();
                ReadEvent::Table(if there {
                    Some(MessageTable { name, content_type: false, compressed: false })
                } else {
                    None
                })
            }
            ReadAsk::Explain { sql, values, snapshot } => {
                let mut stmt = self.pins[snapshot.unwrap()].prepare(&sql).unwrap();
                let rows = stmt.query_map(params_from_iter(bound(&values)), |r| r.get(3)).unwrap();
                ReadEvent::Plan(rows.map(|r| r.unwrap()).collect())
            }
            ReadAsk::FirstRow { read, snapshot } => {
                let mut stmt = self.pins[snapshot.unwrap()].prepare(read.sql()).unwrap();
                let rows = stmt
                    .query_map(params_from_iter(bound(read.values())), |r| {
                        Ok(PageRow {
                            position: MessagePosition {
                                sort_seq: r.get(0)?,
                                create_time: r.get(1)?,
                                server_id: r.get(2)?,
                                local_id: r.get(3)?,
                            },
                            local_type: r.get(4)?,
                            sender: r.get(5)?,
                            content: Cell::Other,
                            packed: Cell::Other,
                            status: r.get(8)?,
                            content_type: r.get(9)?,
                            compressed: Cell::Other,
                            rowid: r.get(11)?,
                        })
                    })
                    .unwrap();
                self.rows = rows.map(|r| r.unwrap()).collect();
                self.rows.reverse();
                ReadEvent::Row(self.rows.pop())
            }
            ReadAsk::NextRow => ReadEvent::Row(self.rows.pop()),
            ReadAsk::Decode { row } => {
                self.decoded += 1;
                ReadEvent::Message(Message {
                    sort_seq: row.position.sort_seq,
                    server_id: row.position.server_id,
                    msg_type: row.local_type,
                    sub_type: 0,
                    sender: row.sender,
                    talker: row.talker,
                    create_time: row.position.create_time,
                    content: MessageContent::Text("hi".to_owned()),
                    detail: Json::Null,
                    status: row.status,
                })
            }
        }
    }

    fn perform(&mut self, ask: Ask) -> Event {
        match ask {
            Ask::Statements { script, atomic } => {
                if script[0].sql().starts_with("SELECT id FROM conversations") {
                    if let Some(sql) = self.meanwhile.take() {
                        self.shard("message_0.db").execute_batch(&sql).unwrap();
                    }
                }
                if atomic {
                    self.pages += 1;
                    self.archive.execute_batch("BEGIN").unwrap();
                }
                let answers = script.iter().map(|s| run(&self.archive, s)).collect();
                if atomic {
                    self.archive.execute_batch("COMMIT").unwrap();
                }
                Event::Answers { answers }
            }
            Ask::Sync { ask } => Event::Sync {
                event: match ask {
                    SyncAsk::Statements { .. } => panic!("asked for elsewhere"),
                    SyncAsk::Pin { ask } => SyncEvent::Pin { event: self.pin(ask) },
                    SyncAsk::Read { ask: ReadAsk::FirstRow { snapshot, .. } }
                        if snapshot == self.broken && snapshot.is_some() =>
                    {
                        SyncEvent::Failed { fault: HistoryFault::Sql }
                    }
                    SyncAsk::Read { ask } => SyncEvent::Read { event: self.read(ask) },
                    SyncAsk::Release => {
                        self.pins.clear();
                        self.dropped = true;
                        SyncEvent::Released
                    }
                },
            },
            _ => panic!("not needed here"),
        }
    }

    fn sync(&mut self, b: &mut Backend) -> Result<Json, Fault> {
        self.decoded = 0;
        self.pages = 0;
        self.dropped = false;
        let mut step = b.request("sync", &Json::Null);
        loop {
            match step {
                BackendStep::Ask { ask, stage } => {
                    let event = self.perform(ask);
                    step = b.resume(stage, event);
                }
                BackendStep::Done(r) => {
                    assert!(self.dropped && self.pins.is_empty());
                    return r;
                }
            }
        }
    }
}

/// Two shards, and an archive in which the conversations are enabled.
fn world(conversations: &[&str]) -> (World, Backend) {
    let archive = Connection::open_in_memory().unwrap();
    let mut step = Index::open("me");
    let index = loop {
        match step {
            OpenStep::Ask { script, next } => {
                step = Index::opening(next, script.iter().map(|s| run(&archive, s)).collect());
            }
            OpenStep::Done(r) => break r.unwrap(),
        }
    };
    for id in conversations {
        for s in index.grant(id, id) {
            run(&archive, &s);
        }
    }
    let w = World {
        archive,
        dir: tempfile::tempdir().unwrap(),
        shards: vec!["message_0.db", "message_1.db", "message_0.db-wal"],
        pins: Vec::new(),
        rows: Vec::new(),
        decoded: 0,
        pages: 0,
        dropped: false,
        meanwhile: None,
        broken: None,
    };
    for shard in ["message_0.db", "message_1.db"] {
        let c = w.shard(shard);
        c.query_row("PRAGMA journal_mode=WAL", [], |_| Ok(())).unwrap();
        c.execute_batch("CREATE TABLE Name2Id(user_name TEXT); INSERT INTO Name2Id VALUES('wxid_a')")
            .unwrap();
    }
    let mut b = Backend::new();
    b.index = Some(index);
    b.source = Some(WechatDb { shards: Vec::new(), has_data_dir: true, has_account_dir: true });
    (w, b)
}

fn refusal(r: Result<Json, Fault>) -> String {
    match r {
        Ok(_) => panic!("answered"),
        Err(f) => f.message(),
    }
}

#[test]
fn a_sync_adds_what_is_new() {
    let (mut w, mut b) = world(&["c", "d"]);
    w.add("message_0.db", "c", 1..4);
    w.add("message_1.db", "c", 10..12);
    w.add("message_1.db", "d", 20..21);
    let r = w.sync(&mut b).unwrap();
    assert_eq!(r.flag_at("ok"), Some(true));
    let first = ["c:1", "c:2", "c:3", "c:10", "c:11", "d:20"];
    assert_eq!(w.texts("SELECT id FROM messages ORDER BY seq"), first);
    assert_eq!(w.decoded, 6);
    assert_eq!(w.pages, 4);
    assert_eq!(w.texts("SELECT state FROM conversations"), ["ready", "ready"]);
    assert_eq!(
        w.texts("SELECT conversation||' '||shard||' '||position||' '||done FROM import_positions"),
        [
            "c message_0.db 3 1",
            "c message_1.db 11 1",
            "d message_0.db -9223372036854775808 1",
            "d message_1.db 20 1",
        ]
    );
    // Nothing is new.
    w.sync(&mut b).unwrap();
    assert_eq!(w.decoded, 0);
    assert_eq!(w.texts("SELECT id FROM messages ORDER BY seq"), first);
    // Only what was appended is read and filed, behind what is there.
    w.add("message_0.db", "c", 4..6);
    w.add("message_0.db", "d", 1..2);
    w.sync(&mut b).unwrap();
    assert_eq!(w.decoded, 3);
    assert_eq!(
        w.texts("SELECT id FROM messages ORDER BY seq")[6..],
        ["c:4", "c:5", "d:1"]
    );
    assert_eq!(
        w.texts("SELECT position FROM import_positions WHERE shard='message_0.db' ORDER BY conversation"),
        ["5", "1"]
    );
}

#[test]
fn a_sync_sees_what_was_there_when_it_began() {
    let (mut w, mut b) = world(&["c"]);
    w.add("message_0.db", "c", 1..3);
    w.meanwhile =
        Some("INSERT INTO [Msg_c] VALUES(3,3,3,3,1,1,X'6869',NULL,0)".to_owned());
    w.sync(&mut b).unwrap();
    assert_eq!(w.texts("SELECT id FROM messages ORDER BY seq"), ["c:1", "c:2"]);
    w.sync(&mut b).unwrap();
    assert_eq!(w.texts("SELECT id FROM messages ORDER BY seq"), ["c:1", "c:2", "c:3"]);
}

#[test]
fn a_sync_reads_page_by_page() {
    let (mut w, mut b) = world(&["c"]);
    w.add("message_0.db", "c", 1..301);
    w.add("message_1.db", "c", 1001..1129);
    w.sync(&mut b).unwrap();
    assert_eq!(w.decoded, 428);
    // Three pages of the first shard; a full one and an empty one of the second.
    assert_eq!(w.pages, 5);
    assert_eq!(w.texts("SELECT id FROM messages ORDER BY seq").len(), 428);
    assert_eq!(w.texts("SELECT position FROM import_positions"), ["300", "1128"]);
}

#[test]
fn a_sync_keeps_what_was_observed_first() {
    let (mut w, mut b) = world(&["c"]);
    w.add("message_0.db", "c", 1..2);
    w.sync(&mut b).unwrap();
    let before = w.texts("SELECT data FROM messages");
    // Another row with the number of a message that is known.
    w.shard("message_0.db")
        .execute_batch("INSERT INTO [Msg_c] VALUES(9,9,9,1,1,1,X'6868',NULL,0)")
        .unwrap();
    w.sync(&mut b).unwrap();
    assert_eq!(w.decoded, 1);
    assert_eq!(w.texts("SELECT data FROM messages"), before);
    assert_eq!(w.texts("SELECT position FROM import_positions WHERE shard='message_0.db'"), ["9"]);
}

#[test]
fn withdrawn_conversations_are_not_synced() {
    let (mut w, mut b) = world(&["c", "d"]);
    w.add("message_0.db", "c", 1..2);
    w.add("message_0.db", "d", 2..3);
    w.archive.execute_batch("UPDATE conversations SET enabled=0 WHERE id='c'").unwrap();
    w.sync(&mut b).unwrap();
    assert_eq!(w.texts("SELECT id FROM messages ORDER BY seq"), ["d:2"]);
}

#[test]
fn a_sync_that_fails_keeps_what_it_filed() {
    let (mut w, mut b) = world(&["c"]);
    w.add("message_0.db", "c", 1..3);
    w.add("message_1.db", "c", 10..12);
    w.broken = Some(1);
    assert_eq!(refusal(w.sync(&mut b)), "history_sql_error");
    assert_eq!(w.texts("SELECT id FROM messages ORDER BY seq"), ["c:1", "c:2"]);
    assert_eq!(w.texts("SELECT position FROM import_positions"), ["2", "-9223372036854775808"]);
    assert_eq!(w.texts("SELECT state FROM conversations"), ["indexing"]);
    w.broken = None;
    w.sync(&mut b).unwrap();
    assert_eq!(w.decoded, 2);
    assert_eq!(w.texts("SELECT id FROM messages ORDER BY seq"), ["c:1", "c:2", "c:10", "c:11"]);
    assert_eq!(w.texts("SELECT state FROM conversations"), ["ready"]);
}

#[test]
fn a_sync_needs_a_source_and_a_place() {
    let (mut w, mut b) = world(&["c"]);
    w.add("message_0.db", "c", 1..3);
    w.archive
        .execute_batch("INSERT INTO import_positions VALUES('c','message_0.db','x',0)")
        .unwrap();
    assert_eq!(refusal(w.sync(&mut b)), "invalid digit found in string");
    assert!(w.texts("SELECT id FROM messages ORDER BY seq").is_empty());
    b.source = Some(WechatDb { shards: Vec::new(), has_data_dir: false, has_account_dir: true });
    assert_eq!(refusal(w.sync(&mut b)), "history_read_failed");
    b.source = None;
    match b.request("sync", &Json::Null) {
        BackendStep::Done(Err(f)) => assert_eq!(f.message(), "source_unavailable"),
        _ => panic!("began"),
    }
    let mut unopened = Backend::new();
    match unopened.request("sync", &Json::Null) {
        BackendStep::Done(Err(f)) => assert_eq!(f.message(), "setup_required"),
        _ => panic!("began"),
    }
}

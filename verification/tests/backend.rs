//! Requests to the backend, with what happens outside played by the test.
use imcp_wechat::backend::{
    Ask, Backend, BackendStep, Contact, Entry, Event, RoomMember, SessionTable, Stage,
};
use imcp_wechat::fault::Fault;
use imcp_wechat::json::{object_of, put, str_json, text, Field, Json};
use imcp_wechat::media::{MediaAsk, MediaEvent};
use imcp_wechat::source::{IndexColumns, WechatDb};
use imcp_wechat::sql::{Answer, ConversationRow, Shape, SqlValue, Statement};
use rusqlite::types::Value;
use rusqlite::{params_from_iter, Connection, OptionalExtension};

const KEY: &str = "000102030405060708090a0b0c0d0e0f101112131415161718191a1b1c1d1e1f";

/// What lies outside the backend, and what was done to it.
struct World {
    db: Connection,
    asked: Vec<&'static str>,
    source: bool,
    range_index: bool,
    removed: Vec<usize>,
    keys: Vec<Option<Vec<u8>>>,
}

fn world() -> World {
    World {
        db: Connection::open_in_memory().unwrap(),
        asked: Vec::new(),
        source: true,
        range_index: true,
        removed: Vec::new(),
        keys: Vec::new(),
    }
}

fn bound(s: &Statement) -> Vec<Value> {
    s.values()
        .into_iter()
        .map(|v| match v {
            SqlValue::Int(n) => Value::Integer(n),
            SqlValue::Text(t) => Value::Text(t),
        })
        .collect()
}

fn run(db: &Connection, s: &Statement) -> Answer {
    let sql = s.sql();
    let values = params_from_iter(bound(s));
    match s.shape() {
        Shape::Batch => {
            db.execute_batch(&sql).unwrap();
            Answer::Done
        }
        Shape::Changed => Answer::Changed(db.execute(&sql, values).unwrap() as u64),
        Shape::MaybeText => {
            Answer::MaybeText(db.query_row(&sql, values, |r| r.get(0)).optional().unwrap())
        }
        Shape::Number => Answer::Number(db.query_row(&sql, values, |r| r.get(0)).unwrap()),
        Shape::Texts => {
            let mut stmt = db.prepare(&sql).unwrap();
            let rows = stmt.query_map(values, |r| r.get(0)).unwrap();
            Answer::Texts(rows.map(|r| r.unwrap()).collect())
        }
        Shape::Conversations => {
            let mut stmt = db.prepare(&sql).unwrap();
            let rows = stmt
                .query_map(values, |r| {
                    Ok(ConversationRow {
                        id: r.get(0)?,
                        name: r.get(1)?,
                        state: r.get(2)?,
                        enabled: r.get(3)?,
                    })
                })
                .unwrap();
            Answer::Conversations(rows.map(|r| r.unwrap()).collect())
        }
        Shape::Home => Answer::Home(
            db.query_row(&sql, values, |r| Ok((r.get(0)?, r.get(1)?))).optional().unwrap(),
        ),
        _ => panic!("not needed here"),
    }
}

fn owned(v: &[&str]) -> Vec<String> {
    v.iter().map(|s| s.to_string()).collect()
}

impl World {
    fn perform(&mut self, ask: Ask) -> Event {
        match ask {
            Ask::Statements { script, .. } => {
                Event::Answers { answers: script.iter().map(|s| run(&self.db, s)).collect() }
            }
            Ask::DeriveImageKey { uin, account } => {
                assert_eq!((uin.as_str(), account.as_str()), ("123", "me"));
                self.asked.push("key");
                Event::ImageKey { key: vec![1; 16] }
            }
            Ask::ListAssets { archive } => {
                assert_eq!(archive, "/a/index.db");
                let entry = |name: &str, file: bool| Entry { name: name.to_owned(), file };
                Event::Assets {
                    entries: vec![
                        entry("asset-1.jpg", true),
                        entry("asset-dir", false),
                        entry("other", true),
                        entry("asset-2", true),
                    ],
                }
            }
            Ask::RemoveAssets { which } => {
                self.removed = which;
                Event::Done
            }
            Ask::OpenArchive { archive } => {
                assert_eq!(archive, "/a/index.db");
                self.asked.push("open");
                Event::Done
            }
            Ask::ProtectArchive => {
                self.asked.push("protect");
                Event::Done
            }
            Ask::FindStorage { data_root } => {
                assert_eq!(data_root, "/data");
                Event::Storage { nested: true }
            }
            Ask::OpenSource { data_root, nested, key } => {
                assert_eq!(data_root, "/data");
                assert!(nested);
                assert_eq!(key, (0..32).collect::<Vec<u8>>());
                Event::Source {
                    db: if self.source {
                        Some(WechatDb {
                            shards: vec![Some("message_0.db".to_owned()), None],
                            has_data_dir: true,
                            has_account_dir: true,
                        })
                    } else {
                        None
                    },
                }
            }
            Ask::DescribeSessions => Event::Sessions {
                table: Some(SessionTable {
                    indexes: vec![IndexColumns {
                        name: "i".to_owned(),
                        columns: owned(&["x", "y"]),
                    }],
                    plan: owned(&["SEARCH SessionTable"]),
                }),
            },
            Ask::ExplainSessions { sql, values } => {
                assert!(sql.starts_with("EXPLAIN QUERY PLAN SELECT username,sort_timestamp"));
                assert_eq!(values.len(), 3);
                let step = if self.range_index {
                    "SEARCH SessionTable USING COVERING INDEX i"
                } else {
                    "SCAN SessionTable"
                };
                Event::SessionPlan { plan: Some(owned(&[step])) }
            }
            Ask::ReadSessions { .. } => {
                self.asked.push("sessions");
                Event::SessionsRead { ok: true }
            }
            Ask::MeasureArchive => Event::Sizes { archive: 4096, log: 100 },
            Ask::FindContacts { keyword, limit } => {
                assert_eq!((keyword.as_str(), limit), ("zo", 200));
                let contact = |user: &str, remark: &str| Contact {
                    user_name: user.to_owned(),
                    remark: remark.to_owned(),
                    nick_name: "nick".to_owned(),
                };
                Event::Contacts { contacts: vec![contact("u1", "Zoe"), contact("u2", "")] }
            }
            Ask::FindRooms { username } => {
                assert_eq!(username, "g");
                let member = |user: &str, name: Option<&str>| RoomMember {
                    user_name: user.to_owned(),
                    display_name: name.map(|n| n.to_owned()),
                };
                Event::Rooms {
                    rooms: Some(vec![
                        vec![member("m1", Some("One")), member("m2", None)],
                        vec![member("m3", Some("Three"))],
                    ]),
                }
            }
            Ask::Media { ask } => match ask {
                MediaAsk::FindImage { .. } => Event::Media { event: MediaEvent::Image { found: true } },
                MediaAsk::Locate => Event::Media {
                    event: MediaEvent::Located { root: Vec::new(), path: Vec::new() },
                },
                MediaAsk::Load { .. } => {
                    Event::Media { event: MediaEvent::Loaded { data: vec![9, 9] } }
                }
                MediaAsk::Decrypt { data, key } => {
                    self.keys.push(key);
                    Event::Media { event: MediaEvent::Decrypted { data, ext: "png".to_owned() } }
                }
                MediaAsk::ListDatabases => Event::Media { event: MediaEvent::Databases { count: 1 } },
                MediaAsk::TryVoice { .. } => {
                    Event::Media { event: MediaEvent::Voice { data: Some(vec![1, 2, 3]) } }
                }
                MediaAsk::Keep { .. } => {
                    Event::Media { event: MediaEvent::Kept { path: "/a/asset-9.silk".to_owned() } }
                }
                _ => panic!("not needed here"),
            },
            Ask::Sync { .. } => panic!("not needed here"),
        }
    }

    fn request(&mut self, b: &mut Backend, method: &str, p: &Json) -> Result<Json, Fault> {
        let mut step = b.request(method, p);
        loop {
            match step {
                BackendStep::Ask { ask, stage } => {
                    let event = self.perform(ask);
                    step = b.resume(stage, event);
                }
                BackendStep::Done(r) => return r,
            }
        }
    }

    fn rows(&self, sql: &str) -> Vec<String> {
        let mut stmt = self.db.prepare(sql).unwrap();
        let rows = stmt.query_map([], |r| r.get(0)).unwrap();
        rows.map(|r| r.unwrap()).collect()
    }
}

fn object(members: Vec<(&str, Json)>) -> Json {
    let mut o: Vec<Field> = Vec::new();
    for (name, value) in members {
        put(&mut o, name, value);
    }
    object_of(o)
}

fn items_of<'a>(j: &'a Json, name: &str) -> &'a Vec<Json> {
    j.items_at(name).unwrap()
}

fn setup() -> Json {
    object(vec![
        ("data_root", str_json("/data")),
        ("key", str_json(KEY)),
        ("account", str_json("me")),
        ("index_path", str_json("/a/index.db")),
    ])
}

fn with(mut members: Vec<(&str, Json)>) -> Json {
    let mut all = vec![
        ("data_root", str_json("/data")),
        ("key", str_json(KEY)),
        ("account", str_json("me")),
        ("index_path", str_json("/a/index.db")),
    ];
    all.retain(|(name, _)| members.iter().all(|(other, _)| name != other));
    all.append(&mut members);
    object(all)
}

fn ready() -> (World, Backend) {
    let mut w = world();
    let mut b = Backend::new();
    w.request(&mut b, "initialize", &setup()).unwrap();
    (w, b)
}

fn refusal(r: Result<Json, Fault>) -> String {
    match r {
        Ok(_) => panic!("answered"),
        Err(f) => f.message(),
    }
}

fn file(w: &World, id: &str, time: i64, data: &str) {
    w.db.execute(
        "INSERT INTO messages(id,conversation,member,time,sort_seq,type,body,fts_body,data) VALUES(?1,'g','m',?2,0,'text','','',?3)",
        (id, time, data),
    )
    .unwrap();
}

#[test]
fn set_up_opens_everything_and_shows_the_state() {
    let mut w = world();
    let mut b = Backend::new();
    let p = with(vec![
        ("image_uin", str_json("123")),
        ("image_config_unavailable", Json::Bool(true)),
    ]);
    let r = w.request(&mut b, "initialize", &p).unwrap();
    assert_eq!(w.asked, ["key", "open", "protect", "sessions"]);
    assert_eq!(w.removed, [0, 3]);
    assert_eq!(r.flag_at("source_available"), Some(true));
    assert_eq!(r.flag_at("image_key_configured"), Some(true));
    assert_eq!(r.flag_at("image_config_unavailable"), Some(true));
    assert_eq!(r.flag_at("live_sync_ready"), Some(false));
    assert_eq!(
        text(&r, "compatibility"),
        "live_sync_unverified: session timestamp and shard routing are not a durable change log"
    );
    assert_eq!(r.unsigned_at("index_bytes"), Some(4196));
    assert_eq!(r.signed_at("quota_bytes"), Some(5368709120));
    assert_eq!(r.flag_at("quota_warning"), Some(false));
    assert_eq!(text(&r, "archive_semantics"), "first_observed");
    assert!(items_of(&r, "conversations").is_empty());
    let lines: Vec<&str> =
        items_of(&r, "session_index_diagnostics").iter().map(|j| j.as_str().unwrap().as_str()).collect();
    assert_eq!(lines, ["index i: x,y", "SEARCH SessionTable"]);
    assert!(b.has_import_work);
    assert_eq!(w.rows("SELECT key FROM settings ORDER BY key"), [
        "account",
        "cursor_key",
        "generation",
        "history_rowid_v1",
        "quota"
    ]);
}

#[test]
fn a_source_that_cannot_be_opened_is_told() {
    let mut w = world();
    w.source = false;
    let mut b = Backend::new();
    let r = w.request(&mut b, "initialize", &setup()).unwrap();
    assert_eq!(r.flag_at("source_available"), Some(false));
    assert_eq!(text(&r, "compatibility"), "source_unavailable_or_invalid_key");
    assert!(!b.has_import_work);
    assert!(b.image_key.is_none());
    assert_eq!(refusal(w.request(&mut b, "local_discover", &Json::Null)), "source_unavailable");
    assert_eq!(refusal(w.request(&mut b, "local_grant", &Json::Null)), "source_unavailable");
    assert_eq!(refusal(w.request(&mut b, "sync", &Json::Null)), "source_unavailable");
}

#[test]
fn sessions_without_a_range_index_are_told() {
    let mut w = world();
    w.range_index = false;
    let mut b = Backend::new();
    let r = w.request(&mut b, "initialize", &setup()).unwrap();
    assert_eq!(text(&r, "compatibility"), "incompatible_session_range_index");
    assert_eq!(r.flag_at("source_available"), Some(true));
    assert!(!w.asked.contains(&"sessions"));
}

#[test]
fn a_session_table_that_cannot_be_described_is_told() {
    let mut b = Backend::new();
    let db = WechatDb { shards: Vec::new(), has_data_dir: true, has_account_dir: true };
    let step = b.resume(Stage::Sessions { db }, Event::Sessions { table: None });
    assert_eq!(b.session_diagnostics, ["schema_diagnostic_failed"]);
    assert!(matches!(step, BackendStep::Ask { ask: Ask::ExplainSessions { .. }, .. }));
}

#[test]
fn unsound_set_up_is_refused() {
    let mut w = world();
    let mut b = Backend::new();
    let mut init = |p: Json| refusal(w.request(&mut b, "initialize", &p));
    assert_eq!(init(with(vec![("key", str_json("xx"))])), "invalid_key");
    assert_eq!(init(with(vec![("key", str_json("abc"))])), "invalid_key");
    assert_eq!(init(with(vec![("key", str_json("ab"))])), "invalid_key_length");
    assert_eq!(init(with(vec![("account", str_json(""))])), "account_required");
    assert_eq!(init(with(vec![("image_uin", str_json("12a"))])), "invalid_image_config");
    let long = "1".repeat(33);
    assert_eq!(init(with(vec![("image_uin", str_json(&long))])), "invalid_image_config");
    assert_eq!(refusal(w.request(&mut b, "status", &Json::Null)), "setup_required");
    assert_eq!(refusal(w.request(&mut b, "nothing", &Json::Null)), "setup_required");
}

#[test]
fn imports_are_restarted_once() {
    let (mut w, mut b) = ready();
    w.db.execute_batch(
        "INSERT INTO conversations VALUES('c','C',1,'incompatible_message_index');
         INSERT INTO conversations VALUES('d','D',1,'history_column_type_error:4:Text');
         INSERT INTO conversations VALUES('r','R',1,'ready');
         INSERT INTO import_positions VALUES('c','s','9',1);
         INSERT INTO import_positions VALUES('r','s','7',1);
         DELETE FROM settings WHERE key='history_rowid_v1'",
    )
    .unwrap();
    file(&w, "g:1", 1, "{}");
    w.request(&mut b, "initialize", &setup()).unwrap();
    assert_eq!(w.rows("SELECT state FROM conversations ORDER BY id"), ["indexing", "indexing", "ready"]);
    assert_eq!(
        w.rows("SELECT position FROM import_positions ORDER BY conversation"),
        ["-9223372036854775808", "7"]
    );
    assert_eq!(w.rows("SELECT CAST(done AS TEXT) FROM import_positions ORDER BY conversation"), ["0", "1"]);
    assert_eq!(w.rows("SELECT id FROM messages"), ["g:1"]);
    w.db.execute_batch("UPDATE conversations SET state='incompatible_message_index'").unwrap();
    w.request(&mut b, "initialize", &setup()).unwrap();
    assert_eq!(w.rows("SELECT DISTINCT state FROM conversations"), ["incompatible_message_index"]);
}

#[test]
fn allowing_a_conversation_begins_its_import() {
    let (mut w, mut b) = ready();
    b.has_import_work = false;
    let p = object(vec![("conversation_id", str_json("g")), ("name", str_json("群"))]);
    let r = w.request(&mut b, "local_grant", &p).unwrap();
    assert_eq!(r.flag_at("approved"), Some(true));
    assert_eq!(text(&r, "conversation_id"), "g");
    assert_eq!(text(&r, "state"), "indexing");
    assert!(b.has_import_work);
    assert_eq!(w.rows("SELECT shard FROM import_positions"), ["message_0.db"]);
    assert_eq!(w.rows("SELECT position FROM import_positions"), ["-9223372036854775808"]);
    assert_eq!(w.rows("SELECT name FROM members ORDER BY id"), ["One", "m2", "Three"]);
    assert_eq!(w.rows("SELECT value FROM settings WHERE key='generation'"), ["1"]);
    let nobody = object(vec![("name", str_json("群"))]);
    assert_eq!(refusal(w.request(&mut b, "local_grant", &nobody)), "conversation_required");
    let found = w.request(&mut b, "find_conversations", &object(vec![("query", str_json("群"))]));
    assert_eq!(items_of(&found.unwrap(), "items").len(), 1);
    let p = object(vec![("conversation_id", str_json("g"))]);
    let r = w.request(&mut b, "local_revoke", &p).unwrap();
    assert_eq!(r.flag_at("ok"), Some(true));
    assert_eq!(w.rows("SELECT value FROM settings WHERE key='generation'"), ["2"]);
    assert_eq!(items_of(&w.request(&mut b, "local_list", &Json::Null).unwrap(), "items").len(), 1);
    let p = object(vec![("conversation_id", str_json("g")), ("delete", Json::Bool(true))]);
    w.request(&mut b, "local_revoke", &p).unwrap();
    assert!(items_of(&w.request(&mut b, "local_list", &Json::Null).unwrap(), "items").is_empty());
}

#[test]
fn contacts_are_shown_under_the_owners_name_for_them() {
    let (mut w, mut b) = ready();
    let r = w.request(&mut b, "local_discover", &object(vec![("query", str_json("zo"))])).unwrap();
    let items = items_of(&r, "items");
    assert_eq!(text(&items[0], "name"), "Zoe");
    assert_eq!(text(&items[1], "name"), "nick");
    assert_eq!(text(&items[1], "conversation_id"), "u2");
}

#[test]
fn quotas_have_a_least_size() {
    let (mut w, mut b) = ready();
    let mut quota = |n: Json| w.request(&mut b, "local_quota", &object(vec![("bytes", n)]));
    assert_eq!(refusal(quota(Json::Int(1024 * 1024 - 1))), "invalid_quota");
    assert_eq!(refusal(quota(Json::Uint(u64::MAX))), "invalid_quota");
    assert_eq!(refusal(quota(Json::Null)), "invalid_quota");
    assert_eq!(quota(Json::Int(1024 * 1024)).unwrap().flag_at("ok"), Some(true));
    assert_eq!(w.rows("SELECT value FROM settings WHERE key='quota'"), ["1048576"]);
    w.db.execute_batch("UPDATE settings SET value='10' WHERE key='quota'").unwrap();
    let r = w.request(&mut b, "status", &Json::Null).unwrap();
    assert_eq!(r.flag_at("quota_warning"), Some(true));
    w.db.execute_batch("UPDATE settings SET value='-1' WHERE key='quota'").unwrap();
    let r = w.request(&mut b, "status", &Json::Null).unwrap();
    assert_eq!(r.flag_at("quota_warning"), Some(false));
}

#[test]
fn context_is_shown_in_the_order_of_writing() {
    let (mut w, mut b) = ready();
    w.db.execute_batch("INSERT INTO conversations VALUES('g','G',1,'ready')").unwrap();
    for n in 1..8 {
        let data = format!("{{\"message_id\":\"g:{n}\",\"create_time\":{n}}}");
        file(&w, &format!("g:{n}"), n, &data);
    }
    let p = object(vec![("message_id", str_json("g:4")), ("context", Json::Int(2))]);
    let r = w.request(&mut b, "get_message_context", &p).unwrap();
    let shown: Vec<String> = items_of(&r, "items").iter().map(|m| text(m, "message_id")).collect();
    assert_eq!(shown, ["g:2", "g:3", "g:4", "g:5"]);
    let shown = |r: Json| -> Vec<String> {
        items_of(&r, "items").iter().map(|m| text(m, "message_id")).collect()
    };
    let p = object(vec![("message_id", str_json("g:1")), ("context", Json::Int(3))]);
    assert_eq!(shown(w.request(&mut b, "get_message_context", &p).unwrap()), ["g:1", "g:2", "g:3"]);
    let p = object(vec![("message_id", str_json("g:7")), ("context", Json::Int(3))]);
    let r = w.request(&mut b, "get_message_context", &p).unwrap();
    assert_eq!(shown(r), ["g:4", "g:5", "g:6", "g:7"]);
    // Of one time, the identifier decides.
    for id in ["g:5b", "g:5a"] {
        file(&w, id, 5, &format!("{{\"message_id\":\"{id}\",\"create_time\":5}}"));
    }
    let p = object(vec![("message_id", str_json("g:5a")), ("context", Json::Int(2))]);
    let r = w.request(&mut b, "get_message_context", &p).unwrap();
    assert_eq!(shown(r), ["g:4", "g:5", "g:5a", "g:5b"]);
    let p = object(vec![("message_id", str_json("g:4")), ("context", Json::Int(-5))]);
    let r = w.request(&mut b, "get_message_context", &p).unwrap();
    assert_eq!(items_of(&r, "items").len(), 2);
    let p = object(vec![("message_id", str_json("nothing"))]);
    assert_eq!(refusal(w.request(&mut b, "get_message_context", &p)), "message_unavailable");
    w.db.execute_batch("UPDATE conversations SET enabled=0").unwrap();
    let p = object(vec![("message_id", str_json("g:4"))]);
    assert_eq!(refusal(w.request(&mut b, "get_message_context", &p)), "message_unavailable");
    assert_eq!(refusal(w.request(&mut b, "authorize_message", &p)), "message_unavailable");
}

#[test]
fn media_are_served_of_enabled_conversations() {
    let (mut w, mut b) = ready();
    w.db.execute_batch("INSERT INTO conversations VALUES('g','G',1,'ready')").unwrap();
    file(&w, "g:1", 1, "{\"message_id\":\"g:1\",\"type\":\"voice\",\"source\":{\"server_id\":5}}");
    file(&w, "g:2", 2, "{");
    let p = object(vec![("message_id", str_json("g:1"))]);
    let r = w.request(&mut b, "authorize_message", &p).unwrap();
    assert_eq!(r.flag_at("authorized"), Some(true));
    let r = w.request(&mut b, "get_media", &p).unwrap();
    assert_eq!(text(&r, "path"), "/a/asset-9.silk");
    assert_eq!(r.unsigned_at("size"), Some(3));
    b.source = None;
    assert_eq!(refusal(w.request(&mut b, "get_media", &p)), "source_unavailable");
    let broken = object(vec![("message_id", str_json("g:2"))]);
    assert_eq!(
        refusal(w.request(&mut b, "authorize_message", &broken)),
        "EOF while parsing an object at line 1 column 1"
    );
}

#[test]
fn images_are_decrypted_with_the_key_of_the_account() {
    let mut w = world();
    let mut b = Backend::new();
    w.request(&mut b, "initialize", &with(vec![("image_uin", str_json("123"))])).unwrap();
    w.db.execute_batch("INSERT INTO conversations VALUES('g','G',1,'ready')").unwrap();
    file(
        &w,
        "g:1",
        1,
        "{\"type\":\"image\",\"conversation_id\":\"g\",\"content\":{\"Image\":{\"md5\":\"d41d\"}}}",
    );
    let p = object(vec![("message_id", str_json("g:1"))]);
    let r = w.request(&mut b, "get_media", &p).unwrap();
    assert_eq!(text(&r, "mime_type"), "image/png");
    assert_eq!(w.keys, [Some(vec![1; 16])]);
    b.image_key = None;
    w.request(&mut b, "get_media", &p).unwrap();
    assert_eq!(w.keys, [Some(vec![1; 16]), None]);
}

#[test]
fn what_is_not_served_is_refused() {
    let (mut w, mut b) = ready();
    assert_eq!(refusal(w.request(&mut b, "sync_all", &Json::Null)), "unknown_method");
    let p = object(vec![("conversation", str_json("g"))]);
    for method in ["get_messages", "search_messages", "get_updates", "list_members"] {
        assert_eq!(refusal(w.request(&mut b, method, &p)), "conversation_unavailable");
    }
    match b.resume(Stage::Contacts, Event::Done) {
        BackendStep::Done(Err(f)) => assert_eq!(f.message(), "unexpected_answer"),
        _ => panic!("went on"),
    }
}

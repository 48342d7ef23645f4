//! The archive, run against a database in memory.
use imcp_wechat::backend::Backend;
use imcp_wechat::content::{Message, MessageContent};
use imcp_wechat::fault::Fault;
use imcp_wechat::import::ImportStep;
use imcp_wechat::index::{Index, OpenNext, OpenStep, Step};
use imcp_wechat::json::{list_of, object_of, put, str_json, text, Field, Json};
use imcp_wechat::source::{MessagePosition, SourceMessage};
use imcp_wechat::sql::{Answer, ConversationRow, MessageRow, Shape, SqlValue, Statement};
use rusqlite::types::Value;
use rusqlite::{params_from_iter, Connection, OptionalExtension};

fn bound(s: &Statement) -> Vec<Value> {
    s.values()
        .into_iter()
        .map(|v| match v {
            SqlValue::Int(n) => Value::Integer(n),
            SqlValue::Text(t) => Value::Text(t),
        })
        .collect()
}

fn run(db: &Connection, s: &Statement) -> Answer {
    let sql = s.sql();
    let values = params_from_iter(bound(s));
    match s.shape() {
        Shape::Batch => {
            db.execute_batch(&sql).unwrap();
            Answer::Done
        }
        Shape::Changed => Answer::Changed(db.execute(&sql, values).unwrap() as u64),
        Shape::Text => Answer::Text(db.query_row(&sql, values, |r| r.get(0)).unwrap()),
        Shape::MaybeText => {
            Answer::MaybeText(db.query_row(&sql, values, |r| r.get(0)).optional().unwrap())
        }
        Shape::Number => Answer::Number(db.query_row(&sql, values, |r| r.get(0)).unwrap()),
        Shape::Texts => {
            let mut stmt = db.prepare(&sql).unwrap();
            let rows = stmt.query_map(values, |r| r.get(0)).unwrap();
            Answer::Texts(rows.map(|r| r.unwrap()).collect())
        }
        Shape::Conversations => {
            let mut stmt = db.prepare(&sql).unwrap();
            let rows = stmt
                .query_map(values, |r| {
                    Ok(ConversationRow {
                        id: r.get(0)?,
                        name: r.get(1)?,
                        state: r.get(2)?,
                        enabled: r.get(3)?,
                    })
                })
                .unwrap();
            Answer::Conversations(rows.map(|r| r.unwrap()).collect())
        }
        Shape::Messages => {
            let mut stmt = db.prepare(&sql).unwrap();
            let rows = stmt
                .query_map(values, |r| {
                    Ok(MessageRow {
                        data: r.get(0)?,
                        time: r.get(1)?,
                        id: r.get(2)?,
                        seq: r.get(3)?,
                    })
                })
                .unwrap();
            Answer::Messages(rows.map(|r| r.unwrap()).collect())
        }
        Shape::Home => Answer::Home(
            db.query_row(&sql, values, |r| Ok((r.get(0)?, r.get(1)?))).optional().unwrap(),
        ),
        Shape::Import => Answer::Import(
            db.query_row(&sql, values, |r| Ok((r.get(0)?, r.get(1)?, r.get(2)?)))
                .optional()
                .unwrap(),
        ),
    }
}

fn run_all(db: &Connection, script: &[Statement]) -> Vec<Answer> {
    script.iter().map(|s| run(db, s)).collect()
}

struct Store {
    db: Connection,
    index: Index,
}

fn open(db: &Connection, account: &str) -> Result<Index, Fault> {
    let mut step = Index::open(account);
    loop {
        match step {
            OpenStep::Ask { script, next } => step = Index::opening(next, run_all(db, &script)),
            OpenStep::Done(r) => return r,
        }
    }
}

fn store(account: &str) -> Store {
    let db = Connection::open_in_memory().unwrap();
    let index = open(&db, account).unwrap();
    Store { db, index }
}

impl Store {
    fn finish(&self, mut step: Step) -> Result<Json, Fault> {
        loop {
            match step {
                Step::Ask { script, next } => {
                    step = self.index.resume(next, run_all(&self.db, &script))
                }
                Step::Done(r) => return r,
            }
        }
    }
    fn grant(&self, id: &str, name: &str) {
        run_all(&self.db, &self.index.grant(id, name));
    }
    fn revoke(&self, id: &str, delete: bool) {
        run_all(&self.db, &self.index.revoke(id, delete));
    }
    fn query(&self, p: &Json, updates: bool) -> Result<Json, Fault> {
        self.finish(self.index.query(p, updates))
    }
    fn members(&self, p: &Json) -> Result<Json, Fault> {
        self.finish(self.index.members(p))
    }
    fn list(&self, q: &str, local: bool) -> Result<Json, Fault> {
        self.finish(self.index.list(q, local))
    }
    fn insert(&self, m: &SourceMessage) -> bool {
        let answers = run_all(&self.db, &self.index.insert(m));
        self.index.inserted(&answers)
    }
    fn exec(&self, sql: &str) {
        self.db.execute(sql, []).unwrap();
    }
}

fn fixture() -> Store {
    let s = store("a");
    s.grant("g", "群");
    s.exec("UPDATE conversations SET state='ready'");
    s
}

fn message(id: i64, member: &str, content: MessageContent, detail: Json) -> SourceMessage {
    SourceMessage {
        position: MessagePosition { local_id: id, ..Default::default() },
        shard_id: "message_0.db".to_owned(),
        message: Message {
            sort_seq: id,
            server_id: id,
            msg_type: 1,
            sub_type: 0,
            sender: member.to_owned(),
            talker: "g".to_owned(),
            create_time: 1700000000 + id,
            content,
            detail,
            status: 0,
        },
    }
}

fn add(s: &Store, id: i64, member: &str, content: MessageContent) {
    assert!(s.insert(&message(id, member, content, Json::Null)));
}

fn words(s: &str) -> MessageContent {
    MessageContent::Text(s.to_owned())
}

fn object(members: Vec<(&str, Json)>) -> Json {
    let mut o: Vec<Field> = Vec::new();
    for (name, value) in members {
        put(&mut o, name, value);
    }
    object_of(o)
}

fn strings(items: &[&str]) -> Json {
    list_of(items.iter().map(|s| str_json(s)).collect())
}

fn items(j: &Json) -> &Vec<Json> {
    j.items_at("items").unwrap()
}

fn cursor(j: &Json) -> Json {
    j.get("next_cursor").unwrap().copy()
}

fn refusal(r: Result<Json, Fault>) -> String {
    match r {
        Ok(_) => panic!("answered"),
        Err(f) => f.message(),
    }
}

fn ids(j: &Json) -> Vec<String> {
    items(j).iter().map(|m| text(m, "message_id")).collect()
}

#[test]
fn combined_filters_and_revocation() {
    let i = fixture();
    add(&i, 1, "a", words("博士开会"));
    add(&i, 2, "b", words("博士开会"));
    add(&i, 3, "a", MessageContent::Image { md5: None });
    let p = object(vec![
        ("conversation", str_json("群")),
        ("members", strings(&["a"])),
        ("types", strings(&["text", "file"])),
        ("keyword", str_json("博士")),
        ("start", str_json("2023-11-14T22:13:20Z")),
        ("end", str_json("2023-11-14T22:13:23Z")),
    ]);
    assert_eq!(items(&i.query(&p, false).unwrap()).len(), 1);
    i.revoke("g", false);
    assert!(i.query(&p, false).is_err());
    assert!(items(&i.list("", false).unwrap()).is_empty());
}

#[test]
fn stable_pages_and_scope_bound_cursor() {
    let i = fixture();
    for id in 1..5 {
        add(&i, id, "a", words("x"));
    }
    let p = object(vec![
        ("conversation", str_json("g")),
        ("limit", Json::Int(2)),
    ]);
    let r = i.query(&p, false).unwrap();
    add(&i, 5, "a", words("later"));
    let p = object(vec![
        ("conversation", str_json("g")),
        ("limit", Json::Int(2)),
        ("cursor", cursor(&r)),
    ]);
    let r2 = i.query(&p, false).unwrap();
    assert_eq!(text(&items(&r2)[0], "message_id"), "g:2");
    let p = object(vec![
        ("conversation", str_json("g")),
        ("limit", Json::Int(2)),
        ("cursor", cursor(&r)),
        ("types", strings(&["image"])),
    ]);
    assert!(i.query(&p, false).is_err());
}

#[test]
fn updates_retry_does_not_consume() {
    let i = fixture();
    add(&i, 1, "a", words("x"));
    let p = object(vec![("conversation", str_json("g"))]);
    let first = imcp_wechat::frame::write_frame(&i.query(&p, true).unwrap()).unwrap();
    let again = imcp_wechat::frame::write_frame(&i.query(&p, true).unwrap()).unwrap();
    assert_eq!(first, again);
    let r = i.query(&p, true).unwrap();
    let next = object(vec![
        ("conversation", str_json("g")),
        ("cursor", cursor(&r)),
    ]);
    assert!(items(&i.query(&next, true).unwrap()).is_empty());
}

#[test]
fn forged_and_cross_account_cursors_rejected() {
    let i = fixture();
    add(&i, 1, "a", words("x"));
    let p = object(vec![("conversation", str_json("g"))]);
    let r = i.query(&p, false).unwrap();
    let mut c = text(&r, "next_cursor");
    c.push('0');
    let p = object(vec![
        ("conversation", str_json("g")),
        ("cursor", str_json(&c)),
    ]);
    assert!(i.query(&p, false).is_err());
}

#[test]
fn idle_import_does_not_read_archive() {
    let i = fixture();
    // Without the table of positions any question about imports would fail.
    i.exec("DROP TABLE import_positions");
    let mut backend = Backend::new();
    backend.index = Some(i.index);
    for _ in 0..10_000 {
        assert!(matches!(backend.import_batch(), ImportStep::Done(Ok(()))));
    }
    assert!(!backend.has_import_work);
}

#[test]
fn cursor_rejects_other_account_and_revoked_generation() {
    let i = fixture();
    add(&i, 1, "a", words("hello"));
    let r = i.query(&object(vec![("conversation", str_json("g"))]), true).unwrap();
    let p = object(vec![
        ("conversation", str_json("g")),
        ("cursor", cursor(&r)),
    ]);
    let other = store("other");
    other.grant("g", "群");
    other.exec("UPDATE conversations SET state='ready'");
    assert!(other.query(&p, true).is_err());
    i.revoke("g", false);
    i.grant("g", "群");
    assert!(i.query(&p, true).is_err());
}

#[test]
fn pagination_groups_aliases_and_binds_scope() {
    let idx = store("account");
    idx.grant("group", "Group");
    for n in 0..1001 {
        let id = format!("member_{n:04}");
        for alias in [id.as_str(), "same_name"] {
            idx.db
                .execute(
                    "INSERT INTO members VALUES(?1,?2,?3)",
                    ["group", id.as_str(), alias],
                )
                .unwrap();
        }
    }
    let page = |cursor: Json, query: Json| {
        object(vec![
            ("conversation", str_json("group")),
            ("limit", Json::Int(500)),
            ("cursor", cursor),
            ("query", query),
        ])
    };
    let first = idx.members(&page(Json::Null, Json::Null)).unwrap();
    assert_eq!(items(&first).len(), 500);
    assert_eq!(items(&first)[0].items_at("seen_names").unwrap().len(), 2);
    idx.exec("INSERT INTO members VALUES('group','member_9999','new')");
    let second = idx.members(&page(cursor(&first), Json::Null)).unwrap();
    assert_eq!(text(&items(&second)[0], "member_id"), "member_0500");
    let last = idx.members(&page(cursor(&second), Json::Null)).unwrap();
    assert_eq!(items(&last).len(), 1);
    assert_eq!(last.flag_at("has_more"), Some(false));
    assert!(idx.members(&page(cursor(&second), str_json("changed"))).is_err());
    idx.revoke("group", false);
    assert!(idx.members(&page(cursor(&second), str_json(""))).is_err());
}

#[test]
fn pages_together_are_the_whole() {
    let i = fixture();
    for id in 1..8 {
        add(&i, id, "a", words("x"));
    }
    for order in ["asc", "desc"] {
        let mut all: Vec<String> = Vec::new();
        let mut next = Json::Null;
        loop {
            let p = object(vec![
                ("conversation", str_json("g")),
                ("order", str_json(order)),
                ("limit", Json::Int(3)),
                ("cursor", next),
            ]);
            let r = i.query(&p, false).unwrap();
            all.extend(ids(&r));
            next = cursor(&r);
            if r.flag_at("has_more") == Some(false) {
                break;
            }
        }
        let mut expected: Vec<String> = (1..8).map(|n| format!("g:{n}")).collect();
        if order == "desc" {
            expected.reverse();
        }
        assert_eq!(all, expected);
    }
}

#[test]
fn pages_of_different_sizes_are_the_whole() {
    let i = fixture();
    for id in 1..8 {
        add(&i, id, "a", words("x"));
    }
    let mut all: Vec<String> = Vec::new();
    let mut next = Json::Null;
    for (at, limit) in [1i64, 3, 2, 500].into_iter().enumerate() {
        // A cursor is good wherever it stands in the request.
        let p = object(vec![
            ("cursor", next),
            ("order", str_json("asc")),
            ("limit", Json::Int(limit)),
            ("conversation", str_json("g")),
        ]);
        let r = i.query(&p, false).unwrap();
        all.extend(ids(&r));
        next = cursor(&r);
        // What is filed between pages does not show.
        add(&i, 100 + at as i64, "a", words("later"));
        assert_eq!(r.flag_at("has_more"), Some(at < 3));
    }
    let expected: Vec<String> = (1..8).map(|n| format!("g:{n}")).collect();
    assert_eq!(all, expected);
}

#[test]
fn pages_of_updates_show_what_is_filed_between_them() {
    let i = fixture();
    for id in 1..5 {
        add(&i, id, "a", words("x"));
    }
    let mut all: Vec<String> = Vec::new();
    let mut next = Json::Null;
    for (at, limit) in [2i64, 1, 9, 9].into_iter().enumerate() {
        let p = object(vec![
            ("conversation", str_json("g")),
            ("limit", Json::Int(limit)),
            ("cursor", next),
        ]);
        let r = i.query(&p, true).unwrap();
        all.extend(ids(&r));
        next = cursor(&r);
        if at < 2 {
            add(&i, 10 - at as i64, "a", words("later"));
        }
    }
    assert_eq!(all, ["g:1", "g:2", "g:3", "g:4", "g:10", "g:9"]);
}

#[test]
fn pages_of_members_are_the_whole() {
    let i = fixture();
    for id in ["", "b", "a", "d", "c", "e"] {
        i.db.execute("INSERT INTO members VALUES('g',?1,?1)", [id]).unwrap();
    }
    let mut all: Vec<String> = Vec::new();
    let mut next = Json::Null;
    for limit in [1i64, 3, 9] {
        let p = object(vec![
            ("conversation", str_json("g")),
            ("limit", Json::Int(limit)),
            ("cursor", next),
        ]);
        let r = i.members(&p).unwrap();
        assert!(items(&r).len() <= limit as usize);
        all.extend(items(&r).iter().map(|m| text(m, "member_id")));
        next = cursor(&r);
        assert_eq!(matches!(next, Json::Str(_)), r.flag_at("has_more") == Some(true));
        i.db.execute("INSERT OR IGNORE INTO members VALUES('g','bb','bb')", []).unwrap();
    }
    assert!(matches!(next, Json::Null));
    assert_eq!(all, ["a", "b", "c", "d", "e"]);
}

#[test]
fn cursors_outlive_the_closing_of_an_archive() {
    let i = fixture();
    for id in 1..4 {
        add(&i, id, "a", words("x"));
    }
    let p = object(vec![("conversation", str_json("g")), ("limit", Json::Int(1))]);
    let r = i.query(&p, false).unwrap();
    assert!(open(&i.db, "b").is_err());
    let again = Store { index: open(&i.db, "a").unwrap(), db: i.db };
    let p = object(vec![
        ("conversation", str_json("g")),
        ("limit", Json::Int(1)),
        ("cursor", cursor(&r)),
    ]);
    assert_eq!(ids(&again.query(&p, false).unwrap()), ["g:2"]);
}

#[test]
fn updates_go_on_behind_the_last() {
    let i = fixture();
    add(&i, 1, "a", words("x"));
    add(&i, 2, "a", words("x"));
    let r = i.query(&object(vec![("conversation", str_json("g"))]), true).unwrap();
    assert_eq!(ids(&r), ["g:1", "g:2"]);
    add(&i, 9, "a", words("x"));
    add(&i, 3, "a", words("x"));
    let p = object(vec![
        ("conversation", str_json("g")),
        ("cursor", cursor(&r)),
    ]);
    // As filed, not as written.
    assert_eq!(ids(&i.query(&p, true).unwrap()), ["g:9", "g:3"]);
}

#[test]
fn empty_updates_stay_where_they_are() {
    let i = fixture();
    let r = i.query(&object(vec![("conversation", str_json("g"))]), true).unwrap();
    assert!(items(&r).is_empty());
    let p = object(vec![
        ("conversation", str_json("g")),
        ("cursor", cursor(&r)),
    ]);
    add(&i, 1, "a", words("x"));
    assert_eq!(ids(&i.query(&p, true).unwrap()), ["g:1"]);
    let none = i.query(&object(vec![("conversation", str_json("g")), ("types", strings(&["file"]))]), false);
    assert!(matches!(cursor(&none.unwrap()), Json::Null));
}

#[test]
fn first_observed_is_kept() {
    let i = fixture();
    assert!(i.insert(&message(1, "a", words("first"), Json::Null)));
    assert!(!i.insert(&message(1, "a", MessageContent::Revoke("second".to_owned()), Json::Null)));
    let r = i.query(&object(vec![("conversation", str_json("g"))]), false).unwrap();
    assert_eq!(items(&r).len(), 1);
    assert_eq!(text(&items(&r)[0], "text"), "first");
    assert_eq!(text(&r, "archive_semantics"), "first_observed");
    assert_eq!(text(&r, "index_state"), "ready");
}

#[test]
fn filed_messages_say_where_they_come_from() {
    let i = fixture();
    let detail = object(vec![("Text", str_json("hi"))]);
    i.insert(&message(7, "m", words("hi"), detail));
    let mut unsent = message(8, "m", words("draft"), Json::Null);
    unsent.message.server_id = 0;
    unsent.message.create_time = i64::MAX;
    i.insert(&unsent);
    let r = i.query(&object(vec![("conversation", str_json("g")), ("order", str_json("asc"))]), false);
    let r = r.unwrap();
    let m = &items(&r)[0];
    assert_eq!(text(m, "message_id"), "g:7");
    assert_eq!(text(m, "conversation_id"), "g");
    assert_eq!(text(m, "member_id"), "m");
    assert_eq!(m.signed_at("create_time"), Some(1700000007));
    assert_eq!(text(m, "created_at"), "2023-11-14T22:13:27+00:00");
    assert_eq!(m.signed_at("sort_seq"), Some(7));
    assert_eq!(text(m, "type"), "text");
    assert_eq!(text(m.get("content").unwrap(), "Text"), "hi");
    let place = m.get("source").unwrap();
    assert_eq!(text(place, "shard_id"), "message_0.db");
    assert_eq!(place.signed_at("local_id"), Some(7));
    assert_eq!(place.signed_at("server_id"), Some(7));
    let draft = &items(&r)[1];
    assert_eq!(text(draft, "message_id"), "g:message_0.db:8");
    assert!(matches!(draft.get("created_at"), Some(Json::Null)));
}

#[test]
fn deletion_leaves_nothing_of_a_conversation() {
    let i = fixture();
    add(&i, 1, "a", words("x"));
    i.grant("other", "Other");
    i.revoke("g", true);
    for table in ["messages", "members", "import_positions"] {
        let n: i64 = i
            .db
            .query_row(
                &format!("SELECT COUNT(*) FROM {table} WHERE conversation='g'"),
                [],
                |r| r.get(0),
            )
            .unwrap();
        assert_eq!(n, 0);
    }
    let all = i.list("", true).unwrap();
    assert_eq!(items(&all).len(), 1);
    assert_eq!(text(&items(&all)[0], "conversation_id"), "other");
}

#[test]
fn withdrawn_conversations_are_listed_to_the_owner_only() {
    let i = fixture();
    i.revoke("g", false);
    assert!(items(&i.list("", false).unwrap()).is_empty());
    let all = i.list("群", true).unwrap();
    assert_eq!(items(&all).len(), 1);
    assert_eq!(items(&all)[0].flag_at("enabled"), Some(false));
    assert_eq!(text(&items(&all)[0], "index_state"), "ready");
    assert_eq!(text(&items(&all)[0], "name"), "群");
    assert!(items(&i.list("nowhere", true).unwrap()).is_empty());
}

#[test]
fn conversations_that_are_not_ready_show_their_state() {
    let i = store("a");
    i.grant("g", "G");
    let r = i.query(&object(vec![("conversation", str_json("g"))]), false).unwrap();
    assert_eq!(text(&r, "state"), "indexing");
    assert!(items(&r).is_empty());
}

#[test]
fn names_that_fit_several_are_refused() {
    let i = fixture();
    i.grant("h", "群");
    i.exec("UPDATE conversations SET state='ready'");
    let p = object(vec![("conversation", str_json("群"))]);
    assert_eq!(refusal(i.query(&p, false)), "ambiguous_conversation: [\"g\",\"h\"]");
    assert_eq!(refusal(i.members(&p)), "ambiguous_conversation: [\"g\",\"h\"]");
    let p = object(vec![("conversation", str_json("nobody"))]);
    assert_eq!(refusal(i.query(&p, false)), "conversation_unavailable");
    add(&i, 1, "a", words("x"));
    add(&i, 2, "b", words("x"));
    i.exec("INSERT INTO members VALUES('g','a','same')");
    i.exec("INSERT INTO members VALUES('g','b','same')");
    let p = object(vec![
        ("conversation", str_json("g")),
        ("members", strings(&["same"])),
    ]);
    assert_eq!(refusal(i.query(&p, false)), "ambiguous_member: [\"a\",\"b\"]");
}

#[test]
fn unsound_filters_are_refused() {
    let i = fixture();
    let with = |name: &str, value: Json| {
        object(vec![("conversation", str_json("g")), (name, value)])
    };
    let no_zone = with("start", str_json("2023-11-14T22:13:20"));
    assert_eq!(refusal(i.query(&no_zone, false)), "time_requires_RFC3339_timezone");
    let backwards = object(vec![
        ("conversation", str_json("g")),
        ("start", str_json("2023-11-14T22:13:20Z")),
        ("end", str_json("2023-11-14T23:13:20+01:00")),
    ]);
    assert_eq!(refusal(i.query(&backwards, false)), "invalid_time_range");
    let many: Vec<&str> = vec!["text"; 101];
    assert_eq!(refusal(i.query(&with("types", strings(&many)), false)), "too_many_filters");
    assert_eq!(refusal(i.query(&with("members", strings(&many)), false)), "too_many_filters");
    let number = with("types", list_of(vec![Json::Int(1)]));
    assert_eq!(refusal(i.query(&number, false)), "filter_must_be_string");
    let number = with("members", list_of(vec![Json::Int(1)]));
    assert_eq!(refusal(i.query(&number, false)), "filter_must_be_string");
    let unknown = with("types", strings(&["text", "telegram"]));
    assert_eq!(refusal(i.query(&unknown, false)), "invalid_message_type");
}

#[test]
fn unsound_cursors_are_refused() {
    let i = fixture();
    add(&i, 1, "a", words("x"));
    let p = object(vec![("conversation", str_json("g"))]);
    let good = text(&i.query(&p, false).unwrap(), "next_cursor");
    let with = |c: &str| {
        object(vec![("conversation", str_json("g")), ("cursor", str_json(c))])
    };
    assert!(i.query(&with(&good), false).is_ok());
    assert_eq!(refusal(i.query(&with("nodot"), false)), "invalid_cursor");
    assert_eq!(refusal(i.query(&with("zz.00"), false)), "invalid_cursor");
    let (payload, sig) = good.split_once('.').unwrap();
    let flipped = if sig.starts_with('0') { "1" } else { "0" };
    let forged = format!("{payload}.{flipped}{}", &sig[1..]);
    assert_eq!(refusal(i.query(&with(&forged), false)), "invalid_cursor");
    let p = object(vec![
        ("conversation", str_json("g")),
        ("cursor", str_json(&good)),
        ("order", str_json("asc")),
    ]);
    assert_eq!(refusal(i.query(&p, false)), "cursor_scope_changed");
    assert_eq!(refusal(i.query(&with(&good), true)), "cursor_scope_changed");
}

#[test]
fn limits_are_kept() {
    let i = fixture();
    for id in 1..5 {
        add(&i, id, "a", words("x"));
    }
    let with = |n: Json| object(vec![("conversation", str_json("g")), ("limit", n)]);
    assert_eq!(items(&i.query(&with(Json::Int(0)), false).unwrap()).len(), 1);
    assert_eq!(items(&i.query(&with(Json::Int(-3)), false).unwrap()).len(), 4);
    assert_eq!(items(&i.query(&with(Json::Uint(u64::MAX)), false).unwrap()).len(), 4);
    assert_eq!(items(&i.members(&with(Json::Int(0))).unwrap()).len(), 1);
}

#[test]
fn keywords_find_han_characters() {
    let i = fixture();
    add(&i, 1, "a", words("明天博士开会"));
    add(&i, 2, "a", words("say \"hello\" twice"));
    let with = |k: &str| {
        object(vec![("conversation", str_json("g")), ("keyword", str_json(k))])
    };
    assert_eq!(ids(&i.query(&with("博士"), false).unwrap()), ["g:1"]);
    assert!(items(&i.query(&with("士博"), false).unwrap()).is_empty());
    assert_eq!(ids(&i.query(&with("\"hello\" say"), false).unwrap()), ["g:2"]);
    assert_eq!(ids(&i.query(&with("  "), false).unwrap()), ["g:2", "g:1"]);
}

#[test]
fn members_show_the_first_telling_name() {
    let i = fixture();
    add(&i, 1, "wxid", words("x"));
    i.exec("INSERT INTO members VALUES('g','wxid','')");
    i.exec("INSERT INTO members VALUES('g','wxid','Zoe')");
    i.exec("INSERT INTO members VALUES('g','other','other')");
    let r = i.members(&object(vec![("conversation", str_json("g"))])).unwrap();
    assert_eq!(text(&items(&r)[0], "name"), "other");
    assert_eq!(text(&items(&r)[1], "member_id"), "wxid");
    assert_eq!(text(&items(&r)[1], "name"), "Zoe");
    assert_eq!(items(&r)[1].items_at("seen_names").unwrap().len(), 3);
    assert!(matches!(cursor(&r), Json::Null));
    let found = object(vec![("conversation", str_json("g")), ("query", str_json("Zo"))]);
    assert_eq!(items(&i.members(&found).unwrap()).len(), 1);
}

#[test]
fn archives_belong_to_one_account() {
    let s = store("a");
    assert!(open(&s.db, "a").is_ok());
    match open(&s.db, "b") {
        Ok(_) => panic!("opened"),
        Err(f) => assert_eq!(f.message(), "account_mismatch"),
    }
    s.exec("UPDATE settings SET value='xyz' WHERE key='cursor_key'");
    match open(&s.db, "a") {
        Ok(_) => panic!("opened"),
        Err(f) => assert_eq!(f.message(), "Odd number of digits"),
    }
}

#[test]
fn secrets_are_kept_and_differ() {
    let s = store("a");
    let t = store("a");
    let key = |s: &Store| -> String {
        s.db.query_row("SELECT value FROM settings WHERE key='cursor_key'", [], |r| r.get(0))
            .unwrap()
    };
    assert_eq!(key(&s).len(), 64);
    assert!(key(&s) != key(&t));
    let before = key(&s);
    open(&s.db, "a").unwrap();
    assert_eq!(key(&s), before);
}

#[test]
fn answers_that_do_not_fit_are_refused() {
    let step = Index::opening(OpenNext::Read { account: "a".to_owned() }, Vec::new());
    match step {
        OpenStep::Done(Err(f)) => assert_eq!(f.message(), "unexpected_answer"),
        _ => panic!("went on"),
    }
    let i = fixture();
    let next = match i.index.query(&object(vec![("conversation", str_json("g"))]), false) {
        Step::Ask { next, .. } => next,
        Step::Done(_) => panic!("done"),
    };
    match i.index.resume(next, vec![Answer::Done]) {
        Step::Done(Err(f)) => assert_eq!(f.message(), "unexpected_answer"),
        _ => panic!("went on"),
    }
}

#[test]
fn queries_run_nothing_but_questions() {
    let i = fixture();
    add(&i, 1, "a", words("x"));
    let before: i64 = i.db.total_changes() as i64;
    let p = object(vec![("conversation", str_json("g")), ("members", strings(&["a"]))]);
    i.query(&p, false).unwrap();
    i.query(&p, true).unwrap();
    i.members(&p).unwrap();
    i.list("", true).unwrap();
    assert_eq!(i.db.total_changes() as i64, before);
}

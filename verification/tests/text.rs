//! Text, numbers, JSON values, cursors and the order of messages.
use hmac::{Hmac, Mac};
use imcp_wechat::content::{is_message_type, normalize, MessageContent};
use imcp_wechat::context::order;
use imcp_wechat::cursor::{seal, unseal, Cursor};
use imcp_wechat::fault::Fault;
use imcp_wechat::json::{object_of, put, str_json, text, Field, Json};
use imcp_wechat::query::{clamp_at, parse_items, scope_of_members, scope_of_query};
use imcp_wechat::search::{match_query, tokens, trim};
use imcp_wechat::text::{
    contains, decimal_text, ends_with, has_char, join, only_digits, parse_decimal, starts_with,
    text_less,
};
use sha2::Sha256;

fn object(members: Vec<(&str, Json)>) -> Json {
    let mut o: Vec<Field> = Vec::new();
    for (name, value) in members {
        put(&mut o, name, value);
    }
    object_of(o)
}

fn secret() -> Vec<u8> {
    (0..32).collect()
}

fn mark() -> Cursor {
    Cursor {
        account: "a".to_owned(),
        generation: 1,
        scope: "s".to_owned(),
        snapshot: 4,
        time: 1700000003,
        id: "g:3".to_owned(),
    }
}

fn refusal(r: Result<Cursor, Fault>) -> String {
    match r {
        Ok(_) => panic!("opened"),
        Err(f) => f.message(),
    }
}

const TOKEN: &str = "7b226163636f756e74223a2261222c2267656e65726174696f6e223a312c2273636f7065223a2273222c22736e617073686f74223a342c2274696d65223a313730303030303030332c226964223a22673a33227d.10f0c4f3328899697781ac4ec827f9683eca55736d9fc8a8c7b7ca3cabda7327";

#[test]
fn han_characters_are_spaced() {
    assert_eq!(tokens("a博b"), "a 博 b");
    assert_eq!(match_query("博士 hi\"x"), "\"博  士\" AND \"hi\"\"x\"");
    assert_eq!(tokens("㐀鿿"), " 㐀  鿿 ");
    assert_eq!(tokens("ー꜀"), "ー꜀");
    assert_eq!(match_query(" \t "), "");
    assert_eq!(trim("\u{3000}x y\n"), "x y");
}

#[test]
fn spaces_of_every_script_part_words() {
    for c in ['\t', '\n', '\u{b}', '\u{c}', '\r', ' ', '\u{85}', '\u{a0}', '\u{1680}', '\u{2000}',
        '\u{200a}', '\u{2028}', '\u{2029}', '\u{202f}', '\u{205f}', '\u{3000}'] {
        assert_eq!(match_query(&format!("a{c}b")), "\"a\" AND \"b\"");
        assert_eq!(trim(&format!("{c}x{c}")), "x");
    }
    for c in ['\u{8}', '\u{e}', '\u{200b}', '\u{feff}', '\u{180e}'] {
        assert_eq!(trim(&format!("{c}x")), format!("{c}x"));
    }
}

/// A token over any payload, made with the secret.
fn genuine(payload: &str) -> String {
    let mut mac = Hmac::<Sha256>::new_from_slice(&secret()).unwrap();
    mac.update(payload.as_bytes());
    format!("{}.{}", hex::encode(payload), hex::encode(mac.finalize().into_bytes()))
}

#[test]
fn cursors_are_read_as_an_object_or_a_list() {
    let open = |payload: &str| unseal(&secret(), "a", "s", 1, &genuine(payload));
    for payload in [
        "[\"a\",1,\"s\",4,1700000003,\"g:3\"]",
        "{\"id\":\"g:3\",\"time\":1700000003,\"snapshot\":4,\"scope\":\"s\",\"generation\":1,\"account\":\"a\",\"more\":[]}",
    ] {
        let c = open(payload).unwrap();
        assert_eq!((c.snapshot, c.time, c.id.as_str()), (4, 1700000003, "g:3"));
    }
    for payload in ["[\"a\",1,\"s\",4,1700000003]", "[\"a\",1,\"s\",4,1700000003,3]", "{}", "1"] {
        assert!(open(payload).is_err());
    }
    let other = "[\"b\",1,\"s\",4,1700000003,\"g:3\"]";
    assert_eq!(refusal(open(other)), "cursor_scope_changed");
}

#[test]
fn texts_are_searched() {
    assert!(contains("abcabd", "abd"));
    assert!(!contains("abc", "abd"));
    assert!(contains("", ""));
    assert!(starts_with("message_0", "message_") && !starts_with("mes", "message_"));
    assert!(ends_with("a@chatroom", "@chatroom") && !ends_with("room", "@chatroom"));
    assert!(has_char("a/b", '/') && !has_char("ab", '/'));
    assert_eq!(join(&vec!["a".to_owned(), "b".to_owned()], ","), "a,b");
    assert!(text_less("a", "b") && text_less("a", "aa") && text_less("z", "é"));
    assert!(!text_less("a", "a"));
}

#[test]
fn numbers_are_written_and_read() {
    for n in [0, 7, -7, 1700000000, i64::MAX, i64::MIN] {
        assert_eq!(decimal_text(n), format!("{n}"));
        assert_eq!(parse_decimal(&decimal_text(n)), Some(n));
    }
    assert_eq!(parse_decimal("+5"), Some(5));
    assert_eq!(parse_decimal("-"), None);
    assert_eq!(parse_decimal(""), None);
    assert_eq!(parse_decimal("9223372036854775808"), None);
    assert!(only_digits("0123") && !only_digits("12a") && !only_digits("１"));
}

#[test]
fn members_of_objects_are_found() {
    let v = object(vec![
        ("s", str_json("x")),
        ("n", Json::Int(-1)),
        ("u", Json::Uint(u64::MAX)),
        ("b", Json::Bool(true)),
    ]);
    assert_eq!(text(&v, "s"), "x");
    assert_eq!(text(&v, "n"), "");
    assert_eq!(v.signed_at("n"), Some(-1));
    assert_eq!(v.unsigned_at("n"), None);
    assert_eq!(v.signed_at("u"), None);
    assert_eq!(v.unsigned_at("u"), Some(u64::MAX));
    assert_eq!(v.flag_at("b"), Some(true));
    assert!(v.get("none").is_none() && Json::Null.get("s").is_none());
    assert_eq!(clamp_at(&v, "n", 50, 500), 50);
    assert_eq!(clamp_at(&v, "u", 50, 500), 500);
}

#[test]
fn scopes_leave_out_how_to_page() {
    let p = object(vec![("conversation", str_json("g"))]);
    let expected = "773767a060deab91dd2cba399e89a17bdd1c23a53bb32262d1b09179774a82c7";
    assert_eq!(scope_of_query(&p, false), expected);
    let paged = object(vec![
        ("limit", Json::Int(3)),
        ("conversation", str_json("g")),
        ("cursor", str_json("c")),
        ("wait_seconds", Json::Int(1)),
    ]);
    assert_eq!(scope_of_query(&paged, false), expected);
    assert!(scope_of_query(&p, true) != expected);
    assert_eq!(
        scope_of_members("g", ""),
        "27b4fd846c45178535e4ac559af03840f586c0412deb8f3fa9e50801e3827774"
    );
}

#[test]
fn cursors_are_sealed_and_opened() {
    let token = seal(&secret(), &mark());
    assert_eq!(token, TOKEN);
    let c = unseal(&secret(), "a", "s", 1, &token).unwrap();
    assert_eq!((c.account.as_str(), c.generation, c.scope.as_str()), ("a", 1, "s"));
    assert_eq!((c.snapshot, c.time, c.id.as_str()), (4, 1700000003, "g:3"));
}

#[test]
fn cursors_open_for_their_own_use_only() {
    let s = secret();
    assert_eq!(refusal(unseal(&s, "b", "s", 1, TOKEN)), "cursor_scope_changed");
    assert_eq!(refusal(unseal(&s, "a", "t", 1, TOKEN)), "cursor_scope_changed");
    assert_eq!(refusal(unseal(&s, "a", "s", 2, TOKEN)), "cursor_scope_changed");
    assert_eq!(refusal(unseal(&vec![0; 32], "a", "s", 1, TOKEN)), "invalid_cursor");
    assert_eq!(refusal(unseal(&s, "a", "s", 1, &TOKEN.replacen("7b", "7c", 1))), "invalid_cursor");
    assert_eq!(refusal(unseal(&s, "a", "s", 1, "00")), "invalid_cursor");
    assert_eq!(refusal(unseal(&s, "a", "s", 1, "0.00")), "invalid_cursor");
    assert_eq!(refusal(unseal(&s, "a", "s", 1, "00.0")), "Odd number of digits");
    assert_eq!(refusal(unseal(&s, "a", "s", 1, "00.zz")), "Invalid character 'z' at position 0");
}

#[test]
fn every_kind_of_message_has_a_type_and_a_text() {
    let some = |s: &str| Some(s.to_owned());
    let cases = vec![
        (MessageContent::Text("t".to_owned()), "text", "t"),
        (MessageContent::Image { md5: None }, "image", ""),
        (MessageContent::Voice, "voice", ""),
        (MessageContent::Video, "video", ""),
        (MessageContent::ChannelVideo, "video", ""),
        (MessageContent::Emoji, "emoji", ""),
        (MessageContent::Location("l".to_owned()), "location", "l"),
        (MessageContent::System("s".to_owned()), "system", "s"),
        (MessageContent::Revoke("r".to_owned()), "revoke", "r"),
        (MessageContent::Link { title: some("a"), des: None, url: some("u") }, "link", "a  u"),
        (MessageContent::File { title: some("f") }, "file", "f"),
        (MessageContent::MiniProgram { title: some("m"), url: some("u") }, "mini_program", "m u"),
        (MessageContent::MergedMessages { title: None }, "merged_messages", ""),
        (MessageContent::Quote { reply_text: some("a"), refer_content: some("b") }, "quote", "a b"),
        (MessageContent::Transfer { amount_desc: None, pay_memo: some("p") }, "transfer", " p"),
        (MessageContent::Other, "other", ""),
    ];
    for (content, kind, body) in cases {
        let (k, b) = normalize(&content);
        assert_eq!((k, b.as_str()), (kind, body));
        assert!(is_message_type(k));
    }
    assert!(!is_message_type("telegram"));
}

#[test]
fn messages_are_ordered_by_time_and_identifier() {
    let m = |t: Json, id: &str, tag: i64| {
        object(vec![("create_time", t), ("message_id", str_json(id)), ("tag", Json::Int(tag))])
    };
    let sorted = order(vec![
        m(Json::Int(5), "b", 1),
        m(Json::Int(5), "a", 2),
        m(Json::Null, "z", 3),
        m(Json::Int(5), "b", 4),
        m(Json::Int(-1), "c", 5),
    ]);
    let tags: Vec<i64> = sorted.iter().map(|j| j.signed_at("tag").unwrap()).collect();
    assert_eq!(tags, [5, 3, 2, 1, 4]);
}

#[test]
fn the_first_broken_item_is_told() {
    let good = parse_items(&vec!["{\"a\":1}".to_owned(), "[]".to_owned()]).unwrap();
    assert_eq!(good[0].signed_at("a"), Some(1));
    let bad = parse_items(&vec!["1".to_owned(), "x".to_owned(), "".to_owned()]);
    assert_eq!(bad.err().unwrap().message(), "expected value at line 1 column 1");
}

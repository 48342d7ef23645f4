//! Frames, requests and answers, and the hand-over of a key.
use imcp_wechat::backend::Backend;
use imcp_wechat::bootstrap::{
    acknowledged, begin, handshake, payload, request, resume, select, BootAsk, BootEvent, BootStep,
};
use imcp_wechat::fault::Fault;
use imcp_wechat::frame::{frame_length, prefixed, read_frame, write_frame, MAX_FRAME};
use imcp_wechat::json::{list_of, object_of, put, str_json, text, Field, Json};
use imcp_wechat::service::{duty, response, Arrival, Duty};

fn object(members: Vec<(&str, Json)>) -> Json {
    let mut o: Vec<Field> = Vec::new();
    for (name, value) in members {
        put(&mut o, name, value);
    }
    object_of(o)
}

fn refusal(r: Result<Option<(Json, usize)>, Fault>) -> String {
    match r {
        Ok(_) => panic!("read"),
        Err(f) => f.message(),
    }
}

#[test]
fn protocol_truncation_and_size() {
    assert!(read_frame(b"\0\0\0\x05{}").is_err());
    assert!(read_frame(&u32::MAX.to_be_bytes()).is_err());
    let b = write_frame(&object(vec![("id", Json::Int(1))])).unwrap();
    assert_eq!(read_frame(&b).unwrap().unwrap().0.signed_at("id"), Some(1));
}

#[test]
fn frames_say_their_length() {
    let b = write_frame(&object(vec![("id", Json::Int(1))])).unwrap();
    assert_eq!(b, b"\0\0\0\x08{\"id\":1}");
    assert_eq!(prefixed(&[9; 0x010203])[..4], [0, 1, 2, 3]);
    assert_eq!(frame_length(&[0, 0, 1, 4]).unwrap(), 260);
    assert_eq!(frame_length(&[0, 64, 0, 0]).unwrap(), MAX_FRAME);
}

#[test]
fn frames_come_back_in_the_order_of_names() {
    let v = object(vec![
        ("b", list_of(vec![Json::Bool(true), Json::Null, Json::Int(-3), Json::Uint(u64::MAX)])),
        ("a", str_json("群 \"quoted\"")),
        ("b", Json::Int(2)),
    ]);
    let mut bytes = write_frame(&v).unwrap();
    assert_eq!(&bytes[4..], "{\"a\":\"群 \\\"quoted\\\"\",\"b\":2}".as_bytes());
    let length = bytes.len();
    bytes.extend_from_slice(b"more");
    let (back, taken) = read_frame(&bytes).unwrap().unwrap();
    assert_eq!(taken, length);
    assert_eq!(text(&back, "a"), "群 \"quoted\"");
    assert_eq!(back.signed_at("b"), Some(2));
}

#[test]
fn frames_that_cannot_be_read_are_refused() {
    assert!(read_frame(b"").unwrap().is_none());
    assert_eq!(refusal(read_frame(b"\0\0")), "failed to fill whole buffer");
    assert_eq!(refusal(read_frame(b"\0\0\0\x05{}")), "failed to fill whole buffer");
    assert_eq!(refusal(read_frame(b"\0\0\0\0")), "invalid_frame_length");
    assert_eq!(refusal(read_frame(b"\0\x40\0\x01")), "invalid_frame_length");
    assert_eq!(refusal(read_frame(b"\0\0\0\x02[}")), "expected value at line 1 column 2");
}

#[test]
fn answers_that_do_not_fit_a_frame_are_refused() {
    let long = str_json(&"x".repeat(MAX_FRAME));
    match write_frame(&long) {
        Ok(_) => panic!("written"),
        Err(f) => assert_eq!(f.message(), "response_too_large"),
    }
    assert!(write_frame(&str_json(&"x".repeat(MAX_FRAME - 2))).is_ok());
}

#[test]
fn numbers_with_a_fraction_pass_as_they_are_written() {
    let (v, _) = read_frame(b"\0\0\0\x081.500000").unwrap().unwrap();
    assert!(matches!(&v, Json::Real(n) if n.as_f64() == Some(1.5)));
    assert_eq!(write_frame(&v).unwrap(), b"\0\0\0\x031.5");
    // What was read is what is written, however its digits would be read again.
    let mut seed: u64 = 1;
    for _ in 0..2000 {
        seed = seed.wrapping_mul(6364136223846793005).wrapping_add(1442695040888963407);
        let text = format!("0.{seed}e{}", seed % 200);
        let read: serde_json::Value = serde_json::from_str(&text).unwrap();
        let (v, _) = read_frame(&prefixed(text.as_bytes())).unwrap().unwrap();
        assert_eq!(write_frame(&v.copy()).unwrap()[4..], *read.to_string().as_bytes());
    }
}

#[test]
fn messages_become_requests() {
    let v = object(vec![
        ("id", Json::Int(7)),
        ("method", str_json("status")),
        ("params", object(vec![("x", Json::Int(1))])),
    ]);
    match duty(Arrival::Message(v)) {
        Duty::Serve(c) => {
            assert!(matches!(c.id, Json::Int(7)));
            assert_eq!(c.method, "status");
            assert_eq!(c.params.signed_at("x"), Some(1));
        }
        _ => panic!("not served"),
    }
    match duty(Arrival::Message(Json::Null)) {
        Duty::Serve(c) => assert!(matches!((c.id, c.params), (Json::Null, Json::Null))),
        _ => panic!("not served"),
    }
    assert!(matches!(duty(Arrival::Timeout), Duty::Import));
    assert!(matches!(duty(Arrival::Closed), Duty::Stop));
}

#[test]
fn responses_carry_a_result_or_an_error() {
    let ok = write_frame(&response(Json::Int(7), Ok(Json::Bool(true)))).unwrap();
    assert_eq!(&ok[4..], b"{\"id\":7,\"jsonrpc\":\"2.0\",\"result\":true}");
    let err = write_frame(&response(str_json("x"), Err(Fault::UnknownMethod))).unwrap();
    assert_eq!(
        &err[4..],
        &b"{\"error\":{\"code\":-32000,\"message\":\"unknown_method\"},\"id\":\"x\",\"jsonrpc\":\"2.0\"}"[..]
    );
}

#[test]
fn the_service_ticks_only_while_it_imports() {
    let mut b = Backend::new();
    assert_eq!(b.waits(), None);
    b.has_import_work = true;
    assert_eq!(b.waits(), Some(100));
    b.give_up_import();
    assert_eq!(b.waits(), None);
    assert_eq!(b.error.as_deref(), Some("index_write_failed"));
}

#[test]
fn keys_are_handed_over_in_frames() {
    assert_eq!(handshake("t\"k"), b"\0\0\0\x10{\"token\":\"t\\\"k\"}");
    assert_eq!(payload("me", &[0, 0xab]), b"\0\0\0\x1d{\"account\":\"me\",\"key\":\"00ab\"}");
    assert!(acknowledged(1));
    assert!(!acknowledged(0));
}

#[test]
fn the_account_asked_for_is_chosen() {
    let all: Vec<String> = ["a", "b", "a"].iter().map(|s| s.to_string()).collect();
    assert_eq!(select(&all, "a"), [0, 2]);
    assert!(select(&all, "c").is_empty());
    let args: Vec<String> = ["prog", "/sock", "token", "me"].iter().map(|s| s.to_string()).collect();
    let q = request(&args).unwrap();
    assert_eq!((q.socket.as_str(), q.token.as_str(), q.account.as_str()), ("/sock", "token", "me"));
    assert!(request(&args[..3].to_vec()).is_none());
}

fn command() -> Vec<String> {
    ["bootstrap", "/tmp/s", "t0ken", "me"].iter().map(|s| s.to_string()).collect()
}

fn captured() -> BootEvent {
    BootEvent::Captured { account: "me".to_owned(), key: vec![0xab, 0xcd] }
}

/// Hands the events in one by one, and says what was asked for and how it ended.
fn hand_over(args: &Vec<String>, events: Vec<BootEvent>) -> (Vec<String>, Option<Result<String, String>>) {
    let mut asked: Vec<String> = Vec::new();
    let mut events = events.into_iter();
    let mut step = begin(args);
    loop {
        let (ask, next) = match step {
            BootStep::Ask { ask, next } => (ask, next),
            BootStep::Done(r) => return (asked, Some(r)),
        };
        asked.push(match ask {
            BootAsk::CheckSip => "sip".to_owned(),
            BootAsk::Connect { socket } => format!("connect {socket}"),
            BootAsk::Send { bytes } => format!("send {}", String::from_utf8_lossy(&bytes[4..])),
            BootAsk::Await => "await".to_owned(),
            BootAsk::FindAccounts => "accounts".to_owned(),
            BootAsk::Tell { .. } => "tell".to_owned(),
            BootAsk::Capture { which } => format!("capture {which:?}"),
        });
        step = match events.next() {
            Some(event) => resume(next, event),
            None => return (asked, None),
        };
    }
}

fn going_well() -> Vec<BootEvent> {
    vec![
        BootEvent::Sip { passed: true },
        BootEvent::Connected { ok: true },
        BootEvent::Done,
        BootEvent::Ack { byte: 1 },
        BootEvent::Accounts { names: vec!["you".to_owned(), "me".to_owned()] },
        BootEvent::Done,
        captured(),
        BootEvent::Done,
        BootEvent::Ack { byte: 1 },
    ]
}

#[test]
fn a_key_is_handed_over_behind_an_accepted_token() {
    let (asked, end) = hand_over(&command(), going_well());
    assert_eq!(
        asked,
        [
            "sip",
            "connect /tmp/s",
            "send {\"token\":\"t0ken\"}",
            "await",
            "accounts",
            "tell",
            "capture [1]",
            "send {\"account\":\"me\",\"key\":\"abcd\"}",
            "await",
        ]
    );
    assert_eq!(end, Some(Ok("密钥已交给 iMCP Keychain。现在可以恢复 SIP。".to_owned())));
}

/// How a hand-over ends in which one thing goes wrong.
fn going_wrong(at: usize, event: BootEvent) -> (usize, String) {
    let mut events = going_well();
    events[at] = event;
    match hand_over(&command(), events) {
        (asked, Some(Err(text))) => (asked.len(), text),
        _ => panic!("handed over"),
    }
}

#[test]
fn a_hand_over_ends_where_something_goes_wrong() {
    let (asked, end) = hand_over(&vec!["bootstrap".to_owned()], going_well());
    assert!(asked.is_empty());
    assert_eq!(end, Some(Err("请使用 iMCP 设置向导生成的命令。".to_owned())));
    assert_eq!(
        going_wrong(0, BootEvent::Sip { passed: false }),
        (1, "当前 SIP 已启用。首次捕获需按设置向导临时关闭 SIP；不会自动修改系统设置。".to_owned())
    );
    assert_eq!(
        going_wrong(1, BootEvent::Connected { ok: false }),
        (2, "设置窗口已关闭或命令已过期".to_owned())
    );
    assert_eq!(going_wrong(3, BootEvent::Ack { byte: 0 }), (4, "授权令牌无效".to_owned()));
    assert_eq!(going_wrong(3, BootEvent::Ack { byte: 2 }), (4, "授权令牌无效".to_owned()));
    let others = BootEvent::Accounts { names: vec!["you".to_owned()] };
    assert_eq!(going_wrong(4, others), (5, "所选微信账号未找到".to_owned()));
    assert_eq!(
        going_wrong(6, BootEvent::NoKey),
        (7, "未获得有效密钥；检查微信版本、登录状态和调试权限".to_owned())
    );
    assert_eq!(going_wrong(8, BootEvent::Ack { byte: 0 }), (9, "iMCP 未确认保存密钥".to_owned()));
    assert_eq!(going_wrong(2, captured()), (3, "unexpected_answer".to_owned()));
}

//! The hand-over of a database key: run by the owner in a terminal, it takes
//! no key from the command line and leaves none in a file.
use vstd::prelude::*;

use crate::frame::prefixed;
use crate::json::{object_of, put, render, Field, Json, JsonV};
use crate::primitives::hex_encode;
use crate::text::same;

verus! {

/// What the command line names.
pub struct Request {
    pub socket: String,
    pub token: String,
    pub account: String,
}

/// The mathematical view of that.
pub struct RequestV {
    pub socket: Seq<char>,
    pub token: Seq<char>,
    pub account: Seq<char>,
}

impl View for Request {
    type V = RequestV;

    open spec fn view(&self) -> RequestV {
        RequestV { socket: self.socket@, token: self.token@, account: self.account@ }
    }
}

/// What the command line names: three words behind the name of the program.
pub open spec fn request_in(args: Seq<Seq<char>>) -> Option<RequestV> {
    if args.len() == 4 {
        Some(RequestV { socket: args[1], token: args[2], account: args[3] })
    } else {
        None
    }
}

/// Reads the command line.
pub fn request(args: &Vec<String>) -> (r: Option<Request>)
    ensures
        match r {
            Some(q) => request_in(crate::text::texts_view(args@)) == Some(q@),
            None => request_in(crate::text::texts_view(args@)) is None,
        },
{
    if args.len() != 4 {
        return None;
    }
    Some(Request { socket: args[1].clone(), token: args[2].clone(), account: args[3].clone() })
}

/// The message that shows the token.
pub open spec fn greeting(token: Seq<char>) -> Seq<u8> {
    crate::frame::framed(
        vstd::utf8::encode_utf8(
            crate::json::json_text(
                crate::json::object(seq![crate::json::field_v("token", JsonV::Str(token))]),
            ),
        ),
    )
}

/// Makes the message that shows the token.
pub fn handshake(token: &str) -> (r: Vec<u8>)
    ensures
        r@ == greeting(token@),
{
    let mut o: Vec<Field> = Vec::new();
    put(&mut o, "token", crate::json::str_json(token));
    assert(crate::json::fields_view(o@) =~= seq![
        crate::json::field_v("token", JsonV::Str(token@)),
    ]);
    let text = render(&object_of(o));
    prefixed(text.as_str().as_bytes())
}

/// Whether a message was accepted.
pub fn acknowledged(ack: u8) -> (r: bool)
    ensures
        r == (ack == 1),
{
    ack == 1
}

/// The places of the accounts that were asked for.
pub open spec fn chosen(accounts: Seq<Seq<char>>, wanted: Seq<char>) -> Seq<usize>
    decreases accounts.len(),
{
    if accounts.len() == 0 {
        Seq::empty()
    } else if accounts.last() == wanted {
        chosen(accounts.drop_last(), wanted).push((accounts.len() - 1) as usize)
    } else {
        chosen(accounts.drop_last(), wanted)
    }
}

/// Finds the accounts that were asked for.
pub fn select(accounts: &Vec<String>, wanted: &str) -> (r: Vec<usize>)
    ensures
        r@ == chosen(crate::text::texts_view(accounts@), wanted@),
{
    let ghost all = crate::text::texts_view(accounts@);
    let mut out: Vec<usize> = Vec::new();
    let mut i: usize = 0;
    assert(out@ =~= chosen(all.take(0), wanted@));
    while i < accounts.len()
        invariant
            all == crate::text::texts_view(accounts@),
            i <= accounts@.len(),
            out@ == chosen(all.take(i as int), wanted@),
        decreases accounts@.len() - i,
    {
        assert(all.take(i + 1).drop_last() =~= all.take(i as int));
        assert(all.take(i + 1).last() == accounts@[i as int]@);
        if same(accounts[i].as_str(), wanted) {
            out.push(i);
        }
        i = i + 1;
    }
    assert(all.take(all.len() as int) =~= all);
    out
}

/// The message that hands the key over.
pub open spec fn delivery(account: Seq<char>, key: Seq<u8>) -> Seq<u8> {
    crate::frame::framed(
        vstd::utf8::encode_utf8(
            crate::json::json_text(
                crate::json::object(
                    seq![
                        crate::json::field_v("account", JsonV::Str(account)),
                        crate::json::field_v(
                            "key",
                            JsonV::Str(crate::primitives::hex_text(key)),
                        ),
                    ],
                ),
            ),
        ),
    )
}

/// Makes the message that hands the key over.
pub fn payload(account: &str, key: &[u8]) -> (r: Vec<u8>)
    ensures
        r@ == delivery(account@, key@),
{
    let mut o: Vec<Field> = Vec::new();
    put(&mut o, "account", crate::json::str_json(account));
    put(&mut o, "key", Json::Str(hex_encode(key)));
    assert(crate::json::fields_view(o@) =~= seq![
        crate::json::field_v("account", JsonV::Str(account@)),
        crate::json::field_v("key", JsonV::Str(crate::primitives::hex_text(key@))),
    ]);
    let text = render(&object_of(o));
    prefixed(text.as_str().as_bytes())
}

/// What to do outside.
pub enum BootAsk {
    /// See whether the system lets a process be debugged.
    CheckSip,
    /// Connect to the window that waits for the key.
    Connect { socket: String },
    /// Send bytes to it.
    Send { bytes: Vec<u8> },
    /// Wait for one byte from it.
    Await,
    /// Find the accounts of this machine.
    FindAccounts,
    /// Tell the owner something.
    Tell { text: String },
    /// Capture the key of one of those accounts.
    Capture { which: Vec<usize> },
}

/// The mathematical view of that.
pub enum BootAskV {
    CheckSip,
    Connect { socket: Seq<char> },
    Send { bytes: Seq<u8> },
    Await,
    FindAccounts,
    Tell { text: Seq<char> },
    Capture { which: Seq<usize> },
}

impl View for BootAsk {
    type V = BootAskV;

    open spec fn view(&self) -> BootAskV {
        match self {
            BootAsk::CheckSip => BootAskV::CheckSip,
            BootAsk::Connect { socket } => BootAskV::Connect { socket: socket@ },
            BootAsk::Send { bytes } => BootAskV::Send { bytes: bytes@ },
            BootAsk::Await => BootAskV::Await,
            BootAsk::FindAccounts => BootAskV::FindAccounts,
            BootAsk::Tell { text } => BootAskV::Tell { text: text@ },
            BootAsk::Capture { which } => BootAskV::Capture { which: which@ },
        }
    }
}

/// What came of it.
pub enum BootEvent {
    /// Whether a process may be debugged.
    Sip { passed: bool },
    /// Whether the window could be reached.
    Connected { ok: bool },
    /// It is done.
    Done,
    /// The byte that came.
    Ack { byte: u8 },
    /// The accounts of this machine.
    Accounts { names: Vec<String> },
    /// The key, and the account that it belongs to.
    Captured { account: String, key: Vec<u8> },
    /// There is no key to be had.
    NoKey,
}

/// The mathematical view of that.
pub enum BootEventV {
    Sip { passed: bool },
    Connected { ok: bool },
    Done,
    Ack { byte: u8 },
    Accounts { names: Seq<Seq<char>> },
    Captured { account: Seq<char>, key: Seq<u8> },
    NoKey,
}

impl View for BootEvent {
    type V = BootEventV;

    open spec fn view(&self) -> BootEventV {
        match self {
            BootEvent::Sip { passed } => BootEventV::Sip { passed: *passed },
            BootEvent::Connected { ok } => BootEventV::Connected { ok: *ok },
            BootEvent::Done => BootEventV::Done,
            BootEvent::Ack { byte } => BootEventV::Ack { byte: *byte },
            BootEvent::Accounts { names } => BootEventV::Accounts {
                names: crate::text::texts_view(names@),
            },
            BootEvent::Captured { account, key } => BootEventV::Captured {
                account: account@,
                key: key@,
            },
            BootEvent::NoKey => BootEventV::NoKey,
        }
    }
}

/// Where the hand-over stands.
pub enum BootNext {
    /// What the system lets through is being asked.
    Sip { request: Request },
    /// The window is being reached.
    Connected { request: Request },
    /// The token is being shown.
    Greeted { request: Request },
    /// Whether it was accepted is being awaited.
    Accepted { request: Request },
    /// Accounts are being found.
    Accounts { request: Request },
    /// The owner is being told what comes.
    Told { which: Vec<usize> },
    /// The key is being captured.
    Captured,
    /// The key is being handed over.
    Delivered,
    /// Whether it was kept is being awaited.
    Kept,
}

/// The mathematical view of that.
pub enum BootNextV {
    Sip { request: RequestV },
    Connected { request: RequestV },
    Greeted { request: RequestV },
    Accepted { request: RequestV },
    Accounts { request: RequestV },
    Told { which: Seq<usize> },
    Captured,
    Delivered,
    Kept,
}

impl View for BootNext {
    type V = BootNextV;

    open spec fn view(&self) -> BootNextV {
        match self {
            BootNext::Sip { request } => BootNextV::Sip { request: request@ },
            BootNext::Connected { request } => BootNextV::Connected { request: request@ },
            BootNext::Greeted { request } => BootNextV::Greeted { request: request@ },
            BootNext::Accepted { request } => BootNextV::Accepted { request: request@ },
            BootNext::Accounts { request } => BootNextV::Accounts { request: request@ },
            BootNext::Told { which } => BootNextV::Told { which: which@ },
            BootNext::Captured => BootNextV::Captured,
            BootNext::Delivered => BootNextV::Delivered,
            BootNext::Kept => BootNextV::Kept,
        }
    }
}

/// What to do next. A hand-over ends with what the owner is told.
pub enum BootStep {
    Ask { ask: BootAsk, next: BootNext },
    Done(Result<String, String>),
}

/// How a hand-over ends.
pub type HandedOver = Result<Seq<char>, Seq<char>>;

/// The mathematical view of what to do next.
pub enum BootStepV {
    Ask { ask: BootAskV, next: BootNextV },
    Done(HandedOver),
}

impl View for BootStep {
    type V = BootStepV;

    open spec fn view(&self) -> BootStepV {
        match self {
            BootStep::Ask { ask, next } => BootStepV::Ask { ask: ask@, next: next@ },
            BootStep::Done(Ok(text)) => BootStepV::Done(HandedOver::Ok(text@)),
            BootStep::Done(Err(text)) => BootStepV::Done(HandedOver::Err(text@)),
        }
    }
}

/// The step that ends a hand-over in failure.
pub open spec fn failure(text: Seq<char>) -> BootStepV {
    BootStepV::Done(HandedOver::Err(text))
}

/// What a hand-over asks for first, or why it does not begin.
pub open spec fn boot_begin(args: Seq<Seq<char>>) -> BootStepV {
    match request_in(args) {
        None => failure("请使用 iMCP 设置向导生成的命令。"@),
        Some(request) => BootStepV::Ask {
            ask: BootAskV::CheckSip,
            next: BootNextV::Sip { request },
        },
    }
}

/// What comes after each stage of a hand-over.
pub open spec fn boot_step(next: BootNextV, event: BootEventV) -> BootStepV {
    match (next, event) {
        (BootNextV::Sip { request }, BootEventV::Sip { passed }) => if passed {
            BootStepV::Ask {
                ask: BootAskV::Connect { socket: request.socket },
                next: BootNextV::Connected { request },
            }
        } else {
            failure(
                "当前 SIP 已启用。首次捕获需按设置向导临时关闭 SIP；不会自动修改系统设置。"@,
            )
        },
        (BootNextV::Connected { request }, BootEventV::Connected { ok }) => if ok {
            BootStepV::Ask {
                ask: BootAskV::Send { bytes: greeting(request.token) },
                next: BootNextV::Greeted { request },
            }
        } else {
            failure("设置窗口已关闭或命令已过期"@)
        },
        (BootNextV::Greeted { request }, BootEventV::Done) => BootStepV::Ask {
            ask: BootAskV::Await,
            next: BootNextV::Accepted { request },
        },
        (BootNextV::Accepted { request }, BootEventV::Ack { byte }) => if byte == 1 {
            BootStepV::Ask {
                ask: BootAskV::FindAccounts,
                next: BootNextV::Accounts { request },
            }
        } else {
            failure("授权令牌无效"@)
        },
        (BootNextV::Accounts { request }, BootEventV::Accounts { names }) => if chosen(
            names,
            request.account,
        ).len() == 0 {
            failure("所选微信账号未找到"@)
        } else {
            BootStepV::Ask {
                ask: BootAskV::Tell {
                    text: "将重启微信并等待登录，以捕获此账号的数据库密钥。完成后请恢复 SIP。"@,
                },
                next: BootNextV::Told { which: chosen(names, request.account) },
            }
        },
        (BootNextV::Told { which }, BootEventV::Done) => BootStepV::Ask {
            ask: BootAskV::Capture { which },
            next: BootNextV::Captured,
        },
        (BootNextV::Captured, BootEventV::Captured { account, key }) => BootStepV::Ask {
            ask: BootAskV::Send { bytes: delivery(account, key) },
            next: BootNextV::Delivered,
        },
        (BootNextV::Captured, BootEventV::NoKey) => failure(
            "未获得有效密钥；检查微信版本、登录状态和调试权限"@,
        ),
        (BootNextV::Delivered, BootEventV::Done) => BootStepV::Ask {
            ask: BootAskV::Await,
            next: BootNextV::Kept,
        },
        (BootNextV::Kept, BootEventV::Ack { byte }) => if byte == 1 {
            BootStepV::Done(
                HandedOver::Ok("密钥已交给 iMCP Keychain。现在可以恢复 SIP。"@),
            )
        } else {
            failure("iMCP 未确认保存密钥"@)
        },
        _ => failure("unexpected_answer"@),
    }
}

/// Where a hand-over stands once those things have come of what it asked for,
/// one after another.
pub open spec fn boot_after(args: Seq<Seq<char>>, events: Seq<BootEventV>) -> BootStepV
    decreases events.len(),
{
    if events.len() == 0 {
        boot_begin(args)
    } else {
        match boot_after(args, events.drop_last()) {
            BootStepV::Ask { next, .. } => boot_step(next, events.last()),
            done => done,
        }
    }
}

/// Whether the token was shown on a window that could be reached, and accepted.
pub open spec fn was_accepted(args: Seq<Seq<char>>, events: Seq<BootEventV>) -> bool {
    &&& args.len() == 4
    &&& events.len() >= 4
    &&& events[0] == (BootEventV::Sip { passed: true })
    &&& events[1] == (BootEventV::Connected { ok: true })
    &&& events[2] is Done
    &&& events[3] == (BootEventV::Ack { byte: 1 })
}

/// Whether, behind that, the key of the account that was named was captured.
pub open spec fn was_captured(args: Seq<Seq<char>>, events: Seq<BootEventV>) -> bool {
    &&& was_accepted(args, events)
    &&& events.len() >= 7
    &&& events[4] matches BootEventV::Accounts { names } && chosen(names, args[3]).len() > 0
    &&& events[5] is Done
    &&& events[6] is Captured
}

/// What a stage says of what has come before it.
pub open spec fn is_reached(
    next: BootNextV,
    args: Seq<Seq<char>>,
    events: Seq<BootEventV>,
) -> bool {
    match next {
        BootNextV::Sip { request } => events.len() == 0 && request_in(args) == Some(request),
        BootNextV::Connected { request } => events.len() == 1 && request_in(args) == Some(request)
            && events[0] == (BootEventV::Sip { passed: true }),
        BootNextV::Greeted { request } => events.len() == 2 && request_in(args) == Some(request)
            && events[0] == (BootEventV::Sip { passed: true }) && events[1]
            == (BootEventV::Connected { ok: true }),
        BootNextV::Accepted { request } => events.len() == 3 && request_in(args) == Some(request)
            && events[0] == (BootEventV::Sip { passed: true }) && events[1]
            == (BootEventV::Connected { ok: true }) && events[2] is Done,
        BootNextV::Accounts { request } => events.len() == 4 && request_in(args) == Some(request)
            && was_accepted(args, events),
        BootNextV::Told { which } => events.len() == 5 && was_accepted(args, events) && (
        events[4] matches BootEventV::Accounts { names } && which == chosen(names, args[3])
            && which.len() > 0),
        BootNextV::Captured => events.len() == 6 && was_accepted(args, events) && (
        events[4] matches BootEventV::Accounts { names } && chosen(names, args[3]).len() > 0)
            && events[5] is Done,
        BootNextV::Delivered => events.len() == 7 && was_captured(args, events),
        BootNextV::Kept => events.len() == 8 && was_captured(args, events) && events[7] is Done,
    }
}

proof fn lemma_stages_come_in_order(args: Seq<Seq<char>>, events: Seq<BootEventV>)
    ensures
        boot_after(args, events) matches BootStepV::Ask { next, .. } ==> is_reached(
            next,
            args,
            events,
        ),
        boot_after(args, events) matches BootStepV::Done(Ok(_)) ==> events.len() >= 9
            && was_captured(args, events) && events[7] is Done && events[8] == (BootEventV::Ack {
            byte: 1,
        }),
    decreases events.len(),
{
    if events.len() > 0 {
        let front = events.drop_last();
        lemma_stages_come_in_order(args, front);
        assert forall|i: int| 0 <= i < front.len() implies front[i] == #[trigger] events[i] by {}
        if let BootStepV::Ask { next, .. } = boot_after(args, front) {
            assert(is_reached(next, args, front));
        }
    }
}

/// The hand-over keeps its order. Without three words on the command line
/// nothing is asked for. The first message on the socket shows the token. Only
/// once that was accepted are accounts looked for and is a key captured, and only
/// then does a second message follow, which hands the key over. The hand-over
/// succeeds only where that message, too, was accepted.
pub proof fn law_hand_over_keeps_its_order(args: Seq<Seq<char>>, events: Seq<BootEventV>)
    ensures
        args.len() != 4 ==> boot_after(args, events) == failure("请使用 iMCP 设置向导生成的命令。"@),
        boot_after(args, events) matches BootStepV::Ask { ask, .. } ==> {
            &&& ask matches BootAskV::Connect { socket } ==> args.len() == 4 && socket == args[1]
            &&& ask matches BootAskV::Send { bytes } ==> {
                ||| events.len() == 2 && args.len() == 4 && bytes == greeting(args[2])
                ||| events.len() == 7 && was_captured(args, events) && (
                events[6] matches BootEventV::Captured { account, key } && bytes == delivery(
                    account,
                    key,
                ))
            }
            &&& ask is FindAccounts || ask is Tell || ask is Capture ==> was_accepted(args, events)
        },
        boot_after(args, events) is Done && boot_after(args, events)->Done_0 is Ok
            ==> events.len() >= 9 && was_captured(args, events) && events[7] is Done && events[8]
            == (BootEventV::Ack { byte: 1 }),
    decreases events.len(),
{
    lemma_stages_come_in_order(args, events);
    if events.len() > 0 {
        let front = events.drop_last();
        lemma_stages_come_in_order(args, front);
        assert forall|i: int| 0 <= i < front.len() implies front[i] == #[trigger] events[i] by {}
        if args.len() != 4 {
            law_hand_over_keeps_its_order(args, front);
        }
        if let BootStepV::Ask { next, .. } = boot_after(args, front) {
            assert(is_reached(next, args, front));
        }
    }
}

/// A hand-over in which all goes well succeeds.
pub proof fn law_hand_over_succeeds(args: Seq<Seq<char>>, events: Seq<BootEventV>)
    requires
        events.len() == 9,
        was_captured(args, events),
        events[7] is Done,
        events[8] == (BootEventV::Ack { byte: 1 }),
    ensures
        boot_after(args, events) == BootStepV::Done(
            HandedOver::Ok("密钥已交给 iMCP Keychain。现在可以恢复 SIP。"@),
        ),
{
    reveal_with_fuel(boot_after, 10);
    let e8 = events.drop_last();
    let e7 = e8.drop_last();
    let e6 = e7.drop_last();
    let e5 = e6.drop_last();
    let e4 = e5.drop_last();
    let e3 = e4.drop_last();
    let e2 = e3.drop_last();
    let e1 = e2.drop_last();
    assert(e1.last() == events[0] && e2.last() == events[1] && e3.last() == events[2]);
    assert(e4.last() == events[3] && e5.last() == events[4] && e6.last() == events[5]);
    assert(e7.last() == events[6] && e8.last() == events[7]);
}

/// A token that is not accepted ends the hand-over, and so does a key that is
/// not: any other byte than one is a refusal.
pub proof fn law_refusal_ends_the_hand_over(request: RequestV, byte: u8)
    requires
        byte != 1,
    ensures
        boot_step(BootNextV::Accepted { request }, BootEventV::Ack { byte }) == failure(
            "授权令牌无效"@,
        ),
        boot_step(BootNextV::Kept, BootEventV::Ack { byte }) == failure("iMCP 未确认保存密钥"@),
{
}

/// The key goes into the message that hands it over and nowhere else: nothing
/// that is asked for or told before or after it depends on the key.
pub proof fn law_key_goes_nowhere_else(
    account: Seq<char>,
    key: Seq<u8>,
    other: Seq<u8>,
    next: BootNextV,
)
    ensures
        boot_step(next, BootEventV::Captured { account, key }) != boot_step(
            next,
            BootEventV::Captured { account, key: other },
        ) ==> next is Captured && boot_step(next, BootEventV::Captured { account, key }) == (
        BootStepV::Ask {
            ask: BootAskV::Send { bytes: delivery(account, key) },
            next: BootNextV::Delivered,
        }),
{
}

fn failed(text: &str) -> (r: BootStep)
    ensures
        r@ == failure(text@),
{
    BootStep::Done(Err(text.to_owned()))
}

/// Begins a hand-over.
pub fn begin(args: &Vec<String>) -> (r: BootStep)
    ensures
        r@ == boot_begin(crate::text::texts_view(args@)),
{
    match request(args) {
        None => failed("请使用 iMCP 设置向导生成的命令。"),
        Some(request) => BootStep::Ask {
            ask: BootAsk::CheckSip,
            next: BootNext::Sip { request },
        },
    }
}

/// Goes on with a hand-over.
pub fn resume(next: BootNext, event: BootEvent) -> (r: BootStep)
    ensures
        r@ == boot_step(next@, event@),
{
    match (next, event) {
        (BootNext::Sip { request }, BootEvent::Sip { passed }) => if passed {
            BootStep::Ask {
                ask: BootAsk::Connect { socket: request.socket.clone() },
                next: BootNext::Connected { request },
            }
        } else {
            failed("当前 SIP 已启用。首次捕获需按设置向导临时关闭 SIP；不会自动修改系统设置。")
        },
        (BootNext::Connected { request }, BootEvent::Connected { ok }) => if ok {
            BootStep::Ask {
                ask: BootAsk::Send { bytes: handshake(request.token.as_str()) },
                next: BootNext::Greeted { request },
            }
        } else {
            failed("设置窗口已关闭或命令已过期")
        },
        (BootNext::Greeted { request }, BootEvent::Done) => BootStep::Ask {
            ask: BootAsk::Await,
            next: BootNext::Accepted { request },
        },
        (BootNext::Accepted { request }, BootEvent::Ack { byte }) => if acknowledged(byte) {
            BootStep::Ask { ask: BootAsk::FindAccounts, next: BootNext::Accounts { request } }
        } else {
            failed("授权令牌无效")
        },
        (BootNext::Accounts { request }, BootEvent::Accounts { names }) => {
            let which = select(&names, request.account.as_str());
            if which.len() == 0 {
                return failed("所选微信账号未找到");
            }
            BootStep::Ask {
                ask: BootAsk::Tell {
                    text: "将重启微信并等待登录，以捕获此账号的数据库密钥。完成后请恢复 SIP。".to_owned(),
                },
                next: BootNext::Told { which },
            }
        },
        (BootNext::Told { which }, BootEvent::Done) => BootStep::Ask {
            ask: BootAsk::Capture { which },
            next: BootNext::Captured,
        },
        (BootNext::Captured, BootEvent::Captured { account, key }) => BootStep::Ask {
            ask: BootAsk::Send { bytes: payload(account.as_str(), key.as_slice()) },
            next: BootNext::Delivered,
        },
        (BootNext::Captured, BootEvent::NoKey) => failed(
            "未获得有效密钥；检查微信版本、登录状态和调试权限",
        ),
        (BootNext::Delivered, BootEvent::Done) => BootStep::Ask {
            ask: BootAsk::Await,
            next: BootNext::Kept,
        },
        (BootNext::Kept, BootEvent::Ack { byte }) => if acknowledged(byte) {
            BootStep::Done(Ok("密钥已交给 iMCP Keychain。现在可以恢复 SIP。".to_owned()))
        } else {
            failed("iMCP 未确认保存密钥")
        },
        _ => failed("unexpected_answer"),
    }
}

/// The accounts that a key is captured for are those of the name that was asked
/// for: all of them, each once, in order, and no others.
pub proof fn law_only_the_account_is_chosen(accounts: Seq<Seq<char>>, wanted: Seq<char>)
    requires
        accounts.len() <= usize::MAX,
    ensures
        forall|k: int|
            0 <= k < chosen(accounts, wanted).len() ==> (#[trigger] chosen(accounts, wanted)[k])
                < accounts.len() && accounts[chosen(accounts, wanted)[k] as int] == wanted,
        forall|i: int|
            0 <= i < accounts.len() && #[trigger] accounts[i] == wanted ==> chosen(
                accounts,
                wanted,
            ).contains(i as usize),
        forall|k: int, l: int|
            0 <= k < l < chosen(accounts, wanted).len() ==> (#[trigger] chosen(accounts, wanted)[k])
                < (#[trigger] chosen(accounts, wanted)[l]),
    decreases accounts.len(),
{
    if accounts.len() > 0 {
        let before = accounts.drop_last();
        law_only_the_account_is_chosen(before, wanted);
        let all = chosen(accounts, wanted);
        let first = chosen(before, wanted);
        assert forall|i: int| 0 <= i < accounts.len() && #[trigger] accounts[i]
            == wanted implies all.contains(i as usize) by {
            if i < before.len() {
                assert(before[i] == wanted);
                let k = choose|k: int| 0 <= k < first.len() && first[k] == i as usize;
                assert(all[k] == i as usize);
            } else {
                assert(all[first.len() as int] == i as usize);
            }
        }
    }
}

/// Whether bytes are a frame that holds a value.
pub open spec fn is_frame_of(bytes: Seq<u8>, j: JsonV) -> bool {
    bytes == crate::frame::framed(vstd::utf8::encode_utf8(crate::json::json_text(j)))
}

/// What is sent is a frame: first one that holds the token, then one that holds
/// the account and the key in hexadecimal.
pub proof fn law_messages_hold_the_token_and_the_key(
    token: Seq<char>,
    account: Seq<char>,
    key: Seq<u8>,
)
    ensures
        exists|j: JsonV| #[trigger]
            is_frame_of(greeting(token), j) && j.at("token"@) == JsonV::Str(token),
        exists|j: JsonV| #[trigger]
            is_frame_of(delivery(account, key), j) && j.at("account"@) == JsonV::Str(account)
                && j.at("key"@) == JsonV::Str(crate::primitives::hex_text(key)),
{
    reveal_strlit("account");
    reveal_strlit("key");
    assert("account"@.len() == 7 && "key"@.len() == 3);
    reveal_with_fuel(crate::json::member, 3);
    let first = crate::json::object(seq![crate::json::field_v("token", JsonV::Str(token))]);
    let second = crate::json::object(
        seq![
            crate::json::field_v("account", JsonV::Str(account)),
            crate::json::field_v("key", JsonV::Str(crate::primitives::hex_text(key))),
        ],
    );
    assert(is_frame_of(greeting(token), first));
    assert(is_frame_of(delivery(account, key), second));
}

/// A hand-over ends where a stage fails, each with its own words. Before a key is
/// captured the owner is told what will happen.
pub proof fn law_each_failure_has_its_words(request: RequestV, names: Seq<Seq<char>>)
    ensures
        boot_step(BootNextV::Sip { request }, BootEventV::Sip { passed: false }) == failure(
            "当前 SIP 已启用。首次捕获需按设置向导临时关闭 SIP；不会自动修改系统设置。"@,
        ),
        boot_step(BootNextV::Connected { request }, BootEventV::Connected { ok: false }) == failure(
            "设置窗口已关闭或命令已过期"@,
        ),
        (forall|i: int| 0 <= i < names.len() ==> #[trigger] names[i] != request.account)
            ==> boot_step(BootNextV::Accounts { request }, BootEventV::Accounts { names })
            == failure("所选微信账号未找到"@),
        boot_step(BootNextV::Captured, BootEventV::NoKey) == failure(
            "未获得有效密钥；检查微信版本、登录状态和调试权限"@,
        ),
        chosen(names, request.account).len() > 0 ==> boot_step(
            BootNextV::Accounts { request },
            BootEventV::Accounts { names },
        ) == (BootStepV::Ask {
            ask: BootAskV::Tell {
                text: "将重启微信并等待登录，以捕获此账号的数据库密钥。完成后请恢复 SIP。"@,
            },
            next: BootNextV::Told { which: chosen(names, request.account) },
        }),
{
    if forall|i: int| 0 <= i < names.len() ==> #[trigger] names[i] != request.account {
        lemma_none_is_chosen(names, request.account);
    }
}

proof fn lemma_none_is_chosen(accounts: Seq<Seq<char>>, wanted: Seq<char>)
    requires
        forall|i: int| 0 <= i < accounts.len() ==> #[trigger] accounts[i] != wanted,
    ensures
        chosen(accounts, wanted).len() == 0,
    decreases accounts.len(),
{
    if accounts.len() > 0 {
        assert(accounts[accounts.len() - 1] != wanted);
        assert forall|i: int| 0 <= i < accounts.drop_last().len() implies #[trigger] accounts.drop_last()[i]
            != wanted by {
            assert(accounts[i] != wanted);
        }
        lemma_none_is_chosen(accounts.drop_last(), wanted);
    }
}

} // verus!

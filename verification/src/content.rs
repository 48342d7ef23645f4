//! What messages hold, and how each kind of message is filed.
use vstd::prelude::*;

use crate::json::Json;
use crate::text::{concat, same};

verus! {

/// What a message says, as far as filing it goes.
pub enum MessageContent {
    Text(String),
    Image { md5: Option<String> },
    Voice,
    Video,
    ChannelVideo,
    Emoji,
    Location(String),
    System(String),
    Revoke(String),
    Link { title: Option<String>, des: Option<String>, url: Option<String> },
    File { title: Option<String> },
    MiniProgram { title: Option<String>, url: Option<String> },
    MergedMessages { title: Option<String> },
    Quote { reply_text: Option<String>, refer_content: Option<String> },
    Transfer { amount_desc: Option<String>, pay_memo: Option<String> },
    Other,
}

/// A message as the source holds it.
pub struct Message {
    pub sort_seq: i64,
    /// Zero while the message has not been sent.
    pub server_id: i64,
    pub msg_type: i64,
    pub sub_type: i64,
    pub sender: String,
    pub talker: String,
    pub create_time: i64,
    pub content: MessageContent,
    /// The whole content as JSON, every detail of the source included.
    pub detail: Json,
    pub status: i32,
}

/// The text, empty where there is none.
pub open spec fn text_or_empty(s: Option<String>) -> Seq<char> {
    match s {
        Some(s) => s@,
        None => Seq::empty(),
    }
}

/// Two texts with a space between them, each empty where it is missing.
pub open spec fn pair_text(a: Option<String>, b: Option<String>) -> Seq<char> {
    text_or_empty(a) + " "@ + text_or_empty(b)
}

/// The type under which a message is filed.
pub open spec fn kind_of(c: MessageContent) -> Seq<char> {
    match c {
        MessageContent::Text(_) => "text"@,
        MessageContent::Image { .. } => "image"@,
        MessageContent::Voice => "voice"@,
        MessageContent::Video | MessageContent::ChannelVideo => "video"@,
        MessageContent::Emoji => "emoji"@,
        MessageContent::Location(_) => "location"@,
        MessageContent::System(_) => "system"@,
        MessageContent::Revoke(_) => "revoke"@,
        MessageContent::Link { .. } => "link"@,
        MessageContent::File { .. } => "file"@,
        MessageContent::MiniProgram { .. } => "mini_program"@,
        MessageContent::MergedMessages { .. } => "merged_messages"@,
        MessageContent::Quote { .. } => "quote"@,
        MessageContent::Transfer { .. } => "transfer"@,
        MessageContent::Other => "other"@,
    }
}

/// The text under which a message is found.
pub open spec fn body_of(c: MessageContent) -> Seq<char> {
    match c {
        MessageContent::Text(s) => s@,
        MessageContent::Location(s) => s@,
        MessageContent::System(s) => s@,
        MessageContent::Revoke(s) => s@,
        MessageContent::Link { title, des, url } => pair_text(title, des) + " "@ + text_or_empty(url),
        MessageContent::File { title } => text_or_empty(title),
        MessageContent::MiniProgram { title, url } => pair_text(title, url),
        MessageContent::MergedMessages { title } => text_or_empty(title),
        MessageContent::Quote { reply_text, refer_content } => pair_text(reply_text, refer_content),
        MessageContent::Transfer { amount_desc, pay_memo } => pair_text(amount_desc, pay_memo),
        _ => Seq::empty(),
    }
}

fn or_empty(s: &Option<String>) -> (r: String)
    ensures
        r@ == text_or_empty(*s),
{
    match s {
        Some(s) => s.clone(),
        None => String::new(),
    }
}

fn pair(a: &Option<String>, b: &Option<String>) -> (r: String)
    ensures
        r@ == pair_text(*a, *b),
{
    let first = or_empty(a);
    let second = or_empty(b);
    let head = concat(first.as_str(), " ");
    concat(head.as_str(), second.as_str())
}

/// The type under which a message is filed and the text under which it is
/// found.
pub fn normalize(c: &MessageContent) -> (r: (&'static str, String))
    ensures
        r.0@ == kind_of(*c),
        r.1@ == body_of(*c),
{
    match c {
        MessageContent::Text(s) => ("text", s.clone()),
        MessageContent::Image { .. } => ("image", String::new()),
        MessageContent::Voice => ("voice", String::new()),
        MessageContent::Video | MessageContent::ChannelVideo => ("video", String::new()),
        MessageContent::Emoji => ("emoji", String::new()),
        MessageContent::Location(s) => ("location", s.clone()),
        MessageContent::System(s) => ("system", s.clone()),
        MessageContent::Revoke(s) => ("revoke", s.clone()),
        MessageContent::Link { title, des, url } => {
            let both = pair(title, des);
            let address = or_empty(url);
            let head = concat(both.as_str(), " ");
            ("link", concat(head.as_str(), address.as_str()))
        },
        MessageContent::File { title } => ("file", or_empty(title)),
        MessageContent::MiniProgram { title, url } => ("mini_program", pair(title, url)),
        MessageContent::MergedMessages { title } => ("merged_messages", or_empty(title)),
        MessageContent::Quote { reply_text, refer_content } => (
            "quote",
            pair(reply_text, refer_content),
        ),
        MessageContent::Transfer { amount_desc, pay_memo } => (
            "transfer",
            pair(amount_desc, pay_memo),
        ),
        MessageContent::Other => ("other", String::new()),
    }
}

/// Whether a text names a type under which messages are filed.
pub open spec fn is_type(s: Seq<char>) -> bool {
    ||| s == "text"@
    ||| s == "file"@
    ||| s == "link"@
    ||| s == "image"@
    ||| s == "voice"@
    ||| s == "video"@
    ||| s == "emoji"@
    ||| s == "location"@
    ||| s == "mini_program"@
    ||| s == "merged_messages"@
    ||| s == "quote"@
    ||| s == "transfer"@
    ||| s == "system"@
    ||| s == "revoke"@
    ||| s == "other"@
}

/// Whether a text names a type under which messages are filed.
pub fn is_message_type(s: &str) -> (r: bool)
    ensures
        r == is_type(s@),
{
    same(s, "text") || same(s, "file") || same(s, "link") || same(s, "image") || same(s, "voice")
        || same(s, "video") || same(s, "emoji") || same(s, "location") || same(s, "mini_program")
        || same(s, "merged_messages") || same(s, "quote") || same(s, "transfer") || same(
        s,
        "system",
    ) || same(s, "revoke") || same(s, "other")
}

/// Every message is filed under a type that a filter may name.
pub proof fn law_every_kind_is_a_type(c: MessageContent)
    ensures
        is_type(kind_of(c)),
{
}

/// What each message is filed under: a type that tells its kind.
pub proof fn law_types_tell_the_kind(c: MessageContent)
    ensures
        kind_of(c) == "text"@ <==> c is Text,
        kind_of(c) == "image"@ <==> c is Image,
        kind_of(c) == "voice"@ <==> c is Voice,
        kind_of(c) == "video"@ <==> c is Video || c is ChannelVideo,
        kind_of(c) == "emoji"@ <==> c is Emoji,
        kind_of(c) == "location"@ <==> c is Location,
        kind_of(c) == "system"@ <==> c is System,
        kind_of(c) == "revoke"@ <==> c is Revoke,
        kind_of(c) == "link"@ <==> c is Link,
        kind_of(c) == "file"@ <==> c is File,
        kind_of(c) == "mini_program"@ <==> c is MiniProgram,
        kind_of(c) == "merged_messages"@ <==> c is MergedMessages,
        kind_of(c) == "quote"@ <==> c is Quote,
        kind_of(c) == "transfer"@ <==> c is Transfer,
        kind_of(c) == "other"@ <==> c is Other,
{
    reveal_strlit("text");
    reveal_strlit("image");
    reveal_strlit("voice");
    reveal_strlit("video");
    reveal_strlit("emoji");
    reveal_strlit("location");
    reveal_strlit("system");
    reveal_strlit("revoke");
    reveal_strlit("link");
    reveal_strlit("file");
    reveal_strlit("mini_program");
    reveal_strlit("merged_messages");
    reveal_strlit("quote");
    reveal_strlit("transfer");
    reveal_strlit("other");
    assert("text"@.len() == 4 && "link"@.len() == 4 && "file"@.len() == 4);
    assert("image"@.len() == 5 && "voice"@.len() == 5 && "video"@.len() == 5 && "emoji"@.len() == 5
        && "quote"@.len() == 5 && "other"@.len() == 5);
    assert("system"@.len() == 6 && "revoke"@.len() == 6);
    assert("location"@.len() == 8 && "transfer"@.len() == 8);
    assert("mini_program"@.len() == 12 && "merged_messages"@.len() == 15);
    assert("text"@[0] == 't' && "link"@[0] == 'l' && "file"@[0] == 'f');
    assert("image"@[0] == 'i' && "voice"@[0] == 'v' && "video"@[0] == 'v' && "emoji"@[0] == 'e'
        && "quote"@[0] == 'q' && "other"@[0] == 'o');
    assert("voice"@[1] == 'o' && "video"@[1] == 'i');
    assert("system"@[0] == 's' && "revoke"@[0] == 'r');
    assert("location"@[0] == 'l' && "transfer"@[0] == 't');
}

/// The texts that a message carries, in order, the missing ones left out.
pub open spec fn texts_carried(c: MessageContent) -> Seq<Seq<char>> {
    match c {
        MessageContent::Text(s) | MessageContent::Location(s) | MessageContent::System(
            s,
        ) | MessageContent::Revoke(s) => seq![s@],
        MessageContent::Link { title, des, url } => present_text(title) + present_text(des)
            + present_text(url),
        MessageContent::File { title } => present_text(title),
        MessageContent::MergedMessages { title } => present_text(title),
        MessageContent::MiniProgram { title, url } => present_text(title) + present_text(url),
        MessageContent::Quote { reply_text, refer_content } => present_text(reply_text)
            + present_text(refer_content),
        MessageContent::Transfer { amount_desc, pay_memo } => present_text(amount_desc)
            + present_text(pay_memo),
        _ => Seq::empty(),
    }
}

/// The text alone, where there is one.
pub open spec fn present_text(s: Option<String>) -> Seq<Seq<char>> {
    match s {
        Some(s) => seq![s@],
        None => Seq::empty(),
    }
}

/// Whether the parts stand in a text at these places, one behind the other with
/// something between, and nothing stands between and around them but spaces.
pub open spec fn stand_at(s: Seq<char>, parts: Seq<Seq<char>>, at: Seq<int>) -> bool {
    &&& at.len() == parts.len()
    &&& forall|k: int|
        0 <= k < parts.len() ==> crate::text::occurs_at(s, parts[k], #[trigger] at[k])
    &&& forall|k: int, l: int|
        0 <= k < l < parts.len() ==> (#[trigger] at[k]) + parts[k].len() < (#[trigger] at[l])
    &&& forall|i: int|
        0 <= i < s.len() ==> (#[trigger] s[i]) == ' ' || exists|k: int|
            0 <= k < parts.len() && (#[trigger] at[k]) <= i < at[k] + parts[k].len()
}

/// Whether the parts stand in a text in order, apart from each other, with
/// nothing but spaces besides.
pub open spec fn holds_in_order(s: Seq<char>, parts: Seq<Seq<char>>) -> bool {
    exists|at: Seq<int>| stand_at(s, parts, at)
}

proof fn lemma_pair_stands(a: Option<String>, b: Option<String>)
    ensures
        holds_in_order(pair_text(a, b), present_text(a) + present_text(b)),
{
    reveal_strlit(" ");
    let s = pair_text(a, b);
    let parts = present_text(a) + present_text(b);
    let n = text_or_empty(a).len() as int;
    let at = match (a, b) {
        (Some(_), Some(_)) => seq![0int, n + 1],
        (Some(_), None) => seq![0int],
        (None, Some(_)) => seq![1int],
        (None, None) => Seq::empty(),
    };
    assert(s.subrange(0, n) =~= text_or_empty(a));
    assert(s.subrange(n + 1, s.len() as int) =~= text_or_empty(b));
    assert forall|i: int| 0 <= i < s.len() implies (#[trigger] s[i]) == ' ' || exists|k: int|
        0 <= k < parts.len() && (#[trigger] at[k]) <= i < at[k] + parts[k].len() by {
        if i < n {
            assert(at[0] <= i < at[0] + parts[0].len());
        } else if i > n {
            let k = parts.len() - 1;
            assert(at[k] <= i < at[k] + parts[k].len());
        }
    }
    assert(stand_at(s, parts, at));
}

proof fn lemma_one_stands(a: Option<String>)
    ensures
        holds_in_order(text_or_empty(a), present_text(a)),
{
    let s = text_or_empty(a);
    let parts = present_text(a);
    let at = match a {
        Some(_) => seq![0int],
        None => Seq::empty(),
    };
    assert(s.subrange(0, s.len() as int) =~= s);
    assert forall|i: int| 0 <= i < s.len() implies (#[trigger] s[i]) == ' ' || exists|k: int|
        0 <= k < parts.len() && (#[trigger] at[k]) <= i < at[k] + parts[k].len() by {
        assert(at[0] <= i < at[0] + parts[0].len());
    }
    assert(stand_at(s, parts, at));
}

/// How long texts are together.
pub open spec fn carried_length(parts: Seq<Seq<char>>) -> int
    decreases parts.len(),
{
    if parts.len() == 0 {
        0
    } else {
        carried_length(parts.drop_last()) + parts.last().len()
    }
}

/// Every text that a message carries stands in the text under which it is
/// found, in order, and nothing else does but the spaces
/// that set them apart: of a link the title, the description
/// and the address, of a quote and a transfer both texts, of a mini program the
/// title and the address, of a file and of merged messages the title. Messages
/// that carry no text are found under none.
pub proof fn law_every_text_is_found(c: MessageContent)
    ensures
        holds_in_order(body_of(c), texts_carried(c)),
{
    match c {
        MessageContent::Text(s) | MessageContent::Location(s) | MessageContent::System(
            s,
        ) | MessageContent::Revoke(s) => {
            lemma_one_stands(Some(s));
        },
        MessageContent::Link { title, des, url } => {
            reveal_strlit(" ");
            lemma_pair_stands(title, des);
            let head = pair_text(title, des);
            let first = present_text(title) + present_text(des);
            let s = body_of(c);
            let parts = texts_carried(c);
            let before = choose|at: Seq<int>| stand_at(head, first, at);
            let at = match url {
                Some(_) => before.push(head.len() as int + 1),
                None => before,
            };
            assert(s.subrange(head.len() as int + 1, s.len() as int) =~= text_or_empty(url));
            assert forall|k: int| 0 <= k < parts.len() implies crate::text::occurs_at(
                s,
                parts[k],
                #[trigger] at[k],
            ) by {
                if k < first.len() {
                    assert(parts[k] == first[k]);
                    assert(crate::text::occurs_at(head, first[k], before[k]));
                    assert(s.subrange(at[k], at[k] + parts[k].len()) =~= head.subrange(
                        before[k],
                        before[k] + first[k].len(),
                    ));
                }
            }
            assert forall|k: int, l: int| 0 <= k < l < parts.len() implies (#[trigger] at[k])
                + parts[k].len() < (#[trigger] at[l]) by {
                assert(parts[k] == first[k]);
                assert(crate::text::occurs_at(head, first[k], before[k]));
                if l < first.len() {
                    assert(at[l] == before[l]);
                }
            }
            assert forall|i: int| 0 <= i < s.len() implies (#[trigger] s[i]) == ' '
                || exists|k: int|
                0 <= k < parts.len() && (#[trigger] at[k]) <= i < at[k] + parts[k].len() by {
                if i < head.len() {
                    assert(s[i] == head[i]);
                    if head[i] != ' ' {
                        let k = choose|k: int|
                            0 <= k < first.len() && (#[trigger] before[k]) <= i < before[k]
                                + first[k].len();
                        assert(parts[k] == first[k]);
                        assert(at[k] <= i < at[k] + parts[k].len());
                    }
                } else if i > head.len() {
                    let k = parts.len() - 1;
                    assert(at[k] <= i < at[k] + parts[k].len());
                }
            }
            assert(stand_at(s, parts, at));
        },
        MessageContent::File { title } => lemma_one_stands(title),
        MessageContent::MergedMessages { title } => lemma_one_stands(title),
        MessageContent::MiniProgram { title, url } => lemma_pair_stands(title, url),
        MessageContent::Quote { reply_text, refer_content } => lemma_pair_stands(
            reply_text,
            refer_content,
        ),
        MessageContent::Transfer { amount_desc, pay_memo } => lemma_pair_stands(
            amount_desc,
            pay_memo,
        ),
        _ => lemma_one_stands(None),
    }
}

/// Nothing is added to the texts that a message carries but the spaces between
/// them: two for a link, one for every other message that has two texts.
pub proof fn law_no_text_is_added(c: MessageContent)
    ensures
        body_of(c).len() == carried_length(texts_carried(c)) + if c is Link {
            2int
        } else if c is MiniProgram || c is Quote || c is Transfer {
            1
        } else {
            0
        },
{
    reveal_strlit(" ");
    reveal_with_fuel(carried_length, 4);
}

/// What a filter may name are the types under which messages are filed, and no
/// others.
pub proof fn law_types_are_those_of_messages(s: Seq<char>)
    ensures
        is_type(s) <==> exists|c: MessageContent| #[trigger] kind_of(c) == s,
{
    if is_type(s) {
        let text: String = arbitrary();
        let none: Option<String> = None;
        assert(kind_of(MessageContent::Text(text)) == "text"@);
        assert(kind_of(MessageContent::Image { md5: none }) == "image"@);
        assert(kind_of(MessageContent::Voice) == "voice"@);
        assert(kind_of(MessageContent::Video) == "video"@);
        assert(kind_of(MessageContent::Emoji) == "emoji"@);
        assert(kind_of(MessageContent::Location(text)) == "location"@);
        assert(kind_of(MessageContent::System(text)) == "system"@);
        assert(kind_of(MessageContent::Revoke(text)) == "revoke"@);
        assert(kind_of(MessageContent::Link { title: none, des: none, url: none }) == "link"@);
        assert(kind_of(MessageContent::File { title: none }) == "file"@);
        assert(kind_of(MessageContent::MiniProgram { title: none, url: none }) == "mini_program"@);
        assert(kind_of(MessageContent::MergedMessages { title: none }) == "merged_messages"@);
        assert(kind_of(MessageContent::Quote { reply_text: none, refer_content: none })
            == "quote"@);
        assert(kind_of(MessageContent::Transfer { amount_desc: none, pay_memo: none })
            == "transfer"@);
        assert(kind_of(MessageContent::Other) == "other"@);
    }
    if exists|c: MessageContent| #[trigger] kind_of(c) == s {
        let c = choose|c: MessageContent| #[trigger] kind_of(c) == s;
        law_every_kind_is_a_type(c);
    }
}

} // verus!

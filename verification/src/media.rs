//! The media of a message: what to look for, what may be read, and what is
//! answered. The bytes are found, decrypted and kept outside; here it is
//! decided which, in what order, and how far.
use vstd::prelude::*;

use crate::fault::Fault;
use crate::index::{outcome_view, Outcome};
use crate::json::{object_of, put, text, Field, Json, JsonV};
use crate::text::{decimal_text, same};

verus! {

/// The most bytes that are served of one message.
pub const MAX: u64 = 104857600;

/// One link of the directory of hard links: where a file may lie.
pub struct HardLink {
    pub dir1: String,
    pub dir2: String,
    pub file_name: String,
}

/// The mathematical view of a link.
pub struct HardLinkV {
    pub dir1: Seq<char>,
    pub dir2: Seq<char>,
    pub file_name: Seq<char>,
}

impl View for HardLink {
    type V = HardLinkV;

    open spec fn view(&self) -> HardLinkV {
        HardLinkV { dir1: self.dir1@, dir2: self.dir2@, file_name: self.file_name@ }
    }
}

/// The views of links.
pub open spec fn links_view(v: Seq<HardLink>) -> Seq<HardLinkV> {
    Seq::new(v.len(), |i: int| v[i]@)
}

/// A path as its components, each in its own bytes.
pub open spec fn path_view(v: Seq<Vec<u8>>) -> Seq<Seq<u8>> {
    Seq::new(v.len(), |i: int| v[i]@)
}

/// What to do outside.
pub enum MediaAsk {
    /// Find the best copy of an image of a conversation.
    FindImage { conversation: String, md5: String },
    /// Find the databases that hold recordings.
    ListDatabases,
    /// Look for a recording in one of those databases.
    TryVoice { database: usize, server: String },
    /// Find the links of a file or a video.
    FindLinks { kind: String, md5: String },
    /// See whether a file lies there, below the directory of its kind.
    Probe { parts: Vec<String> },
    /// Follow the account's directory and the file found to where they really
    /// lie.
    Locate,
    /// Read the file that was located, no further than this.
    Load { limit: u64 },
    /// Decrypt an image, with the key where one is known.
    Decrypt { data: Vec<u8>, key: Option<Vec<u8>> },
    /// Convert an image to a common format.
    Transcode { data: Vec<u8> },
    /// Keep the bytes in a new file whose name ends so.
    Keep { data: Vec<u8>, suffix: String },
}

/// The mathematical view of that.
pub enum MediaAskV {
    FindImage { conversation: Seq<char>, md5: Seq<char> },
    ListDatabases,
    TryVoice { database: usize, server: Seq<char> },
    FindLinks { kind: Seq<char>, md5: Seq<char> },
    Probe { parts: Seq<Seq<char>> },
    Locate,
    Load { limit: u64 },
    Decrypt { data: Seq<u8>, key: Option<Seq<u8>> },
    Transcode { data: Seq<u8> },
    Keep { data: Seq<u8>, suffix: Seq<char> },
}

impl View for MediaAsk {
    type V = MediaAskV;

    open spec fn view(&self) -> MediaAskV {
        match self {
            MediaAsk::FindImage { conversation, md5 } => MediaAskV::FindImage {
                conversation: conversation@,
                md5: md5@,
            },
            MediaAsk::ListDatabases => MediaAskV::ListDatabases,
            MediaAsk::TryVoice { database, server } => MediaAskV::TryVoice {
                database: *database,
                server: server@,
            },
            MediaAsk::FindLinks { kind, md5 } => MediaAskV::FindLinks { kind: kind@, md5: md5@ },
            MediaAsk::Probe { parts } => MediaAskV::Probe {
                parts: crate::text::texts_view(parts@),
            },
            MediaAsk::Locate => MediaAskV::Locate,
            MediaAsk::Load { limit } => MediaAskV::Load { limit: *limit },
            MediaAsk::Decrypt { data, key } => MediaAskV::Decrypt {
                data: data@,
                key: crate::source::bytes_view(*key),
            },
            MediaAsk::Transcode { data } => MediaAskV::Transcode { data: data@ },
            MediaAsk::Keep { data, suffix } => MediaAskV::Keep { data: data@, suffix: suffix@ },
        }
    }
}

/// What came of it.
pub enum MediaEvent {
    /// Whether the image was found.
    Image { found: bool },
    /// How many databases hold recordings.
    Databases { count: usize },
    /// The recording, where the database holds it.
    Voice { data: Option<Vec<u8>> },
    /// The links found.
    Links { links: Vec<HardLink> },
    /// Whether a file lies there.
    Probed { present: bool },
    /// Where the account's directory and the file really lie.
    Located { root: Vec<Vec<u8>>, path: Vec<Vec<u8>> },
    /// The bytes read.
    Loaded { data: Vec<u8> },
    /// The image in plain, and its format.
    Decrypted { data: Vec<u8>, ext: String },
    /// The image in a common format, where a transcoder was there.
    Transcoded { transcoded: bool, data: Vec<u8>, ext: String },
    /// The path of the new file.
    Kept { path: String },
}

/// The mathematical view of that.
pub enum MediaEventV {
    Image { found: bool },
    Databases { count: usize },
    Voice { data: Option<Seq<u8>> },
    Links { links: Seq<HardLinkV> },
    Probed { present: bool },
    Located { root: Seq<Seq<u8>>, path: Seq<Seq<u8>> },
    Loaded { data: Seq<u8> },
    Decrypted { data: Seq<u8>, ext: Seq<char> },
    Transcoded { transcoded: bool, data: Seq<u8>, ext: Seq<char> },
    Kept { path: Seq<char> },
}

impl View for MediaEvent {
    type V = MediaEventV;

    open spec fn view(&self) -> MediaEventV {
        match self {
            MediaEvent::Image { found } => MediaEventV::Image { found: *found },
            MediaEvent::Databases { count } => MediaEventV::Databases { count: *count },
            MediaEvent::Voice { data } => MediaEventV::Voice {
                data: match data {
                    Some(d) => Some(d@),
                    None => None,
                },
            },
            MediaEvent::Links { links } => MediaEventV::Links { links: links_view(links@) },
            MediaEvent::Probed { present } => MediaEventV::Probed { present: *present },
            MediaEvent::Located { root, path } => MediaEventV::Located {
                root: path_view(root@),
                path: path_view(path@),
            },
            MediaEvent::Loaded { data } => MediaEventV::Loaded { data: data@ },
            MediaEvent::Decrypted { data, ext } => MediaEventV::Decrypted {
                data: data@,
                ext: ext@,
            },
            MediaEvent::Transcoded { transcoded, data, ext } => MediaEventV::Transcoded {
                transcoded: *transcoded,
                data: data@,
                ext: ext@,
            },
            MediaEvent::Kept { path } => MediaEventV::Kept { path: path@ },
        }
    }
}

/// What a file turns out to be for.
#[derive(Clone, Copy, PartialEq, Eq, Structural)]
pub enum Medium {
    Image,
    File,
    Video,
}

/// Where the search for the media of a message stands.
pub enum MediaNext {
    Image,
    Databases { server: String },
    Voice { server: String, database: usize, count: usize },
    Links { medium: Medium },
    Probing { medium: Medium, candidates: Vec<Vec<String>>, at: usize },
    Located { medium: Medium },
    Loaded { medium: Medium },
    Decrypted,
    Transcoded,
    Kept { mime: String, size: usize },
}

/// The mathematical view of that.
pub enum MediaNextV {
    Image,
    Databases { server: Seq<char> },
    Voice { server: Seq<char>, database: usize, count: usize },
    Links { medium: Medium },
    Probing { medium: Medium, candidates: Seq<Seq<Seq<char>>>, at: usize },
    Located { medium: Medium },
    Loaded { medium: Medium },
    Decrypted,
    Transcoded,
    Kept { mime: Seq<char>, size: usize },
}

impl View for MediaNext {
    type V = MediaNextV;

    open spec fn view(&self) -> MediaNextV {
        match self {
            MediaNext::Image => MediaNextV::Image,
            MediaNext::Databases { server } => MediaNextV::Databases { server: server@ },
            MediaNext::Voice { server, database, count } => MediaNextV::Voice {
                server: server@,
                database: *database,
                count: *count,
            },
            MediaNext::Links { medium } => MediaNextV::Links { medium: *medium },
            MediaNext::Probing { medium, candidates, at } => MediaNextV::Probing {
                medium: *medium,
                candidates: crate::query::found_view(candidates@),
                at: *at,
            },
            MediaNext::Located { medium } => MediaNextV::Located { medium: *medium },
            MediaNext::Loaded { medium } => MediaNextV::Loaded { medium: *medium },
            MediaNext::Decrypted => MediaNextV::Decrypted,
            MediaNext::Transcoded => MediaNextV::Transcoded,
            MediaNext::Kept { mime, size } => MediaNextV::Kept { mime: mime@, size: *size },
        }
    }
}

/// What to do next.
pub enum MediaStep {
    Ask { ask: MediaAsk, next: MediaNext },
    Done(Result<Json, Fault>),
}

/// The mathematical view of that.
pub enum MediaStepV {
    Ask { ask: MediaAskV, next: MediaNextV },
    Done(Outcome),
}

impl View for MediaStep {
    type V = MediaStepV;

    open spec fn view(&self) -> MediaStepV {
        match self {
            MediaStep::Ask { ask, next } => MediaStepV::Ask { ask: ask@, next: next@ },
            MediaStep::Done(r) => MediaStepV::Done(outcome_view(*r)),
        }
    }
}

/// The step that ends the search with a refusal.
pub open spec fn no_media(text: Seq<char>) -> MediaStepV {
    MediaStepV::Done(Outcome::Err(text))
}

/// What a message asks to be looked for first.
pub open spec fn media_begin(account_known: bool, msg: JsonV) -> MediaStepV {
    let kind = msg.text_at("type"@);
    let content = msg.at("content"@);
    if !account_known {
        no_media("invalid_account_root"@)
    } else if kind == "image"@ {
        match content.at("Image"@).at("md5"@).as_text() {
            None => no_media("image_reference_missing"@),
            Some(md5) => match msg.at("conversation_id"@).as_text() {
                None => no_media("conversation_required"@),
                Some(conversation) => MediaStepV::Ask {
                    ask: MediaAskV::FindImage { conversation, md5 },
                    next: MediaNextV::Image,
                },
            },
        }
    } else if kind == "voice"@ {
        match msg.at("source"@).at("server_id"@).as_signed() {
            None => no_media("voice_reference_missing"@),
            Some(n) => MediaStepV::Ask {
                ask: MediaAskV::ListDatabases,
                next: MediaNextV::Databases { server: crate::text::decimal(n) },
            },
        }
    } else if kind == "file"@ || kind == "video"@ {
        let variant = if kind == "file"@ {
            "File"@
        } else {
            "Video"@
        };
        match content.at(variant).at("md5"@).as_text() {
            None => no_media("media_reference_missing"@),
            Some(md5) => MediaStepV::Ask {
                ask: MediaAskV::FindLinks { kind, md5 },
                next: MediaNextV::Links {
                    medium: if kind == "file"@ {
                        Medium::File
                    } else {
                        Medium::Video
                    },
                },
            },
        }
    } else {
        no_media("message_has_no_supported_media"@)
    }
}

/// The media type of an image, by its format.
pub open spec fn image_mime(ext: Seq<char>) -> Seq<char> {
    if ext == "jpg"@ || ext == "jpeg"@ {
        "image/jpeg"@
    } else if ext == "png"@ {
        "image/png"@
    } else if ext == "gif"@ {
        "image/gif"@
    } else if ext == "webp"@ {
        "image/webp"@
    } else {
        "application/octet-stream"@
    }
}

/// Keeping bytes, unless there are too many.
pub open spec fn keep(data: Seq<u8>, mime: Seq<char>, ext: Seq<char>) -> MediaStepV {
    if data.len() > MAX {
        no_media("media_exceeds_100_MB"@)
    } else {
        MediaStepV::Ask {
            ask: MediaAskV::Keep { data, suffix: "."@ + ext },
            next: MediaNextV::Kept { mime, size: data.len() as usize },
        }
    }
}

/// The places that a file may lie at: below both directories of each link, or
/// below the first alone.
pub open spec fn candidates_of(links: Seq<HardLinkV>) -> Seq<Seq<Seq<char>>>
    decreases links.len(),
{
    if links.len() == 0 {
        Seq::empty()
    } else {
        let e = links.last();
        candidates_of(links.drop_last()) + seq![
            seq![e.dir1, e.dir2, e.file_name],
            seq![e.dir1, e.file_name],
        ]
    }
}

/// Trying the places from one on.
pub open spec fn probe(medium: Medium, candidates: Seq<Seq<Seq<char>>>, at: int) -> MediaStepV {
    if 0 <= at < candidates.len() {
        MediaStepV::Ask {
            ask: MediaAskV::Probe { parts: candidates[at] },
            next: MediaNextV::Probing { medium, candidates, at: at as usize },
        }
    } else {
        no_media("media_not_available_locally"@)
    }
}

/// Trying the databases of recordings from one on.
pub open spec fn try_voice(server: Seq<char>, database: int, count: usize) -> MediaStepV {
    if 0 <= database < count {
        MediaStepV::Ask {
            ask: MediaAskV::TryVoice { database: database as usize, server },
            next: MediaNextV::Voice { server, database: database as usize, count },
        }
    } else {
        no_media("voice_not_available_locally"@)
    }
}

/// What is answered once the bytes are kept.
pub open spec fn media_answer(msg: JsonV, path: Seq<char>, mime: Seq<char>, size: int) -> JsonV {
    crate::json::object(
        seq![
            crate::json::field_v("path", JsonV::Str(path)),
            crate::json::field_v("mime_type", JsonV::Str(mime)),
            crate::json::field_v("size", JsonV::Num(size)),
            crate::json::field_v("message_id", msg.at("message_id"@)),
        ],
    )
}

/// What comes after each stage of the search, given the key of images where one
/// is known.
pub open spec fn media_step(
    msg: JsonV,
    key: Option<Seq<u8>>,
    next: MediaNextV,
    event: MediaEventV,
) -> MediaStepV {
    match (next, event) {
        (MediaNextV::Image, MediaEventV::Image { found }) => if found {
            MediaStepV::Ask {
                ask: MediaAskV::Locate,
                next: MediaNextV::Located { medium: Medium::Image },
            }
        } else {
            no_media("image_not_available_locally"@)
        },
        (MediaNextV::Databases { server }, MediaEventV::Databases { count }) => try_voice(
            server,
            0,
            count,
        ),
        (MediaNextV::Voice { server, database, count }, MediaEventV::Voice { data }) => match data {
            Some(d) => keep(d, "audio/silk"@, "silk"@),
            None => try_voice(server, database + 1, count),
        },
        (MediaNextV::Links { medium }, MediaEventV::Links { links }) => probe(
            medium,
            candidates_of(links),
            0,
        ),
        (
            MediaNextV::Probing { medium, candidates, at },
            MediaEventV::Probed { present },
        ) => if present {
            MediaStepV::Ask { ask: MediaAskV::Locate, next: MediaNextV::Located { medium } }
        } else {
            probe(medium, candidates, at + 1)
        },
        (
            MediaNextV::Located { medium },
            MediaEventV::Located { root, path },
        ) => if root.is_prefix_of(path) {
            MediaStepV::Ask {
                ask: MediaAskV::Load { limit: (MAX + 1) as u64 },
                next: MediaNextV::Loaded { medium },
            }
        } else {
            no_media("media_path_outside_account"@)
        },
        (MediaNextV::Loaded { medium }, MediaEventV::Loaded { data }) => if data.len() > MAX {
            no_media("media_exceeds_100_MB"@)
        } else {
            match medium {
                Medium::Image => MediaStepV::Ask {
                    ask: MediaAskV::Decrypt { data, key },
                    next: MediaNextV::Decrypted,
                },
                Medium::Video => keep(data, "video/mp4"@, "bin"@),
                Medium::File => keep(data, "application/octet-stream"@, "bin"@),
            }
        },
        (MediaNextV::Decrypted, MediaEventV::Decrypted { data, ext }) => if ext == "wxgf"@ {
            MediaStepV::Ask {
                ask: MediaAskV::Transcode { data },
                next: MediaNextV::Transcoded,
            }
        } else {
            keep(data, image_mime(ext), ext)
        },
        (
            MediaNextV::Transcoded,
            MediaEventV::Transcoded { transcoded, data, ext },
        ) => if transcoded {
            keep(data, image_mime(ext), ext)
        } else {
            no_media("wxgf_transcoder_unavailable"@)
        },
        (MediaNextV::Kept { mime, size }, MediaEventV::Kept { path }) => MediaStepV::Done(
            Outcome::Ok(media_answer(msg, path, mime, size as int)),
        ),
        _ => no_media("unexpected_answer"@),
    }
}

/// Nothing is read but a file that really lies below the account's directory.
pub proof fn law_only_the_account_is_read(
    msg: JsonV,
    key: Option<Seq<u8>>,
    next: MediaNextV,
    event: MediaEventV,
)
    requires
        media_step(msg, key, next, event) matches MediaStepV::Ask { ask, .. } && ask is Load,
    ensures
        event matches MediaEventV::Located { root, path } && root.is_prefix_of(path),
{
}

/// No more than the limit is ever kept.
pub proof fn law_kept_media_is_bounded(
    msg: JsonV,
    key: Option<Seq<u8>>,
    next: MediaNextV,
    event: MediaEventV,
)
    ensures
        media_step(msg, key, next, event) matches MediaStepV::Ask { ask, .. } ==> (
        ask matches MediaAskV::Keep { data, .. } ==> data.len() <= MAX),
{
}

/// Images are decrypted with the key that is known, and nothing else is
/// decrypted: what was read goes there as it is.
pub proof fn law_images_are_decrypted_with_the_key(
    msg: JsonV,
    key: Option<Seq<u8>>,
    next: MediaNextV,
    event: MediaEventV,
)
    ensures
        (media_step(msg, key, next, event) matches MediaStepV::Ask { ask, .. } && ask is Decrypt)
            <==> (next == (MediaNextV::Loaded { medium: Medium::Image }) && (
        event matches MediaEventV::Loaded { data } && data.len() <= MAX)),
        media_step(msg, key, next, event) matches MediaStepV::Ask { ask, .. } ==> (
        ask matches MediaAskV::Decrypt { data, key: k } ==> k == key && event
            == (MediaEventV::Loaded { data })),
{
}

/// A place where no file lies leads on to the next one, and the last one to
/// the end of the search.
pub proof fn law_probing_ends(
    msg: JsonV,
    key: Option<Seq<u8>>,
    medium: Medium,
    candidates: Seq<Seq<Seq<char>>>,
    at: usize,
)
    ensures
        media_step(
            msg,
            key,
            MediaNextV::Probing { medium, candidates, at },
            MediaEventV::Probed { present: false },
        ) == if at + 1 < candidates.len() {
            MediaStepV::Ask {
                ask: MediaAskV::Probe { parts: candidates[at + 1] },
                next: MediaNextV::Probing { medium, candidates, at: (at + 1) as usize },
            }
        } else {
            no_media("media_not_available_locally"@)
        },
{
}

/// What a message is searched for by follows from its type: an image by the
/// conversation and the digest in its content; a recording by the number that
/// the server gave the message; a file or a video, under its own kind, by the
/// digest in the content of that kind. Nothing else is searched for.
pub proof fn law_search_goes_by_the_message(account_known: bool, msg: JsonV)
    ensures
        media_begin(account_known, msg) matches MediaStepV::Ask { ask, next } ==> {
            &&& account_known
            &&& match ask {
                MediaAskV::FindImage { conversation, md5 } => {
                    &&& msg.at("type"@) == JsonV::Str("image"@)
                    &&& msg.at("conversation_id"@) == JsonV::Str(conversation)
                    &&& msg.at("content"@).at("Image"@).at("md5"@) == JsonV::Str(md5)
                    &&& next == MediaNextV::Image
                },
                MediaAskV::ListDatabases => {
                    &&& msg.at("type"@) == JsonV::Str("voice"@)
                    &&& exists|n: int|
                        n <= i64::MAX && msg.at("source"@).at("server_id"@) == JsonV::Num(n)
                            && #[trigger] next_database(next, n)
                },
                MediaAskV::FindLinks { kind, md5 } => {
                    &&& msg.at("type"@) == JsonV::Str(kind)
                    &&& kind == "file"@ || kind == "video"@
                    &&& kind == "file"@ ==> msg.at("content"@).at("File"@).at("md5"@)
                        == JsonV::Str(md5) && next == MediaNextV::Links { medium: Medium::File }
                    &&& kind == "video"@ ==> msg.at("content"@).at("Video"@).at("md5"@)
                        == JsonV::Str(md5) && next == MediaNextV::Links { medium: Medium::Video }
                },
                _ => false,
            }
        },
{
    reveal_strlit("image");
    reveal_strlit("voice");
    reveal_strlit("file");
    reveal_strlit("video");
    assert("image"@.len() == 5 && "voice"@.len() == 5 && "video"@.len() == 5 && "file"@.len() == 4);
    match msg.at("source"@).at("server_id"@) {
        JsonV::Num(n) => {
            assert(media_begin(account_known, msg) matches MediaStepV::Ask { ask, next } ==> (
            ask is ListDatabases ==> next_database(next, n)));
        },
        _ => {},
    }
}

/// Whether a recording is to be looked up under this number.
pub open spec fn next_database(next: MediaNextV, n: int) -> bool {
    next == MediaNextV::Databases { server: crate::text::decimal(n) }
}

/// A search begins wherever the message says what to search for; else it is
/// refused, and the refusal says what is missing.
pub proof fn law_search_begins_or_says_why(account_known: bool, msg: JsonV)
    ensures
        media_begin(account_known, msg) == no_media("invalid_account_root"@) <==> !account_known,
        account_known && msg.text_at("type"@) == "image"@ ==> {
            let md5 = msg.at("content"@).at("Image"@).at("md5"@);
            &&& media_begin(account_known, msg) == no_media("image_reference_missing"@) <==> !(
            md5 is Str)
            &&& media_begin(account_known, msg) == no_media("conversation_required"@) <==> md5 is Str
                && !(msg.at("conversation_id"@) is Str)
            &&& media_begin(account_known, msg) is Ask <==> md5 is Str && msg.at(
                "conversation_id"@,
            ) is Str
        },
        account_known && msg.text_at("type"@) == "voice"@ ==> {
            let n = msg.at("source"@).at("server_id"@);
            let known = n is Num && n->Num_0 <= i64::MAX;
            &&& media_begin(account_known, msg) is Ask <==> known
            &&& media_begin(account_known, msg) == no_media("voice_reference_missing"@) <==> !known
        },
        account_known && (msg.text_at("type"@) == "file"@ || msg.text_at("type"@) == "video"@) ==> {
            let md5 = msg.at("content"@).at(
                if msg.text_at("type"@) == "file"@ {
                    "File"@
                } else {
                    "Video"@
                },
            ).at("md5"@);
            &&& media_begin(account_known, msg) is Ask <==> md5 is Str
            &&& media_begin(account_known, msg) == no_media("media_reference_missing"@) <==> !(
            md5 is Str)
        },
        account_known && msg.text_at("type"@) != "image"@ && msg.text_at("type"@) != "voice"@
            && msg.text_at("type"@) != "file"@ && msg.text_at("type"@) != "video"@ ==> media_begin(
            account_known,
            msg,
        ) == no_media("message_has_no_supported_media"@),
{
    reveal_strlit("image");
    reveal_strlit("voice");
    reveal_strlit("file");
    reveal_strlit("video");
    reveal_strlit("invalid_account_root");
    reveal_strlit("image_reference_missing");
    reveal_strlit("conversation_required");
    reveal_strlit("voice_reference_missing");
    reveal_strlit("media_reference_missing");
    reveal_strlit("message_has_no_supported_media");
    assert("image"@.len() == 5 && "voice"@.len() == 5 && "video"@.len() == 5 && "file"@.len() == 4);
    assert("image"@[0] == 'i' && "voice"@[1] == 'o' && "voice"@[0] == 'v' && "video"@[1] == 'i'
        && "video"@[0] == 'v');
    assert("invalid_account_root"@.len() == 20 && "image_reference_missing"@.len() == 23
        && "conversation_required"@.len() == 21 && "voice_reference_missing"@.len() == 23
        && "media_reference_missing"@.len() == 23 && "message_has_no_supported_media"@.len() == 30);
}

/// A file may lie at two places for each link that names it, below both its
/// directories and below the first alone, in the order of the links, and at no
/// others.
pub proof fn law_each_link_names_two_places(links: Seq<HardLinkV>, i: int)
    requires
        0 <= i < links.len(),
    ensures
        candidates_of(links).len() == 2 * links.len(),
        candidates_of(links)[2 * i] == seq![links[i].dir1, links[i].dir2, links[i].file_name],
        candidates_of(links)[2 * i + 1] == seq![links[i].dir1, links[i].file_name],
    decreases links.len(),
{
    let last = links.len() - 1;
    reveal_with_fuel(candidates_of, 2);
    if i < last {
        law_each_link_names_two_places(links.drop_last(), i);
    } else if last > 0 {
        law_each_link_names_two_places(links.drop_last(), 0);
    }
}

/// Every place is tried from the first on, and every database of recordings
/// too: the search ends where something is found, or behind the last.
pub proof fn law_search_tries_everything(
    msg: JsonV,
    key: Option<Seq<u8>>,
    medium: Medium,
    links: Seq<HardLinkV>,
    server: Seq<char>,
    database: usize,
    count: usize,
)
    ensures
        media_step(
            msg,
            key,
            MediaNextV::Links { medium },
            MediaEventV::Links { links },
        ) == if links.len() == 0 {
            no_media("media_not_available_locally"@)
        } else {
            MediaStepV::Ask {
                ask: MediaAskV::Probe {
                    parts: seq![links[0].dir1, links[0].dir2, links[0].file_name],
                },
                next: MediaNextV::Probing { medium, candidates: candidates_of(links), at: 0 },
            }
        },
        media_step(
            msg,
            key,
            MediaNextV::Databases { server },
            MediaEventV::Databases { count },
        ) == if count == 0 {
            no_media("voice_not_available_locally"@)
        } else {
            MediaStepV::Ask {
                ask: MediaAskV::TryVoice { database: 0, server },
                next: MediaNextV::Voice { server, database: 0, count },
            }
        },
        media_step(
            msg,
            key,
            MediaNextV::Voice { server, database, count },
            MediaEventV::Voice { data: None },
        ) == if database + 1 >= count {
            no_media("voice_not_available_locally"@)
        } else {
            MediaStepV::Ask {
                ask: MediaAskV::TryVoice { database: (database + 1) as usize, server },
                next: MediaNextV::Voice { server, database: (database + 1) as usize, count },
            }
        },
        media_step(
            msg,
            key,
            MediaNextV::Image,
            MediaEventV::Image { found: false },
        ) == no_media("image_not_available_locally"@),
{
    if links.len() > 0 {
        law_each_link_names_two_places(links, 0);
    }
}

/// What was found is followed to where it really lies before it is read: an
/// image, and a file or a video at the place that was tried.
pub proof fn law_what_is_found_is_located(
    msg: JsonV,
    key: Option<Seq<u8>>,
    medium: Medium,
    candidates: Seq<Seq<Seq<char>>>,
    at: usize,
)
    ensures
        media_step(msg, key, MediaNextV::Image, MediaEventV::Image { found: true }) == (
        MediaStepV::Ask {
            ask: MediaAskV::Locate,
            next: MediaNextV::Located { medium: Medium::Image },
        }),
        media_step(
            msg,
            key,
            MediaNextV::Probing { medium, candidates, at },
            MediaEventV::Probed { present: true },
        ) == (MediaStepV::Ask { ask: MediaAskV::Locate, next: MediaNextV::Located { medium } }),
{
}

/// What was found is kept as it is, under a name that ends in its format and
/// with the media type of its kind: recordings as Silk, videos as MP4, files as
/// plain bytes, images by the format that they were decrypted or converted to.
/// An image in the messenger's own format is converted first.
pub proof fn law_media_is_kept_by_its_kind(
    msg: JsonV,
    key: Option<Seq<u8>>,
    server: Seq<char>,
    database: usize,
    count: usize,
    data: Seq<u8>,
    ext: Seq<char>,
)
    requires
        data.len() <= 104857600,
    ensures
        media_step(
            msg,
            key,
            MediaNextV::Voice { server, database, count },
            MediaEventV::Voice { data: Some(data) },
        ) == kept_so(data, "audio/silk"@, ".silk"@),
        media_step(
            msg,
            key,
            MediaNextV::Loaded { medium: Medium::Video },
            MediaEventV::Loaded { data },
        ) == kept_so(data, "video/mp4"@, ".bin"@),
        media_step(
            msg,
            key,
            MediaNextV::Loaded { medium: Medium::File },
            MediaEventV::Loaded { data },
        ) == kept_so(data, "application/octet-stream"@, ".bin"@),
        media_step(
            msg,
            key,
            MediaNextV::Decrypted,
            MediaEventV::Decrypted { data, ext },
        ) == if ext == "wxgf"@ {
            MediaStepV::Ask { ask: MediaAskV::Transcode { data }, next: MediaNextV::Transcoded }
        } else {
            kept_so(data, image_mime(ext), seq!['.'] + ext)
        },
        media_step(
            msg,
            key,
            MediaNextV::Transcoded,
            MediaEventV::Transcoded { transcoded: true, data, ext },
        ) == kept_so(data, image_mime(ext), seq!['.'] + ext),
        media_step(
            msg,
            key,
            MediaNextV::Transcoded,
            MediaEventV::Transcoded { transcoded: false, data, ext },
        ) == no_media("wxgf_transcoder_unavailable"@),
        image_mime(ext) == "image/jpeg"@ <==> ext == "jpg"@ || ext == "jpeg"@,
        image_mime(ext) == "image/png"@ <==> ext == "png"@,
        image_mime(ext) == "image/gif"@ <==> ext == "gif"@,
        image_mime(ext) == "image/webp"@ <==> ext == "webp"@,
        image_mime(ext) == "application/octet-stream"@ <==> !(ext == "jpg"@ || ext == "jpeg"@ || ext
            == "png"@ || ext == "gif"@ || ext == "webp"@),
{
    reveal_strlit(".");
    reveal_strlit("silk");
    reveal_strlit(".silk");
    reveal_strlit("bin");
    reveal_strlit(".bin");
    assert("."@ =~= seq!['.']);
    assert("."@ + "silk"@ =~= ".silk"@);
    assert("."@ + "bin"@ =~= ".bin"@);
    reveal_strlit("jpg");
    reveal_strlit("jpeg");
    reveal_strlit("png");
    reveal_strlit("gif");
    reveal_strlit("webp");
    assert("jpg"@[0] == 'j' && "png"@[0] == 'p' && "gif"@[0] == 'g' && "jpg"@.len() == 3
        && "png"@.len() == 3 && "gif"@.len() == 3);
    assert("jpeg"@[0] == 'j' && "webp"@[0] == 'w' && "jpeg"@.len() == 4 && "webp"@.len() == 4);
    reveal_strlit("image/jpeg");
    reveal_strlit("image/png");
    reveal_strlit("image/gif");
    reveal_strlit("image/webp");
    reveal_strlit("application/octet-stream");
    assert("image/jpeg"@.len() == 10 && "image/jpeg"@[6] == 'j');
    assert("image/webp"@.len() == 10 && "image/webp"@[6] == 'w');
    assert("image/png"@.len() == 9 && "image/png"@[6] == 'p');
    assert("image/gif"@.len() == 9 && "image/gif"@[6] == 'g');
    assert("application/octet-stream"@.len() == 24);
}

/// The step that keeps bytes under a name that ends so, with a media type.
pub open spec fn kept_so(data: Seq<u8>, mime: Seq<char>, suffix: Seq<char>) -> MediaStepV {
    MediaStepV::Ask {
        ask: MediaAskV::Keep { data, suffix },
        next: MediaNextV::Kept { mime, size: data.len() as usize },
    }
}

/// What is served is found where it was kept: the answer names the file, its
/// media type, its size and the message.
pub proof fn law_answer_names_what_was_kept(
    msg: JsonV,
    key: Option<Seq<u8>>,
    mime: Seq<char>,
    size: usize,
    path: Seq<char>,
)
    ensures
        media_step(
            msg,
            key,
            MediaNextV::Kept { mime, size },
            MediaEventV::Kept { path },
        ) matches MediaStepV::Done(Ok(answer)) && {
            &&& answer.at("path"@) == JsonV::Str(path)
            &&& answer.at("mime_type"@) == JsonV::Str(mime)
            &&& answer.at("size"@) == JsonV::Num(size as int)
            &&& answer.at("message_id"@) == msg.at("message_id"@)
        },
{
    let o = media_answer(msg, path, mime, size as int)->Obj_0;
    reveal_strlit("path");
    reveal_strlit("mime_type");
    reveal_strlit("size");
    reveal_strlit("message_id");
    assert("path"@.len() == 4 && "path"@[0] == 'p' && "size"@.len() == 4 && "size"@[0] == 's');
    assert("mime_type"@.len() == 9 && "message_id"@.len() == 10);
    assert(crate::json::names_differ(o));
    crate::json::lemma_member_at(o, 0);
    crate::json::lemma_member_at(o, 1);
    crate::json::lemma_member_at(o, 2);
    crate::json::lemma_member_at(o, 3);
}

/// A file is read no further than one byte behind what may be served, which is
/// a hundred mebibytes, and what is longer is refused.
pub proof fn law_no_more_is_read(
    msg: JsonV,
    key: Option<Seq<u8>>,
    medium: Medium,
    root: Seq<Seq<u8>>,
    path: Seq<Seq<u8>>,
    data: Seq<u8>,
)
    ensures
        media_step(
            msg,
            key,
            MediaNextV::Located { medium },
            MediaEventV::Located { root, path },
        ) == if root.len() <= path.len() && path.take(root.len() as int) == root {
            MediaStepV::Ask {
                ask: MediaAskV::Load { limit: 104857601 },
                next: MediaNextV::Loaded { medium },
            }
        } else {
            no_media("media_path_outside_account"@)
        },
        data.len() > 100 * 1024 * 1024 ==> media_step(
            msg,
            key,
            MediaNextV::Loaded { medium },
            MediaEventV::Loaded { data },
        ) == no_media("media_exceeds_100_MB"@),
{
    if root.is_prefix_of(path) {
        assert(path.take(root.len() as int) =~= root);
    }
}

fn ended(f: Fault) -> (r: MediaStep)
    ensures
        r@ == no_media(f@),
{
    MediaStep::Done(Err(f))
}

/// Begins to look for the media of a message. The account's directory is known
/// unless the data directory is the root of the file system.
pub fn extract(account_known: bool, msg: &Json) -> (r: MediaStep)
    ensures
        r@ == media_begin(account_known, msg@),
{
    if !account_known {
        return ended(Fault::InvalidAccountRoot);
    }
    let kind = text(msg, "type");
    if same(kind.as_str(), "image") {
        return begin_image(msg);
    }
    if same(kind.as_str(), "voice") {
        return begin_voice(msg);
    }
    let file = same(kind.as_str(), "file");
    if !file && !same(kind.as_str(), "video") {
        return ended(Fault::MessageWithoutMedia);
    }
    let variant = if file {
        "File"
    } else {
        "Video"
    };
    let medium = if file {
        Medium::File
    } else {
        Medium::Video
    };
    match reference(msg, variant) {
        Some(md5) => MediaStep::Ask {
            ask: MediaAsk::FindLinks { kind, md5 },
            next: MediaNext::Links { medium },
        },
        None => ended(Fault::MediaReferenceMissing),
    }
}

/// The digest by which the content of a message names its bytes.
fn reference(msg: &Json, variant: &str) -> (r: Option<String>)
    ensures
        match r {
            Some(s) => msg@.at("content"@).at(variant@).at("md5"@).as_text() == Some(s@),
            None => msg@.at("content"@).at(variant@).at("md5"@).as_text() is None,
        },
{
    let content = match msg.get("content") {
        Some(c) => c,
        None => {
            return None;
        },
    };
    let part = match content.get(variant) {
        Some(c) => c,
        None => {
            return None;
        },
    };
    match part.str_at("md5") {
        Some(s) => Some(s.clone()),
        None => None,
    }
}

fn begin_image(msg: &Json) -> (r: MediaStep)
    requires
        msg@.text_at("type"@) == "image"@,
    ensures
        r@ == media_begin(true, msg@),
{
    let md5 = match reference(msg, "Image") {
        Some(s) => s,
        None => {
            return ended(Fault::ImageReferenceMissing);
        },
    };
    match msg.str_at("conversation_id") {
        Some(c) => MediaStep::Ask {
            ask: MediaAsk::FindImage { conversation: c.clone(), md5 },
            next: MediaNext::Image,
        },
        None => ended(Fault::ConversationRequired),
    }
}

fn begin_voice(msg: &Json) -> (r: MediaStep)
    requires
        msg@.text_at("type"@) == "voice"@,
    ensures
        r@ == media_begin(true, msg@),
{
    proof {
        reveal_strlit("image");
        reveal_strlit("voice");
        assert("image"@[0] != "voice"@[0]);
    }
    let server: Option<i64> = match msg.get("source") {
        Some(source) => source.signed_at("server_id"),
        None => None,
    };
    match server {
        Some(n) => MediaStep::Ask {
            ask: MediaAsk::ListDatabases,
            next: MediaNext::Databases { server: decimal_text(n) },
        },
        None => ended(Fault::VoiceReferenceMissing),
    }
}

fn mime_of_image(ext: &str) -> (r: String)
    ensures
        r@ == image_mime(ext@),
{
    if same(ext, "jpg") || same(ext, "jpeg") {
        "image/jpeg".to_owned()
    } else if same(ext, "png") {
        "image/png".to_owned()
    } else if same(ext, "gif") {
        "image/gif".to_owned()
    } else if same(ext, "webp") {
        "image/webp".to_owned()
    } else {
        "application/octet-stream".to_owned()
    }
}

fn kept(data: Vec<u8>, mime: String, ext: &str) -> (r: MediaStep)
    ensures
        r@ == keep(data@, mime@, ext@),
{
    let size: usize = data.len();
    if size as u64 > MAX {
        return ended(Fault::MediaTooLarge);
    }
    MediaStep::Ask {
        ask: MediaAsk::Keep { data, suffix: crate::text::concat(".", ext) },
        next: MediaNext::Kept { mime, size },
    }
}

fn places(links: &Vec<HardLink>) -> (r: Vec<Vec<String>>)
    ensures
        crate::query::found_view(r@) == candidates_of(links_view(links@)),
{
    let ghost all = links_view(links@);
    let mut out: Vec<Vec<String>> = Vec::new();
    let mut i: usize = 0;
    assert(crate::query::found_view(out@) =~= candidates_of(all.take(0)));
    while i < links.len()
        invariant
            all == links_view(links@),
            i <= links@.len(),
            crate::query::found_view(out@) == candidates_of(all.take(i as int)),
        decreases links@.len() - i,
    {
        let e = &links[i];
        let ghost before = crate::query::found_view(out@);
        let near = vec![e.dir1.clone(), e.dir2.clone(), e.file_name.clone()];
        let far = vec![e.dir1.clone(), e.file_name.clone()];
        assert(crate::text::texts_view(near@) =~= seq![e.dir1@, e.dir2@, e.file_name@]);
        assert(crate::text::texts_view(far@) =~= seq![e.dir1@, e.file_name@]);
        out.push(near);
        out.push(far);
        assert(crate::query::found_view(out@) =~= before + seq![
            seq![e.dir1@, e.dir2@, e.file_name@],
            seq![e.dir1@, e.file_name@],
        ]);
        assert(all.take(i + 1).drop_last() =~= all.take(i as int));
        assert(all.take(i + 1).last() == e@);
        i = i + 1;
    }
    assert(all.take(all.len() as int) =~= all);
    out
}

fn probing(medium: Medium, candidates: Vec<Vec<String>>, at: usize) -> (r: MediaStep)
    ensures
        r@ == probe(medium, crate::query::found_view(candidates@), at as int),
{
    if at < candidates.len() {
        let parts = crate::text::copy_texts(&candidates[at]);
        MediaStep::Ask {
            ask: MediaAsk::Probe { parts },
            next: MediaNext::Probing { medium, candidates, at },
        }
    } else {
        ended(Fault::MediaNotLocal)
    }
}

fn trying_voice(server: String, database: usize, count: usize) -> (r: MediaStep)
    ensures
        r@ == try_voice(server@, database as int, count),
{
    if database < count {
        MediaStep::Ask {
            ask: MediaAsk::TryVoice { database, server: server.clone() },
            next: MediaNext::Voice { server, database, count },
        }
    } else {
        ended(Fault::VoiceNotLocal)
    }
}

fn same_bytes(a: &Vec<u8>, b: &Vec<u8>) -> (r: bool)
    ensures
        r == (a@ == b@),
{
    if a.len() != b.len() {
        return false;
    }
    let mut i: usize = 0;
    while i < a.len()
        invariant
            a@.len() == b@.len(),
            i <= a@.len(),
            forall|k: int| 0 <= k < i ==> #[trigger] a@[k] == b@[k],
        decreases a@.len() - i,
    {
        if a[i] != b[i] {
            return false;
        }
        i = i + 1;
    }
    assert(a@ =~= b@);
    true
}

/// Whether a path lies below a directory, or is that directory.
pub fn lies_below(root: &Vec<Vec<u8>>, path: &Vec<Vec<u8>>) -> (r: bool)
    ensures
        r == path_view(root@).is_prefix_of(path_view(path@)),
{
    let ghost dir = path_view(root@);
    let ghost file = path_view(path@);
    if root.len() > path.len() {
        return false;
    }
    let mut i: usize = 0;
    while i < root.len()
        invariant
            dir == path_view(root@),
            file == path_view(path@),
            i <= root@.len() <= path@.len(),
            forall|k: int| 0 <= k < i ==> #[trigger] dir[k] == file[k],
        decreases root@.len() - i,
    {
        if !same_bytes(&root[i], &path[i]) {
            assert(dir[i as int] != file.take(dir.len() as int)[i as int]);
            return false;
        }
        i = i + 1;
    }
    assert(dir =~= file.take(dir.len() as int));
    true
}

fn answer(msg: &Json, path: String, mime: String, size: usize) -> (r: Json)
    ensures
        r@ == media_answer(msg@, path@, mime@, size as int),
{
    let id = match msg.get("message_id") {
        Some(j) => j.copy(),
        None => Json::Null,
    };
    let mut o: Vec<Field> = Vec::new();
    put(&mut o, "path", Json::Str(path));
    put(&mut o, "mime_type", Json::Str(mime));
    put(&mut o, "size", Json::Uint(size as u64));
    put(&mut o, "message_id", id);
    assert(crate::json::fields_view(o@) =~= media_answer(
        msg@,
        path@,
        mime@,
        size as int,
    )->Obj_0);
    object_of(o)
}

fn copy_key(key: &Option<Vec<u8>>) -> (r: Option<Vec<u8>>)
    ensures
        crate::source::bytes_view(r) == crate::source::bytes_view(*key),
{
    match key {
        Some(k) => {
            let copy = k.clone();
            assert(copy@ =~= k@);
            Some(copy)
        },
        None => None,
    }
}

/// Goes on looking for the media of a message, given the key of images where
/// one is known.
pub fn resume(msg: &Json, key: &Option<Vec<u8>>, next: MediaNext, event: MediaEvent) -> (r:
    MediaStep)
    ensures
        r@ == media_step(msg@, crate::source::bytes_view(*key), next@, event@),
{
    match (next, event) {
        (MediaNext::Image, MediaEvent::Image { found }) => if found {
            MediaStep::Ask {
                ask: MediaAsk::Locate,
                next: MediaNext::Located { medium: Medium::Image },
            }
        } else {
            ended(Fault::ImageNotLocal)
        },
        (MediaNext::Databases { server }, MediaEvent::Databases { count }) => trying_voice(
            server,
            0,
            count,
        ),
        (MediaNext::Voice { server, database, count }, MediaEvent::Voice { data }) => match data {
            Some(d) => kept(d, "audio/silk".to_owned(), "silk"),
            None => if database < count {
                trying_voice(server, database + 1, count)
            } else {
                ended(Fault::VoiceNotLocal)
            },
        },
        (MediaNext::Links { medium }, MediaEvent::Links { links }) => probing(
            medium,
            places(&links),
            0,
        ),
        (
            MediaNext::Probing { medium, candidates, at },
            MediaEvent::Probed { present },
        ) => if present {
            MediaStep::Ask { ask: MediaAsk::Locate, next: MediaNext::Located { medium } }
        } else if at < candidates.len() {
            probing(medium, candidates, at + 1)
        } else {
            ended(Fault::MediaNotLocal)
        },
        (
            MediaNext::Located { medium },
            MediaEvent::Located { root, path },
        ) => if lies_below(&root, &path) {
            MediaStep::Ask {
                ask: MediaAsk::Load { limit: MAX + 1 },
                next: MediaNext::Loaded { medium },
            }
        } else {
            ended(Fault::MediaOutsideAccount)
        },
        (MediaNext::Loaded { medium }, MediaEvent::Loaded { data }) => if data.len() as u64 > MAX {
            ended(Fault::MediaTooLarge)
        } else {
            match medium {
                Medium::Image => MediaStep::Ask {
                    ask: MediaAsk::Decrypt { data, key: copy_key(key) },
                    next: MediaNext::Decrypted,
                },
                Medium::Video => kept(data, "video/mp4".to_owned(), "bin"),
                Medium::File => kept(data, "application/octet-stream".to_owned(), "bin"),
            }
        },
        (MediaNext::Decrypted, MediaEvent::Decrypted { data, ext }) => if same(
            ext.as_str(),
            "wxgf",
        ) {
            MediaStep::Ask { ask: MediaAsk::Transcode { data }, next: MediaNext::Transcoded }
        } else {
            kept(data, mime_of_image(ext.as_str()), ext.as_str())
        },
        (
            MediaNext::Transcoded,
            MediaEvent::Transcoded { transcoded, data, ext },
        ) => if transcoded {
            kept(data, mime_of_image(ext.as_str()), ext.as_str())
        } else {
            ended(Fault::TranscoderUnavailable)
        },
        (MediaNext::Kept { mime, size }, MediaEvent::Kept { path }) => MediaStep::Done(
            Ok(answer(msg, path, mime, size)),
        ),
        _ => ended(Fault::UnexpectedAnswer),
    }
}

} // verus!

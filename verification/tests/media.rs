//! The search for the media of a message.
use imcp_wechat::json::{object_of, put, str_json, text, Field, Json};
use imcp_wechat::media::{
    extract, lies_below, HardLink, MediaAsk, MediaEvent, MediaNext, MediaStep, Medium, MAX,
};

fn object(members: Vec<(&str, Json)>) -> Json {
    let mut o: Vec<Field> = Vec::new();
    for (name, value) in members {
        put(&mut o, name, value);
    }
    object_of(o)
}

fn message(kind: &str, variant: &str, content: Json) -> Json {
    object(vec![
        ("type", str_json(kind)),
        ("conversation_id", str_json("g")),
        ("message_id", str_json("g:1")),
        ("content", object(vec![(variant, content)])),
        ("source", object(vec![("server_id", Json::Int(42))])),
    ])
}

fn md5() -> Json {
    object(vec![("md5", str_json("d41d"))])
}

fn refusal(step: MediaStep) -> String {
    match step {
        MediaStep::Done(Err(f)) => f.message(),
        _ => panic!("went on"),
    }
}

fn split(step: MediaStep) -> (MediaAsk, MediaNext) {
    match step {
        MediaStep::Ask { ask, next } => (ask, next),
        MediaStep::Done(_) => panic!("done"),
    }
}

fn resume(msg: &Json, next: MediaNext, event: MediaEvent) -> MediaStep {
    imcp_wechat::media::resume(msg, &Some(vec![7; 16]), next, event)
}

fn path(parts: &[&str]) -> Vec<Vec<u8>> {
    parts.iter().map(|p| p.as_bytes().to_vec()).collect()
}

fn located(p: &[&str]) -> MediaEvent {
    MediaEvent::Located { root: path(&["/", "account"]), path: path(p) }
}

#[test]
fn rejects_outside_path() {
    let a = tempfile::tempdir().unwrap();
    let b = tempfile::tempdir().unwrap();
    let secret = tempfile::Builder::new().prefix("secret").tempfile_in(b.path()).unwrap();
    let components = |p: &std::path::Path| -> Vec<Vec<u8>> {
        p.canonicalize()
            .unwrap()
            .components()
            .map(|c| c.as_os_str().to_str().unwrap().as_bytes().to_vec())
            .collect()
    };
    let event = MediaEvent::Located {
        root: components(a.path()),
        path: components(secret.path()),
    };
    let next = MediaNext::Located { medium: Medium::File };
    assert_eq!(refusal(resume(&Json::Null, next, event)), "media_path_outside_account");
    assert!(lies_below(&components(b.path()), &components(secret.path())));
}

#[test]
fn names_that_only_begin_alike_are_outside() {
    assert!(lies_below(&path(&["/", "a"]), &path(&["/", "a"])));
    assert!(lies_below(&path(&["/", "a"]), &path(&["/", "a", "b"])));
    assert!(!lies_below(&path(&["/", "a"]), &path(&["/", "ab"])));
    assert!(!lies_below(&path(&["/", "a", "b"]), &path(&["/", "a"])));
}

#[test]
fn images_are_found_read_decrypted_and_kept() {
    let msg = message("image", "Image", md5());
    let (ask, next) = split(extract(true, &msg));
    assert!(matches!(ask, MediaAsk::FindImage { conversation, md5 } if conversation == "g" && md5 == "d41d"));
    let (ask, next) = split(resume(&msg, next, MediaEvent::Image { found: true }));
    assert!(matches!(ask, MediaAsk::Locate));
    let (ask, next) = split(resume(&msg, next, located(&["/", "account", "x.dat"])));
    assert!(matches!(ask, MediaAsk::Load { limit } if limit == MAX + 1));
    let (ask, next) = split(resume(&msg, next, MediaEvent::Loaded { data: vec![1, 2] }));
    assert!(matches!(ask, MediaAsk::Decrypt { data, key } if data == [1, 2] && key == Some(vec![7; 16])));
    let event = MediaEvent::Decrypted { data: vec![3], ext: "wxgf".to_owned() };
    let (ask, next) = split(resume(&msg, next, event));
    assert!(matches!(ask, MediaAsk::Transcode { data } if data == [3]));
    let event = MediaEvent::Transcoded { transcoded: true, data: vec![4, 5], ext: "jpg".to_owned() };
    let (ask, next) = split(resume(&msg, next, event));
    assert!(matches!(ask, MediaAsk::Keep { data, suffix } if data == [4, 5] && suffix == ".jpg"));
    match resume(&msg, next, MediaEvent::Kept { path: "/tmp/asset-1.jpg".to_owned() }) {
        MediaStep::Done(Ok(j)) => {
            assert_eq!(text(&j, "path"), "/tmp/asset-1.jpg");
            assert_eq!(text(&j, "mime_type"), "image/jpeg");
            assert_eq!(j.unsigned_at("size"), Some(2));
            assert_eq!(text(&j, "message_id"), "g:1");
        }
        _ => panic!("not answered"),
    }
}

#[test]
fn images_without_a_key_are_decrypted_without_one() {
    let next = MediaNext::Loaded { medium: Medium::Image };
    let event = MediaEvent::Loaded { data: vec![1] };
    let (ask, _) = split(imcp_wechat::media::resume(&Json::Null, &None, next, event));
    assert!(matches!(ask, MediaAsk::Decrypt { data, key: None } if data == [1]));
}

#[test]
fn images_are_typed_by_their_format() {
    let msg = message("image", "Image", md5());
    for (ext, mime) in [
        ("jpg", "image/jpeg"),
        ("jpeg", "image/jpeg"),
        ("png", "image/png"),
        ("gif", "image/gif"),
        ("webp", "image/webp"),
        ("bmp", "application/octet-stream"),
    ] {
        let event = MediaEvent::Decrypted { data: vec![1], ext: ext.to_owned() };
        let (_, next) = split(resume(&msg, MediaNext::Decrypted, event));
        assert!(matches!(next, MediaNext::Kept { mime: m, size: 1 } if m == mime));
    }
}

#[test]
fn voices_are_sought_in_each_database() {
    let msg = message("voice", "Voice", Json::Null);
    let (ask, next) = split(extract(true, &msg));
    assert!(matches!(ask, MediaAsk::ListDatabases));
    let (ask, next) = split(resume(&msg, next, MediaEvent::Databases { count: 2 }));
    assert!(matches!(ask, MediaAsk::TryVoice { database: 0, server } if server == "42"));
    let (ask, next) = split(resume(&msg, next, MediaEvent::Voice { data: None }));
    assert!(matches!(ask, MediaAsk::TryVoice { database: 1, .. }));
    let (ask, next) = split(resume(&msg, next, MediaEvent::Voice { data: Some(vec![9]) }));
    assert!(matches!(ask, MediaAsk::Keep { data, suffix } if data == [9] && suffix == ".silk"));
    assert!(matches!(next, MediaNext::Kept { mime, .. } if mime == "audio/silk"));
    let none = MediaNext::Databases { server: "42".to_owned() };
    let step = resume(&msg, none, MediaEvent::Databases { count: 0 });
    assert_eq!(refusal(step), "voice_not_available_locally");
}

#[test]
fn files_are_sought_at_each_place() {
    let msg = message("video", "Video", md5());
    let (ask, next) = split(extract(true, &msg));
    assert!(matches!(ask, MediaAsk::FindLinks { kind, md5 } if kind == "video" && md5 == "d41d"));
    let links = vec![
        HardLink { dir1: "1".to_owned(), dir2: "2".to_owned(), file_name: "f".to_owned() },
        HardLink { dir1: "3".to_owned(), dir2: "4".to_owned(), file_name: "f".to_owned() },
    ];
    let mut step = resume(&msg, next, MediaEvent::Links { links });
    let mut places: Vec<String> = Vec::new();
    loop {
        let (ask, next) = split(step);
        match ask {
            MediaAsk::Probe { parts } => places.push(parts.join("/")),
            _ => panic!("not probed"),
        }
        let present = places.len() == 3;
        step = resume(&msg, next, MediaEvent::Probed { present });
        if present {
            break;
        }
    }
    assert_eq!(places, ["1/2/f", "1/f", "3/4/f"]);
    let (_, next) = split(step);
    let (_, next) = split(resume(&msg, next, located(&["/", "account", "msg"])));
    let (ask, next) = split(resume(&msg, next, MediaEvent::Loaded { data: vec![1] }));
    assert!(matches!(ask, MediaAsk::Keep { suffix, .. } if suffix == ".bin"));
    assert!(matches!(next, MediaNext::Kept { mime, .. } if mime == "video/mp4"));
    let next = MediaNext::Loaded { medium: Medium::File };
    let (_, next) = split(resume(&msg, next, MediaEvent::Loaded { data: vec![1] }));
    assert!(matches!(next, MediaNext::Kept { mime, .. } if mime == "application/octet-stream"));
}

#[test]
fn what_cannot_be_had_is_refused() {
    let null = || Json::Null;
    assert_eq!(refusal(extract(false, &null())), "invalid_account_root");
    assert_eq!(refusal(extract(true, &null())), "message_has_no_supported_media");
    let image = message("image", "Image", Json::Null);
    assert_eq!(refusal(extract(true, &image)), "image_reference_missing");
    let nowhere = object(vec![
        ("type", str_json("image")),
        ("content", object(vec![("Image", md5())])),
    ]);
    assert_eq!(refusal(extract(true, &nowhere)), "conversation_required");
    let voice = object(vec![("type", str_json("voice"))]);
    assert_eq!(refusal(extract(true, &voice)), "voice_reference_missing");
    let file = message("file", "Video", md5());
    assert_eq!(refusal(extract(true, &file)), "media_reference_missing");
    let step = resume(&null(), MediaNext::Image, MediaEvent::Image { found: false });
    assert_eq!(refusal(step), "image_not_available_locally");
    let next = MediaNext::Links { medium: Medium::File };
    let step = resume(&null(), next, MediaEvent::Links { links: Vec::new() });
    assert_eq!(refusal(step), "media_not_available_locally");
    let event = MediaEvent::Transcoded { transcoded: false, data: Vec::new(), ext: String::new() };
    let step = resume(&null(), MediaNext::Transcoded, event);
    assert_eq!(refusal(step), "wxgf_transcoder_unavailable");
    let step = resume(&null(), MediaNext::Image, MediaEvent::Databases { count: 1 });
    assert_eq!(refusal(step), "unexpected_answer");
}

#[test]
fn no_more_than_the_limit_is_served() {
    let over = vec![0u8; MAX as usize + 1];
    let next = MediaNext::Loaded { medium: Medium::Image };
    let step = resume(&Json::Null, next, MediaEvent::Loaded { data: over });
    assert_eq!(refusal(step), "media_exceeds_100_MB");
    let over = vec![0u8; MAX as usize + 1];
    let event = MediaEvent::Decrypted { data: over, ext: "png".to_owned() };
    let step = resume(&Json::Null, MediaNext::Decrypted, event);
    assert_eq!(refusal(step), "media_exceeds_100_MB");
    let full = vec![0u8; MAX as usize];
    let event = MediaEvent::Decrypted { data: full, ext: "png".to_owned() };
    split(resume(&Json::Null, MediaNext::Decrypted, event));
}

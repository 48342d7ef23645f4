//! What can go wrong, with the text that callers see.
use vstd::prelude::*;

use crate::text::concat;

verus! {

/// A refusal or a failure.
#[derive(Debug)]
pub enum Fault {
    /// No archive has been opened yet.
    SetupRequired,
    /// The method is none that is served.
    UnknownMethod,
    /// The database key is not written in hexadecimal.
    InvalidKey,
    /// The database key is not 32 bytes long.
    InvalidKeyLength,
    /// No account was named.
    AccountRequired,
    /// The number that image keys derive from is malformed.
    InvalidImageConfig,
    /// The archive belongs to another account.
    AccountMismatch,
    /// The system gave no random bytes.
    RandomUnavailable,
    /// The source databases are not open.
    SourceUnavailable,
    /// No enabled conversation answers to the name.
    ConversationUnavailable,
    /// No conversation was named.
    ConversationRequired,
    /// The quota is missing or too small.
    InvalidQuota,
    /// No message of an enabled conversation has the identifier.
    MessageUnavailable,
    /// The cursor was not made by this archive.
    InvalidCursor,
    /// The cursor belongs to another query, account or set of permissions.
    CursorScopeChanged,
    /// A bound is no RFC 3339 time.
    TimeRequiresZone,
    /// The range of time is empty.
    InvalidTimeRange,
    /// A filter names too many values.
    TooManyFilters,
    /// A filter holds something other than text.
    FilterMustBeString,
    /// A filter names no type of message.
    InvalidMessageType,
    /// The announced length of a frame is zero or too large.
    InvalidFrameLength,
    /// The input ended inside a frame.
    TruncatedFrame,
    /// The answer does not fit a frame.
    ResponseTooLarge,
    /// The data directory has no parent.
    InvalidAccountRoot,
    /// The message carries no media that is served.
    MessageWithoutMedia,
    /// The image message names no image.
    ImageReferenceMissing,
    /// The image is not on this machine.
    ImageNotLocal,
    /// The image format needs a transcoder that is not there.
    TranscoderUnavailable,
    /// The voice message has no server identifier.
    VoiceReferenceMissing,
    /// The recording is not on this machine.
    VoiceNotLocal,
    /// The message names no file.
    MediaReferenceMissing,
    /// The file is not on this machine.
    MediaNotLocal,
    /// The file lies outside the account's directory.
    MediaOutsideAccount,
    /// The file is larger than what is served.
    MediaTooLarge,
    /// The answer handed back does not fit the question.
    UnexpectedAnswer,
    /// Several conversations answer to the name; the JSON list of them.
    AmbiguousConversation(String),
    /// Several members answer to the name; the JSON list of them.
    AmbiguousMember(String),
    /// A failure that an outside call reported, in its words.
    Other(String),
}

impl View for Fault {
    type V = Seq<char>;

    /// The text that callers see.
    open spec fn view(&self) -> Seq<char> {
        match self {
            Fault::SetupRequired => "setup_required"@,
            Fault::UnknownMethod => "unknown_method"@,
            Fault::InvalidKey => "invalid_key"@,
            Fault::InvalidKeyLength => "invalid_key_length"@,
            Fault::AccountRequired => "account_required"@,
            Fault::InvalidImageConfig => "invalid_image_config"@,
            Fault::AccountMismatch => "account_mismatch"@,
            Fault::RandomUnavailable => "random unavailable"@,
            Fault::SourceUnavailable => "source_unavailable"@,
            Fault::ConversationUnavailable => "conversation_unavailable"@,
            Fault::ConversationRequired => "conversation_required"@,
            Fault::InvalidQuota => "invalid_quota"@,
            Fault::MessageUnavailable => "message_unavailable"@,
            Fault::InvalidCursor => "invalid_cursor"@,
            Fault::CursorScopeChanged => "cursor_scope_changed"@,
            Fault::TimeRequiresZone => "time_requires_RFC3339_timezone"@,
            Fault::InvalidTimeRange => "invalid_time_range"@,
            Fault::TooManyFilters => "too_many_filters"@,
            Fault::FilterMustBeString => "filter_must_be_string"@,
            Fault::InvalidMessageType => "invalid_message_type"@,
            Fault::InvalidFrameLength => "invalid_frame_length"@,
            Fault::TruncatedFrame => "failed to fill whole buffer"@,
            Fault::ResponseTooLarge => "response_too_large"@,
            Fault::InvalidAccountRoot => "invalid_account_root"@,
            Fault::MessageWithoutMedia => "message_has_no_supported_media"@,
            Fault::ImageReferenceMissing => "image_reference_missing"@,
            Fault::ImageNotLocal => "image_not_available_locally"@,
            Fault::TranscoderUnavailable => "wxgf_transcoder_unavailable"@,
            Fault::VoiceReferenceMissing => "voice_reference_missing"@,
            Fault::VoiceNotLocal => "voice_not_available_locally"@,
            Fault::MediaReferenceMissing => "media_reference_missing"@,
            Fault::MediaNotLocal => "media_not_available_locally"@,
            Fault::MediaOutsideAccount => "media_path_outside_account"@,
            Fault::MediaTooLarge => "media_exceeds_100_MB"@,
            Fault::UnexpectedAnswer => "unexpected_answer"@,
            Fault::AmbiguousConversation(list) => "ambiguous_conversation: "@ + list@,
            Fault::AmbiguousMember(list) => "ambiguous_member: "@ + list@,
            Fault::Other(text) => text@,
        }
    }
}

impl Fault {
    /// The text that callers see.
    pub fn message(&self) -> (r: String)
        ensures
            r@ == self@,
    {
        match self {
            Fault::SetupRequired => "setup_required".to_owned(),
            Fault::UnknownMethod => "unknown_method".to_owned(),
            Fault::InvalidKey => "invalid_key".to_owned(),
            Fault::InvalidKeyLength => "invalid_key_length".to_owned(),
            Fault::AccountRequired => "account_required".to_owned(),
            Fault::InvalidImageConfig => "invalid_image_config".to_owned(),
            Fault::AccountMismatch => "account_mismatch".to_owned(),
            Fault::RandomUnavailable => "random unavailable".to_owned(),
            Fault::SourceUnavailable => "source_unavailable".to_owned(),
            Fault::ConversationUnavailable => "conversation_unavailable".to_owned(),
            Fault::ConversationRequired => "conversation_required".to_owned(),
            Fault::InvalidQuota => "invalid_quota".to_owned(),
            Fault::MessageUnavailable => "message_unavailable".to_owned(),
            Fault::InvalidCursor => "invalid_cursor".to_owned(),
            Fault::CursorScopeChanged => "cursor_scope_changed".to_owned(),
            Fault::TimeRequiresZone => "time_requires_RFC3339_timezone".to_owned(),
            Fault::InvalidTimeRange => "invalid_time_range".to_owned(),
            Fault::TooManyFilters => "too_many_filters".to_owned(),
            Fault::FilterMustBeString => "filter_must_be_string".to_owned(),
            Fault::InvalidMessageType => "invalid_message_type".to_owned(),
            Fault::InvalidFrameLength => "invalid_frame_length".to_owned(),
            Fault::TruncatedFrame => "failed to fill whole buffer".to_owned(),
            Fault::ResponseTooLarge => "response_too_large".to_owned(),
            Fault::InvalidAccountRoot => "invalid_account_root".to_owned(),
            Fault::MessageWithoutMedia => "message_has_no_supported_media".to_owned(),
            Fault::ImageReferenceMissing => "image_reference_missing".to_owned(),
            Fault::ImageNotLocal => "image_not_available_locally".to_owned(),
            Fault::TranscoderUnavailable => "wxgf_transcoder_unavailable".to_owned(),
            Fault::VoiceReferenceMissing => "voice_reference_missing".to_owned(),
            Fault::VoiceNotLocal => "voice_not_available_locally".to_owned(),
            Fault::MediaReferenceMissing => "media_reference_missing".to_owned(),
            Fault::MediaNotLocal => "media_not_available_locally".to_owned(),
            Fault::MediaOutsideAccount => "media_path_outside_account".to_owned(),
            Fault::MediaTooLarge => "media_exceeds_100_MB".to_owned(),
            Fault::UnexpectedAnswer => "unexpected_answer".to_owned(),
            Fault::AmbiguousConversation(list) => concat("ambiguous_conversation: ", list.as_str()),
            Fault::AmbiguousMember(list) => concat("ambiguous_member: ", list.as_str()),
            Fault::Other(text) => text.clone(),
        }
    }
}

} // verus!

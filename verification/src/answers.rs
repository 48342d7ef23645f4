//! What the answers hold: every member of each, by its name.
use vstd::prelude::*;

use crate::backend::{BackendV, ContactV};
use crate::json::JsonV;
use crate::source::SourceMessageV;
use crate::sql::ConversationRowV;

verus! {

/// A page of messages holds the messages, whether there are more, the cursor that
/// leads on where there is one, that the archive keeps what it saw first, and that
/// the conversation is ready.
pub proof fn law_page_of_messages(items: Seq<JsonV>, more: bool, cursor: Option<Seq<char>>)
    ensures
        crate::query::message_page(items, more, cursor).at("items"@) == JsonV::Arr(items),
        crate::query::message_page(items, more, cursor).at("has_more"@) == JsonV::Bool(more),
        crate::query::message_page(items, more, cursor).at("next_cursor"@) == match cursor {
            Some(token) => JsonV::Str(token),
            None => JsonV::Null,
        },
        crate::query::message_page(items, more, cursor).at("archive_semantics"@) == JsonV::Str("first_observed"@),
        crate::query::message_page(items, more, cursor).at("index_state"@) == JsonV::Str("ready"@),
{
    let o = crate::query::message_page(items, more, cursor)->Obj_0;
    reveal_strlit("items");
    reveal_strlit("has_more");
    reveal_strlit("next_cursor");
    reveal_strlit("archive_semantics");
    reveal_strlit("index_state");
    assert("items"@.len() == 5);
    assert("has_more"@.len() == 8);
    assert("next_cursor"@.len() == 11);
    assert("archive_semantics"@.len() == 17);
    assert("index_state"@.len() == 11);
    assert("index_state"@[0] == 'i');
    assert("next_cursor"@[0] == 'n');
    assert(crate::json::names_differ(o));
    crate::json::lemma_member_at(o, 0);
    crate::json::lemma_member_at(o, 1);
    crate::json::lemma_member_at(o, 2);
    crate::json::lemma_member_at(o, 3);
    crate::json::lemma_member_at(o, 4);
}

/// A conversation that is not ready is answered with its state and no messages.
pub proof fn law_page_before_it_is_ready(state: Seq<char>)
    ensures
        crate::query::not_ready(state).at("state"@) == JsonV::Str(state),
        crate::query::not_ready(state).at("items"@) == JsonV::Arr(Seq::empty()),
{
    let o = crate::query::not_ready(state)->Obj_0;
    reveal_strlit("state");
    reveal_strlit("items");
    assert("state"@.len() == 5);
    assert("items"@.len() == 5);
    assert("items"@[0] == 'i');
    assert("state"@[0] == 's');
    assert(crate::json::names_differ(o));
    crate::json::lemma_member_at(o, 0);
    crate::json::lemma_member_at(o, 1);
}

/// A page of members holds the members, whether there are more, and the cursor
/// that leads on where there is one.
pub proof fn law_page_of_members(items: Seq<JsonV>, more: bool, cursor: Option<Seq<char>>)
    ensures
        crate::index::member_page(items, more, cursor).at("items"@) == JsonV::Arr(items),
        crate::index::member_page(items, more, cursor).at("has_more"@) == JsonV::Bool(more),
        crate::index::member_page(items, more, cursor).at("next_cursor"@) == match cursor {
            Some(token) => JsonV::Str(token),
            None => JsonV::Null,
        },
{
    let o = crate::index::member_page(items, more, cursor)->Obj_0;
    reveal_strlit("items");
    reveal_strlit("has_more");
    reveal_strlit("next_cursor");
    assert("items"@.len() == 5);
    assert("has_more"@.len() == 8);
    assert("next_cursor"@.len() == 11);
    assert(crate::json::names_differ(o));
    crate::json::lemma_member_at(o, 0);
    crate::json::lemma_member_at(o, 1);
    crate::json::lemma_member_at(o, 2);
}

/// A conversation is listed with its identifier, its name, how far it has been
/// imported, and whether it is enabled.
pub proof fn law_listed_conversation(c: ConversationRowV)
    ensures
        crate::index::listed_conversation(c).at("conversation_id"@) == JsonV::Str(c.id),
        crate::index::listed_conversation(c).at("name"@) == JsonV::Str(c.name),
        crate::index::listed_conversation(c).at("index_state"@) == JsonV::Str(c.state),
        crate::index::listed_conversation(c).at("enabled"@) == JsonV::Bool(c.enabled),
{
    let o = crate::index::listed_conversation(c)->Obj_0;
    reveal_strlit("conversation_id");
    reveal_strlit("name");
    reveal_strlit("index_state");
    reveal_strlit("enabled");
    assert("conversation_id"@.len() == 15);
    assert("name"@.len() == 4);
    assert("index_state"@.len() == 11);
    assert("enabled"@.len() == 7);
    assert(crate::json::names_differ(o));
    crate::json::lemma_member_at(o, 0);
    crate::json::lemma_member_at(o, 1);
    crate::json::lemma_member_at(o, 2);
    crate::json::lemma_member_at(o, 3);
}

/// Conversations are listed all, and in the order in which they were found.
pub proof fn law_list_of_conversations(rows: Seq<ConversationRowV>, i: int)
    requires
        0 <= i < rows.len(),
    ensures
        crate::index::items_answer(crate::index::listed_items(rows)).at("items"@) == JsonV::Arr(crate::index::listed_items(rows)),
        crate::index::listed_items(rows).len() == rows.len(),
        crate::index::listed_items(rows)[i] == crate::index::listed_conversation(rows[i]),
{
    let o = crate::index::items_answer(crate::index::listed_items(rows))->Obj_0;
    reveal_strlit("items");
    assert("items"@.len() == 5);
    assert(crate::json::names_differ(o));
    crate::json::lemma_member_at(o, 0);
}

/// The state of the backend: whether there is a source, what is known of its
/// sessions, whether images can be decrypted, that changes are not followed live,
/// what is wrong with the source, how large the archive is and may be, whether it
/// is larger than that, and the conversations that may be read.
pub proof fn law_state_of_the_backend(b: BackendV, bytes: u64, quota: i64, conversations: Seq<ConversationRowV>)
    ensures
        crate::backend::status_answer(b, bytes, quota, conversations).at("source_available"@) == JsonV::Bool(b.source is Some),
        crate::backend::status_answer(b, bytes, quota, conversations).at("session_index_diagnostics"@) == crate::json::text_list(b.session_diagnostics),
        crate::backend::status_answer(b, bytes, quota, conversations).at("image_key_configured"@) == JsonV::Bool(b.image_key is Some),
        crate::backend::status_answer(b, bytes, quota, conversations).at("image_config_unavailable"@) == JsonV::Bool(b.image_config_unavailable),
        crate::backend::status_answer(b, bytes, quota, conversations).at("live_sync_ready"@) == JsonV::Bool(false),
        crate::backend::status_answer(b, bytes, quota, conversations).at("compatibility"@) == match b.error {
            Some(text) => JsonV::Str(text),
            None => JsonV::Null,
        },
        crate::backend::status_answer(b, bytes, quota, conversations).at("index_bytes"@) == JsonV::Num(bytes as int),
        crate::backend::status_answer(b, bytes, quota, conversations).at("quota_bytes"@) == JsonV::Num(quota as int),
        crate::backend::status_answer(b, bytes, quota, conversations).at("quota_warning"@) == JsonV::Bool(bytes > if quota < 0 {
            quota + 0x1_0000_0000_0000_0000
        } else {
            quota as int
        }),
        crate::backend::status_answer(b, bytes, quota, conversations).at("conversations"@) == JsonV::Arr(crate::index::listed_items(conversations)),
        crate::backend::status_answer(b, bytes, quota, conversations).at("archive_semantics"@) == JsonV::Str("first_observed"@),
{
    let o = crate::backend::status_answer(b, bytes, quota, conversations)->Obj_0;
    reveal_strlit("source_available");
    reveal_strlit("session_index_diagnostics");
    reveal_strlit("image_key_configured");
    reveal_strlit("image_config_unavailable");
    reveal_strlit("live_sync_ready");
    reveal_strlit("compatibility");
    reveal_strlit("index_bytes");
    reveal_strlit("quota_bytes");
    reveal_strlit("quota_warning");
    reveal_strlit("conversations");
    reveal_strlit("archive_semantics");
    assert("source_available"@.len() == 16);
    assert("session_index_diagnostics"@.len() == 25);
    assert("image_key_configured"@.len() == 20);
    assert("image_config_unavailable"@.len() == 24);
    assert("live_sync_ready"@.len() == 15);
    assert("compatibility"@.len() == 13);
    assert("index_bytes"@.len() == 11);
    assert("quota_bytes"@.len() == 11);
    assert("quota_warning"@.len() == 13);
    assert("conversations"@.len() == 13);
    assert("archive_semantics"@.len() == 17);
    assert("compatibility"@[0] == 'c');
    assert("compatibility"@[2] == 'm');
    assert("conversations"@[0] == 'c');
    assert("conversations"@[2] == 'n');
    assert("index_bytes"@[0] == 'i');
    assert("quota_bytes"@[0] == 'q');
    assert("quota_warning"@[0] == 'q');
    assert(crate::json::names_differ(o));
    crate::json::lemma_member_at(o, 0);
    crate::json::lemma_member_at(o, 1);
    crate::json::lemma_member_at(o, 2);
    crate::json::lemma_member_at(o, 3);
    crate::json::lemma_member_at(o, 4);
    crate::json::lemma_member_at(o, 5);
    crate::json::lemma_member_at(o, 6);
    crate::json::lemma_member_at(o, 7);
    crate::json::lemma_member_at(o, 8);
    crate::json::lemma_member_at(o, 9);
    crate::json::lemma_member_at(o, 10);
}

/// A conversation that was allowed is answered with its identifier, and that it is
/// being imported.
pub proof fn law_answer_to_permission(id: Seq<char>)
    ensures
        crate::backend::granted_answer(id).at("approved"@) == JsonV::Bool(true),
        crate::backend::granted_answer(id).at("conversation_id"@) == JsonV::Str(id),
        crate::backend::granted_answer(id).at("state"@) == JsonV::Str("indexing"@),
{
    let o = crate::backend::granted_answer(id)->Obj_0;
    reveal_strlit("approved");
    reveal_strlit("conversation_id");
    reveal_strlit("state");
    assert("approved"@.len() == 8);
    assert("conversation_id"@.len() == 15);
    assert("state"@.len() == 5);
    assert(crate::json::names_differ(o));
    crate::json::lemma_member_at(o, 0);
    crate::json::lemma_member_at(o, 1);
    crate::json::lemma_member_at(o, 2);
}

/// What is merely done is answered so.
pub proof fn law_answer_to_what_is_done()
    ensures
        crate::backend::flag_answer("ok").at("ok"@) == JsonV::Bool(true),
        crate::backend::flag_answer("authorized").at("authorized"@) == JsonV::Bool(true),
{
}

/// One contact, as it is answered.
pub open spec fn is_contact(item: JsonV, contact: ContactV) -> bool {
    &&& item.at("conversation_id"@) == JsonV::Str(contact.user_name)
    &&& contact.remark.len() > 0 ==> item.at("name"@) == JsonV::Str(contact.remark)
    &&& contact.remark.len() == 0 ==> item.at("name"@) == JsonV::Str(contact.nick_name)
}

/// Contacts are answered all, in order, each under the name that the owner gave
/// it, or under its own where the owner gave none.
pub proof fn law_contacts_are_named(contacts: Seq<ContactV>)
    ensures
        crate::backend::contact_answer(contacts).at("items"@) matches JsonV::Arr(items)
            && items.len() == contacts.len() && forall|i: int|
            0 <= i < contacts.len() ==> is_contact(#[trigger] items[i], contacts[i]),
{
    reveal_strlit("conversation_id");
    reveal_strlit("name");
    assert("conversation_id"@.len() == 15 && "name"@.len() == 4);
    let items = crate::backend::contact_answer(contacts).at("items"@)->Arr_0;
    assert forall|i: int| 0 <= i < contacts.len() implies is_contact(
        #[trigger] items[i],
        contacts[i],
    ) by {
        let o = items[i]->Obj_0;
        assert(crate::json::names_differ(o));
        crate::json::lemma_member_at(o, 0);
        crate::json::lemma_member_at(o, 1);
    }
}

/// A message is stored with its identifier, its conversation and its sender, when
/// it was written and in what order, its type, its text, its whole content, and the
/// place where it lies at the source.
pub proof fn law_stored_message(source: SourceMessageV)
    ensures
        crate::index::message_data(source).at("message_id"@) == JsonV::Str(crate::index::message_id(source)),
        crate::index::message_data(source).at("conversation_id"@) == JsonV::Str(source.message.talker@),
        crate::index::message_data(source).at("member_id"@) == JsonV::Str(source.message.sender@),
        crate::index::message_data(source).at("create_time"@) == JsonV::Num(source.message.create_time as int),
        crate::index::message_data(source).at("created_at"@) == match crate::primitives::rfc3339_text(source.message.create_time) {
            Some(text) => JsonV::Str(text),
            None => JsonV::Null,
        },
        crate::index::message_data(source).at("sort_seq"@) == JsonV::Num(source.message.sort_seq as int),
        crate::index::message_data(source).at("type"@) == JsonV::Str(crate::content::kind_of(source.message.content)),
        crate::index::message_data(source).at("text"@) == JsonV::Str(crate::content::body_of(source.message.content)),
        crate::index::message_data(source).at("content"@) == source.message.detail@,
        crate::index::message_data(source).at("source"@).at("shard_id"@) == JsonV::Str(
            source.shard_id,
        ),
        crate::index::message_data(source).at("source"@).at("local_id"@) == JsonV::Num(
            source.position.local_id as int,
        ),
        crate::index::message_data(source).at("source"@).at("server_id"@) == JsonV::Num(
            source.message.server_id as int,
        ),
{
    let o = crate::index::message_data(source)->Obj_0;
    reveal_strlit("message_id");
    reveal_strlit("conversation_id");
    reveal_strlit("member_id");
    reveal_strlit("create_time");
    reveal_strlit("created_at");
    reveal_strlit("sort_seq");
    reveal_strlit("type");
    reveal_strlit("text");
    reveal_strlit("content");
    reveal_strlit("source");
    assert("message_id"@.len() == 10);
    assert("conversation_id"@.len() == 15);
    assert("member_id"@.len() == 9);
    assert("create_time"@.len() == 11);
    assert("created_at"@.len() == 10);
    assert("sort_seq"@.len() == 8);
    assert("type"@.len() == 4);
    assert("text"@.len() == 4);
    assert("content"@.len() == 7);
    assert("source"@.len() == 6);
    assert("created_at"@[0] == 'c');
    assert("message_id"@[0] == 'm');
    assert("text"@[1] == 'e');
    assert("type"@[1] == 'y');
    assert(crate::json::names_differ(o));
    crate::json::lemma_member_at(o, 0);
    crate::json::lemma_member_at(o, 1);
    crate::json::lemma_member_at(o, 2);
    crate::json::lemma_member_at(o, 3);
    crate::json::lemma_member_at(o, 4);
    crate::json::lemma_member_at(o, 5);
    crate::json::lemma_member_at(o, 6);
    crate::json::lemma_member_at(o, 7);
    crate::json::lemma_member_at(o, 8);
    crate::json::lemma_member_at(o, 9);
    let place = o[9].value->Obj_0;
    reveal_strlit("shard_id");
    reveal_strlit("local_id");
    reveal_strlit("server_id");
    assert("shard_id"@.len() == 8 && "shard_id"@[0] == 's');
    assert("local_id"@.len() == 8 && "local_id"@[0] == 'l');
    assert("server_id"@.len() == 9);
    assert(crate::json::names_differ(place));
    crate::json::lemma_member_at(place, 0);
    crate::json::lemma_member_at(place, 1);
    crate::json::lemma_member_at(place, 2);
}

} // verus!

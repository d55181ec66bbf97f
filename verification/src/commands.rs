//! What the commands of the front end compute between reading the store and
//! writing it back.

use vstd::prelude::*;
use vstd::string::StringExecFns;
use crate::crypto::{
    is_sealing, opened_text, strength_score, with_password, BackendEncryption, DecryptionParams,
    EncryptionResult,
};
use crate::error::StoreError;
use crate::models::{
    entries_view, reading_time_of, text_metrics, text_view, texts_view, word_count_of, ApiResponse,
    EmotionTag, MemoryEntry, MemoryEntryView, MemoryMetadata, MemoryMetadataView, MemoryType,
};
use crate::models::Timestamp;
use crate::storage::{EntriesFile, StorageManager};
use crate::text::{json_string, json_string_value};

verus! {

/// The note of an answer to a deletion that took place.
pub const DELETED_MESSAGE: &'static str = "记忆条目已删除";

/// The reason of an answer to a deletion that found nothing to delete.
pub const NOT_FOUND_MESSAGE: &'static str = "记忆条目未找到";

/// The tag that a name from the front end stands for: the name is read as
/// the inside of a JSON string, and what it spells has to be the lowercase
/// name of a tag.
pub open spec fn tag_named(name: Seq<char>) -> Option<EmotionTag> {
    match json_string_value(name) {
        Some(spelled) => EmotionTag::named(spelled),
        None => None,
    }
}

/// Reads a tag from a name that the front end sent.
pub fn tag_from_text(name: &str) -> (r: Option<EmotionTag>)
    ensures
        r == tag_named(name@),
{
    match json_string(name) {
        Some(spelled) => EmotionTag::from_name(spelled.as_str()),
        None => None,
    }
}

/// The tags of an entry after the tags named in `names` were added in order.
/// A name that stands for no tag, or for a tag that is there already, adds
/// nothing.
pub open spec fn tags_added(tags: Seq<EmotionTag>, names: Seq<Seq<char>>) -> Seq<EmotionTag>
    decreases names.len(),
{
    if names.len() == 0 {
        tags
    } else {
        let before = tags_added(tags, names.drop_last());
        match tag_named(names.last()) {
            Some(tag) => if before.contains(tag) {
                before
            } else {
                before.push(tag)
            },
            None => before,
        }
    }
}

/// The metadata of an entry that was just created: the counts of its
/// content and nothing else.
pub open spec fn fresh_metadata(content: Seq<char>) -> MemoryMetadataView {
    MemoryMetadataView {
        word_count: Some(word_count_of(content)),
        reading_time: Some(reading_time_of(content)),
        location: None,
        weather: None,
        mood: None,
        tags: None,
    }
}

/// What a read of the entries turned up: the collection itself, or the JSON
/// text of a sealed collection that is still to be parsed.
#[derive(Debug)]
pub enum ReadOutcome {
    Entries(Vec<MemoryEntry>),
    Json(String),
}

/// Adds the tags named in `names` to the entry, in order.
pub fn add_named_tags(entry: &mut MemoryEntry, names: &Vec<String>)
    ensures
        final(entry)@ == (MemoryEntryView {
            emotion_tags: tags_added(old(entry)@.emotion_tags, texts_view(names@)),
            ..old(entry)@
        }),
        old(entry)@.well_formed() ==> final(entry)@.well_formed(),
{
    let mut i: usize = 0;
    assert(texts_view(names@).subrange(0, 0) =~= Seq::empty());
    while i < names.len()
        invariant
            i <= names.len(),
            entry@ == (MemoryEntryView {
                emotion_tags: tags_added(
                    old(entry)@.emotion_tags,
                    texts_view(names@).subrange(0, i as int),
                ),
                ..old(entry)@
            }),
            old(entry)@.well_formed() ==> entry@.well_formed(),
        decreases names.len() - i,
    {
        proof {
            let upto = texts_view(names@).subrange(0, i + 1);
            assert(upto.drop_last() =~= texts_view(names@).subrange(0, i as int));
            assert(upto.last() == names@[i as int]@);
        }
        if let Some(tag) = tag_from_text(names[i].as_str()) {
            entry.add_emotion_tag(tag);
        }
        i += 1;
    }
    assert(texts_view(names@).subrange(0, i as int) =~= texts_view(names@));
}

/// A new entry for a command of the front end: created now under a fresh
/// identifier, of the kind that `memory_type` names, with the tags that
/// `emotion_tags` names and with the counts of its content as metadata.
pub fn create_memory_entry(
    title: String,
    content: String,
    memory_type: &str,
    emotion_tags: &Vec<String>,
) -> (entry: MemoryEntry)
    ensures
        entry@ == (MemoryEntryView {
            id: entry@.id,
            title: title@,
            content: content@,
            memory_type: MemoryType::named(memory_type@),
            emotion_tags: tags_added(Seq::empty(), texts_view(emotion_tags@)),
            created_at: entry@.created_at,
            updated_at: entry@.created_at,
            is_encrypted: false,
            attachments: None,
            metadata: Some(fresh_metadata(content@)),
        }),
        entry@.id.len() == 36,
        entry@.well_formed(),
{
    let (word_count, reading_time) = text_metrics(content.as_str());
    let mut entry = MemoryEntry::new(title, content, MemoryType::from_name(memory_type));
    assert(entry@.emotion_tags =~= Seq::empty());
    add_named_tags(&mut entry, emotion_tags);
    entry.metadata = Some(
        MemoryMetadata {
            word_count: Some(word_count),
            reading_time: Some(reading_time),
            location: None,
            weather: None,
            mood: None,
            tags: None,
        },
    );
    entry
}

/// The entry after an update by a command of the front end at `now`: title
/// and content are replaced where given, and the tags are replaced by those
/// that `emotion_tags` names where it is given.
pub open spec fn updated_entry(
    entry: MemoryEntryView,
    title: Option<Seq<char>>,
    content: Option<Seq<char>>,
    emotion_tags: Option<Seq<Seq<char>>>,
    now: Timestamp,
) -> MemoryEntryView {
    MemoryEntryView {
        emotion_tags: match emotion_tags {
            Some(names) => tags_added(Seq::empty(), names),
            None => entry.emotion_tags,
        },
        ..entry.updated(title, content, now)
    }
}

/// The model of an optional list of texts.
pub open spec fn names_view(names: Option<Vec<String>>) -> Option<Seq<Seq<char>>> {
    match names {
        Some(list) => Some(texts_view(list@)),
        None => None,
    }
}

/// Updates an entry for a command of the front end and stamps it with the
/// current time.
pub fn update_memory_entry(
    entry: MemoryEntry,
    title: Option<String>,
    content: Option<String>,
    emotion_tags: Option<Vec<String>>,
) -> (r: MemoryEntry)
    ensures
        exists|now: Timestamp|
            r@ == #[trigger] updated_entry(
                entry@,
                text_view(title),
                text_view(content),
                names_view(emotion_tags),
                now,
            ),
        entry@.well_formed() ==> r@.well_formed(),
{
    let mut entry = entry;
    let ghost before = entry@;
    entry.update(title, content);
    let ghost now = choose|now: Timestamp|
        entry@ == #[trigger] before.updated(text_view(title), text_view(content), now);
    retag(&mut entry, emotion_tags);
    assert(entry@ == updated_entry(
        before,
        text_view(title),
        text_view(content),
        names_view(emotion_tags),
        now,
    ));
    entry
}

/// The update of [`update_memory_entry`] with the reading of the clock given.
pub fn update_memory_entry_at(
    entry: MemoryEntry,
    title: Option<String>,
    content: Option<String>,
    emotion_tags: Option<Vec<String>>,
    now: Timestamp,
) -> (r: MemoryEntry)
    ensures
        r@ == updated_entry(
            entry@,
            text_view(title),
            text_view(content),
            names_view(emotion_tags),
            now,
        ),
        entry@.well_formed() ==> r@.well_formed(),
{
    let mut entry = entry;
    entry.update_at(title, content, now);
    retag(&mut entry, emotion_tags);
    entry
}

/// Replaces the tags of an entry by those that `emotion_tags` names, where
/// it is given.
fn retag(entry: &mut MemoryEntry, emotion_tags: Option<Vec<String>>)
    ensures
        final(entry)@ == (MemoryEntryView {
            emotion_tags: match emotion_tags {
                Some(names) => tags_added(Seq::empty(), texts_view(names@)),
                None => old(entry)@.emotion_tags,
            },
            ..old(entry)@
        }),
        old(entry)@.well_formed() ==> final(entry)@.well_formed(),
{
    if let Some(tags) = emotion_tags {
        entry.emotion_tags = Vec::new();
        assert(entry@.emotion_tags =~= Seq::empty());
        add_named_tags(entry, &tags);
    }
}

/// The answer to a deletion: success with a note where an entry was deleted,
/// failure with its reason where none was found.
pub fn delete_memory_entry(deleted: bool) -> (r: ApiResponse<bool>)
    ensures
        r.success == deleted,
        r.data == (if deleted {
            Some(true)
        } else {
            None
        }),
        text_view(r.error) == (if deleted {
            None
        } else {
            Some(NOT_FOUND_MESSAGE@)
        }),
        text_view(r.message) == (if deleted {
            Some(DELETED_MESSAGE@)
        } else {
            None
        }),
{
    if deleted {
        ApiResponse::success(true).with_message(DELETED_MESSAGE.to_owned())
    } else {
        ApiResponse::error(NOT_FOUND_MESSAGE.to_owned())
    }
}

/// What precedes the reason in the answer to a sealing that failed.
pub const ENCRYPTION_FAILED: &'static str = "Encryption failed: ";

/// What precedes the reason in the answer to an opening that failed.
pub const DECRYPTION_FAILED: &'static str = "Decryption failed: ";

/// Seals `data` under `password` for a command of the front end. A failure
/// is answered by its message behind [`ENCRYPTION_FAILED`].
pub fn encrypt_data(data: String, password: String) -> (r: Result<
    ApiResponse<EncryptionResult>,
    String,
>)
    ensures
        match r {
            Ok(answer) => {
                &&& answer.success
                &&& answer.error is None
                &&& answer.message is None
                &&& answer.data matches Some(container) && is_sealing(
                    data@,
                    password@,
                    Ok(container@),
                ) && opened_text(with_password(container@, password@)) == Ok::<
                    Seq<char>,
                    StoreError,
                >(data@)
            },
            Err(text) => exists|e: StoreError|
                is_sealing(data@, password@, Err(e)) && text@ == ENCRYPTION_FAILED@
                    + #[trigger] e.message_text(),
        },
{
    match BackendEncryption::encrypt(data.as_str(), password.as_str()) {
        Ok(encrypted) => Ok(ApiResponse::success(encrypted)),
        Err(e) => Err(ENCRYPTION_FAILED.to_owned().concat(e.message().as_str())),
    }
}

/// Opens a container for a command of the front end. A failure is answered
/// by its message behind [`DECRYPTION_FAILED`].
pub fn decrypt_data(params: DecryptionParams) -> (r: Result<ApiResponse<String>, String>)
    ensures
        match r {
            Ok(answer) => {
                &&& answer.success
                &&& answer.error is None
                &&& answer.message is None
                &&& answer.data matches Some(text) && opened_text(params@) == Ok::<
                    Seq<char>,
                    StoreError,
                >(text@)
            },
            Err(text) => opened_text(params@) matches Err(e) && text@ == DECRYPTION_FAILED@
                + e.message_text(),
        },
{
    match BackendEncryption::decrypt(&params) {
        Ok(decrypted) => Ok(ApiResponse::success(decrypted)),
        Err(e) => Err(DECRYPTION_FAILED.to_owned().concat(e.message().as_str())),
    }
}

/// Scores a password for a command of the front end.
pub fn validate_password_strength(password: String) -> (r: Result<ApiResponse<u8>, String>)
    ensures
        match r {
            Ok(answer) => {
                &&& answer.success
                &&& answer.error is None
                &&& answer.message is None
                &&& answer.data matches Some(score) && score == strength_score(password@)
            },
            Err(_) => false,
        },
{
    let strength = BackendEncryption::validate_password_strength(password.as_str());
    Ok(ApiResponse::success(strength))
}

/// Reads the entries for a command of the front end: with a password the
/// file is opened as a container, without one it is read as a collection.
pub fn get_all_memory_entries(
    storage: &StorageManager,
    file: EntriesFile,
    password: Option<&str>,
) -> (r: Result<ReadOutcome, StoreError>)
    ensures
        match password {
            Some(p) => match r {
                Ok(ReadOutcome::Json(json)) => file.unsealed(p@) == Ok::<
                    Option<Seq<char>>,
                    StoreError,
                >(Some(json@)),
                Ok(ReadOutcome::Entries(list)) => list@.len() == 0 && file.unsealed(p@) == Ok::<
                    Option<Seq<char>>,
                    StoreError,
                >(None),
                Err(e) => file.unsealed(p@) == Err::<Option<Seq<char>>, StoreError>(e),
            },
            None => match r {
                Ok(ReadOutcome::Entries(list)) => file.loaded() == Ok::<
                    Seq<MemoryEntryView>,
                    StoreError,
                >(entries_view(list@)),
                Ok(ReadOutcome::Json(_)) => false,
                Err(e) => file.loaded() == Err::<Seq<MemoryEntryView>, StoreError>(e),
            },
        },
{
    match password {
        Some(password) => match storage.load_entries_with_password(file, password) {
            Ok(Some(json)) => Ok(ReadOutcome::Json(json)),
            Ok(None) => Ok(ReadOutcome::Entries(Vec::new())),
            Err(e) => Err(e),
        },
        None => match storage.get_all_entries(file) {
            Ok(list) => Ok(ReadOutcome::Entries(list)),
            Err(e) => Err(e),
        },
    }
}

} // verus!

//! The records the store keeps, and their mathematical models.

use vstd::prelude::*;
use vstd::string::StrSliceExecFns;
use crate::primitives::{new_entry_id, utc_now};
use crate::text::same_text;

verus! {

/// The kind of content an entry holds.
#[derive(Clone, Copy, Debug, PartialEq, Eq, Hash, Structural)]
pub enum MemoryType {
    Text,
    Image,
    Audio,
    Mixed,
}

/// The fixed vocabulary of feelings an entry can be tagged with.
#[derive(Clone, Copy, Debug, PartialEq, Eq, Hash, Structural)]
pub enum EmotionTag {
    Joy,
    Sadness,
    Nostalgia,
    Hope,
    Regret,
    Attachment,
    Persistence,
}

impl MemoryType {
    /// The kind that a lowercase name stands for; `Text` for any other name.
    pub open spec fn named(name: Seq<char>) -> MemoryType {
        if name == "image"@ {
            MemoryType::Image
        } else if name == "audio"@ {
            MemoryType::Audio
        } else if name == "mixed"@ {
            MemoryType::Mixed
        } else {
            MemoryType::Text
        }
    }

    /// Reads a kind from its lowercase name. A name that stands for no kind
    /// reads as `Text`.
    pub fn from_name(name: &str) -> (r: MemoryType)
        ensures
            r == MemoryType::named(name@),
    {
        if same_text(name, "image") {
            MemoryType::Image
        } else if same_text(name, "audio") {
            MemoryType::Audio
        } else if same_text(name, "mixed") {
            MemoryType::Mixed
        } else {
            MemoryType::Text
        }
    }
}

impl EmotionTag {
    /// The tag that a lowercase name stands for, if any.
    pub open spec fn named(name: Seq<char>) -> Option<EmotionTag> {
        if name == "joy"@ {
            Some(EmotionTag::Joy)
        } else if name == "sadness"@ {
            Some(EmotionTag::Sadness)
        } else if name == "nostalgia"@ {
            Some(EmotionTag::Nostalgia)
        } else if name == "hope"@ {
            Some(EmotionTag::Hope)
        } else if name == "regret"@ {
            Some(EmotionTag::Regret)
        } else if name == "attachment"@ {
            Some(EmotionTag::Attachment)
        } else if name == "persistence"@ {
            Some(EmotionTag::Persistence)
        } else {
            None
        }
    }

    /// Reads a tag from its lowercase name.
    pub fn from_name(name: &str) -> (r: Option<EmotionTag>)
        ensures
            r == EmotionTag::named(name@),
    {
        if same_text(name, "joy") {
            Some(EmotionTag::Joy)
        } else if same_text(name, "sadness") {
            Some(EmotionTag::Sadness)
        } else if same_text(name, "nostalgia") {
            Some(EmotionTag::Nostalgia)
        } else if same_text(name, "hope") {
            Some(EmotionTag::Hope)
        } else if same_text(name, "regret") {
            Some(EmotionTag::Regret)
        } else if same_text(name, "attachment") {
            Some(EmotionTag::Attachment)
        } else if same_text(name, "persistence") {
            Some(EmotionTag::Persistence)
        } else {
            None
        }
    }
}

/// A point in time: whole seconds since the Unix epoch and the nanoseconds
/// within that second. Instants are ordered by seconds, then by nanoseconds.
#[derive(Clone, Copy, Debug, PartialEq, Eq, Hash, Structural)]
pub struct Timestamp {
    pub secs: i64,
    pub nanos: u32,
}

impl Timestamp {
    /// `self` lies strictly before `other`.
    pub open spec fn before(self, other: Timestamp) -> bool {
        self.secs < other.secs || (self.secs == other.secs && self.nanos < other.nanos)
    }

    /// `self` is `other` or lies before it.
    pub open spec fn not_after(self, other: Timestamp) -> bool {
        !other.before(self)
    }

    /// Tells whether `self` lies strictly before `other`.
    pub fn is_before(&self, other: &Timestamp) -> (r: bool)
        ensures
            r == self.before(*other),
    {
        self.secs < other.secs || (self.secs == other.secs && self.nanos < other.nanos)
    }

    /// The later of two instants.
    pub fn latest(self, other: Timestamp) -> (r: Timestamp)
        ensures
            r == (if self.before(other) { other } else { self }),
    {
        if self.is_before(&other) {
            other
        } else {
            self
        }
    }
}

/// A file that belongs to an entry.
#[derive(Debug)]
pub struct Attachment {
    pub id: String,
    pub file_name: String,
    pub file_path: String,
    pub file_type: String,
    pub file_size: u64,
    pub is_encrypted: bool,
    pub created_at: Timestamp,
}

/// What an [`Attachment`] holds, with texts as sequences of characters.
pub struct AttachmentView {
    pub id: Seq<char>,
    pub file_name: Seq<char>,
    pub file_path: Seq<char>,
    pub file_type: Seq<char>,
    pub file_size: u64,
    pub is_encrypted: bool,
    pub created_at: Timestamp,
}

impl View for Attachment {
    type V = AttachmentView;

    open spec fn view(&self) -> AttachmentView {
        AttachmentView {
            id: self.id@,
            file_name: self.file_name@,
            file_path: self.file_path@,
            file_type: self.file_type@,
            file_size: self.file_size,
            is_encrypted: self.is_encrypted,
            created_at: self.created_at,
        }
    }
}

/// Facts about an entry that are derived from it or added by its author.
#[derive(Debug)]
pub struct MemoryMetadata {
    pub word_count: Option<u32>,
    /// Estimated reading time in minutes.
    pub reading_time: Option<u32>,
    pub location: Option<String>,
    pub weather: Option<String>,
    pub mood: Option<String>,
    pub tags: Option<Vec<String>>,
}

/// What a [`MemoryMetadata`] holds, with texts as sequences of characters.
pub struct MemoryMetadataView {
    pub word_count: Option<u32>,
    pub reading_time: Option<u32>,
    pub location: Option<Seq<char>>,
    pub weather: Option<Seq<char>>,
    pub mood: Option<Seq<char>>,
    pub tags: Option<Seq<Seq<char>>>,
}

/// The model of an optional text.
pub open spec fn text_view(text: Option<String>) -> Option<Seq<char>> {
    match text {
        Some(t) => Some(t@),
        None => None,
    }
}

/// The model of a list of texts.
pub open spec fn texts_view(texts: Seq<String>) -> Seq<Seq<char>> {
    Seq::new(texts.len(), |i: int| texts[i]@)
}

impl View for MemoryMetadata {
    type V = MemoryMetadataView;

    open spec fn view(&self) -> MemoryMetadataView {
        MemoryMetadataView {
            word_count: self.word_count,
            reading_time: self.reading_time,
            location: text_view(self.location),
            weather: text_view(self.weather),
            mood: text_view(self.mood),
            tags: match self.tags {
                Some(t) => Some(texts_view(t@)),
                None => None,
            },
        }
    }
}

/// One record of the collection.
#[derive(Debug)]
pub struct MemoryEntry {
    pub id: String,
    pub title: String,
    pub content: String,
    pub memory_type: MemoryType,
    pub emotion_tags: Vec<EmotionTag>,
    pub created_at: Timestamp,
    pub updated_at: Timestamp,
    pub is_encrypted: bool,
    pub attachments: Option<Vec<Attachment>>,
    pub metadata: Option<MemoryMetadata>,
}

/// What a [`MemoryEntry`] holds, with texts and lists as sequences.
pub struct MemoryEntryView {
    pub id: Seq<char>,
    pub title: Seq<char>,
    pub content: Seq<char>,
    pub memory_type: MemoryType,
    pub emotion_tags: Seq<EmotionTag>,
    pub created_at: Timestamp,
    pub updated_at: Timestamp,
    pub is_encrypted: bool,
    pub attachments: Option<Seq<AttachmentView>>,
    pub metadata: Option<MemoryMetadataView>,
}

/// The model of a list of attachments.
pub open spec fn attachments_view(items: Seq<Attachment>) -> Seq<AttachmentView> {
    Seq::new(items.len(), |i: int| items[i]@)
}

impl View for MemoryEntry {
    type V = MemoryEntryView;

    open spec fn view(&self) -> MemoryEntryView {
        MemoryEntryView {
            id: self.id@,
            title: self.title@,
            content: self.content@,
            memory_type: self.memory_type,
            emotion_tags: self.emotion_tags@,
            created_at: self.created_at,
            updated_at: self.updated_at,
            is_encrypted: self.is_encrypted,
            attachments: match self.attachments {
                Some(a) => Some(attachments_view(a@)),
                None => None,
            },
            metadata: match self.metadata {
                Some(m) => Some(m@),
                None => None,
            },
        }
    }
}

/// The model of a collection: the models of its entries, in order.
pub open spec fn entries_view(entries: Seq<MemoryEntry>) -> Seq<MemoryEntryView> {
    Seq::new(entries.len(), |i: int| entries[i]@)
}

/// A copy of a list of texts.
pub fn copy_texts(texts: &Vec<String>) -> (r: Vec<String>)
    ensures
        texts_view(r@) == texts_view(texts@),
{
    let mut out: Vec<String> = Vec::new();
    let mut i: usize = 0;
    while i < texts.len()
        invariant
            i <= texts.len(),
            out.len() == i,
            forall|j: int| 0 <= j < i ==> out[j]@ == texts[j]@,
        decreases texts.len() - i,
    {
        out.push(texts[i].clone());
        i += 1;
    }
    assert(texts_view(out@) =~= texts_view(texts@));
    out
}

/// A copy of an optional text.
pub fn copy_text(text: &Option<String>) -> (r: Option<String>)
    ensures
        text_view(r) == text_view(*text),
{
    match text {
        Some(t) => Some(t.clone()),
        None => None,
    }
}

impl Clone for Attachment {
    fn clone(&self) -> (r: Self)
        ensures
            r@ == self@,
    {
        Attachment {
            id: self.id.clone(),
            file_name: self.file_name.clone(),
            file_path: self.file_path.clone(),
            file_type: self.file_type.clone(),
            file_size: self.file_size,
            is_encrypted: self.is_encrypted,
            created_at: self.created_at,
        }
    }
}

impl Clone for MemoryMetadata {
    fn clone(&self) -> (r: Self)
        ensures
            r@ == self@,
    {
        MemoryMetadata {
            word_count: self.word_count,
            reading_time: self.reading_time,
            location: copy_text(&self.location),
            weather: copy_text(&self.weather),
            mood: copy_text(&self.mood),
            tags: match &self.tags {
                Some(t) => Some(copy_texts(t)),
                None => None,
            },
        }
    }
}

/// A copy of a list of attachments.
pub fn copy_attachments(items: &Vec<Attachment>) -> (r: Vec<Attachment>)
    ensures
        attachments_view(r@) == attachments_view(items@),
{
    let mut out: Vec<Attachment> = Vec::new();
    let mut i: usize = 0;
    while i < items.len()
        invariant
            i <= items.len(),
            out.len() == i,
            forall|j: int| 0 <= j < i ==> out[j]@ == items[j]@,
        decreases items.len() - i,
    {
        out.push(items[i].clone());
        i += 1;
    }
    assert(attachments_view(out@) =~= attachments_view(items@));
    out
}

/// A copy of a list of tags.
pub fn copy_tags(tags: &Vec<EmotionTag>) -> (r: Vec<EmotionTag>)
    ensures
        r@ == tags@,
{
    let mut out: Vec<EmotionTag> = Vec::new();
    let mut i: usize = 0;
    while i < tags.len()
        invariant
            i <= tags.len(),
            out.len() == i,
            forall|j: int| 0 <= j < i ==> out[j] == tags[j],
        decreases tags.len() - i,
    {
        out.push(tags[i]);
        i += 1;
    }
    assert(out@ =~= tags@);
    out
}

impl Clone for MemoryEntry {
    fn clone(&self) -> (r: Self)
        ensures
            r@ == self@,
    {
        MemoryEntry {
            id: self.id.clone(),
            title: self.title.clone(),
            content: self.content.clone(),
            memory_type: self.memory_type,
            emotion_tags: copy_tags(&self.emotion_tags),
            created_at: self.created_at,
            updated_at: self.updated_at,
            is_encrypted: self.is_encrypted,
            attachments: match &self.attachments {
                Some(a) => Some(copy_attachments(a)),
                None => None,
            },
            metadata: match &self.metadata {
                Some(m) => Some(m.clone()),
                None => None,
            },
        }
    }
}

/// A sealed payload in the layout that names its algorithm.
#[derive(Debug)]
pub struct EncryptedData {
    pub data: String,
    pub salt: String,
    pub nonce: String,
    pub algorithm: String,
}

impl Clone for EncryptedData {
    fn clone(&self) -> (r: Self)
        ensures
            r.data@ == self.data@,
            r.salt@ == self.salt@,
            r.nonce@ == self.nonce@,
            r.algorithm@ == self.algorithm@,
    {
        EncryptedData {
            data: self.data.clone(),
            salt: self.salt.clone(),
            nonce: self.nonce.clone(),
            algorithm: self.algorithm.clone(),
        }
    }
}

/// Inclusive bounds on the creation time of an entry.
#[derive(Clone, Copy, Debug, PartialEq, Eq, Structural)]
pub struct DateRange {
    pub start: Timestamp,
    pub end: Timestamp,
}

impl DateRange {
    /// `at` lies within the bounds, the bounds included.
    pub open spec fn holds(self, at: Timestamp) -> bool {
        self.start.not_after(at) && at.not_after(self.end)
    }

    /// Tells whether `at` lies within the bounds, the bounds included.
    pub fn contains(&self, at: &Timestamp) -> (r: bool)
        ensures
            r == self.holds(*at),
    {
        !at.is_before(&self.start) && !self.end.is_before(at)
    }
}

/// What a search asks of an entry. A dimension that is `None` asks nothing.
#[derive(Debug)]
pub struct SearchFilter {
    pub keyword: Option<String>,
    pub memory_type: Option<MemoryType>,
    pub emotion_tags: Option<Vec<EmotionTag>>,
    pub date_range: Option<DateRange>,
    pub tags: Option<Vec<String>>,
}

/// What a [`SearchFilter`] holds, with texts and lists as sequences.
pub struct SearchFilterView {
    pub keyword: Option<Seq<char>>,
    pub memory_type: Option<MemoryType>,
    pub emotion_tags: Option<Seq<EmotionTag>>,
    pub date_range: Option<DateRange>,
    pub tags: Option<Seq<Seq<char>>>,
}

impl View for SearchFilter {
    type V = SearchFilterView;

    open spec fn view(&self) -> SearchFilterView {
        SearchFilterView {
            keyword: text_view(self.keyword),
            memory_type: self.memory_type,
            emotion_tags: match self.emotion_tags {
                Some(t) => Some(t@),
                None => None,
            },
            date_range: self.date_range,
            tags: match self.tags {
                Some(t) => Some(texts_view(t@)),
                None => None,
            },
        }
    }
}

impl Clone for SearchFilter {
    fn clone(&self) -> (r: Self)
        ensures
            r@ == self@,
    {
        SearchFilter {
            keyword: copy_text(&self.keyword),
            memory_type: self.memory_type,
            emotion_tags: match &self.emotion_tags {
                Some(t) => Some(copy_tags(t)),
                None => None,
            },
            date_range: self.date_range,
            tags: match &self.tags {
                Some(t) => Some(copy_texts(t)),
                None => None,
            },
        }
    }
}

/// The answer handed to the front end: a payload on success, a reason on
/// failure, and an optional note either way.
#[derive(Debug)]
pub struct ApiResponse<T> {
    pub success: bool,
    pub data: Option<T>,
    pub error: Option<String>,
    pub message: Option<String>,
}

impl<T> ApiResponse<T> {
    /// A successful answer that carries `data`.
    pub fn success(data: T) -> (r: Self)
        ensures
            r.success,
            r.data == Some(data),
            r.error is None,
            r.message is None,
    {
        ApiResponse { success: true, data: Some(data), error: None, message: None }
    }

    /// A successful answer without a payload.
    pub fn success_empty() -> (r: Self)
        ensures
            r.success,
            r.data is None,
            r.error is None,
            r.message is None,
    {
        ApiResponse { success: true, data: None, error: None, message: None }
    }

    /// A failed answer with its reason.
    pub fn error(error: String) -> (r: Self)
        ensures
            !r.success,
            r.data is None,
            r.error == Some(error),
            r.message is None,
    {
        ApiResponse { success: false, data: None, error: Some(error), message: None }
    }

    /// The same answer with `message` as its note, replacing an earlier one.
    pub fn with_message(self, message: String) -> (r: Self)
        ensures
            r.success == self.success,
            r.data == self.data,
            r.error == self.error,
            r.message == Some(message),
    {
        let mut out = self;
        out.message = Some(message);
        out
    }
}

/// The number of characters counted as one minute of reading.
pub const CHARS_PER_MINUTE: u32 = 200;

/// The character count of a text as a 32-bit number: the count modulo 2^32.
pub open spec fn word_count_of(content: Seq<char>) -> u32 {
    (content.len() % 0x1_0000_0000) as u32
}

/// The estimated reading time of a text in minutes: one minute for each 200
/// characters counted, and one minute at least.
pub open spec fn reading_time_of(content: Seq<char>) -> u32 {
    if word_count_of(content) / CHARS_PER_MINUTE < 1 {
        1
    } else {
        word_count_of(content) / CHARS_PER_MINUTE
    }
}

/// Counts the characters of a text and estimates its reading time.
pub fn text_metrics(content: &str) -> (r: (u32, u32))
    ensures
        r.0 == word_count_of(content@),
        r.1 == reading_time_of(content@),
{
    let count: u64 = content.unicode_len() as u64;
    let word_count: u32 = (count % 0x1_0000_0000u64) as u32;
    let minutes: u32 = word_count / CHARS_PER_MINUTE;
    if minutes < 1 {
        (word_count, 1)
    } else {
        (word_count, minutes)
    }
}

/// No tag occurs twice.
pub open spec fn distinct_tags(tags: Seq<EmotionTag>) -> bool {
    forall|i: int, j: int| 0 <= i < j < tags.len() ==> tags[i] != tags[j]
}

/// `tags` without every occurrence of `tag`, the others in their order.
pub open spec fn without_tag(tags: Seq<EmotionTag>, tag: EmotionTag) -> Seq<EmotionTag> {
    tags.filter(other_than(tag))
}

/// The test that a tag is another one than `tag`.
pub open spec fn other_than(tag: EmotionTag) -> spec_fn(EmotionTag) -> bool {
    |t: EmotionTag| t != tag
}

impl MemoryEntryView {
    /// The entry was not updated before it was created, and no emotion tag
    /// occurs twice in it.
    pub open spec fn well_formed(self) -> bool {
        self.created_at.not_after(self.updated_at) && distinct_tags(self.emotion_tags)
    }

    /// The metadata after the content was replaced: the counts follow the new
    /// content, the rest stays.
    pub open spec fn recounted(self, content: Seq<char>) -> Option<MemoryMetadataView> {
        match self.metadata {
            Some(m) => Some(
                MemoryMetadataView {
                    word_count: Some(word_count_of(content)),
                    reading_time: Some(reading_time_of(content)),
                    ..m
                },
            ),
            None => None,
        }
    }

    /// The entry after an update at `now` that replaces the title and the
    /// content where one is given. New content brings new counts. The time of
    /// the update never moves back.
    pub open spec fn updated(
        self,
        title: Option<Seq<char>>,
        content: Option<Seq<char>>,
        now: Timestamp,
    ) -> MemoryEntryView {
        MemoryEntryView {
            title: match title {
                Some(t) => t,
                None => self.title,
            },
            content: match content {
                Some(c) => c,
                None => self.content,
            },
            metadata: match content {
                Some(c) => self.recounted(c),
                None => self.metadata,
            },
            updated_at: if self.updated_at.before(now) {
                now
            } else {
                self.updated_at
            },
            ..self
        }
    }
}

impl MemoryEntry {
    /// A new entry with a fresh random identifier, created now, without tags,
    /// attachments or metadata.
    pub fn new(title: String, content: String, memory_type: MemoryType) -> (entry: MemoryEntry)
        ensures
            entry@.title == title@,
            entry@.content == content@,
            entry@.memory_type == memory_type,
            entry@.emotion_tags.len() == 0,
            entry@.updated_at == entry@.created_at,
            !entry@.is_encrypted,
            entry@.attachments is None,
            entry@.metadata is None,
            entry@.id.len() == 36,
            entry@.well_formed(),
    {
        Self::with_identity(new_entry_id(), utc_now(), title, content, memory_type)
    }

    /// A new entry with the identifier and the time of creation given,
    /// without tags, attachments or metadata.
    pub fn with_identity(
        id: String,
        now: Timestamp,
        title: String,
        content: String,
        memory_type: MemoryType,
    ) -> (entry: MemoryEntry)
        ensures
            entry@ == (MemoryEntryView {
                id: id@,
                title: title@,
                content: content@,
                memory_type,
                emotion_tags: Seq::empty(),
                created_at: now,
                updated_at: now,
                is_encrypted: false,
                attachments: None,
                metadata: None,
            }),
            entry@.well_formed(),
    {
        MemoryEntry {
            id,
            title,
            content,
            memory_type,
            emotion_tags: Vec::new(),
            created_at: now,
            updated_at: now,
            is_encrypted: false,
            attachments: None,
            metadata: None,
        }
    }

    /// Replaces the title and the content where one is given and stamps the
    /// entry with the current time, or keeps its stamp where the clock reads
    /// earlier than that.
    pub fn update(&mut self, title: Option<String>, content: Option<String>)
        ensures
            exists|now: Timestamp|
                final(self)@ == #[trigger] old(self)@.updated(
                    text_view(title),
                    text_view(content),
                    now,
                ),
            old(self)@.well_formed() ==> final(self)@.well_formed(),
    {
        let now = utc_now();
        self.update_at(title, content, now);
    }

    /// The update of [`MemoryEntry::update`] with the reading of the clock
    /// given.
    pub fn update_at(&mut self, title: Option<String>, content: Option<String>, now: Timestamp)
        ensures
            final(self)@ == old(self)@.updated(text_view(title), text_view(content), now),
            old(self)@.well_formed() ==> final(self)@.well_formed(),
    {
        if let Some(title) = title {
            self.title = title;
        }
        if let Some(content) = content {
            let (word_count, reading_time) = text_metrics(content.as_str());
            self.content = content;
            if let Some(metadata) = &mut self.metadata {
                metadata.word_count = Some(word_count);
                metadata.reading_time = Some(reading_time);
            }
        }
        self.updated_at = self.updated_at.latest(now);
    }

    /// Adds a tag unless the entry carries it already.
    pub fn add_emotion_tag(&mut self, tag: EmotionTag)
        ensures
            final(self)@ == (MemoryEntryView {
                emotion_tags: if old(self)@.emotion_tags.contains(tag) {
                    old(self)@.emotion_tags
                } else {
                    old(self)@.emotion_tags.push(tag)
                },
                ..old(self)@
            }),
            old(self)@.well_formed() ==> final(self)@.well_formed(),
    {
        if !has_tag(&self.emotion_tags, tag) {
            self.emotion_tags.push(tag);
        }
    }

    /// Removes every occurrence of a tag.
    pub fn remove_emotion_tag(&mut self, tag: &EmotionTag)
        ensures
            final(self)@ == (MemoryEntryView {
                emotion_tags: without_tag(old(self)@.emotion_tags, *tag),
                ..old(self)@
            }),
            old(self)@.well_formed() ==> final(self)@.well_formed(),
    {
        let mut kept: Vec<EmotionTag> = Vec::new();
        let mut i: usize = 0;
        while i < self.emotion_tags.len()
            invariant
                i <= self.emotion_tags.len(),
                *self == *old(self),
                kept@ == without_tag(self.emotion_tags@.subrange(0, i as int), *tag),
            decreases self.emotion_tags.len() - i,
        {
            let t = self.emotion_tags[i];
            proof {
                let prefix = self.emotion_tags@.subrange(0, i as int);
                assert(self.emotion_tags@.subrange(0, i + 1) =~= prefix.push(t));
                lemma_filter_push(prefix, t, *tag);
            }
            if t != *tag {
                kept.push(t);
            }
            i += 1;
        }
        proof {
            assert(self.emotion_tags@.subrange(0, i as int) =~= self.emotion_tags@);
            if distinct_tags(self.emotion_tags@) {
                lemma_without_tag_distinct(self.emotion_tags@, *tag);
            }
        }
        self.emotion_tags = kept;
    }
}

/// Tells whether `tag` is among `tags`.
pub fn has_tag(tags: &Vec<EmotionTag>, tag: EmotionTag) -> (r: bool)
    ensures
        r == tags@.contains(tag),
{
    let mut i: usize = 0;
    while i < tags.len()
        invariant
            i <= tags.len(),
            forall|j: int| 0 <= j < i ==> tags[j] != tag,
        decreases tags.len() - i,
    {
        if tags[i] == tag {
            return true;
        }
        i += 1;
    }
    false
}

/// Removing a tag from a list with one more item: the item stays unless it is
/// the tag.
pub proof fn lemma_filter_push(tags: Seq<EmotionTag>, last: EmotionTag, tag: EmotionTag)
    ensures
        without_tag(tags.push(last), tag) == if last != tag {
            without_tag(tags, tag).push(last)
        } else {
            without_tag(tags, tag)
        },
{
    reveal(Seq::filter);
    assert(tags.push(last).drop_last() =~= tags);
}

/// Removing a tag keeps a list free of duplicates.
pub proof fn lemma_without_tag_distinct(tags: Seq<EmotionTag>, tag: EmotionTag)
    requires
        distinct_tags(tags),
    ensures
        distinct_tags(without_tag(tags, tag)),
    decreases tags.len(),
{
    if tags.len() > 0 {
        let front = tags.drop_last();
        let last = tags.last();
        assert(tags =~= front.push(last));
        lemma_filter_push(front, last, tag);
        lemma_without_tag_distinct(front, tag);
        let kept = without_tag(front, tag);
        if last != tag {
            assert forall|i: int, j: int| 0 <= i < j < kept.push(last).len() implies kept.push(
                last,
            )[i] != kept.push(last)[j] by {
                if j == kept.len() {
                    assert(kept.contains(kept[i]));
                    front.lemma_filter_contains_rev(other_than(tag), kept[i]);
                    assert(front.contains(kept[i]));
                    let k = choose|k: int| 0 <= k < front.len() && front[k] == kept[i];
                    assert(tags[k] != tags[tags.len() - 1]);
                }
            }
        }
    } else {
        assert(without_tag(tags, tag) =~= Seq::<EmotionTag>::empty()) by {
            reveal(Seq::filter);
        }
    }
}

} // verus!

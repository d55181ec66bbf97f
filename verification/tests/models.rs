use memory_vault::models::{
    text_metrics, ApiResponse, DateRange, EmotionTag, MemoryEntry, MemoryMetadata, MemoryType,
    Timestamp,
};

fn at(secs: i64) -> Timestamp {
    Timestamp { secs, nanos: 0 }
}

fn sample_entry() -> MemoryEntry {
    MemoryEntry::with_identity(
        "id-1".to_string(),
        at(100),
        "title".to_string(),
        "content".to_string(),
        MemoryType::Text,
    )
}

#[test]
fn new_entry_starts_bare() {
    let entry = MemoryEntry::new("t".to_string(), "c".to_string(), MemoryType::Audio);
    assert_eq!(entry.title, "t");
    assert_eq!(entry.content, "c");
    assert_eq!(entry.memory_type, MemoryType::Audio);
    assert!(entry.emotion_tags.is_empty());
    assert_eq!(entry.created_at, entry.updated_at);
    assert!(!entry.is_encrypted);
    assert!(entry.attachments.is_none());
    assert!(entry.metadata.is_none());
}

#[test]
fn new_entry_gets_a_fresh_hyphenated_identifier() {
    let first = MemoryEntry::new("t".to_string(), "c".to_string(), MemoryType::Text);
    let second = MemoryEntry::new("t".to_string(), "c".to_string(), MemoryType::Text);
    assert_eq!(first.id.len(), 36);
    assert_eq!(first.id.matches('-').count(), 4);
    assert!(first.id.chars().all(|c| c == '-' || c.is_ascii_hexdigit()));
    assert_ne!(first.id, second.id);
}

#[test]
fn new_entry_is_stamped_with_the_current_time() {
    let entry = MemoryEntry::new("t".to_string(), "c".to_string(), MemoryType::Text);
    // Later than the first of January 2020.
    assert!(entry.created_at.secs > 1_577_836_800);
    assert!(entry.created_at.nanos < 2_000_000_000);
}

#[test]
fn with_identity_keeps_what_it_is_given() {
    let entry = sample_entry();
    assert_eq!(entry.id, "id-1");
    assert_eq!(entry.created_at, at(100));
    assert_eq!(entry.updated_at, at(100));
    assert_eq!(entry.title, "title");
    assert_eq!(entry.content, "content");
}

#[test]
fn update_at_replaces_what_is_given() {
    let mut entry = sample_entry();
    entry.update_at(Some("new title".to_string()), None, at(200));
    assert_eq!(entry.title, "new title");
    assert_eq!(entry.content, "content");
    assert_eq!(entry.updated_at, at(200));
    assert_eq!(entry.created_at, at(100));
    assert_eq!(entry.id, "id-1");
    entry.update_at(None, Some("new content".to_string()), at(300));
    assert_eq!(entry.title, "new title");
    assert_eq!(entry.content, "new content");
    assert_eq!(entry.updated_at, at(300));
    entry.update_at(None, None, at(400));
    assert_eq!(entry.title, "new title");
    assert_eq!(entry.content, "new content");
    assert_eq!(entry.updated_at, at(400));
}

#[test]
fn update_at_recounts_the_content() {
    let mut entry = sample_entry();
    entry.metadata = Some(MemoryMetadata {
        word_count: Some(7),
        reading_time: Some(1),
        location: Some("home".to_string()),
        weather: None,
        mood: Some("calm".to_string()),
        tags: Some(vec!["a".to_string()]),
    });
    entry.update_at(None, Some("字".repeat(450)), at(200));
    let metadata = entry.metadata.clone().unwrap();
    assert_eq!(metadata.word_count, Some(450));
    assert_eq!(metadata.reading_time, Some(2));
    assert_eq!(metadata.location, Some("home".to_string()));
    assert_eq!(metadata.weather, None);
    assert_eq!(metadata.mood, Some("calm".to_string()));
    assert_eq!(metadata.tags, Some(vec!["a".to_string()]));
    // A new title alone leaves the counts as they are.
    entry.update_at(Some("t".to_string()), None, at(300));
    assert_eq!(entry.metadata.unwrap().word_count, Some(450));
}

#[test]
fn update_at_leaves_missing_metadata_missing() {
    let mut entry = sample_entry();
    entry.update_at(None, Some("new".to_string()), at(200));
    assert!(entry.metadata.is_none());
}

#[test]
fn update_at_never_moves_the_stamp_back() {
    let mut entry = sample_entry();
    entry.update_at(None, None, at(50));
    assert_eq!(entry.updated_at, at(100));
    entry.update_at(None, None, Timestamp { secs: 100, nanos: 5 });
    assert_eq!(entry.updated_at, Timestamp { secs: 100, nanos: 5 });
    entry.update_at(None, None, Timestamp { secs: 100, nanos: 4 });
    assert_eq!(entry.updated_at, Timestamp { secs: 100, nanos: 5 });
    assert!(!entry.updated_at.is_before(&entry.created_at));
}

#[test]
fn update_stamps_with_the_clock() {
    let mut entry = sample_entry();
    entry.update(Some("new".to_string()), Some("text".to_string()));
    assert_eq!(entry.title, "new");
    assert_eq!(entry.content, "text");
    assert!(entry.updated_at.secs > 1_577_836_800);
    assert_eq!(entry.created_at, at(100));
}

#[test]
fn text_metrics_counts_characters() {
    assert_eq!(text_metrics(""), (0, 1));
    assert_eq!(text_metrics("abc"), (3, 1));
    assert_eq!(text_metrics("日记"), (2, 1));
    assert_eq!(text_metrics(&"x".repeat(199)), (199, 1));
    assert_eq!(text_metrics(&"x".repeat(200)), (200, 1));
    assert_eq!(text_metrics(&"x".repeat(399)), (399, 1));
    assert_eq!(text_metrics(&"x".repeat(400)), (400, 2));
    assert_eq!(text_metrics(&"x".repeat(1000)), (1000, 5));
}

#[test]
fn add_emotion_tag_adds_once() {
    let mut entry = sample_entry();
    entry.add_emotion_tag(EmotionTag::Joy);
    entry.add_emotion_tag(EmotionTag::Hope);
    entry.add_emotion_tag(EmotionTag::Joy);
    assert_eq!(entry.emotion_tags, vec![EmotionTag::Joy, EmotionTag::Hope]);
}

#[test]
fn remove_emotion_tag_removes_every_occurrence() {
    let mut entry = sample_entry();
    entry.emotion_tags =
        vec![EmotionTag::Joy, EmotionTag::Hope, EmotionTag::Joy, EmotionTag::Regret];
    entry.remove_emotion_tag(&EmotionTag::Joy);
    assert_eq!(entry.emotion_tags, vec![EmotionTag::Hope, EmotionTag::Regret]);
    entry.remove_emotion_tag(&EmotionTag::Sadness);
    assert_eq!(entry.emotion_tags, vec![EmotionTag::Hope, EmotionTag::Regret]);
    entry.remove_emotion_tag(&EmotionTag::Hope);
    entry.remove_emotion_tag(&EmotionTag::Regret);
    assert!(entry.emotion_tags.is_empty());
}

#[test]
fn names_read_as_kinds_and_tags() {
    assert_eq!(MemoryType::from_name("text"), MemoryType::Text);
    assert_eq!(MemoryType::from_name("image"), MemoryType::Image);
    assert_eq!(MemoryType::from_name("audio"), MemoryType::Audio);
    assert_eq!(MemoryType::from_name("mixed"), MemoryType::Mixed);
    assert_eq!(MemoryType::from_name("video"), MemoryType::Text);
    assert_eq!(MemoryType::from_name("Image"), MemoryType::Text);
    assert_eq!(MemoryType::from_name(""), MemoryType::Text);
    assert_eq!(EmotionTag::from_name("joy"), Some(EmotionTag::Joy));
    assert_eq!(EmotionTag::from_name("sadness"), Some(EmotionTag::Sadness));
    assert_eq!(EmotionTag::from_name("nostalgia"), Some(EmotionTag::Nostalgia));
    assert_eq!(EmotionTag::from_name("hope"), Some(EmotionTag::Hope));
    assert_eq!(EmotionTag::from_name("regret"), Some(EmotionTag::Regret));
    assert_eq!(EmotionTag::from_name("attachment"), Some(EmotionTag::Attachment));
    assert_eq!(EmotionTag::from_name("persistence"), Some(EmotionTag::Persistence));
    assert_eq!(EmotionTag::from_name("Joy"), None);
    assert_eq!(EmotionTag::from_name("anger"), None);
    assert_eq!(EmotionTag::from_name(""), None);
}

#[test]
fn timestamps_are_ordered_by_seconds_then_nanoseconds() {
    let early = Timestamp { secs: 10, nanos: 900 };
    let late = Timestamp { secs: 11, nanos: 0 };
    let later = Timestamp { secs: 11, nanos: 1 };
    let before_epoch = Timestamp { secs: -5, nanos: 999_999_999 };
    assert!(early.is_before(&late));
    assert!(late.is_before(&later));
    assert!(before_epoch.is_before(&early));
    assert!(!late.is_before(&early));
    assert!(!late.is_before(&late));
    assert_eq!(early.latest(late), late);
    assert_eq!(late.latest(early), late);
    assert_eq!(late.latest(late), late);
}

#[test]
fn date_range_includes_its_bounds() {
    let range = DateRange { start: at(10), end: at(20) };
    assert!(range.contains(&at(10)));
    assert!(range.contains(&at(15)));
    assert!(range.contains(&at(20)));
    assert!(!range.contains(&Timestamp { secs: 9, nanos: 999_999_999 }));
    assert!(!range.contains(&Timestamp { secs: 20, nanos: 1 }));
    let empty = DateRange { start: at(20), end: at(10) };
    assert!(!empty.contains(&at(15)));
}

#[test]
fn clone_copies_every_field() {
    let mut entry = sample_entry();
    entry.emotion_tags = vec![EmotionTag::Joy];
    entry.is_encrypted = true;
    entry.metadata = Some(MemoryMetadata {
        word_count: Some(1),
        reading_time: Some(2),
        location: Some("l".to_string()),
        weather: Some("w".to_string()),
        mood: Some("m".to_string()),
        tags: Some(vec!["x".to_string(), "y".to_string()]),
    });
    entry.attachments = Some(vec![memory_vault::models::Attachment {
        id: "a".to_string(),
        file_name: "f".to_string(),
        file_path: "/p".to_string(),
        file_type: "png".to_string(),
        file_size: 9,
        is_encrypted: true,
        created_at: at(5),
    }]);
    let copy = entry.clone();
    assert_eq!(format!("{:?}", copy), format!("{:?}", entry));
}

#[test]
fn responses_carry_what_they_are_built_from() {
    let ok = ApiResponse::success(5u8);
    assert!(ok.success);
    assert_eq!(ok.data, Some(5));
    assert_eq!(ok.error, None);
    assert_eq!(ok.message, None);
    let empty: ApiResponse<u8> = ApiResponse::success_empty();
    assert!(empty.success);
    assert_eq!(empty.data, None);
    assert_eq!(empty.error, None);
    assert_eq!(empty.message, None);
    let failed: ApiResponse<u8> = ApiResponse::error("bad".to_string());
    assert!(!failed.success);
    assert_eq!(failed.data, None);
    assert_eq!(failed.error, Some("bad".to_string()));
    assert_eq!(failed.message, None);
    let noted = ApiResponse::success(5u8).with_message("one".to_string());
    assert_eq!(noted.message, Some("one".to_string()));
    assert_eq!(noted.data, Some(5));
    assert!(noted.success);
    let renoted = noted.with_message("two".to_string());
    assert_eq!(renoted.message, Some("two".to_string()));
    let failed_noted = failed.with_message("note".to_string());
    assert!(!failed_noted.success);
    assert_eq!(failed_noted.error, Some("bad".to_string()));
}

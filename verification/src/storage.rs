//! The document store: what each operation makes of the files it was handed,
//! and what it asks to have written back.

use vstd::prelude::*;
use crate::crypto::{
    is_sealing, opened_text, with_password, BackendEncryption, DecryptionParams,
    EncryptionResult, EncryptionResultView,
};
use crate::error::StoreError;
use crate::primitives::choose_with_thread_rng;
use crate::models::{entries_view, MemoryEntry, MemoryEntryView, SearchFilter, SearchFilterView};
use crate::search::{filter_matches, keyword_found, shares_emotion_tag, shares_text};
use crate::text::{blank, is_blank, same_text, to_lowercase};

verus! {

/// One of the three files of a store.
#[derive(Clone, Copy, Debug, PartialEq, Eq, Structural)]
pub enum StoreFile {
    Entries,
    Settings,
    Config,
}

impl StoreFile {
    /// The name of the file in the data directory.
    pub open spec fn name(self) -> Seq<char> {
        match self {
            StoreFile::Entries => "memories.json"@,
            StoreFile::Settings => "settings.json"@,
            StoreFile::Config => "config.json"@,
        }
    }

    /// The name of the copy of the file in a backup directory.
    pub open spec fn backup(self) -> Seq<char> {
        match self {
            StoreFile::Entries => "memories_backup.json"@,
            StoreFile::Settings => "settings_backup.json"@,
            StoreFile::Config => "config_backup.json"@,
        }
    }

    /// The name of the file in the data directory.
    pub fn file_name(&self) -> (name: &'static str)
        ensures
            name@ == self.name(),
    {
        match self {
            StoreFile::Entries => "memories.json",
            StoreFile::Settings => "settings.json",
            StoreFile::Config => "config.json",
        }
    }

    /// The name of the copy of the file in a backup directory.
    pub fn backup_name(&self) -> (name: &'static str)
        ensures
            name@ == self.backup(),
    {
        match self {
            StoreFile::Entries => "memories_backup.json",
            StoreFile::Settings => "settings_backup.json",
            StoreFile::Config => "config_backup.json",
        }
    }
}

/// What the caller found where the entries file should be. For a file that
/// could be read, the caller hands over its text together with what the text
/// parses as: `container` where it has the shape of a sealed container,
/// `entries` where it has the shape of a collection.
#[derive(Debug)]
pub enum EntriesFile {
    Missing,
    Unreadable,
    Content { text: String, container: Option<EncryptionResult>, entries: Option<Vec<MemoryEntry>> },
}

impl EntriesFile {
    /// The collection a plain read makes of the file. A missing or blank file
    /// is the empty collection. The shape of a container is tried before the
    /// shape of a collection: a file that holds a container is never read as
    /// a collection.
    pub open spec fn loaded(self) -> Result<Seq<MemoryEntryView>, StoreError> {
        match self {
            EntriesFile::Missing => Ok(Seq::empty()),
            EntriesFile::Unreadable => Err(StoreError::Io),
            EntriesFile::Content { text, container, entries } => if blank(text@) {
                Ok(Seq::empty())
            } else if container is Some {
                Err(StoreError::DecryptionRequired)
            } else {
                match entries {
                    Some(list) => Ok(entries_view(list@)),
                    None => Err(StoreError::Serialization),
                }
            },
        }
    }

    /// The collection a change starts from: what a plain read gives, and the
    /// empty collection where the read fails.
    pub open spec fn loaded_or_empty(self) -> Seq<MemoryEntryView> {
        match self.loaded() {
            Ok(list) => list,
            Err(_) => Seq::empty(),
        }
    }

    /// The JSON text a read with a password recovers from the file; `None`
    /// for a missing or blank file, which stands for the empty collection.
    pub open spec fn unsealed(self, password: Seq<char>) -> Result<Option<Seq<char>>, StoreError> {
        match self {
            EntriesFile::Missing => Ok(None),
            EntriesFile::Unreadable => Err(StoreError::Io),
            EntriesFile::Content { text, container, entries } => if blank(text@) {
                Ok(None)
            } else {
                match container {
                    None => Err(StoreError::Serialization),
                    Some(c) => match opened_text(with_password(c@, password)) {
                        Ok(json) => Ok(Some(json)),
                        Err(e) => Err(e),
                    },
                }
            },
        }
    }
}

/// What is to be written to the entries file: the collection as JSON text,
/// or the container that seals that text.
#[derive(Debug)]
pub enum SavedContent {
    Plain(String),
    Sealed(EncryptionResult),
}

/// What the caller found where the settings or the configuration should be;
/// `Parsed` holds the document that the text of the file parses as.
#[derive(Debug)]
pub enum DocumentFile<T> {
    Missing,
    Unreadable,
    Malformed,
    Parsed(T),
}

/// A document that was loaded, and whether it is the default that still has
/// to be written to disk.
#[derive(Debug)]
pub struct LoadedDocument<T> {
    pub document: T,
    pub write_back: bool,
}

/// The files to copy into a backup: those that exist, in the order entries,
/// settings, configuration.
pub open spec fn backup_plan(entries: bool, settings: bool, config: bool) -> Seq<StoreFile> {
    (if entries {
        seq![StoreFile::Entries]
    } else {
        Seq::empty()
    }) + (if settings {
        seq![StoreFile::Settings]
    } else {
        Seq::empty()
    }) + (if config {
        seq![StoreFile::Config]
    } else {
        Seq::empty()
    })
}

/// The outcome of a save with the container as its model; plain text is no
/// outcome of a sealing.
pub open spec fn saved_outcome(r: Result<SavedContent, StoreError>) -> Option<
    Result<EncryptionResultView, StoreError>,
> {
    match r {
        Ok(SavedContent::Sealed(c)) => Some(Ok(c@)),
        Ok(SavedContent::Plain(_)) => None,
        Err(e) => Some(Err(e)),
    }
}

/// `i` is the place of the first entry with the identifier `id`.
pub open spec fn is_first_with_id(entries: Seq<MemoryEntryView>, id: Seq<char>, i: int) -> bool {
    &&& 0 <= i < entries.len()
    &&& entries[i].id == id
    &&& forall|j: int| 0 <= j < i ==> (#[trigger] entries[j]).id != id
}

/// Some entry has the identifier `id`.
pub open spec fn has_id(entries: Seq<MemoryEntryView>, id: Seq<char>) -> bool {
    exists|i: int| 0 <= i < entries.len() && (#[trigger] entries[i]).id == id
}

/// The place of the first entry with the identifier `id`, where there is one.
pub open spec fn first_with_id(entries: Seq<MemoryEntryView>, id: Seq<char>) -> int {
    choose|i: int| is_first_with_id(entries, id, i)
}

/// The first entry with the identifier `id`, if any.
pub open spec fn found(entries: Seq<MemoryEntryView>, id: Seq<char>) -> Option<MemoryEntryView> {
    if has_id(entries, id) {
        Some(entries[first_with_id(entries, id)])
    } else {
        None
    }
}

/// The collection after `entry` was saved: it stands in the place of the
/// first entry with its identifier, or at the end where there is none.
pub open spec fn upserted(entries: Seq<MemoryEntryView>, entry: MemoryEntryView) -> Seq<
    MemoryEntryView,
> {
    if has_id(entries, entry.id) {
        entries.update(first_with_id(entries, entry.id), entry)
    } else {
        entries.push(entry)
    }
}

/// The test that an entry has another identifier than `id`.
pub open spec fn other_id(id: Seq<char>) -> spec_fn(MemoryEntryView) -> bool {
    |e: MemoryEntryView| e.id != id
}

/// The collection without the entries that have the identifier `id`.
pub open spec fn removed(entries: Seq<MemoryEntryView>, id: Seq<char>) -> Seq<MemoryEntryView> {
    entries.filter(other_id(id))
}

/// The test that an entry answers a filter.
pub open spec fn answers(filter: SearchFilterView) -> spec_fn(MemoryEntryView) -> bool {
    |e: MemoryEntryView| filter_matches(e, filter)
}

/// The entries that answer a filter, in their order.
pub open spec fn matching(entries: Seq<MemoryEntryView>, filter: SearchFilterView) -> Seq<
    MemoryEntryView,
> {
    entries.filter(answers(filter))
}

/// No two entries share an identifier.
pub open spec fn distinct_ids(entries: Seq<MemoryEntryView>) -> bool {
    forall|i: int, j: int|
        0 <= i < j < entries.len() ==> (#[trigger] entries[i]).id != (#[trigger] entries[j]).id
}

/// The first place with an identifier is the only place that is first.
pub proof fn lemma_first_with_id(entries: Seq<MemoryEntryView>, id: Seq<char>, i: int)
    requires
        is_first_with_id(entries, id, i),
    ensures
        has_id(entries, id),
        first_with_id(entries, id) == i,
{
    let k = first_with_id(entries, id);
    assert(is_first_with_id(entries, id, k));
    if k < i {
        assert(entries[k].id != id);
    }
    if i < k {
        assert(entries[i].id != id);
    }
}

/// Where some entry has the identifier, one of them is the first.
pub proof fn lemma_has_first(entries: Seq<MemoryEntryView>, id: Seq<char>)
    requires
        has_id(entries, id),
    ensures
        is_first_with_id(entries, id, first_with_id(entries, id)),
{
    let i = choose|i: int| 0 <= i < entries.len() && (#[trigger] entries[i]).id == id;
    lemma_first_below(entries, id, i);
}

/// Below a place with the identifier lies the first such place, or it is the
/// first itself.
proof fn lemma_first_below(entries: Seq<MemoryEntryView>, id: Seq<char>, i: int)
    requires
        0 <= i < entries.len(),
        entries[i].id == id,
    ensures
        exists|k: int| is_first_with_id(entries, id, k),
    decreases i,
{
    if exists|j: int| 0 <= j < i && (#[trigger] entries[j]).id == id {
        let j = choose|j: int| 0 <= j < i && (#[trigger] entries[j]).id == id;
        lemma_first_below(entries, id, j);
    } else {
        assert(is_first_with_id(entries, id, i));
    }
}

/// The store of one data directory.
#[derive(Debug)]
pub struct StorageManager {
    data_dir: String,
}

impl StorageManager {
    /// The directory the store keeps its files in.
    pub closed spec fn dir(&self) -> Seq<char> {
        self.data_dir@
    }

    /// The directory the store keeps its files in.
    pub fn get_data_dir(&self) -> (dir: &str)
        ensures
            dir@ == self.dir(),
    {
        self.data_dir.as_str()
    }

    /// The store of the data directory `app_data_dir`.
    pub fn new(app_data_dir: &str) -> (store: StorageManager)
        ensures
            store.dir() == app_data_dir@,
    {
        StorageManager { data_dir: app_data_dir.to_owned() }
    }

    /// The place of the first entry with the identifier `id`, if any.
    pub fn position(entries: &Vec<MemoryEntry>, id: &str) -> (r: Option<usize>)
        ensures
            match r {
                Some(i) => is_first_with_id(entries_view(entries@), id@, i as int),
                None => !has_id(entries_view(entries@), id@),
            },
    {
        let mut i: usize = 0;
        while i < entries.len()
            invariant
                i <= entries.len(),
                forall|j: int| 0 <= j < i ==> (#[trigger] entries_view(entries@)[j]).id != id@,
            decreases entries.len() - i,
        {
            if same_text(entries[i].id.as_str(), id) {
                return Some(i);
            }
            i += 1;
        }
        None
    }

    /// Reads the collection from what was found on disk.
    pub fn load_all_entries(&self, file: EntriesFile) -> (r: Result<Vec<MemoryEntry>, StoreError>)
        ensures
            match r {
                Ok(list) => file.loaded() == Ok::<Seq<MemoryEntryView>, StoreError>(
                    entries_view(list@),
                ),
                Err(e) => file.loaded() == Err::<Seq<MemoryEntryView>, StoreError>(e),
            },
    {
        match file {
            EntriesFile::Missing => {
                let list: Vec<MemoryEntry> = Vec::new();
                assert(entries_view(list@) =~= Seq::empty());
                Ok(list)
            },
            EntriesFile::Unreadable => Err(StoreError::Io),
            EntriesFile::Content { text, container, entries } => {
                if is_blank(text.as_str()) {
                    let list: Vec<MemoryEntry> = Vec::new();
                    assert(entries_view(list@) =~= Seq::empty());
                    return Ok(list);
                }
                if container.is_some() {
                    return Err(StoreError::DecryptionRequired);
                }
                match entries {
                    Some(list) => Ok(list),
                    None => Err(StoreError::Serialization),
                }
            },
        }
    }

    /// The collection a change starts from: a read that fails counts as the
    /// empty collection.
    pub fn load_or_empty(&self, file: EntriesFile) -> (list: Vec<MemoryEntry>)
        ensures
            entries_view(list@) == file.loaded_or_empty(),
    {
        match self.load_all_entries(file) {
            Ok(list) => list,
            Err(_) => {
                let list: Vec<MemoryEntry> = Vec::new();
                assert(entries_view(list@) =~= Seq::empty());
                list
            },
        }
    }

    /// The whole collection.
    pub fn get_all_entries(&self, file: EntriesFile) -> (r: Result<Vec<MemoryEntry>, StoreError>)
        ensures
            match r {
                Ok(list) => file.loaded() == Ok::<Seq<MemoryEntryView>, StoreError>(
                    entries_view(list@),
                ),
                Err(e) => file.loaded() == Err::<Seq<MemoryEntryView>, StoreError>(e),
            },
    {
        self.load_all_entries(file)
    }

    /// The first entry with the identifier `entry_id`, if any.
    pub fn get_entry(&self, file: EntriesFile, entry_id: &str) -> (r: Result<
        Option<MemoryEntry>,
        StoreError,
    >)
        ensures
            match r {
                Ok(Some(entry)) => file.loaded() matches Ok(list) && found(list, entry_id@)
                    == Some(entry@),
                Ok(None) => file.loaded() matches Ok(list) && found(list, entry_id@) is None,
                Err(e) => file.loaded() == Err::<Seq<MemoryEntryView>, StoreError>(e),
            },
    {
        let entries = match self.load_all_entries(file) {
            Ok(entries) => entries,
            Err(e) => {
                return Err(e);
            },
        };
        match Self::position(&entries, entry_id) {
            Some(i) => {
                proof {
                    lemma_first_with_id(entries_view(entries@), entry_id@, i as int);
                }
                Ok(Some(entries[i].clone()))
            },
            None => Ok(None),
        }
    }

    /// The collection to write when `entry` is saved: the collection on disk,
    /// or the empty one where it cannot be read, with `entry` in the place of
    /// the first entry that has its identifier, or at the end.
    pub fn save_entry(&self, file: EntriesFile, entry: &MemoryEntry) -> (list: Vec<MemoryEntry>)
        ensures
            entries_view(list@) == upserted(file.loaded_or_empty(), entry@),
    {
        let mut entries = self.load_or_empty(file);
        let ghost before = entries_view(entries@);
        match Self::position(&entries, entry.id.as_str()) {
            Some(index) => {
                proof {
                    lemma_first_with_id(before, entry@.id, index as int);
                }
                entries.set(index, entry.clone());
                assert(entries_view(entries@) =~= before.update(index as int, entry@));
            },
            None => {
                entries.push(entry.clone());
                assert(entries_view(entries@) =~= before.push(entry@));
            },
        }
        entries
    }

    /// The collection to write when the entries with the identifier
    /// `entry_id` are deleted, or `None` where no entry has it and nothing is
    /// to be written.
    pub fn delete_entry(&self, file: EntriesFile, entry_id: &str) -> (r: Option<Vec<MemoryEntry>>)
        ensures
            match r {
                Some(list) => has_id(file.loaded_or_empty(), entry_id@) && entries_view(list@)
                    == removed(file.loaded_or_empty(), entry_id@),
                None => !has_id(file.loaded_or_empty(), entry_id@),
            },
    {
        let entries = self.load_or_empty(file);
        let ghost before = entries_view(entries@);
        let initial_len = entries.len();
        let mut kept: Vec<MemoryEntry> = Vec::new();
        assert(before.subrange(0, 0) =~= Seq::empty());
        assert(entries_view(kept@) =~= Seq::empty());
        proof {
            reveal(Seq::filter);
        }
        for entry in it: entries
            invariant
                entries_view(it.seq()) == before,
                it.seq().len() == initial_len,
                entries_view(kept@) == removed(before.subrange(0, it.index() as int), entry_id@),
                kept@.len() <= it.index(),
                kept@.len() == it.index() <==> !has_id(
                    before.subrange(0, it.index() as int),
                    entry_id@,
                ),
        {
            let ghost prefix = before.subrange(0, it.index() as int);
            let ghost old_kept = entries_view(kept@);
            proof {
                assert(before.subrange(0, it.index() + 1) =~= prefix.push(entry@));
                lemma_removed_push(prefix, entry@, entry_id@);
                lemma_has_id_push(prefix, entry@, entry_id@);
            }
            if !same_text(entry.id.as_str(), entry_id) {
                kept.push(entry);
                assert(entries_view(kept@) =~= old_kept.push(entry@));
            }
        }
        assert(before.subrange(0, initial_len as int) =~= before);
        if kept.len() < initial_len {
            Some(kept)
        } else {
            None
        }
    }

    /// What to write after a deletion: the JSON text of the remaining
    /// collection as it is. A deletion never seals, also where the file held
    /// a container before.
    pub fn save_after_delete(&self, json_content: String) -> (r: SavedContent)
        ensures
            r matches SavedContent::Plain(text) && text@ == json_content@,
    {
        SavedContent::Plain(json_content)
    }

    /// The entries that answer `filter`, in their order.
    pub fn search_entries(&self, file: EntriesFile, filter: &SearchFilter) -> (r: Result<
        Vec<MemoryEntry>,
        StoreError,
    >)
        ensures
            match r {
                Ok(list) => file.loaded() matches Ok(all) && entries_view(list@) == matching(
                    all,
                    filter@,
                ),
                Err(e) => file.loaded() == Err::<Seq<MemoryEntryView>, StoreError>(e),
            },
    {
        let entries = match self.load_all_entries(file) {
            Ok(entries) => entries,
            Err(e) => {
                return Err(e);
            },
        };
        let ghost all = entries_view(entries@);
        let mut kept: Vec<MemoryEntry> = Vec::new();
        assert(all.subrange(0, 0) =~= Seq::empty());
        assert(entries_view(kept@) =~= Seq::empty());
        proof {
            reveal(Seq::filter);
        }
        for entry in it: entries
            invariant
                entries_view(it.seq()) == all,
                entries_view(kept@) == matching(all.subrange(0, it.index() as int), filter@),
        {
            let ghost prefix = all.subrange(0, it.index() as int);
            let ghost old_kept = entries_view(kept@);
            proof {
                assert(all.subrange(0, it.index() + 1) =~= prefix.push(entry@));
                reveal(Seq::filter);
                assert(prefix.push(entry@).drop_last() =~= prefix);
            }
            if self.matches_filter(&entry, filter) {
                kept.push(entry);
                assert(entries_view(kept@) =~= old_kept.push(entry@));
            }
        }
        assert(all.subrange(0, all.len() as int) =~= all);
        Ok(kept)
    }

    /// What to write for the collection whose JSON text is `json_content`:
    /// the text itself without a password, and with one the container that
    /// seals the text under a fresh salt and nonce. That container opens to
    /// the text again under the same password.
    pub fn save_all_entries(&self, json_content: String, password: Option<&str>) -> (r: Result<
        SavedContent,
        StoreError,
    >)
        ensures
            match password {
                None => r matches Ok(SavedContent::Plain(text)) && text@ == json_content@,
                Some(p) => {
                    &&& saved_outcome(r) matches Some(outcome) && is_sealing(
                        json_content@,
                        p@,
                        outcome,
                    )
                    &&& r matches Ok(SavedContent::Sealed(c)) ==> opened_text(
                        with_password(c@, p@),
                    ) == Ok::<Seq<char>, StoreError>(json_content@)
                    &&& json_content@.len() == 0 || p@.len() == 0 ==> r == Err::<
                        SavedContent,
                        StoreError,
                    >(StoreError::Validation)
                },
            },
    {
        match password {
            Some(password) => match BackendEncryption::encrypt(json_content.as_str(), password) {
                Ok(encrypted) => Ok(SavedContent::Sealed(encrypted)),
                Err(e) => Err(e),
            },
            None => Ok(SavedContent::Plain(json_content)),
        }
    }

    /// Opens the entries file with a password and returns the JSON text of
    /// the collection; `None` for a missing or blank file, which stands for
    /// the empty collection. The file has to hold a container.
    pub fn load_entries_with_password(&self, file: EntriesFile, password: &str) -> (r: Result<
        Option<String>,
        StoreError,
    >)
        ensures
            match r {
                Ok(Some(json)) => file.unsealed(password@) == Ok::<Option<Seq<char>>, StoreError>(
                    Some(json@),
                ),
                Ok(None) => file.unsealed(password@) == Ok::<Option<Seq<char>>, StoreError>(None),
                Err(e) => file.unsealed(password@) == Err::<Option<Seq<char>>, StoreError>(e),
            },
    {
        match file {
            EntriesFile::Missing => Ok(None),
            EntriesFile::Unreadable => Err(StoreError::Io),
            EntriesFile::Content { text, container, entries } => {
                if is_blank(text.as_str()) {
                    return Ok(None);
                }
                let encrypted_data = match container {
                    Some(c) => c,
                    None => {
                        return Err(StoreError::Serialization);
                    },
                };
                let decrypt_params = DecryptionParams {
                    encrypted_data: encrypted_data.encrypted_data,
                    nonce: encrypted_data.nonce,
                    salt: encrypted_data.salt,
                    password: password.to_owned(),
                };
                match BackendEncryption::decrypt(&decrypt_params) {
                    Ok(json) => Ok(Some(json)),
                    Err(e) => Err(e),
                }
            },
        }
    }

    /// The collection that an opened entries file holds: what its JSON text
    /// parses as, and a failure where it does not parse.
    pub fn decrypted_entries(&self, parsed: Option<Vec<MemoryEntry>>) -> (r: Result<
        Vec<MemoryEntry>,
        StoreError,
    >)
        ensures
            match parsed {
                Some(list) => r == Ok::<Vec<MemoryEntry>, StoreError>(list),
                None => r == Err::<Vec<MemoryEntry>, StoreError>(StoreError::Serialization),
            },
    {
        match parsed {
            Some(list) => Ok(list),
            None => Err(StoreError::Serialization),
        }
    }

    /// One entry of the collection picked at random, or `None` where the
    /// collection is empty.
    pub fn get_random_entry(&self, file: EntriesFile) -> (r: Result<Option<MemoryEntry>, StoreError>)
        ensures
            match r {
                Ok(Some(entry)) => file.loaded() matches Ok(list) && list.contains(entry@),
                Ok(None) => file.loaded() matches Ok(list) && list.len() == 0,
                Err(e) => file.loaded() == Err::<Seq<MemoryEntryView>, StoreError>(e),
            },
    {
        let entries = match self.load_all_entries(file) {
            Ok(entries) => entries,
            Err(e) => {
                return Err(e);
            },
        };
        match choose_with_thread_rng(&entries) {
            Some(entry) => {
                proof {
                    let i = choose|i: int| 0 <= i < entries@.len() && entries@[i] == *entry;
                    assert(entries_view(entries@)[i] == entry@);
                }
                Ok(Some(entry.clone()))
            },
            None => Ok(None),
        }
    }

    /// The files to copy into a backup directory, given which of the three
    /// files exist. Each is copied under its backup name; a file that does
    /// not exist is passed over.
    pub fn backup_data(&self, entries_exist: bool, settings_exist: bool, config_exist: bool) -> (r:
        Vec<StoreFile>)
        ensures
            r@ == backup_plan(entries_exist, settings_exist, config_exist),
    {
        let mut copies: Vec<StoreFile> = Vec::new();
        if entries_exist {
            copies.push(StoreFile::Entries);
        }
        if settings_exist {
            copies.push(StoreFile::Settings);
        }
        if config_exist {
            copies.push(StoreFile::Config);
        }
        assert(copies@ =~= backup_plan(entries_exist, settings_exist, config_exist));
        copies
    }

    /// The settings to use: those on disk, or `default` where there is no
    /// file yet, which then has to be written.
    pub fn load_settings<T>(&self, file: DocumentFile<T>, default: T) -> (r: Result<
        LoadedDocument<T>,
        StoreError,
    >)
        ensures
            r == Self::loaded_document(file, default),
    {
        Self::load_document(file, default)
    }

    /// The configuration to use: the one on disk, or `default` where there is
    /// no file yet, which then has to be written.
    pub fn load_dream_config<T>(&self, file: DocumentFile<T>, default: T) -> (r: Result<
        LoadedDocument<T>,
        StoreError,
    >)
        ensures
            r == Self::loaded_document(file, default),
    {
        Self::load_document(file, default)
    }

    /// Where the settings go: `serialized` is their JSON text, or `None`
    /// where they could not be serialized.
    pub fn save_settings(&self, serialized: Option<String>) -> (r: Result<
        (StoreFile, String),
        StoreError,
    >)
        ensures
            r == Self::write_request(StoreFile::Settings, serialized),
    {
        Self::save_document(StoreFile::Settings, serialized)
    }

    /// Where the configuration goes: `serialized` is its JSON text, or `None`
    /// where it could not be serialized.
    pub fn save_dream_config(&self, serialized: Option<String>) -> (r: Result<
        (StoreFile, String),
        StoreError,
    >)
        ensures
            r == Self::write_request(StoreFile::Config, serialized),
    {
        Self::save_document(StoreFile::Config, serialized)
    }

    /// What loading an auxiliary document gives.
    pub open spec fn loaded_document<T>(file: DocumentFile<T>, default: T) -> Result<
        LoadedDocument<T>,
        StoreError,
    > {
        match file {
            DocumentFile::Missing => Ok(LoadedDocument { document: default, write_back: true }),
            DocumentFile::Unreadable => Err(StoreError::Io),
            DocumentFile::Malformed => Err(StoreError::Serialization),
            DocumentFile::Parsed(document) => Ok(LoadedDocument { document, write_back: false }),
        }
    }

    /// What saving an auxiliary document asks to have written.
    pub open spec fn write_request(file: StoreFile, serialized: Option<String>) -> Result<
        (StoreFile, String),
        StoreError,
    > {
        match serialized {
            Some(text) => Ok((file, text)),
            None => Err(StoreError::Serialization),
        }
    }

    fn load_document<T>(file: DocumentFile<T>, default: T) -> (r: Result<
        LoadedDocument<T>,
        StoreError,
    >)
        ensures
            r == Self::loaded_document(file, default),
    {
        match file {
            DocumentFile::Missing => Ok(LoadedDocument { document: default, write_back: true }),
            DocumentFile::Unreadable => Err(StoreError::Io),
            DocumentFile::Malformed => Err(StoreError::Serialization),
            DocumentFile::Parsed(document) => Ok(LoadedDocument { document, write_back: false }),
        }
    }

    fn save_document(file: StoreFile, serialized: Option<String>) -> (r: Result<
        (StoreFile, String),
        StoreError,
    >)
        ensures
            r == Self::write_request(file, serialized),
    {
        match serialized {
            Some(text) => Ok((file, text)),
            None => Err(StoreError::Serialization),
        }
    }

    /// Tells whether `entry` meets every dimension that `filter` specifies.
    /// Within the emotion tags and within the free-form tags one common item
    /// is enough; an entry without free-form tags fails a filter that names
    /// some.
    pub fn matches_filter(&self, entry: &MemoryEntry, filter: &SearchFilter) -> (r: bool)
        ensures
            r == filter_matches(entry@, filter@),
    {
        if let Some(keyword) = &filter.keyword {
            let keyword_lower = to_lowercase(keyword.as_str());
            let title_lower = to_lowercase(entry.title.as_str());
            let content_lower = to_lowercase(entry.content.as_str());
            if !keyword_found(
                title_lower.as_str(),
                content_lower.as_str(),
                keyword_lower.as_str(),
            ) {
                return false;
            }
        }
        if let Some(memory_type) = &filter.memory_type {
            if entry.memory_type != *memory_type {
                return false;
            }
        }
        if let Some(emotion_tags) = &filter.emotion_tags {
            if !shares_emotion_tag(emotion_tags, &entry.emotion_tags) {
                return false;
            }
        }
        if let Some(date_range) = &filter.date_range {
            if !date_range.contains(&entry.created_at) {
                return false;
            }
        }
        if let Some(tags) = &filter.tags {
            if let Some(entry_metadata) = &entry.metadata {
                if let Some(entry_tags) = &entry_metadata.tags {
                    if !shares_text(tags, entry_tags) {
                        return false;
                    }
                } else {
                    return false;
                }
            } else {
                return false;
            }
        }
        true
    }
}

/// Removing by identifier from a collection with one more entry: the entry
/// stays unless it has the identifier.
pub proof fn lemma_removed_push(entries: Seq<MemoryEntryView>, last: MemoryEntryView, id: Seq<char>)
    ensures
        removed(entries.push(last), id) == if last.id != id {
            removed(entries, id).push(last)
        } else {
            removed(entries, id)
        },
{
    reveal(Seq::filter);
    assert(entries.push(last).drop_last() =~= entries);
}

/// A collection with one more entry holds an identifier where the collection
/// or the entry does.
pub proof fn lemma_has_id_push(entries: Seq<MemoryEntryView>, last: MemoryEntryView, id: Seq<char>)
    ensures
        has_id(entries.push(last), id) == (has_id(entries, id) || last.id == id),
{
    let more = entries.push(last);
    if has_id(entries, id) {
        let i = choose|i: int| 0 <= i < entries.len() && (#[trigger] entries[i]).id == id;
        assert(more[i].id == id);
    }
    if last.id == id {
        assert(more[entries.len() as int].id == id);
    }
    if has_id(more, id) {
        let i = choose|i: int| 0 <= i < more.len() && (#[trigger] more[i]).id == id;
        if i < entries.len() {
            assert(entries[i].id == id);
        }
    }
}

/// Saving an entry a second time changes nothing: the collection after the
/// second save is the collection after the first, entry for entry.
pub proof fn lemma_save_twice(entries: Seq<MemoryEntryView>, entry: MemoryEntryView)
    ensures
        upserted(upserted(entries, entry), entry) == upserted(entries, entry),
        upserted(upserted(entries, entry), entry).len() == upserted(entries, entry).len(),
{
    let once = upserted(entries, entry);
    if has_id(entries, entry.id) {
        lemma_has_first(entries, entry.id);
        let k = first_with_id(entries, entry.id);
        assert(is_first_with_id(once, entry.id, k));
        lemma_first_with_id(once, entry.id, k);
        assert(once.update(k, entry) =~= once);
    } else {
        let k = entries.len() as int;
        assert forall|j: int| 0 <= j < k implies (#[trigger] once[j]).id != entry.id by {
            assert(entries[j].id != entry.id);
        }
        assert(is_first_with_id(once, entry.id, k));
        lemma_first_with_id(once, entry.id, k);
        assert(once.update(k, entry) =~= once);
    }
}

/// Saving an entry keeps the identifiers of a collection distinct, and the
/// collection grows by one entry exactly where the identifier is new.
pub proof fn lemma_save_keeps_ids_distinct(entries: Seq<MemoryEntryView>, entry: MemoryEntryView)
    requires
        distinct_ids(entries),
    ensures
        distinct_ids(upserted(entries, entry)),
        upserted(entries, entry).len() == if has_id(entries, entry.id) {
            entries.len()
        } else {
            entries.len() + 1
        },
{
    let after = upserted(entries, entry);
    if has_id(entries, entry.id) {
        lemma_has_first(entries, entry.id);
        let k = first_with_id(entries, entry.id);
        assert forall|i: int, j: int| 0 <= i < j < after.len() implies (#[trigger] after[i]).id != (
        #[trigger] after[j]).id by {
            assert(entries[i].id != entries[j].id);
            assert(after[i].id == entries[i].id);
            assert(after[j].id == entries[j].id);
        }
    } else {
        assert forall|i: int, j: int| 0 <= i < j < after.len() implies (#[trigger] after[i]).id != (
        #[trigger] after[j]).id by {
            if j < entries.len() {
                assert(entries[i].id != entries[j].id);
            } else {
                assert(entries[i].id != entry.id);
            }
        }
    }
}

/// Deleting an identifier that no entry has leaves the collection as it is.
pub proof fn lemma_delete_absent(entries: Seq<MemoryEntryView>, id: Seq<char>)
    requires
        !has_id(entries, id),
    ensures
        removed(entries, id) == entries,
    decreases entries.len(),
{
    reveal(Seq::filter);
    if entries.len() > 0 {
        let front = entries.drop_last();
        let last = entries.last();
        assert(entries =~= front.push(last));
        lemma_has_id_push(front, last, id);
        lemma_delete_absent(front, id);
        lemma_removed_push(front, last, id);
    }
}

/// Deleting an identifier from a collection with distinct identifiers takes
/// out one entry where an entry has the identifier, and none where none has.
pub proof fn lemma_delete_present(entries: Seq<MemoryEntryView>, id: Seq<char>)
    requires
        distinct_ids(entries),
    ensures
        removed(entries, id).len() == if has_id(entries, id) {
            entries.len() - 1
        } else {
            entries.len() as int
        },
    decreases entries.len(),
{
    reveal(Seq::filter);
    if entries.len() > 0 {
        let front = entries.drop_last();
        let last = entries.last();
        assert(entries =~= front.push(last));
        assert forall|i: int, j: int| 0 <= i < j < front.len() implies (#[trigger] front[i]).id != (
        #[trigger] front[j]).id by {
            assert(entries[i].id != entries[j].id);
        }
        lemma_has_id_push(front, last, id);
        lemma_removed_push(front, last, id);
        lemma_delete_present(front, id);
        if last.id == id && has_id(front, id) {
            let i = choose|i: int| 0 <= i < front.len() && (#[trigger] front[i]).id == id;
            assert(entries[i].id != entries[entries.len() - 1].id);
        }
    }
}

/// A filter that specifies nothing is answered by every entry: a search
/// with it returns the whole collection.
pub proof fn lemma_unset_filter_keeps_all(entries: Seq<MemoryEntryView>, filter: SearchFilterView)
    requires
        filter.keyword is None,
        filter.memory_type is None,
        filter.emotion_tags is None,
        filter.date_range is None,
        filter.tags is None,
    ensures
        forall|entry: MemoryEntryView| filter_matches(entry, filter),
        matching(entries, filter) == entries,
    decreases entries.len(),
{
    reveal(Seq::filter);
    if entries.len() > 0 {
        let front = entries.drop_last();
        lemma_unset_filter_keeps_all(front, filter);
        assert(entries =~= front.push(entries.last()));
    }
}

/// The two shapes of the entries file never pass for each other: a file
/// with text that holds a container is not read as a collection, whatever
/// else its text parses as, and a file that holds no container is not opened
/// as one.
pub proof fn lemma_shapes_kept_apart(file: EntriesFile, password: Seq<char>)
    requires
        file matches EntriesFile::Content { text, .. } && !blank(text@),
    ensures
        file matches EntriesFile::Content { container: Some(_), .. } ==> file.loaded() == Err::<
            Seq<MemoryEntryView>,
            StoreError,
        >(StoreError::DecryptionRequired),
        file matches EntriesFile::Content { container: None, .. } ==> file.unsealed(password)
            == Err::<Option<Seq<char>>, StoreError>(StoreError::Serialization),
{
}

} // verus!

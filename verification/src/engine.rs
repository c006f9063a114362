//! The operations on the virtual tree as a caller asks for them: by virtual
//! path, with every precondition tested and every refusal named.
//!
//! Each operation is one transition of the index. A path of the form
//! `tg://msg/<id>` names a file; any other virtual path names a folder.

use crate::model::{SavedItemView, TelegramError, TelegramSavedItem};
use crate::naming::sanitized;
use crate::paths::{
    below_recycle_bin, in_recycle_bin, is_below_recycle_bin, is_recycle_bin_saved_path, message_ref, normalize, normalize_saved_path,
    parse_message_id_from_virtual_path, recycle_bin, saved_root, split_parent_and_name,
    split_saved_parent_and_name, virtual_to_saved, virtual_to_saved_path,
};
use crate::store::{select_rows, upsert_row, Database, SelectorView};
use crate::text::{chars_of, concat_chars, same_text, starts_with_chars, string_of, strip_prefix_repeated, strip_prefix_repeated_chars, strip_trailing, strip_trailing_chars, trim, trim_chars};
use crate::tree::{file_location, folder_origin, moved_file, placed_folder_tree, recycled_file, recycled_folder_tree, renamed_file, renamed_folder_tree, restored_file, restored_folder_tree};
use vstd::prelude::*;

verus! {

/// The kinds of failure that the engine and its collaborators report.
#[derive(Clone, Copy, Debug, PartialEq, Eq)]
pub enum ErrorKind {
    /// No remote handle is at hand.
    NotAuthorized,
    /// The index could not be read or written.
    DatabaseError,
    /// A virtual path has no known form, or names the root where the root
    /// cannot be meant.
    InvalidPath,
    /// The index holds no such file or folder.
    NotFound,
    /// The item is not in the state that the operation asks for.
    InvalidState,
    /// The remote collaborator failed.
    RemoteError,
}

/// Why an operation on the tree was refused.
#[derive(Clone, Copy, Debug, PartialEq, Eq)]
pub enum SavedItemError {
    EmptyFolderName,
    EmptyNewName,
    InvalidSourcePath,
    InvalidDestinationPath,
    InvalidSourceFolderPath,
    CannotMoveRoot,
    CannotRenameRoot,
    MoveIntoOwnChild,
    SourceFileNotFound,
    SourceFolderNotFound,
    AlreadyRecycled,
    FileNotRecycled,
    FolderNotRecycled,
    FileNotDeletable,
    FolderNotDeletable,
}

impl SavedItemError {
    /// The kind of this refusal.
    pub open spec fn kind_of(self) -> ErrorKind {
        match self {
            SavedItemError::EmptyFolderName => ErrorKind::InvalidPath,
            SavedItemError::EmptyNewName => ErrorKind::InvalidPath,
            SavedItemError::InvalidSourcePath => ErrorKind::InvalidPath,
            SavedItemError::InvalidDestinationPath => ErrorKind::InvalidPath,
            SavedItemError::InvalidSourceFolderPath => ErrorKind::InvalidPath,
            SavedItemError::CannotMoveRoot => ErrorKind::InvalidPath,
            SavedItemError::CannotRenameRoot => ErrorKind::InvalidPath,
            SavedItemError::MoveIntoOwnChild => ErrorKind::InvalidPath,
            SavedItemError::SourceFileNotFound => ErrorKind::NotFound,
            SavedItemError::SourceFolderNotFound => ErrorKind::NotFound,
            SavedItemError::AlreadyRecycled => ErrorKind::InvalidState,
            SavedItemError::FileNotRecycled => ErrorKind::InvalidState,
            SavedItemError::FolderNotRecycled => ErrorKind::InvalidState,
            SavedItemError::FileNotDeletable => ErrorKind::InvalidState,
            SavedItemError::FolderNotDeletable => ErrorKind::InvalidState,
        }
    }

    /// The words in which this refusal is reported.
    pub open spec fn message_of(self) -> Seq<char> {
        match self {
            SavedItemError::EmptyFolderName => "Folder name cannot be empty"@,
            SavedItemError::EmptyNewName => "New name cannot be empty"@,
            SavedItemError::InvalidSourcePath => "Invalid source path"@,
            SavedItemError::InvalidDestinationPath => "Invalid destination path"@,
            SavedItemError::InvalidSourceFolderPath => "Invalid source folder path"@,
            SavedItemError::CannotMoveRoot => "Cannot move the root folder"@,
            SavedItemError::CannotRenameRoot => "Cannot rename the root folder"@,
            SavedItemError::MoveIntoOwnChild => "Cannot move a folder into its own child"@,
            SavedItemError::SourceFileNotFound => "Source file was not found in local index"@,
            SavedItemError::SourceFolderNotFound => "Source folder was not found in local index"@,
            SavedItemError::AlreadyRecycled => "Item is already in Recycle Bin"@,
            SavedItemError::FileNotRecycled => "Only items in Recycle Bin can be restored"@,
            SavedItemError::FolderNotRecycled => "Only folders in Recycle Bin can be restored"@,
            SavedItemError::FileNotDeletable => "Only items in Recycle Bin can be deleted permanently"@,
            SavedItemError::FolderNotDeletable => "Only folders in Recycle Bin can be deleted permanently"@,
        }
    }

    /// The kind of this refusal.
    pub fn kind(&self) -> (k: ErrorKind)
        ensures
            k == self.kind_of(),
    {
        match self {
            SavedItemError::EmptyFolderName => ErrorKind::InvalidPath,
            SavedItemError::EmptyNewName => ErrorKind::InvalidPath,
            SavedItemError::InvalidSourcePath => ErrorKind::InvalidPath,
            SavedItemError::InvalidDestinationPath => ErrorKind::InvalidPath,
            SavedItemError::InvalidSourceFolderPath => ErrorKind::InvalidPath,
            SavedItemError::CannotMoveRoot => ErrorKind::InvalidPath,
            SavedItemError::CannotRenameRoot => ErrorKind::InvalidPath,
            SavedItemError::MoveIntoOwnChild => ErrorKind::InvalidPath,
            SavedItemError::SourceFileNotFound => ErrorKind::NotFound,
            SavedItemError::SourceFolderNotFound => ErrorKind::NotFound,
            SavedItemError::AlreadyRecycled => ErrorKind::InvalidState,
            SavedItemError::FileNotRecycled => ErrorKind::InvalidState,
            SavedItemError::FolderNotRecycled => ErrorKind::InvalidState,
            SavedItemError::FileNotDeletable => ErrorKind::InvalidState,
            SavedItemError::FolderNotDeletable => ErrorKind::InvalidState,
        }
    }

    /// The words in which this refusal is reported.
    pub fn message(&self) -> (m: String)
        ensures
            m@ == self.message_of(),
    {
        match self {
            SavedItemError::EmptyFolderName => "Folder name cannot be empty".to_string(),
            SavedItemError::EmptyNewName => "New name cannot be empty".to_string(),
            SavedItemError::InvalidSourcePath => "Invalid source path".to_string(),
            SavedItemError::InvalidDestinationPath => "Invalid destination path".to_string(),
            SavedItemError::InvalidSourceFolderPath => "Invalid source folder path".to_string(),
            SavedItemError::CannotMoveRoot => "Cannot move the root folder".to_string(),
            SavedItemError::CannotRenameRoot => "Cannot rename the root folder".to_string(),
            SavedItemError::MoveIntoOwnChild => "Cannot move a folder into its own child".to_string(),
            SavedItemError::SourceFileNotFound => "Source file was not found in local index".to_string(),
            SavedItemError::SourceFolderNotFound => "Source folder was not found in local index".to_string(),
            SavedItemError::AlreadyRecycled => "Item is already in Recycle Bin".to_string(),
            SavedItemError::FileNotRecycled => "Only items in Recycle Bin can be restored".to_string(),
            SavedItemError::FolderNotRecycled => "Only folders in Recycle Bin can be restored".to_string(),
            SavedItemError::FileNotDeletable => "Only items in Recycle Bin can be deleted permanently".to_string(),
            SavedItemError::FolderNotDeletable => "Only folders in Recycle Bin can be deleted permanently".to_string(),
        }
    }

    /// This refusal as the error that a caller of the engine gets.
    pub fn to_telegram_error(&self) -> (e: TelegramError)
        ensures
            e.message@ == self.message_of(),
    {
        TelegramError { message: self.message() }
    }
}

/// The table that an operation leaves and what it reports.
pub struct Outcome {
    pub rows: Seq<SavedItemView>,
    pub result: Result<(), SavedItemError>,
}

/// The full path of `name` in the directory `parent`.
pub open spec fn child_path(parent: Seq<char>, name: Seq<char>) -> Seq<char> {
    strip_trailing(parent, '/') + seq!['/'] + name
}

/// The row of a folder that nothing has touched yet.
pub open spec fn folder_row(
    owner: Seq<char>,
    parent: Seq<char>,
    name: Seq<char>,
    key: Seq<char>,
    date: Seq<char>,
) -> SavedItemView {
    SavedItemView {
        chat_id: 0,
        message_id: 0,
        thumbnail: None,
        file_type: "folder"@,
        file_unique_id: key,
        file_size: 0,
        file_name: name,
        file_caption: Some(name),
        file_path: parent,
        recycle_origin_path: None,
        modified_date: date,
        owner_id: owner,
    }
}

/// Whether a row is stored under `key`.
pub open spec fn key_taken(rows: Seq<SavedItemView>, key: Seq<char>) -> bool {
    exists|i: int| 0 <= i < rows.len() && (#[trigger] rows[i]).file_unique_id == key
}

/// The table after the folder `name` of `owner` in `parent` was written
/// under its key where no row was stored under that key. A row that holds
/// the key stays as it is, whatever it is.
pub open spec fn with_folder(
    rows: Seq<SavedItemView>,
    owner: Seq<char>,
    parent: Seq<char>,
    name: Seq<char>,
    date: Seq<char>,
) -> Seq<SavedItemView> {
    let key = crate::paths::folder_unique_id(owner, parent, name);
    if key_taken(rows, key) {
        rows
    } else {
        upsert_row(rows, folder_row(owner, parent, name, key, date))
    }
}

/// The length of the longest key in the table.
pub open spec fn longest_key(rows: Seq<SavedItemView>) -> nat
    decreases rows.len(),
{
    if rows.len() == 0 {
        0
    } else {
        let before = longest_key(rows.drop_last());
        if rows.last().file_unique_id.len() > before {
            rows.last().file_unique_id.len()
        } else {
            before
        }
    }
}

/// `key` with `~` behind it until it is at least `length` long.
pub open spec fn padded_key(key: Seq<char>, length: nat) -> Seq<char> {
    if key.len() >= length {
        key
    } else {
        key + Seq::new((length - key.len()) as nat, |i: int| '~')
    }
}

/// The key under which a folder that is missing is written: the key of its
/// owner, directory and name where no row holds that; else that key made
/// longer than every key of the table, so that it is the key of no row. A
/// row that holds the folder's own key, a folder that went elsewhere since,
/// keeps it.
pub open spec fn free_folder_key(
    rows: Seq<SavedItemView>,
    owner: Seq<char>,
    parent: Seq<char>,
    name: Seq<char>,
) -> Seq<char> {
    let key = crate::paths::folder_unique_id(owner, parent, name);
    if key_taken(rows, key) {
        padded_key(key, longest_key(rows)).push('~')
    } else {
        key
    }
}

/// The table after the folder `name` of `owner` in `parent`, which is
/// missing, was written as its newest row under a key that no row holds.
pub open spec fn with_new_folder(
    rows: Seq<SavedItemView>,
    owner: Seq<char>,
    parent: Seq<char>,
    name: Seq<char>,
    date: Seq<char>,
) -> Seq<SavedItemView> {
    rows.push(folder_row(owner, parent, name, free_folder_key(rows, owner, parent, name), date))
}

/// No key of the table is longer than the longest.
pub proof fn lemma_longest_key(rows: Seq<SavedItemView>, i: int)
    requires
        0 <= i < rows.len(),
    ensures
        rows[i].file_unique_id.len() <= longest_key(rows),
    decreases rows.len(),
{
    if i < rows.len() - 1 {
        lemma_longest_key(rows.drop_last(), i);
    }
}

/// The key under which a missing folder is written is the key of no row.
pub proof fn lemma_free_folder_key(
    rows: Seq<SavedItemView>,
    owner: Seq<char>,
    parent: Seq<char>,
    name: Seq<char>,
)
    ensures
        !key_taken(rows, free_folder_key(rows, owner, parent, name)),
        forall|i: int|
            0 <= i < rows.len() ==> (#[trigger] rows[i]).file_unique_id != free_folder_key(
                rows,
                owner,
                parent,
                name,
            ),
{
    let key = free_folder_key(rows, owner, parent, name);
    assert forall|i: int| 0 <= i < rows.len() implies (#[trigger] rows[i]).file_unique_id != key by {
        if key_taken(rows, crate::paths::folder_unique_id(owner, parent, name)) {
            lemma_longest_key(rows, i);
            assert(key.len() > longest_key(rows));
        }
    }
}

/// The table after the category folders and the recycle bin of `owner` were
/// written where their keys were free.
pub open spec fn ensured_default_folders(rows: Seq<SavedItemView>, owner: Seq<char>, date: Seq<char>)
    -> Seq<SavedItemView> {
    let images = with_folder(rows, owner, saved_root(), "Images"@, date);
    let videos = with_folder(images, owner, saved_root(), "Videos"@, date);
    let audios = with_folder(videos, owner, saved_root(), "Audios"@, date);
    let documents = with_folder(audios, owner, saved_root(), "Documents"@, date);
    let notes = with_folder(documents, owner, saved_root(), "Notes"@, date);
    with_folder(notes, owner, saved_root(), "Recycle Bin"@, date)
}

/// Whether `owner` has the folder `name` in `parent`.
pub open spec fn folder_exists(
    rows: Seq<SavedItemView>,
    owner: Seq<char>,
    parent: Seq<char>,
    name: Seq<char>,
) -> bool {
    select_rows(rows, owner, SelectorView::Folder { parent, name }).len() > 0
}

/// Whether `owner` has a file row for the message.
pub open spec fn file_exists(rows: Seq<SavedItemView>, owner: Seq<char>, message_id: i32) -> bool {
    select_rows(rows, owner, SelectorView::File { message_id }).len() > 0
}

/// The segments of `s` between the characters `c`.
pub open spec fn split_on(s: Seq<char>, c: char) -> Seq<Seq<char>>
    decreases s.len(),
{
    if s.len() == 0 {
        seq![Seq::<char>::empty()]
    } else if s.last() == c {
        split_on(s.drop_last(), c).push(Seq::<char>::empty())
    } else {
        let before = split_on(s.drop_last(), c);
        before.drop_last().push(before.last().push(s.last()))
    }
}

/// The table after the folders named by `segments`, each inside the one
/// before and the first inside `parent`, were created where they were
/// missing. A segment of white space alone names no folder.
pub open spec fn ensured_chain(
    rows: Seq<SavedItemView>,
    owner: Seq<char>,
    parent: Seq<char>,
    segments: Seq<Seq<char>>,
    date: Seq<char>,
) -> Seq<SavedItemView>
    decreases segments.len(),
{
    if segments.len() == 0 {
        rows
    } else {
        let name = trim(segments[0]);
        if name.len() == 0 {
            ensured_chain(rows, owner, parent, segments.drop_first(), date)
        } else {
            let created = if folder_exists(rows, owner, parent, name) {
                rows
            } else {
                with_new_folder(rows, owner, parent, name, date)
            };
            ensured_chain(created, owner, child_path(parent, name), segments.drop_first(), date)
        }
    }
}

/// The table after every folder on the way from the root to `destination`
/// was created where it was missing.
pub open spec fn ensured_hierarchy(
    rows: Seq<SavedItemView>,
    owner: Seq<char>,
    destination: Seq<char>,
    date: Seq<char>,
) -> Seq<SavedItemView> {
    let target = normalize(destination);
    if target == saved_root() {
        rows
    } else {
        let relative = trim(strip_prefix_repeated(target, "/Home/"@));
        if relative.len() == 0 {
            rows
        } else {
            ensured_chain(rows, owner, saved_root(), split_on(relative, '/'), date)
        }
    }
}

/// Whether every folder named by `segments`, each inside the one before
/// and the first inside `parent`, exists.
pub open spec fn chain_complete(
    rows: Seq<SavedItemView>,
    owner: Seq<char>,
    parent: Seq<char>,
    segments: Seq<Seq<char>>,
) -> bool
    decreases segments.len(),
{
    if segments.len() == 0 {
        true
    } else {
        let name = trim(segments[0]);
        if name.len() == 0 {
            chain_complete(rows, owner, parent, segments.drop_first())
        } else {
            folder_exists(rows, owner, parent, name) && chain_complete(
                rows,
                owner,
                child_path(parent, name),
                segments.drop_first(),
            )
        }
    }
}

/// Whether every folder on the way from the root to `destination` exists.
pub open spec fn hierarchy_complete(
    rows: Seq<SavedItemView>,
    owner: Seq<char>,
    destination: Seq<char>,
) -> bool {
    let target = normalize(destination);
    if target == saved_root() {
        true
    } else {
        let relative = trim(strip_prefix_repeated(target, "/Home/"@));
        if relative.len() == 0 {
            true
        } else {
            chain_complete(rows, owner, saved_root(), split_on(relative, '/'))
        }
    }
}

/// Whether two rows are the same folder: a folder of one owner, in one
/// directory, under one name.
pub open spec fn same_folder(a: SavedItemView, b: SavedItemView) -> bool {
    a.file_type == "folder"@ && b.file_type == "folder"@ && a.owner_id == b.owner_id && a.file_path
        == b.file_path && a.file_name == b.file_name
}

/// Whether the key of `row` is the key of a row that is not the same
/// folder: of a file, or of a folder that has gone elsewhere since.
pub open spec fn key_held_by_other(rows: Seq<SavedItemView>, row: SavedItemView) -> bool {
    exists|i: int|
        0 <= i < rows.len() && (#[trigger] rows[i]).file_unique_id == row.file_unique_id
            && !same_folder(rows[i], row)
}

/// Whether creating the folder `row` writes it: its key is free or held by
/// the folder itself, and where the key is free no folder of that place and
/// name exists under another key.
pub open spec fn writes_folder(rows: Seq<SavedItemView>, row: SavedItemView) -> bool {
    !key_held_by_other(rows, row) && (key_taken(rows, row.file_unique_id) || !folder_exists(
        rows,
        row.owner_id,
        row.file_path,
        row.file_name,
    ))
}

/// What creating the folder `folder_name` in `parent_path` leaves and
/// reports. The name is trimmed and made safe; a name of white space alone
/// is refused. A folder that is stored under its own key is written anew; a
/// folder that exists under another key stays as it is; a folder that does
/// not exist is written under a key that no row holds.
pub open spec fn create_folder_outcome(
    rows: Seq<SavedItemView>,
    owner: Seq<char>,
    parent_path: Seq<char>,
    folder_name: Seq<char>,
    date: Seq<char>,
) -> Outcome {
    if trim(folder_name).len() == 0 {
        Outcome { rows, result: Err(SavedItemError::EmptyFolderName) }
    } else {
        let ensured = ensured_default_folders(rows, owner, date);
        let row = created_folder(owner, parent_path, folder_name, date);
        if writes_folder(ensured, row) {
            Outcome { rows: upsert_row(ensured, row), result: Ok(()) }
        } else if folder_exists(ensured, owner, row.file_path, row.file_name) {
            Outcome { rows: ensured, result: Ok(()) }
        } else {
            Outcome {
                rows: with_new_folder(ensured, owner, row.file_path, row.file_name, date),
                result: Ok(()),
            }
        }
    }
}

/// The row that creating the folder `folder_name` in `parent_path` returns
/// where it succeeds: the row that it writes, or the first row of the folder
/// where the folder exists under another key.
pub open spec fn returned_folder(
    rows: Seq<SavedItemView>,
    owner: Seq<char>,
    parent_path: Seq<char>,
    folder_name: Seq<char>,
    date: Seq<char>,
) -> SavedItemView {
    let ensured = ensured_default_folders(rows, owner, date);
    let row = created_folder(owner, parent_path, folder_name, date);
    if writes_folder(ensured, row) {
        row
    } else if folder_exists(ensured, owner, row.file_path, row.file_name) {
        select_rows(
            ensured,
            owner,
            SelectorView::Folder { parent: row.file_path, name: row.file_name },
        )[0]
    } else {
        folder_row(
            owner,
            row.file_path,
            row.file_name,
            free_folder_key(ensured, owner, row.file_path, row.file_name),
            date,
        )
    }
}

/// The row that creating the folder `folder_name` in `parent_path` writes.
pub open spec fn created_folder(
    owner: Seq<char>,
    parent_path: Seq<char>,
    folder_name: Seq<char>,
    date: Seq<char>,
) -> SavedItemView {
    let parent = normalize(parent_path);
    let name = sanitized(trim(folder_name));
    folder_row(owner, parent, name, crate::paths::folder_unique_id(owner, parent, name), date)
}

/// What moving `source_path` to `destination_path` leaves and reports. A
/// file goes into the directory `destination_path`; a folder becomes the
/// folder that `destination_path` names, and all that lies below it goes
/// along. The folders on the way to the new place are created where they
/// are missing.
/// A folder path that is its own destination is left as it is, whether the
/// index holds the folder or not; any other folder that the index does not
/// hold is refused.
pub open spec fn move_outcome(
    rows: Seq<SavedItemView>,
    owner: Seq<char>,
    source_path: Seq<char>,
    destination_path: Seq<char>,
    date: Seq<char>,
) -> Outcome {
    match virtual_to_saved(destination_path) {
        None => Outcome { rows, result: Err(SavedItemError::InvalidDestinationPath) },
        Some(destination) => {
            let ensured = ensured_default_folders(rows, owner, date);
            match message_ref(source_path) {
                Some(message_id) => if !file_exists(ensured, owner, message_id) {
                    Outcome { rows: ensured, result: Err(SavedItemError::SourceFileNotFound) }
                } else {
                    Outcome {
                        rows: moved_file(
                            ensured_hierarchy(ensured, owner, destination, date),
                            owner,
                            message_id,
                            destination,
                            date,
                        ),
                        result: Ok(()),
                    }
                },
                None => match virtual_to_saved(source_path) {
                    None => Outcome { rows: ensured, result: Err(SavedItemError::InvalidSourcePath) },
                    Some(source) => if source == saved_root() {
                        Outcome { rows: ensured, result: Err(SavedItemError::CannotMoveRoot) }
                    } else if source == destination {
                        Outcome { rows: ensured, result: Ok(()) }
                    } else if (source + seq!['/']).is_prefix_of(destination) {
                        Outcome { rows: ensured, result: Err(SavedItemError::MoveIntoOwnChild) }
                    } else {
                        match split_parent_and_name(source) {
                            None => Outcome {
                                rows: ensured,
                                result: Err(SavedItemError::InvalidSourceFolderPath),
                            },
                            Some((parent, name)) => if !folder_exists(ensured, owner, parent, name) {
                                Outcome {
                                    rows: ensured,
                                    result: Err(SavedItemError::SourceFolderNotFound),
                                }
                            } else {
                                match split_parent_and_name(destination) {
                                    None => Outcome {
                                        rows: ensured,
                                        result: Err(SavedItemError::InvalidDestinationPath),
                                    },
                                    Some((new_parent, new_name)) => Outcome {
                                        rows: placed_folder_tree(
                                            ensured_hierarchy(ensured, owner, new_parent, date),
                                            owner,
                                            parent,
                                            name,
                                            source,
                                            new_parent,
                                            new_name,
                                            destination,
                                            date,
                                        ),
                                        result: Ok(()),
                                    },
                                }
                            },
                        }
                    },
                },
            }
        },
    }
}

/// What renaming `source_path` to `new_name` leaves and reports. The new
/// name is trimmed and made safe. A folder path that ends in the new name
/// already is left as it is, whether the index holds the folder or not; any
/// other folder that the index does not hold is refused.
pub open spec fn rename_outcome(
    rows: Seq<SavedItemView>,
    owner: Seq<char>,
    source_path: Seq<char>,
    new_name: Seq<char>,
    date: Seq<char>,
) -> Outcome {
    let trimmed = trim(new_name);
    if trimmed.len() == 0 {
        Outcome { rows, result: Err(SavedItemError::EmptyNewName) }
    } else {
        let name = sanitized(trimmed);
        let ensured = ensured_default_folders(rows, owner, date);
        match message_ref(source_path) {
            Some(message_id) => if !file_exists(ensured, owner, message_id) {
                Outcome { rows: ensured, result: Err(SavedItemError::SourceFileNotFound) }
            } else {
                Outcome {
                    rows: renamed_file(ensured, owner, message_id, name, date),
                    result: Ok(()),
                }
            },
            None => match virtual_to_saved(source_path) {
                None => Outcome { rows: ensured, result: Err(SavedItemError::InvalidSourcePath) },
                Some(source) => if source == saved_root() {
                    Outcome { rows: ensured, result: Err(SavedItemError::CannotRenameRoot) }
                } else {
                    match split_parent_and_name(source) {
                        None => Outcome {
                            rows: ensured,
                            result: Err(SavedItemError::InvalidSourceFolderPath),
                        },
                        Some((parent, current)) => if current == name {
                            Outcome { rows: ensured, result: Ok(()) }
                        } else if !folder_exists(ensured, owner, parent, current) {
                            Outcome { rows: ensured, result: Err(SavedItemError::SourceFolderNotFound) }
                        } else {
                            Outcome {
                                rows: renamed_folder_tree(
                                    ensured,
                                    owner,
                                    parent,
                                    current,
                                    name,
                                    source,
                                    child_path(parent, name),
                                    date,
                                ),
                                result: Ok(()),
                            }
                        },
                    }
                },
            },
        }
    }
}

/// What recycling `source_path` leaves and reports.
pub open spec fn recycle_outcome(
    rows: Seq<SavedItemView>,
    owner: Seq<char>,
    source_path: Seq<char>,
    date: Seq<char>,
) -> Outcome {
    let ensured = ensured_default_folders(rows, owner, date);
    match message_ref(source_path) {
        Some(message_id) => match file_location(ensured, owner, message_id) {
            None => Outcome { rows: ensured, result: Err(SavedItemError::SourceFileNotFound) },
            Some((path, origin)) => if in_recycle_bin(path) {
                Outcome { rows: ensured, result: Err(SavedItemError::AlreadyRecycled) }
            } else {
                Outcome {
                    rows: recycled_file(ensured, owner, message_id, recycle_bin(), date),
                    result: Ok(()),
                }
            },
        },
        None => match virtual_to_saved(source_path) {
            None => Outcome { rows: ensured, result: Err(SavedItemError::InvalidSourcePath) },
            Some(source) => if source == saved_root() {
                Outcome { rows: ensured, result: Err(SavedItemError::CannotMoveRoot) }
            } else if in_recycle_bin(source) {
                Outcome { rows: ensured, result: Err(SavedItemError::AlreadyRecycled) }
            } else {
                match split_parent_and_name(source) {
                    None => Outcome {
                        rows: ensured,
                        result: Err(SavedItemError::InvalidSourceFolderPath),
                    },
                    Some((parent, name)) => if !folder_exists(ensured, owner, parent, name) {
                        Outcome { rows: ensured, result: Err(SavedItemError::SourceFolderNotFound) }
                    } else {
                        Outcome {
                            rows: recycled_folder_tree(
                                ensured,
                                owner,
                                parent,
                                name,
                                source,
                                recycle_bin(),
                                child_path(recycle_bin(), name),
                                date,
                            ),
                            result: Ok(()),
                        }
                    },
                }
            },
        },
    }
}

/// Where a restored item goes: to its origin, or to the root where it
/// remembers none.
pub open spec fn restore_target(origin: Option<Seq<char>>) -> Seq<char> {
    match origin {
        Some(path) => path,
        None => saved_root(),
    }
}

/// What restoring `source_path` leaves and reports. Only what lies in the
/// recycle bin is restored: the bin itself is no recycled folder and is
/// refused like any folder outside it. The folders on the way to the place
/// that the item came from are created where they are missing.
pub open spec fn restore_outcome(
    rows: Seq<SavedItemView>,
    owner: Seq<char>,
    source_path: Seq<char>,
    date: Seq<char>,
) -> Outcome {
    let ensured = ensured_default_folders(rows, owner, date);
    match message_ref(source_path) {
        Some(message_id) => match file_location(ensured, owner, message_id) {
            None => Outcome { rows: ensured, result: Err(SavedItemError::SourceFileNotFound) },
            Some((path, origin)) => if !in_recycle_bin(path) {
                Outcome { rows: ensured, result: Err(SavedItemError::FileNotRecycled) }
            } else {
                let destination = restore_target(origin);
                Outcome {
                    rows: restored_file(
                        ensured_hierarchy(ensured, owner, destination, date),
                        owner,
                        message_id,
                        destination,
                        date,
                    ),
                    result: Ok(()),
                }
            },
        },
        None => match virtual_to_saved(source_path) {
            None => Outcome { rows: ensured, result: Err(SavedItemError::InvalidSourcePath) },
            Some(source) => if !below_recycle_bin(source) {
                Outcome { rows: ensured, result: Err(SavedItemError::FolderNotRecycled) }
            } else {
                match split_parent_and_name(source) {
                    None => Outcome {
                        rows: ensured,
                        result: Err(SavedItemError::InvalidSourceFolderPath),
                    },
                    Some((parent, name)) => if !folder_exists(ensured, owner, parent, name) {
                        Outcome { rows: ensured, result: Err(SavedItemError::SourceFolderNotFound) }
                    } else {
                        let destination = restore_target(
                            folder_origin(ensured, owner, parent, name),
                        );
                        Outcome {
                            rows: restored_folder_tree(
                                ensured_hierarchy(ensured, owner, destination, date),
                                owner,
                                parent,
                                name,
                                source,
                                destination,
                                child_path(destination, name),
                                date,
                            ),
                            result: Ok(()),
                        }
                    },
                }
            },
        },
    }
}

/// The full path of `name` in the directory `parent`.
pub fn join_child_path(parent: &str, name: &str) -> (r: String)
    ensures
        r@ == child_path(parent@, name@),
{
    let head = strip_trailing_chars(&chars_of(parent), '/');
    let mut slash: Vec<char> = Vec::new();
    slash.push('/');
    assert(slash@ =~= seq!['/']);
    let with_slash = concat_chars(&head, &slash);
    string_of(&concat_chars(&with_slash, &chars_of(name)))
}

/// The row of a folder that nothing has touched yet.
pub fn new_folder_row(owner_id: &str, parent: &str, name: &str, key: String, date: &str) -> (r:
    TelegramSavedItem)
    ensures
        r@ == folder_row(owner_id@, parent@, name@, key@, date@),
{
    TelegramSavedItem {
        chat_id: 0,
        message_id: 0,
        thumbnail: None,
        file_type: "folder".to_string(),
        file_unique_id: key,
        file_size: 0,
        file_name: name.to_owned(),
        file_caption: Some(name.to_owned()),
        file_path: parent.to_owned(),
        recycle_origin_path: None,
        modified_date: date.to_owned(),
        owner_id: owner_id.to_owned(),
    }
}

impl Database {
    /// Whether a row is stored under `key`.
    pub fn telegram_saved_item_key_exists(&self, key: &str) -> (found: bool)
        ensures
            found == key_taken(self@.items, key@),
    {
        let mut i: usize = 0;
        while i < self.items.len()
            invariant
                i <= self.items.len(),
                forall|k: int| 0 <= k < i ==> (#[trigger] self@.items[k]).file_unique_id != key@,
            decreases self.items.len() - i,
        {
            if same_text(self.items[i].file_unique_id.as_str(), key) {
                assert(self@.items[i as int].file_unique_id == key@);
                return true;
            }
            i += 1;
        }
        false
    }

    /// Writes the folder `name` of `owner_id` in `parent` under its key,
    /// unless a row is stored under that key already.
    pub fn add_telegram_saved_folder(&mut self, owner_id: &str, parent: &str, name: &str, now: &str)
        ensures
            final(self)@.items == with_folder(old(self)@.items, owner_id@, parent@, name@, now@),
            final(self)@.messages == old(self)@.messages,
            final(self)@.settings == old(self)@.settings,
            old(self).wf() ==> final(self).wf(),
    {
        let key = crate::paths::build_folder_unique_id(owner_id, parent, name);
        if !self.telegram_saved_item_key_exists(key.as_str()) {
            let row = new_folder_row(owner_id, parent, name, key, now);
            self.upsert_telegram_saved_item(&row);
        }
    }

    /// The length of the longest key in the table.
    pub fn longest_telegram_saved_item_key(&self) -> (n: usize)
        ensures
            n == longest_key(self@.items),
    {
        let mut n: usize = 0;
        let mut i: usize = 0;
        let ghost all = self@.items;
        assert(all.take(0) =~= Seq::<SavedItemView>::empty());
        while i < self.items.len()
            invariant
                i <= self.items.len(),
                all == self@.items,
                all.len() == self.items.len(),
                n == longest_key(all.take(i as int)),
            decreases self.items.len() - i,
        {
            let length: usize = chars_of(self.items[i].file_unique_id.as_str()).len();
            assert(all.take(i + 1).drop_last() =~= all.take(i as int));
            assert(all.take(i + 1).last() == self.items[i as int]@);
            if length > n {
                n = length;
            }
            i += 1;
        }
        assert(all.take(i as int) =~= all);
        n
    }

    /// Writes the folder `name` of `owner_id` in `parent`, which is
    /// missing, under a key that no row holds, and returns its row.
    pub fn add_new_telegram_saved_folder(
        &mut self,
        owner_id: &str,
        parent: &str,
        name: &str,
        now: &str,
    ) -> (row: TelegramSavedItem)
        ensures
            final(self)@.items == with_new_folder(old(self)@.items, owner_id@, parent@, name@, now@),
            row@ == final(self)@.items.last(),
            final(self)@.messages == old(self)@.messages,
            final(self)@.settings == old(self)@.settings,
            old(self).wf() ==> final(self).wf(),
    {
        let natural = crate::paths::build_folder_unique_id(owner_id, parent, name);
        let key: String = if self.telegram_saved_item_key_exists(natural.as_str()) {
            let longest = self.longest_telegram_saved_item_key();
            let mut padded = padded_chars(chars_of(natural.as_str()), longest);
            padded.push('~');
            string_of(&padded)
        } else {
            natural
        };
        let row = new_folder_row(owner_id, parent, name, key, now);
        proof {
            lemma_free_folder_key(self@.items, owner_id@, parent@, name@);
            crate::store_laws::lemma_without_absent_key(self@.items, row@.file_unique_id);
        }
        self.upsert_telegram_saved_item(&row);
        row
    }

    /// Writes the five category folders and the recycle bin of `owner_id`
    /// into the root, each under a key of its own and only where no row
    /// holds that key: a row that is there stays as it is.
    pub fn ensure_telegram_saved_folders(&mut self, owner_id: &str, now: &str)
        ensures
            final(self)@.items == ensured_default_folders(old(self)@.items, owner_id@, now@),
            final(self)@.messages == old(self)@.messages,
            final(self)@.settings == old(self)@.settings,
            old(self).wf() ==> final(self).wf(),
    {
        self.add_telegram_saved_folder(owner_id, "/Home", "Images", now);
        self.add_telegram_saved_folder(owner_id, "/Home", "Videos", now);
        self.add_telegram_saved_folder(owner_id, "/Home", "Audios", now);
        self.add_telegram_saved_folder(owner_id, "/Home", "Documents", now);
        self.add_telegram_saved_folder(owner_id, "/Home", "Notes", now);
        self.add_telegram_saved_folder(owner_id, "/Home", "Recycle Bin", now);
    }

    /// Whether the key of `row` is the key of a row that is not the same
    /// folder.
    pub fn telegram_saved_key_held_by_other(&self, row: &TelegramSavedItem) -> (held: bool)
        ensures
            held == key_held_by_other(self@.items, row@),
    {
        let mut i: usize = 0;
        while i < self.items.len()
            invariant
                i <= self.items.len(),
                forall|k: int|
                    0 <= k < i ==> !((#[trigger] self@.items[k]).file_unique_id
                        == row@.file_unique_id && !same_folder(self@.items[k], row@)),
            decreases self.items.len() - i,
        {
            let other = &self.items[i];
            assert(other@ == self@.items[i as int]);
            if same_text(other.file_unique_id.as_str(), row.file_unique_id.as_str()) {
                let same = same_text(other.file_type.as_str(), "folder") && same_text(
                    row.file_type.as_str(),
                    "folder",
                ) && same_text(other.owner_id.as_str(), row.owner_id.as_str()) && same_text(
                    other.file_path.as_str(),
                    row.file_path.as_str(),
                ) && same_text(other.file_name.as_str(), row.file_name.as_str());
                if !same {
                    return true;
                }
            }
            i += 1;
        }
        false
    }
}

/// `key` with `~` behind it until it is at least `length` long.
pub fn padded_chars(key: Vec<char>, length: usize) -> (r: Vec<char>)
    ensures
        r@ == padded_key(key@, length as nat),
{
    let mut v = key;
    let ghost start = v@;
    assert(start + Seq::new(0, |i: int| '~') =~= start);
    while v.len() < length
        invariant
            v@.len() >= start.len(),
            v@ == start + Seq::new((v@.len() - start.len()) as nat, |i: int| '~'),
            start.len() >= length ==> v@ == start,
            start.len() < length ==> v@.len() <= length,
        decreases length - v.len(),
    {
        v.push('~');
        assert(v@ =~= start + Seq::new((v@.len() - start.len()) as nat, |i: int| '~'));
    }
    v
}

/// The segments of `v` between the characters `c`.
pub fn split_chars(v: &Vec<char>, c: char) -> (r: Vec<Vec<char>>)
    ensures
        r@.len() == split_on(v@, c).len(),
        forall|k: int| 0 <= k < r@.len() ==> (#[trigger] r@[k])@ == split_on(v@, c)[k],
{
    let mut done: Vec<Vec<char>> = Vec::new();
    let mut current: Vec<char> = Vec::new();
    let mut i: usize = 0;
    assert(v@.take(0) =~= Seq::<char>::empty());
    while i < v.len()
        invariant
            i <= v.len(),
            done@.len() + 1 == split_on(v@.take(i as int), c).len(),
            forall|k: int|
                0 <= k < done@.len() ==> (#[trigger] done@[k])@ == split_on(v@.take(i as int), c)[k],
            current@ == split_on(v@.take(i as int), c).last(),
        decreases v.len() - i,
    {
        let ch: char = v[i];
        assert(v@.take(i + 1).drop_last() =~= v@.take(i as int));
        assert(v@.take(i + 1).last() == ch);
        if ch == c {
            done.push(current);
            current = Vec::new();
        } else {
            current.push(ch);
        }
        i += 1;
    }
    assert(v@.take(i as int) =~= v@);
    done.push(current);
    done
}

/// Creates every folder on the way from the root to `destination_path`
/// that `owner_id` does not have yet.
pub fn ensure_saved_folder_hierarchy(
    db: &mut Database,
    owner_id: &str,
    destination_path: &str,
    modified_date: &str,
)
    ensures
        final(db)@.items == ensured_hierarchy(
            old(db)@.items,
            owner_id@,
            destination_path@,
            modified_date@,
        ),
        final(db)@.messages == old(db)@.messages,
        final(db)@.settings == old(db)@.settings,
        old(db).wf() ==> final(db).wf(),
{
    let target = crate::paths::normalize_chars(&chars_of(destination_path));
    let root = chars_of("/Home");
    if crate::text::same_chars(&target, &root) {
        return ;
    }
    let stripped = strip_prefix_repeated_chars(&target, &chars_of("/Home/"));
    let relative = trim_chars(&stripped);
    if relative.len() == 0 {
        return ;
    }
    let segments = split_chars(&relative, '/');
    let ghost all = split_on(relative@, '/');
    let mut parent: String = "/Home".to_string();
    let mut i: usize = 0;
    assert(all.skip(0) =~= all);
    while i < segments.len()
        invariant
            i <= segments.len(),
            segments@.len() == all.len(),
            forall|k: int| 0 <= k < segments@.len() ==> (#[trigger] segments@[k])@ == all[k],
            ensured_chain(db@.items, owner_id@, parent@, all.skip(i as int), modified_date@)
                == ensured_chain(old(db)@.items, owner_id@, saved_root(), all, modified_date@),
            db@.messages == old(db)@.messages,
            db@.settings == old(db)@.settings,
            old(db).wf() ==> db.wf(),
        decreases segments.len() - i,
    {
        let name_chars = trim_chars(&segments[i]);
        assert(all.skip(i as int)[0] == segments@[i as int]@);
        assert(all.skip(i as int).drop_first() =~= all.skip(i + 1));
        if name_chars.len() > 0 {
            let name = string_of(&name_chars);
            if !db.telegram_saved_folder_exists(owner_id, parent.as_str(), name.as_str()) {
                db.add_new_telegram_saved_folder(
                    owner_id,
                    parent.as_str(),
                    name.as_str(),
                    modified_date,
                );
            }
            parent = join_child_path(parent.as_str(), name.as_str());
        }
        i += 1;
    }
}

/// Whether a name is empty or white space alone, so that it names nothing.
pub fn is_blank_name(name: &str) -> (blank: bool)
    ensures
        blank == (trim(name@).len() == 0),
{
    trim_chars(&chars_of(name)).len() == 0
}

/// Creates the folder `folder_name` in `parent_path` and returns its row.
/// The name is trimmed and made safe. A name of white space alone is
/// refused, and nothing is written then. A folder that exists already is
/// not doubled; a folder that does not exist is written under a key that no
/// row holds, so that no row is lost. The full path of the folder that is
/// returned splits again into its directory and its name.
pub fn create_saved_folder(
    db: &mut Database,
    owner_id: &str,
    parent_path: &str,
    folder_name: &str,
    modified_date: &str,
) -> (r: Result<TelegramSavedItem, SavedItemError>)
    ensures
        ({
            let outcome = create_folder_outcome(
                old(db)@.items,
                owner_id@,
                parent_path@,
                folder_name@,
                modified_date@,
            );
            &&& final(db)@.items == outcome.rows
            &&& match r {
                Ok(row) => {
                    &&& outcome.result is Ok
                    &&& row@ == returned_folder(
                        old(db)@.items,
                        owner_id@,
                        parent_path@,
                        folder_name@,
                        modified_date@,
                    )
                    &&& row@.file_type == "folder"@
                    &&& row@.owner_id == owner_id@
                    &&& row@.file_path == normalize(parent_path@)
                    &&& row@.file_name == sanitized(trim(folder_name@))
                    &&& split_parent_and_name(child_path(row@.file_path, row@.file_name)) == Some(
                        (row@.file_path, row@.file_name),
                    )
                },
                Err(e) => outcome.result == Err::<(), SavedItemError>(e),
            }
        }),
        final(db)@.messages == old(db)@.messages,
        final(db)@.settings == old(db)@.settings,
        old(db).wf() ==> final(db).wf(),
{
    let trimmed = trim_chars(&chars_of(folder_name));
    if trimmed.len() == 0 {
        return Err(SavedItemError::EmptyFolderName);
    }
    let name = string_of(&crate::naming::sanitized_chars(&trimmed));
    let parent = normalize_saved_path(parent_path);
    db.ensure_telegram_saved_folders(owner_id, modified_date);
    let key = crate::paths::build_folder_unique_id(owner_id, parent.as_str(), name.as_str());
    let row = new_folder_row(owner_id, parent.as_str(), name.as_str(), key, modified_date);
    proof {
        lemma_created_folder_splits(parent_path@, folder_name@);
    }
    let held = db.telegram_saved_key_held_by_other(&row);
    let taken = db.telegram_saved_item_key_exists(row.file_unique_id.as_str());
    let mut found = db.select_where(
        owner_id,
        &crate::store::Selector::Folder { parent: parent.as_str(), name: name.as_str() },
    );
    if !held && (taken || found.len() == 0) {
        db.upsert_telegram_saved_item(&row);
        return Ok(row);
    }
    if found.len() > 0 {
        proof {
            crate::recycle_laws::lemma_select_members(
                db@.items,
                owner_id@,
                SelectorView::Folder { parent: parent@, name: name@ },
            );
        }
        let first = found.swap_remove(0);
        return Ok(first);
    }
    let written = db.add_new_telegram_saved_folder(
        owner_id,
        parent.as_str(),
        name.as_str(),
        modified_date,
    );
    Ok(written)
}

/// The full path of a folder that was created splits into the directory
/// and the name that its row holds.
pub proof fn lemma_created_folder_splits(parent_path: Seq<char>, folder_name: Seq<char>)
    requires
        trim(folder_name).len() > 0,
    ensures
        ({
            let parent = normalize(parent_path);
            let name = sanitized(trim(folder_name));
            split_parent_and_name(child_path(parent, name)) == Some((parent, name))
        }),
{
    let name = sanitized(trim(folder_name));
    crate::path_laws::lemma_trim(folder_name);
    assert(!crate::text::is_whitespace('_'));
    crate::path_laws::lemma_trim_fixed(name);
    crate::path_laws::lemma_split_returns_parent_and_name(parent_path, name);
}

/// Moves a file into the directory `destination_path`, or makes a folder,
/// with all that lies below it, the folder that `destination_path` names.
/// The folders on the way there are created where they are missing.
pub fn move_saved_item(
    db: &mut Database,
    owner_id: &str,
    source_path: &str,
    destination_path: &str,
    modified_date: &str,
) -> (r: Result<(), SavedItemError>)
    ensures
        ({
            let outcome = move_outcome(
                old(db)@.items,
                owner_id@,
                source_path@,
                destination_path@,
                modified_date@,
            );
            final(db)@.items == outcome.rows && r == outcome.result
        }),
        final(db)@.messages == old(db)@.messages,
        final(db)@.settings == old(db)@.settings,
        old(db).wf() ==> final(db).wf(),
{
    let destination = match virtual_to_saved_path(destination_path) {
        Some(path) => path,
        None => {
            return Err(SavedItemError::InvalidDestinationPath);
        },
    };
    db.ensure_telegram_saved_folders(owner_id, modified_date);
    if let Some(message_id) = parse_message_id_from_virtual_path(source_path) {
        if !db.telegram_saved_file_exists_by_message_id(owner_id, message_id) {
            return Err(SavedItemError::SourceFileNotFound);
        }
        ensure_saved_folder_hierarchy(db, owner_id, destination.as_str(), modified_date);
        db.move_telegram_saved_file_by_message_id(
            owner_id,
            message_id,
            destination.as_str(),
            modified_date,
        );
        return Ok(());
    }
    let source = match virtual_to_saved_path(source_path) {
        Some(path) => path,
        None => {
            return Err(SavedItemError::InvalidSourcePath);
        },
    };
    if same_text(source.as_str(), "/Home") {
        return Err(SavedItemError::CannotMoveRoot);
    }
    if same_text(source.as_str(), destination.as_str()) {
        return Ok(());
    }
    let mut slash: Vec<char> = Vec::new();
    slash.push('/');
    assert(slash@ =~= seq!['/']);
    let below = concat_chars(&chars_of(source.as_str()), &slash);
    if starts_with_chars(&chars_of(destination.as_str()), &below) {
        return Err(SavedItemError::MoveIntoOwnChild);
    }
    let (parent, name) = match split_saved_parent_and_name(source.as_str()) {
        Some(pair) => pair,
        None => {
            return Err(SavedItemError::InvalidSourceFolderPath);
        },
    };
    if !db.telegram_saved_folder_exists(owner_id, parent.as_str(), name.as_str()) {
        return Err(SavedItemError::SourceFolderNotFound);
    }
    let (new_parent, new_name) = match split_saved_parent_and_name(destination.as_str()) {
        Some(pair) => pair,
        None => {
            return Err(SavedItemError::InvalidDestinationPath);
        },
    };
    ensure_saved_folder_hierarchy(db, owner_id, new_parent.as_str(), modified_date);
    db.place_telegram_saved_folder_tree(
        owner_id,
        parent.as_str(),
        name.as_str(),
        source.as_str(),
        new_parent.as_str(),
        new_name.as_str(),
        destination.as_str(),
        modified_date,
    );
    Ok(())
}

/// Renames a file, or a folder with all that lies below it. The new name
/// is made safe first. A folder path that ends in that name already is left
/// as it is; any other folder that the index does not hold is refused.
pub fn rename_saved_item(
    db: &mut Database,
    owner_id: &str,
    source_path: &str,
    new_name: &str,
    modified_date: &str,
) -> (r: Result<(), SavedItemError>)
    ensures
        ({
            let outcome = rename_outcome(
                old(db)@.items,
                owner_id@,
                source_path@,
                new_name@,
                modified_date@,
            );
            final(db)@.items == outcome.rows && r == outcome.result
        }),
        final(db)@.messages == old(db)@.messages,
        final(db)@.settings == old(db)@.settings,
        old(db).wf() ==> final(db).wf(),
{
    let trimmed = trim_chars(&chars_of(new_name));
    if trimmed.len() == 0 {
        return Err(SavedItemError::EmptyNewName);
    }
    let name = string_of(&crate::naming::sanitized_chars(&trimmed));
    db.ensure_telegram_saved_folders(owner_id, modified_date);
    if let Some(message_id) = parse_message_id_from_virtual_path(source_path) {
        if !db.telegram_saved_file_exists_by_message_id(owner_id, message_id) {
            return Err(SavedItemError::SourceFileNotFound);
        }
        db.rename_telegram_saved_file_by_message_id(
            owner_id,
            message_id,
            name.as_str(),
            modified_date,
        );
        return Ok(());
    }
    let source = match virtual_to_saved_path(source_path) {
        Some(path) => path,
        None => {
            return Err(SavedItemError::InvalidSourcePath);
        },
    };
    if same_text(source.as_str(), "/Home") {
        return Err(SavedItemError::CannotRenameRoot);
    }
    let (parent, current) = match split_saved_parent_and_name(source.as_str()) {
        Some(pair) => pair,
        None => {
            return Err(SavedItemError::InvalidSourceFolderPath);
        },
    };
    if same_text(current.as_str(), name.as_str()) {
        return Ok(());
    }
    if !db.telegram_saved_folder_exists(owner_id, parent.as_str(), current.as_str()) {
        return Err(SavedItemError::SourceFolderNotFound);
    }
    let destination_folder = join_child_path(parent.as_str(), name.as_str());
    db.rename_telegram_saved_folder_tree(
        owner_id,
        parent.as_str(),
        current.as_str(),
        name.as_str(),
        source.as_str(),
        destination_folder.as_str(),
        modified_date,
    );
    Ok(())
}

/// Moves a file, or a folder with all that lies below it, into the recycle
/// bin. What is in the bin already is refused.
pub fn move_saved_item_to_recycle_bin(
    db: &mut Database,
    owner_id: &str,
    source_path: &str,
    modified_date: &str,
) -> (r: Result<(), SavedItemError>)
    ensures
        ({
            let outcome = recycle_outcome(
                old(db)@.items,
                owner_id@,
                source_path@,
                modified_date@,
            );
            final(db)@.items == outcome.rows && r == outcome.result
        }),
        final(db)@.messages == old(db)@.messages,
        final(db)@.settings == old(db)@.settings,
        old(db).wf() ==> final(db).wf(),
{
    db.ensure_telegram_saved_folders(owner_id, modified_date);
    if let Some(message_id) = parse_message_id_from_virtual_path(source_path) {
        let location = db.get_telegram_saved_file_path_and_recycle_origin_by_message_id(
            owner_id,
            message_id,
        );
        let path = match location {
            Some((path, _)) => path,
            None => {
                return Err(SavedItemError::SourceFileNotFound);
            },
        };
        if is_recycle_bin_saved_path(path.as_str()) {
            return Err(SavedItemError::AlreadyRecycled);
        }
        db.recycle_telegram_saved_file_by_message_id(
            owner_id,
            message_id,
            "/Home/Recycle Bin",
            modified_date,
        );
        return Ok(());
    }
    let source = match virtual_to_saved_path(source_path) {
        Some(path) => path,
        None => {
            return Err(SavedItemError::InvalidSourcePath);
        },
    };
    if same_text(source.as_str(), "/Home") {
        return Err(SavedItemError::CannotMoveRoot);
    }
    if is_recycle_bin_saved_path(source.as_str()) {
        return Err(SavedItemError::AlreadyRecycled);
    }
    let (parent, name) = match split_saved_parent_and_name(source.as_str()) {
        Some(pair) => pair,
        None => {
            return Err(SavedItemError::InvalidSourceFolderPath);
        },
    };
    if !db.telegram_saved_folder_exists(owner_id, parent.as_str(), name.as_str()) {
        return Err(SavedItemError::SourceFolderNotFound);
    }
    let destination_folder = join_child_path("/Home/Recycle Bin", name.as_str());
    db.recycle_telegram_saved_folder_tree(
        owner_id,
        parent.as_str(),
        name.as_str(),
        source.as_str(),
        "/Home/Recycle Bin",
        destination_folder.as_str(),
        modified_date,
    );
    Ok(())
}

/// Brings a file, or a folder with all that lies below it, back from the
/// recycle bin to the directory it came from, or to the root where it
/// remembers none. Folders that are missing on the way there are created.
pub fn restore_saved_item(
    db: &mut Database,
    owner_id: &str,
    source_path: &str,
    modified_date: &str,
) -> (r: Result<(), SavedItemError>)
    ensures
        ({
            let outcome = restore_outcome(
                old(db)@.items,
                owner_id@,
                source_path@,
                modified_date@,
            );
            final(db)@.items == outcome.rows && r == outcome.result
        }),
        final(db)@.messages == old(db)@.messages,
        final(db)@.settings == old(db)@.settings,
        old(db).wf() ==> final(db).wf(),
{
    db.ensure_telegram_saved_folders(owner_id, modified_date);
    if let Some(message_id) = parse_message_id_from_virtual_path(source_path) {
        let location = db.get_telegram_saved_file_path_and_recycle_origin_by_message_id(
            owner_id,
            message_id,
        );
        let (path, origin) = match location {
            Some(pair) => pair,
            None => {
                return Err(SavedItemError::SourceFileNotFound);
            },
        };
        if !is_recycle_bin_saved_path(path.as_str()) {
            return Err(SavedItemError::FileNotRecycled);
        }
        let destination = match origin {
            Some(path) => path,
            None => "/Home".to_string(),
        };
        ensure_saved_folder_hierarchy(db, owner_id, destination.as_str(), modified_date);
        db.restore_telegram_saved_file_by_message_id(
            owner_id,
            message_id,
            destination.as_str(),
            modified_date,
        );
        return Ok(());
    }
    let source = match virtual_to_saved_path(source_path) {
        Some(path) => path,
        None => {
            return Err(SavedItemError::InvalidSourcePath);
        },
    };
    if !is_below_recycle_bin(source.as_str()) {
        return Err(SavedItemError::FolderNotRecycled);
    }
    let (parent, name) = match split_saved_parent_and_name(source.as_str()) {
        Some(pair) => pair,
        None => {
            return Err(SavedItemError::InvalidSourceFolderPath);
        },
    };
    if !db.telegram_saved_folder_exists(owner_id, parent.as_str(), name.as_str()) {
        return Err(SavedItemError::SourceFolderNotFound);
    }
    let origin = db.get_telegram_saved_folder_recycle_origin(
        owner_id,
        parent.as_str(),
        name.as_str(),
    );
    let destination = match origin {
        Some(path) => path,
        None => "/Home".to_string(),
    };
    ensure_saved_folder_hierarchy(db, owner_id, destination.as_str(), modified_date);
    let destination_folder = join_child_path(destination.as_str(), name.as_str());
    db.restore_telegram_saved_folder_tree(
        owner_id,
        parent.as_str(),
        name.as_str(),
        source.as_str(),
        destination.as_str(),
        destination_folder.as_str(),
        modified_date,
    );
    Ok(())
}

} // verus!

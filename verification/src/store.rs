//! The local index: the table of saved items, the cache of remote messages
//! and the key-value settings, held in memory.
//!
//! The table of saved items is flat. A folder's subtree is the set of rows
//! whose `file_path` is the folder's full path or starts with that path and a
//! slash, and every operation on a subtree is one pass over the rows.

use crate::model::{copy_opt_text, item_views, message_views, setting_views, MessageView, SavedItemView, Setting, SettingView, TelegramMessage, TelegramSavedItem};
use crate::paths::{in_subtree, path_in_subtree};
use crate::text::{chars_of, concat_chars, same_text, slice_chars, string_of};
use vstd::prelude::*;

verus! {

/// The local index.
#[derive(Debug, Clone, PartialEq, Eq)]
pub struct Database {
    /// The nodes of the virtual tree, oldest write first.
    pub items: Vec<TelegramSavedItem>,
    /// The cached remote messages, oldest write first.
    pub messages: Vec<TelegramMessage>,
    /// The settings, oldest write first.
    pub settings: Vec<Setting>,
}

/// What a `Database` holds, as mathematical values.
pub struct DatabaseView {
    pub items: Seq<SavedItemView>,
    pub messages: Seq<MessageView>,
    pub settings: Seq<SettingView>,
}

impl View for Database {
    type V = DatabaseView;

    open spec fn view(&self) -> DatabaseView {
        DatabaseView {
            items: item_views(self.items@),
            messages: message_views(self.messages@),
            settings: setting_views(self.settings@),
        }
    }
}

/// Whether a row is a folder.
pub open spec fn is_folder(row: SavedItemView) -> bool {
    row.file_type == "folder"@
}

/// Which rows of one owner a statement works on.
pub enum Selector<'a> {
    /// The folder `name` that lies in `parent`.
    Folder { parent: &'a str, name: &'a str },
    /// Every row whose path is `folder` or lies below it.
    Subtree { folder: &'a str },
    /// The rows in the directory `path`.
    Directory { path: &'a str },
    /// The file rows that mirror the message `message_id`.
    File { message_id: i32 },
    /// The image rows that mirror the message `message_id`.
    Image { message_id: i32 },
}

/// What a `Selector` says, as mathematical values.
pub enum SelectorView {
    Folder { parent: Seq<char>, name: Seq<char> },
    Subtree { folder: Seq<char> },
    Directory { path: Seq<char> },
    File { message_id: i32 },
    Image { message_id: i32 },
}

impl<'a> View for Selector<'a> {
    type V = SelectorView;

    open spec fn view(&self) -> SelectorView {
        match *self {
            Selector::Folder { parent, name } => SelectorView::Folder { parent: parent@, name: name@ },
            Selector::Subtree { folder } => SelectorView::Subtree { folder: folder@ },
            Selector::Directory { path } => SelectorView::Directory { path: path@ },
            Selector::File { message_id } => SelectorView::File { message_id },
            Selector::Image { message_id } => SelectorView::Image { message_id },
        }
    }
}

/// Whether `sel` picks `row` among the rows of `owner`.
pub open spec fn selects(sel: SelectorView, owner: Seq<char>, row: SavedItemView) -> bool {
    row.owner_id == owner && match sel {
        SelectorView::Folder { parent, name } => is_folder(row) && row.file_path == parent
            && row.file_name == name,
        SelectorView::Subtree { folder } => in_subtree(row.file_path, folder),
        SelectorView::Directory { path } => row.file_path == path,
        SelectorView::File { message_id } => row.message_id == message_id && !is_folder(row),
        SelectorView::Image { message_id } => row.message_id == message_id && row.file_type
            == "image"@,
    }
}

/// What a statement does to the path of a row.
pub enum PathChange<'a> {
    Keep,
    /// The row goes to the directory `to`.
    MoveTo { to: &'a str },
    /// The prefix `source` of the path gives way to `destination`.
    Rewrite { source: &'a str, destination: &'a str },
}

/// What a `PathChange` says, as mathematical values.
pub enum PathChangeView {
    Keep,
    MoveTo { to: Seq<char> },
    Rewrite { source: Seq<char>, destination: Seq<char> },
}

impl<'a> View for PathChange<'a> {
    type V = PathChangeView;

    open spec fn view(&self) -> PathChangeView {
        match *self {
            PathChange::Keep => PathChangeView::Keep,
            PathChange::MoveTo { to } => PathChangeView::MoveTo { to: to@ },
            PathChange::Rewrite { source, destination } => PathChangeView::Rewrite {
                source: source@,
                destination: destination@,
            },
        }
    }
}

/// What a statement does to the recycle origin of a row.
#[derive(Clone, Copy)]
pub enum OriginChange {
    Keep,
    /// A row without an origin gets its present path as origin.
    Mark,
    /// The row loses its origin.
    Clear,
}

/// The view of an optional string slice.
pub open spec fn opt_str(o: Option<&str>) -> Option<Seq<char>> {
    match o {
        Some(s) => Some(s@),
        None => None,
    }
}

/// What one statement writes into each row it picks. Every part is computed
/// from the row as it was before the statement.
pub struct Change<'a> {
    pub path: PathChange<'a>,
    /// The new name, which is the new caption too.
    pub name: Option<&'a str>,
    pub origin: OriginChange,
    pub modified_date: Option<&'a str>,
    pub thumbnail: Option<&'a str>,
    pub size: Option<i64>,
}

/// What a `Change` says, as mathematical values.
pub struct ChangeView {
    pub path: PathChangeView,
    pub name: Option<Seq<char>>,
    pub origin: OriginChange,
    pub modified_date: Option<Seq<char>>,
    pub thumbnail: Option<Seq<char>>,
    pub size: Option<i64>,
}

impl<'a> View for Change<'a> {
    type V = ChangeView;

    open spec fn view(&self) -> ChangeView {
        ChangeView {
            path: self.path@,
            name: opt_str(self.name),
            origin: self.origin,
            modified_date: opt_str(self.modified_date),
            thumbnail: opt_str(self.thumbnail),
            size: self.size,
        }
    }
}

/// The path that takes the place of `path` when the folder `source` becomes
/// `destination`: the destination where the path is the source itself, else
/// the destination followed by what comes after the source in the path.
pub open spec fn rewrite_path(path: Seq<char>, source: Seq<char>, destination: Seq<char>) -> Seq<
    char,
> {
    if source.len() <= path.len() {
        destination + path.skip(source.len() as int)
    } else {
        destination
    }
}

/// The row that `change` makes of `row`.
pub open spec fn change_row(row: SavedItemView, change: ChangeView) -> SavedItemView {
    SavedItemView {
        file_path: match change.path {
            PathChangeView::Keep => row.file_path,
            PathChangeView::MoveTo { to } => to,
            PathChangeView::Rewrite { source, destination } => rewrite_path(
                row.file_path,
                source,
                destination,
            ),
        },
        file_name: match change.name {
            Some(name) => name,
            None => row.file_name,
        },
        file_caption: match change.name {
            Some(name) => Some(name),
            None => row.file_caption,
        },
        recycle_origin_path: match change.origin {
            OriginChange::Keep => row.recycle_origin_path,
            OriginChange::Mark => match row.recycle_origin_path {
                Some(origin) => Some(origin),
                None => Some(row.file_path),
            },
            OriginChange::Clear => None,
        },
        modified_date: match change.modified_date {
            Some(date) => date,
            None => row.modified_date,
        },
        thumbnail: match change.thumbnail {
            Some(thumbnail) => Some(thumbnail),
            None => row.thumbnail,
        },
        file_size: match change.size {
            Some(size) => size,
            None => row.file_size,
        },
        ..row
    }
}

/// The table after one statement: the rows that `sel` picks are changed, all
/// others stay, and no row changes its place.
pub open spec fn update_rows(
    rows: Seq<SavedItemView>,
    owner: Seq<char>,
    sel: SelectorView,
    change: ChangeView,
) -> Seq<SavedItemView> {
    Seq::new(
        rows.len(),
        |i: int|
            if selects(sel, owner, rows[i]) {
                change_row(rows[i], change)
            } else {
                rows[i]
            },
    )
}

/// The rows of `owner` that `sel` picks, in their order.
pub open spec fn select_rows(rows: Seq<SavedItemView>, owner: Seq<char>, sel: SelectorView) -> Seq<
    SavedItemView,
>
    decreases rows.len(),
{
    if rows.len() == 0 {
        Seq::empty()
    } else if selects(sel, owner, rows.last()) {
        select_rows(rows.drop_last(), owner, sel).push(rows.last())
    } else {
        select_rows(rows.drop_last(), owner, sel)
    }
}

/// The table without the rows of `owner` that `sel` picks.
pub open spec fn delete_rows(rows: Seq<SavedItemView>, owner: Seq<char>, sel: SelectorView) -> Seq<
    SavedItemView,
>
    decreases rows.len(),
{
    if rows.len() == 0 {
        Seq::empty()
    } else if selects(sel, owner, rows.last()) {
        delete_rows(rows.drop_last(), owner, sel)
    } else {
        delete_rows(rows.drop_last(), owner, sel).push(rows.last())
    }
}

/// The table without the rows whose key is `key`.
pub open spec fn without_key(rows: Seq<SavedItemView>, key: Seq<char>) -> Seq<SavedItemView>
    decreases rows.len(),
{
    if rows.len() == 0 {
        Seq::empty()
    } else if rows.last().file_unique_id == key {
        without_key(rows.drop_last(), key)
    } else {
        without_key(rows.drop_last(), key).push(rows.last())
    }
}

/// The table after `row` was written under its key: a row that had the key
/// is gone, and `row` is the newest row.
pub open spec fn upsert_row(rows: Seq<SavedItemView>, row: SavedItemView) -> Seq<SavedItemView> {
    without_key(rows, row.file_unique_id).push(row)
}

/// Whether no two rows share a key.
pub open spec fn keys_unique(rows: Seq<SavedItemView>) -> bool {
    forall|i: int, j: int|
        0 <= i < j < rows.len() ==> (#[trigger] rows[i]).file_unique_id != (
        #[trigger] rows[j]).file_unique_id
}

/// Whether no two cached messages share a key.
pub open spec fn message_keys_unique(rows: Seq<MessageView>) -> bool {
    forall|i: int, j: int|
        0 <= i < j < rows.len() ==> !((#[trigger] rows[i]).chat_id == (#[trigger] rows[j]).chat_id
            && rows[i].message_id == rows[j].message_id)
}

/// Whether no two settings share a key.
pub open spec fn setting_keys_unique(rows: Seq<SettingView>) -> bool {
    forall|i: int, j: int|
        0 <= i < j < rows.len() ==> (#[trigger] rows[i]).key != (#[trigger] rows[j]).key
}

/// Whether `row` is picked by `sel` among the rows of `owner`.
pub fn row_selected(row: &TelegramSavedItem, owner: &str, sel: &Selector) -> (b: bool)
    ensures
        b == selects(sel@, owner@, row@),
{
    if !same_text(row.owner_id.as_str(), owner) {
        return false;
    }
    match sel {
        Selector::Folder { parent, name } => same_text(row.file_type.as_str(), "folder")
            && same_text(row.file_path.as_str(), parent) && same_text(row.file_name.as_str(), name),
        Selector::Subtree { folder } => path_in_subtree(
            &chars_of(row.file_path.as_str()),
            &chars_of(folder),
        ),
        Selector::Directory { path } => same_text(row.file_path.as_str(), path),
        Selector::File { message_id } => row.message_id == *message_id && !same_text(
            row.file_type.as_str(),
            "folder",
        ),
        Selector::Image { message_id } => row.message_id == *message_id && same_text(
            row.file_type.as_str(),
            "image",
        ),
    }
}

/// The path that takes the place of `path` when `source` becomes
/// `destination`.
pub fn rewritten_path(path: &str, source: &str, destination: &str) -> (r: String)
    ensures
        r@ == rewrite_path(path@, source@, destination@),
{
    let p = chars_of(path);
    let s = chars_of(source);
    let d = chars_of(destination);
    if s.len() <= p.len() {
        let rest = slice_chars(&p, s.len(), p.len());
        assert(p@.subrange(s.len() as int, p.len() as int) =~= p@.skip(s.len() as int));
        string_of(&concat_chars(&d, &rest))
    } else {
        destination.to_owned()
    }
}

/// The row that `change` makes of `row`.
pub fn row_changed(row: &TelegramSavedItem, change: &Change) -> (r: TelegramSavedItem)
    ensures
        r@ == change_row(row@, change@),
{
    let file_path = match change.path {
        PathChange::Keep => row.file_path.clone(),
        PathChange::MoveTo { to } => to.to_owned(),
        PathChange::Rewrite { source, destination } => rewritten_path(
            row.file_path.as_str(),
            source,
            destination,
        ),
    };
    let file_name = match change.name {
        Some(name) => name.to_owned(),
        None => row.file_name.clone(),
    };
    let file_caption = match change.name {
        Some(name) => Some(name.to_owned()),
        None => copy_opt_text(&row.file_caption),
    };
    let recycle_origin_path = match change.origin {
        OriginChange::Keep => copy_opt_text(&row.recycle_origin_path),
        OriginChange::Mark => match &row.recycle_origin_path {
            Some(origin) => Some(origin.clone()),
            None => Some(row.file_path.clone()),
        },
        OriginChange::Clear => None,
    };
    let modified_date = match change.modified_date {
        Some(date) => date.to_owned(),
        None => row.modified_date.clone(),
    };
    let thumbnail = match change.thumbnail {
        Some(thumbnail) => Some(thumbnail.to_owned()),
        None => copy_opt_text(&row.thumbnail),
    };
    let file_size = match change.size {
        Some(size) => size,
        None => row.file_size,
    };
    TelegramSavedItem {
        chat_id: row.chat_id,
        message_id: row.message_id,
        thumbnail,
        file_type: row.file_type.clone(),
        file_unique_id: row.file_unique_id.clone(),
        file_size,
        file_name,
        file_caption,
        file_path,
        recycle_origin_path,
        modified_date,
        owner_id: row.owner_id.clone(),
    }
}

impl Database {
    /// Whether no two saved items, no two messages and no two settings share
    /// a key.
    pub open spec fn wf(&self) -> bool {
        &&& keys_unique(self@.items)
        &&& message_keys_unique(self@.messages)
        &&& setting_keys_unique(self@.settings)
    }

    /// An empty index.
    pub fn new() -> (db: Database)
        ensures
            db@.items.len() == 0,
            db@.messages.len() == 0,
            db@.settings.len() == 0,
            db.wf(),
    {
        Database { items: Vec::new(), messages: Vec::new(), settings: Vec::new() }
    }

    /// One statement: writes `change` into the rows of `owner` that `sel`
    /// picks.
    pub fn update_where(&mut self, owner: &str, sel: &Selector, change: &Change)
        ensures
            final(self)@.items == update_rows(old(self)@.items, owner@, sel@, change@),
            final(self)@.messages == old(self)@.messages,
            final(self)@.settings == old(self)@.settings,
            old(self).wf() ==> final(self).wf(),
    {
        let mut rows: Vec<TelegramSavedItem> = Vec::new();
        let mut i: usize = 0;
        let ghost before = self@.items;
        while i < self.items.len()
            invariant
                i <= self.items.len(),
                before == item_views(self.items@),
                rows@.len() == i,
                forall|k: int|
                    0 <= k < i ==> (#[trigger] rows@[k])@ == update_rows(
                        before,
                        owner@,
                        sel@,
                        change@,
                    )[k],
            decreases self.items.len() - i,
        {
            let row = &self.items[i];
            assert(before[i as int] == row@);
            if row_selected(row, owner, sel) {
                rows.push(row_changed(row, change));
            } else {
                rows.push(row.duplicate());
            }
            i += 1;
        }
        assert(item_views(rows@) =~= update_rows(before, owner@, sel@, change@));
        proof {
            crate::store_laws::lemma_update_keeps_keys(before, owner@, sel@, change@);
        }
        self.items = rows;
    }

    /// Removes the rows of `owner` that `sel` picks.
    pub fn delete_where(&mut self, owner: &str, sel: &Selector)
        ensures
            final(self)@.items == delete_rows(old(self)@.items, owner@, sel@),
            final(self)@.messages == old(self)@.messages,
            final(self)@.settings == old(self)@.settings,
            old(self).wf() ==> final(self).wf(),
    {
        let mut rows: Vec<TelegramSavedItem> = Vec::new();
        let mut i: usize = 0;
        let ghost before = self@.items;
        assert(before.take(0) =~= Seq::<SavedItemView>::empty());
        while i < self.items.len()
            invariant
                i <= self.items.len(),
                before == item_views(self.items@),
                item_views(rows@) == delete_rows(before.take(i as int), owner@, sel@),
            decreases self.items.len() - i,
        {
            let row = &self.items[i];
            assert(before[i as int] == row@);
            assert(before.take(i + 1).drop_last() =~= before.take(i as int));
            assert(before.take(i + 1).last() == row@);
            if !row_selected(row, owner, sel) {
                let ghost kept = item_views(rows@);
                rows.push(row.duplicate());
                assert(item_views(rows@) =~= kept.push(row@));
            }
            i += 1;
        }
        assert(before.take(i as int) =~= before);
        proof {
            crate::store_laws::lemma_delete_keeps_keys(before, owner@, sel@);
        }
        self.items = rows;
    }

    /// The rows of `owner` that `sel` picks, in their order.
    pub fn select_where(&self, owner: &str, sel: &Selector) -> (r: Vec<TelegramSavedItem>)
        ensures
            item_views(r@) == select_rows(self@.items, owner@, sel@),
    {
        let mut rows: Vec<TelegramSavedItem> = Vec::new();
        let mut i: usize = 0;
        let ghost before = self@.items;
        assert(before.take(0) =~= Seq::<SavedItemView>::empty());
        while i < self.items.len()
            invariant
                i <= self.items.len(),
                before == item_views(self.items@),
                item_views(rows@) == select_rows(before.take(i as int), owner@, sel@),
            decreases self.items.len() - i,
        {
            let row = &self.items[i];
            assert(before[i as int] == row@);
            assert(before.take(i + 1).drop_last() =~= before.take(i as int));
            assert(before.take(i + 1).last() == row@);
            if row_selected(row, owner, sel) {
                let ghost kept = item_views(rows@);
                rows.push(row.duplicate());
                assert(item_views(rows@) =~= kept.push(row@));
            }
            i += 1;
        }
        assert(before.take(i as int) =~= before);
        rows
    }

    /// Writes `item` under its key: a row that had the key is replaced, and
    /// the item becomes the newest row.
    pub fn upsert_telegram_saved_item(&mut self, item: &TelegramSavedItem)
        ensures
            final(self)@.items == upsert_row(old(self)@.items, item@),
            final(self)@.messages == old(self)@.messages,
            final(self)@.settings == old(self)@.settings,
            old(self).wf() ==> final(self).wf(),
    {
        let mut rows: Vec<TelegramSavedItem> = Vec::new();
        let mut i: usize = 0;
        let ghost before = self@.items;
        assert(before.take(0) =~= Seq::<SavedItemView>::empty());
        while i < self.items.len()
            invariant
                i <= self.items.len(),
                before == item_views(self.items@),
                item_views(rows@) == without_key(before.take(i as int), item@.file_unique_id),
            decreases self.items.len() - i,
        {
            let row = &self.items[i];
            assert(before[i as int] == row@);
            assert(before.take(i + 1).drop_last() =~= before.take(i as int));
            assert(before.take(i + 1).last() == row@);
            if !same_text(row.file_unique_id.as_str(), item.file_unique_id.as_str()) {
                let ghost kept = item_views(rows@);
                rows.push(row.duplicate());
                assert(item_views(rows@) =~= kept.push(row@));
            }
            i += 1;
        }
        assert(before.take(i as int) =~= before);
        let ghost kept = item_views(rows@);
        rows.push(item.duplicate());
        assert(item_views(rows@) =~= kept.push(item@));
        proof {
            crate::store_laws::lemma_upsert_keeps_one_row(before, item@);
        }
        self.items = rows;
    }
}

} // verus!

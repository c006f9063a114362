//! Changes to the virtual tree: move, rename, recycle, restore and delete, of
//! a single file and of a folder with all that lies below it.
//!
//! A folder is one row, found by the directory it lies in and its name. What
//! lies below it is found by path prefix. An operation on a folder changes
//! the folder's row first and then every row of its subtree.

use crate::model::{item_views, SavedItemView};
use crate::store::{delete_rows, select_rows, update_rows, Change, ChangeView, Database, OriginChange, PathChange, PathChangeView, Selector, SelectorView};
use vstd::prelude::*;

verus! {

/// A statement that only stamps the rows it picks with `date`.
pub open spec fn stamp(date: Seq<char>) -> ChangeView {
    ChangeView {
        path: PathChangeView::Keep,
        name: None,
        origin: OriginChange::Keep,
        modified_date: Some(date),
        thumbnail: None,
        size: None,
    }
}

/// The table after the files of a message went to the directory
/// `destination`.
pub open spec fn moved_file(
    rows: Seq<SavedItemView>,
    owner: Seq<char>,
    message_id: i32,
    destination: Seq<char>,
    date: Seq<char>,
) -> Seq<SavedItemView> {
    update_rows(
        rows,
        owner,
        SelectorView::File { message_id },
        ChangeView { path: PathChangeView::MoveTo { to: destination }, ..stamp(date) },
    )
}

/// The table after the files of a message got the name `name`.
pub open spec fn renamed_file(
    rows: Seq<SavedItemView>,
    owner: Seq<char>,
    message_id: i32,
    name: Seq<char>,
    date: Seq<char>,
) -> Seq<SavedItemView> {
    update_rows(
        rows,
        owner,
        SelectorView::File { message_id },
        ChangeView { name: Some(name), ..stamp(date) },
    )
}

/// The table after every path in the subtree of `source` had that prefix
/// replaced by `destination`.
pub open spec fn relocated_subtree(
    rows: Seq<SavedItemView>,
    owner: Seq<char>,
    source: Seq<char>,
    destination: Seq<char>,
    date: Seq<char>,
) -> Seq<SavedItemView> {
    update_rows(
        rows,
        owner,
        SelectorView::Subtree { folder: source },
        ChangeView { path: PathChangeView::Rewrite { source, destination }, ..stamp(date) },
    )
}

/// The table after the folder `current` in `parent` got the name `new_name`
/// and its subtree went from `source` to `destination`.
pub open spec fn renamed_folder_tree(
    rows: Seq<SavedItemView>,
    owner: Seq<char>,
    parent: Seq<char>,
    current: Seq<char>,
    new_name: Seq<char>,
    source: Seq<char>,
    destination: Seq<char>,
    date: Seq<char>,
) -> Seq<SavedItemView> {
    let renamed = update_rows(
        rows,
        owner,
        SelectorView::Folder { parent, name: current },
        ChangeView { name: Some(new_name), ..stamp(date) },
    );
    relocated_subtree(renamed, owner, source, destination, date)
}

/// The table after the folder `name` went from `source_parent` to
/// `destination_parent` and its subtree from `source` to `destination`.
pub open spec fn moved_folder_tree(
    rows: Seq<SavedItemView>,
    owner: Seq<char>,
    source_parent: Seq<char>,
    name: Seq<char>,
    source: Seq<char>,
    destination_parent: Seq<char>,
    destination: Seq<char>,
    date: Seq<char>,
) -> Seq<SavedItemView> {
    let moved = update_rows(
        rows,
        owner,
        SelectorView::Folder { parent: source_parent, name },
        ChangeView { path: PathChangeView::MoveTo { to: destination_parent }, ..stamp(date) },
    );
    relocated_subtree(moved, owner, source, destination, date)
}

/// The table after the folder `name` of `source_parent` became the folder
/// `new_name` of `destination_parent` and its subtree went from `source` to
/// `destination`.
pub open spec fn placed_folder_tree(
    rows: Seq<SavedItemView>,
    owner: Seq<char>,
    source_parent: Seq<char>,
    name: Seq<char>,
    source: Seq<char>,
    destination_parent: Seq<char>,
    new_name: Seq<char>,
    destination: Seq<char>,
    date: Seq<char>,
) -> Seq<SavedItemView> {
    let placed = update_rows(
        rows,
        owner,
        SelectorView::Folder { parent: source_parent, name },
        ChangeView {
            path: PathChangeView::MoveTo { to: destination_parent },
            name: Some(new_name),
            ..stamp(date)
        },
    );
    relocated_subtree(placed, owner, source, destination, date)
}

/// The table after the files of a message went to `recycle_path`. A row
/// that had no origin remembers the directory it came from.
pub open spec fn recycled_file(
    rows: Seq<SavedItemView>,
    owner: Seq<char>,
    message_id: i32,
    recycle_path: Seq<char>,
    date: Seq<char>,
) -> Seq<SavedItemView> {
    update_rows(
        rows,
        owner,
        SelectorView::File { message_id },
        ChangeView {
            path: PathChangeView::MoveTo { to: recycle_path },
            origin: OriginChange::Mark,
            ..stamp(date)
        },
    )
}

/// The table after the files of a message went to `destination` and lost
/// their origin.
pub open spec fn restored_file(
    rows: Seq<SavedItemView>,
    owner: Seq<char>,
    message_id: i32,
    destination: Seq<char>,
    date: Seq<char>,
) -> Seq<SavedItemView> {
    update_rows(
        rows,
        owner,
        SelectorView::File { message_id },
        ChangeView {
            path: PathChangeView::MoveTo { to: destination },
            origin: OriginChange::Clear,
            ..stamp(date)
        },
    )
}

/// The table after the folder `name` of `source_parent` and its subtree went
/// to the recycle bin: first the folder's row and every row of the subtree
/// remember their directory, where they had no origin yet; then the folder's
/// row goes to `recycle_parent` and the subtree from `source` to
/// `destination`.
pub open spec fn recycled_folder_tree(
    rows: Seq<SavedItemView>,
    owner: Seq<char>,
    source_parent: Seq<char>,
    name: Seq<char>,
    source: Seq<char>,
    recycle_parent: Seq<char>,
    destination: Seq<char>,
    date: Seq<char>,
) -> Seq<SavedItemView> {
    let folder = SelectorView::Folder { parent: source_parent, name };
    let subtree = SelectorView::Subtree { folder: source };
    let mark = ChangeView { origin: OriginChange::Mark, ..stamp(date) };
    let marked = update_rows(update_rows(rows, owner, folder, mark), owner, subtree, mark);
    let moved = update_rows(
        marked,
        owner,
        folder,
        ChangeView { path: PathChangeView::MoveTo { to: recycle_parent }, ..stamp(date) },
    );
    relocated_subtree(moved, owner, source, destination, date)
}

/// The table after the folder `name` of `source_parent` went to
/// `destination_parent` and its subtree from `source` to `destination`, all
/// of them losing their origin.
pub open spec fn restored_folder_tree(
    rows: Seq<SavedItemView>,
    owner: Seq<char>,
    source_parent: Seq<char>,
    name: Seq<char>,
    source: Seq<char>,
    destination_parent: Seq<char>,
    destination: Seq<char>,
    date: Seq<char>,
) -> Seq<SavedItemView> {
    let restored = update_rows(
        rows,
        owner,
        SelectorView::Folder { parent: source_parent, name },
        ChangeView {
            path: PathChangeView::MoveTo { to: destination_parent },
            origin: OriginChange::Clear,
            ..stamp(date)
        },
    );
    update_rows(
        restored,
        owner,
        SelectorView::Subtree { folder: source },
        ChangeView {
            path: PathChangeView::Rewrite { source, destination },
            origin: OriginChange::Clear,
            ..stamp(date)
        },
    )
}

/// The table without the folder `name` of `parent` and without the subtree
/// of `source`.
pub open spec fn deleted_folder_tree(
    rows: Seq<SavedItemView>,
    owner: Seq<char>,
    parent: Seq<char>,
    name: Seq<char>,
    source: Seq<char>,
) -> Seq<SavedItemView> {
    delete_rows(
        delete_rows(rows, owner, SelectorView::Folder { parent, name }),
        owner,
        SelectorView::Subtree { folder: source },
    )
}

/// The directory and the origin of the first file row of a message.
pub open spec fn file_location(rows: Seq<SavedItemView>, owner: Seq<char>, message_id: i32)
    -> Option<(Seq<char>, Option<Seq<char>>)> {
    let found = select_rows(rows, owner, SelectorView::File { message_id });
    if found.len() > 0 {
        Some((found[0].file_path, found[0].recycle_origin_path))
    } else {
        None
    }
}

/// The origin of the first row of the folder `name` in `parent`.
pub open spec fn folder_origin(
    rows: Seq<SavedItemView>,
    owner: Seq<char>,
    parent: Seq<char>,
    name: Seq<char>,
) -> Option<Seq<char>> {
    let found = select_rows(rows, owner, SelectorView::Folder { parent, name });
    if found.len() > 0 {
        found[0].recycle_origin_path
    } else {
        None
    }
}

/// A statement that only stamps the rows it picks with `date`.
pub fn stamp_change<'a>(date: &'a str) -> (c: Change<'a>)
    ensures
        c@ == stamp(date@),
{
    Change {
        path: PathChange::Keep,
        name: None,
        origin: OriginChange::Keep,
        modified_date: Some(date),
        thumbnail: None,
        size: None,
    }
}

impl Database {
    /// Whether `owner_id` has a file row for the message.
    pub fn telegram_saved_file_exists_by_message_id(&self, owner_id: &str, message_id: i32) -> (found:
        bool)
        ensures
            found == (select_rows(self@.items, owner_id@, SelectorView::File { message_id }).len()
                > 0),
    {
        let rows = self.select_where(owner_id, &Selector::File { message_id });
        rows.len() > 0
    }

    /// Whether `owner_id` has the folder `folder_name` in `parent_path`.
    pub fn telegram_saved_folder_exists(
        &self,
        owner_id: &str,
        parent_path: &str,
        folder_name: &str,
    ) -> (found: bool)
        ensures
            found == (select_rows(
                self@.items,
                owner_id@,
                SelectorView::Folder { parent: parent_path@, name: folder_name@ },
            ).len() > 0),
    {
        let rows = self.select_where(
            owner_id,
            &Selector::Folder { parent: parent_path, name: folder_name },
        );
        rows.len() > 0
    }

    /// Puts the files of a message into the directory `destination_path`.
    pub fn move_telegram_saved_file_by_message_id(
        &mut self,
        owner_id: &str,
        message_id: i32,
        destination_path: &str,
        modified_date: &str,
    )
        ensures
            final(self)@.items == moved_file(
                old(self)@.items,
                owner_id@,
                message_id,
                destination_path@,
                modified_date@,
            ),
            final(self)@.messages == old(self)@.messages,
            final(self)@.settings == old(self)@.settings,
            old(self).wf() ==> final(self).wf(),
    {
        let change = Change {
            path: PathChange::MoveTo { to: destination_path },
            ..stamp_change(modified_date)
        };
        self.update_where(owner_id, &Selector::File { message_id }, &change);
    }

    /// Gives the files of a message the name `new_file_name`, which becomes
    /// their caption too.
    pub fn rename_telegram_saved_file_by_message_id(
        &mut self,
        owner_id: &str,
        message_id: i32,
        new_file_name: &str,
        modified_date: &str,
    )
        ensures
            final(self)@.items == renamed_file(
                old(self)@.items,
                owner_id@,
                message_id,
                new_file_name@,
                modified_date@,
            ),
            final(self)@.messages == old(self)@.messages,
            final(self)@.settings == old(self)@.settings,
            old(self).wf() ==> final(self).wf(),
    {
        let change = Change { name: Some(new_file_name), ..stamp_change(modified_date) };
        self.update_where(owner_id, &Selector::File { message_id }, &change);
    }

    /// Replaces the prefix `source_folder_path` of every path in that
    /// folder's subtree by `destination_folder_path`.
    pub fn relocate_subtree(
        &mut self,
        owner_id: &str,
        source_folder_path: &str,
        destination_folder_path: &str,
        modified_date: &str,
    )
        ensures
            final(self)@.items == relocated_subtree(
                old(self)@.items,
                owner_id@,
                source_folder_path@,
                destination_folder_path@,
                modified_date@,
            ),
            final(self)@.messages == old(self)@.messages,
            final(self)@.settings == old(self)@.settings,
            old(self).wf() ==> final(self).wf(),
    {
        let change = Change {
            path: PathChange::Rewrite {
                source: source_folder_path,
                destination: destination_folder_path,
            },
            ..stamp_change(modified_date)
        };
        self.update_where(owner_id, &Selector::Subtree { folder: source_folder_path }, &change);
    }

    /// Renames the folder `current_folder_name` of `parent_path` and moves
    /// what lies below it from `source_folder_path` to
    /// `destination_folder_path`.
    pub fn rename_telegram_saved_folder_tree(
        &mut self,
        owner_id: &str,
        parent_path: &str,
        current_folder_name: &str,
        new_folder_name: &str,
        source_folder_path: &str,
        destination_folder_path: &str,
        modified_date: &str,
    )
        ensures
            final(self)@.items == renamed_folder_tree(
                old(self)@.items,
                owner_id@,
                parent_path@,
                current_folder_name@,
                new_folder_name@,
                source_folder_path@,
                destination_folder_path@,
                modified_date@,
            ),
            final(self)@.messages == old(self)@.messages,
            final(self)@.settings == old(self)@.settings,
            old(self).wf() ==> final(self).wf(),
    {
        let rename = Change { name: Some(new_folder_name), ..stamp_change(modified_date) };
        self.update_where(
            owner_id,
            &Selector::Folder { parent: parent_path, name: current_folder_name },
            &rename,
        );
        self.relocate_subtree(
            owner_id,
            source_folder_path,
            destination_folder_path,
            modified_date,
        );
    }

    /// Makes the folder `folder_name` of `source_parent_path` the folder
    /// `new_name` of `destination_parent_path`, and moves what lies below it
    /// from `source_folder_path` to `destination_folder_path`.
    pub fn place_telegram_saved_folder_tree(
        &mut self,
        owner_id: &str,
        source_parent_path: &str,
        folder_name: &str,
        source_folder_path: &str,
        destination_parent_path: &str,
        new_name: &str,
        destination_folder_path: &str,
        modified_date: &str,
    )
        ensures
            final(self)@.items == placed_folder_tree(
                old(self)@.items,
                owner_id@,
                source_parent_path@,
                folder_name@,
                source_folder_path@,
                destination_parent_path@,
                new_name@,
                destination_folder_path@,
                modified_date@,
            ),
            final(self)@.messages == old(self)@.messages,
            final(self)@.settings == old(self)@.settings,
            old(self).wf() ==> final(self).wf(),
    {
        let to_place = Change {
            path: PathChange::MoveTo { to: destination_parent_path },
            name: Some(new_name),
            ..stamp_change(modified_date)
        };
        self.update_where(
            owner_id,
            &Selector::Folder { parent: source_parent_path, name: folder_name },
            &to_place,
        );
        self.relocate_subtree(
            owner_id,
            source_folder_path,
            destination_folder_path,
            modified_date,
        );
    }

    /// Moves the folder `folder_name` from `source_parent_path` to
    /// `destination_parent_path`, and what lies below it from
    /// `source_folder_path` to `destination_folder_path`.
    pub fn move_telegram_saved_folder_tree(
        &mut self,
        owner_id: &str,
        source_parent_path: &str,
        folder_name: &str,
        source_folder_path: &str,
        destination_parent_path: &str,
        destination_folder_path: &str,
        modified_date: &str,
    )
        ensures
            final(self)@.items == moved_folder_tree(
                old(self)@.items,
                owner_id@,
                source_parent_path@,
                folder_name@,
                source_folder_path@,
                destination_parent_path@,
                destination_folder_path@,
                modified_date@,
            ),
            final(self)@.messages == old(self)@.messages,
            final(self)@.settings == old(self)@.settings,
            old(self).wf() ==> final(self).wf(),
    {
        let to_parent = Change {
            path: PathChange::MoveTo { to: destination_parent_path },
            ..stamp_change(modified_date)
        };
        self.update_where(
            owner_id,
            &Selector::Folder { parent: source_parent_path, name: folder_name },
            &to_parent,
        );
        self.relocate_subtree(
            owner_id,
            source_folder_path,
            destination_folder_path,
            modified_date,
        );
    }

    /// The directory and the origin of the first file row of a message.
    pub fn get_telegram_saved_file_path_and_recycle_origin_by_message_id(
        &self,
        owner_id: &str,
        message_id: i32,
    ) -> (r: Option<(String, Option<String>)>)
        ensures
            match r {
                Some((path, origin)) => file_location(self@.items, owner_id@, message_id) == Some(
                    (path@, crate::model::opt_text(origin)),
                ),
                None => file_location(self@.items, owner_id@, message_id) is None,
            },
    {
        let rows = self.select_where(owner_id, &Selector::File { message_id });
        if rows.len() > 0 {
            let first = &rows[0];
            assert(item_views(rows@)[0] == first@);
            Some((first.file_path.clone(), crate::model::copy_opt_text(&first.recycle_origin_path)))
        } else {
            None
        }
    }

    /// Puts the files of a message into `recycle_path`; each remembers the
    /// directory it came from, unless it remembers one already.
    pub fn recycle_telegram_saved_file_by_message_id(
        &mut self,
        owner_id: &str,
        message_id: i32,
        recycle_path: &str,
        modified_date: &str,
    )
        ensures
            final(self)@.items == recycled_file(
                old(self)@.items,
                owner_id@,
                message_id,
                recycle_path@,
                modified_date@,
            ),
            final(self)@.messages == old(self)@.messages,
            final(self)@.settings == old(self)@.settings,
            old(self).wf() ==> final(self).wf(),
    {
        let change = Change {
            path: PathChange::MoveTo { to: recycle_path },
            origin: OriginChange::Mark,
            ..stamp_change(modified_date)
        };
        self.update_where(owner_id, &Selector::File { message_id }, &change);
    }

    /// Puts the files of a message into `destination_path` and clears their
    /// origin.
    pub fn restore_telegram_saved_file_by_message_id(
        &mut self,
        owner_id: &str,
        message_id: i32,
        destination_path: &str,
        modified_date: &str,
    )
        ensures
            final(self)@.items == restored_file(
                old(self)@.items,
                owner_id@,
                message_id,
                destination_path@,
                modified_date@,
            ),
            final(self)@.messages == old(self)@.messages,
            final(self)@.settings == old(self)@.settings,
            old(self).wf() ==> final(self).wf(),
    {
        let change = Change {
            path: PathChange::MoveTo { to: destination_path },
            origin: OriginChange::Clear,
            ..stamp_change(modified_date)
        };
        self.update_where(owner_id, &Selector::File { message_id }, &change);
    }

    /// The origin that the folder `folder_name` of `parent_path` remembers.
    pub fn get_telegram_saved_folder_recycle_origin(
        &self,
        owner_id: &str,
        parent_path: &str,
        folder_name: &str,
    ) -> (r: Option<String>)
        ensures
            crate::model::opt_text(r) == folder_origin(
                self@.items,
                owner_id@,
                parent_path@,
                folder_name@,
            ),
    {
        let rows = self.select_where(
            owner_id,
            &Selector::Folder { parent: parent_path, name: folder_name },
        );
        if rows.len() > 0 {
            let first = &rows[0];
            assert(item_views(rows@)[0] == first@);
            crate::model::copy_opt_text(&first.recycle_origin_path)
        } else {
            None
        }
    }

    /// Puts the folder `folder_name` of `source_parent_path` into
    /// `recycle_parent_path` and what lies below it from `source_folder_path`
    /// to `destination_folder_path`. Every row that moves remembers the
    /// directory it came from, unless it remembers one already.
    pub fn recycle_telegram_saved_folder_tree(
        &mut self,
        owner_id: &str,
        source_parent_path: &str,
        folder_name: &str,
        source_folder_path: &str,
        recycle_parent_path: &str,
        destination_folder_path: &str,
        modified_date: &str,
    )
        ensures
            final(self)@.items == recycled_folder_tree(
                old(self)@.items,
                owner_id@,
                source_parent_path@,
                folder_name@,
                source_folder_path@,
                recycle_parent_path@,
                destination_folder_path@,
                modified_date@,
            ),
            final(self)@.messages == old(self)@.messages,
            final(self)@.settings == old(self)@.settings,
            old(self).wf() ==> final(self).wf(),
    {
        let mark = Change { origin: OriginChange::Mark, ..stamp_change(modified_date) };
        self.update_where(
            owner_id,
            &Selector::Folder { parent: source_parent_path, name: folder_name },
            &mark,
        );
        self.update_where(owner_id, &Selector::Subtree { folder: source_folder_path }, &mark);
        let to_bin = Change {
            path: PathChange::MoveTo { to: recycle_parent_path },
            ..stamp_change(modified_date)
        };
        self.update_where(
            owner_id,
            &Selector::Folder { parent: source_parent_path, name: folder_name },
            &to_bin,
        );
        self.relocate_subtree(
            owner_id,
            source_folder_path,
            destination_folder_path,
            modified_date,
        );
    }

    /// Puts the folder `folder_name` of `source_parent_path` into
    /// `destination_parent_path` and what lies below it from
    /// `source_folder_path` to `destination_folder_path`, and clears the
    /// origin of every row that moves.
    pub fn restore_telegram_saved_folder_tree(
        &mut self,
        owner_id: &str,
        source_parent_path: &str,
        folder_name: &str,
        source_folder_path: &str,
        destination_parent_path: &str,
        destination_folder_path: &str,
        modified_date: &str,
    )
        ensures
            final(self)@.items == restored_folder_tree(
                old(self)@.items,
                owner_id@,
                source_parent_path@,
                folder_name@,
                source_folder_path@,
                destination_parent_path@,
                destination_folder_path@,
                modified_date@,
            ),
            final(self)@.messages == old(self)@.messages,
            final(self)@.settings == old(self)@.settings,
            old(self).wf() ==> final(self).wf(),
    {
        let to_parent = Change {
            path: PathChange::MoveTo { to: destination_parent_path },
            origin: OriginChange::Clear,
            ..stamp_change(modified_date)
        };
        self.update_where(
            owner_id,
            &Selector::Folder { parent: source_parent_path, name: folder_name },
            &to_parent,
        );
        let below = Change {
            path: PathChange::Rewrite {
                source: source_folder_path,
                destination: destination_folder_path,
            },
            origin: OriginChange::Clear,
            ..stamp_change(modified_date)
        };
        self.update_where(owner_id, &Selector::Subtree { folder: source_folder_path }, &below);
    }

    /// Removes the file rows of a message.
    pub fn delete_telegram_saved_file_by_message_id(&mut self, owner_id: &str, message_id: i32)
        ensures
            final(self)@.items == delete_rows(
                old(self)@.items,
                owner_id@,
                SelectorView::File { message_id },
            ),
            final(self)@.messages == old(self)@.messages,
            final(self)@.settings == old(self)@.settings,
            old(self).wf() ==> final(self).wf(),
    {
        self.delete_where(owner_id, &Selector::File { message_id });
    }

    /// Removes the folder `folder_name` of `source_parent_path` and every row
    /// in the subtree of `source_folder_path`.
    pub fn delete_telegram_saved_folder_tree(
        &mut self,
        owner_id: &str,
        source_parent_path: &str,
        folder_name: &str,
        source_folder_path: &str,
    )
        ensures
            final(self)@.items == deleted_folder_tree(
                old(self)@.items,
                owner_id@,
                source_parent_path@,
                folder_name@,
                source_folder_path@,
            ),
            final(self)@.messages == old(self)@.messages,
            final(self)@.settings == old(self)@.settings,
            old(self).wf() ==> final(self).wf(),
    {
        self.delete_where(
            owner_id,
            &Selector::Folder { parent: source_parent_path, name: folder_name },
        );
        self.delete_where(owner_id, &Selector::Subtree { folder: source_folder_path });
    }
}

/// The table after the files of a message got the thumbnail `thumbnail`.
pub open spec fn with_item_thumbnail(
    rows: Seq<SavedItemView>,
    owner: Seq<char>,
    message_id: i32,
    thumbnail: Seq<char>,
) -> Seq<SavedItemView> {
    update_rows(
        rows,
        owner,
        SelectorView::File { message_id },
        ChangeView {
            path: PathChangeView::Keep,
            name: None,
            origin: OriginChange::Keep,
            modified_date: None,
            thumbnail: Some(thumbnail),
            size: None,
        },
    )
}

/// The table after the images of a message got the size `size`, or zero
/// where `size` is below zero.
pub open spec fn with_item_size(
    rows: Seq<SavedItemView>,
    owner: Seq<char>,
    message_id: i32,
    size: i64,
) -> Seq<SavedItemView> {
    update_rows(
        rows,
        owner,
        SelectorView::Image { message_id },
        ChangeView {
            path: PathChangeView::Keep,
            name: None,
            origin: OriginChange::Keep,
            modified_date: None,
            thumbnail: None,
            size: Some(crate::cache::stored_size(size)),
        },
    )
}

impl Database {
    /// Fills in the thumbnail of the files of a message.
    pub fn update_telegram_saved_item_thumbnail(
        &mut self,
        owner_id: &str,
        message_id: i32,
        thumbnail: &str,
    )
        ensures
            final(self)@.items == with_item_thumbnail(
                old(self)@.items,
                owner_id@,
                message_id,
                thumbnail@,
            ),
            final(self)@.messages == old(self)@.messages,
            final(self)@.settings == old(self)@.settings,
            old(self).wf() ==> final(self).wf(),
    {
        let change = Change {
            path: PathChange::Keep,
            name: None,
            origin: OriginChange::Keep,
            modified_date: None,
            thumbnail: Some(thumbnail),
            size: None,
        };
        self.update_where(owner_id, &Selector::File { message_id }, &change);
    }

    /// Corrects the size of the images of a message; a size below zero is
    /// stored as zero.
    pub fn update_telegram_saved_item_size(&mut self, owner_id: &str, message_id: i32, file_size: i64)
        ensures
            final(self)@.items == with_item_size(old(self)@.items, owner_id@, message_id, file_size),
            final(self)@.messages == old(self)@.messages,
            final(self)@.settings == old(self)@.settings,
            old(self).wf() ==> final(self).wf(),
    {
        let stored: i64 = if file_size < 0 {
            0
        } else {
            file_size
        };
        let change = Change {
            path: PathChange::Keep,
            name: None,
            origin: OriginChange::Keep,
            modified_date: None,
            thumbnail: None,
            size: Some(stored),
        };
        self.update_where(owner_id, &Selector::Image { message_id }, &change);
    }
}

} // verus!

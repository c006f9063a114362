//! Recycling and restoring are inverse to each other: what goes into the
//! recycle bin and comes back lies where it lay, and remembers no origin.

use crate::engine::{
    child_path, ensured_chain, ensured_default_folders, ensured_hierarchy, recycle_outcome,
    restore_outcome, restore_target, split_on, with_folder, with_new_folder,
};
use crate::engine_laws::lemma_select_after_with_folder;
use crate::model::SavedItemView;
use crate::paths::{
    in_recycle_bin, in_subtree, message_ref, normalize, recycle_bin, saved_root,
};
use crate::store::{
    change_row, is_folder, rewrite_path, select_rows, selects, update_rows, ChangeView,
    OriginChange, PathChangeView, SelectorView,
};
use crate::text::{strip_prefix_repeated, trim};
use crate::tree::{
    file_location, folder_origin, recycled_file, recycled_folder_tree, restored_file,
    restored_folder_tree, stamp,
};
use vstd::prelude::*;

verus! {

/// The rows that a selector picks are rows of the table that it picks, in
/// their order, and it picks no other row of the table.
pub proof fn lemma_select_members(rows: Seq<SavedItemView>, owner: Seq<char>, sel: SelectorView)
    ensures
        forall|k: int|
            0 <= k < select_rows(rows, owner, sel).len() ==> selects(
                sel,
                owner,
                #[trigger] select_rows(rows, owner, sel)[k],
            ) && rows.contains(select_rows(rows, owner, sel)[k]),
        forall|i: int|
            0 <= i < rows.len() && selects(sel, owner, #[trigger] rows[i]) ==> select_rows(
                rows,
                owner,
                sel,
            ).contains(rows[i]),
    decreases rows.len(),
{
    if rows.len() > 0 {
        let front = rows.drop_last();
        lemma_select_members(front, owner, sel);
        let picked = select_rows(front, owner, sel);
        let out = select_rows(rows, owner, sel);
        assert forall|k: int| 0 <= k < out.len() implies selects(sel, owner, #[trigger] out[k])
            && rows.contains(out[k]) by {
            if k < picked.len() {
                assert(out[k] == picked[k]);
                assert(front.contains(picked[k]));
                let j = choose|j: int| 0 <= j < front.len() && front[j] == picked[k];
                assert(rows[j] == picked[k]);
            } else {
                assert(rows[rows.len() - 1] == out[k]);
            }
        }
        assert forall|i: int|
            0 <= i < rows.len() && selects(sel, owner, #[trigger] rows[i]) implies out.contains(
            rows[i],
        ) by {
            if i < front.len() {
                assert(front[i] == rows[i]);
                assert(picked.contains(front[i]));
                let k = choose|k: int| 0 <= k < picked.len() && picked[k] == front[i];
                assert(out[k] == rows[i]);
            } else {
                assert(out[out.len() - 1] == rows[i]);
            }
        }
    }
}

/// Writing the default folders leaves the files of a message as they were.
pub proof fn lemma_files_after_default_folders(
    rows: Seq<SavedItemView>,
    owner: Seq<char>,
    message_id: i32,
    date: Seq<char>,
)
    ensures
        select_rows(
            ensured_default_folders(rows, owner, date),
            owner,
            SelectorView::File { message_id },
        ) == select_rows(rows, owner, SelectorView::File { message_id }),
{
    let sel = SelectorView::File { message_id };
    lemma_select_after_default_folders(rows, owner, sel, date);
}

/// Creating a chain of folders leaves the files of a message as they were.
pub proof fn lemma_files_after_chain(
    rows: Seq<SavedItemView>,
    owner: Seq<char>,
    message_id: i32,
    parent: Seq<char>,
    segments: Seq<Seq<char>>,
    date: Seq<char>,
)
    ensures
        select_rows(
            ensured_chain(rows, owner, parent, segments, date),
            owner,
            SelectorView::File { message_id },
        ) == select_rows(rows, owner, SelectorView::File { message_id }),
    decreases segments.len(),
{
    if segments.len() > 0 {
        let name = trim(segments[0]);
        if name.len() == 0 {
            lemma_files_after_chain(rows, owner, message_id, parent, segments.drop_first(), date);
        } else {
            crate::engine_laws::lemma_with_new_folder(rows, owner, parent, name, date);
            let created = if crate::engine::folder_exists(rows, owner, parent, name) {
                rows
            } else {
                with_new_folder(rows, owner, parent, name, date)
            };
            assert(select_rows(created, owner, SelectorView::File { message_id }) == select_rows(
                rows,
                owner,
                SelectorView::File { message_id },
            ));
            lemma_files_after_chain(
                created,
                owner,
                message_id,
                child_path(parent, name),
                segments.drop_first(),
                date,
            );
        }
    }
}

/// Creating the folders on the way to a destination leaves the files of a
/// message as they were.
pub proof fn lemma_files_after_hierarchy(
    rows: Seq<SavedItemView>,
    owner: Seq<char>,
    message_id: i32,
    destination: Seq<char>,
    date: Seq<char>,
)
    ensures
        select_rows(
            ensured_hierarchy(rows, owner, destination, date),
            owner,
            SelectorView::File { message_id },
        ) == select_rows(rows, owner, SelectorView::File { message_id }),
{
    let target = normalize(destination);
    if target != saved_root() {
        let relative = trim(strip_prefix_repeated(target, "/Home/"@));
        if relative.len() > 0 {
            lemma_files_after_chain(
                rows,
                owner,
                message_id,
                saved_root(),
                split_on(relative, '/'),
                date,
            );
        }
    }
}

/// The rows of `rows`, each changed by `change`.
pub open spec fn changed_all(rows: Seq<SavedItemView>, change: ChangeView) -> Seq<SavedItemView> {
    Seq::new(rows.len(), |i: int| change_row(rows[i], change))
}

/// After a statement on the files of a message, the files of the message
/// are what they were, each changed by the statement.
pub proof fn lemma_files_after_statement(
    rows: Seq<SavedItemView>,
    owner: Seq<char>,
    message_id: i32,
    change: ChangeView,
)
    ensures
        select_rows(
            update_rows(rows, owner, SelectorView::File { message_id }, change),
            owner,
            SelectorView::File { message_id },
        ) == changed_all(select_rows(rows, owner, SelectorView::File { message_id }), change),
    decreases rows.len(),
{
    let sel = SelectorView::File { message_id };
    let updated = update_rows(rows, owner, sel, change);
    if rows.len() > 0 {
        let front = rows.drop_last();
        lemma_files_after_statement(front, owner, message_id, change);
        assert(updated.drop_last() =~= update_rows(front, owner, sel, change));
        let last = rows[rows.len() - 1];
        assert(updated.last() == if selects(sel, owner, last) {
            change_row(last, change)
        } else {
            last
        });
        assert(select_rows(updated, owner, sel) =~= changed_all(
            select_rows(rows, owner, sel),
            change,
        ));
    } else {
        assert(select_rows(updated, owner, sel) =~= changed_all(
            select_rows(rows, owner, sel),
            change,
        ));
    }
}

/// A file that is recycled and then restored is where it was, and remembers
/// no origin: for a message whose file row lies outside the recycle bin and
/// remembers no origin, recycling `tg://msg/<id>` and then restoring it both
/// succeed, and the row is what it was but for the date of its last change.
/// Where the message has more rows than one, the first is the file row that
/// is meant; the others go where it goes.
pub proof fn lemma_recycle_then_restore_file(
    rows: Seq<SavedItemView>,
    owner: Seq<char>,
    source_path: Seq<char>,
    message_id: i32,
    recycled_at: Seq<char>,
    restored_at: Seq<char>,
)
    requires
        message_ref(source_path) == Some(message_id),
        select_rows(rows, owner, SelectorView::File { message_id }).len() > 0,
        select_rows(rows, owner, SelectorView::File { message_id })[0].recycle_origin_path is None,
        !in_recycle_bin(select_rows(rows, owner, SelectorView::File { message_id })[0].file_path),
    ensures
        ({
            let file = select_rows(rows, owner, SelectorView::File { message_id })[0];
            let recycled = recycle_outcome(rows, owner, source_path, recycled_at);
            let in_bin = select_rows(recycled.rows, owner, SelectorView::File { message_id });
            let restored = restore_outcome(recycled.rows, owner, source_path, restored_at);
            let back = select_rows(restored.rows, owner, SelectorView::File { message_id });
            let files = select_rows(rows, owner, SelectorView::File { message_id });
            &&& recycled.result is Ok
            &&& in_bin.len() == files.len()
            &&& in_bin[0].file_path == recycle_bin()
            &&& in_bin[0].recycle_origin_path == Some(file.file_path)
            &&& restored.result is Ok
            &&& back.len() == files.len()
            &&& back[0] == restamped(file, restored_at)
            &&& forall|k: int|
                0 <= k < back.len() ==> (#[trigger] back[k]).file_path == file.file_path
                    && back[k].recycle_origin_path is None
        }),
{
    let sel = SelectorView::File { message_id };
    let files = select_rows(rows, owner, sel);
    let file = files[0];
    // recycling
    let ensured = ensured_default_folders(rows, owner, recycled_at);
    lemma_files_after_default_folders(rows, owner, message_id, recycled_at);
    assert(select_rows(ensured, owner, sel) == files);
    assert(file_location(ensured, owner, message_id) == Some(
        (file.file_path, file.recycle_origin_path),
    ));
    let to_bin = ChangeView {
        path: PathChangeView::MoveTo { to: recycle_bin() },
        origin: OriginChange::Mark,
        ..stamp(recycled_at)
    };
    let recycled = recycled_file(ensured, owner, message_id, recycle_bin(), recycled_at);
    lemma_files_after_statement(ensured, owner, message_id, to_bin);
    let in_bin = select_rows(recycled, owner, sel);
    assert(in_bin[0] == change_row(file, to_bin));
    assert(recycle_outcome(rows, owner, source_path, recycled_at).rows == recycled);
    // restoring
    let ensured_again = ensured_default_folders(recycled, owner, restored_at);
    lemma_files_after_default_folders(recycled, owner, message_id, restored_at);
    assert(select_rows(ensured_again, owner, sel) == in_bin);
    assert(in_recycle_bin(recycle_bin()));
    let destination = file.file_path;
    assert(restore_target(in_bin[0].recycle_origin_path) == destination);
    let chained = ensured_hierarchy(ensured_again, owner, destination, restored_at);
    lemma_files_after_hierarchy(ensured_again, owner, message_id, destination, restored_at);
    let from_bin = ChangeView {
        path: PathChangeView::MoveTo { to: destination },
        origin: OriginChange::Clear,
        ..stamp(restored_at)
    };
    lemma_files_after_statement(chained, owner, message_id, from_bin);
    let restored = restored_file(chained, owner, message_id, destination, restored_at);
    let back = select_rows(restored, owner, sel);
    assert(back[0] == change_row(in_bin[0], from_bin));
    assert(restore_outcome(recycled, owner, source_path, restored_at).rows == restored);
}

/// Rewriting a path of a subtree to another place and back gives the path.
pub proof fn lemma_rewrite_round_trip(path: Seq<char>, source: Seq<char>, destination: Seq<char>)
    requires
        in_subtree(path, source),
    ensures
        in_subtree(rewrite_path(path, source, destination), destination),
        rewrite_path(rewrite_path(path, source, destination), destination, source) == path,
{
    let rest = path.skip(source.len() as int);
    let there = rewrite_path(path, source, destination);
    let slash = seq!['/'];
    if path == source {
        assert(rest =~= Seq::<char>::empty());
        assert(there =~= destination);
        assert(there.skip(destination.len() as int) =~= Seq::<char>::empty());
        assert(source + Seq::<char>::empty() =~= source);
    } else {
        assert((source + slash).is_prefix_of(path));
        let head = path.subrange(0, source.len() as int + 1);
        assert(head =~= source + slash);
        assert(path.subrange(0, source.len() as int) =~= source) by {
            assert forall|i: int| 0 <= i < source.len() implies path[i] == source[i] by {
                assert(path[i] == head[i]);
            }
        }
        assert(rest[0] == head[source.len() as int]);
        assert(there == destination + rest);
        assert(there.subrange(0, destination.len() as int + 1) =~= destination + slash);
        assert(there.skip(destination.len() as int) =~= rest);
        assert(source + rest =~= path);
    }
}

/// Whether `row` belongs to the tree of the folder `name` of `parent` whose
/// full path is `path`: it is the folder's row or lies in its subtree.
pub open spec fn in_tree(
    row: SavedItemView,
    owner: Seq<char>,
    parent: Seq<char>,
    name: Seq<char>,
    path: Seq<char>,
) -> bool {
    selects(SelectorView::Folder { parent, name }, owner, row) || selects(
        SelectorView::Subtree { folder: path },
        owner,
        row,
    )
}

/// The row of a folder while the folder is in the bin: it lies in `bin` and
/// remembers the directory it came from.
pub open spec fn recycled_folder_row(row: SavedItemView, bin: Seq<char>, date: Seq<char>)
    -> SavedItemView {
    SavedItemView {
        file_path: bin,
        recycle_origin_path: Some(row.file_path),
        modified_date: date,
        ..row
    }
}

/// A row below a folder while the folder is in the bin: its path leads
/// through the bin, and it remembers the directory it came from.
pub open spec fn recycled_row_below(
    row: SavedItemView,
    source: Seq<char>,
    recycled: Seq<char>,
    date: Seq<char>,
) -> SavedItemView {
    SavedItemView {
        file_path: rewrite_path(row.file_path, source, recycled),
        recycle_origin_path: Some(row.file_path),
        modified_date: date,
        ..row
    }
}

/// A row after a change at `date` that left everything else as it was.
pub open spec fn restamped(row: SavedItemView, date: Seq<char>) -> SavedItemView {
    SavedItemView { modified_date: date, ..row }
}

/// A folder tree that is recycled and then restored is where it was, and
/// remembers no origin. The folder `name` lies in `parent`, its full path is
/// `source`; it goes into the directory `bin`, where its full path is
/// `recycled`. While it is in the bin, the folder's row remembers `parent`
/// and every row below remembers its own directory. After it is restored,
/// every row of the tree is what it was but for the date of its last change,
/// and every other row never changed.
///
/// The tree must remember no origin before. Neither of `source` and
/// `recycled` may lie in the other, neither `parent` nor `bin` in one of
/// them, and the place in the bin must be free: no row of the owner lies at
/// `recycled` or below, and the bin holds no folder of that name.
pub proof fn lemma_recycle_then_restore_tree(
    rows: Seq<SavedItemView>,
    owner: Seq<char>,
    parent: Seq<char>,
    name: Seq<char>,
    source: Seq<char>,
    bin: Seq<char>,
    recycled: Seq<char>,
    recycled_at: Seq<char>,
    restored_at: Seq<char>,
)
    requires
        !in_subtree(recycled, source),
        !in_subtree(source, recycled),
        !in_subtree(parent, source),
        !in_subtree(parent, recycled),
        !in_subtree(bin, source),
        !in_subtree(bin, recycled),
        forall|i: int|
            0 <= i < rows.len() && in_tree(#[trigger] rows[i], owner, parent, name, source)
                ==> rows[i].recycle_origin_path is None,
        forall|i: int|
            0 <= i < rows.len() ==> !in_tree(#[trigger] rows[i], owner, bin, name, recycled),
    ensures
        ({
            let gone = recycled_folder_tree(
                rows,
                owner,
                parent,
                name,
                source,
                bin,
                recycled,
                recycled_at,
            );
            let back = restored_folder_tree(
                gone,
                owner,
                bin,
                name,
                recycled,
                parent,
                source,
                restored_at,
            );
            &&& gone.len() == rows.len()
            &&& back.len() == rows.len()
            &&& forall|i: int|
                0 <= i < rows.len() && selects(
                    SelectorView::Folder { parent, name },
                    owner,
                    #[trigger] rows[i],
                ) ==> gone[i] == recycled_folder_row(rows[i], bin, recycled_at)
            &&& forall|i: int|
                0 <= i < rows.len() && selects(
                    SelectorView::Subtree { folder: source },
                    owner,
                    #[trigger] rows[i],
                ) ==> gone[i] == recycled_row_below(rows[i], source, recycled, recycled_at)
            &&& forall|i: int|
                0 <= i < rows.len() && in_tree(#[trigger] rows[i], owner, parent, name, source)
                    ==> back[i] == (SavedItemView { modified_date: restored_at, ..rows[i] })
            &&& forall|i: int|
                0 <= i < rows.len() && !in_tree(#[trigger] rows[i], owner, parent, name, source)
                    ==> gone[i] == rows[i] && back[i] == rows[i]
        }),
{
    let folder = SelectorView::Folder { parent, name };
    let subtree = SelectorView::Subtree { folder: source };
    let folder_in_bin = SelectorView::Folder { parent: bin, name };
    let subtree_in_bin = SelectorView::Subtree { folder: recycled };
    let mark = ChangeView { origin: OriginChange::Mark, ..stamp(recycled_at) };
    let to_bin = ChangeView { path: PathChangeView::MoveTo { to: bin }, ..stamp(recycled_at) };
    let a = update_rows(rows, owner, folder, mark);
    let b = update_rows(a, owner, subtree, mark);
    let c = update_rows(b, owner, folder, to_bin);
    let gone = crate::tree::relocated_subtree(c, owner, source, recycled, recycled_at);
    let from_bin = ChangeView {
        path: PathChangeView::MoveTo { to: parent },
        origin: OriginChange::Clear,
        ..stamp(restored_at)
    };
    let below = ChangeView {
        path: PathChangeView::Rewrite { source: recycled, destination: source },
        origin: OriginChange::Clear,
        ..stamp(restored_at)
    };
    let d = update_rows(gone, owner, folder_in_bin, from_bin);
    let back = update_rows(d, owner, subtree_in_bin, below);
    assert forall|i: int| 0 <= i < rows.len() implies {
        &&& (selects(folder, owner, #[trigger] rows[i]) ==> gone[i] == recycled_folder_row(
            rows[i],
            bin,
            recycled_at,
        ))
        &&& (selects(subtree, owner, rows[i]) ==> gone[i] == recycled_row_below(
            rows[i],
            source,
            recycled,
            recycled_at,
        ))
        &&& (in_tree(rows[i], owner, parent, name, source) ==> back[i] == (SavedItemView {
            modified_date: restored_at,
            ..rows[i]
        }))
        &&& (!in_tree(rows[i], owner, parent, name, source) ==> gone[i] == rows[i] && back[i]
            == rows[i])
    } by {
        let row = rows[i];
        assert(!in_tree(row, owner, bin, name, recycled));
        if selects(folder, owner, row) {
            // the folder's row lies in `parent`, which is outside both subtrees
            assert(!selects(subtree, owner, row));
            assert(row.file_path == parent);
            assert(a[i].recycle_origin_path == Some(parent));
            assert(b[i] == a[i]);
            assert(c[i].file_path == bin);
            assert(gone[i] == c[i]);
            assert(selects(folder_in_bin, owner, gone[i]));
            assert(d[i].file_path == parent);
            assert(back[i] == d[i]);
        } else if selects(subtree, owner, row) {
            lemma_rewrite_round_trip(row.file_path, source, recycled);
            assert(a[i] == row);
            assert(b[i].recycle_origin_path == Some(row.file_path));
            assert(c[i] == b[i]);
            assert(gone[i].file_path == rewrite_path(row.file_path, source, recycled));
            // in the bin it lies below `recycled`, so it is no folder of the bin itself
            assert(!selects(folder_in_bin, owner, gone[i]));
            assert(d[i] == gone[i]);
            assert(selects(subtree_in_bin, owner, d[i]));
        } else {
            assert(a[i] == row && b[i] == row && c[i] == row && gone[i] == row);
            assert(d[i] == row);
        }
    }
}

/// While a folder is in the bin, restoring finds where it came from: the
/// first row of the folder `name` in `bin` remembers `parent`.
pub proof fn lemma_recycled_folder_remembers_parent(
    rows: Seq<SavedItemView>,
    owner: Seq<char>,
    parent: Seq<char>,
    name: Seq<char>,
    source: Seq<char>,
    bin: Seq<char>,
    recycled: Seq<char>,
    recycled_at: Seq<char>,
)
    requires
        !in_subtree(recycled, source),
        !in_subtree(source, recycled),
        !in_subtree(parent, source),
        !in_subtree(parent, recycled),
        !in_subtree(bin, source),
        !in_subtree(bin, recycled),
        forall|i: int|
            0 <= i < rows.len() && in_tree(#[trigger] rows[i], owner, parent, name, source)
                ==> rows[i].recycle_origin_path is None,
        forall|i: int|
            0 <= i < rows.len() ==> !in_tree(#[trigger] rows[i], owner, bin, name, recycled),
        crate::engine::folder_exists(rows, owner, parent, name),
    ensures
        ({
            let gone = recycled_folder_tree(
                rows,
                owner,
                parent,
                name,
                source,
                bin,
                recycled,
                recycled_at,
            );
            crate::engine::folder_exists(gone, owner, bin, name) && folder_origin(
                gone,
                owner,
                bin,
                name,
            ) == Some(parent)
        }),
{
    let gone = recycled_folder_tree(rows, owner, parent, name, source, bin, recycled, recycled_at);
    lemma_recycle_then_restore_tree(
        rows,
        owner,
        parent,
        name,
        source,
        bin,
        recycled,
        recycled_at,
        recycled_at,
    );
    let folder = SelectorView::Folder { parent, name };
    let folder_in_bin = SelectorView::Folder { parent: bin, name };
    lemma_select_members(rows, owner, folder);
    lemma_select_members(gone, owner, folder_in_bin);
    let found = select_rows(rows, owner, folder);
    let first = found[0];
    assert(rows.contains(first));
    let i = choose|i: int| 0 <= i < rows.len() && rows[i] == first;
    assert(selects(folder, owner, rows[i]));
    assert(gone[i] == recycled_folder_row(rows[i], bin, recycled_at));
    assert(gone[i].file_path == bin);
    assert(gone[i].file_name == name && is_folder(gone[i]) && gone[i].owner_id == owner) by {
        lemma_tree_rows_keep_identity(
            rows,
            owner,
            parent,
            name,
            source,
            bin,
            recycled,
            recycled_at,
            i,
        );
    }
    assert(selects(folder_in_bin, owner, gone[i]));
    let in_bin = select_rows(gone, owner, folder_in_bin);
    assert(in_bin.contains(gone[i]));
    assert(in_bin.len() > 0);
    let head = in_bin[0];
    assert(gone.contains(head));
    let j = choose|j: int| 0 <= j < gone.len() && gone[j] == head;
    assert(selects(folder_in_bin, owner, gone[j]));
    // a folder of that name in the bin can only be the recycled folder
    if !selects(folder, owner, rows[j]) {
        lemma_tree_rows_keep_identity(
            rows,
            owner,
            parent,
            name,
            source,
            bin,
            recycled,
            recycled_at,
            j,
        );
        if selects(SelectorView::Subtree { folder: source }, owner, rows[j]) {
            lemma_rewrite_round_trip(rows[j].file_path, source, recycled);
        } else {
            assert(!in_tree(rows[j], owner, bin, name, recycled));
        }
    }
}

/// Recycling changes neither the owner, the name nor the kind of a row.
pub proof fn lemma_tree_rows_keep_identity(
    rows: Seq<SavedItemView>,
    owner: Seq<char>,
    parent: Seq<char>,
    name: Seq<char>,
    source: Seq<char>,
    bin: Seq<char>,
    recycled: Seq<char>,
    recycled_at: Seq<char>,
    i: int,
)
    requires
        0 <= i < rows.len(),
    ensures
        ({
            let gone = recycled_folder_tree(
                rows,
                owner,
                parent,
                name,
                source,
                bin,
                recycled,
                recycled_at,
            );
            &&& gone.len() == rows.len()
            &&& gone[i].owner_id == rows[i].owner_id
            &&& gone[i].file_name == rows[i].file_name
            &&& gone[i].file_type == rows[i].file_type
            &&& gone[i].file_unique_id == rows[i].file_unique_id
            &&& gone[i].message_id == rows[i].message_id
        }),
{
    let folder = SelectorView::Folder { parent, name };
    let subtree = SelectorView::Subtree { folder: source };
    let mark = ChangeView { origin: OriginChange::Mark, ..stamp(recycled_at) };
    let to_bin = ChangeView { path: PathChangeView::MoveTo { to: bin }, ..stamp(recycled_at) };
    let a = update_rows(rows, owner, folder, mark);
    let b = update_rows(a, owner, subtree, mark);
    let c = update_rows(b, owner, folder, to_bin);
    let gone = crate::tree::relocated_subtree(c, owner, source, recycled, recycled_at);
    assert(a[i].file_name == rows[i].file_name);
    assert(b[i].file_name == a[i].file_name);
    assert(c[i].file_name == b[i].file_name);
    assert(gone[i].file_name == c[i].file_name);
}

/// Whether `name` is the name of one of the folders that every owner has
/// in the root from the start.
pub open spec fn is_default_name(name: Seq<char>) -> bool {
    ||| name == "Images"@
    ||| name == "Videos"@
    ||| name == "Audios"@
    ||| name == "Documents"@
    ||| name == "Notes"@
    ||| name == "Recycle Bin"@
}

/// Whether the selector picks none of the default folders of any owner.
pub open spec fn apart_from_defaults(owner: Seq<char>, sel: SelectorView) -> bool {
    forall|row: SavedItemView|
        #![trigger selects(sel, owner, row)]
        row.file_path == saved_root() && is_folder(row) && is_default_name(row.file_name)
            ==> !selects(sel, owner, row)
}

/// Writing the default folders leaves the rows of a selector as they were,
/// as long as the selector picks none of the default folders.
pub proof fn lemma_select_after_default_folders(
    rows: Seq<SavedItemView>,
    owner: Seq<char>,
    sel: SelectorView,
    date: Seq<char>,
)
    requires
        apart_from_defaults(owner, sel),
    ensures
        select_rows(ensured_default_folders(rows, owner, date), owner, sel) == select_rows(
            rows,
            owner,
            sel,
        ),
{
    let root = saved_root();
    let a = with_folder(rows, owner, root, "Images"@, date);
    lemma_select_after_with_folder(rows, owner, sel, owner, root, "Images"@, date);
    let b = with_folder(a, owner, root, "Videos"@, date);
    lemma_select_after_with_folder(a, owner, sel, owner, root, "Videos"@, date);
    let c = with_folder(b, owner, root, "Audios"@, date);
    lemma_select_after_with_folder(b, owner, sel, owner, root, "Audios"@, date);
    let d = with_folder(c, owner, root, "Documents"@, date);
    lemma_select_after_with_folder(c, owner, sel, owner, root, "Documents"@, date);
    let e = with_folder(d, owner, root, "Notes"@, date);
    lemma_select_after_with_folder(d, owner, sel, owner, root, "Notes"@, date);
    lemma_select_after_with_folder(e, owner, sel, owner, root, "Recycle Bin"@, date);
}

} // verus!

//! What holds of writing folders and of moving them: a folder is written
//! under a key that no other row has, so that writing one removes nothing;
//! the folders on the way to a destination all exist once the missing ones
//! were created; and a folder that was moved leaves nothing behind.

use crate::engine::{
    chain_complete, create_folder_outcome, created_folder, ensured_chain,
    ensured_default_folders, ensured_hierarchy, folder_exists, folder_row, free_folder_key,
    hierarchy_complete, key_taken, move_outcome, same_folder, split_on, with_folder,
    with_new_folder,
};
use crate::folder_laws::lemma_nothing_selected;
use crate::model::SavedItemView;
use crate::paths::{
    folder_unique_id, in_subtree, message_ref, normalize, saved_root, split_parent_and_name,
    virtual_to_saved,
};
use crate::store::{
    keys_unique, rewrite_path, select_rows, selects, upsert_row, without_key, SelectorView,
};
use crate::store_laws::{lemma_place_clears_source, lemma_without_absent_key};
use crate::text::{strip_prefix_repeated, trim};
use vstd::prelude::*;

verus! {

/// Whether every row of `before` is a row of `after`, at its place.
pub open spec fn rows_stay(before: Seq<SavedItemView>, after: Seq<SavedItemView>) -> bool {
    before.is_prefix_of(after)
}

/// Writing a folder where its key is free leaves the table as it was or
/// adds the folder as its newest row; either way every row stays, and the
/// keys stay unique.
pub proof fn lemma_with_folder(
    rows: Seq<SavedItemView>,
    owner: Seq<char>,
    parent: Seq<char>,
    name: Seq<char>,
    date: Seq<char>,
)
    ensures
        ({
            let key = folder_unique_id(owner, parent, name);
            let after = with_folder(rows, owner, parent, name, date);
            &&& key_taken(rows, key) ==> after == rows
            &&& !key_taken(rows, key) ==> after == rows.push(
                folder_row(owner, parent, name, key, date),
            )
            &&& rows_stay(rows, after)
            &&& keys_unique(rows) ==> keys_unique(after)
        }),
{
    let key = folder_unique_id(owner, parent, name);
    let after = with_folder(rows, owner, parent, name, date);
    if !key_taken(rows, key) {
        lemma_without_absent_key(rows, key);
        let row = folder_row(owner, parent, name, key, date);
        assert(after == rows.push(row));
        assert(rows =~= after.subrange(0, rows.len() as int));
        if keys_unique(rows) {
            assert forall|i: int, j: int| 0 <= i < j < after.len() implies (
            #[trigger] after[i]).file_unique_id != (#[trigger] after[j]).file_unique_id by {
                assert(after[i] == rows[i]);
                if j < rows.len() {
                    assert(after[j] == rows[j]);
                }
            }
        }
    } else {
        assert(rows =~= after.subrange(0, rows.len() as int));
    }
}

/// Writing a folder leaves the rows that a selector picks as they were,
/// as long as the selector does not pick the folder.
pub proof fn lemma_select_after_with_folder(
    rows: Seq<SavedItemView>,
    owner: Seq<char>,
    sel: SelectorView,
    folder_owner: Seq<char>,
    parent: Seq<char>,
    name: Seq<char>,
    date: Seq<char>,
)
    requires
        !selects(
            sel,
            owner,
            folder_row(
                folder_owner,
                parent,
                name,
                folder_unique_id(folder_owner, parent, name),
                date,
            ),
        ),
    ensures
        select_rows(with_folder(rows, folder_owner, parent, name, date), owner, sel)
            == select_rows(rows, owner, sel),
{
    lemma_with_folder(rows, folder_owner, parent, name, date);
    let after = with_folder(rows, folder_owner, parent, name, date);
    if after != rows {
        assert(after.drop_last() =~= rows);
    }
}

/// Writing a missing folder adds its row and nothing else: every row
/// stays, the keys stay unique, the folder exists, and the rows that a
/// selector picks are as they were where the selector does not pick the
/// folder.
pub proof fn lemma_with_new_folder(
    rows: Seq<SavedItemView>,
    owner: Seq<char>,
    parent: Seq<char>,
    name: Seq<char>,
    date: Seq<char>,
)
    ensures
        rows_stay(rows, with_new_folder(rows, owner, parent, name, date)),
        keys_unique(rows) ==> keys_unique(with_new_folder(rows, owner, parent, name, date)),
        folder_exists(with_new_folder(rows, owner, parent, name, date), owner, parent, name),
        forall|picker: Seq<char>, sel: SelectorView|
            !selects(
                sel,
                picker,
                folder_row(owner, parent, name, free_folder_key(rows, owner, parent, name), date),
            ) ==> #[trigger] select_rows(
                with_new_folder(rows, owner, parent, name, date),
                picker,
                sel,
            ) == select_rows(rows, picker, sel),
{
    let after = with_new_folder(rows, owner, parent, name, date);
    let row = folder_row(owner, parent, name, free_folder_key(rows, owner, parent, name), date);
    crate::engine::lemma_free_folder_key(rows, owner, parent, name);
    assert(after.drop_last() =~= rows);
    assert(rows =~= after.subrange(0, rows.len() as int));
    if keys_unique(rows) {
        assert forall|i: int, j: int| 0 <= i < j < after.len() implies (
        #[trigger] after[i]).file_unique_id != (#[trigger] after[j]).file_unique_id by {
            assert(after[i] == rows[i]);
            if j < rows.len() {
                assert(after[j] == rows[j]);
            }
        }
    }
    let sel = SelectorView::Folder { parent, name };
    lemma_nothing_selected(after, owner, sel);
    assert(selects(sel, owner, after[after.len() - 1]));
}

/// Writing the folders that every owner has removes and changes no row,
/// and keeps the keys unique.
pub proof fn lemma_default_folders_keep_rows(
    rows: Seq<SavedItemView>,
    owner: Seq<char>,
    date: Seq<char>,
)
    ensures
        rows_stay(rows, ensured_default_folders(rows, owner, date)),
        keys_unique(rows) ==> keys_unique(ensured_default_folders(rows, owner, date)),
{
    let a = with_folder(rows, owner, saved_root(), "Images"@, date);
    lemma_with_folder(rows, owner, saved_root(), "Images"@, date);
    let b = with_folder(a, owner, saved_root(), "Videos"@, date);
    lemma_with_folder(a, owner, saved_root(), "Videos"@, date);
    let c = with_folder(b, owner, saved_root(), "Audios"@, date);
    lemma_with_folder(b, owner, saved_root(), "Audios"@, date);
    let d = with_folder(c, owner, saved_root(), "Documents"@, date);
    lemma_with_folder(c, owner, saved_root(), "Documents"@, date);
    let e = with_folder(d, owner, saved_root(), "Notes"@, date);
    lemma_with_folder(d, owner, saved_root(), "Notes"@, date);
    let f = with_folder(e, owner, saved_root(), "Recycle Bin"@, date);
    lemma_with_folder(e, owner, saved_root(), "Recycle Bin"@, date);
    assert(rows =~= f.subrange(0, rows.len() as int)) by {
        assert forall|i: int| 0 <= i < rows.len() implies rows[i] == f[i] by {
            assert(a[i] == a.subrange(0, rows.len() as int)[i]);
            assert(b[i] == b.subrange(0, a.len() as int)[i]);
            assert(c[i] == c.subrange(0, b.len() as int)[i]);
            assert(d[i] == d.subrange(0, c.len() as int)[i]);
            assert(e[i] == e.subrange(0, d.len() as int)[i]);
            assert(f[i] == f.subrange(0, e.len() as int)[i]);
        }
    }
}

/// The rows that writing the default folders adds are folders of the root
/// that remember no origin.
pub proof fn lemma_default_folders_are_plain(
    rows: Seq<SavedItemView>,
    owner: Seq<char>,
    date: Seq<char>,
)
    ensures
        ({
            let after = ensured_default_folders(rows, owner, date);
            &&& rows_stay(rows, after)
            &&& forall|i: int|
                rows.len() <= i < after.len() ==> (#[trigger] after[i]).file_path == saved_root()
                    && after[i].recycle_origin_path is None && after[i].file_type == "folder"@
        }),
{
    let root = saved_root();
    let a = with_folder(rows, owner, root, "Images"@, date);
    lemma_with_folder(rows, owner, root, "Images"@, date);
    let b = with_folder(a, owner, root, "Videos"@, date);
    lemma_with_folder(a, owner, root, "Videos"@, date);
    let c = with_folder(b, owner, root, "Audios"@, date);
    lemma_with_folder(b, owner, root, "Audios"@, date);
    let d = with_folder(c, owner, root, "Documents"@, date);
    lemma_with_folder(c, owner, root, "Documents"@, date);
    let e = with_folder(d, owner, root, "Notes"@, date);
    lemma_with_folder(d, owner, root, "Notes"@, date);
    let f = with_folder(e, owner, root, "Recycle Bin"@, date);
    lemma_with_folder(e, owner, root, "Recycle Bin"@, date);
    lemma_default_folders_keep_rows(rows, owner, date);
    assert forall|i: int| rows.len() <= i < f.len() implies (#[trigger] f[i]).file_path == root
        && f[i].recycle_origin_path is None && f[i].file_type == "folder"@ by {
        if i < e.len() {
            assert(f[i] == f.subrange(0, e.len() as int)[i]);
            if i < d.len() {
                assert(e[i] == e.subrange(0, d.len() as int)[i]);
                if i < c.len() {
                    assert(d[i] == d.subrange(0, c.len() as int)[i]);
                    if i < b.len() {
                        assert(c[i] == c.subrange(0, b.len() as int)[i]);
                        if i < a.len() {
                            assert(b[i] == b.subrange(0, a.len() as int)[i]);
                        }
                    }
                }
            }
        }
    }
}

/// Creating a chain of folders removes and changes no row, and keeps the
/// keys unique.
pub proof fn lemma_chain_keeps_rows(
    rows: Seq<SavedItemView>,
    owner: Seq<char>,
    parent: Seq<char>,
    segments: Seq<Seq<char>>,
    date: Seq<char>,
)
    ensures
        rows_stay(rows, ensured_chain(rows, owner, parent, segments, date)),
        keys_unique(rows) ==> keys_unique(ensured_chain(rows, owner, parent, segments, date)),
    decreases segments.len(),
{
    if segments.len() > 0 {
        let name = trim(segments[0]);
        if name.len() == 0 {
            lemma_chain_keeps_rows(rows, owner, parent, segments.drop_first(), date);
        } else {
            let created = if folder_exists(rows, owner, parent, name) {
                rows
            } else {
                with_new_folder(rows, owner, parent, name, date)
            };
            lemma_with_new_folder(rows, owner, parent, name, date);
            assert(rows =~= rows.subrange(0, rows.len() as int));
            let next = crate::engine::child_path(parent, name);
            lemma_chain_keeps_rows(created, owner, next, segments.drop_first(), date);
            let after = ensured_chain(created, owner, next, segments.drop_first(), date);
            assert(rows =~= after.subrange(0, rows.len() as int)) by {
                assert forall|i: int| 0 <= i < rows.len() implies rows[i] == after[i] by {
                    assert(created[i] == created.subrange(0, rows.len() as int)[i]);
                    assert(after[i] == after.subrange(0, created.len() as int)[i]);
                }
            }
        }
    } else {
        assert(rows =~= rows.subrange(0, rows.len() as int));
    }
}

/// Creating the folders on the way to a destination removes and changes no
/// row, and keeps the keys unique.
pub proof fn lemma_hierarchy_keeps_rows(
    rows: Seq<SavedItemView>,
    owner: Seq<char>,
    destination: Seq<char>,
    date: Seq<char>,
)
    ensures
        rows_stay(rows, ensured_hierarchy(rows, owner, destination, date)),
        keys_unique(rows) ==> keys_unique(ensured_hierarchy(rows, owner, destination, date)),
{
    assert(rows =~= rows.subrange(0, rows.len() as int));
    let target = normalize(destination);
    if target != saved_root() {
        let relative = trim(strip_prefix_repeated(target, "/Home/"@));
        if relative.len() > 0 {
            lemma_chain_keeps_rows(rows, owner, saved_root(), split_on(relative, '/'), date);
        }
    }
}

/// A folder that exists still exists after rows were added.
pub proof fn lemma_folder_stays(
    rows: Seq<SavedItemView>,
    after: Seq<SavedItemView>,
    owner: Seq<char>,
    parent: Seq<char>,
    name: Seq<char>,
)
    requires
        rows_stay(rows, after),
        folder_exists(rows, owner, parent, name),
    ensures
        folder_exists(after, owner, parent, name),
{
    let sel = SelectorView::Folder { parent, name };
    lemma_nothing_selected(rows, owner, sel);
    lemma_nothing_selected(after, owner, sel);
    let i = choose|i: int| 0 <= i < rows.len() && selects(sel, owner, #[trigger] rows[i]);
    assert(after[i] == after.subrange(0, rows.len() as int)[i]);
    assert(selects(sel, owner, after[i]));
}

/// The folders along a chain all exist after the missing ones were
/// created.
pub proof fn lemma_chain_is_complete(
    rows: Seq<SavedItemView>,
    owner: Seq<char>,
    parent: Seq<char>,
    segments: Seq<Seq<char>>,
    date: Seq<char>,
)
    ensures
        chain_complete(ensured_chain(rows, owner, parent, segments, date), owner, parent, segments),
    decreases segments.len(),
{
    if segments.len() > 0 {
        let name = trim(segments[0]);
        if name.len() == 0 {
            lemma_chain_is_complete(rows, owner, parent, segments.drop_first(), date);
        } else {
            let next = crate::engine::child_path(parent, name);
            let rest = segments.drop_first();
            let created = if folder_exists(rows, owner, parent, name) {
                rows
            } else {
                with_new_folder(rows, owner, parent, name, date)
            };
            lemma_with_new_folder(rows, owner, parent, name, date);
            lemma_chain_is_complete(created, owner, next, rest, date);
            let after = ensured_chain(created, owner, next, rest, date);
            lemma_chain_keeps_rows(created, owner, next, rest, date);
            lemma_folder_stays(created, after, owner, parent, name);
        }
    }
}

/// Every folder on the way to a destination exists after the missing ones
/// were created: what is restored or moved comes to lie in a directory that
/// the tree shows.
pub proof fn lemma_hierarchy_is_complete(
    rows: Seq<SavedItemView>,
    owner: Seq<char>,
    destination: Seq<char>,
    date: Seq<char>,
)
    ensures
        hierarchy_complete(ensured_hierarchy(rows, owner, destination, date), owner, destination),
{
    let target = normalize(destination);
    if target != saved_root() {
        let relative = trim(strip_prefix_repeated(target, "/Home/"@));
        if relative.len() > 0 {
            lemma_chain_is_complete(rows, owner, saved_root(), split_on(relative, '/'), date);
        }
    }
}

/// Taking a key out keeps every row that has another key.
pub proof fn lemma_other_keys_stay(rows: Seq<SavedItemView>, key: Seq<char>, i: int)
    requires
        0 <= i < rows.len(),
        rows[i].file_unique_id != key,
    ensures
        without_key(rows, key).contains(rows[i]),
    decreases rows.len(),
{
    let out = without_key(rows, key);
    if i == rows.len() - 1 {
        assert(out.last() == rows[i]);
    } else {
        lemma_other_keys_stay(rows.drop_last(), key, i);
        let kept = without_key(rows.drop_last(), key);
        let j = choose|j: int| 0 <= j < kept.len() && kept[j] == rows.drop_last()[i];
        if rows.last().file_unique_id != key {
            assert(out[j] == kept[j]);
        }
    }
}

/// Creating a folder removes no other item: every row that was in the
/// table and is not the folder itself is in the table afterwards, as it
/// was. A folder that was moved or renamed away from the place and name of
/// the new folder is such a row.
pub proof fn lemma_create_keeps_other_rows(
    rows: Seq<SavedItemView>,
    owner: Seq<char>,
    parent_path: Seq<char>,
    folder_name: Seq<char>,
    date: Seq<char>,
    i: int,
)
    requires
        0 <= i < rows.len(),
        !same_folder(rows[i], created_folder(owner, parent_path, folder_name, date)),
    ensures
        create_folder_outcome(rows, owner, parent_path, folder_name, date).rows.contains(rows[i]),
{
    let outcome = create_folder_outcome(rows, owner, parent_path, folder_name, date);
    if trim(folder_name).len() == 0 {
        assert(outcome.rows[i] == rows[i]);
    } else {
        let ensured = ensured_default_folders(rows, owner, date);
        lemma_default_folders_keep_rows(rows, owner, date);
        assert(ensured[i] == ensured.subrange(0, rows.len() as int)[i]);
        let row = created_folder(owner, parent_path, folder_name, date);
        if !crate::engine::writes_folder(ensured, row) {
            assert(outcome.rows[i] == rows[i]);
        } else {
            assert(ensured[i].file_unique_id != row.file_unique_id);
            lemma_other_keys_stay(ensured, row.file_unique_id, i);
            let kept = without_key(ensured, row.file_unique_id);
            let j = choose|j: int| 0 <= j < kept.len() && kept[j] == ensured[i];
            assert(upsert_row(ensured, row)[j] == rows[i]);
        }
    }
}

/// A folder that was moved took everything along: after a folder went
/// from one path to another that does not hold the first, no row of the
/// owner has a path at the first or below it; every row that lay there, but
/// for the folder's own, lies at the same place below the new path; and the
/// rows of other owners are as they were.
pub proof fn lemma_moved_folder_leaves_nothing_behind(
    rows: Seq<SavedItemView>,
    owner: Seq<char>,
    source_path: Seq<char>,
    destination_path: Seq<char>,
    date: Seq<char>,
)
    requires
        message_ref(source_path) is None,
        move_outcome(rows, owner, source_path, destination_path, date).result is Ok,
        virtual_to_saved(source_path) != virtual_to_saved(destination_path),
        !in_subtree(
            virtual_to_saved(source_path).unwrap(),
            virtual_to_saved(destination_path).unwrap(),
        ),
    ensures
        ({
            let after = move_outcome(rows, owner, source_path, destination_path, date).rows;
            let source = virtual_to_saved(source_path).unwrap();
            let destination = virtual_to_saved(destination_path).unwrap();
            let (parent, name) = split_parent_and_name(source).unwrap();
            let folder = SelectorView::Folder { parent, name };
            &&& rows.len() <= after.len()
            &&& forall|i: int|
                0 <= i < after.len() && (#[trigger] after[i]).owner_id == owner ==> !in_subtree(
                    after[i].file_path,
                    source,
                )
            &&& forall|i: int|
                0 <= i < rows.len() && selects(
                    SelectorView::Subtree { folder: source },
                    owner,
                    #[trigger] rows[i],
                ) && !selects(folder, owner, rows[i]) ==> after[i].file_path == rewrite_path(
                    rows[i].file_path,
                    source,
                    destination,
                )
            &&& forall|i: int|
                0 <= i < rows.len() && (#[trigger] rows[i]).owner_id != owner ==> after[i]
                    == rows[i]
        }),
{
    let source = virtual_to_saved(source_path).unwrap();
    let destination = virtual_to_saved(destination_path).unwrap();
    let ensured = ensured_default_folders(rows, owner, date);
    let (parent, name) = split_parent_and_name(source).unwrap();
    let (new_parent, new_name) = split_parent_and_name(destination).unwrap();
    let made = ensured_hierarchy(ensured, owner, new_parent, date);
    lemma_default_folders_keep_rows(rows, owner, date);
    lemma_hierarchy_keeps_rows(ensured, owner, new_parent, date);
    assert forall|i: int| 0 <= i < rows.len() implies made[i] == #[trigger] rows[i] by {
        assert(ensured[i] == ensured.subrange(0, rows.len() as int)[i]);
        assert(made[i] == made.subrange(0, ensured.len() as int)[i]);
    }
    lemma_place_clears_source(
        made,
        owner,
        parent,
        name,
        source,
        new_parent,
        new_name,
        destination,
        date,
    );
}

} // verus!

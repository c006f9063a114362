//! What holds of the table of saved items: a key names one row, whatever
//! is written, changed or removed; and where a subtree goes, nothing of it
//! stays behind.

use crate::model::SavedItemView;
use crate::paths::in_subtree;
use crate::store::{delete_rows, keys_unique, rewrite_path, selects, update_rows, upsert_row, without_key, ChangeView, SelectorView};
use crate::tree::{moved_folder_tree, placed_folder_tree, relocated_subtree, renamed_folder_tree};
use vstd::prelude::*;

verus! {

/// How many rows have the key `key`.
pub open spec fn count_key(rows: Seq<SavedItemView>, key: Seq<char>) -> nat
    decreases rows.len(),
{
    if rows.len() == 0 {
        0
    } else {
        count_key(rows.drop_last(), key) + if rows.last().file_unique_id == key {
            1nat
        } else {
            0nat
        }
    }
}

/// Whether every row of `part` is a row of `whole`.
pub open spec fn rows_among(part: Seq<SavedItemView>, whole: Seq<SavedItemView>) -> bool {
    forall|i: int| 0 <= i < part.len() ==> whole.contains(#[trigger] part[i])
}

/// Taking a key out leaves no row with that key, leaves only rows that
/// were there, and leaves the keys unique where they were.
pub proof fn lemma_without_key(rows: Seq<SavedItemView>, key: Seq<char>)
    ensures
        count_key(without_key(rows, key), key) == 0,
        forall|i: int|
            0 <= i < without_key(rows, key).len() ==> (#[trigger] without_key(
                rows,
                key,
            )[i]).file_unique_id != key,
        rows_among(without_key(rows, key), rows),
        keys_unique(rows) ==> keys_unique(without_key(rows, key)),
    decreases rows.len(),
{
    if rows.len() > 0 {
        let front = rows.drop_last();
        lemma_without_key(front, key);
        let kept = without_key(front, key);
        let out = without_key(rows, key);
        assert forall|i: int| 0 <= i < out.len() implies rows.contains(#[trigger] out[i]) by {
            if i < kept.len() {
                assert(front.contains(kept[i]));
                let j = choose|j: int| 0 <= j < front.len() && front[j] == kept[i];
                assert(rows[j] == kept[i]);
            } else {
                assert(rows[rows.len() - 1] == out[i]);
            }
        }
        if rows.last().file_unique_id != key {
            assert(out.drop_last() =~= kept);
            if keys_unique(rows) {
                assert(keys_unique(front)) by {
                    assert forall|i: int, j: int| 0 <= i < j < front.len() implies (
                    #[trigger] front[i]).file_unique_id != (#[trigger] front[j]).file_unique_id by {
                        assert(rows[i] == front[i] && rows[j] == front[j]);
                    }
                }
                assert forall|i: int, j: int| 0 <= i < j < out.len() implies (
                #[trigger] out[i]).file_unique_id != (#[trigger] out[j]).file_unique_id by {
                    if j < kept.len() {
                        assert(out[i] == kept[i] && out[j] == kept[j]);
                    } else {
                        assert(front.contains(kept[i]));
                        let k = choose|k: int| 0 <= k < front.len() && front[k] == kept[i];
                        assert(rows[k] == kept[i]);
                        assert(rows[rows.len() - 1] == out[j]);
                    }
                }
            }
        } else if keys_unique(rows) {
            assert(keys_unique(front)) by {
                assert forall|i: int, j: int| 0 <= i < j < front.len() implies (
                #[trigger] front[i]).file_unique_id != (#[trigger] front[j]).file_unique_id by {
                    assert(rows[i] == front[i] && rows[j] == front[j]);
                }
            }
        }
    }
}

/// Taking a key out of a table that does not hold it changes nothing.
pub proof fn lemma_without_absent_key(rows: Seq<SavedItemView>, key: Seq<char>)
    requires
        forall|i: int| 0 <= i < rows.len() ==> (#[trigger] rows[i]).file_unique_id != key,
    ensures
        without_key(rows, key) == rows,
    decreases rows.len(),
{
    if rows.len() > 0 {
        let front = rows.drop_last();
        assert forall|i: int| 0 <= i < front.len() implies (#[trigger] front[i]).file_unique_id
            != key by {
            assert(front[i] == rows[i]);
        }
        lemma_without_absent_key(front, key);
        assert(rows[rows.len() - 1].file_unique_id != key);
        assert(without_key(rows, key) =~= rows);
    }
}

/// Writing a row leaves exactly one row under its key, and leaves the keys
/// unique where they were.
pub proof fn lemma_upsert_keeps_one_row(rows: Seq<SavedItemView>, row: SavedItemView)
    ensures
        count_key(upsert_row(rows, row), row.file_unique_id) == 1,
        upsert_row(rows, row).last() == row,
        keys_unique(rows) ==> keys_unique(upsert_row(rows, row)),
{
    let key = row.file_unique_id;
    lemma_without_key(rows, key);
    let kept = without_key(rows, key);
    let out = upsert_row(rows, row);
    assert(out.drop_last() =~= kept);
    if keys_unique(rows) {
        assert forall|i: int, j: int| 0 <= i < j < out.len() implies (
        #[trigger] out[i]).file_unique_id != (#[trigger] out[j]).file_unique_id by {
            if j < kept.len() {
                assert(out[i] == kept[i] && out[j] == kept[j]);
            } else {
                assert(out[i] == kept[i]);
            }
        }
    }
}

/// Writing under one key twice is writing the second row alone: the row
/// that was written first is gone, and one row has the key.
pub proof fn lemma_upsert_replaces(rows: Seq<SavedItemView>, first: SavedItemView, second: SavedItemView)
    requires
        first.file_unique_id == second.file_unique_id,
    ensures
        upsert_row(upsert_row(rows, first), second) == upsert_row(rows, second),
{
    let key = first.file_unique_id;
    let kept = without_key(rows, key);
    let once = upsert_row(rows, first);
    assert(once.drop_last() =~= kept);
    assert(once.last() == first);
    lemma_without_key(rows, key);
    lemma_without_absent_key(kept, key);
    assert(without_key(once, key) == kept);
}

/// Writing the same row twice is writing it once.
pub proof fn lemma_upsert_idempotent(rows: Seq<SavedItemView>, row: SavedItemView)
    ensures
        upsert_row(upsert_row(rows, row), row) == upsert_row(rows, row),
{
    lemma_upsert_replaces(rows, row, row);
}

/// A statement changes no key and no owner, so it leaves the keys unique
/// where they were.
pub proof fn lemma_update_keeps_keys(
    rows: Seq<SavedItemView>,
    owner: Seq<char>,
    sel: SelectorView,
    change: ChangeView,
)
    ensures
        update_rows(rows, owner, sel, change).len() == rows.len(),
        forall|i: int|
            0 <= i < rows.len() ==> (#[trigger] update_rows(
                rows,
                owner,
                sel,
                change,
            )[i]).file_unique_id == rows[i].file_unique_id && update_rows(
                rows,
                owner,
                sel,
                change,
            )[i].owner_id == rows[i].owner_id,
        keys_unique(rows) ==> keys_unique(update_rows(rows, owner, sel, change)),
{
    let out = update_rows(rows, owner, sel, change);
    assert forall|i: int| 0 <= i < rows.len() implies (#[trigger] out[i]).file_unique_id
        == rows[i].file_unique_id && out[i].owner_id == rows[i].owner_id by {}
    if keys_unique(rows) {
        assert forall|i: int, j: int| 0 <= i < j < out.len() implies (
        #[trigger] out[i]).file_unique_id != (#[trigger] out[j]).file_unique_id by {
            assert(rows[i].file_unique_id != rows[j].file_unique_id);
        }
    }
}

/// Removing rows leaves only rows that were there, none that the selector
/// picks, and leaves the keys unique where they were.
pub proof fn lemma_delete_keeps_keys(rows: Seq<SavedItemView>, owner: Seq<char>, sel: SelectorView)
    ensures
        rows_among(delete_rows(rows, owner, sel), rows),
        forall|i: int|
            0 <= i < delete_rows(rows, owner, sel).len() ==> !selects(
                sel,
                owner,
                #[trigger] delete_rows(rows, owner, sel)[i],
            ),
        keys_unique(rows) ==> keys_unique(delete_rows(rows, owner, sel)),
    decreases rows.len(),
{
    if rows.len() > 0 {
        let front = rows.drop_last();
        lemma_delete_keeps_keys(front, owner, sel);
        let kept = delete_rows(front, owner, sel);
        let out = delete_rows(rows, owner, sel);
        assert forall|i: int| 0 <= i < out.len() implies rows.contains(#[trigger] out[i]) by {
            if i < kept.len() {
                assert(front.contains(kept[i]));
                let j = choose|j: int| 0 <= j < front.len() && front[j] == kept[i];
                assert(rows[j] == kept[i]);
            } else {
                assert(rows[rows.len() - 1] == out[i]);
            }
        }
        if keys_unique(rows) {
            assert(keys_unique(front)) by {
                assert forall|i: int, j: int| 0 <= i < j < front.len() implies (
                #[trigger] front[i]).file_unique_id != (#[trigger] front[j]).file_unique_id by {
                    assert(rows[i] == front[i] && rows[j] == front[j]);
                }
            }
            if !selects(sel, owner, rows.last()) {
                assert forall|i: int, j: int| 0 <= i < j < out.len() implies (
                #[trigger] out[i]).file_unique_id != (#[trigger] out[j]).file_unique_id by {
                    if j < kept.len() {
                        assert(out[i] == kept[i] && out[j] == kept[j]);
                    } else {
                        assert(front.contains(kept[i]));
                        let k = choose|k: int| 0 <= k < front.len() && front[k] == kept[i];
                        assert(rows[k] == kept[i]);
                        assert(rows[rows.len() - 1] == out[j]);
                    }
                }
            }
        }
    }
}

/// A path of a subtree leaves the subtree when it is rewritten, as long as
/// neither of source and destination lies in the other.
pub proof fn lemma_rewrite_leaves_subtree(path: Seq<char>, source: Seq<char>, destination: Seq<char>)
    requires
        in_subtree(path, source),
        !in_subtree(destination, source),
        !in_subtree(source, destination),
    ensures
        !in_subtree(rewrite_path(path, source, destination), source),
{
    let s = source;
    let d = destination;
    let rest = path.skip(s.len() as int);
    let q = rewrite_path(path, s, d);
    let slash = seq!['/'];
    if path == s {
        assert(rest =~= Seq::<char>::empty());
        assert(q =~= d);
    } else {
        assert((s + slash).is_prefix_of(path));
        assert(path[s.len() as int] == path.subrange(0, s.len() as int + 1)[s.len() as int]);
        assert(rest[0] == '/');
        assert(q == d + rest);
        if in_subtree(q, s) {
            if q == s {
                assert(s.subrange(0, d.len() as int + 1) =~= d + slash) by {
                    assert(s[d.len() as int] == rest[0]);
                }
                assert((d + slash).is_prefix_of(s));
            } else {
                assert((s + slash).is_prefix_of(q));
                let head = q.subrange(0, s.len() as int + 1);
                assert(head =~= s + slash);
                if d.len() >= s.len() + 1 {
                    assert(d.subrange(0, s.len() as int + 1) =~= s + slash) by {
                        assert forall|i: int| 0 <= i < s.len() + 1 implies d[i] == (s + slash)[i] by {
                            assert(d[i] == q[i]);
                            assert(q[i] == head[i]);
                        }
                    }
                    assert((s + slash).is_prefix_of(d));
                } else if d.len() == s.len() {
                    assert(d =~= s) by {
                        assert forall|i: int| 0 <= i < s.len() implies d[i] == s[i] by {
                            assert(d[i] == q[i]);
                            assert(q[i] == head[i]);
                        }
                    }
                } else {
                    assert(s.subrange(0, d.len() as int + 1) =~= d + slash) by {
                        assert forall|i: int| 0 <= i < d.len() + 1 implies s[i] == (d + slash)[i] by {
                            assert(s[i] == head[i]);
                            assert(head[i] == q[i]);
                        }
                    }
                    assert((d + slash).is_prefix_of(s));
                }
            }
        }
    }
}

/// Where a subtree goes, nothing stays behind: after the rows of the
/// subtree of `source` were relocated to `destination`, no row of the owner
/// has a path in the subtree of `source`, each row that was in it has the
/// rewritten path, and every other row is as it was. Neither of source and
/// destination may lie in the other.
pub proof fn lemma_relocation_clears_source(
    rows: Seq<SavedItemView>,
    owner: Seq<char>,
    source: Seq<char>,
    destination: Seq<char>,
    date: Seq<char>,
)
    requires
        !in_subtree(destination, source),
        !in_subtree(source, destination),
    ensures
        ({
            let after = relocated_subtree(rows, owner, source, destination, date);
            &&& after.len() == rows.len()
            &&& forall|i: int|
                0 <= i < after.len() && (#[trigger] after[i]).owner_id == owner ==> !in_subtree(
                    after[i].file_path,
                    source,
                )
            &&& forall|i: int|
                0 <= i < rows.len() && selects(
                    SelectorView::Subtree { folder: source },
                    owner,
                    #[trigger] rows[i],
                ) ==> after[i].file_path == rewrite_path(rows[i].file_path, source, destination)
            &&& forall|i: int|
                0 <= i < rows.len() && !selects(
                    SelectorView::Subtree { folder: source },
                    owner,
                    #[trigger] rows[i],
                ) ==> after[i] == rows[i]
        }),
{
    let after = relocated_subtree(rows, owner, source, destination, date);
    assert forall|i: int|
        0 <= i < after.len() && (#[trigger] after[i]).owner_id == owner implies !in_subtree(
        after[i].file_path,
        source,
    ) by {
        if selects(SelectorView::Subtree { folder: source }, owner, rows[i]) {
            lemma_rewrite_leaves_subtree(rows[i].file_path, source, destination);
        }
    }
}

/// Moving a folder clears its old place: after the folder `name` and its
/// subtree went from `source` to `destination`, no row of the owner has a
/// path in the subtree of `source`, and what lay at `source` and below lies
/// at `destination` and below. Neither of source and destination may lie in
/// the other.
pub proof fn lemma_move_clears_source(
    rows: Seq<SavedItemView>,
    owner: Seq<char>,
    source_parent: Seq<char>,
    name: Seq<char>,
    source: Seq<char>,
    destination_parent: Seq<char>,
    destination: Seq<char>,
    date: Seq<char>,
)
    requires
        !in_subtree(destination, source),
        !in_subtree(source, destination),
    ensures
        ({
            let after = moved_folder_tree(
                rows,
                owner,
                source_parent,
                name,
                source,
                destination_parent,
                destination,
                date,
            );
            let folder = SelectorView::Folder { parent: source_parent, name };
            &&& after.len() == rows.len()
            &&& forall|i: int|
                0 <= i < after.len() && (#[trigger] after[i]).owner_id == owner ==> !in_subtree(
                    after[i].file_path,
                    source,
                )
            &&& forall|i: int|
                0 <= i < rows.len() && selects(
                    SelectorView::Subtree { folder: source },
                    owner,
                    #[trigger] rows[i],
                ) && !selects(folder, owner, rows[i]) ==> after[i].file_path == rewrite_path(
                    rows[i].file_path,
                    source,
                    destination,
                )
            &&& forall|i: int|
                0 <= i < rows.len() && (#[trigger] rows[i]).owner_id != owner ==> after[i]
                    == rows[i]
        }),
{
    let folder = SelectorView::Folder { parent: source_parent, name };
    let moved = update_rows(
        rows,
        owner,
        folder,
        ChangeView {
            path: crate::store::PathChangeView::MoveTo { to: destination_parent },
            ..crate::tree::stamp(date)
        },
    );
    lemma_relocation_clears_source(moved, owner, source, destination, date);
    let after = relocated_subtree(moved, owner, source, destination, date);
    assert forall|i: int|
        0 <= i < rows.len() && selects(
            SelectorView::Subtree { folder: source },
            owner,
            #[trigger] rows[i],
        ) && !selects(folder, owner, rows[i]) implies after[i].file_path == rewrite_path(
        rows[i].file_path,
        source,
        destination,
    ) by {
        assert(moved[i] == rows[i]);
    }
    assert forall|i: int|
        0 <= i < rows.len() && (#[trigger] rows[i]).owner_id != owner implies after[i]
        == rows[i] by {
        assert(moved[i] == rows[i]);
        assert(!selects(SelectorView::Subtree { folder: source }, owner, moved[i]));
    }
}

/// Making a folder another folder clears its old place: after the folder
/// `name` became the folder `new_name` of `destination_parent` and its
/// subtree went from `source` to `destination`, no row of the owner has a
/// path in the subtree of `source`, and what lay at `source` and below lies
/// at `destination` and below. Neither of source and destination may lie in
/// the other.
pub proof fn lemma_place_clears_source(
    rows: Seq<SavedItemView>,
    owner: Seq<char>,
    source_parent: Seq<char>,
    name: Seq<char>,
    source: Seq<char>,
    destination_parent: Seq<char>,
    new_name: Seq<char>,
    destination: Seq<char>,
    date: Seq<char>,
)
    requires
        !in_subtree(destination, source),
        !in_subtree(source, destination),
    ensures
        ({
            let after = placed_folder_tree(
                rows,
                owner,
                source_parent,
                name,
                source,
                destination_parent,
                new_name,
                destination,
                date,
            );
            let folder = SelectorView::Folder { parent: source_parent, name };
            &&& after.len() == rows.len()
            &&& forall|i: int|
                0 <= i < after.len() && (#[trigger] after[i]).owner_id == owner ==> !in_subtree(
                    after[i].file_path,
                    source,
                )
            &&& forall|i: int|
                0 <= i < rows.len() && selects(
                    SelectorView::Subtree { folder: source },
                    owner,
                    #[trigger] rows[i],
                ) && !selects(folder, owner, rows[i]) ==> after[i].file_path == rewrite_path(
                    rows[i].file_path,
                    source,
                    destination,
                )
            &&& forall|i: int|
                0 <= i < rows.len() && (#[trigger] rows[i]).owner_id != owner ==> after[i]
                    == rows[i]
        }),
{
    let folder = SelectorView::Folder { parent: source_parent, name };
    let moved = update_rows(
        rows,
        owner,
        folder,
        ChangeView {
            path: crate::store::PathChangeView::MoveTo { to: destination_parent },
            name: Some(new_name),
            ..crate::tree::stamp(date)
        },
    );
    lemma_relocation_clears_source(moved, owner, source, destination, date);
    let after = relocated_subtree(moved, owner, source, destination, date);
    assert forall|i: int|
        0 <= i < rows.len() && selects(
            SelectorView::Subtree { folder: source },
            owner,
            #[trigger] rows[i],
        ) && !selects(folder, owner, rows[i]) implies after[i].file_path == rewrite_path(
        rows[i].file_path,
        source,
        destination,
    ) by {
        assert(moved[i] == rows[i]);
    }
    assert forall|i: int|
        0 <= i < rows.len() && (#[trigger] rows[i]).owner_id != owner implies after[i]
        == rows[i] by {
        assert(moved[i] == rows[i]);
        assert(!selects(SelectorView::Subtree { folder: source }, owner, moved[i]));
    }
}

/// Renaming a folder clears its old path: after the folder `current` got
/// the name `new_name` and its subtree went from `source` to `destination`,
/// no row of the owner has a path in the subtree of `source`, what lay at
/// `source` and below lies at `destination` and below, and the rows of other
/// owners are as they were. Neither of source and destination may lie in the
/// other.
pub proof fn lemma_rename_clears_source(
    rows: Seq<SavedItemView>,
    owner: Seq<char>,
    parent: Seq<char>,
    current: Seq<char>,
    new_name: Seq<char>,
    source: Seq<char>,
    destination: Seq<char>,
    date: Seq<char>,
)
    requires
        !in_subtree(destination, source),
        !in_subtree(source, destination),
    ensures
        ({
            let after = renamed_folder_tree(
                rows,
                owner,
                parent,
                current,
                new_name,
                source,
                destination,
                date,
            );
            &&& after.len() == rows.len()
            &&& forall|i: int|
                0 <= i < after.len() && (#[trigger] after[i]).owner_id == owner ==> !in_subtree(
                    after[i].file_path,
                    source,
                )
            &&& forall|i: int|
                0 <= i < rows.len() && selects(
                    SelectorView::Subtree { folder: source },
                    owner,
                    #[trigger] rows[i],
                ) ==> after[i].file_path == rewrite_path(rows[i].file_path, source, destination)
            &&& forall|i: int|
                0 <= i < rows.len() && selects(
                    SelectorView::Folder { parent, name: current },
                    owner,
                    #[trigger] rows[i],
                ) ==> after[i].file_name == new_name
            &&& forall|i: int|
                0 <= i < rows.len() && (#[trigger] rows[i]).owner_id != owner ==> after[i]
                    == rows[i]
        }),
{
    let folder = SelectorView::Folder { parent, name: current };
    let renamed = update_rows(
        rows,
        owner,
        folder,
        ChangeView { name: Some(new_name), ..crate::tree::stamp(date) },
    );
    lemma_relocation_clears_source(renamed, owner, source, destination, date);
    let after = relocated_subtree(renamed, owner, source, destination, date);
    assert forall|i: int|
        0 <= i < rows.len() && selects(
            SelectorView::Subtree { folder: source },
            owner,
            #[trigger] rows[i],
        ) implies after[i].file_path == rewrite_path(rows[i].file_path, source, destination) by {
        assert(renamed[i].file_path == rows[i].file_path);
        assert(selects(SelectorView::Subtree { folder: source }, owner, renamed[i]));
    }
    assert forall|i: int|
        0 <= i < rows.len() && selects(folder, owner, #[trigger] rows[i]) implies after[i].file_name
        == new_name by {
        assert(renamed[i].file_name == new_name);
    }
    assert forall|i: int|
        0 <= i < rows.len() && (#[trigger] rows[i]).owner_id != owner implies after[i]
        == rows[i] by {
        assert(renamed[i] == rows[i]);
        assert(!selects(SelectorView::Subtree { folder: source }, owner, renamed[i]));
    }
}

} // verus!

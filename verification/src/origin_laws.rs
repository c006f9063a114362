//! What a row remembers of where it came from: an origin exactly while it
//! lies in the recycle bin, and never an origin inside the bin.

use crate::engine::{
    child_path, ensured_default_folders, ensured_hierarchy, folder_exists, folder_row, key_taken,
    recycle_outcome, restore_outcome, restore_target, with_folder,
};
use crate::folder_laws::lemma_bin;
use crate::model::SavedItemView;
use crate::path_laws::{lemma_normalize_shape, lemma_root};
use crate::paths::{below_recycle_bin, in_recycle_bin, in_subtree, message_ref, recycle_bin, saved_root, split_parent_and_name, virtual_to_saved};
use crate::store::{
    rewrite_path, selects, update_rows, upsert_row, without_key, ChangeView, OriginChange,
    PathChangeView, SelectorView,
};
use crate::text::{strip_leading, strip_trailing, trim};
use crate::tree::{
    file_location, folder_origin, recycled_file, recycled_folder_tree, relocated_subtree,
    restored_file, restored_folder_tree, stamp,
};
use vstd::prelude::*;

verus! {

/// Whether a row remembers an origin exactly while it lies in the recycle
/// bin, and an origin that lies outside the bin.
pub open spec fn remembers_rightly(row: SavedItemView) -> bool {
    &&& row.recycle_origin_path is Some <==> in_recycle_bin(row.file_path)
    &&& row.recycle_origin_path matches Some(origin) ==> !in_recycle_bin(origin)
}

/// Whether every row of the table remembers rightly.
pub open spec fn origins_consistent(rows: Seq<SavedItemView>) -> bool {
    forall|i: int| 0 <= i < rows.len() ==> remembers_rightly(#[trigger] rows[i])
}

/// Writing a row that remembers rightly leaves the table consistent.
pub proof fn lemma_upsert_keeps_origins(rows: Seq<SavedItemView>, row: SavedItemView)
    requires
        origins_consistent(rows),
        remembers_rightly(row),
    ensures
        origins_consistent(upsert_row(rows, row)),
{
    crate::store_laws::lemma_without_key(rows, row.file_unique_id);
    let kept = without_key(rows, row.file_unique_id);
    let out = upsert_row(rows, row);
    assert forall|i: int| 0 <= i < out.len() implies remembers_rightly(#[trigger] out[i]) by {
        if i < kept.len() {
            assert(out[i] == kept[i]);
            assert(rows.contains(kept[i]));
            let j = choose|j: int| 0 <= j < rows.len() && rows[j] == kept[i];
            assert(remembers_rightly(rows[j]));
        }
    }
}

/// The root lies outside the recycle bin, and the bin below no path but
/// the root.
pub proof fn lemma_bin_and_root()
    ensures
        !in_recycle_bin(saved_root()),
        in_recycle_bin(recycle_bin()),
        forall|path: Seq<char>|
            saved_root().is_prefix_of(path) && path != saved_root() && path != recycle_bin()
                ==> !#[trigger] in_subtree(recycle_bin(), path),
{
    lemma_root();
    lemma_bin();
    let root = saved_root();
    let bin = recycle_bin();
    let slash = seq!['/'];
    assert forall|path: Seq<char>|
        root.is_prefix_of(path) && path != root && path != bin implies !#[trigger] in_subtree(
        bin,
        path,
    ) by {
        if (path + slash).is_prefix_of(bin) {
            let n = path.len() as int;
            let head = bin.subrange(0, n + 1);
            assert(head =~= path + slash);
            assert(head[n] == '/');
            assert(bin[n] == '/');
            // the bin holds a slash at its start and behind the root alone
            assert(n == 5);
            assert(path =~= root) by {
                assert(path.subrange(0, 5) =~= root);
            }
        }
    }
}

/// Writing a folder outside the bin leaves the table consistent.
pub proof fn lemma_with_folder_keeps_origins(
    rows: Seq<SavedItemView>,
    owner: Seq<char>,
    parent: Seq<char>,
    name: Seq<char>,
    date: Seq<char>,
)
    requires
        origins_consistent(rows),
        !in_recycle_bin(parent),
    ensures
        origins_consistent(with_folder(rows, owner, parent, name, date)),
{
    let key = crate::paths::folder_unique_id(owner, parent, name);
    if !key_taken(rows, key) {
        lemma_upsert_keeps_origins(rows, folder_row(owner, parent, name, key, date));
    }
}

/// Writing the default folders leaves the table consistent.
pub proof fn lemma_default_folders_keep_origins(
    rows: Seq<SavedItemView>,
    owner: Seq<char>,
    date: Seq<char>,
)
    requires
        origins_consistent(rows),
    ensures
        origins_consistent(ensured_default_folders(rows, owner, date)),
{
    lemma_bin_and_root();
    let root = saved_root();
    let a = with_folder(rows, owner, root, "Images"@, date);
    lemma_with_folder_keeps_origins(rows, owner, root, "Images"@, date);
    let b = with_folder(a, owner, root, "Videos"@, date);
    lemma_with_folder_keeps_origins(a, owner, root, "Videos"@, date);
    let c = with_folder(b, owner, root, "Audios"@, date);
    lemma_with_folder_keeps_origins(b, owner, root, "Audios"@, date);
    let d = with_folder(c, owner, root, "Documents"@, date);
    lemma_with_folder_keeps_origins(c, owner, root, "Documents"@, date);
    let e = with_folder(d, owner, root, "Notes"@, date);
    lemma_with_folder_keeps_origins(d, owner, root, "Notes"@, date);
    lemma_with_folder_keeps_origins(e, owner, root, "Recycle Bin"@, date);
}

/// A path below a folder that lies in the bin lies in the bin.
pub proof fn lemma_below_the_bin(path: Seq<char>, folder: Seq<char>)
    requires
        in_subtree(path, folder),
        in_recycle_bin(folder),
    ensures
        in_recycle_bin(path),
{
    let bin = recycle_bin();
    let slash = seq!['/'];
    if path != folder {
        let head = path.subrange(0, folder.len() as int + 1);
        assert(head =~= folder + slash);
        if folder == bin {
        } else {
            let front = folder.subrange(0, bin.len() as int + 1);
            assert(front =~= bin + slash);
            assert(path.subrange(0, bin.len() as int + 1) =~= bin + slash) by {
                assert forall|i: int| 0 <= i < bin.len() + 1 implies path[i] == (bin + slash)[i] by {
                    assert(path[i] == head[i]);
                    assert(head[i] == folder[i]);
                    assert(folder[i] == front[i]);
                }
            }
        }
    }
}

/// A path below a folder lies outside the bin, as long as the folder lies
/// outside the bin and the bin not below the folder.
pub proof fn lemma_outside_the_bin(path: Seq<char>, folder: Seq<char>)
    requires
        in_subtree(path, folder),
        !in_recycle_bin(folder),
        !in_subtree(recycle_bin(), folder),
    ensures
        !in_recycle_bin(path),
{
    let bin = recycle_bin();
    let slash = seq!['/'];
    if path != folder && in_recycle_bin(path) {
        let head = path.subrange(0, folder.len() as int + 1);
        assert(head =~= folder + slash);
        if path == bin {
            assert(bin.subrange(0, folder.len() as int + 1) =~= folder + slash);
        } else {
            let front = path.subrange(0, bin.len() as int + 1);
            assert(front =~= bin + slash);
            if folder.len() < bin.len() {
                assert(bin.subrange(0, folder.len() as int + 1) =~= folder + slash) by {
                    assert forall|i: int| 0 <= i < folder.len() + 1 implies bin[i] == (folder
                        + slash)[i] by {
                        assert(bin[i] == front[i]);
                        assert(front[i] == path[i]);
                        assert(path[i] == head[i]);
                    }
                }
            } else if folder.len() == bin.len() {
                assert(folder =~= bin) by {
                    assert forall|i: int| 0 <= i < bin.len() implies folder[i] == bin[i] by {
                        assert(bin[i] == front[i]);
                        assert(front[i] == path[i]);
                        assert(path[i] == head[i]);
                    }
                }
            } else {
                assert(folder.subrange(0, bin.len() as int + 1) =~= bin + slash) by {
                    assert forall|i: int| 0 <= i < bin.len() + 1 implies folder[i] == (bin
                        + slash)[i] by {
                        assert(folder[i] == head[i]);
                        assert(head[i] == path[i]);
                        assert(path[i] == front[i]);
                    }
                }
            }
        }
    }
}

/// Recycling the files of a message keeps the table consistent, wherever
/// the files lay.
pub proof fn lemma_recycled_file_keeps_origins(
    rows: Seq<SavedItemView>,
    owner: Seq<char>,
    message_id: i32,
    date: Seq<char>,
)
    requires
        origins_consistent(rows),
    ensures
        origins_consistent(recycled_file(rows, owner, message_id, recycle_bin(), date)),
{
    lemma_bin_and_root();
    let out = recycled_file(rows, owner, message_id, recycle_bin(), date);
    assert forall|i: int| 0 <= i < out.len() implies remembers_rightly(#[trigger] out[i]) by {
        assert(remembers_rightly(rows[i]));
    }
}

/// Restoring the files of a message to a directory outside the bin keeps
/// the table consistent.
pub proof fn lemma_restored_file_keeps_origins(
    rows: Seq<SavedItemView>,
    owner: Seq<char>,
    message_id: i32,
    destination: Seq<char>,
    date: Seq<char>,
)
    requires
        origins_consistent(rows),
        !in_recycle_bin(destination),
    ensures
        origins_consistent(restored_file(rows, owner, message_id, destination, date)),
{
    let out = restored_file(rows, owner, message_id, destination, date);
    assert forall|i: int| 0 <= i < out.len() implies remembers_rightly(#[trigger] out[i]) by {
        assert(remembers_rightly(rows[i]));
    }
}

/// Recycling a folder tree keeps the table consistent: every row of the
/// tree lies in the bin afterwards and remembers a directory outside it. The
/// folder lies in `parent`, outside the bin; its full path `source` lies
/// outside the bin and the bin not below it; and `recycled` lies in the bin.
pub proof fn lemma_recycled_tree_keeps_origins(
    rows: Seq<SavedItemView>,
    owner: Seq<char>,
    parent: Seq<char>,
    name: Seq<char>,
    source: Seq<char>,
    recycled: Seq<char>,
    date: Seq<char>,
)
    requires
        origins_consistent(rows),
        !in_recycle_bin(parent),
        !in_subtree(parent, source),
        !in_recycle_bin(source),
        !in_subtree(recycle_bin(), source),
        in_recycle_bin(recycled),
    ensures
        origins_consistent(
            recycled_folder_tree(rows, owner, parent, name, source, recycle_bin(), recycled, date),
        ),
{
    lemma_bin_and_root();
    let bin = recycle_bin();
    let folder = SelectorView::Folder { parent, name };
    let subtree = SelectorView::Subtree { folder: source };
    let mark = ChangeView { origin: OriginChange::Mark, ..stamp(date) };
    let to_bin = ChangeView { path: PathChangeView::MoveTo { to: bin }, ..stamp(date) };
    let a = update_rows(rows, owner, folder, mark);
    let b = update_rows(a, owner, subtree, mark);
    let c = update_rows(b, owner, folder, to_bin);
    let out = relocated_subtree(c, owner, source, recycled, date);
    assert forall|i: int| 0 <= i < out.len() implies remembers_rightly(#[trigger] out[i]) by {
        let row = rows[i];
        assert(remembers_rightly(row));
        if selects(folder, owner, row) {
            assert(!selects(subtree, owner, row));
            assert(b[i] == a[i]);
            assert(c[i].file_path == bin);
            assert(out[i] == c[i]);
        } else if selects(subtree, owner, row) {
            lemma_outside_the_bin(row.file_path, source);
            assert(a[i] == row);
            assert(c[i] == b[i]);
            crate::recycle_laws::lemma_rewrite_round_trip(row.file_path, source, recycled);
            lemma_below_the_bin(rewrite_path(row.file_path, source, recycled), recycled);
        } else {
            assert(a[i] == row && b[i] == row && c[i] == row && out[i] == row);
        }
    }
}

/// Restoring a folder tree keeps the table consistent: every row of the
/// tree lies outside the bin afterwards and remembers nothing. The folder
/// goes into `parent`, outside the bin and outside `recycled`; its path there
/// is `destination`, outside the bin and with the bin not below it.
pub proof fn lemma_restored_tree_keeps_origins(
    rows: Seq<SavedItemView>,
    owner: Seq<char>,
    bin_parent: Seq<char>,
    name: Seq<char>,
    recycled: Seq<char>,
    parent: Seq<char>,
    destination: Seq<char>,
    date: Seq<char>,
)
    requires
        origins_consistent(rows),
        !in_recycle_bin(parent),
        !in_subtree(parent, recycled),
        !in_subtree(bin_parent, recycled),
        !in_recycle_bin(destination),
        !in_subtree(recycle_bin(), destination),
    ensures
        origins_consistent(
            restored_folder_tree(
                rows,
                owner,
                bin_parent,
                name,
                recycled,
                parent,
                destination,
                date,
            ),
        ),
{
    crate::folder_laws::lemma_restore_row_by_row(
        rows,
        owner,
        bin_parent,
        name,
        recycled,
        parent,
        destination,
        date,
    );
    let out = restored_folder_tree(
        rows,
        owner,
        bin_parent,
        name,
        recycled,
        parent,
        destination,
        date,
    );
    assert forall|i: int| 0 <= i < out.len() implies remembers_rightly(#[trigger] out[i]) by {
        let row = rows[i];
        assert(remembers_rightly(row));
        if selects(SelectorView::Subtree { folder: recycled }, owner, row) {
            crate::recycle_laws::lemma_rewrite_round_trip(row.file_path, recycled, destination);
            lemma_outside_the_bin(rewrite_path(row.file_path, recycled, destination), destination);
        }
    }
}

/// The saved path that a virtual path names is canonical: it starts with
/// the root and holds no backslash.
pub proof fn lemma_saved_path_shape(path: Seq<char>)
    requires
        virtual_to_saved(path) is Some,
    ensures
        saved_root().is_prefix_of(virtual_to_saved(path)->0),
        crate::path_laws::free_of(virtual_to_saved(path)->0, '\\'),
{
    let t = trim(path);
    let scheme = crate::paths::saved_scheme();
    if t == scheme || (scheme + seq!['/']).is_prefix_of(t) {
        lemma_normalize_shape(
            saved_root() + seq!['/'] + strip_leading(t.skip(scheme.len() as int), '/'),
        );
    } else {
        lemma_normalize_shape(t);
    }
}

/// Recycling keeps the table consistent: whatever is recycled, and whether
/// it is recycled or refused, every row remembers an origin exactly while it
/// lies in the bin.
pub proof fn lemma_recycle_keeps_origins(
    rows: Seq<SavedItemView>,
    owner: Seq<char>,
    source_path: Seq<char>,
    date: Seq<char>,
)
    requires
        origins_consistent(rows),
    ensures
        origins_consistent(recycle_outcome(rows, owner, source_path, date).rows),
{
    lemma_bin_and_root();
    lemma_root();
    lemma_bin();
    let bin = recycle_bin();
    let ensured = ensured_default_folders(rows, owner, date);
    lemma_default_folders_keep_origins(rows, owner, date);
    match message_ref(source_path) {
        Some(message_id) => {
            lemma_recycled_file_keeps_origins(ensured, owner, message_id, date);
        },
        None => {
            match virtual_to_saved(source_path) {
                Some(source) => {
                    if source != saved_root() && !in_recycle_bin(source) {
                        match split_parent_and_name(source) {
                            Some((parent, name)) => {
                                lemma_saved_path_shape(source_path);
                                lemma_saved_path_shape(source_path);
                                crate::path_laws::lemma_split_parent(source);
                                let slash = seq!['/'];
                                assert(!in_recycle_bin(parent)) by {
                                    if parent != saved_root() && in_recycle_bin(parent) {
                                        let front = source.subrange(0, parent.len() as int + 1);
                                        assert(front =~= parent + slash);
                                        if parent == bin {
                                        } else {
                                            let inner = parent.subrange(0, bin.len() as int + 1);
                                            assert(inner =~= bin + slash);
                                            assert(source.subrange(0, bin.len() as int + 1) =~= bin
                                                + slash) by {
                                                assert forall|i: int|
                                                    0 <= i < bin.len() + 1 implies source[i] == (bin
                                                    + slash)[i] by {
                                                    assert(source[i] == front[i]);
                                                    assert(front[i] == parent[i]);
                                                    assert(parent[i] == inner[i]);
                                                }
                                            }
                                        }
                                    }
                                }
                                let recycled = crate::engine::child_path(bin, name);
                                assert(strip_trailing(bin, '/') == bin);
                                assert(in_recycle_bin(recycled)) by {
                                    assert(recycled.subrange(0, bin.len() as int + 1) =~= bin
                                        + slash);
                                }
                                lemma_recycled_tree_keeps_origins(
                                    ensured,
                                    owner,
                                    parent,
                                    name,
                                    source,
                                    recycled,
                                    date,
                                );
                            },
                            None => {},
                        }
                    }
                },
                None => {},
            }
        },
    }
}

/// Where restoring `source_path` puts what it restores: the directory that
/// the restored item remembers, or the root; nothing where the restoring is
/// refused.
pub open spec fn restore_destination(
    rows: Seq<SavedItemView>,
    owner: Seq<char>,
    source_path: Seq<char>,
) -> Option<Seq<char>> {
    match message_ref(source_path) {
        Some(message_id) => match file_location(rows, owner, message_id) {
            Some((path, origin)) => if in_recycle_bin(path) {
                Some(restore_target(origin))
            } else {
                None
            },
            None => None,
        },
        None => match virtual_to_saved(source_path) {
            Some(source) => if below_recycle_bin(source) {
                match split_parent_and_name(source) {
                    Some((parent, name)) => if folder_exists(rows, owner, parent, name) {
                        Some(restore_target(folder_origin(rows, owner, parent, name)))
                    } else {
                        None
                    },
                    None => None,
                }
            } else {
                None
            },
            None => None,
        },
    }
}

/// The first row that a selector picks is a row of the table.
proof fn lemma_first_selected(rows: Seq<SavedItemView>, owner: Seq<char>, sel: SelectorView)
    requires
        crate::store::select_rows(rows, owner, sel).len() > 0,
    ensures
        rows.contains(crate::store::select_rows(rows, owner, sel)[0]),
{
    crate::recycle_laws::lemma_select_members(rows, owner, sel);
}

/// Restoring keeps the rows consistent, as long as a restored folder comes
/// to lie outside the bin, with the bin not below it: whatever is restored,
/// and whether it is restored or refused, every row that was in the table
/// and every default folder remembers an origin exactly while it lies in the
/// bin. So what was restored remembers none and lies outside the bin. The
/// rows that are left out are the folders that were missing on the way to
/// the destination and were written.
pub proof fn lemma_restore_keeps_origins(
    rows: Seq<SavedItemView>,
    owner: Seq<char>,
    source_path: Seq<char>,
    date: Seq<char>,
)
    requires
        origins_consistent(rows),
        ({
            let ensured = ensured_default_folders(rows, owner, date);
            match restore_destination(ensured, owner, source_path) {
                Some(destination) => message_ref(source_path) is None ==> {
                    let name = split_parent_and_name(virtual_to_saved(source_path).unwrap()).unwrap().1;
                    &&& !in_recycle_bin(child_path(destination, name))
                    &&& !in_subtree(recycle_bin(), child_path(destination, name))
                },
                None => true,
            }
        }),
    ensures
        ({
            let ensured = ensured_default_folders(rows, owner, date);
            let after = restore_outcome(rows, owner, source_path, date).rows;
            &&& rows.len() <= ensured.len() <= after.len()
            &&& forall|i: int| 0 <= i < ensured.len() ==> remembers_rightly(#[trigger] after[i])
        }),
{
    lemma_bin_and_root();
    let bin = recycle_bin();
    let ensured = ensured_default_folders(rows, owner, date);
    lemma_default_folders_keep_origins(rows, owner, date);
    crate::engine_laws::lemma_default_folders_keep_rows(rows, owner, date);
    let after = restore_outcome(rows, owner, source_path, date).rows;
    match message_ref(source_path) {
        Some(message_id) => {
            match file_location(ensured, owner, message_id) {
                Some((path, origin)) => {
                    if in_recycle_bin(path) {
                        let sel = SelectorView::File { message_id };
                        lemma_first_selected(ensured, owner, sel);
                        let first = crate::store::select_rows(ensured, owner, sel)[0];
                        let i = choose|i: int| 0 <= i < ensured.len() && ensured[i] == first;
                        assert(remembers_rightly(ensured[i]));
                        let destination = restore_target(origin);
                        assert(!in_recycle_bin(destination));
                        lemma_restored_file_keeps_origins(
                            ensured,
                            owner,
                            message_id,
                            destination,
                            date,
                        );
                        let made = ensured_hierarchy(ensured, owner, destination, date);
                        crate::engine_laws::lemma_hierarchy_keeps_rows(
                            ensured,
                            owner,
                            destination,
                            date,
                        );
                        let alone = restored_file(ensured, owner, message_id, destination, date);
                        assert forall|k: int| 0 <= k < ensured.len() implies remembers_rightly(
                            #[trigger] after[k],
                        ) by {
                            assert(made[k] == made.subrange(0, ensured.len() as int)[k]);
                            assert(after[k] == alone[k]);
                            assert(remembers_rightly(alone[k]));
                        }
                    }
                },
                None => {},
            }
        },
        None => {
            match virtual_to_saved(source_path) {
                Some(source) => {
                    if below_recycle_bin(source) {
                        match split_parent_and_name(source) {
                            Some((parent, name)) => {
                                if folder_exists(ensured, owner, parent, name) {
                                    lemma_saved_path_shape(source_path);
                                    crate::path_laws::lemma_split_parent(source);
                                    let sel = SelectorView::Folder { parent, name };
                                    lemma_first_selected(ensured, owner, sel);
                                    let first = crate::store::select_rows(ensured, owner, sel)[0];
                                    let i = choose|i: int|
                                        0 <= i < ensured.len() && ensured[i] == first;
                                    assert(remembers_rightly(ensured[i]));
                                    let destination = restore_target(
                                        folder_origin(ensured, owner, parent, name),
                                    );
                                    assert(!in_recycle_bin(destination));
                                    assert(!in_subtree(destination, source)) by {
                                        if in_subtree(destination, source) {
                                            lemma_below_the_bin(destination, source);
                                        }
                                    }
                                    lemma_restored_tree_keeps_origins(
                                        ensured,
                                        owner,
                                        parent,
                                        name,
                                        source,
                                        destination,
                                        child_path(destination, name),
                                        date,
                                    );
                                    let made = ensured_hierarchy(ensured, owner, destination, date);
                                    crate::engine_laws::lemma_hierarchy_keeps_rows(
                                        ensured,
                                        owner,
                                        destination,
                                        date,
                                    );
                                    let alone = restored_folder_tree(
                                        ensured,
                                        owner,
                                        parent,
                                        name,
                                        source,
                                        destination,
                                        child_path(destination, name),
                                        date,
                                    );
                                    assert forall|k: int|
                                        0 <= k < ensured.len() implies remembers_rightly(
                                        #[trigger] after[k],
                                    ) by {
                                        assert(made[k] == made.subrange(0, ensured.len() as int)[k]);
                                        assert(after[k] == alone[k]);
                                        assert(remembers_rightly(alone[k]));
                                    }
                                }
                            },
                            None => {},
                        }
                    }
                },
                None => {},
            }
        },
    }
}

} // verus!

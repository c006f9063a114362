//! A folder that is recycled and restored by its virtual path is where it
//! was, row for row, with all that lies below it.

use crate::engine::{
    child_path, ensured_default_folders, ensured_hierarchy, folder_exists, recycle_outcome,
    restore_outcome, restore_target,
};
use crate::model::SavedItemView;
use crate::path_laws::{free_of, lemma_canonical_is_fixed, lemma_root, lemma_split_returns_parent_and_name, lemma_trim_fixed};
use crate::paths::{
    in_recycle_bin, in_subtree, message_ref, normalize, recycle_bin, saved_root,
    split_parent_and_name, virtual_to_saved,
};
use crate::recycle_laws::{
    in_tree, lemma_recycle_then_restore_tree, lemma_select_members, recycled_folder_row,
    recycled_row_below, restamped,
};
use crate::store::{rewrite_path, select_rows, selects, update_rows, ChangeView, OriginChange, PathChangeView, SelectorView};
use crate::store_laws::lemma_rewrite_leaves_subtree;
use crate::text::{is_whitespace, strip_trailing};
use crate::tree::{folder_origin, recycled_folder_tree, restored_folder_tree, stamp};
use vstd::prelude::*;

verus! {

/// Whether `name` can be the name of a folder that a path names: it is not
/// empty, has no white space around it and holds neither a slash nor a
/// backslash.
pub open spec fn is_plain_name(name: Seq<char>) -> bool {
    &&& name.len() > 0
    &&& !is_whitespace(name[0])
    &&& !is_whitespace(name.last())
    &&& free_of(name, '/')
    &&& free_of(name, '\\')
}

/// The recycle bin is `/Home/Recycle Bin`.
pub proof fn lemma_bin()
    ensures
        recycle_bin() == seq![
            '/',
            'H',
            'o',
            'm',
            'e',
            '/',
            'R',
            'e',
            'c',
            'y',
            'c',
            'l',
            'e',
            ' ',
            'B',
            'i',
            'n',
        ],
        recycle_bin().len() == 17,
        recycle_bin() == saved_root() + seq!['/'] + "Recycle Bin"@,
        "Recycle Bin"@.len() == 11,
        free_of("Recycle Bin"@, '/'),
        normalize(recycle_bin()) == recycle_bin(),
        normalize(saved_root()) == saved_root(),
{
    reveal_strlit("/Home/Recycle Bin");
    reveal_strlit("Recycle Bin");
    lemma_root();
    let bin = recycle_bin();
    assert(bin =~= seq![
        '/',
        'H',
        'o',
        'm',
        'e',
        '/',
        'R',
        'e',
        'c',
        'y',
        'c',
        'l',
        'e',
        ' ',
        'B',
        'i',
        'n',
    ]);
    assert(bin =~= saved_root() + seq!['/'] + "Recycle Bin"@);
    assert(bin.subrange(0, 5) =~= saved_root());
    assert(free_of(bin, '\\'));
    lemma_canonical_is_fixed(bin);
    assert(saved_root().subrange(0, 5) =~= saved_root());
    lemma_canonical_is_fixed(saved_root());
}

/// Whether `parent` can be the directory of a folder outside the bin: it
/// is canonical, that is, it starts with the root, holds no backslash and
/// ends neither in white space nor in a slash; and it lies outside the bin.
pub open spec fn is_plain_parent(parent: Seq<char>) -> bool {
    &&& saved_root().is_prefix_of(parent)
    &&& free_of(parent, '\\')
    &&& crate::path_laws::ends_clean(parent)
    &&& !in_recycle_bin(parent)
}

/// What holds of the paths of a folder `name` of the directory `parent`,
/// outside the bin and inside it.
pub proof fn lemma_folder_paths(parent: Seq<char>, name: Seq<char>)
    requires
        is_plain_parent(parent),
        is_plain_name(name),
        parent == saved_root() ==> name != "Recycle Bin"@,
    ensures
        ({
            let root = saved_root();
            let bin = recycle_bin();
            let source = parent + seq!['/'] + name;
            let recycled = bin + seq!['/'] + name;
            &&& message_ref(source) is None
            &&& virtual_to_saved(source) == Some(source)
            &&& source != root
            &&& !in_recycle_bin(source)
            &&& split_parent_and_name(source) == Some((parent, name))
            &&& child_path(parent, name) == source
            &&& child_path(bin, name) == recycled
            &&& message_ref(recycled) is None
            &&& virtual_to_saved(recycled) == Some(recycled)
            &&& in_recycle_bin(recycled)
            &&& split_parent_and_name(recycled) == Some((bin, name))
            &&& !in_subtree(recycled, source)
            &&& !in_subtree(source, recycled)
            &&& !in_subtree(root, source)
            &&& !in_subtree(root, recycled)
            &&& !in_subtree(parent, source)
            &&& !in_subtree(parent, recycled)
            &&& !in_subtree(bin, source)
            &&& !in_subtree(bin, recycled)
            &&& root != bin
            &&& normalize(parent) == parent
        }),
{
    let root = saved_root();
    let bin = recycle_bin();
    let slash = seq!['/'];
    let source = parent + slash + name;
    let recycled = bin + slash + name;
    let word = "Recycle Bin"@;
    let p = parent.len() as int;
    let n = name.len() as int;
    lemma_root();
    lemma_bin();
    reveal_strlit("tg://msg/");
    reveal_strlit("tg://saved");
    lemma_trim_fixed(name);
    lemma_canonical_is_fixed(parent);
    assert(forall|i: int| 0 <= i < 5 ==> parent[i] == #[trigger] parent.subrange(0, 5)[i]);
    assert(parent[0] == '/');
    // the two paths are canonical
    assert(source[0] == '/' && recycled[0] == '/');
    assert(source.last() == name.last() && recycled.last() == name.last());
    lemma_trim_fixed(source);
    lemma_trim_fixed(recycled);
    assert(source.subrange(0, 5) =~= root);
    assert(recycled.subrange(0, 5) =~= root);
    assert(free_of(source, '\\')) by {
        assert forall|i: int| 0 <= i < source.len() implies #[trigger] source[i] != '\\' by {
            if i < p {
                assert(source[i] == parent[i]);
            } else if i > p {
                assert(source[i] == name[i - p - 1]);
            }
        }
    }
    assert(free_of(recycled, '\\')) by {
        assert forall|i: int| 0 <= i < recycled.len() implies #[trigger] recycled[i] != '\\' by {
            if i > 17 {
                assert(recycled[i] == name[i - 18]);
            }
        }
    }
    lemma_canonical_is_fixed(source);
    lemma_canonical_is_fixed(recycled);
    // neither is a reference to a message or to the saved root
    assert(!"tg://msg/"@.is_prefix_of(source)) by {
        if "tg://msg/"@.is_prefix_of(source) {
            assert(source.subrange(0, 9)[0] == 't');
        }
    }
    assert(!"tg://msg/"@.is_prefix_of(recycled)) by {
        if "tg://msg/"@.is_prefix_of(recycled) {
            assert(recycled.subrange(0, 9)[0] == 't');
        }
    }
    assert(!"tg://saved"@.is_prefix_of(source)) by {
        if "tg://saved"@.is_prefix_of(source) {
            assert(source.subrange(0, 10)[0] == 't');
        }
    }
    assert(!"tg://saved"@.is_prefix_of(recycled)) by {
        if "tg://saved"@.is_prefix_of(recycled) {
            assert(recycled.subrange(0, 10)[0] == 't');
        }
    }
    // how they split
    assert(strip_trailing(parent, '/') == parent);
    assert(strip_trailing(bin, '/') == bin);
    lemma_split_returns_parent_and_name(parent, name);
    lemma_split_returns_parent_and_name(bin, name);
    // a slash of the source stands in the parent or right behind it
    assert forall|i: int| 0 <= i < source.len() && source[i] == '/' implies i <= p by {
        if i > p {
            assert(source[i] == name[i - p - 1]);
        }
    }
    // a slash of the bin stands at its start or behind the root
    assert forall|i: int| 0 <= i < 17 && bin[i] == '/' implies i == 0 || i == 5 by {}
    // a slash of the recycled path stands in the bin or right behind it
    assert forall|i: int| 0 <= i < recycled.len() && recycled[i] == '/' implies i <= 17 by {
        if i > 17 {
            assert(recycled[i] == name[i - 18]);
        }
    }
    assert(source[p] == '/');
    assert(recycled[17] == '/');
    // the source is not the bin
    assert(source != bin) by {
        if source == bin {
            assert(bin[p] == '/');
            assert(p == 5);
            assert(parent =~= root);
            assert(name =~= word) by {
                assert(name.len() == 11);
                assert forall|i: int| 0 <= i < 11 implies name[i] == word[i] by {
                    assert(name[i] == source[i + 6]);
                    assert(word[i] == bin[i + 6]);
                }
            }
        }
    }
    // the source lies outside the bin
    assert(!(bin + slash).is_prefix_of(source)) by {
        if (bin + slash).is_prefix_of(source) {
            let head = source.subrange(0, 18);
            assert(head =~= bin + slash);
            assert(source[17] == head[17]);
            assert(17 <= p);
            if p == 17 {
                assert(parent =~= bin) by {
                    assert forall|i: int| 0 <= i < 17 implies parent[i] == bin[i] by {
                        assert(parent[i] == source[i]);
                        assert(source[i] == head[i]);
                    }
                }
            } else {
                assert(parent.subrange(0, 18) =~= bin + slash) by {
                    assert forall|i: int| 0 <= i < 18 implies parent[i] == (bin + slash)[i] by {
                        assert(parent[i] == source[i]);
                        assert(source[i] == head[i]);
                    }
                }
            }
        }
    }
    // the recycled path lies in the bin
    assert((bin + slash).is_prefix_of(recycled)) by {
        assert(recycled.subrange(0, 18) =~= bin + slash);
    }
    // the parent lies outside the recycled tree, as that lies in the bin
    assert(!in_subtree(parent, recycled)) by {
        if in_subtree(parent, recycled) {
            crate::origin_laws::lemma_below_the_bin(parent, recycled);
        }
    }
    // the recycled path is not below the source
    assert(!(source + slash).is_prefix_of(recycled)) by {
        if (source + slash).is_prefix_of(recycled) {
            let head = recycled.subrange(0, p + n + 2);
            assert(head =~= source + slash);
            assert(recycled[p + n + 1] == head[p + n + 1]);
            assert(recycled[p + n + 1] == '/');
            assert(recycled[p] == head[p]);
            assert(recycled[p] == '/');
            assert(p + n + 1 == 17);
            assert(bin[p] == recycled[p]);
            assert(p == 5);
            assert(parent =~= root) by {
                assert forall|i: int| 0 <= i < 5 implies parent[i] == root[i] by {}
            }
            assert(name =~= word) by {
                assert forall|i: int| 0 <= i < 11 implies name[i] == word[i] by {
                    assert(name[i] == source[i + 6]);
                    assert(source[i + 6] == head[i + 6]);
                    assert(head[i + 6] == recycled[i + 6]);
                    assert(word[i] == bin[i + 6]);
                }
            }
        }
    }
    // the source is not below the recycled path
    assert(!(recycled + slash).is_prefix_of(source)) by {
        if (recycled + slash).is_prefix_of(source) {
            let head = source.subrange(0, n + 19);
            assert(head =~= recycled + slash);
            assert(source[17] == head[17]);
            assert(source[n + 18] == head[n + 18]);
            assert(source[n + 18] == '/');
            assert(n + 18 <= p);
            assert(parent.subrange(0, 18) =~= bin + slash) by {
                assert forall|i: int| 0 <= i < 18 implies parent[i] == (bin + slash)[i] by {
                    assert(parent[i] == source[i]);
                    assert(source[i] == head[i]);
                    assert(head[i] == recycled[i]);
                }
            }
        }
    }
    assert(source != recycled) by {
        if source == recycled {
            assert(p == 17);
            assert(parent =~= bin) by {
                assert forall|i: int| 0 <= i < 17 implies parent[i] == bin[i] by {
                    assert(parent[i] == source[i]);
                }
            }
        }
    }
    // the bin is not below the source
    assert(!(source + slash).is_prefix_of(bin)) by {
        if (source + slash).is_prefix_of(bin) {
            let head = bin.subrange(0, p + n + 2);
            assert(head =~= source + slash);
            assert(head[p + n + 1] == '/');
            assert(bin[p + n + 1] == '/');
        }
    }
}

/// Whether the table picks no row with the selector.
pub proof fn lemma_nothing_selected(rows: Seq<SavedItemView>, owner: Seq<char>, sel: SelectorView)
    ensures
        select_rows(rows, owner, sel).len() == 0 <==> forall|i: int|
            0 <= i < rows.len() ==> !selects(sel, owner, #[trigger] rows[i]),
{
    lemma_select_members(rows, owner, sel);
    let picked = select_rows(rows, owner, sel);
    if picked.len() > 0 {
        assert(rows.contains(picked[0]));
        let i = choose|i: int| 0 <= i < rows.len() && rows[i] == picked[0];
        assert(selects(sel, owner, rows[i]));
    } else {
        assert forall|i: int| 0 <= i < rows.len() implies !selects(sel, owner, #[trigger] rows[i]) by {
            if selects(sel, owner, rows[i]) {
                assert(picked.contains(rows[i]));
            }
        }
    }
}

/// The row of a folder that came back from the bin into `parent`.
pub open spec fn restored_folder_row(row: SavedItemView, parent: Seq<char>, date: Seq<char>)
    -> SavedItemView {
    SavedItemView { file_path: parent, recycle_origin_path: None, modified_date: date, ..row }
}

/// A row below a folder that came back from the bin.
pub open spec fn restored_row_below(
    row: SavedItemView,
    recycled: Seq<char>,
    destination: Seq<char>,
    date: Seq<char>,
) -> SavedItemView {
    SavedItemView {
        file_path: rewrite_path(row.file_path, recycled, destination),
        recycle_origin_path: None,
        modified_date: date,
        ..row
    }
}

/// What restoring a folder tree does to each row: the folder's row goes
/// into `parent`, a row below follows, both forget their origin, and any
/// other row stays. Neither `bin` nor `parent` may lie at `recycled` or
/// below.
pub proof fn lemma_restore_row_by_row(
    rows: Seq<SavedItemView>,
    owner: Seq<char>,
    bin: Seq<char>,
    name: Seq<char>,
    recycled: Seq<char>,
    parent: Seq<char>,
    destination: Seq<char>,
    date: Seq<char>,
)
    requires
        !in_subtree(bin, recycled),
        !in_subtree(parent, recycled),
    ensures
        ({
            let back = restored_folder_tree(
                rows,
                owner,
                bin,
                name,
                recycled,
                parent,
                destination,
                date,
            );
            let folder = SelectorView::Folder { parent: bin, name };
            let below = SelectorView::Subtree { folder: recycled };
            &&& back.len() == rows.len()
            &&& forall|i: int|
                0 <= i < rows.len() && selects(folder, owner, #[trigger] rows[i]) ==> back[i]
                    == restored_folder_row(rows[i], parent, date)
            &&& forall|i: int|
                0 <= i < rows.len() && selects(below, owner, #[trigger] rows[i]) ==> back[i]
                    == restored_row_below(rows[i], recycled, destination, date)
            &&& forall|i: int|
                0 <= i < rows.len() && !selects(folder, owner, #[trigger] rows[i]) && !selects(
                    below,
                    owner,
                    rows[i],
                ) ==> back[i] == rows[i]
        }),
{
    let folder = SelectorView::Folder { parent: bin, name };
    let below = SelectorView::Subtree { folder: recycled };
    let first = update_rows(
        rows,
        owner,
        folder,
        ChangeView {
            path: PathChangeView::MoveTo { to: parent },
            origin: OriginChange::Clear,
            ..stamp(date)
        },
    );
    let back = restored_folder_tree(rows, owner, bin, name, recycled, parent, destination, date);
    assert forall|i: int| 0 <= i < rows.len() implies {
        &&& (selects(folder, owner, #[trigger] rows[i]) ==> back[i] == restored_folder_row(
            rows[i],
            parent,
            date,
        ))
        &&& (selects(below, owner, rows[i]) ==> back[i] == restored_row_below(
            rows[i],
            recycled,
            destination,
            date,
        ))
        &&& (!selects(folder, owner, rows[i]) && !selects(below, owner, rows[i]) ==> back[i]
            == rows[i])
    } by {
        if selects(folder, owner, rows[i]) {
            assert(!selects(below, owner, rows[i]));
            assert(first[i].file_path == parent);
            assert(!selects(below, owner, first[i]));
        } else {
            assert(first[i] == rows[i]);
        }
    }
}

/// In a table whose rows remember an origin exactly while they lie in the
/// bin, the rows of a folder outside the bin and the rows below it remember
/// none.
pub proof fn lemma_tree_outside_the_bin_remembers_nothing(
    rows: Seq<SavedItemView>,
    owner: Seq<char>,
    parent: Seq<char>,
    name: Seq<char>,
)
    requires
        crate::origin_laws::origins_consistent(rows),
        is_plain_parent(parent),
        is_plain_name(name),
        parent == saved_root() ==> name != "Recycle Bin"@,
    ensures
        forall|i: int|
            0 <= i < rows.len() && in_tree(
                #[trigger] rows[i],
                owner,
                parent,
                name,
                parent + seq!['/'] + name,
            ) ==> rows[i].recycle_origin_path is None,
{
    let source = parent + seq!['/'] + name;
    lemma_folder_paths(parent, name);
    assert forall|i: int|
        0 <= i < rows.len() && in_tree(#[trigger] rows[i], owner, parent, name, source)
        implies rows[i].recycle_origin_path is None by {
        assert(crate::origin_laws::remembers_rightly(rows[i]));
        if !selects(SelectorView::Folder { parent, name }, owner, rows[i]) {
            crate::origin_laws::lemma_outside_the_bin(rows[i].file_path, source);
        }
    }
}

/// A folder that is recycled and then restored is where it was, row for
/// row, with all that lies below it, and nothing of it remembers an origin.
///
/// The folder `name` lies in the canonical directory `parent` outside the
/// bin. Its rows and the rows below it remember no origin, as they do in
/// every table whose rows remember rightly, and the bin holds nothing under
/// that name. Then recycling `<parent>/<name>` succeeds and
/// puts the tree into the bin, the folder's row remembering `parent` and
/// every row below its own directory; restoring `/Home/Recycle Bin/<name>`
/// succeeds too; and afterwards every row of the tree is what it was but
/// for the date of its last change, at the place in the table where it was,
/// and every other row is as it was. No row is lost: the rows that the
/// table has gained are folders that were missing.
pub proof fn lemma_recycle_then_restore_folder(
    rows: Seq<SavedItemView>,
    owner: Seq<char>,
    parent: Seq<char>,
    name: Seq<char>,
    recycled_at: Seq<char>,
    restored_at: Seq<char>,
)
    requires
        is_plain_parent(parent),
        is_plain_name(name),
        parent == saved_root() ==> name != "Recycle Bin"@,
        folder_exists(rows, owner, parent, name),
        forall|i: int|
            0 <= i < rows.len() && in_tree(
                #[trigger] rows[i],
                owner,
                parent,
                name,
                parent + seq!['/'] + name,
            ) ==> rows[i].recycle_origin_path is None,
        forall|i: int|
            0 <= i < rows.len() ==> !in_tree(
                #[trigger] rows[i],
                owner,
                recycle_bin(),
                name,
                recycle_bin() + seq!['/'] + name,
            ),
    ensures
        ({
            let bin = recycle_bin();
            let source = parent + seq!['/'] + name;
            let recycled = bin + seq!['/'] + name;
            let folder = SelectorView::Folder { parent, name };
            let below = SelectorView::Subtree { folder: source };
            let gone = recycle_outcome(rows, owner, source, recycled_at);
            let back = restore_outcome(gone.rows, owner, recycled, restored_at);
            &&& gone.result is Ok
            &&& back.result is Ok
            &&& rows.len() <= gone.rows.len() <= back.rows.len()
            &&& forall|i: int|
                0 <= i < rows.len() && selects(folder, owner, #[trigger] rows[i]) ==> gone.rows[i]
                    == recycled_folder_row(rows[i], bin, recycled_at)
            &&& forall|i: int|
                0 <= i < rows.len() && selects(below, owner, #[trigger] rows[i]) ==> gone.rows[i]
                    == recycled_row_below(rows[i], source, recycled, recycled_at)
            &&& forall|i: int|
                0 <= i < rows.len() && in_tree(#[trigger] rows[i], owner, parent, name, source)
                    ==> back.rows[i] == restamped(rows[i], restored_at)
            &&& forall|i: int|
                0 <= i < rows.len() && !in_tree(#[trigger] rows[i], owner, parent, name, source)
                    ==> gone.rows[i] == rows[i] && back.rows[i] == rows[i]
        }),
{
    let root = saved_root();
    let bin = recycle_bin();
    let source = parent + seq!['/'] + name;
    let recycled = bin + seq!['/'] + name;
    let folder = SelectorView::Folder { parent, name };
    let below = SelectorView::Subtree { folder: source };
    let folder_in_bin = SelectorView::Folder { parent: bin, name };
    lemma_folder_paths(parent, name);
    lemma_bin();
    assert(recycled != bin);

    // the default folders are written behind the rows; they are no part of
    // the tree and do not lie in the bin
    let first = ensured_default_folders(rows, owner, recycled_at);
    crate::engine_laws::lemma_default_folders_are_plain(rows, owner, recycled_at);
    assert forall|i: int| 0 <= i < rows.len() implies first[i] == #[trigger] rows[i] by {
        assert(first[i] == first.subrange(0, rows.len() as int)[i]);
    }
    crate::engine_laws::lemma_folder_stays(rows, first, owner, parent, name);
    assert forall|i: int|
        0 <= i < first.len() && in_tree(#[trigger] first[i], owner, parent, name, source)
        implies first[i].recycle_origin_path is None by {
        if i < rows.len() {
            assert(in_tree(rows[i], owner, parent, name, source));
        }
    }
    assert forall|i: int| 0 <= i < first.len() implies !in_tree(
        #[trigger] first[i],
        owner,
        bin,
        name,
        recycled,
    ) by {
        if i < rows.len() {
            assert(!in_tree(rows[i], owner, bin, name, recycled));
        }
    }

    // the tree goes into the bin
    let gone = recycled_folder_tree(first, owner, parent, name, source, bin, recycled, recycled_at);
    assert(recycle_outcome(rows, owner, source, recycled_at).rows == gone);
    lemma_recycle_then_restore_tree(
        first,
        owner,
        parent,
        name,
        source,
        bin,
        recycled,
        recycled_at,
        restored_at,
    );
    let back_alone = restored_folder_tree(
        gone,
        owner,
        bin,
        name,
        recycled,
        parent,
        source,
        restored_at,
    );

    // the default folders are written again, behind the rows
    let second = ensured_default_folders(gone, owner, restored_at);
    crate::engine_laws::lemma_default_folders_are_plain(gone, owner, restored_at);
    assert forall|i: int| 0 <= i < gone.len() implies second[i] == #[trigger] gone[i] by {
        assert(second[i] == second.subrange(0, gone.len() as int)[i]);
    }

    // the folder is in the bin, and each of its rows remembers `parent`
    lemma_nothing_selected(rows, owner, folder);
    let j = choose|j: int| 0 <= j < rows.len() && selects(folder, owner, #[trigger] rows[j]);
    assert(gone[j] == recycled_folder_row(first[j], bin, recycled_at));
    assert(selects(folder_in_bin, owner, second[j]));
    lemma_nothing_selected(second, owner, folder_in_bin);
    lemma_select_members(second, owner, folder_in_bin);
    let found = select_rows(second, owner, folder_in_bin);
    assert(found.len() > 0);
    assert(second.contains(found[0]));
    let k = choose|k: int| 0 <= k < second.len() && second[k] == found[0];
    assert(selects(folder_in_bin, owner, second[k]));
    assert(k < gone.len());
    assert(second[k] == gone[k]);
    if selects(folder, owner, first[k]) {
        assert(gone[k] == recycled_folder_row(first[k], bin, recycled_at));
    } else if selects(below, owner, first[k]) {
        assert(gone[k] == recycled_row_below(first[k], source, recycled, recycled_at));
        lemma_rewrite_leaves_subtree(first[k].file_path, source, recycled);
        assert(false);
    } else {
        assert(gone[k] == first[k]);
        assert(!in_tree(first[k], owner, bin, name, recycled));
        assert(false);
    }
    assert(folder_origin(second, owner, bin, name) == Some(parent));
    assert(restore_target(Some(parent)) == parent);

    // the folders on the way back are written behind the rows
    let third = ensured_hierarchy(second, owner, parent, restored_at);
    crate::engine_laws::lemma_hierarchy_keeps_rows(second, owner, parent, restored_at);
    assert forall|i: int| 0 <= i < gone.len() implies third[i] == #[trigger] gone[i] by {
        assert(third[i] == third.subrange(0, second.len() as int)[i]);
    }

    // the tree comes back, row for row
    let back = restored_folder_tree(third, owner, bin, name, recycled, parent, source, restored_at);
    assert(restore_outcome(gone, owner, recycled, restored_at).rows == back);
    assert forall|i: int| 0 <= i < gone.len() implies #[trigger] back[i] == back_alone[i] by {
        assert(third[i] == gone[i]);
    }
}

} // verus!

//! Permanent deletion of what lies in the recycle bin.
//!
//! Deleting for good has three steps. The plan names the rows that go and
//! the remote messages behind them; the caller has those messages deleted
//! on the remote side, in batches; then the plan is carried out on the
//! index. Nothing leaves the index before the remote side has let go.

use crate::cache::without_messages;
use crate::engine::{folder_exists, SavedItemError};
use crate::model::{item_views, SavedItemView};
use crate::paths::{below_recycle_bin, in_recycle_bin, is_below_recycle_bin, is_recycle_bin_saved_path, message_ref, parse_message_id_from_virtual_path, split_parent_and_name, split_saved_parent_and_name, virtual_to_saved, virtual_to_saved_path};
use crate::store::{delete_rows, is_folder, row_selected, selects, Database, Selector,
    SelectorView};
use crate::tree::{deleted_folder_tree, file_location};
use vstd::prelude::*;

verus! {

/// What a permanent deletion removes.
#[derive(Debug, Clone, PartialEq, Eq)]
pub enum DeleteTarget {
    /// The files of one message.
    File { message_id: i32 },
    /// The folder `name` in `parent`, whose full path is `path`, and all
    /// that lies below it.
    Folder { parent: String, name: String, path: String },
}

/// What a `DeleteTarget` says, as mathematical values.
pub enum DeleteTargetView {
    File { message_id: i32 },
    Folder { parent: Seq<char>, name: Seq<char>, path: Seq<char> },
}

impl View for DeleteTarget {
    type V = DeleteTargetView;

    open spec fn view(&self) -> DeleteTargetView {
        match *self {
            DeleteTarget::File { message_id } => DeleteTargetView::File { message_id },
            DeleteTarget::Folder { parent, name, path } => DeleteTargetView::Folder {
                parent: parent@,
                name: name@,
                path: path@,
            },
        }
    }
}

/// A permanent deletion that has been found admissible.
#[derive(Debug, Clone, PartialEq, Eq)]
pub struct DeletePlan {
    pub target: DeleteTarget,
    /// The remote messages to delete: each id once, smallest first.
    pub message_ids: Vec<i32>,
}

/// Whether the file rows in the subtree of `folder` mirror the message
/// `id`.
pub open spec fn tree_holds_message(
    rows: Seq<SavedItemView>,
    owner: Seq<char>,
    folder: Seq<char>,
    id: i32,
) -> bool {
    id > 0 && exists|i: int|
        0 <= i < rows.len() && selects(SelectorView::Subtree { folder }, owner, #[trigger] rows[i])
            && !is_folder(rows[i]) && rows[i].message_id == id
}

/// Whether `ids` rises strictly.
pub open spec fn strictly_rising(ids: Seq<i32>) -> bool {
    forall|i: int, j: int| 0 <= i < j < ids.len() ==> ids[i] < ids[j]
}

/// Whether `ids` names exactly the messages behind the files in the subtree
/// of `folder`, each once and smallest first.
pub open spec fn are_tree_message_ids(
    ids: Seq<i32>,
    rows: Seq<SavedItemView>,
    owner: Seq<char>,
    folder: Seq<char>,
) -> bool {
    &&& strictly_rising(ids)
    &&& forall|id: i32| ids.contains(id) <==> tree_holds_message(rows, owner, folder, id)
}

/// What a permanent deletion of `source_path` would remove, or why it is
/// refused. Only what lies in the recycle bin can be deleted; the bin itself
/// cannot.
pub open spec fn delete_target(rows: Seq<SavedItemView>, owner: Seq<char>, source_path: Seq<char>)
    -> Result<DeleteTargetView, SavedItemError> {
    match message_ref(source_path) {
        Some(message_id) => match file_location(rows, owner, message_id) {
            None => Err(SavedItemError::SourceFileNotFound),
            Some((path, origin)) => if !in_recycle_bin(path) {
                Err(SavedItemError::FileNotDeletable)
            } else {
                Ok(DeleteTargetView::File { message_id })
            },
        },
        None => match virtual_to_saved(source_path) {
            None => Err(SavedItemError::InvalidSourcePath),
            Some(source) => if !below_recycle_bin(source) {
                Err(SavedItemError::FolderNotDeletable)
            } else {
                match split_parent_and_name(source) {
                    None => Err(SavedItemError::InvalidSourceFolderPath),
                    Some((parent, name)) => if !folder_exists(rows, owner, parent, name) {
                        Err(SavedItemError::SourceFolderNotFound)
                    } else {
                        Ok(DeleteTargetView::Folder { parent, name, path: source })
                    },
                }
            },
        },
    }
}

/// Whether `ids` names the remote messages behind `target`.
pub open spec fn are_target_message_ids(
    ids: Seq<i32>,
    rows: Seq<SavedItemView>,
    owner: Seq<char>,
    target: DeleteTargetView,
) -> bool {
    match target {
        DeleteTargetView::File { message_id } => ids == seq![message_id],
        DeleteTargetView::Folder { parent, name, path } => are_tree_message_ids(
            ids,
            rows,
            owner,
            path,
        ),
    }
}

/// The items after `target` left the tree.
pub open spec fn items_without(rows: Seq<SavedItemView>, owner: Seq<char>, target: DeleteTargetView)
    -> Seq<SavedItemView> {
    match target {
        DeleteTargetView::File { message_id } => delete_rows(
            rows,
            owner,
            SelectorView::File { message_id },
        ),
        DeleteTargetView::Folder { parent, name, path } => deleted_folder_tree(
            rows,
            owner,
            parent,
            name,
            path,
        ),
    }
}

/// The `k`-th batch of at most 100 ids.
pub open spec fn batch(ids: Seq<i32>, k: int) -> Seq<i32> {
    ids.subrange(
        100 * k,
        if 100 * (k + 1) < ids.len() {
            100 * (k + 1)
        } else {
            ids.len() as int
        },
    )
}

/// How many batches `len` ids make.
pub open spec fn batch_count(len: nat) -> nat {
    ((len + 99) / 100) as nat
}

fn insert_rising(ids: &mut Vec<i32>, id: i32)
    requires
        strictly_rising(old(ids)@),
    ensures
        strictly_rising(final(ids)@),
        forall|x: i32| final(ids)@.contains(x) <==> (old(ids)@.contains(x) || x == id),
{
    let mut at: usize = 0;
    while at < ids.len() && ids[at] < id
        invariant
            at <= ids.len(),
            *ids == *old(ids),
            forall|k: int| 0 <= k < at ==> ids@[k] < id,
        decreases ids.len() - at,
    {
        at += 1;
    }
    if at < ids.len() && ids[at] == id {
        assert(ids@[at as int] == id);
        assert(ids@.contains(id));
        return ;
    }
    let ghost before = ids@;
    ids.insert(at, id);
    proof {
        assert forall|i: int, j: int| 0 <= i < j < ids@.len() implies ids@[i] < ids@[j] by {
            let a = if i < at {
                i
            } else {
                i - 1
            };
            let b = if j < at {
                j
            } else {
                j - 1
            };
            if i != at && j != at {
                assert(before[a] < before[b]);
            } else if i == at {
                assert(before[b] >= before[at as int]);
            }
        }
        assert forall|x: i32| ids@.contains(x) <==> (before.contains(x) || x == id) by {
            if ids@.contains(x) {
                let i = choose|i: int| 0 <= i < ids@.len() && ids@[i] == x;
                if i < at {
                    assert(before[i] == x);
                } else if i > at {
                    assert(before[i - 1] == x);
                }
            }
            if before.contains(x) {
                let i = choose|i: int| 0 <= i < before.len() && before[i] == x;
                if i < at {
                    assert(ids@[i] == x);
                } else {
                    assert(ids@[i + 1] == x);
                }
            }
            if x == id {
                assert(ids@[at as int] == x);
            }
        }
        assert(before == old(ids)@);
        assert(forall|x: i32| ids@.contains(x) <==> (old(ids)@.contains(x) || x == id));
    }
}

/// The positive ids among `ids`, each once and smallest first.
pub fn distinct_positive_ids(ids: &Vec<i32>) -> (r: Vec<i32>)
    ensures
        strictly_rising(r@),
        forall|id: i32| r@.contains(id) <==> id > 0 && ids@.contains(id),
{
    let mut r: Vec<i32> = Vec::new();
    let mut i: usize = 0;
    while i < ids.len()
        invariant
            i <= ids.len(),
            strictly_rising(r@),
            forall|id: i32| r@.contains(id) <==> id > 0 && ids@.take(i as int).contains(id),
        decreases ids.len() - i,
    {
        let ghost before = r@;
        let id: i32 = ids[i];
        if id > 0 {
            insert_rising(&mut r, id);
        }
        proof {
            let shorter = ids@.take(i as int);
            let longer = ids@.take(i + 1);
            assert(longer[i as int] == id);
            assert forall|x: i32| r@.contains(x) <==> x > 0 && longer.contains(x) by {
                if longer.contains(x) {
                    let k = choose|k: int| 0 <= k < longer.len() && longer[k] == x;
                    if k < i {
                        assert(shorter[k] == x);
                    }
                }
                if shorter.contains(x) {
                    let k = choose|k: int| 0 <= k < shorter.len() && shorter[k] == x;
                    assert(longer[k] == x);
                }
            }
        }
        i += 1;
    }
    assert(ids@.take(i as int) =~= ids@);
    r
}

impl Database {
    /// The remote messages behind the files in the subtree of
    /// `source_folder_path`: each positive id once, smallest first.
    pub fn get_telegram_saved_message_ids_by_folder_tree(
        &self,
        owner_id: &str,
        source_folder_path: &str,
    ) -> (ids: Vec<i32>)
        ensures
            are_tree_message_ids(ids@, self@.items, owner_id@, source_folder_path@),
    {
        let mut ids: Vec<i32> = Vec::new();
        let sel = Selector::Subtree { folder: source_folder_path };
        let ghost folder = source_folder_path@;
        let ghost rows = self@.items;
        let mut i: usize = 0;
        while i < self.items.len()
            invariant
                i <= self.items.len(),
                rows == item_views(self.items@),
                sel@ == (SelectorView::Subtree { folder }),
                strictly_rising(ids@),
                forall|id: i32|
                    ids@.contains(id) <==> tree_holds_message(
                        rows.take(i as int),
                        owner_id@,
                        folder,
                        id,
                    ),
            decreases self.items.len() - i,
        {
            let row = &self.items[i];
            let ghost before = ids@;
            let taken: bool = row_selected(row, owner_id, &sel) && !crate::text::same_text(
                row.file_type.as_str(),
                "folder",
            ) && row.message_id > 0;
            if taken {
                insert_rising(&mut ids, row.message_id);
            }
            proof {
                let shorter = rows.take(i as int);
                let longer = rows.take(i + 1);
                assert(longer[i as int] == row@);
                assert forall|id: i32|
                    ids@.contains(id) <==> tree_holds_message(longer, owner_id@, folder, id) by {
                    if tree_holds_message(longer, owner_id@, folder, id) {
                        let k = choose|k: int|
                            0 <= k < longer.len() && selects(
                                SelectorView::Subtree { folder },
                                owner_id@,
                                #[trigger] longer[k],
                            ) && !is_folder(longer[k]) && longer[k].message_id == id;
                        if k < i {
                            assert(shorter[k] == longer[k]);
                            assert(tree_holds_message(shorter, owner_id@, folder, id));
                        }
                    }
                    if before.contains(id) {
                        let k = choose|k: int|
                            0 <= k < shorter.len() && selects(
                                SelectorView::Subtree { folder },
                                owner_id@,
                                #[trigger] shorter[k],
                            ) && !is_folder(shorter[k]) && shorter[k].message_id == id;
                        assert(longer[k] == shorter[k]);
                    }
                    if taken && id == row.message_id {
                        assert(selects(
                            SelectorView::Subtree { folder },
                            owner_id@,
                            longer[i as int],
                        ));
                    }
                }
            }
            i += 1;
        }
        assert(rows.take(i as int) =~= rows);
        ids
    }
}

/// Looks whether `source_path` can be deleted for good, and what would go.
/// The index is not changed.
pub fn plan_permanent_delete(db: &Database, owner_id: &str, source_path: &str) -> (r: Result<
    DeletePlan,
    SavedItemError,
>)
    ensures
        match r {
            Ok(plan) => delete_target(db@.items, owner_id@, source_path@) == Ok::<
                DeleteTargetView,
                SavedItemError,
            >(plan.target@) && are_target_message_ids(
                plan.message_ids@,
                db@.items,
                owner_id@,
                plan.target@,
            ),
            Err(e) => delete_target(db@.items, owner_id@, source_path@) == Err::<
                DeleteTargetView,
                SavedItemError,
            >(e),
        },
{
    if let Some(message_id) = parse_message_id_from_virtual_path(source_path) {
        let location = db.get_telegram_saved_file_path_and_recycle_origin_by_message_id(
            owner_id,
            message_id,
        );
        let path = match location {
            Some((path, _)) => path,
            None => {
                return Err(SavedItemError::SourceFileNotFound);
            },
        };
        if !is_recycle_bin_saved_path(path.as_str()) {
            return Err(SavedItemError::FileNotDeletable);
        }
        let mut message_ids: Vec<i32> = Vec::new();
        message_ids.push(message_id);
        assert(message_ids@ =~= seq![message_id]);
        return Ok(DeletePlan { target: DeleteTarget::File { message_id }, message_ids });
    }
    let source = match virtual_to_saved_path(source_path) {
        Some(path) => path,
        None => {
            return Err(SavedItemError::InvalidSourcePath);
        },
    };
    if !is_below_recycle_bin(source.as_str()) {
        return Err(SavedItemError::FolderNotDeletable);
    }
    let (parent, name) = match split_saved_parent_and_name(source.as_str()) {
        Some(pair) => pair,
        None => {
            return Err(SavedItemError::InvalidSourceFolderPath);
        },
    };
    if !db.telegram_saved_folder_exists(owner_id, parent.as_str(), name.as_str()) {
        return Err(SavedItemError::SourceFolderNotFound);
    }
    let message_ids = db.get_telegram_saved_message_ids_by_folder_tree(owner_id, source.as_str());
    Ok(DeletePlan { target: DeleteTarget::Folder { parent, name, path: source }, message_ids })
}

/// The ids of a plan in batches for the remote side: every batch but the
/// last holds 100 ids, the last at least one, and together they are the ids
/// in their order.
pub fn delete_batches(message_ids: &Vec<i32>) -> (batches: Vec<Vec<i32>>)
    ensures
        batches@.len() == batch_count(message_ids@.len()),
        forall|k: int| 0 <= k < batches@.len() ==> (#[trigger] batches@[k])@ == batch(message_ids@, k),
        forall|k: int| 0 <= k < batches@.len() ==> 1 <= (#[trigger] batches@[k])@.len() <= 100,
{
    let mut batches: Vec<Vec<i32>> = Vec::new();
    let mut current: Vec<i32> = Vec::new();
    let mut i: usize = 0;
    while i < message_ids.len()
        invariant
            i <= message_ids.len(),
            batches@.len() == i / 100,
            current@.len() == i % 100,
            forall|k: int|
                0 <= k < batches@.len() ==> (#[trigger] batches@[k])@ == message_ids@.subrange(
                    100 * k,
                    100 * (k + 1),
                ),
            current@ == message_ids@.subrange(100 * (i as int / 100), i as int),
        decreases message_ids.len() - i,
    {
        current.push(message_ids[i]);
        i += 1;
        if current.len() == 100 {
            assert(current@ =~= message_ids@.subrange(100 * ((i as int / 100) - 1), i as int));
            batches.push(current);
            current = Vec::new();
            assert(current@ =~= message_ids@.subrange(100 * (i as int / 100), i as int));
        } else {
            assert(current@ =~= message_ids@.subrange(100 * (i as int / 100), i as int));
        }
    }
    if current.len() > 0 {
        batches.push(current);
    }
    batches
}

/// Carries out a plan on the index: the rows of the target leave the tree,
/// and the cached messages of `chat_id` that the plan names leave the
/// cache.
pub fn apply_permanent_delete(db: &mut Database, owner_id: &str, chat_id: i64, plan: &DeletePlan)
    ensures
        final(db)@.items == items_without(old(db)@.items, owner_id@, plan.target@),
        final(db)@.messages == without_messages(
            old(db)@.messages,
            chat_id,
            plan.message_ids@,
            plan.message_ids@.len() as int,
        ),
        final(db)@.settings == old(db)@.settings,
        old(db).wf() ==> final(db).wf(),
{
    match &plan.target {
        DeleteTarget::File { message_id } => {
            db.delete_telegram_saved_file_by_message_id(owner_id, *message_id);
        },
        DeleteTarget::Folder { parent, name, path } => {
            db.delete_telegram_saved_folder_tree(
                owner_id,
                parent.as_str(),
                name.as_str(),
                path.as_str(),
            );
        },
    }
    db.delete_telegram_messages_by_ids(chat_id, &plan.message_ids);
}

/// Whether `owner` has an image row without a size for the message `id`.
pub open spec fn is_unsized_image(rows: Seq<SavedItemView>, owner: Seq<char>, id: i32) -> bool {
    id > 0 && exists|i: int|
        0 <= i < rows.len() && (#[trigger] rows[i]).owner_id == owner && rows[i].file_type
            == "image"@ && rows[i].file_size <= 0 && rows[i].message_id == id
}

/// Whether `ids` falls strictly.
pub open spec fn strictly_falling(ids: Seq<i32>) -> bool {
    forall|i: int, j: int| 0 <= i < j < ids.len() ==> ids[i] > ids[j]
}

/// How many ids a request for at most `limit` gets: at least one.
pub open spec fn at_least_one_id(limit: i64) -> int {
    if limit < 1 {
        1
    } else {
        limit as int
    }
}

impl Database {
    /// The messages behind the images of `owner_id` that have no size yet:
    /// each id once, newest first, at most `limit` of them and at least one
    /// where there is one.
    pub fn get_telegram_saved_zero_sized_image_message_ids(&self, owner_id: &str, limit: i64) -> (ids:
        Vec<i32>)
        ensures
            strictly_falling(ids@),
            forall|k: int|
                0 <= k < ids@.len() ==> is_unsized_image(self@.items, owner_id@, #[trigger] ids@[k]),
            ids@.len() <= at_least_one_id(limit),
            forall|id: i32|
                is_unsized_image(self@.items, owner_id@, id) && !ids@.contains(id) ==> ids@.len()
                    == at_least_one_id(limit) && ids@.last() > id,
    {
        let mut rising: Vec<i32> = Vec::new();
        let ghost rows = self@.items;
        let mut i: usize = 0;
        while i < self.items.len()
            invariant
                i <= self.items.len(),
                rows == item_views(self.items@),
                strictly_rising(rising@),
                forall|id: i32|
                    rising@.contains(id) <==> is_unsized_image(rows.take(i as int), owner_id@, id),
            decreases self.items.len() - i,
        {
            let row = &self.items[i];
            let ghost before = rising@;
            let taken: bool = crate::text::same_text(row.owner_id.as_str(), owner_id)
                && crate::text::same_text(row.file_type.as_str(), "image") && row.file_size <= 0
                && row.message_id > 0;
            if taken {
                insert_rising(&mut rising, row.message_id);
            }
            proof {
                let shorter = rows.take(i as int);
                let longer = rows.take(i + 1);
                assert(longer[i as int] == row@);
                assert forall|id: i32|
                    rising@.contains(id) <==> is_unsized_image(longer, owner_id@, id) by {
                    if is_unsized_image(longer, owner_id@, id) {
                        let k = choose|k: int|
                            0 <= k < longer.len() && (#[trigger] longer[k]).owner_id == owner_id@
                                && longer[k].file_type == "image"@ && longer[k].file_size <= 0
                                && longer[k].message_id == id;
                        if k < i {
                            assert(shorter[k] == longer[k]);
                            assert(is_unsized_image(shorter, owner_id@, id));
                        }
                    }
                    if before.contains(id) {
                        let k = choose|k: int|
                            0 <= k < shorter.len() && (#[trigger] shorter[k]).owner_id == owner_id@
                                && shorter[k].file_type == "image"@ && shorter[k].file_size <= 0
                                && shorter[k].message_id == id;
                        assert(longer[k] == shorter[k]);
                    }
                    if taken && id == row.message_id {
                        assert(longer[i as int].message_id == id);
                    }
                }
            }
            i += 1;
        }
        assert(rows.take(i as int) =~= rows);
        let mut ids: Vec<i32> = Vec::new();
        let mut j: usize = rising.len();
        let wanted: u64 = if limit < 1 {
            1
        } else {
            limit as u64
        };
        while j > 0 && (ids.len() as u64) < wanted
            invariant
                j <= rising.len(),
                ids@.len() == rising.len() - j,
                ids@.len() <= wanted,
                wanted == at_least_one_id(limit),
                strictly_rising(rising@),
                forall|k: int| 0 <= k < ids@.len() ==> ids@[k] == rising@[rising.len() - 1 - k],
            decreases j,
        {
            ids.push(rising[j - 1]);
            j -= 1;
        }
        proof {
            assert forall|a: int, b: int| 0 <= a < b < ids@.len() implies ids@[a] > ids@[b] by {
                assert(rising@[rising.len() - 1 - b] < rising@[rising.len() - 1 - a]);
            }
            assert forall|k: int| 0 <= k < ids@.len() implies is_unsized_image(
                rows,
                owner_id@,
                #[trigger] ids@[k],
            ) by {
                assert(rising@.contains(rising@[rising.len() - 1 - k]));
            }
            assert forall|id: i32|
                is_unsized_image(rows, owner_id@, id) && !ids@.contains(id) implies ids@.len()
                == at_least_one_id(limit) && ids@.last() > id by {
                assert(rising@.contains(id));
                let at = choose|at: int| 0 <= at < rising@.len() && rising@[at] == id;
                if at >= j {
                    assert(ids@[rising.len() - 1 - at] == id);
                }
                assert(at < j);
                assert(ids@.last() == rising@[j as int]);
            }
        }
        ids
    }
}

/// What is deleted for good is gone: after a plan for the files of a
/// message was carried out, the owner has no file row for the message and the
/// cache of the chat holds no snapshot of it; after a plan for a folder was
/// carried out, the owner has neither the folder nor a row at its path or
/// below.
pub proof fn lemma_deleted_is_gone(
    rows: Seq<SavedItemView>,
    messages: Seq<crate::model::MessageView>,
    owner: Seq<char>,
    chat_id: i64,
    target: DeleteTargetView,
)
    ensures
        ({
            let left = items_without(rows, owner, target);
            match target {
                DeleteTargetView::File { message_id } => {
                    &&& forall|i: int|
                        0 <= i < left.len() ==> !selects(
                            SelectorView::File { message_id },
                            owner,
                            #[trigger] left[i],
                        )
                    &&& message_id > 0 ==> crate::cache::select_messages(
                        without_messages(messages, chat_id, seq![message_id], 1),
                        crate::cache::MessageSelectorView::Key { chat_id, message_id },
                    ).len() == 0
                },
                DeleteTargetView::Folder { parent, name, path } => {
                    forall|i: int|
                        0 <= i < left.len() ==> !selects(
                            SelectorView::Folder { parent, name },
                            owner,
                            #[trigger] left[i],
                        ) && !selects(SelectorView::Subtree { folder: path }, owner, left[i])
                },
            }
        }),
{
    match target {
        DeleteTargetView::File { message_id } => {
            crate::store_laws::lemma_delete_keeps_keys(
                rows,
                owner,
                SelectorView::File { message_id },
            );
            if message_id > 0 {
                let sel = crate::cache::MessageSelectorView::Key { chat_id, message_id };
                let ids = seq![message_id];
                assert(without_messages(messages, chat_id, ids, 0) == messages);
                assert(ids[0] == message_id);
                let rest = crate::cache::delete_messages(messages, sel);
                assert(without_messages(messages, chat_id, ids, 1) == rest);
                crate::cache::lemma_delete_messages(messages, sel);
                lemma_no_message_selected(rest, sel);
            }
        },
        DeleteTargetView::Folder { parent, name, path } => {
            let first = delete_rows(rows, owner, SelectorView::Folder { parent, name });
            crate::store_laws::lemma_delete_keeps_keys(
                rows,
                owner,
                SelectorView::Folder { parent, name },
            );
            crate::store_laws::lemma_delete_keeps_keys(
                first,
                owner,
                SelectorView::Subtree { folder: path },
            );
            let left = delete_rows(first, owner, SelectorView::Subtree { folder: path });
            assert forall|i: int| 0 <= i < left.len() implies !selects(
                SelectorView::Folder { parent, name },
                owner,
                #[trigger] left[i],
            ) by {
                assert(first.contains(left[i]));
                let j = choose|j: int| 0 <= j < first.len() && first[j] == left[i];
                assert(!selects(SelectorView::Folder { parent, name }, owner, first[j]));
            }
        },
    }
}

/// A cache of which the selector picks no message gives no message for it.
pub proof fn lemma_no_message_selected(
    rows: Seq<crate::model::MessageView>,
    sel: crate::cache::MessageSelectorView,
)
    requires
        forall|i: int|
            0 <= i < rows.len() ==> !crate::cache::selects_message(sel, #[trigger] rows[i]),
    ensures
        crate::cache::select_messages(rows, sel).len() == 0,
    decreases rows.len(),
{
    if rows.len() > 0 {
        let front = rows.drop_last();
        assert forall|i: int| 0 <= i < front.len() implies !crate::cache::selects_message(
            sel,
            #[trigger] front[i],
        ) by {
            assert(front[i] == rows[i]);
        }
        lemma_no_message_selected(front, sel);
        assert(!crate::cache::selects_message(sel, rows[rows.len() - 1]));
    }
}

} // verus!

//! Directory listings and their pages.
//!
//! A listing shows folders first, by name without regard to ASCII case; then
//! files, newest message first, and by name where two files mirror the same
//! message. Rows that this order does not tell apart keep the order in which
//! they were written.

use crate::model::{item_views, SavedItemView, TelegramSavedItem};
use crate::order::{ranked, sort_rows, views_of, Ranking};
use crate::store::{is_folder, select_rows, Database, Selector, SelectorView};
use crate::text::{ascii_lowercase, ascii_lowercase_chars, chars_of, same_text, text_less, text_less_chars};
use vstd::prelude::*;

verus! {

/// The order of a directory listing.
pub struct ListingOrder;

/// The name of a row as the listing compares it.
pub open spec fn listing_name(row: SavedItemView) -> Seq<char> {
    ascii_lowercase(row.file_name)
}

/// Whether `a` stands before `b` in a listing.
pub open spec fn listed_before(a: SavedItemView, b: SavedItemView) -> bool {
    if is_folder(a) != is_folder(b) {
        is_folder(a)
    } else if is_folder(a) {
        text_less(listing_name(a), listing_name(b))
    } else if a.message_id != b.message_id {
        a.message_id > b.message_id
    } else {
        text_less(listing_name(a), listing_name(b))
    }
}

impl Ranking for ListingOrder {
    type Row = TelegramSavedItem;

    open spec fn precedes(a: SavedItemView, b: SavedItemView) -> bool {
        listed_before(a, b)
    }

    fn row_precedes(a: &TelegramSavedItem, b: &TelegramSavedItem) -> (r: bool) {
        assert(Self::precedes(a@, b@) == listed_before(a@, b@));
        let a_folder = same_text(a.file_type.as_str(), "folder");
        let b_folder = same_text(b.file_type.as_str(), "folder");
        if a_folder != b_folder {
            return a_folder;
        }
        if !a_folder && a.message_id != b.message_id {
            return a.message_id > b.message_id;
        }
        let a_name = ascii_lowercase_chars(&chars_of(a.file_name.as_str()));
        let b_name = ascii_lowercase_chars(&chars_of(b.file_name.as_str()));
        text_less_chars(&a_name, &b_name)
    }
}

/// What the directory `path` of `owner` shows.
pub open spec fn directory_listing(rows: Seq<SavedItemView>, owner: Seq<char>, path: Seq<char>)
    -> Seq<SavedItemView> {
    ranked::<ListingOrder>(select_rows(rows, owner, SelectorView::Directory { path }))
}

/// The rows of `listing` from `offset` on, at most `limit` of them. A
/// negative offset counts as zero, a negative limit as no limit.
pub open spec fn window(listing: Seq<SavedItemView>, offset: int, limit: int) -> Seq<
    SavedItemView,
> {
    let from = if offset < 0 {
        0
    } else if offset > listing.len() {
        listing.len() as int
    } else {
        offset
    };
    let to = if limit < 0 || from + limit > listing.len() {
        listing.len() as int
    } else {
        from + limit
    };
    listing.subrange(from, to)
}

/// One page of a listing.
#[derive(Debug, Clone, PartialEq, Eq)]
pub struct SavedItemsPage {
    pub items: Vec<TelegramSavedItem>,
    /// Whether rows follow this page.
    pub has_more: bool,
    /// Where the next page starts.
    pub next_offset: i64,
}

/// What a page holds, as mathematical values.
pub struct PageView {
    pub items: Seq<SavedItemView>,
    pub has_more: bool,
    pub next_offset: int,
}

impl View for SavedItemsPage {
    type V = PageView;

    open spec fn view(&self) -> PageView {
        PageView {
            items: item_views(self.items@),
            has_more: self.has_more,
            next_offset: self.next_offset as int,
        }
    }
}

/// The offset that a page request works with: none below zero.
pub open spec fn page_offset(offset: int) -> int {
    if offset < 0 {
        0
    } else {
        offset
    }
}

/// The page size that a page request works with: from 1 to 200.
pub open spec fn page_limit(limit: int) -> int {
    if limit < 1 {
        1
    } else if limit > 200 {
        200
    } else {
        limit
    }
}

/// The page of `listing` that a request for `limit` rows from `offset` on
/// gets.
pub open spec fn page_of(listing: Seq<SavedItemView>, offset: int, limit: int) -> PageView {
    let from = page_offset(offset);
    let size = page_limit(limit);
    let items = window(listing, from, size);
    PageView { items, has_more: from + size < listing.len(), next_offset: from + items.len() }
}

/// A page as a machine holds it: where the next page would start behind
/// the greatest offset there is, that offset stands for it.
pub open spec fn held_page(page: PageView) -> PageView {
    PageView {
        items: page.items,
        has_more: page.has_more,
        next_offset: if page.next_offset > i64::MAX {
            i64::MAX as int
        } else {
            page.next_offset
        },
    }
}

/// A page of a listing that an offset can count is held as it is.
pub proof fn lemma_held_page(listing: Seq<SavedItemView>, offset: int, limit: int)
    requires
        listing.len() <= i64::MAX,
        offset <= i64::MAX,
    ensures
        held_page(page_of(listing, offset, limit)) == page_of(listing, offset, limit),
{
}

/// All pages of `size` rows from `offset` on, one after the other: each
/// page is asked for at the `next_offset` of the page before, and the last
/// page is the first that reports no more rows.
pub open spec fn pages_from(listing: Seq<SavedItemView>, offset: int, size: int) -> Seq<
    SavedItemView,
>
    decreases listing.len() - offset,
{
    let page = page_of(listing, offset, size);
    if page.has_more && offset >= 0 {
        page.items + pages_from(listing, page.next_offset, size)
    } else {
        page.items
    }
}

/// Paging is complete: the pages of any size, read from the start until a
/// page reports no more rows, give the listing itself, row for row.
pub proof fn lemma_pages_reproduce_listing(listing: Seq<SavedItemView>, size: int)
    ensures
        pages_from(listing, 0, size) == listing,
{
    lemma_pages_from_offset(listing, 0, size);
    assert(listing.skip(0) =~= listing);
}

/// The pages from `offset` on give the listing from `offset` on.
pub proof fn lemma_pages_from_offset(listing: Seq<SavedItemView>, offset: int, size: int)
    requires
        0 <= offset <= listing.len(),
    ensures
        pages_from(listing, offset, size) == listing.skip(offset),
    decreases listing.len() - offset,
{
    let page = page_of(listing, offset, size);
    if page.has_more {
        lemma_pages_from_offset(listing, page.next_offset, size);
        assert(page.items + listing.skip(page.next_offset) =~= listing.skip(offset));
    } else {
        assert(page.items =~= listing.skip(offset));
    }
}

/// A page reports more rows exactly when rows follow it, a page that
/// reports more rows is full, and the next page starts right behind it.
pub proof fn lemma_page_reports_rest(listing: Seq<SavedItemView>, offset: int, limit: int)
    requires
        0 <= offset <= listing.len(),
    ensures
        ({
            let page = page_of(listing, offset, limit);
            &&& page.items == listing.subrange(offset, page.next_offset)
            &&& page.has_more <==> page.next_offset < listing.len()
            &&& page.has_more ==> page.items.len() == page_limit(limit)
        }),
{
}

impl Database {
    /// The rows in the directory `file_path` of `owner_id`, in listing order.
    pub fn get_telegram_saved_items_by_path(&self, owner_id: &str, file_path: &str) -> (r: Vec<
        TelegramSavedItem,
    >)
        ensures
            item_views(r@) == directory_listing(self@.items, owner_id@, file_path@),
    {
        let rows = self.select_where(owner_id, &Selector::Directory { path: file_path });
        assert(views_of(rows@) =~= item_views(rows@));
        let sorted = sort_rows::<ListingOrder>(rows);
        assert(views_of(sorted@) =~= item_views(sorted@));
        sorted
    }

    /// The rows of that listing from `offset` on, at most `limit` of them. A
    /// negative offset counts as zero, a negative limit as no limit.
    pub fn get_telegram_saved_items_by_path_paginated(
        &self,
        owner_id: &str,
        file_path: &str,
        offset: i64,
        limit: i64,
    ) -> (r: Vec<TelegramSavedItem>)
        ensures
            item_views(r@) == window(
                directory_listing(self@.items, owner_id@, file_path@),
                offset as int,
                limit as int,
            ),
    {
        let listing = self.get_telegram_saved_items_by_path(owner_id, file_path);
        let len: usize = listing.len();
        let from: usize = if offset < 0 {
            0
        } else if (offset as u64) > (len as u64) {
            len
        } else {
            offset as usize
        };
        let to: usize = if limit < 0 || (limit as u64) > ((len - from) as u64) {
            len
        } else {
            from + (limit as usize)
        };
        let mut rows: Vec<TelegramSavedItem> = Vec::new();
        let mut i: usize = from;
        while i < to
            invariant
                from <= i <= to <= listing.len(),
                rows@.len() == i - from,
                forall|k: int| 0 <= k < i - from ==> (#[trigger] rows@[k])@ == listing@[from + k]@,
            decreases to - i,
        {
            rows.push(listing[i].duplicate());
            i += 1;
        }
        assert(item_views(rows@) =~= item_views(listing@).subrange(from as int, to as int));
        rows
    }
}

/// The rows in the directory `file_path` of `owner_id`, in listing order.
/// The default folders of the owner are written first, so that they show.
pub fn list_saved_items(db: &mut Database, owner_id: &str, file_path: &str, now: &str) -> (r: Vec<
    TelegramSavedItem,
>)
    ensures
        final(db)@.items == crate::engine::ensured_default_folders(
            old(db)@.items,
            owner_id@,
            now@,
        ),
        final(db)@.messages == old(db)@.messages,
        final(db)@.settings == old(db)@.settings,
        item_views(r@) == directory_listing(
            final(db)@.items,
            owner_id@,
            crate::paths::normalize(file_path@),
        ),
        old(db).wf() ==> final(db).wf(),
{
    let path = crate::paths::normalize_saved_path(file_path);
    db.ensure_telegram_saved_folders(owner_id, now);
    db.get_telegram_saved_items_by_path(owner_id, path.as_str())
}

/// One page of the listing of the directory `file_path` of `owner_id`: at
/// most `limit` rows from `offset` on, where a limit counts as at least 1
/// and at most 200 and an offset as at least 0. One row more than the page
/// holds is read to see whether rows follow. An offset behind the end gives
/// an empty page.
pub fn list_saved_items_page(
    db: &mut Database,
    owner_id: &str,
    file_path: &str,
    offset: i64,
    limit: i64,
    now: &str,
) -> (page: SavedItemsPage)
    ensures
        final(db)@.items == crate::engine::ensured_default_folders(
            old(db)@.items,
            owner_id@,
            now@,
        ),
        final(db)@.messages == old(db)@.messages,
        final(db)@.settings == old(db)@.settings,
        page@ == held_page(
            page_of(
                directory_listing(final(db)@.items, owner_id@, crate::paths::normalize(file_path@)),
                offset as int,
                limit as int,
            ),
        ),
        old(db).wf() ==> final(db).wf(),
{
    let path = crate::paths::normalize_saved_path(file_path);
    let safe_offset: i64 = if offset < 0 {
        0
    } else {
        offset
    };
    let safe_limit: i64 = if limit < 1 {
        1
    } else if limit > 200 {
        200
    } else {
        limit
    };
    db.ensure_telegram_saved_folders(owner_id, now);
    let mut items = db.get_telegram_saved_items_by_path_paginated(
        owner_id,
        path.as_str(),
        safe_offset,
        safe_limit + 1,
    );
    let ghost listing = directory_listing(db@.items, owner_id@, path@);
    let ghost read = item_views(items@);
    let has_more: bool = items.len() > safe_limit as usize;
    if has_more {
        items.pop();
        assert(item_views(items@) =~= read.drop_last());
    }
    assert(item_views(items@) =~= window(listing, safe_offset as int, safe_limit as int));
    let returned: i64 = items.len() as i64;
    let next_offset: i64 = if safe_offset > i64::MAX - returned {
        i64::MAX
    } else {
        safe_offset + returned
    };
    SavedItemsPage { items, has_more, next_offset }
}

/// No text comes before itself, and of two different texts exactly one
/// comes before the other.
pub proof fn lemma_text_order_total(a: Seq<char>, b: Seq<char>)
    ensures
        !(text_less(a, b) && text_less(b, a)),
        a == b || text_less(a, b) || text_less(b, a),
        a == b ==> !text_less(a, b),
    decreases a.len(),
{
    if a.len() > 0 && b.len() > 0 {
        if a[0] == b[0] {
            lemma_text_order_total(a.drop_first(), b.drop_first());
            if a.drop_first() == b.drop_first() {
                assert(a =~= seq![a[0]] + a.drop_first());
                assert(b =~= seq![b[0]] + b.drop_first());
            }
        } else {
            assert((a[0] as u32) != (b[0] as u32)) by {
                vstd::utf8::char_u32_cast(a[0], a[0] as u32);
                vstd::utf8::char_u32_cast(b[0], b[0] as u32);
            }
        }
    } else if a.len() == 0 && b.len() == 0 {
        assert(a =~= b);
    }
}

/// The order of texts is transitive.
pub proof fn lemma_text_order_transitive(a: Seq<char>, b: Seq<char>, c: Seq<char>)
    requires
        text_less(a, b),
        text_less(b, c),
    ensures
        text_less(a, c),
    decreases a.len(),
{
    if a.len() > 0 && b.len() > 0 && c.len() > 0 {
        if a[0] == b[0] && b[0] == c[0] {
            lemma_text_order_transitive(a.drop_first(), b.drop_first(), c.drop_first());
        }
    }
}

/// Where neither `a` comes before `b` nor `b` before `c`, `a` does not come
/// before `c`.
pub proof fn lemma_text_order_weak(a: Seq<char>, b: Seq<char>, c: Seq<char>)
    requires
        !text_less(a, b),
        !text_less(b, c),
    ensures
        !text_less(a, c),
{
    lemma_text_order_total(a, b);
    lemma_text_order_total(b, c);
    lemma_text_order_total(a, c);
    if text_less(a, c) {
        if a == b {
        } else if b == c {
        } else {
            // c < b < a, so c < a
            lemma_text_order_transitive(c, b, a);
        }
    }
}

/// The order of a listing is a strict weak order.
pub proof fn lemma_listing_order_is_strict_weak()
    ensures
        crate::order::is_strict_weak::<ListingOrder>(),
{
    assert forall|a: SavedItemView, b: SavedItemView| #[trigger]
        ListingOrder::precedes(a, b) implies !ListingOrder::precedes(b, a) by {
        lemma_text_order_total(listing_name(a), listing_name(b));
    }
    assert forall|a: SavedItemView, b: SavedItemView, c: SavedItemView|
        !#[trigger] ListingOrder::precedes(a, b) && !#[trigger] ListingOrder::precedes(
            b,
            c,
        ) implies !ListingOrder::precedes(a, c) by {
        let (x, y, z) = (listing_name(a), listing_name(b), listing_name(c));
        lemma_text_order_total(x, y);
        lemma_text_order_total(y, z);
        lemma_text_order_total(x, z);
        if !text_less(x, y) && !text_less(y, z) {
            lemma_text_order_weak(x, y, z);
        }
    }
}

/// A listing is in order and shows what the directory holds: folders stand
/// before files, folders stand by name, files stand by message with the
/// newest first and by name within a message; and the listing holds each row
/// of the directory as often as the table does.
pub proof fn lemma_listing_is_ranked(rows: Seq<SavedItemView>, owner: Seq<char>, path: Seq<char>)
    ensures
        ({
            let listing = directory_listing(rows, owner, path);
            &&& listing.to_multiset() == select_rows(
                rows,
                owner,
                SelectorView::Directory { path },
            ).to_multiset()
            &&& forall|i: int, j: int|
                0 <= i < j < listing.len() ==> !listed_before(listing[j], listing[i])
        }),
{
    lemma_listing_order_is_strict_weak();
    crate::order::lemma_ranked::<ListingOrder>(
        select_rows(rows, owner, SelectorView::Directory { path }),
    );
    let listing = directory_listing(rows, owner, path);
    assert forall|i: int, j: int| 0 <= i < j < listing.len() implies !listed_before(
        listing[j],
        listing[i],
    ) by {
        assert(!ListingOrder::precedes(listing[j], listing[i]));
    }
}

} // verus!

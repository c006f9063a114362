//! Pulling remote messages into the index.
//!
//! The remote side is asked by the caller; the decisions are taken here. A
//! backfill runs in pages towards older messages: `begin_backfill` says
//! whether a page is to be fetched and below which message,
//! `finish_backfill` takes the page in and moves the cursor. A first index
//! run walks the whole history forward from the newest message; later runs
//! stop at the first message that the cache knows.

use crate::cache::{
    last_indexed_id, oldest_indexed_id, setting_value, upsert_message, with_setting,
};
use crate::engine::ensured_default_folders;
use crate::ingest::{derived_item, upsert_saved_item_from_message};
use crate::listing::page_limit;
use crate::model::{MessageView, SavedItemView, SettingView, TelegramMessage};
use crate::naming::is_token;
use crate::remote::{categorize_message, categorized, RemoteMessage};
use crate::store::{upsert_row, Database};
use crate::sync::{
    are_tokens, backfill_complete_key, backfill_cursor_key, complete_key, cursor_key,
    hydrate_saved_items_from_cached_messages, hydrated_rows, hydration_source, is_stale,
};
use crate::text::{chars_of, decimal, decimal_of, parse_i32, parse_i32_chars, same_text, string_of};
use vstd::prelude::*;

verus! {

/// The page size for a wish: the wish itself from 1 to 200, the nearest of
/// the two beyond them, 50 where there is no wish.
pub open spec fn clamped_batch_size(input: Option<i32>) -> int {
    let wish: int = match input {
        Some(n) => n as int,
        None => 50,
    };
    page_limit(wish)
}

/// The page size for a wish.
pub fn clamp_batch_size(input: Option<i32>) -> (size: usize)
    ensures
        size == clamped_batch_size(input),
        1 <= size <= 200,
{
    let wish: i32 = match input {
        Some(n) => n,
        None => 50,
    };
    if wish < 1 {
        1
    } else if wish > 200 {
        200
    } else {
        wish as usize
    }
}

/// The items and the cached messages of an index.
pub struct IndexView {
    pub items: Seq<SavedItemView>,
    pub messages: Seq<MessageView>,
}

/// The index after a remote message was taken in: where the message
/// carries something to hold, its snapshot is cached and its node is
/// written; else nothing changes.
pub open spec fn indexed_message(
    index: IndexView,
    owner: Seq<char>,
    chat_id: i64,
    message: RemoteMessage,
    token: Seq<char>,
) -> IndexView {
    match categorized(message, chat_id) {
        Some(snapshot) => IndexView {
            items: upsert_row(index.items, derived_item(owner, snapshot, None, None, token)),
            messages: upsert_message(index.messages, snapshot),
        },
        None => index,
    }
}

/// The index after the messages of `page` were taken in, in their order,
/// the `i`-th with the `i`-th token.
pub open spec fn indexed_page(
    index: IndexView,
    owner: Seq<char>,
    chat_id: i64,
    page: Seq<RemoteMessage>,
    tokens: Seq<Seq<char>>,
) -> IndexView
    decreases page.len(),
{
    if page.len() == 0 {
        index
    } else {
        indexed_message(
            indexed_page(index, owner, chat_id, page.drop_last(), tokens.drop_last()),
            owner,
            chat_id,
            page.last(),
            tokens.last(),
        )
    }
}

/// How many messages of `page` carry something to hold.
pub open spec fn holdable_count(page: Seq<RemoteMessage>, chat_id: i64) -> nat
    decreases page.len(),
{
    if page.len() == 0 {
        0
    } else {
        holdable_count(page.drop_last(), chat_id) + if categorized(page.last(), chat_id) is Some {
            1nat
        } else {
            0nat
        }
    }
}

/// The least id seen after `page`, starting from `start`, where a start
/// that is not positive stands for nothing seen yet. Only a positive id is
/// the id of a message: any other leaves what was seen as it is.
pub open spec fn least_seen(start: i32, page: Seq<RemoteMessage>) -> i32
    decreases page.len(),
{
    if page.len() == 0 {
        start
    } else {
        let before = least_seen(start, page.drop_last());
        let id = page.last().id;
        if id > 0 && (before <= 0 || id < before) {
            id
        } else {
            before
        }
    }
}

/// The cursor that the settings hold for a chat: the id below which the
/// next page starts, or 0 where none is stored or what is stored is no
/// number.
pub open spec fn stored_cursor(settings: Seq<SettingView>, chat_id: i64) -> i32 {
    match setting_value(settings, cursor_key(chat_id)) {
        Some(value) => match parse_i32(value) {
            Some(n) => n,
            None => 0,
        },
        None => 0,
    }
}

/// Whether the settings mark the backfill of a chat complete.
pub open spec fn backfill_complete(settings: Seq<SettingView>, chat_id: i64) -> bool {
    setting_value(settings, complete_key(chat_id)) == Some("1"@)
}

/// The id below which the next page starts: the stored cursor where it is
/// positive, else the oldest cached message, else 0 for the newest message
/// of all.
pub open spec fn backfill_start(
    settings: Seq<SettingView>,
    messages: Seq<MessageView>,
    chat_id: i64,
) -> i32 {
    if stored_cursor(settings, chat_id) > 0 {
        stored_cursor(settings, chat_id)
    } else {
        oldest_indexed_id(messages, chat_id)
    }
}

/// The settings after a page was taken in: the cursor is the least id seen,
/// where a message was fetched and that id is positive; the backfill is
/// complete exactly where the page holds fewer messages than were asked for.
pub open spec fn backfill_settings(
    settings: Seq<SettingView>,
    chat_id: i64,
    start: i32,
    page: Seq<RemoteMessage>,
    limit: int,
) -> Seq<SettingView> {
    let least = least_seen(start, page);
    let moved = if page.len() > 0 && least > 0 {
        with_setting(settings, cursor_key(chat_id), decimal(least as int))
    } else {
        settings
    };
    with_setting(
        moved,
        complete_key(chat_id),
        if page.len() == limit {
            "0"@
        } else {
            "1"@
        },
    )
}

/// What the next step of a backfill is.
#[derive(Clone, Copy, Debug, PartialEq, Eq)]
pub enum BackfillStep {
    /// The history is complete; nothing is to be fetched.
    Complete,
    /// A page of at most `limit` messages older than `offset_id` is to be
    /// fetched, newest first; an `offset_id` of 0 means from the newest
    /// message on.
    Fetch { offset_id: i32, limit: usize },
}

/// The next step of a backfill: none once the backfill is complete, else a
/// page below the start.
pub open spec fn backfill_step(
    settings: Seq<SettingView>,
    messages: Seq<MessageView>,
    chat_id: i64,
    batch_size: Option<i32>,
) -> BackfillStep {
    if backfill_complete(settings, chat_id) {
        BackfillStep::Complete
    } else {
        BackfillStep::Fetch {
            offset_id: backfill_start(settings, messages, chat_id),
            limit: clamped_batch_size(batch_size) as usize,
        }
    }
}

/// What a backfill call reports.
#[derive(Clone, Copy, Debug, PartialEq, Eq)]
pub struct BackfillReport {
    pub fetched_count: usize,
    pub indexed_count: usize,
    pub has_more: bool,
    pub is_complete: bool,
    pub next_offset_id: Option<i32>,
}

/// The report of a backfill call that found the history complete.
pub open spec fn complete_report() -> BackfillReport {
    BackfillReport {
        fetched_count: 0,
        indexed_count: 0,
        has_more: false,
        is_complete: true,
        next_offset_id: None,
    }
}

/// The report of a backfill call that took `page` in.
pub open spec fn page_report(chat_id: i64, start: i32, page: Seq<RemoteMessage>, limit: int)
    -> BackfillReport {
    let least = least_seen(start, page);
    BackfillReport {
        fetched_count: page.len() as usize,
        indexed_count: holdable_count(page, chat_id) as usize,
        has_more: page.len() == limit,
        is_complete: page.len() != limit,
        next_offset_id: if least > 0 {
            Some(least)
        } else {
            None
        },
    }
}

/// The report of a backfill call that found the history complete.
pub fn complete_backfill_report() -> (r: BackfillReport)
    ensures
        r == complete_report(),
{
    BackfillReport {
        fetched_count: 0,
        indexed_count: 0,
        has_more: false,
        is_complete: true,
        next_offset_id: None,
    }
}

/// Takes one remote message into the index. Returns its snapshot, or `None`
/// where the message carries nothing to hold.
pub fn index_remote_message(
    db: &mut Database,
    owner_id: &str,
    chat_id: i64,
    message: &RemoteMessage,
) -> (r: Option<TelegramMessage>)
    ensures
        match r {
            Some(m) => categorized(*message, chat_id) == Some(m@),
            None => categorized(*message, chat_id) is None,
        },
        exists|token: Seq<char>|
            #[trigger] is_token(token) && (IndexView {
                items: final(db)@.items,
                messages: final(db)@.messages,
            }) == indexed_message(
                IndexView { items: old(db)@.items, messages: old(db)@.messages },
                owner_id@,
                chat_id,
                *message,
                token,
            ),
        final(db)@.settings == old(db)@.settings,
        old(db).wf() ==> final(db).wf(),
{
    match categorize_message(message, chat_id) {
        Some(snapshot) => {
            db.save_telegram_message(&snapshot);
            let ghost before = db@.items;
            upsert_saved_item_from_message(db, owner_id, &snapshot, None, None);
            proof {
                let token = choose|token: Seq<char>|
                    is_token(token) && db@.items == upsert_row(
                        before,
                        #[trigger] derived_item(owner_id@, snapshot@, None, None, token),
                    );
                assert(is_token(token) && (IndexView {
                    items: db@.items,
                    messages: db@.messages,
                }) == indexed_message(
                    IndexView { items: old(db)@.items, messages: old(db)@.messages },
                    owner_id@,
                    chat_id,
                    *message,
                    token,
                ));
            }
            Some(snapshot)
        },
        None => {
            proof {
                let token = crate::ingest::lemma_some_token();
                assert(is_token(token) && (IndexView {
                    items: db@.items,
                    messages: db@.messages,
                }) == indexed_message(
                    IndexView { items: old(db)@.items, messages: old(db)@.messages },
                    owner_id@,
                    chat_id,
                    *message,
                    token,
                ));
            }
            None
        },
    }
}

/// The first step of a backfill call: makes sure that the default folders
/// of `owner_id` exist, then says whether a page is to be fetched. Nothing
/// is fetched once the backfill is complete.
pub fn begin_backfill(
    db: &mut Database,
    owner_id: &str,
    chat_id: i64,
    batch_size: Option<i32>,
    now: &str,
) -> (step: BackfillStep)
    ensures
        final(db)@.items == ensured_default_folders(old(db)@.items, owner_id@, now@),
        final(db)@.messages == old(db)@.messages,
        final(db)@.settings == old(db)@.settings,
        step == backfill_step(old(db)@.settings, old(db)@.messages, chat_id, batch_size),
        old(db).wf() ==> final(db).wf(),
{
    let limit = clamp_batch_size(batch_size);
    db.ensure_telegram_saved_folders(owner_id, now);
    let complete = match db.get_setting(backfill_complete_key(chat_id).as_str()) {
        Some(value) => same_text(value.as_str(), "1"),
        None => false,
    };
    if complete {
        return BackfillStep::Complete;
    }
    let stored: i32 = match db.get_setting(backfill_cursor_key(chat_id).as_str()) {
        Some(value) => match parse_i32_chars(&chars_of(value.as_str())) {
            Some(n) => n,
            None => 0,
        },
        None => 0,
    };
    let offset_id: i32 = if stored > 0 {
        stored
    } else {
        db.get_oldest_indexed_message_id(chat_id)
    };
    BackfillStep::Fetch { offset_id, limit }
}

/// The last step of a backfill call: takes the fetched page in, moves the
/// cursor to the least id seen and marks the backfill complete where the
/// page holds fewer messages than were asked for.
pub fn finish_backfill(
    db: &mut Database,
    owner_id: &str,
    chat_id: i64,
    offset_id: i32,
    limit: usize,
    page: &Vec<RemoteMessage>,
) -> (report: BackfillReport)
    ensures
        exists|tokens: Seq<Seq<char>>|
            #[trigger] are_tokens(tokens, page@.len()) && (IndexView {
                items: final(db)@.items,
                messages: final(db)@.messages,
            }) == indexed_page(
                IndexView { items: old(db)@.items, messages: old(db)@.messages },
                owner_id@,
                chat_id,
                page@,
                tokens,
            ),
        final(db)@.settings == backfill_settings(
            old(db)@.settings,
            chat_id,
            offset_id,
            page@,
            limit as int,
        ),
        report == page_report(chat_id, offset_id, page@, limit as int),
        old(db).wf() ==> final(db).wf(),
{
    let mut indexed_count: usize = 0;
    let mut least: i32 = offset_id;
    let ghost mut tokens: Seq<Seq<char>> = Seq::empty();
    let ghost start = IndexView { items: db@.items, messages: db@.messages };
    let mut i: usize = 0;
    assert(page@.take(0) =~= Seq::<RemoteMessage>::empty());
    while i < page.len()
        invariant
            i <= page.len(),
            are_tokens(tokens, i as nat),
            (IndexView { items: db@.items, messages: db@.messages }) == indexed_page(
                start,
                owner_id@,
                chat_id,
                page@.take(i as int),
                tokens,
            ),
            db@.settings == old(db)@.settings,
            least == least_seen(offset_id, page@.take(i as int)),
            indexed_count == holdable_count(page@.take(i as int), chat_id),
            indexed_count <= i,
            old(db).wf() ==> db.wf(),
        decreases page.len() - i,
    {
        let message = &page[i];
        assert(page@.take(i + 1).drop_last() =~= page@.take(i as int));
        assert(page@.take(i + 1).last() == *message);
        if message.id > 0 && (least <= 0 || message.id < least) {
            least = message.id;
        }
        let ghost before = IndexView { items: db@.items, messages: db@.messages };
        let indexed = index_remote_message(db, owner_id, chat_id, message);
        if indexed.is_some() {
            indexed_count += 1;
        }
        proof {
            let token = choose|token: Seq<char>|
                #[trigger] is_token(token) && (IndexView {
                    items: db@.items,
                    messages: db@.messages,
                }) == indexed_message(before, owner_id@, chat_id, *message, token);
            let longer = tokens.push(token);
            assert(longer.drop_last() =~= tokens);
            tokens = longer;
        }
        i += 1;
    }
    assert(page@.take(i as int) =~= page@);
    if page.len() > 0 && least > 0 {
        let cursor = string_of(&decimal_of(least as i64));
        db.set_setting(backfill_cursor_key(chat_id).as_str(), cursor.as_str());
    }
    let has_more: bool = page.len() == limit;
    db.set_setting(backfill_complete_key(chat_id).as_str(), if has_more { "0" } else { "1" });
    BackfillReport {
        fetched_count: page.len(),
        indexed_count,
        has_more,
        is_complete: !has_more,
        next_offset_id: if least > 0 {
            Some(least)
        } else {
            None
        },
    }
}

/// How many new messages of each category an index run took in.
#[derive(Clone, Copy, Debug, PartialEq, Eq)]
pub struct CategoryCounts {
    pub images: usize,
    pub videos: usize,
    pub audios: usize,
    pub documents: usize,
    pub notes: usize,
    /// Messages of a category that is none of the five.
    pub other: usize,
}

/// `n` and one more, as far as `usize` goes.
pub open spec fn one_more(n: usize) -> usize {
    if n < usize::MAX {
        (n + 1) as usize
    } else {
        n
    }
}

/// The counts after one more message of `category` was taken in.
pub open spec fn counted(counts: CategoryCounts, category: Seq<char>) -> CategoryCounts {
    if category == "Images"@ {
        CategoryCounts { images: one_more(counts.images), ..counts }
    } else if category == "Videos"@ {
        CategoryCounts { videos: one_more(counts.videos), ..counts }
    } else if category == "Audios"@ {
        CategoryCounts { audios: one_more(counts.audios), ..counts }
    } else if category == "Documents"@ {
        CategoryCounts { documents: one_more(counts.documents), ..counts }
    } else if category == "Notes"@ {
        CategoryCounts { notes: one_more(counts.notes), ..counts }
    } else {
        CategoryCounts { other: one_more(counts.other), ..counts }
    }
}

/// The state of an index run between two remote messages.
#[derive(Clone, Copy, Debug, PartialEq, Eq)]
pub struct IndexRun {
    /// The newest message that the cache knew when the run began, or 0.
    pub last_id: i32,
    /// Whether the cache was empty when the run began.
    pub started_from_empty_db: bool,
    pub new_count: usize,
    /// The least id of a message taken in, or 0.
    pub min_indexed_id: i32,
    pub categories: CategoryCounts,
}

/// What an index run reports.
#[derive(Clone, Copy, Debug, PartialEq, Eq)]
pub struct IndexReport {
    pub total_new_messages: usize,
    pub categories: CategoryCounts,
    pub started_from_empty_db: bool,
}

/// The state in which an index run begins.
pub open spec fn fresh_run(last_id: i32) -> IndexRun {
    IndexRun {
        last_id,
        started_from_empty_db: last_id == 0,
        new_count: 0,
        min_indexed_id: 0,
        categories: CategoryCounts {
            images: 0,
            videos: 0,
            audios: 0,
            documents: 0,
            notes: 0,
            other: 0,
        },
    }
}

/// Whether a run goes on with `message`: always in a first run; in a later
/// run only while the messages are newer than what the cache knew.
pub open spec fn run_accepts(run: IndexRun, message: RemoteMessage) -> bool {
    run.started_from_empty_db || message.id > run.last_id
}

/// The state of a run after it went on with `message`.
pub open spec fn run_after(run: IndexRun, chat_id: i64, message: RemoteMessage) -> IndexRun {
    match categorized(message, chat_id) {
        Some(snapshot) => IndexRun {
            new_count: one_more(run.new_count),
            min_indexed_id: if run.min_indexed_id == 0 || snapshot.message_id
                < run.min_indexed_id {
                snapshot.message_id
            } else {
                run.min_indexed_id
            },
            categories: counted(run.categories, snapshot.category),
            ..run
        },
        None => run,
    }
}

/// The settings after a run ended: a first run marks the backfill complete
/// and puts the cursor at the least id it took in, where that is positive;
/// a later run leaves the settings alone.
pub open spec fn settings_after_run(settings: Seq<SettingView>, chat_id: i64, run: IndexRun) -> Seq<
    SettingView,
> {
    if run.started_from_empty_db {
        let complete = with_setting(settings, complete_key(chat_id), "1"@);
        if run.min_indexed_id > 0 {
            with_setting(complete, cursor_key(chat_id), decimal(run.min_indexed_id as int))
        } else {
            complete
        }
    } else {
        settings
    }
}

fn bump(n: usize) -> (r: usize)
    ensures
        r == one_more(n),
{
    if n < usize::MAX {
        n + 1
    } else {
        n
    }
}

fn count_category(counts: CategoryCounts, category: &str) -> (r: CategoryCounts)
    ensures
        r == counted(counts, category@),
{
    let mut r = counts;
    if same_text(category, "Images") {
        r.images = bump(counts.images);
    } else if same_text(category, "Videos") {
        r.videos = bump(counts.videos);
    } else if same_text(category, "Audios") {
        r.audios = bump(counts.audios);
    } else if same_text(category, "Documents") {
        r.documents = bump(counts.documents);
    } else if same_text(category, "Notes") {
        r.notes = bump(counts.notes);
    } else {
        r.other = bump(counts.other);
    }
    r
}

/// Begins an index run: notes the newest cached message, makes sure that
/// the default folders of `owner_id` exist, and derives every node anew where
/// the tree lags behind the cache.
pub fn begin_index(db: &mut Database, owner_id: &str, chat_id: i64, now: &str) -> (run: IndexRun)
    ensures
        run == fresh_run(last_indexed_id(old(db)@.messages, chat_id)),
        ({
            let ensured = ensured_default_folders(old(db)@.items, owner_id@, now@);
            let stale = is_stale(ensured, old(db)@.messages, owner_id@, chat_id);
            &&& exists|tokens: Seq<Seq<char>>|
                #[trigger] are_tokens(
                    tokens,
                    hydration_source(old(db)@.messages, chat_id, stale).len(),
                ) && final(db)@.items == hydrated_rows(
                    ensured,
                    owner_id@,
                    hydration_source(old(db)@.messages, chat_id, stale),
                    tokens,
                )
            &&& final(db)@.settings == if stale {
                crate::sync::backfill_reset(
                    old(db)@.settings,
                    chat_id,
                    oldest_indexed_id(old(db)@.messages, chat_id),
                )
            } else {
                old(db)@.settings
            }
        }),
        final(db)@.messages == old(db)@.messages,
        old(db).wf() ==> final(db).wf(),
{
    let last_id = db.get_last_indexed_message_id(chat_id);
    db.ensure_telegram_saved_folders(owner_id, now);
    let ghost ensured = db@.items;
    let written = hydrate_saved_items_from_cached_messages(db, owner_id, chat_id);
    proof {
        let stale = is_stale(ensured, old(db)@.messages, owner_id@, chat_id);
        assert(stale == (written > 0));
        let source = hydration_source(old(db)@.messages, chat_id, stale);
        if stale {
            crate::order::lemma_ranked_len::<crate::cache::NewestFirst>(
                crate::cache::select_messages(
                    old(db)@.messages,
                    crate::cache::MessageSelectorView::Chat { chat_id },
                ),
            );
        }
        assert(source.len() == written);
        let tokens = choose|tokens: Seq<Seq<char>>|
            #[trigger] are_tokens(tokens, written as nat) && db@.items == hydrated_rows(
                ensured,
                owner_id@,
                hydration_source(old(db)@.messages, chat_id, written > 0),
                tokens,
            );
        assert(are_tokens(tokens, source.len()) && db@.items == hydrated_rows(
            ensured,
            owner_id@,
            source,
            tokens,
        ));
    }
    IndexRun {
        last_id,
        started_from_empty_db: last_id == 0,
        new_count: 0,
        min_indexed_id: 0,
        categories: CategoryCounts {
            images: 0,
            videos: 0,
            audios: 0,
            documents: 0,
            notes: 0,
            other: 0,
        },
    }
}

/// Whether a run goes on with `message`.
pub fn run_goes_on(run: &IndexRun, message: &RemoteMessage) -> (go_on: bool)
    ensures
        go_on == run_accepts(*run, *message),
{
    run.started_from_empty_db || message.id > run.last_id
}

/// Goes on with the next remote message of an index run, newest first.
/// Returns whether the run goes on: a run that did not begin on an empty
/// cache ends at the first message that is not newer than the cache was, and
/// that message changes nothing.
pub fn index_next(
    db: &mut Database,
    owner_id: &str,
    chat_id: i64,
    run: &mut IndexRun,
    message: &RemoteMessage,
) -> (go_on: bool)
    ensures
        go_on == run_accepts(*old(run), *message),
        go_on ==> *final(run) == run_after(*old(run), chat_id, *message),
        go_on ==> exists|token: Seq<char>|
            #[trigger] is_token(token) && (IndexView {
                items: final(db)@.items,
                messages: final(db)@.messages,
            }) == indexed_message(
                IndexView { items: old(db)@.items, messages: old(db)@.messages },
                owner_id@,
                chat_id,
                *message,
                token,
            ),
        !go_on ==> *final(run) == *old(run) && final(db)@ == old(db)@,
        final(db)@.settings == old(db)@.settings,
        old(db).wf() ==> final(db).wf(),
{
    if !run_goes_on(run, message) {
        return false;
    }
    match index_remote_message(db, owner_id, chat_id, message) {
        Some(snapshot) => {
            run.new_count = bump(run.new_count);
            if run.min_indexed_id == 0 || snapshot.message_id < run.min_indexed_id {
                run.min_indexed_id = snapshot.message_id;
            }
            run.categories = count_category(run.categories, snapshot.category.as_str());
        },
        None => {},
    }
    true
}

/// Ends an index run. A run that began on an empty cache has walked the
/// whole history: it marks the backfill complete and puts the cursor at the
/// least id it took in.
pub fn finish_index(db: &mut Database, chat_id: i64, run: &IndexRun) -> (report: IndexReport)
    ensures
        final(db)@.settings == settings_after_run(old(db)@.settings, chat_id, *run),
        final(db)@.items == old(db)@.items,
        final(db)@.messages == old(db)@.messages,
        report == (IndexReport {
            total_new_messages: run.new_count,
            categories: run.categories,
            started_from_empty_db: run.started_from_empty_db,
        }),
        old(db).wf() ==> final(db).wf(),
{
    if run.started_from_empty_db {
        db.set_setting(backfill_complete_key(chat_id).as_str(), "1");
        if run.min_indexed_id > 0 {
            let cursor = string_of(&decimal_of(run.min_indexed_id as i64));
            db.set_setting(backfill_cursor_key(chat_id).as_str(), cursor.as_str());
        }
    }
    IndexReport {
        total_new_messages: run.new_count,
        categories: run.categories,
        started_from_empty_db: run.started_from_empty_db,
    }
}

} // verus!

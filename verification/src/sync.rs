//! Keeping the tree in step with the cache: hydration, which derives the
//! nodes anew from the cached messages, and the bookkeeping of the backfill
//! cursor.

use crate::cache::{oldest_indexed_id, select_messages, with_setting, MessageSelectorView, NewestFirst};
use crate::ingest::{derived_item, upsert_saved_item_from_message};
use crate::model::{item_views, message_views, MessageView, SavedItemView, SettingView,
    TelegramSavedItem};
use crate::naming::is_token;
use crate::order::ranked;
use crate::store::{is_folder, upsert_row, Database};
use crate::text::{
    ascii_lowercase, ascii_lowercase_chars, chars_of, concat_chars, decimal, decimal_of,
    same_text, starts_with_chars, string_of,
};
use vstd::prelude::*;

verus! {

/// The key under which the backfill cursor of a chat is stored.
pub open spec fn cursor_key(chat_id: i64) -> Seq<char> {
    "tg_saved_backfill_cursor_"@ + decimal(chat_id as int)
}

/// The key under which a chat's backfill is marked complete.
pub open spec fn complete_key(chat_id: i64) -> Seq<char> {
    "tg_saved_backfill_complete_"@ + decimal(chat_id as int)
}

/// The key under which the backfill cursor of a chat is stored.
pub fn backfill_cursor_key(chat_id: i64) -> (key: String)
    ensures
        key@ == cursor_key(chat_id),
{
    string_of(&concat_chars(&chars_of("tg_saved_backfill_cursor_"), &decimal_of(chat_id)))
}

/// The key under which a chat's backfill is marked complete.
pub fn backfill_complete_key(chat_id: i64) -> (key: String)
    ensures
        key@ == complete_key(chat_id),
{
    string_of(&concat_chars(&chars_of("tg_saved_backfill_complete_"), &decimal_of(chat_id)))
}

/// What a count of rows looks for.
#[derive(Clone, Copy, Debug, PartialEq, Eq)]
pub enum RowTest {
    /// Rows that are no folders.
    NonFolder,
    /// Rows that are no folders and whose name is empty or spaces alone.
    Unnamed,
    /// Media rows with a made-up name that has no extension.
    GeneratedWithoutExtension,
}

/// Whether a name holds nothing but spaces.
pub open spec fn is_blank(name: Seq<char>) -> bool {
    forall|i: int| 0 <= i < name.len() ==> #[trigger] name[i] == ' '
}

/// Whether a name holds a dot.
pub open spec fn has_dot(name: Seq<char>) -> bool {
    exists|i: int| 0 <= i < name.len() && #[trigger] name[i] == '.'
}

/// Whether `name` starts as the made-up names of `file_type` do: with the
/// kind and `_`, whatever the case of its ASCII letters.
pub open spec fn starts_like_generated(name: Seq<char>, file_type: Seq<char>) -> bool {
    (file_type + seq!['_']).is_prefix_of(ascii_lowercase(name))
}

/// Whether `row` is a row of `owner` that `test` looks for.
pub open spec fn passes(test: RowTest, owner: Seq<char>, row: SavedItemView) -> bool {
    row.owner_id == owner && !is_folder(row) && match test {
        RowTest::NonFolder => true,
        RowTest::Unnamed => is_blank(row.file_name),
        RowTest::GeneratedWithoutExtension => {
            &&& !is_blank(row.file_name)
            &&& !has_dot(row.file_name)
            &&& crate::ingest::is_media_type(row.file_type)
            &&& starts_like_generated(row.file_name, row.file_type)
        },
    }
}

/// How many rows of `owner` the test looks for.
pub open spec fn count_passing(rows: Seq<SavedItemView>, owner: Seq<char>, test: RowTest) -> nat
    decreases rows.len(),
{
    if rows.len() == 0 {
        0
    } else {
        count_passing(rows.drop_last(), owner, test) + if passes(test, owner, rows.last()) {
            1nat
        } else {
            0nat
        }
    }
}

/// How many messages of a chat are cached.
pub open spec fn indexed_count(messages: Seq<MessageView>, chat_id: i64) -> nat {
    select_messages(messages, MessageSelectorView::Chat { chat_id }).len()
}

/// Whether the tree of `owner` lags behind the cache of `chat_id`: the
/// cache holds messages, and it holds more of them than the tree has
/// files, or a file has no name, or a made-up media name lacks its
/// extension.
pub open spec fn is_stale(
    rows: Seq<SavedItemView>,
    messages: Seq<MessageView>,
    owner: Seq<char>,
    chat_id: i64,
) -> bool {
    &&& indexed_count(messages, chat_id) > 0
    &&& {
        ||| count_passing(rows, owner, RowTest::NonFolder) < indexed_count(messages, chat_id)
        ||| count_passing(rows, owner, RowTest::Unnamed) > 0
        ||| count_passing(rows, owner, RowTest::GeneratedWithoutExtension) > 0
    }
}

/// The tree after the nodes of `messages` were derived and written, one
/// after the other, the name of the `i`-th with the `i`-th token.
pub open spec fn hydrated_rows(
    rows: Seq<SavedItemView>,
    owner: Seq<char>,
    messages: Seq<MessageView>,
    tokens: Seq<Seq<char>>,
) -> Seq<SavedItemView>
    decreases messages.len(),
{
    if messages.len() == 0 {
        rows
    } else {
        upsert_row(
            hydrated_rows(rows, owner, messages.drop_last(), tokens.drop_last()),
            derived_item(owner, messages.last(), None, None, tokens.last()),
        )
    }
}

/// Whether `tokens` holds `count` texts in the form of a token.
pub open spec fn are_tokens(tokens: Seq<Seq<char>>, count: nat) -> bool {
    tokens.len() == count && forall|i: int| 0 <= i < tokens.len() ==> is_token(#[trigger] tokens[i])
}

/// The settings after the backfill of a chat was set back to start below
/// `oldest`; unchanged where `oldest` is not positive.
pub open spec fn backfill_reset(settings: Seq<SettingView>, chat_id: i64, oldest: i32) -> Seq<
    SettingView,
> {
    if oldest > 0 {
        with_setting(
            with_setting(settings, cursor_key(chat_id), decimal(oldest as int)),
            complete_key(chat_id),
            "0"@,
        )
    } else {
        settings
    }
}

/// The cached messages of a chat, newest first.
pub open spec fn cached_newest_first(messages: Seq<MessageView>, chat_id: i64) -> Seq<MessageView> {
    ranked::<NewestFirst>(select_messages(messages, MessageSelectorView::Chat { chat_id }))
}

/// The messages that a hydration works through: the cached messages of the
/// chat, newest first, where the tree lags behind; none where it does not.
pub open spec fn hydration_source(messages: Seq<MessageView>, chat_id: i64, stale: bool) -> Seq<
    MessageView,
> {
    if stale {
        cached_newest_first(messages, chat_id)
    } else {
        Seq::empty()
    }
}

fn name_is_blank(name: &Vec<char>) -> (b: bool)
    ensures
        b == is_blank(name@),
{
    let mut i: usize = 0;
    while i < name.len()
        invariant
            i <= name.len(),
            forall|k: int| 0 <= k < i ==> #[trigger] name@[k] == ' ',
        decreases name.len() - i,
    {
        if name[i] != ' ' {
            return false;
        }
        i += 1;
    }
    true
}

fn name_has_dot(name: &Vec<char>) -> (b: bool)
    ensures
        b == has_dot(name@),
{
    let mut i: usize = 0;
    while i < name.len()
        invariant
            i <= name.len(),
            forall|k: int| 0 <= k < i ==> #[trigger] name@[k] != '.',
        decreases name.len() - i,
    {
        if name[i] == '.' {
            return true;
        }
        i += 1;
    }
    false
}

/// Whether `row` is a row of `owner_id` that `test` looks for.
pub fn row_passes(row: &TelegramSavedItem, owner_id: &str, test: RowTest) -> (b: bool)
    ensures
        b == passes(test, owner_id@, row@),
{
    if !same_text(row.owner_id.as_str(), owner_id) || same_text(row.file_type.as_str(), "folder") {
        return false;
    }
    match test {
        RowTest::NonFolder => true,
        RowTest::Unnamed => name_is_blank(&chars_of(row.file_name.as_str())),
        RowTest::GeneratedWithoutExtension => {
            let name = chars_of(row.file_name.as_str());
            if name_is_blank(&name) || name_has_dot(&name) {
                return false;
            }
            let kind = row.file_type.as_str();
            if !(same_text(kind, "image") || same_text(kind, "video") || same_text(kind, "audio")) {
                return false;
            }
            let mut underscore: Vec<char> = Vec::new();
            underscore.push('_');
            assert(underscore@ =~= seq!['_']);
            let prefix = concat_chars(&chars_of(kind), &underscore);
            starts_with_chars(&ascii_lowercase_chars(&name), &prefix)
        },
    }
}

impl Database {
    /// How many rows of `owner_id` the test looks for.
    pub fn count_where(&self, owner_id: &str, test: RowTest) -> (n: usize)
        ensures
            n == count_passing(self@.items, owner_id@, test),
    {
        let mut n: usize = 0;
        let mut i: usize = 0;
        let ghost all = self@.items;
        assert(all.take(0) =~= Seq::<SavedItemView>::empty());
        while i < self.items.len()
            invariant
                i <= self.items.len(),
                all == item_views(self.items@),
                n == count_passing(all.take(i as int), owner_id@, test),
                n <= i,
            decreases self.items.len() - i,
        {
            let row = &self.items[i];
            assert(all[i as int] == row@);
            assert(all.take(i + 1).drop_last() =~= all.take(i as int));
            assert(all.take(i + 1).last() == row@);
            if row_passes(row, owner_id, test) {
                n += 1;
            }
            i += 1;
        }
        assert(all.take(i as int) =~= all);
        n
    }

    /// How many files `owner_id` has.
    pub fn count_telegram_saved_non_folder_items(&self, owner_id: &str) -> (n: usize)
        ensures
            n == count_passing(self@.items, owner_id@, RowTest::NonFolder),
    {
        self.count_where(owner_id, RowTest::NonFolder)
    }

    /// How many files of `owner_id` have no name.
    pub fn count_telegram_saved_items_with_empty_name(&self, owner_id: &str) -> (n: usize)
        ensures
            n == count_passing(self@.items, owner_id@, RowTest::Unnamed),
    {
        self.count_where(owner_id, RowTest::Unnamed)
    }

    /// How many media files of `owner_id` have a made-up name without an
    /// extension.
    pub fn count_telegram_generated_names_missing_extension(&self, owner_id: &str) -> (n: usize)
        ensures
            n == count_passing(self@.items, owner_id@, RowTest::GeneratedWithoutExtension),
    {
        self.count_where(owner_id, RowTest::GeneratedWithoutExtension)
    }
}

/// Whether the tree of `owner_id` lags behind the cache of `chat_id`.
pub fn index_is_stale(db: &Database, owner_id: &str, chat_id: i64) -> (stale: bool)
    ensures
        stale == is_stale(db@.items, db@.messages, owner_id@, chat_id),
{
    let indexed = db.count_all_indexed_messages(chat_id);
    if indexed == 0 {
        return false;
    }
    let existing = db.count_telegram_saved_non_folder_items(owner_id);
    let unnamed = db.count_telegram_saved_items_with_empty_name(owner_id);
    let generated = db.count_telegram_generated_names_missing_extension(owner_id);
    !(existing >= indexed && unnamed == 0 && generated == 0)
}

/// Derives the node of every cached message of `chat_id` anew, newest
/// message first, and sets the backfill back to start below the oldest
/// cached message. Returns how many nodes were written.
pub fn rehydrate(db: &mut Database, owner_id: &str, chat_id: i64) -> (written: usize)
    ensures
        written == indexed_count(old(db)@.messages, chat_id),
        exists|tokens: Seq<Seq<char>>|
            #[trigger] are_tokens(tokens, written as nat) && final(db)@.items == hydrated_rows(
                old(db)@.items,
                owner_id@,
                cached_newest_first(old(db)@.messages, chat_id),
                tokens,
            ),
        final(db)@.messages == old(db)@.messages,
        final(db)@.settings == if written > 0 {
            backfill_reset(
                old(db)@.settings,
                chat_id,
                oldest_indexed_id(old(db)@.messages, chat_id),
            )
        } else {
            old(db)@.settings
        },
        old(db).wf() ==> final(db).wf(),
{
    let cached = db.get_all_indexed_messages(chat_id);
    let ghost all = message_views(cached@);
    proof {
        crate::order::lemma_ranked_len::<NewestFirst>(
            select_messages(db@.messages, MessageSelectorView::Chat { chat_id }),
        );
    }
    let ghost mut tokens: Seq<Seq<char>> = Seq::empty();
    let mut i: usize = 0;
    assert(all.take(0) =~= Seq::<MessageView>::empty());
    while i < cached.len()
        invariant
            i <= cached.len(),
            all == message_views(cached@),
            are_tokens(tokens, i as nat),
            db@.items == hydrated_rows(old(db)@.items, owner_id@, all.take(i as int), tokens),
            db@.messages == old(db)@.messages,
            db@.settings == old(db)@.settings,
            old(db).wf() ==> db.wf(),
        decreases cached.len() - i,
    {
        let ghost before = db@.items;
        upsert_saved_item_from_message(db, owner_id, &cached[i], None, None);
        proof {
            let token = choose|token: Seq<char>|
                is_token(token) && db@.items == upsert_row(
                    before,
                    #[trigger] derived_item(owner_id@, cached@[i as int]@, None, None, token),
                );
            let longer = tokens.push(token);
            assert(longer.drop_last() =~= tokens);
            assert(all.take(i + 1).drop_last() =~= all.take(i as int));
            assert(all.take(i + 1).last() == cached@[i as int]@);
            tokens = longer;
        }
        i += 1;
    }
    assert(all.take(i as int) =~= all);
    if cached.len() == 0 {
        return 0;
    }
    let oldest = db.get_oldest_indexed_message_id(chat_id);
    if oldest > 0 {
        let cursor = string_of(&decimal_of(oldest as i64));
        db.set_setting(backfill_cursor_key(chat_id).as_str(), cursor.as_str());
        db.set_setting(backfill_complete_key(chat_id).as_str(), "0");
    }
    cached.len()
}

/// Looks whether the tree of `owner_id` lags behind the cache of `chat_id`
/// and, where it does, derives every node anew. Returns how many nodes were
/// written: none where the tree is up to date.
pub fn hydrate_saved_items_from_cached_messages(db: &mut Database, owner_id: &str, chat_id: i64)
    -> (written: usize)
    ensures
        written == if is_stale(old(db)@.items, old(db)@.messages, owner_id@, chat_id) {
            indexed_count(old(db)@.messages, chat_id)
        } else {
            0
        },
        exists|tokens: Seq<Seq<char>>|
            #[trigger] are_tokens(tokens, written as nat) && final(db)@.items == hydrated_rows(
                old(db)@.items,
                owner_id@,
                hydration_source(old(db)@.messages, chat_id, written > 0),
                tokens,
            ),
        final(db)@.messages == old(db)@.messages,
        final(db)@.settings == if written > 0 {
            backfill_reset(
                old(db)@.settings,
                chat_id,
                oldest_indexed_id(old(db)@.messages, chat_id),
            )
        } else {
            old(db)@.settings
        },
        old(db).wf() ==> final(db).wf(),
{
    if !index_is_stale(db, owner_id, chat_id) {
        proof {
            let none: Seq<Seq<char>> = Seq::empty();
            assert(are_tokens(none, 0));
            assert(db@.items == hydrated_rows(
                old(db)@.items,
                owner_id@,
                Seq::<MessageView>::empty(),
                none,
            ));
        }
        return 0;
    }
    rehydrate(db, owner_id, chat_id)
}

/// What rebuilding the tree reports.
#[derive(Clone, Copy, Debug, PartialEq, Eq)]
pub struct RebuildReport {
    pub upserted_count: usize,
    pub oldest_message_id: i32,
}

/// Makes sure that the default folders of `owner_id` exist and derives every
/// node anew where the tree lags behind the cache. Reports how many nodes
/// were written and the id of the oldest cached message.
pub fn rebuild_saved_items_index(db: &mut Database, owner_id: &str, chat_id: i64, now: &str) -> (r:
    RebuildReport)
    ensures
        ({
            let ensured = crate::engine::ensured_default_folders(old(db)@.items, owner_id@, now@);
            let stale = is_stale(ensured, old(db)@.messages, owner_id@, chat_id);
            &&& r.upserted_count == if stale {
                indexed_count(old(db)@.messages, chat_id)
            } else {
                0
            }
            &&& r.oldest_message_id == oldest_indexed_id(old(db)@.messages, chat_id)
            &&& exists|tokens: Seq<Seq<char>>|
                #[trigger] are_tokens(tokens, r.upserted_count as nat) && final(db)@.items
                    == hydrated_rows(
                    ensured,
                    owner_id@,
                    hydration_source(old(db)@.messages, chat_id, stale),
                    tokens,
                )
            &&& final(db)@.settings == if stale {
                backfill_reset(old(db)@.settings, chat_id, r.oldest_message_id)
            } else {
                old(db)@.settings
            }
        }),
        final(db)@.messages == old(db)@.messages,
        old(db).wf() ==> final(db).wf(),
{
    db.ensure_telegram_saved_folders(owner_id, now);
    let ghost ensured = db@.items;
    let upserted_count = hydrate_saved_items_from_cached_messages(db, owner_id, chat_id);
    let oldest_message_id = db.get_oldest_indexed_message_id(chat_id);
    proof {
        let stale = is_stale(ensured, old(db)@.messages, owner_id@, chat_id);
        assert(stale == (upserted_count > 0));
        let tokens = choose|tokens: Seq<Seq<char>>|
            #[trigger] are_tokens(tokens, upserted_count as nat) && db@.items == hydrated_rows(
                ensured,
                owner_id@,
                hydration_source(old(db)@.messages, chat_id, upserted_count > 0),
                tokens,
            );
        assert(are_tokens(tokens, upserted_count as nat) && db@.items == hydrated_rows(
            ensured,
            owner_id@,
            hydration_source(old(db)@.messages, chat_id, stale),
            tokens,
        ));
    }
    RebuildReport { upserted_count, oldest_message_id }
}

} // verus!

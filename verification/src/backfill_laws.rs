//! What holds of the backfill: the cursor only moves towards older
//! messages, a short page ends the backfill, and a backfill that has ended
//! fetches nothing.

use crate::backfill::{
    backfill_complete, backfill_settings, backfill_step, indexed_message, least_seen,
    stored_cursor, BackfillStep, IndexView,
};
use crate::ingest::derived_item;
use crate::remote::categorized;
use crate::store::{keys_unique, message_keys_unique};
use crate::store_laws::count_key;
use crate::cache::{lemma_setting_kept, lemma_setting_written, with_setting};
use crate::model::{MessageView, SettingView};
use crate::remote::RemoteMessage;
use crate::sync::{complete_key, cursor_key};
use crate::text::{all_digits, decimal, decimal_digits, digit_char, digits_value, is_ascii_digit, parse_i32};
use vstd::prelude::*;

verus! {

/// The digits of a number are digits, at least one, and spell the number.
pub proof fn lemma_digits_spell(n: nat)
    ensures
        decimal_digits(n).len() > 0,
        all_digits(decimal_digits(n)),
        digits_value(decimal_digits(n)) == n,
    decreases n,
{
    if n < 10 {
        let s = decimal_digits(n);
        assert(s.drop_last() =~= Seq::<char>::empty());
        assert(s.last() == digit_char(n as int));
        assert(digits_value(s.drop_last()) == 0);
    } else {
        lemma_digits_spell(n / 10);
        let front = decimal_digits(n / 10);
        let s = decimal_digits(n);
        assert(s.drop_last() =~= front);
        assert(s.last() == digit_char((n % 10) as int));
        assert forall|i: int| 0 <= i < s.len() implies is_ascii_digit(#[trigger] s[i]) by {
            if i < front.len() {
                assert(is_ascii_digit(front[i]));
            }
        }
    }
}

/// Printing an integer and reading it again gives the integer.
pub proof fn lemma_decimal_round_trip(n: i32)
    ensures
        parse_i32(decimal(n as int)) == Some(n),
{
    let s = decimal(n as int);
    if n < 0 {
        let digits = decimal_digits((-n) as nat);
        lemma_digits_spell((-n) as nat);
        assert(s[0] == '-');
        assert(s.drop_first() =~= digits);
    } else {
        lemma_digits_spell(n as nat);
        assert(is_ascii_digit(s[0]));
    }
}

/// The cursor and the mark of completion of a chat have different keys.
pub proof fn lemma_keys_differ(chat_id: i64)
    ensures
        cursor_key(chat_id) != complete_key(chat_id),
{
    reveal_strlit("tg_saved_backfill_cursor_");
    reveal_strlit("tg_saved_backfill_complete_");
    assert(cursor_key(chat_id).len() == 25 + decimal(chat_id as int).len());
    assert(complete_key(chat_id).len() == 27 + decimal(chat_id as int).len());
}

/// The least id seen is positive and never above a positive start.
pub proof fn lemma_least_seen_bounded(start: i32, page: Seq<RemoteMessage>)
    requires
        start > 0,
    ensures
        0 < least_seen(start, page) <= start,
    decreases page.len(),
{
    if page.len() > 0 {
        lemma_least_seen_bounded(start, page.drop_last());
    }
}

/// The cursor never grows: whatever page is taken in from a stored
/// cursor, the cursor it leaves is positive and not above the one before.
pub proof fn lemma_backfill_cursor_never_grows(
    settings: Seq<SettingView>,
    chat_id: i64,
    page: Seq<RemoteMessage>,
    limit: int,
)
    requires
        stored_cursor(settings, chat_id) > 0,
    ensures
        ({
            let before = stored_cursor(settings, chat_id);
            let after = stored_cursor(
                backfill_settings(settings, chat_id, before, page, limit),
                chat_id,
            );
            0 < after <= before
        }),
{
    let before = stored_cursor(settings, chat_id);
    let least = least_seen(before, page);
    lemma_least_seen_bounded(before, page);
    lemma_keys_differ(chat_id);
    let moved = if page.len() > 0 && least > 0 {
        with_setting(settings, cursor_key(chat_id), decimal(least as int))
    } else {
        settings
    };
    let flag = if page.len() == limit {
        "0"@
    } else {
        "1"@
    };
    lemma_setting_kept(moved, complete_key(chat_id), flag, cursor_key(chat_id));
    if page.len() > 0 && least > 0 {
        lemma_setting_written(settings, cursor_key(chat_id), decimal(least as int));
        lemma_decimal_round_trip(least);
    }
}

/// A page tells whether the backfill goes on: taking in a page that holds
/// fewer messages than were asked for marks the backfill complete, and
/// taking in a full page marks it open.
pub proof fn lemma_page_decides_completion(
    settings: Seq<SettingView>,
    chat_id: i64,
    start: i32,
    page: Seq<RemoteMessage>,
    limit: int,
)
    ensures
        backfill_complete(backfill_settings(settings, chat_id, start, page, limit), chat_id)
            <==> page.len() != limit,
{
    let least = least_seen(start, page);
    let moved = if page.len() > 0 && least > 0 {
        with_setting(settings, cursor_key(chat_id), decimal(least as int))
    } else {
        settings
    };
    let flag = if page.len() == limit {
        "0"@
    } else {
        "1"@
    };
    lemma_setting_written(moved, complete_key(chat_id), flag);
    reveal_strlit("0");
    reveal_strlit("1");
    assert("0"@ != "1"@) by {
        assert("0"@[0] == '0');
        assert("1"@[0] == '1');
    }
}

/// A backfill that is complete fetches nothing: its next step is to stop,
/// whatever the cache holds and whatever page size is asked for.
pub proof fn lemma_complete_backfill_stops(
    settings: Seq<SettingView>,
    messages: Seq<MessageView>,
    chat_id: i64,
    batch_size: Option<i32>,
)
    requires
        backfill_complete(settings, chat_id),
    ensures
        backfill_step(settings, messages, chat_id, batch_size) == BackfillStep::Complete,
{
}

/// A message that is taken in is cached and shown: where the message
/// carries something to hold, its snapshot is the newest message of the
/// cache, its node is the newest row of the tree, one row has the node's
/// key, and both tables keep their keys unique. A message that carries
/// nothing to hold changes nothing.
pub proof fn lemma_indexed_message_is_cached_and_shown(
    index: IndexView,
    owner: Seq<char>,
    chat_id: i64,
    message: RemoteMessage,
    token: Seq<char>,
)
    ensures
        ({
            let after = indexed_message(index, owner, chat_id, message, token);
            match categorized(message, chat_id) {
                Some(snapshot) => {
                    let node = derived_item(owner, snapshot, None, None, token);
                    &&& after.messages.len() > 0
                    &&& after.messages.last() == snapshot
                    &&& after.items.len() > 0
                    &&& after.items.last() == node
                    &&& count_key(after.items, node.file_unique_id) == 1
                    &&& keys_unique(index.items) ==> keys_unique(after.items)
                    &&& message_keys_unique(index.messages) ==> message_keys_unique(
                        after.messages,
                    )
                },
                None => after == index,
            }
        }),
{
    match categorized(message, chat_id) {
        Some(snapshot) => {
            let node = derived_item(owner, snapshot, None, None, token);
            crate::store_laws::lemma_upsert_keeps_one_row(index.items, node);
            crate::cache::lemma_upsert_message(index.messages, snapshot);
        },
        None => {},
    }
}

} // verus!

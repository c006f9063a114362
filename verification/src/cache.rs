//! The cache of remote messages and the key-value settings.
//!
//! A cached message is a snapshot of one remote message under the key
//! `(chat_id, message_id)`. It changes only where a thumbnail or a size is
//! filled in later, and it leaves the cache when the remote message is
//! deleted for good.

use crate::model::{message_views, opt_text, setting_views, MessageView, Setting, SettingView, TelegramMessage};
use crate::order::{ranked, sort_rows, views_of, Ranking};
use crate::store::Database;
use crate::text::{chars_of, same_text, text_less, text_less_chars};
use vstd::prelude::*;

verus! {

/// Which cached messages a query works on.
pub enum MessageSelector<'a> {
    /// The messages of a chat.
    Chat { chat_id: i64 },
    /// The messages of a chat that belong to `category`.
    Category { chat_id: i64, category: &'a str },
    /// The message with the key `(chat_id, message_id)`.
    Key { chat_id: i64, message_id: i32 },
}

/// What a `MessageSelector` says, as mathematical values.
pub enum MessageSelectorView {
    Chat { chat_id: i64 },
    Category { chat_id: i64, category: Seq<char> },
    Key { chat_id: i64, message_id: i32 },
}

impl<'a> View for MessageSelector<'a> {
    type V = MessageSelectorView;

    open spec fn view(&self) -> MessageSelectorView {
        match *self {
            MessageSelector::Chat { chat_id } => MessageSelectorView::Chat { chat_id },
            MessageSelector::Category { chat_id, category } => MessageSelectorView::Category {
                chat_id,
                category: category@,
            },
            MessageSelector::Key { chat_id, message_id } => MessageSelectorView::Key {
                chat_id,
                message_id,
            },
        }
    }
}

/// Whether `sel` picks the message `row`.
pub open spec fn selects_message(sel: MessageSelectorView, row: MessageView) -> bool {
    match sel {
        MessageSelectorView::Chat { chat_id } => row.chat_id == chat_id,
        MessageSelectorView::Category { chat_id, category } => row.chat_id == chat_id
            && row.category == category,
        MessageSelectorView::Key { chat_id, message_id } => row.chat_id == chat_id
            && row.message_id == message_id,
    }
}

/// The messages that `sel` picks, in their order.
pub open spec fn select_messages(rows: Seq<MessageView>, sel: MessageSelectorView) -> Seq<
    MessageView,
>
    decreases rows.len(),
{
    if rows.len() == 0 {
        Seq::empty()
    } else if selects_message(sel, rows.last()) {
        select_messages(rows.drop_last(), sel).push(rows.last())
    } else {
        select_messages(rows.drop_last(), sel)
    }
}

/// The cache without the messages that `sel` picks.
pub open spec fn delete_messages(rows: Seq<MessageView>, sel: MessageSelectorView) -> Seq<
    MessageView,
>
    decreases rows.len(),
{
    if rows.len() == 0 {
        Seq::empty()
    } else if selects_message(sel, rows.last()) {
        delete_messages(rows.drop_last(), sel)
    } else {
        delete_messages(rows.drop_last(), sel).push(rows.last())
    }
}

/// The cache after `row` was written under its key: a message that had the
/// key is gone, and `row` is the newest message.
pub open spec fn upsert_message(rows: Seq<MessageView>, row: MessageView) -> Seq<MessageView> {
    delete_messages(
        rows,
        MessageSelectorView::Key { chat_id: row.chat_id, message_id: row.message_id },
    ).push(row)
}

/// The cache after the message with the key got the thumbnail `thumbnail`.
pub open spec fn with_message_thumbnail(
    rows: Seq<MessageView>,
    chat_id: i64,
    message_id: i32,
    thumbnail: Seq<char>,
) -> Seq<MessageView> {
    Seq::new(
        rows.len(),
        |i: int|
            if selects_message(MessageSelectorView::Key { chat_id, message_id }, rows[i]) {
                MessageView { thumbnail: Some(thumbnail), ..rows[i] }
            } else {
                rows[i]
            },
    )
}

/// A size as it is stored: none below zero.
pub open spec fn stored_size(size: i64) -> i64 {
    if size < 0 {
        0
    } else {
        size
    }
}

/// The cache after the message with the key got the size `size`.
pub open spec fn with_message_size(rows: Seq<MessageView>, chat_id: i64, message_id: i32, size: i64)
    -> Seq<MessageView> {
    Seq::new(
        rows.len(),
        |i: int|
            if selects_message(MessageSelectorView::Key { chat_id, message_id }, rows[i]) {
                MessageView { size: Some(stored_size(size)), ..rows[i] }
            } else {
                rows[i]
            },
    )
}

/// The cache without the messages of `chat_id` whose id is positive and
/// among the first `count` of `ids`.
pub open spec fn without_messages(rows: Seq<MessageView>, chat_id: i64, ids: Seq<i32>, count: int)
    -> Seq<MessageView>
    decreases count,
{
    if count <= 0 {
        rows
    } else {
        let rest = without_messages(rows, chat_id, ids, count - 1);
        if ids[count - 1] > 0 {
            delete_messages(rest, MessageSelectorView::Key { chat_id, message_id: ids[count - 1] })
        } else {
            rest
        }
    }
}

/// The smallest message id among `rows`, if there is a row.
pub open spec fn least_id(rows: Seq<MessageView>) -> Option<i32>
    decreases rows.len(),
{
    if rows.len() == 0 {
        None
    } else {
        match least_id(rows.drop_last()) {
            Some(m) => if rows.last().message_id < m {
                Some(rows.last().message_id)
            } else {
                Some(m)
            },
            None => Some(rows.last().message_id),
        }
    }
}

/// The greatest message id among `rows`, if there is a row.
pub open spec fn greatest_id(rows: Seq<MessageView>) -> Option<i32>
    decreases rows.len(),
{
    if rows.len() == 0 {
        None
    } else {
        match greatest_id(rows.drop_last()) {
            Some(m) => if rows.last().message_id > m {
                Some(rows.last().message_id)
            } else {
                Some(m)
            },
            None => Some(rows.last().message_id),
        }
    }
}

/// The id of the oldest cached message of a chat, or 0 where the chat has
/// none.
pub open spec fn oldest_indexed_id(rows: Seq<MessageView>, chat_id: i64) -> i32 {
    match least_id(select_messages(rows, MessageSelectorView::Chat { chat_id })) {
        Some(m) => m,
        None => 0,
    }
}

/// The id of the newest cached message of a chat, or 0 where the chat has
/// none.
pub open spec fn last_indexed_id(rows: Seq<MessageView>, chat_id: i64) -> i32 {
    match greatest_id(select_messages(rows, MessageSelectorView::Chat { chat_id })) {
        Some(m) => m,
        None => 0,
    }
}

/// The smallest id is the id of a row and no row has a smaller one.
pub proof fn lemma_least_id(rows: Seq<MessageView>)
    ensures
        rows.len() == 0 <==> least_id(rows) is None,
        least_id(rows) matches Some(m) ==> {
            &&& exists|i: int| 0 <= i < rows.len() && (#[trigger] rows[i]).message_id == m
            &&& forall|i: int| 0 <= i < rows.len() ==> m <= (#[trigger] rows[i]).message_id
        },
    decreases rows.len(),
{
    if rows.len() > 0 {
        lemma_least_id(rows.drop_last());
        let m = least_id(rows)->0;
        if rows.drop_last().len() > 0 {
            let before = least_id(rows.drop_last())->0;
            let i = choose|i: int|
                0 <= i < rows.drop_last().len() && (#[trigger] rows.drop_last()[i]).message_id
                    == before;
            if m == before {
                assert(rows[i].message_id == m);
            } else {
                assert(rows[rows.len() - 1].message_id == m);
            }
            assert forall|k: int| 0 <= k < rows.len() implies m <= (#[trigger] rows[k]).message_id by {
                if k < rows.len() - 1 {
                    assert(rows.drop_last()[k].message_id >= before);
                }
            }
        } else {
            assert(rows[rows.len() - 1].message_id == m);
        }
    }
}

/// Cached messages with the newest message first.
pub struct NewestFirst;

impl Ranking for NewestFirst {
    type Row = TelegramMessage;

    open spec fn precedes(a: MessageView, b: MessageView) -> bool {
        a.message_id > b.message_id
    }

    fn row_precedes(a: &TelegramMessage, b: &TelegramMessage) -> (r: bool) {
        a.message_id > b.message_id
    }
}

/// Cached messages with the latest time stamp first, the stamps compared as
/// texts.
pub struct LatestFirst;

impl Ranking for LatestFirst {
    type Row = TelegramMessage;

    open spec fn precedes(a: MessageView, b: MessageView) -> bool {
        text_less(b.timestamp, a.timestamp)
    }

    fn row_precedes(a: &TelegramMessage, b: &TelegramMessage) -> (r: bool) {
        text_less_chars(&chars_of(b.timestamp.as_str()), &chars_of(a.timestamp.as_str()))
    }
}

/// The value under `key`, if the settings hold one.
pub open spec fn setting_value(rows: Seq<SettingView>, key: Seq<char>) -> Option<Seq<char>>
    decreases rows.len(),
{
    if rows.len() == 0 {
        None
    } else if rows.last().key == key {
        Some(rows.last().value)
    } else {
        setting_value(rows.drop_last(), key)
    }
}

/// The settings without `key`.
pub open spec fn without_setting(rows: Seq<SettingView>, key: Seq<char>) -> Seq<SettingView>
    decreases rows.len(),
{
    if rows.len() == 0 {
        Seq::empty()
    } else if rows.last().key == key {
        without_setting(rows.drop_last(), key)
    } else {
        without_setting(rows.drop_last(), key).push(rows.last())
    }
}

/// The settings after `value` was written under `key`.
pub open spec fn with_setting(rows: Seq<SettingView>, key: Seq<char>, value: Seq<char>) -> Seq<
    SettingView,
> {
    without_setting(rows, key).push(SettingView { key, value })
}

/// A key that was written holds what was written.
pub proof fn lemma_setting_written(rows: Seq<SettingView>, key: Seq<char>, value: Seq<char>)
    ensures
        setting_value(with_setting(rows, key, value), key) == Some(value),
{
    let written = with_setting(rows, key, value);
    assert(written.last() == SettingView { key, value });
}

/// Writing a key leaves every other key as it was.
pub proof fn lemma_setting_kept(
    rows: Seq<SettingView>,
    key: Seq<char>,
    value: Seq<char>,
    other: Seq<char>,
)
    requires
        other != key,
    ensures
        setting_value(with_setting(rows, key, value), other) == setting_value(rows, other),
{
    let written = with_setting(rows, key, value);
    assert(written.drop_last() =~= without_setting(rows, key));
    lemma_without_setting_kept(rows, key, other);
}

proof fn lemma_without_setting_kept(rows: Seq<SettingView>, key: Seq<char>, other: Seq<char>)
    requires
        other != key,
    ensures
        setting_value(without_setting(rows, key), other) == setting_value(rows, other),
    decreases rows.len(),
{
    if rows.len() > 0 {
        lemma_without_setting_kept(rows.drop_last(), key, other);
        if rows.last().key != key {
            let kept = without_setting(rows.drop_last(), key).push(rows.last());
            assert(kept.drop_last() =~= without_setting(rows.drop_last(), key));
            assert(kept.last() == rows.last());
        }
    }
}

/// Removing messages leaves only messages that were there, none that the
/// selector picks, and leaves the keys unique where they were.
pub proof fn lemma_delete_messages(rows: Seq<MessageView>, sel: MessageSelectorView)
    ensures
        forall|i: int|
            0 <= i < delete_messages(rows, sel).len() ==> rows.contains(
                #[trigger] delete_messages(rows, sel)[i],
            ) && !selects_message(sel, delete_messages(rows, sel)[i]),
        crate::store::message_keys_unique(rows) ==> crate::store::message_keys_unique(
            delete_messages(rows, sel),
        ),
    decreases rows.len(),
{
    if rows.len() > 0 {
        let front = rows.drop_last();
        lemma_delete_messages(front, sel);
        let kept = delete_messages(front, sel);
        let out = delete_messages(rows, sel);
        assert forall|i: int| 0 <= i < out.len() implies rows.contains(#[trigger] out[i])
            && !selects_message(sel, out[i]) by {
            if i < kept.len() {
                assert(out[i] == kept[i]);
                assert(front.contains(kept[i]));
                let j = choose|j: int| 0 <= j < front.len() && front[j] == kept[i];
                assert(rows[j] == kept[i]);
            } else {
                assert(rows[rows.len() - 1] == out[i]);
            }
        }
        if crate::store::message_keys_unique(rows) {
            assert(crate::store::message_keys_unique(front)) by {
                assert forall|i: int, j: int| 0 <= i < j < front.len() implies !((
                #[trigger] front[i]).chat_id == (#[trigger] front[j]).chat_id
                    && front[i].message_id == front[j].message_id) by {
                    assert(rows[i] == front[i] && rows[j] == front[j]);
                }
            }
            if !selects_message(sel, rows.last()) {
                assert forall|i: int, j: int| 0 <= i < j < out.len() implies !((
                #[trigger] out[i]).chat_id == (#[trigger] out[j]).chat_id && out[i].message_id
                    == out[j].message_id) by {
                    if j < kept.len() {
                        assert(out[i] == kept[i] && out[j] == kept[j]);
                    } else {
                        assert(front.contains(kept[i]));
                        let k = choose|k: int| 0 <= k < front.len() && front[k] == kept[i];
                        assert(rows[k] == kept[i]);
                        assert(rows[rows.len() - 1] == out[j]);
                    }
                }
            }
        }
    }
}

/// Writing a message leaves its key with one message, and leaves the keys
/// unique where they were.
pub proof fn lemma_upsert_message(rows: Seq<MessageView>, row: MessageView)
    ensures
        upsert_message(rows, row).last() == row,
        crate::store::message_keys_unique(rows) ==> crate::store::message_keys_unique(
            upsert_message(rows, row),
        ),
{
    let sel = MessageSelectorView::Key { chat_id: row.chat_id, message_id: row.message_id };
    lemma_delete_messages(rows, sel);
    let kept = delete_messages(rows, sel);
    let out = upsert_message(rows, row);
    if crate::store::message_keys_unique(rows) {
        assert forall|i: int, j: int| 0 <= i < j < out.len() implies !((
        #[trigger] out[i]).chat_id == (#[trigger] out[j]).chat_id && out[i].message_id
            == out[j].message_id) by {
            if j < kept.len() {
                assert(out[i] == kept[i] && out[j] == kept[j]);
            } else {
                assert(out[i] == kept[i]);
                assert(!selects_message(sel, kept[i]));
            }
        }
    }
}

/// Taking a key out of the settings leaves only settings that were there,
/// none with that key, and leaves the keys unique where they were.
pub proof fn lemma_without_setting(rows: Seq<SettingView>, key: Seq<char>)
    ensures
        forall|i: int|
            0 <= i < without_setting(rows, key).len() ==> rows.contains(
                #[trigger] without_setting(rows, key)[i],
            ) && without_setting(rows, key)[i].key != key,
        crate::store::setting_keys_unique(rows) ==> crate::store::setting_keys_unique(
            without_setting(rows, key),
        ),
    decreases rows.len(),
{
    if rows.len() > 0 {
        let front = rows.drop_last();
        lemma_without_setting(front, key);
        let kept = without_setting(front, key);
        let out = without_setting(rows, key);
        assert forall|i: int| 0 <= i < out.len() implies rows.contains(#[trigger] out[i])
            && out[i].key != key by {
            if i < kept.len() {
                assert(out[i] == kept[i]);
                assert(front.contains(kept[i]));
                let j = choose|j: int| 0 <= j < front.len() && front[j] == kept[i];
                assert(rows[j] == kept[i]);
            } else {
                assert(rows[rows.len() - 1] == out[i]);
            }
        }
        if crate::store::setting_keys_unique(rows) {
            assert(crate::store::setting_keys_unique(front)) by {
                assert forall|i: int, j: int| 0 <= i < j < front.len() implies (
                #[trigger] front[i]).key != (#[trigger] front[j]).key by {
                    assert(rows[i] == front[i] && rows[j] == front[j]);
                }
            }
            if rows.last().key != key {
                assert forall|i: int, j: int| 0 <= i < j < out.len() implies (
                #[trigger] out[i]).key != (#[trigger] out[j]).key by {
                    if j < kept.len() {
                        assert(out[i] == kept[i] && out[j] == kept[j]);
                    } else {
                        assert(front.contains(kept[i]));
                        let k = choose|k: int| 0 <= k < front.len() && front[k] == kept[i];
                        assert(rows[k] == kept[i]);
                        assert(rows[rows.len() - 1] == out[j]);
                    }
                }
            }
        }
    }
}

/// Writing a setting leaves the keys unique where they were.
pub proof fn lemma_with_setting(rows: Seq<SettingView>, key: Seq<char>, value: Seq<char>)
    ensures
        crate::store::setting_keys_unique(rows) ==> crate::store::setting_keys_unique(
            with_setting(rows, key, value),
        ),
{
    lemma_without_setting(rows, key);
    let kept = without_setting(rows, key);
    let out = with_setting(rows, key, value);
    if crate::store::setting_keys_unique(rows) {
        assert forall|i: int, j: int| 0 <= i < j < out.len() implies (#[trigger] out[i]).key != (
        #[trigger] out[j]).key by {
            if j < kept.len() {
                assert(out[i] == kept[i] && out[j] == kept[j]);
            } else {
                assert(out[i] == kept[i]);
            }
        }
    }
}

/// Whether `sel` picks the message `row`.
pub fn message_selected(row: &TelegramMessage, sel: &MessageSelector) -> (b: bool)
    ensures
        b == selects_message(sel@, row@),
{
    match sel {
        MessageSelector::Chat { chat_id } => row.chat_id == *chat_id,
        MessageSelector::Category { chat_id, category } => row.chat_id == *chat_id && same_text(
            row.category.as_str(),
            category,
        ),
        MessageSelector::Key { chat_id, message_id } => row.chat_id == *chat_id && row.message_id
            == *message_id,
    }
}

impl Database {
    /// The cached messages that `sel` picks, in their order.
    pub fn select_messages_where(&self, sel: &MessageSelector) -> (r: Vec<TelegramMessage>)
        ensures
            message_views(r@) == select_messages(self@.messages, sel@),
    {
        let mut rows: Vec<TelegramMessage> = Vec::new();
        let mut i: usize = 0;
        let ghost before = self@.messages;
        assert(before.take(0) =~= Seq::<MessageView>::empty());
        while i < self.messages.len()
            invariant
                i <= self.messages.len(),
                before == message_views(self.messages@),
                message_views(rows@) == select_messages(before.take(i as int), sel@),
            decreases self.messages.len() - i,
        {
            let row = &self.messages[i];
            assert(before[i as int] == row@);
            assert(before.take(i + 1).drop_last() =~= before.take(i as int));
            assert(before.take(i + 1).last() == row@);
            if message_selected(row, sel) {
                let ghost kept = message_views(rows@);
                rows.push(row.duplicate());
                assert(message_views(rows@) =~= kept.push(row@));
            }
            i += 1;
        }
        assert(before.take(i as int) =~= before);
        rows
    }

    /// Removes the cached messages that `sel` picks.
    pub fn delete_messages_where(&mut self, sel: &MessageSelector)
        ensures
            final(self)@.messages == delete_messages(old(self)@.messages, sel@),
            final(self)@.items == old(self)@.items,
            final(self)@.settings == old(self)@.settings,
            old(self).wf() ==> final(self).wf(),
    {
        let mut rows: Vec<TelegramMessage> = Vec::new();
        let mut i: usize = 0;
        let ghost before = self@.messages;
        assert(before.take(0) =~= Seq::<MessageView>::empty());
        while i < self.messages.len()
            invariant
                i <= self.messages.len(),
                before == message_views(self.messages@),
                message_views(rows@) == delete_messages(before.take(i as int), sel@),
            decreases self.messages.len() - i,
        {
            let row = &self.messages[i];
            assert(before[i as int] == row@);
            assert(before.take(i + 1).drop_last() =~= before.take(i as int));
            assert(before.take(i + 1).last() == row@);
            if !message_selected(row, sel) {
                let ghost kept = message_views(rows@);
                rows.push(row.duplicate());
                assert(message_views(rows@) =~= kept.push(row@));
            }
            i += 1;
        }
        assert(before.take(i as int) =~= before);
        proof {
            lemma_delete_messages(before, sel@);
        }
        self.messages = rows;
    }

    /// Writes a message into the cache under its key.
    pub fn save_telegram_message(&mut self, msg: &TelegramMessage)
        ensures
            final(self)@.messages == upsert_message(old(self)@.messages, msg@),
            final(self)@.items == old(self)@.items,
            final(self)@.settings == old(self)@.settings,
            old(self).wf() ==> final(self).wf(),
    {
        self.delete_messages_where(
            &MessageSelector::Key { chat_id: msg.chat_id, message_id: msg.message_id },
        );
        let ghost kept = self@.messages;
        self.messages.push(msg.duplicate());
        assert(message_views(self.messages@) =~= kept.push(msg@));
        proof {
            lemma_upsert_message(old(self)@.messages, msg@);
        }
    }

    /// The cached message with the key `(chat_id, message_id)`.
    pub fn get_telegram_message(&self, chat_id: i64, message_id: i32) -> (r: Option<
        TelegramMessage,
    >)
        ensures
            ({
                let found = select_messages(
                    self@.messages,
                    MessageSelectorView::Key { chat_id, message_id },
                );
                match r {
                    Some(msg) => found.len() > 0 && msg@ == found[0],
                    None => found.len() == 0,
                }
            }),
    {
        let rows = self.select_messages_where(&MessageSelector::Key { chat_id, message_id });
        if rows.len() > 0 {
            assert(message_views(rows@)[0] == rows@[0]@);
            Some(rows[0].duplicate())
        } else {
            None
        }
    }

    /// Fills in the thumbnail of a cached message.
    pub fn update_telegram_message_thumbnail(
        &mut self,
        chat_id: i64,
        message_id: i32,
        thumbnail: &str,
    )
        ensures
            final(self)@.messages == with_message_thumbnail(
                old(self)@.messages,
                chat_id,
                message_id,
                thumbnail@,
            ),
            final(self)@.items == old(self)@.items,
            final(self)@.settings == old(self)@.settings,
            old(self).wf() ==> final(self).wf(),
    {
        let mut rows: Vec<TelegramMessage> = Vec::new();
        let mut i: usize = 0;
        let ghost before = self@.messages;
        let sel = MessageSelector::Key { chat_id, message_id };
        while i < self.messages.len()
            invariant
                i <= self.messages.len(),
                before == message_views(self.messages@),
                sel@ == (MessageSelectorView::Key { chat_id, message_id }),
                rows@.len() == i,
                forall|k: int|
                    0 <= k < i ==> (#[trigger] rows@[k])@ == with_message_thumbnail(
                        before,
                        chat_id,
                        message_id,
                        thumbnail@,
                    )[k],
            decreases self.messages.len() - i,
        {
            let row = &self.messages[i];
            assert(before[i as int] == row@);
            let mut copy = row.duplicate();
            if message_selected(row, &sel) {
                copy.thumbnail = Some(thumbnail.to_owned());
            }
            rows.push(copy);
            i += 1;
        }
        assert(message_views(rows@) =~= with_message_thumbnail(
            before,
            chat_id,
            message_id,
            thumbnail@,
        ));
        proof {
            let after = message_views(rows@);
            if crate::store::message_keys_unique(before) {
                assert forall|i: int, j: int| 0 <= i < j < after.len() implies !((
                #[trigger] after[i]).chat_id == (#[trigger] after[j]).chat_id
                    && after[i].message_id == after[j].message_id) by {
                    assert(before[i].chat_id == after[i].chat_id && before[j].chat_id
                        == after[j].chat_id);
                }
            }
        }
        self.messages = rows;
    }

    /// Corrects the size of a cached message; a size below zero is stored
    /// as zero.
    pub fn update_telegram_message_size(&mut self, chat_id: i64, message_id: i32, size: i64)
        ensures
            final(self)@.messages == with_message_size(
                old(self)@.messages,
                chat_id,
                message_id,
                size,
            ),
            final(self)@.items == old(self)@.items,
            final(self)@.settings == old(self)@.settings,
            old(self).wf() ==> final(self).wf(),
    {
        let mut rows: Vec<TelegramMessage> = Vec::new();
        let mut i: usize = 0;
        let ghost before = self@.messages;
        let sel = MessageSelector::Key { chat_id, message_id };
        let stored: i64 = if size < 0 { 0 } else { size };
        while i < self.messages.len()
            invariant
                i <= self.messages.len(),
                before == message_views(self.messages@),
                sel@ == (MessageSelectorView::Key { chat_id, message_id }),
                stored == stored_size(size),
                rows@.len() == i,
                forall|k: int|
                    0 <= k < i ==> (#[trigger] rows@[k])@ == with_message_size(
                        before,
                        chat_id,
                        message_id,
                        size,
                    )[k],
            decreases self.messages.len() - i,
        {
            let row = &self.messages[i];
            assert(before[i as int] == row@);
            let mut copy = row.duplicate();
            if message_selected(row, &sel) {
                copy.size = Some(stored);
            }
            rows.push(copy);
            i += 1;
        }
        assert(message_views(rows@) =~= with_message_size(before, chat_id, message_id, size));
        proof {
            let after = message_views(rows@);
            if crate::store::message_keys_unique(before) {
                assert forall|i: int, j: int| 0 <= i < j < after.len() implies !((
                #[trigger] after[i]).chat_id == (#[trigger] after[j]).chat_id
                    && after[i].message_id == after[j].message_id) by {
                    assert(before[i].chat_id == after[i].chat_id && before[j].chat_id
                        == after[j].chat_id);
                }
            }
        }
        self.messages = rows;
    }

    /// The cached messages of a chat in `category`, latest time stamp first.
    pub fn get_indexed_messages_by_category(&self, chat_id: i64, category: &str) -> (r: Vec<
        TelegramMessage,
    >)
        ensures
            message_views(r@) == ranked::<LatestFirst>(
                select_messages(
                    self@.messages,
                    MessageSelectorView::Category { chat_id, category: category@ },
                ),
            ),
    {
        let rows = self.select_messages_where(&MessageSelector::Category { chat_id, category });
        assert(views_of(rows@) =~= message_views(rows@));
        let sorted = sort_rows::<LatestFirst>(rows);
        assert(views_of(sorted@) =~= message_views(sorted@));
        sorted
    }

    /// The cached messages of a chat, newest message first.
    pub fn get_all_indexed_messages(&self, chat_id: i64) -> (r: Vec<TelegramMessage>)
        ensures
            message_views(r@) == ranked::<NewestFirst>(
                select_messages(self@.messages, MessageSelectorView::Chat { chat_id }),
            ),
    {
        let rows = self.select_messages_where(&MessageSelector::Chat { chat_id });
        assert(views_of(rows@) =~= message_views(rows@));
        let sorted = sort_rows::<NewestFirst>(rows);
        assert(views_of(sorted@) =~= message_views(sorted@));
        sorted
    }

    /// How many messages of a chat are cached.
    pub fn count_all_indexed_messages(&self, chat_id: i64) -> (n: usize)
        ensures
            n == select_messages(self@.messages, MessageSelectorView::Chat { chat_id }).len(),
    {
        let rows = self.select_messages_where(&MessageSelector::Chat { chat_id });
        assert(message_views(rows@).len() == rows@.len());
        rows.len()
    }

    /// The id of the newest cached message of a chat, or 0.
    pub fn get_last_indexed_message_id(&self, chat_id: i64) -> (id: i32)
        ensures
            id == last_indexed_id(self@.messages, chat_id),
    {
        let rows = self.select_messages_where(&MessageSelector::Chat { chat_id });
        let ghost all = message_views(rows@);
        let mut best: Option<i32> = None;
        let mut i: usize = 0;
        assert(all.take(0) =~= Seq::<MessageView>::empty());
        while i < rows.len()
            invariant
                i <= rows.len(),
                all == message_views(rows@),
                best == greatest_id(all.take(i as int)),
            decreases rows.len() - i,
        {
            let id: i32 = rows[i].message_id;
            assert(all.take(i + 1).drop_last() =~= all.take(i as int));
            assert(all.take(i + 1).last() == rows@[i as int]@);
            best = match best {
                Some(m) => if id > m {
                    Some(id)
                } else {
                    Some(m)
                },
                None => Some(id),
            };
            i += 1;
        }
        assert(all.take(i as int) =~= all);
        match best {
            Some(m) => m,
            None => 0,
        }
    }

    /// The id of the oldest cached message of a chat, or 0.
    pub fn get_oldest_indexed_message_id(&self, chat_id: i64) -> (id: i32)
        ensures
            id == oldest_indexed_id(self@.messages, chat_id),
    {
        let rows = self.select_messages_where(&MessageSelector::Chat { chat_id });
        let ghost all = message_views(rows@);
        let mut best: Option<i32> = None;
        let mut i: usize = 0;
        assert(all.take(0) =~= Seq::<MessageView>::empty());
        while i < rows.len()
            invariant
                i <= rows.len(),
                all == message_views(rows@),
                best == least_id(all.take(i as int)),
            decreases rows.len() - i,
        {
            let id: i32 = rows[i].message_id;
            assert(all.take(i + 1).drop_last() =~= all.take(i as int));
            assert(all.take(i + 1).last() == rows@[i as int]@);
            best = match best {
                Some(m) => if id < m {
                    Some(id)
                } else {
                    Some(m)
                },
                None => Some(id),
            };
            i += 1;
        }
        assert(all.take(i as int) =~= all);
        match best {
            Some(m) => m,
            None => 0,
        }
    }

    /// Removes the cached messages of `chat_id` whose id is among
    /// `message_ids`; ids that are not positive name no message.
    pub fn delete_telegram_messages_by_ids(&mut self, chat_id: i64, message_ids: &Vec<i32>)
        ensures
            final(self)@.messages == without_messages(
                old(self)@.messages,
                chat_id,
                message_ids@,
                message_ids@.len() as int,
            ),
            final(self)@.items == old(self)@.items,
            final(self)@.settings == old(self)@.settings,
            old(self).wf() ==> final(self).wf(),
    {
        let mut i: usize = 0;
        while i < message_ids.len()
            invariant
                i <= message_ids.len(),
                self@.messages == without_messages(
                    old(self)@.messages,
                    chat_id,
                    message_ids@,
                    i as int,
                ),
                self@.items == old(self)@.items,
                self@.settings == old(self)@.settings,
                old(self).wf() ==> self.wf(),
            decreases message_ids.len() - i,
        {
            let id: i32 = message_ids[i];
            if id > 0 {
                self.delete_messages_where(&MessageSelector::Key { chat_id, message_id: id });
            }
            i += 1;
        }
    }

    /// The value stored under `key`.
    pub fn get_setting(&self, key: &str) -> (r: Option<String>)
        ensures
            opt_text(r) == setting_value(self@.settings, key@),
    {
        let mut i: usize = self.settings.len();
        let ghost all = self@.settings;
        assert(all.take(i as int) =~= all);
        while i > 0
            invariant
                i <= self.settings.len(),
                all == setting_views(self.settings@),
                setting_value(all, key@) == setting_value(all.take(i as int), key@),
            decreases i,
        {
            let row = &self.settings[i - 1];
            assert(all.take(i as int).last() == row@);
            if same_text(row.key.as_str(), key) {
                return Some(row.value.clone());
            }
            assert(all.take(i as int).drop_last() =~= all.take(i - 1));
            i -= 1;
        }
        None
    }

    /// Stores `value` under `key`, in place of what the key held.
    pub fn set_setting(&mut self, key: &str, value: &str)
        ensures
            final(self)@.settings == with_setting(old(self)@.settings, key@, value@),
            final(self)@.items == old(self)@.items,
            final(self)@.messages == old(self)@.messages,
            old(self).wf() ==> final(self).wf(),
    {
        let mut rows: Vec<Setting> = Vec::new();
        let mut i: usize = 0;
        let ghost before = self@.settings;
        assert(before.take(0) =~= Seq::<SettingView>::empty());
        while i < self.settings.len()
            invariant
                i <= self.settings.len(),
                before == setting_views(self.settings@),
                setting_views(rows@) == without_setting(before.take(i as int), key@),
            decreases self.settings.len() - i,
        {
            let row = &self.settings[i];
            assert(before[i as int] == row@);
            assert(before.take(i + 1).drop_last() =~= before.take(i as int));
            assert(before.take(i + 1).last() == row@);
            if !same_text(row.key.as_str(), key) {
                let ghost kept = setting_views(rows@);
                rows.push(Setting { key: row.key.clone(), value: row.value.clone() });
                assert(setting_views(rows@) =~= kept.push(row@));
            }
            i += 1;
        }
        assert(before.take(i as int) =~= before);
        let ghost kept = setting_views(rows@);
        rows.push(Setting { key: key.to_owned(), value: value.to_owned() });
        assert(setting_views(rows@) =~= kept.push(SettingView { key: key@, value: value@ }));
        proof {
            lemma_with_setting(before, key@, value@);
        }
        self.settings = rows;
    }
}

} // verus!

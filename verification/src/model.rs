//! The rows of the local index and the values that cross the library's edge.

use vstd::prelude::*;

verus! {

/// The view of an optional string.
pub open spec fn opt_text(o: Option<String>) -> Option<Seq<char>> {
    match o {
        Some(s) => Some(s@),
        None => None,
    }
}

/// A copy of an optional string.
pub fn copy_opt_text(o: &Option<String>) -> (r: Option<String>)
    ensures
        opt_text(r) == opt_text(*o),
{
    match o {
        Some(s) => Some(s.clone()),
        None => None,
    }
}

/// One cached remote message, keyed by `(chat_id, message_id)`.
#[derive(Debug, Clone, PartialEq, Eq)]
pub struct TelegramMessage {
    pub message_id: i32,
    pub chat_id: i64,
    pub category: String,
    pub filename: Option<String>,
    pub extension: Option<String>,
    pub mime_type: Option<String>,
    pub timestamp: String,
    pub size: Option<i64>,
    pub text: Option<String>,
    pub thumbnail: Option<String>,
    pub file_reference: String,
}

/// What a `TelegramMessage` holds, as mathematical values.
pub struct MessageView {
    pub message_id: i32,
    pub chat_id: i64,
    pub category: Seq<char>,
    pub filename: Option<Seq<char>>,
    pub extension: Option<Seq<char>>,
    pub mime_type: Option<Seq<char>>,
    pub timestamp: Seq<char>,
    pub size: Option<i64>,
    pub text: Option<Seq<char>>,
    pub thumbnail: Option<Seq<char>>,
    pub file_reference: Seq<char>,
}

impl View for TelegramMessage {
    type V = MessageView;

    open spec fn view(&self) -> MessageView {
        MessageView {
            message_id: self.message_id,
            chat_id: self.chat_id,
            category: self.category@,
            filename: opt_text(self.filename),
            extension: opt_text(self.extension),
            mime_type: opt_text(self.mime_type),
            timestamp: self.timestamp@,
            size: self.size,
            text: opt_text(self.text),
            thumbnail: opt_text(self.thumbnail),
            file_reference: self.file_reference@,
        }
    }
}

impl TelegramMessage {
    /// A copy that holds the same values.
    pub fn duplicate(&self) -> (r: Self)
        ensures
            r@ == self@,
    {
        TelegramMessage {
            message_id: self.message_id,
            chat_id: self.chat_id,
            category: self.category.clone(),
            filename: copy_opt_text(&self.filename),
            extension: copy_opt_text(&self.extension),
            mime_type: copy_opt_text(&self.mime_type),
            timestamp: self.timestamp.clone(),
            size: self.size,
            text: copy_opt_text(&self.text),
            thumbnail: copy_opt_text(&self.thumbnail),
            file_reference: self.file_reference.clone(),
        }
    }
}

/// One node of the virtual tree: a folder, or a file that mirrors one cached
/// message. `file_path` is the directory the node lies in.
#[derive(Debug, Clone, PartialEq, Eq)]
pub struct TelegramSavedItem {
    pub chat_id: i64,
    pub message_id: i32,
    pub thumbnail: Option<String>,
    pub file_type: String,
    pub file_unique_id: String,
    pub file_size: i64,
    pub file_name: String,
    pub file_caption: Option<String>,
    pub file_path: String,
    pub recycle_origin_path: Option<String>,
    pub modified_date: String,
    pub owner_id: String,
}

/// What a `TelegramSavedItem` holds, as mathematical values.
pub struct SavedItemView {
    pub chat_id: i64,
    pub message_id: i32,
    pub thumbnail: Option<Seq<char>>,
    pub file_type: Seq<char>,
    pub file_unique_id: Seq<char>,
    pub file_size: i64,
    pub file_name: Seq<char>,
    pub file_caption: Option<Seq<char>>,
    pub file_path: Seq<char>,
    pub recycle_origin_path: Option<Seq<char>>,
    pub modified_date: Seq<char>,
    pub owner_id: Seq<char>,
}

impl View for TelegramSavedItem {
    type V = SavedItemView;

    open spec fn view(&self) -> SavedItemView {
        SavedItemView {
            chat_id: self.chat_id,
            message_id: self.message_id,
            thumbnail: opt_text(self.thumbnail),
            file_type: self.file_type@,
            file_unique_id: self.file_unique_id@,
            file_size: self.file_size,
            file_name: self.file_name@,
            file_caption: opt_text(self.file_caption),
            file_path: self.file_path@,
            recycle_origin_path: opt_text(self.recycle_origin_path),
            modified_date: self.modified_date@,
            owner_id: self.owner_id@,
        }
    }
}

impl TelegramSavedItem {
    /// A copy that holds the same values.
    pub fn duplicate(&self) -> (r: Self)
        ensures
            r@ == self@,
    {
        TelegramSavedItem {
            chat_id: self.chat_id,
            message_id: self.message_id,
            thumbnail: copy_opt_text(&self.thumbnail),
            file_type: self.file_type.clone(),
            file_unique_id: self.file_unique_id.clone(),
            file_size: self.file_size,
            file_name: self.file_name.clone(),
            file_caption: copy_opt_text(&self.file_caption),
            file_path: self.file_path.clone(),
            recycle_origin_path: copy_opt_text(&self.recycle_origin_path),
            modified_date: self.modified_date.clone(),
            owner_id: self.owner_id.clone(),
        }
    }
}

/// The views of a run of rows, in order.
pub open spec fn item_views(rows: Seq<TelegramSavedItem>) -> Seq<SavedItemView> {
    Seq::new(rows.len(), |i: int| rows[i]@)
}

/// The views of a run of cached messages, in order.
pub open spec fn message_views(rows: Seq<TelegramMessage>) -> Seq<MessageView> {
    Seq::new(rows.len(), |i: int| rows[i]@)
}

/// One setting: a value under a key.
#[derive(Debug, Clone, PartialEq, Eq)]
pub struct Setting {
    pub key: String,
    pub value: String,
}

/// What a `Setting` holds, as mathematical values.
pub struct SettingView {
    pub key: Seq<char>,
    pub value: Seq<char>,
}

impl View for Setting {
    type V = SettingView;

    open spec fn view(&self) -> SettingView {
        SettingView { key: self.key@, value: self.value@ }
    }
}

/// The views of a run of settings, in order.
pub open spec fn setting_views(rows: Seq<Setting>) -> Seq<SettingView> {
    Seq::new(rows.len(), |i: int| rows[i]@)
}

/// An error of the engine as a caller gets it: the words that say what
/// went wrong.
#[derive(Debug, Clone, PartialEq, Eq)]
pub struct TelegramError {
    pub message: String,
}

/// An error of the store: the words that say what went wrong.
#[derive(Debug, Clone, PartialEq, Eq)]
pub struct DbError {
    pub message: String,
}

/// The stored session of the account.
#[derive(Debug, Clone, PartialEq, Eq)]
pub struct Session {
    pub id: i32,
    pub phone: String,
    pub session_data: Option<String>,
    pub profile_photo: Option<String>,
    pub first_name: Option<String>,
    pub last_name: Option<String>,
    pub username: Option<String>,
    pub created_at: String,
}

/// A path that was opened lately.
#[derive(Debug, Clone, PartialEq, Eq)]
pub struct RecentPath {
    pub id: i32,
    pub path: String,
    pub last_opened: String,
}

/// A path that the user marked.
#[derive(Debug, Clone, PartialEq, Eq)]
pub struct Favorite {
    pub id: i32,
    pub path: String,
    pub label: String,
}

/// What a login by phone number starts with.
#[derive(Debug, Clone, PartialEq, Eq)]
pub struct TelegramAuthData {
    pub phone_number: String,
}

/// The account as the remote side describes it.
#[derive(Debug, Clone, PartialEq, Eq)]
pub struct UserInfo {
    pub id: i64,
    pub username: Option<String>,
    pub first_name: Option<String>,
    pub last_name: Option<String>,
    pub profile_photo: Option<String>,
}

/// How far a login has come.
#[derive(Debug, Clone, PartialEq, Eq)]
pub struct TelegramAuthResult {
    pub authorized: bool,
    pub session_data: Option<String>,
    pub user_info: Option<UserInfo>,
    pub requires_password: bool,
}

/// A login by QR code that was started.
#[derive(Debug, Clone, PartialEq, Eq)]
pub struct QrLoginData {
    pub qr_url: String,
    pub expires_at_unix: i64,
    pub flow_id: u64,
}

/// The state of a login by QR code.
#[derive(Debug, Clone, Copy, PartialEq, Eq)]
pub enum QrLoginStatus {
    Pending,
    Success,
    Expired,
    PasswordRequired,
    Error,
}

/// What polling a login by QR code found.
#[derive(Debug, Clone, PartialEq, Eq)]
pub struct QrPollResult {
    pub status: QrLoginStatus,
    pub qr_url: Option<String>,
    pub user_info: Option<UserInfo>,
    pub session_data: Option<String>,
    pub requires_password: bool,
    pub message: Option<String>,
}

/// The token of a login by QR code that is under way.
#[derive(Debug, Clone, PartialEq, Eq)]
pub struct QrState {
    pub token: Vec<u8>,
    pub qr_url: String,
    pub expires_unix: i64,
    pub last_token_b64: String,
    pub api_hash: String,
    pub started_at_unix: i64,
}

} // verus!

//! What the index reads of a remote message, and the cached snapshot that
//! is made of it.
//!
//! The remote side is not spoken to here. A caller that holds a remote
//! message hands over its id, its date, its text and a description of its
//! media, all as plain values.

use crate::model::{opt_text, MessageView, TelegramMessage};
use crate::naming::{
    category_for, classify_extension, extension_from_mime_type, extension_from_name,
    extension_of_mime_type, extension_of_name, normalize_extension, normalized_extension,
    optional_name, optional_sanitized_name,
};
use crate::text::{concat_chars, chars_of, decimal, decimal_of, string_of};
use vstd::prelude::*;
use vstd::string::StringSliceAdditionalSpecFns;

verus! {

/// One size in which a remote photo can be had.
#[derive(Debug, Clone, PartialEq, Eq)]
pub enum RemotePhotoSize {
    Empty,
    /// A size that is stored remotely and takes `size` bytes.
    Size { size: i32 },
    /// A size whose bytes came with the message.
    Cached { bytes: Vec<u8> },
    /// A preview in stripped form.
    Stripped { bytes: Vec<u8> },
    /// A size that loads in steps; each step ends at one of `sizes` bytes.
    Progressive { sizes: Vec<i32> },
    /// An outline as a path.
    Outline { bytes: Vec<u8> },
}

/// A remote document: a file with a name, maybe a MIME type, and a size.
#[derive(Debug, Clone, PartialEq, Eq)]
pub struct RemoteDocument {
    pub name: String,
    pub mime_type: Option<String>,
    pub size: i64,
}

/// The media of a remote message.
#[derive(Debug, Clone, PartialEq, Eq)]
pub enum RemoteMedia {
    /// No media, or media of a sort that the index does not hold.
    Absent,
    /// A photo with its sizes; `None` where the photo itself is empty.
    Photo { sizes: Option<Vec<RemotePhotoSize>> },
    /// A document; `None` where the document itself is empty.
    Document { document: Option<RemoteDocument> },
}

/// What the index reads of one remote message.
#[derive(Debug, Clone, PartialEq, Eq)]
pub struct RemoteMessage {
    pub id: i32,
    /// Seconds since the Unix epoch.
    pub date: i32,
    pub text: String,
    pub media: RemoteMedia,
    /// What is needed to fetch the content again; the index keeps it and
    /// never reads it.
    pub file_reference: String,
}

/// A length as a size in bytes; `i64::MAX` where it does not fit.
pub open spec fn length_as_size(len: nat) -> i64 {
    if len > i64::MAX {
        i64::MAX
    } else {
        len as i64
    }
}

/// The greatest of `sizes`, or 0 where there is none.
pub open spec fn greatest(sizes: Seq<i32>) -> int
    decreases sizes.len(),
{
    if sizes.len() == 0 {
        0
    } else {
        let rest = greatest(sizes.drop_last());
        if sizes.len() == 1 || sizes.last() > rest {
            sizes.last() as int
        } else {
            rest
        }
    }
}

/// How many bytes one size of a photo is taken to have. A stripped preview
/// of three bytes or more that starts with the byte 1 stands for a picture
/// that is 622 bytes longer.
pub open spec fn estimated_size(size: RemotePhotoSize) -> int {
    match size {
        RemotePhotoSize::Empty => 0,
        RemotePhotoSize::Size { size } => if size < 0 {
            0
        } else {
            size as int
        },
        RemotePhotoSize::Cached { bytes } => length_as_size(bytes@.len()) as int,
        RemotePhotoSize::Stripped { bytes } => if bytes@.len() >= 3 && bytes@[0] == 1 {
            length_as_size(bytes@.len() + 622) as int
        } else {
            length_as_size(bytes@.len()) as int
        },
        RemotePhotoSize::Progressive { sizes } => if greatest(sizes@) < 0 {
            0
        } else {
            greatest(sizes@)
        },
        RemotePhotoSize::Outline { bytes } => length_as_size(bytes@.len()) as int,
    }
}

/// The greatest estimate among the first `count` sizes, or 0.
pub open spec fn greatest_estimate(sizes: Seq<RemotePhotoSize>, count: int) -> int
    decreases count,
{
    if count <= 0 {
        0
    } else {
        let rest = greatest_estimate(sizes, count - 1);
        if estimated_size(sizes[count - 1]) > rest {
            estimated_size(sizes[count - 1])
        } else {
            rest
        }
    }
}

/// The size that a photo is taken to have: the greatest estimate among its
/// sizes, or nothing where no size is known to be positive.
pub open spec fn photo_size(sizes: Seq<RemotePhotoSize>) -> Option<i64> {
    let best = greatest_estimate(sizes, sizes.len() as int);
    if best > 0 {
        Some(best as i64)
    } else {
        None
    }
}

fn size_of_length(len: usize) -> (r: i64)
    ensures
        r == length_as_size(len as nat),
{
    if len as u64 > 9223372036854775807 {
        9223372036854775807
    } else {
        len as i64
    }
}

fn greatest_of(sizes: &Vec<i32>) -> (r: i64)
    ensures
        r == greatest(sizes@),
{
    let mut best: i64 = 0;
    let mut i: usize = 0;
    assert(sizes@.take(0) =~= Seq::<i32>::empty());
    while i < sizes.len()
        invariant
            i <= sizes.len(),
            best == greatest(sizes@.take(i as int)),
        decreases sizes.len() - i,
    {
        assert(sizes@.take(i + 1).drop_last() =~= sizes@.take(i as int));
        assert(sizes@.take(i + 1).last() == sizes@[i as int]);
        if i == 0 || (sizes[i] as i64) > best {
            best = sizes[i] as i64;
        }
        i += 1;
    }
    assert(sizes@.take(i as int) =~= sizes@);
    best
}

/// How many bytes one size of a photo is taken to have.
pub fn estimate_size(size: &RemotePhotoSize) -> (r: i64)
    ensures
        r == estimated_size(*size),
        r >= 0,
{
    match size {
        RemotePhotoSize::Empty => 0,
        RemotePhotoSize::Size { size } => if *size < 0 {
            0
        } else {
            *size as i64
        },
        RemotePhotoSize::Cached { bytes } => size_of_length(bytes.len()),
        RemotePhotoSize::Stripped { bytes } => {
            if bytes.len() >= 3 && bytes[0] == 1 {
                if bytes.len() as u64 > 9223372036854775807 - 622 {
                    9223372036854775807
                } else {
                    (bytes.len() as i64) + 622
                }
            } else {
                size_of_length(bytes.len())
            }
        },
        RemotePhotoSize::Progressive { sizes } => {
            let best = greatest_of(sizes);
            if best < 0 {
                0
            } else {
                best
            }
        },
        RemotePhotoSize::Outline { bytes } => size_of_length(bytes.len()),
    }
}

/// The size that a photo is taken to have.
pub fn estimate_photo_message_size(sizes: &Vec<RemotePhotoSize>) -> (r: Option<i64>)
    ensures
        r == photo_size(sizes@),
{
    let mut best: i64 = 0;
    let mut i: usize = 0;
    while i < sizes.len()
        invariant
            i <= sizes.len(),
            best == greatest_estimate(sizes@, i as int),
            best >= 0,
        decreases sizes.len() - i,
    {
        let estimate = estimate_size(&sizes[i]);
        if estimate > best {
            best = estimate;
        }
        i += 1;
    }
    if best > 0 {
        Some(best)
    } else {
        None
    }
}

/// What `DateTime::<Utc>::to_rfc3339` prints for the moment that lies
/// `seconds` after the Unix epoch.
pub uninterp spec fn rfc3339_text(seconds: int) -> Seq<char>;

/// `DateTime::from_timestamp` and `DateTime::to_rfc3339` of chrono: the
/// date and time in UTC, `seconds` after the Unix epoch, in the form of RFC
/// 3339. Every `i32` is in the range that chrono can turn into a date. The
/// text depends on `seconds` alone and is what `rfc3339_text` names.
#[verifier::external_body]
pub(crate) fn rfc3339_from_unix_seconds(seconds: i32) -> (r: String)
    ensures
        r@ == rfc3339_text(seconds as int),
{
    chrono::DateTime::from_timestamp(i64::from(seconds), 0).unwrap_or_default().to_rfc3339()
}

/// The cached snapshot of a remote message that carries a photo, a
/// document or a text, with the time stamp `timestamp`; nothing for a
/// message that carries none of them.
pub open spec fn snapshot(
    id: i32,
    text: Seq<char>,
    media: RemoteMedia,
    file_reference: Seq<char>,
    chat_id: i64,
    timestamp: Seq<char>,
) -> Option<MessageView> {
    let caption = if text.len() == 0 {
        None
    } else {
        Some(text)
    };
    match media {
        RemoteMedia::Photo { sizes } => match sizes {
            Some(sizes) => Some(
                MessageView {
                    message_id: id,
                    chat_id,
                    category: category_for(Some("jpg"@)),
                    filename: Some("photo_"@ + decimal(id as int) + ".jpg"@),
                    extension: Some("jpg"@),
                    mime_type: Some("image/jpeg"@),
                    timestamp,
                    size: photo_size(sizes@),
                    text: caption,
                    thumbnail: None,
                    file_reference,
                },
            ),
            None => None,
        },
        RemoteMedia::Document { document } => match document {
            Some(document) => {
                let name = optional_name(document.name@);
                let from_name = match name {
                    Some(n) => normalized_extension(extension_of_name(n)),
                    None => None,
                };
                let extension = match from_name {
                    Some(e) => Some(e),
                    None => extension_of_mime_type(opt_text(document.mime_type)),
                };
                Some(
                    MessageView {
                        message_id: id,
                        chat_id,
                        category: category_for(extension),
                        filename: name,
                        extension,
                        mime_type: opt_text(document.mime_type),
                        timestamp,
                        size: Some(document.size),
                        text: caption,
                        thumbnail: None,
                        file_reference,
                    },
                )
            },
            None => None,
        },
        RemoteMedia::Absent => if text.len() == 0 {
            None
        } else {
            Some(
                MessageView {
                    message_id: id,
                    chat_id,
                    category: category_for(Some("txt"@)),
                    filename: None,
                    extension: Some("txt"@),
                    mime_type: Some("text/plain"@),
                    timestamp,
                    size: Some(length_as_size(vstd::utf8::encode_utf8(text).len())),
                    text: caption,
                    thumbnail: None,
                    file_reference,
                },
            )
        },
    }
}

/// The cached snapshot of `message` in the chat `chat_id`.
pub open spec fn categorized(message: RemoteMessage, chat_id: i64) -> Option<MessageView> {
    snapshot(
        message.id,
        message.text@,
        message.media,
        message.file_reference@,
        chat_id,
        rfc3339_text(message.date as int),
    )
}

/// Makes the cached snapshot of a remote message, given its time stamp as
/// text. `None` for a message that carries neither a photo nor a document
/// nor a text, and for one whose photo or document is empty.
pub fn categorize_message_at(message: &RemoteMessage, chat_id: i64, timestamp: String) -> (r:
    Option<TelegramMessage>)
    ensures
        ({
            let expected = snapshot(
                message.id,
                message.text@,
                message.media,
                message.file_reference@,
                chat_id,
                timestamp@,
            );
            match r {
                Some(m) => expected == Some(m@),
                None => expected is None,
            }
        }),
{
    let has_text: bool = message.text.as_str().unicode_len() > 0;
    let caption = if has_text {
        Some(message.text.clone())
    } else {
        None
    };
    match &message.media {
        RemoteMedia::Photo { sizes } => match sizes {
            Some(sizes) => {
                let classification = classify_extension(Some("jpg"));
                let head = concat_chars(&chars_of("photo_"), &decimal_of(message.id as i64));
                let name = string_of(&concat_chars(&head, &chars_of(".jpg")));
                Some(
                    TelegramMessage {
                        message_id: message.id,
                        chat_id,
                        category: classification.category.to_string(),
                        filename: Some(name),
                        extension: Some("jpg".to_string()),
                        mime_type: Some("image/jpeg".to_string()),
                        timestamp,
                        size: estimate_photo_message_size(sizes),
                        text: caption,
                        thumbnail: None,
                        file_reference: message.file_reference.clone(),
                    },
                )
            },
            None => None,
        },
        RemoteMedia::Document { document } => match document {
            Some(document) => {
                let name = optional_sanitized_name(document.name.as_str());
                let from_name = match &name {
                    Some(n) => {
                        let extracted = extension_from_name(n.as_str());
                        match &extracted {
                            Some(e) => normalize_extension(Some(e.as_str())),
                            None => normalize_extension(None),
                        }
                    },
                    None => None,
                };
                let mime = crate::model::copy_opt_text(&document.mime_type);
                let extension = match from_name {
                    Some(e) => Some(e),
                    None => match &mime {
                        Some(m) => extension_from_mime_type(Some(m.as_str())),
                        None => extension_from_mime_type(None),
                    },
                };
                let classification = match &extension {
                    Some(e) => classify_extension(Some(e.as_str())),
                    None => classify_extension(None),
                };
                Some(
                    TelegramMessage {
                        message_id: message.id,
                        chat_id,
                        category: classification.category.to_string(),
                        filename: name,
                        extension,
                        mime_type: mime,
                        timestamp,
                        size: Some(document.size),
                        text: caption,
                        thumbnail: None,
                        file_reference: message.file_reference.clone(),
                    },
                )
            },
            None => None,
        },
        RemoteMedia::Absent => {
            if !has_text {
                return None;
            }
            let classification = classify_extension(Some("txt"));
            Some(
                TelegramMessage {
                    message_id: message.id,
                    chat_id,
                    category: classification.category.to_string(),
                    filename: None,
                    extension: Some("txt".to_string()),
                    mime_type: Some("text/plain".to_string()),
                    timestamp,
                    size: Some(size_of_length(message.text.as_str().as_bytes().len())),
                    text: caption,
                    thumbnail: None,
                    file_reference: message.file_reference.clone(),
                },
            )
        },
    }
}

/// Makes the cached snapshot of a remote message. `None` for a message
/// that carries neither a photo nor a document nor a text, and for one whose
/// photo or document is empty.
pub fn categorize_message(message: &RemoteMessage, chat_id: i64) -> (r: Option<TelegramMessage>)
    ensures
        match r {
            Some(m) => categorized(*message, chat_id) == Some(m@),
            None => categorized(*message, chat_id) is None,
        },
{
    let timestamp = rfc3339_from_unix_seconds(message.date);
    categorize_message_at(message, chat_id, timestamp)
}

} // verus!

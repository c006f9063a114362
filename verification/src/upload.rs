//! Uploads: the name under which a file is listed, the name of the copy
//! that is sent, and the snapshot and node that are recorded for an upload
//! once it is sent.

use crate::ingest::{derived_item, upsert_saved_item_from_message};
use crate::model::{opt_text, MessageView, TelegramMessage};
use crate::naming::{category_for, classify_extension, extension_from_name, extension_of_name, is_token, mime_type_for, mime_type_from_extension, normalize_extension, normalized_extension, sanitize_file_name, sanitize_name, fresh_token};
use crate::remote::{snapshot, RemoteMessage};
use crate::store::{opt_str, upsert_row, Database};
use crate::text::{chars_of, concat_chars, decimal, decimal_of, last_index_of, last_index_of_chars, slice_chars, string_of, trim, trim_chars};
use vstd::prelude::*;

verus! {

/// Whether a name made safe is a file name at all: `.` and `..` are none.
pub open spec fn is_file_name(name: Seq<char>) -> bool {
    name != seq!['.'] && name != seq!['.', '.']
}

/// Where a file name splits into stem and extension: at its last dot, if
/// it has a dot that is not its first character.
pub open spec fn split_dot(name: Seq<char>) -> Option<int> {
    match last_index_of(name, '.') {
        Some(dot) => if dot == 0 {
            None
        } else {
            Some(dot)
        },
        None => None,
    }
}

/// The extension of a name made safe, as a path has it: what stands behind
/// the last dot, where the name is a file name with a dot behind its first
/// character.
pub open spec fn path_extension(name: Seq<char>) -> Option<Seq<char>> {
    if !is_file_name(name) {
        None
    } else {
        match split_dot(name) {
            Some(dot) => Some(name.skip(dot + 1)),
            None => None,
        }
    }
}

/// The stem of a name made safe, as a path has it: what stands before the
/// last dot, or the whole name where nothing splits it.
pub open spec fn path_stem(name: Seq<char>) -> Option<Seq<char>> {
    if !is_file_name(name) {
        None
    } else {
        match split_dot(name) {
            Some(dot) => Some(name.take(dot)),
            None => Some(name),
        }
    }
}

/// The extension under which a file is sent.
pub open spec fn upload_extension(file_name: Seq<char>) -> Option<Seq<char>> {
    match path_extension(sanitize_name(file_name)) {
        Some(e) => normalized_extension(Some(e)),
        None => None,
    }
}

/// The stem of the name of the copy that is sent: the stem of the file's
/// name made safe, or `upload` where that is white space alone.
pub open spec fn upload_stem(file_name: Seq<char>) -> Seq<char> {
    match path_stem(sanitize_name(file_name)) {
        Some(stem) => if trim(stem).len() == 0 {
            "upload"@
        } else {
            sanitize_name(trim(stem))
        },
        None => "upload"@,
    }
}

/// The name of the copy of a file that is sent: stem, `_`, token, and the
/// extension behind a dot where there is one. The token keeps two copies
/// apart; it is no part of the name under which the file is listed.
pub open spec fn upload_name(file_name: Seq<char>, token: Seq<char>) -> Seq<char> {
    let base = upload_stem(file_name) + seq!['_'] + token;
    match upload_extension(file_name) {
        Some(e) => base + seq!['.'] + e,
        None => base,
    }
}

fn safe_name_parts(safe: &Vec<char>) -> (r: (Option<Vec<char>>, Option<Vec<char>>))
    ensures
        match r.0 {
            Some(stem) => path_stem(safe@) == Some(stem@),
            None => path_stem(safe@) is None,
        },
        match r.1 {
            Some(e) => path_extension(safe@) == Some(e@),
            None => path_extension(safe@) is None,
        },
{
    let one_dot: bool = safe.len() == 1 && safe[0] == '.';
    let two_dots: bool = safe.len() == 2 && safe[0] == '.' && safe[1] == '.';
    proof {
        if one_dot {
            assert(safe@ =~= seq!['.']);
        } else if safe@.len() == 1 {
            assert(seq!['.'][0] == '.');
        }
        if two_dots {
            assert(safe@ =~= seq!['.', '.']);
        } else if safe@.len() == 2 {
            assert(seq!['.', '.'][0] == '.' && seq!['.', '.'][1] == '.');
        }
    }
    if one_dot || two_dots {
        return (None, None);
    }
    match last_index_of_chars(safe, '.') {
        Some(dot) => {
            if dot == 0 {
                (Some(slice_chars(safe, 0, safe.len())), None)
            } else {
                let stem = slice_chars(safe, 0, dot);
                let extension = slice_chars(safe, dot + 1, safe.len());
                assert(safe@.subrange(0, dot as int) =~= safe@.take(dot as int));
                assert(safe@.subrange(dot + 1, safe.len() as int) =~= safe@.skip(dot + 1));
                (Some(stem), Some(extension))
            }
        },
        None => (Some(slice_chars(safe, 0, safe.len())), None),
    }
}

/// The name of the copy of a file that is sent and its extension, with
/// `token` in the name.
pub fn build_upload_file_name_with_token(file_name: &str, token: &str) -> (r: (
    String,
    Option<String>,
))
    ensures
        r.0@ == upload_name(file_name@, token@),
        opt_text(r.1) == upload_extension(file_name@),
{
    let safe = chars_of(sanitize_file_name(file_name).as_str());
    let (stem_part, extension_part) = safe_name_parts(&safe);
    let extension: Option<String> = match extension_part {
        Some(e) => normalize_extension(Some(string_of(&e).as_str())),
        None => None,
    };
    let stem: String = match stem_part {
        Some(s) => {
            let trimmed = trim_chars(&s);
            if trimmed.len() == 0 {
                "upload".to_string()
            } else {
                sanitize_file_name(string_of(&trimmed).as_str())
            }
        },
        None => "upload".to_string(),
    };
    let mut underscore: Vec<char> = Vec::new();
    underscore.push('_');
    assert(underscore@ =~= seq!['_']);
    let base = concat_chars(&concat_chars(&chars_of(stem.as_str()), &underscore), &chars_of(token));
    let name: String = match &extension {
        Some(e) => {
            let mut dot: Vec<char> = Vec::new();
            dot.push('.');
            assert(dot@ =~= seq!['.']);
            string_of(&concat_chars(&concat_chars(&base, &dot), &chars_of(e.as_str())))
        },
        None => string_of(&base),
    };
    (name, extension)
}

/// The name of the copy of a file that is sent and its extension. A fresh
/// token in the name keeps two uploads of one file apart.
pub fn build_upload_file_name(file_name: &str) -> (r: (String, Option<String>))
    ensures
        exists|token: Seq<char>| is_token(token) && r.0@ == #[trigger] upload_name(file_name@, token),
        opt_text(r.1) == upload_extension(file_name@),
{
    let token = fresh_token();
    build_upload_file_name_with_token(file_name, token.as_str())
}

/// The snapshot that is cached for an upload that was sent as `sent`. It
/// is the snapshot of the sent message where that carries something to hold,
/// else one made of what was uploaded; in both, category, file name and
/// extension are those of the upload, and the MIME type is that of the
/// upload's extension where the message names none.
pub open spec fn uploaded_snapshot(
    made: Option<MessageView>,
    sent_id: i32,
    sent_text: Seq<char>,
    chat_id: i64,
    timestamp: Seq<char>,
    upload_file_name: Seq<char>,
    extension: Option<Seq<char>>,
    size: i64,
) -> MessageView {
    let base = match made {
        Some(m) => m,
        None => MessageView {
            message_id: sent_id,
            chat_id,
            category: category_for(normalized_extension(extension_of_name(upload_file_name))),
            filename: Some(upload_file_name),
            extension: normalized_extension(extension_of_name(upload_file_name)),
            mime_type: None,
            timestamp,
            size: Some(size),
            text: if sent_text.len() == 0 {
                None
            } else {
                Some(sent_text)
            },
            thumbnail: None,
            file_reference: "upload:"@ + decimal(chat_id as int) + seq![':'] + decimal(
                sent_id as int,
            ),
        },
    };
    MessageView {
        category: category_for(extension),
        filename: Some(upload_file_name),
        extension,
        mime_type: match base.mime_type {
            Some(m) => Some(m),
            None => mime_type_for(extension),
        },
        ..base
    }
}

/// The name under which an upload is listed and its extension: the safe
/// form of the name that the file came with, and what stands behind its
/// last dot.
pub fn upload_listing_name(file_name: &str) -> (r: (String, Option<String>))
    ensures
        r.0@ == sanitize_name(file_name@),
        opt_text(r.1) == upload_extension(file_name@),
{
    let name = sanitize_file_name(file_name);
    let (_, extension_part) = safe_name_parts(&chars_of(name.as_str()));
    let extension: Option<String> = match extension_part {
        Some(e) => normalize_extension(Some(string_of(&e).as_str())),
        None => None,
    };
    (name, extension)
}

/// Makes the snapshot that is cached for an upload of the file `file_name`,
/// given the snapshot of the sent message where it has one. The snapshot
/// holds the name under which the upload is listed.
pub fn uploaded_message(
    made: Option<TelegramMessage>,
    sent: &RemoteMessage,
    chat_id: i64,
    timestamp: String,
    file_name: &str,
    size: i64,
) -> (r: TelegramMessage)
    ensures
        r@ == uploaded_snapshot(
            match made {
                Some(m) => Some(m@),
                None => None,
            },
            sent.id,
            sent.text@,
            chat_id,
            timestamp@,
            sanitize_name(file_name@),
            upload_extension(file_name@),
            size,
        ),
{
    let (listed, listed_extension) = upload_listing_name(file_name);
    let upload_file_name: &str = listed.as_str();
    let upload_extension: Option<&str> = crate::ingest::as_text(&listed_extension);
    let mut message = match made {
        Some(m) => m,
        None => {
            let extracted = extension_from_name(upload_file_name);
            let extension = match &extracted {
                Some(e) => normalize_extension(Some(e.as_str())),
                None => normalize_extension(None),
            };
            let classification = match &extension {
                Some(e) => classify_extension(Some(e.as_str())),
                None => classify_extension(None),
            };
            let mut colon: Vec<char> = Vec::new();
            colon.push(':');
            assert(colon@ =~= seq![':']);
            let head = concat_chars(&chars_of("upload:"), &decimal_of(chat_id));
            let reference = concat_chars(
                &concat_chars(&head, &colon),
                &decimal_of(sent.id as i64),
            );
            TelegramMessage {
                message_id: sent.id,
                chat_id,
                category: classification.category.to_string(),
                filename: Some(upload_file_name.to_owned()),
                extension,
                mime_type: None,
                timestamp,
                size: Some(size),
                text: if sent.text.as_str().unicode_len() == 0 {
                    None
                } else {
                    Some(sent.text.clone())
                },
                thumbnail: None,
                file_reference: string_of(&reference),
            }
        },
    };
    let classification = classify_extension(upload_extension);
    message.category = classification.category.to_string();
    message.filename = Some(upload_file_name.to_owned());
    message.extension = match upload_extension {
        Some(e) => Some(e.to_owned()),
        None => None,
    };
    if message.mime_type.is_none() {
        message.mime_type = match mime_type_from_extension(upload_extension) {
            Some(m) => Some(m.to_string()),
            None => None,
        };
    }
    message
}

/// Records an upload of the file `file_name` in the index: caches its
/// snapshot, makes sure that the default folders of `owner_id` exist, and
/// writes its node into `file_path`, or into the directory of its category
/// where the caller names none. The node is listed under the safe form of
/// `file_name`.
pub fn record_upload(
    db: &mut Database,
    owner_id: &str,
    message: &TelegramMessage,
    file_path: Option<&str>,
    file_name: &str,
    now: &str,
)
    ensures
        final(db)@.messages == crate::cache::upsert_message(old(db)@.messages, message@),
        exists|token: Seq<char>|
            is_token(token) && final(db)@.items == upsert_row(
                crate::engine::ensured_default_folders(old(db)@.items, owner_id@, now@),
                #[trigger] derived_item(
                    owner_id@,
                    message@,
                    opt_str(file_path),
                    Some(sanitize_name(file_name@)),
                    token,
                ),
            ),
        final(db)@.items.len() > 0,
        final(db)@.items.last().file_name == sanitize_name(file_name@),
        final(db)@.settings == old(db)@.settings,
        old(db).wf() ==> final(db).wf(),
{
    let (listed, _) = upload_listing_name(file_name);
    db.save_telegram_message(message);
    db.ensure_telegram_saved_folders(owner_id, now);
    upsert_saved_item_from_message(db, owner_id, message, file_path, Some(listed.as_str()));
    proof {
        lemma_safe_name_is_kept(file_name@);
    }
}

/// A name made safe is safe: making it safe again gives the name itself,
/// so that a node that prefers it is listed under it.
pub proof fn lemma_safe_name_is_kept(name: Seq<char>)
    ensures
        crate::naming::optional_name(sanitize_name(name)) == Some(sanitize_name(name)),
        sanitize_name(sanitize_name(name)) == sanitize_name(name),
{
    let safe = sanitize_name(name);
    let trimmed = trim(name);
    if trimmed.len() == 0 {
        reveal_strlit("upload.bin");
        assert(safe.len() == 10);
        assert(safe[0] == 'u' && safe.last() == safe[9] && safe[9] == 'n');
        crate::path_laws::lemma_trim_fixed(safe);
        assert(crate::naming::sanitized(safe) =~= safe);
    } else {
        crate::path_laws::lemma_trim(name);
        assert(!crate::text::is_whitespace('_'));
        crate::path_laws::lemma_trim_fixed(safe);
        assert(crate::naming::sanitized(safe) =~= safe);
    }
}

} // verus!

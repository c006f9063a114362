//! From cached messages to nodes of the tree.
//!
//! A file node is derived from the cached snapshot of its message: its
//! extension and kind by the rules of naming, its directory from its
//! category, its key from the identity of the message. Deriving it again
//! writes the same key, so the tree holds one node for one message.

use crate::model::{copy_opt_text, opt_text, MessageView, SavedItemView, TelegramMessage,
    TelegramSavedItem};
use crate::naming::{
    category_for, classify_extension, default_extension, default_extension_for_file_type,
    extension_from_mime_type, extension_from_name, extension_of_mime_type, extension_of_name,
    fallback_file_name_for_non_media, fallback_name, file_type_for, fresh_token,
    generated_file_name_with_token, generated_name, is_token, normalize_extension,
    normalized_extension, optional_name, optional_sanitized_name,
};
use crate::paths::{
    alphanumeric_token, alphanumeric_token_chars, category_path, category_to_saved_path, normalize,
    normalize_saved_path,
};
use crate::store::{opt_str, upsert_row, Database};
use crate::text::{chars_of, concat_chars, decimal, decimal_of, same_text, slice_chars, string_of};
use vstd::prelude::*;

verus! {

/// An optional string as an optional slice.
pub fn as_text(o: &Option<String>) -> (r: Option<&str>)
    ensures
        opt_str(r) == opt_text(*o),
{
    match o {
        Some(s) => Some(s.as_str()),
        None => None,
    }
}

/// The name that a node gets from what is at hand: the name that the
/// caller prefers, else the file name of the message, each made safe; a name
/// of white space counts as none.
pub open spec fn preferred_name(message: MessageView, preferred: Option<Seq<char>>) -> Option<
    Seq<char>,
> {
    let own = match message.filename {
        Some(f) => optional_name(f),
        None => None,
    };
    match preferred {
        Some(p) => match optional_name(p) {
            Some(n) => Some(n),
            None => own,
        },
        None => own,
    }
}

/// The extension of a node where one is known: the explicit extension of
/// the message, else the extension of the name, else the one that the MIME
/// type stands for.
pub open spec fn resolved_extension(message: MessageView, name: Option<Seq<char>>) -> Option<
    Seq<char>,
> {
    match normalized_extension(message.extension) {
        Some(e) => Some(e),
        None => {
            let from_name = match name {
                Some(n) => extension_of_name(n),
                None => None,
            };
            match from_name {
                Some(e) => Some(e),
                None => extension_of_mime_type(message.mime_type),
            }
        },
    }
}

/// Whether files of this kind get a made-up name with a token.
pub open spec fn is_media_type(file_type: Seq<char>) -> bool {
    file_type == "image"@ || file_type == "video"@ || file_type == "audio"@
}

/// The name of the node for `message`: the preferred name where there is
/// one, else a made-up name.
pub open spec fn resolved_name(message: MessageView, preferred: Option<Seq<char>>, token: Seq<char>)
    -> Seq<char> {
    let name = preferred_name(message, preferred);
    let extension = resolved_extension(message, name);
    let file_type = file_type_for(extension);
    let final_extension = match extension {
        Some(e) => Some(e),
        None => Some(default_extension(file_type)),
    };
    match name {
        Some(n) => n,
        None => if is_media_type(file_type) {
            generated_name(file_type, token, final_extension)
        } else {
            fallback_name(message.message_id, file_type, final_extension)
        },
    }
}

/// The key of the node for `message`. A message with a positive id is
/// known by its chat and its id alone.
pub open spec fn message_key(message: MessageView, file_name: Seq<char>) -> Seq<char> {
    if message.message_id > 0 {
        "msg_"@ + decimal(message.chat_id as int) + seq!['_'] + decimal(message.message_id as int)
    } else {
        "msg_"@ + alphanumeric_token(
            decimal(message.chat_id as int) + seq!['_'] + message.timestamp + seq!['_'] + file_name,
        )
    }
}

/// The node that stands for `message` in the tree of `owner`. It lies in
/// `path` where the caller names a directory, else in the directory of its
/// category. `token` goes into the name where a name has to be made up for
/// a media file.
pub open spec fn derived_item(
    owner: Seq<char>,
    message: MessageView,
    path: Option<Seq<char>>,
    preferred: Option<Seq<char>>,
    token: Seq<char>,
) -> SavedItemView {
    let name = preferred_name(message, preferred);
    let extension = resolved_extension(message, name);
    let file_name = resolved_name(message, preferred, token);
    SavedItemView {
        chat_id: message.chat_id,
        message_id: message.message_id,
        thumbnail: message.thumbnail,
        file_type: file_type_for(extension),
        file_unique_id: message_key(message, file_name),
        file_size: match message.size {
            Some(size) => size,
            None => 0,
        },
        file_name,
        file_caption: message.text,
        file_path: match path {
            Some(p) => normalize(p),
            None => category_path(category_for(extension)),
        },
        recycle_origin_path: None,
        modified_date: message.timestamp,
        owner_id: owner,
    }
}

/// Whether the name of the node for `message` has to be made up with a
/// token.
pub open spec fn needs_token(message: MessageView, preferred: Option<Seq<char>>) -> bool {
    let name = preferred_name(message, preferred);
    name is None && is_media_type(file_type_for(resolved_extension(message, name)))
}

/// The key of a file node does not depend on how its name was made up:
/// for a message with a positive id, any two derivations have the same key.
pub proof fn lemma_derived_key_is_stable(
    owner: Seq<char>,
    message: MessageView,
    first_path: Option<Seq<char>>,
    second_path: Option<Seq<char>>,
    first_name: Option<Seq<char>>,
    second_name: Option<Seq<char>>,
    first_token: Seq<char>,
    second_token: Seq<char>,
)
    requires
        message.message_id > 0,
    ensures
        derived_item(owner, message, first_path, first_name, first_token).file_unique_id
            == derived_item(owner, message, second_path, second_name, second_token).file_unique_id,
{
}

/// Deriving is idempotent on the key: the node of a message with a
/// positive id, derived and written twice, is one row under the key it had
/// after the first time, and the table is what it would be had the second
/// node been written alone.
pub proof fn lemma_deriving_twice_keeps_one_row(
    rows: Seq<SavedItemView>,
    owner: Seq<char>,
    message: MessageView,
    first_token: Seq<char>,
    second_token: Seq<char>,
)
    requires
        message.message_id > 0,
    ensures
        ({
            let first = derived_item(owner, message, None, None, first_token);
            let second = derived_item(owner, message, None, None, second_token);
            let twice = upsert_row(upsert_row(rows, first), second);
            &&& second.file_unique_id == first.file_unique_id
            &&& crate::store_laws::count_key(twice, first.file_unique_id) == 1
            &&& twice == upsert_row(rows, second)
        }),
{
    let first = derived_item(owner, message, None, None, first_token);
    let second = derived_item(owner, message, None, None, second_token);
    crate::store_laws::lemma_upsert_replaces(rows, first, second);
    crate::store_laws::lemma_upsert_keeps_one_row(rows, second);
}

/// A node whose name is not made up does not depend on the token.
pub proof fn lemma_token_unused(
    owner: Seq<char>,
    message: MessageView,
    path: Option<Seq<char>>,
    preferred: Option<Seq<char>>,
    first_token: Seq<char>,
    second_token: Seq<char>,
)
    requires
        !needs_token(message, preferred),
    ensures
        derived_item(owner, message, path, preferred, first_token) == derived_item(
            owner,
            message,
            path,
            preferred,
            second_token,
        ),
{
}

fn resolve_preferred_name(message: &TelegramMessage, fallback_file_name: Option<&str>) -> (r:
    Option<String>)
    ensures
        opt_text(r) == preferred_name(message@, opt_str(fallback_file_name)),
{
    let preferred = match fallback_file_name {
        Some(p) => optional_sanitized_name(p),
        None => None,
    };
    match preferred {
        Some(n) => Some(n),
        None => match &message.filename {
            Some(f) => optional_sanitized_name(f.as_str()),
            None => None,
        },
    }
}

fn resolve_extension(message: &TelegramMessage, name: &Option<String>) -> (r: Option<String>)
    ensures
        opt_text(r) == resolved_extension(message@, opt_text(*name)),
{
    match normalize_extension(as_text(&message.extension)) {
        Some(e) => Some(e),
        None => {
            let from_name = match name {
                Some(n) => extension_from_name(n.as_str()),
                None => None,
            };
            match from_name {
                Some(e) => Some(e),
                None => extension_from_mime_type(as_text(&message.mime_type)),
            }
        },
    }
}

fn media_type(file_type: &str) -> (b: bool)
    ensures
        b == is_media_type(file_type@),
{
    same_text(file_type, "image") || same_text(file_type, "video") || same_text(file_type, "audio")
}

fn build_message_key(message: &TelegramMessage, file_name: &str) -> (r: String)
    ensures
        r@ == message_key(message@, file_name@),
{
    let mut underscore: Vec<char> = Vec::new();
    underscore.push('_');
    assert(underscore@ =~= seq!['_']);
    let chat = concat_chars(&decimal_of(message.chat_id), &underscore);
    if message.message_id > 0 {
        let tail = concat_chars(&chat, &decimal_of(message.message_id as i64));
        assert(tail@ =~= decimal(message.chat_id as int) + seq!['_'] + decimal(
            message.message_id as int,
        ));
        let key = concat_chars(&chars_of("msg_"), &tail);
        assert(key@ =~= "msg_"@ + decimal(message.chat_id as int) + seq!['_'] + decimal(
            message.message_id as int,
        ));
        string_of(&key)
    } else {
        let stamped = concat_chars(
            &concat_chars(&chat, &chars_of(message.timestamp.as_str())),
            &underscore,
        );
        let all = concat_chars(&stamped, &chars_of(file_name));
        assert(all@ =~= decimal(message.chat_id as int) + seq!['_'] + message.timestamp@
            + seq!['_'] + file_name@);
        string_of(&concat_chars(&chars_of("msg_"), &alphanumeric_token_chars(&all)))
    }
}

/// The node that stands for `message` in the tree of `owner_id`, with
/// `token` for the name where one has to be made up.
pub fn saved_item_from_message(
    owner_id: &str,
    message: &TelegramMessage,
    preferred_path: Option<&str>,
    fallback_file_name: Option<&str>,
    token: &str,
) -> (item: TelegramSavedItem)
    ensures
        item@ == derived_item(
            owner_id@,
            message@,
            opt_str(preferred_path),
            opt_str(fallback_file_name),
            token@,
        ),
{
    let name = resolve_preferred_name(message, fallback_file_name);
    let extension = resolve_extension(message, &name);
    let classification = classify_extension(as_text(&extension));
    let final_extension: String = match &extension {
        Some(e) => e.clone(),
        None => default_extension_for_file_type(classification.file_type).to_string(),
    };
    let file_name: String = match name {
        Some(n) => n,
        None => {
            if media_type(classification.file_type) {
                generated_file_name_with_token(
                    classification.file_type,
                    token,
                    Some(final_extension.as_str()),
                )
            } else {
                fallback_file_name_for_non_media(
                    message.message_id,
                    classification.file_type,
                    Some(final_extension.as_str()),
                )
            }
        },
    };
    let file_path: String = match preferred_path {
        Some(p) => normalize_saved_path(p),
        None => category_to_saved_path(classification.category),
    };
    let file_unique_id = build_message_key(message, file_name.as_str());
    TelegramSavedItem {
        chat_id: message.chat_id,
        message_id: message.message_id,
        thumbnail: copy_opt_text(&message.thumbnail),
        file_type: classification.file_type.to_string(),
        file_unique_id,
        file_size: match message.size {
            Some(size) => size,
            None => 0,
        },
        file_name,
        file_caption: copy_opt_text(&message.text),
        file_path,
        recycle_origin_path: None,
        modified_date: message.timestamp.clone(),
        owner_id: owner_id.to_owned(),
    }
}

/// Whether the name of the node for `message` has to be made up with a
/// token.
pub fn item_needs_token(message: &TelegramMessage, fallback_file_name: Option<&str>) -> (b: bool)
    ensures
        b == needs_token(message@, opt_str(fallback_file_name)),
{
    let name = resolve_preferred_name(message, fallback_file_name);
    if name.is_some() {
        return false;
    }
    let extension = resolve_extension(message, &name);
    let classification = classify_extension(as_text(&extension));
    media_type(classification.file_type)
}

/// A text that has the form of a token.
pub proof fn lemma_some_token() -> (token: Seq<char>)
    ensures
        is_token(token),
{
    Seq::new(32, |i: int| '0')
}

/// Whether a row is a node as it was written before: it has the key and
/// the name of the node.
pub open spec fn names_alike(row: SavedItemView, node: SavedItemView) -> bool {
    row.file_unique_id == node.file_unique_id && row.file_name == node.file_name
}

/// Whether `v` has the form of a token.
pub fn is_token_chars(v: &Vec<char>) -> (b: bool)
    ensures
        b == is_token(v@),
{
    if v.len() != 32 {
        return false;
    }
    let mut i: usize = 0;
    while i < 32
        invariant
            i <= 32,
            v.len() == 32,
            forall|k: int| 0 <= k < i ==> ('0' <= #[trigger] v@[k] <= '9' || 'a' <= v@[k] <= 'f'),
        decreases 32 - i,
    {
        let c: char = v[i];
        if !(('0' <= c && c <= '9') || ('a' <= c && c <= 'f')) {
            return false;
        }
        i += 1;
    }
    true
}

/// A made-up name holds its token behind the kind and `_`.
pub proof fn lemma_token_in_name(kind: Seq<char>, token: Seq<char>, extension: Option<Seq<char>>)
    ensures
        generated_name(kind, token, extension).len() >= kind.len() + 1 + token.len(),
        generated_name(kind, token, extension).subrange(
            kind.len() as int + 1,
            kind.len() as int + 1 + token.len(),
        ) == token,
{
    let name = generated_name(kind, token, extension);
    assert(name.subrange(kind.len() as int + 1, kind.len() as int + 1 + token.len()) =~= token);
}

/// A row that has the name of a node with a made-up name holds the token
/// of that name behind the kind and `_`.
pub proof fn lemma_alike_row_holds_token(
    row: SavedItemView,
    owner: Seq<char>,
    message: MessageView,
    path: Option<Seq<char>>,
    preferred: Option<Seq<char>>,
    token: Seq<char>,
)
    requires
        needs_token(message, preferred),
        is_token(token),
        names_alike(row, derived_item(owner, message, path, preferred, token)),
    ensures
        ({
            let kind = derived_item(owner, message, path, preferred, Seq::<char>::empty()).file_type;
            &&& row.file_name.len() >= kind.len() + 33
            &&& row.file_name.subrange(kind.len() as int + 1, kind.len() as int + 33) == token
        }),
{
    let found = preferred_name(message, preferred);
    let extension = resolved_extension(message, found);
    let file_type = file_type_for(extension);
    let final_extension = match extension {
        Some(e) => Some(e),
        None => Some(default_extension(file_type)),
    };
    assert(row.file_name == generated_name(file_type, token, final_extension));
    lemma_token_in_name(file_type, token, final_extension);
}

/// The token of a row that stands for `message` already: one with which
/// the node of the message has the key and the name of a row of the table.
fn kept_token(
    db: &Database,
    owner_id: &str,
    message: &TelegramMessage,
    preferred_path: Option<&str>,
    fallback_file_name: Option<&str>,
) -> (r: Option<String>)
    requires
        needs_token(message@, opt_str(fallback_file_name)),
    ensures
        match r {
            Some(t) => is_token(t@) && exists|i: int|
                0 <= i < db@.items.len() && names_alike(
                    #[trigger] db@.items[i],
                    derived_item(
                        owner_id@,
                        message@,
                        opt_str(preferred_path),
                        opt_str(fallback_file_name),
                        t@,
                    ),
                ),
            None => forall|i: int, token: Seq<char>|
                0 <= i < db@.items.len() && is_token(token) ==> !#[trigger] names_alike(
                    db@.items[i],
                    derived_item(
                        owner_id@,
                        message@,
                        opt_str(preferred_path),
                        opt_str(fallback_file_name),
                        token,
                    ),
                ),
        },
{
    let probe = saved_item_from_message(
        owner_id,
        message,
        preferred_path,
        fallback_file_name,
        "",
    );
    let kind = chars_of(probe.file_type.as_str());
    let ghost owner = owner_id@;
    let ghost path = opt_str(preferred_path);
    let ghost preferred = opt_str(fallback_file_name);
    assert(""@ =~= Seq::<char>::empty()) by {
        reveal_strlit("");
    }
    let mut i: usize = 0;
    while i < db.items.len()
        invariant
            i <= db.items.len(),
            owner == owner_id@,
            path == opt_str(preferred_path),
            preferred == opt_str(fallback_file_name),
            needs_token(message@, preferred),
            kind@ == derived_item(owner, message@, path, preferred, Seq::<char>::empty()).file_type,
            forall|k: int, token: Seq<char>|
                0 <= k < i && is_token(token) ==> !#[trigger] names_alike(
                    db@.items[k],
                    derived_item(owner, message@, path, preferred, token),
                ),
        decreases db.items.len() - i,
    {
        let row = &db.items[i];
        assert(row@ == db@.items[i as int]);
        let name = chars_of(row.file_name.as_str());
        if kind.len() <= usize::MAX - 33 && name.len() >= kind.len() + 33 {
            let candidate = slice_chars(&name, kind.len() + 1, kind.len() + 33);
            if is_token_chars(&candidate) {
                let t = string_of(&candidate);
                let item = saved_item_from_message(
                    owner_id,
                    message,
                    preferred_path,
                    fallback_file_name,
                    t.as_str(),
                );
                if same_text(item.file_unique_id.as_str(), row.file_unique_id.as_str())
                    && same_text(item.file_name.as_str(), row.file_name.as_str()) {
                    assert(names_alike(
                        db@.items[i as int],
                        derived_item(owner, message@, path, preferred, t@),
                    ));
                    return Some(t);
                }
                assert forall|token: Seq<char>| is_token(token) implies !#[trigger] names_alike(
                    db@.items[i as int],
                    derived_item(owner, message@, path, preferred, token),
                ) by {
                    if names_alike(row@, derived_item(owner, message@, path, preferred, token)) {
                        lemma_alike_row_holds_token(row@, owner, message@, path, preferred, token);
                        assert(candidate@ == token);
                    }
                }
            } else {
                assert forall|token: Seq<char>| is_token(token) implies !#[trigger] names_alike(
                    db@.items[i as int],
                    derived_item(owner, message@, path, preferred, token),
                ) by {
                    if names_alike(row@, derived_item(owner, message@, path, preferred, token)) {
                        lemma_alike_row_holds_token(row@, owner, message@, path, preferred, token);
                        assert(candidate@ == token);
                    }
                }
            }
        } else {
            assert forall|token: Seq<char>| is_token(token) implies !#[trigger] names_alike(
                db@.items[i as int],
                derived_item(owner, message@, path, preferred, token),
            ) by {
                if names_alike(row@, derived_item(owner, message@, path, preferred, token)) {
                    lemma_alike_row_holds_token(row@, owner, message@, path, preferred, token);
                    assert(row@.file_name == name@);
                    assert(name@.len() == name.len());
                    assert(kind@.len() == kind.len());
                    assert(name.len() <= usize::MAX);
                }
            }
        }
        i += 1;
    }
    None
}

/// Writes the node that stands for `message` into the tree of `owner_id`.
/// Where the name of a media file has to be made up, the row that stands
/// for the message already keeps its name; where there is none, a fresh
/// token goes into the name. So a node that is derived again from a message
/// that has not changed is the node that was there.
pub fn upsert_saved_item_from_message(
    db: &mut Database,
    owner_id: &str,
    message: &TelegramMessage,
    preferred_path: Option<&str>,
    fallback_file_name: Option<&str>,
)
    ensures
        exists|token: Seq<char>|
            is_token(token) && final(db)@.items == upsert_row(
                old(db)@.items,
                #[trigger] derived_item(
                    owner_id@,
                    message@,
                    opt_str(preferred_path),
                    opt_str(fallback_file_name),
                    token,
                ),
            ),
        message.message_id > 0 && old(db).wf() ==> forall|i: int, token: Seq<char>|
            0 <= i < old(db)@.items.len() && is_token(token) && #[trigger] names_alike(
                old(db)@.items[i],
                derived_item(
                    owner_id@,
                    message@,
                    opt_str(preferred_path),
                    opt_str(fallback_file_name),
                    token,
                ),
            ) ==> final(db)@.items == upsert_row(
                old(db)@.items,
                derived_item(
                    owner_id@,
                    message@,
                    opt_str(preferred_path),
                    opt_str(fallback_file_name),
                    token,
                ),
            ),
        final(db)@.messages == old(db)@.messages,
        final(db)@.settings == old(db)@.settings,
        old(db).wf() ==> final(db).wf(),
{
    let needs = item_needs_token(message, fallback_file_name);
    let token: String = if needs {
        match kept_token(db, owner_id, message, preferred_path, fallback_file_name) {
            Some(kept) => kept,
            None => fresh_token(),
        }
    } else {
        String::new()
    };
    let item = saved_item_from_message(
        owner_id,
        message,
        preferred_path,
        fallback_file_name,
        token.as_str(),
    );
    db.upsert_telegram_saved_item(&item);
    proof {
        let witness = if needs_token(message@, opt_str(fallback_file_name)) {
            token@
        } else {
            lemma_some_token()
        };
        assert(item@ == derived_item(
            owner_id@,
            message@,
            opt_str(preferred_path),
            opt_str(fallback_file_name),
            witness,
        ));
        if message.message_id > 0 && old(db).wf() {
            assert forall|i: int, other: Seq<char>|
                0 <= i < old(db)@.items.len() && is_token(other) && #[trigger] names_alike(
                    old(db)@.items[i],
                    derived_item(
                        owner_id@,
                        message@,
                        opt_str(preferred_path),
                        opt_str(fallback_file_name),
                        other,
                    ),
                ) implies item@ == derived_item(
                owner_id@,
                message@,
                opt_str(preferred_path),
                opt_str(fallback_file_name),
                other,
            ) by {
                if needs {
                    let j = choose|j: int|
                        0 <= j < old(db)@.items.len() && names_alike(
                            #[trigger] old(db)@.items[j],
                            item@,
                        );
                    assert(old(db)@.items[i].file_unique_id == old(db)@.items[j].file_unique_id);
                    assert(i == j);
                }
            }
        }
    }
}

} // verus!

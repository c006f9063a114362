//! Thumbnails: telling the format of picture bytes and reading the bytes out
//! of a data URL.

use crate::text::{chars_of, concat_chars, decimal, decimal_of, find, find_chars, slice_chars,
    string_of};
use vstd::prelude::*;

verus! {

/// Whether `bytes` starts with `magic`.
pub open spec fn starts_with_bytes(bytes: Seq<u8>, magic: Seq<u8>) -> bool {
    magic.is_prefix_of(bytes)
}

/// Whether `bytes` has the signature of a WebP file: `RIFF`, four bytes of
/// length, `WEBP`.
pub open spec fn is_webp(bytes: Seq<u8>) -> bool {
    bytes.len() >= 12 && bytes.subrange(0, 4) == seq![0x52u8, 0x49u8, 0x46u8, 0x46u8]
        && bytes.subrange(8, 12) == seq![0x57u8, 0x45u8, 0x42u8, 0x50u8]
}

/// The extension for the format that picture bytes are in, told by their
/// first bytes: JPEG, PNG, WebP or GIF, and `jpg` for everything else.
pub open spec fn thumbnail_extension(bytes: Seq<u8>) -> Seq<char> {
    if starts_with_bytes(bytes, seq![0xFFu8, 0xD8u8, 0xFFu8]) {
        "jpg"@
    } else if starts_with_bytes(
        bytes,
        seq![0x89u8, 0x50u8, 0x4Eu8, 0x47u8, 0x0Du8, 0x0Au8, 0x1Au8, 0x0Au8],
    ) {
        "png"@
    } else if is_webp(bytes) {
        "webp"@
    } else if starts_with_bytes(bytes, seq![0x47u8, 0x49u8, 0x46u8, 0x38u8]) {
        "gif"@
    } else {
        "jpg"@
    }
}

/// The extension for the format that picture bytes are in.
pub fn detect_thumbnail_extension(bytes: &[u8]) -> (r: &'static str)
    ensures
        r@ == thumbnail_extension(bytes@),
{
    let n: usize = bytes.len();
    if n >= 3 && bytes[0] == 0xFF && bytes[1] == 0xD8 && bytes[2] == 0xFF {
        assert(bytes@.subrange(0, 3) =~= seq![0xFFu8, 0xD8u8, 0xFFu8]);
        return "jpg";
    }
    assert(!starts_with_bytes(bytes@, seq![0xFFu8, 0xD8u8, 0xFFu8])) by {
        if n >= 3 {
            let head = bytes@.subrange(0, 3);
            assert(head[0] == bytes@[0] && head[1] == bytes@[1] && head[2] == bytes@[2]);
        }
    }
    if n >= 8 && bytes[0] == 0x89 && bytes[1] == 0x50 && bytes[2] == 0x4E && bytes[3] == 0x47
        && bytes[4] == 0x0D && bytes[5] == 0x0A && bytes[6] == 0x1A && bytes[7] == 0x0A {
        assert(bytes@.subrange(0, 8) =~= seq![
            0x89u8,
            0x50u8,
            0x4Eu8,
            0x47u8,
            0x0Du8,
            0x0Au8,
            0x1Au8,
            0x0Au8,
        ]);
        return "png";
    }
    assert(!starts_with_bytes(
        bytes@,
        seq![0x89u8, 0x50u8, 0x4Eu8, 0x47u8, 0x0Du8, 0x0Au8, 0x1Au8, 0x0Au8],
    )) by {
        if n >= 8 {
            let head = bytes@.subrange(0, 8);
            assert(head[0] == bytes@[0] && head[1] == bytes@[1] && head[2] == bytes@[2] && head[3]
                == bytes@[3]);
            assert(head[4] == bytes@[4] && head[5] == bytes@[5] && head[6] == bytes@[6] && head[7]
                == bytes@[7]);
        }
    }
    if n >= 12 && bytes[0] == 0x52 && bytes[1] == 0x49 && bytes[2] == 0x46 && bytes[3] == 0x46
        && bytes[8] == 0x57 && bytes[9] == 0x45 && bytes[10] == 0x42 && bytes[11] == 0x50 {
        assert(bytes@.subrange(0, 4) =~= seq![0x52u8, 0x49u8, 0x46u8, 0x46u8]);
        assert(bytes@.subrange(8, 12) =~= seq![0x57u8, 0x45u8, 0x42u8, 0x50u8]);
        return "webp";
    }
    assert(!is_webp(bytes@)) by {
        if n >= 12 {
            let head = bytes@.subrange(0, 4);
            let tail = bytes@.subrange(8, 12);
            assert(head[0] == bytes@[0] && head[1] == bytes@[1] && head[2] == bytes@[2] && head[3]
                == bytes@[3]);
            assert(tail[0] == bytes@[8] && tail[1] == bytes@[9] && tail[2] == bytes@[10] && tail[3]
                == bytes@[11]);
        }
    }
    if n >= 4 && bytes[0] == 0x47 && bytes[1] == 0x49 && bytes[2] == 0x46 && bytes[3] == 0x38 {
        assert(bytes@.subrange(0, 4) =~= seq![0x47u8, 0x49u8, 0x46u8, 0x38u8]);
        return "gif";
    }
    assert(!starts_with_bytes(bytes@, seq![0x47u8, 0x49u8, 0x46u8, 0x38u8])) by {
        if n >= 4 {
            let head = bytes@.subrange(0, 4);
            assert(head[0] == bytes@[0] && head[1] == bytes@[1] && head[2] == bytes@[2] && head[3]
                == bytes@[3]);
        }
    }
    "jpg"
}

/// The name of the file in which the thumbnail of a message is kept:
/// `<chat>_<message>.<extension>`, the extension told by the bytes.
pub open spec fn thumbnail_file(chat_id: i64, message_id: i32, bytes: Seq<u8>) -> Seq<char> {
    decimal(chat_id as int) + seq!['_'] + decimal(message_id as int) + seq!['.']
        + thumbnail_extension(bytes)
}

/// The name of the file in which the thumbnail of a message is kept.
pub fn thumbnail_file_name(chat_id: i64, message_id: i32, bytes: &[u8]) -> (r: String)
    ensures
        r@ == thumbnail_file(chat_id, message_id, bytes@),
{
    let mut underscore: Vec<char> = Vec::new();
    underscore.push('_');
    assert(underscore@ =~= seq!['_']);
    let mut dot: Vec<char> = Vec::new();
    dot.push('.');
    assert(dot@ =~= seq!['.']);
    let a = concat_chars(&decimal_of(chat_id), &underscore);
    let b = concat_chars(&a, &decimal_of(message_id as i64));
    let c = concat_chars(&b, &dot);
    string_of(&concat_chars(&c, &chars_of(detect_thumbnail_extension(bytes))))
}

/// What decoding a text as base64 gives, with the standard alphabet and
/// with padding: the bytes, or nothing where the text is not well formed.
pub uninterp spec fn base64_decoded(text: Seq<char>) -> Option<Seq<u8>>;

/// `Engine::decode` of base64 on the engine `STANDARD`: the bytes that the
/// text encodes, or nothing for a text that is no base64 in the standard
/// alphabet with padding. The result depends on the text alone and is what
/// `base64_decoded` names.
#[verifier::external_body]
pub(crate) fn base64_decode(text: &str) -> (r: Option<Vec<u8>>)
    ensures
        match r {
            Some(bytes) => base64_decoded(text@) == Some(bytes@),
            None => base64_decoded(text@) is None,
        },
{
    base64::Engine::decode(&base64::engine::general_purpose::STANDARD, text).ok()
}

/// What stands behind the first `base64,` in a data URL.
pub open spec fn data_url_payload(data_url: Seq<char>) -> Option<Seq<char>> {
    match find(data_url, "base64,"@) {
        Some(at) => Some(data_url.skip(at + "base64,"@.len())),
        None => None,
    }
}

/// The bytes that a data URL carries: what decoding its payload gives.
pub open spec fn data_url_bytes(data_url: Seq<char>) -> Option<Seq<u8>> {
    match data_url_payload(data_url) {
        Some(payload) => base64_decoded(payload),
        None => None,
    }
}

/// What stands behind the first `base64,` in a data URL; `None` where the
/// URL has no such marker.
pub fn data_url_base64_payload(data_url: &str) -> (r: Option<String>)
    ensures
        crate::model::opt_text(r) == data_url_payload(data_url@),
{
    let text = chars_of(data_url);
    let marker = chars_of("base64,");
    match find_chars(&text, &marker) {
        Some(at) => {
            let end: usize = text.len();
            assert(at + marker@.len() <= end) by {
                assert(crate::text::occurs_at(text@, marker@, at as int));
            }
            let payload = slice_chars(&text, at + marker.len(), text.len());
            assert(text@.subrange(at + marker.len(), text.len() as int) =~= text@.skip(
                at + marker.len(),
            ));
            Some(string_of(&payload))
        },
        None => None,
    }
}

/// The picture bytes that a data URL carries; `None` where the URL has no
/// base64 payload or the payload does not decode.
pub fn decode_data_url_image_bytes(data_url: &str) -> (r: Option<Vec<u8>>)
    ensures
        match r {
            Some(bytes) => data_url_bytes(data_url@) == Some(bytes@),
            None => data_url_bytes(data_url@) is None,
        },
{
    match data_url_base64_payload(data_url) {
        Some(payload) => base64_decode(payload.as_str()),
        None => None,
    }
}

} // verus!

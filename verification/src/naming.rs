//! Classification and naming: from what the remote side says of a file to
//! its extension, its category and kind, and the name it gets in the tree.
//!
//! The extension is the explicit one where there is one, else the one of the
//! file name, else the one that the MIME type stands for, else the default of
//! the kind. The name is the one at hand, made safe, or a made-up one.

use crate::store::opt_str;
use crate::text::{
    chars_of, concat_chars, decimal, decimal_of, last_index_of, last_index_of_chars, lowercase,
    same_chars, slice_chars, string_of, strip_leading, strip_leading_chars, to_lowercase, trim,
    trim_chars,
};
use vstd::prelude::*;

verus! {

/// The characters that a file name cannot hold.
pub open spec fn is_reserved_char(c: char) -> bool {
    c == '/' || c == '\\' || c == ':' || c == '*' || c == '?' || c == '"' || c == '<' || c == '>'
        || c == '|'
}

/// `s` with `_` in place of each character that a file name cannot hold.
pub open spec fn sanitized(s: Seq<char>) -> Seq<char> {
    Seq::new(
        s.len(),
        |i: int|
            if is_reserved_char(s[i]) {
                '_'
            } else {
                s[i]
            },
    )
}

/// The safe form of a file name: without white space around it and without
/// reserved characters; `upload.bin` for a name that has nothing else.
pub open spec fn sanitize_name(name: Seq<char>) -> Seq<char> {
    let trimmed = trim(name);
    if trimmed.len() == 0 {
        "upload.bin"@
    } else {
        sanitized(trimmed)
    }
}

/// The safe form of a file name, or nothing for a name of white space.
pub open spec fn optional_name(name: Seq<char>) -> Option<Seq<char>> {
    let trimmed = trim(name);
    if trimmed.len() == 0 {
        None
    } else {
        Some(sanitized(trimmed))
    }
}

/// How an upload is sent.
#[derive(Clone, Copy, Debug, PartialEq, Eq)]
pub enum UploadMediaKind {
    Photo,
    Video,
    Audio,
    Document,
}

/// The extensions of pictures that are sent as photos.
pub open spec fn is_photo_extension(e: Seq<char>) -> bool {
    e == "jpg"@ || e == "jpeg"@ || e == "png"@ || e == "webp"@ || e == "gif"@ || e == "bmp"@
}

/// The extensions of images.
pub open spec fn is_image_extension(e: Seq<char>) -> bool {
    is_photo_extension(e) || e == "tiff"@ || e == "svg"@ || e == "heic"@
}

/// The extensions of videos.
pub open spec fn is_video_extension(e: Seq<char>) -> bool {
    e == "mp4"@ || e == "mkv"@ || e == "webm"@ || e == "mov"@ || e == "avi"@ || e == "wmv"@ || e
        == "m4v"@ || e == "flv"@
}

/// The extensions of audio files.
pub open spec fn is_audio_extension(e: Seq<char>) -> bool {
    e == "mp3"@ || e == "m4a"@ || e == "ogg"@ || e == "wav"@ || e == "flac"@ || e == "aac"@ || e
        == "opus"@ || e == "wma"@
}

/// The extensions of texts and notes.
pub open spec fn is_text_extension(e: Seq<char>) -> bool {
    e == "txt"@ || e == "md"@ || e == "rtf"@ || e == "log"@ || e == "json"@ || e == "xml"@ || e
        == "yaml"@ || e == "yml"@ || e == "csv"@ || e == "ini"@ || e == "toml"@
}

/// The extension that a table is asked about: the empty text where there
/// is none.
pub open spec fn extension_or_empty(extension: Option<Seq<char>>) -> Seq<char> {
    match extension {
        Some(e) => e,
        None => Seq::empty(),
    }
}

/// How a file with this extension is sent.
pub open spec fn upload_kind(extension: Option<Seq<char>>) -> UploadMediaKind {
    let e = extension_or_empty(extension);
    if is_photo_extension(e) {
        UploadMediaKind::Photo
    } else if is_video_extension(e) {
        UploadMediaKind::Video
    } else if is_audio_extension(e) {
        UploadMediaKind::Audio
    } else {
        UploadMediaKind::Document
    }
}

/// The MIME type that an extension stands for, where the table knows it.
pub open spec fn mime_type_for(extension: Option<Seq<char>>) -> Option<Seq<char>> {
    let e = extension_or_empty(extension);
    if e == "jpg"@ || e == "jpeg"@ {
        Some("image/jpeg"@)
    } else if e == "png"@ {
        Some("image/png"@)
    } else if e == "webp"@ {
        Some("image/webp"@)
    } else if e == "gif"@ {
        Some("image/gif"@)
    } else if e == "bmp"@ {
        Some("image/bmp"@)
    } else if e == "mp4"@ {
        Some("video/mp4"@)
    } else if e == "mkv"@ {
        Some("video/x-matroska"@)
    } else if e == "webm"@ {
        Some("video/webm"@)
    } else if e == "mov"@ {
        Some("video/quicktime"@)
    } else if e == "avi"@ {
        Some("video/x-msvideo"@)
    } else if e == "wmv"@ {
        Some("video/x-ms-wmv"@)
    } else if e == "m4v"@ {
        Some("video/mp4"@)
    } else if e == "flv"@ {
        Some("video/x-flv"@)
    } else if e == "mp3"@ {
        Some("audio/mpeg"@)
    } else if e == "m4a"@ {
        Some("audio/mp4"@)
    } else if e == "ogg"@ {
        Some("audio/ogg"@)
    } else if e == "wav"@ {
        Some("audio/wav"@)
    } else if e == "flac"@ {
        Some("audio/flac"@)
    } else if e == "aac"@ {
        Some("audio/aac"@)
    } else if e == "opus"@ {
        Some("audio/opus"@)
    } else if e == "wma"@ {
        Some("audio/x-ms-wma"@)
    } else {
        None
    }
}

/// The category and the kind of a file.
#[derive(Clone, Copy, Debug, PartialEq, Eq)]
pub struct ExtensionClassification {
    pub category: &'static str,
    pub file_type: &'static str,
}

/// The category of a file with this extension.
pub open spec fn category_for(extension: Option<Seq<char>>) -> Seq<char> {
    let e = extension_or_empty(extension);
    if is_image_extension(e) {
        "Images"@
    } else if is_video_extension(e) {
        "Videos"@
    } else if is_audio_extension(e) {
        "Audios"@
    } else if is_text_extension(e) {
        "Notes"@
    } else {
        "Documents"@
    }
}

/// The kind of a file with this extension.
pub open spec fn file_type_for(extension: Option<Seq<char>>) -> Seq<char> {
    let e = extension_or_empty(extension);
    if is_image_extension(e) {
        "image"@
    } else if is_video_extension(e) {
        "video"@
    } else if is_audio_extension(e) {
        "audio"@
    } else if is_text_extension(e) {
        "text"@
    } else {
        "document"@
    }
}

/// The extension that a MIME type in lower case stands for, where the
/// table knows it.
pub open spec fn extension_for_mime(mime: Seq<char>) -> Option<Seq<char>> {
    if mime == "image/jpeg"@ || mime == "image/jpg"@ {
        Some("jpg"@)
    } else if mime == "image/png"@ {
        Some("png"@)
    } else if mime == "image/webp"@ {
        Some("webp"@)
    } else if mime == "image/gif"@ {
        Some("gif"@)
    } else if mime == "image/bmp"@ {
        Some("bmp"@)
    } else if mime == "image/tiff"@ {
        Some("tiff"@)
    } else if mime == "image/heic"@ || mime == "image/heif"@ {
        Some("heic"@)
    } else if mime == "video/mp4"@ {
        Some("mp4"@)
    } else if mime == "video/x-matroska"@ {
        Some("mkv"@)
    } else if mime == "video/webm"@ {
        Some("webm"@)
    } else if mime == "video/quicktime"@ {
        Some("mov"@)
    } else if mime == "video/x-msvideo"@ {
        Some("avi"@)
    } else if mime == "video/x-ms-wmv"@ {
        Some("wmv"@)
    } else if mime == "audio/mpeg"@ || mime == "audio/mp3"@ {
        Some("mp3"@)
    } else if mime == "audio/mp4"@ || mime == "audio/x-m4a"@ {
        Some("m4a"@)
    } else if mime == "audio/ogg"@ {
        Some("ogg"@)
    } else if mime == "audio/wav"@ || mime == "audio/x-wav"@ {
        Some("wav"@)
    } else if mime == "audio/flac"@ || mime == "audio/x-flac"@ {
        Some("flac"@)
    } else if mime == "audio/aac"@ {
        Some("aac"@)
    } else if mime == "audio/opus"@ {
        Some("opus"@)
    } else if mime == "text/plain"@ {
        Some("txt"@)
    } else if mime == "text/markdown"@ {
        Some("md"@)
    } else if mime == "application/pdf"@ {
        Some("pdf"@)
    } else if mime == "application/zip"@ {
        Some("zip"@)
    } else if mime == "application/x-rar-compressed"@ {
        Some("rar"@)
    } else if mime == "application/x-7z-compressed"@ {
        Some("7z"@)
    } else if mime == "application/json"@ {
        Some("json"@)
    } else if mime == "application/xml"@ {
        Some("xml"@)
    } else if mime == "application/msword"@ {
        Some("doc"@)
    } else if mime == "application/vnd.openxmlformats-officedocument.wordprocessingml.document"@ {
        Some("docx"@)
    } else if mime == "application/vnd.ms-excel"@ {
        Some("xls"@)
    } else if mime == "application/vnd.openxmlformats-officedocument.spreadsheetml.sheet"@ {
        Some("xlsx"@)
    } else if mime == "application/vnd.ms-powerpoint"@ {
        Some("ppt"@)
    } else if mime == "application/vnd.openxmlformats-officedocument.presentationml.presentation"@ {
        Some("pptx"@)
    } else if mime == "application/octet-stream"@ {
        Some("bin"@)
    } else {
        None
    }
}

/// The extension that a MIME type stands for: the type is read without the
/// white space around it and in lower case.
pub open spec fn extension_of_mime_type(mime_type: Option<Seq<char>>) -> Option<Seq<char>> {
    match mime_type {
        Some(m) => extension_for_mime(lowercase(trim(m))),
        None => None,
    }
}

/// The extension that a file of a kind gets where nothing says which.
pub open spec fn default_extension(file_type: Seq<char>) -> Seq<char> {
    if file_type == "image"@ {
        "jpg"@
    } else if file_type == "video"@ {
        "mp4"@
    } else if file_type == "audio"@ {
        "mp3"@
    } else if file_type == "text"@ {
        "txt"@
    } else {
        "bin"@
    }
}

/// `e` where it holds something, nothing where it is empty.
pub open spec fn non_empty(e: Seq<char>) -> Option<Seq<char>> {
    if e.len() == 0 {
        None
    } else {
        Some(e)
    }
}

/// The canonical form of an extension: without white space around it,
/// without leading dots, in lower case; nothing where nothing is left.
pub open spec fn normalized_extension(raw: Option<Seq<char>>) -> Option<Seq<char>> {
    match raw {
        Some(e) => non_empty(lowercase(strip_leading(trim(e), '.'))),
        None => None,
    }
}

/// What stands behind the last dot of a file name, where the name has a dot
/// with something before it.
pub open spec fn suffix_of_name(name: Seq<char>) -> Option<Seq<char>> {
    match last_index_of(name, '.') {
        Some(dot) => if dot == 0 {
            None
        } else {
            Some(name.skip(dot + 1))
        },
        None => None,
    }
}

/// The extension that a file name carries: what stands behind its last dot,
/// in canonical form. A name without a dot, with nothing before its last dot
/// or with nothing behind it carries none.
pub open spec fn extension_of_name(name: Seq<char>) -> Option<Seq<char>> {
    match suffix_of_name(name) {
        Some(suffix) => non_empty(lowercase(strip_leading(trim(suffix), '.'))),
        None => None,
    }
}

/// A made-up name for a file of a media kind.
pub open spec fn generated_name(file_type: Seq<char>, token: Seq<char>, extension: Option<
    Seq<char>,
>) -> Seq<char> {
    let base = file_type + seq!['_'] + token;
    match extension {
        Some(e) => if e.len() > 0 {
            base + seq!['.'] + e
        } else {
            base
        },
        None => base,
    }
}

/// A made-up name for a note or another file without media: `note_<id>`
/// for a text, `message_<id>` for the rest, with the extension behind a
/// dot where there is one.
pub open spec fn fallback_name(message_id: i32, file_type: Seq<char>, extension: Option<Seq<char>>)
    -> Seq<char> {
    let base = if file_type == "text"@ {
        "note_"@ + decimal(message_id as int)
    } else {
        "message_"@ + decimal(message_id as int)
    };
    match extension {
        Some(e) => if e.len() > 0 {
            base + seq!['.'] + e
        } else {
            base
        },
        None => base,
    }
}

/// Whether `s` is what a fresh token looks like: 32 digits to base 16, the
/// letters among them small.
pub open spec fn is_token(s: Seq<char>) -> bool {
    &&& s.len() == 32
    &&& forall|i: int|
        0 <= i < s.len() ==> ('0' <= #[trigger] s[i] <= '9' || 'a' <= s[i] <= 'f')
}

/// Whether `v` holds exactly the characters of `literal`.
pub fn is_text(v: &Vec<char>, literal: &str) -> (b: bool)
    ensures
        b == (v@ == literal@),
{
    same_chars(v, &chars_of(literal))
}

/// `v` with `_` in place of each character that a file name cannot hold.
pub fn sanitized_chars(v: &Vec<char>) -> (r: Vec<char>)
    ensures
        r@ == sanitized(v@),
{
    let mut r: Vec<char> = Vec::new();
    let mut i: usize = 0;
    while i < v.len()
        invariant
            i <= v.len(),
            r@.len() == i,
            forall|k: int| 0 <= k < i ==> r@[k] == sanitized(v@)[k],
        decreases v.len() - i,
    {
        let c: char = v[i];
        let reserved: bool = c == '/' || c == '\\' || c == ':' || c == '*' || c == '?' || c == '"'
            || c == '<' || c == '>' || c == '|';
        r.push(if reserved { '_' } else { c });
        i += 1;
    }
    assert(r@ =~= sanitized(v@));
    r
}

/// Makes a file name safe: white space around it goes, each reserved
/// character becomes `_`, and a name that has nothing else becomes
/// `upload.bin`.
pub fn sanitize_file_name(file_name: &str) -> (r: String)
    ensures
        r@ == sanitize_name(file_name@),
{
    let trimmed = trim_chars(&chars_of(file_name));
    if trimmed.len() == 0 {
        return "upload.bin".to_string();
    }
    string_of(&sanitized_chars(&trimmed))
}

/// The safe form of a file name, or `None` for a name of white space.
pub fn optional_sanitized_name(file_name: &str) -> (r: Option<String>)
    ensures
        crate::model::opt_text(r) == optional_name(file_name@),
{
    let trimmed = trim_chars(&chars_of(file_name));
    if trimmed.len() == 0 {
        return None;
    }
    Some(string_of(&sanitized_chars(&trimmed)))
}

fn extension_chars(extension: Option<&str>) -> (e: Vec<char>)
    ensures
        e@ == extension_or_empty(opt_str(extension)),
{
    match extension {
        Some(text) => chars_of(text),
        None => Vec::new(),
    }
}

fn photo_extension(e: &Vec<char>) -> (b: bool)
    ensures
        b == is_photo_extension(e@),
{
    is_text(e, "jpg") || is_text(e, "jpeg") || is_text(e, "png") || is_text(e, "webp") || is_text(
        e,
        "gif",
    ) || is_text(e, "bmp")
}

fn image_extension(e: &Vec<char>) -> (b: bool)
    ensures
        b == is_image_extension(e@),
{
    photo_extension(e) || is_text(e, "tiff") || is_text(e, "svg") || is_text(e, "heic")
}

fn video_extension(e: &Vec<char>) -> (b: bool)
    ensures
        b == is_video_extension(e@),
{
    is_text(e, "mp4") || is_text(e, "mkv") || is_text(e, "webm") || is_text(e, "mov") || is_text(
        e,
        "avi",
    ) || is_text(e, "wmv") || is_text(e, "m4v") || is_text(e, "flv")
}

fn audio_extension(e: &Vec<char>) -> (b: bool)
    ensures
        b == is_audio_extension(e@),
{
    is_text(e, "mp3") || is_text(e, "m4a") || is_text(e, "ogg") || is_text(e, "wav") || is_text(
        e,
        "flac",
    ) || is_text(e, "aac") || is_text(e, "opus") || is_text(e, "wma")
}

fn text_extension(e: &Vec<char>) -> (b: bool)
    ensures
        b == is_text_extension(e@),
{
    is_text(e, "txt") || is_text(e, "md") || is_text(e, "rtf") || is_text(e, "log") || is_text(
        e,
        "json",
    ) || is_text(e, "xml") || is_text(e, "yaml") || is_text(e, "yml") || is_text(e, "csv")
        || is_text(e, "ini") || is_text(e, "toml")
}

/// How a file with this extension is sent.
pub fn upload_media_kind_for_extension(extension: Option<&str>) -> (kind: UploadMediaKind)
    ensures
        kind == upload_kind(opt_str(extension)),
{
    let e = extension_chars(extension);
    if photo_extension(&e) {
        UploadMediaKind::Photo
    } else if video_extension(&e) {
        UploadMediaKind::Video
    } else if audio_extension(&e) {
        UploadMediaKind::Audio
    } else {
        UploadMediaKind::Document
    }
}

/// The MIME type that an extension stands for, where the table knows it.
pub fn mime_type_from_extension(extension: Option<&str>) -> (r: Option<&'static str>)
    ensures
        opt_str(r) == mime_type_for(opt_str(extension)),
{
    let e = extension_chars(extension);
    if is_text(&e, "jpg") || is_text(&e, "jpeg") {
        Some("image/jpeg")
    } else if is_text(&e, "png") {
        Some("image/png")
    } else if is_text(&e, "webp") {
        Some("image/webp")
    } else if is_text(&e, "gif") {
        Some("image/gif")
    } else if is_text(&e, "bmp") {
        Some("image/bmp")
    } else if is_text(&e, "mp4") {
        Some("video/mp4")
    } else if is_text(&e, "mkv") {
        Some("video/x-matroska")
    } else if is_text(&e, "webm") {
        Some("video/webm")
    } else if is_text(&e, "mov") {
        Some("video/quicktime")
    } else if is_text(&e, "avi") {
        Some("video/x-msvideo")
    } else if is_text(&e, "wmv") {
        Some("video/x-ms-wmv")
    } else if is_text(&e, "m4v") {
        Some("video/mp4")
    } else if is_text(&e, "flv") {
        Some("video/x-flv")
    } else if is_text(&e, "mp3") {
        Some("audio/mpeg")
    } else if is_text(&e, "m4a") {
        Some("audio/mp4")
    } else if is_text(&e, "ogg") {
        Some("audio/ogg")
    } else if is_text(&e, "wav") {
        Some("audio/wav")
    } else if is_text(&e, "flac") {
        Some("audio/flac")
    } else if is_text(&e, "aac") {
        Some("audio/aac")
    } else if is_text(&e, "opus") {
        Some("audio/opus")
    } else if is_text(&e, "wma") {
        Some("audio/x-ms-wma")
    } else {
        None
    }
}

/// The category and the kind of a file with this extension; a file without
/// a known extension is a document.
pub fn classify_extension(extension: Option<&str>) -> (c: ExtensionClassification)
    ensures
        c.category@ == category_for(opt_str(extension)),
        c.file_type@ == file_type_for(opt_str(extension)),
{
    let e = extension_chars(extension);
    if image_extension(&e) {
        ExtensionClassification { category: "Images", file_type: "image" }
    } else if video_extension(&e) {
        ExtensionClassification { category: "Videos", file_type: "video" }
    } else if audio_extension(&e) {
        ExtensionClassification { category: "Audios", file_type: "audio" }
    } else if text_extension(&e) {
        ExtensionClassification { category: "Notes", file_type: "text" }
    } else {
        ExtensionClassification { category: "Documents", file_type: "document" }
    }
}

/// The extension that a MIME type in lower case stands for.
pub fn extension_for_lowercase_mime(mime: &str) -> (r: Option<String>)
    ensures
        crate::model::opt_text(r) == extension_for_mime(mime@),
{
    let m = chars_of(mime);
    let found: Option<&'static str> = if is_text(&m, "image/jpeg") || is_text(&m, "image/jpg") {
        Some("jpg")
    } else if is_text(&m, "image/png") {
        Some("png")
    } else if is_text(&m, "image/webp") {
        Some("webp")
    } else if is_text(&m, "image/gif") {
        Some("gif")
    } else if is_text(&m, "image/bmp") {
        Some("bmp")
    } else if is_text(&m, "image/tiff") {
        Some("tiff")
    } else if is_text(&m, "image/heic") || is_text(&m, "image/heif") {
        Some("heic")
    } else if is_text(&m, "video/mp4") {
        Some("mp4")
    } else if is_text(&m, "video/x-matroska") {
        Some("mkv")
    } else if is_text(&m, "video/webm") {
        Some("webm")
    } else if is_text(&m, "video/quicktime") {
        Some("mov")
    } else if is_text(&m, "video/x-msvideo") {
        Some("avi")
    } else if is_text(&m, "video/x-ms-wmv") {
        Some("wmv")
    } else if is_text(&m, "audio/mpeg") || is_text(&m, "audio/mp3") {
        Some("mp3")
    } else if is_text(&m, "audio/mp4") || is_text(&m, "audio/x-m4a") {
        Some("m4a")
    } else if is_text(&m, "audio/ogg") {
        Some("ogg")
    } else if is_text(&m, "audio/wav") || is_text(&m, "audio/x-wav") {
        Some("wav")
    } else if is_text(&m, "audio/flac") || is_text(&m, "audio/x-flac") {
        Some("flac")
    } else if is_text(&m, "audio/aac") {
        Some("aac")
    } else if is_text(&m, "audio/opus") {
        Some("opus")
    } else if is_text(&m, "text/plain") {
        Some("txt")
    } else if is_text(&m, "text/markdown") {
        Some("md")
    } else if is_text(&m, "application/pdf") {
        Some("pdf")
    } else if is_text(&m, "application/zip") {
        Some("zip")
    } else if is_text(&m, "application/x-rar-compressed") {
        Some("rar")
    } else if is_text(&m, "application/x-7z-compressed") {
        Some("7z")
    } else if is_text(&m, "application/json") {
        Some("json")
    } else if is_text(&m, "application/xml") {
        Some("xml")
    } else if is_text(&m, "application/msword") {
        Some("doc")
    } else if is_text(
        &m,
        "application/vnd.openxmlformats-officedocument.wordprocessingml.document",
    ) {
        Some("docx")
    } else if is_text(&m, "application/vnd.ms-excel") {
        Some("xls")
    } else if is_text(&m, "application/vnd.openxmlformats-officedocument.spreadsheetml.sheet") {
        Some("xlsx")
    } else if is_text(&m, "application/vnd.ms-powerpoint") {
        Some("ppt")
    } else if is_text(
        &m,
        "application/vnd.openxmlformats-officedocument.presentationml.presentation",
    ) {
        Some("pptx")
    } else if is_text(&m, "application/octet-stream") {
        Some("bin")
    } else {
        None
    };
    match found {
        Some(e) => Some(e.to_string()),
        None => None,
    }
}

/// The extension that a MIME type stands for, where the table knows the
/// type.
pub fn extension_from_mime_type(mime_type: Option<&str>) -> (r: Option<String>)
    ensures
        crate::model::opt_text(r) == extension_of_mime_type(opt_str(mime_type)),
{
    match mime_type {
        Some(m) => {
            let trimmed = string_of(&trim_chars(&chars_of(m)));
            let lower = to_lowercase(trimmed.as_str());
            extension_for_lowercase_mime(lower.as_str())
        },
        None => None,
    }
}

/// The extension that a file of a kind gets where nothing says which.
pub fn default_extension_for_file_type(file_type: &str) -> (r: &'static str)
    ensures
        r@ == default_extension(file_type@),
{
    let t = chars_of(file_type);
    if is_text(&t, "image") {
        "jpg"
    } else if is_text(&t, "video") {
        "mp4"
    } else if is_text(&t, "audio") {
        "mp3"
    } else if is_text(&t, "text") {
        "txt"
    } else {
        "bin"
    }
}

/// `e` where it holds something, `None` where it is empty.
pub fn non_empty_text(e: String) -> (r: Option<String>)
    ensures
        crate::model::opt_text(r) == non_empty(e@),
{
    if e.as_str().unicode_len() == 0 {
        None
    } else {
        Some(e)
    }
}

/// Puts an extension into canonical form.
pub fn normalize_extension(raw_extension: Option<&str>) -> (r: Option<String>)
    ensures
        crate::model::opt_text(r) == normalized_extension(opt_str(raw_extension)),
{
    match raw_extension {
        Some(raw) => {
            let bare = strip_leading_chars(&trim_chars(&chars_of(raw)), '.');
            let lower = to_lowercase(string_of(&bare).as_str());
            non_empty_text(lower)
        },
        None => None,
    }
}

/// The extension that a file name carries.
pub fn extension_from_name(file_name: &str) -> (r: Option<String>)
    ensures
        crate::model::opt_text(r) == extension_of_name(file_name@),
{
    let name = chars_of(file_name);
    match last_index_of_chars(&name, '.') {
        Some(dot) => {
            if dot == 0 {
                return None;
            }
            let suffix = slice_chars(&name, dot + 1, name.len());
            assert(name@.subrange(dot + 1, name.len() as int) =~= name@.skip(dot + 1));
            let bare = strip_leading_chars(&trim_chars(&suffix), '.');
            let lower = to_lowercase(string_of(&bare).as_str());
            non_empty_text(lower)
        },
        None => None,
    }
}

/// `Uuid::new_v4().simple().to_string()`: a fresh random token. Whatever
/// the bytes that chance gave, their simple form is 32 digits to base 16
/// with small letters. Two calls may differ. The call fails where the system
/// has no randomness to give.
#[verifier::external_body]
pub(crate) fn fresh_token() -> (token: String)
    ensures
        is_token(token@),
{
    uuid::Uuid::new_v4().simple().to_string()
}

fn with_extension(base: Vec<char>, extension: Option<&str>) -> (r: String)
    ensures
        r@ == match opt_str(extension) {
            Some(e) => if e.len() > 0 {
                base@ + seq!['.'] + e
            } else {
                base@
            },
            None => base@,
        },
{
    match extension {
        Some(e) => {
            let ext = chars_of(e);
            if ext.len() > 0 {
                let mut dot: Vec<char> = Vec::new();
                dot.push('.');
                assert(dot@ =~= seq!['.']);
                string_of(&concat_chars(&concat_chars(&base, &dot), &ext))
            } else {
                string_of(&base)
            }
        },
        None => string_of(&base),
    }
}

/// The name of a media file that has none, made of its kind, the given
/// token and its extension.
pub fn generated_file_name_with_token(file_type: &str, token: &str, extension: Option<&str>) -> (r:
    String)
    ensures
        r@ == generated_name(file_type@, token@, opt_str(extension)),
{
    let mut underscore: Vec<char> = Vec::new();
    underscore.push('_');
    assert(underscore@ =~= seq!['_']);
    let base = concat_chars(&concat_chars(&chars_of(file_type), &underscore), &chars_of(token));
    with_extension(base, extension)
}

/// A fresh name for a media file that has none: its kind, a fresh token and
/// its extension.
pub fn generated_file_name(file_type: &str, extension: Option<&str>) -> (r: String)
    ensures
        exists|token: Seq<char>|
            is_token(token) && r@ == generated_name(file_type@, token, opt_str(extension)),
{
    let token = fresh_token();
    generated_file_name_with_token(file_type, token.as_str(), extension)
}

/// The name of a note or another file without media that has none.
pub fn fallback_file_name_for_non_media(message_id: i32, file_type: &str, extension: Option<&str>)
    -> (r: String)
    ensures
        r@ == fallback_name(message_id, file_type@, opt_str(extension)),
{
    let number = decimal_of(message_id as i64);
    let base = if is_text(&chars_of(file_type), "text") {
        concat_chars(&chars_of("note_"), &number)
    } else {
        concat_chars(&chars_of("message_"), &number)
    };
    with_extension(base, extension)
}

} // verus!

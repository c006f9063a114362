//! Saved paths and virtual paths.
//!
//! A saved path is the engine's own form of a path and is rooted at `/Home`.
//! A virtual path is what a caller hands in: `tg://saved/...`, `tg://msg/<id>`
//! or a path that is rooted already.

use crate::text::{
    char_is_ascii_alphanumeric, char_is_whitespace, chars_of, concat_chars, decimal_digits,
    is_ascii_alphanumeric, is_whitespace,
    last_index_of, last_index_of_chars, parse_i32, parse_i32_chars, replace_char, replace_chars,
    same_chars, same_text, slice_chars, starts_with_chars, string_of, strip_leading,
    strip_leading_chars, strip_trailing, strip_trailing_chars, trim, trim_chars,
};
use vstd::prelude::*;

verus! {

/// The root of every saved path.
pub open spec fn saved_root() -> Seq<char> {
    "/Home"@
}

/// The folder that holds recycled items.
pub open spec fn recycle_bin() -> Seq<char> {
    "/Home/Recycle Bin"@
}

/// `s` without the slashes and the white space at its end.
pub open spec fn clean_end(s: Seq<char>) -> Seq<char>
    decreases s.len(),
{
    if s.len() > 0 && (s.last() == '/' || is_whitespace(s.last())) {
        clean_end(s.drop_last())
    } else {
        s
    }
}

/// The canonical form of a path: `\` counts as `/`, white space around the
/// path and slashes and white space at its end do not count, nothing at all
/// is the root, and what is not under `/Home` yet is put under it.
pub open spec fn normalize(path: Seq<char>) -> Seq<char> {
    let w = clean_end(trim(replace_char(path, '\\', '/')));
    if w.len() == 0 {
        saved_root()
    } else if saved_root().is_prefix_of(w) {
        w
    } else if w[0] == '/' {
        saved_root() + w
    } else {
        saved_root() + seq!['/'] + w
    }
}

/// The scheme of a virtual path that names a place below the root.
pub open spec fn saved_scheme() -> Seq<char> {
    "tg://saved"@
}

/// The saved path that a virtual path names, if its form is known: what
/// follows `tg://saved/` is put under the root, the scheme alone is the
/// root, and a path that starts with a slash is taken as it is; all in
/// canonical form.
pub open spec fn virtual_to_saved(path: Seq<char>) -> Option<Seq<char>> {
    let t = trim(path);
    if t == saved_scheme() || (saved_scheme() + seq!['/']).is_prefix_of(t) {
        Some(
            normalize(
                saved_root() + seq!['/'] + strip_leading(t.skip(saved_scheme().len() as int), '/'),
            ),
        )
    } else if t.len() > 0 && t[0] == '/' {
        Some(normalize(t))
    } else {
        None
    }
}

/// The message that a virtual path of the form `tg://msg/<id>` names.
pub open spec fn message_ref(path: Seq<char>) -> Option<i32> {
    let t = trim(path);
    if "tg://msg/"@.is_prefix_of(t) {
        parse_i32(t.skip("tg://msg/"@.len() as int))
    } else {
        None
    }
}

/// The directory a path lies in and its last segment. The root has neither,
/// and a last segment of white space alone is no name.
pub open spec fn split_parent_and_name(path: Seq<char>) -> Option<(Seq<char>, Seq<char>)> {
    let n = normalize(path);
    if n == saved_root() {
        None
    } else {
        let t = strip_trailing(n, '/');
        match last_index_of(t, '/') {
            None => None,
            Some(index) => {
                let parent = if index == 0 {
                    saved_root()
                } else {
                    t.take(index)
                };
                let name = trim(t.skip(index + 1));
                if name.len() == 0 {
                    None
                } else {
                    Some((parent, name))
                }
            },
        }
    }
}

/// Whether `path` is `folder` itself or lies below it.
pub open spec fn in_subtree(path: Seq<char>, folder: Seq<char>) -> bool {
    path == folder || (folder + seq!['/']).is_prefix_of(path)
}

/// Whether a saved path is the recycle bin or lies in it.
pub open spec fn in_recycle_bin(path: Seq<char>) -> bool {
    in_subtree(path, recycle_bin())
}

/// Whether a saved path lies in the recycle bin and is not the bin itself:
/// the path of a folder that was recycled.
pub open spec fn below_recycle_bin(path: Seq<char>) -> bool {
    in_recycle_bin(path) && path != recycle_bin()
}

/// The directory that holds the items of a category.
pub open spec fn category_path(category: Seq<char>) -> Seq<char> {
    if category == "Images"@ {
        "/Home/Images"@
    } else if category == "Videos"@ {
        "/Home/Videos"@
    } else if category == "Audios"@ {
        "/Home/Audios"@
    } else if category == "Documents"@ {
        "/Home/Documents"@
    } else if category == "Notes"@ {
        "/Home/Notes"@
    } else {
        "/Home"@
    }
}

/// `s` with `_` in place of every character that is no ASCII letter or digit.
pub open spec fn alphanumeric_token(s: Seq<char>) -> Seq<char> {
    Seq::new(
        s.len(),
        |i: int|
            if is_ascii_alphanumeric(s[i]) {
                s[i]
            } else {
                '_'
            },
    )
}

/// The key of the folder `name` that `owner` has in `parent`: the lengths
/// of the owner and of the directory, then the three texts, so that no two
/// folders share a key.
pub open spec fn folder_unique_id(owner: Seq<char>, parent: Seq<char>, name: Seq<char>) -> Seq<
    char,
> {
    "folder_"@ + decimal_digits(owner.len()) + seq!['_'] + decimal_digits(parent.len()) + seq![
        '_',
    ] + owner + parent + name
}

/// Puts a path into its canonical form.
pub fn normalize_saved_path(path: &str) -> (r: String)
    ensures
        r@ == normalize(path@),
{
    let r = normalize_chars(&chars_of(path));
    string_of(&r)
}

/// `v` without the slashes and the white space at its end.
pub fn clean_end_chars(v: &Vec<char>) -> (r: Vec<char>)
    ensures
        r@ == clean_end(v@),
{
    let mut j: usize = v.len();
    assert(v@.take(j as int) =~= v@);
    while j > 0 && (v[j - 1] == '/' || char_is_whitespace(v[j - 1]))
        invariant
            j <= v.len(),
            clean_end(v@) == clean_end(v@.take(j as int)),
        decreases j,
    {
        assert(v@.take(j as int).drop_last() =~= v@.take(j - 1));
        j -= 1;
    }
    assert(v@.subrange(0, j as int) =~= v@.take(j as int));
    slice_chars(v, 0, j)
}

/// `normalize_saved_path` on characters.
pub fn normalize_chars(path: &Vec<char>) -> (r: Vec<char>)
    ensures
        r@ == normalize(path@),
{
    let replaced = replace_chars(path, '\\', '/');
    let w = clean_end_chars(&trim_chars(&replaced));
    let root = chars_of("/Home");
    if w.len() == 0 {
        return root;
    }
    if starts_with_chars(&w, &root) {
        return w;
    }
    if w[0] == '/' {
        return concat_chars(&root, &w);
    }
    let mut slash: Vec<char> = Vec::new();
    slash.push('/');
    assert(slash@ =~= seq!['/']);
    let head = concat_chars(&root, &slash);
    concat_chars(&head, &w)
}

/// Turns a virtual path into a saved path; `None` where the path is of
/// no known form.
pub fn virtual_to_saved_path(path: &str) -> (r: Option<String>)
    ensures
        match r {
            Some(s) => virtual_to_saved(path@) == Some(s@),
            None => virtual_to_saved(path@) is None,
        },
{
    let t = trim_chars(&chars_of(path));
    let scheme = chars_of("tg://saved");
    let mut slash: Vec<char> = Vec::new();
    slash.push('/');
    assert(slash@ =~= seq!['/']);
    let scheme_and_slash = concat_chars(&scheme, &slash);
    if same_chars(&t, &scheme) || starts_with_chars(&t, &scheme_and_slash) {
        let rest = slice_chars(&t, scheme.len(), t.len());
        assert(t@.subrange(scheme.len() as int, t.len() as int) =~= t@.skip(
            scheme.len() as int,
        ));
        let relative = strip_leading_chars(&rest, '/');
        let head = concat_chars(&chars_of("/Home"), &slash);
        let n = normalize_chars(&concat_chars(&head, &relative));
        return Some(string_of(&n));
    }
    if t.len() > 0 && t[0] == '/' {
        let n = normalize_chars(&t);
        return Some(string_of(&n));
    }
    None
}

/// Reads the message id out of a virtual path of the form `tg://msg/<id>`.
pub fn parse_message_id_from_virtual_path(path: &str) -> (r: Option<i32>)
    ensures
        r == message_ref(path@),
{
    let t = trim_chars(&chars_of(path));
    let scheme = chars_of("tg://msg/");
    if starts_with_chars(&t, &scheme) {
        let digits = slice_chars(&t, scheme.len(), t.len());
        assert(t@.subrange(scheme.len() as int, t.len() as int) =~= t@.skip(
            scheme.len() as int,
        ));
        parse_i32_chars(&digits)
    } else {
        None
    }
}

/// Splits a path into the directory it lies in and its last segment.
pub fn split_saved_parent_and_name(path: &str) -> (r: Option<(String, String)>)
    ensures
        match r {
            Some((parent, name)) => split_parent_and_name(path@) == Some((parent@, name@)),
            None => split_parent_and_name(path@) is None,
        },
{
    let n = normalize_chars(&chars_of(path));
    let root = chars_of("/Home");
    if same_chars(&n, &root) {
        return None;
    }
    let t = strip_trailing_chars(&n, '/');
    match last_index_of_chars(&t, '/') {
        None => None,
        Some(index) => {
            let parent = if index == 0 {
                root
            } else {
                slice_chars(&t, 0, index)
            };
            let tail = slice_chars(&t, index + 1, t.len());
            assert(t@.subrange(index + 1, t.len() as int) =~= t@.skip(index + 1));
            assert(t@.subrange(0, index as int) =~= t@.take(index as int));
            let name = trim_chars(&tail);
            if name.len() == 0 {
                None
            } else {
                Some((string_of(&parent), string_of(&name)))
            }
        },
    }
}

/// Whether `path` is `folder` itself or lies below it.
pub fn path_in_subtree(path: &Vec<char>, folder: &Vec<char>) -> (b: bool)
    ensures
        b == in_subtree(path@, folder@),
{
    if same_chars(path, folder) {
        return true;
    }
    let mut slash: Vec<char> = Vec::new();
    slash.push('/');
    assert(slash@ =~= seq!['/']);
    let prefix = concat_chars(folder, &slash);
    starts_with_chars(path, &prefix)
}

/// Whether a saved path is the recycle bin or lies in it.
pub fn is_recycle_bin_saved_path(path: &str) -> (b: bool)
    ensures
        b == in_recycle_bin(path@),
{
    path_in_subtree(&chars_of(path), &chars_of("/Home/Recycle Bin"))
}

/// Whether a saved path lies in the recycle bin and is not the bin itself.
pub fn is_below_recycle_bin(path: &str) -> (b: bool)
    ensures
        b == below_recycle_bin(path@),
{
    is_recycle_bin_saved_path(path) && !same_text(path, "/Home/Recycle Bin")
}

/// The directory that holds the items of a category; the root for a
/// category that has none.
pub fn category_to_saved_path(category: &str) -> (r: String)
    ensures
        r@ == category_path(category@),
{
    if same_text(category, "Images") {
        "/Home/Images".to_string()
    } else if same_text(category, "Videos") {
        "/Home/Videos".to_string()
    } else if same_text(category, "Audios") {
        "/Home/Audios".to_string()
    } else if same_text(category, "Documents") {
        "/Home/Documents".to_string()
    } else if same_text(category, "Notes") {
        "/Home/Notes".to_string()
    } else {
        "/Home".to_string()
    }
}

/// `v` with `_` in place of every character that is no ASCII letter or digit.
pub fn alphanumeric_token_chars(v: &Vec<char>) -> (r: Vec<char>)
    ensures
        r@ == alphanumeric_token(v@),
{
    let mut r: Vec<char> = Vec::new();
    let mut i: usize = 0;
    while i < v.len()
        invariant
            i <= v.len(),
            r@.len() == i,
            forall|k: int| 0 <= k < i ==> r@[k] == alphanumeric_token(v@)[k],
        decreases v.len() - i,
    {
        let c: char = v[i];
        r.push(if char_is_ascii_alphanumeric(c) { c } else { '_' });
        i += 1;
    }
    assert(r@ =~= alphanumeric_token(v@));
    r
}

/// The key under which the folder `folder_name` of `owner_id` in
/// `parent_path` is stored.
pub fn build_folder_unique_id(owner_id: &str, parent_path: &str, folder_name: &str) -> (r: String)
    ensures
        r@ == folder_unique_id(owner_id@, parent_path@, folder_name@),
{
    let owner = chars_of(owner_id);
    let parent = chars_of(parent_path);
    let mut underscore: Vec<char> = Vec::new();
    underscore.push('_');
    assert(underscore@ =~= seq!['_']);
    let a = concat_chars(&chars_of("folder_"), &length_digits(&owner));
    let b = concat_chars(&a, &underscore);
    let c = concat_chars(&b, &length_digits(&parent));
    let d = concat_chars(&c, &underscore);
    let e = concat_chars(&d, &owner);
    let f = concat_chars(&e, &parent);
    let r = concat_chars(&f, &chars_of(folder_name));
    string_of(&r)
}

/// The length of `v` in decimal digits.
fn length_digits(v: &Vec<char>) -> (r: Vec<char>)
    ensures
        r@ == decimal_digits(v@.len()),
{
    let n: usize = v.len();
    crate::text::digits_of(n as u64)
}

} // verus!

//! What holds of paths: that normalizing is idempotent, and that a
//! folder's full path splits into what the folder was made of.

use crate::engine::child_path;
use crate::backfill_laws::lemma_digits_spell;
use crate::paths::{clean_end, folder_unique_id, normalize, saved_root, split_parent_and_name};
use crate::text::{
    all_digits, decimal_digits, is_ascii_digit, is_whitespace, last_index_of, replace_char,
    strip_trailing, trim, trim_end, trim_start,
};
use vstd::prelude::*;

verus! {

/// Whether a text holds no `c`.
pub open spec fn free_of(s: Seq<char>, c: char) -> bool {
    forall|i: int| 0 <= i < s.len() ==> #[trigger] s[i] != c
}

/// Whether a text ends neither in white space nor in a slash.
pub open spec fn ends_clean(s: Seq<char>) -> bool {
    s.len() > 0 ==> !is_whitespace(s.last()) && s.last() != '/'
}

/// What is left after trimming the end is the front of the text, and it
/// does not end in white space.
pub proof fn lemma_trim_end(s: Seq<char>)
    ensures
        trim_end(s).is_prefix_of(s),
        trim_end(s).len() > 0 ==> !is_whitespace(trim_end(s).last()),
    decreases s.len(),
{
    if s.len() > 0 && is_whitespace(s.last()) {
        lemma_trim_end(s.drop_last());
        let t = trim_end(s.drop_last());
        assert(t =~= s.subrange(0, t.len() as int)) by {
            assert(t =~= s.drop_last().subrange(0, t.len() as int));
        }
    } else {
        assert(s =~= s.subrange(0, s.len() as int));
    }
}

/// What is left after trimming the front is the end of the text, and it
/// does not start with white space.
pub proof fn lemma_trim_start(s: Seq<char>)
    ensures
        trim_start(s).len() <= s.len(),
        trim_start(s) == s.skip(s.len() - trim_start(s).len()),
        trim_start(s).len() > 0 ==> !is_whitespace(trim_start(s)[0]),
    decreases s.len(),
{
    if s.len() > 0 && is_whitespace(s[0]) {
        lemma_trim_start(s.drop_first());
        let t = trim_start(s.drop_first());
        assert(t =~= s.skip(s.len() - t.len())) by {
            assert(s.drop_first().skip(s.drop_first().len() - t.len()) =~= s.skip(
                s.len() - t.len(),
            ));
        }
    } else {
        assert(s =~= s.skip(0));
    }
}

/// What is left after stripping a trailing character is the front of the
/// text, and it does not end in that character.
pub proof fn lemma_strip_trailing(s: Seq<char>, c: char)
    ensures
        strip_trailing(s, c).is_prefix_of(s),
        strip_trailing(s, c).len() > 0 ==> strip_trailing(s, c).last() != c,
    decreases s.len(),
{
    if s.len() > 0 && s.last() == c {
        lemma_strip_trailing(s.drop_last(), c);
        let t = strip_trailing(s.drop_last(), c);
        assert(t =~= s.subrange(0, t.len() as int)) by {
            assert(t =~= s.drop_last().subrange(0, t.len() as int));
        }
    } else {
        assert(s =~= s.subrange(0, s.len() as int));
    }
}

/// A trimmed text neither starts nor ends with white space, and holds only
/// characters of the text it was made of.
pub proof fn lemma_trim(s: Seq<char>)
    ensures
        trim(s).len() > 0 ==> !is_whitespace(trim(s)[0]) && !is_whitespace(trim(s).last()),
        forall|c: char| free_of(s, c) ==> free_of(trim(s), c),
        trim(s).len() <= s.len(),
{
    lemma_trim_start(s);
    lemma_trim_end(trim_start(s));
    let a = trim_start(s);
    let b = trim_end(a);
    if b.len() > 0 {
        assert(b[0] == a.subrange(0, b.len() as int)[0]);
    }
    assert forall|c: char| free_of(s, c) implies free_of(b, c) by {
        assert forall|i: int| 0 <= i < b.len() implies #[trigger] b[i] != c by {
            assert(b[i] == a.subrange(0, b.len() as int)[i]);
            assert(a[i] == s[s.len() - a.len() + i]);
        }
    }
}

/// A text that neither starts nor ends with white space is its own trimmed
/// form.
pub proof fn lemma_trim_fixed(s: Seq<char>)
    requires
        s.len() > 0 ==> !is_whitespace(s[0]) && !is_whitespace(s.last()),
    ensures
        trim(s) == s,
{
}

/// Trimming twice is trimming once.
pub proof fn lemma_trim_idempotent(s: Seq<char>)
    ensures
        trim(trim(s)) == trim(s),
{
    lemma_trim(s);
    lemma_trim_fixed(trim(s));
}

/// A text without `from` is left alone when `from` is replaced.
pub proof fn lemma_replace_fixed(s: Seq<char>, from: char, to: char)
    requires
        free_of(s, from),
    ensures
        replace_char(s, from, to) == s,
{
    assert(replace_char(s, from, to) =~= s);
}

/// The root is `/Home`: five characters, none of them white space, a
/// backslash or, but for the first, a slash.
pub proof fn lemma_root()
    ensures
        saved_root() == seq!['/', 'H', 'o', 'm', 'e'],
        saved_root().len() == 5,
        free_of(saved_root(), '\\'),
{
    reveal_strlit("/Home");
    assert(saved_root() =~= seq!['/', 'H', 'o', 'm', 'e']);
}

/// What is left after cleaning the end is the front of the text, and it
/// ends neither in white space nor in a slash.
pub proof fn lemma_clean_end(s: Seq<char>)
    ensures
        clean_end(s).is_prefix_of(s),
        ends_clean(clean_end(s)),
    decreases s.len(),
{
    if s.len() > 0 && (s.last() == '/' || is_whitespace(s.last())) {
        lemma_clean_end(s.drop_last());
        let t = clean_end(s.drop_last());
        assert(t =~= s.subrange(0, t.len() as int)) by {
            assert(t =~= s.drop_last().subrange(0, t.len() as int));
        }
    } else {
        assert(s =~= s.subrange(0, s.len() as int));
    }
}

/// A canonical path starts with the root, holds no backslash and ends
/// neither in white space nor in a slash.
pub proof fn lemma_normalize_shape(path: Seq<char>)
    ensures
        saved_root().is_prefix_of(normalize(path)),
        free_of(normalize(path), '\\'),
        normalize(path).len() >= 5,
        ends_clean(normalize(path)),
{
    lemma_root();
    let replaced = replace_char(path, '\\', '/');
    assert(free_of(replaced, '\\'));
    lemma_trim(replaced);
    let t = trim(replaced);
    assert(free_of(t, '\\'));
    let w = clean_end(t);
    lemma_clean_end(t);
    assert(free_of(w, '\\')) by {
        assert forall|i: int| 0 <= i < w.len() implies #[trigger] w[i] != '\\' by {
            assert(w[i] == t.subrange(0, w.len() as int)[i]);
        }
    }
    let r = normalize(path);
    if w.len() == 0 {
        assert(r.subrange(0, 5) =~= saved_root());
    } else if saved_root().is_prefix_of(w) {
    } else if w[0] == '/' {
        assert((saved_root() + w).subrange(0, 5) =~= saved_root());
        assert(r.last() == w.last());
    } else {
        assert((saved_root() + seq!['/'] + w).subrange(0, 5) =~= saved_root());
        assert(r.last() == w.last());
    }
}

/// Normalizing is idempotent: a canonical path is its own canonical form.
pub proof fn lemma_normalize_idempotent(path: Seq<char>)
    ensures
        normalize(normalize(path)) == normalize(path),
{
    let r = normalize(path);
    lemma_normalize_shape(path);
    lemma_canonical_is_fixed(r);
}

/// A path that starts with the root, holds no backslash and ends neither
/// in white space nor in a slash is its own canonical form.
pub proof fn lemma_canonical_is_fixed(r: Seq<char>)
    requires
        saved_root().is_prefix_of(r),
        free_of(r, '\\'),
        ends_clean(r),
    ensures
        normalize(r) == r,
{
    lemma_root();
    lemma_replace_fixed(r, '\\', '/');
    assert(r[0] == r.subrange(0, 5)[0]);
    assert(r[0] == '/');
    lemma_trim_fixed(r);
    assert(clean_end(r) == r);
}

/// Where nothing is left of a path, its canonical form is the root: a path
/// of slashes and white space alone names the root.
pub proof fn lemma_nothing_is_the_root(path: Seq<char>)
    requires
        forall|i: int| 0 <= i < path.len() ==> (#[trigger] path[i] == '/' || path[i] == '\\'
            || is_whitespace(path[i])),
    ensures
        normalize(path) == saved_root(),
{
    let replaced = replace_char(path, '\\', '/');
    lemma_trim(replaced);
    let t = trim(replaced);
    lemma_trim_start(replaced);
    lemma_trim_end(trim_start(replaced));
    lemma_clean_end(t);
    let w = clean_end(t);
    if w.len() > 0 {
        let a = trim_start(replaced);
        let k = w.len() - 1;
        assert(w[k] == t.subrange(0, w.len() as int)[k]);
        assert(t[k] == a.subrange(0, t.len() as int)[k]);
        assert(a[k] == replaced[replaced.len() - a.len() + k]);
        assert(w.last() == '/' || is_whitespace(w.last()));
    }
}

/// Trimming the end of a text whose fifth character is no white space
/// leaves at least five characters.
pub proof fn lemma_keeps_front(r: Seq<char>, t: Seq<char>)
    requires
        r.len() >= 5,
        !is_whitespace(r[4]),
        t == trim_end(r),
    ensures
        t.len() >= 5,
    decreases r.len(),
{
    if r.len() > 5 && is_whitespace(r.last()) {
        lemma_keeps_front(r.drop_last(), t);
    }
}

/// Cleaning the end of a text whose fifth character is neither a slash nor
/// white space leaves at least five characters.
pub proof fn lemma_clean_keeps_front(t: Seq<char>)
    requires
        t.len() >= 5,
        t[4] != '/',
        !is_whitespace(t[4]),
    ensures
        clean_end(t).len() >= 5,
    decreases t.len(),
{
    if t.len() > 5 && (t.last() == '/' || is_whitespace(t.last())) {
        lemma_clean_keeps_front(t.drop_last());
    }
}

/// The last `c` of a text that ends in `c` and a run without `c` stands
/// right before that run.
pub proof fn lemma_last_index_before_tail(head: Seq<char>, c: char, tail: Seq<char>)
    requires
        free_of(tail, c),
    ensures
        last_index_of(head + seq![c] + tail, c) == Some(head.len() as int),
    decreases tail.len(),
{
    let s = head + seq![c] + tail;
    if tail.len() == 0 {
        assert(s.last() == c);
    } else {
        assert(s.last() == tail.last());
        assert(s.drop_last() =~= head + seq![c] + tail.drop_last());
        lemma_last_index_before_tail(head, c, tail.drop_last());
    }
}

/// The full path of a folder splits into what the folder was made of: for
/// a canonical parent and a trimmed name that holds neither a slash nor a
/// backslash, splitting `parent/name` gives exactly `(parent, name)`.
pub proof fn lemma_split_returns_parent_and_name(parent_path: Seq<char>, folder_name: Seq<char>)
    requires
        trim(folder_name).len() > 0,
        free_of(trim(folder_name), '/'),
        free_of(trim(folder_name), '\\'),
    ensures
        split_parent_and_name(child_path(normalize(parent_path), trim(folder_name))) == Some(
            (normalize(parent_path), trim(folder_name)),
        ),
{
    let parent = normalize(parent_path);
    let name = trim(folder_name);
    lemma_normalize_shape(parent_path);
    lemma_root();
    lemma_trim(folder_name);
    assert(strip_trailing(parent, '/') == parent);
    let full = parent + seq!['/'] + name;
    assert(child_path(parent, name) == full);
    assert(full.subrange(0, 5) =~= parent.subrange(0, 5));
    assert(free_of(full, '\\')) by {
        assert forall|i: int| 0 <= i < full.len() implies #[trigger] full[i] != '\\' by {
            if i < parent.len() {
                assert(full[i] == parent[i]);
            } else if i > parent.len() {
                assert(full[i] == name[i - parent.len() - 1]);
            }
        }
    }
    assert(full.last() == name.last());
    lemma_canonical_is_fixed(full);
    assert(strip_trailing(full, '/') == full);
    lemma_last_index_before_tail(parent, '/', name);
    assert(full.take(parent.len() as int) =~= parent);
    assert(full.skip(parent.len() as int + 1) =~= name);
    lemma_trim_idempotent(folder_name);
}

/// Where a text holds its last `c`: at a place within the text.
pub proof fn lemma_last_index_of(s: Seq<char>, c: char)
    ensures
        last_index_of(s, c) matches Some(at) ==> 0 <= at < s.len() && s[at] == c,
    decreases s.len(),
{
    if s.len() > 0 && s.last() != c {
        lemma_last_index_of(s.drop_last(), c);
    }
}

/// Normalizing a path that starts with the root and holds no backslash
/// only takes white space and slashes off its end.
pub proof fn lemma_renormalize_is_prefix(path: Seq<char>)
    requires
        saved_root().is_prefix_of(path),
        free_of(path, '\\'),
    ensures
        normalize(path).is_prefix_of(path),
        normalize(path).len() >= 5,
        strip_trailing(normalize(path), '/') == normalize(path),
{
    lemma_root();
    lemma_replace_fixed(path, '\\', '/');
    assert(forall|i: int| 0 <= i < 5 ==> path[i] == #[trigger] path.subrange(0, 5)[i]);
    assert(path[0] == '/' && path[4] == 'e');
    assert(trim_start(path) == path);
    let t = trim_end(path);
    lemma_trim_end(path);
    lemma_keeps_front(path, t);
    let w = clean_end(t);
    lemma_clean_end(t);
    assert(t[4] == path.subrange(0, t.len() as int)[4]);
    lemma_clean_keeps_front(t);
    assert(w.subrange(0, 5) =~= saved_root()) by {
        assert forall|i: int| 0 <= i < 5 implies w.subrange(0, 5)[i] == saved_root()[i] by {
            assert(w[i] == t.subrange(0, w.len() as int)[i]);
            assert(t[i] == path.subrange(0, t.len() as int)[i]);
        }
    }
    assert(normalize(path) == w);
    assert(w =~= path.subrange(0, w.len() as int)) by {
        assert forall|i: int| 0 <= i < w.len() implies w[i] == path[i] by {
            assert(w[i] == t.subrange(0, w.len() as int)[i]);
            assert(t[i] == path.subrange(0, t.len() as int)[i]);
        }
    }
    assert(strip_trailing(w, '/') == w);
}

/// The directory that a path splits into is the root or stands, with a
/// slash behind it, at the front of the path; either way it is shorter than
/// the path.
pub proof fn lemma_split_parent(path: Seq<char>)
    requires
        saved_root().is_prefix_of(path),
        free_of(path, '\\'),
        split_parent_and_name(path) is Some,
    ensures
        ({
            let parent = split_parent_and_name(path).unwrap().0;
            &&& parent.len() < path.len()
            &&& parent == saved_root() || (parent + seq!['/']).is_prefix_of(path)
        }),
{
    lemma_root();
    lemma_renormalize_is_prefix(path);
    let n = normalize(path);
    let t = strip_trailing(n, '/');
    assert(t == n);
    lemma_last_index_of(t, '/');
    let at = last_index_of(t, '/')->0;
    let parent = split_parent_and_name(path).unwrap().0;
    assert(n.len() > 5) by {
        if n.len() == 5 {
            assert(n =~= saved_root()) by {
                assert(n =~= path.subrange(0, 5));
            }
        }
    }
    if at != 0 {
        assert(parent == t.take(at));
        assert((parent + seq!['/']) =~= path.subrange(0, at + 1)) by {
            assert forall|i: int| 0 <= i < at + 1 implies (parent + seq!['/'])[i] == path[i] by {
                assert(t[i] == path.subrange(0, t.len() as int)[i]);
            }
        }
    }
}

/// A run of digits with `_` behind it can be read off the front of a text
/// in one way only.
pub proof fn lemma_digits_end_at_underscore(
    a: Seq<char>,
    x: Seq<char>,
    b: Seq<char>,
    y: Seq<char>,
)
    requires
        all_digits(a),
        all_digits(b),
        a + seq!['_'] + x == b + seq!['_'] + y,
    ensures
        a == b,
        x == y,
{
    let left = a + seq!['_'] + x;
    let right = b + seq!['_'] + y;
    assert(!is_ascii_digit('_'));
    if a.len() < b.len() {
        assert(left[a.len() as int] == '_');
        assert(right[a.len() as int] == b[a.len() as int]);
        assert(false);
    }
    if b.len() < a.len() {
        assert(right[b.len() as int] == '_');
        assert(left[b.len() as int] == a[b.len() as int]);
        assert(false);
    }
    assert(a =~= b) by {
        assert forall|i: int| 0 <= i < a.len() implies a[i] == b[i] by {
            assert(left[i] == a[i]);
            assert(right[i] == b[i]);
        }
    }
    assert(x =~= y) by {
        assert(left.len() == right.len());
        assert forall|i: int| 0 <= i < x.len() implies x[i] == y[i] by {
            assert(left[a.len() + 1 + i] == x[i]);
            assert(right[b.len() + 1 + i] == y[i]);
        }
    }
}

/// Two texts that follow one front are the same where the wholes are.
pub proof fn lemma_same_front(front: Seq<char>, x: Seq<char>, y: Seq<char>)
    requires
        front + x == front + y,
    ensures
        x == y,
{
    assert(x =~= (front + x).skip(front.len() as int));
    assert(y =~= (front + y).skip(front.len() as int));
}

/// Three texts in a row with the lengths of the first two known can be
/// read off the whole in one way only.
pub proof fn lemma_three_parts(
    a: Seq<char>,
    b: Seq<char>,
    c: Seq<char>,
    x: Seq<char>,
    y: Seq<char>,
    z: Seq<char>,
)
    requires
        a.len() == x.len(),
        b.len() == y.len(),
        a + b + c == x + y + z,
    ensures
        a == x,
        b == y,
        c == z,
{
    let left = a + b + c;
    let right = x + y + z;
    let n = a.len() as int;
    let m = b.len() as int;
    assert(a =~= left.subrange(0, n));
    assert(x =~= right.subrange(0, n));
    assert(b =~= left.subrange(n, n + m));
    assert(y =~= right.subrange(n, n + m));
    assert(c =~= left.skip(n + m));
    assert(z =~= right.skip(n + m));
}

/// What follows `folder_` in the key of a folder: the two lengths, each
/// with `_` behind it, and the three texts.
pub open spec fn key_body(owner: Seq<char>, parent: Seq<char>, name: Seq<char>) -> Seq<char> {
    decimal_digits(owner.len()) + seq!['_'] + (decimal_digits(parent.len()) + seq!['_'] + (owner
        + parent + name))
}

/// The key of a folder is `folder_` and its body.
pub proof fn lemma_key_layout(owner: Seq<char>, parent: Seq<char>, name: Seq<char>)
    ensures
        folder_unique_id(owner, parent, name) == "folder_"@ + key_body(owner, parent, name),
{
    assert(folder_unique_id(owner, parent, name) =~= "folder_"@ + key_body(owner, parent, name));
}

/// Two folders whose keys have one body have one owner, one directory and
/// one name.
pub proof fn lemma_key_bodies_differ(
    owner: Seq<char>,
    parent: Seq<char>,
    name: Seq<char>,
    other_owner: Seq<char>,
    other_parent: Seq<char>,
    other_name: Seq<char>,
)
    requires
        key_body(owner, parent, name) == key_body(other_owner, other_parent, other_name),
    ensures
        owner == other_owner,
        parent == other_parent,
        name == other_name,
{
    lemma_digits_spell(owner.len());
    lemma_digits_spell(parent.len());
    lemma_digits_spell(other_owner.len());
    lemma_digits_spell(other_parent.len());
    lemma_digits_end_at_underscore(
        decimal_digits(owner.len()),
        decimal_digits(parent.len()) + seq!['_'] + (owner + parent + name),
        decimal_digits(other_owner.len()),
        decimal_digits(other_parent.len()) + seq!['_'] + (other_owner + other_parent + other_name),
    );
    lemma_digits_end_at_underscore(
        decimal_digits(parent.len()),
        owner + parent + name,
        decimal_digits(other_parent.len()),
        other_owner + other_parent + other_name,
    );
    lemma_three_parts(owner, parent, name, other_owner, other_parent, other_name);
}

/// Folder keys are unique: two folders have one key only where they have
/// one owner, one directory and one name.
pub proof fn lemma_folder_keys_differ(
    owner: Seq<char>,
    parent: Seq<char>,
    name: Seq<char>,
    other_owner: Seq<char>,
    other_parent: Seq<char>,
    other_name: Seq<char>,
)
    ensures
        folder_unique_id(owner, parent, name) == folder_unique_id(
            other_owner,
            other_parent,
            other_name,
        ) <==> owner == other_owner && parent == other_parent && name == other_name,
{
    lemma_key_layout(owner, parent, name);
    lemma_key_layout(other_owner, other_parent, other_name);
    if folder_unique_id(owner, parent, name) == folder_unique_id(
        other_owner,
        other_parent,
        other_name,
    ) {
        lemma_same_front(
            "folder_"@,
            key_body(owner, parent, name),
            key_body(other_owner, other_parent, other_name),
        );
        lemma_key_bodies_differ(owner, parent, name, other_owner, other_parent, other_name);
    }
}

} // verus!

//! Slash-separated paths as text.

use vstd::prelude::*;
use vstd::string::*;
use crate::text;
use crate::text::{chars_of, same_text, same_texts, split_text, string_of, text_after_last};

verus! {

/// The path of `rel` below `base`: `rel` alone when it is absolute, otherwise `base`,
/// one separator unless `base` is empty or already ends in one, and `rel`.
pub open spec fn joined_path(base: Seq<char>, rel: Seq<char>) -> Seq<char> {
    if rel.len() > 0 && rel[0] == '/' {
        rel
    } else if base.len() == 0 || base.last() == '/' {
        base + rel
    } else {
        base.push('/') + rel
    }
}

/// The path of `rel` below `base`.
pub fn join_path(base: &str, rel: &str) -> (r: String)
    ensures
        r@ == joined_path(base@, rel@),
{
    let b = chars_of(base);
    let w = chars_of(rel);
    if w.len() > 0 && w[0] == '/' {
        return rel.to_owned();
    }
    let mut out = base.to_owned();
    if b.len() > 0 && b[b.len() - 1] != '/' {
        out.push('/');
    }
    out.append(rel);
    out
}

/// The parts of a path that are kept: not the empty ones, and a `.` only where a relative
/// path starts with it.
pub open spec fn kept_parts(pieces: Seq<Seq<char>>, rooted: bool) -> Seq<Seq<char>>
    decreases pieces.len(),
{
    if pieces.len() == 0 {
        Seq::empty()
    } else {
        let before = kept_parts(pieces.drop_last(), rooted);
        let last = pieces.last();
        if last.len() == 0 || (last == "."@ && (rooted || pieces.len() > 1)) {
            before
        } else {
            before.push(last)
        }
    }
}

/// Whether a path starts at the root.
pub open spec fn is_rooted(path: Seq<char>) -> bool {
    path.len() > 0 && path[0] == '/'
}

/// The components of a path; the root of an absolute path is a component `/`.
pub open spec fn components(path: Seq<char>) -> Seq<Seq<char>> {
    let parts = kept_parts(text::split_on(path, '/'), is_rooted(path));
    if is_rooted(path) {
        seq!["/"@] + parts
    } else {
        parts
    }
}

/// The components of a path.
pub fn path_components(path: &str) -> (r: Vec<String>)
    ensures
        r.deep_view() == components(path@),
{
    let v = chars_of(path);
    let rooted = v.len() > 0 && v[0] == '/';
    let pieces = split_text(path, '/');
    let mut out: Vec<String> = Vec::new();
    if rooted {
        out.push("/".to_owned());
    }
    let ghost root = if rooted {
        seq!["/"@]
    } else {
        Seq::<Seq<char>>::empty()
    };
    assert(out.deep_view() =~= root + kept_parts(pieces.deep_view().take(0), rooted));
    let mut i: usize = 0;
    while i < pieces.len()
        invariant
            i <= pieces@.len(),
            out.deep_view() == root + kept_parts(pieces.deep_view().take(i as int), rooted),
        decreases pieces@.len() - i,
    {
        let ghost before = out.deep_view();
        let ghost done = pieces.deep_view().take(i + 1);
        assert(done.drop_last() =~= pieces.deep_view().take(i as int));
        assert(done.last() == pieces@[i as int]@);
        let piece = &pieces[i];
        if !(piece.as_str().is_empty() || (same_text(piece.as_str(), ".") && (rooted || i > 0))) {
            out.push(piece.clone());
            assert(out.deep_view() =~= before.push(piece@));
        }
        i += 1;
        assert(out.deep_view() =~= root + kept_parts(done, rooted));
    }
    assert(pieces.deep_view().take(i as int) =~= pieces.deep_view());
    assert(out.deep_view() =~= components(path@));
    out
}

/// Whether two texts are one path: they have the same components, though they may be
/// written with more or fewer separators and `.` between them.
pub open spec fn is_same_path(a: Seq<char>, b: Seq<char>) -> bool {
    components(a) == components(b)
}

/// Whether two texts are one path.
pub fn same_path(a: &str, b: &str) -> (r: bool)
    ensures
        r == is_same_path(a@, b@),
{
    same_texts(&path_components(a), &path_components(b))
}

/// Whether `list` starts with `prefix`.
pub open spec fn starts_with_parts(list: Seq<Seq<char>>, prefix: Seq<Seq<char>>) -> bool {
    prefix.len() <= list.len() && list.take(prefix.len() as int) == prefix
}

/// Whether `list` starts with `prefix`.
pub fn is_prefix_of_parts(prefix: &Vec<String>, list: &Vec<String>) -> (r: bool)
    ensures
        r == starts_with_parts(list.deep_view(), prefix.deep_view()),
{
    if prefix.len() > list.len() {
        return false;
    }
    let mut i: usize = 0;
    while i < prefix.len()
        invariant
            prefix@.len() <= list@.len(),
            i <= prefix@.len(),
            forall|k: int| 0 <= k < i ==> list.deep_view()[k] == prefix.deep_view()[k],
        decreases prefix@.len() - i,
    {
        if !same_text(prefix[i].as_str(), list[i].as_str()) {
            assert(list.deep_view().take(prefix@.len() as int)[i as int]
                != prefix.deep_view()[i as int]);
            return false;
        }
        i += 1;
    }
    assert(list.deep_view().take(prefix@.len() as int) =~= prefix.deep_view());
    true
}

/// The components of the directory that a path lies in. The root and the empty path have
/// no such directory and stand for themselves.
pub open spec fn dir_components(path: Seq<char>) -> Seq<Seq<char>> {
    let parts = components(path);
    if parts.len() == 0 || (parts.len() == 1 && is_rooted(path)) {
        parts
    } else {
        parts.drop_last()
    }
}

/// The components of the directory that a path lies in.
pub fn path_dir_components(path: &str) -> (r: Vec<String>)
    ensures
        r.deep_view() == dir_components(path@),
{
    let v = chars_of(path);
    let rooted = v.len() > 0 && v[0] == '/';
    let mut parts = path_components(path);
    if !(parts.len() == 0 || (parts.len() == 1 && rooted)) {
        let ghost all = parts.deep_view();
        parts.pop();
        assert(parts.deep_view() =~= all.drop_last());
    }
    parts
}

/// The name that a path ends in; none for the root, the empty path and the dots.
pub open spec fn file_name(path: Seq<char>) -> Option<Seq<char>> {
    let parts = components(path);
    if parts.len() == 0 || parts.last() == "/"@ || parts.last() == "."@ || parts.last() == ".."@ {
        None
    } else {
        Some(parts.last())
    }
}

/// The name that a path ends in.
pub fn path_file_name(path: &str) -> (r: Option<String>)
    ensures
        r.deep_view() == file_name(path@),
{
    let mut parts = path_components(path);
    let ghost all = parts.deep_view();
    match parts.pop() {
        Some(last) => {
            assert(all.last() == last@);
            if same_text(last.as_str(), "/") || same_text(last.as_str(), ".") || same_text(
                last.as_str(),
                "..",
            ) {
                None
            } else {
                Some(last)
            }
        },
        None => None,
    }
}

/// A path without the separators and `.` parts at its end. The root stays, and so does a
/// `.` that is the whole path.
pub open spec fn tidy_end(path: Seq<char>, rooted: bool) -> Seq<char>
    decreases path.len(),
{
    if path.len() <= 1 && rooted || path.len() == 0 {
        path
    } else if path.last() == '/' {
        tidy_end(path.drop_last(), rooted)
    } else if path.len() > 1 && path.last() == '.' && path[path.len() - 2] == '/' {
        tidy_end(path.drop_last(), rooted)
    } else {
        path
    }
}

/// The path of the directory that a path lies in; none for the root and the empty path.
pub open spec fn parent(path: Seq<char>) -> Option<Seq<char>> {
    let rooted = is_rooted(path);
    let tidy = tidy_end(path, rooted);
    if tidy.len() == 0 || (rooted && tidy.len() == 1) {
        None
    } else {
        let name = text::after_last(tidy, '/');
        Some(tidy_end(tidy.take(tidy.len() - name.len()), rooted))
    }
}

fn tidy_end_len(v: &Vec<char>, end: usize, rooted: bool) -> (r: usize)
    requires
        end <= v@.len(),
    ensures
        r <= end,
        v@.take(r as int) == tidy_end(v@.take(end as int), rooted),
{
    let mut n: usize = end;
    while !((n <= 1 && rooted) || n == 0) && (v[n - 1] == '/' || (n > 1 && v[n - 1] == '.' && v[n - 2]
        == '/'))
        invariant
            n <= end <= v@.len(),
            tidy_end(v@.take(n as int), rooted) == tidy_end(v@.take(end as int), rooted),
        decreases n,
    {
        assert(v@.take(n as int).drop_last() =~= v@.take(n - 1));
        n -= 1;
    }
    n
}

proof fn lemma_tidy_end_len(path: Seq<char>, rooted: bool)
    ensures
        tidy_end(path, rooted).len() <= path.len(),
    decreases path.len(),
{
    if path.len() > 0 {
        lemma_tidy_end_len(path.drop_last(), rooted);
    }
}

proof fn lemma_after_last_len(s: Seq<char>, sep: char)
    ensures
        text::after_last(s, sep).len() <= s.len(),
        s.len() > 0 && s.last() != sep ==> text::after_last(s, sep).len() > 0,
    decreases s.len(),
{
    if s.len() > 0 {
        lemma_after_last_len(s.drop_last(), sep);
    }
}

proof fn lemma_tidy_end_stops(path: Seq<char>, rooted: bool)
    ensures
        ({
            let tidy = tidy_end(path, rooted);
            tidy.len() == 0 || (rooted && tidy.len() <= 1) || tidy.last() != '/'
        }),
    decreases path.len(),
{
    if path.len() > 0 {
        lemma_tidy_end_stops(path.drop_last(), rooted);
    }
}

/// The directory that a path lies in is a shorter path.
pub proof fn lemma_parent_is_shorter(path: Seq<char>)
    ensures
        parent(path) matches Some(dir) ==> dir.len() < path.len(),
{
    let rooted = is_rooted(path);
    let tidy = tidy_end(path, rooted);
    lemma_tidy_end_len(path, rooted);
    lemma_tidy_end_stops(path, rooted);
    lemma_after_last_len(tidy, '/');
    let name = text::after_last(tidy, '/');
    lemma_tidy_end_len(tidy.take(tidy.len() - name.len()), rooted);
}

/// The path of the directory that a path lies in.
pub fn parent_path(path: &str) -> (r: Option<String>)
    ensures
        r.deep_view() == parent(path@),
{
    let v = chars_of(path);
    let rooted = v.len() > 0 && v[0] == '/';
    assert(v@.take(v@.len() as int) =~= v@);
    let end: usize = tidy_end_len(&v, v.len(), rooted);
    if end == 0 || (rooted && end == 1) {
        return None;
    }
    let tidy = string_of(&v, 0, end);
    assert(tidy@ =~= v@.take(end as int));
    let name = chars_of(text_after_last(tidy.as_str(), '/').as_str());
    proof {
        lemma_after_last_len(tidy@, '/');
    }
    let cut: usize = end - name.len();
    assert(tidy@.take(cut as int) =~= v@.take(cut as int));
    let n: usize = tidy_end_len(&v, cut, rooted);
    assert(v@.subrange(0, n as int) =~= v@.take(n as int));
    Some(string_of(&v, 0, n))
}

/// A path and all directories above it, from the path itself up.
pub open spec fn ancestors(path: Seq<char>) -> Seq<Seq<char>>
    decreases path.len(),
{
    proof {
        lemma_parent_is_shorter(path);
    }
    match parent(path) {
        Some(dir) => seq![path] + ancestors(dir),
        None => seq![path],
    }
}

/// A path and all directories above it, from the path itself up.
pub fn ancestor_paths(path: &str) -> (r: Vec<String>)
    ensures
        r.deep_view() == ancestors(path@),
{
    let mut out: Vec<String> = Vec::new();
    let mut current = path.to_owned();
    assert(out.deep_view() + ancestors(current@) =~= ancestors(path@));
    loop
        invariant
            out.deep_view() + ancestors(current@) == ancestors(path@),
        decreases current@.len(),
    {
        let ghost before = out.deep_view();
        let ghost here = current@;
        let up = parent_path(current.as_str());
        out.push(current);
        assert(out.deep_view() =~= before.push(here));
        match up {
            Some(dir) => {
                proof {
                    lemma_parent_is_shorter(here);
                    assert(before + (seq![here] + ancestors(dir@)) =~= out.deep_view() + ancestors(
                        dir@,
                    ));
                }
                current = dir;
            },
            None => {
                assert(out.deep_view() =~= before + seq![here]);
                return out;
            },
        }
    }
}

/// A text that goes on behind a separator goes on with one more piece.
pub proof fn lemma_split_behind(a: Seq<char>, b: Seq<char>, sep: char)
    requires
        !b.contains(sep),
    ensures
        text::split_on(a + seq![sep] + b, sep) == text::split_on(a, sep).push(b),
    decreases b.len(),
{
    let s = a + seq![sep] + b;
    if b.len() == 0 {
        assert(s.drop_last() =~= a);
        assert(b =~= Seq::<char>::empty());
    } else {
        let c = b.drop_last();
        assert(!c.contains(sep)) by {
            if c.contains(sep) {
                let i = choose|i: int| 0 <= i < c.len() && c[i] == sep;
                assert(b[i] == sep);
            }
        }
        lemma_split_behind(a, c, sep);
        assert(s.drop_last() =~= a + seq![sep] + c);
        assert(b[b.len() - 1] != sep);
        let before = text::split_on(a, sep).push(c);
        assert(before.drop_last() =~= text::split_on(a, sep));
        assert(c.push(b.last()) =~= b);
    }
}

/// A name behind a path is one more component; nothing, or a dot, behind it is none.
pub proof fn law_components(path: Seq<char>, name: Seq<char>)
    requires
        path.len() > 0,
    ensures
        !name.contains('/') && name.len() > 0 && name != "."@ ==> components(
            path + seq!['/'] + name,
        ) == components(path).push(name),
        components(path.push('/')) == components(path),
        components(path + "/."@) == components(path),
        components("/"@) == seq!["/"@],
        !name.contains('/') && name.len() > 0 ==> components(name) == seq![name],
        !name.contains('/') && name.len() > 0 && name != "."@ ==> components(
            seq!['/'] + name,
        ) == seq!["/"@, name],
{
    reveal_strlit("/.");
    reveal_strlit("/");
    reveal_strlit(".");
    let empty = Seq::<char>::empty();
    text::lemma_split_on_len(path, '/');
    if !name.contains('/') && name.len() > 0 {
        let whole = path + seq!['/'] + name;
        lemma_split_behind(path, name, '/');
        assert(whole[0] == path[0]);
        let pieces = text::split_on(path, '/').push(name);
        assert(pieces.drop_last() =~= text::split_on(path, '/'));
        if name != "."@ {
            assert(components(whole) =~= components(path).push(name));
        }
        lemma_split_behind(empty, name, '/');
        assert(empty + seq!['/'] + name =~= seq!['/'] + name);
        assert(text::split_on(empty, '/') =~= seq![empty]);
        let rooted = seq![empty].push(name);
        assert(rooted.drop_last() =~= seq![empty]);
        assert(seq![empty].drop_last() =~= Seq::<Seq<char>>::empty());
        assert(kept_parts(Seq::<Seq<char>>::empty(), true) =~= Seq::<Seq<char>>::empty());
        assert(kept_parts(seq![empty], true) =~= Seq::<Seq<char>>::empty());
        if name != "."@ {
            assert(components(seq!['/'] + name) =~= seq!["/"@, name]);
        }
        lemma_one_piece_of(name, '/');
        assert(name[0] != '/');
        assert(seq![name].drop_last() =~= Seq::<Seq<char>>::empty());
        assert(kept_parts(Seq::<Seq<char>>::empty(), false) =~= Seq::<Seq<char>>::empty());
        assert(kept_parts(seq![name], false) =~= seq![name]);
    }
    let slashed = path.push('/');
    lemma_split_behind(path, empty, '/');
    assert(path + seq!['/'] + empty =~= slashed);
    let pieces = text::split_on(path, '/').push(empty);
    assert(pieces.drop_last() =~= text::split_on(path, '/'));
    assert(slashed[0] == path[0]);
    let dot = "."@;
    lemma_split_behind(path, dot, '/');
    assert(path + seq!['/'] + dot =~= path + "/."@);
    let pieces = text::split_on(path, '/').push(dot);
    assert(pieces.drop_last() =~= text::split_on(path, '/'));
    assert((path + "/."@)[0] == path[0]);
    let root = "/"@;
    assert(root.drop_last() =~= empty);
    assert(text::split_on(empty, '/') =~= seq![empty]);
    assert(text::split_on(root, '/') =~= seq![empty, empty]);
    assert(seq![empty, empty].drop_last() =~= seq![empty]);
    assert(seq![empty].drop_last() =~= Seq::<Seq<char>>::empty());
    assert(kept_parts(Seq::<Seq<char>>::empty(), true) =~= Seq::<Seq<char>>::empty());
    assert(kept_parts(seq![empty], true) =~= Seq::<Seq<char>>::empty());
    assert(components(root) =~= seq!["/"@]);
}

/// A text without separators is one piece.
pub proof fn lemma_one_piece_of(name: Seq<char>, sep: char)
    requires
        !name.contains(sep),
    ensures
        text::split_on(name, sep) == seq![name],
    decreases name.len(),
{
    if name.len() > 0 {
        let rest = name.drop_last();
        assert(!rest.contains(sep)) by {
            if rest.contains(sep) {
                let i = choose|i: int| 0 <= i < rest.len() && rest[i] == sep;
                assert(name[i] == sep);
            }
        }
        lemma_one_piece_of(rest, sep);
        assert(name[name.len() - 1] != sep);
        assert(seq![rest].drop_last() =~= Seq::<Seq<char>>::empty());
        assert(rest.push(name.last()) =~= name);
        assert(text::split_on(name, sep) =~= seq![name]);
    } else {
        assert(name =~= Seq::<char>::empty());
    }
}

/// The name of a file is what stands behind the last separator, and its directory what
/// stands before it.
pub proof fn law_names_and_directories(dir: Seq<char>, name: Seq<char>)
    requires
        dir.len() > 0,
        dir.last() != '/',
        dir.last() != '.',
        name.len() > 0,
        !name.contains('/'),
        name != "."@,
        name != ".."@,
    ensures
        file_name(dir + seq!['/'] + name) == Some(name),
        file_name(name) == Some(name),
        parent(dir + seq!['/'] + name) == Some(dir),
        dir_components(dir + seq!['/'] + name) == components(dir),
        joined_path(dir, name) == dir + seq!['/'] + name,
        parent("/"@) is None,
        file_name("/"@) is None,
{
    reveal_strlit("/");
    reveal_strlit(".");
    reveal_strlit("..");
    let path = dir + seq!['/'] + name;
    law_components(dir, name);
    let parts = components(path);
    assert(name != "/"@) by {
        assert(name == "/"@ ==> name[0] == '/');
    }
    assert(parts.last() == name);
    lemma_components_len(dir);
    assert(parts.drop_last() =~= components(dir));
    let rooted = is_rooted(path);
    assert(path[0] == dir[0]);
    assert(path.last() == name.last());
    assert(name[name.len() - 1] != '/');
    assert(tidy_end(path, rooted) == path) by {
        if path.last() == '.' && path[path.len() - 2] == '/' {
            if name.len() == 1 {
                assert(name =~= "."@);
            } else {
                assert(path[path.len() - 2] == name[name.len() - 2]);
                assert(name.contains('/'));
            }
        }
    }
    text::law_behind_the_last(path, '/');
    let r = text::after_last(path, '/');
    assert(r =~= name) by {
        if r.len() > name.len() {
            assert(r[r.len() - name.len() - 1] == path[dir.len() as int]);
            assert(r.contains('/'));
        }
        if r.len() < name.len() {
            assert(path[path.len() - r.len() - 1] == name[name.len() - r.len() - 1]);
            assert(name.contains('/'));
        }
    }
    let head = path.take(path.len() - name.len());
    assert(head =~= dir.push('/'));
    assert(head.drop_last() =~= dir);
    assert(tidy_end(head, rooted) == tidy_end(dir, rooted));
    assert(tidy_end(dir, rooted) == dir);
    assert(joined_path(dir, name) =~= path);
    assert(name.len() > 0 && name[0] != '/');
    law_components(name, name);
    assert(components(name).last() == name);
}

/// A path that is not empty has components, and only the root and its like lack others.
proof fn lemma_components_len(path: Seq<char>)
    requires
        path.len() > 0,
        path.last() != '/',
    ensures
        components(path).len() > 0,
        path.last() != '.' && is_rooted(path) ==> components(path).len() > 1,
{
    let pieces = text::split_on(path, '/');
    let rest = text::split_on(path.drop_last(), '/');
    text::lemma_split_on_len(path.drop_last(), '/');
    assert(pieces.last().len() > 0);
    reveal_strlit(".");
    if pieces.last() == "."@ {
        assert(pieces.last().last() == '.');
        if !is_rooted(path) {
            if pieces.len() == 1 {
                assert(pieces.drop_last() =~= Seq::<Seq<char>>::empty());
                assert(kept_parts(Seq::<Seq<char>>::empty(), false) =~= Seq::<Seq<char>>::empty());
                assert(kept_parts(pieces, false).len() == 1);
            } else {
                lemma_first_piece_kept(pieces, path);
            }
        }
    } else {
        assert(kept_parts(pieces, is_rooted(path)).last() == pieces.last());
    }
}

/// The first piece of a path that does not begin with a separator is kept.
proof fn lemma_first_piece_kept(pieces: Seq<Seq<char>>, path: Seq<char>)
    requires
        pieces == text::split_on(path, '/'),
        path.len() > 0,
        path[0] != '/',
    ensures
        kept_parts(pieces, false).len() > 0,
{
    lemma_first_piece(path);
    lemma_kept_first(pieces);
}

/// The first piece of a path that does not begin with a separator is not empty.
proof fn lemma_first_piece(path: Seq<char>)
    requires
        path.len() > 0,
        path[0] != '/',
    ensures
        text::split_on(path, '/').len() > 0,
        text::split_on(path, '/')[0].len() > 0,
    decreases path.len(),
{
    let rest = path.drop_last();
    text::lemma_split_on_len(rest, '/');
    if rest.len() > 0 {
        lemma_first_piece(rest);
    } else {
        assert(text::split_on(rest, '/') =~= seq![Seq::<char>::empty()]);
    }
}

/// The first piece is kept where it is not empty.
proof fn lemma_kept_first(pieces: Seq<Seq<char>>)
    requires
        pieces.len() > 0,
        pieces[0].len() > 0,
    ensures
        kept_parts(pieces, false).len() > 0,
    decreases pieces.len(),
{
    if pieces.len() > 1 {
        lemma_kept_first(pieces.drop_last());
    }
}

/// An absolute path below a directory stays what it is; a relative one is put behind the
/// directory, with one separator between them.
pub proof fn law_joining_paths(base: Seq<char>, rel: Seq<char>)
    ensures
        rel.len() > 0 && rel[0] == '/' ==> joined_path(base, rel) == rel,
        rel.len() == 0 || rel[0] != '/' ==> joined_path(base.push('/'), rel) == base + seq!['/']
            + rel,
        (rel.len() == 0 || rel[0] != '/') && base.len() > 0 && base.last() != '/' ==> joined_path(
            base,
            rel,
        ) == base + seq!['/'] + rel,
        joined_path(Seq::empty(), rel) == rel,
{
    assert(base.push('/') + rel =~= base + seq!['/'] + rel);
    assert(Seq::<char>::empty() + rel =~= rel);
}

/// The directories above a path: the path itself, and then those above its directory.
pub proof fn law_directories_above(dir: Seq<char>, name: Seq<char>)
    requires
        dir.len() > 0,
        dir.last() != '/',
        dir.last() != '.',
        name.len() > 0,
        !name.contains('/'),
        name != "."@,
        name != ".."@,
    ensures
        ancestors(dir + seq!['/'] + name) == seq![dir + seq!['/'] + name] + ancestors(dir),
        ancestors("/"@) == seq!["/"@],
{
    law_names_and_directories(dir, name);
}

/// A list begins with another exactly where it is that other with something behind it.
pub proof fn law_lists_with_a_beginning(list: Seq<Seq<char>>, rest: Seq<Seq<char>>)
    ensures
        starts_with_parts(list + rest, list),
        starts_with_parts(rest, list) ==> rest == list + rest.skip(list.len() as int),
{
    assert((list + rest).take(list.len() as int) =~= list);
    if starts_with_parts(rest, list) {
        assert(rest =~= list + rest.skip(list.len() as int));
    }
}

/// Two texts are one path where they differ only in separators and dots that say nothing.
pub proof fn law_texts_of_one_path(path: Seq<char>, other: Seq<char>)
    requires
        path.len() > 0,
    ensures
        is_same_path(path, path),
        is_same_path(path, path.push('/')),
        is_same_path(path, path + "/."@),
        is_same_path(path, other) <==> components(path) == components(other),
{
    law_components(path, path);
}

} // verus!

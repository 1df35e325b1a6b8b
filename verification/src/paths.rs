//! Unix paths as text.
use vstd::prelude::*;

use crate::text::{chars_of, split, split_on, string_of, texts};

verus! {

/// `rest` seen from `base`: an absolute `rest` stands alone, any other is put
/// behind `base` with one separator between them.
pub open spec fn path_join(base: Seq<char>, rest: Seq<char>) -> Seq<char> {
    if rest.len() > 0 && rest[0] == '/' {
        rest
    } else if base.len() == 0 || base.last() == '/' {
        base + rest
    } else {
        base.push('/') + rest
    }
}

/// Whether a piece between two separators stands for a component of a path.
pub open spec fn is_component(piece: Seq<char>) -> bool {
    piece.len() > 0 && piece != seq!['.']
}

/// The components of a path, without the root and without `.`.
pub open spec fn components(path: Seq<char>) -> Seq<Seq<char>> {
    split_on(path, '/').filter(|piece: Seq<char>| is_component(piece))
}

/// Whether the path starts at the root.
pub open spec fn is_absolute(path: Seq<char>) -> bool {
    path.len() > 0 && path[0] == '/'
}

/// Whether the path starts with a `.` component, which is significant.
pub open spec fn starts_here(path: Seq<char>) -> bool {
    split_on(path, '/')[0] == seq!['.']
}

/// Whether two paths have the same components: repeated separators, a separator
/// at the end and `.` inside the path make no difference.
pub open spec fn equal_paths(a: Seq<char>, b: Seq<char>) -> bool {
    &&& is_absolute(a) == is_absolute(b)
    &&& starts_here(a) == starts_here(b)
    &&& components(a) == components(b)
}

/// The last component of a path, unless that is `..`.
pub open spec fn final_name(path: Seq<char>) -> Option<Seq<char>> {
    let c = components(path);
    if c.len() == 0 || c.last() == seq!['.', '.'] {
        None
    } else {
        Some(c.last())
    }
}

/// The index of the last `c` in `s`, or -1.
pub open spec fn last_index<A>(s: Seq<A>, c: A) -> int
    decreases s.len(),
{
    if s.len() == 0 {
        -1
    } else if s.last() == c {
        s.len() - 1
    } else {
        last_index(s.drop_last(), c)
    }
}

/// The part of a file name behind its last dot. A dot at the very start of the
/// name does not count.
pub open spec fn name_extension(name: Seq<char>) -> Option<Seq<char>> {
    let i = last_index(name, '.');
    if i <= 0 {
        None
    } else {
        Some(name.skip(i + 1))
    }
}

/// A file name without its extension.
pub open spec fn name_stem(name: Seq<char>) -> Seq<char> {
    let i = last_index(name, '.');
    if i <= 0 {
        name
    } else {
        name.take(i)
    }
}

/// The directory and the file name of an absolute path in canonical form, given
/// by its bytes. The root itself has neither.
pub open spec fn canonical_parts(path: Seq<u8>) -> Option<(Seq<u8>, Seq<u8>)> {
    let i = last_index(path, 0x2fu8);
    if i < 0 || path.len() == 1 {
        None
    } else {
        Some((path.take(if i == 0 { 1 } else { i }), path.skip(i + 1)))
    }
}

proof fn lemma_last_index<A>(s: Seq<A>, c: A)
    ensures
        -1 <= last_index(s, c) < s.len(),
    decreases s.len(),
{
    if s.len() > 0 {
        lemma_last_index(s.drop_last(), c);
    }
}

/// `rest` seen from `base`.
pub fn join_path(base: &str, rest: &str) -> (r: String)
    ensures
        r@ == path_join(base@, rest@),
{
    let b = chars_of(base);
    let t = chars_of(rest);
    if t.len() > 0 && t[0] == '/' {
        return rest.to_owned();
    }
    let mut r = base.to_owned();
    if b.len() > 0 && b[b.len() - 1] != '/' {
        r.push('/');
    }
    r.append(rest);
    r
}

/// The components of a path.
fn component_list(path: &str) -> (r: Vec<String>)
    ensures
        texts(r@) == components(path@),
{
    let pieces = split(path, '/');
    let ghost keep = |piece: Seq<char>| is_component(piece);
    let mut r: Vec<String> = Vec::new();
    let mut i: usize = 0;
    assert(texts(pieces@).take(0).filter(keep) == Seq::<Seq<char>>::empty()) by {
        reveal(Seq::filter);
    }
    while i < pieces.len()
        invariant
            i <= pieces.len(),
            keep == |piece: Seq<char>| is_component(piece),
            texts(r@) == texts(pieces@).take(i as int).filter(keep),
        decreases pieces.len() - i,
    {
        let piece = &pieces[i];
        let c = chars_of(piece.as_str());
        let ghost before = texts(pieces@).take(i as int);
        let ghost next = texts(pieces@).take(i + 1);
        assert(next.drop_last() == before && next.last() == piece@);
        assert(next.filter(keep) == if keep(piece@) {
            before.filter(keep).push(piece@)
        } else {
            before.filter(keep)
        }) by {
            reveal(Seq::filter);
        }
        let dot = c.len() == 1 && c[0] == '.';
        assert(dot == (piece@ =~= seq!['.']));
        if c.len() > 0 && !dot {
            let ghost old_texts = texts(r@);
            r.push(piece.clone());
            assert(texts(r@) == old_texts.push(piece@));
        }
        i += 1;
    }
    assert(texts(pieces@).take(pieces@.len() as int) == texts(pieces@));
    r
}

/// Whether two paths have the same components.
pub fn same_path(a: &str, b: &str) -> (r: bool)
    ensures
        r == equal_paths(a@, b@),
{
    let ca = chars_of(a);
    let cb = chars_of(b);
    if (ca.len() > 0 && ca[0] == '/') != (cb.len() > 0 && cb[0] == '/') {
        return false;
    }
    if is_here(a) != is_here(b) {
        return false;
    }
    let x = component_list(a);
    let y = component_list(b);
    if x.len() != y.len() {
        assert(texts(x@).len() != texts(y@).len());
        return false;
    }
    let mut i: usize = 0;
    while i < x.len()
        invariant
            i <= x.len() == y.len(),
            texts(x@) == components(a@),
            texts(y@) == components(b@),
            forall|j: int| 0 <= j < i ==> texts(x@)[j] == texts(y@)[j],
        decreases x.len() - i,
    {
        if x[i] != y[i] {
            assert(texts(x@)[i as int] != texts(y@)[i as int]);
            return false;
        }
        i += 1;
    }
    assert(texts(x@) =~= texts(y@));
    true
}

fn is_here(path: &str) -> (r: bool)
    ensures
        r == starts_here(path@),
{
    let pieces = split(path, '/');
    assert(texts(pieces@).len() > 0);
    assert(texts(pieces@)[0] == pieces@[0]@);
    let c = chars_of(pieces[0].as_str());
    let dot = c.len() == 1 && c[0] == '.';
    assert(dot == (c@ =~= seq!['.']));
    dot
}

/// The last component of a path, unless that is `..`.
pub fn file_name(path: &str) -> (r: Option<String>)
    ensures
        r is Some == final_name(path@) is Some,
        r matches Some(name) ==> name@ == final_name(path@)->0,
{
    let list = component_list(path);
    if list.len() == 0 {
        assert(texts(list@).len() == 0);
        return None;
    }
    let last = &list[list.len() - 1];
    assert(texts(list@).last() == last@);
    let c = chars_of(last.as_str());
    let up = c.len() == 2 && c[0] == '.' && c[1] == '.';
    assert(up == (last@ =~= seq!['.', '.']));
    if up {
        None
    } else {
        Some(last.clone())
    }
}

fn last_index_of(v: &Vec<char>, c: char) -> (r: Option<usize>)
    ensures
        r is None == (last_index(v@, c) < 0),
        r matches Some(i) ==> i == last_index(v@, c),
{
    let mut n: usize = v.len();
    assert(v@.take(n as int) == v@);
    while n > 0
        invariant
            n <= v.len(),
            last_index(v@, c) == last_index(v@.take(n as int), c),
        decreases n,
    {
        assert(v@.take(n as int).drop_last() == v@.take(n - 1));
        if v[n - 1] == c {
            return Some(n - 1);
        }
        n -= 1;
    }
    None
}

/// The extension of the last component of a path.
pub fn extension(path: &str) -> (r: Option<String>)
    ensures
        r is Some == (final_name(path@) is Some && name_extension(final_name(path@)->0) is Some),
        r matches Some(e) ==> e@ == name_extension(final_name(path@)->0)->0,
{
    match file_name(path) {
        None => None,
        Some(name) => {
            let v = chars_of(name.as_str());
            match last_index_of(&v, '.') {
                Some(i) if i > 0 => {
                    proof {
                        lemma_last_index(v@, '.');
                    }
                    let e = string_of(&v, i + 1, v.len());
                    assert(e@ == v@.skip(i + 1));
                    Some(e)
                },
                _ => None,
            }
        },
    }
}

/// The last component of a path without its extension.
pub fn file_stem(path: &str) -> (r: Option<String>)
    ensures
        r is Some == final_name(path@) is Some,
        r matches Some(s) ==> s@ == name_stem(final_name(path@)->0),
{
    match file_name(path) {
        None => None,
        Some(name) => {
            let v = chars_of(name.as_str());
            match last_index_of(&v, '.') {
                Some(i) if i > 0 => {
                    proof {
                        lemma_last_index(v@, '.');
                    }
                    let s = string_of(&v, 0, i);
                    assert(s@ == v@.take(i as int));
                    Some(s)
                },
                _ => Some(name),
            }
        },
    }
}

/// The directory and the file name of an absolute path in canonical form.
pub fn split_canonical(path: &Vec<u8>) -> (r: Option<(Vec<u8>, Vec<u8>)>)
    ensures
        r is Some == canonical_parts(path@) is Some,
        r matches Some(p) ==> (p.0@, p.1@) == canonical_parts(path@)->0,
{
    let mut n: usize = path.len();
    assert(path@.take(n as int) == path@);
    while n > 0 && path[n - 1] != 0x2f
        invariant
            n <= path.len(),
            last_index(path@, 0x2fu8) == last_index(path@.take(n as int), 0x2fu8),
        decreases n,
    {
        assert(path@.take(n as int).drop_last() == path@.take(n - 1));
        n -= 1;
    }
    if n == 0 || path.len() == 1 {
        return None;
    }
    assert(last_index(path@, 0x2fu8) == n - 1);
    let to: usize = if n == 1 {
        1
    } else {
        n - 1
    };
    let dir = bytes_between(path, 0, to);
    let name = bytes_between(path, n, path.len());
    assert(dir@ == path@.take(to as int));
    assert(name@ == path@.skip(n as int));
    Some((dir, name))
}

fn bytes_between(v: &Vec<u8>, from: usize, to: usize) -> (r: Vec<u8>)
    requires
        from <= to <= v.len(),
    ensures
        r@ == v@.subrange(from as int, to as int),
{
    let mut r: Vec<u8> = Vec::new();
    let mut i: usize = from;
    while i < to
        invariant
            from <= i <= to <= v.len(),
            r@ == v@.subrange(from as int, i as int),
        decreases to - i,
    {
        r.push(v[i]);
        assert(v@.subrange(from as int, i + 1) == v@.subrange(from as int, i as int).push(v@[i as int]));
        i += 1;
    }
    r
}

// ---------------------------------------------------------------------------
// Laws
// ---------------------------------------------------------------------------

pub(crate) proof fn lemma_last_dot(stem: Seq<char>, ext: Seq<char>)
    requires
        !ext.contains('.'),
    ensures
        last_index(stem + seq!['.'] + ext, '.') == stem.len(),
        stem.len() > 0 ==> name_extension(stem + seq!['.'] + ext) == Some(ext) && name_stem(
            stem + seq!['.'] + ext,
        ) == stem,
    decreases ext.len(),
{
    let name = stem + seq!['.'] + ext;
    if ext.len() > 0 {
        let short = ext.drop_last();
        assert(ext.contains(ext.last()));
        assert(ext.last() != '.');
        assert forall|i: int| 0 <= i < short.len() implies short[i] != '.' by {
            assert(ext.contains(ext[i]));
        }
        lemma_last_dot(stem, short);
        assert(name.drop_last() =~= stem + seq!['.'] + short);
    } else {
        assert(name =~= stem.push('.'));
    }
    assert(name.skip(stem.len() as int + 1) =~= ext);
    assert(name.take(stem.len() as int) =~= stem);
}

/// The extension is what stands behind the last dot, the stem what stands in front of
/// it; together they make the name. A name without a dot behind its first character has
/// no extension, and is its own stem.
pub proof fn extension_and_stem_make_the_name(name: Seq<char>)
    ensures
        match name_extension(name) {
            Some(ext) => name_stem(name) + seq!['.'] + ext == name && name_stem(name).len() > 0
                && !ext.contains('.'),
            None => name_stem(name) == name && forall|i: int|
                0 < i < name.len() ==> name[i] != '.',
        },
{
    lemma_last_index_is_last(name, '.');
    let i = last_index(name, '.');
    if i > 0 {
        assert(name.take(i) + seq!['.'] + name.skip(i + 1) =~= name);
        let ext = name.skip(i + 1);
        assert forall|j: int| 0 <= j < ext.len() implies ext[j] != '.' by {
            assert(ext[j] == name[i + 1 + j]);
        }
    }
}

proof fn lemma_last_index_is_last<A>(s: Seq<A>, c: A)
    ensures
        -1 <= last_index(s, c) < s.len(),
        last_index(s, c) >= 0 ==> s[last_index(s, c)] == c,
        forall|j: int| last_index(s, c) < j < s.len() ==> s[j] != c,
    decreases s.len(),
{
    if s.len() > 0 {
        lemma_last_index_is_last(s.drop_last(), c);
        assert forall|j: int| last_index(s, c) < j < s.len() implies s[j] != c by {
            if j < s.len() - 1 {
                assert(s.drop_last()[j] == s[j]);
            }
        }
    }
}

/// A canonical path, which never starts with two separators, is its directory and its
/// file name: they make the path again, and no separator is in the file name. The root
/// has no directory.
pub proof fn directory_and_file_make_the_path(path: Seq<u8>)
    requires
        path.len() > 1 ==> path[1] != 0x2fu8,
    ensures
        match canonical_parts(path) {
            Some((dir, file)) => !file.contains(0x2fu8) && dir.len() > 0 && (if dir == seq![0x2fu8] {
                path == dir + file
            } else {
                path == dir + seq![0x2fu8] + file
            }),
            None => path == seq![0x2fu8] || !path.contains(0x2fu8) || path.len() == 1,
        },
        path.len() > 1 && path.contains(0x2fu8) ==> canonical_parts(path) is Some,
{
    lemma_last_index_is_last(path, 0x2fu8);
    let i = last_index(path, 0x2fu8);
    if i >= 0 && path.len() != 1 {
        let file = path.skip(i + 1);
        assert forall|j: int| 0 <= j < file.len() implies file[j] != 0x2fu8 by {
            assert(file[j] == path[i + 1 + j]);
        }
        if i == 0 {
            assert(path.take(1) =~= seq![0x2fu8]);
            assert(path =~= path.take(1) + file);
        } else {
            assert(path =~= path.take(i) + seq![0x2fu8] + file);
            assert(path[i] == 0x2fu8);
        }
    } else if i < 0 {
        assert(!path.contains(0x2fu8));
    }
}

proof fn lemma_split_append(a: Seq<char>, sep: char, b: Seq<char>)
    ensures
        split_on(a + seq![sep] + b, sep) == split_on(a, sep) + split_on(b, sep),
    decreases a.len(),
{
    crate::text::lemma_first_index(a, sep);
    let i = crate::text::first_index(a, sep);
    let head = a.take(i);
    assert forall|j: int| 0 <= j < head.len() implies head[j] != sep by {
        assert(head[j] == a[j]);
    }
    if i < a.len() {
        let tail = a.skip(i + 1);
        crate::text::split_takes_apart(head, sep, tail);
        crate::text::split_takes_apart(head, sep, tail + seq![sep] + b);
        assert(a =~= head + seq![sep] + tail);
        assert(a + seq![sep] + b =~= head + seq![sep] + (tail + seq![sep] + b));
        lemma_split_append(tail, sep, b);
        assert(split_on(a + seq![sep] + b, sep) =~= split_on(a, sep) + split_on(b, sep));
    } else {
        assert(head =~= a);
        crate::text::split_takes_apart(a, sep, b);
    }
}

/// The components of a path with something behind it are those of both, and a piece
/// without a separator is a component of its own, unless it is empty or `.`.
pub proof fn components_stand_between_separators(a: Seq<char>, b: Seq<char>, piece: Seq<char>)
    requires
        !piece.contains('/'),
    ensures
        components(a + seq!['/'] + b) == components(a) + components(b),
        components(piece) == if piece == Seq::<char>::empty() || piece == seq!['.'] {
            seq![]
        } else {
            seq![piece]
        },
{
    let keep = |p: Seq<char>| is_component(p);
    lemma_split_append(a, '/', b);
    Seq::filter_distributes_over_add(split_on(a, '/'), split_on(b, '/'), keep);
    crate::text::split_takes_apart(piece, '/', b);
    reveal_with_fuel(Seq::filter, 2);
    assert(seq![piece].drop_last() =~= seq![]);
    if piece.len() == 0 {
        assert(piece =~= seq![]);
    }
    assert(components(piece) =~= if piece == Seq::<char>::empty() || piece == seq!['.'] {
        seq![]
    } else {
        seq![piece]
    });
}

proof fn lemma_component_behind(a: Seq<char>, name: Seq<char>)
    requires
        !name.contains('/'),
        name.len() > 0,
        name != seq!['.'],
    ensures
        components(name) == seq![name],
        components(a + seq!['/'] + name) == components(a).push(name),
{
    components_stand_between_separators(a, name, name);
    assert(components(a) + seq![name] =~= components(a).push(name));
}

proof fn lemma_nothing_behind(a: Seq<char>, b: Seq<char>)
    ensures
        components(seq![]) == Seq::<Seq<char>>::empty(),
        components(a + seq!['/']) == components(a),
        components(seq!['/'] + b) == components(b),
        components(seq!['.', '/'] + b) == components(b),
{
    let none = Seq::<char>::empty();
    components_stand_between_separators(a, none, none);
    components_stand_between_separators(none, b, none);
    components_stand_between_separators(seq!['.'], b, seq!['.']);
    assert(a + seq!['/'] + none =~= a + seq!['/']);
    assert(none + seq!['/'] + b =~= seq!['/'] + b);
    assert(seq!['.'] + seq!['/'] + b =~= seq!['.', '/'] + b);
    assert(components(a) + components(none) =~= components(a));
    assert(components(none) + components(b) =~= components(b));
    assert(components(seq!['.']) + components(b) =~= components(b));
}

/// A name that is joined to a path becomes the last component of the path, and nothing
/// else of the path changes. An absolute path stands alone.
pub proof fn joined_names_come_last(base: Seq<char>, name: Seq<char>, rest: Seq<char>)
    requires
        !name.contains('/'),
        name.len() > 0,
        name != seq!['.'],
    ensures
        components(path_join(base, name)) == components(base).push(name),
        name != seq!['.', '.'] ==> final_name(path_join(base, name)) == Some(name),
        base.len() > 0 ==> is_absolute(path_join(base, name)) == (base[0] == '/'),
        base.len() == 0 ==> path_join(base, name) == name,
        path_join(base, seq!['/'] + rest) == seq!['/'] + rest,
{
    if name[0] == '/' {
        assert(name.contains(name[0]));
    }
    if base.len() == 0 {
        assert(base =~= seq![]);
        assert(base + name =~= name);
    }
    assert(components(path_join(base, name)) == components(base).push(name)) by {
        if base.len() == 0 {
            lemma_component_behind(base, name);
            lemma_nothing_behind(base, base);
            assert(Seq::<Seq<char>>::empty().push(name) =~= seq![name]);
        } else if base.last() == '/' {
            let front = base.drop_last();
            assert(base =~= front + seq!['/']);
            lemma_component_behind(front, name);
            lemma_nothing_behind(front, front);
        } else {
            lemma_component_behind(base, name);
            assert(base.push('/') + name =~= base + seq!['/'] + name);
        }
    }
}

/// Paths that are written with one separator in front of each component are equal exactly
/// where they have the same components in the same order.
pub proof fn canonical_paths_are_told_apart(a: Seq<Seq<char>>, b: Seq<Seq<char>>)
    requires
        forall|i: int|
            0 <= i < a.len() ==> !(#[trigger] a[i]).contains('/') && a[i].len() > 0 && a[i]
                != seq!['.'],
        forall|i: int|
            0 <= i < b.len() ==> !(#[trigger] b[i]).contains('/') && b[i].len() > 0 && b[i]
                != seq!['.'],
    ensures
        equal_paths(
            seq!['/'] + crate::text::joined(a, seq!['/']),
            seq!['/'] + crate::text::joined(b, seq!['/']),
        ) == (a == b),
{
    lemma_canonical_components(a);
    lemma_canonical_components(b);
    lemma_absolute_start(crate::text::joined(a, seq!['/']));
    lemma_absolute_start(crate::text::joined(b, seq!['/']));
}

proof fn lemma_absolute_start(text: Seq<char>)
    ensures
        !starts_here(seq!['/'] + text),
{
    let none = Seq::<char>::empty();
    crate::text::split_takes_apart(none, '/', text);
    assert(none + seq!['/'] + text =~= seq!['/'] + text);
}

proof fn lemma_canonical_components(a: Seq<Seq<char>>)
    requires
        forall|i: int|
            0 <= i < a.len() ==> !(#[trigger] a[i]).contains('/') && a[i].len() > 0 && a[i]
                != seq!['.'],
    ensures
        components(seq!['/'] + crate::text::joined(a, seq!['/'])) == a,
    decreases a.len(),
{
    let text = crate::text::joined(a, seq!['/']);
    if a.len() == 0 {
        lemma_nothing_behind(text, text);
        assert(text =~= seq![]);
        assert(a =~= seq![]);
    } else {
        let short = a.drop_last();
        assert forall|i: int| 0 <= i < short.len() implies !(#[trigger] short[i]).contains('/')
            && short[i].len() > 0 && short[i] != seq!['.'] by {
            assert(short[i] == a[i]);
        }
        lemma_canonical_components(short);
        let last = a.last();
        assert(a[a.len() - 1] == last);
        if short.len() == 0 {
            lemma_component_behind(last, last);
            lemma_nothing_behind(last, last);
            assert(a =~= seq![last]);
            crate::text::joining_from_the_front(last, seq![], seq!['/']);
        } else {
            let front = seq!['/'] + crate::text::joined(short, seq!['/']);
            lemma_component_behind(front, last);
            assert(front + seq!['/'] + last =~= seq!['/'] + text);
            assert(short.push(last) =~= a);
        }
    }
}

/// Repeated separators, a separator at the end and `.` inside a path make no difference,
/// but whether a path starts at the root does.
pub proof fn separators_may_be_repeated(a: Seq<char>, b: Seq<char>)
    requires
        a.len() > 0,
    ensures
        equal_paths(a, a + seq!['/']),
        equal_paths(a + seq!['/'] + b, a + seq!['/', '/'] + b),
        equal_paths(a + seq!['/'] + b, a + seq!['/', '.', '/'] + b),
        a[0] != '/' ==> !equal_paths(a, seq!['/'] + a),
{
    lemma_behind_a_separator(a, b, seq!['/'] + b);
    lemma_behind_a_separator(a, b, seq!['.', '/'] + b);
    lemma_behind_a_separator(a, seq![], seq![]);
    lemma_nothing_behind(a, b);
    assert(a + seq!['/'] + (seq!['/'] + b) =~= a + seq!['/', '/'] + b);
    assert(a + seq!['/'] + (seq!['.', '/'] + b) =~= a + seq!['/', '.', '/'] + b);
    assert(a + seq!['/'] + seq![] =~= a + seq!['/']);
}

proof fn lemma_behind_a_separator(a: Seq<char>, b: Seq<char>, c: Seq<char>)
    requires
        a.len() > 0,
    ensures
        components(b) == components(c) ==> equal_paths(a + seq!['/'] + b, a + seq!['/'] + c),
        starts_here(a + seq!['/'] + b) == starts_here(a),
{
    crate::text::lemma_first_index(a, '/');
    lemma_split_append(a, '/', b);
    lemma_split_append(a, '/', c);
    components_stand_between_separators(a, b, seq![]);
    components_stand_between_separators(a, c, seq![]);
    assert(split_on(a, '/').len() > 0);
    assert(split_on(a + seq!['/'] + b, '/')[0] == split_on(a, '/')[0]);
    assert(split_on(a + seq!['/'] + c, '/')[0] == split_on(a, '/')[0]);
}

/// The name of a file is the last component of its path, unless there is none or it leads
/// to the parent directory.
pub proof fn names_are_last_components(path: Seq<char>, name: Seq<char>)
    ensures
        final_name(path) == Some(name) <==> components(path).len() > 0 && components(path).last()
            == name && name != seq!['.', '.'],
{
}

/// A path that starts with `.` is another one than without it.
pub proof fn leading_dot_is_significant(name: Seq<char>)
    requires
        !name.contains('/'),
        name != seq!['.'],
    ensures
        !equal_paths(seq!['.', '/'] + name, name),
{
    let dot = seq!['.'];
    crate::text::split_takes_apart(dot, '/', name);
    crate::text::split_takes_apart(name, '/', name);
    assert(dot + seq!['/'] + name =~= seq!['.', '/'] + name);
}

} // verus!

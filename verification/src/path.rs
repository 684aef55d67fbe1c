//! Lexical operations on paths.
//!
//! A path is text made of names separated by `/`. Empty names and the name `.`
//! carry no meaning and are skipped; a leading `/` makes the path absolute.
//! Nothing here touches the file system.

use vstd::prelude::*;
use vstd::string::*;
use crate::text::chars_of;
use crate::text::string_of;

verus! {

/// Whether two dots stand next to each other anywhere in `s`.
pub open spec fn contains_parent_marker(s: Seq<char>) -> bool {
    exists|i: int| 0 <= i && i + 1 < s.len() && #[trigger] s[i] == '.' && s[i + 1] == '.'
}

/// Whether the path starts at the root.
pub open spec fn absolute(s: Seq<char>) -> bool {
    s.len() > 0 && s[0] == '/'
}

/// `target` adjoined to `base`: an absolute `target` replaces `base`; otherwise
/// `target` follows `base`, with one separator between them unless `base` is
/// empty or already ends in one.
pub open spec fn joined(base: Seq<char>, target: Seq<char>) -> Seq<char> {
    if absolute(target) {
        target
    } else if base.len() > 0 && base.last() != '/' {
        base.push('/') + target
    } else {
        base + target
    }
}

/// Whether a piece of text between two separators counts as a name.
pub open spec fn is_name(piece: Seq<char>) -> bool {
    piece.len() > 0 && !(piece =~= seq!['.'])
}

/// `names`, with `piece` added at its end where it is a name.
pub open spec fn close(names: Seq<Seq<char>>, piece: Seq<char>) -> Seq<Seq<char>> {
    if is_name(piece) {
        names.push(piece)
    } else {
        names
    }
}

/// Reading `s` from the left: the names that a separator has closed, and the
/// piece that is still open at the end.
pub open spec fn scan(s: Seq<char>) -> (Seq<Seq<char>>, Seq<char>)
    decreases s.len(),
{
    if s.len() == 0 {
        (Seq::empty(), Seq::empty())
    } else {
        let (names, piece) = scan(s.drop_last());
        if s.last() == '/' {
            (close(names, piece), Seq::empty())
        } else {
            (names, piece.push(s.last()))
        }
    }
}

/// The names of the path, in order.
pub open spec fn segments(s: Seq<char>) -> Seq<Seq<char>> {
    close(scan(s).0, scan(s).1)
}

/// The root, where the path is absolute, followed by the names of the path.
pub open spec fn components(s: Seq<char>) -> Seq<Seq<char>> {
    if absolute(s) {
        seq![seq!['/']] + segments(s)
    } else {
        segments(s)
    }
}

/// Whether `base` is a prefix of `path`, component by component.
pub open spec fn within(path: Seq<char>, base: Seq<char>) -> bool {
    components(base).is_prefix_of(components(path))
}

/// Whether the two paths have the same components.
pub open spec fn same_place(a: Seq<char>, b: Seq<char>) -> bool {
    within(a, b) && within(b, a)
}

/// `names` written with one separator between neighbours.
pub open spec fn join_names(names: Seq<Seq<char>>) -> Seq<char>
    decreases names.len(),
{
    if names.len() == 0 {
        Seq::empty()
    } else if names.len() == 1 {
        names[0]
    } else {
        join_names(names.drop_last()).push('/') + names.last()
    }
}

/// The shortest text of a path with the given root flag and names.
pub open spec fn render(is_absolute: bool, names: Seq<Seq<char>>) -> Seq<char> {
    if is_absolute {
        seq!['/'] + join_names(names)
    } else {
        join_names(names)
    }
}

/// The path without its last name, where it has one.
pub open spec fn parent_of(s: Seq<char>) -> Option<Seq<char>> {
    if segments(s).len() == 0 {
        None
    } else {
        Some(render(absolute(s), segments(s).drop_last()))
    }
}

/// The last name of the path, unless there is none or it is `..`.
pub open spec fn final_name(s: Seq<char>) -> Option<Seq<char>> {
    if segments(s).len() == 0 || segments(s).last() =~= seq!['.', '.'] {
        None
    } else {
        Some(segments(s).last())
    }
}

/// The views of the vectors in `v`.
pub open spec fn views(v: Seq<Vec<char>>) -> Seq<Seq<char>> {
    v.map_values(|x: Vec<char>| x@)
}

/// Whether two dots stand next to each other anywhere in `s`.
pub fn has_parent_marker(s: &str) -> (found: bool)
    ensures
        found == contains_parent_marker(s@),
{
    let v = chars_of(s);
    if v.len() < 2 {
        return false;
    }
    let mut i: usize = 0;
    while i < v.len() - 1
        invariant
            v@ == s@,
            v.len() >= 2,
            i <= v.len() - 1,
            forall|j: int| 0 <= j < i ==> !(#[trigger] v@[j] == '.' && v@[j + 1] == '.'),
        decreases v.len() - i,
    {
        if v[i] == '.' && v[i + 1] == '.' {
            return true;
        }
        i += 1;
    }
    false
}

/// Whether the path starts at the root.
pub fn is_absolute(path: &str) -> (b: bool)
    ensures
        b == absolute(path@),
{
    let v = chars_of(path);
    v.len() > 0 && v[0] == '/'
}

/// `target` adjoined to `base`.
pub fn join(base: &str, target: &str) -> (out: String)
    ensures
        out@ == joined(base@, target@),
{
    if is_absolute(target) {
        return target.to_owned();
    }
    let b = chars_of(base);
    let mut out = base.to_owned();
    if b.len() > 0 && b[b.len() - 1] != '/' {
        out.push('/');
    }
    out.append(target);
    out
}


/// The names of the path in `s`, in order.
fn split(s: &Vec<char>) -> (names: Vec<Vec<char>>)
    ensures
        views(names@) == segments(s@),
{
    let mut names: Vec<Vec<char>> = Vec::new();
    let mut piece: Vec<char> = Vec::new();
    let mut i: usize = 0;
    while i < s.len()
        invariant
            i <= s.len(),
            (views(names@), piece@) == scan(s@.take(i as int)),
        decreases s.len() - i,
    {
        proof {
            assert(s@.take(i + 1).drop_last() == s@.take(i as int));
        }
        let c = s[i];
        if c == '/' {
            let ghost before = names@;
            if piece.len() > 0 && !(piece.len() == 1 && piece[0] == '.') {
                names.push(piece);
                assert(views(names@) == views(before).push(piece@));
            }
            piece = Vec::new();
        } else {
            piece.push(c);
        }
        i += 1;
    }
    proof {
        assert(s@.take(i as int) == s@);
    }
    let ghost before = names@;
    if piece.len() > 0 && !(piece.len() == 1 && piece[0] == '.') {
        names.push(piece);
        assert(views(names@) == views(before).push(piece@));
    }
    names
}

/// Whether the vectors hold the same characters.
pub(crate) fn same_chars(a: &Vec<char>, b: &Vec<char>) -> (same: bool)
    ensures
        same == (a@ == b@),
{
    if a.len() != b.len() {
        return false;
    }
    let mut i: usize = 0;
    while i < a.len()
        invariant
            a.len() == b.len(),
            i <= a.len(),
            forall|j: int| 0 <= j < i ==> a@[j] == b@[j],
        decreases a.len() - i,
    {
        if a[i] != b[i] {
            return false;
        }
        i += 1;
    }
    assert(a@ =~= b@);
    true
}

/// Whether `base` is a prefix of `path`, component by component.
pub fn starts_with(path: &str, base: &str) -> (b: bool)
    ensures
        b == within(path@, base@),
{
    let p = chars_of(path);
    let q = chars_of(base);
    let p_abs = p.len() > 0 && p[0] == '/';
    let q_abs = q.len() > 0 && q[0] == '/';
    let pn = split(&p);
    let qn = split(&q);
    proof {
        lemma_names_have_no_separator(path@);
        lemma_names_have_no_separator(base@);
    }
    if q_abs && !p_abs {
        proof {
            if segments(path@).len() > 0 {
                assert(components(path@)[0] == segments(path@)[0]);
                assert(components(base@)[0] == seq!['/']);
                assert(seq!['/'][0] == '/');
            }
        }
        return false;
    }
    if !q_abs && p_abs {
        if qn.len() == 0 {
            proof {
                assert(components(base@) =~= Seq::<Seq<char>>::empty());
            }
            return true;
        }
        proof {
            assert(components(base@)[0] == segments(base@)[0]);
            assert(components(path@)[0] == seq!['/']);
            assert(seq!['/'][0] == '/');
        }
        return false;
    }
    if qn.len() > pn.len() {
        return false;
    }
    let mut i: usize = 0;
    while i < qn.len()
        invariant
            qn.len() <= pn.len(),
            i <= qn.len(),
            views(pn@) == segments(path@),
            views(qn@) == segments(base@),
            absolute(path@) == absolute(base@),
            forall|j: int| 0 <= j < i ==> segments(base@)[j] == segments(path@)[j],
        decreases qn.len() - i,
    {
        let same = same_chars(&qn[i], &pn[i]);
        proof {
            assert(views(qn@)[i as int] == qn@[i as int]@);
            assert(views(pn@)[i as int] == pn@[i as int]@);
        }
        if !same {
            proof {
                let k = if absolute(base@) { i + 1 } else { i as int };
                assert(components(base@)[k] == segments(base@)[i as int]);
                assert(components(path@)[k] == segments(path@)[i as int]);
                assert(components(path@).subrange(0, components(base@).len() as int)[k]
                    == components(path@)[k]);
            }
            return false;
        }
        i += 1;
    }
    proof {
        assert(components(base@) =~= components(path@).subrange(
            0,
            components(base@).len() as int,
        ));
    }
    true
}

/// Whether the two paths have the same components.
pub fn same_path(a: &str, b: &str) -> (same: bool)
    ensures
        same == same_place(a@, b@),
{
    starts_with(a, b) && starts_with(b, a)
}

/// Paths with the same components are the same place, and only they.
pub proof fn lemma_same_place(a: Seq<char>, b: Seq<char>)
    ensures
        same_place(a, b) <==> components(a) == components(b),
{
    if same_place(a, b) {
        assert(components(a) =~= components(b));
    }
    if components(a) == components(b) {
        assert(components(a) == components(b).subrange(0, components(a).len() as int));
    }
}

/// Every closed name is a name without a separator, and the open piece holds
/// no separator either.
proof fn lemma_scan_pieces(s: Seq<char>)
    ensures
        forall|i: int, j: int|
            0 <= i < scan(s).0.len() && 0 <= j < scan(s).0[i].len()
                ==> #[trigger] scan(s).0[i][j] != '/',
        forall|i: int| 0 <= i < scan(s).0.len() ==> is_name(#[trigger] scan(s).0[i]),
        forall|j: int| 0 <= j < scan(s).1.len() ==> #[trigger] scan(s).1[j] != '/',
    decreases s.len(),
{
    if s.len() > 0 {
        lemma_scan_pieces(s.drop_last());
        let names = scan(s.drop_last()).0;
        let piece = scan(s.drop_last()).1;
        assert forall|i: int| 0 <= i < scan(s).0.len() implies is_name(#[trigger] scan(s).0[i])
            && forall|j: int| 0 <= j < scan(s).0[i].len() ==> scan(s).0[i][j] != '/' by {
            if i < names.len() {
                assert(scan(s).0[i] == names[i]);
            } else {
                assert(scan(s).0[i] == piece);
            }
        }
    }
}

/// Every name of a path is a name, and holds no separator.
pub proof fn lemma_names_have_no_separator(s: Seq<char>)
    ensures
        forall|i: int, j: int|
            0 <= i < segments(s).len() && 0 <= j < segments(s)[i].len()
                ==> #[trigger] segments(s)[i][j] != '/',
        forall|i: int| 0 <= i < segments(s).len() ==> is_name(#[trigger] segments(s)[i]),
{
    lemma_scan_pieces(s);
    let names = scan(s).0;
    let piece = scan(s).1;
    assert forall|i: int| 0 <= i < segments(s).len() implies is_name(
        #[trigger] segments(s)[i],
    ) && forall|j: int| 0 <= j < segments(s)[i].len() ==> segments(s)[i][j] != '/' by {
        if i < names.len() {
            assert(segments(s)[i] == names[i]);
        } else {
            assert(segments(s)[i] == piece);
        }
    }
}


/// The text of the path with the given root flag and the first `count` of `names`.
fn write_names(is_absolute: bool, names: &Vec<Vec<char>>, count: usize) -> (out: Vec<char>)
    requires
        count <= names.len(),
    ensures
        out@ == render(is_absolute, views(names@).take(count as int)),
{
    let mut out: Vec<char> = Vec::new();
    if is_absolute {
        out.push('/');
    }
    let ghost head = out@;
    let mut i: usize = 0;
    while i < count
        invariant
            i <= count <= names.len(),
            head == if is_absolute { seq!['/'] } else { Seq::<char>::empty() },
            out@ == head + join_names(views(names@).take(i as int)),
        decreases count - i,
    {
        let ghost before = join_names(views(names@).take(i as int));
        if i > 0 {
            out.push('/');
        }
        let name = &names[i];
        let ghost start = out@;
        let mut j: usize = 0;
        while j < name.len()
            invariant
                j <= name.len(),
                out@ == start + name@.take(j as int),
            decreases name.len() - j,
        {
            out.push(name[j]);
            j += 1;
        }
        proof {
            let next = views(names@).take(i + 1);
            assert(name@.take(j as int) == name@);
            assert(next.drop_last() == views(names@).take(i as int));
            assert(next.last() == name@);
            if i > 0 {
                assert(out@ == head + (before.push('/') + name@));
            } else {
                assert(before == Seq::<char>::empty());
                assert(out@ == head + name@);
            }
        }
        i += 1;
    }
    out
}

/// The path without its last name, where it has one.
pub fn parent(path: &str) -> (out: Option<String>)
    ensures
        out is Some == parent_of(path@) is Some,
        out is Some ==> out->0@ == parent_of(path@)->0,
{
    let p = chars_of(path);
    let names = split(&p);
    if names.len() == 0 {
        return None;
    }
    let is_abs = p.len() > 0 && p[0] == '/';
    let text = write_names(is_abs, &names, names.len() - 1);
    proof {
        assert(views(names@).take(names.len() - 1) == segments(path@).drop_last());
    }
    Some(string_of(&text))
}

/// The last name of the path, unless there is none or it is `..`.
pub fn file_name(path: &str) -> (out: Option<String>)
    ensures
        out is Some == final_name(path@) is Some,
        out is Some ==> out->0@ == final_name(path@)->0,
{
    let p = chars_of(path);
    let names = split(&p);
    if names.len() == 0 {
        return None;
    }
    let last = &names[names.len() - 1];
    proof {
        assert(views(names@).last() == last@);
    }
    if last.len() == 2 && last[0] == '.' && last[1] == '.' {
        assert(last@ =~= seq!['.', '.']);
        return None;
    }
    Some(string_of(last))
}

/// A separator ends what stands before it: the names after it follow the names
/// before it.
pub proof fn lemma_scan_after_separator(a: Seq<char>, b: Seq<char>)
    ensures
        scan(a.push('/') + b) == (segments(a) + scan(b).0, scan(b).1),
        segments(a.push('/') + b) == segments(a) + segments(b),
    decreases b.len(),
{
    let whole = a.push('/') + b;
    if b.len() == 0 {
        assert(whole == a.push('/'));
        assert(a.push('/').drop_last() == a);
        assert(segments(a) + Seq::<Seq<char>>::empty() == segments(a));
    } else {
        assert(whole.drop_last() == a.push('/') + b.drop_last());
        lemma_scan_after_separator(a, b.drop_last());
        let names = scan(b.drop_last()).0;
        let piece = scan(b.drop_last()).1;
        if b.last() == '/' {
            assert(close(segments(a) + names, piece) == segments(a) + close(names, piece));
        }
    }
    assert(close(segments(a) + scan(b).0, scan(b).1) == segments(a) + close(scan(b).0, scan(b).1));
}

/// Adjoining a relative path keeps the base in front: the result has the
/// components of the base, then the names of what was adjoined.
pub proof fn lemma_joined_components(base: Seq<char>, target: Seq<char>)
    requires
        !absolute(target),
    ensures
        absolute(joined(base, target)) == absolute(base),
        segments(joined(base, target)) == segments(base) + segments(target),
        components(joined(base, target)) == components(base) + segments(target),
        within(joined(base, target), base),
{
    let j = joined(base, target);
    if base.len() == 0 {
        assert(j == target);
        assert(segments(base) + segments(target) == segments(target));
    } else if base.last() != '/' {
        lemma_scan_after_separator(base, target);
    } else {
        let front = base.drop_last();
        assert(front.push('/') == base);
        lemma_scan_after_separator(front, target);
        lemma_scan_after_separator(front, Seq::empty());
        assert(front.push('/') + Seq::<char>::empty() == base);
        assert(segments(front) + segments(Seq::<char>::empty()) == segments(front));
    }
    assert(components(j) == components(base) + segments(target));
    assert(components(base) == components(j).subrange(0, components(base).len() as int));
}

/// Text without a separator is one open piece.
proof fn lemma_scan_single(b: Seq<char>)
    requires
        forall|j: int| 0 <= j < b.len() ==> b[j] != '/',
    ensures
        scan(b) == (Seq::<Seq<char>>::empty(), b),
    decreases b.len(),
{
    if b.len() > 0 {
        lemma_scan_single(b.drop_last());
        assert(b.drop_last().push(b.last()) == b);
    }
}

/// A name without a separator is a path of that one name.
pub proof fn lemma_single_name(name: Seq<char>)
    requires
        is_name(name),
        forall|j: int| 0 <= j < name.len() ==> name[j] != '/',
    ensures
        segments(name) == seq![name],
        !absolute(name),
{
    lemma_scan_single(name);
}

/// Whether every element is a name without a separator.
pub open spec fn plain_names(names: Seq<Seq<char>>) -> bool {
    forall|i: int|
        0 <= i < names.len() ==> is_name(#[trigger] names[i]) && forall|j: int|
            0 <= j < names[i].len() ==> names[i][j] != '/'
}

/// Names written with separators read back as themselves.
proof fn lemma_join_names_round_trip(names: Seq<Seq<char>>)
    requires
        plain_names(names),
    ensures
        segments(join_names(names)) == names,
        names.len() > 0 ==> join_names(names).len() > 0 && join_names(names)[0] != '/',
    decreases names.len(),
{
    if names.len() == 0 {
    } else if names.len() == 1 {
        assert(is_name(names[0]));
        lemma_scan_single(names[0]);
        assert(segments(names[0]) == seq![names[0]]);
        assert(seq![names[0]] == names);
    } else {
        let front = names.drop_last();
        assert(plain_names(front)) by {
            assert forall|i: int| 0 <= i < front.len() implies is_name(#[trigger] front[i])
                && forall|j: int| 0 <= j < front[i].len() ==> front[i][j] != '/' by {
                assert(front[i] == names[i]);
            }
        }
        lemma_join_names_round_trip(front);
        assert(is_name(names.last()));
        lemma_scan_single(names.last());
        lemma_scan_after_separator(join_names(front), names.last());
        assert(segments(names.last()) == seq![names.last()]);
        assert(front + seq![names.last()] == names);
    }
}

/// A path written from a root flag and plain names reads back as the same
/// flag and names.
pub proof fn lemma_render_round_trip(is_absolute: bool, names: Seq<Seq<char>>)
    requires
        plain_names(names),
    ensures
        absolute(render(is_absolute, names)) == is_absolute,
        segments(render(is_absolute, names)) == names,
{
    lemma_join_names_round_trip(names);
    if is_absolute {
        let none = Seq::<char>::empty();
        assert(none.push('/') + join_names(names) == render(true, names));
        lemma_scan_after_separator(none, join_names(names));
        assert(segments(none) + names == names);
    }
}

/// The parent of a path has the same root flag and all its names but the last,
/// so the path lies within its parent.
pub proof fn lemma_parent_components(s: Seq<char>)
    requires
        parent_of(s) is Some,
    ensures
        absolute(parent_of(s)->0) == absolute(s),
        segments(parent_of(s)->0) == segments(s).drop_last(),
        within(s, parent_of(s)->0),
{
    let names = segments(s).drop_last();
    lemma_names_have_no_separator(s);
    assert(plain_names(names)) by {
        assert forall|i: int| 0 <= i < names.len() implies is_name(#[trigger] names[i])
            && forall|j: int| 0 <= j < names[i].len() ==> names[i][j] != '/' by {
            assert(names[i] == segments(s)[i]);
        }
    }
    lemma_render_round_trip(absolute(s), names);
    let p = parent_of(s)->0;
    assert(components(p) == components(s).subrange(0, components(p).len() as int));
}

/// Every path lies within itself, and lying within is transitive.
pub proof fn lemma_within_order(a: Seq<char>, b: Seq<char>, c: Seq<char>)
    ensures
        within(a, a),
        within(a, b) && within(b, c) ==> within(a, c),
{
    assert(components(a) == components(a).subrange(0, components(a).len() as int));
    if within(a, b) && within(b, c) {
        assert(components(c) == components(a).subrange(0, components(c).len() as int));
    }
}

} // verus!

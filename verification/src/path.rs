//! Unix paths as text: joining, and comparing by their components.

use crate::text;
use crate::text::Cut;
use vstd::prelude::*;
use vstd::string::StrSliceExecFns;
use vstd::string::StringExecFns;

verus! {

pub open spec fn rooted(path: Seq<char>) -> bool {
    path.len() > 0 && path[0] == '/'
}

/// `tail` inside the directory `base`; a rooted `tail` stands for itself.
pub open spec fn joined_path(base: Seq<char>, tail: Seq<char>) -> Seq<char> {
    if rooted(tail) || base.len() == 0 {
        tail
    } else if base.last() == '/' {
        base + tail
    } else {
        base + "/"@ + tail
    }
}

pub fn join(base: &str, tail: &str) -> (r: String)
    ensures
        r@ == joined_path(base@, tail@),
{
    if base.is_empty() || is_rooted(tail) {
        tail.to_owned()
    } else if base.get_char(base.unicode_len() - 1) == '/' {
        let mut r: String = base.to_owned();
        r.append(tail);
        r
    } else {
        text::concat3(base, "/", tail)
    }
}

pub fn is_rooted(path: &str) -> (r: bool)
    ensures
        r == rooted(path@),
{
    !path.is_empty() && path.get_char(0) == '/'
}

/// The parts of a path that name something: neither empty nor `.`.
pub open spec fn naming(parts: Seq<Seq<char>>) -> Seq<Seq<char>> {
    parts.filter(|p: Seq<char>| p.len() > 0 && p != "."@)
}

/// The names along a path.
pub open spec fn components(path: Seq<char>) -> Seq<Seq<char>> {
    naming(text::pieces(path, Cut::At('/')))
}

pub fn names_along(path: &str) -> (r: Vec<String>)
    ensures
        text::views(r@) == components(path@),
{
    let parts: Vec<String> = text::split(path, Cut::At('/'));
    let mut r: Vec<String> = Vec::new();
    let mut i: usize = 0;
    let ghost all = text::pieces(path@, Cut::At('/'));
    proof {
        reveal(Seq::filter);
        assert(text::views(r@) =~= naming(all.take(0)));
    }
    while i < parts.len()
        invariant
            text::views(parts@) == all,
            i <= parts@.len(),
            text::views(r@) == naming(all.take(i as int)),
        decreases parts@.len() - i,
    {
        let ghost earlier = r@;
        proof {
            reveal(Seq::filter);
            assert(all.take(i + 1).drop_last() =~= all.take(i as int));
            assert(all.len() == parts@.len());
            assert(all.take(i + 1).last() == parts@[i as int]@);
        }
        if !parts[i].as_str().is_empty() && !text::same(parts[i].as_str(), ".") {
            r.push(parts[i].clone());
            proof {
                assert(text::views(r@) =~= text::views(earlier).push(parts@[i as int]@));
            }
        }
        i = i + 1;
    }
    proof {
        assert(all.take(i as int) =~= all);
    }
    r
}

/// Whether two lists hold the same texts.
pub fn same_texts(a: &[String], b: &[String]) -> (r: bool)
    ensures
        r == (text::views(a@) == text::views(b@)),
{
    if a.len() != b.len() {
        proof {
            assert(text::views(a@).len() != text::views(b@).len());
        }
        return false;
    }
    let mut i: usize = 0;
    while i < a.len()
        invariant
            a@.len() == b@.len(),
            i <= a@.len(),
            forall|j: int| 0 <= j < i ==> (#[trigger] a@[j])@ == b@[j]@,
        decreases a@.len() - i,
    {
        if !text::same(a[i].as_str(), b[i].as_str()) {
            proof {
                assert(text::views(a@)[i as int] != text::views(b@)[i as int]);
            }
            return false;
        }
        i = i + 1;
    }
    proof {
        assert(text::views(a@) =~= text::views(b@));
    }
    true
}

/// Two rooted paths lead to the same place by their names alone: repeated
/// slashes, trailing slashes and `.` make no difference.
pub open spec fn same_rooted(a: Seq<char>, b: Seq<char>) -> bool {
    rooted(a) && rooted(b) && components(a) == components(b)
}

pub fn same_rooted_path(a: &str, b: &str) -> (r: bool)
    ensures
        r == same_rooted(a@, b@),
{
    if is_rooted(a) && is_rooted(b) {
        let x: Vec<String> = names_along(a);
        let y: Vec<String> = names_along(b);
        same_texts(x.as_slice(), y.as_slice())
    } else {
        false
    }
}

// --- Order ---

/// What stands in the order of paths for one of the names along it: `..` comes
/// before every other name.
pub open spec fn named_part(name: Seq<char>) -> (int, Seq<char>) {
    (if name == ".."@ {
        2
    } else {
        3
    }, name)
}

/// The parts of a path by which it is ordered: the root, or a leading `.`, and
/// the names along it.
#[verifier::opaque]
pub open spec fn parts(path: Seq<char>) -> Seq<(int, Seq<char>)> {
    let names = components(path).map_values(|name: Seq<char>| named_part(name));
    if rooted(path) {
        seq![(0int, ""@)] + names
    } else if text::pieces(path, Cut::At('/'))[0] == "."@ {
        seq![(1int, ""@)] + names
    } else {
        names
    }
}

pub open spec fn part_precedes(a: (int, Seq<char>), b: (int, Seq<char>)) -> bool {
    a.0 < b.0 || a.0 == b.0 && text::precedes(a.1, b.1)
}

/// The order of paths: part by part.
pub open spec fn sorts_before(a: Seq<(int, Seq<char>)>, b: Seq<(int, Seq<char>)>) -> bool
    decreases b.len(),
{
    if b.len() == 0 {
        false
    } else if a.len() == 0 {
        true
    } else if a[0] != b[0] {
        part_precedes(a[0], b[0])
    } else {
        sorts_before(a.drop_first(), b.drop_first())
    }
}

proof fn lemma_part_order(a: (int, Seq<char>), b: (int, Seq<char>), c: (int, Seq<char>))
    ensures
        !part_precedes(a, a),
        part_precedes(a, b) && part_precedes(b, c) ==> part_precedes(a, c),
        part_precedes(a, b) ==> a != b && !part_precedes(b, a),
        a != b ==> part_precedes(a, b) || part_precedes(b, a),
{
    text::lemma_precedes_irreflexive(a.1);
    if part_precedes(a, b) && part_precedes(b, c) && a.0 == b.0 && b.0 == c.0 {
        text::lemma_precedes_transitive(a.1, b.1, c.1);
    }
    text::lemma_precedes_total(a.1, b.1);
}

proof fn lemma_sorts_irreflexive(a: Seq<(int, Seq<char>)>)
    ensures
        !sorts_before(a, a),
    decreases a.len(),
{
    if a.len() > 0 {
        lemma_sorts_irreflexive(a.drop_first());
    }
}

proof fn lemma_sorts_transitive(
    a: Seq<(int, Seq<char>)>,
    b: Seq<(int, Seq<char>)>,
    c: Seq<(int, Seq<char>)>,
)
    requires
        sorts_before(a, b),
        sorts_before(b, c),
    ensures
        sorts_before(a, c),
    decreases a.len(),
{
    if a.len() > 0 {
        lemma_part_order(a[0], b[0], c[0]);
        lemma_part_order(b[0], c[0], a[0]);
        if a[0] == b[0] && b[0] == c[0] {
            lemma_sorts_transitive(a.drop_first(), b.drop_first(), c.drop_first());
        }
    }
}

proof fn lemma_sorts_total(a: Seq<(int, Seq<char>)>, b: Seq<(int, Seq<char>)>)
    ensures
        a != b ==> sorts_before(a, b) || sorts_before(b, a),
        sorts_before(a, b) ==> a != b && !sorts_before(b, a),
    decreases a.len(),
{
    if a.len() == 0 || b.len() == 0 {
        if a.len() == 0 && b.len() == 0 {
            assert(a =~= b);
        }
    } else {
        lemma_part_order(a[0], b[0], a[0]);
        if a[0] == b[0] {
            lemma_sorts_total(a.drop_first(), b.drop_first());
            if a.drop_first() == b.drop_first() {
                assert(a =~= seq![a[0]] + a.drop_first());
                assert(b =~= seq![b[0]] + b.drop_first());
            }
        }
    }
}

pub open spec fn part_views(list: Seq<(u8, String)>) -> Seq<(int, Seq<char>)> {
    list.map_values(|p: (u8, String)| (p.0 as int, p.1@))
}

fn parts_of(path: &str) -> (r: Vec<(u8, String)>)
    ensures
        part_views(r@) == parts(path@),
{
    let mut r: Vec<(u8, String)> = Vec::new();
    proof {
        reveal(parts);
        text::lemma_pieces_not_empty(path@, Cut::At('/'));
    }
    let dotted: bool = match text::piece(path, Cut::At('/'), 0) {
        Some(first) => text::same(first.as_str(), "."),
        None => false,
    };
    if is_rooted(path) {
        r.push((0, "".to_owned()));
    } else if dotted {
        r.push((1, "".to_owned()));
    }
    let ghost head = part_views(r@);
    let names: Vec<String> = names_along(path);
    let ghost all = components(path@).map_values(|name: Seq<char>| named_part(name));
    let mut i: usize = 0;
    proof {
        assert(head + all.take(0) =~= head);
    }
    while i < names.len()
        invariant
            i <= names@.len(),
            text::views(names@) == components(path@),
            all == components(path@).map_values(|name: Seq<char>| named_part(name)),
            part_views(r@) == head + all.take(i as int),
        decreases names@.len() - i,
    {
        let code: u8 = if text::same(names[i].as_str(), "..") {
            2
        } else {
            3
        };
        let ghost earlier = r@;
        r.push((code, names[i].clone()));
        i = i + 1;
        proof {
            assert(components(path@)[i - 1] == names@[i - 1]@);
            assert(part_views(r@) =~= part_views(earlier).push(all[i - 1]));
            assert(all.take(i as int) =~= all.take(i - 1).push(all[i - 1]));
            assert(head + all.take(i as int) =~= (head + all.take(i - 1)).push(all[i - 1]));
        }
    }
    proof {
        assert(all.take(i as int) =~= all);
        if rooted(path@) {
            assert(head =~= seq![(0int, ""@)]);
        } else if dotted {
            assert(head =~= seq![(1int, ""@)]);
        } else {
            assert(head + all =~= all);
        }
    }
    r
}

/// Whether a path comes before another.
pub fn path_before(a: &str, b: &str) -> (r: bool)
    ensures
        r == sorts_before(parts(a@), parts(b@)),
{
    let x: Vec<(u8, String)> = parts_of(a);
    let y: Vec<(u8, String)> = parts_of(b);
    let ghost p = parts(a@);
    let ghost q = parts(b@);
    let mut i: usize = 0;
    proof {
        assert(p.skip(0) =~= p);
        assert(q.skip(0) =~= q);
    }
    while i < x.len() && i < y.len()
        invariant
            p == parts(a@),
            q == parts(b@),
            part_views(x@) == p,
            part_views(y@) == q,
            i <= x@.len(),
            i <= y@.len(),
            sorts_before(p, q) == sorts_before(p.skip(i as int), q.skip(i as int)),
        decreases x@.len() - i,
    {
        let same: bool = x[i].0 == y[i].0 && text::same(x[i].1.as_str(), y[i].1.as_str());
        proof {
            assert(p[i as int] == (x@[i as int].0 as int, x@[i as int].1@));
            assert(q[i as int] == (y@[i as int].0 as int, y@[i as int].1@));
            assert(p.skip(i as int).drop_first() =~= p.skip(i + 1));
            assert(q.skip(i as int).drop_first() =~= q.skip(i + 1));
        }
        if !same {
            return x[i].0 < y[i].0 || x[i].0 == y[i].0 && text::before(
                x[i].1.as_str(),
                y[i].1.as_str(),
            );
        }
        i = i + 1;
    }
    i < y.len()
}

/// Whether two paths are the same by their parts.
pub fn same_path(a: &str, b: &str) -> (r: bool)
    ensures
        r == (parts(a@) == parts(b@)),
{
    proof {
        lemma_sorts_total(parts(a@), parts(b@));
        lemma_sorts_irreflexive(parts(a@));
    }
    !path_before(a, b) && !path_before(b, a)
}

/// Whether a path ends in the given name.
pub open spec fn ends_in(path: Seq<char>, name: Seq<char>) -> bool {
    components(path).len() > 0 && components(path).last() == name
}

pub fn is_named(path: &str, name: &str) -> (r: bool)
    ensures
        r == ends_in(path@, name@),
{
    let names: Vec<String> = names_along(path);
    proof {
        assert(text::views(names@).len() == names@.len());
    }
    let n: usize = names.len();
    n > 0 && text::same(names[n - 1].as_str(), name)
}

/// Whether `list` holds each of `paths` once, in order: of the same path written
/// in different ways the first.
pub open spec fn settles(paths: Seq<Seq<char>>, list: Seq<Seq<char>>) -> bool {
    &&& climbs(list)
    &&& forall|i: int| 0 <= i < list.len() ==> first_of(paths, #[trigger] list[i])
    &&& forall|k: int| 0 <= k < paths.len() ==> listed(list, #[trigger] paths[k])
}

/// Whether each path comes before the next.
pub open spec fn climbs(list: Seq<Seq<char>>) -> bool {
    forall|i: int, j: int|
        0 <= i < j < list.len() ==> sorts_before(
            parts(#[trigger] list[i]),
            parts(#[trigger] list[j]),
        )
}

/// Whether a path is in the list, in one way of writing or another.
pub open spec fn listed(list: Seq<Seq<char>>, path: Seq<char>) -> bool {
    exists|i: int| 0 <= i < list.len() && parts(#[trigger] list[i]) == parts(path)
}

/// Whether a path is in the list, and none before it is the same.
pub open spec fn first_of(paths: Seq<Seq<char>>, path: Seq<char>) -> bool {
    exists|k: int|
        {
            &&& 0 <= k < paths.len()
            &&& #[trigger] paths[k] == path
            &&& forall|m: int| 0 <= m < k ==> parts(#[trigger] paths[m]) != parts(path)
        }
}

proof fn lemma_first_stays(paths: Seq<Seq<char>>, more: Seq<char>, path: Seq<char>)
    requires
        first_of(paths, path),
    ensures
        first_of(paths.push(more), path),
{
    let k = choose|k: int|
        {
            &&& 0 <= k < paths.len()
            &&& #[trigger] paths[k] == path
            &&& forall|m: int| 0 <= m < k ==> parts(#[trigger] paths[m]) != parts(path)
        };
    let longer = paths.push(more);
    assert(longer[k] == path);
    assert forall|m: int| 0 <= m < k implies parts(#[trigger] longer[m]) != parts(path) by {
        assert(longer[m] == paths[m]);
    }
}

proof fn lemma_settled_skip(paths: Seq<Seq<char>>, list: Seq<Seq<char>>, more: Seq<char>, at: int)
    requires
        settles(paths, list),
        0 <= at < list.len(),
        parts(list[at]) == parts(more),
    ensures
        settles(paths.push(more), list),
{
    let longer = paths.push(more);
    assert forall|i: int| 0 <= i < list.len() implies first_of(longer, #[trigger] list[i]) by {
        lemma_first_stays(paths, more, list[i]);
    }
    assert forall|k: int| 0 <= k < longer.len() implies listed(list, #[trigger] longer[k]) by {
        if k < paths.len() {
            assert(listed(list, paths[k]));
        }
    }
}

proof fn lemma_behind(list: Seq<Seq<char>>, more: Seq<char>, at: int)
    requires
        climbs(list),
        0 <= at < list.len(),
        sorts_before(parts(more), parts(list[at])),
    ensures
        forall|i: int|
            at <= i < list.len() ==> sorts_before(parts(more), parts(#[trigger] list[i])),
{
    assert forall|i: int| at <= i < list.len() implies sorts_before(
        parts(more),
        parts(#[trigger] list[i]),
    ) by {
        if i > at {
            lemma_sorts_transitive(parts(more), parts(list[at]), parts(list[i]));
        }
    }
}

proof fn lemma_climbs_on(list: Seq<Seq<char>>, more: Seq<char>, at: int)
    requires
        climbs(list),
        0 <= at <= list.len(),
        forall|i: int| 0 <= i < at ==> sorts_before(parts(#[trigger] list[i]), parts(more)),
        forall|i: int|
            at <= i < list.len() ==> sorts_before(parts(more), parts(#[trigger] list[i])),
    ensures
        climbs(list.insert(at, more)),
{
    let next = list.insert(at, more);
    assert forall|i: int, j: int| 0 <= i < j < next.len() implies sorts_before(
        parts(#[trigger] next[i]),
        parts(#[trigger] next[j]),
    ) by {
        if i == at {
            assert(next[j] == list[j - 1]);
        } else if j == at {
            assert(next[i] == list[i]);
        } else {
            let a = if i < at {
                i
            } else {
                i - 1
            };
            let b = if j < at {
                j
            } else {
                j - 1
            };
            assert(next[i] == list[a]);
            assert(next[j] == list[b]);
        }
    }
}

proof fn lemma_new_is_first(paths: Seq<Seq<char>>, list: Seq<Seq<char>>, more: Seq<char>)
    requires
        forall|k: int| 0 <= k < paths.len() ==> listed(list, #[trigger] paths[k]),
        forall|i: int| 0 <= i < list.len() ==> parts(#[trigger] list[i]) != parts(more),
    ensures
        first_of(paths.push(more), more),
{
    let longer = paths.push(more);
    let k = paths.len() as int;
    assert(longer[k] == more);
    assert forall|m: int| 0 <= m < k implies parts(#[trigger] longer[m]) != parts(more) by {
        assert(longer[m] == paths[m]);
        assert(listed(list, paths[m]));
    }
}

proof fn lemma_still_listed(list: Seq<Seq<char>>, more: Seq<char>, at: int, path: Seq<char>)
    requires
        0 <= at <= list.len(),
        listed(list, path),
    ensures
        listed(list.insert(at, more), path),
{
    let w = choose|w: int| 0 <= w < list.len() && parts(#[trigger] list[w]) == parts(path);
    let v = if w < at {
        w
    } else {
        w + 1
    };
    assert(list.insert(at, more)[v] == list[w]);
}

proof fn lemma_settled_insert(paths: Seq<Seq<char>>, list: Seq<Seq<char>>, more: Seq<char>, at: int)
    requires
        settles(paths, list),
        0 <= at <= list.len(),
        forall|i: int| 0 <= i < at ==> sorts_before(parts(#[trigger] list[i]), parts(more)),
        at < list.len() ==> sorts_before(parts(more), parts(list[at])),
    ensures
        settles(paths.push(more), list.insert(at, more)),
{
    let longer = paths.push(more);
    let next = list.insert(at, more);
    if at < list.len() {
        lemma_behind(list, more, at);
    }
    lemma_climbs_on(list, more, at);
    assert forall|i: int| 0 <= i < list.len() implies parts(#[trigger] list[i]) != parts(more) by {
        lemma_sorts_irreflexive(parts(more));
    }
    lemma_new_is_first(paths, list, more);
    assert forall|i: int| 0 <= i < next.len() implies first_of(longer, #[trigger] next[i]) by {
        if i != at {
            let a = if i < at {
                i
            } else {
                i - 1
            };
            assert(next[i] == list[a]);
            lemma_first_stays(paths, more, list[a]);
        }
    }
    assert forall|k: int| 0 <= k < longer.len() implies listed(next, #[trigger] longer[k]) by {
        if k == paths.len() {
            assert(next[at] == more);
        } else {
            lemma_still_listed(list, more, at, paths[k]);
        }
    }
}

/// How many paths at the front of the list sort before the path.
fn place_in(list: &[String], path: &str) -> (at: usize)
    ensures
        at <= list@.len(),
        forall|j: int|
            0 <= j < at ==> sorts_before(parts(#[trigger] text::views(list@)[j]), parts(path@)),
        at < list@.len() ==> !sorts_before(parts(text::views(list@)[at as int]), parts(path@)),
{
    let ghost view = text::views(list@);
    let mut at: usize = 0;
    while at < list.len() && path_before(list[at].as_str(), path)
        invariant
            at <= list@.len(),
            view == text::views(list@),
            forall|j: int| 0 <= j < at ==> sorts_before(parts(#[trigger] view[j]), parts(path@)),
        decreases list@.len() - at,
    {
        proof {
            assert(view[at as int] == list@[at as int]@);
        }
        at = at + 1;
    }
    at
}

/// Adds a path to a list that is in order, unless the list has it.
fn settle(list: &mut Vec<String>, path: &str, Ghost(earlier): Ghost<Seq<Seq<char>>>)
    requires
        settles(earlier, text::views(old(list)@)),
    ensures
        settles(earlier.push(path@), text::views(final(list)@)),
{
    let ghost view = text::views(list@);
    let at: usize = place_in(list.as_slice(), path);
    if at < list.len() && same_path(list[at].as_str(), path) {
        proof {
            assert(view[at as int] == list@[at as int]@);
            lemma_settled_skip(earlier, view, path@, at as int);
        }
    } else {
        proof {
            if at < list@.len() {
                assert(view[at as int] == list@[at as int]@);
                lemma_sorts_total(parts(view[at as int]), parts(path@));
            }
            lemma_settled_insert(earlier, view, path@, at as int);
        }
        list.insert(at, path.to_owned());
        proof {
            assert(text::views(list@) =~= view.insert(at as int, path@));
        }
    }
}

/// The paths in order, each once.
pub fn sorted_paths(paths: &[String]) -> (r: Vec<String>)
    ensures
        settles(text::views(paths@), text::views(r@)),
{
    let ghost all = text::views(paths@);
    let mut list: Vec<String> = Vec::new();
    let mut i: usize = 0;
    proof {
        assert(text::views(list@) =~= Seq::<Seq<char>>::empty());
        assert(settles(all.take(0), text::views(list@)));
    }
    while i < paths.len()
        invariant
            all == text::views(paths@),
            i <= paths@.len(),
            settles(all.take(i as int), text::views(list@)),
        decreases paths@.len() - i,
    {
        settle(&mut list, paths[i].as_str(), Ghost(all.take(i as int)));
        proof {
            assert(all.take(i + 1) =~= all.take(i as int).push(paths@[i as int]@));
        }
        i = i + 1;
    }
    proof {
        assert(all.take(i as int) =~= all);
    }
    list
}

proof fn lemma_naming_keeps_the_last(list: Seq<Seq<char>>, name: Seq<char>)
    requires
        name.len() > 0,
        name != "."@,
    ensures
        naming(list.push(name)) == naming(list).push(name),
{
    reveal(Seq::filter);
    assert(list.push(name).drop_last() =~= list);
}

proof fn lemma_last_piece(base: Seq<char>, name: Seq<char>)
    requires
        name.len() > 0,
        name != "."@,
        !name.contains('/'),
        base.len() == 0 || base.last() == '/',
    ensures
        ends_in(base + name, name),
{
    let cut = Cut::At('/');
    let none = Seq::<char>::empty();
    assert forall|i: int| 0 <= i < name.len() implies !cut.cuts(#[trigger] name[i]) by {
        assert(name.contains(name[i]));
    }
    text::lemma_pieces_extend(base, name, cut);
    let all = text::pieces(base, cut);
    text::lemma_pieces_not_empty(base, cut);
    assert(all.last() == none);
    assert(none + name =~= name);
    lemma_naming_keeps_the_last(all.drop_last(), name);
}

/// A path that a name was joined to ends in that name.
pub proof fn law_joined_paths_end_in_the_name(base: Seq<char>, name: Seq<char>)
    requires
        name.len() > 0,
        name != "."@,
        !name.contains('/'),
    ensures
        ends_in(joined_path(base, name), name),
{
    reveal_strlit("/");
    assert(name.contains(name[0]));
    if base.len() == 0 {
        lemma_last_piece(base, name);
        assert(base + name =~= name);
    } else if base.last() == '/' {
        lemma_last_piece(base, name);
    } else {
        lemma_last_piece(base + "/"@, name);
    }
}

/// The same path first stands in one place only.
proof fn lemma_first_is_one(paths: Seq<Seq<char>>, a: Seq<char>, b: Seq<char>)
    requires
        first_of(paths, a),
        first_of(paths, b),
        parts(a) == parts(b),
    ensures
        a == b,
{
    let i = choose|k: int|
        0 <= k < paths.len() && {
            &&& #[trigger] paths[k] == a
            &&& forall|m: int| 0 <= m < k ==> parts(#[trigger] paths[m]) != parts(a)
        };
    let j = choose|k: int|
        0 <= k < paths.len() && {
            &&& #[trigger] paths[k] == b
            &&& forall|m: int| 0 <= m < k ==> parts(#[trigger] paths[m]) != parts(b)
        };
    if i < j {
        assert(parts(paths[i]) != parts(b));
    } else if j < i {
        assert(parts(paths[j]) != parts(a));
    }
}

/// An entry of one list stands in the other, and not before what they share.
proof fn lemma_found_behind(paths: Seq<Seq<char>>, a: Seq<Seq<char>>, b: Seq<Seq<char>>, i: int)
    requires
        settles(paths, a),
        settles(paths, b),
        0 <= i < a.len(),
        i <= b.len(),
        forall|j: int| 0 <= j < i ==> #[trigger] a[j] == b[j],
    ensures
        i < b.len(),
        parts(b[i]) == parts(a[i]) || sorts_before(parts(b[i]), parts(a[i])),
{
    assert(first_of(paths, a[i]));
    let k = choose|k: int|
        0 <= k < paths.len() && {
            &&& #[trigger] paths[k] == a[i]
            &&& forall|m: int| 0 <= m < k ==> parts(#[trigger] paths[m]) != parts(a[i])
        };
    assert(listed(b, paths[k]));
    let w = choose|w: int| 0 <= w < b.len() && parts(#[trigger] b[w]) == parts(a[i]);
    if w < i {
        assert(a[w] == b[w]);
        assert(sorts_before(parts(a[w]), parts(a[i])));
        lemma_sorts_irreflexive(parts(a[i]));
    }
    if i < w {
        assert(sorts_before(parts(b[i]), parts(b[w])));
    }
}

proof fn lemma_settled_alike(paths: Seq<Seq<char>>, a: Seq<Seq<char>>, b: Seq<Seq<char>>, n: int)
    requires
        settles(paths, a),
        settles(paths, b),
        0 <= n <= a.len(),
    ensures
        n <= b.len(),
        forall|j: int| 0 <= j < n ==> #[trigger] a[j] == b[j],
    decreases n,
{
    if n > 0 {
        let i = n - 1;
        lemma_settled_alike(paths, a, b, i);
        lemma_found_behind(paths, a, b, i);
        assert forall|j: int| 0 <= j < i implies #[trigger] b[j] == a[j] by {
            assert(a[j] == b[j]);
        }
        lemma_found_behind(paths, b, a, i);
        if parts(a[i]) != parts(b[i]) {
            lemma_sorts_transitive(parts(a[i]), parts(b[i]), parts(a[i]));
            lemma_sorts_irreflexive(parts(a[i]));
        }
        assert(first_of(paths, a[i]));
        assert(first_of(paths, b[i]));
        lemma_first_is_one(paths, a[i], b[i]);
    }
}

/// There is one way to put paths in order, each once.
pub proof fn law_paths_settle_in_one_way(
    paths: Seq<Seq<char>>,
    a: Seq<Seq<char>>,
    b: Seq<Seq<char>>,
)
    requires
        settles(paths, a),
        settles(paths, b),
    ensures
        a == b,
{
    lemma_settled_alike(paths, a, b, a.len() as int);
    lemma_settled_alike(paths, b, a, b.len() as int);
    assert(a =~= b);
}

/// A name inside a directory stands behind the directory's path and a slash; a
/// path from the root stands for itself.
pub proof fn law_names_stand_behind_a_slash(base: &str, tail: &str, r: String)
    requires
        call_ensures(join, (base, tail), r),
    ensures
        tail@.len() > 0 && tail@[0] == '/' ==> r@ == tail@,
        base@.len() == 0 ==> r@ == tail@,
        base@.len() > 0 && base@.last() != '/' && !(tail@.len() > 0 && tail@[0] == '/') ==> r@
            == base@.push('/') + tail@,
        base@.len() > 0 && base@.last() == '/' && !(tail@.len() > 0 && tail@[0] == '/') ==> r@
            == base@ + tail@,
{
    reveal_strlit("/");
    assert(base@ + "/"@ + tail@ =~= base@.push('/') + tail@);
}

/// A directory is recognised by the last name along its path, whatever stands
/// before it; another name there is not taken for it.
pub proof fn law_directories_are_known_by_their_last_name(
    base: Seq<char>,
    last: Seq<char>,
    full: &str,
    name: &str,
    r: bool,
)
    requires
        call_ensures(is_named, (full, name), r),
        base.len() > 0,
        base.last() != '/',
        last.len() > 0,
        last != "."@,
        !last.contains('/'),
        full@ == base.push('/') + last,
    ensures
        r <==> last == name@,
{
    reveal_strlit("/");
    assert(!rooted(last)) by {
        if rooted(last) {
            assert(last.contains(last[0]));
        }
    }
    assert(joined_path(base, last) =~= full@);
    law_joined_paths_end_in_the_name(base, last);
}

/// What was found is listed once each, in order: nothing that was found is left
/// out, and nothing else is listed.
pub proof fn law_what_was_found_is_listed_once(paths: &[String], r: Vec<String>, i: int, j: int)
    requires
        call_ensures(sorted_paths, (paths,), r),
    ensures
        0 <= i < paths@.len() ==> exists|k: int|
            0 <= k < r@.len() && parts((#[trigger] r@[k])@) == parts(paths@[i]@),
        0 <= j < r@.len() ==> exists|k: int|
            0 <= k < paths@.len() && (#[trigger] paths@[k])@ == r@[j]@,
        0 <= i < j < r@.len() ==> parts(r@[i]@) != parts(r@[j]@) && sorts_before(
            parts(r@[i]@),
            parts(r@[j]@),
        ),
{
    let all = text::views(paths@);
    let list = text::views(r@);
    assert(all.len() == paths@.len());
    assert(list.len() == r@.len());
    if 0 <= i < paths@.len() {
        assert(all[i] == paths@[i]@);
        assert(listed(list, all[i]));
        let k = choose|k: int| 0 <= k < list.len() && parts(#[trigger] list[k]) == parts(all[i]);
        assert(parts(r@[k]@) == parts(paths@[i]@));
    }
    if 0 <= j < r@.len() {
        assert(list[j] == r@[j]@);
        assert(first_of(all, list[j]));
        let k = choose|k: int|
            {
                &&& 0 <= k < all.len()
                &&& #[trigger] all[k] == list[j]
                &&& forall|m: int| 0 <= m < k ==> parts(#[trigger] all[m]) != parts(list[j])
            };
        assert(paths@[k]@ == r@[j]@);
    }
    if 0 <= i < j < r@.len() {
        assert(list[i] == r@[i]@);
        assert(list[j] == r@[j]@);
        assert(sorts_before(parts(list[i]), parts(list[j])));
        lemma_sorts_irreflexive(parts(list[i]));
    }
}

/// Of two paths either one comes before the other, or they are the same; and the
/// order carries over from one path to the next.
pub proof fn law_paths_are_in_a_line(
    a: &str,
    b: &str,
    c: &str,
    ab: bool,
    ba: bool,
    bc: bool,
    ac: bool,
    same: bool,
)
    requires
        call_ensures(path_before, (a, b), ab),
        call_ensures(path_before, (b, a), ba),
        call_ensures(path_before, (b, c), bc),
        call_ensures(path_before, (a, c), ac),
        call_ensures(same_path, (a, b), same),
    ensures
        ab ==> !ba && !same,
        ba ==> !ab && !same,
        same ==> !ab && !ba,
        ab || ba || same,
        ab && bc ==> ac,
{
    lemma_sorts_irreflexive(parts(a@));
    lemma_sorts_irreflexive(parts(b@));
    lemma_sorts_total(parts(a@), parts(b@));
    if ab && bc {
        lemma_sorts_transitive(parts(a@), parts(b@), parts(c@));
    }
    if ab && ba {
        lemma_sorts_transitive(parts(a@), parts(b@), parts(a@));
    }
}

/// Cutting at a cut cuts what stands on either side on its own.
proof fn lemma_pieces_beside(a: Seq<char>, b: Seq<char>)
    ensures
        text::pieces(a.push('/') + b, Cut::At('/')) == text::pieces(a, Cut::At('/')) + text::pieces(
            b,
            Cut::At('/'),
        ),
    decreases b.len(),
{
    let cut = Cut::At('/');
    text::lemma_pieces_not_empty(b, cut);
    if b.len() == 0 {
        text::lemma_pieces_cut(a, '/', cut);
        assert(a.push('/') + b =~= a.push('/'));
        assert(text::pieces(a, cut) + text::pieces(b, cut) =~= text::pieces(a, cut).push(
            Seq::<char>::empty(),
        ));
    } else {
        let front = b.drop_last();
        let whole = a.push('/') + b;
        lemma_pieces_beside(a, front);
        text::lemma_pieces_not_empty(front, cut);
        assert(whole.drop_last() =~= a.push('/') + front);
        assert(whole.last() == b.last());
        let before = text::pieces(a, cut) + text::pieces(front, cut);
        if cut.cuts(b.last()) {
            assert(text::pieces(whole, cut) =~= text::pieces(a, cut) + text::pieces(b, cut));
        } else {
            assert(before.last() == text::pieces(front, cut).last());
            assert(text::pieces(whole, cut) =~= text::pieces(a, cut) + text::pieces(b, cut));
        }
    }
}

/// It makes no difference whether one slash or two stand between two names, nor
/// whether `.` stands between them, nor whether a slash ends the path.
pub proof fn law_needless_slashes_make_no_difference(
    plain: &str,
    other: &str,
    before: Seq<char>,
    after: Seq<char>,
    r: bool,
)
    requires
        before.len() > 0,
        plain@ == before.push('/') + after,
        other@ == before.push('/').push('/') + after || other@ == (before + "/."@).push('/')
            + after || after.len() == 0 && other@ == before,
        call_ensures(same_path, (plain, other), r),
    ensures
        r,
{
    reveal(parts);
    reveal_strlit("/.");
    reveal_strlit(".");
    let cut = Cut::At('/');
    let none = Seq::<char>::empty();
    let head = text::pieces(before, cut);
    let tail = text::pieces(after, cut);
    text::lemma_pieces_not_empty(before, cut);
    lemma_pieces_beside(before, after);
    if other@ == before.push('/').push('/') + after {
        lemma_pieces_beside(before.push('/'), after);
        lemma_pieces_beside(before, none);
        assert(before.push('/') + none =~= before.push('/'));
        lemma_dropped(head, none, tail);
        assert(text::pieces(other@, cut) =~= head.push(none) + tail);
    } else if other@ == (before + "/."@).push('/') + after {
        lemma_pieces_beside(before + "/."@, after);
        lemma_pieces_beside(before, "."@);
        assert(before.push('/') + "."@ =~= before + "/."@);
        lemma_one_piece("."@);
        lemma_dropped(head, "."@, tail);
        assert(text::pieces(other@, cut) =~= head.push("."@) + tail);
    } else {
        lemma_dropped(head, none, Seq::<Seq<char>>::empty());
        assert(text::pieces(plain@, cut) =~= head.push(none) + Seq::<Seq<char>>::empty());
        assert(text::pieces(other@, cut) =~= head + Seq::<Seq<char>>::empty());
    }
}

proof fn lemma_one_piece(s: Seq<char>)
    requires
        !s.contains('/'),
    ensures
        text::pieces(s, Cut::At('/')) == seq![s],
{
    assert forall|i: int| 0 <= i < s.len() implies !Cut::At('/').cuts(#[trigger] s[i]) by {
        assert(s.contains(s[i]));
    }
    text::law_the_first_piece_ends_at_the_first_cut(s, '/', s, Cut::At('/'));
}

/// A part that names nothing makes no difference.
proof fn lemma_dropped(head: Seq<Seq<char>>, part: Seq<char>, tail: Seq<Seq<char>>)
    requires
        part.len() == 0 || part == "."@,
    ensures
        naming(head.push(part) + tail) == naming(head + tail),
    decreases tail.len(),
{
    reveal(Seq::filter);
    if tail.len() == 0 {
        assert(head.push(part) + tail =~= head.push(part));
        assert(head + tail =~= head);
        assert(head.push(part).drop_last() =~= head);
    } else {
        let front = tail.drop_last();
        lemma_dropped(head, part, front);
        assert((head.push(part) + tail).drop_last() =~= head.push(part) + front);
        assert((head + tail).drop_last() =~= head + front);
    }
}

} // verus!

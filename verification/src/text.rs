//! Text as sequences of characters: trimming, splitting, searching, ordering,
//! and reading and writing decimal numbers.
//!
//! Every operation is stated over `Seq<char>`, the view of `str` and `String`,
//! so that the rest of the library can say exactly which text it produces.

use vstd::prelude::*;
use vstd::string::StrSliceExecFns;
use vstd::string::StringExecFns;

verus! {

/// `String::push` appends one character to the end of the string.
pub assume_specification[ String::push ](s: &mut String, c: char)
    ensures
        final(s)@ == old(s)@.push(c),
;

// --- Characters ---

/// Characters with the Unicode `White_Space` property.
pub open spec fn is_space(c: char) -> bool {
    ||| 0x09 <= c as u32 <= 0x0d
    ||| c as u32 == 0x20
    ||| c as u32 == 0x85
    ||| c as u32 == 0xa0
    ||| c as u32 == 0x1680
    ||| 0x2000 <= c as u32 <= 0x200a
    ||| c as u32 == 0x2028
    ||| c as u32 == 0x2029
    ||| c as u32 == 0x202f
    ||| c as u32 == 0x205f
    ||| c as u32 == 0x3000
}

/// Characters in the Unicode general category `Cc`.
pub open spec fn is_control(c: char) -> bool {
    c as u32 <= 0x1f || 0x7f <= c as u32 <= 0x9f
}

pub open spec fn is_digit(c: char) -> bool {
    '0' <= c <= '9'
}

/// The ASCII lowercase form of a character; everything else is unchanged.
pub open spec fn lower(c: char) -> char {
    if 'A' <= c <= 'Z' {
        ((c as u32 + 32) as u32) as char
    } else {
        c
    }
}

pub fn char_is_space(c: char) -> (r: bool)
    ensures
        r == is_space(c),
{
    let n: u32 = c as u32;
    (0x09 <= n && n <= 0x0d) || n == 0x20 || n == 0x85 || n == 0xa0 || n == 0x1680 || (0x2000 <= n
        && n <= 0x200a) || n == 0x2028 || n == 0x2029 || n == 0x202f || n == 0x205f || n == 0x3000
}

pub fn char_is_control(c: char) -> (r: bool)
    ensures
        r == is_control(c),
{
    let n: u32 = c as u32;
    n <= 0x1f || (0x7f <= n && n <= 0x9f)
}

pub fn char_is_digit(c: char) -> (r: bool)
    ensures
        r == is_digit(c),
{
    '0' <= c && c <= '9'
}

pub fn char_to_lower(c: char) -> (r: char)
    ensures
        r == lower(c),
{
    if 'A' <= c && c <= 'Z' {
        (c as u8 + 32) as char
    } else {
        c
    }
}

// --- Whole strings ---

pub fn chars_of(s: &str) -> (r: Vec<char>)
    ensures
        r@ == s@,
{
    let mut r: Vec<char> = Vec::new();
    for c in it: s.chars()
        invariant
            r@ == it.seq().take(it.index() as int),
    {
        r.push(c);
    }
    r
}

/// Whether two strings hold the same characters.
pub fn same(a: &str, b: &str) -> (r: bool)
    ensures
        r == (a@ == b@),
{
    let x: Vec<char> = chars_of(a);
    let y: Vec<char> = chars_of(b);
    if x.len() != y.len() {
        return false;
    }
    let mut i: usize = 0;
    while i < x.len()
        invariant
            i <= x@.len(),
            x@.len() == y@.len(),
            x@ == a@,
            y@ == b@,
            forall|j: int| 0 <= j < i ==> x@[j] == y@[j],
        decreases x@.len() - i,
    {
        if x[i] != y[i] {
            return false;
        }
        i = i + 1;
    }
    proof {
        assert(x@ =~= y@);
    }
    true
}

pub open spec fn lowered(s: Seq<char>) -> Seq<char> {
    s.map_values(|c: char| lower(c))
}

pub open spec fn is_ascii(s: Seq<char>) -> bool {
    forall|i: int| 0 <= i < s.len() ==> (#[trigger] s[i] as u32) < 128
}

/// Equality up to ASCII case.
pub open spec fn alike(a: Seq<char>, b: Seq<char>) -> bool {
    lowered(a) == lowered(b)
}

pub fn lowercase(s: &str) -> (r: String)
    ensures
        r@ == lowered(s@),
{
    let x: Vec<char> = chars_of(s);
    let mut r: String = String::new();
    let mut i: usize = 0;
    while i < x.len()
        invariant
            i <= x@.len(),
            x@ == s@,
            r@ == lowered(s@.take(i as int)),
        decreases x@.len() - i,
    {
        r.push(char_to_lower(x[i]));
        i = i + 1;
        proof {
            assert(lowered(s@.take(i as int)) =~= lowered(s@.take(i - 1)).push(lower(s@[i - 1])));
        }
    }
    proof {
        assert(s@.take(i as int) =~= s@);
    }
    r
}

pub fn same_ignoring_case(a: &str, b: &str) -> (r: bool)
    ensures
        r == alike(a@, b@),
{
    let x: String = lowercase(a);
    let y: String = lowercase(b);
    same(x.as_str(), y.as_str())
}

// --- Trimming ---

/// The text without its leading white space.
pub open spec fn trimmed_start(s: Seq<char>) -> Seq<char>
    decreases s.len(),
{
    if s.len() > 0 && is_space(s[0]) {
        trimmed_start(s.drop_first())
    } else {
        s
    }
}

/// The text without its trailing white space.
pub open spec fn trimmed_end(s: Seq<char>) -> Seq<char>
    decreases s.len(),
{
    if s.len() > 0 && is_space(s.last()) {
        trimmed_end(s.drop_last())
    } else {
        s
    }
}

pub open spec fn trimmed(s: Seq<char>) -> Seq<char> {
    trimmed_end(trimmed_start(s))
}

pub fn trim(s: &str) -> (r: &str)
    ensures
        r@ == trimmed(s@),
{
    let x: Vec<char> = chars_of(s);
    let n: usize = x.len();
    let mut from: usize = 0;
    proof {
        assert(s@.skip(0) =~= s@);
    }
    while from < n && char_is_space(x[from])
        invariant
            x@ == s@,
            n == x@.len(),
            from <= n,
            trimmed_start(s@) == trimmed_start(s@.skip(from as int)),
        decreases n - from,
    {
        proof {
            assert(s@.skip(from as int).drop_first() =~= s@.skip(from + 1));
        }
        from = from + 1;
    }
    let ghost rest = s@.skip(from as int);
    let mut to: usize = n;
    proof {
        assert(s@.subrange(from as int, to as int) =~= rest);
    }
    while to > from && char_is_space(x[to - 1])
        invariant
            x@ == s@,
            n == x@.len(),
            from <= to <= n,
            rest == s@.skip(from as int),
            trimmed_end(rest) == trimmed_end(s@.subrange(from as int, to as int)),
        decreases to,
    {
        proof {
            assert(s@.subrange(from as int, to as int).drop_last() =~= s@.subrange(
                from as int,
                to - 1,
            ));
        }
        to = to - 1;
    }
    s.substring_char(from, to)
}

// --- Prefixes, suffixes and searching ---

pub open spec fn begins(s: Seq<char>, prefix: Seq<char>) -> bool {
    prefix.len() <= s.len() && s.take(prefix.len() as int) == prefix
}

pub open spec fn finishes(s: Seq<char>, suffix: Seq<char>) -> bool {
    suffix.len() <= s.len() && s.skip(s.len() - suffix.len()) == suffix
}

/// Whether `pattern` occurs in `s` at position `i`.
pub open spec fn occurs_at(s: Seq<char>, pattern: Seq<char>, i: int) -> bool {
    0 <= i && i + pattern.len() <= s.len() && s.subrange(i, i + pattern.len()) == pattern
}

/// The leftmost occurrence of `pattern` in `s`.
pub open spec fn leftmost(s: Seq<char>, pattern: Seq<char>, at: Option<int>) -> bool {
    match at {
        Some(i) => occurs_at(s, pattern, i) && forall|j: int|
            0 <= j < i ==> !occurs_at(s, pattern, j),
        None => forall|j: int| !occurs_at(s, pattern, j),
    }
}

pub open spec fn includes(s: Seq<char>, pattern: Seq<char>) -> bool {
    exists|i: int| occurs_at(s, pattern, i)
}

fn matches_at(s: &Vec<char>, pattern: &Vec<char>, at: usize) -> (r: bool)
    ensures
        r == occurs_at(s@, pattern@, at as int),
{
    if pattern.len() > s.len() || at > s.len() - pattern.len() {
        return false;
    }
    let mut k: usize = 0;
    while k < pattern.len()
        invariant
            k <= pattern@.len(),
            at + pattern@.len() <= s@.len(),
            s@.len() <= usize::MAX,
            forall|j: int| 0 <= j < k ==> s@[at + j] == pattern@[j],
        decreases pattern@.len() - k,
    {
        if s[at + k] != pattern[k] {
            proof {
                assert(s@.subrange(at as int, at + pattern@.len())[k as int] != pattern@[k as int]);
            }
            return false;
        }
        k = k + 1;
    }
    proof {
        assert(s@.subrange(at as int, at + pattern@.len()) =~= pattern@);
    }
    true
}

/// Position, in characters, of the leftmost occurrence of `pattern`.
pub fn find(s: &str, pattern: &str) -> (r: Option<usize>)
    ensures
        leftmost(
            s@,
            pattern@,
            match r {
                Some(i) => Some(i as int),
                None => None,
            },
        ),
{
    let x: Vec<char> = chars_of(s);
    let p: Vec<char> = chars_of(pattern);
    if p.len() > x.len() {
        return None;
    }
    let last: usize = x.len() - p.len();
    let mut i: usize = 0;
    while i <= last
        invariant
            x@ == s@,
            p@ == pattern@,
            last + p@.len() == x@.len(),
            i <= last + 1,
            x@.len() <= usize::MAX,
            forall|j: int| 0 <= j < i ==> !occurs_at(s@, pattern@, j),
        decreases last + 1 - i,
    {
        if matches_at(&x, &p, i) {
            return Some(i);
        }
        if i == last {
            return None;
        }
        i = i + 1;
    }
    None
}

pub fn contains(s: &str, pattern: &str) -> (r: bool)
    ensures
        r == includes(s@, pattern@),
{
    match find(s, pattern) {
        Some(_) => true,
        None => false,
    }
}

pub fn starts_with(s: &str, prefix: &str) -> (r: bool)
    ensures
        r == begins(s@, prefix@),
{
    let x: Vec<char> = chars_of(s);
    let p: Vec<char> = chars_of(prefix);
    proof {
        if p@.len() <= x@.len() {
            assert(s@.take(p@.len() as int) =~= s@.subrange(0, p@.len() as int));
        }
    }
    matches_at(&x, &p, 0)
}

pub fn ends_with(s: &str, suffix: &str) -> (r: bool)
    ensures
        r == finishes(s@, suffix@),
{
    let x: Vec<char> = chars_of(s);
    let p: Vec<char> = chars_of(suffix);
    if p.len() > x.len() {
        return false;
    }
    let at: usize = x.len() - p.len();
    proof {
        assert(s@.skip(at as int) =~= s@.subrange(at as int, at + p@.len()));
    }
    matches_at(&x, &p, at)
}

/// What follows `prefix`, when the text begins with it.
pub fn strip_prefix<'a>(s: &'a str, prefix: &str) -> (r: Option<&'a str>)
    ensures
        match r {
            Some(rest) => begins(s@, prefix@) && rest@ == s@.skip(prefix@.len() as int),
            None => !begins(s@, prefix@),
        },
{
    if starts_with(s, prefix) {
        let from: usize = prefix.unicode_len();
        let to: usize = s.unicode_len();
        proof {
            assert(s@.subrange(from as int, to as int) =~= s@.skip(from as int));
        }
        Some(s.substring_char(from, to))
    } else {
        None
    }
}

/// What precedes `suffix`, when the text ends with it.
pub fn strip_suffix<'a>(s: &'a str, suffix: &str) -> (r: Option<&'a str>)
    ensures
        match r {
            Some(rest) => finishes(s@, suffix@) && rest@ == s@.take(s@.len() - suffix@.len()),
            None => !finishes(s@, suffix@),
        },
{
    if ends_with(s, suffix) {
        let to: usize = s.unicode_len() - suffix.unicode_len();
        proof {
            assert(s@.subrange(0, to as int) =~= s@.take(to as int));
        }
        Some(s.substring_char(0, to))
    } else {
        None
    }
}

// --- Stripping single characters ---

pub open spec fn without_leading(s: Seq<char>, c: char) -> Seq<char>
    decreases s.len(),
{
    if s.len() > 0 && s[0] == c {
        without_leading(s.drop_first(), c)
    } else {
        s
    }
}

pub open spec fn without_trailing(s: Seq<char>, c: char) -> Seq<char>
    decreases s.len(),
{
    if s.len() > 0 && s.last() == c {
        without_trailing(s.drop_last(), c)
    } else {
        s
    }
}

pub fn strip_leading(s: &str, c: char) -> (r: &str)
    ensures
        r@ == without_leading(s@, c),
{
    let x: Vec<char> = chars_of(s);
    let n: usize = x.len();
    let mut from: usize = 0;
    proof {
        assert(s@.skip(0) =~= s@);
    }
    while from < n && x[from] == c
        invariant
            x@ == s@,
            n == x@.len(),
            from <= n,
            without_leading(s@, c) == without_leading(s@.skip(from as int), c),
        decreases n - from,
    {
        proof {
            assert(s@.skip(from as int).drop_first() =~= s@.skip(from + 1));
        }
        from = from + 1;
    }
    proof {
        assert(s@.subrange(from as int, n as int) =~= s@.skip(from as int));
    }
    s.substring_char(from, n)
}

pub fn strip_trailing(s: &str, c: char) -> (r: &str)
    ensures
        r@ == without_trailing(s@, c),
{
    let x: Vec<char> = chars_of(s);
    let n: usize = x.len();
    let mut to: usize = n;
    proof {
        assert(s@.take(n as int) =~= s@);
    }
    while to > 0 && x[to - 1] == c
        invariant
            x@ == s@,
            n == x@.len(),
            to <= n,
            without_trailing(s@, c) == without_trailing(s@.take(to as int), c),
        decreases to,
    {
        proof {
            assert(s@.take(to as int).drop_last() =~= s@.take(to - 1));
        }
        to = to - 1;
    }
    proof {
        assert(s@.subrange(0, to as int) =~= s@.take(to as int));
    }
    s.substring_char(0, to)
}

// --- Splitting ---

/// Where a text is cut into pieces.
#[derive(Clone, Copy, Debug, PartialEq, Eq, Structural)]
pub enum Cut {
    At(char),
    Either(char, char),
    Space,
}

impl Cut {
    pub open spec fn cuts(self, c: char) -> bool {
        match self {
            Cut::At(a) => c == a,
            Cut::Either(a, b) => c == a || c == b,
            Cut::Space => is_space(c),
        }
    }

    fn is_cut(self, c: char) -> (r: bool)
        ensures
            r == self.cuts(c),
    {
        match self {
            Cut::At(a) => c == a,
            Cut::Either(a, b) => c == a || c == b,
            Cut::Space => char_is_space(c),
        }
    }
}

/// The pieces of `s` between cuts: one more than there are cuts, empty ones
/// included.
pub open spec fn pieces(s: Seq<char>, cut: Cut) -> Seq<Seq<char>>
    decreases s.len(),
{
    if s.len() == 0 {
        seq![Seq::<char>::empty()]
    } else {
        let before = pieces(s.drop_last(), cut);
        if cut.cuts(s.last()) {
            before.push(Seq::<char>::empty())
        } else {
            before.drop_last().push(before.last().push(s.last()))
        }
    }
}

/// The pieces that are not empty.
pub open spec fn solid(parts: Seq<Seq<char>>) -> Seq<Seq<char>> {
    parts.filter(|p: Seq<char>| p.len() > 0)
}

/// The words of a text: its pieces between runs of white space.
pub open spec fn words_of(s: Seq<char>) -> Seq<Seq<char>> {
    solid(pieces(s, Cut::Space))
}

/// The characters of each string of a list.
pub open spec fn views(list: Seq<String>) -> Seq<Seq<char>> {
    list.map_values(|s: String| s@)
}

pub proof fn lemma_pieces_not_empty(s: Seq<char>, cut: Cut)
    ensures
        pieces(s, cut).len() > 0,
    decreases s.len(),
{
    if s.len() > 0 {
        lemma_pieces_not_empty(s.drop_last(), cut);
    }
}

pub fn split(s: &str, cut: Cut) -> (r: Vec<String>)
    ensures
        views(r@) == pieces(s@, cut),
        r@.len() > 0,
{
    let x: Vec<char> = chars_of(s);
    let mut done: Vec<String> = Vec::new();
    let mut current: String = String::new();
    let mut i: usize = 0;
    proof {
        assert(views(done@).push(current@) =~= pieces(s@.take(0), cut));
    }
    while i < x.len()
        invariant
            x@ == s@,
            i <= x@.len(),
            views(done@).push(current@) == pieces(s@.take(i as int), cut),
        decreases x@.len() - i,
    {
        let ghost before = views(done@).push(current@);
        let ghost piece = current@;
        let ghost earlier = done@;
        proof {
            assert(s@.take(i + 1).drop_last() =~= s@.take(i as int));
            assert(before.drop_last() =~= views(earlier));
        }
        if cut.is_cut(x[i]) {
            done.push(current);
            current = String::new();
            proof {
                assert(views(done@) =~= views(earlier).push(piece));
            }
        } else {
            current.push(x[i]);
        }
        i = i + 1;
    }
    let ghost earlier = done@;
    let ghost piece = current@;
    done.push(current);
    proof {
        assert(s@.take(i as int) =~= s@);
        assert(views(done@) =~= views(earlier).push(piece));
    }
    done
}

pub fn words(s: &str) -> (r: Vec<String>)
    ensures
        views(r@) == words_of(s@),
{
    let parts: Vec<String> = split(s, Cut::Space);
    let mut r: Vec<String> = Vec::new();
    let mut i: usize = 0;
    let ghost all = pieces(s@, Cut::Space);
    proof {
        reveal(Seq::filter);
        assert(views(r@) =~= solid(all.take(0)));
    }
    while i < parts.len()
        invariant
            views(parts@) == all,
            all == pieces(s@, Cut::Space),
            i <= parts@.len(),
            views(r@) == solid(all.take(i as int)),
        decreases parts@.len() - i,
    {
        let ghost earlier = r@;
        proof {
            reveal(Seq::filter);
            assert(all.take(i + 1).drop_last() =~= all.take(i as int));
            assert(all.len() == parts@.len());
            assert(all[i as int] == parts@[i as int]@);
            assert(all.take(i + 1).last() == parts@[i as int]@);
        }
        if !parts[i].as_str().is_empty() {
            r.push(parts[i].clone());
            proof {
                assert(views(r@) =~= views(earlier).push(parts@[i as int]@));
            }
        }
        i = i + 1;
    }
    proof {
        assert(all.take(i as int) =~= all);
    }
    r
}

/// A line without the carriage return that ends it, if one does.
pub open spec fn without_return(line: Seq<char>) -> Seq<char> {
    if line.len() > 0 && line.last() == '\r' {
        line.drop_last()
    } else {
        line
    }
}

/// The lines of a text. What follows the last line feed is a line of its own
/// only if there is something.
pub open spec fn lines_of(s: Seq<char>) -> Seq<Seq<char>> {
    let parts = pieces(s, Cut::At('\n'));
    let ended = parts.drop_last().map_values(|line: Seq<char>| without_return(line));
    if parts.last().len() == 0 {
        ended
    } else {
        ended.push(parts.last())
    }
}

pub fn lines(s: &str) -> (r: Vec<String>)
    ensures
        views(r@) == lines_of(s@),
{
    let parts: Vec<String> = split(s, Cut::At('\n'));
    let last: usize = parts.len() - 1;
    let ghost all = pieces(s@, Cut::At('\n'));
    let ghost ended = all.drop_last().map_values(|line: Seq<char>| without_return(line));
    let mut r: Vec<String> = Vec::new();
    let mut i: usize = 0;
    proof {
        assert(all.len() == parts@.len());
        assert(views(r@) =~= ended.take(0));
    }
    while i < last
        invariant
            views(parts@) == all,
            last == parts@.len() - 1,
            i <= last,
            ended == all.drop_last().map_values(|line: Seq<char>| without_return(line)),
            views(r@) == ended.take(i as int),
        decreases last - i,
    {
        let line: &str = parts[i].as_str();
        let n: usize = line.unicode_len();
        let kept: &str = if n > 0 && line.get_char(n - 1) == '\r' {
            line.substring_char(0, n - 1)
        } else {
            line
        };
        proof {
            assert(all[i as int] == line@);
            assert(kept@ =~= without_return(line@));
            assert(kept@ == ended[i as int]);
        }
        push_text(&mut r, kept);
        i = i + 1;
        proof {
            assert(ended.take(i as int) =~= ended.take(i - 1).push(ended[i - 1]));
        }
    }
    proof {
        assert(all[last as int] == parts@[last as int]@);
        assert(ended.take(i as int) =~= ended);
    }
    if !parts[last].as_str().is_empty() {
        push_text(&mut r, parts[last].as_str());
    }
    r
}

/// Piece number `n` of a text, counting from zero.
pub open spec fn piece_of(s: Seq<char>, cut: Cut, n: int) -> Option<Seq<char>> {
    if 0 <= n < pieces(s, cut).len() {
        Some(pieces(s, cut)[n])
    } else {
        None
    }
}

pub fn piece(s: &str, cut: Cut, n: usize) -> (r: Option<String>)
    ensures
        match r {
            Some(t) => piece_of(s@, cut, n as int) == Some(t@),
            None => piece_of(s@, cut, n as int) is None,
        },
{
    let parts: Vec<String> = split(s, cut);
    proof {
        assert(views(parts@).len() == parts@.len());
    }
    if n < parts.len() {
        proof {
            assert(views(parts@)[n as int] == parts@[n as int]@);
        }
        Some(parts[n].clone())
    } else {
        None
    }
}

// --- Joining ---

/// The pieces of a list with `separator` between them.
pub open spec fn joined(list: Seq<Seq<char>>, separator: Seq<char>) -> Seq<char>
    decreases list.len(),
{
    if list.len() == 0 {
        Seq::empty()
    } else if list.len() == 1 {
        list[0]
    } else {
        joined(list.drop_last(), separator) + separator + list.last()
    }
}

pub fn join(list: &[String], separator: &str) -> (r: String)
    ensures
        r@ == joined(views(list@), separator@),
{
    let mut r: String = String::new();
    let mut i: usize = 0;
    let ghost all = views(list@);
    while i < list.len()
        invariant
            all == views(list@),
            i <= list@.len(),
            r@ == joined(all.take(i as int), separator@),
        decreases list@.len() - i,
    {
        proof {
            assert(all.take(i + 1).drop_last() =~= all.take(i as int));
            assert(all.take(i + 1).last() == list@[i as int]@);
        }
        if i > 0 {
            r.append(separator);
        }
        r.append(list[i].as_str());
        i = i + 1;
        proof {
            assert(r@ =~= joined(all.take(i as int), separator@));
        }
    }
    proof {
        assert(all.take(i as int) =~= all);
    }
    r
}

/// Adds a text to a list.
pub fn push_text(list: &mut Vec<String>, t: &str)
    ensures
        views(final(list)@) == views(old(list)@).push(t@),
{
    list.push(t.to_owned());
    proof {
        assert(views(list@) =~= views(old(list)@).push(t@));
    }
}

/// Three texts in a row.
pub fn concat3(a: &str, b: &str, c: &str) -> (r: String)
    ensures
        r@ == a@ + b@ + c@,
{
    let mut r: String = a.to_owned();
    r.append(b);
    r.append(c);
    r
}

/// Five texts in a row.
pub fn concat5(a: &str, b: &str, c: &str, d: &str, e: &str) -> (r: String)
    ensures
        r@ == a@ + b@ + c@ + d@ + e@,
{
    let mut r: String = concat3(a, b, c);
    r.append(d);
    r.append(e);
    r
}

// --- Padding ---

pub open spec fn spaces(n: int) -> Seq<char> {
    Seq::new(
        if n > 0 {
            n as nat
        } else {
            0
        },
        |i: int| ' ',
    )
}

/// `s` followed by as many spaces as bring it to `width` characters.
pub open spec fn left_aligned(s: Seq<char>, width: int) -> Seq<char> {
    s + spaces(width - s.len())
}

/// `s` preceded by as many spaces as bring it to `width` characters.
pub open spec fn right_aligned(s: Seq<char>, width: int) -> Seq<char> {
    spaces(width - s.len()) + s
}

fn blank(n: usize) -> (r: String)
    ensures
        r@ == spaces(n as int),
{
    let mut r: String = String::new();
    let mut i: usize = 0;
    while i < n
        invariant
            i <= n,
            r@ == spaces(i as int),
        decreases n - i,
    {
        r.push(' ');
        i = i + 1;
        proof {
            assert(spaces(i as int) =~= spaces(i - 1).push(' '));
        }
    }
    r
}

pub fn pad_right(s: &str, width: usize) -> (r: String)
    ensures
        r@ == left_aligned(s@, width as int),
{
    let n: usize = s.unicode_len();
    let mut r: String = s.to_owned();
    if n < width {
        r.append(blank(width - n).as_str());
    }
    proof {
        assert(r@ =~= left_aligned(s@, width as int));
    }
    r
}

pub fn pad_left(s: &str, width: usize) -> (r: String)
    ensures
        r@ == right_aligned(s@, width as int),
{
    let n: usize = s.unicode_len();
    if n < width {
        let mut r: String = blank(width - n);
        r.append(s);
        r
    } else {
        proof {
            assert(s@ =~= right_aligned(s@, width as int));
        }
        s.to_owned()
    }
}

// --- Ordering ---

/// Lexicographic order by code point, which is how strings are sorted.
pub open spec fn precedes(a: Seq<char>, b: Seq<char>) -> bool
    decreases b.len(),
{
    if b.len() == 0 {
        false
    } else if a.len() == 0 {
        true
    } else if a[0] != b[0] {
        a[0] < b[0]
    } else {
        precedes(a.drop_first(), b.drop_first())
    }
}

pub fn before(a: &str, b: &str) -> (r: bool)
    ensures
        r == precedes(a@, b@),
{
    let x: Vec<char> = chars_of(a);
    let y: Vec<char> = chars_of(b);
    let mut i: usize = 0;
    proof {
        assert(a@.skip(0) =~= a@);
        assert(b@.skip(0) =~= b@);
    }
    while i < x.len() && i < y.len()
        invariant
            x@ == a@,
            y@ == b@,
            i <= x@.len(),
            i <= y@.len(),
            precedes(a@, b@) == precedes(a@.skip(i as int), b@.skip(i as int)),
        decreases x@.len() - i,
    {
        if x[i] != y[i] {
            return x[i] < y[i];
        }
        proof {
            assert(a@.skip(i as int).drop_first() =~= a@.skip(i + 1));
            assert(b@.skip(i as int).drop_first() =~= b@.skip(i + 1));
        }
        i = i + 1;
    }
    i < y.len()
}

/// No string precedes itself.
pub proof fn lemma_precedes_irreflexive(a: Seq<char>)
    ensures
        !precedes(a, a),
    decreases a.len(),
{
    if a.len() > 0 {
        lemma_precedes_irreflexive(a.drop_first());
    }
}

pub proof fn lemma_precedes_transitive(a: Seq<char>, b: Seq<char>, c: Seq<char>)
    requires
        precedes(a, b),
        precedes(b, c),
    ensures
        precedes(a, c),
    decreases a.len(),
{
    if a.len() > 0 && a[0] == b[0] && b[0] == c[0] {
        lemma_precedes_transitive(a.drop_first(), b.drop_first(), c.drop_first());
    }
}

/// Of two different strings, exactly one precedes the other.
pub proof fn lemma_precedes_total(a: Seq<char>, b: Seq<char>)
    ensures
        a != b ==> precedes(a, b) || precedes(b, a),
        precedes(a, b) ==> !precedes(b, a),
        precedes(a, b) ==> a != b,
    decreases a.len(),
{
    if a.len() > 0 && b.len() > 0 && a[0] == b[0] {
        lemma_precedes_total(a.drop_first(), b.drop_first());
        if a.drop_first() == b.drop_first() {
            assert(a =~= seq![a[0]] + a.drop_first());
            assert(b =~= seq![b[0]] + b.drop_first());
        }
    } else if a.len() == 0 && b.len() == 0 {
        assert(a =~= b);
    }
}

// --- Quoting ---

/// The text in double quotes with everything unprintable escaped, the way the
/// `Debug` form of a string shows it.
pub uninterp spec fn quoted(s: Seq<char>) -> Seq<char>;

/// Formats with the standard library's `Debug` for `str`. Only that the result
/// is a function of the text is claimed: which characters are escaped, and how,
/// follows the standard library's Unicode tables.
#[verifier::external_body]
pub(crate) fn quote(s: &str) -> (r: String)
    ensures
        r@ == quoted(s@),
{
    format!("{:?}", s)
}

// --- Numbers ---

pub open spec fn digit(d: nat) -> char {
    ((48 + d) as u32) as char
}

/// A number in decimal, without leading zeros.
pub open spec fn decimal(n: nat) -> Seq<char>
    decreases n,
{
    if n < 10 {
        seq![digit(n)]
    } else {
        decimal(n / 10).push(digit(n % 10))
    }
}

pub open spec fn decimal_int(n: int) -> Seq<char> {
    if n < 0 {
        seq!['-'] + decimal((-n) as nat)
    } else {
        decimal(n as nat)
    }
}

pub open spec fn all_digits(s: Seq<char>) -> bool {
    forall|i: int| 0 <= i < s.len() ==> is_digit(#[trigger] s[i])
}

/// The number that a row of decimal digits stands for.
pub open spec fn digits_value(s: Seq<char>) -> nat
    decreases s.len(),
{
    if s.len() == 0 {
        0
    } else {
        10 * digits_value(s.drop_last()) + (s.last() as u32 - 48) as nat
    }
}

/// How an unsigned number is read: an optional `+`, then digits and nothing
/// else, for a value of at most `max`.
pub open spec fn parsed_nat(s: Seq<char>, max: nat) -> Option<nat> {
    let digits = if s.len() > 0 && s[0] == '+' {
        s.drop_first()
    } else {
        s
    };
    if digits.len() > 0 && all_digits(digits) && digits_value(digits) <= max {
        Some(digits_value(digits))
    } else {
        None
    }
}

/// How a signed number is read: an optional `+` or `-`, then digits and
/// nothing else, for a value within `min..=max`.
pub open spec fn parsed_int(s: Seq<char>, min: int, max: nat) -> Option<int> {
    if s.len() > 0 && s[0] == '-' {
        let digits = s.drop_first();
        if digits.len() > 0 && all_digits(digits) && -(digits_value(digits) as int) >= min {
            Some(-(digits_value(digits) as int))
        } else {
            None
        }
    } else {
        match parsed_nat(s, max) {
            Some(n) => Some(n as int),
            None => None,
        }
    }
}

pub fn decimal_of(n: u64) -> (r: String)
    ensures
        r@ == decimal(n as nat),
    decreases n,
{
    let d: u8 = (n % 10) as u8;
    let c: char = (48 + d) as char;
    if n < 10 {
        let mut r: String = String::new();
        r.push(c);
        proof {
            assert(r@ =~= decimal(n as nat));
        }
        r
    } else {
        let mut r: String = decimal_of(n / 10);
        r.push(c);
        r
    }
}

pub fn decimal_of_int(n: i64) -> (r: String)
    ensures
        r@ == decimal_int(n as int),
{
    if n < 0 {
        let mut r: String = String::new();
        r.push('-');
        proof {
            assert(r@ =~= seq!['-']);
        }
        let magnitude: u64 = if n == i64::MIN {
            9223372036854775808u64
        } else {
            (-n) as u64
        };
        r.append(decimal_of(magnitude).as_str());
        r
    } else {
        decimal_of(n as u64)
    }
}

/// Reads the digits from position `from` on.
fn read_digits(x: &Vec<char>, from: usize, max: u64) -> (r: Option<u64>)
    requires
        from <= x@.len(),
    ensures
        ({
            let digits = x@.skip(from as int);
            match r {
                Some(n) => digits.len() > 0 && all_digits(digits) && digits_value(digits) == n && n
                    <= max,
                None => !(digits.len() > 0 && all_digits(digits) && digits_value(digits) <= max),
            }
        }),
{
    let ghost digits = x@.skip(from as int);
    if from == x.len() {
        return None;
    }
    let mut value: u64 = 0;
    let mut over: bool = false;
    let mut i: usize = from;
    while i < x.len()
        invariant
            from <= i <= x@.len(),
            digits == x@.skip(from as int),
            all_digits(digits.take(i - from)),
            over ==> digits_value(digits.take(i - from)) > max,
            !over ==> digits_value(digits.take(i - from)) == value && value <= max,
        decreases x@.len() - i,
    {
        let c: char = x[i];
        if !char_is_digit(c) {
            proof {
                assert(digits[i - from] == c);
            }
            return None;
        }
        proof {
            let now = digits.take(i + 1 - from);
            assert(now.drop_last() =~= digits.take(i - from));
            assert(now.last() == c);
            assert forall|j: int| 0 <= j < now.len() implies is_digit(#[trigger] now[j]) by {
                if j < i - from {
                    assert(digits.take(i - from)[j] == now[j]);
                }
            }
        }
        if !over {
            let d: u64 = (c as u32 - 48) as u64;
            let wide: u128 = 10 * (value as u128) + (d as u128);
            if wide > max as u128 {
                over = true;
            } else {
                value = wide as u64;
            }
        }
        i = i + 1;
    }
    proof {
        assert(digits.take(i - from) =~= digits);
    }
    if over {
        None
    } else {
        Some(value)
    }
}

/// Reads an unsigned number of at most `max`.
pub fn parse_nat(s: &str, max: u64) -> (r: Option<u64>)
    ensures
        match r {
            Some(n) => parsed_nat(s@, max as nat) == Some(n as nat) && n <= max,
            None => parsed_nat(s@, max as nat) is None,
        },
{
    let x: Vec<char> = chars_of(s);
    proof {
        assert(s@.skip(0) =~= s@);
        if s@.len() > 0 {
            assert(s@.skip(1) =~= s@.drop_first());
        }
    }
    if x.len() > 0 && x[0] == '+' {
        read_digits(&x, 1, max)
    } else {
        read_digits(&x, 0, max)
    }
}

pub fn parse_u32(s: &str) -> (r: Option<u32>)
    ensures
        match r {
            Some(n) => parsed_nat(s@, u32::MAX as nat) == Some(n as nat),
            None => parsed_nat(s@, u32::MAX as nat) is None,
        },
{
    match parse_nat(s, u32::MAX as u64) {
        Some(n) => Some(n as u32),
        None => None,
    }
}

pub fn parse_i32(s: &str) -> (r: Option<i32>)
    ensures
        match r {
            Some(n) => parsed_int(s@, i32::MIN as int, i32::MAX as nat) == Some(n as int),
            None => parsed_int(s@, i32::MIN as int, i32::MAX as nat) is None,
        },
{
    let x: Vec<char> = chars_of(s);
    if x.len() > 0 && x[0] == '-' {
        proof {
            assert(s@.skip(1) =~= s@.drop_first());
        }
        match read_digits(&x, 1, 2147483648u64) {
            Some(n) => Some((0i64 - (n as i64)) as i32),
            None => None,
        }
    } else {
        match parse_nat(s, i32::MAX as u64) {
            Some(n) => Some(n as i32),
            None => None,
        }
    }
}

pub proof fn lemma_decimal_shape(n: nat)
    ensures
        decimal(n).len() > 0,
        all_digits(decimal(n)),
        digits_value(decimal(n)) == n,
    decreases n,
{
    if n < 10 {
        let s = decimal(n);
        assert(s.drop_last() =~= Seq::<char>::empty());
        assert(digits_value(s.drop_last()) == 0);
    } else {
        lemma_decimal_shape(n / 10);
        let s = decimal(n);
        assert(s.drop_last() =~= decimal(n / 10));
        assert(s.last() == digit(n % 10));
        assert forall|i: int| 0 <= i < s.len() implies is_digit(#[trigger] s[i]) by {
            if i < s.len() - 1 {
                assert(decimal(n / 10)[i] == s[i]);
            }
        }
    }
}

/// Reading back a number that was written in decimal gives that number.
pub proof fn law_decimal_reads_back(n: nat, max: nat)
    requires
        n <= max,
    ensures
        parsed_nat(decimal(n), max) == Some(n),
{
    lemma_decimal_shape(n);
    assert(is_digit(decimal(n)[0]));
}

/// The same for signed numbers.
pub proof fn law_decimal_int_reads_back(n: int, min: int, max: nat)
    requires
        min <= n <= max,
    ensures
        parsed_int(decimal_int(n), min, max) == Some(n),
{
    if n < 0 {
        lemma_decimal_shape((-n) as nat);
        assert(decimal_int(n).drop_first() =~= decimal((-n) as nat));
    } else {
        law_decimal_reads_back(n as nat, max);
        lemma_decimal_shape(n as nat);
        assert(is_digit(decimal(n as nat)[0]));
    }
}

/// A number in decimal has no white space to trim.
pub proof fn law_decimal_is_trimmed(n: nat)
    ensures
        trimmed(decimal(n)) == decimal(n),
{
    lemma_decimal_shape(n);
    let s = decimal(n);
    assert(is_digit(s[0]));
    assert(is_digit(s[s.len() - 1]));
}

/// What follows the last cut goes on with a text that holds no cut.
pub proof fn lemma_pieces_extend(a: Seq<char>, b: Seq<char>, cut: Cut)
    requires
        forall|i: int| 0 <= i < b.len() ==> !cut.cuts(#[trigger] b[i]),
    ensures
        pieces(a + b, cut) == pieces(a, cut).drop_last().push(pieces(a, cut).last() + b),
    decreases b.len(),
{
    lemma_pieces_not_empty(a, cut);
    if b.len() == 0 {
        assert(a + b =~= a);
        assert(pieces(a, cut).last() + b =~= pieces(a, cut).last());
        assert(pieces(a, cut) =~= pieces(a, cut).drop_last().push(pieces(a, cut).last()));
    } else {
        let c = b.last();
        lemma_pieces_extend(a, b.drop_last(), cut);
        assert((a + b).drop_last() =~= a + b.drop_last());
        assert((a + b).last() == c);
        assert(!cut.cuts(b[b.len() - 1]));
        let before = pieces(a + b.drop_last(), cut);
        assert(before.drop_last() =~= pieces(a, cut).drop_last());
        assert((pieces(a, cut).last() + b.drop_last()).push(c) =~= pieces(a, cut).last() + b);
    }
}

/// Texts that do not hold the separator come back apart as they were put
/// together.
pub proof fn law_joined_texts_split_again(list: Seq<Seq<char>>, separator: char)
    requires
        list.len() > 0,
        forall|i: int, j: int|
            0 <= i < list.len() && 0 <= j < list[i].len() ==> #[trigger] list[i][j] != separator,
    ensures
        pieces(joined(list, seq![separator]), Cut::At(separator)) == list,
    decreases list.len(),
{
    let cut = Cut::At(separator);
    let last = list.last();
    assert forall|j: int| 0 <= j < last.len() implies !cut.cuts(#[trigger] last[j]) by {
        assert(list[list.len() - 1][j] != separator);
    }
    let none = Seq::<char>::empty();
    if list.len() == 1 {
        lemma_pieces_extend(none, last, cut);
        assert(none + last =~= last);
        assert(pieces(none, cut) =~= seq![none]);
        assert(seq![none].drop_last().push(none + last) =~= list);
    } else {
        let front = list.drop_last();
        assert forall|i: int, j: int|
            0 <= i < front.len() && 0 <= j < front[i].len() implies #[trigger] front[i][j]
            != separator by {
            assert(list[i][j] != separator);
        }
        law_joined_texts_split_again(front, separator);
        let head = joined(front, seq![separator]);
        let cut_head = head + seq![separator];
        assert(cut_head.drop_last() =~= head);
        assert(cut_head.last() == separator);
        assert(pieces(cut_head, cut) == front.push(none));
        lemma_pieces_extend(cut_head, last, cut);
        assert(front.push(none).drop_last() =~= front);
        assert(none + last =~= last);
        assert(front.push(last) =~= list);
    }
}

/// A cut ends a piece and begins an empty one.
pub proof fn lemma_pieces_cut(s: Seq<char>, c: char, cut: Cut)
    requires
        cut.cuts(c),
    ensures
        pieces(s.push(c), cut) == pieces(s, cut).push(Seq::<char>::empty()),
{
    assert(s.push(c).drop_last() =~= s);
}

/// What follows changes no piece but the last.
proof fn lemma_pieces_stay(a: Seq<char>, b: Seq<char>, cut: Cut, i: int)
    requires
        0 <= i < pieces(a, cut).len() - 1,
    ensures
        pieces(a, cut).len() <= pieces(a + b, cut).len(),
        pieces(a + b, cut)[i] == pieces(a, cut)[i],
    decreases b.len(),
{
    if b.len() == 0 {
        assert(a + b =~= a);
    } else {
        lemma_pieces_stay(a, b.drop_last(), cut, i);
        assert((a + b).drop_last() =~= a + b.drop_last());
    }
}

/// A line between two line feeds is one of the lines of the text.
pub proof fn law_a_line_is_among_the_lines(before: Seq<char>, line: Seq<char>, after: Seq<char>)
    requires
        !line.contains('\n'),
        !line.contains('\r'),
    ensures
        lines_of(before.push('\n') + line.push('\n') + after).contains(line),
{
    let cut = Cut::At('\n');
    let head = before.push('\n');
    let body = head + line;
    let upto = head + line.push('\n');
    let all = upto + after;
    let at = pieces(before, cut).len() as int;
    lemma_pieces_cut(before, '\n', cut);
    assert forall|i: int| 0 <= i < line.len() implies !cut.cuts(#[trigger] line[i]) by {
        assert(line.contains(line[i]));
    }
    lemma_pieces_extend(head, line, cut);
    assert(upto =~= body.push('\n'));
    lemma_pieces_cut(body, '\n', cut);
    assert(Seq::<char>::empty() + line =~= line);
    assert(pieces(upto, cut)[at] == line);
    lemma_pieces_stay(upto, after, cut, at);
    if line.len() > 0 {
        assert(line.contains(line[line.len() - 1]));
    }
    assert(without_return(line) == line);
    assert(lines_of(all)[at] == line);
}

/// Trimming takes away the line feed behind a number.
pub proof fn lemma_trimmed_number_line(n: int)
    ensures
        trimmed(decimal_int(n).push('\n')) == decimal_int(n),
{
    let s = decimal_int(n);
    if n < 0 {
        lemma_decimal_shape((-n) as nat);
        assert(s.last() == decimal((-n) as nat).last());
    } else {
        lemma_decimal_shape(n as nat);
    }
    let line = s.push('\n');
    assert(is_digit(s[s.len() - 1]));
    assert(s[0] == '-' || is_digit(s[0]));
    assert(line[0] == s[0]);
    assert(trimmed_start(line) == line);
    assert(line.drop_last() =~= s);
    assert(trimmed_end(s) == s);
}

/// A number is written digit by digit, the last digit last: what stands before
/// it is the number of tens.
pub proof fn law_decimals_count_by_tens(n: nat, d: nat)
    requires
        n > 0,
        d < 10,
    ensures
        decimal(10 * n + d) == decimal(n).push(((48 + d) as u32) as char),
        decimal(d) == seq![((48 + d) as u32) as char],
{
    assert((10 * n + d) / 10 == n);
    assert((10 * n + d) % 10 == d);
}

/// A row of digits, and nothing else, is read as a number, place by place; one
/// more digit behind it makes ten times as much plus that digit.
pub proof fn law_digits_are_read_by_tens(s: Seq<char>, d: nat, max: nat)
    requires
        parsed_nat(s, max) is Some,
        d < 10,
        10 * parsed_nat(s, max)->0 + d <= max,
    ensures
        parsed_nat(s.push(((48 + d) as u32) as char), max) == Some(
            (10 * parsed_nat(s, max)->0 + d) as nat,
        ),
{
    let c = ((48 + d) as u32) as char;
    let longer = s.push(c);
    if s[0] == '+' {
        assert(longer.drop_first() =~= s.drop_first().push(c));
        assert(s.drop_first().push(c).drop_last() =~= s.drop_first());
    } else {
        assert(longer.drop_last() =~= s);
    }
}

proof fn lemma_start_is_cut(s: Seq<char>) -> (n: int)
    ensures
        0 <= n <= s.len(),
        trimmed_start(s) == s.skip(n),
        forall|i: int| 0 <= i < n ==> is_space(#[trigger] s[i]),
        n < s.len() ==> !is_space(s[n]),
    decreases s.len(),
{
    if s.len() > 0 && is_space(s[0]) {
        let rest = s.drop_first();
        let n = lemma_start_is_cut(rest);
        assert(rest.skip(n) =~= s.skip(n + 1));
        assert forall|i: int| 0 <= i < n + 1 implies is_space(#[trigger] s[i]) by {
            if i > 0 {
                assert(is_space(rest[i - 1]));
            }
        }
        n + 1
    } else {
        assert(s.skip(0) =~= s);
        0
    }
}

proof fn lemma_end_is_cut(s: Seq<char>) -> (n: int)
    ensures
        0 <= n <= s.len(),
        trimmed_end(s) == s.take(n),
        forall|i: int| n <= i < s.len() ==> is_space(#[trigger] s[i]),
        n > 0 ==> !is_space(s[n - 1]),
    decreases s.len(),
{
    if s.len() > 0 && is_space(s.last()) {
        let rest = s.drop_last();
        let n = lemma_end_is_cut(rest);
        assert(rest.take(n) =~= s.take(n));
        assert forall|i: int| n <= i < s.len() implies is_space(#[trigger] s[i]) by {
            if i < rest.len() {
                assert(is_space(rest[i]));
            }
        }
        n
    } else {
        assert(s.take(s.len() as int) =~= s);
        s.len() as int
    }
}

/// Trimming cuts a text out of a longer one: what is cut off in front and behind
/// is white space, and what is left neither begins nor ends with any.
pub proof fn law_trimming_takes_the_margins(s: Seq<char>)
    ensures
        exists|i: int, j: int|
            {
                &&& 0 <= i <= j <= s.len()
                &&& trimmed(s) == #[trigger] s.subrange(i, j)
                &&& forall|k: int| 0 <= k < i || j <= k < s.len() ==> is_space(#[trigger] s[k])
                &&& i < j ==> !is_space(s[i]) && !is_space(s[j - 1])
            },
{
    let i = lemma_start_is_cut(s);
    let rest = s.skip(i);
    let n = lemma_end_is_cut(rest);
    let j = i + n;
    assert(rest.take(n) =~= s.subrange(i, j));
    assert forall|k: int| 0 <= k < i || j <= k < s.len() implies is_space(#[trigger] s[k]) by {
        if k >= j {
            assert(is_space(rest[k - i]));
        }
    }
    if n > 0 {
        assert(rest[0] == s[i]);
        assert(rest[n - 1] == s[j - 1]);
    }
    assert(trimmed(s) == s.subrange(i, j));
}

/// Lowercasing changes the capital letters of ASCII and nothing else.
pub proof fn law_only_capitals_are_lowered(s: &str, r: String, i: int)
    requires
        call_ensures(lowercase, (s,), r),
        0 <= i < s@.len(),
    ensures
        r@.len() == s@.len(),
        'A' <= s@[i] <= 'Z' ==> r@[i] as u32 == s@[i] as u32 + 32,
        !('A' <= s@[i] <= 'Z') ==> r@[i] == s@[i],
{
}

/// Texts are ordered by the first character in which they differ; one that the
/// other goes on from comes first.
pub proof fn law_the_first_difference_decides(
    shared: Seq<char>,
    x: char,
    a: Seq<char>,
    y: char,
    b: Seq<char>,
)
    ensures
        x < y ==> precedes(shared.push(x) + a, shared.push(y) + b),
        x > y ==> !precedes(shared.push(x) + a, shared.push(y) + b),
        precedes(shared, shared.push(x) + a),
        !precedes(shared.push(x) + a, shared),
        !precedes(shared, shared),
    decreases shared.len(),
{
    lemma_precedes_irreflexive(shared);
    let one = shared.push(x) + a;
    let other = shared.push(y) + b;
    if shared.len() > 0 {
        let rest = shared.drop_first();
        law_the_first_difference_decides(rest, x, a, y, b);
        assert(one.drop_first() =~= rest.push(x) + a);
        assert(other.drop_first() =~= rest.push(y) + b);
        assert(one[0] == shared[0]);
        assert(other[0] == shared[0]);
    } else {
        assert(one[0] == x);
        assert(other[0] == y);
    }
}

proof fn lemma_joined_pieces(list: Seq<Seq<char>>, separator: char, cut: Cut)
    requires
        list.len() > 0,
        cut.cuts(separator),
        forall|i: int, j: int|
            0 <= i < list.len() && 0 <= j < list[i].len() ==> !cut.cuts(#[trigger] list[i][j]),
    ensures
        pieces(joined(list, seq![separator]), cut) == list,
    decreases list.len(),
{
    let last = list.last();
    assert forall|j: int| 0 <= j < last.len() implies !cut.cuts(#[trigger] last[j]) by {
        assert(!cut.cuts(list[list.len() - 1][j]));
    }
    let none = Seq::<char>::empty();
    if list.len() == 1 {
        lemma_pieces_extend(none, last, cut);
        assert(none + last =~= last);
        assert(pieces(none, cut).drop_last() =~= Seq::<Seq<char>>::empty());
        assert(list =~= seq![last]);
    } else {
        let front = list.drop_last();
        assert forall|i: int, j: int|
            0 <= i < front.len() && 0 <= j < front[i].len() implies !cut.cuts(
            #[trigger] front[i][j],
        ) by {
            assert(!cut.cuts(list[i][j]));
        }
        lemma_joined_pieces(front, separator, cut);
        let head = joined(front, seq![separator]);
        lemma_pieces_cut(head, separator, cut);
        assert(head + seq![separator] =~= head.push(separator));
        lemma_pieces_extend(head.push(separator), last, cut);
        assert(front.push(none).drop_last() =~= front);
        assert(none + last =~= last);
        assert(front.push(last) =~= list);
    }
}

proof fn lemma_solid_stays(list: Seq<Seq<char>>)
    requires
        forall|i: int| 0 <= i < list.len() ==> (#[trigger] list[i]).len() > 0,
    ensures
        solid(list) == list,
    decreases list.len(),
{
    reveal(Seq::filter);
    if list.len() > 0 {
        let front = list.drop_last();
        assert forall|i: int| 0 <= i < front.len() implies (#[trigger] front[i]).len() > 0 by {
            assert(list[i].len() > 0);
        }
        lemma_solid_stays(front);
        assert(list[list.len() - 1].len() > 0);
        assert(front.push(list.last()) =~= list);
    } else {
        assert(solid(list) =~= list);
    }
}

/// Words with spaces between them come back apart.
pub proof fn law_words_come_back_apart(list: Seq<Seq<char>>)
    requires
        list.len() > 0,
        forall|i: int| 0 <= i < list.len() ==> (#[trigger] list[i]).len() > 0,
        forall|i: int, j: int|
            0 <= i < list.len() && 0 <= j < list[i].len() ==> !is_space(#[trigger] list[i][j]),
    ensures
        words_of(joined(list, " "@)) == list,
{
    reveal_strlit(" ");
    assert(" "@ =~= seq![' ']);
    lemma_joined_pieces(list, ' ', Cut::Space);
    lemma_solid_stays(list);
}

/// The first piece of a text is what stands before the first cut.
pub proof fn law_the_first_piece_ends_at_the_first_cut(
    first: Seq<char>,
    c: char,
    rest: Seq<char>,
    cut: Cut,
)
    requires
        cut.cuts(c),
        forall|i: int| 0 <= i < first.len() ==> !cut.cuts(#[trigger] first[i]),
    ensures
        pieces(first, cut) == seq![first],
        pieces(first.push(c) + rest, cut)[0] == first,
{
    let none = Seq::<char>::empty();
    lemma_pieces_extend(none, first, cut);
    assert(none + first =~= first);
    assert(pieces(first, cut) =~= seq![first]);
    lemma_pieces_cut(first, c, cut);
    lemma_pieces_stay(first.push(c), rest, cut, 0);
}

/// Padding adds spaces behind a text, as many as bring it to the width, and
/// takes nothing away.
pub proof fn law_padding_keeps_the_text(s: &str, width: usize, r: String, i: int)
    requires
        call_ensures(pad_right, (s, width), r),
    ensures
        r@.len() == if s@.len() < width {
            width as nat
        } else {
            s@.len()
        },
        0 <= i < s@.len() ==> r@[i] == s@[i],
        s@.len() <= i < r@.len() ==> r@[i] == ' ',
{
}

/// Each of the texts that were joined stands in the whole.
pub proof fn law_joined_texts_are_all_there(list: Seq<Seq<char>>, separator: Seq<char>, i: int)
    requires
        0 <= i < list.len(),
    ensures
        includes(joined(list, separator), list[i]),
    decreases list.len(),
{
    let whole = joined(list, separator);
    if list.len() == 1 {
        assert(whole.subrange(0, whole.len() as int) =~= whole);
        assert(occurs_at(whole, list[0], 0));
    } else {
        let front = joined(list.drop_last(), separator);
        if i == list.len() - 1 {
            let at = (front + separator).len() as int;
            assert(whole.subrange(at, at + list[i].len()) =~= list[i]);
            assert(occurs_at(whole, list[i], at));
        } else {
            law_joined_texts_are_all_there(list.drop_last(), separator, i);
            let at = choose|at: int| occurs_at(front, list[i], at);
            assert(whole.subrange(at, at + list[i].len()) =~= front.subrange(
                at,
                at + list[i].len(),
            ));
            assert(occurs_at(whole, list[i], at));
        }
    }
}

/// A text that occurs in a part occurs in the whole.
pub proof fn lemma_includes_within(
    before: Seq<char>,
    part: Seq<char>,
    after: Seq<char>,
    pattern: Seq<char>,
)
    requires
        includes(part, pattern),
    ensures
        includes(before + part + after, pattern),
{
    let whole = before + part + after;
    let at = choose|at: int| occurs_at(part, pattern, at);
    let there = before.len() + at;
    assert(whole.subrange(there, there + pattern.len()) =~= part.subrange(at, at + pattern.len()));
    assert(occurs_at(whole, pattern, there));
}

/// The first line ends at the first line feed.
pub proof fn lemma_first_line(line: Seq<char>, rest: Seq<char>)
    requires
        !line.contains('\n'),
        !line.contains('\r'),
    ensures
        lines_of(line.push('\n') + rest).len() > 0,
        lines_of(line.push('\n') + rest)[0] == line,
{
    let cut = Cut::At('\n');
    let all = line.push('\n') + rest;
    assert forall|i: int| 0 <= i < line.len() implies !cut.cuts(#[trigger] line[i]) by {
        assert(line.contains(line[i]));
    }
    law_the_first_piece_ends_at_the_first_cut(line, '\n', rest, cut);
    lemma_pieces_cut(line, '\n', cut);
    assert(pieces(line.push('\n'), cut).len() == 2);
    lemma_pieces_stay(line.push('\n'), rest, cut, 0);
    if line.len() > 0 {
        assert(line.contains(line[line.len() - 1]));
    }
    assert(without_return(line) == line);
}

/// Two texts are the same up to case when they have the same length and each
/// character of one is that of the other, or its capital.
pub proof fn law_case_is_ignored_letter_by_letter(a: &str, b: &str, r: bool)
    requires
        call_ensures(same_ignoring_case, (a, b), r),
    ensures
        r <==> a@.len() == b@.len() && forall|i: int|
            0 <= i < a@.len() ==> lower(#[trigger] a@[i]) == lower(b@[i]),
{
    let x = lowered(a@);
    let y = lowered(b@);
    assert(x.len() == a@.len() && y.len() == b@.len());
    assert(forall|i: int| 0 <= i < a@.len() ==> x[i] == lower(#[trigger] a@[i]));
    assert(forall|i: int| 0 <= i < b@.len() ==> y[i] == lower(#[trigger] b@[i]));
    if r {
        assert forall|i: int| 0 <= i < a@.len() implies lower(#[trigger] a@[i]) == lower(b@[i]) by {
            assert(x[i] == y[i]);
        }
    } else if a@.len() == b@.len() && forall|i: int|
        0 <= i < a@.len() ==> lower(#[trigger] a@[i]) == lower(b@[i]) {
        assert forall|i: int| 0 <= i < x.len() implies x[i] == y[i] by {
            assert(lower(a@[i]) == lower(b@[i]));
        }
        assert(x =~= y);
    }
}

/// A text starts with what was put before the rest, and taking that away leaves the
/// rest; a text that does not start so is left alone. The same holds of the end.
pub proof fn law_what_was_added_can_be_taken_off<'a>(
    s: &'a str,
    part: &str,
    starts: bool,
    ends: bool,
    tail: Option<&'a str>,
    head: Option<&'a str>,
    rest: Seq<char>,
)
    requires
        call_ensures(starts_with, (s, part), starts),
        call_ensures(ends_with, (s, part), ends),
        call_ensures(strip_prefix, (s, part), tail),
        call_ensures(strip_suffix, (s, part), head),
    ensures
        s@ == part@ + rest ==> starts && tail is Some && tail->0@ == rest,
        s@ == rest + part@ ==> ends && head is Some && head->0@ == rest,
        starts <==> tail is Some,
        ends <==> head is Some,
        tail is Some ==> s@ == part@ + tail->0@,
        head is Some ==> s@ == head->0@ + part@,
{
    let n = part@.len() as int;
    if s@ == part@ + rest {
        assert(s@.take(n) =~= part@);
        assert(s@.skip(n) =~= rest);
    }
    if s@ == rest + part@ {
        assert(s@.skip(s@.len() - n) =~= part@);
        assert(s@.take(s@.len() - n) =~= rest);
    }
    if begins(s@, part@) {
        assert(s@ =~= s@.take(n) + s@.skip(n));
    }
    if finishes(s@, part@) {
        assert(s@ =~= s@.take(s@.len() - n) + s@.skip(s@.len() - n));
    }
}

/// Stripping a character takes away all of it at that end and nothing else.
pub proof fn law_stripping_takes_one_character(s: &str, c: char, front: &str, back: &str)
    requires
        call_ensures(strip_leading, (s, c), front),
        call_ensures(strip_trailing, (s, c), back),
    ensures
        front@.len() <= s@.len(),
        s@.skip(s@.len() - front@.len()) == front@,
        forall|i: int| 0 <= i < s@.len() - front@.len() ==> #[trigger] s@[i] == c,
        front@.len() > 0 ==> front@[0] != c,
        back@.len() <= s@.len(),
        s@.take(back@.len() as int) == back@,
        forall|i: int| back@.len() <= i < s@.len() ==> #[trigger] s@[i] == c,
        back@.len() > 0 ==> back@.last() != c,
{
    lemma_without_leading(s@, c);
    lemma_without_trailing(s@, c);
}

proof fn lemma_without_leading(s: Seq<char>, c: char)
    ensures
        ({
            let r = without_leading(s, c);
            &&& r.len() <= s.len()
            &&& s.skip(s.len() - r.len()) == r
            &&& forall|i: int| 0 <= i < s.len() - r.len() ==> #[trigger] s[i] == c
            &&& r.len() > 0 ==> r[0] != c
        }),
    decreases s.len(),
{
    let r = without_leading(s, c);
    if s.len() > 0 && s[0] == c {
        let t = s.drop_first();
        lemma_without_leading(t, c);
        assert(s.skip(s.len() - r.len()) =~= t.skip(t.len() - r.len()));
        assert forall|i: int| 0 <= i < s.len() - r.len() implies #[trigger] s[i] == c by {
            if i > 0 {
                assert(t[i - 1] == c);
            }
        }
    } else {
        assert(s.skip(0) =~= s);
    }
}

proof fn lemma_without_trailing(s: Seq<char>, c: char)
    ensures
        ({
            let r = without_trailing(s, c);
            &&& r.len() <= s.len()
            &&& s.take(r.len() as int) == r
            &&& forall|i: int| r.len() <= i < s.len() ==> #[trigger] s[i] == c
            &&& r.len() > 0 ==> r.last() != c
        }),
    decreases s.len(),
{
    let r = without_trailing(s, c);
    if s.len() > 0 && s.last() == c {
        let t = s.drop_last();
        lemma_without_trailing(t, c);
        assert(s.take(r.len() as int) =~= t.take(r.len() as int));
        assert forall|i: int| r.len() <= i < s.len() implies #[trigger] s[i] == c by {
            if i < s.len() - 1 {
                assert(t[i] == c);
            }
        }
    } else {
        assert(s.take(s.len() as int) =~= s);
    }
}

proof fn lemma_pieces_hold_no_cut(s: Seq<char>, cut: Cut, i: int, j: int)
    requires
        0 <= i < pieces(s, cut).len(),
        0 <= j < pieces(s, cut)[i].len(),
    ensures
        !cut.cuts(pieces(s, cut)[i][j]),
    decreases s.len(),
{
    if s.len() > 0 {
        let front = s.drop_last();
        let before = pieces(front, cut);
        lemma_pieces_not_empty(front, cut);
        if i < before.len() && j < before[i].len() {
            lemma_pieces_hold_no_cut(front, cut, i, j);
        }
    }
}

/// No word is empty or holds white space.
pub proof fn law_words_hold_no_space(s: &str, r: Vec<String>, i: int, j: int)
    requires
        call_ensures(words, (s,), r),
        0 <= i < r@.len(),
    ensures
        r@[i]@.len() > 0,
        0 <= j < r@[i]@.len() ==> !is_space(r@[i]@[j]),
{
    let all = pieces(s@, Cut::Space);
    let list = views(r@);
    assert(list[i] == r@[i]@);
    lemma_solid(all, i);
    let k = choose|k: int| 0 <= k < all.len() && #[trigger] all[k] == list[i];
    if 0 <= j < r@[i]@.len() {
        lemma_pieces_hold_no_cut(s@, Cut::Space, k, j);
    }
}

proof fn lemma_solid(parts: Seq<Seq<char>>, i: int)
    requires
        0 <= i < solid(parts).len(),
    ensures
        solid(parts)[i].len() > 0,
        exists|k: int| 0 <= k < parts.len() && #[trigger] parts[k] == solid(parts)[i],
    decreases parts.len(),
{
    reveal(Seq::filter);
    let front = parts.drop_last();
    if parts.len() > 0 {
        if i < solid(front).len() {
            lemma_solid(front, i);
            let k = choose|k: int| 0 <= k < front.len() && #[trigger] front[k] == solid(front)[i];
            assert(parts[k] == solid(parts)[i]);
        } else {
            assert(parts[parts.len() - 1] == solid(parts)[i]);
        }
    }
}

/// A single line is the only line of the text, whether or not a line feed ends it;
/// without anything there is no line, and no line holds a line feed.
pub proof fn law_a_line_feed_ends_a_line(line: Seq<char>, s: &str, r: Vec<String>, i: int, j: int)
    requires
        call_ensures(lines, (s,), r),
    ensures
        s@.len() == 0 ==> r@.len() == 0,
        !line.contains('\n') && !line.contains('\r') && line.len() > 0 && (s@ == line || s@
            == line.push('\n')) ==> r@.len() == 1 && r@[0]@ == line,
        0 <= i < r@.len() && 0 <= j < r@[i]@.len() ==> r@[i]@[j] != '\n',
{
    let cut = Cut::At('\n');
    let list = views(r@);
    let parts = pieces(s@, cut);
    assert(list.len() == r@.len());
    lemma_pieces_not_empty(s@, cut);
    if !line.contains('\n') && !line.contains('\r') && line.len() > 0 && (s@ == line || s@
        == line.push('\n')) {
        assert forall|k: int| 0 <= k < line.len() implies !cut.cuts(#[trigger] line[k]) by {
            assert(line.contains(line[k]));
        }
        law_the_first_piece_ends_at_the_first_cut(line, '\n', Seq::<char>::empty(), cut);
        lemma_pieces_cut(line, '\n', cut);
        assert(line.contains(line[line.len() - 1]));
        assert(list[0] == line);
        assert(list[0] == r@[0]@);
    }
    if 0 <= i < r@.len() && 0 <= j < r@[i]@.len() {
        assert(list[i] == r@[i]@);
        assert(j < parts[i].len() && parts[i][j] == list[i][j]);
        lemma_pieces_hold_no_cut(s@, cut, i, j);
    }
}

/// A number in decimal is read as itself where it fits, and refused where it does
/// not; a text with anything but digits behind the sign is refused.
pub proof fn law_numbers_that_do_not_fit_are_refused(
    n: int,
    s: &str,
    signed: Option<i32>,
    unsigned: Option<u32>,
    i: int,
)
    requires
        call_ensures(parse_i32, (s,), signed),
        call_ensures(parse_u32, (s,), unsigned),
    ensures
        s@ == decimal_int(n) ==> {
            &&& signed is Some <==> i32::MIN <= n <= i32::MAX
            &&& signed is Some ==> signed->0 == n
            &&& unsigned is Some <==> 0 <= n <= u32::MAX
            &&& unsigned is Some ==> unsigned->0 == n
        },
        0 < i < s@.len() && !is_digit(s@[i]) ==> signed is None && unsigned is None,
        s@.len() == 0 || s@.len() == 1 && !is_digit(s@[0]) ==> signed is None && unsigned is None,
        s@.len() > 0 && !is_digit(s@[0]) && s@[0] != '+' ==> unsigned is None && (s@[0] != '-'
            ==> signed is None),
{
    let size: nat = if n < 0 {
        (-n) as nat
    } else {
        n as nat
    };
    if s@ == decimal_int(n) {
        lemma_decimal_shape(size);
        assert(is_digit(decimal(size)[0]));
        if n < 0 {
            assert(s@.drop_first() =~= decimal(size));
            assert(s@[0] == '-');
        } else {
            assert(s@[0] != '+' && s@[0] != '-');
        }
    }
    let rest = s@.drop_first();
    if 0 < i < s@.len() && !is_digit(s@[i]) {
        assert(rest[i - 1] == s@[i]);
        assert(!all_digits(rest));
        assert(!all_digits(s@));
    }
}

} // verus!

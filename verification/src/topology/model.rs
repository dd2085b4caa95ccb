//! Models read from a text description: the lines of the text, and the
//! vertices that its faces name.
//!
//! A line is a sequence of words parted by white space. The first word says
//! what the line holds: `v` a position, `vn` a normal, `vt` a texture
//! coordinate, `f` a face; any other line is passed over. A face lists its
//! corners, each as three numbers parted by `/`: the places, counted from one,
//! of a position, a texture coordinate and a normal among those read so far.
//! The numbers of the other lines are handed out as text, for the host to
//! read.

use crate::algebra::scalar::Scalar;
use crate::algebra::scalar::HALF;
use crate::algebra::vector3::Vector3;
use crate::topology::color::Color;
use crate::topology::vertex::Vertex;
use vstd::prelude::*;

verus! {

/// Whether a character is white space.
pub open spec fn is_space(c: char) -> bool {
    let n = c as u32;
    (0x09 <= n <= 0x0d) || n == 0x20 || n == 0x85 || n == 0xa0 || n == 0x1680 || (0x2000 <= n
        <= 0x200a) || n == 0x2028 || n == 0x2029 || n == 0x202f || n == 0x205f || n == 0x3000
}

/// Whether a character is the bar that parts the numbers of a corner.
pub open spec fn is_bar(c: char) -> bool {
    c == '/'
}

/// The first place at or after `i` whose character meets `mark`, or the
/// length of `s` if there is none.
pub open spec fn next(s: Seq<char>, i: int, mark: spec_fn(char) -> bool) -> int
    decreases s.len() - i,
{
    if 0 <= i < s.len() && !mark(s[i]) {
        next(s, i + 1, mark)
    } else {
        i
    }
}

/// The words of `s` that start at or after `i`.
pub open spec fn words_from(s: Seq<char>, i: int) -> Seq<Seq<char>>
    decreases s.len() - i,
    via words_from_decreases
{
    if i < 0 || i >= s.len() {
        Seq::empty()
    } else if is_space(s[i]) {
        words_from(s, i + 1)
    } else {
        let end = next(s, i, |c: char| is_space(c));
        seq![s.subrange(i, end)] + words_from(s, end)
    }
}

#[via_fn]
proof fn words_from_decreases(s: Seq<char>, i: int) {
    if 0 <= i < s.len() && !is_space(s[i]) {
        next_bounds(s, i + 1, |c: char| is_space(c));
    }
}

/// The words of a line: its longest stretches without white space, in order.
pub open spec fn words(s: Seq<char>) -> Seq<Seq<char>> {
    words_from(s, 0)
}

/// `next` stays between its start and the length.
pub proof fn next_bounds(s: Seq<char>, i: int, mark: spec_fn(char) -> bool)
    requires
        0 <= i <= s.len(),
    ensures
        i <= next(s, i, mark) <= s.len(),
        next(s, i, mark) < s.len() ==> mark(s[next(s, i, mark)]),
        forall|k: int| i <= k < next(s, i, mark) ==> !mark(#[trigger] s[k]),
    decreases s.len() - i,
{
    if i < s.len() && !mark(s[i]) {
        next_bounds(s, i + 1, mark);
    }
}

/// Whether `w` is a word: not empty, and without white space.
pub open spec fn is_word(w: Seq<char>) -> bool {
    w.len() > 0 && forall|j: int| 0 <= j < w.len() ==> !is_space(#[trigger] w[j])
}

/// Each of the words of a line is a word.
pub proof fn words_are_words(s: Seq<char>, i: int)
    requires
        0 <= i <= s.len(),
    ensures
        forall|k: int| 0 <= k < words_from(s, i).len() ==> is_word(#[trigger] words_from(s, i)[k]),
    decreases s.len() - i,
{
    if i < s.len() {
        if is_space(s[i]) {
            words_are_words(s, i + 1);
            assert(words_from(s, i) == words_from(s, i + 1));
        } else {
            let mark = |c: char| is_space(c);
            let end = next(s, i, mark);
            next_bounds(s, i + 1, mark);
            next_bounds(s, i, mark);
            words_are_words(s, end);
            let word = s.subrange(i, end);
            let rest = words_from(s, end);
            assert(is_word(word)) by {
                assert forall|j: int| 0 <= j < word.len() implies !is_space(#[trigger] word[j]) by {
                    assert(word[j] == s[i + j]);
                    assert(!mark(s[i + j]));
                }
            }
            assert(words_from(s, i) == seq![word] + rest);
            assert forall|k: int| 0 <= k < words_from(s, i).len() implies is_word(
                #[trigger] words_from(s, i)[k],
            ) by {
                if k > 0 {
                    assert(words_from(s, i)[k] == rest[k - 1]);
                } else {
                    assert(words_from(s, i)[k] == word);
                }
            }
        }
    }
}

/// Whether `s` is one decimal digit or more.
pub open spec fn digits(s: Seq<char>) -> bool {
    s.len() > 0 && forall|i: int| 0 <= i < s.len() ==> '0' <= #[trigger] s[i] <= '9'
}

/// The number that a decimal digit writes.
pub open spec fn digit(c: char) -> nat {
    if '0' <= c <= '9' {
        (c as u32 - '0' as u32) as nat
    } else {
        0
    }
}

/// The number that a string of decimal digits writes.
pub open spec fn value(s: Seq<char>) -> nat
    decreases s.len(),
{
    if s.len() == 0 {
        0
    } else {
        10 * value(s.drop_last()) + digit(s.last())
    }
}

/// The number that `s` writes as a place in a list: decimal digits, after a
/// `+` or not, whose value a `usize` holds. Anything else writes none.
pub open spec fn place(s: Seq<char>) -> Option<usize> {
    let body = if s.len() > 0 && s[0] == '+' {
        s.drop_first()
    } else {
        s
    };
    if digits(body) && value(body) <= usize::MAX {
        Some(value(body) as usize)
    } else {
        None
    }
}

/// A corner of a face as the text gives it: the places, counted from one, of
/// its position, its texture coordinate and its normal.
#[derive(Clone, Copy, PartialEq, Eq, Debug, Structural)]
pub struct Corner {
    pub v: usize,
    pub t: usize,
    pub n: usize,
}

/// The corner that a word writes: its first three stretches between bars,
/// each a place. A word with fewer than two bars, or with a stretch among the
/// first three that is no place, writes none; what follows a third bar is not
/// read.
pub open spec fn corner(s: Seq<char>) -> Option<Corner> {
    let first = next(s, 0, |c: char| is_bar(c));
    let second = next(s, first + 1, |c: char| is_bar(c));
    let third = next(s, second + 1, |c: char| is_bar(c));
    if first < s.len() && second < s.len() {
        match (
            place(s.subrange(0, first)),
            place(s.subrange(first + 1, second)),
            place(s.subrange(second + 1, third)),
        ) {
            (Some(v), Some(t), Some(n)) => Some(Corner { v, t, n }),
            _ => None,
        }
    } else {
        None
    }
}

/// What a line says, with its numbers as text.
pub enum Entry {
    Position(Seq<char>, Seq<char>, Seq<char>),
    Normal(Seq<char>, Seq<char>, Seq<char>),
    Texture(Seq<char>, Seq<char>),
    Face(Corner, Corner, Corner),
    Other,
}

/// What a line says, or nothing for a line that is malformed.
///
/// A position and a normal take the three words after the first, a texture
/// coordinate the two; a line with fewer is malformed, and words beyond those
/// are not read. Every word after the first of a face must write a corner,
/// and there must be three at least; the face is made of the first three.
pub open spec fn entry(s: Seq<char>) -> Option<Entry> {
    let w = words(s);
    if w.len() == 0 {
        Some(Entry::Other)
    } else if w[0] == seq!['v'] {
        if w.len() >= 4 {
            Some(Entry::Position(w[1], w[2], w[3]))
        } else {
            None
        }
    } else if w[0] == seq!['v', 'n'] {
        if w.len() >= 4 {
            Some(Entry::Normal(w[1], w[2], w[3]))
        } else {
            None
        }
    } else if w[0] == seq!['v', 't'] {
        if w.len() >= 3 {
            Some(Entry::Texture(w[1], w[2]))
        } else {
            None
        }
    } else if w[0] == seq!['f'] {
        if w.len() >= 4 && forall|k: int| 1 <= k < w.len() ==> (#[trigger] corner(w[k])) is Some {
            Some(Entry::Face(corner(w[1])->0, corner(w[2])->0, corner(w[3])->0))
        } else {
            None
        }
    } else {
        Some(Entry::Other)
    }
}

/// What a line says, with its numbers as slices of the line.
#[derive(Clone, Copy, Debug)]
pub enum Record<'a> {
    Position(&'a str, &'a str, &'a str),
    Normal(&'a str, &'a str, &'a str),
    Texture(&'a str, &'a str),
    Face(Corner, Corner, Corner),
    Other,
}

impl<'a> View for Record<'a> {
    type V = Entry;

    open spec fn view(&self) -> Entry {
        match *self {
            Record::Position(x, y, z) => Entry::Position(x@, y@, z@),
            Record::Normal(x, y, z) => Entry::Normal(x@, y@, z@),
            Record::Texture(u, v) => Entry::Texture(u@, v@),
            Record::Face(a, b, c) => Entry::Face(a, b, c),
            Record::Other => Entry::Other,
        }
    }
}

/// A stretch of a line: from its first place to one past its last.
#[derive(Clone, Copy)]
struct Span {
    from: usize,
    to: usize,
}

/// Whether a character is white space.
pub fn space(c: char) -> (r: bool)
    ensures
        r == is_space(c),
{
    let n: u32 = c as u32;
    (0x09 <= n && n <= 0x0d) || n == 0x20 || n == 0x85 || n == 0xa0 || n == 0x1680 || (0x2000 <= n
        && n <= 0x200a) || n == 0x2028 || n == 0x2029 || n == 0x202f || n == 0x205f || n == 0x3000
}

/// The characters of a line.
fn letters(line: &str) -> (v: Vec<char>)
    ensures
        v@ == line@,
{
    let mut v: Vec<char> = Vec::new();
    for c in it: line.chars()
        invariant
            v@ == it.seq().take(it.index()),
            it.seq() == line@,
    {
        v.push(c);
    }
    v
}

/// The stretches of `s` that are its words.
fn scan(s: &Vec<char>) -> (spans: Vec<Span>)
    ensures
        spans@.len() == words(s@).len(),
        forall|k: int|
            0 <= k < spans@.len() ==> (#[trigger] spans@[k]).from <= spans@[k].to <= s@.len()
                && s@.subrange(spans@[k].from as int, spans@[k].to as int) == words(s@)[k],
{
    let mut spans: Vec<Span> = Vec::new();
    let ghost mut done: Seq<Seq<char>> = Seq::empty();
    let mut i: usize = 0;
    assert(done + words_from(s@, 0) =~= words(s@));
    while i < s.len()
        invariant
            i <= s@.len(),
            done + words_from(s@, i as int) == words(s@),
            spans@.len() == done.len(),
            forall|k: int|
                0 <= k < spans@.len() ==> (#[trigger] spans@[k]).from <= spans@[k].to <= s@.len()
                    && s@.subrange(spans@[k].from as int, spans@[k].to as int) == done[k],
        decreases s@.len() - i,
    {
        if space(s[i]) {
            i = i + 1;
        } else {
            let from: usize = i;
            let ghost mark = |c: char| is_space(c);
            let mut j: usize = i + 1;
            while j < s.len() && !space(s[j])
                invariant
                    from < j <= s@.len(),
                    mark == |c: char| is_space(c),
                    next(s@, from as int, mark) == next(s@, j as int, mark),
                decreases s@.len() - j,
            {
                j = j + 1;
            }
            proof {
                let word = s@.subrange(from as int, j as int);
                assert(words_from(s@, from as int) == seq![word] + words_from(s@, j as int));
                assert(done.push(word) + words_from(s@, j as int) =~= done + (seq![word]
                    + words_from(s@, j as int)));
                done = done.push(word);
            }
            spans.push(Span { from, to: j });
            i = j;
        }
    }
    proof {
        assert(done + words_from(s@, i as int) =~= done);
    }
    spans
}

/// A digit more multiplies the value by ten and adds the digit.
proof fn value_step(s: Seq<char>, from: int, to: int)
    requires
        0 <= from <= to < s.len(),
    ensures
        value(s.subrange(from, to + 1)) == 10 * value(s.subrange(from, to)) + digit(s[to]),
{
    assert(s.subrange(from, to + 1).drop_last() =~= s.subrange(from, to));
}

/// The value of the first digits of a string is not above that of them all.
proof fn value_grows(s: Seq<char>, k: int)
    requires
        0 <= k <= s.len(),
        digits(s) || s.len() == 0,
    ensures
        value(s.take(k)) <= value(s),
    decreases s.len(),
{
    if k < s.len() {
        let rest = s.drop_last();
        assert(rest.take(k) =~= s.take(k));
        if rest.len() > 0 {
            assert forall|i: int| 0 <= i < rest.len() implies '0' <= #[trigger] rest[i] <= '9' by {
                assert(rest[i] == s[i]);
            }
        }
        value_grows(rest, k);
    } else {
        assert(s.take(k) =~= s);
    }
}

/// The place that the stretch of `s` from `from` to `to` writes.
fn number(s: &Vec<char>, from: usize, to: usize) -> (r: Option<usize>)
    requires
        from <= to <= s@.len(),
    ensures
        r == place(s@.subrange(from as int, to as int)),
{
    let ghost whole = s@.subrange(from as int, to as int);
    let start: usize = if from < to && s[from] == '+' {
        from + 1
    } else {
        from
    };
    let ghost body = s@.subrange(start as int, to as int);
    proof {
        if start == from {
            assert(body =~= whole);
            if whole.len() > 0 {
                assert(whole[0] == s@[from as int]);
            }
        } else {
            assert(whole[0] == '+');
            assert(body =~= whole.drop_first());
        }
    }
    if start == to {
        return None;
    }
    let mut acc: usize = 0;
    let mut i: usize = start;
    assert(s@.subrange(start as int, start as int) =~= Seq::<char>::empty());
    while i < to
        invariant
            start <= i <= to <= s@.len(),
            body == s@.subrange(start as int, to as int),
            place(whole) == if digits(body) && value(body) <= usize::MAX {
                Some(value(body) as usize)
            } else {
                None
            },
            whole == s@.subrange(from as int, to as int),
            forall|k: int| start <= k < i ==> '0' <= #[trigger] s@[k] <= '9',
            acc == value(s@.subrange(start as int, i as int)),
        decreases to - i,
    {
        let c: char = s[i];
        if c < '0' || c > '9' {
            assert(body[i - start] == c);
            return None;
        }
        let d: usize = (c as u32 - '0' as u32) as usize;
        proof {
            value_step(s@, start as int, i as int);
        }
        if acc > (usize::MAX - d) / 10 {
            proof {
                if digits(body) {
                    value_grows(body, i + 1 - start);
                    assert(body.take(i + 1 - start) =~= s@.subrange(start as int, i + 1));
                }
            }
            return None;
        }
        acc = acc * 10 + d;
        i = i + 1;
    }
    proof {
        assert forall|k: int| 0 <= k < body.len() implies '0' <= #[trigger] body[k] <= '9' by {
            assert(body[k] == s@[start + k]);
        }
    }
    Some(acc)
}

/// The first bar of `s` at or after `i`, or the length of `s`.
fn seek(s: &Vec<char>, i: usize) -> (j: usize)
    requires
        i <= s@.len(),
    ensures
        j == next(s@, i as int, |c: char| is_bar(c)),
        i <= j <= s@.len(),
{
    let ghost mark = |c: char| is_bar(c);
    let mut j: usize = i;
    while j < s.len() && s[j] != '/'
        invariant
            i <= j <= s@.len(),
            mark == |c: char| is_bar(c),
            next(s@, i as int, mark) == next(s@, j as int, mark),
        decreases s@.len() - j,
    {
        j = j + 1;
    }
    j
}

/// The corner that a word writes.
fn read_corner(word: &Vec<char>) -> (r: Option<Corner>)
    ensures
        r == corner(word@),
{
    let first = seek(word, 0);
    if first >= word.len() {
        return None;
    }
    let second = seek(word, first + 1);
    if second >= word.len() {
        return None;
    }
    let third = seek(word, second + 1);
    match number(word, 0, first) {
        None => None,
        Some(v) => match number(word, first + 1, second) {
            None => None,
            Some(t) => match number(word, second + 1, third) {
                None => None,
                Some(n) => Some(Corner { v, t, n }),
            },
        },
    }
}

/// The characters of `s` from `from` to `to`.
fn stretch(s: &Vec<char>, from: usize, to: usize) -> (word: Vec<char>)
    requires
        from <= to <= s@.len(),
    ensures
        word@ == s@.subrange(from as int, to as int),
{
    let mut word: Vec<char> = Vec::new();
    let mut i: usize = from;
    while i < to
        invariant
            from <= i <= to <= s@.len(),
            word@ == s@.subrange(from as int, i as int),
        decreases to - i,
    {
        word.push(s[i]);
        assert(word@ =~= s@.subrange(from as int, i + 1));
        i = i + 1;
    }
    word
}

/// What a line gives once its numbers are read: a position, a normal, a
/// texture coordinate in the first two components of a vector, or a face.
#[derive(Clone, Copy, PartialEq, Eq, Debug, Structural)]
pub enum Item {
    Position(Vector3),
    Normal(Vector3),
    Texture(Vector3),
    Face(Corner, Corner, Corner),
}

/// What has been read of a description: the positions, normals and texture
/// coordinates given so far, and the vertices of the faces given so far.
pub struct Pools {
    pub positions: Seq<Vector3>,
    pub normals: Seq<Vector3>,
    pub uvs: Seq<Vector3>,
    pub vertices: Seq<Vertex>,
}

impl Pools {
    /// Nothing read yet.
    pub open spec fn empty() -> Pools {
        Pools {
            positions: Seq::empty(),
            normals: Seq::empty(),
            uvs: Seq::empty(),
            vertices: Seq::empty(),
        }
    }

    /// Whether a corner names what has been given.
    pub open spec fn holds(self, corner: Corner) -> bool {
        Model::resolves(corner.v, corner.t, corner.n, self.positions, self.normals, self.uvs)
    }

    /// The vertex of a corner.
    pub open spec fn vertex(self, corner: Corner) -> Vertex {
        Model::vertex(corner.v, corner.t, corner.n, self.positions, self.normals, self.uvs)
    }

    /// What has been read after one item more: a position, a normal or a
    /// texture coordinate joins its list; a face adds the vertices of its
    /// three corners, in their order, and fails if one of them names what has
    /// not been given yet.
    pub open spec fn take(self, item: Item) -> Option<Pools> {
        match item {
            Item::Position(p) => Some(Pools { positions: self.positions.push(p), ..self }),
            Item::Normal(n) => Some(Pools { normals: self.normals.push(n), ..self }),
            Item::Texture(t) => Some(Pools { uvs: self.uvs.push(t), ..self }),
            Item::Face(a, b, c) => if self.holds(a) && self.holds(b) && self.holds(c) {
                Some(
                    Pools {
                        vertices: self.vertices.push(self.vertex(a)).push(self.vertex(b)).push(
                            self.vertex(c),
                        ),
                        ..self
                    },
                )
            } else {
                None
            },
        }
    }
}

/// What has been read after the items of a description, taken in their order;
/// nothing if one of them fails.
pub open spec fn read(items: Seq<Item>) -> Option<Pools>
    decreases items.len(),
{
    if items.len() == 0 {
        Some(Pools::empty())
    } else {
        match read(items.drop_last()) {
            Some(pools) => pools.take(items.last()),
            None => None,
        }
    }
}

/// Once the reading of a description has failed, it fails whatever follows.
pub proof fn read_fails_on(items: Seq<Item>, k: int)
    requires
        0 <= k <= items.len(),
        read(items.take(k)) is None,
    ensures
        read(items) is None,
    decreases items.len() - k,
{
    if k < items.len() {
        assert(items.take(k + 1).drop_last() =~= items.take(k));
        read_fails_on(items, k + 1);
    } else {
        assert(items.take(k) =~= items);
    }
}

/// A model: the vertices of its faces, three to a face, in the order of the
/// text.
#[derive(Debug)]
pub struct Model {
    pub vertices: Vec<Vertex>,
}

impl Model {
    /// Whether a corner names a position, a texture coordinate and a normal
    /// that exist: each place at least one and at most the length of its list.
    pub open spec fn resolves(
        v: usize,
        t: usize,
        n: usize,
        positions: Seq<Vector3>,
        normals: Seq<Vector3>,
        uvs: Seq<Vector3>,
    ) -> bool {
        1 <= v <= positions.len() && 1 <= t <= uvs.len() && 1 <= n <= normals.len()
    }

    /// The vertex of a corner: the position it names, with `x` negated; the
    /// texture coordinate it names, from the first two components; the normal
    /// it names; and a gray of one half.
    pub open spec fn vertex(
        v: usize,
        t: usize,
        n: usize,
        positions: Seq<Vector3>,
        normals: Seq<Vector3>,
        uvs: Seq<Vector3>,
    ) -> Vertex {
        Vertex::spec_full(
            positions[v - 1].x.spec_negated(),
            positions[v - 1].y,
            positions[v - 1].z,
            Color { r: Scalar { bits: HALF }, g: Scalar { bits: HALF }, b: Scalar { bits: HALF } },
            uvs[t - 1].x,
            uvs[t - 1].y,
            normals[n - 1],
        )
    }

    /// A model without vertices.
    pub fn create() -> (model: Model)
        ensures
            model.vertices@ == Seq::<Vertex>::empty(),
    {
        Model { vertices: Vec::new() }
    }

    /// What a line of the text says, or nothing if the line is malformed.
    pub fn record<'a>(line: &'a str) -> (r: Option<Record<'a>>)
        ensures
            match r {
                Some(record) => entry(line@) == Some(record@),
                None => entry(line@) is None,
            },
    {
        let s = letters(line);
        let spans = scan(&s);
        let ghost w = words(s@);
        if spans.len() == 0 {
            return Some(Record::Other);
        }
        let head = spans[0];
        let single: bool = head.to - head.from == 1;
        let double: bool = head.to - head.from == 2;
        proof {
            let first = s@.subrange(head.from as int, head.to as int);
            assert(first == w[0]);
            if single {
                assert(first =~= seq![s@[head.from as int]]);
                assert(seq![s@[head.from as int]][0] == s@[head.from as int]);
            }
            if double {
                assert(first =~= seq![s@[head.from as int], s@[head.from + 1]]);
                assert(seq![s@[head.from as int], s@[head.from + 1]][0] == s@[head.from as int]);
                assert(seq![s@[head.from as int], s@[head.from + 1]][1] == s@[head.from + 1]);
            }
            assert(seq!['v'].len() == 1 && seq!['f'].len() == 1);
            assert(seq!['v', 'n'].len() == 2 && seq!['v', 't'].len() == 2);
            assert(seq!['v'][0] == 'v' && seq!['f'][0] == 'f');
            assert(seq!['v', 'n'][0] == 'v' && seq!['v', 'n'][1] == 'n');
            assert(seq!['v', 't'][0] == 'v' && seq!['v', 't'][1] == 't');
        }
        if single && s[head.from] == 'v' {
            if spans.len() < 4 {
                return None;
            }
            let x = line.substring_char(spans[1].from, spans[1].to);
            let y = line.substring_char(spans[2].from, spans[2].to);
            let z = line.substring_char(spans[3].from, spans[3].to);
            Some(Record::Position(x, y, z))
        } else if double && s[head.from] == 'v' && s[head.from + 1] == 'n' {
            if spans.len() < 4 {
                return None;
            }
            let x = line.substring_char(spans[1].from, spans[1].to);
            let y = line.substring_char(spans[2].from, spans[2].to);
            let z = line.substring_char(spans[3].from, spans[3].to);
            Some(Record::Normal(x, y, z))
        } else if double && s[head.from] == 'v' && s[head.from + 1] == 't' {
            if spans.len() < 3 {
                return None;
            }
            let u = line.substring_char(spans[1].from, spans[1].to);
            let v = line.substring_char(spans[2].from, spans[2].to);
            Some(Record::Texture(u, v))
        } else if single && s[head.from] == 'f' {
            let mut corners: Vec<Corner> = Vec::new();
            let mut k: usize = 1;
            while k < spans.len()
                invariant
                    1 <= k <= spans@.len(),
                    s@ == line@,
                    w == words(s@),
                    spans@.len() == w.len(),
                    w[0] == seq!['f'],
                    entry(s@) == if w.len() >= 4 && forall|k: int|
                        1 <= k < w.len() ==> (#[trigger] corner(w[k])) is Some {
                        Some(Entry::Face(corner(w[1])->0, corner(w[2])->0, corner(w[3])->0))
                    } else {
                        None
                    },
                    forall|k: int|
                        0 <= k < spans@.len() ==> (#[trigger] spans@[k]).from <= spans@[k].to
                            <= s@.len() && s@.subrange(spans@[k].from as int, spans@[k].to as int)
                            == w[k],
                    corners@.len() == k - 1,
                    forall|j: int| 1 <= j < k ==> corner(w[j]) == Some(#[trigger] corners@[j - 1]),
                decreases spans@.len() - k,
            {
                let word = stretch(&s, spans[k].from, spans[k].to);
                match read_corner(&word) {
                    None => {
                        assert(corner(w[k as int]) is None);
                        return None;
                    },
                    Some(c) => {
                        corners.push(c);
                    },
                }
                k = k + 1;
            }
            if corners.len() < 3 {
                return None;
            }
            proof {
                assert forall|j: int| 1 <= j < w.len() implies (#[trigger] corner(w[j])) is Some by {
                    assert(corner(w[j]) == Some(corners@[j - 1]));
                }
                assert(corner(w[1]) == Some(corners@[0]));
                assert(corner(w[2]) == Some(corners@[1]));
                assert(corner(w[3]) == Some(corners@[2]));
            }
            Some(Record::Face(corners[0], corners[1], corners[2]))
        } else {
            Some(Record::Other)
        }
    }

    /// The model that a description gives, from its items in the order of the
    /// text: the vertices of its faces, three to a face. A face takes its
    /// corners from what stands before it in the text. Returns nothing if a
    /// face names a position, a texture coordinate or a normal that has not
    /// been given before it.
    pub fn load_obj(items: &Vec<Item>) -> (r: Option<Model>)
        ensures
            match r {
                Some(model) => read(items@) matches Some(pools) && model.vertices@ == pools.vertices,
                None => read(items@) is None,
            },
    {
        let mut model = Model::create();
        let mut positions: Vec<Vector3> = Vec::new();
        let mut normals: Vec<Vector3> = Vec::new();
        let mut uvs: Vec<Vector3> = Vec::new();
        let mut i: usize = 0;
        assert(items@.take(0) =~= Seq::<Item>::empty());
        while i < items.len()
            invariant
                i <= items@.len(),
                read(items@.take(i as int)) == Some(
                    Pools {
                        positions: positions@,
                        normals: normals@,
                        uvs: uvs@,
                        vertices: model.vertices@,
                    },
                ),
            decreases items@.len() - i,
        {
            let ghost before = Pools {
                positions: positions@,
                normals: normals@,
                uvs: uvs@,
                vertices: model.vertices@,
            };
            proof {
                assert(items@.take(i + 1).drop_last() =~= items@.take(i as int));
                assert(items@.take(i + 1).last() == items@[i as int]);
                assert(read(items@.take(i + 1)) == before.take(items@[i as int]));
            }
            match items[i] {
                Item::Position(p) => {
                    positions.push(p);
                },
                Item::Normal(n) => {
                    normals.push(n);
                },
                Item::Texture(t) => {
                    uvs.push(t);
                },
                Item::Face(a, b, c) => {
                    let found = model.process(a.v, a.t, a.n, &positions, &normals, &uvs)
                        && model.process(b.v, b.t, b.n, &positions, &normals, &uvs)
                        && model.process(c.v, c.t, c.n, &positions, &normals, &uvs);
                    if !found {
                        proof {
                            read_fails_on(items@, i + 1);
                        }
                        return None;
                    }
                },
            }
            i = i + 1;
        }
        assert(items@.take(items@.len() as int) =~= items@);
        Some(model)
    }

    /// Adds the vertex of a corner to the model. The corner gives the places,
    /// counted from one, of its position, texture coordinate and normal in the
    /// three lists. Returns whether the three exist; if one does not, the
    /// model stays as it is.
    pub fn process(
        &mut self,
        v: usize,
        t: usize,
        n: usize,
        positions: &Vec<Vector3>,
        normals: &Vec<Vector3>,
        uvs: &Vec<Vector3>,
    ) -> (ok: bool)
        ensures
            ok == Model::resolves(v, t, n, positions@, normals@, uvs@),
            ok ==> final(self).vertices@ == old(self).vertices@.push(
                Model::vertex(v, t, n, positions@, normals@, uvs@),
            ),
            !ok ==> final(self).vertices@ == old(self).vertices@,
    {
        if v < 1 || v > positions.len() || t < 1 || t > uvs.len() || n < 1 || n > normals.len() {
            return false;
        }
        let position = positions[v - 1];
        let uv = uvs[t - 1];
        let gray = Scalar::from_bits(HALF);
        self.vertices.push(
            Vertex::full(
                position.x.negated(),
                position.y,
                position.z,
                Color::create(gray, gray, gray),
                uv.x,
                uv.y,
                normals[n - 1],
            ),
        );
        true
    }
}

} // verus!

use vstd::prelude::*;

use crate::text::{has_prefix, starts_with, trim, trim_bounds};

verus! {

/// What a section of a scene file describes, by the start of its name.
#[derive(Clone, Copy, Debug, PartialEq, Eq, Structural)]
pub enum SectionKind {
    Sphere,
    Plane,
    Light,
}

/// The kind of the section named `name`: one whose name begins with
/// `sphere`, `plane` or `light`.
pub open spec fn kind_of_section(name: Seq<char>) -> Option<SectionKind> {
    if has_prefix(name, seq!['s', 'p', 'h', 'e', 'r', 'e']) {
        Some(SectionKind::Sphere)
    } else if has_prefix(name, seq!['p', 'l', 'a', 'n', 'e']) {
        Some(SectionKind::Plane)
    } else if has_prefix(name, seq!['l', 'i', 'g', 'h', 't']) {
        Some(SectionKind::Light)
    } else {
        None
    }
}

/// The kind of the section named `name`, if its name gives one.
pub fn section_kind(name: &str) -> (r: Option<SectionKind>)
    ensures
        r == kind_of_section(name@),
{
    proof {
        reveal_strlit("sphere");
        reveal_strlit("plane");
        reveal_strlit("light");
    }
    if starts_with(name, "sphere") {
        assert("sphere"@ =~= seq!['s', 'p', 'h', 'e', 'r', 'e']);
        Some(SectionKind::Sphere)
    } else if starts_with(name, "plane") {
        assert("sphere"@ =~= seq!['s', 'p', 'h', 'e', 'r', 'e']);
        assert("plane"@ =~= seq!['p', 'l', 'a', 'n', 'e']);
        Some(SectionKind::Plane)
    } else if starts_with(name, "light") {
        assert("sphere"@ =~= seq!['s', 'p', 'h', 'e', 'r', 'e']);
        assert("plane"@ =~= seq!['p', 'l', 'a', 'n', 'e']);
        assert("light"@ =~= seq!['l', 'i', 'g', 'h', 't']);
        Some(SectionKind::Light)
    } else {
        assert("sphere"@ =~= seq!['s', 'p', 'h', 'e', 'r', 'e']);
        assert("plane"@ =~= seq!['p', 'l', 'a', 'n', 'e']);
        assert("light"@ =~= seq!['l', 'i', 'g', 'h', 't']);
        None
    }
}

/// The positions in `names` of the sections of kind `kind`, in their order:
/// the order in which a scene holds its objects and lights.
pub fn sections_of_kind(names: &Vec<String>, kind: SectionKind) -> (r: Vec<usize>)
    ensures
        forall|a: int, b: int| 0 <= a < b < r@.len() ==> r@[a] < r@[b],
        forall|k: int|
            0 <= k < r@.len() ==> r@[k] < names@.len() && kind_of_section(
                names@[r@[k] as int]@,
            ) == Some(kind),
        forall|i: int|
            0 <= i < names@.len() && kind_of_section(#[trigger] names@[i]@) == Some(kind) ==> exists|
                k: int,
            |
                0 <= k < r@.len() && r@[k] == i,
{
    let mut r: Vec<usize> = Vec::new();
    let mut i: usize = 0;
    while i < names.len()
        invariant
            i <= names@.len(),
            forall|a: int, b: int| 0 <= a < b < r@.len() ==> r@[a] < r@[b],
            forall|k: int|
                0 <= k < r@.len() ==> r@[k] < i && kind_of_section(names@[r@[k] as int]@)
                    == Some(kind),
            forall|j: int|
                0 <= j < i && kind_of_section(#[trigger] names@[j]@) == Some(kind) ==> exists|
                    k: int,
                |
                    0 <= k < r@.len() && r@[k] == j,
        decreases names@.len() - i,
    {
        let ghost before = r@;
        if section_kind(names[i].as_str()) == Some(kind) {
            r.push(i);
        }
        proof {
            assert forall|j: int|
                0 <= j < i + 1 && kind_of_section(#[trigger] names@[j]@) == Some(kind) implies exists|
                    k: int,
                |
                    0 <= k < r@.len() && r@[k] == j by {
                if j < i {
                    let k = choose|k: int| 0 <= k < before.len() && before[k] == j;
                    assert(r@[k] == j);
                } else {
                    assert(r@[r@.len() - 1] == j);
                }
            };
        }
        i = i + 1;
    }
    r
}

/// Why the text of a vector could not be read.
#[derive(Clone, Copy, Debug, PartialEq, Eq, Structural)]
pub enum VectorTextError {
    /// The text is empty or white space only.
    Empty,
    /// The text begins with this character, which is neither `[`, `(` nor a
    /// decimal digit.
    BadStart(char),
    /// The text opens a bracket and does not end with this closing one.
    Unterminated(char),
    /// The text lists this many elements, not three.
    WrongDimension(usize),
}

/// The pieces of `s` between the occurrences of `sep`, in order: one more
/// piece than there are separators, empty pieces included.
pub open spec fn split_on(s: Seq<char>, sep: char) -> Seq<Seq<char>>
    decreases s.len(),
{
    if s.len() == 0 {
        seq![Seq::<char>::empty()]
    } else {
        let rest = split_on(s.drop_last(), sep);
        if s.last() == sep {
            rest.push(Seq::<char>::empty())
        } else {
            rest.update(rest.len() - 1, rest.last().push(s.last()))
        }
    }
}

/// The list inside a trimmed vector text: what stands between `[` and `]`
/// or between `(` and `)`, or the whole text where it begins with a digit.
pub open spec fn vector_body(t: Seq<char>) -> Result<Seq<char>, VectorTextError> {
    if t.len() == 0 {
        Err(VectorTextError::Empty)
    } else if t[0] == '[' || t[0] == '(' {
        let close = if t[0] == '[' { ']' } else { ')' };
        if t.len() >= 2 && t.last() == close {
            Ok(t.subrange(1, t.len() - 1))
        } else {
            Err(VectorTextError::Unterminated(close))
        }
    } else if '0' <= t[0] && t[0] <= '9' {
        Ok(t)
    } else {
        Err(VectorTextError::BadStart(t[0]))
    }
}

/// The three element texts of a vector written `[x, y, z]`, `(x, y, z)` or
/// `x, y, z`, each without white space at its ends.
pub open spec fn vector_parts(text: Seq<char>) -> Result<Seq<Seq<char>>, VectorTextError> {
    match vector_body(trim(text)) {
        Err(e) => Err(e),
        Ok(body) => {
            let parts = split_on(body, ',');
            if parts.len() != 3 {
                Err(VectorTextError::WrongDimension(parts.len() as usize))
            } else {
                Ok(parts.map_values(|part: Seq<char>| trim(part)))
            }
        },
    }
}

spec fn texts_at(s: Seq<char>, bounds: Seq<(usize, usize)>) -> Seq<Seq<char>> {
    bounds.map_values(|b: (usize, usize)| s.subrange(b.0 as int, b.1 as int))
}

proof fn lemma_split_len(s: Seq<char>, sep: char)
    ensures
        1 <= split_on(s, sep).len() <= s.len() + 1,
    decreases s.len(),
{
    if s.len() > 0 {
        lemma_split_len(s.drop_last(), sep);
    }
}

/// Extending the text `s[p..k]` by `s[k]` extends its split.
proof fn lemma_split_step(s: Seq<char>, p: int, k: int, sep: char)
    requires
        0 <= p <= k < s.len(),
    ensures
        split_on(s.subrange(p, k + 1), sep) == ({
            let rest = split_on(s.subrange(p, k), sep);
            if s[k] == sep {
                rest.push(Seq::<char>::empty())
            } else {
                rest.update(rest.len() - 1, rest.last().push(s[k]))
            }
        }),
{
    assert(s.subrange(p, k + 1).drop_last() =~= s.subrange(p, k));
}

/// The bounds, within `text`, of the comma-separated pieces of the
/// characters `p..q`.
fn comma_pieces(text: &str, p: usize, q: usize) -> (r: Vec<(usize, usize)>)
    requires
        p <= q <= text@.len(),
    ensures
        texts_at(text@, r@) == split_on(text@.subrange(p as int, q as int), ','),
        forall|i: int| 0 <= i < r@.len() ==> (#[trigger] r@[i]).0 <= r@[i].1 <= q,
{
    let mut pieces: Vec<(usize, usize)> = Vec::new();
    let mut start = p;
    let mut k = p;
    assert(text@.subrange(start as int, k as int) =~= Seq::<char>::empty());
    assert(texts_at(text@, pieces@).push(text@.subrange(start as int, k as int)) =~= seq![
        Seq::<char>::empty(),
    ]);
    while k < q
        invariant
            p <= start <= k <= q <= text@.len(),
            split_on(text@.subrange(p as int, k as int), ',') == texts_at(text@, pieces@).push(
                text@.subrange(start as int, k as int),
            ),
            forall|i: int|
                0 <= i < pieces@.len() ==> (#[trigger] pieces@[i]).0 <= pieces@[i].1 <= q,
        decreases q - k,
    {
        let ghost prev = texts_at(text@, pieces@);
        proof {
            lemma_split_step(text@, p as int, k as int, ',');
        }
        if text.get_char(k) == ',' {
            pieces.push((start, k));
            start = k + 1;
            assert(text@.subrange(start as int, k as int + 1) =~= Seq::<char>::empty());
            assert(texts_at(text@, pieces@) =~= prev.push(
                text@.subrange(pieces@.last().0 as int, k as int),
            ));
            assert(texts_at(text@, pieces@).push(text@.subrange(start as int, k as int + 1))
                =~= prev.push(text@.subrange(pieces@.last().0 as int, k as int)).push(
                Seq::<char>::empty(),
            ));
        } else {
            assert(text@.subrange(start as int, k as int).push(text@[k as int]) =~= text@.subrange(
                start as int,
                k as int + 1,
            ));
            assert(texts_at(text@, pieces@).push(text@.subrange(start as int, k as int + 1))
                =~= prev.push(text@.subrange(start as int, k as int)).update(
                prev.len() as int,
                text@.subrange(start as int, k as int).push(text@[k as int]),
            ));
        }
        k = k + 1;
    }
    let ghost prev = texts_at(text@, pieces@);
    pieces.push((start, q));
    assert(texts_at(text@, pieces@) =~= prev.push(text@.subrange(start as int, q as int)));
    pieces
}

/// The bounds, within `text`, of the list of a vector: the characters
/// between its brackets, or all of it where it opens with a digit.
fn vector_body_bounds(text: &str) -> (r: Result<(usize, usize), VectorTextError>)
    ensures
        match vector_body(trim(text@)) {
            Ok(body) => r.is_ok() && r.unwrap().0 <= r.unwrap().1 <= text@.len()
                && text@.subrange(r.unwrap().0 as int, r.unwrap().1 as int) == body,
            Err(e) => r == Err::<(usize, usize), VectorTextError>(e),
        },
{
    let n = text.unicode_len();
    let (a, b) = trim_bounds(text, 0, n);
    assert(text@.subrange(0, n as int) =~= text@);
    let ghost t = text@.subrange(a as int, b as int);
    if a == b {
        return Err(VectorTextError::Empty);
    }
    let first = text.get_char(a);
    assert(t[0] == first);
    if first == '[' || first == '(' {
        let close = if first == '[' {
            ']'
        } else {
            ')'
        };
        if b - a >= 2 && text.get_char(b - 1) == close {
            assert(t.subrange(1, t.len() - 1) =~= text@.subrange(a + 1, b - 1));
            Ok((a + 1, b - 1))
        } else {
            Err(VectorTextError::Unterminated(close))
        }
    } else if '0' <= first && first <= '9' {
        Ok((a, b))
    } else {
        Err(VectorTextError::BadStart(first))
    }
}

/// Splits the text of a vector into the texts of its three elements; the
/// numbers themselves are read by the caller.
pub fn vector_components(text: &str) -> (r: Result<Vec<String>, VectorTextError>)
    ensures
        match vector_parts(text@) {
            Ok(parts) => r.is_ok() && r.unwrap()@.len() == parts.len() && forall|k: int|
                0 <= k < parts.len() ==> (#[trigger] r.unwrap()@[k])@ == parts[k],
            Err(e) => r == Err::<Vec<String>, VectorTextError>(e),
        },
{
    let (p, q) = match vector_body_bounds(text) {
        Ok(bounds) => bounds,
        Err(e) => {
            return Err(e);
        },
    };
    let ghost body = text@.subrange(p as int, q as int);
    let pieces = comma_pieces(text, p, q);
    proof {
        lemma_split_len(body, ',');
    }
    if pieces.len() != 3 {
        return Err(VectorTextError::WrongDimension(pieces.len()));
    }
    let ghost parts = split_on(body, ',').map_values(|part: Seq<char>| trim(part));
    let mut out: Vec<String> = Vec::new();
    let mut i: usize = 0;
    while i < 3
        invariant
            i <= 3,
            pieces@.len() == 3,
            parts.len() == 3,
            q <= text@.len(),
            forall|j: int| 0 <= j < 3 ==> (#[trigger] pieces@[j]).0 <= pieces@[j].1 <= q,
            forall|j: int|
                0 <= j < 3 ==> #[trigger] parts[j] == trim(
                    text@.subrange(pieces@[j].0 as int, pieces@[j].1 as int),
                ),
            out@.len() == i,
            forall|j: int| 0 <= j < i ==> (#[trigger] out@[j])@ == parts[j],
        decreases 3 - i,
    {
        let (x, y) = pieces[i];
        let (c, d) = trim_bounds(text, x, y);
        out.push(String::from_str(text.substring_char(c, d)));
        i = i + 1;
    }
    Ok(out)
}

} // verus!

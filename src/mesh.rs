//! The integer side of the mesh text format: splitting a line into fields,
//! telling record kinds apart, reading face records, and fetching the three
//! attributes that a face refers to.
use vstd::prelude::*;

verus! {

/// Indices into the position, texture-coordinate and normal arrays of a mesh,
/// one of each per corner.
#[derive(Clone, Copy, Debug)]
pub struct Face {
    pub vertices: [usize; 3],
    pub uvs: [usize; 3],
    pub normals: [usize; 3],
}

/// What a line of the mesh format holds, by its first field.
#[derive(Clone, Copy, Debug, PartialEq, Eq, Structural)]
pub enum RecordKind {
    Position,
    TexCoord,
    Normal,
    Face,
    Other,
}

/// The fields of `s` between occurrences of `sep`: `k` separators give
/// `k + 1` fields, empty ones included.
pub open spec fn split_on(s: Seq<u8>, sep: u8) -> Seq<Seq<u8>>
    decreases s.len(),
{
    if s.len() == 0 {
        seq![Seq::empty()]
    } else {
        let rest = split_on(s.drop_last(), sep);
        if s.last() == sep {
            rest.push(Seq::empty())
        } else {
            rest.update(rest.len() - 1, rest.last().push(s.last()))
        }
    }
}

pub proof fn lemma_split_on_nonempty(s: Seq<u8>, sep: u8)
    ensures
        split_on(s, sep).len() >= 1,
    decreases s.len(),
{
    if s.len() > 0 {
        lemma_split_on_nonempty(s.drop_last(), sep);
    }
}

pub open spec fn is_digit(b: u8) -> bool {
    48 <= b <= 57
}

/// The value of a string of decimal digits.
pub open spec fn digits_value(s: Seq<u8>) -> nat
    decreases s.len(),
{
    if s.len() == 0 {
        0
    } else {
        10 * digits_value(s.drop_last()) + (s.last() - 48) as nat
    }
}

/// A 1-based index written in decimal, as its 0-based value; `None` where the
/// field is empty, holds a non-digit, is zero or does not fit a `usize`.
pub open spec fn index_spec(s: Seq<u8>) -> Option<nat> {
    if s.len() > 0 && (forall|i: int| 0 <= i < s.len() ==> is_digit(#[trigger] s[i])) && 1 <= digits_value(s)
        <= usize::MAX {
        Some((digits_value(s) - 1) as nat)
    } else {
        None
    }
}

/// A corner reference `position/uv/normal` of three 1-based indices.
pub open spec fn corner_spec(s: Seq<u8>) -> Option<(nat, nat, nat)> {
    let f = split_on(s, 47);
    if f.len() == 3 && index_spec(f[0]) is Some && index_spec(f[1]) is Some && index_spec(f[2]) is Some {
        Some((index_spec(f[0])->0, index_spec(f[1])->0, index_spec(f[2])->0))
    } else {
        None
    }
}

/// A face record: `f` and three corner references, separated by single spaces.
pub open spec fn face_spec(line: Seq<u8>) -> Option<Face> {
    let t = split_on(line, 32);
    if t.len() == 4 && t[0] == seq![102u8] && corner_spec(t[1]) is Some && corner_spec(t[2]) is Some
        && corner_spec(t[3]) is Some {
        let c0 = corner_spec(t[1])->0;
        let c1 = corner_spec(t[2])->0;
        let c2 = corner_spec(t[3])->0;
        Some(
            Face {
                vertices: [c0.0 as usize, c1.0 as usize, c2.0 as usize],
                uvs: [c0.1 as usize, c1.1 as usize, c2.1 as usize],
                normals: [c0.2 as usize, c1.2 as usize, c2.2 as usize],
            },
        )
    } else {
        None
    }
}

/// The kind of a line, by its first space-separated field: `v`, `vt`, `vn`, `f`.
pub open spec fn record_kind_spec(line: Seq<u8>) -> RecordKind {
    let head = split_on(line, 32)[0];
    if head == seq![118u8] {
        RecordKind::Position
    } else if head == seq![118u8, 116u8] {
        RecordKind::TexCoord
    } else if head == seq![118u8, 110u8] {
        RecordKind::Normal
    } else if head == seq![102u8] {
        RecordKind::Face
    } else {
        RecordKind::Other
    }
}

/// The fields of `s` between occurrences of `sep`.
pub fn split_fields(s: &[u8], sep: u8) -> (r: Vec<Vec<u8>>)
    ensures
        r@.len() == split_on(s@, sep).len(),
        forall|i: int| 0 <= i < r@.len() ==> (#[trigger] r@[i])@ == split_on(s@, sep)[i],
{
    let mut fields: Vec<Vec<u8>> = Vec::new();
    let mut cur: Vec<u8> = Vec::new();
    let mut i: usize = 0;
    while i < s.len()
        invariant
            i <= s@.len(),
            split_on(s@.subrange(0, i as int), sep).len() == fields@.len() + 1,
            forall|j: int| 0 <= j < fields@.len() ==> (#[trigger] fields@[j])@ == split_on(s@.subrange(0, i as int), sep)[j],
            cur@ == split_on(s@.subrange(0, i as int), sep).last(),
        decreases s@.len() - i,
    {
        let ghost before = split_on(s@.subrange(0, i as int), sep);
        proof {
            assert(s@.subrange(0, i + 1).drop_last() =~= s@.subrange(0, i as int));
        }
        if s[i] == sep {
            let done = cur;
            fields.push(done);
            cur = Vec::new();
            assert(cur@ =~= Seq::<u8>::empty());
        } else {
            cur.push(s[i]);
        }
        i = i + 1;
    }
    fields.push(cur);
    assert(s@.subrange(0, s@.len() as int) =~= s@);
    fields
}

/// Reads a 1-based decimal index as a 0-based one.
pub fn parse_index(s: &Vec<u8>) -> (r: Option<usize>)
    ensures
        r matches Some(v) ==> index_spec(s@) == Some(v as nat),
        r is None ==> index_spec(s@) is None,
{
    if s.len() == 0 {
        return None;
    }
    let mut value: usize = 0;
    let mut i: usize = 0;
    while i < s.len()
        invariant
            0 < s@.len(),
            i <= s@.len(),
            forall|j: int| 0 <= j < i ==> is_digit(#[trigger] s@[j]),
            value == digits_value(s@.subrange(0, i as int)),
        decreases s@.len() - i,
    {
        let b: u8 = s[i];
        proof {
            assert(s@.subrange(0, i + 1).drop_last() =~= s@.subrange(0, i as int));
        }
        if b < 48 || b > 57 {
            assert(!is_digit(s@[i as int]));
            return None;
        }
        let d: usize = (b - 48) as usize;
        if value > (usize::MAX - d) / 10 {
            proof {
                lemma_digits_value_grows(s@, i as int + 1);
            }
            return None;
        }
        value = 10 * value + d;
        i = i + 1;
    }
    assert(s@.subrange(0, s@.len() as int) =~= s@);
    if value == 0 {
        return None;
    }
    Some(value - 1)
}

/// A prefix of a digit string is worth no more than the whole.
proof fn lemma_digits_value_grows(s: Seq<u8>, k: int)
    requires
        0 <= k <= s.len(),
        forall|j: int| 0 <= j < k ==> is_digit(#[trigger] s[j]),
    ensures
        (forall|j: int| 0 <= j < s.len() ==> is_digit(#[trigger] s[j]))
            ==> digits_value(s.subrange(0, k)) <= digits_value(s),
    decreases s.len() - k,
{
    if k < s.len() && (forall|j: int| 0 <= j < s.len() ==> is_digit(#[trigger] s[j])) {
        lemma_digits_value_grows(s, k + 1);
        assert(s.subrange(0, k + 1).drop_last() =~= s.subrange(0, k));
    } else if k == s.len() {
        assert(s.subrange(0, k) =~= s);
    }
}


/// Reads a corner reference `position/uv/normal` as three 0-based indices.
pub fn parse_corner(s: &Vec<u8>) -> (r: Option<(usize, usize, usize)>)
    ensures
        r matches Some(c) ==> corner_spec(s@) == Some((c.0 as nat, c.1 as nat, c.2 as nat)),
        r is None ==> corner_spec(s@) is None,
{
    let f = split_fields(s.as_slice(), 47);
    if f.len() != 3 {
        return None;
    }
    let p = parse_index(&f[0]);
    let t = parse_index(&f[1]);
    let n = parse_index(&f[2]);
    match (p, t, n) {
        (Some(p), Some(t), Some(n)) => Some((p, t, n)),
        _ => None,
    }
}

/// Reads a face record: `f` and three corner references, separated by
/// single spaces. `None` for any other line.
pub fn parse_face(line: &[u8]) -> (r: Option<Face>)
    ensures
        r matches Some(f) ==> face_spec(line@) == Some(f),
        r is None ==> face_spec(line@) is None,
{
    let t = split_fields(line, 32);
    if t.len() != 4 {
        return None;
    }
    if !(t[0].len() == 1 && t[0][0] == 102) {
        assert(t@[0]@ != seq![102u8]);
        return None;
    }
    assert(t@[0]@ =~= seq![102u8]);
    let c0 = parse_corner(&t[1]);
    let c1 = parse_corner(&t[2]);
    let c2 = parse_corner(&t[3]);
    match (c0, c1, c2) {
        (Some(c0), Some(c1), Some(c2)) => Some(
            Face {
                vertices: [c0.0, c1.0, c2.0],
                uvs: [c0.1, c1.1, c2.1],
                normals: [c0.2, c1.2, c2.2],
            },
        ),
        _ => None,
    }
}

fn field_is(f: &Vec<u8>, a: u8, b: Option<u8>) -> (r: bool)
    ensures
        r == (f@ == (match b {
            Some(b) => seq![a, b],
            None => seq![a],
        })),
{
    match b {
        None => {
            if f.len() == 1 && f[0] == a {
                assert(f@ =~= seq![a]);
                true
            } else {
                assert(f@.len() != 1 || f@[0] != seq![a][0]);
                false
            }
        },
        Some(b) => {
            if f.len() == 2 && f[0] == a && f[1] == b {
                assert(f@ =~= seq![a, b]);
                true
            } else {
                assert(f@.len() != 2 || f@[0] != seq![a, b][0] || f@[1] != seq![a, b][1]);
                false
            }
        },
    }
}

/// The kind of a line of the mesh format.
pub fn record_kind(line: &[u8]) -> (r: RecordKind)
    ensures
        r == record_kind_spec(line@),
{
    proof {
        lemma_split_on_nonempty(line@, 32);
    }
    let t = split_fields(line, 32);
    let head = &t[0];
    if field_is(head, 118, None) {
        RecordKind::Position
    } else if field_is(head, 118, Some(116)) {
        RecordKind::TexCoord
    } else if field_is(head, 118, Some(110)) {
        RecordKind::Normal
    } else if field_is(head, 102, None) {
        RecordKind::Face
    } else {
        RecordKind::Other
    }
}

/// The three items at `idx`, or `None` where an index is out of range.
pub fn gather<T: Copy>(items: &Vec<T>, idx: &[usize; 3]) -> (r: Option<[T; 3]>)
    ensures
        r is Some <==> (idx[0] < items@.len() && idx[1] < items@.len() && idx[2] < items@.len()),
        r matches Some(g) ==> g[0] == items@[idx[0] as int] && g[1] == items@[idx[1] as int] && g[2]
            == items@[idx[2] as int],
{
    let n = items.len();
    if idx[0] < n && idx[1] < n && idx[2] < n {
        Some([items[idx[0]], items[idx[1]], items[idx[2]]])
    } else {
        None
    }
}

} // verus!

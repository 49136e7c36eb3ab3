use vstd::prelude::*;

use crate::text::{
    copy_range, decimal, float_literal, is_float_literal, is_white_space, lemma_decimal_is_word,
    lemma_tokens_join, lemma_tokens_word, parse_index, parse_index_spec, split_white_space,
    tokens,
};

verus! {

// ---------------------------------------------------------------------------
// Lines (as `str::lines`)
// ---------------------------------------------------------------------------

/// The position of the first line feed at or after `i`, or the length.
pub open spec fn next_newline(t: Seq<char>, i: int) -> int
    decreases t.len() - i,
{
    if i < 0 || i >= t.len() || t[i] == '\n' {
        i
    } else {
        next_newline(t, i + 1)
    }
}

pub proof fn lemma_next_newline(t: Seq<char>, i: int)
    requires
        0 <= i <= t.len(),
    ensures
        i <= next_newline(t, i) <= t.len(),
        forall|k: int| i <= k < next_newline(t, i) ==> #[trigger] t[k] != '\n',
        next_newline(t, i) < t.len() ==> t[next_newline(t, i)] == '\n',
    decreases t.len() - i,
{
    if i < t.len() && t[i] != '\n' {
        lemma_next_newline(t, i + 1);
    }
}

/// The line that starts at `i`: up to the next line feed, without a carriage return
/// right before that line feed.
pub open spec fn line_at(t: Seq<char>, i: int) -> Seq<char> {
    let j = next_newline(t, i);
    let raw = t.subrange(i, j);
    if j < t.len() && raw.len() > 0 && raw.last() == '\r' {
        raw.drop_last()
    } else {
        raw
    }
}

/// Where the line after the one that starts at `i` starts.
pub open spec fn line_after(t: Seq<char>, i: int) -> int {
    let j = next_newline(t, i);
    if j < t.len() {
        j + 1
    } else {
        t.len() as int
    }
}

// ---------------------------------------------------------------------------
// The meaning of an OBJ text
// ---------------------------------------------------------------------------

/// Why an OBJ text is refused.
pub enum Fault {
    /// A vertex coordinate is not a floating-point literal.
    BadFloat(Seq<char>),
    /// A vertex line holds this many coordinates, not three.
    VertexArity(nat, Seq<char>),
    /// A face index is not a decimal index that fits in `usize`.
    BadIndex(Seq<char>),
    /// A face line holds this many indices, not three.
    FaceArity(nat, Seq<char>),
    /// No vertex line.
    NoVertices,
    /// No face line.
    NoFaces,
    /// A face index is 0, which has no predecessor: the 1-based index cannot be made
    /// 0-based.
    IndexUnderflow,
}

/// The meaning of an OBJ text: the coordinates of the vertices, as text, and the
/// triangles, as 0-based indices.
pub struct MeshSpec {
    pub vertices: Seq<(Seq<char>, Seq<char>, Seq<char>)>,
    pub triangles: Seq<[usize; 3]>,
}

pub open spec fn starts_with_tag(l: Seq<char>, tag: char) -> bool {
    l.len() >= 2 && l[0] == tag && l[1] == ' '
}

pub open spec fn first_non_float(ts: Seq<Seq<char>>) -> Option<Seq<char>>
    decreases ts.len(),
{
    if ts.len() == 0 {
        None
    } else if !is_float_literal(ts[0]) {
        Some(ts[0])
    } else {
        first_non_float(ts.drop_first())
    }
}

pub open spec fn first_non_index(ts: Seq<Seq<char>>) -> Option<Seq<char>>
    decreases ts.len(),
{
    if ts.len() == 0 {
        None
    } else if parse_index_spec(ts[0]) is None {
        Some(ts[0])
    } else {
        first_non_index(ts.drop_first())
    }
}

/// A line `v x y z`: three coordinates, each a floating-point literal.
pub open spec fn vertex_spec(l: Seq<char>) -> Result<(Seq<char>, Seq<char>, Seq<char>), Fault> {
    let ts = tokens(l.skip(2));
    match first_non_float(ts) {
        Some(bad) => Err(Fault::BadFloat(bad)),
        None => if ts.len() != 3 {
            Err(Fault::VertexArity(ts.len(), l))
        } else {
            Ok((ts[0], ts[1], ts[2]))
        },
    }
}

/// A line `f i j k`: three 1-based indices, made 0-based.
pub open spec fn face_spec(l: Seq<char>) -> Result<[usize; 3], Fault> {
    let ts = tokens(l.skip(2));
    match first_non_index(ts) {
        Some(bad) => Err(Fault::BadIndex(bad)),
        None => if ts.len() != 3 {
            Err(Fault::FaceArity(ts.len(), l))
        } else {
            let i0 = parse_index_spec(ts[0])->0;
            let i1 = parse_index_spec(ts[1])->0;
            let i2 = parse_index_spec(ts[2])->0;
            if i0 == 0 || i1 == 0 || i2 == 0 {
                Err(Fault::IndexUnderflow)
            } else {
                Ok([(i0 - 1) as usize, (i1 - 1) as usize, (i2 - 1) as usize])
            }
        },
    }
}

/// Reads the lines from position `i` on into `m`; lines with other tags are skipped.
/// The first faulty line decides the fault.
pub open spec fn read_from(t: Seq<char>, i: int, m: MeshSpec) -> Result<MeshSpec, Fault>
    decreases t.len() - i,
{
    if i < 0 || i >= t.len() {
        Ok(m)
    } else {
        proof {
            lemma_next_newline(t, i);
        }
        let l = line_at(t, i);
        let next = line_after(t, i);
        if starts_with_tag(l, 'v') {
            match vertex_spec(l) {
                Ok(v) => read_from(
                    t,
                    next,
                    MeshSpec { vertices: m.vertices.push(v), triangles: m.triangles },
                ),
                Err(f) => Err(f),
            }
        } else if starts_with_tag(l, 'f') {
            match face_spec(l) {
                Ok(tri) => read_from(
                    t,
                    next,
                    MeshSpec { vertices: m.vertices, triangles: m.triangles.push(tri) },
                ),
                Err(f) => Err(f),
            }
        } else {
            read_from(t, next, m)
        }
    }
}

pub open spec fn empty_mesh() -> MeshSpec {
    MeshSpec { vertices: seq![], triangles: seq![] }
}

/// The meaning of a whole OBJ text: it must hold at least one vertex and one face.
pub open spec fn read_obj_spec(t: Seq<char>) -> Result<MeshSpec, Fault> {
    match read_from(t, 0, empty_mesh()) {
        Ok(m) => if m.vertices.len() == 0 {
            Err(Fault::NoVertices)
        } else if m.triangles.len() == 0 {
            Err(Fault::NoFaces)
        } else {
            Ok(m)
        },
        Err(f) => Err(f),
    }
}

// ---------------------------------------------------------------------------
// Reading
// ---------------------------------------------------------------------------

/// The three coordinates of a vertex line, as text.
pub struct VertexText {
    pub x: Vec<char>,
    pub y: Vec<char>,
    pub z: Vec<char>,
}

impl VertexText {
    pub open spec fn view(&self) -> (Seq<char>, Seq<char>, Seq<char>) {
        (self.x@, self.y@, self.z@)
    }
}

/// The vertices and triangles of an OBJ text.
pub struct ObjMesh {
    pub vertices: Vec<VertexText>,
    pub triangles: Vec<[usize; 3]>,
}

impl ObjMesh {
    pub open spec fn view(&self) -> MeshSpec {
        MeshSpec {
            vertices: self.vertices@.map_values(|v: VertexText| v@),
            triangles: self.triangles@,
        }
    }
}

/// Why an OBJ text is refused.
pub enum ObjError {
    BadFloat(Vec<char>),
    VertexArity { count: usize, line: Vec<char> },
    BadIndex(Vec<char>),
    FaceArity { count: usize, line: Vec<char> },
    NoVertices,
    NoFaces,
}

impl ObjError {
    pub open spec fn view(&self) -> Fault {
        match self {
            ObjError::BadFloat(t) => Fault::BadFloat(t@),
            ObjError::VertexArity { count, line } => Fault::VertexArity(*count as nat, line@),
            ObjError::BadIndex(t) => Fault::BadIndex(t@),
            ObjError::FaceArity { count, line } => Fault::FaceArity(*count as nat, line@),
            ObjError::NoVertices => Fault::NoVertices,
            ObjError::NoFaces => Fault::NoFaces,
        }
    }
}

enum Scan {
    Done(ObjMesh),
    Refused(ObjError),
    Underflow,
}

spec fn scan_meaning(r: Scan) -> Result<MeshSpec, Fault> {
    match r {
        Scan::Done(m) => Ok(m@),
        Scan::Refused(e) => Err(e@),
        Scan::Underflow => Err(Fault::IndexUnderflow),
    }
}

fn copy_all(v: &Vec<char>) -> (c: Vec<char>)
    ensures
        c@ == v@,
{
    let c = copy_range(v.as_slice(), 0, v.len());
    assert(c@ =~= v@);
    c
}

/// The line that starts at `i`, and where the next one starts.
fn read_line(t: &[char], i: usize) -> (res: (Vec<char>, usize))
    requires
        i < t@.len(),
    ensures
        res.0@ == line_at(t@, i as int),
        res.1 == line_after(t@, i as int),
{
    let n = t.len();
    let mut j = i;
    while j < n && t[j] != '\n'
        invariant
            n == t@.len(),
            i <= j <= n,
            next_newline(t@, i as int) == next_newline(t@, j as int),
        decreases n - j,
    {
        j = j + 1;
    }
    let end = if j < n && j > i && t[j - 1] == '\r' {
        j - 1
    } else {
        j
    };
    let l = copy_range(t, i, end);
    proof {
        let raw = t@.subrange(i as int, j as int);
        if j < n && j > i && t@[j - 1] == '\r' {
            assert(raw.last() == t@[j - 1]);
            assert(raw.drop_last() =~= t@.subrange(i as int, end as int));
        } else {
            if j < n && raw.len() > 0 {
                assert(raw.last() == t@[j - 1]);
            }
        }
    }
    let next = if j < n {
        j + 1
    } else {
        n
    };
    (l, next)
}

fn vertex_line(l: &Vec<char>) -> (r: Result<VertexText, ObjError>)
    requires
        starts_with_tag(l@, 'v'),
    ensures
        match r {
            Ok(v) => vertex_spec(l@) == Ok::<_, Fault>(v@),
            Err(e) => vertex_spec(l@) == Err::<(Seq<char>, Seq<char>, Seq<char>), _>(e@),
        },
{
    let rest = copy_range(l.as_slice(), 2, l.len());
    assert(rest@ =~= l@.skip(2));
    let toks = split_white_space(rest.as_slice());
    let ghost ts = tokens(l@.skip(2));
    assert(toks@.map_values(|v: Vec<char>| v@) == ts);
    let mut k: usize = 0;
    assert(ts.skip(0) =~= ts);
    while k < toks.len()
        invariant
            0 <= k <= toks@.len(),
            toks@.map_values(|v: Vec<char>| v@) == ts,
            ts == tokens(l@.skip(2)),
            first_non_float(ts) == first_non_float(ts.skip(k as int)),
        decreases toks@.len() - k,
    {
        assert(ts.skip(k as int).len() > 0);
        assert(ts.skip(k as int)[0] == toks@[k as int]@);
        assert(ts.skip(k as int).drop_first() =~= ts.skip(k + 1));
        if !float_literal(toks[k].as_slice()) {
            let bad = copy_all(&toks[k]);
            assert(bad@ == ts[k as int]);
            assert(first_non_float(ts) == Some(ts[k as int]));
            return Err(ObjError::BadFloat(bad));
        }
        k = k + 1;
    }
    assert(ts.skip(k as int).len() == 0);
    if toks.len() != 3 {
        return Err(ObjError::VertexArity { count: toks.len(), line: copy_all(l) });
    }
    assert(ts[0] == toks@[0]@ && ts[1] == toks@[1]@ && ts[2] == toks@[2]@);
    Ok(VertexText { x: copy_all(&toks[0]), y: copy_all(&toks[1]), z: copy_all(&toks[2]) })
}

enum FaceScan {
    Done([usize; 3]),
    Refused(ObjError),
    Underflow,
}

spec fn face_meaning(r: FaceScan) -> Result<[usize; 3], Fault> {
    match r {
        FaceScan::Done(tri) => Ok(tri),
        FaceScan::Refused(e) => Err(e@),
        FaceScan::Underflow => Err(Fault::IndexUnderflow),
    }
}

fn face_line(l: &Vec<char>) -> (r: FaceScan)
    requires
        starts_with_tag(l@, 'f'),
    ensures
        face_meaning(r) == face_spec(l@),
{
    let rest = copy_range(l.as_slice(), 2, l.len());
    assert(rest@ =~= l@.skip(2));
    let toks = split_white_space(rest.as_slice());
    let ghost ts = tokens(l@.skip(2));
    assert(toks@.map_values(|v: Vec<char>| v@) == ts);
    let mut idx: Vec<usize> = Vec::new();
    let mut k: usize = 0;
    assert(ts.skip(0) =~= ts);
    while k < toks.len()
        invariant
            0 <= k <= toks@.len(),
            toks@.map_values(|v: Vec<char>| v@) == ts,
            ts == tokens(l@.skip(2)),
            first_non_index(ts) == first_non_index(ts.skip(k as int)),
            idx@.len() == k,
            forall|j: int| 0 <= j < k ==> parse_index_spec(ts[j]) == Some(#[trigger] idx@[j]),
        decreases toks@.len() - k,
    {
        assert(ts.skip(k as int).len() > 0);
        assert(ts.skip(k as int)[0] == toks@[k as int]@);
        assert(ts.skip(k as int).drop_first() =~= ts.skip(k + 1));
        match parse_index(toks[k].as_slice()) {
            Some(v) => {
                idx.push(v);
            },
            None => {
                let bad = copy_all(&toks[k]);
                assert(bad@ == ts[k as int]);
                assert(first_non_index(ts) == Some(ts[k as int]));
                return FaceScan::Refused(ObjError::BadIndex(bad));
            },
        }
        k = k + 1;
    }
    assert(ts.skip(k as int).len() == 0);
    if toks.len() != 3 {
        return FaceScan::Refused(ObjError::FaceArity { count: toks.len(), line: copy_all(l) });
    }
    if idx[0] == 0 || idx[1] == 0 || idx[2] == 0 {
        return FaceScan::Underflow;
    }
    FaceScan::Done([idx[0] - 1, idx[1] - 1, idx[2] - 1])
}

fn scan(t: &[char]) -> (r: Scan)
    ensures
        scan_meaning(r) == read_obj_spec(t@),
{
    let n = t.len();
    let mut vertices: Vec<VertexText> = Vec::new();
    let mut triangles: Vec<[usize; 3]> = Vec::new();
    let mut i: usize = 0;
    assert(vertices@.map_values(|v: VertexText| v@) =~= seq![]);
    assert(triangles@ =~= seq![]);
    while i < n
        invariant
            n == t@.len(),
            i <= n,
            read_from(t@, 0, empty_mesh()) == read_from(
                t@,
                i as int,
                MeshSpec {
                    vertices: vertices@.map_values(|v: VertexText| v@),
                    triangles: triangles@,
                },
            ),
        decreases n - i,
    {
        proof {
            lemma_next_newline(t@, i as int);
        }
        let ghost m = MeshSpec {
            vertices: vertices@.map_values(|v: VertexText| v@),
            triangles: triangles@,
        };
        let (l, next) = read_line(t, i);
        if l.len() >= 2 && l[0] == 'v' && l[1] == ' ' {
            match vertex_line(&l) {
                Ok(v) => {
                    let ghost vv = v@;
                    vertices.push(v);
                    assert(vertices@.map_values(|v: VertexText| v@) =~= m.vertices.push(vv));
                },
                Err(e) => {
                    return Scan::Refused(e);
                },
            }
        } else if l.len() >= 2 && l[0] == 'f' && l[1] == ' ' {
            match face_line(&l) {
                FaceScan::Done(tri) => {
                    triangles.push(tri);
                },
                FaceScan::Refused(e) => {
                    return Scan::Refused(e);
                },
                FaceScan::Underflow => {
                    return Scan::Underflow;
                },
            }
        }
        i = next;
    }
    if vertices.len() == 0 {
        return Scan::Refused(ObjError::NoVertices);
    }
    if triangles.len() == 0 {
        return Scan::Refused(ObjError::NoFaces);
    }
    Scan::Done(ObjMesh { vertices, triangles })
}

/// Reads an OBJ text: each line `v x y z` gives a vertex, each line `f i j k` a
/// triangle of 1-based vertex indices (kept 0-based); other lines are skipped.
pub fn parse_obj(t: &[char]) -> (r: Result<ObjMesh, ObjError>)
    requires
        read_obj_spec(t@) != Err::<MeshSpec, Fault>(Fault::IndexUnderflow),
    ensures
        match r {
            Ok(m) => read_obj_spec(t@) == Ok::<MeshSpec, Fault>(m@),
            Err(e) => read_obj_spec(t@) == Err::<MeshSpec, Fault>(e@),
        },
{
    match scan(t) {
        Scan::Done(m) => Ok(m),
        Scan::Refused(e) => Err(e),
        // not reached: the precondition rules out a zero index
        Scan::Underflow => Err(ObjError::NoVertices),
    }
}

/// Whether reading the OBJ text reaches a face index 0, before any other fault.
pub fn obj_index_underflows(t: &[char]) -> (b: bool)
    ensures
        b == (read_obj_spec(t@) == Err::<MeshSpec, Fault>(Fault::IndexUnderflow)),
{
    match scan(t) {
        Scan::Underflow => true,
        Scan::Done(m) => false,
        Scan::Refused(e) => {
            assert(e@ != Fault::IndexUnderflow);
            false
        },
    }
}


// ---------------------------------------------------------------------------
// Laws of reading
// ---------------------------------------------------------------------------

proof fn lemma_next_newline_shift(t: Seq<char>, i: int, u: Seq<char>, j: int)
    requires
        0 <= i <= t.len(),
        0 <= j <= u.len(),
        t.skip(i) == u.skip(j),
    ensures
        next_newline(t, i) - i == next_newline(u, j) - j,
    decreases t.len() - i,
{
    assert(t.skip(i).len() == t.len() - i);
    assert(u.skip(j).len() == u.len() - j);
    assert(t.len() - i == u.len() - j);
    if i < t.len() {
        assert(j < u.len());
        assert(t[i] == t.skip(i)[0]);
        assert(u[j] == u.skip(j)[0]);
        if t[i] != '\n' {
            assert(t.skip(i + 1) =~= t.skip(i).drop_first());
            assert(u.skip(j + 1) =~= u.skip(j).drop_first());
            lemma_next_newline_shift(t, i + 1, u, j + 1);
        }
    }
}

/// Reading from a position depends only on the text from that position on.
proof fn lemma_read_from_shift(t: Seq<char>, i: int, u: Seq<char>, j: int, m: MeshSpec)
    requires
        0 <= i <= t.len(),
        0 <= j <= u.len(),
        t.skip(i) == u.skip(j),
    ensures
        read_from(t, i, m) == read_from(u, j, m),
    decreases t.len() - i,
{
    assert(t.skip(i).len() == t.len() - i);
    assert(u.skip(j).len() == u.len() - j);
    assert(t.len() - i == u.len() - j);
    if i < t.len() {
        assert(j < u.len());
        lemma_next_newline(t, i);
        lemma_next_newline(u, j);
        lemma_next_newline_shift(t, i, u, j);
        let nt = next_newline(t, i);
        let nu = next_newline(u, j);
        assert(t.subrange(i, nt) =~= t.skip(i).take(nt - i));
        assert(u.subrange(j, nu) =~= u.skip(j).take(nu - j));
        assert(line_at(t, i) == line_at(u, j));
        let lt = line_after(t, i);
        let lu = line_after(u, j);
        assert(t.skip(lt) =~= t.skip(i).skip(lt - i));
        assert(u.skip(lu) =~= u.skip(j).skip(lu - j));
        let l = line_at(t, i);
        if starts_with_tag(l, 'v') {
            if let Ok(v) = vertex_spec(l) {
                lemma_read_from_shift(
                    t,
                    lt,
                    u,
                    lu,
                    MeshSpec { vertices: m.vertices.push(v), triangles: m.triangles },
                );
            }
        } else if starts_with_tag(l, 'f') {
            if let Ok(tri) = face_spec(l) {
                lemma_read_from_shift(
                    t,
                    lt,
                    u,
                    lu,
                    MeshSpec { vertices: m.vertices, triangles: m.triangles.push(tri) },
                );
            }
        } else {
            lemma_read_from_shift(t, lt, u, lu, m);
        }
    }
}

proof fn lemma_next_newline_before(t: Seq<char>, u: Seq<char>, i: int, a: int)
    requires
        0 <= i < a <= t.len(),
        a <= u.len(),
        forall|k: int| i <= k < a ==> t[k] == u[k],
        t[a - 1] == '\n',
    ensures
        next_newline(t, i) == next_newline(u, i),
        next_newline(t, i) < a,
    decreases a - i,
{
    if t[i] != '\n' {
        lemma_next_newline_before(t, u, i + 1, a);
    }
}

/// Reading two texts that agree up to a line feed at `a - 1` gives the same result from any
/// position before `a`, as long as reading from `a` on does.
proof fn lemma_read_from_common_prefix(t: Seq<char>, u: Seq<char>, i: int, a: int, m: MeshSpec)
    requires
        0 <= i <= a,
        a <= t.len(),
        a <= u.len(),
        forall|k: int| 0 <= k < a ==> t[k] == u[k],
        a > 0 ==> t[a - 1] == '\n',
        forall|m2: MeshSpec| #[trigger] read_from(t, a, m2) == read_from(u, a, m2),
    ensures
        read_from(t, i, m) == read_from(u, i, m),
    decreases a - i,
{
    if i == a {
        assert(read_from(t, a, m) == read_from(u, a, m));
    } else {
        lemma_next_newline_before(t, u, i, a);
        lemma_next_newline(t, i);
        let n = next_newline(t, i);
        assert(t.subrange(i, n) =~= u.subrange(i, n));
        assert(line_at(t, i) == line_at(u, i));
        assert(line_after(t, i) == line_after(u, i));
        let l = line_at(t, i);
        let next = line_after(t, i);
        if starts_with_tag(l, 'v') {
            if let Ok(v) = vertex_spec(l) {
                lemma_read_from_common_prefix(
                    t,
                    u,
                    next,
                    a,
                    MeshSpec { vertices: m.vertices.push(v), triangles: m.triangles },
                );
            }
        } else if starts_with_tag(l, 'f') {
            if let Ok(tri) = face_spec(l) {
                lemma_read_from_common_prefix(
                    t,
                    u,
                    next,
                    a,
                    MeshSpec { vertices: m.vertices, triangles: m.triangles.push(tri) },
                );
            }
        } else {
            lemma_read_from_common_prefix(t, u, next, a, m);
        }
    }
}

proof fn lemma_next_newline_at(t: Seq<char>, i: int, e: int)
    requires
        0 <= i <= e < t.len(),
        forall|k: int| i <= k < e ==> t[k] != '\n',
        t[e] == '\n',
    ensures
        next_newline(t, i) == e,
    decreases e - i,
{
    if i < e {
        lemma_next_newline_at(t, i + 1, e);
    }
}

/// A line that is neither a vertex line (`v `) nor a face line (`f `), blank lines and
/// comments among them, changes nothing: inserting it at the start of a line of an OBJ
/// text leaves the meaning of the text unchanged.
pub proof fn lemma_untagged_line_changes_nothing(p: Seq<char>, l: Seq<char>, r: Seq<char>)
    requires
        p.len() == 0 || p.last() == '\n',
        forall|k: int| 0 <= k < l.len() ==> l[k] != '\n',
        !starts_with_tag(l, 'v'),
        !starts_with_tag(l, 'f'),
    ensures
        read_obj_spec(p + l + seq!['\n'] + r) == read_obj_spec(p + r),
{
    let t = p + l + seq!['\n'] + r;
    let u = p + r;
    let a = p.len() as int;
    let b = a + l.len() + 1;
    assert(t.skip(b) =~= r);
    assert(u.skip(a) =~= r);
    lemma_next_newline_at(t, a, a + l.len());
    assert(t.subrange(a, a + l.len()) =~= l);
    assert forall|m2: MeshSpec| #[trigger] read_from(t, a, m2) == read_from(u, a, m2) by {
        let line = line_at(t, a);
        assert(line == l || line == l.drop_last());
        assert(!starts_with_tag(line, 'v'));
        assert(!starts_with_tag(line, 'f'));
        assert(line_after(t, a) == b);
        assert(read_from(t, a, m2) == read_from(t, b, m2));
        lemma_read_from_shift(t, b, u, a, m2);
    }
    assert forall|k: int| 0 <= k < a implies t[k] == u[k] by {
        assert(t[k] == p[k]);
        assert(u[k] == p[k]);
    }
    if a > 0 {
        assert(t[a - 1] == p.last());
    }
    lemma_read_from_common_prefix(t, u, 0, a, empty_mesh());
}


/// Reading is line by line: reading a text made of a part `p` that ends at a line end,
/// followed by `r`, reads `p` first and then goes on with `r` from where `p` left off;
/// a fault in `p` is the fault of the whole.
pub proof fn lemma_read_concat(p: Seq<char>, r: Seq<char>, m: MeshSpec)
    requires
        p.len() == 0 || p.last() == '\n',
    ensures
        read_from(p + r, 0, m) == match read_from(p, 0, m) {
            Ok(m2) => read_from(r, 0, m2),
            Err(f) => Err(f),
        },
{
    lemma_read_concat_from(p, r, 0, m);
}

proof fn lemma_read_concat_from(p: Seq<char>, r: Seq<char>, i: int, m: MeshSpec)
    requires
        0 <= i <= p.len(),
        p.len() == 0 || p.last() == '\n',
    ensures
        read_from(p + r, i, m) == match read_from(p, i, m) {
            Ok(m2) => read_from(r, 0, m2),
            Err(f) => Err(f),
        },
    decreases p.len() - i,
{
    let t = p + r;
    if i == p.len() {
        assert(t.skip(i) =~= r.skip(0));
        lemma_read_from_shift(t, i, r, 0, m);
    } else {
        assert forall|k: int| i <= k < p.len() implies t[k] == p[k] by {}
        lemma_next_newline_before(t, p, i, p.len() as int);
        lemma_next_newline(t, i);
        let n = next_newline(t, i);
        assert(t.subrange(i, n) =~= p.subrange(i, n));
        assert(line_at(t, i) == line_at(p, i));
        assert(line_after(t, i) == line_after(p, i));
        let l = line_at(t, i);
        let next = line_after(t, i);
        if starts_with_tag(l, 'v') {
            if let Ok(v) = vertex_spec(l) {
                lemma_read_concat_from(
                    p,
                    r,
                    next,
                    MeshSpec { vertices: m.vertices.push(v), triangles: m.triangles },
                );
            }
        } else if starts_with_tag(l, 'f') {
            if let Ok(tri) = face_spec(l) {
                lemma_read_concat_from(
                    p,
                    r,
                    next,
                    MeshSpec { vertices: m.vertices, triangles: m.triangles.push(tri) },
                );
            }
        } else {
            lemma_read_concat_from(p, r, next, m);
        }
    }
}

/// A single line ended by a line feed: a vertex line appends its three coordinates, a face
/// line appends its triangle made 0-based, any other line changes nothing; a faulty vertex
/// or face line gives its fault.
pub proof fn lemma_read_one_line(l: Seq<char>, m: MeshSpec)
    requires
        forall|k: int| 0 <= k < l.len() ==> l[k] != '\n',
        l.len() == 0 || l.last() != '\r',
    ensures
        read_from(l + seq!['\n'], 0, m) == (if starts_with_tag(l, 'v') {
            match vertex_spec(l) {
                Ok(v) => Ok(MeshSpec { vertices: m.vertices.push(v), triangles: m.triangles }),
                Err(f) => Err(f),
            }
        } else if starts_with_tag(l, 'f') {
            match face_spec(l) {
                Ok(tri) => Ok(MeshSpec { vertices: m.vertices, triangles: m.triangles.push(tri) }),
                Err(f) => Err(f),
            }
        } else {
            Ok(m)
        }),
{
    let t = l + seq!['\n'];
    lemma_next_newline_at(t, 0, l.len() as int);
    assert(t.subrange(0, l.len() as int) =~= l);
    assert(line_at(t, 0) == l);
    assert(line_after(t, 0) == t.len());
    let n = t.len() as int;
    if starts_with_tag(l, 'v') {
        if let Ok(v) = vertex_spec(l) {
            let m2 = MeshSpec { vertices: m.vertices.push(v), triangles: m.triangles };
            assert(read_from(t, 0, m) == read_from(t, n, m2));
            assert(read_from(t, n, m2) == Ok::<MeshSpec, Fault>(m2));
        }
    } else if starts_with_tag(l, 'f') {
        if let Ok(tri) = face_spec(l) {
            let m2 = MeshSpec { vertices: m.vertices, triangles: m.triangles.push(tri) };
            assert(read_from(t, 0, m) == read_from(t, n, m2));
            assert(read_from(t, n, m2) == Ok::<MeshSpec, Fault>(m2));
        }
    } else {
        assert(read_from(t, 0, m) == read_from(t, n, m));
        assert(read_from(t, n, m) == Ok::<MeshSpec, Fault>(m));
    }
}


proof fn lemma_three_words(a: Seq<char>, b: Seq<char>, c: Seq<char>)
    requires
        a.len() > 0 && b.len() > 0 && c.len() > 0,
        forall|k: int| 0 <= k < a.len() ==> !is_white_space(#[trigger] a[k]),
        forall|k: int| 0 <= k < b.len() ==> !is_white_space(#[trigger] b[k]),
        forall|k: int| 0 <= k < c.len() ==> !is_white_space(#[trigger] c[k]),
    ensures
        tokens(a + seq![' '] + b + seq![' '] + c) == seq![a, b, c],
{
    let bc = b + seq![' '] + c;
    assert(a + seq![' '] + b + seq![' '] + c =~= a + seq![' '] + bc);
    lemma_tokens_join(a, bc);
    lemma_tokens_join(b, c);
    lemma_tokens_word(c);
    assert(seq![a] + (seq![b] + seq![c]) =~= seq![a, b, c]);
}

/// A face line of three indices written in decimal gives the triangle of the indices less
/// one; an index 0 has no predecessor.
pub proof fn lemma_face_line(i: usize, j: usize, k: usize)
    ensures
        ({
            let l = seq!['f', ' '] + decimal(i as nat) + seq![' '] + decimal(j as nat) + seq![' ']
                + decimal(k as nat);
            &&& starts_with_tag(l, 'f')
            &&& face_spec(l) == (if i == 0 || j == 0 || k == 0 {
                Err(Fault::IndexUnderflow)
            } else {
                Ok([(i - 1) as usize, (j - 1) as usize, (k - 1) as usize])
            })
        }),
{
    let a = decimal(i as nat);
    let b = decimal(j as nat);
    let c = decimal(k as nat);
    lemma_decimal_is_word(i as nat);
    lemma_decimal_is_word(j as nat);
    lemma_decimal_is_word(k as nat);
    let l = seq!['f', ' '] + a + seq![' '] + b + seq![' '] + c;
    assert(l.skip(2) =~= a + seq![' '] + b + seq![' '] + c);
    lemma_three_words(a, b, c);
    let ts = tokens(l.skip(2));
    assert(ts.drop_first() =~= seq![b, c]);
    assert(ts.drop_first().drop_first() =~= seq![c]);
    assert(ts.drop_first().drop_first().drop_first() =~= Seq::<Seq<char>>::empty());
    assert(first_non_index(ts.drop_first().drop_first().drop_first()) is None);
    assert(first_non_index(ts.drop_first().drop_first()) is None);
    assert(first_non_index(ts.drop_first()) is None);
    assert(first_non_index(ts) is None);
}

/// A vertex line of three floating-point literals gives these three coordinates.
pub proof fn lemma_vertex_line(x: Seq<char>, y: Seq<char>, z: Seq<char>)
    requires
        is_float_literal(x) && is_float_literal(y) && is_float_literal(z),
        x.len() > 0 && y.len() > 0 && z.len() > 0,
        forall|k: int| 0 <= k < x.len() ==> !is_white_space(#[trigger] x[k]),
        forall|k: int| 0 <= k < y.len() ==> !is_white_space(#[trigger] y[k]),
        forall|k: int| 0 <= k < z.len() ==> !is_white_space(#[trigger] z[k]),
    ensures
        ({
            let l = seq!['v', ' '] + x + seq![' '] + y + seq![' '] + z;
            &&& starts_with_tag(l, 'v')
            &&& vertex_spec(l) == Ok::<_, Fault>((x, y, z))
        }),
{
    let l = seq!['v', ' '] + x + seq![' '] + y + seq![' '] + z;
    assert(l.skip(2) =~= x + seq![' '] + y + seq![' '] + z);
    lemma_three_words(x, y, z);
    let ts = tokens(l.skip(2));
    assert(ts.drop_first() =~= seq![y, z]);
    assert(ts.drop_first().drop_first() =~= seq![z]);
    assert(ts.drop_first().drop_first().drop_first() =~= Seq::<Seq<char>>::empty());
    assert(first_non_float(ts.drop_first().drop_first().drop_first()) is None);
    assert(first_non_float(ts.drop_first().drop_first()) is None);
    assert(first_non_float(ts.drop_first()) is None);
    assert(first_non_float(ts) is None);
}

} // verus!

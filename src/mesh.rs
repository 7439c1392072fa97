//! Meshes read from a vertex and face list.
//!
//! A line `v x y z` declares a vertex; a line `f i j k` declares a triangle
//! from the vertices declared before it, numbered from one. Other lines are
//! ignored. The structure of the whole text is checked first, line by line;
//! the coordinates are read afterwards, in order.

use std::str::FromStr;
use vstd::prelude::*;

use crate::errors::{GeometryError, PointParsingError, TriangleParsingError};
use crate::geometry::{axis_count, point_texts, Point3, Triangle3};
use crate::text::{
    chars_of, index_value, lines_of, parse_index, split_chars, split_lines, split_on,
    split_words, string_of, views, words_of,
};

verus! {

/// A triangle of a mesh: the positions of its three vertices in the mesh's
/// list of points.
#[derive(Debug, Clone, Copy, PartialEq, Eq, Structural)]
pub struct Triangle(pub usize, pub usize, pub usize);

/// What is wrong with a line of a mesh's text.
#[derive(Debug, Clone, Copy, PartialEq, Eq, Structural)]
pub enum Fault {
    /// The line lacks a value.
    Missing,
    /// A value of the line is not a valid number.
    Wrong,
}

/// A vertex line, as text: the line and its three coordinate tokens.
pub type VertexText = (Seq<char>, Seq<char>, Seq<char>, Seq<char>);

/// The layout of a mesh's text: its vertex lines and its triangles.
pub type Layout = (Seq<VertexText>, Seq<Triangle>);

/// The position that the `k`-th word of a face line gives, when it is an
/// index of one of the `count` vertices declared so far.
pub open spec fn face_index(w: Seq<Seq<char>>, k: int, count: nat) -> Option<usize> {
    match index_value(w[k]) {
        Some(n) => if 1 <= n && n <= count {
            Some((n - 1) as usize)
        } else {
            None
        },
        None => None,
    }
}

/// The first fault of a face line's three indices, read in order.
pub open spec fn face_fault(w: Seq<Seq<char>>, count: nat) -> Option<Fault> {
    if w.len() <= 1 {
        Some(Fault::Missing)
    } else if face_index(w, 1, count) is None {
        Some(Fault::Wrong)
    } else if w.len() <= 2 {
        Some(Fault::Missing)
    } else if face_index(w, 2, count) is None {
        Some(Fault::Wrong)
    } else if w.len() <= 3 {
        Some(Fault::Missing)
    } else if face_index(w, 3, count) is None {
        Some(Fault::Wrong)
    } else {
        None
    }
}

/// Whether a word is the single character `c`.
pub open spec fn is_keyword(word: Seq<char>, c: char) -> bool {
    word == seq![c]
}

/// The layout after one more line, or the fault of that line.
pub open spec fn scan_line(layout: Layout, line: Seq<char>) -> Result<Layout, (Fault, Seq<char>)> {
    let (vs, fs) = layout;
    let w = words_of(line);
    if w.len() > 0 && is_keyword(w[0], 'v') {
        if w.len() < 4 {
            Err((Fault::Missing, line))
        } else {
            Ok((vs.push((line, w[1], w[2], w[3])), fs))
        }
    } else if w.len() > 0 && is_keyword(w[0], 'f') {
        match face_fault(w, vs.len()) {
            Some(f) => Err((f, line)),
            None => Ok(
                (
                    vs,
                    fs.push(
                        Triangle(
                            face_index(w, 1, vs.len())->0,
                            face_index(w, 2, vs.len())->0,
                            face_index(w, 3, vs.len())->0,
                        ),
                    ),
                ),
            ),
        }
    } else {
        Ok(layout)
    }
}

/// The layout of the first `n` lines, or the fault of the first line that has one.
pub open spec fn scan_lines(lines: Seq<Seq<char>>, n: nat) -> Result<Layout, (Fault, Seq<char>)>
    decreases n,
{
    if n == 0 || n > lines.len() {
        Ok((Seq::empty(), Seq::empty()))
    } else {
        match scan_lines(lines, (n - 1) as nat) {
            Ok(layout) => scan_line(layout, lines[n - 1]),
            Err(e) => Err(e),
        }
    }
}

/// The layout of a mesh's text, or the first structural fault in it.
pub open spec fn mesh_layout(text: Seq<char>) -> Result<Layout, (Fault, Seq<char>)> {
    scan_lines(lines_of(text), lines_of(text).len())
}

proof fn lemma_fault_stays(lines: Seq<Seq<char>>, n: nat, m: nat)
    requires
        n <= m <= lines.len(),
        scan_lines(lines, n) is Err,
    ensures
        scan_lines(lines, m) == scan_lines(lines, n),
    decreases m - n,
{
    if n < m {
        lemma_fault_stays(lines, n, (m - 1) as nat);
    }
}

/// Whether the three positions of a triangle are below `n`.
pub open spec fn within(t: Triangle, n: int) -> bool {
    t.0 < n && t.1 < n && t.2 < n
}

/// The error that reports a fault of a line.
pub open spec fn fault_error(fault: Fault, line: Seq<char>, e: GeometryError) -> bool {
    match fault {
        Fault::Missing => e matches GeometryError::MissingValue(l) && l@ == line,
        Fault::Wrong => e matches GeometryError::WrongNumber(l) && l@ == line,
    }
}

/// A vertex line and its coordinate tokens, as held while reading.
struct VertexLine {
    line: Vec<char>,
    x: Vec<char>,
    y: Vec<char>,
    z: Vec<char>,
}

spec fn vertex_view(v: VertexLine) -> VertexText {
    (v.line@, v.x@, v.y@, v.z@)
}

spec fn vertex_views(vs: Seq<VertexLine>) -> Seq<VertexText> {
    vs.map_values(|v: VertexLine| vertex_view(v))
}

fn is_keyword_chars(word: &Vec<char>, c: char) -> (r: bool)
    ensures
        r == is_keyword(word@, c),
{
    if word.len() == 1 && word[0] == c {
        assert(word@ =~= seq![c]);
        true
    } else {
        false
    }
}

/// The `k`-th index of a face line, as `face_index` gives it.
fn read_face_index(w: &Vec<Vec<char>>, k: usize, count: usize) -> (r: Option<usize>)
    requires
        k < w@.len(),
    ensures
        r == face_index(views(w@), k as int, count as nat),
{
    assert(views(w@)[k as int] == w@[k as int]@);
    match parse_index(&w[k]) {
        Some(n) => if 1 <= n && n <= count {
            Some(n - 1)
        } else {
            None
        },
        None => None,
    }
}

fn fault_of(fault: Fault, line: &Vec<char>) -> (r: GeometryError)
    ensures
        fault_error(fault, line@, r),
{
    match fault {
        Fault::Missing => GeometryError::MissingValue(string_of(line)),
        Fault::Wrong => GeometryError::WrongNumber(string_of(line)),
    }
}

/// Reads the coordinates of a vertex line.
fn read_vertex<T: FromStr>(v: &VertexLine) -> (r: Result<Point3<T>, GeometryError>)
    ensures
        r is Ok || (r is Err && r->Err_0 is WrongNumber && r->Err_0->WrongNumber_0@ == v.line@),
{
    let line = string_of(&v.line);
    let x = crate::text::parse_next::<T>(Some(string_of(&v.x).as_str()), line.as_str())?;
    let y = crate::text::parse_next::<T>(Some(string_of(&v.y).as_str()), line.as_str())?;
    let z = crate::text::parse_next::<T>(Some(string_of(&v.z).as_str()), line.as_str())?;
    Ok(Point3 { x, y, z })
}

/// Reads the structure of a mesh's text, as `mesh_layout` describes it.
fn scan_mesh(text: &str) -> (r: Result<(Vec<VertexLine>, Vec<Triangle>), GeometryError>)
    ensures
        mesh_layout(text@) matches Err((f, l)) ==> (r matches Err(e) && fault_error(f, l, e)),
        mesh_layout(text@) matches Ok((vs, fs)) ==> (r matches Ok((rv, rf)) && vertex_views(rv@)
            == vs && rf@ == fs),
        r matches Ok((rv, rf)) ==> forall|k: int|
            0 <= k < rf@.len() ==> within(#[trigger] rf@[k], rv@.len() as int),
{
    let chars = chars_of(text);
    let lines = split_lines(&chars);
    let ghost all = views(lines@);
    let mut vertices: Vec<VertexLine> = Vec::new();
    let mut triangles: Vec<Triangle> = Vec::new();
    let mut i: usize = 0;
    assert(vertex_views(vertices@) =~= Seq::<VertexText>::empty());
    while i < lines.len()
        invariant
            all == lines_of(text@),
            all == views(lines@),
            i <= lines@.len(),
            scan_lines(all, i as nat) == Ok::<Layout, (Fault, Seq<char>)>(
                (vertex_views(vertices@), triangles@),
            ),
            forall|k: int|
                0 <= k < triangles@.len() ==> within(#[trigger] triangles@[k], vertices@.len() as int),
        decreases lines@.len() - i,
    {
        let line = &lines[i];
        assert(all[i as int] == line@);
        let words = split_words(line);
        let ghost w = views(words@);
        let ghost layout = (vertex_views(vertices@), triangles@);
        assert(scan_lines(all, (i + 1) as nat) == scan_line(layout, line@));
        proof {
            if scan_line(layout, line@) is Err {
                lemma_fault_stays(all, (i + 1) as nat, all.len());
            }
        }
        if words.len() > 0 && is_keyword_chars(&words[0], 'v') {
            if words.len() < 4 {
                return Err(fault_of(Fault::Missing, line));
            }
            let ghost prev = vertices@;
            vertices.push(
                VertexLine {
                    line: line.clone(),
                    x: words[1].clone(),
                    y: words[2].clone(),
                    z: words[3].clone(),
                },
            );
            assert(vertex_views(vertices@) =~= vertex_views(prev).push((line@, w[1], w[2], w[3])));
        } else if words.len() > 0 && is_keyword_chars(&words[0], 'f') {
            let count = vertices.len();
            assert(count == vertex_views(vertices@).len());
            if words.len() <= 1 {
                return Err(fault_of(Fault::Missing, line));
            }
            let a = read_face_index(&words, 1, count);
            if a.is_none() {
                return Err(fault_of(Fault::Wrong, line));
            }
            if words.len() <= 2 {
                return Err(fault_of(Fault::Missing, line));
            }
            let b = read_face_index(&words, 2, count);
            if b.is_none() {
                return Err(fault_of(Fault::Wrong, line));
            }
            if words.len() <= 3 {
                return Err(fault_of(Fault::Missing, line));
            }
            let c = read_face_index(&words, 3, count);
            if c.is_none() {
                return Err(fault_of(Fault::Wrong, line));
            }
            triangles.push(Triangle(a.unwrap(), b.unwrap(), c.unwrap()));
        }
        i = i + 1;
    }
    Ok((vertices, triangles))
}

/// A mesh: its points, and triangles that refer to them by position, so that
/// a point shared by several triangles is held once.
#[derive(Debug, Clone)]
pub struct Mesh<T> {
    pub points: Vec<Point3<T>>,
    pub triangles: Vec<Triangle>,
}

impl<T> Mesh<T> {
    /// Every triangle refers to points of the mesh.
    pub open spec fn wf(&self) -> bool {
        forall|k: int|
            0 <= k < self.triangles@.len() ==> within(
                #[trigger] self.triangles@[k],
                self.points@.len() as int,
            )
    }

    /// Replaces every point `p` of the mesh by `f(p)`, once each, so that the
    /// triangles that share a point keep sharing it.
    pub fn map_points<F: Fn(&Point3<T>) -> Point3<T>>(&mut self, f: F)
        requires
            forall|p: &Point3<T>| #[trigger] f.requires((p,)),
        ensures
            final(self).triangles@ == old(self).triangles@,
            final(self).points@.len() == old(self).points@.len(),
            forall|k: int|
                0 <= k < old(self).points@.len() ==> f.ensures(
                    (&old(self).points@[k],),
                    #[trigger] final(self).points@[k],
                ),
            old(self).wf() ==> final(self).wf(),
    {
        let mut mapped: Vec<Point3<T>> = Vec::new();
        let mut i: usize = 0;
        while i < self.points.len()
            invariant
                i <= self.points@.len(),
                mapped@.len() == i,
                forall|p: &Point3<T>| #[trigger] f.requires((p,)),
                forall|k: int|
                    0 <= k < i ==> f.ensures((&self.points@[k],), #[trigger] mapped@[k]),
            decreases self.points@.len() - i,
        {
            let p = f(&self.points[i]);
            mapped.push(p);
            i = i + 1;
        }
        self.points = mapped;
    }
}

impl<T: Copy> Mesh<T> {
    /// The points of the `index`-th triangle, in order, or `None` when there
    /// is no such triangle or it refers to a point the mesh lacks.
    pub fn triangle_points(&self, index: usize) -> (r: Option<Triangle3<T>>)
        ensures
            !(index < self.triangles@.len() && within(
                self.triangles@[index as int],
                self.points@.len() as int,
            )) ==> r is None,
            index < self.triangles@.len() && within(
                self.triangles@[index as int],
                self.points@.len() as int,
            ) ==> r == Some(
                Triangle3(
                    self.points@[self.triangles@[index as int].0 as int],
                    self.points@[self.triangles@[index as int].1 as int],
                    self.points@[self.triangles@[index as int].2 as int],
                ),
            ),
    {
        if index >= self.triangles.len() {
            return None;
        }
        let t = self.triangles[index];
        let n = self.points.len();
        if t.0 < n && t.1 < n && t.2 < n {
            Some(Triangle3(self.points[t.0], self.points[t.1], self.points[t.2]))
        } else {
            None
        }
    }
}

impl<T: FromStr> Mesh<T> {
    /// Reads a mesh from its vertex and face list.
    ///
    /// The first structural fault of the text is reported; then the
    /// coordinates are read, in order, and the first that is not a valid `T`
    /// is reported with its line; a text with no vertex or no triangle is
    /// `EmptyMesh`.
    pub fn try_from(value: String) -> (r: Result<Mesh<T>, GeometryError>)
        ensures
            mesh_layout(value@) matches Err((f, l)) ==> (r matches Err(e) && fault_error(f, l, e)),
            mesh_layout(value@) is Ok && mesh_layout(value@)->Ok_0.0.len() == 0 ==> r
                == Err::<Mesh<T>, GeometryError>(GeometryError::EmptyMesh),
            mesh_layout(value@) is Ok && mesh_layout(value@)->Ok_0.0.len() > 0 && mesh_layout(
                value@,
            )->Ok_0.1.len() > 0 ==> r != Err::<Mesh<T>, GeometryError>(GeometryError::EmptyMesh),
            mesh_layout(value@) is Ok && r is Ok ==> {
                let (vs, fs) = mesh_layout(value@)->Ok_0;
                let m = r->Ok_0;
                &&& m.points@.len() == vs.len()
                &&& m.triangles@ == fs
                &&& vs.len() > 0 && fs.len() > 0
                &&& m.wf()
            },
            mesh_layout(value@) is Ok && r is Err ==> {
                let (vs, fs) = mesh_layout(value@)->Ok_0;
                let e = r->Err_0;
                ||| e is EmptyMesh && (vs.len() == 0 || fs.len() == 0)
                ||| exists|k: int|
                    0 <= k < vs.len() && e is WrongNumber && e->WrongNumber_0@ == (
                    #[trigger] vs[k]).0
            },
    {
        let (vertices, triangles) = match scan_mesh(value.as_str()) {
            Ok(layout) => layout,
            Err(e) => {
                return Err(e);
            },
        };
        let ghost vs = vertex_views(vertices@);
        assert(mesh_layout(value@) == Ok::<Layout, (Fault, Seq<char>)>((vs, triangles@)));
        let mut points: Vec<Point3<T>> = Vec::new();
        let mut i: usize = 0;
        while i < vertices.len()
            invariant
                i <= vertices@.len(),
                points@.len() == i,
                vs == vertex_views(vertices@),
                mesh_layout(value@) == Ok::<Layout, (Fault, Seq<char>)>((vs, triangles@)),
            decreases vertices@.len() - i,
        {
            let v = &vertices[i];
            assert(vs[i as int] == vertex_view(*v));
            let p = match read_vertex::<T>(v) {
                Ok(p) => p,
                Err(e) => {
                    assert(exists|k: int|
                        0 <= k < vs.len() && e is WrongNumber && e->WrongNumber_0@ == (
                        #[trigger] vs[k]).0);
                    return Err(e);
                },
            };
            points.push(p);
            i = i + 1;
        }
        if points.len() == 0 || triangles.len() == 0 {
            return Err(GeometryError::EmptyMesh);
        }
        Ok(Mesh { points, triangles })
    }
}

/// The triangles of a triangle list's text: its pieces between semicolons.
pub open spec fn triangle_texts(s: Seq<char>) -> Seq<Seq<char>> {
    split_on(s, ';')
}

/// Whether a triangle's text has three points of three axes each.
pub open spec fn triangle_shape_ok(t: Seq<char>) -> bool {
    point_texts(t).len() == 3 && forall|k: int|
        0 <= k < 3 ==> axis_count(#[trigger] point_texts(t)[k]) == 3
}

impl<T: FromStr + Copy> Mesh<T> {
    /// Reads a mesh from a list of triangles separated by semicolons, each
    /// written as `Triangle3::try_from` reads it. Each triangle gets three
    /// points of its own: the `k`-th triangle refers to the points `3k`,
    /// `3k + 1` and `3k + 2`.
    pub fn from_triangle_list(value: String) -> (r: Result<Mesh<T>, TriangleParsingError>)
        ensures
            (exists|k: int|
                0 <= k < triangle_texts(value@).len() && !triangle_shape_ok(
                    #[trigger] triangle_texts(value@)[k],
                )) ==> r is Err,
            (forall|k: int|
                0 <= k < triangle_texts(value@).len() ==> triangle_shape_ok(
                    #[trigger] triangle_texts(value@)[k],
                )) ==> (r is Ok || r == Err::<Mesh<T>, TriangleParsingError>(
                TriangleParsingError::InvalidPoint(PointParsingError::InvalidFloat),
            )),
            r is Ok ==> {
                let m = r->Ok_0;
                &&& m.triangles@.len() == triangle_texts(value@).len()
                &&& m.points@.len() == 3 * triangle_texts(value@).len()
                &&& forall|k: int|
                    0 <= k < m.triangles@.len() ==> #[trigger] m.triangles@[k] == Triangle(
                        (3 * k) as usize,
                        (3 * k + 1) as usize,
                        (3 * k + 2) as usize,
                    )
                &&& m.wf()
            },
    {
        let chars = chars_of(value.as_str());
        let pieces = split_chars(&chars, ';');
        let ghost texts = views(pieces@);
        let mut points: Vec<Point3<T>> = Vec::new();
        let mut triangles: Vec<Triangle> = Vec::new();
        let mut i: usize = 0;
        while i < pieces.len()
            invariant
                texts == views(pieces@),
                texts == triangle_texts(value@),
                i <= pieces@.len(),
                triangles@.len() == i,
                points@.len() == 3 * i,
                forall|k: int| 0 <= k < i ==> triangle_shape_ok(#[trigger] texts[k]),
                forall|k: int|
                    0 <= k < i ==> #[trigger] triangles@[k] == Triangle(
                        (3 * k) as usize,
                        (3 * k + 1) as usize,
                        (3 * k + 2) as usize,
                    ),
            decreases pieces@.len() - i,
        {
            assert(texts[i as int] == pieces@[i as int]@);
            let t = match Triangle3::<T>::try_from(string_of(&pieces[i])) {
                Ok(t) => t,
                Err(e) => {
                    proof {
                        if forall|k: int|
                            0 <= k < texts.len() ==> triangle_shape_ok(#[trigger] texts[k]) {
                            assert(triangle_shape_ok(texts[i as int]));
                        }
                    }
                    return Err(e);
                },
            };
            points.push(t.0);
            points.push(t.1);
            points.push(t.2);
            let n = points.len();
            triangles.push(Triangle(n - 3, n - 2, n - 1));
            i = i + 1;
        }
        let m = Mesh { points, triangles };
        assert(m.wf());
        Ok(m)
    }
}

} // verus!

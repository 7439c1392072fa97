//! Points, triangles and meshes, read from their textual descriptions.
//!
//! The coordinates are of any type that can be read from text; the library
//! fixes the layout of the text and which token each coordinate comes from.

use std::str::FromStr;
use vstd::prelude::*;

use crate::errors::{GeometryError, PointParsingError, TriangleParsingError};
use crate::text::{chars_of, parse_str, split_chars, split_on, string_of, views};

verus! {

/// A point of three-dimensional space.
#[derive(Debug, Clone, Copy, PartialEq)]
pub struct Point3<T> {
    pub x: T,
    pub y: T,
    pub z: T,
}

impl<T> Point3<T> {
    /// The point made of three values read from text, or `InvalidFloat` when
    /// one of them could not be read.
    pub fn from_parsed(x: Option<T>, y: Option<T>, z: Option<T>) -> (r: Result<
        Point3<T>,
        PointParsingError,
    >)
        ensures
            (x is Some && y is Some && z is Some) ==> r == Ok::<Point3<T>, PointParsingError>(
                (Point3 { x: x->0, y: y->0, z: z->0 }),
            ),
            (x is None || y is None || z is None) ==> r == Err::<Point3<T>, PointParsingError>(
                PointParsingError::InvalidFloat,
            ),
    {
        match (x, y, z) {
            (Some(a), Some(b), Some(c)) => Ok(Point3 { x: a, y: b, z: c }),
            _ => Err(PointParsingError::InvalidFloat),
        }
    }
}

/// The number of axes that a point's text holds: its pieces between spaces.
pub open spec fn axis_count(s: Seq<char>) -> int {
    split_on(s, ' ').len() as int
}

impl<T: FromStr> Point3<T> {
    /// Reads a point written as three values separated by single spaces.
    pub fn try_from(value: String) -> (r: Result<Point3<T>, PointParsingError>)
        ensures
            axis_count(value@) != 3 <==> r == Err::<Point3<T>, PointParsingError>(
                PointParsingError::InvalidAxisNumber,
            ),
            axis_count(value@) == 3 ==> (r is Ok || r == Err::<Point3<T>, PointParsingError>(
                PointParsingError::InvalidFloat,
            )),
    {
        let chars = chars_of(value.as_str());
        let pieces = split_chars(&chars, ' ');
        if pieces.len() != 3 {
            return Err(PointParsingError::InvalidAxisNumber);
        }
        let x = parse_str::<T>(string_of(&pieces[0]).as_str());
        let y = parse_str::<T>(string_of(&pieces[1]).as_str());
        let z = parse_str::<T>(string_of(&pieces[2]).as_str());
        Point3::from_parsed(x, y, z)
    }
}

/// A triangle of three points held by value.
#[derive(Debug, Clone, Copy, PartialEq)]
pub struct Triangle3<T>(pub Point3<T>, pub Point3<T>, pub Point3<T>);

/// The pieces of a triangle's text: its points, cut at commas.
pub open spec fn point_texts(s: Seq<char>) -> Seq<Seq<char>> {
    split_on(s, ',')
}

impl<T: Copy> Triangle3<T> {
    /// A point of the triangle's plane: its first vertex.
    pub fn plain_component(&self) -> (r: Point3<T>)
        ensures
            r == self.0,
    {
        self.0
    }
}

impl<T: FromStr> Triangle3<T> {
    /// Reads a triangle written as three points separated by commas.
    pub fn try_from(value: String) -> (r: Result<Triangle3<T>, TriangleParsingError>)
        ensures
            point_texts(value@).len() != 3 <==> r == Err::<Triangle3<T>, TriangleParsingError>(
                TriangleParsingError::InvalidPointNumber,
            ),
            point_texts(value@).len() == 3 && axis_count(point_texts(value@)[0]) != 3 ==> r
                == Err::<Triangle3<T>, TriangleParsingError>(
                TriangleParsingError::InvalidPoint(PointParsingError::InvalidAxisNumber),
            ),
            point_texts(value@).len() == 3 && (exists|k: int|
                0 <= k < 3 && axis_count(#[trigger] point_texts(value@)[k]) != 3) ==> r is Err,
            point_texts(value@).len() == 3 && (forall|k: int|
                0 <= k < 3 ==> axis_count(#[trigger] point_texts(value@)[k]) == 3) ==> (r is Ok
                || r == Err::<Triangle3<T>, TriangleParsingError>(
                TriangleParsingError::InvalidPoint(PointParsingError::InvalidFloat),
            )),
    {
        let chars = chars_of(value.as_str());
        let pieces = split_chars(&chars, ',');
        if pieces.len() != 3 {
            return Err(TriangleParsingError::InvalidPointNumber);
        }
        let ghost texts = views(pieces@);
        assert(texts[0] == pieces@[0]@ && texts[1] == pieces@[1]@ && texts[2] == pieces@[2]@);
        let p1 = match Point3::<T>::try_from(string_of(&pieces[0])) {
            Ok(p) => p,
            Err(e) => {
                return Err(TriangleParsingError::from(e));
            },
        };
        let p2 = match Point3::<T>::try_from(string_of(&pieces[1])) {
            Ok(p) => p,
            Err(e) => {
                return Err(TriangleParsingError::from(e));
            },
        };
        let p3 = match Point3::<T>::try_from(string_of(&pieces[2])) {
            Ok(p) => p,
            Err(e) => {
                return Err(TriangleParsingError::from(e));
            },
        };
        Ok(Triangle3(p1, p2, p3))
    }
}

} // verus!

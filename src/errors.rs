use vstd::prelude::*;
use vstd::string::StringExecFns;

verus! {

/// Errors raised while reading a mesh description.
#[derive(Debug, PartialEq)]
pub enum GeometryError {
    /// No points or no triangles were found.
    EmptyMesh,
    /// A line lacks one of the values it must hold.
    MissingValue(String),
    /// A value of a line is not a valid number.
    WrongNumber(String),
}

/// The message of a geometry error.
pub open spec fn geometry_message(e: GeometryError) -> Seq<char> {
    match e {
        GeometryError::EmptyMesh => "The specified mesh is missing points or triangles"@,
        GeometryError::MissingValue(line) => "Missing value on line: "@ + line@,
        GeometryError::WrongNumber(line) => "Invalid number on line: "@ + line@,
    }
}

impl GeometryError {
    /// Human-readable description of the error.
    pub fn message(&self) -> (r: String)
        ensures
            r@ == geometry_message(*self),
    {
        match self {
            GeometryError::EmptyMesh => String::from_str(
                "The specified mesh is missing points or triangles",
            ),
            GeometryError::MissingValue(line) => String::from_str("Missing value on line: ").concat(
                line.as_str(),
            ),
            GeometryError::WrongNumber(line) => String::from_str("Invalid number on line: ").concat(
                line.as_str(),
            ),
        }
    }
}

/// Errors raised while reading a point written as three axes.
#[derive(Debug, Clone, Copy, PartialEq, Eq, Structural)]
pub enum PointParsingError {
    /// The point does not have exactly three axes.
    InvalidAxisNumber,
    /// One of the axes is not a valid number.
    InvalidFloat,
}

/// The message of a point parsing error.
pub open spec fn point_message(e: PointParsingError) -> Seq<char> {
    match e {
        PointParsingError::InvalidAxisNumber => "Invalid number of axis. It must be three."@,
        PointParsingError::InvalidFloat => "One of the floats of the point is invalid."@,
    }
}

impl PointParsingError {
    /// Human-readable description of the error.
    pub fn message(&self) -> (r: &'static str)
        ensures
            r@ == point_message(*self),
    {
        match self {
            PointParsingError::InvalidAxisNumber => "Invalid number of axis. It must be three.",
            PointParsingError::InvalidFloat => "One of the floats of the point is invalid.",
        }
    }
}

/// Errors raised while reading a triangle written as three points.
#[derive(Debug, Clone, Copy, PartialEq, Eq, Structural)]
pub enum TriangleParsingError {
    /// The triangle does not have exactly three points.
    InvalidPointNumber,
    /// One of the points is invalid.
    InvalidPoint(PointParsingError),
}

/// The message of a triangle parsing error.
pub open spec fn triangle_message(e: TriangleParsingError) -> Seq<char> {
    match e {
        TriangleParsingError::InvalidPointNumber => "Invalid number of points. It must be three."@,
        TriangleParsingError::InvalidPoint(p) => "One of the points is invalid. "@ + point_message(
            p,
        ),
    }
}

impl TriangleParsingError {
    /// Human-readable description of the error.
    pub fn message(&self) -> (r: String)
        ensures
            r@ == triangle_message(*self),
    {
        match self {
            TriangleParsingError::InvalidPointNumber => String::from_str(
                "Invalid number of points. It must be three.",
            ),
            TriangleParsingError::InvalidPoint(p) => String::from_str(
                "One of the points is invalid. ",
            ).concat(p.message()),
        }
    }
}

impl From<PointParsingError> for TriangleParsingError {
    fn from(error: PointParsingError) -> (r: TriangleParsingError)
        ensures
            r == TriangleParsingError::InvalidPoint(error),
    {
        TriangleParsingError::InvalidPoint(error)
    }
}

impl vstd::std_specs::convert::FromSpecImpl<PointParsingError> for TriangleParsingError {
    open spec fn obeys_from_spec() -> bool {
        true
    }

    open spec fn from_spec(error: PointParsingError) -> TriangleParsingError {
        TriangleParsingError::InvalidPoint(error)
    }
}

/// Errors of the environment that holds the scene.
#[derive(Debug, Clone, Copy, PartialEq)]
pub enum EnvironmentError<'a> {
    /// A file to load in the environment is missing or invalid.
    BadFile(&'a str),
}

impl<'a> EnvironmentError<'a> {
    /// Human-readable description of the error: the offending file.
    pub fn message(&self) -> (r: &'a str)
        ensures
            self matches EnvironmentError::BadFile(file) && r@ == file@,
    {
        match self {
            EnvironmentError::BadFile(file) => file,
        }
    }
}

/// Errors of the engine.
#[derive(Debug, Clone, Copy, PartialEq)]
pub enum EngineError<'a> {
    /// No GPU adapter has been found to run the pixel buffer.
    AdapterNotFound,
    /// A file to be rendered is missing or invalid.
    BadFile(&'a str),
    /// Closing of the engine was requested.
    CloseInvocation,
    /// A render has failed.
    Rendering,
    /// The projection's parameters give no finite projection: the screen has
    /// no height, or the near and far planes coincide.
    InvalidProjection,
}

/// The message of an engine error.
pub open spec fn engine_message(e: EngineError) -> Seq<char> {
    match e {
        EngineError::AdapterNotFound => "GPU adapter not found"@,
        EngineError::BadFile(file) => "The specified file "@ + file@ + " is missing or invalid"@,
        EngineError::CloseInvocation => "Close invoked"@,
        EngineError::Rendering => "Rendering has failed"@,
        EngineError::InvalidProjection => "The projection parameters are invalid"@,
    }
}

impl<'a> EngineError<'a> {
    /// Human-readable description of the error.
    pub fn message(&self) -> (r: String)
        ensures
            r@ == engine_message(*self),
    {
        match self {
            EngineError::AdapterNotFound => String::from_str("GPU adapter not found"),
            EngineError::BadFile(file) => String::from_str("The specified file ").concat(
                file,
            ).concat(" is missing or invalid"),
            EngineError::CloseInvocation => String::from_str("Close invoked"),
            EngineError::Rendering => String::from_str("Rendering has failed"),
            EngineError::InvalidProjection => String::from_str(
                "The projection parameters are invalid",
            ),
        }
    }
}

impl<'a> From<EnvironmentError<'a>> for EngineError<'a> {
    fn from(e: EnvironmentError<'a>) -> (r: EngineError<'a>)
        ensures
            e matches EnvironmentError::BadFile(file) && r == EngineError::BadFile(file),
    {
        match e {
            EnvironmentError::BadFile(file) => EngineError::BadFile(file),
        }
    }
}

impl<'a> vstd::std_specs::convert::FromSpecImpl<EnvironmentError<'a>> for EngineError<'a> {
    open spec fn obeys_from_spec() -> bool {
        true
    }

    open spec fn from_spec(e: EnvironmentError<'a>) -> EngineError<'a> {
        match e {
            EnvironmentError::BadFile(file) => EngineError::BadFile(file),
        }
    }
}

} // verus!

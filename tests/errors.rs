use ferrux_engine::errors::{
    EngineError, EnvironmentError, GeometryError, PointParsingError, TriangleParsingError,
};

#[test]
fn geometry_messages() {
    assert_eq!(
        GeometryError::EmptyMesh.message(),
        "The specified mesh is missing points or triangles"
    );
    assert_eq!(
        GeometryError::MissingValue("v 0".to_string()).message(),
        "Missing value on line: v 0"
    );
    assert_eq!(
        GeometryError::WrongNumber("f a".to_string()).message(),
        "Invalid number on line: f a"
    );
}

#[test]
fn point_and_triangle_messages() {
    assert_eq!(
        PointParsingError::InvalidAxisNumber.message(),
        "Invalid number of axis. It must be three."
    );
    assert_eq!(
        TriangleParsingError::InvalidPointNumber.message(),
        "Invalid number of points. It must be three."
    );
    assert_eq!(
        TriangleParsingError::InvalidPoint(PointParsingError::InvalidFloat).message(),
        "One of the points is invalid. One of the floats of the point is invalid."
    );
    assert_eq!(
        TriangleParsingError::from(PointParsingError::InvalidAxisNumber),
        TriangleParsingError::InvalidPoint(PointParsingError::InvalidAxisNumber)
    );
}

#[test]
fn engine_and_environment_messages() {
    assert_eq!(EngineError::AdapterNotFound.message(), "GPU adapter not found");
    assert_eq!(
        EngineError::BadFile("a.obj").message(),
        "The specified file a.obj is missing or invalid"
    );
    assert_eq!(EngineError::CloseInvocation.message(), "Close invoked");
    assert_eq!(EngineError::Rendering.message(), "Rendering has failed");
    assert_eq!(
        EngineError::InvalidProjection.message(),
        "The projection parameters are invalid"
    );
    assert_eq!(EnvironmentError::BadFile("b.obj").message(), "b.obj");
    assert_eq!(
        EngineError::from(EnvironmentError::BadFile("c.obj")),
        EngineError::BadFile("c.obj")
    );
}

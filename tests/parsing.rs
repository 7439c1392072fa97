use ferrux_engine::errors::{GeometryError, PointParsingError, TriangleParsingError};
use ferrux_engine::geometry::{Point3, Triangle3};
use ferrux_engine::mesh::{Mesh, Triangle};
use ferrux_engine::text::{parse_index, parse_next};

#[test]
fn parse_next_valid() {
    assert_eq!(parse_next::<f32>(Some("1.0"), "1.0").unwrap(), 1.0);
    assert_eq!(parse_next::<i32>(Some("1"), "1").unwrap(), 1);
}

#[test]
fn parse_next_none() {
    match parse_next::<u32>(None, "line").unwrap_err() {
        GeometryError::MissingValue(line) => assert_eq!(line, "line"),
        _ => panic!(),
    }
}

#[test]
fn parse_next_invalid_number() {
    match parse_next::<u32>(Some("-1.0"), "line").unwrap_err() {
        GeometryError::WrongNumber(line) => assert_eq!(line, "line"),
        _ => panic!(),
    }
}

#[test]
fn point3_valid_parsing() {
    let point = Point3::<f32>::try_from("1.0 0 -3.5".to_string()).unwrap();
    assert_eq!(
        point,
        Point3 {
            x: 1.0,
            y: 0.0,
            z: -3.5
        }
    );
}

#[test]
fn point3_invalid_parsing() {
    assert_eq!(
        Point3::<f32>::try_from("0 0".to_string()).unwrap_err(),
        PointParsingError::InvalidAxisNumber
    );
    assert_eq!(
        Point3::<f32>::try_from("0 0 0 0".to_string()).unwrap_err(),
        PointParsingError::InvalidAxisNumber
    );
    assert_eq!(
        Point3::<f32>::try_from("0 0 a".to_string()).unwrap_err(),
        PointParsingError::InvalidFloat
    );
}

#[test]
fn triangle3_valid_parsing() {
    let triangle = Triangle3::<f32>::try_from("1.0 0 -3.5,0 1 2,3 5 2".to_string()).unwrap();
    assert_eq!(
        triangle.0,
        Point3 {
            x: 1.0,
            y: 0.0,
            z: -3.5
        }
    );
    assert_eq!(
        triangle.1,
        Point3 {
            x: 0.0,
            y: 1.0,
            z: 2.0
        }
    );
    assert_eq!(
        triangle.2,
        Point3 {
            x: 3.0,
            y: 5.0,
            z: 2.0
        }
    );
}

#[test]
fn triangle3_invalid_parsing() {
    assert_eq!(
        Triangle3::<f32>::try_from("1.0 0 -3.5,0 1 2".to_string()).unwrap_err(),
        TriangleParsingError::InvalidPointNumber
    );
    assert_eq!(
        Triangle3::<f32>::try_from(".0 0 -3.5,0 1 2,3 5 2,0 0 0".to_string()).unwrap_err(),
        TriangleParsingError::InvalidPointNumber
    );
    assert_eq!(
        Triangle3::<f32>::try_from("0 0 a,0 1 2,3 5 2".to_string()).unwrap_err(),
        TriangleParsingError::InvalidPoint(PointParsingError::InvalidFloat)
    );
}

#[test]
fn plain_component() {
    let point_a = Point3 { x: 0.0f32, y: 0.0, z: 0.0 };
    let point_b = Point3 { x: 3.0f32, y: 2.0, z: 1.0 };
    let point_c = Point3 { x: 1.0f32, y: 2.0, z: 3.0 };
    let triangle = Triangle3(point_a, point_b, point_c);

    assert_eq!(point_a, triangle.plain_component());
}

#[test]
fn mesh_valid_parsing() {
    let mesh = Mesh::<f32>::try_from(
        "
			v 1.0 0.0 0.0
			v 0.0 1.0 0.0
			v 0.0 0.0 1.0
			v 0.0 0.0 0.0
			f 1 2 3
			f 2 3 4
			f 3 4 1
			f 4 1 2
			"
        .to_string(),
    )
    .unwrap();
    let t = &mesh.triangles;
    assert_eq!(t.len(), 4);
    assert_eq!(mesh.points[t[0].1], mesh.points[t[1].0]);
    assert_eq!(mesh.points[t[1].1], mesh.points[t[2].0]);
    assert_eq!(mesh.points[t[2].1], mesh.points[t[3].0]);
    assert_eq!(mesh.points[t[3].1], mesh.points[t[0].0]);
}

#[test]
fn mesh_invalid_parsing() {
    assert_eq!(
        Mesh::<f32>::try_from("".to_string()).unwrap_err(),
        GeometryError::EmptyMesh
    );
    assert_eq!(
        Mesh::<f32>::try_from("v 1.0 0.0 a".to_string()).unwrap_err(),
        GeometryError::WrongNumber("v 1.0 0.0 a".to_string())
    );
    assert_eq!(
        Mesh::<f32>::try_from("v 0 0".to_string()).unwrap_err(),
        GeometryError::MissingValue("v 0 0".to_string())
    );
}

#[test]
fn single_triangle_text_gives_its_three_points() {
    let triangle = Triangle3::<f32>::try_from("1.0 0 -3.5,0 1 2,3 5 2".to_string()).unwrap();
    assert_eq!(
        triangle,
        Triangle3(
            Point3 { x: 1.0, y: 0.0, z: -3.5 },
            Point3 { x: 0.0, y: 1.0, z: 2.0 },
            Point3 { x: 3.0, y: 5.0, z: 2.0 },
        )
    );
}

#[test]
fn empty_text_is_an_empty_mesh() {
    assert_eq!(
        Mesh::<f32>::try_from(String::new()).unwrap_err(),
        GeometryError::EmptyMesh
    );
}

#[test]
fn two_points_are_too_few_for_a_triangle() {
    assert_eq!(
        Triangle3::<f32>::try_from("0 0 0,1 1 1".to_string()).unwrap_err(),
        TriangleParsingError::InvalidPointNumber
    );
}

#[test]
fn first_point_with_wrong_axis_count_is_reported() {
    assert_eq!(
        Triangle3::<f32>::try_from("0 0,0 1 2,3 5 2".to_string()).unwrap_err(),
        TriangleParsingError::InvalidPoint(PointParsingError::InvalidAxisNumber)
    );
    assert_eq!(
        Triangle3::<f32>::try_from("0 0 0,0 1 2,3 5".to_string()).unwrap_err(),
        TriangleParsingError::InvalidPoint(PointParsingError::InvalidAxisNumber)
    );
}

#[test]
fn axes_are_separated_by_single_spaces() {
    assert_eq!(
        Point3::<f32>::try_from("1  2 3".to_string()).unwrap_err(),
        PointParsingError::InvalidAxisNumber
    );
    assert_eq!(
        Point3::<i32>::try_from("1 -2 3".to_string()).unwrap(),
        Point3 { x: 1, y: -2, z: 3 }
    );
}

#[test]
fn from_parsed_needs_all_three_values() {
    assert_eq!(
        Point3::from_parsed(Some(1), Some(2), Some(3)).unwrap(),
        Point3 { x: 1, y: 2, z: 3 }
    );
    assert_eq!(
        Point3::from_parsed(Some(1), None, Some(3)).unwrap_err(),
        PointParsingError::InvalidFloat
    );
}

#[test]
fn mesh_faces_refer_to_points_from_zero() {
    let mesh =
        Mesh::<f32>::try_from("v 0 0 0\r\nv 1 0 0\nv 0 1 0\n# comment\nf 1 2 3\nf +3 2 1\n".to_string())
            .unwrap();
    assert_eq!(mesh.points.len(), 3);
    assert_eq!(mesh.triangles, vec![Triangle(0, 1, 2), Triangle(2, 1, 0)]);
    assert_eq!(mesh.points[1], Point3 { x: 1.0, y: 0.0, z: 0.0 });
    let t = mesh.triangle_points(1).unwrap();
    assert_eq!(t.0, Point3 { x: 0.0, y: 1.0, z: 0.0 });
    assert_eq!(t.2, Point3 { x: 0.0, y: 0.0, z: 0.0 });
}

#[test]
fn mesh_structural_errors() {
    assert_eq!(
        Mesh::<f32>::try_from("v 0 0 0\nf 1 1".to_string()).unwrap_err(),
        GeometryError::MissingValue("f 1 1".to_string())
    );
    assert_eq!(
        Mesh::<f32>::try_from("v 0 0 0\nf 1 x 1".to_string()).unwrap_err(),
        GeometryError::WrongNumber("f 1 x 1".to_string())
    );
    assert_eq!(
        Mesh::<f32>::try_from("v 0 0 0\nf 1 2 1".to_string()).unwrap_err(),
        GeometryError::WrongNumber("f 1 2 1".to_string())
    );
    assert_eq!(
        Mesh::<f32>::try_from("v 0 0 0\nf 0 1 1".to_string()).unwrap_err(),
        GeometryError::WrongNumber("f 0 1 1".to_string())
    );
    assert_eq!(
        Mesh::<f32>::try_from("v 0 0 0\nv 1 1 1".to_string()).unwrap_err(),
        GeometryError::EmptyMesh
    );
}

#[test]
fn structure_is_checked_before_coordinates() {
    assert_eq!(
        Mesh::<f32>::try_from("v a 0 0\nv 0 0".to_string()).unwrap_err(),
        GeometryError::MissingValue("v 0 0".to_string())
    );
}

#[test]
fn mapping_points_keeps_shared_vertices_shared() {
    let mut mesh = Mesh::<i32>::try_from("v 1 2 3\nv 4 5 6\nv 7 8 9\nf 1 2 3\nf 3 2 1".to_string())
        .unwrap();
    mesh.map_points(|p: &Point3<i32>| Point3 { x: p.x * 10, y: p.y, z: -p.z });
    assert_eq!(mesh.points[0], Point3 { x: 10, y: 2, z: -3 });
    assert_eq!(mesh.triangle_points(0).unwrap().2, mesh.triangle_points(1).unwrap().0);
    assert_eq!(mesh.triangle_points(1).unwrap().0, Point3 { x: 70, y: 8, z: -9 });
}

#[test]
fn index_tokens_read_as_usize_does() {
    let chars = |s: &str| s.chars().collect::<Vec<char>>();
    assert_eq!(parse_index(&chars("42")), Some(42));
    assert_eq!(parse_index(&chars("+7")), Some(7));
    assert_eq!(parse_index(&chars("")), None);
    assert_eq!(parse_index(&chars("+")), None);
    assert_eq!(parse_index(&chars("-1")), None);
    assert_eq!(parse_index(&chars("1a")), None);
    assert_eq!(parse_index(&chars("99999999999999999999999")), None);
    for s in ["0", "17", "+3", "x", "18446744073709551615", "18446744073709551616"] {
        assert_eq!(parse_index(&chars(s)), s.parse::<usize>().ok());
    }
}

#[test]
fn triangle_list_gives_each_triangle_its_points() {
    let mesh = Mesh::<f32>::from_triangle_list("0 0 0,0 1 0,1 1 0;0 0 0,1 1 0,1 0 0".to_string())
        .unwrap();
    assert_eq!(mesh.triangles, vec![Triangle(0, 1, 2), Triangle(3, 4, 5)]);
    assert_eq!(mesh.points.len(), 6);
    assert_eq!(mesh.points[2], Point3 { x: 1.0, y: 1.0, z: 0.0 });
    assert_eq!(mesh.points[5], Point3 { x: 1.0, y: 0.0, z: 0.0 });
}

#[test]
fn triangle_list_reports_the_first_bad_triangle() {
    assert_eq!(
        Mesh::<f32>::from_triangle_list("0 0 0,0 1 0,1 1 0;0 0 0,1 1 0".to_string()).unwrap_err(),
        TriangleParsingError::InvalidPointNumber
    );
    assert_eq!(
        Mesh::<f32>::from_triangle_list("0 0 0,0 1 0,1 1 b;0 0".to_string()).unwrap_err(),
        TriangleParsingError::InvalidPoint(PointParsingError::InvalidFloat)
    );
    assert_eq!(
        Mesh::<f32>::from_triangle_list(String::new()).unwrap_err(),
        TriangleParsingError::InvalidPointNumber
    );
}

#[test]
fn triangle_points_outside_the_mesh_are_none() {
    let mut mesh = Mesh::<i32>::try_from("v 1 2 3\nv 4 5 6\nv 7 8 9\nf 1 2 3".to_string()).unwrap();
    assert_eq!(mesh.triangle_points(1), None);
    mesh.triangles.push(Triangle(0, 1, 3));
    assert_eq!(mesh.triangle_points(1), None);
    assert_eq!(
        mesh.triangle_points(0),
        Some(Triangle3(
            Point3 { x: 1, y: 2, z: 3 },
            Point3 { x: 4, y: 5, z: 6 },
            Point3 { x: 7, y: 8, z: 9 }
        ))
    );
}

use std::collections::HashMap;

use cazan_points::points::{ImageRecord, Point};

const ASSETS: &str = r#"[
    {
        "path": "assets/test.png",
        "points": [ {"x": 0, "y": 0, "n": 0}, {"x": 1, "y": 1, "n": 1}, {"x": 2, "y": 2, "n": 2}, {"x": 4, "y": 4, "n": 3} ]
    }
]"#;

fn as_map(records: Vec<ImageRecord>) -> HashMap<String, Vec<Point>> {
    records.into_iter().map(|r| (r.path, r.points)).collect()
}

#[test]
fn points_test_from_json() {
    let points = Point::import_one(ASSETS, "assets/test.png").unwrap();

    assert_eq!(points.len(), 4);
    assert_eq!(points[0].x(), 0);
    assert_eq!(points[0].y(), 0);
    assert_eq!(points[0].n, 0);
    assert_eq!(points[1].x(), 1);
    assert_eq!(points[1].y(), 1);
    assert_eq!(points[1].n, 1);
    assert_eq!(points[2].x(), 2);
    assert_eq!(points[2].y(), 2);
    assert_eq!(points[2].n, 2);
    assert_eq!(points[3].x(), 4);
    assert_eq!(points[3].y(), 4);
    assert_eq!(points[3].n, 3);
}

#[test]
fn tests_test_from_json() {
    let points = Point::import_one(ASSETS, "assets/test.png").unwrap();

    assert_eq!(points.len(), 4);
    assert_eq!(points[0].x(), 0);
    assert_eq!(points[0].y(), 0);
    assert_eq!(points[0].n, 0);
    assert_eq!(points[1].x(), 1);
    assert_eq!(points[1].y(), 1);
    assert_eq!(points[1].n, 1);
    assert_eq!(points[2].x(), 2);
    assert_eq!(points[2].y(), 2);
    assert_eq!(points[2].n, 2);
    assert_eq!(points[3].x(), 4);
    assert_eq!(points[3].y(), 4);
    assert_eq!(points[3].n, 3);
}

#[test]
fn import_test_from_json() {
    let points = Point::import_one(ASSETS, "assets/test.png").unwrap();

    assert_eq!(points.len(), 4);
    assert_eq!(points[0].x(), 0);
    assert_eq!(points[0].y(), 0);
    assert_eq!(points[0].n, 0);
    assert_eq!(points[1].x(), 1);
    assert_eq!(points[1].y(), 1);
    assert_eq!(points[1].n, 1);
    assert_eq!(points[2].x(), 2);
    assert_eq!(points[2].y(), 2);
    assert_eq!(points[2].n, 2);
    assert_eq!(points[3].x(), 4);
    assert_eq!(points[3].y(), 4);
    assert_eq!(points[3].n, 3);
}

#[test]
fn points_test_from_json_all() {
    let images_points = as_map(Point::import_all(ASSETS).unwrap());

    assert_eq!(images_points.len(), 1);
    assert_eq!(images_points["assets/test.png"].len(), 4);
    assert_eq!(images_points["assets/test.png"][0].x(), 0);
    assert_eq!(images_points["assets/test.png"][0].y(), 0);
    assert_eq!(images_points["assets/test.png"][0].n, 0);
    assert_eq!(images_points["assets/test.png"][1].x(), 1);
    assert_eq!(images_points["assets/test.png"][1].y(), 1);
    assert_eq!(images_points["assets/test.png"][1].n, 1);
    assert_eq!(images_points["assets/test.png"][2].x(), 2);
    assert_eq!(images_points["assets/test.png"][2].y(), 2);
    assert_eq!(images_points["assets/test.png"][2].n, 2);
    assert_eq!(images_points["assets/test.png"][3].x(), 4);
    assert_eq!(images_points["assets/test.png"][3].y(), 4);
    assert_eq!(images_points["assets/test.png"][3].n, 3);
}

#[test]
fn tests_test_from_json_all() {
    let images_points = as_map(Point::import_all(ASSETS).unwrap());

    assert_eq!(images_points.len(), 1);
    assert_eq!(images_points["assets/test.png"].len(), 4);
    assert_eq!(images_points["assets/test.png"][0].x(), 0);
    assert_eq!(images_points["assets/test.png"][0].y(), 0);
    assert_eq!(images_points["assets/test.png"][0].n, 0);
    assert_eq!(images_points["assets/test.png"][1].x(), 1);
    assert_eq!(images_points["assets/test.png"][1].y(), 1);
    assert_eq!(images_points["assets/test.png"][1].n, 1);
    assert_eq!(images_points["assets/test.png"][2].x(), 2);
    assert_eq!(images_points["assets/test.png"][2].y(), 2);
    assert_eq!(images_points["assets/test.png"][2].n, 2);
    assert_eq!(images_points["assets/test.png"][3].x(), 4);
    assert_eq!(images_points["assets/test.png"][3].y(), 4);
    assert_eq!(images_points["assets/test.png"][3].n, 3);
}

#[test]
fn import_test_from_json_all() {
    let images_points = as_map(Point::import_all(ASSETS).unwrap());

    assert_eq!(images_points.len(), 1);
    assert_eq!(images_points["assets/test.png"].len(), 4);
    assert_eq!(images_points["assets/test.png"][0].x(), 0);
    assert_eq!(images_points["assets/test.png"][0].y(), 0);
    assert_eq!(images_points["assets/test.png"][0].n, 0);
    assert_eq!(images_points["assets/test.png"][1].x(), 1);
    assert_eq!(images_points["assets/test.png"][1].y(), 1);
    assert_eq!(images_points["assets/test.png"][1].n, 1);
    assert_eq!(images_points["assets/test.png"][2].x(), 2);
    assert_eq!(images_points["assets/test.png"][2].y(), 2);
    assert_eq!(images_points["assets/test.png"][2].n, 2);
    assert_eq!(images_points["assets/test.png"][3].x(), 4);
    assert_eq!(images_points["assets/test.png"][3].y(), 4);
    assert_eq!(images_points["assets/test.png"][3].n, 3);
}

#[test]
fn test_serialize() {
    let image_path = String::from("test.png");
    let points = vec![
        Point::new(0, 0, 0),
        Point::new(1, 1, 1),
        Point::new(2, 2, 2),
    ];

    let json = Point::serialize(&image_path, &points);

    assert_eq!(
        json,
        "{\n    \"path\": \"test.png\",\n    \"points\": [{ \"x\": 0, \"y\": 0, \"n\": 0 }, { \"x\": 1, \"y\": 1, \"n\": 1 }, { \"x\": 2, \"y\": 2, \"n\": 2 }]\n}"
    );
}

#[test]
fn test_export_all() {
    let image_path = String::from("test.png");
    let points = vec![
        Point::new(0, 0, 0),
        Point::new(1, 1, 1),
        Point::new(2, 2, 2),
    ];
    let images_points = vec![ImageRecord::new(image_path, points)];

    let json = Point::export_all(&images_points);

    assert_eq!(
        json,
        "[\n    {\n        \"path\": \"test.png\",\n        \"points\": [{ \"x\": 0, \"y\": 0, \"n\": 0 }, { \"x\": 1, \"y\": 1, \"n\": 1 }, { \"x\": 2, \"y\": 2, \"n\": 2 }]\n    }\n]"
    );
}

#[test]
fn test_export_2_times() {
    let image_path = String::from("test.png");
    let points = vec![
        Point::new(0, 0, 0),
        Point::new(1, 1, 1),
        Point::new(2, 2, 2),
    ];

    let first = Point::export(Some("[]"), &image_path, &points).unwrap();
    let json = Point::export(Some(&first), &image_path, &points).unwrap();

    assert_eq!(
        json,
        "[\n    {\n        \"path\": \"test.png\",\n        \"points\": [{ \"x\": 0, \"y\": 0, \"n\": 0 }, { \"x\": 1, \"y\": 1, \"n\": 1 }, { \"x\": 2, \"y\": 2, \"n\": 2 }]\n    },\n    {\n        \"path\": \"test.png\",\n        \"points\": [{ \"x\": 0, \"y\": 0, \"n\": 0 }, { \"x\": 1, \"y\": 1, \"n\": 1 }, { \"x\": 2, \"y\": 2, \"n\": 2 }]\n    }\n]"
    );
}

#[test]
#[should_panic(expected = "ImageNotFound")]
fn test_from_non_existent_json() {
    Point::import_one(ASSETS, "nonexistent/file/path").unwrap();
}

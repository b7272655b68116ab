use raytracer::{section_kind, sections_of_kind, vector_components, SectionKind, VectorTextError};

fn parts(text: &str) -> Result<Vec<String>, VectorTextError> {
    vector_components(text)
}

fn strings(v: &[&str]) -> Vec<String> {
    v.iter().map(|s| s.to_string()).collect()
}

#[test]
fn section_kinds_by_prefix() {
    assert_eq!(section_kind("sphere"), Some(SectionKind::Sphere));
    assert_eq!(section_kind("sphere_left"), Some(SectionKind::Sphere));
    assert_eq!(section_kind("plane2"), Some(SectionKind::Plane));
    assert_eq!(section_kind("light1"), Some(SectionKind::Light));
    assert_eq!(section_kind("scene"), None);
    assert_eq!(section_kind("camera"), None);
    assert_eq!(section_kind("sph"), None);
    assert_eq!(section_kind("Sphere"), None);
    assert_eq!(section_kind(""), None);
}

#[test]
fn sections_of_kind_keeps_order() {
    let names = strings(&["scene", "sphere2", "light1", "sphere1", "plane", "light0"]);
    assert_eq!(sections_of_kind(&names, SectionKind::Sphere), vec![1, 3]);
    assert_eq!(sections_of_kind(&names, SectionKind::Light), vec![2, 5]);
    assert_eq!(sections_of_kind(&names, SectionKind::Plane), vec![4]);
    assert_eq!(sections_of_kind(&Vec::new(), SectionKind::Plane), Vec::<usize>::new());
}

#[test]
fn vector_in_square_brackets() {
    assert_eq!(parts("[1, 2, 3]"), Ok(strings(&["1", "2", "3"])));
}

#[test]
fn vector_in_parentheses() {
    assert_eq!(parts("(1.5,-2, 3e2)"), Ok(strings(&["1.5", "-2", "3e2"])));
}

#[test]
fn vector_without_brackets() {
    assert_eq!(parts("  4 ,5,\t6  "), Ok(strings(&["4", "5", "6"])));
    assert_eq!(parts(" [ 0 , 0.5 , 10 ] "), Ok(strings(&["0", "0.5", "10"])));
}

#[test]
fn vector_empty_element_is_kept() {
    assert_eq!(parts("1,,3"), Ok(strings(&["1", "", "3"])));
}

#[test]
fn vector_empty_text() {
    assert_eq!(parts(""), Err(VectorTextError::Empty));
    assert_eq!(parts("  \t "), Err(VectorTextError::Empty));
}

#[test]
fn vector_bad_start() {
    assert_eq!(parts("-1, 2, 3"), Err(VectorTextError::BadStart('-')));
    assert_eq!(parts("{1, 2, 3}"), Err(VectorTextError::BadStart('{')));
}

#[test]
fn vector_unterminated() {
    assert_eq!(parts("[1, 2, 3"), Err(VectorTextError::Unterminated(']')));
    assert_eq!(parts("(1, 2, 3]"), Err(VectorTextError::Unterminated(')')));
    assert_eq!(parts("["), Err(VectorTextError::Unterminated(']')));
}

#[test]
fn vector_wrong_dimension() {
    assert_eq!(parts("[1, 2]"), Err(VectorTextError::WrongDimension(2)));
    assert_eq!(parts("[1, 2, 3, 4]"), Err(VectorTextError::WrongDimension(4)));
    assert_eq!(parts("[]"), Err(VectorTextError::WrongDimension(1)));
    assert_eq!(parts("7"), Err(VectorTextError::WrongDimension(1)));
}

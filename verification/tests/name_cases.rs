use lit_scene::names::{decimal_text, point_light_uniform};

#[test]
fn decimal_text_of_single_digits() {
    for (n, text) in ["0", "1", "2", "3", "4", "5", "6", "7", "8", "9"].iter().enumerate() {
        assert_eq!(decimal_text(n), *text);
    }
}

#[test]
fn decimal_text_of_longer_numbers() {
    assert_eq!(decimal_text(10), "10");
    assert_eq!(decimal_text(42), "42");
    assert_eq!(decimal_text(100), "100");
    assert_eq!(decimal_text(9_876_543_210), "9876543210");
    assert_eq!(decimal_text(1_000_001), "1000001");
}

#[test]
fn decimal_text_of_the_largest_number() {
    assert_eq!(decimal_text(usize::MAX), usize::MAX.to_string());
}

#[test]
fn decimal_text_agrees_with_the_standard_formatting() {
    let mut n: usize = 0;
    while n < 5000 {
        assert_eq!(decimal_text(n), format!("{}", n));
        n += 1;
    }
}

#[test]
fn point_light_uniform_names_the_place_and_the_field() {
    assert_eq!(point_light_uniform(0, "position"), "pointLights[0].position");
    assert_eq!(point_light_uniform(3, "quadratic"), "pointLights[3].quadratic");
    assert_eq!(point_light_uniform(12, "ambient"), "pointLights[12].ambient");
    assert_eq!(point_light_uniform(7, ""), "pointLights[7].");
}

#[test]
fn point_light_uniform_tells_places_apart() {
    let mut seen = std::collections::HashSet::new();
    for index in 0..200 {
        assert!(seen.insert(point_light_uniform(index, "diffuse")));
    }
}

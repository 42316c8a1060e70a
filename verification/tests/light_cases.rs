use lit_scene::camera::Camera;
use lit_scene::device::{DeviceCommand, UniformValue};
use lit_scene::light::{
    Attenuation, Cone, DirectionalLight, LightingModel, PointLight, SpotLight,
};
use lit_scene::shader::{BuildReply, ProgramBuild, Shader};
use lit_scene::vector::Vec3;

fn shader(program: u32) -> Shader {
    let (build, _) = ProgramBuild::begin();
    let (build, _) = build.advance(BuildReply::StageCompiled { object: 1, compiled: true, log: Vec::new() });
    let (build, _) = build.advance(BuildReply::StageCompiled { object: 2, compiled: true, log: Vec::new() });
    let (build, _) = build.advance(BuildReply::ProgramLinked { program, linked: true, log: Vec::new() });
    build.outcome().unwrap().unwrap()
}

fn grey(level: i64) -> Vec3 {
    Vec3::new(level, level, level)
}

fn fading() -> Attenuation {
    Attenuation::new(1_000_000, 90_000, 32_000).unwrap()
}

fn point_light(x: i64) -> PointLight {
    PointLight {
        position: Vec3::new(x, 200_000, 2_000_000),
        ambient: grey(50_000),
        diffuse: grey(800_000),
        specular: grey(1_000_000),
        attenuation: fading(),
    }
}

fn lights(points: Vec<PointLight>) -> LightingModel {
    LightingModel {
        directional: DirectionalLight {
            direction: Vec3::new(-200_000, -1_000_000, -300_000),
            ambient: grey(50_000),
            diffuse: grey(400_000),
            specular: grey(500_000),
        },
        spot: SpotLight {
            position: Vec3::new(0, 0, 0),
            direction: Vec3::new(0, 0, -1_000_000),
            cone: Cone::new(976_296, 965_926).unwrap(),
            ambient: grey(0),
            diffuse: grey(1_000_000),
            specular: grey(1_000_000),
            attenuation: fading(),
        },
        points,
    }
}

fn name_of(command: &DeviceCommand) -> &str {
    match command {
        DeviceCommand::SetUniform { name, .. } => name.as_str(),
        other => panic!("not an upload: {:?}", other),
    }
}

fn upload(name: &str, value: UniformValue) -> DeviceCommand {
    DeviceCommand::SetUniform { program: 9, name: String::from(name), value }
}

fn cosine(degrees: f64) -> i64 {
    (degrees.to_radians().cos() * 1e6).round() as i64
}

#[test]
fn attenuation_takes_coefficients_that_are_not_negative() {
    let a = Attenuation::new(1_000_000, 90_000, 32_000).unwrap();
    assert_eq!(a.coefficients(), (1_000_000, 90_000, 32_000));
    assert_eq!(Attenuation::new(0, 0, 0).unwrap().coefficients(), (0, 0, 0));
}

#[test]
fn attenuation_refuses_a_negative_coefficient() {
    assert_eq!(Attenuation::new(-1, 0, 0), None);
    assert_eq!(Attenuation::new(0, -1, 0), None);
    assert_eq!(Attenuation::new(0, 0, -1), None);
    assert_eq!(Attenuation::new(i64::MIN, i64::MAX, i64::MAX), None);
}

#[test]
fn attenuation_factor_at_the_light_is_one_over_the_constant() {
    assert_eq!(fading().factor(0), Some(1_000_000));
    assert_eq!(Attenuation::new(2_000_000, 5, 5).unwrap().factor(0), Some(500_000));
}

#[test]
fn attenuation_factor_follows_the_formula() {
    // 1 / (1 + 0.09 * 10 + 0.032 * 100) = 1 / 5.1
    assert_eq!(fading().factor(10_000_000), Some(196_078));
    // 1 / (1 + 0.09 * 1 + 0.032 * 1) = 1 / 1.122
    assert_eq!(fading().factor(1_000_000), Some(891_265));
    // 1 / (0 + 0 + 0.5 * 4) = 1 / 2
    assert_eq!(Attenuation::new(0, 0, 500_000).unwrap().factor(2_000_000), Some(500_000));
}

#[test]
fn attenuation_factor_falls_with_distance() {
    let a = fading();
    let mut last = i64::MAX;
    for d in [0, 1, 1_000, 1_000_000, 7_000_000, 50_000_000, 100_000_000, u32::MAX] {
        let f = a.factor(d).unwrap();
        assert!(f <= last);
        assert!(f >= 0);
        last = f;
    }
}

#[test]
fn attenuation_factor_without_a_denominator() {
    assert_eq!(Attenuation::new(0, 0, 0).unwrap().factor(5_000_000), None);
    assert_eq!(Attenuation::new(0, 7, 7).unwrap().factor(0), None);
}

#[test]
fn attenuation_factor_too_large_to_hold() {
    // the denominator is a single count
    assert_eq!(Attenuation::new(0, 0, 1).unwrap().factor(1), None);
    // 10^24 / 108421 is the first quotient that is small enough
    assert_eq!(
        Attenuation::new(0, 0, 108_421).unwrap().factor(1),
        Some(9_223_305_448_206_528_255)
    );
    assert_eq!(Attenuation::new(0, 0, 108_420).unwrap().factor(1), None);
}

#[test]
fn attenuation_factor_with_the_largest_coefficients() {
    let a = Attenuation::new(i64::MAX, i64::MAX, i64::MAX).unwrap();
    assert_eq!(a.factor(u32::MAX), Some(0));
    assert_eq!(a.factor(0), Some(0));
}

#[test]
fn cone_takes_cosines_in_order() {
    assert_eq!(Cone::new(976_296, 965_926).unwrap().cutoffs(), (976_296, 965_926));
    assert_eq!(Cone::new(5, 5).unwrap().cutoffs(), (5, 5));
}

#[test]
fn cone_refuses_an_inner_cone_wider_than_the_outer() {
    assert_eq!(Cone::new(965_926, 976_296), None);
    assert_eq!(Cone::new(-1, 0), None);
}

#[test]
fn spot_cutoff_between_twelve_and_a_half_and_fifteen_degrees() {
    let cone = Cone::new(cosine(12.5), cosine(15.0)).unwrap();
    assert_eq!(cone.intensity(cosine(12.5)), 1_000_000);
    assert_eq!(cone.intensity(cosine(15.0)), 0);
    let middle = cone.intensity(cosine(13.75));
    assert!((middle - 500_000).abs() <= 30_000, "{}", middle);
    assert!((middle as f64 / 1e6 - 0.5).abs() <= 0.03);
}

#[test]
fn cone_intensity_follows_the_formula() {
    let cone = Cone::new(900_000, 800_000).unwrap();
    assert_eq!(cone.intensity(850_000), 500_000);
    assert_eq!(cone.intensity(825_000), 250_000);
    assert_eq!(cone.intensity(899_999), 999_990);
    assert_eq!(cone.intensity(800_001), 10);
    let thirds = Cone::new(3, 0).unwrap();
    assert_eq!(thirds.intensity(1), 333_333);
    assert_eq!(thirds.intensity(2), 666_666);
}

#[test]
fn cone_intensity_is_limited_to_nought_and_one() {
    let cone = Cone::new(900_000, 800_000).unwrap();
    assert_eq!(cone.intensity(900_000), 1_000_000);
    assert_eq!(cone.intensity(1_000_000), 1_000_000);
    assert_eq!(cone.intensity(i64::MAX), 1_000_000);
    assert_eq!(cone.intensity(800_000), 0);
    assert_eq!(cone.intensity(-1_000_000), 0);
    assert_eq!(cone.intensity(i64::MIN), 0);
}

#[test]
fn cone_with_a_hard_edge() {
    let cone = Cone::new(900_000, 900_000).unwrap();
    assert_eq!(cone.intensity(900_000), 1_000_000);
    assert_eq!(cone.intensity(900_001), 1_000_000);
    assert_eq!(cone.intensity(899_999), 0);
}

#[test]
fn cone_with_the_widest_band() {
    let cone = Cone::new(i64::MAX, i64::MIN).unwrap();
    assert_eq!(cone.intensity(i64::MAX), 1_000_000);
    assert_eq!(cone.intensity(i64::MIN), 0);
    assert_eq!(cone.intensity(0), 500_000);
    assert_eq!(cone.intensity(-1), 499_999);
}

#[test]
fn directional_light_uploads() {
    let mut commands = Vec::new();
    let model = lights(Vec::new());
    model.directional.upload(&shader(9), &mut commands);
    assert_eq!(
        commands,
        vec![
            upload(
                "dirLight.direction",
                UniformValue::Vector(Vec3::new(-200_000, -1_000_000, -300_000))
            ),
            upload("dirLight.ambient", UniformValue::Vector(grey(50_000))),
            upload("dirLight.diffuse", UniformValue::Vector(grey(400_000))),
            upload("dirLight.specular", UniformValue::Vector(grey(500_000))),
        ]
    );
}

#[test]
fn spot_light_uploads() {
    let mut commands = Vec::new();
    let model = lights(Vec::new());
    model.spot.upload(&shader(9), &mut commands);
    assert_eq!(
        commands,
        vec![
            upload("spotLight.position", UniformValue::Vector(Vec3::new(0, 0, 0))),
            upload("spotLight.direction", UniformValue::Vector(Vec3::new(0, 0, -1_000_000))),
            upload("spotLight.cutOff", UniformValue::Float(976_296)),
            upload("spotLight.outerCutOff", UniformValue::Float(965_926)),
            upload("spotLight.ambient", UniformValue::Vector(grey(0))),
            upload("spotLight.diffuse", UniformValue::Vector(grey(1_000_000))),
            upload("spotLight.specular", UniformValue::Vector(grey(1_000_000))),
            upload("spotLight.constant", UniformValue::Float(1_000_000)),
            upload("spotLight.linear", UniformValue::Float(90_000)),
            upload("spotLight.quadratic", UniformValue::Float(32_000)),
        ]
    );
}

#[test]
fn point_light_uploads_under_the_name_of_its_place() {
    let mut commands = Vec::new();
    point_light(700_000).upload(&shader(9), 2, &mut commands);
    assert_eq!(
        commands,
        vec![
            upload(
                "pointLights[2].position",
                UniformValue::Vector(Vec3::new(700_000, 200_000, 2_000_000))
            ),
            upload("pointLights[2].ambient", UniformValue::Vector(grey(50_000))),
            upload("pointLights[2].diffuse", UniformValue::Vector(grey(800_000))),
            upload("pointLights[2].specular", UniformValue::Vector(grey(1_000_000))),
            upload("pointLights[2].constant", UniformValue::Float(1_000_000)),
            upload("pointLights[2].linear", UniformValue::Float(90_000)),
            upload("pointLights[2].quadratic", UniformValue::Float(32_000)),
        ]
    );
}

#[test]
fn upload_appends_to_what_is_there() {
    let mut commands = vec![DeviceCommand::ClearFrame];
    lights(vec![point_light(1)]).upload(&shader(9), &mut commands);
    assert_eq!(commands.len(), 1 + 4 + 10 + 7);
    assert_eq!(commands[0], DeviceCommand::ClearFrame);
    assert_eq!(name_of(&commands[1]), "dirLight.direction");
}

#[test]
fn upload_of_all_lights_is_ordered() {
    let model = lights((0..12).map(point_light).collect());
    let mut commands = Vec::new();
    model.upload(&shader(9), &mut commands);
    assert_eq!(commands.len(), 4 + 10 + 7 * 12);
    assert_eq!(name_of(&commands[0]), "dirLight.direction");
    assert_eq!(name_of(&commands[3]), "dirLight.specular");
    assert_eq!(name_of(&commands[4]), "spotLight.position");
    assert_eq!(name_of(&commands[13]), "spotLight.quadratic");
    let fields =
        ["position", "ambient", "diffuse", "specular", "constant", "linear", "quadratic"];
    for index in 0..12 {
        for (k, field) in fields.iter().enumerate() {
            let command = &commands[14 + 7 * index + k];
            assert_eq!(name_of(command), format!("pointLights[{}].{}", index, field));
        }
        assert_eq!(
            commands[14 + 7 * index],
            upload(
                &format!("pointLights[{}].position", index),
                UniformValue::Vector(Vec3::new(index as i64, 200_000, 2_000_000))
            )
        );
    }
}

#[test]
fn a_light_keeps_its_place_when_others_change() {
    let first = lights(vec![point_light(1), point_light(2), point_light(3)]);
    let second = lights(vec![point_light(50), point_light(2), point_light(70), point_light(80)]);
    let mut a = Vec::new();
    let mut b = Vec::new();
    first.upload(&shader(9), &mut a);
    second.upload(&shader(9), &mut b);
    assert_eq!(a[14 + 7..14 + 14], b[14 + 7..14 + 14]);
    assert_ne!(a[14], b[14]);
    // and from frame to frame
    let mut again = Vec::new();
    first.upload(&shader(9), &mut again);
    assert_eq!(a, again);
}

#[test]
fn follow_makes_the_spot_light_a_headlamp() {
    let mut model = lights(vec![point_light(1)]);
    let mut camera = Camera::new();
    assert!(camera.rotate(0, 0, Vec3::new(3, 0, 4)));
    camera.move_forward(5_000_000);
    let before = lights(vec![point_light(1)]);
    model.follow(&camera);
    assert_eq!(model.spot.position, Vec3::new(3_000_000, 0, 7_000_000));
    assert_eq!(model.spot.direction, Vec3::new(600_000, 0, 800_000));
    assert_eq!(model.spot.cone, before.spot.cone);
    assert_eq!(model.spot.diffuse, before.spot.diffuse);
    assert_eq!(model.spot.attenuation, before.spot.attenuation);
    assert_eq!(model.directional, before.directional);
    assert_eq!(model.points, before.points);
}

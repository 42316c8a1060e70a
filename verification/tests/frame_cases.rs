use lit_scene::camera::{Camera, ViewFrame};
use lit_scene::device::{DeviceCommand, Matrix, ModelTransform, Projection, UniformValue};
use lit_scene::frame::{Material, Scene, FAR_PLANE, LAMP_SCALE, NEAR_PLANE};
use lit_scene::input::Surface;
use lit_scene::light::{
    Attenuation, Cone, DirectionalLight, LightingModel, PointLight, SpotLight,
};
use lit_scene::shader::{BuildReply, ProgramBuild, Shader};
use lit_scene::vector::Vec3;

const UNIT: i64 = 1_000_000;

fn shader(program: u32) -> Shader {
    let (build, _) = ProgramBuild::begin();
    let (build, _) = build.advance(BuildReply::StageCompiled { object: 1, compiled: true, log: Vec::new() });
    let (build, _) = build.advance(BuildReply::StageCompiled { object: 2, compiled: true, log: Vec::new() });
    let (build, _) = build.advance(BuildReply::ProgramLinked { program, linked: true, log: Vec::new() });
    build.outcome().unwrap().unwrap()
}

fn grey(level: i64) -> Vec3 {
    Vec3::new(level, level, level)
}

fn point_light(position: Vec3) -> PointLight {
    PointLight {
        position,
        ambient: grey(50_000),
        diffuse: grey(800_000),
        specular: grey(UNIT),
        attenuation: Attenuation::new(UNIT, 90_000, 32_000).unwrap(),
    }
}

fn place(x: i64, turn: i64) -> ModelTransform {
    ModelTransform {
        position: Vec3::new(x, 0, 0),
        axis: Vec3::new(UNIT, 300_000, 500_000),
        angle: 20 * UNIT * turn,
        scale: UNIT,
    }
}

fn scene(objects: Vec<ModelTransform>, points: Vec<PointLight>) -> Scene {
    Scene {
        lights: LightingModel {
            directional: DirectionalLight {
                direction: Vec3::new(-200_000, -UNIT, -300_000),
                ambient: grey(50_000),
                diffuse: grey(400_000),
                specular: grey(500_000),
            },
            spot: SpotLight {
                position: Vec3::new(9, 9, 9),
                direction: Vec3::new(0, UNIT, 0),
                cone: Cone::new(976_296, 965_926).unwrap(),
                ambient: grey(0),
                diffuse: grey(UNIT),
                specular: grey(UNIT),
                attenuation: Attenuation::new(UNIT, 90_000, 32_000).unwrap(),
            },
            points,
        },
        objects,
        material: Material { diffuse_map: 31, specular_map: 32, shininess: 32 * UNIT },
        object_shader: shader(5),
        lamp_shader: shader(6),
        object_array: 71,
        lamp_array: 72,
        vertex_count: 36,
    }
}

fn upload(program: u32, name: &str, value: UniformValue) -> DeviceCommand {
    DeviceCommand::SetUniform { program, name: String::from(name), value }
}

fn start_view() -> ViewFrame {
    ViewFrame {
        eye: Vec3::new(0, 0, 3 * UNIT),
        target: Vec3::new(0, 0, 2 * UNIT),
        up: Vec3::new(0, UNIT, 0),
    }
}

fn start_projection() -> Projection {
    Projection { field_of_view: 45 * UNIT, width: 800, height: 600, near: 100_000, far: 100 * UNIT }
}

#[test]
fn the_planes_are_a_tenth_and_a_hundred() {
    assert_eq!(NEAR_PLANE, 100_000);
    assert_eq!(FAR_PLANE, 100_000_000);
    assert_eq!(LAMP_SCALE, 200_000);
}

#[test]
fn a_frame_of_an_empty_scene() {
    let mut s = scene(Vec::new(), Vec::new());
    let plan = s.plan_frame(&Camera::new(), &Surface { width: 800, height: 600 }).unwrap();
    let projection = UniformValue::Matrix(Matrix::Projection(start_projection()));
    let view = UniformValue::Matrix(Matrix::View(start_view()));
    let expected = vec![
        DeviceCommand::ClearFrame,
        DeviceCommand::UseProgram { program: 5 },
        upload(5, "dirLight.direction", UniformValue::Vector(Vec3::new(-200_000, -UNIT, -300_000))),
        upload(5, "dirLight.ambient", UniformValue::Vector(grey(50_000))),
        upload(5, "dirLight.diffuse", UniformValue::Vector(grey(400_000))),
        upload(5, "dirLight.specular", UniformValue::Vector(grey(500_000))),
        upload(5, "spotLight.position", UniformValue::Vector(Vec3::new(0, 0, 3 * UNIT))),
        upload(5, "spotLight.direction", UniformValue::Vector(Vec3::new(0, 0, -UNIT))),
        upload(5, "spotLight.cutOff", UniformValue::Float(976_296)),
        upload(5, "spotLight.outerCutOff", UniformValue::Float(965_926)),
        upload(5, "spotLight.ambient", UniformValue::Vector(grey(0))),
        upload(5, "spotLight.diffuse", UniformValue::Vector(grey(UNIT))),
        upload(5, "spotLight.specular", UniformValue::Vector(grey(UNIT))),
        upload(5, "spotLight.constant", UniformValue::Float(UNIT)),
        upload(5, "spotLight.linear", UniformValue::Float(90_000)),
        upload(5, "spotLight.quadratic", UniformValue::Float(32_000)),
        DeviceCommand::BindTexture { unit: 0, texture: 31 },
        upload(5, "material.diffuse", UniformValue::Int(0)),
        DeviceCommand::BindTexture { unit: 1, texture: 32 },
        upload(5, "material.specular", UniformValue::Int(1)),
        upload(5, "material.shininess", UniformValue::Float(32 * UNIT)),
        upload(5, "viewPos", UniformValue::Vector(Vec3::new(0, 0, 3 * UNIT))),
        upload(5, "projection", projection),
        upload(5, "view", view),
        DeviceCommand::BindVertexArray { array: 71 },
        DeviceCommand::UseProgram { program: 6 },
        upload(6, "projection", projection),
        upload(6, "view", view),
        DeviceCommand::BindVertexArray { array: 72 },
    ];
    assert_eq!(plan, expected);
}

#[test]
fn a_frame_draws_each_object_and_each_lamp() {
    let objects = vec![place(0, 0), place(2 * UNIT, 1), place(-3 * UNIT, 2)];
    let points =
        vec![point_light(Vec3::new(700_000, 200_000, 2 * UNIT)), point_light(Vec3::new(1, 2, 3))];
    let mut s = scene(objects.clone(), points);
    let plan = s.plan_frame(&Camera::new(), &Surface { width: 800, height: 600 }).unwrap();
    // clear, program, lights, material, viewPos, two matrices, array
    let objects_at = 1 + 1 + (4 + 10 + 7 * 2) + 5 + 1 + 2 + 1;
    assert_eq!(plan.len(), objects_at + 2 * 3 + 4 + 2 * 2);
    for (i, object) in objects.iter().enumerate() {
        assert_eq!(
            plan[objects_at + 2 * i],
            upload(5, "model", UniformValue::Matrix(Matrix::Model(*object)))
        );
        assert_eq!(plan[objects_at + 2 * i + 1], DeviceCommand::DrawTriangles { first: 0, count: 36 });
    }
    let lamps_at = objects_at + 2 * 3;
    assert_eq!(plan[lamps_at], DeviceCommand::UseProgram { program: 6 });
    assert_eq!(plan[lamps_at + 3], DeviceCommand::BindVertexArray { array: 72 });
    let lamp = |position: Vec3| ModelTransform {
        position: position,
        axis: Vec3::new(0, UNIT, 0),
        angle: 0,
        scale: 200_000,
    };
    assert_eq!(
        plan[lamps_at + 4],
        upload(
            6,
            "model",
            UniformValue::Matrix(Matrix::Model(lamp(Vec3::new(700_000, 200_000, 2 * UNIT))))
        )
    );
    assert_eq!(plan[lamps_at + 5], DeviceCommand::DrawTriangles { first: 0, count: 36 });
    assert_eq!(
        plan[lamps_at + 6],
        upload(6, "model", UniformValue::Matrix(Matrix::Model(lamp(Vec3::new(1, 2, 3)))))
    );
    assert_eq!(plan[lamps_at + 7], DeviceCommand::DrawTriangles { first: 0, count: 36 });
}

#[test]
fn a_frame_binds_a_program_before_it_uses_it() {
    let mut s = scene(vec![place(0, 0)], vec![point_light(Vec3::new(1, 2, 3))]);
    let plan = s.plan_frame(&Camera::new(), &Surface { width: 800, height: 600 }).unwrap();
    let mut active = None;
    for command in &plan {
        match command {
            DeviceCommand::UseProgram { program } => active = Some(*program),
            DeviceCommand::SetUniform { program, .. } => assert_eq!(active, Some(*program)),
            _ => {}
        }
    }
    assert_eq!(active, Some(6));
}

#[test]
fn a_frame_is_the_same_from_frame_to_frame() {
    let make = || {
        scene(
            vec![place(0, 0), place(5, 5)],
            vec![point_light(Vec3::new(1, 2, 3)), point_light(Vec3::new(4, 5, 6))],
        )
    };
    let mut s = make();
    let surface = Surface { width: 640, height: 480 };
    let first = s.plan_frame(&Camera::new(), &surface).unwrap();
    let second = s.plan_frame(&Camera::new(), &surface).unwrap();
    assert_eq!(first, second);
    let mut other = make();
    assert_eq!(other.plan_frame(&Camera::new(), &surface).unwrap(), first);
}

#[test]
fn a_frame_follows_the_camera_and_the_surface() {
    let mut s = scene(Vec::new(), Vec::new());
    let mut camera = Camera::new();
    assert!(camera.rotate(0, 0, Vec3::new(3, 0, 4)));
    camera.move_forward(5 * UNIT);
    camera.zoom_in(15 * UNIT);
    let plan = s.plan_frame(&camera, &Surface { width: 1920, height: 0 }).unwrap();
    let eye = Vec3::new(3 * UNIT, 0, 7 * UNIT);
    let front = Vec3::new(600_000, 0, 800_000);
    assert_eq!(plan[6], upload(5, "spotLight.position", UniformValue::Vector(eye)));
    assert_eq!(plan[7], upload(5, "spotLight.direction", UniformValue::Vector(front)));
    assert_eq!(plan[21], upload(5, "viewPos", UniformValue::Vector(eye)));
    let projection = Projection {
        field_of_view: 30 * UNIT,
        width: 1920,
        height: 0,
        near: 100_000,
        far: 100 * UNIT,
    };
    assert_eq!(
        plan[22],
        upload(5, "projection", UniformValue::Matrix(Matrix::Projection(projection)))
    );
    let view = ViewFrame {
        eye,
        target: Vec3::new(3_600_000, 0, 7_800_000),
        up: Vec3::new(0, UNIT, 0),
    };
    assert_eq!(plan[23], upload(5, "view", UniformValue::Matrix(Matrix::View(view))));
    assert_eq!(plan[26], upload(6, "projection", UniformValue::Matrix(Matrix::Projection(projection))));
    assert_eq!(plan[27], upload(6, "view", UniformValue::Matrix(Matrix::View(view))));
}

#[test]
fn planning_a_frame_moves_the_spot_light_and_nothing_else() {
    let mut s = scene(vec![place(1, 1)], vec![point_light(Vec3::new(1, 2, 3))]);
    let before = scene(vec![place(1, 1)], vec![point_light(Vec3::new(1, 2, 3))]);
    let mut camera = Camera::new();
    camera.move_forward(-UNIT);
    assert!(s.plan_frame(&camera, &Surface { width: 8, height: 6 }).is_some());
    assert_eq!(s.lights.spot.position, Vec3::new(0, 0, 4 * UNIT));
    assert_eq!(s.lights.spot.direction, Vec3::new(0, 0, -UNIT));
    assert_eq!(s.lights.spot.cone, before.lights.spot.cone);
    assert_eq!(s.lights.spot.attenuation, before.lights.spot.attenuation);
    assert_eq!(s.lights.spot.diffuse, before.lights.spot.diffuse);
    assert_eq!(s.lights.directional, before.lights.directional);
    assert_eq!(s.lights.points, before.lights.points);
    assert_eq!(s.objects, before.objects);
    assert_eq!(s.material, before.material);
    assert_eq!(s.object_shader, before.object_shader);
    assert_eq!(s.lamp_shader, before.lamp_shader);
}

#[test]
fn no_frame_where_the_view_is_not_representable() {
    let mut s = scene(vec![place(1, 1)], vec![point_light(Vec3::new(1, 2, 3))]);
    let before = scene(vec![place(1, 1)], vec![point_light(Vec3::new(1, 2, 3))]);
    let mut camera = Camera::new();
    assert!(camera.rotate(0, 0, Vec3::new(0, 0, 1)));
    assert!(camera.try_move_forward(i64::MAX - 3 * UNIT));
    assert_eq!(s.plan_frame(&camera, &Surface { width: 8, height: 6 }), None);
    assert_eq!(s, before);
}

//! One frame: everything the device is asked to do to draw the scene as the
//! camera sees it, in order.

use crate::camera::{can_view, view_frame, Camera, CameraState};
use crate::device::{
    command_views, emit, lemma_stays_with_both, stays_with, CommandView, DeviceCommand, Matrix,
    ModelTransform, Projection, UniformValue,
};
use crate::input::Surface;
use crate::light::{
    lemma_light_uploads_stay, light_uploads, LightingModel, PointLight, SpotLight,
};
use crate::shader::{uniform_command, Shader};
use crate::units::SCALE;
use crate::vector::Vec3;
use vstd::prelude::*;

verus! {

/// Distance of the near plane: a tenth of a unit.
pub const NEAR_PLANE: i64 = 100_000;

/// Distance of the far plane: a hundred units.
pub const FAR_PLANE: i64 = 100_000_000;

/// Size of the lamp drawn at each point light, as a fraction of the object.
pub const LAMP_SCALE: i64 = 200_000;

/// The surface of the objects: two textures and a shininess.
#[derive(Clone, Copy, Debug, PartialEq, Eq, Structural)]
pub struct Material {
    /// Texture of the diffuse colour.
    pub diffuse_map: u32,
    /// Texture of the specular colour.
    pub specular_map: u32,
    /// Shininess, in millionths.
    pub shininess: i64,
}

/// What is drawn: lit objects that share one mesh and one material, and a
/// lamp at each point light.
#[derive(Debug, PartialEq, Eq)]
pub struct Scene {
    pub lights: LightingModel,
    /// Where each object stands.
    pub objects: Vec<ModelTransform>,
    pub material: Material,
    /// The program that draws the objects.
    pub object_shader: Shader,
    /// The program that draws the lamps.
    pub lamp_shader: Shader,
    /// The vertex array of the objects.
    pub object_array: u32,
    /// The vertex array of the lamps.
    pub lamp_array: u32,
    /// Number of vertices of the mesh.
    pub vertex_count: i32,
}

/// The projection for a camera and a drawing surface.
pub open spec fn projection_of(camera: CameraState, surface: Surface) -> Projection {
    Projection {
        field_of_view: camera.field_of_view,
        width: surface.width,
        height: surface.height,
        near: NEAR_PLANE,
        far: FAR_PLANE,
    }
}

/// The lights with the spot light at the camera, pointing where it looks.
pub open spec fn following(lights: LightingModel, camera: CameraState) -> LightingModel {
    LightingModel {
        spot: SpotLight { position: camera.position, direction: camera.front, ..lights.spot },
        ..lights
    }
}

/// The commands that hand a material to a program: each texture on its
/// unit, each sampler on that unit, and the shininess.
pub open spec fn material_commands(program: u32, material: Material) -> Seq<CommandView> {
    seq![
        CommandView::BindTexture { unit: 0, texture: material.diffuse_map },
        uniform_command(program, "material.diffuse"@, UniformValue::Int(0)),
        CommandView::BindTexture { unit: 1, texture: material.specular_map },
        uniform_command(program, "material.specular"@, UniformValue::Int(1)),
        uniform_command(program, "material.shininess"@, UniformValue::Float(material.shininess)),
    ]
}

/// The commands that hand the projection and the view to a program.
pub open spec fn lens_commands(program: u32, camera: CameraState, surface: Surface) -> Seq<
    CommandView,
> {
    seq![
        uniform_command(
            program,
            "projection"@,
            UniformValue::Matrix(Matrix::Projection(projection_of(camera, surface))),
        ),
        uniform_command(
            program,
            "view"@,
            UniformValue::Matrix(Matrix::View(view_frame(camera))),
        ),
    ]
}

/// The commands that draw one mesh at `place`.
pub open spec fn draw_commands(program: u32, place: ModelTransform, vertex_count: i32) -> Seq<
    CommandView,
> {
    seq![
        uniform_command(program, "model"@, UniformValue::Matrix(Matrix::Model(place))),
        CommandView::DrawTriangles { first: 0, count: vertex_count },
    ]
}

/// The commands that draw a mesh at each of `places`, in order.
pub open spec fn all_draw_commands(program: u32, places: Seq<ModelTransform>, vertex_count: i32)
    -> Seq<CommandView>
    decreases places.len(),
{
    if places.len() == 0 {
        Seq::empty()
    } else {
        all_draw_commands(program, places.drop_last(), vertex_count) + draw_commands(
            program,
            places.last(),
            vertex_count,
        )
    }
}

/// Where the lamp of a point light stands: at the light, scaled down.
pub open spec fn lamp_place(light: PointLight) -> ModelTransform {
    ModelTransform {
        position: light.position,
        axis: Vec3 { x: 0, y: SCALE, z: 0 },
        angle: 0,
        scale: LAMP_SCALE,
    }
}

/// Where the lamps of a list of point lights stand.
pub open spec fn lamp_places(lights: Seq<PointLight>) -> Seq<ModelTransform> {
    lights.map_values(|light: PointLight| lamp_place(light))
}

/// The part of a frame that draws the lit objects.
pub open spec fn object_pass(scene: Scene, camera: CameraState, surface: Surface) -> Seq<
    CommandView,
> {
    let program = scene.object_shader.id();
    seq![CommandView::UseProgram { program }] + light_uploads(
        program,
        following(scene.lights, camera),
    ) + material_commands(program, scene.material) + seq![
        uniform_command(program, "viewPos"@, UniformValue::Vector(camera.position)),
    ] + lens_commands(program, camera, surface) + seq![
        CommandView::BindVertexArray { array: scene.object_array },
    ] + all_draw_commands(program, scene.objects@, scene.vertex_count)
}

/// The part of a frame that draws the lamps.
pub open spec fn lamp_pass(scene: Scene, camera: CameraState, surface: Surface) -> Seq<
    CommandView,
> {
    let program = scene.lamp_shader.id();
    seq![CommandView::UseProgram { program }] + lens_commands(program, camera, surface) + seq![
        CommandView::BindVertexArray { array: scene.lamp_array },
    ] + all_draw_commands(program, lamp_places(scene.lights.points@), scene.vertex_count)
}

/// A whole frame: clear, draw the objects, draw the lamps.
pub open spec fn frame_commands(scene: Scene, camera: CameraState, surface: Surface) -> Seq<
    CommandView,
> {
    seq![CommandView::ClearFrame] + object_pass(scene, camera, surface) + lamp_pass(
        scene,
        camera,
        surface,
    )
}

/// Appends the commands that hand the projection and the view to `shader`.
fn emit_lens(
    shader: &Shader,
    camera: &Camera,
    surface: &Surface,
    commands: &mut Vec<DeviceCommand>,
)
    requires
        camera.wf(),
        can_view(camera.state()),
    ensures
        command_views(final(commands)@) == command_views(old(commands)@) + lens_commands(
            shader.id(),
            camera.state(),
            *surface,
        ),
{
    let projection = Projection {
        field_of_view: camera.field_of_view(),
        width: surface.width,
        height: surface.height,
        near: NEAR_PLANE,
        far: FAR_PLANE,
    };
    emit(commands, shader.set_matrix4("projection", Matrix::Projection(projection)));
    emit(commands, shader.set_matrix4("view", Matrix::View(camera.view())));
    assert(command_views(commands@) =~= command_views(old(commands)@) + lens_commands(
        shader.id(),
        camera.state(),
        *surface,
    ));
}

/// Appends the commands that hand `material` to `shader`.
fn emit_material(shader: &Shader, material: &Material, commands: &mut Vec<DeviceCommand>)
    ensures
        command_views(final(commands)@) == command_views(old(commands)@) + material_commands(
            shader.id(),
            *material,
        ),
{
    let (bind, sampler) = shader.set_texture("material.diffuse", material.diffuse_map, 0);
    emit(commands, bind);
    emit(commands, sampler);
    let (bind, sampler) = shader.set_texture("material.specular", material.specular_map, 1);
    emit(commands, bind);
    emit(commands, sampler);
    emit(commands, shader.set_float("material.shininess", material.shininess));
    assert(command_views(commands@) =~= command_views(old(commands)@) + material_commands(
        shader.id(),
        *material,
    ));
}

/// Appends the commands that draw one mesh at `place`.
fn emit_draw(
    shader: &Shader,
    place: ModelTransform,
    vertex_count: i32,
    commands: &mut Vec<DeviceCommand>,
)
    ensures
        command_views(final(commands)@) == command_views(old(commands)@) + draw_commands(
            shader.id(),
            place,
            vertex_count,
        ),
{
    emit(commands, shader.set_matrix4("model", Matrix::Model(place)));
    emit(commands, DeviceCommand::DrawTriangles { first: 0, count: vertex_count });
    assert(command_views(commands@) =~= command_views(old(commands)@) + draw_commands(
        shader.id(),
        place,
        vertex_count,
    ));
}

impl Scene {
    /// Plans a frame. The spot light is first moved to the camera, as a
    /// headlamp; then come the commands of the frame, in the order in which
    /// the device is to carry them out: see `frame_commands`. There is no
    /// plan, and nothing changes, where the camera's look-at frame is not
    /// representable.
    pub fn plan_frame(&mut self, camera: &Camera, surface: &Surface) -> (plan: Option<
        Vec<DeviceCommand>,
    >)
        requires
            camera.wf(),
        ensures
            plan is Some <==> can_view(camera.state()),
            plan matches Some(commands) ==> {
                &&& command_views(commands@) == frame_commands(
                    *old(self),
                    camera.state(),
                    *surface,
                )
                &&& *final(self) == (Scene {
                    lights: final(self).lights,
                    ..*old(self)
                })
                &&& final(self).lights.directional == old(self).lights.directional
                &&& final(self).lights.points == old(self).lights.points
                &&& final(self).lights.spot == following(old(self).lights, camera.state()).spot
            },
            plan is None ==> *final(self) == *old(self),
    {
        if camera.try_view().is_none() {
            return None;
        }
        self.lights.follow(camera);
        let mut commands: Vec<DeviceCommand> = Vec::new();
        emit(&mut commands, DeviceCommand::ClearFrame);
        self.emit_object_pass(camera, surface, &mut commands);
        self.emit_lamp_pass(camera, surface, &mut commands);
        proof {
            let scene = *old(self);
            assert(light_uploads(self.object_shader.id(), self.lights) == light_uploads(
                scene.object_shader.id(),
                following(scene.lights, camera.state()),
            ));
            assert(object_pass(*self, camera.state(), *surface) =~= object_pass(
                scene,
                camera.state(),
                *surface,
            ));
            assert(lamp_pass(*self, camera.state(), *surface) =~= lamp_pass(
                scene,
                camera.state(),
                *surface,
            ));
            assert(command_views(commands@) =~= frame_commands(scene, camera.state(), *surface));
        }
        Some(commands)
    }

    /// Appends the part of a frame that draws the lit objects, with the
    /// lights as they stand.
    fn emit_object_pass(
        &self,
        camera: &Camera,
        surface: &Surface,
        commands: &mut Vec<DeviceCommand>,
    )
        requires
            camera.wf(),
            can_view(camera.state()),
            self.lights.spot.position == camera.state().position,
            self.lights.spot.direction == camera.state().front,
        ensures
            command_views(final(commands)@) == command_views(old(commands)@) + object_pass(
                *self,
                camera.state(),
                *surface,
            ),
    {
        let shader = &self.object_shader;
        let ghost program = shader.id();
        let ghost start = command_views(commands@);
        emit(commands, shader.use_program());
        self.lights.upload(shader, commands);
        emit_material(shader, &self.material, commands);
        emit(commands, shader.set_vec3("viewPos", camera.position()));
        emit_lens(shader, camera, surface, commands);
        emit(commands, DeviceCommand::BindVertexArray { array: self.object_array });
        let ghost fixed = command_views(commands@);
        proof {
            assert(following(self.lights, camera.state()).spot == self.lights.spot);
            assert(light_uploads(program, following(self.lights, camera.state()))
                == light_uploads(program, self.lights));
        }
        let mut index: usize = 0;
        while index < self.objects.len()
            invariant
                index <= self.objects.len(),
                shader.id() == program,
                command_views(commands@) == fixed + all_draw_commands(
                    program,
                    self.objects@.take(index as int),
                    self.vertex_count,
                ),
            decreases self.objects.len() - index,
        {
            emit_draw(shader, self.objects[index], self.vertex_count, commands);
            proof {
                let next = self.objects@.take(index + 1);
                assert(next.drop_last() =~= self.objects@.take(index as int));
                assert(next.last() == self.objects@[index as int]);
                assert(command_views(commands@) =~= fixed + all_draw_commands(
                    program,
                    next,
                    self.vertex_count,
                ));
            }
            index += 1;
        }
        assert(self.objects@.take(index as int) =~= self.objects@);
        assert(command_views(commands@) =~= start + object_pass(*self, camera.state(), *surface));
    }

    /// Appends the part of a frame that draws the lamps.
    fn emit_lamp_pass(
        &self,
        camera: &Camera,
        surface: &Surface,
        commands: &mut Vec<DeviceCommand>,
    )
        requires
            camera.wf(),
            can_view(camera.state()),
        ensures
            command_views(final(commands)@) == command_views(old(commands)@) + lamp_pass(
                *self,
                camera.state(),
                *surface,
            ),
    {
        let shader = &self.lamp_shader;
        let ghost program = shader.id();
        let ghost start = command_views(commands@);
        emit(commands, shader.use_program());
        emit_lens(shader, camera, surface, commands);
        emit(commands, DeviceCommand::BindVertexArray { array: self.lamp_array });
        let ghost fixed = command_views(commands@);
        let ghost places = lamp_places(self.lights.points@);
        let mut index: usize = 0;
        while index < self.lights.points.len()
            invariant
                index <= self.lights.points.len(),
                shader.id() == program,
                places == lamp_places(self.lights.points@),
                command_views(commands@) == fixed + all_draw_commands(
                    program,
                    places.take(index as int),
                    self.vertex_count,
                ),
            decreases self.lights.points.len() - index,
        {
            let place = ModelTransform {
                position: self.lights.points[index].position,
                axis: Vec3 { x: 0, y: SCALE, z: 0 },
                angle: 0,
                scale: LAMP_SCALE,
            };
            emit_draw(shader, place, self.vertex_count, commands);
            proof {
                let next = places.take(index + 1);
                assert(next.drop_last() =~= places.take(index as int));
                assert(next.last() == place);
                assert(command_views(commands@) =~= fixed + all_draw_commands(
                    program,
                    next,
                    self.vertex_count,
                ));
            }
            index += 1;
        }
        assert(places.take(index as int) =~= places);
        assert(command_views(commands@) =~= start + lamp_pass(*self, camera.state(), *surface));
    }
}

/// The commands that draw meshes are all addressed to the program.
proof fn lemma_draws_stay(program: u32, places: Seq<ModelTransform>, vertex_count: i32)
    ensures
        stays_with(all_draw_commands(program, places, vertex_count), program),
    decreases places.len(),
{
    if places.len() > 0 {
        lemma_draws_stay(program, places.drop_last(), vertex_count);
        lemma_stays_with_both(
            all_draw_commands(program, places.drop_last(), vertex_count),
            draw_commands(program, places.last(), vertex_count),
            program,
        );
    }
}

/// A program is bound before it is used, and stays bound while it is used.
/// Each of the two passes of a frame begins by making its program active;
/// every upload that follows in the pass is addressed to that program, and
/// nothing in the pass makes another program active.
pub proof fn lemma_each_pass_binds_its_program(
    scene: Scene,
    camera: CameraState,
    surface: Surface,
)
    ensures
        object_pass(scene, camera, surface)[0] == (CommandView::UseProgram {
            program: scene.object_shader.id(),
        }),
        stays_with(
            object_pass(scene, camera, surface).drop_first(),
            scene.object_shader.id(),
        ),
        lamp_pass(scene, camera, surface)[0] == (CommandView::UseProgram {
            program: scene.lamp_shader.id(),
        }),
        stays_with(lamp_pass(scene, camera, surface).drop_first(), scene.lamp_shader.id()),
{
    let program = scene.object_shader.id();
    let lights = light_uploads(program, following(scene.lights, camera));
    let material = material_commands(program, scene.material);
    let eye = seq![uniform_command(program, "viewPos"@, UniformValue::Vector(camera.position))];
    let lens = lens_commands(program, camera, surface);
    let array = seq![CommandView::BindVertexArray { array: scene.object_array }];
    let draws = all_draw_commands(program, scene.objects@, scene.vertex_count);
    lemma_light_uploads_stay(program, following(scene.lights, camera));
    lemma_draws_stay(program, scene.objects@, scene.vertex_count);
    lemma_stays_with_both(lights, material, program);
    lemma_stays_with_both(lights + material, eye, program);
    lemma_stays_with_both(lights + material + eye, lens, program);
    lemma_stays_with_both(lights + material + eye + lens, array, program);
    lemma_stays_with_both(lights + material + eye + lens + array, draws, program);
    assert(object_pass(scene, camera, surface).drop_first() =~= lights + material + eye + lens
        + array + draws);

    let program = scene.lamp_shader.id();
    let lens = lens_commands(program, camera, surface);
    let array = seq![CommandView::BindVertexArray { array: scene.lamp_array }];
    let draws = all_draw_commands(
        program,
        lamp_places(scene.lights.points@),
        scene.vertex_count,
    );
    lemma_draws_stay(program, lamp_places(scene.lights.points@), scene.vertex_count);
    lemma_stays_with_both(lens, array, program);
    lemma_stays_with_both(lens + array, draws, program);
    assert(lamp_pass(scene, camera, surface).drop_first() =~= lens + array + draws);
}

} // verus!

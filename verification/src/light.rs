//! The lights of a scene and how they are handed to a shader program.
//!
//! There is one directional light, one spot light and a list of point
//! lights. Each frame they are uploaded in the same order under the same
//! names, so that a light keeps its place in the program's arrays.

use crate::camera::Camera;
use crate::device::{
    command_views, emit, lemma_stays_with_both, stays_with, CommandView, DeviceCommand,
    UniformValue,
};
use crate::names::{point_light_name, point_light_uniform};
use crate::shader::{uniform_command, Shader};
use crate::units::{clamp, trunc_div, SCALE};
use crate::vector::Vec3;
use vstd::prelude::*;

verus! {

/// How a light fades with distance: its intensity at distance `d` is
/// `1 / (constant + linear * d + quadratic * d * d)`. No coefficient is
/// negative.
#[derive(Clone, Copy, Debug, PartialEq, Eq)]
pub struct Attenuation {
    constant: i64,
    linear: i64,
    quadratic: i64,
}

/// The cone of a spot light, by the cosines of its two half-angles: full
/// light inside the inner cone, none outside the outer cone. The inner
/// cosine is at least the outer one.
#[derive(Clone, Copy, Debug, PartialEq, Eq)]
pub struct Cone {
    inner: i64,
    outer: i64,
}

/// Light from a direction, as from the sun.
#[derive(Clone, Copy, Debug, PartialEq, Eq)]
pub struct DirectionalLight {
    pub direction: Vec3,
    pub ambient: Vec3,
    pub diffuse: Vec3,
    pub specular: Vec3,
}

/// Light from a point, fading with distance.
#[derive(Clone, Copy, Debug, PartialEq, Eq)]
pub struct PointLight {
    pub position: Vec3,
    pub ambient: Vec3,
    pub diffuse: Vec3,
    pub specular: Vec3,
    pub attenuation: Attenuation,
}

/// Light from a point into a cone, fading with distance.
#[derive(Clone, Copy, Debug, PartialEq, Eq)]
pub struct SpotLight {
    pub position: Vec3,
    pub direction: Vec3,
    pub cone: Cone,
    pub ambient: Vec3,
    pub diffuse: Vec3,
    pub specular: Vec3,
    pub attenuation: Attenuation,
}

/// All the lights of a scene.
#[derive(Debug, PartialEq, Eq)]
pub struct LightingModel {
    pub directional: DirectionalLight,
    pub spot: SpotLight,
    pub points: Vec<PointLight>,
}

/// The denominator of the attenuation formula at distance `d`, times
/// `SCALE` cubed.
pub open spec fn attenuation_divisor(constant: int, linear: int, quadratic: int, d: int) -> int {
    constant * (SCALE * SCALE) + linear * d * SCALE + quadratic * d * d
}

/// The attenuation factor at distance `d`, in millionths, rounded down.
pub open spec fn attenuation_factor(constant: int, linear: int, quadratic: int, d: int) -> int {
    (SCALE * SCALE * SCALE * SCALE) / attenuation_divisor(constant, linear, quadratic, d)
}

/// How much of a spot light reaches a point seen from the light at an angle
/// with cosine `cos_theta` from its axis: all of it inside the inner cone,
/// none of it outside the outer cone, and in between the fraction
/// `(cos_theta - outer) / (inner - outer)`, in millionths.
pub open spec fn cone_intensity(inner: int, outer: int, cos_theta: int) -> int {
    if cos_theta >= inner {
        SCALE as int
    } else if cos_theta <= outer {
        0
    } else {
        trunc_div((cos_theta - outer) * SCALE, inner - outer)
    }
}

impl Attenuation {
    /// The constant coefficient.
    pub closed spec fn constant(self) -> i64 {
        self.constant
    }

    /// The linear coefficient.
    pub closed spec fn linear(self) -> i64 {
        self.linear
    }

    /// The quadratic coefficient.
    pub closed spec fn quadratic(self) -> i64 {
        self.quadratic
    }

    /// No coefficient is negative.
    pub open spec fn wf(self) -> bool {
        self.constant() >= 0 && self.linear() >= 0 && self.quadratic() >= 0
    }

    /// The attenuation with the given coefficients, unless one of them is
    /// negative.
    pub fn new(constant: i64, linear: i64, quadratic: i64) -> (r: Option<Attenuation>)
        ensures
            r is Some <==> constant >= 0 && linear >= 0 && quadratic >= 0,
            r matches Some(a) ==> a.wf() && a.constant() == constant && a.linear() == linear
                && a.quadratic() == quadratic,
    {
        if constant >= 0 && linear >= 0 && quadratic >= 0 {
            Some(Attenuation { constant, linear, quadratic })
        } else {
            None
        }
    }

    /// The three coefficients: constant, linear, quadratic.
    pub fn coefficients(&self) -> (c: (i64, i64, i64))
        ensures
            c == (self.constant(), self.linear(), self.quadratic()),
    {
        (self.constant, self.linear, self.quadratic)
    }

    /// The factor by which light is dimmed at `distance`, in millionths,
    /// rounded down. There is none where the formula's denominator is zero
    /// or the factor is too large for the result type.
    pub fn factor(&self, distance: u32) -> (r: Option<i64>)
        requires
            self.wf(),
        ensures
            match r {
                Some(f) => attenuation_divisor(
                    self.constant() as int,
                    self.linear() as int,
                    self.quadratic() as int,
                    distance as int,
                ) > 0 && f == attenuation_factor(
                    self.constant() as int,
                    self.linear() as int,
                    self.quadratic() as int,
                    distance as int,
                ),
                None => attenuation_divisor(
                    self.constant() as int,
                    self.linear() as int,
                    self.quadratic() as int,
                    distance as int,
                ) <= 0 || attenuation_factor(
                    self.constant() as int,
                    self.linear() as int,
                    self.quadratic() as int,
                    distance as int,
                ) > i64::MAX,
            },
    {
        let c: u128 = self.constant as u128;
        let l: u128 = self.linear as u128;
        let q: u128 = self.quadratic as u128;
        let d: u128 = distance as u128;
        assert(SCALE * SCALE == 1_000_000_000_000) by (nonlinear_arith)
            requires
                SCALE == 1_000_000,
        ;
        assert(SCALE * SCALE * SCALE * SCALE == 1_000_000_000_000_000_000_000_000)
            by (nonlinear_arith)
            requires
                SCALE == 1_000_000,
        ;
        assert(c * 1_000_000_000_000 <= 0x7fff_ffff_ffff_ffff * 1_000_000_000_000)
            by (nonlinear_arith)
            requires
                0 <= c <= 0x7fff_ffff_ffff_ffff,
        ;
        assert(0 <= l * d <= 0x7fff_ffff_ffff_ffff * 0xffff_ffff) by (nonlinear_arith)
            requires
                0 <= l <= 0x7fff_ffff_ffff_ffff,
                0 <= d <= 0xffff_ffff,
        ;
        assert(l * d * 1_000_000 <= 0x7fff_ffff_ffff_ffff * 0xffff_ffff * 1_000_000)
            by (nonlinear_arith)
            requires
                0 <= l * d <= 0x7fff_ffff_ffff_ffff * 0xffff_ffff,
        ;
        assert(0 <= q * d <= 0x7fff_ffff_ffff_ffff * 0xffff_ffff) by (nonlinear_arith)
            requires
                0 <= q <= 0x7fff_ffff_ffff_ffff,
                0 <= d <= 0xffff_ffff,
        ;
        assert(q * d * d <= 0x7fff_ffff_ffff_ffff * 0xffff_ffff * 0xffff_ffff)
            by (nonlinear_arith)
            requires
                0 <= q * d <= 0x7fff_ffff_ffff_ffff * 0xffff_ffff,
                0 <= d <= 0xffff_ffff,
        ;
        let divisor: u128 = c * 1_000_000_000_000 + l * d * 1_000_000 + q * d * d;
        assert(divisor == attenuation_divisor(
            self.constant() as int,
            self.linear() as int,
            self.quadratic() as int,
            distance as int,
        ));
        if divisor == 0 {
            return None;
        }
        let factor: u128 = 1_000_000_000_000_000_000_000_000 / divisor;
        if factor > i64::MAX as u128 {
            None
        } else {
            Some(factor as i64)
        }
    }
}

impl Cone {
    /// Cosine of the half-angle of the inner cone.
    pub closed spec fn inner(self) -> i64 {
        self.inner
    }

    /// Cosine of the half-angle of the outer cone.
    pub closed spec fn outer(self) -> i64 {
        self.outer
    }

    /// The inner cone is no wider than the outer one.
    pub open spec fn wf(self) -> bool {
        self.inner() >= self.outer()
    }

    /// The cone with the given cosines, unless the inner one is the smaller.
    pub fn new(inner: i64, outer: i64) -> (r: Option<Cone>)
        ensures
            r is Some <==> inner >= outer,
            r matches Some(c) ==> c.wf() && c.inner() == inner && c.outer() == outer,
    {
        if inner >= outer {
            Some(Cone { inner, outer })
        } else {
            None
        }
    }

    /// The two cosines: inner, outer.
    pub fn cutoffs(&self) -> (c: (i64, i64))
        ensures
            c == (self.inner(), self.outer()),
    {
        (self.inner, self.outer)
    }

    /// How much of the light reaches a point at an angle with cosine
    /// `cos_theta` from the axis, from 0 for none to `SCALE` for all.
    pub fn intensity(&self, cos_theta: i64) -> (r: i64)
        requires
            self.wf(),
        ensures
            r == cone_intensity(self.inner() as int, self.outer() as int, cos_theta as int),
            0 <= r <= SCALE,
    {
        if cos_theta >= self.inner {
            SCALE
        } else if cos_theta <= self.outer {
            0
        } else {
            let above: i128 = cos_theta as i128 - self.outer as i128;
            let width: i128 = self.inner as i128 - self.outer as i128;
            assert(0 <= above * 1_000_000 < width * 1_000_000) by (nonlinear_arith)
                requires
                    0 < above < width,
            ;
            assert(above * 1_000_000 <= 0x1_0000_0000_0000_0000 * 1_000_000) by (nonlinear_arith)
                requires
                    0 < above <= 0x1_0000_0000_0000_0000,
            ;
            let scaled: i128 = above * 1_000_000;
            let r: i128 = scaled / width;
            assert(0 <= r < 1_000_000) by (nonlinear_arith)
                requires
                    r == scaled / width,
                    0 <= scaled < width * 1_000_000,
                    width > 0,
            ;
            r as i64
        }
    }
}

/// Between the cones the intensity is the clamped fraction of the formula:
/// where the inner cosine is above the outer one, `cone_intensity` is
/// `(cos_theta - outer) / (inner - outer)` limited to the interval from 0 to
/// 1, whatever `cos_theta` is.
pub proof fn lemma_cone_intensity_is_clamped_fraction(inner: int, outer: int, cos_theta: int)
    requires
        inner > outer,
    ensures
        cone_intensity(inner, outer, cos_theta) == clamp(
            trunc_div((cos_theta - outer) * SCALE, inner - outer),
            0,
            SCALE as int,
        ),
{
    let width = inner - outer;
    let above = cos_theta - outer;
    let scaled = above * SCALE;
    if cos_theta >= inner {
        assert(scaled >= width * SCALE) by (nonlinear_arith)
            requires
                scaled == above * SCALE,
                above >= width,
                SCALE == 1_000_000,
        ;
        assert(scaled / width >= SCALE) by (nonlinear_arith)
            requires
                scaled >= width * SCALE,
                width > 0,
        ;
    } else if cos_theta <= outer {
        assert(scaled <= 0) by (nonlinear_arith)
            requires
                scaled == above * SCALE,
                above <= 0,
                SCALE == 1_000_000,
        ;
        if scaled < 0 {
            assert((-scaled) / width >= 0) by (nonlinear_arith)
                requires
                    -scaled > 0,
                    width > 0,
            ;
        } else {
            assert(0int / width == 0) by (nonlinear_arith)
                requires
                    width > 0,
            ;
        }
    } else {
        assert(0 <= scaled < width * SCALE) by (nonlinear_arith)
            requires
                scaled == above * SCALE,
                0 < above < width,
                SCALE == 1_000_000,
        ;
        assert(0 <= scaled / width < SCALE) by (nonlinear_arith)
            requires
                0 <= scaled < width * SCALE,
                width > 0,
        ;
    }
}

/// The uploads of the directional light, in order.
pub open spec fn directional_uploads(program: u32, light: DirectionalLight) -> Seq<CommandView> {
    seq![
        uniform_command(program, "dirLight.direction"@, UniformValue::Vector(light.direction)),
        uniform_command(program, "dirLight.ambient"@, UniformValue::Vector(light.ambient)),
        uniform_command(program, "dirLight.diffuse"@, UniformValue::Vector(light.diffuse)),
        uniform_command(program, "dirLight.specular"@, UniformValue::Vector(light.specular)),
    ]
}

/// The uploads of the spot light, in order.
pub open spec fn spot_uploads(program: u32, light: SpotLight) -> Seq<CommandView> {
    seq![
        uniform_command(program, "spotLight.position"@, UniformValue::Vector(light.position)),
        uniform_command(program, "spotLight.direction"@, UniformValue::Vector(light.direction)),
        uniform_command(program, "spotLight.cutOff"@, UniformValue::Float(light.cone.inner())),
        uniform_command(
            program,
            "spotLight.outerCutOff"@,
            UniformValue::Float(light.cone.outer()),
        ),
        uniform_command(program, "spotLight.ambient"@, UniformValue::Vector(light.ambient)),
        uniform_command(program, "spotLight.diffuse"@, UniformValue::Vector(light.diffuse)),
        uniform_command(program, "spotLight.specular"@, UniformValue::Vector(light.specular)),
        uniform_command(
            program,
            "spotLight.constant"@,
            UniformValue::Float(light.attenuation.constant()),
        ),
        uniform_command(
            program,
            "spotLight.linear"@,
            UniformValue::Float(light.attenuation.linear()),
        ),
        uniform_command(
            program,
            "spotLight.quadratic"@,
            UniformValue::Float(light.attenuation.quadratic()),
        ),
    ]
}

/// The uploads of the point light at place `index`, in order.
pub open spec fn point_uploads(program: u32, index: nat, light: PointLight) -> Seq<CommandView> {
    seq![
        uniform_command(
            program,
            point_light_name(index, "position"@),
            UniformValue::Vector(light.position),
        ),
        uniform_command(
            program,
            point_light_name(index, "ambient"@),
            UniformValue::Vector(light.ambient),
        ),
        uniform_command(
            program,
            point_light_name(index, "diffuse"@),
            UniformValue::Vector(light.diffuse),
        ),
        uniform_command(
            program,
            point_light_name(index, "specular"@),
            UniformValue::Vector(light.specular),
        ),
        uniform_command(
            program,
            point_light_name(index, "constant"@),
            UniformValue::Float(light.attenuation.constant()),
        ),
        uniform_command(
            program,
            point_light_name(index, "linear"@),
            UniformValue::Float(light.attenuation.linear()),
        ),
        uniform_command(
            program,
            point_light_name(index, "quadratic"@),
            UniformValue::Float(light.attenuation.quadratic()),
        ),
    ]
}

/// The uploads of a list of point lights: those of the first light, then
/// those of the second, and so on.
pub open spec fn all_point_uploads(program: u32, lights: Seq<PointLight>) -> Seq<CommandView>
    decreases lights.len(),
{
    if lights.len() == 0 {
        Seq::empty()
    } else {
        all_point_uploads(program, lights.drop_last()) + point_uploads(
            program,
            (lights.len() - 1) as nat,
            lights.last(),
        )
    }
}

/// All the uploads of the lights: the directional light, the spot light,
/// then the point lights in the order of the list.
pub open spec fn light_uploads(program: u32, lights: LightingModel) -> Seq<CommandView> {
    directional_uploads(program, lights.directional) + spot_uploads(program, lights.spot)
        + all_point_uploads(program, lights.points@)
}

/// Number of uploads for the directional light.
pub const DIRECTIONAL_UPLOADS: usize = 4;

/// Number of uploads for the spot light.
pub const SPOT_UPLOADS: usize = 10;

/// Number of uploads for each point light.
pub const POINT_UPLOADS: usize = 7;

impl DirectionalLight {
    /// Appends the uploads of this light to `commands`.
    pub fn upload(&self, shader: &Shader, commands: &mut Vec<DeviceCommand>)
        ensures
            command_views(final(commands)@) == command_views(old(commands)@)
                + directional_uploads(shader.id(), *self),
    {
        emit(commands, shader.set_vec3("dirLight.direction", self.direction));
        emit(commands, shader.set_vec3("dirLight.ambient", self.ambient));
        emit(commands, shader.set_vec3("dirLight.diffuse", self.diffuse));
        emit(commands, shader.set_vec3("dirLight.specular", self.specular));
        assert(command_views(commands@) =~= command_views(old(commands)@) + directional_uploads(
            shader.id(),
            *self,
        ));
    }
}

impl SpotLight {
    /// Appends the uploads of this light to `commands`.
    pub fn upload(&self, shader: &Shader, commands: &mut Vec<DeviceCommand>)
        ensures
            command_views(final(commands)@) == command_views(old(commands)@) + spot_uploads(
                shader.id(),
                *self,
            ),
    {
        let (inner, outer) = self.cone.cutoffs();
        let (constant, linear, quadratic) = self.attenuation.coefficients();
        emit(commands, shader.set_vec3("spotLight.position", self.position));
        emit(commands, shader.set_vec3("spotLight.direction", self.direction));
        emit(commands, shader.set_float("spotLight.cutOff", inner));
        emit(commands, shader.set_float("spotLight.outerCutOff", outer));
        emit(commands, shader.set_vec3("spotLight.ambient", self.ambient));
        emit(commands, shader.set_vec3("spotLight.diffuse", self.diffuse));
        emit(commands, shader.set_vec3("spotLight.specular", self.specular));
        emit(commands, shader.set_float("spotLight.constant", constant));
        emit(commands, shader.set_float("spotLight.linear", linear));
        emit(commands, shader.set_float("spotLight.quadratic", quadratic));
        assert(command_views(commands@) =~= command_views(old(commands)@) + spot_uploads(
            shader.id(),
            *self,
        ));
    }
}

impl PointLight {
    /// Appends the uploads of this light, as the light at place `index`, to
    /// `commands`.
    pub fn upload(&self, shader: &Shader, index: usize, commands: &mut Vec<DeviceCommand>)
        ensures
            command_views(final(commands)@) == command_views(old(commands)@) + point_uploads(
                shader.id(),
                index as nat,
                *self,
            ),
    {
        let (constant, linear, quadratic) = self.attenuation.coefficients();
        let position = point_light_uniform(index, "position");
        emit(commands, shader.set_vec3(position.as_str(), self.position));
        let ambient = point_light_uniform(index, "ambient");
        emit(commands, shader.set_vec3(ambient.as_str(), self.ambient));
        let diffuse = point_light_uniform(index, "diffuse");
        emit(commands, shader.set_vec3(diffuse.as_str(), self.diffuse));
        let specular = point_light_uniform(index, "specular");
        emit(commands, shader.set_vec3(specular.as_str(), self.specular));
        let constant_name = point_light_uniform(index, "constant");
        emit(commands, shader.set_float(constant_name.as_str(), constant));
        let linear_name = point_light_uniform(index, "linear");
        emit(commands, shader.set_float(linear_name.as_str(), linear));
        let quadratic_name = point_light_uniform(index, "quadratic");
        emit(commands, shader.set_float(quadratic_name.as_str(), quadratic));
        assert(command_views(commands@) =~= command_views(old(commands)@) + point_uploads(
            shader.id(),
            index as nat,
            *self,
        ));
    }
}

impl LightingModel {
    /// Makes the spot light a headlamp: puts it where the camera is and
    /// points it where the camera looks. Nothing else changes.
    pub fn follow(&mut self, camera: &Camera)
        ensures
            final(self).spot == (SpotLight {
                position: camera.state().position,
                direction: camera.state().front,
                ..old(self).spot
            }),
            final(self).directional == old(self).directional,
            final(self).points == old(self).points,
    {
        self.spot.position = camera.position();
        self.spot.direction = camera.front();
    }

    /// Appends the uploads of all the lights to `commands`: the directional
    /// light, the spot light, then the point lights in the order of the
    /// list, each under the name of its place.
    pub fn upload(&self, shader: &Shader, commands: &mut Vec<DeviceCommand>)
        ensures
            command_views(final(commands)@) == command_views(old(commands)@) + light_uploads(
                shader.id(),
                *self,
            ),
    {
        self.directional.upload(shader, commands);
        self.spot.upload(shader, commands);
        let ghost fixed = command_views(old(commands)@) + directional_uploads(
            shader.id(),
            self.directional,
        ) + spot_uploads(shader.id(), self.spot);
        let mut index: usize = 0;
        while index < self.points.len()
            invariant
                index <= self.points.len(),
                command_views(commands@) == fixed + all_point_uploads(
                    shader.id(),
                    self.points@.take(index as int),
                ),
            decreases self.points.len() - index,
        {
            self.points[index].upload(shader, index, commands);
            proof {
                let next = self.points@.take(index + 1);
                assert(next.drop_last() =~= self.points@.take(index as int));
                assert(next.last() == self.points@[index as int]);
                assert(command_views(commands@) =~= fixed + all_point_uploads(shader.id(), next));
            }
            index += 1;
        }
        assert(self.points@.take(index as int) =~= self.points@);
        assert(command_views(commands@) =~= command_views(old(commands)@) + light_uploads(
            shader.id(),
            *self,
        ));
    }
}

/// The uploads of a list of point lights are seven for each light.
pub proof fn lemma_point_uploads_len(program: u32, lights: Seq<PointLight>)
    ensures
        all_point_uploads(program, lights).len() == POINT_UPLOADS * lights.len(),
    decreases lights.len(),
{
    if lights.len() > 0 {
        lemma_point_uploads_len(program, lights.drop_last());
    }
}

/// A light keeps its place. The uploads of the point light at place `index`
/// stand at a place in the whole list that depends on `index` alone, under
/// names that depend on `index` alone, whatever the other lights are and
/// however many follow.
pub proof fn lemma_point_light_keeps_its_place(
    program: u32,
    lights: LightingModel,
    index: int,
    field: int,
)
    requires
        0 <= index < lights.points@.len(),
        0 <= field < POINT_UPLOADS,
    ensures
        light_uploads(program, lights).len() == DIRECTIONAL_UPLOADS + SPOT_UPLOADS + POINT_UPLOADS
            * lights.points@.len(),
        light_uploads(program, lights)[DIRECTIONAL_UPLOADS + SPOT_UPLOADS + POINT_UPLOADS * index
            + field] == point_uploads(program, index as nat, lights.points@[index])[field],
{
    lemma_point_uploads_len(program, lights.points@);
    lemma_point_upload_at(program, lights.points@, index, field);
}

/// The uploads of a list of point lights are all addressed to the program.
proof fn lemma_point_uploads_stay(program: u32, lights: Seq<PointLight>)
    ensures
        stays_with(all_point_uploads(program, lights), program),
    decreases lights.len(),
{
    if lights.len() > 0 {
        lemma_point_uploads_stay(program, lights.drop_last());
        lemma_stays_with_both(
            all_point_uploads(program, lights.drop_last()),
            point_uploads(program, (lights.len() - 1) as nat, lights.last()),
            program,
        );
    }
}

/// The uploads of the lights are all addressed to the program they are
/// made for, and none of them makes a program active.
pub proof fn lemma_light_uploads_stay(program: u32, lights: LightingModel)
    ensures
        stays_with(light_uploads(program, lights), program),
{
    lemma_point_uploads_stay(program, lights.points@);
    lemma_stays_with_both(
        directional_uploads(program, lights.directional),
        spot_uploads(program, lights.spot),
        program,
    );
    lemma_stays_with_both(
        directional_uploads(program, lights.directional) + spot_uploads(program, lights.spot),
        all_point_uploads(program, lights.points@),
        program,
    );
}

/// The uploads of the light at place `index` within `all_point_uploads`.
proof fn lemma_point_upload_at(program: u32, lights: Seq<PointLight>, index: int, field: int)
    requires
        0 <= index < lights.len(),
        0 <= field < POINT_UPLOADS,
    ensures
        all_point_uploads(program, lights).len() == POINT_UPLOADS * lights.len(),
        all_point_uploads(program, lights)[POINT_UPLOADS * index + field] == point_uploads(
            program,
            index as nat,
            lights[index],
        )[field],
    decreases lights.len(),
{
    lemma_point_uploads_len(program, lights);
    lemma_point_uploads_len(program, lights.drop_last());
    if index < lights.len() - 1 {
        lemma_point_upload_at(program, lights.drop_last(), index, field);
    }
}

} // verus!

//! What the library asks of the graphics device: commands as plain values,
//! in the order in which they are to be carried out.

use crate::camera::ViewFrame;
use crate::vector::Vec3;
use vstd::prelude::*;

verus! {

/// What a perspective projection is built from.
#[derive(Clone, Copy, Debug, PartialEq, Eq, Structural)]
pub struct Projection {
    /// Vertical opening angle, in millionths of a degree.
    pub field_of_view: i64,
    /// Width of the drawing surface, in pixels.
    pub width: i32,
    /// Height of the drawing surface, in pixels.
    pub height: i32,
    /// Distance of the near plane.
    pub near: i64,
    /// Distance of the far plane.
    pub far: i64,
}

/// Where an object stands in the world: scaled by `scale`, then turned by
/// `angle` about `axis`, then moved to `position`.
#[derive(Clone, Copy, Debug, PartialEq, Eq, Structural)]
pub struct ModelTransform {
    pub position: Vec3,
    /// Axis of the rotation; it need not be of unit length.
    pub axis: Vec3,
    /// Angle of the rotation, in millionths of a degree.
    pub angle: i64,
    /// Uniform scale factor, in millionths.
    pub scale: i64,
}

/// A four-by-four matrix, named by what it is built from.
#[derive(Clone, Copy, Debug, PartialEq, Eq, Structural)]
pub enum Matrix {
    View(ViewFrame),
    Projection(Projection),
    Model(ModelTransform),
}

/// A value that can be given to a uniform.
#[derive(Clone, Copy, Debug, PartialEq, Eq, Structural)]
pub enum UniformValue {
    /// An integer, or a texture unit's index.
    Int(i32),
    /// A number, in millionths.
    Float(i64),
    /// A vector, in millionths.
    Vector(Vec3),
    /// A matrix.
    Matrix(Matrix),
}

/// One request to the graphics device.
#[derive(Debug, PartialEq, Eq)]
pub enum DeviceCommand {
    /// Set the drawing area to the whole surface.
    SetViewport { width: i32, height: i32 },
    /// Clear the colour and depth buffers.
    ClearFrame,
    /// Make a program the active one.
    UseProgram { program: u32 },
    /// Give the uniform `name` of `program` a value. A name that the program
    /// does not have is no error: the device ignores the request.
    SetUniform { program: u32, name: String, value: UniformValue },
    /// Bind a texture to a texture unit.
    BindTexture { unit: u32, texture: u32 },
    /// Choose the vertex array to draw from.
    BindVertexArray { array: u32 },
    /// Draw `count` vertices as triangles, starting at `first`.
    DrawTriangles { first: i32, count: i32 },
}

/// A `DeviceCommand` with its text as a sequence of characters.
pub enum CommandView {
    SetViewport { width: i32, height: i32 },
    ClearFrame,
    UseProgram { program: u32 },
    SetUniform { program: u32, name: Seq<char>, value: UniformValue },
    BindTexture { unit: u32, texture: u32 },
    BindVertexArray { array: u32 },
    DrawTriangles { first: i32, count: i32 },
}

impl View for DeviceCommand {
    type V = CommandView;

    open spec fn view(&self) -> CommandView {
        match *self {
            DeviceCommand::SetViewport { width, height } => CommandView::SetViewport {
                width,
                height,
            },
            DeviceCommand::ClearFrame => CommandView::ClearFrame,
            DeviceCommand::UseProgram { program } => CommandView::UseProgram { program },
            DeviceCommand::SetUniform { program, name, value } => CommandView::SetUniform {
                program,
                name: name@,
                value,
            },
            DeviceCommand::BindTexture { unit, texture } => CommandView::BindTexture {
                unit,
                texture,
            },
            DeviceCommand::BindVertexArray { array } => CommandView::BindVertexArray { array },
            DeviceCommand::DrawTriangles { first, count } => CommandView::DrawTriangles {
                first,
                count,
            },
        }
    }
}

/// The views of a sequence of commands, in the same order.
pub open spec fn command_views(commands: Seq<DeviceCommand>) -> Seq<CommandView> {
    commands.map_values(|c: DeviceCommand| c@)
}

/// Whether `commands` stay with `program`: every upload among them is
/// addressed to `program`, and none of them makes a program active.
pub open spec fn stays_with(commands: Seq<CommandView>, program: u32) -> bool {
    forall|i: int|
        0 <= i < commands.len() ==> match #[trigger] commands[i] {
            CommandView::SetUniform { program: addressed, name, value } => addressed == program,
            CommandView::UseProgram { program: other } => false,
            _ => true,
        }
}

/// Commands that stay with a program, followed by more that do, stay with
/// it.
pub proof fn lemma_stays_with_both(a: Seq<CommandView>, b: Seq<CommandView>, program: u32)
    requires
        stays_with(a, program),
        stays_with(b, program),
    ensures
        stays_with(a + b, program),
{
    assert forall|i: int| 0 <= i < (a + b).len() implies match #[trigger] (a + b)[i] {
        CommandView::SetUniform { program: addressed, name, value } => addressed == program,
        CommandView::UseProgram { program: other } => false,
        _ => true,
    } by {
        if i < a.len() {
            assert((a + b)[i] == a[i]);
        } else {
            assert((a + b)[i] == b[i - a.len()]);
        }
    }
}

/// Appends `command` to `commands`.
pub fn emit(commands: &mut Vec<DeviceCommand>, command: DeviceCommand)
    ensures
        command_views(final(commands)@) == command_views(old(commands)@).push(command@),
{
    commands.push(command);
    assert(command_views(commands@) =~= command_views(old(commands)@).push(command@));
}

} // verus!

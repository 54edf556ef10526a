//! Rendering adapter: the renderer-agnostic interface and the frame header
//! of the debug text renderer.

use vstd::prelude::*;
use crate::common::Vec3;
use crate::kernel::world::{World, WorldView};
use crate::text::{decimal, push_decimal};

verus! {

/// Bit pattern of the binary32 value `10.0`.
pub const F32_TEN_BITS: u32 = 0x4120_0000;

/// Bit pattern of the binary32 value `60.0`.
pub const F32_SIXTY_BITS: u32 = 0x4270_0000;

/// Camera/view configuration for rendering. Components are binary32 values
/// held as their bit patterns.
#[derive(Clone, Copy, Debug, PartialEq, Eq, Structural)]
pub struct RenderView {
    /// Camera position in world space.
    pub eye: Vec3,
    /// Point the camera is looking at.
    pub target: Vec3,
    /// Field of view in degrees.
    pub fov_degrees: u32,
}

impl Default for RenderView {
    fn default() -> (view: RenderView)
        ensures
            view == (RenderView {
                eye: Vec3 { x: crate::common::F32_ZERO_BITS, y: F32_TEN_BITS, z: F32_TEN_BITS },
                target: Vec3::spec_zero(),
                fov_degrees: F32_SIXTY_BITS,
            }),
    {
        RenderView {
            eye: Vec3::new(crate::common::F32_ZERO_BITS, F32_TEN_BITS, F32_TEN_BITS),
            target: Vec3::zero(),
            fov_degrees: F32_SIXTY_BITS,
        }
    }
}

/// Renderer-agnostic interface. All renderers implement this trait.
///
/// The renderer reads world state and a view configuration, then produces
/// output. It never mutates the world.
pub trait Renderer {
    /// The output type produced by this renderer.
    type Output;

    /// Render one frame from the given world state and view.
    fn render(&self, world: &World, view: &RenderView) -> Self::Output;
}

/// Debug text renderer: produces a human-readable representation of the
/// world state.
#[derive(Clone, Copy, Debug)]
pub struct DebugTextRenderer;

/// The first two lines of a debug frame: tick and seed, then the number of
/// entities.
pub open spec fn frame_header(world: WorldView) -> Seq<char> {
    "=== World State (tick="@ + decimal(world.state.tick as nat) + ", seed="@ + decimal(
        world.state.seed as nat,
    ) + ") ===\n"@ + "Entities: "@ + decimal(world.state.entities.len()) + "\n"@
}

impl DebugTextRenderer {
    pub fn new() -> (renderer: DebugTextRenderer)
        ensures
            renderer == DebugTextRenderer,
    {
        DebugTextRenderer
    }

    /// Writes the first two lines of a debug frame.
    pub fn header(&self, world: &World) -> (text: String)
        ensures
            text@ == frame_header(world@),
    {
        let mut text = String::new();
        text.push_str("=== World State (tick=");
        push_decimal(&mut text, world.tick());
        text.push_str(", seed=");
        push_decimal(&mut text, world.seed());
        text.push_str(") ===\n");
        text.push_str("Entities: ");
        push_decimal(&mut text, world.entity_count() as u64);
        text.push_str("\n");
        assert(text@ =~= frame_header(world@));
        text
    }
}

impl Default for DebugTextRenderer {
    fn default() -> (renderer: DebugTextRenderer) {
        DebugTextRenderer
    }
}

/// The name and version of the rendering adapter.
pub fn crate_info() -> (info: &'static str)
    ensures
        info@ == "worldspace-render v0.1.0"@,
{
    "worldspace-render v0.1.0"
}

} // verus!

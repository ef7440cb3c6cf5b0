//! The graphics context state machine.
//!
//! A context is created unconfigured and moves to a concrete backend —
//! a native GPU surface or an in-memory pixel buffer — exactly when it is
//! configured.  Acquiring the current frame target dispatches on that
//! backend and yields a buffer tagged with its origin.  Native surfaces and
//! textures are named here by their process-local identifiers; the native
//! acquisition itself is an external collaborator whose outcome is handed
//! in as a plain value.

use vstd::prelude::*;
use crate::error::BrokerError;

verus! {

/// Presentation mode requested for a configured surface.
#[derive(Clone, Copy, Debug, PartialEq, Eq)]
pub enum PresentMode {
    /// Present in submission order, throttled to the display cadence.
    Fifo,
    /// Present as soon as possible.
    Immediate,
}

/// A reference to the pixel-buffer backend's single mutable buffer.  Two
/// references with the same identity name the same underlying storage.
#[derive(Clone, Copy, Debug, PartialEq, Eq)]
pub struct SimpleBuffer {
    pub buffer: u64,
}

/// The in-memory pixel-buffer backend's surface state: its size, its
/// presentation mode, and the identity of its single mutable buffer.
#[derive(Clone, Copy, Debug, PartialEq, Eq)]
pub struct Surface {
    pub width: u32,
    pub height: u32,
    pub present_mode: PresentMode,
    pub buffer: u64,
}

impl Surface {
    /// The backend's single mutable pixel buffer.  Always available: this
    /// backend has no acquire/present cycle, and every call returns a
    /// reference to the same underlying buffer.
    pub fn current_mutable_buffer(&self) -> (r: SimpleBuffer)
        ensures
            r == (SimpleBuffer { buffer: self.buffer }),
    {
        SimpleBuffer { buffer: self.buffer }
    }
}

/// A native surface texture acquired for one frame, tagged with the surface
/// it came from so presentation can dispatch without re-resolving the
/// parent context.
#[derive(Clone, Copy, Debug, PartialEq, Eq)]
pub struct WebgpuTexture {
    pub texture: u64,
    pub surface: u64,
}

/// The backend a context is configured for.
#[derive(Clone, Copy, Debug, PartialEq, Eq)]
pub enum GraphicsContextKind {
    /// A native GPU surface, by its identifier.
    Webgpu(u64),
    /// The in-memory pixel-buffer backend.
    SimpleBuffer(Surface),
}

/// Per-handle state of a rendering surface: unconfigured until `configure`
/// selects a backend.
#[derive(Clone, Copy, Debug, PartialEq, Eq)]
pub struct GraphicsContext {
    pub kind: Option<GraphicsContextKind>,
}

/// A frame target handed to the guest, tagged by the backend it came from.
#[derive(Clone, Copy, Debug, PartialEq, Eq)]
#[non_exhaustive]
pub enum GraphicsContextBuffer {
    /// A texture acquired from a native GPU surface.
    Webgpu(WebgpuTexture),
    /// The pixel-buffer backend's single mutable buffer.
    SimpleBuffer(SimpleBuffer),
}

/// What the native texture acquisition returned for a GPU-backed context.
/// The acquisition is an external collaborator; only its outcome enters the
/// broker.
#[derive(Clone, Copy, Debug, PartialEq, Eq)]
pub enum FrameAcquire {
    /// The next presentable texture, by its identifier.
    Texture(u64),
    /// The surface was lost; recoverable by reconfigure and retry.
    Lost,
    /// The acquisition timed out; recoverable by retry.
    Timeout,
}

/// Backend selection in a configuration record.
#[derive(Clone, Copy, Debug, PartialEq, Eq)]
pub enum BackendChoice {
    /// Bind to a native GPU surface, by its identifier.
    Webgpu { surface: u64 },
    /// Bind to a fresh in-memory pixel buffer.
    SimpleBuffer,
}

/// The configuration record handed to `configure`: a requested size, a
/// presentation mode, and the backend to select.
#[derive(Clone, Copy, Debug, PartialEq, Eq)]
pub struct ConfigureContextDesc {
    pub width: u32,
    pub height: u32,
    pub present_mode: PresentMode,
    pub backend: BackendChoice,
}

/// The context kind a configuration record selects; `serial` is the
/// identity given to a freshly allocated pixel buffer.
pub open spec fn configured_kind(desc: ConfigureContextDesc, serial: u64) -> GraphicsContextKind {
    match desc.backend {
        BackendChoice::Webgpu { surface } => GraphicsContextKind::Webgpu(surface),
        BackendChoice::SimpleBuffer => GraphicsContextKind::SimpleBuffer(
            Surface {
                width: desc.width,
                height: desc.height,
                present_mode: desc.present_mode,
                buffer: serial,
            },
        ),
    }
}

/// What acquiring the current frame target produces for a context in a
/// given state, once the outcome of native acquisition is known: an
/// unconfigured context is refused, a GPU-backed one passes the native
/// outcome through, and the pixel-buffer backend always hands out its one
/// mutable buffer.
pub open spec fn buffer_outcome(kind: Option<GraphicsContextKind>, acquired: FrameAcquire) -> Result<
    GraphicsContextBuffer,
    BrokerError,
> {
    match kind {
        Option::None => Result::Err(BrokerError::Unconfigured),
        Option::Some(GraphicsContextKind::Webgpu(surface)) => match acquired {
            FrameAcquire::Texture(texture) => Result::Ok(
                GraphicsContextBuffer::Webgpu((WebgpuTexture { texture, surface })),
            ),
            FrameAcquire::Lost => Result::Err(BrokerError::SurfaceLost),
            FrameAcquire::Timeout => Result::Err(BrokerError::SurfaceTimeout),
        },
        Option::Some(GraphicsContextKind::SimpleBuffer(surface)) => Result::Ok(
            GraphicsContextBuffer::SimpleBuffer((SimpleBuffer { buffer: surface.buffer })),
        ),
    }
}

} // verus!

use vstd::prelude::*;

verus! {

/// A window size, in physical or in logical pixels.
#[derive(Copy, Clone, Debug, PartialEq, Eq, Structural)]
pub enum ResolutionConfig {
    Physical(u32, u32),
    Logical(u32, u32),
}

impl ResolutionConfig {
    pub open spec fn w(&self) -> u32 {
        match *self {
            ResolutionConfig::Physical(w, _) => w,
            ResolutionConfig::Logical(w, _) => w,
        }
    }

    pub open spec fn h(&self) -> u32 {
        match *self {
            ResolutionConfig::Physical(_, h) => h,
            ResolutionConfig::Logical(_, h) => h,
        }
    }

    pub fn width(&self) -> (r: u32)
        ensures
            r == self.w(),
    {
        match *self {
            ResolutionConfig::Physical(w, _) => w,
            ResolutionConfig::Logical(w, _) => w,
        }
    }

    pub fn height(&self) -> (r: u32)
        ensures
            r == self.h(),
    {
        match *self {
            ResolutionConfig::Physical(_, h) => h,
            ResolutionConfig::Logical(_, h) => h,
        }
    }

    /// Replaces a size with a zero side by the smallest window, 1 by 1, keeping
    /// the kind of pixels; returns the new value.
    pub fn ensure_non_zero(&mut self) -> (r: ResolutionConfig)
        ensures
            r == *final(self),
            (old(self).w() == 0 || old(self).h() == 0) ==> *final(self) == match *old(self) {
                ResolutionConfig::Physical(_, _) => ResolutionConfig::Physical(1, 1),
                ResolutionConfig::Logical(_, _) => ResolutionConfig::Logical(1, 1),
            },
            (old(self).w() != 0 && old(self).h() != 0) ==> *final(self) == *old(self),
    {
        match *self {
            ResolutionConfig::Physical(w, h) => {
                if w == 0 || h == 0 {
                    *self = ResolutionConfig::Physical(1, 1);
                }
            },
            ResolutionConfig::Logical(w, h) => {
                if w == 0 || h == 0 {
                    *self = ResolutionConfig::Logical(1, 1);
                }
            },
        }
        *self
    }
}

/// Multisampling: how many samples each pixel of a render attachment holds.
#[derive(Copy, Clone, Debug, PartialEq, Eq, Structural)]
pub enum Msaa {
    Off,
    Sample2,
    Sample4,
    Sample8,
}

pub open spec fn msaa_samples(m: Msaa) -> u32 {
    match m {
        Msaa::Off => 1,
        Msaa::Sample2 => 2,
        Msaa::Sample4 => 4,
        Msaa::Sample8 => 8,
    }
}

impl Msaa {
    /// The sample count.
    pub fn sample_count(&self) -> (r: u32)
        ensures
            r == msaa_samples(*self),
    {
        match *self {
            Msaa::Off => 1,
            Msaa::Sample2 => 2,
            Msaa::Sample4 => 4,
            Msaa::Sample8 => 8,
        }
    }

    /// Whether the attachments are multisampled, so that a resolve is needed.
    pub fn is_multisampled(&self) -> (r: bool)
        ensures
            r == (*self != Msaa::Off),
    {
        match *self {
            Msaa::Off => false,
            _ => true,
        }
    }
}

impl Default for Msaa {
    fn default() -> (r: Msaa)
        ensures
            r == Msaa::Sample4,
    {
        Msaa::Sample4
    }
}

impl From<Msaa> for u32 {
    fn from(m: Msaa) -> (r: u32)
        ensures
            r == msaa_samples(m),
    {
        m.sample_count()
    }
}

impl vstd::std_specs::convert::FromSpecImpl<Msaa> for u32 {
    open spec fn obeys_from_spec() -> bool {
        true
    }

    open spec fn from_spec(m: Msaa) -> u32 {
        msaa_samples(m)
    }
}

/// An RGBA colour; every channel is the IEEE-754 bit pattern of an `f32`.
#[derive(Copy, Clone, Debug, PartialEq, Eq, Structural)]
pub struct Color {
    pub r: u32,
    pub g: u32,
    pub b: u32,
    pub a: u32,
}

/// The bit pattern of `1.0f32`.
pub const F32_ONE_BITS: u32 = 0x3f80_0000;

impl Color {
    /// Opaque black: `(0, 0, 0, 1)`.
    pub fn black() -> (r: Color)
        ensures
            r == (Color { r: 0, g: 0, b: 0, a: F32_ONE_BITS }),
    {
        Color { r: 0, g: 0, b: 0, a: F32_ONE_BITS }
    }
}

/// Settings the render loop reads every frame, with the main camera of type `C`.
pub struct RunTimeContext<C> {
    pub target_frame_rate: Option<u32>,
    pub sample_count: Msaa,
    pub clear_color: Color,
    pub main_camera: Option<C>,
}

impl<C> RunTimeContext<C> {
    /// 120 frames a second, four samples, a black clear colour, no camera.
    pub fn new() -> (r: RunTimeContext<C>)
        ensures
            r.target_frame_rate == Some(120u32),
            r.sample_count == Msaa::Sample4,
            r.clear_color == (Color { r: 0, g: 0, b: 0, a: F32_ONE_BITS }),
            r.main_camera is None,
    {
        RunTimeContext {
            target_frame_rate: Some(120),
            sample_count: Msaa::Sample4,
            clear_color: Color::black(),
            main_camera: None,
        }
    }
}

/// Makes `camera` the main camera.
pub fn set_camera<C>(ctx: &mut RunTimeContext<C>, camera: C)
    ensures
        final(ctx).main_camera == Some(camera),
        final(ctx).target_frame_rate == old(ctx).target_frame_rate,
        final(ctx).sample_count == old(ctx).sample_count,
        final(ctx).clear_color == old(ctx).clear_color,
{
    ctx.main_camera = Some(camera);
}

/// The main camera, if one is set.
pub fn get_camera<C>(ctx: &RunTimeContext<C>) -> (r: Option<&C>)
    ensures
        r is None <==> ctx.main_camera is None,
        r matches Some(c) ==> ctx.main_camera == Some(*c),
{
    match &ctx.main_camera {
        Some(c) => Some(c),
        None => None,
    }
}

/// Drops the main camera: the pixel-perfect projection is used again.
pub fn set_default_camera<C>(ctx: &mut RunTimeContext<C>)
    ensures
        final(ctx).main_camera is None,
        final(ctx).target_frame_rate == old(ctx).target_frame_rate,
        final(ctx).sample_count == old(ctx).sample_count,
        final(ctx).clear_color == old(ctx).clear_color,
{
    ctx.main_camera = None;
}

/// Caps the frame rate at `target_frame_rate` frames a second.
pub fn set_target_frame_rate<C>(ctx: &mut RunTimeContext<C>, target_frame_rate: u32)
    ensures
        final(ctx).target_frame_rate == Some(target_frame_rate),
        final(ctx).main_camera == old(ctx).main_camera,
        final(ctx).sample_count == old(ctx).sample_count,
        final(ctx).clear_color == old(ctx).clear_color,
{
    ctx.target_frame_rate = Some(target_frame_rate);
}

/// Sets the colour each frame's first pass into a target clears it to.
pub fn set_clear_background_color<C>(ctx: &mut RunTimeContext<C>, color: Color)
    ensures
        final(ctx).clear_color == color,
        final(ctx).main_camera == old(ctx).main_camera,
        final(ctx).sample_count == old(ctx).sample_count,
        final(ctx).target_frame_rate == old(ctx).target_frame_rate,
{
    ctx.clear_color = color;
}

/// A point or size on the integer grid.
#[derive(Copy, Clone, Debug, PartialEq, Eq, Structural)]
pub struct IVec2 {
    pub x: i32,
    pub y: i32,
}

/// An unsigned size in pixels.
#[derive(Copy, Clone, Debug, PartialEq, Eq, Structural)]
pub struct UVec2 {
    pub x: u32,
    pub y: u32,
}

/// An integer rectangle: its offset and size.
#[derive(Copy, Clone, Debug, PartialEq, Eq, Structural)]
pub struct IRect {
    pub offset: IVec2,
    pub size: IVec2,
}

impl IRect {
    pub fn new(offset: IVec2, size: IVec2) -> (r: IRect)
        ensures
            r.offset == offset,
            r.size == size,
    {
        IRect { offset, size }
    }
}

} // verus!

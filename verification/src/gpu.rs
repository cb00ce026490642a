//! Descriptions of device-side images: formats, textures, plane layouts and
//! frame descriptors.
//!
//! A device object is known here by its handle, the address the device gave
//! it, held as a plain integer that is never zero, together with the
//! values that the filter reads of it.
use vstd::prelude::*;
use crate::colorspace::{ColorRepr, ColorSpace};

verus! {

/// How the samples of a plane or a texture format are encoded.
#[derive(Clone, Copy, Debug, PartialEq, Eq, Structural)]
pub enum FmtType {
    Unknown,
    /// Unsigned integers read as fractions of their largest value.
    Unorm,
    Snorm,
    Uint,
    Sint,
    Float,
}

/// A texture format of the device.
#[derive(Clone, Copy, Debug, PartialEq, Eq, Structural)]
pub struct Format {
    /// The device's handle of the format; the device recognises a format by it.
    pub handle: usize,
    /// Number of components of one texel.
    pub num_components: i32,
    /// Size of one texel in bytes.
    pub texel_size: usize,
}

/// What is asked of the device when a texture is created, and what a texture
/// reports of itself afterwards.
#[derive(Clone, Copy, Debug, PartialEq, Eq, Structural)]
pub struct TexParams {
    pub w: i32,
    pub h: i32,
    pub format: Format,
    /// Shaders may sample from the texture.
    pub sampleable: bool,
    /// Shaders may render to the texture.
    pub renderable: bool,
    /// The host may upload into the texture.
    pub host_writable: bool,
    /// The host may download from the texture.
    pub host_readable: bool,
}

/// The part a texture plays for one plane of a frame.
#[derive(Clone, Copy, Debug, PartialEq, Eq, Structural)]
pub enum TexRole {
    /// Uploaded to and sampled from.
    Input,
    /// Rendered to and downloaded from.
    Output,
}

impl TexParams {
    /// A texture of `w` by `h` texels of `format` with the capabilities that
    /// `role` needs and no others.
    pub open spec fn for_role(role: TexRole, w: i32, h: i32, format: Format) -> TexParams {
        TexParams {
            w,
            h,
            format,
            sampleable: role == TexRole::Input,
            host_writable: role == TexRole::Input,
            renderable: role == TexRole::Output,
            host_readable: role == TexRole::Output,
        }
    }

    /// Whether a texture with these parameters can play `role`.
    pub open spec fn serves(self, role: TexRole) -> bool {
        match role {
            TexRole::Input => self.sampleable && self.host_writable,
            TexRole::Output => self.renderable && self.host_readable,
        }
    }

    /// Whether a texture with these parameters can play `role`.
    pub fn can_serve(&self, role: TexRole) -> (b: bool)
        ensures
            b == self.serves(role),
    {
        match role {
            TexRole::Input => self.sampleable && self.host_writable,
            TexRole::Output => self.renderable && self.host_readable,
        }
    }
}

/// A texture that lives on the device.
#[derive(Clone, Copy, Debug, PartialEq, Eq, Structural)]
pub struct Tex {
    handle: usize,
    params: TexParams,
}

impl Tex {
    /// A texture is never behind the null handle.
    #[verifier::type_invariant]
    spec fn type_inv(self) -> bool {
        self.handle != 0
    }

    /// The handle the device knows the texture by.
    pub closed spec fn spec_handle(self) -> usize {
        self.handle
    }

    /// The parameters the texture was created with.
    pub closed spec fn spec_params(self) -> TexParams {
        self.params
    }

    /// The texture behind `handle`, which reports `params` of itself; `None`
    /// for the null handle, which stands for no texture.
    pub fn new(handle: usize, params: TexParams) -> (r: Option<Self>)
        ensures
            r.is_some() <==> handle != 0,
            r.is_some() ==> r.unwrap().spec_handle() == handle && r.unwrap().spec_params()
                == params,
    {
        if handle == 0 {
            None
        } else {
            Some(Tex { handle, params })
        }
    }

    /// The handle the device knows the texture by; never null.
    #[must_use]
    pub fn as_ptr(&self) -> (r: usize)
        ensures
            r == self.spec_handle(),
            r != 0,
    {
        proof {
            use_type_invariant(self);
        }
        self.handle
    }

    #[must_use]
    pub fn format(&self) -> (r: Format)
        ensures
            r == self.spec_params().format,
    {
        self.params.format
    }

    #[must_use]
    pub fn num_components(&self) -> (r: i32)
        ensures
            r == self.spec_params().format.num_components,
    {
        self.format().num_components
    }

    #[must_use]
    pub fn params(&self) -> (r: TexParams)
        ensures
            r == self.spec_params(),
    {
        self.params
    }

    #[must_use]
    pub fn sampleable(&self) -> (r: bool)
        ensures
            r == self.spec_params().sampleable,
    {
        self.params().sampleable
    }

    #[must_use]
    pub fn width(&self) -> (r: i32)
        ensures
            r == self.spec_params().w,
    {
        self.params().w
    }
}

/// The layout of one plane in host memory. A plane holds one component per
/// pixel, without padding.
#[derive(Clone, Copy, Debug, PartialEq, Eq, Structural)]
pub struct PlaneData {
    pub fmt_type: FmtType,
    pub width: i32,
    pub height: i32,
    /// Bytes from one pixel to the next.
    pub pixel_stride: usize,
    /// Bytes from one row to the next.
    pub row_stride: usize,
    /// The plane of the host frame whose pixels are described.
    pub pixels: i32,
    /// Bits of the one component that a pixel holds.
    pub component_size: i32,
    /// The logical component that a pixel holds.
    pub component_map: i32,
}

/// One plane of a frame descriptor: a texture and the components it holds.
#[derive(Clone, Copy, Debug, PartialEq, Eq, Structural)]
pub struct Plane {
    /// Handle of the texture that holds the plane.
    pub texture: usize,
    /// Number of components stored in the texture.
    pub components: i32,
    /// The logical component that the first stored component holds.
    pub component_mapping: i32,
}

/// A frame as the device sees it: its planes and the colour metadata they share.
#[derive(Debug)]
pub struct Frame {
    pub planes: Vec<Plane>,
    pub repr: ColorRepr,
    pub color: ColorSpace,
}

impl Frame {
    /// Number of populated plane entries.
    pub open spec fn spec_num_planes(&self) -> nat {
        self.planes@.len()
    }

    /// A descriptor without planes.
    pub fn new(repr: ColorRepr, color: ColorSpace) -> (r: Self)
        ensures
            r.planes@.len() == 0,
            r.repr == repr,
            r.color == color,
    {
        Frame { planes: Vec::new(), repr, color }
    }

    /// Number of populated plane entries.
    pub fn num_planes(&self) -> (n: usize)
        ensures
            n == self.spec_num_planes(),
    {
        self.planes.len()
    }
}

} // verus!

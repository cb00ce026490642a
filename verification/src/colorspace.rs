//! Colour representation carried by a frame descriptor.
use vstd::prelude::*;

verus! {

/// The underlying bit-wise representation of a color sample.
#[derive(Clone, Copy, Debug, PartialEq, Eq, Structural)]
pub struct BitEncoding {
    /// The number of bits the color is stored/sampled as.
    pub sample_depth: i32,
    /// The effective number of bits of the color information.
    pub color_depth: i32,
    /// A representational bit shift applied to the color.
    pub bit_shift: i32,
}

impl BitEncoding {
    /// An encoding of unknown depth: every field is zero.
    pub fn new() -> (r: Self)
        ensures
            r == (BitEncoding { sample_depth: 0, color_depth: 0, bit_shift: 0 }),
    {
        BitEncoding { sample_depth: 0, color_depth: 0, bit_shift: 0 }
    }

    /// The encoding of a sample that fills all `bits` bits it is stored in.
    pub open spec fn exact(bits: i32) -> Self {
        BitEncoding { sample_depth: bits, color_depth: bits, bit_shift: 0 }
    }

    /// A representational bit shift applied to the color.
    #[must_use]
    pub fn bit_shift(self, x: i32) -> (r: Self)
        ensures
            r == (BitEncoding { bit_shift: x, ..self }),
    {
        BitEncoding { bit_shift: x, ..self }
    }

    /// The effective number of bits of the color information.
    #[must_use]
    pub fn color_depth(self, x: i32) -> (r: Self)
        ensures
            r == (BitEncoding { color_depth: x, ..self }),
    {
        BitEncoding { color_depth: x, ..self }
    }

    /// The number of bits the color is stored/sampled as.
    #[must_use]
    pub fn sample_depth(self, x: i32) -> (r: Self)
        ensures
            r == (BitEncoding { sample_depth: x, ..self }),
    {
        BitEncoding { sample_depth: x, ..self }
    }
}

/// The colour model that the samples of a frame are encoded in.
#[derive(Clone, Copy, Debug, PartialEq, Eq, Structural)]
pub enum ColorSystem {
    Unknown,
    Bt601,
    Bt709,
    Smpte240m,
    Bt2020Nc,
    Bt2020C,
    Bt2100Pq,
    Bt2100Hlg,
    DolbyVision,
    YCgCo,
    Rgb,
    Xyz,
}

/// Describes the underlying color system and representation.
#[derive(Clone, Copy, Debug, PartialEq, Eq, Structural)]
pub struct ColorRepr {
    pub sys: ColorSystem,
    pub bits: BitEncoding,
}

impl ColorRepr {
    /// An unknown colour system with an encoding of unknown depth.
    pub fn new() -> (r: Self)
        ensures
            r == (ColorRepr {
                sys: ColorSystem::Unknown,
                bits: BitEncoding { sample_depth: 0, color_depth: 0, bit_shift: 0 },
            }),
    {
        ColorRepr { sys: ColorSystem::Unknown, bits: BitEncoding::new() }
    }

    /// The same representation with the bit encoding replaced by `x`.
    #[must_use]
    pub fn bits(self, x: &BitEncoding) -> (r: Self)
        ensures
            r == (ColorRepr { bits: *x, ..self }),
    {
        ColorRepr { bits: *x, ..self }
    }

    /// The same representation with the colour system replaced by `x`.
    #[must_use]
    pub fn sys(self, x: ColorSystem) -> (r: Self)
        ensures
            r == (ColorRepr { sys: x, ..self }),
    {
        ColorRepr { sys: x, ..self }
    }
}

/// The primaries that a frame's colours are relative to.
#[derive(Clone, Copy, Debug, PartialEq, Eq, Structural)]
pub enum ColorPrimaries {
    Unknown,
    Bt601Line525,
    Bt601Line625,
    Bt709,
    Bt470m,
    Ebu3213,
    Bt2020,
    Apple,
    Adobe,
    ProPhoto,
    Cie1931,
    DciP3,
    DisplayP3,
    VGamut,
    SGamut,
    FilmC,
    AcesAp0,
    AcesAp1,
}

/// The transfer function that a frame's samples went through.
#[derive(Clone, Copy, Debug, PartialEq, Eq, Structural)]
pub enum ColorTransfer {
    Unknown,
    Bt1886,
    Srgb,
    Linear,
    Gamma18,
    Gamma20,
    Gamma22,
    Gamma24,
    Gamma26,
    Gamma28,
    ProPhoto,
    St428,
    Pq,
    Hlg,
    VLog,
    SLog1,
    SLog2,
}

/// Colour-space metadata shared by all planes of a frame descriptor.
#[derive(Clone, Copy, Debug, PartialEq, Eq, Structural)]
pub struct ColorSpace {
    pub primaries: ColorPrimaries,
    pub transfer: ColorTransfer,
}

impl ColorSpace {
    /// Unknown primaries and transfer: the metadata of a frame that is
    /// filtered without any colour conversion.
    pub fn unknown() -> (r: Self)
        ensures
            r == (ColorSpace {
                primaries: ColorPrimaries::Unknown,
                transfer: ColorTransfer::Unknown,
            }),
    {
        ColorSpace { primaries: ColorPrimaries::Unknown, transfer: ColorTransfer::Unknown }
    }
}

} // verus!

//! What a track says about its video.

use vstd::prelude::*;
use crate::ebml::{string_from_utf8_lossy, text_of, Float};
use crate::views::opt_view;
use vstd::utf8::{encode_utf8, valid_utf8};

verus! {

/// Whether the frames of a track are interlaced.
#[derive(Clone, Copy, Debug, PartialEq, Eq, Structural)]
pub enum FlagInterlaced {
    Undetermined,
    Interlaced,
    Progressive,
    /// A value without a name.
    Other(u64),
}

impl FlagInterlaced {
    /// The stored value.
    pub open spec fn raw(self) -> u64 {
        match self {
            FlagInterlaced::Undetermined => 0,
            FlagInterlaced::Interlaced => 1,
            FlagInterlaced::Progressive => 2,
            FlagInterlaced::Other(v) => v,
        }
    }

    /// What a stored value stands for.
    pub open spec fn of_raw(v: u64) -> FlagInterlaced {
        if v == 0 {
            FlagInterlaced::Undetermined
        } else if v == 1 {
            FlagInterlaced::Interlaced
        } else if v == 2 {
            FlagInterlaced::Progressive
        } else {
            FlagInterlaced::Other(v)
        }
    }

    /// What a stored value stands for.
    pub fn from_raw(v: u64) -> (r: FlagInterlaced)
        ensures
            r == FlagInterlaced::of_raw(v),
    {
        match v {
            0 => FlagInterlaced::Undetermined,
            1 => FlagInterlaced::Interlaced,
            2 => FlagInterlaced::Progressive,
            other => FlagInterlaced::Other(other),
        }
    }

    /// The stored value.
    pub fn to_raw(self) -> (r: u64)
        ensures
            r == self.raw(),
    {
        match self {
            FlagInterlaced::Undetermined => 0,
            FlagInterlaced::Interlaced => 1,
            FlagInterlaced::Progressive => 2,
            FlagInterlaced::Other(v) => v,
        }
    }
}

impl Default for FlagInterlaced {
    fn default() -> (r: FlagInterlaced)
        ensures
            r == FlagInterlaced::Undetermined,
    {
        FlagInterlaced::Undetermined
    }
}

/// Every value survives being turned into [`FlagInterlaced`] and back, and so does every
/// [`FlagInterlaced`] but an `Other` for a value that has a name.
pub proof fn lemma_flag_interlaced_round_trip(v: u64, x: FlagInterlaced)
    ensures
        FlagInterlaced::of_raw(v).raw() == v,
        FlagInterlaced::of_raw(x.raw()) == x
            || (x is Other && !(FlagInterlaced::of_raw(x.raw()) is Other)),
{
}

/// The order of the fields of interlaced frames.
#[derive(Clone, Copy, Debug, PartialEq, Eq, Structural)]
pub enum FieldOrder {
    Progressive,
    /// Top field first.
    Tff,
    Undetermined,
    /// Bottom field first.
    Bff,
    /// Top field first, the lines of both fields interleaved.
    TffInterleaved,
    /// Bottom field first, the lines of both fields interleaved.
    BffInterleaved,
    /// A value without a name.
    Other(u64),
}

impl FieldOrder {
    /// The stored value.
    pub open spec fn raw(self) -> u64 {
        match self {
            FieldOrder::Progressive => 0,
            FieldOrder::Tff => 1,
            FieldOrder::Undetermined => 2,
            FieldOrder::Bff => 6,
            FieldOrder::TffInterleaved => 9,
            FieldOrder::BffInterleaved => 14,
            FieldOrder::Other(v) => v,
        }
    }

    /// What a stored value stands for.
    pub open spec fn of_raw(v: u64) -> FieldOrder {
        if v == 0 {
            FieldOrder::Progressive
        } else if v == 1 {
            FieldOrder::Tff
        } else if v == 2 {
            FieldOrder::Undetermined
        } else if v == 6 {
            FieldOrder::Bff
        } else if v == 9 {
            FieldOrder::TffInterleaved
        } else if v == 14 {
            FieldOrder::BffInterleaved
        } else {
            FieldOrder::Other(v)
        }
    }

    /// What a stored value stands for.
    pub fn from_raw(v: u64) -> (r: FieldOrder)
        ensures
            r == FieldOrder::of_raw(v),
    {
        match v {
            0 => FieldOrder::Progressive,
            1 => FieldOrder::Tff,
            2 => FieldOrder::Undetermined,
            6 => FieldOrder::Bff,
            9 => FieldOrder::TffInterleaved,
            14 => FieldOrder::BffInterleaved,
            other => FieldOrder::Other(other),
        }
    }

    /// The stored value.
    pub fn to_raw(self) -> (r: u64)
        ensures
            r == self.raw(),
    {
        match self {
            FieldOrder::Progressive => 0,
            FieldOrder::Tff => 1,
            FieldOrder::Undetermined => 2,
            FieldOrder::Bff => 6,
            FieldOrder::TffInterleaved => 9,
            FieldOrder::BffInterleaved => 14,
            FieldOrder::Other(v) => v,
        }
    }
}

/// Every value survives being turned into [`FieldOrder`] and back, and so does every
/// [`FieldOrder`] but an `Other` for a value that has a name.
pub proof fn lemma_field_order_round_trip(v: u64, x: FieldOrder)
    ensures
        FieldOrder::of_raw(v).raw() == v,
        FieldOrder::of_raw(x.raw()) == x || (x is Other && !(FieldOrder::of_raw(x.raw()) is Other)),
{
}

/// How the views of both eyes share a frame.
#[derive(Clone, Copy, Debug, PartialEq, Eq, Structural)]
pub enum StereoMode {
    Mono,
    SideBySideLeftFirst,
    TopBottomRightFirst,
    TopBottomLeftFirst,
    CheckboardRightFirst,
    CheckboardLeftFirst,
    RowInterleavedRightFirst,
    RowInterleavedLeftFirst,
    ColumnInterleavedRightFirst,
    ColumnInterleavedLeftFirst,
    AnaglyphCyanRed,
    SideBySideRightFirst,
    AnaglyphGreenMagenta,
    BothEyesLacedLeftFirst,
    BothEyesLacedRightFirst,
    /// A value without a name.
    Other(u64),
}

impl StereoMode {
    /// The stored value.
    pub open spec fn raw(self) -> u64 {
        match self {
            StereoMode::Mono => 0,
            StereoMode::SideBySideLeftFirst => 1,
            StereoMode::TopBottomRightFirst => 2,
            StereoMode::TopBottomLeftFirst => 3,
            StereoMode::CheckboardRightFirst => 4,
            StereoMode::CheckboardLeftFirst => 5,
            StereoMode::RowInterleavedRightFirst => 6,
            StereoMode::RowInterleavedLeftFirst => 7,
            StereoMode::ColumnInterleavedRightFirst => 8,
            StereoMode::ColumnInterleavedLeftFirst => 9,
            StereoMode::AnaglyphCyanRed => 10,
            StereoMode::SideBySideRightFirst => 11,
            StereoMode::AnaglyphGreenMagenta => 12,
            StereoMode::BothEyesLacedLeftFirst => 13,
            StereoMode::BothEyesLacedRightFirst => 14,
            StereoMode::Other(v) => v,
        }
    }

    /// What a stored value stands for.
    pub open spec fn of_raw(v: u64) -> StereoMode {
        if v == 0 {
            StereoMode::Mono
        } else if v == 1 {
            StereoMode::SideBySideLeftFirst
        } else if v == 2 {
            StereoMode::TopBottomRightFirst
        } else if v == 3 {
            StereoMode::TopBottomLeftFirst
        } else if v == 4 {
            StereoMode::CheckboardRightFirst
        } else if v == 5 {
            StereoMode::CheckboardLeftFirst
        } else if v == 6 {
            StereoMode::RowInterleavedRightFirst
        } else if v == 7 {
            StereoMode::RowInterleavedLeftFirst
        } else if v == 8 {
            StereoMode::ColumnInterleavedRightFirst
        } else if v == 9 {
            StereoMode::ColumnInterleavedLeftFirst
        } else if v == 10 {
            StereoMode::AnaglyphCyanRed
        } else if v == 11 {
            StereoMode::SideBySideRightFirst
        } else if v == 12 {
            StereoMode::AnaglyphGreenMagenta
        } else if v == 13 {
            StereoMode::BothEyesLacedLeftFirst
        } else if v == 14 {
            StereoMode::BothEyesLacedRightFirst
        } else {
            StereoMode::Other(v)
        }
    }

    /// What a stored value stands for.
    pub fn from_raw(v: u64) -> (r: StereoMode)
        ensures
            r == StereoMode::of_raw(v),
    {
        match v {
            0 => StereoMode::Mono,
            1 => StereoMode::SideBySideLeftFirst,
            2 => StereoMode::TopBottomRightFirst,
            3 => StereoMode::TopBottomLeftFirst,
            4 => StereoMode::CheckboardRightFirst,
            5 => StereoMode::CheckboardLeftFirst,
            6 => StereoMode::RowInterleavedRightFirst,
            7 => StereoMode::RowInterleavedLeftFirst,
            8 => StereoMode::ColumnInterleavedRightFirst,
            9 => StereoMode::ColumnInterleavedLeftFirst,
            10 => StereoMode::AnaglyphCyanRed,
            11 => StereoMode::SideBySideRightFirst,
            12 => StereoMode::AnaglyphGreenMagenta,
            13 => StereoMode::BothEyesLacedLeftFirst,
            14 => StereoMode::BothEyesLacedRightFirst,
            other => StereoMode::Other(other),
        }
    }

    /// The stored value.
    pub fn to_raw(self) -> (r: u64)
        ensures
            r == self.raw(),
    {
        match self {
            StereoMode::Mono => 0,
            StereoMode::SideBySideLeftFirst => 1,
            StereoMode::TopBottomRightFirst => 2,
            StereoMode::TopBottomLeftFirst => 3,
            StereoMode::CheckboardRightFirst => 4,
            StereoMode::CheckboardLeftFirst => 5,
            StereoMode::RowInterleavedRightFirst => 6,
            StereoMode::RowInterleavedLeftFirst => 7,
            StereoMode::ColumnInterleavedRightFirst => 8,
            StereoMode::ColumnInterleavedLeftFirst => 9,
            StereoMode::AnaglyphCyanRed => 10,
            StereoMode::SideBySideRightFirst => 11,
            StereoMode::AnaglyphGreenMagenta => 12,
            StereoMode::BothEyesLacedLeftFirst => 13,
            StereoMode::BothEyesLacedRightFirst => 14,
            StereoMode::Other(v) => v,
        }
    }

    /// Whether the frames hold more than one view.
    pub fn is_stereo(&self) -> (r: bool)
        ensures
            r == (*self != StereoMode::Mono),
    {
        match self {
            StereoMode::Mono => false,
            _ => true,
        }
    }
}

impl Default for StereoMode {
    fn default() -> (r: StereoMode)
        ensures
            r == StereoMode::Mono,
    {
        StereoMode::Mono
    }
}

/// Every value survives being turned into [`StereoMode`] and back, and so does every
/// [`StereoMode`] but an `Other` for a value that has a name.
pub proof fn lemma_stereo_mode_round_trip(v: u64, x: StereoMode)
    ensures
        StereoMode::of_raw(v).raw() == v,
        StereoMode::of_raw(x.raw()) == x || (x is Other && !(StereoMode::of_raw(x.raw()) is Other)),
{
}

/// What a frame is projected on.
#[derive(Clone, Copy, Debug, PartialEq, Eq, Structural)]
pub enum ProjectionType {
    Rectangular,
    Equirectangular,
    Cubemap,
    Mesh,
    /// A value without a name.
    Other(u64),
}

impl ProjectionType {
    /// The stored value.
    pub open spec fn raw(self) -> u64 {
        match self {
            ProjectionType::Rectangular => 0,
            ProjectionType::Equirectangular => 1,
            ProjectionType::Cubemap => 2,
            ProjectionType::Mesh => 3,
            ProjectionType::Other(v) => v,
        }
    }

    /// What a stored value stands for.
    pub open spec fn of_raw(v: u64) -> ProjectionType {
        if v == 0 {
            ProjectionType::Rectangular
        } else if v == 1 {
            ProjectionType::Equirectangular
        } else if v == 2 {
            ProjectionType::Cubemap
        } else if v == 3 {
            ProjectionType::Mesh
        } else {
            ProjectionType::Other(v)
        }
    }

    /// What a stored value stands for.
    pub fn from_raw(v: u64) -> (r: ProjectionType)
        ensures
            r == ProjectionType::of_raw(v),
    {
        match v {
            0 => ProjectionType::Rectangular,
            1 => ProjectionType::Equirectangular,
            2 => ProjectionType::Cubemap,
            3 => ProjectionType::Mesh,
            other => ProjectionType::Other(other),
        }
    }

    /// Whether the frame is projected on anything but a plane.
    pub fn is_spherical(&self) -> (r: bool)
        ensures
            r == (*self != ProjectionType::Rectangular),
    {
        match self {
            ProjectionType::Rectangular => false,
            _ => true,
        }
    }
}

impl Default for ProjectionType {
    fn default() -> (r: ProjectionType)
        ensures
            r == ProjectionType::Rectangular,
    {
        ProjectionType::Rectangular
    }
}

/// Every value survives being turned into [`ProjectionType`] and back, and so does every
/// [`ProjectionType`] but an `Other` for a value that has a name.
pub proof fn lemma_projection_type_round_trip(v: u64, x: ProjectionType)
    ensures
        ProjectionType::of_raw(v).raw() == v,
        ProjectionType::of_raw(x.raw()) == x
            || (x is Other && !(ProjectionType::of_raw(x.raw()) is Other)),
{
}

/// Whether the Blocks of a track carry an alpha channel beside the picture.
#[derive(Clone, Copy, Debug, PartialEq, Eq, Structural)]
pub enum AlphaMode {
    Absent,
    Present,
    /// A value without a name.
    Other(u64),
}

impl AlphaMode {
    /// The stored value.
    pub open spec fn raw(self) -> u64 {
        match self {
            AlphaMode::Absent => 0,
            AlphaMode::Present => 1,
            AlphaMode::Other(v) => v,
        }
    }

    /// What a stored value stands for.
    pub open spec fn of_raw(v: u64) -> AlphaMode {
        if v == 0 {
            AlphaMode::Absent
        } else if v == 1 {
            AlphaMode::Present
        } else {
            AlphaMode::Other(v)
        }
    }

    /// What a stored value stands for.
    pub fn from_raw(v: u64) -> (r: AlphaMode)
        ensures
            r == AlphaMode::of_raw(v),
    {
        match v {
            0 => AlphaMode::Absent,
            1 => AlphaMode::Present,
            other => AlphaMode::Other(other),
        }
    }

    /// The stored value.
    pub fn to_raw(self) -> (r: u64)
        ensures
            r == self.raw(),
    {
        match self {
            AlphaMode::Absent => 0,
            AlphaMode::Present => 1,
            AlphaMode::Other(v) => v,
        }
    }

    /// Whether there is an alpha channel.
    pub fn has_alpha(&self) -> (r: bool)
        ensures
            r == (*self == AlphaMode::Present),
    {
        match self {
            AlphaMode::Present => true,
            _ => false,
        }
    }
}

impl Default for AlphaMode {
    fn default() -> (r: AlphaMode)
        ensures
            r == AlphaMode::Absent,
    {
        AlphaMode::Absent
    }
}

/// Every value survives being turned into [`AlphaMode`] and back, and so does every
/// [`AlphaMode`] but an `Other` for a value that has a name.
pub proof fn lemma_alpha_mode_round_trip(v: u64, x: AlphaMode)
    ensures
        AlphaMode::of_raw(v).raw() == v,
        AlphaMode::of_raw(x.raw()) == x || (x is Other && !(AlphaMode::of_raw(x.raw()) is Other)),
{
}

/// The unit of the display size.
#[derive(Clone, Copy, Debug, PartialEq, Eq, Structural)]
pub enum DisplayUnit {
    Pixels,
    Centimeters,
    Inches,
    DisplayAspectRatio,
    Unknown,
    /// A value without a name.
    Other(u64),
}

impl DisplayUnit {
    /// The stored value.
    pub open spec fn raw(self) -> u64 {
        match self {
            DisplayUnit::Pixels => 0,
            DisplayUnit::Centimeters => 1,
            DisplayUnit::Inches => 2,
            DisplayUnit::DisplayAspectRatio => 3,
            DisplayUnit::Unknown => 4,
            DisplayUnit::Other(v) => v,
        }
    }

    /// What a stored value stands for.
    pub open spec fn of_raw(v: u64) -> DisplayUnit {
        if v == 0 {
            DisplayUnit::Pixels
        } else if v == 1 {
            DisplayUnit::Centimeters
        } else if v == 2 {
            DisplayUnit::Inches
        } else if v == 3 {
            DisplayUnit::DisplayAspectRatio
        } else if v == 4 {
            DisplayUnit::Unknown
        } else {
            DisplayUnit::Other(v)
        }
    }

    /// What a stored value stands for.
    pub fn from_raw(v: u64) -> (r: DisplayUnit)
        ensures
            r == DisplayUnit::of_raw(v),
    {
        match v {
            0 => DisplayUnit::Pixels,
            1 => DisplayUnit::Centimeters,
            2 => DisplayUnit::Inches,
            3 => DisplayUnit::DisplayAspectRatio,
            4 => DisplayUnit::Unknown,
            other => DisplayUnit::Other(other),
        }
    }

    /// The stored value.
    pub fn to_raw(self) -> (r: u64)
        ensures
            r == self.raw(),
    {
        match self {
            DisplayUnit::Pixels => 0,
            DisplayUnit::Centimeters => 1,
            DisplayUnit::Inches => 2,
            DisplayUnit::DisplayAspectRatio => 3,
            DisplayUnit::Unknown => 4,
            DisplayUnit::Other(v) => v,
        }
    }
}

impl Default for DisplayUnit {
    fn default() -> (r: DisplayUnit)
        ensures
            r == DisplayUnit::Pixels,
    {
        DisplayUnit::Pixels
    }
}

/// Every value survives being turned into [`DisplayUnit`] and back, and so does every
/// [`DisplayUnit`] but an `Other` for a value that has a name.
pub proof fn lemma_display_unit_round_trip(v: u64, x: DisplayUnit)
    ensures
        DisplayUnit::of_raw(v).raw() == v,
        DisplayUnit::of_raw(x.raw()) == x
            || (x is Other && !(DisplayUnit::of_raw(x.raw()) is Other)),
{
}

/// The coefficients that derive luma and chroma from red, green and blue.
#[derive(Clone, Copy, Debug, PartialEq, Eq, Structural)]
pub enum MatrixCoefficients {
    Identity,
    BT709,
    Unspecified,
    Reserved,
    UsFcc73682,
    BT470Bg,
    Smpte170M,
    Smpte240M,
    YCoCg,
    BT2020NonConstantLuminance,
    BT2020ConstantLuminance,
    SmpteSt2085,
    ChromaDerivedNonConstantLuminance,
    ChromaDerivedConstantLuminance,
    BT2100,
    /// A value without a name.
    Other(u64),
}

impl MatrixCoefficients {
    /// The stored value.
    pub open spec fn raw(self) -> u64 {
        match self {
            MatrixCoefficients::Identity => 0,
            MatrixCoefficients::BT709 => 1,
            MatrixCoefficients::Unspecified => 2,
            MatrixCoefficients::Reserved => 3,
            MatrixCoefficients::UsFcc73682 => 4,
            MatrixCoefficients::BT470Bg => 5,
            MatrixCoefficients::Smpte170M => 6,
            MatrixCoefficients::Smpte240M => 7,
            MatrixCoefficients::YCoCg => 8,
            MatrixCoefficients::BT2020NonConstantLuminance => 9,
            MatrixCoefficients::BT2020ConstantLuminance => 10,
            MatrixCoefficients::SmpteSt2085 => 11,
            MatrixCoefficients::ChromaDerivedNonConstantLuminance => 12,
            MatrixCoefficients::ChromaDerivedConstantLuminance => 13,
            MatrixCoefficients::BT2100 => 14,
            MatrixCoefficients::Other(v) => v,
        }
    }

    /// What a stored value stands for.
    pub open spec fn of_raw(v: u64) -> MatrixCoefficients {
        if v == 0 {
            MatrixCoefficients::Identity
        } else if v == 1 {
            MatrixCoefficients::BT709
        } else if v == 2 {
            MatrixCoefficients::Unspecified
        } else if v == 3 {
            MatrixCoefficients::Reserved
        } else if v == 4 {
            MatrixCoefficients::UsFcc73682
        } else if v == 5 {
            MatrixCoefficients::BT470Bg
        } else if v == 6 {
            MatrixCoefficients::Smpte170M
        } else if v == 7 {
            MatrixCoefficients::Smpte240M
        } else if v == 8 {
            MatrixCoefficients::YCoCg
        } else if v == 9 {
            MatrixCoefficients::BT2020NonConstantLuminance
        } else if v == 10 {
            MatrixCoefficients::BT2020ConstantLuminance
        } else if v == 11 {
            MatrixCoefficients::SmpteSt2085
        } else if v == 12 {
            MatrixCoefficients::ChromaDerivedNonConstantLuminance
        } else if v == 13 {
            MatrixCoefficients::ChromaDerivedConstantLuminance
        } else if v == 14 {
            MatrixCoefficients::BT2100
        } else {
            MatrixCoefficients::Other(v)
        }
    }

    /// What a stored value stands for.
    pub fn from_raw(v: u64) -> (r: MatrixCoefficients)
        ensures
            r == MatrixCoefficients::of_raw(v),
    {
        match v {
            0 => MatrixCoefficients::Identity,
            1 => MatrixCoefficients::BT709,
            2 => MatrixCoefficients::Unspecified,
            3 => MatrixCoefficients::Reserved,
            4 => MatrixCoefficients::UsFcc73682,
            5 => MatrixCoefficients::BT470Bg,
            6 => MatrixCoefficients::Smpte170M,
            7 => MatrixCoefficients::Smpte240M,
            8 => MatrixCoefficients::YCoCg,
            9 => MatrixCoefficients::BT2020NonConstantLuminance,
            10 => MatrixCoefficients::BT2020ConstantLuminance,
            11 => MatrixCoefficients::SmpteSt2085,
            12 => MatrixCoefficients::ChromaDerivedNonConstantLuminance,
            13 => MatrixCoefficients::ChromaDerivedConstantLuminance,
            14 => MatrixCoefficients::BT2100,
            other => MatrixCoefficients::Other(other),
        }
    }

    /// The stored value.
    pub fn to_raw(self) -> (r: u64)
        ensures
            r == self.raw(),
    {
        match self {
            MatrixCoefficients::Identity => 0,
            MatrixCoefficients::BT709 => 1,
            MatrixCoefficients::Unspecified => 2,
            MatrixCoefficients::Reserved => 3,
            MatrixCoefficients::UsFcc73682 => 4,
            MatrixCoefficients::BT470Bg => 5,
            MatrixCoefficients::Smpte170M => 6,
            MatrixCoefficients::Smpte240M => 7,
            MatrixCoefficients::YCoCg => 8,
            MatrixCoefficients::BT2020NonConstantLuminance => 9,
            MatrixCoefficients::BT2020ConstantLuminance => 10,
            MatrixCoefficients::SmpteSt2085 => 11,
            MatrixCoefficients::ChromaDerivedNonConstantLuminance => 12,
            MatrixCoefficients::ChromaDerivedConstantLuminance => 13,
            MatrixCoefficients::BT2100 => 14,
            MatrixCoefficients::Other(v) => v,
        }
    }
}

/// Every value survives being turned into [`MatrixCoefficients`] and back, and so does every
/// [`MatrixCoefficients`] but an `Other` for a value that has a name.
pub proof fn lemma_matrix_coefficients_round_trip(v: u64, x: MatrixCoefficients)
    ensures
        MatrixCoefficients::of_raw(v).raw() == v,
        MatrixCoefficients::of_raw(x.raw()) == x
            || (x is Other && !(MatrixCoefficients::of_raw(x.raw()) is Other)),
{
}

/// Where chroma samples lie horizontally.
#[derive(Clone, Copy, Debug, PartialEq, Eq, Structural)]
pub enum ChromaSitingHorz {
    Unspecified,
    LeftCollocated,
    Half,
    /// A value without a name.
    Other(u64),
}

impl ChromaSitingHorz {
    /// The stored value.
    pub open spec fn raw(self) -> u64 {
        match self {
            ChromaSitingHorz::Unspecified => 0,
            ChromaSitingHorz::LeftCollocated => 1,
            ChromaSitingHorz::Half => 2,
            ChromaSitingHorz::Other(v) => v,
        }
    }

    /// What a stored value stands for.
    pub open spec fn of_raw(v: u64) -> ChromaSitingHorz {
        if v == 0 {
            ChromaSitingHorz::Unspecified
        } else if v == 1 {
            ChromaSitingHorz::LeftCollocated
        } else if v == 2 {
            ChromaSitingHorz::Half
        } else {
            ChromaSitingHorz::Other(v)
        }
    }

    /// What a stored value stands for.
    pub fn from_raw(v: u64) -> (r: ChromaSitingHorz)
        ensures
            r == ChromaSitingHorz::of_raw(v),
    {
        match v {
            0 => ChromaSitingHorz::Unspecified,
            1 => ChromaSitingHorz::LeftCollocated,
            2 => ChromaSitingHorz::Half,
            other => ChromaSitingHorz::Other(other),
        }
    }

    /// The stored value.
    pub fn to_raw(self) -> (r: u64)
        ensures
            r == self.raw(),
    {
        match self {
            ChromaSitingHorz::Unspecified => 0,
            ChromaSitingHorz::LeftCollocated => 1,
            ChromaSitingHorz::Half => 2,
            ChromaSitingHorz::Other(v) => v,
        }
    }
}

impl Default for ChromaSitingHorz {
    fn default() -> (r: ChromaSitingHorz)
        ensures
            r == ChromaSitingHorz::Unspecified,
    {
        ChromaSitingHorz::Unspecified
    }
}

/// Every value survives being turned into [`ChromaSitingHorz`] and back, and so does every
/// [`ChromaSitingHorz`] but an `Other` for a value that has a name.
pub proof fn lemma_chroma_siting_horz_round_trip(v: u64, x: ChromaSitingHorz)
    ensures
        ChromaSitingHorz::of_raw(v).raw() == v,
        ChromaSitingHorz::of_raw(x.raw()) == x
            || (x is Other && !(ChromaSitingHorz::of_raw(x.raw()) is Other)),
{
}

/// Where chroma samples lie vertically.
#[derive(Clone, Copy, Debug, PartialEq, Eq, Structural)]
pub enum ChromaSitingVert {
    Unspecified,
    TopCollocated,
    Half,
    /// A value without a name.
    Other(u64),
}

impl ChromaSitingVert {
    /// The stored value.
    pub open spec fn raw(self) -> u64 {
        match self {
            ChromaSitingVert::Unspecified => 0,
            ChromaSitingVert::TopCollocated => 1,
            ChromaSitingVert::Half => 2,
            ChromaSitingVert::Other(v) => v,
        }
    }

    /// What a stored value stands for.
    pub open spec fn of_raw(v: u64) -> ChromaSitingVert {
        if v == 0 {
            ChromaSitingVert::Unspecified
        } else if v == 1 {
            ChromaSitingVert::TopCollocated
        } else if v == 2 {
            ChromaSitingVert::Half
        } else {
            ChromaSitingVert::Other(v)
        }
    }

    /// What a stored value stands for.
    pub fn from_raw(v: u64) -> (r: ChromaSitingVert)
        ensures
            r == ChromaSitingVert::of_raw(v),
    {
        match v {
            0 => ChromaSitingVert::Unspecified,
            1 => ChromaSitingVert::TopCollocated,
            2 => ChromaSitingVert::Half,
            other => ChromaSitingVert::Other(other),
        }
    }

    /// The stored value.
    pub fn to_raw(self) -> (r: u64)
        ensures
            r == self.raw(),
    {
        match self {
            ChromaSitingVert::Unspecified => 0,
            ChromaSitingVert::TopCollocated => 1,
            ChromaSitingVert::Half => 2,
            ChromaSitingVert::Other(v) => v,
        }
    }
}

impl Default for ChromaSitingVert {
    fn default() -> (r: ChromaSitingVert)
        ensures
            r == ChromaSitingVert::Unspecified,
    {
        ChromaSitingVert::Unspecified
    }
}

/// Every value survives being turned into [`ChromaSitingVert`] and back, and so does every
/// [`ChromaSitingVert`] but an `Other` for a value that has a name.
pub proof fn lemma_chroma_siting_vert_round_trip(v: u64, x: ChromaSitingVert)
    ensures
        ChromaSitingVert::of_raw(v).raw() == v,
        ChromaSitingVert::of_raw(x.raw()) == x
            || (x is Other && !(ChromaSitingVert::of_raw(x.raw()) is Other)),
{
}

/// The range of the colour values.
#[derive(Clone, Copy, Debug, PartialEq, Eq, Structural)]
pub enum ColourRange {
    Unspecified,
    Broadcast,
    Full,
    DefinedByMatrixAndTransfer,
    /// A value without a name.
    Other(u64),
}

impl ColourRange {
    /// The stored value.
    pub open spec fn raw(self) -> u64 {
        match self {
            ColourRange::Unspecified => 0,
            ColourRange::Broadcast => 1,
            ColourRange::Full => 2,
            ColourRange::DefinedByMatrixAndTransfer => 3,
            ColourRange::Other(v) => v,
        }
    }

    /// What a stored value stands for.
    pub open spec fn of_raw(v: u64) -> ColourRange {
        if v == 0 {
            ColourRange::Unspecified
        } else if v == 1 {
            ColourRange::Broadcast
        } else if v == 2 {
            ColourRange::Full
        } else if v == 3 {
            ColourRange::DefinedByMatrixAndTransfer
        } else {
            ColourRange::Other(v)
        }
    }

    /// What a stored value stands for.
    pub fn from_raw(v: u64) -> (r: ColourRange)
        ensures
            r == ColourRange::of_raw(v),
    {
        match v {
            0 => ColourRange::Unspecified,
            1 => ColourRange::Broadcast,
            2 => ColourRange::Full,
            3 => ColourRange::DefinedByMatrixAndTransfer,
            other => ColourRange::Other(other),
        }
    }

    /// The stored value.
    pub fn to_raw(self) -> (r: u64)
        ensures
            r == self.raw(),
    {
        match self {
            ColourRange::Unspecified => 0,
            ColourRange::Broadcast => 1,
            ColourRange::Full => 2,
            ColourRange::DefinedByMatrixAndTransfer => 3,
            ColourRange::Other(v) => v,
        }
    }
}

impl Default for ColourRange {
    fn default() -> (r: ColourRange)
        ensures
            r == ColourRange::Unspecified,
    {
        ColourRange::Unspecified
    }
}

/// Every value survives being turned into [`ColourRange`] and back, and so does every
/// [`ColourRange`] but an `Other` for a value that has a name.
pub proof fn lemma_colour_range_round_trip(v: u64, x: ColourRange)
    ensures
        ColourRange::of_raw(v).raw() == v,
        ColourRange::of_raw(x.raw()) == x
            || (x is Other && !(ColourRange::of_raw(x.raw()) is Other)),
{
}

/// The transfer characteristics of the video.
#[derive(Clone, Copy, Debug, PartialEq, Eq, Structural)]
#[allow(non_camel_case_types)]
pub enum TransferCharacteristics {
    Reserved0,
    BT709,
    Unspecified,
    Reserved3,
    Gamma22BT470M,
    Gamma28BT470Bg,
    Smpte170M,
    Smpte240M,
    Linear,
    Log,
    LogSqrt,
    Iec61966_2_4,
    BT1361ExtendedColourGamut,
    Iec61966_2_1,
    BT2020TenBit,
    BT2020TwelveBit,
    BT2100Pq,
    SmpteSt428_1,
    AribStdB67Hlg,
    /// A value without a name.
    Other(u64),
}

impl TransferCharacteristics {
    /// The stored value.
    pub open spec fn raw(self) -> u64 {
        match self {
            TransferCharacteristics::Reserved0 => 0,
            TransferCharacteristics::BT709 => 1,
            TransferCharacteristics::Unspecified => 2,
            TransferCharacteristics::Reserved3 => 3,
            TransferCharacteristics::Gamma22BT470M => 4,
            TransferCharacteristics::Gamma28BT470Bg => 5,
            TransferCharacteristics::Smpte170M => 6,
            TransferCharacteristics::Smpte240M => 7,
            TransferCharacteristics::Linear => 8,
            TransferCharacteristics::Log => 9,
            TransferCharacteristics::LogSqrt => 10,
            TransferCharacteristics::Iec61966_2_4 => 11,
            TransferCharacteristics::BT1361ExtendedColourGamut => 12,
            TransferCharacteristics::Iec61966_2_1 => 13,
            TransferCharacteristics::BT2020TenBit => 14,
            TransferCharacteristics::BT2020TwelveBit => 15,
            TransferCharacteristics::BT2100Pq => 16,
            TransferCharacteristics::SmpteSt428_1 => 17,
            TransferCharacteristics::AribStdB67Hlg => 18,
            TransferCharacteristics::Other(v) => v,
        }
    }

    /// What a stored value stands for.
    pub open spec fn of_raw(v: u64) -> TransferCharacteristics {
        if v == 0 {
            TransferCharacteristics::Reserved0
        } else if v == 1 {
            TransferCharacteristics::BT709
        } else if v == 2 {
            TransferCharacteristics::Unspecified
        } else if v == 3 {
            TransferCharacteristics::Reserved3
        } else if v == 4 {
            TransferCharacteristics::Gamma22BT470M
        } else if v == 5 {
            TransferCharacteristics::Gamma28BT470Bg
        } else if v == 6 {
            TransferCharacteristics::Smpte170M
        } else if v == 7 {
            TransferCharacteristics::Smpte240M
        } else if v == 8 {
            TransferCharacteristics::Linear
        } else if v == 9 {
            TransferCharacteristics::Log
        } else if v == 10 {
            TransferCharacteristics::LogSqrt
        } else if v == 11 {
            TransferCharacteristics::Iec61966_2_4
        } else if v == 12 {
            TransferCharacteristics::BT1361ExtendedColourGamut
        } else if v == 13 {
            TransferCharacteristics::Iec61966_2_1
        } else if v == 14 {
            TransferCharacteristics::BT2020TenBit
        } else if v == 15 {
            TransferCharacteristics::BT2020TwelveBit
        } else if v == 16 {
            TransferCharacteristics::BT2100Pq
        } else if v == 17 {
            TransferCharacteristics::SmpteSt428_1
        } else if v == 18 {
            TransferCharacteristics::AribStdB67Hlg
        } else {
            TransferCharacteristics::Other(v)
        }
    }

    /// What a stored value stands for.
    pub fn from_raw(v: u64) -> (r: TransferCharacteristics)
        ensures
            r == TransferCharacteristics::of_raw(v),
    {
        match v {
            0 => TransferCharacteristics::Reserved0,
            1 => TransferCharacteristics::BT709,
            2 => TransferCharacteristics::Unspecified,
            3 => TransferCharacteristics::Reserved3,
            4 => TransferCharacteristics::Gamma22BT470M,
            5 => TransferCharacteristics::Gamma28BT470Bg,
            6 => TransferCharacteristics::Smpte170M,
            7 => TransferCharacteristics::Smpte240M,
            8 => TransferCharacteristics::Linear,
            9 => TransferCharacteristics::Log,
            10 => TransferCharacteristics::LogSqrt,
            11 => TransferCharacteristics::Iec61966_2_4,
            12 => TransferCharacteristics::BT1361ExtendedColourGamut,
            13 => TransferCharacteristics::Iec61966_2_1,
            14 => TransferCharacteristics::BT2020TenBit,
            15 => TransferCharacteristics::BT2020TwelveBit,
            16 => TransferCharacteristics::BT2100Pq,
            17 => TransferCharacteristics::SmpteSt428_1,
            18 => TransferCharacteristics::AribStdB67Hlg,
            other => TransferCharacteristics::Other(other),
        }
    }

    /// The stored value.
    pub fn to_raw(self) -> (r: u64)
        ensures
            r == self.raw(),
    {
        match self {
            TransferCharacteristics::Reserved0 => 0,
            TransferCharacteristics::BT709 => 1,
            TransferCharacteristics::Unspecified => 2,
            TransferCharacteristics::Reserved3 => 3,
            TransferCharacteristics::Gamma22BT470M => 4,
            TransferCharacteristics::Gamma28BT470Bg => 5,
            TransferCharacteristics::Smpte170M => 6,
            TransferCharacteristics::Smpte240M => 7,
            TransferCharacteristics::Linear => 8,
            TransferCharacteristics::Log => 9,
            TransferCharacteristics::LogSqrt => 10,
            TransferCharacteristics::Iec61966_2_4 => 11,
            TransferCharacteristics::BT1361ExtendedColourGamut => 12,
            TransferCharacteristics::Iec61966_2_1 => 13,
            TransferCharacteristics::BT2020TenBit => 14,
            TransferCharacteristics::BT2020TwelveBit => 15,
            TransferCharacteristics::BT2100Pq => 16,
            TransferCharacteristics::SmpteSt428_1 => 17,
            TransferCharacteristics::AribStdB67Hlg => 18,
            TransferCharacteristics::Other(v) => v,
        }
    }
}

/// Every value survives being turned into [`TransferCharacteristics`] and back, and so does every
/// [`TransferCharacteristics`] but an `Other` for a value that has a name.
pub proof fn lemma_transfer_characteristics_round_trip(v: u64, x: TransferCharacteristics)
    ensures
        TransferCharacteristics::of_raw(v).raw() == v,
        TransferCharacteristics::of_raw(x.raw()) == x
            || (x is Other && !(TransferCharacteristics::of_raw(x.raw()) is Other)),
{
}

/// The colour primaries of the video.
#[derive(Clone, Copy, Debug, PartialEq, Eq, Structural)]
#[allow(non_camel_case_types)]
pub enum Primaries {
    Reserved0,
    BT709,
    Unspecified,
    Reserved3,
    BT470M,
    BT470Bg,
    BT601_525Smpte170M,
    Smpte240M,
    Film,
    BT2020,
    SmpteSt428_1,
    SmpteRp432_2,
    SmpteEg432_2,
    EbuTech3213EJedecP22Phosphors,
    /// A value without a name.
    Other(u64),
}

impl Primaries {
    /// The stored value.
    pub open spec fn raw(self) -> u64 {
        match self {
            Primaries::Reserved0 => 0,
            Primaries::BT709 => 1,
            Primaries::Unspecified => 2,
            Primaries::Reserved3 => 3,
            Primaries::BT470M => 4,
            Primaries::BT470Bg => 5,
            Primaries::BT601_525Smpte170M => 6,
            Primaries::Smpte240M => 7,
            Primaries::Film => 8,
            Primaries::BT2020 => 9,
            Primaries::SmpteSt428_1 => 10,
            Primaries::SmpteRp432_2 => 11,
            Primaries::SmpteEg432_2 => 12,
            Primaries::EbuTech3213EJedecP22Phosphors => 22,
            Primaries::Other(v) => v,
        }
    }

    /// What a stored value stands for.
    pub open spec fn of_raw(v: u64) -> Primaries {
        if v == 0 {
            Primaries::Reserved0
        } else if v == 1 {
            Primaries::BT709
        } else if v == 2 {
            Primaries::Unspecified
        } else if v == 3 {
            Primaries::Reserved3
        } else if v == 4 {
            Primaries::BT470M
        } else if v == 5 {
            Primaries::BT470Bg
        } else if v == 6 {
            Primaries::BT601_525Smpte170M
        } else if v == 7 {
            Primaries::Smpte240M
        } else if v == 8 {
            Primaries::Film
        } else if v == 9 {
            Primaries::BT2020
        } else if v == 10 {
            Primaries::SmpteSt428_1
        } else if v == 11 {
            Primaries::SmpteRp432_2
        } else if v == 12 {
            Primaries::SmpteEg432_2
        } else if v == 22 {
            Primaries::EbuTech3213EJedecP22Phosphors
        } else {
            Primaries::Other(v)
        }
    }

    /// What a stored value stands for.
    pub fn from_raw(v: u64) -> (r: Primaries)
        ensures
            r == Primaries::of_raw(v),
    {
        match v {
            0 => Primaries::Reserved0,
            1 => Primaries::BT709,
            2 => Primaries::Unspecified,
            3 => Primaries::Reserved3,
            4 => Primaries::BT470M,
            5 => Primaries::BT470Bg,
            6 => Primaries::BT601_525Smpte170M,
            7 => Primaries::Smpte240M,
            8 => Primaries::Film,
            9 => Primaries::BT2020,
            10 => Primaries::SmpteSt428_1,
            11 => Primaries::SmpteRp432_2,
            12 => Primaries::SmpteEg432_2,
            22 => Primaries::EbuTech3213EJedecP22Phosphors,
            other => Primaries::Other(other),
        }
    }

    /// The stored value.
    pub fn to_raw(self) -> (r: u64)
        ensures
            r == self.raw(),
    {
        match self {
            Primaries::Reserved0 => 0,
            Primaries::BT709 => 1,
            Primaries::Unspecified => 2,
            Primaries::Reserved3 => 3,
            Primaries::BT470M => 4,
            Primaries::BT470Bg => 5,
            Primaries::BT601_525Smpte170M => 6,
            Primaries::Smpte240M => 7,
            Primaries::Film => 8,
            Primaries::BT2020 => 9,
            Primaries::SmpteSt428_1 => 10,
            Primaries::SmpteRp432_2 => 11,
            Primaries::SmpteEg432_2 => 12,
            Primaries::EbuTech3213EJedecP22Phosphors => 22,
            Primaries::Other(v) => v,
        }
    }
}

/// Every value survives being turned into [`Primaries`] and back, and so does every
/// [`Primaries`] but an `Other` for a value that has a name.
pub proof fn lemma_primaries_round_trip(v: u64, x: Primaries)
    ensures
        Primaries::of_raw(v).raw() == v,
        Primaries::of_raw(x.raw()) == x || (x is Other && !(Primaries::of_raw(x.raw()) is Other)),
{
}

/// Whether a track is interlaced, and how.
#[derive(Clone, Copy, Debug, PartialEq, Eq, Structural)]
pub struct VideoInterlacing {
    pub flag: FlagInterlaced,
    pub field_order_raw: u64,
}

impl VideoInterlacing {
    pub fn flag(&self) -> (r: FlagInterlaced)
        ensures
            r == self.flag,
    {
        self.flag
    }

    /// The order of the fields, which only interlaced frames have.
    pub fn field_order(&self) -> (r: Option<FieldOrder>)
        ensures
            r == if self.flag == FlagInterlaced::Interlaced {
                Some(FieldOrder::of_raw(self.field_order_raw))
            } else {
                None
            },
    {
        match self.flag {
            FlagInterlaced::Interlaced => Some(FieldOrder::from_raw(self.field_order_raw)),
            _ => None,
        }
    }
}

/// The visible part of a frame, and the size to show it at.
#[derive(Clone, Copy, Debug, PartialEq, Eq, Structural)]
pub struct VideoGeometry {
    pub pixel_crop_top: u64,
    pub pixel_crop_bottom: u64,
    pub pixel_crop_left: u64,
    pub pixel_crop_right: u64,
    pub display_width: Option<u64>,
    pub display_height: Option<u64>,
    pub display_unit: DisplayUnit,
}

impl VideoGeometry {
    pub fn pixel_crop_top(&self) -> (r: u64)
        ensures
            r == self.pixel_crop_top,
    {
        self.pixel_crop_top
    }

    pub fn pixel_crop_bottom(&self) -> (r: u64)
        ensures
            r == self.pixel_crop_bottom,
    {
        self.pixel_crop_bottom
    }

    pub fn pixel_crop_left(&self) -> (r: u64)
        ensures
            r == self.pixel_crop_left,
    {
        self.pixel_crop_left
    }

    pub fn pixel_crop_right(&self) -> (r: u64)
        ensures
            r == self.pixel_crop_right,
    {
        self.pixel_crop_right
    }

    pub fn display_width(&self) -> (r: Option<u64>)
        ensures
            r == self.display_width,
    {
        self.display_width
    }

    pub fn display_height(&self) -> (r: Option<u64>)
        ensures
            r == self.display_height,
    {
        self.display_height
    }

    pub fn display_unit(&self) -> (r: DisplayUnit)
        ensures
            r == self.display_unit,
    {
        self.display_unit
    }
}

/// The display that the video was mastered on.
#[derive(Clone, Copy, Debug, PartialEq, Eq, Structural)]
pub struct MasteringMetadata {
    pub primary_r_chromaticity_x: Option<Float>,
    pub primary_r_chromaticity_y: Option<Float>,
    pub primary_g_chromaticity_x: Option<Float>,
    pub primary_g_chromaticity_y: Option<Float>,
    pub primary_b_chromaticity_x: Option<Float>,
    pub primary_b_chromaticity_y: Option<Float>,
    pub white_point_chromaticity_x: Option<Float>,
    pub white_point_chromaticity_y: Option<Float>,
    pub luminance_max: Option<Float>,
    pub luminance_min: Option<Float>,
}

impl MasteringMetadata {
    pub fn primary_r_chromaticity_x(&self) -> (r: Option<Float>)
        ensures
            r == self.primary_r_chromaticity_x,
    {
        self.primary_r_chromaticity_x
    }

    pub fn primary_r_chromaticity_y(&self) -> (r: Option<Float>)
        ensures
            r == self.primary_r_chromaticity_y,
    {
        self.primary_r_chromaticity_y
    }

    pub fn primary_g_chromaticity_x(&self) -> (r: Option<Float>)
        ensures
            r == self.primary_g_chromaticity_x,
    {
        self.primary_g_chromaticity_x
    }

    pub fn primary_g_chromaticity_y(&self) -> (r: Option<Float>)
        ensures
            r == self.primary_g_chromaticity_y,
    {
        self.primary_g_chromaticity_y
    }

    pub fn primary_b_chromaticity_x(&self) -> (r: Option<Float>)
        ensures
            r == self.primary_b_chromaticity_x,
    {
        self.primary_b_chromaticity_x
    }

    pub fn primary_b_chromaticity_y(&self) -> (r: Option<Float>)
        ensures
            r == self.primary_b_chromaticity_y,
    {
        self.primary_b_chromaticity_y
    }

    pub fn white_point_chromaticity_x(&self) -> (r: Option<Float>)
        ensures
            r == self.white_point_chromaticity_x,
    {
        self.white_point_chromaticity_x
    }

    pub fn white_point_chromaticity_y(&self) -> (r: Option<Float>)
        ensures
            r == self.white_point_chromaticity_y,
    {
        self.white_point_chromaticity_y
    }

    pub fn luminance_max(&self) -> (r: Option<Float>)
        ensures
            r == self.luminance_max,
    {
        self.luminance_max
    }

    pub fn luminance_min(&self) -> (r: Option<Float>)
        ensures
            r == self.luminance_min,
    {
        self.luminance_min
    }
}

/// The colour format of a track.
#[derive(Clone, Copy, Debug, PartialEq, Eq, Structural)]
pub struct VideoColour {
    pub matrix_coefficients: MatrixCoefficients,
    pub bits_per_channel: u64,
    pub chroma_subsampling_horz: Option<u64>,
    pub chroma_subsampling_vert: Option<u64>,
    pub cb_subsampling_horz: Option<u64>,
    pub cb_subsampling_vert: Option<u64>,
    pub chroma_siting_horz: ChromaSitingHorz,
    pub chroma_siting_vert: ChromaSitingVert,
    pub range: ColourRange,
    pub transfer_characteristics: TransferCharacteristics,
    pub primaries: Primaries,
    pub max_cll: Option<u64>,
    pub max_fall: Option<u64>,
    pub mastering_metadata: Option<MasteringMetadata>,
}

impl VideoColour {
    pub fn matrix_coefficients(&self) -> (r: MatrixCoefficients)
        ensures
            r == self.matrix_coefficients,
    {
        self.matrix_coefficients
    }

    pub fn bits_per_channel(&self) -> (r: u64)
        ensures
            r == self.bits_per_channel,
    {
        self.bits_per_channel
    }

    pub fn chroma_subsampling_horz(&self) -> (r: Option<u64>)
        ensures
            r == self.chroma_subsampling_horz,
    {
        self.chroma_subsampling_horz
    }

    pub fn chroma_subsampling_vert(&self) -> (r: Option<u64>)
        ensures
            r == self.chroma_subsampling_vert,
    {
        self.chroma_subsampling_vert
    }

    pub fn cb_subsampling_horz(&self) -> (r: Option<u64>)
        ensures
            r == self.cb_subsampling_horz,
    {
        self.cb_subsampling_horz
    }

    pub fn cb_subsampling_vert(&self) -> (r: Option<u64>)
        ensures
            r == self.cb_subsampling_vert,
    {
        self.cb_subsampling_vert
    }

    pub fn chroma_siting_horz(&self) -> (r: ChromaSitingHorz)
        ensures
            r == self.chroma_siting_horz,
    {
        self.chroma_siting_horz
    }

    pub fn chroma_siting_vert(&self) -> (r: ChromaSitingVert)
        ensures
            r == self.chroma_siting_vert,
    {
        self.chroma_siting_vert
    }

    pub fn range(&self) -> (r: ColourRange)
        ensures
            r == self.range,
    {
        self.range
    }

    pub fn transfer_characteristics(&self) -> (r: TransferCharacteristics)
        ensures
            r == self.transfer_characteristics,
    {
        self.transfer_characteristics
    }

    pub fn primaries(&self) -> (r: Primaries)
        ensures
            r == self.primaries,
    {
        self.primaries
    }

    pub fn max_cll(&self) -> (r: Option<u64>)
        ensures
            r == self.max_cll,
    {
        self.max_cll
    }

    pub fn max_fall(&self) -> (r: Option<u64>)
        ensures
            r == self.max_fall,
    {
        self.max_fall
    }

    pub fn mastering_metadata(&self) -> (r: Option<&MasteringMetadata>)
        ensures
            match r {
                Some(m) => self.mastering_metadata == Some(*m),
                None => self.mastering_metadata is None,
            },
    {
        match &self.mastering_metadata {
            Some(m) => Some(m),
            None => None,
        }
    }
}

/// What a frame is projected on, and how it is turned.
#[derive(Clone, Debug, PartialEq)]
pub struct Projection {
    pub projection_type: ProjectionType,
    pub private: Option<Vec<u8>>,
    pub pose_yaw: Float,
    pub pose_pitch: Float,
    pub pose_roll: Float,
}

/// The view of a [`Projection`].
#[verifier::ext_equal]
pub struct ProjectionView {
    pub projection_type: ProjectionType,
    pub private: Option<Seq<u8>>,
    pub pose_yaw: Float,
    pub pose_pitch: Float,
    pub pose_roll: Float,
}

impl View for Projection {
    type V = ProjectionView;

    open spec fn view(&self) -> ProjectionView {
        ProjectionView {
            projection_type: self.projection_type,
            private: opt_view(self.private),
            pose_yaw: self.pose_yaw,
            pose_pitch: self.pose_pitch,
            pose_roll: self.pose_roll,
        }
    }
}

impl Projection {
    pub fn projection_type(&self) -> (r: ProjectionType)
        ensures
            r == self@.projection_type,
    {
        self.projection_type
    }

    pub fn private(&self) -> (r: Option<&[u8]>)
        ensures
            match r {
                Some(s) => self@.private == Some(s@),
                None => self@.private is None,
            },
    {
        match &self.private {
            Some(v) => Some(v.as_slice()),
            None => None,
        }
    }

    pub fn pose_yaw(&self) -> (r: Float)
        ensures
            r == self@.pose_yaw,
    {
        self.pose_yaw
    }

    pub fn pose_pitch(&self) -> (r: Float)
        ensures
            r == self@.pose_pitch,
    {
        self.pose_pitch
    }

    pub fn pose_roll(&self) -> (r: Float)
        ensures
            r == self@.pose_roll,
    {
        self.pose_roll
    }

    /// Whether the frame is turned at all.
    pub fn is_rotated(&self) -> (r: bool)
        ensures
            r == !(self@.pose_yaw.spec_is_zero() && self@.pose_pitch.spec_is_zero()
                && self@.pose_roll.spec_is_zero()),
    {
        !self.pose_yaw.is_zero() || !self.pose_pitch.is_zero() || !self.pose_roll.is_zero()
    }
}

/// The pixel layout of uncompressed video.
#[derive(Clone, Debug, PartialEq, Eq)]
pub struct UncompressedFourCC {
    pub bytes: Vec<u8>,
}

impl View for UncompressedFourCC {
    type V = Seq<u8>;

    open spec fn view(&self) -> Seq<u8> {
        self.bytes@
    }
}

impl UncompressedFourCC {
    /// The bytes as stored.
    pub fn as_bytes(&self) -> (r: &[u8])
        ensures
            r@ == self@,
    {
        self.bytes.as_slice()
    }

    /// The four characters, where there are four.
    pub fn fourcc(&self) -> (r: Option<[u8; 4]>)
        ensures
            match r {
                Some(a) => self@.len() == 4 && a@ == self@,
                None => self@.len() != 4,
            },
    {
        if self.bytes.len() == 4 {
            let a: [u8; 4] = [self.bytes[0], self.bytes[1], self.bytes[2], self.bytes[3]];
            assert(a@ =~= self@);
            Some(a)
        } else {
            None
        }
    }

    /// The four characters as text, where there are four. Where they are no text, there is
    /// still something to show.
    pub fn as_str(&self) -> (r: Option<String>)
        ensures
            match r {
                Some(s) => self@.len() == 4 && s@ == text_of(self@) && s@.len() > 0 && (valid_utf8(
                    self@,
                ) ==> encode_utf8(s@) == self@),
                None => self@.len() != 4,
            },
    {
        broadcast use vstd::utf8::decode_utf8_encode_utf8;

        if self.bytes.len() == 4 {
            Some(string_from_utf8_lossy(self.bytes.as_slice()))
        } else {
            None
        }
    }
}

} // verus!

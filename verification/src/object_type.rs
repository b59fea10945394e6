//! Object type codes of the `AcDb:AcDbObjects` stream (the fixed
//! codes of the format, class-defined codes from 500 on, and the
//! reserved codes between).
use vstd::prelude::*;

verus! {

/// The classified form of an object's type code.
#[derive(Debug, Clone, Copy, PartialEq, Eq, Structural)]
pub enum ObjectType {
    /// Type code `0x0`.
    Unused,
    /// Type code `0x1`.
    Text,
    /// Type code `0x2`.
    Attrib,
    /// Type code `0x3`.
    Attdef,
    /// Type code `0x4`.
    Block,
    /// Type code `0x5`.
    Endblk,
    /// Type code `0x6`.
    Seqend,
    /// Type code `0x7`.
    Insert,
    /// Type code `0x8`.
    Minsert,
    /// Type code `0xA`.
    Vertex2D,
    /// Type code `0xB`.
    Vertex3D,
    /// Type code `0xC`.
    VertexMesh,
    /// Type code `0xD`.
    VertexPface,
    /// Type code `0xE`.
    VertexPfaceFace,
    /// Type code `0xF`.
    Polyline2D,
    /// Type code `0x10`.
    Polyline3D,
    /// Type code `0x11`.
    Arc,
    /// Type code `0x12`.
    Circle,
    /// Type code `0x13`.
    Line,
    /// Type code `0x14`.
    DimensionOrdinate,
    /// Type code `0x15`.
    DimensionLinear,
    /// Type code `0x16`.
    DimensionAligned,
    /// Type code `0x17`.
    DimensionAng3Pt,
    /// Type code `0x18`.
    DimensionAng2Ln,
    /// Type code `0x19`.
    DimensionRadius,
    /// Type code `0x1A`.
    DimensionDiameter,
    /// Type code `0x1B`.
    Point,
    /// Type code `0x1C`.
    Face3D,
    /// Type code `0x1D`.
    PolylinePface,
    /// Type code `0x1E`.
    PolylineMesh,
    /// Type code `0x1F`.
    Solid,
    /// Type code `0x20`.
    Trace,
    /// Type code `0x21`.
    Shape,
    /// Type code `0x22`.
    Viewport,
    /// Type code `0x23`.
    Ellipse,
    /// Type code `0x24`.
    Spline,
    /// Type code `0x25`.
    Region,
    /// Type code `0x26`.
    Solid3D,
    /// Type code `0x27`.
    Body,
    /// Type code `0x28`.
    Ray,
    /// Type code `0x29`.
    Xline,
    /// Type code `0x2A`.
    Dictionary,
    /// Type code `0x2B`.
    OleFrame,
    /// Type code `0x2C`.
    Mtext,
    /// Type code `0x2D`.
    Leader,
    /// Type code `0x2E`.
    Tolerance,
    /// Type code `0x2F`.
    Mline,
    /// Type code `0x30`.
    BlockControl,
    /// Type code `0x31`.
    BlockHeader,
    /// Type code `0x32`.
    LayerControl,
    /// Type code `0x33`.
    Layer,
    /// Type code `0x34`.
    StyleControl,
    /// Type code `0x35`.
    Style,
    /// Type code `0x38`.
    LtypeControl,
    /// Type code `0x39`.
    Ltype,
    /// Type code `0x3C`.
    ViewControl,
    /// Type code `0x3D`.
    View,
    /// Type code `0x3E`.
    UcsControl,
    /// Type code `0x3F`.
    Ucs,
    /// Type code `0x40`.
    VportControl,
    /// Type code `0x41`.
    Vport,
    /// Type code `0x42`.
    AppidControl,
    /// Type code `0x43`.
    Appid,
    /// Type code `0x44`.
    DimstyleControl,
    /// Type code `0x45`.
    Dimstyle,
    /// Type code `0x46`.
    VpEntHdrControl,
    /// Type code `0x47`.
    VpEntHdr,
    /// Type code `0x48`.
    Group,
    /// Type code `0x49`.
    MlineStyle,
    /// Type code `0x4A`.
    Ole2Frame,
    /// Type code `0x4B`.
    Dummy,
    /// Type code `0x4C`.
    LongTransaction,
    /// Type code `0x4D`.
    LwPolyline,
    /// Type code `0x4E`.
    Hatch,
    /// Type code `0x4F`.
    Xrecord,
    /// Type code `0x50`.
    AcdbPlaceholder,
    /// Type code `0x51`.
    VbaProject,
    /// Type code `0x52`.
    Layout,
    /// Type code `0x1F2`.
    ProxyEntity,
    /// Type code `0x1F3`.
    ProxyObject,
    /// A code of 500 or more: defined by an entry of the classes section.
    Custom(u16),
    /// A code the format reserves and assigns to nothing.
    Unknown(u16),
}

/// The classification of a type code.
pub open spec fn spec_from_code(code: u16) -> ObjectType {
    match code {
        0x0u16 => ObjectType::Unused,
        0x1u16 => ObjectType::Text,
        0x2u16 => ObjectType::Attrib,
        0x3u16 => ObjectType::Attdef,
        0x4u16 => ObjectType::Block,
        0x5u16 => ObjectType::Endblk,
        0x6u16 => ObjectType::Seqend,
        0x7u16 => ObjectType::Insert,
        0x8u16 => ObjectType::Minsert,
        0xAu16 => ObjectType::Vertex2D,
        0xBu16 => ObjectType::Vertex3D,
        0xCu16 => ObjectType::VertexMesh,
        0xDu16 => ObjectType::VertexPface,
        0xEu16 => ObjectType::VertexPfaceFace,
        0xFu16 => ObjectType::Polyline2D,
        0x10u16 => ObjectType::Polyline3D,
        0x11u16 => ObjectType::Arc,
        0x12u16 => ObjectType::Circle,
        0x13u16 => ObjectType::Line,
        0x14u16 => ObjectType::DimensionOrdinate,
        0x15u16 => ObjectType::DimensionLinear,
        0x16u16 => ObjectType::DimensionAligned,
        0x17u16 => ObjectType::DimensionAng3Pt,
        0x18u16 => ObjectType::DimensionAng2Ln,
        0x19u16 => ObjectType::DimensionRadius,
        0x1Au16 => ObjectType::DimensionDiameter,
        0x1Bu16 => ObjectType::Point,
        0x1Cu16 => ObjectType::Face3D,
        0x1Du16 => ObjectType::PolylinePface,
        0x1Eu16 => ObjectType::PolylineMesh,
        0x1Fu16 => ObjectType::Solid,
        0x20u16 => ObjectType::Trace,
        0x21u16 => ObjectType::Shape,
        0x22u16 => ObjectType::Viewport,
        0x23u16 => ObjectType::Ellipse,
        0x24u16 => ObjectType::Spline,
        0x25u16 => ObjectType::Region,
        0x26u16 => ObjectType::Solid3D,
        0x27u16 => ObjectType::Body,
        0x28u16 => ObjectType::Ray,
        0x29u16 => ObjectType::Xline,
        0x2Au16 => ObjectType::Dictionary,
        0x2Bu16 => ObjectType::OleFrame,
        0x2Cu16 => ObjectType::Mtext,
        0x2Du16 => ObjectType::Leader,
        0x2Eu16 => ObjectType::Tolerance,
        0x2Fu16 => ObjectType::Mline,
        0x30u16 => ObjectType::BlockControl,
        0x31u16 => ObjectType::BlockHeader,
        0x32u16 => ObjectType::LayerControl,
        0x33u16 => ObjectType::Layer,
        0x34u16 => ObjectType::StyleControl,
        0x35u16 => ObjectType::Style,
        0x38u16 => ObjectType::LtypeControl,
        0x39u16 => ObjectType::Ltype,
        0x3Cu16 => ObjectType::ViewControl,
        0x3Du16 => ObjectType::View,
        0x3Eu16 => ObjectType::UcsControl,
        0x3Fu16 => ObjectType::Ucs,
        0x40u16 => ObjectType::VportControl,
        0x41u16 => ObjectType::Vport,
        0x42u16 => ObjectType::AppidControl,
        0x43u16 => ObjectType::Appid,
        0x44u16 => ObjectType::DimstyleControl,
        0x45u16 => ObjectType::Dimstyle,
        0x46u16 => ObjectType::VpEntHdrControl,
        0x47u16 => ObjectType::VpEntHdr,
        0x48u16 => ObjectType::Group,
        0x49u16 => ObjectType::MlineStyle,
        0x4Au16 => ObjectType::Ole2Frame,
        0x4Bu16 => ObjectType::Dummy,
        0x4Cu16 => ObjectType::LongTransaction,
        0x4Du16 => ObjectType::LwPolyline,
        0x4Eu16 => ObjectType::Hatch,
        0x4Fu16 => ObjectType::Xrecord,
        0x50u16 => ObjectType::AcdbPlaceholder,
        0x51u16 => ObjectType::VbaProject,
        0x52u16 => ObjectType::Layout,
        0x1F2u16 => ObjectType::ProxyEntity,
        0x1F3u16 => ObjectType::ProxyObject,
        _ => if code >= 500 {
            ObjectType::Custom(code)
        } else {
            ObjectType::Unknown(code)
        },
    }
}

/// Whether objects of this type are drawable entities.
pub open spec fn spec_is_entity(t: ObjectType) -> bool {
    match t {
        ObjectType::Text | ObjectType::Attrib | ObjectType::Attdef | ObjectType::Block | ObjectType::Endblk | ObjectType::Seqend | ObjectType::Insert | ObjectType::Minsert | ObjectType::Vertex2D | ObjectType::Vertex3D | ObjectType::VertexMesh | ObjectType::VertexPface | ObjectType::VertexPfaceFace | ObjectType::Polyline2D | ObjectType::Polyline3D | ObjectType::Arc | ObjectType::Circle | ObjectType::Line | ObjectType::DimensionOrdinate | ObjectType::DimensionLinear | ObjectType::DimensionAligned | ObjectType::DimensionAng3Pt | ObjectType::DimensionAng2Ln | ObjectType::DimensionRadius | ObjectType::DimensionDiameter | ObjectType::Point | ObjectType::Face3D | ObjectType::PolylinePface | ObjectType::PolylineMesh | ObjectType::Solid | ObjectType::Trace | ObjectType::Shape | ObjectType::Viewport | ObjectType::Ellipse | ObjectType::Spline | ObjectType::Region | ObjectType::Solid3D | ObjectType::Body | ObjectType::Ray | ObjectType::Xline | ObjectType::OleFrame | ObjectType::Mtext | ObjectType::Leader | ObjectType::Tolerance | ObjectType::Mline | ObjectType::Ole2Frame | ObjectType::LongTransaction | ObjectType::LwPolyline | ObjectType::Hatch | ObjectType::ProxyEntity => true,
        _ => false,
    }
}

/// The type code a classification stands for.
pub open spec fn spec_code(t: ObjectType) -> u16 {
    match t {
            ObjectType::Unused => 0x0u16,
            ObjectType::Text => 0x1u16,
            ObjectType::Attrib => 0x2u16,
            ObjectType::Attdef => 0x3u16,
            ObjectType::Block => 0x4u16,
            ObjectType::Endblk => 0x5u16,
            ObjectType::Seqend => 0x6u16,
            ObjectType::Insert => 0x7u16,
            ObjectType::Minsert => 0x8u16,
            ObjectType::Vertex2D => 0xAu16,
            ObjectType::Vertex3D => 0xBu16,
            ObjectType::VertexMesh => 0xCu16,
            ObjectType::VertexPface => 0xDu16,
            ObjectType::VertexPfaceFace => 0xEu16,
            ObjectType::Polyline2D => 0xFu16,
            ObjectType::Polyline3D => 0x10u16,
            ObjectType::Arc => 0x11u16,
            ObjectType::Circle => 0x12u16,
            ObjectType::Line => 0x13u16,
            ObjectType::DimensionOrdinate => 0x14u16,
            ObjectType::DimensionLinear => 0x15u16,
            ObjectType::DimensionAligned => 0x16u16,
            ObjectType::DimensionAng3Pt => 0x17u16,
            ObjectType::DimensionAng2Ln => 0x18u16,
            ObjectType::DimensionRadius => 0x19u16,
            ObjectType::DimensionDiameter => 0x1Au16,
            ObjectType::Point => 0x1Bu16,
            ObjectType::Face3D => 0x1Cu16,
            ObjectType::PolylinePface => 0x1Du16,
            ObjectType::PolylineMesh => 0x1Eu16,
            ObjectType::Solid => 0x1Fu16,
            ObjectType::Trace => 0x20u16,
            ObjectType::Shape => 0x21u16,
            ObjectType::Viewport => 0x22u16,
            ObjectType::Ellipse => 0x23u16,
            ObjectType::Spline => 0x24u16,
            ObjectType::Region => 0x25u16,
            ObjectType::Solid3D => 0x26u16,
            ObjectType::Body => 0x27u16,
            ObjectType::Ray => 0x28u16,
            ObjectType::Xline => 0x29u16,
            ObjectType::Dictionary => 0x2Au16,
            ObjectType::OleFrame => 0x2Bu16,
            ObjectType::Mtext => 0x2Cu16,
            ObjectType::Leader => 0x2Du16,
            ObjectType::Tolerance => 0x2Eu16,
            ObjectType::Mline => 0x2Fu16,
            ObjectType::BlockControl => 0x30u16,
            ObjectType::BlockHeader => 0x31u16,
            ObjectType::LayerControl => 0x32u16,
            ObjectType::Layer => 0x33u16,
            ObjectType::StyleControl => 0x34u16,
            ObjectType::Style => 0x35u16,
            ObjectType::LtypeControl => 0x38u16,
            ObjectType::Ltype => 0x39u16,
            ObjectType::ViewControl => 0x3Cu16,
            ObjectType::View => 0x3Du16,
            ObjectType::UcsControl => 0x3Eu16,
            ObjectType::Ucs => 0x3Fu16,
            ObjectType::VportControl => 0x40u16,
            ObjectType::Vport => 0x41u16,
            ObjectType::AppidControl => 0x42u16,
            ObjectType::Appid => 0x43u16,
            ObjectType::DimstyleControl => 0x44u16,
            ObjectType::Dimstyle => 0x45u16,
            ObjectType::VpEntHdrControl => 0x46u16,
            ObjectType::VpEntHdr => 0x47u16,
            ObjectType::Group => 0x48u16,
            ObjectType::MlineStyle => 0x49u16,
            ObjectType::Ole2Frame => 0x4Au16,
            ObjectType::Dummy => 0x4Bu16,
            ObjectType::LongTransaction => 0x4Cu16,
            ObjectType::LwPolyline => 0x4Du16,
            ObjectType::Hatch => 0x4Eu16,
            ObjectType::Xrecord => 0x4Fu16,
            ObjectType::AcdbPlaceholder => 0x50u16,
            ObjectType::VbaProject => 0x51u16,
            ObjectType::Layout => 0x52u16,
            ObjectType::ProxyEntity => 0x1F2u16,
            ObjectType::ProxyObject => 0x1F3u16,
            ObjectType::Custom(c) => c,
            ObjectType::Unknown(c) => c,
    }
}

/// Classification and code are inverse: every code classifies to a
/// value that stands for that code.
pub proof fn lemma_code_of_classification(code: u16)
    ensures
        spec_code(spec_from_code(code)) == code,
{
}

impl ObjectType {
    /// Classify a raw type code.
    pub fn from_code(code: u16) -> (t: ObjectType)
        ensures
            t == spec_from_code(code),
    {
        match code {
        0x0u16 => ObjectType::Unused,
        0x1u16 => ObjectType::Text,
        0x2u16 => ObjectType::Attrib,
        0x3u16 => ObjectType::Attdef,
        0x4u16 => ObjectType::Block,
        0x5u16 => ObjectType::Endblk,
        0x6u16 => ObjectType::Seqend,
        0x7u16 => ObjectType::Insert,
        0x8u16 => ObjectType::Minsert,
        0xAu16 => ObjectType::Vertex2D,
        0xBu16 => ObjectType::Vertex3D,
        0xCu16 => ObjectType::VertexMesh,
        0xDu16 => ObjectType::VertexPface,
        0xEu16 => ObjectType::VertexPfaceFace,
        0xFu16 => ObjectType::Polyline2D,
        0x10u16 => ObjectType::Polyline3D,
        0x11u16 => ObjectType::Arc,
        0x12u16 => ObjectType::Circle,
        0x13u16 => ObjectType::Line,
        0x14u16 => ObjectType::DimensionOrdinate,
        0x15u16 => ObjectType::DimensionLinear,
        0x16u16 => ObjectType::DimensionAligned,
        0x17u16 => ObjectType::DimensionAng3Pt,
        0x18u16 => ObjectType::DimensionAng2Ln,
        0x19u16 => ObjectType::DimensionRadius,
        0x1Au16 => ObjectType::DimensionDiameter,
        0x1Bu16 => ObjectType::Point,
        0x1Cu16 => ObjectType::Face3D,
        0x1Du16 => ObjectType::PolylinePface,
        0x1Eu16 => ObjectType::PolylineMesh,
        0x1Fu16 => ObjectType::Solid,
        0x20u16 => ObjectType::Trace,
        0x21u16 => ObjectType::Shape,
        0x22u16 => ObjectType::Viewport,
        0x23u16 => ObjectType::Ellipse,
        0x24u16 => ObjectType::Spline,
        0x25u16 => ObjectType::Region,
        0x26u16 => ObjectType::Solid3D,
        0x27u16 => ObjectType::Body,
        0x28u16 => ObjectType::Ray,
        0x29u16 => ObjectType::Xline,
        0x2Au16 => ObjectType::Dictionary,
        0x2Bu16 => ObjectType::OleFrame,
        0x2Cu16 => ObjectType::Mtext,
        0x2Du16 => ObjectType::Leader,
        0x2Eu16 => ObjectType::Tolerance,
        0x2Fu16 => ObjectType::Mline,
        0x30u16 => ObjectType::BlockControl,
        0x31u16 => ObjectType::BlockHeader,
        0x32u16 => ObjectType::LayerControl,
        0x33u16 => ObjectType::Layer,
        0x34u16 => ObjectType::StyleControl,
        0x35u16 => ObjectType::Style,
        0x38u16 => ObjectType::LtypeControl,
        0x39u16 => ObjectType::Ltype,
        0x3Cu16 => ObjectType::ViewControl,
        0x3Du16 => ObjectType::View,
        0x3Eu16 => ObjectType::UcsControl,
        0x3Fu16 => ObjectType::Ucs,
        0x40u16 => ObjectType::VportControl,
        0x41u16 => ObjectType::Vport,
        0x42u16 => ObjectType::AppidControl,
        0x43u16 => ObjectType::Appid,
        0x44u16 => ObjectType::DimstyleControl,
        0x45u16 => ObjectType::Dimstyle,
        0x46u16 => ObjectType::VpEntHdrControl,
        0x47u16 => ObjectType::VpEntHdr,
        0x48u16 => ObjectType::Group,
        0x49u16 => ObjectType::MlineStyle,
        0x4Au16 => ObjectType::Ole2Frame,
        0x4Bu16 => ObjectType::Dummy,
        0x4Cu16 => ObjectType::LongTransaction,
        0x4Du16 => ObjectType::LwPolyline,
        0x4Eu16 => ObjectType::Hatch,
        0x4Fu16 => ObjectType::Xrecord,
        0x50u16 => ObjectType::AcdbPlaceholder,
        0x51u16 => ObjectType::VbaProject,
        0x52u16 => ObjectType::Layout,
        0x1F2u16 => ObjectType::ProxyEntity,
        0x1F3u16 => ObjectType::ProxyObject,
            _ => if code >= 500 {
                ObjectType::Custom(code)
            } else {
                ObjectType::Unknown(code)
            },
        }
    }

    /// Whether objects of this type are drawable entities.
    pub fn is_entity(&self) -> (b: bool)
        ensures
            b == spec_is_entity(*self),
    {
        match self {
            ObjectType::Text | ObjectType::Attrib | ObjectType::Attdef | ObjectType::Block | ObjectType::Endblk | ObjectType::Seqend | ObjectType::Insert | ObjectType::Minsert | ObjectType::Vertex2D | ObjectType::Vertex3D | ObjectType::VertexMesh | ObjectType::VertexPface | ObjectType::VertexPfaceFace | ObjectType::Polyline2D | ObjectType::Polyline3D | ObjectType::Arc | ObjectType::Circle | ObjectType::Line | ObjectType::DimensionOrdinate | ObjectType::DimensionLinear | ObjectType::DimensionAligned | ObjectType::DimensionAng3Pt | ObjectType::DimensionAng2Ln | ObjectType::DimensionRadius | ObjectType::DimensionDiameter | ObjectType::Point | ObjectType::Face3D | ObjectType::PolylinePface | ObjectType::PolylineMesh | ObjectType::Solid | ObjectType::Trace | ObjectType::Shape | ObjectType::Viewport | ObjectType::Ellipse | ObjectType::Spline | ObjectType::Region | ObjectType::Solid3D | ObjectType::Body | ObjectType::Ray | ObjectType::Xline | ObjectType::OleFrame | ObjectType::Mtext | ObjectType::Leader | ObjectType::Tolerance | ObjectType::Mline | ObjectType::Ole2Frame | ObjectType::LongTransaction | ObjectType::LwPolyline | ObjectType::Hatch | ObjectType::ProxyEntity => true,
            _ => false,
        }
    }
}

} // verus!

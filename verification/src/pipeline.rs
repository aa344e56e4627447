//! Fixed-function state chosen for graphics pipelines: blending per attachment,
//! depth testing, and the shader stages present.
use vstd::prelude::*;

verus! {

/// The render passes that users of the library can record into.
#[derive(Debug, Clone, Copy, PartialEq, Eq, Structural)]
pub enum Pass {
    Geometry,
    Transparent,
    Ui,
}

/// Whether a pipeline tests and writes depth.
#[derive(Debug, Clone, Copy, PartialEq, Eq, Structural)]
pub enum DepthHandling {
    /// No depth testing or writing.
    Off,
    /// Test, write.
    On(bool, bool),
}

/// How a color attachment is blended.
#[derive(Debug, Clone, Copy, PartialEq, Eq, Structural)]
pub enum BlendMode {
    Off,
    Alpha,
    PreMultiplied,
    Add,
}

/// Blend factors used by the blend modes.
#[derive(Debug, Clone, Copy, PartialEq, Eq, Structural)]
pub enum BlendFactor {
    Zero,
    One,
    SrcAlpha,
    OneMinusSrcAlpha,
}

/// Depth comparison operators used by the pipelines.
#[derive(Debug, Clone, Copy, PartialEq, Eq, Structural)]
pub enum CompareOp {
    LessOrEqual,
    GreaterOrEqual,
}

/// Color write mask: red, green and blue (alpha is not written).
pub const COLOR_WRITE_RGB: u32 = 0x7;

/// The blend state of one color attachment (the color and alpha operations are
/// always additions).
#[derive(Debug, Clone, Copy, PartialEq, Eq, Structural)]
pub struct BlendAttachment {
    pub blend_enable: bool,
    pub src_color_blend_factor: BlendFactor,
    pub dst_color_blend_factor: BlendFactor,
    pub src_alpha_blend_factor: BlendFactor,
    pub dst_alpha_blend_factor: BlendFactor,
    pub color_write_mask: u32,
}

/// The depth state of a pipeline.
#[derive(Debug, Clone, Copy, PartialEq, Eq, Structural)]
pub struct DepthState {
    pub test: bool,
    pub write: bool,
    pub compare: CompareOp,
}

/// A shader stage of a pipeline.
#[derive(Debug, Clone, Copy, PartialEq, Eq, Structural)]
pub enum ShaderStage {
    Vertex,
    Fragment,
}

/// The blend state for a blend mode: off blends nothing; alpha blends by source
/// alpha; premultiplied takes the source as is; additive adds source to destination.
/// Alpha is always taken from the source.
pub open spec fn blend_spec(mode: BlendMode) -> BlendAttachment {
    BlendAttachment {
        blend_enable: mode != BlendMode::Off,
        src_color_blend_factor: match mode {
            BlendMode::Add => BlendFactor::One,
            BlendMode::PreMultiplied => BlendFactor::One,
            _ => BlendFactor::SrcAlpha,
        },
        dst_color_blend_factor: match mode {
            BlendMode::Add => BlendFactor::One,
            _ => BlendFactor::OneMinusSrcAlpha,
        },
        src_alpha_blend_factor: BlendFactor::One,
        dst_alpha_blend_factor: BlendFactor::Zero,
        color_write_mask: COLOR_WRITE_RGB,
    }
}

/// What each blend mode does to a color attachment: off leaves blending disabled; alpha
/// blending weights the source by its alpha and the destination by one minus it;
/// premultiplied blending takes the source whole and the destination weighted by one
/// minus the source alpha; additive blending adds source and destination whole. In
/// every mode the alpha written is the source alpha, and only red, green and blue are
/// written.
pub proof fn lemma_blend_modes(mode: BlendMode)
    ensures
        blend_spec(mode).blend_enable <==> mode != BlendMode::Off,
        mode == BlendMode::Alpha ==> blend_spec(mode).src_color_blend_factor == BlendFactor::SrcAlpha
            && blend_spec(mode).dst_color_blend_factor == BlendFactor::OneMinusSrcAlpha,
        mode == BlendMode::PreMultiplied ==> blend_spec(mode).src_color_blend_factor == BlendFactor::One
            && blend_spec(mode).dst_color_blend_factor == BlendFactor::OneMinusSrcAlpha,
        mode == BlendMode::Add ==> blend_spec(mode).src_color_blend_factor == BlendFactor::One
            && blend_spec(mode).dst_color_blend_factor == BlendFactor::One,
        blend_spec(mode).src_alpha_blend_factor == BlendFactor::One,
        blend_spec(mode).dst_alpha_blend_factor == BlendFactor::Zero,
        blend_spec(mode).color_write_mask == COLOR_WRITE_RGB,
{
}

/// The blend state for one attachment.
pub fn blend_attachment(mode: BlendMode) -> (r: BlendAttachment)
    ensures
        r == blend_spec(mode),
{
    BlendAttachment {
        blend_enable: match mode {
            BlendMode::Off => false,
            _ => true,
        },
        src_color_blend_factor: match mode {
            BlendMode::Add => BlendFactor::One,
            BlendMode::PreMultiplied => BlendFactor::One,
            _ => BlendFactor::SrcAlpha,
        },
        dst_color_blend_factor: match mode {
            BlendMode::Add => BlendFactor::One,
            _ => BlendFactor::OneMinusSrcAlpha,
        },
        src_alpha_blend_factor: BlendFactor::One,
        dst_alpha_blend_factor: BlendFactor::Zero,
        color_write_mask: COLOR_WRITE_RGB,
    }
}

/// The blend states of all attachments, or none at all when no attachment is listed.
pub fn color_blend_attachments(blend: &Vec<BlendMode>) -> (r: Option<Vec<BlendAttachment>>)
    ensures
        blend@.len() == 0 ==> r is None,
        blend@.len() > 0 ==> (r matches Some(v) && v@ == blend@.map_values(|m: BlendMode| blend_spec(m))),
{
    if blend.len() == 0 {
        return None;
    }
    let mut v: Vec<BlendAttachment> = Vec::new();
    let mut i: usize = 0;
    while i < blend.len()
        invariant
            0 <= i <= blend@.len(),
            v@ == blend@.take(i as int).map_values(|m: BlendMode| blend_spec(m)),
        decreases blend.len() - i,
    {
        v.push(blend_attachment(blend[i]));
        assert(blend@.take(i as int + 1).map_values(|m: BlendMode| blend_spec(m)) =~= blend@.take(
            i as int,
        ).map_values(|m: BlendMode| blend_spec(m)).push(blend_spec(blend@[i as int])));
        i = i + 1;
    }
    assert(blend@.take(blend@.len() as int) =~= blend@);
    Some(v)
}

/// The depth state: none when depth is not handled; otherwise the requested test and
/// write, comparing greater-or-equal with a reversed depth buffer and
/// less-or-equal with a normal one.
pub fn depth_state(depth_handling: DepthHandling, reversed_depth_buffer: bool) -> (r: Option<DepthState>)
    ensures
        depth_handling == DepthHandling::Off ==> r is None,
        depth_handling matches DepthHandling::On(test, write) ==> r == Some(DepthState {
            test,
            write,
            compare: if reversed_depth_buffer { CompareOp::GreaterOrEqual } else { CompareOp::LessOrEqual },
        }),
{
    match depth_handling {
        DepthHandling::Off => None,
        DepthHandling::On(test, write) => Some(DepthState {
            test,
            write,
            compare: if reversed_depth_buffer { CompareOp::GreaterOrEqual } else { CompareOp::LessOrEqual },
        }),
    }
}

/// The shader stages of a pipeline: the vertex stage if there is a vertex shader,
/// then the fragment stage if there is a fragment shader.
pub fn shader_stages(has_vertex_shader: bool, has_fragment_shader: bool) -> (r: Vec<ShaderStage>)
    ensures
        r@ == (if has_vertex_shader { seq![ShaderStage::Vertex] } else { Seq::empty() }) + (if has_fragment_shader {
            seq![ShaderStage::Fragment]
        } else {
            Seq::empty()
        }),
{
    let mut v: Vec<ShaderStage> = Vec::new();
    if has_vertex_shader {
        v.push(ShaderStage::Vertex);
    }
    if has_fragment_shader {
        v.push(ShaderStage::Fragment);
    }
    assert(v@ =~= (if has_vertex_shader { seq![ShaderStage::Vertex] } else { Seq::empty() }) + (if has_fragment_shader {
        seq![ShaderStage::Fragment]
    } else {
        Seq::empty()
    }));
    v
}

} // verus!

use vstd::prelude::*;

verus! {

/// How the input layer is copied to the output when the gradient axis is
/// degenerate (start and end point coincide) and the layer passes through.
#[derive(Clone, Copy, Debug, PartialEq, Eq, Structural)]
pub enum CopyMethod {
    /// The host's high-quality world copy.
    HighQuality,
    /// The host's standard world copy.
    Standard,
    /// A plain copy of the layer, for hosts without the world-transform suite.
    Direct,
}

/// The pass-through copy: high quality when the render asks for it, except
/// in Premiere, which only gets the plain copy.
pub fn passthrough_copy(high_quality: bool, premiere: bool) -> (m: CopyMethod)
    ensures
        m == (if premiere {
            CopyMethod::Direct
        } else if high_quality {
            CopyMethod::HighQuality
        } else {
            CopyMethod::Standard
        }),
{
    if high_quality && !premiere {
        CopyMethod::HighQuality
    } else if !premiere {
        CopyMethod::Standard
    } else {
        CopyMethod::Direct
    }
}

/// Bit depth of a pixel world.
#[derive(Clone, Copy, Debug, PartialEq, Eq, Structural)]
pub enum PixelDepth {
    Eight,
    Sixteen,
    Float,
    /// 64-bit float pixels, which the effect does not render.
    Double,
}

/// Errors that a render reports to the host.
#[derive(Clone, Copy, Debug, PartialEq, Eq, Structural)]
pub enum RenderError {
    /// Input and output pixels of different depths, or of a depth that the
    /// effect does not render.
    BadCallbackParameter,
}

/// The depth at which a pixel is written: input and output must agree, on
/// 8-bit, 16-bit or 32-bit float pixels.
pub fn pixel_depth(input: PixelDepth, output: PixelDepth) -> (r: Result<PixelDepth, RenderError>)
    ensures
        r == (if input == output && input != PixelDepth::Double {
            Ok::<PixelDepth, RenderError>(input)
        } else {
            Err::<PixelDepth, RenderError>(RenderError::BadCallbackParameter)
        }),
{
    match (input, output) {
        (PixelDepth::Eight, PixelDepth::Eight) => Ok(PixelDepth::Eight),
        (PixelDepth::Sixteen, PixelDepth::Sixteen) => Ok(PixelDepth::Sixteen),
        (PixelDepth::Float, PixelDepth::Float) => Ok(PixelDepth::Float),
        _ => Err(RenderError::BadCallbackParameter),
    }
}

} // verus!

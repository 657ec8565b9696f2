use vstd::prelude::*;
use crate::color::{CMYK, Color, RGB, RGBA, channel_text};
use crate::encoding::{ascii_chars, dec_digits, string_push_decimal, string_push_str};

verus! {

/// Errors that can occur while building or encoding a PDF document.
#[derive(Debug, Clone)]
pub enum PdfError {
    /// Invalid object reference (object number doesn't exist)
    InvalidObjectReference(usize),
    /// Invalid compression state
    CompressionError(String),
    /// Invalid font name or configuration
    InvalidFont(String),
    /// A colour channel outside 0 to 1
    InvalidColorChannel { color: Color },
    /// An RGB colour with a channel outside 0 to 1
    InvalidRGB { rgb: RGB },
    /// An RGBA colour with a channel outside 0 to 1
    InvalidRGBA { rgb: RGBA },
    /// A CMYK colour with a channel outside 0 to 1
    InvalidCMYK { cmyk: CMYK },
    /// Invalid image data
    InvalidImage(String),
    /// PDF structure error
    StructureError(String),
}

/// The text of a channel as the debug form of a colour shows it: that of [`channel_text`],
/// with `.0` after a whole number.
pub open spec fn channel_debug_text(c: Color) -> Seq<char> {
    if c.value() % 10000 == 0 {
        channel_text(c) + ".0"@
    } else {
        channel_text(c)
    }
}

/// The message of an error, as it is shown to the user.
pub open spec fn error_text(e: PdfError) -> Seq<char> {
    match e {
        PdfError::InvalidObjectReference(n) => "Invalid object reference: "@ + ascii_chars(dec_digits(n as nat)),
        PdfError::CompressionError(m) => "Compression error: "@ + m@,
        PdfError::InvalidFont(m) => "Invalid font: "@ + m@,
        PdfError::InvalidColorChannel { color } => "Invalid color channel: Color { color: "@
            + channel_debug_text(color) + " }"@,
        PdfError::InvalidRGB { rgb } => "Invalid color values: r="@ + channel_text(rgb.channels()[0]) + ", g="@
            + channel_text(rgb.channels()[1]) + ", b="@ + channel_text(rgb.channels()[2]) + " (must be 0.0-1.0)"@,
        PdfError::InvalidRGBA { rgb } => "Invalid color values: r="@ + channel_text(rgb.channels()[0]) + ", g="@
            + channel_text(rgb.channels()[1]) + ", b="@ + channel_text(rgb.channels()[2]) + ", a="@ + channel_text(
            rgb.channels()[3],
        ) + " (must be 0.0-1.0)"@,
        PdfError::InvalidCMYK { cmyk } => "Invalid color values: c="@ + channel_text(cmyk.channels()[0]) + ", m="@
            + channel_text(cmyk.channels()[1]) + ", y="@ + channel_text(cmyk.channels()[2]) + ", k="@ + channel_text(
            cmyk.channels()[3],
        ) + " (must be 0.0-1.0)"@,
        PdfError::InvalidImage(m) => "Invalid image: "@ + m@,
        PdfError::StructureError(m) => "PDF structure error: "@ + m@,
    }
}

impl PdfError {
    /// The message of the error (see [`error_text`]).
    pub fn message(&self) -> (s: String)
        ensures
            s@ == error_text(*self),
    {
        let mut s = String::new();
        match self {
            PdfError::InvalidObjectReference(n) => {
                string_push_str(&mut s, "Invalid object reference: ");
                string_push_decimal(&mut s, *n as u64);
            },
            PdfError::CompressionError(m) => {
                string_push_str(&mut s, "Compression error: ");
                string_push_str(&mut s, m.as_str());
            },
            PdfError::InvalidFont(m) => {
                string_push_str(&mut s, "Invalid font: ");
                string_push_str(&mut s, m.as_str());
            },
            PdfError::InvalidColorChannel { color } => {
                string_push_str(&mut s, "Invalid color channel: Color { color: ");
                string_push_str(&mut s, color.to_pdf().as_str());
                if color.to_fixed() % 10000 == 0 {
                    string_push_str(&mut s, ".0");
                }
                string_push_str(&mut s, " }");
            },
            PdfError::InvalidRGB { rgb } => {
                string_push_str(&mut s, "Invalid color values: r=");
                string_push_str(&mut s, rgb.r().to_pdf().as_str());
                string_push_str(&mut s, ", g=");
                string_push_str(&mut s, rgb.g().to_pdf().as_str());
                string_push_str(&mut s, ", b=");
                string_push_str(&mut s, rgb.b().to_pdf().as_str());
                string_push_str(&mut s, " (must be 0.0-1.0)");
            },
            PdfError::InvalidRGBA { rgb } => {
                string_push_str(&mut s, "Invalid color values: r=");
                string_push_str(&mut s, rgb.r().to_pdf().as_str());
                string_push_str(&mut s, ", g=");
                string_push_str(&mut s, rgb.g().to_pdf().as_str());
                string_push_str(&mut s, ", b=");
                string_push_str(&mut s, rgb.b().to_pdf().as_str());
                string_push_str(&mut s, ", a=");
                string_push_str(&mut s, rgb.a().to_pdf().as_str());
                string_push_str(&mut s, " (must be 0.0-1.0)");
            },
            PdfError::InvalidCMYK { cmyk } => {
                string_push_str(&mut s, "Invalid color values: c=");
                string_push_str(&mut s, cmyk.c().to_pdf().as_str());
                string_push_str(&mut s, ", m=");
                string_push_str(&mut s, cmyk.m().to_pdf().as_str());
                string_push_str(&mut s, ", y=");
                string_push_str(&mut s, cmyk.y().to_pdf().as_str());
                string_push_str(&mut s, ", k=");
                string_push_str(&mut s, cmyk.k().to_pdf().as_str());
                string_push_str(&mut s, " (must be 0.0-1.0)");
            },
            PdfError::InvalidImage(m) => {
                string_push_str(&mut s, "Invalid image: ");
                string_push_str(&mut s, m.as_str());
            },
            PdfError::StructureError(m) => {
                string_push_str(&mut s, "PDF structure error: ");
                string_push_str(&mut s, m.as_str());
            },
        }
        proof {
            assert(s@ =~= error_text(*self));
        }
        s
    }
}

/// The result of a PDF operation.
pub type PdfResult<T> = Result<T, PdfError>;

} // verus!

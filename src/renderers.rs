pub mod pgm_renderer;
pub mod unicode_renderer;

pub use pgm_renderer::{ImageFormat, ImageRenderer};
pub use unicode_renderer::{UnicodeRenderStyle, UnicodeRenderer};
use vstd::prelude::*;

verus! {

/// A way to render a finished grid: as text in a glyph style, or as an
/// image.
#[derive(Debug, Clone, Copy, PartialEq, Eq, Structural)]
pub enum RenderStyle {
    Unicode(UnicodeRenderStyle),
    Image(ImageFormat),
}

/// The lower-case form of `s`, as `str::to_lowercase` gives it.
pub uninterp spec fn lower_of(s: Seq<char>) -> Seq<char>;

/// Relies on `str::to_lowercase`: the result depends on the characters of
/// `s` alone.
#[verifier::external_body]
fn lowercase(s: &str) -> (r: String)
    ensures
        r@ == lower_of(s@),
{
    s.to_lowercase()
}

/// The style that the lower-case name `name` selects, if any.
pub open spec fn style_named(name: Seq<char>) -> Option<RenderStyle> {
    if name =~= seq!['h', 'e', 'a', 'v', 'y'] {
        Some(RenderStyle::Unicode(UnicodeRenderStyle::Heavy))
    } else if name =~= seq!['t', 'h', 'i', 'n'] {
        Some(RenderStyle::Unicode(UnicodeRenderStyle::Thin))
    } else if name =~= seq!['d', 'o', 'u', 'b', 'l', 'e'] {
        Some(RenderStyle::Unicode(UnicodeRenderStyle::Double))
    } else if name =~= seq!['h', 'e', 'x'] {
        Some(RenderStyle::Unicode(UnicodeRenderStyle::Hexadecimal))
    } else if name =~= seq!['p', 'p', 'm'] {
        Some(RenderStyle::Image(ImageFormat::PPM))
    } else if name =~= seq!['p', 'b', 'm'] {
        Some(RenderStyle::Image(ImageFormat::PBM))
    } else {
        None
    }
}

/// The message that rejects the style name `input`.
pub open spec fn invalid_style_message(input: Seq<char>) -> Seq<char> {
    "Invalid style '"@ + input + "'. Valid styles are: heavy, thin, double, hex, ppm, pbm."@
}

impl RenderStyle {
    /// The style named by `input`, case ignored; an error that names the
    /// valid styles for any other input.
    pub fn parse(input: &str) -> (r: Result<RenderStyle, String>)
        ensures
            style_named(lower_of(input@)) matches Some(s) ==> r == Ok::<RenderStyle, String>(s),
            style_named(lower_of(input@)) is None ==> (r matches Err(e) && e@
                == invalid_style_message(input@)),
    {
        let name = lowercase(input);
        match RenderStyle::from_lowercase_name(name.as_str()) {
            Some(style) => Ok(style),
            None => {
                let mut message = String::from_str("Invalid style '");
                message.append(input);
                message.append("'. Valid styles are: heavy, thin, double, hex, ppm, pbm.");
                Err(message)
            },
        }
    }

    /// The style that the lower-case name `name` selects, if any.
    pub fn from_lowercase_name(name: &str) -> (r: Option<RenderStyle>)
        ensures
            r == style_named(name@),
    {
        proof {
            reveal_strlit("heavy");
            reveal_strlit("thin");
            reveal_strlit("double");
            reveal_strlit("hex");
            reveal_strlit("ppm");
            reveal_strlit("pbm");
            assert("heavy"@ =~= seq!['h', 'e', 'a', 'v', 'y']);
            assert("thin"@ =~= seq!['t', 'h', 'i', 'n']);
            assert("double"@ =~= seq!['d', 'o', 'u', 'b', 'l', 'e']);
            assert("hex"@ =~= seq!['h', 'e', 'x']);
            assert("ppm"@ =~= seq!['p', 'p', 'm']);
            assert("pbm"@ =~= seq!['p', 'b', 'm']);
        }
        let name = String::from_str(name);
        if name == String::from_str("heavy") {
            Some(RenderStyle::Unicode(UnicodeRenderStyle::Heavy))
        } else if name == String::from_str("thin") {
            Some(RenderStyle::Unicode(UnicodeRenderStyle::Thin))
        } else if name == String::from_str("double") {
            Some(RenderStyle::Unicode(UnicodeRenderStyle::Double))
        } else if name == String::from_str("hex") {
            Some(RenderStyle::Unicode(UnicodeRenderStyle::Hexadecimal))
        } else if name == String::from_str("ppm") {
            Some(RenderStyle::Image(ImageFormat::PPM))
        } else if name == String::from_str("pbm") {
            Some(RenderStyle::Image(ImageFormat::PBM))
        } else {
            None
        }
    }

}

impl Default for RenderStyle {
    /// Heavy box-drawing text.
    fn default() -> (r: RenderStyle)
        ensures
            r == RenderStyle::Unicode(UnicodeRenderStyle::Heavy),
    {
        RenderStyle::Unicode(UnicodeRenderStyle::Heavy)
    }
}

impl std::str::FromStr for RenderStyle {
    type Err = String;

    fn from_str(input: &str) -> Result<RenderStyle, String> {
        RenderStyle::parse(input)
    }
}

} // verus!

//! Plain text from HTML, by the `html2text` crate.

use vstd::prelude::*;

verus! {

/// Why a document could not be turned into text.
#[derive(Debug, Clone, Copy, PartialEq, Eq, Structural)]
pub enum RenderError {
    /// The width leaves no room for the document's layout.
    TooNarrow,
    /// The document's style sheet could not be read.
    Style,
    /// The document could not be read to its end.
    Input,
    /// The renderer gave up for a reason it does not name.
    Failed,
}

/// The plain text that `html2text` renders for a document at a wrap width,
/// or the reason why it renders none.
pub uninterp spec fn rendered_text(html: Seq<u8>, width: usize) -> Result<Seq<char>, RenderError>;

/// What a rendering is to the contracts.
pub open spec fn rendering_view(rendering: Result<String, RenderError>) -> Result<
    Seq<char>,
    RenderError,
> {
    match rendering {
        Ok(text) => Ok(text@),
        Err(e) => Err(e),
    }
}

/// Renders a document as plain text wrapped to `width` columns.
///
/// Trusted: calls `html2text::from_read`, which parses the bytes as HTML and
/// renders the tree with its plain decorator. The contract only gives the
/// outcome its name, `rendered_text`: the same bytes at the same width always
/// render alike. The crate's errors are told apart variant by variant.
#[verifier::external_body]
pub(crate) fn render_plain(html: &[u8], width: usize) -> (rendering: Result<String, RenderError>)
    ensures
        rendering_view(rendering) == rendered_text(html@, width),
{
    match html2text::from_read(html, width) {
        Ok(text) => Ok(text),
        Err(html2text::Error::TooNarrow) => Err(RenderError::TooNarrow),
        Err(html2text::Error::CssParseError) => Err(RenderError::Style),
        Err(html2text::Error::IoError(_)) => Err(RenderError::Input),
        Err(_) => Err(RenderError::Failed),
    }
}

} // verus!

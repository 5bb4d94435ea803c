use vstd::prelude::*;
use syntect::easy::HighlightLines;
use syntect::highlighting::Theme;
use syntect::parsing::{SyntaxReference, SyntaxSet};

verus! {

// ---------------------------------------------------------------------------
// Syntax highlighting, behind trusted items.
//
// The grammar collection, the theme, the resolved grammar and the stateful
// line highlighter are opaque values of the highlighting crates; the one
// fact the preview builder relies on is that the colored pieces of a line
// concatenate back to that line.
// ---------------------------------------------------------------------------

#[verifier::external_type_specification]
#[verifier::external_body]
pub struct ExHighlightingAssets(bat::assets::HighlightingAssets);

#[verifier::external_type_specification]
#[verifier::external_body]
pub struct ExSyntaxSet(SyntaxSet);

#[verifier::external_type_specification]
#[verifier::external_body]
pub struct ExSyntaxReference(SyntaxReference);

#[verifier::external_type_specification]
#[verifier::external_body]
pub struct ExTheme(Theme);

#[verifier::external_type_specification]
#[verifier::external_body]
pub struct ExHighlightLines<'a>(HighlightLines<'a>);

/// The text carried by a sequence of colored pieces, in order.
pub open spec fn pieces_text(v: Seq<(u8, u8, u8, String)>) -> Seq<char>
    decreases v.len(),
{
    if v.len() == 0 {
        Seq::<char>::empty()
    } else {
        pieces_text(v.drop_last()) + v.last().3@
    }
}

/// Relies on bat's HighlightingAssets::from_binary: the grammar collection
/// embedded in the library.
#[verifier::external_body]
pub fn load_highlight_assets() -> bat::assets::HighlightingAssets {
    bat::assets::HighlightingAssets::from_binary()
}

/// Relies on bat's HighlightingAssets::get_syntax_set: the collection's
/// syntax set, when it deserializes.
#[verifier::external_body]
pub fn assets_syntax_set(a: &bat::assets::HighlightingAssets) -> Option<&SyntaxSet> {
    a.get_syntax_set().ok()
}

/// Relies on syntect's ThemeSet::load_defaults: the built-in theme of the
/// given name, if the default collection holds one.
#[verifier::external_body]
pub fn theme_by_name(name: &str) -> Option<Theme> {
    syntect::highlighting::ThemeSet::load_defaults().themes.remove(name)
}

/// Relies on syntect's SyntaxSet::find_syntax_by_extension.
#[verifier::external_body]
pub fn syntax_for_extension<'a>(ss: &'a SyntaxSet, ext: &str) -> Option<&'a SyntaxReference> {
    ss.find_syntax_by_extension(ext)
}

/// Relies on syntect's SyntaxSet::find_syntax_by_first_line.
#[verifier::external_body]
pub fn syntax_for_first_line<'a>(ss: &'a SyntaxSet, line: &str) -> Option<&'a SyntaxReference> {
    ss.find_syntax_by_first_line(line)
}

/// Relies on syntect's HighlightLines::new.
#[verifier::external_body]
pub fn new_highlighter<'a>(syntax: &SyntaxReference, theme: &'a Theme) -> HighlightLines<'a> {
    HighlightLines::new(syntax, theme)
}

/// Relies on syntect's HighlightLines::highlight_line: each returned piece
/// is a foreground color and a stretch of the line's text, and the pieces'
/// concatenation makes the original line.
#[verifier::external_body]
pub fn highlight_line_pieces(h: &mut HighlightLines, line: &str, ss: &SyntaxSet) -> (r: Option<
    Vec<(u8, u8, u8, String)>,
>)
    ensures
        r matches Some(v) ==> pieces_text(v@) == line@,
{
    match h.highlight_line(line, ss) {
        Ok(rs) => Some(
            rs.iter().map(
                |p: &(syntect::highlighting::Style, &str)|
                    (p.0.foreground.r, p.0.foreground.g, p.0.foreground.b, p.1.to_string()),
            ).collect(),
        ),
        Err(_) => None,
    }
}

} // verus!

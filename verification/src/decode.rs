use vstd::prelude::*;

use crate::color::{hex_value, is_hex6, Rgb8};

verus! {

/// What `color_processing::Color::new_string` makes of a color token that is
/// not a `#`-and-six-digits hex literal (and holds no parenthesis, the only
/// kind of token the library ever hands it).  The decoder also accepts named
/// css colors, abbreviations, and short and alpha hex forms; its result
/// depends on the token alone, and this name stands for that result without
/// writing the decoder out.
pub uninterp spec fn css_color_of(token: Seq<char>) -> Option<Rgb8>;

/// The color a token denotes: a `#rrggbb` literal of either case denotes the
/// channels read directly from its digits; a token holding a parenthesis is
/// never handed to the decoder and denotes nothing, because the decoder's
/// css function-notation branch can abort on malformed arguments; any other
/// token denotes whatever the css color decoder makes of it, possibly
/// nothing.
pub open spec fn decoded_token(token: Seq<char>) -> Option<Rgb8> {
    if is_hex6(token) {
        Some(hex_value(token))
    } else if token.contains('(') {
        None
    } else {
        css_color_of(token)
    }
}

/// Relies on `color_processing::Color::new_string`: on a token of `#` and
/// six hex digits it trims nothing, lower-cases the digits and reads one
/// channel byte from each digit pair, so such a token decodes to exactly
/// those channels; on every other token its result is a function of the
/// token alone, and a parse error becomes `None`.  The token must hold no
/// parenthesis: on css function notation the decoder indexes optional regex
/// capture groups that malformed arguments leave empty and panics there, so
/// callers drop such tokens instead of decoding them.
#[verifier::external_body]
pub(crate) fn decode_color(token: &str) -> (r: Option<Rgb8>)
    requires
        !token@.contains('('),
    ensures
        r == decoded_token(token@),
        !is_hex6(token@) ==> r == css_color_of(token@),
{
    match color_processing::Color::new_string(token) {
        Ok(c) => Some(Rgb8 { r: c.red, g: c.green, b: c.blue }),
        Err(_) => None,
    }
}

} // verus!

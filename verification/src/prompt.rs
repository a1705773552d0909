//! Colour hints read from a prompt: the placeholder image generator tints
//! its synthetic views by the first colour word found in the lowercased
//! prompt.

use vstd::prelude::*;

use crate::text::{contains_seq, str_contains};

verus! {

/// What `str::to_lowercase` returns for the given characters.
pub uninterp spec fn lower_of(s: Seq<char>) -> Seq<char>;

/// Relies on str::to_lowercase: Unicode lowercasing, a function of the
/// characters alone, independent of locale or environment.
#[verifier::external_body]
fn lowercase(s: &str) -> (r: String)
    ensures
        r@ == lower_of(s@),
{
    s.to_lowercase()
}

/// The tint for an already lowercased prompt: the first of red, blue,
/// green, yellow, purple that occurs wins; otherwise a neutral gray-blue.
pub open spec fn color_spec(s: Seq<char>) -> Seq<u8> {
    if contains_seq(s, "red"@) {
        seq![255u8, 100u8, 100u8]
    } else if contains_seq(s, "blue"@) {
        seq![100u8, 100u8, 255u8]
    } else if contains_seq(s, "green"@) {
        seq![100u8, 255u8, 100u8]
    } else if contains_seq(s, "yellow"@) {
        seq![255u8, 255u8, 100u8]
    } else if contains_seq(s, "purple"@) {
        seq![200u8, 100u8, 255u8]
    } else {
        seq![150u8, 150u8, 180u8]
    }
}

/// Pick the tint for a lowercased prompt.
pub fn color_from_lowered(lowered: &str) -> (r: [u8; 3])
    ensures
        r@ == color_spec(lowered@),
{
    let r: [u8; 3] = if str_contains(lowered, "red") {
        [255, 100, 100]
    } else if str_contains(lowered, "blue") {
        [100, 100, 255]
    } else if str_contains(lowered, "green") {
        [100, 255, 100]
    } else if str_contains(lowered, "yellow") {
        [255, 255, 100]
    } else if str_contains(lowered, "purple") {
        [200, 100, 255]
    } else {
        [150, 150, 180]
    };
    proof {
        assert(r@ =~= color_spec(lowered@));
    }
    r
}

/// Extract a colour hint from the prompt: lowercase it, then pick the tint
/// by the first colour word.
pub fn extract_color_from_prompt(prompt: &str) -> (r: [u8; 3])
    ensures
        r@ == color_spec(lower_of(prompt@)),
{
    let lowered = lowercase(prompt);
    color_from_lowered(lowered.as_str())
}

} // verus!

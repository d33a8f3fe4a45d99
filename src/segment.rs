//! The text segments of the bar that poll their own data, such as the clock and the
//! processor load.
use vstd::prelude::*;

verus! {

/// A segment of the bar, shown as a button whose text is refreshed periodically.
pub trait Segment: Sized {
    /// A segment with a fresh identifier.
    fn new() -> Self;

    /// The identifier of the segment's button.
    fn id(&self) -> &str;
}

/// The number of characters in a segment identifier: a hyphenated UUID.
pub const SEGMENT_ID_LEN: usize = 36;

/// Relies on `uuid::Uuid::new_v4` and its `Display` impl: a random UUID in its
/// hyphenated form, which is 36 characters long. It panics only where the operating
/// system's random number source fails.
#[verifier::external_body]
pub(crate) fn fresh_segment_id() -> (r: String)
    ensures
        r@.len() == SEGMENT_ID_LEN,
{
    uuid::Uuid::new_v4().to_string()
}

/// The name of the text entity of the button with identifier `id`.
pub open spec fn text_entity_name(id: Seq<char>) -> Seq<char> {
    id + "_btn_txt"@
}

/// Names the text entity of the button with identifier `id`, under which the host finds
/// the text to refresh.
pub fn button_text_name(id: &str) -> (r: String)
    ensures
        r@ == text_entity_name(id@),
{
    id.to_owned().concat("_btn_txt")
}

} // verus!

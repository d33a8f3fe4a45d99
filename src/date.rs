//! The clock segment.
use vstd::prelude::*;

use crate::segment::{fresh_segment_id, Segment, SEGMENT_ID_LEN};

verus! {

/// The segment that shows the local date and time.
pub struct Date {
    id: String,
}

impl Date {
    pub closed spec fn spec_id(&self) -> Seq<char> {
        self.id@
    }
}

impl Segment for Date {
    fn new() -> (d: Date)
        ensures
            d.spec_id().len() == SEGMENT_ID_LEN,
    {
        Date { id: fresh_segment_id() }
    }

    fn id(&self) -> (r: &str)
        ensures
            r@ == self.spec_id(),
    {
        self.id.as_str()
    }
}

} // verus!

//! Post-processing of the segments whisper.cpp produces.

use vstd::prelude::*;

use crate::text::{trim, trimmed};

verus! {

/// A whisper segment as it is emitted: surrounding white space removed;
/// a segment left empty is not emitted at all.
pub fn segment_text(text: &str) -> (r: Option<&str>)
    ensures
        trimmed(text@).len() == 0 ==> r is None,
        trimmed(text@).len() > 0 ==> (r matches Some(t) && t@ == trimmed(text@)),
{
    let t = trim(text);
    if t.is_empty() {
        None
    } else {
        Some(t)
    }
}

} // verus!

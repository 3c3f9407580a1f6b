use vstd::prelude::*;
use vstd::slice::slice_to_vec;

verus! {

/// An immutable byte buffer together with a forward cursor.
///
/// The cursor counts the bytes consumed so far, so it is also the one-based
/// offset of the byte consumed last. A scan only ever moves it forward.
pub struct MessageStream {
    pub data: Vec<u8>,
    pub pos: usize,
}

impl MessageStream {
    /// The cursor never points past the end of the buffer.
    pub open spec fn inv(&self) -> bool {
        self.pos <= self.data@.len()
    }

    /// A stream over a copy of `bytes`, with the cursor at the start.
    pub fn new(bytes: &[u8]) -> (s: Self)
        ensures
            s.data@ == bytes@,
            s.pos == 0,
            s.inv(),
    {
        MessageStream { data: slice_to_vec(bytes), pos: 0 }
    }
}

/// The outcome of extracting one header value.
pub enum HeaderValue {
    /// The value's text, decoded from the bytes between the first and the
    /// last printable byte of the value.
    Text(String),
    /// No printable byte stood before the terminating line break, or the
    /// buffer ran out before an unfolded line break was found.
    Empty,
}

impl HeaderValue {
    /// The text carried by a `Text` outcome.
    pub fn unwrap_text(self) -> (r: String)
        requires
            self is Text,
        ensures
            self matches HeaderValue::Text(t) && r == t,
    {
        match self {
            HeaderValue::Text(t) => t,
            HeaderValue::Empty => unreached(),
        }
    }
}

} // verus!

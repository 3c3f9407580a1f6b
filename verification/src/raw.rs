use vstd::prelude::*;
use vstd::slice::slice_subrange;

use crate::decode::{decode_lossy, lossy_decode};
use crate::scan::{scan, skip_scan};
use crate::stream::{HeaderValue, MessageStream};

verus! {

/// Extracts the raw value of one header field.
///
/// The stream must stand at the first byte of the value, just past the
/// `name:` delimiter. Bytes are consumed up to and including the first
/// unfolded line feed — one not followed by a space or a tab — and the text
/// between the first and the last printable byte consumed is returned,
/// lossily decoded; embedded folds within that span stay verbatim. When no
/// printable byte was consumed, or when the buffer runs out before an
/// unfolded line feed is found, the result is `Empty`.
#[verifier::loop_isolation(false)]
pub fn parse_raw(stream: &mut MessageStream) -> (r: HeaderValue)
    requires
        old(stream).inv(),
    ensures
        final(stream).data@ == old(stream).data@,
        final(stream).inv(),
        final(stream).pos >= old(stream).pos,
        ({
            let s = scan(old(stream).data@, old(stream).pos as nat, 0, 0);
            &&& final(stream).pos == s.pos
            &&& (s.terminated && s.start > 0 ==> (r matches HeaderValue::Text(t)
                && t@ == lossy_decode(old(stream).data@.subrange(s.start - 1, s.end as int))))
            &&& (!(s.terminated && s.start > 0) ==> r is Empty)
        }),
{
    let ghost d = stream.data@;
    let ghost p0 = stream.pos as nat;
    let mut token_start: usize = 0;
    let mut token_end: usize = 0;

    while stream.pos < stream.data.len()
        invariant
            stream.data@ == d,
            stream.pos <= d.len(),
            p0 <= stream.pos,
            token_start <= token_end <= stream.pos,
            scan(d, p0, 0, 0) == scan(d, stream.pos as nat, token_start as nat, token_end as nat),
        decreases d.len() - stream.pos,
    {
        let ch = stream.data[stream.pos];
        stream.pos = stream.pos + 1;
        if ch == 10 {
            let fold = stream.pos < stream.data.len() && {
                let next = stream.data[stream.pos];
                next == 32 || next == 9
            };
            if fold {
                stream.pos = stream.pos + 1;
            } else {
                return if token_start > 0 {
                    let bytes = slice_subrange(stream.data.as_slice(), token_start - 1, token_end);
                    HeaderValue::Text(decode_lossy(bytes))
                } else {
                    HeaderValue::Empty
                };
            }
        } else if ch == 32 || ch == 9 || ch == 13 {
        } else {
            if token_start == 0 {
                token_start = stream.pos;
            }
            token_end = stream.pos;
        }
    }
    HeaderValue::Empty
}

/// Discards the raw value of one header field.
///
/// Consumes bytes under the same fold rule as `parse_raw` — a line feed
/// followed by a space or a tab continues the value — up to and including the
/// first unfolded line feed, or to the end of the buffer. Its only observable
/// effect is the final cursor.
#[verifier::loop_isolation(false)]
pub fn parse_and_ignore(stream: &mut MessageStream)
    requires
        old(stream).inv(),
    ensures
        final(stream).data@ == old(stream).data@,
        final(stream).inv(),
        final(stream).pos >= old(stream).pos,
        final(stream).pos == skip_scan(old(stream).data@, old(stream).pos as nat).pos,
{
    let ghost d = stream.data@;
    let ghost p0 = stream.pos as nat;

    while stream.pos < stream.data.len()
        invariant
            stream.data@ == d,
            stream.pos <= d.len(),
            p0 <= stream.pos,
            skip_scan(d, p0) == skip_scan(d, stream.pos as nat),
        decreases d.len() - stream.pos,
    {
        let ch = stream.data[stream.pos];
        stream.pos = stream.pos + 1;
        if ch == 10 {
            let fold = stream.pos < stream.data.len() && {
                let next = stream.data[stream.pos];
                next == 32 || next == 9
            };
            if fold {
                stream.pos = stream.pos + 1;
            } else {
                return;
            }
        }
    }
}

} // verus!

use vstd::prelude::*;

verus! {

/// The state of one extracting pass once it has stopped: the cursor after the
/// pass, the one-based offsets of the first and the last printable byte seen
/// (both zero while none was seen), and whether the pass stopped at an
/// unfolded line feed rather than at the end of the buffer.
pub struct ScanState {
    pub pos: nat,
    pub start: nat,
    pub end: nat,
    pub terminated: bool,
}

/// The state of one discarding pass once it has stopped.
pub struct SkipState {
    pub pos: nat,
    pub terminated: bool,
}

/// A byte that opens a folded continuation when it follows a line feed:
/// a space or a horizontal tab.
pub open spec fn is_fold_byte(b: u8) -> bool {
    b == 32 || b == 9
}

/// Whitespace that an extracting pass steps over without opening or extending
/// the token: space, horizontal tab, carriage return.
pub open spec fn is_inline_ws(b: u8) -> bool {
    b == 32 || b == 9 || b == 13
}

/// One extracting pass over `data` from `pos`, carrying the token offsets
/// `(start, end)`; both are one-based, and `start == 0` means that no
/// printable byte has been seen yet.
///
/// Each byte is consumed before it is inspected, so offsets of consumed bytes
/// are `pos + 1`. A line feed whose next byte is a space or a tab is a fold:
/// both bytes are consumed and the pass goes on. Any other line feed stops the
/// pass. Inline whitespace is stepped over; every other byte extends the token
/// (and opens it if `start == 0`). Running out of bytes stops the pass with
/// `terminated == false`.
pub open spec fn scan(data: Seq<u8>, pos: nat, start: nat, end: nat) -> ScanState
    decreases data.len() - pos,
{
    if pos >= data.len() {
        ScanState { pos, start, end, terminated: false }
    } else {
        let b = data[pos as int];
        if b == 10 {
            if pos + 1 < data.len() && is_fold_byte(data[pos as int + 1]) {
                scan(data, pos + 2, start, end)
            } else {
                ScanState { pos: pos + 1, start, end, terminated: true }
            }
        } else if is_inline_ws(b) {
            scan(data, pos + 1, start, end)
        } else {
            scan(data, pos + 1, if start == 0 { pos + 1 } else { start }, pos + 1)
        }
    }
}

/// One discarding pass over `data` from `pos`: the same fold rule as `scan`,
/// but every byte other than a line feed is consumed without further ado, and
/// no token is tracked.
pub open spec fn skip_scan(data: Seq<u8>, pos: nat) -> SkipState
    decreases data.len() - pos,
{
    if pos >= data.len() {
        SkipState { pos, terminated: false }
    } else {
        let b = data[pos as int];
        if b == 10 {
            if pos + 1 < data.len() && is_fold_byte(data[pos as int + 1]) {
                skip_scan(data, pos + 2)
            } else {
                SkipState { pos: pos + 1, terminated: true }
            }
        } else {
            skip_scan(data, pos + 1)
        }
    }
}

/// Bounds of one extracting pass. The cursor only moves forward and stays
/// within the buffer; the token offsets stay ordered and behind the cursor.
/// A pass that stopped at a line feed has consumed that line feed — the byte
/// just before the final cursor — and the token ends strictly before it, so
/// the terminator is never part of the extracted span; a pass that did not
/// stop at one has consumed the whole buffer.
pub proof fn lemma_scan_bounds(data: Seq<u8>, pos: nat, start: nat, end: nat)
    requires
        pos <= data.len(),
        start <= end,
        end <= pos,
    ensures
        ({
            let r = scan(data, pos, start, end);
            &&& pos <= r.pos <= data.len()
            &&& r.start <= r.end <= r.pos
            &&& r.terminated ==> r.pos >= 1 && data[r.pos - 1] == 10 && r.end < r.pos
            &&& !r.terminated ==> r.pos == data.len()
        }),
    decreases data.len() - pos,
{
    if pos >= data.len() {
    } else {
        let b = data[pos as int];
        if b == 10 {
            if pos + 1 < data.len() && is_fold_byte(data[pos as int + 1]) {
                lemma_scan_bounds(data, pos + 2, start, end);
            }
        } else if is_inline_ws(b) {
            lemma_scan_bounds(data, pos + 1, start, end);
        } else {
            lemma_scan_bounds(
                data,
                pos + 1,
                if start == 0 { pos + 1 } else { start },
                pos + 1,
            );
        }
    }
}

/// Bounds of one discarding pass, as in `lemma_scan_bounds`: the cursor only
/// moves forward and stays within the buffer; a pass that stopped at a line
/// feed has consumed it, and one that did not has consumed the whole buffer.
pub proof fn lemma_skip_scan_bounds(data: Seq<u8>, pos: nat)
    requires
        pos <= data.len(),
    ensures
        ({
            let r = skip_scan(data, pos);
            &&& pos <= r.pos <= data.len()
            &&& r.terminated ==> r.pos >= 1 && data[r.pos - 1] == 10
            &&& !r.terminated ==> r.pos == data.len()
        }),
    decreases data.len() - pos,
{
    if pos >= data.len() {
    } else {
        let b = data[pos as int];
        if b == 10 {
            if pos + 1 < data.len() && is_fold_byte(data[pos as int + 1]) {
                lemma_skip_scan_bounds(data, pos + 2);
            }
        } else {
            lemma_skip_scan_bounds(data, pos + 1);
        }
    }
}

/// Skipping and extracting consume the same bytes: from the same position the
/// two passes stop at the same cursor, for the same reason, whatever token
/// state the extracting pass carries — also when no unfolded line break exists
/// and both consume the buffer to its end.
pub proof fn lemma_skip_matches_scan(data: Seq<u8>, pos: nat, start: nat, end: nat)
    ensures
        skip_scan(data, pos).pos == scan(data, pos, start, end).pos,
        skip_scan(data, pos).terminated == scan(data, pos, start, end).terminated,
    decreases data.len() - pos,
{
    if pos >= data.len() {
    } else {
        let b = data[pos as int];
        if b == 10 {
            if pos + 1 < data.len() && is_fold_byte(data[pos as int + 1]) {
                lemma_skip_matches_scan(data, pos + 2, start, end);
            }
        } else if is_inline_ws(b) {
            lemma_skip_matches_scan(data, pos + 1, start, end);
        } else {
            lemma_skip_matches_scan(
                data,
                pos + 1,
                if start == 0 { pos + 1 } else { start },
                pos + 1,
            );
        }
    }
}

/// A buffer that holds only whitespace and line breaks from `pos` on never
/// opens a token: the extracting pass ends with `start == 0` and `end == 0`,
/// so extraction yields no text. Where the pass stops — just past the first
/// unfolded line feed, or at the end of the buffer — is `lemma_scan_bounds`.
pub proof fn lemma_whitespace_only_scan(data: Seq<u8>, pos: nat)
    requires
        pos <= data.len(),
        forall|i: int| pos <= i < data.len() ==> is_inline_ws(data[i]) || data[i] == 10,
    ensures
        scan(data, pos, 0, 0).start == 0,
        scan(data, pos, 0, 0).end == 0,
    decreases data.len() - pos,
{
    if pos >= data.len() {
    } else {
        let b = data[pos as int];
        if b == 10 {
            if pos + 1 < data.len() && is_fold_byte(data[pos as int + 1]) {
                lemma_whitespace_only_scan(data, pos + 2);
            }
        } else {
            lemma_whitespace_only_scan(data, pos + 1);
        }
    }
}

/// The offset `x` moved past an insertion of two bytes at offset `k`:
/// one-based offsets beyond `k` shift by two, those at or before `k` — and
/// the unset marker 0 — stay where they are.
pub open spec fn shift_past(x: nat, k: nat) -> nat {
    if x > k {
        x + 2
    } else {
        x
    }
}

/// A buffer with a line feed and a whitespace byte `w` inserted at offset `k`.
pub open spec fn with_fold_at(data: Seq<u8>, k: nat, w: u8) -> Seq<u8> {
    data.subrange(0, k as int) + seq![10u8, w] + data.subrange(k as int, data.len() as int)
}

/// Helper for `lemma_fold_transparency`: with two bytes inserted at offset
/// `k`, an extracting pass over the longer buffer from `pos + 2` moves in
/// step with one over the shorter buffer from `pos` — its cursor two bytes
/// ahead, its token offsets shifted where they lie beyond `k`.
proof fn lemma_scan_shift(d1: Seq<u8>, k: nat, w: u8, pos: nat, start: nat, end: nat)
    requires
        k <= pos <= d1.len(),
    ensures
        ({
            let d2 = with_fold_at(d1, k, w);
            let r1 = scan(d1, pos, start, end);
            let r2 = scan(d2, pos + 2, shift_past(start, k), shift_past(end, k));
            &&& r2.pos == r1.pos + 2
            &&& r2.terminated == r1.terminated
            &&& r2.start == shift_past(r1.start, k)
            &&& r2.end == shift_past(r1.end, k)
        }),
    decreases d1.len() - pos,
{
    let d2 = with_fold_at(d1, k, w);
    assert(d2.len() == d1.len() + 2);
    if pos >= d1.len() {
    } else {
        let b = d1[pos as int];
        assert(d2[pos as int + 2] == b);
        if b == 10 {
            if pos + 1 < d1.len() && is_fold_byte(d1[pos as int + 1]) {
                assert(d2[pos as int + 3] == d1[pos as int + 1]);
                lemma_scan_shift(d1, k, w, pos + 2, start, end);
            } else {
                if pos + 1 < d1.len() {
                    assert(d2[pos as int + 3] == d1[pos as int + 1]);
                }
            }
        } else if is_inline_ws(b) {
            lemma_scan_shift(d1, k, w, pos + 1, start, end);
        } else {
            lemma_scan_shift(
                d1,
                k,
                w,
                pos + 1,
                if start == 0 { pos + 1 } else { start },
                pos + 1,
            );
        }
    }
}

/// Fold transparency. Inserting a line break plus one whitespace byte at the
/// offset an extracting pass stands at — writing the rest of the value on a
/// folded continuation line — does not end the value there: the pass over the
/// longer buffer stops two bytes further, for the same reason, with the same
/// token offsets but for the shift. And as long as the extracted span does
/// not enclose the insertion offset, the extracted bytes are the very same,
/// so the value reads as if it stood on one physical line. (A span that does
/// enclose the insertion offset keeps the two fold bytes verbatim, and the
/// two texts differ by exactly those bytes.)
pub proof fn lemma_fold_transparency(d1: Seq<u8>, k: nat, w: u8, start: nat, end: nat)
    requires
        is_fold_byte(w),
        start <= end <= k <= d1.len(),
    ensures
        ({
            let d2 = with_fold_at(d1, k, w);
            let r1 = scan(d1, k, start, end);
            let r2 = scan(d2, k, start, end);
            &&& r2.pos == r1.pos + 2
            &&& r2.terminated == r1.terminated
            &&& r2.start == shift_past(r1.start, k)
            &&& r2.end == shift_past(r1.end, k)
            &&& (r1.start > 0 && (k < r1.start || r1.end <= k) ==> d2.subrange(
                r2.start - 1,
                r2.end as int,
            ) == d1.subrange(r1.start - 1, r1.end as int))
        }),
{
    let d2 = with_fold_at(d1, k, w);
    let r1 = scan(d1, k, start, end);
    let r2 = scan(d2, k, start, end);
    lemma_scan_bounds(d1, k, start, end);
    lemma_scan_shift(d1, k, w, k, start, end);
    assert(d2.len() == d1.len() + 2);
    assert(d2[k as int] == 10);
    assert(d2[k as int + 1] == w);
    // the pass over the longer buffer steps over the inserted fold unmoved
    assert(r2 == scan(d2, k + 2, shift_past(start, k), shift_past(end, k)));
    if r1.start > 0 && (k < r1.start || r1.end <= k) {
        if k < r1.start {
            // the whole span lies beyond the insertion: both offsets shift
            assert(d2.subrange(r2.start - 1, r2.end as int) =~= d1.subrange(
                r1.start - 1,
                r1.end as int,
            )) by {
                assert(forall|i: int|
                    k <= i < d1.len() ==> d2[i + 2] == #[trigger] d1[i]);
            }
        } else {
            // the whole span lies before the insertion: both offsets stay
            assert(d2.subrange(r2.start - 1, r2.end as int) =~= d1.subrange(
                r1.start - 1,
                r1.end as int,
            )) by {
                assert(forall|i: int| 0 <= i < k ==> d2[i] == #[trigger] d1[i]);
            }
        }
    }
}

} // verus!

//! The framing of what is broadcast to the workers.
//!
//! Every frame begins with the id of the worker it is meant for, written
//! in decimal digits and padded with zeros to seven digits; the bytes of the
//! message follow at once. A subscriber filters on the first seven bytes.

use vstd::prelude::*;
use crate::utils::WorkerID;

verus! {

/// The number of bytes that the worker id takes at the head of a frame.
pub const PREFIX_WIDTH: usize = 7;

/// The first worker id that does not fit in seven digits.
pub const PREFIX_LIMIT: usize = 10_000_000;

/// The ASCII digit for `d`.
pub open spec fn digit(d: int) -> u8 {
    (48 + d) as u8
}

/// The decimal digits of `n` in ASCII, the most significant first.
pub open spec fn decimal(n: nat) -> Seq<u8>
    decreases n,
{
    if n < 10 {
        seq![digit(n as int)]
    } else {
        decimal(n / 10).push(digit((n % 10) as int))
    }
}

/// The head of a frame for worker `workerid`: its decimal digits, with
/// zeros before them where they are fewer than seven.
pub open spec fn prefix(workerid: WorkerID) -> Seq<u8> {
    let digits = decimal(workerid as nat);
    if digits.len() >= PREFIX_WIDTH {
        digits
    } else {
        Seq::new((PREFIX_WIDTH - digits.len()) as nat, |i: int| digit(0)) + digits
    }
}

/// The frame that carries `payload` to worker `workerid`.
pub open spec fn frame(workerid: WorkerID, payload: Seq<u8>) -> Seq<u8> {
    prefix(workerid) + payload
}

/// What follows the first seven bytes of `frame`; nothing where the frame
/// is shorter.
pub open spec fn payload(frame: Seq<u8>) -> Seq<u8> {
    if frame.len() >= PREFIX_WIDTH {
        frame.subrange(PREFIX_WIDTH as int, frame.len() as int)
    } else {
        Seq::empty()
    }
}

/// A number has at least one digit, and a number below `10 * bound` has at
/// most one digit more than a number below `bound`.
pub proof fn lemma_decimal_len(n: nat)
    ensures
        decimal(n).len() >= 1,
        n < 10 ==> decimal(n).len() == 1,
        n >= 10 ==> decimal(n).len() == decimal(n / 10).len() + 1,
    decreases n,
{
    if n >= 10 {
        lemma_decimal_len(n / 10);
    }
}

/// The head of a frame has seven bytes for every worker id below ten
/// million, and more for no smaller id than that.
pub proof fn lemma_prefix_width(workerid: WorkerID)
    ensures
        prefix(workerid).len() >= PREFIX_WIDTH,
        workerid < PREFIX_LIMIT ==> prefix(workerid).len() == PREFIX_WIDTH,
{
    let n = workerid as nat;
    lemma_decimal_len(n);
    if workerid < PREFIX_LIMIT {
        lemma_decimal_len(n / 10);
        lemma_decimal_len(n / 100);
        lemma_decimal_len(n / 1000);
        lemma_decimal_len(n / 10000);
        lemma_decimal_len(n / 100000);
        lemma_decimal_len(n / 1000000);
        assert(n / 10 / 10 == n / 100);
        assert(n / 100 / 10 == n / 1000);
        assert(n / 1000 / 10 == n / 10000);
        assert(n / 10000 / 10 == n / 100000);
        assert(n / 100000 / 10 == n / 1000000);
        assert(n / 1000000 < 10);
    }
}

/// Framing and unframing give the payload back, for every worker id below
/// ten million.
pub proof fn lemma_payload_of_frame(workerid: WorkerID, bytes: Seq<u8>)
    requires
        workerid < PREFIX_LIMIT,
    ensures
        payload(frame(workerid, bytes)) == bytes,
{
    lemma_prefix_width(workerid);
    assert(payload(frame(workerid, bytes)) =~= bytes);
}

/// Frames `payload` for worker `workerid`: the worker id as a decimal
/// number of at least seven digits, zeros first, and then the payload.
pub fn frame_message(workerid: WorkerID, payload: &[u8]) -> (buf: Vec<u8>)
    ensures
        buf@ == frame(workerid, payload@),
{
    // the digits, the least significant first
    let mut digits: Vec<u8> = Vec::new();
    let mut n: usize = workerid;
    while n >= 10
        invariant
            decimal(workerid as nat) == decimal(n as nat) + digits@.reverse(),
        decreases n,
    {
        let d: u8 = (n % 10) as u8;
        let ghost before = digits@;
        digits.push(48 + d);
        assert(decimal(n as nat) =~= decimal((n / 10) as nat).push(digit((n % 10) as int)));
        assert(digits@.reverse() =~= seq![digit((n % 10) as int)] + before.reverse());
        assert(decimal((n / 10) as nat).push(digit((n % 10) as int)) + before.reverse()
            =~= decimal((n / 10) as nat) + (seq![digit((n % 10) as int)] + before.reverse()));
        n = n / 10;
    }
    let ghost before = digits@;
    digits.push(48 + (n as u8));
    assert(digits@.reverse() =~= seq![digit(n as int)] + before.reverse());
    assert(digits@.reverse() =~= decimal(workerid as nat));
    let mut buf: Vec<u8> = Vec::new();
    let mut width: usize = digits.len();
    while width < PREFIX_WIDTH
        invariant
            digits@.len() <= width,
            digits@.len() >= PREFIX_WIDTH ==> width == digits@.len(),
            digits@.len() < PREFIX_WIDTH ==> width <= PREFIX_WIDTH,
            buf@ == Seq::new((width - digits@.len()) as nat, |i: int| digit(0)),
        decreases PREFIX_WIDTH - width,
    {
        buf.push(48);
        width += 1;
        assert(buf@ =~= Seq::new((width - digits@.len()) as nat, |i: int| digit(0)));
    }
    let ghost zeros = buf@;
    let mut i: usize = digits.len();
    while i > 0
        invariant
            i <= digits@.len(),
            buf@ == zeros + digits@.reverse().take(digits@.len() - i),
        decreases i,
    {
        i -= 1;
        buf.push(digits[i]);
        assert(buf@ =~= zeros + digits@.reverse().take(digits@.len() - i));
    }
    assert(digits@.reverse().take(digits@.len() as int) =~= digits@.reverse());
    assert(buf@ =~= prefix(workerid));
    let mut k: usize = 0;
    while k < payload.len()
        invariant
            k <= payload@.len(),
            buf@ == prefix(workerid) + payload@.take(k as int),
        decreases payload@.len() - k,
    {
        buf.push(payload[k]);
        k += 1;
        assert(buf@ =~= prefix(workerid) + payload@.take(k as int));
    }
    assert(payload@.take(payload@.len() as int) =~= payload@);
    buf
}

/// What a subscriber reads from `frame` once it has skipped the head: the
/// bytes from the eighth on.
pub fn subscription_payload(frame: &[u8]) -> (bytes: Vec<u8>)
    ensures
        bytes@ == payload(frame@),
{
    let mut bytes: Vec<u8> = Vec::new();
    if frame.len() < PREFIX_WIDTH {
        return bytes;
    }
    let mut k: usize = PREFIX_WIDTH;
    while k < frame.len()
        invariant
            PREFIX_WIDTH <= k <= frame@.len(),
            bytes@ == frame@.subrange(PREFIX_WIDTH as int, k as int),
        decreases frame@.len() - k,
    {
        bytes.push(frame[k]);
        k += 1;
        assert(bytes@ =~= frame@.subrange(PREFIX_WIDTH as int, k as int));
    }
    bytes
}

} // verus!

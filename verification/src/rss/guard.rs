//! Which feed documents are handed to `feed-rs`.
//!
//! `feed-rs` reads the time attributes of Media RSS elements (`start` and
//! `end` of `media:text`, `time` of `media:thumbnail`) with a pattern whose
//! digits are any Unicode decimal digits, then converts them to `u64` with
//! `unwrap` and multiplies hours by 3600. A non-ASCII digit, a digit run too
//! long for `u64`, or an hour count whose seconds overflow makes it panic.
//! Those elements exist only in the Media RSS namespace, whose URI holds
//! `mrss`. A document is passed on when it cannot reach that case.

use vstd::prelude::*;

verus! {

/// `p` stands in `b` at `i`.
pub open spec fn occurs_bytes(b: Seq<u8>, p: Seq<u8>, i: int) -> bool {
    0 <= i && i + p.len() <= b.len() && b.subrange(i, i + p.len()) == p
}

pub open spec fn has_bytes(b: Seq<u8>, p: Seq<u8>) -> bool {
    exists|i: int| occurs_bytes(b, p, i)
}

pub open spec fn is_ascii_digit(x: u8) -> bool {
    48 <= x <= 57
}

/// Sixteen ASCII digits in a row start at `i`.
pub open spec fn long_digit_run_at(b: Seq<u8>, i: int) -> bool {
    0 <= i && i + 16 <= b.len() && forall|k: int| i <= k < i + 16 ==> is_ascii_digit(#[trigger] b[k])
}

/// No run of ASCII digits is longer than fifteen: as hours, such a number
/// of seconds fits in `u64`.
pub open spec fn short_digit_runs(b: Seq<u8>) -> bool {
    forall|i: int| !long_digit_run_at(b, i)
}

/// No NUL and no ESC byte: the document's encoding is then one in which
/// ASCII text is its ASCII bytes (no UTF-16, no ISO-2022 shifts).
pub open spec fn no_shift_bytes(b: Seq<u8>) -> bool {
    forall|k: int| 0 <= k < b.len() ==> (#[trigger] b[k]) != 0 && b[k] != 0x1b
}

pub open spec fn all_ascii(b: Seq<u8>) -> bool {
    forall|k: int| 0 <= k < b.len() ==> (#[trigger] b[k]) < 0x80
}

pub open spec fn mrss_bytes() -> Seq<u8> {
    seq![0x6du8, 0x72u8, 0x73u8, 0x73u8]
}

pub open spec fn char_ref_bytes() -> Seq<u8> {
    seq![0x26u8, 0x23u8]
}

/// A document `feed-rs` reads without panicking on a Media RSS time: no
/// NUL or ESC byte, and either no `mrss` at all, or plain ASCII without a
/// character reference (`&#`) and without a digit run longer than fifteen.
pub open spec fn feed_bytes_safe(b: Seq<u8>) -> bool {
    &&& no_shift_bytes(b)
    &&& (!has_bytes(b, mrss_bytes()) || (!has_bytes(b, char_ref_bytes()) && all_ascii(b) && short_digit_runs(b)))
}

fn no_shift(b: &[u8]) -> (r: bool)
    ensures
        r == no_shift_bytes(b@),
{
    let mut i: usize = 0;
    while i < b.len()
        invariant
            i <= b.len(),
            forall|k: int| 0 <= k < i ==> (#[trigger] b@[k]) != 0 && b@[k] != 0x1b,
        decreases b.len() - i,
    {
        if b[i] == 0 || b[i] == 0x1b {
            return false;
        }
        i += 1;
    }
    true
}

fn ascii_only(b: &[u8]) -> (r: bool)
    ensures
        r == all_ascii(b@),
{
    let mut i: usize = 0;
    while i < b.len()
        invariant
            i <= b.len(),
            forall|k: int| 0 <= k < i ==> (#[trigger] b@[k]) < 0x80,
        decreases b.len() - i,
    {
        if b[i] >= 0x80 {
            return false;
        }
        i += 1;
    }
    true
}

fn occurs_at(b: &[u8], p: &[u8], i: usize) -> (r: bool)
    requires
        i + p.len() <= b.len(),
    ensures
        r == occurs_bytes(b@, p@, i as int),
{
    let mut k: usize = 0;
    while k < p.len()
        invariant
            i + p.len() <= b.len(),
            k <= p.len(),
            forall|j: int| 0 <= j < k ==> b@[i + j] == p@[j],
        decreases p.len() - k,
    {
        if b[i + k] != p[k] {
            assert(b@.subrange(i as int, i + p.len())[k as int] != p@[k as int]);
            return false;
        }
        k += 1;
    }
    assert(b@.subrange(i as int, i + p.len()) =~= p@);
    true
}

fn contains_bytes(b: &[u8], p: &[u8]) -> (r: bool)
    ensures
        r == has_bytes(b@, p@),
{
    if p.len() > b.len() {
        assert forall|i: int| !occurs_bytes(b@, p@, i) by {}
        return false;
    }
    let last = b.len() - p.len();
    let mut i: usize = 0;
    loop
        invariant
            last + p.len() == b.len(),
            i <= last,
            forall|j: int| 0 <= j < i ==> !occurs_bytes(b@, p@, j),
        decreases last - i,
    {
        if occurs_at(b, p, i) {
            return true;
        }
        if i == last {
            assert forall|j: int| !occurs_bytes(b@, p@, j) by {
                if 0 <= j <= i {
                }
            }
            return false;
        }
        i += 1;
    }
}

fn short_runs(b: &[u8]) -> (r: bool)
    ensures
        r == short_digit_runs(b@),
{
    let mut run: usize = 0;
    let mut i: usize = 0;
    while i < b.len()
        invariant
            i <= b.len(),
            run <= i,
            run < 16,
            forall|k: int| i - run <= k < i ==> is_ascii_digit(#[trigger] b@[k]),
            run < i ==> !is_ascii_digit(b@[i - run - 1]),
            forall|j: int| 0 <= j && j + 16 <= i ==> !long_digit_run_at(b@, j),
        decreases b.len() - i,
    {
        if 48 <= b[i] && b[i] <= 57 {
            if run == 15 {
                let s = i - 15;
                assert(long_digit_run_at(b@, s as int)) by {
                    assert forall|k: int| s <= k < s + 16 implies is_ascii_digit(#[trigger] b@[k]) by {
                        if k < i {
                        }
                    }
                }
                return false;
            }
            run = run + 1;
            i = i + 1;
            assert forall|j: int| 0 <= j && j + 16 <= i implies !long_digit_run_at(b@, j) by {
                if j + 16 == i {
                    assert(!is_ascii_digit(b@[i - run - 1]));
                }
            }
        } else {
            let old_i = i;
            run = 0;
            i = i + 1;
            assert forall|j: int| 0 <= j && j + 16 <= i implies !long_digit_run_at(b@, j) by {
                if j + 16 == i {
                    assert(!is_ascii_digit(b@[old_i as int]));
                }
            }
        }
    }
    assert forall|j: int| !long_digit_run_at(b@, j) by {
        if 0 <= j && j + 16 <= b.len() {
        }
    }
    true
}

/// Whether `feed-rs` may be handed these bytes: [`feed_bytes_safe`].
pub fn feed_bytes_safe_check(b: &[u8]) -> (r: bool)
    ensures
        r == feed_bytes_safe(b@),
{
    if !no_shift(b) {
        return false;
    }
    let mrss: Vec<u8> = vec![0x6du8, 0x72u8, 0x73u8, 0x73u8];
    let char_ref: Vec<u8> = vec![0x26u8, 0x23u8];
    assert(mrss@ =~= mrss_bytes());
    assert(char_ref@ =~= char_ref_bytes());
    if !contains_bytes(b, mrss.as_slice()) {
        return true;
    }
    !contains_bytes(b, char_ref.as_slice()) && ascii_only(b) && short_runs(b)
}

} // verus!

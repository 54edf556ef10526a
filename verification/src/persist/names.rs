//! Segment file names: a sequence number, zero-padded to six digits, followed
//! by a suffix that tells snapshots from event segments.

use vstd::prelude::*;
use crate::text::{decimal, decimal_width, push_decimal};

verus! {

/// The decimal numeral of `n`, padded with leading zeros to at least six
/// digits.
pub open spec fn zero_padded(n: nat) -> Seq<char> {
    let digits = decimal(n);
    if digits.len() >= 6 {
        digits
    } else {
        Seq::new((6 - digits.len()) as nat, |i: int| '0') + digits
    }
}

/// The file name of snapshot number `index`.
pub open spec fn spec_snapshot_file_name(index: u32) -> Seq<char> {
    zero_padded(index as nat) + ".snapshot.cbor.zst"@
}

/// The file name of event segment number `index`.
pub open spec fn spec_event_file_name(index: u32) -> Seq<char> {
    zero_padded(index as nat) + ".log.cbor.zst"@
}

/// Writes `index` zero-padded to six digits, followed by `suffix`.
fn numbered_name(index: u32, suffix: &str) -> (name: String)
    ensures
        name@ == zero_padded(index as nat) + suffix@,
{
    let width = decimal_width(index as u64);
    let mut name = String::new();
    let mut k: usize = width;
    while k < 6
        invariant
            width <= k,
            width >= 6 ==> name@.len() == 0,
            width < 6 ==> k <= 6 && name@ == Seq::new((k - width) as nat, |i: int| '0'),
        decreases 6 - k,
    {
        name.push('0');
        assert(name@ =~= Seq::new((k + 1 - width) as nat, |i: int| '0'));
        k = k + 1;
    }
    assert(name@ + decimal(index as nat) =~= zero_padded(index as nat)) by {
        if width >= 6 {
            assert(name@ =~= Seq::<char>::empty());
        }
    }
    push_decimal(&mut name, index as u64);
    name.push_str(suffix);
    name
}

/// The file name of snapshot number `index`.
pub fn snapshot_file_name(index: u32) -> (name: String)
    ensures
        name@ == spec_snapshot_file_name(index),
{
    numbered_name(index, ".snapshot.cbor.zst")
}

/// The file name of event segment number `index`.
pub fn event_file_name(index: u32) -> (name: String)
    ensures
        name@ == spec_event_file_name(index),
{
    numbered_name(index, ".log.cbor.zst")
}

} // verus!

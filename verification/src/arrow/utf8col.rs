use vstd::prelude::*;

use crate::arrow::{bytes_range, string_from_utf8};

verus! {

/// Why a UTF-8 column could not be decoded into strings.
pub(crate) enum Utf8ColumnFault {
    /// The offsets do not start at zero, decrease somewhere, or do
    /// not end at the byte buffer's length.
    Offsets,
    /// A delimited slice is not valid UTF-8.
    Encoding,
}

/// Slices `bv` at the offset boundaries and decodes each slice as an
/// owned UTF-8 string.
#[verifier::rlimit(100)]
pub(crate) fn decode_utf8_strings(bv: &Vec<u8>, ob: &Vec<usize>) -> (r: Result<
    Vec<String>,
    Utf8ColumnFault,
>)
    ensures
        match r {
            Ok(v) => {
                &&& raw_offsets_ok(bv@, ob@)
                &&& raw_all_valid(bv@, ob@)
                &&& v.deep_view() == Seq::new(
                    (ob@.len() - 1) as nat,
                    |i: int|
                        vstd::utf8::decode_utf8(bv@.subrange(ob@[i] as int, ob@[i + 1] as int)),
                )
            },
            Err(Utf8ColumnFault::Offsets) => !raw_offsets_ok(bv@, ob@),
            Err(Utf8ColumnFault::Encoding) => raw_offsets_ok(bv@, ob@) && !raw_all_valid(
                bv@,
                ob@,
            ),
        },
{
    if ob.len() < 1 || ob[0] != 0 || ob[ob.len() - 1] != bv.len() {
        return Err(Utf8ColumnFault::Offsets);
    }
    let m = ob.len() - 1;
    for k in 0..m
        invariant
            m + 1 == ob@.len(),
            forall|a: int| 0 <= a < k ==> #[trigger] ob@[a] <= ob@[a + 1],
    {
        if ob[k] > ob[k + 1] {
            return Err(Utf8ColumnFault::Offsets);
        }
    }
    proof {
        lemma_adjacent_nondecreasing_a(ob@);
        assert(raw_offsets_ok(bv@, ob@));
    }
    let mut out: Vec<String> = Vec::new();
    for k in 0..m
        invariant
            m + 1 == ob@.len(),
            ob@[0] == 0,
            ob@[ob@.len() - 1] == bv@.len(),
            forall|a: int| 0 <= a < m ==> #[trigger] ob@[a] <= ob@[a + 1],
            out.deep_view().len() == k,
            forall|a: int|
                0 <= a < k ==> vstd::utf8::valid_utf8(
                    bv@.subrange(#[trigger] ob@[a] as int, ob@[a + 1] as int),
                ),
            forall|a: int|
                0 <= a < k ==> out.deep_view()[a] == vstd::utf8::decode_utf8(
                    bv@.subrange(ob@[a] as int, ob@[a + 1] as int),
                ),
    {
        let a = ob[k];
        let b = ob[k + 1];
        proof {
            lemma_nondecreasing_range_a(ob@, k + 1 as int, ob@.len() - 1);
            assert(ob@[k as int] <= ob@[k + 1 as int]);
        }
        let chunk = bytes_range(bv, a, b);
        match string_from_utf8(chunk) {
            Some(s) => {
                let ghost prev = out.deep_view();
                out.push(s);
                proof {
                    assert(out.deep_view() =~= prev.push(s@));
                }
            },
            None => {
                proof {
                    lemma_adjacent_nondecreasing_a(ob@);
                    assert(raw_offsets_ok(bv@, ob@));
                }
                return Err(Utf8ColumnFault::Encoding);
            },
        }
    }
    proof {
        lemma_adjacent_nondecreasing_a(ob@);
        assert(raw_offsets_ok(bv@, ob@));
        assert(out.deep_view() =~= Seq::new(
            (ob@.len() - 1) as nat,
            |i: int| vstd::utf8::decode_utf8(bv@.subrange(ob@[i] as int, ob@[i + 1] as int)),
        ));
    }
    Ok(out)
}

/// The offsets start at zero, never decrease, and end exactly at the
/// byte buffer's length.
pub(crate) open spec fn raw_offsets_ok(b: Seq<u8>, o: Seq<usize>) -> bool {
    &&& o.len() >= 1
    &&& o[0] == 0
    &&& (forall|i: int, j: int| 0 <= i <= j < o.len() ==> o[i] <= o[j])
    &&& o[o.len() - 1] == b.len()
}

/// Every delimited slice is valid UTF-8.
pub(crate) open spec fn raw_all_valid(b: Seq<u8>, o: Seq<usize>) -> bool {
    forall|i: int|
        0 <= i < o.len() - 1 ==> vstd::utf8::valid_utf8(
            b.subrange(#[trigger] o[i] as int, o[i + 1] as int),
        )
}


/// A sequence whose adjacent entries never decrease is sorted.
proof fn lemma_adjacent_nondecreasing_a(s: Seq<usize>)
    requires
        forall|a: int| 0 <= a < s.len() - 1 ==> #[trigger] s[a] <= s[a + 1],
    ensures
        forall|i: int, j: int| 0 <= i <= j < s.len() ==> s[i] <= s[j],
{
    assert forall|i: int, j: int| 0 <= i <= j < s.len() implies s[i] <= s[j] by {
        lemma_nondecreasing_range_a(s, i, j);
    }
}

proof fn lemma_nondecreasing_range_a(s: Seq<usize>, i: int, j: int)
    requires
        forall|a: int| 0 <= a < s.len() - 1 ==> #[trigger] s[a] <= s[a + 1],
        0 <= i <= j < s.len(),
    ensures
        s[i] <= s[j],
    decreases j - i,
{
    if i < j {
        lemma_nondecreasing_range_a(s, i + 1, j);
    }
}


} // verus!

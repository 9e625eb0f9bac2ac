use vstd::prelude::*;
use crate::bytes::{signed32, unsigned32, to_signed32, to_unsigned32};

verus! {

/// The sum of the bytes of a string, as an unbounded integer.
pub open spec fn byte_sum(s: Seq<u8>) -> int
    decreases s.len(),
{
    if s.len() == 0 {
        0
    } else {
        byte_sum(s.drop_last()) + s.last()
    }
}

/// The checksum that starts at `seed` and adds every byte, wrapping at 32 bits.
pub open spec fn spec_checksum(seed: i32, s: Seq<u8>) -> i32 {
    signed32(((unsigned32(seed) + byte_sum(s)) % 0x1_0000_0000) as u32)
}

/// Adds the bytes of `data` to `seed` with 32-bit wrapping.
pub fn wz_checksum(seed: i32, data: &[u8]) -> (r: i32)
    ensures
        r == spec_checksum(seed, data@),
{
    let mut acc: u32 = to_unsigned32(seed);
    let mut i: usize = 0;
    while i < data.len()
        invariant
            i <= data@.len(),
            acc as int == (unsigned32(seed) + byte_sum(data@.take(i as int))) % 0x1_0000_0000,
        decreases data@.len() - i,
    {
        assert(data@.take(i + 1).drop_last() == data@.take(i as int));
        let b = data[i];
        acc = acc.wrapping_add(b as u32);
        i = i + 1;
    }
    assert(data@.take(data@.len() as int) == data@);
    to_signed32(acc)
}

} // verus!

verus! {

/// The pieces of a `/`-separated path, as `str::split` gives them.
pub open spec fn spec_split(s: Seq<char>) -> Seq<Seq<char>>
    decreases s.len(),
{
    if s.len() == 0 {
        seq![Seq::<char>::empty()]
    } else {
        let prev = spec_split(s.drop_last());
        if s.last() == '/' {
            prev.push(Seq::<char>::empty())
        } else {
            prev.update(prev.len() - 1, prev.last().push(s.last()))
        }
    }
}

pub(crate) proof fn lemma_split_nonempty(s: Seq<char>)
    ensures
        spec_split(s).len() >= 1,
    decreases s.len(),
{
    if s.len() > 0 {
        lemma_split_nonempty(s.drop_last());
    }
}

/// Splits a path at every `/`.
pub fn split_path(path: &str) -> (r: Vec<String>)
    ensures
        r@.map_values(|p: String| p@) == spec_split(path@),
{
    let chars = crate::text::chars_of(path);
    let mut parts: Vec<String> = Vec::new();
    let mut cur: Vec<char> = Vec::new();
    let mut i: usize = 0;
    while i < chars.len()
        invariant
            i <= chars@.len(),
            chars@ == path@,
            spec_split(chars@.take(i as int)) == parts@.map_values(|p: String| p@).push(cur@),
        decreases chars@.len() - i,
    {
        let ghost prev_parts = parts@.map_values(|p: String| p@);
        let ghost prev_cur = cur@;
        assert(chars@.take(i + 1).drop_last() == chars@.take(i as int));
        if chars[i] == '/' {
            let piece = crate::text::string_from_chars(cur.as_slice());
            parts.push(piece);
            cur = Vec::new();
            assert(parts@.map_values(|p: String| p@) =~= prev_parts.push(prev_cur));
        } else {
            cur.push(chars[i]);
            assert(prev_parts.push(prev_cur).update(prev_parts.len() as int, prev_cur.push(chars@[i as int]))
                =~= prev_parts.push(cur@));
        }
        i = i + 1;
    }
    assert(chars@.take(chars@.len() as int) == chars@);
    let ghost prev_parts = parts@.map_values(|p: String| p@);
    let last = crate::text::string_from_chars(cur.as_slice());
    parts.push(last);
    assert(parts@.map_values(|p: String| p@) =~= prev_parts.push(cur@));
    parts
}

} // verus!

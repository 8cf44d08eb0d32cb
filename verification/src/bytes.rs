//! Byte strings and lists of them.

use vstd::prelude::*;

use crate::text::same_bytes;

verus! {

/// The contents of a list of byte strings.
pub open spec fn byte_lists(lists: Seq<Vec<u8>>) -> Seq<Seq<u8>> {
    lists.map_values(|bytes: Vec<u8>| bytes@)
}

/// A copy of a byte string.
pub fn copy_bytes(bytes: &Vec<u8>) -> (copy: Vec<u8>)
    ensures
        copy@ == bytes@,
{
    vstd::slice::slice_to_vec(bytes.as_slice())
}

/// A copy of a list of byte strings.
pub fn copy_lists(lists: &Vec<Vec<u8>>) -> (copy: Vec<Vec<u8>>)
    ensures
        byte_lists(copy@) == byte_lists(lists@),
{
    let mut copy: Vec<Vec<u8>> = Vec::new();
    let mut index: usize = 0;
    while index < lists.len()
        invariant
            index <= lists@.len(),
            copy@.len() == index,
            forall|i: int| 0 <= i < index ==> (#[trigger] copy@[i])@ == lists@[i]@,
        decreases lists@.len() - index,
    {
        copy.push(copy_bytes(&lists[index]));
        index += 1;
    }
    proof {
        assert(byte_lists(copy@) =~= byte_lists(lists@));
    }
    copy
}

/// Whether two lists hold the same byte strings in the same order.
pub fn same_lists(left: &Vec<Vec<u8>>, right: &Vec<Vec<u8>>) -> (same: bool)
    ensures
        same == (byte_lists(left@) == byte_lists(right@)),
{
    let ghost l = byte_lists(left@);
    let ghost r = byte_lists(right@);
    if left.len() != right.len() {
        proof {
            assert(l.len() != r.len());
        }
        return false;
    }
    let mut index: usize = 0;
    while index < left.len()
        invariant
            left@.len() == right@.len(),
            index <= left@.len(),
            l == byte_lists(left@),
            r == byte_lists(right@),
            forall|i: int| 0 <= i < index ==> l[i] == r[i],
        decreases left@.len() - index,
    {
        if !same_bytes(left[index].as_slice(), right[index].as_slice()) {
            proof {
                assert(l[index as int] != r[index as int]);
            }
            return false;
        }
        proof {
            assert(l[index as int] == left@[index as int]@);
            assert(r[index as int] == right@[index as int]@);
        }
        index += 1;
    }
    proof {
        assert(l =~= r);
    }
    true
}

/// Appends a byte string to another.
pub fn append_bytes(target: &mut Vec<u8>, bytes: &[u8])
    ensures
        final(target)@ == old(target)@ + bytes@,
{
    target.extend_from_slice(bytes);
    proof {
        assert(target@ =~= old(target)@ + bytes@);
    }
}

} // verus!

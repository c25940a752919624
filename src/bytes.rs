//! Reading fixed-size fields out of a byte source.
use crate::error::BubError;
use vstd::prelude::*;
use vstd::slice::slice_subrange;

verus! {

/// The `n` bytes at `*at` of `data`, advancing `*at` past them, or
/// `UnexpectedEof` when fewer remain.
pub fn take<'a>(data: &'a [u8], at: &mut usize, n: usize) -> (r: Result<&'a [u8], BubError>)
    ensures
        *old(at) + n <= data@.len() ==> {
            &&& r matches Ok(s) && s@ == data@.subrange(*old(at) as int, *old(at) + n)
            &&& *final(at) == *old(at) + n
        },
        *old(at) + n > data@.len() ==> {
            &&& r matches Err(e) && e == BubError::UnexpectedEof
            &&& *final(at) == *old(at)
        },
{
    if *at > data.len() || n > data.len() - *at {
        return Err(BubError::UnexpectedEof);
    }
    let s = slice_subrange(data, *at, *at + n);
    *at = *at + n;
    Ok(s)
}

} // verus!

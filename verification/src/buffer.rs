//! What the codec assumes of the inbound byte buffer, `tokio_core::io::EasyBuf`.

#![allow(deprecated)]

use tokio_core::io::EasyBuf;
use vstd::prelude::*;

verus! {

/// `tokio_core::io::EasyBuf`, a reference-counted window onto a byte vector. Its fields are
/// private to its crate, so a value is known here only through [`buffered`].
#[verifier::external_type_specification]
#[verifier::external_body]
pub struct ExEasyBuf(tokio_core::io::EasyBuf);

/// The bytes that a buffer currently holds, first to last: what `EasyBuf::as_slice` shows.
pub uninterp spec fn buffered(buf: EasyBuf) -> Seq<u8>;

/// `EasyBuf::len` returns the width of the window, that is the number of bytes held.
pub assume_specification[ EasyBuf::len ](buf: &EasyBuf) -> (n: usize)
    ensures
        n == buffered(*buf).len(),
;

/// `EasyBuf::as_slice` borrows the bytes held, in order.
pub assume_specification<'a>[ EasyBuf::as_slice ](buf: &'a EasyBuf) -> (bytes: &'a [u8])
    ensures
        bytes@ == buffered(*buf),
;

/// `EasyBuf::drain_to` splits the buffer at `at`: the first `at` bytes are returned as a
/// buffer of their own and the rest stay behind. It panics when `at` is past the end, which
/// the precondition rules out.
pub assume_specification[ EasyBuf::drain_to ](buf: &mut EasyBuf, at: usize) -> (head: EasyBuf)
    requires
        at <= buffered(*old(buf)).len(),
    ensures
        buffered(head) == buffered(*old(buf)).subrange(0, at as int),
        buffered(*final(buf)) == buffered(*old(buf)).subrange(
            at as int,
            buffered(*old(buf)).len() as int,
        ),
;

} // verus!

//! The HTTP `Range` selector for partial reads: an offset without a size
//! runs to the end of the object, a size without an offset takes the first
//! `size` bytes, and both together take `size` bytes starting at `offset`.

use crate::strutil::{chars_to_string, dec_str, push_dec, string_to_chars};
use vstd::prelude::*;

verus! {

/// A byte-range selector; at least one bound is expected to be present
/// where a `Range` header is attached at all.
pub struct HeaderRange {
    pub offset: Option<u64>,
    pub size: Option<u64>,
}

/// The rendered header value.
pub open spec fn range_header_spec(offset: Option<u64>, size: Option<u64>) -> Seq<char> {
    if offset is Some && size is Some {
        "bytes="@ + dec_str(offset->0 as nat) + seq!['-'] + dec_str(
            (offset->0 + size->0 - 1) as nat,
        )
    } else if offset is Some {
        "bytes="@ + dec_str(offset->0 as nat) + seq!['-']
    } else if size is Some {
        "bytes="@ + seq!['0', '-'] + dec_str((size->0 - 1) as nat)
    } else {
        Seq::<char>::empty()
    }
}

impl HeaderRange {
    pub fn new(offset: Option<u64>, size: Option<u64>) -> (r: HeaderRange)
        ensures
            r.offset == offset,
            r.size == size,
    {
        HeaderRange { offset, size }
    }

    /// Renders the selector as a `Range` header value.
    pub fn header_value(&self) -> (r: String)
        requires
            self.offset is Some || self.size is Some,
            self.size is Some ==> self.size->0 > 0,
            self.offset is Some && self.size is Some ==> self.offset->0 + self.size->0 - 1
                <= u64::MAX,
        ensures
            r@ == range_header_spec(self.offset, self.size),
    {
        let mut out = string_to_chars("bytes=");
        match (&self.offset, &self.size) {
            (Some(o), Some(s)) => {
                push_dec(*o, &mut out);
                out.push('-');
                push_dec(*o + (*s - 1), &mut out);
                proof {
                    assert(out@ =~= range_header_spec(self.offset, self.size));
                }
            },
            (Some(o), None) => {
                push_dec(*o, &mut out);
                out.push('-');
                proof {
                    assert(out@ =~= range_header_spec(self.offset, self.size));
                }
            },
            (None, Some(s)) => {
                out.push('0');
                out.push('-');
                push_dec(*s - 1, &mut out);
                proof {
                    assert(out@ =~= range_header_spec(self.offset, self.size));
                }
            },
            (None, None) => {
                proof {
                    assert(false);
                }
            },
        }
        chars_to_string(&out)
    }
}

} // verus!

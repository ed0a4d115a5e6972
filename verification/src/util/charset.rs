//! The character encoding that a `Content-Type` header names.

use vstd::prelude::*;
use vstd::utf8::encode_utf8;
use crate::text::{
    back, bytes_to_string, find_part_end, front, lemma_part_end_bounds, part_end, reads, reads_at,
    trim_back, trim_front, utf8_lossy, Padding,
};

verus! {

/// The value that the part `[lo, hi)` of the header gives the parameter
/// `charset`, as a range of the header: the part is trimmed of blanks, and
/// what follows `charset=` in it is trimmed of double quotes. `None` where
/// the part is another parameter.
pub open spec fn charset_in_part(header: Seq<u8>, lo: int, hi: int) -> Option<(int, int)> {
    let start = front(header, lo, hi, Padding::Blank);
    let end = back(header, start, hi, Padding::Blank);
    let key = encode_utf8("charset="@);
    if start + key.len() <= end && reads_at(header, start, key) {
        let from = front(header, start + key.len(), end, Padding::Quote);
        Some((from, back(header, from, end, Padding::Quote)))
    } else {
        None
    }
}

/// The value of the first `charset` parameter among the parts of the
/// header from `pos` on, as a range of the header.
pub open spec fn charset_range(header: Seq<u8>, pos: int) -> Option<(int, int)>
    decreases header.len() - pos,
{
    if pos < 0 || pos > header.len() {
        None
    } else {
        let end = part_end(header, pos, 59);
        proof {
            lemma_part_end_bounds(header, pos, 59);
        }
        match charset_in_part(header, pos, end) {
            Some(range) => Some(range),
            None => if end < header.len() {
                charset_range(header, end + 1)
            } else {
                None
            },
        }
    }
}

/// What `charset_of` returns for a header with the given bytes.
pub open spec fn charset_text(header: Seq<u8>) -> Option<Seq<char>> {
    match charset_range(header, 0) {
        Some((from, to)) => if from < to {
            Some(utf8_lossy(header.subrange(from, to)))
        } else {
            None
        },
        None => None,
    }
}

/// The character encoding that a `Content-Type` header names.
///
/// The header is taken apart at its semicolons. The first part that, once
/// trimmed of blanks, begins with `charset=` in any case gives the value:
/// what follows, without the double quotes around it. There is no encoding
/// where no part is that parameter, or its value is empty.
pub fn charset_of(content_type: &str) -> (charset: Option<String>)
    ensures
        charset.deep_view() == charset_text(encode_utf8(content_type@)),
{
    let header = content_type.as_bytes();
    let key = "charset=".as_bytes();
    let mut pos: usize = 0;
    loop
        invariant
            pos <= header@.len(),
            header@ == encode_utf8(content_type@),
            key@ == encode_utf8("charset="@),
            charset_range(header@, pos as int) == charset_range(header@, 0),
        decreases header@.len() - pos,
    {
        let end = find_part_end(header, pos, 59);
        let start = trim_front(header, pos, end, Padding::Blank);
        let stop = trim_back(header, start, end, Padding::Blank);
        if key.len() <= stop - start && reads(header, start, key) {
            let from = trim_front(header, start + key.len(), stop, Padding::Quote);
            let to = trim_back(header, from, stop, Padding::Quote);
            if from < to {
                return Some(bytes_to_string(vstd::slice::slice_subrange(header, from, to)));
            }
            return None;
        }
        if end >= header.len() {
            return None;
        }
        pos = end + 1;
    }
}

} // verus!

//! The name of a source file without its directory and its extension.

use vstd::prelude::*;
use vstd::string::*;
use vstd::utf8::*;

use crate::scan::{find, has_match, is_first_match, is_last_match, rfind};

verus! {

/// The extension of a source file.
pub open spec fn extension() -> Seq<u8> {
    ".ddg".spec_bytes()
}

/// The mark between the directories of a path.
pub open spec fn slash() -> Seq<u8> {
    "/".spec_bytes()
}

/// Where the name without extension stands in a path: from behind the last
/// slash to the first extension, if the path has both in this order.
pub open spec fn name_span(path: Seq<u8>) -> Option<(int, int)> {
    if has_match(path, extension()) && has_match(path, slash()) {
        let end = choose|at: int| is_first_match(path, extension(), at);
        let start = (choose|at: int| is_last_match(path, slash(), at)) + 1;
        if start <= end {
            Some((start, end))
        } else {
            None
        }
    } else {
        None
    }
}

/// The name of the file of a path without its extension: what stands
/// between the last slash and the first `.ddg`. `None` where the path has no
/// slash or no `.ddg`, or where its first `.ddg` stands before its last
/// slash.
pub fn get_file_name(path: &str) -> (name: Option<&str>)
    ensures
        match name {
            Some(name) => name_span(path.spec_bytes()) matches Some(span)
                && name.spec_bytes() == path.spec_bytes().subrange(span.0, span.1),
            None => name_span(path.spec_bytes()) is None,
        },
{
    proof {
        reveal_strlit(".ddg");
        reveal_strlit("/");
        is_ascii_chars_encode_utf8(".ddg"@);
        is_ascii_chars_encode_utf8("/"@);
    }
    let bytes = path.as_bytes();
    let pos_end = match find(bytes, ".ddg".as_bytes()) {
        Some(pos) => pos,
        None => { return None; },
    };
    let pos_slash = match rfind(bytes, "/".as_bytes()) {
        Some(pos) => pos,
        None => { return None; },
    };
    assert(bytes@.subrange(pos_slash as int, pos_slash + 1)[0] == 0x2f);
    assert(bytes@.subrange(pos_end as int, pos_end + 4)[0] == 0x2e);
    if pos_slash > pos_end {
        return None;
    }
    proof {
        encode_utf8_valid_utf8(path@);
        is_char_boundary_iff_not_is_continuation_byte(bytes@, pos_slash as int);
    }
    let (_, tail) = path.split_at(pos_slash);
    proof {
        encode_utf8_valid_utf8(tail@);
        reveal_with_fuel(is_char_boundary, 2);
        reveal_with_fuel(valid_utf8, 2);
        assert(tail.spec_bytes()[0] == 0x2f);
        assert(length_of_first_scalar(tail.spec_bytes()) == 1);
    }
    let (_, rest) = tail.split_at(1);
    let len = pos_end - pos_slash - 1;
    proof {
        encode_utf8_valid_utf8(rest@);
        assert(rest.spec_bytes()[len as int] == 0x2e);
        is_char_boundary_iff_not_is_continuation_byte(rest.spec_bytes(), len as int);
    }
    let (name, _) = rest.split_at(len);
    assert(name.spec_bytes() =~= path.spec_bytes().subrange(pos_slash + 1, pos_end as int));
    Some(name)
}

} // verus!

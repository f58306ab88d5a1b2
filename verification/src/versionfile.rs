//! The plain-text version file editor: the version is the file's entire
//! first line; an edit replaces the whole file with the new value.

use vstd::prelude::*;
use vstd::utf8::{
    encode_utf8, is_char_boundary_iff_not_is_continuation_byte, is_continuation_byte,
    valid_utf8, valid_utf8_split,
};

use crate::bytes::{find_byte, spec_find, sub_bytes};
use crate::edit::{EditError, LineContext, SpecEditError};
use crate::strutil::{bytes_to_string, str_to_bytes};

verus! {

/// The first line of `text`: up to the first line feed, with a carriage
/// return stripped when that line feed follows one; `None` only for an
/// empty file.
pub open spec fn spec_first_line(text: Seq<u8>) -> Option<Seq<u8>> {
    if text.len() == 0 {
        None
    } else {
        let i = spec_find(text, 10);
        let line = text.take(i as int);
        if i < text.len() && line.len() > 0 && line.last() == 13 {
            Some(line.drop_last())
        } else {
            Some(line)
        }
    }
}

/// Update a plain text version file: the new content is the new version,
/// verbatim.
pub fn edit(new_version: &str) -> (r: Result<String, EditError>)
    ensures
        r matches Ok(s) && s@ == new_version@,
{
    Ok(String::from_str(new_version))
}

/// Query a plain text version file for a value: the first line, always
/// reported at line 1; an empty file is an error.
pub fn query(file_content: &str) -> (r: Result<LineContext, EditError>)
    ensures
        match r {
            Ok(lc) => spec_first_line(encode_utf8(file_content@)) == Some(
                encode_utf8(lc.value@),
            ) && lc.line_number == 1,
            Err(e) => e@ == SpecEditError::EmptyFile && encode_utf8(file_content@).len() == 0,
        },
{
    let text = str_to_bytes(file_content);
    if text.len() == 0 {
        return Err(EditError::EmptyFile);
    }
    proof {
        vstd::utf8::encode_utf8_valid_utf8(file_content@);
    }
    let upto = match find_byte(text.as_slice(), 10) {
        Some(i) => i,
        None => text.len(),
    };
    let ghost whole = text@;
    let ghost line0 = whole.take(upto as int);
    proof {
        crate::bytes::lemma_find_props(whole, 10);
        if upto < text.len() {
            assert(whole[upto as int] == 10);
            assert(!is_continuation_byte(10u8)) by (bit_vector);
            is_char_boundary_iff_not_is_continuation_byte(whole, upto as int);
            valid_utf8_split(whole, upto as int);
            assert(whole.subrange(0, upto as int) == line0);
        } else {
            assert(line0 =~= whole);
        }
        assert(valid_utf8(line0));
    }
    let line = if upto < text.len() && upto > 0 && text[upto - 1] == 13 {
        proof {
            assert(line0[upto - 1] == whole[upto - 1]);
            assert(!is_continuation_byte(13u8)) by (bit_vector);
            is_char_boundary_iff_not_is_continuation_byte(line0, upto - 1);
            valid_utf8_split(line0, upto - 1);
            assert(line0.subrange(0, upto - 1) =~= line0.drop_last());
        }
        let l = sub_bytes(text.as_slice(), 0, upto - 1);
        proof {
            assert(l@ =~= line0.subrange(0, upto - 1));
            assert(valid_utf8(l@));
        }
        l
    } else {
        let l = sub_bytes(text.as_slice(), 0, upto);
        proof {
            assert(l@ =~= line0);
            assert(valid_utf8(l@));
        }
        l
    };
    let value = match bytes_to_string(line) {
        Some(s) => s,
        None => {
            proof {
                assert(false);
            }
            String::new()
        },
    };
    Ok(LineContext { value, line_number: 1 })
}

} // verus!

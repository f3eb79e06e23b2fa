use vstd::prelude::*;
use crate::strings_util::{chars_to_string, str_to_chars};

verus! {

/// A character a meeting identifier may keep in a file name: ASCII letters
/// and digits, hyphen and underscore.
pub open spec fn keep_id_char(c: char) -> bool {
    ||| (0x30 <= c as u32 && c as u32 <= 0x39)  // '0'..='9'
    ||| (0x41 <= c as u32 && c as u32 <= 0x5a)  // 'A'..='Z'
    ||| (0x61 <= c as u32 && c as u32 <= 0x7a)  // 'a'..='z'
    ||| c as u32 == 0x2d  // '-'
    ||| c as u32 == 0x5f  // '_'
}

/// The identifier's characters with everything outside the kept set removed,
/// in their original order.
pub open spec fn sanitize_spec(s: Seq<char>) -> Seq<char>
    decreases s.len(),
{
    if s.len() == 0 {
        Seq::empty()
    } else if keep_id_char(s.last()) {
        sanitize_spec(s.drop_last()).push(s.last())
    } else {
        sanitize_spec(s.drop_last())
    }
}

fn is_keep_id_char(c: char) -> (r: bool)
    ensures
        r == keep_id_char(c),
{
    let u = c as u32;
    (0x30 <= u && u <= 0x39) || (0x41 <= u && u <= 0x5a) || (0x61 <= u && u <= 0x7a) || u == 0x2d
        || u == 0x5f
}

/// Strips a meeting identifier down to file-name-safe characters; an
/// identifier with nothing safe left becomes the fixed name "meeting".
pub fn sanitize_id(id: &str) -> (r: String)
    ensures
        sanitize_spec(id@).len() > 0 ==> r@ == sanitize_spec(id@),
        sanitize_spec(id@).len() == 0 ==> r@ == "meeting"@,
{
    let chars = str_to_chars(id);
    let mut kept: Vec<char> = Vec::new();
    let mut i: usize = 0;
    while i < chars.len()
        invariant
            i <= chars@.len(),
            chars@ == id@,
            kept@ == sanitize_spec(id@.take(i as int)),
        decreases chars@.len() - i,
    {
        proof {
            assert(id@.take(i + 1).drop_last() =~= id@.take(i as int));
            assert(id@.take(i + 1).last() == id@[i as int]);
        }
        if is_keep_id_char(chars[i]) {
            kept.push(chars[i]);
        }
        i = i + 1;
    }
    proof {
        assert(id@.take(i as int) =~= id@);
    }
    if kept.len() == 0 {
        "meeting".to_owned()
    } else {
        chars_to_string(kept.as_slice())
    }
}

/// The file name under which a meeting's audio is stored: the sanitized
/// identifier with a ".wav" extension.
pub fn meeting_audio_file_name(meeting_id: &str) -> (r: String)
    ensures
        sanitize_spec(meeting_id@).len() > 0 ==> r@ == sanitize_spec(meeting_id@) + ".wav"@,
        sanitize_spec(meeting_id@).len() == 0 ==> r@ == "meeting"@ + ".wav"@,
{
    let base = sanitize_id(meeting_id);
    let base_chars = str_to_chars(base.as_str());
    let ext = ".wav";
    let ext_chars = str_to_chars(ext);
    let mut all: Vec<char> = Vec::new();
    let mut i: usize = 0;
    while i < base_chars.len()
        invariant
            i <= base_chars@.len(),
            all@ == base_chars@.subrange(0, i as int),
        decreases base_chars@.len() - i,
    {
        all.push(base_chars[i]);
        proof {
            assert(base_chars@.subrange(0, i as int).push(base_chars@[i as int])
                =~= base_chars@.subrange(0, i + 1));
        }
        i = i + 1;
    }
    proof {
        assert(all@ =~= base_chars@);
    }
    let mut j: usize = 0;
    while j < ext_chars.len()
        invariant
            j <= ext_chars@.len(),
            all@ == base_chars@ + ext_chars@.subrange(0, j as int),
        decreases ext_chars@.len() - j,
    {
        all.push(ext_chars[j]);
        proof {
            assert((base_chars@ + ext_chars@.subrange(0, j as int)).push(ext_chars@[j as int])
                =~= base_chars@ + ext_chars@.subrange(0, j + 1));
        }
        j = j + 1;
    }
    proof {
        assert(base_chars@ + ext_chars@.subrange(0, j as int) =~= base_chars@ + ext_chars@);
    }
    chars_to_string(all.as_slice())
}

} // verus!

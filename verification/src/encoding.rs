use vstd::prelude::*;
use base64::Engine;

verus! {

/// The canonical, padded base64 text of a byte string, named so that contracts
/// can speak of it; the text itself is produced by the base64 crate.
pub uninterp spec fn base64_of(b: Seq<u8>) -> Seq<char>;

/// The characters the standard base64 alphabet (plus padding) can produce.
pub open spec fn is_base64_char(c: char) -> bool {
    ||| (0x41 <= c as u32 && c as u32 <= 0x5a)  // 'A'..='Z'
    ||| (0x61 <= c as u32 && c as u32 <= 0x7a)  // 'a'..='z'
    ||| (0x30 <= c as u32 && c as u32 <= 0x39)  // '0'..='9'
    ||| c as u32 == 0x2b  // '+'
    ||| c as u32 == 0x2f  // '/'
    ||| c as u32 == 0x3d  // '='
}

/// Relies on base64::engine::general_purpose::STANDARD.encode: the canonical,
/// padded base64 text of the bytes, a function of the bytes alone; four text
/// characters per three input bytes, all drawn from the standard alphabet.
#[verifier::external_body]
pub(crate) fn base64_encode(bytes: &[u8]) -> (r: String)
    ensures
        r@ == base64_of(bytes@),
        r@.len() == 4 * ((bytes@.len() + 2) / 3),
        forall|i: int| 0 <= i < r@.len() ==> is_base64_char(#[trigger] r@[i]),
{
    base64::engine::general_purpose::STANDARD.encode(bytes)
}

/// Relies on base64::engine::general_purpose::STANDARD.decode: the engine
/// requires canonical padding and rejects set trailing bits, so it succeeds
/// exactly on the canonical base64 text of some byte string, and then returns
/// that byte string.
#[verifier::external_body]
pub(crate) fn base64_decode(s: &str) -> (r: Result<Vec<u8>, String>)
    ensures
        r matches Ok(d) ==> s@ == base64_of(d@),
        r matches Ok(d) ==> forall|b: Seq<u8>| s@ == base64_of(b) ==> d@ == b,
        r is Ok <==> exists|b: Seq<u8>| s@ == base64_of(b),
{
    match base64::engine::general_purpose::STANDARD.decode(s) {
        Ok(v) => Ok(v),
        Err(e) => Err(e.to_string()),
    }
}

/// An ASCII whitespace character, the kind a text editor may add around the
/// stored secret text.
pub open spec fn is_ascii_space(c: char) -> bool {
    ||| c as u32 == 0x20
    ||| (0x09 <= c as u32 && c as u32 <= 0x0d)
}

/// The characters left after removing leading ASCII whitespace.
pub open spec fn trim_start_spec(s: Seq<char>) -> Seq<char>
    decreases s.len(),
{
    if s.len() > 0 && is_ascii_space(s[0]) {
        trim_start_spec(s.drop_first())
    } else {
        s
    }
}

/// The characters left after removing trailing ASCII whitespace.
pub open spec fn trim_end_spec(s: Seq<char>) -> Seq<char>
    decreases s.len(),
{
    if s.len() > 0 && is_ascii_space(s.last()) {
        trim_end_spec(s.drop_last())
    } else {
        s
    }
}

/// The characters left after removing leading and trailing ASCII whitespace.
pub open spec fn trim_spec(s: Seq<char>) -> Seq<char> {
    trim_end_spec(trim_start_spec(s))
}

fn is_space_char(c: char) -> (r: bool)
    ensures
        r == is_ascii_space(c),
{
    let u = c as u32;
    u == 0x20 || (0x09 <= u && u <= 0x0d)
}

/// Removes leading and trailing ASCII whitespace from a character sequence.
pub fn trim_chars(chars: &[char]) -> (r: Vec<char>)
    ensures
        r@ == trim_spec(chars@),
{
    let mut lo: usize = 0;
    proof {
        assert(chars@.skip(0) =~= chars@);
    }
    while lo < chars.len() && is_space_char(chars[lo])
        invariant
            lo <= chars@.len(),
            trim_start_spec(chars@) == trim_start_spec(chars@.skip(lo as int)),
        decreases chars@.len() - lo,
    {
        proof {
            assert(chars@.skip(lo as int).drop_first() =~= chars@.skip(lo + 1));
        }
        lo = lo + 1;
    }
    proof {
        assert(trim_start_spec(chars@) == chars@.skip(lo as int));
    }
    let ghost t = chars@.skip(lo as int);
    let mut hi: usize = chars.len();
    proof {
        assert(t.take(hi - lo) =~= t);
    }
    while hi > lo && is_space_char(chars[hi - 1])
        invariant
            lo <= hi <= chars@.len(),
            t == chars@.skip(lo as int),
            trim_end_spec(t) == trim_end_spec(t.take(hi - lo)),
        decreases hi,
    {
        proof {
            assert(t.take(hi - lo).last() == chars@[hi - 1]);
            assert(t.take(hi - lo).drop_last() =~= t.take(hi - 1 - lo));
        }
        hi = hi - 1;
    }
    proof {
        assert(trim_end_spec(t) == t.take(hi - lo));
    }
    let mut out: Vec<char> = Vec::new();
    let mut i: usize = lo;
    while i < hi
        invariant
            lo <= i <= hi <= chars@.len(),
            out@ == chars@.subrange(lo as int, i as int),
        decreases hi - i,
    {
        out.push(chars[i]);
        proof {
            assert(chars@.subrange(lo as int, i as int).push(chars@[i as int]) =~= chars@.subrange(
                lo as int,
                i + 1,
            ));
        }
        i = i + 1;
    }
    proof {
        assert(out@ =~= t.take(hi - lo));
    }
    out
}

} // verus!

//! File names as the engine stores them: bytes ended by a NUL terminator.
use vstd::prelude::*;
use vstd::utf8::{decode_utf8, valid_utf8};

verus! {

/// The bytes of a terminated name up to, not including, the first NUL byte;
/// all of them where no NUL occurs.
pub open spec fn before_nul(s: Seq<u8>) -> Seq<u8>
    decreases s.len(),
{
    if s.len() == 0 || s[0] == 0 {
        Seq::empty()
    } else {
        seq![s[0]] + before_nul(s.drop_first())
    }
}

/// The text that lossy UTF-8 decoding makes of a byte sequence.
pub uninterp spec fn utf8_lossy(b: Seq<u8>) -> Seq<char>;

/// Relies on `String::from_utf8_lossy`: valid UTF-8 is decoded as it is, and
/// each invalid sequence becomes U+FFFD; the result depends on the bytes alone.
#[verifier::external_body]
fn decode_lossy(b: &[u8]) -> (r: String)
    ensures
        r@ == utf8_lossy(b@),
        valid_utf8(b@) ==> r@ == decode_utf8(b@),
{
    String::from_utf8_lossy(b).into_owned()
}

proof fn lemma_before_nul(s: Seq<u8>, n: int)
    requires
        0 <= n <= s.len(),
        forall|j: int| 0 <= j < n ==> s[j] != 0,
        n == s.len() || s[n] == 0,
    ensures
        before_nul(s) == s.subrange(0, n),
    decreases n,
{
    if n > 0 {
        let t = s.drop_first();
        assert forall|j: int| 0 <= j < n - 1 implies t[j] != 0 by {
            assert(t[j] == s[j + 1]);
        }
        lemma_before_nul(t, n - 1);
        assert(s.subrange(0, n) == seq![s[0]] + t.subrange(0, n - 1));
    }
}

/// The bytes of a terminated name before its first NUL.
pub fn name_bytes(raw: &[u8]) -> (r: Vec<u8>)
    ensures
        r@ == before_nul(raw@),
{
    let mut out: Vec<u8> = Vec::new();
    let mut i: usize = 0;
    while i < raw.len() && raw[i] != 0
        invariant
            i <= raw@.len(),
            out@ == raw@.subrange(0, i as int),
            forall|j: int| 0 <= j < i ==> raw@[j] != 0,
        decreases raw@.len() - i,
    {
        out.push(raw[i]);
        assert(raw@.subrange(0, i + 1) == raw@.subrange(0, i as int).push(raw@[i as int]));
        i = i + 1;
    }
    proof {
        lemma_before_nul(raw@, i as int);
    }
    out
}

/// Decodes a terminated name into text, replacing what is not valid UTF-8
/// instead of failing.
pub fn decode_name(raw: &[u8]) -> (r: String)
    ensures
        r@ == utf8_lossy(before_nul(raw@)),
        valid_utf8(before_nul(raw@)) ==> r@ == decode_utf8(before_nul(raw@)),
{
    let bytes = name_bytes(raw);
    decode_lossy(bytes.as_slice())
}

} // verus!

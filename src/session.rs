use vstd::prelude::*;
use vstd::utf8::{decode_utf8, valid_utf8};

verus! {

/// The bytes before the first zero byte: the part of a read buffer that
/// holds a request, the rest being padding.
pub open spec fn until_nul(b: Seq<u8>) -> Seq<u8>
    decreases b.len(),
{
    if b.len() == 0 {
        b
    } else if b[0] == 0 {
        Seq::empty()
    } else {
        seq![b[0]] + until_nul(b.skip(1))
    }
}

/// Why a read buffer holds no request.
#[derive(Debug, Clone, Copy, PartialEq, Eq, Structural)]
pub enum SessionError {
    /// Nothing stands before the first zero byte.
    NoText,
    /// The bytes are not UTF-8 text.
    NotUtf8,
}

/// The request text that a read buffer carries, or why it carries none.
pub open spec fn frame_text_spec(b: Seq<u8>) -> Result<Seq<char>, SessionError> {
    let f = until_nul(b);
    if f.len() == 0 {
        Err(SessionError::NoText)
    } else if !valid_utf8(f) {
        Err(SessionError::NotUtf8)
    } else {
        Ok(decode_utf8(f))
    }
}

proof fn lemma_until_nul_prefix(b: Seq<u8>, i: int)
    requires
        0 <= i <= b.len(),
        forall|k: int| 0 <= k < i ==> b[k] != 0,
        i == b.len() || b[i] == 0,
    ensures
        until_nul(b) == b.take(i),
    decreases i,
{
    if i == 0 {
        assert(b.take(0) =~= Seq::<u8>::empty());
        if b.len() == 0 {
            assert(b =~= Seq::<u8>::empty());
        }
    } else {
        let t = b.skip(1);
        assert forall|k: int| 0 <= k < i - 1 implies t[k] != 0 by {
            assert(t[k] == b[k + 1]);
        }
        lemma_until_nul_prefix(t, i - 1);
        assert(b.take(i) =~= seq![b[0]] + t.take(i - 1));
    }
}

/// Relies on `String::from_utf8`: it succeeds exactly on valid UTF-8, and
/// then holds the decoded characters.
#[verifier::external_body]
fn utf8_text(b: Vec<u8>) -> (r: Option<String>)
    ensures
        r.is_some() == valid_utf8(b@),
        r matches Some(s) ==> s@ == decode_utf8(b@),
{
    String::from_utf8(b).ok()
}

/// The request text in a read buffer: the bytes before the first zero byte,
/// decoded as UTF-8.
pub fn frame_text(buf: &Vec<u8>) -> (r: Result<String, SessionError>)
    ensures
        match r {
            Ok(s) => frame_text_spec(buf@) == Ok::<Seq<char>, SessionError>(s@),
            Err(e) => frame_text_spec(buf@) == Err::<Seq<char>, SessionError>(e),
        },
{
    let mut bytes: Vec<u8> = Vec::new();
    let mut i: usize = 0;
    while i < buf.len() && buf[i] != 0
        invariant
            i <= buf@.len(),
            bytes@ == buf@.take(i as int),
            forall|k: int| 0 <= k < i ==> buf@[k] != 0,
        decreases buf@.len() - i,
    {
        bytes.push(buf[i]);
        i = i + 1;
        assert(bytes@ =~= buf@.take(i as int));
    }
    proof {
        lemma_until_nul_prefix(buf@, i as int);
    }
    if i == 0 {
        return Err(SessionError::NoText);
    }
    match utf8_text(bytes) {
        Some(s) => Ok(s),
        None => Err(SessionError::NotUtf8),
    }
}

} // verus!

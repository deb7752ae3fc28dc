//! Text marshaling: text crosses the boundary as bytes that end with a
//! terminator. Outgoing text is given its terminator here, and incoming
//! text is read up to its terminator and checked to be UTF-8.
use vstd::prelude::*;
use vstd::utf8::valid_utf8;

verus! {

/// The terminator of boundary text.
pub const NUL: u8 = 0;

/// `s` holds no terminator byte.
pub open spec fn nul_free(s: Seq<u8>) -> bool {
    forall|i: int| 0 <= i < s.len() ==> s[i] != NUL
}

/// The boundary form of `s`: the bytes of `s` followed by one terminator.
pub open spec fn c_text(s: Seq<u8>) -> Seq<u8> {
    s.push(NUL)
}

/// The text that a boundary buffer holds: everything before its first
/// terminator, or the whole buffer if it has none.
pub open spec fn text_before_nul(buf: Seq<u8>) -> Seq<u8>
    decreases buf.len(),
{
    if buf.len() == 0 || buf[0] == NUL {
        Seq::empty()
    } else {
        seq![buf[0]] + text_before_nul(buf.subrange(1, buf.len() as int))
    }
}

/// The continuation of the host that a bridge invokes, with what it
/// receives: a result on success, a text in boundary form on error.
#[derive(Debug, PartialEq, Eq)]
pub enum Continuation {
    Success(Vec<u8>),
    Error(Vec<u8>),
}

/// Why a buffer of the host is not a text.
#[derive(Clone, Copy, Debug, PartialEq, Eq, Structural)]
pub enum TextError {
    /// The buffer holds no terminator.
    Unterminated,
    /// The bytes before the terminator are not well-formed UTF-8.
    NotUtf8,
}

/// Whether the bytes are well-formed UTF-8.
///
/// Calls `core::str::from_utf8`, which is documented to succeed on exactly
/// the byte slices that are valid UTF-8. The contract takes that on trust.
#[verifier::external_body]
fn is_utf8(bytes: &[u8]) -> (ok: bool)
    ensures
        ok == valid_utf8(bytes@),
{
    core::str::from_utf8(bytes).is_ok()
}

/// Where the first terminator stands, the text before it is what stands
/// before it.
proof fn lemma_text_before_first_nul(buf: Seq<u8>, n: int)
    requires
        0 <= n < buf.len(),
        buf[n] == NUL,
        forall|j: int| 0 <= j < n ==> buf[j] != NUL,
    ensures
        text_before_nul(buf) == buf.subrange(0, n),
    decreases n,
{
    if n == 0 {
        assert(buf.subrange(0, 0) =~= Seq::<u8>::empty());
    } else {
        let rest = buf.subrange(1, buf.len() as int);
        assert forall|j: int| 0 <= j < n - 1 implies rest[j] != NUL by {
            assert(rest[j] == buf[j + 1]);
        }
        lemma_text_before_first_nul(rest, n - 1);
        assert(seq![buf[0]] + rest.subrange(0, n - 1) =~= buf.subrange(0, n));
    }
}

/// Reads a text that the host handed over in boundary form: the bytes
/// before the first terminator. A buffer without a terminator is no text,
/// and bytes that are not well-formed UTF-8 are rejected here, before
/// anything is done with them.
pub fn input_text(buf: &[u8]) -> (out: Result<&[u8], TextError>)
    ensures
        nul_free(buf@) ==> out == Err::<&[u8], TextError>(TextError::Unterminated),
        !nul_free(buf@) && !valid_utf8(text_before_nul(buf@)) ==> out == Err::<&[u8], TextError>(
            TextError::NotUtf8,
        ),
        !nul_free(buf@) && valid_utf8(text_before_nul(buf@)) ==> (out matches Ok(text) && text@
            == text_before_nul(buf@)),
        out matches Ok(text) ==> nul_free(text@),
{
    let mut n: usize = 0;
    while n < buf.len() && buf[n] != NUL
        invariant
            n <= buf.len(),
            forall|j: int| 0 <= j < n ==> buf@[j] != NUL,
        decreases buf.len() - n,
    {
        n += 1;
    }
    if n == buf.len() {
        return Err(TextError::Unterminated);
    }
    proof {
        lemma_text_before_first_nul(buf@, n as int);
    }
    let text = &buf[0..n];
    if is_utf8(text) {
        Ok(text)
    } else {
        Err(TextError::NotUtf8)
    }
}

/// Whether `s` can cross the boundary, that is whether it holds no
/// terminator byte.
pub fn is_nul_free(s: &[u8]) -> (ok: bool)
    ensures
        ok == nul_free(s@),
{
    let mut i: usize = 0;
    while i < s.len()
        invariant
            i <= s.len(),
            forall|j: int| 0 <= j < i ==> s@[j] != NUL,
        decreases s.len() - i,
    {
        if s[i] == NUL {
            return false;
        }
        i += 1;
    }
    true
}

/// Converts owned text into its boundary form, ready to be handed to a
/// continuation of the host.
pub fn string_callback(s: Vec<u8>) -> (out: Vec<u8>)
    requires
        nul_free(s@),
    ensures
        out@ == c_text(s@),
{
    let mut out = s;
    out.push(NUL);
    out
}

/// Reading the boundary form back gives the text that went in.
pub proof fn lemma_c_text_round_trip(s: Seq<u8>)
    requires
        nul_free(s),
    ensures
        text_before_nul(c_text(s)) == s,
    decreases s.len(),
{
    let buf = c_text(s);
    if s.len() == 0 {
        assert(buf[0] == NUL);
    } else {
        let rest = s.subrange(1, s.len() as int);
        assert(buf.subrange(1, buf.len() as int) =~= c_text(rest));
        lemma_c_text_round_trip(rest);
        assert(seq![s[0]] + rest =~= s);
    }
}

} // verus!

//! The columnar stream bridge: a stream handle is made from a serialized
//! buffer (the producer), or drained into one (the consumer).
//!
//! Decoding and encoding are the work of the columnar engine. The bridge
//! decides where their results go.
use vstd::prelude::*;
use crate::text::{c_text, nul_free, string_callback, Continuation};

verus! {

/// Hands a decoded stream to the host. A stream that was decoded is written
/// into the host's storage, and no continuation is invoked. Where decoding
/// failed, the storage is left as it was and the cause goes to the error
/// continuation, in boundary form.
pub fn endb_arrow_array_stream_producer<S>(stream: &mut S, decoded: Result<S, Vec<u8>>) -> (error:
    Option<Vec<u8>>)
    requires
        decoded matches Err(cause) ==> nul_free(cause@),
    ensures
        decoded matches Ok(exported) ==> *final(stream) == exported && error is None,
        decoded matches Err(cause) ==> *final(stream) == *old(stream) && (error matches Some(text)
            && text@ == c_text(cause@)),
{
    match decoded {
        Ok(exported) => {
            *stream = exported;
            None
        },
        Err(cause) => Some(string_callback(cause)),
    }
}

/// Hands the encoding of a drained stream to the host. The stream was
/// either drained and encoded as a whole, and the success continuation
/// receives the whole buffer as it is; or a pull or the encoding failed,
/// and the error continuation receives the cause in boundary form. There is
/// no partial buffer.
pub fn endb_arrow_array_stream_consumer(encoded: Result<Vec<u8>, Vec<u8>>) -> (call: Continuation)
    requires
        encoded matches Err(cause) ==> nul_free(cause@),
    ensures
        encoded matches Ok(buffer) ==> call == Continuation::Success(buffer),
        encoded matches Err(cause) ==> (call matches Continuation::Error(text) && text@ == c_text(
            cause@,
        )),
{
    match encoded {
        Ok(buffer) => Continuation::Success(buffer),
        Err(cause) => Continuation::Error(string_callback(cause)),
    }
}

} // verus!

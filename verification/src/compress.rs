//! The compressor that archives are streamed through.
//!
//! The encoder writes into a `Vec` and touches nothing else, so that what a
//! call on it gives depends on the encoder and the bytes it is given alone.
//! Each such result has a name here, and the contracts of a rotation are
//! stated over the names. What the compressed bytes are is flate2's matter
//! and is not said.

use vstd::prelude::*;

verus! {

/// A streaming gzip encoder: flate2's `GzEncoder`, which writes into a
/// `Vec`. What it holds is not looked into.
#[verifier::external_body]
pub struct Compressor {
    encoder: flate2::write::GzEncoder<Vec<u8>>,
}

/// The bytes that an encoder has been given to compress, in the order in
/// which it was given them.
pub uninterp spec fn consumed(compressor: Compressor) -> Seq<u8>;

/// The compressed bytes that stand in the encoder's `Vec`: what it has put
/// out and what has not been taken from it.
pub uninterp spec fn held(compressor: Compressor) -> Seq<u8>;

/// Whether the encoder takes `chunk` when it is given it.
pub uninterp spec fn takes(compressor: Compressor, chunk: Seq<u8>) -> bool;

/// The compressed bytes that stand in the encoder's `Vec` once it has taken
/// `chunk`.
pub uninterp spec fn held_after(compressor: Compressor, chunk: Seq<u8>) -> Seq<u8>;

/// Whether the encoder can end its stream.
pub uninterp spec fn ends(compressor: Compressor) -> bool;

/// The compressed bytes that the encoder gives when it ends its stream:
/// what stood in its `Vec`, and the end of the stream.
pub uninterp spec fn closing(compressor: Compressor) -> Seq<u8>;

/// An encoder that has been given nothing yet. This is
/// `GzEncoder::new` over an empty `Vec`, at `Compression::fast`.
#[verifier::external_body]
pub(crate) fn encoder_new() -> (compressor: Compressor)
    ensures
        consumed(compressor) == Seq::<u8>::empty(),
{
    Compressor {
        encoder: flate2::write::GzEncoder::new(Vec::new(), flate2::Compression::fast()),
    }
}

/// Gives the encoder `chunk` to compress, with `Write::write_all`, and says
/// whether the encoder took it, which is `takes` of the encoder and the
/// chunk. Where it did, it has consumed all of `chunk`, after what it had
/// consumed before, and its `Vec` holds `held_after`; where it did not,
/// nothing is claimed of it.
#[verifier::external_body]
pub(crate) fn encoder_write_all(compressor: &mut Compressor, chunk: &[u8]) -> (taken: bool)
    ensures
        taken == takes(*old(compressor), chunk@),
        taken ==> consumed(*final(compressor)) == consumed(*old(compressor)) + chunk@,
        taken ==> held(*final(compressor)) == held_after(*old(compressor), chunk@),
{
    std::io::Write::write_all(&mut compressor.encoder, chunk).is_ok()
}

/// Takes out the compressed bytes that stand in the encoder's `Vec`, with
/// `std::mem::take` on `GzEncoder::get_mut`, which leaves the `Vec` empty.
/// The result is what the `Vec` held. What the encoder has consumed is as
/// before.
#[verifier::external_body]
pub(crate) fn encoder_take_output(compressor: &mut Compressor) -> (output: Vec<u8>)
    ensures
        output@ == held(*old(compressor)),
        consumed(*final(compressor)) == consumed(*old(compressor)),
{
    std::mem::take(compressor.encoder.get_mut())
}

/// Ends the stream with `GzEncoder::finish`, which succeeds exactly where
/// the encoder `ends`, and then gives `closing`: the compressed bytes that
/// were not taken out before, with the stream's end. The result is `None`
/// where the encoder could not end the stream.
#[verifier::external_body]
pub(crate) fn encoder_finish(compressor: Compressor) -> (output: Option<Vec<u8>>)
    ensures
        output is Some <==> ends(compressor),
        output matches Some(out) ==> out@ == closing(compressor),
{
    compressor.encoder.finish().ok()
}

} // verus!

//! Payload encoding for the multimodal whole-video path: the compressed
//! video is base64-encoded and embedded in the request as a data URL.

use vstd::prelude::*;

use base64::Engine;

verus! {

/// The standard (padded) base64 rendering of a byte sequence.  A pure
/// function of the bytes alone.
pub uninterp spec fn base64_of(bytes: Seq<u8>) -> Seq<char>;

/// Relies on `base64::engine::general_purpose::STANDARD.encode`: the
/// padded standard alphabet renders every three bytes (rounded up) as four
/// characters, and the result depends on the bytes alone.
#[verifier::external_body]
fn b64_encode(bytes: &Vec<u8>) -> (r: String)
    requires
        bytes@.len() < 0x4000_0000_0000_0000,
    ensures
        r@ == base64_of(bytes@),
        r@.len() == 4 * ((bytes@.len() + 2) / 3),
{
    base64::engine::general_purpose::STANDARD.encode(bytes.as_slice())
}

/// The base64 rendering of a payload, for embedding in a request body.
pub fn encode_payload(bytes: &Vec<u8>) -> (r: String)
    requires
        bytes@.len() < 0x4000_0000_0000_0000,
    ensures
        r@ == base64_of(bytes@),
        r@.len() == 4 * ((bytes@.len() + 2) / 3),
{
    b64_encode(bytes)
}

/// The data URL embedding a video of the given container format.
pub open spec fn video_data_url_spec(ext: Seq<char>, bytes: Seq<u8>) -> Seq<char> {
    "data:video/"@ + ext + ";base64,"@ + base64_of(bytes)
}

/// Build the data URL that carries the compressed video inline.
pub fn video_data_url(ext: &str, video_bytes: &Vec<u8>) -> (r: String)
    requires
        video_bytes@.len() < 0x4000_0000_0000_0000,
    ensures
        r@ == video_data_url_spec(ext@, video_bytes@),
{
    let mut out: String = String::from_str("data:video/");
    out.append(ext);
    out.append(";base64,");
    let b: String = b64_encode(video_bytes);
    out.append(b.as_str());
    proof {
        assert(out@ =~= video_data_url_spec(ext@, video_bytes@));
    }
    out
}

} // verus!

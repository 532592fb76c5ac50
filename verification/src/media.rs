//! Media assets: the requests that attach images and the data handed back.

use vstd::prelude::*;

verus! {

#[derive(Debug, Clone)]
pub struct SetMediaInput {
    pub id: String,
    pub path: String,
}

#[derive(Debug, Clone)]
pub struct GetMediaInput {
    pub asset_id: String,
}

#[derive(Debug, Clone)]
pub struct MediaAssetDto {
    pub mime_type: String,
    pub data: String,
}

/// The text `base64`'s standard engine (with padding) writes for bytes.
pub uninterp spec fn standard_base64_text(bytes: Seq<u8>) -> Seq<char>;

/// `STANDARD.encode(bytes)`; the engine panics when the encoded length
/// overflows, which `requires` leaves out.
#[verifier::external_body]
fn encode_standard(bytes: &[u8]) -> (text: String)
    requires
        bytes@.len() <= usize::MAX / 2,
    ensures
        text@ == standard_base64_text(bytes@),
{
    ::base64::Engine::encode(&::base64::engine::general_purpose::STANDARD, bytes)
}

/// A stored picture as the interface receives it: its media type and its
/// bytes as standard base64 text.
pub fn media_asset_dto(mime_type: String, data: &[u8]) -> (dto: MediaAssetDto)
    requires
        data@.len() <= usize::MAX / 2,
    ensures
        dto.mime_type == mime_type,
        dto.data@ == standard_base64_text(data@),
{
    MediaAssetDto { mime_type, data: encode_standard(data) }
}

} // verus!

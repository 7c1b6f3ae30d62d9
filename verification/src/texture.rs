//! Texture assets.
//!
//! A texture asset carries its pixel format and dimensions; packing one
//! records those as the asset file's metadata, in the same canonical
//! textual form the asset file itself uses.

use vstd::prelude::*;

use crate::asset::current_version;
use crate::asset::AssetError;
use crate::asset::AssetFile;
use crate::asset::AssetType;
use crate::asset::CompressionMode;
use crate::asset::Packaging;
use crate::codec::append_bytes;
use crate::codec::dec_bytes;
use crate::codec::push_dec_u32;

verus! {

/// The pixel format of a texture.
#[derive(Clone, Copy, Debug, PartialEq, Eq, Structural)]
pub enum TextureFormat {
    RGBA8,
    RGB8,
    Unknown,
}

/// A texture's description: format and dimensions in pixels.
#[derive(Clone, Copy, Debug, PartialEq, Eq, Structural)]
pub struct TextureAsset {
    pub texture_format: TextureFormat,
    pub width: u32,
    pub height: u32,
}

/// The variant name under which a texture format is encoded.
pub open spec fn texture_format_bytes(f: TextureFormat) -> Seq<u8> {
    match f {
        TextureFormat::RGBA8 => seq![82u8, 71u8, 66u8, 65u8, 56u8],
        TextureFormat::RGB8 => seq![82u8, 71u8, 66u8, 56u8],
        TextureFormat::Unknown => seq![85u8, 110u8, 107u8, 110u8, 111u8, 119u8, 110u8],
    }
}

/// The field header "(texture_format:".
pub open spec fn lit_texture_format_spec() -> Seq<u8> {
    seq![
        40u8, 116u8, 101u8, 120u8, 116u8, 117u8, 114u8, 101u8, 95u8, 102u8, 111u8, 114u8, 109u8,
        97u8, 116u8, 58u8,
    ]
}

/// The field header ",width:".
pub open spec fn lit_width_spec() -> Seq<u8> {
    seq![44u8, 119u8, 105u8, 100u8, 116u8, 104u8, 58u8]
}

/// The field header ",height:".
pub open spec fn lit_height_spec() -> Seq<u8> {
    seq![44u8, 104u8, 101u8, 105u8, 103u8, 104u8, 116u8, 58u8]
}

/// The canonical textual encoding of a texture description, stored as
/// the packed asset's metadata.
pub open spec fn texture_metadata_spec(t: TextureAsset) -> Seq<u8> {
    lit_texture_format_spec() + texture_format_bytes(t.texture_format) + lit_width_spec()
        + dec_bytes(t.width as nat) + lit_height_spec() + dec_bytes(t.height as nat) + seq![41u8]
}

impl TextureAsset {
    /// A texture description with the given format and dimensions.
    pub fn new(texture_format: TextureFormat, width: u32, height: u32) -> (r: Self)
        ensures
            r.texture_format == texture_format,
            r.width == width,
            r.height == height,
    {
        Self { texture_format, width, height }
    }

    /// The canonical metadata bytes of this texture description.
    pub fn metadata_bytes(&self) -> (r: Vec<u8>)
        ensures
            r@ == texture_metadata_spec(*self),
    {
        let mut out: Vec<u8> = Vec::new();
        let header: Vec<u8> = vec![
            40u8,
            116,
            101,
            120,
            116,
            117,
            114,
            101,
            95,
            102,
            111,
            114,
            109,
            97,
            116,
            58,
        ];
        assert(header@ =~= lit_texture_format_spec());
        append_bytes(&mut out, &header);
        match self.texture_format {
            TextureFormat::RGBA8 => {
                let v: Vec<u8> = vec![82u8, 71, 66, 65, 56];
                assert(v@ =~= texture_format_bytes(TextureFormat::RGBA8));
                append_bytes(&mut out, &v);
            },
            TextureFormat::RGB8 => {
                let v: Vec<u8> = vec![82u8, 71, 66, 56];
                assert(v@ =~= texture_format_bytes(TextureFormat::RGB8));
                append_bytes(&mut out, &v);
            },
            TextureFormat::Unknown => {
                let v: Vec<u8> = vec![85u8, 110, 107, 110, 111, 119, 110];
                assert(v@ =~= texture_format_bytes(TextureFormat::Unknown));
                append_bytes(&mut out, &v);
            },
        }
        let width_header: Vec<u8> = vec![44u8, 119, 105, 100, 116, 104, 58];
        assert(width_header@ =~= lit_width_spec());
        append_bytes(&mut out, &width_header);
        push_dec_u32(&mut out, self.width);
        let height_header: Vec<u8> = vec![44u8, 104, 101, 105, 103, 104, 116, 58];
        assert(height_header@ =~= lit_height_spec());
        append_bytes(&mut out, &height_header);
        push_dec_u32(&mut out, self.height);
        out.push(41);
        assert(out@ =~= texture_metadata_spec(*self));
        out
    }
}

impl Packaging for TextureAsset {
    /// Packs raw texture content: the asset carries the given identity,
    /// compression mode and raw data, the current version, the texture
    /// kind, and this description's canonical metadata. Packing a
    /// texture never fails.
    fn pack(
        &self,
        name: &Vec<u8>,
        path: &Vec<u8>,
        raw_data: Vec<u8>,
        compression_mode: CompressionMode,
    ) -> (r: Result<AssetFile, AssetError>)
        ensures
            r is Ok,
            r matches Ok(a) ==> a.asset_type == AssetType::Texture && a.metadata@
                == texture_metadata_spec(*self),
    {
        let metadata = self.metadata_bytes();
        let owned_name = name.clone();
        assert(owned_name@ == name@);
        let owned_path = path.clone();
        assert(owned_path@ == path@);
        Ok(
            AssetFile {
                name: owned_name,
                path: owned_path,
                asset_type: AssetType::Texture,
                compression_mode,
                version: current_version(),
                metadata,
                raw_data,
            },
        )
    }
}

} // verus!

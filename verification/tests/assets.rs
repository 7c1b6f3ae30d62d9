use rurity::asset::AssetError;
use rurity::asset::AssetFile;
use rurity::asset::AssetType;
use rurity::asset::CompressionMode;
use rurity::texture::TextureAsset;
use rurity::texture::TextureFormat;

fn sample_asset() -> AssetFile {
    AssetFile {
        name: b"asset_file".to_vec(),
        path: b"src/test_asset_files/asset_file.bin".to_vec(),
        asset_type: AssetType::Mesh,
        compression_mode: CompressionMode::VeryHighCompression,
        version: b"0.1.0".to_vec(),
        metadata: b"HI".to_vec(),
        raw_data: vec![1, 2, 3],
    }
}

const SAMPLE_ENCODING: &str = "(name:\"asset_file\",path:\"src/test_asset_files/asset_file.bin\",asset_type:Mesh,compression_mode:VeryHighCompression,version:\"0.1.0\",metadata:\"HI\",raw_data:[1,2,3])";

#[test]
fn encoding_matches_the_canonical_text() {
    let encoded = sample_asset().encode_ron();
    assert_eq!(encoded, SAMPLE_ENCODING.as_bytes().to_vec());
}

#[test]
fn decoding_inverts_encoding() {
    let original = sample_asset();
    let decoded = AssetFile::decode_ron(&original.encode_ron()).unwrap();
    assert_eq!(decoded.name, original.name);
    assert_eq!(decoded.path, original.path);
    assert_eq!(decoded.asset_type, original.asset_type);
    assert_eq!(decoded.compression_mode, original.compression_mode);
    assert_eq!(decoded.version, original.version);
    assert_eq!(decoded.metadata, original.metadata);
    assert_eq!(decoded.raw_data, original.raw_data);
}

#[test]
fn decoding_handles_escapes_and_empty_data() {
    let tricky = AssetFile {
        name: b"quote \" and backslash \\ inside".to_vec(),
        path: Vec::new(),
        asset_type: AssetType::Texture,
        compression_mode: CompressionMode::Fast,
        version: b"0.1.0".to_vec(),
        metadata: Vec::new(),
        raw_data: Vec::new(),
    };
    let decoded = AssetFile::decode_ron(&tricky.encode_ron()).unwrap();
    assert_eq!(decoded.name, tricky.name);
    assert_eq!(decoded.path, tricky.path);
    assert_eq!(decoded.raw_data, tricky.raw_data);
}

#[test]
fn decoding_rejects_trailing_bytes() {
    let mut bytes = sample_asset().encode_ron();
    bytes.push(b' ');
    assert!(AssetFile::decode_ron(&bytes).is_none());
}

#[test]
fn decoding_rejects_garbage() {
    assert!(AssetFile::decode_ron(&b"not an asset".to_vec()).is_none());
    assert!(AssetFile::decode_ron(&Vec::new()).is_none());
}

#[test]
fn storage_round_trip_preserves_the_record() {
    let original = sample_asset();
    let stored = original.to_storage_bytes().unwrap();
    assert_ne!(stored, original.encode_ron());
    let loaded = AssetFile::from_storage_bytes(&stored).unwrap();
    assert_eq!(loaded.name, original.name);
    assert_eq!(loaded.path, original.path);
    assert_eq!(loaded.asset_type, original.asset_type);
    assert_eq!(loaded.compression_mode, original.compression_mode);
    assert_eq!(loaded.version, original.version);
    assert_eq!(loaded.metadata, original.metadata);
    assert_eq!(loaded.raw_data, original.raw_data);
}

#[test]
fn loading_rejects_bytes_that_are_no_frame() {
    let e = AssetFile::from_storage_bytes(&b"definitely not lz4".to_vec()).unwrap_err();
    assert_eq!(e, AssetError::Compression);
}

#[test]
fn compression_levels_match_the_modes() {
    assert_eq!(CompressionMode::Default.level(), 4);
    assert_eq!(CompressionMode::Fast.level(), 2);
    assert_eq!(CompressionMode::HighCompression.level(), 7);
    assert_eq!(CompressionMode::VeryHighCompression.level(), 9);
}

#[test]
fn texture_metadata_is_canonical() {
    let texture = TextureAsset::new(TextureFormat::RGBA8, 800, 600);
    assert_eq!(
        texture.metadata_bytes(),
        b"(texture_format:RGBA8,width:800,height:600)".to_vec()
    );
}

#[test]
fn packing_a_texture_fills_the_record() {
    let texture = TextureAsset::new(TextureFormat::RGB8, 16, 32);
    let asset = AssetFile::new(
        texture,
        &b"bricks".to_vec(),
        &b"assets/bricks.bin".to_vec(),
        vec![9, 9, 9],
        CompressionMode::Default,
    )
    .unwrap();
    assert_eq!(asset.name, b"bricks".to_vec());
    assert_eq!(asset.path, b"assets/bricks.bin".to_vec());
    assert_eq!(asset.asset_type, AssetType::Texture);
    assert_eq!(asset.compression_mode, CompressionMode::Default);
    assert_eq!(asset.version, b"0.1.0".to_vec());
    assert_eq!(asset.metadata, b"(texture_format:RGB8,width:16,height:32)".to_vec());
    assert_eq!(asset.raw_data, vec![9, 9, 9]);
}

#[test]
fn packed_texture_survives_storage() {
    let texture = TextureAsset::new(TextureFormat::Unknown, 1, 1);
    let asset = AssetFile::new(
        texture,
        &b"t".to_vec(),
        &b"t.bin".to_vec(),
        vec![255, 0, 127],
        CompressionMode::HighCompression,
    )
    .unwrap();
    let loaded = AssetFile::from_storage_bytes(&asset.to_storage_bytes().unwrap()).unwrap();
    assert_eq!(loaded.metadata, b"(texture_format:Unknown,width:1,height:1)".to_vec());
    assert_eq!(loaded.raw_data, vec![255, 0, 127]);
}

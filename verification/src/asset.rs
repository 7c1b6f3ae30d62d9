//! Asset files: packing, canonical encoding, and compressed storage.
//!
//! An asset file is a record of plain values. Its on-disk form is the
//! canonical textual encoding of the record, compressed as one lz4
//! frame; the compression level comes from the record's compression
//! mode. Reading storage reverses both steps and accepts only bytes
//! whose decompressed content is a canonical encoding.

use vstd::prelude::*;

use crate::codec::append_bytes;
use crate::codec::parse_lit;
use crate::codec::parse_quoted;
use crate::codec::parse_u8_list_body;
use crate::codec::lemma_concat_join;
use crate::codec::list_encoded_at;
use crate::codec::push_quoted;
use crate::codec::push_u8_list_body;
use crate::codec::quote_bytes;
use crate::codec::quoted_len;
use crate::codec::str_encoded_at;
use crate::codec::u8_list_body;

verus! {

/// What can go wrong while packing, storing or loading an asset file.
#[derive(Clone, Copy, Debug, PartialEq, Eq, Structural)]
pub enum AssetError {
    /// Compressing or decompressing the storage bytes failed.
    Compression,
    /// The decompressed bytes are not a canonical asset encoding.
    InvalidEncoding,
}

/// How an asset's raw data is compressed; each mode fixes a compression
/// level.
#[derive(Clone, Copy, Debug, PartialEq, Eq, Structural)]
pub enum CompressionMode {
    Default,
    Fast,
    HighCompression,
    VeryHighCompression,
}

/// The compression level each mode stands for.
pub open spec fn compression_level_spec(m: CompressionMode) -> u32 {
    match m {
        CompressionMode::Default => 4,
        CompressionMode::Fast => 2,
        CompressionMode::HighCompression => 7,
        CompressionMode::VeryHighCompression => 9,
    }
}

impl CompressionMode {
    /// The compression level this mode stands for.
    pub fn level(&self) -> (r: u32)
        ensures
            r == compression_level_spec(*self),
    {
        match self {
            CompressionMode::Default => 4,
            CompressionMode::Fast => 2,
            CompressionMode::HighCompression => 7,
            CompressionMode::VeryHighCompression => 9,
        }
    }
}

/// What kind of content an asset file holds.
#[derive(Clone, Copy, Debug, PartialEq, Eq, Structural)]
pub enum AssetType {
    Mesh,
    Texture,
}

/// The variant name under which an asset type is encoded.
pub open spec fn asset_type_bytes(t: AssetType) -> Seq<u8> {
    match t {
        AssetType::Mesh => seq![77u8, 101u8, 115u8, 104u8],
        AssetType::Texture => seq![84u8, 101u8, 120u8, 116u8, 117u8, 114u8, 101u8],
    }
}

/// The variant name under which a compression mode is encoded.
pub open spec fn compression_mode_bytes(m: CompressionMode) -> Seq<u8> {
    match m {
        CompressionMode::Default => seq![68u8, 101u8, 102u8, 97u8, 117u8, 108u8, 116u8],
        CompressionMode::Fast => seq![70u8, 97u8, 115u8, 116u8],
        CompressionMode::HighCompression => seq![
            72u8, 105u8, 103u8, 104u8, 67u8, 111u8, 109u8, 112u8, 114u8, 101u8, 115u8, 115u8,
            105u8, 111u8, 110u8,
        ],
        CompressionMode::VeryHighCompression => seq![
            86u8, 101u8, 114u8, 121u8, 72u8, 105u8, 103u8, 104u8, 67u8, 111u8, 109u8, 112u8,
            114u8, 101u8, 115u8, 115u8, 105u8, 111u8, 110u8,
        ],
    }
}

/// The current asset-system version, "0.1.0".
pub open spec fn version_bytes() -> Seq<u8> {
    seq![48u8, 46u8, 49u8, 46u8, 48u8]
}

/// The current asset-system version, "0.1.0".
pub fn current_version() -> (r: Vec<u8>)
    ensures
        r@ == version_bytes(),
{
    let r: Vec<u8> = vec![48u8, 46, 49, 46, 48];
    assert(r@ =~= version_bytes());
    r
}

/// The field header "(name:".
pub open spec fn lit_name_spec() -> Seq<u8> {
    seq![40u8, 110u8, 97u8, 109u8, 101u8, 58u8]
}

/// The field header ",path:".
pub open spec fn lit_path_spec() -> Seq<u8> {
    seq![44u8, 112u8, 97u8, 116u8, 104u8, 58u8]
}

/// The field header ",asset_type:".
pub open spec fn lit_asset_type_spec() -> Seq<u8> {
    seq![44u8, 97u8, 115u8, 115u8, 101u8, 116u8, 95u8, 116u8, 121u8, 112u8, 101u8, 58u8]
}

/// The field header ",compression_mode:".
pub open spec fn lit_compression_spec() -> Seq<u8> {
    seq![
        44u8, 99u8, 111u8, 109u8, 112u8, 114u8, 101u8, 115u8, 115u8, 105u8, 111u8, 110u8, 95u8,
        109u8, 111u8, 100u8, 101u8, 58u8,
    ]
}

/// The field header ",version:".
pub open spec fn lit_version_spec() -> Seq<u8> {
    seq![44u8, 118u8, 101u8, 114u8, 115u8, 105u8, 111u8, 110u8, 58u8]
}

/// The field header ",metadata:".
pub open spec fn lit_metadata_spec() -> Seq<u8> {
    seq![44u8, 109u8, 101u8, 116u8, 97u8, 100u8, 97u8, 116u8, 97u8, 58u8]
}

/// The field header ",raw_data:[".
pub open spec fn lit_raw_data_spec() -> Seq<u8> {
    seq![44u8, 114u8, 97u8, 119u8, 95u8, 100u8, 97u8, 116u8, 97u8, 58u8, 91u8]
}

/// The closing "])".
pub open spec fn lit_close_spec() -> Seq<u8> {
    seq![93u8, 41u8]
}

fn lit_name_vec() -> (r: Vec<u8>)
    ensures
        r@ == lit_name_spec(),
{
    let r: Vec<u8> = vec![40u8, 110, 97, 109, 101, 58];
    assert(r@ =~= lit_name_spec());
    r
}

fn lit_path_vec() -> (r: Vec<u8>)
    ensures
        r@ == lit_path_spec(),
{
    let r: Vec<u8> = vec![44u8, 112, 97, 116, 104, 58];
    assert(r@ =~= lit_path_spec());
    r
}

fn lit_asset_type_vec() -> (r: Vec<u8>)
    ensures
        r@ == lit_asset_type_spec(),
{
    let r: Vec<u8> = vec![44u8, 97, 115, 115, 101, 116, 95, 116, 121, 112, 101, 58];
    assert(r@ =~= lit_asset_type_spec());
    r
}

fn lit_compression_vec() -> (r: Vec<u8>)
    ensures
        r@ == lit_compression_spec(),
{
    let r: Vec<u8> = vec![
        44u8,
        99,
        111,
        109,
        112,
        114,
        101,
        115,
        115,
        105,
        111,
        110,
        95,
        109,
        111,
        100,
        101,
        58,
    ];
    assert(r@ =~= lit_compression_spec());
    r
}

fn lit_version_vec() -> (r: Vec<u8>)
    ensures
        r@ == lit_version_spec(),
{
    let r: Vec<u8> = vec![44u8, 118, 101, 114, 115, 105, 111, 110, 58];
    assert(r@ =~= lit_version_spec());
    r
}

fn lit_metadata_vec() -> (r: Vec<u8>)
    ensures
        r@ == lit_metadata_spec(),
{
    let r: Vec<u8> = vec![44u8, 109, 101, 116, 97, 100, 97, 116, 97, 58];
    assert(r@ =~= lit_metadata_spec());
    r
}

fn lit_raw_data_vec() -> (r: Vec<u8>)
    ensures
        r@ == lit_raw_data_spec(),
{
    let r: Vec<u8> = vec![44u8, 114, 97, 119, 95, 100, 97, 116, 97, 58, 91];
    assert(r@ =~= lit_raw_data_spec());
    r
}

fn lit_close_vec() -> (r: Vec<u8>)
    ensures
        r@ == lit_close_spec(),
{
    let r: Vec<u8> = vec![93u8, 41];
    assert(r@ =~= lit_close_spec());
    r
}

/// One packaged asset: identity, kind, compression, version, the
/// packager's metadata, and the raw content bytes.
#[derive(Debug)]
pub struct AssetFile {
    pub name: Vec<u8>,
    pub path: Vec<u8>,
    pub asset_type: AssetType,
    pub compression_mode: CompressionMode,
    pub version: Vec<u8>,
    pub metadata: Vec<u8>,
    pub raw_data: Vec<u8>,
}

/// The canonical textual encoding of an asset file.
#[verifier::opaque]
pub open spec fn encode_spec(a: AssetFile) -> Seq<u8> {
    lit_name_spec() + quote_bytes(a.name@) + lit_path_spec() + quote_bytes(a.path@)
        + lit_asset_type_spec() + asset_type_bytes(a.asset_type) + lit_compression_spec()
        + compression_mode_bytes(a.compression_mode) + lit_version_spec() + quote_bytes(a.version@)
        + lit_metadata_spec() + quote_bytes(a.metadata@) + lit_raw_data_spec() + u8_list_body(
        a.raw_data@,
    ) + lit_close_spec()
}

/// A packager turns raw content into an asset file. Whatever it returns
/// carries the given identity, compression mode and raw data, and the
/// current version.
pub trait Packaging {
    fn pack(
        &self,
        name: &Vec<u8>,
        path: &Vec<u8>,
        raw_data: Vec<u8>,
        compression_mode: CompressionMode,
    ) -> (r: Result<AssetFile, AssetError>)
        ensures
            r matches Ok(a) ==> a.name@ == name@ && a.path@ == path@ && a.raw_data@ == raw_data@
                && a.compression_mode == compression_mode && a.version@ == version_bytes(),
    ;
}

/// The names an lz4 frame determines: whether it is a complete valid
/// frame, and which bytes it encodes. Only the trusted lz4 wrappers
/// below say anything about these names.
pub uninterp spec fn lz4_frame_valid(frame: Seq<u8>) -> bool;

/// The bytes a valid lz4 frame encodes.
pub uninterp spec fn lz4_content(frame: Seq<u8>) -> Seq<u8>;

/// Relies on lz4's frame encoder: building an encoder at the given level
/// over an in-memory buffer, writing the whole input and finishing
/// yields one complete frame. lz4 compression is lossless, so the frame
/// is valid and decodes to exactly the input.
#[verifier::external_body]
fn lz4_compress(data: &Vec<u8>, level: u32) -> (r: Result<Vec<u8>, ()>)
    ensures
        r matches Ok(c) ==> lz4_frame_valid(c@) && lz4_content(c@) == data@,
{
    let mut encoder = match lz4::EncoderBuilder::new().level(level).build(Vec::new()) {
        Ok(e) => e,
        Err(_) => return Err(()),
    };
    if std::io::Write::write_all(&mut encoder, data.as_slice()).is_err() {
        return Err(());
    }
    let (out, result) = encoder.finish();
    match result {
        Ok(()) => Ok(out),
        Err(_) => Err(()),
    }
}

/// Relies on lz4's frame decoder: reading a decoder over an in-memory
/// frame to its end yields exactly the bytes the frame encodes, and
/// fails on bytes that are not a complete valid frame.
#[verifier::external_body]
fn lz4_decompress(frame: &Vec<u8>) -> (r: Result<Vec<u8>, ()>)
    ensures
        r matches Ok(d) ==> lz4_frame_valid(frame@) && d@ == lz4_content(frame@),
        lz4_frame_valid(frame@) ==> r is Ok,
{
    let mut decoder = match lz4::Decoder::new(frame.as_slice()) {
        Ok(d) => d,
        Err(_) => return Err(()),
    };
    let mut out = Vec::new();
    match std::io::Read::read_to_end(&mut decoder, &mut out) {
        Ok(_) => Ok(out),
        Err(_) => Err(()),
    }
}

/// Consumes an asset-type variant name. Whatever it returns, the
/// consumed bytes are that variant's name; and wherever a variant's name
/// stands, it succeeds and returns that variant.
fn parse_asset_type(bytes: &Vec<u8>, pos: usize) -> (r: Option<(AssetType, usize)>)
    ensures
        r matches Some((t, p)) ==> pos <= p <= bytes@.len() && bytes@.subrange(
            pos as int,
            p as int,
        ) == asset_type_bytes(t),
        forall|t: AssetType| pos + asset_type_bytes(t).len() <= bytes@.len() && bytes@.subrange(
            pos as int,
            pos + asset_type_bytes(t).len(),
        ) == #[trigger] asset_type_bytes(t) ==> (r matches Some(x) && x.0 == t && x.1 == pos
            + asset_type_bytes(t).len()),
{
    let mesh: Vec<u8> = vec![77u8, 101, 115, 104];
    assert(mesh@ =~= asset_type_bytes(AssetType::Mesh));
    match parse_lit(bytes, pos, &mesh) {
        Some(p) => {
            return Some((AssetType::Mesh, p));
        },
        None => {},
    }
    let texture: Vec<u8> = vec![84u8, 101, 120, 116, 117, 114, 101];
    assert(texture@ =~= asset_type_bytes(AssetType::Texture));
    match parse_lit(bytes, pos, &texture) {
        Some(p) => {
            return Some((AssetType::Texture, p));
        },
        None => {},
    }
    None
}

/// Consumes a compression-mode variant name. Whatever it returns, the
/// consumed bytes are that variant's name; and wherever a variant's name
/// stands, it succeeds and returns that variant.
fn parse_compression_mode(bytes: &Vec<u8>, pos: usize) -> (r: Option<(CompressionMode, usize)>)
    ensures
        r matches Some((m, p)) ==> pos <= p <= bytes@.len() && bytes@.subrange(
            pos as int,
            p as int,
        ) == compression_mode_bytes(m),
        forall|m: CompressionMode| pos + compression_mode_bytes(m).len() <= bytes@.len()
            && bytes@.subrange(pos as int, pos + compression_mode_bytes(m).len())
            == #[trigger] compression_mode_bytes(m) ==> (r matches Some(x) && x.0 == m && x.1
            == pos + compression_mode_bytes(m).len()),
{
    let lit: Vec<u8> = vec![68u8, 101, 102, 97, 117, 108, 116];
    assert(lit@ =~= compression_mode_bytes(CompressionMode::Default));
    match parse_lit(bytes, pos, &lit) {
        Some(p) => {
            return Some((CompressionMode::Default, p));
        },
        None => {},
    }
    let lit: Vec<u8> = vec![70u8, 97, 115, 116];
    assert(lit@ =~= compression_mode_bytes(CompressionMode::Fast));
    match parse_lit(bytes, pos, &lit) {
        Some(p) => {
            return Some((CompressionMode::Fast, p));
        },
        None => {},
    }
    let lit: Vec<u8> = vec![72u8, 105, 103, 104, 67, 111, 109, 112, 114, 101, 115, 115, 105, 111, 110];
    assert(lit@ =~= compression_mode_bytes(CompressionMode::HighCompression));
    match parse_lit(bytes, pos, &lit) {
        Some(p) => {
            return Some((CompressionMode::HighCompression, p));
        },
        None => {},
    }
    let lit: Vec<u8> = vec![
        86u8,
        101,
        114,
        121,
        72,
        105,
        103,
        104,
        67,
        111,
        109,
        112,
        114,
        101,
        115,
        115,
        105,
        111,
        110,
    ];
    assert(lit@ =~= compression_mode_bytes(CompressionMode::VeryHighCompression));
    match parse_lit(bytes, pos, &lit) {
        Some(p) => {
            return Some((CompressionMode::VeryHighCompression, p));
        },
        None => {},
    }
    None
}

/// The first half of a canonical encoding: identity, kind and
/// compression mode, up to just before the version field.
pub open spec fn head_spec(n: Seq<u8>, p: Seq<u8>, t: AssetType, m: CompressionMode) -> Seq<u8> {
    lit_name_spec() + quote_bytes(n) + lit_path_spec() + quote_bytes(p) + lit_asset_type_spec()
        + asset_type_bytes(t) + lit_compression_spec() + compression_mode_bytes(m)
}

/// The length of a record's encoding up to just before the version
/// field.
pub open spec fn head_len(a: AssetFile) -> int {
    42int + quoted_len(a.name@) + quoted_len(a.path@) + asset_type_bytes(a.asset_type).len()
        + compression_mode_bytes(a.compression_mode).len()
}

/// Where each field of a canonical encoding stands: every literal, every
/// quoted string, both variant names and the byte array, at their fixed
/// cumulative offsets.
#[verifier::rlimit(100)]
#[verifier::spinoff_prover]
proof fn lemma_encode_parts(b: Seq<u8>, a: AssetFile)
    requires
        b == encode_spec(a),
    ensures
        ({
            let q1 = 6int;
            let q2 = q1 + quoted_len(a.name@);
            let q3 = q2 + 6;
            let q4 = q3 + quoted_len(a.path@);
            let q5 = q4 + 12;
            let q6 = q5 + asset_type_bytes(a.asset_type).len();
            let q7 = q6 + 18;
            let q8 = q7 + compression_mode_bytes(a.compression_mode).len();
            let q9 = q8 + 9;
            let q10 = q9 + quoted_len(a.version@);
            let q11 = q10 + 10;
            let q12 = q11 + quoted_len(a.metadata@);
            let q13 = q12 + 11;
            let q14 = q13 + u8_list_body(a.raw_data@).len();
            let q15 = q14 + 2;
            &&& b.len() == q15
            &&& b.subrange(0, q1) == lit_name_spec()
            &&& str_encoded_at(b, q1, a.name@)
            &&& b.subrange(q2, q3) == lit_path_spec()
            &&& str_encoded_at(b, q3, a.path@)
            &&& b.subrange(q4, q5) == lit_asset_type_spec()
            &&& b.subrange(q5, q6) == asset_type_bytes(a.asset_type)
            &&& b.subrange(q6, q7) == lit_compression_spec()
            &&& b.subrange(q7, q8) == compression_mode_bytes(a.compression_mode)
            &&& b.subrange(q8, q9) == lit_version_spec()
            &&& str_encoded_at(b, q9, a.version@)
            &&& b.subrange(q10, q11) == lit_metadata_spec()
            &&& str_encoded_at(b, q11, a.metadata@)
            &&& b.subrange(q12, q13) == lit_raw_data_spec()
            &&& list_encoded_at(b, q13, a.raw_data@)
            &&& b.subrange(q14, q15) == lit_close_spec()
        }),
{
    reveal(encode_spec);
    let c1 = lit_name_spec();
    let c2 = c1 + quote_bytes(a.name@);
    let c3 = c2 + lit_path_spec();
    let c4 = c3 + quote_bytes(a.path@);
    let c5 = c4 + lit_asset_type_spec();
    let c6 = c5 + asset_type_bytes(a.asset_type);
    let c7 = c6 + lit_compression_spec();
    let c8 = c7 + compression_mode_bytes(a.compression_mode);
    let c9 = c8 + lit_version_spec();
    let c10 = c9 + quote_bytes(a.version@);
    let c11 = c10 + lit_metadata_spec();
    let c12 = c11 + quote_bytes(a.metadata@);
    let c13 = c12 + lit_raw_data_spec();
    let c14 = c13 + u8_list_body(a.raw_data@);
    let c15 = c14 + lit_close_spec();
    assert(b == c15);
    assert(b.subrange(0, c15.len() as int) =~= b);
    crate::codec::lemma_concat_parts(c14, lit_close_spec(), b, 0);
    crate::codec::lemma_concat_parts(c13, u8_list_body(a.raw_data@), b, 0);
    crate::codec::lemma_concat_parts(c12, lit_raw_data_spec(), b, 0);
    crate::codec::lemma_concat_parts(c11, quote_bytes(a.metadata@), b, 0);
    crate::codec::lemma_concat_parts(c10, lit_metadata_spec(), b, 0);
    crate::codec::lemma_concat_parts(c9, quote_bytes(a.version@), b, 0);
    crate::codec::lemma_concat_parts(c8, lit_version_spec(), b, 0);
    crate::codec::lemma_concat_parts(c7, compression_mode_bytes(a.compression_mode), b, 0);
    crate::codec::lemma_concat_parts(c6, lit_compression_spec(), b, 0);
    crate::codec::lemma_concat_parts(c5, asset_type_bytes(a.asset_type), b, 0);
    crate::codec::lemma_concat_parts(c4, lit_asset_type_spec(), b, 0);
    crate::codec::lemma_concat_parts(c3, quote_bytes(a.path@), b, 0);
    crate::codec::lemma_concat_parts(c2, lit_path_spec(), b, 0);
    crate::codec::lemma_concat_parts(c1, quote_bytes(a.name@), b, 0);
    let q14 = c14.len() as int;
    assert(b[q14] == b.subrange(q14, c15.len() as int)[0]);
    assert(b[q14] == 93);
}

impl AssetFile {
    /// Packs raw content through the given packager.
    pub fn new<T: Packaging>(
        asset: T,
        name: &Vec<u8>,
        path: &Vec<u8>,
        raw_data: Vec<u8>,
        compression_mode: CompressionMode,
    ) -> (r: Result<AssetFile, AssetError>)
        ensures
            r matches Ok(a) ==> a.name@ == name@ && a.path@ == path@ && a.raw_data@ == raw_data@
                && a.compression_mode == compression_mode && a.version@ == version_bytes(),
    {
        asset.pack(name, path, raw_data, compression_mode)
    }

    /// The canonical textual encoding of this asset file.
    pub fn encode_ron(&self) -> (r: Vec<u8>)
        ensures
            r@ == encode_spec(*self),
    {
        let mut out: Vec<u8> = Vec::new();
        append_bytes(&mut out, &lit_name_vec());
        push_quoted(&mut out, &self.name);
        append_bytes(&mut out, &lit_path_vec());
        push_quoted(&mut out, &self.path);
        append_bytes(&mut out, &lit_asset_type_vec());
        match self.asset_type {
            AssetType::Mesh => {
                let v: Vec<u8> = vec![77u8, 101, 115, 104];
                assert(v@ =~= asset_type_bytes(AssetType::Mesh));
                append_bytes(&mut out, &v);
            },
            AssetType::Texture => {
                let v: Vec<u8> = vec![84u8, 101, 120, 116, 117, 114, 101];
                assert(v@ =~= asset_type_bytes(AssetType::Texture));
                append_bytes(&mut out, &v);
            },
        }
        append_bytes(&mut out, &lit_compression_vec());
        match self.compression_mode {
            CompressionMode::Default => {
                let v: Vec<u8> = vec![68u8, 101, 102, 97, 117, 108, 116];
                assert(v@ =~= compression_mode_bytes(CompressionMode::Default));
                append_bytes(&mut out, &v);
            },
            CompressionMode::Fast => {
                let v: Vec<u8> = vec![70u8, 97, 115, 116];
                assert(v@ =~= compression_mode_bytes(CompressionMode::Fast));
                append_bytes(&mut out, &v);
            },
            CompressionMode::HighCompression => {
                let v: Vec<u8> = vec![
                    72u8,
                    105,
                    103,
                    104,
                    67,
                    111,
                    109,
                    112,
                    114,
                    101,
                    115,
                    115,
                    105,
                    111,
                    110,
                ];
                assert(v@ =~= compression_mode_bytes(CompressionMode::HighCompression));
                append_bytes(&mut out, &v);
            },
            CompressionMode::VeryHighCompression => {
                let v: Vec<u8> = vec![
                    86u8,
                    101,
                    114,
                    121,
                    72,
                    105,
                    103,
                    104,
                    67,
                    111,
                    109,
                    112,
                    114,
                    101,
                    115,
                    115,
                    105,
                    111,
                    110,
                ];
                assert(v@ =~= compression_mode_bytes(CompressionMode::VeryHighCompression));
                append_bytes(&mut out, &v);
            },
        }
        append_bytes(&mut out, &lit_version_vec());
        push_quoted(&mut out, &self.version);
        append_bytes(&mut out, &lit_metadata_vec());
        push_quoted(&mut out, &self.metadata);
        append_bytes(&mut out, &lit_raw_data_vec());
        push_u8_list_body(&mut out, &self.raw_data);
        append_bytes(&mut out, &lit_close_vec());
        proof {
            reveal(encode_spec);
            assert(out@ =~= encode_spec(*self));
        }
        out
    }

    /// Parses the first half of a canonical encoding: identity, kind and
    /// compression mode. Whatever it returns, the consumed bytes are that
    /// half's encoding; and on a whole canonical encoding it succeeds and
    /// returns exactly the encoded fields.
    #[verifier::rlimit(100)]
    #[verifier::spinoff_prover]
    fn decode_head(bytes: &Vec<u8>) -> (r: Option<
        (Vec<u8>, Vec<u8>, AssetType, CompressionMode, usize),
    >)
        ensures
            r matches Some(x) ==> x.4 <= bytes@.len() && bytes@.subrange(0, x.4 as int)
                == head_spec(x.0@, x.1@, x.2, x.3),
            forall|a: AssetFile| bytes@ == #[trigger] encode_spec(a) ==> (r matches Some(x)
                && x.0@ == a.name@ && x.1@ == a.path@ && x.2 == a.asset_type && x.3
                == a.compression_mode && x.4 as int == head_len(a)),
    {
        let p1 = match parse_lit(bytes, 0, &lit_name_vec()) {
            Some(p) => p,
            None => {
                proof {
                    assert forall|a: AssetFile| bytes@ != encode_spec(a) by {
                        if bytes@ == encode_spec(a) {
                            lemma_encode_parts(bytes@, a);
                        }
                    }
                }
                return None;
            },
        };
        let (name, p2) = match parse_quoted(bytes, p1) {
            Some(x) => x,
            None => {
                proof {
                    assert forall|a: AssetFile| bytes@ != encode_spec(a) by {
                        if bytes@ == encode_spec(a) {
                            lemma_encode_parts(bytes@, a);
                        }
                    }
                }
                return None;
            },
        };
        proof {
            assert forall|a: AssetFile| bytes@ == encode_spec(a) implies name@ == a.name@ && p2
                == p1 + quoted_len(a.name@) by {
                lemma_encode_parts(bytes@, a);
            }
        }
        let p3 = match parse_lit(bytes, p2, &lit_path_vec()) {
            Some(p) => p,
            None => {
                proof {
                    assert forall|a: AssetFile| bytes@ != encode_spec(a) by {
                        if bytes@ == encode_spec(a) {
                            lemma_encode_parts(bytes@, a);
                        }
                    }
                }
                return None;
            },
        };
        let (path, p4) = match parse_quoted(bytes, p3) {
            Some(x) => x,
            None => {
                proof {
                    assert forall|a: AssetFile| bytes@ != encode_spec(a) by {
                        if bytes@ == encode_spec(a) {
                            lemma_encode_parts(bytes@, a);
                        }
                    }
                }
                return None;
            },
        };
        proof {
            assert forall|a: AssetFile| bytes@ == encode_spec(a) implies path@ == a.path@ && p4
                == p3 + quoted_len(a.path@) by {
                lemma_encode_parts(bytes@, a);
            }
        }
        let p5 = match parse_lit(bytes, p4, &lit_asset_type_vec()) {
            Some(p) => p,
            None => {
                proof {
                    assert forall|a: AssetFile| bytes@ != encode_spec(a) by {
                        if bytes@ == encode_spec(a) {
                            lemma_encode_parts(bytes@, a);
                        }
                    }
                }
                return None;
            },
        };
        let (asset_type, p6) = match parse_asset_type(bytes, p5) {
            Some(x) => x,
            None => {
                proof {
                    assert forall|a: AssetFile| bytes@ != encode_spec(a) by {
                        if bytes@ == encode_spec(a) {
                            lemma_encode_parts(bytes@, a);
                        }
                    }
                }
                return None;
            },
        };
        proof {
            assert forall|a: AssetFile| bytes@ == encode_spec(a) implies asset_type
                == a.asset_type && p6 == p5 + asset_type_bytes(a.asset_type).len() by {
                lemma_encode_parts(bytes@, a);
            }
        }
        let p7 = match parse_lit(bytes, p6, &lit_compression_vec()) {
            Some(p) => p,
            None => {
                proof {
                    assert forall|a: AssetFile| bytes@ != encode_spec(a) by {
                        if bytes@ == encode_spec(a) {
                            lemma_encode_parts(bytes@, a);
                        }
                    }
                }
                return None;
            },
        };
        let (compression_mode, p8) = match parse_compression_mode(bytes, p7) {
            Some(x) => x,
            None => {
                proof {
                    assert forall|a: AssetFile| bytes@ != encode_spec(a) by {
                        if bytes@ == encode_spec(a) {
                            lemma_encode_parts(bytes@, a);
                        }
                    }
                }
                return None;
            },
        };
        proof {
            assert forall|a: AssetFile| bytes@ == encode_spec(a) implies compression_mode
                == a.compression_mode && p8 == p7 + compression_mode_bytes(
                a.compression_mode,
            ).len() by {
                lemma_encode_parts(bytes@, a);
            }
            let b = bytes@;
            lemma_concat_join(b, 0, p1 as int, p2 as int);
            lemma_concat_join(b, 0, p2 as int, p3 as int);
            lemma_concat_join(b, 0, p3 as int, p4 as int);
            lemma_concat_join(b, 0, p4 as int, p5 as int);
            lemma_concat_join(b, 0, p5 as int, p6 as int);
            lemma_concat_join(b, 0, p6 as int, p7 as int);
            lemma_concat_join(b, 0, p7 as int, p8 as int);
            assert(b.subrange(0, p8 as int) =~= head_spec(
                name@,
                path@,
                asset_type,
                compression_mode,
            ));
        }
        Some((name, path, asset_type, compression_mode, p8))
    }

    /// Parses the version and metadata fields of a canonical encoding,
    /// from the given position. Whatever it returns, the consumed bytes
    /// are those two fields' encoding; and on a whole canonical encoding,
    /// positioned at its version field, it succeeds and returns exactly
    /// the encoded fields.
    #[verifier::rlimit(100)]
    #[verifier::spinoff_prover]
    fn decode_mid(bytes: &Vec<u8>, start: usize) -> (r: Option<(Vec<u8>, Vec<u8>, usize)>)
        ensures
            r matches Some(x) ==> start <= x.2 <= bytes@.len() && bytes@.subrange(
                start as int,
                x.2 as int,
            ) == lit_version_spec() + quote_bytes(x.0@) + lit_metadata_spec() + quote_bytes(x.1@),
            forall|a: AssetFile| bytes@ == #[trigger] encode_spec(a) && start as int == head_len(
                a,
            ) ==> (r matches Some(x) && x.0@ == a.version@ && x.1@ == a.metadata@ && x.2 as int
                == head_len(a) + 19 + quoted_len(a.version@) + quoted_len(a.metadata@)),
    {
        let p9 = match parse_lit(bytes, start, &lit_version_vec()) {
            Some(p) => p,
            None => {
                proof {
                    assert forall|a: AssetFile|
                        !(bytes@ == encode_spec(a) && start as int == head_len(a)) by {
                        if bytes@ == encode_spec(a) && start as int == head_len(a) {
                            lemma_encode_parts(bytes@, a);
                        }
                    }
                }
                return None;
            },
        };
        let (version, p10) = match parse_quoted(bytes, p9) {
            Some(x) => x,
            None => {
                proof {
                    assert forall|a: AssetFile|
                        !(bytes@ == encode_spec(a) && start as int == head_len(a)) by {
                        if bytes@ == encode_spec(a) && start as int == head_len(a) {
                            lemma_encode_parts(bytes@, a);
                        }
                    }
                }
                return None;
            },
        };
        proof {
            assert forall|a: AssetFile|
                bytes@ == encode_spec(a) && start as int == head_len(a) implies version@
                == a.version@ && p10 == p9 + quoted_len(a.version@) by {
                lemma_encode_parts(bytes@, a);
            }
        }
        let p11 = match parse_lit(bytes, p10, &lit_metadata_vec()) {
            Some(p) => p,
            None => {
                proof {
                    assert forall|a: AssetFile|
                        !(bytes@ == encode_spec(a) && start as int == head_len(a)) by {
                        if bytes@ == encode_spec(a) && start as int == head_len(a) {
                            lemma_encode_parts(bytes@, a);
                        }
                    }
                }
                return None;
            },
        };
        let (metadata, p12) = match parse_quoted(bytes, p11) {
            Some(x) => x,
            None => {
                proof {
                    assert forall|a: AssetFile|
                        !(bytes@ == encode_spec(a) && start as int == head_len(a)) by {
                        if bytes@ == encode_spec(a) && start as int == head_len(a) {
                            lemma_encode_parts(bytes@, a);
                        }
                    }
                }
                return None;
            },
        };
        proof {
            assert forall|a: AssetFile|
                bytes@ == encode_spec(a) && start as int == head_len(a) implies metadata@
                == a.metadata@ && p12 == p11 + quoted_len(a.metadata@) by {
                lemma_encode_parts(bytes@, a);
            }
            let b = bytes@;
            lemma_concat_join(b, start as int, p9 as int, p10 as int);
            lemma_concat_join(b, start as int, p10 as int, p11 as int);
            lemma_concat_join(b, start as int, p11 as int, p12 as int);
            assert(b.subrange(start as int, p12 as int) == lit_version_spec() + quote_bytes(
                version@,
            ) + lit_metadata_spec() + quote_bytes(metadata@));
        }
        Some((version, metadata, p12))
    }

    /// Parses a canonical textual encoding, and accepts only that form:
    /// whatever record it returns, the input is exactly that record's
    /// encoding, and every record's encoding is accepted.
    #[verifier::rlimit(100)]
    #[verifier::spinoff_prover]
    pub fn decode_ron(bytes: &Vec<u8>) -> (r: Option<AssetFile>)
        ensures
            r matches Some(a) ==> bytes@ == encode_spec(a),
            forall|a: AssetFile| bytes@ == #[trigger] encode_spec(a) ==> r is Some,
    {
        let (name, path, asset_type, compression_mode, p8) = match Self::decode_head(bytes) {
            Some(x) => x,
            None => {
                return None;
            },
        };
        let (version, metadata, p12) = match Self::decode_mid(bytes, p8) {
            Some(x) => x,
            None => {
                return None;
            },
        };
        let p13 = match parse_lit(bytes, p12, &lit_raw_data_vec()) {
            Some(p) => p,
            None => {
                proof {
                    assert forall|a: AssetFile| bytes@ != encode_spec(a) by {
                        if bytes@ == encode_spec(a) {
                            lemma_encode_parts(bytes@, a);
                        }
                    }
                }
                return None;
            },
        };
        let (raw_data, p14) = match parse_u8_list_body(bytes, p13) {
            Some(x) => x,
            None => {
                proof {
                    assert forall|a: AssetFile| bytes@ != encode_spec(a) by {
                        if bytes@ == encode_spec(a) {
                            lemma_encode_parts(bytes@, a);
                        }
                    }
                }
                return None;
            },
        };
        proof {
            assert forall|a: AssetFile| bytes@ == encode_spec(a) implies raw_data@ == a.raw_data@
                && p14 == p13 + u8_list_body(a.raw_data@).len() by {
                lemma_encode_parts(bytes@, a);
            }
        }
        let p15 = match parse_lit(bytes, p14, &lit_close_vec()) {
            Some(p) => p,
            None => {
                proof {
                    assert forall|a: AssetFile| bytes@ != encode_spec(a) by {
                        if bytes@ == encode_spec(a) {
                            lemma_encode_parts(bytes@, a);
                        }
                    }
                }
                return None;
            },
        };
        if p15 != bytes.len() {
            proof {
                assert forall|a: AssetFile| bytes@ != encode_spec(a) by {
                    if bytes@ == encode_spec(a) {
                        lemma_encode_parts(bytes@, a);
                    }
                }
            }
            return None;
        }
        let a = AssetFile { name, path, asset_type, compression_mode, version, metadata, raw_data };
        proof {
            let b = bytes@;
            lemma_concat_join(b, 0, p8 as int, p12 as int);
            lemma_concat_join(b, 0, p12 as int, p13 as int);
            lemma_concat_join(b, 0, p13 as int, p14 as int);
            lemma_concat_join(b, 0, p14 as int, p15 as int);
            assert(b =~= b.subrange(0, p15 as int));
            assert(encode_spec(a) == head_spec(name@, path@, asset_type, compression_mode)
                + lit_version_spec() + quote_bytes(version@) + lit_metadata_spec() + quote_bytes(
                metadata@,
            ) + lit_raw_data_spec() + u8_list_body(raw_data@) + lit_close_spec()) by {
                reveal(encode_spec);
            }
            assert(b == encode_spec(a));
        }
        Some(a)
    }

    /// The compressed storage bytes of this asset file: one lz4 frame,
    /// at this record's compression level, whose content is the
    /// canonical encoding.
    pub fn to_storage_bytes(&self) -> (r: Result<Vec<u8>, AssetError>)
        ensures
            r matches Ok(c) ==> lz4_frame_valid(c@) && lz4_content(c@) == encode_spec(*self),
            r matches Err(e) ==> e == AssetError::Compression,
    {
        let encoded = self.encode_ron();
        match lz4_compress(&encoded, self.compression_mode.level()) {
            Ok(c) => Ok(c),
            Err(_) => Err(AssetError::Compression),
        }
    }

    /// Reads an asset file back from its compressed storage bytes.
    ///
    /// Fails with a compression error exactly on bytes that are not one
    /// valid lz4 frame, and with an encoding error when the frame's
    /// content is not a canonical encoding; whatever record it returns,
    /// the frame's content is exactly that record's encoding, and a
    /// frame that encodes some record is always accepted — storing an
    /// asset file and loading the result cannot fail.
    pub fn from_storage_bytes(bytes: &Vec<u8>) -> (r: Result<AssetFile, AssetError>)
        ensures
            r matches Ok(a) ==> lz4_frame_valid(bytes@) && lz4_content(bytes@) == encode_spec(a),
            !lz4_frame_valid(bytes@) ==> (r matches Err(e) && e == AssetError::Compression),
            r matches Err(e) && e == AssetError::Compression ==> !lz4_frame_valid(bytes@),
            forall|a: AssetFile| lz4_frame_valid(bytes@) && lz4_content(bytes@)
                == #[trigger] encode_spec(a) ==> r is Ok,
    {
        let content = match lz4_decompress(bytes) {
            Ok(d) => d,
            Err(_) => {
                return Err(AssetError::Compression);
            },
        };
        match AssetFile::decode_ron(&content) {
            Some(a) => Ok(a),
            None => Err(AssetError::InvalidEncoding),
        }
    }
}

} // verus!

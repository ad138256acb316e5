use vstd::prelude::*;

use std::collections::BTreeMap;

use crate::store_model::{names_nul_free, pairs_view, sorted_by_name};

verus! {

/// A supported serialization format.
#[derive(Eq, Hash, PartialEq, PartialOrd, Ord, Debug, Clone, Copy, Structural)]
pub enum EncodingType {
    Json,
    Cbor,
    Bson,
    MsgPack,
    FlexBuffer,
}

/// Every supported format, in the order the diagnostics walk them.
pub open spec fn spec_all_encodings() -> Seq<EncodingType> {
    seq![
        EncodingType::Bson,
        EncodingType::Cbor,
        EncodingType::FlexBuffer,
        EncodingType::Json,
        EncodingType::MsgPack,
    ]
}

/// The canonical file extension of each format.
pub open spec fn spec_file_ext(c: EncodingType) -> Seq<char> {
    match c {
        EncodingType::Json => "json"@,
        EncodingType::Cbor => "cbor"@,
        EncodingType::Bson => "bson"@,
        EncodingType::MsgPack => "msgpack"@,
        EncodingType::FlexBuffer => "flex"@,
    }
}

/// The display name of each format.
pub open spec fn spec_encoding_name(c: EncodingType) -> Seq<char> {
    match c {
        EncodingType::Json => "Json"@,
        EncodingType::Cbor => "Cbor"@,
        EncodingType::Bson => "Bson"@,
        EncodingType::MsgPack => "MsgPack"@,
        EncodingType::FlexBuffer => "FlexBuffer"@,
    }
}

impl EncodingType {
    /// The full, fixed list of supported formats.
    pub fn all() -> (r: [EncodingType; 5])
        ensures
            r@ == spec_all_encodings(),
    {
        let r = [
            EncodingType::Bson,
            EncodingType::Cbor,
            EncodingType::FlexBuffer,
            EncodingType::Json,
            EncodingType::MsgPack,
        ];
        proof {
            assert(r@ =~= spec_all_encodings());
        }
        r
    }

    /// The canonical file extension for this format.
    pub fn get_file_ext(&self) -> (r: &'static str)
        ensures
            r@ == spec_file_ext(*self),
    {
        match self {
            EncodingType::Json => "json",
            EncodingType::Cbor => "cbor",
            EncodingType::Bson => "bson",
            EncodingType::MsgPack => "msgpack",
            EncodingType::FlexBuffer => "flex",
        }
    }

    /// The display name of this format.
    pub fn get_name(&self) -> (r: &'static str)
        ensures
            r@ == spec_encoding_name(*self),
    {
        match self {
            EncodingType::Json => "Json",
            EncodingType::Cbor => "Cbor",
            EncodingType::Bson => "Bson",
            EncodingType::MsgPack => "MsgPack",
            EncodingType::FlexBuffer => "FlexBuffer",
        }
    }
}

/// The format used when no explicit choice is made.
pub const GLOBAL_ENCODING: EncodingType = EncodingType::Json;

/// The JSON rendering of a record sequence; a function of the records alone.
pub uninterp spec fn json_bytes(s: Seq<(Seq<char>, bool)>) -> Seq<u8>;

/// The CBOR rendering of a record sequence; a function of the records alone.
pub uninterp spec fn cbor_bytes(s: Seq<(Seq<char>, bool)>) -> Seq<u8>;

/// The BSON document rendering of a record sequence; a function of the
/// records alone.
pub uninterp spec fn bson_bytes(s: Seq<(Seq<char>, bool)>) -> Seq<u8>;

/// The MessagePack rendering of a record sequence; a function of the
/// records alone.
pub uninterp spec fn msgpack_bytes(s: Seq<(Seq<char>, bool)>) -> Seq<u8>;

/// The FlexBuffers rendering of a record sequence; a function of the
/// records alone.
pub uninterp spec fn flex_bytes(s: Seq<(Seq<char>, bool)>) -> Seq<u8>;

/// Whether decoding bytes that the chosen format produced for `s` is
/// promised to reproduce `s`: the records must be name-sorted, and
/// BSON additionally needs NUL-free names (its document keys are
/// NUL-terminated, so the encoder rejects names with an interior NUL).
pub open spec fn spec_codec_admissible(c: EncodingType, s: Seq<(Seq<char>, bool)>) -> bool {
    sorted_by_name(s) && (c == EncodingType::Bson ==> names_nul_free(s))
}

/// The chosen format's rendering of a record sequence.
pub open spec fn codec_bytes(c: EncodingType, s: Seq<(Seq<char>, bool)>) -> Seq<u8> {
    match c {
        EncodingType::Json => json_bytes(s),
        EncodingType::Cbor => cbor_bytes(s),
        EncodingType::Bson => bson_bytes(s),
        EncodingType::MsgPack => msgpack_bytes(s),
        EncodingType::FlexBuffer => flex_bytes(s),
    }
}

/// Groups the encode and decode calls for every supported format.
pub struct Cereal;

impl Cereal {
    /// Relies on serde_json::to_vec: renders the pairs as JSON, a
    /// deterministic function of the pairs alone; on string/bool pairs
    /// no error path exists, so the call succeeds.
    #[verifier::external_body]
    pub fn serialize_json(items: &Vec<(String, bool)>) -> (r: Result<Vec<u8>, String>)
        ensures
            r is Ok,
            r matches Ok(b) ==> b@ == json_bytes(pairs_view(items@)),
    {
        serde_json::to_vec(items).map_err(|e| e.to_string())
    }

    /// Relies on serde_json::from_slice: parsing the exact bytes that
    /// serde_json::to_vec produced for a pair sequence yields that
    /// sequence back.
    #[verifier::external_body]
    pub fn deserialize_json(bytes: &Vec<u8>) -> (r: Result<Vec<(String, bool)>, String>)
        ensures
            (exists|s: Seq<(Seq<char>, bool)>|
                sorted_by_name(s) && bytes@ == json_bytes(s)) ==> r is Ok,
            r matches Ok(v) ==> forall|s: Seq<(Seq<char>, bool)>| #![auto]
                sorted_by_name(s) && bytes@ == json_bytes(s) ==> pairs_view(v@) == s,
    {
        serde_json::from_slice(bytes.as_slice()).map_err(|e| e.to_string())
    }

    /// Relies on serde_cbor::to_vec: renders the pairs as CBOR, a
    /// deterministic function of the pairs alone; on string/bool pairs
    /// no error path exists, so the call succeeds.
    #[verifier::external_body]
    pub fn serialize_cbor(items: &Vec<(String, bool)>) -> (r: Result<Vec<u8>, String>)
        ensures
            r is Ok,
            r matches Ok(b) ==> b@ == cbor_bytes(pairs_view(items@)),
    {
        serde_cbor::to_vec(items).map_err(|e| e.to_string())
    }

    /// Relies on serde_cbor::from_slice: parsing the exact bytes that
    /// serde_cbor::to_vec produced for a pair sequence yields that
    /// sequence back.
    #[verifier::external_body]
    pub fn deserialize_cbor(bytes: &Vec<u8>) -> (r: Result<Vec<(String, bool)>, String>)
        ensures
            (exists|s: Seq<(Seq<char>, bool)>|
                sorted_by_name(s) && bytes@ == cbor_bytes(s)) ==> r is Ok,
            r matches Ok(v) ==> forall|s: Seq<(Seq<char>, bool)>| #![auto]
                sorted_by_name(s) && bytes@ == cbor_bytes(s) ==> pairs_view(v@) == s,
    {
        serde_cbor::from_slice(bytes.as_slice()).map_err(|e| e.to_string())
    }

    /// Relies on rmp_serde::to_vec: renders the pairs as MessagePack, a
    /// deterministic function of the pairs alone; on string/bool pairs
    /// no error path exists, so the call succeeds.
    #[verifier::external_body]
    pub fn serialize_msgpack(items: &Vec<(String, bool)>) -> (r: Result<Vec<u8>, String>)
        ensures
            r is Ok,
            r matches Ok(b) ==> b@ == msgpack_bytes(pairs_view(items@)),
    {
        rmp_serde::to_vec(items).map_err(|e| e.to_string())
    }

    /// Relies on rmp_serde::from_slice: parsing the exact bytes that
    /// rmp_serde::to_vec produced for a pair sequence yields that
    /// sequence back.
    #[verifier::external_body]
    pub fn deserialize_msgpack(bytes: &Vec<u8>) -> (r: Result<Vec<(String, bool)>, String>)
        ensures
            (exists|s: Seq<(Seq<char>, bool)>|
                sorted_by_name(s) && bytes@ == msgpack_bytes(s)) ==> r is Ok,
            r matches Ok(v) ==> forall|s: Seq<(Seq<char>, bool)>| #![auto]
                sorted_by_name(s) && bytes@ == msgpack_bytes(s) ==> pairs_view(v@) == s,
    {
        rmp_serde::from_slice(bytes.as_slice()).map_err(|e| e.to_string())
    }

    /// Relies on flexbuffers::to_vec: renders the pairs as a FlexBuffer,
    /// a deterministic function of the pairs alone; on string/bool pairs
    /// no error path exists, so the call succeeds.
    #[verifier::external_body]
    pub fn serialize_flex(items: &Vec<(String, bool)>) -> (r: Result<Vec<u8>, String>)
        ensures
            r is Ok,
            r matches Ok(b) ==> b@ == flex_bytes(pairs_view(items@)),
    {
        flexbuffers::to_vec(items).map_err(|e| e.to_string())
    }

    /// Relies on flexbuffers::from_slice: parsing the exact bytes that
    /// flexbuffers::to_vec produced for a pair sequence yields that
    /// sequence back. The FlexBuffers reader takes offsets and widths
    /// from the buffer itself and indexes without bound checks, so it
    /// can panic on bytes the encoder never produced; the `requires`
    /// admits only the encoder's own output.
    #[verifier::external_body]
    pub fn deserialize_flex(bytes: &Vec<u8>) -> (r: Result<Vec<(String, bool)>, String>)
        requires
            exists|s: Seq<(Seq<char>, bool)>| sorted_by_name(s) && bytes@ == flex_bytes(s),
        ensures
            r is Ok,
            r matches Ok(v) ==> forall|s: Seq<(Seq<char>, bool)>| #![auto]
                sorted_by_name(s) && bytes@ == flex_bytes(s) ==> pairs_view(v@) == s,
    {
        flexbuffers::from_slice(bytes.as_slice()).map_err(|e| e.to_string())
    }

    /// Relies on bson::serialize_to_vec: renders the pairs, gathered
    /// into a string-keyed map (BSON serializes a document at top
    /// level), as a BSON document; a deterministic function of the
    /// pairs alone. Document keys are NUL-terminated, so the call
    /// succeeds exactly when no name holds an interior NUL.
    #[verifier::external_body]
    pub fn serialize_bson(items: &Vec<(String, bool)>) -> (r: Result<Vec<u8>, String>)
        ensures
            names_nul_free(pairs_view(items@)) ==> r is Ok,
            r is Ok ==> names_nul_free(pairs_view(items@)),
            r matches Ok(b) ==> b@ == bson_bytes(pairs_view(items@)),
    {
        let map: BTreeMap<String, bool> = items.iter().cloned().collect();
        bson::serialize_to_vec(&map).map_err(|e| e.to_string())
    }

    /// Relies on bson::deserialize_from_slice: parsing the exact bytes
    /// that bson::serialize_to_vec produced for a name-sorted pair
    /// sequence yields that sequence back, since a BTreeMap keyed by
    /// String iterates in the same byte-wise name order.
    #[verifier::external_body]
    pub fn deserialize_bson(bytes: &Vec<u8>) -> (r: Result<Vec<(String, bool)>, String>)
        ensures
            (exists|s: Seq<(Seq<char>, bool)>|
                sorted_by_name(s) && names_nul_free(s) && bytes@ == bson_bytes(s)) ==> r is Ok,
            r matches Ok(v) ==> forall|s: Seq<(Seq<char>, bool)>| #![auto]
                sorted_by_name(s) && names_nul_free(s) && bytes@ == bson_bytes(s) ==> pairs_view(
                    v@,
                ) == s,
    {
        match bson::deserialize_from_slice::<BTreeMap<String, bool>>(bytes.as_slice()) {
            Ok(m) => Ok(m.into_iter().collect()),
            Err(e) => Err(e.to_string()),
        }
    }

    /// Encodes the pairs with the chosen format; only BSON can refuse,
    /// and only a name with an interior NUL makes it refuse.
    pub fn serialize_with(encoding: EncodingType, items: &Vec<(String, bool)>) -> (r: Result<
        Vec<u8>,
        String,
    >)
        ensures
            encoding != EncodingType::Bson ==> r is Ok,
            names_nul_free(pairs_view(items@)) ==> r is Ok,
            encoding == EncodingType::Bson && r is Ok ==> names_nul_free(pairs_view(items@)),
            r matches Ok(b) ==> b@ == codec_bytes(encoding, pairs_view(items@)),
    {
        match encoding {
            EncodingType::Json => Cereal::serialize_json(items),
            EncodingType::Cbor => Cereal::serialize_cbor(items),
            EncodingType::MsgPack => Cereal::serialize_msgpack(items),
            EncodingType::FlexBuffer => Cereal::serialize_flex(items),
            EncodingType::Bson => Cereal::serialize_bson(items),
        }
    }

    /// Decodes pairs with the chosen format; bytes that the same
    /// format produced for an admissible pair sequence decode to
    /// exactly that sequence. FlexBuffers input must be the encoder's
    /// own output (see `deserialize_flex`).
    pub fn deserialize_with(encoding: EncodingType, bytes: &Vec<u8>) -> (r: Result<
        Vec<(String, bool)>,
        String,
    >)
        requires
            encoding == EncodingType::FlexBuffer ==> exists|s: Seq<(Seq<char>, bool)>|
                sorted_by_name(s) && bytes@ == flex_bytes(s),
        ensures
            (exists|s: Seq<(Seq<char>, bool)>|
                spec_codec_admissible(encoding, s) && bytes@ == codec_bytes(encoding, s)) ==> r
                is Ok,
            r matches Ok(v) ==> forall|s: Seq<(Seq<char>, bool)>| #![auto]
                spec_codec_admissible(encoding, s) && bytes@ == codec_bytes(encoding, s)
                    ==> pairs_view(v@) == s,
    {
        match encoding {
            EncodingType::Json => Cereal::deserialize_json(bytes),
            EncodingType::Cbor => Cereal::deserialize_cbor(bytes),
            EncodingType::MsgPack => Cereal::deserialize_msgpack(bytes),
            EncodingType::FlexBuffer => Cereal::deserialize_flex(bytes),
            EncodingType::Bson => Cereal::deserialize_bson(bytes),
        }
    }

    /// Encodes the pairs with the process-wide default format, which
    /// cannot refuse.
    pub fn serialize(items: &Vec<(String, bool)>) -> (r: Result<Vec<u8>, String>)
        ensures
            r is Ok,
            r matches Ok(b) ==> b@ == codec_bytes(GLOBAL_ENCODING, pairs_view(items@)),
    {
        Cereal::serialize_with(GLOBAL_ENCODING, items)
    }

    /// Decodes pairs with the process-wide default format.
    pub fn deserialize(bytes: &Vec<u8>) -> (r: Result<Vec<(String, bool)>, String>)
        ensures
            (exists|s: Seq<(Seq<char>, bool)>|
                sorted_by_name(s) && bytes@ == codec_bytes(GLOBAL_ENCODING, s)) ==> r is Ok,
            r matches Ok(v) ==> forall|s: Seq<(Seq<char>, bool)>| #![auto]
                sorted_by_name(s) && bytes@ == codec_bytes(GLOBAL_ENCODING, s) ==> pairs_view(v@) == s,
    {
        Cereal::deserialize_with(GLOBAL_ENCODING, bytes)
    }
}

} // verus!

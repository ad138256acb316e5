use vstd::prelude::*;

use crate::cereal::{
    codec_bytes, flex_bytes, spec_codec_admissible, spec_file_ext, Cereal, EncodingType,
};
use crate::store_model::{map_of, names_nonempty, names_nul_free, sorted_by_name};
use crate::todolist::TodoList;

verus! {

/// The format the persistence layer uses when the caller names none.
pub const DEFAULT_ENCODING: EncodingType = EncodingType::MsgPack;

/// The persistence file name for a format: `data.` followed by the
/// format's canonical extension.
pub fn data_file_name(encoding: EncodingType) -> (r: String)
    ensures
        r@ == "data."@ + spec_file_ext(encoding),
{
    let mut r = String::from_str("data.");
    r.append(encoding.get_file_ext());
    r
}

impl TodoList {
    /// Encodes this store with the given format, exactly as the
    /// persistence layer writes it out; only BSON can refuse, and only
    /// on a name with an interior NUL.
    pub fn to_saved_bytes(&self, encoding: EncodingType) -> (r: Result<Vec<u8>, String>)
        requires
            self.wf(),
        ensures
            encoding != EncodingType::Bson ==> r is Ok,
            names_nul_free(self.records()) ==> r is Ok,
            encoding == EncodingType::Bson && r is Ok ==> names_nul_free(self.records()),
            r matches Ok(b) ==> b@ == codec_bytes(encoding, self.records()),
    {
        let pairs = self.get_todos();
        Cereal::serialize_with(encoding, &pairs)
    }

    /// Decodes a store from persisted bytes. Bytes that
    /// `to_saved_bytes` produced with the same format decode to a
    /// store holding the same records. FlexBuffers input must be the
    /// encoder's own output (see `Cereal::deserialize_flex`).
    pub fn from_saved_bytes(encoding: EncodingType, bytes: &Vec<u8>) -> (r: Result<
        TodoList,
        String,
    >)
        requires
            encoding == EncodingType::FlexBuffer ==> exists|s: Seq<(Seq<char>, bool)>|
                sorted_by_name(s) && bytes@ == flex_bytes(s),
        ensures
            (exists|s: Seq<(Seq<char>, bool)>|
                spec_codec_admissible(encoding, s) && bytes@ == codec_bytes(encoding, s)) ==> r
                is Ok,
            r matches Ok(t) ==> t.wf() && (forall|s: Seq<(Seq<char>, bool)>| #![auto]
                spec_codec_admissible(encoding, s) && names_nonempty(s) && bytes@ == codec_bytes(
                    encoding,
                    s,
                ) ==> t@ == map_of(s)),
    {
        match Cereal::deserialize_with(encoding, bytes) {
            Ok(v) => {
                let t = TodoList::from_pairs(&v);
                Ok(t)
            },
            Err(e) => Err(e),
        }
    }
}

} // verus!

//! The JSON shape of byte strings in the node's RPC surface.
//!
//! Byte vectors travel as base64 text, and an empty vector travels as
//! `null`. The base64 text itself is serialization work done at the RPC
//! boundary; what this module owns is the shape: empty becomes absent,
//! absent becomes empty, and the two directions invert each other.

use vstd::prelude::*;

verus! {

/// The JSON form of a byte vector: absent for empty, present otherwise.
#[derive(Debug)]
pub struct VecU8LotusJson {
    data: Option<Vec<u8>>,
}

impl VecU8LotusJson {
    /// The held bytes, if any.
    pub closed spec fn spec_data(self) -> Option<Seq<u8>> {
        match self.data {
            Some(v) => Some(v@),
            None => None,
        }
    }

    /// A well-formed value never holds an empty vector: emptiness travels
    /// as absence.
    pub open spec fn wf(self) -> bool {
        match self.spec_data() {
            Some(s) => s.len() > 0,
            None => true,
        }
    }

    /// Builds the JSON form from present bytes.
    pub fn from_bytes(data: Vec<u8>) -> (r: VecU8LotusJson)
        requires
            data@.len() > 0,
        ensures
            r.spec_data() == Some(data@),
            r.wf(),
    {
        VecU8LotusJson { data: Some(data) }
    }

    /// Builds the absent JSON form.
    pub fn absent() -> (r: VecU8LotusJson)
        ensures
            r.spec_data() is None,
            r.wf(),
    {
        VecU8LotusJson { data: None }
    }
}

/// What a byte vector becomes in JSON form.
pub open spec fn into_lotus_json_spec(data: Seq<u8>) -> Option<Seq<u8>> {
    if data.len() == 0 {
        None
    } else {
        Some(data)
    }
}

/// What a JSON form becomes as a byte vector.
pub open spec fn from_lotus_json_spec(value: Option<Seq<u8>>) -> Seq<u8> {
    match value {
        Some(s) => s,
        None => Seq::empty(),
    }
}

/// Turns a byte vector into its JSON form: empty becomes absent.
pub fn into_lotus_json(data: Vec<u8>) -> (r: VecU8LotusJson)
    ensures
        r.spec_data() == into_lotus_json_spec(data@),
        r.wf(),
{
    if data.is_empty() {
        VecU8LotusJson { data: None }
    } else {
        VecU8LotusJson { data: Some(data) }
    }
}

/// Turns a JSON form back into a byte vector: absent becomes empty.
pub fn from_lotus_json(value: VecU8LotusJson) -> (r: Vec<u8>)
    ensures
        r@ == from_lotus_json_spec(value.spec_data()),
{
    match value.data {
        Some(v) => v,
        None => Vec::new(),
    }
}

/// The round trip through JSON: a byte vector comes back unchanged, and a
/// well-formed JSON form comes back unchanged.
pub proof fn lemma_lotus_json_round_trip(data: Seq<u8>, value: Option<Seq<u8>>)
    requires
        match value {
            Some(s) => s.len() > 0,
            None => true,
        },
    ensures
        from_lotus_json_spec(into_lotus_json_spec(data)) == data,
        into_lotus_json_spec(from_lotus_json_spec(value)) == value,
{
    if data.len() == 0 {
        assert(from_lotus_json_spec(into_lotus_json_spec(data)) =~= data);
    }
    match value {
        None => {
            assert(Seq::<u8>::empty().len() == 0);
        }
        Some(_) => {}
    }
}

} // verus!

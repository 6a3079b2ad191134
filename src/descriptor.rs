//! The descriptor of a fixture, `state.json`: the genesis request it was made
//! from, reduced to its protocol version, and the store's root digest.
//!
//! The document is written as
//! `{"genesis_request": {"protocol_version": "1.0.0"}, "post_state_hash": "<hex>"}`
//! (pretty-printed). It is read loosely: any other fields of the genesis
//! request are ignored, so descriptors written by other producers still load.

use vstd::prelude::*;
use crate::error::DescriptorFault;
use crate::hash::{digest_of, hex_text, lemma_hex_round_trip, StateHash, DIGEST_LENGTH};
use crate::version::{lemma_version_round_trip, version_of_text, version_text, ProtocolVersion};

verus! {

/// JSON pointer of the protocol version in a descriptor.
pub const PROTOCOL_VERSION_POINTER: &'static str = "/genesis_request/protocol_version";

/// JSON pointer of the root digest in a descriptor.
pub const STATE_HASH_POINTER: &'static str = "/post_state_hash";

/// The string that JSON text `doc` holds at JSON pointer `pointer`; `None`
/// where `doc` is not JSON or holds no string there.
pub uninterp spec fn json_string_at(doc: Seq<char>, pointer: Seq<char>) -> Option<Seq<char>>;

/// Relies on `serde_json::from_str` (parsing into `serde_json::Value`),
/// `Value::pointer` and the `Value::String` variant: the string at `pointer`,
/// a function of the two texts alone.
#[verifier::external_body]
fn string_at(doc: &str, pointer: &str) -> (r: Option<String>)
    ensures
        match r {
            Some(s) => json_string_at(doc@, pointer@) == Some(s@),
            None => json_string_at(doc@, pointer@) is None,
        },
{
    match serde_json::from_str::<serde_json::Value>(doc) {
        Ok(value) => match value.pointer(pointer) {
            Some(serde_json::Value::String(s)) => Some(s.clone()),
            _ => None,
        },
        Err(_) => None,
    }
}

/// The parameters a fixture was generated with, as far as they are kept.
#[derive(Clone, Copy, Debug, PartialEq, Eq, Structural)]
pub struct GenesisRequest {
    pub protocol_version: ProtocolVersion,
}

/// A fixture's descriptor.
#[derive(Clone, Debug)]
pub struct LmdbFixtureState {
    pub genesis_request: GenesisRequest,
    pub post_state_hash: StateHash,
}

/// What a descriptor records.
pub struct FixtureStateView {
    pub protocol_version: ProtocolVersion,
    pub post_state_hash: Seq<u8>,
}

impl View for LmdbFixtureState {
    type V = FixtureStateView;

    open spec fn view(&self) -> FixtureStateView {
        FixtureStateView {
            protocol_version: self.genesis_request.protocol_version,
            post_state_hash: self.post_state_hash@,
        }
    }
}

pub open spec fn opt_text(o: Option<&str>) -> Option<Seq<char>> {
    match o {
        Some(s) => Some(s@),
        None => None,
    }
}

/// The descriptor that the two field texts give, or the first fault.
pub open spec fn state_of_fields(version: Option<Seq<char>>, hash: Option<Seq<char>>) -> Result<
    FixtureStateView,
    DescriptorFault,
> {
    match version {
        None => Err(DescriptorFault::MissingProtocolVersion),
        Some(vt) => match version_of_text(vt) {
            None => Err(DescriptorFault::InvalidProtocolVersion),
            Some(v) => match hash {
                None => Err(DescriptorFault::MissingStateHash),
                Some(ht) => match digest_of(ht) {
                    None => Err(DescriptorFault::InvalidStateHash),
                    Some(h) => Ok(FixtureStateView { protocol_version: v, post_state_hash: h }),
                },
            },
        },
    }
}

/// The descriptor that JSON text `doc` holds, or the first fault.
pub open spec fn state_of_json(doc: Seq<char>) -> Result<FixtureStateView, DescriptorFault> {
    state_of_fields(
        json_string_at(doc, PROTOCOL_VERSION_POINTER@),
        json_string_at(doc, STATE_HASH_POINTER@),
    )
}

/// The text of a descriptor as it is written to `state.json`.
pub open spec fn descriptor_text(s: FixtureStateView) -> Seq<char> {
    "{\n  \"genesis_request\": {\n    \"protocol_version\": \""@ + version_text(
        s.protocol_version,
    ) + "\"\n  },\n  \"post_state_hash\": \""@ + hex_text(s.post_state_hash) + "\"\n}"@
}

impl LmdbFixtureState {
    pub open spec fn wf(&self) -> bool {
        self.post_state_hash.wf()
    }

    /// The descriptor of a fixture generated for `protocol_version` whose
    /// store ended at `post_state_hash`.
    pub fn new(protocol_version: ProtocolVersion, post_state_hash: StateHash) -> (r: LmdbFixtureState)
        ensures
            r@.protocol_version == protocol_version,
            r@.post_state_hash == post_state_hash@,
            r.post_state_hash.bytes@ == post_state_hash.bytes@,
    {
        LmdbFixtureState { genesis_request: GenesisRequest { protocol_version }, post_state_hash }
    }

    /// The protocol version that the fixture was generated for.
    pub fn genesis_protocol_version(&self) -> (r: ProtocolVersion)
        ensures
            r == self@.protocol_version,
    {
        self.genesis_request.protocol_version
    }

    /// The descriptor's text, pretty-printed JSON.
    pub fn to_json(&self) -> (r: String)
        ensures
            r@ == descriptor_text(self@),
    {
        let mut out = String::from_str("{\n  \"genesis_request\": {\n    \"protocol_version\": \"");
        let version = self.genesis_request.protocol_version.to_text();
        out.append(version.as_str());
        out.append("\"\n  },\n  \"post_state_hash\": \"");
        let hash = self.post_state_hash.to_hex();
        out.append(hash.as_str());
        out.append("\"\n}");
        out
    }

    /// The descriptor made of the texts of its two fields, as found in a
    /// document (`None` where a field is missing).
    pub fn from_fields(version: Option<&str>, hash: Option<&str>) -> (r: Result<
        LmdbFixtureState,
        DescriptorFault,
    >)
        ensures
            match r {
                Ok(s) => state_of_fields(opt_text(version), opt_text(hash)) == Ok::<
                    FixtureStateView,
                    DescriptorFault,
                >(s@) && s.wf(),
                Err(f) => state_of_fields(opt_text(version), opt_text(hash)) == Err::<
                    FixtureStateView,
                    DescriptorFault,
                >(f),
            },
    {
        let vt = match version {
            Some(t) => t,
            None => {
                return Err(DescriptorFault::MissingProtocolVersion);
            },
        };
        let v = match ProtocolVersion::parse(vt) {
            Some(v) => v,
            None => {
                return Err(DescriptorFault::InvalidProtocolVersion);
            },
        };
        let ht = match hash {
            Some(t) => t,
            None => {
                return Err(DescriptorFault::MissingStateHash);
            },
        };
        match StateHash::from_hex(ht) {
            Some(h) => Ok(LmdbFixtureState::new(v, h)),
            None => Err(DescriptorFault::InvalidStateHash),
        }
    }

    /// Reads a descriptor from the text of `state.json`.
    pub fn from_json(doc: &str) -> (r: Result<LmdbFixtureState, DescriptorFault>)
        ensures
            match r {
                Ok(s) => state_of_json(doc@) == Ok::<FixtureStateView, DescriptorFault>(s@)
                    && s.wf(),
                Err(f) => state_of_json(doc@) == Err::<FixtureStateView, DescriptorFault>(f),
            },
    {
        let version = string_at(doc, PROTOCOL_VERSION_POINTER);
        let hash = string_at(doc, STATE_HASH_POINTER);
        let version_ref: Option<&str> = match &version {
            Some(s) => Some(s.as_str()),
            None => None,
        };
        let hash_ref: Option<&str> = match &hash {
            Some(s) => Some(s.as_str()),
            None => None,
        };
        LmdbFixtureState::from_fields(version_ref, hash_ref)
    }
}

/// The texts that a descriptor writes for its two fields read back as the
/// same protocol version and the same digest bytes.
pub proof fn lemma_descriptor_fields_round_trip(s: FixtureStateView)
    requires
        s.post_state_hash.len() == DIGEST_LENGTH,
    ensures
        state_of_fields(Some(version_text(s.protocol_version)), Some(hex_text(s.post_state_hash)))
            == Ok::<FixtureStateView, DescriptorFault>(s),
{
    lemma_version_round_trip(s.protocol_version);
    lemma_hex_round_trip(s.post_state_hash);
}

} // verus!

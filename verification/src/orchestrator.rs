//! The proof orchestrator: resolves a commitment, checks revocation
//! and validity, normalizes bindings, parses the predicate, recomputes
//! every claim's leaf hash, rebuilds the Merkle tree, and assembles the
//! witness for the predicate's circuit. The external prover runs
//! elsewhere; the finished package is assembled from its output.

use vstd::prelude::*;
use vstd::string::StrSliceExecFns;
use vstd::string::StringExecFns;
use crate::binding::{binding_payload, is_hex_32_spec, normalize_binding};
use crate::canonical::JsonValue;
use crate::encode::{
    cert_window_spec, compute_claim_hash, compute_claim_hash_spec, domain_forbidden,
    domain_forbidden_bytes, extract_cert_window, get_key, hash_claim_type, hash_substance_list,
    hash_substance_list_spec, lemma_lookup_at, lemma_lookup_none, lookup_key, or_opt,
    parse_scaled_spec, parse_scaled_u32_value,
    parse_string_list, parse_u32_spec, parse_u32_value, parse_u64_timestamp, string_list_spec,
    substance_ids, substance_ids_spec, ts_value_spec, ClaimData, EncodeError,
};
use crate::hashing::hash_str_spec;
use crate::hex::{
    from_hex, hex_decode, hex_of, is_hex_str, lemma_hex_of_is_hex, lemma_lower_hex_is_hex,
    lower_hex, to_hex,
};
use crate::keys::{ed25519_pubkey_of, ed25519_sig_of, KeyPair};
use crate::merkle::{merkle_root_of, proof_ok, CommitmentError, MerkleProof, MerkleTree};
use crate::predicate::{
    parse_predicate_id, predicate_split, PredicateError, PredicateId,
};
use crate::strutil::str_eq;
use crate::witness::{
    CarbonFootprintInputs, CertValidInputs, RecycledContentInputs, SubstanceNotInListInputs,
};

verus! {

broadcast use crate::hashing::lemma_bytes_deep_view;

/// Why a proof request cannot be served.
#[derive(Debug, Clone, Copy, PartialEq, Eq, Structural)]
pub enum ProofError {
    /// The commitment was not found.
    NotFound,
    /// The commitment has been revoked.
    Revoked,
    /// The commitment's validity window has passed.
    Expired,
    /// The requested claim index is outside the commitment.
    IndexOutOfRange,
    /// A claim of the commitment could not be resolved.
    ClaimNotFound,
    /// The predicate requires a threshold and none was given.
    ThresholdRequired,
    /// The claim's type does not match the predicate's.
    ClaimTypeMismatch,
    /// The forbidden-substance list is missing from the request.
    MissingForbiddenList,
    /// A stored hex field did not decode to 32 bytes.
    InvalidHex,
    /// No witness builder exists for the predicate.
    PredicateUnsupported,
    /// The predicate identifier did not parse.
    Predicate(PredicateError),
    /// A claim value did not match its declared type.
    Encode(EncodeError),
    /// The Merkle tree could not be built.
    Merkle(CommitmentError),
}

/// A stored commitment as the orchestrator reads it.
#[derive(Debug)]
pub struct CommitmentRecord {
    pub id: String,
    /// Merkle root over the claims' leaf hashes, hex-encoded.
    pub root: String,
    pub claim_count: usize,
    /// Claim identifiers in leaf order; the order defines positions.
    pub claim_ids: Vec<String>,
    /// The signing public key, hex-encoded.
    pub public_key: String,
    /// Signature over the root bytes, hex-encoded.
    pub signature: String,
    pub valid_from: Option<i64>,
    pub valid_until: Option<i64>,
    pub revoked: bool,
    pub revoked_at: Option<i64>,
    pub revoked_reason: Option<String>,
    pub created_at: i64,
}

/// A proof request as a caller states it.
#[derive(Debug)]
pub struct GenerateProofInput {
    pub commitment_id: String,
    pub predicate_id: String,
    pub claim_index: usize,
    pub threshold: Option<u32>,
    pub timestamp: Option<u64>,
    pub extra: Option<JsonValue>,
    pub product_id: String,
    pub requester_id: String,
}

/// The witness for one predicate's circuit.
#[derive(Debug)]
pub enum WitnessRequest {
    RecycledContent(RecycledContentInputs),
    CarbonFootprint(CarbonFootprintInputs),
    CertValid(CertValidInputs),
    SubstanceNotInList(SubstanceNotInListInputs),
}

/// Everything a prover invocation needs, plus what the final package
/// carries: bindings, timestamp and predicate-specific extras.
#[derive(Debug)]
pub struct PreparedProof {
    pub predicate: PredicateId,
    pub witness: WitnessRequest,
    pub product_binding: String,
    pub requester_binding: String,
    pub timestamp: Option<u64>,
    pub extra: Option<JsonValue>,
}

/// Public inputs of an assembled proof package.
#[derive(Debug)]
pub struct PublicInputs {
    pub threshold: Option<u32>,
    pub commitment_root: String,
    pub product_binding: String,
    pub requester_binding: String,
    pub timestamp: Option<u64>,
    pub extra: Option<JsonValue>,
}

/// Audit context of an assembled proof package.
#[derive(Debug)]
pub struct ProofContext {
    pub supplier_id: Option<String>,
    pub requester_id: Option<String>,
    pub product_id: Option<String>,
}

/// A complete proof package: predicate, proof bytes, public inputs,
/// nonce, generation time and audit context.
#[derive(Debug)]
pub struct ProofPackage {
    pub predicate_id: PredicateId,
    pub proof: String,
    pub public_inputs: PublicInputs,
    pub nonce: String,
    pub generated_at: i64,
    pub context: ProofContext,
}

/// A normalized binding: the lower-cased hex value itself, or the
/// hash of `prefix:value`.
pub open spec fn binding_spec(prefix: Seq<char>, value: Seq<char>) -> Seq<char> {
    if is_hex_32_spec(value) {
        lower_hex(value)
    } else {
        hex_of(hash_str_spec(binding_payload(prefix, value)))
    }
}

proof fn lemma_binding_is_hex(prefix: Seq<char>, value: Seq<char>)
    ensures
        is_hex_str(binding_spec(prefix, value)),
{
    if is_hex_32_spec(value) {
        lemma_lower_hex_is_hex(value);
    } else {
        lemma_hex_of_is_hex(hash_str_spec(binding_payload(prefix, value)));
    }
}

/// Decodes a 64-digit hex string to its 32 bytes.
pub fn hex_to_bytes32(value: &str) -> (r: Result<Vec<u8>, ProofError>)
    ensures
        r is Ok <==> is_hex_str(value@) && value@.len() == 64,
        r matches Ok(v) ==> v@ == hex_decode(value@) && v@.len() == 32,
        r matches Err(e) ==> e == ProofError::InvalidHex,
{
    let bytes = match from_hex(value) {
        Ok(b) => b,
        Err(_) => {
            return Err(ProofError::InvalidHex);
        },
    };
    if bytes.len() != 32 {
        return Err(ProofError::InvalidHex);
    }
    Ok(bytes)
}

/// Whether every claim's leaf hash is computable.
pub open spec fn claim_leaves_ok(claims: Seq<ClaimData>) -> bool {
    forall|i: int| 0 <= i < claims.len() ==> compute_claim_hash_spec(#[trigger] claims[i]) is Ok
}

/// The leaf hashes of a claim list, in order.
pub open spec fn claim_leaves(claims: Seq<ClaimData>) -> Seq<Seq<u8>> {
    Seq::new(claims.len(), |i: int| compute_claim_hash_spec(claims[i])->Ok_0)
}

/// Computes every claim's leaf hash, in order; the first failing
/// claim's error is reported.
#[verifier::loop_isolation(false)]
pub fn compute_claim_hashes(claims: &Vec<ClaimData>) -> (r: Result<Vec<Vec<u8>>, EncodeError>)
    ensures
        r is Ok <==> claim_leaves_ok(claims@),
        r matches Ok(v) ==> v.deep_view() == claim_leaves(claims@) && v@.len() == claims@.len(),
        r matches Err(e) ==> exists|i: int| 0 <= i < claims@.len() && compute_claim_hash_spec(
            #[trigger] claims@[i]) == Err::<Seq<u8>, EncodeError>(e),
{
    let len = claims.len();
    let mut out: Vec<Vec<u8>> = Vec::new();
    let mut i: usize = 0;
    while i < len
        invariant
            i <= len,
            out@.len() == i,
            forall|q: int| 0 <= q < i ==> compute_claim_hash_spec(#[trigger] claims@[q]) is Ok,
            forall|q: int| 0 <= q < i ==> #[trigger] out.deep_view()[q]
                == compute_claim_hash_spec(claims@[q])->Ok_0,
        decreases len - i,
    {
        let h = match compute_claim_hash(&claims[i]) {
            Ok(h) => h,
            Err(e) => {
                return Err(e);
            },
        };
        let ghost hv = h@;
        let ghost old_dv = out.deep_view();
        out.push(h);
        proof {
            assert forall|q: int| 0 <= q < i + 1 implies #[trigger] out.deep_view()[q]
                == compute_claim_hash_spec(claims@[q])->Ok_0 by {
                if q < i {
                    assert(out.deep_view()[q] == old_dv[q]);
                } else {
                    assert(out.deep_view()[q] == hv);
                }
            }
        }
        i = i + 1;
    }
    proof {
        assert(out.deep_view() =~= claim_leaves(claims@));
    }
    Ok(out)
}

/// Builds a signed commitment record over an ordered claim set: the
/// Merkle root of the claims' leaf hashes, signed by the keypair, with
/// an optional validity window in days.
pub fn build_commitment_record(id: String, claim_ids: Vec<String>, claims: &Vec<ClaimData>,
    keypair: &KeyPair, now_secs: i64, valid_days: Option<i64>) -> (r: Result<CommitmentRecord,
    ProofError>)
    requires
        keypair.wf(),
        valid_days matches Some(d) ==> i64::MIN <= d * 86400 <= i64::MAX && i64::MIN <= now_secs
            + d * 86400 <= i64::MAX,
    ensures
        r is Ok <==> claims@.len() == claim_ids@.len() && 1 <= claims@.len() <= 0x1_0000_0000
            && claim_leaves_ok(claims@),
        r matches Ok(rec) ==> {
            &&& rec.id == id
            &&& rec.root@ == hex_of(merkle_root_of(claim_leaves(claims@)))
            &&& rec.claim_count == claim_ids@.len()
            &&& rec.claim_ids == claim_ids
            &&& rec.public_key@ == hex_of(ed25519_pubkey_of(keypair@))
            &&& rec.signature@ == hex_of(ed25519_sig_of(keypair@, merkle_root_of(claim_leaves(
                claims@))))
            &&& rec.valid_from == Some(now_secs)
            &&& rec.valid_until == (match valid_days {
                Some(d) => Some((now_secs + d * 86400) as i64),
                None => None::<i64>,
            })
            &&& !rec.revoked
            &&& rec.revoked_at is None
            &&& rec.revoked_reason is None
            &&& rec.created_at == now_secs
        },
{
    if claim_ids.len() == 0 {
        return Err(ProofError::Merkle(CommitmentError::EmptyClaims));
    }
    if claims.len() != claim_ids.len() {
        return Err(ProofError::ClaimNotFound);
    }
    let claim_hashes = match compute_claim_hashes(claims) {
        Ok(v) => v,
        Err(e) => {
            return Err(ProofError::Encode(e));
        },
    };
    let tree = match MerkleTree::build(claim_hashes) {
        Ok(t) => t,
        Err(e) => {
            return Err(ProofError::Merkle(e));
        },
    };
    let root = tree.root();
    let root_hex = to_hex(root.as_slice());
    let signature = keypair.sign_hex(root.as_slice());
    let public_key = keypair.public_key().key;
    let valid_until: Option<i64> = match valid_days {
        Some(d) => Some(now_secs + d * 86400),
        None => None,
    };
    let claim_count = claim_ids.len();
    Ok(CommitmentRecord {
        id,
        root: root_hex,
        claim_count,
        claim_ids,
        public_key,
        signature,
        valid_from: Some(now_secs),
        valid_until,
        revoked: false,
        revoked_at: None,
        revoked_reason: None,
        created_at: now_secs,
    })
}

/// The admission checks before any claim work, in order: resolution,
/// revocation, validity window, index bounds.
pub open spec fn admission_error(commitment: Option<CommitmentRecord>, claim_index: int, now: i64)
    -> Option<ProofError> {
    match commitment {
        None => Some(ProofError::NotFound),
        Some(c) => if c.revoked {
            Some(ProofError::Revoked)
        } else {
            match c.valid_until {
                Some(vu) => if now > vu {
                    Some(ProofError::Expired)
                } else if claim_index >= c.claim_ids@.len() {
                    Some(ProofError::IndexOutOfRange)
                } else {
                    None
                },
                None => if claim_index >= c.claim_ids@.len() {
                    Some(ProofError::IndexOutOfRange)
                } else {
                    None
                },
            }
        },
    }
}

/// The forbidden-substances field of the request extras, under either
/// accepted name.
pub open spec fn forbidden_field(extra: Option<JsonValue>) -> Option<JsonValue> {
    match extra {
        Some(JsonValue::Obj(es)) => or_opt(lookup_key(es@, "forbidden_substances"@), lookup_key(
            es@, "forbiddenSubstances"@)),
        _ => None,
    }
}

/// The check-timestamp field of the request extras, under either
/// accepted name, where it parses.
pub open spec fn extra_check_ts(extra: Option<JsonValue>) -> Option<u64> {
    match extra {
        Some(JsonValue::Obj(es)) => match or_opt(lookup_key(es@, "check_timestamp"@),
            lookup_key(es@, "checkTimestamp"@)) {
            Some(v) => ts_value_spec(v),
            None => None,
        },
        _ => None,
    }
}

/// The timestamp a certificate-validity proof checks against: the
/// explicit one, else one given in the extras, else "now".
pub open spec fn cert_check_ts(input: GenerateProofInput, now: i64) -> u64 {
    match input.timestamp {
        Some(t) => t,
        None => match extra_check_ts(input.extra) {
            Some(t) => t,
            None => now as u64,
        },
    }
}

/// The substances field of a substance-content claim value.
pub open spec fn substances_field(v: JsonValue) -> Option<JsonValue> {
    match v {
        JsonValue::Obj(es) => lookup_key(es@, "substances"@),
        _ => None,
    }
}

/// Whether a witness builder exists for the predicate.
pub open spec fn supported_predicate(name: Seq<char>, version: Seq<char>) -> bool {
    ||| (name == "RECYCLED_CONTENT_GTE"@ && version == "V1"@)
    ||| (name == "CARBON_FOOTPRINT_LTE"@ && version == "V1"@)
    ||| (name == "CERT_VALID"@ && version == "V1"@)
    ||| (name == "SUBSTANCE_NOT_IN_LIST"@ && version == "V1"@)
}

/// What the predicate-specific step demands of the selected claim and
/// the request.
pub open spec fn dispatch_ok(c: CommitmentRecord, claim: ClaimData, input: GenerateProofInput)
    -> bool {
    match predicate_split(input.predicate_id@) {
        None => false,
        Some(nv) => if nv.0 == "RECYCLED_CONTENT_GTE"@ && nv.1 == "V1"@ {
            &&& input.threshold is Some
            &&& parse_u32_spec(claim.value) is Some
            &&& claim.claim_type@ == "recycled_content"@
            &&& is_hex_32_spec(c.root@)
        } else if nv.0 == "CARBON_FOOTPRINT_LTE"@ && nv.1 == "V1"@ {
            &&& input.threshold is Some
            &&& parse_scaled_spec(claim.value) is Some
            &&& claim.claim_type@ == "carbon_footprint"@
            &&& is_hex_32_spec(c.root@)
        } else if nv.0 == "CERT_VALID"@ && nv.1 == "V1"@ {
            &&& claim.claim_type@ == "certification"@
            &&& cert_window_spec(claim.value) is Ok
            &&& is_hex_32_spec(c.root@)
        } else if nv.0 == "SUBSTANCE_NOT_IN_LIST"@ && nv.1 == "V1"@ {
            &&& claim.claim_type@ == "substance_content"@
            &&& claim.value is Obj
            &&& substances_field(claim.value) is Some
            &&& string_list_spec(substances_field(claim.value)->Some_0) is Some
            &&& forbidden_field(input.extra) is Some
            &&& string_list_spec(forbidden_field(input.extra)->Some_0) is Some
            &&& is_hex_32_spec(c.root@)
        } else {
            false
        },
    }
}

/// The commitment behind an optional reference.
pub open spec fn opt_record(c: Option<&CommitmentRecord>) -> Option<CommitmentRecord> {
    match c {
        Some(x) => Some(*x),
        None => None,
    }
}

/// When a proof request can be served: the admission checks pass, the predicate
/// parses to a supported witness builder, every claim's leaf hash is
/// computable, the tree fits, and the selected claim fits the
/// predicate.
pub open spec fn prepare_ok(commitment: Option<CommitmentRecord>, claims: Seq<ClaimData>,
    input: GenerateProofInput, now: i64) -> bool {
    &&& admission_error(commitment, input.claim_index as int, now) is None
    &&& predicate_split(input.predicate_id@) is Some
    &&& claims.len() == commitment->Some_0.claim_ids@.len()
    &&& claim_leaves_ok(claims)
    &&& claims.len() <= 0x1_0000_0000
    &&& dispatch_ok(commitment->Some_0, claims[input.claim_index as int], input)
}

/// A length clamped into 32 bits.
pub open spec fn len_u32(n: nat) -> u32 {
    if n <= u32::MAX {
        n as u32
    } else {
        u32::MAX
    }
}

/// The Merkle fields every witness carries, tied to the recomputed
/// leaves: the claim hash is the selected leaf, and the path replays
/// to the recomputed root.
pub open spec fn merkle_fields_ok(claim_hash: Seq<u8>, path: Seq<Seq<u8>>, indices: Seq<u8>,
    tree_depth: u32, leaves: Seq<Seq<u8>>, idx: int) -> bool {
    &&& claim_hash == leaves[idx]
    &&& indices.len() == path.len()
    &&& tree_depth == len_u32(path.len())
    &&& proof_ok(claim_hash, path, indices, merkle_root_of(leaves))
}

/// What a prepared proof promises about its witness, per predicate.
pub open spec fn prepared_matches(p: PreparedProof, c: CommitmentRecord, claims: Seq<ClaimData>,
    input: GenerateProofInput, now: i64) -> bool {
    let leaves = claim_leaves(claims);
    let idx = input.claim_index as int;
    let claim = claims[idx];
    &&& predicate_split(input.predicate_id@) == Some((p.predicate.name@, p.predicate.version@))
    &&& p.product_binding@ == binding_spec("product"@, input.product_id@)
    &&& p.requester_binding@ == binding_spec("requester"@, input.requester_id@)
    &&& match p.witness {
        WitnessRequest::RecycledContent(w) => {
            &&& p.predicate.name@ == "RECYCLED_CONTENT_GTE"@
            &&& input.threshold == Some(w.threshold)
            &&& parse_u32_spec(claim.value) == Some(w.actual_value)
            &&& claim.claim_type@ == "recycled_content"@
            &&& w.commitment_root@ == hex_decode(c.root@)
            &&& w.product_binding@ == hex_decode(p.product_binding@)
            &&& w.requester_binding@ == hex_decode(p.requester_binding@)
            &&& w.claim_type_hash@ == hash_str_spec(claim.claim_type@)
            &&& w.unit_hash@ == hash_str_spec(claim.unit@)
            &&& merkle_fields_ok(w.claim_hash@, w.merkle_path.deep_view(), w.merkle_indices@,
                w.tree_depth, leaves, idx)
            &&& p.timestamp == input.timestamp
            &&& p.extra == input.extra
        },
        WitnessRequest::CarbonFootprint(w) => {
            &&& p.predicate.name@ == "CARBON_FOOTPRINT_LTE"@
            &&& input.threshold == Some(w.threshold)
            &&& parse_scaled_spec(claim.value) == Some(w.actual_value)
            &&& claim.claim_type@ == "carbon_footprint"@
            &&& w.commitment_root@ == hex_decode(c.root@)
            &&& w.product_binding@ == hex_decode(p.product_binding@)
            &&& w.requester_binding@ == hex_decode(p.requester_binding@)
            &&& w.claim_type_hash@ == hash_str_spec(claim.claim_type@)
            &&& w.unit_hash@ == hash_str_spec(claim.unit@)
            &&& merkle_fields_ok(w.claim_hash@, w.merkle_path.deep_view(), w.merkle_indices@,
                w.tree_depth, leaves, idx)
            &&& p.timestamp == input.timestamp
            &&& p.extra == input.extra
        },
        WitnessRequest::CertValid(w) => {
            &&& p.predicate.name@ == "CERT_VALID"@
            &&& claim.claim_type@ == "certification"@
            &&& w.check_timestamp == cert_check_ts(input, now)
            &&& cert_window_spec(claim.value) == Ok::<(u64, u64), EncodeError>((w.valid_from,
                w.valid_until))
            &&& w.commitment_root@ == hex_decode(c.root@)
            &&& w.product_binding@ == hex_decode(p.product_binding@)
            &&& w.requester_binding@ == hex_decode(p.requester_binding@)
            &&& w.claim_type_hash@ == hash_str_spec(claim.claim_type@)
            &&& merkle_fields_ok(w.claim_hash@, w.merkle_path.deep_view(), w.merkle_indices@,
                w.tree_depth, leaves, idx)
            &&& p.timestamp == Some(cert_check_ts(input, now))
            &&& p.extra == input.extra
        },
        WitnessRequest::SubstanceNotInList(w) => {
            let names = string_list_spec(substances_field(claim.value)->Some_0)->Some_0;
            let forb = string_list_spec(forbidden_field(input.extra)->Some_0)->Some_0;
            &&& p.predicate.name@ == "SUBSTANCE_NOT_IN_LIST"@
            &&& claim.claim_type@ == "substance_content"@
            &&& substances_field(claim.value) is Some
            &&& string_list_spec(substances_field(claim.value)->Some_0) is Some
            &&& forbidden_field(input.extra) is Some
            &&& string_list_spec(forbidden_field(input.extra)->Some_0) is Some
            &&& w.product_substances.deep_view() == substance_ids_spec(names)
            &&& w.num_substances == len_u32(names.len())
            &&& w.forbidden_substances.deep_view() == substance_ids_spec(forb)
            &&& w.num_forbidden == len_u32(forb.len())
            &&& w.forbidden_list_hash@ == hash_substance_list_spec(domain_forbidden(),
                hash_str_spec(claim.claim_type@), substance_ids_spec(forb), len_u32(
                forb.len()) as nat)
            &&& w.commitment_root@ == hex_decode(c.root@)
            &&& w.product_binding@ == hex_decode(p.product_binding@)
            &&& w.requester_binding@ == hex_decode(p.requester_binding@)
            &&& w.claim_type_hash@ == hash_str_spec(claim.claim_type@)
            &&& merkle_fields_ok(w.claim_hash@, w.merkle_path.deep_view(), w.merkle_indices@,
                w.tree_depth, leaves, idx)
            &&& p.timestamp == input.timestamp
            &&& extra_upserted(input.extra, p.extra, hex_of(w.forbidden_list_hash@))
        },
    }
}

/// How the extras of a substance proof relate to the request's: the
/// forbidden-list hash is recorded under its key, everything else is
/// untouched (and a non-object extra passes through unchanged).
pub open spec fn extra_upserted(before: Option<JsonValue>, after: Option<JsonValue>,
    hash_hex: Seq<char>) -> bool {
    match before {
        Some(JsonValue::Obj(es0)) => {
            &&& after matches Some(JsonValue::Obj(es2))
            &&& (after->Some_0 matches JsonValue::Obj(es2) ==> {
                &&& lookup_key(es2@, "forbiddenListHash"@) matches Some(JsonValue::Str(h))
                    && h@ == hash_hex
                &&& forall|k: Seq<char>| k != "forbiddenListHash"@ ==> #[trigger] lookup_key(
                    es2@, k) == lookup_key(es0@, k)
            })
        },
        Some(other) => after == Some(other),
        None => {
            &&& after matches Some(JsonValue::Obj(es2))
            &&& (after->Some_0 matches JsonValue::Obj(es2) ==> {
                &&& lookup_key(es2@, "forbiddenListHash"@) matches Some(JsonValue::Str(h))
                    && h@ == hash_hex
                &&& forall|k: Seq<char>| k != "forbiddenListHash"@ ==> #[trigger] lookup_key(
                    es2@, k) is None
            })
        },
    }
}

proof fn lemma_lookup_update(es: Seq<(String, JsonValue)>, es2: Seq<(String, JsonValue)>,
    i: int, k: Seq<char>)
    requires
        0 <= i < es.len(),
        es2 =~= es.update(i, es2[i]),
        es2[i].0@ == es[i].0@,
        k != es[i].0@,
    ensures
        lookup_key(es2, k) == lookup_key(es, k),
    decreases es.len(),
{
    if i == 0 {
        assert(es2[0].0@ == es[0].0@);
        assert(es2.drop_first() =~= es.drop_first());
    } else {
        assert(es2[0] == es[0]);
        assert(es2.drop_first() =~= es.drop_first().update(i - 1, es2[i]));
        assert(es2.drop_first()[i - 1] == es2[i]);
        lemma_lookup_update(es.drop_first(), es2.drop_first(), i - 1, k);
    }
}

proof fn lemma_lookup_push(es: Seq<(String, JsonValue)>, e: (String, JsonValue), k: Seq<char>)
    ensures
        lookup_key(es.push(e), k) == (if lookup_key(es, k) is Some {
            lookup_key(es, k)
        } else if e.0@ == k {
            Some(e.1)
        } else {
            None::<JsonValue>
        }),
    decreases es.len(),
{
    let s2 = es.push(e);
    if es.len() == 0 {
        assert(s2[0] == e);
        assert(s2.drop_first() =~= Seq::<(String, JsonValue)>::empty());
        assert(lookup_key(Seq::<(String, JsonValue)>::empty(), k) is None);
        assert(lookup_key(s2.drop_first(), k) is None);
    } else {
        assert(s2[0] == es[0]);
        assert(s2.drop_first() =~= es.drop_first().push(e));
        lemma_lookup_push(es.drop_first(), e, k);
    }
}

/// Records the forbidden-list hash in the request extras: replaces or
/// appends the entry on an object, makes a one-entry object from
/// nothing, and leaves a non-object value alone.
#[verifier::loop_isolation(false)]
fn upsert_forbidden_hash(extra: Option<JsonValue>, hash_hex: String) -> (r: Option<JsonValue>)
    ensures
        extra_upserted(extra, r, hash_hex@),
{
    let ghost hash_view = hash_hex@;
    match extra {
        None => {
            let mut es2: Vec<(String, JsonValue)> = Vec::new();
            es2.push((String::from_str("forbiddenListHash"), JsonValue::Str(hash_hex)));
            proof {
                assert(es2@[0].0@ == "forbiddenListHash"@);
                lemma_lookup_at(es2@, "forbiddenListHash"@, 0);
                assert forall|k: Seq<char>| k != "forbiddenListHash"@ implies #[trigger]
                    lookup_key(es2@, k) is None by {
                    lemma_lookup_none(es2@.drop_first(), k);
                    assert(es2@[0].0@ != k);
                }
            }
            Some(JsonValue::Obj(es2))
        },
        Some(JsonValue::Obj(mut es)) => {
            let ghost es0 = es@;
            let len = es.len();
            let mut i: usize = 0;
            while i < len
                invariant
                    es@ == es0,
                    len == es0.len(),
                    i <= len,
                    forall|q: int| 0 <= q < i ==> #[trigger] es0[q].0@ != "forbiddenListHash"@,
                decreases len - i,
            {
                if str_eq(es[i].0.as_str(), "forbiddenListHash") {
                    break;
                }
                i = i + 1;
            }
            if i < len {
                let _old_entry = es.remove(i);
                es.insert(i, (String::from_str("forbiddenListHash"), JsonValue::Str(hash_hex)));
                proof {
                    assert(es@ =~= es0.update(i as int, es@[i as int]));
                    assert(es@[i as int].0@ == "forbiddenListHash"@);
                    assert(es0[i as int].0@ == "forbiddenListHash"@);
                    assert forall|q: int| 0 <= q < i implies #[trigger] es@[q].0@
                        != "forbiddenListHash"@ by {
                        assert(es@[q] == es0[q]);
                    }
                    lemma_lookup_at(es@, "forbiddenListHash"@, i as int);
                    assert(es@[i as int].1 == JsonValue::Str(hash_hex));
                    assert forall|k: Seq<char>| k != "forbiddenListHash"@ implies #[trigger]
                        lookup_key(es@, k) == lookup_key(es0, k) by {
                        lemma_lookup_update(es0, es@, i as int, k);
                    }
                }
                Some(JsonValue::Obj(es))
            } else {
                let ghost entry_val = hash_hex@;
                es.push((String::from_str("forbiddenListHash"), JsonValue::Str(hash_hex)));
                proof {
                    assert(es@ =~= es0.push(es@[es0.len() as int]));
                    assert(es@[es0.len() as int].0@ == "forbiddenListHash"@);
                    assert(es@[es0.len() as int].1 matches JsonValue::Str(h) && h@ == entry_val);
                    lemma_lookup_none(es0, "forbiddenListHash"@);
                    lemma_lookup_push(es0, es@[es0.len() as int], "forbiddenListHash"@);
                    assert forall|k: Seq<char>| k != "forbiddenListHash"@ implies #[trigger]
                        lookup_key(es@, k) == lookup_key(es0, k) by {
                        lemma_lookup_push(es0, es@[es0.len() as int], k);
                    }
                }
                Some(JsonValue::Obj(es))
            }
        },
        Some(other) => Some(other),
    }
}

/// Prepares a proof request: checks the commitment's state, normalizes
/// the bindings, parses the predicate, recomputes every claim's leaf
/// hash, rebuilds the Merkle tree, proves inclusion of the selected
/// claim, and assembles the predicate's witness inputs. The claims
/// must be those of the commitment's claim ids, in order.
#[verifier::rlimit(60)]
pub fn prepare_proof_request(commitment: Option<&CommitmentRecord>, claims: &Vec<ClaimData>,
    input: GenerateProofInput, now_secs: i64) -> (r: Result<PreparedProof, ProofError>)
    requires
        0 <= now_secs,
    ensures
        admission_error(opt_record(commitment), input.claim_index as int, now_secs) matches Some(e)
            ==> r == Err::<PreparedProof, ProofError>(e),
        r is Ok <==> prepare_ok(opt_record(commitment), claims@, input, now_secs),
        r matches Ok(p) ==> prepared_matches(p, *commitment->Some_0, claims@, input, now_secs),
{
    let c = match commitment {
        Some(c) => c,
        None => {
            return Err(ProofError::NotFound);
        },
    };
    if c.revoked {
        return Err(ProofError::Revoked);
    }
    match c.valid_until {
        Some(valid_until) => {
            if now_secs > valid_until {
                return Err(ProofError::Expired);
            }
        },
        None => {},
    }
    if input.claim_index >= c.claim_ids.len() {
        return Err(ProofError::IndexOutOfRange);
    }

    let product_binding = normalize_binding("product", input.product_id.as_str());
    let requester_binding = normalize_binding("requester", input.requester_id.as_str());

    let predicate = match parse_predicate_id(input.predicate_id.as_str()) {
        Ok(p) => p,
        Err(e) => {
            return Err(ProofError::Predicate(e));
        },
    };

    if claims.len() != c.claim_ids.len() {
        return Err(ProofError::ClaimNotFound);
    }
    let claim_hashes = match compute_claim_hashes(claims) {
        Ok(v) => v,
        Err(e) => {
            return Err(ProofError::Encode(e));
        },
    };
    let ghost leaves = claim_hashes.deep_view();
    let tree = match MerkleTree::build(claim_hashes) {
        Ok(t) => t,
        Err(e) => {
            return Err(ProofError::Merkle(e));
        },
    };
    let merkle_proof = tree.prove(input.claim_index);
    let MerkleProof { leaf, path, indices } = merkle_proof;
    let tree_depth: u32 = if path.len() <= u32::MAX as usize {
        path.len() as u32
    } else {
        u32::MAX
    };
    let claim = &claims[input.claim_index];
    proof {
        assert(leaves =~= claim_leaves(claims@));
    }

    let name_rc = str_eq(predicate.name.as_str(), "RECYCLED_CONTENT_GTE");
    let name_cf = str_eq(predicate.name.as_str(), "CARBON_FOOTPRINT_LTE");
    let name_cv = str_eq(predicate.name.as_str(), "CERT_VALID");
    let name_sn = str_eq(predicate.name.as_str(), "SUBSTANCE_NOT_IN_LIST");
    let v1 = str_eq(predicate.version.as_str(), "V1");

    if name_rc && v1 {
        let threshold = match input.threshold {
            Some(t) => t,
            None => {
                return Err(ProofError::ThresholdRequired);
            },
        };
        let actual_value = match parse_u32_value(&claim.value) {
            Ok(v) => v,
            Err(e) => {
                return Err(ProofError::Encode(e));
            },
        };
        if !str_eq(claim.claim_type.as_str(), "recycled_content") {
            return Err(ProofError::ClaimTypeMismatch);
        }
        let commitment_root = match hex_to_bytes32(c.root.as_str()) {
            Ok(b) => b,
            Err(e) => {
                return Err(e);
            },
        };
        proof {
            lemma_binding_is_hex("product"@, input.product_id@);
            lemma_binding_is_hex("requester"@, input.requester_id@);
        }
        let product_binding_bytes = match hex_to_bytes32(product_binding.as_str()) {
            Ok(b) => b,
            Err(e) => {
                return Err(e);
            },
        };
        let requester_binding_bytes = match hex_to_bytes32(requester_binding.as_str()) {
            Ok(b) => b,
            Err(e) => {
                return Err(e);
            },
        };
        let claim_type_hash = hash_claim_type(claim.claim_type.as_str());
        let unit_hash = crate::encode::hash_unit(claim.unit.as_str());
        Ok(PreparedProof {
            predicate,
            witness: WitnessRequest::RecycledContent(RecycledContentInputs {
                threshold,
                commitment_root,
                product_binding: product_binding_bytes,
                requester_binding: requester_binding_bytes,
                actual_value,
                claim_type_hash,
                unit_hash,
                claim_hash: leaf,
                merkle_path: path,
                merkle_indices: indices,
                tree_depth,
            }),
            product_binding,
            requester_binding,
            timestamp: input.timestamp,
            extra: input.extra,
        })
    } else if name_cf && v1 {
        let threshold = match input.threshold {
            Some(t) => t,
            None => {
                return Err(ProofError::ThresholdRequired);
            },
        };
        let actual_value = match parse_scaled_u32_value(&claim.value) {
            Ok(v) => v,
            Err(e) => {
                return Err(ProofError::Encode(e));
            },
        };
        if !str_eq(claim.claim_type.as_str(), "carbon_footprint") {
            return Err(ProofError::ClaimTypeMismatch);
        }
        let commitment_root = match hex_to_bytes32(c.root.as_str()) {
            Ok(b) => b,
            Err(e) => {
                return Err(e);
            },
        };
        proof {
            lemma_binding_is_hex("product"@, input.product_id@);
            lemma_binding_is_hex("requester"@, input.requester_id@);
        }
        let product_binding_bytes = match hex_to_bytes32(product_binding.as_str()) {
            Ok(b) => b,
            Err(e) => {
                return Err(e);
            },
        };
        let requester_binding_bytes = match hex_to_bytes32(requester_binding.as_str()) {
            Ok(b) => b,
            Err(e) => {
                return Err(e);
            },
        };
        let claim_type_hash = hash_claim_type(claim.claim_type.as_str());
        let unit_hash = crate::encode::hash_unit(claim.unit.as_str());
        Ok(PreparedProof {
            predicate,
            witness: WitnessRequest::CarbonFootprint(CarbonFootprintInputs {
                threshold,
                commitment_root,
                product_binding: product_binding_bytes,
                requester_binding: requester_binding_bytes,
                actual_value,
                claim_type_hash,
                unit_hash,
                claim_hash: leaf,
                merkle_path: path,
                merkle_indices: indices,
                tree_depth,
            }),
            product_binding,
            requester_binding,
            timestamp: input.timestamp,
            extra: input.extra,
        })
    } else if name_cv && v1 {
        if !str_eq(claim.claim_type.as_str(), "certification") {
            return Err(ProofError::ClaimTypeMismatch);
        }
        let window = match extract_cert_window(&claim.value) {
            Ok(w) => w,
            Err(e) => {
                return Err(ProofError::Encode(e));
            },
        };
        let check_timestamp: u64 = match input.timestamp {
            Some(t) => t,
            None => {
                let from_extra: Option<u64> = match &input.extra {
                    Some(JsonValue::Obj(es)) => {
                        let field = match get_key(es, "check_timestamp") {
                            Some(x) => Some(x),
                            None => get_key(es, "checkTimestamp"),
                        };
                        match field {
                            Some(x) => match parse_u64_timestamp(x) {
                                Ok(t) => Some(t),
                                Err(_) => None,
                            },
                            None => None,
                        }
                    },
                    _ => None,
                };
                match from_extra {
                    Some(t) => t,
                    None => now_secs as u64,
                }
            },
        };
        let commitment_root = match hex_to_bytes32(c.root.as_str()) {
            Ok(b) => b,
            Err(e) => {
                return Err(e);
            },
        };
        proof {
            lemma_binding_is_hex("product"@, input.product_id@);
            lemma_binding_is_hex("requester"@, input.requester_id@);
        }
        let product_binding_bytes = match hex_to_bytes32(product_binding.as_str()) {
            Ok(b) => b,
            Err(e) => {
                return Err(e);
            },
        };
        let requester_binding_bytes = match hex_to_bytes32(requester_binding.as_str()) {
            Ok(b) => b,
            Err(e) => {
                return Err(e);
            },
        };
        let claim_type_hash = hash_claim_type(claim.claim_type.as_str());
        Ok(PreparedProof {
            predicate,
            witness: WitnessRequest::CertValid(CertValidInputs {
                check_timestamp,
                commitment_root,
                product_binding: product_binding_bytes,
                requester_binding: requester_binding_bytes,
                valid_from: window.0,
                valid_until: window.1,
                claim_type_hash,
                claim_hash: leaf,
                merkle_path: path,
                merkle_indices: indices,
                tree_depth,
            }),
            product_binding,
            requester_binding,
            timestamp: Some(check_timestamp),
            extra: input.extra,
        })
    } else if name_sn && v1 {
        if !str_eq(claim.claim_type.as_str(), "substance_content") {
            return Err(ProofError::ClaimTypeMismatch);
        }
        let es = match &claim.value {
            JsonValue::Obj(es) => es,
            _ => {
                return Err(ProofError::Encode(EncodeError::NotAnObject));
            },
        };
        let substances_value = match get_key(es, "substances") {
            Some(x) => x,
            None => {
                return Err(ProofError::Encode(EncodeError::MissingSubstances));
            },
        };
        let product_names = match parse_string_list(substances_value) {
            Ok(l) => l,
            Err(e) => {
                return Err(ProofError::Encode(e));
            },
        };
        let forbidden_names = match &input.extra {
            Some(JsonValue::Obj(ex_entries)) => {
                let field = match get_key(ex_entries, "forbidden_substances") {
                    Some(x) => Some(x),
                    None => get_key(ex_entries, "forbiddenSubstances"),
                };
                match field {
                    Some(x) => match parse_string_list(x) {
                        Ok(l) => l,
                        Err(e) => {
                            return Err(ProofError::Encode(e));
                        },
                    },
                    None => {
                        return Err(ProofError::MissingForbiddenList);
                    },
                }
            },
            _ => {
                return Err(ProofError::MissingForbiddenList);
            },
        };
        let product_ids = substance_ids(&product_names);
        let forbidden_ids = substance_ids(&forbidden_names);
        let num_substances: u32 = if product_ids.len() <= u32::MAX as usize {
            product_ids.len() as u32
        } else {
            u32::MAX
        };
        let num_forbidden: u32 = if forbidden_ids.len() <= u32::MAX as usize {
            forbidden_ids.len() as u32
        } else {
            u32::MAX
        };
        let claim_type_hash = hash_claim_type(claim.claim_type.as_str());
        let domain = domain_forbidden_bytes();
        let forbidden_list_hash = hash_substance_list(&domain, &claim_type_hash, &forbidden_ids,
            num_forbidden);
        proof {
            if forbidden_ids.deep_view().len() <= u32::MAX {
                assert(forbidden_ids.deep_view().take(forbidden_ids.deep_view().len() as int)
                    =~= forbidden_ids.deep_view());
            }
        }
        let commitment_root = match hex_to_bytes32(c.root.as_str()) {
            Ok(b) => b,
            Err(e) => {
                return Err(e);
            },
        };
        proof {
            lemma_binding_is_hex("product"@, input.product_id@);
            lemma_binding_is_hex("requester"@, input.requester_id@);
        }
        let product_binding_bytes = match hex_to_bytes32(product_binding.as_str()) {
            Ok(b) => b,
            Err(e) => {
                return Err(e);
            },
        };
        let requester_binding_bytes = match hex_to_bytes32(requester_binding.as_str()) {
            Ok(b) => b,
            Err(e) => {
                return Err(e);
            },
        };
        let hash_hex = to_hex(forbidden_list_hash.as_slice());
        let new_extra = upsert_forbidden_hash(input.extra, hash_hex);
        Ok(PreparedProof {
            predicate,
            witness: WitnessRequest::SubstanceNotInList(SubstanceNotInListInputs {
                forbidden_list_hash,
                commitment_root,
                product_binding: product_binding_bytes,
                requester_binding: requester_binding_bytes,
                product_substances: product_ids,
                num_substances,
                forbidden_substances: forbidden_ids,
                num_forbidden,
                claim_type_hash,
                claim_hash: leaf,
                merkle_path: path,
                merkle_indices: indices,
                tree_depth,
            }),
            product_binding,
            requester_binding,
            timestamp: input.timestamp,
            extra: new_extra,
        })
    } else {
        Err(ProofError::PredicateUnsupported)
    }
}

/// Assembles the final proof package from a prepared request, the
/// prover's hex-encoded proof bytes, a fresh nonce and the generation
/// time.
pub fn assemble_proof_package(prepared: PreparedProof, commitment_root: String, threshold:
    Option<u32>, proof_hex: String, nonce: String, generated_at: i64, supplier_id: Option<
    String>, requester_id: String, product_id: String) -> (r: ProofPackage)
    ensures
        r.predicate_id == prepared.predicate,
        r.proof == proof_hex,
        r.public_inputs.threshold == threshold,
        r.public_inputs.commitment_root == commitment_root,
        r.public_inputs.product_binding == prepared.product_binding,
        r.public_inputs.requester_binding == prepared.requester_binding,
        r.public_inputs.timestamp == prepared.timestamp,
        r.public_inputs.extra == prepared.extra,
        r.nonce == nonce,
        r.generated_at == generated_at,
        r.context.supplier_id == supplier_id,
        r.context.requester_id == Some(requester_id),
        r.context.product_id == Some(product_id),
{
    ProofPackage {
        predicate_id: prepared.predicate,
        proof: proof_hex,
        public_inputs: PublicInputs {
            threshold,
            commitment_root,
            product_binding: prepared.product_binding,
            requester_binding: prepared.requester_binding,
            timestamp: prepared.timestamp,
            extra: prepared.extra,
        },
        nonce,
        generated_at,
        context: ProofContext {
            supplier_id,
            requester_id: Some(requester_id),
            product_id: Some(product_id),
        },
    }
}

} // verus!

//! Witness encoding for the external prover: per-predicate input
//! structs serialized into a flat key/value text document. 32-byte
//! fields render as decimal byte arrays; Merkle paths and index lists
//! are zero-padded to a fixed depth; substance lists are zero-padded
//! to fixed maxima. Anything longer fails.

use vstd::prelude::*;
use vstd::string::StringExecFns;
use crate::hashing::{copy_byte_rows, copy_bytes};
use crate::strutil::{dec_str, push_char, u32_to_string, u64_to_string, u8_to_string};

verus! {

broadcast use crate::hashing::lemma_bytes_deep_view;

/// The fixed Merkle depth of the prover's circuits: every path and
/// index list is padded to this length.
pub const WITNESS_TREE_DEPTH: usize = 8;

/// The maximum number of substances in a product's own list.
pub const MAX_PRODUCT_SUBSTANCES: usize = 32;

/// The maximum number of substances in a forbidden list.
pub const MAX_FORBIDDEN_SUBSTANCES: usize = 64;

/// A witness that does not fit the circuit's fixed sizes.
#[derive(Debug, Clone, Copy, PartialEq, Eq, Structural)]
pub enum WitnessError {
    /// The Merkle path is longer than the fixed depth.
    PathTooLong,
    /// The Merkle index list is longer than the fixed depth.
    IndicesTooLong,
    /// A substance list is longer than its fixed maximum.
    SubstanceListTooLong,
}

/// Witness inputs for the recycled-content predicate.
#[derive(Debug)]
pub struct RecycledContentInputs {
    pub threshold: u32,
    pub commitment_root: Vec<u8>,
    pub product_binding: Vec<u8>,
    pub requester_binding: Vec<u8>,
    pub actual_value: u32,
    pub claim_type_hash: Vec<u8>,
    pub unit_hash: Vec<u8>,
    pub claim_hash: Vec<u8>,
    pub merkle_path: Vec<Vec<u8>>,
    pub merkle_indices: Vec<u8>,
    pub tree_depth: u32,
}

/// Witness inputs for the carbon-footprint predicate.
#[derive(Debug)]
pub struct CarbonFootprintInputs {
    pub threshold: u32,
    pub commitment_root: Vec<u8>,
    pub product_binding: Vec<u8>,
    pub requester_binding: Vec<u8>,
    pub actual_value: u32,
    pub claim_type_hash: Vec<u8>,
    pub unit_hash: Vec<u8>,
    pub claim_hash: Vec<u8>,
    pub merkle_path: Vec<Vec<u8>>,
    pub merkle_indices: Vec<u8>,
    pub tree_depth: u32,
}

/// Witness inputs for the certificate-validity predicate.
#[derive(Debug)]
pub struct CertValidInputs {
    pub check_timestamp: u64,
    pub commitment_root: Vec<u8>,
    pub product_binding: Vec<u8>,
    pub requester_binding: Vec<u8>,
    pub valid_from: u64,
    pub valid_until: u64,
    pub claim_type_hash: Vec<u8>,
    pub claim_hash: Vec<u8>,
    pub merkle_path: Vec<Vec<u8>>,
    pub merkle_indices: Vec<u8>,
    pub tree_depth: u32,
}

/// Witness inputs for the substance-not-in-list predicate.
#[derive(Debug)]
pub struct SubstanceNotInListInputs {
    pub forbidden_list_hash: Vec<u8>,
    pub commitment_root: Vec<u8>,
    pub product_binding: Vec<u8>,
    pub requester_binding: Vec<u8>,
    pub product_substances: Vec<Vec<u8>>,
    pub num_substances: u32,
    pub forbidden_substances: Vec<Vec<u8>>,
    pub num_forbidden: u32,
    pub claim_type_hash: Vec<u8>,
    pub claim_hash: Vec<u8>,
    pub merkle_path: Vec<Vec<u8>>,
    pub merkle_indices: Vec<u8>,
    pub tree_depth: u32,
}

/// Decimal values joined with ", ".
pub open spec fn dec_list(vals: Seq<u8>) -> Seq<char>
    decreases vals.len(),
{
    if vals.len() == 0 {
        Seq::empty()
    } else if vals.len() == 1 {
        dec_str(vals[0] as nat)
    } else {
        dec_str(vals[0] as nat) + seq![',', ' '] + dec_list(vals.drop_first())
    }
}

/// A byte array rendered as "[d0, d1, ...]".
pub open spec fn toml_byte_array(b: Seq<u8>) -> Seq<char> {
    seq!['['] + dec_list(b) + seq![']']
}

/// Byte arrays joined with ", ".
pub open spec fn row_list(rows: Seq<Seq<u8>>) -> Seq<char>
    decreases rows.len(),
{
    if rows.len() == 0 {
        Seq::empty()
    } else if rows.len() == 1 {
        toml_byte_array(rows[0])
    } else {
        toml_byte_array(rows[0]) + seq![',', ' '] + row_list(rows.drop_first())
    }
}

/// Nested byte arrays rendered as "[[...], [...]]".
pub open spec fn toml_nested(rows: Seq<Seq<u8>>) -> Seq<char> {
    seq!['['] + row_list(rows) + seq![']']
}

/// The all-zero 32-byte padding row.
pub open spec fn zero_row() -> Seq<u8> {
    Seq::new(32, |_i: int| 0u8)
}

/// Rows padded with all-zero rows up to `n`.
pub open spec fn pad_rows(rows: Seq<Seq<u8>>, n: int) -> Seq<Seq<u8>> {
    rows + Seq::new((n - rows.len()) as nat, |_i: int| zero_row())
}

/// Bytes padded with zeros up to `n`.
pub open spec fn pad_bytes(vals: Seq<u8>, n: int) -> Seq<u8> {
    vals + Seq::new((n - vals.len()) as nat, |_i: int| 0u8)
}

proof fn lemma_dec_list_snoc(vals: Seq<u8>, x: u8)
    ensures
        dec_list(vals.push(x)) == if vals.len() == 0 {
            dec_str(x as nat)
        } else {
            dec_list(vals) + seq![',', ' '] + dec_str(x as nat)
        },
    decreases vals.len(),
{
    let s2 = vals.push(x);
    if vals.len() == 0 {
        assert(s2.len() == 1);
        assert(s2[0] == x);
    } else {
        assert(s2[0] == vals[0]);
        assert(s2.drop_first() =~= vals.drop_first().push(x));
        lemma_dec_list_snoc(vals.drop_first(), x);
        if vals.len() == 1 {
            assert(vals.drop_first().len() == 0);
            assert(dec_list(s2) == dec_str(vals[0] as nat) + seq![',', ' '] + dec_str(x as nat));
            assert(dec_list(vals) == dec_str(vals[0] as nat));
        } else {
            assert(dec_list(s2) == dec_str(vals[0] as nat) + seq![',', ' '] + (dec_list(
                vals.drop_first()) + seq![',', ' '] + dec_str(x as nat)));
            assert(dec_str(vals[0] as nat) + seq![',', ' '] + (dec_list(vals.drop_first()) + seq![
                ',', ' '] + dec_str(x as nat)) =~= (dec_str(vals[0] as nat) + seq![',', ' ']
                + dec_list(vals.drop_first())) + seq![',', ' '] + dec_str(x as nat));
        }
    }
}

proof fn lemma_row_list_snoc(rows: Seq<Seq<u8>>, x: Seq<u8>)
    ensures
        row_list(rows.push(x)) == if rows.len() == 0 {
            toml_byte_array(x)
        } else {
            row_list(rows) + seq![',', ' '] + toml_byte_array(x)
        },
    decreases rows.len(),
{
    let s2 = rows.push(x);
    if rows.len() == 0 {
        assert(s2.len() == 1);
        assert(s2[0] == x);
    } else {
        assert(s2[0] == rows[0]);
        assert(s2.drop_first() =~= rows.drop_first().push(x));
        lemma_row_list_snoc(rows.drop_first(), x);
        if rows.len() == 1 {
            assert(rows.drop_first().len() == 0);
            assert(row_list(s2) == toml_byte_array(rows[0]) + seq![',', ' '] + toml_byte_array(
                x));
            assert(row_list(rows) == toml_byte_array(rows[0]));
        } else {
            assert(row_list(s2) == toml_byte_array(rows[0]) + seq![',', ' '] + (row_list(
                rows.drop_first()) + seq![',', ' '] + toml_byte_array(x)));
            assert(toml_byte_array(rows[0]) + seq![',', ' '] + (row_list(rows.drop_first())
                + seq![',', ' '] + toml_byte_array(x)) =~= (toml_byte_array(rows[0]) + seq![',',
                ' '] + row_list(rows.drop_first())) + seq![',', ' '] + toml_byte_array(x));
        }
    }
}

/// Renders a byte vector as a decimal-byte TOML array.
#[verifier::loop_isolation(false)]
pub fn bytes_to_toml_array(bytes: &Vec<u8>) -> (r: String)
    ensures
        r@ == toml_byte_array(bytes@),
{
    let mut out = String::new();
    push_char(&mut out, '[');
    let ghost base = out@;
    let len = bytes.len();
    let mut i: usize = 0;
    proof {
        assert(bytes@.take(0) =~= Seq::<u8>::empty());
        assert(base + dec_list(bytes@.take(0)) =~= base);
    }
    while i < len
        invariant
            i <= len,
            out@ == base + dec_list(bytes@.take(i as int)),
        decreases len - i,
    {
        if i > 0 {
            out.append(", ");
        }
        let piece = u8_to_string(bytes[i]);
        out.append(piece.as_str());
        proof {
            reveal_strlit(", ");
            assert(", "@ =~= seq![',', ' ']);
            assert(bytes@.take(i + 1) =~= bytes@.take(i as int).push(bytes@[i as int]));
            lemma_dec_list_snoc(bytes@.take(i as int), bytes@[i as int]);
            if i > 0 {
                assert(base + dec_list(bytes@.take(i as int)) + ", "@ + dec_str(bytes@[
                    i as int] as nat) =~= base + dec_list(bytes@.take(i + 1)));
            } else {
                assert(base + dec_list(bytes@.take(0)) + dec_str(bytes@[0] as nat) =~= base
                    + dec_list(bytes@.take(1)));
            }
        }
        i = i + 1;
    }
    push_char(&mut out, ']');
    proof {
        assert(bytes@.take(len as int) =~= bytes@);
        assert(out@ =~= toml_byte_array(bytes@));
    }
    out
}

/// Renders a 0/1 index list as a decimal TOML array.
pub fn u1_array_to_toml(values: &Vec<u8>) -> (r: String)
    ensures
        r@ == toml_byte_array(values@),
{
    bytes_to_toml_array(values)
}

/// Renders a list of byte vectors as a nested TOML array.
#[verifier::loop_isolation(false)]
pub fn nested_bytes_to_toml_array(values: &Vec<Vec<u8>>) -> (r: String)
    ensures
        r@ == toml_nested(values.deep_view()),
{
    let mut out = String::new();
    push_char(&mut out, '[');
    let ghost base = out@;
    let len = values.len();
    let mut i: usize = 0;
    proof {
        assert(values.deep_view().take(0) =~= Seq::<Seq<u8>>::empty());
        assert(base + row_list(values.deep_view().take(0)) =~= base);
    }
    while i < len
        invariant
            i <= len,
            out@ == base + row_list(values.deep_view().take(i as int)),
        decreases len - i,
    {
        if i > 0 {
            out.append(", ");
        }
        let piece = bytes_to_toml_array(&values[i]);
        out.append(piece.as_str());
        proof {
            reveal_strlit(", ");
            assert(", "@ =~= seq![',', ' ']);
            assert(values.deep_view().take(i + 1) =~= values.deep_view().take(i as int).push(
                values.deep_view()[i as int]));
            lemma_row_list_snoc(values.deep_view().take(i as int), values.deep_view()[i as int]);
            assert(piece@ == toml_byte_array(values.deep_view()[i as int]));
            if i > 0 {
                assert(base + row_list(values.deep_view().take(i as int)) + ", "@
                    + toml_byte_array(values.deep_view()[i as int]) =~= base + row_list(
                    values.deep_view().take(i + 1)));
            } else {
                assert(base + row_list(values.deep_view().take(0)) + toml_byte_array(
                    values.deep_view()[0]) =~= base + row_list(values.deep_view().take(1)));
            }
        }
        i = i + 1;
    }
    push_char(&mut out, ']');
    proof {
        assert(values.deep_view().take(len as int) =~= values.deep_view());
        assert(out@ =~= toml_nested(values.deep_view()));
    }
    out
}

/// Pads rows with all-zero rows up to `n`; the input must not exceed
/// it.
#[verifier::loop_isolation(false)]
fn pad_rows_exec(values: &Vec<Vec<u8>>, n: usize) -> (r: Vec<Vec<u8>>)
    requires
        values@.len() <= n,
    ensures
        r.deep_view() == pad_rows(values.deep_view(), n as int),
        r@.len() == n,
{
    let mut padded = copy_byte_rows(values);
    while padded.len() < n
        invariant
            values@.len() <= padded@.len() <= n,
            forall|k: int| 0 <= k < values@.len() ==> #[trigger] padded.deep_view()[k]
                == values.deep_view()[k],
            forall|k: int| values@.len() <= k < padded@.len() ==> #[trigger] padded.deep_view()[
                k] == zero_row(),
        decreases n - padded@.len(),
    {
        let mut zero: Vec<u8> = Vec::new();
        let mut z: usize = 0;
        while z < 32
            invariant
                z <= 32,
                zero@.len() == z,
                forall|k: int| 0 <= k < z ==> #[trigger] zero@[k] == 0u8,
            decreases 32 - z,
        {
            zero.push(0u8);
            z = z + 1;
        }
        proof {
            assert(zero@ =~= zero_row());
        }
        let ghost old_dv = padded.deep_view();
        let ghost zv = zero@;
        padded.push(zero);
        proof {
            assert(padded.deep_view().len() == old_dv.len() + 1);
            assert forall|k: int| 0 <= k < old_dv.len() implies #[trigger] padded.deep_view()[k]
                == old_dv[k] by {}
            assert(padded.deep_view()[old_dv.len() as int] == zv);
        }
    }
    proof {
        assert(padded.deep_view() =~= pad_rows(values.deep_view(), n as int));
    }
    padded
}

/// Zero-pads a Merkle path to the fixed depth and renders it; fails
/// when the path is longer than the depth.
pub fn pad_merkle_path(path: &Vec<Vec<u8>>, depth: usize) -> (r: Result<String, WitnessError>)
    ensures
        r is Ok <==> path@.len() <= depth,
        r matches Ok(s) ==> s@ == toml_nested(pad_rows(path.deep_view(), depth as int)),
        r matches Err(e) ==> e == WitnessError::PathTooLong,
{
    if path.len() > depth {
        return Err(WitnessError::PathTooLong);
    }
    let padded = pad_rows_exec(path, depth);
    Ok(nested_bytes_to_toml_array(&padded))
}

/// Zero-pads a Merkle index list to the fixed depth and renders it;
/// fails when the list is longer than the depth.
#[verifier::loop_isolation(false)]
pub fn pad_merkle_indices(indices: &Vec<u8>, depth: usize) -> (r: Result<String, WitnessError>)
    ensures
        r is Ok <==> indices@.len() <= depth,
        r matches Ok(s) ==> s@ == toml_byte_array(pad_bytes(indices@, depth as int)),
        r matches Err(e) ==> e == WitnessError::IndicesTooLong,
{
    if indices.len() > depth {
        return Err(WitnessError::IndicesTooLong);
    }
    let mut padded = copy_bytes(indices);
    while padded.len() < depth
        invariant
            indices@.len() <= padded@.len() <= depth,
            forall|k: int| 0 <= k < indices@.len() ==> #[trigger] padded@[k] == indices@[k],
            forall|k: int| indices@.len() <= k < padded@.len() ==> #[trigger] padded@[k] == 0u8,
        decreases depth - padded@.len(),
    {
        padded.push(0u8);
    }
    proof {
        assert(padded@ =~= pad_bytes(indices@, depth as int));
    }
    Ok(u1_array_to_toml(&padded))
}

/// Zero-pads a substance list up to `max` identifiers; fails when the
/// list is longer.
pub fn pad_substances(values: &Vec<Vec<u8>>, max: usize) -> (r: Result<Vec<Vec<u8>>,
    WitnessError>)
    ensures
        r is Ok <==> values@.len() <= max,
        r matches Ok(v) ==> v.deep_view() == pad_rows(values.deep_view(), max as int) && v@.len()
            == max,
        r matches Err(e) ==> e == WitnessError::SubstanceListTooLong,
{
    if values.len() > max {
        return Err(WitnessError::SubstanceListTooLong);
    }
    Ok(pad_rows_exec(values, max))
}

/// The witness document for the recycled-content predicate.
pub open spec fn recycled_content_toml(x: RecycledContentInputs) -> Seq<char> {
    "threshold = \""@ + dec_str(x.threshold as nat) + "\"\ncommitment_root = "@
        + toml_byte_array(x.commitment_root@) + "\nproduct_binding = "@ + toml_byte_array(
        x.product_binding@) + "\nrequester_binding = "@ + toml_byte_array(x.requester_binding@)
        + "\nactual_value = \""@ + dec_str(x.actual_value as nat) + "\"\nclaim_type_hash = "@
        + toml_byte_array(x.claim_type_hash@) + "\nunit_hash = "@ + toml_byte_array(x.unit_hash@)
        + "\nclaim_hash = "@ + toml_byte_array(x.claim_hash@) + "\nmerkle_path = "@ + toml_nested(
        pad_rows(x.merkle_path.deep_view(), 8)) + "\nmerkle_indices = "@ + toml_byte_array(
        pad_bytes(x.merkle_indices@, 8)) + "\ntree_depth = \""@ + dec_str(x.tree_depth as nat)
        + "\"\n"@
}

/// Serializes recycled-content witness inputs; fails when the Merkle
/// path or indices exceed the fixed depth.
pub fn build_recycled_content_prover_toml(inputs: &RecycledContentInputs) -> (r: Result<String,
    WitnessError>)
    ensures
        r is Ok <==> inputs.merkle_path@.len() <= 8 && inputs.merkle_indices@.len() <= 8,
        r matches Ok(s) ==> s@ == recycled_content_toml(*inputs),
        r matches Err(e) ==> e == (if inputs.merkle_path@.len() > 8 {
            WitnessError::PathTooLong
        } else {
            WitnessError::IndicesTooLong
        }),
{
    let path = match pad_merkle_path(&inputs.merkle_path, 8) {
        Ok(s) => s,
        Err(e) => {
            return Err(e);
        },
    };
    let indices = match pad_merkle_indices(&inputs.merkle_indices, 8) {
        Ok(s) => s,
        Err(e) => {
            return Err(e);
        },
    };
    let mut out = String::from_str("threshold = \"");
    let threshold = u32_to_string(inputs.threshold);
    out.append(threshold.as_str());
    out.append("\"\ncommitment_root = ");
    let root = bytes_to_toml_array(&inputs.commitment_root);
    out.append(root.as_str());
    out.append("\nproduct_binding = ");
    let pb = bytes_to_toml_array(&inputs.product_binding);
    out.append(pb.as_str());
    out.append("\nrequester_binding = ");
    let rb = bytes_to_toml_array(&inputs.requester_binding);
    out.append(rb.as_str());
    out.append("\nactual_value = \"");
    let actual = u32_to_string(inputs.actual_value);
    out.append(actual.as_str());
    out.append("\"\nclaim_type_hash = ");
    let cth = bytes_to_toml_array(&inputs.claim_type_hash);
    out.append(cth.as_str());
    out.append("\nunit_hash = ");
    let uh = bytes_to_toml_array(&inputs.unit_hash);
    out.append(uh.as_str());
    out.append("\nclaim_hash = ");
    let ch = bytes_to_toml_array(&inputs.claim_hash);
    out.append(ch.as_str());
    out.append("\nmerkle_path = ");
    out.append(path.as_str());
    out.append("\nmerkle_indices = ");
    out.append(indices.as_str());
    out.append("\ntree_depth = \"");
    let depth = u32_to_string(inputs.tree_depth);
    out.append(depth.as_str());
    out.append("\"\n");
    Ok(out)
}

/// The witness document for the carbon-footprint predicate.
pub open spec fn carbon_footprint_toml(x: CarbonFootprintInputs) -> Seq<char> {
    "threshold = \""@ + dec_str(x.threshold as nat) + "\"\ncommitment_root = "@
        + toml_byte_array(x.commitment_root@) + "\nproduct_binding = "@ + toml_byte_array(
        x.product_binding@) + "\nrequester_binding = "@ + toml_byte_array(x.requester_binding@)
        + "\nactual_value = \""@ + dec_str(x.actual_value as nat) + "\"\nclaim_type_hash = "@
        + toml_byte_array(x.claim_type_hash@) + "\nunit_hash = "@ + toml_byte_array(x.unit_hash@)
        + "\nclaim_hash = "@ + toml_byte_array(x.claim_hash@) + "\nmerkle_path = "@ + toml_nested(
        pad_rows(x.merkle_path.deep_view(), 8)) + "\nmerkle_indices = "@ + toml_byte_array(
        pad_bytes(x.merkle_indices@, 8)) + "\ntree_depth = \""@ + dec_str(x.tree_depth as nat)
        + "\"\n"@
}

/// Serializes carbon-footprint witness inputs; fails when the Merkle
/// path or indices exceed the fixed depth.
pub fn build_carbon_footprint_prover_toml(inputs: &CarbonFootprintInputs) -> (r: Result<String,
    WitnessError>)
    ensures
        r is Ok <==> inputs.merkle_path@.len() <= 8 && inputs.merkle_indices@.len() <= 8,
        r matches Ok(s) ==> s@ == carbon_footprint_toml(*inputs),
        r matches Err(e) ==> e == (if inputs.merkle_path@.len() > 8 {
            WitnessError::PathTooLong
        } else {
            WitnessError::IndicesTooLong
        }),
{
    let path = match pad_merkle_path(&inputs.merkle_path, 8) {
        Ok(s) => s,
        Err(e) => {
            return Err(e);
        },
    };
    let indices = match pad_merkle_indices(&inputs.merkle_indices, 8) {
        Ok(s) => s,
        Err(e) => {
            return Err(e);
        },
    };
    let mut out = String::from_str("threshold = \"");
    let threshold = u32_to_string(inputs.threshold);
    out.append(threshold.as_str());
    out.append("\"\ncommitment_root = ");
    let root = bytes_to_toml_array(&inputs.commitment_root);
    out.append(root.as_str());
    out.append("\nproduct_binding = ");
    let pb = bytes_to_toml_array(&inputs.product_binding);
    out.append(pb.as_str());
    out.append("\nrequester_binding = ");
    let rb = bytes_to_toml_array(&inputs.requester_binding);
    out.append(rb.as_str());
    out.append("\nactual_value = \"");
    let actual = u32_to_string(inputs.actual_value);
    out.append(actual.as_str());
    out.append("\"\nclaim_type_hash = ");
    let cth = bytes_to_toml_array(&inputs.claim_type_hash);
    out.append(cth.as_str());
    out.append("\nunit_hash = ");
    let uh = bytes_to_toml_array(&inputs.unit_hash);
    out.append(uh.as_str());
    out.append("\nclaim_hash = ");
    let ch = bytes_to_toml_array(&inputs.claim_hash);
    out.append(ch.as_str());
    out.append("\nmerkle_path = ");
    out.append(path.as_str());
    out.append("\nmerkle_indices = ");
    out.append(indices.as_str());
    out.append("\ntree_depth = \"");
    let depth = u32_to_string(inputs.tree_depth);
    out.append(depth.as_str());
    out.append("\"\n");
    Ok(out)
}

/// The witness document for the certificate-validity predicate.
pub open spec fn cert_valid_toml(x: CertValidInputs) -> Seq<char> {
    "check_timestamp = \""@ + dec_str(x.check_timestamp as nat) + "\"\ncommitment_root = "@
        + toml_byte_array(x.commitment_root@) + "\nproduct_binding = "@ + toml_byte_array(
        x.product_binding@) + "\nrequester_binding = "@ + toml_byte_array(x.requester_binding@)
        + "\nvalid_from = \""@ + dec_str(x.valid_from as nat) + "\"\nvalid_until = \""@
        + dec_str(x.valid_until as nat) + "\"\nclaim_type_hash = "@ + toml_byte_array(
        x.claim_type_hash@) + "\nclaim_hash = "@ + toml_byte_array(x.claim_hash@)
        + "\nmerkle_path = "@ + toml_nested(pad_rows(x.merkle_path.deep_view(), 8))
        + "\nmerkle_indices = "@ + toml_byte_array(pad_bytes(x.merkle_indices@, 8))
        + "\ntree_depth = \""@ + dec_str(x.tree_depth as nat) + "\"\n"@
}

/// Serializes certificate-validity witness inputs; fails when the
/// Merkle path or indices exceed the fixed depth.
pub fn build_cert_valid_prover_toml(inputs: &CertValidInputs) -> (r: Result<String,
    WitnessError>)
    ensures
        r is Ok <==> inputs.merkle_path@.len() <= 8 && inputs.merkle_indices@.len() <= 8,
        r matches Ok(s) ==> s@ == cert_valid_toml(*inputs),
        r matches Err(e) ==> e == (if inputs.merkle_path@.len() > 8 {
            WitnessError::PathTooLong
        } else {
            WitnessError::IndicesTooLong
        }),
{
    let path = match pad_merkle_path(&inputs.merkle_path, 8) {
        Ok(s) => s,
        Err(e) => {
            return Err(e);
        },
    };
    let indices = match pad_merkle_indices(&inputs.merkle_indices, 8) {
        Ok(s) => s,
        Err(e) => {
            return Err(e);
        },
    };
    let mut out = String::from_str("check_timestamp = \"");
    let ts = u64_to_string(inputs.check_timestamp);
    out.append(ts.as_str());
    out.append("\"\ncommitment_root = ");
    let root = bytes_to_toml_array(&inputs.commitment_root);
    out.append(root.as_str());
    out.append("\nproduct_binding = ");
    let pb = bytes_to_toml_array(&inputs.product_binding);
    out.append(pb.as_str());
    out.append("\nrequester_binding = ");
    let rb = bytes_to_toml_array(&inputs.requester_binding);
    out.append(rb.as_str());
    out.append("\nvalid_from = \"");
    let vf = u64_to_string(inputs.valid_from);
    out.append(vf.as_str());
    out.append("\"\nvalid_until = \"");
    let vu = u64_to_string(inputs.valid_until);
    out.append(vu.as_str());
    out.append("\"\nclaim_type_hash = ");
    let cth = bytes_to_toml_array(&inputs.claim_type_hash);
    out.append(cth.as_str());
    out.append("\nclaim_hash = ");
    let ch = bytes_to_toml_array(&inputs.claim_hash);
    out.append(ch.as_str());
    out.append("\nmerkle_path = ");
    out.append(path.as_str());
    out.append("\nmerkle_indices = ");
    out.append(indices.as_str());
    out.append("\ntree_depth = \"");
    let depth = u32_to_string(inputs.tree_depth);
    out.append(depth.as_str());
    out.append("\"\n");
    Ok(out)
}

/// The witness document for the substance-not-in-list predicate.
pub open spec fn substance_not_in_list_toml(x: SubstanceNotInListInputs) -> Seq<char> {
    "forbidden_list_hash = "@ + toml_byte_array(x.forbidden_list_hash@)
        + "\ncommitment_root = "@ + toml_byte_array(x.commitment_root@)
        + "\nproduct_binding = "@ + toml_byte_array(x.product_binding@)
        + "\nrequester_binding = "@ + toml_byte_array(x.requester_binding@)
        + "\nproduct_substances = "@ + toml_nested(pad_rows(x.product_substances.deep_view(),
        32)) + "\nnum_substances = \""@ + dec_str(x.num_substances as nat)
        + "\"\nforbidden_substances = "@ + toml_nested(pad_rows(
        x.forbidden_substances.deep_view(), 64)) + "\nnum_forbidden = \""@ + dec_str(
        x.num_forbidden as nat) + "\"\nclaim_type_hash = "@ + toml_byte_array(
        x.claim_type_hash@) + "\nclaim_hash = "@ + toml_byte_array(x.claim_hash@)
        + "\nmerkle_path = "@ + toml_nested(pad_rows(x.merkle_path.deep_view(), 8))
        + "\nmerkle_indices = "@ + toml_byte_array(pad_bytes(x.merkle_indices@, 8))
        + "\ntree_depth = \""@ + dec_str(x.tree_depth as nat) + "\"\n"@
}

/// Serializes substance-not-in-list witness inputs; fails when the
/// Merkle path or indices exceed the fixed depth, or a substance list
/// exceeds its maximum.
pub fn build_substance_not_in_list_prover_toml(inputs: &SubstanceNotInListInputs) -> (r: Result<
    String, WitnessError>)
    ensures
        r is Ok <==> inputs.merkle_path@.len() <= 8 && inputs.merkle_indices@.len() <= 8
            && inputs.product_substances@.len() <= 32 && inputs.forbidden_substances@.len()
            <= 64,
        r matches Ok(s) ==> s@ == substance_not_in_list_toml(*inputs),
        r matches Err(e) ==> e == (if inputs.merkle_path@.len() > 8 {
            WitnessError::PathTooLong
        } else if inputs.merkle_indices@.len() > 8 {
            WitnessError::IndicesTooLong
        } else {
            WitnessError::SubstanceListTooLong
        }),
{
    let path = match pad_merkle_path(&inputs.merkle_path, 8) {
        Ok(s) => s,
        Err(e) => {
            return Err(e);
        },
    };
    let indices = match pad_merkle_indices(&inputs.merkle_indices, 8) {
        Ok(s) => s,
        Err(e) => {
            return Err(e);
        },
    };
    let product_padded = match pad_substances(&inputs.product_substances, 32) {
        Ok(v) => v,
        Err(e) => {
            return Err(e);
        },
    };
    let forbidden_padded = match pad_substances(&inputs.forbidden_substances, 64) {
        Ok(v) => v,
        Err(e) => {
            return Err(e);
        },
    };
    let mut out = String::from_str("forbidden_list_hash = ");
    let flh = bytes_to_toml_array(&inputs.forbidden_list_hash);
    out.append(flh.as_str());
    out.append("\ncommitment_root = ");
    let root = bytes_to_toml_array(&inputs.commitment_root);
    out.append(root.as_str());
    out.append("\nproduct_binding = ");
    let pb = bytes_to_toml_array(&inputs.product_binding);
    out.append(pb.as_str());
    out.append("\nrequester_binding = ");
    let rb = bytes_to_toml_array(&inputs.requester_binding);
    out.append(rb.as_str());
    out.append("\nproduct_substances = ");
    let ps = nested_bytes_to_toml_array(&product_padded);
    out.append(ps.as_str());
    out.append("\nnum_substances = \"");
    let ns = u32_to_string(inputs.num_substances);
    out.append(ns.as_str());
    out.append("\"\nforbidden_substances = ");
    let fs = nested_bytes_to_toml_array(&forbidden_padded);
    out.append(fs.as_str());
    out.append("\nnum_forbidden = \"");
    let nf = u32_to_string(inputs.num_forbidden);
    out.append(nf.as_str());
    out.append("\"\nclaim_type_hash = ");
    let cth = bytes_to_toml_array(&inputs.claim_type_hash);
    out.append(cth.as_str());
    out.append("\nclaim_hash = ");
    let ch = bytes_to_toml_array(&inputs.claim_hash);
    out.append(ch.as_str());
    out.append("\nmerkle_path = ");
    out.append(path.as_str());
    out.append("\nmerkle_indices = ");
    out.append(indices.as_str());
    out.append("\ntree_depth = \"");
    let depth = u32_to_string(inputs.tree_depth);
    out.append(depth.as_str());
    out.append("\"\n");
    Ok(out)
}

} // verus!

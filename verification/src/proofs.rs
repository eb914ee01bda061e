//! Proof container and its serializations: compact binary, lowercase hex,
//! the JSON schema third-party verifiers consume, and Solidity call
//! arguments.

use vstd::prelude::*;

use ark_ff::PrimeField;

use crate::error::ProverError;
use crate::field::{dec_str_of, dec_value, fr_nat, fr_order, FieldElement};

verus! {

/// The lowercase hex digit character for a value below sixteen.
pub open spec fn hex_digit_char(d: nat) -> char {
    if d == 0 {
        '0'
    } else if d == 1 {
        '1'
    } else if d == 2 {
        '2'
    } else if d == 3 {
        '3'
    } else if d == 4 {
        '4'
    } else if d == 5 {
        '5'
    } else if d == 6 {
        '6'
    } else if d == 7 {
        '7'
    } else if d == 8 {
        '8'
    } else if d == 9 {
        '9'
    } else if d == 10 {
        'a'
    } else if d == 11 {
        'b'
    } else if d == 12 {
        'c'
    } else if d == 13 {
        'd'
    } else if d == 14 {
        'e'
    } else {
        'f'
    }
}

/// The lowercase hex writing of a byte string: two digits per byte, high
/// digit first.
pub open spec fn hex_of(bytes: Seq<u8>) -> Seq<char> {
    Seq::new(
        2 * bytes.len(),
        |i: int|
            if i % 2 == 0 {
                hex_digit_char((bytes[i / 2] >> 4) as nat)
            } else {
                hex_digit_char((bytes[i / 2] & 0x0f) as nat)
            },
    )
}

/// True when `c` is a hex digit character, in either case.
pub open spec fn is_hex_digit(c: char) -> bool {
    ('0' <= c && c <= '9') || ('a' <= c && c <= 'f') || ('A' <= c && c <= 'F')
}

/// The numeric value of one hex digit character.
pub open spec fn hex_val(c: char) -> nat {
    if '0' <= c && c <= '9' {
        (c as int - '0' as int) as nat
    } else if 'a' <= c && c <= 'f' {
        (c as int - 'a' as int + 10) as nat
    } else {
        (c as int - 'A' as int + 10) as nat
    }
}

/// True when `s` is a well-formed hex string: even length, hex digits
/// throughout.
pub open spec fn valid_hex(s: Seq<char>) -> bool {
    s.len() % 2 == 0 && forall|i: int| 0 <= i < s.len() ==> is_hex_digit(#[trigger] s[i])
}

/// The bytes a well-formed hex string denotes.
pub open spec fn hex_bytes_of(s: Seq<char>) -> Seq<u8> {
    Seq::new(
        s.len() / 2,
        |i: int| (16 * hex_val(s[2 * i]) + hex_val(s[2 * i + 1])) as u8,
    )
}

/// Hex encoding is an exact round trip: the writing of any byte string is
/// well formed and denotes the bytes it was made from.
pub proof fn lemma_hex_round_trip(bytes: Seq<u8>)
    ensures
        hex_of(bytes).len() == 2 * bytes.len(),
        valid_hex(hex_of(bytes)),
        hex_bytes_of(hex_of(bytes)) =~= bytes,
{
    let s = hex_of(bytes);
    assert forall|i: int| 0 <= i < s.len() implies is_hex_digit(#[trigger] s[i]) by {
        let b = bytes[i / 2];
        assert((b >> 4) < 16) by (bit_vector);
        assert((b & 0x0f) < 16) by (bit_vector);
    }
    assert forall|i: int| 0 <= i < bytes.len() implies hex_bytes_of(s)[i] == bytes[i] by {
        let b = bytes[i];
        assert((2 * i) % 2 == 0 && (2 * i + 1) % 2 == 1);
        assert((2 * i) / 2 == i && (2 * i + 1) / 2 == i);
        assert(s[2 * i] == hex_digit_char((b >> 4) as nat));
        assert(s[2 * i + 1] == hex_digit_char((b & 0x0f) as nat));
        assert((b >> 4) < 16) by (bit_vector);
        assert((b & 0x0f) < 16) by (bit_vector);
        assert(hex_val(hex_digit_char((b >> 4) as nat)) == (b >> 4) as nat);
        assert(hex_val(hex_digit_char((b & 0x0f) as nat)) == (b & 0x0f) as nat);
        assert(16 * (b >> 4) + (b & 0x0f) == b) by (bit_vector);
    }
}

/// Relies on `hex::encode`: lowercase hex, two digits per byte, high
/// digit first.
#[verifier::external_body]
fn hex_encode(bytes: &Vec<u8>) -> (r: String)
    ensures
        r@ == hex_of(bytes@),
{
    hex::encode(bytes)
}

/// Relies on `hex::decode`: it succeeds exactly on even-length strings of
/// hex digits (either case) and pairs the digits into bytes, high digit
/// first.
#[verifier::external_body]
fn hex_decode(s: &str) -> (r: Result<Vec<u8>, ProverError>)
    ensures
        r is Ok <==> valid_hex(s@),
        r is Ok ==> r->Ok_0@ == hex_bytes_of(s@),
        r is Err ==> r->Err_0 is InvalidProofFormat,
{
    hex::decode(s).map_err(|e| ProverError::InvalidProofFormat { reason: e.to_string() })
}

/// A Groth16 proof for the BN254 curve. The group elements live in the
/// arkworks implementation; the library reasons about the proof only
/// through the views below.
#[verifier::external_body]
pub struct Proof {
    /// The underlying arkworks proof. Kept crate-private so that every
    /// reachable value holds validated curve points: proofs enter only
    /// through `from_bytes`, whose deserializer checks them.
    pub(crate) inner: ark_groth16::Proof<ark_bn254::Bn254>,
}

/// The canonical compressed serialization of a proof; deterministic, so
/// it stands for the proof's identity.
pub uninterp spec fn proof_bytes_of(p: Proof) -> Seq<u8>;

/// Whether a byte string is an encoding the compressed proof deserializer
/// accepts.
pub uninterp spec fn proof_decodes(bytes: Seq<u8>) -> bool;

/// The proof an accepted encoding decodes to: deserialization is a
/// function of the bytes alone. The deserializer accepts a few
/// non-canonical spellings (an infinity flag beside nonzero coordinate
/// bytes), so distinct accepted encodings may decode to one proof.
pub uninterp spec fn proof_of_bytes(bytes: Seq<u8>) -> Proof;

/// The three proof points written as decimal coordinate strings, in the
/// order: A.x, A.y, B.x.c0, B.x.c1, B.y.c0, B.y.c1, C.x, C.y.
pub uninterp spec fn coords_of(p: Proof) -> Seq<Seq<char>>;

impl Clone for Proof {
    /// Relies on `Clone` for `ark_groth16::Proof`: the copy carries the
    /// same group elements, so it is the same proof value.
    #[verifier::external_body]
    fn clone(&self) -> (r: Self)
        ensures
            r == *self,
    {
        Proof { inner: self.inner.clone() }
    }
}

impl Proof {
    /// Relies on `ark_serialize::CanonicalSerialize::serialize_compressed`:
    /// writing into a `Vec` cannot fail and the encoding is
    /// deterministic; on the validated curve points that every reachable
    /// proof holds (they enter only through the checking deserializer),
    /// the encoding deserializes back to the same proof.
    #[verifier::external_body]
    pub fn to_bytes(&self) -> (r: Result<Vec<u8>, ProverError>)
        ensures
            r is Ok,
            r->Ok_0@ == proof_bytes_of(*self) && proof_decodes(r->Ok_0@) && proof_of_bytes(
                r->Ok_0@,
            ) == *self,
    {
        let mut bytes = Vec::new();
        ark_serialize::CanonicalSerialize::serialize_compressed(&self.inner, &mut bytes).map_err(
            |e| ProverError::ArkError(e.to_string()),
        )?;
        Ok(bytes)
    }

    /// Relies on `ark_serialize::CanonicalDeserialize::deserialize_compressed`:
    /// whether it accepts a byte string, and which proof it then returns,
    /// are functions of the bytes alone, and accepted points are
    /// validated to lie on the curve and in the subgroup.
    #[verifier::external_body]
    pub fn from_bytes(bytes: &[u8]) -> (r: Result<Proof, ProverError>)
        ensures
            r is Ok <==> proof_decodes(bytes@),
            r is Ok ==> r->Ok_0 == proof_of_bytes(bytes@),
            r is Err ==> r->Err_0 is InvalidProofFormat,
    {
        match ark_serialize::CanonicalDeserialize::deserialize_compressed(bytes) {
            Ok(inner) => Ok(Proof { inner }),
            Err(e) => Err(ProverError::InvalidProofFormat { reason: e.to_string() }),
        }
    }

    /// Write the proof as lowercase hex of its compact binary form.
    pub fn to_hex(&self) -> (r: Result<String, ProverError>)
        ensures
            r is Ok,
            r->Ok_0@ == hex_of(proof_bytes_of(*self)),
    {
        let bytes = match self.to_bytes() {
            Ok(b) => b,
            Err(e) => {
                proof {
                    assert(false);
                }
                return Err(e);
            },
        };
        Ok(hex_encode(&bytes))
    }

    /// Read a proof from lowercase or uppercase hex of its compact binary
    /// form; a string that is not hex, or whose bytes are not an accepted
    /// proof encoding, is rejected as a format error.
    pub fn from_hex(hex_str: &str) -> (r: Result<Proof, ProverError>)
        ensures
            r is Ok <==> (valid_hex(hex_str@) && proof_decodes(hex_bytes_of(hex_str@))),
            r is Ok ==> r->Ok_0 == proof_of_bytes(hex_bytes_of(hex_str@)),
            r is Err ==> r->Err_0 is InvalidProofFormat,
    {
        let bytes = match hex_decode(hex_str) {
            Ok(b) => b,
            Err(e) => {
                return Err(e);
            },
        };
        Self::from_bytes(bytes.as_slice())
    }

    /// A proof round-trips through its binary and hex writings: the hex
    /// writing of the canonical bytes is well formed and denotes those
    /// same bytes, which decode again — to this very proof. The two
    /// premises are what `to_bytes` ensures of every serialized proof.
    pub proof fn lemma_codec_round_trip(self)
        requires
            proof_decodes(proof_bytes_of(self)),
            proof_of_bytes(proof_bytes_of(self)) == self,
        ensures
            valid_hex(hex_of(proof_bytes_of(self))),
            hex_bytes_of(hex_of(proof_bytes_of(self))) =~= proof_bytes_of(self),
            proof_decodes(hex_bytes_of(hex_of(proof_bytes_of(self)))),
            proof_of_bytes(hex_bytes_of(hex_of(proof_bytes_of(self)))) == self,
    {
        lemma_hex_round_trip(proof_bytes_of(self));
        assert(hex_bytes_of(hex_of(proof_bytes_of(self))) == proof_bytes_of(self));
    }

    /// Relies on the public coordinate fields of `ark_groth16::Proof` and
    /// the decimal display of `ark_ff::BigInt`: the eight affine
    /// coordinates of the three points, written in decimal.
    #[verifier::external_body]
    fn coord_strings(&self) -> (r: Vec<String>)
        ensures
            r@.len() == 8,
            forall|i: int| 0 <= i < 8 ==> r@[i]@ == coords_of(*self)[i],
    {
        let a = &self.inner.a;
        let b = &self.inner.b;
        let c = &self.inner.c;
        vec![
            a.x.into_bigint().to_string(),
            a.y.into_bigint().to_string(),
            b.x.c0.into_bigint().to_string(),
            b.x.c1.into_bigint().to_string(),
            b.y.c0.into_bigint().to_string(),
            b.y.c1.into_bigint().to_string(),
            c.x.into_bigint().to_string(),
            c.y.into_bigint().to_string(),
        ]
    }

    /// Write the proof in the JSON schema third-party verifiers consume:
    /// each point as decimal coordinate strings with the mandated `"1"`
    /// and `"0"` padding entries.
    pub fn to_json(&self) -> (r: Result<ProofJson, ProverError>)
        ensures
            r is Ok,
            r->Ok_0.pi_a@.len() == 3 && r->Ok_0.pi_a@[0]@ == coords_of(*self)[0]
                && r->Ok_0.pi_a@[1]@ == coords_of(*self)[1] && r->Ok_0.pi_a@[2]@ == "1"@,
            r->Ok_0.pi_b@.len() == 3,
            r->Ok_0.pi_b@[0]@.len() == 2 && r->Ok_0.pi_b@[0]@[0]@ == coords_of(*self)[2]
                && r->Ok_0.pi_b@[0]@[1]@ == coords_of(*self)[3],
            r->Ok_0.pi_b@[1]@.len() == 2 && r->Ok_0.pi_b@[1]@[0]@ == coords_of(*self)[4]
                && r->Ok_0.pi_b@[1]@[1]@ == coords_of(*self)[5],
            r->Ok_0.pi_b@[2]@.len() == 2 && r->Ok_0.pi_b@[2]@[0]@ == "1"@
                && r->Ok_0.pi_b@[2]@[1]@ == "0"@,
            r->Ok_0.pi_c@.len() == 3 && r->Ok_0.pi_c@[0]@ == coords_of(*self)[6]
                && r->Ok_0.pi_c@[1]@ == coords_of(*self)[7] && r->Ok_0.pi_c@[2]@ == "1"@,
            r->Ok_0.protocol@ == "groth16"@,
            r->Ok_0.curve@ == "bn128"@,
    {
        let mut cs = self.coord_strings();
        let cy = cs.pop().unwrap();
        let cx = cs.pop().unwrap();
        let by1 = cs.pop().unwrap();
        let by0 = cs.pop().unwrap();
        let bx1 = cs.pop().unwrap();
        let bx0 = cs.pop().unwrap();
        let ay = cs.pop().unwrap();
        let ax = cs.pop().unwrap();
        let pi_a = vec![ax, ay, String::from_str("1")];
        let pi_b = vec![
            vec![bx0, bx1],
            vec![by0, by1],
            vec![String::from_str("1"), String::from_str("0")],
        ];
        let pi_c = vec![cx, cy, String::from_str("1")];
        Ok(
            ProofJson {
                pi_a,
                pi_b,
                pi_c,
                protocol: String::from_str("groth16"),
                curve: String::from_str("bn128"),
            },
        )
    }

    /// Write the proof as Solidity call arguments. The second-pairing
    /// coordinates are reversed relative to the JSON schema: the
    /// on-chain verifier wants `c1` before `c0`. That incompatibility
    /// between the two targets is deliberate and must be kept.
    pub fn to_solidity_calldata(&self, public_inputs: &[FieldElement]) -> (r: Result<
        SolidityCalldata,
        ProverError,
    >)
        ensures
            r is Ok,
            r->Ok_0.a@.len() == 2 && r->Ok_0.a@[0]@ == coords_of(*self)[0] && r->Ok_0.a@[1]@
                == coords_of(*self)[1],
            r->Ok_0.b@.len() == 2,
            r->Ok_0.b@[0]@.len() == 2 && r->Ok_0.b@[0]@[0]@ == coords_of(*self)[3]
                && r->Ok_0.b@[0]@[1]@ == coords_of(*self)[2],
            r->Ok_0.b@[1]@.len() == 2 && r->Ok_0.b@[1]@[0]@ == coords_of(*self)[5]
                && r->Ok_0.b@[1]@[1]@ == coords_of(*self)[4],
            r->Ok_0.c@.len() == 2 && r->Ok_0.c@[0]@ == coords_of(*self)[6] && r->Ok_0.c@[1]@
                == coords_of(*self)[7],
            r->Ok_0.inputs@.len() == public_inputs@.len(),
            forall|i: int|
                0 <= i < public_inputs@.len() ==> r->Ok_0.inputs@[i]@ == dec_str_of(
                    fr_nat(public_inputs@[i]),
                ),
    {
        let mut cs = self.coord_strings();
        let cy = cs.pop().unwrap();
        let cx = cs.pop().unwrap();
        let by1 = cs.pop().unwrap();
        let by0 = cs.pop().unwrap();
        let bx1 = cs.pop().unwrap();
        let bx0 = cs.pop().unwrap();
        let ay = cs.pop().unwrap();
        let ax = cs.pop().unwrap();
        let mut inputs: Vec<String> = Vec::new();
        let mut i: usize = 0;
        while i < public_inputs.len()
            invariant
                0 <= i <= public_inputs@.len(),
                inputs@.len() == i,
                forall|j: int|
                    0 <= j < i ==> inputs@[j]@ == dec_str_of(fr_nat(public_inputs@[j])),
            decreases public_inputs@.len() - i,
        {
            inputs.push(crate::field::fr_to_string(&public_inputs[i]));
            i = i + 1;
        }
        Ok(
            SolidityCalldata {
                a: vec![ax, ay],
                b: vec![vec![bx1, bx0], vec![by1, by0]],
                c: vec![cx, cy],
                inputs,
            },
        )
    }
}

/// A proof together with its ordered public inputs and the circuit kind
/// it was produced for: the unit that crosses serialization boundaries.
pub struct ProofWithPublicInputs {
    /// The ZK proof.
    pub proof: Proof,
    /// Public input signals, in the circuit's order; the commitment is
    /// the last of them.
    pub public_inputs: Vec<FieldElement>,
    /// Circuit name.
    pub circuit: String,
}

impl ProofWithPublicInputs {
    /// Create a new proof with inputs.
    pub fn new(proof: Proof, public_inputs: Vec<FieldElement>, circuit: String) -> (r: Self)
        ensures
            proof_bytes_of(r.proof) == proof_bytes_of(proof),
            r.public_inputs@ == public_inputs@,
            r.circuit@ == circuit@,
    {
        Self { proof, public_inputs, circuit }
    }

    /// The score commitment: the last public output of every circuit.
    pub fn score_commitment(&self) -> (r: Option<&FieldElement>)
        ensures
            r is Some <==> self.public_inputs@.len() > 0,
            r is Some ==> fr_nat(*r->Some_0) == fr_nat(self.public_inputs@.last()),
    {
        let n = self.public_inputs.len();
        if n > 0 {
            Some(&self.public_inputs[n - 1])
        } else {
            None
        }
    }

    /// Write the artifact in the JSON schema: the proof's points, the
    /// public inputs as ordered decimal strings, and the circuit kind.
    pub fn to_json(&self) -> (r: Result<ProofWithInputsJson, ProverError>)
        ensures
            r is Ok,
            r->Ok_0.public_inputs@.len() == self.public_inputs@.len(),
            forall|i: int|
                0 <= i < self.public_inputs@.len() ==> r->Ok_0.public_inputs@[i]@ == dec_str_of(
                    fr_nat(self.public_inputs@[i]),
                ),
            r->Ok_0.circuit@ == self.circuit@,
            r->Ok_0.proof.protocol@ == "groth16"@,
    {
        let proof_json = match self.proof.to_json() {
            Ok(p) => p,
            Err(e) => {
                proof {
                    assert(false);
                }
                return Err(e);
            },
        };
        let mut public_inputs: Vec<String> = Vec::new();
        let mut i: usize = 0;
        while i < self.public_inputs.len()
            invariant
                0 <= i <= self.public_inputs@.len(),
                public_inputs@.len() == i,
                forall|j: int|
                    0 <= j < i ==> public_inputs@[j]@ == dec_str_of(
                        fr_nat(self.public_inputs@[j]),
                    ),
            decreases self.public_inputs@.len() - i,
        {
            public_inputs.push(crate::field::fr_to_string(&self.public_inputs[i]));
            i = i + 1;
        }
        Ok(
            ProofWithInputsJson {
                proof: proof_json,
                public_inputs,
                circuit: String::from_str(self.circuit.as_str()),
            },
        )
    }
}

/// The JSON writing of the public inputs preserves their order and their
/// values exactly: parsing each decimal string back, modulo the field
/// order, returns the sequence it was made from.
pub proof fn lemma_json_inputs_round_trip(inputs: Seq<FieldElement>)
    requires
        forall|i: int| 0 <= i < inputs.len() ==> fr_nat(#[trigger] inputs[i]) < fr_order(),
    ensures
        forall|i: int|
            0 <= i < inputs.len() ==> dec_value(#[trigger] dec_str_of(fr_nat(inputs[i])))
                % fr_order() == fr_nat(inputs[i]),
{
    assert forall|i: int| 0 <= i < inputs.len() implies dec_value(
        #[trigger] dec_str_of(fr_nat(inputs[i])),
    ) % fr_order() == fr_nat(inputs[i]) by {
        crate::field::lemma_fr_decimal_round_trip(inputs[i]);
    }
}

/// JSON-serializable proof format (the schema third-party verifiers
/// consume).
pub struct ProofJson {
    /// Proof point A (first group), as decimal strings with a trailing
    /// `"1"`.
    pub pi_a: Vec<String>,
    /// Proof point B (second group), as coordinate pairs with a trailing
    /// `["1", "0"]`.
    pub pi_b: Vec<Vec<String>>,
    /// Proof point C (first group), as decimal strings with a trailing
    /// `"1"`.
    pub pi_c: Vec<String>,
    /// Protocol identifier.
    pub protocol: String,
    /// Curve identifier.
    pub curve: String,
}

/// JSON format with public inputs.
pub struct ProofWithInputsJson {
    /// The proof.
    pub proof: ProofJson,
    /// Public inputs as decimal strings, in circuit order.
    pub public_inputs: Vec<String>,
    /// Circuit name.
    pub circuit: String,
}

/// Solidity-compatible calldata.
pub struct SolidityCalldata {
    /// Proof point A.
    pub a: Vec<String>,
    /// Proof point B, coordinates reversed within each pair.
    pub b: Vec<Vec<String>>,
    /// Proof point C.
    pub c: Vec<String>,
    /// Public inputs.
    pub inputs: Vec<String>,
}

/// The comma-separated joining of a list of strings.
pub open spec fn comma_join(ss: Seq<Seq<char>>) -> Seq<char>
    decreases ss.len(),
{
    if ss.len() == 0 {
        Seq::empty()
    } else if ss.len() == 1 {
        ss[0]
    } else {
        comma_join(ss.drop_last()) + ", "@ + ss.last()
    }
}

impl SolidityCalldata {
    /// Format as a Solidity `verifyProof` function call.
    pub fn to_solidity_call(&self) -> (r: String)
        requires
            self.a@.len() == 2,
            self.b@.len() == 2,
            self.b@[0]@.len() == 2,
            self.b@[1]@.len() == 2,
            self.c@.len() == 2,
        ensures
            r@ == "verifyProof(\n  ["@ + self.a@[0]@ + ", "@ + self.a@[1]@ + "],\n  [["@
                + self.b@[0]@[0]@ + ", "@ + self.b@[0]@[1]@ + "], ["@ + self.b@[1]@[0]@ + ", "@
                + self.b@[1]@[1]@ + "]],\n  ["@ + self.c@[0]@ + ", "@ + self.c@[1]@ + "],\n  ["@
                + comma_join(self.inputs@.map(|i: int, s: String| s@)) + "]\n)"@,
    {
        let mut out = String::from_str("verifyProof(\n  [");
        out.append(self.a[0].as_str());
        out.append(", ");
        out.append(self.a[1].as_str());
        out.append("],\n  [[");
        out.append(self.b[0][0].as_str());
        out.append(", ");
        out.append(self.b[0][1].as_str());
        out.append("], [");
        out.append(self.b[1][0].as_str());
        out.append(", ");
        out.append(self.b[1][1].as_str());
        out.append("]],\n  [");
        out.append(self.c[0].as_str());
        out.append(", ");
        out.append(self.c[1].as_str());
        out.append("],\n  [");
        let ghost views = self.inputs@.map(|i: int, s: String| s@);
        let mut i: usize = 0;
        while i < self.inputs.len()
            invariant
                0 <= i <= self.inputs@.len(),
                views == self.inputs@.map(|j: int, s: String| s@),
                out@ == "verifyProof(\n  ["@ + self.a@[0]@ + ", "@ + self.a@[1]@ + "],\n  [["@
                    + self.b@[0]@[0]@ + ", "@ + self.b@[0]@[1]@ + "], ["@ + self.b@[1]@[0]@ + ", "@
                    + self.b@[1]@[1]@ + "]],\n  ["@ + self.c@[0]@ + ", "@ + self.c@[1]@
                    + "],\n  ["@ + comma_join(views.subrange(0, i as int)),
            decreases self.inputs@.len() - i,
        {
            if i > 0 {
                out.append(", ");
            }
            out.append(self.inputs[i].as_str());
            i = i + 1;
            proof {
                let pre = views.subrange(0, i - 1);
                let cur = views.subrange(0, i as int);
                assert(cur.drop_last() =~= pre);
                assert(cur.last() == views[i - 1]);
                if i == 1 {
                    assert(comma_join(cur) == views[0]);
                    assert(Seq::<char>::empty() + views[0] =~= views[0]);
                }
            }
        }
        proof {
            assert(views.subrange(0, views.len() as int) =~= views);
        }
        out.append("]\n)");
        out
    }
}

} // verus!

//! A proof system whose proof is the advice part of the witness itself. The
//! verifier lays the grid out again from the public inputs, fills its
//! advice cells from the proof, and checks every gate and copy constraint.
//! It is complete and sound, but neither succinct nor zero-knowledge.
use crate::backend::{BackendError, CircuitInfo, PlonkishComponents};
use crate::check::{check_constraints, copy_holds, is_fibonacci_system, lemma_local_check_iff_recurrence, lemma_satisfied_congruent, satisfied};
use crate::circuit::{AddGate, Column, ColumnKind, ConstraintSystem};
use crate::codec::values_of;
use crate::fibonacci::{fib, lemma_fib_bound, FibonacciCircuit, FibonacciConfig, FIB_ROWS};
use crate::field::{le_value, lemma_le_value_injective, modulus, FieldElement};
use crate::witness::{SynthesisError, Witness, WitnessView};
use vstd::prelude::*;

verus! {

/// Largest size exponent that setup accepts.
pub const MAX_K: u32 = 20;

/// Rows of a grid of size exponent `MAX_K`.
pub const MAX_ROWS: usize = 1048576;

/// Advice columns of the Fibonacci circuit.
pub const ADVICE_COLUMNS: usize = 3;

/// Field elements in a proof: every advice cell of the laid-out rows.
pub const PROOF_WORDS: usize = 24;

pub open spec fn pow2(k: nat) -> nat
    decreases k,
{
    if k == 0 {
        1
    } else {
        2 * pow2((k - 1) as nat)
    }
}

proof fn lemma_pow2_le(i: nat, j: nat)
    requires
        i <= j,
    ensures
        pow2(i) <= pow2(j),
    decreases j,
{
    if i < j {
        lemma_pow2_le(i, (j - 1) as nat);
    }
}

/// The bytes of word `t` of a proof.
pub open spec fn word(p: Seq<u8>, t: int) -> Seq<u8> {
    p.subrange(32 * t, 32 * t + 32)
}

/// What the layout from seeds `x`, `y` holds in advice word `t`: row
/// `t / 3`, column `t % 3`.
pub open spec fn layout_word(cfg: FibonacciConfig, x: nat, y: nat, t: int) -> nat {
    match cfg.advice_value(x, y, (t % 3) as nat, (t / 3) as nat, FIB_ROWS as nat) {
        Some(v) => v,
        None => 0,
    }
}

/// `p` is the proof of the layout from seeds `x`, `y`.
pub open spec fn encodes_layout(p: Seq<u8>, cfg: FibonacciConfig, x: nat, y: nat) -> bool {
    &&& p.len() == 32 * PROOF_WORDS
    &&& forall|t: int| 0 <= t < PROOF_WORDS ==> le_value(#[trigger] word(p, t)) == layout_word(cfg, x, y, t)
}

/// `p` has the length of a proof and every word is a canonical element.
pub open spec fn is_well_formed_proof(p: Seq<u8>) -> bool {
    &&& p.len() == 32 * PROOF_WORDS
    &&& forall|t: int| 0 <= t < PROOF_WORDS ==> le_value(#[trigger] word(p, t)) < modulus()
}

/// Setup parameters: the size exponent.
#[derive(Clone, Copy, Debug)]
pub struct SetupParams {
    pub k: u32,
}

/// The key both sides use: the grid's height and the circuit's shape.
#[derive(Debug)]
pub struct CircuitKey {
    pub n_rows: usize,
    pub cs: ConstraintSystem,
    pub config: FibonacciConfig,
}

/// The grid that the verifier checks for public inputs `inst` and proof `p`.
pub open spec fn checked_witness(key: &CircuitKey, inst: Seq<nat>, p: Seq<u8>) -> WitnessView {
    WitnessView {
        n_rows: key.n_rows as nat,
        num_advice: ADVICE_COLUMNS as nat,
        num_selectors: 1,
        advice: Seq::new(
            (key.n_rows * ADVICE_COLUMNS) as nat,
            |i: int|
                if i < PROOF_WORDS {
                    Some(le_value(word(p, i)))
                } else {
                    None
                },
        ),
        selectors: Seq::new(key.n_rows as nat, |i: int| i < FIB_ROWS),
        instance: seq![inst],
        copies: key.config.row_copies(FIB_ROWS as nat).push(key.config.output_link()),
        next_row: FIB_ROWS as nat,
    }
}

impl CircuitKey {
    /// The shape is the Fibonacci circuit's and the grid holds its rows.
    pub open spec fn valid(&self) -> bool {
        &&& is_fibonacci_system(&self.cs, self.config)
        &&& self.cs.num_advice == ADVICE_COLUMNS
        &&& self.cs.num_instance == 1
        &&& self.cs.num_selectors == 1
        &&& self.config.valid_for(ADVICE_COLUMNS as nat, 1)
        &&& self.config.instance.index == 0
        &&& FIB_ROWS <= self.n_rows <= MAX_ROWS
    }

    pub fn is_valid(&self) -> (r: bool)
        ensures
            r == self.valid(),
    {
        let cfg = self.config;
        let gate = AddGate { selector: cfg.selector, lhs: cfg.col_a, rhs: cfg.col_b, out: cfg.col_c };
        if self.cs.gates.len() != 1 || self.cs.gates[0] != gate {
            proof {
                if is_fibonacci_system(&self.cs, self.config) {
                    assert(self.cs.gates@[0] == cfg.gate());
                }
            }
            return false;
        }
        assert(self.cs.gates@ =~= seq![cfg.gate()]);
        self.cs.is_equality_enabled(cfg.col_a) && self.cs.is_equality_enabled(cfg.col_b)
            && self.cs.is_equality_enabled(cfg.col_c) && self.cs.is_equality_enabled(cfg.instance)
            && self.cs.num_advice == ADVICE_COLUMNS && self.cs.num_instance == 1 && self.cs.num_selectors == 1
            && cfg.col_a.kind == ColumnKind::Advice && cfg.col_b.kind == ColumnKind::Advice
            && cfg.col_c.kind == ColumnKind::Advice && cfg.instance.kind == ColumnKind::Instance
            && cfg.col_a.index < ADVICE_COLUMNS && cfg.col_b.index < ADVICE_COLUMNS && cfg.col_c.index < ADVICE_COLUMNS
            && cfg.col_a.index != cfg.col_b.index && cfg.col_a.index != cfg.col_c.index
            && cfg.col_b.index != cfg.col_c.index && cfg.selector.index < 1 && cfg.instance.index == 0
            && FIB_ROWS <= self.n_rows && self.n_rows <= MAX_ROWS
    }
}

pub struct TransparentScheme;

impl TransparentScheme {
    /// Parameters for grids of `2^k` rows.
    pub fn setup_params(k: u32) -> (r: Result<SetupParams, BackendError>)
        ensures
            r is Ok <==> k <= MAX_K,
            r matches Ok(p) ==> p.k == k,
            r is Err ==> r == Err::<SetupParams, BackendError>(BackendError::InvalidParameters),
    {
        if k <= MAX_K {
            Ok(SetupParams { k })
        } else {
            Err(BackendError::InvalidParameters)
        }
    }

    /// Keys for the circuit's shape: the grid has `2^k` rows.
    pub fn derive_keys(param: &SetupParams, info: &CircuitInfo) -> (r: Result<(CircuitKey, CircuitKey), BackendError>)
        ensures
            r is Ok <==> (param.k <= MAX_K && info.k == param.k && FIB_ROWS <= pow2(param.k as nat) && info.wf()),
            r is Err ==> r == Err::<(CircuitKey, CircuitKey), BackendError>(BackendError::InvalidParameters),
            r matches Ok((pk, vk)) ==> {
                &&& pk.valid() && vk.valid()
                &&& pk.n_rows == pow2(param.k as nat) && vk.n_rows == pk.n_rows
                &&& pk.config == info.config && vk.config == info.config
                &&& pk.cs.gates@ == info.cs.gates@ && vk.cs.gates@ == info.cs.gates@
                &&& pk.cs.equality@ == info.cs.equality@ && vk.cs.equality@ == info.cs.equality@
            },
    {
        if param.k > MAX_K || info.k != param.k {
            return Err(BackendError::InvalidParameters);
        }
        proof {
            lemma_pow2_le(param.k as nat, MAX_K as nat);
            reveal_with_fuel(pow2, 21);
        }
        let mut n_rows: usize = 1;
        let mut i: u32 = 0;
        while i < param.k
            invariant
                i <= param.k <= MAX_K,
                n_rows == pow2(i as nat),
                pow2(param.k as nat) <= MAX_ROWS,
            decreases param.k - i,
        {
            proof {
                lemma_pow2_le((i + 1) as nat, param.k as nat);
            }
            n_rows = n_rows * 2;
            i = i + 1;
        }
        let pk = CircuitKey { n_rows, cs: info.cs.duplicate(), config: info.config };
        let vk = CircuitKey { n_rows, cs: info.cs.duplicate(), config: info.config };
        if !pk.is_valid() {
            return Err(BackendError::InvalidParameters);
        }
        Ok((pk, vk))
    }
}

/// The circuit carries one instance column of exactly three public inputs.
pub open spec fn is_public_vector(pi: Seq<Vec<FieldElement>>) -> bool {
    pi.len() == 1 && pi[0]@.len() == 3
}

/// Appends the 32 bytes of a word.
fn append_word(proof: &mut Vec<u8>, bytes: &[u8; 32])
    ensures
        final(proof)@ == old(proof)@ + bytes@,
{
    let ghost start = proof@;
    let mut o: usize = 0;
    while o < 32
        invariant
            o <= 32,
            proof@ == start + bytes@.subrange(0, o as int),
        decreases 32 - o,
    {
        proof.push(bytes[o]);
        o = o + 1;
        assert(proof@ =~= start + bytes@.subrange(0, o as int));
    }
    assert(bytes@.subrange(0, 32) =~= bytes@);
}

impl TransparentScheme {
    /// Lays the witness out from the circuit's public inputs and writes
    /// its advice cells, row by row, as the proof.
    pub fn prove_witness(key: &CircuitKey, circuit: &FibonacciCircuit) -> (r: Result<Vec<u8>, BackendError>)
        requires
            forall|c: int, r: int|
                0 <= c < circuit.public_input@.len() && 0 <= r < circuit.public_input@[c]@.len()
                    ==> (#[trigger] circuit.public_input@[c]@[r]).wf(),
        ensures
            !key.valid() ==> r == Err::<Vec<u8>, BackendError>(BackendError::InvalidParameters),
            key.valid() ==> (r is Ok <==> is_public_vector(circuit.public_input@)),
            key.valid() && r is Err ==> r == Err::<Vec<u8>, BackendError>(BackendError::PublicInputCount),
            r matches Ok(p) ==> encodes_layout(
                p@,
                key.config,
                circuit.public_input@[0]@[0]@,
                circuit.public_input@[0]@[1]@,
            ),
    {
        if !key.is_valid() {
            return Err(BackendError::InvalidParameters);
        }
        if circuit.public_input.len() != 1 || circuit.public_input[0].len() != 3 {
            return Err(BackendError::PublicInputCount);
        }
        let instances = circuit.instances();
        let mut w = Witness::new(&key.cs, key.n_rows, instances);
        let ghost w0 = w@;
        proof {
            if circuit.public_input@.len() >= 1 {
                assert(w0.instance[0] == circuit.public_input@[0]@.map_values(|e: FieldElement| e@));
            }
        }
        match circuit.synthesize(key.config, &mut w) {
            Ok(()) => {},
            Err(e) => return Err(BackendError::Synthesis(e)),
        }
        let ghost x = circuit.public_input@[0]@[0]@;
        let ghost y = circuit.public_input@[0]@[1]@;
        let mut proof: Vec<u8> = Vec::new();
        let mut t: usize = 0;
        while t < PROOF_WORDS
            invariant
                t <= PROOF_WORDS,
                w.wf(),
                key.config.is_layout(w@, x, y),
                proof@.len() == 32 * t,
                forall|t2: int| 0 <= t2 < t ==> le_value(#[trigger] word(proof@, t2)) == layout_word(key.config, x, y, t2),
            decreases PROOF_WORDS - t,
        {
            let v = match w.advice_value(t % ADVICE_COLUMNS, t / ADVICE_COLUMNS) {
                Some(v) => v,
                None => FieldElement::from_u64(0),
            };
            let ghost before = proof@;
            append_word(&mut proof, &v.to_bytes());
            assert forall|t2: int| 0 <= t2 < t + 1 implies le_value(#[trigger] word(proof@, t2)) == layout_word(
                key.config,
                x,
                y,
                t2,
            ) by {
                if t2 < t {
                    assert(word(proof@, t2) =~= word(before, t2));
                } else {
                    assert(word(proof@, t2) =~= v.repr());
                    v.lemma_repr();
                }
            }
            t = t + 1;
        }
        Ok(proof)
    }
}

/// The bytes of word `t` of a proof.
fn read_word(proof: &Vec<u8>, t: usize) -> (r: [u8; 32])
    requires
        32 * t + 32 <= proof@.len(),
    ensures
        r@ == word(proof@, t as int),
{
    assert(proof@.len() == proof.len());
    let mut bytes = [0u8; 32];
    let mut o: usize = 0;
    while o < 32
        invariant
            32 * t + 32 <= proof@.len(),
            proof@.len() <= usize::MAX,
            o <= 32,
            forall|o2: int| 0 <= o2 < o ==> bytes@[o2] == proof@[32 * t + o2],
        decreases 32 - o,
    {
        bytes[o] = proof[32 * t + o];
        o = o + 1;
    }
    assert(bytes@ =~= word(proof@, t as int));
    bytes
}

impl TransparentScheme {
    /// Reads the proof's words, lays the grid out from the public inputs,
    /// fills its advice cells from the proof and checks every constraint.
    pub fn verify_witness(key: &CircuitKey, instances: &Vec<FieldElement>, proof: &Vec<u8>) -> (r: Result<(), BackendError>)
        requires
            forall|i: int| 0 <= i < instances@.len() ==> (#[trigger] instances@[i]).wf(),
        ensures
            !key.valid() ==> r == Err::<(), BackendError>(BackendError::InvalidParameters),
            key.valid() && instances@.len() != 3 ==> r == Err::<(), BackendError>(BackendError::PublicInputCount),
            key.valid() && instances@.len() == 3 && !is_well_formed_proof(proof@) ==> r == Err::<(), BackendError>(
                BackendError::MalformedProof,
            ),
            key.valid() && instances@.len() == 3 && is_well_formed_proof(proof@) ==> {
                &&& r is Ok <==> satisfied(&key.cs, checked_witness(key, values_of(instances@), proof@))
                &&& r is Err ==> r matches Err(BackendError::Consistency(_))
            },
    {
        if !key.is_valid() {
            return Err(BackendError::InvalidParameters);
        }
        if instances.len() != 3 {
            return Err(BackendError::PublicInputCount);
        }
        if proof.len() != 32 * PROOF_WORDS {
            return Err(BackendError::MalformedProof);
        }
        let mut values: Vec<FieldElement> = Vec::new();
        let mut t: usize = 0;
        while t < PROOF_WORDS
            invariant
                t <= PROOF_WORDS,
                key.valid(),
                instances@.len() == 3,
                proof@.len() == 32 * PROOF_WORDS,
                values@.len() == t,
                forall|t2: int| 0 <= t2 < t ==> {
                    &&& (#[trigger] values@[t2])@ == le_value(word(proof@, t2))
                    &&& values@[t2].wf()
                    &&& le_value(word(proof@, t2)) < modulus()
                },
            decreases PROOF_WORDS - t,
        {
            let bytes = read_word(proof, t);
            let ghost before = values@;
            match FieldElement::from_bytes(&bytes) {
                Some(e) => {
                    values.push(e);
                    assert(values@[t as int] == e);
                    assert(le_value(word(proof@, t as int)) < modulus());
                    assert forall|t2: int| 0 <= t2 < t + 1 implies {
                        &&& (#[trigger] values@[t2])@ == le_value(word(proof@, t2))
                        &&& values@[t2].wf()
                        &&& le_value(word(proof@, t2)) < modulus()
                    } by {
                        if t2 < t {
                            assert(values@[t2] == before[t2]);
                        }
                    }
                },
                None => return Err(BackendError::MalformedProof),
            }
            t = t + 1;
        }
        assert forall|t2: int| 0 <= t2 < PROOF_WORDS implies le_value(#[trigger] word(proof@, t2)) < modulus() by {
            assert(values@[t2]@ == le_value(word(proof@, t2)));
        }
        let mut seeds: Vec<FieldElement> = Vec::new();
        let mut i: usize = 0;
        while i < instances.len()
            invariant
                i <= instances@.len(),
                seeds@ == instances@.subrange(0, i as int),
            decreases instances@.len() - i,
        {
            seeds.push(instances[i]);
            i = i + 1;
        }
        assert(seeds@ =~= instances@);
        let circuit = FibonacciCircuit { public_input: vec![seeds] };
        let mut w = Witness::new(&key.cs, key.n_rows, circuit.instances());
        let ghost inst = values_of(instances@);
        assert(w@.instance =~= seq![inst]);
        match circuit.synthesize(key.config, &mut w) {
            Ok(()) => {},
            Err(e) => return Err(BackendError::Synthesis(e)),
        }
        let ghost base = w@;
        let ghost x = inst[0];
        let ghost y = inst[1];
        assert(key.config.is_layout(base, x, y));
        let mut t: usize = 0;
        while t < PROOF_WORDS
            invariant
                t <= PROOF_WORDS,
                key.valid(),
                is_well_formed_proof(proof@),
                values@.len() == PROOF_WORDS,
                forall|t2: int| 0 <= t2 < PROOF_WORDS ==> (#[trigger] values@[t2])@ == le_value(word(proof@, t2)),
                forall|t2: int| 0 <= t2 < PROOF_WORDS ==> (#[trigger] values@[t2]).wf(),
                w.wf(),
                w@ == (WitnessView { advice: w@.advice, ..base }),
                base.num_advice == ADVICE_COLUMNS,
                forall|c: nat, r: nat| #[trigger]
                    w@.advice_at(c, r) == if c < ADVICE_COLUMNS && r < base.n_rows && r * 3 + c < t {
                        Some(values@[(r * 3 + c) as int]@)
                    } else {
                        base.advice_at(c, r)
                    },
            decreases PROOF_WORDS - t,
        {
            let ghost before = w@;
            let _ = w.assign_advice(Column { kind: ColumnKind::Advice, index: t % ADVICE_COLUMNS }, t / ADVICE_COLUMNS, values[t]);
            assert forall|c: nat, r: nat| #[trigger]
                w@.advice_at(c, r) == if c < ADVICE_COLUMNS && r < base.n_rows && r * 3 + c < t + 1 {
                    Some(values@[(r * 3 + c) as int]@)
                } else {
                    base.advice_at(c, r)
                } by {
                assert(before.advice_at(c, r) == if c < ADVICE_COLUMNS && r < base.n_rows && r * 3 + c < t {
                    Some(values@[(r * 3 + c) as int]@)
                } else {
                    base.advice_at(c, r)
                });
            }
            t = t + 1;
        }
        proof {
            let cw = checked_witness(key, inst, proof@);
            assert forall|s: nat, r: nat| #[trigger] w@.selector_on(s, r) == cw.selector_on(s, r) by {
                assert(base.selector_on(s, r) == (s == key.config.selector.index && r < FIB_ROWS));
            }
            assert forall|c: nat, r: nat| #[trigger] w@.advice_at(c, r) == cw.advice_at(c, r) by {
                assert(base.advice_at(c, r) == key.config.advice_value(x, y, c, r, FIB_ROWS as nat));
                if c < ADVICE_COLUMNS && r < base.n_rows {
                    crate::witness::lemma_slot_bound(r, c, 3, base.n_rows);
                }
            }
            lemma_satisfied_congruent(&key.cs, w@, cw);
        }
        match check_constraints(&key.cs, &w) {
            Ok(()) => Ok(()),
            Err(v) => Err(BackendError::Consistency(v)),
        }
    }
}

/// A proof made from seeds `x`, `y` is accepted against the public inputs
/// `x`, `y`, `out` exactly when the recurrence started at `x`, `y` ends in
/// `out`; in particular a proof for one output is rejected for any other.
pub proof fn lemma_accepts_iff_recurrence(key: &CircuitKey, x: nat, y: nat, out: nat, proof: Seq<u8>)
    requires
        key.valid(),
        x < modulus(),
        y < modulus(),
        encodes_layout(proof, key.config, x, y),
    ensures
        is_well_formed_proof(proof),
        satisfied(&key.cs, checked_witness(key, seq![x, y, out], proof)) <==> fib(x, y, (FIB_ROWS + 1) as nat) == out,
{
    let cfg = key.config;
    let cw = checked_witness(key, seq![x, y, out], proof);
    assert forall|t: int| 0 <= t < PROOF_WORDS implies le_value(#[trigger] word(proof, t)) < modulus() by {
        lemma_fib_bound(x, y, (t / 3) as nat);
        lemma_fib_bound(x, y, (t / 3 + 1) as nat);
        lemma_fib_bound(x, y, (t / 3 + 2) as nat);
    }
    assert(cw.n_rows * 1 == cw.n_rows) by (nonlinear_arith);
    assert(cw.selectors.len() == cw.n_rows * cw.num_selectors);
    assert forall|s: nat, r: nat| #[trigger] cw.selector_on(s, r) == (s == cfg.selector.index && r < FIB_ROWS) by {}
    assert forall|c: nat, r: nat| #[trigger] cw.advice_at(c, r) == cfg.advice_value(x, y, c, r, FIB_ROWS as nat) by {
        if c < ADVICE_COLUMNS && r < cw.n_rows {
            crate::witness::lemma_slot_bound(r, c, 3, cw.n_rows);
            let t = (r * 3 + c) as int;
            assert(t % 3 == c && t / 3 == r);
            if t < PROOF_WORDS {
                assert(le_value(word(proof, t)) == layout_word(cfg, x, y, t));
            }
        }
    }
    assert(cw.instance_at(cfg.instance.index as nat, 0) == Some(x));
    assert(cw.instance_at(cfg.instance.index as nat, 1) == Some(y));
    assert(cw.instance_at(cfg.instance.index as nat, 2) == Some(out));
    lemma_local_check_iff_recurrence(&key.cs, cfg, cw, x, y, out);
}

/// Proving is deterministic: proofs of the layout from the same seeds are
/// the same bytes.
pub proof fn lemma_proof_determined(cfg: FibonacciConfig, x: nat, y: nat, first: Seq<u8>, second: Seq<u8>)
    requires
        encodes_layout(first, cfg, x, y),
        encodes_layout(second, cfg, x, y),
    ensures
        first == second,
{
    assert forall|i: int| 0 <= i < first.len() implies first[i] == second[i] by {
        let t = i / 32;
        assert(0 <= t < PROOF_WORDS);
        assert(le_value(word(first, t)) == le_value(word(second, t)));
        lemma_le_value_injective(word(first, t), word(second, t));
        assert(first[i] == word(first, t)[i - 32 * t]);
        assert(second[i] == word(second, t)[i - 32 * t]);
    }
    assert(first =~= second);
}

impl PlonkishComponents for TransparentScheme {
    type Param = SetupParams;

    type ProverParam = CircuitKey;

    type VerifierParam = CircuitKey;

    /// The proof writes the layout from the first two public inputs.
    open spec fn proves(pp: &CircuitKey, instance: Seq<nat>, proof: Seq<u8>) -> bool {
        &&& pp.valid()
        &&& instance.len() == 3
        &&& encodes_layout(proof, pp.config, instance[0], instance[1])
    }

    /// The grid filled from the proof satisfies every constraint.
    open spec fn accepts(vp: &CircuitKey, instance: Seq<nat>, proof: Seq<u8>) -> bool {
        &&& vp.valid()
        &&& instance.len() == 3
        &&& is_well_formed_proof(proof)
        &&& satisfied(&vp.cs, checked_witness(vp, instance, proof))
    }

    fn setup(k: u32) -> Result<SetupParams, BackendError> {
        TransparentScheme::setup_params(k)
    }

    fn preprocess(param: &SetupParams, info: &CircuitInfo) -> Result<(CircuitKey, CircuitKey), BackendError> {
        TransparentScheme::derive_keys(param, info)
    }

    fn prove(pp: &CircuitKey, circuit: &FibonacciCircuit) -> (r: Result<Vec<u8>, BackendError>) {
        let r = TransparentScheme::prove_witness(pp, circuit);
        proof {
            if r is Ok {
                let vals = values_of(circuit.public_input@[0]@);
                assert(vals[0] == circuit.public_input@[0]@[0]@);
                assert(vals[1] == circuit.public_input@[0]@[1]@);
            }
        }
        r
    }

    fn verify(vp: &CircuitKey, instances: &Vec<FieldElement>, proof: &Vec<u8>) -> (r: Result<(), BackendError>) {
        TransparentScheme::verify_witness(vp, instances, proof)
    }
}

proof fn lemma_row_copies_start(cfg: FibonacciConfig, m: nat)
    requires
        m >= 1,
    ensures
        cfg.row_copies(m).len() >= 2,
        cfg.row_copies(m)[0] == (cfg.public_cell(0), cfg.cell_a(0)),
        cfg.row_copies(m)[1] == (cfg.public_cell(1), cfg.cell_b(0)),
    decreases m,
{
    if m > 1 {
        lemma_row_copies_start(cfg, (m - 1) as nat);
    }
}

/// Through the proof system's own names: a proof made for public inputs
/// `made_for` is accepted against a vector `checked` with the same seeds
/// exactly when the recurrence from those seeds ends in `checked[2]`. Proofs
/// of the true statement are accepted; a changed output is rejected.
pub proof fn lemma_pipeline_accepts_iff_recurrence(
    pk: &CircuitKey,
    vk: &CircuitKey,
    made_for: Seq<nat>,
    checked: Seq<nat>,
    proof: Seq<u8>,
)
    requires
        <TransparentScheme as PlonkishComponents>::proves(pk, made_for, proof),
        vk.valid(),
        vk.config == pk.config,
        made_for[0] < modulus(),
        made_for[1] < modulus(),
        checked.len() == 3,
        checked[0] == made_for[0],
        checked[1] == made_for[1],
    ensures
        <TransparentScheme as PlonkishComponents>::accepts(vk, checked, proof) <==> fib(
            checked[0],
            checked[1],
            (FIB_ROWS + 1) as nat,
        ) == checked[2],
{
    lemma_accepts_iff_recurrence(vk, checked[0], checked[1], checked[2], proof);
    assert(checked =~= seq![checked[0], checked[1], checked[2]]);
}

/// A proof is accepted against at most one public-input vector: the one
/// whose seeds it was made from and whose output ends their recurrence.
pub proof fn lemma_accepted_inputs(pk: &CircuitKey, vk: &CircuitKey, made_for: Seq<nat>, checked: Seq<nat>, proof: Seq<u8>)
    requires
        <TransparentScheme as PlonkishComponents>::proves(pk, made_for, proof),
        vk.valid(),
        vk.config == pk.config,
        made_for[0] < modulus(),
        made_for[1] < modulus(),
        <TransparentScheme as PlonkishComponents>::accepts(vk, checked, proof),
    ensures
        checked == seq![made_for[0], made_for[1], fib(made_for[0], made_for[1], (FIB_ROWS + 1) as nat)],
{
    let cfg = vk.config;
    let x = made_for[0];
    let y = made_for[1];
    let cw = checked_witness(vk, checked, proof);
    lemma_row_copies_start(cfg, FIB_ROWS as nat);
    let rows = cfg.row_copies(FIB_ROWS as nat);
    assert(cw.copies[0] == rows[0]);
    assert(cw.copies[1] == rows[1]);
    assert(copy_holds(&vk.cs, cw, cw.copies[0]));
    assert(copy_holds(&vk.cs, cw, cw.copies[1]));
    let a = cfg.col_a.index as int;
    let b = cfg.col_b.index as int;
    assert(le_value(word(proof, a)) == layout_word(cfg, x, y, a));
    assert(le_value(word(proof, b)) == layout_word(cfg, x, y, b));
    assert(fib(x, y, 0) == x && fib(x, y, 1) == y);
    assert(cw.advice_at(a as nat, 0) == Some(le_value(word(proof, a))));
    assert(cw.advice_at(b as nat, 0) == Some(le_value(word(proof, b))));
    assert(cw.cell_value(cfg.public_cell(0)) == Some(checked[0]));
    assert(cw.cell_value(cfg.public_cell(1)) == Some(checked[1]));
    assert(checked[0] == x && checked[1] == y);
    lemma_pipeline_accepts_iff_recurrence(pk, vk, made_for, checked, proof);
    assert(checked =~= seq![x, y, fib(x, y, (FIB_ROWS + 1) as nat)]);
}

/// Through the proof system's own names: proving is deterministic, so two
/// proofs made under one key for one public-input vector are the same bytes.
pub proof fn lemma_pipeline_proof_determined(pk: &CircuitKey, instance: Seq<nat>, first: Seq<u8>, second: Seq<u8>)
    requires
        <TransparentScheme as PlonkishComponents>::proves(pk, instance, first),
        <TransparentScheme as PlonkishComponents>::proves(pk, instance, second),
    ensures
        first == second,
{
    lemma_proof_determined(pk.config, instance[0], instance[1], first, second);
}

} // verus!

//! The capabilities a proof system offers to the pipeline, and the shape of
//! the Fibonacci circuit that it preprocesses.
use crate::check::{check_constraints, copy_holds, is_fibonacci_system, lemma_local_check_iff_recurrence, ConstraintViolation};
use crate::circuit::{AddGate, Column, ConstraintSystem};
use crate::fibonacci::{fib, FibonacciCircuit, FibonacciConfig, FIB_ROWS};
use crate::codec::values_of;
use crate::field::FieldElement;
use crate::witness::{SynthesisError, Witness};
use vstd::prelude::*;

verus! {

/// How a proof system can fail.
#[derive(Clone, Copy, Debug, PartialEq, Eq, Structural)]
pub enum BackendError {
    /// The parameters or keys do not fit the circuit.
    InvalidParameters,
    /// The public inputs are not one vector of exactly three elements.
    PublicInputCount,
    /// The witness could not be laid out.
    Synthesis(SynthesisError),
    /// The proof bytes do not have the form the verifier reads.
    MalformedProof,
    /// The proof is well formed but the statement is false: the first
    /// constraint that does not hold.
    Consistency(ConstraintViolation),
}

/// The circuit's shape: its size exponent (at most `2^k` rows), its
/// constraint system and where its gate and columns sit.
#[derive(Debug)]
pub struct CircuitInfo {
    pub k: u32,
    pub cs: ConstraintSystem,
    pub config: FibonacciConfig,
}

impl CircuitInfo {
    /// The constraint system holds exactly the Fibonacci columns, selector
    /// and gate.
    pub open spec fn wf(&self) -> bool {
        &&& is_fibonacci_system(&self.cs, self.config)
        &&& self.cs.num_advice == 3
        &&& self.cs.num_instance == 1
        &&& self.cs.num_selectors == 1
        &&& self.config.valid_for(3, 1)
        &&& self.config.instance.index == 0
    }
}

impl FibonacciCircuit {
    /// Configures a fresh constraint system with the Fibonacci circuit.
    pub fn circuit_info(k: u32) -> (r: CircuitInfo)
        ensures
            r.k == k,
            r.wf(),
    {
        let mut cs = ConstraintSystem::new();
        let config = FibonacciCircuit::configure(&mut cs);
        assert(cs.equality@[0] == config.col_a);
        assert(cs.equality@[1] == config.col_b);
        assert(cs.equality@[2] == config.col_c);
        assert(cs.equality@[3] == config.instance);
        assert(cs.gates@ =~= seq![config.gate()]);
        CircuitInfo { k, cs, config }
    }
}

impl ConstraintSystem {
    /// An equal copy.
    pub fn duplicate(&self) -> (r: Self)
        ensures
            r.num_advice == self.num_advice,
            r.num_instance == self.num_instance,
            r.num_selectors == self.num_selectors,
            r.equality@ == self.equality@,
            r.gates@ == self.gates@,
    {
        let mut equality: Vec<Column> = Vec::new();
        let mut i: usize = 0;
        while i < self.equality.len()
            invariant
                i <= self.equality@.len(),
                equality@ == self.equality@.subrange(0, i as int),
            decreases self.equality@.len() - i,
        {
            equality.push(self.equality[i]);
            i = i + 1;
        }
        let mut gates: Vec<AddGate> = Vec::new();
        let mut i: usize = 0;
        while i < self.gates.len()
            invariant
                i <= self.gates@.len(),
                gates@ == self.gates@.subrange(0, i as int),
            decreases self.gates@.len() - i,
        {
            gates.push(self.gates[i]);
            i = i + 1;
        }
        assert(equality@ =~= self.equality@);
        assert(gates@ =~= self.gates@);
        ConstraintSystem {
            num_advice: self.num_advice,
            num_instance: self.num_instance,
            num_selectors: self.num_selectors,
            equality,
            gates,
        }
    }
}

/// A proof system for the Fibonacci circuit: setup parameters, keys derived
/// from the circuit's shape, and proving and verifying against the public
/// inputs.
pub trait PlonkishComponents {
    type Param;

    type ProverParam;

    type VerifierParam;

    /// `proof` is what proving produced under `pp` for the public inputs
    /// `instance`.
    spec fn proves(pp: &Self::ProverParam, instance: Seq<nat>, proof: Seq<u8>) -> bool;

    /// Verifying under `vp` accepts `proof` against the public inputs
    /// `instance`.
    spec fn accepts(vp: &Self::VerifierParam, instance: Seq<nat>, proof: Seq<u8>) -> bool;

    /// Parameters for circuits of at most `2^k` rows.
    fn setup(k: u32) -> Result<Self::Param, BackendError>;

    /// The prover's and the verifier's keys for the circuit's shape.
    fn preprocess(param: &Self::Param, info: &CircuitInfo) -> Result<(Self::ProverParam, Self::VerifierParam), BackendError>;

    /// A proof that the circuit's witness, synthesized from its public
    /// inputs, satisfies every constraint.
    fn prove(pp: &Self::ProverParam, circuit: &FibonacciCircuit) -> (r: Result<Vec<u8>, BackendError>)
        requires
            forall|c: int, r: int|
                0 <= c < circuit.public_input@.len() && 0 <= r < circuit.public_input@[c]@.len()
                    ==> (#[trigger] circuit.public_input@[c]@[r]).wf(),
        ensures
            r matches Ok(p) ==> circuit.public_input@.len() == 1 && Self::proves(
                pp,
                values_of(circuit.public_input@[0]@),
                p@,
            ),
    ;

    /// Accepts a proof against the public inputs of the instance column.
    fn verify(vp: &Self::VerifierParam, instances: &Vec<FieldElement>, proof: &Vec<u8>) -> (r: Result<(), BackendError>)
        requires
            forall|i: int| 0 <= i < instances@.len() ==> (#[trigger] instances@[i]).wf(),
        ensures
            r is Ok <==> Self::accepts(vp, values_of(instances@), proof@),
    ;
}

impl FibonacciCircuit {
    /// Synthesizes the witness in a grid of `n_rows` rows and checks every
    /// constraint on it, with no proof system involved. It succeeds exactly
    /// when the grid holds the layout and the recurrence started at public
    /// inputs 0 and 1 ends in public input 2.
    pub fn check_locally(&self, n_rows: usize) -> (r: Result<(), BackendError>)
        requires
            n_rows <= usize::MAX / 3,
            forall|c: int, r: int|
                0 <= c < self.public_input@.len() && 0 <= r < self.public_input@[c]@.len()
                    ==> (#[trigger] self.public_input@[c]@[r]).wf(),
        ensures
            r is Ok <==> {
                &&& n_rows >= FIB_ROWS
                &&& self.public_input@.len() >= 1
                &&& self.public_input@[0]@.len() >= 3
                &&& fib(self.public_input@[0]@[0]@, self.public_input@[0]@[1]@, (FIB_ROWS + 1) as nat)
                    == self.public_input@[0]@[2]@
            },
            r is Err ==> r matches Err(BackendError::Synthesis(_)) || r matches Err(BackendError::Consistency(_)),
    {
        let info = FibonacciCircuit::circuit_info(0);
        let mut w = Witness::new(&info.cs, n_rows, self.instances());
        let ghost w0 = w@;
        proof {
            if self.public_input@.len() >= 1 {
                assert(w0.instance[0] == self.public_input@[0]@.map_values(|e: FieldElement| e@));
            }
        }
        match self.synthesize(info.config, &mut w) {
            Ok(()) => {},
            Err(e) => return Err(BackendError::Synthesis(e)),
        }
        proof {
            let cfg = info.config;
            let x = self.public_input@[0]@[0]@;
            let y = self.public_input@[0]@[1]@;
            if self.public_input@[0]@.len() >= 3 {
                lemma_local_check_iff_recurrence(&info.cs, cfg, w@, x, y, self.public_input@[0]@[2]@);
            } else {
                let last = cfg.row_copies(FIB_ROWS as nat).len() as int;
                assert(w@.copies[last] == cfg.output_link());
                assert(w@.cell_value(cfg.output_link().1) is None);
                assert(!copy_holds(&info.cs, w@, w@.copies[last]));
            }
        }
        match check_constraints(&info.cs, &w) {
            Ok(()) => Ok(()),
            Err(v) => Err(BackendError::Consistency(v)),
        }
    }
}

} // verus!

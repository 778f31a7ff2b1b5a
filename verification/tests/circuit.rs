//! End-to-end satisfiability checks: the real constraint system, with the
//! Poseidon chip and the Merkle layer gates laid out as the library models
//! them, run through the mock prover against the public inputs that the
//! library computes.

use halo2_gadgets::poseidon::{primitives, Pow5Chip, Pow5Config};
use halo2_proofs::circuit::{AssignedCell, Layouter, SimpleFloorPlanner, Value};
use halo2_proofs::dev::MockProver;
use halo2_proofs::pasta::group::ff::Field;
use halo2_proofs::pasta::Fp;
use halo2_proofs::plonk::{
    Advice, Circuit, Column, ConstraintSystem, Error, Expression, Instance, Selector,
};
use halo2_proofs::poly::Rotation;

use semaphore_circuit::field::Felt;
use semaphore_circuit::merkle::MerklePath;
use semaphore_circuit::semaphore::SemaphoreWitness;
use semaphore_circuit::MERKLE_DEPTH;

const WIDTH: usize = 3;
const RATE: usize = 2;

#[derive(Clone, Debug)]
struct LayerConfig {
    advice: [Column<Advice>; 3],
    s_bool: Selector,
    s_swap: Selector,
    poseidon: Pow5Config<Fp, WIDTH, RATE>,
}

#[derive(Clone, Debug)]
struct TestConfig {
    layer: LayerConfig,
    instance: Column<Instance>,
}

#[derive(Default)]
struct TestCircuit {
    identity_trapdoor: Value<Fp>,
    identity_nullifier: Value<Fp>,
    external_nullifier: Value<Fp>,
    position_bits: Value<[Fp; MERKLE_DEPTH]>,
    path: Value<[Fp; MERKLE_DEPTH]>,
}

fn load_private(
    mut layouter: impl Layouter<Fp>,
    column: Column<Advice>,
    value: Value<Fp>,
) -> Result<AssignedCell<Fp, Fp>, Error> {
    layouter.assign_region(
        || "load private",
        |mut region| region.assign_advice(|| "private input", column, 0, || value),
    )
}

fn hash_pair_gadget(
    config: &TestConfig,
    mut layouter: impl Layouter<Fp>,
    message: [AssignedCell<Fp, Fp>; 2],
) -> Result<AssignedCell<Fp, Fp>, Error> {
    let chip = Pow5Chip::construct(config.layer.poseidon.clone());
    let hasher = halo2_gadgets::poseidon::Hash::<
        Fp,
        Pow5Chip<Fp, WIDTH, RATE>,
        primitives::P128Pow5T3,
        primitives::ConstantLength<2>,
        WIDTH,
        RATE,
    >::init(chip, layouter.namespace(|| "init hasher"))?;
    hasher.hash(layouter.namespace(|| "hash pair"), message)
}

fn hash_layer(
    config: &TestConfig,
    mut layouter: impl Layouter<Fp>,
    leaf_or_digest: AssignedCell<Fp, Fp>,
    sibling: Value<Fp>,
    position_bit: Value<Fp>,
    layer: usize,
) -> Result<AssignedCell<Fp, Fp>, Error> {
    let cfg = &config.layer;
    let (left_cell, right_cell) = layouter.assign_region(
        || "hash layer",
        |mut region| {
            let node_value = leaf_or_digest.value().copied();
            let node_cell =
                region.assign_advice(|| "node", cfg.advice[0], 0, || node_value)?;
            if layer > 0 {
                region.constrain_equal(leaf_or_digest.cell(), node_cell.cell())?;
            }
            region.assign_advice(|| "sibling", cfg.advice[1], 0, || sibling)?;
            region.assign_advice(|| "position bit", cfg.advice[2], 0, || position_bit)?;
            cfg.s_bool.enable(&mut region, 0)?;
            cfg.s_swap.enable(&mut region, 0)?;
            let left_value = node_value
                .zip(sibling)
                .zip(position_bit)
                .map(|((a, b), bit)| if bit == Fp::ZERO { a } else { b });
            let right_value = node_value
                .zip(sibling)
                .zip(position_bit)
                .map(|((a, b), bit)| if bit == Fp::ZERO { b } else { a });
            let left_cell = region.assign_advice(|| "left", cfg.advice[0], 1, || left_value)?;
            let right_cell =
                region.assign_advice(|| "right", cfg.advice[1], 1, || right_value)?;
            Ok((left_cell, right_cell))
        },
    )?;
    hash_pair_gadget(
        config,
        layouter.namespace(|| "layer digest"),
        [left_cell, right_cell],
    )
}

impl Circuit<Fp> for TestCircuit {
    type Config = TestConfig;
    type FloorPlanner = SimpleFloorPlanner;

    fn without_witnesses(&self) -> Self {
        Self::default()
    }

    fn configure(meta: &mut ConstraintSystem<Fp>) -> TestConfig {
        let state: Vec<Column<Advice>> = (0..WIDTH).map(|_| meta.advice_column()).collect();
        let partial_sbox = meta.advice_column();
        let rc_a: Vec<_> = (0..WIDTH).map(|_| meta.fixed_column()).collect();
        let rc_b: Vec<_> = (0..WIDTH).map(|_| meta.fixed_column()).collect();
        meta.enable_constant(rc_b[0]);

        let poseidon = Pow5Chip::configure::<primitives::P128Pow5T3>(
            meta,
            state.clone().try_into().unwrap(),
            partial_sbox,
            rc_a.try_into().unwrap(),
            rc_b.try_into().unwrap(),
        );

        let advice: [Column<Advice>; 3] = state.try_into().unwrap();
        for column in &advice {
            meta.enable_equality(*column);
        }

        let s_bool = meta.selector();
        meta.create_gate("bool", |meta| {
            let position_bit = meta.query_advice(advice[2], Rotation::cur());
            let s_bool = meta.query_selector(s_bool);
            vec![s_bool * position_bit.clone() * (Expression::Constant(Fp::ONE) - position_bit)]
        });

        let s_swap = meta.selector();
        meta.create_gate("swap", |meta| {
            let a = meta.query_advice(advice[0], Rotation::cur());
            let b = meta.query_advice(advice[1], Rotation::cur());
            let bit = meta.query_advice(advice[2], Rotation::cur());
            let s_swap = meta.query_selector(s_swap);
            let l = meta.query_advice(advice[0], Rotation::next());
            let r = meta.query_advice(advice[1], Rotation::next());
            vec![s_swap * ((bit * Fp::from(2) * (b.clone() - a.clone()) - (l - a)) - (b - r))]
        });

        let instance = meta.instance_column();
        meta.enable_equality(instance);

        TestConfig {
            layer: LayerConfig { advice, s_bool, s_swap, poseidon },
            instance,
        }
    }

    fn synthesize(
        &self,
        config: TestConfig,
        mut layouter: impl Layouter<Fp>,
    ) -> Result<(), Error> {
        let advice0 = config.layer.advice[0];
        let identity_trapdoor = load_private(
            layouter.namespace(|| "witness identity trapdoor"),
            advice0,
            self.identity_trapdoor,
        )?;
        let identity_nullifier = load_private(
            layouter.namespace(|| "witness identity nullifier"),
            advice0,
            self.identity_nullifier,
        )?;
        let external_nullifier = load_private(
            layouter.namespace(|| "witness external nullifier"),
            advice0,
            self.external_nullifier,
        )?;

        let identity_commitment = hash_pair_gadget(
            &config,
            layouter.namespace(|| "identity commitment"),
            [identity_trapdoor, identity_nullifier.clone()],
        )?;
        let nullifier_hash = hash_pair_gadget(
            &config,
            layouter.namespace(|| "nullifier hash"),
            [identity_nullifier, external_nullifier.clone()],
        )?;

        let mut node = identity_commitment;
        for layer in 0..MERKLE_DEPTH {
            let sibling = self.path.map(|path| path[layer]);
            let position_bit = self.position_bits.map(|bits| bits[layer]);
            node = hash_layer(
                &config,
                layouter.namespace(|| "merkle layer"),
                node,
                sibling,
                position_bit,
                layer,
            )?;
        }

        layouter.constrain_instance(external_nullifier.cell(), config.instance, 0)?;
        layouter.constrain_instance(nullifier_hash.cell(), config.instance, 1)?;
        layouter.constrain_instance(node.cell(), config.instance, 2)?;
        Ok(())
    }
}

fn felt_to_fp(felt: &Felt) -> Fp {
    let limbs = felt.limbs();
    Fp::from_raw([limbs.0, limbs.1, limbs.2, limbs.3])
}

fn example_witness() -> SemaphoreWitness {
    let path = vec![
        Felt::from_u64(1),
        Felt::from_u64(1),
        Felt::from_u64(1),
        Felt::from_u64(1),
    ];
    let leaf_pos = vec![
        Felt::from_u64(1),
        Felt::from_u64(0),
        Felt::from_u64(0),
        Felt::from_u64(0),
    ];
    SemaphoreWitness {
        identity_trapdoor: Felt::from_u64(2),
        identity_nullifier: Felt::from_u64(3),
        external_nullifier: Felt::from_u64(5),
        merkle: MerklePath::new(path, leaf_pos).unwrap(),
    }
}

fn example_circuit() -> TestCircuit {
    TestCircuit {
        identity_trapdoor: Value::known(Fp::from(2)),
        identity_nullifier: Value::known(Fp::from(3)),
        external_nullifier: Value::known(Fp::from(5)),
        position_bits: Value::known([Fp::from(1), Fp::ZERO, Fp::ZERO, Fp::ZERO]),
        path: Value::known([Fp::from(1), Fp::from(1), Fp::from(1), Fp::from(1)]),
    }
}

fn example_public_inputs() -> Vec<Fp> {
    let witness = example_witness();
    let publics = witness.public_inputs().to_values();
    publics.iter().map(felt_to_fp).collect()
}

#[test]
fn accepts_library_public_inputs() {
    let public_inputs = example_public_inputs();
    let prover = MockProver::run(10, &example_circuit(), vec![public_inputs]).unwrap();
    assert_eq!(prover.verify(), Ok(()));
}

#[test]
fn rejects_tampered_external_nullifier() {
    let mut public_inputs = example_public_inputs();
    public_inputs[0] += Fp::ONE;
    let prover = MockProver::run(10, &example_circuit(), vec![public_inputs]).unwrap();
    assert!(prover.verify().is_err());
}

#[test]
fn rejects_non_boolean_position_bit() {
    let mut circuit = example_circuit();
    circuit.position_bits = Value::known([Fp::from(2), Fp::ZERO, Fp::ZERO, Fp::ZERO]);
    // The swapped pair is still witnessed consistently (a non-zero bit
    // swaps), so only the boolean gate can reject this witness.
    let witness = example_witness();
    let leaf_pos = vec![
        Felt::from_u64(2),
        Felt::from_u64(0),
        Felt::from_u64(0),
        Felt::from_u64(0),
    ];
    let path = vec![
        Felt::from_u64(1),
        Felt::from_u64(1),
        Felt::from_u64(1),
        Felt::from_u64(1),
    ];
    let bad_witness = SemaphoreWitness {
        merkle: MerklePath::new(path, leaf_pos).unwrap(),
        ..witness
    };
    let publics: Vec<Fp> = bad_witness
        .public_inputs()
        .to_values()
        .iter()
        .map(felt_to_fp)
        .collect();
    let prover = MockProver::run(10, &circuit, vec![publics]).unwrap();
    assert!(prover.verify().is_err());
}

#[test]
fn configure_twice_accepts_same_witnesses() {
    // Each mock-prover run configures a fresh constraint system; two
    // independent configurations must agree on the same witness and on
    // the same tampered witness.
    let public_inputs = example_public_inputs();
    let first = MockProver::run(10, &example_circuit(), vec![public_inputs.clone()]).unwrap();
    let second = MockProver::run(10, &example_circuit(), vec![public_inputs.clone()]).unwrap();
    assert_eq!(first.verify(), Ok(()));
    assert_eq!(second.verify(), Ok(()));

    let mut tampered = public_inputs;
    tampered[2] += Fp::ONE;
    let third = MockProver::run(10, &example_circuit(), vec![tampered.clone()]).unwrap();
    let fourth = MockProver::run(10, &example_circuit(), vec![tampered]).unwrap();
    assert!(third.verify().is_err());
    assert!(fourth.verify().is_err());
}

use nalgebra::{DMatrix, DVector};
use rustsim::circuit::{Circuit, Component};
use rustsim::decimal::Decimal;
use rustsim::mna::{MnaSystem, Stamp};
use rustsim::parser::{Analysis, SpiceNetlist, SpiceParser};
use rustsim::scalar::Scalar;
use rustsim::simulator::{SimulationError, Simulator};
use rustsim::solver::{auto_select_solver, SolverMethod, SolverStats};

fn number(d: Decimal) -> f64 {
    let sign = if d.negative { "-" } else { "" };
    format!("{}{}e{}", sign, d.mantissa, d.exponent).parse::<f64>().unwrap()
}

fn decimal(mantissa: u64, exponent: i32) -> Decimal {
    Decimal { negative: false, mantissa, exponent }
}

fn as_number(s: Scalar) -> f64 {
    f64::from_bits(s.bits)
}

fn signed(negative: bool, x: f64) -> f64 {
    if negative {
        -x
    } else {
        x
    }
}

fn previous(system: &MnaSystem, index: Option<usize>) -> f64 {
    match index {
        Some(i) if i < system.unknowns.len() => as_number(system.unknowns[i]),
        _ => 0.0,
    }
}

fn numeric(system: &MnaSystem) -> (DMatrix<f64>, DVector<f64>) {
    let n = system.size;
    let mut a = DMatrix::<f64>::zeros(n, n);
    let mut z = DVector::<f64>::zeros(n);
    for stamp in &system.stamps {
        match *stamp {
            Stamp::MatrixAdd { row, col, negative, amount } => {
                a[(row, col)] +=
                    signed(negative, number(amount.numerator) / number(amount.denominator));
            }
            Stamp::MatrixSet { row, col, negative } => {
                a[(row, col)] = signed(negative, 1.0);
            }
            Stamp::RhsAdd { row, negative, value } => {
                z[row] += signed(negative, number(value));
            }
            Stamp::RhsSet { row, value } => {
                z[row] = number(value);
            }
            Stamp::RhsHistory { row, negative, gain, plus, minus } => {
                let across = previous(system, plus) - previous(system, minus);
                z[row] +=
                    signed(negative, number(gain.numerator) / number(gain.denominator) * across);
            }
        }
    }
    (a, z)
}

fn solve(system: &MnaSystem) -> (Vec<Scalar>, SolverStats) {
    let (a, z) = numeric(system);
    let x = a.clone().lu().solve(&z).expect("singular system");
    let residual = (&a * &x - &z).norm();
    let stats = SolverStats {
        method_used: SolverMethod::Lu,
        iterations: 1,
        residual_norm: Scalar { bits: residual.to_bits() },
        solve_time: Scalar { bits: 0 },
        success: residual < 1e-9,
        condition_number: None,
    };
    (x.iter().map(|v| Scalar { bits: v.to_bits() }).collect(), stats)
}

fn finish(simulator: &mut Simulator) {
    while let Some(_) = simulator.next_step().unwrap() {
        let (x, stats) = solve(simulator.get_system().unwrap());
        simulator.complete_step(&x, stats).unwrap();
    }
}

fn loaded(deck: &str) -> (Simulator, SpiceNetlist) {
    let netlist = SpiceParser::new().parse_netlist(deck).unwrap();
    let mut simulator = Simulator::new();
    simulator.load_netlist_from_parsed(netlist.clone()).unwrap();
    (simulator, netlist)
}

fn voltage(simulator: &Simulator, node: &str, point: usize) -> f64 {
    as_number(simulator.get_results().unwrap().node_voltage(node).unwrap()[point])
}

fn current(simulator: &Simulator, source: &str, point: usize) -> f64 {
    as_number(simulator.get_results().unwrap().current(source).unwrap()[point])
}

#[test]
fn ohms_law_divider() {
    let (mut simulator, netlist) = loaded("divider\nV1 1 0 DC 5V\nR1 1 2 1k\nR2 2 0 1k\n.op\n.end\n");
    assert!(matches!(netlist.analyses[0], Analysis::Operating));
    simulator.begin(&netlist.analyses[0]).unwrap();
    finish(&mut simulator);
    assert!((voltage(&simulator, "1", 0) - 5.0).abs() < 1e-9);
    assert!((voltage(&simulator, "2", 0) - 2.5).abs() < 1e-9);
    assert_eq!(voltage(&simulator, "0", 0), 0.0);
    assert!((current(&simulator, "V1", 0) - (-2.5e-3)).abs() < 1e-12);
    let results = simulator.get_results().unwrap();
    assert!(results.success);
    assert_eq!(results.time_points.len(), 1);
    assert_eq!(results.convergence_info.len(), 1);
    assert_eq!(results.convergence_info[0].solver_method, "Lu");
}

#[test]
fn current_source_into_resistor() {
    let (mut simulator, _) = loaded("norton\nI1 0 1 DC 1mA\nR1 1 0 1k\n.op\n");
    simulator.begin_operating_point().unwrap();
    finish(&mut simulator);
    // The source feeds its current into its first node, here the ground, and
    // draws it from node 1: one volt across the resistor, node 1 below ground.
    assert!((voltage(&simulator, "1", 0) + 1.0).abs() < 1e-9);
    let (mut simulator, _) = loaded("norton\nI1 1 0 DC 1mA\nR1 1 0 1k\n.op\n");
    simulator.begin_operating_point().unwrap();
    finish(&mut simulator);
    assert!((voltage(&simulator, "1", 0) - 1.0).abs() < 1e-9);
}

#[test]
fn rc_charging_curve() {
    let (mut simulator, netlist) =
        loaded("rc\nV1 1 0 DC 5V\nR1 1 2 1k\nC1 2 0 1uF\n.tran 100us 5ms\n.end\n");
    simulator.begin(&netlist.analyses[0]).unwrap();
    finish(&mut simulator);
    let results = simulator.get_results().unwrap();
    assert_eq!(results.time_points.len(), 51);
    assert_eq!(number(results.time_points[10]), 1e-3);
    assert_eq!(results.time_points[10], decimal(1000, -6));
    let expected = 5.0 * (1.0 - (-1.0f64).exp());
    let at_1ms = voltage(&simulator, "2", 10);
    // Ten backward-Euler steps of a tenth of the time constant each.
    let stepped = 5.0 * (1.0 - 1.1f64.powi(-10));
    assert!((at_1ms - stepped).abs() < 1e-9, "got {}", at_1ms);
    assert!((at_1ms - expected).abs() / expected < 0.03, "got {}", at_1ms);
    assert_eq!(voltage(&simulator, "2", 0), 0.0);
    // Five time constants on, the capacitor is within 1 % of the source.
    assert!((voltage(&simulator, "2", 50) - 5.0).abs() / 5.0 < 0.01);
    assert_eq!(results.node_voltage("1").unwrap().len(), 51);
    assert_eq!(results.current("V1").unwrap().len(), 51);
    assert_eq!(results.convergence_info.len(), 50);
    assert!(results.success);
}

#[test]
fn series_resistor_ladder() {
    let mut deck = String::from("ladder\nV1 n0 0 DC 10\n");
    for k in 0..10 {
        let next = if k == 9 { "0".to_string() } else { format!("n{}", k + 1) };
        deck.push_str(&format!("R{} n{} {} 1k\n", k + 1, k, next));
    }
    deck.push_str(".op\n");
    let (mut simulator, _) = loaded(&deck);
    simulator.begin_operating_point().unwrap();
    finish(&mut simulator);
    for k in 0..10 {
        let v = voltage(&simulator, &format!("n{}", k), 0);
        assert!((v - (10.0 - k as f64)).abs() < 1e-9, "node {} at {}", k, v);
    }
    assert!((current(&simulator, "V1", 0) - (-1e-3)).abs() < 1e-12);
}

#[test]
fn value_suffixes_are_stored_exactly() {
    let netlist = SpiceParser::new().parse_netlist("suffixes\nR1 1 0 1k\nC1 1 0 1u\nL1 1 0 1m\n").unwrap();
    assert_eq!(number(netlist.components[0].value), 1000.0);
    assert_eq!(number(netlist.components[1].value), 1e-6);
    assert_eq!(number(netlist.components[2].value), 1e-3);
    assert_eq!(netlist.components[0].value, decimal(1, 3));
    assert_eq!(netlist.components[1].value, decimal(1, -6));
    assert_eq!(netlist.components[2].value, decimal(1, -3));
}

#[test]
fn resistor_network_is_symmetric_and_goes_to_cg() {
    let mut circuit = Circuit::new("mesh".to_string());
    for k in 0..120 {
        let a = if k == 0 { "0".to_string() } else { format!("n{}", k) };
        let b = format!("n{}", k + 1);
        circuit
            .add_component(Component::new_resistor(format!("R{}", k), a, b, decimal(1, 3)))
            .unwrap();
    }
    assert!(circuit.validate().is_ok());
    let mut system = MnaSystem::new(&circuit).unwrap();
    system.assemble_dc(&circuit).unwrap();
    assert_eq!(system.size, 120);
    let (a, _) = numeric(&system);
    let mut nnz = 0;
    let mut symmetric = true;
    for i in 0..system.size {
        for j in 0..system.size {
            if a[(i, j)].abs() > 1e-15 {
                nnz += 1;
            }
            if (a[(i, j)] - a[(j, i)]).abs() > 1e-12 {
                symmetric = false;
            }
        }
    }
    assert!(symmetric);
    assert_eq!(auto_select_solver(system.size, nnz, symmetric), SolverMethod::Cg);
}

#[test]
fn sweep_sets_the_source_at_each_point() {
    let (mut simulator, _) = loaded("sweep\nV1 1 0 DC 1\nR1 1 2 1k\nR2 2 0 1k\n");
    simulator.begin_dc_sweep("V1", decimal(0, 0), decimal(4, 0), decimal(2, 0)).unwrap();
    finish(&mut simulator);
    let results = simulator.get_results().unwrap();
    assert_eq!(results.time_points.len(), 3);
    assert_eq!(number(results.time_points[2]), 4.0);
    assert!((voltage(&simulator, "2", 0) - 0.0).abs() < 1e-12);
    assert!((voltage(&simulator, "2", 1) - 1.0).abs() < 1e-12);
    assert!((voltage(&simulator, "2", 2) - 2.0).abs() < 1e-12);
    // The source has its own value again.
    assert_eq!(simulator.get_circuit().unwrap().components[0].value, decimal(1, 0));
}

#[test]
fn inductor_is_a_short_at_rest_and_ramps_in_time() {
    let (mut simulator, _) = loaded("rl\nV1 1 0 DC 1\nR1 1 2 1\nL1 2 0 1\n");
    simulator.begin_operating_point().unwrap();
    finish(&mut simulator);
    assert!((voltage(&simulator, "2", 0)).abs() < 1e-12);
    assert!((current(&simulator, "V1", 0) + 1.0).abs() < 1e-12);
    simulator.begin_transient_analysis(decimal(1, -2), decimal(5, 0)).unwrap();
    finish(&mut simulator);
    let results = simulator.get_results().unwrap();
    assert_eq!(results.time_points.len(), 501);
    // After one time constant the current has reached about 63 %.
    let i = -current(&simulator, "V1", 100);
    assert!((i - (1.0 - (-1.0f64).exp())).abs() < 0.01, "got {}", i);
}

#[test]
fn driver_refuses_out_of_turn() {
    let mut simulator = Simulator::new();
    assert_eq!(simulator.begin_operating_point(), Err(SimulationError::NoCircuit));
    assert_eq!(simulator.next_step(), Err(SimulationError::NoAnalysis));
    let (mut simulator, _) = loaded("t\nV1 1 0 1\nR1 1 0 1\n");
    assert_eq!(
        simulator.begin_transient_analysis(decimal(0, 0), decimal(1, 0)),
        Err(SimulationError::InvalidStep)
    );
    assert_eq!(
        simulator.begin_dc_sweep("V9", decimal(0, 0), decimal(1, 0), decimal(1, 0)),
        Err(SimulationError::SourceNotFound)
    );
    assert_eq!(
        simulator.begin_dc_sweep("V1", decimal(0, 0), decimal(1, 0), decimal(0, 0)),
        Err(SimulationError::InvalidStep)
    );
    simulator.begin_operating_point().unwrap();
    assert_eq!(simulator.begin_operating_point(), Err(SimulationError::AnalysisRunning));
    let stats = SolverStats {
        method_used: SolverMethod::Lu,
        iterations: 1,
        residual_norm: Scalar { bits: 0 },
        solve_time: Scalar { bits: 0 },
        success: false,
        condition_number: None,
    };
    assert_eq!(simulator.complete_step(&[], stats), Err(SimulationError::NoStepPending));
    assert!(simulator.next_step().unwrap().is_some());
    assert_eq!(simulator.next_step(), Err(SimulationError::StepPending));
    assert!(matches!(simulator.complete_step(&[], stats), Err(SimulationError::Solution(_))));
    let zeros = vec![Scalar { bits: 0 }; 2];
    simulator.complete_step(&zeros, stats).unwrap();
    assert_eq!(simulator.next_step(), Ok(None));
    assert!(!simulator.get_results().unwrap().success);
    let ac = SpiceParser::new().parse_netlist("t\n.ac dec 10 1 1k\n").unwrap();
    assert_eq!(simulator.begin(&ac.analyses[0]), Err(SimulationError::Unsupported));
}

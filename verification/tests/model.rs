use nalgebra::{DMatrix, DVector};
use rustsim::circuit::{
    Circuit, Component, ComponentError, ComponentType, Node, NodeNotFound, Ratio, ValidationError,
};
use rustsim::cli::{parse_time_value, parse_voltage_value, CliArgs, CliError, OutputFormat};
use rustsim::decimal::Decimal;
use rustsim::mna::{
    AssemblyError, AssemblyFault, LayoutError, MnaSystem, SizeMismatch, SourceNotFound, Stamp,
};
use rustsim::parser::{SpiceNetlist, SpiceParser};
use rustsim::scalar::Scalar;
use rustsim::simulator::Simulator;
use rustsim::solver::{
    auto_select_solver, check_shape, LinearSolver, ShapeError, SolverConfig, SolverMethod,
    SolverStats,
};
use rustsim::value::ValueError;

fn number(d: Decimal) -> f64 {
    let sign = if d.negative { "-" } else { "" };
    format!("{}{}e{}", sign, d.mantissa, d.exponent).parse::<f64>().unwrap()
}

fn quotient(r: Ratio) -> f64 {
    number(r.numerator) / number(r.denominator)
}

fn decimal(mantissa: u64, exponent: i32) -> Decimal {
    Decimal { negative: false, mantissa, exponent }
}

fn signed(negative: bool, x: f64) -> f64 {
    if negative {
        -x
    } else {
        x
    }
}

fn numeric(system: &MnaSystem) -> (DMatrix<f64>, DVector<f64>) {
    let n = system.size;
    let mut a = DMatrix::<f64>::zeros(n, n);
    let mut z = DVector::<f64>::zeros(n);
    for stamp in &system.stamps {
        match *stamp {
            Stamp::MatrixAdd { row, col, negative, amount } => {
                a[(row, col)] += signed(negative, quotient(amount));
            }
            Stamp::MatrixSet { row, col, negative } => {
                a[(row, col)] = signed(negative, 1.0);
            }
            Stamp::RhsAdd { row, negative, value } => {
                z[row] += signed(negative, number(value));
            }
            Stamp::RhsSet { row, value } => {
                z[row] = number(value);
            }
            Stamp::RhsHistory { .. } => {}
        }
    }
    (a, z)
}

#[test]
fn test_node_creation() {
    let node = Node::new("test".to_string());
    assert_eq!(node.name, "test");
    assert_eq!(f64::from_bits(node.voltage.bits), 0.0);
    assert!(!node.is_ground());

    let ground_node = Node::new("0".to_string());
    assert!(ground_node.is_ground());
}

#[test]
fn test_component_creation() {
    let resistor =
        Component::new_resistor("R1".to_string(), "1".to_string(), "2".to_string(), decimal(1000, 0));
    assert_eq!(resistor.name, "R1");
    assert_eq!(number(resistor.value), 1000.0);
    assert_eq!(quotient(resistor.conductance().unwrap()), 0.001);
}

#[test]
fn test_circuit_building() {
    let mut circuit = Circuit::new("Test Circuit".to_string());

    let node1 = circuit.add_node("1".to_string());
    let node2 = circuit.add_node("2".to_string());
    let ground = circuit.add_node("0".to_string());

    assert_eq!(node1, 0);
    assert_eq!(node2, 1);
    assert_eq!(ground, 2);
    assert_eq!(circuit.ground_node, Some(2));

    let resistor =
        Component::new_resistor("R1".to_string(), "1".to_string(), "2".to_string(), decimal(1000, 0));
    circuit.add_component(resistor).unwrap();

    assert_eq!(circuit.components.len(), 1);
    assert!(circuit.validate().is_ok());
}

#[test]
fn test_parse_time_value() {
    assert_eq!(number(parse_time_value("1ns").unwrap()), 1e-9);
    assert_eq!(number(parse_time_value("1.5us").unwrap()), 1.5e-6);
    assert_eq!(number(parse_time_value("10ms").unwrap()), 10e-3);
    assert_eq!(number(parse_time_value("1").unwrap()), 1.0);
}

#[test]
fn test_parse_voltage_value() {
    assert_eq!(number(parse_voltage_value("1V").unwrap()), 1.0);
    assert_eq!(number(parse_voltage_value("1.5mV").unwrap()), 1.5e-3);
    assert_eq!(number(parse_voltage_value("10mA").unwrap()), 10e-3);
}

#[test]
fn test_mna_simple_resistor_circuit() {
    let mut circuit = Circuit::new("Test".to_string());

    circuit.add_node("1".to_string());
    circuit.add_node("0".to_string());

    let v1 = Component::new_voltage_source(
        "V1".to_string(),
        "1".to_string(),
        "0".to_string(),
        decimal(5, 0),
    );
    let r1 =
        Component::new_resistor("R1".to_string(), "1".to_string(), "0".to_string(), decimal(1000, 0));

    circuit.add_component(v1).unwrap();
    circuit.add_component(r1).unwrap();

    let mut mna = MnaSystem::new(&circuit).unwrap();
    mna.assemble_dc(&circuit).unwrap();

    assert_eq!(mna.size, 2);
    assert_eq!(mna.num_nodes, 1);
    assert_eq!(mna.num_voltage_sources, 1);
}

#[test]
fn test_mna_current_source() {
    let mut circuit = Circuit::new("Test".to_string());

    circuit.add_node("1".to_string());
    circuit.add_node("0".to_string());

    let i1 = Component::new_current_source(
        "I1".to_string(),
        "1".to_string(),
        "0".to_string(),
        decimal(1, -3),
    );
    let r1 =
        Component::new_resistor("R1".to_string(), "1".to_string(), "0".to_string(), decimal(1000, 0));

    circuit.add_component(i1).unwrap();
    circuit.add_component(r1).unwrap();

    let mut mna = MnaSystem::new(&circuit).unwrap();
    mna.assemble_dc(&circuit).unwrap();

    assert_eq!(mna.size, 1);
    let (_, rhs) = numeric(&mna);
    assert_eq!(rhs[0], 0.001);
}

#[test]
fn test_parse_resistor() {
    let parser = SpiceParser::new();
    let content = "Test Circuit\nR1 1 2 1k\n.end";

    let lines = parser.preprocess_lines(content);
    assert_eq!(lines.len(), 3);
    assert_eq!(lines[0], "Test Circuit");
    assert_eq!(lines[1], "R1 1 2 1k");
    assert_eq!(lines[2], ".end");
}

#[test]
fn test_simulator_operating_point() {
    let mut simulator = Simulator::new();

    let mut circuit = Circuit::new("Test Circuit".to_string());
    circuit.add_node("1".to_string());
    circuit.add_node("0".to_string());

    let vs = Component::new_voltage_source(
        "V1".to_string(),
        "1".to_string(),
        "0".to_string(),
        decimal(5, 0),
    );
    let r =
        Component::new_resistor("R1".to_string(), "1".to_string(), "0".to_string(), decimal(1000, 0));

    circuit.add_component(vs).unwrap();
    circuit.add_component(r).unwrap();

    let netlist = SpiceNetlist {
        title: circuit.title.clone(),
        components: circuit.components.clone(),
        nodes: circuit.nodes.clone(),
        subcircuits: Vec::new(),
        parameters: Vec::new(),
        analyses: Vec::new(),
    };

    simulator.load_netlist_from_parsed(netlist).unwrap();

    simulator.begin_operating_point().unwrap();
    while let Some(_) = simulator.next_step().unwrap() {
        let system = simulator.get_system().unwrap();
        let (a, z) = numeric(system);
        let x = a.clone().lu().solve(&z).unwrap();
        let residual = (&a * &x - &z).norm();
        let stats = SolverStats {
            method_used: SolverMethod::Lu,
            iterations: 1,
            residual_norm: Scalar { bits: residual.to_bits() },
            solve_time: Scalar { bits: 0 },
            success: residual < 1e-9,
            condition_number: None,
        };
        let solution: Vec<Scalar> = x.iter().map(|v| Scalar { bits: v.to_bits() }).collect();
        simulator.complete_step(&solution, stats).unwrap();
    }

    let results = simulator.get_results().unwrap();
    assert!(results.success);
    assert_eq!(results.time_points.len(), 1);
}

#[test]
fn test_auto_solver_selection() {
    // A 2 × 2 matrix with its two diagonal places filled is small: LU.
    assert_eq!(auto_select_solver(2, 2, true), SolverMethod::Lu);
}

#[test]
fn auto_select_follows_size_density_and_symmetry() {
    assert_eq!(auto_select_solver(10, 100, true), SolverMethod::Lu);
    assert_eq!(auto_select_solver(99, 99, true), SolverMethod::Lu);
    assert_eq!(auto_select_solver(1000, 1000, true), SolverMethod::Cg);
    assert_eq!(auto_select_solver(1000, 1000, false), SolverMethod::BiCgStab);
    // A tenth of the places filled is not yet dense; one more is.
    assert_eq!(auto_select_solver(100, 1000, true), SolverMethod::Cg);
    assert_eq!(auto_select_solver(100, 1001, true), SolverMethod::Lu);
}

#[test]
fn solver_plans() {
    let solver = LinearSolver::new();
    assert_eq!(solver.config.method, SolverMethod::Lu);
    assert_eq!(solver.config.tolerance, decimal(1, -12));
    assert_eq!(solver.config.max_iterations, 1000);
    assert_eq!(solver.plan_dense(2, 2, 2), Ok(SolverMethod::Lu));
    assert_eq!(solver.plan_sparse(2, 3, 2), Err(ShapeError::NotSquare { rows: 2, cols: 3 }));
    assert_eq!(
        solver.plan_sparse(2, 2, 3),
        Err(ShapeError::DimensionMismatch { rows: 2, rhs: 3 })
    );
    assert_eq!(check_shape(4, 4, 4), Ok(()));
    let qr = LinearSolver::with_config(SolverConfig { method: SolverMethod::Qr, ..solver.config });
    assert_eq!(qr.plan_dense(1, 1, 1), Ok(SolverMethod::Qr));
    assert_eq!(qr.plan_sparse(1, 1, 1), Ok(SolverMethod::Lu));
    let cg = LinearSolver::with_config(SolverConfig { method: SolverMethod::Cg, ..solver.config });
    assert_eq!(cg.plan_dense(1, 1, 1), Ok(SolverMethod::Lu));
    assert_eq!(cg.plan_sparse(1, 1, 1), Ok(SolverMethod::Cg));
    assert_eq!(SolverMethod::BiCgStab.name(), "BiCgStab");
}

#[test]
fn ground_names() {
    for name in ["0", "gnd", "GND", "Ground", "gRoUnD"] {
        assert!(Node::new(name.to_string()).is_ground(), "{}", name);
    }
    for name in ["00", "gn", "grounds", "1", ""] {
        assert!(!Node::new(name.to_string()).is_ground(), "{}", name);
    }
    let mut circuit = Circuit::new("g".to_string());
    assert_eq!(circuit.add_node("a".to_string()), 0);
    assert_eq!(circuit.add_node("GND".to_string()), 1);
    assert_eq!(circuit.add_node("0".to_string()), 2);
    assert_eq!(circuit.add_node("a".to_string()), 0);
    assert_eq!(circuit.ground_node, Some(1));
    assert_eq!(circuit.node_count(), 2);
    assert_eq!(circuit.non_ground_nodes(), vec![0, 2]);
    assert_eq!(circuit.get_node_id("0"), Some(2));
    assert_eq!(circuit.get_node_id("b"), None);
    assert_eq!(circuit.get_node("GND").unwrap().id, 1);
    assert!(circuit.get_node_by_id(3).is_none());
    circuit.set_node_voltage(2, Scalar { bits: 7 }).unwrap();
    assert_eq!(circuit.get_node_voltage(2), Ok(Scalar { bits: 7 }));
    assert_eq!(circuit.set_node_voltage(3, Scalar { bits: 7 }), Err(NodeNotFound { id: 3 }));
    assert_eq!(circuit.get_node_voltage(9), Err(NodeNotFound { id: 9 }));
}

#[test]
fn component_checks() {
    let zero = Component::new_resistor("R".into(), "1".into(), "0".into(), decimal(0, 0));
    assert_eq!(zero.validate(), Err(ComponentError::NonPositiveValue));
    assert_eq!(zero.conductance(), Err(ComponentError::NonPositiveValue));
    let negative = Component::new_capacitor(
        "C".into(),
        "1".into(),
        "0".into(),
        Decimal { negative: true, mantissa: 1, exponent: 0 },
    );
    assert_eq!(negative.validate(), Err(ComponentError::NonPositiveValue));
    let source = Component::new_voltage_source("V".into(), "1".into(), "0".into(), decimal(0, 0));
    assert_eq!(source.validate(), Ok(()));
    assert_eq!(source.conductance(), Err(ComponentError::NotAResistor));
    assert_eq!(source.terminal_count(), 2);
    let mut lame = Component::new_inductor("L".into(), "1".into(), "0".into(), decimal(1, 0));
    lame.nodes.pop();
    assert_eq!(
        lame.validate(),
        Err(ComponentError::TerminalCount { expected: 2, found: 1 })
    );
    assert!(ComponentType::Inductor.tracks_current());
    assert!(ComponentType::VoltageSource.is_source());
    assert!(!ComponentType::Diode.is_linear());
    let mut circuit = Circuit::new("c".to_string());
    assert_eq!(circuit.add_component(zero), Err(ComponentError::NonPositiveValue));
    assert_eq!(circuit.nodes.len(), 0);
}

#[test]
fn circuit_validation() {
    let mut circuit = Circuit::new("v".to_string());
    circuit
        .add_component(Component::new_resistor("R1".into(), "1".into(), "2".into(), decimal(1, 0)))
        .unwrap();
    assert_eq!(circuit.validate(), Err(ValidationError::NoGround));
    circuit.add_node("0".to_string());
    circuit.add_node("x".to_string());
    assert_eq!(circuit.validate(), Err(ValidationError::FloatingNode { node: 3 }));
    circuit
        .add_component(Component::new_resistor("R2".into(), "x".into(), "0".into(), decimal(1, 0)))
        .unwrap();
    assert_eq!(circuit.validate(), Ok(()));
    circuit.components[1].value = decimal(0, 0);
    assert_eq!(
        circuit.validate(),
        Err(ValidationError::InvalidComponent {
            index: 1,
            reason: ComponentError::NonPositiveValue
        })
    );
    assert_eq!(circuit.linear_components().len(), 2);
    assert_eq!(circuit.voltage_sources().len(), 0);
    assert_eq!(circuit.current_sources().len(), 0);
    assert_eq!(circuit.nonlinear_components().len(), 0);
    assert_eq!(circuit.components_of_type(&ComponentType::Resistor)[1].name, "R2");
}

#[test]
fn layout_and_decoding() {
    let mut circuit = Circuit::new("l".to_string());
    for c in [
        Component::new_resistor("R1".into(), "a".into(), "0".into(), decimal(2, 0)),
        Component::new_inductor("L1".into(), "a".into(), "b".into(), decimal(1, -3)),
        Component::new_voltage_source("V1".into(), "b".into(), "0".into(), decimal(3, 0)),
    ] {
        circuit.add_component(c).unwrap();
    }
    let mut system = MnaSystem::new(&circuit).unwrap();
    assert_eq!(system.node_map, vec![Some(0), None, Some(1)]);
    assert_eq!(system.branches, vec!["V1".to_string(), "L1".to_string()]);
    assert_eq!((system.size, system.num_nodes, system.num_voltage_sources, system.num_inductors), (4, 2, 1, 1));
    system.assemble_dc(&circuit).unwrap();
    assert_eq!(
        system.stamps,
        vec![
            Stamp::MatrixAdd {
                row: 0,
                col: 0,
                negative: false,
                amount: Ratio { numerator: decimal(1, 0), denominator: decimal(2, 0) }
            },
            Stamp::MatrixSet { row: 3, col: 0, negative: false },
            Stamp::MatrixSet { row: 0, col: 3, negative: false },
            Stamp::MatrixSet { row: 3, col: 1, negative: true },
            Stamp::MatrixSet { row: 1, col: 3, negative: true },
            Stamp::RhsSet { row: 3, value: decimal(0, 0) },
            Stamp::MatrixSet { row: 2, col: 1, negative: false },
            Stamp::MatrixSet { row: 1, col: 2, negative: false },
            Stamp::RhsSet { row: 2, value: decimal(3, 0) },
        ]
    );
    let first = system.stamps.clone();
    system.assemble_dc(&circuit).unwrap();
    assert_eq!(system.stamps, first);
    system.assemble_transient(&circuit, decimal(1, -6)).unwrap();
    assert_eq!(system.stamps.len(), first.len() + 2);
    assert_eq!(
        system.stamps[first.len()],
        Stamp::MatrixAdd {
            row: 3,
            col: 3,
            negative: true,
            amount: Ratio { numerator: decimal(1, -3), denominator: decimal(1, -6) }
        }
    );
    let solution: Vec<Scalar> = (1..=4).map(|k| Scalar { bits: k }).collect();
    assert_eq!(
        system.update_solution(&solution[..3]),
        Err(SizeMismatch { expected: 4, found: 3 })
    );
    system.update_solution(&solution).unwrap();
    assert_eq!(system.get_node_voltage(0), Scalar { bits: 1 });
    assert_eq!(system.get_node_voltage(1), Scalar { bits: 0 });
    assert_eq!(system.get_node_voltage(2), Scalar { bits: 2 });
    assert_eq!(system.get_node_voltage(7), Scalar { bits: 0 });
    assert_eq!(system.get_voltage_source_current("V1"), Ok(Scalar { bits: 3 }));
    assert_eq!(system.get_voltage_source_current("L1"), Ok(Scalar { bits: 4 }));
    assert_eq!(system.get_voltage_source_current("R1"), Err(SourceNotFound {}));
    assert_eq!(system.get_node_voltages(), vec![Scalar { bits: 1 }, Scalar { bits: 2 }]);
}

#[test]
fn assembly_faults() {
    let mut circuit = Circuit::new("f".to_string());
    circuit
        .add_component(Component::new_resistor("R1".into(), "a".into(), "0".into(), decimal(2, 0)))
        .unwrap();
    let mut system = MnaSystem::new(&circuit).unwrap();
    circuit.components[0].value = decimal(0, 0);
    assert_eq!(
        system.assemble_dc(&circuit),
        Err(AssemblyError { component: 0, fault: AssemblyFault::InvalidResistance })
    );
    assert!(system.stamps.is_empty());
    circuit.components[0].value = decimal(2, 0);
    circuit.components[0].nodes[1] = "nowhere".to_string();
    assert_eq!(
        system.check(&circuit),
        Some(AssemblyError { component: 0, fault: AssemblyFault::NodeNotFound })
    );
    circuit.components[0].nodes.pop();
    assert_eq!(
        system.check(&circuit),
        Some(AssemblyError { component: 0, fault: AssemblyFault::MissingTerminal })
    );
    circuit.components[0] =
        Component::new_voltage_source("V1".into(), "a".into(), "0".into(), decimal(1, 0));
    assert_eq!(
        system.check(&circuit),
        Some(AssemblyError { component: 0, fault: AssemblyFault::SourceNotMapped })
    );
    let mut lonely = Circuit::new("e".to_string());
    lonely.add_node("0".to_string());
    assert!(matches!(MnaSystem::new(&lonely), Err(LayoutError::Empty)));
}

#[test]
fn command_line() {
    let words = |w: &[&str]| w.iter().map(|s| s.to_string()).collect::<Vec<String>>();
    let tran = words(&["1us", "1ms"]);
    let args =
        CliArgs::from_values(Some("a.sp".into()), None, "csv", Some(&tran), None, 2).unwrap();
    assert_eq!(args.input_file, "a.sp");
    assert_eq!(args.output_format, OutputFormat::Csv);
    assert_eq!(args.verbose_level, 2);
    assert!(matches!(
        args.analysis_type,
        rustsim::cli::AnalysisType::Transient { tstep, tstop }
            if tstep == decimal(1, -6) && tstop == decimal(1, -3)
    ));
    let err = |r: Result<CliArgs, CliError>| r.err().unwrap();
    assert_eq!(err(CliArgs::from_values(None, None, "csv", None, None, 0)), CliError::MissingInput);
    assert_eq!(
        err(CliArgs::from_values(Some("a".into()), None, "xml", None, None, 0)),
        CliError::InvalidFormat
    );
    assert_eq!(
        err(CliArgs::from_values(Some("a".into()), None, "json", Some(&words(&["1"])), None, 0)),
        CliError::TransientArity
    );
    assert_eq!(
        err(CliArgs::from_values(Some("a".into()), None, "json", Some(&words(&["1ms", "1us"])), None, 0)),
        CliError::InvalidTimes
    );
    assert_eq!(
        err(CliArgs::from_values(Some("a".into()), None, "json", Some(&words(&["1m", "1"])), None, 0)),
        CliError::BadTime(ValueError::UnknownUnit)
    );
    assert_eq!(
        err(CliArgs::from_values(Some("a".into()), None, "json", None, Some(&words(&["V1", "0"])), 0)),
        CliError::SweepArity
    );
    assert_eq!(
        err(CliArgs::from_values(Some("a".into()), None, "json", None, Some(&words(&["V1", "0", "1", "0"])), 0)),
        CliError::InvalidStep
    );
    assert_eq!(
        err(CliArgs::from_values(Some("a".into()), None, "json", None, Some(&words(&["V1", "0", "x", "1"])), 0)),
        CliError::BadValue(ValueError::Malformed)
    );
    let sweep = CliArgs::from_values(
        Some("a".into()),
        Some("out".into()),
        "json",
        None,
        Some(&words(&["V1", "0", "5V", "100mV"])),
        0,
    )
    .unwrap();
    assert_eq!(sweep.output_file.as_deref(), Some("out"));
    assert!(matches!(
        sweep.analysis_type,
        rustsim::cli::AnalysisType::DcSweep { ref source, start, stop, step }
            if source == "V1" && start == decimal(0, 0) && stop == decimal(5, 0) && step == decimal(100, -3)
    ));
    let plain = CliArgs::from_values(Some("a".into()), None, "json", None, None, 0).unwrap();
    assert!(matches!(plain.analysis_type, rustsim::cli::AnalysisType::Operating));
}

fn lu_solve(
    solver: &LinearSolver,
    matrix: &DMatrix<f64>,
    rhs: &DVector<f64>,
    sparse: bool,
) -> (DVector<f64>, SolverStats) {
    let planned = if sparse {
        solver.plan_sparse(matrix.nrows(), matrix.ncols(), rhs.len())
    } else {
        solver.plan_dense(matrix.nrows(), matrix.ncols(), rhs.len())
    };
    let method = planned.unwrap();
    assert_eq!(method, SolverMethod::Lu);
    let solution = matrix.clone().lu().solve(rhs).unwrap();
    let residual = (matrix * &solution - rhs).norm();
    let stats = SolverStats {
        method_used: method,
        iterations: 1,
        residual_norm: Scalar { bits: residual.to_bits() },
        solve_time: Scalar { bits: 0 },
        success: residual < number(solver.config.tolerance) * 1000.0,
        condition_number: None,
    };
    (solution, stats)
}

#[test]
fn test_dense_lu_solver() {
    let solver = LinearSolver::new();

    let matrix = DMatrix::from_row_slice(2, 2, &[2.0, 1.0, 1.0, 2.0]);
    let rhs = DVector::from_vec(vec![3.0, 3.0]);

    let (solution, stats) = lu_solve(&solver, &matrix, &rhs, false);

    assert!((solution[0] - 1.0).abs() < 1e-10);
    assert!((solution[1] - 1.0).abs() < 1e-10);
    assert!(stats.success);
    assert_eq!(stats.method_used, SolverMethod::Lu);
}

#[test]
fn test_sparse_solver() {
    let solver = LinearSolver::new();

    let mut matrix = DMatrix::<f64>::zeros(2, 2);
    for (row, col, value) in [(0, 0, 2.0), (0, 1, 1.0), (1, 0, 1.0), (1, 1, 2.0)] {
        matrix[(row, col)] = value;
    }
    let rhs = DVector::from_vec(vec![3.0, 3.0]);

    let (solution, stats) = lu_solve(&solver, &matrix, &rhs, true);

    assert!((solution[0] - 1.0).abs() < 1e-10);
    assert!((solution[1] - 1.0).abs() < 1e-10);
    assert!(stats.success);
}

#[test]
fn table_of_results() {
    let mut circuit = Circuit::new("t".to_string());
    for c in [
        Component::new_voltage_source("V1".into(), "in".into(), "0".into(), decimal(1, 0)),
        Component::new_resistor("R1".into(), "in".into(), "0".into(), decimal(1, 0)),
    ] {
        circuit.add_component(c).unwrap();
    }
    let netlist = SpiceNetlist {
        title: "t".to_string(),
        components: circuit.components.clone(),
        nodes: Vec::new(),
        subcircuits: Vec::new(),
        parameters: Vec::new(),
        analyses: Vec::new(),
    };
    let mut simulator = Simulator::default();
    simulator.load_netlist_from_parsed(netlist).unwrap();
    simulator.begin_operating_point().unwrap();
    assert!(simulator.next_step().unwrap().is_some());
    let stats = SolverStats {
        method_used: SolverMethod::Qr,
        iterations: 3,
        residual_norm: Scalar { bits: 11 },
        solve_time: Scalar { bits: 12 },
        success: true,
        condition_number: None,
    };
    simulator.complete_step(&[Scalar { bits: 21 }, Scalar { bits: 22 }], stats).unwrap();
    assert_eq!(simulator.next_step(), Ok(None));
    simulator.set_total_time(Scalar { bits: 99 });
    let results = simulator.get_results().unwrap();
    assert_eq!(results.csv_header(), vec!["time", "V(in)", "V(0)", "I(V1)"]);
    assert_eq!(results.row(0), vec![Scalar { bits: 21 }, Scalar { bits: 0 }, Scalar { bits: 22 }]);
    assert_eq!(results.total_time, Scalar { bits: 99 });
    assert_eq!(results.convergence_info[0].iteration, 0);
    assert_eq!(results.convergence_info[0].residual_norm, Scalar { bits: 11 });
    assert_eq!(results.convergence_info[0].solver_method, "Qr");
    assert!(results.node_voltage("nowhere").is_none());
    assert_eq!(simulator.choose_solver(1000, 1000, true), SolverMethod::Cg);
    assert_eq!(simulator.solver_method(), SolverMethod::Cg);
    simulator.abort();
    assert_eq!(simulator.next_step(), Err(rustsim::simulator::SimulationError::NoAnalysis));
}

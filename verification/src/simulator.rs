//! The analysis driver.
//!
//! An analysis is a run of points. For each point the driver prepares the
//! linear system, the numerical side solves it, and the driver files the
//! solution. The driver decides how many points there are, what each point
//! is, what is assembled for it and what is recorded of it; it does none of
//! the arithmetic of solving.
use vstd::prelude::*;
use crate::circuit::{Circuit, ComponentError, ValidationError};
use crate::decimal::{difference_in_units, ratio_floor, Decimal};
use crate::mna::{AssemblyError, LayoutError, MnaSystem, SizeMismatch};
use crate::parser::{Analysis, SpiceNetlist};
use crate::results::channel_names;
pub use crate::results::{AnalysisType, ConvergenceInfo, SimulationResult};
use crate::scalar::{zeros, Scalar};
use crate::solver::{auto_select_solver, LinearSolver, SolverConfig, SolverMethod, SolverStats};

verus! {

/// Why the driver refuses.
#[derive(Clone, Copy, Debug, PartialEq, Eq, Structural)]
pub enum SimulationError {
    /// No circuit is loaded.
    NoCircuit,
    /// No analysis is under way.
    NoAnalysis,
    /// An analysis is under way and has to end first.
    AnalysisRunning,
    /// A point is prepared and waits for its solution.
    StepPending,
    /// No point is prepared.
    NoStepPending,
    /// The element at `index` of the netlist fails its check.
    Component { index: usize, reason: ComponentError },
    Validation(ValidationError),
    Layout(LayoutError),
    Assembly(AssemblyError),
    /// The circuit has no element of the name to be swept.
    SourceNotFound,
    /// A time step that is not above zero, or a sweep step of zero.
    InvalidStep,
    /// The number of points, or a point, cannot be represented.
    OutOfRange,
    Solution(SizeMismatch),
    /// The analysis is recognised but not implemented.
    Unsupported,
}

/// How the driver is to work.
#[derive(Debug, Clone, Copy, PartialEq, Eq, Structural)]
pub struct SimulatorConfig {
    pub solver_config: SolverConfig,
    pub max_iterations: usize,
    pub convergence_tolerance: Decimal,
    pub auto_select_solver: bool,
    pub store_intermediate_results: bool,
}

impl SimulatorConfig {
    /// The standard solver, chosen anew for each system, 50 iterations and a
    /// tolerance of `1e-9`.
    pub open spec fn standard() -> SimulatorConfig {
        SimulatorConfig {
            solver_config: SolverConfig::standard(),
            max_iterations: 50,
            convergence_tolerance: Decimal { negative: false, mantissa: 1, exponent: -9i32 },
            auto_select_solver: true,
            store_intermediate_results: false,
        }
    }
}

impl Default for SimulatorConfig {
    fn default() -> (r: SimulatorConfig)
        ensures
            r == SimulatorConfig::standard(),
    {
        SimulatorConfig {
            solver_config: SolverConfig::default(),
            max_iterations: 50,
            convergence_tolerance: Decimal { negative: false, mantissa: 1, exponent: -9 },
            auto_select_solver: true,
            store_intermediate_results: false,
        }
    }
}

/// What the points of a run are.
#[derive(Debug, Clone, Copy, PartialEq, Eq, Structural)]
pub enum Plan {
    /// One point: the circuit at rest.
    Operating,
    /// Point `k` is the circuit at rest with the value of the element
    /// `source` set to `start + k·step`; `original` is the value that the
    /// element gets back in the end.
    Sweep { source: usize, start: Decimal, step: Decimal, original: Decimal },
    /// Point `k` is the circuit at the time `k·tstep`.
    Transient { tstep: Decimal },
}

/// How far a run has come.
#[derive(Debug, Clone, Copy, PartialEq, Eq, Structural)]
pub struct Run {
    pub plan: Plan,
    /// The number of points of the run.
    pub total: usize,
    /// The number of points that are recorded.
    pub done: usize,
    /// The time or swept value of the point that is prepared and waits for
    /// its solution.
    pub armed: Option<Decimal>,
}

/// What is to be solved next.
#[derive(Debug, Clone, Copy, PartialEq, Eq, Structural)]
pub struct StepPlan {
    /// The number of the point.
    pub index: usize,
    /// Its time, or the value of the swept source.
    pub value: Decimal,
    /// The length of the time step, for a point of a transient analysis.
    pub dt: Option<Decimal>,
}

/// The number of points of a transient analysis: `⌊tstop/tstep⌋ + 1`, and
/// one point where the stop time is below zero.
pub open spec fn transient_points(tstep: Decimal, tstop: Decimal) -> nat {
    if tstop.negative {
        1
    } else {
        ratio_floor(tstop, tstep) + 1
    }
}

/// The number of points of a sweep: `⌊|stop − start| / |step|⌋ + 1`.
pub open spec fn sweep_points(start: Decimal, stop: Decimal, step: Decimal) -> nat {
    let lo = crate::decimal::lower_exponent(stop, start);
    let span = Decimal {
        negative: false,
        mantissa: (if difference_in_units(stop, start) < 0 {
            -difference_in_units(stop, start)
        } else {
            difference_in_units(stop, start)
        }) as u64,
        exponent: lo as i32,
    };
    ratio_floor(span, step) + 1
}

/// Counts the points of a transient analysis.
pub fn count_transient_points(tstep: Decimal, tstop: Decimal) -> (r: Result<usize, SimulationError>)
    ensures
        match r {
            Ok(n) => tstep.positive() && n == transient_points(tstep, tstop),
            Err(SimulationError::InvalidStep) => !tstep.positive(),
            Err(SimulationError::OutOfRange) => tstep.positive() && transient_points(tstep, tstop)
                > usize::MAX,
            Err(_) => false,
        },
{
    if !tstep.is_positive() {
        return Err(SimulationError::InvalidStep);
    }
    if tstop.negative {
        return Ok(1);
    }
    match tstop.floor_ratio(&tstep) {
        None => Err(SimulationError::OutOfRange),
        Some(q) => {
            if q >= usize::MAX as u64 {
                Err(SimulationError::OutOfRange)
            } else {
                Ok(q as usize + 1)
            }
        },
    }
}

/// Counts the points of a sweep.
pub fn count_sweep_points(start: Decimal, stop: Decimal, step: Decimal) -> (r: Result<
    usize,
    SimulationError,
>)
    ensures
        match r {
            Ok(n) => step.mantissa != 0 && -(u64::MAX as int) <= difference_in_units(stop, start)
                <= u64::MAX && n == sweep_points(start, stop, step),
            Err(SimulationError::InvalidStep) => step.mantissa == 0,
            Err(SimulationError::OutOfRange) => step.mantissa != 0 && (difference_in_units(
                stop,
                start,
            ) > u64::MAX || difference_in_units(stop, start) < -(u64::MAX as int) || sweep_points(
                start,
                stop,
                step,
            ) > usize::MAX),
            Err(_) => false,
        },
{
    if step.is_zero() {
        return Err(SimulationError::InvalidStep);
    }
    let span = match stop.minus(&start) {
        None => {
            return Err(SimulationError::OutOfRange);
        },
        Some(d) => Decimal { negative: false, mantissa: d.mantissa, exponent: d.exponent },
    };
    match span.floor_ratio(&step) {
        None => Err(SimulationError::OutOfRange),
        Some(q) => {
            if q >= usize::MAX as u64 {
                Err(SimulationError::OutOfRange)
            } else {
                Ok(q as usize + 1)
            }
        },
    }
}

/// Takes the value out of a slot and leaves the slot empty.
fn take_out<T>(slot: &mut Option<T>) -> (r: Option<T>)
    ensures
        r == *old(slot),
        *final(slot) is None,
    no_unwind
{
    let mut out: Option<T> = None;
    core::mem::swap(slot, &mut out);
    out
}

/// The simulator: a circuit, its linear system, and the results of the last
/// analysis.
pub struct Simulator {
    circuit: Option<Circuit>,
    mna_system: Option<MnaSystem>,
    solver: LinearSolver,
    results: Option<SimulationResult>,
    config: SimulatorConfig,
    run: Option<Run>,
}

/// Whether a run fits the circuit, system and results that it works on.
pub open spec fn run_fits(
    run: Run,
    circuit: Option<Circuit>,
    system: Option<MnaSystem>,
    results: Option<SimulationResult>,
) -> bool {
    &&& circuit is Some
    &&& system is Some
    &&& results is Some
    &&& run.done <= run.total
    &&& (run.armed is Some ==> run.done < run.total)
    &&& results->0.node_voltages@.len() == circuit->0.nodes@.len()
    &&& results->0.currents@.len() == system->0.num_voltage_sources
    &&& results->0.time_points@.len() == run.done
    &&& (run.plan matches Plan::Sweep { source, .. } ==> source < circuit->0.components@.len())
}

/// Whether the circuit is the one that the parts of a netlist make: the
/// elements in order, and the nodes that they name in the order in which
/// they are first named.
pub open spec fn made_of(circuit: Circuit, netlist: SpiceNetlist) -> bool {
    &&& circuit.wf()
    &&& circuit.title == netlist.title
    &&& circuit.components@ == netlist.components@
    &&& circuit.nodes@ == crate::parser::harvest(netlist.components@, netlist.components@.len())
}

/// Whether `system` and `results` are what a run starts with on the circuit
/// `c` and its system `m`: the unknowns at zero, and results with a channel
/// for each node and each voltage source that hold no point yet, or, `at_rest`,
/// the one point at time 0 where every voltage and current is zero.
pub open spec fn opened(
    c: Circuit,
    m: MnaSystem,
    system: MnaSystem,
    results: SimulationResult,
    analysis_type: AnalysisType,
    at_rest: bool,
) -> bool {
    &&& system.wf()
    &&& system.same_layout(&m)
    &&& system.stamps == m.stamps
    &&& system.unknowns@ == Seq::new(m.size as nat, |i: int| Scalar::zero())
    &&& results.wf()
    &&& results.analysis_type == analysis_type
    &&& results.success
    &&& results.total_time == Scalar::zero()
    &&& results.convergence_info@.len() == 0
    &&& channel_names(results.node_voltages@) == Seq::new(c.nodes@.len(), |i: int| c.nodes@[i].name)
    &&& channel_names(results.currents@) == m.branches@.take(m.num_voltage_sources as int)
    &&& if at_rest {
        &&& results.time_points@ == seq![Decimal { negative: false, mantissa: 0, exponent: 0 }]
        &&& forall|i: int|
            0 <= i < results.node_voltages@.len() ==> (#[trigger] results.node_voltages@[i]).values@
                == seq![Scalar::zero()]
        &&& forall|i: int|
            0 <= i < results.currents@.len() ==> (#[trigger] results.currents@[i]).values@
                == seq![Scalar::zero()]
    } else {
        results.time_points@.len() == 0
    }
}

/// Whether the plan is the sweep of the first element of `c` called `name`,
/// from `start` in steps of `step`, that remembers the element's value.
pub open spec fn sweeps(plan: Plan, c: Circuit, name: Seq<char>, start: Decimal, step: Decimal) -> bool {
    &&& plan is Sweep
    &&& plan->start == start
    &&& plan->step == step
    &&& plan->source < c.components@.len()
    &&& c.components@[plan->source as int].name@ == name
    &&& forall|j: int| 0 <= j < plan->source ==> (#[trigger] c.components@[j]).name@ != name
    &&& plan->original == c.components@[plan->source as int].value
}

/// Whether no element of the circuit is called `name`.
pub open spec fn unnamed(c: Circuit, name: Seq<char>) -> bool {
    forall|j: int| 0 <= j < c.components@.len() ==> (#[trigger] c.components@[j]).name@ != name
}

/// `k` times the value of `d`, where its mantissa fits into 64 bits.
pub open spec fn product_of(d: Decimal, k: usize) -> Option<Decimal> {
    if d.mantissa * k > u64::MAX {
        None
    } else {
        Some(
            Decimal {
                negative: d.negative && d.mantissa * k > 0,
                mantissa: (d.mantissa * k) as u64,
                exponent: d.exponent,
            },
        )
    }
}

/// The sum of two decimals at the lower of their exponents, where its
/// mantissa fits into 64 bits.
pub open spec fn sum_of(a: Decimal, b: Decimal) -> Option<Decimal> {
    let sum = crate::decimal::sum_in_units(a, b);
    if sum > u64::MAX || sum < -(u64::MAX as int) {
        None
    } else {
        Some(
            Decimal {
                negative: sum < 0,
                mantissa: (if sum < 0 { -sum } else { sum }) as u64,
                exponent: crate::decimal::lower_exponent(a, b) as i32,
            },
        )
    }
}

/// The time or swept value of point `k` of a plan; none where it cannot be
/// represented.
pub open spec fn point_value(plan: Plan, k: usize) -> Option<Decimal> {
    match plan {
        Plan::Operating => Some(Decimal { negative: false, mantissa: 0, exponent: 0 }),
        Plan::Transient { tstep } => product_of(tstep, k),
        Plan::Sweep { start, step, .. } => match product_of(step, k) {
            None => None,
            Some(p) => sum_of(start, p),
        },
    }
}

/// Whether `after` is `before` with the value of the element at `index`
/// set to `value`.
pub open spec fn revalued(before: Circuit, after: Circuit, index: usize, value: Decimal) -> bool {
    &&& after.title == before.title
    &&& after.nodes == before.nodes
    &&& after.ground_node == before.ground_node
    &&& after.components@.len() == before.components@.len()
    &&& index < before.components@.len()
    &&& after.components@[index as int] == (crate::circuit::Component {
        value,
        ..before.components@[index as int]
    })
    &&& forall|k: int|
        0 <= k < before.components@.len() && k != index ==> after.components@[k]
            == before.components@[k]
}

/// Whether `after` is the circuit in which a point of value `value` is
/// solved: for a sweep the circuit with the swept element at `value`, else
/// the circuit as it is.
pub open spec fn set_for(before: Circuit, after: Circuit, plan: Plan, value: Decimal) -> bool {
    match plan {
        Plan::Sweep { source, .. } => revalued(before, after, source, value),
        _ => after == before,
    }
}

/// The stamps that are assembled for a point of the plan.
pub open spec fn stamps_for(system: MnaSystem, circuit: Circuit, plan: Plan) -> Seq<
    crate::mna::Stamp,
> {
    match plan {
        Plan::Transient { tstep } => system.transient_stamps(&circuit, tstep),
        _ => system.dc_stamps(&circuit),
    }
}

/// Whether the report is the one filed for point `index` on the solver's
/// statistics.
pub open spec fn reports(info: ConvergenceInfo, index: usize, stats: SolverStats) -> bool {
    &&& info.iteration == index
    &&& info.residual_norm == stats.residual_norm
    &&& info.solve_time == stats.solve_time
    &&& info.solver_method@ == stats.method_used.name_spec()
}

impl Simulator {
    #[verifier::type_invariant]
    spec fn inv(&self) -> bool {
        &&& (self.circuit matches Some(c) ==> c.wf())
        &&& (self.mna_system matches Some(m) ==> m.wf())
        &&& (self.results matches Some(r) ==> r.wf())
        &&& (self.run matches Some(run) ==> run_fits(
            run,
            self.circuit,
            self.mna_system,
            self.results,
        ))
    }

    /// The circuit that is loaded.
    pub closed spec fn circuit(&self) -> Option<Circuit> {
        self.circuit
    }

    /// The linear system of the circuit.
    pub closed spec fn system(&self) -> Option<MnaSystem> {
        self.mna_system
    }

    /// The results of the last analysis.
    pub closed spec fn results(&self) -> Option<SimulationResult> {
        self.results
    }

    /// The run that is under way.
    pub closed spec fn run(&self) -> Option<Run> {
        self.run
    }

    /// The solver in use.
    pub closed spec fn solver(&self) -> LinearSolver {
        self.solver
    }

    /// The configuration.
    pub closed spec fn config(&self) -> SimulatorConfig {
        self.config
    }

    /// A simulator without a circuit, with the standard configuration.
    pub fn new() -> (r: Simulator)
        ensures
            r.circuit() is None,
            r.system() is None,
            r.results() is None,
            r.run() is None,
            r.config() == SimulatorConfig::standard(),
            r.solver().config == SolverConfig::standard(),
    {
        Simulator {
            circuit: None,
            mna_system: None,
            solver: LinearSolver::new(),
            results: None,
            config: SimulatorConfig::default(),
            run: None,
        }
    }

    /// A simulator without a circuit, with the given configuration.
    pub fn with_config(config: SimulatorConfig) -> (r: Simulator)
        ensures
            r.circuit() is None,
            r.system() is None,
            r.results() is None,
            r.run() is None,
            r.config() == config,
            r.solver().config == config.solver_config,
    {
        Simulator {
            circuit: None,
            mna_system: None,
            solver: LinearSolver::with_config(config.solver_config),
            results: None,
            config,
            run: None,
        }
    }

    /// The results of the last analysis.
    pub fn get_results(&self) -> (r: Option<&SimulationResult>)
        ensures
            match r {
                Some(results) => self.results() == Some(*results) && results.wf(),
                None => self.results() is None,
            },
    {
        proof {
            use_type_invariant(self);
        }
        self.results.as_ref()
    }

    /// The circuit that is loaded.
    pub fn get_circuit(&self) -> (r: Option<&Circuit>)
        ensures
            match r {
                Some(c) => self.circuit() == Some(*c) && c.wf(),
                None => self.circuit() is None,
            },
    {
        proof {
            use_type_invariant(self);
        }
        self.circuit.as_ref()
    }

    /// The linear system of the circuit.
    pub fn get_system(&self) -> (r: Option<&MnaSystem>)
        ensures
            match r {
                Some(m) => self.system() == Some(*m) && m.wf(),
                None => self.system() is None,
            },
    {
        proof {
            use_type_invariant(self);
        }
        self.mna_system.as_ref()
    }

    /// The solver method in use.
    pub fn solver_method(&self) -> (r: SolverMethod)
        ensures
            r == self.solver().config.method,
    {
        self.solver.config.method
    }

    /// Picks the solver for a system of `size` unknowns with `nnz` entries,
    /// where the configuration asks for that; else the solver stays.
    pub fn choose_solver(&mut self, size: usize, nnz: usize, symmetric: bool) -> (r: SolverMethod)
        ensures
            r == final(self).solver().config.method,
            r == (if old(self).config().auto_select_solver {
                crate::solver::suited_method(size, nnz, symmetric)
            } else {
                old(self).solver().config.method
            }),
            final(self).circuit() == old(self).circuit(),
            final(self).system() == old(self).system(),
            final(self).results() == old(self).results(),
            final(self).run() == old(self).run(),
            final(self).config() == old(self).config(),
    {
        proof {
            use_type_invariant(&*self);
        }
        if self.config.auto_select_solver {
            let method = auto_select_solver(size, nnz, symmetric);
            self.solver = LinearSolver::with_config(
                SolverConfig {
                    method,
                    tolerance: self.config.solver_config.tolerance,
                    max_iterations: self.config.solver_config.max_iterations,
                    use_pivoting: self.config.solver_config.use_pivoting,
                    check_condition_number: self.config.solver_config.check_condition_number,
                },
            );
        }
        self.solver.config.method
    }

    /// Builds the circuit of a netlist, checks it and lays out its system;
    /// the system can then be assembled without a fault. Where loading
    /// fails, the simulator keeps what it held.
    #[verifier::loop_isolation(false)]
    pub fn load_netlist_from_parsed(&mut self, netlist: SpiceNetlist) -> (r: Result<
        (),
        SimulationError,
    >)
        ensures
            final(self).results() == old(self).results(),
            final(self).config() == old(self).config(),
            final(self).solver() == old(self).solver(),
            match r {
                Ok(()) => {
                    &&& old(self).run() is None
                    &&& final(self).run() is None
                    &&& final(self).circuit() matches Some(c) && made_of(c, netlist) && c.verdict(
                        Ok(()),
                    )
                    &&& final(self).system() matches Some(m) && m.wf() && m.lays_out(
                        &final(self).circuit()->0,
                    ) && m.stamps@.len() == 0 && m.first_fault(&final(self).circuit()->0, None)
                },
                Err(e) => {
                    &&& final(self).circuit() == old(self).circuit()
                    &&& final(self).system() == old(self).system()
                    &&& final(self).run() == old(self).run()
                    &&& match e {
                        SimulationError::AnalysisRunning => old(self).run() is Some,
                        SimulationError::Component { index, reason } => {
                            &&& old(self).run() is None
                            &&& index < netlist.components@.len()
                            &&& netlist.components@[index as int].check() == Err::<
                                (),
                                ComponentError,
                            >(reason)
                            &&& forall|k: int|
                                0 <= k < index ==> (#[trigger] netlist.components@[k]).check() is Ok
                        },
                        SimulationError::Validation(v) => {
                            &&& old(self).run() is None
                            &&& exists|c: Circuit| made_of(c, netlist) && c.verdict(Err(v))
                        },
                        SimulationError::Layout(l) => {
                            &&& old(self).run() is None
                            &&& exists|c: Circuit|
                                made_of(c, netlist) && c.verdict(Ok(())) && (match l {
                                    LayoutError::Empty => crate::mna::unknown_count(&c) == 0,
                                    LayoutError::TooLarge => crate::mna::unknown_count(&c)
                                        > usize::MAX,
                                })
                        },
                        _ => false,
                    }
                },
            },
    {
        proof {
            use_type_invariant(&*self);
        }
        if self.run.is_some() {
            return Err(SimulationError::AnalysisRunning);
        }
        let SpiceNetlist { title, components, nodes: _, subcircuits: _, parameters: _, analyses: _ } =
            netlist;
        let mut circuit = Circuit::new(title);
        let ghost all = components@;
        let mut index: usize = 0;
        let total = components.len();
        for c in it: components
            invariant
                it.seq() == all,
                all.len() == total,
                index == it.index(),
                circuit.wf(),
                circuit.title == netlist.title,
                circuit.components@ == all.take(it.index() as int),
                circuit.nodes@ == crate::parser::harvest(all, it.index() as nat),
                forall|i: int| 0 <= i < it.index() ==> (#[trigger] all[i]).check() is Ok,
        {
            match circuit.add_component(c) {
                Err(reason) => {
                    return Err(SimulationError::Component { index, reason });
                },
                Ok(()) => {},
            }
            assert(circuit.components@ =~= all.take(index + 1));
            assert(index < all.len()) by {
                assert(circuit.components@.len() == index + 1);
                assert(all.take(index + 1).len() == index + 1);
            }
            index += 1;
        }
        assert(all.take(all.len() as int) =~= all);
        match circuit.validate() {
            Err(v) => {
                assert(made_of(circuit, netlist) && circuit.verdict(Err(v)));
                return Err(SimulationError::Validation(v));
            },
            Ok(()) => {},
        }
        let system = match MnaSystem::new(&circuit) {
            Err(l) => {
                assert(made_of(circuit, netlist) && circuit.verdict(Ok(())));
                return Err(SimulationError::Layout(l));
            },
            Ok(system) => system,
        };
        proof {
            crate::parser::lemma_harvest_complete(all, all.len());
            assert(all.take(all.len() as int) =~= all);
            system.lemma_valid_circuit_assembles(&circuit);
        }
        self.circuit = Some(circuit);
        self.mna_system = Some(system);
        Ok(())
    }

    /// Opens a run on the circuit that is loaded, with fresh results.
    fn open_run(&mut self, analysis_type: AnalysisType, plan: Plan, total: usize) -> (r: Result<
        (),
        SimulationError,
    >)
        requires
            total >= 1,
            plan matches Plan::Sweep { source, .. } ==> old(self).circuit() is Some
                && source < old(self).circuit()->0.components@.len(),
        ensures
            final(self).config() == old(self).config(),
            final(self).solver() == old(self).solver(),
            final(self).circuit() == old(self).circuit(),
            match r {
                Ok(()) => {
                    &&& old(self).run() is None
                    &&& old(self).circuit() is Some
                    &&& old(self).system() is Some
                    &&& final(self).system() is Some
                    &&& final(self).results() is Some
                    &&& final(self).run() == Some(
                        Run {
                            plan,
                            total,
                            done: if plan is Transient { 1usize } else { 0usize },
                            armed: None,
                        },
                    )
                    &&& opened(
                        old(self).circuit()->0,
                        old(self).system()->0,
                        final(self).system()->0,
                        final(self).results()->0,
                        analysis_type,
                        plan is Transient,
                    )
                },
                Err(e) => {
                    &&& final(self).system() == old(self).system()
                    &&& final(self).results() == old(self).results()
                    &&& final(self).run() == old(self).run()
                    &&& match e {
                        SimulationError::AnalysisRunning => old(self).run() is Some,
                        SimulationError::NoCircuit => old(self).run() is None
                            && (old(self).circuit() is None || old(self).system() is None),
                        _ => false,
                    }
                },
            },
    {
        proof {
            use_type_invariant(&*self);
        }
        if self.run.is_some() {
            return Err(SimulationError::AnalysisRunning);
        }
        if self.circuit.is_none() || self.mna_system.is_none() {
            return Err(SimulationError::NoCircuit);
        }
        let mut system = take_out(&mut self.mna_system).unwrap();
        let circuit = take_out(&mut self.circuit).unwrap();
        system.reset_solution();
        let node_names = circuit.node_name_list();
        let source_names = system.source_names();
        let mut results = SimulationResult::new(analysis_type, &node_names, &source_names);
        assert(channel_names(results.node_voltages@).len() == results.node_voltages@.len());
        assert(channel_names(results.currents@).len() == results.currents@.len());
        assert(results.node_voltages@.len() == circuit.nodes@.len());
        assert(results.currents@.len() == system.num_voltage_sources);
        let mut done: usize = 0;
        if let Plan::Transient { .. } = plan {
            let rest_voltages = zeros(circuit.nodes.len());
            let rest_currents = zeros(system.num_voltage_sources);
            let ghost before = results;
            results.record(Decimal::zero(), &rest_voltages, &rest_currents, None, true);
            assert(results.time_points@ =~= seq![
                Decimal { negative: false, mantissa: 0, exponent: 0 },
            ]);
            assert forall|i: int| 0 <= i < results.node_voltages@.len() implies (
            #[trigger] results.node_voltages@[i]).values@ == seq![Scalar::zero()] by {
                assert(before.node_voltages@[i].values@.len() == 0);
                assert(results.node_voltages@[i].values@ =~= seq![Scalar::zero()]);
            }
            assert forall|i: int| 0 <= i < results.currents@.len() implies (
            #[trigger] results.currents@[i]).values@ == seq![Scalar::zero()] by {
                assert(before.currents@[i].values@.len() == 0);
                assert(results.currents@[i].values@ =~= seq![Scalar::zero()]);
            }
            assert(channel_names(results.node_voltages@) =~= channel_names(before.node_voltages@));
            assert(channel_names(results.currents@) =~= channel_names(before.currents@));
            done = 1;
        }
        self.circuit = Some(circuit);
        self.mna_system = Some(system);
        self.results = Some(results);
        self.run = Some(Run { plan, total, done, armed: None });
        Ok(())
    }

    /// Whether `after` and `r` are what beginning an operating-point analysis
    /// makes of `before`.
    pub open spec fn began_operating_point(
        before: Simulator,
        after: Simulator,
        r: Result<(), SimulationError>,
    ) -> bool {
        &&& (after.config() == before.config())
        &&& (after.solver() == before.solver())
        &&& (after.circuit() == before.circuit())
        &&& (match r {
                Ok(()) => {
                    &&& before.run() is None
                    &&& before.circuit() is Some
                    &&& before.system() is Some
                    &&& after.run() == Some(
                        Run { plan: Plan::Operating, total: 1, done: 0, armed: None },
                    )
                    &&& after.system() is Some
                    &&& after.results() is Some
                    &&& opened(
                        before.circuit()->0,
                        before.system()->0,
                        after.system()->0,
                        after.results()->0,
                        AnalysisType::Operating,
                        false,
                    )
                },
                Err(e) => {
                    &&& after.system() == before.system()
                    &&& after.results() == before.results()
                    &&& after.run() == before.run()
                    &&& match e {
                        SimulationError::AnalysisRunning => before.run() is Some,
                        SimulationError::NoCircuit => before.run() is None && (before.circuit()
                            is None || before.system() is None),
                        _ => false,
                    }
                }
            })
    }

    /// Whether `after` and `r` are what beginning a transient analysis makes
    /// of `before`.
    pub open spec fn began_transient(
        before: Simulator,
        after: Simulator,
        tstep: Decimal,
        tstop: Decimal,
        r: Result<(), SimulationError>,
    ) -> bool {
        &&& (after.config() == before.config())
        &&& (after.solver() == before.solver())
        &&& (after.circuit() == before.circuit())
        &&& (match r {
                Ok(()) => {
                    &&& tstep.positive()
                    &&& before.run() is None
                    &&& before.circuit() is Some
                    &&& before.system() is Some
                    &&& after.run() == Some(
                        Run {
                            plan: Plan::Transient { tstep },
                            total: transient_points(tstep, tstop) as usize,
                            done: 1,
                            armed: None,
                        },
                    )
                    &&& transient_points(tstep, tstop) <= usize::MAX
                    &&& after.system() is Some
                    &&& after.results() is Some
                    &&& opened(
                        before.circuit()->0,
                        before.system()->0,
                        after.system()->0,
                        after.results()->0,
                        AnalysisType::Transient { tstep, tstop },
                        true,
                    )
                },
                Err(e) => {
                    &&& after.system() == before.system()
                    &&& after.results() == before.results()
                    &&& after.run() == before.run()
                    &&& match e {
                        SimulationError::InvalidStep => !tstep.positive(),
                        SimulationError::OutOfRange => tstep.positive() && transient_points(
                            tstep,
                            tstop,
                        ) > usize::MAX,
                        SimulationError::AnalysisRunning => tstep.positive() && transient_points(
                            tstep,
                            tstop,
                        ) <= usize::MAX && before.run() is Some,
                        SimulationError::NoCircuit => tstep.positive() && transient_points(
                            tstep,
                            tstop,
                        ) <= usize::MAX && before.run() is None && (before.circuit() is None
                            || before.system() is None),
                        _ => false,
                    }
                }
            })
    }

    /// Whether `after` and `r` are what beginning a sweep makes of `before`.
    pub open spec fn began_sweep(
        before: Simulator,
        after: Simulator,
        source_name: Seq<char>,
        start: Decimal,
        stop: Decimal,
        step: Decimal,
        r: Result<(), SimulationError>,
    ) -> bool {
        &&& (after.config() == before.config())
        &&& (after.solver() == before.solver())
        &&& (after.circuit() == before.circuit())
        &&& (match r {
                Ok(()) => {
                    &&& step.mantissa != 0
                    &&& before.run() is None
                    &&& before.circuit() is Some
                    &&& before.system() is Some
                    &&& sweep_points(start, stop, step) <= usize::MAX
                    &&& after.run() is Some
                    &&& after.run()->0.total == sweep_points(start, stop, step)
                    &&& after.run()->0.done == 0
                    &&& after.run()->0.armed is None
                    &&& sweeps(
                        after.run()->0.plan,
                        before.circuit()->0,
                        source_name,
                        start,
                        step,
                    )
                    &&& after.system() is Some
                    &&& after.results() is Some
                    &&& after.results()->0.analysis_type is DcSweep
                    &&& after.results()->0.analysis_type->parameter@ == source_name
                    &&& after.results()->0.analysis_type->start == start
                    &&& after.results()->0.analysis_type->stop == stop
                    &&& after.results()->0.analysis_type->step == step
                    &&& opened(
                        before.circuit()->0,
                        before.system()->0,
                        after.system()->0,
                        after.results()->0,
                        after.results()->0.analysis_type,
                        false,
                    )
                },
                Err(e) => {
                    &&& after.system() == before.system()
                    &&& after.results() == before.results()
                    &&& after.run() == before.run()
                    &&& match e {
                        SimulationError::AnalysisRunning => before.run() is Some,
                        SimulationError::NoCircuit => before.run() is None && (before.circuit()
                            is None || (before.system() is None && !unnamed(
                            before.circuit()->0,
                            source_name,
                        ) && step.mantissa != 0)),
                        SimulationError::SourceNotFound => before.run() is None
                            && before.circuit() is Some
                            && unnamed(before.circuit()->0, source_name),
                        SimulationError::InvalidStep => before.run() is None
                            && before.circuit() is Some
                            && !unnamed(before.circuit()->0, source_name) && step.mantissa == 0,
                        SimulationError::OutOfRange => before.run() is None
                            && before.circuit() is Some
                            && !unnamed(before.circuit()->0, source_name) && step.mantissa != 0
                            && (difference_in_units(stop, start) > u64::MAX || difference_in_units(
                            stop,
                            start,
                        ) < -(u64::MAX as int) || sweep_points(start, stop, step) > usize::MAX),
                        _ => false,
                    }
                }
            })
    }

    /// Begins an operating-point analysis: one point, the circuit at rest.
    pub fn begin_operating_point(&mut self) -> (r: Result<(), SimulationError>)
        ensures
            Simulator::began_operating_point(*old(self), *final(self), r),
    {
        self.open_run(AnalysisType::Operating, Plan::Operating, 1)
    }

    /// Begins a transient analysis from rest: the points are the times
    /// `0, tstep, 2·tstep, …` up to `tstop`, and the point at time 0, where
    /// every voltage and current is zero, is recorded at once.
    pub fn begin_transient_analysis(&mut self, tstep: Decimal, tstop: Decimal) -> (r: Result<
        (),
        SimulationError,
    >)
        ensures
            Simulator::began_transient(*old(self), *final(self), tstep, tstop, r),
    {
        let total = match count_transient_points(tstep, tstop) {
            Ok(n) => n,
            Err(e) => {
                return Err(e);
            },
        };
        self.open_run(AnalysisType::Transient { tstep, tstop }, Plan::Transient { tstep }, total)
    }

    /// Begins a sweep of the element called `source_name` from `start` in
    /// steps of `step` as far as `stop` reaches.
    pub fn begin_dc_sweep(
        &mut self,
        source_name: &str,
        start: Decimal,
        stop: Decimal,
        step: Decimal,
    ) -> (r: Result<(), SimulationError>)
        ensures
            Simulator::began_sweep(*old(self), *final(self), source_name@, start, stop, step, r),
    {
        proof {
            use_type_invariant(&*self);
        }
        if self.run.is_some() {
            return Err(SimulationError::AnalysisRunning);
        }
        let (source, original) = match &self.circuit {
            None => {
                return Err(SimulationError::NoCircuit);
            },
            Some(circuit) => match circuit.find_component(source_name) {
                None => {
                    return Err(SimulationError::SourceNotFound);
                },
                Some(i) => (i, circuit.components[i].value),
            },
        };
        let total = match count_sweep_points(start, stop, step) {
            Ok(n) => n,
            Err(e) => {
                return Err(e);
            },
        };
        self.open_run(
            AnalysisType::DcSweep { parameter: source_name.to_owned(), start, stop, step },
            Plan::Sweep { source, start, step, original },
            total,
        )
    }

    /// Begins the analysis that a deck asks for. A small-signal analysis is
    /// refused: it is read but not implemented.
    pub fn begin(&mut self, analysis: &Analysis) -> (r: Result<(), SimulationError>)
        ensures
            match *analysis {
                Analysis::Operating => Simulator::began_operating_point(*old(self), *final(self), r),
                Analysis::Transient { tstep, tstop, .. } => Simulator::began_transient(
                    *old(self),
                    *final(self),
                    tstep,
                    tstop,
                    r,
                ),
                Analysis::DcSweep { source, start, stop, step } => Simulator::began_sweep(
                    *old(self),
                    *final(self),
                    source@,
                    start,
                    stop,
                    step,
                    r,
                ),
                Analysis::Ac { .. } => {
                    &&& r == Err::<(), SimulationError>(SimulationError::Unsupported)
                    &&& final(self).config() == old(self).config()
                    &&& final(self).solver() == old(self).solver()
                    &&& final(self).circuit() == old(self).circuit()
                    &&& final(self).system() == old(self).system()
                    &&& final(self).results() == old(self).results()
                    &&& final(self).run() == old(self).run()
                },
            },
    {
        match analysis {
            Analysis::Operating => self.begin_operating_point(),
            Analysis::Transient { tstep, tstop, tstart: _ } => self.begin_transient_analysis(
                *tstep,
                *tstop,
            ),
            Analysis::DcSweep { source, start, stop, step } => self.begin_dc_sweep(
                source.as_str(),
                *start,
                *stop,
                *step,
            ),
            Analysis::Ac { .. } => Err(SimulationError::Unsupported),
        }
    }

    /// The time or swept value of point `k` of a plan.
    fn value_of_point(plan: Plan, k: usize) -> (r: Option<Decimal>)
        ensures
            r == point_value(plan, k),
    {
        match plan {
            Plan::Operating => Some(Decimal::zero()),
            Plan::Transient { tstep } => tstep.times(k as u64),
            Plan::Sweep { source: _, start, step, original: _ } => match step.times(k as u64) {
                None => None,
                Some(p) => start.plus(&p),
            },
        }
    }

    /// Prepares the next point of the run: sets the swept element, where
    /// there is one, and assembles the system of the point. With no point
    /// left the run ends: a swept element gets its value back, and `None` is
    /// returned.
    pub fn next_step(&mut self) -> (r: Result<Option<StepPlan>, SimulationError>)
        ensures
            final(self).config() == old(self).config(),
            final(self).solver() == old(self).solver(),
            final(self).results() == old(self).results(),
            match r {
                Err(SimulationError::NoAnalysis) => old(self).run() is None && final(self).run()
                    is None && final(self).circuit() == old(self).circuit() && final(self).system()
                    == old(self).system(),
                Err(SimulationError::StepPending) => {
                    &&& old(self).run() is Some
                    &&& old(self).run()->0.armed is Some
                    &&& final(self).run() == old(self).run()
                    &&& final(self).circuit() == old(self).circuit()
                    &&& final(self).system() == old(self).system()
                },
                Err(SimulationError::OutOfRange) => {
                    &&& old(self).run() is Some
                    &&& old(self).run()->0.armed is None
                    &&& old(self).run()->0.done < old(self).run()->0.total
                    &&& point_value(old(self).run()->0.plan, old(self).run()->0.done) is None
                    &&& final(self).run() == old(self).run()
                    &&& final(self).circuit() == old(self).circuit()
                    &&& final(self).system() == old(self).system()
                },
                Err(SimulationError::Assembly(e)) => {
                    &&& old(self).run() is Some
                    &&& old(self).run()->0.armed is None
                    &&& old(self).run()->0.done < old(self).run()->0.total
                    &&& point_value(old(self).run()->0.plan, old(self).run()->0.done) is Some
                    &&& final(self).run() == old(self).run()
                    &&& old(self).circuit() is Some && final(self).circuit() is Some
                    &&& set_for(
                        old(self).circuit()->0,
                        final(self).circuit()->0,
                        old(self).run()->0.plan,
                        point_value(old(self).run()->0.plan, old(self).run()->0.done)->0,
                    )
                    &&& old(self).system() is Some && final(self).system() is Some
                    &&& old(self).system()->0.first_fault(&final(self).circuit()->0, Some(e))
                    &&& final(self).system()->0.same_layout(&old(self).system()->0)
                    &&& final(self).system()->0.unknowns == old(self).system()->0.unknowns
                    &&& final(self).system()->0.stamps@.len() == 0
                },
                Err(_) => false,
                Ok(None) => {
                    &&& old(self).run() is Some
                    &&& old(self).run()->0.armed is None
                    &&& old(self).run()->0.done == old(self).run()->0.total
                    &&& final(self).run() is None
                    &&& final(self).system() == old(self).system()
                    &&& old(self).circuit() is Some && final(self).circuit() is Some
                    &&& match old(self).run()->0.plan {
                        Plan::Sweep { source, original, .. } => revalued(
                            old(self).circuit()->0,
                            final(self).circuit()->0,
                            source,
                            original,
                        ),
                        _ => final(self).circuit() == old(self).circuit(),
                    }
                },
                Ok(Some(step)) => {
                    &&& old(self).run() is Some
                    &&& old(self).run()->0.armed is None
                    &&& old(self).run()->0.done < old(self).run()->0.total
                    &&& point_value(old(self).run()->0.plan, old(self).run()->0.done) == Some(
                        step.value,
                    )
                    &&& step.index == old(self).run()->0.done
                    &&& step.dt == (match old(self).run()->0.plan {
                        Plan::Transient { tstep } => Some(tstep),
                        _ => None,
                    })
                    &&& final(self).run() == Some(
                        Run { armed: Some(step.value), ..old(self).run()->0 },
                    )
                    &&& old(self).circuit() is Some && final(self).circuit() is Some
                    &&& set_for(
                        old(self).circuit()->0,
                        final(self).circuit()->0,
                        old(self).run()->0.plan,
                        step.value,
                    )
                    &&& old(self).system() is Some && final(self).system() is Some
                    &&& old(self).system()->0.first_fault(&final(self).circuit()->0, None)
                    &&& final(self).system()->0.wf()
                    &&& final(self).system()->0.same_layout(&old(self).system()->0)
                    &&& final(self).system()->0.unknowns == old(self).system()->0.unknowns
                    &&& final(self).system()->0.stamps@ == stamps_for(
                        old(self).system()->0,
                        final(self).circuit()->0,
                        old(self).run()->0.plan,
                    )
                },
            },
    {
        proof {
            use_type_invariant(&*self);
        }
        let mut run = match self.run {
            None => {
                return Err(SimulationError::NoAnalysis);
            },
            Some(run) => run,
        };
        if run.armed.is_some() {
            return Err(SimulationError::StepPending);
        }
        if run.done == run.total {
            self.run = None;
            if let Plan::Sweep { source, start: _, step: _, original } = run.plan {
                let mut circuit = take_out(&mut self.circuit).unwrap();
                circuit.set_component_value(source, original);
                self.circuit = Some(circuit);
            }
            return Ok(None);
        }
        let value = match Simulator::value_of_point(run.plan, run.done) {
            None => {
                return Err(SimulationError::OutOfRange);
            },
            Some(v) => v,
        };
        self.run = None;
        let mut circuit = take_out(&mut self.circuit).unwrap();
        let mut system = take_out(&mut self.mna_system).unwrap();
        if let Plan::Sweep { source, start: _, step: _, original: _ } = run.plan {
            circuit.set_component_value(source, value);
        }
        let assembled = match run.plan {
            Plan::Transient { tstep } => system.assemble_transient(&circuit, tstep),
            _ => system.assemble_dc(&circuit),
        };
        self.circuit = Some(circuit);
        self.mna_system = Some(system);
        match assembled {
            Err(e) => {
                self.run = Some(run);
                Err(SimulationError::Assembly(e))
            },
            Ok(()) => {
                run.armed = Some(value);
                self.run = Some(run);
                Ok(
                    Some(
                        StepPlan {
                            index: run.done,
                            value,
                            dt: match run.plan {
                                Plan::Transient { tstep } => Some(tstep),
                                _ => None,
                            },
                        },
                    ),
                )
            },
        }
    }

    /// Files the solution of the point that is prepared: the unknowns take
    /// the solution, and the results gain the point with the voltage of each
    /// node, the current through each voltage source and the solver's report.
    pub fn complete_step(&mut self, solution: &[Scalar], stats: SolverStats) -> (r: Result<
        (),
        SimulationError,
    >)
        ensures
            final(self).config() == old(self).config(),
            final(self).solver() == old(self).solver(),
            final(self).circuit() == old(self).circuit(),
            match r {
                Err(SimulationError::NoAnalysis) => old(self).run() is None && final(self).run()
                    is None && final(self).system() == old(self).system() && final(self).results()
                    == old(self).results(),
                Err(SimulationError::NoStepPending) => {
                    &&& old(self).run() is Some
                    &&& old(self).run()->0.armed is None
                    &&& final(self).run() == old(self).run()
                    &&& final(self).system() == old(self).system()
                    &&& final(self).results() == old(self).results()
                },
                Err(SimulationError::Solution(e)) => {
                    &&& old(self).run() is Some
                    &&& old(self).run()->0.armed is Some
                    &&& old(self).system() is Some
                    &&& solution@.len() != old(self).system()->0.size
                    &&& e == (SizeMismatch {
                        expected: old(self).system()->0.size,
                        found: solution@.len() as usize,
                    })
                    &&& final(self).run() == old(self).run()
                    &&& final(self).results() == old(self).results()
                    &&& final(self).system() is Some
                    &&& final(self).system()->0.same_layout(&old(self).system()->0)
                    &&& final(self).system()->0.stamps == old(self).system()->0.stamps
                    &&& final(self).system()->0.unknowns == old(self).system()->0.unknowns
                },
                Err(_) => false,
                Ok(()) => {
                    &&& old(self).run() is Some
                    &&& old(self).run()->0.armed is Some
                    &&& old(self).circuit() is Some
                    &&& old(self).system() is Some
                    &&& old(self).results() is Some
                    &&& solution@.len() == old(self).system()->0.size
                    &&& final(self).run() == Some(
                        Run {
                            done: (old(self).run()->0.done + 1) as usize,
                            armed: None,
                            ..old(self).run()->0
                        },
                    )
                    &&& final(self).system() is Some
                    &&& final(self).system()->0.same_layout(&old(self).system()->0)
                    &&& final(self).system()->0.stamps == old(self).system()->0.stamps
                    &&& final(self).system()->0.unknowns@ == solution@
                    &&& final(self).results() is Some
                    &&& final(self).results()->0.wf()
                    &&& exists|info: ConvergenceInfo|
                        reports(info, old(self).run()->0.done, stats) && final(self).results()->0.extends(
                            &old(self).results()->0,
                            old(self).run()->0.armed->0,
                            final(self).system()->0.decoded_voltages(&old(self).circuit()->0),
                            final(self).system()->0.decoded_currents(),
                            Some(info),
                            stats.success,
                        )
                },
            },
    {
        proof {
            use_type_invariant(&*self);
        }
        let mut run = match self.run {
            None => {
                return Err(SimulationError::NoAnalysis);
            },
            Some(run) => run,
        };
        let value = match run.armed {
            None => {
                return Err(SimulationError::NoStepPending);
            },
            Some(v) => v,
        };
        self.run = None;
        let mut system = take_out(&mut self.mna_system).unwrap();
        match system.update_solution(solution) {
            Err(e) => {
                self.mna_system = Some(system);
                self.run = Some(run);
                return Err(SimulationError::Solution(e));
            },
            Ok(()) => {},
        }
        let mut results = take_out(&mut self.results).unwrap();
        let ghost before = results;
        let (voltages, currents) = match &self.circuit {
            Some(circuit) => (system.node_voltages_of(circuit), system.source_currents()),
            None => (Vec::new(), Vec::new()),
        };
        let info = ConvergenceInfo {
            iteration: run.done,
            residual_norm: stats.residual_norm,
            solve_time: stats.solve_time,
            solver_method: stats.method_used.name(),
        };
        results.record(value, &voltages, &currents, Some(info), stats.success);
        assert(reports(info, run.done, stats) && results.extends(
            &before,
            value,
            system.decoded_voltages(&self.circuit->0),
            system.decoded_currents(),
            Some(info),
            stats.success,
        ));
        run.done = run.done + 1;
        run.armed = None;
        self.mna_system = Some(system);
        self.results = Some(results);
        self.run = Some(run);
        Ok(())
    }

    /// Gives up the run that is under way. A swept element gets its value
    /// back; the results stay as far as they have come.
    pub fn abort(&mut self)
        ensures
            final(self).config() == old(self).config(),
            final(self).solver() == old(self).solver(),
            final(self).results() == old(self).results(),
            final(self).system() == old(self).system(),
            final(self).run() is None,
            match old(self).run() {
                Some(Run { plan: Plan::Sweep { source, original, .. }, .. }) => old(self).circuit()
                    is Some && final(self).circuit() is Some && revalued(
                    old(self).circuit()->0,
                    final(self).circuit()->0,
                    source,
                    original,
                ),
                _ => final(self).circuit() == old(self).circuit(),
            },
    {
        proof {
            use_type_invariant(&*self);
        }
        let run = self.run;
        self.run = None;
        if let Some(
            Run { plan: Plan::Sweep { source, start: _, step: _, original }, total: _, done: _, armed: _ },
        ) = run {
            let mut circuit = take_out(&mut self.circuit).unwrap();
            circuit.set_component_value(source, original);
            self.circuit = Some(circuit);
        }
    }

    /// Notes the time that the analysis took, in seconds.
    pub fn set_total_time(&mut self, seconds: Scalar)
        ensures
            final(self).config() == old(self).config(),
            final(self).solver() == old(self).solver(),
            final(self).circuit() == old(self).circuit(),
            final(self).system() == old(self).system(),
            final(self).run() == old(self).run(),
            match old(self).results() {
                None => final(self).results() is None,
                Some(before) => final(self).results() is Some && final(self).results()->0 == (
                SimulationResult { total_time: seconds, ..before }),
            },
    {
        proof {
            use_type_invariant(&*self);
        }
        let run = self.run;
        self.run = None;
        match take_out(&mut self.results) {
            None => {},
            Some(mut results) => {
                results.total_time = seconds;
                self.results = Some(results);
            },
        }
        self.run = run;
    }
}

impl Default for Simulator {
    fn default() -> (r: Simulator)
        ensures
            r.circuit() is None,
            r.system() is None,
            r.results() is None,
            r.run() is None,
            r.config() == SimulatorConfig::standard(),
            r.solver().config == SolverConfig::standard(),
    {
        Simulator::new()
    }
}

} // verus!

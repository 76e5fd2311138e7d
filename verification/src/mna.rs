//! Modified nodal analysis: the layout of the unknowns and the stamps that
//! the elements of a circuit leave on the linear system `A·x = z`.
//!
//! The system is kept in symbolic form, as the ordered list of its stamps.
//! Each stamp names the place it touches and, exactly, the amount it
//! contributes; turning the list into numbers is left to the numerical side.
//! A matrix and a right-hand side of zeros, with the stamps applied in order,
//! are the system.
use vstd::prelude::*;
use crate::circuit::{Circuit, Component, ComponentType, Ratio};
use crate::decimal::Decimal;
use crate::scalar::{zeros, Scalar};
use crate::text::{find_name, position, spelled};

verus! {

/// One contribution to the system.
#[derive(Clone, Copy, Debug, PartialEq, Eq)]
pub enum Stamp {
    /// `A[row, col] += ±amount`.
    MatrixAdd { row: usize, col: usize, negative: bool, amount: Ratio },
    /// `A[row, col] = ±1`.
    MatrixSet { row: usize, col: usize, negative: bool },
    /// `z[row] += ±value`.
    RhsAdd { row: usize, negative: bool, value: Decimal },
    /// `z[row] = value`.
    RhsSet { row: usize, value: Decimal },
    /// `z[row] += ±gain · (x⁻[plus] − x⁻[minus])`, where `x⁻` is the solution
    /// of the previous time step. An absent index, or one that the previous
    /// solution does not reach, reads as zero.
    RhsHistory { row: usize, negative: bool, gain: Ratio, plus: Option<usize>, minus: Option<usize> },
}

impl Stamp {
    /// Whether every index of the stamp lies inside a system of `size` unknowns.
    pub open spec fn within(self, size: usize) -> bool {
        match self {
            Stamp::MatrixAdd { row, col, .. } => row < size && col < size,
            Stamp::MatrixSet { row, col, .. } => row < size && col < size,
            Stamp::RhsAdd { row, .. } => row < size,
            Stamp::RhsSet { row, .. } => row < size,
            Stamp::RhsHistory { row, plus, minus, .. } => {
                &&& row < size
                &&& (plus matches Some(p) ==> p < size)
                &&& (minus matches Some(m) ==> m < size)
            },
        }
    }
}

/// Why a system cannot be laid out for a circuit.
#[derive(Clone, Copy, Debug, PartialEq, Eq, Structural)]
pub enum LayoutError {
    /// The circuit has neither a node besides the ground nor a branch current.
    Empty,
    /// The number of unknowns does not fit into a machine word.
    TooLarge,
}

/// What keeps an element from being stamped.
#[derive(Clone, Copy, Debug, PartialEq, Eq, Structural)]
pub enum AssemblyFault {
    /// The element names fewer than two nodes.
    MissingTerminal,
    /// One of its first two nodes is not a node of the circuit.
    NodeNotFound,
    /// It is a resistor whose resistance is not above zero.
    InvalidResistance,
    /// It is a voltage source or an inductor for which the system holds no
    /// branch current.
    SourceNotMapped,
}

/// The first element that cannot be stamped, with the reason.
#[derive(Clone, Copy, Debug, PartialEq, Eq, Structural)]
pub struct AssemblyError {
    pub component: usize,
    pub fault: AssemblyFault,
}

/// A solution of the wrong length was handed in.
#[derive(Clone, Copy, Debug, PartialEq, Eq, Structural)]
pub struct SizeMismatch {
    pub expected: usize,
    pub found: usize,
}

/// No branch current is kept under the name that was asked for.
#[derive(Clone, Copy, Debug, PartialEq, Eq, Structural)]
pub struct SourceNotFound {}

/// The groups in which the elements are stamped, in this order. The last two
/// belong to a time step of length `dt` only.
#[derive(Clone, Copy, Debug, PartialEq, Eq, Structural)]
pub enum Pass {
    /// Resistors as conductances, inductors as branches held at 0 V.
    Passive,
    /// Current sources.
    Current,
    /// Voltage sources.
    Voltage,
    /// The backward-Euler companion of each capacitor.
    CapacitorStep { dt: Decimal },
    /// The backward-Euler companion of each inductor.
    InductorStep { dt: Decimal },
}

/// The row of node `i` among the unknowns, where `ground` is the ground: the
/// nodes other than the ground are numbered in order.
pub open spec fn node_row(ground: Option<usize>, i: int) -> Option<usize> {
    match ground {
        Some(g) => if i == g {
            None
        } else if i < g {
            Some(i as usize)
        } else {
            Some((i - 1) as usize)
        },
        None => Some(i as usize),
    }
}

/// The names of the voltage sources (or, with `inductors`, of the inductors)
/// among the first `n` elements, in order.
pub open spec fn branch_names(components: Seq<Component>, inductors: bool, n: nat) -> Seq<String>
    decreases n,
{
    if n == 0 {
        Seq::empty()
    } else {
        let rest = branch_names(components, inductors, (n - 1) as nat);
        let c = components[n - 1];
        if (inductors && c.component_type is Inductor) || (!inductors
            && c.component_type is VoltageSource) {
            rest.push(c.name)
        } else {
            rest
        }
    }
}

/// The stamps of a conductance `g` between the rows `i` and `j`.
pub open spec fn conductance_stamps(i: Option<usize>, j: Option<usize>, g: Ratio) -> Seq<Stamp> {
    (match i {
        Some(a) => seq![Stamp::MatrixAdd { row: a, col: a, negative: false, amount: g }],
        None => Seq::empty(),
    }) + (match j {
        Some(b) => seq![Stamp::MatrixAdd { row: b, col: b, negative: false, amount: g }],
        None => Seq::empty(),
    }) + (match (i, j) {
        (Some(a), Some(b)) => seq![
            Stamp::MatrixAdd { row: a, col: b, negative: true, amount: g },
            Stamp::MatrixAdd { row: b, col: a, negative: true, amount: g },
        ],
        _ => Seq::empty(),
    })
}

/// The stamps of a current `amount` that enters row `i` and leaves row `j`.
pub open spec fn injection_stamps(i: Option<usize>, j: Option<usize>, amount: Decimal) -> Seq<
    Stamp,
> {
    (match i {
        Some(a) => seq![Stamp::RhsAdd { row: a, negative: false, value: amount }],
        None => Seq::empty(),
    }) + (match j {
        Some(b) => seq![Stamp::RhsAdd { row: b, negative: true, value: amount }],
        None => Seq::empty(),
    })
}

/// The stamps of a branch with current unknown `b` that holds row `i` at
/// `amount` above row `j`.
pub open spec fn branch_stamps(b: usize, i: Option<usize>, j: Option<usize>, amount: Decimal) -> Seq<
    Stamp,
> {
    (match i {
        Some(a) => seq![
            Stamp::MatrixSet { row: b, col: a, negative: false },
            Stamp::MatrixSet { row: a, col: b, negative: false },
        ],
        None => Seq::empty(),
    }) + (match j {
        Some(c) => seq![
            Stamp::MatrixSet { row: b, col: c, negative: true },
            Stamp::MatrixSet { row: c, col: b, negative: true },
        ],
        None => Seq::empty(),
    }) + seq![Stamp::RhsSet { row: b, value: amount }]
}

/// The stamps by which a capacitor remembers the voltage that lay across it
/// one step ago: a current `gain · (x⁻[i] − x⁻[j])` from row `j` into row `i`.
pub open spec fn memory_stamps(i: Option<usize>, j: Option<usize>, gain: Ratio) -> Seq<Stamp> {
    (match i {
        Some(a) => seq![Stamp::RhsHistory { row: a, negative: false, gain, plus: i, minus: j }],
        None => Seq::empty(),
    }) + (match j {
        Some(b) => seq![Stamp::RhsHistory { row: b, negative: true, gain, plus: i, minus: j }],
        None => Seq::empty(),
    })
}

/// The stamps that turn the branch `b` of an inductor, held at 0 V, into its
/// backward-Euler companion `v = (L/dt)·(i − i⁻)`.
pub open spec fn inertia_stamps(b: usize, gain: Ratio) -> Seq<Stamp> {
    seq![
        Stamp::MatrixAdd { row: b, col: b, negative: true, amount: gain },
        Stamp::RhsHistory { row: b, negative: true, gain, plus: Some(b), minus: None },
    ]
}

/// The linear system of a circuit.
#[derive(Debug, Clone)]
pub struct MnaSystem {
    /// The system `A·x = z` as the list of its stamps.
    pub stamps: Vec<Stamp>,
    /// The unknowns `x`: node voltages, then branch currents.
    pub unknowns: Vec<Scalar>,
    /// For each node number its row, none for the ground.
    pub node_map: Vec<Option<usize>>,
    /// The names of the branches, voltage sources before inductors; branch
    /// `k` has the row `num_nodes + k`.
    pub branches: Vec<String>,
    /// The number of unknowns.
    pub size: usize,
    /// The number of nodes other than the ground.
    pub num_nodes: usize,
    /// The number of voltage sources.
    pub num_voltage_sources: usize,
    /// The number of inductors.
    pub num_inductors: usize,
}

impl MnaSystem {
    /// What holds of every system that this library has built.
    pub open spec fn wf(&self) -> bool {
        &&& self.size == self.num_nodes + self.num_voltage_sources + self.num_inductors
        &&& self.branches@.len() == self.num_voltage_sources + self.num_inductors
        &&& self.unknowns@.len() == self.size
        &&& forall|i: int|
            0 <= i < self.node_map@.len() ==> (#[trigger] self.node_map@[i] matches Some(r) ==> r
                < self.num_nodes)
        &&& forall|k: int| 0 <= k < self.stamps@.len() ==> (#[trigger] self.stamps@[k]).within(self.size)
    }

    /// Whether the two systems have the same unknowns in the same places.
    pub open spec fn same_layout(&self, other: &MnaSystem) -> bool {
        &&& self.node_map == other.node_map
        &&& self.branches == other.branches
        &&& self.size == other.size
        &&& self.num_nodes == other.num_nodes
        &&& self.num_voltage_sources == other.num_voltage_sources
        &&& self.num_inductors == other.num_inductors
    }

    /// Whether this is the layout of `circuit`: one row for each node but the
    /// ground, then one for each voltage source, then one for each inductor.
    pub open spec fn lays_out(&self, circuit: &Circuit) -> bool {
        &&& self.num_nodes == circuit.nodes@.len() - (if circuit.ground_node is Some {
            1int
        } else {
            0int
        })
        &&& self.node_map@ == Seq::new(
            circuit.nodes@.len(),
            |i: int| node_row(circuit.ground_node, i),
        )
        &&& self.branches@ == branch_names(
            circuit.components@,
            false,
            circuit.components@.len(),
        ) + branch_names(circuit.components@, true, circuit.components@.len())
        &&& self.num_voltage_sources == branch_names(
            circuit.components@,
            false,
            circuit.components@.len(),
        ).len()
        &&& self.num_inductors == branch_names(
            circuit.components@,
            true,
            circuit.components@.len(),
        ).len()
    }

    /// The row of the node with number `id`; none for the ground and for a
    /// number that the layout does not know.
    pub open spec fn row(&self, id: int) -> Option<usize> {
        if 0 <= id < self.node_map@.len() {
            self.node_map@[id]
        } else {
            None
        }
    }

    /// The row of the node that `circuit` knows as `name`.
    pub open spec fn terminal_row(&self, circuit: &Circuit, name: Seq<char>) -> Option<usize> {
        match position(crate::circuit::node_names(circuit.nodes@), name) {
            Some(id) => self.row(id),
            None => None,
        }
    }

    /// The row of the current through the branch called `name`.
    pub open spec fn branch_row(&self, name: Seq<char>) -> Option<usize> {
        match position(spelled(self.branches@), name) {
            Some(k) => Some((self.num_nodes + k) as usize),
            None => None,
        }
    }

    /// What keeps the element from being stamped, if anything. Only the linear
    /// kinds are stamped, so no other kind has a fault.
    pub open spec fn fault(&self, circuit: &Circuit, c: Component) -> Option<AssemblyFault> {
        if !c.component_type.linear() {
            None
        } else if c.nodes@.len() < 2 {
            Some(AssemblyFault::MissingTerminal)
        } else if position(crate::circuit::node_names(circuit.nodes@), c.nodes@[0]@) is None
            || position(crate::circuit::node_names(circuit.nodes@), c.nodes@[1]@) is None {
            Some(AssemblyFault::NodeNotFound)
        } else if c.component_type is Resistor && !c.value.positive() {
            Some(AssemblyFault::InvalidResistance)
        } else if (c.component_type is VoltageSource || c.component_type is Inductor)
            && self.branch_row(c.name@) is None {
            Some(AssemblyFault::SourceNotMapped)
        } else {
            None
        }
    }

    /// The stamps that the element leaves in the given pass.
    pub open spec fn element_stamps(&self, circuit: &Circuit, c: Component, pass: Pass) -> Seq<
        Stamp,
    > {
        if c.nodes@.len() < 2 {
            Seq::empty()
        } else {
            let i = self.terminal_row(circuit, c.nodes@[0]@);
            let j = self.terminal_row(circuit, c.nodes@[1]@);
            let one = Decimal { negative: false, mantissa: 1, exponent: 0 };
            let zero = Decimal { negative: false, mantissa: 0, exponent: 0 };
            match (pass, c.component_type, self.branch_row(c.name@)) {
                (Pass::Passive, ComponentType::Resistor, _) => conductance_stamps(
                    i,
                    j,
                    Ratio { numerator: one, denominator: c.value },
                ),
                (Pass::Passive, ComponentType::Inductor, Some(b)) => branch_stamps(b, i, j, zero),
                (Pass::Current, ComponentType::CurrentSource, _) => injection_stamps(i, j, c.value),
                (Pass::Voltage, ComponentType::VoltageSource, Some(b)) => branch_stamps(
                    b,
                    i,
                    j,
                    c.value,
                ),
                (Pass::CapacitorStep { dt }, ComponentType::Capacitor, _) => conductance_stamps(
                    i,
                    j,
                    Ratio { numerator: c.value, denominator: dt },
                ) + memory_stamps(i, j, Ratio { numerator: c.value, denominator: dt }),
                (Pass::InductorStep { dt }, ComponentType::Inductor, Some(b)) => inertia_stamps(
                    b,
                    Ratio { numerator: c.value, denominator: dt },
                ),
                _ => Seq::empty(),
            }
        }
    }

    /// The stamps that the first `n` elements leave in the given pass.
    pub open spec fn pass_stamps(&self, circuit: &Circuit, pass: Pass, n: nat) -> Seq<Stamp>
        decreases n,
    {
        if n == 0 {
            Seq::empty()
        } else {
            self.pass_stamps(circuit, pass, (n - 1) as nat) + self.element_stamps(
                circuit,
                circuit.components@[n - 1],
                pass,
            )
        }
    }

    /// The system of the circuit at rest: capacitors open, inductors shorted
    /// through their branch.
    pub open spec fn dc_stamps(&self, circuit: &Circuit) -> Seq<Stamp> {
        let n = circuit.components@.len();
        self.pass_stamps(circuit, Pass::Passive, n) + self.pass_stamps(circuit, Pass::Current, n)
            + self.pass_stamps(circuit, Pass::Voltage, n)
    }

    /// The system of one backward-Euler step of length `dt`: the system at
    /// rest, then the companions of the capacitors, then those of the inductors.
    pub open spec fn transient_stamps(&self, circuit: &Circuit, dt: Decimal) -> Seq<Stamp> {
        let n = circuit.components@.len();
        self.dc_stamps(circuit) + self.pass_stamps(circuit, Pass::CapacitorStep { dt }, n)
            + self.pass_stamps(circuit, Pass::InductorStep { dt }, n)
    }

    /// Whether `r` names the first element of the circuit that cannot be
    /// stamped, or, with `None`, whether every element can.
    pub open spec fn first_fault(&self, circuit: &Circuit, r: Option<AssemblyError>) -> bool {
        match r {
            Some(e) => {
                &&& e.component < circuit.components@.len()
                &&& self.fault(circuit, circuit.components@[e.component as int]) == Some(e.fault)
                &&& forall|k: int|
                    0 <= k < e.component ==> self.fault(circuit, #[trigger] circuit.components@[k])
                        is None
            },
            None => forall|k: int|
                0 <= k < circuit.components@.len() ==> self.fault(
                    circuit,
                    #[trigger] circuit.components@[k],
                ) is None,
        }
    }
}

/// Appends the stamps of a conductance.
fn push_conductance(out: &mut Vec<Stamp>, i: Option<usize>, j: Option<usize>, g: Ratio)
    ensures
        final(out)@ == old(out)@ + conductance_stamps(i, j, g),
{
    if let Some(a) = i {
        out.push(Stamp::MatrixAdd { row: a, col: a, negative: false, amount: g });
    }
    if let Some(b) = j {
        out.push(Stamp::MatrixAdd { row: b, col: b, negative: false, amount: g });
    }
    if let Some(a) = i {
        if let Some(b) = j {
            out.push(Stamp::MatrixAdd { row: a, col: b, negative: true, amount: g });
            out.push(Stamp::MatrixAdd { row: b, col: a, negative: true, amount: g });
        }
    }
    assert(out@ =~= old(out)@ + conductance_stamps(i, j, g));
}

/// Appends the stamps of an injected current.
fn push_injection(out: &mut Vec<Stamp>, i: Option<usize>, j: Option<usize>, amount: Decimal)
    ensures
        final(out)@ == old(out)@ + injection_stamps(i, j, amount),
{
    if let Some(a) = i {
        out.push(Stamp::RhsAdd { row: a, negative: false, value: amount });
    }
    if let Some(b) = j {
        out.push(Stamp::RhsAdd { row: b, negative: true, value: amount });
    }
    assert(out@ =~= old(out)@ + injection_stamps(i, j, amount));
}

/// Appends the stamps of a branch.
fn push_branch(out: &mut Vec<Stamp>, b: usize, i: Option<usize>, j: Option<usize>, amount: Decimal)
    ensures
        final(out)@ == old(out)@ + branch_stamps(b, i, j, amount),
{
    if let Some(a) = i {
        out.push(Stamp::MatrixSet { row: b, col: a, negative: false });
        out.push(Stamp::MatrixSet { row: a, col: b, negative: false });
    }
    if let Some(c) = j {
        out.push(Stamp::MatrixSet { row: b, col: c, negative: true });
        out.push(Stamp::MatrixSet { row: c, col: b, negative: true });
    }
    out.push(Stamp::RhsSet { row: b, value: amount });
    assert(out@ =~= old(out)@ + branch_stamps(b, i, j, amount));
}

/// Appends the stamps of a capacitor's memory.
fn push_memory(out: &mut Vec<Stamp>, i: Option<usize>, j: Option<usize>, gain: Ratio)
    ensures
        final(out)@ == old(out)@ + memory_stamps(i, j, gain),
{
    if let Some(a) = i {
        out.push(Stamp::RhsHistory { row: a, negative: false, gain, plus: i, minus: j });
    }
    if let Some(b) = j {
        out.push(Stamp::RhsHistory { row: b, negative: true, gain, plus: i, minus: j });
    }
    assert(out@ =~= old(out)@ + memory_stamps(i, j, gain));
}

/// Appends the stamps of an inductor's inertia.
fn push_inertia(out: &mut Vec<Stamp>, b: usize, gain: Ratio)
    ensures
        final(out)@ == old(out)@ + inertia_stamps(b, gain),
{
    out.push(Stamp::MatrixAdd { row: b, col: b, negative: true, amount: gain });
    out.push(Stamp::RhsHistory { row: b, negative: true, gain, plus: Some(b), minus: None });
    assert(out@ =~= old(out)@ + inertia_stamps(b, gain));
}

/// Whether every stamp of the list lies inside a system of `size` unknowns.
pub open spec fn all_within(stamps: Seq<Stamp>, size: usize) -> bool {
    forall|k: int| 0 <= k < stamps.len() ==> (#[trigger] stamps[k]).within(size)
}

impl MnaSystem {
    /// The stamps of an element lie inside the system.
    pub proof fn lemma_element_within(&self, circuit: &Circuit, c: Component, pass: Pass)
        requires
            self.wf(),
        ensures
            all_within(self.element_stamps(circuit, c, pass), self.size),
    {
    }

    fn row_of(&self, id: usize) -> (r: Option<usize>)
        ensures
            r == self.row(id as int),
    {
        if id < self.node_map.len() {
            self.node_map[id]
        } else {
            None
        }
    }

    fn resolve(&self, circuit: &Circuit, name: &String) -> (r: Option<usize>)
        ensures
            r == self.terminal_row(circuit, name@),
    {
        match circuit.get_node_id(name.as_str()) {
            Some(id) => self.row_of(id),
            None => None,
        }
    }

    fn branch_of(&self, name: &String) -> (r: Option<usize>)
        requires
            self.wf(),
        ensures
            r == self.branch_row(name@),
    {
        match find_name(&self.branches, name.as_str()) {
            Some(k) => Some(self.num_nodes + k),
            None => None,
        }
    }

    /// Appends the stamps that the element leaves in the given pass.
    fn add_element(&self, circuit: &Circuit, c: &Component, pass: Pass, out: &mut Vec<Stamp>)
        requires
            self.wf(),
        ensures
            final(out)@ == old(out)@ + self.element_stamps(circuit, *c, pass),
    {
        if c.nodes.len() < 2 {
            assert(out@ =~= old(out)@ + self.element_stamps(circuit, *c, pass));
            return ;
        }
        let i = self.resolve(circuit, &c.nodes[0]);
        let j = self.resolve(circuit, &c.nodes[1]);
        match (pass, &c.component_type) {
            (Pass::Passive, ComponentType::Resistor) => {
                push_conductance(
                    out,
                    i,
                    j,
                    Ratio { numerator: Decimal::from_integer(1), denominator: c.value },
                );
            },
            (Pass::Passive, ComponentType::Inductor) => {
                if let Some(b) = self.branch_of(&c.name) {
                    push_branch(out, b, i, j, Decimal::zero());
                }
            },
            (Pass::Current, ComponentType::CurrentSource) => {
                push_injection(out, i, j, c.value);
            },
            (Pass::Voltage, ComponentType::VoltageSource) => {
                if let Some(b) = self.branch_of(&c.name) {
                    push_branch(out, b, i, j, c.value);
                }
            },
            (Pass::CapacitorStep { dt }, ComponentType::Capacitor) => {
                let gain = Ratio { numerator: c.value, denominator: dt };
                push_conductance(out, i, j, gain);
                push_memory(out, i, j, gain);
                assert(out@ =~= old(out)@ + (conductance_stamps(i, j, gain) + memory_stamps(
                    i,
                    j,
                    gain,
                )));
            },
            (Pass::InductorStep { dt }, ComponentType::Inductor) => {
                if let Some(b) = self.branch_of(&c.name) {
                    push_inertia(out, b, Ratio { numerator: c.value, denominator: dt });
                }
            },
            _ => {},
        }
        assert(out@ =~= old(out)@ + self.element_stamps(circuit, *c, pass));
    }

    /// Appends the stamps that the circuit leaves in the given pass.
    fn add_pass(&self, circuit: &Circuit, pass: Pass, out: &mut Vec<Stamp>)
        requires
            self.wf(),
        ensures
            final(out)@ == old(out)@ + self.pass_stamps(circuit, pass, circuit.components@.len()),
    {
        let mut k: usize = 0;
        assert(out@ =~= old(out)@ + self.pass_stamps(circuit, pass, 0));
        while k < circuit.components.len()
            invariant
                k <= circuit.components@.len(),
                self.wf(),
                out@ == old(out)@ + self.pass_stamps(circuit, pass, k as nat),
            decreases circuit.components@.len() - k,
        {
            self.add_element(circuit, &circuit.components[k], pass, out);
            k += 1;
            assert(out@ =~= old(out)@ + self.pass_stamps(circuit, pass, k as nat));
        }
    }

    /// The first element of the circuit that cannot be stamped.
    pub fn check(&self, circuit: &Circuit) -> (r: Option<AssemblyError>)
        requires
            self.wf(),
        ensures
            self.first_fault(circuit, r),
    {
        let mut k: usize = 0;
        while k < circuit.components.len()
            invariant
                k <= circuit.components@.len(),
                self.wf(),
                forall|m: int| 0 <= m < k ==> self.fault(circuit, #[trigger] circuit.components@[m])
                    is None,
            decreases circuit.components@.len() - k,
        {
            let c = &circuit.components[k];
            if c.component_type.is_linear() {
                if c.nodes.len() < 2 {
                    return Some(
                        AssemblyError { component: k, fault: AssemblyFault::MissingTerminal },
                    );
                }
                if circuit.get_node_id(c.nodes[0].as_str()).is_none() || circuit.get_node_id(
                    c.nodes[1].as_str(),
                ).is_none() {
                    return Some(AssemblyError { component: k, fault: AssemblyFault::NodeNotFound });
                }
                let resistor = match c.component_type {
                    ComponentType::Resistor => true,
                    _ => false,
                };
                if resistor && !c.value.is_positive() {
                    return Some(
                        AssemblyError { component: k, fault: AssemblyFault::InvalidResistance },
                    );
                }
                if c.component_type.tracks_current() && self.branch_of(&c.name).is_none() {
                    return Some(
                        AssemblyError { component: k, fault: AssemblyFault::SourceNotMapped },
                    );
                }
            }
            k += 1;
        }
        None
    }

    /// Lays out the system of a circuit: a row for each node but the ground,
    /// in the order of the nodes, then a row for the current through each
    /// voltage source, then one for the current through each inductor. The
    /// unknowns start at zero and no stamp is set.
    pub fn new(circuit: &Circuit) -> (r: Result<MnaSystem, LayoutError>)
        requires
            circuit.wf(),
        ensures
            match r {
                Ok(system) => {
                    &&& system.wf()
                    &&& system.lays_out(circuit)
                    &&& system.size > 0
                    &&& system.stamps@.len() == 0
                    &&& system.unknowns@ == Seq::new(system.size as nat, |i: int| Scalar::zero())
                },
                Err(LayoutError::Empty) => unknown_count(circuit) == 0,
                Err(LayoutError::TooLarge) => unknown_count(circuit) > usize::MAX,
            },
    {
        let num_nodes = circuit.node_count();
        let mut node_map: Vec<Option<usize>> = Vec::new();
        let mut i: usize = 0;
        while i < circuit.nodes.len()
            invariant
                i <= circuit.nodes@.len(),
                circuit.wf(),
                node_map@ == Seq::new(i as nat, |k: int| node_row(circuit.ground_node, k)),
            decreases circuit.nodes@.len() - i,
        {
            let row = match circuit.ground_node {
                Some(g) => if i == g {
                    None
                } else if i < g {
                    Some(i)
                } else {
                    Some(i - 1)
                },
                None => Some(i),
            };
            node_map.push(row);
            i += 1;
            assert(node_map@ =~= Seq::new(i as nat, |k: int| node_row(circuit.ground_node, k)));
        }
        let mut branches: Vec<String> = Vec::new();
        let mut k: usize = 0;
        while k < circuit.components.len()
            invariant
                k <= circuit.components@.len(),
                branches@ == branch_names(circuit.components@, false, k as nat),
            decreases circuit.components@.len() - k,
        {
            if let ComponentType::VoltageSource = circuit.components[k].component_type {
                branches.push(circuit.components[k].name.clone());
            }
            k += 1;
        }
        let num_voltage_sources = branches.len();
        let ghost sources = branches@;
        k = 0;
        while k < circuit.components.len()
            invariant
                k <= circuit.components@.len(),
                branches@ == sources + branch_names(circuit.components@, true, k as nat),
            decreases circuit.components@.len() - k,
        {
            if let ComponentType::Inductor = circuit.components[k].component_type {
                branches.push(circuit.components[k].name.clone());
            }
            k += 1;
            assert(branches@ =~= sources + branch_names(circuit.components@, true, k as nat));
        }
        let num_inductors = branches.len() - num_voltage_sources;
        let size = match num_nodes.checked_add(branches.len()) {
            Some(n) => n,
            None => {
                return Err(LayoutError::TooLarge);
            },
        };
        if size == 0 {
            return Err(LayoutError::Empty);
        }
        Ok(
            MnaSystem {
                stamps: Vec::new(),
                unknowns: zeros(size),
                node_map,
                branches,
                size,
                num_nodes,
                num_voltage_sources,
                num_inductors,
            },
        )
    }

    /// Rebuilds the system of the circuit at rest. Nothing of an earlier
    /// assembly is kept. Where an element cannot be stamped, the first such
    /// element is reported and the system is left without stamps.
    pub fn assemble_dc(&mut self, circuit: &Circuit) -> (r: Result<(), AssemblyError>)
        requires
            old(self).wf(),
        ensures
            final(self).wf(),
            final(self).same_layout(old(self)),
            final(self).unknowns == old(self).unknowns,
            match r {
                Ok(()) => old(self).first_fault(circuit, None) && final(self).stamps@ == old(
                    self,
                ).dc_stamps(circuit),
                Err(e) => old(self).first_fault(circuit, Some(e)) && final(self).stamps@.len() == 0,
            },
    {
        let mut out: Vec<Stamp> = Vec::new();
        let verdict = self.check(circuit);
        if let Some(e) = verdict {
            self.stamps = out;
            return Err(e);
        }
        self.add_pass(circuit, Pass::Passive, &mut out);
        self.add_pass(circuit, Pass::Current, &mut out);
        self.add_pass(circuit, Pass::Voltage, &mut out);
        proof {
            let n = circuit.components@.len();
            assert(out@ =~= self.dc_stamps(circuit));
            self.lemma_pass_within(circuit, Pass::Passive, n);
            self.lemma_pass_within(circuit, Pass::Current, n);
            self.lemma_pass_within(circuit, Pass::Voltage, n);
        }
        self.stamps = out;
        Ok(())
    }

    /// Rebuilds the system of one backward-Euler step of length `dt`: the
    /// system at rest, to which each capacitor adds the conductance `C/dt`
    /// and the current `(C/dt)·(v⁻ᵢ − v⁻ⱼ)`, and each inductor turns the
    /// equation of its branch into `vᵢ − vⱼ − (L/dt)·i = −(L/dt)·i⁻`.
    pub fn assemble_transient(&mut self, circuit: &Circuit, dt: Decimal) -> (r: Result<
        (),
        AssemblyError,
    >)
        requires
            old(self).wf(),
        ensures
            final(self).wf(),
            final(self).same_layout(old(self)),
            final(self).unknowns == old(self).unknowns,
            match r {
                Ok(()) => old(self).first_fault(circuit, None) && final(self).stamps@ == old(
                    self,
                ).transient_stamps(circuit, dt),
                Err(e) => old(self).first_fault(circuit, Some(e)) && final(self).stamps@.len() == 0,
            },
    {
        let mut out: Vec<Stamp> = Vec::new();
        let verdict = self.check(circuit);
        if let Some(e) = verdict {
            self.stamps = out;
            return Err(e);
        }
        self.add_pass(circuit, Pass::Passive, &mut out);
        self.add_pass(circuit, Pass::Current, &mut out);
        self.add_pass(circuit, Pass::Voltage, &mut out);
        self.add_pass(circuit, Pass::CapacitorStep { dt }, &mut out);
        self.add_pass(circuit, Pass::InductorStep { dt }, &mut out);
        proof {
            let n = circuit.components@.len();
            assert(out@ =~= self.transient_stamps(circuit, dt));
            self.lemma_pass_within(circuit, Pass::Passive, n);
            self.lemma_pass_within(circuit, Pass::Current, n);
            self.lemma_pass_within(circuit, Pass::Voltage, n);
            self.lemma_pass_within(circuit, Pass::CapacitorStep { dt }, n);
            self.lemma_pass_within(circuit, Pass::InductorStep { dt }, n);
        }
        self.stamps = out;
        Ok(())
    }

    /// The stamps of a pass lie inside the system.
    pub proof fn lemma_pass_within(&self, circuit: &Circuit, pass: Pass, n: nat)
        requires
            self.wf(),
        ensures
            all_within(self.pass_stamps(circuit, pass, n), self.size),
        decreases n,
    {
        if n > 0 {
            self.lemma_pass_within(circuit, pass, (n - 1) as nat);
            self.lemma_element_within(circuit, circuit.components@[n - 1], pass);
        }
    }

    /// Takes over a solution of the system.
    pub fn update_solution(&mut self, solution: &[Scalar]) -> (r: Result<(), SizeMismatch>)
        requires
            old(self).wf(),
        ensures
            final(self).wf(),
            final(self).same_layout(old(self)),
            final(self).stamps == old(self).stamps,
            match r {
                Ok(()) => solution@.len() == old(self).size && final(self).unknowns@ == solution@,
                Err(e) => {
                    &&& solution@.len() != old(self).size
                    &&& e == (SizeMismatch { expected: old(self).size, found: solution@.len() as usize })
                    &&& final(self).unknowns == old(self).unknowns
                },
            },
    {
        if solution.len() != self.size {
            return Err(SizeMismatch { expected: self.size, found: solution.len() });
        }
        let mut i: usize = 0;
        while i < solution.len()
            invariant
                i <= solution@.len(),
                solution@.len() == self.size,
                self.wf(),
                self.same_layout(old(self)),
                self.stamps == old(self).stamps,
                forall|k: int| 0 <= k < i ==> self.unknowns@[k] == solution@[k],
            decreases solution@.len() - i,
        {
            self.unknowns[i] = solution[i];
            i += 1;
        }
        assert(self.unknowns@ =~= solution@);
        Ok(())
    }

    /// The solved voltage of the node with number `node_id`; zero for the
    /// ground and for a number that the layout does not know.
    pub fn get_node_voltage(&self, node_id: usize) -> (r: Scalar)
        requires
            self.wf(),
        ensures
            r == (match self.row(node_id as int) {
                Some(row) => self.unknowns@[row as int],
                None => Scalar::zero(),
            }),
    {
        match self.row_of(node_id) {
            Some(row) => self.unknowns[row],
            None => Scalar::zero(),
        }
    }

    /// The solved current through the voltage source or inductor called `name`.
    pub fn get_voltage_source_current(&self, name: &str) -> (r: Result<Scalar, SourceNotFound>)
        requires
            self.wf(),
        ensures
            match r {
                Ok(current) => self.branch_row(name@) matches Some(row) && current
                    == self.unknowns@[row as int],
                Err(_) => self.branch_row(name@) is None,
            },
    {
        match find_name(&self.branches, name) {
            Some(k) => Ok(self.unknowns[self.num_nodes + k]),
            None => Err(SourceNotFound {  }),
        }
    }

    /// The solved node voltages: the first `num_nodes` unknowns.
    pub fn get_node_voltages(&self) -> (r: Vec<Scalar>)
        requires
            self.wf(),
        ensures
            r@ == self.unknowns@.take(self.num_nodes as int),
    {
        let mut out: Vec<Scalar> = Vec::new();
        let mut i: usize = 0;
        while i < self.num_nodes
            invariant
                i <= self.num_nodes,
                self.wf(),
                out@ == self.unknowns@.take(i as int),
            decreases self.num_nodes - i,
        {
            out.push(self.unknowns[i]);
            i += 1;
            assert(out@ =~= self.unknowns@.take(i as int));
        }
        out
    }
}

/// The number of unknowns that a circuit asks for: its nodes without the
/// ground, its voltage sources and its inductors.
pub open spec fn unknown_count(circuit: &Circuit) -> int {
    circuit.nodes@.len() - (if circuit.ground_node is Some {
        1int
    } else {
        0int
    }) + branch_names(circuit.components@, false, circuit.components@.len()).len() + branch_names(
        circuit.components@,
        true,
        circuit.components@.len(),
    ).len()
}

/// Two systems with one layout get the same stamps from an element.
pub proof fn lemma_pass_repeatable(
    a: &MnaSystem,
    b: &MnaSystem,
    circuit: &Circuit,
    pass: Pass,
    n: nat,
)
    requires
        a.same_layout(b),
    ensures
        a.pass_stamps(circuit, pass, n) == b.pass_stamps(circuit, pass, n),
    decreases n,
{
    if n > 0 {
        lemma_pass_repeatable(a, b, circuit, pass, (n - 1) as nat);
        let c = circuit.components@[n - 1];
        assert(a.element_stamps(circuit, c, pass) == b.element_stamps(circuit, c, pass));
    }
}

/// Assembly is repeatable: what is assembled depends on the circuit and on
/// the layout of the unknowns alone, not on what the system held before. So
/// assembling one circuit twice gives the same system twice.
pub proof fn lemma_assembly_repeatable(a: &MnaSystem, b: &MnaSystem, circuit: &Circuit, dt: Decimal)
    requires
        a.same_layout(b),
    ensures
        a.dc_stamps(circuit) == b.dc_stamps(circuit),
        a.transient_stamps(circuit, dt) == b.transient_stamps(circuit, dt),
{
    let n = circuit.components@.len();
    lemma_pass_repeatable(a, b, circuit, Pass::Passive, n);
    lemma_pass_repeatable(a, b, circuit, Pass::Current, n);
    lemma_pass_repeatable(a, b, circuit, Pass::Voltage, n);
    lemma_pass_repeatable(a, b, circuit, Pass::CapacitorStep { dt }, n);
    lemma_pass_repeatable(a, b, circuit, Pass::InductorStep { dt }, n);
}

impl MnaSystem {
    /// The solved voltage of each node of the circuit, in the order of the
    /// nodes; zero for the ground.
    pub open spec fn decoded_voltages(&self, circuit: &Circuit) -> Seq<Scalar> {
        Seq::new(
            circuit.nodes@.len(),
            |i: int|
                match self.row(circuit.nodes@[i].id as int) {
                    Some(row) => self.unknowns@[row as int],
                    None => Scalar::zero(),
                },
        )
    }

    /// The solved current through each voltage source, in the order of the
    /// sources.
    pub open spec fn decoded_currents(&self) -> Seq<Scalar> {
        Seq::new(self.num_voltage_sources as nat, |k: int| self.unknowns@[self.num_nodes + k])
    }

    /// The solved voltage of each node of the circuit.
    pub fn node_voltages_of(&self, circuit: &Circuit) -> (r: Vec<Scalar>)
        requires
            self.wf(),
        ensures
            r@ == self.decoded_voltages(circuit),
    {
        let mut out: Vec<Scalar> = Vec::new();
        let mut i: usize = 0;
        while i < circuit.nodes.len()
            invariant
                i <= circuit.nodes@.len(),
                self.wf(),
                out@ == self.decoded_voltages(circuit).take(i as int),
            decreases circuit.nodes@.len() - i,
        {
            out.push(self.get_node_voltage(circuit.nodes[i].id));
            i += 1;
            assert(out@ =~= self.decoded_voltages(circuit).take(i as int));
        }
        assert(out@ =~= self.decoded_voltages(circuit));
        out
    }

    /// The solved current through each voltage source.
    pub fn source_currents(&self) -> (r: Vec<Scalar>)
        requires
            self.wf(),
        ensures
            r@ == self.decoded_currents(),
    {
        let mut out: Vec<Scalar> = Vec::new();
        let mut k: usize = 0;
        while k < self.num_voltage_sources
            invariant
                k <= self.num_voltage_sources,
                self.wf(),
                out@ == self.decoded_currents().take(k as int),
            decreases self.num_voltage_sources - k,
        {
            out.push(self.unknowns[self.num_nodes + k]);
            k += 1;
            assert(out@ =~= self.decoded_currents().take(k as int));
        }
        assert(out@ =~= self.decoded_currents());
        out
    }

    /// The names of the voltage sources, in order.
    pub fn source_names(&self) -> (r: Vec<String>)
        requires
            self.wf(),
        ensures
            r@ == self.branches@.take(self.num_voltage_sources as int),
    {
        let mut out: Vec<String> = Vec::new();
        let mut k: usize = 0;
        while k < self.num_voltage_sources
            invariant
                k <= self.num_voltage_sources,
                self.wf(),
                out@ == self.branches@.take(k as int),
            decreases self.num_voltage_sources - k,
        {
            out.push(self.branches[k].clone());
            k += 1;
            assert(out@ =~= self.branches@.take(k as int));
        }
        out
    }

    /// Sets every unknown to zero.
    pub fn reset_solution(&mut self)
        requires
            old(self).wf(),
        ensures
            final(self).wf(),
            final(self).same_layout(old(self)),
            final(self).stamps == old(self).stamps,
            final(self).unknowns@ == Seq::new(old(self).size as nat, |i: int| Scalar::zero()),
    {
        self.unknowns = zeros(self.size);
    }
}

/// What one stamp does to one place of the matrix.
pub enum Contribution {
    /// The place grows by `±amount`.
    Added { negative: bool, amount: Ratio },
    /// The place becomes `±1`.
    Fixed { negative: bool },
}

/// What the stamp does to the place `(r, c)` of the matrix: nothing, or one
/// contribution.
pub open spec fn contribution(stamp: Stamp, r: usize, c: usize) -> Seq<Contribution> {
    match stamp {
        Stamp::MatrixAdd { row, col, negative, amount } => if row == r && col == c {
            seq![Contribution::Added { negative, amount }]
        } else {
            Seq::empty()
        },
        Stamp::MatrixSet { row, col, negative } => if row == r && col == c {
            seq![Contribution::Fixed { negative }]
        } else {
            Seq::empty()
        },
        _ => Seq::empty(),
    }
}

/// What the stamps do to the place `(r, c)` of the matrix, in their order.
pub open spec fn contributions(stamps: Seq<Stamp>, r: usize, c: usize) -> Seq<Contribution>
    decreases stamps.len(),
{
    if stamps.len() == 0 {
        Seq::empty()
    } else {
        contributions(stamps.drop_last(), r, c) + contribution(stamps.last(), r, c)
    }
}

/// The contributions of two lists of stamps, one after the other.
pub proof fn lemma_contributions_concat(a: Seq<Stamp>, b: Seq<Stamp>, r: usize, c: usize)
    ensures
        contributions(a + b, r, c) == contributions(a, r, c) + contributions(b, r, c),
    decreases b.len(),
{
    if b.len() == 0 {
        assert(a + b =~= a);
        assert(contributions(a, r, c) + contributions(b, r, c) =~= contributions(a, r, c));
    } else {
        lemma_contributions_concat(a, b.drop_last(), r, c);
        assert((a + b).drop_last() =~= a + b.drop_last());
        assert((a + b).last() == b.last());
        assert(contributions(a + b, r, c) =~= contributions(a, r, c) + contributions(b, r, c));
    }
}

/// A list of stamps that touches the matrix in single places on the
/// diagonal and in mirrored pairs does the same to `(r, c)` as to `(c, r)`.
proof fn lemma_contributions_few(stamps: Seq<Stamp>, r: usize, c: usize)
    requires
        stamps.len() <= 2,
    ensures
        stamps.len() == 0 ==> contributions(stamps, r, c) == Seq::<Contribution>::empty(),
        stamps.len() == 1 ==> contributions(stamps, r, c) == contribution(stamps[0], r, c),
        stamps.len() == 2 ==> contributions(stamps, r, c) == contribution(stamps[0], r, c)
            + contribution(stamps[1], r, c),
{
    reveal_with_fuel(contributions, 3);
    if stamps.len() == 1 {
        assert(contributions(stamps, r, c) =~= contribution(stamps[0], r, c));
    }
    if stamps.len() == 2 {
        assert(stamps.drop_last().len() == 1);
        assert(stamps.drop_last()[0] == stamps[0]);
        assert(stamps.drop_last().drop_last().len() == 0);
        assert(contributions(stamps, r, c) =~= contribution(stamps[0], r, c) + contribution(
            stamps[1],
            r,
            c,
        ));
    }
}

/// The stamps of a conductance do the same to `(r, c)` as to `(c, r)`.
pub proof fn lemma_conductance_symmetric(
    i: Option<usize>,
    j: Option<usize>,
    g: Ratio,
    r: usize,
    c: usize,
)
    ensures
        contributions(conductance_stamps(i, j, g), r, c) == contributions(
            conductance_stamps(i, j, g),
            c,
            r,
        ),
{
    let first = match i {
        Some(a) => seq![Stamp::MatrixAdd { row: a, col: a, negative: false, amount: g }],
        None => Seq::empty(),
    };
    let second = match j {
        Some(b) => seq![Stamp::MatrixAdd { row: b, col: b, negative: false, amount: g }],
        None => Seq::empty(),
    };
    let third = match (i, j) {
        (Some(a), Some(b)) => seq![
            Stamp::MatrixAdd { row: a, col: b, negative: true, amount: g },
            Stamp::MatrixAdd { row: b, col: a, negative: true, amount: g },
        ],
        _ => Seq::empty(),
    };
    lemma_contributions_concat(first + second, third, r, c);
    lemma_contributions_concat(first + second, third, c, r);
    lemma_contributions_concat(first, second, r, c);
    lemma_contributions_concat(first, second, c, r);
    lemma_contributions_few(first, r, c);
    lemma_contributions_few(first, c, r);
    lemma_contributions_few(second, r, c);
    lemma_contributions_few(second, c, r);
    lemma_contributions_few(third, r, c);
    lemma_contributions_few(third, c, r);
    assert(contributions(third, r, c) =~= contributions(third, c, r));
}

/// The stamps of a branch do the same to `(r, c)` as to `(c, r)`.
pub proof fn lemma_branch_symmetric(
    b: usize,
    i: Option<usize>,
    j: Option<usize>,
    amount: Decimal,
    r: usize,
    c: usize,
)
    ensures
        contributions(branch_stamps(b, i, j, amount), r, c) == contributions(
            branch_stamps(b, i, j, amount),
            c,
            r,
        ),
{
    let first = match i {
        Some(a) => seq![
            Stamp::MatrixSet { row: b, col: a, negative: false },
            Stamp::MatrixSet { row: a, col: b, negative: false },
        ],
        None => Seq::empty(),
    };
    let second = match j {
        Some(d) => seq![
            Stamp::MatrixSet { row: b, col: d, negative: true },
            Stamp::MatrixSet { row: d, col: b, negative: true },
        ],
        None => Seq::empty(),
    };
    let third = seq![Stamp::RhsSet { row: b, value: amount }];
    lemma_contributions_concat(first + second, third, r, c);
    lemma_contributions_concat(first + second, third, c, r);
    lemma_contributions_concat(first, second, r, c);
    lemma_contributions_concat(first, second, c, r);
    lemma_contributions_few(first, r, c);
    lemma_contributions_few(first, c, r);
    lemma_contributions_few(second, r, c);
    lemma_contributions_few(second, c, r);
    lemma_contributions_few(third, r, c);
    lemma_contributions_few(third, c, r);
    assert(contributions(first, r, c) =~= contributions(first, c, r));
    assert(contributions(second, r, c) =~= contributions(second, c, r));
}

/// Stamps on the right-hand side alone do nothing to the matrix.
proof fn lemma_rhs_only(stamps: Seq<Stamp>, r: usize, c: usize)
    requires
        forall|k: int|
            0 <= k < stamps.len() ==> !((#[trigger] stamps[k]) is MatrixAdd) && !(stamps[k]
                is MatrixSet),
    ensures
        contributions(stamps, r, c) == Seq::<Contribution>::empty(),
    decreases stamps.len(),
{
    if stamps.len() > 0 {
        lemma_rhs_only(stamps.drop_last(), r, c);
        assert(contribution(stamps.last(), r, c) =~= Seq::<Contribution>::empty());
        assert(contributions(stamps, r, c) =~= Seq::<Contribution>::empty());
    }
}

impl MnaSystem {
    /// What an element stamps does the same to `(r, c)` as to `(c, r)`.
    pub proof fn lemma_element_symmetric(
        &self,
        circuit: &Circuit,
        e: Component,
        pass: Pass,
        r: usize,
        c: usize,
    )
        ensures
            contributions(self.element_stamps(circuit, e, pass), r, c) == contributions(
                self.element_stamps(circuit, e, pass),
                c,
                r,
            ),
    {
        let stamps = self.element_stamps(circuit, e, pass);
        if e.nodes@.len() >= 2 {
            let i = self.terminal_row(circuit, e.nodes@[0]@);
            let j = self.terminal_row(circuit, e.nodes@[1]@);
            let one = Decimal { negative: false, mantissa: 1, exponent: 0 };
            let zero = Decimal { negative: false, mantissa: 0, exponent: 0 };
            match (pass, e.component_type, self.branch_row(e.name@)) {
                (Pass::Passive, ComponentType::Resistor, _) => {
                    lemma_conductance_symmetric(
                        i,
                        j,
                        Ratio { numerator: one, denominator: e.value },
                        r,
                        c,
                    );
                },
                (Pass::Passive, ComponentType::Inductor, Some(b)) => {
                    lemma_branch_symmetric(b, i, j, zero, r, c);
                },
                (Pass::Current, ComponentType::CurrentSource, _) => {
                    lemma_rhs_only(stamps, r, c);
                    lemma_rhs_only(stamps, c, r);
                },
                (Pass::Voltage, ComponentType::VoltageSource, Some(b)) => {
                    lemma_branch_symmetric(b, i, j, e.value, r, c);
                },
                (Pass::CapacitorStep { dt }, ComponentType::Capacitor, _) => {
                    let gain = Ratio { numerator: e.value, denominator: dt };
                    lemma_conductance_symmetric(i, j, gain, r, c);
                    lemma_rhs_only(memory_stamps(i, j, gain), r, c);
                    lemma_rhs_only(memory_stamps(i, j, gain), c, r);
                    lemma_contributions_concat(
                        conductance_stamps(i, j, gain),
                        memory_stamps(i, j, gain),
                        r,
                        c,
                    );
                    lemma_contributions_concat(
                        conductance_stamps(i, j, gain),
                        memory_stamps(i, j, gain),
                        c,
                        r,
                    );
                },
                (Pass::InductorStep { dt }, ComponentType::Inductor, Some(b)) => {
                    lemma_contributions_few(stamps, r, c);
                    lemma_contributions_few(stamps, c, r);
                    assert(contributions(stamps, r, c) =~= contributions(stamps, c, r));
                },
                _ => {},
            }
        }
    }

    /// What a pass stamps does the same to `(r, c)` as to `(c, r)`.
    pub proof fn lemma_pass_symmetric(
        &self,
        circuit: &Circuit,
        pass: Pass,
        n: nat,
        r: usize,
        c: usize,
    )
        ensures
            contributions(self.pass_stamps(circuit, pass, n), r, c) == contributions(
                self.pass_stamps(circuit, pass, n),
                c,
                r,
            ),
        decreases n,
    {
        if n > 0 {
            let before = self.pass_stamps(circuit, pass, (n - 1) as nat);
            let here = self.element_stamps(circuit, circuit.components@[n - 1], pass);
            self.lemma_pass_symmetric(circuit, pass, (n - 1) as nat, r, c);
            self.lemma_element_symmetric(circuit, circuit.components@[n - 1], pass, r, c);
            lemma_contributions_concat(before, here, r, c);
            lemma_contributions_concat(before, here, c, r);
        }
    }

    /// The assembled matrix is symmetric: whatever the circuit, the places
    /// `(r, c)` and `(c, r)` receive the same contributions in the same
    /// order, at rest and in a time step. Applied to zeros in that order,
    /// equal contributions leave equal numbers.
    pub proof fn lemma_matrix_symmetric(&self, circuit: &Circuit, dt: Decimal, r: usize, c: usize)
        ensures
            contributions(self.dc_stamps(circuit), r, c) == contributions(
                self.dc_stamps(circuit),
                c,
                r,
            ),
            contributions(self.transient_stamps(circuit, dt), r, c) == contributions(
                self.transient_stamps(circuit, dt),
                c,
                r,
            ),
    {
        let n = circuit.components@.len();
        let passive = self.pass_stamps(circuit, Pass::Passive, n);
        let injected = self.pass_stamps(circuit, Pass::Current, n);
        let sourced = self.pass_stamps(circuit, Pass::Voltage, n);
        let charged = self.pass_stamps(circuit, Pass::CapacitorStep { dt }, n);
        let wound = self.pass_stamps(circuit, Pass::InductorStep { dt }, n);
        self.lemma_pass_symmetric(circuit, Pass::Passive, n, r, c);
        self.lemma_pass_symmetric(circuit, Pass::Current, n, r, c);
        self.lemma_pass_symmetric(circuit, Pass::Voltage, n, r, c);
        self.lemma_pass_symmetric(circuit, Pass::CapacitorStep { dt }, n, r, c);
        self.lemma_pass_symmetric(circuit, Pass::InductorStep { dt }, n, r, c);
        lemma_contributions_concat(passive, injected, r, c);
        lemma_contributions_concat(passive, injected, c, r);
        lemma_contributions_concat(passive + injected, sourced, r, c);
        lemma_contributions_concat(passive + injected, sourced, c, r);
        lemma_contributions_concat(passive + injected + sourced, charged, r, c);
        lemma_contributions_concat(passive + injected + sourced, charged, c, r);
        lemma_contributions_concat(passive + injected + sourced + charged, wound, r, c);
        lemma_contributions_concat(passive + injected + sourced + charged, wound, c, r);
    }
}

/// The name of every voltage source (or, with `inductors`, of every
/// inductor) among the first `n` elements stands among the branch names.
pub proof fn lemma_branch_named(components: Seq<Component>, inductors: bool, n: nat, k: int)
    requires
        0 <= k < n <= components.len(),
        if inductors {
            components[k].component_type is Inductor
        } else {
            components[k].component_type is VoltageSource
        },
    ensures
        exists|i: int|
            0 <= i < branch_names(components, inductors, n).len() && #[trigger] branch_names(
                components,
                inductors,
                n,
            )[i] == components[k].name,
    decreases n,
{
    let names = branch_names(components, inductors, n);
    let rest = branch_names(components, inductors, (n - 1) as nat);
    if k == n - 1 {
        assert(names[rest.len() as int] == components[k].name);
    } else {
        lemma_branch_named(components, inductors, (n - 1) as nat, k);
        let i = choose|i: int| 0 <= i < rest.len() && #[trigger] rest[i] == components[k].name;
        assert(names[i] == components[k].name);
    }
}

impl MnaSystem {
    /// A circuit that passes its validation, and that holds every node that
    /// its elements name, can be assembled on the system laid out for it: no
    /// element has a fault.
    pub proof fn lemma_valid_circuit_assembles(&self, circuit: &Circuit)
        requires
            self.lays_out(circuit),
            circuit.verdict(Ok(())),
            crate::circuit::terminals_known(circuit.nodes@, circuit.components@),
        ensures
            self.first_fault(circuit, None),
    {
        let names = crate::circuit::node_names(circuit.nodes@);
        let n = circuit.components@.len();
        assert forall|k: int| 0 <= k < n implies self.fault(
            circuit,
            #[trigger] circuit.components@[k],
        ) is None by {
            let c = circuit.components@[k];
            assert(c.check() is Ok);
            if c.component_type.linear() {
                assert(c.nodes@.len() == 2);
                assert forall|t: int| 0 <= t < 2 implies position(names, c.nodes@[t]@) is Some by {
                    assert(crate::circuit::has_node(circuit.nodes@, c.nodes@[t]@));
                    let i = choose|i: int|
                        0 <= i < circuit.nodes@.len() && (#[trigger] circuit.nodes@[i]).name@
                            == c.nodes@[t]@;
                    assert(names[i] == c.nodes@[t]@);
                    crate::text::lemma_position_exists(names, c.nodes@[t]@, i);
                }
                if c.component_type is VoltageSource || c.component_type is Inductor {
                    let inductors = c.component_type is Inductor;
                    lemma_branch_named(circuit.components@, inductors, n, k);
                    let own = branch_names(circuit.components@, inductors, n);
                    let i = choose|i: int| 0 <= i < own.len() && #[trigger] own[i] == c.name;
                    let sources = branch_names(circuit.components@, false, n);
                    let at = if inductors {
                        sources.len() + i
                    } else {
                        i
                    };
                    assert(self.branches@[at] == c.name);
                    assert(spelled(self.branches@)[at] == c.name@);
                    crate::text::lemma_position_exists(spelled(self.branches@), c.name@, at);
                }
            }
        }
    }
}

} // verus!

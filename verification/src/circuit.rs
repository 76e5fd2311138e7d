//! The circuit: named nodes, two-terminal elements, and the rules that a
//! circuit must meet before it is solved.
use vstd::prelude::*;
use crate::decimal::Decimal;
use crate::scalar::Scalar;
use crate::text::{chars_of, is_keyword, lemma_position_absent, lemma_position_found, lowercase, position};

verus! {

/// Whether a node of this name is the ground: `0`, or `gnd` or `ground` in
/// any mix of upper and lower case.
pub open spec fn is_ground_name(name: Seq<char>) -> bool {
    ||| name == seq!['0']
    ||| lowercase(name) == seq!['g', 'n', 'd']
    ||| lowercase(name) == seq!['g', 'r', 'o', 'u', 'n', 'd']
}

/// A connection point of the circuit.
#[derive(Debug, Clone)]
pub struct Node {
    pub name: String,
    pub id: usize,
    pub voltage: Scalar,
}

impl Node {
    /// A node that no circuit has numbered yet.
    pub fn new(name: String) -> (r: Node)
        ensures
            r == (Node { name, id: 0, voltage: Scalar::zero() }),
    {
        Node { name, id: 0, voltage: Scalar::zero() }
    }

    /// A node with its number.
    pub fn with_id(name: String, id: usize) -> (r: Node)
        ensures
            r == (Node { name, id, voltage: Scalar::zero() }),
    {
        Node { name, id, voltage: Scalar::zero() }
    }

    /// Whether the node's name marks it as the ground.
    pub fn is_ground(&self) -> (r: bool)
        ensures
            r == is_ground_name(self.name@),
    {
        let word = chars_of(self.name.as_str());
        let zero = ['0'];
        let gnd = ['g', 'n', 'd'];
        let ground = ['g', 'r', 'o', 'u', 'n', 'd'];
        assert(zero@ =~= seq!['0']);
        assert(gnd@ =~= seq!['g', 'n', 'd']);
        assert(ground@ =~= seq!['g', 'r', 'o', 'u', 'n', 'd']);
        let exact = word.len() == 1 && word[0] == '0';
        assert(exact == (word@ =~= seq!['0']));
        exact || is_keyword(word.as_slice(), gnd.as_slice()) || is_keyword(
            word.as_slice(),
            ground.as_slice(),
        )
    }
}

/// The kinds of element.
#[derive(Debug, Clone)]
pub enum ComponentType {
    Resistor,
    Capacitor,
    Inductor,
    VoltageSource,
    CurrentSource,
    Diode,
    Mosfet { model_type: String, width: Option<Decimal>, length: Option<Decimal> },
    Bjt { model_type: String, area: Option<Decimal> },
}

impl ComponentType {
    /// Whether the kind is one of the linear ones: resistor, capacitor,
    /// inductor, or an independent source.
    pub open spec fn linear(self) -> bool {
        self is Resistor || self is Capacitor || self is Inductor || self is VoltageSource
            || self is CurrentSource
    }

    /// Whether the kind is an independent source.
    pub open spec fn source(self) -> bool {
        self is VoltageSource || self is CurrentSource
    }

    /// Whether the kind is a linear passive: resistor, capacitor or inductor.
    pub open spec fn passive(self) -> bool {
        self is Resistor || self is Capacitor || self is Inductor
    }

    /// The number of terminals that an element of this kind has.
    pub open spec fn terminals(self) -> usize {
        match self {
            ComponentType::Mosfet { .. } => 4,
            ComponentType::Bjt { .. } => 3,
            _ => 2,
        }
    }

    /// Whether the kind is one of the linear ones.
    pub fn is_linear(&self) -> (r: bool)
        ensures
            r == self.linear(),
    {
        match self {
            ComponentType::Resistor => true,
            ComponentType::Capacitor => true,
            ComponentType::Inductor => true,
            ComponentType::VoltageSource => true,
            ComponentType::CurrentSource => true,
            _ => false,
        }
    }

    /// Whether the kind is an independent source.
    pub fn is_source(&self) -> (r: bool)
        ensures
            r == self.source(),
    {
        match self {
            ComponentType::VoltageSource => true,
            ComponentType::CurrentSource => true,
            _ => false,
        }
    }

    /// Whether the current through an element of this kind is an unknown of
    /// its own: true of voltage sources and inductors.
    pub fn tracks_current(&self) -> (r: bool)
        ensures
            r == (self is VoltageSource || self is Inductor),
    {
        match self {
            ComponentType::VoltageSource => true,
            ComponentType::Inductor => true,
            _ => false,
        }
    }

    /// Whether the kind is a resistor, a capacitor or an inductor.
    pub fn is_passive(&self) -> (r: bool)
        ensures
            r == self.passive(),
    {
        match self {
            ComponentType::Resistor => true,
            ComponentType::Capacitor => true,
            ComponentType::Inductor => true,
            _ => false,
        }
    }
}

/// What is wrong with a single element.
#[derive(Clone, Copy, Debug, PartialEq, Eq, Structural)]
pub enum ComponentError {
    /// The element names `found` nodes where its kind has `expected` terminals.
    TerminalCount { expected: usize, found: usize },
    /// A resistance, capacitance or inductance that is not above zero.
    NonPositiveValue,
    /// A conductance was asked of an element that is no resistor.
    NotAResistor,
}

/// The exact quotient `numerator / denominator` of two decimals.
#[derive(Clone, Copy, Debug, PartialEq, Eq, Structural)]
pub struct Ratio {
    pub numerator: Decimal,
    pub denominator: Decimal,
}

/// An element of the circuit.
#[derive(Debug, Clone)]
pub struct Component {
    pub name: String,
    pub component_type: ComponentType,
    pub nodes: Vec<String>,
    pub value: Decimal,
    pub model: Option<String>,
}

impl Component {
    /// Whether this is the two-terminal element of the given kind, name,
    /// nodes and value, with no model.
    pub open spec fn is_two_terminal(
        self,
        name: String,
        component_type: ComponentType,
        first: String,
        second: String,
        value: Decimal,
    ) -> bool {
        &&& self.name == name
        &&& self.component_type == component_type
        &&& self.nodes@ == seq![first, second]
        &&& self.value == value
        &&& self.model is None
    }

    /// What is wrong with the element, if anything: first the number of its
    /// nodes, then the sign of a resistance, capacitance or inductance.
    pub open spec fn check(self) -> Result<(), ComponentError> {
        if self.nodes@.len() != self.component_type.terminals() {
            Err(
                ComponentError::TerminalCount {
                    expected: self.component_type.terminals(),
                    found: self.nodes@.len() as usize,
                },
            )
        } else if self.component_type.passive() && !self.value.positive() {
            Err(ComponentError::NonPositiveValue)
        } else {
            Ok(())
        }
    }

    fn two_terminal(
        name: String,
        component_type: ComponentType,
        first: String,
        second: String,
        value: Decimal,
    ) -> (r: Component)
        ensures
            r.is_two_terminal(name, component_type, first, second, value),
    {
        let mut nodes: Vec<String> = Vec::new();
        nodes.push(first);
        nodes.push(second);
        assert(nodes@ =~= seq![first, second]);
        Component { name, component_type, nodes, value, model: None }
    }

    /// A resistor between two nodes.
    pub fn new_resistor(name: String, node1: String, node2: String, resistance: Decimal) -> (r:
        Component)
        ensures
            r.is_two_terminal(name, ComponentType::Resistor, node1, node2, resistance),
    {
        Component::two_terminal(name, ComponentType::Resistor, node1, node2, resistance)
    }

    /// A capacitor between two nodes.
    pub fn new_capacitor(name: String, node1: String, node2: String, capacitance: Decimal) -> (r:
        Component)
        ensures
            r.is_two_terminal(name, ComponentType::Capacitor, node1, node2, capacitance),
    {
        Component::two_terminal(name, ComponentType::Capacitor, node1, node2, capacitance)
    }

    /// An inductor between two nodes.
    pub fn new_inductor(name: String, node1: String, node2: String, inductance: Decimal) -> (r:
        Component)
        ensures
            r.is_two_terminal(name, ComponentType::Inductor, node1, node2, inductance),
    {
        Component::two_terminal(name, ComponentType::Inductor, node1, node2, inductance)
    }

    /// A voltage source that holds `node_pos` at `voltage` above `node_neg`.
    pub fn new_voltage_source(
        name: String,
        node_pos: String,
        node_neg: String,
        voltage: Decimal,
    ) -> (r: Component)
        ensures
            r.is_two_terminal(name, ComponentType::VoltageSource, node_pos, node_neg, voltage),
    {
        Component::two_terminal(name, ComponentType::VoltageSource, node_pos, node_neg, voltage)
    }

    /// A current source that feeds `current` into `node_pos` and draws it from
    /// `node_neg`.
    pub fn new_current_source(
        name: String,
        node_pos: String,
        node_neg: String,
        current: Decimal,
    ) -> (r: Component)
        ensures
            r.is_two_terminal(name, ComponentType::CurrentSource, node_pos, node_neg, current),
    {
        Component::two_terminal(name, ComponentType::CurrentSource, node_pos, node_neg, current)
    }

    /// The conductance `1 / R` of a resistor with a resistance above zero.
    pub fn conductance(&self) -> (r: Result<Ratio, ComponentError>)
        ensures
            r == (if !(self.component_type is Resistor) {
                Err::<Ratio, ComponentError>(ComponentError::NotAResistor)
            } else if !self.value.positive() {
                Err(ComponentError::NonPositiveValue)
            } else {
                Ok(
                    Ratio {
                        numerator: Decimal { negative: false, mantissa: 1, exponent: 0 },
                        denominator: self.value,
                    },
                )
            }),
    {
        match self.component_type {
            ComponentType::Resistor => {
                if !self.value.is_positive() {
                    Err(ComponentError::NonPositiveValue)
                } else {
                    Ok(Ratio { numerator: Decimal::from_integer(1), denominator: self.value })
                }
            },
            _ => Err(ComponentError::NotAResistor),
        }
    }

    /// The number of terminals that the element's kind has.
    pub fn terminal_count(&self) -> (r: usize)
        ensures
            r == self.component_type.terminals(),
    {
        match self.component_type {
            ComponentType::Mosfet { .. } => 4,
            ComponentType::Bjt { .. } => 3,
            _ => 2,
        }
    }

    /// Checks the number of nodes, and that a resistance, capacitance or
    /// inductance is above zero.
    pub fn validate(&self) -> (r: Result<(), ComponentError>)
        ensures
            r == self.check(),
    {
        let expected = self.terminal_count();
        if self.nodes.len() != expected {
            return Err(ComponentError::TerminalCount { expected, found: self.nodes.len() });
        }
        if self.component_type.is_passive() && !self.value.is_positive() {
            return Err(ComponentError::NonPositiveValue);
        }
        Ok(())
    }
}

/// What keeps a circuit from being solved.
#[derive(Clone, Copy, Debug, PartialEq, Eq, Structural)]
pub enum ValidationError {
    /// No node is named `0`, `gnd` or `ground`.
    NoGround,
    /// The element at `index` fails its own check.
    InvalidComponent { index: usize, reason: ComponentError },
    /// The node with this number is not the ground and no element touches it.
    FloatingNode { node: usize },
}

/// No node has the number that was asked for.
#[derive(Clone, Copy, Debug, PartialEq, Eq, Structural)]
pub struct NodeNotFound {
    pub id: usize,
}

/// Whether `g` is the ground that the node list designates: the first node
/// with a ground name, or none where no node has one.
pub open spec fn designates_ground(nodes: Seq<Node>, g: Option<usize>) -> bool {
    match g {
        Some(i) => {
            &&& i < nodes.len()
            &&& is_ground_name(nodes[i as int].name@)
            &&& forall|j: int| 0 <= j < i ==> !is_ground_name(#[trigger] nodes[j].name@)
        },
        None => forall|j: int| 0 <= j < nodes.len() ==> !is_ground_name(#[trigger] nodes[j].name@),
    }
}

/// The names of the nodes, in order.
pub open spec fn node_names(nodes: Seq<Node>) -> Seq<Seq<char>> {
    Seq::new(nodes.len(), |i: int| nodes[i].name@)
}

/// Whether some node of the list has this name.
pub open spec fn has_node(nodes: Seq<Node>, name: Seq<char>) -> bool {
    exists|i: int| 0 <= i < nodes.len() && (#[trigger] nodes[i]).name@ == name
}

/// Whether some element names a node `name` among its terminals.
pub open spec fn touches(components: Seq<Component>, name: Seq<char>) -> bool {
    exists|c: int, t: int|
        0 <= c < components.len() && 0 <= t < components[c].nodes@.len() && (
        #[trigger] components[c].nodes@[t])@ == name
}

/// The node list after a node of this name has been asked for: unchanged
/// where one exists, else longer by a node with the next free number.
pub open spec fn with_node(nodes: Seq<Node>, name: String) -> Seq<Node> {
    if has_node(nodes, name@) {
        nodes
    } else {
        nodes.push(Node { name, id: nodes.len() as usize, voltage: Scalar::zero() })
    }
}

/// The node list after each of `names` has been asked for, in order.
pub open spec fn with_nodes(nodes: Seq<Node>, names: Seq<String>) -> Seq<Node>
    decreases names.len(),
{
    if names.len() == 0 {
        nodes
    } else {
        with_node(with_nodes(nodes, names.drop_last()), names.last())
    }
}

/// A circuit under construction or ready to be solved.
///
/// Nodes are numbered in the order in which they are first named, and are
/// found again by name through the node list.
#[derive(Debug, Clone)]
pub struct Circuit {
    pub title: String,
    pub nodes: Vec<Node>,
    pub components: Vec<Component>,
    pub ground_node: Option<usize>,
}

impl Circuit {
    /// What holds of every circuit that this library has built: each node
    /// carries its position as its number, no two nodes share a name, and the
    /// ground is the first node with a ground name.
    pub open spec fn wf(&self) -> bool {
        &&& forall|i: int| 0 <= i < self.nodes@.len() ==> (#[trigger] self.nodes@[i]).id == i
        &&& forall|i: int, j: int|
            0 <= i < j < self.nodes@.len() ==> (#[trigger] self.nodes@[i]).name@ != (
            #[trigger] self.nodes@[j]).name@
        &&& designates_ground(self.nodes@, self.ground_node)
    }

    /// Whether node `i` is left hanging: it is not the ground and no element
    /// names it.
    pub open spec fn floating(&self, i: int) -> bool {
        self.ground_node != Some(i as usize) && !touches(self.components@, self.nodes@[i].name@)
    }

    /// Whether `r` is the verdict on this circuit. The ground is looked for
    /// first, then the first element that fails its check, then the first
    /// floating node.
    pub open spec fn verdict(&self, r: Result<(), ValidationError>) -> bool {
        match r {
            Err(ValidationError::NoGround) => self.ground_node is None,
            Err(ValidationError::InvalidComponent { index, reason }) => {
                &&& self.ground_node is Some
                &&& index < self.components@.len()
                &&& self.components@[index as int].check() == Err::<(), ComponentError>(reason)
                &&& forall|c: int| 0 <= c < index ==> (#[trigger] self.components@[c]).check() is Ok
            },
            Err(ValidationError::FloatingNode { node }) => {
                &&& self.ground_node is Some
                &&& forall|c: int|
                    0 <= c < self.components@.len() ==> (#[trigger] self.components@[c]).check() is Ok
                &&& node < self.nodes@.len()
                &&& self.floating(node as int)
                &&& forall|i: int| 0 <= i < node ==> !self.floating(i)
            },
            Ok(()) => {
                &&& self.ground_node is Some
                &&& forall|c: int|
                    0 <= c < self.components@.len() ==> (#[trigger] self.components@[c]).check() is Ok
                &&& forall|i: int| 0 <= i < self.nodes@.len() ==> !self.floating(i)
            },
        }
    }

    /// An empty circuit.
    pub fn new(title: String) -> (r: Circuit)
        ensures
            r.wf(),
            r.title == title,
            r.nodes@.len() == 0,
            r.components@.len() == 0,
            r.ground_node is None,
    {
        Circuit { title, nodes: Vec::new(), components: Vec::new(), ground_node: None }
    }

    /// The number of the node called `name`: the place of the first node of
    /// that name in the node list.
    pub fn get_node_id(&self, name: &str) -> (r: Option<usize>)
        ensures
            match r {
                Some(i) => {
                    &&& i < self.nodes@.len()
                    &&& self.nodes@[i as int].name@ == name@
                    &&& forall|j: int| 0 <= j < i ==> (#[trigger] self.nodes@[j]).name@ != name@
                    &&& position(node_names(self.nodes@), name@) == Some(i as int)
                },
                None => !has_node(self.nodes@, name@) && position(node_names(self.nodes@), name@)
                    is None,
            },
    {
        let key = name.to_owned();
        let mut i: usize = 0;
        while i < self.nodes.len()
            invariant
                i <= self.nodes@.len(),
                key@ == name@,
                forall|j: int| 0 <= j < i ==> (#[trigger] self.nodes@[j]).name@ != name@,
            decreases self.nodes@.len() - i,
        {
            if self.nodes[i].name == key {
                proof {
                    assert forall|j: int| 0 <= j < i implies #[trigger] node_names(self.nodes@)[j]
                        != name@ by {
                        assert(self.nodes@[j].name@ != name@);
                    }
                    lemma_position_found(node_names(self.nodes@), name@, i as int);
                }
                return Some(i);
            }
            i += 1;
        }
        proof {
            assert forall|j: int| 0 <= j < self.nodes@.len() implies #[trigger] node_names(
                self.nodes@,
            )[j] != name@ by {
                assert(self.nodes@[j].name@ != name@);
            }
            lemma_position_absent(node_names(self.nodes@), name@);
        }
        None
    }

    /// The number of the node called `name`; a node that does not exist yet
    /// is appended first. The first node with a ground name becomes the ground.
    pub fn add_node(&mut self, name: String) -> (r: usize)
        requires
            old(self).wf(),
        ensures
            final(self).wf(),
            final(self).title == old(self).title,
            final(self).components == old(self).components,
            final(self).nodes@ == with_node(old(self).nodes@, name),
            r < final(self).nodes@.len(),
            final(self).nodes@[r as int].name@ == name@,
            has_node(old(self).nodes@, name@) ==> final(self).ground_node == old(self).ground_node,
            !has_node(old(self).nodes@, name@) ==> r == old(self).nodes@.len()
                && final(self).ground_node == (if old(self).ground_node is None && is_ground_name(
                name@,
            ) {
                Some(r)
            } else {
                old(self).ground_node
            }),
    {
        match self.get_node_id(name.as_str()) {
            Some(existing) => existing,
            None => {
                let id = self.nodes.len();
                let node = Node::with_id(name, id);
                if self.ground_node.is_none() && node.is_ground() {
                    self.ground_node = Some(id);
                }
                self.nodes.push(node);
                id
            },
        }
    }

    /// Asks for a node of each of the names, in order.
    pub fn add_nodes(&mut self, names: &Vec<String>)
        requires
            old(self).wf(),
        ensures
            final(self).wf(),
            final(self).title == old(self).title,
            final(self).components == old(self).components,
            final(self).nodes@ == with_nodes(old(self).nodes@, names@),
    {
        let mut t: usize = 0;
        while t < names.len()
            invariant
                t <= names@.len(),
                self.wf(),
                self.title == old(self).title,
                self.components == old(self).components,
                self.nodes@ == with_nodes(old(self).nodes@, names@.take(t as int)),
            decreases names@.len() - t,
        {
            let name = names[t].clone();
            self.add_node(name);
            assert(names@.take(t + 1).drop_last() =~= names@.take(t as int));
            t += 1;
        }
        assert(names@.take(t as int) =~= names@);
    }

    /// Checks the element, names its nodes in the circuit, and appends it.
    /// A rejected element leaves the circuit as it was.
    pub fn add_component(&mut self, component: Component) -> (r: Result<(), ComponentError>)
        requires
            old(self).wf(),
        ensures
            final(self).wf(),
            r == component.check(),
            r is Err ==> *final(self) == *old(self),
            r is Ok ==> {
                &&& final(self).title == old(self).title
                &&& final(self).components@ == old(self).components@.push(component)
                &&& final(self).nodes@ == with_nodes(old(self).nodes@, component.nodes@)
            },
    {
        match component.validate() {
            Err(e) => {
                return Err(e);
            },
            Ok(()) => {},
        }
        self.add_nodes(&component.nodes);
        self.components.push(component);
        Ok(())
    }

    /// The number of nodes other than the ground.
    pub fn node_count(&self) -> (r: usize)
        requires
            self.wf(),
        ensures
            r == self.nodes@.len() - (if self.ground_node is Some { 1int } else { 0int }),
    {
        if self.ground_node.is_some() {
            self.nodes.len() - 1
        } else {
            self.nodes.len()
        }
    }

    /// Whether some element names the node `name` among its terminals.
    pub fn is_connected(&self, name: &String) -> (r: bool)
        ensures
            r == touches(self.components@, name@),
    {
        let mut c: usize = 0;
        while c < self.components.len()
            invariant
                c <= self.components@.len(),
                forall|k: int, t: int|
                    0 <= k < c && 0 <= t < self.components@[k].nodes@.len() ==> (
                    #[trigger] self.components@[k].nodes@[t])@ != name@,
            decreases self.components@.len() - c,
        {
            let component = &self.components[c];
            let mut t: usize = 0;
            while t < component.nodes.len()
                invariant
                    t <= component.nodes@.len(),
                    c < self.components@.len(),
                    *component == self.components@[c as int],
                    forall|u: int| 0 <= u < t ==> (#[trigger] component.nodes@[u])@ != name@,
                decreases component.nodes@.len() - t,
            {
                if component.nodes[t] == *name {
                    return true;
                }
                t += 1;
            }
            c += 1;
        }
        false
    }

    /// Checks that the circuit can be solved: it has a ground, every element
    /// passes its own check, and no node is left floating.
    pub fn validate(&self) -> (r: Result<(), ValidationError>)
        ensures
            self.verdict(r),
    {
        if self.ground_node.is_none() {
            return Err(ValidationError::NoGround);
        }
        let mut c: usize = 0;
        while c < self.components.len()
            invariant
                c <= self.components@.len(),
                self.ground_node is Some,
                forall|k: int| 0 <= k < c ==> (#[trigger] self.components@[k]).check() is Ok,
            decreases self.components@.len() - c,
        {
            match self.components[c].validate() {
                Err(reason) => {
                    return Err(ValidationError::InvalidComponent { index: c, reason });
                },
                Ok(()) => {},
            }
            c += 1;
        }
        let mut i: usize = 0;
        while i < self.nodes.len()
            invariant
                i <= self.nodes@.len(),
                self.ground_node is Some,
                forall|k: int|
                    0 <= k < self.components@.len() ==> (#[trigger] self.components@[k]).check() is Ok,
                forall|k: int| 0 <= k < i ==> !self.floating(k),
            decreases self.nodes@.len() - i,
        {
            if self.ground_node != Some(i) && !self.is_connected(&self.nodes[i].name) {
                return Err(ValidationError::FloatingNode { node: i });
            }
            i += 1;
        }
        Ok(())
    }
}

impl Circuit {
    /// Gives the element at `index` another value; nothing else changes.
    pub fn set_component_value(&mut self, index: usize, value: Decimal)
        requires
            index < old(self).components@.len(),
        ensures
            final(self).title == old(self).title,
            final(self).nodes == old(self).nodes,
            final(self).ground_node == old(self).ground_node,
            final(self).components@.len() == old(self).components@.len(),
            final(self).components@[index as int] == (Component {
                value,
                ..old(self).components@[index as int]
            }),
            forall|k: int|
                0 <= k < old(self).components@.len() && k != index ==> final(self).components@[k]
                    == old(self).components@[k],
    {
        self.components[index].value = value;
    }

    /// The place of the first element called `name`.
    pub fn find_component(&self, name: &str) -> (r: Option<usize>)
        ensures
            match r {
                Some(i) => {
                    &&& i < self.components@.len()
                    &&& self.components@[i as int].name@ == name@
                    &&& forall|j: int| 0 <= j < i ==> (#[trigger] self.components@[j]).name@ != name@
                },
                None => forall|j: int|
                    0 <= j < self.components@.len() ==> (#[trigger] self.components@[j]).name@
                        != name@,
            },
    {
        let key = name.to_owned();
        let mut i: usize = 0;
        while i < self.components.len()
            invariant
                i <= self.components@.len(),
                key@ == name@,
                forall|j: int| 0 <= j < i ==> (#[trigger] self.components@[j]).name@ != name@,
            decreases self.components@.len() - i,
        {
            if self.components[i].name == key {
                return Some(i);
            }
            i += 1;
        }
        None
    }

    /// The names of the nodes, in order.
    pub fn node_name_list(&self) -> (r: Vec<String>)
        ensures
            r@ == Seq::new(self.nodes@.len(), |i: int| self.nodes@[i].name),
    {
        let mut out: Vec<String> = Vec::new();
        let mut i: usize = 0;
        while i < self.nodes.len()
            invariant
                i <= self.nodes@.len(),
                out@ == Seq::new(i as nat, |k: int| self.nodes@[k].name),
            decreases self.nodes@.len() - i,
        {
            out.push(self.nodes[i].name.clone());
            i += 1;
            assert(out@ =~= Seq::new(i as nat, |k: int| self.nodes@[k].name));
        }
        out
    }
}

/// Whether the two kinds are the same kind of element, whatever model or
/// geometry they carry.
pub open spec fn same_kind(a: ComponentType, b: ComponentType) -> bool {
    ||| a is Resistor && b is Resistor
    ||| a is Capacitor && b is Capacitor
    ||| a is Inductor && b is Inductor
    ||| a is VoltageSource && b is VoltageSource
    ||| a is CurrentSource && b is CurrentSource
    ||| a is Diode && b is Diode
    ||| a is Mosfet && b is Mosfet
    ||| a is Bjt && b is Bjt
}

/// The groups of elements that a circuit can be asked for.
#[derive(Debug, Clone)]
pub enum Selection {
    /// The elements of the kind of the given one.
    OfKind(ComponentType),
    /// Resistors, capacitors and inductors.
    LinearPassive,
    /// Diodes and transistors.
    Nonlinear,
}

impl Selection {
    /// Whether an element of the kind `kind` belongs to the group.
    pub open spec fn holds(self, kind: ComponentType) -> bool {
        match self {
            Selection::OfKind(k) => same_kind(kind, k),
            Selection::LinearPassive => kind.passive(),
            Selection::Nonlinear => !kind.linear(),
        }
    }
}

/// The places among the first `n` elements at which an element of the group
/// stands, in order.
pub open spec fn selected(components: Seq<Component>, selection: Selection, n: nat) -> Seq<usize>
    decreases n,
{
    if n == 0 {
        Seq::empty()
    } else {
        let rest = selected(components, selection, (n - 1) as nat);
        if selection.holds(components[n - 1].component_type) {
            rest.push((n - 1) as usize)
        } else {
            rest
        }
    }
}

/// Whether `list` holds the elements of `components` at the `places`, in
/// that order.
pub open spec fn picks(list: Seq<&Component>, components: Seq<Component>, places: Seq<usize>) -> bool {
    &&& list.len() == places.len()
    &&& forall|k: int|
        0 <= k < places.len() ==> 0 <= (#[trigger] places[k]) < components.len() && *list[k]
            == components[places[k] as int]
}

/// Which elements are of a kind does not depend on the model or geometry
/// that the kind asked for carries.
pub proof fn lemma_selected_by_kind(
    components: Seq<Component>,
    a: ComponentType,
    b: ComponentType,
    n: nat,
)
    requires
        same_kind(a, b),
    ensures
        selected(components, Selection::OfKind(a), n) == selected(
            components,
            Selection::OfKind(b),
            n,
        ),
    decreases n,
{
    if n > 0 {
        lemma_selected_by_kind(components, a, b, (n - 1) as nat);
    }
}

fn kinds_match(a: &ComponentType, b: &ComponentType) -> (r: bool)
    ensures
        r == same_kind(*a, *b),
{
    match (a, b) {
        (ComponentType::Resistor, ComponentType::Resistor) => true,
        (ComponentType::Capacitor, ComponentType::Capacitor) => true,
        (ComponentType::Inductor, ComponentType::Inductor) => true,
        (ComponentType::VoltageSource, ComponentType::VoltageSource) => true,
        (ComponentType::CurrentSource, ComponentType::CurrentSource) => true,
        (ComponentType::Diode, ComponentType::Diode) => true,
        (ComponentType::Mosfet { .. }, ComponentType::Mosfet { .. }) => true,
        (ComponentType::Bjt { .. }, ComponentType::Bjt { .. }) => true,
        _ => false,
    }
}

impl Circuit {
    /// The node called `name`.
    pub fn get_node(&self, name: &str) -> (r: Option<&Node>)
        ensures
            match r {
                Some(node) => position(node_names(self.nodes@), name@) matches Some(i) && *node
                    == self.nodes@[i],
                None => position(node_names(self.nodes@), name@) is None,
            },
    {
        match self.get_node_id(name) {
            Some(i) => Some(&self.nodes[i]),
            None => None,
        }
    }

    /// The node with the number `id`.
    pub fn get_node_by_id(&self, id: usize) -> (r: Option<&Node>)
        ensures
            match r {
                Some(node) => id < self.nodes@.len() && *node == self.nodes@[id as int],
                None => id >= self.nodes@.len(),
            },
    {
        if id < self.nodes.len() {
            Some(&self.nodes[id])
        } else {
            None
        }
    }

    /// The numbers of the nodes other than the ground, in order.
    pub fn non_ground_nodes(&self) -> (r: Vec<usize>)
        requires
            self.wf(),
        ensures
            r@ == (match self.ground_node {
                Some(g) => Seq::new(
                    (self.nodes@.len() - 1) as nat,
                    |k: int| (if k < g { k } else { k + 1 }) as usize,
                ),
                None => Seq::new(self.nodes@.len(), |k: int| k as usize),
            }),
    {
        let mut out: Vec<usize> = Vec::new();
        let mut i: usize = 0;
        while i < self.nodes.len()
            invariant
                i <= self.nodes@.len(),
                self.wf(),
                out@ == (match self.ground_node {
                    Some(g) => Seq::new(
                        (if i <= g { i as int } else { i - 1 }) as nat,
                        |k: int| (if k < g { k } else { k + 1 }) as usize,
                    ),
                    None => Seq::new(i as nat, |k: int| k as usize),
                }),
            decreases self.nodes@.len() - i,
        {
            if self.ground_node != Some(self.nodes[i].id) {
                out.push(self.nodes[i].id);
            }
            i += 1;
            assert(out@ =~= (match self.ground_node {
                Some(g) => Seq::new(
                    (if i <= g { i as int } else { i - 1 }) as nat,
                    |k: int| (if k < g { k } else { k + 1 }) as usize,
                ),
                None => Seq::new(i as nat, |k: int| k as usize),
            }));
        }
        out
    }

    /// The elements of a group, in their order.
    pub fn select(&self, selection: &Selection) -> (r: Vec<&Component>)
        ensures
            picks(r@, self.components@, selected(self.components@, *selection, self.components@.len())),
    {
        let mut out: Vec<&Component> = Vec::new();
        let mut i: usize = 0;
        while i < self.components.len()
            invariant
                i <= self.components@.len(),
                picks(out@, self.components@, selected(self.components@, *selection, i as nat)),
            decreases self.components@.len() - i,
        {
            let kind = &self.components[i].component_type;
            let chosen = match selection {
                Selection::OfKind(k) => kinds_match(kind, k),
                Selection::LinearPassive => kind.is_passive(),
                Selection::Nonlinear => !kind.is_linear(),
            };
            if chosen {
                out.push(&self.components[i]);
            }
            i += 1;
        }
        out
    }

    /// The elements of the kind of `component_type`, in their order.
    pub fn components_of_type(&self, component_type: &ComponentType) -> (r: Vec<&Component>)
        ensures
            picks(
                r@,
                self.components@,
                selected(
                    self.components@,
                    Selection::OfKind(*component_type),
                    self.components@.len(),
                ),
            ),
    {
        let kind = match component_type {
            ComponentType::Resistor => ComponentType::Resistor,
            ComponentType::Capacitor => ComponentType::Capacitor,
            ComponentType::Inductor => ComponentType::Inductor,
            ComponentType::VoltageSource => ComponentType::VoltageSource,
            ComponentType::CurrentSource => ComponentType::CurrentSource,
            ComponentType::Diode => ComponentType::Diode,
            ComponentType::Mosfet { .. } => ComponentType::Mosfet {
                model_type: String::new(),
                width: None,
                length: None,
            },
            ComponentType::Bjt { .. } => ComponentType::Bjt { model_type: String::new(), area: None },
        };
        proof {
            lemma_selected_by_kind(self.components@, kind, *component_type, self.components@.len());
        }
        self.select(&Selection::OfKind(kind))
    }

    /// The voltage sources, in their order.
    pub fn voltage_sources(&self) -> (r: Vec<&Component>)
        ensures
            picks(
                r@,
                self.components@,
                selected(
                    self.components@,
                    Selection::OfKind(ComponentType::VoltageSource),
                    self.components@.len(),
                ),
            ),
    {
        self.select(&Selection::OfKind(ComponentType::VoltageSource))
    }

    /// The current sources, in their order.
    pub fn current_sources(&self) -> (r: Vec<&Component>)
        ensures
            picks(
                r@,
                self.components@,
                selected(
                    self.components@,
                    Selection::OfKind(ComponentType::CurrentSource),
                    self.components@.len(),
                ),
            ),
    {
        self.select(&Selection::OfKind(ComponentType::CurrentSource))
    }

    /// The resistors, capacitors and inductors, in their order.
    pub fn linear_components(&self) -> (r: Vec<&Component>)
        ensures
            picks(
                r@,
                self.components@,
                selected(self.components@, Selection::LinearPassive, self.components@.len()),
            ),
    {
        self.select(&Selection::LinearPassive)
    }

    /// The diodes and transistors, in their order.
    pub fn nonlinear_components(&self) -> (r: Vec<&Component>)
        ensures
            picks(
                r@,
                self.components@,
                selected(self.components@, Selection::Nonlinear, self.components@.len()),
            ),
    {
        self.select(&Selection::Nonlinear)
    }

    /// Notes the voltage of the node with the number `node_id`.
    pub fn set_node_voltage(&mut self, node_id: usize, voltage: Scalar) -> (r: Result<
        (),
        NodeNotFound,
    >)
        ensures
            final(self).title == old(self).title,
            final(self).components == old(self).components,
            final(self).ground_node == old(self).ground_node,
            old(self).wf() ==> final(self).wf(),
            match r {
                Ok(()) => {
                    &&& node_id < old(self).nodes@.len()
                    &&& final(self).nodes@.len() == old(self).nodes@.len()
                    &&& final(self).nodes@[node_id as int] == (Node {
                        voltage,
                        ..old(self).nodes@[node_id as int]
                    })
                    &&& forall|k: int|
                        0 <= k < old(self).nodes@.len() && k != node_id ==> final(self).nodes@[k]
                            == old(self).nodes@[k]
                },
                Err(e) => node_id >= old(self).nodes@.len() && e == (NodeNotFound { id: node_id })
                    && final(self).nodes == old(self).nodes,
            },
    {
        if node_id < self.nodes.len() {
            self.nodes[node_id].voltage = voltage;
            Ok(())
        } else {
            Err(NodeNotFound { id: node_id })
        }
    }

    /// The voltage noted for the node with the number `node_id`.
    pub fn get_node_voltage(&self, node_id: usize) -> (r: Result<Scalar, NodeNotFound>)
        ensures
            r == (if node_id < self.nodes@.len() {
                Ok::<Scalar, NodeNotFound>(self.nodes@[node_id as int].voltage)
            } else {
                Err(NodeNotFound { id: node_id })
            }),
    {
        if node_id < self.nodes.len() {
            Ok(self.nodes[node_id].voltage)
        } else {
            Err(NodeNotFound { id: node_id })
        }
    }
}

/// Asking for a node keeps every node that is there, and the node asked for
/// is there afterwards.
pub proof fn lemma_with_node(nodes: Seq<Node>, name: String, other: Seq<char>)
    ensures
        has_node(with_node(nodes, name), name@),
        has_node(nodes, other) ==> has_node(with_node(nodes, name), other),
{
    let after = with_node(nodes, name);
    if !has_node(nodes, name@) {
        assert(after[nodes.len() as int].name@ == name@);
    }
    if has_node(nodes, other) {
        let i = choose|i: int| 0 <= i < nodes.len() && (#[trigger] nodes[i]).name@ == other;
        assert(after[i].name@ == other);
    }
}

/// Asking for several nodes keeps every node that is there, and each node
/// asked for is there afterwards.
pub proof fn lemma_with_nodes(nodes: Seq<Node>, names: Seq<String>, other: Seq<char>)
    ensures
        forall|k: int| 0 <= k < names.len() ==> has_node(with_nodes(nodes, names), #[trigger] names[k]@),
        has_node(nodes, other) ==> has_node(with_nodes(nodes, names), other),
    decreases names.len(),
{
    if names.len() > 0 {
        let before = with_nodes(nodes, names.drop_last());
        lemma_with_nodes(nodes, names.drop_last(), other);
        lemma_with_node(before, names.last(), other);
        assert forall|k: int| 0 <= k < names.len() implies has_node(
            with_nodes(nodes, names),
            #[trigger] names[k]@,
        ) by {
            if k < names.len() - 1 {
                assert(names.drop_last()[k] == names[k]);
                lemma_with_node(before, names.last(), names[k]@);
            }
        }
    }
}

/// Whether every node that an element names is a node of the circuit.
pub open spec fn terminals_known(nodes: Seq<Node>, components: Seq<Component>) -> bool {
    forall|c: int, t: int|
        0 <= c < components.len() && 0 <= t < components[c].nodes@.len() ==> has_node(
            nodes,
            #[trigger] components[c].nodes@[t]@,
        )
}

} // verus!

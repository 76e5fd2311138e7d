//! What an analysis leaves behind: one value for each node and each voltage
//! source at every point of the analysis.
use vstd::prelude::*;
use crate::decimal::Decimal;
use crate::scalar::Scalar;
use crate::text::{position, spelled};

verus! {

/// The analysis that a result belongs to.
#[derive(Debug, Clone)]
pub enum AnalysisType {
    Operating,
    DcSweep { parameter: String, start: Decimal, stop: Decimal, step: Decimal },
    Transient { tstep: Decimal, tstop: Decimal },
}

/// What the solver reported at one point of an analysis.
#[derive(Debug, Clone)]
pub struct ConvergenceInfo {
    pub iteration: usize,
    pub residual_norm: Scalar,
    pub solve_time: Scalar,
    pub solver_method: String,
}

/// The values of one node voltage or one source current, point by point.
#[derive(Debug, Clone)]
pub struct Channel {
    pub name: String,
    pub values: Vec<Scalar>,
}

/// The results of one analysis.
#[derive(Debug, Clone)]
pub struct SimulationResult {
    pub analysis_type: AnalysisType,
    /// The time of each point, or the value of the swept source.
    pub time_points: Vec<Decimal>,
    /// One channel for each node of the circuit, in the order of the nodes.
    pub node_voltages: Vec<Channel>,
    /// One channel for each voltage source, in the order of the sources.
    pub currents: Vec<Channel>,
    pub convergence_info: Vec<ConvergenceInfo>,
    /// The time that the analysis took, in seconds.
    pub total_time: Scalar,
    /// Whether the solver succeeded at every point.
    pub success: bool,
}

/// The names of the channels, in order.
pub open spec fn channel_names(channels: Seq<Channel>) -> Seq<String> {
    Seq::new(channels.len(), |i: int| channels[i].name)
}

/// Whether every channel holds `n` values.
pub open spec fn all_of_length(channels: Seq<Channel>, n: nat) -> bool {
    forall|i: int| 0 <= i < channels.len() ==> (#[trigger] channels[i]).values@.len() == n
}

/// Whether `after` is `before` with one more value in every channel: channel
/// `i` gains `values[i]`.
pub open spec fn each_extended(before: Seq<Channel>, after: Seq<Channel>, values: Seq<Scalar>) -> bool {
    &&& after.len() == before.len()
    &&& forall|i: int|
        0 <= i < before.len() ==> (#[trigger] after[i]).name == before[i].name && after[i].values@
            == before[i].values@.push(values[i])
}

/// Empty channels of the given names.
fn channels_named(names: &Vec<String>) -> (r: Vec<Channel>)
    ensures
        channel_names(r@) == names@,
        all_of_length(r@, 0),
{
    let mut out: Vec<Channel> = Vec::new();
    let mut i: usize = 0;
    while i < names.len()
        invariant
            i <= names@.len(),
            out@.len() == i,
            forall|k: int| 0 <= k < i ==> (#[trigger] out@[k]).name == names@[k],
            all_of_length(out@, 0),
        decreases names@.len() - i,
    {
        out.push(Channel { name: names[i].clone(), values: Vec::new() });
        i += 1;
    }
    assert(channel_names(out@) =~= names@);
    out
}

/// Appends `values[i]` to channel `i`, for every channel.
fn extend_each(channels: &mut Vec<Channel>, values: &Vec<Scalar>)
    requires
        values@.len() == old(channels)@.len(),
    ensures
        each_extended(old(channels)@, final(channels)@, values@),
{
    let mut i: usize = 0;
    while i < channels.len()
        invariant
            i <= channels@.len(),
            channels@.len() == old(channels)@.len(),
            values@.len() == channels@.len(),
            forall|k: int|
                0 <= k < i ==> (#[trigger] channels@[k]).name == old(channels)@[k].name
                    && channels@[k].values@ == old(channels)@[k].values@.push(values@[k]),
            forall|k: int| i <= k < channels@.len() ==> channels@[k] == old(channels)@[k],
        decreases channels@.len() - i,
    {
        channels[i].values.push(values[i]);
        i += 1;
    }
}

impl SimulationResult {
    /// What holds of every result that this library has built: every
    /// channel has one value for each point.
    pub open spec fn wf(&self) -> bool {
        &&& all_of_length(self.node_voltages@, self.time_points@.len())
        &&& all_of_length(self.currents@, self.time_points@.len())
    }

    /// Whether `self` is `before` with one more point: the point `time` with
    /// the given voltages and currents, and with the solver's report where
    /// there is one. The run keeps its success only where the point is `ok`.
    pub open spec fn extends(
        &self,
        before: &SimulationResult,
        time: Decimal,
        voltages: Seq<Scalar>,
        currents: Seq<Scalar>,
        info: Option<ConvergenceInfo>,
        ok: bool,
    ) -> bool {
        &&& self.analysis_type == before.analysis_type
        &&& self.total_time == before.total_time
        &&& self.time_points@ == before.time_points@.push(time)
        &&& each_extended(before.node_voltages@, self.node_voltages@, voltages)
        &&& each_extended(before.currents@, self.currents@, currents)
        &&& self.convergence_info@ == (match info {
            Some(i) => before.convergence_info@.push(i),
            None => before.convergence_info@,
        })
        &&& self.success == (before.success && ok)
    }

    /// A result without a point yet, with a channel for each of the names.
    pub fn new(analysis_type: AnalysisType, node_names: &Vec<String>, source_names: &Vec<String>) -> (r:
        SimulationResult)
        ensures
            r.wf(),
            r.analysis_type == analysis_type,
            r.time_points@.len() == 0,
            channel_names(r.node_voltages@) == node_names@,
            channel_names(r.currents@) == source_names@,
            r.convergence_info@.len() == 0,
            r.total_time == Scalar::zero(),
            r.success,
    {
        SimulationResult {
            analysis_type,
            time_points: Vec::new(),
            node_voltages: channels_named(node_names),
            currents: channels_named(source_names),
            convergence_info: Vec::new(),
            total_time: Scalar::zero(),
            success: true,
        }
    }

    /// Adds a point to the result.
    pub fn record(
        &mut self,
        time: Decimal,
        voltages: &Vec<Scalar>,
        currents: &Vec<Scalar>,
        info: Option<ConvergenceInfo>,
        ok: bool,
    )
        requires
            old(self).wf(),
            voltages@.len() == old(self).node_voltages@.len(),
            currents@.len() == old(self).currents@.len(),
        ensures
            final(self).wf(),
            final(self).extends(old(self), time, voltages@, currents@, info, ok),
    {
        self.time_points.push(time);
        extend_each(&mut self.node_voltages, voltages);
        extend_each(&mut self.currents, currents);
        if let Some(i) = info {
            self.convergence_info.push(i);
        }
        self.success = self.success && ok;
    }

    /// The values of the voltage at the node called `name`.
    pub fn node_voltage(&self, name: &str) -> (r: Option<&Vec<Scalar>>)
        ensures
            match r {
                Some(values) => position(spelled(channel_names(self.node_voltages@)), name@)
                    matches Some(i) && *values == self.node_voltages@[i].values,
                None => position(spelled(channel_names(self.node_voltages@)), name@) is None,
            },
    {
        find_channel(&self.node_voltages, name)
    }

    /// The values of the current through the voltage source called `name`.
    pub fn current(&self, name: &str) -> (r: Option<&Vec<Scalar>>)
        ensures
            match r {
                Some(values) => position(spelled(channel_names(self.currents@)), name@) matches Some(
                    i,
                ) && *values == self.currents@[i].values,
                None => position(spelled(channel_names(self.currents@)), name@) is None,
            },
    {
        find_channel(&self.currents, name)
    }
}

/// The values of the first channel called `name`.
fn find_channel<'a>(channels: &'a Vec<Channel>, name: &str) -> (r: Option<&'a Vec<Scalar>>)
    ensures
        match r {
            Some(values) => position(spelled(channel_names(channels@)), name@) matches Some(i)
                && *values == channels@[i].values,
            None => position(spelled(channel_names(channels@)), name@) is None,
        },
{
    let key = name.to_owned();
    let ghost names = spelled(channel_names(channels@));
    let mut i: usize = 0;
    while i < channels.len()
        invariant
            i <= channels@.len(),
            key@ == name@,
            names == spelled(channel_names(channels@)),
            forall|j: int| 0 <= j < i ==> #[trigger] names[j] != name@,
        decreases channels@.len() - i,
    {
        if channels[i].name == key {
            proof {
                crate::text::lemma_position_found(names, name@, i as int);
            }
            return Some(&channels[i].values);
        }
        i += 1;
    }
    proof {
        crate::text::lemma_position_absent(names, name@);
    }
    None
}

/// The heading of the column of a channel: its name between `lead` and `)`.
pub open spec fn heading(lead: Seq<char>, name: Seq<char>) -> Seq<char> {
    lead + name + ")"@
}

/// The headings of a table of results: `time`, then `V(name)` for each node,
/// then `I(name)` for each voltage source.
pub open spec fn table_headings(results: SimulationResult) -> Seq<Seq<char>> {
    seq!["time"@] + Seq::new(
        results.node_voltages@.len(),
        |i: int| heading("V("@, results.node_voltages@[i].name@),
    ) + Seq::new(
        results.currents@.len(),
        |i: int| heading("I("@, results.currents@[i].name@),
    )
}

/// Appends the heading of each channel.
fn push_headings(out: &mut Vec<String>, lead: &str, channels: &Vec<Channel>)
    ensures
        spelled(final(out)@) == spelled(old(out)@) + Seq::new(
            channels@.len(),
            |i: int| heading(lead@, channels@[i].name@),
        ),
{
    let mut i: usize = 0;
    assert(spelled(out@) =~= spelled(old(out)@) + Seq::new(
        0,
        |i: int| heading(lead@, channels@[i].name@),
    ));
    while i < channels.len()
        invariant
            i <= channels@.len(),
            spelled(out@) == spelled(old(out)@) + Seq::new(
                i as nat,
                |k: int| heading(lead@, channels@[k].name@),
            ),
        decreases channels@.len() - i,
    {
        let cell = lead.to_owned().concat(channels[i].name.as_str()).concat(")");
        let ghost before = spelled(out@);
        out.push(cell);
        assert(spelled(out@) =~= before.push(cell@));
        i += 1;
        assert(spelled(out@) =~= spelled(old(out)@) + Seq::new(
            i as nat,
            |k: int| heading(lead@, channels@[k].name@),
        ));
    }
}

impl SimulationResult {
    /// The first row of a table of the results.
    pub fn csv_header(&self) -> (r: Vec<String>)
        ensures
            spelled(r@) == table_headings(*self),
    {
        let mut out: Vec<String> = Vec::new();
        out.push("time".to_owned());
        assert(spelled(out@) =~= seq!["time"@]);
        push_headings(&mut out, "V(", &self.node_voltages);
        push_headings(&mut out, "I(", &self.currents);
        out
    }

    /// The values of row `point` of a table of the results, after its time:
    /// the voltage of each node, then the current of each voltage source.
    pub fn row(&self, point: usize) -> (r: Vec<Scalar>)
        requires
            self.wf(),
            point < self.time_points@.len(),
        ensures
            r@ == Seq::new(
                self.node_voltages@.len(),
                |i: int| self.node_voltages@[i].values@[point as int],
            ) + Seq::new(self.currents@.len(), |i: int| self.currents@[i].values@[point as int]),
    {
        let mut out: Vec<Scalar> = Vec::new();
        let mut i: usize = 0;
        while i < self.node_voltages.len()
            invariant
                i <= self.node_voltages@.len(),
                self.wf(),
                point < self.time_points@.len(),
                out@ == Seq::new(i as nat, |k: int| self.node_voltages@[k].values@[point as int]),
            decreases self.node_voltages@.len() - i,
        {
            out.push(self.node_voltages[i].values[point]);
            i += 1;
            assert(out@ =~= Seq::new(
                i as nat,
                |k: int| self.node_voltages@[k].values@[point as int],
            ));
        }
        let ghost voltages = out@;
        i = 0;
        while i < self.currents.len()
            invariant
                i <= self.currents@.len(),
                self.wf(),
                point < self.time_points@.len(),
                out@ == voltages + Seq::new(
                    i as nat,
                    |k: int| self.currents@[k].values@[point as int],
                ),
            decreases self.currents@.len() - i,
        {
            out.push(self.currents[i].values[point]);
            i += 1;
            assert(out@ =~= voltages + Seq::new(
                i as nat,
                |k: int| self.currents@[k].values@[point as int],
            ));
        }
        out
    }
}

} // verus!

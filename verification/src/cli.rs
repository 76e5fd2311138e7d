//! What the command line asks for, decided on the words that it holds.
use vstd::prelude::*;
use crate::decimal::Decimal;
use crate::text::{chars_of, spelled, trim, trimmed};
use crate::value::{read_value, value_of, UnitKind, ValueError};

verus! {

/// The format in which results are written.
#[derive(Debug, Clone, Copy, PartialEq, Eq, Structural)]
pub enum OutputFormat {
    Csv,
    Json,
}

/// The analysis that the command line asks for.
#[derive(Debug, Clone)]
pub enum AnalysisType {
    Operating,
    Transient { tstep: Decimal, tstop: Decimal },
    DcSweep { source: String, start: Decimal, stop: Decimal, step: Decimal },
}

/// The command line, read.
#[derive(Debug, Clone)]
pub struct CliArgs {
    pub input_file: String,
    pub output_file: Option<String>,
    pub analysis_type: AnalysisType,
    pub output_format: OutputFormat,
    pub verbose_level: u8,
}

/// What is wrong with a command line.
#[derive(Debug, Clone, Copy, PartialEq, Eq, Structural)]
pub enum CliError {
    /// No input file is named.
    MissingInput,
    /// The format is neither `csv` nor `json`.
    InvalidFormat,
    /// A transient analysis is asked for with other than two values.
    TransientArity,
    /// A time cannot be read.
    BadTime(ValueError),
    /// The time step or the stop time is not above zero, or the step is not
    /// below the stop time.
    InvalidTimes,
    /// A sweep is asked for with other than four values.
    SweepArity,
    /// A value of the sweep cannot be read.
    BadValue(ValueError),
    /// The step of the sweep is not above zero.
    InvalidStep,
}

/// What a command line asks to be analysed.
pub enum Choice {
    Operating,
    Transient { tstep: Decimal, tstop: Decimal },
    DcSweep { source: Seq<char>, start: Decimal, stop: Decimal, step: Decimal },
}

/// The format that a word names.
pub open spec fn format_of(word: Seq<char>) -> Result<OutputFormat, CliError> {
    if word == "csv"@ {
        Ok(OutputFormat::Csv)
    } else if word == "json"@ {
        Ok(OutputFormat::Json)
    } else {
        Err(CliError::InvalidFormat)
    }
}

/// The transient analysis that two words ask for.
pub open spec fn transient_of(words: Seq<Seq<char>>) -> Result<Choice, CliError> {
    if words.len() != 2 {
        Err(CliError::TransientArity)
    } else {
        match value_of(UnitKind::Time, trimmed(words[0])) {
            Err(e) => Err(CliError::BadTime(e)),
            Ok(tstep) => match value_of(UnitKind::Time, trimmed(words[1])) {
                Err(e) => Err(CliError::BadTime(e)),
                Ok(tstop) => if tstep.positive() && tstop.positive() && tstep.below(tstop) {
                    Ok(Choice::Transient { tstep, tstop })
                } else {
                    Err(CliError::InvalidTimes)
                },
            },
        }
    }
}

/// The sweep that four words ask for.
pub open spec fn sweep_of(words: Seq<Seq<char>>) -> Result<Choice, CliError> {
    if words.len() != 4 {
        Err(CliError::SweepArity)
    } else {
        match value_of(UnitKind::Source, trimmed(words[1])) {
            Err(e) => Err(CliError::BadValue(e)),
            Ok(start) => match value_of(UnitKind::Source, trimmed(words[2])) {
                Err(e) => Err(CliError::BadValue(e)),
                Ok(stop) => match value_of(UnitKind::Source, trimmed(words[3])) {
                    Err(e) => Err(CliError::BadValue(e)),
                    Ok(step) => if step.positive() {
                        Ok(Choice::DcSweep { source: words[0], start, stop, step })
                    } else {
                        Err(CliError::InvalidStep)
                    },
                },
            },
        }
    }
}

/// The analysis that a command line asks for: the transient analysis where
/// one is given, else the sweep where one is given, else the operating point.
pub open spec fn choice_of(tran: Option<Seq<Seq<char>>>, dc: Option<Seq<Seq<char>>>) -> Result<
    Choice,
    CliError,
> {
    match tran {
        Some(words) => transient_of(words),
        None => match dc {
            Some(words) => sweep_of(words),
            None => Ok(Choice::Operating),
        },
    }
}

/// Whether the analysis is the one chosen.
pub open spec fn is_choice(a: AnalysisType, c: Choice) -> bool {
    match (a, c) {
        (AnalysisType::Operating, Choice::Operating) => true,
        (AnalysisType::Transient { tstep, tstop }, Choice::Transient { tstep: a, tstop: b }) => tstep
            == a && tstop == b,
        (
            AnalysisType::DcSweep { source, start, stop, step },
            Choice::DcSweep { source: s, start: a, stop: b, step: c },
        ) => source@ == s && start == a && stop == b && step == c,
        _ => false,
    }
}

/// Reads a time of the command line: a number with one of the units
/// `fs ps ns us ms s`, or bare, for seconds. Blanks around it are passed over.
pub fn parse_time_value(value: &str) -> (r: Result<Decimal, ValueError>)
    ensures
        r == value_of(UnitKind::Time, trimmed(value@)),
{
    let text = chars_of(value);
    let word = trim(text.as_slice());
    read_value(UnitKind::Time, word.as_slice())
}

/// Reads a voltage or current of the command line: a number with one of the
/// units `v mv uv a ma ua na`, or bare. Blanks around it are passed over.
pub fn parse_voltage_value(value: &str) -> (r: Result<Decimal, ValueError>)
    ensures
        r == value_of(UnitKind::Source, trimmed(value@)),
{
    let text = chars_of(value);
    let word = trim(text.as_slice());
    read_value(UnitKind::Source, word.as_slice())
}

/// Reads the values of a transient analysis.
fn read_transient(words: &Vec<String>) -> (r: Result<AnalysisType, CliError>)
    ensures
        match r {
            Ok(a) => transient_of(spelled(words@)) matches Ok(c) && is_choice(a, c),
            Err(e) => transient_of(spelled(words@)) == Err::<Choice, CliError>(e),
        },
{
    if words.len() != 2 {
        return Err(CliError::TransientArity);
    }
    assert(spelled(words@)[0] == words@[0]@);
    assert(spelled(words@)[1] == words@[1]@);
    let tstep = match parse_time_value(words[0].as_str()) {
        Ok(v) => v,
        Err(e) => {
            return Err(CliError::BadTime(e));
        },
    };
    let tstop = match parse_time_value(words[1].as_str()) {
        Ok(v) => v,
        Err(e) => {
            return Err(CliError::BadTime(e));
        },
    };
    if tstep.is_positive() && tstop.is_positive() && tstep.less_than(&tstop) {
        Ok(AnalysisType::Transient { tstep, tstop })
    } else {
        Err(CliError::InvalidTimes)
    }
}

/// Reads the values of a sweep.
fn read_sweep(words: &Vec<String>) -> (r: Result<AnalysisType, CliError>)
    ensures
        match r {
            Ok(a) => sweep_of(spelled(words@)) matches Ok(c) && is_choice(a, c),
            Err(e) => sweep_of(spelled(words@)) == Err::<Choice, CliError>(e),
        },
{
    if words.len() != 4 {
        return Err(CliError::SweepArity);
    }
    assert(spelled(words@)[0] == words@[0]@);
    assert(spelled(words@)[1] == words@[1]@);
    assert(spelled(words@)[2] == words@[2]@);
    assert(spelled(words@)[3] == words@[3]@);
    let start = match parse_voltage_value(words[1].as_str()) {
        Ok(v) => v,
        Err(e) => {
            return Err(CliError::BadValue(e));
        },
    };
    let stop = match parse_voltage_value(words[2].as_str()) {
        Ok(v) => v,
        Err(e) => {
            return Err(CliError::BadValue(e));
        },
    };
    let step = match parse_voltage_value(words[3].as_str()) {
        Ok(v) => v,
        Err(e) => {
            return Err(CliError::BadValue(e));
        },
    };
    if step.is_positive() {
        Ok(AnalysisType::DcSweep { source: words[0].clone(), start, stop, step })
    } else {
        Err(CliError::InvalidStep)
    }
}

impl CliArgs {
    /// Reads a command line from the words that it holds: the input file,
    /// the output file, the format, the values given for a transient analysis
    /// and those given for a sweep. The input is looked at first, then the
    /// format, then the analysis.
    pub fn from_values(
        input_file: Option<String>,
        output_file: Option<String>,
        format: &str,
        tran: Option<&Vec<String>>,
        dc: Option<&Vec<String>>,
        verbose_level: u8,
    ) -> (r: Result<CliArgs, CliError>)
        ensures
            match r {
                Ok(args) => {
                    &&& input_file == Some(args.input_file)
                    &&& args.output_file == output_file
                    &&& args.verbose_level == verbose_level
                    &&& format_of(format@) == Ok::<OutputFormat, CliError>(args.output_format)
                    &&& choice_of(
                        match tran {
                            Some(w) => Some(spelled(w@)),
                            None => None,
                        },
                        match dc {
                            Some(w) => Some(spelled(w@)),
                            None => None,
                        },
                    ) is Ok
                    &&& is_choice(
                        args.analysis_type,
                        choice_of(
                            match tran {
                                Some(w) => Some(spelled(w@)),
                                None => None,
                            },
                            match dc {
                                Some(w) => Some(spelled(w@)),
                                None => None,
                            },
                        )->Ok_0,
                    )
                },
                Err(e) => if input_file is None {
                    e == CliError::MissingInput
                } else if format_of(format@) is Err {
                    e == CliError::InvalidFormat
                } else {
                    choice_of(
                        match tran {
                            Some(w) => Some(spelled(w@)),
                            None => None,
                        },
                        match dc {
                            Some(w) => Some(spelled(w@)),
                            None => None,
                        },
                    ) == Err::<Choice, CliError>(e)
                },
            },
    {
        let input_file = match input_file {
            Some(name) => name,
            None => {
                return Err(CliError::MissingInput);
            },
        };
        let output_format = if str_is(format, "csv") {
            OutputFormat::Csv
        } else if str_is(format, "json") {
            OutputFormat::Json
        } else {
            return Err(CliError::InvalidFormat);
        };
        let analysis_type = match tran {
            Some(words) => match read_transient(words) {
                Ok(a) => a,
                Err(e) => {
                    return Err(e);
                },
            },
            None => match dc {
                Some(words) => match read_sweep(words) {
                    Ok(a) => a,
                    Err(e) => {
                        return Err(e);
                    },
                },
                None => AnalysisType::Operating,
            },
        };
        Ok(CliArgs { input_file, output_file, analysis_type, output_format, verbose_level })
    }
}

/// Whether two texts are the same.
fn str_is(a: &str, b: &str) -> (r: bool)
    ensures
        r == (a@ == b@),
{
    let x = a.to_owned();
    let y = b.to_owned();
    x == y
}

} // verus!

//! The netlist reader.
//!
//! A deck is read line by line. Blank lines and comments (`*`, `;`) are
//! dropped, a line that begins with `+` continues the line before it, the
//! first line that is left is the title, and `.end` closes the deck. Every
//! other line is split into words at blanks, parentheses, commas and equals
//! signs; a first word that begins with a dot makes the line a directive,
//! any other first word makes it an element.
use vstd::prelude::*;
use crate::circuit::{with_nodes, Circuit, Component, ComponentType, Node};
use crate::decimal::Decimal;
use crate::text::{
    append_chars,
    chars_of,
    copy_range,
    lines_of,
    lower,
    lowercase,
    rows,
    split_lines,
    split_words,
    spelled,
    string_of,
    to_lower,
    word_is,
    trim,
    trimmed,
    words_of,
};
pub use crate::value::{parse_time_with_unit, parse_value_with_unit};
use crate::value::{
    append_digits, digit_run, lemma_digit_run_digits, read_value, value_of, UnitKind, ValueError,
};

verus! {

/// What is wrong with a line.
#[derive(Clone, Copy, Debug, PartialEq, Eq, Structural)]
pub enum ParseErrorKind {
    /// The first letter of an element's name stands for no kind of element.
    UnknownElement,
    /// An element names fewer than two nodes.
    MissingTerminals,
    /// An element lacks its value.
    MissingValue,
    /// A word that should be a value is none.
    BadValue(ValueError),
    /// A directive lacks a parameter or has one that cannot be read.
    MalformedDirective,
}

/// The line that cannot be read, counted from the title as line 0 after
/// comments are dropped and continuations joined, and what is wrong with it.
#[derive(Clone, Copy, Debug, PartialEq, Eq, Structural)]
pub struct ParseError {
    pub line: usize,
    pub kind: ParseErrorKind,
}

/// A subcircuit definition.
#[derive(Debug, Clone)]
pub struct Subcircuit {
    pub name: String,
    pub nodes: Vec<String>,
    pub components: Vec<Component>,
}

/// An analysis that a deck asks for.
#[derive(Debug, Clone)]
pub enum Analysis {
    Operating,
    Transient { tstep: Decimal, tstop: Decimal, tstart: Option<Decimal> },
    DcSweep { source: String, start: Decimal, stop: Decimal, step: Decimal },
    Ac { points: usize, fstart: Decimal, fstop: Decimal, sweep_type: String },
}

/// A named parameter of a deck.
#[derive(Debug, Clone)]
pub struct Parameter {
    pub name: String,
    pub value: Decimal,
}

/// A deck as read.
#[derive(Debug, Clone)]
pub struct SpiceNetlist {
    pub title: String,
    pub components: Vec<Component>,
    /// The nodes that the elements name, each once, in the order in which
    /// they are first named.
    pub nodes: Vec<Node>,
    pub subcircuits: Vec<Subcircuit>,
    /// The parameters in the order of their definition; a later definition
    /// of a name stands behind the earlier one.
    pub parameters: Vec<Parameter>,
    pub analyses: Vec<Analysis>,
}

/// The reader of decks.
pub struct SpiceParser {}

/// What an element line says.
pub struct Element {
    pub name: Seq<char>,
    pub kind: ComponentType,
    pub first: Seq<char>,
    pub second: Seq<char>,
    pub value: Decimal,
}

/// What an analysis line says.
pub enum Request {
    Operating,
    Transient { tstep: Decimal, tstop: Decimal, tstart: Option<Decimal> },
    DcSweep { source: Seq<char>, start: Decimal, stop: Decimal, step: Decimal },
    Ac { points: usize, fstart: Decimal, fstop: Decimal, sweep_type: Seq<char> },
}

/// What a line of the deck says.
pub enum Entry {
    /// `.end`: the deck is closed.
    End,
    /// Nothing: a line without a word, or a directive that this reader
    /// passes over.
    Ignored,
    Analysis(Request),
    Parameter { name: Seq<char>, value: Decimal },
    Element(Element),
}

/// What a deck says.
pub struct Deck {
    pub title: Seq<char>,
    pub elements: Seq<Element>,
    pub analyses: Seq<Request>,
    pub parameters: Seq<(Seq<char>, Decimal)>,
    pub ended: bool,
}

/// Joining the first `n` lines of a text into logical lines: the lines that
/// are complete, and the line that a continuation may still lengthen.
pub open spec fn logical_scan(lines: Seq<Seq<char>>, n: nat) -> (Seq<Seq<char>>, Seq<char>)
    decreases n,
{
    if n == 0 {
        (Seq::empty(), Seq::empty())
    } else {
        let (complete, current) = logical_scan(lines, (n - 1) as nat);
        let line = trimmed(lines[n - 1]);
        if line.len() == 0 || line[0] == '*' || line[0] == ';' {
            (complete, current)
        } else if line[0] == '+' {
            (complete, current + seq![' '] + trimmed(line.subrange(1, line.len() as int)))
        } else {
            (if current.len() > 0 { complete.push(current) } else { complete }, line)
        }
    }
}

/// The logical lines of a text.
pub open spec fn logical_lines(text: Seq<char>) -> Seq<Seq<char>> {
    let (complete, current) = logical_scan(lines_of(text), lines_of(text).len());
    if current.len() > 0 {
        complete.push(current)
    } else {
        complete
    }
}

/// The kind of element that a name with this first letter stands for.
pub open spec fn kind_of_letter(c: char) -> Option<ComponentType> {
    if lower(c) == 'r' {
        Some(ComponentType::Resistor)
    } else if lower(c) == 'c' {
        Some(ComponentType::Capacitor)
    } else if lower(c) == 'l' {
        Some(ComponentType::Inductor)
    } else if lower(c) == 'v' {
        Some(ComponentType::VoltageSource)
    } else if lower(c) == 'i' {
        Some(ComponentType::CurrentSource)
    } else if lower(c) == 'd' {
        Some(ComponentType::Diode)
    } else {
        None
    }
}

/// The place of the word that carries the value of an element: the fourth
/// word, or, for a source, the word after `DC` or `AC`, or the second word
/// after `PULSE` (the first, where `PULSE` has one parameter only).
pub open spec fn value_place(source: bool, words: Seq<Seq<char>>) -> Option<int> {
    if words.len() < 4 {
        None
    } else if source && (lowercase(words[3]) == "dc"@ || lowercase(words[3]) == "ac"@) {
        if words.len() >= 5 {
            Some(4)
        } else {
            None
        }
    } else if source && lowercase(words[3]) == "pulse"@ {
        if words.len() >= 6 {
            Some(5)
        } else if words.len() == 5 {
            Some(4)
        } else {
            None
        }
    } else {
        Some(3)
    }
}

/// What the words of an element line say.
pub open spec fn element_of(words: Seq<Seq<char>>) -> Result<Element, ParseErrorKind>
    recommends
        words.len() > 0,
        words[0].len() > 0,
{
    match kind_of_letter(words[0][0]) {
        None => Err(ParseErrorKind::UnknownElement),
        Some(kind) => if words.len() < 3 {
            Err(ParseErrorKind::MissingTerminals)
        } else {
            match value_place(kind.source(), words) {
                None => Err(ParseErrorKind::MissingValue),
                Some(at) => match value_of(UnitKind::Value, words[at]) {
                    Err(e) => Err(ParseErrorKind::BadValue(e)),
                    Ok(value) => Ok(
                        Element { name: words[0], kind, first: words[1], second: words[2], value },
                    ),
                },
            }
        },
    }
}

/// The whole number that a word of digits writes.
pub open spec fn count_of(word: Seq<char>) -> Option<usize> {
    if word.len() > 0 && crate::value::digit_run(word, 0) == word.len() && append_digits(0, word)
        <= usize::MAX {
        Some(append_digits(0, word) as usize)
    } else {
        None
    }
}

/// What the words of a `.tran` line say.
pub open spec fn tran_of(words: Seq<Seq<char>>) -> Result<Request, ParseErrorKind> {
    if words.len() < 3 {
        Err(ParseErrorKind::MalformedDirective)
    } else {
        match value_of(UnitKind::Time, words[1]) {
            Err(e) => Err(ParseErrorKind::BadValue(e)),
            Ok(tstep) => match value_of(UnitKind::Time, words[2]) {
                Err(e) => Err(ParseErrorKind::BadValue(e)),
                Ok(tstop) => if words.len() >= 4 {
                    match value_of(UnitKind::Time, words[3]) {
                        Err(e) => Err(ParseErrorKind::BadValue(e)),
                        Ok(tstart) => Ok(Request::Transient { tstep, tstop, tstart: Some(tstart) }),
                    }
                } else {
                    Ok(Request::Transient { tstep, tstop, tstart: None })
                },
            },
        }
    }
}

/// What the words of a `.dc` line say.
pub open spec fn dc_of(words: Seq<Seq<char>>) -> Result<Request, ParseErrorKind> {
    if words.len() < 5 {
        Err(ParseErrorKind::MalformedDirective)
    } else {
        match value_of(UnitKind::Value, words[2]) {
            Err(e) => Err(ParseErrorKind::BadValue(e)),
            Ok(start) => match value_of(UnitKind::Value, words[3]) {
                Err(e) => Err(ParseErrorKind::BadValue(e)),
                Ok(stop) => match value_of(UnitKind::Value, words[4]) {
                    Err(e) => Err(ParseErrorKind::BadValue(e)),
                    Ok(step) => Ok(Request::DcSweep { source: words[1], start, stop, step }),
                },
            },
        }
    }
}

/// What the words of an `.ac` line say.
pub open spec fn ac_of(words: Seq<Seq<char>>) -> Result<Request, ParseErrorKind> {
    if words.len() < 5 {
        Err(ParseErrorKind::MalformedDirective)
    } else if !(lowercase(words[1]) == "lin"@ || lowercase(words[1]) == "oct"@ || lowercase(
        words[1],
    ) == "dec"@) {
        Err(ParseErrorKind::MalformedDirective)
    } else {
        match count_of(words[2]) {
            None => Err(ParseErrorKind::MalformedDirective),
            Some(points) => match value_of(UnitKind::Value, words[3]) {
                Err(e) => Err(ParseErrorKind::BadValue(e)),
                Ok(fstart) => match value_of(UnitKind::Value, words[4]) {
                    Err(e) => Err(ParseErrorKind::BadValue(e)),
                    Ok(fstop) => Ok(
                        Request::Ac { points, fstart, fstop, sweep_type: lowercase(words[1]) },
                    ),
                },
            },
        }
    }
}

/// What the words of a directive line say. The name of the directive is
/// read without regard to case; a name that is not known is passed over.
pub open spec fn directive_of(words: Seq<Seq<char>>) -> Result<Entry, ParseErrorKind>
    recommends
        words.len() > 0,
{
    let name = lowercase(words[0]);
    if name == ".end"@ {
        Ok(Entry::End)
    } else if name == ".op"@ {
        Ok(Entry::Analysis(Request::Operating))
    } else if name == ".tran"@ {
        match tran_of(words) {
            Ok(r) => Ok(Entry::Analysis(r)),
            Err(e) => Err(e),
        }
    } else if name == ".dc"@ {
        match dc_of(words) {
            Ok(r) => Ok(Entry::Analysis(r)),
            Err(e) => Err(e),
        }
    } else if name == ".ac"@ {
        match ac_of(words) {
            Ok(r) => Ok(Entry::Analysis(r)),
            Err(e) => Err(e),
        }
    } else if name == ".param"@ {
        if words.len() < 3 {
            Err(ParseErrorKind::MalformedDirective)
        } else {
            match value_of(UnitKind::Value, words[2]) {
                Err(e) => Err(ParseErrorKind::BadValue(e)),
                Ok(value) => Ok(Entry::Parameter { name: words[1], value }),
            }
        }
    } else {
        Ok(Entry::Ignored)
    }
}

/// What a line after the title says: a directive where its first word
/// begins with a dot, else an element.
pub open spec fn entry_of(line: Seq<char>) -> Result<Entry, ParseErrorKind> {
    let words = words_of(line);
    if words.len() == 0 {
        Ok(Entry::Ignored)
    } else if words[0][0] == '.' {
        directive_of(words)
    } else {
        match element_of(words) {
            Err(kind) => Err(kind),
            Ok(e) => Ok(Entry::Element(e)),
        }
    }
}

/// The deck with one more entry.
pub open spec fn with_entry(deck: Deck, entry: Entry) -> Deck {
    match entry {
        Entry::End => Deck { ended: true, ..deck },
        Entry::Ignored => deck,
        Entry::Analysis(r) => Deck { analyses: deck.analyses.push(r), ..deck },
        Entry::Parameter { name, value } => Deck {
            parameters: deck.parameters.push((name, value)),
            ..deck
        },
        Entry::Element(e) => Deck { elements: deck.elements.push(e), ..deck },
    }
}

/// The deck with what one more line says. Nothing is read after `.end`.
pub open spec fn with_line(deck: Deck, line: Seq<char>, number: nat) -> Result<Deck, ParseError> {
    if deck.ended {
        Ok(deck)
    } else {
        match entry_of(line) {
            Err(kind) => Err(ParseError { line: number as usize, kind }),
            Ok(entry) => Ok(with_entry(deck, entry)),
        }
    }
}

/// What the first `n` logical lines of a deck say: line 0 is the title, each
/// later line adds to the deck until `.end`, and the first line that cannot
/// be read ends the reading.
pub open spec fn read_lines(lines: Seq<Seq<char>>, n: nat) -> Result<Deck, ParseError>
    decreases n,
{
    if n == 0 {
        Ok(
            Deck {
                title: Seq::empty(),
                elements: Seq::empty(),
                analyses: Seq::empty(),
                parameters: Seq::empty(),
                ended: false,
            },
        )
    } else if n == 1 {
        Ok(
            Deck {
                title: trimmed(lines[0]),
                elements: Seq::empty(),
                analyses: Seq::empty(),
                parameters: Seq::empty(),
                ended: false,
            },
        )
    } else {
        match read_lines(lines, (n - 1) as nat) {
            Err(e) => Err(e),
            Ok(deck) => with_line(deck, lines[n - 1], (n - 1) as nat),
        }
    }
}

/// What a text says as a deck.
pub open spec fn deck_of(text: Seq<char>) -> Result<Deck, ParseError> {
    read_lines(logical_lines(text), logical_lines(text).len())
}

/// Whether the component is what the element line says.
pub open spec fn is_element(c: Component, e: Element) -> bool {
    &&& c.name@ == e.name
    &&& c.component_type == e.kind
    &&& c.nodes@.len() == 2
    &&& c.nodes@[0]@ == e.first
    &&& c.nodes@[1]@ == e.second
    &&& c.value == e.value
    &&& c.model is None
}

/// Whether the analysis is what the analysis line says.
pub open spec fn is_request(a: Analysis, r: Request) -> bool {
    match (a, r) {
        (Analysis::Operating, Request::Operating) => true,
        (
            Analysis::Transient { tstep, tstop, tstart },
            Request::Transient { tstep: a, tstop: b, tstart: c },
        ) => tstep == a && tstop == b && tstart == c,
        (
            Analysis::DcSweep { source, start, stop, step },
            Request::DcSweep { source: s, start: a, stop: b, step: c },
        ) => source@ == s && start == a && stop == b && step == c,
        (
            Analysis::Ac { points, fstart, fstop, sweep_type },
            Request::Ac { points: p, fstart: a, fstop: b, sweep_type: s },
        ) => points == p && fstart == a && fstop == b && sweep_type@ == s,
        _ => false,
    }
}

/// The nodes that the first `n` of the components name, each once, in the
/// order in which they are first named.
pub open spec fn harvest(components: Seq<Component>, n: nat) -> Seq<Node>
    decreases n,
{
    if n == 0 {
        Seq::empty()
    } else {
        with_nodes(harvest(components, (n - 1) as nat), components[n - 1].nodes@)
    }
}

/// Whether the lists hold, entry by entry, the elements, analyses and
/// parameters of the deck.
pub open spec fn holds_entries(
    components: Seq<Component>,
    analyses: Seq<Analysis>,
    parameters: Seq<Parameter>,
    deck: Deck,
) -> bool {
    &&& components.len() == deck.elements.len()
    &&& forall|i: int|
        0 <= i < deck.elements.len() ==> is_element(#[trigger] components[i], deck.elements[i])
    &&& analyses.len() == deck.analyses.len()
    &&& forall|i: int|
        0 <= i < deck.analyses.len() ==> is_request(#[trigger] analyses[i], deck.analyses[i])
    &&& parameters.len() == deck.parameters.len()
    &&& forall|i: int|
        0 <= i < deck.parameters.len() ==> (#[trigger] parameters[i]).name@
            == deck.parameters[i].0 && parameters[i].value == deck.parameters[i].1
}

impl SpiceNetlist {
    /// Whether the netlist holds what the deck says, with the nodes that its
    /// elements name and no subcircuit.
    pub open spec fn holds(&self, deck: Deck) -> bool {
        &&& self.title@ == deck.title
        &&& holds_entries(self.components@, self.analyses@, self.parameters@, deck)
        &&& self.subcircuits@.len() == 0
        &&& self.nodes@ == harvest(self.components@, self.components@.len())
    }
}

/// An error stays the result however many more lines are read.
pub proof fn lemma_error_stays(lines: Seq<Seq<char>>, m: nat, n: nat)
    requires
        m <= n,
        read_lines(lines, m) is Err,
    ensures
        read_lines(lines, n) == read_lines(lines, m),
    decreases n,
{
    if m < n {
        lemma_error_stays(lines, m, (n - 1) as nat);
    }
}

/// Joins the lines of a text into logical lines.
fn join_lines(lines: &Vec<Vec<char>>) -> (r: Vec<Vec<char>>)
    ensures
        rows(r@) == (if logical_scan(rows(lines@), lines@.len()).1.len() > 0 {
            logical_scan(rows(lines@), lines@.len()).0.push(
                logical_scan(rows(lines@), lines@.len()).1,
            )
        } else {
            logical_scan(rows(lines@), lines@.len()).0
        }),
{
    let mut complete: Vec<Vec<char>> = Vec::new();
    let mut current: Vec<char> = Vec::new();
    let mut i: usize = 0;
    assert(rows(complete@) =~= logical_scan(rows(lines@), 0).0);
    while i < lines.len()
        invariant
            i <= lines@.len(),
            rows(complete@) == logical_scan(rows(lines@), i as nat).0,
            current@ == logical_scan(rows(lines@), i as nat).1,
        decreases lines@.len() - i,
    {
        let line = trim(lines[i].as_slice());
        assert(rows(lines@)[i as int] == lines@[i as int]@);
        if line.len() == 0 || line[0] == '*' || line[0] == ';' {
        } else if line[0] == '+' {
            let rest = copy_range(line.as_slice(), 1, line.len());
            let tail = trim(rest.as_slice());
            current.push(' ');
            append_chars(&mut current, tail.as_slice());
            assert(current@ =~= logical_scan(rows(lines@), (i + 1) as nat).1);
        } else {
            if current.len() > 0 {
                let ghost before = rows(complete@);
                complete.push(current);
                assert(rows(complete@) =~= before.push(current@));
            }
            current = line;
        }
        i += 1;
    }
    if current.len() > 0 {
        let ghost before = rows(complete@);
        complete.push(current);
        assert(rows(complete@) =~= before.push(current@));
    }
    complete
}

/// The kind of element that a name with this first letter stands for.
fn kind_for(c: char) -> (r: Option<ComponentType>)
    ensures
        r == kind_of_letter(c),
{
    let l = to_lower(c);
    if l == 'r' {
        Some(ComponentType::Resistor)
    } else if l == 'c' {
        Some(ComponentType::Capacitor)
    } else if l == 'l' {
        Some(ComponentType::Inductor)
    } else if l == 'v' {
        Some(ComponentType::VoltageSource)
    } else if l == 'i' {
        Some(ComponentType::CurrentSource)
    } else if l == 'd' {
        Some(ComponentType::Diode)
    } else {
        None
    }
}

/// The place of the word that carries the value of an element.
fn find_value(source: bool, words: &Vec<Vec<char>>) -> (r: Option<usize>)
    ensures
        match r {
            Some(at) => value_place(source, rows(words@)) == Some(at as int) && at < words@.len(),
            None => value_place(source, rows(words@)) is None,
        },
{
    if words.len() < 4 {
        return None;
    }
    assert(rows(words@)[3] == words@[3]@);
    let keyword = words[3].as_slice();
    if source && (word_is(keyword, "dc") || word_is(keyword, "ac")) {
        if words.len() >= 5 {
            Some(4)
        } else {
            None
        }
    } else if source && word_is(keyword, "pulse") {
        if words.len() >= 6 {
            Some(5)
        } else if words.len() == 5 {
            Some(4)
        } else {
            None
        }
    } else {
        Some(3)
    }
}

/// Reads the words of an element line.
fn read_element(words: &Vec<Vec<char>>) -> (r: Result<Component, ParseErrorKind>)
    requires
        words@.len() > 0,
        words@[0]@.len() > 0,
    ensures
        match r {
            Ok(c) => element_of(rows(words@)) matches Ok(e) && is_element(c, e),
            Err(kind) => element_of(rows(words@)) == Err::<Element, ParseErrorKind>(kind),
        },
{
    assert(rows(words@)[0] == words@[0]@);
    let kind = match kind_for(words[0][0]) {
        Some(k) => k,
        None => {
            return Err(ParseErrorKind::UnknownElement);
        },
    };
    if words.len() < 3 {
        return Err(ParseErrorKind::MissingTerminals);
    }
    let at = match find_value(kind.is_source(), words) {
        Some(at) => at,
        None => {
            return Err(ParseErrorKind::MissingValue);
        },
    };
    assert(rows(words@)[at as int] == words@[at as int]@);
    assert(rows(words@)[1] == words@[1]@);
    assert(rows(words@)[2] == words@[2]@);
    let value = match read_value(UnitKind::Value, words[at].as_slice()) {
        Ok(v) => v,
        Err(e) => {
            return Err(ParseErrorKind::BadValue(e));
        },
    };
    let mut nodes: Vec<String> = Vec::new();
    nodes.push(string_of(words[1].as_slice()));
    nodes.push(string_of(words[2].as_slice()));
    Ok(
        Component {
            name: string_of(words[0].as_slice()),
            component_type: kind,
            nodes,
            value,
            model: None,
        },
    )
}

/// The whole number that a word of digits writes.
fn read_count(word: &[char]) -> (r: Option<usize>)
    ensures
        r == count_of(word@),
{
    if word.len() == 0 {
        return None;
    }
    let mut i: usize = 0;
    let mut acc: usize = 0;
    assert(word@.take(0) =~= Seq::<char>::empty());
    while i < word.len()
        invariant
            i <= word@.len(),
            digit_run(word@, 0) == i + digit_run(word@, i as int),
            acc == append_digits(0, word@.take(i as int)),
        decreases word@.len() - i,
    {
        let c = word[i];
        if !(c >= '0' && c <= '9') {
            proof {
                lemma_digit_run_digits(word@, 0);
            }
            return None;
        }
        let d = (c as u8 - 48) as usize;
        proof {
            let next = word@.take(i + 1);
            assert(next.drop_last() =~= word@.take(i as int));
            assert(next.last() == c);
            crate::value::lemma_append_digits_grows(0, word@, i + 1);
        }
        acc = match acc.checked_mul(10) {
            Some(v) => match v.checked_add(d) {
                Some(w) => w,
                None => {
                    return None;
                },
            },
            None => {
                return None;
            },
        };
        i += 1;
    }
    assert(word@.take(i as int) =~= word@);
    Some(acc)
}

/// What a directive line says, in the types of the netlist.
enum Statement {
    End,
    Ignored,
    Analysis(Analysis),
    Parameter(Parameter),
    Element(Component),
}

impl Statement {
    /// Whether the statement is what the line says.
    spec fn is_entry(self, d: Entry) -> bool {
        match (self, d) {
            (Statement::End, Entry::End) => true,
            (Statement::Ignored, Entry::Ignored) => true,
            (Statement::Analysis(a), Entry::Analysis(r)) => is_request(a, r),
            (Statement::Parameter(p), Entry::Parameter { name, value }) => p.name@ == name
                && p.value == value,
            (Statement::Element(c), Entry::Element(e)) => is_element(c, e),
            _ => false,
        }
    }
}

/// Reads the word at `at` as a value of the given kind.
fn read_word(kind: UnitKind, words: &Vec<Vec<char>>, at: usize) -> (r: Result<
    Decimal,
    ParseErrorKind,
>)
    requires
        at < words@.len(),
    ensures
        match r {
            Ok(v) => value_of(kind, rows(words@)[at as int]) == Ok::<Decimal, ValueError>(v),
            Err(k) => value_of(kind, rows(words@)[at as int]) matches Err(e) && k
                == ParseErrorKind::BadValue(e),
        },
{
    assert(rows(words@)[at as int] == words@[at as int]@);
    match read_value(kind, words[at].as_slice()) {
        Ok(v) => Ok(v),
        Err(e) => Err(ParseErrorKind::BadValue(e)),
    }
}

/// Reads the words of a `.tran` line.
fn read_tran(words: &Vec<Vec<char>>) -> (r: Result<Analysis, ParseErrorKind>)
    ensures
        match r {
            Ok(a) => tran_of(rows(words@)) matches Ok(q) && is_request(a, q),
            Err(kind) => tran_of(rows(words@)) == Err::<Request, ParseErrorKind>(kind),
        },
{
    if words.len() < 3 {
        return Err(ParseErrorKind::MalformedDirective);
    }
    let tstep = match read_word(UnitKind::Time, words, 1) {
        Ok(v) => v,
        Err(k) => {
            return Err(k);
        },
    };
    let tstop = match read_word(UnitKind::Time, words, 2) {
        Ok(v) => v,
        Err(k) => {
            return Err(k);
        },
    };
    if words.len() >= 4 {
        match read_word(UnitKind::Time, words, 3) {
            Ok(tstart) => Ok(Analysis::Transient { tstep, tstop, tstart: Some(tstart) }),
            Err(k) => Err(k),
        }
    } else {
        Ok(Analysis::Transient { tstep, tstop, tstart: None })
    }
}

/// Reads the words of a `.dc` line.
fn read_dc(words: &Vec<Vec<char>>) -> (r: Result<Analysis, ParseErrorKind>)
    ensures
        match r {
            Ok(a) => dc_of(rows(words@)) matches Ok(q) && is_request(a, q),
            Err(kind) => dc_of(rows(words@)) == Err::<Request, ParseErrorKind>(kind),
        },
{
    if words.len() < 5 {
        return Err(ParseErrorKind::MalformedDirective);
    }
    let start = match read_word(UnitKind::Value, words, 2) {
        Ok(v) => v,
        Err(k) => {
            return Err(k);
        },
    };
    let stop = match read_word(UnitKind::Value, words, 3) {
        Ok(v) => v,
        Err(k) => {
            return Err(k);
        },
    };
    let step = match read_word(UnitKind::Value, words, 4) {
        Ok(v) => v,
        Err(k) => {
            return Err(k);
        },
    };
    assert(rows(words@)[1] == words@[1]@);
    Ok(Analysis::DcSweep { source: string_of(words[1].as_slice()), start, stop, step })
}

/// Reads the words of an `.ac` line.
fn read_ac(words: &Vec<Vec<char>>) -> (r: Result<Analysis, ParseErrorKind>)
    ensures
        match r {
            Ok(a) => ac_of(rows(words@)) matches Ok(q) && is_request(a, q),
            Err(kind) => ac_of(rows(words@)) == Err::<Request, ParseErrorKind>(kind),
        },
{
    if words.len() < 5 {
        return Err(ParseErrorKind::MalformedDirective);
    }
    assert(rows(words@)[1] == words@[1]@);
    assert(rows(words@)[2] == words@[2]@);
    let sweep = words[1].as_slice();
    if !(word_is(sweep, "lin") || word_is(sweep, "oct") || word_is(sweep, "dec")) {
        return Err(ParseErrorKind::MalformedDirective);
    }
    let points = match read_count(words[2].as_slice()) {
        Some(p) => p,
        None => {
            return Err(ParseErrorKind::MalformedDirective);
        },
    };
    let fstart = match read_word(UnitKind::Value, words, 3) {
        Ok(v) => v,
        Err(k) => {
            return Err(k);
        },
    };
    let fstop = match read_word(UnitKind::Value, words, 4) {
        Ok(v) => v,
        Err(k) => {
            return Err(k);
        },
    };
    let mut lowered: Vec<char> = Vec::new();
    let mut i: usize = 0;
    while i < sweep.len()
        invariant
            i <= sweep@.len(),
            lowered@ == lowercase(sweep@).take(i as int),
        decreases sweep@.len() - i,
    {
        lowered.push(to_lower(sweep[i]));
        i += 1;
        assert(lowered@ =~= lowercase(sweep@).take(i as int));
    }
    assert(lowered@ =~= lowercase(sweep@));
    Ok(Analysis::Ac { points, fstart, fstop, sweep_type: string_of(lowered.as_slice()) })
}

/// Reads the words of a directive line.
fn read_directive(words: &Vec<Vec<char>>) -> (r: Result<Statement, ParseErrorKind>)
    requires
        words@.len() > 0,
    ensures
        match r {
            Ok(s) => directive_of(rows(words@)) matches Ok(d) && s.is_entry(d),
            Err(kind) => directive_of(rows(words@)) == Err::<Entry, ParseErrorKind>(kind),
        },
{
    assert(rows(words@)[0] == words@[0]@);
    let name = words[0].as_slice();
    if word_is(name, ".end") {
        Ok(Statement::End)
    } else if word_is(name, ".op") {
        Ok(Statement::Analysis(Analysis::Operating))
    } else if word_is(name, ".tran") {
        match read_tran(words) {
            Ok(a) => Ok(Statement::Analysis(a)),
            Err(k) => Err(k),
        }
    } else if word_is(name, ".dc") {
        match read_dc(words) {
            Ok(a) => Ok(Statement::Analysis(a)),
            Err(k) => Err(k),
        }
    } else if word_is(name, ".ac") {
        match read_ac(words) {
            Ok(a) => Ok(Statement::Analysis(a)),
            Err(k) => Err(k),
        }
    } else if word_is(name, ".param") {
        if words.len() < 3 {
            return Err(ParseErrorKind::MalformedDirective);
        }
        assert(rows(words@)[1] == words@[1]@);
        match read_word(UnitKind::Value, words, 2) {
            Ok(value) => Ok(
                Statement::Parameter(Parameter { name: string_of(words[1].as_slice()), value }),
            ),
            Err(k) => Err(k),
        }
    } else {
        Ok(Statement::Ignored)
    }
}

/// Reads a line after the title.
fn read_line(line: &[char]) -> (r: Result<Statement, ParseErrorKind>)
    ensures
        match r {
            Ok(s) => entry_of(line@) matches Ok(d) && s.is_entry(d),
            Err(kind) => entry_of(line@) == Err::<Entry, ParseErrorKind>(kind),
        },
{
    let words = split_words(line);
    if words.len() == 0 {
        return Ok(Statement::Ignored);
    }
    assert(rows(words@)[0] == words@[0]@);
    if words[0][0] == '.' {
        read_directive(&words)
    } else {
        match read_element(&words) {
            Ok(c) => Ok(Statement::Element(c)),
            Err(kind) => Err(kind),
        }
    }
}

/// Files what a line says with what the lines before it said.
fn absorb(
    statement: Statement,
    components: &mut Vec<Component>,
    analyses: &mut Vec<Analysis>,
    parameters: &mut Vec<Parameter>,
    ended: &mut bool,
    Ghost(deck): Ghost<Deck>,
    Ghost(entry): Ghost<Entry>,
)
    requires
        statement.is_entry(entry),
        holds_entries(old(components)@, old(analyses)@, old(parameters)@, deck),
        *old(ended) == deck.ended,
    ensures
        holds_entries(
            final(components)@,
            final(analyses)@,
            final(parameters)@,
            with_entry(deck, entry),
        ),
        *final(ended) == with_entry(deck, entry).ended,
{
    match statement {
        Statement::End => {
            *ended = true;
        },
        Statement::Ignored => {},
        Statement::Analysis(a) => {
            analyses.push(a);
        },
        Statement::Parameter(p) => {
            parameters.push(p);
        },
        Statement::Element(c) => {
            components.push(c);
        },
    }
}

/// The strings that spell the given lines.
fn strings_of(lines: &Vec<Vec<char>>) -> (r: Vec<String>)
    ensures
        spelled(r@) == rows(lines@),
{
    let mut out: Vec<String> = Vec::new();
    let mut i: usize = 0;
    while i < lines.len()
        invariant
            i <= lines@.len(),
            out@.len() == i,
            forall|k: int| 0 <= k < i ==> (#[trigger] out@[k])@ == lines@[k]@,
        decreases lines@.len() - i,
    {
        out.push(string_of(lines[i].as_slice()));
        i += 1;
    }
    assert(spelled(out@) =~= rows(lines@));
    out
}

/// The nodes that the components name.
fn harvest_nodes(components: &Vec<Component>) -> (r: Vec<Node>)
    ensures
        r@ == harvest(components@, components@.len()),
{
    let mut scratch = Circuit::new(String::new());
    let mut k: usize = 0;
    assert(scratch.nodes@ =~= harvest(components@, 0));
    while k < components.len()
        invariant
            k <= components@.len(),
            scratch.wf(),
            scratch.nodes@ == harvest(components@, k as nat),
        decreases components@.len() - k,
    {
        scratch.add_nodes(&components[k].nodes);
        k += 1;
    }
    scratch.nodes
}

impl SpiceParser {
    /// A reader.
    pub fn new() -> (r: SpiceParser) {
        SpiceParser {  }
    }

    /// The logical lines of a deck: comments and blank lines dropped,
    /// continuations joined to the line that they continue.
    pub fn preprocess_lines(&self, content: &str) -> (r: Vec<String>)
        ensures
            spelled(r@) == logical_lines(content@),
    {
        let text = chars_of(content);
        let lines = split_lines(text.as_slice());
        let logical = join_lines(&lines);
        strings_of(&logical)
    }

    /// Reads an element line.
    pub fn parse_component_line(&self, line: &str) -> (r: Result<Option<Component>, ParseErrorKind>)
        ensures
            match r {
                Ok(None) => words_of(line@).len() == 0,
                Ok(Some(c)) => {
                    &&& words_of(line@).len() > 0
                    &&& element_of(words_of(line@)) matches Ok(e) && is_element(c, e)
                },
                Err(kind) => words_of(line@).len() > 0 && element_of(words_of(line@)) == Err::<
                    Element,
                    ParseErrorKind,
                >(kind),
            },
    {
        let text = chars_of(line);
        let words = split_words(text.as_slice());
        if words.len() == 0 {
            return Ok(None);
        }
        match read_element(&words) {
            Ok(c) => Ok(Some(c)),
            Err(kind) => Err(kind),
        }
    }

    /// Reads a directive line. A directive that asks for no analysis gives
    /// `None`.
    pub fn parse_analysis_line(&self, line: &str) -> (r: Result<Option<Analysis>, ParseErrorKind>)
        ensures
            match r {
                Ok(Some(a)) => {
                    &&& words_of(line@).len() > 0
                    &&& directive_of(words_of(line@)) matches Ok(Entry::Analysis(q))
                        && is_request(a, q)
                },
                Ok(None) => words_of(line@).len() == 0 || (directive_of(words_of(line@)) matches Ok(
                    d,
                ) && !(d is Analysis)),
                Err(kind) => words_of(line@).len() > 0 && directive_of(words_of(line@)) == Err::<
                    Entry,
                    ParseErrorKind,
                >(kind),
            },
    {
        let text = chars_of(line);
        let words = split_words(text.as_slice());
        if words.len() == 0 {
            return Ok(None);
        }
        match read_directive(&words) {
            Ok(Statement::Analysis(a)) => Ok(Some(a)),
            Ok(_) => Ok(None),
            Err(kind) => Err(kind),
        }
    }

    /// Reads a component value; see [`crate::value::parse_value_with_unit`].
    pub fn parse_value_with_unit(&self, value_str: &str) -> (r: Result<Decimal, ValueError>)
        ensures
            r == value_of(UnitKind::Value, value_str@),
    {
        parse_value_with_unit(value_str)
    }

    /// Reads a time; see [`crate::value::parse_time_with_unit`].
    pub fn parse_time_with_unit(&self, time_str: &str) -> (r: Result<Decimal, ValueError>)
        ensures
            r == value_of(UnitKind::Time, time_str@),
    {
        parse_time_with_unit(time_str)
    }

    /// Reads a deck. The result holds what the deck says up to `.end`, or
    /// names the first line that cannot be read.
    pub fn parse_netlist(&self, content: &str) -> (r: Result<SpiceNetlist, ParseError>)
        ensures
            match r {
                Ok(netlist) => deck_of(content@) matches Ok(deck) && netlist.holds(deck),
                Err(e) => deck_of(content@) == Err::<Deck, ParseError>(e),
            },
    {
        let text = chars_of(content);
        let physical = split_lines(text.as_slice());
        let lines = join_lines(&physical);
        assert(rows(lines@) == logical_lines(content@));
        let mut components: Vec<Component> = Vec::new();
        let mut analyses: Vec<Analysis> = Vec::new();
        let mut parameters: Vec<Parameter> = Vec::new();
        let mut ended = false;
        let title = if lines.len() > 0 {
            assert(rows(lines@)[0] == lines@[0]@);
            string_of(trim(lines[0].as_slice()).as_slice())
        } else {
            String::new()
        };
        let mut k: usize = if lines.len() > 0 { 1 } else { 0 };
        let ghost mut deck = read_lines(rows(lines@), k as nat).unwrap();
        while k < lines.len()
            invariant
                k <= lines@.len(),
                lines@.len() > 0 ==> k >= 1,
                rows(lines@) == logical_lines(content@),
                read_lines(rows(lines@), k as nat) == Ok::<Deck, ParseError>(deck),
                title@ == deck.title,
                ended == deck.ended,
                holds_entries(components@, analyses@, parameters@, deck),
            decreases lines@.len() - k,
        {
            assert(rows(lines@)[k as int] == lines@[k as int]@);
            let ghost next = with_line(deck, lines@[k as int]@, k as nat);
            assert(read_lines(rows(lines@), (k + 1) as nat) == next);
            if !ended {
                match read_line(lines[k].as_slice()) {
                    Err(kind) => {
                        proof {
                            lemma_error_stays(rows(lines@), (k + 1) as nat, lines@.len() as nat);
                        }
                        return Err(ParseError { line: k, kind });
                    },
                    Ok(statement) => {
                        absorb(
                            statement,
                            &mut components,
                            &mut analyses,
                            &mut parameters,
                            &mut ended,
                            Ghost(deck),
                            Ghost(entry_of(lines@[k as int]@).unwrap()),
                        );
                    },
                }
            }
            proof {
                deck = next.unwrap();
            }
            k += 1;
        }
        let nodes = harvest_nodes(&components);
        Ok(SpiceNetlist { title, components, nodes, subcircuits: Vec::new(), parameters, analyses })
    }
}

/// The nodes gathered from the elements hold every node that the elements
/// name.
pub proof fn lemma_harvest_complete(components: Seq<Component>, n: nat)
    requires
        n <= components.len(),
    ensures
        crate::circuit::terminals_known(harvest(components, n), components.take(n as int)),
    decreases n,
{
    if n > 0 {
        lemma_harvest_complete(components, (n - 1) as nat);
        let before = harvest(components, (n - 1) as nat);
        let names = components[n - 1].nodes@;
        assert forall|c: int, t: int|
            0 <= c < n && 0 <= t < components.take(n as int)[c].nodes@.len() implies crate::circuit::has_node(
            harvest(components, n),
            #[trigger] components.take(n as int)[c].nodes@[t]@,
        ) by {
            let name = components[c].nodes@[t]@;
            crate::circuit::lemma_with_nodes(before, names, name);
            if c < n - 1 {
                assert(components.take((n - 1) as int)[c] == components[c]);
                assert(crate::circuit::has_node(before, components.take((n - 1) as int)[c].nodes@[t]@));
            } else {
                assert(names[t]@ == name);
            }
        }
    }
}

impl Default for SpiceParser {
    fn default() -> (r: SpiceParser) {
        SpiceParser::new()
    }
}

} // verus!

use rustsim::circuit::ComponentType;
use rustsim::decimal::Decimal;
use rustsim::parser::{Analysis, ParseError, ParseErrorKind, SpiceParser};
use rustsim::simulator::{count_sweep_points, count_transient_points, SimulationError};
use rustsim::text::{split_lines, split_words, trim};
use rustsim::value::{parse_time_with_unit, parse_value_with_unit, ValueError};

fn decimal(mantissa: u64, exponent: i32) -> Decimal {
    Decimal { negative: false, mantissa, exponent }
}

fn chars(s: &str) -> Vec<char> {
    s.chars().collect()
}

fn text(v: &Vec<char>) -> String {
    v.iter().collect()
}

#[test]
fn every_scale_factor() {
    let table = [
        ("f", -15),
        ("p", -12),
        ("n", -9),
        ("u", -6),
        ("m", -3),
        ("k", 3),
        ("meg", 6),
        ("g", 9),
        ("t", 12),
        ("", 0),
    ];
    for (suffix, exponent) in table {
        let word = format!("1{}", suffix);
        assert_eq!(parse_value_with_unit(&word), Ok(decimal(1, exponent)), "{}", word);
        let upper = word.to_uppercase();
        assert_eq!(parse_value_with_unit(&upper), Ok(decimal(1, exponent)), "{}", upper);
    }
    assert_eq!(parse_value_with_unit("1megohm"), Ok(decimal(1, 6)));
    assert_eq!(parse_value_with_unit("1mA"), Ok(decimal(1, -3)));
    assert_eq!(parse_value_with_unit("1uF"), Ok(decimal(1, -6)));
    assert_eq!(parse_value_with_unit("5V"), Ok(decimal(5, 0)));
    assert_eq!(parse_value_with_unit("2a"), Ok(decimal(2, 0)));
    assert_eq!(parse_value_with_unit("1e3"), Ok(decimal(1, 3)));
    assert_eq!(parse_value_with_unit("1E-3k"), Ok(decimal(1, 0)));
    assert_eq!(parse_value_with_unit(".5"), Ok(decimal(5, -1)));
    assert_eq!(parse_value_with_unit("5."), Ok(decimal(5, 0)));
    assert_eq!(
        parse_value_with_unit("-0.25"),
        Ok(Decimal { negative: true, mantissa: 25, exponent: -2 })
    );
    assert_eq!(parse_value_with_unit("+7"), Ok(decimal(7, 0)));
    assert_eq!(parse_value_with_unit("18446744073709551615"), Ok(decimal(u64::MAX, 0)));
}

#[test]
fn values_that_are_none() {
    for word in ["", ".", "-", "k", "e3", "1 k", "1k5", "1.2.3", "--1"] {
        assert_eq!(parse_value_with_unit(word), Err(ValueError::Malformed), "{:?}", word);
    }
    for word in ["1x", "1ohm", "1e", "1va", "1s"] {
        assert_eq!(parse_value_with_unit(word), Err(ValueError::UnknownUnit), "{:?}", word);
    }
    for word in ["18446744073709551616", "1e2147483648", "1e-2147483649", "1e99999999999999999999999999"] {
        assert_eq!(parse_value_with_unit(word), Err(ValueError::OutOfRange), "{:?}", word);
    }
    assert_eq!(parse_value_with_unit("1e2147483647"), Ok(decimal(1, i32::MAX)));
    assert_eq!(parse_value_with_unit("1e2147483644k"), Ok(decimal(1, i32::MAX)));
    assert_eq!(parse_value_with_unit("1e2147483645k"), Err(ValueError::OutOfRange));
}

#[test]
fn time_units() {
    let table = [("fs", -15), ("ps", -12), ("ns", -9), ("us", -6), ("ms", -3), ("s", 0), ("", 0)];
    for (suffix, exponent) in table {
        let word = format!("3{}", suffix);
        assert_eq!(parse_time_with_unit(&word), Ok(decimal(3, exponent)), "{}", word);
    }
    for word in ["1m", "1k", "1sec", "1mss", "1v"] {
        assert_eq!(parse_time_with_unit(word), Err(ValueError::UnknownUnit), "{:?}", word);
    }
}

#[test]
fn lines_and_words() {
    let lines = split_lines(&chars("a\n\nb c\r\n"));
    let lines: Vec<String> = lines.iter().map(text).collect();
    assert_eq!(lines, vec!["a", "", "b c\r", ""]);
    assert_eq!(text(&trim(&chars("  \t x y \r"))), "x y");
    assert_eq!(text(&trim(&chars(" \t "))), "");
    let words = split_words(&chars("  V1 1,0  PULSE(0 5)=7 "));
    let words: Vec<String> = words.iter().map(text).collect();
    assert_eq!(words, vec!["V1", "1", "0", "PULSE", "0", "5", "7"]);
    assert!(split_words(&chars(" (),= ")).is_empty());
}

#[test]
fn continuations_and_comments() {
    let parser = SpiceParser::new();
    let lines = parser.preprocess_lines("* head\n title \n\n; note\nR1 1 0\n+  1k \n* tail\n.op\n");
    assert_eq!(lines, vec!["title", "R1 1 0 1k", ".op"]);
    let lines = parser.preprocess_lines("+ orphan\nnext");
    assert_eq!(lines, vec![" orphan", "next"]);
    assert!(parser.preprocess_lines("").is_empty());
}

#[test]
fn a_whole_deck() {
    let deck = "My deck\n* comment\nV1 in 0 PULSE(0V 5V 0s 1ns)\nR1 in out 4.7k\n\
                c1 out gnd 100n\nL1 out 0 1m\nI1 0 out AC 2mA\nD1 out 0 1\n\
                .param gain = 2.5k\n.tran 1us 1ms 0\n.dc V1 0 5 0.1\n.ac dec 10 1 1meg\n\
                .options whatever\n.op\n.END\nR9 x y 1\n.bogus\n";
    let netlist = SpiceParser::new().parse_netlist(deck).unwrap();
    assert_eq!(netlist.title, "My deck");
    let names: Vec<&str> = netlist.components.iter().map(|c| c.name.as_str()).collect();
    assert_eq!(names, vec!["V1", "R1", "c1", "L1", "I1", "D1"]);
    assert!(matches!(netlist.components[0].component_type, ComponentType::VoltageSource));
    assert!(matches!(netlist.components[2].component_type, ComponentType::Capacitor));
    assert!(matches!(netlist.components[5].component_type, ComponentType::Diode));
    assert_eq!(netlist.components[0].value, decimal(5, 0));
    assert_eq!(netlist.components[1].value, decimal(47, 2));
    assert_eq!(netlist.components[2].value, decimal(100, -9));
    assert_eq!(netlist.components[4].value, decimal(2, -3));
    assert_eq!(netlist.components[1].nodes, vec!["in", "out"]);
    assert!(netlist.components[1].model.is_none());
    let nodes: Vec<(&str, usize)> = netlist.nodes.iter().map(|n| (n.name.as_str(), n.id)).collect();
    assert_eq!(nodes, vec![("in", 0), ("0", 1), ("out", 2), ("gnd", 3)]);
    assert_eq!(netlist.parameters.len(), 1);
    assert_eq!(netlist.parameters[0].name, "gain");
    assert_eq!(netlist.parameters[0].value, decimal(25, 2));
    assert!(netlist.subcircuits.is_empty());
    assert_eq!(netlist.analyses.len(), 4);
    assert!(matches!(netlist.analyses[0], Analysis::Transient { tstep, tstop, tstart }
        if tstep == decimal(1, -6) && tstop == decimal(1, -3) && tstart == Some(decimal(0, 0))));
    assert!(matches!(netlist.analyses[1], Analysis::DcSweep { ref source, start, stop, step }
        if source == "V1" && start == decimal(0, 0) && stop == decimal(5, 0) && step == decimal(1, -1)));
    assert!(matches!(netlist.analyses[2], Analysis::Ac { points, fstart, fstop, ref sweep_type }
        if points == 10 && fstart == decimal(1, 0) && fstop == decimal(1, 6) && sweep_type == "dec"));
    assert!(matches!(netlist.analyses[3], Analysis::Operating));
}

#[test]
fn the_first_line_is_the_title() {
    let netlist = SpiceParser::new().parse_netlist(".op\nR1 1 0 1\n").unwrap();
    assert_eq!(netlist.title, ".op");
    assert!(netlist.analyses.is_empty());
    assert_eq!(netlist.components.len(), 1);
    let empty = SpiceParser::new().parse_netlist("\n* nothing\n").unwrap();
    assert_eq!(empty.title, "");
    assert!(empty.components.is_empty());
}

#[test]
fn lines_that_cannot_be_read() {
    let parser = SpiceParser::new();
    let fails = |deck: &str| parser.parse_netlist(deck).err().unwrap();
    assert_eq!(
        fails("t\nR1 1 0 1\nX1 1 0 1\n"),
        ParseError { line: 2, kind: ParseErrorKind::UnknownElement }
    );
    assert_eq!(fails("t\nR1 1\n"), ParseError { line: 1, kind: ParseErrorKind::MissingTerminals });
    assert_eq!(fails("t\nR1\n"), ParseError { line: 1, kind: ParseErrorKind::MissingTerminals });
    assert_eq!(fails("t\nR1 1 0\n"), ParseError { line: 1, kind: ParseErrorKind::MissingValue });
    assert_eq!(fails("t\nV1 1 0 DC\n"), ParseError { line: 1, kind: ParseErrorKind::MissingValue });
    assert_eq!(fails("t\nV1 1 0 PULSE()\n"), ParseError { line: 1, kind: ParseErrorKind::MissingValue });
    assert_eq!(
        fails("t\n* c\nR1 1 0 abc\n"),
        ParseError { line: 1, kind: ParseErrorKind::BadValue(ValueError::Malformed) }
    );
    assert_eq!(
        fails("t\nR1 1 0 DC 5\n"),
        ParseError { line: 1, kind: ParseErrorKind::BadValue(ValueError::Malformed) }
    );
    assert_eq!(
        fails("t\nR1 1 0 1q\n"),
        ParseError { line: 1, kind: ParseErrorKind::BadValue(ValueError::UnknownUnit) }
    );
    assert_eq!(fails("t\n.tran 1us\n"), ParseError { line: 1, kind: ParseErrorKind::MalformedDirective });
    assert_eq!(
        fails("t\n.tran 1us 1k\n"),
        ParseError { line: 1, kind: ParseErrorKind::BadValue(ValueError::UnknownUnit) }
    );
    assert_eq!(fails("t\n.dc V1 0 1\n"), ParseError { line: 1, kind: ParseErrorKind::MalformedDirective });
    assert_eq!(fails("t\n.ac lin 1.5 1 2\n"), ParseError { line: 1, kind: ParseErrorKind::MalformedDirective });
    assert_eq!(fails("t\n.ac log 10 1 2\n"), ParseError { line: 1, kind: ParseErrorKind::MalformedDirective });
    assert_eq!(fails("t\n.param x\n"), ParseError { line: 1, kind: ParseErrorKind::MalformedDirective });
    assert!(parser.parse_netlist("t\n.end\nR1\n").is_ok());
}

#[test]
fn single_lines() {
    let parser = SpiceParser::new();
    let r = parser.parse_component_line("r7 a b 10").unwrap().unwrap();
    assert_eq!((r.name.as_str(), r.value), ("r7", decimal(10, 0)));
    assert!(parser.parse_component_line("   ").unwrap().is_none());
    assert_eq!(parser.parse_component_line("Q1 a b 1").err(), Some(ParseErrorKind::UnknownElement));
    assert!(matches!(parser.parse_analysis_line(".OP"), Ok(Some(Analysis::Operating))));
    assert!(matches!(parser.parse_analysis_line(".end"), Ok(None)));
    assert!(matches!(parser.parse_analysis_line(".model x"), Ok(None)));
    assert_eq!(parser.parse_analysis_line(".tran").err(), Some(ParseErrorKind::MalformedDirective));
    assert_eq!(parser.parse_value_with_unit("2k"), Ok(decimal(2, 3)));
    assert_eq!(parser.parse_time_with_unit("2ms"), Ok(decimal(2, -3)));
}

#[test]
fn counting_points() {
    assert_eq!(count_transient_points(decimal(100, -6), decimal(5, -3)), Ok(51));
    assert_eq!(count_transient_points(decimal(3, 0), decimal(10, 0)), Ok(4));
    assert_eq!(count_transient_points(decimal(1, 0), decimal(0, 0)), Ok(1));
    assert_eq!(
        count_transient_points(decimal(1, 0), Decimal { negative: true, mantissa: 5, exponent: 0 }),
        Ok(1)
    );
    assert_eq!(count_transient_points(decimal(0, 0), decimal(1, 0)), Err(SimulationError::InvalidStep));
    assert_eq!(
        count_transient_points(Decimal { negative: true, mantissa: 1, exponent: 0 }, decimal(1, 0)),
        Err(SimulationError::InvalidStep)
    );
    assert_eq!(count_transient_points(decimal(1, -30), decimal(1, 0)), Err(SimulationError::OutOfRange));
    assert_eq!(count_transient_points(decimal(1, 30), decimal(1, 0)), Ok(1));
    assert_eq!(count_sweep_points(decimal(0, 0), decimal(5, 0), decimal(1, -1)), Ok(51));
    assert_eq!(count_sweep_points(decimal(5, 0), decimal(0, 0), decimal(2, 0)), Ok(3));
    assert_eq!(
        count_sweep_points(decimal(0, 0), decimal(1, 0), Decimal { negative: true, mantissa: 5, exponent: -1 }),
        Ok(3)
    );
    assert_eq!(count_sweep_points(decimal(0, 0), decimal(1, 0), decimal(0, 0)), Err(SimulationError::InvalidStep));
    assert_eq!(count_sweep_points(decimal(0, 0), decimal(1, 25), decimal(1, 0)), Err(SimulationError::OutOfRange));
}

#[test]
fn decimal_arithmetic() {
    let a = decimal(15, -1);
    let b = decimal(25, -2);
    assert_eq!(a.plus(&b), Some(decimal(175, -2)));
    assert_eq!(a.minus(&b), Some(decimal(125, -2)));
    assert_eq!(b.minus(&a), Some(Decimal { negative: true, mantissa: 125, exponent: -2 }));
    assert_eq!(a.minus(&a), Some(decimal(0, -1)));
    assert_eq!(decimal(1, 30).plus(&decimal(1, 0)), None);
    assert_eq!(decimal(u64::MAX, 0).plus(&decimal(1, 0)), None);
    assert_eq!(a.times(4), Some(decimal(60, -1)));
    assert_eq!(decimal(u64::MAX, 0).times(2), None);
    assert_eq!(a.negated().times(0), Some(decimal(0, -1)));
    assert!(b.less_than(&a));
    assert!(!a.less_than(&b));
    assert!(!a.less_than(&decimal(1500, -3)));
    assert!(a.negated().less_than(&b));
    assert!(decimal(1, -40).less_than(&decimal(1, 40)));
    assert!(!decimal(1, 40).less_than(&decimal(1, -40)));
    assert!(!decimal(0, 0).less_than(&decimal(0, 0).negated()));
    assert_eq!(decimal(10, 0).floor_ratio(&decimal(3, 0)), Some(3));
    assert_eq!(decimal(1, 0).floor_ratio(&decimal(1, 19)), Some(0));
    assert_eq!(decimal(1, 0).floor_ratio(&decimal(1, 60)), Some(0));
    assert_eq!(decimal(1, 60).floor_ratio(&decimal(1, 0)), None);
    assert_eq!(decimal(1, 0).floor_ratio(&decimal(0, 0)), None);
    assert!(decimal(1, -9).is_positive());
    assert!(!decimal(0, 5).is_positive());
    assert!(decimal(0, 5).is_zero());
    assert_eq!(Decimal::from_integer(7), decimal(7, 0));
}

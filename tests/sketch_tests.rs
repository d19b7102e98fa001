use cheese_shop::call::CallError;
use cheese_shop::sketches::{
    are_we_arguing, confuse, confuse_folded, do_something, how_not_to_be_seen, ive_told_you_once,
    knights_at_camelot, movies, py_defaultvalue, repair_reply, repair_request, report_call_result,
    things_that_float, ArgumentSweep, CallReport, SketchError,
};
use cheese_shop::value::DynamicValue;

fn text(s: &str) -> DynamicValue {
    DynamicValue::Str(s.to_string())
}

#[test]
fn something_completely_different() {
    assert_eq!(do_something(), vec!["And", "now", "for", "something", "completely", "different"]);
}

#[test]
fn the_movies() {
    let m = movies();
    assert_eq!(m[0], ("Monty Python and the Holy Grail".to_string(), 1975));
    assert_eq!(m[1], ("Life of Brian".to_string(), 1979));
    assert_eq!(m[2], ("The Meaning of Life".to_string(), 1983));
}

#[test]
fn argument_clinic() {
    assert_eq!(are_we_arguing(false), "Yes, but it isn't just saying \"No, it isn't.\"");
    assert_eq!(are_we_arguing(true), "If I argue with you, I must take up a contrary position!");
    assert_eq!(ive_told_you_once(None).ok(), Some("Yes I have."));
    assert_eq!(ive_told_you_once(Some("When?".to_string())).ok(), Some("Just now."));
    assert_eq!(ive_told_you_once(Some("You didn't!".to_string())).ok(), Some("I did!"));
    let e = ive_told_you_once(Some("Is this the right room?".to_string()));
    match e {
        Err(err) => {
            assert!(matches!(err, SketchError::NotAllowedToArgue));
            assert_eq!(err.message(), "I'm not allowed to argue any more.");
        }
        Ok(_) => panic!("the argument is over"),
    }
}

#[test]
fn things_that_float_quotes_strings() {
    let lines = things_that_float(&vec![text("Bread"), text("Apples")]);
    assert_eq!(lines, vec!["   \"Bread!\"", "   \"Apples!\""]);
    let lines = things_that_float(&vec![text("A duck"), DynamicValue::Int(3), text("Lead")]);
    assert_eq!(lines, vec!["   \"A duck!\"", "   \"Lead!\""]);
    assert!(things_that_float(&vec![]).is_empty());
}

#[test]
fn knights_at_camelot_lines() {
    let lines = knights_at_camelot(&vec![("Lancelot".to_string(), text("Brave"))]).ok().unwrap();
    assert_eq!(lines, vec!["Sir Lancelot, the Brave"]);
    let lines = knights_at_camelot(&vec![]).ok().unwrap();
    assert_eq!(lines, vec!["King Arthur has no knights. Perhaps that Black Knight guarding the bridge?"]);
    match knights_at_camelot(&vec![("Robin".to_string(), DynamicValue::Int(0))]) {
        Err(CallError::TypeMismatch(n)) => assert_eq!(n, "Robin"),
        _ => panic!("an epithet is a string"),
    }
}

#[test]
fn call_results_are_reported() {
    match report_call_result(&text("Bloody vikings")) {
        CallReport::Line(l) => assert_eq!(l, "Got a string value: 'Bloody vikings'"),
        _ => panic!(),
    }
    match report_call_result(&DynamicValue::Int(-42)) {
        CallReport::Line(l) => assert_eq!(l, "Got an integral value: -42"),
        _ => panic!(),
    }
    assert!(matches!(report_call_result(&DynamicValue::Float(1.618f64.to_bits())), CallReport::Real));
    assert!(matches!(report_call_result(&DynamicValue::Null), CallReport::Other));
    match report_call_result(&DynamicValue::Bool(true)) {
        CallReport::Line(l) => assert_eq!(l, "Got an integral value: 1"),
        _ => panic!("a boolean is an integer"),
    }
}

#[test]
fn sweep_visits_every_pair() {
    let mut sweep = ArgumentSweep::new(3, 4);
    let mut seen = vec![];
    let mut reported = vec![];
    while let Some((i, j)) = sweep.pending() {
        seen.push((i, j));
        let answer = DynamicValue::Bool(i == j);
        if let Some(line) = sweep.record(&answer).ok().unwrap() {
            reported.push(line);
        }
    }
    assert_eq!(seen, vec![(1, 1), (1, 2), (1, 3), (2, 2), (2, 3)]);
    assert_eq!(reported, vec!["func(1, 1) is true", "func(2, 2) is true"]);
    assert_eq!(ArgumentSweep::new(1, 5).pending(), None);
    assert_eq!(ArgumentSweep::new(5, 1).pending(), None);
}

#[test]
fn sweep_stops_on_non_bool() {
    let mut sweep = ArgumentSweep::new(3, 3);
    match sweep.record(&DynamicValue::Int(1)) {
        Err(e) => assert_eq!(e.message(), "func({}, {}) didn't return a bool!"),
        Ok(_) => panic!("not a bool"),
    }
    assert_eq!(sweep.pending(), None);
    assert_eq!(sweep.record(&DynamicValue::Bool(true)).ok(), Some(None));
    assert_eq!(sweep.pending(), None);
}

#[test]
fn repair_shop_callback() {
    assert_eq!(repair_request(), vec!["bicycle", "repair", "man"]);
    assert_eq!(repair_reply(&text("Mr Mousebender")), "Your function returned the string 'Mr Mousebender'");
    assert_eq!(repair_reply(&DynamicValue::Int(1)), "Your function returned some non-string value");
}

#[test]
fn hiding_places() {
    let prefix = "Mr. Nesbitt has chosen a very obvious piece of cover behind that ";
    assert_eq!(how_not_to_be_seen(&text("bush")), Some(format!("{prefix}string")));
    assert_eq!(how_not_to_be_seen(&DynamicValue::Int(3)), Some(format!("{prefix}integer")));
    assert_eq!(how_not_to_be_seen(&DynamicValue::Mapping(vec![])), Some(format!("{prefix}dictionary")));
    assert_eq!(how_not_to_be_seen(&DynamicValue::Tuple(vec![])), None);
    assert_eq!(how_not_to_be_seen(&DynamicValue::Bool(true)), Some(format!("{prefix}integer")));
}

#[test]
fn confuse_makes_values() {
    assert!(matches!(confuse("INT"), Ok(DynamicValue::Int(123))));
    match confuse("Float") {
        Ok(DynamicValue::Float(bits)) => assert_eq!(f64::from_bits(bits), 6.18),
        _ => panic!(),
    }
    match confuse("dict") {
        Ok(DynamicValue::Mapping(entries)) => {
            let keys: Vec<&str> = entries.iter().map(|e| e.0.as_str()).collect();
            assert_eq!(keys, vec!["int", "float", "str", "bool", "none"]);
        }
        _ => panic!(),
    }
    match confuse("Set") {
        Ok(DynamicValue::SetOf(items)) => assert_eq!(items.len(), 6),
        _ => panic!(),
    }
    match confuse("Module") {
        Err(e) => assert_eq!(e.message(), "Meow. Not sure what to do with module"),
        Ok(_) => panic!(),
    }
    assert!(confuse_folded("LIST").is_err());
    assert!(matches!(confuse_folded("list"), Ok(DynamicValue::Sequence(_))));
}

#[test]
fn default_value_line() {
    assert_eq!(py_defaultvalue(123), "received n = 123");
}

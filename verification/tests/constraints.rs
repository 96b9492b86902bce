//! Conditions on the parameters of kernels.
use uzu_engine::build::constraints::{
    Constraints, Evaluation, Refusal, decide, namespaces_of, scope_of, unqualify_variant,
};
use uzu_engine::build::expression::check_plain;

fn strings(values: &[&str]) -> Vec<String> {
    values.iter().map(|value| value.to_string()).collect()
}

fn bindings(values: &[(&str, &str)]) -> Vec<(String, String)> {
    values.iter().map(|(name, value)| (name.to_string(), value.to_string())).collect()
}

#[test]
fn variants_are_named_without_their_path() {
    assert_eq!(unqualify_variant("a::b::C"), "C");
    assert_eq!(unqualify_variant("C"), "C");
    assert_eq!(unqualify_variant("a::"), "");
    assert_eq!(unqualify_variant("a:::b"), "b");
}

#[test]
fn namespaces_are_ordered_and_list_each_name_once() {
    let namespaces = namespaces_of(&strings(&["B::y", "A::x", "B::x", "B::y", "4"]));
    assert_eq!(
        namespaces,
        vec![
            ("A".to_string(), strings(&["x"])),
            ("B".to_string(), strings(&["x", "y"])),
        ]
    );
}

#[test]
fn conditions_speak_of_parameters_and_variants() {
    let values = strings(&["Mode::Fast", "Mode::Exact", "1", "2"]);
    let constraints =
        Constraints::new(&values, &strings(&["MODE == Mode::Fast || N > 1"])).unwrap();
    let ask = |mode: &str, n: &str| constraints.satisfied(&bindings(&[("MODE", mode), ("N", n)]));
    assert_eq!(ask("Mode::Fast", "1"), Ok(true));
    assert_eq!(ask("Mode::Exact", "2"), Ok(true));
    assert_eq!(ask("Mode::Exact", "1"), Ok(false));
}

#[test]
fn conditions_on_missing_parameters_may_still_hold() {
    let constraints = Constraints::new(&[], &strings(&["A < B", "A > 1"])).unwrap();
    assert_eq!(constraints.could_satisfy(&bindings(&[("A", "2")])), Ok(true));
    assert_eq!(constraints.could_satisfy(&bindings(&[("A", "1")])), Ok(false));
    assert_eq!(constraints.satisfied(&bindings(&[("A", "2")])), Err(Refusal::Condition(0)));
    assert_eq!(constraints.satisfied(&bindings(&[("A", "2"), ("B", "3")])), Ok(true));
}

#[test]
fn conditions_that_are_none_are_refused() {
    assert_eq!(Constraints::new(&[], &strings(&["A < 1", "A <"])).err(), Some(1));
    let constraints = Constraints::new(&[], &strings(&["A + 1"])).unwrap();
    assert_eq!(constraints.satisfied(&bindings(&[("A", "2")])), Err(Refusal::Condition(0)));
    assert_eq!(constraints.could_satisfy(&bindings(&[("A", "2")])), Err(Refusal::Condition(0)));
    let none = Constraints::new(&[], &[]).unwrap();
    assert_eq!(none.satisfied(&[]), Ok(true));
}

#[test]
fn texts_that_run_something_are_refused() {
    let plain = [
        "A == 1 && !(B || C != (2 + 3))",
        "A in [1, 2] || ! (B)",
        "T == \"f32\" && N % 4 == 0 && N / 2 > 1",
        "min(A, B) == 1 && T.len() > 2 && max (1 , 2) == 2",
        "Mode::Fast == MODE",
        "x in 0..4",
        "",
        "T == \"{sleep(1)} `${loop {}}` /* // #{\"",
        "T == \"a\\\"(b\" || T == \"a\"\"(b\"",
        "T == '{' || T == '\\'' || T == '\"' || T == '('",
        "T == `{sleep(1)} $ \"` || T == #\"sleep(1) \" `\"#",
        "A /* sleep(1) /* { */ } */ == 1 // eval(\"\") {",
        "A == // sleep(1)\r (1)",
        "min /* of */ (A, B) == 1",
        "T[0] == 'f' && T[0..2] == \"f3\" && [1, 2][A] == 2 && \"abc\"[5..2] == \"\"",
        "A in 0..(B + 1) && (A ?? (B)) == 1",
        "A.is_even() && sign(A) == 1 && T.to_upper().sub_string(1) == \"32\"",
        "parse_int(T.sub_string(1)).to_float().sqrt().floor().to_int() == 5",
    ];
    for text in plain {
        assert!(check_plain(text), "{text}");
    }
    let running = [
        "sleep(1.0e300)",
        "sleep (1)",
        "sleep!(1)",
        "sleep\u{a0}(1)",
        "sleep/**/(1)",
        "sleep // \n (1)",
        "eval(\"loop {}\")",
        "`${loop {}}`",
        "Fn(\"sleep\").call(1)",
        "#{a: 1}",
        "##\"a\"##",
        "`a``${loop {}}`",
        "\"a\" == sleep(1)",
        "\"a\\\\\" == sleep(1)",
        "'\"' == sleep(1) || '\"' == A",
        "`\"` == sleep(1)",
        "#\"`\"# == sleep(1)",
        "// A\rsleep(1)",
        "/* /* */ */ sleep(1)",
        "/*/ */ sleep(1)",
        "(sleep)(1)",
        "A.call(1)",
        "[1].map(\"sleep\")",
        "{ 1 }",
        "blob(9223372036854775807)",
    ];
    for text in running {
        assert!(!check_plain(text), "{text}");
        assert_eq!(Constraints::new(&[], &strings(&["A < 1", text])).err(), Some(1), "{text}");
    }
    let constraints = Constraints::new(&[], &strings(&["A < 2"])).unwrap();
    let bound = bindings(&[("A", "1"), ("B", "x::sleep(9)")]);
    assert_eq!(constraints.satisfied(&bound), Err(Refusal::Value(1)));
    assert_eq!(constraints.could_satisfy(&bound), Err(Refusal::Value(1)));
    let none = Constraints::new(&[], &[]).unwrap();
    assert_eq!(none.satisfied(&bound), Ok(true));
}

#[test]
fn inspections_are_evaluated() {
    let conditions = strings(&["min(A, 3) == 3 && T.starts_with(\"f\") && len(T) == 3", "A in [5, 6]"]);
    let constraints = Constraints::new(&[], &conditions).unwrap();
    let ask = |a: &str, t: &str| constraints.satisfied(&bindings(&[("A", a), ("T", t)]));
    assert_eq!(ask("5", "f32"), Ok(true));
    assert_eq!(ask("4", "f32"), Ok(false));
    assert_eq!(ask("5", "bf16"), Ok(false));
}

#[test]
fn outcomes_are_weighed_in_order() {
    let (yes, no) = (Evaluation::Satisfied, Evaluation::Unsatisfied);
    let (unknown, failed) = (Evaluation::UnknownVariable, Evaluation::Failed);
    assert_eq!(decide(&[yes, no, failed], false), Ok(false));
    assert_eq!(decide(&[yes, failed, no], false), Err(1));
    assert_eq!(decide(&[unknown, yes], true), Ok(true));
    assert_eq!(decide(&[unknown, yes], false), Err(0));
    assert_eq!(decide(&[], false), Ok(true));
}

#[test]
fn bindings_lose_the_paths_of_their_values() {
    assert_eq!(
        scope_of(&bindings(&[("A", "Mode::Fast"), ("B", "4")])),
        bindings(&[("A", "Fast"), ("B", "4")])
    );
}

#[test]
fn texts_and_comments_are_passed_over() {
    let conditions = strings(&[
        "T == \"{(`\" || A /* sleep(1) */ == 2 // {",
        "T != `a \"b\" (c)` && #\"(\"# != '{'",
        "A.is_even() && sign(A - 3) == -1 && T.to_upper()[0] in ['{', 'F']",
    ]);
    let constraints = Constraints::new(&[], &conditions).unwrap();
    let ask = |a: &str, t: &str| constraints.satisfied(&bindings(&[("A", a), ("T", t)]));
    assert_eq!(ask("2", "f32"), Ok(true));
    assert_eq!(ask("0", "f32"), Ok(false));
    assert_eq!(ask("0", "\"{(`\""), Ok(true));
    assert_eq!(ask("2", "bf16"), Ok(false));
}

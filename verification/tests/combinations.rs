//! Enumeration of kernel instances.
use uzu_engine::build::constraints::Constraints;
use std::cell::RefCell;

use uzu_engine::build::metal::predicate::Predicate;
use uzu_engine::build::metal::variant_combinations::{constrained_combinations, search_combinations};

#[test]
fn all_combinations_are_listed_in_order() {
    assert_eq!(
        constrained_combinations(&[2, 3], |_, _| true),
        vec![vec![0, 0], vec![0, 1], vec![0, 2], vec![1, 0], vec![1, 1], vec![1, 2]]
    );
    assert_eq!(constrained_combinations(&[], |_, complete| complete), vec![Vec::<usize>::new()]);
    assert!(constrained_combinations(&[2, 0], |_, _| true).is_empty());
    assert!(constrained_combinations(&[2, 3], |_, _| false).is_empty());
}

#[test]
fn pruning_loses_no_combination() {
    let sum = |bindings: &[Option<usize>], _| {
        bindings.iter().flatten().sum::<usize>() <= 2
    };
    let combinations = constrained_combinations(&[4, 2, 3], sum);
    let mut expected = Vec::new();
    for a in 0..4 {
        for b in 0..2 {
            for c in 0..3 {
                if a + b + c <= 2 {
                    expected.push(vec![a, b, c]);
                }
            }
        }
    }
    assert_eq!(combinations, expected);
}

#[test]
fn conditions_prune_as_soon_as_they_can() {
    let values: Vec<String> = ["1", "2", "4"].iter().map(|value| value.to_string()).collect();
    let names = ["A", "B"];
    let constraints = Constraints::new(&values, &["A * B <= 4".to_string()]).unwrap();
    let combinations = constrained_combinations(&[3, 3], |bindings, complete| {
        let bound: Vec<(String, String)> = bindings
            .iter()
            .enumerate()
            .filter_map(|(axis, index)| {
                index.map(|index| (names[axis].to_string(), values[index].clone()))
            })
            .collect();
        if complete {
            constraints.satisfied(&bound).unwrap()
        } else {
            constraints.could_satisfy(&bound).unwrap()
        }
    });
    assert_eq!(
        combinations,
        vec![vec![0, 0], vec![0, 1], vec![0, 2], vec![1, 0], vec![1, 1], vec![2, 0]]
    );
}

#[test]
fn what_lies_below_a_refusal_is_never_asked() {
    let asked: RefCell<Vec<(Vec<Option<usize>>, bool)>> = RefCell::new(Vec::new());
    let mut predicate = Predicate::new(|bindings: &[Option<usize>], complete: bool| {
        asked.borrow_mut().push((bindings.to_vec(), complete));
        bindings[1] != Some(0) && bindings[0] != Some(1)
    });
    assert_eq!(search_combinations(&[3, 2], &mut predicate), vec![vec![0, 1], vec![2, 1]]);
    assert_eq!(
        asked.into_inner(),
        vec![
            (vec![None, None], false),
            (vec![None, Some(0)], false),
            (vec![None, Some(1)], false),
            (vec![Some(0), Some(1)], true),
            (vec![Some(1), Some(1)], true),
            (vec![Some(2), Some(1)], true),
        ]
    );
}

#[test]
fn no_axes_are_asked_about_once() {
    let asked: RefCell<Vec<(Vec<Option<usize>>, bool)>> = RefCell::new(Vec::new());
    let combinations = constrained_combinations(&[], |bindings: &[Option<usize>], complete: bool| {
        asked.borrow_mut().push((bindings.to_vec(), complete));
        true
    });
    assert_eq!(combinations, vec![Vec::<usize>::new()]);
    assert_eq!(asked.into_inner(), vec![(Vec::new(), true)]);
}

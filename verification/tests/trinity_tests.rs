use steps::Solver;
use steps::Trinity;

#[test]
fn rotate_cycles_in_three_steps() {
    let mut t = Trinity { a: 1, b: 2, c: 3 };
    t.rotate();
    assert_eq!(t, Trinity { a: 2, b: 3, c: 1 });
    t.rotate();
    assert_eq!(t, Trinity { a: 3, b: 1, c: 2 });
    t.rotate();
    assert_eq!(t, Trinity { a: 1, b: 2, c: 3 });
}

#[test]
fn resolve_keeps_only_unsolvable_trinities() {
    let mut s = Solver {
        expected: Trinity { a: 1, b: 2, c: 3 },
        unsolved: vec![
            Trinity { a: 1, b: 2, c: 3 },
            Trinity { a: 2, b: 1, c: 3 },
            Trinity { a: 2, b: 3, c: 1 },
            Trinity { a: 3, b: 1, c: 2 },
        ],
    };
    s.resolve();
    // Three of the four are the expected trinity up to rotation; only the
    // genuinely different one stays, unchanged.
    assert_eq!(s.unsolved, vec![Trinity { a: 2, b: 1, c: 3 }]);
}

#[test]
fn resolve_keeps_order_of_survivors() {
    let mut s = Solver {
        expected: Trinity { a: 1, b: 2, c: 3 },
        unsolved: vec![
            Trinity { a: 9, b: 9, c: 9 },
            Trinity { a: 3, b: 1, c: 2 },
            Trinity { a: 2, b: 1, c: 3 },
        ],
    };
    s.resolve();
    assert_eq!(
        s.unsolved,
        vec![Trinity { a: 9, b: 9, c: 9 }, Trinity { a: 2, b: 1, c: 3 }]
    );
}

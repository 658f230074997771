use ochd::make_semitransparent::{
    alpha_multiply, alpha_stack, create_alpha_multiplication_table, create_alpha_stacking_table,
};

#[test]
fn test_alpha_multiplication_table() {
    let table = create_alpha_multiplication_table();
    for first in 0..=u8::MAX {
        assert_eq!(table[0][first as usize], 0);
        assert_eq!(table[u8::MAX as usize][first as usize], first);
        for second in first..=u8::MAX {
            assert_eq!(table[first as usize][second as usize], table[second as usize][first as usize]);
        }
    }
}

#[test]
fn test_alpha_stacking_table() {
    let table = create_alpha_stacking_table();
    for first in 0..=u8::MAX {
        assert_eq!(table[0][first as usize], first);
        assert_eq!(table[first as usize][u8::MAX as usize], u8::MAX);
        for second in first..=u8::MAX {
            assert_eq!(table[first as usize][second as usize], table[second as usize][first as usize]);
        }
    }
}

#[test]
fn multiplication_rounds_to_nearest() {
    assert_eq!(alpha_multiply(128, 128), 64);
    assert_eq!(alpha_multiply(255, 37), 37);
    assert_eq!(alpha_multiply(1, 126), 0);
    assert_eq!(alpha_multiply(1, 127), 1);
    let table = create_alpha_multiplication_table();
    assert_eq!(table[200][100], alpha_multiply(200, 100));
}

#[test]
fn stacking_adds_the_uncovered_part() {
    assert_eq!(alpha_stack(128, 128), 128 + 64);
    assert_eq!(alpha_stack(0, 77), 77);
    assert_eq!(alpha_stack(255, 0), 255);
    let table = create_alpha_stacking_table();
    assert_eq!(table[100][50], alpha_stack(100, 50));
}

use fast_distances::{cost_matrix, identity_matrix, ones_vector, sign};

#[test]
fn test_sign_f64() {
    assert_eq!(sign(-3.5, 0.0), -1); // Negative number
    assert_eq!(sign(0.0, 0.0), 1); // Zero
    assert_eq!(sign(4.5, 0.0), 1); // Positive number
}

#[test]
fn test_sign_f32() {
    assert_eq!(sign(-2.7f32, 0.0f32), -1); // Negative number
    assert_eq!(sign(0.0f32, 0.0f32), 1); // Zero
    assert_eq!(sign(3.3f32, 0.0f32), 1); // Positive number
}

#[test]
fn test_sign_i32() {
    assert_eq!(sign(-10, 0), -1); // Negative number
    assert_eq!(sign(0, 0), 1); // Zero
    assert_eq!(sign(25, 0), 1); // Positive number
}

#[test]
fn test_sign_edge_cases() {
    // Test with large values
    assert_eq!(sign(f64::INFINITY, 0.0), 1); // Positive infinity
    assert_eq!(sign(f64::NEG_INFINITY, 0.0), -1); // Negative infinity
    assert_eq!(sign(f64::NAN, 0.0), 1); // NaN (Not a Number), treated as non-negative
}

#[test]
fn test_identity_matrix_f64() {
    let n = 3;
    let identity = identity_matrix::<f64>(n, 0.0, 1.0);

    // Assert diagonal elements are 1.0 and others are 0.0
    for i in 0..n {
        for j in 0..n {
            if i == j {
                assert_eq!(
                    identity[i][j],
                    1.0,
                    "Diagonal element at ({}, {}) should be 1.0",
                    i,
                    j
                );
            } else {
                assert_eq!(
                    identity[i][j],
                    0.0,
                    "Off-diagonal element at ({}, {}) should be 0.0",
                    i,
                    j
                );
            }
        }
    }
}

#[test]
fn test_identity_matrix_f32() {
    let n = 2;
    let identity = identity_matrix::<f32>(n, 0.0, 1.0);

    // Assert diagonal elements are 1.0 and others are 0.0
    for i in 0..n {
        for j in 0..n {
            if i == j {
                assert_eq!(
                    identity[i][j],
                    1.0,
                    "Diagonal element at ({}, {}) should be 1.0",
                    i,
                    j
                );
            } else {
                assert_eq!(
                    identity[i][j],
                    0.0,
                    "Off-diagonal element at ({}, {}) should be 0.0",
                    i,
                    j
                );
            }
        }
    }
}

#[test]
fn test_ones_vector_f64() {
    let n = 4;
    let ones = ones_vector::<f64>(n, 1.0);

    // Assert all elements are 1.0
    for i in 0..n {
        assert_eq!(ones[i], 1.0, "Element at index {} should be 1.0", i);
    }
}

#[test]
fn test_ones_vector_f32() {
    let n = 3;
    let ones = ones_vector::<f32>(n, 1.0);

    // Assert all elements are 1.0
    for i in 0..n {
        assert_eq!(ones[i], 1.0, "Element at index {} should be 1.0", i);
    }
}

#[test]
fn test_cost_matrix_f64() {
    let n = 3;
    let cost = cost_matrix::<f64>(n, 0.0, 1.0);
    let identity = identity_matrix::<f64>(n, 0.0, 1.0);

    // Assert that cost matrix is 1.0 - identity matrix
    for i in 0..n {
        for j in 0..n {
            assert_eq!(
                cost[i][j],
                1.0 - identity[i][j],
                "Element at ({}, {}) should be 1.0 - identity",
                i,
                j
            );
        }
    }
}

#[test]
fn test_cost_matrix_f32() {
    let n = 2;
    let cost = cost_matrix::<f32>(n, 0.0, 1.0);
    let identity = identity_matrix::<f32>(n, 0.0, 1.0);

    // Assert that cost matrix is 1.0 - identity matrix
    for i in 0..n {
        for j in 0..n {
            assert_eq!(
                cost[i][j],
                1.0 - identity[i][j],
                "Element at ({}, {}) should be 1.0 - identity",
                i,
                j
            );
        }
    }
}

#[test]
fn test_identity_matrix_1x1_f64() {
    let n = 1;
    let identity = identity_matrix::<f64>(n, 0.0, 1.0);

    // Assert that it is a 1x1 matrix with 1.0
    assert_eq!(identity[0][0], 1.0);
}

#[test]
fn test_identity_matrix_1x1_f32() {
    let n = 1;
    let identity = identity_matrix::<f32>(n, 0.0, 1.0);

    // Assert that it is a 1x1 matrix with 1.0
    assert_eq!(identity[0][0], 1.0);
}

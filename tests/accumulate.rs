use vector_distances::accumulate::{fold_pairs, fold_weighted};

#[test]
fn fold_pairs_visits_indices_in_order() {
    let a: Vec<u64> = vec![1, 2, 3];
    let b: Vec<u64> = vec![4, 5, 6];
    let r = fold_pairs(&a, &b, 0u64, |acc: u64, x: u64, y: u64| acc * 100 + x * 10 + y);
    assert_eq!(r, 142536);
}

#[test]
fn fold_pairs_of_empty_vectors_is_the_initial_value() {
    let a: Vec<f64> = Vec::new();
    let r = fold_pairs(&a, &a, 1.5, |acc: f64, x: f64, y: f64| acc + x * y);
    assert_eq!(r, 1.5);
}

#[test]
fn fold_pairs_sums_squared_differences() {
    let a: Vec<f64> = vec![1.0, 2.0, 3.0, 4.0];
    let b: Vec<f64> = vec![3.0, 1.0, 4.0, 2.0];
    let sum = fold_pairs(&a, &b, 0.0, |acc: f64, x: f64, y: f64| acc + (x - y).powf(2.0));
    assert_eq!(sum, 10.0);
    assert_eq!(sum.sqrt(), 3.1622776601683795);
    assert_eq!((sum / 4.0).sqrt(), 1.5811388300841898);
}

#[test]
fn fold_pairs_sums_absolute_differences() {
    let a: Vec<f64> = vec![1.0, 2.0, 3.0, 4.0];
    let b: Vec<f64> = vec![3.0, 1.0, 4.0, 2.0];
    let sum = fold_pairs(&a, &b, 0.0, |acc: f64, x: f64, y: f64| acc + (x - y).abs());
    assert_eq!(sum, 6.0);
}

#[test]
fn fold_weighted_scales_each_term() {
    let a: Vec<f64> = vec![1.0, 2.0, 3.0, 4.0];
    let b: Vec<f64> = vec![3.0, 1.0, 4.0, 2.0];
    let w: Vec<f64> = vec![0.2, 0.4, 0.6, 0.8];
    let sq = fold_weighted(&a, &b, &w, 0.0, |acc: f64, x: f64, y: f64, z: f64| {
        acc + z * (x - y).powf(2.0)
    });
    assert_eq!(sq.sqrt(), 2.23606797749979);
    let abs = fold_weighted(&a, &b, &w, 0.0, |acc: f64, x: f64, y: f64, z: f64| {
        acc + z * (x - y).abs()
    });
    assert_eq!(abs, 3.0);
}

#[test]
fn fold_weighted_visits_indices_in_order() {
    let a: Vec<u64> = vec![1, 2];
    let b: Vec<u64> = vec![3, 4];
    let w: Vec<u64> = vec![5, 6];
    let r = fold_weighted(&a, &b, &w, 9u64, |acc: u64, x: u64, y: u64, z: u64| {
        acc * 1000 + x * 100 + y * 10 + z
    });
    assert_eq!(r, 9135246);
}

#[test]
fn fold_pairs_gathers_cosine_terms() {
    let a: Vec<f64> = vec![1.0, 2.0, 3.0, 4.0];
    let b: Vec<f64> = vec![3.0, 1.0, 4.0, 2.0];
    let (dot, left, right) = fold_pairs(
        &a,
        &b,
        (0.0, 0.0, 0.0),
        |(d, l, r): (f64, f64, f64), x: f64, y: f64| (d + x * y, l + x.powf(2.0), r + y.powf(2.0)),
    );
    assert_eq!((dot, left, right), (25.0, 30.0, 30.0));
    assert_eq!(1.0 - dot / (left.sqrt() * right.sqrt()), 0.16666666666666663);
}

#[test]
fn fold_weighted_gathers_cosine_terms() {
    let a: Vec<f64> = vec![1.0, 2.0, 3.0, 4.0];
    let b: Vec<f64> = vec![3.0, 1.0, 4.0, 2.0];
    let w: Vec<f64> = vec![0.2, 0.4, 0.6, 0.8];
    let (dot, left, right) = fold_weighted(
        &a,
        &b,
        &w,
        (0.0, 0.0, 0.0),
        |(d, l, r): (f64, f64, f64), x: f64, y: f64, z: f64| {
            (d + z * x * y, l + z * x.powf(2.0), r + z * y.powf(2.0))
        },
    );
    assert_eq!(1.0 - dot / (left.sqrt() * right.sqrt()), 0.1339745962155614);
}

use daw_modules::waveform::levels::{build_mipmap_levels, halve_bins};

fn lo(a: i32, b: i32) -> i32 {
    a.min(b)
}

fn hi(a: i32, b: i32) -> i32 {
    a.max(b)
}

#[test]
fn halving_merges_pairs_and_carries_the_odd_bin() {
    let (m, x) = halve_bins(&vec![3, 1, 4, 1, 5], &vec![9, 2, 6, 5, 3], &lo, &hi);
    assert_eq!(m, vec![1, 1, 5]);
    assert_eq!(x, vec![9, 6, 3]);
}

#[test]
fn halving_follows_the_low_bins() {
    let (m, x) = halve_bins(&vec![2, 7], &vec![8, 9, 10], &lo, &hi);
    assert_eq!(m, vec![2]);
    assert_eq!(x, vec![9]);
    let (m, x) = halve_bins(&Vec::new(), &vec![1], &lo, &hi);
    assert!(m.is_empty() && x.is_empty());
}

#[test]
fn pyramid_of_eight_bins() {
    let mins = vec![vec![-1.0f32, -0.5, -0.25, -0.75, -0.1, -0.2, -0.3, -0.4]];
    let maxs = vec![vec![1.0f32, 0.5, 0.25, 0.75, 0.1, 0.2, 0.3, 0.4]];
    let levels = build_mipmap_levels(1, mins.clone(), maxs.clone(), &|a: f32, b: f32| a.min(b), &|a: f32, b: f32| a.max(b));
    let sizes: Vec<usize> = levels.iter().map(|l| l.min[0].len()).collect();
    assert_eq!(sizes, vec![8, 4, 2, 1]);
    assert_eq!(levels[0].min, mins);
    assert_eq!(levels[1].min[0], vec![-1.0, -0.75, -0.2, -0.4]);
    assert_eq!(levels[1].max[0], vec![1.0, 0.75, 0.2, 0.4]);
    assert_eq!(levels[2].min[0], vec![-1.0, -0.4]);
    assert_eq!(levels[2].max[0], vec![1.0, 0.4]);
    assert_eq!(levels[3].min[0], vec![-1.0]);
    assert_eq!(levels[3].max[0], vec![1.0]);
}

#[test]
fn pyramid_stops_at_one_bin() {
    let levels = build_mipmap_levels(2, vec![vec![5], vec![6]], vec![vec![7], vec![8]], &lo, &hi);
    assert_eq!(levels.len(), 1);
    let levels = build_mipmap_levels(1, vec![vec![5, 1]], vec![vec![7, 9]], &lo, &hi);
    let sizes: Vec<usize> = levels.iter().map(|l| l.min[0].len()).collect();
    assert_eq!(sizes, vec![2, 1]);
    assert_eq!(levels[1].max[0], vec![9]);
}

#[test]
fn pyramid_of_five_bins_keeps_two_channels() {
    let levels = build_mipmap_levels(
        2,
        vec![vec![1, 2, 3, 4, 5], vec![5, 4, 3, 2, 1]],
        vec![vec![1, 2, 3, 4, 5], vec![5, 4, 3, 2, 1]],
        &lo,
        &hi,
    );
    let sizes: Vec<usize> = levels.iter().map(|l| l.min[0].len()).collect();
    assert_eq!(sizes, vec![5, 3, 2]);
    assert_eq!(levels[2].min[1], vec![2, 1]);
    assert_eq!(levels[2].max[0], vec![4, 5]);
}

use rsona::utils::logging::{init, init_debug, init_verbose};
use rsona::utils::parallel::{adaptive_map, auto_map};

#[test]
fn test_init_does_not_panic() {
    init();
}

#[test]
fn test_adaptive_map_sequential() {
    let result = adaptive_map(5, 10, |i| i * 2);
    assert_eq!(result, vec![0, 2, 4, 6, 8]);
}

#[test]
fn test_adaptive_map_parallel() {
    let result = adaptive_map(20, 10, |i| i * 2);
    assert_eq!(result.len(), 20);
    assert_eq!(result[10], 20);
}

#[test]
fn test_auto_map() {
    let result = auto_map(15, |i| i + 1);
    assert_eq!(result.len(), 15);
    assert_eq!(result[0], 1);
    assert_eq!(result[14], 15);
}

#[test]
fn test_empty_input() {
    let result = auto_map(0, |i| i);
    assert_eq!(result.len(), 0);
}

#[test]
fn parallel_and_sequential_agree() {
    let seq = adaptive_map(200, 1000, |i| i * i);
    let par = adaptive_map(200, 0, |i| i * i);
    assert_eq!(seq, par);
    assert_eq!(par[199], 199 * 199);
}

#[test]
fn repeated_init_keeps_the_first_subscriber() {
    init();
    init_verbose();
    init_debug();
}

use music_shuffler::sampler::generate_playlist;
use std::collections::HashSet;

fn files(n: usize) -> Vec<String> {
    (0..n).map(|i| format!("/music/{:02}.mp3", i)).collect()
}

#[test]
fn sample_larger_than_set_returns_all() {
    let f = files(10);
    let r = generate_playlist(&f, 50);
    assert_eq!(r.len(), 10);
    let set: HashSet<&String> = r.iter().collect();
    assert_eq!(set.len(), 10);
    for p in &r {
        assert!(f.contains(p));
    }
}

#[test]
fn sample_is_bounded_and_distinct() {
    let f = files(30);
    let r = generate_playlist(&f, 7);
    assert_eq!(r.len(), 7);
    let set: HashSet<&String> = r.iter().collect();
    assert_eq!(set.len(), 7);
    for p in &r {
        assert!(f.contains(p));
    }
}

#[test]
fn sample_of_nothing_is_empty() {
    assert!(generate_playlist(&Vec::new(), 5).is_empty());
    assert!(generate_playlist(&files(4), 0).is_empty());
}

#[test]
fn sample_is_shuffled() {
    let f = files(20);
    let mut moved = false;
    for _ in 0..5 {
        if generate_playlist(&f, 20) != f {
            moved = true;
        }
    }
    assert!(moved);
}

use perceptron::stream::Stream;

fn draws(seed: u64, count: usize, low: usize, high: usize) -> Vec<usize> {
    let mut stream = Stream::new(seed);
    let mut out = Vec::new();
    for _ in 0..count {
        out.push(stream.next_uniform_int(low, high));
    }
    out
}

#[test]
fn same_seed_gives_same_draws() {
    assert_eq!(draws(999, 50, 0, 64), draws(999, 50, 0, 64));
    assert_eq!(draws(64, 50, 3, 1000), draws(64, 50, 3, 1000));
}

#[test]
fn different_seeds_give_different_draws() {
    assert_ne!(draws(999, 50, 0, 1_000_000), draws(64, 50, 0, 1_000_000));
}

#[test]
fn draws_stay_in_range() {
    for value in draws(7, 500, 4, 9) {
        assert!(4 <= value && value < 9);
    }
    for value in draws(8, 100, 5, 6) {
        assert_eq!(value, 5);
    }
}

#[test]
fn draws_advance_the_stream() {
    let values = draws(999, 64, 0, 1_000_000_000);
    let first = values[0];
    assert!(values.iter().any(|v| *v != first));
}

#[test]
fn draws_of_a_seed_are_pinned() {
    assert_eq!(draws(999, 6, 0, 64), vec![33, 46, 62, 10, 40, 12]);
}

#[test]
fn earlier_ranges_do_not_change_how_many_words_a_draw_takes() {
    let mut a = Stream::new(5);
    let mut b = Stream::new(5);
    let first_a = a.next_uniform_int(0, 10);
    let first_b = b.next_uniform_int(0, 10);
    assert_eq!(first_a, first_b);
    assert_eq!(a.next_uniform_int(2, 40), b.next_uniform_int(2, 40));
}

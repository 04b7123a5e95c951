use ecosim::brain::Brain;
use ecosim::rng::Rng;

fn zero_brain() -> Brain {
    Brain {
        weights_input: vec![0; 88],
        weights_output: vec![0; 24],
        biases: vec![0; 11],
        last_inputs: vec![0; 11],
        last_hidden: vec![0; 8],
        last_outputs: vec![0; 3],
    }
}

fn const_brain(w: i64) -> Brain {
    Brain {
        weights_input: vec![w; 88],
        weights_output: vec![w; 24],
        biases: vec![w; 11],
        last_inputs: vec![0; 11],
        last_hidden: vec![0; 8],
        last_outputs: vec![0; 3],
    }
}

#[test]
fn new_brain_has_fixed_topology() {
    let mut rng = Rng::new(7);
    let b = Brain::new(&mut rng);
    assert_eq!(b.weights_input.len(), 88);
    assert_eq!(b.weights_output.len(), 24);
    assert_eq!(b.biases.len(), 11);
    for &w in b.weights_input.iter().chain(b.weights_output.iter()).chain(b.biases.iter()) {
        assert!((-1000..=1000).contains(&w));
    }
}

#[test]
fn zero_brain_is_silent() {
    let mut b = zero_brain();
    let inputs = vec![1000, -400, 250, 0, 2000, 1000, 0, 1000, 0, 500, 1000];
    let out = b.process(&inputs);
    assert_eq!(out, vec![0, 0, 0]);
    assert_eq!(b.last_inputs, inputs);
}

#[test]
fn bias_drives_hidden_unit() {
    let mut b = zero_brain();
    b.biases[0] = 500;
    let out = b.process(&vec![0; 11]);
    // tanh(0.5) in milli-units under the rational approximation:
    // 500 * 27_250_000 / 29_250_000 = 465.
    assert_eq!(b.last_hidden[0], 465);
    assert_eq!(out, vec![0, 0, 0]);
}

#[test]
fn process_is_deterministic() {
    let mut rng = Rng::new(99);
    let mut b = Brain::new(&mut rng);
    let inputs = vec![300, -200, 1000, 50, 900, 1000, 0, 0, 1000, 120, 0];
    let a = b.process(&inputs);
    let c = b.process(&inputs);
    assert_eq!(a, c);
    assert_eq!(a.len(), 3);
    for &o in &a {
        assert!((-1000..=1000).contains(&o));
    }
}

#[test]
fn crossover_takes_each_element_from_a_parent() {
    let a = const_brain(111);
    let b = const_brain(-222);
    let mut rng = Rng::new(5);
    let child = a.crossover(&b, &mut rng);
    let mut from_a = 0;
    let mut from_b = 0;
    for &w in child.weights_input.iter().chain(child.weights_output.iter()).chain(
        child.biases.iter(),
    ) {
        if w == 111 {
            from_a += 1;
        } else if w == -222 {
            from_b += 1;
        } else {
            panic!("crossover produced a value from neither parent: {}", w);
        }
    }
    assert_eq!(from_a + from_b, 88 + 24 + 11);
    assert!(from_a > 0);
    assert!(from_b > 0);
}

#[test]
fn mutate_with_zero_rate_is_a_no_op() {
    let mut rng = Rng::new(12);
    let parent = Brain::new(&mut rng);
    let child = parent.mutate(0, &mut rng);
    assert_eq!(child.weights_input, parent.weights_input);
    assert_eq!(child.weights_output, parent.weights_output);
    assert_eq!(child.biases, parent.biases);
}

#[test]
fn mutate_moves_each_element_at_most_rate() {
    let mut rng = Rng::new(13);
    let parent = Brain::new(&mut rng);
    let rate = 250;
    let child = parent.mutate(rate, &mut rng);
    let mut changed = 0;
    for (w, c) in parent.weights_input.iter().zip(child.weights_input.iter()) {
        assert!((c - w).abs() <= rate);
        if c != w {
            changed += 1;
        }
    }
    // About one in five of the 88 input weights should be perturbed.
    assert!(changed > 0);
    assert!(changed < 88);
}

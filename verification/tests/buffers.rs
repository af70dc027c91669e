use darkhill::buffer::ReverbBuffer;
use darkhill::delay::{DelayLine, DELAY_LENGTH};
use darkhill::reverb::{reference_lengths, ReverbNetwork, COMBS};

#[test]
fn new_buffer_is_filled() {
    let mut ring = ReverbBuffer::new(4, 7u32);
    assert_eq!(ring.len(), 4);
    for _ in 0..4 {
        assert_eq!(ring.read(), 7);
        ring.increment();
    }
}

#[test]
fn cursor_wraps_after_the_last_cell() {
    let mut ring = ReverbBuffer::new(3, 0u32);
    ring.write(1);
    ring.increment();
    ring.write(2);
    ring.increment();
    ring.write(3);
    ring.increment();
    assert_eq!(ring.read(), 1);
    ring.increment();
    assert_eq!(ring.read(), 2);
    ring.increment();
    assert_eq!(ring.read(), 3);
    ring.increment();
    assert_eq!(ring.read(), 1);
}

#[test]
fn write_does_not_move_the_cursor() {
    let mut ring = ReverbBuffer::new(3, 0u32);
    ring.write(5);
    assert_eq!(ring.read(), 5);
    ring.write(6);
    assert_eq!(ring.read(), 6);
    ring.increment();
    assert_eq!(ring.read(), 0);
}

#[test]
fn buffer_of_one_cell_returns_the_last_value() {
    let mut ring = ReverbBuffer::new(1, 0u32);
    ring.push(9);
    assert_eq!(ring.read(), 9);
    ring.increment();
    assert_eq!(ring.read(), 9);
    ring.push(4);
    assert_eq!(ring.read(), 4);
}

#[test]
fn push_is_write_and_increment() {
    let mut pushed = ReverbBuffer::new(5, 0i32);
    let mut stepped = ReverbBuffer::new(5, 0i32);
    for value in 1..=12 {
        pushed.push(value);
        stepped.write(value);
        stepped.increment();
        assert_eq!(pushed.read(), stepped.read());
    }
    assert_eq!(pushed.read(), 8);
}

#[test]
fn delay_returns_each_sample_one_length_later() {
    let mut delay = DelayLine::new(5, 0u32);
    assert_eq!(delay.len(), 5);
    for n in 1..=20u32 {
        let echo = delay.peek();
        if n <= 5 {
            assert_eq!(echo, 0);
        } else {
            assert_eq!(echo, n - 5);
        }
        delay.push(n);
    }
}

#[test]
fn reference_delay_is_23009_samples_long() {
    assert_eq!(DELAY_LENGTH, 23009);
    let mut delay = DelayLine::new(DELAY_LENGTH, 0.0f32);
    assert_eq!(delay.len(), 23009);
    delay.push(1.0);
    for _ in 1..23009 {
        assert_eq!(delay.peek(), 0.0);
        delay.push(0.0);
    }
    assert_eq!(delay.peek(), 1.0);
}

#[test]
fn impulse_echoes_and_decays_geometrically() {
    let length = 7;
    let mut delay = DelayLine::new(length, 0.0f32);
    let mut heard = Vec::new();
    for n in 0..(4 * length + 1) {
        let input: f32 = if n == 0 { 1.0 } else { 0.0 };
        let output = input + 0.04 * delay.peek();
        delay.push(output);
        heard.push(output);
    }
    for n in 0..heard.len() {
        if n % length != 0 {
            assert_eq!(heard[n], 0.0);
        }
    }
    assert_eq!(heard[0], 1.0);
    assert_eq!(heard[length], 0.04);
    assert_eq!(heard[2 * length], 0.04 * 0.04);
    assert_eq!(heard[3 * length], 0.04 * (0.04 * 0.04));
    assert_eq!(heard[4 * length], 0.04 * (0.04 * (0.04 * 0.04)));
}

#[test]
fn impulse_echoes_after_the_reference_length() {
    let mut delay = DelayLine::new(DELAY_LENGTH, 0.0f32);
    let mut echoes = Vec::new();
    for n in 0..(2 * DELAY_LENGTH + 1) {
        let input: f32 = if n == 0 { 1.0 } else { 0.0 };
        let output = input + 0.04 * delay.peek();
        delay.push(output);
        if output != 0.0 {
            echoes.push((n, output));
        }
    }
    assert_eq!(echoes, vec![(0, 1.0), (23009, 0.04), (46018, 0.04 * 0.04)]);
}

#[test]
fn reference_network_has_thirteen_buffers() {
    let network = ReverbNetwork::reference(0.0f32);
    assert_eq!(COMBS, 13);
    assert_eq!(network.count(), 13);
    assert_eq!(
        reference_lengths(),
        vec![1597, 2083, 2729, 3259, 4177, 5279, 6737, 7883, 9173, 10151, 11497, 13367, 14029]
    );
}

fn gcd(a: usize, b: usize) -> usize {
    if b == 0 {
        a
    } else {
        gcd(b, a % b)
    }
}

#[test]
fn reference_lengths_are_coprime_in_pairs() {
    let lengths = reference_lengths();
    for i in 0..lengths.len() {
        for j in (i + 1)..lengths.len() {
            assert_eq!(gcd(lengths[i], lengths[j]), 1);
        }
    }
}

#[test]
fn every_buffer_returns_the_feed_after_its_own_length() {
    let lengths = vec![2usize, 3, 5];
    let mut network = ReverbNetwork::new(&lengths, 0u32);
    assert_eq!(network.count(), 3);
    for n in 1..=30u32 {
        for (i, length) in lengths.iter().enumerate() {
            let expected = if n as usize <= *length { 0 } else { n - *length as u32 };
            assert_eq!(network.tap(i), expected);
        }
        network.feed(n);
    }
}

#[test]
fn network_without_buffers_takes_feeds() {
    let lengths: Vec<usize> = Vec::new();
    let mut network = ReverbNetwork::new(&lengths, 0u32);
    assert_eq!(network.count(), 0);
    network.feed(1);
    assert_eq!(network.count(), 0);
}

fn diffuse(network: &mut ReverbNetwork<f32>, input: f32) -> f32 {
    let mut x: f32 = 0.05 * input;
    for n in 0..network.count() {
        x = x + 0.05 * network.tap(n);
    }
    network.feed(x);
    x
}

#[test]
fn two_runs_of_the_reverb_agree_bit_for_bit() {
    let mut first = ReverbNetwork::reference(0.0f32);
    let mut second = ReverbNetwork::reference(0.0f32);
    let mut seed: u32 = 12345;
    for _ in 0..40000 {
        seed = seed.wrapping_mul(1664525).wrapping_add(1013904223);
        let input = (seed >> 8) as f32 / 16777216.0 - 0.5;
        let a = diffuse(&mut first, input);
        let b = diffuse(&mut second, input);
        assert_eq!(a.to_bits(), b.to_bits());
    }
}

#[test]
fn reverb_is_dry_until_the_shortest_buffer_has_filled() {
    let mut network = ReverbNetwork::reference(0.0f32);
    for n in 0..1597 {
        let input: f32 = if n == 0 { 1.0 } else { 0.0 };
        let x = diffuse(&mut network, input);
        assert_eq!(x, 0.05 * input);
    }
    // the impulse returns from the shortest buffer
    let x = diffuse(&mut network, 0.0);
    assert_eq!(x, 0.05 * 0.0 + 0.05 * 0.05);
}

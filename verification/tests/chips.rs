use alu16::chips;

const ZERO: [u8; 16] = [0; 16];
const ONE: [u8; 16] = [0, 0, 0, 0, 0, 0, 0, 0, 0, 0, 0, 0, 0, 0, 0, 1];
const ONES: [u8; 16] = [1; 16];

fn word(n: u16) -> [u8; 16] {
    let mut w = [0u8; 16];
    for i in 0..16 {
        w[i] = ((n >> (15 - i)) & 1) as u8;
    }
    w
}

fn number(w: [u8; 16]) -> u16 {
    let mut n = 0u16;
    for i in 0..16 {
        n = (n << 1) | w[i] as u16;
    }
    n
}

const SAMPLES: [u16; 12] =
    [0, 1, 2, 3, 0x00ff, 0x0100, 0x1234, 0x5555, 0x7fff, 0x8000, 0xaaaa, 0xffff];

#[test]
fn test_half_adder() {
    assert_eq!(chips::half_adder(0, 0), (0, 0));
    assert_eq!(chips::half_adder(0, 1), (1, 0));
    assert_eq!(chips::half_adder(1, 0), (1, 0));
    assert_eq!(chips::half_adder(1, 1), (0, 1));
}

#[test]
fn test_full_adder() {
    assert_eq!(chips::full_adder(0, 0, 0), (0, 0));
    assert_eq!(chips::full_adder(0, 0, 1), (1, 0));
    assert_eq!(chips::full_adder(0, 1, 0), (1, 0));
    assert_eq!(chips::full_adder(0, 1, 1), (0, 1));
    assert_eq!(chips::full_adder(1, 0, 0), (1, 0));
    assert_eq!(chips::full_adder(1, 0, 1), (0, 1));
    assert_eq!(chips::full_adder(1, 1, 0), (0, 1));
    assert_eq!(chips::full_adder(1, 1, 1), (1, 1));
}

#[test]
fn test_adder_16() {
    let a = [0, 0, 0, 0, 0, 0, 0, 0, 1, 0, 1, 0, 1, 0, 1, 0]; // 10922 in binary
    let b = [0, 0, 0, 0, 0, 0, 0, 0, 0, 1, 0, 1, 0, 1, 0, 1]; // 5461 in binary

    let sum = chips::adder_16(a, b);

    assert_eq!(sum, [0, 0, 0, 0, 0, 0, 0, 0, 1, 1, 1, 1, 1, 1, 1, 1]);
}

#[test]
fn test_inc_16() {
    let a = [0, 0, 0, 0, 0, 0, 0, 0, 1, 0, 1, 0, 1, 0, 1, 0];
    let sum = chips::inc_16(a);

    assert_eq!(sum, [0, 0, 0, 0, 0, 0, 0, 0, 1, 0, 1, 0, 1, 0, 1, 1]);
}

#[test]
fn test_half_adder_is_full_adder_without_carry() {
    for a in [0u8, 1] {
        for b in [0u8, 1] {
            assert_eq!(chips::half_adder(a, b), chips::full_adder(a, b, 0));
        }
    }
}

#[test]
fn test_full_adder_counts_its_inputs() {
    for a in [0u8, 1] {
        for b in [0u8, 1] {
            for c in [0u8, 1] {
                let (sum, carry) = chips::full_adder(a, b, c);
                assert_eq!(sum + 2 * carry, a + b + c);
            }
        }
    }
}

#[test]
fn test_adder_16_carries_towards_the_first_index() {
    // 1 + 1 = 2: the carry leaves the last position and lands one to its left.
    let two = [0, 0, 0, 0, 0, 0, 0, 0, 0, 0, 0, 0, 0, 0, 1, 0];
    assert_eq!(chips::adder_16(ONE, ONE), two);
    // 0x00ff + 1 = 0x0100: the carry ripples through eight positions.
    assert_eq!(chips::adder_16(word(0x00ff), ONE), word(0x0100));
}

#[test]
fn test_adder_16_wraps() {
    assert_eq!(chips::adder_16(ONES, ONE), ZERO);
    assert_eq!(chips::adder_16(ONES, ONES), word(0xfffe));
    assert_eq!(chips::adder_16(word(0x8000), word(0x8000)), ZERO);
}

#[test]
fn test_adder_16_is_commutative() {
    for a in SAMPLES {
        for b in SAMPLES {
            assert_eq!(chips::adder_16(word(a), word(b)), chips::adder_16(word(b), word(a)));
        }
    }
}

#[test]
fn test_adder_16_zero_is_identity() {
    for a in SAMPLES {
        assert_eq!(chips::adder_16(word(a), ZERO), word(a));
        assert_eq!(chips::adder_16(ZERO, word(a)), word(a));
    }
}

#[test]
fn test_adder_16_adds_modulo_two_to_the_sixteenth() {
    for a in SAMPLES {
        for b in SAMPLES {
            assert_eq!(number(chips::adder_16(word(a), word(b))), a.wrapping_add(b));
        }
    }
}

#[test]
fn test_inc_16_is_adding_one() {
    for a in SAMPLES {
        assert_eq!(chips::inc_16(word(a)), chips::adder_16(word(a), ONE));
        assert_eq!(number(chips::inc_16(word(a))), a.wrapping_add(1));
    }
}

#[test]
fn test_inc_16_wraps() {
    assert_eq!(chips::inc_16(ONES), ZERO);
    assert_eq!(chips::inc_16(ZERO), ONE);
}

#[test]
fn test_mux_16_selects() {
    let a = word(0x1234);
    let b = word(0xabcd);
    assert_eq!(chips::mux_16(a, b, 0), a);
    assert_eq!(chips::mux_16(a, b, 1), b);
}

#[test]
fn test_not_16() {
    assert_eq!(chips::not_16(ZERO), ONES);
    assert_eq!(chips::not_16(ONES), ZERO);
    assert_eq!(
        chips::not_16([0, 0, 0, 0, 0, 0, 0, 0, 1, 0, 1, 0, 1, 0, 1, 0]),
        [1, 1, 1, 1, 1, 1, 1, 1, 0, 1, 0, 1, 0, 1, 0, 1]
    );
    for a in SAMPLES {
        assert_eq!(number(chips::not_16(word(a))), !a);
        assert_eq!(chips::not_16(chips::not_16(word(a))), word(a));
    }
}

#[test]
fn test_and_16() {
    assert_eq!(
        chips::and_16(
            [0, 0, 1, 1, 0, 0, 1, 1, 0, 0, 1, 1, 0, 0, 1, 1],
            [0, 1, 0, 1, 0, 1, 0, 1, 0, 1, 0, 1, 0, 1, 0, 1]
        ),
        [0, 0, 0, 1, 0, 0, 0, 1, 0, 0, 0, 1, 0, 0, 0, 1]
    );
    for a in SAMPLES {
        for b in SAMPLES {
            assert_eq!(number(chips::and_16(word(a), word(b))), a & b);
        }
    }
}

#[test]
fn test_is_zero_16() {
    assert_eq!(chips::is_zero_16(ZERO), 1);
    assert_eq!(chips::is_zero_16(ONE), 0);
    assert_eq!(chips::is_zero_16(ONES), 0);
    assert_eq!(chips::is_zero_16(word(0x8000)), 0);
    assert_eq!(chips::is_zero_16(word(0x0100)), 0);
}

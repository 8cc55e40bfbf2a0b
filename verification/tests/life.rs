use packed_life::codec::{decode, encode, CodecError};
use packed_life::engine::{simulate, step};

/// Builds a flat 64-cell sequence with the given (row, column) cells live.
fn pattern(live: &[(usize, usize)]) -> Vec<u8> {
    let mut cells = vec![0u8; 64];
    for &(r, c) in live {
        cells[8 * r + c] = 1;
    }
    cells
}

/// Encodes, advances one generation, decodes.
fn run_step(cells: &Vec<u8>) -> Vec<u8> {
    let mut universe = encode(cells).unwrap();
    step(&mut universe);
    decode(&universe)
}

#[test]
fn test_block() {
    // A 2x2 block straddling the vertical edges: a still life.
    let before = pattern(&[(6, 0), (6, 7), (7, 0), (7, 7)]);

    let after = run_step(&before);

    assert_eq!(before, after);
}

#[test]
fn test_loaf() {
    // A loaf straddling the vertical edges: a still life.
    let before = pattern(&[(2, 0), (2, 7), (3, 1), (3, 6), (4, 1), (4, 7), (5, 0)]);

    let after = run_step(&before);

    assert_eq!(before, after);
}

#[test]
fn test_blinker() {
    // A vertical blinker in the interior oscillates with period 2.
    let one = pattern(&[(2, 4), (3, 4), (4, 4)]);
    let two = pattern(&[(3, 3), (3, 4), (3, 5)]);

    let after = run_step(&one);

    assert_eq!(two, after);

    let after = run_step(&two);

    assert_eq!(one, after);
}

#[test]
fn test_round_trip() {
    let glider = pattern(&[(1, 3), (2, 1), (2, 3), (3, 2), (3, 3)]);
    let universe = encode(&glider).unwrap();
    assert_eq!(decode(&universe), glider);

    // The other direction: re-encoding a decoded universe gives back the
    // identical packed value.
    assert_eq!(encode(&decode(&universe)).unwrap(), universe);

    let all_dead = vec![0u8; 64];
    assert_eq!(decode(&encode(&all_dead).unwrap()), all_dead);

    let all_alive = vec![1u8; 64];
    assert_eq!(decode(&encode(&all_alive).unwrap()), all_alive);

    // Every single-cell pattern survives the round trip unchanged.
    for i in 0..64 {
        let mut cells = vec![0u8; 64];
        cells[i] = 1;
        assert_eq!(decode(&encode(&cells).unwrap()), cells);
    }
}

#[test]
fn test_encode_rejects_wrong_length() {
    assert_eq!(encode(&vec![]), Err(CodecError::InvalidInput));
    assert_eq!(encode(&vec![0u8; 63]), Err(CodecError::InvalidInput));
    assert_eq!(encode(&vec![0u8; 65]), Err(CodecError::InvalidInput));
}

#[test]
fn test_encode_rejects_out_of_range_value() {
    for i in 0..64 {
        let mut cells = vec![0u8; 64];
        cells[i] = 2;
        assert_eq!(encode(&cells), Err(CodecError::InvalidInput));
    }
    let mut cells = vec![1u8; 64];
    cells[17] = 255;
    assert_eq!(encode(&cells), Err(CodecError::InvalidInput));
}

#[test]
fn test_neighbor_rule_enumeration() {
    // The 8 Moore neighbors of the interior cell (3, 3).
    let neighbors = [
        (2, 2),
        (2, 3),
        (2, 4),
        (3, 2),
        (3, 4),
        (4, 2),
        (4, 3),
        (4, 4),
    ];

    for count in 0..=8 {
        for self_alive in 0..=1u8 {
            let mut live: Vec<(usize, usize)> = neighbors[..count].to_vec();
            if self_alive == 1 {
                live.push((3, 3));
            }
            let cells = pattern(&live);

            let after = run_step(&cells);

            let expected = count == 3 || (self_alive == 1 && count == 2);
            assert_eq!(
                after[3 * 8 + 3] == 1,
                expected,
                "count {count}, self {self_alive}"
            );
        }
    }
}

#[test]
fn test_row_wrap() {
    // A vertical blinker straddling the top and bottom edges: rows 6, 7
    // and (wrapped) 0 of column 4.  One step turns it into a horizontal
    // blinker in row 7, exactly as the interior blinker does under
    // translation by four rows.
    let vertical = pattern(&[(6, 4), (7, 4), (0, 4)]);
    let horizontal = pattern(&[(7, 3), (7, 4), (7, 5)]);

    assert_eq!(run_step(&vertical), horizontal);
    assert_eq!(run_step(&horizontal), vertical);
}

#[test]
fn test_col_wrap() {
    // A horizontal blinker straddling the left and right edges: columns 6,
    // 7 and (wrapped) 0 of row 3.  One step turns it into a vertical
    // blinker in column 7.
    let horizontal = pattern(&[(3, 6), (3, 7), (3, 0)]);
    let vertical = pattern(&[(2, 7), (3, 7), (4, 7)]);

    assert_eq!(run_step(&horizontal), vertical);
    assert_eq!(run_step(&vertical), horizontal);
}

#[test]
fn test_glider_step() {
    let glider = pattern(&[(1, 3), (2, 1), (2, 3), (3, 2), (3, 3)]);
    let next = pattern(&[(1, 2), (2, 3), (2, 4), (3, 2), (3, 3)]);

    assert_eq!(run_step(&glider), next);
}

#[test]
fn test_simulate_blinker_period() {
    let vertical = pattern(&[(2, 4), (3, 4), (4, 4)]);
    let horizontal = pattern(&[(3, 3), (3, 4), (3, 5)]);

    // The blinker has period 2: even generation counts give the original
    // pattern back, odd counts give the rotated one.
    assert_eq!(simulate(&vertical, 0), Ok(vertical.clone()));
    assert_eq!(simulate(&vertical, 1), Ok(horizontal.clone()));
    assert_eq!(simulate(&vertical, 2), Ok(vertical.clone()));
    assert_eq!(simulate(&vertical, 101), Ok(horizontal));
    assert_eq!(simulate(&vertical, 1000), Ok(vertical));
}

#[test]
fn test_simulate_rejects_invalid() {
    assert_eq!(simulate(&vec![0u8; 60], 5), Err(CodecError::InvalidInput));
    let mut cells = vec![0u8; 64];
    cells[0] = 9;
    assert_eq!(simulate(&cells, 5), Err(CodecError::InvalidInput));
}

#[test]
fn test_determinism() {
    let glider = pattern(&[(1, 3), (2, 1), (2, 3), (3, 2), (3, 3)]);

    // Two fully independent runs over several generations agree at every
    // generation.
    let mut first = encode(&glider).unwrap();
    let mut second = encode(&glider).unwrap();
    for _ in 0..32 {
        step(&mut first);
        step(&mut second);
        assert_eq!(decode(&first), decode(&second));
    }
}

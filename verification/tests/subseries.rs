use stl_rs::subseries::{cycle_len, fits_buffer, interleave, slot, source, split};

#[test]
fn split_into_three_phases() {
    let series: Vec<u32> = (0..8).collect();
    assert_eq!(split(&series, 3), vec![vec![0, 3, 6], vec![1, 4, 7], vec![2, 5]]);
}

#[test]
fn split_with_a_period_of_one() {
    let series = vec![4, 5, 6];
    assert_eq!(split(&series, 1), vec![vec![4, 5, 6]]);
}

#[test]
fn split_a_series_shorter_than_the_period() {
    let series = vec![4, 5];
    assert_eq!(split(&series, 4), vec![vec![4], vec![5], vec![], vec![]]);
    let nothing: Vec<u8> = Vec::new();
    assert_eq!(split(&nothing, 2), vec![Vec::<u8>::new(), Vec::new()]);
}

#[test]
fn phases_have_the_lengths_counted() {
    assert_eq!(cycle_len(8, 3, 0), 3);
    assert_eq!(cycle_len(8, 3, 1), 3);
    assert_eq!(cycle_len(8, 3, 2), 2);
    assert_eq!(cycle_len(30, 7, 0), 5);
    assert_eq!(cycle_len(30, 7, 1), 5);
    assert_eq!(cycle_len(30, 7, 2), 4);
    assert_eq!(cycle_len(30, 7, 6), 4);
    assert_eq!(cycle_len(2, 4, 3), 0);
    assert_eq!(cycle_len(0, 1, 0), 0);
}

#[test]
fn members_and_slots() {
    assert_eq!(source(30, 7, 2, 0), 2);
    assert_eq!(source(30, 7, 2, 3), 23);
    assert_eq!(source(30, 7, 1, 4), 29);
    assert_eq!(slot(30, 7, 2, 0), 2);
    assert_eq!(slot(30, 7, 2, 1), 9);
    assert_eq!(slot(30, 7, 2, 5), 37);
    assert_eq!(slot(30, 7, 1, 6), 43);
}

#[test]
fn cycles_partition_the_series() {
    for n in 0usize..40 {
        for period in 1usize..12 {
            let mut seen = vec![0; n];
            let mut total = 0;
            for phase in 0..period {
                let k = cycle_len(n, period, phase);
                total += k;
                for i in 0..k {
                    let t = source(n, period, phase, i);
                    assert_eq!(t % period, phase);
                    assert_eq!(t / period, i);
                    seen[t] += 1;
                }
            }
            assert_eq!(total, n);
            assert!(seen.iter().all(|&c| c == 1));
        }
    }
}

#[test]
fn slots_fill_the_buffer() {
    for period in 1usize..10 {
        for n in period..40 {
            let mut seen = vec![0; n + 2 * period];
            for phase in 0..period {
                let k = cycle_len(n, period, phase);
                for m in 0..k + 2 {
                    seen[slot(n, period, phase, m)] += 1;
                }
                for i in 0..k {
                    assert_eq!(slot(n, period, phase, i + 1), source(n, period, phase, i) + period);
                }
            }
            assert!(seen.iter().all(|&c| c == 1));
        }
    }
}

#[test]
fn interleave_extended_cycles() {
    // a series of 8 and a period of 3: cycles of 3, 3 and 2 members, each with two ends
    let parts = vec![
        vec![100, 0, 3, 6, 109],
        vec![101, 1, 4, 7, 110],
        vec![102, 2, 5, 108],
    ];
    assert_eq!(
        interleave(&parts, 8),
        vec![100, 101, 102, 0, 1, 2, 3, 4, 5, 6, 7, 108, 109, 110]
    );
}

#[test]
fn interleave_undoes_split() {
    for period in 1usize..9 {
        for n in period..35 {
            let series: Vec<usize> = (0..n).map(|t| 1000 + t).collect();
            let mut parts = split(&series, period);
            for part in parts.iter_mut() {
                part.insert(0, 1);
                part.push(2);
            }
            let buffer = interleave(&parts, n);
            assert_eq!(buffer.len(), n + 2 * period);
            assert_eq!(&buffer[period..period + n], &series[..]);
            assert!(buffer[..period].iter().all(|&v| v == 1));
            assert!(buffer[period + n..].iter().all(|&v| v == 2));
        }
    }
}

#[test]
fn parts_are_checked_before_they_are_put_back() {
    let parts = vec![vec![100, 0, 3, 6, 109], vec![101, 1, 4, 7, 110], vec![102, 2, 5, 108]];
    assert!(fits_buffer(&parts, 8));
    assert!(!fits_buffer(&parts, 7));
    assert!(!fits_buffer(&parts, 9));
    assert!(!fits_buffer(&parts, 2));
    let mut short = parts.clone();
    short[2].pop();
    assert!(!fits_buffer(&short, 8));
    let none: Vec<Vec<u8>> = Vec::new();
    assert!(!fits_buffer(&none, 0));
    let one = vec![vec![1u8, 2, 3]];
    assert!(fits_buffer(&one, 1));
    assert!(!fits_buffer(&one, usize::MAX - 1));
}

use stl_rs::loess::{anchors, neighbourhood, Neighbourhood};

fn hood(left: usize, right: usize, reach: usize) -> Neighbourhood {
    Neighbourhood { left, right, reach }
}

#[test]
fn window_inside_the_series() {
    assert_eq!(neighbourhood(30, 7, 15), hood(12, 18, 3));
    assert_eq!(neighbourhood(30, 7, 5), hood(2, 8, 3));
    assert_eq!(neighbourhood(10, 1, 4), hood(4, 4, 0));
}

#[test]
fn window_at_the_ends() {
    assert_eq!(neighbourhood(30, 7, 1), hood(1, 7, 6));
    assert_eq!(neighbourhood(30, 7, 4), hood(1, 7, 3));
    assert_eq!(neighbourhood(30, 7, 27), hood(24, 30, 3));
    assert_eq!(neighbourhood(30, 7, 30), hood(24, 30, 6));
}

#[test]
fn window_beyond_the_ends() {
    assert_eq!(neighbourhood(30, 7, 0), hood(1, 7, 7));
    assert_eq!(neighbourhood(30, 7, 31), hood(24, 30, 7));
}

#[test]
fn window_of_even_length_leans_right() {
    assert_eq!(neighbourhood(30, 6, 10), hood(8, 13, 3));
    assert_eq!(neighbourhood(30, 6, 1), hood(1, 6, 5));
    assert_eq!(neighbourhood(30, 6, 30), hood(25, 30, 5));
}

#[test]
fn window_longer_than_the_series() {
    assert_eq!(neighbourhood(5, 9, 3), hood(1, 5, 4));
    assert_eq!(neighbourhood(5, 9, 0), hood(1, 5, 7));
    assert_eq!(neighbourhood(5, 9, 6), hood(1, 5, 7));
    assert_eq!(neighbourhood(4, 4, 2), hood(1, 4, 2));
    assert_eq!(neighbourhood(1, 3, 1), hood(1, 1, 1));
    assert_eq!(neighbourhood(3, usize::MAX, 2), hood(1, 3, 1 + (usize::MAX - 3) / 2));
}

#[test]
fn window_holds_the_nearest_observations() {
    for n in 1usize..14 {
        for length in 1usize..18 {
            for pos in 0..=n + 1 {
                let h = neighbourhood(n, length, pos);
                assert!(1 <= h.left && h.left <= h.right && h.right <= n);
                assert_eq!(h.right - h.left + 1, length.min(n));
                if pos >= 1 && pos <= n {
                    assert!(h.left <= pos && pos <= h.right);
                }
                let far = (h.left..=h.right).map(|j| j.abs_diff(pos)).max().unwrap();
                for outside in (1..h.left).chain(h.right + 1..=n) {
                    assert!(outside.abs_diff(pos) >= far);
                }
                if length <= n {
                    assert_eq!(h.reach, far);
                } else {
                    assert_eq!(h.reach, far + (length - n) / 2);
                }
            }
        }
    }
}

#[test]
fn anchors_with_a_stride() {
    assert_eq!(
        anchors(30, 2),
        vec![1, 3, 5, 7, 9, 11, 13, 15, 17, 19, 21, 23, 25, 27, 29, 30]
    );
    assert_eq!(anchors(10, 3), vec![1, 4, 7, 10]);
    assert_eq!(anchors(10, 4), vec![1, 5, 9, 10]);
    assert_eq!(anchors(7, 3), vec![1, 4, 7]);
}

#[test]
fn anchors_without_a_stride() {
    assert_eq!(anchors(5, 1), vec![1, 2, 3, 4, 5]);
    assert_eq!(anchors(1, 1), vec![1]);
}

#[test]
fn anchors_with_a_stride_beyond_the_series() {
    assert_eq!(anchors(10, 9), vec![1, 10]);
    assert_eq!(anchors(10, 100), vec![1, 10]);
    assert_eq!(anchors(2, 7), vec![1, 2]);
    assert_eq!(anchors(1, 5), vec![1]);
    assert_eq!(anchors(3, usize::MAX), vec![1, 3]);
}

#[test]
fn first_and_last_position_are_always_anchors() {
    for n in 1usize..40 {
        for jump in 1usize..45 {
            let a = anchors(n, jump);
            assert_eq!(a[0], 1);
            assert_eq!(*a.last().unwrap(), n);
            for pair in a.windows(2) {
                assert!(pair[0] < pair[1]);
                assert!(pair[1] - pair[0] <= jump);
            }
            let stride = if n < 2 { 1 } else { jump.min(n - 1) };
            for pos in 1..=n {
                assert_eq!(a.contains(&pos), (pos - 1) % stride == 0 || pos == n);
            }
        }
    }
}

#[test]
fn window_far_behind_the_series() {
    assert_eq!(neighbourhood(30, 7, 40), hood(24, 30, 16));
    assert_eq!(neighbourhood(30, 7, 1000), hood(24, 30, 976));
    assert_eq!(neighbourhood(5, 9, 20), hood(1, 5, 21));
    let far = isize::MAX as usize + 1;
    assert_eq!(neighbourhood(30, 7, far), hood(24, 30, far - 24));
    assert_eq!(
        neighbourhood(isize::MAX as usize, usize::MAX, far),
        hood(1, isize::MAX as usize, far - 1 + (usize::MAX - isize::MAX as usize) / 2)
    );
}

use pomo::clock::Timestamp;
use pomo::order::{leads_in, order_by_time};

fn keys(secs: &[i64]) -> Vec<Timestamp> {
    secs.iter().map(|s| Timestamp { secs: *s, nanos: 0 }).collect()
}

#[test]
fn empty_and_single() {
    assert_eq!(order_by_time(&keys(&[]), true), Vec::<usize>::new());
    assert_eq!(order_by_time(&keys(&[]), false), Vec::<usize>::new());
    assert_eq!(order_by_time(&keys(&[5]), true), vec![0]);
    assert_eq!(order_by_time(&keys(&[5]), false), vec![0]);
}

#[test]
fn newest_first_and_oldest_first() {
    let k = keys(&[30, 10, 20, 40]);
    assert_eq!(order_by_time(&k, true), vec![3, 0, 2, 1]);
    assert_eq!(order_by_time(&k, false), vec![1, 2, 0, 3]);
}

#[test]
fn equal_instants_keep_their_order_both_ways() {
    let k = keys(&[10, 20, 10, 20, 10]);
    assert_eq!(order_by_time(&k, true), vec![1, 3, 0, 2, 4]);
    assert_eq!(order_by_time(&k, false), vec![0, 2, 4, 1, 3]);
    let k = keys(&[7, 7, 7]);
    assert_eq!(order_by_time(&k, true), vec![0, 1, 2]);
    assert_eq!(order_by_time(&k, false), vec![0, 1, 2]);
}

#[test]
fn nanoseconds_break_ties_of_seconds() {
    let k = vec![
        Timestamp { secs: 5, nanos: 1 },
        Timestamp { secs: 5, nanos: 3 },
        Timestamp { secs: 5, nanos: 2 },
        Timestamp { secs: 4, nanos: 999_999_999 },
    ];
    assert_eq!(order_by_time(&k, true), vec![1, 2, 0, 3]);
    assert_eq!(order_by_time(&k, false), vec![3, 0, 2, 1]);
}

#[test]
fn agrees_with_a_stable_sort() {
    // a fixed pseudo-random sequence with many ties
    let mut x: u64 = 12345;
    let mut secs = Vec::new();
    for _ in 0..200 {
        x = x.wrapping_mul(6364136223846793005).wrapping_add(1442695040888963407);
        secs.push(((x >> 33) % 17) as i64 - 5);
    }
    let k = keys(&secs);
    let mut newest: Vec<usize> = (0..k.len()).collect();
    newest.sort_by(|a, b| (k[*b].secs, k[*b].nanos).cmp(&(k[*a].secs, k[*a].nanos)));
    let mut oldest: Vec<usize> = (0..k.len()).collect();
    oldest.sort_by(|a, b| (k[*a].secs, k[*a].nanos).cmp(&(k[*b].secs, k[*b].nanos)));
    assert_eq!(order_by_time(&k, true), newest);
    assert_eq!(order_by_time(&k, false), oldest);
}

#[test]
fn leads_in_follows_the_direction() {
    let a = Timestamp { secs: 1, nanos: 0 };
    let b = Timestamp { secs: 2, nanos: 0 };
    assert!(leads_in(&b, &a, true));
    assert!(!leads_in(&a, &b, true));
    assert!(leads_in(&a, &b, false));
    assert!(!leads_in(&b, &a, false));
    assert!(!leads_in(&a, &a, true));
    assert!(!leads_in(&a, &a, false));
}

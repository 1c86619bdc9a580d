use server_discover::ip::Subnet;

fn sub(addr: u32, mask: u8) -> Subnet {
    Subnet::new(addr, mask)
}

#[test]
fn counts_per_prefix() {
    assert_eq!(sub(0, 24).num_uniq_ips(), 256);
    assert_eq!(sub(0, 29).num_uniq_ips(), 8);
    assert_eq!(sub(0, 32).num_uniq_ips(), 1);
    assert_eq!(sub(0, 0).num_uniq_ips(), 4294967296);
    assert_eq!(Subnet::get_max_uniq_ips(), 4294967296);
}

#[test]
fn zero_workers_is_an_error() {
    let ranges = vec![sub(0x0A000000, 24)];
    assert!(Subnet::calc_thread_subnets(ranges, 0).is_err());
}

#[test]
fn empty_input_gives_empty_lists() {
    let assignment = Subnet::calc_thread_subnets(Vec::new(), 3).unwrap();
    assert_eq!(assignment.len(), 3);
    for worker in &assignment {
        assert!(worker.is_empty());
    }
}

// Every range is assigned to exactly one worker: the union of the workers'
// lists is the input, no range lost, none duplicated.
#[test]
fn coverage_exact_once() {
    let ranges = vec![
        sub(0x0A000000, 24),
        sub(0x0A000100, 25),
        sub(0x0A000100, 25), // a duplicate range stays duplicated
        sub(0xC0A80000, 16),
        sub(0x08080808, 32),
    ];
    let assignment = Subnet::calc_thread_subnets(ranges.clone(), 2).unwrap();
    assert_eq!(assignment.len(), 2);
    let mut all: Vec<(u32, u8)> = Vec::new();
    for worker in &assignment {
        for s in worker {
            all.push((s.addr, s.mask));
        }
    }
    let mut expected: Vec<(u32, u8)> = ranges.iter().map(|s| (s.addr, s.mask)).collect();
    all.sort();
    expected.sort();
    assert_eq!(all, expected);
}

// Three /24s and one /29 over three workers: each /24 on its own worker,
// the /29 on the least-loaded worker, which under the all-tied state is
// worker 0 (lowest-id tie-break).
#[test]
fn balance_example() {
    let a24 = sub(0x0A000000, 24);
    let b24 = sub(0x0A000100, 24);
    let c24 = sub(0x0A000200, 24);
    let s29 = sub(0x0A000300, 29);
    let assignment =
        Subnet::calc_thread_subnets(vec![a24, b24, c24, s29], 3).unwrap();
    assert_eq!(assignment.len(), 3);
    // sorted largest first, ties by ascending address: a24, b24, c24, s29
    assert_eq!(assignment[0].len(), 2);
    assert_eq!(assignment[1].len(), 1);
    assert_eq!(assignment[2].len(), 1);
    assert_eq!((assignment[0][0].addr, assignment[0][0].mask), (a24.addr, 24));
    assert_eq!((assignment[1][0].addr, assignment[1][0].mask), (b24.addr, 24));
    assert_eq!((assignment[2][0].addr, assignment[2][0].mask), (c24.addr, 24));
    assert_eq!((assignment[0][1].addr, assignment[0][1].mask), (s29.addr, 29));
}

// The least-loaded rule: after each worker has a range, the next range
// goes where the address total is smallest.
#[test]
fn least_loaded_wins() {
    let big = sub(0x0A000000, 16); // 65536 addresses
    let mid = sub(0x0B000000, 24); // 256
    let small = sub(0x0C000000, 30); // 4
    let assignment = Subnet::calc_thread_subnets(vec![big, mid, small], 2).unwrap();
    // big -> worker 0, mid -> worker 1, small -> worker 1 (least loaded)
    assert_eq!(assignment[0].len(), 1);
    assert_eq!(assignment[1].len(), 2);
    assert_eq!(assignment[1][1].mask, 30);
}

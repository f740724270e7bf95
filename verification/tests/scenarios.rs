use consensus_register::alpha::{Alpha, Id, Quorum, ReadResponse, Round, Tick, Value};

fn round(tick: u64, pid: u64) -> Round {
    Round { tick: Tick(tick), process_id: Id(pid) }
}

struct MajorityOf {
    peer_count: usize,
}

impl Quorum for MajorityOf {
    fn majority(&self) -> usize {
        self.peer_count / 2 + 1
    }
}

fn subsets_of_size(n: usize, m: usize) -> Vec<u32> {
    (0u32..(1 << n)).filter(|s| s.count_ones() as usize == m).collect()
}

#[test]
fn any_two_majorities_intersect() {
    for n in 1..=7usize {
        let m = MajorityOf { peer_count: n }.majority();
        assert!(m <= n);
        assert!(2 * m > n);
        let quorums = subsets_of_size(n, m);
        for a in &quorums {
            for b in &quorums {
                assert!(a & b != 0, "disjoint majorities of size {} over {} peers", m, n);
            }
        }
    }
}

#[test]
fn fresh_cluster_decides_the_first_proposal() {
    // Three acceptors, all empty; process A (id 1) proposes "x" at its first
    // round and both stages close on a quorum of two.
    let mut r1: Alpha<&str> = Alpha::new();
    let mut r2: Alpha<&str> = Alpha::new();
    let mut r3: Alpha<&str> = Alpha::new();
    let quorum = MajorityOf { peer_count: 3 };
    assert_eq!(quorum.majority(), 2);
    let round_a = Round::new(Id(1));
    assert_eq!(round_a, round(0, 1));

    let reads = vec![r2.read(round_a), r3.read(round_a)];
    let carried = Alpha::read_stage(round_a, "x", reads).unwrap().unwrap();
    assert_eq!(carried, "x");

    let payload = r1.write_stage_local(round_a, carried);
    assert_eq!(r1.value, Some(Value { value: "x", last_round_with_write: round_a }));
    let writes = vec![r2.write(payload.clone()), r3.write(payload.clone())];
    assert_eq!(r2.value, Some(payload.clone()));
    assert_eq!(r3.value, Some(payload.clone()));
    let decided = Alpha::write_stage_decide(round_a, payload.value, writes);
    assert_eq!(decided, Some("x"));
}

#[test]
fn later_proposer_discovers_and_carries_the_decided_value() {
    // After A's decision, process B (id 2) proposes "b" at round {0,2}, which
    // ties A's round on tick and breaks higher by process id.  Its read
    // quorum reaches acceptors that accepted "x", so "x" is carried forward
    // and decided again; B's own proposal is dropped.
    let mut r1: Alpha<&str> = Alpha::new();
    let mut r2: Alpha<&str> = Alpha::new();
    let mut r3: Alpha<&str> = Alpha::new();
    let round_a = round(0, 1);
    let payload = r1.write_stage_local(round_a, "x");
    r2.write(payload.clone());
    r3.write(payload);

    let round_b = Round::new(Id(2));
    assert!(round_a.lt(&round_b));
    let reads = vec![r1.read(round_b), r2.read(round_b)];
    assert!(reads.iter().all(|resp| resp.state.last_round_entered == round_b));
    let carried = Alpha::read_stage(round_b, "b", reads).unwrap().unwrap();
    assert_eq!(carried, "x");

    let payload_b = r2.write_stage_local(round_b, carried);
    let writes = vec![r1.write(payload_b.clone()), r3.write(payload_b.clone())];
    let decided = Alpha::write_stage_decide(round_b, payload_b.value, writes);
    assert_eq!(decided, Some("x"));
    assert_eq!(r1.value, Some(Value { value: "x", last_round_with_write: round_b }));
}

#[test]
fn write_stage_aborts_after_preemption_and_retries_higher() {
    // Process A reaches the write stage of round {0,1} after a higher round
    // {1,1} has already raised two of the three acceptors' promises: both
    // write responses report a promise above A's round, the stage aborts,
    // and A must retry at the next round.
    let mut r1: Alpha<&str> = Alpha::new();
    let mut r2: Alpha<&str> = Alpha::new();
    let mut r3: Alpha<&str> = Alpha::new();
    let round_a = round(0, 1);
    let higher = round(1, 1);
    r2.read(higher);
    r3.read(higher);

    let payload = r1.write_stage_local(round_a, "y");
    assert_eq!(r1.value, Some(Value { value: "y", last_round_with_write: round_a }));
    let writes = vec![r2.write(payload.clone()), r3.write(payload.clone())];
    assert!(writes.iter().all(|resp| round_a.lt(&resp.last_round_entered)));
    assert!(r2.value.is_none());
    assert!(r3.value.is_none());
    let decided = Alpha::write_stage_decide(round_a, payload.value, writes);
    assert_eq!(decided, None);
    assert_eq!(round_a.next(), round(1, 1));
}

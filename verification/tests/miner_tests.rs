use ascend_kas::miner::{check_share, JobSlot, MinerLoop, ShareCheck, SlotStep};
use ascend_kas::pow::Job;
use ascend_kas::uint256::Uint256;

fn job(id: &str, target: Uint256) -> Job {
    Job::new(id.into(), [1, 2, 3, 4], 5, target, u64::MAX, 0, [3u8; 4096])
}

#[test]
fn slot_publish_snapshot_clear() {
    let mut slot = JobSlot::default();
    assert_eq!(slot.current_generation(), 0);
    assert!(slot.snapshot().is_none());
    let g1 = slot.publish(job("a", Uint256([1; 4])));
    assert_eq!(g1, 1);
    let snap = slot.snapshot().unwrap();
    assert_eq!(snap.generation, 1);
    assert_eq!(snap.job.id, "a");
    let g2 = slot.publish(job("b", Uint256([1; 4])));
    assert_eq!(g2, 2);
    assert_eq!(slot.current_generation(), 2);
    slot.clear();
    assert_eq!(slot.current_generation(), 3);
    assert!(slot.snapshot().is_none());
}

#[test]
fn miner_loop_follows_the_slot() {
    let mut slot = JobSlot::new();
    let mut m = MinerLoop::new(42);
    assert_eq!(m.observe(slot.snapshot(), 7), SlotStep::NoJob);
    slot.publish(job("a", Uint256([1; 4])));
    assert_eq!(m.observe(slot.snapshot(), 100), SlotStep::Load);
    assert_eq!(m.counter, 100);
    assert_eq!(m.loaded_generation, 1);
    assert!(!m.is_stale(slot.current_generation()));
    assert_eq!(m.observe(slot.snapshot(), 555), SlotStep::Run);
    assert_eq!(m.counter, 100);
    m.record_scan(10, 4096);
    assert_eq!(m.counter, 100 + 4096);
    m.record_scan(5000, 4096);
    assert_eq!(m.counter, 100 + 4096 + 5000);
    assert_eq!(m.take_hashes(), 5010);
    assert_eq!(m.hashes_window, 0);
    slot.publish(job("b", Uint256([1; 4])));
    assert!(m.is_stale(slot.current_generation()));
    assert_eq!(m.observe(slot.snapshot(), 9), SlotStep::Load);
    assert_eq!(m.current.as_ref().unwrap().job.id, "b");
    slot.clear();
    assert_eq!(m.observe(slot.snapshot(), 1), SlotStep::NoJob);
    assert!(m.current.is_none());
    assert_eq!(m.loaded_generation, 0);
}

#[test]
fn record_scan_wraps_and_saturates() {
    let mut m = MinerLoop::new(u64::MAX - 1);
    m.hashes_window = u64::MAX - 3;
    m.record_scan(10, 4);
    assert_eq!(m.counter, 8);
    assert_eq!(m.hashes_window, u64::MAX);
}

#[test]
fn cpu_check_drops_shares_above_target() {
    let mut slot = JobSlot::new();
    slot.publish(job("easy", Uint256([u64::MAX; 4])));
    let easy = slot.snapshot().unwrap();
    match check_share(&easy, 123, true) {
        ShareCheck::Submit(s, checked) => {
            assert_eq!(checked, Some(easy.job.calculate_pow(123)));
            assert_eq!((s.generation, s.job_id.as_str(), s.nonce), (1, "easy", 123));
        }
        ShareCheck::Invalid(_) => panic!("any hash meets the largest target"),
    }
    slot.publish(job("hard", Uint256([0; 4])));
    let hard = slot.snapshot().unwrap();
    match check_share(&hard, 123, true) {
        ShareCheck::Invalid(pow) => assert_eq!(pow, hard.job.calculate_pow(123)),
        ShareCheck::Submit(..) => panic!("no hash meets a zero target"),
    }
    assert!(matches!(check_share(&hard, 123, false), ShareCheck::Submit(_, None)));
}

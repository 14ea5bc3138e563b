use memtui::collector::ProcessMemory;
use memtui::ordering::{bytes_less, sorts_before, stable_sort};
use memtui::ui::widgets::SortMode;

fn proc(pid: u32, name: &str, rss: u64) -> ProcessMemory {
    ProcessMemory { pid, name: name.to_string(), rss, pss: rss / 2, private: rss / 4 }
}

fn pids(v: &[ProcessMemory]) -> Vec<u32> {
    v.iter().map(|p| p.pid).collect()
}

#[test]
fn bytes_are_compared_lexicographically() {
    assert!(bytes_less(b"", b"a"));
    assert!(!bytes_less(b"", b""));
    assert!(bytes_less(b"ab", b"abc"));
    assert!(!bytes_less(b"abc", b"ab"));
    assert!(bytes_less(b"B", b"a"));
    assert!(bytes_less(b"az", b"b"));
    assert!(!bytes_less(b"same", b"same"));
    assert!(bytes_less(&[0x7f], &[0x80]));
}

#[test]
fn sorts_before_per_mode() {
    let a = proc(1, "a", 100);
    let b = proc(2, "b", 200);
    assert!(sorts_before(SortMode::Rss, &b, &a));
    assert!(!sorts_before(SortMode::Rss, &a, &b));
    assert!(sorts_before(SortMode::Pss, &b, &a));
    assert!(sorts_before(SortMode::Private, &b, &a));
    assert!(sorts_before(SortMode::Name, &a, &b));
    assert!(sorts_before(SortMode::Pid, &a, &b));
    assert!(!sorts_before(SortMode::Pid, &a, &a));
}

#[test]
fn stable_sort_keeps_equal_keys_in_order() {
    let v = vec![proc(1, "x", 5), proc(2, "y", 7), proc(3, "z", 5), proc(4, "w", 7), proc(5, "v", 1)];
    let r = stable_sort(SortMode::Rss, &v);
    assert_eq!(pids(&r), vec![2, 4, 1, 3, 5]);
    // the input is left as it was
    assert_eq!(pids(&v), vec![1, 2, 3, 4, 5]);
    let by_name = stable_sort(SortMode::Name, &v);
    assert_eq!(pids(&by_name), vec![5, 4, 1, 2, 3]);
}

#[test]
fn stable_sort_is_idempotent_and_deterministic() {
    let v = vec![proc(9, "b", 3), proc(8, "a", 3), proc(7, "c", 4)];
    let once = stable_sort(SortMode::Pss, &v);
    let twice = stable_sort(SortMode::Pss, &once);
    assert_eq!(pids(&once), pids(&twice));
    assert_eq!(pids(&once), pids(&stable_sort(SortMode::Pss, &v)));
    assert_eq!(pids(&once), vec![7, 9, 8]);
    assert!(stable_sort(SortMode::Pid, &Vec::new()).is_empty());
}

#[test]
fn cloning_copies_every_field() {
    let p = proc(3, "init", 42);
    let q = p.clone();
    assert_eq!((q.pid, q.name.as_str(), q.rss, q.pss, q.private), (3, "init", 42, 21, 10));
}

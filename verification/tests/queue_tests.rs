use rand::rngs::SmallRng;
use rand::SeedableRng;

use sunny_flowers::queue::{EnqueueAt, Queue};
use sunny_flowers::track::Track;

fn track(n: u64) -> Track {
    Track {
        title: Some(format!("title {}", n)),
        artist: Some(format!("artist {}", n)),
        source_url: None,
        thumbnail_url: None,
        duration_secs: Some(n * 10),
        handle_id: n,
    }
}

#[test]
fn current_is_some_iff_nonempty_and_index_zero() {
    let mut q = Queue::new();
    assert!(q.current().is_none());
    q.enqueue(track(1), EnqueueAt::Back);
    let c = q.current().unwrap();
    assert_eq!(c.handle_id, 1);
    q.enqueue(track(2), EnqueueAt::Back);
    assert_eq!(q.current().unwrap().handle_id, 1);
    q.pop_current();
    assert_eq!(q.current().unwrap().handle_id, 2);
    q.pop_current();
    assert!(q.current().is_none());
    assert_eq!(q.len(), 0);
}

#[test]
fn enqueue_back_then_pops_keep_append_order() {
    let mut q = Queue::new();
    for n in 1..=5 {
        let len = q.enqueue(track(n), EnqueueAt::Back);
        assert_eq!(len, n as usize);
    }
    let mut seen = Vec::new();
    while let Some(t) = q.pop_current() {
        seen.push(t.handle_id);
    }
    assert_eq!(seen, vec![1, 2, 3, 4, 5]);
}

#[test]
fn enqueue_front_inserts_after_current() {
    let mut q = Queue::new();
    q.enqueue(track(1), EnqueueAt::Back);
    q.enqueue(track(2), EnqueueAt::Back);
    let len = q.enqueue(track(9), EnqueueAt::Front);
    assert_eq!(len, 3);
    assert_eq!(q.current().unwrap().handle_id, 1);
    assert_eq!(q.peek_next().unwrap().handle_id, 9);
    q.pop_current();
    assert_eq!(q.current().unwrap().handle_id, 9);
    q.pop_current();
    assert_eq!(q.current().unwrap().handle_id, 2);
}

#[test]
fn enqueue_front_on_empty_becomes_current() {
    let mut q = Queue::new();
    let len = q.enqueue(track(7), EnqueueAt::Front);
    assert_eq!(len, 1);
    assert_eq!(q.current().unwrap().handle_id, 7);
}

#[test]
fn remove_at_zero_always_fails() {
    let mut q = Queue::new();
    let e = q.remove_at(0).unwrap_err();
    assert_eq!(
        e.user_text().unwrap(),
        "A song index of 0 is invalid (The queue starts at 1)"
    );
    q.enqueue(track(1), EnqueueAt::Back);
    q.enqueue(track(2), EnqueueAt::Back);
    let e = q.remove_at(0).unwrap_err();
    assert_eq!(
        e.user_text().unwrap(),
        "A song index of 0 is invalid (The queue starts at 1)"
    );
    assert_eq!(q.len(), 2);
}

#[test]
fn remove_at_past_end_fails() {
    let mut q = Queue::new();
    q.enqueue(track(1), EnqueueAt::Back);
    q.enqueue(track(2), EnqueueAt::Back);
    let e = q.remove_at(2).unwrap_err();
    assert_eq!(e.user_text().unwrap(), "Nothing to remove...");
    let removed = q.remove_at(1).unwrap();
    assert_eq!(removed.handle_id, 2);
    assert_eq!(q.len(), 1);
}

#[test]
fn swap_zero_always_fails() {
    let mut q = Queue::new();
    q.enqueue(track(1), EnqueueAt::Back);
    q.enqueue(track(2), EnqueueAt::Back);
    q.enqueue(track(3), EnqueueAt::Back);
    for (a, b) in [(0, 1), (1, 0), (0, 0)] {
        let e = q.swap(a, b).unwrap_err();
        assert_eq!(
            e.user_text().unwrap(),
            "A song index of 0 is invalid (The queue starts at 1)"
        );
    }
}

#[test]
fn swap_past_end_fails() {
    let mut q = Queue::new();
    q.enqueue(track(1), EnqueueAt::Back);
    q.enqueue(track(2), EnqueueAt::Back);
    q.enqueue(track(3), EnqueueAt::Back);
    let e = q.swap(1, 3).unwrap_err();
    assert_eq!(e.user_text().unwrap(), "Can't swap non-existing index");
    let e = q.swap(5, 1).unwrap_err();
    assert_eq!(e.user_text().unwrap(), "Can't swap non-existing index");
}

#[test]
fn swap_exchanges_positions() {
    let mut q = Queue::new();
    q.enqueue(track(1), EnqueueAt::Back);
    q.enqueue(track(2), EnqueueAt::Back);
    q.enqueue(track(3), EnqueueAt::Back);
    let (at_a, at_b) = q.swap(1, 2).unwrap();
    assert_eq!(at_a.handle_id, 3);
    assert_eq!(at_b.handle_id, 2);
    assert_eq!(q.current().unwrap().handle_id, 1);
    assert_eq!(q.peek_next().unwrap().handle_id, 3);
}

#[test]
fn shuffle_keeps_current_and_contents() {
    let mut q = Queue::new();
    for n in 1..=8 {
        q.enqueue(track(n), EnqueueAt::Back);
    }
    let mut rng = SmallRng::seed_from_u64(42);
    q.shuffle(&mut rng);
    assert_eq!(q.len(), 8);
    assert_eq!(q.current().unwrap().handle_id, 1);
    let mut ids = Vec::new();
    while let Some(t) = q.pop_current() {
        ids.push(t.handle_id);
    }
    let mut sorted = ids.clone();
    sorted.sort();
    assert_eq!(sorted, vec![1, 2, 3, 4, 5, 6, 7, 8]);
}

#[test]
fn shuffle_actually_reorders_for_some_seed() {
    // A correct shuffle may leave one particular queue unchanged, but not
    // for every seed: some seed must move something.
    let mut any_moved = false;
    for seed in 0..10 {
        let mut q = Queue::new();
        for n in 1..=8 {
            q.enqueue(track(n), EnqueueAt::Back);
        }
        let mut rng = SmallRng::seed_from_u64(seed);
        q.shuffle(&mut rng);
        let mut ids = Vec::new();
        while let Some(t) = q.pop_current() {
            ids.push(t.handle_id);
        }
        if ids != vec![1, 2, 3, 4, 5, 6, 7, 8] {
            any_moved = true;
        }
    }
    assert!(any_moved);
}

#[test]
fn page_slices_and_totals() {
    let mut q = Queue::new();
    for n in 1..=13 {
        q.enqueue(track(n), EnqueueAt::Back);
    }
    let p0 = q.page(0);
    assert_eq!(p0.total_pages, 2);
    assert_eq!(p0.entries.len(), 10);
    assert_eq!(p0.entries[0].handle_id, 1);
    assert_eq!(p0.entries[9].handle_id, 10);
    // durations are 10 * (1 + 2 + ... + 13) seconds
    assert_eq!(p0.total_secs, 910);
    let p1 = q.page(1);
    assert_eq!(p1.entries.len(), 3);
    assert_eq!(p1.entries[0].handle_id, 11);
    let p2 = q.page(2);
    assert_eq!(p2.entries.len(), 0);
    assert_eq!(p2.total_pages, 2);
}

#[test]
fn page_of_empty_queue() {
    let q = Queue::new();
    let p = q.page(0);
    assert_eq!(p.total_pages, 1);
    assert_eq!(p.entries.len(), 0);
    assert_eq!(p.total_secs, 0);
}

#[test]
fn total_secs_saturates() {
    let mut q = Queue::new();
    let mut t = track(1);
    t.duration_secs = Some(u64::MAX);
    q.enqueue(t, EnqueueAt::Back);
    let mut t2 = track(2);
    t2.duration_secs = Some(5);
    q.enqueue(t2, EnqueueAt::Back);
    assert_eq!(q.total_secs(), u64::MAX);
}

#[test]
fn missing_duration_counts_as_zero() {
    let mut q = Queue::new();
    let mut t = track(1);
    t.duration_secs = None;
    q.enqueue(t, EnqueueAt::Back);
    q.enqueue(track(2), EnqueueAt::Back);
    assert_eq!(q.total_secs(), 20);
}

#[test]
fn clear_empties_queue() {
    let mut q = Queue::new();
    q.enqueue(track(1), EnqueueAt::Back);
    q.enqueue(track(2), EnqueueAt::Back);
    q.clear();
    assert_eq!(q.len(), 0);
    assert!(q.current().is_none());
}

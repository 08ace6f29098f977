//! Runtime checks of the exclusion sets and the draw engine.

use advice_bot::draw::draw_index;
use advice_bot::exclusion::ExclusionSet;

#[test]
fn empty_set_has_nothing() {
    let s = ExclusionSet::empty(5);
    for i in 0..5 {
        assert!(!s.contains(i));
    }
    assert_eq!(s.count(), 0);
    assert!(!s.is_full());
}

#[test]
fn insert_marks_only_that_index() {
    let mut s = ExclusionSet::empty(4);
    s.insert(2);
    assert!(s.contains(2));
    assert!(!s.contains(0));
    assert!(!s.contains(1));
    assert!(!s.contains(3));
    assert_eq!(s.count(), 1);
}

#[test]
fn clear_resets_everything() {
    let mut s = ExclusionSet::empty(3);
    s.insert(0);
    s.insert(1);
    s.insert(2);
    assert!(s.is_full());
    s.clear();
    assert_eq!(s.count(), 0);
    assert!(!s.contains(1));
}

#[test]
fn union_with_merges() {
    let mut a = ExclusionSet::empty(4);
    let mut b = ExclusionSet::empty(4);
    a.insert(0);
    b.insert(2);
    b.insert(3);
    a.union_with(&b);
    assert!(a.contains(0));
    assert!(!a.contains(1));
    assert!(a.contains(2));
    assert!(a.contains(3));
    assert_eq!(a.count(), 3);
}

#[test]
fn no_repeat_until_exhaustion_then_reset() {
    let mut user = ExclusionSet::empty(5);
    let mut shared = ExclusionSet::empty(5);
    let mut seen = vec![false; 5];
    for _ in 0..5 {
        let i = draw_index(5, &mut user, &mut shared).expect("an index must be eligible");
        assert!(!seen[i], "an index was repeated before exhaustion");
        seen[i] = true;
    }
    assert!(user.is_full());
    assert!(shared.is_full());
    // the very next draw observes an empty set again before selecting
    let next = draw_index(5, &mut user, &mut shared).expect("an index must be eligible");
    assert!(next < 5);
    assert_eq!(user.count(), 1);
    assert!(user.contains(next));
}

#[test]
fn shared_pool_coupling() {
    let mut a = ExclusionSet::empty(4);
    let mut b = ExclusionSet::empty(4);
    let mut shared = ExclusionSet::empty(4);
    let mut seen = vec![false; 4];
    for k in 0..4 {
        let i = if k % 2 == 0 {
            draw_index(4, &mut a, &mut shared)
        } else {
            draw_index(4, &mut b, &mut shared)
        }
        .expect("an index must be eligible");
        assert!(!seen[i], "two users received the same index before the shared reset");
        seen[i] = true;
    }
    assert!(shared.is_full());
    assert_eq!(a.count() + b.count(), 4);
}

#[test]
fn draw_skipped_when_no_index_is_eligible() {
    let mut a = ExclusionSet::empty(2);
    let mut b = ExclusionSet::empty(2);
    a.insert(0);
    b.insert(1);
    assert!(draw_index(2, &mut a, &mut b).is_none());
}

#[test]
fn draw_distribution_is_roughly_uniform() {
    let trials = 4000;
    let mut counts = vec![0usize; 20];
    for _ in 0..trials {
        let mut user = ExclusionSet::empty(20);
        let mut shared = ExclusionSet::empty(20);
        let i = draw_index(20, &mut user, &mut shared).expect("an index must be eligible");
        counts[i] += 1;
    }
    for (i, &c) in counts.iter().enumerate() {
        assert!(
            c >= 100 && c <= 330,
            "index {} was drawn {} times out of {}, far from uniform",
            i,
            c,
            trials
        );
    }
}

use cache_arena::{CacheArena, CacheArenaAllocation, Error, Hash256, SmallVec8};

fn hash(i: usize) -> Hash256 {
    let mut bytes = [0u8; 32];
    bytes[24..].copy_from_slice(&(i as u64).to_be_bytes());
    bytes
}

fn hash_from_slice(slice: &[u8]) -> Hash256 {
    let mut bytes = [0u8; 32];
    bytes.copy_from_slice(slice);
    bytes
}

fn test_routine(arena: &mut CacheArena, sub: &mut CacheArenaAllocation) {
    let mut len = sub.len(arena).expect("should exist");

    sub.push(arena, hash(len)).expect("should push");
    len += 1;

    assert_eq!(
        sub.len(arena).expect("should exist"),
        len,
        "after first push sub should have len {}",
        len
    );
    assert_eq!(
        sub.is_empty(arena).expect("should exist"),
        false,
        "new sub should not be empty"
    );

    sub.push(arena, hash(len)).expect("should push again");
    len += 1;

    assert_eq!(
        sub.len(arena).expect("should exist"),
        len,
        "after second push sub should have len {}",
        len
    );

    sub.extend_with_vec(arena, SmallVec8::from_slice(&[hash(len), hash(len + 1)]))
        .expect("should extend with vec");
    len += 2;

    assert_eq!(
        sub.len(arena).expect("should exist"),
        len,
        "after extend sub should have len {}",
        len
    );

    let collected = sub.iter(arena).expect("should get iter");
    let collected_mut = sub
        .iter_mut(arena)
        .expect("should get mut iter")
        .iter_mut()
        .map(|slice| hash_from_slice(slice))
        .collect::<Vec<_>>();

    for i in 0..len {
        assert_eq!(
            sub.get(arena, i)
                .expect("should exist")
                .expect("should get sub index"),
            hash(i),
            "get({}) should be hash({})",
            i,
            i
        );

        assert_eq!(
            collected[i],
            hash(i),
            "collected[{}] should be hash({})",
            i,
            i
        );

        assert_eq!(
            collected_mut[i],
            hash(i),
            "collected_mut[{}] should be hash({})",
            i,
            i
        );
    }
}

#[test]
fn single() {
    let arena = &mut CacheArena::default();

    assert_eq!(arena.backing_len(), 0, "should start with an empty backing");
    assert_eq!(arena.offsets().len(), 0, "should start without any offsets");

    let mut sub = arena.allocate();

    assert_eq!(
        sub.len(arena).expect("should exist"),
        0,
        "new sub should have len 0"
    );
    assert_eq!(
        sub.is_empty(arena).expect("should exist"),
        true,
        "new sub should be empty"
    );

    test_routine(arena, &mut sub);
}

#[test]
fn double() {
    let arena = &mut CacheArena::default();

    assert_eq!(arena.backing_len(), 0, "should start with an empty backing");
    assert_eq!(arena.offsets().len(), 0, "should start without any offsets");

    let mut sub_01 = arena.allocate();
    assert_eq!(
        sub_01.len(arena).expect("should exist"),
        0,
        "new sub should have len 0"
    );
    assert_eq!(
        sub_01.is_empty(arena).expect("should exist"),
        true,
        "new sub should be empty"
    );

    let mut sub_02 = arena.allocate();
    assert_eq!(
        sub_02.len(arena).expect("should exist"),
        0,
        "new sub should have len 0"
    );
    assert_eq!(
        sub_02.is_empty(arena).expect("should exist"),
        true,
        "new sub should be empty"
    );

    test_routine(arena, &mut sub_01);
    test_routine(arena, &mut sub_02);
}

#[test]
fn one_then_other() {
    let arena = &mut CacheArena::default();

    assert_eq!(arena.backing_len(), 0, "should start with an empty backing");
    assert_eq!(arena.offsets().len(), 0, "should start without any offsets");

    let mut sub_01 = arena.allocate();
    assert_eq!(
        sub_01.len(arena).expect("should exist"),
        0,
        "new sub should have len 0"
    );
    assert_eq!(
        sub_01.is_empty(arena).expect("should exist"),
        true,
        "new sub should be empty"
    );

    test_routine(arena, &mut sub_01);

    let mut sub_02 = arena.allocate();
    assert_eq!(
        sub_02.len(arena).expect("should exist"),
        0,
        "new sub should have len 0"
    );
    assert_eq!(
        sub_02.is_empty(arena).expect("should exist"),
        true,
        "new sub should be empty"
    );

    test_routine(arena, &mut sub_02);
    test_routine(arena, &mut sub_01);
    test_routine(arena, &mut sub_02);
}

#[test]
fn many() {
    let arena = &mut CacheArena::default();

    assert_eq!(arena.backing_len(), 0, "should start with an empty backing");
    assert_eq!(arena.offsets().len(), 0, "should start without any offsets");

    let mut subs = vec![];

    for i in 0..50 {
        if i == 0 {
            let sub = arena.allocate();
            assert_eq!(
                sub.len(arena).expect("should exist"),
                0,
                "new sub should have len 0"
            );
            assert_eq!(
                sub.is_empty(arena).expect("should exist"),
                true,
                "new sub should be empty"
            );
            subs.push(sub);

            continue;
        } else if i % 2 == 0 {
            test_routine(arena, &mut subs[i - 1]);
        }

        let sub = arena.allocate();
        assert_eq!(
            sub.len(arena).expect("should exist"),
            0,
            "new sub should have len 0"
        );
        assert_eq!(
            sub.is_empty(arena).expect("should exist"),
            true,
            "new sub should be empty"
        );
        subs.push(sub);
    }

    for mut sub in subs.iter_mut() {
        test_routine(arena, &mut sub);
    }
}

#[test]
fn unknown_alloc_id_on_empty_arena() {
    let arena = &mut CacheArena::default();
    let stale = CacheArenaAllocation::default();
    assert_eq!(stale.len(arena), Err(Error::UnknownAllocId(0)));
}

#[test]
fn fresh_allocation_is_empty() {
    let arena = &mut CacheArena::with_capacity(16);
    for expected_id in 0..5 {
        let sub = arena.allocate();
        assert_eq!(sub.alloc_id(), expected_id);
        assert_eq!(sub.len(arena), Ok(0));
        assert_eq!(sub.is_empty(arena), Ok(true));
        assert_eq!(sub.get(arena, 0), Ok(None));
        assert_eq!(sub.iter(arena), Ok(vec![]));
        sub.push(arena, hash(expected_id)).unwrap();
    }
}

#[test]
fn pushes_are_read_back_in_order() {
    let arena = &mut CacheArena::default();
    let before = arena.allocate();
    let sub = arena.allocate();
    let after = arena.allocate();
    before.push(arena, hash(1000)).unwrap();
    after.push(arena, hash(2000)).unwrap();

    let n = 10;
    for i in 0..n {
        assert_eq!(sub.push(arena, hash(i * 3 + 1)), Ok(()));
        assert_eq!(sub.len(arena), Ok(i + 1));
    }
    assert_eq!(sub.is_empty(arena), Ok(false));
    for i in 0..n {
        assert_eq!(sub.get(arena, i), Ok(Some(hash(i * 3 + 1))));
    }
    assert_eq!(sub.get(arena, n), Ok(None));
    assert_eq!(sub.get(arena, n + 1), Ok(None));
    assert_eq!(sub.get(arena, usize::MAX), Ok(None));
}

#[test]
fn push_one_value() {
    let arena = &mut CacheArena::default();
    let a = arena.allocate();
    assert_eq!(a.len(arena), Ok(0));
    a.push(arena, hash(1)).unwrap();
    assert_eq!(a.len(arena), Ok(1));
    assert_eq!(a.get(arena, 0), Ok(Some(hash(1))));
    assert_eq!(a.get(arena, 1), Ok(None));
}

#[test]
fn other_allocation_stays_empty() {
    let arena = &mut CacheArena::default();
    let a = arena.allocate();
    let b = arena.allocate();
    a.push(arena, hash(1)).unwrap();
    a.push(arena, hash(2)).unwrap();
    assert_eq!(b.len(arena), Ok(0));
    assert_eq!(b.get(arena, 0), Ok(None));
    assert_eq!(a.len(arena), Ok(2));
}

#[test]
fn extend_and_iterate() {
    let arena = &mut CacheArena::default();
    let a = arena.allocate();
    a.extend_with_vec(arena, SmallVec8::from_slice(&[hash(1), hash(2), hash(3)]))
        .unwrap();
    assert_eq!(a.len(arena), Ok(3));
    assert_eq!(a.iter(arena), Ok(vec![hash(1), hash(2), hash(3)]));
}

#[test]
fn later_allocation_keeps_its_values() {
    let arena = &mut CacheArena::default();
    let a = arena.allocate();
    let b = arena.allocate();
    b.push(arena, hash(7)).unwrap();
    b.push(arena, hash(8)).unwrap();
    assert_eq!(arena.range(b.alloc_id()), Ok(0..2));

    a.extend_with_vec(arena, SmallVec8::from_slice(&[hash(1), hash(2), hash(3)]))
        .unwrap();

    assert_eq!(b.len(arena), Ok(2));
    assert_eq!(b.get(arena, 0), Ok(Some(hash(7))));
    assert_eq!(b.get(arena, 1), Ok(Some(hash(8))));
    assert_eq!(b.get(arena, 2), Ok(None));
    assert_eq!(arena.range(a.alloc_id()), Ok(0..3));
    assert_eq!(arena.range(b.alloc_id()), Ok(3..5));
    assert_eq!(arena.offsets(), &vec![0, 3]);
    assert_eq!(
        arena.backing(),
        &vec![hash(1), hash(2), hash(3), hash(7), hash(8)]
    );
}

#[test]
fn unknown_alloc_id_fails_every_operation() {
    let arena = &mut CacheArena::default();
    for i in 0..3 {
        let sub = arena.allocate();
        sub.push(arena, hash(i)).unwrap();
    }
    let untouched = arena.clone();

    for id in [3usize, 4, 50, usize::MAX] {
        let stale = CacheArenaAllocation::new(id);
        let unknown = Error::UnknownAllocId(id);
        assert_eq!(stale.len(arena), Err(unknown.clone()));
        assert_eq!(stale.is_empty(arena), Err(unknown.clone()));
        assert_eq!(stale.get(arena, 0), Err(unknown.clone()));
        assert_eq!(stale.get_mut(arena, 0), Err(unknown.clone()));
        assert_eq!(stale.iter(arena), Err(unknown.clone()));
        assert_eq!(stale.iter_mut(arena), Err(unknown.clone()));
        assert_eq!(stale.push(arena, hash(9)), Err(unknown.clone()));
        assert_eq!(
            stale.extend_with_vec(arena, SmallVec8::from_slice(&[hash(9)])),
            Err(unknown.clone())
        );
        assert_eq!(
            stale.try_extend_with_vec(arena, SmallVec8::from_slice(&[hash(9)])),
            Some(Err(unknown.clone()))
        );
        assert_eq!(
            stale.extend_from_slice(arena, &[hash(9)]),
            Err(unknown.clone())
        );
        assert_eq!(arena.len(id), Err(unknown.clone()));
        assert_eq!(arena.get(id, 0), Err(unknown.clone()));
        assert_eq!(arena.get_mut(id, 0), Err(unknown.clone()));
        assert_eq!(arena.range(id), Err(unknown.clone()));
        assert_eq!(arena.iter(id), Err(unknown.clone()));
        assert_eq!(arena.iter_mut(id), Err(unknown.clone()));
        assert_eq!(arena.splice_forgetful(id, 0..0, &[hash(9)]), Err(unknown));
        assert_eq!(*arena, untouched);
    }
}

#[test]
fn lengths_add_up_to_backing_len() {
    let arena = &mut CacheArena::default();
    let mut subs = vec![];
    for round in 0..12usize {
        subs.push(arena.allocate());
        for (k, sub) in subs.iter().enumerate() {
            if (round + k) % 3 == 0 {
                sub.push(arena, hash(round * 100 + k)).unwrap();
            } else if (round + k) % 3 == 1 {
                sub.extend_with_vec(
                    arena,
                    SmallVec8::from_slice(&[hash(round), hash(k), hash(round + k)]),
                )
                .unwrap();
            }
        }
        let sum: usize = subs.iter().map(|sub| sub.len(arena).unwrap()).sum();
        assert_eq!(sum, arena.backing_len());
    }
    assert_eq!(arena.backing_len(), 104);
}

#[test]
fn get_is_repeatable() {
    let arena = &mut CacheArena::default();
    let a = arena.allocate();
    let b = arena.allocate();
    a.push(arena, hash(5)).unwrap();
    b.push(arena, hash(6)).unwrap();
    for sub in [a, b, CacheArenaAllocation::new(2)] {
        for i in 0..3 {
            let first = sub.get(arena, i);
            let second = sub.get(arena, i);
            let third = arena.get(sub.alloc_id(), i);
            assert_eq!(first, second);
            assert_eq!(second, third);
        }
    }
    assert_eq!(a.get(arena, 0), Ok(Some(hash(5))));
    assert_eq!(b.get(arena, 0), Ok(Some(hash(6))));
}

fn three_allocations() -> (CacheArena, [CacheArenaAllocation; 3]) {
    let mut arena = CacheArena::default();
    let a = arena.allocate();
    let b = arena.allocate();
    let c = arena.allocate();
    a.extend_from_slice(&mut arena, &[hash(10), hash(11)]).unwrap();
    b.extend_from_slice(&mut arena, &[hash(20), hash(21), hash(22), hash(23)])
        .unwrap();
    c.extend_from_slice(&mut arena, &[hash(30)]).unwrap();
    (arena, [a, b, c])
}

#[test]
fn splice_grows_one_allocation() {
    let (mut arena, [a, b, c]) = three_allocations();
    assert_eq!(
        arena.splice_forgetful(1, 1..2, &[hash(1), hash(2), hash(3)]),
        Ok(())
    );
    assert_eq!(a.iter(&arena), Ok(vec![hash(10), hash(11)]));
    assert_eq!(
        b.iter(&arena),
        Ok(vec![hash(20), hash(1), hash(2), hash(3), hash(22), hash(23)])
    );
    assert_eq!(c.iter(&arena), Ok(vec![hash(30)]));
    assert_eq!(arena.offsets(), &vec![0, 2, 8]);
    assert_eq!(arena.backing_len(), 9);
}

#[test]
fn splice_shrinks_one_allocation() {
    let (mut arena, [a, b, c]) = three_allocations();
    assert_eq!(arena.splice_forgetful(1, 1..4, &[hash(5)]), Ok(()));
    assert_eq!(a.iter(&arena), Ok(vec![hash(10), hash(11)]));
    assert_eq!(b.iter(&arena), Ok(vec![hash(20), hash(5)]));
    assert_eq!(c.iter(&arena), Ok(vec![hash(30)]));
    assert_eq!(arena.offsets(), &vec![0, 2, 4]);
    assert_eq!(arena.backing_len(), 5);

    assert_eq!(arena.splice_forgetful(1, 0..2, &[]), Ok(()));
    assert_eq!(b.len(&arena), Ok(0));
    assert_eq!(c.iter(&arena), Ok(vec![hash(30)]));
    assert_eq!(arena.offsets(), &vec![0, 2, 2]);
}

#[test]
fn splice_of_equal_length_moves_nothing() {
    let (mut arena, [a, b, c]) = three_allocations();
    assert_eq!(
        arena.splice_forgetful(0, 0..2, &[hash(1), hash(2)]),
        Ok(())
    );
    assert_eq!(a.iter(&arena), Ok(vec![hash(1), hash(2)]));
    assert_eq!(
        b.iter(&arena),
        Ok(vec![hash(20), hash(21), hash(22), hash(23)])
    );
    assert_eq!(c.iter(&arena), Ok(vec![hash(30)]));
    assert_eq!(arena.offsets(), &vec![0, 2, 6]);
}

#[test]
fn splice_range_beyond_index_type_is_refused() {
    let (mut arena, _) = three_allocations();
    let untouched = arena.clone();
    assert_eq!(
        arena.splice_forgetful(1, 0..usize::MAX, &[hash(1)]),
        Err(Error::RangeOverFlow)
    );
    assert_eq!(
        arena.splice_forgetful(2, usize::MAX..usize::MAX, &[]),
        Err(Error::RangeOverFlow)
    );
    assert_eq!(
        arena.splice_forgetful(1, usize::MAX - 1..0, &[]),
        Err(Error::RangeOverFlow)
    );
    assert_eq!(arena, untouched);
}

#[test]
fn splice_past_the_allocation_underflows() {
    let (mut arena, _) = three_allocations();
    // Removes the two values of the first allocation and three of the second:
    // the second offset, 2, cannot move five to the left.
    assert_eq!(
        arena.splice_forgetful(0, 0..5, &[]),
        Err(Error::OffsetUnderflow)
    );
    assert_eq!(arena.backing(), &vec![hash(23), hash(30)]);
    assert_eq!(arena.offsets(), &vec![0, 2, 6]);
}

#[test]
fn splice_past_the_allocation_moves_offsets_all_the_same() {
    let (mut arena, _) = three_allocations();
    // One value of the first allocation and one of the second go.
    assert_eq!(arena.splice_forgetful(0, 1..3, &[]), Ok(()));
    assert_eq!(
        arena.backing(),
        &vec![hash(10), hash(21), hash(22), hash(23), hash(30)]
    );
    assert_eq!(arena.offsets(), &vec![0, 0, 4]);
}

#[test]
fn get_mut_changes_one_value() {
    let (mut arena, [a, b, c]) = three_allocations();
    {
        let bytes = b.get_mut(&mut arena, 2).unwrap().unwrap();
        assert_eq!(bytes.len(), 32);
        assert_eq!(bytes, &hash(22)[..]);
        bytes[0] = 0xab;
        bytes[31] = 0xcd;
    }
    let mut changed = hash(22);
    changed[0] = 0xab;
    changed[31] = 0xcd;
    assert_eq!(a.iter(&arena), Ok(vec![hash(10), hash(11)]));
    assert_eq!(
        b.iter(&arena),
        Ok(vec![hash(20), hash(21), changed, hash(23)])
    );
    assert_eq!(c.iter(&arena), Ok(vec![hash(30)]));
    assert_eq!(b.get_mut(&mut arena, 4), Ok(None));
    assert_eq!(c.get_mut(&mut arena, 1), Ok(None));
    assert_eq!(arena.offsets(), &vec![0, 2, 6]);
}

#[test]
fn iter_mut_changes_the_values_of_one_allocation() {
    let (mut arena, [a, b, c]) = three_allocations();
    {
        let values = b.iter_mut(&mut arena).unwrap();
        assert_eq!(values.len(), 4);
        for (i, value) in values.iter_mut().enumerate() {
            assert_eq!(*value, hash(20 + i));
            *value = hash(40 + i);
        }
    }
    assert_eq!(a.iter(&arena), Ok(vec![hash(10), hash(11)]));
    assert_eq!(
        b.iter(&arena),
        Ok(vec![hash(40), hash(41), hash(42), hash(43)])
    );
    assert_eq!(c.iter(&arena), Ok(vec![hash(30)]));
    assert_eq!(arena.offsets(), &vec![0, 2, 6]);
}

#[test]
fn range_is_the_absolute_position() {
    let (arena, _) = three_allocations();
    assert_eq!(arena.range(0), Ok(0..2));
    assert_eq!(arena.range(1), Ok(2..6));
    assert_eq!(arena.range(2), Ok(6..7));
    assert_eq!(arena.range(3), Err(Error::UnknownAllocId(3)));
    assert_eq!(arena.len(1), Ok(4));
    assert_eq!(arena.get(1, 3), Ok(Some(hash(23))));
    assert_eq!(arena.get(1, 4), Ok(None));
}

#[test]
fn extend_capacity_keeps_every_value() {
    let (mut arena, _) = three_allocations();
    let untouched = arena.clone();
    arena.extend_capacity(1000);
    assert_eq!(arena, untouched);
    arena.extend_capacity(0);
    assert_eq!(arena, untouched);
}

#[test]
fn extend_with_more_than_eight_values() {
    let arena = &mut CacheArena::default();
    let a = arena.allocate();
    let b = arena.allocate();
    b.push(arena, hash(99)).unwrap();
    let values: Vec<Hash256> = (0..20).map(hash).collect();
    assert_eq!(
        a.extend_with_vec(arena, SmallVec8::from_slice(&values)),
        Ok(())
    );
    assert_eq!(a.iter(arena), Ok(values.clone()));
    assert_eq!(
        a.try_extend_with_vec(arena, SmallVec8::from_slice(&values[..3])),
        Some(Ok(()))
    );
    assert_eq!(a.len(arena), Ok(23));
    assert_eq!(a.get(arena, 22), Ok(Some(hash(2))));
    assert_eq!(a.extend_with_vec(arena, SmallVec8::from_slice(&[])), Ok(()));
    assert_eq!(a.len(arena), Ok(23));
    assert_eq!(b.iter(arena), Ok(vec![hash(99)]));
}

#[test]
fn from_parts_accepts_a_partition() {
    let backing = vec![hash(1), hash(2), hash(3)];
    let arena = CacheArena::from_parts(backing.clone(), vec![0, 0, 2, 3]).unwrap();
    assert_eq!(arena.backing(), &backing);
    assert_eq!(arena.offsets(), &vec![0, 0, 2, 3]);
    assert_eq!(arena.len(0), Ok(0));
    assert_eq!(arena.iter(1), Ok(vec![hash(1), hash(2)]));
    assert_eq!(arena.iter(2), Ok(vec![hash(3)]));
    assert_eq!(arena.len(3), Ok(0));
    assert_eq!(arena.backing_len(), 3);

    assert!(CacheArena::from_parts(vec![], vec![]).is_some());
    assert!(CacheArena::from_parts(vec![], vec![0, 0]).is_some());
}

#[test]
fn from_parts_rejects_what_is_no_partition() {
    let backing = vec![hash(1), hash(2), hash(3)];
    // Decreasing offsets.
    assert_eq!(CacheArena::from_parts(backing.clone(), vec![0, 2, 1]), None);
    // An offset beyond the end of the store.
    assert_eq!(CacheArena::from_parts(backing.clone(), vec![0, 4]), None);
    // Values before the first allocation.
    assert_eq!(CacheArena::from_parts(backing.clone(), vec![1, 2]), None);
    // Values without any allocation.
    assert_eq!(CacheArena::from_parts(backing, vec![]), None);
}

#[test]
fn handles_compare_by_index() {
    let arena = &mut CacheArena::default();
    let a = arena.allocate();
    let b = arena.allocate();
    assert_eq!(a, CacheArenaAllocation::default());
    assert_eq!(b, CacheArenaAllocation::new(1));
    assert_ne!(a, b);
    assert!(a < b);
    assert!(b > a);
    assert!(a <= a);
    assert!(!(b <= a));
    assert_eq!(
        a.partial_cmp(&b),
        Some(std::cmp::Ordering::Less)
    );
    assert_eq!(
        CacheArenaAllocation::new(7).partial_cmp(&CacheArenaAllocation::new(7)),
        Some(std::cmp::Ordering::Equal)
    );
    assert_eq!(
        CacheArenaAllocation::new(usize::MAX).partial_cmp(&b),
        Some(std::cmp::Ordering::Greater)
    );
    assert_eq!(a.clone(), a);
}

use rtic_core::composite::{claim2, claim3, claim4};
use rtic_core::mutex::{Exclusive, LockFlag, Mutex, Reentered};
use rtic_core::priority::{Core, Priority};
use rtic_core::resource::Resource;

#[test]
fn claim_raises_to_ceiling_and_restores() {
    let mut core = Core::new(2);
    let mut token = Priority::mint(&core, 2);
    let res = Resource::new(7u32, 5);
    let seen = res.claim(&mut token, &mut core, |d: &u32, t: &mut Priority, c: &mut Core| {
        (*d, t.level(), c.level())
    });
    assert_eq!(seen, (7, 5, 5));
    assert_eq!(core.level(), 2);
    assert_eq!(token.level(), 2);
    assert_eq!(core.history(), &vec![5u8, 2u8]);
}

#[test]
fn claim_without_raise_when_token_dominates() {
    let mut core = Core::new(5);
    let mut token = Priority::mint(&core, 5);
    let res = Resource::new(1u32, 3);
    let seen = res.claim(&mut token, &mut core, |_d: &u32, t: &mut Priority, c: &mut Core| {
        (t.level(), c.level())
    });
    assert_eq!(seen, (5, 5));
    assert_eq!(core.level(), 5);
    assert!(core.history().is_empty());
}

#[test]
fn claim_mut_writes_payload() {
    let mut core = Core::new(1);
    let mut token = Priority::mint(&core, 1);
    let mut res = Resource::new(10u32, 4);
    claim_mut_add(&mut res, &mut token, &mut core, 5);
    assert_eq!(*res.borrow(&Priority::mint(&core, 1), &core), 15);
    let raised = Core::new(4);
    assert_eq!(*res.borrow(&Priority::mint(&raised, 4), &raised), 15);
    assert_eq!(core.level(), 1);
    assert_eq!(core.history(), &vec![4u8, 1u8]);
}

fn claim_mut_add(res: &mut Resource<u32>, token: &mut Priority, core: &mut Core, n: u32) {
    res.claim_mut(token, core, |d: &mut u32, _t: &mut Priority, _c: &mut Core| {
        *d += n;
    });
}

#[test]
fn claim_restores_after_early_exit() {
    let mut core = Core::new(2);
    let mut token = Priority::mint(&core, 2);
    let mut res = Resource::new(9u32, 6);
    let out: Result<u32, u32> =
        res.claim_mut(&mut token, &mut core, |d: &mut u32, _t: &mut Priority, _c: &mut Core| {
            if *d > 3 {
                return Err(*d);
            }
            *d = 0;
            Ok(0)
        });
    assert_eq!(out, Err(9));
    assert_eq!(core.level(), 2);
    assert_eq!(token.level(), 2);
    assert_eq!(core.history(), &vec![6u8, 2u8]);
}

#[test]
fn nested_claim_under_dominating_level_raises_nothing() {
    let mut core = Core::new(2);
    let mut token = Priority::mint(&core, 2);
    let mut outer = Resource::new(0u32, 5);
    let mut inner = Resource::new(0u32, 3);
    outer.claim_mut(&mut token, &mut core, |o: &mut u32, t: &mut Priority, c: &mut Core| {
        *o += 1;
        let lvl = inner.claim_mut(t, c, |i: &mut u32, t2: &mut Priority, c2: &mut Core| {
            *i += 1;
            (t2.level(), c2.level())
        });
        assert_eq!(lvl, (5, 5));
    });
    assert_eq!(core.history(), &vec![5u8, 2u8]);
    assert_eq!(core.level(), 2);
    let top_core = Core::new(255);
    let top = Priority::top(&top_core);
    assert_eq!(*outer.borrow(&top, &top_core), 1);
    assert_eq!(*inner.borrow(&top, &top_core), 1);
}

#[test]
fn nested_claim_with_higher_ceiling_raises_again() {
    let mut core = Core::new(1);
    let mut token = Priority::mint(&core, 1);
    let outer = Resource::new(0u8, 3);
    let inner = Resource::new(0u8, 6);
    outer.claim(&mut token, &mut core, |_o: &u8, t: &mut Priority, c: &mut Core| {
        inner.claim(t, c, |_i: &u8, t2: &mut Priority, _c2: &mut Core| t2.level())
    });
    assert_eq!(core.history(), &vec![3u8, 6u8, 3u8, 1u8]);
}

#[test]
fn borrow_with_sufficient_token() {
    let core = Core::new(4);
    let token = Priority::mint(&core, 4);
    let mut res = Resource::new(vec![1u8, 2u8], 4);
    assert_eq!(res.ceiling(), 4);
    res.borrow_mut(&token, &core).push(3);
    assert_eq!(res.borrow(&token, &core), &vec![1u8, 2u8, 3u8]);
}

#[test]
fn token_levels() {
    let core = Core::new(3);
    assert_eq!(Priority::mint(&core, 3).level(), 3);
    assert_eq!(Priority::mint(&core, 1).level(), 1);
    assert_eq!(Priority::top(&Core::new(255)).level(), 255);
    assert_eq!(Core::new(0).level(), 0);
}

#[test]
fn exclusive_lock_succeeds_and_clears_flag() {
    let mut x = 1i32;
    {
        let mut e = Exclusive::new(&mut x);
        assert!(!e.is_locked());
        let r = e.lock(|v: &mut i32| {
            *v += 41;
            *v
        });
        assert_eq!(r, 42);
        assert!(!e.is_locked());
        let again = e.try_lock(|v: &mut i32| *v * 2);
        assert_eq!(again, Ok(84));
        assert!(!e.is_locked());
    }
    assert_eq!(x, 42);
}

#[test]
fn exclusive_reentrant_lock_fails() {
    // The flag an `Exclusive` keeps: an access entered inside another one is
    // refused, however deep the nesting, and only the outermost gets through.
    let mut flag = LockFlag::new();
    assert_eq!(flag.acquire(), Ok(()));
    for _ in 0..3 {
        assert_eq!(flag.acquire(), Err(Reentered));
    }
    flag.release();
    assert_eq!(flag.acquire(), Ok(()));
}

#[test]
fn exclusive_stays_unlocked_between_accesses() {
    let mut x = 5u32;
    let mut e = Exclusive::new(&mut x);
    assert!(!e.is_locked());
    assert_eq!(e.try_lock(|v: &mut u32| *v), Ok(5));
    assert!(!e.is_locked());
    e.lock(|v: &mut u32| *v = 6);
    assert!(!e.is_locked());
    *e += 1;
    assert!(!e.is_locked());
    assert_eq!(*e, 7);
    assert!(!e.is_locked());
    drop(e);
    assert_eq!(x, 7);
}

#[test]
fn lock_flag_refuses_second_acquire() {
    let mut flag = LockFlag::new();
    assert!(!flag.is_set());
    assert_eq!(flag.acquire(), Ok(()));
    assert_eq!(flag.acquire(), Err(Reentered));
    assert_eq!(flag.acquire(), Err(Reentered));
    assert!(flag.is_set());
    flag.release();
    assert!(!flag.is_set());
}

fn bump(m: &mut impl Mutex<T = i32>) -> i32 {
    m.lock(|v: &mut i32| {
        *v += 1;
        *v
    })
}

#[test]
fn mutex_through_mutable_reference() {
    let mut x = 10i32;
    let mut e = Exclusive::new(&mut x);
    let mut r = &mut e;
    assert_eq!(bump(&mut r), 11);
    assert_eq!(bump(&mut e), 12);
    assert_eq!(*e, 12);
}

#[test]
fn exclusive_deref() {
    let mut x = 3u8;
    let mut e = Exclusive::new(&mut x);
    assert_eq!(*e, 3);
    *e = 9;
    assert_eq!(*e, 9);
    drop(e);
    assert_eq!(x, 9);
}

#[test]
fn composite_locks_in_order_and_unlocks_in_reverse() {
    let mut core = Core::new(1);
    let mut token = Priority::mint(&core, 1);
    let mut a = Resource::new(1u32, 2);
    let mut b = Resource::new(2u32, 3);
    let mut c = Resource::new(3u32, 4);
    let seen = claim3(
        &mut a,
        &mut b,
        &mut c,
        &mut token,
        &mut core,
        |x: &mut u32, y: &mut u32, z: &mut u32, t: &mut Priority, k: &mut Core| {
            *x += 10;
            *y += 10;
            *z += 10;
            (t.level(), k.level())
        },
    );
    assert_eq!(seen, (4, 4));
    assert_eq!(core.history(), &vec![2u8, 3u8, 4u8, 3u8, 2u8, 1u8]);
    assert_eq!(core.level(), 1);
    assert_eq!(token.level(), 1);
    let top_core = Core::new(255);
    let top = Priority::top(&top_core);
    assert_eq!(
        (*a.borrow(&top, &top_core), *b.borrow(&top, &top_core), *c.borrow(&top, &top_core)),
        (11, 12, 13)
    );
}

#[test]
fn composite_skips_dominated_ceilings() {
    let mut core = Core::new(3);
    let mut token = Priority::mint(&core, 3);
    let mut a = Resource::new(0u8, 2);
    let mut b = Resource::new(0u8, 5);
    let level = claim2(
        &mut a,
        &mut b,
        &mut token,
        &mut core,
        |x: &mut u8, y: &mut u8, t: &mut Priority, _k: &mut Core| {
            *x = 1;
            *y = 2;
            t.level()
        },
    );
    assert_eq!(level, 5);
    assert_eq!(core.history(), &vec![5u8, 3u8]);
    let top_core = Core::new(255);
    let top = Priority::top(&top_core);
    assert_eq!((*a.borrow(&top, &top_core), *b.borrow(&top, &top_core)), (1, 2));
}

#[test]
fn composite_same_order_from_two_call_sites() {
    let mut core = Core::new(0);
    let mut token = Priority::mint(&core, 0);
    let mut a = Resource::new(0u32, 2);
    let mut b = Resource::new(0u32, 4);
    for _ in 0..2 {
        claim2(
            &mut a,
            &mut b,
            &mut token,
            &mut core,
            |x: &mut u32, y: &mut u32, _t: &mut Priority, _k: &mut Core| {
                *x += 1;
                *y += 1;
            },
        );
    }
    assert_eq!(core.history(), &vec![2u8, 4u8, 2u8, 0u8, 2u8, 4u8, 2u8, 0u8]);
}

#[test]
fn claim_with_token_equal_to_ceiling_raises_nothing() {
    let mut core = Core::new(4);
    let mut token = Priority::mint(&core, 4);
    let mut res = Resource::new(0u16, 4);
    let lvl = res.claim_mut(&mut token, &mut core, |d: &mut u16, t: &mut Priority, _c: &mut Core| {
        *d = 300;
        t.level()
    });
    assert_eq!(lvl, 4);
    assert!(core.history().is_empty());
    assert_eq!(*res.borrow(&token, &core), 300);
}

#[test]
fn top_token_dominates_every_ceiling() {
    let mut core = Core::new(255);
    let mut token = Priority::top(&core);
    let res = Resource::new(1u8, 255);
    let lvl = res.claim(&mut token, &mut core, |_d: &u8, t: &mut Priority, c: &mut Core| {
        (t.level(), c.level())
    });
    assert_eq!(lvl, (255, 255));
    assert!(core.history().is_empty());
}

#[test]
fn claim_from_level_zero_to_highest_ceiling() {
    let mut core = Core::new(0);
    let mut token = Priority::mint(&core, 0);
    let res = Resource::new(1u8, 255);
    let lvl = res.claim(&mut token, &mut core, |_d: &u8, t: &mut Priority, _c: &mut Core| t.level());
    assert_eq!(lvl, 255);
    assert_eq!(core.history(), &vec![255u8, 0u8]);
    assert_eq!(token.level(), 0);
}

#[test]
fn composite_of_four_locks_in_order() {
    let mut core = Core::new(1);
    let mut token = Priority::mint(&core, 1);
    let mut a = Resource::new(0u8, 2);
    let mut b = Resource::new(0u8, 3);
    let mut c = Resource::new(0u8, 3);
    let mut d = Resource::new(0u8, 7);
    let seen = claim4(
        &mut a,
        &mut b,
        &mut c,
        &mut d,
        &mut token,
        &mut core,
        |w: &mut u8, x: &mut u8, y: &mut u8, z: &mut u8, t: &mut Priority, k: &mut Core| {
            *w = 1;
            *x = 2;
            *y = 3;
            *z = 4;
            (t.level(), k.level())
        },
    );
    assert_eq!(seen, (7, 7));
    assert_eq!(core.history(), &vec![2u8, 3u8, 7u8, 3u8, 2u8, 1u8]);
    assert_eq!(token.level(), 1);
    let top_core = Core::new(255);
    let top = Priority::top(&top_core);
    assert_eq!(
        (
            *a.borrow(&top, &top_core),
            *b.borrow(&top, &top_core),
            *c.borrow(&top, &top_core),
            *d.borrow(&top, &top_core)
        ),
        (1, 2, 3, 4)
    );
}

//! Claims over several resources at once, taken in one fixed order.
use vstd::prelude::*;
use crate::priority::{Core, CoreView, Priority};
use crate::resource::{section_entry, section_level, Resource};

verus! {

/// The token level inside claims nested over `ceilings`, left to right,
/// entered from a token at `level`.
pub open spec fn nested_level(level: u8, ceilings: Seq<u8>) -> u8
    decreases ceilings.len(),
{
    if ceilings.len() == 0 {
        level
    } else {
        nested_level(section_level(level, ceilings[0]), ceilings.drop_first())
    }
}

/// The dynamic priority inside claims nested over `ceilings`, left to right.
pub open spec fn nested_entry(core: CoreView, level: u8, ceilings: Seq<u8>) -> CoreView
    decreases ceilings.len(),
{
    if ceilings.len() == 0 {
        core
    } else {
        nested_entry(
            section_entry(core, level, ceilings[0]),
            section_level(level, ceilings[0]),
            ceilings.drop_first(),
        )
    }
}

/// The dynamic priority once claims nested over `ceilings` have unwound,
/// innermost first, where `inner` is what the innermost section left and
/// `core` what the outermost one was entered with.
pub open spec fn nested_exit(inner: CoreView, core: CoreView, level: u8, ceilings: Seq<u8>) -> CoreView
    decreases ceilings.len(),
{
    if ceilings.len() == 0 {
        inner
    } else {
        nested_exit(
            inner,
            section_entry(core, level, ceilings[0]),
            section_level(level, ceilings[0]),
            ceilings.drop_first(),
        ).restore(core.running)
    }
}

/// Enters the critical section on one resource, returning the token level
/// inside it.
fn enter(core: &mut Core, level: u8, ceiling: u8) -> (r: u8)
    requires
        level <= old(core)@.running,
    ensures
        r <= final(core)@.running,
        r == section_level(level, ceiling),
        final(core)@ == section_entry(old(core)@, level, ceiling),
{
    if level >= ceiling {
        level
    } else {
        core.raise(ceiling);
        ceiling
    }
}

/// Claims `a` and then `b`, runs `f` on both payloads, and unwinds the claims
/// in reverse order.
pub fn claim2<A, B, R, F>(
    a: &mut Resource<A>,
    b: &mut Resource<B>,
    token: &mut Priority,
    core: &mut Core,
    f: F,
) -> (r: R)
    where
        F: FnOnce(&mut A, &mut B, &mut Priority, &mut Core) -> R,
    requires
        old(token)@ <= old(core)@.running,
        forall|da: &mut A, db: &mut B, t: &mut Priority, k: &mut Core|
            *da == old(a).payload() && *db == old(b).payload()
                && t@ == nested_level(old(token)@, seq![old(a).ceiling(), old(b).ceiling()])
                && k@ == nested_entry(old(core)@, old(token)@, seq![old(a).ceiling(), old(b).ceiling()])
                ==> #[trigger] f.requires((da, db, t, k)),
    ensures
        final(a).ceiling() == old(a).ceiling(),
        final(b).ceiling() == old(b).ceiling(),
        final(token)@ == old(token)@,
        final(core)@.running == old(core)@.running,
        exists|da: &mut A, db: &mut B, t: &mut Priority, k: &mut Core|
            *da == old(a).payload() && *db == old(b).payload()
                && t@ == nested_level(old(token)@, seq![old(a).ceiling(), old(b).ceiling()])
                && k@ == nested_entry(old(core)@, old(token)@, seq![old(a).ceiling(), old(b).ceiling()])
                && #[trigger] f.ensures((da, db, t, k), r)
                && final(a).payload() == *final(da)
                && final(b).payload() == *final(db)
                && final(core)@ == nested_exit(final(k)@, old(core)@, old(token)@, seq![old(a).ceiling(), old(b).ceiling()]),
{
    let ghost cs = seq![a.ceiling(), b.ceiling()];
    let ghost c0 = core@;
    let l0 = token.level();
    let p0 = core.level();
    let l1 = enter(core, l0, a.ceiling());
    let p1 = core.level();
    let ghost c1 = core@;
    let l2 = enter(core, l1, b.ceiling());
    proof {
        reveal_with_fuel(nested_entry, 3);
        reveal_with_fuel(nested_level, 3);
        assert(cs.drop_first().drop_first() =~= Seq::<u8>::empty());
        assert(cs.drop_first() =~= seq![cs[1]]);
    }
    let mut inner = Priority::mint(core, l2);
    let r = f(a.section_data(), b.section_data(), &mut inner, core);
    let ghost ci = core@;
    core.restore(p1);
    core.restore(p0);
    proof {
        reveal_with_fuel(nested_exit, 3);
        assert(cs.drop_first().drop_first() =~= Seq::<u8>::empty());
        assert(cs.drop_first() =~= seq![cs[1]]);
        assert(nested_exit(ci, c0, l0, cs) == ci.restore(c1.running).restore(c0.running));
    }
    r
}

/// Claims `a`, `b` and then `c`, runs `f` on the three payloads, and unwinds
/// the claims in reverse order.
pub fn claim3<A, B, C, R, F>(
    a: &mut Resource<A>,
    b: &mut Resource<B>,
    c: &mut Resource<C>,
    token: &mut Priority,
    core: &mut Core,
    f: F,
) -> (r: R)
    where
        F: FnOnce(&mut A, &mut B, &mut C, &mut Priority, &mut Core) -> R,
    requires
        old(token)@ <= old(core)@.running,
        forall|da: &mut A, db: &mut B, dc: &mut C, t: &mut Priority, k: &mut Core|
            *da == old(a).payload() && *db == old(b).payload() && *dc == old(c).payload()
                && t@ == nested_level(old(token)@, seq![old(a).ceiling(), old(b).ceiling(), old(c).ceiling()])
                && k@ == nested_entry(old(core)@, old(token)@, seq![old(a).ceiling(), old(b).ceiling(), old(c).ceiling()])
                ==> #[trigger] f.requires((da, db, dc, t, k)),
    ensures
        final(a).ceiling() == old(a).ceiling(),
        final(b).ceiling() == old(b).ceiling(),
        final(c).ceiling() == old(c).ceiling(),
        final(token)@ == old(token)@,
        final(core)@.running == old(core)@.running,
        exists|da: &mut A, db: &mut B, dc: &mut C, t: &mut Priority, k: &mut Core|
            *da == old(a).payload() && *db == old(b).payload() && *dc == old(c).payload()
                && t@ == nested_level(old(token)@, seq![old(a).ceiling(), old(b).ceiling(), old(c).ceiling()])
                && k@ == nested_entry(old(core)@, old(token)@, seq![old(a).ceiling(), old(b).ceiling(), old(c).ceiling()])
                && #[trigger] f.ensures((da, db, dc, t, k), r)
                && final(a).payload() == *final(da)
                && final(b).payload() == *final(db)
                && final(c).payload() == *final(dc)
                && final(core)@ == nested_exit(final(k)@, old(core)@, old(token)@, seq![old(a).ceiling(), old(b).ceiling(), old(c).ceiling()]),
{
    let ghost cs = seq![a.ceiling(), b.ceiling(), c.ceiling()];
    let ghost c0 = core@;
    let l0 = token.level();
    let p0 = core.level();
    let l1 = enter(core, l0, a.ceiling());
    let p1 = core.level();
    let ghost c1 = core@;
    let l2 = enter(core, l1, b.ceiling());
    let p2 = core.level();
    let ghost c2 = core@;
    let l3 = enter(core, l2, c.ceiling());
    proof {
        reveal_with_fuel(nested_entry, 4);
        reveal_with_fuel(nested_level, 4);
        assert(cs.drop_first().drop_first().drop_first() =~= Seq::<u8>::empty());
        assert(cs.drop_first().drop_first() =~= seq![cs[2]]);
        assert(cs.drop_first() =~= seq![cs[1], cs[2]]);
    }
    let mut inner = Priority::mint(core, l3);
    let r = f(a.section_data(), b.section_data(), c.section_data(), &mut inner, core);
    let ghost ci = core@;
    core.restore(p2);
    core.restore(p1);
    core.restore(p0);
    proof {
        reveal_with_fuel(nested_exit, 4);
        assert(cs.drop_first().drop_first().drop_first() =~= Seq::<u8>::empty());
        assert(cs.drop_first().drop_first() =~= seq![cs[2]]);
        assert(cs.drop_first() =~= seq![cs[1], cs[2]]);
        assert(nested_exit(ci, c0, l0, cs) == ci.restore(c2.running).restore(c1.running).restore(c0.running));
    }
    r
}

/// Claims `a`, `b`, `c` and then `d`, runs `f` on the four payloads, and
/// unwinds the claims in reverse order.
pub fn claim4<A, B, C, D, R, F>(
    a: &mut Resource<A>,
    b: &mut Resource<B>,
    c: &mut Resource<C>,
    d: &mut Resource<D>,
    token: &mut Priority,
    core: &mut Core,
    f: F,
) -> (r: R)
    where
        F: FnOnce(&mut A, &mut B, &mut C, &mut D, &mut Priority, &mut Core) -> R,
    requires
        old(token)@ <= old(core)@.running,
        forall|da: &mut A, db: &mut B, dc: &mut C, dd: &mut D, t: &mut Priority, k: &mut Core|
            *da == old(a).payload() && *db == old(b).payload() && *dc == old(c).payload() && *dd == old(d).payload()
                && t@ == nested_level(old(token)@, seq![old(a).ceiling(), old(b).ceiling(), old(c).ceiling(), old(d).ceiling()])
                && k@ == nested_entry(old(core)@, old(token)@, seq![old(a).ceiling(), old(b).ceiling(), old(c).ceiling(), old(d).ceiling()])
                ==> #[trigger] f.requires((da, db, dc, dd, t, k)),
    ensures
        final(a).ceiling() == old(a).ceiling(),
        final(b).ceiling() == old(b).ceiling(),
        final(c).ceiling() == old(c).ceiling(),
        final(d).ceiling() == old(d).ceiling(),
        final(token)@ == old(token)@,
        final(core)@.running == old(core)@.running,
        exists|da: &mut A, db: &mut B, dc: &mut C, dd: &mut D, t: &mut Priority, k: &mut Core|
            *da == old(a).payload() && *db == old(b).payload() && *dc == old(c).payload() && *dd == old(d).payload()
                && t@ == nested_level(old(token)@, seq![old(a).ceiling(), old(b).ceiling(), old(c).ceiling(), old(d).ceiling()])
                && k@ == nested_entry(old(core)@, old(token)@, seq![old(a).ceiling(), old(b).ceiling(), old(c).ceiling(), old(d).ceiling()])
                && #[trigger] f.ensures((da, db, dc, dd, t, k), r)
                && final(a).payload() == *final(da)
                && final(b).payload() == *final(db)
                && final(c).payload() == *final(dc)
                && final(d).payload() == *final(dd)
                && final(core)@ == nested_exit(final(k)@, old(core)@, old(token)@, seq![old(a).ceiling(), old(b).ceiling(), old(c).ceiling(), old(d).ceiling()]),
{
    let ghost cs = seq![a.ceiling(), b.ceiling(), c.ceiling(), d.ceiling()];
    let ghost c0 = core@;
    let l0 = token.level();
    let p0 = core.level();
    let l1 = enter(core, l0, a.ceiling());
    let p1 = core.level();
    let ghost c1 = core@;
    let l2 = enter(core, l1, b.ceiling());
    let p2 = core.level();
    let ghost c2 = core@;
    let l3 = enter(core, l2, c.ceiling());
    let p3 = core.level();
    let ghost c3 = core@;
    let l4 = enter(core, l3, d.ceiling());
    proof {
        reveal_with_fuel(nested_entry, 5);
        reveal_with_fuel(nested_level, 5);
        assert(cs.drop_first().drop_first().drop_first().drop_first() =~= Seq::<u8>::empty());
        assert(cs.drop_first().drop_first().drop_first() =~= seq![cs[3]]);
        assert(cs.drop_first().drop_first() =~= seq![cs[2], cs[3]]);
        assert(cs.drop_first() =~= seq![cs[1], cs[2], cs[3]]);
    }
    let mut inner = Priority::mint(core, l4);
    let r = f(a.section_data(), b.section_data(), c.section_data(), d.section_data(), &mut inner, core);
    let ghost ci = core@;
    core.restore(p3);
    core.restore(p2);
    core.restore(p1);
    core.restore(p0);
    proof {
        reveal_with_fuel(nested_exit, 5);
        assert(cs.drop_first().drop_first().drop_first().drop_first() =~= Seq::<u8>::empty());
        assert(cs.drop_first().drop_first().drop_first() =~= seq![cs[3]]);
        assert(cs.drop_first().drop_first() =~= seq![cs[2], cs[3]]);
        assert(cs.drop_first() =~= seq![cs[1], cs[2], cs[3]]);
        assert(nested_exit(ci, c0, l0, cs) == ci.restore(c3.running).restore(c2.running).restore(c1.running).restore(c0.running));
    }
    r
}

/// Claims `a` to `e`, left to right, runs `f` on the five payloads, and
/// unwinds the claims in reverse order.
pub fn claim5<A, B, C, D, E, R, F>(
    a: &mut Resource<A>,
    b: &mut Resource<B>,
    c: &mut Resource<C>,
    d: &mut Resource<D>,
    e: &mut Resource<E>,
    token: &mut Priority,
    core: &mut Core,
    f: F,
) -> (r: R)
    where
        F: FnOnce(&mut A, &mut B, &mut C, &mut D, &mut E, &mut Priority, &mut Core) -> R,
    requires
        old(token)@ <= old(core)@.running,
        forall|da: &mut A, db: &mut B, dc: &mut C, dd: &mut D, de: &mut E, t: &mut Priority, k: &mut Core|
            *da == old(a).payload() && *db == old(b).payload() && *dc == old(c).payload() && *dd == old(d).payload() && *de == old(e).payload()
                && t@ == nested_level(old(token)@, seq![old(a).ceiling(), old(b).ceiling(), old(c).ceiling(), old(d).ceiling(), old(e).ceiling()])
                && k@ == nested_entry(old(core)@, old(token)@, seq![old(a).ceiling(), old(b).ceiling(), old(c).ceiling(), old(d).ceiling(), old(e).ceiling()])
                ==> #[trigger] f.requires((da, db, dc, dd, de, t, k)),
    ensures
        final(a).ceiling() == old(a).ceiling(),
        final(b).ceiling() == old(b).ceiling(),
        final(c).ceiling() == old(c).ceiling(),
        final(d).ceiling() == old(d).ceiling(),
        final(e).ceiling() == old(e).ceiling(),
        final(token)@ == old(token)@,
        final(core)@.running == old(core)@.running,
        exists|da: &mut A, db: &mut B, dc: &mut C, dd: &mut D, de: &mut E, t: &mut Priority, k: &mut Core|
            *da == old(a).payload() && *db == old(b).payload() && *dc == old(c).payload() && *dd == old(d).payload() && *de == old(e).payload()
                && t@ == nested_level(old(token)@, seq![old(a).ceiling(), old(b).ceiling(), old(c).ceiling(), old(d).ceiling(), old(e).ceiling()])
                && k@ == nested_entry(old(core)@, old(token)@, seq![old(a).ceiling(), old(b).ceiling(), old(c).ceiling(), old(d).ceiling(), old(e).ceiling()])
                && #[trigger] f.ensures((da, db, dc, dd, de, t, k), r)
                && final(a).payload() == *final(da)
                && final(b).payload() == *final(db)
                && final(c).payload() == *final(dc)
                && final(d).payload() == *final(dd)
                && final(e).payload() == *final(de)
                && final(core)@ == nested_exit(final(k)@, old(core)@, old(token)@, seq![old(a).ceiling(), old(b).ceiling(), old(c).ceiling(), old(d).ceiling(), old(e).ceiling()]),
{
    let ghost cs = seq![a.ceiling(), b.ceiling(), c.ceiling(), d.ceiling(), e.ceiling()];
    let ghost c0 = core@;
    let l0 = token.level();
    let p0 = core.level();
    let l1 = enter(core, l0, a.ceiling());
    let p1 = core.level();
    let ghost c1 = core@;
    let l2 = enter(core, l1, b.ceiling());
    let p2 = core.level();
    let ghost c2 = core@;
    let l3 = enter(core, l2, c.ceiling());
    let p3 = core.level();
    let ghost c3 = core@;
    let l4 = enter(core, l3, d.ceiling());
    let p4 = core.level();
    let ghost c4 = core@;
    let l5 = enter(core, l4, e.ceiling());
    proof {
        reveal_with_fuel(nested_entry, 6);
        reveal_with_fuel(nested_level, 6);
        assert(cs.drop_first().drop_first().drop_first().drop_first().drop_first() =~= Seq::<u8>::empty());
        assert(cs.drop_first().drop_first().drop_first().drop_first() =~= seq![cs[4]]);
        assert(cs.drop_first().drop_first().drop_first() =~= seq![cs[3], cs[4]]);
        assert(cs.drop_first().drop_first() =~= seq![cs[2], cs[3], cs[4]]);
        assert(cs.drop_first() =~= seq![cs[1], cs[2], cs[3], cs[4]]);
    }
    let mut inner = Priority::mint(core, l5);
    let r = f(
        a.section_data(),
        b.section_data(),
        c.section_data(),
        d.section_data(),
        e.section_data(),
        &mut inner,
        core,
    );
    let ghost ci = core@;
    core.restore(p4);
    core.restore(p3);
    core.restore(p2);
    core.restore(p1);
    core.restore(p0);
    proof {
        reveal_with_fuel(nested_exit, 6);
        assert(cs.drop_first().drop_first().drop_first().drop_first().drop_first() =~= Seq::<u8>::empty());
        assert(cs.drop_first().drop_first().drop_first().drop_first() =~= seq![cs[4]]);
        assert(cs.drop_first().drop_first().drop_first() =~= seq![cs[3], cs[4]]);
        assert(cs.drop_first().drop_first() =~= seq![cs[2], cs[3], cs[4]]);
        assert(cs.drop_first() =~= seq![cs[1], cs[2], cs[3], cs[4]]);
        assert(nested_exit(ci, c0, l0, cs) == ci.restore(c4.running).restore(c3.running).restore(c2.running).restore(c1.running).restore(c0.running));
    }
    r
}

/// Claims `a` to `g`, left to right, runs `f` on the six payloads, and
/// unwinds the claims in reverse order.
pub fn claim6<A, B, C, D, E, G, R, F>(
    a: &mut Resource<A>,
    b: &mut Resource<B>,
    c: &mut Resource<C>,
    d: &mut Resource<D>,
    e: &mut Resource<E>,
    g: &mut Resource<G>,
    token: &mut Priority,
    core: &mut Core,
    f: F,
) -> (r: R)
    where
        F: FnOnce(&mut A, &mut B, &mut C, &mut D, &mut E, &mut G, &mut Priority, &mut Core) -> R,
    requires
        old(token)@ <= old(core)@.running,
        forall|da: &mut A, db: &mut B, dc: &mut C, dd: &mut D, de: &mut E, dg: &mut G, t: &mut Priority, k: &mut Core|
            *da == old(a).payload() && *db == old(b).payload() && *dc == old(c).payload() && *dd == old(d).payload() && *de == old(e).payload() && *dg == old(g).payload()
                && t@ == nested_level(old(token)@, seq![old(a).ceiling(), old(b).ceiling(), old(c).ceiling(), old(d).ceiling(), old(e).ceiling(), old(g).ceiling()])
                && k@ == nested_entry(old(core)@, old(token)@, seq![old(a).ceiling(), old(b).ceiling(), old(c).ceiling(), old(d).ceiling(), old(e).ceiling(), old(g).ceiling()])
                ==> #[trigger] f.requires((da, db, dc, dd, de, dg, t, k)),
    ensures
        final(a).ceiling() == old(a).ceiling(),
        final(b).ceiling() == old(b).ceiling(),
        final(c).ceiling() == old(c).ceiling(),
        final(d).ceiling() == old(d).ceiling(),
        final(e).ceiling() == old(e).ceiling(),
        final(g).ceiling() == old(g).ceiling(),
        final(token)@ == old(token)@,
        final(core)@.running == old(core)@.running,
        exists|da: &mut A, db: &mut B, dc: &mut C, dd: &mut D, de: &mut E, dg: &mut G, t: &mut Priority, k: &mut Core|
            *da == old(a).payload() && *db == old(b).payload() && *dc == old(c).payload() && *dd == old(d).payload() && *de == old(e).payload() && *dg == old(g).payload()
                && t@ == nested_level(old(token)@, seq![old(a).ceiling(), old(b).ceiling(), old(c).ceiling(), old(d).ceiling(), old(e).ceiling(), old(g).ceiling()])
                && k@ == nested_entry(old(core)@, old(token)@, seq![old(a).ceiling(), old(b).ceiling(), old(c).ceiling(), old(d).ceiling(), old(e).ceiling(), old(g).ceiling()])
                && #[trigger] f.ensures((da, db, dc, dd, de, dg, t, k), r)
                && final(a).payload() == *final(da)
                && final(b).payload() == *final(db)
                && final(c).payload() == *final(dc)
                && final(d).payload() == *final(dd)
                && final(e).payload() == *final(de)
                && final(g).payload() == *final(dg)
                && final(core)@ == nested_exit(final(k)@, old(core)@, old(token)@, seq![old(a).ceiling(), old(b).ceiling(), old(c).ceiling(), old(d).ceiling(), old(e).ceiling(), old(g).ceiling()]),
{
    let ghost cs = seq![a.ceiling(), b.ceiling(), c.ceiling(), d.ceiling(), e.ceiling(), g.ceiling()];
    let ghost c0 = core@;
    let l0 = token.level();
    let p0 = core.level();
    let l1 = enter(core, l0, a.ceiling());
    let p1 = core.level();
    let ghost c1 = core@;
    let l2 = enter(core, l1, b.ceiling());
    let p2 = core.level();
    let ghost c2 = core@;
    let l3 = enter(core, l2, c.ceiling());
    let p3 = core.level();
    let ghost c3 = core@;
    let l4 = enter(core, l3, d.ceiling());
    let p4 = core.level();
    let ghost c4 = core@;
    let l5 = enter(core, l4, e.ceiling());
    let p5 = core.level();
    let ghost c5 = core@;
    let l6 = enter(core, l5, g.ceiling());
    proof {
        reveal_with_fuel(nested_entry, 7);
        reveal_with_fuel(nested_level, 7);
        assert(cs.drop_first().drop_first().drop_first().drop_first().drop_first().drop_first() =~= Seq::<u8>::empty());
        assert(cs.drop_first().drop_first().drop_first().drop_first().drop_first() =~= seq![cs[5]]);
        assert(cs.drop_first().drop_first().drop_first().drop_first() =~= seq![cs[4], cs[5]]);
        assert(cs.drop_first().drop_first().drop_first() =~= seq![cs[3], cs[4], cs[5]]);
        assert(cs.drop_first().drop_first() =~= seq![cs[2], cs[3], cs[4], cs[5]]);
        assert(cs.drop_first() =~= seq![cs[1], cs[2], cs[3], cs[4], cs[5]]);
    }
    let mut inner = Priority::mint(core, l6);
    let r = f(
        a.section_data(),
        b.section_data(),
        c.section_data(),
        d.section_data(),
        e.section_data(),
        g.section_data(),
        &mut inner,
        core,
    );
    let ghost ci = core@;
    core.restore(p5);
    core.restore(p4);
    core.restore(p3);
    core.restore(p2);
    core.restore(p1);
    core.restore(p0);
    proof {
        reveal_with_fuel(nested_exit, 7);
        assert(cs.drop_first().drop_first().drop_first().drop_first().drop_first().drop_first() =~= Seq::<u8>::empty());
        assert(cs.drop_first().drop_first().drop_first().drop_first().drop_first() =~= seq![cs[5]]);
        assert(cs.drop_first().drop_first().drop_first().drop_first() =~= seq![cs[4], cs[5]]);
        assert(cs.drop_first().drop_first().drop_first() =~= seq![cs[3], cs[4], cs[5]]);
        assert(cs.drop_first().drop_first() =~= seq![cs[2], cs[3], cs[4], cs[5]]);
        assert(cs.drop_first() =~= seq![cs[1], cs[2], cs[3], cs[4], cs[5]]);
        assert(nested_exit(ci, c0, l0, cs) == ci.restore(c5.running).restore(c4.running).restore(c3.running).restore(c2.running).restore(c1.running).restore(c0.running));
    }
    r
}

/// Claims nested over any sequence of resources, entered with a token that
/// does not overstate the running priority, run at or above every one of
/// their ceilings, with a token that still does not overstate the running
/// priority.
pub proof fn nested_sections_run_at_ceilings(core: CoreView, level: u8, ceilings: Seq<u8>)
    requires
        level <= core.running,
    ensures
        level <= nested_level(level, ceilings),
        nested_level(level, ceilings) <= nested_entry(core, level, ceilings).running,
        forall|i: int| 0 <= i < ceilings.len() ==> #[trigger] ceilings[i] <= nested_level(level, ceilings),
    decreases ceilings.len(),
{
    if ceilings.len() > 0 {
        let rest = ceilings.drop_first();
        nested_sections_run_at_ceilings(
            section_entry(core, level, ceilings[0]),
            section_level(level, ceilings[0]),
            rest,
        );
        assert forall|i: int| 0 <= i < ceilings.len() implies #[trigger] ceilings[i] <= nested_level(
            level,
            ceilings,
        ) by {
            if i > 0 {
                assert(ceilings[i] == rest[i - 1]);
            }
        }
    }
}

/// Claims nested over three resources whose `ceilings` rise above the running
/// priority lock them in order, first to last: the dynamic priority is written
/// with their ceilings in that order. Unwinding unlocks them last to first:
/// the priority goes back to the second ceiling, then to the first, then to
/// where it started.
pub proof fn nested_claims_lock_in_order(core: CoreView, ceilings: Seq<u8>)
    requires
        ceilings.len() == 3,
        core.running < ceilings[0] < ceilings[1] < ceilings[2],
    ensures
        nested_level(core.running, ceilings) == ceilings[2],
        nested_entry(core, core.running, ceilings).running == ceilings[2],
        nested_entry(core, core.running, ceilings).writes == core.writes + ceilings,
        forall|inner: CoreView|
            inner.running == ceilings[2] ==> (#[trigger] nested_exit(
                inner,
                core,
                core.running,
                ceilings,
            )).running == core.running && nested_exit(inner, core, core.running, ceilings).writes
                == inner.writes + seq![ceilings[1], ceilings[0], core.running],
{
    let cs = ceilings;
    reveal_with_fuel(nested_entry, 4);
    reveal_with_fuel(nested_level, 4);
    reveal_with_fuel(nested_exit, 4);
    assert(cs.drop_first().drop_first().drop_first() =~= Seq::<u8>::empty());
    assert(cs.drop_first().drop_first() =~= seq![cs[2]]);
    assert(cs.drop_first() =~= seq![cs[1], cs[2]]);
    assert(core.writes.push(cs[0]).push(cs[1]).push(cs[2]) =~= core.writes + cs);
    assert forall|inner: CoreView| inner.running == cs[2] implies (#[trigger] nested_exit(
        inner,
        core,
        core.running,
        cs,
    )).writes == inner.writes + seq![cs[1], cs[0], core.running] by {
        assert(inner.writes.push(cs[1]).push(cs[0]).push(core.running) =~= inner.writes + seq![
            cs[1],
            cs[0],
            core.running,
        ]);
    }
}

} // verus!

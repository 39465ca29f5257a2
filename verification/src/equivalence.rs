//! The relation between the two execution modes.
//!
//! Feeding a program one instruction at a time reproduces the end state
//! of running the same program in batch mode, provided the program is
//! one on which the two modes follow the same path: it opens with its
//! only `main` label, closes with its only halt instruction, fires no
//! branch (the incremental driver knows only the labels it has already
//! seen, and a fired branch makes it re-evaluate old buffer positions
//! instead of the freshly fed instruction), and no step faults.
//! [`lemma_incremental_matches_batch`] states and proves this.

use crate::instructions::InstrV;
use crate::vm::{
    batch_stopped, branch_taken, has_hlt, istep, run_from, spec_build, step, zero_regs, CoreState,
    VmState,
};
use vstd::prelude::*;

verus! {

/// The state of a fresh machine, as [`crate::vm::VM::new`] creates it.
pub open spec fn fresh_state() -> VmState {
    VmState {
        program: Seq::empty(),
        core: CoreState {
            regs: zero_regs(),
            ip: 0,
            jumps: Map::empty(),
            running: true,
            output: Seq::empty(),
        },
    }
}

/// The machine state after feeding the instructions of `p` to the
/// incremental driver one at a time, starting from `s`.
pub open spec fn feed(s: VmState, p: Seq<InstrV>) -> VmState
    decreases p.len(),
{
    if p.len() == 0 {
        s
    } else {
        istep(feed(s, p.drop_last()), p.last()).0
    }
}

/// No instruction faults while `p` is fed to the incremental driver
/// starting from `s`.
pub open spec fn feed_faultless(s: VmState, p: Seq<InstrV>) -> bool {
    forall|k: int|
        0 <= k < p.len() ==> (#[trigger] istep(feed(s, p.take(k)), p[k])).1 is None
}

/// No branch fires while `p` is fed to the incremental driver
/// starting from `s`: every branch instruction's condition is false in
/// the state it is evaluated in.  An unconditional branch always
/// fires, so `p` holds none.
pub open spec fn no_branch_fires(s: VmState, p: Seq<InstrV>) -> bool {
    forall|k: int|
        0 <= k < p.len() && (#[trigger] p[k]) is Branch ==> !branch_taken(
            feed(s, p.take(k)).core,
            p[k]->Branch_0,
        )
}

/// `p` opens with a `main` label and defines no other label of that
/// name.
pub open spec fn main_first(p: Seq<InstrV>) -> bool {
    &&& p.len() > 0
    &&& p[0] == InstrV::Control("main"@)
    &&& forall|k: int| 1 <= k < p.len() ==> (#[trigger] p[k]) != InstrV::Control("main"@)
}

/// `p` closes with its only halt instruction.
pub open spec fn halt_last(p: Seq<InstrV>) -> bool {
    &&& p.len() > 0
    &&& p.last() is HLT
    &&& forall|k: int| 0 <= k < p.len() - 1 ==> !((#[trigger] p[k]) is HLT)
}

/// A program that opens with its only `main` label records position
/// zero for `main` in its jump table.
proof fn lemma_main_at_zero(p: Seq<InstrV>)
    requires
        main_first(p),
    ensures
        spec_build(p).contains_key("main"@),
        spec_build(p)["main"@] == 0,
    decreases p.len(),
{
    if p.len() == 1 {
        assert(p.drop_last().len() == 0);
    } else {
        lemma_main_at_zero(p.drop_last());
        match p.last() {
            InstrV::Control(label) => {
                assert(p[p.len() - 1] != InstrV::Control("main"@));
                assert(label != "main"@);
            },
            _ => {},
        }
    }
}

/// An instruction that is not a fired branch neither reads nor
/// changes the jump table: its step from a state that differs only in
/// the jump table differs only in the jump table, and faults alike.
proof fn lemma_step_jumps_irrelevant(s: CoreState, jumps2: Map<Seq<char>, nat>, i: InstrV)
    requires
        i is Branch ==> !branch_taken(s, i->Branch_0),
    ensures
        step(CoreState { jumps: jumps2, ..s }, i).0 == (CoreState {
            jumps: jumps2,
            ..step(s, i).0
        }),
        step(CoreState { jumps: jumps2, ..s }, i).1 == step(s, i).1,
{
}

/// Extending the fuel of a batch run that has neither faulted nor come
/// to rest appends exactly one more step.
proof fn lemma_run_from_snoc(s: CoreState, p: Seq<InstrV>, k: nat)
    requires
        run_from(s, p, k).1 is None,
        !batch_stopped(run_from(s, p, k).0, p),
    ensures
        ({
            let cur = run_from(s, p, k).0;
            let r = step(cur, p[cur.ip as int]);
            run_from(s, p, k + 1) == (match r.1 {
                Some(_) => r,
                None => (CoreState { ip: r.0.ip + 1, ..r.0 }, None::<crate::vm::VMError>),
            })
        }),
    decreases k,
{
    if batch_stopped(s, p) {
        // run_from leaves a resting state alone, contradicting the
        // premise that the run has not come to rest.
        assert(run_from(s, p, k) == (s, None::<crate::vm::VMError>));
        assert(false);
    } else if k == 0 {
        let r = step(s, p[s.ip as int]);
        assert(run_from(s, p, 0) == (s, None::<crate::vm::VMError>));
        if r.1 is Some {
            assert(run_from(s, p, 1) == r);
        } else {
            let s1 = CoreState { ip: r.0.ip + 1, ..r.0 };
            assert(run_from(s1, p, 0) == (s1, None::<crate::vm::VMError>));
            assert(run_from(s, p, 1) == run_from(s1, p, 0));
        }
    } else {
        let r = step(s, p[s.ip as int]);
        assert(r.1 is None) by {
            if r.1 is Some {
                assert(run_from(s, p, k) == r);
            }
        }
        let s1 = CoreState { ip: r.0.ip + 1, ..r.0 };
        assert(run_from(s, p, k) == run_from(s1, p, (k - 1) as nat));
        assert(run_from(s, p, k + 1) == run_from(s1, p, k));
        lemma_run_from_snoc(s1, p, (k - 1) as nat);
        assert((k - 1) as nat + 1 == k);
    }
}

/// Once a batch run has come to rest without a fault, more fuel
/// changes nothing.
proof fn lemma_run_from_stable(s: CoreState, p: Seq<InstrV>, k: nat, n: nat)
    requires
        k <= n,
        run_from(s, p, k).1 is None,
        batch_stopped(run_from(s, p, k).0, p),
    ensures
        run_from(s, p, n) == run_from(s, p, k),
    decreases k,
{
    if batch_stopped(s, p) {
    } else {
        let r = step(s, p[s.ip as int]);
        lemma_run_from_stable(
            CoreState { ip: r.0.ip + 1, ..r.0 },
            p,
            (k - 1) as nat,
            (n - 1) as nat,
        );
    }
}

/// After `k` instructions the two modes agree: the batch run has
/// neither faulted nor come to rest early, its pointer stands at `k`,
/// and its register bank, output and running flag are those of the
/// incremental machine after the first `k` instructions were fed.  The
/// incremental machine's buffer holds those `k` instructions and its
/// jump table the labels among them.
proof fn lemma_modes_agree_prefix(p: Seq<InstrV>, k: int)
    requires
        main_first(p),
        halt_last(p),
        no_branch_fires(fresh_state(), p),
        feed_faultless(fresh_state(), p),
        0 <= k <= p.len(),
    ensures
        ({
            let jt = spec_build(p);
            let init = CoreState { jumps: jt, ip: 0, ..fresh_state().core };
            let inc = feed(fresh_state(), p.take(k));
            &&& inc.program == p.take(k)
            &&& inc.core.ip == k
            &&& inc.core.jumps == spec_build(p.take(k))
            &&& inc.core.running == (k < p.len())
            &&& run_from(init, p, k as nat) == (
                CoreState { jumps: jt, ip: k as nat, ..inc.core },
                None::<crate::vm::VMError>,
            )
        }),
    decreases k,
{
    let jt = spec_build(p);
    let init = CoreState { jumps: jt, ip: 0, ..fresh_state().core };
    if k == 0 {
        assert(p.take(0) =~= Seq::<InstrV>::empty());
        assert(run_from(init, p, 0) == (init, None::<crate::vm::VMError>));
    } else {
        lemma_modes_agree_prefix(p, k - 1);
        let prev = feed(fresh_state(), p.take(k - 1));
        let inc = feed(fresh_state(), p.take(k));
        let i = p[k - 1];

        // The incremental side: feeding one more instruction is one
        // more `istep`, applied to the instruction just appended.
        assert(p.take(k).drop_last() =~= p.take(k - 1));
        assert(p.take(k).last() == i);
        assert(inc == istep(prev, i).0);
        assert(prev.program.push(i) =~= p.take(k));
        assert(p.take(k)[prev.core.ip as int] == i);
        let jumps2 = match i {
            InstrV::Control(label) => prev.core.jumps.insert(label, (k - 1) as nat),
            _ => prev.core.jumps,
        };
        assert(spec_build(p.take(k)) == jumps2);
        let mid = CoreState { jumps: jumps2, ..prev.core };
        let ri = step(mid, i);
        assert(inc.core == (CoreState { ip: ri.0.ip + 1, ..ri.0 }));
        assert(ri.1 is None) by {
            assert(istep(feed(fresh_state(), p.take(k - 1)), p[k - 1]).1 is None);
        }

        // The batch side: one more step from the same register bank,
        // output and running flag, under the full jump table.
        let curb = run_from(init, p, (k - 1) as nat).0;
        assert(curb == (CoreState { jumps: jt, ip: (k - 1) as nat, ..prev.core }));
        assert(!batch_stopped(curb, p));
        let rb = step(curb, p[k - 1]);
        if i is Branch {
            assert(!branch_taken(prev.core, i->Branch_0));
            assert(!branch_taken(mid, i->Branch_0));
        }
        lemma_step_jumps_irrelevant(mid, jt, i);
        assert((CoreState { jumps: jt, ..mid }) == curb);
        assert(rb.0 == (CoreState { jumps: jt, ..ri.0 }));
        assert(rb.1 == ri.1);
        lemma_run_from_snoc(init, p, (k - 1) as nat);
        assert(run_from(init, p, k as nat) == (
            CoreState { ip: rb.0.ip + 1, ..rb.0 },
            None::<crate::vm::VMError>,
        ));
        assert(ri.0.ip == prev.core.ip);

        // The running flag: only the final halt clears it.
        if k < p.len() {
            assert(!(i is HLT));
        } else {
            assert(i == p.last());
        }
    }
}

/// Feeding a whole program one instruction at a time reproduces the
/// exact end state of running it in batch mode, for a program that
/// opens with its only `main` label, closes with its only halt
/// instruction, fires no branch, and faults at no step.  Both modes
/// end with the same registers, output, jump table and pointer, and
/// the batch run completes without a fault.
pub proof fn lemma_incremental_matches_batch(p: Seq<InstrV>, fuel: nat)
    requires
        main_first(p),
        halt_last(p),
        no_branch_fires(fresh_state(), p),
        feed_faultless(fresh_state(), p),
        p.len() <= fuel,
    ensures
        ({
            let jt = spec_build(p);
            let init = CoreState { jumps: jt, ip: jt["main"@], ..fresh_state().core };
            let inc = feed(fresh_state(), p);
            &&& jt.contains_key("main"@)
            &&& jt["main"@] == 0
            &&& has_hlt(p)
            &&& inc.program == p
            &&& run_from(init, p, fuel) == (inc.core, None::<crate::vm::VMError>)
        }),
{
    lemma_main_at_zero(p);
    lemma_modes_agree_prefix(p, p.len() as int);
    assert(p.take(p.len() as int) =~= p);
    let jt = spec_build(p);
    let init = CoreState { jumps: jt, ip: 0, ..fresh_state().core };
    let inc = feed(fresh_state(), p);
    assert(inc.core == (CoreState { jumps: jt, ip: p.len(), ..inc.core }));
    lemma_run_from_stable(init, p, p.len(), fuel);
    assert(p.last() is HLT);
    assert(has_hlt(p));
}

} // verus!

//! The changes hosts make to the list of live sessions. The list is read,
//! changed and written back under an exclusive file lock by the caller.
use vstd::prelude::*;
use crate::protocol::Session;
use crate::text::{chars_eq_str, str_chars};

verus! {

/// The list without the sessions named `id`, in the same order.
pub open spec fn without_id(reg: Seq<Session>, id: Seq<char>) -> Seq<Session>
    decreases reg.len(),
{
    if reg.len() == 0 {
        reg
    } else {
        let rest = without_id(reg.drop_last(), id);
        if reg.last().id@ == id {
            rest
        } else {
            rest.push(reg.last())
        }
    }
}

/// The session marked as no longer attached when it is named `id`.
pub open spec fn detached_if(s: Session, id: Seq<char>) -> Session {
    if s.id@ == id {
        Session { id: s.id, pid: s.pid, started: s.started, command: s.command, attached: false }
    } else {
        s
    }
}

fn has_id(s: &Session, id: &str) -> (r: bool)
    ensures
        r == (s.id@ == id@),
{
    let cs = str_chars(s.id.as_str());
    chars_eq_str(cs.as_slice(), id)
}

/// Adds a session at the end of the list.
pub fn register(sessions: &mut Vec<Session>, s: Session)
    ensures
        final(sessions)@ == old(sessions)@.push(s),
{
    sessions.push(s);
}

/// Removes the sessions named `id`.
pub fn unregister(sessions: &mut Vec<Session>, id: &str)
    ensures
        final(sessions)@ == without_id(old(sessions)@, id@),
{
    let ghost orig = sessions@;
    let n = sessions.len();
    let mut rest: Vec<Session> = Vec::new();
    std::mem::swap(sessions, &mut rest);
    let mut k: usize = 0;
    assert(orig.subrange(0, 0) =~= Seq::<Session>::empty());
    assert(orig.subrange(0, n as int) =~= orig);
    while rest.len() > 0
        invariant
            k <= n,
            n == orig.len(),
            rest@.len() == n - k,
            sessions@ == without_id(orig.subrange(0, k as int), id@),
            rest@ == orig.subrange(k as int, n as int),
        decreases rest@.len(),
    {
        let s = rest.remove(0);
        let ghost next = orig.subrange(0, k + 1);
        assert(next.drop_last() =~= orig.subrange(0, k as int));
        assert(next.last() == s);
        if !has_id(&s, id) {
            sessions.push(s);
        }
        k = k + 1;
        assert(rest@ =~= orig.subrange(k as int, n as int));
    }
    assert(orig.subrange(0, k as int) =~= orig);
}

/// Marks the sessions named `id` as no longer attached.
pub fn mark_detached(sessions: &mut Vec<Session>, id: &str)
    ensures
        final(sessions)@ == old(sessions)@.map_values(|s: Session| detached_if(s, id@)),
{
    let ghost orig = sessions@;
    let n = sessions.len();
    let mut rest: Vec<Session> = Vec::new();
    std::mem::swap(sessions, &mut rest);
    let mut k: usize = 0;
    while rest.len() > 0
        invariant
            k <= n,
            n == orig.len(),
            rest@.len() == n - k,
            sessions@ == orig.subrange(0, k as int).map_values(|s: Session| detached_if(s, id@)),
            rest@ == orig.subrange(k as int, n as int),
        decreases rest@.len(),
    {
        let mut s = rest.remove(0);
        assert(s == orig[k as int]);
        if has_id(&s, id) {
            s.attached = false;
        }
        sessions.push(s);
        k = k + 1;
        assert(sessions@ =~= orig.subrange(0, k as int).map_values(|s: Session| detached_if(s, id@)));
        assert(rest@ =~= orig.subrange(k as int, n as int));
    }
    assert(orig.subrange(0, k as int) =~= orig);
}

/// A change a host makes to the registry: its session starts, or a session ends.
pub enum RegistryOp {
    Start(Session),
    Stop(Seq<char>),
}

pub open spec fn apply_op(reg: Seq<Session>, op: RegistryOp) -> Seq<Session> {
    match op {
        RegistryOp::Start(s) => reg.push(s),
        RegistryOp::Stop(id) => without_id(reg, id),
    }
}

/// The registry after the changes `ops`, made one after another.
pub open spec fn apply_ops(reg: Seq<Session>, ops: Seq<RegistryOp>) -> Seq<Session>
    decreases ops.len(),
{
    if ops.len() == 0 {
        reg
    } else {
        apply_op(apply_ops(reg, ops.drop_last()), ops.last())
    }
}

/// Whether the registry lists a session named `id`.
pub open spec fn listed(reg: Seq<Session>, id: Seq<char>) -> bool {
    exists|i: int| 0 <= i < reg.len() && (#[trigger] reg[i]).id@ == id
}

/// Whether the session `id` is live after `ops`: the last of them that names it
/// starts it.
pub open spec fn live_after(ops: Seq<RegistryOp>, id: Seq<char>) -> bool
    decreases ops.len(),
{
    if ops.len() == 0 {
        false
    } else {
        match ops.last() {
            RegistryOp::Start(s) => s.id@ == id || live_after(ops.drop_last(), id),
            RegistryOp::Stop(x) => x != id && live_after(ops.drop_last(), id),
        }
    }
}

proof fn lemma_listed_push(reg: Seq<Session>, s: Session, id: Seq<char>)
    ensures
        listed(reg.push(s), id) == (listed(reg, id) || s.id@ == id),
{
    let r = reg.push(s);
    if listed(reg, id) {
        let i = choose|i: int| 0 <= i < reg.len() && (#[trigger] reg[i]).id@ == id;
        assert(r[i] == reg[i]);
    }
    if s.id@ == id {
        assert(r[reg.len() as int] == s);
    }
    if listed(r, id) {
        let i = choose|i: int| 0 <= i < r.len() && (#[trigger] r[i]).id@ == id;
        if i < reg.len() {
            assert(r[i] == reg[i]);
        }
    }
}

proof fn lemma_listed_without(reg: Seq<Session>, x: Seq<char>, id: Seq<char>)
    ensures
        listed(without_id(reg, x), id) == (listed(reg, id) && id != x),
    decreases reg.len(),
{
    if reg.len() == 0 {
    } else {
        let init = reg.drop_last();
        lemma_listed_without(init, x, id);
        assert(reg == init.push(reg.last()));
        lemma_listed_push(init, reg.last(), id);
        if reg.last().id@ != x {
            lemma_listed_push(without_id(init, x), reg.last(), id);
        }
    }
}

/// Whatever order the hosts' locked changes come in, the registry ends up
/// listing exactly the sessions that are still live.
pub proof fn law_registry_lists_live_sessions(ops: Seq<RegistryOp>, id: Seq<char>)
    ensures
        listed(apply_ops(seq![], ops), id) == live_after(ops, id),
    decreases ops.len(),
{
    if ops.len() > 0 {
        law_registry_lists_live_sessions(ops.drop_last(), id);
        let before = apply_ops(seq![], ops.drop_last());
        match ops.last() {
            RegistryOp::Start(s) => lemma_listed_push(before, s, id),
            RegistryOp::Stop(x) => lemma_listed_without(before, x, id),
        }
    }
}

} // verus!

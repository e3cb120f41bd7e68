//! Snapshot-based undo and redo: two independent stacks of full buffer
//! snapshots paired with cursor positions. A snapshot of the state before
//! a mutating command is recorded on the undo stack; undo pushes the
//! present state onto the redo stack and hands the prior state back, and
//! redo mirrors it. Recording a new snapshot clears the redo stack.

use vstd::prelude::*;
use crate::motion::buf_view;

verus! {

/// One remembered state: the buffer's lines and the cursor's
/// (column, row) position.
pub open spec fn entry_view(e: (Vec<Vec<char>>, (usize, usize))) -> (Seq<Seq<char>>, (int, int)) {
    (buf_view(e.0@), (e.1.0 as int, e.1.1 as int))
}

pub open spec fn stack_view(s: Seq<(Vec<Vec<char>>, (usize, usize))>) -> Seq<
    (Seq<Seq<char>>, (int, int)),
> {
    Seq::new(s.len(), |i: int| entry_view(s[i]))
}

/// Copy of one line.
pub(crate) fn clone_line(v: &Vec<char>) -> (r: Vec<char>)
    ensures
        r@ == v@,
{
    let r = crate::text::tail_from(v, 0);
    proof {
        assert(v@.subrange(0, v@.len() as int) =~= v@);
    }
    r
}

/// Copy of a whole buffer of lines.
pub fn clone_lines(v: &Vec<Vec<char>>) -> (r: Vec<Vec<char>>)
    ensures
        buf_view(r@) == buf_view(v@),
        r@.len() == v@.len(),
{
    let mut r: Vec<Vec<char>> = Vec::new();
    let mut i: usize = 0;
    while i < v.len()
        invariant
            i <= v@.len(),
            r@.len() == i,
            forall|j: int| 0 <= j < i ==> r@[j]@ == v@[j]@,
        decreases v@.len() - i,
    {
        r.push(clone_line(&v[i]));
        i = i + 1;
    }
    proof {
        assert(buf_view(r@) =~= buf_view(v@));
    }
    r
}

/// Undo and redo stacks of (buffer snapshot, cursor) pairs.
pub struct DiffHistory {
    undo_stack: Vec<(Vec<Vec<char>>, (usize, usize))>,
    redo_stack: Vec<(Vec<Vec<char>>, (usize, usize))>,
}

/// One undo transition on the model: with a non-empty undo stack, the
/// present state moves onto the redo stack and the most recent snapshot
/// becomes the state; with an empty stack nothing changes.
pub open spec fn undo_step(
    u: Seq<(Seq<Seq<char>>, (int, int))>,
    rdo: Seq<(Seq<Seq<char>>, (int, int))>,
    cur: (Seq<Seq<char>>, (int, int)),
) -> (Seq<(Seq<Seq<char>>, (int, int))>, Seq<(Seq<Seq<char>>, (int, int))>, (
    Seq<Seq<char>>,
    (int, int),
)) {
    if u.len() == 0 {
        (u, rdo, cur)
    } else {
        (u.drop_last(), rdo.push(cur), u.last())
    }
}

/// One redo transition on the model, the mirror of `undo_step`.
pub open spec fn redo_step(
    u: Seq<(Seq<Seq<char>>, (int, int))>,
    rdo: Seq<(Seq<Seq<char>>, (int, int))>,
    cur: (Seq<Seq<char>>, (int, int)),
) -> (Seq<(Seq<Seq<char>>, (int, int))>, Seq<(Seq<Seq<char>>, (int, int))>, (
    Seq<Seq<char>>,
    (int, int),
)) {
    if rdo.len() == 0 {
        (u, rdo, cur)
    } else {
        (u.push(cur), rdo.drop_last(), rdo.last())
    }
}

/// `n` undo transitions in a row.
pub open spec fn undo_n(
    u: Seq<(Seq<Seq<char>>, (int, int))>,
    rdo: Seq<(Seq<Seq<char>>, (int, int))>,
    cur: (Seq<Seq<char>>, (int, int)),
    n: nat,
) -> (Seq<(Seq<Seq<char>>, (int, int))>, Seq<(Seq<Seq<char>>, (int, int))>, (
    Seq<Seq<char>>,
    (int, int),
))
    decreases n,
{
    if n == 0 {
        (u, rdo, cur)
    } else {
        let s = undo_step(u, rdo, cur);
        undo_n(s.0, s.1, s.2, (n - 1) as nat)
    }
}

/// `n` redo transitions in a row.
pub open spec fn redo_n(
    u: Seq<(Seq<Seq<char>>, (int, int))>,
    rdo: Seq<(Seq<Seq<char>>, (int, int))>,
    cur: (Seq<Seq<char>>, (int, int)),
    n: nat,
) -> (Seq<(Seq<Seq<char>>, (int, int))>, Seq<(Seq<Seq<char>>, (int, int))>, (
    Seq<Seq<char>>,
    (int, int),
))
    decreases n,
{
    if n == 0 {
        (u, rdo, cur)
    } else {
        let t = redo_n(u, rdo, cur, (n - 1) as nat);
        redo_step(t.0, t.1, t.2)
    }
}

/// Undo/redo law: from any state whose undo stack holds at least `n`
/// snapshots — in particular after `n` mutating commands, each of which
/// pushed one snapshot — applying undo `n` times and redo `n` times
/// restores the stacks, the buffer and the cursor exactly.
pub proof fn lemma_undo_redo_roundtrip(
    u: Seq<(Seq<Seq<char>>, (int, int))>,
    rdo: Seq<(Seq<Seq<char>>, (int, int))>,
    cur: (Seq<Seq<char>>, (int, int)),
    n: nat,
)
    requires
        n <= u.len(),
    ensures
        ({
            let d = undo_n(u, rdo, cur, n);
            redo_n(d.0, d.1, d.2, n) == (u, rdo, cur)
        }),
    decreases n,
{
    if n > 0 {
        let s = undo_step(u, rdo, cur);
        lemma_undo_redo_roundtrip(s.0, s.1, s.2, (n - 1) as nat);
        let d = undo_n(u, rdo, cur, n);
        assert(d == undo_n(s.0, s.1, s.2, (n - 1) as nat));
        let t = redo_n(d.0, d.1, d.2, (n - 1) as nat);
        assert(t == (s.0, s.1, s.2));
        assert(s.1.len() > 0);
        assert(s.1.drop_last() =~= rdo);
        assert(s.0.push(s.2) =~= u);
        assert(redo_step(t.0, t.1, t.2) == (u, rdo, cur));
    }
}

impl DiffHistory {
    /// Snapshots waiting for undo, oldest first.
    pub closed spec fn undo_view(&self) -> Seq<(Seq<Seq<char>>, (int, int))> {
        stack_view(self.undo_stack@)
    }

    /// Snapshots waiting for redo, oldest first.
    pub closed spec fn redo_view(&self) -> Seq<(Seq<Seq<char>>, (int, int))> {
        stack_view(self.redo_stack@)
    }

    /// Empty history.
    pub fn new() -> (r: DiffHistory)
        ensures
            r.undo_view() == Seq::<(Seq<Seq<char>>, (int, int))>::empty(),
            r.redo_view() == Seq::<(Seq<Seq<char>>, (int, int))>::empty(),
    {
        let r = DiffHistory { undo_stack: Vec::new(), redo_stack: Vec::new() };
        proof {
            assert(r.undo_view() =~= Seq::<(Seq<Seq<char>>, (int, int))>::empty());
            assert(r.redo_view() =~= Seq::<(Seq<Seq<char>>, (int, int))>::empty());
        }
        r
    }

    /// Records the state before a mutating command: pushes the snapshot
    /// onto the undo stack and clears the redo stack.
    pub fn create_snapshot(&mut self, state: &Vec<Vec<char>>, pos: (usize, usize))
        ensures
            final(self).undo_view() == old(self).undo_view().push(
                (buf_view(state@), (pos.0 as int, pos.1 as int)),
            ),
            final(self).redo_view() == Seq::<(Seq<Seq<char>>, (int, int))>::empty(),
    {
        let snap = clone_lines(state);
        self.undo_stack.push((snap, pos));
        self.redo_stack.clear();
        proof {
            assert(final(self).undo_view() =~= old(self).undo_view().push(
                (buf_view(state@), (pos.0 as int, pos.1 as int)),
            ));
            assert(final(self).redo_view() =~= Seq::<(Seq<Seq<char>>, (int, int))>::empty());
        }
    }

    /// Undo: hands back the most recent snapshot, after moving the
    /// present state onto the redo stack; `None` when nothing is left to
    /// undo. The stacks and the handed-back state change exactly as
    /// `undo_step` says.
    pub fn undo(&mut self, current: &Vec<Vec<char>>, current_pos: (usize, usize)) -> (r: Option<
        (Vec<Vec<char>>, (usize, usize)),
    >)
        ensures
            ({
                let cur = (buf_view(current@), (current_pos.0 as int, current_pos.1 as int));
                let s = undo_step(old(self).undo_view(), old(self).redo_view(), cur);
                &&& final(self).undo_view() == s.0
                &&& final(self).redo_view() == s.1
                &&& match r {
                    Some(e) => old(self).undo_view().len() > 0 && entry_view(e) == s.2,
                    None => old(self).undo_view().len() == 0,
                }
            }),
    {
        match self.undo_stack.pop() {
            None => {
                proof {
                    assert(final(self).undo_view() =~= old(self).undo_view());
                    assert(final(self).redo_view() =~= old(self).redo_view());
                }
                None
            },
            Some(e) => {
                let snap = clone_lines(current);
                self.redo_stack.push((snap, current_pos));
                proof {
                    let cur = (buf_view(current@), (current_pos.0 as int, current_pos.1 as int));
                    assert(final(self).undo_view() =~= old(self).undo_view().drop_last());
                    assert(final(self).redo_view() =~= old(self).redo_view().push(cur));
                }
                Some(e)
            },
        }
    }

    /// Redo: the mirror of `undo`, over the redo stack.
    pub fn redo(&mut self, current: &Vec<Vec<char>>, current_pos: (usize, usize)) -> (r: Option<
        (Vec<Vec<char>>, (usize, usize)),
    >)
        ensures
            ({
                let cur = (buf_view(current@), (current_pos.0 as int, current_pos.1 as int));
                let s = redo_step(old(self).undo_view(), old(self).redo_view(), cur);
                &&& final(self).undo_view() == s.0
                &&& final(self).redo_view() == s.1
                &&& match r {
                    Some(e) => old(self).redo_view().len() > 0 && entry_view(e) == s.2,
                    None => old(self).redo_view().len() == 0,
                }
            }),
    {
        match self.redo_stack.pop() {
            None => {
                proof {
                    assert(final(self).undo_view() =~= old(self).undo_view());
                    assert(final(self).redo_view() =~= old(self).redo_view());
                }
                None
            },
            Some(e) => {
                let snap = clone_lines(current);
                self.undo_stack.push((snap, current_pos));
                proof {
                    let cur = (buf_view(current@), (current_pos.0 as int, current_pos.1 as int));
                    assert(final(self).undo_view() =~= old(self).undo_view().push(cur));
                    assert(final(self).redo_view() =~= old(self).redo_view().drop_last());
                }
                Some(e)
            },
        }
    }
}

} // verus!

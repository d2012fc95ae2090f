//! Bulk path registration with a transport, as a decision state machine: the
//! embedder performs each requested action and reports its outcome, and the
//! machine decides what comes next. On the first registration failure it
//! rolls back, unregistering every path registered so far in reverse order.

use vstd::prelude::*;
use crate::objpath::ObjectPath;
use crate::tree::Tree;

verus! {

/// The phase of a registration pass.
#[derive(PartialEq, Eq, Structural, Clone, Copy, Debug)]
pub enum RegPhase {
    /// Walking the paths in iteration order.
    Forward,
    /// A registration failed: unregistering what was registered, in reverse.
    Rollback,
    /// Finished; every requested action succeeded or was absorbed.
    DoneOk,
    /// Finished after a rollback; the embedder returns the original error.
    DoneFailed,
}

/// The transport action a registration machine asks the embedder to perform.
pub enum RegAction {
    Register(String),
    Unregister(String),
    DoneOk,
    DoneFailed,
}

/// Mathematical model of a requested action.
pub enum RegActionV {
    Register(Seq<char>),
    Unregister(Seq<char>),
    DoneOk,
    DoneFailed,
}

/// The model an action denotes.
pub open spec fn action_view(a: RegAction) -> RegActionV {
    match a {
        RegAction::Register(s) => RegActionV::Register(s@),
        RegAction::Unregister(s) => RegActionV::Unregister(s@),
        RegAction::DoneOk => RegActionV::DoneOk,
        RegAction::DoneFailed => RegActionV::DoneFailed,
    }
}

/// Mathematical model of a registration machine's state.
pub struct RegState {
    pub paths: Seq<Seq<char>>,
    pub enable: bool,
    pub pos: int,
    pub phase: RegPhase,
}

/// Drives registration or unregistration of a tree's paths with a transport.
pub struct Registrar {
    pub paths: Vec<String>,
    pub enable: bool,
    pub pos: usize,
    pub phase: RegPhase,
}

/// A machine state is well formed: the position stays within the paths.
pub open spec fn reg_wf(s: RegState) -> bool {
    0 <= s.pos <= s.paths.len()
}

/// The model a machine denotes.
pub open spec fn reg_view(r: Registrar) -> RegState {
    RegState {
        paths: r.paths@.map_values(|s: String| s@),
        enable: r.enable,
        pos: r.pos as int,
        phase: r.phase,
    }
}

/// The action the machine asks for in a state. While enabling, a failure mid
/// pass asks for the registered prefix to be unregistered in reverse order;
/// while disabling, outcomes are ignored.
pub open spec fn spec_reg_action(s: RegState) -> RegActionV {
    match s.phase {
        RegPhase::Forward => if s.pos < s.paths.len() {
            if s.enable {
                RegActionV::Register(s.paths[s.pos])
            } else {
                RegActionV::Unregister(s.paths[s.pos])
            }
        } else {
            RegActionV::DoneOk
        },
        RegPhase::Rollback => if s.pos > 0 {
            RegActionV::Unregister(s.paths[s.pos - 1])
        } else {
            RegActionV::DoneFailed
        },
        RegPhase::DoneOk => RegActionV::DoneOk,
        RegPhase::DoneFailed => RegActionV::DoneFailed,
    }
}

/// The state after the embedder reports the current action's outcome. Only a
/// failed registration while enabling changes course; unregistration outcomes
/// are ignored, as the peer may already be gone.
pub open spec fn spec_reg_advance(s: RegState, ok: bool) -> RegState {
    match s.phase {
        RegPhase::Forward => if s.pos < s.paths.len() {
            if s.enable && !ok {
                RegState { paths: s.paths, enable: s.enable, pos: s.pos, phase: RegPhase::Rollback }
            } else {
                RegState { paths: s.paths, enable: s.enable, pos: s.pos + 1, phase: s.phase }
            }
        } else {
            RegState { paths: s.paths, enable: s.enable, pos: s.pos, phase: RegPhase::DoneOk }
        },
        RegPhase::Rollback => if s.pos > 0 {
            RegState { paths: s.paths, enable: s.enable, pos: s.pos - 1, phase: s.phase }
        } else {
            RegState { paths: s.paths, enable: s.enable, pos: s.pos, phase: RegPhase::DoneFailed }
        },
        RegPhase::DoneOk => s,
        RegPhase::DoneFailed => s,
    }
}

/// The state after a sequence of reported outcomes.
pub open spec fn spec_reg_run(s: RegState, oks: Seq<bool>) -> RegState
    decreases oks.len(),
{
    if oks.len() == 0 {
        s
    } else {
        spec_reg_run(spec_reg_advance(s, oks[0]), oks.skip(1))
    }
}

/// The actions requested along a sequence of reported outcomes.
pub open spec fn spec_reg_trace(s: RegState, oks: Seq<bool>) -> Seq<RegActionV>
    decreases oks.len(),
{
    if oks.len() == 0 {
        Seq::<RegActionV>::empty()
    } else {
        seq![spec_reg_action(s)] + spec_reg_trace(spec_reg_advance(s, oks[0]), oks.skip(1))
    }
}

impl Registrar {
    /// The action the embedder should perform now.
    pub fn current_action(&self) -> (r: RegAction)
        requires
            reg_wf(reg_view(*self)),
        ensures
            action_view(r) == spec_reg_action(reg_view(*self)),
    {
        match self.phase {
            RegPhase::Forward => {
                if self.pos < self.paths.len() {
                    if self.enable {
                        RegAction::Register(self.paths[self.pos].clone())
                    } else {
                        RegAction::Unregister(self.paths[self.pos].clone())
                    }
                } else {
                    RegAction::DoneOk
                }
            },
            RegPhase::Rollback => {
                if self.pos > 0 {
                    RegAction::Unregister(self.paths[self.pos - 1].clone())
                } else {
                    RegAction::DoneFailed
                }
            },
            RegPhase::DoneOk => RegAction::DoneOk,
            RegPhase::DoneFailed => RegAction::DoneFailed,
        }
    }

    /// Records the outcome the embedder reports for the current action.
    pub fn advance(&mut self, ok: bool)
        requires
            reg_wf(reg_view(*old(self))),
        ensures
            reg_view(*final(self)) == spec_reg_advance(reg_view(*old(self)), ok),
            reg_wf(reg_view(*final(self))),
    {
        match self.phase {
            RegPhase::Forward => {
                if self.pos < self.paths.len() {
                    if self.enable && !ok {
                        self.phase = RegPhase::Rollback;
                    } else {
                        self.pos = self.pos + 1;
                    }
                } else {
                    self.phase = RegPhase::DoneOk;
                }
            },
            RegPhase::Rollback => {
                if self.pos > 0 {
                    self.pos = self.pos - 1;
                } else {
                    self.phase = RegPhase::DoneFailed;
                }
            },
            RegPhase::DoneOk => {},
            RegPhase::DoneFailed => {},
        }
    }
}

impl<D, H> Tree<D, H> {
    /// A registration machine over this tree's paths, in iteration order:
    /// enabling registers every path and rolls back on the first failure;
    /// disabling unregisters every path, ignoring individual failures.
    pub fn set_registered(&self, enable: bool) -> (r: Registrar)
        ensures
            reg_view(r) == (RegState {
                paths: self.paths@.map_values(|e: (Seq<char>, ObjectPath<D, H>)| e.0),
                enable,
                pos: 0,
                phase: RegPhase::Forward,
            }),
            reg_wf(reg_view(r)),
    {
        let n = self.paths.len();
        let mut ps: Vec<String> = Vec::new();
        let mut i: usize = 0;
        while i < n
            invariant
                i <= n,
                n == self.paths@.len(),
                ps@.len() == i,
                forall|j: int| 0 <= j < i ==> (#[trigger] ps@[j])@ == self.paths@[j].0,
            decreases n - i,
        {
            ps.push(self.paths.key_at(i).clone());
            i = i + 1;
        }
        let r = Registrar { paths: ps, enable, pos: 0, phase: RegPhase::Forward };
        proof {
            assert(reg_view(r).paths =~= self.paths@.map_values(
                |e: (Seq<char>, ObjectPath<D, H>)| e.0,
            ));
        }
        r
    }
}

/// Running a machine over concatenated outcome reports composes.
proof fn lemma_reg_append(s: RegState, a: Seq<bool>, b: Seq<bool>)
    ensures
        spec_reg_trace(s, a + b) == spec_reg_trace(s, a) + spec_reg_trace(spec_reg_run(s, a), b),
        spec_reg_run(s, a + b) == spec_reg_run(spec_reg_run(s, a), b),
    decreases a.len(),
{
    if a.len() == 0 {
        assert(a + b =~= b);
        assert(spec_reg_trace(s, a) + spec_reg_trace(spec_reg_run(s, a), b) =~= spec_reg_trace(
            s,
            b,
        ));
    } else {
        lemma_reg_append(spec_reg_advance(s, a[0]), a.skip(1), b);
        assert((a + b).skip(1) =~= a.skip(1) + b);
        assert((a + b)[0] == a[0]);
        assert(spec_reg_trace(s, a + b) =~= spec_reg_trace(s, a) + spec_reg_trace(
            spec_reg_run(s, a),
            b,
        ));
    }
}

/// While enabling, successful outcomes walk the paths forward, asking one
/// registration per path.
proof fn lemma_reg_forward(paths: Seq<Seq<char>>, p: int, oks: Seq<bool>)
    requires
        0 <= p,
        p + oks.len() <= paths.len(),
        forall|i: int| 0 <= i < oks.len() ==> oks[i],
    ensures
        ({
            let s = RegState { paths, enable: true, pos: p, phase: RegPhase::Forward };
            let tr = spec_reg_trace(s, oks);
            &&& tr.len() == oks.len()
            &&& forall|i: int| 0 <= i < oks.len() ==> tr[i] == RegActionV::Register(paths[p + i])
            &&& spec_reg_run(s, oks) == RegState {
                paths,
                enable: true,
                pos: p + oks.len(),
                phase: RegPhase::Forward,
            }
        }),
    decreases oks.len(),
{
    let s = RegState { paths, enable: true, pos: p, phase: RegPhase::Forward };
    if oks.len() == 0 {
        assert(spec_reg_run(s, oks) =~= s);
        assert(s == RegState { paths, enable: true, pos: p + oks.len(), phase: RegPhase::Forward });
    } else {
        assert(oks[0]);
        lemma_reg_forward(paths, p + 1, oks.skip(1));
        let s1 = spec_reg_advance(s, oks[0]);
        assert(s1 == RegState { paths, enable: true, pos: p + 1, phase: RegPhase::Forward });
        let tr = spec_reg_trace(s, oks);
        let tr1 = spec_reg_trace(s1, oks.skip(1));
        assert forall|i: int| 0 <= i < oks.len() implies tr[i] == RegActionV::Register(
            paths[p + i],
        ) by {
            if i == 0 {
                assert(tr[0] == spec_reg_action(s));
            } else {
                assert(tr[i] == tr1[i - 1]);
                assert(tr1[i - 1] == RegActionV::Register(paths[p + 1 + (i - 1)]));
            }
        }
    }
}

/// In rollback with `p` paths registered, the next `p` steps unregister them
/// in reverse order, whatever each step reports.
proof fn lemma_reg_rollback(paths: Seq<Seq<char>>, p: int, oks: Seq<bool>)
    requires
        0 <= p <= paths.len(),
        oks.len() == p,
    ensures
        ({
            let s = RegState { paths, enable: true, pos: p, phase: RegPhase::Rollback };
            let tr = spec_reg_trace(s, oks);
            &&& tr.len() == p
            &&& forall|j: int| 0 <= j < p ==> tr[j] == RegActionV::Unregister(paths[p - 1 - j])
            &&& spec_reg_run(s, oks) == RegState {
                paths,
                enable: true,
                pos: 0,
                phase: RegPhase::Rollback,
            }
        }),
    decreases p,
{
    let s = RegState { paths, enable: true, pos: p, phase: RegPhase::Rollback };
    if p == 0 {
        assert(spec_reg_run(s, oks) =~= s);
    } else {
        lemma_reg_rollback(paths, p - 1, oks.skip(1));
        let s1 = spec_reg_advance(s, oks[0]);
        assert(s1 == RegState { paths, enable: true, pos: p - 1, phase: RegPhase::Rollback });
        let tr = spec_reg_trace(s, oks);
        let tr1 = spec_reg_trace(s1, oks.skip(1));
        assert forall|j: int| 0 <= j < p implies tr[j] == RegActionV::Unregister(
            paths[p - 1 - j],
        ) by {
            if j == 0 {
                assert(tr[0] == spec_reg_action(s));
            } else {
                assert(tr[j] == tr1[j - 1]);
                assert(tr1[j - 1] == RegActionV::Unregister(paths[(p - 1) - 1 - (j - 1)]));
            }
        }
    }
}

/// Law: rollback on partial registration failure. Enabling registration over
/// a tree's paths where the first `k` registrations succeed and the next one
/// fails asks for exactly: one registration per path up to and including the
/// failing one, then one unregistration per registered path in reverse order,
/// and then reports failure.
pub proof fn lemma_registration_rollback(paths: Seq<Seq<char>>, oks: Seq<bool>, k: int)
    requires
        0 <= k < paths.len(),
        oks.len() == 2 * k + 1,
        forall|i: int| 0 <= i < k ==> oks[i],
        !oks[k],
    ensures
        ({
            let s0 = RegState { paths, enable: true, pos: 0, phase: RegPhase::Forward };
            let tr = spec_reg_trace(s0, oks);
            &&& tr.len() == 2 * k + 1
            &&& forall|i: int| 0 <= i <= k ==> #[trigger] tr[i] == RegActionV::Register(paths[i])
            &&& forall|j: int|
                0 <= j < k ==> #[trigger] tr[k + 1 + j] == RegActionV::Unregister(paths[k - 1 - j])
            &&& spec_reg_action(spec_reg_run(s0, oks)) == RegActionV::DoneFailed
        }),
{
    let s0 = RegState { paths, enable: true, pos: 0, phase: RegPhase::Forward };
    let a = oks.take(k);
    let b = oks.skip(k);
    assert(a + b =~= oks);
    lemma_reg_append(s0, a, b);
    lemma_reg_forward(paths, 0, a);
    let sk = spec_reg_run(s0, a);
    assert(sk == RegState { paths, enable: true, pos: k, phase: RegPhase::Forward });
    assert(b[0] == oks[k]);
    let sr = spec_reg_advance(sk, b[0]);
    assert(sr == RegState { paths, enable: true, pos: k, phase: RegPhase::Rollback });
    lemma_reg_rollback(paths, k, b.skip(1));
    let tr = spec_reg_trace(s0, oks);
    let tra = spec_reg_trace(s0, a);
    let trb = spec_reg_trace(sk, b);
    let trr = spec_reg_trace(sr, b.skip(1));
    assert(tr == tra + trb);
    assert(trb == seq![spec_reg_action(sk)] + trr);
    assert(spec_reg_action(sk) == RegActionV::Register(paths[k]));
    assert forall|i: int| 0 <= i <= k implies tr[i] == RegActionV::Register(paths[i]) by {
        if i < k {
            assert(tr[i] == tra[i]);
        } else {
            assert(tr[k] == trb[0]);
        }
    }
    assert forall|j: int| 0 <= j < k implies #[trigger] tr[k + 1 + j] == RegActionV::Unregister(
        paths[k - 1 - j],
    ) by {
        assert(tr[k + 1 + j] == trb[1 + j]);
        assert(trb[1 + j] == trr[j]);
    }
    assert(spec_reg_run(s0, oks) == spec_reg_run(sr, b.skip(1))) by {
        assert(spec_reg_run(sk, b) == spec_reg_run(spec_reg_advance(sk, b[0]), b.skip(1)));
    }
}

} // verus!

//! Guarding the proxy settings: apply them, wait for a change, apply them again.
use vstd::prelude::*;

use crate::options::{opt_pac_url, Options};
use crate::text::string_views;

verus! {

/// Which setting the guard applies.
#[derive(Clone, Copy, PartialEq, Eq, Structural, Debug)]
pub enum GuardApply {
    /// The automatic proxy, with the options' PAC URL.
    Pac,
    /// The manual proxy.
    Proxy,
}

/// The setting that the guard applies: the automatic proxy where the options give a
/// PAC URL, else the manual proxy.
pub open spec fn guard_apply_for(opt: Option<&Options>) -> GuardApply {
    if opt_pac_url(opt).len() > 0 {
        GuardApply::Pac
    } else {
        GuardApply::Proxy
    }
}

/// The setting that the guard applies for `opt`.
pub fn apply_guard_proxy_settings(opt: Option<&Options>) -> (r: GuardApply)
    ensures
        r == guard_apply_for(opt),
{
    match opt {
        Some(o) => {
            if o.pac_url.unicode_len() > 0 {
                GuardApply::Pac
            } else {
                GuardApply::Proxy
            }
        },
        None => GuardApply::Proxy,
    }
}

/// The options that watching for changes uses: the target and the identity of
/// `opt`, with no proxy, bypass list, PAC URL or concurrency preference.
pub fn watch_options(opt: Option<&Options>) -> (r: Option<Options>)
    ensures
        opt is None <==> r is None,
        r matches Some(w) ==> {
            let o = opt->0;
            &&& w.proxy@ == Seq::<char>::empty()
            &&& w.bypass@ == Seq::<char>::empty()
            &&& w.pac_url@ == Seq::<char>::empty()
            &&& w.device@ == o.device@
            &&& w.only_active_device == o.only_active_device
            &&& w.peer_pid == o.peer_pid
            &&& w.peer_uid == o.peer_uid
            &&& w.peer_gid == o.peer_gid
            &&& string_views(w.environment@) == string_views(o.environment@)
            &&& w.concurrent is None
            &&& w.use_registry == o.use_registry
        },
{
    match opt {
        Some(o) => {
            let mut environment: Vec<String> = Vec::new();
            let mut i: usize = 0;
            while i < o.environment.len()
                invariant
                    i <= o.environment.len(),
                    string_views(environment@) == string_views(o.environment@).take(i as int),
                decreases o.environment.len() - i,
            {
                let ghost prev = environment@;
                environment.push(o.environment[i].clone());
                assert(string_views(environment@) =~= string_views(prev).push(o.environment@[i as int]@));
                assert(string_views(o.environment@).take(i + 1) =~= string_views(o.environment@).take(i as int).push(o.environment@[i as int]@));
                i = i + 1;
            }
            assert(string_views(o.environment@).take(o.environment.len() as int) =~= string_views(o.environment@));
            Some(Options {
                proxy: String::new(),
                bypass: String::new(),
                pac_url: String::new(),
                device: o.device.clone(),
                only_active_device: o.only_active_device,
                peer_pid: o.peer_pid,
                peer_uid: o.peer_uid,
                peer_gid: o.peer_gid,
                environment,
                concurrent: None,
                use_registry: o.use_registry,
            })
        },
        None => None,
    }
}

/// Where the guard is.
#[derive(Clone, Copy, PartialEq, Eq, Structural, Debug)]
pub enum GuardState {
    /// Applying the setting.
    Applying,
    /// Waiting for a change.
    Watching,
    /// Stopped with the error of the last step.
    Done,
}

/// What happened in the last step.
#[derive(Clone, Copy, PartialEq, Eq, Structural, Debug)]
pub enum GuardEvent {
    /// The setting was applied.
    Applied,
    /// Applying the setting failed.
    ApplyFailed,
    /// The settings changed.
    Changed,
    /// Waiting failed or was cancelled.
    WaitFailed,
}

/// What the guard does next.
#[derive(Clone, Copy, PartialEq, Eq, Structural, Debug)]
pub enum GuardAction {
    /// Apply the setting.
    Apply(GuardApply),
    /// Wait for a change.
    Wait,
    /// Stop and return the error of the last step.
    ReturnError,
}

/// A guard: the setting it keeps and where it is.
#[derive(Clone, Copy, PartialEq, Eq, Structural, Debug)]
pub struct Guard {
    pub apply: GuardApply,
    pub state: GuardState,
}

/// The guard's next state and action after `e`. An applied setting is watched; a
/// change is answered by applying the same setting again; any failure stops the
/// guard with its error; an event that does not fit the state stops it too.
pub open spec fn guard_next(g: Guard, e: GuardEvent) -> (Guard, GuardAction) {
    match (g.state, e) {
        (GuardState::Applying, GuardEvent::Applied) => (
            Guard { apply: g.apply, state: GuardState::Watching },
            GuardAction::Wait,
        ),
        (GuardState::Watching, GuardEvent::Changed) => (
            Guard { apply: g.apply, state: GuardState::Applying },
            GuardAction::Apply(g.apply),
        ),
        _ => (Guard { apply: g.apply, state: GuardState::Done }, GuardAction::ReturnError),
    }
}

/// A guard that applies the setting for `opt` first, then watches.
pub fn guard_proxy_settings(opt: Option<&Options>) -> (r: (Guard, GuardAction))
    ensures
        r.0 == (Guard { apply: guard_apply_for(opt), state: GuardState::Applying }),
        r.1 == GuardAction::Apply(guard_apply_for(opt)),
{
    let apply = apply_guard_proxy_settings(opt);
    (Guard { apply, state: GuardState::Applying }, GuardAction::Apply(apply))
}

/// A guard for settings already applied: it starts by waiting.
pub fn guard_proxy_settings_after_apply(opt: Option<&Options>) -> (r: (Guard, GuardAction))
    ensures
        r.0 == (Guard { apply: guard_apply_for(opt), state: GuardState::Watching }),
        r.1 == GuardAction::Wait,
{
    let apply = apply_guard_proxy_settings(opt);
    (Guard { apply, state: GuardState::Watching }, GuardAction::Wait)
}

impl Guard {
    /// Moves the guard on after `e` and returns what it does next.
    pub fn step(&mut self, e: GuardEvent) -> (r: GuardAction)
        ensures
            (*final(self), r) == guard_next(*old(self), e),
    {
        match (self.state, e) {
            (GuardState::Applying, GuardEvent::Applied) => {
                self.state = GuardState::Watching;
                GuardAction::Wait
            },
            (GuardState::Watching, GuardEvent::Changed) => {
                self.state = GuardState::Applying;
                GuardAction::Apply(self.apply)
            },
            _ => {
                self.state = GuardState::Done;
                GuardAction::ReturnError
            },
        }
    }
}

/// A guard never changes the setting it keeps.
pub proof fn law_guard_keeps_setting(g: Guard, e: GuardEvent)
    ensures
        guard_next(g, e).0.apply == g.apply,
{
}

/// A change seen while watching is answered by applying the guarded setting again.
pub proof fn law_guard_restores_on_change(g: Guard)
    requires
        g.state == GuardState::Watching,
    ensures
        guard_next(g, GuardEvent::Changed).1 == GuardAction::Apply(g.apply),
        guard_next(g, GuardEvent::Changed).0.state == GuardState::Applying,
{
}

/// A failure, of applying or of waiting (cancellation included), stops the guard
/// with that error, and a stopped guard stays stopped.
pub proof fn law_guard_stops_on_failure(g: Guard, e: GuardEvent)
    requires
        e == GuardEvent::ApplyFailed || e == GuardEvent::WaitFailed || g.state == GuardState::Done,
    ensures
        guard_next(g, e).1 == GuardAction::ReturnError,
        guard_next(g, e).0.state == GuardState::Done,
{
}

/// The guard's state and the actions it took after the events `events`, in order.
pub open spec fn guard_run(g: Guard, events: Seq<GuardEvent>) -> (Guard, Seq<GuardAction>)
    decreases events.len(),
{
    if events.len() == 0 {
        (g, Seq::empty())
    } else {
        let (g1, acts) = guard_run(g, events.drop_last());
        let (g2, a) = guard_next(g1, events.last());
        (g2, acts.push(a))
    }
}

/// `n` rounds of a change to the settings followed by the guard's successful apply.
pub open spec fn change_rounds(n: nat) -> Seq<GuardEvent> {
    Seq::new(2 * n, |i: int| if i % 2 == 0 { GuardEvent::Changed } else { GuardEvent::Applied })
}

/// `n` rounds of applying the guarded setting and waiting again.
pub open spec fn restore_rounds(apply: GuardApply, n: nat) -> Seq<GuardAction> {
    Seq::new(2 * n, |i: int| if i % 2 == 0 { GuardAction::Apply(apply) } else { GuardAction::Wait })
}

/// A watching guard answers each of `n` changes, each made after the previous
/// restore, with exactly one apply of its setting and a new wait, in order, and after
/// them it is still watching: it has not returned.
pub proof fn law_guard_restores_every_change(g: Guard, n: nat)
    requires
        g.state == GuardState::Watching,
    ensures
        guard_run(g, change_rounds(n)) == (
            Guard { apply: g.apply, state: GuardState::Watching },
            restore_rounds(g.apply, n),
        ),
    decreases n,
{
    let e = change_rounds(n);
    if n == 0 {
        assert(e =~= Seq::<GuardEvent>::empty());
        assert(restore_rounds(g.apply, 0) =~= Seq::<GuardAction>::empty());
    } else {
        let m = (n - 1) as nat;
        law_guard_restores_every_change(g, m);
        let e1 = e.drop_last();
        assert(e1.drop_last() =~= change_rounds(m));
        assert(e.last() == GuardEvent::Applied) by {
            assert((2 * n - 1) % 2 == 1) by (nonlinear_arith);
        }
        assert(e1.last() == GuardEvent::Changed) by {
            assert((2 * n - 2) % 2 == 0) by (nonlinear_arith);
        }
        assert(guard_run(g, e1) == (
            Guard { apply: g.apply, state: GuardState::Applying },
            restore_rounds(g.apply, m).push(GuardAction::Apply(g.apply)),
        ));
        assert(restore_rounds(g.apply, m).push(GuardAction::Apply(g.apply)).push(GuardAction::Wait)
            =~= restore_rounds(g.apply, n)) by {
            assert forall|i: int| 0 <= i < 2 * n implies #[trigger] restore_rounds(g.apply, n)[i]
                == restore_rounds(g.apply, m).push(GuardAction::Apply(g.apply)).push(GuardAction::Wait)[i] by {
                if i == 2 * n - 1 {
                    assert(i % 2 == 1) by (nonlinear_arith) requires i == 2 * n - 1;
                } else if i == 2 * n - 2 {
                    assert(i % 2 == 0) by (nonlinear_arith) requires i == 2 * n - 2;
                }
            }
        }
    }
}

} // verus!

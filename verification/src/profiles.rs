//! Profiles: named presets of what to hide, and restoring everything.
//!
//! Applying a profile is a short sequence of effects on the desktop (hide or
//! show the icons, the taskbar, the windows). The functions here decide the
//! sequence and record in the state what each successful effect did; the
//! effects themselves are carried out by the caller.

use vstd::prelude::*;
use vstd::string::*;

use crate::config::{profiles_view, AppConfig, ProfileConfig, ProfileView};
use crate::state::{AppState, HiddenWindow, StateView};

verus! {

/// One change to the desktop.
#[derive(Debug, Clone, Copy, PartialEq, Eq, Structural)]
pub enum Effect {
    HideIcons,
    ShowIcons,
    HideTaskbar,
    ShowTaskbar,
    /// Hide the application windows (the caller reports which it hid).
    HideWindows,
    /// Restore the windows that were hidden.
    RestoreWindows,
}

/// The effects that bring the state in line with a profile, in the order
/// icons, taskbar, windows; an aspect already as the profile wants it needs
/// none.
pub open spec fn profile_effects_spec(p: ProfileView, s: StateView) -> Seq<Effect> {
    let a = if p.icons && !s.icons_hidden {
        seq![Effect::HideIcons]
    } else if !p.icons && s.icons_hidden {
        seq![Effect::ShowIcons]
    } else {
        Seq::empty()
    };
    let b = if p.taskbar && !s.taskbar_hidden {
        a.push(Effect::HideTaskbar)
    } else if !p.taskbar && s.taskbar_hidden {
        a.push(Effect::ShowTaskbar)
    } else {
        a
    };
    if p.windows && !s.windows_hidden {
        b.push(Effect::HideWindows)
    } else if !p.windows && s.windows_hidden {
        b.push(Effect::RestoreWindows)
    } else {
        b
    }
}

/// The effects that apply `profile` to the current state.
pub fn profile_effects(profile: &ProfileConfig, state: &AppState) -> (r: Vec<Effect>)
    ensures
        r@ == profile_effects_spec(profile@, state@),
{
    let mut v: Vec<Effect> = Vec::new();
    if profile.icons && !state.icons_hidden {
        v.push(Effect::HideIcons);
    } else if !profile.icons && state.icons_hidden {
        v.push(Effect::ShowIcons);
    }
    if profile.taskbar && !state.taskbar_hidden {
        v.push(Effect::HideTaskbar);
    } else if !profile.taskbar && state.taskbar_hidden {
        v.push(Effect::ShowTaskbar);
    }
    if profile.windows && !state.windows_hidden {
        v.push(Effect::HideWindows);
    } else if !profile.windows && state.windows_hidden {
        v.push(Effect::RestoreWindows);
    }
    assert(v@ =~= profile_effects_spec(profile@, state@));
    v
}

/// The state after an effect succeeded; `hidden` is what hiding the
/// windows hid.
pub open spec fn record_spec(s: StateView, e: Effect, hidden: Seq<HiddenWindow>) -> StateView {
    match e {
        Effect::HideIcons => StateView { icons_hidden: true, ..s },
        Effect::ShowIcons => StateView { icons_hidden: false, ..s },
        Effect::HideTaskbar => StateView { taskbar_hidden: true, ..s },
        Effect::ShowTaskbar => StateView { taskbar_hidden: false, ..s },
        Effect::HideWindows => StateView { hidden_windows: hidden, windows_hidden: true, ..s },
        Effect::RestoreWindows => StateView {
            hidden_windows: Seq::empty(),
            windows_hidden: false,
            ..s
        },
    }
}

/// Records in the state that an effect succeeded.
pub fn record_effect(state: &mut AppState, effect: Effect, hidden: Vec<HiddenWindow>)
    ensures
        final(state)@ == record_spec(old(state)@, effect, hidden@),
{
    match effect {
        Effect::HideIcons => {
            state.icons_hidden = true;
        },
        Effect::ShowIcons => {
            state.icons_hidden = false;
        },
        Effect::HideTaskbar => {
            state.taskbar_hidden = true;
        },
        Effect::ShowTaskbar => {
            state.taskbar_hidden = false;
        },
        Effect::HideWindows => {
            state.hidden_windows = hidden;
            state.windows_hidden = true;
        },
        Effect::RestoreWindows => {
            state.hidden_windows = Vec::new();
            state.windows_hidden = false;
        },
    }
}

/// The state after a run of effects all succeeded (the windows hidden being
/// `hidden`).
pub open spec fn record_all(s: StateView, es: Seq<Effect>, hidden: Seq<HiddenWindow>) -> StateView
    decreases es.len(),
{
    if es.len() == 0 {
        s
    } else {
        record_spec(record_all(s, es.drop_last(), hidden), es.last(), hidden)
    }
}

/// Once all of a profile's effects succeed, what is hidden is what the
/// profile asks for.
pub proof fn lemma_profile_effects_reach_profile(
    p: ProfileView,
    s: StateView,
    hidden: Seq<HiddenWindow>,
)
    ensures
        record_all(s, profile_effects_spec(p, s), hidden).icons_hidden == p.icons,
        record_all(s, profile_effects_spec(p, s), hidden).taskbar_hidden == p.taskbar,
        record_all(s, profile_effects_spec(p, s), hidden).windows_hidden == p.windows,
        record_all(s, profile_effects_spec(p, s), hidden).active_profile == s.active_profile,
{
    let es = profile_effects_spec(p, s);
    let a = if p.icons && !s.icons_hidden {
        seq![Effect::HideIcons]
    } else if !p.icons && s.icons_hidden {
        seq![Effect::ShowIcons]
    } else {
        Seq::empty()
    };
    let b = if p.taskbar && !s.taskbar_hidden {
        a.push(Effect::HideTaskbar)
    } else if !p.taskbar && s.taskbar_hidden {
        a.push(Effect::ShowTaskbar)
    } else {
        a
    };
    assert(a.len() == 0 ==> a =~= Seq::<Effect>::empty());
    if a.len() == 1 {
        assert(a.drop_last() =~= Seq::<Effect>::empty());
    }
    if b.len() > a.len() {
        assert(b.drop_last() =~= a);
    }
    if es.len() > b.len() {
        assert(es.drop_last() =~= b);
    }
    let ra = record_all(s, a, hidden);
    assert(ra.icons_hidden == p.icons && ra.taskbar_hidden == s.taskbar_hidden
        && ra.windows_hidden == s.windows_hidden && ra.active_profile == s.active_profile) by {
        reveal_with_fuel(record_all, 2);
    }
    let rb = record_all(s, b, hidden);
    assert(rb.icons_hidden == p.icons && rb.taskbar_hidden == p.taskbar && rb.windows_hidden
        == s.windows_hidden && rb.active_profile == s.active_profile);
    let re = record_all(s, es, hidden);
    assert(re.icons_hidden == p.icons && re.taskbar_hidden == p.taskbar && re.windows_hidden
        == p.windows && re.active_profile == s.active_profile);
}

/// Why a profile could not be applied.
#[derive(Debug, Clone)]
pub enum ProfileError {
    /// No profile has this name.
    NotFound(String),
}

impl ProfileError {
    /// The message for this error.
    pub fn message(&self) -> (r: String)
        ensures
            match self {
                ProfileError::NotFound(n) => r@ == "Profile '"@ + n@ + "' not found"@,
            },
    {
        match self {
            ProfileError::NotFound(n) => {
                let mut m = String::from_str("Profile '");
                m.append(n.as_str());
                m.append("' not found");
                m
            },
        }
    }
}

/// Whether `k` is the first position of a profile named `name`.
pub open spec fn is_first_named(ps: Seq<ProfileView>, name: Seq<char>, k: int) -> bool {
    0 <= k < ps.len() && ps[k].name == name && forall|j: int| 0 <= j < k ==> ps[j].name != name
}

/// The position of the first profile named `name`.
pub fn find_profile(profiles: &Vec<ProfileConfig>, name: &str) -> (r: Option<usize>)
    ensures
        match r {
            Some(k) => is_first_named(profiles_view(profiles@), name@, k as int),
            None => forall|j: int| 0 <= j < profiles@.len() ==> profiles@[j].name@ != name@,
        },
{
    let target = String::from_str(name);
    let mut i: usize = 0;
    while i < profiles.len()
        invariant
            i <= profiles.len(),
            target@ == name@,
            forall|j: int| 0 <= j < i ==> profiles@[j].name@ != name@,
        decreases profiles.len() - i,
    {
        if profiles[i].name.eq(&target) {
            return Some(i);
        }
        i = i + 1;
    }
    None
}

/// The effects that apply the profile named `name` to the current state;
/// the first profile of that name counts. Once they have all succeeded,
/// `finish_profile` records the profile as active.
pub fn apply_profile(name: &str, config: &AppConfig, state: &AppState) -> (r: Result<
    Vec<Effect>,
    ProfileError,
>)
    ensures
        match r {
            Ok(es) => exists|k: int|
                is_first_named(config@.profiles, name@, k) && es@ == profile_effects_spec(
                    #[trigger] config@.profiles[k],
                    state@,
                ),
            Err(ProfileError::NotFound(n)) => n@ == name@ && forall|j: int|
                0 <= j < config@.profiles.len() ==> config@.profiles[j].name != name@,
        },
{
    match find_profile(&config.profiles, name) {
        Some(k) => {
            let es = profile_effects(&config.profiles[k], state);
            assert(config@.profiles[k as int] == config.profiles@[k as int]@);
            Ok(es)
        },
        None => Err(ProfileError::NotFound(String::from_str(name))),
    }
}

/// Whether applying a profile goes on after `effect` failed: windows that
/// cannot be hidden are reported and skipped, any other failure stops the
/// profile (leaving the effects before it recorded).
pub fn continue_after_failure(effect: Effect) -> (r: bool)
    ensures
        r == (effect == Effect::HideWindows),
{
    match effect {
        Effect::HideWindows => true,
        _ => false,
    }
}

/// The outcome of carrying out one effect: the windows it hid (none for
/// the other effects), or `None` when it failed.
pub type Outcome = Option<Vec<HiddenWindow>>;

/// The model of a list of outcomes.
pub open spec fn outcomes_view(outs: Seq<Outcome>) -> Seq<Option<Seq<HiddenWindow>>> {
    outs.map_values(|o: Outcome| match o {
        Some(v) => Some(v@),
        None => None,
    })
}

/// Whether an outcome ends the run: a failure of anything but hiding the
/// windows.
pub open spec fn is_fatal(e: Effect, o: Option<Seq<HiddenWindow>>) -> bool {
    o is None && e != Effect::HideWindows
}

/// Carrying out a profile's effects one by one with these outcomes: the
/// state with each success recorded, in order, and the position of the
/// failure that stopped the run, if one did. Outcomes after that failure,
/// or beyond the effects, count for nothing.
pub open spec fn run_spec(s: StateView, es: Seq<Effect>, outs: Seq<Option<Seq<HiddenWindow>>>) -> (
    StateView,
    Option<int>,
)
    decreases outs.len(),
{
    if outs.len() == 0 || es.len() == 0 {
        (s, None)
    } else if is_fatal(es[0], outs[0]) {
        (s, Some(0))
    } else {
        let s1 = match outs[0] {
            Some(h) => record_spec(s, es[0], h),
            None => s,
        };
        let r = run_spec(s1, es.drop_first(), outs.drop_first());
        (
            r.0,
            match r.1 {
                Some(j) => Some(j + 1),
                None => None,
            },
        )
    }
}

/// The next effect to carry out, given the outcomes so far: none once a
/// failure stopped the run or every effect has an outcome.
pub open spec fn next_effect_spec(es: Seq<Effect>, outs: Seq<Option<Seq<HiddenWindow>>>) -> Option<
    Effect,
> {
    if run_spec(crate::state::initial_state_view(), es, outs).1 is Some || outs.len() >= es.len() {
        None
    } else {
        Some(es[outs.len() as int])
    }
}

proof fn lemma_run_fatal_index(s: StateView, s2: StateView, es: Seq<Effect>, outs: Seq<Option<Seq<HiddenWindow>>>)
    ensures
        run_spec(s, es, outs).1 == run_spec(s2, es, outs).1,
        run_spec(s, es, outs).1 matches Some(j) ==> 0 <= j < es.len() && j < outs.len() && is_fatal(es[j], outs[j]),
    decreases outs.len(),
{
    if outs.len() > 0 && es.len() > 0 && !is_fatal(es[0], outs[0]) {
        let a = match outs[0] {
            Some(h) => record_spec(s, es[0], h),
            None => s,
        };
        let b = match outs[0] {
            Some(h) => record_spec(s2, es[0], h),
            None => s2,
        };
        lemma_run_fatal_index(a, b, es.drop_first(), outs.drop_first());
    }
}

/// A profile run in which every effect succeeded stops at no failure and
/// leaves hidden exactly what the profile asks for, the active profile not
/// yet changed.
pub proof fn lemma_successful_run_reaches_profile(
    p: ProfileView,
    s: StateView,
    outs: Seq<Option<Seq<HiddenWindow>>>,
)
    requires
        outs.len() == profile_effects_spec(p, s).len(),
        forall|j: int| 0 <= j < outs.len() ==> #[trigger] outs[j] is Some,
    ensures
        run_spec(s, profile_effects_spec(p, s), outs).1 is None,
        run_spec(s, profile_effects_spec(p, s), outs).0.icons_hidden == p.icons,
        run_spec(s, profile_effects_spec(p, s), outs).0.taskbar_hidden == p.taskbar,
        run_spec(s, profile_effects_spec(p, s), outs).0.windows_hidden == p.windows,
        run_spec(s, profile_effects_spec(p, s), outs).0.active_profile == s.active_profile,
{
    reveal_with_fuel(run_spec, 4);
    let es = profile_effects_spec(p, s);
    assert(es.len() <= 3);
    if es.len() >= 1 {
        assert(outs[0] is Some);
        assert(es.drop_first().len() == es.len() - 1);
    }
    if es.len() >= 2 {
        assert(outs[1] is Some);
        assert(outs.drop_first()[0] == outs[1]);
        assert(es.drop_first()[0] == es[1]);
        assert(outs.drop_first().drop_first().len() == es.len() - 2);
    }
    if es.len() >= 3 {
        assert(outs[2] is Some);
        assert(outs.drop_first().drop_first()[0] == outs[2]);
        assert(es.drop_first().drop_first()[0] == es[2]);
    }
}

/// The next effect of a profile run to carry out, if any.
pub fn next_effect(effects: &Vec<Effect>, outcomes: &Vec<Outcome>) -> (r: Option<Effect>)
    ensures
        r == next_effect_spec(effects@, outcomes_view(outcomes@)),
{
    let ghost outs = outcomes_view(outcomes@);
    let mut i: usize = 0;
    while i < outcomes.len() && i < effects.len()
        invariant
            i <= outcomes.len(),
            outs == outcomes_view(outcomes@),
            forall|j: int| 0 <= j < i && j < effects.len() ==> !is_fatal(effects@[j], #[trigger] outs[j]),
        decreases outcomes.len() - i,
    {
        let fatal = match &outcomes[i] {
            Some(_) => false,
            None => !continue_after_failure(effects[i]),
        };
        if fatal {
            proof {
                assert(is_fatal(effects@[i as int], outs[i as int]));
                lemma_run_prefix_ok(crate::state::initial_state_view(), effects@, outs, i as int);
            }
            return None;
        }
        i = i + 1;
    }
    proof {
        lemma_run_no_fatal(crate::state::initial_state_view(), effects@, outs);
    }
    if outcomes.len() >= effects.len() {
        None
    } else {
        Some(effects[outcomes.len()])
    }
}

proof fn lemma_run_prefix_ok(s: StateView, es: Seq<Effect>, outs: Seq<Option<Seq<HiddenWindow>>>, i: int)
    requires
        0 <= i < outs.len(),
        i < es.len(),
        forall|j: int| 0 <= j < i ==> !is_fatal(es[j], #[trigger] outs[j]),
        is_fatal(es[i], outs[i]),
    ensures
        run_spec(s, es, outs).1 == Some(i),
    decreases i,
{
    if i > 0 {
        assert(!is_fatal(es[0], outs[0]));
        let s1 = match outs[0] {
            Some(h) => record_spec(s, es[0], h),
            None => s,
        };
        assert forall|j: int| 0 <= j < i - 1 implies !is_fatal(
            es.drop_first()[j],
            #[trigger] outs.drop_first()[j],
        ) by {
            assert(!is_fatal(es[j + 1], outs[j + 1]));
        }
        lemma_run_prefix_ok(s1, es.drop_first(), outs.drop_first(), i - 1);
    }
}

proof fn lemma_run_no_fatal(s: StateView, es: Seq<Effect>, outs: Seq<Option<Seq<HiddenWindow>>>)
    requires
        forall|j: int| 0 <= j < outs.len() && j < es.len() ==> !is_fatal(es[j], #[trigger] outs[j]),
    ensures
        run_spec(s, es, outs).1 is None,
    decreases outs.len(),
{
    if outs.len() > 0 && es.len() > 0 {
        assert(!is_fatal(es[0], outs[0]));
        let s1 = match outs[0] {
            Some(h) => record_spec(s, es[0], h),
            None => s,
        };
        assert forall|j: int| 0 <= j < outs.drop_first().len() && j < es.drop_first().len() implies !is_fatal(
            es.drop_first()[j],
            #[trigger] outs.drop_first()[j],
        ) by {
            assert(!is_fatal(es[j + 1], outs[j + 1]));
        }
        lemma_run_no_fatal(s1, es.drop_first(), outs.drop_first());
    }
}

/// Ends a profile run whose outcomes are all in: records each success in
/// order up to the failure that stopped the run, if any, and then either
/// reports that failure's position or, when every effect was carried out
/// (a failure to hide the windows being skipped), records the profile named
/// `name` as active.
pub fn finish_run(state: &mut AppState, name: &str, effects: &Vec<Effect>, outcomes: Vec<Outcome>) -> (r: Result<(), usize>)
    requires
        next_effect_spec(effects@, outcomes_view(outcomes@)) is None,
    ensures
        ({
            let run = run_spec(old(state)@, effects@, outcomes_view(outcomes@));
            match run.1 {
                Some(j) => r matches Err(k) && k == j && final(state)@ == run.0,
                None => r is Ok && final(state)@ == (StateView { active_profile: Some(name@), ..run.0 }),
            }
        }),
{
    let ghost outs = outcomes_view(outcomes@);
    let ghost es = effects@;
    let ghost s0 = state@;
    proof {
        lemma_run_fatal_index(s0, crate::state::initial_state_view(), es, outs);
        assert(outs.skip(0) =~= outs);
        assert(es.skip(0) =~= es);
    }
    let mut i: usize = 0;
    while i < outcomes.len() && i < effects.len()
        invariant
            i <= outcomes.len(),
            i <= effects.len(),
            outs == outcomes_view(outcomes@),
            es == effects@,
            s0 == old(state)@,
            forall|j: int| 0 <= j < i && j < es.len() ==> !is_fatal(es[j], #[trigger] outs[j]),
            ({
                let whole = run_spec(s0, es, outs);
                let rest = run_spec(state@, es.skip(i as int), outs.skip(i as int));
                &&& whole.0 == rest.0
                &&& whole.1 == match rest.1 {
                    Some(j) => Some(j + i),
                    None => None,
                }
            }),
        decreases outcomes.len() - i,
    {
        proof {
            assert(es.skip(i as int)[0] == es[i as int]);
            assert(outs.skip(i as int)[0] == outs[i as int]);
            assert(es.skip(i as int).drop_first() =~= es.skip(i + 1));
            assert(outs.skip(i as int).drop_first() =~= outs.skip(i + 1));
        }
        match &outcomes[i] {
            Some(hidden) => {
                let h = hidden.clone();
                assert(h@ =~= hidden@);
                record_effect(state, effects[i], h);
            },
            None => {
                if !continue_after_failure(effects[i]) {
                    proof {
                        assert(is_fatal(es.skip(i as int)[0], outs.skip(i as int)[0]));
                        assert(run_spec(state@, es.skip(i as int), outs.skip(i as int)) == (
                            state@,
                            Some(0int),
                        ));
                        assert(run_spec(s0, es, outs).1 == Some(i as int));
                        assert(run_spec(s0, es, outs).0 == state@);
                    }
                    return Err(i);
                }
            },
        }
        i = i + 1;
    }
    proof {
        if i < outcomes.len() {
            assert(es.skip(i as int).len() == 0);
        } else {
            assert(outs.skip(i as int).len() == 0);
        }
        lemma_run_no_fatal(crate::state::initial_state_view(), es, outs);
    }
    finish_profile(state, name);
    Ok(())
}

/// Records that the profile named `name` is now active.
pub fn finish_profile(state: &mut AppState, name: &str)
    ensures
        final(state)@ == (StateView { active_profile: Some(name@), ..old(state)@ }),
{
    state.active_profile = Some(String::from_str(name));
}

/// The effects that restore everything: show the icons, show the taskbar,
/// restore the windows, each only if hidden.
pub open spec fn restore_effects_spec(s: StateView) -> Seq<Effect> {
    let a = if s.icons_hidden { seq![Effect::ShowIcons] } else { Seq::empty() };
    let b = if s.taskbar_hidden { a.push(Effect::ShowTaskbar) } else { a };
    if s.windows_hidden { b.push(Effect::RestoreWindows) } else { b }
}

/// The effects that restore everything that is hidden.
pub fn restore_all_effects(state: &AppState) -> (r: Vec<Effect>)
    ensures
        r@ == restore_effects_spec(state@),
{
    let mut v: Vec<Effect> = Vec::new();
    if state.icons_hidden {
        v.push(Effect::ShowIcons);
    }
    if state.taskbar_hidden {
        v.push(Effect::ShowTaskbar);
    }
    if state.windows_hidden {
        v.push(Effect::RestoreWindows);
    }
    assert(v@ =~= restore_effects_spec(state@));
    v
}

/// Marks everything visible and no profile active, whatever the outcome of
/// the restore effects: a failed restore is reported, not retried.
pub fn restore_all(state: &mut AppState)
    ensures
        final(state)@ == crate::state::initial_state_view(),
{
    state.icons_hidden = false;
    state.taskbar_hidden = false;
    state.windows_hidden = false;
    state.hidden_windows = Vec::new();
    state.active_profile = None;
    assert(state.hidden_windows@ =~= Seq::<HiddenWindow>::empty());
}

/// Restoring undoes every hidden thing: carrying out the restore effects
/// of any state leaves the icons, the taskbar and the windows all shown,
/// no hidden window kept, and the active profile as it was; each effect is
/// a "show", one per hidden thing.
pub proof fn lemma_restore_effects_undo_all(s: StateView, hidden: Seq<HiddenWindow>)
    ensures
        !record_all(s, restore_effects_spec(s), hidden).icons_hidden,
        !record_all(s, restore_effects_spec(s), hidden).taskbar_hidden,
        !record_all(s, restore_effects_spec(s), hidden).windows_hidden,
        s.windows_hidden ==> record_all(s, restore_effects_spec(s), hidden).hidden_windows.len() == 0,
        record_all(s, restore_effects_spec(s), hidden).active_profile == s.active_profile,
        s.icons_hidden <==> restore_effects_spec(s).contains(Effect::ShowIcons),
        s.taskbar_hidden <==> restore_effects_spec(s).contains(Effect::ShowTaskbar),
        s.windows_hidden <==> restore_effects_spec(s).contains(Effect::RestoreWindows),
        forall|i: int|
            0 <= i < restore_effects_spec(s).len() ==> #[trigger] restore_effects_spec(s)[i]
                != Effect::HideIcons && restore_effects_spec(s)[i] != Effect::HideTaskbar
                && restore_effects_spec(s)[i] != Effect::HideWindows,
{
    reveal_with_fuel(record_all, 4);
    let es = restore_effects_spec(s);
    let a = if s.icons_hidden { seq![Effect::ShowIcons] } else { Seq::<Effect>::empty() };
    let b = if s.taskbar_hidden { a.push(Effect::ShowTaskbar) } else { a };
    assert(es == if s.windows_hidden { b.push(Effect::RestoreWindows) } else { b });
    if a.len() == 1 {
        assert(a.drop_last() =~= Seq::<Effect>::empty());
        assert(a[0] == Effect::ShowIcons);
    }
    if b.len() > a.len() {
        assert(b.drop_last() =~= a);
    }
    if es.len() > b.len() {
        assert(es.drop_last() =~= b);
    }
    if s.icons_hidden {
        assert(es[0] == Effect::ShowIcons);
    }
    if s.taskbar_hidden {
        assert(es[a.len() as int] == Effect::ShowTaskbar);
    }
    if s.windows_hidden {
        assert(es[b.len() as int] == Effect::RestoreWindows);
    }
    assert forall|e: Effect| #[trigger] es.contains(e) implies (e == Effect::ShowIcons && s.icons_hidden) || (
    e == Effect::ShowTaskbar && s.taskbar_hidden) || (e == Effect::RestoreWindows && s.windows_hidden) by {
        let i = choose|i: int| 0 <= i < es.len() && es[i] == e;
        if i < a.len() {
            assert(es[i] == a[i]);
        } else if i < b.len() {
            assert(es[i] == b[i]);
        }
    }
    assert forall|i: int| 0 <= i < es.len() implies #[trigger] es[i] != Effect::HideIcons && es[i]
        != Effect::HideTaskbar && es[i] != Effect::HideWindows by {
        assert(es.contains(es[i]));
    }
}

/// Restoring everything twice is the same as once.
pub proof fn lemma_restore_all_idempotent()
    ensures
        restore_effects_spec(crate::state::initial_state_view()) == Seq::<Effect>::empty(),
{
    assert(restore_effects_spec(crate::state::initial_state_view()) =~= Seq::<Effect>::empty());
}

} // verus!

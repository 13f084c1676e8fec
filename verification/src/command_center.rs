//! Decisions of the menu bar command center: launch-at-login changes, the
//! replacement of a global shortcut, and what the tray shows.
use vstd::prelude::*;

use crate::domain::outcome;

verus! {

/// The launch-at-login change to make: none when the current state already
/// is the requested one, otherwise the requested state.
pub fn autostart_change(current: bool, requested: bool) -> (r: Option<bool>)
    ensures
        r == (if current != requested {
            Some(requested)
        } else {
            None::<bool>
        }),
{
    if current != requested {
        Some(requested)
    } else {
        None
    }
}

pub open spec fn conflict_message() -> Seq<char> {
    "Shortcut conflicts with Peek shortcut"@
}

/// The error reported when releasing the previous shortcut failed: that
/// failure, followed by the failure to release the new shortcut again if
/// that failed too.
pub open spec fn rollback_message(error: String, rollback: Result<(), String>) -> Seq<char> {
    match rollback {
        Ok(_) => error@,
        Err(failure) => error@ + "; shortcut rollback failed: "@ + failure@,
    }
}

/// Whether replacing `current` by `replacement` calls anything: not when
/// `replacement` is already registered, nor when it is reserved for Peek.
pub open spec fn replacement_needed(current: Option<u32>, replacement: u32, reserved: Option<u32>) -> bool {
    current != Some(replacement) && reserved != Some(replacement)
}

/// A call of a shortcut replacement.
#[derive(Clone, Copy, Debug, PartialEq, Eq)]
pub enum RegistrationCall {
    Register(u32),
    Release(u32),
}

/// The next call of a replacement, given which of the calls made so far
/// succeeded: nothing when no replacement is needed; first register
/// `replacement`; after that succeeded, release the previous shortcut if
/// there was one; after that failed, release `replacement` again; then
/// nothing more.
pub open spec fn registration_call(
    current: Option<u32>,
    replacement: u32,
    reserved: Option<u32>,
    succeeded: Seq<bool>,
) -> Option<RegistrationCall> {
    if !replacement_needed(current, replacement, reserved) {
        None
    } else if succeeded.len() == 0 {
        Some(RegistrationCall::Register(replacement))
    } else if succeeded.len() == 1 {
        if succeeded[0] {
            match current {
                Some(previous) => Some(RegistrationCall::Release(previous)),
                None => None,
            }
        } else {
            None
        }
    } else if succeeded.len() == 2 && !succeeded[1] {
        Some(RegistrationCall::Release(replacement))
    } else {
        None
    }
}

/// The step function of a replacement: the call to make next.
pub fn next_registration_call(
    current: Option<u32>,
    replacement: u32,
    reserved: Option<u32>,
    succeeded: &Vec<bool>,
) -> (c: Option<RegistrationCall>)
    ensures
        c == registration_call(current, replacement, reserved, succeeded@),
{
    if current == Some(replacement) || reserved == Some(replacement) {
        None
    } else if succeeded.len() == 0 {
        Some(RegistrationCall::Register(replacement))
    } else if succeeded.len() == 1 {
        if succeeded[0] {
            match current {
                Some(previous) => Some(RegistrationCall::Release(previous)),
                None => None,
            }
        } else {
            None
        }
    } else if succeeded.len() == 2 && !succeeded[1] {
        Some(RegistrationCall::Release(replacement))
    } else {
        None
    }
}

/// Which calls of `trace` succeeded.
pub open spec fn succeeded(trace: Seq<Result<(), String>>) -> Seq<bool> {
    trace.map_values(|o: Result<(), String>| o is Ok)
}

/// `call` was made and reported `o`.
pub open spec fn reported<F: FnMut(u32) -> Result<(), String>, G: FnMut(u32) -> Result<(), String>>(
    register: F,
    unregister: G,
    call: RegistrationCall,
    o: Result<(), String>,
) -> bool {
    match call {
        RegistrationCall::Register(id) => call_ensures(register, (id,), o),
        RegistrationCall::Release(id) => call_ensures(unregister, (id,), o),
    }
}

/// The `k`-th call of `trace` is the one the step function names after the
/// calls before it, and it reported `trace[k]`.
pub open spec fn call_at<F: FnMut(u32) -> Result<(), String>, G: FnMut(u32) -> Result<(), String>>(
    register: F,
    unregister: G,
    current: Option<u32>,
    replacement: u32,
    reserved: Option<u32>,
    trace: Seq<Result<(), String>>,
    k: int,
) -> bool {
    match registration_call(current, replacement, reserved, succeeded(trace.take(k))) {
        Some(call) => reported(register, unregister, call, trace[k]),
        None => false,
    }
}

/// The calls of a replacement, in order, reported `trace`: each is the one
/// the step function names, until it names none.
pub open spec fn made_calls<F: FnMut(u32) -> Result<(), String>, G: FnMut(u32) -> Result<(), String>>(
    register: F,
    unregister: G,
    current: Option<u32>,
    replacement: u32,
    reserved: Option<u32>,
    trace: Seq<Result<(), String>>,
) -> bool {
    &&& forall|k: int|
        0 <= k < trace.len() ==> #[trigger] call_at(
            register,
            unregister,
            current,
            replacement,
            reserved,
            trace,
            k,
        )
    &&& registration_call(current, replacement, reserved, succeeded(trace)) is None
}

/// The `k`-th outcome of `trace`, success when there is none.
pub open spec fn outcome_at(trace: Seq<Result<(), String>>, k: int) -> Result<(), String> {
    if 0 <= k < trace.len() {
        trace[k]
    } else {
        Ok(())
    }
}

/// What a replacement returns, given what its calls reported.
pub open spec fn replacement_result(
    current: Option<u32>,
    replacement: u32,
    reserved: Option<u32>,
    reg: Result<(), String>,
    rel: Result<(), String>,
    rb: Result<(), String>,
) -> Result<(), Seq<char>> {
    if current == Some(replacement) {
        Ok(())
    } else if reserved == Some(replacement) {
        Err(conflict_message())
    } else {
        match reg {
            Err(e) => Err(e@),
            Ok(_) => match current {
                None => Ok(()),
                Some(_) => match rel {
                    Ok(_) => Ok(()),
                    Err(e) => Err(rollback_message(e, rb)),
                },
            },
        }
    }
}

/// The registered shortcuts after registering (`adds`) or releasing `id`:
/// the call changes them exactly when it reports success.
pub open spec fn after_call(registered: Set<u32>, adds: bool, id: u32, o: Result<(), String>) -> Set<u32> {
    if o is Ok {
        if adds {
            registered.insert(id)
        } else {
            registered.remove(id)
        }
    } else {
        registered
    }
}

/// The registered shortcuts after the calls of `trace`, each being the one
/// the step function names after the calls before it.
pub open spec fn after_calls(
    registered: Set<u32>,
    current: Option<u32>,
    replacement: u32,
    reserved: Option<u32>,
    trace: Seq<Result<(), String>>,
) -> Set<u32>
    decreases trace.len(),
{
    if trace.len() == 0 {
        registered
    } else {
        let before = after_calls(registered, current, replacement, reserved, trace.drop_last());
        match registration_call(current, replacement, reserved, succeeded(trace.drop_last())) {
            Some(RegistrationCall::Register(id)) => after_call(before, true, id, trace.last()),
            Some(RegistrationCall::Release(id)) => after_call(before, false, id, trace.last()),
            None => before,
        }
    }
}

/// `trace` holds the outcomes of a whole replacement: the step function
/// names a call before each of them and none after the last.
pub open spec fn complete_trace(
    current: Option<u32>,
    replacement: u32,
    reserved: Option<u32>,
    trace: Seq<Result<(), String>>,
) -> bool {
    &&& forall|k: int|
        0 <= k < trace.len() ==> (#[trigger] registration_call(
            current,
            replacement,
            reserved,
            succeeded(trace.take(k)),
        )) is Some
    &&& registration_call(current, replacement, reserved, succeeded(trace)) is None
}

/// What a replacement whose calls reported `trace` returns.
pub open spec fn trace_result(
    current: Option<u32>,
    replacement: u32,
    reserved: Option<u32>,
    trace: Seq<Result<(), String>>,
) -> Result<(), Seq<char>> {
    replacement_result(
        current,
        replacement,
        reserved,
        outcome_at(trace, 0),
        outcome_at(trace, 1),
        outcome_at(trace, 2),
    )
}

/// Replacing a registered shortcut moves the registration, for every
/// outcome of the calls a replacement makes: on success the previous
/// shortcut is released and the replacement registered; on failure the
/// shortcuts registered before stay registered, provided releasing the
/// replacement again succeeded where that was needed.
pub proof fn law_replacement_moves_registration(
    registered: Set<u32>,
    current: Option<u32>,
    replacement: u32,
    reserved: Option<u32>,
    trace: Seq<Result<(), String>>,
)
    requires
        current matches Some(previous) ==> registered.contains(previous),
        current != Some(replacement) ==> !registered.contains(replacement),
        complete_trace(current, replacement, reserved, trace),
    ensures
        trace_result(current, replacement, reserved, trace) is Ok ==> after_calls(
            registered,
            current,
            replacement,
            reserved,
            trace,
        ) == (match current {
            Some(previous) => registered.remove(previous),
            None => registered,
        }).insert(replacement),
        trace_result(current, replacement, reserved, trace) is Err && outcome_at(trace, 2) is Ok
            ==> after_calls(registered, current, replacement, reserved, trace) == registered,
{
    reveal_with_fuel(after_calls, 4);
    assert(succeeded(trace.take(0)) =~= Seq::<bool>::empty());
    if !replacement_needed(current, replacement, reserved) {
        if trace.len() > 0 {
            assert(registration_call(current, replacement, reserved, succeeded(trace.take(0))) is Some);
        }
        if current == Some(replacement) {
            assert(registered.remove(replacement).insert(replacement) =~= registered);
        }
        return;
    }
    assert(trace.len() > 0);
    let reg = trace[0];
    assert(trace.take(1) =~= seq![reg]);
    assert(succeeded(trace.take(1)) =~= seq![reg is Ok]);
    if trace.len() == 1 {
        assert(trace.drop_last() =~= trace.take(0));
        assert(trace.take(0).len() == 0);
        assert(succeeded(trace) =~= seq![reg is Ok]);
        return;
    }
    assert(registration_call(current, replacement, reserved, succeeded(trace.take(1))) is Some);
    let previous = current->0;
    let rel = trace[1];
    assert(trace.take(2) =~= seq![reg, rel]);
    assert(succeeded(trace.take(2)) =~= seq![reg is Ok, rel is Ok]);
    assert(trace.take(2).drop_last() =~= trace.take(1));
    assert(trace.take(1).drop_last() =~= trace.take(0));
    assert(after_calls(registered, current, replacement, reserved, trace.take(1))
        == after_call(registered, true, replacement, reg));
    if trace.len() == 2 {
        assert(trace =~= trace.take(2));
        if rel is Ok {
            assert(registered.insert(replacement).remove(previous) =~= registered.remove(
                previous,
            ).insert(replacement));
        }
        return;
    }
    assert(registration_call(current, replacement, reserved, succeeded(trace.take(2))) is Some);
    let rb = trace[2];
    assert(trace.take(3) =~= seq![reg, rel, rb]);
    assert(trace.take(3).drop_last() =~= trace.take(2));
    if trace.len() > 3 {
        assert(succeeded(trace.take(3)).len() == 3);
        assert(registration_call(current, replacement, reserved, succeeded(trace.take(3))) is Some);
    }
    assert(trace =~= trace.take(3));
    if rb is Ok {
        assert(registered.insert(replacement).remove(replacement) =~= registered);
    }
}

/// The outcomes of the calls a replacement made form a whole replacement, so
/// `law_replacement_moves_registration` applies to them.
pub proof fn lemma_made_calls_are_complete<F: FnMut(u32) -> Result<(), String>, G: FnMut(u32) -> Result<(), String>>(
    register: F,
    unregister: G,
    current: Option<u32>,
    replacement: u32,
    reserved: Option<u32>,
    trace: Seq<Result<(), String>>,
)
    requires
        made_calls(register, unregister, current, replacement, reserved, trace),
    ensures
        complete_trace(current, replacement, reserved, trace),
{
    assert forall|k: int| 0 <= k < trace.len() implies (#[trigger] registration_call(
        current,
        replacement,
        reserved,
        succeeded(trace.take(k)),
    )) is Some by {
        assert(call_at(register, unregister, current, replacement, reserved, trace, k));
    }
}

/// Replaces the registered shortcut `current` by `replacement`, identified
/// by their ids. The shortcut reserved for Peek is refused. The new shortcut
/// is registered before the previous one is released; when the release
/// fails, the new registration is released again and the previous one stays.
pub fn replace_registration<F, G>(
    current: Option<u32>,
    replacement: u32,
    reserved: Option<u32>,
    mut register: F,
    mut unregister: G,
) -> (r: Result<(), String>)
    where
        F: FnMut(u32) -> Result<(), String>,
        G: FnMut(u32) -> Result<(), String>,
    requires
        forall|id: u32| call_requires(register, (id,)),
        forall|id: u32| call_requires(unregister, (id,)),
    ensures
        exists|trace: Seq<Result<(), String>>|
            made_calls(register, unregister, current, replacement, reserved, trace) && match r {
                Ok(_) => trace_result(current, replacement, reserved, trace) is Ok,
                Err(m) => trace_result(current, replacement, reserved, trace) == Err::<
                    (),
                    Seq<char>,
                >(m@),
            },
{
    let ghost empty = Seq::<Result<(), String>>::empty();
    if current == Some(replacement) || reserved == Some(replacement) {
        assert(made_calls(register, unregister, current, replacement, reserved, empty));
        if current == Some(replacement) {
            return Ok(());
        }
        return Err("Shortcut conflicts with Peek shortcut".to_owned());
    }
    let registered = register(replacement);
    let ghost reg = registered;
    assert(call_ensures(register, (replacement,), reg));
    proof {
        let one = seq![reg];
        assert(succeeded(one.take(0)) =~= Seq::<bool>::empty());
        assert(succeeded(one) =~= seq![reg is Ok]);
        assert(call_at(register, unregister, current, replacement, reserved, one, 0));
    }
    if let Err(e) = registered {
        assert(made_calls(register, unregister, current, replacement, reserved, seq![reg]));
        return Err(e);
    }
    if let Some(previous) = current {
        let released = unregister(previous);
        let ghost rel = released;
        assert(call_ensures(unregister, (previous,), rel));
        proof {
            let two = seq![reg, rel];
            assert(two.take(1) =~= seq![reg]);
            assert(succeeded(two.take(0)) =~= Seq::<bool>::empty());
            assert(succeeded(two.take(1)) =~= seq![true]);
            assert(succeeded(two) =~= seq![true, rel is Ok]);
            assert(call_at(register, unregister, current, replacement, reserved, two, 0));
            assert(call_at(register, unregister, current, replacement, reserved, two, 1));
        }
        if let Err(error) = released {
            let rollback = unregister(replacement);
            let ghost rb = rollback;
            assert(call_ensures(unregister, (replacement,), rb));
            let r = match rollback {
                Ok(()) => Err(error),
                Err(rollback_error) => {
                    let m = crate::text::joined(error, "; shortcut rollback failed: ");
                    Err(crate::text::joined(m, rollback_error.as_str()))
                },
            };
            proof {
                let three = seq![reg, rel, rb];
                assert(three.take(1) =~= seq![reg]);
                assert(three.take(2) =~= seq![reg, rel]);
                assert(succeeded(three.take(0)) =~= Seq::<bool>::empty());
                assert(succeeded(three.take(1)) =~= seq![true]);
                assert(succeeded(three.take(2)) =~= seq![true, false]);
                assert(succeeded(three).len() == 3);
                assert(call_at(register, unregister, current, replacement, reserved, three, 0));
                assert(call_at(register, unregister, current, replacement, reserved, three, 1));
                assert(call_at(register, unregister, current, replacement, reserved, three, 2));
                assert(made_calls(register, unregister, current, replacement, reserved, three));
                assert(outcome_at(three, 2) == rb);
            }
            return r;
        }
        assert(made_calls(register, unregister, current, replacement, reserved, seq![reg, rel]));
        return Ok(());
    }
    assert(made_calls(register, unregister, current, replacement, reserved, seq![reg]));
    Ok(())
}

pub open spec fn peek_conflict_message() -> Seq<char> {
    "Peek shortcut conflicts with emergency shortcut"@
}

pub open spec fn peek_unavailable_message(e: String) -> Seq<char> {
    "Peek shortcut is unavailable: "@ + e@
}

/// The problems of the start-up registration, joined with "; ", if any.
pub open spec fn joined_problems(first: Option<String>, second: Option<Seq<char>>) -> Result<(), Seq<char>> {
    match (first, second) {
        (None, None) => Ok(()),
        (Some(a), None) => Err(a@),
        (None, Some(b)) => Err(b),
        (Some(a), Some(b)) => Err(a@ + "; "@ + b),
    }
}

/// The start-up registration of the Peek shortcut `peek`, after the
/// emergency shortcut was registered as `emergency` (with the problem
/// `emergency_problem`, if it failed). Peek is refused when it is the
/// emergency shortcut; otherwise it is registered. Returns the Peek shortcut
/// now registered, if any, and every problem of the start-up registration.
pub fn register_peek<F>(
    emergency_problem: Option<String>,
    emergency: Option<u32>,
    peek: u32,
    register: F,
) -> (r: (Option<u32>, Result<(), String>))
    where
        F: FnOnce(u32) -> Result<(), String>,
    requires
        call_requires(register, (peek,)),
    ensures
        emergency == Some(peek) ==> r.0 is None && outcome(r.1) == joined_problems(
            emergency_problem,
            Some(peek_conflict_message()),
        ),
        emergency != Some(peek) ==> exists|o: Result<(), String>|
            call_ensures(register, (peek,), o) && match o {
                Ok(_) => r.0 == Some(peek) && outcome(r.1) == joined_problems(
                    emergency_problem,
                    None,
                ),
                Err(e) => r.0 is None && outcome(r.1) == joined_problems(
                    emergency_problem,
                    Some(peek_unavailable_message(e)),
                ),
            },
{
    let (slot, problem) = if emergency == Some(peek) {
        (None, Some("Peek shortcut conflicts with emergency shortcut".to_owned()))
    } else {
        let o = register(peek);
        let ghost out = o;
        assert(call_ensures(register, (peek,), out));
        match o {
            Ok(()) => (Some(peek), None),
            Err(e) => (None, Some(crate::text::joined("Peek shortcut is unavailable: ".to_owned(), e.as_str()))),
        }
    };
    let result = match (emergency_problem, problem) {
        (None, None) => Ok(()),
        (Some(a), None) => Err(a),
        (None, Some(b)) => Err(b),
        (Some(a), Some(b)) => Err(crate::text::joined(crate::text::joined(a, "; "), b.as_str())),
    };
    (slot, result)
}

/// What a global shortcut event asks for.
#[derive(Clone, Copy, Debug, PartialEq, Eq)]
pub enum ShortcutResponse {
    /// Pause all protection and keep it paused.
    Pause,
    /// Peek while the shortcut is held: `true` on press, `false` on release.
    Peek(bool),
    Ignore,
}

/// The response to shortcut `shortcut` being pressed or released, given the
/// registered emergency and Peek shortcuts: pressing the emergency shortcut
/// pauses; the Peek shortcut peeks while it is held; anything else is
/// ignored.
pub fn shortcut_response(shortcut: u32, emergency: Option<u32>, peek: Option<u32>, pressed: bool) -> (r:
    ShortcutResponse)
    ensures
        r == (if emergency == Some(shortcut) && pressed {
            ShortcutResponse::Pause
        } else if peek == Some(shortcut) {
            ShortcutResponse::Peek(pressed)
        } else {
            ShortcutResponse::Ignore
        }),
{
    if emergency == Some(shortcut) && pressed {
        ShortcutResponse::Pause
    } else if peek == Some(shortcut) {
        ShortcutResponse::Peek(pressed)
    } else {
        ShortcutResponse::Ignore
    }
}

/// The protection state the tray reflects.
#[derive(Clone, Copy, Debug, PartialEq, Eq)]
pub enum ProtectionState {
    Watching,
    PrivacyActive,
    PeekActive,
    Paused,
    Error,
}

/// What the tray icon and its menu show.
#[derive(Clone, Debug, PartialEq)]
pub struct TrayPresentation {
    pub symbol: String,
    pub label: String,
    pub peek_label: String,
    pub pause_label: String,
}

pub open spec fn tray_symbol(state: ProtectionState) -> Seq<char> {
    match state {
        ProtectionState::Watching => "○"@,
        ProtectionState::PrivacyActive => "●"@,
        ProtectionState::PeekActive => "◉"@,
        ProtectionState::Paused => "Ⅱ"@,
        ProtectionState::Error => "!"@,
    }
}

pub open spec fn tray_label(state: ProtectionState) -> Seq<char> {
    match state {
        ProtectionState::Watching => "Watching"@,
        ProtectionState::PrivacyActive => "Protected"@,
        ProtectionState::PeekActive => "Peek active"@,
        ProtectionState::Paused => "Paused"@,
        ProtectionState::Error => "Protection error"@,
    }
}

pub open spec fn peek_label(state: ProtectionState) -> Seq<char> {
    match state {
        ProtectionState::PeekActive => "End Peek"@,
        _ => "Temporarily Peek"@,
    }
}

pub open spec fn pause_label(protection_enabled: bool) -> Seq<char> {
    if protection_enabled {
        "Pause All Protection"@
    } else {
        "Resume Protection"@
    }
}

/// The tray's symbol and labels for a protection state.
pub fn tray_presentation(state: ProtectionState, protection_enabled: bool) -> (p: TrayPresentation)
    ensures
        p.symbol@ == tray_symbol(state),
        p.label@ == tray_label(state),
        p.peek_label@ == peek_label(state),
        p.pause_label@ == pause_label(protection_enabled),
{
    let (symbol, label, peek) = match state {
        ProtectionState::Watching => ("○", "Watching", "Temporarily Peek"),
        ProtectionState::PrivacyActive => ("●", "Protected", "Temporarily Peek"),
        ProtectionState::PeekActive => ("◉", "Peek active", "End Peek"),
        ProtectionState::Paused => ("Ⅱ", "Paused", "Temporarily Peek"),
        ProtectionState::Error => ("!", "Protection error", "Temporarily Peek"),
    };
    let pause = if protection_enabled {
        "Pause All Protection"
    } else {
        "Resume Protection"
    };
    TrayPresentation {
        symbol: symbol.to_owned(),
        label: label.to_owned(),
        peek_label: peek.to_owned(),
        pause_label: pause.to_owned(),
    }
}

} // verus!

//! Ownership of the panel-wide hardware brightness: who currently holds it
//! (automatic protection, a manual setting or a timed preview), the level
//! captured before the first change, and when that level is restored.
//!
//! The platform operations are passed in as closures: `capture` reads the
//! current level of every controllable display (returning an opaque snapshot
//! and the displays it describes), `set` applies a percentage to the displays
//! of a snapshot and `restore` puts a snapshot's levels back. Every contract
//! below holds for every outcome those operations may report.
use vstd::prelude::*;

verus! {

#[derive(Clone, Debug, PartialEq)]
pub struct BrightnessDisplay {
    pub id: String,
    pub name: String,
    pub brightness_percent: u8,
    pub built_in: bool,
}

#[derive(Clone, Debug, PartialEq)]
pub struct BrightnessStatus {
    pub supported: bool,
    pub displays: Vec<BrightnessDisplay>,
    pub message: String,
}

pub open spec fn percent_ok(percent: u8) -> bool {
    10 <= percent <= 100
}

pub open spec fn bounds_message() -> Seq<char> {
    "hardware brightness must be between 10 and 100"@
}

pub open spec fn no_display_message() -> Seq<char> {
    "No controllable display brightness interface found"@
}

/// Rejects hardware levels outside 10..=100 percent.
pub fn validate_percent(percent: u8) -> (r: Result<(), String>)
    ensures
        r is Ok <==> percent_ok(percent),
        r matches Err(e) ==> e@ == bounds_message(),
{
    if 10 <= percent && percent <= 100 {
        Ok(())
    } else {
        Err("hardware brightness must be between 10 and 100".to_owned())
    }
}

/// A status that reports no controllable display, with the given reason.
pub fn unsupported(message: &str) -> (s: BrightnessStatus)
    ensures
        !s.supported,
        s.displays@.len() == 0,
        s.message@ == message@,
{
    BrightnessStatus { supported: false, displays: Vec::new(), message: message.to_owned() }
}

/// The status shown for what the platform reported: its displays when it
/// found any, otherwise the reason there is nothing to control.
pub fn status(snapshot: Result<Vec<BrightnessDisplay>, String>) -> (s: BrightnessStatus)
    ensures
        match snapshot {
            Ok(displays) => if displays@.len() > 0 {
                s.supported && s.displays == displays && s.message@
                    == "Hardware brightness control available"@
            } else {
                !s.supported && s.displays@.len() == 0 && s.message@ == no_display_message()
            },
            Err(e) => !s.supported && s.displays@.len() == 0 && s.message@ == e@,
        },
{
    match snapshot {
        Ok(displays) => {
            if displays.len() > 0 {
                BrightnessStatus {
                    supported: true,
                    displays,
                    message: "Hardware brightness control available".to_owned(),
                }
            } else {
                unsupported("No controllable display brightness interface found")
            }
        },
        Err(error) => unsupported(error.as_str()),
    }
}

/// The display as it reads once set to `percent`.
pub open spec fn shown_at(d: BrightnessDisplay, percent: u8) -> BrightnessDisplay {
    BrightnessDisplay {
        id: d.id,
        name: d.name,
        brightness_percent: percent,
        built_in: d.built_in,
    }
}

/// The status reported after every display was set to `percent`.
pub open spec fn is_applied_status(
    s: BrightnessStatus,
    displays: Seq<BrightnessDisplay>,
    percent: u8,
) -> bool {
    &&& s.supported
    &&& s.displays@ == displays.map_values(|d: BrightnessDisplay| shown_at(d, percent))
    &&& s.message@ == "Hardware brightness applied"@
}

/// The status after every display of `displays` was set to `percent`.
pub fn applied_status(displays: &Vec<BrightnessDisplay>, percent: u8) -> (s: BrightnessStatus)
    ensures
        is_applied_status(s, displays@, percent),
{
    let mut shown: Vec<BrightnessDisplay> = Vec::new();
    let mut i: usize = 0;
    while i < displays.len()
        invariant
            0 <= i <= displays@.len(),
            shown@ =~= displays@.subrange(0, i as int).map_values(
                |d: BrightnessDisplay| shown_at(d, percent),
            ),
        decreases displays@.len() - i,
    {
        let d = &displays[i];
        shown.push(
            BrightnessDisplay {
                id: d.id.clone(),
                name: d.name.clone(),
                brightness_percent: percent,
                built_in: d.built_in,
            },
        );
        assert(displays@.subrange(0, i + 1) =~= displays@.subrange(0, i as int).push(*d));
        i = i + 1;
    }
    assert(displays@.subrange(0, displays@.len() as int) =~= displays@);
    BrightnessStatus { supported: true, displays: shown, message: "Hardware brightness applied".to_owned() }
}

/// What `apply` returns, given what the platform reported: the captured
/// snapshot (or the capture error), then the outcome of setting the level.
pub open spec fn apply_result<S, T: FnOnce(&S, u8) -> Result<(), String>>(
    percent: u8,
    set: T,
    captured: Result<(S, Vec<BrightnessDisplay>), String>,
    r: Result<(BrightnessStatus, S), String>,
) -> bool {
    match captured {
        Err(e) => r == Err::<(BrightnessStatus, S), String>(e),
        Ok((snapshot, displays)) => if displays@.len() == 0 {
            r matches Err(e) && e@ == no_display_message()
        } else {
            exists|o: Result<(), String>|
                call_ensures(set, (&snapshot, percent), o) && match o {
                    Err(e) => r == Err::<(BrightnessStatus, S), String>(e),
                    Ok(_) => r matches Ok((s, kept)) && kept == snapshot && is_applied_status(
                        s,
                        displays@,
                        percent,
                    ),
                }
        },
    }
}

/// Captures the current levels, then sets every captured display to
/// `percent`.
pub fn apply<S, C, T>(percent: u8, capture: C, set: T) -> (r: Result<(BrightnessStatus, S), String>)
    where
        C: FnOnce() -> Result<(S, Vec<BrightnessDisplay>), String>,
        T: FnOnce(&S, u8) -> Result<(), String>,
    requires
        call_requires(capture, ()),
        forall|s: &S, p: u8| call_requires(set, (s, p)),
    ensures
        !percent_ok(percent) ==> (r matches Err(e) && e@ == bounds_message()),
        percent_ok(percent) ==> exists|captured: Result<(S, Vec<BrightnessDisplay>), String>|
            call_ensures(capture, (), captured) && apply_result(percent, set, captured, r),
{
    let v = validate_percent(percent);
    if let Err(e) = v {
        return Err(e);
    }
    let captured = capture();
    let ghost cap = captured;
    let (snapshot, displays) = match captured {
        Ok(pair) => pair,
        Err(e) => {
            let r = Err(e);
            assert(apply_result(percent, set, cap, r));
            return r;
        },
    };
    if displays.len() == 0 {
        let r = Err("No controllable display brightness interface found".to_owned());
        assert(apply_result(percent, set, cap, r));
        return r;
    }
    let o = set(&snapshot, percent);
    let ghost out = o;
    let r = match o {
        Ok(()) => {
            let s = applied_status(&displays, percent);
            Ok((s, snapshot))
        },
        Err(e) => Err(e),
    };
    assert(call_ensures(set, (&snapshot, percent), out));
    assert(apply_result(percent, set, cap, r));
    r
}

/// Who currently holds the hardware level.
#[derive(Clone, Debug, PartialEq)]
pub enum ControlMode {
    Automatic { rule_id: String, percent: u8 },
    Manual,
    Preview(u64),
}

/// The mode is automatic protection for `rule_id` at `percent`.
pub open spec fn is_automatic_for(mode: Option<ControlMode>, rule_id: Seq<char>, percent: u8) -> bool {
    match mode {
        Some(ControlMode::Automatic { rule_id: r, percent: p }) => r@ == rule_id && p == percent,
        _ => false,
    }
}

/// A manual setting or a preview holds the level.
pub open spec fn is_temporary(mode: Option<ControlMode>) -> bool {
    match mode {
        Some(ControlMode::Manual) => true,
        Some(ControlMode::Preview(_)) => true,
        _ => false,
    }
}

/// The generation after one more session was started.
pub open spec fn next_generation(g: u64) -> u64 {
    if g == u64::MAX {
        0
    } else {
        (g + 1) as u64
    }
}

/// The hardware brightness session. `S` is the platform's snapshot of the
/// levels captured before the first change.
pub struct BrightnessControl<S> {
    generation: u64,
    snapshot: Option<S>,
    mode: Option<ControlMode>,
}

impl<S> BrightnessControl<S> {
    pub closed spec fn spec_generation(&self) -> u64 {
        self.generation
    }

    pub closed spec fn captured(&self) -> Option<S> {
        self.snapshot
    }

    pub closed spec fn mode(&self) -> Option<ControlMode> {
        self.mode
    }

    /// A level is captured exactly while some mode holds the hardware, and an
    /// automatic mode always names an accepted level.
    pub open spec fn wf(&self) -> bool {
        &&& (self.captured() is Some <==> self.mode() is Some)
        &&& match self.mode() {
            Some(ControlMode::Automatic { percent, .. }) => percent_ok(percent),
            _ => true,
        }
    }

    /// No hardware level is held.
    pub open spec fn is_idle(&self) -> bool {
        self.captured() is None && self.mode() is None
    }

    /// `after` holds the same session as `before`.
    pub open spec fn unchanged(before: Self, after: Self) -> bool {
        &&& after.captured() == before.captured()
        &&& after.mode() == before.mode()
    }

    /// What restoring a captured level reported: success when nothing was
    /// captured, otherwise the outcome of `restore`.
    pub open spec fn restore_outcome<R: FnOnce(&S) -> Result<(), String>>(
        captured: Option<S>,
        restore: R,
        o: Result<(), String>,
    ) -> bool {
        match captured {
            None => o is Ok,
            Some(snapshot) => call_ensures(restore, (&snapshot,), o),
        }
    }

    /// Releasing the session of `before`: when the restore succeeds nothing is
    /// held any more; when it fails the session is kept and the failure is
    /// returned.
    pub open spec fn restore_result<R: FnOnce(&S) -> Result<(), String>>(
        before: Self,
        restore: R,
        after: Self,
        r: Result<(), String>,
    ) -> bool {
        exists|o: Result<(), String>|
            Self::restore_outcome(before.captured(), restore, o) && match o {
                Ok(_) => r is Ok && after.is_idle(),
                Err(e) => r == Err::<(), String>(e) && Self::unchanged(before, after),
            }
    }

    /// Starting a temporary session in `mode` at `percent`: the previous
    /// session is released first, then the current levels are captured and
    /// the new level is set. A failed release keeps the previous session; a
    /// failure after the release leaves nothing held.
    pub open spec fn begin_result<
        R: FnOnce(&S) -> Result<(), String>,
        C: FnOnce() -> Result<(S, Vec<BrightnessDisplay>), String>,
        T: FnOnce(&S, u8) -> Result<(), String>,
    >(
        before: Self,
        percent: u8,
        mode: ControlMode,
        restore: R,
        capture: C,
        set: T,
        after: Self,
        r: Result<BrightnessStatus, String>,
    ) -> bool {
        if !percent_ok(percent) {
            (r matches Err(e) && e@ == bounds_message()) && Self::unchanged(before, after)
        } else {
            exists|o: Result<(), String>|
                Self::restore_outcome(before.captured(), restore, o) && match o {
                    Err(e) => r == Err::<BrightnessStatus, String>(e) && Self::unchanged(
                        before,
                        after,
                    ),
                    Ok(_) => exists|
                        captured: Result<(S, Vec<BrightnessDisplay>), String>,
                        applied: Result<(BrightnessStatus, S), String>,
                    |
                        call_ensures(capture, (), captured) && apply_result(
                            percent,
                            set,
                            captured,
                            applied,
                        ) && match applied {
                            Err(e) => r == Err::<BrightnessStatus, String>(e) && after.is_idle(),
                            Ok((status, snapshot)) => r == Ok::<BrightnessStatus, String>(status)
                                && after.captured() == Some(snapshot) && after.mode() == Some(mode),
                        },
                }
        }
    }

    pub fn new() -> (c: Self)
        ensures
            c.wf(),
            c.is_idle(),
            c.spec_generation() == 0,
    {
        BrightnessControl { generation: 0, snapshot: None, mode: None }
    }

    pub fn generation(&self) -> (g: u64)
        ensures
            g == self.spec_generation(),
    {
        self.generation
    }

    fn bump_generation(&mut self) -> (g: u64)
        ensures
            final(self).spec_generation() == next_generation(old(self).spec_generation()),
            g == final(self).spec_generation(),
            final(self).captured() == old(self).captured(),
            final(self).mode() == old(self).mode(),
    {
        self.generation = if self.generation == u64::MAX {
            0
        } else {
            self.generation + 1
        };
        self.generation
    }

    fn restore_state<R>(&mut self, restore: R) -> (r: Result<(), String>)
        where
            R: FnOnce(&S) -> Result<(), String>,
        requires
            old(self).wf(),
            forall|s: &S| call_requires(restore, (s,)),
        ensures
            final(self).wf(),
            final(self).spec_generation() == old(self).spec_generation(),
            Self::restore_result(*old(self), restore, *final(self), r),
    {
        let ghost before = *self;
        match &self.snapshot {
            Some(snapshot) => {
                let o = restore(snapshot);
                let ghost out = o;
                assert(Self::restore_outcome(before.captured(), restore, out));
                if let Err(e) = o {
                    return Err(e);
                }
            },
            None => {
                assert(Self::restore_outcome(before.captured(), restore, Ok(())));
            },
        }
        self.snapshot = None;
        self.mode = None;
        Ok(())
    }

    fn begin<R, C, T>(
        &mut self,
        percent: u8,
        mode: ControlMode,
        restore: R,
        capture: C,
        set: T,
    ) -> (r: Result<BrightnessStatus, String>)
        where
            R: FnOnce(&S) -> Result<(), String>,
            C: FnOnce() -> Result<(S, Vec<BrightnessDisplay>), String>,
            T: FnOnce(&S, u8) -> Result<(), String>,
        requires
            old(self).wf(),
            mode matches ControlMode::Automatic { .. } ==> false,
            forall|s: &S| call_requires(restore, (s,)),
            call_requires(capture, ()),
            forall|s: &S, p: u8| call_requires(set, (s, p)),
        ensures
            final(self).wf(),
            final(self).spec_generation() == old(self).spec_generation(),
            Self::begin_result(*old(self), percent, mode, restore, capture, set, *final(self), r),
    {
        let ghost before = *self;
        let v = validate_percent(percent);
        if let Err(e) = v {
            return Err(e);
        }
        let released = self.restore_state(restore);
        if let Err(e) = released {
            return Err(e);
        }
        let applied = apply(percent, capture, set);
        match applied {
            Ok((status, snapshot)) => {
                self.snapshot = Some(snapshot);
                self.mode = Some(mode);
                Ok(status)
            },
            Err(e) => Err(e),
        }
    }

    /// Taking the hardware for automatic protection by `rule_id` at
    /// `percent`: out-of-range levels are refused; a manual setting or preview
    /// keeps the hardware; the same target is kept as it is; otherwise the
    /// new level is set on the captured snapshot, or, when nothing is captured
    /// yet, the current levels are captured first. Failures keep the session.
    pub open spec fn reconcile_result<
        C: FnOnce() -> Result<(S, Vec<BrightnessDisplay>), String>,
        T: FnOnce(&S, u8) -> Result<(), String>,
    >(
        before: Self,
        rule_id: String,
        percent: u8,
        capture: C,
        set: T,
        after: Self,
        r: Result<bool, String>,
    ) -> bool {
        if !percent_ok(percent) {
            (r matches Err(e) && e@ == bounds_message()) && Self::unchanged(before, after)
        } else if is_temporary(before.mode()) {
            r == Ok::<bool, String>(false) && Self::unchanged(before, after)
        } else if is_automatic_for(before.mode(), rule_id@, percent) {
            r == Ok::<bool, String>(true) && Self::unchanged(before, after)
        } else {
            match before.captured() {
                Some(snapshot) => exists|o: Result<(), String>|
                    call_ensures(set, (&snapshot, percent), o) && match o {
                        Ok(_) => r == Ok::<bool, String>(true) && after.captured()
                            == before.captured() && after.mode() == Some(
                            ControlMode::Automatic { rule_id, percent },
                        ),
                        Err(e) => r == Err::<bool, String>(e) && Self::unchanged(before, after),
                    },
                None => exists|
                    captured: Result<(S, Vec<BrightnessDisplay>), String>,
                    applied: Result<(BrightnessStatus, S), String>,
                |
                    call_ensures(capture, (), captured) && apply_result(
                        percent,
                        set,
                        captured,
                        applied,
                    ) && match applied {
                        Ok((_, snapshot)) => r == Ok::<bool, String>(true) && after.captured()
                            == Some(snapshot) && after.mode() == Some(
                            ControlMode::Automatic { rule_id, percent },
                        ),
                        Err(e) => r == Err::<bool, String>(e) && Self::unchanged(before, after),
                    },
            }
        }
    }

    /// Outside a manual setting or preview, a successful automatic pass
    /// leaves the hardware held automatically for exactly `rule_id` at
    /// `percent`; when a level was captured and the held automatic level
    /// differed, `set` was called with that snapshot and `percent`.
    pub open spec fn holds_requested_target<T: FnOnce(&S, u8) -> Result<(), String>>(
        before: Self,
        rule_id: String,
        percent: u8,
        set: T,
        after: Self,
        r: Result<bool, String>,
    ) -> bool {
        let temporary = match before.mode() {
            Some(ControlMode::Manual) => true,
            Some(ControlMode::Preview(_)) => true,
            _ => false,
        };
        &&& (r is Ok && !temporary) ==> (after.mode() matches Some(
            ControlMode::Automatic { rule_id: held, percent: level },
        ) && held@ == rule_id@ && level == percent)
        &&& (r is Ok && (before.mode() matches Some(ControlMode::Automatic { percent: level, .. })
            && level != percent)) ==> (before.captured() matches Some(snapshot) && exists|
            o: Result<(), String>,
        | call_ensures(set, (&snapshot, percent), o))
    }

    /// Every result that `reconcile_automatic` may give holds the requested
    /// target: see `holds_requested_target`.
    pub proof fn law_automatic_pass_holds_requested_target<
        C: FnOnce() -> Result<(S, Vec<BrightnessDisplay>), String>,
        T: FnOnce(&S, u8) -> Result<(), String>,
    >(
        before: Self,
        rule_id: String,
        percent: u8,
        capture: C,
        set: T,
        after: Self,
        r: Result<bool, String>,
    )
        requires
            before.wf(),
            Self::reconcile_result(before, rule_id, percent, capture, set, after, r),
        ensures
            Self::holds_requested_target(before, rule_id, percent, set, after, r),
    {
    }

    /// Takes the hardware for automatic protection by rule `rule_id` at
    /// `percent`. A manual setting or preview keeps the hardware (`Ok(false)`).
    /// The level captured when protection began is kept while the target
    /// changes; it is captured only when nothing is held yet.
    pub fn reconcile_automatic<C, T>(
        &mut self,
        rule_id: String,
        percent: u8,
        capture: C,
        set: T,
    ) -> (r: Result<bool, String>)
        where
            C: FnOnce() -> Result<(S, Vec<BrightnessDisplay>), String>,
            T: FnOnce(&S, u8) -> Result<(), String>,
        requires
            old(self).wf(),
            call_requires(capture, ()),
            forall|s: &S, p: u8| call_requires(set, (s, p)),
        ensures
            final(self).wf(),
            final(self).spec_generation() == old(self).spec_generation(),
            old(self).captured() is Some ==> final(self).captured() == old(self).captured(),
            Self::reconcile_result(*old(self), rule_id, percent, capture, set, *final(self), r),
            Self::holds_requested_target(*old(self), rule_id, percent, set, *final(self), r),
    {
        let v = validate_percent(percent);
        if let Err(e) = v {
            return Err(e);
        }
        match &self.mode {
            Some(ControlMode::Preview(_)) => {
                return Ok(false);
            },
            Some(ControlMode::Manual) => {
                return Ok(false);
            },
            Some(ControlMode::Automatic { rule_id: current_rule, percent: current_percent }) => {
                if crate::text::same_text(current_rule.as_str(), rule_id.as_str())
                    && *current_percent == percent {
                    return Ok(true);
                }
            },
            None => {},
        }
        match &self.snapshot {
            Some(snapshot) => {
                let o = set(snapshot, percent);
                if let Err(e) = o {
                    return Err(e);
                }
            },
            None => {
                let applied = apply(percent, capture, set);
                match applied {
                    Ok((_, snapshot)) => {
                        self.snapshot = Some(snapshot);
                    },
                    Err(e) => {
                        return Err(e);
                    },
                }
            },
        }
        self.mode = Some(ControlMode::Automatic { rule_id, percent });
        Ok(true)
    }

    /// Sets `percent` for a timed preview. The preview becomes the newest
    /// session; `restore_preview` with the returned `generation()` ends it.
    pub fn preview<R, C, T>(&mut self, percent: u8, restore: R, capture: C, set: T) -> (r: Result<
        BrightnessStatus,
        String,
    >)
        where
            R: FnOnce(&S) -> Result<(), String>,
            C: FnOnce() -> Result<(S, Vec<BrightnessDisplay>), String>,
            T: FnOnce(&S, u8) -> Result<(), String>,
        requires
            old(self).wf(),
            forall|s: &S| call_requires(restore, (s,)),
            call_requires(capture, ()),
            forall|s: &S, p: u8| call_requires(set, (s, p)),
        ensures
            final(self).wf(),
            final(self).spec_generation() == next_generation(old(self).spec_generation()),
            exists|begun: Result<BrightnessStatus, String>|
                Self::begin_result(
                    *old(self),
                    percent,
                    ControlMode::Preview(final(self).spec_generation()),
                    restore,
                    capture,
                    set,
                    *final(self),
                    begun,
                ) && match begun {
                    Ok(s) => r matches Ok(t) && t.supported == s.supported && t.displays
                        == s.displays && t.message@
                        == "Hardware brightness preview active for three seconds"@,
                    Err(e) => r == Err::<BrightnessStatus, String>(e),
                },
    {
        let ghost before = *self;
        let generation = self.bump_generation();
        let begun = self.begin(percent, ControlMode::Preview(generation), restore, capture, set);
        let ghost b = begun;
        assert(Self::begin_result(
            before,
            percent,
            ControlMode::Preview(generation),
            restore,
            capture,
            set,
            *self,
            b,
        ));
        match begun {
            Ok(status) => {
                let r = BrightnessStatus {
                    message: "Hardware brightness preview active for three seconds".to_owned(),
                    ..status
                };
                assert(b matches Ok(s) && r.supported == s.supported && r.displays == s.displays);
                Ok(r)
            },
            Err(e) => Err(e),
        }
    }

    /// Sets `percent` until the user restores it; automatic protection
    /// yields to it.
    pub fn apply_manual<R, C, T>(
        &mut self,
        percent: u8,
        restore: R,
        capture: C,
        set: T,
    ) -> (r: Result<BrightnessStatus, String>)
        where
            R: FnOnce(&S) -> Result<(), String>,
            C: FnOnce() -> Result<(S, Vec<BrightnessDisplay>), String>,
            T: FnOnce(&S, u8) -> Result<(), String>,
        requires
            old(self).wf(),
            forall|s: &S| call_requires(restore, (s,)),
            call_requires(capture, ()),
            forall|s: &S, p: u8| call_requires(set, (s, p)),
        ensures
            final(self).wf(),
            final(self).spec_generation() == next_generation(old(self).spec_generation()),
            Self::begin_result(
                *old(self),
                percent,
                ControlMode::Manual,
                restore,
                capture,
                set,
                *final(self),
                r,
            ),
    {
        self.bump_generation();
        self.begin(percent, ControlMode::Manual, restore, capture, set)
    }

    /// Ending automatic protection: when automatic protection holds the
    /// hardware its captured level is restored (a failed restore keeps the
    /// session and is returned); any other session is left alone. On success
    /// hardware protection is reported inactive.
    pub open spec fn clear_result<R: FnOnce(&S) -> Result<(), String>>(
        before: Self,
        restore: R,
        after: Self,
        r: Result<bool, String>,
    ) -> bool {
        if before.mode() matches Some(ControlMode::Automatic { .. }) {
            exists|o: Result<(), String>|
                Self::restore_outcome(before.captured(), restore, o) && match o {
                    Ok(_) => r == Ok::<bool, String>(false) && after.is_idle(),
                    Err(e) => r == Err::<bool, String>(e) && Self::unchanged(before, after),
                }
        } else {
            r == Ok::<bool, String>(false) && Self::unchanged(before, after)
        }
    }

    /// Ends automatic protection: restores the captured level when automatic
    /// protection holds the hardware, and leaves a manual setting or preview
    /// alone. Reports that hardware protection is no longer active.
    pub fn clear_automatic<R>(&mut self, restore: R) -> (r: Result<bool, String>)
        where
            R: FnOnce(&S) -> Result<(), String>,
        requires
            old(self).wf(),
            forall|s: &S| call_requires(restore, (s,)),
        ensures
            final(self).wf(),
            final(self).spec_generation() == old(self).spec_generation(),
            Self::clear_result(*old(self), restore, *final(self), r),
    {
        if let Some(ControlMode::Automatic { .. }) = &self.mode {
            let restored = self.restore_state(restore);
            if let Err(e) = restored {
                return Err(e);
            }
        }
        Ok(false)
    }

    /// Ends whatever session holds the hardware and restores the captured
    /// level; pending previews become stale.
    pub fn cancel<R>(&mut self, restore: R) -> (r: Result<(), String>)
        where
            R: FnOnce(&S) -> Result<(), String>,
        requires
            old(self).wf(),
            forall|s: &S| call_requires(restore, (s,)),
        ensures
            final(self).wf(),
            final(self).spec_generation() == next_generation(old(self).spec_generation()),
            Self::restore_result(*old(self), restore, *final(self), r),
    {
        self.bump_generation();
        self.restore_state(restore)
    }

    /// Ends the preview started as `generation`, unless a newer session was
    /// started since.
    pub fn restore_preview<R>(&mut self, generation: u64, restore: R) -> (r: Result<(), String>)
        where
            R: FnOnce(&S) -> Result<(), String>,
        requires
            old(self).wf(),
            forall|s: &S| call_requires(restore, (s,)),
        ensures
            final(self).wf(),
            final(self).spec_generation() == old(self).spec_generation(),
            old(self).spec_generation() == generation && old(self).mode() == Some(
                ControlMode::Preview(generation),
            ) ==> Self::restore_result(*old(self), restore, *final(self), r),
            !(old(self).spec_generation() == generation && old(self).mode() == Some(
                ControlMode::Preview(generation),
            )) ==> r is Ok && Self::unchanged(*old(self), *final(self)),
    {
        if self.generation != generation {
            return Ok(());
        }
        match &self.mode {
            Some(ControlMode::Preview(value)) => {
                if *value == generation {
                    return self.restore_state(restore);
                }
            },
            _ => {},
        }
        Ok(())
    }
}

/// Starting any new session (a preview, a manual setting or a cancel) moves
/// the generation on, so the timer of an earlier preview no longer ends
/// anything.
pub proof fn law_new_session_outdates_preview(generation: u64)
    ensures
        next_generation(generation) != generation,
{
}

/// Once a session was released successfully nothing holds the hardware, so
/// automatic protection takes it again at its next pass instead of yielding.
pub proof fn law_release_lets_automatic_resume<S, R: FnOnce(&S) -> Result<(), String>>(
    before: BrightnessControl<S>,
    restore: R,
    after: BrightnessControl<S>,
    r: Result<(), String>,
    rule_id: Seq<char>,
    percent: u8,
)
    requires
        BrightnessControl::restore_result(before, restore, after, r),
        r is Ok,
    ensures
        after.is_idle(),
        !is_temporary(after.mode()),
        !is_automatic_for(after.mode(), rule_id, percent),
{
}

/// Display `i` took the new level.
pub open spec fn took_level<E, S: FnMut(usize) -> Result<(), E>>(set_one: S, i: usize) -> bool {
    call_ensures(set_one, (i,), Ok::<(), E>(()))
}

/// Putting display `i` back to its captured level was attempted.
pub open spec fn put_back<R: FnMut(usize)>(reset_one: R, i: usize) -> bool {
    call_ensures(reset_one, (i,), ())
}

/// A call of an all-or-nothing level change: set display `i`, or put
/// display `i` back to its captured level.
#[derive(Clone, Copy, Debug, PartialEq, Eq)]
pub enum DisplayCall {
    Level(usize),
    PutBack(usize),
}

/// The next call of an all-or-nothing level change of `count` displays,
/// after displays `0..set` took the level and, once the next one refused
/// (`refused`), displays `0..put` were put back: the displays are set in
/// order until one refuses; then exactly those that took the level are put
/// back in order, and nothing else is called.
pub fn next_display_call(count: usize, set: usize, refused: bool, put: usize) -> (c: Option<
    DisplayCall,
>)
    ensures
        c == (if !refused {
            if set < count {
                Some(DisplayCall::Level(set))
            } else {
                None::<DisplayCall>
            }
        } else if put < set {
            Some(DisplayCall::PutBack(put))
        } else {
            None::<DisplayCall>
        }),
{
    if !refused {
        if set < count {
            Some(DisplayCall::Level(set))
        } else {
            None
        }
    } else if put < set {
        Some(DisplayCall::PutBack(put))
    } else {
        None
    }
}

/// Sets the new level on displays `0..count` in order, all or nothing, making
/// the calls `next_display_call` names: when display `f` refuses it,
/// displays `0..f`, which took it, are put back to their captured level, and
/// `f` with its error is returned.
pub fn set_every_display<E, S, R>(count: usize, set_one: S, reset_one: R) -> (r: Result<
    (),
    (usize, E),
>)
    where
        S: FnMut(usize) -> Result<(), E>,
        R: FnMut(usize),
    requires
        forall|i: usize| call_requires(set_one, (i,)),
        forall|i: usize| call_requires(reset_one, (i,)),
    ensures
        r is Ok ==> forall|i: usize| i < count ==> #[trigger] took_level(set_one, i),
        r matches Err(p) ==> p.0 < count,
        r matches Err(p) ==> forall|i: usize| i < p.0 ==> #[trigger] took_level(set_one, i),
        r matches Err(p) ==> call_ensures(set_one, (p.0,), Err::<(), E>(p.1)),
        r matches Err(p) ==> forall|i: usize| i < p.0 ==> #[trigger] put_back(reset_one, i),
{
    let ghost sets = set_one;
    let ghost resets = reset_one;
    let mut set_one = set_one;
    let mut reset_one = reset_one;
    let mut set: usize = 0;
    let mut put: usize = 0;
    let mut failure: Option<E> = None;
    loop
        invariant
            set_one == sets,
            reset_one == resets,
            0 <= put <= set <= count,
            failure is None ==> put == 0,
            forall|i: usize| call_requires(set_one, (i,)),
            forall|i: usize| call_requires(reset_one, (i,)),
            forall|i: usize| i < set ==> #[trigger] took_level(set_one, i),
            forall|i: usize| i < put ==> #[trigger] put_back(reset_one, i),
            failure matches Some(e) ==> set < count && call_ensures(
                set_one,
                (set,),
                Err::<(), E>(e),
            ),
        ensures
            set_one == sets,
            reset_one == resets,
            set <= count,
            failure is None ==> set == count,
            failure is Some ==> put == set,
            forall|i: usize| i < set ==> #[trigger] took_level(set_one, i),
            forall|i: usize| i < put ==> #[trigger] put_back(reset_one, i),
            failure matches Some(e) ==> set < count && call_ensures(
                set_one,
                (set,),
                Err::<(), E>(e),
            ),
        decreases (if failure is None {
            2 * count - set + 1
        } else {
            set - put
        }),
    {
        match next_display_call(count, set, failure.is_some(), put) {
            Some(DisplayCall::Level(i)) => {
                match set_one(i) {
                    Ok(u) => {
                        assert(took_level(set_one, i));
                        set = set + 1;
                    },
                    Err(e) => {
                        failure = Some(e);
                    },
                }
            },
            Some(DisplayCall::PutBack(i)) => {
                reset_one(i);
                assert(put_back(reset_one, i));
                put = put + 1;
            },
            None => {
                break ;
            },
        }
    }
    match failure {
        None => Ok(()),
        Some(e) => Err((set, e)),
    }
}

/// Where the level of a display is read and written.
#[derive(Clone, Copy, Debug, PartialEq, Eq)]
pub enum ReadingSource {
    /// The display's IOKit brightness parameter.
    IoKit,
    /// The DisplayServices interface of built-in panels.
    DisplayServices,
}

/// Whether DisplayServices is to be asked for a display: only when IOKit
/// gave no usable level and the display is a built-in panel.
pub fn needs_display_services(iokit_ok: bool, built_in: bool) -> (r: bool)
    ensures
        r == (!iokit_ok && built_in),
{
    !iokit_ok && built_in
}

/// The interface that controls a display: IOKit when it reported a usable
/// level, otherwise DisplayServices for a built-in panel that reported one;
/// `None` when the display cannot be controlled.
pub fn reading_source(iokit_ok: bool, built_in: bool, display_services_ok: bool) -> (r: Option<
    ReadingSource,
>)
    ensures
        r == (if iokit_ok {
            Some(ReadingSource::IoKit)
        } else if built_in && display_services_ok {
            Some(ReadingSource::DisplayServices)
        } else {
            None::<ReadingSource>
        }),
{
    if iokit_ok {
        Some(ReadingSource::IoKit)
    } else if built_in && display_services_ok {
        Some(ReadingSource::DisplayServices)
    } else {
        None
    }
}

/// The texts joined with ", ".
pub open spec fn comma_joined(texts: Seq<String>) -> Seq<char>
    decreases texts.len(),
{
    if texts.len() == 0 {
        Seq::empty()
    } else if texts.len() == 1 {
        texts[0]@
    } else {
        comma_joined(texts.drop_last()) + ", "@ + texts.last()@
    }
}

/// The outcome of reading every display: an error naming the failures when
/// no display could be read and some failed, otherwise the readings.
pub fn snapshot_outcome<R>(readings: Vec<R>, failures: Vec<String>) -> (r: Result<Vec<R>, String>)
    ensures
        (readings@.len() == 0 && failures@.len() > 0) ==> (r matches Err(m) && m@
            == "No controllable display: "@ + comma_joined(failures@)),
        !(readings@.len() == 0 && failures@.len() > 0) ==> r == Ok::<Vec<R>, String>(readings),
{
    if readings.len() == 0 && failures.len() > 0 {
        let mut listed = String::new();
        let mut i: usize = 0;
        while i < failures.len()
            invariant
                0 <= i <= failures@.len(),
                listed@ == comma_joined(failures@.take(i as int)),
            decreases failures@.len() - i,
        {
            proof {
                assert(failures@.take(i + 1).drop_last() =~= failures@.take(i as int));
            }
            if i > 0 {
                listed = crate::text::joined(listed, ", ");
            }
            listed = crate::text::joined(listed, failures[i].as_str());
            proof {
                if i == 0 {
                    assert(listed@ =~= comma_joined(failures@.take(1)));
                } else {
                    assert(listed@ =~= comma_joined(failures@.take(i + 1)));
                }
            }
            i = i + 1;
        }
        assert(failures@.take(failures@.len() as int) =~= failures@);
        Err(crate::text::joined("No controllable display: ".to_owned(), listed.as_str()))
    } else {
        Ok(readings)
    }
}

/// The hardware value for `percent` on a display whose range is
/// `min..=max`: `min` plus that share of the range, rounded down.
pub fn scaled_level(min: u32, max: u32, percent: u8) -> (r: u32)
    requires
        min <= max,
        percent <= 100,
    ensures
        r == min + (max - min) * percent / 100,
{
    let span = (max - min) as u64;
    assert(span * (percent as u64) <= 0xffff_ffff * 100) by (nonlinear_arith)
        requires
            span <= 0xffff_ffff,
            percent <= 100,
    ;
    let scaled = span * (percent as u64) / 100;
    proof {
        assert(span * (percent as u64) <= span * 100) by (nonlinear_arith)
            requires
                percent <= 100,
        ;
        assert(scaled <= span) by (nonlinear_arith)
            requires
                scaled == span * (percent as u64) / 100,
                span * (percent as u64) <= span * 100,
        ;
    }
    min + scaled as u32
}

/// The reading kept for a monitor: its range and level when the level
/// could be read and the range is not empty; `None` for a monitor that
/// cannot be controlled, which is then left unchanged.
pub fn monitor_level(read_ok: bool, min: u32, current: u32, max: u32) -> (r: Option<(u32, u32, u32)>)
    ensures
        r == (if read_ok && min < max {
            Some((min, current, max))
        } else {
            None::<(u32, u32, u32)>
        }),
{
    if read_ok && min < max {
        Some((min, current, max))
    } else {
        None
    }
}

/// The maximum kept for a backlight: only one with a non-zero maximum can
/// be controlled.
pub fn backlight_level(max: u32) -> (r: Option<u32>)
    ensures
        r == (if max > 0 {
            Some(max)
        } else {
            None::<u32>
        }),
{
    if max > 0 {
        Some(max)
    } else {
        None
    }
}

/// The length of a NUL-terminated description: up to its first NUL, or all
/// of it when it has none.
pub fn description_end(description: &[u16]) -> (n: usize)
    ensures
        n <= description@.len(),
        forall|i: int| 0 <= i < n ==> description@[i] != 0,
        n < description@.len() ==> description@[n as int] == 0,
{
    let mut n: usize = 0;
    while n < description.len()
        invariant
            0 <= n <= description@.len(),
            forall|i: int| 0 <= i < n ==> description@[i] != 0,
        decreases description@.len() - n,
    {
        if description[n] == 0 {
            return n;
        }
        n = n + 1;
    }
    n
}

/// Where the display `id` stands among the displays captured in a snapshot:
/// its first position, or `None` when it was not captured.
pub fn saved_index(saved_ids: &Vec<String>, id: &str) -> (r: Option<usize>)
    ensures
        r matches Some(i) ==> i < saved_ids@.len() && saved_ids@[i as int]@ == id@ && forall|
            j: int,
        |
            0 <= j < i ==> saved_ids@[j]@ != id@,
        r is None ==> forall|j: int| 0 <= j < saved_ids@.len() ==> saved_ids@[j]@ != id@,
{
    let mut i: usize = 0;
    while i < saved_ids.len()
        invariant
            0 <= i <= saved_ids@.len(),
            forall|j: int| 0 <= j < i ==> saved_ids@[j]@ != id@,
        decreases saved_ids@.len() - i,
    {
        if crate::text::same_text(saved_ids[i].as_str(), id) {
            return Some(i);
        }
        i = i + 1;
    }
    None
}

} // verus!

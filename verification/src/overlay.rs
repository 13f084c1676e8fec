//! The black overlays drawn over the foreground application's windows: their
//! opacity, and which overlay windows are shown, reused or hidden.
//!
//! Window geometry stays opaque here (`W` for a reported window, `P` for the
//! overlay planned over it); the closures passed in build an overlay entry,
//! compare two plans, show overlay window `i` with an entry and conceal overlay
//! window `i`. Every contract holds for whatever they report.
use vstd::prelude::*;

use crate::domain::{check_visibility, outcome, validate_visibility};

verus! {

/// `n / d` rounded to the nearest integer, halves away from zero.
pub open spec fn rounded_ratio(n: nat, d: nat) -> nat {
    (2 * n + d) / (2 * d)
}

/// The 8-bit alpha of the overlay for a visibility: the hidden share
/// `(100 - visibility) / 100` of full opacity 255, rounded.
pub open spec fn overlay_alpha(visibility_percent: u8) -> nat {
    rounded_ratio(((100 - visibility_percent) * 255) as nat, 100)
}

pub fn alpha_for_visibility(visibility_percent: u8) -> (r: Result<u8, String>)
    ensures
        match r {
            Ok(a) => check_visibility(visibility_percent) is Ok && a == overlay_alpha(
                visibility_percent,
            ),
            Err(e) => check_visibility(visibility_percent) == Err::<(), Seq<char>>(e@),
        },
{
    let v = validate_visibility(visibility_percent);
    match v {
        Err(e) => Err(e),
        Ok(()) => {
            let hidden = (100 - visibility_percent) as u32;
            Ok(((hidden * 255 * 2 + 100) / 200) as u8)
        },
    }
}

pub open spec fn no_window_message() -> Seq<char> {
    "Foreground application has no visible standard window"@
}

/// Overlay windows `0..f` were hidden successfully.
pub open spec fn concealed_until<H: FnMut(usize) -> Result<(), String>>(conceal: H, f: int) -> bool {
    forall|i: int| 0 <= i < f ==> call_ensures(conceal, (i as usize,), #[trigger] ok_at(i))
}

/// Hiding overlay window `i` was attempted, whatever it reported.
pub open spec fn attempted<H: FnMut(usize) -> Result<(), String>>(conceal: H, i: usize) -> bool {
    exists|o: Result<(), String>| #[trigger] call_ensures(conceal, (i,), o)
}

/// The success outcome, named by window index so it can trigger.
pub open spec fn ok_at(i: int) -> Result<(), String> {
    Ok(())
}

/// Overlay windows `0..f` were shown successfully with the entries of `plan`.
pub open spec fn shown_until<P, S: FnMut(usize, &P) -> Result<(), String>>(
    show: S,
    plan: Seq<P>,
    f: int,
) -> bool {
    forall|i: int| 0 <= i < f ==> call_ensures(show, (i as usize, &plan[i]), #[trigger] ok_at(i))
}

/// `plan` holds one entry per reported window, built with `alpha`.
pub open spec fn planned<W, P, E: Fn(&W, u8) -> P>(
    entry: E,
    windows: Seq<W>,
    alpha: u8,
    plan: Seq<P>,
) -> bool {
    &&& plan.len() == windows.len()
    &&& forall|i: int| 0 <= i < plan.len() ==> call_ensures(entry, (&windows[i], alpha), #[trigger] plan[i])
}

/// Whether `plan` equals the plan shown, as `same` reported it; a plan is
/// never equal to nothing shown.
pub open spec fn compared<P, Q: FnOnce(&Vec<P>, &Vec<P>) -> bool>(
    current: Option<Vec<P>>,
    same: Q,
    plan: Vec<P>,
    unchanged: bool,
) -> bool {
    match current {
        Some(current) => call_ensures(same, (&current, &plan), unchanged),
        None => !unchanged,
    }
}

/// What the overlay windows show: the recorded plan, if any, and how many
/// overlay windows exist.
pub struct OverlayLayout<P> {
    pub plan: Option<Vec<P>>,
    pub window_count: usize,
}

impl<P> OverlayLayout<P> {
    /// The overlay entries shown, if any. An empty plan is left by a pass
    /// whose rollback could not hide every tracked window, so that the next
    /// clear tries them again.
    pub open spec fn shown(&self) -> Option<Seq<P>> {
        match self.plan {
            Some(plan) => Some(plan@),
            None => None,
        }
    }

    /// How many overlay windows exist (shown or hidden).
    pub open spec fn windows(&self) -> nat {
        self.window_count as nat
    }

    /// The plan shown, as it was recorded.
    pub open spec fn current_plan(&self) -> Option<Vec<P>> {
        self.plan
    }
}

/// The overlay windows of the protection loop and of timed previews.
pub struct OverlayWindows<P> {
    plan: Option<Vec<P>>,
    window_count: usize,
    preview_generation: Option<u64>,
    generation: u64,
}

impl<P> OverlayWindows<P> {
    /// What the windows show.
    pub closed spec fn layout(&self) -> OverlayLayout<P> {
        OverlayLayout { plan: self.plan, window_count: self.window_count }
    }

    pub closed spec fn previewing(&self) -> Option<u64> {
        self.preview_generation
    }

    pub closed spec fn spec_generation(&self) -> u64 {
        self.generation
    }

    /// Every shown entry has a window.
    pub open spec fn wf(&self) -> bool {
        self.layout().shown() matches Some(plan) ==> plan.len() <= self.layout().windows()
    }

    /// `after` shows the same overlays as `before` with the same windows.
    pub open spec fn same_windows(before: OverlayLayout<P>, after: OverlayLayout<P>) -> bool {
        after.shown() == before.shown() && after.windows() == before.windows()
    }

    /// Hiding every overlay window of `before`: nothing to do when nothing is
    /// shown; otherwise the windows are hidden in order, and the first
    /// failure stops, keeps the overlays and is returned.
    pub open spec fn clear_result<H: FnMut(usize) -> Result<(), String>>(
        before: OverlayLayout<P>,
        conceal: H,
        after: OverlayLayout<P>,
        r: Result<(), String>,
    ) -> bool {
        if before.shown() is None {
            r is Ok && Self::same_windows(before, after)
        } else {
            exists|f: int|
                0 <= f <= before.windows() && concealed_until(conceal, f) && if f < before.windows() {
                    exists|e: String|
                        call_ensures(conceal, (f as usize,), Err::<(), String>(e)) && r == Err::<
                            (),
                            String,
                        >(e) && Self::same_windows(before, after)
                } else {
                    r is Ok && after.shown() is None && after.windows() == before.windows()
                }
        }
    }

    /// After showing overlay window `f` failed: the windows `0..=f` that
    /// were touched are tracked, and every tracked window is hidden in order.
    /// When all are hidden nothing is shown; the first hiding failure stops
    /// and leaves an empty plan, so that a later clear hides them again.
    pub open spec fn rolled_back<H: FnMut(usize) -> Result<(), String>>(
        before_windows: nat,
        f: int,
        conceal: H,
        after: OverlayLayout<P>,
    ) -> bool {
        &&& after.windows() == if f + 1 > before_windows {
            f + 1
        } else {
            before_windows as int
        }
        &&& exists|g: int|
            0 <= g <= after.windows() && concealed_until(conceal, g) && if g < after.windows() {
                (exists|e: String| call_ensures(conceal, (g as usize,), Err::<(), String>(e)))
                    && after.shown() == Some(Seq::<P>::empty())
            } else {
                after.shown() is None
            }
    }

    /// Showing the overlays for `windows` at `visibility_percent`: refused
    /// for a visibility outside 10..=100; with no window, every overlay is
    /// hidden and that is reported; a plan equal to the one shown changes
    /// nothing; otherwise overlay windows are shown in order (the first
    /// failure stops, is returned and rolls the overlays back, see
    /// `rolled_back`), every window beyond the plan is hidden, and the plan
    /// is recorded.
    pub open spec fn apply_result<
        W,
        E: Fn(&W, u8) -> P,
        Q: FnOnce(&Vec<P>, &Vec<P>) -> bool,
        S: FnMut(usize, &P) -> Result<(), String>,
        H: FnMut(usize) -> Result<(), String>,
    >(
        before: OverlayLayout<P>,
        visibility_percent: u8,
        windows: Seq<W>,
        entry: E,
        same: Q,
        show: S,
        conceal: H,
        after: OverlayLayout<P>,
        r: Result<bool, String>,
    ) -> bool {
        if !crate::domain::visibility_ok(visibility_percent) {
            (r matches Err(e) && e@ == "visibility must be between 10 and 100"@)
                && Self::same_windows(before, after)
        } else if windows.len() == 0 {
            exists|c: Result<(), String>|
                Self::clear_result(before, conceal, after, c) && match c {
                    Ok(_) => r matches Err(e) && e@ == no_window_message(),
                    Err(e) => r == Err::<bool, String>(e),
                }
        } else {
            exists|plan: Vec<P>, unchanged: bool|
                #![trigger compared(before.current_plan(), same, plan, unchanged)]
                planned(entry, windows, overlay_alpha(visibility_percent) as u8, plan@) && compared(
                    before.current_plan(),
                    same,
                    plan,
                    unchanged,
                ) && if unchanged {
                    r == Ok::<bool, String>(true) && Self::same_windows(before, after)
                } else {
                    exists|f: int|
                        0 <= f <= plan@.len() && shown_until(show, plan@, f) && if f
                            < plan@.len() {
                            exists|e: String|
                                call_ensures(show, (f as usize, &plan@[f]), Err::<(), String>(e))
                                    && r == Err::<bool, String>(e) && Self::rolled_back(
                                    before.windows(),
                                    f,
                                    conceal,
                                    after,
                                )
                        } else {
                            r == Ok::<bool, String>(true) && after.shown() == Some(plan@)
                                && (forall|i: usize|
                                plan@.len() <= i < before.windows() ==> #[trigger] attempted(
                                    conceal,
                                    i,
                                ))
                                && after.windows() == if plan@.len() > before.windows() {
                                plan@.len()
                            } else {
                                before.windows()
                            }
                        }
                }
        }
    }

    pub fn new() -> (o: Self)
        ensures
            o.wf(),
            o.layout().shown() is None,
            o.layout().windows() == 0,
            o.previewing() is None,
            o.spec_generation() == 0,
    {
        OverlayWindows { plan: None, window_count: 0, preview_generation: None, generation: 0 }
    }

    pub fn generation(&self) -> (g: u64)
        ensures
            g == self.spec_generation(),
    {
        self.generation
    }

    #[verifier::loop_isolation(false)]
    fn clear_windows<H>(&mut self, mut conceal: H) -> (r: Result<(), String>)
        where
            H: FnMut(usize) -> Result<(), String>,
        requires
            old(self).wf(),
            forall|i: usize| call_requires(conceal, (i,)),
        ensures
            final(self).wf(),
            final(self).previewing() == old(self).previewing(),
            final(self).spec_generation() == old(self).spec_generation(),
            Self::clear_result(old(self).layout(), conceal, final(self).layout(), r),
    {
        if self.plan.is_none() {
            return Ok(());
        }
        let ghost original = conceal;
        let mut index: usize = 0;
        while index < self.window_count
            invariant
                conceal == original,
                0 <= index <= self.window_count,
                forall|i: usize| call_requires(conceal, (i,)),
                concealed_until(conceal, index as int),
            decreases self.window_count - index,
        {
            let o = conceal(index);
            let ghost out = o;
            assert(call_ensures(conceal, (index,), out));
            match o {
                Ok(u) => {
                    assert(out == Ok::<(), String>(u));
                    assert(out == ok_at(index as int));
                },
                Err(e) => {
                    assert(call_ensures(conceal, (index,), Err::<(), String>(e)));
                    assert(concealed_until(conceal, index as int));
                    return Err(e);
                },
            }
            index = index + 1;
        }
        assert(concealed_until(conceal, self.window_count as int));
        self.plan = None;
        Ok(())
    }

    /// The window set handles for one pass: `entry` plans the overlay over a
    /// window, `same` compares plans, `show` and `conceal` drive overlay
    /// window `i`.
    pub open spec fn ready<
        W,
        E: Fn(&W, u8) -> P,
        Q: FnOnce(&Vec<P>, &Vec<P>) -> bool,
        S: FnMut(usize, &P) -> Result<(), String>,
        H: FnMut(usize) -> Result<(), String>,
    >(entry: E, same: Q, show: S, conceal: H) -> bool {
        &&& forall|w: &W, a: u8| call_requires(entry, (w, a))
        &&& forall|a: &Vec<P>, b: &Vec<P>| call_requires(same, (a, b))
        &&& forall|i: usize, p: &P| call_requires(show, (i, p))
        &&& forall|i: usize| call_requires(conceal, (i,))
    }

    #[verifier::loop_isolation(false)]
    fn apply<W, E, Q, S, H>(
        &mut self,
        visibility_percent: u8,
        windows: &Vec<W>,
        entry: E,
        same: Q,
        mut show: S,
        mut conceal: H,
    ) -> (r: Result<bool, String>)
        where
            E: Fn(&W, u8) -> P,
            Q: FnOnce(&Vec<P>, &Vec<P>) -> bool,
            S: FnMut(usize, &P) -> Result<(), String>,
            H: FnMut(usize) -> Result<(), String>,
        requires
            old(self).wf(),
            Self::ready(entry, same, show, conceal),
        ensures
            final(self).wf(),
            final(self).previewing() == old(self).previewing(),
            final(self).spec_generation() == old(self).spec_generation(),
            Self::apply_result(
                old(self).layout(),
                visibility_percent,
                windows@,
                entry,
                same,
                show,
                conceal,
                final(self).layout(),
                r,
            ),
    {
        let alpha = match alpha_for_visibility(visibility_percent) {
            Ok(alpha) => alpha,
            Err(e) => {
                return Err(e);
            },
        };
        if windows.len() == 0 {
            let cleared = self.clear_windows(conceal);
            let ghost c = cleared;
            let r = match cleared {
                Err(e) => Err(e),
                Ok(()) => Err("Foreground application has no visible standard window".to_owned()),
            };
            assert(Self::clear_result(old(self).layout(), conceal, self.layout(), c));
            return r;
        }
        let mut plan: Vec<P> = Vec::new();
        let mut i: usize = 0;
        while i < windows.len()
            invariant
                0 <= i <= windows@.len(),
                plan@.len() == i,
                forall|k: int|
                    0 <= k < i ==> call_ensures(entry, (&windows@[k], alpha), #[trigger] plan@[k]),
            decreases windows@.len() - i,
        {
            let e = entry(&windows[i], alpha);
            plan.push(e);
            i = i + 1;
        }
        assert(planned(entry, windows@, overlay_alpha(visibility_percent) as u8, plan@));
        let unchanged = match &self.plan {
            Some(current) => same(current, &plan),
            None => false,
        };
        assert(compared(old(self).layout().current_plan(), same, plan, unchanged));
        if unchanged {
            return Ok(true);
        }
        let ghost shows = show;
        let ghost before = *self;
        let mut index: usize = 0;
        while index < plan.len()
            invariant
                show == shows,
                *self == before,
                0 <= index <= plan@.len(),
                shown_until(show, plan@, index as int),
            decreases plan@.len() - index,
        {
            let o = show(index, &plan[index]);
            let ghost out = o;
            assert(call_ensures(show, (index, &plan@[index as int]), out));
            match o {
                Ok(u) => {
                    assert(out == Ok::<(), String>(u));
                    assert(out == ok_at(index as int));
                },
                Err(e) => {
                    assert(shown_until(show, plan@, index as int));
                    assert(call_ensures(show, (index, &plan@[index as int]), Err::<(), String>(e)));
                    if index >= self.window_count {
                        self.window_count = index + 1;
                    }
                    self.plan = Some(Vec::new());
                    let ghost mid = self.layout();
                    assert(mid.shown() == Some(Seq::<P>::empty()));
                    let cleared = self.clear_windows(conceal);
                    let ghost c = cleared;
                    assert(Self::clear_result(mid, conceal, self.layout(), c));
                    assert(Self::rolled_back(old(self).layout().windows(), index as int, conceal, self.layout()));
                    return Err(e);
                },
            }
            index = index + 1;
        }
        assert(shown_until(show, plan@, plan@.len() as int));
        let ghost conceals = conceal;
        let mut surplus: usize = plan.len();
        while surplus < self.window_count
            invariant
                conceal == conceals,
                forall|i: usize| call_requires(conceal, (i,)),
                plan@.len() <= surplus,
                forall|i: usize| plan@.len() <= i < surplus ==> #[trigger] attempted(conceal, i),
            decreases self.window_count - surplus,
        {
            let o = conceal(surplus);
            assert(call_ensures(conceal, (surplus,), o));
            assert(attempted(conceal, surplus));
            surplus = surplus + 1;
        }
        if plan.len() > self.window_count {
            self.window_count = plan.len();
        }
        self.plan = Some(plan);
        Ok(true)
    }

    /// Follows the protection loop: a running preview keeps its overlays;
    /// without a matched rule every overlay is hidden (`Ok(false)`);
    /// otherwise the overlays for `windows` are shown.
    pub fn reconcile<W, E, Q, S, H>(
        &mut self,
        visibility_percent: Option<u8>,
        windows: &Vec<W>,
        entry: E,
        same: Q,
        show: S,
        conceal: H,
    ) -> (r: Result<bool, String>)
        where
            E: Fn(&W, u8) -> P,
            Q: FnOnce(&Vec<P>, &Vec<P>) -> bool,
            S: FnMut(usize, &P) -> Result<(), String>,
            H: FnMut(usize) -> Result<(), String>,
        requires
            old(self).wf(),
            Self::ready(entry, same, show, conceal),
        ensures
            final(self).wf(),
            final(self).previewing() == old(self).previewing(),
            final(self).spec_generation() == old(self).spec_generation(),
            old(self).previewing() is Some ==> r == Ok::<bool, String>(true) && Self::same_windows(old(self).layout(), final(self).layout()),
            old(self).previewing() is None ==> match visibility_percent {
                None => exists|c: Result<(), String>|
                    Self::clear_result(old(self).layout(), conceal, final(self).layout(), c) && match c {
                        Ok(_) => r == Ok::<bool, String>(false),
                        Err(e) => r == Err::<bool, String>(e),
                    },
                Some(v) => Self::apply_result(
                    old(self).layout(),
                    v,
                    windows@,
                    entry,
                    same,
                    show,
                    conceal,
                    final(self).layout(),
                    r,
                ),
            },
    {
        if self.preview_generation.is_some() {
            return Ok(true);
        }
        match visibility_percent {
            None => {
                let cleared = self.clear_windows(conceal);
                let ghost c = cleared;
                let r = match cleared {
                    Ok(()) => Ok(false),
                    Err(e) => Err(e),
                };
                assert(Self::clear_result(old(self).layout(), conceal, self.layout(), c));
                r
            },
            Some(v) => self.apply(v, windows, entry, same, show, conceal),
        }
    }

    /// Shows the overlays for `windows` as a timed preview, which the
    /// protection loop leaves alone until `finish_preview` with the returned
    /// generation, `cancel_preview` or `clear`. A preview that could not be
    /// shown is not kept.
    pub fn preview<W, E, Q, S, H>(
        &mut self,
        visibility_percent: u8,
        windows: &Vec<W>,
        entry: E,
        same: Q,
        show: S,
        conceal: H,
    ) -> (r: Result<u64, String>)
        where
            E: Fn(&W, u8) -> P,
            Q: FnOnce(&Vec<P>, &Vec<P>) -> bool,
            S: FnMut(usize, &P) -> Result<(), String>,
            H: FnMut(usize) -> Result<(), String>,
        requires
            old(self).wf(),
            Self::ready(entry, same, show, conceal),
        ensures
            final(self).wf(),
            final(self).spec_generation() == crate::brightness::next_generation(
                old(self).spec_generation(),
            ),
            exists|applied: Result<bool, String>|
                Self::apply_result(
                    old(self).layout(),
                    visibility_percent,
                    windows@,
                    entry,
                    same,
                    show,
                    conceal,
                    final(self).layout(),
                    applied,
                ) && match applied {
                    Ok(_) => r == Ok::<u64, String>(final(self).spec_generation()) && final(self).previewing() == Some(final(self).spec_generation()),
                    Err(e) => r == Err::<u64, String>(e) && final(self).previewing() is None,
                },
    {
        let ghost before = *self;
        self.generation = if self.generation == u64::MAX {
            0
        } else {
            self.generation + 1
        };
        let generation = self.generation;
        self.preview_generation = Some(generation);
        let applied = self.apply(visibility_percent, windows, entry, same, show, conceal);
        let ghost a = applied;
        assert(Self::apply_result(
            before.layout(),
            visibility_percent,
            windows@,
            entry,
            same,
            show,
            conceal,
            self.layout(),
            a,
        ));
        match applied {
            Ok(_) => Ok(generation),
            Err(e) => {
                self.preview_generation = None;
                Err(e)
            },
        }
    }

    /// Ends any preview and hides every overlay.
    pub fn cancel_preview<H>(&mut self, conceal: H) -> (r: Result<(), String>)
        where
            H: FnMut(usize) -> Result<(), String>,
        requires
            old(self).wf(),
            forall|i: usize| call_requires(conceal, (i,)),
        ensures
            final(self).wf(),
            final(self).previewing() is None,
            final(self).spec_generation() == crate::brightness::next_generation(
                old(self).spec_generation(),
            ),
            Self::clear_result(old(self).layout(), conceal, final(self).layout(), r),
    {
        self.generation = if self.generation == u64::MAX {
            0
        } else {
            self.generation + 1
        };
        self.preview_generation = None;
        self.clear_windows(conceal)
    }

    /// Removes every overlay, ending any preview.
    pub fn clear<H>(&mut self, conceal: H) -> (r: Result<(), String>)
        where
            H: FnMut(usize) -> Result<(), String>,
        requires
            old(self).wf(),
            forall|i: usize| call_requires(conceal, (i,)),
        ensures
            final(self).wf(),
            final(self).previewing() is None,
            final(self).spec_generation() == crate::brightness::next_generation(
                old(self).spec_generation(),
            ),
            Self::clear_result(old(self).layout(), conceal, final(self).layout(), r),
    {
        self.cancel_preview(conceal)
    }

    /// Ends the preview started as `generation`, unless the preview was
    /// cancelled or a newer one started since.
    pub fn finish_preview<H>(&mut self, generation: u64, conceal: H) -> (r: Result<(), String>)
        where
            H: FnMut(usize) -> Result<(), String>,
        requires
            old(self).wf(),
            forall|i: usize| call_requires(conceal, (i,)),
        ensures
            final(self).wf(),
            final(self).spec_generation() == old(self).spec_generation(),
            old(self).spec_generation() == generation && old(self).previewing() == Some(generation)
                ==> final(self).previewing() is None && Self::clear_result(
                old(self).layout(),
                conceal,
                final(self).layout(),
                r,
            ),
            !(old(self).spec_generation() == generation && old(self).previewing() == Some(generation))
                ==> r is Ok && Self::same_windows(old(self).layout(), final(self).layout()) && final(self).previewing()
                == old(self).previewing(),
    {
        if self.generation != generation {
            return Ok(());
        }
        match self.preview_generation {
            Some(value) => {
                if value != generation {
                    return Ok(());
                }
            },
            None => {
                return Ok(());
            },
        }
        self.preview_generation = None;
        self.clear_windows(conceal)
    }
}

} // verus!

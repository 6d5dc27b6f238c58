//! Decisions of the widget application, apart from drawing and geometry:
//! which widgets exist and in what order, when to refresh the metrics, when
//! to save moved positions, and how long to sleep before the next frame.
//! Time spans are in nanoseconds.

use vstd::prelude::*;

use crate::config::{Config, MetricKind, Orientation, lemma_enabled_kinds};

verus! {

/// Interval between metric readings.
pub const REFRESH_INTERVAL_NS: u128 = 1_000_000_000;

/// Repaint period while an animation runs.
pub const FRAME_DURATION_NS: u128 = 20_000_000;

/// Lower bound of the repaint delay at rest.
pub const MIN_IDLE_DELAY_NS: u128 = 50_000_000;

/// Minimum time between two saves of the widget positions.
pub const SAVE_DEBOUNCE_NS: u128 = 1_000_000_000;

/// What the caller has to do to its widgets after a `sync`.
pub struct SyncPlan {
    /// For each widget before the call, whether it stays (in order).
    pub keep: Vec<bool>,
    /// Widgets to create, appended after the kept ones in this order.
    pub added: Vec<MetricKind>,
    /// Whether the group has to be aligned again.
    pub realign: bool,
}

/// State of the widget application that its decisions read and change.
pub struct AppState {
    kinds: Vec<MetricKind>,
    last_orientation: Orientation,
    animating: bool,
    positions_dirty: bool,
    dragging: bool,
    initial_placement_pending: bool,
}

/// The metrics of `s` that `enabled` does not list.
pub open spec fn spec_not_in(enabled: Seq<MetricKind>, s: Seq<MetricKind>) -> Seq<MetricKind> {
    enabled.filter(|k: MetricKind| !s.contains(k))
}

/// The metrics of `s` that `enabled` lists, in their order.
pub open spec fn spec_kept(s: Seq<MetricKind>, enabled: Seq<MetricKind>) -> Seq<MetricKind> {
    s.filter(|k: MetricKind| enabled.contains(k))
}

impl AppState {
    /// No metric has two widgets.
    #[verifier::type_invariant]
    spec fn one_widget_per_metric(self) -> bool {
        self.kinds@.no_duplicates()
    }

    /// The kinds of the widgets, in display order.
    pub closed spec fn spec_kinds(&self) -> Seq<MetricKind> {
        self.kinds@
    }

    /// Orientation the group was last aligned for.
    pub closed spec fn spec_last_orientation(&self) -> Orientation {
        self.last_orientation
    }

    /// Some widget animates (as the last frame found).
    pub closed spec fn spec_animating(&self) -> bool {
        self.animating
    }

    /// Positions changed since the last save.
    pub closed spec fn spec_positions_dirty(&self) -> bool {
        self.positions_dirty
    }

    /// The mouse button is held on some widget.
    pub closed spec fn spec_dragging(&self) -> bool {
        self.dragging
    }

    /// The group still waits for its first placement on the screen.
    pub closed spec fn spec_initial_placement_pending(&self) -> bool {
        self.initial_placement_pending
    }

    /// Orientation the group was last aligned for.
    pub fn last_orientation(&self) -> (r: Orientation)
        ensures
            r == self.spec_last_orientation(),
    {
        self.last_orientation
    }

    /// Whether some widget animates (as the last frame found).
    pub fn animating(&self) -> (r: bool)
        ensures
            r == self.spec_animating(),
    {
        self.animating
    }

    /// Whether positions changed since the last save.
    pub fn positions_dirty(&self) -> (r: bool)
        ensures
            r == self.spec_positions_dirty(),
    {
        self.positions_dirty
    }

    /// Whether the mouse button is held on some widget.
    pub fn dragging(&self) -> (r: bool)
        ensures
            r == self.spec_dragging(),
    {
        self.dragging
    }

    /// Whether the group still waits for its first placement on the screen.
    pub fn initial_placement_pending(&self) -> (r: bool)
        ensures
            r == self.spec_initial_placement_pending(),
    {
        self.initial_placement_pending
    }

    /// The state at start-up for `config`: one widget per enabled metric,
    /// animating in from 0%; the group waits for a first placement when no
    /// enabled metric has a saved position.
    pub fn new(config: &Config) -> (r: AppState)
        ensures
            r.spec_kinds().no_duplicates(),
            r.spec_kinds() == config.spec_enabled_kinds(),
            r.spec_last_orientation() == config.widget.orientation,
            r.spec_animating(),
            !r.spec_positions_dirty(),
            !r.spec_dragging(),
            r.spec_initial_placement_pending() == (forall|i: int|
                0 <= i < config.spec_enabled_kinds().len() ==> (#[trigger] config.spec_metric(
                    config.spec_enabled_kinds()[i],
                )).position.is_none()),
    {
        let kinds = config.enabled_kinds();
        proof {
            lemma_enabled_kinds(*config);
        }
        let mut pending = true;
        let mut i: usize = 0;
        while i < kinds.len()
            invariant
                i <= kinds@.len(),
                kinds@ == config.spec_enabled_kinds(),
                pending == (forall|j: int|
                    0 <= j < i ==> (#[trigger] config.spec_metric(kinds@[j])).position.is_none()),
            decreases kinds@.len() - i,
        {
            if config.metric(kinds[i]).position.is_some() {
                pending = false;
            }
            i += 1;
        }
        AppState {
            kinds,
            last_orientation: config.widget.orientation,
            animating: true,
            positions_dirty: false,
            dragging: false,
            initial_placement_pending: pending,
        }
    }

    /// The kinds of the widgets, in display order.
    pub fn kinds(&self) -> (r: &Vec<MetricKind>)
        ensures
            r@ == self.spec_kinds(),
            r@.no_duplicates(),
    {
        proof {
            use_type_invariant(self);
        }
        &self.kinds
    }

    /// Makes the widgets match the `enabled` metrics: the widgets of metrics
    /// no longer enabled go, those of newly enabled metrics are appended in
    /// the order of `enabled`; the group is aligned again when the set of
    /// widgets or the orientation changed.
    pub fn sync(&mut self, enabled: &Vec<MetricKind>, orientation: Orientation) -> (plan: SyncPlan)
        requires
            enabled@.no_duplicates(),
        ensures
            final(self).spec_kinds().no_duplicates(),
            plan.keep@.len() == old(self).spec_kinds().len(),
            forall|i: int|
                0 <= i < plan.keep@.len() ==> #[trigger] plan.keep@[i] == enabled@.contains(
                    old(self).spec_kinds()[i],
                ),
            plan.added@ == spec_not_in(enabled@, old(self).spec_kinds()),
            final(self).spec_kinds() == spec_kept(old(self).spec_kinds(), enabled@) + plan.added@,
            plan.realign == (spec_kept(old(self).spec_kinds(), enabled@).len() < old(
                self,
            ).spec_kinds().len() || plan.added@.len() > 0 || orientation != old(
                self,
            ).spec_last_orientation()),
            final(self).spec_last_orientation() == orientation,
            final(self).spec_animating() == old(self).spec_animating(),
            final(self).spec_positions_dirty() == old(self).spec_positions_dirty(),
            final(self).spec_dragging() == old(self).spec_dragging(),
            final(self).spec_initial_placement_pending() == old(self).spec_initial_placement_pending(),
    {
        proof {
            use_type_invariant(&*self);
        }
        let ghost old_kinds = self.kinds@;
        let ghost pk = |k: MetricKind| enabled@.contains(k);
        let mut keep: Vec<bool> = Vec::new();
        let mut kept: Vec<MetricKind> = Vec::new();
        let mut i: usize = 0;
        while i < self.kinds.len()
            invariant
                self.kinds@ == old_kinds,
                pk == (|k: MetricKind| enabled@.contains(k)),
                old_kinds.no_duplicates(),
                i <= old_kinds.len(),
                keep@.len() == i,
                forall|j: int| 0 <= j < i ==> #[trigger] keep@[j] == enabled@.contains(old_kinds[j]),
                kept@ == old_kinds.take(i as int).filter(pk),
            decreases old_kinds.len() - i,
        {
            let k = self.kinds[i];
            let stays = contains_kind(enabled, k);
            keep.push(stays);
            proof {
                assert(old_kinds.take(i + 1) == old_kinds.take(i as int).push(k));
                old_kinds.take(i as int).lemma_filter_push(k, pk);
            }
            if stays {
                kept.push(k);
            }
            i += 1;
        }
        proof {
            assert(old_kinds.take(old_kinds.len() as int) == old_kinds);
            lemma_filter_no_duplicates(old_kinds, pk);
        }
        proof {
            broadcast use vstd::seq_lib::group_filter_ensures;
        }
        let set_changed_by_removal = kept.len() != self.kinds.len();
        let ghost pa = |k: MetricKind| !old_kinds.contains(k);
        let mut added: Vec<MetricKind> = Vec::new();
        let mut current = kept;
        let ghost kept_s = current@;
        proof {
            assert forall|k: MetricKind| #[trigger] kept_s.contains(k) <==> (old_kinds.contains(k)
                && enabled@.contains(k)) by {
                lemma_kept_contains(old_kinds, enabled@, k);
            }
            assert(current@ == kept_s + added@);
        }
        let mut j: usize = 0;
        while j < enabled.len()
            invariant
                j <= enabled@.len(),
                pa == (|k: MetricKind| !old_kinds.contains(k)),
                enabled@.no_duplicates(),
                old_kinds.no_duplicates(),
                kept_s == old_kinds.filter(pk),
                kept_s.no_duplicates(),
                added@ == enabled@.take(j as int).filter(pa),
                current@ == kept_s + added@,
                current@.no_duplicates(),
                forall|k: MetricKind| #[trigger] kept_s.contains(k) <==> (old_kinds.contains(k)
                    && enabled@.contains(k)),
            decreases enabled@.len() - j,
        {
            let k = enabled[j];
            proof {
                assert(enabled@.take(j + 1) == enabled@.take(j as int).push(k));
                enabled@.take(j as int).lemma_filter_push(k, pa);
                lemma_added_in_enabled_prefix(enabled@, j as int, pa);
                assert(enabled@.contains(k)) by {
                    assert(enabled@[j as int] == k);
                }
                if enabled@.take(j as int).contains(k) {
                    let m = choose|m: int| 0 <= m < j && enabled@.take(j as int)[m] == k;
                    assert(enabled@[m] == enabled@[j as int]);
                }
                assert(current@.contains(k) <==> old_kinds.contains(k)) by {
                    if current@.contains(k) {
                        let m = choose|m: int| 0 <= m < current@.len() && current@[m] == k;
                        if m >= kept_s.len() {
                            assert(added@[m - kept_s.len()] == k);
                            assert(added@.contains(k));
                        } else {
                            assert(kept_s[m] == k);
                            assert(kept_s.contains(k));
                        }
                    }
                    if old_kinds.contains(k) {
                        assert(kept_s.contains(k));
                        let m = choose|m: int| 0 <= m < kept_s.len() && kept_s[m] == k;
                        assert(current@[m] == k);
                    }
                }
            }
            if !contains_kind(&current, k) {
                current.push(k);
                added.push(k);
            }
            j += 1;
        }
        proof {
            assert(enabled@.take(enabled@.len() as int) == enabled@);
        }
        let orientation_changed = orientation != self.last_orientation;
        self.kinds = current;
        self.last_orientation = orientation;
        let realign = set_changed_by_removal || added.len() > 0 || orientation_changed;
        SyncPlan { keep, added, realign }
    }

    /// Records that widget positions changed and need saving.
    pub fn mark_positions_dirty(&mut self)
        ensures
            final(self).spec_positions_dirty(),
            final(self).spec_kinds() == old(self).spec_kinds(),
            final(self).spec_last_orientation() == old(self).spec_last_orientation(),
            final(self).spec_animating() == old(self).spec_animating(),
            final(self).spec_dragging() == old(self).spec_dragging(),
            final(self).spec_initial_placement_pending() == old(self).spec_initial_placement_pending(),
    {
        proof {
            use_type_invariant(&*self);
        }
        self.positions_dirty = true;
    }

    /// Records a new reading of the metrics, which starts an animation.
    pub fn note_refreshed(&mut self)
        ensures
            final(self).spec_animating(),
            final(self).spec_kinds() == old(self).spec_kinds(),
            final(self).spec_last_orientation() == old(self).spec_last_orientation(),
            final(self).spec_positions_dirty() == old(self).spec_positions_dirty(),
            final(self).spec_dragging() == old(self).spec_dragging(),
            final(self).spec_initial_placement_pending() == old(self).spec_initial_placement_pending(),
    {
        proof {
            use_type_invariant(&*self);
        }
        self.animating = true;
    }

    /// Records that the group got its first placement (or needs none).
    pub fn placement_done(&mut self)
        ensures
            !final(self).spec_initial_placement_pending(),
            final(self).spec_kinds() == old(self).spec_kinds(),
            final(self).spec_last_orientation() == old(self).spec_last_orientation(),
            final(self).spec_animating() == old(self).spec_animating(),
            final(self).spec_positions_dirty() == old(self).spec_positions_dirty(),
            final(self).spec_dragging() == old(self).spec_dragging(),
    {
        proof {
            use_type_invariant(&*self);
        }
        self.initial_placement_pending = false;
    }

    /// Records what the frame just drawn found, widget by widget: the group
    /// animates when some widget still animates, and drags when the mouse
    /// button is held on some widget.
    pub fn finish_frame(&mut self, widget_animating: &Vec<bool>, pointer_down: &Vec<bool>)
        ensures
            final(self).spec_animating() == spec_any(widget_animating@),
            final(self).spec_dragging() == spec_any(pointer_down@),
            final(self).spec_kinds() == old(self).spec_kinds(),
            final(self).spec_last_orientation() == old(self).spec_last_orientation(),
            final(self).spec_positions_dirty() == old(self).spec_positions_dirty(),
            final(self).spec_initial_placement_pending() == old(self).spec_initial_placement_pending(),
    {
        proof {
            use_type_invariant(&*self);
        }
        self.animating = any(widget_animating);
        self.dragging = any(pointer_down);
    }

    /// Whether the positions are to be saved now, `since_save_ns` after the
    /// last save: only when they changed and the debounce time has passed.
    /// A save that is due clears the change flag.
    pub fn take_save(&mut self, since_save_ns: u128) -> (r: bool)
        ensures
            r == spec_save_due(old(self).spec_positions_dirty(), since_save_ns),
            final(self).spec_positions_dirty() == (old(self).spec_positions_dirty() && !r),
            final(self).spec_kinds() == old(self).spec_kinds(),
            final(self).spec_last_orientation() == old(self).spec_last_orientation(),
            final(self).spec_animating() == old(self).spec_animating(),
            final(self).spec_dragging() == old(self).spec_dragging(),
            final(self).spec_initial_placement_pending() == old(self).spec_initial_placement_pending(),
    {
        proof {
            use_type_invariant(&*self);
        }
        if !self.positions_dirty || since_save_ns < SAVE_DEBOUNCE_NS {
            return false;
        }
        self.positions_dirty = false;
        true
    }

    /// Delay before the next frame, `since_refresh_ns` after the last
    /// reading: the fast frame period while animating or dragging, else the
    /// time left until the next reading, kept between `MIN_IDLE_DELAY_NS`
    /// and `REFRESH_INTERVAL_NS`.
    pub fn repaint_delay(&self, since_refresh_ns: u128) -> (r: u128)
        ensures
            r == spec_repaint_delay(self.spec_animating(), self.spec_dragging(), since_refresh_ns),
    {
        if self.animating || self.dragging {
            FRAME_DURATION_NS
        } else {
            let remaining = REFRESH_INTERVAL_NS.saturating_sub(since_refresh_ns);
            if remaining < MIN_IDLE_DELAY_NS {
                MIN_IDLE_DELAY_NS
            } else if remaining > REFRESH_INTERVAL_NS {
                REFRESH_INTERVAL_NS
            } else {
                remaining
            }
        }
    }
}

/// Whether saving is due: positions changed and the debounce time passed.
pub open spec fn spec_save_due(dirty: bool, since_save_ns: u128) -> bool {
    dirty && since_save_ns >= SAVE_DEBOUNCE_NS
}

/// Delay before the next frame.
pub open spec fn spec_repaint_delay(animating: bool, dragging: bool, since_refresh_ns: u128) -> u128 {
    if animating || dragging {
        FRAME_DURATION_NS
    } else if since_refresh_ns >= REFRESH_INTERVAL_NS - MIN_IDLE_DELAY_NS {
        MIN_IDLE_DELAY_NS
    } else {
        (REFRESH_INTERVAL_NS - since_refresh_ns) as u128
    }
}

/// Some flag of `flags` is set.
pub open spec fn spec_any(flags: Seq<bool>) -> bool {
    exists|i: int| 0 <= i < flags.len() && flags[i]
}

/// Whether some flag of `flags` is set.
pub fn any(flags: &Vec<bool>) -> (r: bool)
    ensures
        r == spec_any(flags@),
{
    let mut i: usize = 0;
    while i < flags.len()
        invariant
            i <= flags@.len(),
            forall|j: int| 0 <= j < i ==> !flags@[j],
        decreases flags@.len() - i,
    {
        if flags[i] {
            return true;
        }
        i += 1;
    }
    false
}

/// Whether a widget takes the position its window reports: only a widget
/// without a position of its own does, the first time a position is known,
/// so that the window manager's first choice is remembered.
pub fn takes_reported_position(has_position: bool, reported: bool) -> (r: bool)
    ensures
        r == (!has_position && reported),
{
    !has_position && reported
}

/// Whether a new reading of the metrics is due, `since_refresh_ns` after the
/// last one.
pub fn refresh_due(since_refresh_ns: u128) -> (r: bool)
    ensures
        r == (since_refresh_ns >= REFRESH_INTERVAL_NS),
{
    since_refresh_ns >= REFRESH_INTERVAL_NS
}

/// The widget whose drag moves the group this frame: the last one, in
/// display order, that reported a movement.
pub fn drag_origin(moved: &Vec<bool>) -> (r: Option<usize>)
    ensures
        match r {
            Some(i) => i < moved@.len() && moved@[i as int] && forall|j: int|
                i < j < moved@.len() ==> !moved@[j],
            None => forall|j: int| 0 <= j < moved@.len() ==> !moved@[j],
        },
{
    let mut r: Option<usize> = None;
    let mut i: usize = 0;
    while i < moved.len()
        invariant
            i <= moved@.len(),
            match r {
                Some(k) => k < i && moved@[k as int] && forall|j: int| k < j < i ==> !moved@[j],
                None => forall|j: int| 0 <= j < i ==> !moved@[j],
            },
        decreases moved@.len() - i,
    {
        if moved[i] {
            r = Some(i);
        }
        i += 1;
    }
    r
}

fn contains_kind(v: &Vec<MetricKind>, k: MetricKind) -> (r: bool)
    ensures
        r == v@.contains(k),
{
    let mut i: usize = 0;
    while i < v.len()
        invariant
            i <= v@.len(),
            forall|j: int| 0 <= j < i ==> v@[j] != k,
        decreases v@.len() - i,
    {
        if v[i] == k {
            assert(v@[i as int] == k);
            return true;
        }
        i += 1;
    }
    false
}

/// Filtering keeps a sequence free of duplicates.
pub proof fn lemma_filter_no_duplicates(s: Seq<MetricKind>, p: spec_fn(MetricKind) -> bool)
    requires
        s.no_duplicates(),
    ensures
        s.filter(p).no_duplicates(),
    decreases s.len(),
{
    reveal(Seq::filter);
    if s.len() > 0 {
        let rest = s.drop_last();
        assert(rest.no_duplicates());
        lemma_filter_no_duplicates(rest, p);
        if p(s.last()) {
            if rest.filter(p).contains(s.last()) {
                rest.lemma_filter_contains_rev(p, s.last());
                let i = choose|i: int| 0 <= i < rest.len() && rest[i] == s.last();
                assert(s[i] == s[s.len() - 1]);
            }
        }
    }
}

proof fn lemma_kept_contains(old_kinds: Seq<MetricKind>, enabled: Seq<MetricKind>, k: MetricKind)
    ensures
        old_kinds.filter(|x: MetricKind| enabled.contains(x)).contains(k) <==> (old_kinds.contains(k)
            && enabled.contains(k)),
{
    broadcast use vstd::seq_lib::group_filter_ensures;

    let pk = |x: MetricKind| enabled.contains(x);
    if old_kinds.filter(pk).contains(k) {
        old_kinds.lemma_filter_contains_rev(pk, k);
        let i = choose|i: int| 0 <= i < old_kinds.filter(pk).len() && old_kinds.filter(pk)[i] == k;
        assert(pk(old_kinds.filter(pk)[i]));
    }
    if old_kinds.contains(k) && enabled.contains(k) {
        let i = choose|i: int| 0 <= i < old_kinds.len() && old_kinds[i] == k;
        old_kinds.lemma_filter_contains(pk, i);
    }
}

proof fn lemma_added_in_enabled_prefix(
    enabled: Seq<MetricKind>,
    j: int,
    pa: spec_fn(MetricKind) -> bool,
)
    requires
        0 <= j <= enabled.len(),
    ensures
        forall|k: MetricKind| #[trigger]
            enabled.take(j).filter(pa).contains(k) ==> enabled.take(j).contains(k),
{
    assert forall|k: MetricKind| #[trigger]
        enabled.take(j).filter(pa).contains(k) implies enabled.take(j).contains(k) by {
        enabled.take(j).lemma_filter_contains_rev(pa, k);
    }
}

} // verus!

verus! {

proof fn lemma_filter_all(s: Seq<MetricKind>, p: spec_fn(MetricKind) -> bool)
    requires
        forall|i: int| 0 <= i < s.len() ==> p(#[trigger] s[i]),
    ensures
        s.filter(p) == s,
    decreases s.len(),
{
    reveal(Seq::filter);
    if s.len() > 0 {
        lemma_filter_all(s.drop_last(), p);
        assert(s.drop_last().push(s.last()) =~= s);
    }
}

proof fn lemma_filter_none(s: Seq<MetricKind>, p: spec_fn(MetricKind) -> bool)
    requires
        forall|i: int| 0 <= i < s.len() ==> !p(#[trigger] s[i]),
    ensures
        s.filter(p).len() == 0,
    decreases s.len(),
{
    reveal(Seq::filter);
    if s.len() > 0 {
        lemma_filter_none(s.drop_last(), p);
    }
}

/// After `sync`, the widgets are exactly those of the enabled metrics.
pub proof fn lemma_sync_shows_enabled(kinds: Seq<MetricKind>, enabled: Seq<MetricKind>)
    ensures
        forall|k: MetricKind| #[trigger]
            (spec_kept(kinds, enabled) + spec_not_in(enabled, kinds)).contains(k)
                <==> enabled.contains(k),
{
    assert forall|k: MetricKind| #[trigger]
        (spec_kept(kinds, enabled) + spec_not_in(enabled, kinds)).contains(k) <==> enabled.contains(
            k,
        ) by {
        let a = spec_kept(kinds, enabled);
        let b = spec_not_in(enabled, kinds);
        let pk = |x: MetricKind| enabled.contains(x);
        let pa = |x: MetricKind| !kinds.contains(x);
        lemma_kept_contains(kinds, enabled, k);
        if (a + b).contains(k) {
            let m = choose|m: int| 0 <= m < (a + b).len() && (a + b)[m] == k;
            if m >= a.len() {
                assert(b[m - a.len()] == k);
                enabled.lemma_filter_contains_rev(pa, k);
            } else {
                assert(a[m] == k);
            }
        }
        if enabled.contains(k) {
            if kinds.contains(k) {
                let m = choose|m: int| 0 <= m < a.len() && a[m] == k;
                assert((a + b)[m] == k);
            } else {
                let m = choose|m: int| 0 <= m < enabled.len() && enabled[m] == k;
                enabled.lemma_filter_contains(pa, m);
                let n = choose|n: int| 0 <= n < b.len() && b[n] == k;
                assert((a + b)[a.len() + n] == k);
            }
        }
    }
}

/// Once the widgets match the enabled metrics, `sync` keeps every widget
/// and adds none, so with an unchanged orientation it changes nothing and
/// does not realign the group.
pub proof fn lemma_sync_settles(kinds: Seq<MetricKind>, enabled: Seq<MetricKind>)
    requires
        forall|k: MetricKind| #[trigger] kinds.contains(k) <==> enabled.contains(k),
    ensures
        spec_kept(kinds, enabled) == kinds,
        spec_not_in(enabled, kinds).len() == 0,
        spec_kept(kinds, enabled) + spec_not_in(enabled, kinds) == kinds,
{
    assert forall|i: int| 0 <= i < kinds.len() implies (|k: MetricKind| enabled.contains(k))(
        #[trigger] kinds[i],
    ) by {
        assert(kinds.contains(kinds[i]));
    }
    lemma_filter_all(kinds, |k: MetricKind| enabled.contains(k));
    assert forall|i: int| 0 <= i < enabled.len() implies !(|k: MetricKind| !kinds.contains(k))(
        #[trigger] enabled[i],
    ) by {
        assert(enabled.contains(enabled[i]));
    }
    lemma_filter_none(enabled, |k: MetricKind| !kinds.contains(k));
    assert(spec_kept(kinds, enabled) + spec_not_in(enabled, kinds) =~= kinds);
}

/// The delay before the next frame is never shorter than the fast frame
/// period nor longer than the refresh interval; at rest it is at least
/// `MIN_IDLE_DELAY_NS`.
pub proof fn lemma_repaint_delay_bounds(animating: bool, dragging: bool, since_refresh_ns: u128)
    ensures
        FRAME_DURATION_NS <= spec_repaint_delay(animating, dragging, since_refresh_ns)
            <= REFRESH_INTERVAL_NS,
        !(animating || dragging) ==> MIN_IDLE_DELAY_NS <= spec_repaint_delay(
            animating,
            dragging,
            since_refresh_ns,
        ),
        (animating || dragging) ==> spec_repaint_delay(animating, dragging, since_refresh_ns)
            == FRAME_DURATION_NS,
{
}

/// A save is only ever due once the debounce time has passed, and never
/// twice without a change in between.
pub proof fn lemma_save_debounce(dirty: bool, since_save_ns: u128, later_ns: u128)
    ensures
        spec_save_due(dirty, since_save_ns) ==> since_save_ns >= SAVE_DEBOUNCE_NS,
        !spec_save_due(false, later_ns),
{
}

} // verus!

verus! {

/// Moved positions are saved one second after the last save at the
/// earliest, and from then on at any later time: for changed positions a
/// save is due exactly when at least one second has passed, and never when
/// nothing changed. Waiting longer never makes a due save undue.
pub proof fn lemma_save_due_from_one_second_on(dirty: bool, since_save_ns: u128, later_ns: u128)
    ensures
        since_save_ns >= 1_000_000_000 ==> spec_save_due(true, since_save_ns),
        since_save_ns < 1_000_000_000 ==> !spec_save_due(dirty, since_save_ns),
        !spec_save_due(false, since_save_ns),
        spec_save_due(dirty, since_save_ns) && since_save_ns <= later_ns ==> spec_save_due(
            dirty,
            later_ns,
        ),
{
}

/// At rest the app sleeps until the next reading of the metrics is due, one
/// second after the last one, but at least 50 ms: the wake-up time
/// `since + delay` is the later of that reading and `since + 50 ms`. While a
/// widget animates or is dragged, frames come every 20 ms.
pub proof fn lemma_repaint_wakes_at_next_reading(animating: bool, dragging: bool, since_refresh_ns: u128)
    ensures
        !(animating || dragging) ==> since_refresh_ns + spec_repaint_delay(
            animating,
            dragging,
            since_refresh_ns,
        ) == if since_refresh_ns + 50_000_000 >= 1_000_000_000 {
            since_refresh_ns + 50_000_000
        } else {
            1_000_000_000
        },
        (animating || dragging) ==> spec_repaint_delay(animating, dragging, since_refresh_ns)
            == 20_000_000,
{
}

} // verus!

verus! {

/// Widgets already shown keep their place: when every shown metric is still
/// enabled, `sync` only appends the newly enabled ones after them, in the
/// order of `enabled`; starting with no widgets, the widgets come in the
/// order of `enabled`.
pub proof fn lemma_sync_keeps_places(kinds: Seq<MetricKind>, enabled: Seq<MetricKind>)
    ensures
        (forall|i: int| 0 <= i < kinds.len() ==> enabled.contains(#[trigger] kinds[i]))
            ==> spec_kept(kinds, enabled) == kinds,
        kinds.len() == 0 ==> spec_kept(kinds, enabled) + spec_not_in(enabled, kinds) == enabled,
{
    if forall|i: int| 0 <= i < kinds.len() ==> enabled.contains(#[trigger] kinds[i]) {
        lemma_filter_all(kinds, |k: MetricKind| enabled.contains(k));
    }
    if kinds.len() == 0 {
        lemma_filter_all(enabled, |k: MetricKind| !kinds.contains(k));
        reveal(Seq::filter);
        assert(spec_kept(kinds, enabled) + spec_not_in(enabled, kinds) =~= enabled);
    }
}

} // verus!

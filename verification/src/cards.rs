//! The displayed card list: notifications ordered by urgency and age,
//! replacement by id, and the close decision (which acknowledgments flow
//! back into the pipeline, and whether the overlay surface is dropped).

use crate::config::NotificationsConfig;
use crate::model::{hints_view, spec_urgency, CloseReason, Notification};
use crate::pipeline::Input;
use vstd::prelude::*;

verus! {

/// Strict display order: lower urgency first, then older first.
pub open spec fn spec_key_lt(a: Notification, b: Notification) -> bool {
    let ua = spec_urgency(hints_view(a.hints@));
    let ub = spec_urgency(hints_view(b.hints@));
    ua < ub || (ua == ub && a.time < b.time)
}

/// Non-strict display order.
pub open spec fn spec_key_le(a: Notification, b: Notification) -> bool {
    let ua = spec_urgency(hints_view(a.hints@));
    let ub = spec_urgency(hints_view(b.hints@));
    ua < ub || (ua == ub && a.time <= b.time)
}

/// Equal display keys: same urgency and same creation instant.
pub open spec fn spec_key_eq(a: Notification, b: Notification) -> bool {
    spec_urgency(hints_view(a.hints@)) == spec_urgency(hints_view(b.hints@)) && a.time == b.time
}

/// A card list ordered by display key.
pub open spec fn spec_sorted(s: Seq<Notification>) -> bool {
    forall|i: int, j: int| 0 <= i < j < s.len() ==> spec_key_le(#[trigger] s[i], #[trigger] s[j])
}

/// Where a notification belongs in an ordered card list: the index of the
/// first card not strictly below it.
pub open spec fn spec_lower_bound(s: Seq<Notification>, n: Notification) -> int
    decreases s.len(),
{
    if s.len() == 0 {
        0
    } else if spec_key_lt(s[0], n) {
        1 + spec_lower_bound(s.drop_first(), n)
    } else {
        0
    }
}

proof fn lemma_lower_bound_char(s: Seq<Notification>, n: Notification, i: int)
    requires
        0 <= i <= s.len(),
        forall|j: int| 0 <= j < i ==> spec_key_lt(#[trigger] s[j], n),
        i < s.len() ==> !spec_key_lt(s[i], n),
    ensures
        spec_lower_bound(s, n) == i,
    decreases s.len(),
{
    if s.len() == 0 {
    } else if i == 0 {
    } else {
        assert(spec_key_lt(s[0], n));
        assert(forall|j: int|
            0 <= j < i - 1 ==> #[trigger] s.drop_first()[j] == s[j + 1]);
        lemma_lower_bound_char(s.drop_first(), n, i - 1);
    }
}

/// What closing a card decides: whether the id was found, the
/// acknowledgments to enqueue into the pipeline, and whether the now-empty
/// overlay surface should be destroyed.
#[derive(Debug, Clone, PartialEq, Eq)]
pub struct CloseOutcome {
    pub found: bool,
    pub acks: Vec<Input>,
    pub drop_surface: bool,
}

/// What pushing a card decides: how long the auto-expiry timer runs (0 for
/// none) and whether the overlay surface must be created first.
#[derive(Debug, Clone, PartialEq, Eq)]
pub struct PushOutcome {
    pub timeout: u32,
    pub create_surface: bool,
}

/// The set of cards currently displayed, kept in display order.
#[derive(Debug, Clone, PartialEq, Eq)]
pub struct Cards {
    pub cards: Vec<Notification>,
    /// Whether the overlay surface currently exists.
    pub active_surface: bool,
}

impl Cards {
    /// An empty card list with no surface.
    pub fn new() -> (r: Cards)
        ensures
            r.cards@.len() == 0,
            !r.active_surface,
            spec_sorted(r.cards@),
    {
        Cards { cards: Vec::new(), active_surface: false }
    }

    /// Inserts a notification at its display position; a card with exactly
    /// the same key (urgency and instant) is overwritten.
    pub fn insert_sorted(&mut self, n: Notification)
        requires
            spec_sorted(old(self).cards@),
        ensures
            final(self).active_surface == old(self).active_surface,
            spec_sorted(final(self).cards@),
            final(self).cards@.len() >= 1,
            final(self).cards@.len() >= old(self).cards@.len(),
            ({
                let s = old(self).cards@;
                let i = spec_lower_bound(s, n);
                if i < s.len() && spec_key_eq(s[i], n) {
                    final(self).cards@ == s.update(i, n)
                } else {
                    final(self).cards@ == s.insert(i, n)
                }
            }),
    {
        let ghost s = self.cards@;
        let len = self.cards.len();
        let nu = n.urgency();
        let mut i: usize = 0;
        while i < len
            invariant
                s == self.cards@,
                s == old(self).cards@,
                self.active_surface == old(self).active_surface,
                spec_sorted(s),
                len == s.len(),
                i <= len,
                nu == spec_urgency(hints_view(n.hints@)),
                forall|j: int| 0 <= j < i ==> spec_key_lt(#[trigger] s[j], n),
            decreases len - i,
        {
            let cu = self.cards[i].urgency();
            let ct = self.cards[i].time;
            if !(cu < nu || (cu == nu && ct < n.time)) {
                proof {
                    lemma_lower_bound_char(s, n, i as int);
                }
                if cu == nu && ct == n.time {
                    self.cards.set(i, n);
                    proof {
                        lemma_sorted_update(s, i as int, n);
                    }
                } else {
                    self.cards.insert(i, n);
                    proof {
                        lemma_sorted_insert(s, i as int, n);
                    }
                }
                return ;
            }
            i += 1;
        }
        proof {
            lemma_lower_bound_char(s, n, len as int);
        }
        self.cards.push(n);
        proof {
            assert(self.cards@ =~= s.insert(len as int, n));
            lemma_sorted_insert(s, len as int, n);
        }
    }

    /// Admits a new notification: the card is inserted at its display
    /// position, the auto-expiry timer is clamped to the configured ceiling,
    /// and the overlay surface is created when the list was empty and
    /// do-not-disturb is off.
    pub fn push_notification(&mut self, n: Notification, config: &NotificationsConfig) -> (r:
        PushOutcome)
        requires
            spec_sorted(old(self).cards@),
        ensures
            spec_sorted(final(self).cards@),
            r.timeout == crate::config::spec_clamped_timeout(
                *config,
                n.expire_timeout,
                spec_urgency(hints_view(n.hints@)),
            ),
            r.create_surface == (old(self).cards@.len() == 0 && !config.do_not_disturb),
            r.create_surface ==> final(self).active_surface,
            !r.create_surface ==> final(self).active_surface == old(self).active_surface,
            final(self).cards@.len() >= 1,
            ({
                let s = old(self).cards@;
                let i = spec_lower_bound(s, n);
                if i < s.len() && spec_key_eq(s[i], n) {
                    final(self).cards@ == s.update(i, n)
                } else {
                    final(self).cards@ == s.insert(i, n)
                }
            }),
    {
        let urgency = n.urgency();
        let timeout = config.applicable_timeout(n.expire_timeout, urgency);
        let create_surface = self.cards.len() == 0 && !config.do_not_disturb;
        if create_surface {
            self.active_surface = true;
        }
        self.insert_sorted(n);
        PushOutcome { timeout, create_surface }
    }

    /// Replaces the card with the same id: the first match is removed and
    /// the replacement re-inserted at its own display position, since its
    /// urgency or age may differ. The re-insertion is a plain insertion,
    /// never an equal-key overwrite, so a replacement destroys no other
    /// card and the list length never changes. Where no card has the id the
    /// list is left unchanged; the caller then admits the notification as
    /// new (the replace-by-unknown-id fallback, which also schedules its
    /// expiry timer and surface).
    pub fn replace_notification(&mut self, n: Notification) -> (replaced: bool)
        requires
            spec_sorted(old(self).cards@),
        ensures
            spec_sorted(final(self).cards@),
            final(self).active_surface == old(self).active_surface,
            replaced == (exists|i: int|
                0 <= i < old(self).cards@.len() && old(self).cards@[i].id == n.id),
            !replaced ==> final(self).cards@ == old(self).cards@,
            replaced ==> final(self).cards@.len() == old(self).cards@.len(),
            replaced ==> exists|i: int|
                {
                    &&& 0 <= i < old(self).cards@.len()
                    &&& old(self).cards@[i].id == n.id
                    &&& (forall|j: int| 0 <= j < i ==> old(self).cards@[j].id != n.id)
                    &&& ({
                        let m = old(self).cards@.remove(i);
                        final(self).cards@ == m.insert(spec_lower_bound(m, n), n)
                    })
                },
    {
        let ghost s = self.cards@;
        let len = self.cards.len();
        let mut i: usize = 0;
        while i < len
            invariant
                s == self.cards@,
                s == old(self).cards@,
                self.active_surface == old(self).active_surface,
                spec_sorted(s),
                len == s.len(),
                i <= len,
                forall|j: int| 0 <= j < i ==> (#[trigger] s[j]).id != n.id,
            decreases len - i,
        {
            if self.cards[i].id == n.id {
                self.cards.remove(i);
                let ghost m = self.cards@;
                proof {
                    lemma_sorted_remove(s, i as int);
                }
                let ghost gi = i as int;
                let pos = find_lower_bound(&self.cards, &n);
                self.cards.insert(pos, n);
                proof {
                    lemma_sorted_insert(m, pos as int, n);
                    assert(0 <= gi && gi < s.len() && s[gi].id == n.id && (forall|j: int|
                        0 <= j < gi ==> s[j].id != n.id) && self.cards@ == m.insert(
                        spec_lower_bound(m, n),
                        n,
                    ));
                }
                return true;
            }
            i += 1;
        }
        false
    }

    /// Closes the card with the given id for the given reason. A found card
    /// is removed, and its destruction is acknowledged to the pipeline with
    /// exactly one Closed message carrying the reason, so that exactly one
    /// NotificationClosed signal follows per destruction — also for an
    /// expired card (reason code 1). The one exception is a bus-requested
    /// close: the pipeline already answered that call with reason code 3
    /// when it forwarded the close event, so acknowledging again would
    /// signal twice. The overlay surface is dropped when the last card goes.
    pub fn close(&mut self, id: u32, reason: CloseReason) -> (r: CloseOutcome)
        ensures
            r.found == (exists|i: int|
                0 <= i < old(self).cards@.len() && old(self).cards@[i].id == id),
            r.found ==> exists|i: int|
                {
                    &&& 0 <= i < old(self).cards@.len()
                    &&& old(self).cards@[i].id == id
                    &&& forall|j: int| 0 <= j < i ==> old(self).cards@[j].id != id
                    &&& final(self).cards@ == old(self).cards@.remove(i)
                },
            !r.found ==> final(self).cards@ == old(self).cards@ && final(self).active_surface
                == old(self).active_surface,
            r.found && !(reason is CloseNotification) ==> r.acks@ == seq![
                Input::Closed(id, reason),
            ],
            !(r.found && !(reason is CloseNotification)) ==> r.acks@ == Seq::<Input>::empty(),
            r.drop_surface == (r.found && final(self).cards@.len() == 0
                && old(self).active_surface),
            r.drop_surface ==> !final(self).active_surface,
            !r.drop_surface ==> final(self).active_surface == old(self).active_surface,
    {
        let ghost s = self.cards@;
        let len = self.cards.len();
        let mut i: usize = 0;
        while i < len
            invariant
                s == self.cards@,
                s == old(self).cards@,
                self.active_surface == old(self).active_surface,
                len == s.len(),
                i <= len,
                forall|j: int| 0 <= j < i ==> (#[trigger] s[j]).id != id,
            decreases len - i,
        {
            if self.cards[i].id == id {
                self.cards.remove(i);
                let mut acks: Vec<Input> = Vec::new();
                let bus_requested = match reason {
                    CloseReason::CloseNotification => true,
                    _ => false,
                };
                if !bus_requested {
                    acks.push(Input::Closed(id, reason));
                    proof {
                        assert(acks@ =~= seq![Input::Closed(id, reason)]);
                    }
                }
                let drop_surface = self.cards.len() == 0 && self.active_surface;
                if drop_surface {
                    self.active_surface = false;
                }
                return CloseOutcome { found: true, acks, drop_surface };
            }
            i += 1;
        }
        CloseOutcome { found: false, acks: Vec::new(), drop_surface: false }
    }

    /// Restores display order with a stable insertion sort, per
    /// `spec_stable_sort`: cards with equal keys keep their relative order,
    /// and no card is dropped or duplicated.
    #[verifier::loop_isolation(false)]
    pub fn sort_notifications(&mut self)
        ensures
            final(self).cards@ == spec_stable_sort(old(self).cards@),
            spec_sorted(final(self).cards@),
            final(self).active_surface == old(self).active_surface,
    {
        let ghost orig = self.cards@;
        let mut out: Vec<Notification> = Vec::new();
        let ghost mut k: int = 0int;
        proof {
            assert(orig.take(0) =~= Seq::<Notification>::empty());
        }
        while self.cards.len() > 0
            invariant
                0 <= k <= orig.len(),
                k + self.cards@.len() == orig.len(),
                self.cards@ =~= orig.skip(k),
                out@ == spec_stable_sort(orig.take(k)),
                spec_sorted(out@),
                self.active_surface == old(self).active_surface,
            decreases self.cards@.len(),
        {
            let ghost rest_old = self.cards@;
            let ghost out_old = out@;
            let n = self.cards.remove(0);
            proof {
                assert(n == orig[k]);
            }
            let pos = find_upper_bound(&out, &n);
            out.insert(pos, n);
            proof {
                lemma_sorted_insert_upper(out_old, pos as int, n);
                assert(orig.take(k + 1).drop_last() =~= orig.take(k));
                assert(orig.take(k + 1).last() == orig[k]);
                assert(out@ == spec_stable_sort(orig.take(k + 1)));
                k = k + 1;
                assert(self.cards@ =~= orig.skip(k));
            }
        }
        proof {
            assert(orig.take(k) =~= orig);
        }
        self.cards = out;
    }

    /// Caps runs of cards from one app, per `spec_grouped` and
    /// `spec_regroup_insert`: within each run of consecutive cards sharing an
    /// app name, cards beyond `max_per_app` are displaced, then re-inserted
    /// at their display position while fewer than `max_notifications` cards
    /// are listed, and appended past the end otherwise (where the overlay no
    /// longer shows them). A zero `max_per_app` disables grouping. An
    /// appended tail can leave the list unsorted; the caller re-sorts before
    /// the next ordered insertion.
    #[verifier::loop_isolation(false)]
    #[verifier::rlimit(50)]
    pub fn group_notifications(&mut self, config: &NotificationsConfig)
        requires
            spec_sorted(old(self).cards@),
        ensures
            final(self).active_surface == old(self).active_surface,
            config.max_per_app == 0 ==> final(self).cards@ == old(self).cards@,
            config.max_per_app != 0 ==> ({
                let parts = spec_grouped(old(self).cards@, config.max_per_app as int);
                final(self).cards@ == spec_regroup_insert(
                    parts.0,
                    parts.1,
                    config.max_notifications as int,
                )
            }),
    {
        if config.max_per_app == 0 {
            return ;
        }
        if self.cards.len() == 0 {
            proof {
                let parts = spec_grouped(self.cards@, config.max_per_app as int);
                assert(spec_regroup_insert(parts.0, parts.1, config.max_notifications as int)
                    == self.cards@);
            }
            return ;
        }
        let ghost orig = self.cards@;
        let ghost capi = config.max_per_app as int;
        let ghost parts = spec_grouped(orig, capi);
        let cap = config.max_per_app;
        let mut kept: Vec<Notification> = Vec::new();
        let mut displaced: Vec<Notification> = Vec::new();
        let mut cur_name: String = self.cards[0].app_name.clone();
        let mut count: u64 = 0;
        let ghost mut k: int = 0int;
        proof {
            assert(orig.skip(0) =~= orig);
            assert(parts == spec_group_split(orig, orig[0].app_name@, 0, capi));
        }
        while self.cards.len() > 0
            invariant
                0 <= k <= orig.len(),
                k + self.cards@.len() == orig.len(),
                self.cards@ =~= orig.skip(k),
                count <= k,
                parts.0 == kept@ + spec_group_split(
                    orig.skip(k),
                    cur_name@,
                    count as int,
                    capi,
                ).0,
                parts.1 == displaced@ + spec_group_split(
                    orig.skip(k),
                    cur_name@,
                    count as int,
                    capi,
                ).1,
                spec_sorted(kept@),
                kept@.len() > 0 && k < orig.len() ==> spec_key_le(kept@.last(), orig[k]),
                self.active_surface == old(self).active_surface,
            decreases self.cards@.len(),
        {
            let ghost rest_old = self.cards@;
            let ghost prev0 = cur_name@;
            let ghost count0 = count as int;
            let ghost kept0 = kept@;
            let ghost displaced0 = displaced@;
            let n = self.cards.remove(0);
            proof {
                assert(n == orig[k]);
            }
            let same = crate::strutil::str_eq(n.app_name.as_str(), cur_name.as_str());
            if same {
                count = count + 1;
            } else {
                count = 1;
                cur_name = n.app_name.clone();
            }
            let keep = count <= cap as u64;
            proof {
                assert(count as int == (if n.app_name@ == prev0 {
                    count0 + 1
                } else {
                    1int
                }));
                assert(keep == !(count as int > capi));
            }
            if keep {
                kept.push(n);
            } else {
                displaced.push(n);
            }
            proof {
                let rest = spec_group_split(orig.skip(k + 1), cur_name@, count as int, capi);
                assert(orig.skip(k).drop_first() =~= orig.skip(k + 1));
                assert(spec_group_split(orig.skip(k), prev0, count0, capi) == (if count as int
                    > capi {
                    (rest.0, seq![n] + rest.1)
                } else {
                    (seq![n] + rest.0, rest.1)
                }));
                if keep {
                    assert(kept0 + (seq![n] + rest.0) =~= kept@ + rest.0);
                } else {
                    assert(displaced0 + (seq![n] + rest.1) =~= displaced@ + rest.1);
                }
                if keep {
                    assert(spec_sorted(kept@)) by {
                        assert(forall|j: int|
                            0 <= j < kept0.len() ==> spec_key_le(#[trigger] kept0[j], n));
                    }
                }
                k = k + 1;
                assert(self.cards@ =~= orig.skip(k));
                if k < orig.len() {
                    assert(spec_key_le(orig[k - 1], orig[k]));
                }
            }
        }
        proof {
            assert(orig.skip(k) =~= Seq::<Notification>::empty());
            assert(parts.0 =~= kept@);
            assert(parts.1 =~= displaced@);
        }
        self.cards = kept;
        let ghost target = spec_regroup_insert(parts.0, parts.1, config.max_notifications as int);
        let mut extra = displaced;
        while extra.len() > 0
            invariant
                spec_regroup_insert(
                    self.cards@,
                    extra@,
                    config.max_notifications as int,
                ) == target,
                spec_sorted(self.cards@) || self.cards@.len()
                    >= config.max_notifications as int,
                self.active_surface == old(self).active_surface,
            decreases extra@.len(),
        {
            let ghost cards0 = self.cards@;
            let ghost extra0 = extra@;
            let n = extra.remove(0);
            if self.cards.len() < config.max_notifications as usize {
                self.insert_sorted(n);
            } else {
                self.cards.push(n);
            }
            proof {
                assert(extra0.drop_first() =~= extra@);
                assert(spec_regroup_insert(cards0, extra0, config.max_notifications as int)
                    == spec_regroup_insert(self.cards@, extra@, config.max_notifications as int));
            }
        }
    }
}

/// Where a card goes when sorted in after every card it does not order
/// strictly below: the index of the first card strictly above it.
pub open spec fn spec_upper_bound(s: Seq<Notification>, n: Notification) -> int
    decreases s.len(),
{
    if s.len() == 0 {
        0
    } else if !spec_key_lt(n, s[0]) {
        1 + spec_upper_bound(s.drop_first(), n)
    } else {
        0
    }
}

proof fn lemma_upper_bound_char(s: Seq<Notification>, n: Notification, i: int)
    requires
        0 <= i <= s.len(),
        forall|j: int| 0 <= j < i ==> !spec_key_lt(n, #[trigger] s[j]),
        i < s.len() ==> spec_key_lt(n, s[i]),
    ensures
        spec_upper_bound(s, n) == i,
    decreases s.len(),
{
    if s.len() == 0 {
    } else if i == 0 {
    } else {
        assert(!spec_key_lt(n, s[0]));
        assert(forall|j: int|
            0 <= j < i - 1 ==> #[trigger] s.drop_first()[j] == s[j + 1]);
        lemma_upper_bound_char(s.drop_first(), n, i - 1);
    }
}

proof fn lemma_sorted_insert_upper(s: Seq<Notification>, i: int, n: Notification)
    requires
        spec_sorted(s),
        0 <= i <= s.len(),
        forall|j: int| 0 <= j < i ==> !spec_key_lt(n, #[trigger] s[j]),
        i < s.len() ==> spec_key_lt(n, s[i]),
    ensures
        spec_sorted(s.insert(i, n)),
{
    let t = s.insert(i, n);
    assert forall|p: int, q: int| 0 <= p < q < t.len() implies spec_key_le(t[p], t[q]) by {
        if p < i && q < i {
            assert(t[p] == s[p] && t[q] == s[q]);
            assert(spec_key_le(s[p], s[q]));
        } else if p < i && q == i {
            assert(t[p] == s[p] && t[q] == n);
            assert(!spec_key_lt(n, s[p]));
        } else if p < i && q > i {
            assert(t[p] == s[p] && t[q] == s[q - 1]);
            assert(spec_key_le(s[p], s[q - 1]));
        } else if p == i && q > i {
            assert(t[p] == n && t[q] == s[q - 1]);
            if i < s.len() {
                assert(spec_key_lt(n, s[i]));
                assert(q - 1 >= i);
                if q - 1 > i {
                    assert(spec_key_le(s[i], s[q - 1]));
                }
            }
        } else {
            assert(t[p] == s[p - 1] && t[q] == s[q - 1]);
            assert(spec_key_le(s[p - 1], s[q - 1]));
        }
    }
}

/// The stable sort of a card list: each card, taken left to right, is
/// inserted after every card it does not order strictly below, so cards with
/// equal keys keep their relative order; no card is dropped or duplicated.
pub open spec fn spec_stable_sort(s: Seq<Notification>) -> Seq<Notification>
    decreases s.len(),
{
    if s.len() == 0 {
        Seq::empty()
    } else {
        let sorted_prefix = spec_stable_sort(s.drop_last());
        sorted_prefix.insert(spec_upper_bound(sorted_prefix, s.last()), s.last())
    }
}

/// One pass over the card list: walking left to right and counting each run
/// of consecutive cards that share an app name, a card beyond the cap within
/// its run is displaced; the rest are kept in place.
pub open spec fn spec_group_split(
    s: Seq<Notification>,
    prev: Seq<char>,
    count: int,
    cap: int,
) -> (Seq<Notification>, Seq<Notification>)
    decreases s.len(),
{
    if s.len() == 0 {
        (Seq::empty(), Seq::empty())
    } else {
        let n = s[0];
        let count2 = if n.app_name@ == prev {
            count + 1
        } else {
            1
        };
        let rest = spec_group_split(s.drop_first(), n.app_name@, count2, cap);
        if count2 > cap {
            (rest.0, seq![n] + rest.1)
        } else {
            (seq![n] + rest.0, rest.1)
        }
    }
}

/// The kept and displaced cards of one grouping pass over the whole list.
pub open spec fn spec_grouped(s: Seq<Notification>, cap: int) -> (
    Seq<Notification>,
    Seq<Notification>,
) {
    if s.len() == 0 {
        (s, Seq::empty())
    } else {
        spec_group_split(s, s[0].app_name@, 0, cap)
    }
}

/// Displaced cards rejoin the list one by one: re-inserted at their display
/// position while the list is shorter than `max_display`, appended at the
/// end once it is full.
pub open spec fn spec_regroup_insert(
    cards: Seq<Notification>,
    extra: Seq<Notification>,
    max_display: int,
) -> Seq<Notification>
    decreases extra.len(),
{
    if extra.len() == 0 {
        cards
    } else {
        let n = extra[0];
        let cards2 = if cards.len() < max_display {
            let i = spec_lower_bound(cards, n);
            if i < cards.len() && spec_key_eq(cards[i], n) {
                cards.update(i, n)
            } else {
                cards.insert(i, n)
            }
        } else {
            cards.push(n)
        };
        spec_regroup_insert(cards2, extra.drop_first(), max_display)
    }
}

/// The index of the first card not strictly below `n`, per
/// `spec_lower_bound`.
#[verifier::loop_isolation(false)]
fn find_lower_bound(v: &Vec<Notification>, n: &Notification) -> (r: usize)
    ensures
        r <= v@.len(),
        r == spec_lower_bound(v@, *n),
        forall|j: int| 0 <= j < r ==> spec_key_lt(#[trigger] v@[j], *n),
        r < v@.len() ==> !spec_key_lt(v@[r as int], *n),
{
    let nu = n.urgency();
    let len = v.len();
    let mut p: usize = 0;
    while p < len
        invariant
            p <= len,
            forall|j: int| 0 <= j < p ==> spec_key_lt(#[trigger] v@[j], *n),
        decreases len - p,
    {
        let cu = v[p].urgency();
        if !(cu < nu || (cu == nu && v[p].time < n.time)) {
            proof {
                lemma_lower_bound_char(v@, *n, p as int);
            }
            return p;
        }
        p += 1;
    }
    proof {
        lemma_lower_bound_char(v@, *n, len as int);
    }
    len
}

/// The index of the first card strictly above `n`, per `spec_upper_bound`.
#[verifier::loop_isolation(false)]
fn find_upper_bound(v: &Vec<Notification>, n: &Notification) -> (r: usize)
    ensures
        r <= v@.len(),
        r == spec_upper_bound(v@, *n),
        forall|j: int| 0 <= j < r ==> !spec_key_lt(*n, #[trigger] v@[j]),
        r < v@.len() ==> spec_key_lt(*n, v@[r as int]),
{
    let nu = n.urgency();
    let len = v.len();
    let mut p: usize = 0;
    while p < len
        invariant
            p <= len,
            forall|j: int| 0 <= j < p ==> !spec_key_lt(*n, #[trigger] v@[j]),
        decreases len - p,
    {
        let cu = v[p].urgency();
        if nu < cu || (nu == cu && n.time < v[p].time) {
            proof {
                lemma_upper_bound_char(v@, *n, p as int);
            }
            return p;
        }
        p += 1;
    }
    proof {
        lemma_upper_bound_char(v@, *n, len as int);
    }
    len
}

proof fn lemma_sorted_remove(s: Seq<Notification>, i: int)
    requires
        spec_sorted(s),
        0 <= i < s.len(),
    ensures
        spec_sorted(s.remove(i)),
{
    let t = s.remove(i);
    assert forall|p: int, q: int| 0 <= p < q < t.len() implies spec_key_le(t[p], t[q]) by {
        if q < i {
            assert(t[p] == s[p] && t[q] == s[q]);
            assert(spec_key_le(s[p], s[q]));
        } else if p < i {
            assert(t[p] == s[p] && t[q] == s[q + 1]);
            assert(spec_key_le(s[p], s[q + 1]));
        } else {
            assert(t[p] == s[p + 1] && t[q] == s[q + 1]);
            assert(spec_key_le(s[p + 1], s[q + 1]));
        }
    }
}

proof fn lemma_sorted_update(s: Seq<Notification>, i: int, n: Notification)
    requires
        spec_sorted(s),
        0 <= i < s.len(),
        spec_key_eq(s[i], n),
    ensures
        spec_sorted(s.update(i, n)),
{
    let t = s.update(i, n);
    assert forall|p: int, q: int| 0 <= p < q < t.len() implies spec_key_le(t[p], t[q]) by {
        assert(spec_key_le(s[p], s[q]));
    }
}

proof fn lemma_sorted_insert(s: Seq<Notification>, i: int, n: Notification)
    requires
        spec_sorted(s),
        0 <= i <= s.len(),
        forall|j: int| 0 <= j < i ==> spec_key_lt(#[trigger] s[j], n),
        i < s.len() ==> !spec_key_lt(s[i], n),
    ensures
        spec_sorted(s.insert(i, n)),
{
    let t = s.insert(i, n);
    assert forall|p: int, q: int| 0 <= p < q < t.len() implies spec_key_le(t[p], t[q]) by {
        if p < i && q < i {
            assert(t[p] == s[p] && t[q] == s[q]);
            assert(spec_key_le(s[p], s[q]));
        } else if p < i && q == i {
            assert(t[p] == s[p] && t[q] == n);
            assert(spec_key_lt(s[p], n));
        } else if p < i && q > i {
            assert(t[p] == s[p] && t[q] == s[q - 1]);
            assert(spec_key_le(s[p], s[q - 1]));
        } else if p == i && q > i {
            assert(t[p] == n && t[q] == s[q - 1]);
            if i < s.len() {
                assert(!spec_key_lt(s[i], n));
                assert(spec_key_le(n, s[i]));
                assert(q - 1 >= i);
                if q - 1 > i {
                    assert(spec_key_le(s[i], s[q - 1]));
                }
            }
        } else {
            assert(t[p] == s[p - 1] && t[q] == s[q - 1]);
            assert(spec_key_le(s[p - 1], s[q - 1]));
        }
    }
}

} // verus!

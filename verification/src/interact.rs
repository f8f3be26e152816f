//! The interaction resolver: which interactable entities are in range of the
//! player's sensor, the enter and exit events between two frames, and the
//! nearest entity on an explicit interact action.

use crate::input::{just_pressed, struck};
use crate::units::Vec2;
use bevy::input::keyboard::KeyCode;
use bevy::input::ButtonInput;
use vstd::prelude::*;

verus! {

/// What the resolver reports, in the order in which it found it.
#[derive(Clone, Copy, Debug, PartialEq, Eq, Structural)]
pub enum InteractEvents {
    Entered(u64),
    Exited(u64),
    Toggled(u64),
}

/// An interactable entity whose position is known.
#[derive(Clone, Copy, Debug, PartialEq, Eq, Structural)]
pub struct Target {
    pub id: u64,
    pub position: Vec2,
}

/// The sensor's in-range set: the ids of the entities that overlapped it
/// when it was last resolved. Only membership counts.
///
/// The ids live in a `bevy::utils::HashSet`, which is `hashbrown::HashSet`
/// with a hasher of fixed state. Verus does not read it: `in_range_ids` names
/// what it holds, and the private functions of this type that touch it state
/// what hashbrown's methods do to that.
#[verifier::external_body]
#[derive(Debug)]
pub struct Interacter {
    ids: bevy::utils::HashSet<u64>,
}

/// The ids that a sensor holds.
pub uninterp spec fn in_range_ids(sensor: Interacter) -> Set<u64>;

impl View for Interacter {
    type V = Set<u64>;

    open spec fn view(&self) -> Set<u64> {
        in_range_ids(*self)
    }
}

/// Whether `id` is missing from `list`.
pub fn absent(list: &Vec<u64>, id: u64) -> (r: bool)
    ensures
        r == !list@.contains(id),
{
    let mut i: usize = 0;
    while i < list.len()
        invariant
            i <= list.len(),
            forall|k: int| 0 <= k < i ==> list@[k] != id,
        decreases list.len() - i,
    {
        if list[i] == id {
            return false;
        }
        i += 1;
    }
    true
}

impl Interacter {
    /// Calls `HashSet::default`, which makes a set without elements.
    #[verifier::external_body]
    fn empty() -> (sensor: Interacter)
        ensures
            in_range_ids(sensor) == Set::<u64>::empty(),
    {
        Interacter { ids: bevy::utils::HashSet::default() }
    }

    /// Calls `HashSet::is_empty`, which is true exactly when the set has no
    /// element.
    #[verifier::external_body]
    fn set_is_empty(&self) -> (r: bool)
        ensures
            r == (forall|id: u64| !in_range_ids(*self).contains(id)),
    {
        self.ids.is_empty()
    }

    /// Calls `HashSet::contains`, which says whether the value is an element.
    #[verifier::external_body]
    fn set_contains(&self, id: u64) -> (r: bool)
        ensures
            r == in_range_ids(*self).contains(id),
    {
        self.ids.contains(&id)
    }

    /// Calls `HashSet::insert`: the value becomes an element, the others
    /// stay, and the result is true when it was not one before.
    #[verifier::external_body]
    fn set_insert(&mut self, id: u64) -> (fresh: bool)
        ensures
            in_range_ids(*final(self)) == in_range_ids(*old(self)).insert(id),
            fresh == !in_range_ids(*old(self)).contains(id),
    {
        self.ids.insert(id)
    }

    /// Calls `HashSet::iter`, which visits every element once, in an order
    /// that nothing promises, and collects what it visits.
    #[verifier::external_body]
    fn set_items(&self) -> (items: Vec<u64>)
        ensures
            items@.no_duplicates(),
            items@.to_set() == in_range_ids(*self),
    {
        self.ids.iter().copied().collect()
    }

    /// Calls `HashSet::retain`, which keeps exactly the elements for which
    /// its predicate holds: here those that `gone` does not list.
    #[verifier::external_body]
    fn set_retain_absent(&mut self, gone: &Vec<u64>)
        ensures
            in_range_ids(*final(self)) == in_range_ids(*old(self)).difference(gone@.to_set()),
    {
        self.ids.retain(|id| absent(gone, *id));
    }

    /// A sensor with nothing in range.
    pub fn new() -> (sensor: Interacter)
        ensures
            sensor@ == Set::<u64>::empty(),
    {
        Interacter::empty()
    }

    /// A sensor that holds exactly the listed ids.
    pub fn from_ids(ids: &Vec<u64>) -> (sensor: Interacter)
        ensures
            sensor@ == ids@.to_set(),
    {
        let mut sensor = Interacter::empty();
        let mut i: usize = 0;
        while i < ids.len()
            invariant
                i <= ids.len(),
                sensor@ == ids@.take(i as int).to_set(),
            decreases ids.len() - i,
        {
            sensor.set_insert(ids[i]);
            proof {
                let before = ids@.take(i as int);
                let after = ids@.take(i + 1);
                assert(after == before.push(ids@[i as int]));
                assert forall|id: u64| after.to_set().contains(id) == before.to_set().insert(
                    ids@[i as int],
                ).contains(id) by {
                    if after.contains(id) {
                        let k = choose|k: int| 0 <= k < after.len() && after[k] == id;
                        if k < i {
                            assert(before[k] == id);
                        }
                    }
                    if before.contains(id) {
                        let k = choose|k: int| 0 <= k < before.len() && before[k] == id;
                        assert(after[k] == id);
                    }
                    assert(after[i as int] == ids@[i as int]);
                }
                assert(after.to_set() == before.to_set().insert(ids@[i as int]));
            }
            i += 1;
        }
        proof {
            assert(ids@.take(ids.len() as int) == ids@);
        }
        sensor
    }

    /// Whether nothing is in range.
    pub fn is_empty(&self) -> (r: bool)
        ensures
            r == (self@ == Set::<u64>::empty()),
    {
        let r = self.set_is_empty();
        proof {
            if r {
                assert(self@ =~= Set::<u64>::empty());
            } else {
                let id = choose|id: u64| in_range_ids(*self).contains(id);
                assert(self@.contains(id));
            }
        }
        r
    }

    /// Whether the entity is in range.
    pub fn contains(&self, v: &u64) -> (r: bool)
        ensures
            r == self@.contains(*v),
    {
        self.set_contains(*v)
    }

    /// The ids in range, each once, in no particular order.
    pub fn ids(&self) -> (items: Vec<u64>)
        ensures
            items@.no_duplicates(),
            items@.to_set() == self@,
    {
        self.set_items()
    }
}

/// The ids that enter: those of the report that were not in range, each at
/// its first place in the report.
pub open spec fn entered_ids(overlaps: Seq<u64>, known: Set<u64>) -> Seq<u64>
    decreases overlaps.len(),
{
    if overlaps.len() == 0 {
        Seq::empty()
    } else {
        let earlier = overlaps.drop_last();
        let id = overlaps.last();
        if known.contains(id) || earlier.contains(id) {
            entered_ids(earlier, known)
        } else {
            entered_ids(earlier, known).push(id)
        }
    }
}

/// Where the first target with this id stands, if there is one.
pub open spec fn position_of(targets: Seq<Target>, id: u64) -> Option<Vec2>
    decreases targets.len(),
{
    if targets.len() == 0 {
        None
    } else if targets[0].id == id {
        Some(targets[0].position)
    } else {
        position_of(targets.drop_first(), id)
    }
}

/// The square of the straight-line distance between two points.
pub open spec fn dist_sq(a: Vec2, b: Vec2) -> int {
    (a.x - b.x) * (a.x - b.x) + (a.y - b.y) * (a.y - b.y)
}

/// The entities that an interact action chooses among: those of the report
/// whose position is known.
pub open spec fn candidate_ids(overlaps: Seq<u64>, targets: Seq<Target>) -> Set<u64> {
    Set::new(|id: u64| overlaps.contains(id) && position_of(targets, id) is Some)
}

/// How far the candidate `id` is from the player, squared.
pub open spec fn reach_sq(player: Vec2, targets: Seq<Target>, id: u64) -> int {
    dist_sq(player, position_of(targets, id)->0)
}

/// The ranking of candidates: nearer first, the smaller id first among
/// equally near ones.
pub open spec fn ranks_before(player: Vec2, targets: Seq<Target>, a: u64, b: u64) -> bool {
    reach_sq(player, targets, a) < reach_sq(player, targets, b) || (reach_sq(player, targets, a)
        == reach_sq(player, targets, b) && a <= b)
}

/// `id` is the candidate that ranks before all others.
pub open spec fn is_nearest(player: Vec2, overlaps: Seq<u64>, targets: Seq<Target>, id: u64) -> bool {
    &&& candidate_ids(overlaps, targets).contains(id)
    &&& forall|other: u64| #[trigger]
        candidate_ids(overlaps, targets).contains(other) ==> ranks_before(
            player,
            targets,
            id,
            other,
        )
}

/// How many toggle events a pass emits: one if the action fired and there is
/// a candidate.
pub open spec fn toggle_count(overlaps: Seq<u64>, targets: Seq<Target>, interact: bool) -> int {
    if interact && exists|id: u64| candidate_ids(overlaps, targets).contains(id) {
        1
    } else {
        0
    }
}

/// `part` holds one exit event for each id of `gone`, and nothing else.
pub open spec fn lists_exits(part: Seq<InteractEvents>, gone: Set<u64>) -> bool {
    &&& forall|i: int|
        0 <= i < part.len() ==> (#[trigger] part[i] matches InteractEvents::Exited(id)
            && gone.contains(id))
    &&& forall|i: int, j: int| 0 <= i < j < part.len() ==> part[i] != part[j]
    &&& forall|id: u64| gone.contains(id) ==> part.contains(InteractEvents::Exited(id))
}

/// One resolution pass, from the set `before` to the set `after`.
///
/// The events come in three runs. First one `Entered` for each id that the
/// report adds, in the report's order. Then one `Exited` for each id that the
/// report no longer holds, in no promised order. Last, if the interact action
/// fired and a candidate exists, one `Toggled` for the nearest candidate.
/// Without the action the set becomes the report; with it, the candidates.
pub open spec fn resolved(
    before: Set<u64>,
    player: Vec2,
    overlaps: Seq<u64>,
    targets: Seq<Target>,
    interact: bool,
    events: Seq<InteractEvents>,
    after: Set<u64>,
) -> bool {
    let entered = entered_ids(overlaps, before);
    let n = entered.len() as int;
    let t = toggle_count(overlaps, targets, interact);
    &&& after == if interact {
        candidate_ids(overlaps, targets)
    } else {
        overlaps.to_set()
    }
    &&& events.len() >= n + t
    &&& forall|i: int| 0 <= i < n ==> #[trigger] events[i] == InteractEvents::Entered(entered[i])
    &&& lists_exits(events.subrange(n, events.len() - t), before.difference(overlaps.to_set()))
    &&& t == 1 ==> (events.last() matches InteractEvents::Toggled(id) && is_nearest(
        player,
        overlaps,
        targets,
        id,
    ))
}

/// The position of the first target with this id.
pub fn find_position(targets: &Vec<Target>, id: u64) -> (r: Option<Vec2>)
    ensures
        r == position_of(targets@, id),
{
    let mut i: usize = 0;
    assert(targets@.subrange(0, targets.len() as int) == targets@);
    while i < targets.len()
        invariant
            i <= targets.len(),
            position_of(targets@, id) == position_of(
                targets@.subrange(i as int, targets.len() as int),
                id,
            ),
        decreases targets.len() - i,
    {
        let t = targets[i];
        if t.id == id {
            return Some(t.position);
        }
        proof {
            let rest = targets@.subrange(i as int, targets.len() as int);
            assert(rest.drop_first() == targets@.subrange(i + 1, targets.len() as int));
        }
        i += 1;
    }
    None
}

/// The square of the distance between two points.
pub fn distance_squared(a: Vec2, b: Vec2) -> (d: u128)
    ensures
        d == dist_sq(a, b),
{
    let dx: i128 = a.x as i128 - b.x as i128;
    let dy: i128 = a.y as i128 - b.y as i128;
    assert(0 <= dx * dx <= 0x1_0000_0000_0000_0000) by (nonlinear_arith)
        requires
            -0x1_0000_0000 <= dx <= 0x1_0000_0000,
    ;
    assert(0 <= dy * dy <= 0x1_0000_0000_0000_0000) by (nonlinear_arith)
        requires
            -0x1_0000_0000 <= dy <= 0x1_0000_0000,
    ;
    (dx * dx + dy * dy) as u128
}

proof fn lemma_take_next(s: Seq<u64>, k: int)
    requires
        0 <= k < s.len(),
    ensures
        s.take(k + 1).drop_last() == s.take(k),
        s.take(k + 1).last() == s[k],
        forall|x: u64| #[trigger] s.take(k + 1).contains(x) <==> (s.take(k).contains(x) || x == s[k]),
{
    let longer = s.take(k + 1);
    let shorter = s.take(k);
    assert(longer.drop_last() == shorter);
    assert forall|x: u64| #[trigger] longer.contains(x) <==> (shorter.contains(x) || x == s[k]) by {
        if longer.contains(x) {
            let m = choose|m: int| 0 <= m < longer.len() && longer[m] == x;
            if m < k {
                assert(shorter[m] == x);
            }
        }
        if shorter.contains(x) {
            let m = choose|m: int| 0 <= m < shorter.len() && shorter[m] == x;
            assert(longer[m] == x);
        }
        assert(longer[k] == s[k]);
    }
}

/// The candidates as a set of their own, and the one that ranks first.
fn rerank(player: Vec2, overlaps: &Vec<u64>, targets: &Vec<Target>) -> (r: (
    Interacter,
    Option<u64>,
))
    ensures
        r.0@ == candidate_ids(overlaps@, targets@),
        match r.1 {
            Some(id) => is_nearest(player, overlaps@, targets@, id),
            None => forall|id: u64| !candidate_ids(overlaps@, targets@).contains(id),
        },
{
    let mut fresh = Interacter::empty();
    let mut best: Option<u64> = None;
    let mut best_sq: u128 = 0;
    let mut k: usize = 0;
    assert(candidate_ids(overlaps@.take(0), targets@) == Set::<u64>::empty());
    while k < overlaps.len()
        invariant
            k <= overlaps.len(),
            fresh@ == candidate_ids(overlaps@.take(k as int), targets@),
            match best {
                Some(b) => fresh@.contains(b) && best_sq == reach_sq(player, targets@, b)
                    && forall|other: u64| #[trigger]
                    fresh@.contains(other) ==> ranks_before(player, targets@, b, other),
                None => forall|id: u64| !fresh@.contains(id),
            },
        decreases overlaps.len() - k,
    {
        let id = overlaps[k];
        proof {
            lemma_take_next(overlaps@, k as int);
        }
        let ghost held = fresh@;
        match find_position(targets, id) {
            Some(position) => {
                fresh.set_insert(id);
                let d = distance_squared(player, position);
                let nearer = match best {
                    Some(b) => d < best_sq || (d == best_sq && id < b),
                    None => true,
                };
                if nearer {
                    best = Some(id);
                    best_sq = d;
                }
                assert(fresh@ == candidate_ids(overlaps@.take(k + 1), targets@));
            },
            None => {
                assert(held == candidate_ids(overlaps@.take(k + 1), targets@));
            },
        }
        k += 1;
    }
    assert(overlaps@.take(overlaps.len() as int) == overlaps@);
    (fresh, best)
}

/// One resolution pass of the sensor against the engine's overlap report.
///
/// `overlaps` lists the entities that overlap the sensor now, `targets` the
/// interactable entities whose position is known; the interact action fires
/// in the frame in which the key `interact` went down. Returns the events of
/// the pass and leaves the new in-range set in `sensor`.
pub fn interact_system(
    player: Vec2,
    overlaps: &Vec<u64>,
    sensor: &mut Interacter,
    targets: &Vec<Target>,
    kb: &ButtonInput<KeyCode>,
    interact: KeyCode,
) -> (events: Vec<InteractEvents>)
    ensures
        resolved(
            old(sensor)@,
            player,
            overlaps@,
            targets@,
            struck(*kb, interact),
            events@,
            final(sensor)@,
        ),
{
    let mut events: Vec<InteractEvents> = Vec::new();
    let ghost before = sensor@;
    let ghost live = overlaps@.to_set();
    if sensor.is_empty() && overlaps.len() == 0 {
        proof {
            assert(live == Set::<u64>::empty());
            assert(candidate_ids(overlaps@, targets@) == Set::<u64>::empty());
            assert(before.difference(live) == Set::<u64>::empty());
            assert(events@.subrange(0, 0) == Seq::<InteractEvents>::empty());
        }
        return events;
    }
    let mut i: usize = 0;
    assert(overlaps@.take(0).to_set() == Set::<u64>::empty());
    assert(before.union(Set::<u64>::empty()) == before);
    while i < overlaps.len()
        invariant
            i <= overlaps.len(),
            sensor@ == before.union(overlaps@.take(i as int).to_set()),
            events@.len() == entered_ids(overlaps@.take(i as int), before).len(),
            forall|m: int|
                0 <= m < events@.len() ==> #[trigger] events@[m] == InteractEvents::Entered(
                    entered_ids(overlaps@.take(i as int), before)[m],
                ),
        decreases overlaps.len() - i,
    {
        let id = overlaps[i];
        proof {
            lemma_take_next(overlaps@, i as int);
        }
        if !sensor.set_contains(id) {
            events.push(InteractEvents::Entered(id));
            sensor.set_insert(id);
        }
        assert(sensor@ == before.union(overlaps@.take(i + 1).to_set()));
        i += 1;
    }
    assert(overlaps@.take(overlaps.len() as int) == overlaps@);
    let ghost entered = events@;
    let ghost arrivals = entered_ids(overlaps@, before);
    assert(forall|m: int|
        0 <= m < entered.len() ==> #[trigger] entered[m] == InteractEvents::Entered(arrivals[m]));
    let held = sensor.set_items();
    let mut gone: Vec<u64> = Vec::new();
    let ghost mut from: Seq<int> = Seq::empty();
    let mut j: usize = 0;
    while j < held.len()
        invariant
            j <= held.len(),
            held@.no_duplicates(),
            events@.len() == entered.len() + gone@.len(),
            from.len() == gone@.len(),
            forall|m: int| 0 <= m < entered.len() ==> events@[m] == entered[m],
            forall|m: int|
                0 <= m < gone@.len() ==> #[trigger] events@[entered.len() + m]
                    == InteractEvents::Exited(gone@[m]),
            forall|m: int|
                0 <= m < gone@.len() ==> 0 <= #[trigger] from[m] < j && held@[from[m]] == gone@[m]
                    && !overlaps@.contains(gone@[m]),
            forall|m: int, n: int| 0 <= m < n < gone@.len() ==> from[m] < from[n],
            forall|m: int|
                0 <= m < j && !overlaps@.contains(#[trigger] held@[m]) ==> gone@.contains(held@[m]),
        decreases held.len() - j,
    {
        let id = held[j];
        let ghost listed = gone@;
        if absent(overlaps, id) {
            events.push(InteractEvents::Exited(id));
            gone.push(id);
            proof {
                from = from.push(j as int);
                assert(gone@[listed.len() as int] == id);
                assert forall|m: int| 0 <= m <= j && !overlaps@.contains(
                    #[trigger] held@[m],
                ) implies gone@.contains(held@[m]) by {
                    if m < j {
                        assert(listed.contains(held@[m]));
                        let w = choose|w: int| 0 <= w < listed.len() && listed[w] == held@[m];
                        assert(gone@[w] == held@[m]);
                    }
                }
            }
        }
        j += 1;
    }
    sensor.set_retain_absent(&gone);
    proof {
        let merged = before.union(live);
        assert(held@.to_set() == merged);
        assert forall|id: u64| gone@.to_set().contains(id) <==> (merged.contains(id)
            && !live.contains(id)) by {
            if gone@.contains(id) {
                let m = choose|m: int| 0 <= m < gone@.len() && gone@[m] == id;
                assert(held@[from[m]] == id);
                assert(held@.contains(id));
            }
            if merged.contains(id) && !live.contains(id) {
                assert(held@.to_set().contains(id));
                let m = choose|m: int| 0 <= m < held@.len() && held@[m] == id;
                assert(gone@.contains(held@[m]));
            }
        }
        assert(sensor@ == live);
        let part = events@.subrange(entered.len() as int, events@.len() as int);
        assert forall|a: int, b: int| 0 <= a < b < part.len() implies part[a] != part[b] by {
            assert(part[a] == events@[entered.len() + a]);
            assert(part[b] == events@[entered.len() + b]);
            assert(from[a] < from[b]);
        }
        assert forall|id: u64| before.difference(live).contains(id) implies part.contains(
            InteractEvents::Exited(id),
        ) by {
            assert(gone@.to_set().contains(id));
            let m = choose|m: int| 0 <= m < gone@.len() && gone@[m] == id;
            assert(part[m] == events@[entered.len() + m]);
        }
        assert forall|m: int| 0 <= m < part.len() implies (#[trigger] part[m]
            matches InteractEvents::Exited(id) && before.difference(live).contains(id)) by {
            assert(part[m] == events@[entered.len() + m]);
            assert(gone@.contains(gone@[m]));
            assert(gone@.to_set().contains(gone@[m]));
            assert(before.union(live).contains(gone@[m]) && !live.contains(gone@[m]));
        }
        assert(lists_exits(part, before.difference(live)));
    }
    if just_pressed(kb, interact) {
        let ghost exits = events@.subrange(entered.len() as int, events@.len() as int);
        let (fresh, nearest) = rerank(player, overlaps, targets);
        *sensor = fresh;
        match nearest {
            Some(id) => {
                events.push(InteractEvents::Toggled(id));
                proof {
                    assert(candidate_ids(overlaps@, targets@).contains(id));
                    assert(events@.subrange(entered.len() as int, events@.len() - 1) == exits);
                }
            },
            None => {},
        }
    }
    proof {
        assert forall|m: int| 0 <= m < arrivals.len() implies #[trigger] events@[m]
            == InteractEvents::Entered(arrivals[m]) by {
            assert(events@[m] == entered[m]);
        }
    }
    events
}

/// What `entered_ids` holds: the ids of the report that were not known, each
/// once.
pub proof fn lemma_entered_ids(overlaps: Seq<u64>, known: Set<u64>)
    ensures
        entered_ids(overlaps, known).no_duplicates(),
        forall|id: u64| #[trigger]
            entered_ids(overlaps, known).contains(id) <==> (overlaps.contains(id)
                && !known.contains(id)),
    decreases overlaps.len(),
{
    let all = entered_ids(overlaps, known);
    if overlaps.len() > 0 {
        let earlier = overlaps.drop_last();
        let last = overlaps.last();
        let head = entered_ids(earlier, known);
        lemma_entered_ids(earlier, known);
        assert forall|id: u64| #[trigger] all.contains(id) <==> (overlaps.contains(id)
            && !known.contains(id)) by {
            if overlaps.contains(id) {
                let m = choose|m: int| 0 <= m < overlaps.len() && overlaps[m] == id;
                if m < earlier.len() {
                    assert(earlier[m] == id);
                }
            }
            if earlier.contains(id) {
                let m = choose|m: int| 0 <= m < earlier.len() && earlier[m] == id;
                assert(overlaps[m] == id);
            }
            assert(overlaps[overlaps.len() - 1] == last);
            if all.contains(id) {
                let m = choose|m: int| 0 <= m < all.len() && all[m] == id;
                if m < head.len() {
                    assert(head[m] == id);
                }
            }
            if head.contains(id) {
                let m = choose|m: int| 0 <= m < head.len() && head[m] == id;
                assert(all[m] == id);
            }
            if !(known.contains(last) || earlier.contains(last)) {
                assert(all[head.len() as int] == last);
            }
        }
        assert forall|a: int, b: int| 0 <= a < b < all.len() implies all[a] != all[b] by {
            if b == head.len() {
                assert(head[a] == all[a]);
                assert(head.contains(all[a]));
            }
        }
    }
}

/// The enter and exit events of one pass are exactly the difference between
/// the set before it and the overlap report, in both directions: an id
/// enters when the report has it and the set had not, leaves when the set
/// had it and the report has not, and no id does either twice. Without an
/// interact action the report is the set after the pass, and no other event
/// comes.
pub proof fn lemma_events_are_set_difference(
    before: Set<u64>,
    player: Vec2,
    overlaps: Seq<u64>,
    targets: Seq<Target>,
    interact: bool,
    events: Seq<InteractEvents>,
    after: Set<u64>,
)
    requires
        resolved(before, player, overlaps, targets, interact, events, after),
    ensures
        forall|id: u64| #[trigger]
            events.contains(InteractEvents::Entered(id)) <==> (overlaps.to_set().contains(id)
                && !before.contains(id)),
        forall|id: u64| #[trigger]
            events.contains(InteractEvents::Exited(id)) <==> (before.contains(id)
                && !overlaps.to_set().contains(id)),
        events.no_duplicates(),
        !interact ==> after == overlaps.to_set(),
        !interact ==> forall|i: int| 0 <= i < events.len() ==> !(#[trigger] events[i] is Toggled),
{
    let arrivals = entered_ids(overlaps, before);
    let n = arrivals.len() as int;
    let t = toggle_count(overlaps, targets, interact);
    let part = events.subrange(n, events.len() - t);
    let gone = before.difference(overlaps.to_set());
    lemma_entered_ids(overlaps, before);
    assert forall|i: int| n <= i < events.len() - t implies (#[trigger] events[i]
        matches InteractEvents::Exited(id) && gone.contains(id)) by {
        assert(part[i - n] == events[i]);
    }
    assert forall|id: u64| #[trigger]
        events.contains(InteractEvents::Entered(id)) <==> (overlaps.to_set().contains(id)
            && !before.contains(id)) by {
        if events.contains(InteractEvents::Entered(id)) {
            let m = choose|m: int| 0 <= m < events.len() && events[m] == InteractEvents::Entered(id);
            assert(m < n);
            assert(arrivals[m] == id);
            assert(arrivals.contains(id));
        }
        if arrivals.contains(id) {
            let m = choose|m: int| 0 <= m < arrivals.len() && arrivals[m] == id;
            assert(events[m] == InteractEvents::Entered(id));
        }
    }
    assert forall|id: u64| #[trigger]
        events.contains(InteractEvents::Exited(id)) <==> (before.contains(id)
            && !overlaps.to_set().contains(id)) by {
        if events.contains(InteractEvents::Exited(id)) {
            let m = choose|m: int| 0 <= m < events.len() && events[m] == InteractEvents::Exited(id);
            assert(n <= m < events.len() - t);
        }
        if gone.contains(id) {
            let m = choose|m: int| 0 <= m < part.len() && part[m] == InteractEvents::Exited(id);
            assert(events[n + m] == part[m]);
        }
    }
    assert forall|a: int, b: int| 0 <= a < b < events.len() implies events[a] != events[b] by {
        if b < n {
            assert(arrivals[a] != arrivals[b]);
        } else if a >= n && b < events.len() - t {
            assert(part[a - n] == events[a]);
            assert(part[b - n] == events[b]);
        }
    }
}

/// After every pass the in-range set lies within the overlap report.
pub proof fn lemma_in_range_is_reported(
    before: Set<u64>,
    player: Vec2,
    overlaps: Seq<u64>,
    targets: Seq<Target>,
    interact: bool,
    events: Seq<InteractEvents>,
    after: Set<u64>,
)
    requires
        resolved(before, player, overlaps, targets, interact, events, after),
    ensures
        after.subset_of(overlaps.to_set()),
{
}

/// A pass whose overlap report is what the sensor already holds, without an
/// interact action, emits nothing and leaves the set as it is.
pub proof fn lemma_steady_pass_is_silent(
    before: Set<u64>,
    player: Vec2,
    overlaps: Seq<u64>,
    targets: Seq<Target>,
    events: Seq<InteractEvents>,
    after: Set<u64>,
)
    requires
        overlaps.to_set() == before,
        resolved(before, player, overlaps, targets, false, events, after),
    ensures
        events.len() == 0,
        after == before,
{
    lemma_events_are_set_difference(before, player, overlaps, targets, false, events, after);
    if events.len() > 0 {
        let e = events[0];
        assert(events.contains(e));
        match e {
            InteractEvents::Entered(id) => {
                assert(events.contains(InteractEvents::Entered(id)));
            },
            InteractEvents::Exited(id) => {
                assert(events.contains(InteractEvents::Exited(id)));
            },
            InteractEvents::Toggled(id) => {},
        }
    }
}

/// The same over any number of frames: `sets[k]` is the in-range set before
/// pass `k` and `sets[k + 1]` the one after it. While the report stays what
/// the sensor held at the start, every pass is silent and every set is the
/// first one.
pub proof fn lemma_steady_report_is_silent(
    player: Vec2,
    overlaps: Seq<u64>,
    targets: Seq<Target>,
    sets: Seq<Set<u64>>,
    events: Seq<Seq<InteractEvents>>,
    frames: nat,
)
    requires
        frames <= events.len(),
        sets.len() == events.len() + 1,
        overlaps.to_set() == sets[0],
        forall|k: int|
            0 <= k < events.len() ==> resolved(
                #[trigger] sets[k],
                player,
                overlaps,
                targets,
                false,
                events[k],
                sets[k + 1],
            ),
    ensures
        forall|k: int| 0 <= k < frames ==> (#[trigger] events[k]).len() == 0,
        forall|k: int| 0 <= k <= frames ==> #[trigger] sets[k] == sets[0],
    decreases frames,
{
    if frames > 0 {
        let last = frames - 1;
        lemma_steady_report_is_silent(player, overlaps, targets, sets, events, last as nat);
        assert(sets[last] == sets[0]);
        lemma_steady_pass_is_silent(
            sets[last],
            player,
            overlaps,
            targets,
            events[last],
            sets[last + 1],
        );
    }
}

impl Default for Interacter {
    fn default() -> (sensor: Interacter)
        ensures
            sensor@ == Set::<u64>::empty(),
    {
        Interacter::empty()
    }
}

} // verus!

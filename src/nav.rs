//! The navigation engine: recognizes the current scene in a screen sample and
//! decides, round by round, which click moves the application toward a target
//! scene. The caller samples the screen, performs the decided step and comes
//! back with the next sample.

use crate::scene::{scene_active, Point, Reading, Scene, Transition};
use vstd::prelude::*;

verus! {

/// How one navigation ends.
#[derive(Clone, Debug)]
pub enum NavResult {
    /// The target was reached and carries no handover tag.
    Success,
    /// The target was reached and hands over to the task module named by its
    /// tag.
    Handover(String, Option<String>),
    /// The round cap ran out before the target was reached.
    Failed,
}

/// What the caller does next.
#[derive(Clone, Debug)]
pub enum NavStep {
    /// Click `at`, then wait `settle_ms` before the next sample.
    Click { at: Point, settle_ms: u32 },
    /// Wait `ms` before the next sample.
    Wait { ms: u32 },
    Finished(NavResult),
}

/// Why a catalog was refused.
#[derive(Clone, Debug)]
pub enum CatalogError {
    /// Two scenes share this id.
    DuplicateId(String),
    /// A transition leads to this id, which no scene has.
    UnknownTarget(String),
}

/// The state of one navigation toward `target`.
#[derive(Clone, Debug)]
pub struct Navigation {
    pub target: String,
    /// Rounds evaluated so far.
    pub rounds: u32,
    /// The scene clicked from in the last round, if the last round clicked.
    pub last_click: Option<usize>,
}

/// The catalog, in its declared order, with the round policy.
pub struct NavEngine {
    pub scenes: Vec<Scene>,
    /// Rounds evaluated before a navigation gives up.
    pub round_cap: u32,
    /// Wait before resampling when no click is due.
    pub idle_ms: u32,
}

pub open spec fn ids_unique(scenes: Seq<Scene>) -> bool {
    forall|i: int, j: int|
        0 <= i < j < scenes.len() ==> #[trigger] scenes[i].id@ != #[trigger] scenes[j].id@
}

pub open spec fn has_id(scenes: Seq<Scene>, id: Seq<char>) -> bool {
    exists|i: int| 0 <= i < scenes.len() && #[trigger] scenes[i].id@ == id
}

pub open spec fn targets_known(scenes: Seq<Scene>) -> bool {
    forall|i: int, k: int|
        0 <= i < scenes.len() && 0 <= k < scenes[i].transitions@.len() ==> has_id(
            scenes,
            #[trigger] scenes[i].transitions@[k].target@,
        )
}

/// A catalog is well formed when its ids are unique and every transition
/// leads to a scene of the catalog.
pub open spec fn catalog_ok(scenes: Seq<Scene>) -> bool {
    ids_unique(scenes) && targets_known(scenes)
}

/// The readings of scene `i`'s anchors in a sample; a missing row is empty.
pub open spec fn sample_row(sample: Seq<Vec<Reading>>, i: int) -> Seq<Reading> {
    if 0 <= i < sample.len() {
        sample[i]@
    } else {
        Seq::empty()
    }
}

/// The first scene from index `i` on that is active in `sample`.
pub open spec fn first_active_from(scenes: Seq<Scene>, sample: Seq<Vec<Reading>>, i: int) -> Option<
    int,
>
    decreases scenes.len() - i,
{
    if i < 0 || i >= scenes.len() {
        None
    } else if scene_active(scenes[i], sample_row(sample, i)) {
        Some(i)
    } else {
        first_active_from(scenes, sample, i + 1)
    }
}

/// The first transition from index `k` on that leads to `target`.
pub open spec fn first_route_from(ts: Seq<Transition>, target: Seq<char>, k: int) -> Option<int>
    decreases ts.len() - k,
{
    if k < 0 || k >= ts.len() {
        None
    } else if ts[k].target@ == target {
        Some(k)
    } else {
        first_route_from(ts, target, k + 1)
    }
}

/// Index of the first scene from index `i` on with id `id`.
pub open spec fn index_of_from(scenes: Seq<Scene>, id: Seq<char>, i: int) -> Option<int>
    decreases scenes.len() - i,
{
    if i < 0 || i >= scenes.len() {
        None
    } else if scenes[i].id@ == id {
        Some(i)
    } else {
        index_of_from(scenes, id, i + 1)
    }
}

pub open spec fn opt_min(a: Option<nat>, b: Option<nat>) -> Option<nat> {
    match (a, b) {
        (Some(x), Some(y)) => Some(if x <= y { x } else { y }),
        (Some(x), None) => Some(x),
        (None, y) => y,
    }
}

/// Transitions needed to reach the target by taking `t` first, given the
/// distance `dist[j]` of each scene `j` to the target.
pub open spec fn via_cost(scenes: Seq<Scene>, dist: Seq<Option<nat>>, t: Transition) -> Option<nat> {
    match index_of_from(scenes, t.target@, 0) {
        Some(j) => match dist[j] {
            Some(d) => Some(d + 1),
            None => None,
        },
        None => None,
    }
}

/// The least cost of the transitions `ts[k..]`.
pub open spec fn best_cost_from(
    scenes: Seq<Scene>,
    dist: Seq<Option<nat>>,
    ts: Seq<Transition>,
    k: int,
) -> Option<nat>
    decreases ts.len() - k,
{
    if k < 0 || k >= ts.len() {
        None
    } else {
        opt_min(via_cost(scenes, dist, ts[k]), best_cost_from(scenes, dist, ts, k + 1))
    }
}

/// For each scene, the fewest transitions that lead from it to the scene
/// with id `target` using at most `f` of them; `None` when there is no such
/// path.
pub open spec fn distances(scenes: Seq<Scene>, target: Seq<char>, f: nat) -> Seq<Option<nat>>
    decreases f,
{
    if f == 0 {
        Seq::new(scenes.len(), |i: int| if scenes[i].id@ == target { Some(0nat) } else { None })
    } else {
        let prev = distances(scenes, target, (f - 1) as nat);
        Seq::new(
            scenes.len(),
            |i: int|
                if scenes[i].id@ == target {
                    Some(0nat)
                } else {
                    opt_min(prev[i], best_cost_from(scenes, prev, scenes[i].transitions@, 0))
                },
        )
    }
}

/// The first transition from index `k` on whose cost is `c`.
pub open spec fn first_with_cost_from(
    scenes: Seq<Scene>,
    dist: Seq<Option<nat>>,
    ts: Seq<Transition>,
    c: nat,
    k: int,
) -> Option<int>
    decreases ts.len() - k,
{
    if k < 0 || k >= ts.len() {
        None
    } else if via_cost(scenes, dist, ts[k]) == Some(c) {
        Some(k)
    } else {
        first_with_cost_from(scenes, dist, ts, c, k + 1)
    }
}

/// The transition that scene `i` takes toward `target`: the first one that
/// leads there directly; failing that, the first one on a shortest path.
/// Paths of up to one transition fewer than there are scenes are searched,
/// which covers every path that visits no scene twice.
pub open spec fn chosen_transition(scenes: Seq<Scene>, i: int, target: Seq<char>) -> Option<int> {
    let ts = scenes[i].transitions@;
    match first_route_from(ts, target, 0) {
        Some(k) => Some(k),
        None => {
            let dist = distances(scenes, target, (scenes.len() - 1) as nat);
            match best_cost_from(scenes, dist, ts, 0) {
                Some(c) => first_with_cost_from(scenes, dist, ts, c, 0),
                None => None,
            }
        },
    }
}

pub open spec fn nat_opts(s: Seq<Option<usize>>) -> Seq<Option<nat>> {
    s.map_values(
        |o: Option<usize>|
            match o {
                Some(d) => Some(d as nat),
                None => None,
            },
    )
}

proof fn lemma_index_of_in_range(scenes: Seq<Scene>, id: Seq<char>, i: int)
    requires
        0 <= i,
    ensures
        index_of_from(scenes, id, i) matches Some(j) ==> i <= j < scenes.len() && scenes[j].id@
            == id,
    decreases scenes.len() - i,
{
    if i < scenes.len() {
        lemma_index_of_in_range(scenes, id, i + 1);
    }
}

/// Costs over a table whose distances are below `b` stay at most `b`.
proof fn lemma_best_cost_bound(
    scenes: Seq<Scene>,
    dist: Seq<Option<nat>>,
    ts: Seq<Transition>,
    k: int,
    b: nat,
)
    requires
        0 <= k,
        dist.len() == scenes.len(),
        forall|j: int| 0 <= j < dist.len() ==> (#[trigger] dist[j] matches Some(d) ==> d < b),
    ensures
        best_cost_from(scenes, dist, ts, k) matches Some(c) ==> c <= b,
    decreases ts.len() - k,
{
    if k < ts.len() {
        lemma_best_cost_bound(scenes, dist, ts, k + 1, b);
        lemma_index_of_in_range(scenes, ts[k].target@, 0);
    }
}

/// A distance found within `f` transitions is at most `f`.
proof fn lemma_distances_bound(scenes: Seq<Scene>, target: Seq<char>, f: nat)
    ensures
        distances(scenes, target, f).len() == scenes.len(),
        forall|j: int|
            0 <= j < scenes.len() ==> (#[trigger] distances(scenes, target, f)[j] matches Some(d)
                ==> d <= f),
    decreases f,
{
    if f > 0 {
        let prev = distances(scenes, target, (f - 1) as nat);
        lemma_distances_bound(scenes, target, (f - 1) as nat);
        assert forall|j: int| 0 <= j < scenes.len() implies (#[trigger] distances(
            scenes,
            target,
            f,
        )[j] matches Some(d) ==> d <= f) by {
            lemma_best_cost_bound(scenes, prev, scenes[j].transitions@, 0, f);
        }
    }
}

/// The outcome of arriving at `scene`.
pub open spec fn arrival(scene: Scene) -> NavResult {
    match scene.handler {
        Some(tag) => NavResult::Handover(scene.id, Some(tag)),
        None => NavResult::Success,
    }
}

fn find_id(scenes: &Vec<Scene>, id: &String) -> (r: Option<usize>)
    ensures
        match r {
            Some(i) => i < scenes@.len() && scenes@[i as int].id@ == id@,
            None => !has_id(scenes@, id@),
        },
{
    let mut i: usize = 0;
    while i < scenes.len()
        invariant
            i <= scenes@.len(),
            forall|j: int| 0 <= j < i ==> #[trigger] scenes@[j].id@ != id@,
        decreases scenes.len() - i,
    {
        if scenes[i].id == *id {
            return Some(i);
        }
        i = i + 1;
    }
    None
}

/// Checks that ids are unique and that every transition leads to a scene of
/// the catalog.
pub fn check_catalog(scenes: &Vec<Scene>) -> (r: Result<(), CatalogError>)
    ensures
        r is Ok <==> catalog_ok(scenes@),
        r matches Err(CatalogError::DuplicateId(id)) ==> exists|i: int, j: int|
            0 <= i < j < scenes@.len() && scenes@[i].id@ == id@ && scenes@[j].id@ == id@,
        r matches Err(CatalogError::UnknownTarget(t)) ==> !has_id(scenes@, t@) && exists|
            i: int,
            k: int,
        |
            0 <= i < scenes@.len() && 0 <= k < scenes@[i].transitions@.len()
                && scenes@[i].transitions@[k].target@ == t@,
{
    let n = scenes.len();
    let mut i: usize = 0;
    while i < n
        invariant
            n == scenes@.len(),
            i <= n,
            forall|a: int, b: int|
                0 <= a < b < n && a < i ==> #[trigger] scenes@[a].id@ != #[trigger] scenes@[b].id@,
        decreases n - i,
    {
        let mut j: usize = i + 1;
        while j < n
            invariant
                n == scenes@.len(),
                i < n,
                i + 1 <= j <= n,
                forall|a: int, b: int|
                    0 <= a < b < n && a < i ==> #[trigger] scenes@[a].id@ != #[trigger] scenes@[b].id@,
                forall|b: int| i < b < j ==> scenes@[i as int].id@ != #[trigger] scenes@[b].id@,
            decreases n - j,
        {
            if scenes[i].id == scenes[j].id {
                return Err(CatalogError::DuplicateId(scenes[i].id.clone()));
            }
            j = j + 1;
        }
        i = i + 1;
    }
    let mut i: usize = 0;
    while i < n
        invariant
            n == scenes@.len(),
            i <= n,
            ids_unique(scenes@),
            forall|a: int, k: int|
                0 <= a < i && 0 <= k < scenes@[a].transitions@.len() ==> has_id(
                    scenes@,
                    #[trigger] scenes@[a].transitions@[k].target@,
                ),
        decreases n - i,
    {
        let ts = &scenes[i].transitions;
        let mut k: usize = 0;
        while k < ts.len()
            invariant
                n == scenes@.len(),
                i < n,
                *ts == scenes@[i as int].transitions,
                k <= ts@.len(),
                ids_unique(scenes@),
                forall|a: int, k2: int|
                    0 <= a < i && 0 <= k2 < scenes@[a].transitions@.len() ==> has_id(
                        scenes@,
                        #[trigger] scenes@[a].transitions@[k2].target@,
                    ),
                forall|k2: int| 0 <= k2 < k ==> has_id(scenes@, #[trigger] ts@[k2].target@),
            decreases ts.len() - k,
        {
            if find_id(scenes, &ts[k].target).is_none() {
                return Err(CatalogError::UnknownTarget(ts[k].target.clone()));
            }
            k = k + 1;
        }
        i = i + 1;
    }
    Ok(())
}


impl NavEngine {
    /// The step decided in a round where the sample shows scene `current`
    /// (`None`: no scene recognized), and the navigation state after it.
    ///
    /// Once `round_cap` rounds have been evaluated the navigation fails.
    /// Otherwise the round counts, and: on the target, the navigation
    /// finishes with its arrival outcome; on a scene with a way toward the
    /// target, its chosen transition is clicked, unless the previous round
    /// clicked from this same scene, in which case the engine waits one round
    /// for the screen to change; anywhere else it waits.
    pub open spec fn next(&self, nav: Navigation, current: Option<int>) -> (Navigation, NavStep) {
        if nav.rounds >= self.round_cap {
            (nav, NavStep::Finished(NavResult::Failed))
        } else {
            let rounds = (nav.rounds + 1) as u32;
            let waited = Navigation { target: nav.target, rounds, last_click: None };
            let wait = NavStep::Wait { ms: self.idle_ms };
            match current {
                Some(i) => if 0 <= i < self.scenes@.len() {
                    let scene = self.scenes@[i];
                    if scene.id@ == nav.target@ {
                        (waited, NavStep::Finished(arrival(scene)))
                    } else {
                        match chosen_transition(self.scenes@, i, nav.target@) {
                            Some(k) => if nav.last_click == Some(i as usize) {
                                (waited, wait)
                            } else {
                                let t = scene.transitions@[k];
                                (
                                    Navigation {
                                        target: nav.target,
                                        rounds,
                                        last_click: Some(i as usize),
                                    },
                                    NavStep::Click { at: t.coords, settle_ms: t.post_delay_ms },
                                )
                            },
                            None => (waited, wait),
                        }
                    }
                } else {
                    (waited, wait)
                },
                None => (waited, wait),
            }
        }
    }

    /// The scene that a sample shows: the first active one in catalog order.
    pub open spec fn detected(&self, sample: Seq<Vec<Reading>>) -> Option<int> {
        first_active_from(self.scenes@, sample, 0)
    }

    /// The outcome of a navigation from state `nav` fed the screen samples
    /// `samples` in order; `None` when the samples run out first.
    pub open spec fn run(&self, nav: Navigation, samples: Seq<Vec<Vec<Reading>>>) -> Option<
        NavResult,
    >
        decreases samples.len(),
    {
        if samples.len() == 0 {
            None
        } else {
            let (after, step) = self.next(nav, self.detected(samples[0]@));
            match step {
                NavStep::Finished(r) => Some(r),
                _ => self.run(after, samples.drop_first()),
            }
        }
    }

    /// An engine over a well-formed catalog.
    pub fn new(scenes: Vec<Scene>, round_cap: u32, idle_ms: u32) -> (r: Result<
        NavEngine,
        CatalogError,
    >)
        ensures
            r is Ok <==> catalog_ok(scenes@),
            r matches Ok(e) ==> e.scenes@ == scenes@ && e.round_cap == round_cap && e.idle_ms
                == idle_ms,
    {
        match check_catalog(&scenes) {
            Ok(()) => Ok(NavEngine { scenes, round_cap, idle_ms }),
            Err(e) => Err(e),
        }
    }

    /// A fresh navigation toward the scene with id `target`.
    pub fn begin(&self, target: &str) -> (r: Navigation)
        ensures
            r.target@ == target@,
            r.rounds == 0,
            r.last_click.is_none(),
    {
        Navigation { target: target.to_string(), rounds: 0, last_click: None }
    }

    /// Rounds that navigation `nav` may still evaluate.
    pub fn rounds_left(&self, nav: &Navigation) -> (r: u32)
        ensures
            r == (if nav.rounds < self.round_cap {
                self.round_cap - nav.rounds
            } else {
                0
            }),
    {
        if nav.rounds < self.round_cap {
            self.round_cap - nav.rounds
        } else {
            0
        }
    }

    /// Index of the scene with id `id`, if any.
    pub fn find_scene(&self, id: &String) -> (r: Option<usize>)
        ensures
            match r {
                Some(i) => i < self.scenes@.len() && self.scenes@[i as int].id@ == id@,
                None => !has_id(self.scenes@, id@),
            },
    {
        find_id(&self.scenes, id)
    }

    /// The scene that `sample` shows: the first scene, in catalog order,
    /// whose anchors are satisfied by its row of readings.
    pub fn detect(&self, sample: &Vec<Vec<Reading>>) -> (r: Option<usize>)
        ensures
            match r {
                Some(i) => self.detected(sample@) == Some(i as int),
                None => self.detected(sample@).is_none(),
            },
    {
        let n = self.scenes.len();
        let mut i: usize = 0;
        while i < n
            invariant
                n == self.scenes@.len(),
                i <= n,
                self.detected(sample@) == first_active_from(self.scenes@, sample@, i as int),
            decreases n - i,
        {
            let active = if i < sample.len() {
                self.scenes[i].is_active(&sample[i])
            } else {
                let empty: Vec<Reading> = Vec::new();
                assert(empty@ =~= sample_row(sample@, i as int));
                self.scenes[i].is_active(&empty)
            };
            if active {
                return Some(i);
            }
            i = i + 1;
        }
        None
    }

    /// The first transition of scene `from` that leads to `target`.
    pub fn route(&self, from: usize, target: &String) -> (r: Option<usize>)
        requires
            from < self.scenes@.len(),
        ensures
            match r {
                Some(k) => k < self.scenes@[from as int].transitions@.len() && first_route_from(
                    self.scenes@[from as int].transitions@,
                    target@,
                    0,
                ) == Some(k as int),
                None => first_route_from(
                    self.scenes@[from as int].transitions@,
                    target@,
                    0,
                ).is_none(),
            },
    {
        let ts = &self.scenes[from].transitions;
        let mut k: usize = 0;
        while k < ts.len()
            invariant
                *ts == self.scenes@[from as int].transitions,
                k <= ts@.len(),
                first_route_from(ts@, target@, 0) == first_route_from(ts@, target@, k as int),
            decreases ts.len() - k,
        {
            if ts[k].target == *target {
                return Some(k);
            }
            k = k + 1;
        }
        None
    }

    /// Index of the first scene with id `id`.
    fn index_of(&self, id: &String) -> (r: Option<usize>)
        ensures
            match r {
                Some(j) => index_of_from(self.scenes@, id@, 0) == Some(j as int),
                None => index_of_from(self.scenes@, id@, 0).is_none(),
            },
    {
        let mut i: usize = 0;
        while i < self.scenes.len()
            invariant
                i <= self.scenes@.len(),
                index_of_from(self.scenes@, id@, 0) == index_of_from(self.scenes@, id@, i as int),
            decreases self.scenes.len() - i,
        {
            if self.scenes[i].id == *id {
                return Some(i);
            }
            i = i + 1;
        }
        None
    }

    fn via_cost(&self, dist: &Vec<Option<usize>>, t: &Transition) -> (r: Option<usize>)
        requires
            dist@.len() == self.scenes@.len(),
            forall|j: int|
                0 <= j < dist@.len() ==> (#[trigger] dist@[j] matches Some(d) ==> d
                    < self.scenes@.len()),
        ensures
            nat_opts(seq![r]) == seq![via_cost(self.scenes@, nat_opts(dist@), *t)],
    {
        proof {
            lemma_index_of_in_range(self.scenes@, t.target@, 0);
        }
        let n = self.scenes.len();
        let r = match self.index_of(&t.target) {
            Some(j) => match dist[j] {
                Some(d) => Some(d + 1),
                None => None,
            },
            None => None,
        };
        assert(nat_opts(seq![r]) =~= seq![via_cost(self.scenes@, nat_opts(dist@), *t)]);
        r
    }

    fn best_cost(&self, dist: &Vec<Option<usize>>, ts: &Vec<Transition>) -> (r: Option<usize>)
        requires
            dist@.len() == self.scenes@.len(),
            forall|j: int|
                0 <= j < dist@.len() ==> (#[trigger] dist@[j] matches Some(d) ==> d
                    < self.scenes@.len()),
        ensures
            nat_opts(seq![r]) == seq![best_cost_from(self.scenes@, nat_opts(dist@), ts@, 0)],
    {
        let ghost nd = nat_opts(dist@);
        let mut acc: Option<usize> = None;
        let mut k: usize = ts.len();
        while k > 0
            invariant
                k <= ts@.len(),
                nd == nat_opts(dist@),
                dist@.len() == self.scenes@.len(),
                forall|j: int|
                    0 <= j < dist@.len() ==> (#[trigger] dist@[j] matches Some(d) ==> d
                        < self.scenes@.len()),
                nat_opts(seq![acc]) == seq![best_cost_from(self.scenes@, nd, ts@, k as int)],
            decreases k,
        {
            k = k - 1;
            let c = self.via_cost(dist, &ts[k]);
            assert(nat_opts(seq![c])[0] == via_cost(self.scenes@, nd, ts@[k as int]));
            assert(nat_opts(seq![acc])[0] == best_cost_from(self.scenes@, nd, ts@, k + 1));
            acc = match (c, acc) {
                (Some(x), Some(y)) => Some(
                    if x <= y {
                        x
                    } else {
                        y
                    },
                ),
                (Some(x), None) => Some(x),
                (None, y) => y,
            };
            assert(nat_opts(seq![acc]) =~= seq![best_cost_from(self.scenes@, nd, ts@, k as int)]);
        }
        acc
    }

    /// For each scene, the fewest transitions that lead from it to `target`.
    fn distance_table(&self, target: &String) -> (r: Vec<Option<usize>>)
        requires
            self.scenes@.len() > 0,
        ensures
            nat_opts(r@) == distances(self.scenes@, target@, (self.scenes@.len() - 1) as nat),
    {
        let n = self.scenes.len();
        let mut cur: Vec<Option<usize>> = Vec::new();
        let mut i: usize = 0;
        while i < n
            invariant
                n == self.scenes@.len(),
                i <= n,
                cur@.len() == i,
                forall|j: int|
                    0 <= j < i ==> nat_opts(cur@)[j] == distances(self.scenes@, target@, 0)[j],
            decreases n - i,
        {
            let ghost before = cur@;
            if self.scenes[i].id == *target {
                cur.push(Some(0));
            } else {
                cur.push(None);
            }
            assert(nat_opts(cur@)[i as int] == distances(self.scenes@, target@, 0)[i as int]);
            assert forall|j: int| 0 <= j < i + 1 implies nat_opts(cur@)[j] == distances(
                self.scenes@,
                target@,
                0,
            )[j] by {
                if j < i {
                    assert(cur@[j] == before[j]);
                    assert(nat_opts(before)[j] == distances(self.scenes@, target@, 0)[j]);
                }
            }
            i = i + 1;
        }
        assert(nat_opts(cur@) =~= distances(self.scenes@, target@, 0));
        let mut f: usize = 0;
        while f + 1 < n
            invariant
                n == self.scenes@.len(),
                n > 0,
                f < n,
                nat_opts(cur@) == distances(self.scenes@, target@, f as nat),
            decreases n - f,
        {
            proof {
                lemma_distances_bound(self.scenes@, target@, f as nat);
            }
            let ghost prev = nat_opts(cur@);
            assert forall|j: int| 0 <= j < cur@.len() implies (#[trigger] cur@[j] matches Some(d)
                ==> d < self.scenes@.len()) by {
                assert(prev[j] == distances(self.scenes@, target@, f as nat)[j]);
            }
            let mut next: Vec<Option<usize>> = Vec::new();
            let mut i: usize = 0;
            while i < n
                invariant
                    n == self.scenes@.len(),
                    f + 1 < n,
                    i <= n,
                    prev == nat_opts(cur@),
                    prev == distances(self.scenes@, target@, f as nat),
                    cur@.len() == n,
                    forall|j: int|
                        0 <= j < cur@.len() ==> (#[trigger] cur@[j] matches Some(d) ==> d
                            < self.scenes@.len()),
                    next@.len() == i,
                    forall|j: int|
                        0 <= j < i ==> nat_opts(next@)[j] == distances(
                            self.scenes@,
                            target@,
                            (f + 1) as nat,
                        )[j],
                decreases n - i,
            {
                let v = if self.scenes[i].id == *target {
                    Some(0)
                } else {
                    let b = self.best_cost(&cur, &self.scenes[i].transitions);
                    assert(nat_opts(seq![b])[0] == best_cost_from(
                        self.scenes@,
                        prev,
                        self.scenes@[i as int].transitions@,
                        0,
                    ));
                    assert(nat_opts(cur@)[i as int] == prev[i as int]);
                    match (cur[i], b) {
                        (Some(x), Some(y)) => Some(
                            if x <= y {
                                x
                            } else {
                                y
                            },
                        ),
                        (Some(x), None) => Some(x),
                        (None, y) => y,
                    }
                };
                assert(nat_opts(seq![v])[0] == distances(self.scenes@, target@, (f + 1) as nat)[i as int]);
                let ghost before = next@;
                next.push(v);
                assert(nat_opts(next@)[i as int] == distances(
                    self.scenes@,
                    target@,
                    (f + 1) as nat,
                )[i as int]);
                assert forall|j: int| 0 <= j < i + 1 implies nat_opts(next@)[j] == distances(
                    self.scenes@,
                    target@,
                    (f + 1) as nat,
                )[j] by {
                    if j < i {
                        assert(next@[j] == before[j]);
                        assert(nat_opts(before)[j] == distances(
                            self.scenes@,
                            target@,
                            (f + 1) as nat,
                        )[j]);
                    }
                }
                i = i + 1;
            }
            assert(nat_opts(next@) =~= distances(self.scenes@, target@, (f + 1) as nat));
            cur = next;
            f = f + 1;
        }
        cur
    }

    fn first_with_cost(&self, dist: &Vec<Option<usize>>, ts: &Vec<Transition>, c: usize) -> (r:
        Option<usize>)
        requires
            dist@.len() == self.scenes@.len(),
            forall|j: int|
                0 <= j < dist@.len() ==> (#[trigger] dist@[j] matches Some(d) ==> d
                    < self.scenes@.len()),
        ensures
            match r {
                Some(k) => k < ts@.len() && first_with_cost_from(
                    self.scenes@,
                    nat_opts(dist@),
                    ts@,
                    c as nat,
                    0,
                ) == Some(k as int),
                None => first_with_cost_from(
                    self.scenes@,
                    nat_opts(dist@),
                    ts@,
                    c as nat,
                    0,
                ).is_none(),
            },
    {
        let mut k: usize = 0;
        while k < ts.len()
            invariant
                k <= ts@.len(),
                dist@.len() == self.scenes@.len(),
                forall|j: int|
                    0 <= j < dist@.len() ==> (#[trigger] dist@[j] matches Some(d) ==> d
                        < self.scenes@.len()),
                first_with_cost_from(self.scenes@, nat_opts(dist@), ts@, c as nat, 0)
                    == first_with_cost_from(self.scenes@, nat_opts(dist@), ts@, c as nat, k as int),
            decreases ts.len() - k,
        {
            let v = self.via_cost(dist, &ts[k]);
            assert(nat_opts(seq![v])[0] == via_cost(self.scenes@, nat_opts(dist@), ts@[k as int]));
            if v == Some(c) {
                return Some(k);
            }
            k = k + 1;
        }
        None
    }

    /// The transition that scene `from` takes toward `target`: the first one
    /// that leads there directly; failing that, the first one on a shortest
    /// path through the catalog.
    pub fn choose_transition(&self, from: usize, target: &String) -> (r: Option<usize>)
        requires
            from < self.scenes@.len(),
        ensures
            match r {
                Some(k) => k < self.scenes@[from as int].transitions@.len() && chosen_transition(
                    self.scenes@,
                    from as int,
                    target@,
                ) == Some(k as int),
                None => chosen_transition(self.scenes@, from as int, target@).is_none(),
            },
    {
        if let Some(k) = self.route(from, target) {
            return Some(k);
        }
        let dist = self.distance_table(target);
        proof {
            lemma_distances_bound(self.scenes@, target@, (self.scenes@.len() - 1) as nat);
            assert forall|j: int| 0 <= j < dist@.len() implies (#[trigger] dist@[j] matches Some(
                d,
            ) ==> d < self.scenes@.len()) by {
                assert(nat_opts(dist@)[j] == distances(
                    self.scenes@,
                    target@,
                    (self.scenes@.len() - 1) as nat,
                )[j]);
            }
        }
        let ts = &self.scenes[from].transitions;
        let best = self.best_cost(&dist, ts);
        assert(nat_opts(seq![best])[0] == best_cost_from(self.scenes@, nat_opts(dist@), ts@, 0));
        match best {
            Some(c) => self.first_with_cost(&dist, ts, c),
            None => None,
        }
    }

    /// Decides one round, given the scene the round's sample shows.
    pub fn decide(&self, nav: &mut Navigation, current: Option<usize>) -> (r: NavStep)
        ensures
            (*final(nav), r) == self.next(
                *old(nav),
                match current {
                    Some(i) => Some(i as int),
                    None => None,
                },
            ),
    {
        let ghost cur: Option<int> = match current {
            Some(i) => Some(i as int),
            None => None,
        };
        if nav.rounds >= self.round_cap {
            return NavStep::Finished(NavResult::Failed);
        }
        nav.rounds = nav.rounds + 1;
        let i = match current {
            Some(i) => i,
            None => {
                nav.last_click = None;
                return NavStep::Wait { ms: self.idle_ms };
            },
        };
        if i >= self.scenes.len() {
            nav.last_click = None;
            return NavStep::Wait { ms: self.idle_ms };
        }
        let scene = &self.scenes[i];
        if scene.id == nav.target {
            nav.last_click = None;
            return NavStep::Finished(
                match &scene.handler {
                    Some(tag) => NavResult::Handover(scene.id.clone(), Some(tag.clone())),
                    None => NavResult::Success,
                },
            );
        }
        match self.choose_transition(i, &nav.target) {
            Some(k) => {
                if nav.last_click == Some(i) {
                    nav.last_click = None;
                    NavStep::Wait { ms: self.idle_ms }
                } else {
                    nav.last_click = Some(i);
                    let t = &scene.transitions[k];
                    NavStep::Click { at: t.coords, settle_ms: t.post_delay_ms }
                }
            },
            None => {
                nav.last_click = None;
                NavStep::Wait { ms: self.idle_ms }
            },
        }
    }

    /// Records that the click decided in the last round did not reach the
    /// application (the input link failed): the next round that sees the
    /// same scene clicks again instead of waiting for it to change.
    pub fn click_not_delivered(&self, nav: &mut Navigation)
        ensures
            final(nav).target == old(nav).target,
            final(nav).rounds == old(nav).rounds,
            final(nav).last_click.is_none(),
    {
        nav.last_click = None;
    }

    /// Runs one round on a screen sample: `sample[i]` holds the readings of
    /// scene `i`'s anchors, in order.
    pub fn step(&self, nav: &mut Navigation, sample: &Vec<Vec<Reading>>) -> (r: NavStep)
        ensures
            (*final(nav), r) == self.next(*old(nav), self.detected(sample@)),
    {
        let current = self.detect(sample);
        self.decide(nav, current)
    }
}

/// A sample in which no scene is active shows no scene.
proof fn lemma_nothing_detected(scenes: Seq<Scene>, sample: Seq<Vec<Reading>>, i: int)
    requires
        0 <= i,
        forall|j: int| 0 <= j < scenes.len() ==> !#[trigger] scene_active(scenes[j], sample_row(sample, j)),
    ensures
        first_active_from(scenes, sample, i).is_none(),
    decreases scenes.len() - i,
{
    if i < scenes.len() {
        lemma_nothing_detected(scenes, sample, i + 1);
    }
}

/// A navigation that never sees a recognizable screen fails once its round
/// cap is exhausted: after `round_cap - nav.rounds` rounds of waiting, the
/// next sample ends it with `Failed`.
pub proof fn lemma_unrecognized_screen_fails(
    e: NavEngine,
    nav: Navigation,
    samples: Seq<Vec<Vec<Reading>>>,
)
    requires
        nav.rounds <= e.round_cap,
        samples.len() > e.round_cap - nav.rounds,
        forall|k: int, i: int|
            0 <= k < samples.len() && 0 <= i < e.scenes@.len() ==> !#[trigger] scene_active(
                e.scenes@[i],
                sample_row(samples[k]@, i),
            ),
    ensures
        e.run(nav, samples) == Some(NavResult::Failed),
    decreases samples.len(),
{
    assert forall|j: int| 0 <= j < e.scenes@.len() implies !#[trigger] scene_active(
        e.scenes@[j],
        sample_row(samples[0]@, j),
    ) by {
        assert(!scene_active(e.scenes@[j], sample_row(samples[0]@, j)));
    }
    lemma_nothing_detected(e.scenes@, samples[0]@, 0);
    if nav.rounds < e.round_cap {
        let (after, step) = e.next(nav, None);
        let rest = samples.drop_first();
        assert forall|k: int, i: int|
            0 <= k < rest.len() && 0 <= i < e.scenes@.len() implies !#[trigger] scene_active(
            e.scenes@[i],
            sample_row(rest[k]@, i),
        ) by {
            assert(rest[k] == samples[k + 1]);
        }
        lemma_unrecognized_screen_fails(e, after, rest);
    }
}

/// A navigation whose sample shows the target scene (and no scene declared
/// before it) while rounds remain ends there: `Handover` with the scene's tag
/// when it carries one, `Success` otherwise.
pub proof fn lemma_target_reached(e: NavEngine, nav: Navigation, samples: Seq<Vec<Vec<Reading>>>)
    requires
        nav.rounds < e.round_cap,
        samples.len() > 0,
        e.detected(samples[0]@) matches Some(i) && e.scenes@[i].id@ == nav.target@,
    ensures
        e.run(nav, samples) == Some(
            match e.scenes@[e.detected(samples[0]@)->0].handler {
                Some(tag) => NavResult::Handover(
                    e.scenes@[e.detected(samples[0]@)->0].id,
                    Some(tag),
                ),
                None => NavResult::Success,
            },
        ),
{
    lemma_detected_in_range(e.scenes@, samples[0]@, 0);
}

proof fn lemma_detected_in_range(scenes: Seq<Scene>, sample: Seq<Vec<Reading>>, i: int)
    requires
        0 <= i,
    ensures
        first_active_from(scenes, sample, i) matches Some(j) ==> i <= j < scenes.len(),
    decreases scenes.len() - i,
{
    if i < scenes.len() {
        lemma_detected_in_range(scenes, sample, i + 1);
    }
}

} // verus!

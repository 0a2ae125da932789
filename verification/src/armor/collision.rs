//! Which contacts of a projectile count as a hit. The first decisive contact determines its fate.
use crate::tech_core::program::Team;
use crate::EntityId;
use std::collections::HashSet;
use vstd::prelude::*;

verus! {

broadcast use vstd::std_specs::hash::group_hash_axioms;

/// An object on the way from a collider up to the root of its scene.
#[derive(Debug, Clone, Copy, PartialEq, Eq, Structural)]
pub struct ChainLink {
    /// The team of the plate that the object belongs to.
    pub armor_team: Option<Team>,
    /// The object is the root of a robot.
    pub robot: bool,
    /// The object carries the basis of a plate's hit face.
    pub framed: bool,
}

/// The team of the nearest object of a plate.
pub open spec fn armor_team_spec(chain: Seq<ChainLink>) -> Option<Team>
    decreases chain.len(),
{
    if chain.len() == 0 {
        None
    } else if chain[0].armor_team is Some {
        chain[0].armor_team
    } else {
        armor_team_spec(chain.drop_first())
    }
}

/// Team of the armor plate the collider belongs to, if it is one.
pub fn armor_team(chain: &[ChainLink]) -> (r: Option<Team>)
    ensures
        r == armor_team_spec(chain@),
{
    let mut i: usize = 0;
    proof {
        assert(chain@.skip(0) =~= chain@);
    }
    while i < chain.len()
        invariant
            i <= chain@.len(),
            armor_team_spec(chain@) == armor_team_spec(chain@.skip(i as int)),
        decreases chain@.len() - i,
    {
        proof {
            assert(chain@.skip(i as int).drop_first() =~= chain@.skip(i + 1));
        }
        if let Some(team) = chain[i].armor_team {
            return Some(team);
        }
        i = i + 1;
    }
    None
}

/// Whether some object on the way is the root of a robot.
pub open spec fn is_robot_body_spec(chain: Seq<ChainLink>) -> bool {
    exists|i: int| 0 <= i < chain.len() && (#[trigger] chain[i]).robot
}

/// True when the collider belongs to a robot's body rather than to the environment.
pub fn is_robot_body(chain: &[ChainLink]) -> (r: bool)
    ensures
        r == is_robot_body_spec(chain@),
{
    let mut i: usize = 0;
    while i < chain.len()
        invariant
            i <= chain@.len(),
            forall|k: int| 0 <= k < i ==> !(#[trigger] chain@[k]).robot,
        decreases chain@.len() - i,
    {
        if chain[i].robot {
            return true;
        }
        i = i + 1;
    }
    false
}

/// The nearest object that carries a hit face.
pub open spec fn frame_holder_spec(chain: Seq<ChainLink>) -> Option<int>
    decreases chain.len(),
{
    if chain.len() == 0 {
        None
    } else {
        match frame_holder_spec(chain.drop_last()) {
            Some(i) => Some(i),
            None => if chain.last().framed {
                Some(chain.len() - 1)
            } else {
                None
            },
        }
    }
}

/// The place on the way of the nearest object that carries a hit face.
pub fn frame_holder(chain: &[ChainLink]) -> (r: Option<usize>)
    ensures
        match frame_holder_spec(chain@) {
            Some(i) => r == Some(i as usize) && 0 <= i < chain@.len(),
            None => r is None,
        },
{
    let mut i: usize = 0;
    proof {
        assert(chain@.take(0) =~= Seq::empty());
    }
    while i < chain.len()
        invariant
            i <= chain@.len(),
            frame_holder_spec(chain@.take(i as int)) is None,
        decreases chain@.len() - i,
    {
        proof {
            assert(chain@.take(i + 1).drop_last() =~= chain@.take(i as int));
        }
        if chain[i].framed {
            proof {
                lemma_holder_stays(chain@, i + 1);
            }
            return Some(i);
        }
        i = i + 1;
    }
    proof {
        assert(chain@.take(i as int) =~= chain@);
    }
    None
}

proof fn lemma_holder_stays(chain: Seq<ChainLink>, n: int)
    requires
        0 <= n <= chain.len(),
        frame_holder_spec(chain.take(n)) is Some,
    ensures
        frame_holder_spec(chain) == frame_holder_spec(chain.take(n)),
    decreases chain.len() - n,
{
    if n == chain.len() {
        assert(chain.take(n) =~= chain);
    } else {
        assert(chain.take(n + 1).drop_last() =~= chain.take(n));
        lemma_holder_stays(chain, n + 1);
    }
}

/// Whether a contact lies in the zone that counts. A collider without a hit face counts unfiltered;
/// with one, a contact whose place is known has to lie inside the face, and the direction has to be
/// accepted.
pub fn within_hit_zone(
    holder: Option<usize>,
    inside_face: Option<bool>,
    angle_accepted: bool,
) -> (r: bool)
    ensures
        r == (holder is None || (inside_face != Some(false) && angle_accepted)),
{
    match holder {
        None => true,
        Some(_) => match inside_face {
            Some(false) => false,
            _ => angle_accepted,
        },
    }
}

/// Which body of a contact is the projectile. Where both are, the first one is.
#[derive(Debug, Clone, Copy, PartialEq, Eq, Structural)]
pub enum ProjectileBody {
    First,
    Second,
}

/// The projectile of a contact, if there is one. The other collider is the one that was hit.
pub fn projectile_of_contact(first_is_projectile: bool, second_is_projectile: bool) -> (r: Option<
    ProjectileBody,
>)
    ensures
        r == (if first_is_projectile {
            Some(ProjectileBody::First)
        } else if second_is_projectile {
            Some(ProjectileBody::Second)
        } else {
            None
        }),
{
    if first_is_projectile {
        Some(ProjectileBody::First)
    } else if second_is_projectile {
        Some(ProjectileBody::Second)
    } else {
        None
    }
}

/// What a contact of a projectile means.
#[derive(Debug, Clone, Copy, PartialEq, Eq, Structural)]
pub enum ContactVerdict {
    /// The environment or a friendly plate: the contact is ignored.
    Ignored,
    /// A robot's body: the projectile is spent once the step ends.
    BodyTouched,
    /// The projectile was spent before.
    AlreadySpent,
    /// An enemy plate outside the zone that counts: the projectile is spent without counting.
    Spent,
    /// A hit.
    Counted,
}

/// The projectiles that are spent, and those that will be when the physics step ends.
///
/// Spending a body contact is deferred so that a projectile which starts touching the shell and an
/// armor plate within the same step still counts on the plate: near plate rims both contacts can
/// begin in one step, and the shell event must not eat the plate hit.
#[derive(Debug)]
pub struct ArmorContacts {
    pub consumed: HashSet<EntityId>,
    pub body_touched: Vec<EntityId>,
}

/// What a contact means while the given projectiles are spent.
pub open spec fn contact_verdict(
    consumed: Set<EntityId>,
    projectile: EntityId,
    ball_team: Team,
    chain: Seq<ChainLink>,
    in_zone: bool,
) -> ContactVerdict {
    match armor_team_spec(chain) {
        None => if is_robot_body_spec(chain) {
            ContactVerdict::BodyTouched
        } else {
            ContactVerdict::Ignored
        },
        Some(team) => if team == ball_team {
            ContactVerdict::Ignored
        } else if consumed.contains(projectile) {
            ContactVerdict::AlreadySpent
        } else if in_zone {
            ContactVerdict::Counted
        } else {
            ContactVerdict::Spent
        },
    }
}

impl ArmorContacts {
    pub fn new() -> (r: Self)
        ensures
            r.consumed@ == Set::<EntityId>::empty(),
            r.body_touched@.len() == 0,
    {
        ArmorContacts { consumed: HashSet::new(), body_touched: Vec::new() }
    }

    /// Takes note of a contact, and says what it means. An enemy plate spends the projectile at
    /// once, whether or not it counts; a robot's body spends it when the step ends; friendly armor
    /// and the environment never do.
    pub fn handle_armor_collision(
        &mut self,
        projectile: EntityId,
        ball_team: Team,
        chain: &[ChainLink],
        in_zone: bool,
    ) -> (r: ContactVerdict)
        ensures
            r == contact_verdict(old(self).consumed@, projectile, ball_team, chain@, in_zone),
            final(self).consumed@ == (if r is Counted || r is Spent {
                old(self).consumed@.insert(projectile)
            } else {
                old(self).consumed@
            }),
            final(self).body_touched@ == (if r is BodyTouched {
                old(self).body_touched@.push(projectile)
            } else {
                old(self).body_touched@
            }),
    {
        match armor_team(chain) {
            None => {
                if is_robot_body(chain) {
                    self.body_touched.push(projectile);
                    return ContactVerdict::BodyTouched;
                }
                return ContactVerdict::Ignored;
            },
            Some(team) => {
                if team == ball_team {
                    return ContactVerdict::Ignored;
                }
            },
        }
        if !self.consumed.insert(projectile) {
            proof {
                assert(self.consumed@ =~= old(self).consumed@);
            }
            return ContactVerdict::AlreadySpent;
        }
        if !in_zone {
            return ContactVerdict::Spent;
        }
        ContactVerdict::Counted
    }

    /// Spends the projectiles that touched a body in the step that ends.
    pub fn spend_body_touched_projectiles(&mut self)
        ensures
            final(self).consumed@ == old(self).consumed@.union(old(self).body_touched@.to_set()),
            final(self).body_touched@.len() == 0,
    {
        let ghost touched = self.body_touched@;
        let ghost before = self.consumed@;
        let mut i: usize = 0;
        while i < self.body_touched.len()
            invariant
                i <= self.body_touched@.len(),
                self.body_touched@ == touched,
                forall|e: EntityId| #[trigger]
                    self.consumed@.contains(e) <==> before.contains(e) || exists|k: int|
                        0 <= k < i && touched[k] == e,
            decreases self.body_touched@.len() - i,
        {
            let projectile: EntityId = self.body_touched[i];
            let ghost earlier = self.consumed@;
            self.consumed.insert(projectile);
            proof {
                assert forall|e: EntityId| #[trigger]
                    self.consumed@.contains(e) <==> before.contains(e) || exists|k: int|
                        0 <= k < i + 1 && touched[k] == e by {
                    if self.consumed@.contains(e) {
                        if e == projectile {
                            assert(touched[i as int] == e);
                        } else {
                            assert(earlier.contains(e));
                        }
                    }
                    if before.contains(e) {
                        assert(earlier.contains(e));
                    }
                    if exists|k: int| 0 <= k < i + 1 && touched[k] == e {
                        let k = choose|k: int| 0 <= k < i + 1 && touched[k] == e;
                        if k < i {
                            assert(earlier.contains(e));
                        }
                    }
                }
            }
            i = i + 1;
        }
        proof {
            assert(self.consumed@ =~= before.union(touched.to_set())) by {
                assert forall|e: EntityId| #[trigger]
                    self.consumed@.contains(e) <==> before.union(touched.to_set()).contains(e) by {
                    if touched.to_set().contains(e) {
                        assert(touched.contains(e));
                    }
                }
            }
        }
        self.body_touched.clear();
    }

    /// Forgets spent projectiles that are gone.
    pub fn cleanup_consumed_armor_projectiles(&mut self, alive: &Vec<EntityId>)
        ensures
            final(self).consumed@ == old(self).consumed@.intersect(alive@.to_set()),
            final(self).body_touched == old(self).body_touched,
    {
        let ghost before = self.consumed@;
        let mut kept: HashSet<EntityId> = HashSet::new();
        let mut i: usize = 0;
        while i < alive.len()
            invariant
                i <= alive@.len(),
                self.consumed@ == before,
                self.body_touched == old(self).body_touched,
                forall|e: EntityId| #[trigger]
                    kept@.contains(e) <==> before.contains(e) && exists|k: int|
                        0 <= k < i && alive@[k] == e,
            decreases alive@.len() - i,
        {
            let entity: EntityId = alive[i];
            let ghost earlier = kept@;
            if self.consumed.contains(&entity) {
                kept.insert(entity);
            }
            proof {
                assert forall|e: EntityId| #[trigger]
                    kept@.contains(e) <==> before.contains(e) && exists|k: int|
                        0 <= k < i + 1 && alive@[k] == e by {
                    if kept@.contains(e) {
                        if e == entity {
                            assert(alive@[i as int] == e);
                        } else {
                            assert(earlier.contains(e));
                        }
                    }
                    if before.contains(e) && exists|k: int| 0 <= k < i + 1 && alive@[k] == e {
                        let k = choose|k: int| 0 <= k < i + 1 && alive@[k] == e;
                        if k < i {
                            assert(earlier.contains(e));
                        }
                    }
                }
            }
            i = i + 1;
        }
        self.consumed = kept;
        proof {
            assert(self.consumed@ =~= before.intersect(alive@.to_set())) by {
                assert forall|e: EntityId| #[trigger]
                    self.consumed@.contains(e) <==> before.intersect(alive@.to_set()).contains(e) by {
                    if alive@.to_set().contains(e) {
                        assert(alive@.contains(e));
                    }
                }
            }
        }
    }
}

/// A projectile counts at most once: once an enemy plate was decisive for it, or a step ended after
/// it touched a robot's body, no later contact counts.
pub proof fn law_spent_projectiles_never_count(
    consumed: Set<EntityId>,
    projectile: EntityId,
    ball_team: Team,
    chain: Seq<ChainLink>,
    in_zone: bool,
)
    requires
        consumed.contains(projectile),
    ensures
        !(contact_verdict(consumed, projectile, ball_team, chain, in_zone) is Counted),
        !(contact_verdict(consumed, projectile, ball_team, chain, in_zone) is Spent),
{
}

/// A plate that is touched in the same step as the body still counts: until the step ends, body
/// contacts change nothing of what a plate contact means.
pub proof fn law_body_contact_does_not_eat_a_plate_hit_of_the_same_step(
    consumed: Set<EntityId>,
    projectile: EntityId,
    ball_team: Team,
    body: Seq<ChainLink>,
    plate: Seq<ChainLink>,
)
    requires
        !consumed.contains(projectile),
        contact_verdict(consumed, projectile, ball_team, body, true) is BodyTouched,
        armor_team_spec(plate) is Some,
        armor_team_spec(plate) != Some(ball_team),
    ensures
        contact_verdict(consumed, projectile, ball_team, plate, true) is Counted,
        !(contact_verdict(
            consumed.union(seq![projectile].to_set()),
            projectile,
            ball_team,
            plate,
            true,
        ) is Counted),
{
    assert(seq![projectile][0] == projectile);
    assert(seq![projectile].to_set().contains(projectile));
}

/// Where no object on the way belongs to a plate, the contact is with a robot's body exactly when
/// some object, however far up, is the root of a robot. The projectile is then spent with the step:
/// whatever it touches afterwards does not count.
pub proof fn law_a_robot_anywhere_on_the_way_is_a_body(
    consumed: Set<EntityId>,
    body_touched: Seq<EntityId>,
    projectile: EntityId,
    ball_team: Team,
    chain: Seq<ChainLink>,
    in_zone: bool,
    i: int,
)
    requires
        forall|k: int| 0 <= k < chain.len() ==> (#[trigger] chain[k]).armor_team is None,
        0 <= i < chain.len(),
        chain[i].robot,
    ensures
        contact_verdict(consumed, projectile, ball_team, chain, in_zone) is BodyTouched,
        forall|later_team: Team, later: Seq<ChainLink>, later_in_zone: bool|
            !(#[trigger] contact_verdict(
                consumed.union(body_touched.push(projectile).to_set()),
                projectile,
                later_team,
                later,
                later_in_zone,
            ) is Counted),
{
    lemma_no_plate(chain);
    let touched = body_touched.push(projectile);
    assert(touched[body_touched.len() as int] == projectile);
    assert(touched.to_set().contains(projectile));
}

/// Where no object on the way belongs to a plate and none is the root of a robot, the contact is
/// with the environment and means nothing.
pub proof fn law_the_environment_is_ignored(
    consumed: Set<EntityId>,
    projectile: EntityId,
    ball_team: Team,
    chain: Seq<ChainLink>,
    in_zone: bool,
)
    requires
        forall|k: int| 0 <= k < chain.len() ==> (#[trigger] chain[k]).armor_team is None,
        forall|k: int| 0 <= k < chain.len() ==> !(#[trigger] chain[k]).robot,
    ensures
        contact_verdict(consumed, projectile, ball_team, chain, in_zone) is Ignored,
{
    lemma_no_plate(chain);
}

proof fn lemma_no_plate(chain: Seq<ChainLink>)
    requires
        forall|k: int| 0 <= k < chain.len() ==> (#[trigger] chain[k]).armor_team is None,
    ensures
        armor_team_spec(chain) is None,
    decreases chain.len(),
{
    if chain.len() > 0 {
        let rest = chain.drop_first();
        assert forall|k: int| 0 <= k < rest.len() implies (#[trigger] rest[k]).armor_team is None by {
            assert(rest[k] == chain[k + 1]);
        }
        lemma_no_plate(rest);
    }
}

/// The nearest object of a plate decides, robot or not: a plate of the projectile's own team means
/// nothing, and one of the other team counts exactly once, in the zone; outside it the projectile is
/// spent without counting.
pub proof fn law_the_nearest_plate_decides(
    consumed: Set<EntityId>,
    projectile: EntityId,
    ball_team: Team,
    chain: Seq<ChainLink>,
    in_zone: bool,
    i: int,
    team: Team,
)
    requires
        0 <= i < chain.len(),
        chain[i].armor_team == Some(team),
        forall|k: int| 0 <= k < i ==> (#[trigger] chain[k]).armor_team is None,
    ensures
        ({
            let verdict = contact_verdict(consumed, projectile, ball_team, chain, in_zone);
            &&& team == ball_team ==> verdict is Ignored
            &&& team != ball_team && consumed.contains(projectile) ==> verdict is AlreadySpent
            &&& team != ball_team && !consumed.contains(projectile) && in_zone
                ==> verdict is Counted
            &&& team != ball_team && !consumed.contains(projectile) && !in_zone
                ==> verdict is Spent
        }),
{
    lemma_nearest_plate(chain, i, team);
}

proof fn lemma_nearest_plate(chain: Seq<ChainLink>, i: int, team: Team)
    requires
        0 <= i < chain.len(),
        chain[i].armor_team == Some(team),
        forall|k: int| 0 <= k < i ==> (#[trigger] chain[k]).armor_team is None,
    ensures
        armor_team_spec(chain) == Some(team),
    decreases chain.len(),
{
    if i > 0 {
        let rest = chain.drop_first();
        assert forall|k: int| 0 <= k < i - 1 implies (#[trigger] rest[k]).armor_team is None by {
            assert(rest[k] == chain[k + 1]);
        }
        assert(rest[i - 1] == chain[i]);
        lemma_nearest_plate(rest, i - 1, team);
    }
}

/// The hit face that a contact is held against is the nearest one on the way.
pub proof fn law_the_nearest_hit_face_is_used(chain: Seq<ChainLink>)
    ensures
        match frame_holder_spec(chain) {
            Some(i) => 0 <= i < chain.len() && chain[i].framed && forall|k: int|
                0 <= k < i ==> !(#[trigger] chain[k]).framed,
            None => forall|k: int| 0 <= k < chain.len() ==> !(#[trigger] chain[k]).framed,
        },
    decreases chain.len(),
{
    if chain.len() > 0 {
        let rest = chain.drop_last();
        law_the_nearest_hit_face_is_used(rest);
        assert forall|k: int| 0 <= k < rest.len() implies #[trigger] chain[k] == rest[k] by {}
    }
}

/// Something that happens to the bookkeeping of contacts.
pub ghost enum ContactEvent {
    Contact { projectile: EntityId, ball_team: Team, chain: Seq<ChainLink>, in_zone: bool },
    StepEnds,
    Cleanup { alive: Set<EntityId> },
}

/// What is spent, what will be, and which projectiles counted, one entry per hit.
pub ghost struct ContactHistory {
    pub consumed: Set<EntityId>,
    pub body_touched: Seq<EntityId>,
    pub counted: Seq<EntityId>,
}

/// What one event does.
pub open spec fn after_event(before: ContactHistory, event: ContactEvent) -> ContactHistory {
    match event {
        ContactEvent::Contact { projectile, ball_team, chain, in_zone } => {
            let verdict = contact_verdict(before.consumed, projectile, ball_team, chain, in_zone);
            ContactHistory {
                consumed: if verdict is Counted || verdict is Spent {
                    before.consumed.insert(projectile)
                } else {
                    before.consumed
                },
                body_touched: if verdict is BodyTouched {
                    before.body_touched.push(projectile)
                } else {
                    before.body_touched
                },
                counted: if verdict is Counted {
                    before.counted.push(projectile)
                } else {
                    before.counted
                },
            }
        },
        ContactEvent::StepEnds => ContactHistory {
            consumed: before.consumed.union(before.body_touched.to_set()),
            body_touched: Seq::empty(),
            counted: before.counted,
        },
        ContactEvent::Cleanup { alive } => ContactHistory {
            consumed: before.consumed.intersect(alive),
            ..before
        },
    }
}

/// What a list of events does, from a start where nothing is spent.
pub open spec fn contact_history(events: Seq<ContactEvent>) -> ContactHistory
    decreases events.len(),
{
    if events.len() == 0 {
        ContactHistory {
            consumed: Set::empty(),
            body_touched: Seq::empty(),
            counted: Seq::empty(),
        }
    } else {
        after_event(contact_history(events.drop_last()), events.last())
    }
}

/// A projectile counts at most once as long as it lives, whatever it touches, in however many
/// steps.
pub proof fn law_a_projectile_counts_at_most_once(
    events: Seq<ContactEvent>,
    projectile: EntityId,
    i: int,
    j: int,
)
    requires
        forall|k: int|
            0 <= k < events.len() ==> ((#[trigger] events[k]) matches ContactEvent::Cleanup {
                alive,
            } ==> alive.contains(projectile)),
        0 <= i < contact_history(events).counted.len(),
        0 <= j < contact_history(events).counted.len(),
        contact_history(events).counted[i] == projectile,
        contact_history(events).counted[j] == projectile,
    ensures
        i == j,
{
    lemma_counted_once(events, projectile);
}

proof fn lemma_counted_once(events: Seq<ContactEvent>, projectile: EntityId)
    requires
        forall|k: int|
            0 <= k < events.len() ==> ((#[trigger] events[k]) matches ContactEvent::Cleanup {
                alive,
            } ==> alive.contains(projectile)),
    ensures
        ({
            let history = contact_history(events);
            &&& history.counted.contains(projectile) ==> history.consumed.contains(projectile)
            &&& forall|i: int, j: int|
                0 <= i < history.counted.len() && 0 <= j < history.counted.len()
                    && #[trigger] history.counted[i] == projectile
                    && #[trigger] history.counted[j] == projectile ==> i == j
        }),
    decreases events.len(),
{
    if events.len() > 0 {
        let rest = events.drop_last();
        assert forall|k: int| 0 <= k < rest.len() implies ((#[trigger] rest[k]) matches
            ContactEvent::Cleanup { alive } ==> alive.contains(projectile)) by {
            assert(rest[k] == events[k]);
        }
        lemma_counted_once(rest, projectile);
        let before = contact_history(rest);
        let after = contact_history(events);
        assert(events[events.len() - 1] == events.last());
        if after.counted.len() > before.counted.len() {
            let newest = after.counted.last();
            assert(after.counted == before.counted.push(newest));
            if newest == projectile {
                assert(!before.counted.contains(projectile));
                assert forall|i: int|
                    0 <= i < after.counted.len() && #[trigger] after.counted[i]
                        == projectile implies i == after.counted.len() - 1 by {
                    if i < before.counted.len() {
                        assert(before.counted[i] == projectile);
                    }
                }
            } else if after.counted.contains(projectile) {
                let i = choose|i: int|
                    0 <= i < after.counted.len() && after.counted[i] == projectile;
                assert(before.counted[i] == projectile);
            }
        }
    }
}

} // verus!

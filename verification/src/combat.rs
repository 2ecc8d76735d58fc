//! Resolving laser hits: which enemies a volley of player lasers destroys,
//! which lasers are spent, and whether an enemy laser hits the player.

use vstd::prelude::*;

use crate::player::PlayerState;

verus! {

/// What the game does about one laser hit on an enemy.
#[derive(Clone, Copy, Debug, PartialEq, Eq, Structural)]
pub enum HitCommand {
    /// Remove the enemy at this index, count it as destroyed, and start an
    /// explosion where it was.
    DestroyEnemy(usize),
    /// Remove the laser at this index.
    DespawnLaser(usize),
}

/// The enemies already destroyed during one resolution, by entity id.
#[verifier::external_body]
pub struct BlastedSet {
    set: bevy::utils::HashSet<u64>,
}

/// The ids held by a [`BlastedSet`].
pub uninterp spec fn blasted_contents(set: BlastedSet) -> Set<u64>;

impl BlastedSet {
    /// Calls `bevy::utils::HashSet::new` (hashbrown's `HashSet::new`), which
    /// makes a set with no element.
    #[verifier::external_body]
    fn new() -> (set: BlastedSet)
        ensures
            blasted_contents(set) == Set::<u64>::empty(),
    {
        BlastedSet { set: bevy::utils::HashSet::new() }
    }

    /// Calls hashbrown's `HashSet::get`, which returns the element equal to
    /// `id` when the set holds one, and nothing otherwise.
    #[verifier::external_body]
    fn get(&self, id: u64) -> (found: Option<u64>)
        ensures
            found == (if blasted_contents(*self).contains(id) {
                Some(id)
            } else {
                None
            }),
    {
        self.set.get(&id).copied()
    }

    /// Calls hashbrown's `HashSet::insert`, which adds `id` to the set and
    /// returns whether it was absent before.
    #[verifier::external_body]
    fn insert(&mut self, id: u64) -> (added: bool)
        ensures
            blasted_contents(*final(self)) == blasted_contents(*old(self)).insert(id),
            added == !blasted_contents(*old(self)).contains(id),
    {
        self.set.insert(id)
    }
}

/// The rows of a collision matrix, as sequences.
pub open spec fn hit_matrix(hits: Seq<Vec<bool>>) -> Seq<Seq<bool>> {
    hits.map_values(|row: Vec<bool>| row@)
}

/// Laser `l` overlaps enemy `e`; a row shorter than the enemy list leaves
/// the missing enemies unhit.
pub open spec fn collides(hits: Seq<Seq<bool>>, l: int, e: int) -> bool {
    0 <= l < hits.len() && 0 <= e < hits[l].len() && hits[l][e]
}

/// The commands issued so far, and the ids of the enemies destroyed so far.
pub type HitState = (Seq<HitCommand>, Set<u64>);

/// The effect of one laser/enemy pair on the resolution.
pub open spec fn hit_step(enemy_ids: Seq<u64>, hits: Seq<Seq<bool>>, l: int, e: int, s: HitState) -> HitState {
    if collides(hits, l, e) {
        if s.1.contains(enemy_ids[e]) {
            (s.0.push(HitCommand::DespawnLaser(l as usize)), s.1)
        } else {
            (
                s.0.push(HitCommand::DestroyEnemy(e as usize)).push(HitCommand::DespawnLaser(l as usize)),
                s.1.insert(enemy_ids[e]),
            )
        }
    } else {
        s
    }
}

/// The resolution after laser `l` was held against the first `e` enemies,
/// starting from `s`.
pub open spec fn hits_in_row(enemy_ids: Seq<u64>, hits: Seq<Seq<bool>>, l: int, e: nat, s: HitState) -> HitState
    decreases e,
{
    if e == 0 {
        s
    } else {
        hit_step(enemy_ids, hits, l, e - 1, hits_in_row(enemy_ids, hits, l, (e - 1) as nat, s))
    }
}

/// The resolution after the first `l` lasers were held against every enemy.
pub open spec fn hits_before_row(enemy_ids: Seq<u64>, hits: Seq<Seq<bool>>, l: nat) -> HitState
    decreases l,
{
    if l == 0 {
        (Seq::empty(), Set::empty())
    } else {
        hits_in_row(enemy_ids, hits, l - 1, enemy_ids.len(), hits_before_row(enemy_ids, hits, (l - 1) as nat))
    }
}

/// Pair `(l2, e2)` comes before position `(l, e)` in the order in which
/// lasers and enemies are compared, with `n` enemies.
pub open spec fn processed(n: int, l: int, e: int, l2: int, e2: int) -> bool {
    0 <= l2 && 0 <= e2 < n && (l2 < l || (l2 == l && e2 < e))
}

/// What holds of the resolution once every pair before `(l, e)` was
/// compared.
pub open spec fn hit_inv(enemy_ids: Seq<u64>, hits: Seq<Seq<bool>>, s: HitState, l: int, e: int) -> bool {
    let n = enemy_ids.len() as int;
    &&& forall|a: usize| #[trigger]
        s.0.contains(HitCommand::DestroyEnemy(a)) ==> a < n && s.1.contains(enemy_ids[a as int])
    &&& forall|x: u64| #[trigger]
        s.1.contains(x) ==> exists|a: usize|
            #[trigger] s.0.contains(HitCommand::DestroyEnemy(a)) && a < n && enemy_ids[a as int] == x
    &&& forall|i: int, j: int|
        0 <= i < j < s.0.len() && #[trigger] s.0[i] is DestroyEnemy && #[trigger] s.0[j] is DestroyEnemy
            ==> enemy_ids[s.0[i]->DestroyEnemy_0 as int] != enemy_ids[s.0[j]->DestroyEnemy_0 as int]
    &&& forall|a: usize| #[trigger]
        s.0.contains(HitCommand::DestroyEnemy(a)) ==> exists|l2: int|
            processed(n, l, e, l2, a as int) && #[trigger] collides(hits, l2, a as int)
    &&& forall|l2: int, e2: int|
        processed(n, l, e, l2, e2) && #[trigger] collides(hits, l2, e2) ==> s.1.contains(enemy_ids[e2])
    &&& forall|x: usize| #[trigger]
        s.0.contains(HitCommand::DespawnLaser(x)) ==> exists|e2: int|
            processed(n, l, e, x as int, e2) && #[trigger] collides(hits, x as int, e2)
    &&& forall|l2: int, e2: int|
        processed(n, l, e, l2, e2) && #[trigger] collides(hits, l2, e2) ==> s.0.contains(
            HitCommand::DespawnLaser(l2 as usize),
        )
}

proof fn lemma_push_contains<A>(s: Seq<A>, x: A, y: A)
    ensures
        s.push(x).contains(y) == (s.contains(y) || y == x),
{
    if s.contains(y) {
        let i = choose|i: int| 0 <= i < s.len() && s[i] == y;
        assert(s.push(x)[i] == y);
    }
    if y == x {
        assert(s.push(x)[s.len() as int] == y);
    }
    if s.push(x).contains(y) {
        let i = choose|i: int| 0 <= i < s.push(x).len() && s.push(x)[i] == y;
        if i < s.len() {
            assert(s[i] == y);
        }
    }
}

proof fn lemma_hit_step(enemy_ids: Seq<u64>, hits: Seq<Seq<bool>>, s: HitState, l: int, e: int)
    requires
        0 <= l < hits.len() <= usize::MAX,
        0 <= e < enemy_ids.len() <= usize::MAX,
        hit_inv(enemy_ids, hits, s, l, e),
    ensures
        hit_inv(enemy_ids, hits, hit_step(enemy_ids, hits, l, e, s), l, e + 1),
{
    let n = enemy_ids.len() as int;
    let t = hit_step(enemy_ids, hits, l, e, s);
    let dl = HitCommand::DespawnLaser(l as usize);
    let de = HitCommand::DestroyEnemy(e as usize);
    assert forall|a: usize| s.0.contains(HitCommand::DestroyEnemy(a)) implies exists|l2: int|
        processed(n, l, e + 1, l2, a as int) && #[trigger] collides(hits, l2, a as int) by {
        let l2 = choose|l2: int| processed(n, l, e, l2, a as int) && #[trigger] collides(hits, l2, a as int);
        assert(processed(n, l, e + 1, l2, a as int));
    }
    assert forall|x: usize| s.0.contains(HitCommand::DespawnLaser(x)) implies exists|e2: int|
        processed(n, l, e + 1, x as int, e2) && #[trigger] collides(hits, x as int, e2) by {
        let e2 = choose|e2: int| processed(n, l, e, x as int, e2) && #[trigger] collides(hits, x as int, e2);
        assert(processed(n, l, e + 1, x as int, e2));
    }
    if collides(hits, l, e) {
        if s.1.contains(enemy_ids[e]) {
            assert forall|c: HitCommand| #[trigger] t.0.contains(c) == (s.0.contains(c) || c == dl) by {
                lemma_push_contains(s.0, dl, c);
            }
            assert forall|x: u64| #[trigger] t.1.contains(x) implies exists|a: usize|
                #[trigger] t.0.contains(HitCommand::DestroyEnemy(a)) && a < n && enemy_ids[a as int] == x by {
                let a = choose|a: usize|
                    #[trigger] s.0.contains(HitCommand::DestroyEnemy(a)) && a < n && enemy_ids[a as int] == x;
                assert(t.0.contains(HitCommand::DestroyEnemy(a)));
            }
            assert forall|i: int, j: int|
                0 <= i < j < t.0.len() && #[trigger] t.0[i] is DestroyEnemy && #[trigger] t.0[j] is DestroyEnemy
                implies enemy_ids[t.0[i]->DestroyEnemy_0 as int] != enemy_ids[t.0[j]->DestroyEnemy_0 as int] by {
                assert(j < s.0.len());
                assert(t.0[i] == s.0[i] && t.0[j] == s.0[j]);
            }
            assert forall|x: usize| #[trigger] t.0.contains(HitCommand::DespawnLaser(x)) implies exists|e2: int|
                processed(n, l, e + 1, x as int, e2) && #[trigger] collides(hits, x as int, e2) by {
                if x as int == l {
                    assert(processed(n, l, e + 1, x as int, e));
                }
            }
        } else {
            let mid = s.0.push(de);
            assert forall|c: HitCommand| #[trigger] t.0.contains(c) == (s.0.contains(c) || c == de || c == dl) by {
                lemma_push_contains(s.0, de, c);
                lemma_push_contains(mid, dl, c);
            }
            assert forall|x: u64| #[trigger] t.1.contains(x) implies exists|a: usize|
                #[trigger] t.0.contains(HitCommand::DestroyEnemy(a)) && a < n && enemy_ids[a as int] == x by {
                if x == enemy_ids[e] {
                    assert(t.0.contains(HitCommand::DestroyEnemy(e as usize)));
                } else {
                    let a = choose|a: usize|
                        #[trigger] s.0.contains(HitCommand::DestroyEnemy(a)) && a < n && enemy_ids[a as int] == x;
                    assert(t.0.contains(HitCommand::DestroyEnemy(a)));
                }
            }
            assert forall|i: int, j: int|
                0 <= i < j < t.0.len() && #[trigger] t.0[i] is DestroyEnemy && #[trigger] t.0[j] is DestroyEnemy
                implies enemy_ids[t.0[i]->DestroyEnemy_0 as int] != enemy_ids[t.0[j]->DestroyEnemy_0 as int] by {
                if j < s.0.len() {
                    assert(t.0[i] == s.0[i] && t.0[j] == s.0[j]);
                } else {
                    assert(j == s.0.len());
                    assert(t.0[i] == s.0[i]);
                    assert(s.0.contains(HitCommand::DestroyEnemy(s.0[i]->DestroyEnemy_0)));
                }
            }
            assert forall|a: usize| #[trigger] t.0.contains(HitCommand::DestroyEnemy(a)) implies exists|l2: int|
                processed(n, l, e + 1, l2, a as int) && #[trigger] collides(hits, l2, a as int) by {
                if a as int == e {
                    assert(processed(n, l, e + 1, l, e));
                }
            }
            assert forall|x: usize| #[trigger] t.0.contains(HitCommand::DespawnLaser(x)) implies exists|e2: int|
                processed(n, l, e + 1, x as int, e2) && #[trigger] collides(hits, x as int, e2) by {
                if x as int == l {
                    assert(processed(n, l, e + 1, x as int, e));
                }
            }
        }
    }
}

proof fn lemma_hits_in_row(enemy_ids: Seq<u64>, hits: Seq<Seq<bool>>, l: int, e: nat, s: HitState)
    requires
        0 <= l < hits.len() <= usize::MAX,
        e <= enemy_ids.len() <= usize::MAX,
        hit_inv(enemy_ids, hits, s, l, 0),
    ensures
        hit_inv(enemy_ids, hits, hits_in_row(enemy_ids, hits, l, e, s), l, e as int),
    decreases e,
{
    if e > 0 {
        lemma_hits_in_row(enemy_ids, hits, l, (e - 1) as nat, s);
        lemma_hit_step(enemy_ids, hits, hits_in_row(enemy_ids, hits, l, (e - 1) as nat, s), l, e - 1);
    }
}

proof fn lemma_hits_before_row(enemy_ids: Seq<u64>, hits: Seq<Seq<bool>>, l: nat)
    requires
        l <= hits.len() <= usize::MAX,
        enemy_ids.len() <= usize::MAX,
    ensures
        hit_inv(enemy_ids, hits, hits_before_row(enemy_ids, hits, l), l as int, 0),
    decreases l,
{
    let n = enemy_ids.len() as int;
    if l > 0 {
        let prev = hits_before_row(enemy_ids, hits, (l - 1) as nat);
        lemma_hits_before_row(enemy_ids, hits, (l - 1) as nat);
        lemma_hits_in_row(enemy_ids, hits, l - 1, enemy_ids.len(), prev);
        let t = hits_before_row(enemy_ids, hits, l);
        assert forall|l2: int, e2: int| processed(n, l - 1, n, l2, e2) <==> processed(n, l as int, 0, l2, e2) by {}
        assert(hit_inv(enemy_ids, hits, t, l as int, 0));
    }
}

/// Resolving a frame of player lasers against the enemies: no enemy is
/// destroyed twice (by entity id); an enemy is destroyed only if some laser
/// overlaps it, and every enemy that a laser overlaps is destroyed (as
/// itself or as an earlier entry with the same id); a laser is removed
/// exactly when it overlaps some enemy.
pub proof fn law_laser_hits(enemy_ids: Seq<u64>, hits: Seq<Seq<bool>>)
    requires
        enemy_ids.len() <= usize::MAX,
        hits.len() <= usize::MAX,
    ensures
        ({
            let commands = hits_before_row(enemy_ids, hits, hits.len()).0;
            let n = enemy_ids.len() as int;
            &&& forall|i: int, j: int|
                0 <= i < j < commands.len() && #[trigger] commands[i] is DestroyEnemy
                    && #[trigger] commands[j] is DestroyEnemy
                    ==> enemy_ids[commands[i]->DestroyEnemy_0 as int] != enemy_ids[commands[j]->DestroyEnemy_0 as int]
            &&& forall|a: usize| #[trigger]
                commands.contains(HitCommand::DestroyEnemy(a)) ==> a < n && exists|l: int|
                    #[trigger] collides(hits, l, a as int)
            &&& forall|l: int, e: int|
                0 <= e < n && #[trigger] collides(hits, l, e) ==> exists|a: usize|
                    #[trigger] commands.contains(HitCommand::DestroyEnemy(a)) && enemy_ids[a as int]
                        == enemy_ids[e]
            &&& forall|x: usize| #[trigger]
                commands.contains(HitCommand::DespawnLaser(x)) <==> exists|e: int|
                    0 <= e < n && #[trigger] collides(hits, x as int, e)
        }),
{
    let n = enemy_ids.len() as int;
    let s = hits_before_row(enemy_ids, hits, hits.len());
    lemma_hits_before_row(enemy_ids, hits, hits.len());
    assert forall|l: int, e: int| 0 <= e < n && #[trigger] collides(hits, l, e) implies exists|a: usize|
        #[trigger] s.0.contains(HitCommand::DestroyEnemy(a)) && enemy_ids[a as int] == enemy_ids[e] by {
        assert(processed(n, hits.len() as int, 0, l, e));
        assert(s.1.contains(enemy_ids[e]));
    }
    assert forall|x: usize| (exists|e: int| 0 <= e < n && #[trigger] collides(hits, x as int, e)) implies
        #[trigger] s.0.contains(HitCommand::DespawnLaser(x)) by {
        let e = choose|e: int| 0 <= e < n && #[trigger] collides(hits, x as int, e);
        assert(processed(n, hits.len() as int, 0, x as int, e));
    }
}

/// The commands for a frame of player lasers against the enemies.
///
/// `hits[l][e]` says whether laser `l` overlaps enemy `e`; `enemy_ids[e]` is
/// the entity id of enemy `e`. Lasers are taken in order and, for each, the
/// enemies in order. At each overlap the enemy is destroyed unless an
/// earlier overlap already destroyed it, and the laser is removed.
pub fn player_laser_hit_enemy(enemy_ids: &Vec<u64>, hits: &Vec<Vec<bool>>) -> (commands: Vec<HitCommand>)
    ensures
        commands@ == hits_before_row(enemy_ids@, hit_matrix(hits@), hits@.len()).0,
{
    let ghost m = hit_matrix(hits@);
    let mut enemies_blasted = BlastedSet::new();
    let mut commands: Vec<HitCommand> = Vec::new();
    let mut l: usize = 0;
    while l < hits.len()
        invariant
            l <= hits@.len(),
            m == hit_matrix(hits@),
            commands@ == hits_before_row(enemy_ids@, m, l as nat).0,
            blasted_contents(enemies_blasted) == hits_before_row(enemy_ids@, m, l as nat).1,
        decreases hits@.len() - l,
    {
        let row = &hits[l];
        let ghost start = hits_before_row(enemy_ids@, m, l as nat);
        let mut e: usize = 0;
        while e < enemy_ids.len()
            invariant
                l < hits@.len(),
                e <= enemy_ids@.len(),
                m == hit_matrix(hits@),
                row@ == m[l as int],
                start == hits_before_row(enemy_ids@, m, l as nat),
                commands@ == hits_in_row(enemy_ids@, m, l as int, e as nat, start).0,
                blasted_contents(enemies_blasted) == hits_in_row(enemy_ids@, m, l as int, e as nat, start).1,
            decreases enemy_ids@.len() - e,
        {
            if e < row.len() && row[e] {
                let enemy_id = enemy_ids[e];
                if enemies_blasted.get(enemy_id).is_none() {
                    commands.push(HitCommand::DestroyEnemy(e));
                    enemies_blasted.insert(enemy_id);
                }
                commands.push(HitCommand::DespawnLaser(l));
            }
            e = e + 1;
        }
        l = l + 1;
    }
    commands
}

/// The index of the first enemy laser that overlaps the player, if any.
pub fn first_hit(hits: &Vec<bool>) -> (hit: Option<usize>)
    ensures
        match hit {
            Some(i) => i < hits@.len() && hits@[i as int] && forall|j: int| 0 <= j < i ==> !hits@[j],
            None => forall|j: int| 0 <= j < hits@.len() ==> !hits@[j],
        },
{
    let mut i: usize = 0;
    while i < hits.len()
        invariant
            i <= hits@.len(),
            forall|j: int| 0 <= j < i ==> !hits@[j],
        decreases hits@.len() - i,
    {
        if hits[i] {
            return Some(i);
        }
        i = i + 1;
    }
    None
}

/// An enemy laser against the player: the first laser (in order) that
/// overlaps the player shoots it down at time `now`; the index of that laser
/// is returned so that it, and the player, can be removed.
pub fn enemy_laser_hit_player(player_state: &mut PlayerState, hits: &Vec<bool>, now: u64) -> (hit: Option<usize>)
    ensures
        match hit {
            Some(i) => {
                &&& i < hits@.len()
                &&& hits@[i as int]
                &&& forall|j: int| 0 <= j < i ==> !hits@[j]
                &&& !final(player_state).on
                &&& final(player_state).last_shot == Some(now)
            },
            None => {
                &&& forall|j: int| 0 <= j < hits@.len() ==> !hits@[j]
                &&& *final(player_state) == *old(player_state)
            },
        },
{
    let hit = first_hit(hits);
    if hit.is_some() {
        player_state.shot(now);
    }
    hit
}

} // verus!

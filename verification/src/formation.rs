//! Enemy formations: consecutive enemies are grouped, and every member of a
//! group flies along the same path.

use vstd::prelude::*;

use crate::MAX_FORMATION_MEMBERS;

verus! {

/// The path shared by the members of one group of enemies.
///
/// `geometry` is whatever describes the path (start point, ellipse radius and
/// offset, starting angle); the library only carries it.
#[derive(Clone, Copy)]
pub struct Formation<G> {
    pub geometry: G,
    pub group_id: u32,
}

/// Hands out formations: the current one while it has room, a new one when
/// it is full or when there is none yet.
pub struct FormationMaker<G> {
    group_seq: u32,
    current_formation: Option<Formation<G>>,
    current_formation_members: u32,
}

/// What a [`FormationMaker`] holds, as seen by contracts.
pub struct FormationMakerView<G> {
    /// Number of groups opened so far; also the id of the latest one.
    pub group_seq: u32,
    /// The formation that later members of the current group receive.
    pub template: Option<Formation<G>>,
    /// How many formations of the current group have been handed out.
    pub members: u32,
}

impl<G> FormationMakerView<G> {
    /// A maker that has handed out nothing yet.
    pub open spec fn initial() -> Self {
        FormationMakerView { group_seq: 0, template: None, members: 0 }
    }

    /// The invariant every maker keeps.
    pub open spec fn wf(self) -> bool {
        &&& self.members <= MAX_FORMATION_MEMBERS
        &&& match self.template {
            Some(t) => t.group_id == self.group_seq && 1 <= self.members,
            None => self.members == 0,
        }
    }

    /// The next call opens a new group: there is no current formation, or
    /// it already has its full number of members.
    pub open spec fn opens_new_group(self) -> bool {
        self.template is None || self.members >= MAX_FORMATION_MEMBERS
    }

    /// The formation that the next call hands out, where `fresh` is the path
    /// a new group would get.
    pub open spec fn make_result(self, fresh: G) -> Formation<G> {
        if self.opens_new_group() {
            Formation { geometry: fresh, group_id: (self.group_seq + 1) as u32 }
        } else {
            self.template.unwrap()
        }
    }

    /// The maker after the next call.
    pub open spec fn after_make(self, fresh: G) -> FormationMakerView<G> {
        if self.opens_new_group() {
            FormationMakerView {
                group_seq: (self.group_seq + 1) as u32,
                template: Some(self.make_result(fresh)),
                members: 1,
            }
        } else {
            FormationMakerView {
                group_seq: self.group_seq,
                template: self.template,
                members: (self.members + 1) as u32,
            }
        }
    }
}

/// The maker after handing out one formation per element of `fresh`, in
/// order, each element being the path a new group would get at that call.
pub open spec fn run_makes<G>(start: FormationMakerView<G>, fresh: Seq<G>) -> FormationMakerView<G>
    decreases fresh.len(),
{
    if fresh.len() == 0 {
        start
    } else {
        run_makes(start, fresh.drop_last()).after_make(fresh.last())
    }
}

/// What an empty maker holds after `n >= 1` calls.
pub open spec fn state_after<G>(fresh: Seq<G>, n: int) -> FormationMakerView<G> {
    let group = (n - 1) / (MAX_FORMATION_MEMBERS as int);
    FormationMakerView {
        group_seq: (group + 1) as u32,
        template: Some(
            Formation {
                geometry: fresh[group * (MAX_FORMATION_MEMBERS as int)],
                group_id: (group + 1) as u32,
            },
        ),
        members: ((n - 1) % (MAX_FORMATION_MEMBERS as int) + 1) as u32,
    }
}

proof fn lemma_state_after<G>(fresh: Seq<G>, n: int)
    requires
        1 <= n <= fresh.len(),
        (n - 1) / (MAX_FORMATION_MEMBERS as int) < u32::MAX,
    ensures
        run_makes(FormationMakerView::initial(), fresh.take(n)) == state_after(fresh, n),
    decreases n,
{
    let start = FormationMakerView::<G>::initial();
    assert(fresh.take(n).drop_last() =~= fresh.take(n - 1));
    assert(fresh.take(n).last() == fresh[n - 1]);
    if n == 1 {
        assert(fresh.take(0) =~= Seq::<G>::empty());
    } else {
        lemma_state_after(fresh, n - 1);
    }
}

/// Starting from an empty maker, the `n`-th formation handed out (counting
/// from 0) belongs to group `n / MAX_FORMATION_MEMBERS + 1`: groups have
/// exactly `MAX_FORMATION_MEMBERS` members, their ids count up from 1, and
/// every member flies the path drawn for the first member of its group.
/// Each of these calls meets the precondition of `make`.
pub proof fn law_formation_groups<G>(fresh: Seq<G>, n: int)
    requires
        0 <= n < fresh.len(),
        n / (MAX_FORMATION_MEMBERS as int) < u32::MAX,
    ensures
        ({
            let before = run_makes(FormationMakerView::<G>::initial(), fresh.take(n));
            let group = n / (MAX_FORMATION_MEMBERS as int);
            &&& before.wf()
            &&& before.opens_new_group() ==> before.group_seq < u32::MAX
            &&& before.make_result(fresh[n]).group_id == group + 1
            &&& before.make_result(fresh[n]).geometry == fresh[group * (MAX_FORMATION_MEMBERS as int)]
            &&& before.opens_new_group() <==> n % (MAX_FORMATION_MEMBERS as int) == 0
        }),
{
    if n == 0 {
        assert(fresh.take(0) =~= Seq::<G>::empty());
    } else {
        lemma_state_after(fresh, n);
    }
}

/// Two formations handed out one after the other are the same formation
/// unless the first one filled its group; then the second one opens the
/// next group with the new path.
pub proof fn law_consecutive_formations<G>(maker: FormationMakerView<G>, first: G, second: G)
    requires
        maker.wf(),
        maker.opens_new_group() ==> maker.group_seq < u32::MAX,
        maker.after_make(first).opens_new_group() ==> maker.after_make(first).group_seq < u32::MAX,
    ensures
        ({
            let f1 = maker.make_result(first);
            let next = maker.after_make(first);
            let f2 = next.make_result(second);
            &&& next.wf()
            &&& next.members < MAX_FORMATION_MEMBERS ==> f2 == f1
            &&& next.members >= MAX_FORMATION_MEMBERS ==> f2.group_id == f1.group_id + 1 && f2.geometry == second
        }),
{
}

/// One call of `make`: when the current group has room, the enemy gets the
/// current template and the group gains one member; otherwise a new group
/// is opened whose id is one more than the last, with the new path, one
/// member, and that formation as template.
pub proof fn law_make_one_step<G>(maker: FormationMakerView<G>, fresh: G)
    requires
        maker.wf(),
        maker.opens_new_group() ==> maker.group_seq < u32::MAX,
    ensures
        ({
            let f = maker.make_result(fresh);
            let next = maker.after_make(fresh);
            &&& (maker.template is Some && maker.members < MAX_FORMATION_MEMBERS) ==> {
                &&& f == maker.template.unwrap()
                &&& next.group_seq == maker.group_seq
                &&& next.template == maker.template
                &&& next.members == maker.members + 1
            }
            &&& (maker.template is None || maker.members == MAX_FORMATION_MEMBERS) ==> {
                &&& f.geometry == fresh
                &&& f.group_id == maker.group_seq + 1
                &&& next.group_seq == maker.group_seq + 1
                &&& next.template == Some(f)
                &&& next.members == 1
            }
        }),
{
}

impl<G> View for FormationMaker<G> {
    type V = FormationMakerView<G>;

    closed spec fn view(&self) -> FormationMakerView<G> {
        FormationMakerView {
            group_seq: self.group_seq,
            template: self.current_formation,
            members: self.current_formation_members,
        }
    }
}

impl<G> FormationMaker<G> {
    #[verifier::type_invariant]
    spec fn well_formed(self) -> bool {
        self@.wf()
    }

    /// Number of groups opened so far.
    pub fn group_seq(&self) -> (n: u32)
        ensures
            n == self@.group_seq,
    {
        self.group_seq
    }

    /// Whether the next call of [`FormationMaker::make`] opens a new group.
    pub fn needs_new_group(&self) -> (b: bool)
        ensures
            b == self@.opens_new_group(),
    {
        match &self.current_formation {
            Some(_) => self.current_formation_members >= MAX_FORMATION_MEMBERS,
            None => true,
        }
    }
}

impl<G: Copy> FormationMaker<G> {
    /// Returns the formation for the next enemy.
    ///
    /// While the current group has fewer than `MAX_FORMATION_MEMBERS`
    /// members, the enemy joins it and gets the same formation. Otherwise a
    /// new group is opened with the path `fresh` and the next group id, and
    /// that formation becomes the template for the members that follow.
    pub fn make(&mut self, fresh: G) -> (formation: Formation<G>)
        requires
            old(self)@.opens_new_group() ==> old(self)@.group_seq < u32::MAX,
        ensures
            formation == old(self)@.make_result(fresh),
            final(self)@ == old(self)@.after_make(fresh),
            final(self)@.wf(),
    {
        proof {
            use_type_invariant(&*self);
        }
        match (&self.current_formation, self.current_formation_members >= MAX_FORMATION_MEMBERS) {
            // the current group still has room
            (Some(tmpl), false) => {
                let formation = *tmpl;
                self.current_formation_members = self.current_formation_members + 1;
                formation
            },
            // first formation, or the current group is full
            _ => {
                let group_id = self.group_seq + 1;
                let formation = Formation { geometry: fresh, group_id };
                *self = FormationMaker {
                    group_seq: group_id,
                    current_formation: Some(formation),
                    current_formation_members: 1,
                };
                formation
            },
        }
    }
}

impl<G> Default for FormationMaker<G> {
    fn default() -> (maker: Self)
        ensures
            maker@ == FormationMakerView::<G>::initial(),
    {
        FormationMaker { group_seq: 0, current_formation: None, current_formation_members: 0 }
    }
}

} // verus!

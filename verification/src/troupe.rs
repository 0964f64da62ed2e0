use vstd::prelude::*;
use std::collections::VecDeque;
use vstd::string::StringExecFns;
use crate::channel_stats_labels::{decimal, decimal_string};

verus! {

/// A group of actors that share one thread, kept in the order they joined.
pub struct Troupe<M> {
    pub(crate) future_builder: VecDeque<M>,
    team_id: usize,
    pub(crate) name: Option<String>,
}

impl<M> View for Troupe<M> {
    type V = Seq<M>;

    /// The members, first joined first.
    closed spec fn view(&self) -> Seq<M> {
        self.future_builder@
    }
}

impl<M> Troupe<M> {
    /// The team identifier this troupe was made with.
    pub closed spec fn spec_team_id(&self) -> usize {
        self.team_id
    }

    /// The thread name given to the troupe, if any.
    pub closed spec fn spec_name(&self) -> Option<Seq<char>> {
        match &self.name {
            Some(n) => Some(n@),
            None => None,
        }
    }

    /// An empty troupe with the given team identifier.
    pub fn new(team_id: usize) -> (r: Self)
        ensures
            r@ == Seq::<M>::empty(),
            r.spec_team_id() == team_id,
            r.spec_name() is None,
    {
        Troupe { future_builder: VecDeque::new(), team_id, name: None }
    }

    /// Names the troupe's thread.
    pub fn with_name(&mut self, name: &str) -> (r: &mut Self)
        ensures
            (*r)@ == old(self)@,
            (*r).spec_team_id() == old(self).spec_team_id(),
            (*r).spec_name() == Some(name@),
            *final(self) == *final(r),
    {
        self.name = Some(name.to_string());
        self
    }

    /// The team identifier.
    pub fn team_id(&self) -> (r: usize)
        ensures
            r == self.spec_team_id(),
    {
        self.team_id
    }

    /// The thread name, if one was given.
    pub fn name(&self) -> (r: Option<&String>)
        ensures
            r matches Some(n) ==> self.spec_name() == Some(n@),
            r is None <==> self.spec_name() is None,
    {
        match &self.name {
            Some(n) => Some(n),
            None => None,
        }
    }

    /// The number of actors in the troupe.
    pub fn len(&self) -> (r: usize)
        ensures
            r == self@.len(),
    {
        self.future_builder.len()
    }

    /// Adds an actor at the back of the troupe.
    pub fn add_actor(&mut self, member: M)
        ensures
            final(self)@ == old(self)@.push(member),
            final(self).spec_team_id() == old(self).spec_team_id(),
            final(self).spec_name() == old(self).spec_name(),
    {
        self.future_builder.push_back(member);
    }

    /// Moves the first actor of this troupe to the back of `other`; `false`
    /// when this troupe is empty. No actor is lost or duplicated.
    pub fn transfer_front_to(&mut self, other: &mut Self) -> (moved: bool)
        ensures
            moved <==> old(self)@.len() > 0,
            moved ==> final(self)@ == old(self)@.drop_first(),
            moved ==> final(other)@ == old(other)@.push(old(self)@[0]),
            !moved ==> final(self)@ == old(self)@ && final(other)@ == old(other)@,
            final(self)@.len() + final(other)@.len() == old(self)@.len() + old(other)@.len(),
            final(self).spec_team_id() == old(self).spec_team_id(),
            final(other).spec_team_id() == old(other).spec_team_id(),
            final(self).spec_name() == old(self).spec_name(),
            final(other).spec_name() == old(other).spec_name(),
    {
        match self.future_builder.pop_front() {
            Some(f) => {
                other.future_builder.push_back(f);
                true
            },
            None => false,
        }
    }

    /// Moves the last actor of this troupe to the back of `other`; `false`
    /// when this troupe is empty. No actor is lost or duplicated.
    pub fn transfer_back_to(&mut self, other: &mut Self) -> (moved: bool)
        ensures
            moved <==> old(self)@.len() > 0,
            moved ==> final(self)@ == old(self)@.drop_last(),
            moved ==> final(other)@ == old(other)@.push(old(self)@.last()),
            !moved ==> final(self)@ == old(self)@ && final(other)@ == old(other)@,
            final(self)@.len() + final(other)@.len() == old(self)@.len() + old(other)@.len(),
            final(self).spec_team_id() == old(self).spec_team_id(),
            final(other).spec_team_id() == old(other).spec_team_id(),
            final(self).spec_name() == old(self).spec_name(),
            final(other).spec_name() == old(other).spec_name(),
    {
        match self.future_builder.pop_back() {
            Some(f) => {
                other.future_builder.push_back(f);
                true
            },
            None => false,
        }
    }

    /// Hands out all actors, first joined first, leaving the troupe empty.
    pub fn take_members(&mut self) -> (r: VecDeque<M>)
        ensures
            r@ == old(self)@,
            final(self)@ == Seq::<M>::empty(),
            final(self).spec_team_id() == old(self).spec_team_id(),
            final(self).spec_name() == old(self).spec_name(),
    {
        let mut taken = VecDeque::new();
        std::mem::swap(&mut taken, &mut self.future_builder);
        taken
    }
}

/// The largest of the stack sizes asked for, if any was asked for.
pub open spec fn max_stack_size_of(sizes: Seq<Option<usize>>) -> Option<usize>
    decreases sizes.len(),
{
    if sizes.len() == 0 {
        None
    } else {
        let rest = max_stack_size_of(sizes.drop_last());
        match (rest, sizes.last()) {
            (None, last) => last,
            (Some(a), None) => Some(a),
            (Some(a), Some(b)) => Some(if a < b { b } else { a }),
        }
    }
}

/// The stack size a troupe's thread needs: the largest asked for by any
/// member, or none when no member asked for one.
pub fn max_stack_size(sizes: &Vec<Option<usize>>) -> (r: Option<usize>)
    ensures
        r == max_stack_size_of(sizes@),
        r matches Some(m) ==> forall|i: int| 0 <= i < sizes@.len() && #[trigger] sizes@[i] is Some ==> sizes@[i]->0 <= m,
        r matches Some(m) ==> exists|i: int| 0 <= i < sizes@.len() && #[trigger] sizes@[i] == Some(m),
        r is None <==> forall|i: int| 0 <= i < sizes@.len() ==> #[trigger] sizes@[i] is None,
{
    let mut best: Option<usize> = None;
    let mut i: usize = 0;
    while i < sizes.len()
        invariant
            i <= sizes.len(),
            best == max_stack_size_of(sizes@.take(i as int)),
            best matches Some(m) ==> forall|j: int| 0 <= j < i && #[trigger] sizes@[j] is Some ==> sizes@[j]->0 <= m,
            best matches Some(m) ==> exists|j: int| 0 <= j < i && #[trigger] sizes@[j] == Some(m),
            best is None <==> forall|j: int| 0 <= j < i ==> #[trigger] sizes@[j] is None,
        decreases sizes.len() - i,
    {
        let next = sizes[i];
        proof {
            assert(sizes@.take(i + 1).drop_last() =~= sizes@.take(i as int));
            assert(sizes@.take(i + 1).last() == sizes@[i as int]);
        }
        best = match (best, next) {
            (None, last) => last,
            (Some(a), None) => Some(a),
            (Some(a), Some(b)) => Some(if a < b { b } else { a }),
        };
        i += 1;
    }
    proof {
        assert(sizes@.take(sizes.len() as int) =~= sizes@);
    }
    best
}

/// The name of a troupe's thread: the name it was given, or `Troupe-<id>`.
pub open spec fn troupe_thread_name(name: Option<Seq<char>>, team_id: usize) -> Seq<char> {
    match name {
        Some(n) => n,
        None => "Troupe-"@ + decimal(team_id as nat),
    }
}

/// What happened to a troupe member's run.
#[derive(Clone, Copy, Debug, PartialEq, Eq, Structural)]
pub enum MemberOutcome {
    /// The actor returned without error.
    Finished,
    /// The actor returned an error.
    Failed,
    /// The actor panicked.
    Panicked,
}

/// What the troupe does with a member after its run.
#[derive(Clone, Copy, Debug, PartialEq, Eq, Structural)]
pub enum MemberAction {
    /// Deregister the actor; it is done.
    Exit,
    /// Run the actor again, in its next generation.
    Restart { regeneration: u32 },
}

/// A finished member leaves the troupe; a failed or panicked one is run
/// again with its generation counter one higher.
pub fn member_next_step(outcome: MemberOutcome, regeneration: u32) -> (r: MemberAction)
    requires
        outcome != MemberOutcome::Finished ==> regeneration < u32::MAX,
    ensures
        r == (if outcome == MemberOutcome::Finished {
            MemberAction::Exit
        } else {
            MemberAction::Restart { regeneration: (regeneration + 1) as u32 }
        }),
{
    match outcome {
        MemberOutcome::Finished => MemberAction::Exit,
        _ => MemberAction::Restart { regeneration: regeneration + 1 },
    }
}

impl<M> Troupe<M> {
    /// The name of the troupe's thread: its given name, or `Troupe-<team id>`.
    pub fn thread_name(&self) -> (r: String)
        ensures
            r@ == troupe_thread_name(self.spec_name(), self.spec_team_id()),
    {
        match &self.name {
            Some(n) => n.clone(),
            None => {
                let mut r = String::from_str("Troupe-");
                let digits = decimal_string(self.team_id as u128);
                r.append(digits.as_str());
                r
            },
        }
    }
}

} // verus!

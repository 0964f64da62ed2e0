use vstd::prelude::*;

verus! {

/// Whether core `i` is a valid index of `usage` and not excluded.
pub open spec fn eligible_core(usage: Seq<usize>, excluded: Seq<usize>, i: int) -> bool {
    &&& 0 <= i < usage.len()
    &&& !excluded.contains(i as usize)
}

/// `c` is the first eligible core among those with the fewest actors.
pub open spec fn is_least_used_core(usage: Seq<usize>, excluded: Seq<usize>, c: int) -> bool {
    &&& eligible_core(usage, excluded, c)
    &&& forall|j: int| eligible_core(usage, excluded, j) ==> usage[c] <= usage[j]
    &&& forall|j: int| #![trigger usage[j]] 0 <= j < c && eligible_core(usage, excluded, j) ==> usage[c] < usage[j]
}

/// Some eligible core can still take one more actor.
pub open spec fn can_allocate(usage: Seq<usize>, excluded: Seq<usize>) -> bool {
    exists|i: int| eligible_core(usage, excluded, i) && usage[i] < usize::MAX
}

/// Whether `core` occurs in `cores`.
pub fn contains_core(cores: &[usize], core: usize) -> (r: bool)
    ensures
        r == cores@.contains(core),
{
    let mut i: usize = 0;
    while i < cores.len()
        invariant
            i <= cores@.len(),
            forall|k: int| 0 <= k < i ==> cores@[k] != core,
        decreases cores@.len() - i,
    {
        if cores[i] == core {
            return true;
        }
        i += 1;
    }
    false
}

/// Tracks how many actors run on each CPU core, to place new actors on the
/// least loaded core.
pub struct CoreBalancer {
    pub(crate) core_usage: Vec<usize>,
}

impl View for CoreBalancer {
    type V = Seq<usize>;

    /// The number of actors on each core.
    closed spec fn view(&self) -> Seq<usize> {
        self.core_usage@
    }
}

impl Clone for CoreBalancer {
    /// A balancer with the same counts.
    fn clone(&self) -> (r: Self)
        ensures
            r@ == self@,
    {
        let mut core_usage: Vec<usize> = Vec::new();
        let mut i: usize = 0;
        while i < self.core_usage.len()
            invariant
                i <= self.core_usage@.len(),
                core_usage@ == self.core_usage@.take(i as int),
            decreases self.core_usage@.len() - i,
        {
            core_usage.push(self.core_usage[i]);
            proof {
                assert(self.core_usage@.take(i + 1) =~= self.core_usage@.take(i as int).push(self.core_usage@[i as int]));
            }
            i += 1;
        }
        proof {
            assert(self.core_usage@.take(self.core_usage@.len() as int) =~= self.core_usage@);
        }
        CoreBalancer { core_usage }
    }
}

/// The per-core counts of a balancer, if there is one.
pub open spec fn balancer_view(b: Option<CoreBalancer>) -> Option<Seq<usize>> {
    match b {
        Some(c) => Some(c@),
        None => None,
    }
}

/// A copy of the balancer in `b`, if any.
fn copy_balancer(b: &Option<CoreBalancer>) -> (r: Option<CoreBalancer>)
    ensures
        balancer_view(r) == balancer_view(*b),
{
    match b {
        Some(c) => Some(c.clone()),
        None => None,
    }
}

impl CoreBalancer {
    /// A balancer that starts from the given per-core actor counts.
    pub fn new(core_usage: Vec<usize>) -> (r: Self)
        ensures
            r@ == core_usage@,
    {
        CoreBalancer { core_usage }
    }

    /// The number of actors on each core.
    pub fn core_usage(&self) -> (r: &Vec<usize>)
        ensures
            r@ == self@,
    {
        &self.core_usage
    }

    /// Picks the least used core that is not excluded (the first one on a
    /// tie), counts one more actor on it and returns its index.
    pub fn allocate_core(&mut self, excluded_cores: &[usize]) -> (core: usize)
        requires
            can_allocate(old(self)@, excluded_cores@),
        ensures
            is_least_used_core(old(self)@, excluded_cores@, core as int),
            final(self)@ == old(self)@.update(core as int, (old(self)@[core as int] + 1) as usize),
    {
        let ghost usage = self@;
        let ghost excluded = excluded_cores@;
        let mut best: usize = 0;
        let mut found = false;
        let mut i: usize = 0;
        while i < self.core_usage.len()
            invariant
                self@ == usage,
                excluded_cores@ == excluded,
                i <= usage.len(),
                found ==> best < i && eligible_core(usage, excluded, best as int),
                found ==> forall|j: int| 0 <= j < i && eligible_core(usage, excluded, j) ==> usage[best as int] <= usage[j],
                found ==> forall|j: int| #![trigger usage[j]] 0 <= j < best && eligible_core(usage, excluded, j) ==> usage[best as int] < usage[j],
                !found ==> forall|j: int| 0 <= j < i ==> !eligible_core(usage, excluded, j),
            decreases usage.len() - i,
        {
            if !contains_core(excluded_cores, i) {
                if !found || self.core_usage[i] < self.core_usage[best] {
                    best = i;
                    found = true;
                }
            }
            i += 1;
        }
        proof {
            let w = choose|w: int| eligible_core(usage, excluded, w) && usage[w] < usize::MAX;
            assert(found);
            assert(usage[best as int] <= usage[w]);
        }
        self.core_usage.set(best, self.core_usage[best] + 1);
        best
    }
}

/// The eligible cores' counts are within one of each other.
pub open spec fn balanced(usage: Seq<usize>, excluded: Seq<usize>) -> bool {
    forall|i: int, j: int|
        eligible_core(usage, excluded, i) && eligible_core(usage, excluded, j) ==> #[trigger] usage[i] <= #[trigger] usage[j] + 1
}

/// Placing an actor on the least used eligible core keeps the load
/// balanced: when the eligible cores' counts are within one of each other,
/// they still are afterwards (so repeated allocation from equal counts
/// goes round the cores).
pub proof fn law_allocation_keeps_balance(usage: Seq<usize>, excluded: Seq<usize>, c: int)
    requires
        balanced(usage, excluded),
        is_least_used_core(usage, excluded, c),
        usage[c] < usize::MAX,
    ensures
        balanced(usage.update(c, (usage[c] + 1) as usize), excluded),
{
    let after = usage.update(c, (usage[c] + 1) as usize);
    assert forall|i: int, j: int|
        eligible_core(after, excluded, i) && eligible_core(after, excluded, j) implies #[trigger] after[i] <= #[trigger] after[j] + 1 by {
        assert(eligible_core(usage, excluded, i));
        assert(eligible_core(usage, excluded, j));
        assert(usage[i] <= usage[j] + 1);
        assert(usage[c] <= usage[j]);
        assert(usage[i] <= usage[c] + 1);
    }
}

/// Whether core `c` is among the excluded ones.
pub open spec fn core_is_excluded(excluded: Seq<usize>, c: int) -> bool {
    excluded.contains(c as usize)
}

/// Which core a solo actor runs on, before pinning.
pub open spec fn spec_actor_core(
    explicit_core: Option<usize>,
    default_core: usize,
    excluded: Seq<usize>,
) -> usize {
    let preferred = match explicit_core {
        Some(c) => c,
        None => default_core,
    };
    if excluded.len() == 0 || !excluded.contains(preferred) {
        preferred
    } else if exists|c: int| 0 <= c < excluded.len() && !#[trigger] core_is_excluded(excluded, c) {
        (choose|c: int|
            0 <= c < excluded.len() && !#[trigger] core_is_excluded(excluded, c)
            && forall|d: int| 0 <= d < c ==> core_is_excluded(excluded, d)) as usize
    } else {
        preferred
    }
}

/// Chooses the core for a solo actor: a balancer picks the least used
/// allowed core; otherwise the explicit core (or the default one) is kept
/// unless excluded, in which case the lowest core below the number of
/// exclusions that is not excluded is used, falling back to the preferred core.
pub fn choose_actor_core(
    explicit_core: Option<usize>,
    default_core: usize,
    excluded_cores: &[usize],
    core_balancer: Option<CoreBalancer>,
) -> (core: usize)
    requires
        core_balancer matches Some(b) ==> can_allocate(b@, excluded_cores@),
    ensures
        core_balancer matches Some(b) ==> is_least_used_core(b@, excluded_cores@, core as int),
        core_balancer is None ==> core == spec_actor_core(explicit_core, default_core, excluded_cores@),
{
    let preferred = match explicit_core {
        Some(c) => c,
        None => default_core,
    };
    match core_balancer {
        Some(balancer) => {
            let mut b = balancer;
            b.allocate_core(excluded_cores)
        },
        None => {
            if excluded_cores.len() == 0 || !contains_core(excluded_cores, preferred) {
                preferred
            } else {
                let n = excluded_cores.len();
                let mut c: usize = 0;
                while c < n
                    invariant
                        n == excluded_cores@.len(),
                        c <= n,
                        core_balancer is None,
                        n > 0,
                        core_is_excluded(excluded_cores@, preferred as int),
                        preferred == (match explicit_core { Some(x) => x, None => default_core }),
                        forall|d: int| 0 <= d < c ==> core_is_excluded(excluded_cores@, d),
                    decreases n - c,
                {
                    if !contains_core(excluded_cores, c) {
                        proof {
                            let ex = excluded_cores@;
                            assert(!core_is_excluded(ex, c as int));
                            let w = choose|w: int|
                                0 <= w < ex.len() && !#[trigger] core_is_excluded(ex, w)
                                && forall|d: int| 0 <= d < w ==> core_is_excluded(ex, d);
                            assert(w == c) by {
                                if w < c {
                                    assert(core_is_excluded(ex, w));
                                } else if w > c {
                                    assert(core_is_excluded(ex, c as int));
                                }
                            }
                        }
                        return c;
                    }
                    c += 1;
                }
                preferred
            }
        },
    }
}

/// Where an actor's thread may run: an explicit core, cores to avoid, and
/// optionally a balancer shared among actors.
#[derive(Clone)]
pub struct CorePlacement {
    pub explicit_core: Option<usize>,
    pub excluded_cores: Vec<usize>,
    pub core_balancer: Option<CoreBalancer>,
}

impl CorePlacement {
    /// No explicit core, no exclusions and no balancer.
    pub fn new() -> (r: Self)
        ensures
            r.explicit_core is None,
            r.excluded_cores@ == Seq::<usize>::empty(),
            r.core_balancer is None,
    {
        CorePlacement { explicit_core: None, excluded_cores: Vec::new(), core_balancer: None }
    }

    /// Runs the actor on core `one_offset_core`, counted from one as the
    /// operating system's task manager counts them.
    pub fn with_explicit_core(&self, one_offset_core: u16) -> (r: Self)
        requires
            one_offset_core > 0,
        ensures
            r.explicit_core == Some((one_offset_core - 1) as usize),
            r.excluded_cores@ == self.excluded_cores@,
            balancer_view(r.core_balancer) == balancer_view(self.core_balancer),
    {
        let zero_offset_core = one_offset_core - 1;
        CorePlacement {
            explicit_core: Some(zero_offset_core as usize),
            excluded_cores: self.excluded_cores.clone(),
            core_balancer: copy_balancer(&self.core_balancer),
        }
    }

    /// Keeps the actor off the given cores.
    pub fn with_core_exclusion(&self, cores: Vec<usize>) -> (r: Self)
        ensures
            r.explicit_core == self.explicit_core,
            r.excluded_cores@ == cores@,
            balancer_view(r.core_balancer) == balancer_view(self.core_balancer),
    {
        CorePlacement {
            explicit_core: self.explicit_core,
            excluded_cores: cores,
            core_balancer: copy_balancer(&self.core_balancer),
        }
    }

    /// Places the actor with the given balancer.
    pub fn with_core_balancing(&self, core_balancer: CoreBalancer) -> (r: Self)
        ensures
            r.explicit_core == self.explicit_core,
            r.excluded_cores@ == self.excluded_cores@,
            balancer_view(r.core_balancer) == Some(core_balancer@),
    {
        CorePlacement {
            explicit_core: self.explicit_core,
            excluded_cores: self.excluded_cores.clone(),
            core_balancer: Some(core_balancer),
        }
    }

    /// The core the actor runs on when `default_core` is its default.
    pub fn choose_core(&self, default_core: usize) -> (core: usize)
        requires
            balancer_view(self.core_balancer) matches Some(u) ==> can_allocate(u, self.excluded_cores@),
        ensures
            balancer_view(self.core_balancer) matches Some(u) ==> is_least_used_core(u, self.excluded_cores@, core as int),
            self.core_balancer is None ==> core == spec_actor_core(self.explicit_core, default_core, self.excluded_cores@),
    {
        choose_actor_core(self.explicit_core, default_core, self.excluded_cores.as_slice(), copy_balancer(&self.core_balancer))
    }
}

} // verus!

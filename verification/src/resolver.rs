//! The version-resolution cache: a serialized state machine with a
//! single-flight guarantee.
//!
//! A [`Resolver`] owns two tables: the cache, mapping each resolved
//! resource to its version list, and the pending table, mapping each
//! resource with a fetch in flight to the ordered waiters for it.  The
//! service processes one message at a time: [`Resolver::handle_request`]
//! answers a lookup from the cache, joins an in-flight fetch, or starts
//! the first fetch for a resource; [`Resolver::handle_completed`] folds a
//! finished fetch into the cache and says which waiters get the result.
//! Both steps are proved equal to specification-level transition
//! functions, and the single-flight guarantee — one fetch per resource,
//! every waiter sees the identical outcome — is proved of those
//! transitions for runs of any length.
//!
//! Failed fetches are not cached: every waiter registered while the fetch
//! was in flight receives the failure, and a later lookup in the same run
//! may try again.  Once a resource is cached its entry is immutable for
//! the run: neither a lookup nor a later completion replaces it.

use vstd::prelude::*;

use crate::error::Error;
use crate::error::ErrorView;
use crate::resource::Resource;
use crate::resource::ResourceView;
use crate::resource::spec_url;
use crate::updater::Upd;
use crate::updater::spec_updater_for;
use crate::updater::updater_for;
use crate::version::Version;
use crate::version::VersionView;

verus! {

// ---------------------------------------------------------------------------
// Association lists and the finite maps they denote.
// ---------------------------------------------------------------------------
/// The map denoted by an association list; a later pair with the same
/// key would shadow an earlier one, but well-formed lists have distinct
/// keys.
pub open spec fn assoc_map<K, V>(s: Seq<(K, V)>) -> Map<K, V>
    decreases s.len(),
{
    if s.len() == 0 {
        Map::empty()
    } else {
        assoc_map(s.drop_last()).insert(s.last().0, s.last().1)
    }
}

/// Pairwise-distinct keys.
pub open spec fn distinct_keys<K, V>(s: Seq<(K, V)>) -> bool {
    forall|j: int, l: int| 0 <= j < l < s.len() ==> (#[trigger] s[j]).0 != (#[trigger] s[l]).0
}

proof fn lemma_assoc_map_index<K, V>(s: Seq<(K, V)>, i: int)
    requires
        0 <= i < s.len(),
        distinct_keys(s),
    ensures
        assoc_map(s).contains_key(s[i].0),
        assoc_map(s)[s[i].0] == s[i].1,
    decreases s.len(),
{
    if i < s.len() - 1 {
        lemma_assoc_map_index(s.drop_last(), i);
        assert(s.drop_last()[i] == s[i]);
        assert(s[i].0 != s.last().0);
    }
}

proof fn lemma_assoc_map_absent<K, V>(s: Seq<(K, V)>, k: K)
    requires
        forall|j: int| 0 <= j < s.len() ==> (#[trigger] s[j]).0 != k,
    ensures
        !assoc_map(s).contains_key(k),
    decreases s.len(),
{
    if s.len() > 0 {
        lemma_assoc_map_absent(s.drop_last(), k);
    }
}

proof fn lemma_assoc_map_push<K, V>(s: Seq<(K, V)>, k: K, v: V)
    ensures
        assoc_map(s.push((k, v))) == assoc_map(s).insert(k, v),
{
    assert(s.push((k, v)).drop_last() =~= s);
}

proof fn lemma_assoc_map_remove<K, V>(s: Seq<(K, V)>, i: int)
    requires
        0 <= i < s.len(),
        distinct_keys(s),
    ensures
        assoc_map(s.remove(i)) == assoc_map(s).remove(s[i].0),
    decreases s.len(),
{
    s.remove_ensures(i);
    if i == s.len() - 1 {
        assert(s.remove(i) =~= s.drop_last());
        lemma_assoc_map_absent(s.drop_last(), s[i].0);
        assert(assoc_map(s.drop_last()).insert(s[i].0, s[i].1).remove(s[i].0) =~= assoc_map(
            s.drop_last(),
        ));
    } else {
        let dl = s.drop_last();
        assert(s.remove(i).drop_last() =~= dl.remove(i));
        assert(s.remove(i).last() == s.last());
        lemma_assoc_map_remove(dl, i);
        assert(dl[i] == s[i]);
        assert(s.last().0 != s[i].0);
        assert(assoc_map(dl).remove(s[i].0).insert(s.last().0, s.last().1) =~= assoc_map(
            dl,
        ).insert(s.last().0, s.last().1).remove(s[i].0));
    }
}

proof fn lemma_distinct_remove<K, V>(s: Seq<(K, V)>, i: int)
    requires
        0 <= i < s.len(),
        distinct_keys(s),
    ensures
        distinct_keys(s.remove(i)),
        forall|j: int| 0 <= j < s.remove(i).len() ==> (#[trigger] s.remove(i)[j]).0 != s[i].0,
{
    s.remove_ensures(i);
}

proof fn lemma_distinct_push<K, V>(s: Seq<(K, V)>, k: K, v: V)
    requires
        distinct_keys(s),
        forall|j: int| 0 <= j < s.len() ==> (#[trigger] s[j]).0 != k,
    ensures
        distinct_keys(s.push((k, v))),
{
}

// ---------------------------------------------------------------------------
// The resolver state and its model.
// ---------------------------------------------------------------------------
/// Mathematical model of a [`Resolver`]: the cache of resolved version
/// lists and the table of in-flight fetches with their ordered waiters.
pub ghost struct ResolverModel {
    pub cache: Map<ResourceView, Seq<VersionView>>,
    pub pending: Map<ResourceView, Seq<u64>>,
}

/// A fetch outcome at the model level: the version list of a successful
/// fetch, or the failure delivered instead.
pub type OutcomeModel = Result<Seq<VersionView>, ErrorView>;

/// The model of an exec-level fetch outcome.
pub open spec fn outcome_view(o: Result<Vec<Version>, Error>) -> OutcomeModel {
    match o {
        Ok(vs) => Ok(vs.deep_view()),
        Err(e) => Err(e@),
    }
}

/// The resolver state: the sole owner of the cache and the pending
/// table.  Waiters are named by plain identifiers chosen by the caller;
/// the surrounding service maps them to reply channels.
pub struct Resolver {
    cache: Vec<(Resource, Vec<Version>)>,
    pending: Vec<(Resource, Vec<u64>)>,
}

/// The pairs of the cache list, at the model level.
pub open spec fn cache_entries(s: Seq<(Resource, Vec<Version>)>) -> Seq<
    (ResourceView, Seq<VersionView>),
> {
    s.map_values(|p: (Resource, Vec<Version>)| (p.0@, p.1.deep_view()))
}

/// The pairs of the pending list, at the model level.
pub open spec fn pending_entries(s: Seq<(Resource, Vec<u64>)>) -> Seq<(ResourceView, Seq<u64>)> {
    s.map_values(|p: (Resource, Vec<u64>)| (p.0@, p.1@))
}

impl View for Resolver {
    type V = ResolverModel;

    closed spec fn view(&self) -> ResolverModel {
        ResolverModel {
            cache: assoc_map(cache_entries(self.cache@)),
            pending: assoc_map(pending_entries(self.pending@)),
        }
    }
}

impl Resolver {
    /// Both tables keep distinct keys, so that each resource has at most
    /// one cache entry and at most one waiter list.
    pub closed spec fn wf(&self) -> bool {
        distinct_keys(cache_entries(self.cache@)) && distinct_keys(pending_entries(self.pending@))
    }
}

/// What one request step asks of the surrounding service.
pub enum Action {
    /// The resource was cached: hand this result to the waiter now.
    Reply { waiter: u64, versions: Vec<Version> },
    /// No strategy serves the resource: fail the waiter now, and do not
    /// remember anything about the request.
    Reject { waiter: u64, error: Error },
    /// First request for this resource: spawn one fetch task for this
    /// URL through this strategy; the waiter has been enqueued.
    StartFetch { updater: Upd, url: String },
    /// A fetch for this resource is already in flight: the waiter has
    /// been enqueued and will share its outcome.
    Wait,
}

/// Mathematical model of an [`Action`].
pub ghost enum ActionModel {
    Reply { waiter: u64, versions: Seq<VersionView> },
    Reject { waiter: u64, error: ErrorView },
    StartFetch { updater: Upd, url: Seq<char> },
    Wait,
}

impl View for Action {
    type V = ActionModel;

    open spec fn view(&self) -> ActionModel {
        match self {
            Action::Reply { waiter, versions } => ActionModel::Reply {
                waiter: *waiter,
                versions: versions.deep_view(),
            },
            Action::Reject { waiter, error } => ActionModel::Reject {
                waiter: *waiter,
                error: error@,
            },
            Action::StartFetch { updater, url } => ActionModel::StartFetch {
                updater: *updater,
                url: url@,
            },
            Action::Wait => ActionModel::Wait,
        }
    }
}

// ---------------------------------------------------------------------------
// The transitions, in specification form.
// ---------------------------------------------------------------------------
/// One request step.  A cached resource is answered at once and the
/// state does not change.  Otherwise the waiter joins the pending list
/// for the resource, and if it is the first waiter — the list did not
/// exist — one fetch is started for it.
pub open spec fn spec_handle_request(m: ResolverModel, r: ResourceView, waiter: u64) -> (
    ResolverModel,
    ActionModel,
) {
    if m.cache.contains_key(r) {
        (m, ActionModel::Reply { waiter, versions: m.cache[r] })
    } else if m.pending.contains_key(r) {
        (
            ResolverModel { pending: m.pending.insert(r, m.pending[r].push(waiter)), ..m },
            ActionModel::Wait,
        )
    } else {
        (
            ResolverModel { pending: m.pending.insert(r, seq![waiter]), ..m },
            ActionModel::StartFetch { updater: spec_updater_for(r), url: spec_url(r) },
        )
    }
}

/// One completion step.  A successful outcome is cached — unless the
/// resource is already cached, in which case the existing entry stands:
/// once cached, an entry is immutable for the run.  A failed outcome is
/// never cached, so a later lookup may retry.  Either way the pending
/// list for the resource is removed and its waiters — in registration
/// order — are the ones to answer.
pub open spec fn spec_handle_completed(m: ResolverModel, r: ResourceView, out: OutcomeModel) -> (
    ResolverModel,
    Seq<u64>,
) {
    let waiters = if m.pending.contains_key(r) {
        m.pending[r]
    } else {
        Seq::empty()
    };
    let cache2 = match out {
        Ok(vs) => if m.cache.contains_key(r) {
            m.cache
        } else {
            m.cache.insert(r, vs)
        },
        Err(_) => m.cache,
    };
    (ResolverModel { cache: cache2, pending: m.pending.remove(r) }, waiters)
}

// ---------------------------------------------------------------------------
// Laws of the transitions.
// ---------------------------------------------------------------------------
/// The state invariant of a run: no resource is both cached and in
/// flight, and an in-flight resource always has at least one waiter.
pub open spec fn inv(m: ResolverModel) -> bool {
    &&& forall|r: ResourceView| #[trigger] m.cache.contains_key(r) ==> !m.pending.contains_key(r)
    &&& forall|r: ResourceView| #[trigger] m.pending.contains_key(r) ==> m.pending[r].len() > 0
}

/// A request step preserves the state invariant.
pub proof fn lemma_request_preserves_inv(m: ResolverModel, r: ResourceView, w: u64)
    requires
        inv(m),
    ensures
        inv(spec_handle_request(m, r, w).0),
{
}

/// A completion step preserves the state invariant.
pub proof fn lemma_completed_preserves_inv(m: ResolverModel, r: ResourceView, out: OutcomeModel)
    requires
        inv(m),
    ensures
        inv(spec_handle_completed(m, r, out).0),
{
}

/// A lookup never writes the cache: once cached, a resource's entry is
/// immutable for the lifetime of the run.
pub proof fn lemma_request_preserves_cache(m: ResolverModel, r: ResourceView, w: u64)
    ensures
        spec_handle_request(m, r, w).0.cache == m.cache,
{
}

/// A completion never replaces an existing cache entry either: whatever
/// a later fetch for any resource reports, a cached resource keeps the
/// entry it got when it was first cached.
pub proof fn lemma_completed_preserves_cached(
    m: ResolverModel,
    r: ResourceView,
    out: OutcomeModel,
    k: ResourceView,
)
    requires
        m.cache.contains_key(k),
    ensures
        ({
            let m2 = spec_handle_completed(m, r, out).0;
            m2.cache.contains_key(k) && m2.cache[k] == m.cache[k]
        }),
{
}

/// A request for an already-cached resource is answered from the cache:
/// it starts no fetch and leaves the state — pending table included —
/// unchanged.
pub proof fn lemma_cached_request_no_fetch(m: ResolverModel, r: ResourceView, w: u64)
    requires
        m.cache.contains_key(r),
    ensures
        ({
            let (m2, a) = spec_handle_request(m, r, w);
            m2 == m && a == (ActionModel::Reply { waiter: w, versions: m.cache[r] })
        }),
{
}

/// The state after a run of requests, all for resource `r`, made by the
/// waiters of `ws` in order.
pub open spec fn apply_requests(m: ResolverModel, r: ResourceView, ws: Seq<u64>) -> ResolverModel
    decreases ws.len(),
{
    if ws.len() == 0 {
        m
    } else {
        apply_requests(spec_handle_request(m, r, ws[0]).0, r, ws.drop_first())
    }
}

/// The action that the i-th request of such a run is answered with.
pub open spec fn request_action_at(
    m: ResolverModel,
    r: ResourceView,
    ws: Seq<u64>,
    i: int,
) -> ActionModel {
    spec_handle_request(apply_requests(m, r, ws.take(i)), r, ws[i]).1
}

proof fn lemma_apply_requests_join(m: ResolverModel, r: ResourceView, ws: Seq<u64>)
    requires
        !m.cache.contains_key(r),
        m.pending.contains_key(r),
    ensures
        apply_requests(m, r, ws).cache == m.cache,
        apply_requests(m, r, ws).pending == m.pending.insert(r, m.pending[r] + ws),
        forall|i: int| 0 <= i < ws.len() ==> request_action_at(m, r, ws, i) == ActionModel::Wait,
    decreases ws.len(),
{
    if ws.len() == 0 {
        assert(m.pending[r] + ws =~= m.pending[r]);
        assert(m.pending.insert(r, m.pending[r]) =~= m.pending);
    } else {
        let m1 = spec_handle_request(m, r, ws[0]).0;
        lemma_apply_requests_join(m1, r, ws.drop_first());
        assert(m1.pending[r] + ws.drop_first() =~= m.pending[r] + ws);
        assert(m1.pending.insert(r, m1.pending[r] + ws.drop_first()) =~= m.pending.insert(
            r,
            m.pending[r] + ws,
        ));
        assert forall|i: int| 0 <= i < ws.len() implies request_action_at(m, r, ws, i)
            == ActionModel::Wait by {
            if i == 0 {
                assert(ws.take(0) =~= Seq::<u64>::empty());
            } else {
                assert(ws.take(i).len() > 0);
                assert(ws.take(i)[0] == ws[0]);
                assert(ws.take(i).drop_first() =~= ws.drop_first().take(i - 1));
                assert(apply_requests(m, r, ws.take(i)) == apply_requests(
                    m1,
                    r,
                    ws.drop_first().take(i - 1),
                ));
                assert(request_action_at(m1, r, ws.drop_first(), i - 1) == ActionModel::Wait);
                assert(ws.drop_first()[i - 1] == ws[i]);
            }
        }
    }
}

/// Single flight with identical fan-out.  From a state in which `r` is
/// neither cached nor in flight, a run of requests for `r` by the
/// waiters `ws` starts exactly one fetch — the first request's — and
/// every later request only joins it; the pending list then holds
/// exactly `ws`, and completing the one fetch answers exactly those
/// waiters, in order, each with the one identical outcome.  On success
/// the version list is cached; on failure nothing is cached for `r`, so
/// a later lookup may retry.
pub proof fn lemma_single_flight(
    m: ResolverModel,
    r: ResourceView,
    ws: Seq<u64>,
    out: OutcomeModel,
)
    requires
        !m.cache.contains_key(r),
        !m.pending.contains_key(r),
        ws.len() > 0,
    ensures
        ({
            let m2 = apply_requests(m, r, ws);
            let (m3, answered) = spec_handle_completed(m2, r, out);
            &&& request_action_at(m, r, ws, 0) == (ActionModel::StartFetch {
                updater: spec_updater_for(r),
                url: spec_url(r),
            })
            &&& forall|i: int|
                1 <= i < ws.len() ==> request_action_at(m, r, ws, i) == ActionModel::Wait
            &&& m2.cache == m.cache
            &&& m2.pending == m.pending.insert(r, ws)
            &&& answered == ws
            &&& (out matches Ok(vs) ==> m3.cache == m.cache.insert(r, vs))
            &&& (out is Err ==> m3.cache == m.cache)
            &&& !m3.pending.contains_key(r)
        }),
{
    let m1 = spec_handle_request(m, r, ws[0]).0;
    lemma_apply_requests_join(m1, r, ws.drop_first());
    assert(ws.take(0) =~= Seq::<u64>::empty());
    assert(m1.pending[r] + ws.drop_first() =~= ws);
    assert(m1.pending.insert(r, m1.pending[r] + ws.drop_first()) =~= m.pending.insert(r, ws));
    assert forall|i: int| 1 <= i < ws.len() implies request_action_at(m, r, ws, i)
        == ActionModel::Wait by {
        assert(ws.take(i).len() > 0);
        assert(ws.take(i)[0] == ws[0]);
        assert(ws.take(i).drop_first() =~= ws.drop_first().take(i - 1));
        assert(apply_requests(m, r, ws.take(i)) == apply_requests(
            m1,
            r,
            ws.drop_first().take(i - 1),
        ));
        assert(request_action_at(m1, r, ws.drop_first(), i - 1) == ActionModel::Wait);
        assert(ws.drop_first()[i - 1] == ws[i]);
    }
}

// ---------------------------------------------------------------------------
// The executable steps.
// ---------------------------------------------------------------------------
fn clone_versions(versions: &Vec<Version>) -> (r: Vec<Version>)
    ensures
        r@ == versions@,
{
    let mut out: Vec<Version> = Vec::new();
    let mut i: usize = 0;
    while i < versions.len()
        invariant
            0 <= i <= versions@.len(),
            out@ =~= versions@.take(i as int),
        decreases versions@.len() - i,
    {
        out.push(versions[i].clone());
        i = i + 1;
    }
    assert(out@ =~= versions@);
    out
}

fn clone_outcome(outcome: &Result<Vec<Version>, Error>) -> (r: Result<Vec<Version>, Error>)
    ensures
        outcome_view(r) == outcome_view(*outcome),
{
    match outcome {
        Ok(vs) => Ok(clone_versions(vs)),
        Err(e) => Err(e.clone()),
    }
}

impl Resolver {
    /// A fresh resolver: nothing cached, nothing in flight.  The state
    /// lives for one run and is never shared across runs.
    pub fn new() -> (r: Resolver)
        ensures
            r.wf(),
            inv(r@),
            r@ == (ResolverModel {
                cache: Map::<ResourceView, Seq<VersionView>>::empty(),
                pending: Map::<ResourceView, Seq<u64>>::empty(),
            }),
    {
        let r = Resolver { cache: Vec::new(), pending: Vec::new() };
        proof {
            assert(cache_entries(r.cache@) =~= Seq::<(ResourceView, Seq<VersionView>)>::empty());
            assert(pending_entries(r.pending@) =~= Seq::<(ResourceView, Seq<u64>)>::empty());
        }
        r
    }

    fn find_cache(&self, resource: &Resource) -> (r: Option<usize>)
        ensures
            match r {
                Some(i) => i < self.cache@.len() && cache_entries(self.cache@)[i as int].0
                    == resource@,
                None => forall|j: int|
                    0 <= j < self.cache@.len() ==> (#[trigger] cache_entries(self.cache@)[j]).0
                        != resource@,
            },
    {
        let mut i: usize = 0;
        while i < self.cache.len()
            invariant
                0 <= i <= self.cache@.len(),
                forall|j: int|
                    0 <= j < i ==> (#[trigger] cache_entries(self.cache@)[j]).0 != resource@,
            decreases self.cache@.len() - i,
        {
            if self.cache[i].0.equals(resource) {
                return Some(i);
            }
            i = i + 1;
        }
        None
    }

    fn find_pending(&self, resource: &Resource) -> (r: Option<usize>)
        ensures
            match r {
                Some(i) => i < self.pending@.len() && pending_entries(self.pending@)[i as int].0
                    == resource@,
                None => forall|j: int|
                    0 <= j < self.pending@.len() ==> (#[trigger] pending_entries(self.pending@)[j]).0
                        != resource@,
            },
    {
        let mut i: usize = 0;
        while i < self.pending.len()
            invariant
                0 <= i <= self.pending@.len(),
                forall|j: int|
                    0 <= j < i ==> (#[trigger] pending_entries(self.pending@)[j]).0 != resource@,
            decreases self.pending@.len() - i,
        {
            if self.pending[i].0.equals(resource) {
                return Some(i);
            }
            i = i + 1;
        }
        None
    }

    /// Process one lookup request: the step of [`spec_handle_request`],
    /// executably.
    pub fn handle_request(&mut self, resource: &Resource, waiter: u64) -> (action: Action)
        requires
            old(self).wf(),
        ensures
            final(self).wf(),
            ({
                let (m2, a) = spec_handle_request(old(self)@, resource@, waiter);
                final(self)@ == m2 && action@ == a
            }),
    {
        if let Some(i) = self.find_cache(resource) {
            proof {
                lemma_assoc_map_index(cache_entries(self.cache@), i as int);
            }
            let versions = clone_versions(&self.cache[i].1);
            proof {
                assert(versions.deep_view() =~= self.cache@[i as int].1.deep_view());
            }
            return Action::Reply { waiter, versions };
        }
        proof {
            lemma_assoc_map_absent(cache_entries(self.cache@), resource@);
        }
        if let Some(i) = self.find_pending(resource) {
            proof {
                lemma_assoc_map_index(pending_entries(self.pending@), i as int);
                lemma_assoc_map_remove(pending_entries(self.pending@), i as int);
                lemma_distinct_remove(pending_entries(self.pending@), i as int);
            }
            let ghost pre = self.pending@;
            let mut entry = self.pending.remove(i);
            entry.1.push(waiter);
            self.pending.push(entry);
            proof {
                assert(pending_entries(self.pending@) =~= pending_entries(pre).remove(
                    i as int,
                ).push((resource@, pre[i as int].1@.push(waiter))));
                lemma_distinct_push(
                    pending_entries(pre).remove(i as int),
                    resource@,
                    pre[i as int].1@.push(waiter),
                );
                lemma_assoc_map_push(
                    pending_entries(pre).remove(i as int),
                    resource@,
                    pre[i as int].1@.push(waiter),
                );
                assert(assoc_map(pending_entries(pre)).remove(resource@).insert(
                    resource@,
                    pre[i as int].1@.push(waiter),
                ) =~= assoc_map(pending_entries(pre)).insert(
                    resource@,
                    pre[i as int].1@.push(waiter),
                ));
            }
            return Action::Wait;
        }
        proof {
            lemma_assoc_map_absent(pending_entries(self.pending@), resource@);
        }
        let updater = match updater_for(resource) {
            Ok(u) => u,
            Err(error) => {
                return Action::Reject { waiter, error };
            },
        };
        let url = resource.url();
        let ghost pre = self.pending@;
        let mut waiters: Vec<u64> = Vec::new();
        waiters.push(waiter);
        self.pending.push((resource.clone(), waiters));
        proof {
            assert(pending_entries(self.pending@) =~= pending_entries(pre).push(
                (resource@, seq![waiter]),
            ));
            lemma_distinct_push(pending_entries(pre), resource@, seq![waiter]);
            lemma_assoc_map_push(pending_entries(pre), resource@, seq![waiter]);
        }
        Action::StartFetch { updater, url }
    }

    /// Fold one finished fetch into the state: the step of
    /// [`spec_handle_completed`], executably.  A success is cached only
    /// for a resource not cached yet.  The returned replies pair
    /// every waiter of the resource, in registration order, with the one
    /// identical outcome.  When no waiter list exists — which a run of
    /// the service never produces — there is simply nobody to answer,
    /// and the replies are empty.
    pub fn handle_completed(&mut self, resource: &Resource, outcome: &Result<Vec<Version>, Error>)
        -> (replies: Vec<(u64, Result<Vec<Version>, Error>)>)
        requires
            old(self).wf(),
        ensures
            final(self).wf(),
            ({
                let (m2, ws) = spec_handle_completed(old(self)@, resource@, outcome_view(*outcome));
                &&& final(self)@ == m2
                &&& replies@.len() == ws.len()
                &&& forall|i: int|
                    0 <= i < ws.len() ==> (#[trigger] replies@[i]).0 == ws[i] && outcome_view(
                        replies@[i].1,
                    ) == outcome_view(*outcome)
            }),
    {
        let ghost m0 = self@;
        if let Ok(versions) = outcome {
            match self.find_cache(resource) {
                Some(i) => {
                    // Already cached: the existing entry is immutable.
                    proof {
                        lemma_assoc_map_index(cache_entries(self.cache@), i as int);
                    }
                },
                None => {
                    proof {
                        lemma_assoc_map_absent(cache_entries(self.cache@), resource@);
                    }
                    let ghost pre = self.cache@;
                    self.cache.push((resource.clone(), clone_versions(versions)));
                    proof {
                        assert(cache_entries(self.cache@) =~= cache_entries(pre).push(
                            (resource@, versions.deep_view()),
                        ));
                        lemma_distinct_push(cache_entries(pre), resource@, versions.deep_view());
                        lemma_assoc_map_push(cache_entries(pre), resource@, versions.deep_view());
                    }
                },
            }
        }
        let waiters: Vec<u64> = match self.find_pending(resource) {
            Some(i) => {
                proof {
                    lemma_assoc_map_index(pending_entries(self.pending@), i as int);
                    lemma_assoc_map_remove(pending_entries(self.pending@), i as int);
                    lemma_distinct_remove(pending_entries(self.pending@), i as int);
                }
                let ghost pre = self.pending@;
                let entry = self.pending.remove(i);
                proof {
                    assert(pending_entries(self.pending@) =~= pending_entries(pre).remove(
                        i as int,
                    ));
                }
                entry.1
            },
            None => {
                proof {
                    lemma_assoc_map_absent(pending_entries(self.pending@), resource@);
                    assert(m0.pending.remove(resource@) =~= m0.pending);
                }
                Vec::new()
            },
        };
        let mut replies: Vec<(u64, Result<Vec<Version>, Error>)> = Vec::new();
        let mut i: usize = 0;
        while i < waiters.len()
            invariant
                0 <= i <= waiters@.len(),
                replies@.len() == i,
                forall|j: int|
                    0 <= j < i ==> (#[trigger] replies@[j]).0 == waiters@[j] && outcome_view(
                        replies@[j].1,
                    ) == outcome_view(*outcome),
            decreases waiters@.len() - i,
        {
            replies.push((waiters[i], clone_outcome(outcome)));
            i = i + 1;
        }
        replies
    }
}

} // verus!

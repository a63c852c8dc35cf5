use vstd::prelude::*;

verus! {

/// Which probe a health check runs.
#[derive(Clone, Copy, Debug, PartialEq, Eq, Structural)]
pub enum HealthCheckType {
    Http,
    Tcp,
    Cmd,
    Proccess,
}

/// Health-check settings of one service.
#[derive(Clone, Debug)]
pub struct HealthCheckConfig {
    pub test_type: HealthCheckType,
    pub test_target: String,
    pub interval: i32,
    pub max_failures: i32,
    pub start_period: Option<i32>,
}

/// One configured service; immutable once loaded.
#[derive(Clone, Debug)]
pub struct ServiceConfig {
    pub name: String,
    pub log_redirect: bool,
    pub log_pattern: Option<String>,
    pub healthcheck: Option<HealthCheckConfig>,
    pub start_cmd: Vec<String>,
    pub depends_on: Option<Vec<String>>,
}

/// Settings of the optional HTTP API.
#[derive(Clone, Debug)]
pub struct ApiConfig {
    pub enable: bool,
    pub host: String,
    pub port: String,
    pub username: String,
    pub password: String,
}

/// The whole configuration file. `services` holds one entry per service,
/// whose `name` is its key in the file.
#[derive(Clone, Debug)]
pub struct GlobalConfig {
    pub log_level: String,
    pub app_data_home: String,
    pub sys_service_name: String,
    pub sys_service_desc: String,
    pub services: Vec<ServiceConfig>,
    pub api: Option<ApiConfig>,
}

/// Errors of configuration handling.
#[derive(Debug, PartialEq, Eq)]
pub enum ConfigError {
    /// A service depends on a name that no configured service has.
    UnknownDependency { service: String, dependency: String },
    /// Some services can never start because they wait on each other.
    DependencyCycle,
    /// A start order names a service absent from the configuration.
    ServiceNotFound { name: String },
    /// A start order names the same service twice.
    DuplicateService { name: String },
}

// ---------------------------------------------------------------- defaults

pub fn default_log_level() -> (r: String)
    ensures
        r@ == "info"@,
{
    String::from_str("info")
}

pub fn default_sys_service_name() -> (r: String)
    ensures
        r@ == "process-compose"@,
{
    String::from_str("process-compose")
}

pub fn default_sys_service_desc() -> (r: String)
    ensures
        r@ == "Process Monitoring and Management Tool"@,
{
    String::from_str("Process Monitoring and Management Tool")
}

pub fn default_service_name() -> (r: String)
    ensures
        r@ == Seq::<char>::empty(),
{
    proof {
        reveal_strlit("");
    }
    String::from_str("")
}

pub fn default_check_interval() -> (r: i32)
    ensures
        r == 5,
{
    5
}

pub fn default_max_failures() -> (r: i32)
    ensures
        r == 1,
{
    1
}

// ---------------------------------------------------------------- model

/// The declared dependencies of a service (none when `depends_on` is absent).
pub open spec fn deps_of(c: ServiceConfig) -> Seq<String> {
    match c.depends_on {
        Some(v) => v@,
        None => Seq::empty(),
    }
}

/// Some service of `services` is named `name`.
pub open spec fn provided(services: Seq<ServiceConfig>, name: Seq<char>) -> bool {
    exists|j: int| 0 <= j < services.len() && (#[trigger] services[j]).name@ == name
}

/// Every declared dependency names a configured service.
pub open spec fn all_deps_known(services: Seq<ServiceConfig>) -> bool {
    forall|i: int, k: int|
        0 <= i < services.len() && 0 <= k < deps_of(services[i]).len() ==> provided(
            services,
            (#[trigger] deps_of(services[i])[k])@,
        )
}

/// `group` is a non-empty set of services each of which waits on a name that
/// only members of the group carry. In a finite configuration such a group
/// exists exactly when the `depends_on` edges contain a cycle: a cycle is such
/// a group, and following waits inside a group must eventually revisit a member.
pub open spec fn blocked_group(services: Seq<ServiceConfig>, group: Set<int>) -> bool {
    &&& exists|i: int| group.contains(i)
    &&& forall|i: int| #[trigger] group.contains(i) ==> 0 <= i < services.len()
    &&& forall|i: int|
        #[trigger] group.contains(i) ==> exists|k: int|
            0 <= k < deps_of(services[i]).len() && carried_only_by(
                services,
                group,
                (#[trigger] deps_of(services[i])[k])@,
            )
}

/// Every service named `name` is a member of `group`.
pub open spec fn carried_only_by(services: Seq<ServiceConfig>, group: Set<int>, name: Seq<char>) -> bool {
    forall|j: int| 0 <= j < services.len() && (#[trigger] services[j]).name@ == name ==> group.contains(j)
}

pub open spec fn has_dependency_cycle(services: Seq<ServiceConfig>) -> bool {
    exists|group: Set<int>| blocked_group(services, group)
}

/// `order` lists each service of `services` exactly once (as `idx`, a
/// permutation of its indices), and every declared dependency of a service is
/// the name of a service listed before it.
pub open spec fn order_by_indices(
    services: Seq<ServiceConfig>,
    order: Seq<Seq<char>>,
    idx: Seq<int>,
) -> bool {
    &&& idx.len() == order.len()
    &&& idx.no_duplicates()
    &&& forall|k: int| 0 <= k < idx.len() ==> 0 <= #[trigger] idx[k] < services.len()
    &&& forall|i: int| 0 <= i < services.len() ==> #[trigger] idx.contains(i)
    &&& forall|k: int| 0 <= k < idx.len() ==> order[k] == (#[trigger] services[idx[k]]).name@
    &&& forall|k: int, d: int|
        0 <= k < idx.len() && 0 <= d < deps_of(services[idx[k]]).len() ==> placed_before(
            order,
            k,
            (#[trigger] deps_of(services[idx[k]])[d])@,
        )
}

/// `name` occurs in `order` before position `k`.
pub open spec fn placed_before(order: Seq<Seq<char>>, k: int, name: Seq<char>) -> bool {
    exists|j: int| 0 <= j < k && order[j] == name
}

/// `order` is a start order of `services`: a permutation of their names in
/// which every service comes after all of its declared dependencies.
pub open spec fn is_start_order(services: Seq<ServiceConfig>, order: Seq<Seq<char>>) -> bool {
    exists|idx: Seq<int>| order_by_indices(services, order, idx)
}

pub open spec fn names_of(v: Seq<String>) -> Seq<Seq<char>> {
    v.map_values(|s: String| s@)
}

// ---------------------------------------------------------------- laws

/// The earliest position of `idx` that holds a member of `group`.
proof fn lemma_earliest_member(idx: Seq<int>, group: Set<int>, start: int, witness: int) -> (best: int)
    requires
        0 <= start <= witness < idx.len(),
        group.contains(idx[witness]),
        forall|q: int| 0 <= q < start ==> !group.contains(#[trigger] idx[q]),
    ensures
        0 <= best < idx.len(),
        group.contains(idx[best]),
        forall|q: int| 0 <= q < best ==> !group.contains(#[trigger] idx[q]),
    decreases witness - start,
{
    if group.contains(idx[start]) {
        start
    } else {
        lemma_earliest_member(idx, group, start + 1, witness)
    }
}

/// A configuration with a blocked group has no start order: the member that
/// comes first in an order would need a member before it.
pub proof fn lemma_start_order_excludes_cycle(
    services: Seq<ServiceConfig>,
    order: Seq<Seq<char>>,
    idx: Seq<int>,
    group: Set<int>,
)
    requires
        order_by_indices(services, order, idx),
    ensures
        !blocked_group(services, group),
{
    if blocked_group(services, group) {
        // the member placed first in the order
        let m0 = choose|i: int| group.contains(i);
        assert(idx.contains(m0));
        let best = lemma_earliest_member(idx, group, 0, idx.index_of(m0));
        let m = idx[best];
        assert(group.contains(m));
        let d = choose|d: int|
            0 <= d < deps_of(services[m]).len() && carried_only_by(
                services,
                group,
                (#[trigger] deps_of(services[m])[d])@,
            );
        assert(placed_before(order, best, deps_of(services[idx[best]])[d]@));
        let j = choose|j: int| 0 <= j < best && order[j] == deps_of(services[idx[best]])[d]@;
        assert(services[idx[j]].name@ == deps_of(services[m])[d]@);
        assert(group.contains(idx[j]));
    }
}

/// Resolver law for cyclic configurations: where every dependency is known and
/// the `depends_on` edges contain a cycle, no start order exists and the
/// resolver answers with `DependencyCycle`.
pub proof fn lemma_cycle_rejected(services: Seq<ServiceConfig>, order: Seq<Seq<char>>)
    requires
        has_dependency_cycle(services),
    ensures
        !is_start_order(services, order),
{
    if is_start_order(services, order) {
        let idx = choose|idx: Seq<int>| order_by_indices(services, order, idx);
        let group = choose|group: Set<int>| blocked_group(services, group);
        lemma_start_order_excludes_cycle(services, order, idx, group);
    }
}

// ---------------------------------------------------------------- resolver

/// Number of `false` entries.
pub open spec fn count_pending(done: Seq<bool>) -> nat
    decreases done.len(),
{
    if done.len() == 0 {
        0
    } else {
        count_pending(done.drop_last()) + if done.last() {
            0nat
        } else {
            1nat
        }
    }
}

proof fn lemma_count_pending_mark(done: Seq<bool>, i: int)
    requires
        0 <= i < done.len(),
        !done[i],
    ensures
        count_pending(done.update(i, true)) + 1 == count_pending(done),
    decreases done.len(),
{
    let u = done.update(i, true);
    if i == done.len() - 1 {
        assert(u.drop_last() =~= done.drop_last());
    } else {
        assert(u.drop_last() =~= done.drop_last().update(i, true));
        lemma_count_pending_mark(done.drop_last(), i);
    }
}

/// Some service listed in `order` is named `name`.
spec fn listed_in(services: Seq<ServiceConfig>, order: Seq<usize>, name: Seq<char>) -> bool {
    exists|j: int| 0 <= j < order.len() && (#[trigger] services[order[j] as int]).name@ == name
}

/// Some service listed in `order` before position `k` is named `name`.
spec fn listed_before(services: Seq<ServiceConfig>, order: Seq<usize>, k: int, name: Seq<char>) -> bool {
    exists|j: int| 0 <= j < k && (#[trigger] services[order[j] as int]).name@ == name
}

/// Some dependency of `services[q]` names no listed service.
spec fn waits_on_unlisted(services: Seq<ServiceConfig>, order: Seq<usize>, q: int) -> bool {
    exists|d: int|
        0 <= d < deps_of(services[q]).len() && !listed_in(
            services,
            order,
            (#[trigger] deps_of(services[q])[d])@,
        )
}

/// Indices are distinct, in range, and exactly the `done` ones.
spec fn tracked_order(order: Seq<usize>, done: Seq<bool>, n: nat) -> bool {
    &&& done.len() == n
    &&& forall|k: int| 0 <= k < order.len() ==> order[k] < n
    &&& forall|k: int| 0 <= k < order.len() ==> done[#[trigger] order[k] as int]
    &&& forall|i: int| 0 <= i < n && #[trigger] done[i] ==> exists|k: int|
        0 <= k < order.len() && order[k] == i
    &&& forall|a: int, b: int| 0 <= a < b < order.len() ==> order[a] != order[b]
}

/// Every listed service comes after the services its dependencies name.
spec fn deps_before(services: Seq<ServiceConfig>, order: Seq<usize>) -> bool {
    forall|k: int, d: int|
        0 <= k < order.len() && 0 <= d < deps_of(services[order[k] as int]).len() ==> listed_before(
            services,
            order,
            k,
            (#[trigger] deps_of(services[order[k] as int])[d])@,
        )
}

proof fn lemma_push_keeps_deps_before(services: Seq<ServiceConfig>, order: Seq<usize>, i: usize)
    requires
        deps_before(services, order),
        forall|d: int|
            0 <= d < deps_of(services[i as int]).len() ==> listed_in(
                services,
                order,
                (#[trigger] deps_of(services[i as int])[d])@,
            ),
    ensures
        deps_before(services, order.push(i)),
{
    let o2 = order.push(i);
    assert forall|k: int, d: int|
        0 <= k < o2.len() && 0 <= d < deps_of(services[o2[k] as int]).len() implies listed_before(
        services,
        o2,
        k,
        (#[trigger] deps_of(services[o2[k] as int])[d])@,
    ) by {
        if k < order.len() {
            assert(o2[k] == order[k]);
            assert(listed_before(services, order, k, deps_of(services[order[k] as int])[d]@));
            let j = choose|j: int|
                0 <= j < k && (#[trigger] services[order[j] as int]).name@ == deps_of(
                    services[order[k] as int],
                )[d]@;
            assert(o2[j] == order[j]);
        } else {
            assert(o2[k] == i);
            assert(listed_in(services, order, deps_of(services[i as int])[d]@));
            let j = choose|j: int|
                0 <= j < order.len() && (#[trigger] services[order[j] as int]).name@ == deps_of(
                    services[i as int],
                )[d]@;
            assert(o2[j] == order[j]);
        }
    }
}

/// True iff `name` equals the name of some service listed in `order`.
fn listed(services: &Vec<ServiceConfig>, order: &Vec<usize>, name: &String) -> (r: bool)
    requires
        forall|k: int| 0 <= k < order.len() ==> order[k] < services.len(),
    ensures
        r == listed_in(services@, order@, name@),
{
    let mut j: usize = 0;
    while j < order.len()
        invariant
            j <= order.len(),
            forall|k: int| 0 <= k < order.len() ==> order[k] < services.len(),
            forall|q: int| 0 <= q < j ==> (#[trigger] services@[order@[q] as int]).name@ != name@,
        decreases order.len() - j,
    {
        if services[order[j]].name == *name {
            assert(services@[order@[j as int] as int].name@ == name@);
            return true;
        }
        j = j + 1;
    }
    false
}

/// True iff every declared dependency of `services[i]` is the name of a
/// service listed in `order`.
fn deps_listed(services: &Vec<ServiceConfig>, i: usize, order: &Vec<usize>) -> (r: bool)
    requires
        i < services.len(),
        forall|k: int| 0 <= k < order.len() ==> order[k] < services.len(),
    ensures
        r <==> forall|d: int|
            0 <= d < deps_of(services@[i as int]).len() ==> listed_in(
                services@,
                order@,
                (#[trigger] deps_of(services@[i as int])[d])@,
            ),
{
    match &services[i].depends_on {
        None => true,
        Some(deps) => {
            assert(deps_of(services@[i as int]) == deps@);
            let mut d: usize = 0;
            while d < deps.len()
                invariant
                    d <= deps.len(),
                    i < services.len(),
                    deps_of(services@[i as int]) == deps@,
                    forall|k: int| 0 <= k < order.len() ==> order[k] < services.len(),
                    forall|q: int| 0 <= q < d ==> listed_in(services@, order@, (#[trigger] deps@[q])@),
                decreases deps.len() - d,
            {
                if !listed(services, order, &deps[d]) {
                    assert(!listed_in(services@, order@, deps_of(services@[i as int])[d as int]@));
                    return false;
                }
                d = d + 1;
            }
            true
        },
    }
}

/// The first dependency of some service that names no configured service.
fn find_unknown_dependency(services: &Vec<ServiceConfig>) -> (r: Option<(usize, usize)>)
    ensures
        r is None <==> all_deps_known(services@),
        r matches Some((i, d)) ==> i < services.len() && d < deps_of(services@[i as int]).len()
            && !provided(services@, deps_of(services@[i as int])[d as int]@),
{
    let mut all: Vec<usize> = Vec::new();
    let mut q: usize = 0;
    while q < services.len()
        invariant
            q <= services.len(),
            all@.len() == q,
            forall|k: int| 0 <= k < q ==> all@[k] == k,
        decreases services.len() - q,
    {
        all.push(q);
        q = q + 1;
    }
    let mut i: usize = 0;
    while i < services.len()
        invariant
            i <= services.len(),
            all@.len() == services.len(),
            forall|k: int| 0 <= k < services.len() ==> all@[k] == k,
            forall|p: int, k: int|
                0 <= p < i && 0 <= k < deps_of(services@[p]).len() ==> provided(
                    services@,
                    (#[trigger] deps_of(services@[p])[k])@,
                ),
        decreases services.len() - i,
    {
        if let Some(deps) = &services[i].depends_on {
            assert(deps_of(services@[i as int]) == deps@);
            let mut d: usize = 0;
            while d < deps.len()
                invariant
                    d <= deps.len(),
                    i < services.len(),
                    deps_of(services@[i as int]) == deps@,
                    all@.len() == services.len(),
                    forall|k: int| 0 <= k < services.len() ==> all@[k] == k,
                    forall|k: int| 0 <= k < d ==> provided(services@, (#[trigger] deps@[k])@),
                decreases deps.len() - d,
            {
                if !listed(services, &all, &deps[d]) {
                    proof {
                        if provided(services@, deps@[d as int]@) {
                            let j = choose|j: int|
                                0 <= j < services.len() && (#[trigger] services@[j]).name@
                                    == deps@[d as int]@;
                            assert(all@[j] == j);
                            assert(services@[all@[j] as int].name@ == deps@[d as int]@);
                            assert(listed_in(services@, all@, deps@[d as int]@));
                        }
                        assert(!all_deps_known(services@)) by {
                            assert(!provided(services@, deps_of(services@[i as int])[d as int]@));
                        }
                    }
                    return Some((i, d));
                }
                proof {
                    let j = choose|j: int|
                        0 <= j < all.len() && (#[trigger] services@[all@[j] as int]).name@
                            == deps@[d as int]@;
                    assert(services@[j].name@ == deps@[d as int]@);
                }
                d = d + 1;
            }
        }
        proof {
            assert forall|p: int, k: int|
                0 <= p < i + 1 && 0 <= k < deps_of(services@[p]).len() implies provided(
                services@,
                (#[trigger] deps_of(services@[p])[k])@,
            ) by {
                if p == i {
                    if let Some(deps) = services@[i as int].depends_on {
                        assert(deps_of(services@[p])[k] == deps@[k]);
                    }
                }
            }
        }
        i = i + 1;
    }
    None
}

/// Linearises the services into a start order: every service comes after the
/// services named by its `depends_on`. Services without `depends_on` come first,
/// in input order; then each round appends, in input order, every remaining
/// service whose dependencies are all already placed. A round that places
/// nothing means the remaining services wait on each other.
pub fn analyze_service_dependencies(services: &Vec<ServiceConfig>) -> (r: Result<
    Vec<String>,
    ConfigError,
>)
    ensures
        r is Ok <==> all_deps_known(services@) && !has_dependency_cycle(services@),
        r matches Ok(order) ==> is_start_order(services@, names_of(order@)),
        r matches Err(ConfigError::UnknownDependency { .. }) ==> !all_deps_known(services@),
        r matches Err(ConfigError::DependencyCycle) ==> all_deps_known(services@)
            && has_dependency_cycle(services@),
        r matches Err(e) ==> e is UnknownDependency || e is DependencyCycle,
{
    if let Some((i, d)) = find_unknown_dependency(services) {
        let deps = services[i].depends_on.as_ref().unwrap();
        return Err(
            ConfigError::UnknownDependency {
                service: services[i].name.clone(),
                dependency: deps[d].clone(),
            },
        );
    }
    let n = services.len();
    let mut done: Vec<bool> = Vec::new();
    let mut order: Vec<usize> = Vec::new();
    let mut i: usize = 0;
    while i < n
        invariant
            i <= n,
            n == services.len(),
            done@.len() == i,
            tracked_order(order@, done@ + Seq::new((n - i) as nat, |x: int| false), n as nat),
            forall|k: int| 0 <= k < order.len() ==> order[k] < i,
            forall|k: int| 0 <= k < order.len() ==> deps_of(services@[order@[k] as int]).len() == 0,
            deps_before(services@, order@),
        decreases n - i,
    {
        let ghost pad_before = done@ + Seq::new((n - i) as nat, |x: int| false);
        let ghost order_before = order@;
        if services[i].depends_on.is_none() {
            order.push(i);
            done.push(true);
        } else {
            done.push(false);
        }
        proof {
            let pad = done@ + Seq::new((n - i - 1) as nat, |x: int| false);
            assert forall|q: int| 0 <= q < n implies pad[q] == (if q == i && done@[i as int] {
                true
            } else {
                pad_before[q]
            }) by {}
            assert(deps_before(services@, order@)) by {
                assert forall|k: int, d: int|
                    0 <= k < order.len() && 0 <= d < deps_of(services@[order@[k] as int]).len()
                    implies listed_before(
                    services@,
                    order@,
                    k,
                    (#[trigger] deps_of(services@[order@[k] as int])[d])@,
                ) by {
                    assert(order@[k] == order_before[k]);
                    assert(deps_of(services@[order_before[k] as int]).len() == 0);
                }
            }
            assert(tracked_order(order@, pad, n as nat)) by {
                assert forall|q: int| 0 <= q < n && #[trigger] pad[q] implies exists|k: int|
                    0 <= k < order.len() && order@[k] == q by {
                    if q == i {
                        assert(order@[order.len() - 1] == q);
                    } else {
                        assert(pad_before[q]);
                        let k = choose|k: int| 0 <= k < order_before.len() && order_before[k] == q;
                        assert(order@[k] == q);
                    }
                }
                assert forall|a: int, b: int| 0 <= a < b < order.len() implies order@[a]
                    != order@[b] by {
                    if b == order_before.len() {
                        assert(order_before[a] < i);
                    }
                }
            }
        }
        i = i + 1;
    }
    assert(done@ + Seq::new(0nat, |x: int| false) =~= done@);
    loop
        invariant
            n == services.len(),
            all_deps_known(services@),
            tracked_order(order@, done@, n as nat),
            deps_before(services@, order@),
        decreases count_pending(done@),
    {
        let ghost done_at_start = done@;
        let ghost order_at_start = order@;
        let mut progressed = false;
        let mut all_done = true;
        let mut i: usize = 0;
        while i < n
            invariant
                i <= n,
                n == services.len(),
                tracked_order(order@, done@, n as nat),
                deps_before(services@, order@),
                count_pending(done@) <= count_pending(done_at_start),
                progressed ==> count_pending(done@) < count_pending(done_at_start),
                !progressed ==> done@ == done_at_start && order@ == order_at_start,
                all_done ==> forall|q: int| 0 <= q < i ==> #[trigger] done@[q],
                !all_done ==> exists|q: int| 0 <= q < i && !#[trigger] done@[q],
                // with nothing placed in this round, each service left behind
                // waits on an unplaced name
                !progressed ==> forall|q: int|
                    0 <= q < i && !#[trigger] done@[q] ==> waits_on_unlisted(services@, order@, q),
            decreases n - i,
        {
            if !done[i] {
                if deps_listed(services, i, &order) {
                    proof {
                        lemma_push_keeps_deps_before(services@, order@, i);
                        lemma_count_pending_mark(done@, i as int);
                    }
                    let ghost old_order = order@;
                    let ghost old_done = done@;
                    order.push(i);
                    done.set(i, true);
                    progressed = true;
                    proof {
                        assert forall|q: int| 0 <= q < n && #[trigger] done@[q] implies exists|k: int|
                            0 <= k < order.len() && order@[k] == q by {
                            if q != i {
                                assert(old_done[q]);
                                let k = choose|k: int|
                                    0 <= k < old_order.len() && old_order[k] == q;
                                assert(order@[k] == q);
                            } else {
                                assert(order@[order.len() - 1] == q);
                            }
                        }
                        assert forall|a: int, b: int|
                            0 <= a < b < order.len() implies order@[a] != order@[b] by {
                            if b == order.len() - 1 {
                                assert(!old_done[i as int]);
                                assert(old_done[old_order[a] as int]);
                            }
                        }
                        assert forall|k: int| 0 <= k < order.len() implies done@[#[trigger] order@[k] as int] by {
                            if k < old_order.len() {
                                assert(old_done[old_order[k] as int]);
                            }
                        }
                        if !all_done {
                            let q = choose|q: int| 0 <= q < i && !#[trigger] old_done[q];
                            assert(!done@[q]);
                        }
                    }
                } else {
                    all_done = false;
                    proof {
                        let d = choose|d: int|
                            0 <= d < deps_of(services@[i as int]).len() && !listed_in(
                                services@,
                                order@,
                                (#[trigger] deps_of(services@[i as int])[d])@,
                            );
                        assert(waits_on_unlisted(services@, order@, i as int));
                    }
                }
            }
            i = i + 1;
        }
        if all_done {
            let mut names: Vec<String> = Vec::new();
            let mut k: usize = 0;
            while k < order.len()
                invariant
                    k <= order.len(),
                    n == services.len(),
                    forall|q: int| 0 <= q < order.len() ==> order@[q] < n,
                    names@.len() == k,
                    forall|q: int| 0 <= q < k ==> names@[q]@ == services@[order@[q] as int].name@,
                decreases order.len() - k,
            {
                names.push(services[order[k]].name.clone());
                k = k + 1;
            }
            proof {
                let idx = Seq::new(order@.len(), |q: int| order@[q] as int);
                let nm = names_of(names@);
                assert forall|q: int| 0 <= q < n implies #[trigger] idx.contains(q) by {
                    assert(done@[q]);
                    let k = choose|k: int| 0 <= k < order.len() && order@[k] == q;
                    assert(idx[k] == q);
                }
                assert forall|k: int| 0 <= k < idx.len() implies nm[k] == (
                #[trigger] services@[idx[k]]).name@ by {
                    assert(nm[k] == names@[k]@);
                }
                assert forall|k: int, d: int|
                    0 <= k < idx.len() && 0 <= d < deps_of(services@[idx[k]]).len() implies placed_before(
                    nm,
                    k,
                    (#[trigger] deps_of(services@[idx[k]])[d])@,
                ) by {
                    assert(listed_before(services@, order@, k, deps_of(services@[order@[k] as int])[d]@));
                    let j = choose|j: int|
                        0 <= j < k && (#[trigger] services@[order@[j] as int]).name@ == deps_of(
                            services@[order@[k] as int],
                        )[d]@;
                    assert(nm[j] == names@[j]@);
                }
                assert(idx.no_duplicates());
                assert(idx.len() == nm.len());
                assert(forall|k: int| 0 <= k < idx.len() ==> 0 <= #[trigger] idx[k] < services.len());
                assert(forall|i: int| 0 <= i < services.len() ==> #[trigger] idx.contains(i));
                assert(forall|k: int| 0 <= k < idx.len() ==> nm[k] == (#[trigger] services@[idx[k]]).name@);
                assert(order_by_indices(services@, nm, idx));
                if has_dependency_cycle(services@) {
                    lemma_cycle_rejected(services@, nm);
                }
            }
            return Ok(names);
        }
        if !progressed {
            proof {
                let group = Set::new(|q: int| 0 <= q < n && !done@[q]);
                let q0 = choose|q: int| 0 <= q < n && !#[trigger] done@[q];
                assert(group.contains(q0));
                assert forall|q: int| #[trigger] group.contains(q) implies exists|k: int|
                    0 <= k < deps_of(services@[q]).len() && carried_only_by(
                        services@,
                        group,
                        (#[trigger] deps_of(services@[q])[k])@,
                    ) by {
                    assert(waits_on_unlisted(services@, order@, q));
                    let d = choose|d: int|
                        0 <= d < deps_of(services@[q]).len() && !listed_in(
                            services@,
                            order@,
                            (#[trigger] deps_of(services@[q])[d])@,
                        );
                    assert forall|j: int|
                        0 <= j < services.len() && (#[trigger] services@[j]).name@ == deps_of(
                            services@[q],
                        )[d]@ implies group.contains(j) by {
                        if done@[j] {
                            let k = choose|k: int| 0 <= k < order.len() && order@[k] == j;
                            assert(services@[order@[k] as int].name@ == deps_of(services@[q])[d]@);
                            assert(listed_in(services@, order@, deps_of(services@[q])[d]@));
                        }
                    }
                    assert(carried_only_by(services@, group, deps_of(services@[q])[d]@));
                }
                assert(blocked_group(services@, group));
            }
            return Err(ConfigError::DependencyCycle);
        }
    }
}

} // verus!

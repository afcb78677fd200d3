//! Which services of an app are routed, under which domains, and to which
//! containers.
use vstd::prelude::*;

use crate::dup::{push_deep, Dup};
use crate::ids::parse_uuid_text;
use crate::ids::parsed_uuid;
use crate::config::LoadBalanceAlgorithm;
use crate::models::{
    add_unique_nonblank, all_custom_domains, primary_public_index, public, ContainerService,
    Deployment, DeploymentModel, DeploymentStatus, Project, ProjectModel, ServiceDeploymentModel,
    ServiceModel,
};
use crate::proxy::{normalize_hostname, normalized_hostname, to_lowercase, unicode_lower};
use crate::text::{
    ascii_lower_seq, ascii_lowercase, lemma_str_lt_order, str_less, str_lt, trim, trim_end_char,
    trim_end_char_owned, trim_owned, trim_start_str, trim_start_str_owned, byte_boundary,
    byte_prefix, concat3, ends_with, has_prefix, has_suffix, owned, starts_with, str_eq,
    strip_prefix_owned, trim_start_char, trim_start_char_owned, utf8_width, uuid_string, uuid_text,
};

verus! {

/// The public services of a list, in order.
pub open spec fn public_only(services: Seq<ServiceModel>) -> Seq<ServiceModel>
    decreases services.len(),
{
    if services.len() == 0 {
        Seq::empty()
    } else {
        let prev = public_only(services.drop_last());
        if public(services.last()) {
            prev.push(services.last())
        } else {
            prev
        }
    }
}

/// The settings an app is routed by: the snapshot taken by its latest
/// deployment when that deployment is running and has one, else the app's
/// current settings.
pub open spec fn routing_app_of(app: ProjectModel, latest: Option<DeploymentModel>) -> ProjectModel {
    match latest {
        Some(d) => if d.status == DeploymentStatus::Running && d.app_snapshot is Some {
            d.app_snapshot->0
        } else {
            app
        },
        None => app,
    }
}

/// The settings to route `app` by, given its latest deployment.
pub fn routing_app<'a>(app: &'a Project, latest: &'a Option<Deployment>) -> (r: &'a Project)
    ensures
        r.deep_view() == routing_app_of(app.deep_view(), latest.deep_view()),
{
    match latest {
        Some(d) => match d.status {
            DeploymentStatus::Running => match &d.app_snapshot {
                Some(snapshot) => snapshot,
                None => app,
            },
            _ => app,
        },
        None => app,
    }
}

/// The service that the app's own subdomain routes to: the public service
/// named "web", else the first public service.
pub fn select_exposed_service(app: &Project) -> (r: Option<ContainerService>)
    ensures
        match primary_public_index(app.services.deep_view()) {
            Some(i) => r matches Some(s) && s.deep_view() == app.services.deep_view()[i],
            None => r is None,
        },
{
    match app.primary_public_service_index() {
        Some(i) => Some(app.services[i].dup()),
        None => None,
    }
}

/// The public services of the app, in order.
pub fn exposed_services(app: &Project) -> (r: Vec<ContainerService>)
    ensures
        r.deep_view() == public_only(app.services.deep_view()),
{
    let ghost sv = app.services.deep_view();
    let mut out: Vec<ContainerService> = Vec::new();
    let mut i: usize = 0;
    proof {
        assert(sv.take(0) =~= Seq::<ServiceModel>::empty());
    }
    while i < app.services.len()
        invariant
            i <= app.services@.len(),
            sv == app.services.deep_view(),
            out.deep_view() == public_only(sv.take(i as int)),
        decreases app.services.len() - i,
    {
        proof {
            assert(sv.take(i + 1).drop_last() =~= sv.take(i as int));
        }
        if app.services[i].is_public_http() {
            push_deep(&mut out, app.services[i].dup());
        }
        i = i + 1;
    }
    proof {
        assert(sv.take(sv.len() as int) =~= sv);
    }
    out
}

/// `<app name>.<base domain>`.
pub fn app_subdomain(app: &Project, base_domain: &str) -> (r: String)
    ensures
        r@ == app.name@ + "."@ + base_domain@,
{
    concat3(app.name.as_str(), ".", base_domain)
}

/// `<service name>.<app name>.<base domain>`.
pub fn service_subdomain(app: &Project, service: &ContainerService, base_domain: &str) -> (r:
    String)
    ensures
        r@ == service.name@ + "."@ + app.name@ + "."@ + base_domain@,
{
    let mut r = concat3(service.name.as_str(), ".", app.name.as_str());
    r.append(".");
    r.append(base_domain);
    r
}

/// A set of container names, with no name twice.
pub struct ContainerIdSet {
    ids: Vec<String>,
}

impl View for ContainerIdSet {
    type V = Set<Seq<char>>;

    closed spec fn view(&self) -> Set<Seq<char>> {
        self.ids.deep_view().to_set()
    }
}

impl ContainerIdSet {
    #[verifier::type_invariant]
    closed spec fn no_repeats(self) -> bool {
        self.ids.deep_view().no_duplicates()
    }

    /// The empty set.
    pub fn new() -> (r: ContainerIdSet)
        ensures
            r@ == Set::<Seq<char>>::empty(),
    {
        let r = ContainerIdSet { ids: Vec::new() };
        proof {
            assert(r.ids.deep_view() =~= Seq::<Seq<char>>::empty());
            assert(r@ =~= Set::<Seq<char>>::empty());
        }
        r
    }

    /// Whether `id` is in the set.
    pub fn contains(&self, id: &str) -> (r: bool)
        ensures
            r == self@.contains(id@),
    {
        let mut i: usize = 0;
        while i < self.ids.len()
            invariant
                i <= self.ids@.len(),
                forall|j: int| 0 <= j < i ==> self.ids.deep_view()[j] != id@,
            decreases self.ids.len() - i,
        {
            if str_eq(self.ids[i].as_str(), id) {
                proof {
                    assert(self.ids.deep_view()[i as int] == id@);
                }
                return true;
            }
            i = i + 1;
        }
        false
    }

    /// Adds `id`; no change when it is already there.
    pub fn insert(&mut self, id: String)
        ensures
            final(self)@ == old(self)@.insert(id@),
    {
        proof {
            use_type_invariant(&*self);
        }
        if !self.contains(id.as_str()) {
            let ghost before = self.ids.deep_view();
            let ghost v = id@;
            let mut ids = Vec::new();
            std::mem::swap(&mut ids, &mut self.ids);
            push_deep(&mut ids, id);
            proof {
                assert(ids.deep_view() =~= before.push(v));
                assert(ids.deep_view().no_duplicates()) by {
                    assert forall|a: int, b: int|
                        0 <= a < b < ids.deep_view().len() implies ids.deep_view()[a]
                        != ids.deep_view()[b] by {
                        if b == before.len() {
                            assert(before.contains(before[a]));
                        }
                    }
                }
                assert forall|x: Seq<char>|
                    #![trigger ids.deep_view().to_set().contains(x)]
                    ids.deep_view().to_set().contains(x) <==> before.to_set().insert(v).contains(
                        x,
                    ) by {
                    if ids.deep_view().contains(x) {
                        let j = choose|j: int|
                            0 <= j < ids.deep_view().len() && ids.deep_view()[j] == x;
                        if j < before.len() {
                            assert(before[j] == x);
                        }
                    }
                    if before.contains(x) {
                        let j = choose|j: int| 0 <= j < before.len() && before[j] == x;
                        assert(ids.deep_view()[j] == x);
                    }
                    if x == v {
                        assert(ids.deep_view()[before.len() as int] == x);
                    }
                }
                assert(ids.deep_view().to_set() =~= before.to_set().insert(v));
            }
            self.ids = ids;
        }
    }

    /// Number of names in the set.
    pub fn len(&self) -> (r: usize)
        ensures
            r == self@.len(),
    {
        proof {
            use_type_invariant(self);
            self.ids.deep_view().unique_seq_to_set();
        }
        self.ids.len()
    }

    /// The names, each once, in insertion order.
    pub fn to_vec(&self) -> (r: Vec<String>)
        ensures
            r.deep_view().to_set() == self@,
            r.deep_view().no_duplicates(),
    {
        proof {
            use_type_invariant(self);
        }
        self.ids.dup()
    }
}

/// The names of the containers that the replicas of service `sid` run in.
pub open spec fn service_container_names(sds: Seq<ServiceDeploymentModel>, sid: u128) -> Set<
    Seq<char>,
>
    decreases sds.len(),
{
    if sds.len() == 0 {
        Set::empty()
    } else {
        let prev = service_container_names(sds.drop_last(), sid);
        let d = sds.last();
        match d.container_id {
            Some(c) => if d.service_id == sid {
                prev.insert(c)
            } else {
                prev
            },
            None => prev,
        }
    }
}

/// The containers that serve HTTP for a service in a running deployment:
/// those of its replica deployments, else the deployment's single legacy
/// container, else none known.
pub fn active_http_container_ids(deployment: &Deployment, service_id: u128) -> (r: Option<
    ContainerIdSet,
>)
    ensures
        ({
            let ids = service_container_names(
                deployment.service_deployments.deep_view(),
                service_id,
            );
            if ids.len() > 0 {
                r matches Some(set) && set@ == ids
            } else {
                match deployment.container_id {
                    Some(c) => r matches Some(set) && set@ == set![c@],
                    None => r is None,
                }
            }
        }),
{
    let ghost sds = deployment.service_deployments.deep_view();
    let mut ids = ContainerIdSet::new();
    let mut i: usize = 0;
    proof {
        assert(sds.take(0) =~= Seq::<ServiceDeploymentModel>::empty());
    }
    while i < deployment.service_deployments.len()
        invariant
            i <= deployment.service_deployments@.len(),
            sds == deployment.service_deployments.deep_view(),
            ids@ == service_container_names(sds.take(i as int), service_id),
        decreases deployment.service_deployments.len() - i,
    {
        proof {
            assert(sds.take(i + 1).drop_last() =~= sds.take(i as int));
        }
        let sd = &deployment.service_deployments[i];
        if sd.service_id == service_id {
            match &sd.container_id {
                Some(c) => ids.insert(c.dup()),
                None => {},
            }
        }
        i = i + 1;
    }
    proof {
        assert(sds.take(sds.len() as int) =~= sds);
    }
    if ids.len() > 0 {
        return Some(ids);
    }
    match &deployment.container_id {
        Some(c) => {
            let mut single = ContainerIdSet::new();
            single.insert(c.dup());
            proof {
                assert(single@ =~= set![c@]);
            }
            Some(single)
        },
        None => None,
    }
}

/// The container-name prefix of an app's single "web" service, from before
/// services had their own names in container names.
pub open spec fn legacy_prefix_of(app_id: u128) -> Seq<char> {
    "containr-"@ + uuid_text(app_id) + "-"@
}

/// The legacy container-name prefix, used only when the app's sole service
/// is named "web".
pub fn legacy_service_container_prefix(app: &Project, service: &ContainerService) -> (r: Option<
    String,
>)
    ensures
        r.deep_view() == if app.services@.len() == 1 && service.name@ == "web"@ {
            Some(legacy_prefix_of(app.id))
        } else {
            None
        },
{
    if app.services.len() == 1 && str_eq(service.name.as_str(), "web") {
        let id = uuid_string(app.id);
        Some(concat3("containr-", id.as_str(), "-"))
    } else {
        None
    }
}

/// The app id at the head of a container name: the 36 bytes after
/// "containr-", parsed as a UUID.
pub open spec fn app_id_in_name(name: Seq<char>) -> Option<u128> {
    if !has_prefix(name, "containr-"@) {
        None
    } else {
        let suffix = name.skip(9);
        if utf8_width(suffix) < 36 {
            None
        } else {
            let k = choose|k: int| 0 <= k <= suffix.len() && utf8_width(suffix.take(k)) == 36;
            parsed_uuid(suffix.take(k))
        }
    }
}

/// The inputs on which slicing the 36 bytes after the prefix would panic.
pub open spec fn splits_char_in_id(name: Seq<char>) -> bool {
    has_prefix(name, "containr-"@) && utf8_width(name.skip(9)) >= 36 && !byte_boundary(
        name.skip(9),
        36,
    )
}

/// The app id encoded at the head of a container name, if any.
pub fn parse_app_id_from_container_name(name: &str) -> (r: Option<u128>)
    requires
        !splits_char_in_id(name@),
    ensures
        r == app_id_in_name(name@),
        forall|id: u128, rest: Seq<char>|
            name@ == #[trigger] ("containr-"@ + uuid_text(id) + rest) ==> r == Some(id),
{
    proof {
        reveal_strlit("containr-");
    }
    let suffix = match strip_prefix_owned(name, "containr-") {
        Some(s) => s,
        None => {
            assert(!has_prefix(name@, "containr-"@));
            proof {
                assert forall|id: u128, rest: Seq<char>|
                    name@ == #[trigger] ("containr-"@ + uuid_text(id) + rest) implies false by {
                    assert(name@.subrange(0, 9) =~= "containr-"@);
                }
            }
            return None;
        },
    };
    proof {
        assert(suffix@ =~= name@.skip(9));
    }
    match byte_prefix(suffix.as_str(), 36) {
        Some(id_text) => {
            proof {
                assert(has_prefix(name@, "containr-"@));
                assert(utf8_width(suffix@) >= 36) by {
                    crate::text::lemma_width_monotone_pub(suffix@, id_text@.len() as int);
                }
                let k = id_text@.len() as int;
                assert(utf8_width(suffix@.take(k)) == 36);
                let c = choose|c: int|
                    0 <= c <= suffix@.len() && utf8_width(suffix@.take(c)) == 36;
                crate::text::lemma_width_injective(suffix@, k, c);
            }
            let parsed = parse_uuid_text(id_text.as_str());
            proof {
                assert forall|id: u128, rest: Seq<char>|
                    name@ == #[trigger] ("containr-"@ + uuid_text(id) + rest) implies parsed == Some(
                        id,
                    ) by {
                    crate::text::lemma_uuid_text_ascii(id);
                    assert(suffix@ =~= uuid_text(id) + rest);
                    assert(suffix@.take(36) =~= uuid_text(id));
                    crate::text::lemma_width_injective(suffix@, id_text@.len() as int, 36);
                    assert(id_text@ =~= uuid_text(id));
                }
            }
            parsed
        },
        None => {
            assert(app_id_in_name(name@) is None);
            proof {
                assert forall|id: u128, rest: Seq<char>|
                    name@ == #[trigger] ("containr-"@ + uuid_text(id) + rest) implies false by {
                    crate::text::lemma_uuid_text_ascii(id);
                    assert(suffix@ =~= uuid_text(id) + rest);
                    assert(suffix@.take(36) =~= uuid_text(id));
                    crate::text::lemma_width_monotone_pub(suffix@, 36);
                }
            }
            None
        },
    }
}

/// The host that local api clients should call: the loopback address of
/// the family when the server listens on every address.
pub fn resolve_api_host(host: &str) -> (r: String)
    ensures
        r@ == if host@ == "0.0.0.0"@ {
            "127.0.0.1"@
        } else if host@ == "::"@ {
            "::1"@
        } else {
            host@
        },
{
    if str_eq(host, "0.0.0.0") {
        owned("127.0.0.1")
    } else if str_eq(host, "::") {
        owned("::1")
    } else {
        owned(host)
    }
}


/// An upstream address of a route.
#[derive(Debug, Clone)]
pub struct Upstream {
    pub host: String,
    pub port: u16,
}

impl DeepView for Upstream {
    type V = (Seq<char>, u16);

    open spec fn deep_view(&self) -> (Seq<char>, u16) {
        (self.host@, self.port)
    }
}

impl Dup for Upstream {
    fn dup(&self) -> (r: Self) {
        Upstream { host: self.host.dup(), port: self.port }
    }
}

/// A route of the reverse proxy: requests for `domain` go to the upstreams.
#[derive(Debug, Clone)]
pub struct ProxyRoute {
    pub domain: String,
    pub app_id: Option<u128>,
    pub service_id: Option<u128>,
    pub upstreams: Vec<Upstream>,
    pub ssl_enabled: bool,
    pub algorithm: LoadBalanceAlgorithm,
}

/// `ProxyRoute` with its strings as char sequences.
pub struct RouteModel {
    pub domain: Seq<char>,
    pub app_id: Option<u128>,
    pub service_id: Option<u128>,
    pub upstreams: Seq<(Seq<char>, u16)>,
    pub ssl_enabled: bool,
    pub algorithm: LoadBalanceAlgorithm,
}

impl DeepView for ProxyRoute {
    type V = RouteModel;

    open spec fn deep_view(&self) -> RouteModel {
        RouteModel {
            domain: self.domain@,
            app_id: self.app_id,
            service_id: self.service_id,
            upstreams: self.upstreams.deep_view(),
            ssl_enabled: self.ssl_enabled,
            algorithm: self.algorithm,
        }
    }
}

/// The container-name prefix of a service's replicas:
/// `containr-<app id>-<service name>-`.
pub open spec fn service_prefix_of(app_id: u128, service_name: Seq<char>) -> Seq<char> {
    "containr-"@ + uuid_text(app_id) + "-"@ + service_name + "-"@
}

/// The container-name prefix of a service's replicas.
pub fn service_container_prefix(app: &Project, service: &ContainerService) -> (r: String)
    ensures
        r@ == service_prefix_of(app.id, service.name@),
{
    let id = uuid_string(app.id);
    let mut r = concat3("containr-", id.as_str(), "-");
    r.append(service.name.as_str());
    r.append("-");
    r
}

/// Whether a running container (by its name without leading '/') serves a
/// service: one of the known active containers when those are known, else
/// one named with the service's prefix or the legacy prefix.
pub open spec fn serves_service(
    name: Seq<char>,
    active: Option<Set<Seq<char>>>,
    service_prefix: Seq<char>,
    legacy_prefix: Option<Seq<char>>,
) -> bool {
    name.len() > 0 && match active {
        Some(ids) => ids.contains(name),
        None => has_prefix(name, service_prefix) || match legacy_prefix {
            Some(p) => has_prefix(name, p),
            None => false,
        },
    }
}

/// The view of an optional set of container names.
pub open spec fn active_view(active: Option<ContainerIdSet>) -> Option<Set<Seq<char>>> {
    match active {
        Some(s) => Some(s@),
        None => None,
    }
}

/// The name of a listed container, without leading '/', when it serves the
/// service.
pub fn container_for_service(
    listed_name: &str,
    active: &Option<ContainerIdSet>,
    service_prefix: &str,
    legacy_prefix: &Option<String>,
) -> (r: Option<String>)
    ensures
        ({
            let name = trim_start_char(listed_name@, '/');
            if serves_service(name, active_view(*active), service_prefix@, legacy_prefix.deep_view()) {
                r matches Some(n) && n@ == name
            } else {
                r is None
            }
        }),
{
    let name = trim_start_char_owned(listed_name, '/');
    if name.unicode_len() == 0 {
        return None;
    }
    let serves = match active {
        Some(ids) => ids.contains(name.as_str()),
        None => {
            starts_with(name.as_str(), service_prefix) || match legacy_prefix {
                Some(p) => starts_with(name.as_str(), p.as_str()),
                None => false,
            }
        },
    };
    if serves {
        Some(name)
    } else {
        None
    }
}

/// What refreshing the routes of one service does.
pub enum ServiceRouting {
    /// No upstream answered: drop the route of this domain.
    Remove(String),
    /// Install these routes.
    Add(Vec<ProxyRoute>),
}

/// A route of an app's service to the given upstreams.
pub open spec fn route_model(
    domain: Seq<char>,
    app_id: u128,
    service_id: u128,
    upstreams: Seq<(Seq<char>, u16)>,
    ssl_enabled: bool,
    algorithm: LoadBalanceAlgorithm,
) -> RouteModel {
    RouteModel {
        domain,
        app_id: Some(app_id),
        service_id: Some(service_id),
        upstreams,
        ssl_enabled,
        algorithm,
    }
}

/// The routes of a service with upstreams: its own subdomain, each of its
/// custom domains (with TLS), and, for the primary service, the app's
/// subdomain.
pub open spec fn service_route_models(
    app: ProjectModel,
    service: ServiceModel,
    primary: bool,
    upstreams: Seq<(Seq<char>, u16)>,
    base_domain: Seq<char>,
    algorithm: LoadBalanceAlgorithm,
) -> Seq<RouteModel> {
    let customs = add_unique_nonblank(Seq::empty(), service.domains);
    seq![
        route_model(
            service.name + "."@ + app.name + "."@ + base_domain,
            app.id,
            service.id,
            upstreams,
            false,
            algorithm,
        ),
    ] + Seq::new(
        customs.len(),
        |i: int| route_model(customs[i], app.id, service.id, upstreams, true, algorithm),
    ) + if primary {
        seq![
            route_model(
                app.name + "."@ + base_domain,
                app.id,
                service.id,
                upstreams,
                false,
                algorithm,
            ),
        ]
    } else {
        Seq::empty()
    }
}

fn new_route(
    domain: String,
    app_id: u128,
    service_id: u128,
    upstreams: &Vec<Upstream>,
    ssl_enabled: bool,
    algorithm: LoadBalanceAlgorithm,
) -> (r: ProxyRoute)
    ensures
        r.deep_view() == route_model(
            domain@,
            app_id,
            service_id,
            upstreams.deep_view(),
            ssl_enabled,
            algorithm,
        ),
{
    ProxyRoute {
        domain,
        app_id: Some(app_id),
        service_id: Some(service_id),
        upstreams: upstreams.dup(),
        ssl_enabled,
        algorithm,
    }
}

/// The routing of one public service after its upstreams were resolved.
pub fn service_routing(
    app: &Project,
    service: &ContainerService,
    primary_service_id: u128,
    upstreams: &Vec<Upstream>,
    base_domain: &str,
    algorithm: LoadBalanceAlgorithm,
) -> (r: ServiceRouting)
    ensures
        upstreams@.len() == 0 ==> (r matches ServiceRouting::Remove(d) && d@ == service.name@
            + "."@ + app.name@ + "."@ + base_domain@),
        upstreams@.len() > 0 ==> (r matches ServiceRouting::Add(routes) && routes.deep_view()
            == service_route_models(
            app.deep_view(),
            service.deep_view(),
            service.id == primary_service_id,
            upstreams.deep_view(),
            base_domain@,
            algorithm,
        )),
{
    let service_domain = service_subdomain(app, service, base_domain);
    if upstreams.len() == 0 {
        return ServiceRouting::Remove(service_domain);
    }
    let ghost ups = upstreams.deep_view();
    let mut routes: Vec<ProxyRoute> = Vec::new();
    push_deep(&mut routes, new_route(service_domain, app.id, service.id, upstreams, false, algorithm));
    let customs = service.custom_domains();
    let ghost cs = customs.deep_view();
    let ghost first = routes.deep_view();
    let mut i: usize = 0;
    while i < customs.len()
        invariant
            i <= customs@.len(),
            cs == customs.deep_view(),
            ups == upstreams.deep_view(),
            routes.deep_view() == first + Seq::new(
                i as nat,
                |j: int| route_model(cs[j], app.id, service.id, ups, true, algorithm),
            ),
        decreases customs.len() - i,
    {
        let d = customs[i].dup();
        push_deep(&mut routes, new_route(d, app.id, service.id, upstreams, true, algorithm));
        proof {
            assert(Seq::new(
                (i + 1) as nat,
                |j: int| route_model(cs[j], app.id, service.id, ups, true, algorithm),
            ) =~= Seq::new(
                i as nat,
                |j: int| route_model(cs[j], app.id, service.id, ups, true, algorithm),
            ).push(route_model(cs[i as int], app.id, service.id, ups, true, algorithm)));
        }
        i = i + 1;
    }
    if service.id == primary_service_id {
        let sub = app_subdomain(app, base_domain);
        push_deep(&mut routes, new_route(sub, app.id, service.id, upstreams, false, algorithm));
    }
    proof {
        assert(routes.deep_view() =~= service_route_models(
            app.deep_view(),
            service.deep_view(),
            service.id == primary_service_id,
            ups,
            base_domain@,
            algorithm,
        ));
    }
    ServiceRouting::Add(routes)
}

/// The domains of the routes that satisfy `keep`, in order.
pub open spec fn domains_where(routes: Seq<RouteModel>, keep: spec_fn(RouteModel) -> bool) -> Seq<
    Seq<char>,
>
    decreases routes.len(),
{
    if routes.len() == 0 {
        Seq::empty()
    } else {
        let prev = domains_where(routes.drop_last(), keep);
        if keep(routes.last()) {
            prev.push(routes.last().domain)
        } else {
            prev
        }
    }
}

/// The domains to drop when an app's routes are rebuilt, in the order they
/// are dropped: every route of the app, its subdomain, its custom domains,
/// and every routed domain under `.<app name>.<base domain>`.
pub open spec fn app_route_domains(
    routes: Seq<RouteModel>,
    app: ProjectModel,
    base_domain: Seq<char>,
) -> Seq<Seq<char>> {
    domains_where(routes, |r: RouteModel| r.app_id == Some(app.id)) + seq![
        app.name + "."@ + base_domain,
    ] + all_custom_domains(app) + domains_where(
        routes,
        |r: RouteModel| has_suffix(r.domain, "."@ + app.name + "."@ + base_domain),
    )
}

fn push_domains_where_app(out: &mut Vec<String>, routes: &Vec<ProxyRoute>, app_id: u128)
    ensures
        final(out).deep_view() == old(out).deep_view() + domains_where(
            routes.deep_view(),
            |r: RouteModel| r.app_id == Some(app_id),
        ),
{
    let ghost rs = routes.deep_view();
    let ghost start = out.deep_view();
    let ghost keep = |r: RouteModel| r.app_id == Some(app_id);
    let mut i: usize = 0;
    proof {
        assert(rs.take(0) =~= Seq::<RouteModel>::empty());
        assert(start + Seq::<Seq<char>>::empty() =~= start);
    }
    while i < routes.len()
        invariant
            i <= routes@.len(),
            rs == routes.deep_view(),
            keep == (|r: RouteModel| r.app_id == Some(app_id)),
            out.deep_view() == start + domains_where(rs.take(i as int), keep),
        decreases routes.len() - i,
    {
        proof {
            assert(rs.take(i + 1).drop_last() =~= rs.take(i as int));
        }
        if routes[i].app_id == Some(app_id) {
            let ghost before = out.deep_view();
            push_deep(out, routes[i].domain.dup());
            proof {
                assert(out.deep_view() =~= start + domains_where(rs.take(i + 1), keep));
            }
        }
        i = i + 1;
    }
    proof {
        assert(rs.take(rs.len() as int) =~= rs);
    }
}

fn push_domains_with_suffix(out: &mut Vec<String>, routes: &Vec<ProxyRoute>, suffix: &str)
    ensures
        final(out).deep_view() == old(out).deep_view() + domains_where(
            routes.deep_view(),
            |r: RouteModel| has_suffix(r.domain, suffix@),
        ),
{
    let ghost rs = routes.deep_view();
    let ghost start = out.deep_view();
    let ghost keep = |r: RouteModel| has_suffix(r.domain, suffix@);
    let mut i: usize = 0;
    proof {
        assert(rs.take(0) =~= Seq::<RouteModel>::empty());
        assert(start + Seq::<Seq<char>>::empty() =~= start);
    }
    while i < routes.len()
        invariant
            i <= routes@.len(),
            rs == routes.deep_view(),
            keep == (|r: RouteModel| has_suffix(r.domain, suffix@)),
            out.deep_view() == start + domains_where(rs.take(i as int), keep),
        decreases routes.len() - i,
    {
        proof {
            assert(rs.take(i + 1).drop_last() =~= rs.take(i as int));
        }
        if ends_with(routes[i].domain.as_str(), suffix) {
            push_deep(out, routes[i].domain.dup());
            proof {
                assert(out.deep_view() =~= start + domains_where(rs.take(i + 1), keep));
            }
        }
        i = i + 1;
    }
    proof {
        assert(rs.take(rs.len() as int) =~= rs);
    }
}

/// The domains whose routes are dropped before an app's routes are rebuilt.
pub fn app_routes_to_remove(routes: &Vec<ProxyRoute>, app: &Project, base_domain: &str) -> (r: Vec<
    String,
>)
    ensures
        r.deep_view() == app_route_domains(routes.deep_view(), app.deep_view(), base_domain@),
{
    let mut out: Vec<String> = Vec::new();
    push_domains_where_app(&mut out, routes, app.id);
    push_deep(&mut out, app_subdomain(app, base_domain));
    let customs = app.custom_domains();
    let mut i: usize = 0;
    let ghost start = out.deep_view();
    while i < customs.len()
        invariant
            i <= customs@.len(),
            out.deep_view() == start + customs.deep_view().take(i as int),
        decreases customs.len() - i,
    {
        push_deep(&mut out, customs[i].dup());
        proof {
            assert(customs.deep_view().take(i + 1) =~= customs.deep_view().take(i as int).push(
                customs.deep_view()[i as int],
            ));
        }
        i = i + 1;
    }
    proof {
        assert(customs.deep_view().take(customs@.len() as int) =~= customs.deep_view());
    }
    let mut suffix = concat3(".", app.name.as_str(), ".");
    suffix.append(base_domain);
    push_domains_with_suffix(&mut out, routes, suffix.as_str());
    proof {
        assert(suffix@ =~= "."@ + app.name@ + "."@ + base_domain@);
        assert(out.deep_view() =~= app_route_domains(
            routes.deep_view(),
            app.deep_view(),
            base_domain@,
        ));
    }
    out
}


/// Every element is smaller than each one after it (so none repeats).
pub open spec fn strictly_sorted(s: Seq<Seq<char>>) -> bool {
    forall|i: int, j: int| 0 <= i < j < s.len() ==> str_lt(#[trigger] s[i], #[trigger] s[j])
}

/// Inserts `x` into a strictly sorted list, keeping it strictly sorted; no
/// change when `x` is already there.
pub fn insert_sorted(v: &mut Vec<String>, x: String)
    requires
        strictly_sorted(old(v).deep_view()),
    ensures
        strictly_sorted(final(v).deep_view()),
        forall|d: Seq<char>|
            #![trigger final(v).deep_view().contains(d)]
            final(v).deep_view().contains(d) <==> old(v).deep_view().contains(d) || d == x@,
{
    let ghost s = v.deep_view();
    let mut p: usize = 0;
    while p < v.len() && str_less(v[p].as_str(), x.as_str())
        invariant
            p <= v@.len(),
            s == v.deep_view(),
            forall|k: int| 0 <= k < p ==> str_lt(#[trigger] s[k], x@),
        decreases v.len() - p,
    {
        p = p + 1;
    }
    if p < v.len() && str_eq(v[p].as_str(), x.as_str()) {
        proof {
            assert(s[p as int] == x@);
        }
        return;
    }
    let ghost xv = x@;
    proof {
        if p < s.len() {
            lemma_str_lt_order(s[p as int], xv, xv);
        }
        assert forall|k: int| p <= k < s.len() implies str_lt(xv, #[trigger] s[k]) by {
            if k > p {
                lemma_str_lt_order(xv, s[p as int], s[k]);
            }
        }
    }
    v.insert(p, x);
    proof {
        let n = s.insert(p as int, xv);
        assert(v.deep_view() =~= n);
        assert forall|i: int, j: int| 0 <= i < j < n.len() implies str_lt(
            #[trigger] n[i],
            #[trigger] n[j],
        ) by {
            if i < p && j > p {
                assert(n[j] == s[j - 1]);
            }
        }
        assert forall|d: Seq<char>| n.contains(d) <==> s.contains(d) || d == xv by {
            if n.contains(d) {
                let k = choose|k: int| 0 <= k < n.len() && n[k] == d;
                if k < p {
                    assert(s[k] == d);
                } else if k > p {
                    assert(s[k - 1] == d);
                }
            }
            if s.contains(d) {
                let k = choose|k: int| 0 <= k < s.len() && s[k] == d;
                if k < p {
                    assert(n[k] == d);
                } else {
                    assert(n[k + 1] == d);
                }
            }
            if d == xv {
                assert(n[p as int] == d);
            }
        }
    }
}

/// A configured storage host name as certificates name it: trimmed, without
/// leading "https://" and "http://" and trailing '/', lower-cased; `None`
/// when that leaves nothing.
pub open spec fn storage_certificate_domain(hostname: Option<Seq<char>>) -> Option<Seq<char>> {
    match hostname {
        Some(h) => if trim(h).len() > 0 && normalized_hostname(trim(h)).len() > 0 {
            Some(normalized_hostname(trim(h)))
        } else {
            None
        },
        None => None,
    }
}

/// The domains that need managed certificates: the base domain, the storage
/// host name and every custom domain, trimmed and lower-cased, the blank
/// ones left out.
pub open spec fn certificate_domains(
    base_domain: Seq<char>,
    storage_hostname: Option<Seq<char>>,
    custom_domains: Seq<Seq<char>>,
) -> Set<Seq<char>> {
    Set::new(
        |d: Seq<char>|
            {
                ||| d.len() > 0 && d == unicode_lower(trim(base_domain))
                ||| storage_certificate_domain(storage_hostname) == Some(d)
                ||| d.len() > 0 && exists|i: int|
                    0 <= i < custom_domains.len() && d == unicode_lower(
                        trim(#[trigger] custom_domains[i]),
                    )
            },
    )
}

/// The domains to renew certificates for, sorted, each once.
/// `custom_domains` are the custom domains of every app, in any order.
pub fn managed_certificate_domains(
    base_domain: &str,
    storage_hostname: Option<&str>,
    custom_domains: &Vec<String>,
) -> (r: Vec<String>)
    ensures
        strictly_sorted(r.deep_view()),
        r.deep_view().to_set() == certificate_domains(
            base_domain@,
            match storage_hostname {
                Some(h) => Some(h@),
                None => None,
            },
            custom_domains.deep_view(),
        ),
{
    let ghost hostname = match storage_hostname {
        Some(h) => Some(h@),
        None => None,
    };
    let ghost cd = custom_domains.deep_view();
    let ghost target = certificate_domains(base_domain@, hostname, cd);
    let mut out: Vec<String> = Vec::new();
    let base = to_lowercase(trim_owned(base_domain).as_str());
    if base.unicode_len() > 0 {
        insert_sorted(&mut out, base);
    }
    match storage_hostname {
        Some(h) => {
            let t = trim_owned(h);
            if t.unicode_len() > 0 {
                let n = normalize_hostname(t.as_str());
                if n.unicode_len() > 0 {
                    insert_sorted(&mut out, n);
                }
            }
        },
        None => {},
    }
    let ghost start = out.deep_view();
    let mut i: usize = 0;
    while i < custom_domains.len()
        invariant
            i <= custom_domains@.len(),
            cd == custom_domains.deep_view(),
            strictly_sorted(out.deep_view()),
            forall|d: Seq<char>|
                #![trigger out.deep_view().contains(d)]
                out.deep_view().contains(d) <==> start.contains(d) || (d.len() > 0 && exists|
                    k: int,
                | 0 <= k < i && d == unicode_lower(trim(#[trigger] cd[k]))),
        decreases custom_domains.len() - i,
    {
        let d = to_lowercase(trim_owned(custom_domains[i].as_str()).as_str());
        let ghost dv = d@;
        if d.unicode_len() > 0 {
            insert_sorted(&mut out, d);
        }
        proof {
            assert forall|e: Seq<char>| #![trigger out.deep_view().contains(e)]
                out.deep_view().contains(e) <==> start.contains(e) || (e.len() > 0 && exists|
                    k: int,
                | 0 <= k < i + 1 && e == unicode_lower(trim(#[trigger] cd[k]))) by {
                if e.len() > 0 && e == unicode_lower(trim(cd[i as int])) {
                    assert(e == dv);
                }
            }
        }
        i = i + 1;
    }
    proof {
        assert forall|d: Seq<char>| out.deep_view().to_set().contains(d) <==> target.contains(d) by {
            if d.len() > 0 && exists|k: int| 0 <= k < cd.len() && d == unicode_lower(trim(#[trigger] cd[k])) {
                let k = choose|k: int| 0 <= k < cd.len() && d == unicode_lower(trim(#[trigger] cd[k]));
                assert(0 <= k < i);
            }
        }
        assert(out.deep_view().to_set() =~= target);
    }
    out
}

/// Whether a domain is the dashboard's base domain or the storage host name:
/// the domain, trimmed and lower-cased, equals the trimmed, lower-cased base
/// domain, or equals the normalized storage host name ignoring ASCII case.
pub open spec fn dashboard_or_storage_domain(
    base_domain: Seq<char>,
    storage_hostname: Option<Seq<char>>,
    domain: Seq<char>,
) -> bool {
    let d = unicode_lower(trim(domain));
    ||| d == unicode_lower(trim(base_domain))
    ||| match storage_hostname {
        Some(h) => trim(h).len() > 0 && ascii_lower_seq(
            trim_end_char(trim_start_str(trim_start_str(trim(h), "https://"@), "http://"@), '/'),
        ) == ascii_lower_seq(d),
        None => false,
    }
}

/// Whether certificates may be issued for `domain` as the dashboard or the
/// storage host.
pub fn storage_or_dashboard_domain_allowed(
    base_domain: &str,
    storage_hostname: Option<&str>,
    domain: &str,
) -> (r: bool)
    ensures
        r == dashboard_or_storage_domain(
            base_domain@,
            match storage_hostname {
                Some(h) => Some(h@),
                None => None,
            },
            domain@,
        ),
{
    let d = to_lowercase(trim_owned(domain).as_str());
    let b = to_lowercase(trim_owned(base_domain).as_str());
    if str_eq(d.as_str(), b.as_str()) {
        return true;
    }
    match storage_hostname {
        Some(h) => {
            let t = trim_owned(h);
            if t.unicode_len() == 0 {
                return false;
            }
            let a = trim_start_str_owned(t.as_str(), "https://");
            let a = trim_start_str_owned(a.as_str(), "http://");
            let a = trim_end_char_owned(a.as_str(), '/');
            let x = ascii_lowercase(a.as_str());
            let y = ascii_lowercase(d.as_str());
            str_eq(x.as_str(), y.as_str())
        },
        None => false,
    }
}


/// The distinct app ids found at the head of container names (listed with
/// a leading '/'), in order of first appearance.
pub fn app_ids_in_container_names(names: &Vec<String>) -> (r: Vec<u128>)
    requires
        forall|i: int|
            0 <= i < names@.len() ==> !splits_char_in_id(trim_start_char(#[trigger] names@[i]@, '/')),
    ensures
        r@.no_duplicates(),
        forall|id: u128|
            #![trigger r@.contains(id)]
            r@.contains(id) <==> exists|i: int|
                0 <= i < names@.len() && app_id_in_name(trim_start_char(#[trigger] names@[i]@, '/'))
                    == Some(id),
{
    let mut out: Vec<u128> = Vec::new();
    let mut i: usize = 0;
    while i < names.len()
        invariant
            i <= names@.len(),
            forall|k: int|
                0 <= k < names@.len() ==> !splits_char_in_id(
                    trim_start_char(#[trigger] names@[k]@, '/'),
                ),
            out@.no_duplicates(),
            forall|id: u128|
                #![trigger out@.contains(id)]
                out@.contains(id) <==> exists|k: int|
                    0 <= k < i && app_id_in_name(trim_start_char(#[trigger] names@[k]@, '/'))
                        == Some(id),
        decreases names.len() - i,
    {
        let name = trim_start_char_owned(names[i].as_str(), '/');
        let parsed = parse_app_id_from_container_name(name.as_str());
        match parsed {
            Some(id) => {
                let mut seen = false;
                let mut j: usize = 0;
                while j < out.len()
                    invariant
                        j <= out@.len(),
                        seen == exists|k: int| 0 <= k < j && out@[k] == id,
                    decreases out.len() - j,
                {
                    if out[j] == id {
                        seen = true;
                    }
                    j = j + 1;
                }
                if !seen {
                    let ghost before = out@;
                    out.push(id);
                    proof {
                        assert forall|a: int, b: int|
                            0 <= a < b < out@.len() implies out@[a] != out@[b] by {
                            if b == before.len() {
                                assert(before.contains(before[a]));
                            }
                        }
                        assert forall|x: u128| #![trigger out@.contains(x)]
                            out@.contains(x) <==> before.contains(x) || x == id by {
                            if out@.contains(x) {
                                let k = choose|k: int| 0 <= k < out@.len() && out@[k] == x;
                                if k < before.len() {
                                    assert(before[k] == x);
                                }
                            }
                            if before.contains(x) {
                                let k = choose|k: int| 0 <= k < before.len() && before[k] == x;
                                assert(out@[k] == x);
                            }
                            if x == id {
                                assert(out@[before.len() as int] == x);
                            }
                        }
                    }
                }
            },
            None => {},
        }
        proof {
            assert forall|x: u128| #![trigger out@.contains(x)]
                out@.contains(x) <==> exists|k: int|
                    0 <= k < i + 1 && app_id_in_name(trim_start_char(#[trigger] names@[k]@, '/'))
                        == Some(x) by {
                if app_id_in_name(trim_start_char(names@[i as int]@, '/')) == Some(x) {
                    assert(parsed == Some(x));
                }
            }
        }
        i = i + 1;
    }
    out
}


/// A change of the proxy's routes, announced after deployments.
#[derive(Debug, Clone)]
pub enum ProxyRouteUpdate {
    /// Rebuild the routes of an app.
    RefreshApp { app_id: u128 },
    /// Drop the routes of an app.
    RemoveApp { app: Project },
}


/// The services routed publicly are all public, and every public service
/// is routed.
pub proof fn lemma_exposed_services_public(services: Seq<ServiceModel>)
    ensures
        forall|i: int| 0 <= i < public_only(services).len() ==> public(#[trigger] public_only(services)[i]),
        forall|i: int| 0 <= i < services.len() && public(#[trigger] services[i]) ==> public_only(services).contains(services[i]),
    decreases services.len(),
{
    if services.len() > 0 {
        let p = services.drop_last();
        lemma_exposed_services_public(p);
        let q = public_only(services);
        assert forall|i: int| 0 <= i < q.len() implies public(#[trigger] q[i]) by {
            if i < public_only(p).len() {
                assert(q[i] == public_only(p)[i]);
            }
        }
        assert forall|i: int| 0 <= i < services.len() && public(#[trigger] services[i]) implies q.contains(services[i]) by {
            if i < p.len() {
                assert(p[i] == services[i]);
                let k = choose|k: int| 0 <= k < public_only(p).len() && public_only(p)[k] == p[i];
                assert(q[k] == services[i]);
            } else {
                assert(q[q.len() - 1] == services[i]);
            }
        }
    }
}

/// Only the primary public service is routed under the app's own
/// subdomain: among a service's routes, one for `<app>.<base domain>`
/// served without TLS exists exactly when the service is the primary one
/// (custom domains are always served with TLS, and a service's own
/// subdomain is longer than the app's).
pub proof fn lemma_app_subdomain_only_for_primary(
    app: ProjectModel,
    service: ServiceModel,
    primary: bool,
    upstreams: Seq<(Seq<char>, u16)>,
    base_domain: Seq<char>,
    algorithm: LoadBalanceAlgorithm,
)
    ensures
        ({
            let routes = service_route_models(app, service, primary, upstreams, base_domain, algorithm);
            (exists|i: int|
                0 <= i < routes.len() && #[trigger] routes[i].domain == app.name + "."@ + base_domain
                    && !routes[i].ssl_enabled) <==> primary
        }),
{
    let routes = service_route_models(app, service, primary, upstreams, base_domain, algorithm);
    let sub = app.name + "."@ + base_domain;
    let customs = add_unique_nonblank(Seq::empty(), service.domains);
    let own = service.name + "."@ + app.name + "."@ + base_domain;
    reveal_strlit(".");
    assert(own.len() > sub.len());
    if primary {
        let n = routes.len() - 1;
        assert(routes[n].domain == sub && !routes[n].ssl_enabled);
    } else {
        assert forall|i: int| 0 <= i < routes.len() implies !(#[trigger] routes[i].domain == sub
            && !routes[i].ssl_enabled) by {
            if i == 0 {
                assert(routes[0].domain == own);
            } else {
                assert(routes[i].ssl_enabled);
            }
        }
    }
}

/// Every route of a service with upstreams sends traffic to those
/// upstreams for that app and service; the first route is the service's
/// own subdomain, served without TLS.
pub proof fn lemma_service_routes_target_service(
    app: ProjectModel,
    service: ServiceModel,
    primary: bool,
    upstreams: Seq<(Seq<char>, u16)>,
    base_domain: Seq<char>,
    algorithm: LoadBalanceAlgorithm,
)
    ensures
        ({
            let routes = service_route_models(app, service, primary, upstreams, base_domain, algorithm);
            &&& routes.len() >= 1
            &&& routes[0].domain == service.name + "."@ + app.name + "."@ + base_domain
            &&& !routes[0].ssl_enabled
            &&& forall|i: int|
                0 <= i < routes.len() ==> #[trigger] routes[i].upstreams == upstreams
                    && routes[i].app_id == Some(app.id) && routes[i].service_id == Some(service.id)
                    && routes[i].algorithm == algorithm
        }),
{
}

} // verus!

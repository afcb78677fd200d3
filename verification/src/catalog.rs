//! The service catalog of an owner: one entry per app service, managed
//! database and managed queue, in a stable listing order.
use vstd::prelude::*;

use crate::dup::{push_deep, Dup};
use crate::ids::{timestamp_before, ts_before, Timestamp};
use crate::inventory::{
    summarize_app_service_runtime, summary_of, runtime_of_managed, ServiceResourceKind,
    ServiceRuntimeStatus,
};
use crate::managed::{
    db_connection, db_image_repo, db_service_type, normalized_host, postgres_url,
    queue_image_repo, queue_scheme, queue_service_type, service_network, DatabaseType,
    ManagedDatabase, ManagedQueue, ServiceStatus, POSTGRES_PROXY_PORT,
};
use crate::models::{
    add_unique_nonblank, blank, service_type_text, ContainerService, Deployment, Project,
    ServiceType,
};
use crate::text::{dec, is_blank, str_eq, str_less, str_lt, uuid_text, lemma_str_lt_order};

verus! {

/// One entry of the service catalog.
#[derive(Debug, Clone)]
pub struct ServiceInventoryItem {
    pub id: u128,
    pub owner_id: u128,
    pub group_id: Option<u128>,
    pub project_id: Option<u128>,
    pub project_name: Option<String>,
    pub resource_kind: ServiceResourceKind,
    pub service_type: ServiceType,
    pub name: String,
    pub image: Option<String>,
    pub status: ServiceRuntimeStatus,
    pub network_name: String,
    pub internal_host: Option<String>,
    pub port: Option<u16>,
    pub external_port: Option<u16>,
    pub proxy_port: Option<u16>,
    pub proxy_external_port: Option<u16>,
    pub connection_string: Option<String>,
    pub proxy_connection_string: Option<String>,
    pub domains: Vec<String>,
    pub schedule: Option<String>,
    pub public_http: bool,
    pub desired_instances: u32,
    pub running_instances: u32,
    pub container_ids: Vec<String>,
    pub deployment_id: Option<u128>,
    pub pitr_enabled: bool,
    pub proxy_enabled: bool,
    pub created_at: Timestamp,
    pub updated_at: Timestamp,
}

/// A catalog entry with its text taken as character sequences.
#[verifier::ext_equal]
pub struct InventoryItemModel {
    pub id: u128,
    pub owner_id: u128,
    pub group_id: Option<u128>,
    pub project_id: Option<u128>,
    pub project_name: Option<Seq<char>>,
    pub resource_kind: ServiceResourceKind,
    pub service_type: ServiceType,
    pub name: Seq<char>,
    pub image: Option<Seq<char>>,
    pub status: ServiceRuntimeStatus,
    pub network_name: Seq<char>,
    pub internal_host: Option<Seq<char>>,
    pub port: Option<u16>,
    pub external_port: Option<u16>,
    pub proxy_port: Option<u16>,
    pub proxy_external_port: Option<u16>,
    pub connection_string: Option<Seq<char>>,
    pub proxy_connection_string: Option<Seq<char>>,
    pub domains: Seq<Seq<char>>,
    pub schedule: Option<Seq<char>>,
    pub public_http: bool,
    pub desired_instances: u32,
    pub running_instances: u32,
    pub container_ids: Seq<Seq<char>>,
    pub deployment_id: Option<u128>,
    pub pitr_enabled: bool,
    pub proxy_enabled: bool,
    pub created_at: Timestamp,
    pub updated_at: Timestamp,
}

impl DeepView for ServiceInventoryItem {
    type V = InventoryItemModel;

    open spec fn deep_view(&self) -> InventoryItemModel {
        InventoryItemModel {
            id: self.id,
            owner_id: self.owner_id,
            group_id: self.group_id,
            project_id: self.project_id,
            project_name: self.project_name.deep_view(),
            resource_kind: self.resource_kind,
            service_type: self.service_type,
            name: self.name@,
            image: self.image.deep_view(),
            status: self.status,
            network_name: self.network_name@,
            internal_host: self.internal_host.deep_view(),
            port: self.port,
            external_port: self.external_port,
            proxy_port: self.proxy_port,
            proxy_external_port: self.proxy_external_port,
            connection_string: self.connection_string.deep_view(),
            proxy_connection_string: self.proxy_connection_string.deep_view(),
            domains: self.domains.deep_view(),
            schedule: self.schedule.deep_view(),
            public_http: self.public_http,
            desired_instances: self.desired_instances,
            running_instances: self.running_instances,
            container_ids: self.container_ids.deep_view(),
            deployment_id: self.deployment_id,
            pitr_enabled: self.pitr_enabled,
            proxy_enabled: self.proxy_enabled,
            created_at: self.created_at,
            updated_at: self.updated_at,
        }
    }
}

impl ServiceInventoryItem {
    /// The name of the entry's service type.
    pub fn service_type_name(&self) -> (r: &'static str)
        ensures
            r@ == service_type_text(self.service_type),
    {
        ContainerService::service_type_name(self.service_type)
    }
}

/// The image text, unless it is blank.
pub open spec fn nonblank(image: Seq<char>) -> Option<Seq<char>> {
    if blank(image) {
        None
    } else {
        Some(image)
    }
}

/// The catalog entry of a service of an app, given the app's deployments.
pub open spec fn app_item(app: Project, svc: ContainerService, ds: Seq<Deployment>) -> InventoryItemModel {
    let s = summary_of(svc, ds);
    InventoryItemModel {
        id: svc.id,
        owner_id: app.owner_id,
        group_id: Some(app.id),
        project_id: Some(app.id),
        project_name: Some(app.name@),
        resource_kind: ServiceResourceKind::AppService,
        service_type: svc.service_type,
        name: svc.name@,
        image: match s.image {
            Some(i) => Some(i),
            None => nonblank(svc.image@),
        },
        status: s.status,
        network_name: "containr-"@ + uuid_text(app.id),
        internal_host: Some(svc.name@),
        port: if svc.port == 0 {
            None
        } else {
            Some(svc.port)
        },
        external_port: None,
        proxy_port: None,
        proxy_external_port: None,
        connection_string: None,
        proxy_connection_string: None,
        domains: add_unique_nonblank(Seq::empty(), svc.domains.deep_view()),
        schedule: svc.schedule.deep_view(),
        public_http: svc.service_type == ServiceType::WebService,
        desired_instances: s.desired_instances,
        running_instances: s.running_instances,
        container_ids: s.container_ids,
        deployment_id: s.deployment_id,
        pitr_enabled: false,
        proxy_enabled: false,
        created_at: svc.created_at,
        updated_at: svc.updated_at,
    }
}

/// The name of the last listed app with the given identifier.
pub open spec fn group_name(apps: Seq<(Project, Vec<Deployment>)>, gid: u128) -> Option<Seq<char>>
    decreases apps.len(),
{
    if apps.len() == 0 {
        None
    } else if apps.last().0.id == gid {
        Some(apps.last().0.name@)
    } else {
        group_name(apps.drop_last(), gid)
    }
}

/// The name of the group a managed service belongs to, if any.
pub open spec fn group_name_of(apps: Seq<(Project, Vec<Deployment>)>, gid: Option<u128>) -> Option<
    Seq<char>,
> {
    match gid {
        Some(g) => group_name(apps, g),
        None => None,
    }
}

/// The container identifiers recorded on a managed service.
pub open spec fn ids_of(c: Option<String>) -> Seq<Seq<char>> {
    match c {
        Some(id) => seq![id@],
        None => Seq::empty(),
    }
}

/// The catalog entry of a managed database.
pub open spec fn database_item(db: ManagedDatabase, apps: Seq<(Project, Vec<Deployment>)>) -> InventoryItemModel {
    let proxied = db.db_type == DatabaseType::Postgresql && db.proxy_enabled;
    InventoryItemModel {
        id: db.id,
        owner_id: db.owner_id,
        group_id: db.group_id,
        project_id: db.group_id,
        project_name: group_name_of(apps, db.group_id),
        resource_kind: ServiceResourceKind::ManagedDatabase,
        service_type: db_service_type(db.db_type),
        name: db.name@,
        image: Some(db_image_repo(db.db_type) + db.version@),
        status: runtime_of_managed(db.status),
        network_name: service_network(db.group_id, db.id),
        internal_host: Some(normalized_host(db.internal_host@)),
        port: Some(db.port),
        external_port: db.external_port,
        proxy_port: if proxied {
            Some(POSTGRES_PROXY_PORT)
        } else {
            None
        },
        proxy_external_port: db.proxy_external_port,
        connection_string: Some(
            db_connection(
                db.db_type,
                db.credentials.deep_view(),
                normalized_host(db.internal_host@),
                db.port,
            ),
        ),
        proxy_connection_string: if proxied {
            Some(
                postgres_url(
                    db.credentials.deep_view(),
                    normalized_host(db.internal_host@) + "-proxy"@,
                    POSTGRES_PROXY_PORT,
                ),
            )
        } else {
            None
        },
        domains: Seq::empty(),
        schedule: None,
        public_http: false,
        desired_instances: 1,
        running_instances: if db.status == ServiceStatus::Running {
            1
        } else {
            0
        },
        container_ids: ids_of(db.container_id),
        deployment_id: None,
        pitr_enabled: db.pitr_enabled,
        proxy_enabled: db.proxy_enabled,
        created_at: db.created_at,
        updated_at: db.updated_at,
    }
}

/// The catalog entry of a managed queue.
pub open spec fn queue_item(q: ManagedQueue, apps: Seq<(Project, Vec<Deployment>)>) -> InventoryItemModel {
    InventoryItemModel {
        id: q.id,
        owner_id: q.owner_id,
        group_id: q.group_id,
        project_id: q.group_id,
        project_name: group_name_of(apps, q.group_id),
        resource_kind: ServiceResourceKind::ManagedQueue,
        service_type: queue_service_type(q.queue_type),
        name: q.name@,
        image: Some(queue_image_repo(q.queue_type) + q.version@),
        status: runtime_of_managed(q.status),
        network_name: service_network(q.group_id, q.id),
        internal_host: Some(normalized_host(q.internal_host@)),
        port: Some(q.port),
        external_port: q.external_port,
        proxy_port: None,
        proxy_external_port: None,
        connection_string: Some(
            queue_scheme(q.queue_type) + q.credentials.username@ + ":"@ + q.credentials.password@
                + "@"@ + normalized_host(q.internal_host@) + ":"@ + dec(q.port as nat),
        ),
        proxy_connection_string: None,
        domains: Seq::empty(),
        schedule: None,
        public_http: false,
        desired_instances: 1,
        running_instances: if q.status == ServiceStatus::Running {
            1
        } else {
            0
        },
        container_ids: ids_of(q.container_id),
        deployment_id: None,
        pitr_enabled: false,
        proxy_enabled: false,
        created_at: q.created_at,
        updated_at: q.updated_at,
    }
}

fn app_service_item(app: &Project, svc: &ContainerService, deployments: &[Deployment]) -> (r:
    ServiceInventoryItem)
    ensures
        r.deep_view() == app_item(*app, *svc, deployments@),
{
    let runtime = summarize_app_service_runtime(svc, deployments);
    let image = match runtime.image {
        Some(i) => Some(i),
        None => {
            if is_blank(svc.image.as_str()) {
                None
            } else {
                Some(svc.image.dup())
            }
        },
    };
    ServiceInventoryItem {
        id: svc.id,
        owner_id: app.owner_id,
        group_id: Some(app.id),
        project_id: Some(app.id),
        project_name: Some(app.name.dup()),
        resource_kind: ServiceResourceKind::AppService,
        service_type: svc.service_type,
        name: svc.name.dup(),
        image,
        status: runtime.status,
        network_name: app.network_name(),
        internal_host: Some(svc.name.dup()),
        port: if svc.port == 0 {
            None
        } else {
            Some(svc.port)
        },
        external_port: None,
        proxy_port: None,
        proxy_external_port: None,
        connection_string: None,
        proxy_connection_string: None,
        domains: svc.custom_domains(),
        schedule: svc.schedule.dup(),
        public_http: svc.is_public_http(),
        desired_instances: runtime.desired_instances,
        running_instances: runtime.running_instances,
        container_ids: runtime.container_ids,
        deployment_id: runtime.deployment_id,
        pitr_enabled: false,
        proxy_enabled: false,
        created_at: svc.created_at,
        updated_at: svc.updated_at,
    }
}

fn find_group_name(apps: &Vec<(Project, Vec<Deployment>)>, gid: Option<u128>) -> (r: Option<String>)
    ensures
        r.deep_view() == group_name_of(apps@, gid),
{
    let g = match gid {
        Some(g) => g,
        None => return None,
    };
    let mut i: usize = apps.len();
    proof {
        assert(apps@.take(i as int) =~= apps@);
    }
    while i > 0
        invariant
            i <= apps@.len(),
            gid == Some(g),
            group_name(apps@, g) == group_name(apps@.take(i as int), g),
        decreases i,
    {
        let ghost t = apps@.take(i as int);
        proof {
            assert(t.drop_last() =~= apps@.take(i - 1));
            assert(t.last() == apps@[i - 1]);
        }
        if apps[i - 1].0.id == g {
            let name = apps[i - 1].0.name.dup();
            proof {
                assert(t.len() > 0);
                assert(group_name(t, g) == Some(t.last().0.name@));
            }
            return Some(name);
        }
        i = i - 1;
    }
    None
}

fn container_ids(c: &Option<String>) -> (r: Vec<String>)
    ensures
        r.deep_view() == ids_of(*c),
{
    let mut r: Vec<String> = Vec::new();
    match c {
        Some(id) => {
            push_deep(&mut r, id.dup());
        },
        None => {},
    }
    proof {
        assert(r.deep_view() =~= ids_of(*c));
    }
    r
}

fn database_entry(db: &ManagedDatabase, apps: &Vec<(Project, Vec<Deployment>)>) -> (r:
    ServiceInventoryItem)
    ensures
        r.deep_view() == database_item(*db, apps@),
{
    let r = ServiceInventoryItem {
        id: db.id,
        owner_id: db.owner_id,
        group_id: db.group_id,
        project_id: db.group_id,
        project_name: find_group_name(apps, db.group_id),
        resource_kind: ServiceResourceKind::ManagedDatabase,
        service_type: db.db_type.service_type(),
        name: db.name.dup(),
        image: Some(db.docker_image()),
        status: ServiceRuntimeStatus::from_managed_status(db.status),
        network_name: db.network_name(),
        internal_host: Some(db.normalized_internal_host()),
        port: Some(db.port),
        external_port: db.external_port,
        proxy_port: db.proxy_port(),
        proxy_external_port: db.proxy_external_port,
        connection_string: Some(db.connection_string()),
        proxy_connection_string: db.proxy_connection_string(),
        domains: Vec::new(),
        schedule: None,
        public_http: false,
        desired_instances: 1,
        running_instances: if db.status == ServiceStatus::Running {
            1
        } else {
            0
        },
        container_ids: container_ids(&db.container_id),
        deployment_id: None,
        pitr_enabled: db.pitr_enabled,
        proxy_enabled: db.proxy_enabled,
        created_at: db.created_at,
        updated_at: db.updated_at,
    };
    proof {
        assert(r.domains.deep_view() =~= Seq::<Seq<char>>::empty());
        assert(r.deep_view() =~= database_item(*db, apps@));
    }
    r
}

fn queue_entry(q: &ManagedQueue, apps: &Vec<(Project, Vec<Deployment>)>) -> (r: ServiceInventoryItem)
    ensures
        r.deep_view() == queue_item(*q, apps@),
{
    let r = ServiceInventoryItem {
        id: q.id,
        owner_id: q.owner_id,
        group_id: q.group_id,
        project_id: q.group_id,
        project_name: find_group_name(apps, q.group_id),
        resource_kind: ServiceResourceKind::ManagedQueue,
        service_type: q.queue_type.service_type(),
        name: q.name.dup(),
        image: Some(q.docker_image()),
        status: ServiceRuntimeStatus::from_managed_status(q.status),
        network_name: q.network_name(),
        internal_host: Some(q.normalized_internal_host()),
        port: Some(q.port),
        external_port: q.external_port,
        proxy_port: None,
        proxy_external_port: None,
        connection_string: Some(q.connection_string()),
        proxy_connection_string: None,
        domains: Vec::new(),
        schedule: None,
        public_http: false,
        desired_instances: 1,
        running_instances: if q.status == ServiceStatus::Running {
            1
        } else {
            0
        },
        container_ids: container_ids(&q.container_id),
        deployment_id: None,
        pitr_enabled: false,
        proxy_enabled: false,
        created_at: q.created_at,
        updated_at: q.updated_at,
    };
    proof {
        assert(r.domains.deep_view() =~= Seq::<Seq<char>>::empty());
        assert(r.deep_view() =~= queue_item(*q, apps@));
    }
    r
}

/// The entries of the services of one app, in the app's service order.
pub open spec fn app_entries(p: Project, ds: Seq<Deployment>) -> Seq<InventoryItemModel> {
    Seq::new(p.services@.len(), |k: int| app_item(p, p.services@[k], ds))
}

/// Whether a record with group `id` is listed when the listing is limited
/// to `group` (every record is listed when there is no limit).
pub open spec fn listed_in(group: Option<u128>, id: Option<u128>) -> bool {
    group is None || id == group
}

/// The entries of the services of the listed apps, app by app.
pub open spec fn apps_entries(apps: Seq<(Project, Vec<Deployment>)>, group: Option<u128>) -> Seq<
    InventoryItemModel,
>
    decreases apps.len(),
{
    if apps.len() == 0 {
        Seq::empty()
    } else {
        let last = apps.last();
        apps_entries(apps.drop_last(), group) + if listed_in(group, Some(last.0.id)) {
            app_entries(last.0, last.1@)
        } else {
            Seq::empty()
        }
    }
}

/// The entries of the listed managed databases.
pub open spec fn database_entries(
    dbs: Seq<ManagedDatabase>,
    apps: Seq<(Project, Vec<Deployment>)>,
    group: Option<u128>,
) -> Seq<InventoryItemModel>
    decreases dbs.len(),
{
    if dbs.len() == 0 {
        Seq::empty()
    } else {
        database_entries(dbs.drop_last(), apps, group) + if listed_in(group, dbs.last().group_id) {
            seq![database_item(dbs.last(), apps)]
        } else {
            Seq::empty()
        }
    }
}

/// The entries of the listed managed queues.
pub open spec fn queue_entries(
    queues: Seq<ManagedQueue>,
    apps: Seq<(Project, Vec<Deployment>)>,
    group: Option<u128>,
) -> Seq<InventoryItemModel>
    decreases queues.len(),
{
    if queues.len() == 0 {
        Seq::empty()
    } else {
        queue_entries(queues.drop_last(), apps, group) + if listed_in(
            group,
            queues.last().group_id,
        ) {
            seq![queue_item(queues.last(), apps)]
        } else {
            Seq::empty()
        }
    }
}

/// Every entry of the catalog, before ordering: app services, then
/// databases, then queues.
pub open spec fn catalog_entries(
    apps: Seq<(Project, Vec<Deployment>)>,
    dbs: Seq<ManagedDatabase>,
    queues: Seq<ManagedQueue>,
    group: Option<u128>,
) -> Seq<InventoryItemModel> {
    apps_entries(apps, group) + database_entries(dbs, apps, group) + queue_entries(
        queues,
        apps,
        group,
    )
}

/// The group name an entry is listed under; entries without a group sort
/// under the empty name.
pub open spec fn group_key(m: InventoryItemModel) -> Seq<char> {
    match m.project_name {
        Some(n) => n,
        None => Seq::empty(),
    }
}

/// `a` comes strictly before `b` in the listing: by group name, then by
/// name, then by creation time.
pub open spec fn listed_before(a: InventoryItemModel, b: InventoryItemModel) -> bool {
    ||| str_lt(group_key(a), group_key(b))
    ||| group_key(a) == group_key(b) && str_lt(a.name, b.name)
    ||| group_key(a) == group_key(b) && a.name == b.name && ts_before(a.created_at, b.created_at)
}

/// No entry comes strictly before an entry listed ahead of it.
pub open spec fn listing_ordered(s: Seq<InventoryItemModel>) -> bool {
    forall|i: int, j: int| 0 <= i < j < s.len() ==> !listed_before(#[trigger] s[j], #[trigger] s[i])
}

/// `listed_before` is a strict order.
pub proof fn lemma_listed_before_order(a: InventoryItemModel, b: InventoryItemModel, c: InventoryItemModel)
    ensures
        !listed_before(a, a),
        listed_before(a, b) && listed_before(b, c) ==> listed_before(a, c),
{
    lemma_str_lt_order(group_key(a), group_key(b), group_key(c));
    lemma_str_lt_order(a.name, b.name, c.name);
    lemma_str_lt_order(group_key(a), group_key(c), group_key(b));
    lemma_str_lt_order(group_key(b), group_key(a), group_key(c));
    lemma_str_lt_order(a.name, c.name, b.name);
    lemma_str_lt_order(b.name, a.name, c.name);
}

proof fn lemma_insert_ordered(s: Seq<InventoryItemModel>, p: int, x: InventoryItemModel)
    requires
        listing_ordered(s),
        0 <= p <= s.len(),
        forall|k: int| 0 <= k < p ==> !listed_before(x, #[trigger] s[k]),
        p < s.len() ==> listed_before(x, s[p]),
    ensures
        listing_ordered(s.insert(p, x)),
{
    let t = s.insert(p, x);
    assert forall|i: int, j: int| 0 <= i < j < t.len() implies !listed_before(
        #[trigger] t[j],
        #[trigger] t[i],
    ) by {
        if i < p && j < p {
        } else if i < p && j == p {
            assert(!listed_before(x, s[i]));
        } else if i < p {
            assert(t[j] == s[j - 1]);
        } else if i == p {
            assert(t[j] == s[j - 1]);
            lemma_listed_before_order(s[j - 1], x, s[p]);
            lemma_listed_before_order(s[p], s[p], s[p]);
            if p < j - 1 {
                assert(!listed_before(s[j - 1], s[p]));
            }
        } else {
            assert(t[i] == s[i - 1]);
            assert(t[j] == s[j - 1]);
        }
    }
}

/// Two entries have the same place in the listing: the same group name,
/// name and creation time.
pub open spec fn same_listing_key(a: InventoryItemModel, b: InventoryItemModel) -> bool {
    group_key(a) == group_key(b) && a.name == b.name && a.created_at == b.created_at
}

/// The entries of a list that have the same place in the listing as `x`,
/// in list order.
pub open spec fn ties(s: Seq<InventoryItemModel>, x: InventoryItemModel) -> Seq<InventoryItemModel> {
    s.filter(|y: InventoryItemModel| same_listing_key(y, x))
}

proof fn lemma_insert_ties(s: Seq<InventoryItemModel>, p: int, x: InventoryItemModel, z: InventoryItemModel)
    requires
        listing_ordered(s),
        0 <= p <= s.len(),
        p < s.len() ==> listed_before(x, s[p]),
    ensures
        ties(s.insert(p, x), z) == if same_listing_key(x, z) {
            ties(s, z).push(x)
        } else {
            ties(s, z)
        },
{
    let pred = |y: InventoryItemModel| same_listing_key(y, z);
    let a = s.take(p);
    let b = s.skip(p);
    assert(s.insert(p, x) =~= a + seq![x] + b);
    assert(s =~= a + b);
    Seq::filter_distributes_over_add(a + seq![x], b, pred);
    Seq::filter_distributes_over_add(a, seq![x], pred);
    Seq::filter_distributes_over_add(a, b, pred);
    reveal_with_fuel(Seq::filter, 2);
    assert(seq![x].drop_last() =~= Seq::<InventoryItemModel>::empty());
    if same_listing_key(x, z) {
        assert forall|k: int| 0 <= k < b.len() implies !pred(#[trigger] b[k]) by {
            assert(b[k] == s[p + k]);
            if pred(b[k]) {
                assert(listed_before(b[k], s[p]));
                if k > 0 {
                    assert(!listed_before(s[p + k], s[p]));
                } else {
                    lemma_listed_before_order(b[k], b[k], b[k]);
                }
            }
        }
        lemma_filter_none(b, pred);
    }
}

proof fn lemma_filter_none(b: Seq<InventoryItemModel>, pred: spec_fn(InventoryItemModel) -> bool)
    requires
        forall|k: int| 0 <= k < b.len() ==> !pred(#[trigger] b[k]),
    ensures
        b.filter(pred) =~= Seq::<InventoryItemModel>::empty(),
    decreases b.len(),
{
    reveal(Seq::filter);
    if b.len() > 0 {
        assert forall|k: int| 0 <= k < b.drop_last().len() implies !pred(#[trigger] b.drop_last()[k]) by {
            assert(b.drop_last()[k] == b[k]);
        }
        lemma_filter_none(b.drop_last(), pred);
        assert(!pred(b[b.len() - 1]));
    }
}

fn listed_before_exec(a: &ServiceInventoryItem, b: &ServiceInventoryItem) -> (r: bool)
    ensures
        r == listed_before(a.deep_view(), b.deep_view()),
{
    proof {
        reveal_strlit("");
    }
    let ga: &str = match &a.project_name {
        Some(n) => n.as_str(),
        None => "",
    };
    let gb: &str = match &b.project_name {
        Some(n) => n.as_str(),
        None => "",
    };
    proof {
        assert(ga@ == group_key(a.deep_view()));
        assert(gb@ == group_key(b.deep_view()));
    }
    if str_less(ga, gb) {
        return true;
    }
    if !str_eq(ga, gb) {
        return false;
    }
    if str_less(a.name.as_str(), b.name.as_str()) {
        return true;
    }
    if !str_eq(a.name.as_str(), b.name.as_str()) {
        return false;
    }
    timestamp_before(a.created_at, b.created_at)
}

fn insert_listed(out: &mut Vec<ServiceInventoryItem>, x: ServiceInventoryItem)
    requires
        listing_ordered(old(out).deep_view()),
    ensures
        listing_ordered(final(out).deep_view()),
        final(out).deep_view().to_multiset() == old(out).deep_view().to_multiset().insert(
            x.deep_view(),
        ),
        forall|z: InventoryItemModel|
            #[trigger] ties(final(out).deep_view(), z) == if same_listing_key(x.deep_view(), z) {
                ties(old(out).deep_view(), z).push(x.deep_view())
            } else {
                ties(old(out).deep_view(), z)
            },
{
    let ghost s = out.deep_view();
    let mut p: usize = 0;
    while p < out.len()
        invariant
            p <= out.len(),
            out.deep_view() == s,
            forall|k: int| 0 <= k < p ==> !listed_before(x.deep_view(), #[trigger] s[k]),
        ensures
            p <= out.len(),
            out.deep_view() == s,
            forall|k: int| 0 <= k < p ==> !listed_before(x.deep_view(), #[trigger] s[k]),
            p < out.len() ==> listed_before(x.deep_view(), s[p as int]),
        decreases out.len() - p,
    {
        if listed_before_exec(&x, &out[p]) {
            break;
        }
        p = p + 1;
    }
    let ghost dx = x.deep_view();
    proof {
        lemma_insert_ordered(s, p as int, dx);
        vstd::seq_lib::to_multiset_insert(s, p as int, dx);
    }
    out.insert(p, x);
    proof {
        assert(out.deep_view() =~= s.insert(p as int, dx));
        assert forall|z: InventoryItemModel| #[trigger] ties(out.deep_view(), z) == if same_listing_key(dx, z) {
            ties(s, z).push(dx)
        } else {
            ties(s, z)
        } by {
            lemma_insert_ties(s, p as int, dx, z);
        }
    }
}

/// The entries in listing order: by group name, then name, then creation
/// time; entries that tie keep their order.
pub fn sort_listing(items: Vec<ServiceInventoryItem>) -> (r: Vec<ServiceInventoryItem>)
    ensures
        listing_ordered(r.deep_view()),
        r.deep_view().to_multiset() == items.deep_view().to_multiset(),
        forall|z: InventoryItemModel| #[trigger] ties(r.deep_view(), z) == ties(items.deep_view(), z),
{
    let ghost all = items.deep_view();
    let mut rest = items;
    let mut out: Vec<ServiceInventoryItem> = Vec::new();
    let ghost mut k: int = 0;
    proof {
        assert(out.deep_view() =~= Seq::<InventoryItemModel>::empty());
        assert(all.skip(0) =~= all);
        vstd::seq_lib::lemma_multiset_commutative(Seq::<InventoryItemModel>::empty(), all);
        assert(Seq::<InventoryItemModel>::empty() + all =~= all);
        assert forall|z: InventoryItemModel| #[trigger] ties(out.deep_view(), z) == ties(all.take(0), z) by {
            assert(all.take(0) =~= out.deep_view());
        }
    }
    while rest.len() > 0
        invariant
            0 <= k <= all.len(),
            rest.deep_view() == all.skip(k),
            listing_ordered(out.deep_view()),
            all.to_multiset() == out.deep_view().to_multiset().add(rest.deep_view().to_multiset()),
            forall|z: InventoryItemModel| #[trigger] ties(out.deep_view(), z) == ties(all.take(k), z),
        decreases rest.len(),
    {
        let ghost rv = rest.deep_view();
        let x = rest.remove(0);
        proof {
            assert(rest.deep_view() =~= rv.remove(0));
            assert(rv.remove(0) =~= all.skip(k + 1));
            vstd::seq_lib::to_multiset_remove(rv, 0);
            assert(rv[0] == x.deep_view());
            broadcast use vstd::multiset::group_multiset_axioms;
            assert(rv.to_multiset().count(rv[0]) > 0) by {
                rv.to_multiset_ensures();
                assert(rv.contains(rv[0]));
            }
            assert(rv.to_multiset() =~= rv.remove(0).to_multiset().insert(rv[0]));
            k = k + 1;
        }
        let ghost before = out.deep_view();
        let ghost dx = x.deep_view();
        insert_listed(&mut out, x);
        proof {
            assert forall|z: InventoryItemModel| #[trigger] ties(out.deep_view(), z) == ties(all.take(k), z) by {
                assert(all.take(k) =~= all.take(k - 1).push(dx));
                all.take(k - 1).lemma_filter_push(dx, |y: InventoryItemModel| same_listing_key(y, z));
            }
        }
        proof {
            broadcast use vstd::multiset::group_multiset_axioms;
            assert(all.to_multiset() =~= out.deep_view().to_multiset().add(
                rest.deep_view().to_multiset(),
            ));
        }
    }
    proof {
        broadcast use vstd::multiset::group_multiset_axioms;
        assert(rest.deep_view() =~= Seq::<InventoryItemModel>::empty());
        assert(all.to_multiset() =~= out.deep_view().to_multiset());
        assert(all.take(k) =~= all);
    }
    out
}

fn push_app_entries(out: &mut Vec<ServiceInventoryItem>, app: &Project, deployments: &Vec<Deployment>)
    ensures
        final(out).deep_view() == old(out).deep_view() + app_entries(*app, deployments@),
{
    let ghost start = out.deep_view();
    let ghost es = app_entries(*app, deployments@);
    let mut k: usize = 0;
    proof {
        assert(start + es.take(0) =~= start);
    }
    while k < app.services.len()
        invariant
            k <= app.services@.len(),
            es == app_entries(*app, deployments@),
            es.len() == app.services@.len(),
            out.deep_view() == start + es.take(k as int),
        decreases app.services.len() - k,
    {
        let item = app_service_item(app, &app.services[k], deployments.as_slice());
        proof {
            assert(item.deep_view() == es[k as int]);
        }
        push_deep(out, item);
        proof {
            assert(start + es.take(k + 1) =~= (start + es.take(k as int)).push(es[k as int]));
        }
        k = k + 1;
    }
    proof {
        assert(es.take(k as int) =~= es);
    }
}

/// Every entry of the catalog, before ordering: the services of the listed
/// apps, then the listed databases, then the listed queues; limited to one
/// group when `group` names one.
pub fn collect_catalog_entries(
    apps: &Vec<(Project, Vec<Deployment>)>,
    dbs: &Vec<ManagedDatabase>,
    queues: &Vec<ManagedQueue>,
    group: Option<u128>,
) -> (r: Vec<ServiceInventoryItem>)
    ensures
        r.deep_view() == catalog_entries(apps@, dbs@, queues@, group),
{
    let mut out: Vec<ServiceInventoryItem> = Vec::new();
    proof {
        assert(out.deep_view() =~= Seq::<InventoryItemModel>::empty());
        assert(apps@.take(0) =~= Seq::<(Project, Vec<Deployment>)>::empty());
    }
    let mut i: usize = 0;
    while i < apps.len()
        invariant
            i <= apps@.len(),
            out.deep_view() == apps_entries(apps@.take(i as int), group),
        decreases apps.len() - i,
    {
        proof {
            assert(apps@.take(i + 1).drop_last() =~= apps@.take(i as int));
            assert(apps@.take(i + 1).last() == apps@[i as int]);
        }
        let listed = match group {
            Some(g) => apps[i].0.id == g,
            None => true,
        };
        if listed {
            push_app_entries(&mut out, &apps[i].0, &apps[i].1);
        } else {
            proof {
                assert(out.deep_view() + Seq::<InventoryItemModel>::empty() =~= out.deep_view());
            }
        }
        i = i + 1;
    }
    proof {
        assert(apps@.take(i as int) =~= apps@);
    }
    let ghost base = out.deep_view();
    let mut j: usize = 0;
    proof {
        assert(dbs@.take(0) =~= Seq::<ManagedDatabase>::empty());
        assert(base + Seq::<InventoryItemModel>::empty() =~= base);
    }
    while j < dbs.len()
        invariant
            j <= dbs@.len(),
            base == apps_entries(apps@, group),
            out.deep_view() == base + database_entries(dbs@.take(j as int), apps@, group),
        decreases dbs.len() - j,
    {
        let ghost prev = database_entries(dbs@.take(j as int), apps@, group);
        proof {
            assert(dbs@.take(j + 1).drop_last() =~= dbs@.take(j as int));
            assert(dbs@.take(j + 1).last() == dbs@[j as int]);
        }
        let db = &dbs[j];
        let listed = match group {
            Some(_) => db.group_id == group,
            None => true,
        };
        if listed {
            let e = database_entry(db, apps);
            push_deep(&mut out, e);
            proof {
                assert(base + database_entries(dbs@.take(j + 1), apps@, group) =~= (base + prev).push(
                    e.deep_view(),
                ));
            }
        } else {
            proof {
                assert(base + database_entries(dbs@.take(j + 1), apps@, group) =~= base + prev);
            }
        }
        j = j + 1;
    }
    proof {
        assert(dbs@.take(j as int) =~= dbs@);
    }
    let ghost base2 = out.deep_view();
    let mut q: usize = 0;
    proof {
        assert(queues@.take(0) =~= Seq::<ManagedQueue>::empty());
        assert(base2 + Seq::<InventoryItemModel>::empty() =~= base2);
    }
    while q < queues.len()
        invariant
            q <= queues@.len(),
            base2 == apps_entries(apps@, group) + database_entries(dbs@, apps@, group),
            out.deep_view() == base2 + queue_entries(queues@.take(q as int), apps@, group),
        decreases queues.len() - q,
    {
        let ghost prev = queue_entries(queues@.take(q as int), apps@, group);
        proof {
            assert(queues@.take(q + 1).drop_last() =~= queues@.take(q as int));
            assert(queues@.take(q + 1).last() == queues@[q as int]);
        }
        let qu = &queues[q];
        let listed = match group {
            Some(_) => qu.group_id == group,
            None => true,
        };
        if listed {
            let e = queue_entry(qu, apps);
            push_deep(&mut out, e);
            proof {
                assert(base2 + queue_entries(queues@.take(q + 1), apps@, group) =~= (base2
                    + prev).push(e.deep_view()));
            }
        } else {
            proof {
                assert(base2 + queue_entries(queues@.take(q + 1), apps@, group) =~= base2 + prev);
            }
        }
        q = q + 1;
    }
    proof {
        assert(queues@.take(q as int) =~= queues@);
    }
    out
}

/// The service catalog: every entry of `catalog_entries`, each once, in
/// listing order (group name, then name, then creation time); entries with
/// the same place keep the order `catalog_entries` gives them.
pub fn list_service_inventory_by_owner_and_group(
    apps: &Vec<(Project, Vec<Deployment>)>,
    dbs: &Vec<ManagedDatabase>,
    queues: &Vec<ManagedQueue>,
    group: Option<u128>,
) -> (r: Vec<ServiceInventoryItem>)
    ensures
        listing_ordered(r.deep_view()),
        r.deep_view().to_multiset() == catalog_entries(apps@, dbs@, queues@, group).to_multiset(),
        forall|z: InventoryItemModel| #[trigger] ties(r.deep_view(), z) == ties(
            catalog_entries(apps@, dbs@, queues@, group),
            z,
        ),
{
    let entries = collect_catalog_entries(apps, dbs, queues, group);
    sort_listing(entries)
}

/// The first entry with identifier `id`, if any.
pub fn find_inventory_item(items: Vec<ServiceInventoryItem>, id: u128) -> (r: Option<
    ServiceInventoryItem,
>)
    ensures
        r is None <==> forall|i: int| 0 <= i < items@.len() ==> #[trigger] items@[i].id != id,
        r matches Some(x) ==> exists|i: int|
            0 <= i < items@.len() && #[trigger] items.deep_view()[i] == x.deep_view() && x.id == id
                && forall|j: int| 0 <= j < i ==> #[trigger] items@[j].id != id,
{
    let ghost orig = items@;
    let ghost dv = items.deep_view();
    let mut v = items;
    let mut i: usize = 0;
    while i < v.len()
        invariant
            v@ == orig,
            v.deep_view() == dv,
            orig == items@,
            dv == items.deep_view(),
            i <= v@.len(),
            forall|j: int| 0 <= j < i ==> #[trigger] orig[j].id != id,
        decreases v.len() - i,
    {
        if v[i].id == id {
            let x = v.remove(i);
            proof {
                assert(dv[i as int] == x.deep_view());
                assert(orig[i as int].id == id);
            }
            return Some(x);
        }
        i = i + 1;
    }
    None
}

/// The catalog of an owner's records, over every group.
pub fn list_service_inventory_by_owner(
    apps: &Vec<(Project, Vec<Deployment>)>,
    dbs: &Vec<ManagedDatabase>,
    queues: &Vec<ManagedQueue>,
) -> (r: Vec<ServiceInventoryItem>)
    ensures
        listing_ordered(r.deep_view()),
        r.deep_view().to_multiset() == catalog_entries(apps@, dbs@, queues@, None).to_multiset(),
{
    list_service_inventory_by_owner_and_group(apps, dbs, queues, None)
}

proof fn lemma_same_ids(a: Seq<InventoryItemModel>, b: Seq<InventoryItemModel>, id: u128)
    requires
        a.to_multiset() == b.to_multiset(),
    ensures
        (exists|i: int| 0 <= i < a.len() && #[trigger] a[i].id == id) <==> (exists|j: int|
            0 <= j < b.len() && #[trigger] b[j].id == id),
{
    a.to_multiset_ensures();
    b.to_multiset_ensures();
    if exists|i: int| 0 <= i < a.len() && #[trigger] a[i].id == id {
        let i = choose|i: int| 0 <= i < a.len() && #[trigger] a[i].id == id;
        assert(a.contains(a[i]));
        assert(a.to_multiset().count(a[i]) > 0);
        assert(b.to_multiset().count(a[i]) > 0);
        assert(b.contains(a[i]));
        let j = choose|j: int| 0 <= j < b.len() && b[j] == a[i];
        assert(b[j].id == id);
    }
    if exists|j: int| 0 <= j < b.len() && #[trigger] b[j].id == id {
        let j = choose|j: int| 0 <= j < b.len() && #[trigger] b[j].id == id;
        assert(b.contains(b[j]));
        assert(b.to_multiset().count(b[j]) > 0);
        assert(a.to_multiset().count(b[j]) > 0);
        assert(a.contains(b[j]));
        let i = choose|i: int| 0 <= i < a.len() && a[i] == b[j];
        assert(a[i].id == id);
    }
}

/// The catalog entry with identifier `id`: `None` when no entry of the
/// owner's catalog has it, else an entry with that identifier (the first
/// one in listing order).
pub fn get_service_inventory_by_id(
    apps: &Vec<(Project, Vec<Deployment>)>,
    dbs: &Vec<ManagedDatabase>,
    queues: &Vec<ManagedQueue>,
    id: u128,
) -> (r: Option<ServiceInventoryItem>)
    ensures
        r is None <==> forall|i: int|
            0 <= i < catalog_entries(apps@, dbs@, queues@, None).len() ==> #[trigger] catalog_entries(
                apps@,
                dbs@,
                queues@,
                None,
            )[i].id != id,
        r matches Some(x) ==> x.id == id && catalog_entries(apps@, dbs@, queues@, None).to_multiset().count(
            x.deep_view(),
        ) > 0,
{
    let items = list_service_inventory_by_owner(apps, dbs, queues);
    let ghost sorted = items.deep_view();
    let ghost all = catalog_entries(apps@, dbs@, queues@, None);
    let r = find_inventory_item(items, id);
    proof {
        lemma_same_ids(sorted, all, id);
        sorted.to_multiset_ensures();
        assert(forall|i: int| 0 <= i < sorted.len() ==> #[trigger] sorted[i].id == items@[i].id);
        match r {
            Some(ref x) => {
                let i = choose|i: int|
                    0 <= i < items@.len() && #[trigger] items.deep_view()[i] == x.deep_view() && x.id
                        == id && forall|j: int| 0 <= j < i ==> #[trigger] items@[j].id != id;
                assert(sorted.contains(sorted[i]));
                assert(sorted[i].id == id);
                assert(sorted.to_multiset().count(sorted[i]) > 0);
            },
            None => {
                if exists|j: int| 0 <= j < all.len() && #[trigger] all[j].id == id {
                    let i = choose|i: int| 0 <= i < sorted.len() && #[trigger] sorted[i].id == id;
                    assert(items@[i].id == id);
                }
            },
        }
    }
    r
}

proof fn lemma_apps_entries_in_group(apps: Seq<(Project, Vec<Deployment>)>, g: u128)
    ensures
        forall|i: int|
            0 <= i < apps_entries(apps, Some(g)).len() ==> #[trigger] apps_entries(apps, Some(g))[i].group_id
                == Some(g),
    decreases apps.len(),
{
    if apps.len() > 0 {
        lemma_apps_entries_in_group(apps.drop_last(), g);
        let prev = apps_entries(apps.drop_last(), Some(g));
        let last = apps.last();
        let tail = if listed_in(Some(g), Some(last.0.id)) {
            app_entries(last.0, last.1@)
        } else {
            Seq::empty()
        };
        assert(apps_entries(apps, Some(g)) == prev + tail);
        assert forall|i: int| 0 <= i < (prev + tail).len() implies #[trigger] (prev + tail)[i].group_id
            == Some(g) by {
            if i >= prev.len() {
                assert((prev + tail)[i] == tail[i - prev.len()]);
            }
        }
    }
}

proof fn lemma_database_entries_in_group(
    dbs: Seq<ManagedDatabase>,
    apps: Seq<(Project, Vec<Deployment>)>,
    g: u128,
)
    ensures
        forall|i: int|
            0 <= i < database_entries(dbs, apps, Some(g)).len() ==> #[trigger] database_entries(
                dbs,
                apps,
                Some(g),
            )[i].group_id == Some(g),
    decreases dbs.len(),
{
    if dbs.len() > 0 {
        lemma_database_entries_in_group(dbs.drop_last(), apps, g);
        let prev = database_entries(dbs.drop_last(), apps, Some(g));
        let tail = if listed_in(Some(g), dbs.last().group_id) {
            seq![database_item(dbs.last(), apps)]
        } else {
            Seq::empty()
        };
        assert(database_entries(dbs, apps, Some(g)) == prev + tail);
        assert forall|i: int| 0 <= i < (prev + tail).len() implies #[trigger] (prev + tail)[i].group_id
            == Some(g) by {
            if i >= prev.len() {
                assert((prev + tail)[i] == tail[i - prev.len()]);
            }
        }
    }
}

proof fn lemma_queue_entries_in_group(
    queues: Seq<ManagedQueue>,
    apps: Seq<(Project, Vec<Deployment>)>,
    g: u128,
)
    ensures
        forall|i: int|
            0 <= i < queue_entries(queues, apps, Some(g)).len() ==> #[trigger] queue_entries(
                queues,
                apps,
                Some(g),
            )[i].group_id == Some(g),
    decreases queues.len(),
{
    if queues.len() > 0 {
        lemma_queue_entries_in_group(queues.drop_last(), apps, g);
        let prev = queue_entries(queues.drop_last(), apps, Some(g));
        let tail = if listed_in(Some(g), queues.last().group_id) {
            seq![queue_item(queues.last(), apps)]
        } else {
            Seq::empty()
        };
        assert(queue_entries(queues, apps, Some(g)) == prev + tail);
        assert forall|i: int| 0 <= i < (prev + tail).len() implies #[trigger] (prev + tail)[i].group_id
            == Some(g) by {
            if i >= prev.len() {
                assert((prev + tail)[i] == tail[i - prev.len()]);
            }
        }
    }
}

/// A listing limited to a group lists only that group's services.
pub proof fn lemma_group_listing_only_group(
    apps: Seq<(Project, Vec<Deployment>)>,
    dbs: Seq<ManagedDatabase>,
    queues: Seq<ManagedQueue>,
    g: u128,
)
    ensures
        forall|i: int|
            0 <= i < catalog_entries(apps, dbs, queues, Some(g)).len() ==> #[trigger] catalog_entries(
                apps,
                dbs,
                queues,
                Some(g),
            )[i].group_id == Some(g),
{
    lemma_apps_entries_in_group(apps, g);
    lemma_database_entries_in_group(dbs, apps, g);
    lemma_queue_entries_in_group(queues, apps, g);
    let a = apps_entries(apps, Some(g));
    let d = database_entries(dbs, apps, Some(g));
    let q = queue_entries(queues, apps, Some(g));
    assert forall|i: int| 0 <= i < (a + d + q).len() implies #[trigger] (a + d + q)[i].group_id
        == Some(g) by {
        if i < a.len() {
            assert((a + d + q)[i] == a[i]);
        } else if i < a.len() + d.len() {
            assert((a + d + q)[i] == d[i - a.len()]);
        } else {
            assert((a + d + q)[i] == q[i - a.len() - d.len()]);
        }
    }
}

} // verus!

//! Deployment planning: service start order, images and per-service names.
use vstd::prelude::*;
use vstd::set_lib::{lemma_int_range, lemma_len_subset, set_int_range};

use crate::dup::{push_deep, Dup};
use crate::models::{ContainerService, Deployment, ServiceModel};
use crate::text::{concat3, push_char, str_eq};

verus! {

/// Why a deployment step could not be planned.
#[derive(Debug, Clone, PartialEq, Eq)]
pub enum DeployError {
    /// The services' dependencies cannot be ordered: a cycle, a dependency
    /// on a name no service has, or two services with the same name.
    CircularDependency,
    /// A rollback source holds no image for the named service.
    MissingImageArtifact(String),
    /// A cron job has no deployed image.
    NoDeployedImage(String),
}

/// No two services share a name.
pub open spec fn names_unique(s: Seq<ContainerService>) -> bool {
    forall|i: int, j: int| 0 <= i < j < s.len() ==> s[i].name@ != s[j].name@
}

/// `idx` lists every index below `n` exactly once.
pub open spec fn is_perm(idx: Seq<int>, n: int) -> bool {
    &&& idx.len() == n
    &&& idx.no_duplicates()
    &&& forall|k: int| 0 <= k < idx.len() ==> 0 <= #[trigger] idx[k] < n
}

/// In the order `idx`, every dependency of a service names a service that
/// comes before it.
pub open spec fn deps_before(s: Seq<ContainerService>, idx: Seq<int>) -> bool {
    forall|k: int, d: int|
        0 <= k < idx.len() && 0 <= d < s[idx[k]].depends_on.deep_view().len() ==> #[trigger] named_before(
            s,
            idx,
            k,
            s[idx[k]].depends_on.deep_view()[d],
        )
}

/// Some service before position `k` of the order `idx` is named `name`.
pub open spec fn named_before(s: Seq<ContainerService>, idx: Seq<int>, k: int, name: Seq<char>) -> bool {
    exists|k2: int| 0 <= k2 < k && #[trigger] s[idx[k2]].name@ == name
}

/// Some service marked in `placed` is named `name`.
pub open spec fn name_placed(s: Seq<ContainerService>, placed: Seq<bool>, name: Seq<char>) -> bool {
    exists|j: int| 0 <= j < s.len() && placed[j] && #[trigger] s[j].name@ == name
}

/// The services can be started in an order where each comes after all the
/// services it depends on.
pub open spec fn orderable(s: Seq<ContainerService>) -> bool {
    exists|idx: Seq<int>| is_perm(idx, s.len() as int) && deps_before(s, idx)
}

/// The deep views of the services in the order `idx`.
pub open spec fn in_order(s: Seq<ContainerService>, idx: Seq<int>) -> Seq<ServiceModel> {
    idx.map_values(|k: int| s[k].deep_view())
}

/// Every name in `deps` is the name of a service marked in `placed`.
pub open spec fn ready_deps(s: Seq<ContainerService>, placed: Seq<bool>, deps: Seq<Seq<char>>) -> bool {
    forall|d: int| 0 <= d < deps.len() ==> #[trigger] name_placed(s, placed, deps[d])
}

/// Every dependency of service `i` names a service marked in `placed`.
pub open spec fn ready_spec(s: Seq<ContainerService>, placed: Seq<bool>, i: int) -> bool {
    ready_deps(s, placed, s[i].depends_on.deep_view())
}

proof fn lemma_missing_index(order: Seq<int>, n: int)
    requires
        0 <= n,
        order.no_duplicates(),
        forall|k: int| 0 <= k < order.len() ==> 0 <= #[trigger] order[k] < n,
        order.len() < n,
    ensures
        exists|u: int| 0 <= u < n && !order.contains(u),
{
    lemma_int_range(0, n);
    order.unique_seq_to_set();
    if forall|u: int| 0 <= u < n ==> order.contains(u) {
        assert(set_int_range(0, n).subset_of(order.to_set()));
        lemma_len_subset(set_int_range(0, n), order.to_set());
    }
}

proof fn lemma_perm_covers(idx: Seq<int>, n: int, u: int)
    requires
        is_perm(idx, n),
        0 <= u < n,
    ensures
        idx.contains(u),
{
    lemma_int_range(0, n);
    idx.unique_seq_to_set();
    assert(idx.to_set().subset_of(set_int_range(0, n)));
    vstd::set_lib::lemma_subset_equality(idx.to_set(), set_int_range(0, n));
    assert(set_int_range(0, n).contains(u));
    assert(idx.to_set().contains(u));
}

/// The first position in `idx` at or after `from` whose index is not placed.
proof fn lemma_first_unplaced(idx: Seq<int>, placed: Seq<bool>, from: int, w: int) -> (k: int)
    requires
        0 <= from <= w < idx.len(),
        !placed[idx[w]],
        forall|k: int| 0 <= k < from ==> placed[#[trigger] idx[k]],
    ensures
        0 <= k <= w,
        !placed[idx[k]],
        forall|k2: int| 0 <= k2 < k ==> placed[#[trigger] idx[k2]],
    decreases w - from,
{
    if !placed[idx[from]] {
        from
    } else {
        lemma_first_unplaced(idx, placed, from + 1, w)
    }
}

/// Whether every name in `deps` names a placed service.
fn ready(services: &[ContainerService], placed: &Vec<bool>, deps: &Vec<String>) -> (r: bool)
    requires
        placed@.len() == services@.len(),
    ensures
        r == ready_deps(services@, placed@, deps.deep_view()),
{
    let n = services.len();
    let ghost dv = deps.deep_view();
    let mut d: usize = 0;
    while d < deps.len()
        invariant
            n == services@.len(),
            placed@.len() == n,
            dv == deps.deep_view(),
            dv.len() == deps@.len(),
            d <= deps@.len(),
            forall|e: int| 0 <= e < d ==> #[trigger] name_placed(services@, placed@, dv[e]),
        decreases deps.len() - d,
    {
        let mut j: usize = 0;
        let mut found = false;
        while j < n && !found
            invariant
                n == services@.len(),
                placed@.len() == n,
                dv == deps.deep_view(),
                dv.len() == deps@.len(),
                d < deps@.len(),
                j <= n,
                found ==> name_placed(services@, placed@, dv[d as int]),
                !found ==> forall|j2: int|
                    0 <= j2 < j ==> !(placed@[j2] && #[trigger] services@[j2].name@ == dv[d as int]),
            decreases n - j,
        {
            if placed[j] && str_eq(services[j].name.as_str(), deps[d].as_str()) {
                found = true;
            }
            j = j + 1;
        }
        if !found {
            proof {
                assert(!name_placed(services@, placed@, dv[d as int]));
            }
            return false;
        }
        d = d + 1;
    }
    true
}

/// Whether all service names differ.
fn unique_names(services: &[ContainerService]) -> (r: bool)
    ensures
        r == names_unique(services@),
{
    let n = services.len();
    let mut i: usize = 0;
    while i < n
        invariant
            n == services@.len(),
            i <= n,
            forall|a: int, b: int| 0 <= a < b < n && a < i ==> services@[a].name@ != services@[b].name@,
        decreases n - i,
    {
        let mut j: usize = i + 1;
        while j < n
            invariant
                n == services@.len(),
                i < n,
                i + 1 <= j <= n,
                forall|a: int, b: int| 0 <= a < b < n && a < i ==> services@[a].name@ != services@[b].name@,
                forall|b: int| i < b < j ==> services@[i as int].name@ != services@[b].name@,
            decreases n - j,
        {
            if str_eq(services[i].name.as_str(), services[j].name.as_str()) {
                return false;
            }
            j = j + 1;
        }
        i = i + 1;
    }
    true
}

/// Orders the services so that each comes after every service it depends
/// on (by name).
///
/// Fails with `CircularDependency` exactly when no such order exists or two
/// services share a name; otherwise the result lists every service once, in
/// an order where dependencies come first.
pub fn topological_sort_services(services: &[ContainerService]) -> (r: Result<
    Vec<ContainerService>,
    DeployError,
>)
    ensures
        r is Ok <==> names_unique(services@) && orderable(services@),
        r matches Ok(v) ==> exists|idx: Seq<int>|
            is_perm(idx, services@.len() as int) && deps_before(services@, idx) && v.deep_view()
                == in_order(services@, idx),
        r matches Err(e) ==> e == DeployError::CircularDependency,
{
    if !unique_names(services) {
        return Err(DeployError::CircularDependency);
    }
    let n = services.len();
    let mut placed: Vec<bool> = Vec::new();
    let mut k: usize = 0;
    while k < n
        invariant
            k <= n,
            placed@.len() == k,
            forall|j: int| 0 <= j < k ==> !placed@[j],
        decreases n - k,
    {
        placed.push(false);
        k = k + 1;
    }
    let mut order: Vec<usize> = Vec::new();
    let ghost mut idx: Seq<int> = Seq::empty();
    let mut step: usize = 0;
    while step < n
        invariant
            n == services@.len(),
            names_unique(services@),
            step <= n,
            placed@.len() == n,
            order@.len() == step,
            idx.len() == step,
            forall|p: int| 0 <= p < step ==> idx[p] == order@[p] as int,
            idx.no_duplicates(),
            forall|p: int| 0 <= p < idx.len() ==> 0 <= #[trigger] idx[p] < n,
            forall|j: int| 0 <= j < n ==> (placed@[j] <==> idx.contains(j)),
            deps_before(services@, idx),
        decreases n - step,
    {
        let mut i: usize = 0;
        let mut pick: Option<usize> = None;
        while i < n && pick.is_none()
            invariant
                n == services@.len(),
                placed@.len() == n,
                i <= n,
                pick matches Some(p) ==> p < n && !placed@[p as int] && ready_spec(
                    services@,
                    placed@,
                    p as int,
                ),
                pick is None ==> forall|j: int|
                    0 <= j < i ==> placed@[j] || !ready_spec(services@, placed@, j),
            decreases n - i,
        {
            if !placed[i] && ready(services, &placed, &services[i].depends_on) {
                pick = Some(i);
            }
            i = i + 1;
        }
        match pick {
            None => {
                proof {
                    lemma_missing_index(idx, n as int);
                    let u = choose|u: int| 0 <= u < n && !idx.contains(u);
                    assert(!placed@[u]);
                    if orderable(services@) {
                        let o = choose|o: Seq<int>|
                            is_perm(o, n as int) && deps_before(services@, o);
                        lemma_perm_covers(o, n as int, u);
                        let w = choose|w: int| 0 <= w < o.len() && o[w] == u;
                        let k0 = lemma_first_unplaced(o, placed@, 0, w);
                        let t = o[k0];
                        assert(ready_spec(services@, placed@, t)) by {
                            let dv = services@[t].depends_on.deep_view();
                            assert forall|d: int|
                                0 <= d < dv.len() implies #[trigger] name_placed(services@, placed@, dv[d]) by {
                                assert(named_before(services@, o, k0, dv[d]));
                                let kk = choose|k2: int|
                                    0 <= k2 < k0 && #[trigger] services@[o[k2]].name@ == dv[d];
                                assert(placed@[o[kk]]);
                                assert(0 <= o[kk] < n);
                                assert(services@[o[kk]].name@ == dv[d]);
                            }
                        }
                        assert(!placed@[t]);
                        assert(false);
                    }
                }
                return Err(DeployError::CircularDependency);
            },
            Some(p) => {
                proof {
                    let ni = idx.push(p as int);
                    assert forall|kk: int, d: int|
                        0 <= kk < ni.len() && 0 <= d < services@[ni[kk]].depends_on.deep_view().len()
                        implies #[trigger] named_before(
                        services@,
                        ni,
                        kk,
                        services@[ni[kk]].depends_on.deep_view()[d],
                    ) by {
                        let nm = services@[ni[kk]].depends_on.deep_view()[d];
                        if kk < idx.len() {
                            assert(ni[kk] == idx[kk]);
                            assert(named_before(services@, idx, kk, nm));
                            let w = choose|k2: int|
                                0 <= k2 < kk && #[trigger] services@[idx[k2]].name@ == nm;
                            assert(ni[w] == idx[w]);
                            assert(services@[ni[w]].name@ == nm);
                        } else {
                            assert(ni[kk] == p as int);
                            assert(name_placed(services@, placed@, nm));
                            let j = choose|j: int|
                                0 <= j < services@.len() && placed@[j] && #[trigger] services@[j].name@
                                    == nm;
                            assert(idx.contains(j));
                            let w = choose|w: int| 0 <= w < idx.len() && idx[w] == j;
                            assert(ni[w] == j);
                            assert(services@[ni[w]].name@ == nm);
                        }
                    }
                    assert(deps_before(services@, ni));
                    assert(!idx.contains(p as int));
                }
                placed.set(p, true);
                order.push(p);
                proof {
                    let old_idx = idx;
                    idx = idx.push(p as int);
                    assert(deps_before(services@, idx));
                    assert forall|j: int| 0 <= j < n implies (placed@[j] <==> idx.contains(j)) by {
                        if j == p {
                            assert(idx[old_idx.len() as int] == j);
                        } else if old_idx.contains(j) {
                            let w = choose|w: int| 0 <= w < old_idx.len() && old_idx[w] == j;
                            assert(idx[w] == j);
                        } else if idx.contains(j) {
                            let w = choose|w: int| 0 <= w < idx.len() && idx[w] == j;
                            assert(w < old_idx.len());
                            assert(old_idx[w] == j);
                        }
                    }
                    assert forall|a: int, b: int| 0 <= a < idx.len() && 0 <= b < idx.len() && a != b implies idx[a] != idx[b] by {
                        if a < old_idx.len() && b < old_idx.len() {
                        } else if a == old_idx.len() {
                            assert(old_idx[b] == idx[b]);
                            assert(old_idx.contains(idx[b]));
                        } else {
                            assert(old_idx[a] == idx[a]);
                            assert(old_idx.contains(idx[a]));
                        }
                    }
                }
            },
        }
        step = step + 1;
    }
    let mut result: Vec<ContainerService> = Vec::new();
    let mut q: usize = 0;
    proof {
        assert(result.deep_view() =~= in_order(services@, idx.take(0)));
    }
    while q < n
        invariant
            n == services@.len(),
            q <= n,
            order@.len() == n,
            idx.len() == n,
            forall|p: int| 0 <= p < n ==> idx[p] == order@[p] as int,
            forall|p: int| 0 <= p < idx.len() ==> 0 <= #[trigger] idx[p] < n,
            result.deep_view() == in_order(services@, idx.take(q as int)),
        decreases n - q,
    {
        proof {
            assert(idx[q as int] == order@[q as int]);
        }
        let x = services[order[q]].dup();
        push_deep(&mut result, x);
        proof {
            assert(idx.take(q + 1) =~= idx.take(q as int).push(idx[q as int]));
            assert(result.deep_view() =~= in_order(services@, idx.take(q + 1)));
        }
        q = q + 1;
    }
    proof {
        assert(idx.take(n as int) =~= idx);
        assert(is_perm(idx, n as int));
    }
    Ok(result)
}


/// A service name made safe for an image tag: ASCII letters, digits, '-'
/// and '_' kept, anything else '-'; "service" when empty.
pub open spec fn image_suffix(s: Seq<char>) -> Seq<char> {
    if s.len() == 0 {
        "service"@
    } else {
        s.map_values(|c: char| crate::naming::job_char(c))
    }
}

/// Sanitizes a service name for an image tag.
pub fn sanitize_image_suffix(value: &str) -> (r: String)
    ensures
        r@ == image_suffix(value@),
{
    let n = value.unicode_len();
    if n == 0 {
        return crate::text::owned("service");
    }
    let mut r = String::new();
    let mut i: usize = 0;
    while i < n
        invariant
            n == value@.len(),
            i <= n,
            r@ == value@.take(i as int).map_values(|c: char| crate::naming::job_char(c)),
        decreases n - i,
    {
        let c = value.get_char(i);
        let k = if ('a' <= c && c <= 'z') || ('A' <= c && c <= 'Z') || ('0' <= c && c <= '9')
            || c == '-' || c == '_' {
            c
        } else {
            '-'
        };
        push_char(&mut r, k);
        proof {
            assert(value@.take(i + 1).map_values(|c: char| crate::naming::job_char(c))
                =~= value@.take(i as int).map_values(|c: char| crate::naming::job_char(c)).push(
                k,
            ));
        }
        i = i + 1;
    }
    proof {
        assert(value@.take(n as int) =~= value@);
    }
    r
}

/// The inputs on which taking the first 8 bytes of a commit id would
/// split a char (and panic).
pub open spec fn splits_char_in_commit(commit_sha: Seq<char>) -> bool {
    crate::text::utf8_width(commit_sha) >= 8 && !crate::text::byte_boundary(commit_sha, 8)
}

/// The first 8 bytes of a commit id, or all of it when shorter.
pub open spec fn commit_prefix(commit_sha: Seq<char>) -> Seq<char> {
    if crate::text::utf8_width(commit_sha) >= 8 {
        let k = choose|k: int| 0 <= k <= commit_sha.len() && crate::text::utf8_width(commit_sha.take(k)) == 8;
        commit_sha.take(k)
    } else {
        commit_sha
    }
}

/// The tag of an image built for a service:
/// `containr/<app id>:<commit prefix>-<service suffix>`.
pub open spec fn built_image_text(app_id: u128, commit_sha: Seq<char>, service_name: Seq<char>) -> Seq<
    char,
> {
    "containr/"@ + crate::text::uuid_text(app_id) + ":"@ + commit_prefix(commit_sha) + "-"@
        + image_suffix(service_name)
}

/// The first 8 bytes of a commit id, or all of it when shorter.
pub fn commit_prefix_text(commit_sha: &str) -> (r: String)
    requires
        !splits_char_in_commit(commit_sha@),
    ensures
        r@ == commit_prefix(commit_sha@),
{
    match crate::text::byte_prefix(commit_sha, 8) {
        Some(p) => {
            proof {
                let k = p@.len() as int;
                let c = choose|c: int|
                    0 <= c <= commit_sha@.len() && crate::text::utf8_width(commit_sha@.take(c)) == 8;
                crate::text::lemma_width_monotone_pub(commit_sha@, k);
                crate::text::lemma_width_injective(commit_sha@, k, c);
            }
            p
        },
        None => crate::text::owned(commit_sha),
    }
}

/// Names the image built for a service from a commit.
pub fn built_image_name(app_id: u128, commit_sha: &str, service_name: &str) -> (r: String)
    requires
        !splits_char_in_commit(commit_sha@),
    ensures
        r@ == built_image_text(app_id, commit_sha@, service_name@),
{
    let prefix = commit_prefix_text(commit_sha);
    let id = crate::text::uuid_string(app_id);
    let suffix = sanitize_image_suffix(service_name);
    let mut r = concat3("containr/", id.as_str(), ":");
    r.append(prefix.as_str());
    r.append("-");
    r.append(suffix.as_str());
    r
}

/// The image a source deployment recorded for a service: that of its first
/// replica deployment with an image.
pub open spec fn recorded_image(sds: Seq<crate::models::ServiceDeploymentModel>, sid: u128) -> Option<
    Seq<char>,
>
    decreases sds.len(),
{
    if sds.len() == 0 {
        None
    } else {
        let d = sds[0];
        if d.service_id == sid && d.image_id is Some {
            d.image_id
        } else {
            recorded_image(sds.drop_first(), sid)
        }
    }
}

/// The image a rollback redeploys for a service: the one the source
/// deployment recorded for it, else the service's configured image, else
/// the source deployment's single image.
pub open spec fn rollback_image(source: crate::models::DeploymentModel, service: ServiceModel) -> Option<
    Seq<char>,
> {
    match recorded_image(source.service_deployments, service.id) {
        Some(i) => Some(i),
        None => if service.image.len() > 0 {
            Some(service.image)
        } else {
            source.image_id
        },
    }
}

/// Index of the first service without a rollback image.
pub open spec fn first_without_image(source: crate::models::DeploymentModel, services: Seq<ServiceModel>) -> Option<int> {
    if exists|i: int| 0 <= i < services.len() && rollback_image(source, services[i]) is None {
        Some(choose|i: int| 0 <= i < services.len() && rollback_image(source, services[i]) is None
            && forall|j: int| 0 <= j < i ==> rollback_image(source, services[j]) is Some)
    } else {
        None
    }
}

pub(crate) fn recorded_image_of(sds: &Vec<crate::models::ServiceDeployment>, sid: u128) -> (r: Option<String>)
    ensures
        r.deep_view() == recorded_image(sds.deep_view(), sid),
{
    let ghost v = sds.deep_view();
    let mut i: usize = 0;
    proof {
        assert(v.skip(0) =~= v);
    }
    while i < sds.len()
        invariant
            i <= sds@.len(),
            v == sds.deep_view(),
            recorded_image(v, sid) == recorded_image(v.skip(i as int), sid),
        decreases sds.len() - i,
    {
        proof {
            assert(v.skip(i as int)[0] == v[i as int]);
            assert(v.skip(i as int).drop_first() =~= v.skip(i + 1));
        }
        if sds[i].service_id == sid {
            match &sds[i].image_id {
                Some(img) => return Some(img.dup()),
                None => {},
            }
        }
        i = i + 1;
    }
    None
}

/// The images a rollback redeploys, one per service of the app in order,
/// or the first service for which the source holds no image.
pub fn resolve_rollback_service_images(services: &Vec<ContainerService>, source: &Deployment) -> (r: Result<
    Vec<(u128, String)>,
    DeployError,
>)
    ensures
        match first_without_image(source.deep_view(), services.deep_view()) {
            Some(i) => r matches Err(DeployError::MissingImageArtifact(name)) && name@
                == services.deep_view()[i].name,
            None => r matches Ok(images) && images@.len() == services@.len() && forall|k: int|
                0 <= k < services@.len() ==> (#[trigger] images@[k]).0 == services@[k].id
                    && rollback_image(source.deep_view(), services.deep_view()[k]) == Some(
                    images@[k].1@,
                ),
        },
{
    let ghost sv = services.deep_view();
    let ghost src = source.deep_view();
    let mut out: Vec<(u128, String)> = Vec::new();
    let mut i: usize = 0;
    while i < services.len()
        invariant
            i <= services@.len(),
            sv == services.deep_view(),
            src == source.deep_view(),
            out@.len() == i,
            forall|j: int| 0 <= j < i ==> rollback_image(src, sv[j]) is Some,
            forall|k: int|
                0 <= k < i ==> (#[trigger] out@[k]).0 == services@[k].id && rollback_image(
                    src,
                    sv[k],
                ) == Some(out@[k].1@),
        decreases services.len() - i,
    {
        let service = &services[i];
        let image = match recorded_image_of(&source.service_deployments, service.id) {
            Some(img) => img,
            None => {
                if service.image.unicode_len() > 0 {
                    service.image.dup()
                } else {
                    match &source.image_id {
                        Some(img) => img.dup(),
                        None => {
                            proof {
                                assert(rollback_image(src, sv[i as int]) is None);
                                let f = choose|f: int| 0 <= f < sv.len() && rollback_image(src, sv[f]) is None
                                    && forall|j: int| 0 <= j < f ==> rollback_image(src, sv[j]) is Some;
                                assert(f == i);
                            }
                            return Err(DeployError::MissingImageArtifact(service.name.dup()));
                        },
                    }
                }
            },
        };
        out.push((service.id, image));
        i = i + 1;
    }
    proof {
        assert(!exists|f: int| 0 <= f < sv.len() && rollback_image(src, sv[f]) is None);
    }
    Ok(out)
}

/// The image of a deployment as a whole: the one image all its services
/// run, when they all run the same one.
pub open spec fn single_image(images: Seq<(u128, String)>) -> Option<Seq<char>> {
    if images.len() > 0 && forall|k: int| 0 <= k < images.len() ==> (#[trigger] images[k]).1@ == images[0].1@ {
        Some(images[0].1@)
    } else {
        None
    }
}

/// The image recorded on a deployment: set only when every service runs
/// the same image.
pub fn primary_deployment_image_id(service_images: &Vec<(u128, String)>) -> (r: Option<String>)
    ensures
        r.deep_view() == single_image(service_images@),
{
    if service_images.len() == 0 {
        return None;
    }
    let mut i: usize = 1;
    while i < service_images.len()
        invariant
            1 <= i <= service_images@.len(),
            forall|k: int| 0 <= k < i ==> (#[trigger] service_images@[k]).1@ == service_images@[0].1@,
        decreases service_images.len() - i,
    {
        if !str_eq(service_images[i].1.as_str(), service_images[0].1.as_str()) {
            return None;
        }
        i = i + 1;
    }
    Some(service_images[0].1.dup())
}

/// The running deployment that a new deployment replaces: the first
/// running one other than the new one, in the order given.
pub open spec fn previous_running(deployments: Seq<Deployment>, current: u128) -> Option<int> {
    if exists|i: int| 0 <= i < deployments.len() && deployments[i].id != current
        && deployments[i].status == crate::models::DeploymentStatus::Running {
        Some(choose|i: int| 0 <= i < deployments.len() && deployments[i].id != current
            && deployments[i].status == crate::models::DeploymentStatus::Running && forall|j: int|
            0 <= j < i ==> !(deployments[j].id != current && deployments[j].status
                == crate::models::DeploymentStatus::Running))
    } else {
        None
    }
}

/// Index of the running deployment that a new deployment replaces.
pub fn previous_running_deployment(deployments: &Vec<Deployment>, current_deployment_id: u128) -> (r:
    Option<usize>)
    ensures
        match previous_running(deployments@, current_deployment_id) {
            Some(i) => r == Some(i as usize) && i < deployments@.len(),
            None => r is None,
        },
{
    let mut i: usize = 0;
    while i < deployments.len()
        invariant
            i <= deployments@.len(),
            forall|j: int| 0 <= j < i ==> !(deployments@[j].id != current_deployment_id
                && deployments@[j].status == crate::models::DeploymentStatus::Running),
        decreases deployments.len() - i,
    {
        let d = &deployments[i];
        let running = match d.status {
            crate::models::DeploymentStatus::Running => true,
            _ => false,
        };
        if d.id != current_deployment_id && running {
            proof {
                let k = choose|k: int| 0 <= k < deployments@.len() && deployments@[k].id != current_deployment_id
                    && deployments@[k].status == crate::models::DeploymentStatus::Running && forall|j: int|
                    0 <= j < k ==> !(deployments@[j].id != current_deployment_id && deployments@[j].status
                        == crate::models::DeploymentStatus::Running);
                if k < i {
                } else if k > i {
                }
                assert(k == i as int);
            }
            return Some(i);
        }
        i = i + 1;
    }
    None
}

} // verus!

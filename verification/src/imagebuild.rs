//! What building the image of a service from a checked-out repository
//! takes: the build context and Dockerfile, the arguments, the key under
//! which identical builds are shared, and the messages of a failed check.
use vstd::prelude::*;

use crate::dup::{push_deep, Dup};
use crate::models::{BuildArg, ContainerService, KeyValueModel};
use crate::text::{
    concat2, concat3, join_path, lemma_str_lt_order, owned, path_join, str_eq, str_less, str_lt,
};

verus! {

/// What `Path::strip_prefix` leaves of `path` once the leading components
/// equal to those of `prefix` are removed, `None` when they are not its
/// leading components.
pub uninterp spec fn path_without_prefix(path: Seq<char>, prefix: Seq<char>) -> Option<Seq<char>>;

/// `Path::new(path).strip_prefix(prefix)`, the rest read back as text (a
/// path made from a `str` is valid UTF-8, so nothing is lost). The result
/// is named; how components are compared is left to the name.
#[verifier::external_body]
fn strip_path_prefix(path: &str, prefix: &str) -> (r: Option<String>)
    ensures
        r.deep_view() == path_without_prefix(path@, prefix@),
{
    match std::path::Path::new(path).strip_prefix(prefix) {
        Ok(rest) => Some(rest.to_string_lossy().to_string()),
        Err(_) => None,
    }
}

/// The build context of a service relative to the repository: its
/// configured context, else the repository root.
pub open spec fn context_rel(service: ContainerService) -> Seq<char> {
    match service.build_context {
        Some(c) => c@,
        None => "."@,
    }
}

/// The Dockerfile path relative to the build context: as given when the
/// context is the root, else with the context's components removed from
/// its front when they are there; an absolute path outside the context is
/// refused.
pub open spec fn context_dockerfile(context: Seq<char>, dockerfile: Seq<char>) -> Result<Seq<char>, Seq<char>> {
    if context == "."@ {
        Ok(dockerfile)
    } else {
        match path_without_prefix(dockerfile, context) {
            Some(rest) => Ok(rest),
            None => if dockerfile.len() > 0 && dockerfile[0] == '/' {
                Err("dockerfile path must be relative"@)
            } else {
                Ok(dockerfile)
            },
        }
    }
}

/// Resolves a Dockerfile path against the build context.
pub fn resolve_context_dockerfile_path(context: &str, dockerfile: &str) -> (r: Result<String, String>)
    ensures
        match context_dockerfile(context@, dockerfile@) {
            Ok(p) => r matches Ok(x) && x@ == p,
            Err(e) => r matches Err(x) && x@ == e,
        },
{
    if str_eq(context, ".") {
        return Ok(owned(dockerfile));
    }
    match strip_path_prefix(dockerfile, context) {
        Some(rest) => Ok(rest),
        None => {
            if dockerfile.unicode_len() > 0 && dockerfile.get_char(0) == '/' {
                Err(owned("dockerfile path must be relative"))
            } else {
                Ok(owned(dockerfile))
            }
        },
    }
}

/// The directory the build of a service runs in.
pub fn build_context_path(repo_path: &str, service: &ContainerService) -> (r: String)
    ensures
        r@ == path_join(repo_path@, context_rel(*service)),
{
    match &service.build_context {
        Some(c) => join_path(repo_path, c.as_str()),
        None => {
            proof {
                reveal_strlit(".");
            }
            join_path(repo_path, ".")
        },
    }
}

/// What building an image takes.
pub struct ImageBuildPlan {
    pub context_path: String,
    pub dockerfile: Option<String>,
    pub target: Option<String>,
    pub build_args: Vec<(String, String)>,
}

/// Name/value pairs of build arguments.
pub open spec fn arg_pairs(args: Seq<KeyValueModel>) -> Seq<(Seq<char>, Seq<char>)> {
    Seq::new(args.len(), |i: int| (args[i].key, args[i].value))
}

/// Pairs of texts as character sequences.
pub open spec fn text_pairs(v: Seq<(String, String)>) -> Seq<(Seq<char>, Seq<char>)> {
    Seq::new(v.len(), |i: int| (v[i].0@, v[i].1@))
}

fn pairs_of_args(args: &Vec<BuildArg>) -> (r: Vec<(String, String)>)
    ensures
        text_pairs(r@) == arg_pairs(args.deep_view()),
{
    let ghost want = arg_pairs(args.deep_view());
    let mut r: Vec<(String, String)> = Vec::new();
    let mut i: usize = 0;
    while i < args.len()
        invariant
            i <= args@.len(),
            want == arg_pairs(args.deep_view()),
            text_pairs(r@) == want.take(i as int),
        decreases args.len() - i,
    {
        let k = args[i].key.dup();
        let v = args[i].value.dup();
        let ghost before = r@;
        r.push((k, v));
        proof {
            assert(text_pairs(r@) =~= text_pairs(before).push((k@, v@)));
            assert(want.take(i + 1) =~= want.take(i as int).push(want[i as int]));
        }
        i = i + 1;
    }
    proof {
        assert(want.take(i as int) =~= want);
    }
    r
}

/// Plans the image build of a service from the repository at `repo_path`;
/// fails when its Dockerfile path cannot be resolved against its context.
/// (That the context is a directory and the Dockerfile exists is checked
/// on disk by the caller.)
pub fn plan_image_build(repo_path: &str, service: &ContainerService) -> (r: Result<
    ImageBuildPlan,
    String,
>)
    ensures
        match service.dockerfile_path {
            Some(d) => match context_dockerfile(context_rel(*service), d@) {
                Err(e) => r matches Err(x) && x@ == e,
                Ok(p) => r matches Ok(plan) && plan.dockerfile.deep_view() == Some(p),
            },
            None => r matches Ok(plan) && plan.dockerfile is None,
        },
        r matches Ok(plan) ==> plan.context_path@ == path_join(repo_path@, context_rel(*service))
            && plan.target.deep_view() == service.build_target.deep_view() && text_pairs(
            plan.build_args@,
        ) == arg_pairs(service.build_args.deep_view()),
{
    let context = match &service.build_context {
        Some(c) => c.dup(),
        None => {
            proof {
                reveal_strlit(".");
            }
            owned(".")
        },
    };
    let dockerfile = match &service.dockerfile_path {
        Some(d) => match resolve_context_dockerfile_path(context.as_str(), d.as_str()) {
            Ok(p) => Some(p),
            Err(e) => return Err(e),
        },
        None => None,
    };
    Ok(
        ImageBuildPlan {
            context_path: build_context_path(repo_path, service),
            dockerfile,
            target: service.build_target.dup(),
            build_args: pairs_of_args(&service.build_args),
        },
    )
}

/// The message for a build context that does not exist.
pub fn missing_context_message(context: &str, service_name: &str) -> (r: String)
    ensures
        r@ == "build context "@ + context@ + " does not exist for service "@ + service_name@,
{
    let mut r = concat3("build context ", context, " does not exist for service ");
    r.append(service_name);
    r
}

/// The message for a build context that is not a directory.
pub fn context_not_directory_message(context: &str, service_name: &str) -> (r: String)
    ensures
        r@ == "build context "@ + context@ + " is not a directory for service "@ + service_name@,
{
    let mut r = concat3("build context ", context, " is not a directory for service ");
    r.append(service_name);
    r
}

/// The message for a Dockerfile that does not exist.
pub fn missing_dockerfile_message(dockerfile: &str, service_name: &str) -> (r: String)
    ensures
        r@ == "dockerfile "@ + dockerfile@ + " does not exist for service "@ + service_name@,
{
    let mut r = concat3("dockerfile ", dockerfile, " does not exist for service ");
    r.append(service_name);
    r
}

/// No text is strictly greater than one after it.
pub open spec fn texts_sorted(s: Seq<Seq<char>>) -> bool {
    forall|i: int, j: int| 0 <= i < j < s.len() ==> !str_lt(#[trigger] s[j], #[trigger] s[i])
}

proof fn lemma_insert_sorted(s: Seq<Seq<char>>, p: int, x: Seq<char>)
    requires
        texts_sorted(s),
        0 <= p <= s.len(),
        forall|k: int| 0 <= k < p ==> !str_lt(x, #[trigger] s[k]),
        p < s.len() ==> str_lt(x, s[p]),
    ensures
        texts_sorted(s.insert(p, x)),
{
    let t = s.insert(p, x);
    assert forall|i: int, j: int| 0 <= i < j < t.len() implies !str_lt(#[trigger] t[j], #[trigger] t[i]) by {
        if i < p && j == p {
            assert(!str_lt(x, s[i]));
        } else if i < p && j > p {
            assert(t[j] == s[j - 1]);
        } else if i == p {
            assert(t[j] == s[j - 1]);
            lemma_str_lt_order(s[j - 1], x, s[p]);
            lemma_str_lt_order(s[p], s[p], s[p]);
            if p < j - 1 {
                assert(!str_lt(s[j - 1], s[p]));
            }
        } else if i > p {
            assert(t[i] == s[i - 1]);
            assert(t[j] == s[j - 1]);
        }
    }
}

/// The texts in ascending order (the order of `str`'s `Ord`).
pub fn sort_texts(items: Vec<String>) -> (r: Vec<String>)
    ensures
        texts_sorted(r.deep_view()),
        r.deep_view().to_multiset() == items.deep_view().to_multiset(),
{
    let ghost all = items.deep_view();
    let mut rest = items;
    let mut out: Vec<String> = Vec::new();
    let ghost mut k: int = 0;
    proof {
        assert(out.deep_view() =~= Seq::<Seq<char>>::empty());
        assert(all.skip(0) =~= all);
        vstd::seq_lib::lemma_multiset_commutative(Seq::<Seq<char>>::empty(), all);
        assert(Seq::<Seq<char>>::empty() + all =~= all);
    }
    while rest.len() > 0
        invariant
            0 <= k <= all.len(),
            rest.deep_view() == all.skip(k),
            texts_sorted(out.deep_view()),
            all.to_multiset() == out.deep_view().to_multiset().add(rest.deep_view().to_multiset()),
        decreases rest.len(),
    {
        let ghost rv = rest.deep_view();
        let x = rest.remove(0);
        proof {
            assert(rest.deep_view() =~= rv.remove(0));
            assert(rv.remove(0) =~= all.skip(k + 1));
            vstd::seq_lib::to_multiset_remove(rv, 0);
            assert(rv[0] == x@);
            broadcast use vstd::multiset::group_multiset_axioms;
            assert(rv.to_multiset().count(rv[0]) > 0) by {
                rv.to_multiset_ensures();
                assert(rv.contains(rv[0]));
            }
            assert(rv.to_multiset() =~= rv.remove(0).to_multiset().insert(rv[0]));
            k = k + 1;
        }
        let ghost s = out.deep_view();
        let mut p: usize = 0;
        while p < out.len()
            invariant
                p <= out.len(),
                out.deep_view() == s,
                forall|q: int| 0 <= q < p ==> !str_lt(x@, #[trigger] s[q]),
            ensures
                p <= out.len(),
                out.deep_view() == s,
                forall|q: int| 0 <= q < p ==> !str_lt(x@, #[trigger] s[q]),
                p < out.len() ==> str_lt(x@, s[p as int]),
            decreases out.len() - p,
        {
            if str_less(x.as_str(), out[p].as_str()) {
                break;
            }
            p = p + 1;
        }
        let ghost dx = x@;
        proof {
            lemma_insert_sorted(s, p as int, dx);
            vstd::seq_lib::to_multiset_insert(s, p as int, dx);
        }
        out.insert(p, x);
        proof {
            assert(out.deep_view() =~= s.insert(p as int, dx));
            broadcast use vstd::multiset::group_multiset_axioms;
            assert(all.to_multiset() =~= out.deep_view().to_multiset().add(
                rest.deep_view().to_multiset(),
            ));
        }
    }
    proof {
        broadcast use vstd::multiset::group_multiset_axioms;
        assert(rest.deep_view() =~= Seq::<Seq<char>>::empty());
        assert(all.to_multiset() =~= out.deep_view().to_multiset());
    }
    out
}

/// Texts joined with a separator.
pub open spec fn joined(s: Seq<Seq<char>>, sep: Seq<char>) -> Seq<char>
    decreases s.len(),
{
    if s.len() == 0 {
        Seq::empty()
    } else if s.len() == 1 {
        s[0]
    } else {
        joined(s.drop_last(), sep) + sep + s.last()
    }
}

fn join_texts(s: &Vec<String>, sep: &str) -> (r: String)
    ensures
        r@ == joined(s.deep_view(), sep@),
{
    let ghost w = s.deep_view();
    if s.len() == 0 {
        return String::new();
    }
    let mut out = s[0].dup();
    let mut i: usize = 1;
    proof {
        assert(w.take(1).len() == 1);
        assert(joined(w.take(1), sep@) == w[0]);
    }
    while i < s.len()
        invariant
            1 <= i <= s@.len(),
            w == s.deep_view(),
            out@ == joined(w.take(i as int), sep@),
        decreases s.len() - i,
    {
        proof {
            assert(w.take(i + 1).drop_last() =~= w.take(i as int));
        }
        out.append(sep);
        out.append(s[i].as_str());
        i = i + 1;
    }
    proof {
        assert(w.take(w.len() as int) =~= w);
    }
    out
}

/// `key=value` lines of build arguments, in configured order.
pub open spec fn arg_lines(args: Seq<KeyValueModel>) -> Seq<Seq<char>> {
    Seq::new(args.len(), |i: int| args[i].key + "="@ + args[i].value)
}

/// The key under which identical image builds are shared: the context,
/// the Dockerfile and target (empty when unset) and the build arguments in
/// ascending `key=value` order, separated by '|' (and the arguments by
/// ';').
pub open spec fn build_key_of(
    context_path: Seq<char>,
    dockerfile: Option<Seq<char>>,
    target: Option<Seq<char>>,
    sorted_args: Seq<Seq<char>>,
) -> Seq<char> {
    context_path + "|"@ + (match dockerfile {
        Some(d) => d,
        None => Seq::empty(),
    }) + "|"@ + (match target {
        Some(t) => t,
        None => Seq::empty(),
    }) + "|"@ + joined(sorted_args, ";"@)
}

/// The sharing key of a build.
pub fn service_build_cache_key(service: &ContainerService, plan: &ImageBuildPlan) -> (r: String)
    ensures
        exists|sorted: Seq<Seq<char>>|
            texts_sorted(sorted) && sorted.to_multiset() == arg_lines(
                service.build_args.deep_view(),
            ).to_multiset() && r@ == #[trigger] build_key_of(
                plan.context_path@,
                plan.dockerfile.deep_view(),
                plan.target.deep_view(),
                sorted,
            ),
{
    let ghost want = arg_lines(service.build_args.deep_view());
    let mut lines: Vec<String> = Vec::new();
    let mut i: usize = 0;
    while i < service.build_args.len()
        invariant
            i <= service.build_args@.len(),
            want == arg_lines(service.build_args.deep_view()),
            lines.deep_view() == want.take(i as int),
        decreases service.build_args.len() - i,
    {
        let a = &service.build_args[i];
        let line = concat3(a.key.as_str(), "=", a.value.as_str());
        push_deep(&mut lines, line);
        proof {
            assert(lines.deep_view() =~= want.take(i + 1));
        }
        i = i + 1;
    }
    proof {
        assert(want.take(i as int) =~= want);
    }
    let sorted = sort_texts(lines);
    let mut key = concat2(plan.context_path.as_str(), "|");
    match &plan.dockerfile {
        Some(d) => key.append(d.as_str()),
        None => {},
    }
    key.append("|");
    match &plan.target {
        Some(t) => key.append(t.as_str()),
        None => {},
    }
    key.append("|");
    let args = join_texts(&sorted, ";");
    key.append(args.as_str());
    proof {
        assert(key@ =~= build_key_of(
            plan.context_path@,
            plan.dockerfile.deep_view(),
            plan.target.deep_view(),
            sorted.deep_view(),
        ));
    }
    key
}

/// The image already built under a key, if any.
pub open spec fn built_under(built: Seq<(String, String)>, key: Seq<char>) -> Option<Seq<char>> {
    if exists|i: int| 0 <= i < built.len() && built[i].0@ == key {
        Some(
            built[choose|i: int|
                0 <= i < built.len() && built[i].0@ == key && forall|j: int|
                    0 <= j < i ==> built[j].0@ != key].1@,
        )
    } else {
        None
    }
}

/// The image built earlier in the same deployment under `key`: the first
/// recorded under it (each key is recorded once).
pub fn image_built_under(built: &Vec<(String, String)>, key: &str) -> (r: Option<String>)
    ensures
        r.deep_view() == built_under(built@, key@),
{
    let mut i: usize = 0;
    while i < built.len()
        invariant
            i <= built@.len(),
            forall|j: int| 0 <= j < i ==> #[trigger] built@[j].0@ != key@,
        decreases built.len() - i,
    {
        if str_eq(built[i].0.as_str(), key) {
            proof {
                let c = choose|c: int|
                    0 <= c < built@.len() && built@[c].0@ == key@ && forall|j: int|
                        0 <= j < c ==> built@[j].0@ != key@;
                if c < i {
                    assert(built@[c].0@ != key@);
                }
                if c > i {
                    assert(built@[i as int].0@ != key@);
                }
            }
            return Some(built[i].1.dup());
        }
        i = i + 1;
    }
    None
}

} // verus!

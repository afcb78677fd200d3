//! Environment variables of containers: a map from names to values, and
//! the variables each kind of container starts with.
use vstd::prelude::*;

use crate::dup::{push_deep, Dup};
use crate::models::{ContainerService, EnvVar, KeyValueModel, Project};
use crate::text::{concat3, dec, dec_string, owned, str_eq};

verus! {

/// Environment variables by name; setting a name again replaces its value.
pub struct EnvVars {
    entries: Vec<(String, String)>,
}

/// The map that setting each entry of a list in turn builds.
pub open spec fn entries_map(e: Seq<(String, String)>) -> Map<Seq<char>, Seq<char>>
    decreases e.len(),
{
    if e.len() == 0 {
        Map::empty()
    } else {
        entries_map(e.drop_last()).insert(e.last().0@, e.last().1@)
    }
}

/// Entry `i` is the last one that sets its name.
pub open spec fn last_setting(e: Seq<(String, String)>, i: int) -> bool {
    0 <= i < e.len() && forall|j: int| i < j < e.len() ==> (#[trigger] e[j]).0@ != e[i].0@
}

proof fn lemma_entries_map(e: Seq<(String, String)>, k: Seq<char>)
    ensures
        entries_map(e).contains_key(k) <==> exists|i: int| last_setting(e, i) && e[i].0@ == k,
        forall|i: int| last_setting(e, i) && e[i].0@ == k ==> entries_map(e)[k] == e[i].1@,
    decreases e.len(),
{
    if e.len() > 0 {
        let p = e.drop_last();
        lemma_entries_map(p, k);
        let n = e.len() - 1;
        if e[n].0@ == k {
            assert(last_setting(e, n));
            assert forall|i: int| last_setting(e, i) && e[i].0@ == k implies i == n by {
                if i < n {
                    assert(e[n].0@ != e[i].0@);
                }
            }
        } else {
            assert forall|i: int| last_setting(e, i) && e[i].0@ == k implies last_setting(p, i) by {
                assert(i < n);
                assert forall|j: int| i < j < p.len() implies (#[trigger] p[j]).0@ != p[i].0@ by {
                    assert(p[j] == e[j]);
                }
            }
            assert forall|i: int| last_setting(p, i) && p[i].0@ == k implies last_setting(e, i) && e[i].0@ == k by {
                assert forall|j: int| i < j < e.len() implies (#[trigger] e[j]).0@ != e[i].0@ by {
                    if j < n {
                        assert(p[j] == e[j]);
                    }
                }
            }
        }
    }
}

impl View for EnvVars {
    type V = Map<Seq<char>, Seq<char>>;

    closed spec fn view(&self) -> Map<Seq<char>, Seq<char>> {
        entries_map(self.entries@)
    }
}

impl EnvVars {
    /// No variables.
    pub fn new() -> (r: EnvVars)
        ensures
            r@ == Map::<Seq<char>, Seq<char>>::empty(),
    {
        EnvVars { entries: Vec::new() }
    }

    /// Sets `key` to `value`.
    pub fn insert(&mut self, key: String, value: String)
        ensures
            final(self)@ == old(self)@.insert(key@, value@),
    {
        let ghost before = self.entries@;
        self.entries.push((key, value));
        proof {
            assert(self.entries@.drop_last() =~= before);
        }
    }

    /// The value of `key`, if set.
    pub fn get(&self, key: &str) -> (r: Option<String>)
        ensures
            match r {
                Some(v) => self@.contains_key(key@) && self@[key@] == v@,
                None => !self@.contains_key(key@),
            },
    {
        let ghost e = self.entries@;
        let mut i: usize = self.entries.len();
        while i > 0
            invariant
                i <= e.len(),
                e == self.entries@,
                forall|j: int| i <= j < e.len() ==> (#[trigger] e[j]).0@ != key@,
            decreases i,
        {
            if str_eq(self.entries[i - 1].0.as_str(), key) {
                proof {
                    assert(last_setting(e, i - 1));
                    lemma_entries_map(e, key@);
                }
                return Some(self.entries[i - 1].1.dup());
            }
            i = i - 1;
        }
        proof {
            lemma_entries_map(e, key@);
        }
        None
    }

    /// The variables as `NAME=value` lines, one per name.
    pub fn to_lines(&self) -> (r: Vec<String>)
        ensures
            forall|line: Seq<char>|
                #![trigger r.deep_view().contains(line)]
                r.deep_view().contains(line) <==> exists|k: Seq<char>|
                    self@.contains_key(k) && line == k + "="@ + #[trigger] self@[k],
    {
        let ghost e = self.entries@;
        let mut out: Vec<String> = Vec::new();
        let mut i: usize = 0;
        while i < self.entries.len()
            invariant
                i <= e.len(),
                e == self.entries@,
                forall|line: Seq<char>|
                    #![trigger out.deep_view().contains(line)]
                    out.deep_view().contains(line) <==> exists|m: int|
                        0 <= m < i && last_setting(e, m) && line == (#[trigger] e[m]).0@ + "="@
                            + e[m].1@,
            decreases self.entries.len() - i,
        {
            let mut later = false;
            let mut j: usize = i + 1;
            while j < self.entries.len()
                invariant
                    i < j <= e.len(),
                    e == self.entries@,
                    later == exists|t: int| i < t < j && (#[trigger] e[t]).0@ == e[i as int].0@,
                decreases self.entries.len() - j,
            {
                if str_eq(self.entries[j].0.as_str(), self.entries[i].0.as_str()) {
                    later = true;
                }
                j = j + 1;
            }
            let ghost before = out.deep_view();
            if !later {
                let line = concat3(self.entries[i].0.as_str(), "=", self.entries[i].1.as_str());
                push_deep(&mut out, line);
            }
            proof {
                let cur = e[i as int].0@ + "="@ + e[i as int].1@;
                if !later {
                    assert(last_setting(e, i as int));
                    assert(out.deep_view() == before.push(cur));
                }
                assert forall|line: Seq<char>| #![trigger out.deep_view().contains(line)]
                    out.deep_view().contains(line) <==> exists|m: int|
                        0 <= m < i + 1 && last_setting(e, m) && line == (#[trigger] e[m]).0@
                            + "="@ + e[m].1@ by {
                    if !later {
                        if out.deep_view().contains(line) && line != cur {
                            let q = choose|q: int| 0 <= q < out.deep_view().len() && out.deep_view()[q] == line;
                            assert(before[q] == line);
                            assert(before.contains(line));
                        }
                        if before.contains(line) {
                            let q = choose|q: int| 0 <= q < before.len() && before[q] == line;
                            assert(out.deep_view()[q] == line);
                        }
                        if line == cur {
                            assert(out.deep_view()[before.len() as int] == line);
                        }
                    } else {
                        if exists|m: int| 0 <= m < i + 1 && last_setting(e, m) && line == (#[trigger] e[m]).0@ + "="@ + e[m].1@ {
                            let m = choose|m: int| 0 <= m < i + 1 && last_setting(e, m) && line == (#[trigger] e[m]).0@ + "="@ + e[m].1@;
                            if m == i {
                                let t = choose|t: int| i < t < e.len() && (#[trigger] e[t]).0@ == e[i as int].0@;
                                assert(e[t].0@ != e[m].0@);
                            }
                        }
                    }
                }
            }
            i = i + 1;
        }
        proof {
            assert forall|line: Seq<char>| #![trigger out.deep_view().contains(line)]
                out.deep_view().contains(line) <==> exists|k: Seq<char>|
                    self@.contains_key(k) && line == k + "="@ + #[trigger] self@[k] by {
                if out.deep_view().contains(line) {
                    let m = choose|m: int| 0 <= m < e.len() && last_setting(e, m) && line == (#[trigger] e[m]).0@ + "="@ + e[m].1@;
                    lemma_entries_map(e, e[m].0@);
                    assert(self@.contains_key(e[m].0@) && line == e[m].0@ + "="@ + self@[e[m].0@]);
                }
                if exists|k: Seq<char>| self@.contains_key(k) && line == k + "="@ + #[trigger] self@[k] {
                    let k = choose|k: Seq<char>| self@.contains_key(k) && line == k + "="@ + #[trigger] self@[k];
                    lemma_entries_map(e, k);
                    let m = choose|m: int| last_setting(e, m) && e[m].0@ == k;
                    assert(line == e[m].0@ + "="@ + e[m].1@);
                }
            }
        }
        out
    }

    /// A copy with the same variables.
    pub fn copy(&self) -> (r: EnvVars)
        ensures
            r@ == self@,
    {
        let ghost e = self.entries@;
        let mut entries: Vec<(String, String)> = Vec::new();
        let mut i: usize = 0;
        proof {
            assert(e.take(0) =~= Seq::<(String, String)>::empty());
            assert(entries_map(entries@) =~= entries_map(e.take(0)));
        }
        while i < self.entries.len()
            invariant
                i <= e.len(),
                e == self.entries@,
                entries_map(entries@) == entries_map(e.take(i as int)),
            decreases self.entries.len() - i,
        {
            let ghost before = entries@;
            entries.push((self.entries[i].0.dup(), self.entries[i].1.dup()));
            proof {
                assert(entries@.drop_last() =~= before);
                assert(e.take(i + 1).drop_last() =~= e.take(i as int));
            }
            i = i + 1;
        }
        proof {
            assert(e.take(e.len() as int) =~= e);
        }
        EnvVars { entries }
    }
}

/// The map that setting each variable of a list in turn builds on `base`.
pub open spec fn with_vars(base: Map<Seq<char>, Seq<char>>, vars: Seq<KeyValueModel>) -> Map<
    Seq<char>,
    Seq<char>,
>
    decreases vars.len(),
{
    if vars.len() == 0 {
        base
    } else {
        with_vars(base, vars.drop_last()).insert(vars.last().key, vars.last().value)
    }
}

fn insert_all(env: &mut EnvVars, vars: &Vec<EnvVar>)
    ensures
        final(env)@ == with_vars(old(env)@, vars.deep_view()),
{
    let ghost base = env@;
    let ghost vs = vars.deep_view();
    let mut i: usize = 0;
    proof {
        assert(vs.take(0) =~= Seq::<KeyValueModel>::empty());
    }
    while i < vars.len()
        invariant
            i <= vars@.len(),
            vs == vars.deep_view(),
            env@ == with_vars(base, vs.take(i as int)),
        decreases vars.len() - i,
    {
        proof {
            assert(vs.take(i + 1).drop_last() =~= vs.take(i as int));
        }
        env.insert(vars[i].key.dup(), vars[i].value.dup());
        i = i + 1;
    }
    proof {
        assert(vs.take(vs.len() as int) =~= vs);
    }
}

/// The variables every container of an app inherits: the app's own.
pub fn shared_env_vars(app: &Project) -> (r: EnvVars)
    ensures
        r@ == with_vars(Map::empty(), app.env_vars.deep_view()),
{
    let mut env = EnvVars::new();
    insert_all(&mut env, &app.env_vars);
    env
}

/// The variables of one replica of a service: the shared ones, then
/// SERVICE_NAME, REPLICA_INDEX and (for a service with a port) PORT, then
/// the service's own.
pub open spec fn replica_env(
    shared: Map<Seq<char>, Seq<char>>,
    service: crate::models::ServiceModel,
    replica_index: u32,
) -> Map<Seq<char>, Seq<char>> {
    let base = shared.insert("SERVICE_NAME"@, service.name).insert(
        "REPLICA_INDEX"@,
        dec(replica_index as nat),
    );
    let base = if service.port > 0 {
        base.insert("PORT"@, dec(service.port as nat))
    } else {
        base
    };
    with_vars(base, service.env_vars)
}

/// Builds the variables of one replica of a service.
pub fn replica_env_vars(shared: &EnvVars, service: &ContainerService, replica_index: u32) -> (r:
    EnvVars)
    ensures
        r@ == replica_env(shared@, service.deep_view(), replica_index),
{
    let mut env = shared.copy();
    env.insert(owned("SERVICE_NAME"), service.name.dup());
    env.insert(owned("REPLICA_INDEX"), dec_string(replica_index as u64));
    if service.port > 0 {
        env.insert(owned("PORT"), dec_string(service.port as u64));
    }
    insert_all(&mut env, &service.env_vars);
    env
}

/// The variables of a cron job run: the shared ones, then SERVICE_NAME and
/// CRON_SCHEDULE (empty when unset), then the service's own.
pub open spec fn cron_env(shared: Map<Seq<char>, Seq<char>>, service: crate::models::ServiceModel) -> Map<
    Seq<char>,
    Seq<char>,
> {
    let base = shared.insert("SERVICE_NAME"@, service.name).insert(
        "CRON_SCHEDULE"@,
        match service.schedule {
            Some(s) => s,
            None => Seq::empty(),
        },
    );
    with_vars(base, service.env_vars)
}

/// Builds the variables of a cron job run.
pub fn cron_env_vars(shared: &EnvVars, service: &ContainerService) -> (r: EnvVars)
    ensures
        r@ == cron_env(shared@, service.deep_view()),
{
    let mut env = shared.copy();
    env.insert(owned("SERVICE_NAME"), service.name.dup());
    let schedule = match &service.schedule {
        Some(s) => s.dup(),
        None => String::new(),
    };
    env.insert(owned("CRON_SCHEDULE"), schedule);
    insert_all(&mut env, &service.env_vars);
    env
}

} // verus!

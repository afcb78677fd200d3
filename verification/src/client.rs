//! Configuration of the command-line api client: named server instances.
use vstd::prelude::*;

use crate::dup::{Dup};
use crate::text::{concat3, is_blank, join_path, owned, path_join, str_eq, trim};

verus! {

/// Why a client configuration request failed.
#[derive(Debug, Clone, PartialEq, Eq)]
pub enum ClientConfigError {
    /// `$HOME` is not set, so the settings directory is unknown.
    HomeNotSet,
    /// No instance of that name is configured.
    InstanceNotConfigured(String),
}

/// The text that reports a client configuration error.
pub open spec fn client_config_error_text(e: ClientConfigError) -> Seq<char> {
    match e {
        ClientConfigError::HomeNotSet => "$HOME is not set"@,
        ClientConfigError::InstanceNotConfigured(name) => "instance '"@ + name@
            + "' is not configured"@,
    }
}

impl ClientConfigError {
    /// The error as a sentence for the user.
    pub fn message(&self) -> (r: String)
        ensures
            r@ == client_config_error_text(*self),
    {
        match self {
            ClientConfigError::HomeNotSet => owned("$HOME is not set"),
            ClientConfigError::InstanceNotConfigured(name) => concat3(
                "instance '",
                name.as_str(),
                "' is not configured",
            ),
        }
    }
}

/// Connection settings of one server instance.
#[derive(Debug, Clone, PartialEq, Eq)]
pub struct ClientInstanceConfig {
    pub instance_id: String,
    pub url: String,
    pub token: Option<String>,
    pub api_key: Option<String>,
    pub timeout_secs: u64,
    pub tls_verify: bool,
}

pub struct InstanceModel {
    pub instance_id: Seq<char>,
    pub url: Seq<char>,
    pub token: Option<Seq<char>>,
    pub api_key: Option<Seq<char>>,
    pub timeout_secs: u64,
    pub tls_verify: bool,
}

impl DeepView for ClientInstanceConfig {
    type V = InstanceModel;

    open spec fn deep_view(&self) -> InstanceModel {
        InstanceModel {
            instance_id: self.instance_id@,
            url: self.url@,
            token: self.token.deep_view(),
            api_key: self.api_key.deep_view(),
            timeout_secs: self.timeout_secs,
            tls_verify: self.tls_verify,
        }
    }
}

impl Dup for ClientInstanceConfig {
    fn dup(&self) -> (r: Self) {
        ClientInstanceConfig {
            instance_id: self.instance_id.dup(),
            url: self.url.dup(),
            token: self.token.dup(),
            api_key: self.api_key.dup(),
            timeout_secs: self.timeout_secs,
            tls_verify: self.tls_verify,
        }
    }
}

/// The settings of a newly added instance.
pub open spec fn default_instance_model() -> InstanceModel {
    InstanceModel {
        instance_id: "local"@,
        url: "http://127.0.0.1:2077"@,
        token: None,
        api_key: None,
        timeout_secs: 180,
        tls_verify: true,
    }
}

/// Default identifier of an instance.
pub fn default_instance_id() -> (r: String)
    ensures
        r@ == "local"@,
{
    owned("local")
}

/// Default api URL of an instance.
pub fn default_instance_url() -> (r: String)
    ensures
        r@ == "http://127.0.0.1:2077"@,
{
    owned("http://127.0.0.1:2077")
}

/// Default request timeout, in seconds.
pub fn default_timeout_secs() -> (r: u64)
    ensures
        r == 180,
{
    180
}

/// Whether TLS certificates are verified by default.
pub fn default_tls_verify() -> (r: bool)
    ensures
        r,
{
    true
}

/// Name of the instance selected by default.
pub fn default_active_instance() -> (r: String)
    ensures
        r@ == "default"@,
{
    owned("default")
}

impl Default for ClientInstanceConfig {
    fn default() -> (r: Self)
        ensures
            r.deep_view() == default_instance_model(),
    {
        ClientInstanceConfig {
            instance_id: default_instance_id(),
            url: default_instance_url(),
            token: None,
            api_key: None,
            timeout_secs: default_timeout_secs(),
            tls_verify: default_tls_verify(),
        }
    }
}

/// The instances configured by default: one named "default".
pub fn default_instances() -> (r: Vec<(String, ClientInstanceConfig)>)
    ensures
        r@.len() == 1,
        r@[0].0@ == "default"@,
        r@[0].1.deep_view() == default_instance_model(),
{
    let mut v: Vec<(String, ClientInstanceConfig)> = Vec::new();
    v.push((owned("default"), ClientInstanceConfig::default()));
    v
}

/// The configured instances by name: no two share a name.
#[derive(Debug, PartialEq, Eq)]
pub struct InstanceTable {
    names: Vec<String>,
    configs: Vec<ClientInstanceConfig>,
}

impl View for InstanceTable {
    type V = Seq<(String, ClientInstanceConfig)>;

    closed spec fn view(&self) -> Seq<(String, ClientInstanceConfig)> {
        Seq::new(self.names@.len(), |k: int| (self.names@[k], self.configs@[k]))
    }
}

impl InstanceTable {
    #[verifier::type_invariant]
    closed spec fn names_unique(self) -> bool {
        &&& self.names@.len() == self.configs@.len()
        &&& forall|a: int, b: int|
            0 <= a < b < self.names@.len() ==> self.names@[a]@ != self.names@[b]@
    }

    /// The table of these entries, in their order; `None` when two of them
    /// share a name.
    pub fn from_entries(entries: Vec<(String, ClientInstanceConfig)>) -> (r: Option<InstanceTable>)
        ensures
            r is Some <==> names_distinct(entries@),
            r matches Some(t) ==> t@ == entries@,
    {
        let ghost all = entries@;
        let mut rest = entries;
        let mut names: Vec<String> = Vec::new();
        let mut configs: Vec<ClientInstanceConfig> = Vec::new();
        let ghost mut k: int = 0;
        while rest.len() > 0
            invariant
                all == entries@,
                0 <= k <= all.len(),
                rest@ == all.skip(k),
                names@.len() == k,
                configs@.len() == k,
                forall|m: int| 0 <= m < k ==> names@[m] == all[m].0 && configs@[m] == all[m].1,
                forall|a: int, b: int| 0 <= a < b < k ==> all[a].0@ != all[b].0@,
            decreases rest.len(),
        {
            let ghost rv = rest@;
            let (n, c) = rest.remove(0);
            proof {
                assert(rv[0] == all[k]);
                assert(rest@ =~= all.skip(k + 1));
            }
            let mut m: usize = 0;
            while m < names.len()
                invariant
                    all == entries@,
                    m <= names@.len(),
                    names@.len() == k,
                    0 <= k < all.len(),
                    n == all[k].0,
                    forall|x: int| 0 <= x < k ==> names@[x] == all[x].0,
                    forall|x: int| 0 <= x < m ==> all[x].0@ != all[k].0@,
                decreases names.len() - m,
            {
                if str_eq(names[m].as_str(), n.as_str()) {
                    proof {
                        assert(names@[m as int] == all[m as int].0);
                        assert(!names_distinct(all)) by {
                            assert(all[m as int].0@ == all[k].0@);
                        }
                    }
                    return None;
                }
                m = m + 1;
            }
            names.push(n);
            configs.push(c);
            proof {
                k = k + 1;
            }
        }
        proof {
            assert(all.skip(k).len() == 0);
            assert(k == all.len());
        }
        let t = InstanceTable { names, configs };
        proof {
            assert(t@ =~= all);
        }
        Some(t)
    }

    /// The entries, in order, taken out of the table.
    pub fn into_entries(self) -> (r: Vec<(String, ClientInstanceConfig)>)
        ensures
            r@ == self@,
            names_distinct(r@),
    {
        proof {
            use_type_invariant(&self);
        }
        let ghost view = self@;
        let InstanceTable { names, configs } = self;
        let mut names = names;
        let mut configs = configs;
        let mut out: Vec<(String, ClientInstanceConfig)> = Vec::new();
        let ghost mut k: int = 0;
        while names.len() > 0
            invariant
                0 <= k <= view.len(),
                names@.len() == configs@.len(),
                names@.len() == view.len() - k,
                forall|m: int| 0 <= m < names@.len() ==> names@[m] == view[k + m].0 && configs@[m]
                    == view[k + m].1,
                out@ == view.take(k),
            decreases names.len(),
        {
            let ghost nv = names@;
            let ghost cv = configs@;
            let n = names.remove(0);
            let c = configs.remove(0);
            proof {
                assert(nv[0] == view[k].0 && cv[0] == view[k].1);
                assert forall|m: int| 0 <= m < names@.len() implies names@[m] == view[k + 1 + m].0
                    && configs@[m] == view[k + 1 + m].1 by {
                    assert(names@[m] == nv[m + 1]);
                    assert(configs@[m] == cv[m + 1]);
                }
            }
            out.push((n, c));
            proof {
                assert(out@ =~= view.take(k + 1));
                k = k + 1;
            }
        }
        proof {
            assert(view.take(k) =~= view);
        }
        out
    }

    /// The number of instances.
    pub fn len(&self) -> (r: usize)
        ensures
            r == self@.len(),
    {
        self.names.len()
    }

    /// No two instances share a name.
    pub fn distinct(&self) -> (r: bool)
        ensures
            r,
            names_distinct(self@),
    {
        proof {
            use_type_invariant(self);
        }
        true
    }

    fn find(&self, name: &str) -> (r: Option<usize>)
        ensures
            match r {
                Some(i) => i < self@.len() && position(self@, name@) == Some(i as int),
                None => position(self@, name@) is None,
            },
    {
        let mut i: usize = 0;
        while i < self.names.len()
            invariant
                i <= self@.len(),
                self@.len() == self.names@.len(),
                forall|j: int| 0 <= j < i ==> self@[j].0@ != name@,
            decreases self.names.len() - i,
        {
            if str_eq(self.names[i].as_str(), name) {
                proof {
                    assert(self@[i as int].0 == self.names@[i as int]);
                    let k = choose|k: int|
                        0 <= k < self@.len() && self@[k].0@ == name@ && forall|j: int|
                            0 <= j < k ==> self@[j].0@ != name@;
                    assert(k == i as int);
                }
                return Some(i);
            }
            proof {
                assert(self@[i as int].0 == self.names@[i as int]);
            }
            i = i + 1;
        }
        None
    }

    fn get(&self, i: usize) -> (r: &ClientInstanceConfig)
        requires
            i < self@.len(),
        ensures
            *r == self@[i as int].1,
    {
        proof {
            use_type_invariant(self);
        }
        &self.configs[i]
    }

    fn get_mut(&mut self, i: usize) -> (r: &mut ClientInstanceConfig)
        requires
            i < old(self)@.len(),
        ensures
            *r == old(self)@[i as int].1,
            final(self)@ == old(self)@.update(i as int, (old(self)@[i as int].0, *final(r))),
            names_distinct(final(self)@),
    {
        proof {
            use_type_invariant(&*self);
        }
        &mut self.configs[i]
    }

    fn push_new(&mut self, name: &str) -> (r: &mut ClientInstanceConfig)
        requires
            position(old(self)@, name@) is None,
        ensures
            r.deep_view() == default_instance_model(),
            final(self)@.len() == old(self)@.len() + 1,
            final(self)@.drop_last() == old(self)@,
            final(self)@.last().0@ == name@,
            final(self)@.last().1 == *final(r),
            names_distinct(final(self)@),
    {
        proof {
            use_type_invariant(&*self);
            assert forall|a: int| 0 <= a < self.names@.len() implies self.names@[a]@ != name@ by {
                assert(self@[a].0 == self.names@[a]);
            }
        }
        let mut t = InstanceTable { names: Vec::new(), configs: Vec::new() };
        std::mem::swap(&mut t, self);
        proof {
            use_type_invariant(&t);
        }
        let ghost before = t@;
        let InstanceTable { names, configs } = t;
        let mut names = names;
        let mut configs = configs;
        names.push(owned(name));
        configs.push(ClientInstanceConfig::default());
        *self = InstanceTable { names, configs };
        proof {
            assert(self@.drop_last() =~= before);
        }
        let n = self.configs.len();
        &mut self.configs[n - 1]
    }
}

impl Clone for InstanceTable {
    fn clone(&self) -> (r: Self)
        ensures
            r@.len() == self@.len(),
            forall|i: int| 0 <= i < self@.len() ==> (#[trigger] r@[i]).0@ == self@[i].0@
                && r@[i].1.deep_view() == self@[i].1.deep_view(),
    {
        proof {
            use_type_invariant(self);
        }
        let names = self.names.dup();
        let configs = self.configs.dup();
        proof {
            assert(names.deep_view().len() == names@.len());
            assert(self.names.deep_view().len() == self.names@.len());
            assert(configs.deep_view().len() == configs@.len());
            assert(self.configs.deep_view().len() == self.configs@.len());
            assert forall|i: int| 0 <= i < names@.len() implies names@[i]@ == self.names@[i]@ by {
                assert(names.deep_view()[i] == names@[i].deep_view());
                assert(self.names.deep_view()[i] == self.names@[i].deep_view());
            }
            assert forall|i: int| 0 <= i < configs@.len() implies configs@[i].deep_view()
                == self.configs@[i].deep_view() by {
                assert(configs.deep_view()[i] == configs@[i].deep_view());
                assert(self.configs.deep_view()[i] == self.configs@[i].deep_view());
            }
        }
        InstanceTable { names, configs }
    }
}

/// Changing the settings of one instance keeps the names distinct.
proof fn lemma_rename_free_update(s: Seq<(String, ClientInstanceConfig)>, i: int)
    requires
        names_distinct(s),
        0 <= i < s.len(),
    ensures
        forall|c: ClientInstanceConfig| #[trigger] names_distinct(s.update(i, (s[i].0, c))),
{
    assert forall|c: ClientInstanceConfig| #[trigger] names_distinct(s.update(i, (s[i].0, c))) by {
        let t = s.update(i, (s[i].0, c));
        assert forall|a: int, b: int| 0 <= a < b < t.len() implies t[a].0@ != t[b].0@ by {
            assert(t[a].0 == s[a].0 && t[b].0 == s[b].0);
        }
    }
}

/// The api client configuration: the selected instance and the instances
/// by name.
#[derive(Debug, Clone, PartialEq, Eq)]
pub struct ClientConfig {
    pub active_instance: String,
    pub instances: InstanceTable,
}

/// Position of the first instance named `name`.
pub open spec fn position(entries: Seq<(String, ClientInstanceConfig)>, name: Seq<char>) -> Option<
    int,
> {
    if exists|i: int| 0 <= i < entries.len() && entries[i].0@ == name {
        Some(
            choose|i: int|
                0 <= i < entries.len() && entries[i].0@ == name && forall|j: int|
                    0 <= j < i ==> entries[j].0@ != name,
        )
    } else {
        None
    }
}

/// No two instances share a name.
pub open spec fn names_distinct(entries: Seq<(String, ClientInstanceConfig)>) -> bool {
    forall|i: int, j: int| 0 <= i < j < entries.len() ==> entries[i].0@ != entries[j].0@
}

/// A secret as shown in masked output: "<redacted>" when set and
/// non-blank, else absent.
pub open spec fn masked_secret(v: Option<Seq<char>>) -> Option<Seq<char>> {
    match v {
        Some(s) => if trim(s).len() > 0 {
            Some("<redacted>"@)
        } else {
            None
        },
        None => None,
    }
}

/// Masks a secret for display.
pub fn mask_secret(value: &Option<String>) -> (r: Option<String>)
    ensures
        r.deep_view() == masked_secret(value.deep_view()),
{
    match value {
        Some(v) => {
            if is_blank(v.as_str()) {
                None
            } else {
                Some(owned("<redacted>"))
            }
        },
        None => None,
    }
}

/// The path of the client configuration file under a home directory.
pub open spec fn config_path_in(home: Seq<char>) -> Seq<char> {
    path_join(path_join(home, ".containr"@), "config.toml"@)
}

impl Default for ClientConfig {
    fn default() -> (r: Self)
        ensures
            r.active_instance@ == "default"@,
            r.instances@.len() == 1,
            r.instances@[0].0@ == "default"@,
            r.instances@[0].1.deep_view() == default_instance_model(),
    {
        ClientConfig::default_config()
    }
}

impl ClientConfig {
    /// The configuration in effect at `path`: the one stored there when the
    /// file exists (`stored`), else the default one, which must then be
    /// saved there (the returned flag).
    pub fn load_or_create(path: &str, stored: Option<ClientConfig>) -> (r: (ClientConfig, String, bool))
        ensures
            r.1@ == path@,
            match stored {
                Some(c) => r.0 == c && !r.2,
                None => r.0.active_instance@ == "default"@ && r.0.instances@.len() == 1
                    && r.0.instances@[0].0@ == "default"@ && r.0.instances@[0].1.deep_view()
                    == default_instance_model() && r.2,
            },
    {
        match stored {
            Some(c) => (c, owned(path), false),
            None => (ClientConfig::default_config(), owned(path), true),
        }
    }

    /// The default configuration: the "default" instance, selected.
    pub fn default_config() -> (r: ClientConfig)
        ensures
            r.active_instance@ == "default"@,
            r.instances@.len() == 1,
            r.instances@[0].0@ == "default"@,
            r.instances@[0].1.deep_view() == default_instance_model(),
    {
        let mut names: Vec<String> = Vec::new();
        names.push(owned("default"));
        let mut configs: Vec<ClientInstanceConfig> = Vec::new();
        configs.push(ClientInstanceConfig::default());
        let r = ClientConfig {
            active_instance: default_active_instance(),
            instances: InstanceTable { names, configs },
        };
        proof {
            assert(r.instances@.len() == 1);
            assert(r.instances@[0].0 == names@[0]);
        }
        r
    }

    /// The settings directory under the home directory, when `$HOME` is set.
    pub fn settings_dir(home: Option<&str>) -> (r: Result<String, ClientConfigError>)
        ensures
            match home {
                Some(h) => r matches Ok(p) && p@ == path_join(h@, ".containr"@),
                None => r == Err::<String, ClientConfigError>(ClientConfigError::HomeNotSet),
            },
    {
        match home {
            Some(h) => Ok(join_path(h, ".containr")),
            None => Err(ClientConfigError::HomeNotSet),
        }
    }

    /// The default path of the configuration file: "config.toml" in the
    /// settings directory.
    pub fn default_path(home: Option<&str>) -> (r: Result<String, ClientConfigError>)
        ensures
            match home {
                Some(h) => r matches Ok(p) && p@ == config_path_in(h@),
                None => r == Err::<String, ClientConfigError>(ClientConfigError::HomeNotSet),
            },
    {
        let dir = Self::settings_dir(home)?;
        Ok(join_path(dir.as_str(), "config.toml"))
    }

    /// The configuration file to use: the given path, else the default path.
    pub fn resolve_path(path: Option<&str>, home: Option<&str>) -> (r: Result<String, ClientConfigError>)
        ensures
            match path {
                Some(p) => r matches Ok(q) && q@ == p@,
                None => match home {
                    Some(h) => r matches Ok(q) && q@ == config_path_in(h@),
                    None => r == Err::<String, ClientConfigError>(ClientConfigError::HomeNotSet),
                },
            },
    {
        match path {
            Some(p) => Ok(owned(p)),
            None => Self::default_path(home),
        }
    }

    /// The settings of the instance named `name`.
    pub fn instance(&self, name: &str) -> (r: Result<&ClientInstanceConfig, ClientConfigError>)
        ensures
            match position(self.instances@, name@) {
                Some(i) => r matches Ok(c) && *c == self.instances@[i].1,
                None => r matches Err(e) && e matches ClientConfigError::InstanceNotConfigured(
                    n,
                ) && n@ == name@,
            },
    {
        match self.instances.find(name) {
            Some(i) => Ok(self.instances.get(i)),
            None => Err(ClientConfigError::InstanceNotConfigured(owned(name))),
        }
    }

    /// The settings of the selected instance.
    pub fn active_instance(&self) -> (r: Result<&ClientInstanceConfig, ClientConfigError>)
        ensures
            match position(self.instances@, self.active_instance@) {
                Some(i) => r matches Ok(c) && *c == self.instances@[i].1,
                None => r matches Err(e) && e matches ClientConfigError::InstanceNotConfigured(
                    n,
                ) && n@ == self.active_instance@,
            },
    {
        self.instance(self.active_instance.as_str())
    }

    /// Mutable access to the settings of the instance named `name`.
    pub fn instance_mut(&mut self, name: &str) -> (r: Result<
        &mut ClientInstanceConfig,
        ClientConfigError,
    >)
        ensures
            match position(old(self).instances@, name@) {
                Some(i) => r matches Ok(c) && *c == old(self).instances@[i].1
                    && final(self).active_instance == old(self).active_instance
                    && final(self).instances@ == old(self).instances@.update(
                    i,
                    (old(self).instances@[i].0, *final(c)),
                ),
                None => r matches Err(e) && e matches ClientConfigError::InstanceNotConfigured(
                    n,
                ) && n@ == name@ && *final(self) == *old(self),
            },
    {
        match self.instances.find(name) {
            Some(i) => Ok(self.instances.get_mut(i)),
            None => Err(ClientConfigError::InstanceNotConfigured(owned(name))),
        }
    }

    /// Mutable access to the settings of the selected instance.
    pub fn active_instance_mut(&mut self) -> (r: Result<
        &mut ClientInstanceConfig,
        ClientConfigError,
    >)
        ensures
            match position(old(self).instances@, old(self).active_instance@) {
                Some(i) => r matches Ok(c) && *c == old(self).instances@[i].1
                    && final(self).active_instance == old(self).active_instance
                    && final(self).instances@ == old(self).instances@.update(
                    i,
                    (old(self).instances@[i].0, *final(c)),
                ),
                None => r matches Err(e) && e matches ClientConfigError::InstanceNotConfigured(
                    n,
                ) && n@ == old(self).active_instance@ && *final(self) == *old(self),
            },
    {
        let active = self.active_instance.dup();
        self.instance_mut(active.as_str())
    }

    /// Mutable access to the instance named `name`, added with default
    /// settings when missing.
    pub fn ensure_instance(&mut self, name: &str) -> (r: &mut ClientInstanceConfig)
        ensures
            final(self).active_instance == old(self).active_instance,
            match position(old(self).instances@, name@) {
                Some(i) => *r == old(self).instances@[i].1 && final(self).instances@
                    == old(self).instances@.update(i, (old(self).instances@[i].0, *final(r))),
                None => r.deep_view() == default_instance_model() && final(self).instances@.len()
                    == old(self).instances@.len() + 1 && final(self).instances@.drop_last()
                    == old(self).instances@ && final(self).instances@.last().0@ == name@
                    && final(self).instances@.last().1 == *final(r),
            },
            names_distinct(final(self).instances@),
    {
        match self.instances.find(name) {
            Some(i) => self.instances.get_mut(i),
            None => {
                self.instances.push_new(name)
            },
        }
    }

    /// A copy with every token and api key replaced by "<redacted>" (or
    /// dropped when blank).
    pub fn masked(&self) -> (r: ClientConfig)
        ensures
            r.active_instance@ == self.active_instance@,
            r.instances@.len() == self.instances@.len(),
            forall|i: int|
                0 <= i < self.instances@.len() ==> {
                    &&& (#[trigger] r.instances@[i]).0@ == self.instances@[i].0@
                    &&& r.instances@[i].1.instance_id@ == self.instances@[i].1.instance_id@
                    &&& r.instances@[i].1.url@ == self.instances@[i].1.url@
                    &&& r.instances@[i].1.token.deep_view() == masked_secret(
                        self.instances@[i].1.token.deep_view(),
                    )
                    &&& r.instances@[i].1.api_key.deep_view() == masked_secret(
                        self.instances@[i].1.api_key.deep_view(),
                    )
                    &&& r.instances@[i].1.timeout_secs == self.instances@[i].1.timeout_secs
                    &&& r.instances@[i].1.tls_verify == self.instances@[i].1.tls_verify
                },
    {
        proof {
            use_type_invariant(&self.instances);
        }
        let names = &self.instances.names;
        let configs = &self.instances.configs;
        let mut out_names: Vec<String> = Vec::new();
        let mut out: Vec<ClientInstanceConfig> = Vec::new();
        let mut i: usize = 0;
        while i < names.len()
            invariant
                i <= names@.len(),
                names@.len() == configs@.len(),
                names@ == self.instances.names@,
                configs@ == self.instances.configs@,
                out@.len() == i,
                out_names@.len() == i,
                forall|k: int|
                    #![trigger out_names@[k]]
                    #![trigger out@[k]]
                    0 <= k < i ==> {
                        &&& out_names@[k]@ == names@[k]@
                        &&& out@[k].instance_id@ == configs@[k].instance_id@
                        &&& out@[k].url@ == configs@[k].url@
                        &&& out@[k].token.deep_view() == masked_secret(
                            configs@[k].token.deep_view(),
                        )
                        &&& out@[k].api_key.deep_view() == masked_secret(
                            configs@[k].api_key.deep_view(),
                        )
                        &&& out@[k].timeout_secs == configs@[k].timeout_secs
                        &&& out@[k].tls_verify == configs@[k].tls_verify
                    },
            decreases names.len() - i,
        {
            let inst = &configs[i];
            let masked = ClientInstanceConfig {
                instance_id: inst.instance_id.dup(),
                url: inst.url.dup(),
                token: mask_secret(&inst.token),
                api_key: mask_secret(&inst.api_key),
                timeout_secs: inst.timeout_secs,
                tls_verify: inst.tls_verify,
            };
            out_names.push(names[i].dup());
            out.push(masked);
            i = i + 1;
        }
        let r = ClientConfig {
            active_instance: self.active_instance.dup(),
            instances: InstanceTable { names: out_names, configs: out },
        };
        proof {
            assert forall|k: int| 0 <= k < self.instances@.len() implies (#[trigger] r.instances@[k]).0@
                == self.instances@[k].0@ by {
                assert(out_names@[k]@ == names@[k]@);
            }
        }
        r
    }
}

/// The instance a command addresses: the selected one given on the command
/// line, else the configured active one.
pub fn resolve_instance_name(config: &ClientConfig, selected_instance: Option<&str>) -> (r: String)
    ensures
        r@ == (match selected_instance {
            Some(s) => s@,
            None => config.active_instance@,
        }),
{
    match selected_instance {
        Some(instance) => owned(instance),
        None => config.active_instance.dup(),
    }
}

/// Mutable access to the instance a command addresses.
pub fn resolve_instance_mut<'a>(config: &'a mut ClientConfig, selected_instance: Option<&str>) -> (r:
    Result<&'a mut ClientInstanceConfig, ClientConfigError>)
    ensures
        match position(
            old(config).instances@,
            match selected_instance {
                Some(s) => s@,
                None => old(config).active_instance@,
            },
        ) {
            Some(i) => r matches Ok(c) && *c == old(config).instances@[i].1
                && final(config).instances@ == old(config).instances@.update(
                i,
                (old(config).instances@[i].0, *final(c)),
            ),
            None => r is Err,
        },
{
    let name = resolve_instance_name(config, selected_instance);
    config.instance_mut(name.as_str())
}


/// Masked output never shows a secret: a masked value is absent or
/// "<redacted>", and masking it again changes nothing.
pub proof fn lemma_mask_hides_secrets(v: Option<Seq<char>>)
    ensures
        masked_secret(v) is None || masked_secret(v) == Some("<redacted>"@),
        masked_secret(masked_secret(v)) == masked_secret(v),
{
    reveal_strlit("<redacted>");
    let r = "<redacted>"@;
    assert(r[0] == '<');
    assert(r.last() == '>');
    crate::text::lemma_trim_keeps_last(r);
}

} // verus!

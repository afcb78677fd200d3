//! The command-line client's requests: resource paths, the project source
//! it submits, and where and how it sends requests.
use vstd::prelude::*;

use crate::client::ClientInstanceConfig;
use crate::dup::Dup;
use crate::text::{
    concat2, concat3, is_blank, owned, starts_with, trim, trim_end_char, trim_end_char_owned,
    trim_owned,
};

verus! {

/// `base_path?group_id=<group>` when a group is given, else `base_path`.
pub fn grouped_resource_path(base_path: &str, group_id: Option<&str>) -> (r: String)
    ensures
        r@ == match group_id {
            Some(g) => base_path@ + "?group_id="@ + g@,
            None => base_path@,
        },
{
    match group_id {
        Some(g) => concat3(base_path, "?group_id=", g),
        None => owned(base_path),
    }
}

/// `base_path/id`.
pub fn resource_item_path(base_path: &str, id: &str) -> (r: String)
    ensures
        r@ == base_path@ + "/"@ + id@,
{
    concat3(base_path, "/", id)
}

/// `base_path/id/action`.
pub fn resource_action_path(base_path: &str, id: &str, action: &str) -> (r: String)
    ensures
        r@ == base_path@ + "/"@ + id@ + "/"@ + action@,
{
    let mut r = concat3(base_path, "/", id);
    r.append("/");
    r.append(action);
    r
}

/// Each action behind a '/'.
pub open spec fn action_suffix(actions: Seq<Seq<char>>) -> Seq<char>
    decreases actions.len(),
{
    if actions.len() == 0 {
        Seq::empty()
    } else {
        action_suffix(actions.drop_last()) + "/"@ + actions.last()
    }
}

/// `base_path/id/action1/action2/...`.
pub fn resource_nested_action_path(base_path: &str, id: &str, actions: &[&str]) -> (r: String)
    ensures
        r@ == base_path@ + "/"@ + id@ + action_suffix(actions@.map_values(|a: &str| a@)),
{
    let ghost acts = actions@.map_values(|a: &str| a@);
    let mut path = resource_item_path(base_path, id);
    let ghost head = path@;
    let mut i: usize = 0;
    proof {
        assert(acts.take(0) =~= Seq::<Seq<char>>::empty());
        assert(head + action_suffix(acts.take(0)) =~= head);
    }
    while i < actions.len()
        invariant
            i <= actions@.len(),
            acts == actions@.map_values(|a: &str| a@),
            path@ == head + action_suffix(acts.take(i as int)),
        decreases actions.len() - i,
    {
        proof {
            assert(acts.take(i + 1).drop_last() =~= acts.take(i as int));
        }
        path.append("/");
        path.append(actions[i]);
        proof {
            assert(path@ =~= head + action_suffix(acts.take(i + 1)));
        }
        i = i + 1;
    }
    proof {
        assert(acts.take(acts.len() as int) =~= acts);
    }
    path
}

/// The repository a project spec deploys from: its source URL, else its
/// GitHub URL, else nothing, trimmed.
pub fn resolve_project_source_url(source_url: Option<&str>, github_url: Option<&str>) -> (r: String)
    ensures
        r@ == trim(
            match source_url {
                Some(s) => s@,
                None => match github_url {
                    Some(g) => g@,
                    None => Seq::empty(),
                },
            },
        ),
{
    match source_url {
        Some(s) => trim_owned(s),
        None => match github_url {
            Some(g) => trim_owned(g),
            None => {
                proof {
                    reveal_strlit("");
                    assert(""@ =~= Seq::<char>::empty());
                }
                trim_owned("")
            },
        },
    }
}

/// A secret that counts as set: present and not blank.
pub open spec fn present_secret(v: Option<Seq<char>>) -> Option<Seq<char>> {
    match v {
        Some(s) => if trim(s).len() > 0 {
            Some(s)
        } else {
            None
        },
        None => None,
    }
}

/// Where and with which credential the client talks to an instance.
pub struct ApiTarget {
    /// The instance's URL without trailing '/'.
    pub base_url: String,
    /// The api key when set, else the token when set.
    pub auth_token: Option<String>,
}

/// The credential sent to an instance: its api key when set, else its
/// token when set.
pub open spec fn auth_token_of(instance: crate::client::InstanceModel) -> Option<Seq<char>> {
    match present_secret(instance.api_key) {
        Some(k) => Some(k),
        None => present_secret(instance.token),
    }
}

fn present(v: &Option<String>) -> (r: Option<String>)
    ensures
        r.deep_view() == present_secret(v.deep_view()),
{
    match v {
        Some(s) => if is_blank(s.as_str()) {
            None
        } else {
            Some(s.dup())
        },
        None => None,
    }
}

impl ApiTarget {
    /// The target for an instance's settings.
    pub fn new(instance: &ClientInstanceConfig) -> (r: ApiTarget)
        ensures
            r.base_url@ == trim_end_char(instance.url@, '/'),
            r.auth_token.deep_view() == auth_token_of(instance.deep_view()),
    {
        let auth_token = match present(&instance.api_key) {
            Some(k) => Some(k),
            None => present(&instance.token),
        };
        ApiTarget { base_url: trim_end_char_owned(instance.url.as_str(), '/'), auth_token }
    }

    /// Whether requests carry a credential.
    pub fn has_auth(&self) -> (r: bool)
        ensures
            r == self.auth_token is Some,
    {
        self.auth_token.is_some()
    }

    /// The URL of an api path: the base URL, then the path with a leading
    /// '/' added when missing.
    pub fn url_for(&self, path: &str) -> (r: String)
        ensures
            r@ == self.base_url@ + if path@.len() > 0 && path@[0] == '/' {
                path@
            } else {
                "/"@ + path@
            },
    {
        proof {
            reveal_strlit("/");
            assert("/"@ =~= seq!['/']);
            if path@.len() > 0 {
                if path@[0] == '/' {
                    assert(path@.subrange(0, 1) =~= seq!['/']);
                }
                if path@.subrange(0, 1) == seq!['/'] {
                    assert(path@.subrange(0, 1)[0] == path@[0]);
                }
            }
        }
        if starts_with(path, "/") {
            concat2(self.base_url.as_str(), path)
        } else {
            concat3(self.base_url.as_str(), "/", path)
        }
    }
}

/// The error for a request that failed: the status, and the response
/// body when it has any text.
pub fn request_failure_message(status: &str, body: &str) -> (r: String)
    ensures
        r@ == if trim(body@).len() == 0 {
            "request failed with status "@ + status@
        } else {
            "request failed with status "@ + status@ + ": "@ + trim(body@)
        },
{
    let mut r = concat2("request failed with status ", status);
    if !is_blank(body) {
        r.append(": ");
        let t = trim_owned(body);
        r.append(t.as_str());
    }
    r
}

/// The check of a point-in-time recovery request: exactly one of a named
/// restore point and a target time must be given.
pub fn check_recover_target(restore_point: Option<&str>, target_time: Option<&str>) -> (r: Result<
    (),
    String,
>)
    ensures
        r is Ok <==> (restore_point is Some) != (target_time is Some),
        r matches Err(e) ==> e@ == "provide exactly one of --restore-point or --target-time"@,
{
    if restore_point.is_some() == target_time.is_some() {
        Err(owned("provide exactly one of --restore-point or --target-time"))
    } else {
        Ok(())
    }
}

/// The error when a command needs a credential the instance lacks.
pub fn missing_auth_message(instance_name: &str) -> (r: String)
    ensures
        r@ == "instance '"@ + instance_name@ + "' is missing a token or api_key"@,
{
    concat3("instance '", instance_name, "' is missing a token or api_key")
}


/// The base URL of a target never ends with '/'.
pub proof fn lemma_base_url_has_no_trailing_slash(url: Seq<char>)
    ensures
        trim_end_char(url, '/').len() == 0 || trim_end_char(url, '/').last() != '/',
    decreases url.len(),
{
    if url.len() > 0 && url.last() == '/' {
        lemma_base_url_has_no_trailing_slash(url.drop_last());
    }
}

} // verus!

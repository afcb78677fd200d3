//! The decisions of the certificate issuance loop: which requested domains
//! get a certificate asked for, which are refused, and which are already
//! being served.
use vstd::prelude::*;

use crate::dup::{push_deep, Dup};
use crate::routing::{dashboard_or_storage_domain, storage_or_dashboard_domain_allowed};
use crate::text::str_eq;

verus! {

/// What the issuance loop remembers between requests: the domains refused
/// (each warned about once), the domains whose issuance is under way, and
/// whether the warning that issuance is disabled was given.
pub struct CertRequestState {
    pub blocked: Vec<String>,
    pub in_flight: Vec<String>,
    pub logged_disabled: bool,
}

/// `CertRequestState` as sets of domains.
pub struct CertRequestModel {
    pub blocked: Set<Seq<char>>,
    pub in_flight: Set<Seq<char>>,
    pub logged_disabled: bool,
}

impl View for CertRequestState {
    type V = CertRequestModel;

    open spec fn view(&self) -> CertRequestModel {
        CertRequestModel {
            blocked: self.blocked.deep_view().to_set(),
            in_flight: self.in_flight.deep_view().to_set(),
            logged_disabled: self.logged_disabled,
        }
    }
}

/// What the issuance loop learns.
pub enum CertEvent {
    /// A certificate was requested for `domain`; `acme_enabled` tells
    /// whether issuance is configured at all.
    Requested { domain: String, acme_enabled: bool },
    /// The store was asked for an app serving `domain`: whether one was
    /// found, or the lookup failed.
    LookedUp { domain: String, app_found: Result<bool, String> },
    /// The issuance for `domain` ended, successfully or not.
    Finished { domain: String },
}

/// `CertEvent` with its strings as sequences.
pub enum CertEventView {
    Requested { domain: Seq<char>, acme_enabled: bool },
    LookedUp { domain: Seq<char>, app_found: Option<bool> },
    Finished { domain: Seq<char> },
}

impl View for CertEvent {
    type V = CertEventView;

    open spec fn view(&self) -> CertEventView {
        match self {
            CertEvent::Requested { domain, acme_enabled } => CertEventView::Requested {
                domain: domain@,
                acme_enabled: *acme_enabled,
            },
            CertEvent::LookedUp { domain, app_found } => CertEventView::LookedUp {
                domain: domain@,
                app_found: match app_found {
                    Ok(b) => Some(*b),
                    Err(_) => None,
                },
            },
            CertEvent::Finished { domain } => CertEventView::Finished { domain: domain@ },
        }
    }
}

/// What the issuance loop does next.
#[derive(Debug, PartialEq, Eq)]
pub enum CertAction {
    /// Nothing.
    Ignore,
    /// Warn that issuance is disabled because no email is set.
    WarnDisabled,
    /// Ask the store for an app serving the domain.
    LookUp(String),
    /// Warn that the domain is unknown, so no certificate is asked for.
    WarnBlocked(String),
    /// Ask for a certificate for the domain.
    Issue(String),
}

/// `CertAction` with its strings as sequences.
pub enum CertActionView {
    Ignore,
    WarnDisabled,
    LookUp(Seq<char>),
    WarnBlocked(Seq<char>),
    Issue(Seq<char>),
}

impl View for CertAction {
    type V = CertActionView;

    open spec fn view(&self) -> CertActionView {
        match self {
            CertAction::Ignore => CertActionView::Ignore,
            CertAction::WarnDisabled => CertActionView::WarnDisabled,
            CertAction::LookUp(d) => CertActionView::LookUp(d@),
            CertAction::WarnBlocked(d) => CertActionView::WarnBlocked(d@),
            CertAction::Issue(d) => CertActionView::Issue(d@),
        }
    }
}

/// The state after an event and the next action. Empty domains are
/// ignored; without issuance configured, the first request is warned about
/// and the others ignored. A domain is allowed when an app serves it, or,
/// when none does, when it is the dashboard's or the storage host's; a
/// failed lookup refuses it. A refused domain is warned about the first
/// time only; an allowed one gets a certificate asked for unless its
/// issuance is already under way.
pub open spec fn cert_next(
    s: CertRequestModel,
    e: CertEventView,
    base_domain: Seq<char>,
    storage_hostname: Option<Seq<char>>,
) -> (CertRequestModel, CertActionView) {
    match e {
        CertEventView::Requested { domain, acme_enabled } => if domain.len() == 0 {
            (s, CertActionView::Ignore)
        } else if !acme_enabled {
            if s.logged_disabled {
                (s, CertActionView::Ignore)
            } else {
                (CertRequestModel { logged_disabled: true, ..s }, CertActionView::WarnDisabled)
            }
        } else {
            (s, CertActionView::LookUp(domain))
        },
        CertEventView::LookedUp { domain, app_found } => {
            let allowed = match app_found {
                Some(true) => true,
                Some(false) => dashboard_or_storage_domain(base_domain, storage_hostname, domain),
                None => false,
            };
            if !allowed {
                if s.blocked.contains(domain) {
                    (s, CertActionView::Ignore)
                } else {
                    (
                        CertRequestModel { blocked: s.blocked.insert(domain), ..s },
                        CertActionView::WarnBlocked(domain),
                    )
                }
            } else if s.in_flight.contains(domain) {
                (s, CertActionView::Ignore)
            } else {
                (
                    CertRequestModel { in_flight: s.in_flight.insert(domain), ..s },
                    CertActionView::Issue(domain),
                )
            }
        },
        CertEventView::Finished { domain } => (
            CertRequestModel { in_flight: s.in_flight.remove(domain), ..s },
            CertActionView::Ignore,
        ),
    }
}

fn holds(v: &Vec<String>, d: &str) -> (r: bool)
    ensures
        r == v.deep_view().to_set().contains(d@),
{
    let mut i: usize = 0;
    while i < v.len()
        invariant
            i <= v@.len(),
            forall|j: int| 0 <= j < i ==> #[trigger] v.deep_view()[j] != d@,
        decreases v.len() - i,
    {
        if str_eq(v[i].as_str(), d) {
            proof {
                assert(v.deep_view()[i as int] == d@);
                assert(v.deep_view().contains(d@));
            }
            return true;
        }
        i = i + 1;
    }
    proof {
        assert(!v.deep_view().contains(d@));
    }
    false
}

fn add_to(v: &mut Vec<String>, d: String)
    ensures
        final(v).deep_view().to_set() == old(v).deep_view().to_set().insert(d@),
{
    let ghost dv = d@;
    push_deep(v, d);
    proof {
        let s = old(v).deep_view();
        assert forall|x: Seq<char>| v.deep_view().to_set().contains(x) <==> s.to_set().insert(dv).contains(x) by {
            assert(v.deep_view().contains(x) <==> (s.contains(x) || x == dv)) by {
                if v.deep_view().contains(x) {
                    let k = choose|k: int| 0 <= k < v.deep_view().len() && v.deep_view()[k] == x;
                    if k < s.len() {
                        assert(s[k] == x);
                    }
                }
                if s.contains(x) {
                    let k = choose|k: int| 0 <= k < s.len() && s[k] == x;
                    assert(v.deep_view()[k] == x);
                }
                if x == dv {
                    assert(v.deep_view()[s.len() as int] == x);
                }
            }
        }
        assert(v.deep_view().to_set() =~= s.to_set().insert(dv));
    }
}

fn remove_from(v: &Vec<String>, d: &str) -> (r: Vec<String>)
    ensures
        r.deep_view().to_set() == v.deep_view().to_set().remove(d@),
{
    let mut out: Vec<String> = Vec::new();
    let mut i: usize = 0;
    while i < v.len()
        invariant
            i <= v@.len(),
            forall|x: Seq<char>|
                #![trigger out.deep_view().contains(x)]
                out.deep_view().contains(x) <==> (x != d@ && exists|j: int|
                    0 <= j < i && #[trigger] v.deep_view()[j] == x),
        decreases v.len() - i,
    {
        let ghost before = out.deep_view();
        if !str_eq(v[i].as_str(), d) {
            push_deep(&mut out, v[i].dup());
        }
        proof {
            assert forall|x: Seq<char>| #[trigger] out.deep_view().contains(x) <==> (x != d@
                && exists|j: int| 0 <= j < i + 1 && #[trigger] v.deep_view()[j] == x) by {
                if out.deep_view().contains(x) {
                    let k = choose|k: int| 0 <= k < out.deep_view().len() && out.deep_view()[k] == x;
                    if k < before.len() {
                        assert(before[k] == x);
                        assert(before.contains(x));
                    } else {
                        assert(v.deep_view()[i as int] == x);
                    }
                }
                if x != d@ && exists|j: int| 0 <= j < i + 1 && #[trigger] v.deep_view()[j] == x {
                    let j = choose|j: int| 0 <= j < i + 1 && #[trigger] v.deep_view()[j] == x;
                    if j < i {
                        assert(before.contains(x));
                        let k = choose|k: int| 0 <= k < before.len() && before[k] == x;
                        assert(out.deep_view()[k] == x);
                    } else {
                        assert(out.deep_view()[before.len() as int] == x);
                    }
                }
            }
        }
        i = i + 1;
    }
    proof {
        assert forall|x: Seq<char>| out.deep_view().to_set().contains(x) <==> v.deep_view().to_set().remove(d@).contains(x) by {
            if v.deep_view().contains(x) {
                let j = choose|j: int| 0 <= j < v.deep_view().len() && v.deep_view()[j] == x;
                assert(v.deep_view()[j] == x);
            }
        }
        assert(out.deep_view().to_set() =~= v.deep_view().to_set().remove(d@));
    }
    out
}

impl CertRequestState {
    /// The state of a loop that has seen no request yet.
    pub fn new() -> (r: CertRequestState)
        ensures
            r@.blocked == Set::<Seq<char>>::empty(),
            r@.in_flight == Set::<Seq<char>>::empty(),
            !r@.logged_disabled,
    {
        let r = CertRequestState { blocked: Vec::new(), in_flight: Vec::new(), logged_disabled: false };
        proof {
            assert(r.blocked.deep_view() =~= Seq::<Seq<char>>::empty());
            assert(r.in_flight.deep_view() =~= Seq::<Seq<char>>::empty());
            assert(r@.blocked =~= Set::<Seq<char>>::empty());
            assert(r@.in_flight =~= Set::<Seq<char>>::empty());
        }
        r
    }

    /// One step of the issuance loop, for a dashboard on `base_domain` and
    /// a storage host named `storage_hostname`.
    pub fn step(
        &mut self,
        event: CertEvent,
        base_domain: &str,
        storage_hostname: Option<&str>,
    ) -> (r: CertAction)
        ensures
            (final(self)@, r@) == cert_next(
                old(self)@,
                event@,
                base_domain@,
                match storage_hostname {
                    Some(h) => Some(h@),
                    None => None,
                },
            ),
    {
        match event {
            CertEvent::Requested { domain, acme_enabled } => {
                if domain.unicode_len() == 0 {
                    CertAction::Ignore
                } else if !acme_enabled {
                    if self.logged_disabled {
                        CertAction::Ignore
                    } else {
                        self.logged_disabled = true;
                        CertAction::WarnDisabled
                    }
                } else {
                    CertAction::LookUp(domain)
                }
            },
            CertEvent::LookedUp { domain, app_found } => {
                let allowed = match app_found {
                    Ok(true) => true,
                    Ok(false) => storage_or_dashboard_domain_allowed(
                        base_domain,
                        storage_hostname,
                        domain.as_str(),
                    ),
                    Err(_) => false,
                };
                if !allowed {
                    if holds(&self.blocked, domain.as_str()) {
                        CertAction::Ignore
                    } else {
                        add_to(&mut self.blocked, domain.dup());
                        CertAction::WarnBlocked(domain)
                    }
                } else if holds(&self.in_flight, domain.as_str()) {
                    CertAction::Ignore
                } else {
                    add_to(&mut self.in_flight, domain.dup());
                    CertAction::Issue(domain)
                }
            },
            CertEvent::Finished { domain } => {
                self.in_flight = remove_from(&self.in_flight, domain.as_str());
                CertAction::Ignore
            },
        }
    }
}

/// While a domain's issuance is under way, a second request for it asks
/// for no second certificate.
pub proof fn lemma_no_duplicate_issuance(
    s: CertRequestModel,
    domain: Seq<char>,
    app_found: Option<bool>,
    base_domain: Seq<char>,
    storage_hostname: Option<Seq<char>>,
)
    requires
        s.in_flight.contains(domain),
    ensures
        !(cert_next(
            s,
            CertEventView::LookedUp { domain, app_found },
            base_domain,
            storage_hostname,
        ).1 is Issue),
{
}

} // verus!

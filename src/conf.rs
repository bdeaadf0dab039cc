use vstd::prelude::*;
use vstd::string::*;
use crate::error::JinxError;
use crate::service::{JinxService, ServiceModel};

verus! {

/// The registry: global proxy tuning and every registered service, in the
/// order of registration.
#[derive(Debug, Clone)]
pub struct JinxConf {
    pub nginx_user: String,
    pub nginx_worker_processes: u8,
    pub nginx_worker_connections: u16,
    pub jinx_services: Vec<JinxService>,
}

/// The mathematical value of a registry.
pub struct ConfModel {
    pub nginx_user: Seq<char>,
    pub nginx_worker_processes: int,
    pub nginx_worker_connections: int,
    pub services: Seq<ServiceModel>,
}

pub open spec fn services_view(v: Seq<JinxService>) -> Seq<ServiceModel> {
    v.map_values(|s: JinxService| s@)
}

impl View for JinxConf {
    type V = ConfModel;

    open spec fn view(&self) -> ConfModel {
        ConfModel {
            nginx_user: self.nginx_user@,
            nginx_worker_processes: self.nginx_worker_processes as int,
            nginx_worker_connections: self.nginx_worker_connections as int,
            services: services_view(self.jinx_services@),
        }
    }
}

/// The registry written on first use: no services and the default tuning.
pub open spec fn default_conf() -> ConfModel {
    ConfModel {
        nginx_user: "nginx"@,
        nginx_worker_processes: 1,
        nginx_worker_connections: 1024,
        services: Seq::empty(),
    }
}

impl Default for JinxConf {
    fn default() -> (r: Self)
        ensures
            r@ == default_conf(),
    {
        let r = JinxConf {
            nginx_user: String::from_str("nginx"),
            nginx_worker_processes: 1,
            nginx_worker_connections: 1024,
            jinx_services: Vec::new(),
        };
        assert(r@.services =~= Seq::<ServiceModel>::empty());
        r
    }
}

/// The service list after registering `s`: appended unless an equal
/// descriptor is already there. A descriptor that differs from a registered
/// one in any field, its name included or not, is a new entry.
pub open spec fn upserted(services: Seq<ServiceModel>, s: ServiceModel) -> Seq<ServiceModel> {
    if services.contains(s) {
        services
    } else {
        services.push(s)
    }
}

/// The registry after registering `s`: the service list `upserted`, the
/// tuning kept.
pub open spec fn registered(c: ConfModel, s: ServiceModel) -> ConfModel {
    ConfModel { services: upserted(c.services, s), ..c }
}

impl JinxConf {
    /// Whether a descriptor equal to `service` is registered.
    pub fn contains_service(&self, service: &JinxService) -> (r: bool)
        ensures
            r == self@.services.contains(service@),
    {
        let mut i: usize = 0;
        while i < self.jinx_services.len()
            invariant
                i <= self.jinx_services@.len(),
                forall|k: int| 0 <= k < i ==> self.jinx_services@[k]@ != service@,
            decreases self.jinx_services.len() - i,
        {
            if self.jinx_services[i] == *service {
                assert(self@.services[i as int] == service@);
                return true;
            }
            i = i + 1;
        }
        assert(!self@.services.contains(service@)) by {
            if self@.services.contains(service@) {
                let k = choose|k: int| 0 <= k < self@.services.len() && self@.services[k] == service@;
                assert(self.jinx_services@[k]@ == service@);
            }
        }
        false
    }

    /// Registers `service`: appends it unless an equal descriptor is already
    /// registered. The tuning is kept.
    pub fn upsert(&mut self, service: JinxService)
        ensures
            final(self)@ == registered(old(self)@, service@),
    {
        if !self.contains_service(&service) {
            self.jinx_services.push(service);
            assert(self@.services =~= old(self)@.services.push(service@));
        }
    }
}

/// Registering the same descriptor a second time changes nothing: same
/// services in the same order, same tuning.
pub proof fn lemma_upsert_idempotent(c: ConfModel, s: ServiceModel)
    ensures
        registered(registered(c, s), s) == registered(c, s),
        registered(registered(c, s), s).services.len() == registered(c, s).services.len(),
{
    if !c.services.contains(s) {
        assert(c.services.push(s)[c.services.len() as int] == s);
    }
}

/// A descriptor that differs from a registered one of the same name, and
/// equals none registered, is appended as a second entry: the earlier one
/// stays where it was, the new one comes last, the tuning is kept.
pub proof fn lemma_upsert_changed_duplicates(c: ConfModel, old_entry: ServiceModel, s: ServiceModel)
    requires
        c.services.contains(old_entry),
        old_entry.name == s.name,
        old_entry != s,
        !c.services.contains(s),
    ensures
        registered(c, s).services == c.services.push(s),
        registered(c, s).services.len() == c.services.len() + 1,
        registered(c, s).services.contains(old_entry),
        registered(c, s).services.filter(|e: ServiceModel| e.name == s.name).len() >= 2,
        registered(c, s).nginx_user == c.nginx_user,
        registered(c, s).nginx_worker_processes == c.nginx_worker_processes,
        registered(c, s).nginx_worker_connections == c.nginx_worker_connections,
{
    let services = c.services;
    let r = services.push(s);
    let i = choose|i: int| 0 <= i < services.len() && services[i] == old_entry;
    assert(r[i] == old_entry);
    assert(r[services.len() as int] == s);
    let f = |e: ServiceModel| e.name == s.name;
    services.lemma_filter_contains(f, i);
    assert(services.filter(f).len() >= 1);
    assert(r == services + seq![s]);
    Seq::filter_distributes_over_add(services, seq![s], f);
    reveal(Seq::filter);
    assert(seq![s].filter(f) =~= seq![s]) by {
        assert(seq![s].drop_last() =~= Seq::<ServiceModel>::empty());
    }
}

/// What the registry file held when it was read.
pub enum StoredRegistry {
    /// There is no registry file yet.
    Missing,
    /// The file exists but does not parse as a registry.
    Unparsable,
    /// The registry the file holds.
    Parsed(JinxConf),
}

/// The registry to work on: the default one when none is stored yet, the
/// stored one otherwise; an unparsable file is `RegistryCorrupt`.
pub fn resolve_registry(stored: StoredRegistry) -> (r: Result<JinxConf, JinxError>)
    ensures
        match stored {
            StoredRegistry::Missing => r is Ok && r->Ok_0@ == default_conf(),
            StoredRegistry::Unparsable => r == Err::<JinxConf, JinxError>(JinxError::RegistryCorrupt),
            StoredRegistry::Parsed(c) => r is Ok && r->Ok_0@ == c@,
        },
{
    match stored {
        StoredRegistry::Missing => Ok(JinxConf::default()),
        StoredRegistry::Unparsable => Err(JinxError::RegistryCorrupt),
        StoredRegistry::Parsed(c) => Ok(c),
    }
}

} // verus!

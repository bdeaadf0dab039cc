use vstd::prelude::*;
use vstd::string::*;
use crate::error::JinxError;
use crate::files::JinxFiles;

verus! {

/// A service descriptor, as its author wrote it in the project's `jinx.json`.
#[derive(Debug, Clone)]
pub struct JinxService {
    /// Unique name; also the archive and runtime service name.
    pub name: String,
    /// Hostname that the proxy routes to this service.
    pub domain: String,
    /// Image tag to build and run.
    pub image_name: String,
    /// Port the container listens on.
    pub image_port: i64,
    /// `"name:value"` environment entries.
    pub image_envs: Option<Vec<String>>,
    /// `"name:id"` secret entries.
    pub image_secrets: Option<Vec<String>>,
    /// `"source:target"` bind mounts.
    pub image_volumes: Option<Vec<String>>,
    /// Host port; absent means the service is reached through the proxy only.
    pub published_port: Option<i64>,
    /// Whether the proxy redirects plain HTTP to HTTPS.
    pub https_redirect: bool,
    /// Whether the proxy terminates TLS for the domain.
    pub https: bool,
}

/// The mathematical value of a descriptor.
pub struct ServiceModel {
    pub name: Seq<char>,
    pub domain: Seq<char>,
    pub image_name: Seq<char>,
    pub image_port: int,
    pub image_envs: Option<Seq<Seq<char>>>,
    pub image_secrets: Option<Seq<Seq<char>>>,
    pub image_volumes: Option<Seq<Seq<char>>>,
    pub published_port: Option<int>,
    pub https_redirect: bool,
    pub https: bool,
}

pub open spec fn strings_view(v: Seq<String>) -> Seq<Seq<char>> {
    v.map_values(|s: String| s@)
}

pub open spec fn opt_strings_view(o: Option<Vec<String>>) -> Option<Seq<Seq<char>>> {
    match o {
        Some(v) => Some(strings_view(v@)),
        None => None,
    }
}

pub open spec fn opt_int_view(o: Option<i64>) -> Option<int> {
    match o {
        Some(n) => Some(n as int),
        None => None,
    }
}

impl View for JinxService {
    type V = ServiceModel;

    open spec fn view(&self) -> ServiceModel {
        ServiceModel {
            name: self.name@,
            domain: self.domain@,
            image_name: self.image_name@,
            image_port: self.image_port as int,
            image_envs: opt_strings_view(self.image_envs),
            image_secrets: opt_strings_view(self.image_secrets),
            image_volumes: opt_strings_view(self.image_volumes),
            published_port: opt_int_view(self.published_port),
            https_redirect: self.https_redirect,
            https: self.https,
        }
    }
}

/// A descriptor that can be registered: a non-empty name and a positive port.
pub open spec fn service_valid(s: ServiceModel) -> bool {
    s.name.len() > 0 && s.image_port > 0
}

/// The descriptor with every field at its default.
pub open spec fn default_service() -> ServiceModel {
    ServiceModel {
        name: "None"@,
        domain: "None"@,
        image_name: "None"@,
        image_port: 8080,
        image_envs: None,
        image_secrets: None,
        image_volumes: None,
        published_port: None,
        https_redirect: false,
        https: false,
    }
}

impl Default for JinxService {
    fn default() -> (r: Self)
        ensures
            r@ == default_service(),
    {
        JinxService {
            name: String::from_str("None"),
            domain: String::from_str("None"),
            image_name: String::from_str("None"),
            image_port: 8080,
            image_envs: None,
            image_secrets: None,
            image_volumes: None,
            published_port: None,
            https_redirect: false,
            https: false,
        }
    }
}

fn strings_eq(a: &Vec<String>, b: &Vec<String>) -> (r: bool)
    ensures
        r == (strings_view(a@) == strings_view(b@)),
{
    if a.len() != b.len() {
        return false;
    }
    let mut i: usize = 0;
    while i < a.len()
        invariant
            a@.len() == b@.len(),
            i <= a@.len(),
            forall|k: int| 0 <= k < i ==> a@[k]@ == b@[k]@,
        decreases a.len() - i,
    {
        if a[i] != b[i] {
            assert(strings_view(a@)[i as int] != strings_view(b@)[i as int]);
            return false;
        }
        i = i + 1;
    }
    assert(strings_view(a@) =~= strings_view(b@));
    true
}

fn opt_strings_eq(a: &Option<Vec<String>>, b: &Option<Vec<String>>) -> (r: bool)
    ensures
        r == (opt_strings_view(*a) == opt_strings_view(*b)),
{
    match (a, b) {
        (Some(x), Some(y)) => strings_eq(x, y),
        (None, None) => true,
        _ => false,
    }
}

fn opt_i64_eq(a: &Option<i64>, b: &Option<i64>) -> (r: bool)
    ensures
        r == (opt_int_view(*a) == opt_int_view(*b)),
{
    match (a, b) {
        (Some(x), Some(y)) => *x == *y,
        (None, None) => true,
        _ => false,
    }
}

/// Descriptors are equal when every field is equal.
impl PartialEq for JinxService {
    fn eq(&self, other: &JinxService) -> (r: bool)
        ensures
            r == (self@ == other@),
    {
        let r = self.name == other.name && self.domain == other.domain && self.image_name
            == other.image_name && self.image_port == other.image_port && opt_strings_eq(
            &self.image_envs,
            &other.image_envs,
        ) && opt_strings_eq(&self.image_secrets, &other.image_secrets) && opt_strings_eq(
            &self.image_volumes,
            &other.image_volumes,
        ) && opt_i64_eq(&self.published_port, &other.published_port) && self.https_redirect
            == other.https_redirect && self.https == other.https;
        r
    }
}

impl vstd::std_specs::cmp::PartialEqSpecImpl for JinxService {
    open spec fn obeys_eq_spec() -> bool {
        true
    }

    open spec fn eq_spec(&self, other: &JinxService) -> bool {
        self@ == other@
    }
}

fn copy_strings(o: &Option<Vec<String>>) -> (r: Option<Vec<String>>)
    ensures
        opt_strings_view(r) == opt_strings_view(*o),
{
    match o {
        Some(v) => {
            let c = v.clone();
            assert(strings_view(c@) =~= strings_view(v@));
            Some(c)
        },
        None => None,
    }
}

impl JinxService {
    /// A copy of the descriptor.
    pub fn copy(&self) -> (r: JinxService)
        ensures
            r@ == self@,
    {
        JinxService {
            name: self.name.clone(),
            domain: self.domain.clone(),
            image_name: self.image_name.clone(),
            image_port: self.image_port,
            image_envs: copy_strings(&self.image_envs),
            image_secrets: copy_strings(&self.image_secrets),
            image_volumes: copy_strings(&self.image_volumes),
            published_port: self.published_port,
            https_redirect: self.https_redirect,
            https: self.https,
        }
    }

    /// Checks the descriptor invariant: a non-empty name and a positive port.
    pub fn validate(&self) -> (r: Result<(), JinxError>)
        ensures
            r is Ok <==> service_valid(self@),
            r is Err ==> r == Err::<(), JinxError>(JinxError::Config(self.name)),
    {
        if self.name.unicode_len() == 0 || self.image_port <= 0 {
            Err(JinxError::Config(self.name.clone()))
        } else {
            Ok(())
        }
    }
}

/// The certificate-store mounts: store root and webroot.
pub open spec fn cert_volumes(files: JinxFiles) -> Seq<Seq<char>> {
    seq![
        files.letsencrypt_conf@ + ":/etc/letsencrypt"@,
        files.letsencrypt_www@ + ":/var/www/certbot"@,
    ]
}

/// The certificate-store mounts, as `"source:target"` entries.
pub fn cert_volume_entries(files: &JinxFiles) -> (r: Vec<String>)
    ensures
        strings_view(r@) == cert_volumes(*files),
{
    let mut conf = files.letsencrypt_conf.clone();
    conf.append(":/etc/letsencrypt");
    let mut www = files.letsencrypt_www.clone();
    www.append(":/var/www/certbot");
    let r = vec![conf, www];
    assert(strings_view(r@) =~= cert_volumes(*files));
    r
}

/// The descriptor of the reverse proxy itself: published on port 80, with the
/// certificate store mounted.
pub fn get_jinx_proxy_service(files: &JinxFiles) -> (r: JinxService)
    ensures
        r@ == (ServiceModel {
            name: "jinx_proxy"@,
            image_name: "jinx_proxy"@,
            image_port: 80,
            image_volumes: Some(cert_volumes(*files)),
            published_port: Some(80),
            ..default_service()
        }),
{
    let d = JinxService::default();
    JinxService {
        name: String::from_str("jinx_proxy"),
        image_name: String::from_str("jinx_proxy"),
        image_port: 80,
        image_volumes: Some(cert_volume_entries(files)),
        published_port: Some(80),
        ..d
    }
}

} // verus!

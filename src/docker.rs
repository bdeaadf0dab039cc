use vstd::prelude::*;
use vstd::string::*;
use crate::error::JinxError;
use crate::service::{JinxService, ServiceModel, service_valid, strings_view};
use crate::text::{split_binding, split_fields, split_on_colon, split_two_fields, replace_char, replace_all};

verus! {

/// Name of the shared network that the proxy and every service join.
pub open spec fn network_name() -> Seq<char> {
    "jinx_network"@
}

/// A `source:target` pair taken from a descriptor entry.
#[derive(Debug, Clone)]
pub struct Binding {
    pub source: String,
    pub target: String,
}

pub open spec fn bindings_view(v: Seq<Binding>) -> Seq<(Seq<char>, Seq<char>)> {
    v.map_values(|b: Binding| (b.source@, b.target@))
}

/// An entry that holds a `:`.
pub open spec fn well_formed(e: Seq<char>) -> bool {
    split_binding(e) is Some
}

/// The pairs of a list of well-formed mount or secret entries: the first
/// two `:`-separated fields of each (`/a:/b:ro` gives `/a` and `/b`).
pub open spec fn parsed_bindings(entries: Seq<Seq<char>>) -> Seq<(Seq<char>, Seq<char>)> {
    entries.map_values(|e: Seq<char>| split_fields(e)->0)
}

/// The runtime's `NAME=value` form of `name:value` environment entries; the
/// value is everything after the first `:`, so it may itself hold `:`.
pub open spec fn env_entries(entries: Seq<Seq<char>>) -> Seq<Seq<char>> {
    entries.map_values(|e: Seq<char>| (split_binding(e)->0).0 + "="@ + (split_binding(e)->0).1)
}

pub open spec fn opt_entries(o: Option<Seq<Seq<char>>>) -> Seq<Seq<char>> {
    match o {
        Some(v) => v,
        None => Seq::empty(),
    }
}

/// Every `source:target` entry of a descriptor: mounts, then environment,
/// then secrets.
pub open spec fn all_entries(s: ServiceModel) -> Seq<Seq<char>> {
    opt_entries(s.image_volumes) + opt_entries(s.image_envs) + opt_entries(s.image_secrets)
}

/// `e` is the first malformed entry of `entries`.
pub open spec fn first_malformed(entries: Seq<Seq<char>>, e: Seq<char>) -> bool {
    exists|i: int|
        0 <= i < entries.len() && #[trigger] entries[i] == e && !well_formed(e) && forall|j: int|
            0 <= j < i ==> well_formed(#[trigger] entries[j])
}

/// A secret handed to a service, and the file it appears as inside the
/// container.
#[derive(Debug, Clone)]
pub struct SecretRef {
    pub name: String,
    pub id: String,
    /// Name of the file that holds the secret.
    pub file_name: String,
    pub uid: String,
    pub gid: String,
    /// Permission bits of the file.
    pub mode: u32,
}

pub open spec fn secrets_view(v: Seq<SecretRef>) -> Seq<(Seq<char>, Seq<char>)> {
    v.map_values(|r: SecretRef| (r.name@, r.id@))
}

/// The secret's file is named after it, owned by root and read-only for
/// everyone (`0o444`).
pub open spec fn secret_file_ok(r: SecretRef) -> bool {
    r.file_name@ == r.name@ && r.uid@ == "0"@ && r.gid@ == "0"@ && r.mode == 292
}

/// What the runtime is asked to create for one long-running service.
#[derive(Debug, Clone)]
pub struct ServiceDeployment {
    pub name: String,
    pub image: String,
    /// The shared network it joins.
    pub network: String,
    pub replicas: u64,
    /// The container port.
    pub target_port: i64,
    /// The host port, when the service is published.
    pub published_port: Option<i64>,
    /// Bind mounts, host path to container path.
    pub mounts: Vec<Binding>,
    /// `NAME=value` environment entries.
    pub envs: Vec<String>,
    /// Secrets, name to id.
    pub secrets: Vec<SecretRef>,
}

/// `d` is the deployment of the descriptor `s` under the runtime name `name`.
pub open spec fn deployment_of(d: ServiceDeployment, s: ServiceModel, name: Seq<char>) -> bool {
    &&& d.name@ == name
    &&& d.image@ == s.image_name
    &&& d.network@ == network_name()
    &&& d.replicas == 1
    &&& d.target_port as int == s.image_port
    &&& crate::service::opt_int_view(d.published_port) == s.published_port
    &&& bindings_view(d.mounts@) == parsed_bindings(opt_entries(s.image_volumes))
    &&& strings_view(d.envs@) == env_entries(opt_entries(s.image_envs))
    &&& secrets_view(d.secrets@) == parsed_bindings(opt_entries(s.image_secrets))
    &&& forall|k: int| 0 <= k < d.secrets@.len() ==> secret_file_ok(#[trigger] d.secrets@[k])
}

/// What `deployment_spec` owes for the descriptor `s` and the name `name`.
pub open spec fn deployment_result(
    r: Result<ServiceDeployment, JinxError>,
    s: ServiceModel,
    name: Seq<char>,
) -> bool {
    &&& r is Ok <==> (service_valid(s) && forall|i: int|
        0 <= i < all_entries(s).len() ==> well_formed(#[trigger] all_entries(s)[i]))
    &&& r is Ok ==> deployment_of(r->Ok_0, s, name)
    &&& !service_valid(s) ==> (r matches Err(JinxError::Config(x)) && x@ == s.name)
    &&& service_valid(s) && r is Err ==> (r matches Err(JinxError::Config(x)) && first_malformed(
        all_entries(s),
        x@,
    ))
}

fn entries_of(o: &Option<Vec<String>>) -> (r: Vec<String>)
    ensures
        strings_view(r@) == opt_entries(crate::service::opt_strings_view(*o)),
{
    match o {
        Some(v) => v.clone(),
        None => {
            let r: Vec<String> = Vec::new();
            assert(strings_view(r@) =~= Seq::<Seq<char>>::empty());
            r
        },
    }
}

fn append_strings(dst: &mut Vec<String>, src: &Vec<String>)
    ensures
        strings_view(final(dst)@) == strings_view(old(dst)@) + strings_view(src@),
{
    let mut i: usize = 0;
    while i < src.len()
        invariant
            i <= src@.len(),
            strings_view(dst@) == strings_view(old(dst)@) + strings_view(src@.subrange(0, i as int)),
        decreases src.len() - i,
    {
        let e = src[i].clone();
        let ghost before = dst@;
        dst.push(e);
        assert(strings_view(dst@) =~= strings_view(before).push(src@[i as int]@));
        assert(src@.subrange(0, i + 1) =~= src@.subrange(0, i as int).push(src@[i as int]));
        assert(strings_view(src@.subrange(0, i + 1)) =~= strings_view(src@.subrange(0, i as int)).push(src@[i as int]@));
        i = i + 1;
        assert(strings_view(dst@) =~= strings_view(old(dst)@) + strings_view(
            src@.subrange(0, i as int),
        ));
    }
    assert(src@.subrange(0, src@.len() as int) =~= src@);
}

/// The first entry without a `:`, if any.
fn find_malformed(entries: &Vec<String>) -> (r: Option<String>)
    ensures
        match r {
            Some(x) => first_malformed(strings_view(entries@), x@),
            None => forall|i: int|
                0 <= i < entries@.len() ==> well_formed(#[trigger] strings_view(entries@)[i]),
        },
{
    let mut i: usize = 0;
    while i < entries.len()
        invariant
            i <= entries@.len(),
            forall|j: int| 0 <= j < i ==> well_formed(#[trigger] strings_view(entries@)[j]),
        decreases entries.len() - i,
    {
        match split_on_colon(entries[i].as_str()) {
            Some(_) => {},
            None => {
                let x = entries[i].clone();
                assert(strings_view(entries@)[i as int] == x@);
                return Some(x);
            },
        }
        i = i + 1;
    }
    None
}

/// The pairs of entries that all hold a `:`.
fn parse_bindings(entries: &Vec<String>) -> (r: Vec<Binding>)
    requires
        forall|i: int| 0 <= i < entries@.len() ==> well_formed(#[trigger] strings_view(entries@)[i]),
    ensures
        bindings_view(r@) == parsed_bindings(strings_view(entries@)),
{
    let mut r: Vec<Binding> = Vec::new();
    let mut i: usize = 0;
    while i < entries.len()
        invariant
            i <= entries@.len(),
            forall|k: int| 0 <= k < entries@.len() ==> well_formed(#[trigger] strings_view(entries@)[k]),
            bindings_view(r@) == parsed_bindings(strings_view(entries@).subrange(0, i as int)),
        decreases entries.len() - i,
    {
        assert(well_formed(strings_view(entries@)[i as int]));
        let ghost before = r@;
        let ghost sub = strings_view(entries@).subrange(0, i as int);
        match split_two_fields(entries[i].as_str()) {
            Some(p) => {
                r.push(Binding { source: p.0, target: p.1 });
            },
            None => {},
        }
        assert(bindings_view(r@) =~= bindings_view(before).push(split_fields(entries@[i as int]@)->0));
        assert(strings_view(entries@).subrange(0, i + 1) =~= sub.push(entries@[i as int]@));
        assert(parsed_bindings(sub.push(entries@[i as int]@)) =~= parsed_bindings(sub).push(split_fields(entries@[i as int]@)->0));
        i = i + 1;
        assert(bindings_view(r@) =~= parsed_bindings(strings_view(entries@).subrange(0, i as int)));
    }
    assert(strings_view(entries@).subrange(0, entries@.len() as int) =~= strings_view(entries@));
    r
}

/// Secrets from `name:id` entries that all hold a `:`.
fn secret_refs(entries: &Vec<String>) -> (r: Vec<SecretRef>)
    requires
        forall|i: int| 0 <= i < entries@.len() ==> well_formed(#[trigger] strings_view(entries@)[i]),
    ensures
        secrets_view(r@) == parsed_bindings(strings_view(entries@)),
        forall|k: int| 0 <= k < r@.len() ==> secret_file_ok(#[trigger] r@[k]),
{
    let pairs = parse_bindings(entries);
    let mut r: Vec<SecretRef> = Vec::new();
    let mut i: usize = 0;
    while i < pairs.len()
        invariant
            i <= pairs@.len(),
            bindings_view(pairs@) == parsed_bindings(strings_view(entries@)),
            secrets_view(r@) == bindings_view(pairs@).subrange(0, i as int),
            forall|k: int| 0 <= k < r@.len() ==> secret_file_ok(#[trigger] r@[k]),
        decreases pairs.len() - i,
    {
        let name = pairs[i].source.clone();
        let s = SecretRef {
            file_name: name.clone(),
            name,
            id: pairs[i].target.clone(),
            uid: String::from_str("0"),
            gid: String::from_str("0"),
            mode: 292,
        };
        let ghost before = r@;
        r.push(s);
        proof {
            let bv = bindings_view(pairs@);
            assert(secrets_view(r@) =~= secrets_view(before).push(bv[i as int]));
            assert(bv.subrange(0, i + 1) =~= bv.subrange(0, i as int).push(bv[i as int]));
            assert forall|k: int| 0 <= k < r@.len() implies secret_file_ok(#[trigger] r@[k]) by {
                if k < before.len() {
                    assert(r@[k] == before[k]);
                }
            }
        }
        i = i + 1;
    }
    assert(bindings_view(pairs@).subrange(0, pairs@.len() as int) =~= bindings_view(pairs@));
    r
}

/// `NAME=value` entries from `name:value` entries that all hold a `:`.
fn env_bindings(entries: &Vec<String>) -> (r: Vec<String>)
    requires
        forall|i: int| 0 <= i < entries@.len() ==> well_formed(#[trigger] strings_view(entries@)[i]),
    ensures
        strings_view(r@) == env_entries(strings_view(entries@)),
{
    let mut r: Vec<String> = Vec::new();
    let mut i: usize = 0;
    while i < entries.len()
        invariant
            i <= entries@.len(),
            forall|k: int| 0 <= k < entries@.len() ==> well_formed(#[trigger] strings_view(entries@)[k]),
            strings_view(r@) == env_entries(strings_view(entries@).subrange(0, i as int)),
        decreases entries.len() - i,
    {
        assert(well_formed(strings_view(entries@)[i as int]));
        let ghost before = r@;
        let ghost sub = strings_view(entries@).subrange(0, i as int);
        let ghost e = entries@[i as int]@;
        match split_on_colon(entries[i].as_str()) {
            Some(p) => {
                let mut x = p.0;
                x.append("=");
                x.append(p.1.as_str());
                r.push(x);
            },
            None => {},
        }
        assert(strings_view(r@) =~= strings_view(before).push((split_binding(e)->0).0 + "="@ + (split_binding(e)->0).1));
        assert(strings_view(entries@).subrange(0, i + 1) =~= sub.push(e));
        assert(env_entries(sub.push(e)) =~= env_entries(sub).push((split_binding(e)->0).0 + "="@ + (split_binding(e)->0).1));
        i = i + 1;
    }
    assert(strings_view(entries@).subrange(0, entries@.len() as int) =~= strings_view(entries@));
    r
}

/// The runtime request for the descriptor `service` under the runtime name
/// `name`: the shared network, one replica, the container port (published
/// only when the descriptor names a host port), and the mounts, environment
/// and secrets split at their first `:`. An invalid descriptor, or an entry
/// without `:`, is a `Config` error that names it.
pub fn deployment_spec(service: &JinxService, name: String) -> (r: Result<ServiceDeployment, JinxError>)
    ensures
        deployment_result(r, service@, name@),
{
    if service.validate().is_err() {
        return Err(JinxError::Config(service.name.clone()));
    }
    let volumes = entries_of(&service.image_volumes);
    let envs = entries_of(&service.image_envs);
    let secrets = entries_of(&service.image_secrets);
    let mut all = volumes.clone();
    append_strings(&mut all, &envs);
    append_strings(&mut all, &secrets);
    assert(strings_view(all@) == all_entries(service@));
    match find_malformed(&all) {
        Some(x) => {
            return Err(JinxError::Config(x));
        },
        None => {},
    }
    assert forall|i: int| 0 <= i < volumes@.len() implies well_formed(
        #[trigger] strings_view(volumes@)[i],
    ) by {
        assert(strings_view(all@)[i] == strings_view(volumes@)[i]);
    }
    assert forall|i: int| 0 <= i < envs@.len() implies well_formed(
        #[trigger] strings_view(envs@)[i],
    ) by {
        assert(strings_view(all@)[volumes@.len() + i] == strings_view(envs@)[i]);
    }
    assert forall|i: int| 0 <= i < secrets@.len() implies well_formed(
        #[trigger] strings_view(secrets@)[i],
    ) by {
        assert(strings_view(all@)[volumes@.len() + envs@.len() + i] == strings_view(secrets@)[i]);
    }
    Ok(
        ServiceDeployment {
            name,
            image: service.image_name.clone(),
            network: String::from_str("jinx_network"),
            replicas: 1,
            target_port: service.image_port,
            published_port: service.published_port,
            mounts: parse_bindings(&volumes),
            envs: env_bindings(&envs),
            secrets: secret_refs(&secrets),
        },
    )
}

/// The runtime request for a registered service, named `<name>-jinx`.
pub fn create_service(service: &JinxService) -> (r: Result<ServiceDeployment, JinxError>)
    ensures
        deployment_result(r, service@, service@.name + "-jinx"@),
{
    let mut name = service.name.clone();
    name.append("-jinx");
    deployment_spec(service, name)
}

/// The runtime request for the reverse proxy, named `jinx-proxy`.
pub fn create_jinx_proxy_service(service: &JinxService) -> (r: Result<ServiceDeployment, JinxError>)
    ensures
        deployment_result(r, service@, "jinx-proxy"@),
{
    deployment_spec(service, String::from_str("jinx-proxy"))
}

/// A network for the runtime to create.
#[derive(Debug, Clone)]
pub struct NetworkSpec {
    pub name: String,
    pub driver: String,
    /// Ask the runtime to refuse a second network of the same name.
    pub check_duplicate: bool,
    pub internal: bool,
}

/// An image build for the runtime to run on a build context.
#[derive(Debug, Clone)]
pub struct BuildSpec {
    /// The Dockerfile inside the build context.
    pub dockerfile: String,
    /// The tag of the image built.
    pub tag: String,
}

/// One progress record of an image build, as the runtime streams it.
#[derive(Debug, Clone)]
pub struct BuildMessage {
    /// Build output to echo.
    pub stream: Option<String>,
    /// Set when the build failed.
    pub error: Option<String>,
}

/// What to do with one build progress record: a record that carries an
/// error ends the build with a `Build` error holding it; any other is
/// echoed (its output, or nothing).
pub fn build_progress(message: &BuildMessage) -> (r: Result<String, JinxError>)
    ensures
        match message.error {
            Some(e) => r matches Err(JinxError::Build(x)) && x@ == e@,
            None => r is Ok && r->Ok_0@ == match message.stream {
                Some(s) => s@,
                None => Seq::<char>::empty(),
            },
        },
{
    match &message.error {
        Some(e) => Err(JinxError::Build(e.clone())),
        None => match &message.stream {
            Some(s) => Ok(s.clone()),
            None => Ok(String::new()),
        },
    }
}

/// How the runtime answered a request to create the shared network.
#[derive(Debug, Clone)]
pub enum NetworkReply {
    Created,
    /// Refused, with the HTTP status and the runtime's message.
    Refused(u16, String),
}

/// Whether network creation succeeded: a network that already exists
/// (status 409, conflict) is kept and is no error; any other refusal is a
/// `Deploy` error holding the runtime's message.
pub fn network_outcome(reply: NetworkReply) -> (r: Result<(), JinxError>)
    ensures
        match reply {
            NetworkReply::Created => r is Ok,
            NetworkReply::Refused(status, msg) => if status == 409 {
                r is Ok
            } else {
                r matches Err(JinxError::Deploy(x)) && x@ == msg@
            },
        },
{
    match reply {
        NetworkReply::Created => Ok(()),
        NetworkReply::Refused(status, msg) => if status == 409 {
            Ok(())
        } else {
            Err(JinxError::Deploy(msg))
        },
    }
}

/// The name of the one-shot container that runs `image`: `jinx-` followed by
/// the image name with each `/` made `_`.
pub open spec fn container_name_of(image: Seq<char>) -> Seq<char> {
    "jinx-"@ + replace_char(image, '/', '_')
}

/// A single container to create and start, and then leave alone.
#[derive(Debug, Clone)]
pub struct ContainerRun {
    pub name: String,
    pub image: String,
    /// `host:container/protocol` port entries.
    pub ports: Vec<String>,
    /// `source:target` bind mounts.
    pub volumes: Vec<String>,
    pub env: Option<Vec<String>>,
    pub cmd: Option<Vec<String>>,
}

/// The one-shot container that runs `image` with the given ports, mounts,
/// environment and command.
pub fn run_image(
    image: &str,
    ports: Vec<String>,
    volumes: Vec<String>,
    env: Option<Vec<String>>,
    cmd: Option<Vec<String>>,
) -> (r: ContainerRun)
    ensures
        r.name@ == container_name_of(image@),
        r.image@ == image@,
        r.ports == ports,
        r.volumes == volumes,
        r.env == env,
        r.cmd == cmd,
{
    let mut name = String::from_str("jinx-");
    let tail = replace_all(image, '/', '_');
    name.append(tail.as_str());
    ContainerRun { name, image: String::from_str(image), ports, volumes, env, cmd }
}

/// The lines of `s`, split at each `\n`.
pub open spec fn split_lines(s: Seq<char>) -> Seq<Seq<char>>
    decreases s.len(),
{
    if s.len() == 0 {
        seq![Seq::empty()]
    } else {
        let ls = split_lines(s.drop_last());
        if s.last() == '\n' {
            ls.push(Seq::empty())
        } else {
            ls.update(ls.len() - 1, ls.last().push(s.last()))
        }
    }
}

/// A line without its trailing `\r`, if any.
pub open spec fn strip_cr(l: Seq<char>) -> Seq<char> {
    if l.len() > 0 && l.last() == '\r' {
        l.drop_last()
    } else {
        l
    }
}

/// The lines of a text as a line-by-line reader gives them: each line that
/// ends in `\n` without that `\n` and without a `\r` before it; then the
/// text after the last `\n`, unchanged, when it is not empty. Empty lines
/// are kept.
pub open spec fn text_lines(s: Seq<char>) -> Seq<Seq<char>> {
    let pieces = split_lines(s);
    let ended = pieces.drop_last().map_values(|l: Seq<char>| strip_cr(l));
    if pieces.last().len() == 0 {
        ended
    } else {
        ended.push(pieces.last())
    }
}

fn text_lines_of(s: &str) -> (r: Vec<String>)
    ensures
        strings_view(r@) == text_lines(s@),
{
    let cs = crate::text::to_chars(s);
    let n = cs.len();
    let mut out: Vec<String> = Vec::new();
    let mut start: usize = 0;
    let mut i: usize = 0;
    let ghost mut done: Seq<Seq<char>> = Seq::empty();
    assert(s@.subrange(0, 0) =~= Seq::<char>::empty());
    assert(split_lines(s@.subrange(0, 0)) =~= done.push(s@.subrange(0, 0)));
    while i < n
        invariant
            cs@ == s@,
            n == s@.len(),
            start <= i <= n,
            split_lines(s@.subrange(0, i as int)) == done.push(s@.subrange(start as int, i as int)),
            strings_view(out@) == done.map_values(|l: Seq<char>| strip_cr(l)),
        decreases n - i,
    {
        let ghost cur = s@.subrange(start as int, i as int);
        assert(s@.subrange(0, i + 1).drop_last() =~= s@.subrange(0, i as int));
        assert(s@.subrange(0, i + 1).last() == s@[i as int]);
        if cs[i] == '\n' {
            let mut stop = i;
            if start < i && cs[i - 1] == '\r' {
                stop = i - 1;
            }
            assert(s@.subrange(start as int, stop as int) =~= strip_cr(cur));
            let ghost before = out@;
            out.push(String::from_str(s.substring_char(start, stop)));
            proof {
                assert(done.push(cur).drop_last() =~= done);
                assert(strings_view(out@) =~= strings_view(before).push(strip_cr(cur)));
                assert(done.push(cur).map_values(|l: Seq<char>| strip_cr(l)) =~= done.map_values(
                    |l: Seq<char>| strip_cr(l),
                ).push(strip_cr(cur)));
                done = done.push(cur);
            }
            start = i + 1;
            i = i + 1;
            assert(s@.subrange(start as int, i as int) =~= Seq::<char>::empty());
        } else {
            i = i + 1;
            assert(s@.subrange(start as int, i as int) =~= cur.push(s@[i - 1]));
            assert(done.push(cur).update(done.len() as int, cur.push(s@[i - 1])) =~= done.push(
                s@.subrange(start as int, i as int),
            ));
        }
    }
    proof {
        assert(s@.subrange(0, n as int) =~= s@);
        assert(done.push(s@.subrange(start as int, n as int)).drop_last() =~= done);
    }
    if start < n {
        let ghost before = out@;
        out.push(String::from_str(s.substring_char(start, n)));
        assert(strings_view(out@) =~= strings_view(before).push(s@.subrange(start as int, n as int)));
    }
    out
}

/// The exclusion patterns of a `.dockerignore` file: its lines, in order,
/// as `text_lines` reads them. No file means no pattern. An empty line is
/// an empty pattern, which excludes nothing.
pub fn get_dockerignore(contents: &Option<String>) -> (r: Vec<String>)
    ensures
        strings_view(r@) == match contents {
            Some(t) => text_lines(t@),
            None => Seq::<Seq<char>>::empty(),
        },
{
    match contents {
        Some(t) => text_lines_of(t.as_str()),
        None => {
            let r: Vec<String> = Vec::new();
            assert(strings_view(r@) =~= Seq::<Seq<char>>::empty());
            r
        },
    }
}

} // verus!

use vstd::prelude::*;
use vstd::string::*;
use crate::conf::{ConfModel, JinxConf};
use crate::error::JinxError;
use crate::service::{JinxService, ServiceModel, strings_view};
use crate::text::{decimal, i64_to_string};

verus! {

/// Global section of the proxy configuration; rows: user, worker processes,
/// worker connections.
pub const NGINX_HEADER: &'static str = "user {{{this.[0]}}};\nworker_processes {{{this.[1]}}};\n\nevents {\n    worker_connections {{{this.[2]}}};\n}\n\nhttp {\n";

/// Closes the `http` section.
pub const NGINX_FOOTER: &'static str = "}\n";

/// Server block of a plain-HTTP service; rows: domain, upstream host,
/// upstream port.
pub const SERVER_HTTP: &'static str = "    server {\n        listen 80;\n        server_name {{{this.[0]}}};\n\n        location /.well-known/acme-challenge/ {\n            root /var/www/certbot;\n        }\n\n        location / {\n            proxy_pass http://{{{this.[1]}}}:{{{this.[2]}}};\n        }\n    }\n";

/// Server block of a service served over both HTTP and HTTPS.
pub const SERVER_HTTPS: &'static str = "    server {\n        listen 80;\n        listen 443 ssl;\n        server_name {{{this.[0]}}};\n\n        ssl_certificate /etc/letsencrypt/live/{{{this.[0]}}}/fullchain.pem;\n        ssl_certificate_key /etc/letsencrypt/live/{{{this.[0]}}}/privkey.pem;\n\n        location /.well-known/acme-challenge/ {\n            root /var/www/certbot;\n        }\n\n        location / {\n            proxy_pass http://{{{this.[1]}}}:{{{this.[2]}}};\n        }\n    }\n";

/// Server blocks of a service whose plain-HTTP requests are redirected to
/// HTTPS.
pub const SERVER_HTTPS_REDIRECT: &'static str = "    server {\n        listen 80;\n        server_name {{{this.[0]}}};\n\n        location /.well-known/acme-challenge/ {\n            root /var/www/certbot;\n        }\n\n        location / {\n            return 301 https://$host$request_uri;\n        }\n    }\n\n    server {\n        listen 443 ssl;\n        server_name {{{this.[0]}}};\n\n        ssl_certificate /etc/letsencrypt/live/{{{this.[0]}}}/fullchain.pem;\n        ssl_certificate_key /etc/letsencrypt/live/{{{this.[0]}}}/privkey.pem;\n\n        location / {\n            proxy_pass http://{{{this.[1]}}}:{{{this.[2]}}};\n        }\n    }\n";

/// The value of the `k`-th data row, empty when there is none.
pub open spec fn row(data: Seq<Seq<char>>, k: int) -> Seq<char> {
    if 0 <= k < data.len() {
        data[k]
    } else {
        Seq::empty()
    }
}

/// `t` starts with a placeholder `{{{this.[k]}}}` for a one-digit `k`.
pub open spec fn starts_with_placeholder(t: Seq<char>) -> bool {
    &&& t.len() >= 14
    &&& t.subrange(0, 9) == "{{{this.["@
    &&& '0' <= t[9] <= '9'
    &&& t.subrange(10, 14) == "]}}}"@
}

/// The template with each placeholder `{{{this.[k]}}}` replaced by the
/// `k`-th row, verbatim.
pub open spec fn fill(t: Seq<char>, data: Seq<Seq<char>>) -> Seq<char>
    decreases t.len(),
{
    if t.len() == 0 {
        Seq::empty()
    } else if starts_with_placeholder(t) {
        row(data, t[9] as int - '0' as int) + fill(t.subrange(14, t.len() as int), data)
    } else {
        seq![t[0]] + fill(t.drop_first(), data)
    }
}

/// The templates of this library. Their only handlebars syntax is the
/// placeholder `{{{this.[k]}}}`: no partial, helper, escape or comment.
pub open spec fn known_template(t: Seq<char>) -> bool {
    t == NGINX_HEADER@ || t == SERVER_HTTP@ || t == SERVER_HTTPS@ || t == SERVER_HTTPS_REDIRECT@
}

/// Relies on `handlebars::Handlebars::render_template` on a registry made by
/// `Handlebars::new`, with a list of strings as the data: a triple-stash
/// `{{{this.[k]}}}` writes the `k`-th string unescaped, or nothing when
/// there is none, and the rest of these templates is copied as it stands.
#[verifier::external_body]
fn render_rows(template: &str, data: &Vec<String>) -> (r: Option<String>)
    requires
        known_template(template@),
    ensures
        r is Some,
        r->0@ == fill(template@, strings_view(data@)),
{
    handlebars::Handlebars::new().render_template(template, data).ok()
}

/// The data of the global section.
pub open spec fn header_rows(c: ConfModel) -> Seq<Seq<char>> {
    seq![c.nginx_user, decimal(c.nginx_worker_processes), decimal(c.nginx_worker_connections)]
}

/// The data of a server block: the proxy reaches the service by its image
/// name and container port on the shared network.
pub open spec fn block_rows(s: ServiceModel) -> Seq<Seq<char>> {
    seq![s.domain, s.image_name, decimal(s.image_port)]
}

/// The server-block variant that the service's TLS flags select: the
/// redirect variant, which also serves HTTPS, whenever `https_redirect` is
/// set; else the HTTPS variant when `https` is set; else plain HTTP.
pub open spec fn block_template(s: ServiceModel) -> Seq<char> {
    if s.https_redirect {
        SERVER_HTTPS_REDIRECT@
    } else if s.https {
        SERVER_HTTPS@
    } else {
        SERVER_HTTP@
    }
}

/// The pieces concatenated, or `None` when one of them is missing.
pub open spec fn concat_all(pieces: Seq<Option<Seq<char>>>) -> Option<Seq<char>>
    decreases pieces.len(),
{
    if pieces.len() == 0 {
        Some(Seq::empty())
    } else {
        match (concat_all(pieces.drop_last()), pieces.last()) {
            (Some(a), Some(b)) => Some(a + b),
            _ => None,
        }
    }
}

/// The rendered server block of each service, in registry order.
pub open spec fn rendered_blocks(services: Seq<ServiceModel>) -> Seq<Option<Seq<char>>> {
    services.map_values(|s: ServiceModel| Some(fill(block_template(s), block_rows(s))))
}

/// The server blocks of the services, one after another in registry order.
pub open spec fn blocks_text(services: Seq<ServiceModel>) -> Seq<char>
    decreases services.len(),
{
    if services.len() == 0 {
        Seq::empty()
    } else {
        blocks_text(services.drop_last()) + fill(block_template(services.last()), block_rows(services.last()))
    }
}

/// The proxy configuration of a registry: the global section, one server
/// block per registered service in registry order, the closing brace.
pub open spec fn conf_text(c: ConfModel) -> Seq<char> {
    fill(NGINX_HEADER@, header_rows(c)) + blocks_text(c.services) + NGINX_FOOTER@
}

proof fn lemma_blocks_concat(services: Seq<ServiceModel>)
    ensures
        concat_all(rendered_blocks(services)) == Some(blocks_text(services)),
    decreases services.len(),
{
    if services.len() > 0 {
        lemma_blocks_concat(services.drop_last());
        assert(rendered_blocks(services).drop_last() =~= rendered_blocks(services.drop_last()));
    }
}

/// The configuration assembled from a rendered global section and rendered
/// server blocks.
pub open spec fn assembled(header: Option<Seq<char>>, blocks: Seq<Option<Seq<char>>>) -> Option<Seq<char>> {
    match (header, concat_all(blocks)) {
        (Some(h), Some(b)) => Some(h + b + NGINX_FOOTER@),
        _ => None,
    }
}

/// The configuration assembled from the rendered pieces of a registry.
pub open spec fn rendered_conf(c: ConfModel) -> Option<Seq<char>> {
    assembled(Some(fill(NGINX_HEADER@, header_rows(c))), rendered_blocks(c.services))
}

pub open spec fn opt_strings(v: Seq<Option<String>>) -> Seq<Option<Seq<char>>> {
    v.map_values(|o: Option<String>| match o {
        Some(s) => Some(s@),
        None => None,
    })
}

/// Joins a rendered global section and rendered server blocks into the
/// configuration text; a `Render` error when any piece is missing.
pub fn assemble_nginx_conf(header: Option<String>, blocks: &Vec<Option<String>>) -> (r: Result<String, JinxError>)
    ensures
        match r {
            Ok(s) => assembled(
                match header {
                    Some(h) => Some(h@),
                    None => None,
                },
                opt_strings(blocks@),
            ) == Some(s@),
            Err(e) => e == JinxError::Render && assembled(
                match header {
                    Some(h) => Some(h@),
                    None => None,
                },
                opt_strings(blocks@),
            ) is None,
        },
{
    let mut body = String::new();
    let mut i: usize = 0;
    while i < blocks.len()
        invariant
            i <= blocks@.len(),
            concat_all(opt_strings(blocks@).subrange(0, i as int)) == Some(body@),
        decreases blocks.len() - i,
    {
        let ghost pre = opt_strings(blocks@).subrange(0, i as int);
        proof {
            assert(opt_strings(blocks@).subrange(0, i + 1).drop_last() =~= pre);
            assert(pre.len() == 0 ==> concat_all(pre) == Some(Seq::<char>::empty()));
        }
        match &blocks[i] {
            Some(b) => {
                body.append(b.as_str());
            },
            None => {
                proof {
                    lemma_concat_missing(opt_strings(blocks@), i as int);
                }
                return Err(JinxError::Render);
            },
        }
        i = i + 1;
    }
    proof {
        assert(opt_strings(blocks@).subrange(0, blocks@.len() as int) =~= opt_strings(blocks@));
    }
    match header {
        Some(h) => {
            let mut out = h;
            out.append(body.as_str());
            out.append(NGINX_FOOTER);
            Ok(out)
        },
        None => Err(JinxError::Render),
    }
}

proof fn lemma_concat_missing(pieces: Seq<Option<Seq<char>>>, i: int)
    requires
        0 <= i < pieces.len(),
        pieces[i] is None,
    ensures
        concat_all(pieces) is None,
    decreases pieces.len(),
{
    if i < pieces.len() - 1 {
        assert(pieces.drop_last()[i] == pieces[i]);
        lemma_concat_missing(pieces.drop_last(), i);
    }
}

/// The server-block variant for `s`.
fn server_template(s: &JinxService) -> (r: &'static str)
    ensures
        r@ == block_template(s@),
{
    if s.https_redirect {
        SERVER_HTTPS_REDIRECT
    } else if s.https {
        SERVER_HTTPS
    } else {
        SERVER_HTTP
    }
}

/// Renders the proxy configuration of the whole registry: the global section
/// from the tuning, then one server block per registered service in registry
/// order, each routing its domain to its image name and container port.
/// Rendering these templates does not fail.
pub fn render_template(conf: &JinxConf) -> (r: Result<String, JinxError>)
    ensures
        r is Ok,
        r->Ok_0@ == conf_text(conf@),
{
    let rows = vec![
        conf.nginx_user.clone(),
        i64_to_string(conf.nginx_worker_processes as i64),
        i64_to_string(conf.nginx_worker_connections as i64),
    ];
    assert(strings_view(rows@) =~= header_rows(conf@));
    let header = render_rows(NGINX_HEADER, &rows);
    let mut blocks: Vec<Option<String>> = Vec::new();
    let mut i: usize = 0;
    while i < conf.jinx_services.len()
        invariant
            i <= conf.jinx_services@.len(),
            blocks@.len() == i,
            opt_strings(blocks@) == rendered_blocks(conf@.services).subrange(0, i as int),
        decreases conf.jinx_services.len() - i,
    {
        let s = &conf.jinx_services[i];
        let data = vec![s.domain.clone(), s.image_name.clone(), i64_to_string(s.image_port)];
        assert(strings_view(data@) =~= block_rows(s@));
        let b = render_rows(server_template(s), &data);
        let ghost before = blocks@;
        blocks.push(b);
        proof {
            assert(conf@.services[i as int] == s@);
            assert(opt_strings(blocks@)[i as int] == rendered_blocks(conf@.services)[i as int]);
            assert forall|k: int| 0 <= k < i implies opt_strings(blocks@)[k] == opt_strings(before)[k] by {
                assert(blocks@[k] == before[k]);
            }
        }
        i = i + 1;
        assert(opt_strings(blocks@) =~= rendered_blocks(conf@.services).subrange(0, i as int));
    }
    assert(rendered_blocks(conf@.services).subrange(0, i as int) =~= rendered_blocks(conf@.services));
    proof {
        lemma_blocks_concat(conf@.services);
    }
    assemble_nginx_conf(header, &blocks)
}

/// Rendering is a function of the registry's value: two registries with
/// the same value render to the same text.
pub proof fn lemma_render_deterministic(a: ConfModel, b: ConfModel)
    requires
        a == b,
    ensures
        conf_text(a) == conf_text(b),
        rendered_conf(a) == Some(conf_text(a)),
{
    lemma_blocks_concat(a.services);
}

} // verus!

use vstd::prelude::*;
use vstd::string::*;
use crate::docker::{ContainerRun, container_name_of, run_image};
use crate::files::JinxFiles;
use crate::service::{cert_volumes, cert_volume_entries, strings_view};

verus! {

/// The image of the ACME client.
pub open spec fn certbot_image() -> Seq<char> {
    "certbot/certbot"@
}

/// The ACME client's arguments for `domain`: standalone HTTP-01, no
/// account e-mail, the domain and its `www.` name.
pub open spec fn certbot_args(domain: Seq<char>) -> Seq<Seq<char>> {
    seq![
        "certonly"@,
        "--register-unsafely-without-email"@,
        "--agree-tos"@,
        "--standalone"@,
        "-d"@,
        domain,
        "-d"@,
        "www."@ + domain,
    ]
}

/// The one-shot container that issues a certificate for `domain`: the ACME
/// client bound to host ports 80 and 443, with the certificate store and
/// webroot mounted.
pub fn run_letsencrypt_container(files: &JinxFiles, domain: &String) -> (r: ContainerRun)
    ensures
        r.name@ == container_name_of(certbot_image()),
        r.image@ == certbot_image(),
        strings_view(r.ports@) == seq!["80:80/tcp"@, "443:443/tcp"@],
        strings_view(r.volumes@) == cert_volumes(*files),
        r.env is None,
        r.cmd is Some && strings_view(r.cmd->0@) == certbot_args(domain@),
{
    let ports = vec![String::from_str("80:80/tcp"), String::from_str("443:443/tcp")];
    assert(strings_view(ports@) =~= seq!["80:80/tcp"@, "443:443/tcp"@]);
    let mut www = String::from_str("www.");
    www.append(domain.as_str());
    let cmd = vec![
        String::from_str("certonly"),
        String::from_str("--register-unsafely-without-email"),
        String::from_str("--agree-tos"),
        String::from_str("--standalone"),
        String::from_str("-d"),
        domain.clone(),
        String::from_str("-d"),
        www,
    ];
    assert(strings_view(cmd@) =~= certbot_args(domain@));
    run_image("certbot/certbot", ports, cert_volume_entries(files), None, Some(cmd))
}

} // verus!

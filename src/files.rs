use vstd::prelude::*;
use vstd::string::*;
use crate::error::JinxError;

verus! {

/// The fixed locations under the operator's home directory.
#[derive(Debug, Clone)]
pub struct JinxFiles {
    /// Directory that holds everything below.
    pub jinx_home: String,
    /// The registry file.
    pub jinx_conf: String,
    /// The generated reverse-proxy configuration.
    pub nginx_conf: String,
    /// Certificate store root, mounted at `/etc/letsencrypt`.
    pub letsencrypt_conf: String,
    /// Certificate webroot, mounted at `/var/www/certbot`.
    pub letsencrypt_www: String,
}

pub open spec fn home_of(home: Seq<char>) -> Seq<char> {
    home + "/.jinx"@
}

/// The locations derived from a home directory.
pub open spec fn files_for(f: JinxFiles, home: Seq<char>) -> bool {
    &&& f.jinx_home@ == home_of(home)
    &&& f.jinx_conf@ == home_of(home) + "/jinx_conf.json"@
    &&& f.nginx_conf@ == home_of(home) + "/nginx.conf"@
    &&& f.letsencrypt_conf@ == home_of(home) + "/letsencrypt/conf"@
    &&& f.letsencrypt_www@ == home_of(home) + "/letsencrypt/www"@
}

/// Relies on `dirs::home_dir`: the current user's home directory, when the
/// platform can tell it.
#[verifier::external_body]
fn home_dir() -> (r: Option<String>) {
    match dirs::home_dir() {
        Some(p) => Some(p.display().to_string()),
        None => None,
    }
}

fn joined(base: &String, tail: &str) -> (r: String)
    ensures
        r@ == base@ + tail@,
{
    let mut r = base.clone();
    r.append(tail);
    r
}

/// The locations under `home`.
pub fn jinx_files_for_home(home: &String) -> (r: JinxFiles)
    ensures
        files_for(r, home@),
{
    let jinx_home = joined(home, "/.jinx");
    JinxFiles {
        jinx_conf: joined(&jinx_home, "/jinx_conf.json"),
        nginx_conf: joined(&jinx_home, "/nginx.conf"),
        letsencrypt_conf: joined(&jinx_home, "/letsencrypt/conf"),
        letsencrypt_www: joined(&jinx_home, "/letsencrypt/www"),
        jinx_home,
    }
}

/// The locations under `home`; `Environment` when there is no home
/// directory.
pub fn jinx_files_from_home(home: Option<String>) -> (r: Result<JinxFiles, JinxError>)
    ensures
        match home {
            Some(h) => r is Ok && files_for(r->Ok_0, h@),
            None => r == Err::<JinxFiles, JinxError>(JinxError::Environment),
        },
{
    match home {
        Some(h) => Ok(jinx_files_for_home(&h)),
        None => Err(JinxError::Environment),
    }
}

/// The locations under the current user's home directory; fails with
/// `Environment` when the home directory cannot be determined.
pub fn get_jinx_files() -> (r: Result<JinxFiles, JinxError>)
    ensures
        r is Err ==> r == Err::<JinxFiles, JinxError>(JinxError::Environment),
        r is Ok ==> exists|home: Seq<char>| #[trigger] files_for(r->Ok_0, home),
{
    let home = home_dir();
    let ghost h = home;
    let r = jinx_files_from_home(home);
    proof {
        if let Some(x) = h {
            assert(files_for(r->Ok_0, x@));
        }
    }
    r
}

/// Path of the build-context archive of the service `name`.
pub fn tar_path(files: &JinxFiles, name: &String) -> (r: String)
    ensures
        r@ == files.jinx_home@ + "/"@ + name@ + ".jinx.tar.gz"@,
{
    let mut r = joined(&files.jinx_home, "/");
    r.append(name.as_str());
    r.append(".jinx.tar.gz");
    r
}

} // verus!

//! The bootstrap protocol: resolve credentials, propagate them to the cache
//! host, derive the namespace, negotiate the configuration, and plan the
//! push session.
//!
//! Every step here is a decision on plain values.  The surrounding program
//! reads the credential file, queries the two servers and builds the real
//! session; it feeds each result into the next stage below and performs
//! exactly what the returned values call for.

use vstd::prelude::*;

use crate::error::Error;
use crate::json::{lookup_field, parse_json_object, spec_json_object, spec_lookup};
use crate::netrc::{
    append_line, has_host, spec_append_line, spec_has_host, EntryModel, NetrcEntry,
};
use crate::text::str_eq;
use crate::uuid::{canonical_uuid, spec_canon_uuid};

verus! {

/// The user-agent string both servers are addressed with.
pub const USER_AGENT: &'static str = "magic-nix-cache";

/// A server URL as the bootstrap reads it: its full text and its host
/// component, if it has one.  The caller derives both from one parsed URL.
#[derive(Debug, Clone)]
pub struct ServerUrl {
    pub text: String,
    pub host: Option<String>,
}

/// The model of a server URL.
pub ghost struct UrlModel {
    pub text: Seq<char>,
    pub host: Option<Seq<char>>,
}

impl View for ServerUrl {
    type V = UrlModel;

    open spec fn view(&self) -> UrlModel {
        UrlModel { text: self.text@, host: self.host.deep_view() }
    }
}

/// The identity resolved from the credential file: a login and the secret
/// used against both servers.
#[derive(Debug, Clone)]
pub struct Credentials {
    pub login: String,
    pub password: String,
}

/// The first entry whose host name equals `host` (a `default` entry matches
/// a URL without a host).
pub open spec fn spec_find_entry(entries: Seq<EntryModel>, host: Option<Seq<char>>) -> Option<
    EntryModel,
>
    decreases entries.len(),
{
    if entries.len() == 0 {
        None
    } else if entries[0].name == host {
        Some(entries[0])
    } else {
        spec_find_entry(entries.skip(1), host)
    }
}

/// The error text for an entry without a login.
pub open spec fn login_missing_message(url: Seq<char>) -> Seq<char> {
    "netrc file does not contain a login for '"@ + url + "'"@
}

/// The error text for an entry without a password.
pub open spec fn password_missing_message(url: Seq<char>) -> Seq<char> {
    "netrc file does not contain a password for '"@ + url + "'"@
}

/// Whether both Option values hold equal strings, or both are absent.
fn opt_str_eq(a: &Option<String>, b: &Option<String>) -> (r: bool)
    ensures
        r == (a.deep_view() == b.deep_view()),
{
    match (a, b) {
        (Option::None, Option::None) => true,
        (Option::Some(x), Option::Some(y)) => str_eq(x.as_str(), y.as_str()),
        _ => false,
    }
}

/// Resolves the identity for the metadata server: the first credential
/// entry for its host must exist and carry both a login and a password.
pub fn resolve_credentials(entries: &Vec<NetrcEntry>, api_server: &ServerUrl) -> (r: Result<
    Credentials,
    Error,
>)
    ensures
        match spec_find_entry(entries.deep_view(), api_server@.host) {
            None => r matches Err(Error::MissingCreds { url }) && url@ == api_server@.text,
            Some(entry) => {
                if entry.login is None {
                    r matches Err(Error::Config { message }) && message@ == login_missing_message(
                        api_server@.text,
                    )
                } else if entry.password is None {
                    r matches Err(Error::Config { message }) && message@
                        == password_missing_message(api_server@.text)
                } else {
                    r matches Ok(c) && Some(c.login@) == entry.login && Some(c.password@)
                        == entry.password
                }
            },
        },
{
    let ghost ev = entries.deep_view();
    let ghost host = api_server@.host;
    let len = entries.len();
    let mut i: usize = 0;
    proof {
        assert(ev.skip(0) =~= ev);
    }
    while i < len
        invariant
            ev == entries.deep_view(),
            host == api_server@.host,
            len == entries@.len(),
            i <= len,
            spec_find_entry(ev.skip(i as int), host) == spec_find_entry(ev, host),
        decreases len - i,
    {
        let ghost rest = ev.skip(i as int);
        proof {
            assert(rest[0] == ev[i as int]);
            assert(rest.skip(1) =~= ev.skip(i as int + 1));
        }
        let entry = &entries[i];
        if opt_str_eq(&entry.name, &api_server.host) {
            match (&entry.login, &entry.password) {
                (Option::Some(login), Option::Some(password)) => {
                    return Ok(
                        Credentials { login: login.clone(), password: password.clone() },
                    );
                },
                (Option::None, _) => {
                    let mut m = String::from_str("netrc file does not contain a login for '");
                    m.append(api_server.text.as_str());
                    m.append("'");
                    proof {
                        assert(m@ =~= login_missing_message(api_server@.text));
                    }
                    return Err(Error::Config { message: m });
                },
                (Option::Some(_), Option::None) => {
                    let mut m = String::from_str("netrc file does not contain a password for '");
                    m.append(api_server.text.as_str());
                    m.append("'");
                    proof {
                        assert(m@ =~= password_missing_message(api_server@.text));
                    }
                    return Err(Error::Config { message: m });
                },
            }
        }
        i = i + 1;
    }
    proof {
        assert(ev.skip(len as int) =~= Seq::<EntryModel>::empty());
    }
    Err(Error::MissingCreds { url: api_server.text.clone() })
}

/// Plans the propagation of the resolved credentials to the cache server's
/// host: no write if an entry exists, otherwise exactly one appended line.
/// A cache URL without a host is a bad URL.
pub fn plan_cache_credentials(
    entries: &Vec<NetrcEntry>,
    cache_server: &ServerUrl,
    creds: &Credentials,
) -> (r: Result<Option<String>, Error>)
    ensures
        match cache_server@.host {
            None => r matches Err(Error::BadUrl { url }) && url@ == cache_server@.text,
            Some(h) => r matches Ok(opt) && (spec_has_host(entries.deep_view(), h) <==> opt
                is None) && (opt matches Some(line) ==> line@ == spec_append_line(
                h,
                creds.login@,
                creds.password@,
            )),
        },
{
    match &cache_server.host {
        Option::None => Err(Error::BadUrl { url: cache_server.text.clone() }),
        Option::Some(h) => {
            if has_host(entries, h.as_str()) {
                Ok(None)
            } else {
                Ok(
                    Some(
                        append_line(h.as_str(), creds.login.as_str(), creds.password.as_str()),
                    ),
                )
            }
        },
    }
}

/// `rel` resolved against a base URL text, with exactly one slash at the
/// seam.
pub open spec fn spec_join(base: Seq<char>, rel: Seq<char>) -> Seq<char> {
    if base.len() > 0 && base[base.len() - 1] == '/' {
        base + rel
    } else {
        base + "/"@ + rel
    }
}

/// Joins a path onto a base URL text, as `spec_join` describes.
pub fn join_url(base: &str, rel: &str) -> (r: String)
    ensures
        r@ == spec_join(base@, rel@),
{
    let len = base.unicode_len();
    let mut r = String::from_str(base);
    if len == 0 || base.get_char(len - 1) != '/' {
        r.append("/");
    }
    r.append(rel);
    proof {
        assert(r@ =~= spec_join(base@, rel@));
    }
    r
}

/// The metadata server's project endpoint for the caller's project
/// identifier; an absent identifier is a configuration error, before any
/// request is formed.
pub fn project_endpoint(api_server: &ServerUrl, project: &Option<String>) -> (r: Result<
    String,
    Error,
>)
    ensures
        match project.deep_view() {
            None => r matches Err(Error::Config { message }) && message@
                == "GITHUB_REPOSITORY environment variable is not set"@,
            Some(p) => r matches Ok(url) && url@ == spec_join(api_server@.text, "project/"@ + p),
        },
{
    match project {
        Option::None => Err(
            Error::Config {
                message: String::from_str("GITHUB_REPOSITORY environment variable is not set"),
            },
        ),
        Option::Some(p) => {
            let mut rel = String::from_str("project/");
            rel.append(p.as_str());
            Ok(join_url(api_server.text.as_str(), rel.as_str()))
        },
    }
}

/// The error for a success body that is no project record.
fn project_decode_error() -> (e: Error)
    ensures
        e matches Error::Decode { message } && message@ == "could not decode project metadata"@,
{
    Error::Decode { message: String::from_str("could not decode project metadata") }
}

/// The error for a failure body that carries no structured error.
fn config_decode_error() -> (e: Error)
    ensures
        e matches Error::Decode { message } && message@ == "could not decode cache API error"@,
{
    Error::Decode { message: String::from_str("could not decode cache API error") }
}

/// A success status, as HTTP counts one.
pub open spec fn spec_is_success(status: u16) -> bool {
    200 <= status < 300
}

/// The namespace a project record names: the canonical organization UUID,
/// a colon, the canonical project UUID — or `None` where the body is no
/// such record.
pub open spec fn spec_project_namespace(body: Seq<char>) -> Option<Seq<char>> {
    match spec_json_object(body) {
        None => None,
        Some(fields) => match (
            spec_lookup(fields, "organization_uuid_v7"@),
            spec_lookup(fields, "project_uuid_v7"@),
        ) {
            (Some(o), Some(p)) => match (spec_canon_uuid(o), spec_canon_uuid(p)) {
                (Some(co), Some(cp)) => Some(co + ":"@ + cp),
                _ => None,
            },
            _ => None,
        },
    }
}

/// Decodes the metadata server's reply to the project lookup.  A
/// non-success status carries the status and body verbatim; a success body
/// must name the two UUIDs, and yields the namespace.
pub fn decode_project_response(status: u16, body: &str) -> (r: Result<String, Error>)
    ensures
        !spec_is_success(status) ==> (r matches Err(Error::GetCacheName { status: st, body: b })
            && st == status && b@ == body@),
        spec_is_success(status) ==> match spec_project_namespace(body@) {
            Some(ns) => r matches Ok(n) && n@ == ns,
            None => r matches Err(Error::Decode { message }) && message@
                == "could not decode project metadata"@,
        },
{
    if !(200 <= status && status < 300) {
        return Err(Error::GetCacheName { status, body: body.to_owned() });
    }
    match parse_json_object(body) {
        Option::None => Err(project_decode_error()),
        Option::Some(fields) => {
            let org = match lookup_field(&fields, "organization_uuid_v7") {
                Option::Some(v) => v,
                Option::None => {
                    return Err(project_decode_error());
                },
            };
            let project = match lookup_field(&fields, "project_uuid_v7") {
                Option::Some(v) => v,
                Option::None => {
                    return Err(project_decode_error());
                },
            };
            let org_c = match canonical_uuid(org.as_str()) {
                Option::Some(c) => c,
                Option::None => {
                    return Err(project_decode_error());
                },
            };
            let project_c = match canonical_uuid(project.as_str()) {
                Option::Some(c) => c,
                Option::None => {
                    return Err(project_decode_error());
                },
            };
            let mut ns = org_c;
            ns.append(":");
            ns.append(project_c.as_str());
            proof {
                assert(ns@ =~= spec_project_namespace(body@)->Some_0);
            }
            Ok(ns)
        },
    }
}

/// The cache server's configuration endpoint for a namespace.
pub fn cache_config_endpoint(cache_server: &ServerUrl, namespace: &str) -> (r: String)
    ensures
        r@ == spec_join(cache_server@.text, "_api/v1/cache-config/"@ + namespace@),
{
    let mut rel = String::from_str("_api/v1/cache-config/");
    rel.append(namespace);
    join_url(cache_server.text.as_str(), rel.as_str())
}

/// The structured error the cache server answers failures with: its `error`
/// and `message` fields.
pub open spec fn spec_api_error(body: Seq<char>) -> Option<(Seq<char>, Seq<char>)> {
    match spec_json_object(body) {
        None => None,
        Some(fields) => match (spec_lookup(fields, "error"@), spec_lookup(fields, "message"@)) {
            (Some(e), Some(m)) => Some((e, m)),
            _ => None,
        },
    }
}

/// Decodes the cache server's reply to the configuration request.  A
/// success body is the configuration, kept verbatim for the session layer;
/// a failure must carry the structured error, which is preserved as
/// decoded rather than flattened into a raw HTTP failure.
pub fn decode_cache_config_response(status: u16, body: &str) -> (r: Result<String, Error>)
    ensures
        spec_is_success(status) ==> (r matches Ok(cfg) && cfg@ == body@),
        !spec_is_success(status) ==> match spec_api_error(body@) {
            Some(pair) => r matches Err(Error::Api { status: st, error, message }) && st == status
                && error@ == pair.0 && message@ == pair.1,
            None => r matches Err(Error::Decode { message }) && message@
                == "could not decode cache API error"@,
        },
{
    if 200 <= status && status < 300 {
        return Ok(body.to_owned());
    }
    match parse_json_object(body) {
        Option::None => Err(config_decode_error()),
        Option::Some(fields) => {
            let error = match lookup_field(&fields, "error") {
                Option::Some(v) => v,
                Option::None => {
                    return Err(config_decode_error());
                },
            };
            let message = match lookup_field(&fields, "message") {
                Option::Some(v) => v,
                Option::None => {
                    return Err(config_decode_error());
                },
            };
            Err(Error::Api { status, error, message })
        },
    }
}

/// The fixed policy and the negotiated pieces the push session is built
/// from.  The caller hands this to the session layer unchanged.
#[derive(Debug, Clone)]
pub struct SessionPlan {
    /// The cache server URL the API client binds to, also the substituter.
    pub endpoint: String,
    /// The bearer token: the resolved secret.
    pub token: String,
    /// The namespace the session pushes into.
    pub namespace: String,
    /// The negotiated configuration, verbatim as the server sent it.
    pub config: String,
    /// The fixed worker count.
    pub num_workers: usize,
    pub force_preamble: bool,
    pub no_closure: bool,
    pub ignore_upstream_cache_filter: bool,
}

/// Combines the resolved identity, namespace and configuration with the
/// fixed concurrency policy: five workers, no forced preamble, closure
/// expansion on, upstream-cache filtering kept.
pub fn build_session_plan(
    cache_server: &ServerUrl,
    creds: &Credentials,
    namespace: String,
    config: String,
) -> (p: SessionPlan)
    ensures
        p.endpoint@ == cache_server@.text,
        p.token@ == creds.password@,
        p.namespace == namespace,
        p.config == config,
        p.num_workers == 5,
        !p.force_preamble,
        !p.no_closure,
        !p.ignore_upstream_cache_filter,
{
    SessionPlan {
        endpoint: cache_server.text.clone(),
        token: creds.password.clone(),
        namespace,
        config,
        num_workers: 5,
        force_preamble: false,
        no_closure: false,
        ignore_upstream_cache_filter: false,
    }
}

/// The text of the authorization header the cache server is addressed
/// with.
pub open spec fn spec_bearer_header(secret: Seq<char>) -> Seq<char> {
    "Bearer "@ + secret
}

/// Projects the resolved identity onto the bearer scheme: the header value
/// for the cache server.
pub fn bearer_header(creds: &Credentials) -> (r: String)
    ensures
        r@ == spec_bearer_header(creds.password@),
{
    let mut r = String::from_str("Bearer ");
    r.append(creds.password.as_str());
    proof {
        assert(r@ =~= spec_bearer_header(creds.password@));
    }
    r
}

/// Projects the resolved identity onto the basic scheme: the login and
/// password pair for the metadata server.
pub fn basic_auth(creds: &Credentials) -> (r: (String, String))
    ensures
        r.0@ == creds.login@,
        r.1@ == creds.password@,
{
    (creds.login.clone(), creds.password.clone())
}

} // verus!

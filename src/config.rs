//! Settings of the servers.
use vstd::prelude::*;
use crate::gz_config::pair_views;
use crate::number::{parse_i64, parse_usize, parsed_i64, parsed_usize};
use crate::text::str_eq;

verus! {

/// Settings of the servers, each with a default.
#[derive(Debug)]
pub struct Config {
    pub log_file: String,
    pub ui_bind_http_address: String,
    pub ui_bind_https_address: String,
    pub exec_bind_address: String,
    pub vminfo_bind_address: String,
    pub request_body_max_bytes: usize,
    pub chroot: String,
    pub shadow_path: String,
    pub gz_config_path: String,
    pub login_user: String,
    pub exec_cache_seconds: i64,
    pub skip_privilege_drop: bool,
    pub cert_file: String,
    pub key_file: String,
}

/// The default limit on the size of a request body, in bytes.
pub const REQ_MAX_BYTES: usize = 8388608;

/// The default time that tool output stays cached, in seconds.
pub const EXEC_CACHE_SECONDS: i64 = 300;

/// The value of the first variable named `name` in `vars`.
pub open spec fn lookup_var(vars: Seq<(Seq<char>, Seq<char>)>, name: Seq<char>) -> Option<
    Seq<char>,
>
    decreases vars.len(),
{
    if vars.len() == 0 {
        None
    } else if vars[0].0 == name {
        Some(vars[0].1)
    } else {
        lookup_var(vars.drop_first(), name)
    }
}

/// The value of variable `name`, or `default` when it is not set.
pub open spec fn var_or(vars: Seq<(Seq<char>, Seq<char>)>, name: Seq<char>, default: Seq<char>) -> Seq<
    char,
> {
    match lookup_var(vars, name) {
        Some(v) => v,
        None => default,
    }
}

/// The request body limit that the variables give.
pub open spec fn body_limit(vars: Seq<(Seq<char>, Seq<char>)>) -> usize {
    match lookup_var(vars, "REQ_MAX_BYTES"@) {
        Some(v) => match parsed_usize(v) {
            Some(n) => n,
            None => REQ_MAX_BYTES,
        },
        None => REQ_MAX_BYTES,
    }
}

/// The cache TTL that the variables give.
pub open spec fn cache_seconds(vars: Seq<(Seq<char>, Seq<char>)>) -> i64 {
    match lookup_var(vars, "EXEC_CACHE"@) {
        Some(v) => match parsed_i64(v) {
            Some(n) => n,
            None => EXEC_CACHE_SECONDS,
        },
        None => EXEC_CACHE_SECONDS,
    }
}

/// The value of the first variable named `name`.
pub fn env_value(vars: &Vec<(String, String)>, name: &str) -> (r: Option<String>)
    ensures
        opt_str_view(r) == lookup_var(pair_views(vars@), name@),
{
    let ghost all = pair_views(vars@);
    let mut i: usize = 0;
    assert(all.subrange(0, all.len() as int) =~= all);
    while i < vars.len()
        invariant
            all == pair_views(vars@),
            i <= vars@.len(),
            lookup_var(all, name@) == lookup_var(all.subrange(i as int, all.len() as int), name@),
        decreases vars@.len() - i,
    {
        let ghost rest = all.subrange(i as int, all.len() as int);
        assert(rest[0] == (vars@[i as int].0@, vars@[i as int].1@));
        if str_eq(vars[i].0.as_str(), name) {
            return Some(vars[i].1.clone());
        }
        assert(rest.drop_first() =~= all.subrange(i + 1, all.len() as int));
        i = i + 1;
    }
    None
}

pub open spec fn opt_str_view(o: Option<String>) -> Option<Seq<char>> {
    match o {
        Some(s) => Some(s@),
        None => None,
    }
}

/// The value of variable `name`, or `default`.
fn value_or(vars: &Vec<(String, String)>, name: &str, default: &str) -> (r: String)
    ensures
        r@ == var_or(pair_views(vars@), name@, default@),
{
    match env_value(vars, name) {
        Some(v) => v,
        None => String::from_str(default),
    }
}

impl Config {
    /// The settings that the environment variables `vars` give to the
    /// program `name`; each one that is unset, or that does not parse, takes
    /// its default.
    pub fn new(name: &str, vars: &Vec<(String, String)>) -> (r: Config)
        ensures
            r.log_file@ == var_or(pair_views(vars@), "LOG_FILE"@, "/var/log/"@ + name@ + ".log"@),
            r.ui_bind_http_address@ == var_or(
                pair_views(vars@),
                "UI_BIND_HTTP_ADDRESS"@,
                "127.0.0.1:8080"@,
            ),
            r.ui_bind_https_address@ == var_or(
                pair_views(vars@),
                "UI_BIND_HTTPS_ADDRESS"@,
                "127.0.0.1:4443"@,
            ),
            r.exec_bind_address@ == var_or(pair_views(vars@), "EXEC_BIND_ADDRESS"@, "127.0.0.1:8081"@),
            r.vminfo_bind_address@ == var_or(
                pair_views(vars@),
                "VMINFO_BIND_ADDRESS"@,
                "127.0.0.1:9090"@,
            ),
            r.request_body_max_bytes == body_limit(pair_views(vars@)),
            r.chroot@ == var_or(pair_views(vars@), "CHROOT"@, "/opt/smartos_ui"@),
            r.shadow_path@ == var_or(pair_views(vars@), "SHADOW_PATH"@, "/etc/shadow"@),
            r.gz_config_path@ == var_or(pair_views(vars@), "GZ_CONFIG_PATH"@, "/usbkey/config"@),
            r.login_user@ == var_or(pair_views(vars@), "LOGIN_USER"@, "root"@),
            r.exec_cache_seconds == cache_seconds(pair_views(vars@)),
            r.skip_privilege_drop == (lookup_var(pair_views(vars@), "SKIP_PRIVILEGE_DROP"@) matches Some(
                v,
            ) && v.len() > 0),
            r.cert_file@ == var_or(
                pair_views(vars@),
                "CERT_FILE"@,
                "/usbkey/tls/smartos_ui_cert.pem"@,
            ),
            r.key_file@ == var_or(pair_views(vars@), "KEY_FILE"@, "/usbkey/tls/smartos_ui_key.pem"@),
    {
        let skip_privilege_drop = match env_value(vars, "SKIP_PRIVILEGE_DROP") {
            Some(v) => v.as_str().unicode_len() > 0,
            None => false,
        };
        let default_log = String::from_str("/var/log/").concat(name).concat(".log");
        let log_file = match env_value(vars, "LOG_FILE") {
            Some(v) => v,
            None => default_log,
        };
        let request_body_max_bytes = match env_value(vars, "REQ_MAX_BYTES") {
            Some(v) => match parse_usize(v.as_str()) {
                Some(n) => n,
                None => REQ_MAX_BYTES,
            },
            None => REQ_MAX_BYTES,
        };
        let exec_cache_seconds = match env_value(vars, "EXEC_CACHE") {
            Some(v) => match parse_i64(v.as_str()) {
                Some(n) => n,
                None => EXEC_CACHE_SECONDS,
            },
            None => EXEC_CACHE_SECONDS,
        };
        Config {
            log_file,
            ui_bind_http_address: value_or(vars, "UI_BIND_HTTP_ADDRESS", "127.0.0.1:8080"),
            ui_bind_https_address: value_or(vars, "UI_BIND_HTTPS_ADDRESS", "127.0.0.1:4443"),
            exec_bind_address: value_or(vars, "EXEC_BIND_ADDRESS", "127.0.0.1:8081"),
            vminfo_bind_address: value_or(vars, "VMINFO_BIND_ADDRESS", "127.0.0.1:9090"),
            request_body_max_bytes,
            chroot: value_or(vars, "CHROOT", "/opt/smartos_ui"),
            shadow_path: value_or(vars, "SHADOW_PATH", "/etc/shadow"),
            gz_config_path: value_or(vars, "GZ_CONFIG_PATH", "/usbkey/config"),
            login_user: value_or(vars, "LOGIN_USER", "root"),
            exec_cache_seconds,
            skip_privilege_drop,
            cert_file: value_or(vars, "CERT_FILE", "/usbkey/tls/smartos_ui_cert.pem"),
            key_file: value_or(vars, "KEY_FILE", "/usbkey/tls/smartos_ui_key.pem"),
        }
    }
}

} // verus!

//! The browser's settings: the SSH servers it knows, the local roots it
//! scans, and its colour scheme; plus the decisions drawn from them (which
//! roots to scan, how to authenticate, what a filled-in server form holds).
use vstd::prelude::*;
use vstd::string::*;
use crate::path::{path_join, path_join_of};
use crate::text::{
    chars_of, contains_text, parse_u16, parse_u16_text, starts_with_text, string_from_chars,
    text_contains, text_starts_with,
};
use crate::theme::ColorScheme;

verus! {

broadcast use vstd::string::group_string_axioms;

/// One SSH server the user has added.
#[derive(Debug)]
pub struct ServerConfig {
    pub name: String,
    pub host: String,
    pub port: u16,
    pub username: String,
    pub password: Option<String>,
    pub key_path: Option<String>,
}

/// The saved settings.
#[derive(Debug)]
pub struct AppConfig {
    pub servers: Vec<ServerConfig>,
    pub local_paths: Option<Vec<String>>,
    pub color_scheme: Option<ColorScheme>,
}

impl Default for AppConfig {
    fn default() -> (r: AppConfig)
        ensures
            r.servers@.len() == 0,
            r.local_paths is None,
            r.color_scheme is None,
    {
        AppConfig { servers: Vec::new(), local_paths: None, color_scheme: None }
    }
}

/// The views of a list of strings.
pub open spec fn string_views(v: Seq<String>) -> Seq<Seq<char>> {
    v.map_values(|s: String| s@)
}

/// The roots scanned for local logs: the configured ones, or else
/// `/var/log`, `/var/www`, `/opt` and, when known, the home directory.
pub open spec fn scan_roots_of(local_paths: Option<Seq<Seq<char>>>, home: Option<Seq<char>>) -> Seq<
    Seq<char>,
> {
    match local_paths {
        Some(p) => p,
        None => {
            let defaults = seq!["/var/log"@, "/var/www"@, "/opt"@];
            match home {
                Some(h) => defaults.push(h),
                None => defaults,
            }
        },
    }
}

/// A copy of a list of strings.
pub fn copy_strings(v: &Vec<String>) -> (r: Vec<String>)
    ensures
        string_views(r@) == string_views(v@),
{
    let mut r: Vec<String> = Vec::new();
    for i in 0..v.len()
        invariant
            string_views(r@) == string_views(v@).take(i as int),
    {
        let ghost before = string_views(r@);
        r.push(v[i].clone());
        proof {
            assert(string_views(v@).take(i + 1) =~= before.push(v@[i as int]@));
            assert(string_views(r@) =~= before.push(v@[i as int]@));
        }
    }
    proof {
        assert(string_views(v@).take(v.len() as int) =~= string_views(v@));
    }
    r
}

/// The roots to scan for local logs (see `scan_roots_of`); `home` is the
/// user's home directory when it is known and valid text.
pub fn scan_roots(config: &AppConfig, home: Option<String>) -> (r: Vec<String>)
    ensures
        string_views(r@) == scan_roots_of(
            match config.local_paths {
                Some(p) => Some(string_views(p@)),
                None => None,
            },
            match home {
                Some(h) => Some(h@),
                None => None,
            },
        ),
{
    match &config.local_paths {
        Some(p) => copy_strings(p),
        None => {
            let mut r: Vec<String> = Vec::new();
            r.push(String::from_str("/var/log"));
            r.push(String::from_str("/var/www"));
            r.push(String::from_str("/opt"));
            match home {
                Some(h) => {
                    r.push(h);
                    proof {
                        assert(string_views(r@) =~= seq!["/var/log"@, "/var/www"@, "/opt"@].push(
                            h@,
                        ));
                    }
                },
                None => {
                    proof {
                        assert(string_views(r@) =~= seq!["/var/log"@, "/var/www"@, "/opt"@]);
                    }
                },
            }
            r
        },
    }
}

// ---------------------------------------------------------------------------
// Authentication
// ---------------------------------------------------------------------------

/// How to log in to a server.
#[derive(Debug)]
pub enum AuthMethod {
    /// A private key file, with the configured password as its passphrase.
    KeyFile { path: String, passphrase: Option<String> },
    /// The configured password.
    Password(String),
    /// The running SSH agent.
    Agent,
}

/// The key file path used for `key`: a leading `~/` is replaced by the home
/// directory (joined as `Path::join` does) when that is known.
pub open spec fn expanded_key_path(key: Seq<char>, home: Option<Seq<char>>) -> Seq<char> {
    if starts_with_text(key, seq!['~', '/']) {
        match home {
            Some(h) => path_join_of(h, key.subrange(2, key.len() as int)),
            None => key,
        }
    } else {
        key
    }
}

/// Expands a leading `~/` in a key path.
pub fn expand_key_path(key: &str, home: &Option<String>) -> (r: String)
    ensures
        r@ == expanded_key_path(
            key@,
            match home {
                Some(h) => Some(h@),
                None => None,
            },
        ),
{
    proof {
        reveal_strlit("~/");
        assert("~/"@ =~= seq!['~', '/']);
    }
    if text_starts_with(key, "~/") {
        match home {
            Some(h) => {
                let cs = chars_of(key);
                let rest = string_from_chars(&cs.as_slice()[2..cs.len()]);
                path_join(h.as_str(), rest.as_str())
            },
            None => String::from_str(key),
        }
    } else {
        String::from_str(key)
    }
}

/// The login method chosen for a server: its key file when one is set,
/// else its password when one is set, else the SSH agent.
pub fn auth_method(config: &ServerConfig, home: &Option<String>) -> (r: AuthMethod)
    ensures
        match config.key_path {
            Some(k) => r matches AuthMethod::KeyFile { path, passphrase } && path@
                == expanded_key_path(
                k@,
                match home {
                    Some(h) => Some(h@),
                    None => None,
                },
            ) && passphrase == config.password,
            None => match config.password {
                Some(p) => r == AuthMethod::Password(p),
                None => r is Agent,
            },
        },
{
    match &config.key_path {
        Some(k) => AuthMethod::KeyFile {
            path: expand_key_path(k.as_str(), home),
            passphrase: config.password.clone(),
        },
        None => match &config.password {
            Some(p) => AuthMethod::Password(p.clone()),
            None => AuthMethod::Agent,
        },
    }
}

// ---------------------------------------------------------------------------
// The "add server" form
// ---------------------------------------------------------------------------

/// The port a form's port text gives: the parsed number, or 22.
pub open spec fn form_port(text: Seq<char>) -> u16 {
    match parse_u16_text(text) {
        Some(p) => p,
        None => 22,
    }
}

/// The last form field holds a password unless it looks like a path
/// (contains `/` or `~`).
pub open spec fn looks_like_password(auth: Seq<char>) -> bool {
    !contains_text(auth, seq!['/']) && !contains_text(auth, seq!['~'])
}

/// The server a filled-in form describes; `fields` are, in order, the name,
/// host, port, user name and password-or-key-path texts.
pub open spec fn form_server_ok(fields: Seq<Seq<char>>, s: ServerConfig) -> bool {
    let auth = fields[4];
    &&& s.name@ == fields[0]
    &&& s.host@ == fields[1]
    &&& s.port == form_port(fields[2])
    &&& s.username@ == fields[3]
    &&& (if looks_like_password(auth) && auth.len() > 0 {
        s.password matches Some(p) && p@ == auth
    } else {
        s.password is None
    })
    &&& (if !looks_like_password(auth) && auth.len() > 0 {
        s.key_path matches Some(k) && k@ == auth
    } else {
        s.key_path is None
    })
}

/// Builds the server described by the five form field texts.
pub fn server_from_form(
    name: &str,
    host: &str,
    port: &str,
    username: &str,
    auth: &str,
) -> (r: ServerConfig)
    ensures
        form_server_ok(seq![name@, host@, port@, username@, auth@], r),
{
    proof {
        reveal_strlit("/");
        reveal_strlit("~");
        assert("/"@ =~= seq!['/']);
        assert("~"@ =~= seq!['~']);
    }
    let port = match parse_u16(port) {
        Some(p) => p,
        None => 22,
    };
    let is_pwd = !text_contains(auth, "/") && !text_contains(auth, "~");
    let empty = auth.is_empty();
    let password = if is_pwd && !empty {
        Some(String::from_str(auth))
    } else {
        None
    };
    let key_path = if !is_pwd && !empty {
        Some(String::from_str(auth))
    } else {
        None
    };
    ServerConfig {
        name: String::from_str(name),
        host: String::from_str(host),
        port,
        username: String::from_str(username),
        password,
        key_path,
    }
}

} // verus!

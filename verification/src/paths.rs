//! Where configuration files live: the process environment that decides it,
//! and joining path components the way `PathBuf::join` does.

use vstd::prelude::*;
use crate::text::{concat, owned, push_char};

verus! {

broadcast use vstd::string::group_string_axioms;

/// The environment variables that decide file locations.
#[derive(Debug)]
pub struct Environment {
    /// `XDG_CONFIG_HOME`, where set.
    pub xdg_config_home: Option<String>,
    /// `HOME`, where set.
    pub home: Option<String>,
    /// `XDG_DATA_DIRS`, where set.
    pub xdg_data_dirs: Option<String>,
}

/// `base` joined with a relative component: a `/` goes between them unless
/// `base` is empty or already ends with one.
pub open spec fn join(base: Seq<char>, comp: Seq<char>) -> Seq<char> {
    if base.len() == 0 || base.last() == '/' {
        base + comp
    } else {
        base + seq!['/'] + comp
    }
}

/// Joins a relative component onto a path.
pub fn join_path(base: &str, comp: &str) -> (r: String)
    requires
        comp@.len() == 0 || comp@[0] != '/',
    ensures
        r@ == join(base@, comp@),
{
    let n = base.unicode_len();
    if n == 0 || base.get_char(n - 1) == '/' {
        concat(base, comp)
    } else {
        let mut r = owned(base);
        push_char(&mut r, '/');
        r.append(comp);
        r
    }
}

/// The directory holding the user's configuration directories:
/// `$XDG_CONFIG_HOME`, else `$HOME/.config`, else `/`.
pub open spec fn config_home(xdg: Option<Seq<char>>, home: Option<Seq<char>>) -> Seq<char> {
    match xdg {
        Some(x) => x,
        None => match home {
            Some(h) => join(h, ".config"@),
            None => "/"@,
        },
    }
}

/// The user's configuration directory for this program.
pub open spec fn app_config_dir(env: Environment) -> Seq<char> {
    join(config_home(env.xdg_config_home.deep_view(), env.home.deep_view()), "ratgreet"@)
}

/// `$XDG_CONFIG_HOME/ratgreet` (else `$HOME/.config/ratgreet`, else `/ratgreet`).
pub fn app_config_base_dir(env: &Environment) -> (r: String)
    ensures
        r@ == app_config_dir(*env),
{
    proof {
        reveal_strlit(".config");
        reveal_strlit("ratgreet");
    }
    let base = match &env.xdg_config_home {
        Some(x) => owned(x.as_str()),
        None => match &env.home {
            Some(h) => join_path(h.as_str(), ".config"),
            None => owned("/"),
        },
    };
    join_path(base.as_str(), "ratgreet")
}

} // verus!

//! The saved profile: default customer ID, developer token and login customer ID, and
//! where the profile file lives.

use vstd::prelude::*;

use crate::error::opt_view;
use crate::text::{push_str, string_of, trim, trim_str};

verus! {

/// The values kept in the profile file; `None` where a value was never saved.
#[derive(Debug)]
pub struct Profile {
    pub customer_id: Option<String>,
    pub developer_token: Option<String>,
    pub login_customer_id: Option<String>,
}

/// Model of a profile.
pub struct ProfileView {
    pub customer_id: Option<Seq<char>>,
    pub developer_token: Option<Seq<char>>,
    pub login_customer_id: Option<Seq<char>>,
}

impl Profile {
    pub open spec fn view(&self) -> ProfileView {
        ProfileView {
            customer_id: opt_view(self.customer_id),
            developer_token: opt_view(self.developer_token),
            login_customer_id: opt_view(self.login_customer_id),
        }
    }

    /// A profile with nothing saved.
    pub fn new() -> (r: Profile)
        ensures
            r@ == (ProfileView { customer_id: None, developer_token: None, login_customer_id: None }),
    {
        Profile { customer_id: None, developer_token: None, login_customer_id: None }
    }
}

impl Default for Profile {
    fn default() -> (r: Profile)
        ensures
            r@ == (ProfileView { customer_id: None, developer_token: None, login_customer_id: None }),
    {
        Profile::new()
    }
}

/// A saved value as it is loaded: blank values count as unset.
pub open spec fn loaded(v: Option<Seq<char>>) -> Option<Seq<char>> {
    match v {
        Some(s) => if trim(s).len() > 0 {
            Some(s)
        } else {
            None
        },
        None => None,
    }
}

fn load_value(v: &Option<String>) -> (r: Option<String>)
    ensures
        opt_view(r) == loaded(opt_view(*v)),
{
    match v {
        Some(s) => {
            let t = trim_str(s.as_str());
            if t.as_str().unicode_len() > 0 {
                Some(s.clone())
            } else {
                None
            }
        },
        None => None,
    }
}

/// The saved default customer ID, unless it is blank.
pub fn load_customer_id(profile: &Profile) -> (r: Option<String>)
    ensures
        opt_view(r) == loaded(profile@.customer_id),
{
    load_value(&profile.customer_id)
}

/// The saved developer token, unless it is blank.
pub fn load_developer_token(profile: &Profile) -> (r: Option<String>)
    ensures
        opt_view(r) == loaded(profile@.developer_token),
{
    load_value(&profile.developer_token)
}

/// The saved login customer ID, unless it is blank.
pub fn load_login_customer_id(profile: &Profile) -> (r: Option<String>)
    ensures
        opt_view(r) == loaded(profile@.login_customer_id),
{
    load_value(&profile.login_customer_id)
}

/// Saves the default customer ID; the other values stay.
pub fn save_customer_id(profile: &mut Profile, customer_id: &str)
    ensures
        final(profile)@ == (ProfileView { customer_id: Some(customer_id@), ..old(profile)@ }),
{
    profile.customer_id = Some(string_of(customer_id));
}

/// Saves the developer token; the other values stay.
pub fn save_developer_token(profile: &mut Profile, token: &str)
    ensures
        final(profile)@ == (ProfileView { developer_token: Some(token@), ..old(profile)@ }),
{
    profile.developer_token = Some(string_of(token));
}

/// Saves the login customer ID, or clears it; the other values stay.
pub fn save_login_customer_id(profile: &mut Profile, id: Option<&str>)
    ensures
        final(profile)@ == (ProfileView {
            login_customer_id: match id {
                Some(x) => Some(x@),
                None => None,
            },
            ..old(profile)@
        }),
{
    profile.login_customer_id = match id {
        Some(x) => Some(string_of(x)),
        None => None,
    };
}

/// A value written after a save is the value the next load gives back, unless it is blank.
pub proof fn lemma_load_after_save(p: ProfileView, v: Seq<char>)
    ensures
        loaded((ProfileView { customer_id: Some(v), ..p }).customer_id) == if trim(v).len() > 0 {
            Some(v)
        } else {
            None
        },
        loaded((ProfileView { developer_token: Some(v), ..p }).developer_token) == if trim(
            v,
        ).len() > 0 {
            Some(v)
        } else {
            None
        },
        loaded((ProfileView { login_customer_id: Some(v), ..p }).login_customer_id) == if trim(
            v,
        ).len() > 0 {
            Some(v)
        } else {
            None
        },
        loaded((ProfileView { login_customer_id: None, ..p }).login_customer_id) is None,
{
}

/// `rel` appended to the directory `base`, as `PathBuf::join` does for a relative path on
/// Unix: a `/` goes between them unless `base` is empty or already ends with one.
pub open spec fn path_join(base: Seq<char>, rel: Seq<char>) -> Seq<char> {
    if base.len() == 0 {
        rel
    } else if base.last() == '/' {
        base + rel
    } else {
        base + seq!['/'] + rel
    }
}

pub fn join_path(base: &str, rel: &str) -> (r: String)
    ensures
        r@ == path_join(base@, rel@),
{
    let n = base.unicode_len();
    let mut out = string_of(base);
    if n > 0 && base.get_char(n - 1) != '/' {
        crate::text::push_char(&mut out, '/');
    }
    push_str(&mut out, rel);
    proof {
        if n > 0 {
            assert(base@.last() == base@[n - 1]);
        }
    }
    assert(out@ =~= path_join(base@, rel@));
    out
}

/// Where the profile file lives: `$GADS_CONFIG_DIR/profile.json`, else
/// `$XDG_CONFIG_HOME/gads/profile.json`, else `$HOME/.config/gads/profile.json` (the first
/// two only when, trimmed, they are not empty); `None` when `HOME` is needed and unset.
pub open spec fn profile_path_spec(
    config_dir: Option<Seq<char>>,
    xdg_config_home: Option<Seq<char>>,
    home: Option<Seq<char>>,
) -> Option<Seq<char>> {
    if config_dir is Some && trim(config_dir->0).len() > 0 {
        Some(path_join(trim(config_dir->0), "profile.json"@))
    } else if xdg_config_home is Some && trim(xdg_config_home->0).len() > 0 {
        Some(path_join(trim(xdg_config_home->0), "gads/profile.json"@))
    } else {
        match home {
            Some(h) => Some(path_join(h, ".config/gads/profile.json"@)),
            None => None,
        }
    }
}

pub open spec fn opt_str_view(o: Option<&str>) -> Option<Seq<char>> {
    match o {
        Some(s) => Some(s@),
        None => None,
    }
}

/// The path of the profile file, from the values of `GADS_CONFIG_DIR`, `XDG_CONFIG_HOME`
/// and `HOME`; `None` when `HOME` is needed and unset.
pub fn profile_path(config_dir: Option<&str>, xdg_config_home: Option<&str>, home: Option<&str>) -> (r:
    Option<String>)
    ensures
        opt_view(r) == profile_path_spec(
            opt_str_view(config_dir),
            opt_str_view(xdg_config_home),
            opt_str_view(home),
        ),
{
    if let Some(dir) = config_dir {
        let trimmed = trim_str(dir);
        if trimmed.as_str().unicode_len() > 0 {
            return Some(join_path(trimmed.as_str(), "profile.json"));
        }
    }
    if let Some(dir) = xdg_config_home {
        let trimmed = trim_str(dir);
        if trimmed.as_str().unicode_len() > 0 {
            return Some(join_path(trimmed.as_str(), "gads/profile.json"));
        }
    }
    match home {
        Some(h) => Some(join_path(h, ".config/gads/profile.json")),
        None => None,
    }
}

} // verus!

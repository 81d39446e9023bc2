//! User settings: where the cache and the environment live and which
//! versions are asked for.

use crate::text::{chars_of, contains, includes, is_text};
use vstd::prelude::*;
use vstd::string::*;

verus! {

/// The view of an optional string.
pub open spec fn opt_str(o: Option<String>) -> Option<Seq<char>> {
    match o {
        Some(s) => Some(s@),
        None => None,
    }
}

/// The version of `uv` that is asked for.
pub open spec fn uv_version() -> Seq<char> {
    "0.9.24"@
}

/// Where releases of `uv` are downloaded from.
pub fn uv_download_url() -> (r: String)
    ensures
        r@ == "https://github.com/astral-sh/uv/releases/download"@ + "/"@ + uv_version(),
{
    String::from_str("https://github.com/astral-sh/uv/releases/download").concat("/").concat(
        "0.9.24",
    )
}

/// The file name of the `uv` program.
pub fn uv_binary_name() -> (r: &'static str)
    ensures
        r@ == "uv"@,
{
    "uv"
}

/// The place of the `uv` program inside an install directory.
pub fn uv_binary_path(install_dir: &str) -> (r: String)
    ensures
        r@ == install_dir@ + "/"@ + "uv"@,
{
    String::from_str(install_dir).concat("/").concat(uv_binary_name())
}

/// The home directory of the user, as `dirs::home_dir` reports it, where
/// it is known and can be written as text. Nothing is promised of it: it
/// depends on the environment.
#[verifier::external_body]
fn home_directory() -> (r: Option<String>) {
    match dirs::home_dir() {
        Some(p) => match p.to_str() {
            Some(s) => Some(s.to_string()),
            None => None,
        },
        None => None,
    }
}

/// The settings of a user.
#[derive(Debug, Clone)]
pub struct Config {
    pub cache_path: Option<String>,
    pub uv_path: Option<String>,
    pub python_version: Option<String>,
    pub venv_path: Option<String>,
    pub r2x_core_version: Option<String>,
}

impl Default for Config {
    fn default() -> (r: Config)
        ensures
            r.cache_path is None,
            r.uv_path is None,
            r.python_version is None,
            r.venv_path is None,
            r.r2x_core_version is None,
    {
        Config {
            cache_path: None,
            uv_path: None,
            python_version: None,
            venv_path: None,
            r2x_core_version: None,
        }
    }
}

/// Whether a version text holds a comparison operator.
pub open spec fn has_operator(v: Seq<char>) -> bool {
    contains(v, ">="@) || contains(v, "<="@) || contains(v, "~="@) || contains(v, "!="@)
        || contains(v, "=="@) || contains(v, ">"@) || contains(v, "<"@)
}

/// The requirement that asks for the core package in the given version.
pub open spec fn core_spec(version: Seq<char>) -> Seq<char> {
    if has_operator(version) {
        "r2x-core"@ + version
    } else {
        "r2x-core=="@ + version
    }
}

impl Config {
    /// The setting stored under a key, if the key is known and set.
    pub open spec fn lookup(&self, key: Seq<char>) -> Option<Seq<char>> {
        if key == "cache-path"@ {
            opt_str(self.cache_path)
        } else if key == "uv-path"@ {
            opt_str(self.uv_path)
        } else if key == "python-version"@ {
            opt_str(self.python_version)
        } else if key == "venv-path"@ {
            opt_str(self.venv_path)
        } else if key == "r2x-core-version"@ {
            opt_str(self.r2x_core_version)
        } else {
            None
        }
    }

    /// Whether a key names a setting.
    pub open spec fn known_key(key: Seq<char>) -> bool {
        key == "cache-path"@ || key == "uv-path"@ || key == "python-version"@ || key
            == "venv-path"@ || key == "r2x-core-version"@
    }

    /// The value stored under a key, if the key is known and set.
    pub fn get(&self, key: &str) -> (r: Option<String>)
        ensures
            opt_str(r) == self.lookup(key@),
    {
        let k = chars_of(key);
        let field = if is_text(k.as_slice(), "cache-path") {
            &self.cache_path
        } else if is_text(k.as_slice(), "uv-path") {
            &self.uv_path
        } else if is_text(k.as_slice(), "python-version") {
            &self.python_version
        } else if is_text(k.as_slice(), "venv-path") {
            &self.venv_path
        } else if is_text(k.as_slice(), "r2x-core-version") {
            &self.r2x_core_version
        } else {
            return None;
        };
        match field {
            Some(s) => Some(s.clone()),
            None => None,
        }
    }

    /// Stores a value under a known key; an unknown key changes nothing.
    pub fn set(&mut self, key: &str, value: String)
        ensures
            forall|k: Seq<char>|
                #[trigger] final(self).lookup(k) == if k == key@ && Self::known_key(k) {
                    Some(value@)
                } else {
                    old(self).lookup(k)
                },
            !Self::known_key(key@) ==> *final(self) == *old(self),
    {
        proof {
            Self::lemma_keys_differ();
        }
        let k = chars_of(key);
        if is_text(k.as_slice(), "cache-path") {
            self.cache_path = Some(value);
        } else if is_text(k.as_slice(), "uv-path") {
            self.uv_path = Some(value);
        } else if is_text(k.as_slice(), "python-version") {
            self.python_version = Some(value);
        } else if is_text(k.as_slice(), "venv-path") {
            self.venv_path = Some(value);
        } else if is_text(k.as_slice(), "r2x-core-version") {
            self.r2x_core_version = Some(value);
        }
    }

    /// The five keys are five different texts.
    pub proof fn lemma_keys_differ()
        ensures
            "cache-path"@ != "uv-path"@,
            "cache-path"@ != "python-version"@,
            "cache-path"@ != "venv-path"@,
            "cache-path"@ != "r2x-core-version"@,
            "uv-path"@ != "python-version"@,
            "uv-path"@ != "venv-path"@,
            "uv-path"@ != "r2x-core-version"@,
            "python-version"@ != "venv-path"@,
            "python-version"@ != "r2x-core-version"@,
            "venv-path"@ != "r2x-core-version"@,
    {
        reveal_strlit("cache-path");
        reveal_strlit("uv-path");
        reveal_strlit("python-version");
        reveal_strlit("venv-path");
        reveal_strlit("r2x-core-version");
        assert("cache-path"@[0] == 'c');
        assert("uv-path"@[0] == 'u');
        assert("python-version"@[0] == 'p');
        assert("venv-path"@[0] == 'v');
        assert("r2x-core-version"@[0] == 'r');
    }

    /// Whether nothing is set.
    pub fn is_empty(&self) -> (r: bool)
        ensures
            r == (self.cache_path is None && self.uv_path is None && self.python_version is None
                && self.venv_path is None && self.r2x_core_version is None),
    {
        self.cache_path.is_none() && self.uv_path.is_none() && self.python_version.is_none()
            && self.venv_path.is_none() && self.r2x_core_version.is_none()
    }

    /// The settings that are set, as they are listed: each known key with
    /// its value, in the fixed order of the keys.
    pub open spec fn listed(&self) -> Seq<(Seq<char>, Seq<char>)> {
        Self::entry("cache-path"@, self.cache_path) + Self::entry("uv-path"@, self.uv_path)
            + Self::entry("python-version"@, self.python_version) + Self::entry(
            "venv-path"@,
            self.venv_path,
        ) + Self::entry("r2x-core-version"@, self.r2x_core_version)
    }

    /// One listed setting, or nothing where it is not set.
    pub open spec fn entry(key: Seq<char>, value: Option<String>) -> Seq<(Seq<char>, Seq<char>)> {
        match value {
            Some(v) => seq![(key, v@)],
            None => Seq::empty(),
        }
    }

    /// The views of a vector of listed settings, in order.
    pub open spec fn pairs_view(v: Seq<(&'static str, String)>) -> Seq<(Seq<char>, Seq<char>)> {
        v.map_values(|p: (&'static str, String)| (p.0@, p.1@))
    }

    fn list_one(out: &mut Vec<(&'static str, String)>, key: &'static str, value: &Option<String>)
        ensures
            Self::pairs_view(final(out)@) == Self::pairs_view(old(out)@) + Self::entry(
                key@,
                *value,
            ),
    {
        match value {
            Some(v) => {
                let pair = (key, v.clone());
                assert(Self::pairs_view(out@.push(pair)) =~= Self::pairs_view(out@) + seq![
                    (key@, v@),
                ]);
                out.push(pair);
            },
            None => {
                assert(Self::pairs_view(out@) + Seq::empty() =~= Self::pairs_view(out@));
            },
        }
    }

    /// The settings that are set, each with its key.
    pub fn values_iter(&self) -> (r: Vec<(&'static str, String)>)
        ensures
            Self::pairs_view(r@) == self.listed(),
    {
        let mut values: Vec<(&'static str, String)> = Vec::new();
        assert(Self::pairs_view(values@) =~= Seq::empty());
        Self::list_one(&mut values, "cache-path", &self.cache_path);
        Self::list_one(&mut values, "uv-path", &self.uv_path);
        Self::list_one(&mut values, "python-version", &self.python_version);
        Self::list_one(&mut values, "venv-path", &self.venv_path);
        Self::list_one(&mut values, "r2x-core-version", &self.r2x_core_version);
        assert(Self::pairs_view(values@) =~= self.listed());
        values
    }

    /// The place of the cache: the configured one, or else the default one
    /// below the given home directory.
    pub open spec fn cache_path_in(&self, home: Seq<char>) -> Seq<char> {
        match self.cache_path {
            Some(p) => p@,
            None => home + "/.cache/r2x"@,
        }
    }

    /// The place of the cache, given the home directory.
    pub fn get_cache_path_in(&self, home: &str) -> (r: String)
        ensures
            r@ == self.cache_path_in(home@),
    {
        match &self.cache_path {
            Some(p) => p.clone(),
            None => String::from_str(home).concat("/.cache/r2x"),
        }
    }

    /// The place of the cache. Where none is configured it depends on the
    /// home directory; without one there is no answer.
    pub fn get_cache_path(&self) -> (r: Option<String>)
        ensures
            self.cache_path is Some ==> r is Some && r.unwrap()@ == self.cache_path.unwrap()@,
            r is Some ==> exists|home: Seq<char>| r.unwrap()@ == self.cache_path_in(home),
    {
        match &self.cache_path {
            Some(_) => {
                let r = self.get_cache_path_in("");
                assert(r@ == self.cache_path_in(""@));
                Some(r)
            },
            None => match home_directory() {
                Some(home) => {
                    let r = self.get_cache_path_in(home.as_str());
                    assert(r@ == self.cache_path_in(home@));
                    Some(r)
                },
                None => None,
            },
        }
    }

    /// The place of the environment: the configured one, or else the
    /// default one below the given home directory.
    pub open spec fn venv_path_in(&self, home: Seq<char>) -> Seq<char> {
        match self.venv_path {
            Some(p) => p@,
            None => home + "/.config/r2x/.venv"@,
        }
    }

    /// The place of the environment, given the home directory.
    pub fn get_venv_path_in(&self, home: &str) -> (r: String)
        ensures
            r@ == self.venv_path_in(home@),
    {
        match &self.venv_path {
            Some(p) => p.clone(),
            None => String::from_str(home).concat("/.config/r2x/.venv"),
        }
    }

    /// The interpreter of the environment, given the home directory.
    pub fn get_venv_python_path_in(&self, home: &str) -> (r: String)
        ensures
            r@ == self.venv_path_in(home@) + "/bin/python"@,
    {
        self.get_venv_path_in(home).concat("/bin/python")
    }

    /// The interpreter of the environment. Where no environment is
    /// configured its place depends on the home directory; without one
    /// there is no answer.
    pub fn get_venv_python_path(&self) -> (r: Option<String>)
        ensures
            self.venv_path is Some ==> r is Some && r.unwrap()@ == self.venv_path.unwrap()@
                + "/bin/python"@,
            r is Some ==> exists|home: Seq<char>| r.unwrap()@ == self.venv_path_in(home)
                + "/bin/python"@,
    {
        match &self.venv_path {
            Some(_) => {
                let r = self.get_venv_python_path_in("");
                assert(r@ == self.venv_path_in(""@) + "/bin/python"@);
                Some(r)
            },
            None => match home_directory() {
                Some(home) => {
                    let r = self.get_venv_python_path_in(home.as_str());
                    assert(r@ == self.venv_path_in(home@) + "/bin/python"@);
                    Some(r)
                },
                None => None,
            },
        }
    }

    /// The version of the core package that is asked for.
    pub open spec fn core_version(&self) -> Seq<char> {
        match self.r2x_core_version {
            Some(v) => v@,
            None => "0.1.0rc1"@,
        }
    }

    /// The requirement that asks for the core package: the version as it
    /// is where it holds an operator, else pinned exactly.
    pub fn get_r2x_core_package_spec(&self) -> (r: String)
        ensures
            r@ == core_spec(self.core_version()),
    {
        let version: String = match &self.r2x_core_version {
            Some(v) => v.clone(),
            None => String::from_str("0.1.0rc1"),
        };
        let v = chars_of(version.as_str());
        let ge = chars_of(">=");
        let le = chars_of("<=");
        let compat = chars_of("~=");
        let ne = chars_of("!=");
        let eq = chars_of("==");
        let gt = chars_of(">");
        let lt = chars_of("<");
        if includes(v.as_slice(), ge.as_slice()) || includes(v.as_slice(), le.as_slice()) || includes(
            v.as_slice(),
            compat.as_slice(),
        ) || includes(v.as_slice(), ne.as_slice()) || includes(v.as_slice(), eq.as_slice()) || includes(
            v.as_slice(),
            gt.as_slice(),
        ) || includes(v.as_slice(), lt.as_slice()) {
            String::from_str("r2x-core").concat(version.as_str())
        } else {
            String::from_str("r2x-core==").concat(version.as_str())
        }
    }
}

/// Where a usable `uv` is looked for, in the order of the search: the
/// stored path, the place where it is installed to, the search path, and
/// that place again after an installation.
#[derive(Debug, Clone, Copy, PartialEq, Eq, Structural)]
pub enum UvSource {
    Stored,
    Expected,
    OnPath,
    Installed,
}

/// A step of the search for `uv`.
#[derive(Debug, Clone, Copy, PartialEq, Eq, Structural)]
pub enum UvAction {
    /// See whether the program at a source is there in the right version.
    Probe(UvSource),
    /// Install the program, then probe again.
    Install,
    /// Use the program at a source, and store its path.
    Use(UvSource),
    /// Give up.
    Fail,
}

/// The step that follows: at the start the stored path is probed, where
/// there is one; a probe that succeeded ends the search; one that failed
/// leads to the next source, to an installation after the last of them,
/// and to failure after the installation.
pub open spec fn uv_step(last: Option<UvAction>, succeeded: bool, has_stored: bool) -> UvAction {
    match last {
        None => if has_stored {
            UvAction::Probe(UvSource::Stored)
        } else {
            UvAction::Probe(UvSource::Expected)
        },
        Some(UvAction::Probe(source)) => if succeeded {
            UvAction::Use(source)
        } else {
            match source {
                UvSource::Stored => UvAction::Probe(UvSource::Expected),
                UvSource::Expected => UvAction::Probe(UvSource::OnPath),
                UvSource::OnPath => UvAction::Install,
                UvSource::Installed => UvAction::Fail,
            }
        },
        Some(UvAction::Install) => if succeeded {
            UvAction::Probe(UvSource::Installed)
        } else {
            UvAction::Fail
        },
        Some(UvAction::Use(source)) => UvAction::Use(source),
        Some(UvAction::Fail) => UvAction::Fail,
    }
}

/// Decides the next step of the search for `uv` from the last step and
/// how it ended.
pub fn next_uv_action(last: Option<UvAction>, succeeded: bool, has_stored: bool) -> (r: UvAction)
    ensures
        r == uv_step(last, succeeded, has_stored),
{
    match last {
        None => {
            if has_stored {
                UvAction::Probe(UvSource::Stored)
            } else {
                UvAction::Probe(UvSource::Expected)
            }
        },
        Some(UvAction::Probe(source)) => {
            if succeeded {
                UvAction::Use(source)
            } else {
                match source {
                    UvSource::Stored => UvAction::Probe(UvSource::Expected),
                    UvSource::Expected => UvAction::Probe(UvSource::OnPath),
                    UvSource::OnPath => UvAction::Install,
                    UvSource::Installed => UvAction::Fail,
                }
            }
        },
        Some(UvAction::Install) => {
            if succeeded {
                UvAction::Probe(UvSource::Installed)
            } else {
                UvAction::Fail
            }
        },
        Some(UvAction::Use(source)) => UvAction::Use(source),
        Some(UvAction::Fail) => UvAction::Fail,
    }
}

/// How many steps a search takes at most.
pub open spec fn steps_left(a: UvAction) -> nat {
    match a {
        UvAction::Probe(UvSource::Stored) => 5,
        UvAction::Probe(UvSource::Expected) => 4,
        UvAction::Probe(UvSource::OnPath) => 3,
        UvAction::Install => 2,
        UvAction::Probe(UvSource::Installed) => 1,
        UvAction::Use(_) => 0,
        UvAction::Fail => 0,
    }
}

/// The search ends: every step that is not the last brings it nearer to
/// its end.
pub proof fn law_uv_search_ends(a: UvAction, succeeded: bool, has_stored: bool)
    requires
        !(a is Use),
        !(a is Fail),
    ensures
        steps_left(uv_step(Some(a), succeeded, has_stored)) < steps_left(a),
{
}

} // verus!

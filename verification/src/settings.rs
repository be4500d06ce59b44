use vstd::prelude::*;

verus! {

/// The settings file that every environment reads first.
pub const CONFIG_FILE_PATH: &'static str = "./settings/src/Default.json";

/// The directory of the per-environment settings files.
pub const CONFIG_FILE_PREFIX: &'static str = "./settings/src/";

/// The environment the server runs in.
#[derive(Clone, Debug)]
pub enum ENV {
    Development,
    Testing,
    Production,
}

/// The name under which an environment is written.
pub open spec fn env_name(env: ENV) -> Seq<char> {
    match env {
        ENV::Development => "Development"@,
        ENV::Testing => "Testing"@,
        ENV::Production => "Production"@,
    }
}

/// The environment that a name stands for; an unknown name stands for development.
pub open spec fn env_of_name(name: Seq<char>) -> ENV {
    if name == "Testing"@ {
        ENV::Testing
    } else if name == "Production"@ {
        ENV::Production
    } else {
        ENV::Development
    }
}

impl ENV {
    /// The environment's name, as it is displayed.
    pub fn to_string(&self) -> (s: String)
        ensures
            s@ == env_name(*self),
    {
        match self {
            ENV::Development => String::from_str("Development"),
            ENV::Testing => String::from_str("Testing"),
            ENV::Production => String::from_str("Production"),
        }
    }
}

impl<'a> From<&'a str> for ENV {
    fn from(env: &'a str) -> (r: ENV) {
        let name = env.to_owned();
        if name == String::from_str("Testing") {
            ENV::Testing
        } else if name == String::from_str("Production") {
            ENV::Production
        } else {
            ENV::Development
        }
    }
}

impl<'a> vstd::std_specs::convert::FromSpecImpl<&'a str> for ENV {
    open spec fn obeys_from_spec() -> bool {
        true
    }

    open spec fn from_spec(env: &'a str) -> ENV {
        env_of_name(env@)
    }
}

/// Reading an environment back from its displayed name gives the same environment.
pub proof fn lemma_env_name_round_trip(env: ENV)
    ensures
        env_of_name(env_name(env)) == env,
{
    reveal_strlit("Development");
    reveal_strlit("Testing");
    reveal_strlit("Production");
    assert("Development"@.len() == 11);
    assert("Testing"@.len() == 7);
    assert("Production"@.len() == 10);
}

/// Only the three names stand for an environment other than development: any other name,
/// whatever its case, is read as development; and each environment has a name of its own.
pub proof fn lemma_unknown_name_is_development(name: Seq<char>, a: ENV, b: ENV)
    ensures
        name != "Testing"@ && name != "Production"@ ==> env_of_name(name) == ENV::Development,
        env_name(a) == env_name(b) ==> a == b,
{
    reveal_strlit("Development");
    reveal_strlit("Testing");
    reveal_strlit("Production");
    assert("Development"@.len() == 11);
    assert("Testing"@.len() == 7);
    assert("Production"@.len() == 10);
}

/// The HTTP server's settings.
#[derive(Debug, Clone)]
pub struct Server {
    pub port: u16,
}

/// How to reach the database.
#[derive(Debug, Clone)]
pub struct Database {
    pub host: String,
    pub login: String,
    pub password: String,
    pub name: String,
}

/// All settings of the server.
#[derive(Debug, Clone)]
pub struct Settings {
    pub server: Server,
    pub database: Database,
    pub env: ENV,
}

impl Settings {
    /// The environment to run in: the value of the environment variable when it is set,
    /// development otherwise.
    pub fn run_env(variable: Option<String>) -> (env: String)
        ensures
            env@ == match variable {
                Some(v) => v@,
                None => "Development"@,
            },
    {
        match variable {
            Some(v) => v,
            None => String::from_str("Development"),
        }
    }

    /// The settings file of environment `env`, read after [`CONFIG_FILE_PATH`] when it exists.
    pub fn env_config_file(env: &str) -> (path: String)
        ensures
            path@ == CONFIG_FILE_PREFIX@ + env@,
    {
        let path = String::from_str(CONFIG_FILE_PREFIX);
        path.concat(env)
    }
}

} // verus!

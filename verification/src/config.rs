//! Named environments and the endpoint-resolution rule.
//!
//! A [`Config`] holds an ordered sequence of environments, an optional
//! default environment name and an optional literal fallback endpoint.
//! [`Config::graphql_endpoint`] resolves the endpoint to target through a
//! strict precedence chain: requested environment, default environment,
//! literal fallback, built-in constant.

use vstd::prelude::*;
use vstd::string::*;

use crate::strutil::str_eq;

verus! {

/// An environment at the specification level.
#[verifier::ext_equal]
pub ghost struct EnvironmentModel {
    pub name: Seq<char>,
    pub endpoint: Option<Seq<char>>,
}

/// A configuration at the specification level.
#[verifier::ext_equal]
pub ghost struct ConfigModel {
    pub environments: Seq<EnvironmentModel>,
    pub default_environment: Option<Seq<char>>,
    pub default_graphql_endpoint: Option<Seq<char>>,
}

/// A named endpoint configuration profile. An absent endpoint means
/// "no override here".
#[derive(Debug)]
pub struct Environment {
    pub name: String,
    pub graphql_endpoint: Option<String>,
}

/// An ordered sequence of environments plus two fallback settings. Order is
/// preserved for display; resolution by name takes the first match.
#[derive(Debug)]
pub struct Config {
    pub environments: Vec<Environment>,
    /// The default environment to consult when none is requested, or when
    /// the requested one yields no endpoint. Takes precedence over
    /// `default_graphql_endpoint` if the named environment has an endpoint.
    pub default_environment: Option<String>,
    pub default_graphql_endpoint: Option<String>,
}

impl View for Environment {
    type V = EnvironmentModel;

    open spec fn view(&self) -> EnvironmentModel {
        EnvironmentModel { name: self.name@, endpoint: self.graphql_endpoint.deep_view() }
    }
}

impl DeepView for Environment {
    type V = EnvironmentModel;

    open spec fn deep_view(&self) -> EnvironmentModel {
        self.view()
    }
}

impl View for Config {
    type V = ConfigModel;

    open spec fn view(&self) -> ConfigModel {
        ConfigModel {
            environments: self.environments.deep_view(),
            default_environment: self.default_environment.deep_view(),
            default_graphql_endpoint: self.default_graphql_endpoint.deep_view(),
        }
    }
}

/// The endpoint used when nothing in the configuration provides one.
pub open spec fn spec_builtin_endpoint() -> Seq<char> {
    "localhost:3000/graphql"@
}

/// First environment in `envs` whose name equals `name` exactly, or none.
pub open spec fn env_by_name(envs: Seq<EnvironmentModel>, name: Seq<char>) -> Option<
    EnvironmentModel,
>
    decreases envs.len(),
{
    if envs.len() == 0 {
        None
    } else if envs.first().name == name {
        Some(envs.first())
    } else {
        env_by_name(envs.drop_first(), name)
    }
}

/// The endpoint that looking up `name` yields: the endpoint of the first
/// environment of that name, absent if there is no such environment or it
/// has no endpoint.
pub open spec fn endpoint_for(c: ConfigModel, name: Seq<char>) -> Option<Seq<char>> {
    match env_by_name(c.environments, name) {
        Some(env) => env.endpoint,
        None => None,
    }
}

/// The strict precedence chain of endpoint resolution: the requested
/// environment's endpoint if it yields one; else the default environment's,
/// if it yields one; else the literal fallback, if set; else the built-in
/// constant. Each step is independent of how the prior one failed.
pub open spec fn resolved_endpoint(c: ConfigModel, requested: Option<Seq<char>>) -> Seq<char> {
    let from_requested = match requested {
        Some(name) => endpoint_for(c, name),
        None => None,
    };
    let from_default_env = match c.default_environment {
        Some(name) => endpoint_for(c, name),
        None => None,
    };
    match from_requested {
        Some(endpoint) => endpoint,
        None => match from_default_env {
            Some(endpoint) => endpoint,
            None => match c.default_graphql_endpoint {
                Some(endpoint) => endpoint,
                None => spec_builtin_endpoint(),
            },
        },
    }
}

/// The name, if any, that an optional requested slice denotes.
pub open spec fn requested_name(env: Option<&str>) -> Option<Seq<char>> {
    match env {
        Some(name) => Some(name@),
        None => None,
    }
}

impl Environment {
    pub fn new(name: &str, graphql_endpoint: Option<String>) -> (res: Self)
        ensures
            res@ == (EnvironmentModel { name: name@, endpoint: graphql_endpoint.deep_view() }),
    {
        Environment { name: String::from_str(name), graphql_endpoint }
    }
}

/// The hard-coded default configuration: three endpointless environments,
/// `development` as default environment, and the built-in constant as the
/// literal fallback endpoint.
pub open spec fn spec_default_config() -> ConfigModel {
    ConfigModel {
        environments: seq![
            EnvironmentModel { name: "test"@, endpoint: None },
            EnvironmentModel { name: "development"@, endpoint: None },
            EnvironmentModel { name: "production"@, endpoint: None },
        ],
        default_environment: Some("development"@),
        default_graphql_endpoint: Some("localhost:3000/graphql"@),
    }
}

impl Config {
    pub fn default() -> (res: Self)
        ensures
            res@ == spec_default_config(),
    {
        let config = Config {
            environments: vec![
                Environment::new("test", None),
                Environment::new("development", None),
                Environment::new("production", None),
            ],
            default_environment: Some(String::from_str("development")),
            default_graphql_endpoint: Some(String::from_str("localhost:3000/graphql")),
        };
        proof {
            assert(config@.environments =~= spec_default_config().environments);
        }
        config
    }

    /// Look for and get the first environment with the name given.
    pub fn environment(&self, name: &str) -> (res: Option<Environment>)
        ensures
            match res {
                Some(env) => env_by_name(self@.environments, name@) == Some(env@),
                None => env_by_name(self@.environments, name@) is None,
            },
    {
        let ghost envs = self@.environments;
        let n = self.environments.len();
        let mut i: usize = 0;
        proof {
            assert(envs.skip(0) =~= envs);
        }
        while i < n
            invariant
                i <= n,
                n == self.environments.len(),
                envs == self@.environments,
                env_by_name(envs, name@) == env_by_name(envs.skip(i as int), name@),
            decreases n - i,
        {
            let env = &self.environments[i];
            proof {
                assert(envs.skip(i as int).first() == envs[i as int]);
            }
            if str_eq(env.name.as_str(), name) {
                let found = Environment {
                    name: env.name.clone(),
                    graphql_endpoint: clone_opt_string(&env.graphql_endpoint),
                };
                proof {
                    assert(found@ == envs[i as int]);
                }
                return Some(found);
            }
            proof {
                assert(envs.skip(i as int).drop_first() =~= envs.skip(i + 1));
            }
            i += 1;
        }
        proof {
            assert(envs.skip(n as int) =~= Seq::<EnvironmentModel>::empty());
        }
        None
    }

    /// Resolve the GraphQL endpoint to use for an optional requested
    /// environment name, through the precedence chain of
    /// [`resolved_endpoint`]. Absence at every level is absorbed by the
    /// built-in constant: resolution cannot fail.
    pub fn graphql_endpoint(&self, env: Option<&str>) -> (res: String)
        ensures
            res@ == resolved_endpoint(self@, requested_name(env)),
    {
        if let Some(name) = env {
            if let Some(environment) = self.environment(name) {
                if let Some(endpoint) = environment.graphql_endpoint {
                    return endpoint;
                }
            }
        }
        if let Some(default_name) = &self.default_environment {
            if let Some(environment) = self.environment(default_name.as_str()) {
                if let Some(endpoint) = environment.graphql_endpoint {
                    return endpoint;
                }
            }
        }
        if let Some(endpoint) = &self.default_graphql_endpoint {
            return endpoint.clone();
        }
        String::from_str("localhost:3000/graphql")
    }
}

/// Whether two optional strings hold the same characters.
fn opt_string_eq(a: &Option<String>, b: &Option<String>) -> (res: bool)
    ensures
        res == (a.deep_view() == b.deep_view()),
{
    match (a, b) {
        (Some(x), Some(y)) => str_eq(x.as_str(), y.as_str()),
        (None, None) => true,
        _ => false,
    }
}

impl PartialEq for Environment {
    fn eq(&self, other: &Self) -> (res: bool) {
        let names_eq = str_eq(self.name.as_str(), other.name.as_str());
        let endpoints_eq = opt_string_eq(&self.graphql_endpoint, &other.graphql_endpoint);
        proof {
            if names_eq && endpoints_eq {
                assert(self@ =~= other@);
            }
        }
        names_eq && endpoints_eq
    }
}

impl vstd::std_specs::cmp::PartialEqSpecImpl for Environment {
    open spec fn obeys_eq_spec() -> bool {
        true
    }

    open spec fn eq_spec(&self, other: &Self) -> bool {
        self@ == other@
    }
}

impl PartialEq for Config {
    fn eq(&self, other: &Self) -> (res: bool) {
        if self.environments.len() != other.environments.len() {
            proof {
                assert(self@.environments.len() == self.environments@.len());
                assert(other@.environments.len() == other.environments@.len());
            }
            return false;
        }
        let n = self.environments.len();
        let mut i: usize = 0;
        while i < n
            invariant
                i <= n,
                n == self.environments.len(),
                n == other.environments.len(),
                forall|j: int| 0 <= j < i ==> self@.environments[j] == other@.environments[j],
            decreases n - i,
        {
            if !(self.environments[i] == other.environments[i]) {
                proof {
                    assert(self@.environments[i as int] == self.environments@[i as int]@);
                    assert(other@.environments[i as int] == other.environments@[i as int]@);
                }
                return false;
            }
            i += 1;
        }
        proof {
            assert(self@.environments =~= other@.environments);
        }
        let defaults_eq = opt_string_eq(&self.default_environment, &other.default_environment);
        let endpoints_eq = opt_string_eq(
            &self.default_graphql_endpoint,
            &other.default_graphql_endpoint,
        );
        proof {
            if defaults_eq && endpoints_eq {
                assert(self@ =~= other@);
            }
        }
        defaults_eq && endpoints_eq
    }
}

impl vstd::std_specs::cmp::PartialEqSpecImpl for Config {
    open spec fn obeys_eq_spec() -> bool {
        true
    }

    open spec fn eq_spec(&self, other: &Self) -> bool {
        self@ == other@
    }
}

/// A copy of an optional string, equal at the specification level.
fn clone_opt_string(value: &Option<String>) -> (res: Option<String>)
    ensures
        res.deep_view() == value.deep_view(),
{
    match value {
        Some(s) => Some(s.clone()),
        None => None,
    }
}

/// If the requested environment exists and has an endpoint, resolution
/// returns exactly that endpoint, whatever the default settings hold.
pub proof fn lemma_requested_endpoint_wins(c: ConfigModel, name: Seq<char>, endpoint: Seq<char>)
    requires
        endpoint_for(c, name) == Some(endpoint),
    ensures
        resolved_endpoint(c, Some(name)) == endpoint,
{
}

/// If the requested name yields no endpoint (absent, unknown, or
/// endpointless) but the default environment identifies one with an
/// endpoint, that endpoint is returned.
pub proof fn lemma_default_environment_fallback(
    c: ConfigModel,
    requested: Option<Seq<char>>,
    default_name: Seq<char>,
    endpoint: Seq<char>,
)
    requires
        match requested {
            Some(name) => endpoint_for(c, name) is None,
            None => true,
        },
        c.default_environment == Some(default_name),
        endpoint_for(c, default_name) == Some(endpoint),
    ensures
        resolved_endpoint(c, requested) == endpoint,
{
}

/// If neither the requested nor the default environment yields an endpoint
/// but the literal fallback is set, it is returned verbatim.
pub proof fn lemma_default_endpoint_fallback(
    c: ConfigModel,
    requested: Option<Seq<char>>,
    endpoint: Seq<char>,
)
    requires
        match requested {
            Some(name) => endpoint_for(c, name) is None,
            None => true,
        },
        match c.default_environment {
            Some(name) => endpoint_for(c, name) is None,
            None => true,
        },
        c.default_graphql_endpoint == Some(endpoint),
    ensures
        resolved_endpoint(c, requested) == endpoint,
{
}

/// If no level of the chain yields an endpoint, the built-in constant is
/// returned.
pub proof fn lemma_builtin_endpoint_fallback(c: ConfigModel, requested: Option<Seq<char>>)
    requires
        match requested {
            Some(name) => endpoint_for(c, name) is None,
            None => true,
        },
        match c.default_environment {
            Some(name) => endpoint_for(c, name) is None,
            None => true,
        },
        c.default_graphql_endpoint is None,
    ensures
        resolved_endpoint(c, requested) == spec_builtin_endpoint(),
{
}

/// A position whose environment matches by name, with no earlier match,
/// is the one the lookup returns.
pub proof fn lemma_env_by_name_first_match(envs: Seq<EnvironmentModel>, name: Seq<char>, i: int)
    requires
        0 <= i < envs.len(),
        envs[i].name == name,
        forall|j: int| 0 <= j < i ==> envs[j].name != name,
    ensures
        env_by_name(envs, name) == Some(envs[i]),
    decreases i,
{
    if i == 0 {
    } else {
        assert(envs[0].name != name);
        assert forall|j: int| 0 <= j < i - 1 implies envs.drop_first()[j].name != name by {
            assert(envs.drop_first()[j] == envs[j + 1]);
        }
        assert(envs.drop_first()[i - 1] == envs[i]);
        lemma_env_by_name_first_match(envs.drop_first(), name, i - 1);
    }
}

/// When no environment matches by name, the lookup yields none.
pub proof fn lemma_env_by_name_no_match(envs: Seq<EnvironmentModel>, name: Seq<char>)
    requires
        forall|j: int| 0 <= j < envs.len() ==> envs[j].name != name,
    ensures
        env_by_name(envs, name) is None,
    decreases envs.len(),
{
    if envs.len() == 0 {
    } else {
        assert forall|j: int| 0 <= j < envs.drop_first().len() implies envs.drop_first()[j].name
            != name by {
            assert(envs.drop_first()[j] == envs[j + 1]);
        }
        lemma_env_by_name_no_match(envs.drop_first(), name);
    }
}

} // verus!

//! The configuration document: a YAML-shaped, line-based text form of a
//! [`Config`], with a verified serializer and parser.
//!
//! The document lists the environments under an `environments:` header, one
//! `- name:` / `  graphql_endpoint:` pair per environment, followed by the
//! two default settings. An absent optional value is written `null`. The
//! serializer is lossless: parsing what it produces yields an equal
//! configuration, which [`lemma_config_document_round_trip`] proves for
//! every representable configuration.

use vstd::prelude::*;
use vstd::string::*;

use crate::config::{Config, ConfigModel, Environment, EnvironmentModel, spec_default_config};
use crate::strutil::{
    line_ok, lemma_line_ok_concat, lemma_join_lines_concat, lemma_split_join,
    lemma_strip_prefix_of_concat, lemma_strip_prefix_mismatch, spec_join_lines, spec_split_lines,
    spec_strip_prefix, split_lines, str_eq, strip_prefix,
};

verus! {

/// The text form of an optional scalar field: the value itself, or `null`.
pub open spec fn opt_scalar(value: Option<Seq<char>>) -> Seq<char> {
    match value {
        Some(text) => text,
        None => "null"@,
    }
}

/// The optional value that a scalar's text denotes: absent for `null`,
/// otherwise the text verbatim.
pub open spec fn scalar_value(text: Seq<char>) -> Option<Seq<char>> {
    if text == "null"@ {
        None
    } else {
        Some(text)
    }
}

/// The two document lines of each environment, in sequence order.
pub open spec fn env_lines(envs: Seq<EnvironmentModel>) -> Seq<Seq<char>>
    decreases envs.len(),
{
    if envs.len() == 0 {
        Seq::empty()
    } else {
        seq![
            "- name: "@ + envs.first().name,
            "  graphql_endpoint: "@ + opt_scalar(envs.first().endpoint),
        ] + env_lines(envs.drop_first())
    }
}

/// All lines of a configuration's document.
pub open spec fn config_lines(c: ConfigModel) -> Seq<Seq<char>> {
    seq!["environments:"@] + env_lines(c.environments) + seq![
        "default_environment: "@ + opt_scalar(c.default_environment),
        "default_graphql_endpoint: "@ + opt_scalar(c.default_graphql_endpoint),
    ]
}

/// The document of a configuration: its lines, each newline-terminated.
pub open spec fn spec_config_document(c: ConfigModel) -> Seq<char> {
    spec_join_lines(config_lines(c))
}

/// Environments parsed from the front of `lines`, with the lines that
/// remain; absent when an environment item is malformed.
pub open spec fn parse_env_lines(lines: Seq<Seq<char>>) -> Option<
    (Seq<EnvironmentModel>, Seq<Seq<char>>),
>
    decreases lines.len(),
{
    if lines.len() == 0 {
        Some((Seq::empty(), lines))
    } else {
        match spec_strip_prefix(lines.first(), "- name: "@) {
            Some(name) => {
                if lines.len() >= 2 {
                    match spec_strip_prefix(lines[1], "  graphql_endpoint: "@) {
                        Some(value) => match parse_env_lines(lines.skip(2)) {
                            Some(parsed) => Some(
                                (
                                    seq![
                                        EnvironmentModel {
                                            name,
                                            endpoint: scalar_value(value),
                                        },
                                    ] + parsed.0,
                                    parsed.1,
                                ),
                            ),
                            None => None,
                        },
                        None => None,
                    }
                } else {
                    None
                }
            },
            None => Some((Seq::empty(), lines)),
        }
    }
}

/// The configuration that a sequence of document lines denotes, if the
/// lines have the expected shape: the header, the environment items, and
/// exactly the two default settings.
pub open spec fn parse_config_lines(lines: Seq<Seq<char>>) -> Option<ConfigModel> {
    if lines.len() >= 1 && lines.first() == "environments:"@ {
        match parse_env_lines(lines.drop_first()) {
            Some(parsed) => {
                let rest = parsed.1;
                if rest.len() == 2 {
                    match spec_strip_prefix(rest[0], "default_environment: "@) {
                        Some(default_env) => match spec_strip_prefix(
                            rest[1],
                            "default_graphql_endpoint: "@,
                        ) {
                            Some(default_ep) => Some(
                                ConfigModel {
                                    environments: parsed.0,
                                    default_environment: scalar_value(default_env),
                                    default_graphql_endpoint: scalar_value(default_ep),
                                },
                            ),
                            None => None,
                        },
                        None => None,
                    }
                } else {
                    None
                }
            },
            None => None,
        }
    } else {
        None
    }
}

/// The configuration that a document denotes, if it parses.
pub open spec fn spec_parse_config(s: Seq<char>) -> Option<ConfigModel> {
    parse_config_lines(spec_split_lines(s))
}

/// An optional scalar the document can carry faithfully: no newline in the
/// value, and not the literal text `null`, which stands for absence.
pub open spec fn opt_field_ok(value: Option<Seq<char>>) -> bool {
    match value {
        Some(text) => line_ok(text) && text != "null"@,
        None => true,
    }
}

/// An environment the document can carry faithfully.
pub open spec fn env_entry_ok(env: EnvironmentModel) -> bool {
    line_ok(env.name) && opt_field_ok(env.endpoint)
}

/// A configuration the document can carry faithfully: every scalar free of
/// newlines, every optional scalar distinct from the `null` marker.
pub open spec fn doc_representable(c: ConfigModel) -> bool {
    &&& forall|i: int| 0 <= i < c.environments.len() ==> env_entry_ok(#[trigger] c.environments[i])
    &&& opt_field_ok(c.default_environment)
    &&& opt_field_ok(c.default_graphql_endpoint)
}

/// Append `value`'s text form to `doc`.
fn append_opt_scalar(doc: &mut String, value: &Option<String>)
    ensures
        final(doc)@ == old(doc)@ + opt_scalar(value.deep_view()),
{
    match value {
        Some(text) => doc.append(text.as_str()),
        None => doc.append("null"),
    }
}

/// The optional value that a scalar's text denotes, as an owned string.
fn parse_scalar(text: &str) -> (res: Option<String>)
    ensures
        res.deep_view() == scalar_value(text@),
{
    if str_eq(text, "null") {
        None
    } else {
        Some(String::from_str(text))
    }
}

/// How a configuration file reached the library: the file was missing,
/// unreadable (with the reason as text), or read in full.
#[derive(Debug)]
pub enum ConfigSource {
    Missing,
    Unreadable(String),
    Contents(String),
}

impl Config {
    /// Serialize the configuration as a YAML document.
    pub fn to_yaml(&self) -> (res: String)
        ensures
            res@ == spec_config_document(self@),
    {
        let ghost c = self@;
        let mut doc = String::from_str("environments:");
        doc.append("\n");
        proof {
            reveal_strlit("\n");
            assert(c.environments.take(0) =~= Seq::<EnvironmentModel>::empty());
            assert(seq!["environments:"@] + env_lines(c.environments.take(0)) =~= seq![
                "environments:"@,
            ]);
            lemma_join_one("environments:"@);
            assert(doc@ =~= spec_join_lines(
                seq!["environments:"@] + env_lines(c.environments.take(0)),
            ));
        }
        let n = self.environments.len();
        let mut i: usize = 0;
        while i < n
            invariant
                i <= n,
                n == self.environments.len(),
                c == self@,
                doc@ == spec_join_lines(
                    seq!["environments:"@] + env_lines(c.environments.take(i as int)),
                ),
            decreases n - i,
        {
            let env = &self.environments[i];
            let ghost before = doc@;
            doc.append("- name: ");
            doc.append(env.name.as_str());
            doc.append("\n");
            doc.append("  graphql_endpoint: ");
            append_opt_scalar(&mut doc, &env.graphql_endpoint);
            doc.append("\n");
            proof {
                reveal_strlit("\n");
                let em = c.environments[i as int];
                let l1 = "- name: "@ + em.name;
                let l2 = "  graphql_endpoint: "@ + opt_scalar(em.endpoint);
                assert(doc@ =~= before + (l1 + seq!['\n'] + (l2 + seq!['\n'])));
                assert(c.environments.take(i + 1) =~= c.environments.take(i as int).push(em));
                lemma_env_lines_push(c.environments.take(i as int), em);
                lemma_env_lines_one(em);
                lemma_join_lines_concat(
                    seq!["environments:"@] + env_lines(c.environments.take(i as int)),
                    seq![l1, l2],
                );
                assert((seq!["environments:"@] + env_lines(c.environments.take(i as int))) + seq![
                    l1,
                    l2,
                ] =~= seq!["environments:"@] + env_lines(c.environments.take(i + 1)));
                lemma_join_two(l1, l2);
                assert(doc@ =~= spec_join_lines(
                    seq!["environments:"@] + env_lines(c.environments.take(i + 1)),
                ));
            }
            i += 1;
        }
        let ghost body = seq!["environments:"@] + env_lines(c.environments);
        proof {
            assert(c.environments.take(n as int) =~= c.environments);
        }
        let ghost before = doc@;
        doc.append("default_environment: ");
        append_opt_scalar(&mut doc, &self.default_environment);
        doc.append("\n");
        doc.append("default_graphql_endpoint: ");
        append_opt_scalar(&mut doc, &self.default_graphql_endpoint);
        doc.append("\n");
        proof {
            reveal_strlit("\n");
            let d1 = "default_environment: "@ + opt_scalar(c.default_environment);
            let d2 = "default_graphql_endpoint: "@ + opt_scalar(c.default_graphql_endpoint);
            assert(doc@ =~= before + (d1 + seq!['\n'] + (d2 + seq!['\n'])));
            lemma_join_lines_concat(body, seq![d1, d2]);
            lemma_join_two(d1, d2);
            assert(body + seq![d1, d2] =~= config_lines(c));
            assert(doc@ =~= spec_join_lines(config_lines(c)));
        }
        doc
    }
}

impl Config {
    /// Parse a configuration document, strictly following the shape the
    /// serializer produces.
    pub fn parse_yaml(s: &str) -> (res: Option<Config>)
        ensures
            match res {
                Some(config) => spec_parse_config(s@) == Some(config@),
                None => spec_parse_config(s@) is None,
            },
    {
        let lines = split_lines(s);
        let ghost ls = spec_split_lines(s@);
        proof {
            assert(ls.len() == lines@.len());
        }
        if lines.len() == 0 {
            return None;
        }
        if !str_eq(lines[0].as_str(), "environments:") {
            return None;
        }
        let mut environments: Vec<Environment> = Vec::new();
        let mut i: usize = 1;
        proof {
            assert(environments.deep_view() =~= Seq::<EnvironmentModel>::empty());
            match parse_env_lines(ls.skip(1)) {
                Some(parsed) => {
                    assert(environments.deep_view() + parsed.0 =~= parsed.0);
                },
                None => {},
            }
        }
        while i < lines.len()
            invariant
                1 <= i <= ls.len(),
                ls == lines.deep_view(),
                ls == spec_split_lines(s@),
                ls.len() == lines@.len(),
                ls.first() == "environments:"@,
                match parse_env_lines(ls.skip(i as int)) {
                    Some(parsed) => parse_env_lines(ls.skip(1)) == Some(
                        (environments.deep_view() + parsed.0, parsed.1),
                    ),
                    None => parse_env_lines(ls.skip(1)) is None,
                },
            ensures
                1 <= i <= ls.len(),
                ls.len() == lines@.len(),
                parse_env_lines(ls.skip(i as int)) == Some(
                    (Seq::<EnvironmentModel>::empty(), ls.skip(i as int)),
                ),
                parse_env_lines(ls.skip(1)) == Some((environments.deep_view(), ls.skip(i as int))),
            decreases ls.len() - i,
        {
            proof {
                assert(ls.skip(i as int).first() == ls[i as int]);
                assert(ls[i as int] == lines@[i as int]@);
            }
            match strip_prefix(lines[i].as_str(), "- name: ") {
                None => {
                    proof {
                        assert(environments.deep_view() + Seq::<EnvironmentModel>::empty()
                            =~= environments.deep_view());
                    }
                    break ;
                },
                Some(name) => {
                    if i + 1 >= lines.len() {
                        proof {
                            assert(ls.skip(i as int).len() == 1);
                            assert(ls.drop_first() =~= ls.skip(1));
                        }
                        return None;
                    }
                    proof {
                        assert(ls.skip(i as int)[1] == ls[i + 1]);
                        assert(ls[i + 1] == lines@[i + 1]@);
                    }
                    match strip_prefix(lines[i + 1].as_str(), "  graphql_endpoint: ") {
                        None => {
                            proof {
                                assert(ls.drop_first() =~= ls.skip(1));
                            }
                            return None;
                        },
                        Some(value) => {
                            let endpoint = parse_scalar(value);
                            let ghost before = environments.deep_view();
                            let environment = Environment {
                                name: String::from_str(name),
                                graphql_endpoint: endpoint,
                            };
                            let ghost em = environment@;
                            environments.push(environment);
                            proof {
                                assert(environments.deep_view() =~= before.push(em));
                                assert(ls.skip(i as int).skip(2) =~= ls.skip(i + 2));
                                match parse_env_lines(ls.skip(i + 2)) {
                                    Some(parsed) => {
                                        assert(before.push(em) + parsed.0 =~= before + (seq![em]
                                            + parsed.0));
                                    },
                                    None => {},
                                }
                            }
                            i += 2;
                        },
                    }
                },
            }
        }
        if lines.len() - i != 2 {
            return None;
        }
        proof {
            assert(ls.skip(i as int).len() == 2);
            assert(ls.skip(i as int)[0] == ls[i as int]);
            assert(ls.skip(i as int)[1] == ls[i + 1]);
            assert(ls[i as int] == lines@[i as int]@);
            assert(ls[i + 1] == lines@[i + 1]@);
        }
        match strip_prefix(lines[i].as_str(), "default_environment: ") {
            None => {
                None
            },
            Some(default_env_text) => {
                match strip_prefix(lines[i + 1].as_str(), "default_graphql_endpoint: ") {
                    None => {
                        None
                    },
                    Some(default_ep_text) => {
                        let default_environment = parse_scalar(default_env_text);
                        let default_graphql_endpoint = parse_scalar(default_ep_text);
                        let ghost envs_model = environments.deep_view();
                        let config = Config {
                            environments,
                            default_environment,
                            default_graphql_endpoint,
                        };
                        proof {
                            assert(ls.drop_first() =~= ls.skip(1));
                            assert(config@.environments == envs_model);
                        }
                        Some(config)
                    },
                }
            },
        }
    }

    /// Turn the outcome of looking for a configuration file into the
    /// configuration to use, plus an advisory warning when the built-in
    /// default had to stand in. The warning is returned, never printed,
    /// so callers with a strict output format can suppress it.
    pub fn load(source: ConfigSource) -> (res: (Config, Option<String>))
        ensures
            match source {
                ConfigSource::Missing => res.0@ == spec_default_config() && res.1.deep_view()
                    == Some(spec_missing_warning()),
                ConfigSource::Unreadable(reason) => res.0@ == spec_default_config()
                    && res.1.deep_view() == Some(
                    "Could not read config file for reason: "@ + reason@
                        + "\nLoading default config"@,
                ),
                ConfigSource::Contents(text) => match spec_parse_config(text@) {
                    Some(model) => res.0@ == model && res.1 is None,
                    None => res.0@ == spec_default_config() && res.1.deep_view() == Some(
                        spec_malformed_warning(),
                    ),
                },
            },
    {
        match source {
            ConfigSource::Missing => {
                let warning = String::from_str(
                    "No config file exists in project; loading default.\nTo add a config either create gql_api_tester.yml in the project root or run:\n  $ gql_api_tester config init",
                );
                (Config::default(), Some(warning))
            },
            ConfigSource::Unreadable(reason) => {
                let mut warning = String::from_str("Could not read config file for reason: ");
                warning.append(reason.as_str());
                warning.append("\nLoading default config");
                (Config::default(), Some(warning))
            },
            ConfigSource::Contents(text) => {
                match Config::parse_yaml(text.as_str()) {
                    Some(config) => (config, None),
                    None => {
                        let warning = String::from_str(
                            "Error in format of config file: the document does not have the expected shape",
                        );
                        (Config::default(), Some(warning))
                    },
                }
            },
        }
    }
}

/// The warning returned when no configuration file exists.
pub open spec fn spec_missing_warning() -> Seq<char> {
    "No config file exists in project; loading default.\nTo add a config either create gql_api_tester.yml in the project root or run:\n  $ gql_api_tester config init"@
}

/// The warning returned when the configuration file does not parse.
pub open spec fn spec_malformed_warning() -> Seq<char> {
    "Error in format of config file: the document does not have the expected shape"@
}

/// An optional scalar survives its trip through the document's text form.
proof fn lemma_scalar_round_trip(value: Option<Seq<char>>)
    requires
        opt_field_ok(value),
    ensures
        scalar_value(opt_scalar(value)) == value,
{
}

/// Every line a representable environment sequence produces is newline-free.
proof fn lemma_env_lines_ok(envs: Seq<EnvironmentModel>)
    requires
        forall|k: int| 0 <= k < envs.len() ==> env_entry_ok(#[trigger] envs[k]),
    ensures
        forall|k: int| 0 <= k < env_lines(envs).len() ==> line_ok(#[trigger] env_lines(envs)[k]),
    decreases envs.len(),
{
    reveal_strlit("- name: ");
    reveal_strlit("  graphql_endpoint: ");
    reveal_strlit("null");
    if envs.len() == 0 {
    } else {
        let l1 = "- name: "@ + envs.first().name;
        let l2 = "  graphql_endpoint: "@ + opt_scalar(envs.first().endpoint);
        assert(env_entry_ok(envs[0]));
        assert(line_ok("- name: "@));
        assert(line_ok("  graphql_endpoint: "@));
        assert(line_ok("null"@));
        assert(line_ok(opt_scalar(envs.first().endpoint)));
        lemma_line_ok_concat("- name: "@, envs.first().name);
        lemma_line_ok_concat("  graphql_endpoint: "@, opt_scalar(envs.first().endpoint));
        assert forall|k: int| 0 <= k < envs.drop_first().len() implies env_entry_ok(
            #[trigger] envs.drop_first()[k],
        ) by {
            assert(envs.drop_first()[k] == envs[k + 1]);
        }
        lemma_env_lines_ok(envs.drop_first());
        assert(env_lines(envs) == seq![l1, l2] + env_lines(envs.drop_first()));
        assert forall|k: int| 0 <= k < env_lines(envs).len() implies line_ok(
            #[trigger] env_lines(envs)[k],
        ) by {
            if k == 0 {
                assert(env_lines(envs)[0] == l1);
            } else if k == 1 {
                assert(env_lines(envs)[1] == l2);
            } else {
                assert(env_lines(envs)[k] == env_lines(envs.drop_first())[k - 2]);
            }
        }
    }
}

/// Parsing undoes emitting the environment lines, whatever well-shaped
/// lines follow them, as long as the first of those is no environment item.
proof fn lemma_parse_env_lines_round_trip(envs: Seq<EnvironmentModel>, tail: Seq<Seq<char>>)
    requires
        forall|k: int| 0 <= k < envs.len() ==> env_entry_ok(#[trigger] envs[k]),
        tail.len() > 0,
        spec_strip_prefix(tail.first(), "- name: "@) is None,
    ensures
        parse_env_lines(env_lines(envs) + tail) == Some((envs, tail)),
    decreases envs.len(),
{
    if envs.len() == 0 {
        assert(env_lines(envs) + tail =~= tail);
        assert(envs =~= Seq::<EnvironmentModel>::empty());
    } else {
        let l1 = "- name: "@ + envs.first().name;
        let l2 = "  graphql_endpoint: "@ + opt_scalar(envs.first().endpoint);
        let el = env_lines(envs);
        let lines = el + tail;
        assert(el == seq![l1, l2] + env_lines(envs.drop_first()));
        assert(el[0] == l1);
        assert(el[1] == l2);
        assert(lines.first() == el[0]);
        assert(lines[1] == el[1]);
        assert(lines.len() >= 2);
        lemma_strip_prefix_of_concat("- name: "@, envs.first().name);
        lemma_strip_prefix_of_concat("  graphql_endpoint: "@, opt_scalar(envs.first().endpoint));
        assert(env_entry_ok(envs[0]));
        lemma_scalar_round_trip(envs.first().endpoint);
        assert(lines.skip(2) =~= env_lines(envs.drop_first()) + tail);
        assert forall|k: int| 0 <= k < envs.drop_first().len() implies env_entry_ok(
            #[trigger] envs.drop_first()[k],
        ) by {
            assert(envs.drop_first()[k] == envs[k + 1]);
        }
        lemma_parse_env_lines_round_trip(envs.drop_first(), tail);
        let em = EnvironmentModel {
            name: envs.first().name,
            endpoint: scalar_value(opt_scalar(envs.first().endpoint)),
        };
        assert(em =~= envs.first());
        assert(seq![envs.first()] + envs.drop_first() =~= envs);
    }
}

/// Serialization is lossless: parsing the document a representable
/// configuration produces yields that configuration back.
pub proof fn lemma_config_document_round_trip(c: ConfigModel)
    requires
        doc_representable(c),
    ensures
        spec_parse_config(spec_config_document(c)) == Some(c),
{
    reveal_strlit("environments:");
    reveal_strlit("- name: ");
    reveal_strlit("default_environment: ");
    reveal_strlit("default_graphql_endpoint: ");
    reveal_strlit("null");
    let d1 = "default_environment: "@ + opt_scalar(c.default_environment);
    let d2 = "default_graphql_endpoint: "@ + opt_scalar(c.default_graphql_endpoint);
    let el = env_lines(c.environments);
    let head = seq!["environments:"@] + el;
    let lines = config_lines(c);
    assert(lines == head + seq![d1, d2]);
    lemma_env_lines_ok(c.environments);
    assert(line_ok("environments:"@));
    assert(line_ok("null"@));
    assert(line_ok(opt_scalar(c.default_environment)));
    assert(line_ok(opt_scalar(c.default_graphql_endpoint)));
    lemma_line_ok_concat("default_environment: "@, opt_scalar(c.default_environment));
    lemma_line_ok_concat("default_graphql_endpoint: "@, opt_scalar(c.default_graphql_endpoint));
    assert forall|k: int| 0 <= k < lines.len() implies line_ok(#[trigger] lines[k]) by {
        if k == 0 {
            assert(head[0] == "environments:"@);
            assert(lines[0] == head[0]);
        } else if k < 1 + el.len() {
            assert(head[k] == el[k - 1]);
            assert(lines[k] == head[k]);
        } else if k == 1 + el.len() {
            assert(lines[k] == d1);
        } else {
            assert(lines[k] == d2);
        }
    }
    lemma_split_join(lines);
    assert(lines.first() == head[0]);
    assert(lines.drop_first() =~= el + seq![d1, d2]);
    assert(seq![d1, d2].first() == d1);
    assert(d1[0] == "default_environment: "@[0]);
    lemma_strip_prefix_mismatch(d1, "- name: "@);
    lemma_parse_env_lines_round_trip(c.environments, seq![d1, d2]);
    lemma_strip_prefix_of_concat("default_environment: "@, opt_scalar(c.default_environment));
    lemma_strip_prefix_of_concat(
        "default_graphql_endpoint: "@,
        opt_scalar(c.default_graphql_endpoint),
    );
    lemma_scalar_round_trip(c.default_environment);
    lemma_scalar_round_trip(c.default_graphql_endpoint);
    assert(seq![d1, d2][1] == d2);
    assert(parse_config_lines(lines) == Some(
        ConfigModel {
            environments: c.environments,
            default_environment: c.default_environment,
            default_graphql_endpoint: c.default_graphql_endpoint,
        },
    ));
    assert(ConfigModel {
        environments: c.environments,
        default_environment: c.default_environment,
        default_graphql_endpoint: c.default_graphql_endpoint,
    } =~= c);
}

/// Joining a single line appends one newline.
proof fn lemma_join_one(line: Seq<char>)
    ensures
        spec_join_lines(seq![line]) == line + seq!['\n'],
{
    assert(seq![line].drop_first() =~= Seq::<Seq<char>>::empty());
    assert(spec_join_lines(Seq::<Seq<char>>::empty()) == Seq::<char>::empty());
    assert(spec_join_lines(seq![line]) =~= line + seq!['\n']);
}

/// Joining two lines terminates each with a newline.
proof fn lemma_join_two(first_line: Seq<char>, second_line: Seq<char>)
    ensures
        spec_join_lines(seq![first_line, second_line]) == first_line + seq!['\n'] + (second_line
            + seq!['\n']),
{
    lemma_join_one(second_line);
    assert(seq![first_line, second_line].drop_first() =~= seq![second_line]);
    assert(spec_join_lines(seq![first_line, second_line]) =~= first_line + seq!['\n'] + (
    second_line + seq!['\n']));
}

/// The two lines of a single environment.
proof fn lemma_env_lines_one(env: EnvironmentModel)
    ensures
        env_lines(seq![env]) == seq![
            "- name: "@ + env.name,
            "  graphql_endpoint: "@ + opt_scalar(env.endpoint),
        ],
{
    assert(seq![env].drop_first() =~= Seq::<EnvironmentModel>::empty());
    assert(env_lines(Seq::<EnvironmentModel>::empty()) == Seq::<Seq<char>>::empty());
    assert(env_lines(seq![env]) =~= seq![
        "- name: "@ + env.name,
        "  graphql_endpoint: "@ + opt_scalar(env.endpoint),
    ]);
}

/// Appending one environment appends its two lines.
proof fn lemma_env_lines_push(envs: Seq<EnvironmentModel>, env: EnvironmentModel)
    ensures
        env_lines(envs.push(env)) == env_lines(envs) + env_lines(seq![env]),
    decreases envs.len(),
{
    if envs.len() == 0 {
        assert(envs.push(env) =~= seq![env]);
        assert(env_lines(envs) + env_lines(seq![env]) =~= env_lines(seq![env]));
    } else {
        assert(envs.push(env).first() == envs.first());
        assert(envs.push(env).drop_first() =~= envs.drop_first().push(env));
        lemma_env_lines_push(envs.drop_first(), env);
        assert(seq![
            "- name: "@ + envs.first().name,
            "  graphql_endpoint: "@ + opt_scalar(envs.first().endpoint),
        ] + (env_lines(envs.drop_first()) + env_lines(seq![env])) =~= (seq![
            "- name: "@ + envs.first().name,
            "  graphql_endpoint: "@ + opt_scalar(envs.first().endpoint),
        ] + env_lines(envs.drop_first())) + env_lines(seq![env]));
    }
}

} // verus!

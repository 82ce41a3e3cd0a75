use vstd::prelude::*;
use vstd::string::*;

use crate::document::{get, lookup, Value};
use crate::endpoints::{
    connector_ref, lemma_sinks_error_extends, lemma_sources_error_extends, sink_of, source_of,
    from_sinks, from_sources, sink_views, sinks_of, source_views, sources_of, SinkConfig,
    SinkModel, SourceConfig, SourceModel,
};
use crate::text::str_eq;

verus! {

/// How to reach a relational database (PostgreSQL, MySQL, SQL Server,
/// Oracle or SQLite).
#[derive(Debug, Clone)]
pub struct RdsConfig {
    pub host: String,
    pub port: u16,
    pub user: String,
    pub password: String,
}

/// How to reach a Kafka cluster.
#[derive(Debug, Clone)]
pub struct KafkaConfig {
    pub brokers: String,
}

/// How to reach a NATS server, and the topic to use there.
#[derive(Debug, Clone)]
pub struct NatsConfig {
    pub url: String,
    pub topic: String,
}

/// One configured external system.
#[derive(Debug, Clone)]
pub enum ConnectorConfig {
    Rds(RdsConfig),
    Kafka(KafkaConfig),
    Nats(NatsConfig),
}

impl ConnectorConfig {
    /// A copy of this configuration, equal to it field by field.
    pub fn duplicate(&self) -> (r: ConnectorConfig)
        ensures
            r == *self,
    {
        match self {
            ConnectorConfig::Rds(c) => ConnectorConfig::Rds(
                RdsConfig {
                    host: c.host.clone(),
                    port: c.port,
                    user: c.user.clone(),
                    password: c.password.clone(),
                },
            ),
            ConnectorConfig::Kafka(c) => ConnectorConfig::Kafka(
                KafkaConfig { brokers: c.brokers.clone() },
            ),
            ConnectorConfig::Nats(c) => ConnectorConfig::Nats(
                NatsConfig { url: c.url.clone(), topic: c.topic.clone() },
            ),
        }
    }
}

/// What went wrong while loading a configuration document.
#[derive(Debug, Clone, Copy, PartialEq, Eq, Structural)]
pub enum ErrorKind {
    /// A required key is absent.
    Missing,
    /// A value has the wrong type (a port that is not an integer in range, ...).
    TypeMismatch,
    /// A field type token names no known type.
    UnknownFieldType,
    /// A name refers to a connector, source, sink or transform that does not exist.
    UnresolvedReference,
}

/// A load error, with the key path of the offending entry.
#[derive(Debug, Clone)]
pub struct ConfigError {
    pub kind: ErrorKind,
    pub path: Vec<String>,
}

/// A load error as a value: its kind and its key path.
pub ghost struct ErrorModel {
    pub kind: ErrorKind,
    pub path: Seq<Seq<char>>,
}

/// The text of each segment of a key path.
pub open spec fn texts(p: Seq<String>) -> Seq<Seq<char>> {
    p.map_values(|s: String| s@)
}

impl View for ConfigError {
    type V = ErrorModel;

    open spec fn view(&self) -> ErrorModel {
        ErrorModel { kind: self.kind, path: texts(self.path@) }
    }
}

/// A result whose error is seen as an `ErrorModel`.
pub open spec fn res_view<T>(r: Result<T, ConfigError>) -> Result<T, ErrorModel> {
    match r {
        Ok(x) => Ok(x),
        Err(e) => Err(e@),
    }
}

pub open spec fn fail<T>(kind: ErrorKind, path: Seq<Seq<char>>) -> Result<T, ErrorModel> {
    Err(ErrorModel { kind, path })
}

/// The string under `key` in table `t`, whose key path is `p`.
pub open spec fn req_str(t: Seq<(String, Value)>, key: Seq<char>, p: Seq<Seq<char>>) -> Result<
    String,
    ErrorModel,
> {
    match lookup(t, key) {
        None => fail(ErrorKind::Missing, p.push(key)),
        Some(Value::Str(s)) => Ok(s),
        Some(_) => fail(ErrorKind::TypeMismatch, p.push(key)),
    }
}

/// The port number under `key`: an integer that fits in 16 bits.
pub open spec fn req_port(t: Seq<(String, Value)>, key: Seq<char>, p: Seq<Seq<char>>) -> Result<
    u16,
    ErrorModel,
> {
    match lookup(t, key) {
        None => fail(ErrorKind::Missing, p.push(key)),
        Some(Value::Int(n)) => if 0 <= n <= 65535 {
            Ok(n as u16)
        } else {
            fail(ErrorKind::TypeMismatch, p.push(key))
        },
        Some(_) => fail(ErrorKind::TypeMismatch, p.push(key)),
    }
}

/// The connector types served by the relational variant.
pub open spec fn is_rds_type(ty: Seq<char>) -> bool {
    ty == "postgres"@ || ty == "mysql"@ || ty == "mssql"@ || ty == "oracle"@ || ty == "sqlite"@
}

pub open spec fn rds_of(t: Seq<(String, Value)>, p: Seq<Seq<char>>) -> Result<
    ConnectorConfig,
    ErrorModel,
> {
    match req_str(t, "host"@, p) {
        Err(e) => Err(e),
        Ok(host) => match req_port(t, "port"@, p) {
            Err(e) => Err(e),
            Ok(port) => match req_str(t, "user"@, p) {
                Err(e) => Err(e),
                Ok(user) => match req_str(t, "password"@, p) {
                    Err(e) => Err(e),
                    Ok(password) => Ok(
                        ConnectorConfig::Rds(RdsConfig { host, port, user, password }),
                    ),
                },
            },
        },
    }
}

pub open spec fn kafka_of(t: Seq<(String, Value)>, p: Seq<Seq<char>>) -> Result<
    ConnectorConfig,
    ErrorModel,
> {
    match req_str(t, "brokers"@, p) {
        Err(e) => Err(e),
        Ok(brokers) => Ok(ConnectorConfig::Kafka(KafkaConfig { brokers })),
    }
}

pub open spec fn nats_of(t: Seq<(String, Value)>, p: Seq<Seq<char>>) -> Result<
    ConnectorConfig,
    ErrorModel,
> {
    match req_str(t, "url"@, p) {
        Err(e) => Err(e),
        Ok(url) => match req_str(t, "topic"@, p) {
            Err(e) => Err(e),
            Ok(topic) => Ok(ConnectorConfig::Nats(NatsConfig { url, topic })),
        },
    }
}

/// One entry of the `connectors` table: its configuration, or `None` when its
/// type is not one that a connector variant serves.
pub open spec fn connector_of(name: String, v: Value) -> Result<Option<ConnectorConfig>, ErrorModel> {
    let p = seq!["connectors"@, name@];
    match v {
        Value::Table(t) => match req_str(t@, "type"@, p) {
            Err(e) => Err(e),
            Ok(ty) => if is_rds_type(ty@) {
                match rds_of(t@, p) {
                    Err(e) => Err(e),
                    Ok(c) => Ok(Some(c)),
                }
            } else if ty@ == "kafka"@ {
                match kafka_of(t@, p) {
                    Err(e) => Err(e),
                    Ok(c) => Ok(Some(c)),
                }
            } else if ty@ == "nats"@ {
                match nats_of(t@, p) {
                    Err(e) => Err(e),
                    Ok(c) => Ok(Some(c)),
                }
            } else {
                Ok(None)
            },
        },
        _ => fail(ErrorKind::TypeMismatch, p),
    }
}

/// The connector registry that the entries of a `connectors` table give, in
/// their order, and the names of the entries dropped for an unknown type.
pub open spec fn connectors_of(entries: Seq<(String, Value)>) -> Result<
    (Seq<(String, ConnectorConfig)>, Seq<String>),
    ErrorModel,
>
    decreases entries.len(),
{
    if entries.len() == 0 {
        Ok((Seq::empty(), Seq::empty()))
    } else {
        match connectors_of(entries.drop_last()) {
            Err(e) => Err(e),
            Ok((reg, skipped)) => {
                let (name, v) = entries.last();
                match connector_of(name, v) {
                    Err(e) => Err(e),
                    Ok(Some(c)) => Ok((reg.push((name, c)), skipped)),
                    Ok(None) => Ok((reg, skipped.push(name))),
                }
            },
        }
    }
}

/// A key path: `p` with `k` appended.
pub(crate) fn key_path(p: &Vec<String>, k: &str) -> (r: Vec<String>)
    ensures
        texts(r@) == texts(p@).push(k@),
{
    let mut r: Vec<String> = Vec::new();
    let mut i: usize = 0;
    while i < p.len()
        invariant
            i <= p@.len(),
            r@ == p@.subrange(0, i as int),
        decreases p@.len() - i,
    {
        r.push(p[i].clone());
        proof {
            assert(r@ =~= p@.subrange(0, i + 1));
        }
        i = i + 1;
    }
    assert(r@ =~= p@);
    r.push(String::from_str(k));
    assert(texts(r@) =~= texts(p@).push(k@));
    r
}

pub(crate) fn err<T>(kind: ErrorKind, path: Vec<String>) -> (r: Result<T, ConfigError>)
    ensures
        res_view(r) == fail::<T>(kind, texts(path@)),
{
    Err(ConfigError { kind, path })
}

pub(crate) fn require_str(t: &Vec<(String, Value)>, key: &str, p: &Vec<String>) -> (r: Result<
    String,
    ConfigError,
>)
    ensures
        res_view(r) == req_str(t@, key@, texts(p@)),
{
    match get(t, key) {
        None => err(ErrorKind::Missing, key_path(p, key)),
        Some(Value::Str(s)) => Ok(s.clone()),
        Some(_) => err(ErrorKind::TypeMismatch, key_path(p, key)),
    }
}

fn require_port(t: &Vec<(String, Value)>, key: &str, p: &Vec<String>) -> (r: Result<
    u16,
    ConfigError,
>)
    ensures
        res_view(r) == req_port(t@, key@, texts(p@)),
{
    match get(t, key) {
        None => err(ErrorKind::Missing, key_path(p, key)),
        Some(Value::Int(n)) => {
            if 0 <= *n && *n <= 65535 {
                Ok(*n as u16)
            } else {
                err(ErrorKind::TypeMismatch, key_path(p, key))
            }
        },
        Some(_) => err(ErrorKind::TypeMismatch, key_path(p, key)),
    }
}

fn rds_from(t: &Vec<(String, Value)>, p: &Vec<String>) -> (r: Result<ConnectorConfig, ConfigError>)
    ensures
        res_view(r) == rds_of(t@, texts(p@)),
{
    let host = match require_str(t, "host", p) {
        Ok(s) => s,
        Err(e) => return Err(e),
    };
    let port = match require_port(t, "port", p) {
        Ok(n) => n,
        Err(e) => return Err(e),
    };
    let user = match require_str(t, "user", p) {
        Ok(s) => s,
        Err(e) => return Err(e),
    };
    let password = match require_str(t, "password", p) {
        Ok(s) => s,
        Err(e) => return Err(e),
    };
    Ok(ConnectorConfig::Rds(RdsConfig { host, port, user, password }))
}

fn kafka_from(t: &Vec<(String, Value)>, p: &Vec<String>) -> (r: Result<ConnectorConfig, ConfigError>)
    ensures
        res_view(r) == kafka_of(t@, texts(p@)),
{
    match require_str(t, "brokers", p) {
        Ok(brokers) => Ok(ConnectorConfig::Kafka(KafkaConfig { brokers })),
        Err(e) => Err(e),
    }
}

fn nats_from(t: &Vec<(String, Value)>, p: &Vec<String>) -> (r: Result<ConnectorConfig, ConfigError>)
    ensures
        res_view(r) == nats_of(t@, texts(p@)),
{
    let url = match require_str(t, "url", p) {
        Ok(s) => s,
        Err(e) => return Err(e),
    };
    match require_str(t, "topic", p) {
        Ok(topic) => Ok(ConnectorConfig::Nats(NatsConfig { url, topic })),
        Err(e) => Err(e),
    }
}

/// The relational connector types.
pub fn is_rds(ty: &str) -> (r: bool)
    ensures
        r == is_rds_type(ty@),
{
    str_eq(ty, "postgres") || str_eq(ty, "mysql") || str_eq(ty, "mssql") || str_eq(ty, "oracle")
        || str_eq(ty, "sqlite")
}

/// Reads one entry of the `connectors` table.
pub fn connector_from(name: &String, v: &Value) -> (r: Result<Option<ConnectorConfig>, ConfigError>)
    ensures
        res_view(r) == connector_of(*name, *v),
{
    let p = vec![String::from_str("connectors"), name.clone()];
    assert(texts(p@) =~= seq!["connectors"@, name@]);
    match v {
        Value::Table(t) => {
            let ty = match require_str(t, "type", &p) {
                Ok(s) => s,
                Err(e) => return Err(e),
            };
            let c = if is_rds(ty.as_str()) {
                rds_from(t, &p)
            } else if str_eq(ty.as_str(), "kafka") {
                kafka_from(t, &p)
            } else if str_eq(ty.as_str(), "nats") {
                nats_from(t, &p)
            } else {
                return Ok(None);
            };
            match c {
                Ok(c) => Ok(Some(c)),
                Err(e) => Err(e),
            }
        },
        _ => err(ErrorKind::TypeMismatch, p),
    }
}

/// Builds the connector registry from the entries of the `connectors` table.
/// Entries of an unknown type are left out, and their names returned beside
/// the registry.
pub fn from_connectors(entries: &Vec<(String, Value)>) -> (r: Result<
    (Vec<(String, ConnectorConfig)>, Vec<String>),
    ConfigError,
>)
    ensures
        match r {
            Ok((reg, skipped)) => connectors_of(entries@) == Ok::<_, ErrorModel>((reg@, skipped@)),
            Err(e) => connectors_of(entries@) == Err::<(Seq<(String, ConnectorConfig)>, Seq<String>), _>(e@),
        },
{
    let mut reg: Vec<(String, ConnectorConfig)> = Vec::new();
    let mut skipped: Vec<String> = Vec::new();
    let mut i: usize = 0;
    while i < entries.len()
        invariant
            i <= entries@.len(),
            connectors_of(entries@.subrange(0, i as int)) == Ok::<_, ErrorModel>((reg@, skipped@)),
        decreases entries@.len() - i,
    {
        let ghost pre = entries@.subrange(0, i + 1);
        assert(pre.drop_last() =~= entries@.subrange(0, i as int));
        let (name, v) = &entries[i];
        match connector_from(name, v) {
            Err(e) => {
                proof {
                    lemma_connectors_error_extends(entries@, i as int + 1);
                }
                return Err(e);
            },
            Ok(Some(c)) => reg.push((name.clone(), c)),
            Ok(None) => skipped.push(name.clone()),
        }
        i = i + 1;
    }
    assert(entries@.subrange(0, entries@.len() as int) =~= entries@);
    Ok((reg, skipped))
}

/// An error in the first `n` entries is the error of the whole table.
proof fn lemma_connectors_error_extends(entries: Seq<(String, Value)>, n: int)
    requires
        0 <= n <= entries.len(),
        connectors_of(entries.subrange(0, n)) is Err,
    ensures
        connectors_of(entries) == connectors_of(entries.subrange(0, n)),
    decreases entries.len() - n,
{
    if n < entries.len() {
        assert(entries.subrange(0, n + 1).drop_last() =~= entries.subrange(0, n));
        lemma_connectors_error_extends(entries, n + 1);
    } else {
        assert(entries.subrange(0, n) =~= entries);
    }
}

/// The whole configuration of a pipeline run.
#[derive(Debug, Clone)]
pub struct ConfigSpec {
    pub name: String,
    pub description: String,
    pub version: String,
    /// The connector registry, in document order.
    pub connectors: Vec<(String, ConnectorConfig)>,
    /// Connectors left out of the registry because their type is unknown.
    pub skipped_connectors: Vec<String>,
    pub sources: Vec<(String, SourceConfig)>,
    pub sinks: Vec<(String, SinkConfig)>,
    /// The stage names, in order.
    pub pipeline: Vec<String>,
}

pub ghost struct ConfigModel {
    pub name: String,
    pub description: String,
    pub version: String,
    pub connectors: Seq<(String, ConnectorConfig)>,
    pub skipped_connectors: Seq<String>,
    pub sources: Seq<(String, SourceModel)>,
    pub sinks: Seq<(String, SinkModel)>,
    pub pipeline: Seq<Seq<char>>,
}

impl View for ConfigSpec {
    type V = ConfigModel;

    open spec fn view(&self) -> ConfigModel {
        ConfigModel {
            name: self.name,
            description: self.description,
            version: self.version,
            connectors: self.connectors@,
            skipped_connectors: self.skipped_connectors@,
            sources: source_views(self.sources@),
            sinks: sink_views(self.sinks@),
            pipeline: texts(self.pipeline@),
        }
    }
}

/// A top-level section: a table, or nothing where the key is absent.
pub open spec fn section_of(top: Seq<(String, Value)>, key: Seq<char>) -> Result<
    Seq<(String, Value)>,
    ErrorModel,
> {
    match lookup(top, key) {
        None => Ok(Seq::empty()),
        Some(Value::Table(t)) => Ok(t@),
        Some(_) => fail(ErrorKind::TypeMismatch, seq![key]),
    }
}

pub open spec fn stage_names(items: Seq<Value>) -> Result<Seq<Seq<char>>, ErrorModel>
    decreases items.len(),
{
    if items.len() == 0 {
        Ok(Seq::empty())
    } else {
        match stage_names(items.drop_last()) {
            Err(e) => Err(e),
            Ok(names) => match items.last() {
                Value::Str(s) => Ok(names.push(s@)),
                _ => fail(ErrorKind::TypeMismatch, seq!["pipeline"@]),
            },
        }
    }
}

/// The stage list: the `pipeline` array, or the single system stage where
/// the key is absent.
pub open spec fn pipeline_of(top: Seq<(String, Value)>) -> Result<Seq<Seq<char>>, ErrorModel> {
    match lookup(top, "pipeline"@) {
        None => Ok(seq!["system"@]),
        Some(Value::Array(items)) => stage_names(items@),
        Some(_) => fail(ErrorKind::TypeMismatch, seq!["pipeline"@]),
    }
}

/// A stage name resolves when it names a source, a sink, the built-in
/// `system` stage, or
/// one of the registered transforms.
pub open spec fn resolves(
    stage: Seq<char>,
    sources: Seq<(String, SourceModel)>,
    sinks: Seq<(String, SinkModel)>,
    transforms: Seq<Seq<char>>,
) -> bool {
    lookup(sources, stage) is Some || lookup(sinks, stage) is Some || stage == "system"@
        || transforms.contains(stage)
}

/// The first stage name that does not resolve.
pub open spec fn first_unresolved(
    stages: Seq<Seq<char>>,
    sources: Seq<(String, SourceModel)>,
    sinks: Seq<(String, SinkModel)>,
    transforms: Seq<Seq<char>>,
) -> Option<Seq<char>>
    decreases stages.len(),
{
    if stages.len() == 0 {
        None
    } else if !resolves(stages[0], sources, sinks, transforms) {
        Some(stages[0])
    } else {
        first_unresolved(stages.drop_first(), sources, sinks, transforms)
    }
}

/// What loading a document gives, with `transforms` registered as the
/// transform stages: the header strings, then the connectors, sources, sinks
/// and stage list, each checked in that order; the first problem found is the
/// error.
pub open spec fn load_of(doc: Value, transforms: Seq<Seq<char>>) -> Result<ConfigModel, ErrorModel> {
    match doc {
        Value::Table(top) => match req_str(top@, "name"@, seq![]) {
            Err(e) => Err(e),
            Ok(name) => match req_str(top@, "description"@, seq![]) {
                Err(e) => Err(e),
                Ok(description) => match req_str(top@, "version"@, seq![]) {
                    Err(e) => Err(e),
                    Ok(version) => load_sections(top@, name, description, version, transforms),
                },
            },
        },
        _ => fail(ErrorKind::TypeMismatch, seq![]),
    }
}

pub open spec fn load_sections(
    top: Seq<(String, Value)>,
    name: String,
    description: String,
    version: String,
    transforms: Seq<Seq<char>>,
) -> Result<ConfigModel, ErrorModel> {
    match section_of(top, "connectors"@) {
        Err(e) => Err(e),
        Ok(ct) => match connectors_of(ct) {
            Err(e) => Err(e),
            Ok((connectors, skipped_connectors)) => match section_of(top, "sources"@) {
                Err(e) => Err(e),
                Ok(st) => match sources_of(connectors, st) {
                    Err(e) => Err(e),
                    Ok(sources) => match section_of(top, "sinks"@) {
                        Err(e) => Err(e),
                        Ok(kt) => match sinks_of(connectors, kt) {
                            Err(e) => Err(e),
                            Ok(sinks) => match pipeline_of(top) {
                                Err(e) => Err(e),
                                Ok(pipeline) => match first_unresolved(
                                    pipeline,
                                    sources,
                                    sinks,
                                    transforms,
                                ) {
                                    Some(stage) => fail(
                                        ErrorKind::UnresolvedReference,
                                        seq!["pipeline"@, stage],
                                    ),
                                    None => Ok(
                                        ConfigModel {
                                            name,
                                            description,
                                            version,
                                            connectors,
                                            skipped_connectors,
                                            sources,
                                            sinks,
                                            pipeline,
                                        },
                                    ),
                                },
                            },
                        },
                    },
                },
            },
        },
    }
}

fn section_from<'a>(top: &'a Vec<(String, Value)>, key: &str) -> (r: Result<
    Option<&'a Vec<(String, Value)>>,
    ConfigError,
>)
    ensures
        match r {
            Ok(Some(t)) => section_of(top@, key@) == Ok::<_, ErrorModel>(t@),
            Ok(None) => section_of(top@, key@) == Ok::<_, ErrorModel>(
                Seq::<(String, Value)>::empty(),
            ),
            Err(e) => section_of(top@, key@) == Err::<Seq<(String, Value)>, _>(e@),
        },
{
    match get(top, key) {
        None => Ok(None),
        Some(Value::Table(t)) => Ok(Some(t)),
        Some(_) => {
            let p = vec![String::from_str(key)];
            assert(texts(p@) =~= seq![key@]);
            err(ErrorKind::TypeMismatch, p)
        },
    }
}

proof fn lemma_stages_error_extends(items: Seq<Value>, n: int)
    requires
        0 <= n <= items.len(),
        stage_names(items.subrange(0, n)) is Err,
    ensures
        stage_names(items) == stage_names(items.subrange(0, n)),
    decreases items.len() - n,
{
    if n < items.len() {
        assert(items.subrange(0, n + 1).drop_last() =~= items.subrange(0, n));
        lemma_stages_error_extends(items, n + 1);
    } else {
        assert(items.subrange(0, n) =~= items);
    }
}

/// Reads the stage list of the document whose top-level entries are `top`.
pub fn pipeline_from(top: &Vec<(String, Value)>) -> (r: Result<Vec<String>, ConfigError>)
    ensures
        match r {
            Ok(stages) => pipeline_of(top@) == Ok::<_, ErrorModel>(texts(stages@)),
            Err(e) => pipeline_of(top@) == Err::<Seq<Seq<char>>, _>(e@),
        },
{
    match get(top, "pipeline") {
        None => {
            let stages = vec![String::from_str("system")];
            assert(texts(stages@) =~= seq!["system"@]);
            Ok(stages)
        },
        Some(Value::Array(items)) => {
            let mut stages: Vec<String> = Vec::new();
            let mut i: usize = 0;
            assert(texts(stages@) =~= Seq::empty());
            while i < items.len()
                invariant
                    i <= items@.len(),
                    lookup(top@, "pipeline"@) == Some(Value::Array(*items)),
                    stage_names(items@.subrange(0, i as int)) == Ok::<_, ErrorModel>(
                        texts(stages@),
                    ),
                decreases items@.len() - i,
            {
                assert(items@.subrange(0, i + 1).drop_last() =~= items@.subrange(0, i as int));
                assert(items@.subrange(0, i + 1).last() == items@[i as int]);
                let ghost before = stages@;
                match &items[i] {
                    Value::Str(s) => {
                        stages.push(s.clone());
                        assert(texts(stages@) =~= texts(before).push(s@));
                    },
                    _ => {
                        let p = vec![String::from_str("pipeline")];
                        assert(texts(p@) =~= seq!["pipeline"@]);
                        proof {
                            lemma_stages_error_extends(items@, i + 1);
                        }
                        return err(ErrorKind::TypeMismatch, p);
                    },
                }
                i = i + 1;
            }
            assert(items@.subrange(0, items@.len() as int) =~= items@);
            Ok(stages)
        },
        Some(_) => {
            let p = vec![String::from_str("pipeline")];
            assert(texts(p@) =~= seq!["pipeline"@]);
            err(ErrorKind::TypeMismatch, p)
        },
    }
}

fn contains_text(names: &Vec<String>, s: &str) -> (r: bool)
    ensures
        r == texts(names@).contains(s@),
{
    let mut i: usize = 0;
    while i < names.len()
        invariant
            i <= names@.len(),
            forall|j: int| 0 <= j < i ==> names@[j]@ != s@,
        decreases names@.len() - i,
    {
        if str_eq(names[i].as_str(), s) {
            assert(texts(names@)[i as int] == s@);
            return true;
        }
        i = i + 1;
    }
    proof {
        if texts(names@).contains(s@) {
            let j = choose|j: int| 0 <= j < texts(names@).len() && texts(names@)[j] == s@;
            assert(names@[j]@ == s@);
        }
    }
    false
}

/// Whether a stage name resolves (see `resolves`).
pub fn stage_resolves(
    stage: &str,
    sources: &Vec<(String, SourceConfig)>,
    sinks: &Vec<(String, SinkConfig)>,
    transforms: &Vec<String>,
) -> (r: bool)
    ensures
        r == resolves(stage@, source_views(sources@), sink_views(sinks@), texts(transforms@)),
{
    proof {
        lemma_lookup_views(sources@, stage@);
        lemma_lookup_sink_views(sinks@, stage@);
    }
    get(sources, stage).is_some() || get(sinks, stage).is_some() || str_eq(stage, "system")
        || contains_text(transforms, stage)
}

proof fn lemma_lookup_views(
    s: Seq<(String, SourceConfig)>,
    key: Seq<char>,
)
    ensures
        (lookup(source_views(s), key) is Some) == (lookup(s, key) is Some),
    decreases s.len(),
{
    if s.len() > 0 {
        assert(source_views(s).drop_first() =~= source_views(s.drop_first()));
        lemma_lookup_views(s.drop_first(), key);
    }
}

proof fn lemma_lookup_sink_views(s: Seq<(String, SinkConfig)>, key: Seq<char>)
    ensures
        (lookup(sink_views(s), key) is Some) == (lookup(s, key) is Some),
    decreases s.len(),
{
    if s.len() > 0 {
        assert(sink_views(s).drop_first() =~= sink_views(s.drop_first()));
        lemma_lookup_sink_views(s.drop_first(), key);
    }
}

/// The first stage that does not resolve, if any.
pub fn find_unresolved(
    stages: &Vec<String>,
    sources: &Vec<(String, SourceConfig)>,
    sinks: &Vec<(String, SinkConfig)>,
    transforms: &Vec<String>,
) -> (r: Option<usize>)
    ensures
        match r {
            Some(i) => i < stages@.len() && first_unresolved(
                texts(stages@),
                source_views(sources@),
                sink_views(sinks@),
                texts(transforms@),
            ) == Some(stages@[i as int]@),
            None => first_unresolved(
                texts(stages@),
                source_views(sources@),
                sink_views(sinks@),
                texts(transforms@),
            ) is None,
        },
{
    let ghost srcs = source_views(sources@);
    let ghost snks = sink_views(sinks@);
    let ghost trs = texts(transforms@);
    let mut i: usize = 0;
    assert(texts(stages@).subrange(0, stages@.len() as int) =~= texts(stages@));
    while i < stages.len()
        invariant
            i <= stages@.len(),
            srcs == source_views(sources@),
            snks == sink_views(sinks@),
            trs == texts(transforms@),
            first_unresolved(texts(stages@), srcs, snks, trs) == first_unresolved(
                texts(stages@).subrange(i as int, stages@.len() as int),
                srcs,
                snks,
                trs,
            ),
        decreases stages@.len() - i,
    {
        let ghost rest = texts(stages@).subrange(i as int, stages@.len() as int);
        assert(rest.drop_first() =~= texts(stages@).subrange(i + 1, stages@.len() as int));
        assert(rest[0] == stages@[i as int]@);
        if !stage_resolves(stages[i].as_str(), sources, sinks, transforms) {
            return Some(i);
        }
        i = i + 1;
    }
    None
}

impl ConfigSpec {
    /// Loads a configuration from a parsed document, with `transforms` as the
    /// names of the registered transform stages.
    pub fn from_document(doc: &Value, transforms: &Vec<String>) -> (r: Result<ConfigSpec, ConfigError>)
        ensures
            match r {
                Ok(c) => load_of(*doc, texts(transforms@)) == Ok::<_, ErrorModel>(c@),
                Err(e) => load_of(*doc, texts(transforms@)) == Err::<ConfigModel, _>(e@),
            },
    {
        let top = match doc {
            Value::Table(t) => t,
            _ => {
                let p: Vec<String> = Vec::new();
                assert(texts(p@) =~= Seq::empty());
                return err(ErrorKind::TypeMismatch, p);
            },
        };
        let root: Vec<String> = Vec::new();
        assert(texts(root@) =~= Seq::empty());
        let name = match require_str(top, "name", &root) {
            Ok(s) => s,
            Err(e) => return Err(e),
        };
        let description = match require_str(top, "description", &root) {
            Ok(s) => s,
            Err(e) => return Err(e),
        };
        let version = match require_str(top, "version", &root) {
            Ok(s) => s,
            Err(e) => return Err(e),
        };
        let empty: Vec<(String, Value)> = Vec::new();
        let ct = match section_from(top, "connectors") {
            Ok(Some(t)) => t,
            Ok(None) => &empty,
            Err(e) => return Err(e),
        };
        let (connectors, skipped_connectors) = match from_connectors(ct) {
            Ok(x) => x,
            Err(e) => return Err(e),
        };
        let st = match section_from(top, "sources") {
            Ok(Some(t)) => t,
            Ok(None) => &empty,
            Err(e) => return Err(e),
        };
        let sources = match from_sources(&connectors, st) {
            Ok(x) => x,
            Err(e) => return Err(e),
        };
        let kt = match section_from(top, "sinks") {
            Ok(Some(t)) => t,
            Ok(None) => &empty,
            Err(e) => return Err(e),
        };
        let sinks = match from_sinks(&connectors, kt) {
            Ok(x) => x,
            Err(e) => return Err(e),
        };
        let pipeline = match pipeline_from(top) {
            Ok(x) => x,
            Err(e) => return Err(e),
        };
        match find_unresolved(&pipeline, &sources, &sinks, transforms) {
            Some(i) => {
                let p = vec![String::from_str("pipeline"), pipeline[i].clone()];
                assert(texts(p@) =~= seq!["pipeline"@, pipeline@[i as int]@]);
                err(ErrorKind::UnresolvedReference, p)
            },
            None => Ok(
                ConfigSpec {
                    name,
                    description,
                    version,
                    connectors,
                    skipped_connectors,
                    sources,
                    sinks,
                    pipeline,
                },
            ),
        }
    }
}

/// Loading is deterministic: two loads of the same document, with the same
/// registered transforms, give structurally equal configurations.
pub proof fn lemma_load_deterministic(
    doc: Value,
    transforms: Seq<Seq<char>>,
    first: ConfigSpec,
    second: ConfigSpec,
)
    requires
        load_of(doc, transforms) == Ok::<_, ErrorModel>(first@),
        load_of(doc, transforms) == Ok::<_, ErrorModel>(second@),
    ensures
        first@ == second@,
{
}

/// An entry of the `connectors` table whose type is a string that no variant
/// serves is no error: it is left out of the registry and its name is
/// recorded among the skipped connectors (entry names being distinct, as a
/// document's keys are).
pub proof fn lemma_unknown_type_skipped(entries: Seq<(String, Value)>, i: int)
    requires
        0 <= i < entries.len(),
        forall|j: int| 0 <= j < entries.len() && j != i ==> entries[j].0@ != entries[i].0@,
        entries[i].1 matches Value::Table(t) && (lookup(t@, "type"@) matches Some(Value::Str(ty))
            && !is_rds_type(ty@) && ty@ != "kafka"@ && ty@ != "nats"@),
    ensures
        connector_of(entries[i].0, entries[i].1) == Ok::<Option<ConnectorConfig>, ErrorModel>(None),
        connectors_of(entries) matches Ok((reg, skipped)) ==> skipped.contains(entries[i].0)
            && lookup(reg, entries[i].0@) is None,
    decreases entries.len(),
{
    if entries.len() > i + 1 {
        let pre = entries.drop_last();
        lemma_unknown_type_skipped(pre, i);
        if let Ok((reg, skipped)) = connectors_of(entries) {
            let (preg, pskipped) = connectors_of(pre)->Ok_0;
            let (name, v) = entries.last();
            if let Ok(Some(c)) = connector_of(name, v) {
                assert(reg == preg.push((name, c)));
                lemma_lookup_push(preg, (name, c), entries[i].0@);
            } else {
                assert(skipped == pskipped.push(name));
                assert(pskipped.contains(entries[i].0));
                let k = choose|k: int| 0 <= k < pskipped.len() && pskipped[k] == entries[i].0;
                assert(skipped[k] == entries[i].0);
            }
        }
    } else {
        let pre = entries.drop_last();
        if let Ok((reg, skipped)) = connectors_of(entries) {
            assert(skipped.last() == entries[i].0);
            lemma_lookup_absent(reg, pre, entries[i].0@);
        }
    }
}

/// At the level of a whole document: a connector of unknown type is absent
/// from the registry of a loaded configuration and recorded as skipped; and a
/// document in which a source or sink still refers to it does not load.
pub proof fn lemma_unknown_type_after_load(
    doc: Value,
    transforms: Seq<Seq<char>>,
    i: int,
    in_sources: bool,
    j: int,
)
    requires
        doc matches Value::Table(top) && (section_of(top@, "connectors"@) matches Ok(ct) && ({
            &&& 0 <= i < ct.len()
            &&& forall|k: int| 0 <= k < ct.len() && k != i ==> ct[k].0@ != ct[i].0@
            &&& ct[i].1 matches Value::Table(t) && (lookup(t@, "type"@) matches Some(
                Value::Str(ty),
            ) && !is_rds_type(ty@) && ty@ != "kafka"@ && ty@ != "nats"@)
        })),
    ensures
        load_of(doc, transforms) matches Ok(m) ==> m.skipped_connectors.contains(
            section_of(doc->Table_0@, "connectors"@)->Ok_0[i].0,
        ) && lookup(m.connectors, section_of(doc->Table_0@, "connectors"@)->Ok_0[i].0@) is None,
        (section_of(
            doc->Table_0@,
            if in_sources {
                "sources"@
            } else {
                "sinks"@
            },
        ) matches Ok(es) && 0 <= j < es.len() && (es[j].1 matches Value::Table(t) && lookup(
            t@,
            "connector"@,
        ) == Some(Value::Str(section_of(doc->Table_0@, "connectors"@)->Ok_0[i].0))))
            ==> !(load_of(doc, transforms) is Ok),
{
    let top = doc->Table_0;
    let ct = section_of(top@, "connectors"@)->Ok_0;
    lemma_unknown_type_skipped(ct, i);
    if let Ok((reg, skipped)) = connectors_of(ct) {
        let key = if in_sources {
            "sources"@
        } else {
            "sinks"@
        };
        if let Ok(es) = section_of(top@, key) {
            if 0 <= j < es.len() {
                if let Value::Table(t) = es[j].1 {
                    if lookup(t@, "connector"@) == Some(Value::Str(ct[i].0)) {
                        lemma_dangling_reference_fails(doc, transforms, in_sources, j);
                    }
                }
            }
        }
    }
}

/// Dropping an entry of unknown type leaves the rest of the registry as it
/// is: the table with that entry removed gives the same registry, one
/// skipped name fewer, or the same error.
pub proof fn lemma_unknown_type_as_if_absent(entries: Seq<(String, Value)>, i: int)
    requires
        0 <= i < entries.len(),
        connector_of(entries[i].0, entries[i].1) == Ok::<Option<ConnectorConfig>, ErrorModel>(None),
    ensures
        match connectors_of(entries) {
            Err(e) => connectors_of(entries.remove(i)) == Err::<
                (Seq<(String, ConnectorConfig)>, Seq<String>),
                ErrorModel,
            >(e),
            Ok((reg, skipped)) => connectors_of(entries.remove(i)) matches Ok((reg2, skipped2))
                && reg2 == reg && skipped2.len() + 1 == skipped.len(),
        },
    decreases entries.len(),
{
    if i == entries.len() - 1 {
        assert(entries.remove(i) =~= entries.drop_last());
    } else {
        assert(entries.remove(i).drop_last() =~= entries.drop_last().remove(i));
        assert(entries.remove(i).last() == entries.last());
        assert(entries.drop_last()[i] == entries[i]);
        lemma_unknown_type_as_if_absent(entries.drop_last(), i);
    }
}

/// In a document whose header, connectors and earlier source entries are
/// sound, a source entry that names no known connector makes the load fail
/// with an unresolved reference at that entry's `connector` key.
pub proof fn lemma_dangling_source_error(doc: Value, transforms: Seq<Seq<char>>, j: int)
    requires
        doc matches Value::Table(top) && ({
            &&& req_str(top@, "name"@, seq![]) is Ok
            &&& req_str(top@, "description"@, seq![]) is Ok
            &&& req_str(top@, "version"@, seq![]) is Ok
            &&& section_of(top@, "connectors"@) matches Ok(ct) && (connectors_of(ct) matches Ok(
                (reg, _),
            ) && (section_of(top@, "sources"@) matches Ok(es) && {
                &&& 0 <= j < es.len()
                &&& sources_of(reg, es.subrange(0, j)) is Ok
                &&& es[j].1 matches Value::Table(t) && dangling(reg, t@)
            }))
        }),
    ensures
        load_of(doc, transforms) == fail::<ConfigModel>(
            ErrorKind::UnresolvedReference,
            seq!["sources"@, section_of(doc->Table_0@, "sources"@)->Ok_0[j].0@, "connector"@],
        ),
{
    let top = doc->Table_0;
    let ct = section_of(top@, "connectors"@)->Ok_0;
    let reg = connectors_of(ct)->Ok_0.0;
    let es = section_of(top@, "sources"@)->Ok_0;
    lemma_dangling_source_fails(reg, es, j);
    assert(es.subrange(0, j + 1).drop_last() =~= es.subrange(0, j));
    assert(es.subrange(0, j + 1).last() == es[j]);
    lemma_sources_error_extends(reg, es, j + 1);
}

/// The same for a sink entry, in a document whose sources are sound too.
pub proof fn lemma_dangling_sink_error(doc: Value, transforms: Seq<Seq<char>>, j: int)
    requires
        doc matches Value::Table(top) && ({
            &&& req_str(top@, "name"@, seq![]) is Ok
            &&& req_str(top@, "description"@, seq![]) is Ok
            &&& req_str(top@, "version"@, seq![]) is Ok
            &&& section_of(top@, "connectors"@) matches Ok(ct) && (connectors_of(ct) matches Ok(
                (reg, _),
            ) && (section_of(top@, "sources"@) matches Ok(ss) && sources_of(reg, ss) is Ok && (
            section_of(top@, "sinks"@) matches Ok(es) && {
                &&& 0 <= j < es.len()
                &&& sinks_of(reg, es.subrange(0, j)) is Ok
                &&& es[j].1 matches Value::Table(t) && dangling(reg, t@)
            })))
        }),
    ensures
        load_of(doc, transforms) == fail::<ConfigModel>(
            ErrorKind::UnresolvedReference,
            seq!["sinks"@, section_of(doc->Table_0@, "sinks"@)->Ok_0[j].0@, "connector"@],
        ),
{
    let top = doc->Table_0;
    let ct = section_of(top@, "connectors"@)->Ok_0;
    let reg = connectors_of(ct)->Ok_0.0;
    let es = section_of(top@, "sinks"@)->Ok_0;
    lemma_dangling_sink_fails(reg, es, j);
    assert(es.subrange(0, j + 1).drop_last() =~= es.subrange(0, j));
    assert(es.subrange(0, j + 1).last() == es[j]);
    lemma_sinks_error_extends(reg, es, j + 1);
}

/// Appending an entry with another name leaves a lookup as it was.
proof fn lemma_lookup_push<V>(t: Seq<(String, V)>, e: (String, V), key: Seq<char>)
    requires
        e.0@ != key,
    ensures
        lookup(t.push(e), key) == lookup(t, key),
    decreases t.len(),
{
    if t.len() > 0 {
        assert(t.push(e).drop_first() =~= t.drop_first().push(e));
        assert(t.push(e)[0] == t[0]);
        lemma_lookup_push(t.drop_first(), e, key);
        if t[0].0@ != key {
            assert(lookup(t.push(e), key) == lookup(t.push(e).drop_first(), key));
            assert(lookup(t, key) == lookup(t.drop_first(), key));
        }
    } else {
        assert(t.push(e).drop_first() =~= Seq::<(String, V)>::empty());
        assert(t.push(e)[0] == e);
        assert(lookup(t.push(e), key) == lookup(t.push(e).drop_first(), key));
    }
}

/// A registry built from entries none of which has name `key` has no entry
/// under `key`.
proof fn lemma_lookup_absent(
    reg: Seq<(String, ConnectorConfig)>,
    entries: Seq<(String, Value)>,
    key: Seq<char>,
)
    requires
        forall|j: int| 0 <= j < entries.len() ==> entries[j].0@ != key,
        connectors_of(entries) == Ok::<_, ErrorModel>((reg, connectors_of(entries)->Ok_0.1)),
    ensures
        lookup(reg, key) is None,
    decreases entries.len(),
{
    if entries.len() > 0 {
        let pre = entries.drop_last();
        let (preg, pskipped) = connectors_of(pre)->Ok_0;
        assert forall|j: int| 0 <= j < pre.len() implies pre[j].0@ != key by {
            assert(pre[j] == entries[j]);
        }
        lemma_lookup_absent(preg, pre, key);
        let (name, v) = entries.last();
        if let Ok(Some(c)) = connector_of(name, v) {
            lemma_lookup_push(preg, (name, c), key);
        }
    }
}

/// An entry whose `connector` key is absent or names no connector of `reg`.
pub open spec fn dangling(reg: Seq<(String, ConnectorConfig)>, t: Seq<(String, Value)>) -> bool {
    match lookup(t, "connector"@) {
        None => true,
        Some(Value::Str(name)) => lookup(reg, name@) is None,
        Some(_) => false,
    }
}

/// A source entry whose connector is absent or names no connector of the registry makes
/// the sources section fail, with an unresolved reference at that entry or an
/// earlier error.
pub proof fn lemma_dangling_source_fails(
    reg: Seq<(String, ConnectorConfig)>,
    entries: Seq<(String, Value)>,
    i: int,
)
    requires
        0 <= i < entries.len(),
        entries[i].1 matches Value::Table(t) && dangling(reg, t@),
    ensures
        source_of(reg, entries[i].0, entries[i].1) == fail::<crate::endpoints::SourceModel>(
            ErrorKind::UnresolvedReference,
            seq!["sources"@, entries[i].0@, "connector"@],
        ),
        sources_of(reg, entries) is Err,
{
    let pre = entries.subrange(0, i + 1);
    assert(pre.drop_last() =~= entries.subrange(0, i));
    assert(pre.last() == entries[i]);
    assert(seq!["sources"@, entries[i].0@].push("connector"@) =~= seq![
        "sources"@,
        entries[i].0@,
        "connector"@,
    ]);
    lemma_sources_error_extends(reg, entries, i + 1);
}

/// The same for a sink entry.
pub proof fn lemma_dangling_sink_fails(
    reg: Seq<(String, ConnectorConfig)>,
    entries: Seq<(String, Value)>,
    i: int,
)
    requires
        0 <= i < entries.len(),
        entries[i].1 matches Value::Table(t) && dangling(reg, t@),
    ensures
        sink_of(reg, entries[i].0, entries[i].1) == fail::<crate::endpoints::SinkModel>(
            ErrorKind::UnresolvedReference,
            seq!["sinks"@, entries[i].0@, "connector"@],
        ),
        sinks_of(reg, entries) is Err,
{
    let pre = entries.subrange(0, i + 1);
    assert(pre.drop_last() =~= entries.subrange(0, i));
    assert(pre.last() == entries[i]);
    assert(seq!["sinks"@, entries[i].0@].push("connector"@) =~= seq![
        "sinks"@,
        entries[i].0@,
        "connector"@,
    ]);
    lemma_sinks_error_extends(reg, entries, i + 1);
}

/// A document in which a source or a sink names a connector that the
/// registry lacks does not load.
pub proof fn lemma_dangling_reference_fails(doc: Value, transforms: Seq<Seq<char>>, in_sources: bool, i: int)
    requires
        doc matches Value::Table(top) && (section_of(top@, "connectors"@) matches Ok(ct) && (
        connectors_of(ct) matches Ok((reg, _)) && (section_of(
            top@,
            if in_sources {
                "sources"@
            } else {
                "sinks"@
            },
        ) matches Ok(es) && 0 <= i < es.len() && (es[i].1 matches Value::Table(t) && dangling(reg, t@))))),
    ensures
        !(load_of(doc, transforms) is Ok),
{
    let top = doc->Table_0;
    let ct = section_of(top@, "connectors"@)->Ok_0;
    let reg = connectors_of(ct)->Ok_0.0;
    if in_sources {
        lemma_dangling_source_fails(reg, section_of(top@, "sources"@)->Ok_0, i);
    } else {
        lemma_dangling_sink_fails(reg, section_of(top@, "sinks"@)->Ok_0, i);
        if let Ok(st) = section_of(top@, "sources"@) {
            if let Ok(sources) = sources_of(reg, st) {
                assert(sinks_of(reg, section_of(top@, "sinks"@)->Ok_0) is Err);
            }
        }
    }
}

/// Without a `pipeline` key, a loaded configuration has exactly one stage,
/// `system`.
pub proof fn lemma_default_pipeline(doc: Value, transforms: Seq<Seq<char>>)
    requires
        doc matches Value::Table(top) && lookup(top@, "pipeline"@) is None,
        load_of(doc, transforms) is Ok,
    ensures
        load_of(doc, transforms)->Ok_0.pipeline == seq!["system"@],
{
}

} // verus!

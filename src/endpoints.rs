use vstd::prelude::*;
use vstd::string::*;

use crate::config::{
    err, fail, key_path, req_str, require_str, res_view, texts, ConfigError, ConnectorConfig,
    ErrorKind, ErrorModel,
};
use crate::document::{get, lookup, Value};
use crate::field::{type_of_token, Field, FieldType};
use crate::text::{decimal, decimal_string, lower_of, str_eq};

verus! {

/// A named data source bound to a connector.
#[derive(Debug, Clone)]
pub struct SourceConfig {
    pub connector: ConnectorConfig,
    /// Free-form options, in document order; `connector` and `fields` are not among them.
    pub config: Vec<(String, String)>,
    pub fields: Vec<Field>,
}

/// A named data destination bound to a connector.
#[derive(Debug, Clone)]
pub struct SinkConfig {
    pub connector: ConnectorConfig,
    /// Free-form options, in document order; `connector` is not among them.
    pub config: Vec<(String, String)>,
}

pub ghost struct SourceModel {
    pub connector: ConnectorConfig,
    pub config: Seq<(String, String)>,
    pub fields: Seq<Field>,
}

pub ghost struct SinkModel {
    pub connector: ConnectorConfig,
    pub config: Seq<(String, String)>,
}

impl View for SourceConfig {
    type V = SourceModel;

    open spec fn view(&self) -> SourceModel {
        SourceModel { connector: self.connector, config: self.config@, fields: self.fields@ }
    }
}

impl View for SinkConfig {
    type V = SinkModel;

    open spec fn view(&self) -> SinkModel {
        SinkModel { connector: self.connector, config: self.config@ }
    }
}

/// Keys of a source or sink entry that are not options.
pub open spec fn is_reserved(key: Seq<char>, source: bool) -> bool {
    key == "connector"@ || (source && key == "fields"@)
}

/// The options of a source (`source`) or sink entry: every entry whose key is
/// not reserved, each of which must hold a string.
pub open spec fn options_of(t: Seq<(String, Value)>, source: bool, p: Seq<Seq<char>>) -> Result<
    Seq<(String, String)>,
    ErrorModel,
>
    decreases t.len(),
{
    if t.len() == 0 {
        Ok(Seq::empty())
    } else {
        match options_of(t.drop_last(), source, p) {
            Err(e) => Err(e),
            Ok(o) => {
                let (k, v) = t.last();
                if is_reserved(k@, source) {
                    Ok(o)
                } else {
                    match v {
                        Value::Str(s) => Ok(o.push((k, s))),
                        _ => fail(ErrorKind::TypeMismatch, p.push(k@)),
                    }
                }
            },
        }
    }
}

/// One element of a `fields` array, whose key path (ending in its index) is
/// `p`: a table with a `name` and a `type` token, read regardless of case.
pub open spec fn field_of(v: Value, p: Seq<Seq<char>>) -> Result<Field, ErrorModel> {
    match v {
        Value::Table(t) => match req_str(t@, "name"@, p) {
            Err(e) => Err(e),
            Ok(name) => match req_str(t@, "type"@, p) {
                Err(e) => Err(e),
                Ok(ty) => match type_of_token(lower_of(ty@)) {
                    None => fail(ErrorKind::UnknownFieldType, p.push("type"@)),
                    Some(field_type) => Ok(Field { name, field_type }),
                },
            },
        },
        _ => fail(ErrorKind::TypeMismatch, p),
    }
}

/// The fields of a `fields` array whose key path is `p`; element `i` has
/// key path `p` followed by `i` in decimal.
pub open spec fn field_list(items: Seq<Value>, p: Seq<Seq<char>>) -> Result<Seq<Field>, ErrorModel>
    decreases items.len(),
{
    if items.len() == 0 {
        Ok(Seq::empty())
    } else {
        match field_list(items.drop_last(), p) {
            Err(e) => Err(e),
            Ok(fs) => match field_of(items.last(), p.push(decimal((items.len() - 1) as nat))) {
                Err(e) => Err(e),
                Ok(f) => Ok(fs.push(f)),
            },
        }
    }
}

/// The field list of a source entry; none where the entry has no `fields`.
pub open spec fn fields_of(t: Seq<(String, Value)>, p: Seq<Seq<char>>) -> Result<
    Seq<Field>,
    ErrorModel,
> {
    match lookup(t, "fields"@) {
        None => Ok(Seq::empty()),
        Some(Value::Array(items)) => field_list(items@, p.push("fields"@)),
        Some(_) => fail(ErrorKind::TypeMismatch, p.push("fields"@)),
    }
}

/// The connector that entry `t` (key path `p`) refers to in registry `reg`.
/// An absent reference is as unresolved as one that names nothing.
pub open spec fn connector_ref(
    reg: Seq<(String, ConnectorConfig)>,
    t: Seq<(String, Value)>,
    p: Seq<Seq<char>>,
) -> Result<ConnectorConfig, ErrorModel> {
    match lookup(t, "connector"@) {
        None => fail(ErrorKind::UnresolvedReference, p.push("connector"@)),
        Some(Value::Str(name)) => match lookup(reg, name@) {
            None => fail(ErrorKind::UnresolvedReference, p.push("connector"@)),
            Some(c) => Ok(c),
        },
        Some(_) => fail(ErrorKind::TypeMismatch, p.push("connector"@)),
    }
}

pub open spec fn source_of(reg: Seq<(String, ConnectorConfig)>, name: String, v: Value) -> Result<
    SourceModel,
    ErrorModel,
> {
    let p = seq!["sources"@, name@];
    match v {
        Value::Table(t) => match connector_ref(reg, t@, p) {
            Err(e) => Err(e),
            Ok(connector) => match options_of(t@, true, p) {
                Err(e) => Err(e),
                Ok(config) => match fields_of(t@, p) {
                    Err(e) => Err(e),
                    Ok(fields) => Ok(SourceModel { connector, config, fields }),
                },
            },
        },
        _ => fail(ErrorKind::TypeMismatch, p),
    }
}

pub open spec fn sink_of(reg: Seq<(String, ConnectorConfig)>, name: String, v: Value) -> Result<
    SinkModel,
    ErrorModel,
> {
    let p = seq!["sinks"@, name@];
    match v {
        Value::Table(t) => match connector_ref(reg, t@, p) {
            Err(e) => Err(e),
            Ok(connector) => match options_of(t@, false, p) {
                Err(e) => Err(e),
                Ok(config) => Ok(SinkModel { connector, config }),
            },
        },
        _ => fail(ErrorKind::TypeMismatch, p),
    }
}

/// The source registry that the entries of a `sources` table give, in order.
pub open spec fn sources_of(reg: Seq<(String, ConnectorConfig)>, entries: Seq<(String, Value)>) -> Result<
    Seq<(String, SourceModel)>,
    ErrorModel,
>
    decreases entries.len(),
{
    if entries.len() == 0 {
        Ok(Seq::empty())
    } else {
        match sources_of(reg, entries.drop_last()) {
            Err(e) => Err(e),
            Ok(acc) => match source_of(reg, entries.last().0, entries.last().1) {
                Err(e) => Err(e),
                Ok(s) => Ok(acc.push((entries.last().0, s))),
            },
        }
    }
}

/// The sink registry that the entries of a `sinks` table give, in order.
pub open spec fn sinks_of(reg: Seq<(String, ConnectorConfig)>, entries: Seq<(String, Value)>) -> Result<
    Seq<(String, SinkModel)>,
    ErrorModel,
>
    decreases entries.len(),
{
    if entries.len() == 0 {
        Ok(Seq::empty())
    } else {
        match sinks_of(reg, entries.drop_last()) {
            Err(e) => Err(e),
            Ok(acc) => match sink_of(reg, entries.last().0, entries.last().1) {
                Err(e) => Err(e),
                Ok(s) => Ok(acc.push((entries.last().0, s))),
            },
        }
    }
}

pub open spec fn source_views(s: Seq<(String, SourceConfig)>) -> Seq<(String, SourceModel)> {
    s.map_values(|e: (String, SourceConfig)| (e.0, e.1@))
}

pub open spec fn sink_views(s: Seq<(String, SinkConfig)>) -> Seq<(String, SinkModel)> {
    s.map_values(|e: (String, SinkConfig)| (e.0, e.1@))
}

fn reserved(key: &str, source: bool) -> (r: bool)
    ensures
        r == is_reserved(key@, source),
{
    str_eq(key, "connector") || (source && str_eq(key, "fields"))
}

proof fn lemma_options_error_extends(
    t: Seq<(String, Value)>,
    source: bool,
    p: Seq<Seq<char>>,
    n: int,
)
    requires
        0 <= n <= t.len(),
        options_of(t.subrange(0, n), source, p) is Err,
    ensures
        options_of(t, source, p) == options_of(t.subrange(0, n), source, p),
    decreases t.len() - n,
{
    if n < t.len() {
        assert(t.subrange(0, n + 1).drop_last() =~= t.subrange(0, n));
        lemma_options_error_extends(t, source, p, n + 1);
    } else {
        assert(t.subrange(0, n) =~= t);
    }
}

/// Reads the options of a source (`source`) or sink entry.
pub fn options_from(t: &Vec<(String, Value)>, source: bool, p: &Vec<String>) -> (r: Result<
    Vec<(String, String)>,
    ConfigError,
>)
    ensures
        match r {
            Ok(o) => options_of(t@, source, texts(p@)) == Ok::<_, ErrorModel>(o@),
            Err(e) => options_of(t@, source, texts(p@)) == Err::<Seq<(String, String)>, _>(e@),
        },
{
    let mut o: Vec<(String, String)> = Vec::new();
    let mut i: usize = 0;
    while i < t.len()
        invariant
            i <= t@.len(),
            options_of(t@.subrange(0, i as int), source, texts(p@)) == Ok::<_, ErrorModel>(o@),
        decreases t@.len() - i,
    {
        assert(t@.subrange(0, i + 1).drop_last() =~= t@.subrange(0, i as int));
        let (k, v) = &t[i];
        if !reserved(k.as_str(), source) {
            match v {
                Value::Str(s) => o.push((k.clone(), s.clone())),
                _ => {
                    proof {
                        lemma_options_error_extends(t@, source, texts(p@), i + 1);
                    }
                    return err(ErrorKind::TypeMismatch, key_path(p, k.as_str()));
                },
            }
        }
        i = i + 1;
    }
    assert(t@.subrange(0, t@.len() as int) =~= t@);
    Ok(o)
}

/// Reads one element of a `fields` array, whose key path is `p`.
pub fn field_from(v: &Value, p: &Vec<String>) -> (r: Result<Field, ConfigError>)
    ensures
        res_view(r) == field_of(*v, texts(p@)),
{
    match v {
        Value::Table(t) => {
            let name = match require_str(t, "name", p) {
                Ok(s) => s,
                Err(e) => return Err(e),
            };
            let ty = match require_str(t, "type", p) {
                Ok(s) => s,
                Err(e) => return Err(e),
            };
            match FieldType::of(ty) {
                Some(field_type) => Ok(Field { name, field_type }),
                None => err(ErrorKind::UnknownFieldType, key_path(p, "type")),
            }
        },
        _ => err(ErrorKind::TypeMismatch, clone_path(p)),
    }
}

fn clone_path(p: &Vec<String>) -> (r: Vec<String>)
    ensures
        r@ == p@,
{
    let mut r: Vec<String> = Vec::new();
    let mut i: usize = 0;
    while i < p.len()
        invariant
            i <= p@.len(),
            r@ == p@.subrange(0, i as int),
        decreases p@.len() - i,
    {
        r.push(p[i].clone());
        assert(r@ =~= p@.subrange(0, i + 1));
        i = i + 1;
    }
    assert(r@ =~= p@);
    r
}

proof fn lemma_fields_error_extends(items: Seq<Value>, p: Seq<Seq<char>>, n: int)
    requires
        0 <= n <= items.len(),
        field_list(items.subrange(0, n), p) is Err,
    ensures
        field_list(items, p) == field_list(items.subrange(0, n), p),
    decreases items.len() - n,
{
    if n < items.len() {
        assert(items.subrange(0, n + 1).drop_last() =~= items.subrange(0, n));
        lemma_fields_error_extends(items, p, n + 1);
    } else {
        assert(items.subrange(0, n) =~= items);
    }
}

/// Reads the field list of a source entry.
pub fn fields_from(t: &Vec<(String, Value)>, p: &Vec<String>) -> (r: Result<Vec<Field>, ConfigError>)
    ensures
        match r {
            Ok(fs) => fields_of(t@, texts(p@)) == Ok::<_, ErrorModel>(fs@),
            Err(e) => fields_of(t@, texts(p@)) == Err::<Seq<Field>, _>(e@),
        },
{
    let q = key_path(p, "fields");
    match get(t, "fields") {
        None => Ok(Vec::new()),
        Some(Value::Array(items)) => {
            let mut fs: Vec<Field> = Vec::new();
            let mut i: usize = 0;
            while i < items.len()
                invariant
                    i <= items@.len(),
                    texts(q@) == texts(p@).push("fields"@),
                    lookup(t@, "fields"@) == Some(Value::Array(*items)),
                    field_list(items@.subrange(0, i as int), texts(q@)) == Ok::<_, ErrorModel>(fs@),
                decreases items@.len() - i,
            {
                assert(items@.subrange(0, i + 1).drop_last() =~= items@.subrange(0, i as int));
                let index = decimal_string(i);
                let qi = key_path(&q, index.as_str());
                match field_from(&items[i], &qi) {
                    Ok(f) => fs.push(f),
                    Err(e) => {
                        proof {
                            assert(items@.subrange(0, i + 1).last() == items@[i as int]);
                            lemma_fields_error_extends(items@, texts(q@), i + 1);

                        }
                        return Err(e);
                    },
                }
                i = i + 1;
            }
            assert(items@.subrange(0, items@.len() as int) =~= items@);
            Ok(fs)
        },
        Some(_) => err(ErrorKind::TypeMismatch, q),
    }
}

/// Resolves the `connector` key of entry `t` against the registry.
pub fn connector_from_ref(reg: &Vec<(String, ConnectorConfig)>, t: &Vec<(String, Value)>, p: &Vec<
    String,
>) -> (r: Result<ConnectorConfig, ConfigError>)
    ensures
        res_view(r) == connector_ref(reg@, t@, texts(p@)),
{
    match get(t, "connector") {
        Some(Value::Str(name)) => match get(reg, name.as_str()) {
            Some(c) => Ok(c.duplicate()),
            None => err(ErrorKind::UnresolvedReference, key_path(p, "connector")),
        },
        None => err(ErrorKind::UnresolvedReference, key_path(p, "connector")),
        Some(_) => err(ErrorKind::TypeMismatch, key_path(p, "connector")),
    }
}

/// Reads one entry of the `sources` table.
pub fn source_from(reg: &Vec<(String, ConnectorConfig)>, name: &String, v: &Value) -> (r: Result<
    SourceConfig,
    ConfigError,
>)
    ensures
        match r {
            Ok(s) => source_of(reg@, *name, *v) == Ok::<_, ErrorModel>(s@),
            Err(e) => source_of(reg@, *name, *v) == Err::<SourceModel, _>(e@),
        },
{
    let p = vec![String::from_str("sources"), name.clone()];
    assert(texts(p@) =~= seq!["sources"@, name@]);
    match v {
        Value::Table(t) => {
            let connector = match connector_from_ref(reg, t, &p) {
                Ok(c) => c,
                Err(e) => return Err(e),
            };
            let config = match options_from(t, true, &p) {
                Ok(o) => o,
                Err(e) => return Err(e),
            };
            let fields = match fields_from(t, &p) {
                Ok(f) => f,
                Err(e) => return Err(e),
            };
            Ok(SourceConfig { connector, config, fields })
        },
        _ => err(ErrorKind::TypeMismatch, p),
    }
}

/// Reads one entry of the `sinks` table.
pub fn sink_from(reg: &Vec<(String, ConnectorConfig)>, name: &String, v: &Value) -> (r: Result<
    SinkConfig,
    ConfigError,
>)
    ensures
        match r {
            Ok(s) => sink_of(reg@, *name, *v) == Ok::<_, ErrorModel>(s@),
            Err(e) => sink_of(reg@, *name, *v) == Err::<SinkModel, _>(e@),
        },
{
    let p = vec![String::from_str("sinks"), name.clone()];
    assert(texts(p@) =~= seq!["sinks"@, name@]);
    match v {
        Value::Table(t) => {
            let connector = match connector_from_ref(reg, t, &p) {
                Ok(c) => c,
                Err(e) => return Err(e),
            };
            let config = match options_from(t, false, &p) {
                Ok(o) => o,
                Err(e) => return Err(e),
            };
            Ok(SinkConfig { connector, config })
        },
        _ => err(ErrorKind::TypeMismatch, p),
    }
}

pub(crate) proof fn lemma_sources_error_extends(
    reg: Seq<(String, ConnectorConfig)>,
    entries: Seq<(String, Value)>,
    n: int,
)
    requires
        0 <= n <= entries.len(),
        sources_of(reg, entries.subrange(0, n)) is Err,
    ensures
        sources_of(reg, entries) == sources_of(reg, entries.subrange(0, n)),
    decreases entries.len() - n,
{
    if n < entries.len() {
        assert(entries.subrange(0, n + 1).drop_last() =~= entries.subrange(0, n));
        lemma_sources_error_extends(reg, entries, n + 1);
    } else {
        assert(entries.subrange(0, n) =~= entries);
    }
}

pub(crate) proof fn lemma_sinks_error_extends(
    reg: Seq<(String, ConnectorConfig)>,
    entries: Seq<(String, Value)>,
    n: int,
)
    requires
        0 <= n <= entries.len(),
        sinks_of(reg, entries.subrange(0, n)) is Err,
    ensures
        sinks_of(reg, entries) == sinks_of(reg, entries.subrange(0, n)),
    decreases entries.len() - n,
{
    if n < entries.len() {
        assert(entries.subrange(0, n + 1).drop_last() =~= entries.subrange(0, n));
        lemma_sinks_error_extends(reg, entries, n + 1);
    } else {
        assert(entries.subrange(0, n) =~= entries);
    }
}

/// Builds the source registry from the entries of the `sources` table; each
/// entry's connector is looked up in `reg`.
pub fn from_sources(reg: &Vec<(String, ConnectorConfig)>, entries: &Vec<(String, Value)>) -> (r: Result<
    Vec<(String, SourceConfig)>,
    ConfigError,
>)
    ensures
        match r {
            Ok(s) => sources_of(reg@, entries@) == Ok::<_, ErrorModel>(source_views(s@)),
            Err(e) => sources_of(reg@, entries@) == Err::<Seq<(String, SourceModel)>, _>(e@),
        },
{
    let mut out: Vec<(String, SourceConfig)> = Vec::new();
    let mut i: usize = 0;
    assert(source_views(out@) =~= Seq::empty());
    while i < entries.len()
        invariant
            i <= entries@.len(),
            sources_of(reg@, entries@.subrange(0, i as int)) == Ok::<_, ErrorModel>(
                source_views(out@),
            ),
        decreases entries@.len() - i,
    {
        assert(entries@.subrange(0, i + 1).drop_last() =~= entries@.subrange(0, i as int));
        assert(entries@.subrange(0, i + 1).last() == entries@[i as int]);
        let (name, v) = &entries[i];
        let ghost before = out@;
        match source_from(reg, name, v) {
            Ok(sc) => {
                out.push((name.clone(), sc));
                assert(source_views(out@) =~= source_views(before).push(
                    (out@.last().0, out@.last().1@),
                ));
            },
            Err(e) => {
                proof {
                    lemma_sources_error_extends(reg@, entries@, i + 1);
                }
                return Err(e);
            },
        }
        i = i + 1;
    }
    assert(entries@.subrange(0, entries@.len() as int) =~= entries@);
    Ok(out)
}

/// Builds the sink registry from the entries of the `sinks` table; each
/// entry's connector is looked up in `reg`.
pub fn from_sinks(reg: &Vec<(String, ConnectorConfig)>, entries: &Vec<(String, Value)>) -> (r: Result<
    Vec<(String, SinkConfig)>,
    ConfigError,
>)
    ensures
        match r {
            Ok(s) => sinks_of(reg@, entries@) == Ok::<_, ErrorModel>(sink_views(s@)),
            Err(e) => sinks_of(reg@, entries@) == Err::<Seq<(String, SinkModel)>, _>(e@),
        },
{
    let mut out: Vec<(String, SinkConfig)> = Vec::new();
    let mut i: usize = 0;
    assert(sink_views(out@) =~= Seq::empty());
    while i < entries.len()
        invariant
            i <= entries@.len(),
            sinks_of(reg@, entries@.subrange(0, i as int)) == Ok::<_, ErrorModel>(sink_views(out@)),
        decreases entries@.len() - i,
    {
        assert(entries@.subrange(0, i + 1).drop_last() =~= entries@.subrange(0, i as int));
        assert(entries@.subrange(0, i + 1).last() == entries@[i as int]);
        let (name, v) = &entries[i];
        let ghost before = out@;
        match sink_from(reg, name, v) {
            Ok(sc) => {
                out.push((name.clone(), sc));
                assert(sink_views(out@) =~= sink_views(before).push(
                    (out@.last().0, out@.last().1@),
                ));
            },
            Err(e) => {
                proof {
                    lemma_sinks_error_extends(reg@, entries@, i + 1);
                }
                return Err(e);
            },
        }
        i = i + 1;
    }
    assert(entries@.subrange(0, entries@.len() as int) =~= entries@);
    Ok(out)
}

} // verus!

use fust::config::{from_connectors, ConfigSpec, ConnectorConfig, ErrorKind};
use fust::document::Value;
use fust::field::FieldType;

fn s(text: &str) -> Value {
    Value::Str(text.to_string())
}

fn table(entries: Vec<(&str, Value)>) -> Value {
    Value::Table(entries.into_iter().map(|(k, v)| (k.to_string(), v)).collect())
}

fn entries(v: Value) -> Vec<(String, Value)> {
    match v {
        Value::Table(t) => t,
        _ => panic!("not a table"),
    }
}

fn postgres(host: &str) -> Value {
    table(vec![
        ("type", s("postgres")),
        ("host", s(host)),
        ("port", Value::Int(5432)),
        ("user", s("user")),
        ("password", s("password")),
    ])
}

fn header() -> Vec<(&'static str, Value)> {
    vec![("name", s("orders")), ("description", s("order ingest")), ("version", s("0.1.0"))]
}

fn no_transforms() -> Vec<String> {
    Vec::new()
}

#[test]
fn test_from_connectors_postgres() {
    let connectors_table = entries(table(vec![("postgres", postgres("localhost"))]));
    let (result, _) = from_connectors(&connectors_table).unwrap();
    assert!(result.iter().any(|(name, _)| name == "postgres"));
    if let Some((_, config)) = result.iter().find(|(name, _)| name == "postgres") {
        if let ConnectorConfig::Rds(rds_config) = config {
            assert_eq!(rds_config.host, "localhost");
            assert_eq!(rds_config.port, 5432);
            assert_eq!(rds_config.user, "user");
            assert_eq!(rds_config.password, "password");
        } else {
            panic!("Expected Rds config for postgres");
        }
    } else {
        panic!("Postgres config not found");
    }
}

#[test]
fn from_document_reads_header_with_empty_sections() {
    let mut top = header();
    top.push(("connectors", table(vec![])));
    top.push(("sources", table(vec![])));
    top.push(("sinks", table(vec![])));
    let config = ConfigSpec::from_document(&table(top), &no_transforms()).unwrap();
    assert_eq!(config.name, "orders");
    assert_eq!(config.description, "order ingest");
    assert_eq!(config.version, "0.1.0");
    assert!(config.connectors.is_empty());
}

#[test]
fn omitted_pipeline_defaults_to_system() {
    let config = ConfigSpec::from_document(&table(header()), &no_transforms()).unwrap();
    assert_eq!(config.pipeline, vec!["system".to_string()]);
}

fn scenario_document() -> Value {
    let mut top = header();
    top.push((
        "connectors",
        table(vec![
            ("pg", postgres("db.local")),
            ("bus", table(vec![("type", s("kafka")), ("brokers", s("k1:9092,k2:9092"))])),
            ("events", table(vec![("type", s("nats")), ("url", s("nats://n1")), ("topic", s("t"))])),
            ("mongo", table(vec![("type", s("mongodb")), ("uri", s("mongodb://m"))])),
        ]),
    ));
    top.push((
        "sources",
        table(vec![(
            "orders_db",
            table(vec![
                ("connector", s("pg")),
                ("table", s("orders")),
                (
                    "fields",
                    Value::Array(vec![
                        table(vec![("name", s("id")), ("type", s("Number"))]),
                        table(vec![("name", s("placed")), ("type", s("DATE"))]),
                    ]),
                ),
            ]),
        )]),
    ));
    top.push((
        "sinks",
        table(vec![("warehouse", table(vec![("connector", s("pg")), ("schema", s("dw"))]))]),
    ));
    top.push(("pipeline", Value::Array(vec![s("ingest")])));
    table(top)
}

#[test]
fn scenario_configuration_loads() {
    let config =
        ConfigSpec::from_document(&scenario_document(), &vec!["ingest".to_string()]).unwrap();
    assert_eq!(config.connectors.len(), 3);
    assert_eq!(config.skipped_connectors, vec!["mongo".to_string()]);
    let (name, source) = &config.sources[0];
    assert_eq!(name, "orders_db");
    assert_eq!(source.config, vec![("table".to_string(), "orders".to_string())]);
    assert_eq!(source.fields.len(), 2);
    assert_eq!(source.fields[0].name, "id");
    assert_eq!(source.fields[0].field_type, FieldType::Number);
    assert_eq!(source.fields[1].field_type, FieldType::Date);
    match &source.connector {
        ConnectorConfig::Rds(r) => assert_eq!(r.host, "db.local"),
        _ => panic!("expected a relational connector"),
    }
    let (sink_name, sink) = &config.sinks[0];
    assert_eq!(sink_name, "warehouse");
    assert_eq!(sink.config, vec![("schema".to_string(), "dw".to_string())]);
    assert_eq!(config.pipeline, vec!["ingest".to_string()]);
    match &config.connectors[1].1 {
        ConnectorConfig::Kafka(k) => assert_eq!(k.brokers, "k1:9092,k2:9092"),
        _ => panic!("expected kafka"),
    }
    match &config.connectors[2].1 {
        ConnectorConfig::Nats(n) => assert_eq!((n.url.as_str(), n.topic.as_str()), ("nats://n1", "t")),
        _ => panic!("expected nats"),
    }
}

#[test]
fn loading_twice_gives_equal_configurations() {
    let transforms = vec!["ingest".to_string()];
    let a = ConfigSpec::from_document(&scenario_document(), &transforms).unwrap();
    let b = ConfigSpec::from_document(&scenario_document(), &transforms).unwrap();
    assert_eq!(format!("{:?}", a), format!("{:?}", b));
}

#[test]
fn unregistered_stage_is_an_unresolved_reference() {
    let e = ConfigSpec::from_document(&scenario_document(), &no_transforms()).unwrap_err();
    assert_eq!(e.kind, ErrorKind::UnresolvedReference);
    assert_eq!(e.path, vec!["pipeline".to_string(), "ingest".to_string()]);
}

#[test]
fn stage_naming_a_source_resolves() {
    let mut top = header();
    top.push(("connectors", table(vec![("pg", postgres("h"))])));
    top.push(("sources", table(vec![("orders_db", table(vec![("connector", s("pg"))]))])));
    top.push(("pipeline", Value::Array(vec![s("orders_db"), s("system")])));
    let config = ConfigSpec::from_document(&table(top), &no_transforms()).unwrap();
    assert_eq!(config.pipeline.len(), 2);
}

#[test]
fn unknown_connector_type_is_skipped() {
    let cs = entries(table(vec![
        ("mongo", table(vec![("type", s("mongodb"))])),
        ("pg", postgres("h")),
    ]));
    let (reg, skipped) = from_connectors(&cs).unwrap();
    assert_eq!(reg.len(), 1);
    assert_eq!(reg[0].0, "pg");
    assert_eq!(skipped, vec!["mongo".to_string()]);
}

#[test]
fn source_referring_to_skipped_connector_fails() {
    let mut top = header();
    top.push(("connectors", table(vec![("mongo", table(vec![("type", s("mongodb"))]))])));
    top.push(("sources", table(vec![("docs", table(vec![("connector", s("mongo"))]))])));
    let e = ConfigSpec::from_document(&table(top), &no_transforms()).unwrap_err();
    assert_eq!(e.kind, ErrorKind::UnresolvedReference);
    assert_eq!(e.path, vec!["sources".to_string(), "docs".to_string(), "connector".to_string()]);
}

#[test]
fn sink_with_dangling_connector_fails() {
    let mut top = header();
    top.push(("sinks", table(vec![("out", table(vec![("connector", s("nowhere"))]))])));
    let e = ConfigSpec::from_document(&table(top), &no_transforms()).unwrap_err();
    assert_eq!(e.kind, ErrorKind::UnresolvedReference);
    assert_eq!(e.path, vec!["sinks".to_string(), "out".to_string(), "connector".to_string()]);
}

#[test]
fn missing_connector_key_is_an_unresolved_reference() {
    let mut top = header();
    top.push(("sinks", table(vec![("out", table(vec![("schema", s("x"))]))])));
    let e = ConfigSpec::from_document(&table(top), &no_transforms()).unwrap_err();
    assert_eq!(e.kind, ErrorKind::UnresolvedReference);
    assert_eq!(e.path, vec!["sinks".to_string(), "out".to_string(), "connector".to_string()]);
}

#[test]
fn missing_name_is_reported_first() {
    let top = vec![("description", s("d")), ("version", s("1"))];
    let e = ConfigSpec::from_document(&table(top), &no_transforms()).unwrap_err();
    assert_eq!(e.kind, ErrorKind::Missing);
    assert_eq!(e.path, vec!["name".to_string()]);
}

#[test]
fn document_that_is_not_a_table_is_a_type_mismatch() {
    let e = ConfigSpec::from_document(&s("name"), &no_transforms()).unwrap_err();
    assert_eq!(e.kind, ErrorKind::TypeMismatch);
    assert!(e.path.is_empty());
}

#[test]
fn port_must_be_an_integer_in_range() {
    let mut pg = entries(postgres("h"));
    pg[2].1 = s("5432");
    let cs = vec![("pg".to_string(), Value::Table(pg))];
    let e = from_connectors(&cs).unwrap_err();
    assert_eq!(e.kind, ErrorKind::TypeMismatch);
    assert_eq!(e.path, vec!["connectors".to_string(), "pg".to_string(), "port".to_string()]);

    let mut pg = entries(postgres("h"));
    pg[2].1 = Value::Int(70000);
    let cs = vec![("pg".to_string(), Value::Table(pg))];
    assert_eq!(from_connectors(&cs).unwrap_err().kind, ErrorKind::TypeMismatch);

    let mut pg = entries(postgres("h"));
    pg[2].1 = Value::Int(65535);
    let cs = vec![("pg".to_string(), Value::Table(pg))];
    assert!(from_connectors(&cs).is_ok());
}

#[test]
fn every_relational_engine_shares_one_shape() {
    for engine in ["postgres", "mysql", "mssql", "oracle", "sqlite"] {
        let mut c = entries(postgres("h"));
        c[0].1 = s(engine);
        let cs = vec![("db".to_string(), Value::Table(c))];
        let (reg, skipped) = from_connectors(&cs).unwrap();
        assert!(matches!(reg[0].1, ConnectorConfig::Rds(_)));
        assert!(skipped.is_empty());
    }
}

#[test]
fn unknown_field_type_is_an_error() {
    let mut top = header();
    top.push(("connectors", table(vec![("pg", postgres("h"))])));
    top.push((
        "sources",
        table(vec![(
            "orders_db",
            table(vec![
                ("connector", s("pg")),
                ("fields", Value::Array(vec![table(vec![("name", s("id")), ("type", s("Invalid"))])])),
            ]),
        )]),
    ));
    let e = ConfigSpec::from_document(&table(top), &no_transforms()).unwrap_err();
    assert_eq!(e.kind, ErrorKind::UnknownFieldType);
    assert_eq!(
        e.path,
        vec!["sources", "orders_db", "fields", "0", "type"]
            .into_iter()
            .map(String::from)
            .collect::<Vec<_>>()
    );
}

#[test]
fn non_string_option_is_a_type_mismatch() {
    let mut top = header();
    top.push(("connectors", table(vec![("pg", postgres("h"))])));
    top.push((
        "sinks",
        table(vec![("out", table(vec![("connector", s("pg")), ("batch", Value::Int(10))]))]),
    ));
    let e = ConfigSpec::from_document(&table(top), &no_transforms()).unwrap_err();
    assert_eq!(e.kind, ErrorKind::TypeMismatch);
    assert_eq!(e.path, vec!["sinks".to_string(), "out".to_string(), "batch".to_string()]);
}

#[test]
fn pipeline_that_is_not_an_array_is_a_type_mismatch() {
    let mut top = header();
    top.push(("pipeline", table(vec![("step1", s("source1"))])));
    let e = ConfigSpec::from_document(&table(top), &no_transforms()).unwrap_err();
    assert_eq!(e.kind, ErrorKind::TypeMismatch);
    assert_eq!(e.path, vec!["pipeline".to_string()]);
}

#[test]
fn field_error_path_holds_the_element_index() {
    let mut top = header();
    top.push(("connectors", table(vec![("pg", postgres("h"))])));
    let fields: Vec<Value> = (0..12)
        .map(|k| table(vec![("name", s(&format!("f{}", k))), ("type", s(if k == 11 { "blob" } else { "string" }))]))
        .collect();
    top.push((
        "sources",
        table(vec![("orders_db", table(vec![("connector", s("pg")), ("fields", Value::Array(fields))]))]),
    ));
    let e = ConfigSpec::from_document(&table(top), &no_transforms()).unwrap_err();
    assert_eq!(e.kind, ErrorKind::UnknownFieldType);
    assert_eq!(
        e.path,
        vec!["sources", "orders_db", "fields", "11", "type"]
            .into_iter()
            .map(String::from)
            .collect::<Vec<_>>()
    );
}

#[test]
fn unknown_connector_leaves_the_rest_as_if_absent() {
    let with = entries(table(vec![
        ("pg", postgres("h")),
        ("mongo", table(vec![("type", s("mongodb"))])),
        ("bus", table(vec![("type", s("kafka")), ("brokers", s("k"))])),
    ]));
    let without = entries(table(vec![
        ("pg", postgres("h")),
        ("bus", table(vec![("type", s("kafka")), ("brokers", s("k"))])),
    ]));
    let (a, skipped_a) = from_connectors(&with).unwrap();
    let (b, skipped_b) = from_connectors(&without).unwrap();
    assert_eq!(format!("{:?}", a), format!("{:?}", b));
    assert_eq!(skipped_a, vec!["mongo".to_string()]);
    assert!(skipped_b.is_empty());
}

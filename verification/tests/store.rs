use healthwatch::config::Config;
use healthwatch::status::{EngineStatus, Status};
use healthwatch::store::{
    insert_status_change, last_status_query, was_healthy, Attribute, AttributeValue, Item,
    RecordError, STATUS_TABLE_PK_VALUE,
};
use healthwatch::time::Timestamp;

fn settings() -> Config {
    Config {
        rust_log: "info".to_string(),
        engine_url: "https://engine.example.com/".to_string(),
        web_url: "https://www.example.com/".to_string(),
        engine_cluster_arn: "arn:aws:ecs:eu-west-1:000000000000:cluster/main".to_string(),
        engine_service_arn: "arn:aws:ecs:eu-west-1:000000000000:service/main/engine".to_string(),
        status_table_name: "probe-status".to_string(),
        from_email_address: "probe@example.com".to_string(),
        to_email_address: "ops@example.com".to_string(),
    }
}

fn observed(engine_healthy: bool, code: u16) -> Status {
    Status::check(
        Ok(EngineStatus { healthy: engine_healthy }),
        Ok(code),
        Timestamp::new(1_700_000_000, 0).unwrap(),
    )
}

fn attribute(name: &str, value: AttributeValue) -> Attribute {
    Attribute { name: name.to_string(), value }
}

fn item(attributes: &[(&str, AttributeValue)]) -> Item {
    let mut item = Item::new();
    for (name, value) in attributes {
        item = item.insert(name.to_string(), value.clone());
    }
    item
}

fn sorted(item: Item) -> Vec<Attribute> {
    let mut attributes = item.into_attributes();
    attributes.sort_by(|a, b| a.name.cmp(&b.name));
    attributes
}

#[test]
fn the_key_is_fixed() {
    assert_eq!(STATUS_TABLE_PK_VALUE, "medici");
}

#[test]
fn record_of_a_healthy_observation() {
    let item = Item::from_status(&observed(true, 200));
    assert_eq!(
        sorted(item),
        vec![
            attribute("changed_at", AttributeValue::S("2023-11-14T22:13:20+00:00".to_string())),
            attribute("healthy", AttributeValue::Bool(true)),
            attribute("pk", AttributeValue::S("medici".to_string())),
        ]
    );
}

#[test]
fn record_of_an_unhealthy_observation() {
    let status = Status::check(
        Err("timed out".to_string()),
        Ok(503),
        Timestamp::new(1_431_648_000, 500_000_000).unwrap(),
    );
    let item = Item::from_status(&status);
    assert_eq!(item.get("pk"), Some(&AttributeValue::S("medici".to_string())));
    assert_eq!(item.get("healthy"), Some(&AttributeValue::Bool(false)));
    assert_eq!(
        item.get("changed_at"),
        Some(&AttributeValue::S("2015-05-15T00:00:00.500+00:00".to_string()))
    );
    assert_eq!(item.len(), 3);
}

#[test]
fn a_new_record_holds_nothing() {
    let item = Item::new();
    assert_eq!(item.len(), 0);
    assert_eq!(item.get("a"), None);
    assert_eq!(item.get(""), None);
    assert_eq!(item.into_attributes(), vec![]);
}

#[test]
fn get_finds_what_was_put_under_a_name() {
    let item = item(&[("a", AttributeValue::Bool(true)), ("b", AttributeValue::Other)]);
    assert_eq!(item.get("a"), Some(&AttributeValue::Bool(true)));
    assert_eq!(item.get("b"), Some(&AttributeValue::Other));
    assert_eq!(item.get("c"), None);
    assert_eq!(item.get(""), None);
    assert_eq!(item.len(), 2);
}

#[test]
fn insert_replaces_what_was_held_under_the_name() {
    let item = item(&[
        ("a", AttributeValue::Bool(true)),
        ("b", AttributeValue::Other),
        ("a", AttributeValue::Bool(false)),
    ]);
    assert_eq!(item.len(), 2);
    assert_eq!(item.get("a"), Some(&AttributeValue::Bool(false)));
    assert_eq!(item.get("b"), Some(&AttributeValue::Other));
    assert_eq!(
        sorted(item),
        vec![attribute("a", AttributeValue::Bool(false)), attribute("b", AttributeValue::Other)]
    );
}

#[test]
fn no_name_is_held_twice() {
    let item = item(&[
        ("healthy", AttributeValue::Bool(true)),
        ("healthy", AttributeValue::S("yes".to_string())),
        ("healthy", AttributeValue::Bool(false)),
    ]);
    let attributes = item.into_attributes();
    assert_eq!(attributes, vec![attribute("healthy", AttributeValue::Bool(false))]);
}

#[test]
fn a_copy_holds_what_the_record_holds() {
    let item = Item::from_status(&observed(false, 200));
    let copy = item.clone();
    assert_eq!(copy.get("pk"), item.get("pk"));
    assert_eq!(copy.get("healthy"), Some(&AttributeValue::Bool(false)));
    assert_eq!(copy.get("changed_at"), item.get("changed_at"));
    assert_eq!(sorted(copy), sorted(item));
}

#[test]
fn without_a_record_the_last_verdict_is_healthy() {
    assert_eq!(was_healthy(&vec![]), Ok(true));
}

#[test]
fn the_last_verdict_is_read_from_the_first_record() {
    let healthy = Item::from_status(&observed(true, 200));
    let unhealthy = Item::from_status(&observed(true, 500));
    assert_eq!(was_healthy(&vec![healthy.clone()]), Ok(true));
    assert_eq!(was_healthy(&vec![unhealthy.clone()]), Ok(false));
    assert_eq!(was_healthy(&vec![unhealthy.clone(), healthy.clone()]), Ok(false));
    assert_eq!(was_healthy(&vec![healthy, unhealthy]), Ok(true));
}

#[test]
fn a_record_without_the_verdict_gives_none() {
    let item = item(&[("pk", AttributeValue::S("medici".to_string()))]);
    assert_eq!(was_healthy(&vec![item]), Err(RecordError::NoHealthyAttribute));
    assert_eq!(was_healthy(&vec![Item::new()]), Err(RecordError::NoHealthyAttribute));
}

#[test]
fn a_record_whose_verdict_is_no_boolean_gives_none() {
    let text = item(&[("healthy", AttributeValue::S("true".to_string()))]);
    assert_eq!(was_healthy(&vec![text]), Err(RecordError::HealthyNotBoolean));
    let other = item(&[("healthy", AttributeValue::Other)]);
    assert_eq!(was_healthy(&vec![other]), Err(RecordError::HealthyNotBoolean));
}

#[test]
fn writing_the_same_observation_twice_gives_the_same_record() {
    let status = observed(false, 200);
    let first = insert_status_change(status.clone(), &settings());
    let second = insert_status_change(status.clone(), &settings());
    assert_eq!(first.table_name, second.table_name);
    assert_eq!(sorted(first.item.clone()), sorted(second.item.clone()));
    assert_eq!(first.item.get("pk"), second.item.get("pk"));
    assert_eq!(first.item.get("healthy"), Some(&AttributeValue::Bool(status.healthy())));
    assert_eq!(
        first.item.get("changed_at"),
        Some(&AttributeValue::S(status.checked_at.to_rfc3339()))
    );
    assert_eq!(was_healthy(&vec![second.item]), Ok(status.healthy()));
}

#[test]
fn the_write_goes_to_the_configured_table() {
    let put = insert_status_change(observed(true, 200), &settings());
    assert_eq!(put.table_name, "probe-status");
    assert_eq!(sorted(put.item), sorted(Item::from_status(&observed(true, 200))));
}

#[test]
fn what_was_written_is_what_is_read_back() {
    for (engine_healthy, code) in [(true, 200), (true, 503), (false, 200), (false, 404)] {
        let status = observed(engine_healthy, code);
        let put = insert_status_change(status.clone(), &settings());
        assert_eq!(was_healthy(&vec![put.item]), Ok(status.healthy()));
    }
}

#[test]
fn the_query_asks_for_the_newest_record_under_the_key() {
    let query = last_status_query(&settings());
    assert_eq!(query.table_name, "probe-status");
    assert_eq!(query.key_condition_expression, "pk = :pk");
    assert_eq!(query.pk_placeholder, ":pk");
    assert_eq!(query.pk_value, AttributeValue::S("medici".to_string()));
    assert_eq!(query.limit, 1);
    assert!(!query.scan_index_forward);
}

#[test]
fn record_of_a_verdict_and_a_text() {
    let item = Item::of_verdict(false, "2024-01-01T00:00:00+00:00".to_string());
    assert_eq!(
        sorted(item.clone()),
        vec![
            attribute("changed_at", AttributeValue::S("2024-01-01T00:00:00+00:00".to_string())),
            attribute("healthy", AttributeValue::Bool(false)),
            attribute("pk", AttributeValue::S("medici".to_string())),
        ]
    );
    assert_eq!(was_healthy(&vec![item]), Ok(false));
}

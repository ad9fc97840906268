use healthwatch::config::Config;
use healthwatch::email::{send_email, StatusChangeEmail, TEMPLATE_NAME};
use healthwatch::status::{EngineStatus, Status};
use healthwatch::time::Timestamp;

fn settings() -> Config {
    Config {
        rust_log: "debug".to_string(),
        engine_url: "https://engine.example.com/".to_string(),
        web_url: "https://www.example.com/".to_string(),
        engine_cluster_arn: "cluster".to_string(),
        engine_service_arn: "service".to_string(),
        status_table_name: "probe-status".to_string(),
        from_email_address: "probe@example.com".to_string(),
        to_email_address: "ops@example.com".to_string(),
    }
}

fn at(secs: i64) -> Timestamp {
    Timestamp::new(secs, 0).unwrap()
}

#[test]
fn template_is_named_status_change() {
    assert_eq!(TEMPLATE_NAME, "status_change");
}

#[test]
fn notification_carries_the_verdict_and_the_time_of_the_announcement() {
    let healthy = Status::check(Ok(EngineStatus { healthy: true }), Ok(200), at(1_700_000_000));
    let email = StatusChangeEmail::new(&healthy, at(1_700_000_042));
    assert_eq!(email, StatusChangeEmail { healthy: true, changed_at: at(1_700_000_042) });

    let unhealthy = Status::check(Err("timed out".to_string()), Ok(200), at(1_700_000_000));
    let email = StatusChangeEmail::new(&unhealthy, at(1_700_000_043));
    assert_eq!(email, StatusChangeEmail { healthy: false, changed_at: at(1_700_000_043) });
}

#[test]
fn notification_goes_from_the_sender_to_the_one_recipient() {
    let status = Status::check(Ok(EngineStatus { healthy: true }), Ok(503), at(1_700_000_000));
    let email = send_email(status, &settings(), at(1_700_000_001));
    assert_eq!(email.from_email_address, "probe@example.com");
    assert_eq!(email.to_addresses, vec!["ops@example.com".to_string()]);
    assert_eq!(email.template_name, "status_change");
    assert_eq!(email.template, StatusChangeEmail { healthy: false, changed_at: at(1_700_000_001) });
}

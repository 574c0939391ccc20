use webtail::client::configuration::{ClientConfiguration, LogConfiguration};
use webtail::{Applicatiton, MultiPodApplication};

fn blue() -> Applicatiton {
    Applicatiton::MultiPod(MultiPodApplication::new(
        "shop".to_string(),
        "blue".to_string(),
    ))
}

fn config() -> LogConfiguration {
    LogConfiguration::new(
        blue(),
        "/var/log/shop".to_string(),
        r"shop-\d+\.log".to_string(),
        "relay.example".to_string(),
        8443,
        "ws".to_string(),
        64,
    )
}

#[test]
fn a_configuration_gives_back_what_it_was_made_with() {
    let config = config();
    assert_eq!(config.get_application(), blue());
    assert_eq!(config.get_log_file_dir(), "/var/log/shop");
    assert_eq!(config.get_log_file_name_regex(), r"shop-\d+\.log");
    assert_eq!(config.get_server_host(), "relay.example");
    assert_eq!(config.get_server_port(), 8443);
    assert_eq!(config.get_server_path(), "ws");
    assert_eq!(config.get_channel_buffer(), 64);
}

#[test]
fn getters_leave_the_configuration_as_it_is() {
    let config = config();
    let _ = config.get_application();
    let _ = config.get_server_host();
    assert_eq!(config.get_application(), blue());
    assert_eq!(config.get_server_host(), "relay.example");
}

#[test]
fn a_client_gives_back_its_configurations_in_order() {
    let mut second = config();
    second.server_port = 1;
    let client = ClientConfiguration::new(vec![config(), second]);
    let configurations = client.get_configurations();
    assert_eq!(configurations.len(), 2);
    assert_eq!(configurations[0].get_server_port(), 8443);
    assert_eq!(configurations[1].get_server_port(), 1);
}

#[test]
fn a_client_without_sources_has_no_configurations() {
    assert!(ClientConfiguration::new(vec![]).get_configurations().is_empty());
}

use rtsp2flv::config::{AppConfig, ServerConfig, SrsConfig, StreamConfig};

fn config() -> AppConfig {
    AppConfig::new(
        ServerConfig { port: 3000 },
        SrsConfig {
            api_url: "http://srs.example.com:1985/api/v1/streams".to_string(),
            playback_url_template: "http://srs.example.com:8080/live/{stream_name}.flv".to_string(),
        },
        vec![
            StreamConfig { name: "lobby".to_string(), url: "rtsp://10.0.0.1/main".to_string() },
            StreamConfig { name: "gate".to_string(), url: "rtsp://10.0.0.2/main".to_string() },
            StreamConfig { name: "lobby".to_string(), url: "rtsp://10.0.0.3/main".to_string() },
        ],
        vec!["k1".to_string(), "secret key".to_string()],
    )
}

#[test]
fn configuration_keeps_its_parts() {
    let c = config();
    assert_eq!(c.server.port, 3000);
    assert_eq!(c.srs.api_url, "http://srs.example.com:1985/api/v1/streams");
    assert_eq!(c.streams.len(), 3);
    assert_eq!(c.api_keys, vec!["k1".to_string(), "secret key".to_string()]);
}

#[test]
fn first_stream_of_a_name_is_found() {
    let c = config();
    assert_eq!(c.find_stream("lobby").unwrap().url, "rtsp://10.0.0.1/main");
    assert_eq!(c.find_stream("gate").unwrap().url, "rtsp://10.0.0.2/main");
    assert!(c.find_stream("Lobby").is_none());
    assert!(c.find_stream("").is_none());
}

#[test]
fn only_configured_keys_are_accepted() {
    let c = config();
    assert!(c.has_api_key("k1"));
    assert!(c.has_api_key("secret key"));
    assert!(!c.has_api_key("k2"));
    assert!(!c.has_api_key(""));
    assert!(!c.has_api_key("K1"));
}

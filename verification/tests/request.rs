use rtsp2flv::config::{AppConfig, ServerConfig, SrsConfig, StreamConfig};
use rtsp2flv::request::{
    bearer_token, is_authorized, output_url, relay_host, relay_url, resolve_source, RequestError,
    Source,
};

fn config() -> AppConfig {
    AppConfig::new(
        ServerConfig { port: 3000 },
        SrsConfig {
            api_url: "http://srs.example.com:1985/api".to_string(),
            playback_url_template: "http://srs.example.com:8080/live/{stream_name}.flv".to_string(),
        },
        vec![
            StreamConfig { name: "lobby".to_string(), url: "rtsp://10.0.0.1/main".to_string() },
            StreamConfig { name: "feed".to_string(), url: "http://10.0.0.2/feed".to_string() },
        ],
        vec!["k1".to_string()],
    )
}

fn source(name: &str, url: &str) -> Source {
    Source { name: name.to_string(), url: url.to_string() }
}

#[test]
fn request_with_an_address_means_that_address() {
    let c = config();
    assert_eq!(resolve_source(&c, "mine", Some("rtsp://cam/1")), Ok(source("mine", "rtsp://cam/1")));
    assert_eq!(resolve_source(&c, "lobby", Some("RTSP://cam/2")), Ok(source("lobby", "RTSP://cam/2")));
}

#[test]
fn request_with_a_foreign_address_is_rejected() {
    let c = config();
    assert_eq!(resolve_source(&c, "lobby", Some("http://cam/1")), Err(RequestError::InvalidScheme));
    assert_eq!(resolve_source(&c, "lobby", Some(" ")), Err(RequestError::InvalidScheme));
}

#[test]
fn request_without_an_address_means_the_configured_stream() {
    let c = config();
    assert_eq!(resolve_source(&c, "lobby", None), Ok(source("lobby", "rtsp://10.0.0.1/main")));
    assert_eq!(resolve_source(&c, "lobby", Some("")), Ok(source("lobby", "rtsp://10.0.0.1/main")));
    assert_eq!(resolve_source(&c, "feed", None), Ok(source("feed", "http://10.0.0.2/feed")));
}

#[test]
fn request_for_an_unknown_stream_is_rejected() {
    let c = config();
    assert_eq!(resolve_source(&c, "garage", None), Err(RequestError::UnknownStream));
    assert_eq!(resolve_source(&c, "garage", Some("")), Err(RequestError::UnknownStream));
}

#[test]
fn relay_host_falls_back_to_this_machine() {
    assert_eq!(relay_host(Some(Some("srs.example.com".to_string()))), Ok("srs.example.com".to_string()));
    assert_eq!(relay_host(Some(None)), Ok("127.0.0.1".to_string()));
    assert_eq!(relay_host(None), Err(RequestError::InvalidApiUrl));
}

#[test]
fn relay_address_is_made_of_host_and_name() {
    assert_eq!(relay_url("srs.example.com", "front_door"), "rtmp://srs.example.com:1935/live/front_door");
    assert_eq!(relay_url("", ""), "rtmp://:1935/live/");
}

#[test]
fn output_goes_to_the_host_of_the_api() {
    assert_eq!(
        output_url("http://srs.example.com:1985/api/v1", "Front Door"),
        Ok("rtmp://srs.example.com:1935/live/front_door".to_string())
    );
    assert_eq!(
        output_url("https://192.168.1.20/api", "cam"),
        Ok("rtmp://192.168.1.20:1935/live/cam".to_string())
    );
    assert_eq!(
        output_url("HTTP://SRS.Example.COM/api", "cam"),
        Ok("rtmp://srs.example.com:1935/live/cam".to_string())
    );
}

#[test]
fn api_address_without_a_host_means_this_machine() {
    assert_eq!(output_url("unix:/run/srs.socket", "cam"), Ok("rtmp://127.0.0.1:1935/live/cam".to_string()));
}

#[test]
fn api_address_that_is_no_url_is_rejected() {
    assert_eq!(output_url("srs.example.com/api", "cam"), Err(RequestError::InvalidApiUrl));
    assert_eq!(output_url("", "cam"), Err(RequestError::InvalidApiUrl));
}

#[test]
fn key_is_taken_from_the_header() {
    assert_eq!(bearer_token("Bearer k1"), "k1");
    assert_eq!(bearer_token("k1"), "k1");
    assert_eq!(bearer_token("Bearer   k1  "), "k1");
    assert_eq!(bearer_token("Bearer Bearer k1"), "k1");
    assert_eq!(bearer_token(" Bearer k1"), "Bearer k1");
    assert_eq!(bearer_token("bearer k1"), "bearer k1");
    assert_eq!(bearer_token(""), "");
}

#[test]
fn only_accepted_keys_authorize() {
    let c = config();
    assert!(is_authorized(&c, "Bearer k1"));
    assert!(is_authorized(&c, "k1"));
    assert!(is_authorized(&c, "Bearer k1 "));
    assert!(!is_authorized(&c, "Bearer k2"));
    assert!(!is_authorized(&c, "Bearer"));
    assert!(!is_authorized(&c, ""));
}

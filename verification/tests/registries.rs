use image_upgrader::error::ResolveError;
use image_upgrader::registry::{
    construct_container_url, decode_tags, latest_from_reply, parse_kind, plan_request,
    read_reply, resolve_latest, retry_delay, tags_in_value, tags_url, RegistryKind, RegistryRef,
};

fn strings(items: &[&str]) -> Vec<String> {
    items.iter().map(|s| s.to_string()).collect()
}

fn reference(kind: RegistryKind) -> RegistryRef {
    RegistryRef { namespace: "library".to_string(), repository: "nginx".to_string(), kind }
}

const DOCKER_BODY: &str =
    r#"{"count": 3, "next": null, "results": [{"name": "1.0.0", "id": 7}, {"name": "1.1.0"}, {"name": "latest"}]}"#;

const GHCR_BODY: &str = r#"{"name": "owner/app", "tags": ["main", "abc123", "older"]}"#;

#[test]
fn image_sources_name_registry_kinds() {
    assert_eq!(parse_kind("dockerhub"), Ok(RegistryKind::DockerHub));
    assert_eq!(parse_kind("ghcr"), Ok(RegistryKind::Ghcr));
    assert_eq!(parse_kind("quay"), Err(ResolveError::RegistryUnsupported));
    assert_eq!(parse_kind(""), Err(ResolveError::RegistryUnsupported));
    assert_eq!(parse_kind("DockerHub"), Err(ResolveError::RegistryUnsupported));
}

#[test]
fn tag_list_addresses() {
    assert_eq!(
        tags_url(RegistryKind::DockerHub, "library", "nginx"),
        "https://hub.docker.com/v2/repositories/library/nginx/tags?page_size=100"
    );
    assert_eq!(
        tags_url(RegistryKind::Ghcr, "owner", "app"),
        "https://ghcr.io/v2/owner/app/tags/list?n=10"
    );
}

#[test]
fn container_page_addresses() {
    assert_eq!(
        construct_container_url("dockerhub", "library", "nginx"),
        Ok("https://hub.docker.com/r/library/nginx".to_string())
    );
    assert_eq!(
        construct_container_url("ghcr", "owner", "app"),
        Ok("https://ghcr.io/owner/app".to_string())
    );
    assert_eq!(
        construct_container_url("quay", "owner", "app"),
        Err(ResolveError::RegistryUnsupported)
    );
}

#[test]
fn docker_hub_is_asked_without_a_token() {
    let request = plan_request(&reference(RegistryKind::DockerHub), None).unwrap();
    assert_eq!(
        request.url,
        "https://hub.docker.com/v2/repositories/library/nginx/tags?page_size=100"
    );
    assert_eq!(request.authorization, None);
    let request = plan_request(&reference(RegistryKind::DockerHub), Some("t0ken")).unwrap();
    assert_eq!(request.authorization, None);
}

#[test]
fn ghcr_is_asked_with_a_token() {
    let request = plan_request(&reference(RegistryKind::Ghcr), Some("t0ken")).unwrap();
    assert_eq!(request.url, "https://ghcr.io/v2/library/nginx/tags/list?n=10");
    assert_eq!(request.authorization, Some("Bearer t0ken".to_string()));
}

#[test]
fn ghcr_without_a_token_needs_auth() {
    let r = plan_request(&reference(RegistryKind::Ghcr), None);
    assert_eq!(r.unwrap_err(), ResolveError::AuthRequired);
}

#[test]
fn docker_hub_bodies_list_names() {
    assert_eq!(
        decode_tags(RegistryKind::DockerHub, DOCKER_BODY),
        Ok(strings(&["1.0.0", "1.1.0", "latest"]))
    );
    assert_eq!(decode_tags(RegistryKind::DockerHub, r#"{"results": []}"#), Ok(strings(&[])));
}

#[test]
fn ghcr_bodies_list_tags() {
    assert_eq!(
        decode_tags(RegistryKind::Ghcr, GHCR_BODY),
        Ok(strings(&["main", "abc123", "older"]))
    );
    assert_eq!(
        decode_tags(RegistryKind::Ghcr, r#"{"tags": ["abc", "\"q\""]}"#),
        Ok(strings(&["abc", "\"q\""]))
    );
}

#[test]
fn bodies_of_another_shape_are_malformed() {
    let bad = [
        "",
        "not json",
        "{",
        "[]",
        "null",
        r#"{"tags": "main"}"#,
        r#"{"tags": ["main", 3]}"#,
        r#"{"tags": null}"#,
        r#"{"results": [{"name": "1.0.0"}]}"#,
        r#"{"Tags": ["main"]}"#,
    ];
    for body in bad {
        assert_eq!(decode_tags(RegistryKind::Ghcr, body), Err(ResolveError::MalformedResponse));
    }
    let bad = [
        "",
        "{\"results\": [",
        r#"{"tags": ["main"]}"#,
        r#"{"results": {"name": "1.0.0"}}"#,
        r#"{"results": ["1.0.0"]}"#,
        r#"{"results": [{"name": "1.0.0"}, {"id": 3}]}"#,
        r#"{"results": [{"name": 1}]}"#,
        r#"{"results": [{"name": null}]}"#,
    ];
    for body in bad {
        assert_eq!(
            decode_tags(RegistryKind::DockerHub, body),
            Err(ResolveError::MalformedResponse)
        );
    }
}

#[test]
fn tags_in_value_reads_a_parsed_reply() {
    let v: serde_json::Value = serde_json::from_str(DOCKER_BODY).unwrap();
    assert_eq!(
        tags_in_value(RegistryKind::DockerHub, &v),
        Ok(strings(&["1.0.0", "1.1.0", "latest"]))
    );
    assert_eq!(tags_in_value(RegistryKind::Ghcr, &v), Err(ResolveError::MalformedResponse));
    let v: serde_json::Value = serde_json::from_str(GHCR_BODY).unwrap();
    assert_eq!(tags_in_value(RegistryKind::Ghcr, &v), Ok(strings(&["main", "abc123", "older"])));
    assert_eq!(tags_in_value(RegistryKind::DockerHub, &v), Err(ResolveError::MalformedResponse));
}

#[test]
fn status_429_is_a_rate_limit_with_its_delay() {
    assert_eq!(
        read_reply(RegistryKind::DockerHub, 429, Some(30), DOCKER_BODY),
        Err(ResolveError::RateLimited { retry_after: Some(30) })
    );
    assert_eq!(
        read_reply(RegistryKind::Ghcr, 429, None, ""),
        Err(ResolveError::RateLimited { retry_after: None })
    );
}

#[test]
fn a_delay_is_a_number_of_seconds() {
    assert_eq!(retry_delay("30"), Some(30));
    assert_eq!(retry_delay("0"), Some(0));
    assert_eq!(retry_delay("007"), Some(7));
    assert_eq!(retry_delay("18446744073709551615"), Some(u64::MAX));
    assert_eq!(retry_delay("18446744073709551616"), None);
    assert_eq!(retry_delay(""), None);
    assert_eq!(retry_delay("+30"), None);
    assert_eq!(retry_delay(" 30"), None);
    assert_eq!(retry_delay("30s"), None);
    assert_eq!(retry_delay("Wed, 21 Oct 2015 07:28:00 GMT"), None);
}

#[test]
fn other_statuses_outside_2xx_are_transport_errors() {
    for status in [0u16, 100, 199, 300, 301, 401, 404, 500, 503, 65535] {
        assert_eq!(
            read_reply(RegistryKind::DockerHub, status, Some(5), DOCKER_BODY),
            Err(ResolveError::TransportError)
        );
    }
}

#[test]
fn statuses_in_2xx_are_read() {
    for status in [200u16, 201, 204, 299] {
        assert_eq!(
            read_reply(RegistryKind::DockerHub, status, None, DOCKER_BODY),
            Ok(strings(&["1.0.0", "1.1.0", "latest"]))
        );
    }
    assert_eq!(
        read_reply(RegistryKind::DockerHub, 200, None, "oops"),
        Err(ResolveError::MalformedResponse)
    );
}

#[test]
fn each_kind_has_its_policy() {
    let tags = strings(&["1.0.0", "main", "1.1.0", "latest"]);
    assert_eq!(resolve_latest(RegistryKind::DockerHub, &tags, None), Ok("1.1.0".to_string()));
    assert_eq!(resolve_latest(RegistryKind::Ghcr, &tags, None), Ok("1.1.0".to_string()));
    let tags = strings(&["2.0.0", "main", "abc123"]);
    assert_eq!(resolve_latest(RegistryKind::DockerHub, &tags, None), Ok("2.0.0".to_string()));
    assert_eq!(resolve_latest(RegistryKind::Ghcr, &tags, None), Ok("abc123".to_string()));
    let tags = strings(&["latest"]);
    assert_eq!(
        resolve_latest(RegistryKind::DockerHub, &tags, None),
        Err(ResolveError::NoValidTagsFound)
    );
    assert_eq!(resolve_latest(RegistryKind::Ghcr, &tags, None), Err(ResolveError::SentinelNotFound));
}

#[test]
fn a_reply_announces_the_latest_tag() {
    assert_eq!(
        latest_from_reply(RegistryKind::DockerHub, 200, None, DOCKER_BODY, None),
        Ok("1.1.0".to_string())
    );
    assert_eq!(
        latest_from_reply(RegistryKind::Ghcr, 200, None, GHCR_BODY, None),
        Ok("abc123".to_string())
    );
    assert_eq!(
        latest_from_reply(RegistryKind::Ghcr, 200, None, r#"{"tags": ["abc123", "main"]}"#, None),
        Err(ResolveError::NoTagAfterSentinel)
    );
    assert_eq!(
        latest_from_reply(RegistryKind::Ghcr, 200, None, r#"{"tags": ["abc123"]}"#, None),
        Err(ResolveError::SentinelNotFound)
    );
    assert_eq!(
        latest_from_reply(RegistryKind::DockerHub, 200, None, r#"{"results": []}"#, None),
        Err(ResolveError::NoValidTagsFound)
    );
    assert_eq!(
        latest_from_reply(RegistryKind::DockerHub, 500, None, DOCKER_BODY, None),
        Err(ResolveError::TransportError)
    );
    assert_eq!(
        latest_from_reply(RegistryKind::DockerHub, 429, Some(60), DOCKER_BODY, None),
        Err(ResolveError::RateLimited { retry_after: Some(60) })
    );
    assert_eq!(
        latest_from_reply(RegistryKind::DockerHub, 200, None, "<html>", None),
        Err(ResolveError::MalformedResponse)
    );
}

#[test]
fn error_messages() {
    assert_eq!(ResolveError::RegistryUnsupported.message(), "Unsupported image source");
    assert_eq!(ResolveError::AuthRequired.message(), "Registry token is required");
    assert_eq!(
        ResolveError::RateLimited { retry_after: Some(3) }.message(),
        "Rate limited by the registry"
    );
    assert_eq!(ResolveError::TransportError.message(), "Failed to fetch tags");
    assert_eq!(ResolveError::MalformedResponse.message(), "Failed to parse JSON response");
    assert_eq!(
        ResolveError::NoValidTagsFound.message(),
        "No valid semantic version tags found in the response"
    );
    assert_eq!(ResolveError::SentinelNotFound.message(), "'main' tag not found");
    assert_eq!(ResolveError::NoTagAfterSentinel.message(), "No tag found after 'main'");
}

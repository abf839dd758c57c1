use stricter::connector::Connector;
use stricter::inventory::url_parts::{UrlError, UrlParts};
use stricter::inventory::{connector_for_url, load, pick_connector, HostTemplate, InventoryError};

fn host(connectors: &[&str]) -> HostTemplate {
    HostTemplate::new(connectors.iter().map(|s| s.to_string()).collect())
}

#[test]
fn inventory_has_one_docker_host() {
    let inv = load().unwrap();
    assert_eq!(inv.hosts.len(), 1);
    assert_eq!(inv.hosts[0].connectors(), &vec!["docker-test://ubuntu/18.04".to_string()]);
    assert_eq!(inv.hosts[0].tags(), &vec![("name".to_string(), "potato".to_string())]);
}

#[test]
fn inventory_host_picks_ubuntu() {
    let inv = load().unwrap();
    assert_eq!(
        pick_connector(&inv.hosts[0]),
        Ok(Connector::DockerTest { base_image: "ubuntu:18.04".to_string() })
    );
}

#[test]
fn pick_uses_first_connector() {
    let h = host(&["docker-test://alpine/3.9", "docker-test://ubuntu/18.04"]);
    assert_eq!(
        pick_connector(&h),
        Ok(Connector::DockerTest { base_image: "alpine:3.9".to_string() })
    );
}

#[test]
fn pick_needs_a_connector() {
    assert_eq!(pick_connector(&host(&[])), Err(InventoryError::NoConnectors));
}

#[test]
fn pick_refuses_bad_url() {
    assert_eq!(
        pick_connector(&host(&["not a url"])),
        Err(InventoryError::InvalidUrl(UrlError::RelativeUrlWithoutBase))
    );
}

#[test]
fn pick_refuses_other_scheme() {
    assert_eq!(
        pick_connector(&host(&["ssh://example.com/x"])),
        Err(InventoryError::BadScheme { scheme: "ssh".to_string() })
    );
}

#[test]
fn pick_refuses_missing_host() {
    assert_eq!(
        pick_connector(&host(&["docker-test:ubuntu"])),
        Err(InventoryError::NoHost { url: "docker-test:ubuntu".to_string() })
    );
}

#[test]
fn pick_refuses_empty_path() {
    assert_eq!(
        pick_connector(&host(&["docker-test://ubuntu"])),
        Err(InventoryError::EmptyPath { url: "docker-test://ubuntu".to_string() })
    );
}

#[test]
fn pick_keeps_root_path() {
    assert_eq!(
        pick_connector(&host(&["docker-test://ubuntu/"])),
        Ok(Connector::DockerTest { base_image: "ubuntu:".to_string() })
    );
}

#[test]
fn connector_for_parts() {
    let parts = UrlParts {
        scheme: "docker-test".to_string(),
        host: Some("debian".to_string()),
        path: "/buster".to_string(),
        serialization: "docker-test://debian/buster".to_string(),
    };
    assert_eq!(
        connector_for_url(&parts),
        Ok(Connector::DockerTest { base_image: "debian:buster".to_string() })
    );
    let parts = UrlParts { scheme: "http".to_string(), ..parts };
    assert_eq!(
        connector_for_url(&parts),
        Err(InventoryError::BadScheme { scheme: "http".to_string() })
    );
}

#[test]
fn pick_reports_reader_error_kind() {
    assert_eq!(
        pick_connector(&host(&["docker-test://ubuntu:99999/x"])),
        Err(InventoryError::InvalidUrl(UrlError::InvalidPort))
    );
    assert_eq!(
        pick_connector(&host(&["http://"])),
        Err(InventoryError::InvalidUrl(UrlError::EmptyHost))
    );
}

#[test]
fn pick_ignores_later_connectors_and_tags() {
    let mut a = host(&["docker-test://ubuntu/18.04", "ssh://x/"]);
    a.insert_tag("role".to_string(), "db".to_string());
    let b = host(&["docker-test://ubuntu/18.04"]);
    assert_eq!(pick_connector(&a), pick_connector(&b));
    let c = host(&["bad url", "docker-test://ubuntu/18.04"]);
    let d = host(&["bad url"]);
    assert_eq!(pick_connector(&c), pick_connector(&d));
}

#[test]
fn tags_behave_as_a_map() {
    let mut h = host(&[]);
    assert_eq!(h.insert_tag("name".to_string(), "potato".to_string()), None);
    assert_eq!(h.insert_tag("role".to_string(), "db".to_string()), None);
    assert_eq!(h.insert_tag("name".to_string(), "tomato".to_string()), Some("potato".to_string()));
    assert_eq!(
        h.tags(),
        &vec![
            ("name".to_string(), "tomato".to_string()),
            ("role".to_string(), "db".to_string())
        ]
    );
}

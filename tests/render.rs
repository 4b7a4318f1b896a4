use xycrd::record::{EndpointMonitor, EndpointMonitorSpec};
use xycrd::render::render_config;

fn monitor(ns: &str, name: &str, url: &str, check: Option<&str>, tags: Option<&str>) -> EndpointMonitor {
    EndpointMonitor {
        namespace: ns.to_string(),
        name: name.to_string(),
        spec: EndpointMonitorSpec {
            url: url.to_string(),
            content_check: check.map(|c| c.to_string()),
            tags: tags.map(|t| t.to_string()),
        },
    }
}

#[test]
fn line_without_content_check_uses_url() {
    let m = monitor("default", "site", "http://example.com", None, None);
    assert_eq!(m.as_string(), "0.0.0.0 default__site # noconn http://example.com ");
    assert_eq!(render_config(&vec![m]), "0.0.0.0 default__site # noconn http://example.com \n");
}

#[test]
fn line_with_content_check() {
    let m = monitor("prod", "api", "https://api.example.org/health", Some("ok"), None);
    assert_eq!(
        m.as_string(),
        "0.0.0.0 prod__api # noconn cont;https://api.example.org/health;ok "
    );
}

#[test]
fn line_with_tags() {
    let m = monitor("ns", "web", "http://w", Some("up"), Some("team-a critical"));
    assert_eq!(m.as_string(), "0.0.0.0 ns__web # noconn cont;http://w;up team-a critical");
    let n = monitor("ns", "web2", "http://w2", None, Some(""));
    assert_eq!(n.as_string(), "0.0.0.0 ns__web2 # noconn http://w2 ");
}

#[test]
fn empty_snapshot_renders_empty_file() {
    assert_eq!(render_config(&vec![]), "");
}

#[test]
fn one_line_per_record_in_order() {
    let records = vec![
        monitor("a", "one", "http://1", None, None),
        monitor("b", "two", "http://2", Some("c"), Some("t")),
        monitor("a", "three", "http://3", None, Some("x y")),
    ];
    let out = render_config(&records);
    assert_eq!(out.matches('\n').count(), 3);
    assert_eq!(
        out,
        "0.0.0.0 a__one # noconn http://1 \n\
         0.0.0.0 b__two # noconn cont;http://2;c t\n\
         0.0.0.0 a__three # noconn http://3 x y\n"
    );
}

#[test]
fn rendering_twice_is_identical() {
    let records = vec![
        monitor("a", "one", "http://1", None, None),
        monitor("b", "two", "http://2", Some("c"), Some("t")),
    ];
    assert_eq!(render_config(&records), render_config(&records));
}

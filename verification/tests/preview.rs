use qtex::preview::{bind_attempts, view_url, Delivery, Subscriber, ARTIFACT_ROUTE, DEFAULT_PORT, PUSH_ROUTE, VIEW_ROUTE};

#[test]
fn routes_and_default_port() {
    assert_eq!(DEFAULT_PORT, 4343);
    assert_eq!(VIEW_ROUTE, "/view");
    assert_eq!(ARTIFACT_ROUTE, "/pdf");
    assert_eq!(PUSH_ROUTE, "/ws");
}

#[test]
fn bind_falls_back_to_a_port_of_the_systems_choice() {
    assert_eq!(bind_attempts(4343), vec![4343, 0]);
    assert_eq!(bind_attempts(0), vec![0]);
    assert_eq!(bind_attempts(65535), vec![65535, 0]);
}

#[test]
fn view_url_names_the_bound_port() {
    assert_eq!(view_url(4343), "http://localhost:4343/view");
    assert_eq!(view_url(51234), "http://localhost:51234/view");
    assert_eq!(view_url(0), "http://localhost:0/view");
}

#[test]
fn subscriber_forwards_each_publication_once() {
    let mut s = Subscriber::new();
    assert!(s.is_live());
    assert_eq!(s.relay(Delivery::Published("/w/output.pdf".to_string())), Some("/w/output.pdf".to_string()));
    s.sent(true);
    assert!(s.is_live());
    assert_eq!(s.relay(Delivery::Published("/w/other.pdf".to_string())), Some("/w/other.pdf".to_string()));
}

#[test]
fn subscriber_is_dropped_on_failed_send_or_closed_channel() {
    let mut s = Subscriber::new();
    s.sent(false);
    assert!(!s.is_live());
    assert_eq!(s.relay(Delivery::Published("/w/output.pdf".to_string())), None);
    s.sent(true);
    assert!(!s.is_live());

    let mut t = Subscriber::new();
    assert_eq!(t.relay(Delivery::Closed), None);
    assert!(!t.is_live());
}

#[test]
fn late_subscriber_sees_no_earlier_publication() {
    let (bus, _keep) = tokio::sync::broadcast::channel::<String>(16);
    // publishing with nobody listening is not an error for the publisher
    let mut early = bus.subscribe();
    drop(_keep);
    bus.send("/w/output.pdf".to_string()).unwrap();
    let mut late = bus.subscribe();

    let mut first = Subscriber::new();
    let got = match early.try_recv() {
        Ok(path) => first.relay(Delivery::Published(path)),
        Err(_) => first.relay(Delivery::Closed),
    };
    assert_eq!(got, Some("/w/output.pdf".to_string()));
    assert!(early.try_recv().is_err());
    assert!(late.try_recv().is_err());
}

#[test]
fn subscriber_that_fell_behind_goes_on() {
    let mut s = Subscriber::new();
    assert_eq!(s.relay(Delivery::Missed), None);
    assert!(s.is_live());
    assert_eq!(s.relay(Delivery::Published("/w/output.pdf".to_string())), Some("/w/output.pdf".to_string()));
    let mut ended = Subscriber::new();
    ended.sent(false);
    assert_eq!(ended.relay(Delivery::Missed), None);
    assert!(!ended.is_live());
}

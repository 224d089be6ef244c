use discover::address::{base_address, device_service_address};
use discover::client::{management_from, Clients, Endpoint};
use discover::credentials::Credentials;
use discover::directory::{
    bind_service, resolve, service_kind, Binding, ServiceDescriptor, ServiceDirectory, ServiceKind,
    SessionError,
};

const DEVICE: &str = "http://www.onvif.org/ver10/device/wsdl";
const MEDIA: &str = "http://www.onvif.org/ver10/media/wsdl";
const EVENTS: &str = "http://www.onvif.org/ver10/events/wsdl";
const BASE: &str = "http://10.0.0.5";

fn service(namespace: &str, x_addr: &str) -> ServiceDescriptor {
    ServiceDescriptor::new(namespace, x_addr)
}

fn login(username: &str, password: &str) -> Option<Credentials> {
    Some(Credentials::new(username, password))
}

#[test]
fn addresses_are_built_from_the_base() {
    assert_eq!(base_address("http", "10.0.0.5"), "http://10.0.0.5");
    assert_eq!(base_address("https", "cam.example"), "https://cam.example");
    assert_eq!(device_service_address(BASE), "http://10.0.0.5/onvif/device_service");
}

#[test]
fn namespaces_are_told_apart() {
    assert_eq!(service_kind(DEVICE), ServiceKind::Management);
    assert_eq!(service_kind(MEDIA), ServiceKind::Media);
    assert_eq!(service_kind(EVENTS), ServiceKind::Other);
    assert_eq!(service_kind(""), ServiceKind::Other);
    assert_eq!(service_kind("http://www.onvif.org/ver10/media/wsdl/"), ServiceKind::Other);
}

#[test]
fn management_endpoint_is_the_device_service() {
    let endpoint = Clients::management_endpoint(BASE, Some("user1"), Some("pass1")).unwrap();
    assert_eq!(endpoint.address, "http://10.0.0.5/onvif/device_service");
    assert_eq!(endpoint.credentials, login("user1", "pass1"));
    let anonymous = Clients::management_endpoint(BASE, None, None).unwrap();
    assert_eq!(anonymous.credentials, None);
}

#[test]
fn management_endpoint_is_the_url_as_read() {
    let endpoint = Clients::management_endpoint("HTTP://Cam.Example:80", None, None).unwrap();
    assert_eq!(endpoint.address, "http://cam.example/onvif/device_service");
}

#[test]
fn base_that_is_no_url_gives_no_session() {
    let r = Clients::management_endpoint("10.0.0.5", None, None);
    assert_eq!(r, Err(SessionError::MalformedAddress("relative URL without a base".to_string())));
    let r = Clients::new("10.0.0.5", None, None, &vec![]);
    assert_eq!(r, Err(SessionError::MalformedAddress("relative URL without a base".to_string())));
    let r = Clients::new("http://:80", Some("a"), Some("b"), &vec![service(MEDIA, "http://:80/onvif/media")]);
    assert_eq!(r, Err(SessionError::MalformedAddress("empty host".to_string())));
}

#[test]
fn management_follows_from_the_reading() {
    assert_eq!(
        management_from(Ok("http://10.0.0.5/onvif/device_service".to_string()), login("u", "p")),
        Ok(Endpoint { address: "http://10.0.0.5/onvif/device_service".to_string(), credentials: login("u", "p") })
    );
    assert_eq!(
        management_from(Err("empty host".to_string()), None),
        Err(SessionError::MalformedAddress("empty host".to_string()))
    );
}

#[test]
fn session_binds_management_and_media() {
    let services = vec![
        service(DEVICE, "http://10.0.0.5/onvif/device_service"),
        service(EVENTS, "http://10.0.0.5/onvif/events"),
        service(MEDIA, "http://10.0.0.5/onvif/media"),
    ];
    let clients = Clients::new(BASE, Some("user2"), Some("pass2"), &services).unwrap();
    assert_eq!(clients.devicemgmt().address, "http://10.0.0.5/onvif/device_service");
    assert_eq!(clients.devicemgmt().credentials, login("user2", "pass2"));
    let media = clients.media().expect("the device lists a media service");
    assert_eq!(media.address, "http://10.0.0.5/onvif/media");
    assert_eq!(media.credentials, login("user2", "pass2"));
}

#[test]
fn session_without_credentials_binds_without_them() {
    let services = vec![service(MEDIA, "http://10.0.0.5/onvif/media")];
    let clients = Clients::new(BASE, None, None, &services).unwrap();
    assert_eq!(clients.devicemgmt().credentials, None);
    assert_eq!(clients.media().unwrap().credentials, None);
}

#[test]
fn session_without_media_service() {
    let services = vec![
        service(DEVICE, "http://10.0.0.5/onvif/device_service"),
        service(EVENTS, "http://10.0.0.5/onvif/events"),
    ];
    let clients = Clients::new(BASE, Some("a"), Some("b"), &services).unwrap();
    assert!(clients.media().is_none());
    let empty = Clients::new(BASE, Some("a"), Some("b"), &vec![]).unwrap();
    assert!(empty.media().is_none());
    assert_eq!(empty.devicemgmt().address, "http://10.0.0.5/onvif/device_service");
}

#[test]
fn media_is_bound_to_the_url_as_read() {
    let services = vec![service(MEDIA, "HTTP://10.0.0.5:80/onvif/../onvif/media?x=1")];
    let clients = Clients::new(BASE, None, None, &services).unwrap();
    assert_eq!(clients.media().unwrap().address, "http://10.0.0.5/onvif/media?x=1");
}

#[test]
fn last_media_service_wins() {
    let services = vec![
        service(MEDIA, "http://10.0.0.5/onvif/media"),
        service(EVENTS, "http://10.0.0.5/onvif/events"),
        service(MEDIA, "http://10.0.0.5/onvif/media2"),
        service(DEVICE, "http://10.0.0.5/onvif/device_service"),
    ];
    let clients = Clients::new(BASE, None, None, &services).unwrap();
    assert_eq!(clients.media().unwrap().address, "http://10.0.0.5/onvif/media2");
}

#[test]
fn address_outside_base_gives_no_session() {
    let services = vec![
        service(DEVICE, "http://10.0.0.5/onvif/device_service"),
        service(MEDIA, "http://10.0.0.6/onvif/media"),
    ];
    let r = Clients::new(BASE, Some("a"), Some("b"), &services);
    assert_eq!(
        r,
        Err(SessionError::OutsideBase {
            x_addr: "http://10.0.0.6/onvif/media".to_string(),
            base: BASE.to_string(),
        })
    );
}

#[test]
fn unknown_service_outside_base_gives_no_session() {
    let services = vec![
        service(MEDIA, "http://10.0.0.5/onvif/media"),
        service(EVENTS, "https://10.0.0.5/onvif/events"),
    ];
    let r = Clients::new(BASE, None, None, &services);
    assert_eq!(
        r,
        Err(SessionError::OutsideBase {
            x_addr: "https://10.0.0.5/onvif/events".to_string(),
            base: BASE.to_string(),
        })
    );
}

#[test]
fn base_is_compared_as_text() {
    let services = vec![service(MEDIA, "http://10.0.0.50/onvif/media")];
    let clients = Clients::new(BASE, None, None, &services).unwrap();
    assert_eq!(clients.media().unwrap().address, "http://10.0.0.50/onvif/media");
}

#[test]
fn malformed_service_address_gives_no_session() {
    let services = vec![
        service(MEDIA, "http://10.0.0.5/onvif/media"),
        service(EVENTS, "/onvif/events"),
    ];
    let r = Clients::new(BASE, None, None, &services);
    assert_eq!(r, Err(SessionError::MalformedAddress("relative URL without a base".to_string())));
    let services = vec![service(MEDIA, "http://10.0.0.5:99999/onvif/media")];
    let r = Clients::new(BASE, None, None, &services);
    assert_eq!(r, Err(SessionError::MalformedAddress("invalid port number".to_string())));
}

#[test]
fn management_elsewhere_gives_no_session() {
    let services = vec![
        service(DEVICE, "http://10.0.0.5/onvif/other_service"),
        service(MEDIA, "http://10.0.0.5/onvif/media"),
    ];
    let r = Clients::new(BASE, None, None, &services);
    assert_eq!(
        r,
        Err(SessionError::ManagementMismatch {
            x_addr: "http://10.0.0.5/onvif/other_service".to_string(),
            expected: "http://10.0.0.5/onvif/device_service".to_string(),
        })
    );
}

#[test]
fn management_is_compared_letter_for_letter() {
    let services = vec![service(DEVICE, "http://10.0.0.5:80/onvif/device_service")];
    let r = Clients::new(BASE, None, None, &services);
    assert_eq!(
        r,
        Err(SessionError::ManagementMismatch {
            x_addr: "http://10.0.0.5:80/onvif/device_service".to_string(),
            expected: "http://10.0.0.5/onvif/device_service".to_string(),
        })
    );
}

#[test]
fn first_refused_service_decides() {
    let services = vec![
        service(EVENTS, "http://10.0.0.5/onvif/events"),
        service(DEVICE, "http://10.0.0.5/onvif/wrong"),
        service(MEDIA, "http://evil.example/onvif/media"),
        service(EVENTS, "::"),
    ];
    let r = Clients::new(BASE, None, None, &services);
    assert!(matches!(r, Err(SessionError::ManagementMismatch { .. })));
    let services = vec![
        service(MEDIA, "http://evil.example/onvif/media"),
        service(DEVICE, "http://10.0.0.5/onvif/wrong"),
    ];
    let r = Clients::new(BASE, None, None, &services);
    assert!(matches!(r, Err(SessionError::OutsideBase { .. })));
}

#[test]
fn resolve_gives_the_directory() {
    let management = "http://10.0.0.5/onvif/device_service";
    let services = vec![
        service(DEVICE, management),
        service(MEDIA, "http://10.0.0.5:80/onvif/media"),
    ];
    assert_eq!(
        resolve(BASE, management, &services),
        Ok(ServiceDirectory {
            management: management.to_string(),
            media: Some("http://10.0.0.5/onvif/media".to_string()),
        })
    );
    assert_eq!(
        resolve(BASE, management, &vec![service(DEVICE, management)]),
        Ok(ServiceDirectory { management: management.to_string(), media: None })
    );
    assert_eq!(
        resolve(BASE, management, &vec![]),
        Ok(ServiceDirectory { management: management.to_string(), media: None })
    );
    assert_eq!(
        resolve(BASE, management, &vec![service(MEDIA, "http://10.0.0.7/onvif/media")]),
        Err(SessionError::OutsideBase { x_addr: "http://10.0.0.7/onvif/media".to_string(), base: BASE.to_string() })
    );
}

#[test]
fn one_service_is_judged_by_its_reading() {
    let management = "http://10.0.0.5/onvif/device_service";
    let media = service(MEDIA, "http://10.0.0.5:80/onvif/media");
    assert_eq!(
        bind_service(BASE, management, &media, Ok("http://10.0.0.5/onvif/media".to_string())),
        Ok(Binding::Media("http://10.0.0.5/onvif/media".to_string()))
    );
    assert_eq!(
        bind_service(BASE, management, &media, Err("invalid port number".to_string())),
        Err(SessionError::MalformedAddress("invalid port number".to_string()))
    );
    assert_eq!(
        bind_service(BASE, management, &media, Ok("http://10.0.0.9/onvif/media".to_string())),
        Err(SessionError::OutsideBase { x_addr: "http://10.0.0.5:80/onvif/media".to_string(), base: BASE.to_string() })
    );
    let device = service(DEVICE, management);
    assert_eq!(bind_service(BASE, management, &device, Ok(management.to_string())), Ok(Binding::Management));
    let other = service(EVENTS, "http://10.0.0.5/onvif/events");
    assert_eq!(
        bind_service(BASE, management, &other, Ok("http://10.0.0.5/onvif/events".to_string())),
        Ok(Binding::Ignored)
    );
}

#[test]
fn session_errors_are_worded() {
    assert_eq!(SessionError::MalformedAddress("empty host".to_string()).message(), "empty host");
    assert_eq!(
        SessionError::OutsideBase { x_addr: "http://10.0.0.6/m".to_string(), base: BASE.to_string() }.message(),
        "Service URI http://10.0.0.6/m is not within base URI http://10.0.0.5"
    );
    assert_eq!(
        SessionError::ManagementMismatch {
            x_addr: "http://10.0.0.5/x".to_string(),
            expected: "http://10.0.0.5/onvif/device_service".to_string(),
        }
        .message(),
        "advertised device mgmt uri http://10.0.0.5/x not expected http://10.0.0.5/onvif/device_service"
    );
}

use sidecar::broker;
use sidecar::broker::{Identity, Request, Response};

#[test]
fn broker_canonical() {
    let identity = Identity::new("sidecar", "default");
    assert_eq!(
        identity.args(),
        vec!["--sidecar-broker=p=sidecar;n=default;s=tool%3Asidecar"]
    );
}

#[test]
fn broker_forms() {
    let inline = vec!["--sidecar-broker=p=app;n=default;s=tool%3Asidecar".to_string()];
    assert_eq!(
        broker::flag(&inline).as_deref(),
        Some("p=app;n=default;s=tool%3Asidecar")
    );

    let separated = vec![
        "--sidecar-broker".to_string(),
        "p=app;n=prod;s=tool%3Asidecar".to_string(),
    ];
    assert_eq!(
        broker::flag(&separated).as_deref(),
        Some("p=app;n=prod;s=tool%3Asidecar")
    );
}

#[test]
fn broker_required() {
    assert!(Identity::decode("p=app;n=default").is_err());

    let args = vec!["--sidecar-broker=p=app;n=default;s=tool%3Asidecar".into()];
    let identity = broker::read(&args).unwrap();
    assert_eq!(identity.project, "app");
    assert_eq!(identity.namespace, "default");
    assert_eq!(identity.source, "tool:sidecar");
}

#[test]
fn broker_reserved() {
    let identity = Identity {
        project: "local app".into(),
        namespace: "dev;blue".into(),
        source: "tool:%sidecar".into(),
    };
    let encoded = identity.encode();
    assert_eq!(encoded, "p=local%20app;n=dev%3Bblue;s=tool%3A%25sidecar");
    assert_eq!(Identity::decode(&encoded).unwrap(), identity);
}

#[test]
fn broker_invalid() {
    assert!(Identity::decode("p=app;n=default;s=tool%3Asidecar;x=no").is_err());
    assert!(Identity::decode("p=app;p=app2;n=default;s=tool%3Asidecar").is_err());
}

#[test]
fn broker_hello() {
    let identity = Identity::new("sidecar", "default");
    let request = identity.hello();
    assert_eq!(
        identity.validate(&request).unwrap(),
        Response::HelloOk {
            protocol: 1,
            project: "sidecar".into(),
            namespace: "default".into(),
        }
    );

    let mismatched = Request::Hello {
        protocol: 1,
        project: "sidecar".into(),
        namespace: "other".into(),
    };
    assert!(identity.validate(&mismatched).is_err());
}

#[test]
fn broker_error_messages() {
    assert_eq!(
        Identity::decode("p=app;n=default").unwrap_err(),
        "broker identity missing \"s\""
    );
    assert_eq!(
        Identity::decode("p=app;p=app2;n=default;s=x").unwrap_err(),
        "duplicate broker identity key \"p\""
    );
    assert_eq!(
        Identity::decode("p=app;n=default;s=x;x=no").unwrap_err(),
        "unknown broker identity key \"x\""
    );
    assert_eq!(
        Identity::decode("p").unwrap_err(),
        "broker identity segment must use key=value form"
    );
    let identity = Identity::new("sidecar", "default");
    let old = Request::Hello {
        protocol: 2,
        project: "sidecar".into(),
        namespace: "default".into(),
    };
    assert_eq!(
        identity.validate(&old).unwrap_err(),
        "broker hello did not match expected protocol, project, or namespace"
    );
}

#[test]
fn broker_args_read_back() {
    let identity = Identity::new("my project", "a;b=c");
    assert_eq!(broker::read(&identity.args()), Some(identity));
}

#[test]
fn prober_confirms_its_own_broker() {
    let identity = Identity::new("sidecar", "default");
    let reply = identity.validate(&identity.hello()).unwrap();
    assert!(identity.confirms(&reply));
    let other = Identity::new("sidecar", "other");
    assert!(!other.confirms(&reply));
    assert!(!identity.confirms(&Response::HelloError {
        message: "no".to_string()
    }));
}

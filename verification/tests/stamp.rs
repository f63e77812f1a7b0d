use sidecar::stamp;
use sidecar::stamp::Stamp;

#[test]
fn stamp_canonical() {
    let stamp = Stamp {
        version: 1,
        app: "controller".into(),
        namespace: "default".into(),
        mode: "dev".into(),
        source: "tool:sidecar".into(),
        endpoint: None,
    };
    let args = stamp.args();
    assert_eq!(
        args,
        vec!["--sidecar-stamp=v=1;a=controller;n=default;m=dev;s=tool%3Asidecar"]
    );
}

#[test]
fn stamp_forms() {
    let inline = vec!["--sidecar-stamp=v=1;a=api;n=default;m=dev;s=tool%3Asidecar".to_string()];
    assert_eq!(
        stamp::flag(&inline).as_deref(),
        Some("v=1;a=api;n=default;m=dev;s=tool%3Asidecar")
    );

    let separated = vec![
        "--sidecar-stamp".to_string(),
        "v=1;a=api;n=design;m=dev;s=tool%3Asidecar".to_string(),
    ];
    assert_eq!(
        stamp::flag(&separated).as_deref(),
        Some("v=1;a=api;n=design;m=dev;s=tool%3Asidecar")
    );
}

#[test]
fn stamp_required() {
    let partial = vec!["--sidecar-stamp=v=1;a=api;n=default;m=dev".to_string()];
    assert!(stamp::read(&partial).is_none());

    let full = vec!["--sidecar-stamp=v=1;a=api;n=default;m=dev;s=tool%3Asidecar".into()];
    let stamp = stamp::read(&full).unwrap();
    assert_eq!(stamp.version, 1);
    assert_eq!(stamp.app, "api");
    assert_eq!(stamp.source, "tool:sidecar");
    assert_eq!(stamp.endpoint, None);
}

#[test]
fn stamp_reserved() {
    let stamp = Stamp {
        version: 1,
        app: "api worker".into(),
        namespace: "dev;blue".into(),
        mode: "runtime=1".into(),
        source: "tool:%sidecar".into(),
        endpoint: Some("tcp://127.0.0.1:4100".into()),
    };
    let encoded = stamp::encode(&stamp);
    assert_eq!(
        encoded,
        "v=1;a=api%20worker;n=dev%3Bblue;m=runtime%3D1;s=tool%3A%25sidecar;e=tcp%3A%2F%2F127.0.0.1%3A4100"
    );
    assert_eq!(stamp::decode(&encoded).unwrap(), stamp);
}

#[test]
fn stamp_invalid() {
    assert!(stamp::decode("v=1;a=api;n=default;m=dev;s=tool%3Asidecar;x=no").is_err());
    assert!(stamp::decode("v=1;a=api;a=api2;n=default;m=dev;s=tool%3Asidecar").is_err());
    assert!(stamp::decode("v=2;a=api;n=default;m=dev;s=tool%3Asidecar").is_err());
    assert!(stamp::decode("a=api;n=default;m=dev;s=tool%3Asidecar").is_err());
}

#[test]
fn percent() {
    assert!(stamp::decode("v=1;a=api%XX;n=default;m=dev;s=tool%3Asidecar").is_err());
}

#[test]
fn stamp_error_messages() {
    assert_eq!(
        stamp::decode("v=1;a=api;n=default;m=dev;s=tool%3Asidecar;x=no").unwrap_err(),
        "unknown stamp key \"x\""
    );
    assert_eq!(
        stamp::decode("v=1;a=api;a=api2;n=default;m=dev;s=tool%3Asidecar").unwrap_err(),
        "duplicate stamp key \"a\""
    );
    assert_eq!(
        stamp::decode("v=2;a=api;n=default;m=dev;s=tool%3Asidecar").unwrap_err(),
        "unsupported stamp version 2"
    );
    assert_eq!(
        stamp::decode("v=x;a=api;n=default;m=dev;s=tool%3Asidecar").unwrap_err(),
        "stamp version must be an integer"
    );
    assert_eq!(
        stamp::decode("a=api;n=default;m=dev;s=tool%3Asidecar").unwrap_err(),
        "stamp missing \"v\""
    );
    assert_eq!(
        stamp::decode("v=1;a=api;n=default;m=dev").unwrap_err(),
        "stamp missing \"s\""
    );
    assert_eq!(
        stamp::decode("v=1;a").unwrap_err(),
        "stamp segment must use key=value form"
    );
    assert_eq!(
        stamp::decode("v=1;a=%ff;n=default;m=dev;s=x").unwrap_err(),
        "stamp value is not valid UTF-8"
    );
}

#[test]
fn stamp_roundtrip_with_unicode() {
    let stamp = Stamp {
        version: 1,
        app: "黑风雷 app".into(),
        namespace: "ns=1;x".into(),
        mode: "".into(),
        source: "tool:sidecar".into(),
        endpoint: Some("unix:///tmp/a b.sock".into()),
    };
    let args = stamp.args();
    assert_eq!(stamp::read(&args), Some(stamp.clone()));
    assert_eq!(stamp::find(&args), Some(stamp));
}

#[test]
fn stamp_at_sets_endpoint() {
    let stamp = Stamp {
        version: 1,
        app: "api".into(),
        namespace: "default".into(),
        mode: "dev".into(),
        source: "tool:sidecar".into(),
        endpoint: None,
    };
    let located = stamp.at("tcp://127.0.0.1:1");
    assert_eq!(located.endpoint.as_deref(), Some("tcp://127.0.0.1:1"));
    assert_eq!(located.app, "api");
}

#[test]
fn legacy_stamp_without_version() {
    let args = vec!["--sidecar-stamp=a=api;n=default;m=dev;s=tool%3Asidecar".to_string()];
    assert!(stamp::read(&args).is_none());
    let lenient = stamp::read_stamp(&args).unwrap();
    assert_eq!(lenient.version, 1);
    assert_eq!(lenient.app, "api");
}

#[test]
fn flag_missing_value() {
    let args = vec!["--sidecar-stamp".to_string()];
    assert_eq!(stamp::flag(&args), None);
    let none = vec!["run".to_string(), "--other".to_string()];
    assert_eq!(stamp::flag(&none), None);
}

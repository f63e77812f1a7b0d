use sidecar::tcp;
use sidecar::tcp::Listener;

#[test]
fn linux() {
    let table = "\
  sl  local_address rem_address   st tx_queue rx_queue tr tm->when retrnsmt   uid  timeout inode\n\
   0: 0100007F:1F90 00000000:0000 0A 00000000:00000000 00:00000000 00000000  1000        0 12345 1 0000000000000000 100 0 0 10 0\n\
   1: 0100007F:1F91 00000000:0000 01 00000000:00000000 00:00000000 00000000  1000        0 12346 1 0000000000000000 100 0 0 10 0\n";
    let inodes = vec!["12345".to_string()];
    let parsed = tcp::table(table, &inodes).unwrap();
    assert_eq!(parsed.len(), 1);
    assert_eq!(parsed[0].to_string(), "127.0.0.1:8080");
}

#[test]
fn port() {
    assert_eq!(tcp::port(0x901F), 8080);
}

#[test]
fn port_ignores_high_bits() {
    assert_eq!(tcp::port(0xABCD_901F), 8080);
}

#[test]
fn ipv6_rows_are_read() {
    let table = "header\n   0: 00000000000000000000000001000000:1F90 00000000000000000000000000000000:0000 0A 0 0 0 0 0 7\n";
    let parsed = tcp::table(table, &vec!["7".to_string()]).unwrap();
    assert_eq!(parsed.len(), 1);
    assert_eq!(parsed[0].to_string(), "[::1]:8080");
}

#[test]
fn unknown_inodes_and_states_are_skipped() {
    let table = "header\n 0: 0100007F:1F90 0:0 0A a b c d e 8\n 1: 0100007F:1F90 0:0 01 a b c d e 7\n short line\n";
    let parsed = tcp::table(table, &vec!["7".to_string()]).unwrap();
    assert!(parsed.is_empty());
}

#[test]
fn bad_address_width_is_an_error() {
    let table = "header\n 0: 0100:1F90 0:0 0A a b c d e 7\n";
    let err = tcp::table(table, &vec!["7".to_string()]).unwrap_err();
    assert_eq!(err, "invalid /proc tcp address width \"0100\"");
}

#[test]
fn bad_port_is_an_error() {
    let table = "header\n 0: 0100007F:XYZ 0:0 0A a b c d e 7\n";
    let err = tcp::table(table, &vec!["7".to_string()]).unwrap_err();
    assert_eq!(
        err,
        "invalid /proc tcp port \"XYZ\": invalid digit found in string"
    );
}

#[test]
fn missing_colon_is_an_error() {
    let table = "header\n 0: 0100007F 0:0 0A a b c d e 7\n";
    let err = tcp::table(table, &vec!["7".to_string()]).unwrap_err();
    assert_eq!(err, "invalid /proc tcp local_address \"0100007F\"");
}

#[test]
fn oversized_port_is_an_error() {
    let table = "header\n 0: 0100007F:10000 0:0 0A a b c d e 7\n";
    let err = tcp::table(table, &vec!["7".to_string()]).unwrap_err();
    assert_eq!(
        err,
        "invalid /proc tcp port \"10000\": number too large to fit in target type"
    );
}

#[test]
fn empty_table_has_no_listeners() {
    assert!(tcp::table("", &Vec::new()).unwrap().is_empty());
}

#[test]
fn ipv6_display_forms() {
    let v6 = |octets: [u8; 16], port: u16| Listener {
        octets: octets.to_vec(),
        port,
    };
    assert_eq!(v6([0; 16], 1).to_string(), "[::]:1");
    assert_eq!(
        v6([0, 0, 0, 0, 0, 0, 0, 0, 0, 0, 0xff, 0xff, 10, 0, 0, 1], 80).to_string(),
        "[::ffff:10.0.0.1]:80"
    );
    assert_eq!(
        v6([0x20, 0x01, 0x0d, 0xb8, 0, 0, 0, 0, 0, 1, 0, 0, 0, 0, 0, 1], 443).to_string(),
        "[2001:db8::1:0:0:1]:443"
    );
    assert_eq!(
        v6([0x20, 0x01, 0x0d, 0xb8, 0, 1, 0, 2, 0, 3, 0, 4, 0, 5, 0, 6], 9).to_string(),
        "[2001:db8:1:2:3:4:5:6]:9"
    );
    assert_eq!(
        v6([0xfe, 0x80, 0, 0, 0, 0, 0, 0, 0, 0, 0, 0, 0, 0, 0, 0], 2).to_string(),
        "[fe80::]:2"
    );
    assert_eq!(
        v6([0, 1, 0, 0, 0, 2, 0, 0, 0, 0, 0, 3, 0, 0, 0, 0], 3).to_string(),
        "[1:0:2::3:0:0]:3"
    );
}

#[test]
fn readable_tables() {
    let inodes = vec!["7".to_string()];
    assert!(tcp::readable_table("h\n 0: 0100007F:1F90 0:0 0A a b c d e 7\n", &inodes));
    let wide = format!("h\n 0: {}\u{e9}:1F90 0:0 0A a b c d e 7\n", "0".repeat(30));
    assert!(!tcp::readable_table(&wide, &inodes));
}

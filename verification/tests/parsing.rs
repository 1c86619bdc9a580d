use server_discover::config::{ArgError, Config, ScannerConfig};
use server_discover::ip::Subnet;

#[test]
fn parses_plain_cidr() {
    let s = Subnet::from_str("192.168.1.0/24").unwrap();
    assert_eq!(s.addr, 0xC0A80100);
    assert_eq!(s.mask, 24);
}

#[test]
fn whitespace_is_ignored() {
    let s = Subnet::from_str("  10.0.0.0 / 8\n").unwrap();
    assert_eq!(s.addr, 0x0A000000);
    assert_eq!(s.mask, 8);
}

#[test]
fn mask_accepts_leading_zeros() {
    let s = Subnet::from_str("1.2.3.4/07").unwrap();
    assert_eq!(s.mask, 7);
    assert_eq!(s.addr, 0x01020304);
}

#[test]
fn rejects_bad_lines() {
    for line in [
        "",
        "10.0.0.0",
        "10.0.0/8",
        "10.0.0.0.0/8",
        "10.0.0.0/33",
        "256.0.0.0/8",
        "01.2.3.4/5",
        "a.b.c.d/e",
        "1.2.3.4/5/6",
        "1.2.3.4/",
        "/8",
        "1.2.3.-4/8",
    ] {
        assert!(Subnet::from_str(line).is_err(), "accepted {:?}", line);
    }
}

#[test]
fn round_trips_through_text() {
    let s = Subnet::from_str("192.168.1.0/24").unwrap();
    assert_eq!(s.as_string(), "192.168.1.0/24");
    assert_eq!(Subnet::new(0, 0).as_string(), "0.0.0.0/0");
    assert_eq!(Subnet::new(0xFFFFFFFF, 32).as_string(), "255.255.255.255/32");
}

fn conf(default_port: bool, port: Option<u16>) -> ScannerConfig {
    ScannerConfig { num_threads: 2, rate: 1000, apply_blacklist: false, default_port, port }
}

#[test]
fn default_port_resolves_to_well_known() {
    assert_eq!(conf(true, None).resolve_port().unwrap(), 25565);
    assert_eq!(conf(true, Some(1234)).resolve_port().unwrap(), 25565);
}

#[test]
fn explicit_port_is_kept() {
    assert_eq!(conf(false, Some(1234)).resolve_port().unwrap(), 1234);
}

#[test]
fn missing_port_is_an_error() {
    assert_eq!(conf(false, None).resolve_port().unwrap_err(), ArgError::PortNotSpecified);
    let r = Config::from_parts(conf(false, None), &Vec::new());
    assert_eq!(r.unwrap_err(), ArgError::PortNotSpecified);
}

#[test]
fn bad_range_lines_are_skipped() {
    let lines: Vec<String> = ["10.0.0.0/8", "not a subnet", "192.168.0.0/16", "256.1.1.1/8"]
        .iter()
        .map(|s| s.to_string())
        .collect();
    let config = Config::from_parts(conf(true, None), &lines).unwrap();
    let (sc, ranges) = config.get_configs();
    assert_eq!(sc.port, Some(25565));
    assert_eq!(ranges.len(), 2);
    assert_eq!((ranges[0].addr, ranges[0].mask), (0x0A000000, 8));
    assert_eq!((ranges[1].addr, ranges[1].mask), (0xC0A80000, 16));
}

#[test]
fn config_error_messages() {
    assert_eq!(ArgError::NoConfig.describe(), "No config yaml file.");
    assert_eq!(ArgError::NoIpRanges.describe(), "No ipranges file.");
    assert_eq!(
        ArgError::PortNotSpecified.describe(),
        "A non-default port needs to be specified."
    );
    assert_eq!(
        ArgError::ConfigParseError("boom".to_string()).describe(),
        "Can't parse config yaml: boom"
    );
    assert_eq!(
        ArgError::CantOpenConfig("denied".to_string(), "conf.yaml".to_string()).describe(),
        "Can't open file (conf.yaml): denied"
    );
}

use server_discover::ip::Subnet;
use server_discover::masscan::masscan_args;
use server_discover::text::u64_dec_string;

#[test]
fn argument_list_exact() {
    let subnet = Subnet::from_str("10.20.0.0/16").unwrap();
    let args = masscan_args(&subnet, 25565, 10000, false);
    assert_eq!(
        args,
        vec!["10.20.0.0/16", "-p25565", "-oD", "-", "--rate", "10000", ""]
    );
}

#[test]
fn blacklist_adds_exclusion_argument() {
    let subnet = Subnet::from_str("10.20.0.0/16").unwrap();
    let args = masscan_args(&subnet, 80, 5, true);
    assert_eq!(args[6], "--excludefile exclude.conf");
    assert_eq!(args[1], "-p80");
}

#[test]
fn decimal_rendering() {
    assert_eq!(u64_dec_string(0), "0");
    assert_eq!(u64_dec_string(7), "7");
    assert_eq!(u64_dec_string(10), "10");
    assert_eq!(u64_dec_string(65535), "65535");
    assert_eq!(u64_dec_string(18446744073709551615), "18446744073709551615");
}

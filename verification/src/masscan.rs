//! The command line handed to the external scan tool for one range.  The
//! application spawns the process and reads its output; the argument list
//! itself is built here, byte for byte.

use vstd::prelude::*;
use crate::ip::{subnet_text, Subnet};
use crate::text::{dec_str, u64_dec_string};

verus! {

/// The argument list for one scan: the range in CIDR form, the port flag,
/// primary output to the standard stream, the rate flag with its value,
/// and last the exclusion-file flag when the blacklist applies — an empty
/// argument otherwise, as the original invocation passes.
pub fn masscan_args(subnet: &Subnet, port: u16, rate: u64, apply_blacklist: bool) -> (r: Vec<
    String,
>)
    ensures
        r@.len() == 7,
        r@[0]@ == subnet_text(*subnet),
        r@[1]@ == "-p"@ + dec_str(port as nat),
        r@[2]@ == "-oD"@,
        r@[3]@ == "-"@,
        r@[4]@ == "--rate"@,
        r@[5]@ == dec_str(rate as nat),
        apply_blacklist ==> r@[6]@ == "--excludefile exclude.conf"@,
        !apply_blacklist ==> r@[6]@ == Seq::<char>::empty(),
{
    let mut r: Vec<String> = Vec::new();
    r.push(subnet.as_string());
    r.push("-p".to_owned().concat(u64_dec_string(port as u64).as_str()));
    r.push("-oD".to_owned());
    r.push("-".to_owned());
    r.push("--rate".to_owned());
    r.push(u64_dec_string(rate));
    if apply_blacklist {
        r.push("--excludefile exclude.conf".to_owned());
    } else {
        r.push(String::new());
    }
    r
}

} // verus!

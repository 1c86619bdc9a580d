//! The pure part of configuration handling: port selection with its
//! default, and turning the lines of the ranges file into subnets,
//! skipping lines that do not parse.  Reading files and the YAML document
//! itself is the surrounding application's job; it hands the plain values
//! in.

use vstd::prelude::*;
use crate::ip::{parse_subnet, Subnet};

verus! {

/// The scanner settings of the configuration document.
#[derive(Clone, Debug)]
pub struct ScannerConfig {
    pub num_threads: u32,
    pub rate: u64,
    pub apply_blacklist: bool,
    /// When set, the well-known port 25565 is used.
    pub default_port: bool,
    /// The explicit port; required when `default_port` is not set.
    pub port: Option<u16>,
}

/// Why the configuration could not be put together.
#[derive(Clone, Debug, PartialEq, Eq)]
pub enum ArgError {
    /// No configuration file argument.
    NoConfig,
    /// No ranges file argument.
    NoIpRanges,
    /// Neither an explicit port nor the default-port flag.
    PortNotSpecified,
    /// The configuration document did not parse; carries the message.
    ConfigParseError(String),
    /// A file could not be opened; carries the message and the file name.
    CantOpenConfig(String, String),
}

impl ArgError {
    /// The diagnostic line for this error.
    pub fn describe(&self) -> (r: String)
        ensures
            match self {
                ArgError::NoConfig => r@ == "No config yaml file."@,
                ArgError::NoIpRanges => r@ == "No ipranges file."@,
                ArgError::PortNotSpecified => r@
                    == "A non-default port needs to be specified."@,
                ArgError::ConfigParseError(m) => r@ == "Can't parse config yaml: "@ + m@,
                ArgError::CantOpenConfig(m, f) => r@ == "Can't open file ("@ + f@ + "): "@
                    + m@,
            },
    {
        match self {
            ArgError::NoConfig => "No config yaml file.".to_owned(),
            ArgError::NoIpRanges => "No ipranges file.".to_owned(),
            ArgError::PortNotSpecified => "A non-default port needs to be specified.".to_owned(),
            ArgError::ConfigParseError(m) => "Can't parse config yaml: ".to_owned().concat(
                m.as_str(),
            ),
            ArgError::CantOpenConfig(m, f) => "Can't open file (".to_owned().concat(
                f.as_str(),
            ).concat("): ").concat(m.as_str()),
        }
    }
}

impl ScannerConfig {
    /// The port the run will scan: the well-known 25565 when the default
    /// flag is set, else the explicit port; the absence of both is the
    /// configuration error.
    pub fn resolve_port(&self) -> (r: Result<u16, ArgError>)
        ensures
            match r {
                Ok(p) => (self.default_port ==> p == 25565) && (!self.default_port
                    ==> self.port == Some(p)),
                Err(e) => !self.default_port && self.port is None && e
                    == ArgError::PortNotSpecified,
            },
            r is Ok <==> (self.default_port || self.port is Some),
    {
        if self.default_port {
            Ok(25565)
        } else {
            match self.port {
                Some(p) => Ok(p),
                None => Err(ArgError::PortNotSpecified),
            }
        }
    }
}

/// The views of a list of text lines.
pub open spec fn lines_view(lines: Seq<String>) -> Seq<Seq<char>> {
    Seq::new(lines.len(), |i: int| lines[i]@)
}

/// The subnets of the lines that parse, in line order; lines that fail to
/// parse are skipped silently.
pub open spec fn parsed_ranges(lines: Seq<Seq<char>>) -> Seq<Subnet>
    decreases lines.len(),
{
    if lines.len() == 0 {
        Seq::empty()
    } else {
        parsed_ranges(lines.drop_last()) + (match parse_subnet(lines.last()) {
            Some(sub) => seq![sub],
            None => Seq::<Subnet>::empty(),
        })
    }
}

/// Parses the lines of the ranges file; a line that is not
/// `address/prefix` is skipped.
pub fn parse_range_lines(lines: &Vec<String>) -> (r: Vec<Subnet>)
    ensures
        r@ == parsed_ranges(lines_view(lines@)),
        r@.len() <= lines@.len(),
        crate::ip::all_wf(r@),
{
    let lv = Ghost(lines_view(lines@));
    let mut out: Vec<Subnet> = Vec::new();
    let mut i: usize = 0;
    while i < lines.len()
        invariant
            i <= lines@.len(),
            lv@ == lines_view(lines@),
            out@ == parsed_ranges(lv@.take(i as int)),
            out@.len() <= i,
            crate::ip::all_wf(out@),
        decreases lines@.len() - i,
    {
        proof {
            assert(lv@.take(i + 1).drop_last() =~= lv@.take(i as int));
            assert(lv@.take(i + 1).last() == lines@[i as int]@);
        }
        match Subnet::from_str(lines[i].as_str()) {
            Ok(sub) => {
                out.push(sub);
                proof {
                    assert(out@ =~= parsed_ranges(lv@.take(i + 1)));
                }
            },
            Err(_) => {
                proof {
                    assert(out@ =~= parsed_ranges(lv@.take(i + 1)));
                }
            },
        }
        i = i + 1;
    }
    proof {
        assert(lv@.take(lines@.len() as int) =~= lv@);
    }
    out
}

/// The assembled configuration of one run.
#[derive(Clone, Debug)]
pub struct Config {
    scanner_conf: ScannerConfig,
    ip_ranges: Vec<Subnet>,
}

impl Config {
    /// The scanner settings, with the port already resolved.
    pub closed spec fn spec_conf(self) -> ScannerConfig {
        self.scanner_conf
    }

    /// The parsed scan ranges.
    pub closed spec fn spec_ranges(self) -> Seq<Subnet> {
        self.ip_ranges@
    }

    /// Assembles the configuration from the parsed document and the lines
    /// of the ranges file: the port is resolved (its absence is the one
    /// error here), the range lines are parsed, and lines that do not
    /// parse are skipped.
    pub fn from_parts(scanner_conf: ScannerConfig, range_lines: &Vec<String>) -> (r: Result<
        Config,
        ArgError,
    >)
        ensures
            match r {
                Ok(c) => (scanner_conf.default_port || scanner_conf.port is Some)
                    && c.spec_conf().num_threads == scanner_conf.num_threads
                    && c.spec_conf().rate == scanner_conf.rate
                    && c.spec_conf().apply_blacklist == scanner_conf.apply_blacklist
                    && c.spec_conf().default_port == scanner_conf.default_port && (c.spec_conf().port
                    matches Some(p) && (scanner_conf.default_port ==> p == 25565) && (
                !scanner_conf.default_port ==> scanner_conf.port == Some(p))) && c.spec_ranges()
                    == parsed_ranges(lines_view(range_lines@)) && c.spec_ranges().len()
                    <= range_lines@.len() && crate::ip::all_wf(c.spec_ranges()),
                Err(e) => !scanner_conf.default_port && scanner_conf.port is None && e
                    == ArgError::PortNotSpecified,
            },
    {
        let port = match scanner_conf.resolve_port() {
            Ok(p) => p,
            Err(e) => {
                return Err(e);
            },
        };
        let ip_ranges = parse_range_lines(range_lines);
        Ok(
            Config {
                scanner_conf: ScannerConfig {
                    num_threads: scanner_conf.num_threads,
                    rate: scanner_conf.rate,
                    apply_blacklist: scanner_conf.apply_blacklist,
                    default_port: scanner_conf.default_port,
                    port: Some(port),
                },
                ip_ranges,
            },
        )
    }

    /// Hands out the settings and the ranges.
    pub fn get_configs(self) -> (r: (ScannerConfig, Vec<Subnet>))
        ensures
            r.0 == self.spec_conf(),
            r.1@ == self.spec_ranges(),
    {
        (self.scanner_conf, self.ip_ranges)
    }
}

} // verus!

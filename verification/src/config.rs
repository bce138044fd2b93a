//! Configuration of a build worker: the job servers it connects to and
//! the endpoints derived from them.

use vstd::prelude::*;
use vstd::string::*;

verus! {

/// One job server: its address (in the textual form of an IP address)
/// and the ports of its work queue, its heartbeat and its log intake.
#[derive(Clone, Debug)]
pub struct JobSrvAddr {
    pub host: String,
    pub port: u16,
    pub heartbeat: u16,
    pub log_port: u16,
}

/// The job servers a worker connects to.
pub type JobSrvCfg = Vec<JobSrvAddr>;

/// The configuration of a build worker.
#[derive(Clone, Debug)]
pub struct Config {
    /// Token for authenticating with the public builder-api
    pub auth_token: String,
    /// Filepath where persistent application data is stored
    pub data_path: String,
    /// List of Job Servers to connect to
    pub jobsrv: JobSrvCfg,
}

/// The address a job server has where the configuration names none.
pub open spec fn default_host() -> Seq<char> {
    "127.0.0.1"@
}

impl Default for JobSrvAddr {
    /// The local job server on its usual ports.
    fn default() -> (r: JobSrvAddr)
        ensures
            r.host@ == default_host(),
            r.port == 5566,
            r.heartbeat == 5567,
            r.log_port == 5569,
    {
        JobSrvAddr {
            host: String::from_str("127.0.0.1"),
            port: 5566,
            heartbeat: 5567,
            log_port: 5569,
        }
    }
}

impl Default for Config {
    /// No token, data under `/tmp`, and the default job server alone.
    fn default() -> (r: Config)
        ensures
            r.auth_token@ == Seq::<char>::empty(),
            r.data_path@ == "/tmp"@,
            r.jobsrv.len() == 1,
            r.jobsrv[0].host@ == default_host(),
            r.jobsrv[0].port == 5566,
            r.jobsrv[0].heartbeat == 5567,
            r.jobsrv[0].log_port == 5569,
    {
        let mut jobsrv: Vec<JobSrvAddr> = Vec::new();
        jobsrv.push(JobSrvAddr::default());
        Config { auth_token: String::new(), data_path: String::from_str("/tmp"), jobsrv }
    }
}

/// The character of a decimal digit.
pub open spec fn digit_char(d: nat) -> char {
    if d == 0 {
        '0'
    } else if d == 1 {
        '1'
    } else if d == 2 {
        '2'
    } else if d == 3 {
        '3'
    } else if d == 4 {
        '4'
    } else if d == 5 {
        '5'
    } else if d == 6 {
        '6'
    } else if d == 7 {
        '7'
    } else if d == 8 {
        '8'
    } else {
        '9'
    }
}

/// The decimal digits of a number, most significant first, without
/// leading zeros.
pub open spec fn decimal(n: nat) -> Seq<char>
    decreases n,
{
    if n < 10 {
        seq![digit_char(n)]
    } else {
        decimal(n / 10).push(digit_char(n % 10))
    }
}

/// The value of a decimal digit character.
pub open spec fn digit_value(c: char) -> int {
    c as int - '0' as int
}

/// Whether every character is a decimal digit.
pub open spec fn all_digits(s: Seq<char>) -> bool {
    forall|i: int| 0 <= i < s.len() ==> '0' <= #[trigger] s[i] <= '9'
}

/// The number decimal digits denote, most significant first.
pub open spec fn decimal_value(s: Seq<char>) -> int
    decreases s.len(),
{
    if s.len() == 0 {
        0
    } else {
        decimal_value(s.drop_last()) * 10 + digit_value(s.last())
    }
}

/// Every number is written as a non-empty run of decimal digits that
/// reads back as that number.
pub proof fn lemma_decimal_reads_back(n: nat)
    ensures
        decimal(n).len() > 0,
        all_digits(decimal(n)),
        decimal_value(decimal(n)) == n,
    decreases n,
{
    let d = n % 10;
    assert('0' as int == 48 && '1' as int == 49 && '2' as int == 50 && '3' as int == 51);
    assert('4' as int == 52 && '5' as int == 53 && '6' as int == 54 && '7' as int == 55);
    assert('8' as int == 56 && '9' as int == 57);
    assert(digit_value(digit_char(d)) == d);
    assert('0' <= digit_char(d) <= '9');
    if n < 10 {
        let s = decimal(n);
        assert(s == seq![digit_char(n)]);
        assert(s.drop_last() =~= Seq::<char>::empty());
        assert(s.last() == digit_char(d));
        assert(decimal_value(s) == decimal_value(s.drop_last()) * 10 + digit_value(s.last()));
    } else {
        lemma_decimal_reads_back(n / 10);
        let s = decimal(n);
        assert(s == decimal(n / 10).push(digit_char(d)));
        assert(s.drop_last() =~= decimal(n / 10));
        assert(n == (n / 10) * 10 + d);
        assert(s.last() == digit_char(d));
        assert(decimal_value(s) == decimal_value(s.drop_last()) * 10 + digit_value(s.last()));
        assert forall|i: int| 0 <= i < s.len() implies '0' <= #[trigger] s[i] <= '9' by {
            if i < s.len() - 1 {
                assert(s[i] == decimal(n / 10)[i]);
            }
        }
    }
}

/// The ZeroMQ TCP endpoint of a port on a host.
pub open spec fn tcp_endpoint(host: Seq<char>, port: nat) -> Seq<char> {
    "tcp://"@ + host + ":"@ + decimal(port)
}

fn digit_str(d: u64) -> (r: &'static str)
    requires
        d < 10,
    ensures
        r@ == seq![digit_char(d as nat)],
{
    if d == 0 {
        proof { reveal_strlit("0"); }
        "0"
    } else if d == 1 {
        proof { reveal_strlit("1"); }
        "1"
    } else if d == 2 {
        proof { reveal_strlit("2"); }
        "2"
    } else if d == 3 {
        proof { reveal_strlit("3"); }
        "3"
    } else if d == 4 {
        proof { reveal_strlit("4"); }
        "4"
    } else if d == 5 {
        proof { reveal_strlit("5"); }
        "5"
    } else if d == 6 {
        proof { reveal_strlit("6"); }
        "6"
    } else if d == 7 {
        proof { reveal_strlit("7"); }
        "7"
    } else if d == 8 {
        proof { reveal_strlit("8"); }
        "8"
    } else {
        proof { reveal_strlit("9"); }
        "9"
    }
}

/// Appends the decimal digits of `n`.
fn push_decimal(s: &mut String, n: u64)
    ensures
        final(s)@ == old(s)@ + decimal(n as nat),
    decreases n,
{
    if n >= 10 {
        push_decimal(s, n / 10);
    }
    s.append(digit_str(n % 10));
}

/// What an endpoint says of a host and port: it starts with `tcp://`, the
/// host and `:`, and the rest, which holds no `:`, is a non-empty run of
/// decimal digits that reads as the port.
pub open spec fn endpoint_names(endpoint: Seq<char>, host: Seq<char>, port: nat) -> bool {
    let prefix = "tcp://"@ + host + ":"@;
    let digits = endpoint.skip(prefix.len() as int);
    &&& prefix.len() <= endpoint.len()
    &&& endpoint.take(prefix.len() as int) == prefix
    &&& digits.len() > 0
    &&& all_digits(digits)
    &&& !digits.contains(':')
    &&& decimal_value(digits) == port
}

/// The endpoint of a port on a host names that host and that port.
pub proof fn lemma_endpoint_names_port(host: Seq<char>, port: nat)
    ensures
        endpoint_names(tcp_endpoint(host, port), host, port),
{
    lemma_decimal_reads_back(port);
    let prefix = "tcp://"@ + host + ":"@;
    let e = tcp_endpoint(host, port);
    assert(e == prefix + decimal(port));
    assert(e.take(prefix.len() as int) =~= prefix);
    assert(e.skip(prefix.len() as int) =~= decimal(port));
    let digits = decimal(port);
    if digits.contains(':') {
        let k = choose|k: int| 0 <= k < digits.len() && digits[k] == ':';
        assert('0' <= digits[k] <= '9');
    }
}

/// The ZeroMQ TCP endpoint of `port` on `host`: `tcp://host:port`.
pub fn tcp_addr(host: &String, port: u16) -> (r: String)
    ensures
        r@ == tcp_endpoint(host@, port as nat),
        endpoint_names(r@, host@, port as nat),
{
    proof { lemma_endpoint_names_port(host@, port as nat); }
    let mut s = String::from_str("tcp://");
    s.append(host.as_str());
    s.append(":");
    push_decimal(&mut s, port as u64);
    s
}

/// The heartbeat, queue and log endpoints of a job server, in that order.
pub open spec fn server_endpoints(a: JobSrvAddr) -> (Seq<char>, Seq<char>, Seq<char>) {
    (
        tcp_endpoint(a.host@, a.heartbeat as nat),
        tcp_endpoint(a.host@, a.port as nat),
        tcp_endpoint(a.host@, a.log_port as nat),
    )
}

pub open spec fn endpoints_view(t: (String, String, String)) -> (Seq<char>, Seq<char>, Seq<char>) {
    (t.0@, t.1@, t.2@)
}

impl Config {
    /// The heartbeat, queue and log endpoints of each configured job
    /// server, in the order the servers are listed.
    pub fn jobsrv_addrs(&self) -> (addrs: Vec<(String, String, String)>)
        ensures
            addrs.len() == self.jobsrv.len(),
            forall|i: int|
                0 <= i < addrs.len() ==> endpoints_view(#[trigger] addrs[i]) == server_endpoints(
                    self.jobsrv[i],
                ),
            forall|i: int|
                0 <= i < addrs.len() ==> {
                    &&& endpoint_names(#[trigger] addrs[i].0@, self.jobsrv[i].host@, self.jobsrv[i].heartbeat as nat)
                    &&& endpoint_names(addrs[i].1@, self.jobsrv[i].host@, self.jobsrv[i].port as nat)
                    &&& endpoint_names(addrs[i].2@, self.jobsrv[i].host@, self.jobsrv[i].log_port as nat)
                },
    {
        let mut addrs: Vec<(String, String, String)> = Vec::new();
        let mut i: usize = 0;
        while i < self.jobsrv.len()
            invariant
                i <= self.jobsrv.len(),
                addrs.len() == i,
                forall|k: int|
                    0 <= k < i ==> endpoints_view(#[trigger] addrs[k]) == server_endpoints(
                        self.jobsrv[k],
                    ),
                forall|k: int|
                    0 <= k < i ==> {
                        &&& endpoint_names(#[trigger] addrs[k].0@, self.jobsrv[k].host@, self.jobsrv[k].heartbeat as nat)
                        &&& endpoint_names(addrs[k].1@, self.jobsrv[k].host@, self.jobsrv[k].port as nat)
                        &&& endpoint_names(addrs[k].2@, self.jobsrv[k].host@, self.jobsrv[k].log_port as nat)
                    },
            decreases self.jobsrv.len() - i,
        {
            let job_server = &self.jobsrv[i];
            let hb = tcp_addr(&job_server.host, job_server.heartbeat);
            let queue = tcp_addr(&job_server.host, job_server.port);
            let log = tcp_addr(&job_server.host, job_server.log_port);
            addrs.push((hb, queue, log));
            i = i + 1;
        }
        addrs
    }
}

} // verus!

//! Host records and their health/metrics snapshots.
//!
//! Percentages are held as integers in hundredths of a percent (so `2350`
//! means 23.50%), and load averages in hundredths; timestamps and latencies
//! are plain milliseconds supplied by the caller. Nothing here reads a
//! clock.

use vstd::prelude::*;

verus! {

/// Health classification of a host.
#[derive(Debug, Clone, Copy, PartialEq, Eq, Structural, Default)]
pub enum HealthStatus {
    #[default]
    Unknown,
    Healthy,
    Degraded,
    Unreachable,
}

/// One GPU of a host: name, utilization in hundredths of a percent, and
/// memory in bytes.
#[derive(Debug)]
#[verifier::ext_equal]
pub struct GpuInfo {
    pub name: String,
    pub utilization: u64,
    pub memory_used: u64,
    pub memory_total: u64,
}

impl Clone for GpuInfo {
    fn clone(&self) -> (r: Self)
        ensures
            r == *self,
    {
        GpuInfo {
            name: self.name.clone(),
            utilization: self.utilization,
            memory_used: self.memory_used,
            memory_total: self.memory_total,
        }
    }
}

impl Default for GpuInfo {
    fn default() -> (r: Self)
        ensures
            r.name@ == Seq::<char>::empty(),
            r.utilization == 0 && r.memory_used == 0 && r.memory_total == 0,
    {
        GpuInfo { name: String::new(), utilization: 0, memory_used: 0, memory_total: 0 }
    }
}

/// System metrics fetched from a remote host. Every field defaults to
/// zero/empty when its section is absent or unparsable.
#[derive(Debug)]
#[verifier::ext_equal]
pub struct SystemMetrics {
    pub cpu_cores: u32,
    /// CPU utilization in hundredths of a percent.
    pub cpu_usage: u64,
    pub ram_used: u64,
    pub ram_total: u64,
    pub gpus: Vec<GpuInfo>,
    pub logged_in_users: Vec<String>,
    /// 1/5/15-minute load averages, in hundredths.
    pub load_average: (u64, u64, u64),
    /// Whether the low-latency transport server is available on the host.
    pub has_mosh: bool,
}

impl Default for SystemMetrics {
    fn default() -> (r: Self)
        ensures
            r.cpu_cores == 0 && r.cpu_usage == 0 && r.ram_used == 0 && r.ram_total == 0,
            r.gpus@ == Seq::<GpuInfo>::empty(),
            r.logged_in_users@ == Seq::<String>::empty(),
            r.load_average == (0u64, 0u64, 0u64),
            !r.has_mosh,
    {
        SystemMetrics {
            cpu_cores: 0,
            cpu_usage: 0,
            ram_used: 0,
            ram_total: 0,
            gpus: Vec::new(),
            logged_in_users: Vec::new(),
            load_average: (0, 0, 0),
            has_mosh: false,
        }
    }
}

/// Field-wise equivalence of metrics snapshots, comparing vectors by
/// their contents.
pub open spec fn metrics_eqv(a: SystemMetrics, b: SystemMetrics) -> bool {
    &&& a.cpu_cores == b.cpu_cores
    &&& a.cpu_usage == b.cpu_usage
    &&& a.ram_used == b.ram_used
    &&& a.ram_total == b.ram_total
    &&& a.gpus@ == b.gpus@
    &&& a.logged_in_users@ == b.logged_in_users@
    &&& a.load_average == b.load_average
    &&& a.has_mosh == b.has_mosh
}

impl Clone for SystemMetrics {
    fn clone(&self) -> (r: Self)
        ensures
            metrics_eqv(r, *self),
    {
        let mut gpus: Vec<GpuInfo> = Vec::new();
        let mut i: usize = 0;
        while i < self.gpus.len()
            invariant
                0 <= i <= self.gpus@.len(),
                gpus@ == self.gpus@.take(i as int),
            decreases self.gpus@.len() - i,
        {
            gpus.push(self.gpus[i].clone());
            assert(gpus@ =~= self.gpus@.take(i + 1));
            i = i + 1;
        }
        let mut users: Vec<String> = Vec::new();
        let mut j: usize = 0;
        while j < self.logged_in_users.len()
            invariant
                0 <= j <= self.logged_in_users@.len(),
                users@ == self.logged_in_users@.take(j as int),
            decreases self.logged_in_users@.len() - j,
        {
            users.push(self.logged_in_users[j].clone());
            assert(users@ =~= self.logged_in_users@.take(j + 1));
            j = j + 1;
        }
        proof {
            assert(gpus@ =~= self.gpus@);
            assert(users@ =~= self.logged_in_users@);
        }
        let r = SystemMetrics {
            cpu_cores: self.cpu_cores,
            cpu_usage: self.cpu_usage,
            ram_used: self.ram_used,
            ram_total: self.ram_total,
            gpus,
            logged_in_users: users,
            load_average: (self.load_average.0, self.load_average.1, self.load_average.2),
            has_mosh: self.has_mosh,
        };
        r
    }
}

/// RAM usage as a fraction of the total, in hundredths of a percent
/// (basis points); 0 when the total is unknown, and saturating at
/// `u64::MAX` for degenerate inputs.
pub open spec fn ram_pct_spec(used: u64, total: u64) -> int {
    if total == 0 {
        0
    } else if used * 10000 / (total as int) > u64::MAX {
        u64::MAX as int
    } else {
        used * 10000 / (total as int)
    }
}

impl SystemMetrics {
    /// RAM usage in hundredths of a percent of the total.
    pub fn ram_usage_percent(&self) -> (r: u64)
        ensures
            r as int == ram_pct_spec(self.ram_used, self.ram_total),
    {
        if self.ram_total == 0 {
            0
        } else {
            let q: u128 = (self.ram_used as u128) * 10000 / (self.ram_total as u128);
            proof {
                assert((self.ram_used as u128) * 10000 <= (u64::MAX as u128) * 10000) by (nonlinear_arith)
                    requires
                        self.ram_used <= u64::MAX,
                ;
            }
            if q > u64::MAX as u128 {
                u64::MAX
            } else {
                q as u64
            }
        }
    }
}

/// One host of the fleet: identity plus the latest health observations.
#[derive(Debug)]
#[verifier::ext_equal]
pub struct Server {
    pub host: String,
    pub hostname: String,
    pub user: Option<String>,
    pub port: u16,
    pub identity_file: Option<String>,
    pub group: Option<String>,
    /// Last measured round-trip latency, in milliseconds.
    pub latency: Option<u64>,
    pub status: HealthStatus,
    pub metrics: Option<SystemMetrics>,
    /// When the host was last probed, as a caller-supplied millisecond
    /// timestamp.
    pub last_check: Option<u64>,
}

fn clone_opt_string(o: &Option<String>) -> (r: Option<String>)
    ensures
        r == *o,
{
    match o {
        Some(s) => Some(s.clone()),
        None => None,
    }
}

/// Field-wise equivalence of host records; metrics are compared by
/// contents.
pub open spec fn server_eqv(a: Server, b: Server) -> bool {
    &&& a.host == b.host
    &&& a.hostname == b.hostname
    &&& a.user == b.user
    &&& a.port == b.port
    &&& a.identity_file == b.identity_file
    &&& a.group == b.group
    &&& a.latency == b.latency
    &&& a.status == b.status
    &&& a.last_check == b.last_check
    &&& match (a.metrics, b.metrics) {
        (Some(ma), Some(mb)) => metrics_eqv(ma, mb),
        (None, None) => true,
        _ => false,
    }
}

impl Clone for Server {
    fn clone(&self) -> (r: Self)
        ensures
            server_eqv(r, *self),
    {
        let r = Server {
            host: self.host.clone(),
            hostname: self.hostname.clone(),
            user: clone_opt_string(&self.user),
            port: self.port,
            identity_file: clone_opt_string(&self.identity_file),
            group: clone_opt_string(&self.group),
            latency: self.latency,
            status: self.status,
            metrics: match &self.metrics {
                Some(m) => Some(m.clone()),
                None => None,
            },
            last_check: self.last_check,
        };
        r
    }
}

impl Server {
    /// A freshly loaded host: default port 22, nothing measured yet.
    pub fn new(host: String, hostname: String) -> (r: Self)
        ensures
            r.host == host,
            r.hostname == hostname,
            r.user is None,
            r.port == 22,
            r.identity_file is None,
            r.group is None,
            r.latency is None,
            r.status == HealthStatus::Unknown,
            r.metrics is None,
            r.last_check is None,
    {
        Server {
            host,
            hostname,
            user: None,
            port: 22,
            identity_file: None,
            group: None,
            latency: None,
            status: HealthStatus::Unknown,
            metrics: None,
            last_check: None,
        }
    }

    /// The last measured latency in milliseconds, if any.
    pub fn latency_ms(&self) -> (r: Option<u64>)
        ensures
            r == self.latency,
    {
        self.latency
    }

    /// Whether the metrics are older than 30 seconds at time `now_ms`, or
    /// were never fetched.
    pub fn metrics_stale(&self, now_ms: u64) -> (r: bool)
        ensures
            r == match self.last_check {
                None => true,
                Some(t) => now_ms > t && now_ms - t > 30000,
            },
    {
        match self.last_check {
            None => true,
            Some(t) => now_ms > t && now_ms - t > 30000,
        }
    }
}

/// A group of hosts sharing a derived name prefix; `servers` holds indices
/// into the main host list.
#[derive(Debug)]
#[verifier::ext_equal]
pub struct ServerGroup {
    pub name: String,
    pub servers: Vec<usize>,
}

impl Clone for ServerGroup {
    fn clone(&self) -> (r: Self)
        ensures
            r.name == self.name,
            r.servers@ == self.servers@,
    {
        let mut servers: Vec<usize> = Vec::new();
        let mut i: usize = 0;
        while i < self.servers.len()
            invariant
                0 <= i <= self.servers@.len(),
                servers@ == self.servers@.take(i as int),
            decreases self.servers@.len() - i,
        {
            servers.push(self.servers[i]);
            assert(servers@ =~= self.servers@.take(i + 1));
            i = i + 1;
        }
        proof {
            assert(servers@ =~= self.servers@);
        }
        ServerGroup { name: self.name.clone(), servers }
    }
}

impl ServerGroup {
    /// An empty group with the given name.
    pub fn new(name: String) -> (r: Self)
        ensures
            r.name == name,
            r.servers@ == Seq::<usize>::empty(),
    {
        ServerGroup { name, servers: Vec::new() }
    }
}

/// One synthetic host for demo mode: a plausible latency, status derived
/// from it, and a filled metrics snapshot with one logged-in user.
fn demo_server(
    host: &str,
    hostname: &str,
    user: &str,
    latency_ms: u64,
    cpu_h: u64,
    ram_used: u64,
    ram_total: u64,
    now_ms: u64,
) -> (r: Server)
    requires
        cpu_h <= 10000,
    ensures
        r.host@ == host@,
        r.hostname@ == hostname@,
        r.user is Some && r.user->0@ == user@,
        r.port == 22,
        r.latency == Some(latency_ms),
        r.status == (if latency_ms < 100 {
            HealthStatus::Healthy
        } else {
            HealthStatus::Degraded
        }),
        r.metrics is Some,
        r.metrics->0.cpu_usage == cpu_h,
        r.metrics->0.ram_used == ram_used,
        r.metrics->0.ram_total == ram_total,
        r.last_check == Some(now_ms),
{
    let status = if latency_ms < 100 {
        HealthStatus::Healthy
    } else {
        HealthStatus::Degraded
    };
    let mut users: Vec<String> = Vec::new();
    users.push("user".to_owned());
    let metrics = SystemMetrics {
        cpu_cores: 4,
        cpu_usage: cpu_h,
        ram_used,
        ram_total,
        gpus: Vec::new(),
        logged_in_users: users,
        load_average: (cpu_h / 25, cpu_h / 30, cpu_h / 35),
        has_mosh: false,
    };
    Server {
        host: host.to_owned(),
        hostname: hostname.to_owned(),
        user: Some(user.to_owned()),
        port: 22,
        identity_file: None,
        group: None,
        latency: Some(latency_ms),
        status,
        metrics: Some(metrics),
        last_check: Some(now_ms),
    }
}

/// Twelve synthetic hosts with plausible data for demo mode, all marked
/// checked at `now_ms`: every host has a measured latency, the status the
/// latency dictates, and a metrics snapshot.
pub fn generate_demo_servers(now_ms: u64) -> (r: Vec<Server>)
    ensures
        r@.len() == 12,
        forall|i: int|
            0 <= i < r@.len() ==> {
                let s = #[trigger] r@[i];
                &&& s.latency is Some
                &&& s.metrics is Some
                &&& s.last_check == Some(now_ms)
                &&& s.status == (if s.latency->0 < 100 {
                    HealthStatus::Healthy
                } else {
                    HealthStatus::Degraded
                })
            },
{
    let mut r: Vec<Server> = Vec::new();
    let mut i: usize = 0;
    while i < 12
        invariant
            0 <= i <= 12,
            r@.len() == i,
            forall|j: int|
                0 <= j < r@.len() ==> {
                    let s = #[trigger] r@[j];
                    &&& s.latency is Some
                    &&& s.metrics is Some
                    &&& s.last_check == Some(now_ms)
                    &&& s.status == (if s.latency->0 < 100 {
                        HealthStatus::Healthy
                    } else {
                        HealthStatus::Degraded
                    })
                },
        decreases 12 - i,
    {
        let s = if i == 0 {
            demo_server("prod-web-01", "10.0.1.1", "deploy", 12, 2300, 4200000000, 8000000000, now_ms)
        } else if i == 1 {
            demo_server("prod-web-02", "10.0.1.2", "deploy", 15, 4500, 3800000000, 8000000000, now_ms)
        } else if i == 2 {
            demo_server("prod-web-03", "10.0.1.3", "deploy", 18, 6700, 5100000000, 8000000000, now_ms)
        } else if i == 3 {
            demo_server("prod-db-01", "10.0.2.1", "admin", 8, 1200, 8100000000, 16000000000, now_ms)
        } else if i == 4 {
            demo_server("prod-db-02", "10.0.2.2", "admin", 9, 1500, 7800000000, 16000000000, now_ms)
        } else if i == 5 {
            demo_server(
                "staging-api",
                "staging.example.com",
                "developer",
                45,
                500,
                2100000000,
                4000000000,
                now_ms,
            )
        } else if i == 6 {
            demo_server(
                "staging-web",
                "staging-web.example.com",
                "developer",
                48,
                800,
                1800000000,
                4000000000,
                now_ms,
            )
        } else if i == 7 {
            demo_server("dev-server", "dev.example.com", "dev", 120, 6700, 1200000000, 2000000000, now_ms)
        } else if i == 8 {
            demo_server("ci-runner-01", "ci-01.internal", "ci", 25, 8900, 3500000000, 4000000000, now_ms)
        } else if i == 9 {
            demo_server("ci-runner-02", "ci-02.internal", "ci", 28, 4500, 2800000000, 4000000000, now_ms)
        } else if i == 10 {
            demo_server(
                "monitoring",
                "monitor.example.com",
                "ops",
                35,
                1500,
                1500000000,
                2000000000,
                now_ms,
            )
        } else {
            demo_server("bastion", "bastion.example.com", "admin", 5, 200, 500000000, 1000000000, now_ms)
        };
        r.push(s);
        i = i + 1;
    }
    r
}

} // verus!

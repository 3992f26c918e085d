//! Health probing support: classification of probe outcomes, the tolerant
//! parser for the delimited metrics script output, byte formatting, and the
//! bounded-concurrency scheduler for bulk scans.
//!
//! Running the remote command itself is the caller's job; everything here
//! works on the plain values that come back.

use vstd::prelude::*;
use vstd::string::StringExecFns;

use crate::server::{GpuInfo, HealthStatus, SystemMetrics};
use crate::text::{
    chars_vec, has_prefix, parse_hundredths_spec, parse_hundredths_or_zero, parse_u64_opt,
    parse_u64_spec, split_char, split_char_spec, split_lines, split_ws, split_ws_spec, str_eq,
    string_from_chars, trim, trim_eq, trim_eq_spec, trim_spec, lines_spec, dec_str, u64_to_string,
};

verus! {

/// Maximum number of probes that may hold a connection at once during a
/// bulk scan.
pub const MAX_CONCURRENT_CHECKS: usize = 5;

/// Latency at or under this many milliseconds counts as healthy.
pub const LATENCY_GOOD_MS: u64 = 100;

/// Message produced by one finished probe, to be applied to the host list
/// by the owning loop.
#[derive(Debug)]
pub struct HealthUpdate {
    pub server_idx: usize,
    /// Measured round-trip latency in milliseconds, `None` if unreachable.
    pub latency: Option<u64>,
    pub status: HealthStatus,
    pub metrics: Option<SystemMetrics>,
}

/// How a measured latency is classified: reachable hosts are `Healthy` at
/// or under the threshold and `Degraded` over it; an absent measurement is
/// `Unreachable`.
pub open spec fn classify_spec(latency_ms: Option<u64>) -> HealthStatus {
    match latency_ms {
        Some(ms) => if ms <= LATENCY_GOOD_MS {
            HealthStatus::Healthy
        } else {
            HealthStatus::Degraded
        },
        None => HealthStatus::Unreachable,
    }
}

/// Classifies a probe's measured latency.
pub fn classify_latency(latency_ms: Option<u64>) -> (r: HealthStatus)
    ensures
        r == classify_spec(latency_ms),
{
    match latency_ms {
        Some(ms) => if ms <= LATENCY_GOOD_MS {
            HealthStatus::Healthy
        } else {
            HealthStatus::Degraded
        },
        None => HealthStatus::Unreachable,
    }
}

/// The spec-level contents of a GPU record.
pub struct GpuModel {
    pub name: Seq<char>,
    pub utilization: u64,
    pub memory_used: u64,
    pub memory_total: u64,
}

/// The spec-level contents of a metrics snapshot.
#[verifier::ext_equal]
pub struct MetricsModel {
    pub cpu_cores: u32,
    pub cpu_usage: u64,
    pub ram_used: u64,
    pub ram_total: u64,
    pub gpus: Seq<GpuModel>,
    pub users: Seq<Seq<char>>,
    pub load_average: (u64, u64, u64),
    pub has_mosh: bool,
}

impl View for GpuInfo {
    type V = GpuModel;

    open spec fn view(&self) -> GpuModel {
        GpuModel {
            name: self.name@,
            utilization: self.utilization,
            memory_used: self.memory_used,
            memory_total: self.memory_total,
        }
    }
}

impl View for SystemMetrics {
    type V = MetricsModel;

    open spec fn view(&self) -> MetricsModel {
        MetricsModel {
            cpu_cores: self.cpu_cores,
            cpu_usage: self.cpu_usage,
            ram_used: self.ram_used,
            ram_total: self.ram_total,
            gpus: self.gpus@.map_values(|g: GpuInfo| g@),
            users: self.logged_in_users@.map_values(|u: String| u@),
            load_average: self.load_average,
            has_mosh: self.has_mosh,
        }
    }
}

/// The snapshot every parse starts from: all zeroes and empties.
pub open spec fn default_model() -> MetricsModel {
    MetricsModel {
        cpu_cores: 0,
        cpu_usage: 0,
        ram_used: 0,
        ram_total: 0,
        gpus: Seq::empty(),
        users: Seq::empty(),
        load_average: (0, 0, 0),
        has_mosh: false,
    }
}

/// The section of the metrics script a line belongs to.
#[derive(Debug, Clone, Copy, PartialEq, Eq, Structural)]
pub enum Section {
    /// Before any section header.
    Preamble,
    Cores,
    Cpu,
    Mem,
    Load,
    Users,
    Gpu,
    Mosh,
    /// A header this parser does not know; its lines are ignored.
    Other,
}

/// `t` begins with the given prefix.
pub open spec fn prefix_spec(t: Seq<char>, p: Seq<char>) -> bool {
    t.len() >= p.len() && t.take(p.len() as int) == p
}

/// A trimmed line that switches the current section.
pub open spec fn is_header(t: Seq<char>) -> bool {
    prefix_spec(t, "==="@)
}

/// The section a header line names, by its text with the `'='` frame
/// stripped.
pub open spec fn header_section(t: Seq<char>) -> Section {
    header_section_of(trim_eq_spec(t))
}

/// `o`'s value, or 0.
pub open spec fn or_zero(o: Option<u64>) -> u64 {
    match o {
        Some(v) => v,
        None => 0,
    }
}

/// Mebibytes scaled to bytes; a count too large to scale is treated as
/// unparsable and becomes 0.
pub open spec fn mib_bytes(v: u64) -> u64 {
    if v * 1048576 <= u64::MAX {
        (v * 1048576) as u64
    } else {
        0
    }
}

/// The effect of one non-header line, already trimmed, on the snapshot
/// under the current section. Malformed fields leave the snapshot
/// untouched or default to zero, exactly as a tolerant parser must.
pub open spec fn apply_line(m: MetricsModel, sec: Section, t: Seq<char>) -> MetricsModel {
    match sec {
        Section::Cores => (match parse_u64_spec(t) {
            Some(v) => if v <= u32::MAX {
                MetricsModel { cpu_cores: v as u32, ..m }
            } else {
                m
            },
            None => m,
        }),
        Section::Cpu => (match parse_hundredths_spec(t) {
            Some(v) => MetricsModel { cpu_usage: v, ..m },
            None => m,
        }),
        Section::Mem => {
            let parts = split_ws_spec(t);
            if parts.len() >= 2 {
                MetricsModel {
                    ram_total: or_zero(parse_u64_spec(parts[0])),
                    ram_used: or_zero(parse_u64_spec(parts[1])),
                    ..m
                }
            } else {
                m
            }
        },
        Section::Load => {
            let parts = split_char_spec(t, ',');
            if parts.len() >= 3 {
                MetricsModel {
                    load_average: (
                        or_zero(parse_hundredths_spec(trim_spec(parts[0]))),
                        or_zero(parse_hundredths_spec(trim_spec(parts[1]))),
                        or_zero(parse_hundredths_spec(trim_spec(parts[2]))),
                    ),
                    ..m
                }
            } else {
                m
            }
        },
        Section::Users => if t.len() > 0 {
            MetricsModel { users: m.users.push(t), ..m }
        } else {
            m
        },
        Section::Gpu => if t.len() > 0 && !prefix_spec(t, "rocm"@) {
            let parts = split_char_spec(t, ',');
            if parts.len() >= 4 {
                MetricsModel {
                    gpus: m.gpus.push(
                        GpuModel {
                            name: trim_spec(parts[0]),
                            utilization: or_zero(parse_hundredths_spec(trim_spec(parts[1]))),
                            memory_used: mib_bytes(or_zero(parse_u64_spec(trim_spec(parts[2])))),
                            memory_total: mib_bytes(or_zero(parse_u64_spec(trim_spec(parts[3])))),
                        },
                    ),
                    ..m
                }
            } else {
                m
            }
        } else {
            m
        },
        Section::Mosh => MetricsModel { has_mosh: t == "yes"@, ..m },
        _ => m,
    }
}

/// Folds the lines from index `i` on into the snapshot, tracking the
/// current section.
pub open spec fn parse_fold(
    lines: Seq<Seq<char>>,
    i: int,
    sec: Section,
    m: MetricsModel,
) -> MetricsModel
    decreases lines.len() - i,
{
    if i < 0 || i >= lines.len() {
        m
    } else {
        let t = trim_spec(lines[i]);
        if is_header(t) {
            parse_fold(lines, i + 1, header_section(t), m)
        } else {
            parse_fold(lines, i + 1, sec, apply_line(m, sec, t))
        }
    }
}

/// The snapshot denoted by the full script output.
pub open spec fn parse_metrics_spec(s: Seq<char>) -> MetricsModel {
    parse_fold(lines_spec(s), 0, Section::Preamble, default_model())
}

fn section_of_name(name: &Vec<char>) -> (r: Section)
    ensures
        r == header_section_of(name@),
{
    let n = string_from_chars(name);
    if str_eq(n.as_str(), "CORES") {
        Section::Cores
    } else if str_eq(n.as_str(), "CPU") {
        Section::Cpu
    } else if str_eq(n.as_str(), "MEM") {
        Section::Mem
    } else if str_eq(n.as_str(), "LOAD") {
        Section::Load
    } else if str_eq(n.as_str(), "USERS") {
        Section::Users
    } else if str_eq(n.as_str(), "GPU") {
        Section::Gpu
    } else if str_eq(n.as_str(), "MOSH") {
        Section::Mosh
    } else {
        Section::Other
    }
}

/// `header_section` on a name already stripped of its `'='` frame.
pub open spec fn header_section_of(name: Seq<char>) -> Section {
    if name == "CORES"@ {
        Section::Cores
    } else if name == "CPU"@ {
        Section::Cpu
    } else if name == "MEM"@ {
        Section::Mem
    } else if name == "LOAD"@ {
        Section::Load
    } else if name == "USERS"@ {
        Section::Users
    } else if name == "GPU"@ {
        Section::Gpu
    } else if name == "MOSH"@ {
        Section::Mosh
    } else {
        Section::Other
    }
}

/// Parses the delimited output of the combined metrics script. Parsing
/// never fails: unparsable numeric fields default to zero and absent
/// sections leave their fields at the defaults.
pub fn parse_metrics_output(output: &str) -> (r: SystemMetrics)
    ensures
        r@ == parse_metrics_spec(output@),
{
    let chars = chars_vec(output);
    let lines = split_lines(&chars);
    let ghost lseq = lines@.map_values(|p: Vec<char>| p@);
    let mut m = SystemMetrics::default();
    let mut sec = Section::Preamble;
    proof {
        assert(m@ =~= default_model());
        assert(parse_fold(lseq, 0, Section::Preamble, default_model()) == parse_fold(
            lseq,
            0,
            sec,
            m@,
        ));
    }
    let mut i: usize = 0;
    while i < lines.len()
        invariant
            0 <= i <= lines@.len(),
            lseq == lines@.map_values(|p: Vec<char>| p@),
            parse_metrics_spec_target(lseq) == parse_fold(lseq, i as int, sec, m@),
        decreases lines@.len() - i,
    {
        let t = trim(&lines[i]);
        proof {
            assert(lseq[i as int] == lines@[i as int]@);
            assert(t@ == trim_spec(lseq[i as int]));
        }
        if has_prefix(&t, "===") {
            let name = trim_eq(&t);
            sec = section_of_name(&name);
        } else {
            let ghost mpre = m@;
            apply_line_exec(&mut m, sec, &t);
            proof {
                assert(m@ == apply_line(mpre, sec, t@));
            }
        }
        i = i + 1;
    }
    proof {
        assert(parse_fold(lseq, i as int, sec, m@) == m@);
    }
    m
}

/// The fold all of `parse_metrics_output`'s loop reasoning is pinned to.
pub open spec fn parse_metrics_spec_target(lseq: Seq<Seq<char>>) -> MetricsModel {
    parse_fold(lseq, 0, Section::Preamble, default_model())
}

/// Applies one trimmed non-header line to the snapshot being built.
fn apply_line_exec(m: &mut SystemMetrics, sec: Section, t: &Vec<char>)
    ensures
        final(m)@ == apply_line(old(m)@, sec, t@),
{
    let ghost mpre = m@;
    match sec {
        Section::Cores => {
            match parse_u64_opt(t) {
                Some(v) => {
                    if v <= u32::MAX as u64 {
                        m.cpu_cores = v as u32;
                    }
                },
                None => {},
            }
            assert(m@ =~= apply_line(mpre, sec, t@));
        },
        Section::Cpu => {
            match crate::text::parse_hundredths_opt(t) {
                Some(v) => {
                    m.cpu_usage = v;
                },
                None => {},
            }
            assert(m@ =~= apply_line(mpre, sec, t@));
        },
        Section::Mem => {
            let parts = split_ws(t);
            if parts.len() >= 2 {
                proof {
                    assert(parts@.map_values(|p: Vec<char>| p@)[0] == parts@[0]@);
                    assert(parts@.map_values(|p: Vec<char>| p@)[1] == parts@[1]@);
                }
                m.ram_total = crate::text::parse_u64_or_zero(&parts[0]);
                m.ram_used = crate::text::parse_u64_or_zero(&parts[1]);
            }
            assert(m@ =~= apply_line(mpre, sec, t@));
        },
        Section::Load => {
            let parts = split_char(t, ',');
            if parts.len() >= 3 {
                proof {
                    assert(parts@.map_values(|p: Vec<char>| p@)[0] == parts@[0]@);
                    assert(parts@.map_values(|p: Vec<char>| p@)[1] == parts@[1]@);
                    assert(parts@.map_values(|p: Vec<char>| p@)[2] == parts@[2]@);
                }
                let a = trim(&parts[0]);
                let b = trim(&parts[1]);
                let c = trim(&parts[2]);
                m.load_average = (
                    parse_hundredths_or_zero(&a),
                    parse_hundredths_or_zero(&b),
                    parse_hundredths_or_zero(&c),
                );
            }
            assert(m@ =~= apply_line(mpre, sec, t@));
        },
        Section::Users => {
            if t.len() > 0 {
                let u = string_from_chars(t);
                m.logged_in_users.push(u);
                proof {
                    assert(m.logged_in_users@.map_values(|u: String| u@) =~= mpre.users.push(t@));
                }
            }
            assert(m@ =~= apply_line(mpre, sec, t@));
        },
        Section::Gpu => {
            if t.len() > 0 && !has_prefix(t, "rocm") {
                let parts = split_char(t, ',');
                if parts.len() >= 4 {
                    proof {
                        assert(parts@.map_values(|p: Vec<char>| p@)[0] == parts@[0]@);
                        assert(parts@.map_values(|p: Vec<char>| p@)[1] == parts@[1]@);
                        assert(parts@.map_values(|p: Vec<char>| p@)[2] == parts@[2]@);
                        assert(parts@.map_values(|p: Vec<char>| p@)[3] == parts@[3]@);
                    }
                    let name_v = trim(&parts[0]);
                    let util_v = trim(&parts[1]);
                    let used_v = trim(&parts[2]);
                    let total_v = trim(&parts[3]);
                    let gpu = GpuInfo {
                        name: string_from_chars(&name_v),
                        utilization: parse_hundredths_or_zero(&util_v),
                        memory_used: mib_to_bytes(crate::text::parse_u64_or_zero(&used_v)),
                        memory_total: mib_to_bytes(crate::text::parse_u64_or_zero(&total_v)),
                    };
                    m.gpus.push(gpu);
                    proof {
                        assert(m.gpus@.map_values(|g: GpuInfo| g@) =~= mpre.gpus.push(
                            GpuModel {
                                name: trim_spec(split_char_spec(t@, ',')[0]),
                                utilization: or_zero(
                                    parse_hundredths_spec(trim_spec(split_char_spec(t@, ',')[1])),
                                ),
                                memory_used: mib_bytes(
                                    or_zero(parse_u64_spec(trim_spec(split_char_spec(t@, ',')[2]))),
                                ),
                                memory_total: mib_bytes(
                                    or_zero(parse_u64_spec(trim_spec(split_char_spec(t@, ',')[3]))),
                                ),
                            },
                        ));
                    }
                }
            }
            assert(m@ =~= apply_line(mpre, sec, t@));
        },
        Section::Mosh => {
            let s = string_from_chars(t);
            m.has_mosh = str_eq(s.as_str(), "yes");
            assert(m@ =~= apply_line(mpre, sec, t@));
        },
        _ => {
            assert(m@ =~= apply_line(mpre, sec, t@));
        },
    }
}

/// Scales a mebibyte count to bytes, treating counts too large to scale as
/// unparsable (0).
pub fn mib_to_bytes(v: u64) -> (r: u64)
    ensures
        r == mib_bytes(v),
{
    if v <= u64::MAX / 1048576 {
        proof {
            assert(v * 1048576 <= (u64::MAX / 1048576) * 1048576);
        }
        v * 1048576
    } else {
        proof {
            assert(v * 1048576 >= (u64::MAX / 1048576 + 1) * 1048576);
        }
        0
    }
}

/// The outcome of one probe as a single update message: the status comes
/// from the latency classification, and metrics are parsed from the script
/// output exactly when the host was reachable and an output was obtained.
pub fn evaluate_probe(
    server_idx: usize,
    latency_ms: Option<u64>,
    metrics_output: Option<&str>,
) -> (r: HealthUpdate)
    ensures
        r.server_idx == server_idx,
        r.latency == latency_ms,
        r.status == classify_spec(latency_ms),
        (match (classify_spec(latency_ms), metrics_output) {
            (HealthStatus::Unreachable, _) => r.metrics is None,
            (_, None) => r.metrics is None,
            (_, Some(out)) => r.metrics is Some && r.metrics->0@ == parse_metrics_spec(out@),
        }),
{
    let status = classify_latency(latency_ms);
    let metrics = if !matches!(status, HealthStatus::Unreachable) {
        match metrics_output {
            Some(out) => Some(parse_metrics_output(out)),
            None => None,
        }
    } else {
        None
    };
    HealthUpdate { server_idx, latency: latency_ms, status, metrics }
}

pub const KB: u64 = 1024;

pub const MB: u64 = KB * 1024;

pub const GB: u64 = MB * 1024;

pub const TB: u64 = GB * 1024;

/// `n / d` rounded to the nearest integer, halves rounding up.
pub open spec fn round_div(n: u64, d: u64) -> int {
    (n as int) / (d as int) + (if (n as int) % (d as int) >= (d as int) / 2 {
        1int
    } else {
        0int
    })
}

fn div_rounded(n: u64, d: u64) -> (r: u64)
    requires
        d >= 2,
    ensures
        r == round_div(n, d),
{
    let q = n / d;
    let rem = n % d;
    if rem >= d / 2 {
        proof {
            assert((n as int) / (d as int) <= (n as int) / 2) by (nonlinear_arith)
                requires
                    d >= 2 && n >= 0,
            ;
        }
        q + 1
    } else {
        q
    }
}

/// The human-readable rendering of a byte count, scaled to the largest
/// fitting binary unit and rounded to a whole number (halves up).
pub open spec fn fmt_bytes_spec(b: u64) -> Seq<char> {
    if b >= TB {
        dec_str(round_div(b, TB)) + "TB"@
    } else if b >= GB {
        dec_str(round_div(b, GB)) + "GB"@
    } else if b >= MB {
        dec_str(round_div(b, MB)) + "MB"@
    } else if b >= KB {
        dec_str(round_div(b, KB)) + "KB"@
    } else {
        dec_str(b as int) + "B"@
    }
}

/// Formats a byte count with its binary unit, rounded to a whole number.
pub fn format_bytes(bytes: u64) -> (r: String)
    ensures
        r@ == fmt_bytes_spec(bytes),
{
    if bytes >= TB {
        u64_to_string(div_rounded(bytes, TB)).concat("TB")
    } else if bytes >= GB {
        u64_to_string(div_rounded(bytes, GB)).concat("GB")
    } else if bytes >= MB {
        u64_to_string(div_rounded(bytes, MB)).concat("MB")
    } else if bytes >= KB {
        u64_to_string(div_rounded(bytes, KB)).concat("KB")
    } else {
        u64_to_string(bytes).concat("B")
    }
}

/// The combined metrics script sent to a reachable host: each section is
/// delimited for the parser above; the probe for the low-latency
/// transport server is appended only when the caller asks for it.
pub fn metrics_script(with_mosh_probe: bool) -> (r: String)
    ensures
        r@ == metrics_script_spec(with_mosh_probe),
{
    if with_mosh_probe {
        script_base().to_owned().concat(script_mosh_probe())
    } else {
        script_base().to_owned()
    }
}

/// The script text, for contracts.
pub open spec fn metrics_script_spec(with_mosh_probe: bool) -> Seq<char> {
    if with_mosh_probe {
        script_base_spec() + script_mosh_spec()
    } else {
        script_base_spec()
    }
}

/// The section-emitting body of the script.
pub fn script_base() -> (r: &'static str)
    ensures
        r@ == script_base_spec(),
{
    "\necho \"===CORES===\"\nnproc 2>/dev/null || sysctl -n hw.ncpu 2>/dev/null || echo \"0\"\n\necho \"===CPU===\"\ntop -bn1 | head -5 | grep 'Cpu' | awk '{print $2}' | tr -d '%us,' 2>/dev/null || \\\n    top -l1 | grep 'CPU usage' | awk '{print $3}' | tr -d '%' 2>/dev/null || \\\n    echo \"0\"\n\necho \"===MEM===\"\nfree -b 2>/dev/null | awk '/^Mem:/ {print $2, $3}' || \\\n    vm_stat 2>/dev/null | awk '/Pages (free|active|inactive|wired)/ {sum += $NF} END {print sum * 4096}' || \\\n    echo \"0 0\"\n\necho \"===LOAD===\"\nuptime | awk -F'load average:' '{print $2}' | tr -d ' ' 2>/dev/null || echo \"0,0,0\"\n\necho \"===USERS===\"\nwho | awk '{print $1}' | sort -u 2>/dev/null || echo \"\"\n\necho \"===GPU===\"\nnvidia-smi --query-gpu=name,utilization.gpu,memory.used,memory.total --format=csv,noheader,nounits 2>/dev/null || \\\n    rocm-smi --showuse --showmemuse 2>/dev/null | grep -E 'GPU|Memory' || \\\n    echo \"\"\n"
}

/// The body text, for contracts.
pub open spec fn script_base_spec() -> Seq<char> {
    "\necho \"===CORES===\"\nnproc 2>/dev/null || sysctl -n hw.ncpu 2>/dev/null || echo \"0\"\n\necho \"===CPU===\"\ntop -bn1 | head -5 | grep 'Cpu' | awk '{print $2}' | tr -d '%us,' 2>/dev/null || \\\n    top -l1 | grep 'CPU usage' | awk '{print $3}' | tr -d '%' 2>/dev/null || \\\n    echo \"0\"\n\necho \"===MEM===\"\nfree -b 2>/dev/null | awk '/^Mem:/ {print $2, $3}' || \\\n    vm_stat 2>/dev/null | awk '/Pages (free|active|inactive|wired)/ {sum += $NF} END {print sum * 4096}' || \\\n    echo \"0 0\"\n\necho \"===LOAD===\"\nuptime | awk -F'load average:' '{print $2}' | tr -d ' ' 2>/dev/null || echo \"0,0,0\"\n\necho \"===USERS===\"\nwho | awk '{print $1}' | sort -u 2>/dev/null || echo \"\"\n\necho \"===GPU===\"\nnvidia-smi --query-gpu=name,utilization.gpu,memory.used,memory.total --format=csv,noheader,nounits 2>/dev/null || \\\n    rocm-smi --showuse --showmemuse 2>/dev/null | grep -E 'GPU|Memory' || \\\n    echo \"\"\n"@
}

/// The optional probe for the low-latency transport server.
pub fn script_mosh_probe() -> (r: &'static str)
    ensures
        r@ == script_mosh_spec(),
{
    "\necho \"===MOSH===\"\nwhich mosh-server >/dev/null 2>&1 && echo \"yes\" || echo \"no\"\n"
}

/// The probe text, for contracts.
pub open spec fn script_mosh_spec() -> Seq<char> {
    "\necho \"===MOSH===\"\nwhich mosh-server >/dev/null 2>&1 && echo \"yes\" || echo \"no\"\n"@
}

/// Permit accounting for a bulk health scan: hosts are launched in index
/// order, and at no point do more than `capacity` probes hold a permit.
/// The runtime performing the probes asks `try_launch` for the next host
/// and reports each completion with `on_complete`.
#[derive(Debug, Clone, Copy, PartialEq, Eq, Structural)]
pub struct BulkScan {
    /// Index of the next host to launch.
    pub next_host: usize,
    /// How many hosts the scan covers.
    pub total: usize,
    /// Probes launched and not yet completed.
    pub active: usize,
    /// The permit bound (5 by default).
    pub capacity: usize,
}

impl BulkScan {
    /// The scheduler's invariant: active probes never exceed the capacity.
    pub open spec fn wf(&self) -> bool {
        self.active <= self.capacity && self.next_host <= self.total && self.capacity >= 1
    }

    /// A scan over `total` hosts bounded by `capacity` concurrent probes.
    pub fn new(total: usize, capacity: usize) -> (r: Self)
        requires
            capacity >= 1,
        ensures
            r.wf(),
            r.next_host == 0 && r.total == total && r.active == 0 && r.capacity == capacity,
    {
        BulkScan { next_host: 0, total, active: 0, capacity }
    }

    /// A scan with the default permit bound.
    pub fn new_default(total: usize) -> (r: Self)
        ensures
            r.wf(),
            r.next_host == 0 && r.total == total && r.active == 0 && r.capacity
                == MAX_CONCURRENT_CHECKS,
    {
        BulkScan { next_host: 0, total, active: 0, capacity: MAX_CONCURRENT_CHECKS }
    }

    /// Hands out the next host to probe if a permit is free and hosts
    /// remain; otherwise changes nothing.
    pub fn try_launch(&mut self) -> (r: Option<usize>)
        requires
            old(self).wf(),
        ensures
            final(self).wf(),
            final(self).total == old(self).total && final(self).capacity == old(self).capacity,
            (if old(self).active < old(self).capacity && old(self).next_host < old(self).total {
                r == Some(old(self).next_host) && final(self).next_host == old(self).next_host + 1
                    && final(self).active == old(self).active + 1
            } else {
                r is None && *final(self) == *old(self)
            }),
    {
        if self.active < self.capacity && self.next_host < self.total {
            let idx = self.next_host;
            self.next_host = self.next_host + 1;
            self.active = self.active + 1;
            Some(idx)
        } else {
            None
        }
    }

    /// Releases the permit of a completed probe.
    pub fn on_complete(&mut self)
        requires
            old(self).wf(),
        ensures
            final(self).wf(),
            final(self).total == old(self).total && final(self).capacity == old(self).capacity,
            final(self).next_host == old(self).next_host,
            final(self).active == (if old(self).active > 0 {
                old(self).active - 1
            } else {
                0int
            }),
    {
        if self.active > 0 {
            self.active = self.active - 1;
        }
    }

    /// The scan is finished: every host launched and every probe done.
    pub fn done(&self) -> (r: bool)
        ensures
            r == (self.next_host == self.total && self.active == 0),
    {
        self.next_host == self.total && self.active == 0
    }
}

/// Bulk-scan concurrency bound: in any well-formed scheduler state — and
/// every operation above returns one — the probes holding a permit never
/// outnumber the capacity, which `new_default` fixes at
/// `MAX_CONCURRENT_CHECKS`.
pub proof fn lemma_scan_bounded(s: BulkScan)
    requires
        s.wf(),
    ensures
        s.active <= s.capacity,
{
}

} // verus!

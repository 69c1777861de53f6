//! Prometheus text exposition format (version 0.0.4): the metric families
//! this library exports and how they are laid out.
//!
//! Each family is written as
//!
//! ```text
//! # HELP <name> <description>
//! # TYPE <name> counter|gauge
//! <name> <value>
//!
//! ```
//!
//! The values arrive already formatted as exposition numbers.

use vstd::prelude::*;

verus! {

/// Content-Type header value expected by Prometheus scrapers.
pub const CONTENT_TYPE: &'static str = "text/plain; version=0.0.4; charset=utf-8";

/// Formatted values of the HTTP request families.
pub struct RequestValues {
    pub total_requests: String,
    pub total_errors: String,
    pub error_rate_percent: String,
    pub latency_avg_ms: String,
    pub latency_min_ms: String,
    pub latency_max_ms: String,
    pub latency_p50_ms: String,
    pub latency_p95_ms: String,
    pub latency_p99_ms: String,
}

/// Formatted values of the process families.
pub struct ProcessValues {
    pub cpu_percent: String,
    pub memory_rss_bytes: String,
    pub memory_virtual_bytes: String,
    pub threads: String,
}

/// One metric family: name, type, description and value.
pub struct Family {
    pub name: Seq<char>,
    pub kind: Seq<char>,
    pub help: Seq<char>,
    pub value: Seq<char>,
}

/// The text of one family: its HELP line, its TYPE line, its sample line
/// and a blank line.
pub open spec fn family_text(f: Family) -> Seq<char> {
    "# HELP "@ + f.name + " "@ + f.help + "\n"@ + "# TYPE "@ + f.name + " "@ + f.kind + "\n"@
        + f.name + " "@ + f.value + "\n"@ + "\n"@
}

/// The families in order, each written out.
pub open spec fn exposition(fams: Seq<Family>) -> Seq<char>
    decreases fams.len(),
{
    if fams.len() == 0 {
        Seq::empty()
    } else {
        exposition(fams.drop_last()) + family_text(fams.last())
    }
}

pub open spec fn fam(name: &str, kind: &str, help: &str, value: &String) -> Family {
    Family { name: name@, kind: kind@, help: help@, value: value@ }
}

/// The HTTP request families, in output order.
pub open spec fn request_families(v: RequestValues) -> Seq<Family> {
    seq![
        fam("rpy_requests_total", "counter", "Total HTTP requests recorded", &v.total_requests),
        fam("rpy_errors_total", "counter", "Total HTTP errors (status >= 400)", &v.total_errors),
        fam("rpy_error_rate_percent", "gauge", "HTTP error rate as a percentage", &v.error_rate_percent),
        fam("rpy_latency_avg_ms", "gauge", "Average request latency in milliseconds", &v.latency_avg_ms),
        fam("rpy_latency_min_ms", "gauge", "Minimum request latency in milliseconds", &v.latency_min_ms),
        fam("rpy_latency_max_ms", "gauge", "Maximum request latency in milliseconds", &v.latency_max_ms),
        fam("rpy_latency_p50_ms", "gauge", "P50 request latency in milliseconds", &v.latency_p50_ms),
        fam("rpy_latency_p95_ms", "gauge", "P95 request latency in milliseconds", &v.latency_p95_ms),
        fam("rpy_latency_p99_ms", "gauge", "P99 request latency in milliseconds", &v.latency_p99_ms),
    ]
}

/// The process families, in output order.
pub open spec fn process_families(p: ProcessValues) -> Seq<Family> {
    seq![
        fam("rpy_process_cpu_percent", "gauge", "Process CPU usage percentage", &p.cpu_percent),
        fam("rpy_process_memory_rss_bytes", "gauge", "Process RSS memory in bytes", &p.memory_rss_bytes),
        fam("rpy_process_memory_virtual_bytes", "gauge", "Process virtual memory in bytes", &p.memory_virtual_bytes),
        fam("rpy_process_threads", "gauge", "Number of process threads", &p.threads),
    ]
}

/// Every family that is exported: the request families, then the process
/// families when a process snapshot is at hand.
pub open spec fn all_families(requests: RequestValues, process: Option<&ProcessValues>) -> Seq<Family> {
    match process {
        Some(p) => request_families(requests) + process_families(*p),
        None => request_families(requests),
    }
}

/// Appends one metric family (HELP line, TYPE line, sample line, blank line)
/// to `out`.
pub fn push_metric(out: &mut String, name: &str, kind: &str, help: &str, value: &str)
    ensures
        final(out)@ == old(out)@ + family_text(Family { name: name@, kind: kind@, help: help@, value: value@ }),
{
    out.append("# HELP ");
    out.append(name);
    out.append(" ");
    out.append(help);
    out.append("\n");
    out.append("# TYPE ");
    out.append(name);
    out.append(" ");
    out.append(kind);
    out.append("\n");
    out.append(name);
    out.append(" ");
    out.append(value);
    out.append("\n");
    out.append("\n");
    assert(final(out)@ =~= old(out)@ + family_text(Family { name: name@, kind: kind@, help: help@, value: value@ }));
}

proof fn lemma_exposition_push(fams: Seq<Family>, f: Family)
    ensures
        exposition(fams.push(f)) == exposition(fams) + family_text(f),
{
    assert(fams.push(f).drop_last() =~= fams);
}

/// One family as `render` writes it.
struct Row<'a> {
    name: &'static str,
    kind: &'static str,
    help: &'static str,
    value: &'a str,
}

spec fn row_view<'a>(r: Row<'a>) -> Family {
    Family { name: r.name@, kind: r.kind@, help: r.help@, value: r.value@ }
}

spec fn rows_view<'a>(rows: Seq<Row<'a>>) -> Seq<Family> {
    rows.map_values(|r: Row<'a>| row_view(r))
}

/// The table of families to write, in output order.
fn family_rows<'a>(requests: &'a RequestValues, process: Option<&'a ProcessValues>) -> (rows: Vec<Row<'a>>)
    ensures
        rows_view(rows@) == all_families(*requests, process),
{
    let mut rows: Vec<Row<'a>> = Vec::new();
    rows.push(Row { name: "rpy_requests_total", kind: "counter", help: "Total HTTP requests recorded", value: requests.total_requests.as_str() });
    rows.push(Row { name: "rpy_errors_total", kind: "counter", help: "Total HTTP errors (status >= 400)", value: requests.total_errors.as_str() });
    rows.push(Row { name: "rpy_error_rate_percent", kind: "gauge", help: "HTTP error rate as a percentage", value: requests.error_rate_percent.as_str() });
    rows.push(Row { name: "rpy_latency_avg_ms", kind: "gauge", help: "Average request latency in milliseconds", value: requests.latency_avg_ms.as_str() });
    rows.push(Row { name: "rpy_latency_min_ms", kind: "gauge", help: "Minimum request latency in milliseconds", value: requests.latency_min_ms.as_str() });
    rows.push(Row { name: "rpy_latency_max_ms", kind: "gauge", help: "Maximum request latency in milliseconds", value: requests.latency_max_ms.as_str() });
    rows.push(Row { name: "rpy_latency_p50_ms", kind: "gauge", help: "P50 request latency in milliseconds", value: requests.latency_p50_ms.as_str() });
    rows.push(Row { name: "rpy_latency_p95_ms", kind: "gauge", help: "P95 request latency in milliseconds", value: requests.latency_p95_ms.as_str() });
    rows.push(Row { name: "rpy_latency_p99_ms", kind: "gauge", help: "P99 request latency in milliseconds", value: requests.latency_p99_ms.as_str() });
    match process {
        Some(p) => {
            rows.push(Row { name: "rpy_process_cpu_percent", kind: "gauge", help: "Process CPU usage percentage", value: p.cpu_percent.as_str() });
            rows.push(Row { name: "rpy_process_memory_rss_bytes", kind: "gauge", help: "Process RSS memory in bytes", value: p.memory_rss_bytes.as_str() });
            rows.push(Row { name: "rpy_process_memory_virtual_bytes", kind: "gauge", help: "Process virtual memory in bytes", value: p.memory_virtual_bytes.as_str() });
            rows.push(Row { name: "rpy_process_threads", kind: "gauge", help: "Number of process threads", value: p.threads.as_str() });
        },
        None => {},
    }
    assert(rows_view(rows@) =~= all_families(*requests, process));
    rows
}

/// Renders every family as Prometheus text: the request families, then,
/// when `process` is given, the process families.
pub fn render(requests: &RequestValues, process: Option<&ProcessValues>) -> (text: String)
    ensures
        text@ == exposition(all_families(*requests, process)),
{
    let rows = family_rows(requests, process);
    let ghost fams = rows_view(rows@);
    let mut out = String::new();
    let n: usize = rows.len();
    let mut i: usize = 0;
    while i < n
        invariant
            n == rows@.len(),
            fams == rows_view(rows@),
            i <= n,
            out@ == exposition(fams.take(i as int)),
        decreases n - i,
    {
        let row = &rows[i];
        push_metric(&mut out, row.name, row.kind, row.help, row.value);
        proof {
            lemma_exposition_push(fams.take(i as int), fams[i as int]);
            assert(fams.take(i as int).push(fams[i as int]) =~= fams.take(i + 1));
        }
        i += 1;
    }
    assert(fams.take(n as int) =~= fams);
    out
}

/// Thirteen families are exported with process metrics, nine without.
pub proof fn lemma_family_count(requests: RequestValues, process: Option<&ProcessValues>)
    ensures
        all_families(requests, process).len() == (if process is Some { 13int } else { 9int }),
{
}

/// Each exported family carries the value of its own field, under its own
/// name and type: the request families first, in this order, then the
/// process families when a snapshot is given.
pub proof fn lemma_each_family_carries_its_own_value(v: RequestValues, p: Option<&ProcessValues>)
    ensures
        ({
            let f = all_families(v, p);
            &&& f[0].name == "rpy_requests_total"@ && f[0].kind == "counter"@ && f[0].value == v.total_requests@
            &&& f[1].name == "rpy_errors_total"@ && f[1].kind == "counter"@ && f[1].value == v.total_errors@
            &&& f[2].name == "rpy_error_rate_percent"@ && f[2].kind == "gauge"@ && f[2].value == v.error_rate_percent@
            &&& f[3].name == "rpy_latency_avg_ms"@ && f[3].kind == "gauge"@ && f[3].value == v.latency_avg_ms@
            &&& f[4].name == "rpy_latency_min_ms"@ && f[4].kind == "gauge"@ && f[4].value == v.latency_min_ms@
            &&& f[5].name == "rpy_latency_max_ms"@ && f[5].kind == "gauge"@ && f[5].value == v.latency_max_ms@
            &&& f[6].name == "rpy_latency_p50_ms"@ && f[6].kind == "gauge"@ && f[6].value == v.latency_p50_ms@
            &&& f[7].name == "rpy_latency_p95_ms"@ && f[7].kind == "gauge"@ && f[7].value == v.latency_p95_ms@
            &&& f[8].name == "rpy_latency_p99_ms"@ && f[8].kind == "gauge"@ && f[8].value == v.latency_p99_ms@
        }),
        p matches Some(q) ==> ({
            let f = all_families(v, p);
            &&& f[9].name == "rpy_process_cpu_percent"@ && f[9].kind == "gauge"@ && f[9].value == q.cpu_percent@
            &&& f[10].name == "rpy_process_memory_rss_bytes"@ && f[10].kind == "gauge"@
                && f[10].value == q.memory_rss_bytes@
            &&& f[11].name == "rpy_process_memory_virtual_bytes"@ && f[11].kind == "gauge"@
                && f[11].value == q.memory_virtual_bytes@
            &&& f[12].name == "rpy_process_threads"@ && f[12].kind == "gauge"@ && f[12].value == q.threads@
        }),
{
}

} // verus!

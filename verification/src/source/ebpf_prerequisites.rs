//! Passive eBPF prerequisites, shared by the live collectors and the doctor
//! so that diagnostic names cannot drift from what the programs attach to.
use vstd::prelude::*;

verus! {

/// The only architecture the collectors are built for.
pub const SUPPORTED_ARCHITECTURE: &'static str = "x86_64";

/// File name of the scheduler collector, beside the launcher.
pub const SCHEDULER_COLLECTOR: &'static str = "synesthesia-scheduler-collector";

/// File name of the TCP collector, beside the launcher.
pub const TCP_COLLECTOR: &'static str = "synesthesia-tcp-collector";

/// One tracepoint that a collector program attaches to.
#[derive(Clone, Copy, Debug, PartialEq, Eq)]
pub struct TracepointSpec {
    pub program: &'static str,
    pub group: &'static str,
    pub name: &'static str,
}

/// The names of the scheduler tracepoints, in attachment order.
pub open spec fn scheduler_tracepoint_names() -> Seq<Seq<char>> {
    seq!["sched_switch"@, "sched_wakeup"@, "sched_wakeup_new"@, "sched_migrate_task"@]
}

/// The names of the TCP tracepoints, in attachment order.
pub open spec fn tcp_tracepoint_names() -> Seq<Seq<char>> {
    seq!["tcp_retransmit_skb"@, "tcp_send_reset"@, "tcp_receive_reset"@]
}

/// The scheduler tracepoints: switch, wakeup, new-task wakeup, migration.
pub fn scheduler_tracepoints() -> (v: Vec<TracepointSpec>)
    ensures
        v.len() == 4,
        forall|i: int| 0 <= i < 4 ==> (#[trigger] v@[i]).name@ == scheduler_tracepoint_names()[i],
        forall|i: int| 0 <= i < 4 ==> (#[trigger] v@[i]).group@ == "sched"@,
{
    let mut v = Vec::new();
    v.push(TracepointSpec { program: "synesthesia_sched_switch", group: "sched", name: "sched_switch" });
    v.push(TracepointSpec { program: "synesthesia_sched_wakeup", group: "sched", name: "sched_wakeup" });
    v.push(
        TracepointSpec {
            program: "synesthesia_sched_wakeup_new",
            group: "sched",
            name: "sched_wakeup_new",
        },
    );
    v.push(
        TracepointSpec {
            program: "synesthesia_sched_migrate",
            group: "sched",
            name: "sched_migrate_task",
        },
    );
    v
}

/// The TCP tracepoints: retransmit, reset sent, reset received.
pub fn tcp_tracepoints() -> (v: Vec<TracepointSpec>)
    ensures
        v.len() == 3,
        forall|i: int| 0 <= i < 3 ==> (#[trigger] v@[i]).name@ == tcp_tracepoint_names()[i],
        forall|i: int| 0 <= i < 3 ==> (#[trigger] v@[i]).group@ == "tcp"@,
{
    let mut v = Vec::new();
    v.push(
        TracepointSpec {
            program: "synesthesia_tcp_retransmit",
            group: "tcp",
            name: "tcp_retransmit_skb",
        },
    );
    v.push(
        TracepointSpec { program: "synesthesia_tcp_reset_sent", group: "tcp", name: "tcp_send_reset" },
    );
    v.push(
        TracepointSpec {
            program: "synesthesia_tcp_reset_received",
            group: "tcp",
            name: "tcp_receive_reset",
        },
    );
    v
}

/// The kernel types whose layouts the scheduler programs rely on.
pub open spec fn scheduler_btf_type_names() -> Seq<Seq<char>> {
    seq![
        "trace_event_raw_sched_switch"@,
        "trace_event_raw_sched_wakeup_template"@,
        "trace_event_raw_sched_migrate_task"@,
    ]
}

/// The kernel types whose layouts the TCP programs rely on.
pub open spec fn tcp_btf_type_names() -> Seq<Seq<char>> {
    seq!["trace_event_raw_tcp_event_sk_skb"@, "trace_event_raw_tcp_event_sk"@]
}

/// The kernel types whose layouts the scheduler programs rely on.
pub fn scheduler_btf_types() -> (v: Vec<String>)
    ensures
        v@.map_values(|s: String| s@) == scheduler_btf_type_names(),
{
    let mut v = Vec::new();
    v.push(String::from_str("trace_event_raw_sched_switch"));
    v.push(String::from_str("trace_event_raw_sched_wakeup_template"));
    v.push(String::from_str("trace_event_raw_sched_migrate_task"));
    assert(v@.map_values(|s: String| s@) =~= scheduler_btf_type_names());
    v
}

/// The kernel types whose layouts the TCP programs rely on.
pub fn tcp_btf_types() -> (v: Vec<String>)
    ensures
        v@.map_values(|s: String| s@) == tcp_btf_type_names(),
{
    let mut v = Vec::new();
    v.push(String::from_str("trace_event_raw_tcp_event_sk_skb"));
    v.push(String::from_str("trace_event_raw_tcp_event_sk"));
    assert(v@.map_values(|s: String| s@) =~= tcp_btf_type_names());
    v
}

} // verus!

//! Turning what the engine reports of one container into a [`Container`]
//! record: the share of processor time, the name, the grouping labels.

use vstd::prelude::*;
use crate::container::{status_of, Container, ContainerStatus};
use crate::text::{str_eq, text_of};

verus! {

/// One sample of a container's resource counters.
#[derive(Clone, Copy, Debug)]
pub struct StatsSample {
    /// Processor time the container has used, in ticks.
    pub cpu_total: u64,
    /// The same counter at the sample before.
    pub precpu_total: u64,
    /// Processor time the whole machine has used, in ticks.
    pub system_cpu: Option<u64>,
    /// The same counter at the sample before.
    pub presystem_cpu: Option<u64>,
    /// The number of processors that are online.
    pub online_cpus: Option<u64>,
    /// Memory in use, in bytes.
    pub memory_usage: Option<u64>,
    /// Memory the container may use, in bytes.
    pub memory_limit: Option<u64>,
}

/// One label of a container.
#[derive(Debug)]
pub struct Label {
    pub key: String,
    pub value: String,
}

/// One entry of the engine's container listing.
#[derive(Debug)]
pub struct ContainerSummary {
    pub id: Option<String>,
    pub names: Option<Vec<String>>,
    pub image: Option<String>,
    pub state: Option<String>,
    pub labels: Option<Vec<Label>>,
}

/// Why a container could not be refreshed.
#[derive(Clone, Copy, Debug, PartialEq, Eq, Structural)]
pub enum RefreshError {
    /// The listing gave no id.
    MissingId,
    /// The sample lacks a machine-wide processor counter.
    MissingCpuStats,
    /// The sample lacks the memory use or the memory limit.
    MissingMemoryStats,
    /// The listing gave no name.
    MissingName,
    /// The listing gave no image.
    MissingImage,
}

/// The share of processor time in hundredths of a percent of one processor:
/// the container's ticks over the machine's ticks, times the number of
/// processors. Where the machine's counter did not advance the share is 0.
pub open spec fn cpu_share(container_ticks: int, system_ticks: int, cpus: int) -> int {
    if system_ticks <= 0 {
        0
    } else {
        (container_ticks * cpus * 10000) / system_ticks
    }
}

/// The ticks between two readings of a counter; a counter that went back
/// counts as no ticks.
pub open spec fn ticks_between(now: int, before: int) -> int {
    if now >= before {
        now - before
    } else {
        0
    }
}

/// `x`, or the largest `u64` where `x` is beyond it.
pub open spec fn capped(x: int) -> int {
    if x > u64::MAX {
        u64::MAX as int
    } else {
        x
    }
}

/// The processor share that a sample shows, given the machine-wide counters
/// and the number of processors.
pub open spec fn cpu_usage_of(
    cpu_total: u64,
    precpu_total: u64,
    system_cpu: u64,
    presystem_cpu: u64,
    cpus: u64,
) -> int {
    capped(
        cpu_share(
            ticks_between(cpu_total as int, precpu_total as int),
            system_cpu - presystem_cpu,
            cpus as int,
        ),
    )
}

proof fn lemma_product_fits(a: u64, b: u64)
    ensures
        a * b <= 0xffff_ffff_ffff_fffe_0000_0000_0000_0001,
{
    assert(a * b <= 0xffff_ffff_ffff_ffff * 0xffff_ffff_ffff_ffff) by (nonlinear_arith)
        requires
            0 <= a <= 0xffff_ffff_ffff_ffff,
            0 <= b <= 0xffff_ffff_ffff_ffff,
    ;
}

proof fn lemma_large_quotient(x: int, d: int)
    requires
        x >= 0x1_0000_0000_0000_0000_0000_0000_0000_0000,
        0 < d <= 0xffff_ffff_ffff_ffff,
    ensures
        x / d > 0xffff_ffff_ffff_ffff,
{
    assert(x / d > 0xffff_ffff_ffff_ffff) by (nonlinear_arith)
        requires
            x >= 0x1_0000_0000_0000_0000_0000_0000_0000_0000,
            0 < d <= 0xffff_ffff_ffff_ffff,
    ;
}

/// The share of processor time of a container, in hundredths of a percent of
/// one processor, from two readings of its counter and of the machine's.
/// The result is 0 where the machine's counter did not advance, and stops at
/// the largest `u64`.
pub fn cpu_usage(
    cpu_total: u64,
    precpu_total: u64,
    system_cpu: u64,
    presystem_cpu: u64,
    cpus: u64,
) -> (r: u64)
    ensures
        r == cpu_usage_of(cpu_total, precpu_total, system_cpu, presystem_cpu, cpus),
        system_cpu <= presystem_cpu ==> r == 0,
{
    if system_cpu <= presystem_cpu {
        return 0;
    }
    let system_ticks: u64 = system_cpu - presystem_cpu;
    let ticks: u64 = if cpu_total >= precpu_total {
        cpu_total - precpu_total
    } else {
        0
    };
    proof {
        lemma_product_fits(ticks, cpus);
    }
    let weighted: u128 = (ticks as u128) * (cpus as u128);
    match weighted.checked_mul(10000) {
        Some(scaled) => {
            let share: u128 = scaled / (system_ticks as u128);
            if share > u64::MAX as u128 {
                u64::MAX
            } else {
                share as u64
            }
        },
        None => {
            proof {
                lemma_large_quotient(ticks * cpus * 10000, system_ticks as int);
            }
            u64::MAX
        },
    }
}

/// The name under which a container shows: its alias without the path
/// separator in front.
pub open spec fn display_name(alias: Seq<char>) -> Seq<char> {
    if alias.len() > 0 && alias[0] == '/' {
        alias.subrange(1, alias.len() as int)
    } else {
        alias
    }
}

/// The name under which a container shows: its alias without the path
/// separator in front.
pub fn container_name(alias: &str) -> (r: String)
    ensures
        r@ == display_name(alias@),
{
    let n = alias.unicode_len();
    if n > 0 && alias.get_char(0) == '/' {
        String::from_str(alias.substring_char(1, n))
    } else {
        String::from_str(alias)
    }
}

/// The value of the first label of the list that has the given key.
pub open spec fn label_of(labels: Seq<Label>, key: Seq<char>) -> Option<Seq<char>>
    decreases labels.len(),
{
    if labels.len() == 0 {
        None
    } else if labels[0].key@ == key {
        Some(labels[0].value@)
    } else {
        label_of(labels.drop_first(), key)
    }
}

/// The value of the first label of the list that has the given key.
pub fn label_value(labels: &Vec<Label>, key: &str) -> (r: Option<String>)
    ensures
        text_of(r) == label_of(labels@, key@),
{
    let mut i: usize = 0;
    assert(labels@.subrange(0, labels@.len() as int) =~= labels@);
    while i < labels.len()
        invariant
            i <= labels@.len(),
            label_of(labels@, key@) == label_of(labels@.subrange(i as int, labels@.len() as int), key@),
        decreases labels@.len() - i,
    {
        let ghost rest = labels@.subrange(i as int, labels@.len() as int);
        assert(rest[0] == labels@[i as int]);
        assert(rest.drop_first() =~= labels@.subrange(i + 1, labels@.len() as int));
        if str_eq(labels[i].key.as_str(), key) {
            return Some(labels[i].value.clone());
        }
        i += 1;
    }
    None
}

/// The labels that a listing entry carries; an entry without labels carries
/// none.
pub open spec fn labels_of(summary: ContainerSummary) -> Seq<Label> {
    match summary.labels {
        Some(l) => l@,
        None => Seq::empty(),
    }
}

/// The reason, if any, for which a listing entry and a sample do not make a
/// record. The checks are made in this order.
pub open spec fn refresh_error(summary: ContainerSummary, stats: StatsSample) -> Option<
    RefreshError,
> {
    if summary.id is None {
        Some(RefreshError::MissingId)
    } else if stats.system_cpu is None || stats.presystem_cpu is None {
        Some(RefreshError::MissingCpuStats)
    } else if stats.memory_usage is None || stats.memory_limit is None {
        Some(RefreshError::MissingMemoryStats)
    } else if summary.names is None || summary.names->0@.len() == 0 {
        Some(RefreshError::MissingName)
    } else if summary.image is None {
        Some(RefreshError::MissingImage)
    } else {
        None
    }
}

/// `c` is the record that a complete listing entry and sample make.
pub open spec fn describes(c: Container, summary: ContainerSummary, stats: StatsSample) -> bool {
    &&& c.id@ == summary.id->0@
    &&& c.name@ == display_name(summary.names->0@[0]@)
    &&& c.image@ == summary.image->0@
    &&& c.status == (match summary.state {
        Some(word) => status_of(word@),
        None => ContainerStatus::Running,
    })
    &&& c.cpu_usage == cpu_usage_of(
        stats.cpu_total,
        stats.precpu_total,
        stats.system_cpu->0,
        stats.presystem_cpu->0,
        match stats.online_cpus {
            Some(n) => n,
            None => 1,
        },
    )
    &&& c.memory_usage_bytes == stats.memory_usage->0
    &&& c.memory_limit_bytes == stats.memory_limit->0
    &&& text_of(c.swarm_service) == label_of(labels_of(summary), "com.docker.swarm.service.name"@)
    &&& text_of(c.swarm_stack) == label_of(labels_of(summary), "com.docker.stack.namespace"@)
    &&& text_of(c.compose_service) == label_of(labels_of(summary), "com.docker.compose.service"@)
    &&& text_of(c.compose_project) == label_of(labels_of(summary), "com.docker.compose.project"@)
}

/// Makes the record of a container from its listing entry and one sample of
/// its counters. An entry or a sample that lacks a needed field gives the
/// reason instead, and no record.
pub fn build_container(summary: ContainerSummary, stats: &StatsSample) -> (r: Result<
    Container,
    RefreshError,
>)
    ensures
        match r {
            Ok(c) => refresh_error(summary, *stats) is None && describes(c, summary, *stats),
            Err(e) => refresh_error(summary, *stats) == Some(e),
        },
{
    let ghost given = summary;
    let ContainerSummary { id, names, image, state, labels } = summary;
    let id = match id {
        Some(id) => id,
        None => { return Err(RefreshError::MissingId); },
    };
    let (system_cpu, presystem_cpu) = match (stats.system_cpu, stats.presystem_cpu) {
        (Some(now), Some(before)) => (now, before),
        _ => { return Err(RefreshError::MissingCpuStats); },
    };
    let (memory_usage, memory_limit) = match (stats.memory_usage, stats.memory_limit) {
        (Some(usage), Some(limit)) => (usage, limit),
        _ => { return Err(RefreshError::MissingMemoryStats); },
    };
    let names = match names {
        Some(names) => names,
        None => { return Err(RefreshError::MissingName); },
    };
    if names.len() == 0 {
        return Err(RefreshError::MissingName);
    }
    let image = match image {
        Some(image) => image,
        None => { return Err(RefreshError::MissingImage); },
    };
    let status = match state {
        Some(word) => ContainerStatus::parse(word.as_str()),
        None => ContainerStatus::Running,
    };
    let cpus = match stats.online_cpus {
        Some(n) => n,
        None => 1,
    };
    let labels = match labels {
        Some(labels) => labels,
        None => Vec::new(),
    };
    assert(labels@ == labels_of(given));
    Ok(
        Container {
            id,
            status,
            name: container_name(names[0].as_str()),
            image,
            cpu_usage: cpu_usage(stats.cpu_total, stats.precpu_total, system_cpu, presystem_cpu, cpus),
            memory_usage_bytes: memory_usage,
            memory_limit_bytes: memory_limit,
            swarm_service: label_value(&labels, "com.docker.swarm.service.name"),
            swarm_stack: label_value(&labels, "com.docker.stack.namespace"),
            compose_service: label_value(&labels, "com.docker.compose.service"),
            compose_project: label_value(&labels, "com.docker.compose.project"),
        },
    )
}

} // verus!

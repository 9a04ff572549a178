//! Endpoint devices: listing, name matching, and volume targets.
//!
//! Devices carry no durable identity; every device-level operation
//! re-enumerates the endpoints of the requested direction and matches them
//! by friendly name, loosely and bidirectionally, first match in
//! enumeration order winning. An unmatched read yields zero volume and an
//! unmatched write is dropped; neither is an error.

use vstd::prelude::*;
use crate::session::EndpointProbe;
use crate::session::SessionProbe;
use crate::text::names_match;
use crate::text::spec_names_match;
use crate::volume::VolumePercent;
use crate::volume::VolumeScalar;
use crate::volume::percent_of_scalar;
use crate::volume::spec_percent_of_scalar;

verus! {

/// The flow direction of an audio endpoint.
#[derive(Clone, Copy, PartialEq, Eq, Structural, Debug)]
pub enum DeviceKind {
    Output,
    Input,
}

/// One audio endpoint as the mixer reports it.
pub struct AudioDevice {
    pub name: String,
    pub device_type: DeviceKind,
}

/// Build the reported device list: every render endpoint that yielded a
/// name, in enumeration order, then every capture endpoint.
pub fn list_devices(outputs: Vec<String>, inputs: Vec<String>) -> (devs: Vec<AudioDevice>)
    ensures
        devs@.len() == outputs@.len() + inputs@.len(),
        forall|i: int|
            0 <= i < outputs@.len() ==> (#[trigger] devs@[i]).name@ == outputs@[i]@
                && devs@[i].device_type == DeviceKind::Output,
        forall|i: int|
            0 <= i < inputs@.len() ==> (#[trigger] devs@[outputs@.len() + i]).name@
                == inputs@[i]@ && devs@[outputs@.len() + i].device_type == DeviceKind::Input,
{
    let ghost out_names: Seq<String> = outputs@;
    let ghost in_names: Seq<String> = inputs@;
    let mut outputs = outputs;
    let mut inputs = inputs;
    let mut devs: Vec<AudioDevice> = Vec::new();
    let ghost mut done: int = 0;
    while outputs.len() > 0
        invariant
            0 <= done <= out_names.len(),
            outputs@ =~= out_names.skip(done),
            devs@.len() == done,
            forall|i: int|
                0 <= i < done ==> (#[trigger] devs@[i]).name@ == out_names[i]@
                    && devs@[i].device_type == DeviceKind::Output,
        decreases outputs@.len(),
    {
        let n = outputs.remove(0);
        proof {
            assert(n == out_names[done]);
            assert(outputs@ =~= out_names.skip(done + 1));
        }
        devs.push(AudioDevice { name: n, device_type: DeviceKind::Output });
        proof {
            done = done + 1;
        }
    }
    let ghost mut jdone: int = 0;
    while inputs.len() > 0
        invariant
            0 <= jdone <= in_names.len(),
            inputs@ =~= in_names.skip(jdone),
            devs@.len() == out_names.len() + jdone,
            forall|i: int|
                0 <= i < out_names.len() ==> (#[trigger] devs@[i]).name@ == out_names[i]@
                    && devs@[i].device_type == DeviceKind::Output,
            forall|i: int|
                0 <= i < jdone ==> (#[trigger] devs@[out_names.len() + i]).name@ == in_names[i]@
                    && devs@[out_names.len() + i].device_type == DeviceKind::Input,
        decreases inputs@.len(),
    {
        let n = inputs.remove(0);
        proof {
            assert(n == in_names[jdone]);
            assert(inputs@ =~= in_names.skip(jdone + 1));
        }
        devs.push(AudioDevice { name: n, device_type: DeviceKind::Input });
        proof {
            jdone = jdone + 1;
        }
    }
    devs
}

/// What the walk of one endpoint of the requested direction observed.
pub struct DeviceProbe {
    /// The friendly name, where the property read succeeded.
    pub name: Option<String>,
    /// The master volume scalar, where the endpoint-volume capability was
    /// obtained and the read succeeded.
    pub volume: Option<VolumeScalar>,
    /// Whether the endpoint-volume capability could be obtained for a
    /// write.
    pub can_control: bool,
}

/// The probe's friendly name matches the query; an endpoint whose name
/// could not be read never matches.
pub open spec fn spec_probe_matches(p: DeviceProbe, query: Seq<char>) -> bool {
    match p.name {
        Some(n) => spec_names_match(n@, query),
        None => false,
    }
}

/// The probe answers a device-level volume read: its name matches and its
/// master volume could be read.
pub open spec fn spec_readable(p: DeviceProbe, query: Seq<char>) -> bool {
    spec_probe_matches(p, query) && p.volume is Some
}

/// The volume a device-level read reports: the master volume of the first
/// endpoint, in enumeration order, whose name matches the query and whose
/// volume could be read, rescaled to a percentage; zero where there is no
/// such endpoint.
pub open spec fn spec_device_volume(devs: Seq<DeviceProbe>, query: Seq<char>) -> VolumePercent
    decreases devs.len(),
{
    if devs.len() == 0 {
        VolumePercent { units: 0 }
    } else if spec_readable(devs[0], query) {
        spec_percent_of_scalar(devs[0].volume.unwrap())
    } else {
        spec_device_volume(devs.drop_first(), query)
    }
}

/// A query no endpoint answers reads as zero volume, not as an error.
pub proof fn lemma_unmatched_query_reads_zero(devs: Seq<DeviceProbe>, query: Seq<char>)
    requires
        forall|i: int| 0 <= i < devs.len() ==> !spec_readable(#[trigger] devs[i], query),
    ensures
        spec_device_volume(devs, query).units == 0,
    decreases devs.len(),
{
    if devs.len() > 0 {
        assert(!spec_readable(devs[0], query));
        assert forall|i: int| 0 <= i < devs.drop_first().len() implies !spec_readable(
            #[trigger] devs.drop_first()[i],
            query,
        ) by {
            assert(devs.drop_first()[i] == devs[i + 1]);
        }
        lemma_unmatched_query_reads_zero(devs.drop_first(), query);
    }
}

/// A device-level read through a query answered by the endpoint at `i` —
/// its name matches, its volume could be read, and no earlier endpoint
/// answers — returns exactly that endpoint's master volume scalar
/// rescaled to a percentage: the first match in enumeration order wins.
pub proof fn lemma_first_readable_wins(devs: Seq<DeviceProbe>, query: Seq<char>, i: int)
    requires
        0 <= i < devs.len(),
        spec_readable(devs[i], query),
        forall|j: int| 0 <= j < i ==> !spec_readable(#[trigger] devs[j], query),
    ensures
        spec_device_volume(devs, query) == spec_percent_of_scalar(devs[i].volume.unwrap()),
    decreases i,
{
    if i == 0 {
    } else {
        assert(!spec_readable(devs[0], query));
        assert forall|j: int| 0 <= j < i - 1 implies !spec_readable(
            #[trigger] devs.drop_first()[j],
            query,
        ) by {
            assert(devs.drop_first()[j] == devs[j + 1]);
        }
        assert(devs.drop_first()[i - 1] == devs[i]);
        lemma_first_readable_wins(devs.drop_first(), query, i - 1);
    }
}

fn probe_matches(p: &DeviceProbe, query: &str) -> (b: bool)
    ensures
        b == spec_probe_matches(*p, query@),
{
    match &p.name {
        Some(n) => names_match(n.as_str(), query),
        None => false,
    }
}

/// Read the master volume of the first endpoint matching the query.
pub fn get_device_volume(devs: &Vec<DeviceProbe>, query: &str) -> (p: VolumePercent)
    ensures
        p == spec_device_volume(devs@, query@),
{
    let mut i: usize = 0;
    proof {
        assert(devs@.skip(0) =~= devs@);
    }
    while i < devs.len()
        invariant
            0 <= i <= devs@.len(),
            spec_device_volume(devs@, query@) == spec_device_volume(devs@.skip(i as int), query@),
        decreases devs@.len() - i,
    {
        proof {
            assert(devs@.skip(i as int)[0] == devs@[i as int]);
            assert(devs@.skip(i as int).drop_first() =~= devs@.skip(i as int + 1));
        }
        let pr = &devs[i];
        let matched = probe_matches(pr, query);
        if matched {
            match &pr.volume {
                Some(s) => {
                    return percent_of_scalar(*s);
                },
                None => {},
            }
        }
        i = i + 1;
    }
    proof {
        assert(devs@.skip(devs@.len() as int).len() == 0);
    }
    VolumePercent { units: 0 }
}

/// Pick the endpoint a device-level volume write goes to: the first, in
/// enumeration order, whose name matches the query and whose
/// endpoint-volume capability could be obtained. `None` means the write
/// is dropped as a successful no-op.
pub fn find_set_target(devs: &Vec<DeviceProbe>, query: &str) -> (r: Option<usize>)
    ensures
        match r {
            Some(i) => i < devs@.len() && spec_probe_matches(devs@[i as int], query@)
                && devs@[i as int].can_control && forall|j: int|
                0 <= j < i ==> !(spec_probe_matches(#[trigger] devs@[j], query@)
                    && devs@[j].can_control),
            None => forall|j: int|
                0 <= j < devs@.len() ==> !(spec_probe_matches(#[trigger] devs@[j], query@)
                    && devs@[j].can_control),
        },
{
    let mut i: usize = 0;
    while i < devs.len()
        invariant
            0 <= i <= devs@.len(),
            forall|j: int|
                0 <= j < i ==> !(spec_probe_matches(#[trigger] devs@[j], query@)
                    && devs@[j].can_control),
        decreases devs@.len() - i,
    {
        let pr = &devs[i];
        let matched = probe_matches(pr, query);
        if matched && pr.can_control {
            return Some(i);
        }
        i = i + 1;
    }
    None
}

/// The session at endpoint `i`, index `j` is a target of a
/// per-application volume write for `pid`: it exists, its owning process
/// is `pid`, and it exposes a volume control.
pub open spec fn spec_is_update_target(
    eps: Seq<EndpointProbe>,
    pid: u32,
    i: int,
    j: int,
) -> bool {
    &&& 0 <= i < eps.len()
    &&& eps[i].sessions is Some
    &&& 0 <= j < eps[i].sessions.unwrap()@.len()
    &&& eps[i].sessions.unwrap()@[j].pid == Some(pid)
    &&& eps[i].sessions.unwrap()@[j].has_volume_control
}

/// Plan a per-application volume write: every session, across every
/// endpoint, whose owning pid equals the target and which exposes a
/// volume control, as (endpoint index, session index) pairs in walk
/// order. A pid no session carries yields the empty plan: the write
/// succeeds as a no-op.
pub fn plan_app_volume_update(eps: &Vec<EndpointProbe>, pid: u32) -> (plan: Vec<(usize, usize)>)
    ensures
        forall|k: int|
            0 <= k < plan@.len() ==> spec_is_update_target(
                eps@,
                pid,
                (#[trigger] plan@[k]).0 as int,
                plan@[k].1 as int,
            ),
        forall|i: int, j: int|
            #[trigger] spec_is_update_target(eps@, pid, i, j) ==> exists|k: int|
                0 <= k < plan@.len() && #[trigger] plan@[k] == (i as usize, j as usize),
        forall|k1: int, k2: int|
            0 <= k1 < k2 < plan@.len() ==> (#[trigger] plan@[k1]).0 < (#[trigger] plan@[k2]).0
                || (plan@[k1].0 == plan@[k2].0 && plan@[k1].1 < plan@[k2].1),
{
    let mut plan: Vec<(usize, usize)> = Vec::new();
    let mut i: usize = 0;
    while i < eps.len()
        invariant
            0 <= i <= eps@.len(),
            forall|k: int|
                0 <= k < plan@.len() ==> spec_is_update_target(
                    eps@,
                    pid,
                    (#[trigger] plan@[k]).0 as int,
                    plan@[k].1 as int,
                ) && plan@[k].0 < i,
            forall|a: int, b: int|
                (#[trigger] spec_is_update_target(eps@, pid, a, b) && a < i) ==> exists|k: int|
                    0 <= k < plan@.len() && #[trigger] plan@[k] == (a as usize, b as usize),
            forall|k1: int, k2: int|
                0 <= k1 < k2 < plan@.len() ==> (#[trigger] plan@[k1]).0 < (#[trigger] plan@[k2]).0
                    || (plan@[k1].0 == plan@[k2].0 && plan@[k1].1 < plan@[k2].1),
        decreases eps@.len() - i,
    {
        match &eps[i].sessions {
            None => {},
            Some(sessions) => {
                let mut j: usize = 0;
                while j < sessions.len()
                    invariant
                        0 <= i < eps@.len(),
                        0 <= j <= sessions@.len(),
                        eps@[i as int].sessions == Some(*sessions),
                        forall|k: int|
                            0 <= k < plan@.len() ==> spec_is_update_target(
                                eps@,
                                pid,
                                (#[trigger] plan@[k]).0 as int,
                                plan@[k].1 as int,
                            ) && (plan@[k].0 < i || (plan@[k].0 == i && plan@[k].1 < j)),
                        forall|a: int, b: int|
                            (#[trigger] spec_is_update_target(eps@, pid, a, b) && (a < i || (a == i
                                && b < j))) ==> exists|k: int|
                                0 <= k < plan@.len() && #[trigger] plan@[k] == (
                                a as usize,
                                b as usize,
                                ),
                        forall|k1: int, k2: int|
                            0 <= k1 < k2 < plan@.len() ==> (#[trigger] plan@[k1]).0
                                < (#[trigger] plan@[k2]).0 || (plan@[k1].0 == plan@[k2].0
                                && plan@[k1].1 < plan@[k2].1),
                    decreases sessions@.len() - j,
                {
                    let sp = &sessions[j];
                    let is_target = match sp.pid {
                        Some(p) => p == pid && sp.has_volume_control,
                        None => false,
                    };
                    if is_target {
                        let ghost old_plan = plan@;
                        plan.push((i, j));
                        proof {
                            assert(spec_is_update_target(eps@, pid, i as int, j as int));
                            assert forall|a: int, b: int|
                                (#[trigger] spec_is_update_target(eps@, pid, a, b) && (a < i || (a
                                    == i && b < j + 1))) implies exists|k: int|
                                0 <= k < plan@.len() && #[trigger] plan@[k] == (
                                a as usize,
                                b as usize,
                                ) by {
                                if a == i && b == j {
                                    assert(plan@[old_plan.len() as int] == (a as usize, b as usize));
                                } else {
                                    let k = choose|k: int|
                                        0 <= k < old_plan.len() && #[trigger] old_plan[k] == (
                                        a as usize,
                                        b as usize,
                                        );
                                    assert(plan@[k] == (a as usize, b as usize));
                                }
                            }
                        }
                    }
                    j = j + 1;
                }
            },
        }
        i = i + 1;
    }
    plan
}

/// A pid no session carries yields the empty plan.
pub proof fn lemma_no_session_empty_plan(
    eps: Seq<EndpointProbe>,
    pid: u32,
    plan: Seq<(usize, usize)>,
)
    requires
        forall|i: int, j: int| !spec_is_update_target(eps, pid, i, j),
        forall|k: int|
            0 <= k < plan.len() ==> spec_is_update_target(
                eps,
                pid,
                (#[trigger] plan[k]).0 as int,
                plan[k].1 as int,
            ),
    ensures
        plan.len() == 0,
{
    if plan.len() > 0 {
        assert(spec_is_update_target(eps, pid, plan[0].0 as int, plan[0].1 as int));
    }
}

} // verus!

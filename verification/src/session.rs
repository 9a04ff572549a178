//! Session enumeration over probes of the audio topology.
//!
//! The platform walk visits every active render endpoint, every session
//! manager it yields, and every session control under it; any node may be
//! missing. The walk records what it saw as plain probes, and this module
//! turns those probes into the reported session list: system sessions and
//! sessions without a volume control are dropped, readings that failed get
//! their defaults, and the surviving sessions are sorted by ascending pid
//! and deduplicated keeping the first occurrence.

use vstd::prelude::*;
use crate::naming::display_name;
use crate::naming::opt_chars;
use crate::naming::spec_display_name;
use crate::volume::PERCENT_FULL;
use crate::volume::SCALAR_FULL;
use crate::volume::VolumePercent;
use crate::volume::VolumeScalar;
use crate::volume::percent_of_scalar;
use crate::volume::spec_percent_of_scalar;
use crate::volume::spec_scalar_of_percent;

verus! {

/// One audio session as the mixer reports it.
pub struct AudioSession {
    pub pid: u32,
    pub name: String,
    pub volume: VolumePercent,
    pub is_muted: bool,
    /// Base64-encoded 32x32 PNG; absent whenever icon extraction failed.
    pub icon: Option<String>,
}

/// The mathematical value of a reported session.
pub struct SessionView {
    pub pid: u32,
    pub name: Seq<char>,
    pub volume: VolumePercent,
    pub is_muted: bool,
    pub icon: Option<Seq<char>>,
}

impl View for AudioSession {
    type V = SessionView;

    open spec fn view(&self) -> SessionView {
        SessionView {
            pid: self.pid,
            name: self.name@,
            volume: self.volume,
            is_muted: self.is_muted,
            icon: opt_chars(self.icon),
        }
    }
}

/// What the walk of one session control observed.
pub struct SessionProbe {
    /// The owning process id; `None` where the control could not be cast
    /// or the query failed.
    pub pid: Option<u32>,
    /// Whether the session exposed a volume-control capability.
    pub has_volume_control: bool,
    /// The volume scalar read off that capability; `None` where the read
    /// failed.
    pub volume: Option<VolumeScalar>,
    /// The mute flag read off that capability; `None` where the read
    /// failed.
    pub muted: Option<bool>,
    /// The raw image name of the owning process, from the process-table
    /// snapshot; `None` where the process did not resolve.
    pub raw_name: Option<String>,
    /// The session's icon, already rasterized and encoded; `None` on any
    /// failure along the icon pipeline.
    pub icon: Option<String>,
}

/// What the walk of one render endpoint observed: its session probes, or
/// `None` where no session manager or session enumerator could be
/// obtained.
pub struct EndpointProbe {
    pub sessions: Option<Vec<SessionProbe>>,
}

/// The session reported for one probe: nothing for a system session
/// (pid 0), a failed pid query, a missing volume control, or a failed
/// volume or mute read — a session whose state cannot be queried is
/// skipped entirely, not reported with made-up readings. Otherwise the
/// probe's readings, with the icon kept exactly as the pipeline produced
/// it.
pub open spec fn spec_session_of_probe(p: SessionProbe) -> Option<SessionView> {
    match p.pid {
        Some(pid) => if pid > 0 && p.has_volume_control && p.volume is Some && p.muted is Some {
            Some(
                SessionView {
                    pid: pid,
                    name: spec_display_name(pid, opt_chars(p.raw_name)),
                    volume: spec_percent_of_scalar(p.volume.unwrap()),
                    is_muted: p.muted.unwrap(),
                    icon: opt_chars(p.icon),
                },
            )
        } else {
            None
        },
        None => None,
    }
}

/// The sessions one endpoint contributes, in walk order.
pub open spec fn spec_filtered(ps: Seq<SessionProbe>) -> Seq<SessionView>
    decreases ps.len(),
{
    if ps.len() == 0 {
        Seq::empty()
    } else {
        spec_filtered(ps.drop_last()) + (match spec_session_of_probe(ps.last()) {
            Some(s) => seq![s],
            None => Seq::<SessionView>::empty(),
        })
    }
}

/// The sessions an endpoint contributes: none where its session manager
/// or enumerator was unavailable.
pub open spec fn spec_endpoint_sessions(e: EndpointProbe) -> Seq<SessionView> {
    match e.sessions {
        Some(v) => spec_filtered(v@),
        None => Seq::empty(),
    }
}

/// Every session the whole walk yields, endpoint by endpoint, before
/// sorting and deduplication.
pub open spec fn spec_collected(eps: Seq<EndpointProbe>) -> Seq<SessionView>
    decreases eps.len(),
{
    if eps.len() == 0 {
        Seq::empty()
    } else {
        spec_collected(eps.drop_last()) + spec_endpoint_sessions(eps.last())
    }
}

/// Some collected session carries this pid.
pub open spec fn spec_has_pid(s: Seq<SessionView>, pid: u32) -> bool {
    exists|i: int| 0 <= i < s.len() && #[trigger] s[i].pid == pid
}

/// The first collected session carrying this pid.
pub open spec fn spec_first_with_pid(s: Seq<SessionView>, pid: u32) -> SessionView
    recommends
        spec_has_pid(s, pid),
    decreases s.len(),
{
    if s.len() == 0 {
        arbitrary()
    } else if s[0].pid == pid {
        s[0]
    } else {
        spec_first_with_pid(s.drop_first(), pid)
    }
}

/// How appending one session changes pid membership and first
/// occurrences: membership gains at most the new pid, and the first
/// occurrence of every pid already present is unchanged.
pub proof fn lemma_first_with_pid_push(s: Seq<SessionView>, x: SessionView, pid: u32)
    ensures
        spec_has_pid(s.push(x), pid) == (spec_has_pid(s, pid) || x.pid == pid),
        spec_has_pid(s, pid) ==> spec_first_with_pid(s.push(x), pid) == spec_first_with_pid(
            s,
            pid,
        ),
        !spec_has_pid(s, pid) && x.pid == pid ==> spec_first_with_pid(s.push(x), pid) == x,
    decreases s.len(),
{
    if s.len() == 0 {
        assert(s.push(x)[0] == x);
        if x.pid == pid {
            assert(spec_has_pid(s.push(x), pid));
        }
    } else {
        assert(s.push(x)[0] == s[0]);
        assert(s.push(x).drop_first() =~= s.drop_first().push(x));
        lemma_first_with_pid_push(s.drop_first(), x, pid);
        if s[0].pid == pid {
            assert(spec_has_pid(s, pid));
        }
        assert forall|i: int| 0 <= i < s.len() && s[i].pid == pid implies spec_has_pid(
            s.push(x),
            pid,
        ) by {
            assert(s.push(x)[i].pid == pid);
        }
        if spec_has_pid(s, pid) && s[0].pid != pid {
            let i = choose|i: int| 0 <= i < s.len() && #[trigger] s[i].pid == pid;
            assert(s.drop_first()[i - 1].pid == pid);
            assert(spec_has_pid(s.drop_first(), pid));
        }
        if spec_has_pid(s.push(x), pid) && x.pid != pid && s[0].pid != pid {
            let i = choose|i: int| 0 <= i < s.push(x).len() && #[trigger] s.push(x)[i].pid == pid;
            assert(s[i].pid == pid);
        }
    }
}

/// No two entries of a session list sorted by strictly ascending pid
/// share a pid.
pub proof fn lemma_ascending_pids_unique(s: Seq<AudioSession>)
    requires
        forall|i: int, j: int| 0 <= i < j < s.len() ==> #[trigger] s[i].pid < #[trigger] s[j].pid,
    ensures
        forall|i: int, j: int|
            0 <= i < s.len() && 0 <= j < s.len() && i != j ==> #[trigger] s[i].pid
                != #[trigger] s[j].pid,
{
}

/// Icon extraction failure is non-fatal: whether a probe is reported
/// depends only on its pid and its volume control, and a probe whose
/// icon pipeline failed is reported with the icon absent, not dropped.
pub proof fn lemma_icon_failure_nonfatal(p: SessionProbe, q: SessionProbe)
    requires
        p.pid == q.pid,
        p.has_volume_control == q.has_volume_control,
        (p.volume is Some) == (q.volume is Some),
        (p.muted is Some) == (q.muted is Some),
    ensures
        (spec_session_of_probe(p) is Some) == (spec_session_of_probe(q) is Some),
        p.icon is None && spec_session_of_probe(p) is Some ==> spec_session_of_probe(
            p,
        ).unwrap().icon is None,
{
}

/// A session whose scalar reading is in range [0, 1] is reported with a
/// volume in range [0, 100]; the rescaling alone keeps the range, no
/// clamping is applied.
pub proof fn lemma_session_volume_in_range(p: SessionProbe)
    requires
        p.volume matches Some(s) && s.units <= SCALAR_FULL,
        spec_session_of_probe(p) is Some,
    ensures
        spec_session_of_probe(p).unwrap().volume.units <= PERCENT_FULL,
{
}

/// A session whose scalar was just written from a requested percentage
/// reads back as exactly that percentage on the next enumeration.
pub proof fn lemma_written_volume_reads_back(p: SessionProbe, want: VolumePercent)
    requires
        p.volume == Some(spec_scalar_of_percent(want)),
        spec_session_of_probe(p) is Some,
    ensures
        spec_session_of_probe(p).unwrap().volume == want,
{
}

/// Decide what one probe contributes to the session list.
pub fn session_of_probe(p: SessionProbe) -> (r: Option<AudioSession>)
    ensures
        match r {
            Some(s) => spec_session_of_probe(p) == Some(s@),
            None => spec_session_of_probe(p) is None,
        },
{
    match (p.pid, p.volume, p.muted) {
        (Some(pid), Some(scalar), Some(is_muted)) => {
            if pid > 0 && p.has_volume_control {
                let name = display_name(pid, p.raw_name);
                let volume = percent_of_scalar(scalar);
                Some(AudioSession { pid, name, volume, is_muted, icon: p.icon })
            } else {
                None
            }
        },
        _ => None,
    }
}

/// The mathematical values of a vector of reported sessions.
pub open spec fn views_of(v: Seq<AudioSession>) -> Seq<SessionView> {
    v.map_values(|s: AudioSession| s@)
}

fn contains_pid(out: &Vec<AudioSession>, pid: u32) -> (b: bool)
    ensures
        b == exists|t: int| 0 <= t < out@.len() && #[trigger] out@[t].pid == pid,
{
    let mut t: usize = 0;
    while t < out.len()
        invariant
            t <= out@.len(),
            forall|u: int| 0 <= u < t ==> #[trigger] out@[u].pid != pid,
        decreases out@.len() - t,
    {
        if out[t].pid == pid {
            return true;
        }
        t = t + 1;
    }
    false
}

fn insert_pos(out: &Vec<AudioSession>, pid: u32) -> (idx: usize)
    requires
        forall|i: int, j: int| 0 <= i < j < out@.len() ==> out@[i].pid < out@[j].pid,
    ensures
        idx <= out@.len(),
        forall|t: int| 0 <= t < idx ==> #[trigger] out@[t].pid < pid,
        forall|t: int| idx <= t < out@.len() ==> #[trigger] out@[t].pid >= pid,
{
    let mut idx: usize = 0;
    while idx < out.len()
        invariant
            idx <= out@.len(),
            forall|t: int| 0 <= t < idx ==> #[trigger] out@[t].pid < pid,
            forall|i: int, j: int| 0 <= i < j < out@.len() ==> out@[i].pid < out@[j].pid,
        decreases out@.len() - idx,
    {
        if out[idx].pid >= pid {
            return idx;
        }
        idx = idx + 1;
    }
    idx
}

/// Assemble the reported session list from everything the walk observed.
///
/// The result is sorted by strictly ascending pid — so no two entries
/// share a pid — and contains exactly one entry for every pid the walk
/// yielded: the first session collected for that pid, in walk order.
pub fn collect_sessions(eps: Vec<EndpointProbe>) -> (out: Vec<AudioSession>)
    ensures
        forall|i: int, j: int| 0 <= i < j < out@.len() ==> out@[i].pid < out@[j].pid,
        forall|k: int|
            0 <= k < out@.len() ==> spec_has_pid(spec_collected(eps@), #[trigger] out@[k].pid)
                && out@[k]@ == spec_first_with_pid(spec_collected(eps@), out@[k].pid),
        forall|pid: u32|
            #[trigger] spec_has_pid(spec_collected(eps@), pid) ==> exists|k: int|
                0 <= k < out@.len() && #[trigger] out@[k].pid == pid,
{
    let ghost orig: Seq<EndpointProbe> = eps@;
    let mut eps = eps;
    let mut collected: Vec<AudioSession> = Vec::new();
    let ghost mut done: int = 0;
    while eps.len() > 0
        invariant
            0 <= done <= orig.len(),
            eps@ =~= orig.skip(done),
            views_of(collected@) =~= spec_collected(orig.take(done)),
        decreases eps@.len(),
    {
        let e = eps.remove(0);
        proof {
            assert(e == orig[done]);
            assert(eps@ =~= orig.skip(done + 1));
        }
        match e.sessions {
            None => {
                proof {
                    assert(orig.take(done + 1).drop_last() =~= orig.take(done));
                    assert(orig.take(done + 1).last() == orig[done]);
                    assert(views_of(collected@) =~= spec_collected(orig.take(done + 1)));
                }
            },
            Some(ps) => {
                let ghost pall: Seq<SessionProbe> = ps@;
                let mut ps = ps;
                let ghost mut jdone: int = 0;
                while ps.len() > 0
                    invariant
                        0 <= jdone <= pall.len(),
                        ps@ =~= pall.skip(jdone),
                        views_of(collected@) =~= spec_collected(orig.take(done))
                            + spec_filtered(pall.take(jdone)),
                    decreases ps@.len(),
                {
                    let p = ps.remove(0);
                    proof {
                        assert(p == pall[jdone]);
                        assert(ps@ =~= pall.skip(jdone + 1));
                        assert(pall.take(jdone + 1).drop_last() =~= pall.take(jdone));
                        assert(pall.take(jdone + 1).last() == pall[jdone]);
                    }
                    match session_of_probe(p) {
                        Some(s) => {
                            proof {
                                assert(views_of(collected@.push(s)) =~= views_of(
                                    collected@,
                                ).push(s@));
                            }
                            collected.push(s);
                        },
                        None => {},
                    }
                    proof {
                        jdone = jdone + 1;
                    }
                }
                proof {
                    assert(pall.take(jdone) =~= pall);
                    assert(orig.take(done + 1).drop_last() =~= orig.take(done));
                    assert(orig.take(done + 1).last() == orig[done]);
                    assert(views_of(collected@) =~= spec_collected(orig.take(done + 1)));
                }
            },
        }
        proof {
            done = done + 1;
        }
    }
    proof {
        assert(orig.take(done) =~= orig);
    }
    let ghost full: Seq<SessionView> = spec_collected(orig);
    let mut collected = collected;
    let mut out: Vec<AudioSession> = Vec::new();
    let ghost mut kdone: int = 0;
    while collected.len() > 0
        invariant
            0 <= kdone <= full.len(),
            views_of(collected@) =~= full.skip(kdone),
            forall|i: int, j: int| 0 <= i < j < out@.len() ==> out@[i].pid < out@[j].pid,
            forall|k: int|
                0 <= k < out@.len() ==> spec_has_pid(full.take(kdone), #[trigger] out@[k].pid)
                    && out@[k]@ == spec_first_with_pid(full.take(kdone), out@[k].pid),
            forall|pid: u32|
                #[trigger] spec_has_pid(full.take(kdone), pid) ==> exists|k: int|
                    0 <= k < out@.len() && #[trigger] out@[k].pid == pid,
        decreases collected@.len(),
    {
        let ghost oldc = collected@;
        let x = collected.remove(0);
        proof {
            assert(views_of(oldc).len() == oldc.len());
            assert(x == oldc[0]);
            assert(views_of(oldc)[0] == oldc[0]@);
            assert(kdone < full.len());
            assert(x@ == full[kdone]);
            assert(collected@ =~= oldc.drop_first());
            assert forall|i: int| 0 <= i < collected@.len() implies views_of(collected@)[i]
                == full.skip(kdone + 1)[i] by {
                assert(views_of(collected@)[i] == collected@[i]@);
                assert(collected@[i] == oldc[i + 1]);
                assert(views_of(oldc)[i + 1] == oldc[i + 1]@);
            }
            assert(views_of(collected@).len() == collected@.len());
            assert(views_of(collected@) =~= full.skip(kdone + 1));
            assert(full.take(kdone + 1) =~= full.take(kdone).push(full[kdone]));
        }
        let present = contains_pid(&out, x.pid);
        if present {
            proof {
                assert forall|pid: u32| #[trigger] spec_has_pid(full.take(kdone + 1), pid) implies exists|
                    k: int,
                |
                    0 <= k < out@.len() && #[trigger] out@[k].pid == pid by {
                    lemma_first_with_pid_push(full.take(kdone), full[kdone], pid);
                }
                assert forall|k: int| 0 <= k < out@.len() implies spec_has_pid(
                    full.take(kdone + 1),
                    #[trigger] out@[k].pid,
                ) && out@[k]@ == spec_first_with_pid(full.take(kdone + 1), out@[k].pid) by {
                    lemma_first_with_pid_push(full.take(kdone), full[kdone], out@[k].pid);
                }
            }
        } else {
            let idx = insert_pos(&out, x.pid);
            let ghost old_out = out@;
            out.insert(idx, x);
            proof {
                assert(!spec_has_pid(full.take(kdone), x.pid)) by {
                    if spec_has_pid(full.take(kdone), x.pid) {
                        let k = choose|k: int|
                            0 <= k < old_out.len() && #[trigger] old_out[k].pid == x.pid;
                        assert(old_out[k].pid == x.pid);
                    }
                }
                assert(out@ =~= old_out.insert(idx as int, x));
                assert forall|i: int, j: int| 0 <= i < j < out@.len() implies out@[i].pid
                    < out@[j].pid by {
                    assert(forall|t: int|
                        0 <= t < old_out.len() ==> old_out[t].pid == x.pid ==> false);
                }
                assert forall|k: int| 0 <= k < out@.len() implies spec_has_pid(
                    full.take(kdone + 1),
                    #[trigger] out@[k].pid,
                ) && out@[k]@ == spec_first_with_pid(full.take(kdone + 1), out@[k].pid) by {
                    lemma_first_with_pid_push(full.take(kdone), full[kdone], out@[k].pid);
                    if k != idx {
                        let k0 = if k < idx {
                            k
                        } else {
                            k - 1
                        };
                        assert(out@[k] == old_out[k0]);
                    } else {
                        assert(out@[k] == x);
                    }
                }
                assert forall|pid: u32| #[trigger] spec_has_pid(full.take(kdone + 1), pid) implies exists|
                    k: int,
                |
                    0 <= k < out@.len() && #[trigger] out@[k].pid == pid by {
                    lemma_first_with_pid_push(full.take(kdone), full[kdone], pid);
                    if pid == x.pid {
                        assert(out@[idx as int].pid == pid);
                    } else {
                        let k = choose|k: int|
                            0 <= k < old_out.len() && #[trigger] old_out[k].pid == pid;
                        if k < idx {
                            assert(out@[k].pid == pid);
                        } else {
                            assert(out@[k + 1].pid == pid);
                        }
                    }
                }
            }
        }
        proof {
            kdone = kdone + 1;
        }
    }
    proof {
        assert(full.take(kdone) =~= full);
    }
    out
}

} // verus!

use vstd::prelude::*;

use crate::peers::copy_opt_string;

verus! {

/// A connected device as the admin UI lists it; `L` is the location type of
/// the session manager.
#[derive(Debug)]
pub struct DeviceInfo<L> {
    pub machine_id: String,
    pub client_url: String,
    pub user_token: String,
    pub hostname: Option<String>,
    pub ip: Option<String>,
    pub location: Option<L>,
    pub blocked: bool,
    pub blocked_reason: Option<String>,
    pub last_seen: Option<String>,
    pub os: Option<String>,
    pub version: Option<String>,
}

#[derive(Debug)]
pub struct DeviceListResponse<L> {
    pub devices: Vec<DeviceInfo<L>>,
}

/// A client session, as the session manager reports it.
#[derive(Debug)]
pub struct SessionInfo {
    pub machine_id: String,
    pub client_url: String,
    pub token: String,
    pub user_id: i32,
}

/// The latest heartbeat of a session.
#[derive(Debug)]
pub struct HeartbeatSummary {
    pub hostname: String,
    pub easytier_version: String,
    pub report_time: String,
}

/// A stored device block.
#[derive(Debug)]
pub struct BlockedDevice {
    pub machine_id: String,
    pub reason: String,
}

/// Whether some block names the machine.
pub open spec fn is_blocked(blocked: Seq<BlockedDevice>, machine_id: Seq<char>) -> bool {
    exists|i: int| 0 <= i < blocked.len() && (#[trigger] blocked[i]).machine_id@ == machine_id
}

/// The reason of the last block that names the machine (later blocks win,
/// as when the blocks are collected into a map).
pub open spec fn block_reason(blocked: Seq<BlockedDevice>, machine_id: Seq<char>) -> Option<String>
    decreases blocked.len(),
{
    if blocked.len() == 0 {
        None
    } else if blocked.last().machine_id@ == machine_id {
        Some(blocked.last().reason)
    } else {
        block_reason(blocked.drop_last(), machine_id)
    }
}

proof fn lemma_reason_iff_blocked(blocked: Seq<BlockedDevice>, machine_id: Seq<char>)
    ensures
        block_reason(blocked, machine_id) is Some <==> is_blocked(blocked, machine_id),
    decreases blocked.len(),
{
    if blocked.len() > 0 {
        let t = blocked.drop_last();
        lemma_reason_iff_blocked(t, machine_id);
        if is_blocked(blocked, machine_id) && blocked.last().machine_id@ != machine_id {
            let i = choose|i: int| 0 <= i < blocked.len() && (#[trigger] blocked[i]).machine_id@ == machine_id;
            assert(t[i] == blocked[i]);
        }
        if is_blocked(t, machine_id) {
            let i = choose|i: int| 0 <= i < t.len() && (#[trigger] t[i]).machine_id@ == machine_id;
            assert(t[i] == blocked[i]);
        }
        if blocked.last().machine_id@ == machine_id {
            assert(blocked[blocked.len() - 1] == blocked.last());
        }
    }
}

/// The reason listed for a device is that of the last block naming it: when
/// block `i` names the machine and no later block does, the reason is block
/// `i`'s; when no block names it, there is no reason.
pub proof fn lemma_block_reason_is_last_naming_block(blocked: Seq<BlockedDevice>, machine_id: Seq<char>, i: int)
    ensures
        (0 <= i < blocked.len() && blocked[i].machine_id@ == machine_id && forall|j: int|
            i < j < blocked.len() ==> (#[trigger] blocked[j]).machine_id@ != machine_id) ==> block_reason(
            blocked,
            machine_id,
        ) == Some(blocked[i].reason),
        (forall|j: int| 0 <= j < blocked.len() ==> (#[trigger] blocked[j]).machine_id@ != machine_id)
            ==> block_reason(blocked, machine_id) is None,
    decreases blocked.len(),
{
    if blocked.len() > 0 {
        let t = blocked.drop_last();
        let n = blocked.len() - 1;
        assert(blocked.last() == blocked[n]);
        lemma_block_reason_is_last_naming_block(t, machine_id, i);
        if 0 <= i < blocked.len() && blocked[i].machine_id@ == machine_id && forall|j: int|
            i < j < blocked.len() ==> (#[trigger] blocked[j]).machine_id@ != machine_id {
            if i < n {
                assert(blocked[n].machine_id@ != machine_id);
                assert(t[i] == blocked[i]);
                assert forall|j: int| i < j < t.len() implies (#[trigger] t[j]).machine_id@ != machine_id by {
                    assert(t[j] == blocked[j]);
                }
            }
        }
        if forall|j: int| 0 <= j < blocked.len() ==> (#[trigger] blocked[j]).machine_id@ != machine_id {
            assert(blocked[n].machine_id@ != machine_id);
            assert forall|j: int| 0 <= j < t.len() implies (#[trigger] t[j]).machine_id@ != machine_id by {
                assert(t[j] == blocked[j]);
            }
        }
    }
}

fn find_block_reason(blocked: &Vec<BlockedDevice>, machine_id: &String) -> (r: Option<String>)
    ensures
        r == block_reason(blocked@, machine_id@),
{
    let mut i: usize = blocked.len();
    assert(blocked@.take(i as int) =~= blocked@);
    while i > 0
        invariant
            i <= blocked@.len(),
            block_reason(blocked@, machine_id@) == block_reason(blocked@.take(i as int), machine_id@),
        decreases i,
    {
        let ghost t = blocked@.take(i as int);
        assert(t.last() == blocked@[i - 1]);
        assert(t.drop_last() =~= blocked@.take(i - 1));
        if blocked[i - 1].machine_id == *machine_id {
            return Some(blocked[i - 1].reason.clone());
        }
        i = i - 1;
    }
    None
}

pub open spec fn device_of<L>(
    session: SessionInfo,
    heartbeat: Option<HeartbeatSummary>,
    location: Option<L>,
    blocked: Seq<BlockedDevice>,
) -> DeviceInfo<L> {
    DeviceInfo {
        machine_id: session.machine_id,
        client_url: session.client_url,
        user_token: session.token,
        hostname: match heartbeat {
            Some(h) => Some(h.hostname),
            None => None,
        },
        ip: None,
        location: location,
        blocked: is_blocked(blocked, session.machine_id@),
        blocked_reason: block_reason(blocked, session.machine_id@),
        last_seen: match heartbeat {
            Some(h) => Some(h.report_time),
            None => None,
        },
        os: None,
        version: match heartbeat {
            Some(h) => Some(h.easytier_version),
            None => None,
        },
    }
}

/// Describes one session for the device list: hostname, version and last
/// report time from its heartbeat, and its block state with the reason.
pub fn device_info<L>(
    session: SessionInfo,
    heartbeat: Option<HeartbeatSummary>,
    location: Option<L>,
    blocked: &Vec<BlockedDevice>,
) -> (d: DeviceInfo<L>)
    ensures
        d.machine_id == session.machine_id,
        d.client_url == session.client_url,
        d.user_token == session.token,
        d.hostname == (match heartbeat {
            Some(h) => Some(h.hostname),
            None => None::<String>,
        }),
        d.ip is None,
        d.location == location,
        d.blocked == is_blocked(blocked@, session.machine_id@),
        d.blocked_reason == block_reason(blocked@, session.machine_id@),
        forall|i: int|
            0 <= i < blocked@.len() && (#[trigger] blocked@[i]).machine_id@ == session.machine_id@ && (forall|j: int|
                i < j < blocked@.len() ==> (#[trigger] blocked@[j]).machine_id@ != session.machine_id@)
                ==> d.blocked_reason == Some(blocked@[i].reason),
        d.last_seen == (match heartbeat {
            Some(h) => Some(h.report_time),
            None => None::<String>,
        }),
        d.os is None,
        d.version == (match heartbeat {
            Some(h) => Some(h.easytier_version),
            None => None::<String>,
        }),
{
    let reason = find_block_reason(blocked, &session.machine_id);
    proof {
        lemma_reason_iff_blocked(blocked@, session.machine_id@);
        assert forall|i: int|
            0 <= i < blocked@.len() && (#[trigger] blocked@[i]).machine_id@ == session.machine_id@ && (forall|j: int|
                i < j < blocked@.len() ==> (#[trigger] blocked@[j]).machine_id@ != session.machine_id@)
            implies reason == Some(blocked@[i].reason) by {
            lemma_block_reason_is_last_naming_block(blocked@, session.machine_id@, i);
        }
    }
    let is_blocked = reason.is_some();
    let (hostname, last_seen, version) = match heartbeat {
        Some(h) => (Some(h.hostname), Some(h.report_time), Some(h.easytier_version)),
        None => (None, None, None),
    };
    DeviceInfo {
        machine_id: session.machine_id,
        client_url: session.client_url,
        user_token: session.token,
        hostname,
        ip: None,
        location,
        blocked: is_blocked,
        blocked_reason: reason,
        last_seen,
        os: None,
        version,
    }
}

/// What blocking a device amounts to.
#[derive(Debug, PartialEq, Eq)]
pub enum BlockPlan {
    /// No session has the machine id (answered 404).
    DeviceNotFound,
    /// The device is blocked already; nothing is written.
    AlreadyBlocked,
    /// Store a block for the device's client url and user.
    Insert { device_id: String, user_id: i32 },
}

/// The first session with the machine id, if any.
pub open spec fn first_session(sessions: Seq<SessionInfo>, machine_id: Seq<char>) -> Option<int>
    decreases sessions.len(),
{
    if sessions.len() == 0 {
        None
    } else if sessions[0].machine_id@ == machine_id {
        Some(0)
    } else {
        match first_session(sessions.drop_first(), machine_id) {
            Some(i) => Some(i + 1),
            None => None,
        }
    }
}

proof fn lemma_first_session_found(sessions: Seq<SessionInfo>, machine_id: Seq<char>, i: int)
    requires
        0 <= i < sessions.len(),
        sessions[i].machine_id@ == machine_id,
        forall|j: int| 0 <= j < i ==> (#[trigger] sessions[j]).machine_id@ != machine_id,
    ensures
        first_session(sessions, machine_id) == Some(i),
    decreases i,
{
    if i > 0 {
        let t = sessions.drop_first();
        assert forall|j: int| 0 <= j < i - 1 implies (#[trigger] t[j]).machine_id@ != machine_id by {
            assert(t[j] == sessions[j + 1]);
        }
        lemma_first_session_found(t, machine_id, i - 1);
    }
}

proof fn lemma_first_session_absent(sessions: Seq<SessionInfo>, machine_id: Seq<char>)
    requires
        forall|j: int| 0 <= j < sessions.len() ==> (#[trigger] sessions[j]).machine_id@ != machine_id,
    ensures
        first_session(sessions, machine_id) is None,
    decreases sessions.len(),
{
    if sessions.len() > 0 {
        let t = sessions.drop_first();
        assert forall|j: int| 0 <= j < t.len() implies (#[trigger] t[j]).machine_id@ != machine_id by {
            assert(t[j] == sessions[j + 1]);
        }
        lemma_first_session_absent(t, machine_id);
    }
}

/// Plans a block: the device must be connected (its first session gives the
/// client url and user), and an existing block makes it a no-op.
pub fn plan_block(sessions: &Vec<SessionInfo>, machine_id: &String, already_blocked: bool) -> (r: BlockPlan)
    ensures
        match first_session(sessions@, machine_id@) {
            None => r == BlockPlan::DeviceNotFound,
            Some(i) => if already_blocked {
                r == BlockPlan::AlreadyBlocked
            } else {
                r == (BlockPlan::Insert { device_id: sessions@[i].client_url, user_id: sessions@[i].user_id })
            },
        },
{
    let mut i: usize = 0;
    while i < sessions.len()
        invariant
            i <= sessions@.len(),
            forall|j: int| 0 <= j < i ==> (#[trigger] sessions@[j]).machine_id@ != machine_id@,
        decreases sessions@.len() - i,
    {
        if sessions[i].machine_id == *machine_id {
            proof {
                lemma_first_session_found(sessions@, machine_id@, i as int);
            }
            if already_blocked {
                return BlockPlan::AlreadyBlocked;
            }
            return BlockPlan::Insert { device_id: sessions[i].client_url.clone(), user_id: sessions[i].user_id };
        }
        i = i + 1;
    }
    proof {
        lemma_first_session_absent(sessions@, machine_id@);
    }
    BlockPlan::DeviceNotFound
}

/// A device listed as blocked always carries the reason of its block.
pub proof fn lemma_blocked_devices_have_reason<L>(
    session: SessionInfo,
    heartbeat: Option<HeartbeatSummary>,
    location: Option<L>,
    blocked: Seq<BlockedDevice>,
)
    ensures
        device_of(session, heartbeat, location, blocked).blocked <==> device_of(
            session,
            heartbeat,
            location,
            blocked,
        ).blocked_reason is Some,
{
    lemma_reason_iff_blocked(blocked, session.machine_id@);
}

} // verus!

use vstd::prelude::*;

verus! {

#[derive(Debug)]
pub struct CreateAgentRequest {
    pub name: String,
    pub virtual_ip: String,
    pub description: Option<String>,
}

#[derive(Debug)]
pub struct DeleteAgentRequest {
    pub id: i32,
}

#[derive(Debug)]
pub struct AgentEntry {
    pub id: i32,
    pub name: String,
    pub virtual_ip: String,
    pub description: Option<String>,
    pub last_sync_at: Option<String>,
    pub last_sync_status: String,
    pub created_at: String,
    pub updated_at: String,
}

#[derive(Debug)]
pub struct AgentListResponse {
    pub agents: Vec<AgentEntry>,
}

/// An agent node to register: never synced yet.
#[derive(Debug)]
pub struct NewAgent {
    pub name: String,
    pub virtual_ip: String,
    pub description: Option<String>,
    pub last_sync_at: Option<i64>,
    pub last_sync_status: String,
}

/// The sync status of an agent that has not reported yet.
pub const AGENT_STATUS_UNKNOWN: &'static str = "unknown";

/// The agent that a registration request creates.
pub fn new_agent(req: CreateAgentRequest) -> (a: NewAgent)
    ensures
        a.name == req.name,
        a.virtual_ip == req.virtual_ip,
        a.description == req.description,
        a.last_sync_at is None,
        a.last_sync_status@ == AGENT_STATUS_UNKNOWN@,
{
    NewAgent {
        name: req.name,
        virtual_ip: req.virtual_ip,
        description: req.description,
        last_sync_at: None,
        last_sync_status: AGENT_STATUS_UNKNOWN.to_owned(),
    }
}

/// The recorded time of an agent's sync: the time it reports, or the time
/// of arrival when it reports none.
pub fn heartbeat_sync_time<T>(reported: Option<T>, now: T) -> (t: T)
    ensures
        t == match reported {
            Some(r) => r,
            None => now,
        },
{
    match reported {
        Some(r) => r,
        None => now,
    }
}

} // verus!

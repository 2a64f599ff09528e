//! The audit stream: which authorization decisions are recorded, and what a
//! record says.

use vstd::prelude::*;
use vstd::string::*;

use crate::text::{debug_text, join, joined, quoted, texts};

verus! {

/// How much to record.
#[derive(Clone, Copy, Debug, PartialEq, Eq, Structural)]
pub enum AuditMode {
    /// Record nothing.
    Off,
    /// Record refusals only. The default: rare, and the thing worth watching.
    Denials,
    /// Refusals, plus anything that changed state or administered the server.
    Writes,
    /// Every decision, including reads.
    All,
}

impl Default for AuditMode {
    fn default() -> (mode: Self)
        ensures
            mode == AuditMode::Denials,
    {
        AuditMode::Denials
    }
}

impl AuditMode {
    /// The number a mode is kept as in a process-wide cell.
    pub open spec fn code(self) -> u8 {
        match self {
            AuditMode::Off => 0,
            AuditMode::Denials => 1,
            AuditMode::Writes => 2,
            AuditMode::All => 3,
        }
    }

    pub fn as_u8(self) -> (code: u8)
        ensures
            code == self.code(),
    {
        match self {
            AuditMode::Off => 0,
            AuditMode::Denials => 1,
            AuditMode::Writes => 2,
            AuditMode::All => 3,
        }
    }

    /// The mode a number stands for; the default for a number that is none's.
    pub fn from_u8(code: u8) -> (mode: Self)
        ensures
            code <= 3 ==> mode.code() == code,
            code > 3 ==> mode == AuditMode::Denials,
    {
        match code {
            0 => AuditMode::Off,
            2 => AuditMode::Writes,
            3 => AuditMode::All,
            _ => AuditMode::Denials,
        }
    }

    /// The configured name of a mode.
    pub open spec fn word(self) -> Seq<char> {
        match self {
            AuditMode::Off => "off"@,
            AuditMode::Denials => "denials"@,
            AuditMode::Writes => "writes"@,
            AuditMode::All => "all"@,
        }
    }

    /// Parse the configured name.
    pub fn parse(name: &str) -> (mode: Result<Self, String>)
        ensures
            mode matches Ok(m) ==> m.word() == name@,
            mode is Err ==> forall|other: AuditMode| #[trigger] other.word() != name@,
            mode matches Err(e) ==> e@ == "unknown audit mode "@ + quoted(name@)
                    + "; expected off, denials, writes or all"@,
    {
        if *name == *"off" {
            Ok(AuditMode::Off)
        } else if *name == *"denials" {
            Ok(AuditMode::Denials)
        } else if *name == *"writes" {
            Ok(AuditMode::Writes)
        } else if *name == *"all" {
            Ok(AuditMode::All)
        } else {
            let mut e = "unknown audit mode ".to_owned();
            e.append(debug_text(name).as_str());
            e.append("; expected off, denials, writes or all");
            Err(e)
        }
    }

    pub fn name(self) -> (name: &'static str)
        ensures
            name@ == self.word(),
    {
        match self {
            AuditMode::Off => "off",
            AuditMode::Denials => "denials",
            AuditMode::Writes => "writes",
            AuditMode::All => "all",
        }
    }
}

/// What the process-wide cell holds before startup has set it.
pub const INITIAL_MODE: u8 = 1;

/// Set the process-wide audit mode, which `cell` holds.
pub fn set_mode(cell: &mut u8, mode: AuditMode)
    ensures
        *final(cell) == mode.code(),
{
    *cell = mode.as_u8();
}

/// The process-wide audit mode, which `cell` holds.
pub fn mode(cell: u8) -> (mode: AuditMode)
    ensures
        cell <= 3 ==> mode.code() == cell,
        cell > 3 ==> mode == AuditMode::Denials,
{
    AuditMode::from_u8(cell)
}

/// What a caller asked to do.
#[derive(Clone, Copy, Debug, PartialEq, Eq, Structural)]
pub enum Action {
    Read,
    Write,
    Search,
    Watch,
    Ddl,
    Admin,
}

/// Whether an action changes state or administers the server. `search` and
/// `watch` are reads: one ranks documents, the other observes them.
pub open spec fn changes_state(action: Action) -> bool {
    action == Action::Write || action == Action::Ddl || action == Action::Admin
}

pub fn is_write(action: Action) -> (b: bool)
    ensures
        b == changes_state(action),
{
    matches!(action, Action::Write | Action::Ddl | Action::Admin)
}

/// Who a request was made by.
#[derive(Debug)]
pub struct Principal {
    pub user: String,
    /// The readable name the identity provider's claim gave.
    pub display: Option<String>,
    pub roles: Vec<String>,
    /// The server was started with authentication disabled.
    pub unauthenticated: bool,
    /// An identity provider vouched for the user.
    pub federated: bool,
}

/// Whether a decision is recorded.
pub open spec fn wanted(mode: AuditMode, action: Action, allowed: bool) -> bool {
    match mode {
        AuditMode::Off => false,
        AuditMode::Denials => !allowed,
        AuditMode::Writes => !allowed || changes_state(action),
        AuditMode::All => true,
    }
}

/// One authorization decision, as recorded: at `warn` where it is a denial, at
/// `info` where it is not.
#[derive(Debug)]
pub struct AuditRecord {
    pub user: String,
    /// Present only where it says something the user does not.
    pub display: Option<String>,
    pub unauthenticated: bool,
    pub federated: bool,
    /// The roles held. Grants are a union, so no single role decided.
    pub roles: String,
    pub action: Action,
    pub db: String,
    pub collection: String,
    pub allowed: bool,
}

impl AuditRecord {
    /// The word for the decision.
    pub fn decision(&self) -> (word: &'static str)
        ensures
            word@ == (if self.allowed {
                "allow"@
            } else {
                "deny"@
            }),
    {
        if self.allowed {
            "allow"
        } else {
            "deny"
        }
    }
}

/// Record one authorization decision.
pub fn record(
    mode: AuditMode,
    principal: &Principal,
    action: Action,
    db: &str,
    collection: Option<&str>,
    allowed: bool,
) -> (line: Option<AuditRecord>)
    ensures
        line is Some <==> wanted(mode, action, allowed),
        line matches Some(r) ==> {
            &&& r.user@ == principal.user@
            &&& r.display is Some <==> principal.display is Some && principal.display->0@
                != principal.user@
            &&& r.display matches Some(d) ==> d@ == principal.display->0@
            &&& r.unauthenticated == principal.unauthenticated
            &&& r.federated == principal.federated
            &&& r.roles@ == joined(texts(principal.roles@), ","@)
            &&& r.action == action
            &&& r.db@ == db@
            &&& r.collection@ == (match collection {
                Some(name) => name@,
                None => "*"@,
            })
            &&& r.allowed == allowed
        },
{
    let wanted = match mode {
        AuditMode::Off => false,
        AuditMode::Denials => !allowed,
        AuditMode::Writes => !allowed || is_write(action),
        AuditMode::All => true,
    };
    if !wanted {
        return None;
    }
    let display = match &principal.display {
        Some(name) => if *name.as_str() == *principal.user.as_str() {
            None
        } else {
            Some(name.clone())
        },
        None => None,
    };
    let collection = match collection {
        Some(name) => name,
        None => "*",
    };
    Some(
        AuditRecord {
            user: principal.user.clone(),
            display,
            unauthenticated: principal.unauthenticated,
            federated: principal.federated,
            roles: join(&principal.roles, ","),
            action,
            db: db.to_owned(),
            collection: collection.to_owned(),
            allowed,
        },
    )
}

/// What an audit reader needs to know of an embedding provider.
#[derive(Debug)]
pub struct Provider {
    /// The kind of provider.
    pub name: String,
    /// The host its endpoint names: a path can carry a deployment name or a
    /// query string, and the destination is the fact worth recording.
    pub endpoint_host: Option<String>,
    /// The operator's profile it is configured by.
    pub profile: Option<String>,
    /// The name of the variable its key is read from; never a value.
    pub api_key_env: Option<String>,
}

/// A change to where a collection's text is sent, as recorded.
#[derive(Debug)]
pub struct VectorsRecord {
    pub user: String,
    pub unauthenticated: bool,
    pub federated: bool,
    pub action: String,
    pub db: String,
    pub collection: String,
    pub provider: Option<String>,
    pub endpoint_host: Option<String>,
    pub profile: Option<String>,
    pub api_key_env: Option<String>,
}

/// The text of an optional field.
pub open spec fn field(s: Option<String>) -> Option<Seq<char>> {
    match s {
        Some(s) => Some(s@),
        None => None,
    }
}

fn copy_field(s: &Option<String>) -> (c: Option<String>)
    ensures
        field(c) == field(*s),
{
    match s {
        Some(s) => Some(s.clone()),
        None => None,
    }
}

/// Record that a collection's embedding provider was configured or removed.
///
/// Whatever the audit mode: that governs the volume of authorization
/// decisions, and a change to where the node sends data is rare and always
/// worth a line.
pub fn record_vectors(
    principal: &Principal,
    action: &str,
    db: &str,
    collection: &str,
    provider: Option<&Provider>,
) -> (r: VectorsRecord)
    ensures
        r.user@ == principal.user@,
        r.unauthenticated == principal.unauthenticated,
        r.federated == principal.federated,
        r.action@ == action@,
        r.db@ == db@,
        r.collection@ == collection@,
        match provider {
            Some(p) => {
                &&& field(r.provider) == Some(p.name@)
                &&& field(r.endpoint_host) == field(p.endpoint_host)
                &&& field(r.profile) == field(p.profile)
                &&& field(r.api_key_env) == field(p.api_key_env)
            },
            None => {
                &&& r.provider is None
                &&& r.endpoint_host is None
                &&& r.profile is None
                &&& r.api_key_env is None
            },
        },
{
    let (name, endpoint_host, profile, api_key_env) = match provider {
        Some(p) => (
            Some(p.name.clone()),
            copy_field(&p.endpoint_host),
            copy_field(&p.profile),
            copy_field(&p.api_key_env),
        ),
        None => (None, None, None, None),
    };
    VectorsRecord {
        user: principal.user.clone(),
        unauthenticated: principal.unauthenticated,
        federated: principal.federated,
        action: action.to_owned(),
        db: db.to_owned(),
        collection: collection.to_owned(),
        provider: name,
        endpoint_host,
        profile,
        api_key_env,
    }
}

/// No two modes share a name, and none shares a number: both spellings of a
/// mode read back as the mode.
pub proof fn audit_modes_round_trip(a: AuditMode, b: AuditMode)
    ensures
        a.word() == b.word() ==> a == b,
        a.code() == b.code() ==> a == b,
        a.code() <= 3,
{
    reveal_strlit("off");
    reveal_strlit("denials");
    reveal_strlit("writes");
    reveal_strlit("all");
    assert("off"@.len() == 3 && "all"@.len() == 3 && "denials"@.len() == 7 && "writes"@.len() == 6);
    assert("off"@[0] == 'o' && "all"@[0] == 'a');
}

/// Each mode records at least what the one before it does, and every mode but
/// `off` records every denial.
pub proof fn a_louder_mode_records_no_less(action: Action, allowed: bool)
    ensures
        !wanted(AuditMode::Off, action, allowed),
        wanted(AuditMode::Denials, action, allowed) ==> wanted(AuditMode::Writes, action, allowed),
        wanted(AuditMode::Writes, action, allowed) ==> wanted(AuditMode::All, action, allowed),
        !allowed ==> wanted(AuditMode::Denials, action, allowed),
{
}

} // verus!

use vstd::prelude::*;

use crate::text::same_text;

verus! {

/// Transport used to reach a delivery target.
#[derive(Debug, Clone, Copy, PartialEq, Eq, Structural)]
pub enum ProtocolType {
    UDP,
    TCP,
}

impl Default for ProtocolType {
    fn default() -> (r: ProtocolType)
        ensures
            r == ProtocolType::TCP,
    {
        ProtocolType::TCP
    }
}

/// Where reading starts when no checkpoint exists yet.
///
/// `Duration` holds a span back from now, `Absolute` an RFC 3339 instant and
/// `Count` a number of records: forward from the oldest when positive,
/// backward from the newest when negative.
#[derive(Debug, Clone, PartialEq, Eq)]
pub enum History {
    Duration(String),
    Absolute(String),
    Count(i64),
}

impl Default for History {
    fn default() -> (r: History)
        ensures
            r == History::Count(-1i64),
    {
        History::Count(-1)
    }
}

/// How the program runs once its configuration is final.
#[derive(Debug, Clone, Copy, PartialEq, Eq, Structural)]
pub enum RunType {
    Foreground,
    Daemon,
    Print,
    List,
}

impl Default for RunType {
    fn default() -> (r: RunType)
        ensures
            r == RunType::Print,
    {
        RunType::Print
    }
}

/// Kind of remote collector.
#[derive(Debug, Clone, Copy, PartialEq, Eq, Structural)]
pub enum TargetType {
    Filebeat,
}

impl Default for TargetType {
    fn default() -> (r: TargetType)
        ensures
            r == TargetType::Filebeat,
    {
        TargetType::Filebeat
    }
}

/// One delivery target.
#[derive(Debug, Clone, PartialEq, Eq)]
pub struct TargetRecord {
    pub address: String,
    pub port: u32,
    pub protocol: ProtocolType,
    pub target: TargetType,
}

impl Default for TargetRecord {
    fn default() -> (r: TargetRecord)
        ensures
            r.address@ == "127.0.0.1"@,
            r.port == 9000,
            r.protocol == ProtocolType::TCP,
            r.target == TargetType::Filebeat,
    {
        TargetRecord {
            address: String::from_str("127.0.0.1"),
            port: 9000,
            protocol: ProtocolType::default(),
            target: TargetType::default(),
        }
    }
}

/// The settings of the whole program.
#[derive(Debug, Clone, PartialEq, Eq)]
pub struct JDConfig {
    pub configs: Vec<String>,
    pub verbose: isize,
    pub state: String,
    pub run_type: RunType,
    pub history: History,
    pub targets: Vec<TargetRecord>,
}

impl Default for JDConfig {
    fn default() -> (r: JDConfig)
        ensures
            r.configs@.len() == 3,
            r.configs@[0]@ == "/usr/share/journaldeliver/default.yaml"@,
            r.configs@[1]@ == "/var/lib/journaldeliver/default.yaml"@,
            r.configs@[2]@ == "/etc/journaldeliver/default.yaml"@,
            r.verbose == 1,
            r.state@ == "/var/lib/journaldeliver/cursor-location.yaml"@,
            r.run_type == RunType::Print,
            r.history == History::Count(-1i64),
            r.targets@.len() == 1,
            r.targets@[0].address@ == "127.0.0.1"@,
            r.targets@[0].port == 9000,
            r.targets@[0].protocol == ProtocolType::TCP,
            r.targets@[0].target == TargetType::Filebeat,
    {
        let mut configs: Vec<String> = Vec::new();
        configs.push(String::from_str("/usr/share/journaldeliver/default.yaml"));
        configs.push(String::from_str("/var/lib/journaldeliver/default.yaml"));
        configs.push(String::from_str("/etc/journaldeliver/default.yaml"));
        let mut targets: Vec<TargetRecord> = Vec::new();
        targets.push(TargetRecord::default());
        JDConfig {
            configs,
            verbose: 1,
            state: String::from_str("/var/lib/journaldeliver/cursor-location.yaml"),
            run_type: RunType::default(),
            history: History::default(),
            targets,
        }
    }
}

/// The port to deliver to: 9000 when none is set, the set value when it lies
/// in `1..=65534`, else `None`.
pub fn port_from_setting(v: Option<i64>) -> (r: Option<u16>)
    ensures
        r == match v {
            None => Some(9000u16),
            Some(p) => if 1 <= p <= 65534 {
                Some(p as u16)
            } else {
                None
            },
        },
{
    match v {
        None => Some(9000),
        Some(p) => if 1 <= p && p <= 65534 {
            Some(p as u16)
        } else {
            None
        },
    }
}

/// The transport: TCP when none is set, else `tcp` or `udp`; `None` for any
/// other name.
pub fn protocol_from_setting(v: Option<&str>) -> (r: Option<ProtocolType>)
    ensures
        r == match v {
            None => Some(ProtocolType::TCP),
            Some(s) => if s@ == "tcp"@ {
                Some(ProtocolType::TCP)
            } else if s@ == "udp"@ {
                Some(ProtocolType::UDP)
            } else {
                None
            },
        },
{
    match v {
        None => Some(ProtocolType::TCP),
        Some(s) => if same_text(s, "tcp") {
            Some(ProtocolType::TCP)
        } else if same_text(s, "udp") {
            Some(ProtocolType::UDP)
        } else {
            None
        },
    }
}

/// How to run: listing the configuration files or printing the settings
/// come first, else the run mode `foreground` or `daemon`; `None` for any
/// other run mode.
pub fn run_type_from_settings(list: bool, print: bool, run_mode: &str) -> (r: Option<RunType>)
    ensures
        r == if list {
            Some(RunType::List)
        } else if print {
            Some(RunType::Print)
        } else if run_mode@ == "foreground"@ {
            Some(RunType::Foreground)
        } else if run_mode@ == "daemon"@ {
            Some(RunType::Daemon)
        } else {
            None
        },
{
    if list {
        Some(RunType::List)
    } else if print {
        Some(RunType::Print)
    } else if same_text(run_mode, "foreground") {
        Some(RunType::Foreground)
    } else if same_text(run_mode, "daemon") {
        Some(RunType::Daemon)
    } else {
        None
    }
}

/// The history setting from its kind (`duration`, `absolute` or `count`) and
/// the value that goes with that kind; `None` for another kind or a missing
/// value.
pub fn history_from_settings(
    kind: &str,
    duration: Option<String>,
    absolute: Option<String>,
    count: Option<i64>,
) -> (r: Option<History>)
    ensures
        r == if kind@ == "duration"@ {
            match duration {
                Some(d) => Some(History::Duration(d)),
                None => None,
            }
        } else if kind@ == "absolute"@ {
            match absolute {
                Some(a) => Some(History::Absolute(a)),
                None => None,
            }
        } else if kind@ == "count"@ {
            match count {
                Some(n) => Some(History::Count(n)),
                None => None,
            }
        } else {
            None
        },
{
    if same_text(kind, "duration") {
        match duration {
            Some(d) => Some(History::Duration(d)),
            None => None,
        }
    } else if same_text(kind, "absolute") {
        match absolute {
            Some(a) => Some(History::Absolute(a)),
            None => None,
        }
    } else if same_text(kind, "count") {
        match count {
            Some(n) => Some(History::Count(n)),
            None => None,
        }
    } else {
        None
    }
}

pub open spec fn string_views(v: Seq<String>) -> Seq<Seq<char>> {
    v.map_values(|s: String| s@)
}

/// The configuration files that are read, in order: each path where it
/// last occurs in `paths`, and only where the file exists.
pub open spec fn active_files(paths: Seq<Seq<char>>, exists: Seq<bool>) -> Seq<Seq<char>>
    decreases paths.len(),
{
    if paths.len() == 0 {
        Seq::empty()
    } else {
        let rest = active_files(paths.skip(1), exists.skip(1));
        if exists[0] && !paths.skip(1).contains(paths[0]) {
            seq![paths[0]] + rest
        } else {
            rest
        }
    }
}

fn occurs_after(paths: &Vec<String>, i: usize) -> (r: bool)
    requires
        i < paths@.len(),
    ensures
        r == string_views(paths@).skip(i + 1).contains(string_views(paths@)[i as int]),
{
    let ghost v = string_views(paths@);
    let n = paths.len();
    let mut j: usize = i + 1;
    while j < paths.len()
        invariant
            i < j <= paths@.len(),
            v == string_views(paths@),
            forall|k: int| i < k < j ==> v[k] != v[i as int],
        decreases paths.len() - j,
    {
        if same_text(paths[j].as_str(), paths[i].as_str()) {
            assert(v.skip(i + 1)[j - i - 1] == v[i as int]);
            return true;
        }
        j = j + 1;
    }
    assert forall|k: int| 0 <= k < v.skip(i + 1).len() implies #[trigger] v.skip(i + 1)[k] != v[i as int] by {
        assert(v.skip(i + 1)[k] == v[i + 1 + k]);
    }
    false
}

/// Picks the configuration files to read from the listed paths and whether
/// each exists: a path listed twice counts at its last place, and a missing
/// file is passed over.
pub fn active_config_files(paths: &Vec<String>, exists: &Vec<bool>) -> (r: Vec<String>)
    requires
        paths@.len() == exists@.len(),
    ensures
        string_views(r@) == active_files(string_views(paths@), exists@),
{
    let ghost v = string_views(paths@);
    let mut out: Vec<String> = Vec::new();
    let mut i: usize = 0;
    assert(v.skip(0) =~= v);
    assert(exists@.skip(0) =~= exists@);
    while i < paths.len()
        invariant
            i <= paths@.len(),
            paths@.len() == exists@.len(),
            v == string_views(paths@),
            string_views(out@) + active_files(v.skip(i as int), exists@.skip(i as int))
                == active_files(v, exists@),
        decreases paths.len() - i,
    {
        let ghost before = string_views(out@);
        let ghost tail = v.skip(i as int);
        let ghost etail = exists@.skip(i as int);
        assert(tail.skip(1) =~= v.skip(i + 1));
        assert(etail.skip(1) =~= exists@.skip(i + 1));
        assert(tail[0] == v[i as int]);
        assert(etail[0] == exists@[i as int]);
        let later = occurs_after(paths, i);
        if exists[i] && !later {
            out.push(paths[i].clone());
            assert(string_views(out@) =~= before.push(v[i as int]));
            assert(string_views(out@) + active_files(v.skip(i + 1), exists@.skip(i + 1)) =~= before
                + active_files(tail, etail));
        }
        i = i + 1;
    }
    assert(v.skip(i as int) =~= Seq::<Seq<char>>::empty());
    assert(string_views(out@) + Seq::<Seq<char>>::empty() =~= string_views(out@));
    out
}

} // verus!

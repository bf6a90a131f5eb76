//! Session management: where sessions are stored, which stored files are
//! sessions, and the summary of a session.

use vstd::prelude::*;
use crate::text::{byte_prefix, decimal, decimal_string, join2, join3, prefix_str, truncatable, utf8_len, string_views, chars_of};
use crate::clock::{utc_formatted, Timestamp};
use crate::models::session::{Decision, Session};

verus! {

/// Errors during session operations; failures of the filesystem or of JSON
/// are kept as their messages.
#[derive(Debug, Clone, PartialEq)]
pub enum SessionError {
    NotFound(String),
    PersistenceError(String),
    RestoreError(String),
    Io(String),
    Serialization(String),
}

/// The message of a session error.
pub open spec fn session_error_text(e: SessionError) -> Seq<char> {
    match e {
        SessionError::NotFound(m) => "Session not found: "@ + m@,
        SessionError::PersistenceError(m) => "Failed to persist session: "@ + m@,
        SessionError::RestoreError(m) => "Failed to restore session: "@ + m@,
        SessionError::Io(m) => "IO error: "@ + m@,
        SessionError::Serialization(m) => "Serialization error: "@ + m@,
    }
}

impl SessionError {
    /// The error's message.
    pub fn message(&self) -> (r: String)
        ensures
            r@ == session_error_text(*self),
    {
        match self {
            SessionError::NotFound(m) => join2("Session not found: ", m.as_str()),
            SessionError::PersistenceError(m) => join2("Failed to persist session: ", m.as_str()),
            SessionError::RestoreError(m) => join2("Failed to restore session: ", m.as_str()),
            SessionError::Io(m) => join2("IO error: ", m.as_str()),
            SessionError::Serialization(m) => join2("Serialization error: ", m.as_str()),
        }
    }
}

/// Manages where sessions are stored.
#[derive(Debug, Clone)]
pub struct SessionManager {
    pub storage_path: String,
}

/// The name of the file a session is stored in.
pub open spec fn session_file_name(session_id: Seq<char>) -> Seq<char> {
    session_id + ".json"@
}

/// The position of the last `.` in `s`, if any.
pub open spec fn last_dot(s: Seq<char>) -> Option<int>
    decreases s.len(),
{
    if s.len() == 0 {
        None
    } else if s.last() == '.' {
        Some(s.len() - 1)
    } else {
        last_dot(s.drop_last())
    }
}

/// The stem of a file name whose extension is `json`: the part before the
/// last dot, when that dot is not the name's first character and `json`
/// follows it.
pub open spec fn json_stem(name: Seq<char>) -> Option<Seq<char>> {
    match last_dot(name) {
        Some(k) => if k > 0 && name.subrange(k + 1, name.len() as int) == "json"@ {
            Some(name.take(k))
        } else {
            None
        },
        None => None,
    }
}

/// The session identifiers among the names of the stored files, in order.
pub open spec fn session_ids(names: Seq<Seq<char>>) -> Seq<Seq<char>>
    decreases names.len(),
{
    if names.len() == 0 {
        seq![]
    } else {
        session_ids(names.drop_last()) + match json_stem(names.last()) {
            Some(s) => seq![s],
            None => seq![],
        }
    }
}

/// A stored session is listed under its identifier: the name of the file a
/// session with a non-empty identifier is stored in gives the identifier back.
pub proof fn stored_session_listed(id: Seq<char>)
    requires
        id.len() > 0,
    ensures
        json_stem(session_file_name(id)) == Some(id),
        session_ids(seq![session_file_name(id)]) == seq![id],
{
    reveal_strlit(".json");
    reveal_strlit("json");
    let name = session_file_name(id);
    let k = id.len() as int;
    assert(name[k] == '.');
    let d1 = name.drop_last();
    let d2 = d1.drop_last();
    let d3 = d2.drop_last();
    let d4 = d3.drop_last();
    assert(d4 =~= name.take(k + 1));
    assert(last_dot(d4) == Some(k));
    assert(last_dot(d3) == Some(k));
    assert(last_dot(d2) == Some(k));
    assert(last_dot(d1) == Some(k));
    assert(last_dot(name) == Some(k));
    assert(name.subrange(k + 1, name.len() as int) =~= "json"@);
    assert(name.take(k) =~= id);
    let names = seq![name];
    assert(names.drop_last() =~= Seq::<Seq<char>>::empty());
    assert(session_ids(names.drop_last()) =~= Seq::<Seq<char>>::empty());
    assert(session_ids(names) =~= seq![id]);
}

/// The line of a decision in a summary.
pub open spec fn summary_decision_line(n: nat, d: Decision) -> Seq<char> {
    "  "@ + decimal(n) + ". ["@ + utc_formatted(d.timestamp.spec_secs(), d.timestamp.spec_nanos(), "%H:%M:%S"@)
        + "] "@ + d.description@ + "\n"@
}

/// The lines of the first `k` decisions.
pub open spec fn summary_decision_lines(ds: Seq<Decision>, k: int) -> Seq<char>
    decreases k,
{
    if k <= 0 {
        seq![]
    } else {
        summary_decision_lines(ds, k - 1) + summary_decision_line(k as nat, ds[k - 1])
    }
}

/// `%Y-%m-%d %H:%M` of a point in time.
pub open spec fn date_time_text(t: Timestamp) -> Seq<char> {
    utc_formatted(t.spec_secs(), t.spec_nanos(), "%Y-%m-%d %H:%M"@)
}

/// The summary of a session.
pub open spec fn session_summary_text(s: Session) -> Seq<char> {
    "Session Summary: "@ + byte_prefix(s.session_id@, 8) + "\n"@ + "Domain: "@ + s.context_repository_id@ + "\n"@
        + "Scenario: "@ + s.scenario_id@ + "\n"@ + "Duration: "@ + date_time_text(s.created_at) + " to "@
        + date_time_text(s.last_accessed_at) + "\n"@ + "Decisions: "@ + decimal(s.decision_history@.len()) + "\n"@
        + "Consultations: "@ + decimal(s.consultation_history@.len()) + "\n"@ + "Meetings: "@
        + decimal(s.meeting_history@.len()) + "\n"@ + if s.decision_history@.len() > 0 {
            "\nDecisions:\n"@ + summary_decision_lines(s.decision_history@, s.decision_history@.len() as int)
        } else {
            Seq::empty()
        }
}

impl SessionManager {
    /// A manager storing sessions under the given directory.
    pub fn new(storage_path: &str) -> (r: Self)
        ensures
            r.storage_path@ == storage_path@,
    {
        SessionManager { storage_path: String::from_str(storage_path) }
    }

    /// The name of the file a session is stored in.
    pub fn session_file(session_id: &str) -> (r: String)
        ensures
            r@ == session_file_name(session_id@),
    {
        join2(session_id, ".json")
    }

    /// The stem of a file name with the `json` extension.
    fn stem_of(name: &String) -> (r: Option<String>)
        ensures
            r matches Some(s) ==> json_stem(name@) == Some(s@),
            r is None ==> json_stem(name@) is None,
    {
        let cs = chars_of(name.as_str());
        let mut i: usize = cs.len();
        assert(cs@.take(i as int) =~= cs@);
        while i > 0 && cs[i - 1] != '.'
            invariant
                i <= cs@.len(),
                cs@ == name@,
                last_dot(cs@.take(i as int)) == last_dot(cs@),
            decreases i,
        {
            assert(cs@.take(i as int).drop_last() =~= cs@.take(i - 1));
            i = i - 1;
        }
        proof {
            assert(cs@.take(cs@.len() as int) =~= cs@);
        }
        if i == 0 {
            assert(cs@.take(0) =~= Seq::<char>::empty());
            return None;
        }
        let k = i - 1;
        assert(last_dot(cs@.take(i as int)) == Some(k as int));
        if k == 0 {
            return None;
        }
        let ext = crate::text::slice_chars(&cs, i, cs.len());
        assert(ext@ =~= cs@.subrange(k + 1, cs@.len() as int));
        if !crate::text::chars_eq(&ext, "json") {
            return None;
        }
        let stem = crate::text::slice_chars(&cs, 0, k);
        assert(stem@ =~= cs@.take(k as int));
        Some(crate::text::string_of(&stem))
    }

    /// The session identifiers among the names of the stored files: the
    /// stems of the names with the `json` extension, in order.
    pub fn session_ids_from(names: &Vec<String>) -> (r: Vec<String>)
        ensures
            string_views(r@) == session_ids(string_views(names@)),
    {
        let ghost ns = string_views(names@);
        let mut r: Vec<String> = Vec::new();
        let mut i: usize = 0;
        while i < names.len()
            invariant
                i <= names@.len(),
                ns == string_views(names@),
                string_views(r@) == session_ids(ns.take(i as int)),
            decreases names@.len() - i,
        {
            assert(ns.take(i + 1).drop_last() =~= ns.take(i as int));
            assert(ns.take(i + 1).last() == names@[i as int]@);
            let ghost before = r@;
            match Self::stem_of(&names[i]) {
                Some(s) => {
                    r.push(s);
                    assert(string_views(r@) =~= string_views(before).push(s@));
                },
                None => {},
            }
            assert(string_views(r@) =~= session_ids(ns.take(i + 1)));
            i = i + 1;
        }
        assert(ns.take(i as int) =~= ns);
        r
    }

    /// The summary of a session: identifier, domain, scenario, duration,
    /// counts, then each decision with its time.
    pub fn generate_summary(session: &Session) -> (s: String)
        requires
            utf8_len(session.session_id@) >= 8,
            truncatable(session.session_id@, 8),
        ensures
            s@ == session_summary_text(*session),
    {
        let id = prefix_str(session.session_id.as_str(), 8);
        let mut s = join3("Session Summary: ", id.as_str(), "\n");
        s.append("Domain: ");
        s.append(session.context_repository_id.as_str());
        s.append("\n");
        s.append("Scenario: ");
        s.append(session.scenario_id.as_str());
        s.append("\n");
        let from = session.created_at.date_hour_minute();
        let to = session.last_accessed_at.date_hour_minute();
        s.append("Duration: ");
        s.append(from.as_str());
        s.append(" to ");
        s.append(to.as_str());
        s.append("\n");
        let d = decimal_string(session.decision_history.len() as u64);
        s.append("Decisions: ");
        s.append(d.as_str());
        s.append("\n");
        let c = decimal_string(session.consultation_history.len() as u64);
        s.append("Consultations: ");
        s.append(c.as_str());
        s.append("\n");
        let m = decimal_string(session.meeting_history.len() as u64);
        s.append("Meetings: ");
        s.append(m.as_str());
        s.append("\n");
        if session.decision_history.len() > 0 {
            s.append("\nDecisions:\n");
            let ghost s0 = s@;
            let ds = &session.decision_history;
            let mut i: usize = 0;
            while i < ds.len()
                invariant
                    i <= ds@.len(),
                    s@ == s0 + summary_decision_lines(ds@, i as int),
                decreases ds@.len() - i,
            {
                let n = decimal_string((i + 1) as u64);
                let t = ds[i].timestamp.hour_minute_second();
                s.append("  ");
                s.append(n.as_str());
                s.append(". [");
                s.append(t.as_str());
                s.append("] ");
                s.append(ds[i].description.as_str());
                s.append("\n");
                i = i + 1;
            }
        }
        s
    }
}

} // verus!

//! SSH session bookkeeping: the table of open sessions and which writer
//! thread each command goes to, the choice of authentication, and what the
//! reader thread does with what it reads.

use vstd::prelude::*;
use vstd::utf8::encode_utf8;
use crate::foreign::{
    base64_decode, base64_decode_error_text, base64_encode, base64_standard_decoding,
    base64_standard_encoding,
};

verus! {

/// A command for a session's writer thread.
#[derive(Debug)]
pub enum SshCommand {
    Write(Vec<u8>),
    Resize(u32, u32),
    Disconnect,
}

/// An open session: its id, the stored connection it was opened from, and
/// the channel to its writer thread.
pub struct SshSession {
    pub session_id: String,
    pub connection_id: String,
    pub writer: tokio::sync::mpsc::Sender<SshCommand>,
}

/// The first session in `s` with this id.
pub open spec fn find_session(s: Seq<SshSession>, id: Seq<char>) -> Option<int>
    decreases s.len(),
{
    if s.len() == 0 {
        None
    } else if s[0].session_id@ == id {
        Some(0)
    } else {
        match find_session(s.drop_first(), id) {
            Some(i) => Some(i + 1),
            None => None,
        }
    }
}

/// No two sessions share an id.
pub open spec fn ids_distinct(s: Seq<SshSession>) -> bool {
    forall|i: int, j: int|
        0 <= i < s.len() && 0 <= j < s.len() && i != j ==> s[i].session_id@ != s[j].session_id@
}

proof fn lemma_find_session(s: Seq<SshSession>, id: Seq<char>, i: int)
    requires
        0 <= i <= s.len(),
        forall|j: int| 0 <= j < i ==> s[j].session_id@ != id,
        i < s.len() ==> s[i].session_id@ == id,
    ensures
        find_session(s, id) == (if i < s.len() {
            Some(i)
        } else {
            None::<int>
        }),
    decreases i,
{
    if i > 0 {
        lemma_find_session(s.drop_first(), id, i - 1);
    }
}

/// The message for an unknown session id.
pub open spec fn session_not_found_text(id: Seq<char>) -> Seq<char> {
    "Session '"@ + id + "' not found"@
}

/// A command for the writer channel of the session at `session` in the
/// table.
#[derive(Debug)]
pub struct Dispatch {
    pub session: usize,
    pub command: SshCommand,
}

/// The table of open SSH sessions. It decides which writer channel gets
/// which command; the caller hands the command to that channel
/// (`Sender::try_send`) and reports the outcome through `write_outcome` or
/// `resize_outcome`.
pub struct SshManager {
    sessions: Vec<SshSession>,
}

impl View for SshManager {
    type V = Seq<SshSession>;

    closed spec fn view(&self) -> Seq<SshSession> {
        self.sessions@
    }
}

fn not_found(id: &str) -> (t: String)
    ensures
        t@ == session_not_found_text(id@),
{
    let mut t = String::from_str("Session '");
    t.append(id);
    t.append("' not found");
    t
}

impl SshManager {
    /// No two open sessions share an id.
    #[verifier::type_invariant]
    closed spec fn table_ids_distinct(self) -> bool {
        ids_distinct(self.sessions@)
    }

    /// An empty table.
    pub fn new() -> (m: Self)
        ensures
            m@ == Seq::<SshSession>::empty(),
            ids_distinct(m@),
    {
        SshManager { sessions: Vec::new() }
    }

    /// The number of open sessions.
    pub fn len(&self) -> (n: usize)
        ensures
            n == self@.len(),
    {
        self.sessions.len()
    }

    fn position(&self, id: &str) -> (found: Option<usize>)
        ensures
            match found {
                Some(i) => find_session(self@, id@) == Some(i as int) && i < self@.len(),
                None => find_session(self@, id@) is None,
            },
    {
        let key = String::from_str(id);
        let n = self.sessions.len();
        let mut i: usize = 0;
        while i < n
            invariant
                n == self.sessions@.len(),
                key@ == id@,
                0 <= i <= n,
                forall|j: int| 0 <= j < i ==> self.sessions@[j].session_id@ != id@,
            decreases n - i,
        {
            if self.sessions[i].session_id == key {
                proof {
                    lemma_find_session(self.sessions@, id@, i as int);
                }
                return Some(i);
            }
            i = i + 1;
        }
        proof {
            lemma_find_session(self.sessions@, id@, n as int);
        }
        None
    }

    /// Whether a session with this id is open.
    pub fn contains(&self, session_id: &str) -> (open: bool)
        ensures
            open == find_session(self@, session_id@) is Some,
    {
        self.position(session_id).is_some()
    }

    /// The connection a session was opened from.
    pub fn connection_of(&self, session_id: &str) -> (conn: Option<String>)
        ensures
            match find_session(self@, session_id@) {
                Some(i) => conn == Some(self@[i].connection_id),
                None => conn is None,
            },
    {
        match self.position(session_id) {
            Some(i) => Some(self.sessions[i].connection_id.clone()),
            None => None,
        }
    }

    /// The writer channel of the session at `i`, if there is one.
    pub fn writer(&self, i: usize) -> (w: Option<&tokio::sync::mpsc::Sender<SshCommand>>)
        ensures
            match w {
                Some(w) => i < self@.len() && *w == self@[i as int].writer,
                None => i >= self@.len(),
            },
    {
        if i < self.sessions.len() {
            Some(&self.sessions[i].writer)
        } else {
            None
        }
    }

    /// Records a session, replacing one with the same id.
    pub fn insert(&mut self, session: SshSession)
        ensures
            match find_session(old(self)@, session.session_id@) {
                Some(i) => final(self)@ == old(self)@.update(i, session),
                None => final(self)@ == old(self)@.push(session),
            },
            ids_distinct(final(self)@),
    {
        proof {
            use_type_invariant(&*self);
        }
        let found = self.position(session.session_id.as_str());
        let mut sessions: Vec<SshSession> = Vec::new();
        std::mem::swap(&mut sessions, &mut self.sessions);
        match found {
            Some(i) => {
                proof {
                    lemma_find_position(sessions@, session.session_id@, i as int);
                }
                sessions.set(i, session);
            },
            None => {
                proof {
                    lemma_find_none(sessions@, session.session_id@);
                }
                sessions.push(session);
            },
        }
        self.sessions = sessions;
    }

    /// What sending bytes to a session comes to: its writer channel is to be
    /// handed `Write` with exactly these bytes.
    pub fn write(&self, session_id: &str, data: &[u8]) -> (dispatch: Result<Dispatch, String>)
        ensures
            match find_session(self@, session_id@) {
                None => dispatch matches Err(t) && t@ == session_not_found_text(session_id@),
                Some(i) => dispatch matches Ok(d) && d.session == i && i < self@.len() && (d.command matches SshCommand::Write(
                    v,
                ) && v@ == data@),
            },
    {
        match self.position(session_id) {
            None => Err(not_found(session_id)),
            Some(i) => {
                let mut bytes: Vec<u8> = Vec::new();
                crate::proxy::socks5::append_bytes(&mut bytes, data);
                assert(bytes@ =~= data@);
                Ok(Dispatch { session: i, command: SshCommand::Write(bytes) })
            },
        }
    }

    /// What resizing a session's terminal comes to: its writer channel is to
    /// be handed `Resize(cols, rows)`.
    pub fn resize(&self, session_id: &str, cols: u32, rows: u32) -> (dispatch: Result<
        Dispatch,
        String,
    >)
        ensures
            match find_session(self@, session_id@) {
                None => dispatch matches Err(t) && t@ == session_not_found_text(session_id@),
                Some(i) => dispatch matches Ok(d) && d.session == i && i < self@.len() && (d.command matches SshCommand::Resize(
                    c,
                    r,
                ) && c == cols && r == rows),
            },
    {
        match self.position(session_id) {
            None => Err(not_found(session_id)),
            Some(i) => Ok(Dispatch { session: i, command: SshCommand::Resize(cols, rows) }),
        }
    }

    /// Removes a session. The removed session's writer channel is to be
    /// handed the returned command, `Disconnect`; whether it takes it does
    /// not change the result.
    pub fn disconnect(&mut self, session_id: &str) -> (done: Result<(SshSession, SshCommand), String>)
        ensures
            match find_session(old(self)@, session_id@) {
                Some(i) => {
                    &&& done matches Ok((s, c)) && s == old(self)@[i] && c is Disconnect
                    &&& final(self)@ == old(self)@.remove(i)
                },
                None => {
                    &&& done matches Err(t) && t@ == session_not_found_text(session_id@)
                    &&& final(self)@ == old(self)@
                },
            },
            ids_distinct(final(self)@),
            find_session(final(self)@, session_id@) is None,
    {
        proof {
            use_type_invariant(&*self);
            law_disconnect_then_absent(self@, session_id@);
        }
        match self.position(session_id) {
            None => Err(not_found(session_id)),
            Some(i) => {
                let ghost before = self@;
                let mut sessions: Vec<SshSession> = Vec::new();
                std::mem::swap(&mut sessions, &mut self.sessions);
                let session = sessions.remove(i);
                proof {
                    assert(sessions@ == before.remove(i as int));
                    lemma_remove_keeps_distinct(before, i as int);
                }
                self.sessions = sessions;
                Ok((session, SshCommand::Disconnect))
            },
        }
    }
}

/// The result of a write, given the outcome of handing the command to the
/// writer channel (a failure carries the channel's error text).
pub fn write_outcome(sent: Result<(), String>) -> (r: Result<(), String>)
    ensures
        match sent {
            Ok(()) => r is Ok,
            Err(e) => r matches Err(t) && t@ == "Failed to send write command: "@ + e@,
        },
{
    match sent {
        Ok(()) => Ok(()),
        Err(e) => {
            let mut t = String::from_str("Failed to send write command: ");
            t.append(e.as_str());
            Err(t)
        },
    }
}

/// The result of a resize, given the outcome of handing the command to the
/// writer channel.
pub fn resize_outcome(sent: Result<(), String>) -> (r: Result<(), String>)
    ensures
        match sent {
            Ok(()) => r is Ok,
            Err(e) => r matches Err(t) && t@ == "Failed to send resize command: "@ + e@,
        },
{
    match sent {
        Ok(()) => Ok(()),
        Err(e) => {
            let mut t = String::from_str("Failed to send resize command: ");
            t.append(e.as_str());
            Err(t)
        },
    }
}

/// What the writer thread does with the next command (`None` when every
/// sender is gone).
#[derive(Debug)]
pub enum WriterAction {
    /// Write these bytes to the channel and flush.
    WriteAll(Vec<u8>),
    /// Ask the server for this terminal size.
    ResizePty(u32, u32),
    /// Send end of file, close, and wait for the close.
    Close,
}

/// Picks the writer thread's action for the next command.
pub fn writer_step(command: Option<SshCommand>) -> (action: WriterAction)
    ensures
        match command {
            Some(SshCommand::Write(d)) => action matches WriterAction::WriteAll(v) && v@ == d@,
            Some(SshCommand::Resize(c, r)) => action matches WriterAction::ResizePty(c2, r2) && c2
                == c && r2 == r,
            _ => action is Close,
        },
{
    match command {
        Some(SshCommand::Write(d)) => WriterAction::WriteAll(d),
        Some(SshCommand::Resize(c, r)) => WriterAction::ResizePty(c, r),
        _ => WriterAction::Close,
    }
}

/// How an action of the writer thread went.
#[derive(Debug)]
pub enum WriterOutcome {
    /// Bytes were written (true) or writing failed (false).
    Wrote(bool),
    /// A resize was requested; its outcome is not looked at.
    Resized,
    /// The channel was closed.
    Closed,
}

/// Whether the writer thread goes on: after a successful write or a resize,
/// not after a failed write or the close.
pub fn writer_continues(outcome: WriterOutcome) -> (more: bool)
    ensures
        more == (outcome matches WriterOutcome::Wrote(true) || outcome is Resized),
{
    match outcome {
        WriterOutcome::Wrote(ok) => ok,
        WriterOutcome::Resized => true,
        WriterOutcome::Closed => false,
    }
}

proof fn lemma_find_position(s: Seq<SshSession>, id: Seq<char>, i: int)
    requires
        find_session(s, id) == Some(i),
    ensures
        0 <= i < s.len(),
        s[i].session_id@ == id,
        forall|j: int| 0 <= j < i ==> s[j].session_id@ != id,
    decreases s.len(),
{
    if s.len() > 0 && s[0].session_id@ != id {
        lemma_find_position(s.drop_first(), id, i - 1);
        assert forall|j: int| 0 <= j < i implies s[j].session_id@ != id by {
            if j > 0 {
                assert(s[j] == s.drop_first()[j - 1]);
            }
        }
    }
}

proof fn lemma_find_none(s: Seq<SshSession>, id: Seq<char>)
    requires
        find_session(s, id) is None,
    ensures
        forall|j: int| 0 <= j < s.len() ==> s[j].session_id@ != id,
    decreases s.len(),
{
    if s.len() > 0 {
        lemma_find_none(s.drop_first(), id);
        assert forall|j: int| 0 <= j < s.len() implies s[j].session_id@ != id by {
            if j > 0 {
                assert(s[j] == s.drop_first()[j - 1]);
            }
        }
    }
}

/// How a session authenticates.
#[derive(Debug)]
pub enum SshAuth {
    /// With this password.
    Password(String),
    /// With this private key (PEM text).
    Key(String),
}

/// Picks the authentication for a connection's settings: `password` needs a
/// password, `key` needs a private key, any other type is refused.
pub fn ssh_auth(auth_type: &str, password: Option<&str>, private_key: Option<&str>) -> (auth: Result<
    SshAuth,
    String,
>)
    ensures
        auth_type@ == "password"@ ==> match password {
            Some(p) => auth matches Ok(SshAuth::Password(q)) && q@ == p@,
            None => auth matches Err(t) && t@ == "Password required for password auth"@,
        },
        auth_type@ == "key"@ ==> match private_key {
            Some(k) => auth matches Ok(SshAuth::Key(q)) && q@ == k@,
            None => auth matches Err(t) && t@ == "Private key required for key auth"@,
        },
        auth_type@ != "password"@ && auth_type@ != "key"@ ==> (auth matches Err(t) && t@
            == "Unsupported auth type: "@ + auth_type@),
{
    proof {
        reveal_strlit("key");
        reveal_strlit("password");
        assert("key"@.len() == 3);
        assert("password"@.len() == 8);
        assert("key"@ != "password"@);
    }
    let kind = String::from_str(auth_type);
    if kind == String::from_str("password") {
        match password {
            Some(p) => Ok(SshAuth::Password(String::from_str(p))),
            None => Err(String::from_str("Password required for password auth")),
        }
    } else if kind == String::from_str("key") {
        match private_key {
            Some(k) => Ok(SshAuth::Key(String::from_str(k))),
            None => Err(String::from_str("Private key required for key auth")),
        }
    } else {
        let mut t = String::from_str("Unsupported auth type: ");
        t.append(auth_type);
        Err(t)
    }
}

/// The name of the temporary file a private key is written to for a session.
pub fn temp_key_file_name(session_id: &str) -> (name: String)
    ensures
        name@ == "neoshell_key_"@ + session_id@,
{
    let mut t = String::from_str("neoshell_key_");
    t.append(session_id);
    t
}

/// Terminal output of a session, base64-encoded for the frontend.
#[derive(Clone, Debug)]
pub struct SshDataEvent {
    pub session_id: String,
    pub data: String,
}

/// Notice that a session's output ended.
#[derive(Clone, Debug)]
pub struct SshCloseEvent {
    pub session_id: String,
}

/// The outcome of one read from a session's channel.
#[derive(Debug)]
pub enum ChannelRead {
    /// The channel reported end of file before reading.
    Eof,
    /// These bytes were read (none means end of file).
    Data(Vec<u8>),
    /// The read timed out or would block.
    TimedOut,
    /// The read failed otherwise.
    Failed,
}

/// What the reader thread does next.
#[derive(Debug)]
pub enum ReaderAction {
    /// Send this output to the frontend and read again.
    Emit(SshDataEvent),
    /// Read again.
    Continue,
    /// Stop reading and announce the close.
    Stop,
}

/// Decides what the reader thread does with a read: output is sent on as
/// base64, a timeout reads again, anything else ends the session's output.
pub fn reader_step(session_id: &str, read: ChannelRead) -> (action: ReaderAction)
    requires
        read matches ChannelRead::Data(d) ==> (d@.len() / 3) * 4 + 4 <= usize::MAX,
    ensures
        match read {
            ChannelRead::Data(d) => if d@.len() > 0 {
                action matches ReaderAction::Emit(ev) && ev.session_id@ == session_id@
                    && ev.data@ == base64_standard_encoding(d@)
            } else {
                action is Stop
            },
            ChannelRead::TimedOut => action is Continue,
            _ => action is Stop,
        },
{
    match read {
        ChannelRead::Data(d) => {
            if d.len() > 0 {
                ReaderAction::Emit(
                    SshDataEvent {
                        session_id: String::from_str(session_id),
                        data: base64_encode(d.as_slice()),
                    },
                )
            } else {
                ReaderAction::Stop
            }
        },
        ChannelRead::TimedOut => ReaderAction::Continue,
        _ => ReaderAction::Stop,
    }
}

/// The message for terminal input that is not valid base64.
pub open spec fn bad_input_text(data: Seq<char>) -> Seq<char> {
    "Failed to decode base64 data: "@ + base64_decode_error_text(encode_utf8(data))
}

/// Decodes terminal input, which the frontend sends base64-encoded.
pub fn decode_terminal_input(data: &str) -> (bytes: Result<Vec<u8>, String>)
    ensures
        match base64_standard_decoding(encode_utf8(data@)) {
            Some(v) => bytes matches Ok(w) && w@ == v,
            None => bytes matches Err(t) && t@ == bad_input_text(data@),
        },
{
    match base64_decode(data.as_bytes()) {
        Ok(v) => Ok(v),
        Err(e) => {
            let mut t = String::from_str("Failed to decode base64 data: ");
            t.append(e.as_str());
            Err(t)
        },
    }
}

} // verus!

verus! {

/// After a session is recorded (in a table without duplicate ids), looking
/// its id up finds it.
pub proof fn law_insert_then_find(s: Seq<SshSession>, session: SshSession)
    ensures
        match find_session(s, session.session_id@) {
            Some(i) => find_session(s.update(i, session), session.session_id@) == Some(i)
                && s.update(i, session)[i] == session,
            None => find_session(s.push(session), session.session_id@) == Some(s.len() as int)
                && s.push(session)[s.len() as int] == session,
        },
{
    let id = session.session_id@;
    match find_session(s, id) {
        Some(i) => {
            lemma_find_position(s, id, i);
            lemma_find_session(s.update(i, session), id, i);
        },
        None => {
            lemma_find_none(s, id);
            lemma_find_session(s.push(session), id, s.len() as int);
        },
    }
}

/// Once a session is disconnected from a table without duplicate ids, its
/// id is no longer found, so writes and resizes to it report it missing.
proof fn lemma_remove_keeps_distinct(s: Seq<SshSession>, i: int)
    requires
        ids_distinct(s),
        0 <= i < s.len(),
    ensures
        ids_distinct(s.remove(i)),
{
    let r = s.remove(i);
    assert forall|a: int, b: int|
        0 <= a < r.len() && 0 <= b < r.len() && a != b implies r[a].session_id@
        != r[b].session_id@ by {
        let a2 = if a < i { a } else { a + 1 };
        let b2 = if b < i { b } else { b + 1 };
        assert(r[a] == s[a2]);
        assert(r[b] == s[b2]);
    }
}

pub proof fn law_disconnect_then_absent(s: Seq<SshSession>, id: Seq<char>)
    requires
        ids_distinct(s),
    ensures
        find_session(s, id) matches Some(i) ==> find_session(s.remove(i), id) is None,
{
    if let Some(i) = find_session(s, id) {
        lemma_find_position(s, id, i);
        let r = s.remove(i);
        assert forall|j: int| 0 <= j < r.len() implies r[j].session_id@ != id by {
            if j < i {
                assert(r[j] == s[j]);
            } else {
                assert(r[j] == s[j + 1]);
            }
        }
        lemma_find_session(r, id, r.len() as int);
    }
}

} // verus!

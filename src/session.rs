//! The managed remote session, as a state machine over the events that the
//! transport reports, and the values that its operations produce.
//!
//! The transport itself (socket, handshake, channels) is driven by the
//! caller, which hands the outcome of each step to the session.

use vstd::prelude::*;

verus! {

/// A remote endpoint: where the session connects.
#[derive(Debug, Clone)]
pub struct Endpoint {
    pub destination: String,
    pub port: u16,
}

/// One way of authenticating; exactly one is tried per attempt.
#[derive(Debug, Clone)]
pub enum Credential {
    Agent,
    Password(String),
    PublicKey { public_path: String, private_path: String },
}

#[derive(Debug, Clone, Copy, PartialEq, Eq, Structural)]
pub enum SessionError {
    /// The socket or the protocol handshake failed.
    Transport,
    /// The credential was rejected, or the transport did not mark the
    /// session authenticated.
    Auth,
    /// The operation needs a connected session.
    NotConnected,
    /// The operation needs an authenticated session.
    NotAuthenticated,
    /// A file transfer failed.
    Transfer,
    /// The remote path is not a regular file.
    NotAFile,
}

#[derive(Debug, Clone, Copy, PartialEq, Eq, Structural)]
pub enum SessionState {
    Disconnected,
    Connected,
    Authenticated,
    Failed(SessionError),
}

/// The session's record: its endpoint, which never changes, its state, and
/// what the last handshake and authentication established.
#[derive(Debug)]
pub struct RemoteSession {
    endpoint: Endpoint,
    state: SessionState,
    host_key: Option<String>,
    user: Option<String>,
}

impl RemoteSession {
    pub closed spec fn endpoint_view(&self) -> (Seq<char>, u16) {
        (self.endpoint.destination@, self.endpoint.port)
    }

    pub closed spec fn state_view(&self) -> SessionState {
        self.state
    }

    pub closed spec fn host_key_view(&self) -> Option<Seq<char>> {
        match self.host_key {
            Some(k) => Some(k@),
            None => None,
        }
    }

    pub closed spec fn user_view(&self) -> Option<Seq<char>> {
        match self.user {
            Some(u) => Some(u@),
            None => None,
        }
    }

    /// A host key is known once a handshake succeeded, and a user once the
    /// session is authenticated.
    pub closed spec fn wf(&self) -> bool {
        &&& (self.state == SessionState::Connected || self.state == SessionState::Authenticated)
            ==> self.host_key is Some
        &&& self.state == SessionState::Authenticated <==> self.user is Some
    }

    pub fn new(endpoint: Endpoint) -> (r: Self)
        ensures
            r.wf(),
            r.endpoint_view() == (endpoint.destination@, endpoint.port),
            r.state_view() == SessionState::Disconnected,
            r.host_key_view() is None,
            r.user_view() is None,
    {
        RemoteSession { endpoint, state: SessionState::Disconnected, host_key: None, user: None }
    }

    pub fn endpoint(&self) -> (r: &Endpoint)
        ensures
            (r.destination@, r.port) == self.endpoint_view(),
    {
        &self.endpoint
    }

    pub fn state(&self) -> (r: SessionState)
        ensures
            r == self.state_view(),
    {
        self.state
    }

    pub fn host_key(&self) -> (r: Option<&String>)
        ensures
            r matches Some(k) ==> self.host_key_view() == Some(k@),
            r is None ==> self.host_key_view() is None,
    {
        match &self.host_key {
            Some(k) => Some(k),
            None => None,
        }
    }

    pub fn user(&self) -> (r: Option<&String>)
        ensures
            r matches Some(u) ==> self.user_view() == Some(u@),
            r is None ==> self.user_view() is None,
    {
        match &self.user {
            Some(u) => Some(u),
            None => None,
        }
    }

    /// Records the outcome of a connection attempt (socket and handshake):
    /// the session is connected, with the host key that the remote offered,
    /// or it has failed. Any earlier authentication is gone either way.
    pub fn record_handshake(&mut self, outcome: Result<String, SessionError>)
        ensures
            final(self).wf(),
            final(self).endpoint_view() == old(self).endpoint_view(),
            final(self).user_view() is None,
            match outcome {
                Ok(k) => final(self).state_view() == SessionState::Connected
                    && final(self).host_key_view() == Some(k@),
                Err(_) => final(self).state_view() == SessionState::Failed(SessionError::Transport)
                    && final(self).host_key_view() is None,
            },
    {
        self.user = None;
        match outcome {
            Ok(k) => {
                self.state = SessionState::Connected;
                self.host_key = Some(k);
            },
            Err(_) => {
                self.state = SessionState::Failed(SessionError::Transport);
                self.host_key = None;
            },
        }
    }

    /// Records the outcome of one authentication attempt as `user`: the
    /// method was accepted and the transport marks the session
    /// authenticated, or the session has failed. Only a connected session
    /// can authenticate; in any other state nothing changes.
    pub fn record_authentication(&mut self, user: String, accepted: bool, marked_authenticated: bool) -> (r:
        Result<(), SessionError>)
        requires
            old(self).wf(),
        ensures
            final(self).wf(),
            final(self).endpoint_view() == old(self).endpoint_view(),
            final(self).host_key_view() == old(self).host_key_view(),
            old(self).state_view() != SessionState::Connected ==> r == Err::<(), SessionError>(
                SessionError::NotConnected,
            ) && final(self).state_view() == old(self).state_view() && final(self).user_view()
                == old(self).user_view(),
            old(self).state_view() == SessionState::Connected ==> if accepted && marked_authenticated {
                r is Ok && final(self).state_view() == SessionState::Authenticated
                    && final(self).user_view() == Some(user@)
            } else {
                r == Err::<(), SessionError>(SessionError::Auth) && final(self).state_view()
                    == SessionState::Failed(SessionError::Auth) && final(self).user_view() is None
            },
    {
        if self.state != SessionState::Connected {
            return Err(SessionError::NotConnected);
        }
        if accepted && marked_authenticated {
            self.state = SessionState::Authenticated;
            self.user = Some(user);
            Ok(())
        } else {
            self.state = SessionState::Failed(SessionError::Auth);
            Err(SessionError::Auth)
        }
    }

    /// Records a completed reconnection (a fresh connection that has been
    /// authenticated): the session keeps its endpoint and takes the new host
    /// key and user. A failed reconnection is not recorded, so the session
    /// is never left half updated.
    pub fn record_reconnect(&mut self, host_key: String, user: String)
        ensures
            final(self).wf(),
            final(self).endpoint_view() == old(self).endpoint_view(),
            final(self).state_view() == SessionState::Authenticated,
            final(self).host_key_view() == Some(host_key@),
            final(self).user_view() == Some(user@),
    {
        self.host_key = Some(host_key);
        self.user = Some(user);
        self.state = SessionState::Authenticated;
    }

    /// The result of a command run on this session, from what its channel
    /// delivered: the exit status and both outputs are kept as they came,
    /// whatever the status, so a failing command (`exit 7`) still yields its
    /// result and its partial output. Only an unauthenticated session
    /// refuses.
    pub fn command_result(&self, stdout: Vec<u8>, stderr: Vec<u8>, exit_status: i32) -> (r: Result<
        CommandResult,
        SessionError,
    >)
        ensures
            self.state_view() == SessionState::Authenticated ==> (r matches Ok(c) && c.exit_code
                == exit_status && c.stdout@ == stdout@ && c.stderr@ == stderr@),
            self.state_view() != SessionState::Authenticated ==> r matches Err(
                SessionError::NotAuthenticated,
            ),
    {
        self.require_authenticated()?;
        Ok(CommandResult::new(stdout, stderr, exit_status))
    }

    /// Commands and transfers need an authenticated session.
    pub fn require_authenticated(&self) -> (r: Result<(), SessionError>)
        ensures
            r is Ok <==> self.state_view() == SessionState::Authenticated,
            r is Err ==> r == Err::<(), SessionError>(SessionError::NotAuthenticated),
    {
        if self.state == SessionState::Authenticated {
            Ok(())
        } else {
            Err(SessionError::NotAuthenticated)
        }
    }
}

/// What one remote command produced. It is always handed back whole; the
/// caller decides whether a non-zero exit status is fatal.
#[derive(Debug, Clone)]
pub struct CommandResult {
    pub stdout: Vec<u8>,
    pub stderr: Vec<u8>,
    pub exit_code: i32,
}

/// A command whose non-zero exit status the caller treats as fatal.
#[derive(Debug, Clone)]
pub struct CommandError {
    pub exit_code: i32,
    pub stderr: Vec<u8>,
}

impl CommandResult {
    /// Keeps the captured output as it came, whatever the exit status.
    pub fn new(stdout: Vec<u8>, stderr: Vec<u8>, exit_code: i32) -> (r: Self)
        ensures
            r.stdout@ == stdout@,
            r.stderr@ == stderr@,
            r.exit_code == exit_code,
    {
        CommandResult { stdout, stderr, exit_code }
    }

    pub fn succeeded(&self) -> (r: bool)
        ensures
            r == (self.exit_code == 0),
    {
        self.exit_code == 0
    }

    /// The standard output of a command that exited with status 0; for any
    /// other status, an error with that status and the standard error.
    pub fn into_stdout(self) -> (r: Result<Vec<u8>, CommandError>)
        ensures
            self.exit_code == 0 ==> (r matches Ok(out) && out@ == self.stdout@),
            self.exit_code != 0 ==> (r matches Err(e) && e.exit_code == self.exit_code && e.stderr@
                == self.stderr@),
    {
        if self.exit_code == 0 {
            Ok(self.stdout)
        } else {
            Err(CommandError { exit_code: self.exit_code, stderr: self.stderr })
        }
    }
}

/// An entry of a local directory tree, by its path relative to the tree's
/// root. A walk lists each directory before what it contains.
#[derive(Debug, Clone)]
pub struct LocalEntry {
    pub relative_path: String,
    pub is_dir: bool,
}

/// One step of a tree upload.
#[derive(Debug, Clone, PartialEq, Eq)]
pub enum UploadStep {
    /// Make sure the remote directory exists ("already exists" is fine).
    EnsureDir(String),
    /// Copy the local file's bytes to the remote path, replacing it.
    CopyFile { local: String, remote: String },
}

/// `root/relative`
pub open spec fn joined(root: Seq<char>, relative: Seq<char>) -> Seq<char> {
    root + "/"@ + relative
}

pub fn join_path(root: &str, relative: &str) -> (r: String)
    ensures
        r@ == joined(root@, relative@),
{
    let mut s = String::from_str(root);
    s.append("/");
    s.append(relative);
    s
}

/// The steps that mirror a local tree under `remote_dir`, one per entry and
/// in the walk's order: a directory is made before anything in it is
/// copied. An upload that stops at a failed step is not rolled back.
pub fn plan_upload(local_dir: &str, remote_dir: &str, entries: &Vec<LocalEntry>) -> (r: Vec<UploadStep>)
    ensures
        r@.len() == entries@.len(),
        forall|i: int|
            0 <= i < entries@.len() ==> {
                let e = #[trigger] entries@[i];
                if e.is_dir {
                    r@[i] matches UploadStep::EnsureDir(d) && d@ == joined(remote_dir@, e.relative_path@)
                } else {
                    r@[i] matches UploadStep::CopyFile { local, remote } && local@ == joined(
                        local_dir@,
                        e.relative_path@,
                    ) && remote@ == joined(remote_dir@, e.relative_path@)
                }
            },
{
    let mut steps: Vec<UploadStep> = Vec::new();
    let mut i: usize = 0;
    while i < entries.len()
        invariant
            i <= entries@.len(),
            steps@.len() == i,
            forall|k: int|
                0 <= k < i ==> {
                    let e = #[trigger] entries@[k];
                    if e.is_dir {
                        steps@[k] matches UploadStep::EnsureDir(d) && d@ == joined(
                            remote_dir@,
                            e.relative_path@,
                        )
                    } else {
                        steps@[k] matches UploadStep::CopyFile { local, remote } && local@ == joined(
                            local_dir@,
                            e.relative_path@,
                        ) && remote@ == joined(remote_dir@, e.relative_path@)
                    }
                },
        decreases entries@.len() - i,
    {
        let e = &entries[i];
        let remote = join_path(remote_dir, e.relative_path.as_str());
        if e.is_dir {
            steps.push(UploadStep::EnsureDir(remote));
        } else {
            let local = join_path(local_dir, e.relative_path.as_str());
            steps.push(UploadStep::CopyFile { local, remote });
        }
        i = i + 1;
    }
    steps
}

/// Why a port given as text was refused.
#[derive(Debug, Clone, Copy, PartialEq, Eq, Structural)]
pub enum PortError {
    /// Not a decimal number that fits in 16 bits.
    NotANumber,
    /// The number 0.
    OutOfRange,
}

impl PortError {
    pub fn message(&self) -> (r: String)
        ensures
            r@ == match *self {
                PortError::NotANumber => "Please enter a valid number between 1 and 65535"@,
                PortError::OutOfRange => "Port must be between 1 and 65535"@,
            },
    {
        match self {
            PortError::NotANumber => String::from_str(
                "Please enter a valid number between 1 and 65535",
            ),
            PortError::OutOfRange => String::from_str("Port must be between 1 and 65535"),
        }
    }
}

pub open spec fn is_digit(c: char) -> bool {
    '0' <= c && c <= '9'
}

pub open spec fn all_digits(s: Seq<char>) -> bool {
    forall|i: int| 0 <= i < s.len() ==> is_digit(#[trigger] s[i])
}

/// The number that a string of decimal digits writes.
pub open spec fn digits_value(s: Seq<char>) -> nat
    decreases s.len(),
{
    if s.len() == 0 {
        0
    } else {
        digits_value(s.drop_last()) * 10 + ((s.last() as u32) - ('0' as u32)) as nat
    }
}

/// The digits of an unsigned number written with an optional `+`.
pub open spec fn unsigned_digits(s: Seq<char>) -> Seq<char> {
    if s.len() > 0 && s[0] == '+' {
        s.drop_first()
    } else {
        s
    }
}

/// What `parse_port` makes of `s`: a 16-bit decimal number, as `u16`'s
/// `FromStr` reads one, that is not 0.
pub open spec fn port_of(s: Seq<char>) -> Result<u16, PortError> {
    let t = unsigned_digits(s);
    if t.len() == 0 || !all_digits(t) || digits_value(t) > 65535 {
        Err(PortError::NotANumber)
    } else if digits_value(t) == 0 {
        Err(PortError::OutOfRange)
    } else {
        Ok(digits_value(t) as u16)
    }
}

proof fn lemma_digits_value_grows(s: Seq<char>, k: int)
    requires
        0 <= k <= s.len(),
        all_digits(s),
    ensures
        digits_value(s.subrange(0, k)) <= digits_value(s),
    decreases s.len() - k,
{
    if k < s.len() {
        let t = s.subrange(0, k + 1);
        assert(t.drop_last() =~= s.subrange(0, k));
        assert(is_digit(s[k]));
        lemma_digits_value_grows(s, k + 1);
    } else {
        assert(s.subrange(0, k) =~= s);
    }
}

/// Reads a port number: decimal digits, optionally after `+`, between 1 and
/// 65535.
pub fn parse_port(input: &str) -> (r: Result<u16, PortError>)
    ensures
        r == port_of(input@),
{
    let n = input.unicode_len();
    let mut start: usize = 0;
    if n > 0 && input.get_char(0) == '+' {
        start = 1;
    }
    let ghost t = unsigned_digits(input@);
    assert(t =~= input@.subrange(start as int, n as int));
    if start == n {
        return Err(PortError::NotANumber);
    }
    let mut value: u32 = 0;
    let mut i: usize = start;
    while i < n
        invariant
            n == input@.len(),
            start <= i <= n,
            t == input@.subrange(start as int, n as int),
            t == unsigned_digits(input@),
            all_digits(t.subrange(0, i - start)),
            value == digits_value(t.subrange(0, i - start)),
            value <= 65535,
        decreases n - i,
    {
        let c = input.get_char(i);
        if c < '0' || c > '9' {
            assert(t[i - start] == c);
            assert(!is_digit(t[i - start]));
            assert(!all_digits(t));
            return Err(PortError::NotANumber);
        }
        let ghost before = t.subrange(0, i - start);
        let d = (c as u32) - ('0' as u32);
        value = value * 10 + d;
        proof {
            let now = t.subrange(0, i + 1 - start);
            assert(now.drop_last() =~= before);
            assert(now.last() == c);
            assert(value == digits_value(now));
            assert(all_digits(now)) by {
                assert forall|k: int| 0 <= k < now.len() implies is_digit(#[trigger] now[k]) by {
                    if k < now.len() - 1 {
                        assert(now[k] == before[k]);
                    }
                }
            }
        }
        if value > 65535 {
            proof {
                let now = t.subrange(0, i + 1 - start);
                if all_digits(t) {
                    lemma_digits_value_grows(t, i + 1 - start);
                }
            }
            return Err(PortError::NotANumber);
        }
        i = i + 1;
    }
    assert(t.subrange(0, n - start) =~= t);
    if value == 0 {
        return Err(PortError::OutOfRange);
    }
    Ok(value as u16)
}

/// The authentication methods offered to the user.
#[derive(Debug, Clone, Copy, PartialEq, Eq, Structural)]
pub enum AuthMethod {
    Agent,
    Passwd,
}

/// The lower-case form of a string, as `str::to_lowercase` gives it.
pub uninterp spec fn lowercase_of(s: Seq<char>) -> Seq<char>;

/// Relies on `str::to_lowercase`: the result depends on the characters
/// alone, and the empty string stays empty.
#[verifier::external_body]
fn to_lowercase(s: &str) -> (r: String)
    ensures
        r@ == lowercase_of(s@),
        s@.len() == 0 ==> r@.len() == 0,
{
    s.to_lowercase()
}

impl AuthMethod {
    /// The method's name as shown and as read back.
    pub fn label(&self) -> (r: String)
        ensures
            r@ == auth_label(*self),
    {
        match self {
            AuthMethod::Agent => String::from_str("agent"),
            AuthMethod::Passwd => String::from_str("password"),
        }
    }

    /// Reads a method from a name that has already been folded to lower
    /// case.
    pub fn from_lowercase(lower: &str) -> (r: Option<AuthMethod>)
        ensures
            r == auth_method_named(lower@),
    {
        let n = lower.unicode_len();
        assert(lower@.subrange(0, n as int) =~= lower@);
        if crate::text::range_equals(lower, 0, n, "agent") {
            Some(AuthMethod::Agent)
        } else if crate::text::range_equals(lower, 0, n, "password") {
            Some(AuthMethod::Passwd)
        } else {
            None
        }
    }

    /// Reads a method by name, in any case: `agent` or `password`.
    pub fn parse(s: &str) -> (r: Result<AuthMethod, String>)
        ensures
            auth_method_named(lowercase_of(s@)) matches Some(m) ==> r == Ok::<AuthMethod, String>(m),
            auth_method_named(lowercase_of(s@)) is None ==> (r matches Err(msg) && msg@
                == "Invalid authentication method: "@ + s@),
    {
        let lower = to_lowercase(s);
        match AuthMethod::from_lowercase(lower.as_str()) {
            Some(m) => Ok(m),
            None => {
                let mut msg = String::from_str("Invalid authentication method: ");
                msg.append(s);
                Err(msg)
            },
        }
    }
}

impl std::str::FromStr for AuthMethod {
    type Err = String;

    fn from_str(s: &str) -> Result<AuthMethod, String> {
        AuthMethod::parse(s)
    }
}

pub open spec fn auth_label(m: AuthMethod) -> Seq<char> {
    match m {
        AuthMethod::Agent => "agent"@,
        AuthMethod::Passwd => "password"@,
    }
}

pub open spec fn auth_method_named(s: Seq<char>) -> Option<AuthMethod> {
    if s == "agent"@ {
        Some(AuthMethod::Agent)
    } else if s == "password"@ {
        Some(AuthMethod::Passwd)
    } else {
        None
    }
}

/// The methods in the order they are offered.
pub fn auth_methods() -> (r: Vec<AuthMethod>)
    ensures
        r@ == seq![AuthMethod::Agent, AuthMethod::Passwd],
{
    vec![AuthMethod::Agent, AuthMethod::Passwd]
}

/// The method at a position of the offered list.
pub fn select_auth_method(selection: usize) -> (r: Option<AuthMethod>)
    ensures
        selection == 0 ==> r == Some(AuthMethod::Agent),
        selection == 1 ==> r == Some(AuthMethod::Passwd),
        selection > 1 ==> r is None,
{
    let methods = auth_methods();
    if selection < methods.len() {
        Some(methods[selection])
    } else {
        None
    }
}

} // verus!

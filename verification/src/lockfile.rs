//! The client lockfile: where it is looked for, how it is read, and the
//! addresses and credentials that it gives.

use crate::text::{
    append_decimal,
    chars_of,
    decimal,
    eq_ignore_case,
    lowered,
    lowered_range,
    parse_u16,
    read_u16,
    rows,
    split,
    split_chars,
    string_of,
    trim_bounds,
    trimmed,
};
use vstd::prelude::*;
use vstd::string::StringExecFns;

verus! {

/// The port, password and protocol under which the client answers.
#[derive(Debug, Clone)]
pub struct LockfileAuth {
    pub port: u16,
    pub password: String,
    pub protocol: String,
}

/// What a [`LockfileAuth`] stands for.
pub struct AuthView {
    pub port: u16,
    pub password: Seq<char>,
    pub protocol: Seq<char>,
}

impl View for LockfileAuth {
    type V = AuthView;

    open spec fn view(&self) -> AuthView {
        AuthView { port: self.port, password: self.password@, protocol: self.protocol@ }
    }
}

/// Why the contents of a lockfile were refused.
#[derive(Debug, Clone, Copy, PartialEq, Eq, Structural)]
pub enum LockfileFault {
    /// Nothing but white space.
    Empty,
    /// Fewer than five fields.
    Corrupted,
    /// The third field is no port number.
    BadPort,
}

/// A lockfile that was refused: where it lies, and why it was refused.
#[derive(Debug, Clone)]
pub struct LockfileError {
    pub path: String,
    pub fault: LockfileFault,
}

/// What the contents of a lockfile give. The contents are trimmed and split
/// at each colon; of at least five fields the third is the port, the fourth
/// the password and the fifth the protocol, taken in lower case.
pub open spec fn lockfile_of(raw: Seq<char>) -> Result<AuthView, LockfileFault> {
    let line = trimmed(raw);
    let parts = split(line, ':');
    if line.len() == 0 {
        Err(LockfileFault::Empty)
    } else if parts.len() < 5 {
        Err(LockfileFault::Corrupted)
    } else {
        match parse_u16(parts[2]) {
            Some(port) => Ok(AuthView { port, password: parts[3], protocol: lowered(parts[4]) }),
            None => Err(LockfileFault::BadPort),
        }
    }
}

/// Reads the contents of the lockfile at `path`.
pub fn parse_lockfile(path: &str, raw: &str) -> (res: Result<LockfileAuth, LockfileError>)
    ensures
        match res {
            Ok(auth) => lockfile_of(raw@) == Ok::<AuthView, LockfileFault>(auth@),
            Err(error) => lockfile_of(raw@) == Err::<AuthView, LockfileFault>(error.fault)
                && error.path@ == path@,
        },
{
    let chars = chars_of(raw);
    let (from, to) = trim_bounds(&chars);
    if from == to {
        return Err(LockfileError { path: path.to_owned(), fault: LockfileFault::Empty });
    }
    let line = crate::text::copy_range(&chars, from, to);
    let parts = split_chars(&line, ':');
    if parts.len() < 5 {
        return Err(LockfileError { path: path.to_owned(), fault: LockfileFault::Corrupted });
    }
    proof {
        assert(rows(parts@)[2] == parts@[2]@);
        assert(rows(parts@)[3] == parts@[3]@);
        assert(rows(parts@)[4] == parts@[4]@);
    }
    match read_u16(&parts[2]) {
        Some(port) => {
            let protocol = lowered_range(&parts[4], 0, parts[4].len());
            assert(parts@[4]@.subrange(0, parts@[4]@.len() as int) == parts@[4]@);
            Ok(LockfileAuth { port, password: string_of(&parts[3]), protocol: string_of(&protocol) })
        },
        None => Err(LockfileError { path: path.to_owned(), fault: LockfileFault::BadPort }),
    }
}

/// The standard base64 encoding, with padding, of a sequence of bytes.
pub uninterp spec fn base64_standard(bytes: Seq<u8>) -> Seq<char>;

/// Encodes bytes as base64. Trusted: `Engine::encode` of the base64 crate on
/// its `STANDARD` engine, whose result is a function of the bytes alone. It
/// panics where the length of the result overflows, which inputs of at most
/// `isize::MAX` bytes cannot cause.
#[verifier::external_body]
pub(crate) fn base64_encode(input: &[u8]) -> (res: String)
    requires
        input@.len() <= isize::MAX,
    ensures
        res@ == base64_standard(input@),
{
    base64::Engine::encode(&base64::engine::general_purpose::STANDARD, input)
}

/// The scheme of the websocket: secure if the protocol is `https` in any
/// letter case.
pub open spec fn websocket_scheme(protocol: Seq<char>) -> Seq<char> {
    if lowered(protocol) == lowered("https"@) {
        "wss"@
    } else {
        "ws"@
    }
}

/// The URL of the client's websocket.
pub open spec fn websocket_url_of(auth: AuthView) -> Seq<char> {
    websocket_scheme(auth.protocol) + "://127.0.0.1:"@ + decimal(auth.port as nat) + "/"@
}

/// The base URL of the client's HTTP interface.
pub open spec fn base_url_of(auth: AuthView) -> Seq<char> {
    auth.protocol + "://127.0.0.1:"@ + decimal(auth.port as nat)
}

/// The URL that tells the present gameflow phase.
pub open spec fn phase_url_of(auth: AuthView) -> Seq<char> {
    base_url_of(auth) + "/lol-gameflow/v1/gameflow-phase"@
}

/// The text whose bytes the basic token encodes: the user `riot`, a colon,
/// and the password.
pub open spec fn credentials_of(auth: AuthView) -> Seq<char> {
    "riot:"@ + auth.password
}

/// The token of HTTP basic authentication.
pub open spec fn basic_token_of(auth: AuthView) -> Seq<char> {
    base64_standard(vstd::utf8::encode_utf8(credentials_of(auth)))
}

impl LockfileAuth {
    /// Whether the credentials are short enough to be encoded.
    pub open spec fn encodable(&self) -> bool {
        vstd::utf8::encode_utf8(credentials_of(self@)).len() <= isize::MAX
    }

    /// The URL of the client's websocket: `wss` if the protocol is `https`,
    /// else `ws`, on the loopback address and the lockfile's port.
    pub fn websocket_url(&self) -> (res: String)
        ensures
            res@ == websocket_url_of(self@),
    {
        let mut url = if eq_ignore_case(self.protocol.as_str(), "https") {
            String::from_str("wss")
        } else {
            String::from_str("ws")
        };
        url.append("://127.0.0.1:");
        append_decimal(&mut url, self.port as u64);
        url.append("/");
        url
    }

    /// The base URL of the client's HTTP interface.
    pub fn base_url(&self) -> (res: String)
        ensures
            res@ == base_url_of(self@),
    {
        let mut url = self.protocol.clone();
        url.append("://127.0.0.1:");
        append_decimal(&mut url, self.port as u64);
        url
    }

    /// The URL that tells the present gameflow phase.
    pub fn phase_url(&self) -> (res: String)
        ensures
            res@ == phase_url_of(self@),
    {
        let mut url = self.base_url();
        url.append("/lol-gameflow/v1/gameflow-phase");
        url
    }

    /// The token of HTTP basic authentication: the base64 encoding of
    /// `riot:` and the password.
    pub fn basic_token(&self) -> (res: String)
        requires
            self.encodable(),
        ensures
            res@ == basic_token_of(self@),
    {
        let mut credentials = String::from_str("riot:");
        credentials.append(self.password.as_str());
        base64_encode(credentials.as_str().as_bytes())
    }

    /// The value of the `Authorization` header.
    pub fn authorization(&self) -> (res: String)
        requires
            self.encodable(),
        ensures
            res@ == "Basic "@ + basic_token_of(self@),
    {
        let mut header = String::from_str("Basic ");
        let token = self.basic_token();
        header.append(token.as_str());
        header
    }

    /// The value of the `Authorization` header, or none where the
    /// credentials are too long to be encoded.
    pub fn try_authorization(&self) -> (res: Option<String>)
        ensures
            match res {
                Some(header) => self.encodable() && header@ == "Basic "@ + basic_token_of(self@),
                None => !self.encodable(),
            },
    {
        let mut credentials = String::from_str("riot:");
        credentials.append(self.password.as_str());
        if credentials.as_str().as_bytes().len() <= isize::MAX as usize {
            Some(self.authorization())
        } else {
            None
        }
    }
}

/// One place where the lockfile was looked for, with what was read there:
/// `None` where no file could be read.
#[derive(Debug, Clone)]
pub struct LockfileReading {
    pub path: String,
    pub contents: Option<String>,
}

/// Whether a place holds a lockfile that can be used.
pub open spec fn is_usable(reading: LockfileReading) -> bool {
    reading.contents is Some && lockfile_of(reading.contents->0@) is Ok
}

/// The index of the first place that holds a usable lockfile, or the number
/// of places if none does.
pub open spec fn first_usable(readings: Seq<LockfileReading>) -> nat
    decreases readings.len(),
{
    if readings.len() == 0 || is_usable(readings[0]) {
        0
    } else {
        1 + first_usable(readings.drop_first())
    }
}

/// The first usable place is at `n` if no place before `n` is usable and
/// the place at `n`, if there is one, is.
pub proof fn lemma_first_usable_is(readings: Seq<LockfileReading>, n: nat)
    requires
        n <= readings.len(),
        forall|k: int| 0 <= k < n ==> !is_usable(#[trigger] readings[k]),
        n < readings.len() ==> is_usable(readings[n as int]),
    ensures
        first_usable(readings) == n,
    decreases readings.len(),
{
    if n > 0 {
        let rest = readings.drop_first();
        assert(!is_usable(readings[0]));
        assert forall|k: int| 0 <= k < n - 1 implies !is_usable(#[trigger] rest[k]) by {
            assert(rest[k] == readings[k + 1]);
        }
        lemma_first_usable_is(rest, (n - 1) as nat);
    }
}

/// What one place gives: the credentials of its lockfile if the file could
/// be read and holds a usable lockfile, else nothing. The places are tried
/// in their order, and the search ends at the first that gives credentials.
pub fn read_lockfile(reading: &LockfileReading) -> (res: Option<LockfileAuth>)
    ensures
        match res {
            Some(auth) => is_usable(*reading) && lockfile_of(reading.contents->0@) == Ok::<
                AuthView,
                LockfileFault,
            >(auth@),
            None => !is_usable(*reading),
        },
{
    match &reading.contents {
        Some(contents) => match parse_lockfile(reading.path.as_str(), contents.as_str()) {
            Ok(auth) => Some(auth),
            Err(_) => None,
        },
        None => None,
    }
}

/// Picks the lockfile: the first place, in the order given, whose file
/// could be read and holds a usable lockfile. Returns the place's path and
/// what the lockfile gives, or `None` if no place has one.
pub fn load_lockfile(readings: &Vec<LockfileReading>) -> (res: Option<(String, LockfileAuth)>)
    ensures
        match res {
            Some((path, auth)) => first_usable(readings@) < readings@.len() && path@
                == readings@[first_usable(readings@) as int].path@ && lockfile_of(
                readings@[first_usable(readings@) as int].contents->0@,
            ) == Ok::<AuthView, LockfileFault>(auth@),
            None => first_usable(readings@) == readings@.len(),
        },
{
    let mut i: usize = 0;
    while i < readings.len()
        invariant
            0 <= i <= readings.len(),
            forall|k: int| 0 <= k < i ==> !is_usable(#[trigger] readings@[k]),
        decreases readings.len() - i,
    {
        let reading = &readings[i];
        if let Some(contents) = &reading.contents {
            if let Ok(auth) = parse_lockfile(reading.path.as_str(), contents.as_str()) {
                proof {
                    lemma_first_usable_is(readings@, i as nat);
                }
                return Some((reading.path.clone(), auth));
            }
        }
        i = i + 1;
    }
    proof {
        lemma_first_usable_is(readings@, i as nat);
    }
    None
}

} // verus!

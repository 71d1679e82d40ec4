use vstd::prelude::*;
use crate::text::{PortParseError, opt_chars, parse_port, push_char, spec_parse_port};

verus! {

/// The message a client sends over its websocket to register a link.
pub struct Data {
    pub ip: String,
    pub link: String,
}

/// Why a websocket was closed (`code` is the numeric close code).
pub struct CloseReason {
    pub code: u16,
    pub description: Option<String>,
}

/// One open websocket connection of a client: its address and the key it
/// opened the connection with.
pub struct WsSession {
    pub ip: String,
    pub websocket_key: String,
}

/// What arrives on an open websocket.
pub enum WsEvent {
    /// A text message that holds a registration.
    Text(Data),
    /// The client closes the connection.
    Close(Option<CloseReason>),
    /// Any other frame (ping, pong, binary, continuation, nop) or a protocol error.
    Other,
}

/// What the server does with an event.
pub enum WsAction {
    /// Store the link `link` of the client at `ip` under the connection's key.
    Register { ip: String, link: String, websocket_key: String },
    /// Close the connection with the given reason, and stop it.
    Close(Option<CloseReason>),
    /// Nothing.
    Ignore,
}

/// Why a websocket connection cannot be opened.
#[derive(Clone, Copy, Debug, PartialEq, Eq, Structural)]
pub enum SessionError {
    /// The peer's address is not known.
    UnknownPeer,
    /// The request has no `sec-websocket-key` header.
    MissingKey,
    /// The `sec-websocket-key` header holds a byte that is not visible ASCII.
    InvalidKey,
}

/// The connection settings of the database.
pub struct DbSettings {
    pub user: String,
    pub password: String,
    pub host: String,
    pub port: u16,
    pub name: String,
}

/// A byte that a header value may hold to be read as text: visible ASCII or a tab.
pub open spec fn visible_ascii(b: u8) -> bool {
    (32 <= b && b < 127) || b == 9
}

/// The characters of a text made of single-byte characters.
pub open spec fn chars_of(bytes: Seq<u8>) -> Seq<char> {
    bytes.map_values(|b: u8| b as char)
}

/// The text of a header value, as `HeaderValue::to_str` reads it: present when
/// every byte is visible ASCII or a tab, one character per byte.
pub open spec fn header_text_of(bytes: Seq<u8>) -> Option<Seq<char>> {
    if forall|i: int| 0 <= i < bytes.len() ==> visible_ascii(#[trigger] bytes[i]) {
        Some(chars_of(bytes))
    } else {
        None
    }
}

/// Law: a header value made only of visible ASCII bytes and tabs always reads
/// as text, one character per byte with the byte's code, whatever bytes (such
/// as `/`, `+` or `=`) and whatever length it has; a value holding any other
/// byte never does.
pub proof fn lemma_header_text_reads_visible(bytes: Seq<u8>)
    ensures
        (forall|i: int| 0 <= i < bytes.len() ==> (32 <= #[trigger] bytes[i] < 127 || bytes[i] == 9))
            ==> {
            &&& header_text_of(bytes) is Some
            &&& header_text_of(bytes)->0.len() == bytes.len()
            &&& forall|i: int|
                0 <= i < bytes.len() ==> #[trigger] header_text_of(bytes)->0[i] as int == bytes[i]
        },
        (exists|i: int| 0 <= i < bytes.len() && !(32 <= #[trigger] bytes[i] < 127 || bytes[i] == 9))
            ==> header_text_of(bytes) is None,
{
    if forall|i: int| 0 <= i < bytes.len() ==> (32 <= #[trigger] bytes[i] < 127 || bytes[i] == 9) {
        assert forall|i: int| 0 <= i < bytes.len() implies visible_ascii(#[trigger] bytes[i]) by {
            assert(32 <= bytes[i] < 127 || bytes[i] == 9);
        }
        assert forall|i: int| 0 <= i < bytes.len() implies #[trigger] header_text_of(bytes)->0[i] as int
            == bytes[i] by {
            assert(chars_of(bytes)[i] == bytes[i] as char);
        }
    }
    if exists|i: int| 0 <= i < bytes.len() && !(32 <= #[trigger] bytes[i] < 127 || bytes[i] == 9) {
        let j = choose|i: int| 0 <= i < bytes.len() && !(32 <= #[trigger] bytes[i] < 127 || bytes[i] == 9);
        assert(!visible_ascii(bytes[j]));
    }
}

/// Law: a request from a known peer whose key header is visible ASCII always
/// opens a session, with exactly that address and that key, whatever the
/// key's length or characters.
pub proof fn lemma_session_opens_with_key(ip: Seq<char>, key: Seq<u8>)
    ensures
        (forall|i: int| 0 <= i < key.len() ==> (32 <= #[trigger] key[i] < 127 || key[i] == 9)) ==> {
            &&& session_outcome(Some(ip), Some(key)) is Ok
            &&& session_outcome(Some(ip), Some(key))->Ok_0.0 == ip
            &&& session_outcome(Some(ip), Some(key))->Ok_0.1.len() == key.len()
            &&& forall|i: int|
                0 <= i < key.len() ==> #[trigger] session_outcome(Some(ip), Some(key))->Ok_0.1[i] as int
                    == key[i]
        },
{
    lemma_header_text_reads_visible(key);
}

/// Reads a header value as text, the way `HeaderValue::to_str` does.
pub fn header_text(bytes: &[u8]) -> (r: Option<String>)
    ensures
        opt_chars(r) == header_text_of(bytes@),
        (forall|i: int|
            0 <= i < bytes@.len() ==> (32 <= #[trigger] bytes@[i] < 127 || bytes@[i] == 9)) ==> {
            &&& r is Some
            &&& r->0@.len() == bytes@.len()
            &&& forall|i: int| 0 <= i < bytes@.len() ==> #[trigger] r->0@[i] as int == bytes@[i]
        },
        (exists|i: int|
            0 <= i < bytes@.len() && !(32 <= #[trigger] bytes@[i] < 127 || bytes@[i] == 9))
            ==> r is None,
{
    proof {
        lemma_header_text_reads_visible(bytes@);
    }
    let mut s = String::new();
    let mut i: usize = 0;
    while i < bytes.len()
        invariant
            i <= bytes@.len(),
            s@ == chars_of(bytes@.take(i as int)),
            forall|j: int| 0 <= j < i ==> visible_ascii(#[trigger] bytes@[j]),
        decreases bytes@.len() - i,
    {
        let b: u8 = bytes[i];
        if !((32 <= b && b < 127) || b == 9) {
            return None;
        }
        push_char(&mut s, b as char);
        assert(chars_of(bytes@.take(i + 1)) =~= chars_of(bytes@.take(i as int)).push(b as char));
        i = i + 1;
    }
    assert(bytes@.take(i as int) =~= bytes@);
    Some(s)
}

/// What opening a session from a peer address and a key header gives: the
/// address and key text, or the first check that fails.
pub open spec fn session_outcome(peer_ip: Option<Seq<char>>, key_header: Option<Seq<u8>>) -> Result<
    (Seq<char>, Seq<char>),
    SessionError,
> {
    match peer_ip {
        None => Err(SessionError::UnknownPeer),
        Some(ip) => match key_header {
            None => Err(SessionError::MissingKey),
            Some(k) => match header_text_of(k) {
                None => Err(SessionError::InvalidKey),
                Some(key) => Ok((ip, key)),
            },
        },
    }
}

/// A session by its address and key.
pub open spec fn session_view(r: Result<WsSession, SessionError>) -> Result<
    (Seq<char>, Seq<char>),
    SessionError,
> {
    match r {
        Ok(s) => Ok((s.ip@, s.websocket_key@)),
        Err(e) => Err(e),
    }
}

/// Opens the session of a websocket request: the peer's address must be
/// known, and the `sec-websocket-key` header present and readable as text
/// (the checks are made in this order).
pub fn open_session(peer_ip: Option<String>, key_header: Option<&[u8]>) -> (r: Result<
    WsSession,
    SessionError,
>)
    ensures
        session_view(r) == session_outcome(
            opt_chars(peer_ip),
            match key_header {
                Some(k) => Some(k@),
                None => None,
            },
        ),
        peer_ip is Some && key_header is Some && (forall|i: int|
            0 <= i < key_header->0@.len() ==> (32 <= #[trigger] key_header->0@[i] < 127
                || key_header->0@[i] == 9)) ==> {
            &&& r is Ok
            &&& r->Ok_0.ip == peer_ip->0
            &&& r->Ok_0.websocket_key@.len() == key_header->0@.len()
            &&& forall|i: int|
                0 <= i < key_header->0@.len() ==> #[trigger] r->Ok_0.websocket_key@[i] as int
                    == key_header->0@[i]
        },
        peer_ip is None ==> r == Err::<WsSession, SessionError>(SessionError::UnknownPeer),
        peer_ip is Some && key_header is None ==> r == Err::<WsSession, SessionError>(
            SessionError::MissingKey,
        ),
{
    proof {
        if peer_ip is Some && key_header is Some {
            lemma_session_opens_with_key(peer_ip->0@, key_header->0@);
        }
    }
    let ip = match peer_ip {
        Some(ip) => ip,
        None => return Err(SessionError::UnknownPeer),
    };
    let key = match key_header {
        Some(k) => k,
        None => return Err(SessionError::MissingKey),
    };
    match header_text(key) {
        Some(websocket_key) => Ok(WsSession { ip, websocket_key }),
        None => Err(SessionError::InvalidKey),
    }
}

/// Whether a cross-origin request is allowed: its origin must equal the
/// `origin` header the request carries.
pub fn origin_allowed(origin: &[u8], origin_header: &[u8]) -> (allowed: bool)
    ensures
        allowed == (origin@ == origin_header@),
{
    if origin.len() != origin_header.len() {
        return false;
    }
    let mut i: usize = 0;
    while i < origin.len()
        invariant
            i <= origin@.len(),
            origin@.len() == origin_header@.len(),
            origin@.take(i as int) == origin_header@.take(i as int),
        decreases origin@.len() - i,
    {
        if origin[i] != origin_header[i] {
            return false;
        }
        assert(origin@.take(i + 1) =~= origin@.take(i as int).push(origin@[i as int]));
        assert(origin_header@.take(i + 1) =~= origin_header@.take(i as int).push(origin_header@[i as int]));
        i = i + 1;
    }
    assert(origin@.take(i as int) =~= origin@);
    assert(origin_header@.take(i as int) =~= origin_header@);
    true
}

/// The database settings from their texts; the port must read as a port number.
pub fn db_settings(user: String, password: String, host: String, port_text: &str, name: String) -> (r: Result<DbSettings, PortParseError>)
    ensures
        spec_parse_port(port_text@) matches Err(e) ==> r == Err::<DbSettings, PortParseError>(e),
        spec_parse_port(port_text@) matches Ok(p) ==> r matches Ok(d) && {
            &&& d.user == user
            &&& d.password == password
            &&& d.host == host
            &&& d.port == p
            &&& d.name == name
        },
{
    match parse_port(port_text) {
        Ok(port) => Ok(DbSettings { user, password, host, port, name }),
        Err(e) => Err(e),
    }
}

impl WsSession {
    /// The first message sent on a new connection: its key.
    pub fn greeting(&self) -> (text: String)
        ensures
            text@ == self.websocket_key@,
    {
        self.websocket_key.clone()
    }

    /// The key whose services are removed when the connection stops.
    pub fn farewell_key(&self) -> (key: String)
        ensures
            key@ == self.websocket_key@,
    {
        self.websocket_key.clone()
    }

    /// What to do with an event: register a link under this connection's key,
    /// close on a close frame, ignore anything else.
    pub fn handle(&self, event: WsEvent) -> (action: WsAction)
        ensures
            match event {
                WsEvent::Text(data) => action matches WsAction::Register { ip, link, websocket_key } && ip
                    == data.ip && link == data.link && websocket_key@ == self.websocket_key@,
                WsEvent::Close(reason) => action == WsAction::Close(reason),
                WsEvent::Other => action is Ignore,
            },
    {
        match event {
            WsEvent::Text(data) => WsAction::Register {
                ip: data.ip,
                link: data.link,
                websocket_key: self.websocket_key.clone(),
            },
            WsEvent::Close(reason) => WsAction::Close(reason),
            WsEvent::Other => WsAction::Ignore,
        }
    }
}

} // verus!

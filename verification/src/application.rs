use crate::config::{is_white, trim};
use crate::error::StackError;
use vstd::prelude::*;

verus! {

/// `b` with an ASCII lowercase letter made uppercase (as `u8::to_ascii_uppercase`).
pub open spec fn ascii_upper(b: u8) -> u8 {
    if 0x61 <= b <= 0x7A {
        (b - 32) as u8
    } else {
        b
    }
}

/// `bs` with every ASCII letter uppercase.
pub open spec fn shouted(bs: Seq<u8>) -> Seq<u8> {
    bs.map_values(|b: u8| ascii_upper(b))
}

/// The applications that the server supports.
#[derive(Clone, Copy, Debug, PartialEq, Eq, Structural)]
pub enum ServerApp {
    /// Echoes back exactly what it receives.
    Echo,
    /// Echoes back what it receives with all ASCII letters capitalized.
    Shout,
}

/// What `app` replies with to `data`.
pub open spec fn app_reply(app: ServerApp, data: Seq<u8>) -> Seq<u8> {
    match app {
        ServerApp::Echo => data,
        ServerApp::Shout => shouted(data),
    }
}

/// `b` with an ASCII lowercase letter made uppercase.
pub fn to_ascii_upper(b: u8) -> (r: u8)
    ensures
        r == ascii_upper(b),
{
    if 0x61 <= b && b <= 0x7A {
        b - 32
    } else {
        b
    }
}

/// Whether `cs` spells the lowercase ASCII `word`, ignoring ASCII case.
pub open spec fn spells(cs: Seq<char>, word: Seq<char>) -> bool {
    cs.len() == word.len() && forall|i: int|
        0 <= i < cs.len() ==> (#[trigger] cs[i] == word[i] || cs[i] as u32 + 32 == word[i] as u32)
}

/// The application named by `s`: `echo` or `shout`, ignoring surrounding white space and ASCII
/// case.
pub open spec fn app_of(s: Seq<char>) -> Option<ServerApp> {
    let t = trim(s);
    if spells(t, seq!['e', 'c', 'h', 'o']) {
        Some(ServerApp::Echo)
    } else if spells(t, seq!['s', 'h', 'o', 'u', 't']) {
        Some(ServerApp::Shout)
    } else {
        None
    }
}

/// Whether the characters `cs` spell `word` (lowercase ASCII), ignoring ASCII case.
fn matches_word(cs: &[char], word: &str) -> (r: bool)
    requires
        word@.len() < 16,
        forall|i: int| 0 <= i < word@.len() ==> 'a' <= #[trigger] word@[i] <= 'z',
    ensures
        r == spells(cs@, word@),
{
    let w = crate::protocol::display::chars_of(word);
    if cs.len() != w.len() {
        return false;
    }
    let mut i: usize = 0;
    while i < cs.len()
        invariant
            i <= cs@.len(),
            cs@.len() == w@.len(),
            w@ == word@,
            forall|k: int|
                0 <= k < i ==> (#[trigger] cs@[k] == word@[k] || cs@[k] as u32 + 32 == word@[k] as u32),
        decreases cs@.len() - i,
    {
        let c = cs[i];
        let d = w[i];
        if !(c == d || (d as u32 >= 32 && c as u32 == d as u32 - 32)) {
            return false;
        }
        i = i + 1;
    }
    true
}

impl ServerApp {
    /// Parses the name of an application, `echo` or `shout`, ignoring surrounding white space
    /// and ASCII case.
    pub fn parse(s: &str) -> (r: Result<ServerApp, StackError>)
        ensures
            (match app_of(s@) {
                Some(a) => r == Ok::<ServerApp, StackError>(a),
                None => r == Err::<ServerApp, _>(StackError::InvalidServerApp),
            }),
    {
        let cs = crate::protocol::display::chars_of(s);
        let t = crate::config::trimmed(cs.as_slice());
        proof {
            reveal_strlit("echo");
            reveal_strlit("shout");
            assert("echo"@ =~= seq!['e', 'c', 'h', 'o']);
            assert("shout"@ =~= seq!['s', 'h', 'o', 'u', 't']);
        }
        if matches_word(t.as_slice(), "echo") {
            Ok(ServerApp::Echo)
        } else if matches_word(t.as_slice(), "shout") {
            Ok(ServerApp::Shout)
        } else {
            Err(StackError::InvalidServerApp)
        }
    }

    /// The reply to a UDP payload (see `app_reply`).
    pub fn handle_udp(&mut self, payload: Vec<u8>) -> (r: Vec<u8>)
        ensures
            r@ == app_reply(*old(self), payload@),
            *final(self) == *old(self),
    {
        match self {
            ServerApp::Echo => payload,
            ServerApp::Shout => {
                let mut out: Vec<u8> = Vec::new();
                let mut i: usize = 0;
                while i < payload.len()
                    invariant
                        i <= payload@.len(),
                        out@ =~= shouted(payload@.subrange(0, i as int)),
                    decreases payload@.len() - i,
                {
                    out.push(to_ascii_upper(payload[i]));
                    i = i + 1;
                }
                assert(payload@.subrange(0, payload@.len() as int) =~= payload@);
                out
            },
        }
    }

    /// Appends the reply to TCP data to the send buffer (see `app_reply`).
    pub fn handle_tcp(&mut self, data: &[u8], send_buffer: &mut Vec<u8>)
        ensures
            final(send_buffer)@ == old(send_buffer)@ + app_reply(*old(self), data@),
            *final(self) == *old(self),
    {
        let ghost start = send_buffer@;
        let app = *self;
        let mut i: usize = 0;
        while i < data.len()
            invariant
                i <= data@.len(),
                send_buffer@ =~= start + app_reply(app, data@.subrange(0, i as int)),
            decreases data@.len() - i,
        {
            let b = match app {
                ServerApp::Echo => data[i],
                ServerApp::Shout => to_ascii_upper(data[i]),
            };
            send_buffer.push(b);
            i = i + 1;
        }
        assert(data@.subrange(0, data@.len() as int) =~= data@);
    }
}

impl Default for ServerApp {
    /// The echo application.
    fn default() -> (r: Self)
        ensures
            r == ServerApp::Echo,
    {
        ServerApp::Echo
    }
}

/// The application the server runs by default, echoing back exactly what it receives for both
/// UDP and TCP.
#[derive(Clone, Copy, Debug, PartialEq, Eq, Structural)]
pub struct EchoApp;

impl EchoApp {
    /// The reply to a UDP payload: the payload itself.
    pub fn handle_udp(&mut self, payload: Vec<u8>) -> (r: Vec<u8>)
        ensures
            r@ == payload@,
    {
        payload
    }

    /// Appends TCP data to the send buffer unchanged.
    pub fn handle_tcp(&mut self, data: &[u8], send_buffer: &mut Vec<u8>)
        ensures
            final(send_buffer)@ == old(send_buffer)@ + data@,
    {
        crate::bytes::push_all(send_buffer, data);
    }
}

} // verus!

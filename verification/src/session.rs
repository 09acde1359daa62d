//! The state of one SMTP conversation and the email it produces.
use vstd::prelude::*;
use crate::time::{clock_now, Timestamp};

verus! {

/// The views of a list of strings.
pub open spec fn texts(v: Seq<String>) -> Seq<Seq<char>> {
    v.map_values(|s: String| s@)
}

/// The sender recorded before any `MAIL FROM` command.
pub open spec fn unknown_sender() -> Seq<char> {
    "unknown-sender"@
}

/// An accepted email, as it is handed to the storage modes.
pub struct ReceivedEmail {
    /// Address of the client that sent the email.
    pub peer_addr: String,
    /// Sender given by `MAIL FROM`.
    pub from: String,
    /// Recipients given by `RCPT TO`, in order.
    pub recipients: Vec<String>,
    /// Message body, one `\n`-terminated line per received data line.
    pub data: String,
    /// The whole conversation so far, client lines prefixed `C: `, server lines `S: `.
    pub transcript: String,
    /// When the session began collecting this message.
    pub received_at: Timestamp,
}

/// The mathematical content of a [`ReceivedEmail`].
pub struct EmailView {
    pub peer_addr: Seq<char>,
    pub from: Seq<char>,
    pub recipients: Seq<Seq<char>>,
    pub data: Seq<char>,
    pub transcript: Seq<char>,
    pub received_at: Timestamp,
}

impl View for ReceivedEmail {
    type V = EmailView;

    open spec fn view(&self) -> EmailView {
        EmailView {
            peer_addr: self.peer_addr@,
            from: self.from@,
            recipients: texts(self.recipients@),
            data: self.data@,
            transcript: self.transcript@,
            received_at: self.received_at,
        }
    }
}

/// The state of one SMTP conversation: the client's address, the message being
/// collected, and the transcript of everything said.
pub struct SmtpSession {
    pub peer_addr: String,
    pub from: String,
    pub recipients: Vec<String>,
    pub data: String,
    pub transcript: String,
    pub received_at: Timestamp,
}

/// The mathematical content of an [`SmtpSession`].
pub struct SessionView {
    pub peer_addr: Seq<char>,
    pub from: Seq<char>,
    pub recipients: Seq<Seq<char>>,
    pub data: Seq<char>,
    pub transcript: Seq<char>,
    pub received_at: Timestamp,
}

impl View for SmtpSession {
    type V = SessionView;

    open spec fn view(&self) -> SessionView {
        SessionView {
            peer_addr: self.peer_addr@,
            from: self.from@,
            recipients: texts(self.recipients@),
            data: self.data@,
            transcript: self.transcript@,
            received_at: self.received_at,
        }
    }
}

/// A session for the client at `peer_addr` that has said nothing yet, its first message
/// stamped `now`.
pub open spec fn fresh_session(peer_addr: Seq<char>, now: Timestamp) -> SessionView {
    SessionView {
        peer_addr,
        from: unknown_sender(),
        recipients: Seq::empty(),
        data: Seq::empty(),
        transcript: Seq::empty(),
        received_at: now,
    }
}

impl SessionView {
    /// This session with a fresh message: unknown sender, no recipients, no data, stamped
    /// `now`; the transcript is kept.
    pub open spec fn with_message_reset(self, now: Timestamp) -> SessionView {
        SessionView {
            from: unknown_sender(),
            recipients: Seq::empty(),
            data: Seq::empty(),
            received_at: now,
            ..self
        }
    }

    /// This session with `tag` and `line` appended to the transcript.
    pub open spec fn with_record(self, tag: Seq<char>, line: Seq<char>) -> SessionView {
        SessionView { transcript: self.transcript + tag + line, ..self }
    }

    /// The email that this session holds.
    pub open spec fn email(self) -> EmailView {
        EmailView {
            peer_addr: self.peer_addr,
            from: self.from,
            recipients: self.recipients,
            data: self.data,
            transcript: self.transcript,
            received_at: self.received_at,
        }
    }
}

/// A copy of a list of strings.
pub fn clone_texts(v: &Vec<String>) -> (r: Vec<String>)
    ensures
        texts(r@) == texts(v@),
{
    let mut r: Vec<String> = Vec::new();
    let mut i: usize = 0;
    while i < v.len()
        invariant
            i <= v.len(),
            r@.len() == i,
            texts(r@) == texts(v@.take(i as int)),
        decreases v.len() - i,
    {
        let c = v[i].clone();
        assert(c@ == v@[i as int]@);
        let ghost before = r@;
        r.push(c);
        i = i + 1;
        assert(r@ =~= before.push(c));
        assert(v@.take(i as int) =~= v@.take(i - 1).push(v@[i - 1]));
        assert forall|j: int| 0 <= j < i implies #[trigger] texts(r@)[j] == texts(
            v@.take(i as int),
        )[j] by {
            if j < i - 1 {
                assert(texts(before)[j] == texts(v@.take(i - 1))[j]);
                assert(r@[j] == before[j]);
                assert(v@.take(i as int)[j] == v@.take(i - 1)[j]);
            }
        }
        assert(texts(r@) =~= texts(v@.take(i as int)));
    }
    assert(v@.take(v.len() as int) =~= v@);
    r
}

impl SmtpSession {
    /// A session for the client at `peer_addr` whose first message is stamped `now`.
    pub fn new_at(peer_addr: String, now: Timestamp) -> (s: SmtpSession)
        ensures
            s@ == fresh_session(peer_addr@, now),
    {
        let s = SmtpSession {
            peer_addr,
            from: String::from_str("unknown-sender"),
            recipients: Vec::new(),
            data: String::new(),
            transcript: String::new(),
            received_at: now,
        };
        assert(texts(s.recipients@) =~= Seq::empty());
        s
    }

    /// A session for the client at `peer_addr`, stamped with the current time; `None`
    /// where the system clock reads outside the range of valid instants.
    pub fn new(peer_addr: String) -> (s: Option<SmtpSession>)
        ensures
            s matches Some(v) ==> v@ == fresh_session(peer_addr@, v.received_at)
                && v.received_at.is_valid(),
    {
        match clock_now() {
            Some(now) => Some(SmtpSession::new_at(peer_addr, now)),
            None => None,
        }
    }

    /// Appends a line the client sent to the transcript, prefixed `C: `.
    pub fn record_client(&mut self, line: &str)
        ensures
            final(self)@ == old(self)@.with_record("C: "@, line@),
    {
        self.transcript.append("C: ");
        self.transcript.append(line);
    }

    /// Appends a line the server sent to the transcript, prefixed `S: `.
    pub fn record_server(&mut self, line: &str)
        ensures
            final(self)@ == old(self)@.with_record("S: "@, line@),
    {
        self.transcript.append("S: ");
        self.transcript.append(line);
    }

    /// Starts a fresh message stamped `now`; the transcript is kept.
    pub fn reset_message_at(&mut self, now: Timestamp)
        ensures
            final(self)@ == old(self)@.with_message_reset(now),
    {
        self.from = String::from_str("unknown-sender");
        self.recipients = Vec::new();
        self.data = String::new();
        self.received_at = now;
        assert(texts(self.recipients@) =~= Seq::empty());
    }

    /// Starts a fresh message stamped with the current time; the transcript is kept.
    /// Returns `false`, changing nothing, where the system clock reads outside the range of
    /// valid instants.
    pub fn reset_message(&mut self) -> (done: bool)
        ensures
            done ==> final(self)@ == old(self)@.with_message_reset(final(self).received_at)
                && final(self).received_at.is_valid(),
            !done ==> final(self)@ == old(self)@,
    {
        match clock_now() {
            Some(now) => {
                self.reset_message_at(now);
                true
            },
            None => false,
        }
    }

    /// The email that this session holds.
    pub fn to_email(&self) -> (e: ReceivedEmail)
        ensures
            e@ == self@.email(),
    {
        ReceivedEmail {
            peer_addr: self.peer_addr.clone(),
            from: self.from.clone(),
            recipients: clone_texts(&self.recipients),
            data: self.data.clone(),
            transcript: self.transcript.clone(),
            received_at: self.received_at,
        }
    }
}

} // verus!

//! The SMTP conversation as a state machine.
//!
//! The caller reads lines from the client and hands each one to
//! [`SmtpConnection::handle_line`], which updates the session and says what to do next:
//! send a reply, upgrade the connection to TLS, deliver an accepted email, or close.
use vstd::prelude::*;
use vstd::utf8::*;
use crate::address::{
    clean_address, lemma_ascii_byte_len, lemma_boundary_after_chars, parse_address,
};
use crate::session::{fresh_session, EmailView, ReceivedEmail, SessionView, SmtpSession};
use crate::text::{
    chars_in_range, chars_of, equals_upper, push_char, starts_with, starts_with_upper,
    string_of, trim_end, trim_end_chars, upper_text, ascii_upper, CharClass,
};
use crate::time::{clock_now, Timestamp};

verus! {

/// The greeting sent when a client connects.
pub open spec fn greeting_reply() -> Seq<char> {
    "220 mail-box ready\r\n"@
}

/// The reply to `HELO`/`EHLO`: capabilities, with `STARTTLS` while the connection is plain.
pub open spec fn hello_reply(tls_enabled: bool) -> Seq<char> {
    if tls_enabled {
        "250-mail-box\r\n250 OK\r\n"@
    } else {
        "250-mail-box\r\n250-STARTTLS\r\n250 OK\r\n"@
    }
}

pub open spec fn sender_ok_reply() -> Seq<char> {
    "250 sender ok\r\n"@
}

pub open spec fn recipient_ok_reply() -> Seq<char> {
    "250 recipient ok\r\n"@
}

pub open spec fn data_start_reply() -> Seq<char> {
    "354 end with <CRLF>.<CRLF>\r\n"@
}

pub open spec fn accepted_reply() -> Seq<char> {
    "250 message accepted\r\n"@
}

pub open spec fn reset_reply() -> Seq<char> {
    "250 reset ok\r\n"@
}

pub open spec fn ok_reply() -> Seq<char> {
    "250 ok\r\n"@
}

pub open spec fn already_tls_reply() -> Seq<char> {
    "250 already using TLS\r\n"@
}

pub open spec fn start_tls_reply() -> Seq<char> {
    "220 ready to start TLS\r\n"@
}

pub open spec fn bye_reply() -> Seq<char> {
    "221 bye\r\n"@
}

/// The transcript note written once the TLS handshake has completed.
pub open spec fn tls_done_note() -> Seq<char> {
    "TLS: handshake completed\r\n"@
}

/// The kinds of command the receiver tells apart.
#[derive(Clone, Copy, Debug, PartialEq, Eq, Structural)]
pub enum Command {
    Hello,
    MailFrom,
    RcptTo,
    Data,
    Reset,
    Noop,
    StartTls,
    Quit,
    Other,
}

/// The kind of a command line (without its line end), by its upper-case form: `HELO ` or
/// `EHLO ` and `MAIL FROM:` and `RCPT TO:` are prefixes, the others whole commands.
pub open spec fn classify(command: Seq<char>) -> Command {
    let up = upper_text(command);
    if starts_with(up, "HELO "@) || starts_with(up, "EHLO "@) {
        Command::Hello
    } else if starts_with(up, "MAIL FROM:"@) {
        Command::MailFrom
    } else if starts_with(up, "RCPT TO:"@) {
        Command::RcptTo
    } else if up == "DATA"@ {
        Command::Data
    } else if up == "RSET"@ {
        Command::Reset
    } else if up == "NOOP"@ {
        Command::Noop
    } else if up == "STARTTLS"@ {
        Command::StartTls
    } else if up == "QUIT"@ {
        Command::Quit
    } else {
        Command::Other
    }
}

/// A received line without its trailing carriage returns and line feeds.
pub open spec fn command_of(line: Seq<char>) -> Seq<char> {
    trim_end(line, CharClass::LineEnd)
}

/// The end-of-data marker: a line holding only `.`.
pub open spec fn is_end_of_data(command: Seq<char>) -> bool {
    command == seq!['.']
}

/// The text a data line contributes: a leading `..` is removed.
pub open spec fn data_text(command: Seq<char>) -> Seq<char> {
    if starts_with(command, seq!['.', '.']) {
        command.skip(2)
    } else {
        command
    }
}

/// Why a conversation ended in failure.
#[derive(Clone, Copy, Debug, PartialEq, Eq, Structural)]
pub enum SmtpError {
    /// The client closed the connection while sending message data.
    ClosedDuringData,
}

/// What the caller does after a step of the conversation.
pub enum SmtpAction {
    /// Send the reply and read the next line.
    Send(String),
    /// Send the reply, perform the TLS handshake, then call
    /// [`SmtpConnection::tls_started`] and read the next line.
    SendThenStartTls(String),
    /// Send the reply, process the accepted email, call
    /// [`SmtpConnection::message_processed`], then read the next line.
    SendThenDeliver(String, ReceivedEmail),
    /// Send the reply and end the conversation.
    SendThenClose(String),
    /// Read the next line.
    ReadMore,
    /// End the conversation normally.
    Close,
    /// End the conversation with an error.
    Fail(SmtpError),
}

/// The mathematical content of an [`SmtpAction`].
pub enum ActionView {
    Send(Seq<char>),
    SendThenStartTls(Seq<char>),
    SendThenDeliver(Seq<char>, EmailView),
    SendThenClose(Seq<char>),
    ReadMore,
    Close,
    Fail(SmtpError),
}

impl View for SmtpAction {
    type V = ActionView;

    open spec fn view(&self) -> ActionView {
        match self {
            SmtpAction::Send(r) => ActionView::Send(r@),
            SmtpAction::SendThenStartTls(r) => ActionView::SendThenStartTls(r@),
            SmtpAction::SendThenDeliver(r, e) => ActionView::SendThenDeliver(r@, e@),
            SmtpAction::SendThenClose(r) => ActionView::SendThenClose(r@),
            SmtpAction::ReadMore => ActionView::ReadMore,
            SmtpAction::Close => ActionView::Close,
            SmtpAction::Fail(e) => ActionView::Fail(*e),
        }
    }
}

/// One SMTP conversation: the session, whether TLS is on, and whether message data is
/// being read.
pub struct SmtpConnection {
    pub session: SmtpSession,
    pub tls_enabled: bool,
    pub in_data: bool,
}

/// The mathematical content of an [`SmtpConnection`].
pub struct ConnectionView {
    pub session: SessionView,
    pub tls_enabled: bool,
    pub in_data: bool,
}

impl View for SmtpConnection {
    type V = ConnectionView;

    open spec fn view(&self) -> ConnectionView {
        ConnectionView {
            session: self.session@,
            tls_enabled: self.tls_enabled,
            in_data: self.in_data,
        }
    }
}

impl ConnectionView {
    /// Records the client line, then `reply`, with the session first changed to `session`.
    pub open spec fn reply_with(self, session: SessionView, reply: Seq<char>) -> ConnectionView {
        ConnectionView { session: session.with_record("S: "@, reply), ..self }
    }
}

/// The state after a command line `line` in command mode, and the action, where `now`
/// stamps a message that `RSET` starts.
pub open spec fn command_step(st: ConnectionView, line: Seq<char>, now: Timestamp) -> (
    ConnectionView,
    ActionView,
) {
    let s1 = st.session.with_record("C: "@, line);
    let cmd = command_of(line);
    match classify(cmd) {
        Command::Hello => (
            st.reply_with(s1, hello_reply(st.tls_enabled)),
            ActionView::Send(hello_reply(st.tls_enabled)),
        ),
        Command::MailFrom => (
            st.reply_with(SessionView { from: clean_address(cmd.skip(10)), ..s1 }, sender_ok_reply()),
            ActionView::Send(sender_ok_reply()),
        ),
        Command::RcptTo => (
            st.reply_with(
                SessionView { recipients: s1.recipients.push(clean_address(cmd.skip(8))), ..s1 },
                recipient_ok_reply(),
            ),
            ActionView::Send(recipient_ok_reply()),
        ),
        Command::Data => (
            ConnectionView { in_data: true, ..st.reply_with(s1, data_start_reply()) },
            ActionView::Send(data_start_reply()),
        ),
        Command::Reset => (
            st.reply_with(s1.with_message_reset(now), reset_reply()),
            ActionView::Send(reset_reply()),
        ),
        Command::Noop => (st.reply_with(s1, ok_reply()), ActionView::Send(ok_reply())),
        Command::StartTls => if st.tls_enabled {
            (st.reply_with(s1, already_tls_reply()), ActionView::Send(already_tls_reply()))
        } else {
            (
                st.reply_with(s1, start_tls_reply()),
                ActionView::SendThenStartTls(start_tls_reply()),
            )
        },
        Command::Quit => (st.reply_with(s1, bye_reply()), ActionView::SendThenClose(bye_reply())),
        Command::Other => (st.reply_with(s1, ok_reply()), ActionView::Send(ok_reply())),
    }
}

/// The state after a line `line` in data mode, and the action. The end-of-data line
/// leaves data mode and hands the message over; it stays in the session until
/// [`processed`] starts the next one.
pub open spec fn data_step(st: ConnectionView, line: Seq<char>) -> (ConnectionView, ActionView) {
    let s1 = st.session.with_record("C: "@, line);
    let cmd = command_of(line);
    if is_end_of_data(cmd) {
        let s2 = s1.with_record("S: "@, accepted_reply());
        (
            ConnectionView { session: s2, in_data: false, ..st },
            ActionView::SendThenDeliver(accepted_reply(), s2.email()),
        )
    } else {
        (
            ConnectionView {
                session: SessionView { data: s1.data + data_text(cmd) + seq!['\n'], ..s1 },
                ..st
            },
            ActionView::ReadMore,
        )
    }
}

/// The state after the client sent `line`, and the action.
pub open spec fn step(st: ConnectionView, line: Seq<char>, now: Timestamp) -> (
    ConnectionView,
    ActionView,
) {
    if st.in_data {
        data_step(st, line)
    } else {
        command_step(st, line, now)
    }
}

/// The state once the delivered email has been processed: a fresh message stamped `now`;
/// the transcript is kept.
pub open spec fn processed(st: ConnectionView, now: Timestamp) -> ConnectionView {
    ConnectionView { session: st.session.with_message_reset(now), ..st }
}

/// The action when the client closes the connection.
pub open spec fn close_action(st: ConnectionView) -> ActionView {
    if st.in_data {
        ActionView::Fail(SmtpError::ClosedDuringData)
    } else {
        ActionView::Close
    }
}

/// The kind of a command line.
pub fn classify_command(command: &Vec<char>) -> (k: Command)
    ensures
        k == classify(command@),
{
    if starts_with_upper(command, "HELO ") || starts_with_upper(command, "EHLO ") {
        Command::Hello
    } else if starts_with_upper(command, "MAIL FROM:") {
        Command::MailFrom
    } else if starts_with_upper(command, "RCPT TO:") {
        Command::RcptTo
    } else if equals_upper(command, "DATA") {
        Command::Data
    } else if equals_upper(command, "RSET") {
        Command::Reset
    } else if equals_upper(command, "NOOP") {
        Command::Noop
    } else if equals_upper(command, "STARTTLS") {
        Command::StartTls
    } else if equals_upper(command, "QUIT") {
        Command::Quit
    } else {
        Command::Other
    }
}

/// Upper-casing maps only ASCII letters, so text whose upper-case form is ASCII is ASCII.
proof fn lemma_upper_ascii_prefix(s: Seq<char>, kw: Seq<char>)
    requires
        starts_with(upper_text(s), kw),
        is_ascii_chars(kw),
    ensures
        is_ascii_chars(s.take(kw.len() as int)),
{
    assert forall|i: int| 0 <= i < kw.len() implies '\0' <= #[trigger] s.take(
        kw.len() as int,
    )[i] <= '\u{7f}' by {
        assert(upper_text(s).take(kw.len() as int)[i] == kw[i]);
        assert(ascii_upper(s[i]) == kw[i]);
    }
}

/// The address after an ASCII keyword that the upper-case command starts with.
fn address_after(command: &Vec<char>, keyword: &str) -> (address: String)
    requires
        starts_with(upper_text(command@), keyword@),
        is_ascii_chars(keyword@),
    ensures
        address@ == clean_address(command@.skip(keyword@.len() as int)),
{
    let text = string_of(command);
    proof {
        let k = keyword@.len() as int;
        lemma_upper_ascii_prefix(command@, keyword@);
        lemma_ascii_byte_len(keyword@);
        lemma_ascii_byte_len(command@.take(k));
        lemma_boundary_after_chars(command@, k);
        assert(upper_text(command@).len() == command@.len());
        assert(k <= command.len());
    }
    parse_address(text.as_str(), keyword)
}

impl SmtpConnection {
    /// A plain-text conversation with the client at `peer_addr`, its first message stamped
    /// `now`.
    pub fn new_at(peer_addr: String, now: Timestamp) -> (c: SmtpConnection)
        ensures
            c@ == (ConnectionView {
                session: fresh_session(peer_addr@, now),
                tls_enabled: false,
                in_data: false,
            }),
    {
        SmtpConnection { session: SmtpSession::new_at(peer_addr, now), tls_enabled: false, in_data: false }
    }

    /// A plain-text conversation with the client at `peer_addr`, stamped with the current
    /// time; `None` where the system clock reads outside the range of valid instants.
    pub fn new(peer_addr: String) -> (c: Option<SmtpConnection>)
        ensures
            c matches Some(v) ==> v@ == (ConnectionView {
                session: fresh_session(peer_addr@, v.session.received_at),
                tls_enabled: false,
                in_data: false,
            }) && v.session.received_at.is_valid(),
    {
        match clock_now() {
            Some(now) => Some(SmtpConnection::new_at(peer_addr, now)),
            None => None,
        }
    }

    /// The greeting, recorded in the transcript; the caller sends it before reading.
    pub fn greet(&mut self) -> (reply: String)
        ensures
            reply@ == greeting_reply(),
            final(self)@ == (ConnectionView {
                session: old(self)@.session.with_record("S: "@, greeting_reply()),
                ..old(self)@
            }),
    {
        self.session.record_server("220 mail-box ready\r\n");
        String::from_str("220 mail-box ready\r\n")
    }

    /// Notes that the TLS handshake has completed: TLS is on from now on.
    pub fn tls_started(&mut self)
        ensures
            final(self)@ == (ConnectionView {
                session: old(self)@.session.with_record("S: "@, tls_done_note()),
                tls_enabled: true,
                ..old(self)@
            }),
    {
        self.session.record_server("TLS: handshake completed\r\n");
        self.tls_enabled = true;
    }

    /// What to do when the client closes the connection.
    pub fn handle_close(&self) -> (action: SmtpAction)
        ensures
            action@ == close_action(self@),
    {
        if self.in_data {
            SmtpAction::Fail(SmtpError::ClosedDuringData)
        } else {
            SmtpAction::Close
        }
    }

    /// Starts a fresh message stamped `now`, once the email that the end-of-data line handed
    /// over has been processed; the transcript is kept.
    pub fn message_processed_at(&mut self, now: Timestamp)
        ensures
            final(self)@ == processed(old(self)@, now),
    {
        self.session.reset_message_at(now);
    }

    /// Starts a fresh message stamped with the current time, once the delivered email has
    /// been processed. Returns `false`, changing nothing, where the system clock reads
    /// outside the range of valid instants.
    pub fn message_processed(&mut self) -> (done: bool)
        ensures
            done ==> final(self)@ == processed(old(self)@, final(self).session.received_at)
                && final(self).session.received_at.is_valid(),
            !done ==> final(self)@ == old(self)@,
    {
        match clock_now() {
            Some(now) => {
                self.message_processed_at(now);
                true
            },
            None => false,
        }
    }

    /// Records and answers the line `line` from the client (line end included); `now`
    /// stamps the message that this line starts when it is `RSET`.
    pub fn handle_line_at(&mut self, line: &str, now: Timestamp) -> (action: SmtpAction)
        ensures
            (final(self)@, action@) == step(old(self)@, line@, now),
    {
        self.session.record_client(line);
        let chars = chars_of(line);
        let cmd = trim_end_chars(&chars, CharClass::LineEnd);
        if self.in_data {
            if cmd.len() == 1 && cmd[0] == '.' {
                assert(cmd@ =~= seq!['.']);
                self.session.record_server("250 message accepted\r\n");
                let email = self.session.to_email();
                self.in_data = false;
                return SmtpAction::SendThenDeliver(String::from_str("250 message accepted\r\n"), email);
            }
            let text = if cmd.len() >= 2 && cmd[0] == '.' && cmd[1] == '.' {
                assert(cmd@.take(2) =~= seq!['.', '.']);
                chars_in_range(&cmd, 2, cmd.len())
            } else {
                assert(!starts_with(cmd@, seq!['.', '.'])) by {
                    if cmd@.len() >= 2 {
                        if cmd@.take(2) == seq!['.', '.'] {
                            assert(cmd@.take(2)[0] == cmd@[0]);
                            assert(cmd@.take(2)[1] == cmd@[1]);
                        }
                    }
                }
                cmd
            };
            proof {
                if starts_with(cmd@, seq!['.', '.']) {
                    assert(cmd@.subrange(2, cmd@.len() as int) =~= cmd@.skip(2));
                }
            }
            assert(text@ == data_text(cmd@));
            let piece = string_of(&text);
            let ghost before = self.session.data@;
            self.session.data.append(piece.as_str());
            push_char(&mut self.session.data, '\n');
            assert(self.session.data@ =~= before + data_text(cmd@) + seq!['\n']);
            return SmtpAction::ReadMore;
        }
        let kind = classify_command(&cmd);
        match kind {
            Command::Hello => {
                if self.tls_enabled {
                    self.session.record_server("250-mail-box\r\n250 OK\r\n");
                    SmtpAction::Send(String::from_str("250-mail-box\r\n250 OK\r\n"))
                } else {
                    self.session.record_server("250-mail-box\r\n250-STARTTLS\r\n250 OK\r\n");
                    SmtpAction::Send(String::from_str("250-mail-box\r\n250-STARTTLS\r\n250 OK\r\n"))
                }
            },
            Command::MailFrom => {
                proof {
                    reveal_strlit("MAIL FROM:");
                }
                self.session.from = address_after(&cmd, "MAIL FROM:");
                self.session.record_server("250 sender ok\r\n");
                SmtpAction::Send(String::from_str("250 sender ok\r\n"))
            },
            Command::RcptTo => {
                proof {
                    reveal_strlit("RCPT TO:");
                }
                let address = address_after(&cmd, "RCPT TO:");
                self.session.recipients.push(address);
                proof {
                    assert(crate::session::texts(self.session.recipients@) =~= old(self)@.session.recipients.push(address@));
                }
                self.session.record_server("250 recipient ok\r\n");
                SmtpAction::Send(String::from_str("250 recipient ok\r\n"))
            },
            Command::Data => {
                self.session.record_server("354 end with <CRLF>.<CRLF>\r\n");
                self.in_data = true;
                SmtpAction::Send(String::from_str("354 end with <CRLF>.<CRLF>\r\n"))
            },
            Command::Reset => {
                self.session.reset_message_at(now);
                self.session.record_server("250 reset ok\r\n");
                SmtpAction::Send(String::from_str("250 reset ok\r\n"))
            },
            Command::Noop => {
                self.session.record_server("250 ok\r\n");
                SmtpAction::Send(String::from_str("250 ok\r\n"))
            },
            Command::StartTls => {
                if self.tls_enabled {
                    self.session.record_server("250 already using TLS\r\n");
                    SmtpAction::Send(String::from_str("250 already using TLS\r\n"))
                } else {
                    self.session.record_server("220 ready to start TLS\r\n");
                    SmtpAction::SendThenStartTls(String::from_str("220 ready to start TLS\r\n"))
                }
            },
            Command::Quit => {
                self.session.record_server("221 bye\r\n");
                SmtpAction::SendThenClose(String::from_str("221 bye\r\n"))
            },
            Command::Other => {
                self.session.record_server("250 ok\r\n");
                SmtpAction::Send(String::from_str("250 ok\r\n"))
            },
        }
    }

    /// Records and answers the line `line` from the client; the current time stamps the
    /// message that this line starts when it is `RSET`. `None`, with nothing
    /// changed, where the system clock reads outside the range of valid instants.
    pub fn handle_line(&mut self, line: &str) -> (action: Option<SmtpAction>)
        ensures
            action matches Some(a) ==> exists|now: Timestamp|
                now.is_valid() && (final(self)@, a@) == #[trigger] step(old(self)@, line@, now),
            action is None ==> final(self)@ == old(self)@,
    {
        match clock_now() {
            Some(now) => Some(self.handle_line_at(line, now)),
            None => None,
        }
    }
}

/// The reply an action sends, if any.
pub open spec fn reply_of(a: ActionView) -> Option<Seq<char>> {
    match a {
        ActionView::Send(r) => Some(r),
        ActionView::SendThenStartTls(r) => Some(r),
        ActionView::SendThenDeliver(r, _) => Some(r),
        ActionView::SendThenClose(r) => Some(r),
        _ => None,
    }
}

/// Law: every line the client sends is appended to the transcript, followed by the reply
/// when there is one; nothing recorded earlier changes.
pub proof fn law_transcript_records_everything(st: ConnectionView, line: Seq<char>, now: Timestamp)
    ensures
        ({
            let (next, action) = step(st, line, now);
            let heard = st.session.transcript + "C: "@ + line;
            match reply_of(action) {
                Some(r) => next.session.transcript == heard + "S: "@ + r,
                None => next.session.transcript == heard,
            }
        }),
{
}

/// Law: once TLS is on it stays on, and the peer address never changes.
pub proof fn law_tls_and_peer_are_kept(st: ConnectionView, line: Seq<char>, now: Timestamp)
    ensures
        st.tls_enabled ==> step(st, line, now).0.tls_enabled,
        step(st, line, now).0.session.peer_addr == st.session.peer_addr,
{
}

/// Law: the greeting to `HELO`/`EHLO` advertises `STARTTLS` exactly while the connection
/// is plain text.
pub proof fn law_starttls_advertised_until_tls(st: ConnectionView, line: Seq<char>, now: Timestamp)
    requires
        !st.in_data,
        classify(command_of(line)) == Command::Hello,
    ensures
        step(st, line, now).1 == ActionView::Send(hello_reply(st.tls_enabled)),
        hello_reply(false) == "250-mail-box\r\n"@ + "250-STARTTLS\r\n"@ + "250 OK\r\n"@,
        hello_reply(true) == "250-mail-box\r\n"@ + "250 OK\r\n"@,
{
    reveal_strlit("250-mail-box\r\n");
    reveal_strlit("250-STARTTLS\r\n");
    reveal_strlit("250 OK\r\n");
    reveal_strlit("250-mail-box\r\n250-STARTTLS\r\n250 OK\r\n");
    reveal_strlit("250-mail-box\r\n250 OK\r\n");
    assert(hello_reply(false) =~= "250-mail-box\r\n"@ + "250-STARTTLS\r\n"@ + "250 OK\r\n"@);
    assert(hello_reply(true) =~= "250-mail-box\r\n"@ + "250 OK\r\n"@);
}

/// Law: every sender and every recipient is accepted, and recorded as given.
pub proof fn law_accepts_all_senders_and_recipients(
    st: ConnectionView,
    line: Seq<char>,
    now: Timestamp,
)
    requires
        !st.in_data,
    ensures
        classify(command_of(line)) == Command::MailFrom ==> {
            &&& step(st, line, now).1 == ActionView::Send(sender_ok_reply())
            &&& step(st, line, now).0.session.from == clean_address(command_of(line).skip(10))
        },
        classify(command_of(line)) == Command::RcptTo ==> {
            &&& step(st, line, now).1 == ActionView::Send(recipient_ok_reply())
            &&& step(st, line, now).0.session.recipients == st.session.recipients.push(
                clean_address(command_of(line).skip(8)),
            )
        },
{
}

/// Law: a command the receiver does not know is answered `250 ok` and changes nothing but
/// the transcript.
pub proof fn law_unknown_commands_accepted(st: ConnectionView, line: Seq<char>, now: Timestamp)
    requires
        !st.in_data,
        classify(command_of(line)) == Command::Other,
    ensures
        step(st, line, now).1 == ActionView::Send(ok_reply()),
        step(st, line, now).0 == (ConnectionView {
            session: st.session.with_record("C: "@, line).with_record("S: "@, ok_reply()),
            ..st
        }),
{
}

/// Law: message data accumulates line by line, each line without its line end and
/// without a leading `..`, followed by `\n`.
pub proof fn law_data_lines_accumulate(st: ConnectionView, line: Seq<char>, now: Timestamp)
    requires
        st.in_data,
        !is_end_of_data(command_of(line)),
    ensures
        step(st, line, now).1 == ActionView::ReadMore,
        step(st, line, now).0.in_data,
        step(st, line, now).0.session.data == st.session.data + data_text(command_of(line))
            + seq!['\n'],
        step(st, line, now).0.session.from == st.session.from,
        step(st, line, now).0.session.recipients == st.session.recipients,
{
}

/// Law: the end-of-data line delivers the message collected so far, with the reply in its
/// transcript; once it is processed a fresh message starts, and the transcript is kept.
pub proof fn law_delivery_then_fresh_message(
    st: ConnectionView,
    line: Seq<char>,
    now: Timestamp,
    later: Timestamp,
)
    requires
        st.in_data,
        is_end_of_data(command_of(line)),
    ensures
        ({
            let (handed, action) = step(st, line, now);
            let next = processed(handed, later);
            let t = st.session.transcript + "C: "@ + line + "S: "@ + accepted_reply();
            &&& action == ActionView::SendThenDeliver(
                accepted_reply(),
                EmailView {
                    peer_addr: st.session.peer_addr,
                    from: st.session.from,
                    recipients: st.session.recipients,
                    data: st.session.data,
                    transcript: t,
                    received_at: st.session.received_at,
                },
            )
            &&& !handed.in_data
            &&& handed.session.transcript == t
            &&& !next.in_data
            &&& next.session.from == crate::session::unknown_sender()
            &&& next.session.recipients.len() == 0
            &&& next.session.data.len() == 0
            &&& next.session.transcript == t
            &&& next.session.received_at == later
        }),
{
}

/// Law: a closed connection ends the conversation normally, unless message data was
/// being read.
pub proof fn law_close_fails_only_during_data(st: ConnectionView)
    ensures
        close_action(st) == ActionView::Close <==> !st.in_data,
        close_action(st) == ActionView::Fail(SmtpError::ClosedDuringData) <==> st.in_data,
{
}

/// Something that happens on a connection: a line from the client (with the instant that
/// stamps a message that `RSET` starts), the completion of a TLS handshake, or the end of
/// processing a delivered email.
pub enum ConnectionEvent {
    Line(Seq<char>, Timestamp),
    HandshakeDone,
    /// The delivered email has been processed; the next message is stamped with the instant.
    Processed(Timestamp),
}

/// The state after a completed TLS handshake (what [`SmtpConnection::tls_started`] does).
pub open spec fn with_tls(st: ConnectionView) -> ConnectionView {
    ConnectionView {
        session: st.session.with_record("S: "@, tls_done_note()),
        tls_enabled: true,
        ..st
    }
}

/// The state after one event.
pub open spec fn event_step(st: ConnectionView, e: ConnectionEvent) -> ConnectionView {
    match e {
        ConnectionEvent::Line(line, now) => step(st, line, now).0,
        ConnectionEvent::HandshakeDone => with_tls(st),
        ConnectionEvent::Processed(now) => processed(st, now),
    }
}

/// The state after a sequence of events.
pub open spec fn after(st: ConnectionView, events: Seq<ConnectionEvent>) -> ConnectionView
    decreases events.len(),
{
    if events.len() == 0 {
        st
    } else {
        event_step(after(st, events.drop_last()), events.last())
    }
}

/// What one event adds to the transcript: `C: ` and the client line, then `S: ` and the
/// reply if there is one; `S: ` and the handshake note for a completed handshake.
pub open spec fn exchange_text(st: ConnectionView, e: ConnectionEvent) -> Seq<char> {
    match e {
        ConnectionEvent::Line(line, now) => "C: "@ + line + match reply_of(step(st, line, now).1) {
            Some(r) => "S: "@ + r,
            None => Seq::empty(),
        },
        ConnectionEvent::HandshakeDone => "S: "@ + tls_done_note(),
        ConnectionEvent::Processed(_) => Seq::empty(),
    }
}

/// Everything a sequence of events adds to the transcript, in order.
pub open spec fn log_of(st: ConnectionView, events: Seq<ConnectionEvent>) -> Seq<char>
    decreases events.len(),
{
    if events.len() == 0 {
        Seq::empty()
    } else {
        log_of(st, events.drop_last()) + exchange_text(after(st, events.drop_last()), events.last())
    }
}

/// A connection that has just been greeted.
pub open spec fn greeted(peer_addr: Seq<char>, now: Timestamp) -> ConnectionView {
    ConnectionView {
        session: fresh_session(peer_addr, now).with_record("S: "@, greeting_reply()),
        tls_enabled: false,
        in_data: false,
    }
}

proof fn lemma_step_transcript(st: ConnectionView, e: ConnectionEvent)
    ensures
        event_step(st, e).session.transcript == st.session.transcript + exchange_text(st, e),
{
    match e {
        ConnectionEvent::Line(line, now) => {
            law_transcript_records_everything(st, line, now);
            match reply_of(step(st, line, now).1) {
                Some(r) => {
                    assert(st.session.transcript + ("C: "@ + line + ("S: "@ + r))
                        =~= st.session.transcript + "C: "@ + line + "S: "@ + r);
                },
                None => {
                    assert(st.session.transcript + ("C: "@ + line + Seq::empty())
                        =~= st.session.transcript + "C: "@ + line);
                },
            }
        },
        ConnectionEvent::HandshakeDone => {},
        ConnectionEvent::Processed(_) => {
            assert(st.session.transcript + Seq::<char>::empty() =~= st.session.transcript);
        },
    }
}

/// Law: over a whole connection the transcript is what it held at the start followed by
/// every exchange, in the order they happened.
pub proof fn law_transcript_is_the_log(st: ConnectionView, events: Seq<ConnectionEvent>)
    ensures
        after(st, events).session.transcript == st.session.transcript + log_of(st, events),
    decreases events.len(),
{
    if events.len() == 0 {
        assert(st.session.transcript + Seq::empty() =~= st.session.transcript);
    } else {
        let init = events.drop_last();
        law_transcript_is_the_log(st, init);
        lemma_step_transcript(after(st, init), events.last());
        assert(st.session.transcript + log_of(st, init) + exchange_text(after(st, init), events.last())
            =~= st.session.transcript + log_of(st, events));
    }
}

/// Law: the transcript of every email delivered on a connection starts with the greeting.
pub proof fn law_every_email_starts_with_greeting(
    peer_addr: Seq<char>,
    start: Timestamp,
    events: Seq<ConnectionEvent>,
    line: Seq<char>,
    now: Timestamp,
)
    ensures
        step(after(greeted(peer_addr, start), events), line, now).1 matches ActionView::SendThenDeliver(
            _,
            email,
        ) ==> starts_with(email.transcript, "S: "@ + greeting_reply()),
{
    let st0 = greeted(peer_addr, start);
    let st = after(st0, events);
    law_transcript_is_the_log(st0, events);
    let g = "S: "@ + greeting_reply();
    assert(st0.session.transcript =~= g);
    if let ActionView::SendThenDeliver(_, email) = step(st, line, now).1 {
        let t = email.transcript;
        assert(t =~= g + (log_of(st0, events) + "C: "@ + line + "S: "@ + accepted_reply()));
        assert(t.take(g.len() as int) =~= g);
    }
}

/// Law: starting from a plain connection, TLS is on exactly when a handshake has
/// completed, so `HELO`/`EHLO` is answered with `STARTTLS` among the capabilities exactly
/// until then.
pub proof fn law_tls_on_exactly_after_handshake(
    st: ConnectionView,
    events: Seq<ConnectionEvent>,
    line: Seq<char>,
    now: Timestamp,
)
    requires
        !st.tls_enabled,
    ensures
        after(st, events).tls_enabled <==> events.contains(ConnectionEvent::HandshakeDone),
        !after(st, events).in_data && classify(command_of(line)) == Command::Hello ==> step(
            after(st, events),
            line,
            now,
        ).1 == ActionView::Send(hello_reply(events.contains(ConnectionEvent::HandshakeDone))),
    decreases events.len(),
{
    if events.len() > 0 {
        let init = events.drop_last();
        law_tls_on_exactly_after_handshake(st, init, line, now);
        let last = events.last();
        if init.contains(ConnectionEvent::HandshakeDone) {
            let i = choose|i: int| 0 <= i < init.len() && init[i] == ConnectionEvent::HandshakeDone;
            assert(events[i] == init[i]);
        }
        if last == ConnectionEvent::HandshakeDone {
            assert(events[events.len() - 1] == last);
        }
        if events.contains(ConnectionEvent::HandshakeDone) {
            let i = choose|i: int|
                0 <= i < events.len() && events[i] == ConnectionEvent::HandshakeDone;
            if i < events.len() - 1 {
                assert(init[i] == events[i]);
            }
        }
        match last {
            ConnectionEvent::Line(l, n) => {
                law_tls_and_peer_are_kept(after(st, init), l, n);
            },
            ConnectionEvent::HandshakeDone => {},
            ConnectionEvent::Processed(_) => {},
        }
    }
}

/// The message data a sequence of data lines gives: each line's text followed by `\n`.
pub open spec fn data_of(lines: Seq<Seq<char>>) -> Seq<char>
    decreases lines.len(),
{
    if lines.len() == 0 {
        Seq::empty()
    } else {
        data_of(lines.drop_last()) + data_text(command_of(lines.last())) + seq!['\n']
    }
}

/// The events of client lines all stamped `now`.
pub open spec fn line_events(lines: Seq<Seq<char>>, now: Timestamp) -> Seq<ConnectionEvent> {
    lines.map_values(|l: Seq<char>| ConnectionEvent::Line(l, now))
}

/// Law: the DATA phase. Lines other than the end marker only add to the data; the sender,
/// recipients, peer, stamp and TLS state stay; the data held before is kept as a prefix; the end
/// marker then delivers exactly that data and leaves data mode, so nothing after it is read
/// as data.
pub proof fn law_data_phase(
    st: ConnectionView,
    lines: Seq<Seq<char>>,
    end: Seq<char>,
    now: Timestamp,
)
    requires
        st.in_data,
        forall|i: int| 0 <= i < lines.len() ==> !is_end_of_data(command_of(#[trigger] lines[i])),
        is_end_of_data(command_of(end)),
    ensures
        ({
            let mid = after(st, line_events(lines, now));
            &&& mid.in_data
            &&& mid.tls_enabled == st.tls_enabled
            &&& mid.session.from == st.session.from
            &&& mid.session.recipients == st.session.recipients
            &&& mid.session.peer_addr == st.session.peer_addr
            &&& mid.session.received_at == st.session.received_at
            &&& mid.session.data == st.session.data + data_of(lines)
            &&& step(mid, end, now).1 matches ActionView::SendThenDeliver(_, email) && email.data
                == st.session.data + data_of(lines) && email.from == st.session.from
                && email.recipients == st.session.recipients
            &&& !step(mid, end, now).0.in_data
        }),
    decreases lines.len(),
{
    if lines.len() > 0 {
        let init = lines.drop_last();
        assert forall|i: int| 0 <= i < init.len() implies !is_end_of_data(
            command_of(#[trigger] init[i]),
        ) by {
            assert(init[i] == lines[i]);
        }
        law_data_phase(st, init, end, now);
        assert(line_events(lines, now).drop_last() =~= line_events(init, now));
        assert(line_events(lines, now).last() == ConnectionEvent::Line(lines.last(), now));
        assert(!is_end_of_data(command_of(lines[lines.len() - 1])));
        let prev = after(st, line_events(init, now));
        law_data_lines_accumulate(prev, lines.last(), now);
        assert(st.session.data + data_of(init) + data_text(command_of(lines.last())) + seq!['\n']
            =~= st.session.data + data_of(lines));
    } else {
        assert(line_events(lines, now) =~= Seq::<ConnectionEvent>::empty());
        assert(st.session.data + data_of(lines) =~= st.session.data);
    }
}


/// The addresses that a sequence of `RCPT TO` lines gives, in order.
pub open spec fn recipient_addresses(lines: Seq<Seq<char>>) -> Seq<Seq<char>> {
    lines.map_values(|l: Seq<char>| clean_address(command_of(l).skip(8)))
}

/// The events of a mail transaction up to its end marker: `MAIL FROM`, the `RCPT TO`
/// lines, `DATA`, and the data lines, all stamped `now`.
pub open spec fn transaction_events(
    mail: Seq<char>,
    rcpts: Seq<Seq<char>>,
    data: Seq<char>,
    bodies: Seq<Seq<char>>,
    now: Timestamp,
) -> Seq<ConnectionEvent> {
    seq![ConnectionEvent::Line(mail, now)] + line_events(rcpts, now) + seq![
        ConnectionEvent::Line(data, now),
    ] + line_events(bodies, now)
}

/// The lines form a mail transaction: a `MAIL FROM` line, `RCPT TO` lines, a `DATA` line,
/// and data lines none of which is the end marker.
pub open spec fn is_transaction(
    mail: Seq<char>,
    rcpts: Seq<Seq<char>>,
    data: Seq<char>,
    bodies: Seq<Seq<char>>,
) -> bool {
    &&& classify(command_of(mail)) == Command::MailFrom
    &&& forall|i: int|
        0 <= i < rcpts.len() ==> classify(command_of(#[trigger] rcpts[i])) == Command::RcptTo
    &&& classify(command_of(data)) == Command::Data
    &&& forall|i: int| 0 <= i < bodies.len() ==> !is_end_of_data(command_of(#[trigger] bodies[i]))
}

proof fn lemma_after_concat(st: ConnectionView, a: Seq<ConnectionEvent>, b: Seq<ConnectionEvent>)
    ensures
        after(st, a + b) == after(after(st, a), b),
    decreases b.len(),
{
    if b.len() == 0 {
        assert(a + b =~= a);
    } else {
        lemma_after_concat(st, a, b.drop_last());
        assert((a + b).drop_last() =~= a + b.drop_last());
        assert((a + b).last() == b.last());
    }
}

proof fn lemma_after_one(st: ConnectionView, e: ConnectionEvent)
    ensures
        after(st, seq![e]) == event_step(st, e),
{
    let one = seq![e];
    assert(one.drop_last() =~= Seq::<ConnectionEvent>::empty());
    assert(after(st, one.drop_last()) == st);
    assert(one.last() == e);
}

proof fn lemma_recipient_lines(st: ConnectionView, rcpts: Seq<Seq<char>>, now: Timestamp)
    requires
        !st.in_data,
        forall|i: int|
            0 <= i < rcpts.len() ==> classify(command_of(#[trigger] rcpts[i])) == Command::RcptTo,
    ensures
        ({
            let s = after(st, line_events(rcpts, now));
            &&& !s.in_data
            &&& s.tls_enabled == st.tls_enabled
            &&& s.session.peer_addr == st.session.peer_addr
            &&& s.session.from == st.session.from
            &&& s.session.recipients == st.session.recipients + recipient_addresses(rcpts)
            &&& s.session.data == st.session.data
            &&& s.session.received_at == st.session.received_at
        }),
    decreases rcpts.len(),
{
    if rcpts.len() > 0 {
        let init = rcpts.drop_last();
        assert forall|i: int| 0 <= i < init.len() implies classify(
            command_of(#[trigger] init[i]),
        ) == Command::RcptTo by {
            assert(init[i] == rcpts[i]);
        }
        lemma_recipient_lines(st, init, now);
        assert(line_events(rcpts, now).drop_last() =~= line_events(init, now));
        assert(line_events(rcpts, now).last() == ConnectionEvent::Line(rcpts.last(), now));
        assert(classify(command_of(rcpts[rcpts.len() - 1])) == Command::RcptTo);
        assert((st.session.recipients + recipient_addresses(init)).push(
            clean_address(command_of(rcpts.last()).skip(8)),
        ) =~= st.session.recipients + recipient_addresses(rcpts));
    } else {
        assert(line_events(rcpts, now) =~= Seq::<ConnectionEvent>::empty());
        assert(st.session.recipients + recipient_addresses(rcpts) =~= st.session.recipients);
    }
}

/// Law: a mail transaction — `MAIL FROM`, any number of `RCPT TO` lines, `DATA`, any
/// number of data lines, and the end-of-data line — delivers one email: from the sender of
/// the `MAIL FROM` line, to the recipients held before followed by those of the `RCPT TO`
/// lines in order, holding the data held before followed by the data lines, with the whole
/// transcript, stamped as the session was; the connection then leaves data mode.
pub proof fn law_mail_transaction_delivers(
    st: ConnectionView,
    mail: Seq<char>,
    rcpts: Seq<Seq<char>>,
    data: Seq<char>,
    bodies: Seq<Seq<char>>,
    end: Seq<char>,
    now: Timestamp,
)
    requires
        !st.in_data,
        is_transaction(mail, rcpts, data, bodies),
        is_end_of_data(command_of(end)),
    ensures
        ({
            let events = transaction_events(mail, rcpts, data, bodies, now);
            let (next, action) = step(after(st, events), end, now);
            &&& action == ActionView::SendThenDeliver(
                accepted_reply(),
                EmailView {
                    peer_addr: st.session.peer_addr,
                    from: clean_address(command_of(mail).skip(10)),
                    recipients: st.session.recipients + recipient_addresses(rcpts),
                    data: st.session.data + data_of(bodies),
                    transcript: st.session.transcript + log_of(st, events) + "C: "@ + end + "S: "@
                        + accepted_reply(),
                    received_at: st.session.received_at,
                },
            )
            &&& next.session.transcript == st.session.transcript + log_of(st, events) + "C: "@
                + end + "S: "@ + accepted_reply()
            &&& !next.in_data
            &&& next.tls_enabled == st.tls_enabled
        }),
{
    let m = seq![ConnectionEvent::Line(mail, now)];
    let r = line_events(rcpts, now);
    let d = seq![ConnectionEvent::Line(data, now)];
    let b = line_events(bodies, now);
    let events = transaction_events(mail, rcpts, data, bodies, now);
    lemma_after_concat(st, m + r + d, b);
    lemma_after_concat(st, m + r, d);
    lemma_after_concat(st, m, r);
    lemma_after_one(st, ConnectionEvent::Line(mail, now));
    let s1 = after(st, m);
    assert(s1 == step(st, mail, now).0);
    lemma_recipient_lines(s1, rcpts, now);
    let s2 = after(s1, r);
    assert(after(st, m + r) == s2);
    lemma_after_one(s2, ConnectionEvent::Line(data, now));
    let s3 = after(s2, d);
    assert(after(st, m + r + d) == s3);
    assert(s3 == step(s2, data, now).0);
    law_data_phase(s3, bodies, end, now);
    let s4 = after(s3, b);
    assert(after(st, events) == s4);
    law_transcript_is_the_log(st, events);
    law_transcript_records_everything(s4, end, now);
}

/// Law: two mail transactions on one connection, the first email processed in between,
/// deliver two emails in order. The second holds only what its own transaction gave: its
/// sender, exactly its recipients, exactly its data, stamped when the first was processed;
/// nothing of the first carries over. The first email's transcript is a proper prefix of
/// the second's: the transcript is never reset within a connection.
pub proof fn law_second_transaction_is_independent(
    st: ConnectionView,
    mail1: Seq<char>,
    rcpts1: Seq<Seq<char>>,
    data1: Seq<char>,
    bodies1: Seq<Seq<char>>,
    end1: Seq<char>,
    processed_at: Timestamp,
    mail2: Seq<char>,
    rcpts2: Seq<Seq<char>>,
    data2: Seq<char>,
    bodies2: Seq<Seq<char>>,
    end2: Seq<char>,
    now: Timestamp,
)
    requires
        !st.in_data,
        is_transaction(mail1, rcpts1, data1, bodies1),
        is_end_of_data(command_of(end1)),
        is_transaction(mail2, rcpts2, data2, bodies2),
        is_end_of_data(command_of(end2)),
    ensures
        ({
            let (handed1, action1) = step(
                after(st, transaction_events(mail1, rcpts1, data1, bodies1, now)),
                end1,
                now,
            );
            let st2 = processed(handed1, processed_at);
            let action2 = step(
                after(st2, transaction_events(mail2, rcpts2, data2, bodies2, now)),
                end2,
                now,
            ).1;
            &&& action1 matches ActionView::SendThenDeliver(_, first)
            &&& action2 matches ActionView::SendThenDeliver(_, second)
            &&& first.from == clean_address(command_of(mail1).skip(10))
            &&& first.recipients == st.session.recipients + recipient_addresses(rcpts1)
            &&& first.data == st.session.data + data_of(bodies1)
            &&& second.from == clean_address(command_of(mail2).skip(10))
            &&& second.recipients == recipient_addresses(rcpts2)
            &&& second.data == data_of(bodies2)
            &&& second.received_at == processed_at
            &&& second.peer_addr == first.peer_addr
            &&& first.transcript.len() < second.transcript.len()
            &&& second.transcript.take(first.transcript.len() as int) == first.transcript
        }),
{
    let ev1 = transaction_events(mail1, rcpts1, data1, bodies1, now);
    let ev2 = transaction_events(mail2, rcpts2, data2, bodies2, now);
    law_mail_transaction_delivers(st, mail1, rcpts1, data1, bodies1, end1, now);
    let (handed1, action1) = step(after(st, ev1), end1, now);
    let st2 = processed(handed1, processed_at);
    law_mail_transaction_delivers(st2, mail2, rcpts2, data2, bodies2, end2, now);
    let t1 = handed1.session.transcript;
    let rest = log_of(st2, ev2) + "C: "@ + end2 + "S: "@ + accepted_reply();
    reveal_strlit("C: ");
    assert(st2.session.transcript == t1);
    assert(Seq::<Seq<char>>::empty() + recipient_addresses(rcpts2) =~= recipient_addresses(rcpts2));
    assert(Seq::<char>::empty() + data_of(bodies2) =~= data_of(bodies2));
    assert(t1 + log_of(st2, ev2) + "C: "@ + end2 + "S: "@ + accepted_reply() =~= t1 + rest);
    assert((t1 + rest).take(t1.len() as int) =~= t1);
}

/// `s` is not `prefix`-started when its first character differs from the first character of
/// some other prefix it starts with.
proof fn lemma_first_char_rules_out(s: Seq<char>, p: Seq<char>, q: Seq<char>)
    requires
        starts_with(s, p),
        p.len() > 0,
        q.len() > 0,
        p[0] != q[0],
    ensures
        !starts_with(s, q),
{
    assert(s.take(p.len() as int)[0] == s[0]);
    if starts_with(s, q) {
        assert(s.take(q.len() as int)[0] == s[0]);
    }
}

/// A command line leaves the pending message as it was and keeps the connection's mode.
pub open spec fn message_kept(before: ConnectionView, after: ConnectionView) -> bool {
    &&& after.in_data == before.in_data
    &&& after.tls_enabled == before.tls_enabled
    &&& after.session.peer_addr == before.session.peer_addr
    &&& after.session.from == before.session.from
    &&& after.session.recipients == before.session.recipients
    &&& after.session.data == before.session.data
    &&& after.session.received_at == before.session.received_at
}

/// Law: in command mode, a line whose ASCII upper-case form starts with `HELO ` or with
/// `EHLO ` is answered with the capabilities, `STARTTLS` among them while the connection is
/// plain; nothing but the transcript changes.
pub proof fn law_hello_and_ehlo_get_capabilities(st: ConnectionView, line: Seq<char>, now: Timestamp)
    requires
        !st.in_data,
        starts_with(upper_text(command_of(line)), "HELO "@) || starts_with(
            upper_text(command_of(line)),
            "EHLO "@,
        ),
    ensures
        ({
            let reply = if st.tls_enabled {
                "250-mail-box\r\n250 OK\r\n"@
            } else {
                "250-mail-box\r\n250-STARTTLS\r\n250 OK\r\n"@
            };
            &&& step(st, line, now).1 == ActionView::Send(reply)
            &&& step(st, line, now).0 == (ConnectionView {
                session: st.session.with_record("C: "@, line).with_record("S: "@, reply),
                ..st
            })
        }),
{
}

/// Law: in command mode, a line whose ASCII upper-case form starts with `MAIL FROM:` sets
/// the sender to the address after it and is answered `250 sender ok`; recipients, data and
/// stamp of the pending message stay.
pub proof fn law_mail_from_sets_sender(st: ConnectionView, line: Seq<char>, now: Timestamp)
    requires
        !st.in_data,
        starts_with(upper_text(command_of(line)), "MAIL FROM:"@),
    ensures
        step(st, line, now).1 == ActionView::Send("250 sender ok\r\n"@),
        step(st, line, now).0.session.from == clean_address(command_of(line).skip(10)),
        step(st, line, now).0.session.recipients == st.session.recipients,
        step(st, line, now).0.session.data == st.session.data,
        step(st, line, now).0.session.received_at == st.session.received_at,
        !step(st, line, now).0.in_data,
        step(st, line, now).0.tls_enabled == st.tls_enabled,
{
    let up = upper_text(command_of(line));
    reveal_strlit("MAIL FROM:");
    reveal_strlit("HELO ");
    reveal_strlit("EHLO ");
    lemma_first_char_rules_out(up, "MAIL FROM:"@, "HELO "@);
    lemma_first_char_rules_out(up, "MAIL FROM:"@, "EHLO "@);
}

/// Law: in command mode, a line whose ASCII upper-case form starts with `RCPT TO:` adds the
/// address after it as the last recipient and is answered `250 recipient ok`; sender, the
/// recipients before, data and stamp of the pending message stay.
pub proof fn law_rcpt_to_adds_recipient(st: ConnectionView, line: Seq<char>, now: Timestamp)
    requires
        !st.in_data,
        starts_with(upper_text(command_of(line)), "RCPT TO:"@),
    ensures
        step(st, line, now).1 == ActionView::Send("250 recipient ok\r\n"@),
        step(st, line, now).0.session.recipients == st.session.recipients.push(
            clean_address(command_of(line).skip(8)),
        ),
        step(st, line, now).0.session.from == st.session.from,
        step(st, line, now).0.session.data == st.session.data,
        step(st, line, now).0.session.received_at == st.session.received_at,
        !step(st, line, now).0.in_data,
        step(st, line, now).0.tls_enabled == st.tls_enabled,
{
    let up = upper_text(command_of(line));
    reveal_strlit("RCPT TO:");
    reveal_strlit("MAIL FROM:");
    reveal_strlit("HELO ");
    reveal_strlit("EHLO ");
    lemma_first_char_rules_out(up, "RCPT TO:"@, "HELO "@);
    lemma_first_char_rules_out(up, "RCPT TO:"@, "EHLO "@);
    lemma_first_char_rules_out(up, "RCPT TO:"@, "MAIL FROM:"@);
}

/// The upper-case form of `command` is exactly one of the whole-word commands, so it starts
/// with none of the prefix commands.
proof fn lemma_word_is_no_prefix_command(up: Seq<char>)
    requires
        up == "DATA"@ || up == "RSET"@ || up == "NOOP"@ || up == "STARTTLS"@ || up == "QUIT"@,
    ensures
        !starts_with(up, "HELO "@),
        !starts_with(up, "EHLO "@),
        !starts_with(up, "MAIL FROM:"@),
        !starts_with(up, "RCPT TO:"@),
        up == "DATA"@ ==> up != "RSET"@ && up != "NOOP"@ && up != "STARTTLS"@ && up != "QUIT"@,
        up == "RSET"@ ==> up != "DATA"@ && up != "NOOP"@ && up != "STARTTLS"@ && up != "QUIT"@,
        up == "NOOP"@ ==> up != "DATA"@ && up != "RSET"@ && up != "STARTTLS"@ && up != "QUIT"@,
        up == "STARTTLS"@ ==> up != "DATA"@ && up != "RSET"@ && up != "NOOP"@ && up != "QUIT"@,
        up == "QUIT"@ ==> up != "DATA"@ && up != "RSET"@ && up != "NOOP"@ && up != "STARTTLS"@,
{
    reveal_strlit("DATA");
    reveal_strlit("RSET");
    reveal_strlit("NOOP");
    reveal_strlit("STARTTLS");
    reveal_strlit("QUIT");
    reveal_strlit("HELO ");
    reveal_strlit("EHLO ");
    reveal_strlit("MAIL FROM:");
    reveal_strlit("RCPT TO:");
    if up == "STARTTLS"@ {
        assert(up.take(5)[0] == 'S');
        assert(up.take(8)[0] == 'S');
        assert(up.take(5) != "HELO "@);
        assert(up.take(5) != "EHLO "@);
        assert(up.take(8) != "RCPT TO:"@);
    }
    assert(up.len() > 0 ==> up[0] == up[0]);
    if up.len() > 0 {
        let c = up[0];
        assert(up == "DATA"@ ==> c == 'D');
        assert(up == "RSET"@ ==> c == 'R');
        assert(up == "NOOP"@ ==> c == 'N');
        assert(up == "STARTTLS"@ ==> c == 'S');
        assert(up == "QUIT"@ ==> c == 'Q');
    }
}

/// Law: in command mode, `NOOP` (in any letter case) is answered `250 ok` and changes
/// nothing but the transcript: the sender, recipients, data and stamp of the pending message
/// are kept.
pub proof fn law_noop_changes_only_the_transcript(st: ConnectionView, line: Seq<char>, now: Timestamp)
    requires
        !st.in_data,
        upper_text(command_of(line)) == "NOOP"@,
    ensures
        step(st, line, now).1 == ActionView::Send("250 ok\r\n"@),
        step(st, line, now).0 == (ConnectionView {
            session: st.session.with_record("C: "@, line).with_record("S: "@, "250 ok\r\n"@),
            ..st
        }),
        message_kept(st, step(st, line, now).0),
{
    lemma_word_is_no_prefix_command(upper_text(command_of(line)));
}

/// Law: in command mode, `DATA` (in any letter case) is answered with the `354` prompt and
/// switches to data mode, keeping the sender and recipients gathered.
pub proof fn law_data_command_starts_data_mode(st: ConnectionView, line: Seq<char>, now: Timestamp)
    requires
        !st.in_data,
        upper_text(command_of(line)) == "DATA"@,
    ensures
        step(st, line, now).1 == ActionView::Send("354 end with <CRLF>.<CRLF>\r\n"@),
        step(st, line, now).0.in_data,
        step(st, line, now).0.session.from == st.session.from,
        step(st, line, now).0.session.recipients == st.session.recipients,
        step(st, line, now).0.session.data == st.session.data,
        step(st, line, now).0.session.received_at == st.session.received_at,
        step(st, line, now).0.tls_enabled == st.tls_enabled,
{
    lemma_word_is_no_prefix_command(upper_text(command_of(line)));
}

/// Law: in command mode, `RSET` (in any letter case) is answered `250 reset ok` and drops the
/// pending message: unknown sender, no recipients, no data, a new stamp `now`; the
/// transcript is kept and extended.
pub proof fn law_rset_discards_the_message(st: ConnectionView, line: Seq<char>, now: Timestamp)
    requires
        !st.in_data,
        upper_text(command_of(line)) == "RSET"@,
    ensures
        step(st, line, now).1 == ActionView::Send("250 reset ok\r\n"@),
        step(st, line, now).0.session.from == "unknown-sender"@,
        step(st, line, now).0.session.recipients.len() == 0,
        step(st, line, now).0.session.data.len() == 0,
        step(st, line, now).0.session.received_at == now,
        step(st, line, now).0.session.transcript == st.session.transcript + "C: "@ + line + "S: "@
            + "250 reset ok\r\n"@,
        !step(st, line, now).0.in_data,
        step(st, line, now).0.tls_enabled == st.tls_enabled,
{
    lemma_word_is_no_prefix_command(upper_text(command_of(line)));
}

/// Law: in command mode, `STARTTLS` (in any letter case) asks for the TLS handshake on a
/// plain connection and is answered `250 already using TLS` on an encrypted one; the
/// pending message stays, and TLS is not on until the handshake has completed.
pub proof fn law_starttls_command(st: ConnectionView, line: Seq<char>, now: Timestamp)
    requires
        !st.in_data,
        upper_text(command_of(line)) == "STARTTLS"@,
    ensures
        st.tls_enabled ==> step(st, line, now).1 == ActionView::Send("250 already using TLS\r\n"@),
        !st.tls_enabled ==> step(st, line, now).1 == ActionView::SendThenStartTls(
            "220 ready to start TLS\r\n"@,
        ),
        message_kept(st, step(st, line, now).0),
{
    lemma_word_is_no_prefix_command(upper_text(command_of(line)));
}

/// Law: in command mode, `QUIT` (in any letter case) is answered `221 bye` and ends the
/// conversation.
pub proof fn law_quit_closes(st: ConnectionView, line: Seq<char>, now: Timestamp)
    requires
        !st.in_data,
        upper_text(command_of(line)) == "QUIT"@,
    ensures
        step(st, line, now).1 == ActionView::SendThenClose("221 bye\r\n"@),
        message_kept(st, step(st, line, now).0),
{
    lemma_word_is_no_prefix_command(upper_text(command_of(line)));
}

/// Law: in command mode, a line whose ASCII upper-case form starts with none of `HELO `,
/// `EHLO `, `MAIL FROM:`, `RCPT TO:` and is none of `DATA`, `RSET`, `NOOP`, `STARTTLS`,
/// `QUIT` is answered `250 ok` and changes nothing but the transcript.
pub proof fn law_anything_else_gets_ok(st: ConnectionView, line: Seq<char>, now: Timestamp)
    requires
        !st.in_data,
        ({
            let up = upper_text(command_of(line));
            &&& !starts_with(up, "HELO "@)
            &&& !starts_with(up, "EHLO "@)
            &&& !starts_with(up, "MAIL FROM:"@)
            &&& !starts_with(up, "RCPT TO:"@)
            &&& up != "DATA"@
            &&& up != "RSET"@
            &&& up != "NOOP"@
            &&& up != "STARTTLS"@
            &&& up != "QUIT"@
        }),
    ensures
        step(st, line, now).1 == ActionView::Send("250 ok\r\n"@),
        step(st, line, now).0 == (ConnectionView {
            session: st.session.with_record("C: "@, line).with_record("S: "@, "250 ok\r\n"@),
            ..st
        }),
{
}

/// Text followed by a run of carriage returns and line feeds, the text not ending in one,
/// loses exactly that run as a command.
proof fn lemma_command_of_split(text: Seq<char>, ending: Seq<char>)
    requires
        forall|i: int| 0 <= i < ending.len() ==> #[trigger] ending[i] == '\r' || ending[i] == '\n',
        text.len() == 0 || (text.last() != '\r' && text.last() != '\n'),
    ensures
        command_of(text + ending) == text,
{
    let s = text + ending;
    let hi = text.len() as int;
    assert forall|i: int| hi <= i < s.len() implies crate::text::in_class(
        CharClass::LineEnd,
        #[trigger] s[i],
    ) by {
        assert(s[i] == ending[i - hi]);
    }
    if hi > 0 {
        assert(s[hi - 1] == text.last());
    }
    crate::text::lemma_trim_end_at(s, CharClass::LineEnd, hi);
    assert(s.take(hi) =~= text);
}

/// Law: in data mode, a line other than the lone `.` adds its text to the message data as
/// it was sent — without the line end, leading white space and everything else kept — with
/// one leading `.` removed from a line that starts with `..`, and then `\n`. Sender,
/// recipients and stamp stay, and data mode continues.
pub proof fn law_data_line_kept_verbatim(
    st: ConnectionView,
    text: Seq<char>,
    ending: Seq<char>,
    now: Timestamp,
)
    requires
        st.in_data,
        forall|i: int| 0 <= i < ending.len() ==> #[trigger] ending[i] == '\r' || ending[i] == '\n',
        text.len() == 0 || (text.last() != '\r' && text.last() != '\n'),
        text != seq!['.'],
    ensures
        step(st, text + ending, now).1 == ActionView::ReadMore,
        step(st, text + ending, now).0.in_data,
        step(st, text + ending, now).0.session.data == st.session.data + (if text.len() >= 2
            && text[0] == '.' && text[1] == '.' {
            text.skip(2)
        } else {
            text
        }) + seq!['\n'],
        step(st, text + ending, now).0.session.from == st.session.from,
        step(st, text + ending, now).0.session.recipients == st.session.recipients,
        step(st, text + ending, now).0.session.received_at == st.session.received_at,
{
    lemma_command_of_split(text, ending);
    if text.len() >= 2 && text[0] == '.' && text[1] == '.' {
        assert(text.take(2) =~= seq!['.', '.']);
    } else if starts_with(text, seq!['.', '.']) {
        assert(text.take(2)[0] == text[0]);
        assert(text.take(2)[1] == text[1]);
    }
}

/// Law: in data mode, the lone `.` line (with its line end) delivers the message held —
/// sender, recipients, data and stamp as gathered, the transcript with this line and the
/// `250 message accepted` reply — and leaves data mode.
pub proof fn law_lone_dot_delivers(st: ConnectionView, ending: Seq<char>, now: Timestamp)
    requires
        st.in_data,
        forall|i: int| 0 <= i < ending.len() ==> #[trigger] ending[i] == '\r' || ending[i] == '\n',
    ensures
        ({
            let line = seq!['.'] + ending;
            let t = st.session.transcript + "C: "@ + line + "S: "@ + "250 message accepted\r\n"@;
            &&& step(st, line, now).1 == ActionView::SendThenDeliver(
                "250 message accepted\r\n"@,
                EmailView {
                    peer_addr: st.session.peer_addr,
                    from: st.session.from,
                    recipients: st.session.recipients,
                    data: st.session.data,
                    transcript: t,
                    received_at: st.session.received_at,
                },
            )
            &&& !step(st, line, now).0.in_data
        }),
{
    lemma_command_of_split(seq!['.'], ending);
}

} // verus!

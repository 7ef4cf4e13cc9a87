//! The protocol session: one download attempt as a state machine. The
//! machine consumes IRC lines, read timeouts and replies to its own
//! queries, and emits the wire lines to send, the lifecycle events, and
//! the transfer to start; the surrounding driver performs the I/O.

use vstd::prelude::*;
use vstd::string::StringExecFns;
use crate::dcc::{
    parse_dcc_model, parse_dcc_send, dcc_send_pat, DccOffer, DccOfferModel, sanitize_name,
    sanitize_filename,
};
use crate::locator::{XdccUrl, XdccError, LocatorModel};
use crate::strings::{
    chars_of, contains_sub, dec_digits, has_substr, is_prefix, string_from, substr_at, trim,
    trim_vec, append_dec_u64,
};

verus! {

/// Events a session emits, in order, over one attempt.
pub enum XdccEvent {
    Connecting,
    Connected,
    Joining(String),
    Joined(String),
    Requesting(String, i32),
    DccSend(DccOffer),
    Progress { downloaded: u64, total: u64, speed: u64 },
    Completed,
    Error(XdccError),
}

/// The mathematical shadow of an event.
pub ghost enum EventModel {
    Connecting,
    Connected,
    Joining(Seq<char>),
    Joined(Seq<char>),
    Requesting(Seq<char>, int),
    DccSend(DccOfferModel),
    Progress(u64, u64, u64),
    Completed,
    Error(ErrorModel),
}

/// The mathematical shadow of an error: its kind and detail text.
pub ghost enum ErrorModel {
    InvalidUrl(Seq<char>),
    ConnectionFailed(Seq<char>),
    ChannelJoinFailed(Seq<char>),
    TransferFailed(Seq<char>),
    SearchFailed(Seq<char>),
    Timeout(Seq<char>),
    BotBusy(Seq<char>),
    InvalidPack(Seq<char>),
}

impl View for XdccError {
    type V = ErrorModel;

    open spec fn view(&self) -> ErrorModel {
        match self {
            XdccError::InvalidUrl(m) => ErrorModel::InvalidUrl(m@),
            XdccError::ConnectionFailed(m) => ErrorModel::ConnectionFailed(m@),
            XdccError::ChannelJoinFailed(m) => ErrorModel::ChannelJoinFailed(m@),
            XdccError::TransferFailed(m) => ErrorModel::TransferFailed(m@),
            XdccError::SearchFailed(m) => ErrorModel::SearchFailed(m@),
            XdccError::Timeout(m) => ErrorModel::Timeout(m@),
            XdccError::BotBusy(m) => ErrorModel::BotBusy(m@),
            XdccError::InvalidPack(m) => ErrorModel::InvalidPack(m@),
        }
    }
}

impl View for XdccEvent {
    type V = EventModel;

    open spec fn view(&self) -> EventModel {
        match self {
            XdccEvent::Connecting => EventModel::Connecting,
            XdccEvent::Connected => EventModel::Connected,
            XdccEvent::Joining(c) => EventModel::Joining(c@),
            XdccEvent::Joined(c) => EventModel::Joined(c@),
            XdccEvent::Requesting(b, s) => EventModel::Requesting(b@, *s as int),
            XdccEvent::DccSend(o) => EventModel::DccSend(o@),
            XdccEvent::Progress { downloaded, total, speed } => EventModel::Progress(
                *downloaded,
                *total,
                *speed,
            ),
            XdccEvent::Completed => EventModel::Completed,
            XdccEvent::Error(e) => EventModel::Error(e@),
        }
    }
}

/// What a session asks its driver to do, in order.
pub enum SessionAction {
    /// Write this line, CRLF-terminated, to the IRC transport.
    SendLine(String),
    /// Forward this event to the orchestrating layer.
    Emit(XdccEvent),
    /// Sleep this many seconds before reading on.
    SleepSecs(u64),
    /// Report the size of this partial file in the download directory,
    /// zero when absent, via `SessionInput::FileSize`.
    QueryFileSize(String),
    /// Open the DCC socket for this offer and receive from the offset.
    StartTransfer(DccOffer, u64),
    /// The attempt failed; tear the transport down.
    Fail(XdccError),
}

/// The mathematical shadow of an action.
pub ghost enum ActionModel {
    SendLine(Seq<char>),
    Emit(EventModel),
    SleepSecs(u64),
    QueryFileSize(Seq<char>),
    StartTransfer(DccOfferModel, u64),
    Fail(ErrorModel),
}

impl View for SessionAction {
    type V = ActionModel;

    open spec fn view(&self) -> ActionModel {
        match self {
            SessionAction::SendLine(l) => ActionModel::SendLine(l@),
            SessionAction::Emit(e) => ActionModel::Emit(e@),
            SessionAction::SleepSecs(n) => ActionModel::SleepSecs(*n),
            SessionAction::QueryFileSize(f) => ActionModel::QueryFileSize(f@),
            SessionAction::StartTransfer(o, off) => ActionModel::StartTransfer(o@, *off),
            SessionAction::Fail(e) => ActionModel::Fail(e@),
        }
    }
}

/// What the driver feeds the machine.
pub enum SessionInput {
    /// One IRC line was read.
    Line(String),
    /// The per-line read timed out.
    ReadTimeout,
    /// The server closed the stream.
    Eof,
    /// Reply to `QueryFileSize`: the partial file's size, zero if absent.
    FileSize(u64),
    /// The DCC transfer opened by `StartTransfer` finished.
    TransferDone,
}

/// The mathematical shadow of an input.
pub ghost enum InputModel {
    Line(Seq<char>),
    ReadTimeout,
    Eof,
    FileSize(u64),
    TransferDone,
}

impl View for SessionInput {
    type V = InputModel;

    open spec fn view(&self) -> InputModel {
        match self {
            SessionInput::Line(l) => InputModel::Line(l@),
            SessionInput::ReadTimeout => InputModel::ReadTimeout,
            SessionInput::Eof => InputModel::Eof,
            SessionInput::FileSize(n) => InputModel::FileSize(*n),
            SessionInput::TransferDone => InputModel::TransferDone,
        }
    }
}

/// Where the attempt stands.
#[derive(Clone, Copy, Debug, PartialEq, Eq, Structural)]
pub enum SessionPhase {
    /// Registered (or registering) and exchanging IRC lines.
    Chatting,
    /// A `DCC SEND` arrived; waiting to learn the partial file's size.
    AwaitingFileSize,
    /// The DCC byte transfer is running.
    Transferring,
    /// The attempt finished successfully.
    Done,
    /// The attempt failed.
    Failed,
}

/// The machine's state: identity, target, join/request progress and any
/// pending offer or resume negotiation.
pub struct Session {
    pub nickname: String,
    pub username: String,
    pub realname: String,
    pub resume_enabled: bool,
    pub join_delay_secs: u64,
    pub autojoin: Vec<String>,
    pub locator: XdccUrl,
    pub joined: bool,
    pub requested: bool,
    pub pending_offer: Option<DccOffer>,
    pub pending_resume: Option<(DccOffer, u64)>,
    pub phase: SessionPhase,
}

/// The mathematical shadow of a session.
pub ghost struct SessionModel {
    pub nickname: Seq<char>,
    pub username: Seq<char>,
    pub realname: Seq<char>,
    pub resume_enabled: bool,
    pub join_delay_secs: u64,
    pub autojoin: Seq<Seq<char>>,
    pub locator: LocatorModel,
    pub joined: bool,
    pub requested: bool,
    pub pending_offer: Option<DccOfferModel>,
    pub pending_resume: Option<(DccOfferModel, u64)>,
    pub phase: SessionPhase,
}

impl View for Session {
    type V = SessionModel;

    open spec fn view(&self) -> SessionModel {
        SessionModel {
            nickname: self.nickname@,
            username: self.username@,
            realname: self.realname@,
            resume_enabled: self.resume_enabled,
            join_delay_secs: self.join_delay_secs,
            autojoin: self.autojoin@.map_values(|c: String| c@),
            locator: self.locator@,
            joined: self.joined,
            requested: self.requested,
            pending_offer: match self.pending_offer {
                Some(o) => Some(o@),
                None => None,
            },
            pending_resume: match self.pending_resume {
                Some((o, off)) => Some((o@, off)),
                None => None,
            },
            phase: self.phase,
        }
    }
}


/// The `PING` prefix a server keep-alive starts with.
pub open spec fn ping_pat() -> Seq<char> {
    seq!['P', 'I', 'N', 'G']
}

/// The `PONG` text a keep-alive is answered with.
pub open spec fn pong_pat() -> Seq<char> {
    seq!['P', 'O', 'N', 'G']
}

/// A line with every `PING` replaced by `PONG`.
pub open spec fn pong_of(s: Seq<char>) -> Seq<char>
    decreases s.len(),
{
    if substr_at(s, ping_pat(), 0) {
        pong_pat() + pong_of(s.subrange(4, s.len() as int))
    } else if s.len() == 0 {
        s
    } else {
        seq![s[0]] + pong_of(s.drop_first())
    }
}

/// The welcome numeric that ends registration.
pub open spec fn welcome_mark() -> Seq<char> {
    seq![' ', '0', '0', '1', ' ']
}

/// The end-of-names numeric that confirms a join.
pub open spec fn end_of_names_mark() -> Seq<char> {
    seq![' ', '3', '6', '6', ' ']
}

/// The echoed join confirmation for a channel.
pub open spec fn join_echo(channel: Seq<char>) -> Seq<char> {
    seq!['J', 'O', 'I', 'N', ' ', ':'] + channel
}

/// A `JOIN` command line.
pub open spec fn join_cmd(channel: Seq<char>) -> Seq<char> {
    seq!['J', 'O', 'I', 'N', ' '] + channel
}

/// The `NICK` registration line.
pub open spec fn nick_cmd(nickname: Seq<char>) -> Seq<char> {
    seq!['N', 'I', 'C', 'K', ' '] + nickname
}

/// The `USER` registration line.
pub open spec fn user_cmd(username: Seq<char>, realname: Seq<char>) -> Seq<char> {
    seq!['U', 'S', 'E', 'R', ' '] + username + seq![' ', '0', ' ', '*', ' ', ':'] + realname
}

/// The pack request sent to the bot.
pub open spec fn request_cmd(bot: Seq<char>, slot: int) -> Seq<char> {
    seq!['P', 'R', 'I', 'V', 'M', 'S', 'G', ' '] + bot + seq![
        ' ', ':', 'x', 'd', 'c', 'c', ' ', 's', 'e', 'n', 'd', ' ', '#',
    ] + dec_digits(slot as nat)
}

/// A filename quoted when it contains a space, as DCC requires.
pub open spec fn quoted_name(f: Seq<char>) -> Seq<char> {
    if f.contains(' ') {
        seq!['"'] + f + seq!['"']
    } else {
        f
    }
}

/// The CTCP `DCC RESUME` request for an offer at an offset.
pub open spec fn resume_cmd(bot: Seq<char>, offer: DccOfferModel, offset: u64) -> Seq<char> {
    seq!['P', 'R', 'I', 'V', 'M', 'S', 'G', ' '] + bot + seq![' ', ':', '\u{1}', 'D', 'C', 'C', ' ', 'R', 'E', 'S', 'U', 'M', 'E', ' ']
        + quoted_name(offer.filename) + seq![' '] + dec_digits(offer.port as nat) + seq![' ']
        + dec_digits(offset as nat) + seq!['\u{1}']
}

/// The farewell after a finished transfer.
pub open spec fn quit_cmd() -> Seq<char> {
    seq![
        'Q', 'U', 'I', 'T', ' ', ':', 'T', 'r', 'a', 'n', 's', 'f', 'e', 'r', ' ', 'c', 'o', 'm',
        'p', 'l', 'e', 't', 'e',
    ]
}

/// The `DCC ACCEPT` marker that answers a resume request.
pub open spec fn dcc_accept_pat() -> Seq<char> {
    seq!['D', 'C', 'C', ' ', 'A', 'C', 'C', 'E', 'P', 'T']
}

/// Server texts that end the attempt at once, with their error kinds.
pub open spec fn bot_offline_pat() -> Seq<char> {
    seq!['N', 'o', ' ', 's', 'u', 'c', 'h', ' ', 'n', 'i', 'c', 'k']
}

pub open spec fn not_online_pat() -> Seq<char> {
    seq!['i', 's', ' ', 'n', 'o', 't', ' ', 'o', 'n', 'l', 'i', 'n', 'e']
}

pub open spec fn invalid_pack_pat() -> Seq<char> {
    seq![
        'I', 'n', 'v', 'a', 'l', 'i', 'd', ' ', 'P', 'a', 'c', 'k', ' ', 'N', 'u', 'm', 'b', 'e',
        'r',
    ]
}

pub open spec fn already_requested_pat() -> Seq<char> {
    seq![
        'Y', 'o', 'u', ' ', 'a', 'l', 'r', 'e', 'a', 'd', 'y', ' ', 'r', 'e', 'q', 'u', 'e', 's',
        't', 'e', 'd',
    ]
}

pub open spec fn closing_link_pat() -> Seq<char> {
    seq!['C', 'l', 'o', 's', 'i', 'n', 'g', ' ', 'L', 'i', 'n', 'k']
}

/// The lines sent on joining: each autojoin channel, then the
/// announcement and the join of the target channel.
pub open spec fn welcome_actions(s: SessionModel) -> Seq<ActionModel> {
    s.autojoin.map_values(|c: Seq<char>| ActionModel::SendLine(join_cmd(c))) + seq![
        ActionModel::Emit(EventModel::Joining(s.locator.channel)),
        ActionModel::SendLine(join_cmd(s.locator.channel)),
    ]
}

/// The actions on a confirmed join: the announcement, and the configured
/// idle delay if any.
pub open spec fn joined_actions(s: SessionModel) -> Seq<ActionModel> {
    if s.join_delay_secs > 0 {
        seq![
            ActionModel::Emit(EventModel::Joined(s.locator.channel)),
            ActionModel::SleepSecs(s.join_delay_secs),
        ]
    } else {
        seq![ActionModel::Emit(EventModel::Joined(s.locator.channel))]
    }
}

/// The actions that request the pack.
pub open spec fn request_actions(s: SessionModel) -> Seq<ActionModel> {
    seq![
        ActionModel::Emit(EventModel::Requesting(s.locator.bot, s.locator.slot)),
        ActionModel::SendLine(request_cmd(s.locator.bot, s.locator.slot)),
    ]
}

/// The actions that start a DCC transfer at an offset.
pub open spec fn start_actions(offer: DccOfferModel, offset: u64) -> Seq<ActionModel> {
    seq![
        ActionModel::Emit(EventModel::DccSend(offer)),
        ActionModel::StartTransfer(offer, offset),
    ]
}

/// One step of the machine on a freshly read IRC line, while chatting:
/// keep-alives are answered verbatim; the welcome triggers the joins; the
/// join confirmation (numeric or echo) marks the channel joined, with the
/// configured idle delay; once joined, the pack is requested exactly
/// once; a parseable `DCC SEND` either starts the transfer at offset zero
/// or, with resume enabled, first asks for the partial file's size; a
/// `DCC ACCEPT` resumes a pending negotiation at its recorded offset; and
/// the known server error texts end the attempt with their kinds.
pub open spec fn step_line(s: SessionModel, t: Seq<char>) -> (SessionModel, Seq<ActionModel>) {
    if substr_at(t, ping_pat(), 0) {
        (s, seq![ActionModel::SendLine(pong_of(t))])
    } else {
        let a1 = if has_substr(t, welcome_mark()) && !s.joined {
            welcome_actions(s)
        } else {
            Seq::empty()
        };
        let joined2 = s.joined || has_substr(t, end_of_names_mark()) || has_substr(
            t,
            join_echo(s.locator.channel),
        );
        let a2 = if !s.joined && joined2 {
            joined_actions(s)
        } else {
            Seq::empty()
        };
        let a3 = if joined2 && !s.requested {
            request_actions(s)
        } else {
            Seq::empty()
        };
        let requested2 = s.requested || joined2;
        let s2 = SessionModel { joined: joined2, requested: requested2, ..s };
        let pre = a1 + a2 + a3;
        if has_substr(t, dcc_send_pat()) && parse_dcc_model(t) is Some {
            let offer = parse_dcc_model(t)->0;
            if s.resume_enabled {
                (
                    SessionModel {
                        phase: SessionPhase::AwaitingFileSize,
                        pending_offer: Some(offer),
                        ..s2
                    },
                    pre + seq![ActionModel::QueryFileSize(sanitize_name(offer.filename))],
                )
            } else {
                (
                    SessionModel { phase: SessionPhase::Transferring, ..s2 },
                    pre + start_actions(offer, 0),
                )
            }
        } else if has_substr(t, dcc_accept_pat()) && s.pending_resume is Some {
            let (offer, off) = s.pending_resume->0;
            (
                SessionModel {
                    phase: SessionPhase::Transferring,
                    pending_resume: None,
                    ..s2
                },
                pre + start_actions(offer, off),
            )
        } else if has_substr(t, bot_offline_pat()) || has_substr(t, not_online_pat()) {
            (
                SessionModel { phase: SessionPhase::Failed, ..s2 },
                pre + seq![ActionModel::Fail(ErrorModel::BotBusy(t))],
            )
        } else if has_substr(t, invalid_pack_pat()) {
            (
                SessionModel { phase: SessionPhase::Failed, ..s2 },
                pre + seq![ActionModel::Fail(ErrorModel::InvalidPack(t))],
            )
        } else if has_substr(t, already_requested_pat()) {
            (
                SessionModel { phase: SessionPhase::Failed, ..s2 },
                pre + seq![ActionModel::Fail(ErrorModel::BotBusy(t))],
            )
        } else if has_substr(t, closing_link_pat()) {
            (
                SessionModel { phase: SessionPhase::Failed, ..s2 },
                pre + seq![ActionModel::Fail(ErrorModel::ConnectionFailed(t))],
            )
        } else {
            (s2, pre)
        }
    }
}

/// One step of the machine on any input. A read timeout before the join
/// is fatal; between join and request it is ignored; with a resume
/// pending it falls back to a fresh transfer at offset zero; after the
/// request it is fatal. The file-size reply resumes a small enough
/// partial file and otherwise starts fresh. The end of the byte transfer
/// says farewell and completes the attempt. Inputs that do not fit the
/// phase change nothing.
pub open spec fn step(s: SessionModel, input: InputModel) -> (SessionModel, Seq<ActionModel>) {
    match input {
        InputModel::Line(l) => {
            if s.phase is Chatting {
                step_line(s, trim(l))
            } else {
                (s, Seq::empty())
            }
        },
        InputModel::ReadTimeout => {
            if !(s.phase is Chatting) {
                (s, Seq::empty())
            } else if !s.joined {
                (
                    SessionModel { phase: SessionPhase::Failed, ..s },
                    seq![ActionModel::Fail(ErrorModel::Timeout(Seq::empty()))],
                )
            } else if !s.requested {
                (s, Seq::empty())
            } else if s.pending_resume is Some {
                let (offer, off) = s.pending_resume->0;
                (
                    SessionModel {
                        phase: SessionPhase::Transferring,
                        pending_resume: None,
                        ..s
                    },
                    start_actions(offer, 0),
                )
            } else {
                (
                    SessionModel { phase: SessionPhase::Failed, ..s },
                    seq![ActionModel::Fail(ErrorModel::Timeout(Seq::empty()))],
                )
            }
        },
        InputModel::Eof => {
            if s.phase is Chatting {
                (
                    SessionModel { phase: SessionPhase::Failed, ..s },
                    seq![ActionModel::Fail(ErrorModel::ConnectionFailed(Seq::empty()))],
                )
            } else {
                (s, Seq::empty())
            }
        },
        InputModel::FileSize(n) => {
            if s.phase is AwaitingFileSize && s.pending_offer is Some {
                let offer = s.pending_offer->0;
                if 0 < n && (n as int) < offer.size {
                    (
                        SessionModel {
                            phase: SessionPhase::Chatting,
                            pending_offer: None,
                            pending_resume: Some((offer, n)),
                            ..s
                        },
                        seq![ActionModel::SendLine(resume_cmd(s.locator.bot, offer, n))],
                    )
                } else {
                    (
                        SessionModel {
                            phase: SessionPhase::Transferring,
                            pending_offer: None,
                            ..s
                        },
                        start_actions(offer, 0),
                    )
                }
            } else {
                (s, Seq::empty())
            }
        },
        InputModel::TransferDone => {
            if s.phase is Transferring {
                (
                    SessionModel { phase: SessionPhase::Done, ..s },
                    seq![
                        ActionModel::SendLine(quit_cmd()),
                        ActionModel::Emit(EventModel::Completed),
                    ],
                )
            } else {
                (s, Seq::empty())
            }
        },
    }
}


/// A line with every `PING` answered as `PONG`.
fn pong_line(v: &[char]) -> (r: String)
    ensures
        r@ == pong_of(v@),
{
    let pat = chars_of("PING");
    proof {
        reveal_strlit("PING");
        assert(pat@ =~= ping_pat());
    }
    let n: usize = v.len();
    let mut out: Vec<char> = Vec::new();
    let mut i: usize = 0;
    proof {
        assert(v@.subrange(0, n as int) =~= v@);
        assert(out@ + pong_of(v@) =~= pong_of(v@));
    }
    while i < n
        invariant
            i <= n,
            n == v@.len(),
            pat@ == ping_pat(),
            pong_of(v@) == out@ + pong_of(v@.subrange(i as int, n as int)),
        decreases n - i,
    {
        let ghost suf = v@.subrange(i as int, n as int);
        if crate::strings::is_sub_at(v, pat.as_slice(), i) {
            proof {
                assert(substr_at(suf, ping_pat(), 0)) by {
                    assert(suf.subrange(0, 4) =~= v@.subrange(i as int, i + 4));
                }
                assert(pong_of(suf) == pong_pat() + pong_of(suf.subrange(4, suf.len() as int)));
                assert(suf.subrange(4, suf.len() as int) =~= v@.subrange(i + 4, n as int));
            }
            out.push('P');
            out.push('O');
            out.push('N');
            out.push('G');
            proof {
                assert(pong_of(v@) =~= out@ + pong_of(v@.subrange(i + 4, n as int)));
            }
            i = i + 4;
        } else {
            proof {
                assert(!substr_at(suf, ping_pat(), 0)) by {
                    if substr_at(suf, ping_pat(), 0) {
                        assert(v@.subrange(i as int, i + 4) =~= suf.subrange(0, 4));
                        assert(substr_at(v@, ping_pat(), i as int));
                    }
                }
                assert(suf.len() > 0);
                assert(pong_of(suf) == seq![suf[0]] + pong_of(suf.drop_first()));
                assert(suf.drop_first() =~= v@.subrange(i + 1, n as int));
                assert(suf[0] == v@[i as int]);
            }
            out.push(v[i]);
            proof {
                assert(pong_of(v@) =~= out@ + pong_of(v@.subrange(i + 1, n as int)));
            }
            i = i + 1;
        }
    }
    proof {
        assert(v@.subrange(n as int, n as int) =~= Seq::<char>::empty());
        assert(pong_of(Seq::<char>::empty()) =~= Seq::<char>::empty());
        assert(pong_of(v@) =~= out@);
    }
    string_from(out.as_slice())
}

/// The `JOIN` command for a channel.
fn join_line(channel: &str) -> (r: String)
    ensures
        r@ == join_cmd(channel@),
{
    let mut s = "JOIN ".to_owned();
    proof {
        reveal_strlit("JOIN ");
        assert(s@ =~= seq!['J', 'O', 'I', 'N', ' ']);
    }
    s.append(channel);
    proof {
        assert(s@ =~= join_cmd(channel@));
    }
    s
}

/// The pack request for a bot and slot.
fn request_line(bot: &str, slot: i32) -> (r: String)
    requires
        slot >= 0,
    ensures
        r@ == request_cmd(bot@, slot as int),
{
    let mut s = "PRIVMSG ".to_owned();
    proof {
        reveal_strlit("PRIVMSG ");
        assert(s@ =~= seq!['P', 'R', 'I', 'V', 'M', 'S', 'G', ' ']);
    }
    s.append(bot);
    s.append(" :xdcc send #");
    proof {
        reveal_strlit(" :xdcc send #");
        assert(" :xdcc send #"@ =~= seq![
            ' ', ':', 'x', 'd', 'c', 'c', ' ', 's', 'e', 'n', 'd', ' ', '#',
        ]);
    }
    append_dec_u64(&mut s, slot as u64);
    proof {
        assert(s@ =~= request_cmd(bot@, slot as int));
    }
    s
}

/// The CTCP `DCC RESUME` request for an offer at an offset.
fn resume_line(bot: &str, offer: &DccOffer, offset: u64) -> (r: String)
    ensures
        r@ == resume_cmd(bot@, offer@, offset),
{
    let mut s = "PRIVMSG ".to_owned();
    proof {
        reveal_strlit("PRIVMSG ");
        assert(s@ =~= seq!['P', 'R', 'I', 'V', 'M', 'S', 'G', ' ']);
    }
    s.append(bot);
    s.append(" :\u{1}DCC RESUME ");
    proof {
        reveal_strlit(" :\u{1}DCC RESUME ");
        assert(" :\u{1}DCC RESUME "@ =~= seq![
            ' ', ':', '\u{1}', 'D', 'C', 'C', ' ', 'R', 'E', 'S', 'U', 'M', 'E', ' ',
        ]);
    }
    let fname = chars_of(offer.filename.as_str());
    let mut has_space = false;
    let fn_len: usize = fname.len();
    let mut k: usize = 0;
    while k < fn_len
        invariant
            k <= fn_len,
            fn_len == fname@.len(),
            has_space == exists|j: int| 0 <= j < k && fname@[j] == ' ',
        decreases fn_len - k,
    {
        if fname[k] == ' ' {
            has_space = true;
        }
        k = k + 1;
    }
    proof {
        assert(has_space == offer.filename@.contains(' '));
    }
    if has_space {
        crate::trusted::push_char(&mut s, '"');
        s.append(offer.filename.as_str());
        crate::trusted::push_char(&mut s, '"');
        proof {
            assert(quoted_name(offer@.filename) =~= seq!['"'] + offer.filename@ + seq!['"']);
        }
    } else {
        s.append(offer.filename.as_str());
    }
    crate::trusted::push_char(&mut s, ' ');
    append_dec_u64(&mut s, offer.port as u64);
    crate::trusted::push_char(&mut s, ' ');
    append_dec_u64(&mut s, offset);
    crate::trusted::push_char(&mut s, '\u{1}');
    proof {
        assert(s@ =~= resume_cmd(bot@, offer@, offset));
    }
    s
}

impl Session {
    /// The machine's locator is one the parser could have produced.
    pub open spec fn wf(&self) -> bool {
        crate::locator::locator_wf(self@.locator)
    }

    /// A fresh machine for one attempt at the given target.
    pub fn new(
        nickname: String,
        username: String,
        realname: String,
        resume_enabled: bool,
        join_delay_secs: u64,
        autojoin: Vec<String>,
        locator: XdccUrl,
    ) -> (r: Session)
        requires
            locator.wf(),
        ensures
            r.wf(),
            r@.nickname == nickname@,
            r@.username == username@,
            r@.realname == realname@,
            r@.resume_enabled == resume_enabled,
            r@.join_delay_secs == join_delay_secs,
            r@.autojoin == autojoin@.map_values(|c: String| c@),
            r@.locator == locator@,
            !r@.joined,
            !r@.requested,
            r@.pending_offer is None,
            r@.pending_resume is None,
            r@.phase is Chatting,
    {
        Session {
            nickname,
            username,
            realname,
            resume_enabled,
            join_delay_secs,
            autojoin,
            locator,
            joined: false,
            requested: false,
            pending_offer: None,
            pending_resume: None,
            phase: SessionPhase::Chatting,
        }
    }

    /// The registration lines that open the attempt.
    pub fn start(&self) -> (r: Vec<SessionAction>)
        ensures
            r@.map_values(|a: SessionAction| a@) == seq![
                ActionModel::SendLine(nick_cmd(self@.nickname)),
                ActionModel::SendLine(user_cmd(self@.username, self@.realname)),
            ],
    {
        let mut nick = "NICK ".to_owned();
        proof {
            reveal_strlit("NICK ");
            assert(nick@ =~= seq!['N', 'I', 'C', 'K', ' ']);
        }
        nick.append(self.nickname.as_str());
        let mut user = "USER ".to_owned();
        proof {
            reveal_strlit("USER ");
            assert(user@ =~= seq!['U', 'S', 'E', 'R', ' ']);
        }
        user.append(self.username.as_str());
        user.append(" 0 * :");
        proof {
            reveal_strlit(" 0 * :");
            assert(" 0 * :"@ =~= seq![' ', '0', ' ', '*', ' ', ':']);
        }
        user.append(self.realname.as_str());
        let mut r: Vec<SessionAction> = Vec::new();
        r.push(SessionAction::SendLine(nick));
        r.push(SessionAction::SendLine(user));
        proof {
            assert(nick@ =~= nick_cmd(self@.nickname));
            assert(user@ =~= user_cmd(self@.username, self@.realname));
            assert(r@.map_values(|a: SessionAction| a@) =~= seq![
                ActionModel::SendLine(nick_cmd(self@.nickname)),
                ActionModel::SendLine(user_cmd(self@.username, self@.realname)),
            ]);
        }
        r
    }
}


impl Session {
    /// Feed one input to the machine; the returned actions are the
    /// machine's whole response, in order, as `step` defines it.
    pub fn on_input(&mut self, input: &SessionInput) -> (r: Vec<SessionAction>)
        requires
            old(self).wf(),
        ensures
            final(self).wf(),
            (final(self)@, r@.map_values(|a: SessionAction| a@)) == step(old(self)@, input@),
    {
        match input {
            SessionInput::Line(l) => {
                if matches!(self.phase, SessionPhase::Chatting) {
                    let lv = chars_of(l.as_str());
                    let t = trim_vec(lv.as_slice());
                    self.on_line(t)
                } else {
                    let r: Vec<SessionAction> = Vec::new();
                    proof {
                        assert(r@.map_values(|a: SessionAction| a@) =~= Seq::<
                            ActionModel,
                        >::empty());
                    }
                    r
                }
            },
            SessionInput::ReadTimeout => {
                let mut r: Vec<SessionAction> = Vec::new();
                if !matches!(self.phase, SessionPhase::Chatting) {
                    proof {
                        assert(r@.map_values(|a: SessionAction| a@) =~= Seq::<
                            ActionModel,
                        >::empty());
                    }
                    r
                } else if !self.joined {
                    self.phase = SessionPhase::Failed;
                    r.push(SessionAction::Fail(XdccError::Timeout(String::new())));
                    proof {
                        assert(r@.map_values(|a: SessionAction| a@) =~= seq![
                            ActionModel::Fail(ErrorModel::Timeout(Seq::empty())),
                        ]);
                    }
                    r
                } else if !self.requested {
                    proof {
                        assert(r@.map_values(|a: SessionAction| a@) =~= Seq::<
                            ActionModel,
                        >::empty());
                    }
                    r
                } else {
                    let pending = self.pending_resume.take();
                    match pending {
                        Some((offer, _off)) => {
                            self.phase = SessionPhase::Transferring;
                            r.push(SessionAction::Emit(XdccEvent::DccSend(offer.clone())));
                            r.push(SessionAction::StartTransfer(offer, 0));
                            proof {
                                assert(r@.map_values(|a: SessionAction| a@) =~= start_actions(
                                    (old(self)@.pending_resume->0).0,
                                    0,
                                ));
                            }
                            r
                        },
                        None => {
                            self.phase = SessionPhase::Failed;
                            r.push(SessionAction::Fail(XdccError::Timeout(String::new())));
                            proof {
                                assert(r@.map_values(|a: SessionAction| a@) =~= seq![
                                    ActionModel::Fail(ErrorModel::Timeout(Seq::empty())),
                                ]);
                            }
                            r
                        },
                    }
                }
            },
            SessionInput::Eof => {
                let mut r: Vec<SessionAction> = Vec::new();
                if matches!(self.phase, SessionPhase::Chatting) {
                    self.phase = SessionPhase::Failed;
                    r.push(SessionAction::Fail(XdccError::ConnectionFailed(String::new())));
                    proof {
                        assert(r@.map_values(|a: SessionAction| a@) =~= seq![
                            ActionModel::Fail(ErrorModel::ConnectionFailed(Seq::empty())),
                        ]);
                    }
                } else {
                    proof {
                        assert(r@.map_values(|a: SessionAction| a@) =~= Seq::<
                            ActionModel,
                        >::empty());
                    }
                }
                r
            },
            SessionInput::FileSize(n) => {
                let mut r: Vec<SessionAction> = Vec::new();
                let awaiting = matches!(self.phase, SessionPhase::AwaitingFileSize);
                if awaiting && self.pending_offer.is_some() {
                    let offer = self.pending_offer.take().unwrap();
                    if 0 < *n && *n < offer.size {
                        self.phase = SessionPhase::Chatting;
                        let line = resume_line(self.locator.bot.as_str(), &offer, *n);
                        self.pending_resume = Some((offer, *n));
                        r.push(SessionAction::SendLine(line));
                        proof {
                            assert(r@.map_values(|a: SessionAction| a@) =~= seq![
                                ActionModel::SendLine(
                                    resume_cmd(
                                        old(self)@.locator.bot,
                                        old(self)@.pending_offer->0,
                                        *n,
                                    ),
                                ),
                            ]);
                        }
                    } else {
                        self.phase = SessionPhase::Transferring;
                        r.push(SessionAction::Emit(XdccEvent::DccSend(offer.clone())));
                        r.push(SessionAction::StartTransfer(offer, 0));
                        proof {
                            assert(r@.map_values(|a: SessionAction| a@) =~= start_actions(
                                old(self)@.pending_offer->0,
                                0,
                            ));
                        }
                    }
                } else {
                    proof {
                        assert(r@.map_values(|a: SessionAction| a@) =~= Seq::<
                            ActionModel,
                        >::empty());
                    }
                }
                r
            },
            SessionInput::TransferDone => {
                let mut r: Vec<SessionAction> = Vec::new();
                if matches!(self.phase, SessionPhase::Transferring) {
                    self.phase = SessionPhase::Done;
                    let quit = "QUIT :Transfer complete".to_owned();
                    proof {
                        reveal_strlit("QUIT :Transfer complete");
                        assert(quit@ =~= quit_cmd());
                    }
                    r.push(SessionAction::SendLine(quit));
                    r.push(SessionAction::Emit(XdccEvent::Completed));
                    proof {
                        assert(r@.map_values(|a: SessionAction| a@) =~= seq![
                            ActionModel::SendLine(quit_cmd()),
                            ActionModel::Emit(EventModel::Completed),
                        ]);
                    }
                } else {
                    proof {
                        assert(r@.map_values(|a: SessionAction| a@) =~= Seq::<
                            ActionModel,
                        >::empty());
                    }
                }
                r
            },
        }
    }

    /// Process one trimmed IRC line while chatting.
    #[verifier::rlimit(100)]
    fn on_line(&mut self, t: Vec<char>) -> (r: Vec<SessionAction>)
        requires
            old(self).wf(),
            old(self)@.phase is Chatting,
        ensures
            final(self).wf(),
            (final(self)@, r@.map_values(|a: SessionAction| a@)) == step_line(old(self)@, t@),
    {
        let mut acts: Vec<SessionAction> = Vec::new();
        let ping = chars_of("PING");
        proof {
            reveal_strlit("PING");
            assert(ping@ =~= ping_pat());
        }
        if is_prefix(t.as_slice(), ping.as_slice()) {
            let pong = pong_line(t.as_slice());
            acts.push(SessionAction::SendLine(pong));
            proof {
                assert(acts@.map_values(|a: SessionAction| a@) =~= seq![
                    ActionModel::SendLine(pong_of(t@)),
                ]);
            }
            return acts;
        }
        let w001 = chars_of(" 001 ");
        let m366 = chars_of(" 366 ");
        proof {
            reveal_strlit(" 001 ");
            reveal_strlit(" 366 ");
            assert(w001@ =~= welcome_mark());
            assert(m366@ =~= end_of_names_mark());
        }
        // Welcome: join the extra channels, then the target channel.
        if contains_sub(t.as_slice(), w001.as_slice()) && !self.joined {
            let an: usize = self.autojoin.len();
            let mut k: usize = 0;
            while k < an
                invariant
                    k <= an,
                    an == self.autojoin@.len(),
                    *self == *old(self),
                    acts@.map_values(|a: SessionAction| a@) =~= self@.autojoin.subrange(
                        0,
                        k as int,
                    ).map_values(|c: Seq<char>| ActionModel::SendLine(join_cmd(c))),
                decreases an - k,
            {
                let line = join_line(self.autojoin[k].as_str());
                acts.push(SessionAction::SendLine(line));
                proof {
                    assert(self@.autojoin.subrange(0, k + 1).map_values(
                        |c: Seq<char>| ActionModel::SendLine(join_cmd(c)),
                    ) =~= self@.autojoin.subrange(0, k as int).map_values(
                        |c: Seq<char>| ActionModel::SendLine(join_cmd(c)),
                    ).push(ActionModel::SendLine(join_cmd(self@.autojoin[k as int]))));
                }
                k = k + 1;
            }
            acts.push(SessionAction::Emit(XdccEvent::Joining(self.locator.channel.clone())));
            let line = join_line(self.locator.channel.as_str());
            acts.push(SessionAction::SendLine(line));
            proof {
                assert(self@.autojoin.subrange(0, an as int) =~= self@.autojoin);
                assert(acts@.map_values(|a: SessionAction| a@) =~= welcome_actions(old(self)@));
            }
        }
        proof {
            let a1 = if has_substr(t@, welcome_mark()) && !old(self)@.joined {
                welcome_actions(old(self)@)
            } else {
                Seq::<ActionModel>::empty()
            };
            assert(acts@.map_values(|a: SessionAction| a@) =~= a1);
        }
        let ghost acts1 = acts@.map_values(|a: SessionAction| a@);

        // Join confirmation: the numeric or the echoed join.
        let mut echo = "JOIN :".to_owned();
        proof {
            reveal_strlit("JOIN :");
            assert(echo@ =~= seq!['J', 'O', 'I', 'N', ' ', ':']);
        }
        echo.append(self.locator.channel.as_str());
        proof {
            assert(echo@ =~= join_echo(self@.locator.channel));
        }
        let echo_v = chars_of(echo.as_str());
        let joined2 = self.joined || contains_sub(t.as_slice(), m366.as_slice()) || contains_sub(
            t.as_slice(),
            echo_v.as_slice(),
        );
        if !self.joined && joined2 {
            acts.push(SessionAction::Emit(XdccEvent::Joined(self.locator.channel.clone())));
            if self.join_delay_secs > 0 {
                acts.push(SessionAction::SleepSecs(self.join_delay_secs));
            }
            proof {
                assert(acts@.map_values(|a: SessionAction| a@) =~= acts1 + joined_actions(
                    old(self)@,
                ));
            }
        }
        proof {
            let a2 = if !old(self)@.joined && joined2 {
                joined_actions(old(self)@)
            } else {
                Seq::<ActionModel>::empty()
            };
            assert(acts@.map_values(|a: SessionAction| a@) =~= acts1 + a2);
        }
        let ghost acts2 = acts@.map_values(|a: SessionAction| a@);

        // First confirmation sends the request.
        let was_requested = self.requested;
        self.joined = joined2;
        if joined2 && !was_requested {
            self.requested = true;
            acts.push(
                SessionAction::Emit(
                    XdccEvent::Requesting(self.locator.bot.clone(), self.locator.slot),
                ),
            );
            let line = request_line(self.locator.bot.as_str(), self.locator.slot);
            acts.push(SessionAction::SendLine(line));
            proof {
                assert(acts@.map_values(|a: SessionAction| a@) =~= acts2 + request_actions(
                    old(self)@,
                ));
            }
        }
        proof {
            let a3 = if joined2 && !old(self)@.requested {
                request_actions(old(self)@)
            } else {
                Seq::<ActionModel>::empty()
            };
            assert(acts@.map_values(|a: SessionAction| a@) =~= acts2 + a3);
        }
        let ghost pre = acts@.map_values(|a: SessionAction| a@);

        // A parseable offer either starts the transfer or, with resume
        // enabled, first asks after a partial file.
        let dccsend = chars_of("DCC SEND");
        proof {
            reveal_strlit("DCC SEND");
            assert(dccsend@ =~= dcc_send_pat());
        }
        if contains_sub(t.as_slice(), dccsend.as_slice()) {
            let ts = string_from(t.as_slice());
            match parse_dcc_send(ts.as_str()) {
                Some(offer) => {
                    if self.resume_enabled {
                        let safe = sanitize_filename(offer.filename.as_str());
                        self.pending_offer = Some(offer);
                        self.phase = SessionPhase::AwaitingFileSize;
                        acts.push(SessionAction::QueryFileSize(safe));
                        proof {
                            assert(acts@.map_values(|a: SessionAction| a@) =~= pre + seq![
                                ActionModel::QueryFileSize(
                                    sanitize_name(parse_dcc_model(t@)->0.filename),
                                ),
                            ]);
                        }
                        return acts;
                    } else {
                        self.phase = SessionPhase::Transferring;
                        acts.push(SessionAction::Emit(XdccEvent::DccSend(offer.clone())));
                        acts.push(SessionAction::StartTransfer(offer, 0));
                        proof {
                            assert(acts@.map_values(|a: SessionAction| a@) =~= pre
                                + start_actions(parse_dcc_model(t@)->0, 0));
                        }
                        return acts;
                    }
                },
                None => {},
            }
        }

        // A resume acknowledgment starts the transfer at the offset.
        let accept = chars_of("DCC ACCEPT");
        proof {
            reveal_strlit("DCC ACCEPT");
            assert(accept@ =~= dcc_accept_pat());
        }
        if contains_sub(t.as_slice(), accept.as_slice()) && self.pending_resume.is_some() {
            let (offer, off) = self.pending_resume.take().unwrap();
            self.phase = SessionPhase::Transferring;
            acts.push(SessionAction::Emit(XdccEvent::DccSend(offer.clone())));
            acts.push(SessionAction::StartTransfer(offer, off));
            proof {
                assert(acts@.map_values(|a: SessionAction| a@) =~= pre + start_actions(
                    (old(self)@.pending_resume->0).0,
                    (old(self)@.pending_resume->0).1,
                ));
            }
            return acts;
        }

        // Server error texts end the attempt with their kinds.
        let offline = chars_of("No such nick");
        let notonline = chars_of("is not online");
        proof {
            reveal_strlit("No such nick");
            reveal_strlit("is not online");
            assert(offline@ =~= bot_offline_pat());
            assert(notonline@ =~= not_online_pat());
        }
        if contains_sub(t.as_slice(), offline.as_slice()) || contains_sub(
            t.as_slice(),
            notonline.as_slice(),
        ) {
            self.phase = SessionPhase::Failed;
            acts.push(SessionAction::Fail(XdccError::BotBusy(string_from(t.as_slice()))));
            proof {
                assert(acts@.map_values(|a: SessionAction| a@) =~= pre + seq![
                    ActionModel::Fail(ErrorModel::BotBusy(t@)),
                ]);
            }
            return acts;
        }
        let badpack = chars_of("Invalid Pack Number");
        proof {
            reveal_strlit("Invalid Pack Number");
            assert(badpack@ =~= invalid_pack_pat());
        }
        if contains_sub(t.as_slice(), badpack.as_slice()) {
            self.phase = SessionPhase::Failed;
            acts.push(SessionAction::Fail(XdccError::InvalidPack(string_from(t.as_slice()))));
            proof {
                assert(acts@.map_values(|a: SessionAction| a@) =~= pre + seq![
                    ActionModel::Fail(ErrorModel::InvalidPack(t@)),
                ]);
            }
            return acts;
        }
        let already = chars_of("You already requested");
        proof {
            reveal_strlit("You already requested");
            assert(already@ =~= already_requested_pat());
        }
        if contains_sub(t.as_slice(), already.as_slice()) {
            self.phase = SessionPhase::Failed;
            acts.push(SessionAction::Fail(XdccError::BotBusy(string_from(t.as_slice()))));
            proof {
                assert(acts@.map_values(|a: SessionAction| a@) =~= pre + seq![
                    ActionModel::Fail(ErrorModel::BotBusy(t@)),
                ]);
            }
            return acts;
        }
        let closing = chars_of("Closing Link");
        proof {
            reveal_strlit("Closing Link");
            assert(closing@ =~= closing_link_pat());
        }
        if contains_sub(t.as_slice(), closing.as_slice()) {
            self.phase = SessionPhase::Failed;
            acts.push(
                SessionAction::Fail(XdccError::ConnectionFailed(string_from(t.as_slice()))),
            );
            proof {
                assert(acts@.map_values(|a: SessionAction| a@) =~= pre + seq![
                    ActionModel::Fail(ErrorModel::ConnectionFailed(t@)),
                ]);
            }
            return acts;
        }
        proof {
            assert(acts@.map_values(|a: SessionAction| a@) =~= pre + Seq::<ActionModel>::empty());
        }
        acts
    }
}


/// With resume enabled and a partial file strictly smaller than the
/// offer, the machine sends `DCC RESUME` and starts no transfer; only
/// the acknowledgment, or a timeout, starts one.
pub proof fn lemma_resume_before_fresh(s: SessionModel, n: u64)
    requires
        s.phase is AwaitingFileSize,
        s.pending_offer is Some,
        0 < n < s.pending_offer->0.size,
    ensures
        step(s, InputModel::FileSize(n)).1 == seq![
            ActionModel::SendLine(resume_cmd(s.locator.bot, s.pending_offer->0, n)),
        ],
        step(s, InputModel::FileSize(n)).0.pending_resume == Some((s.pending_offer->0, n)),
        step(s, InputModel::FileSize(n)).0.phase is Chatting,
        forall|k: int|
            0 <= k < step(s, InputModel::FileSize(n)).1.len() ==> !(#[trigger] step(
                s,
                InputModel::FileSize(n),
            ).1[k] is StartTransfer),
{
}

/// When no `DCC ACCEPT` arrives before the read timeout, the machine
/// falls back to a fresh transfer from offset zero.
pub proof fn lemma_resume_timeout_fallback(s: SessionModel)
    requires
        s.phase is Chatting,
        s.joined,
        s.requested,
        s.pending_resume is Some,
    ensures
        step(s, InputModel::ReadTimeout).1 == start_actions((s.pending_resume->0).0, 0),
        step(s, InputModel::ReadTimeout).0.phase is Transferring,
        step(s, InputModel::ReadTimeout).0.pending_resume is None,
{
}

} // verus!

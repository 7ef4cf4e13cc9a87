use botarr::dcc::{parse_dcc_send, DccProgress};
use botarr::locator::{XdccError, XdccUrl};
use botarr::session::{Session, SessionAction, SessionInput, SessionPhase, XdccEvent};

fn new_session(resume: bool) -> Session {
    let locator = XdccUrl::parse("irc://Rizon/moviegods/Bot/42").unwrap();
    Session::new(
        "nick".to_string(),
        "user".to_string(),
        "real name".to_string(),
        resume,
        0,
        vec!["#extra".to_string()],
        locator,
    )
}

fn line(s: &str) -> SessionInput {
    SessionInput::Line(s.to_string())
}

fn sent_lines(acts: &[SessionAction]) -> Vec<String> {
    acts.iter()
        .filter_map(|a| match a {
            SessionAction::SendLine(l) => Some(l.clone()),
            _ => None,
        })
        .collect()
}

#[test]
fn test_start_registers() {
    let s = new_session(true);
    let acts = s.start();
    let lines = sent_lines(&acts);
    assert_eq!(lines, vec!["NICK nick".to_string(), "USER user 0 * :real name".to_string()]);
}

#[test]
fn test_ping_is_answered() {
    let mut s = new_session(true);
    let acts = s.on_input(&line("PING :server-token"));
    let lines = sent_lines(&acts);
    assert_eq!(lines, vec!["PONG :server-token".to_string()]);
    assert!(!s.joined);
}

#[test]
fn test_welcome_join_request_flow() {
    let mut s = new_session(true);
    let acts = s.on_input(&line(":server 001 nick :Welcome"));
    let lines = sent_lines(&acts);
    assert_eq!(lines, vec!["JOIN #extra".to_string(), "JOIN #moviegods".to_string()]);
    assert!(!s.joined);
    let acts = s.on_input(&line(":server 366 nick #moviegods :End of /NAMES list."));
    assert!(s.joined);
    assert!(s.requested);
    let lines = sent_lines(&acts);
    assert_eq!(lines, vec!["PRIVMSG Bot :xdcc send #42".to_string()]);
    assert!(acts.iter().any(|a| matches!(a, SessionAction::Emit(XdccEvent::Requesting(b, 42)) if b == "Bot")));
}

#[test]
fn test_join_echo_confirms() {
    let mut s = new_session(true);
    let _ = s.on_input(&line(":nick!u@h JOIN :#moviegods"));
    assert!(s.joined);
}

#[test]
fn test_resume_flow_sends_resume_before_fresh_transfer() {
    let mut s = new_session(true);
    let _ = s.on_input(&line(":server 366 nick #moviegods :end"));
    let offer_line = ":Bot!b@h PRIVMSG nick :\u{1}DCC SEND \"My File.mkv\" 3232235521 6667 104857600\u{1}";
    let acts = s.on_input(&line(offer_line));
    // With resume enabled the machine first asks after the partial file.
    assert!(matches!(s.phase, SessionPhase::AwaitingFileSize));
    assert!(acts.iter().any(|a| matches!(a, SessionAction::QueryFileSize(f) if f == "My File.mkv")));
    assert!(!acts.iter().any(|a| matches!(a, SessionAction::StartTransfer(_, _))));
    // A partial file strictly smaller than the offer triggers DCC RESUME.
    let acts = s.on_input(&SessionInput::FileSize(1024));
    let lines = sent_lines(&acts);
    assert_eq!(lines, vec!["PRIVMSG Bot :\u{1}DCC RESUME \"My File.mkv\" 6667 1024\u{1}".to_string()]);
    assert!(!acts.iter().any(|a| matches!(a, SessionAction::StartTransfer(_, _))));
    // The acknowledgment starts the transfer at the offset.
    let acts = s.on_input(&line(":Bot PRIVMSG nick :\u{1}DCC ACCEPT \"My File.mkv\" 6667 1024\u{1}"));
    match acts
        .iter()
        .find_map(|a| match a {
            SessionAction::StartTransfer(o, off) => Some((o.clone(), *off)),
            _ => None,
        }) {
        Some((offer, off)) => {
            assert_eq!(off, 1024);
            assert_eq!(offer.filename, "My File.mkv");
            assert_eq!(offer.ip, "192.168.0.1");
            assert_eq!(offer.port, 6667);
            assert_eq!(offer.size, 104857600);
        },
        None => panic!("no transfer started"),
    }
    assert!(matches!(s.phase, SessionPhase::Transferring));
}

#[test]
fn test_resume_timeout_falls_back_to_fresh() {
    let mut s = new_session(true);
    let _ = s.on_input(&line(":server 366 nick #moviegods :end"));
    let _ = s.on_input(&line(
        ":Bot PRIVMSG nick :\u{1}DCC SEND file.bin 3232235521 6667 1000\u{1}",
    ));
    let _ = s.on_input(&SessionInput::FileSize(500));
    // No DCC ACCEPT: the read timeout starts a fresh transfer at zero.
    let acts = s.on_input(&SessionInput::ReadTimeout);
    assert!(acts
        .iter()
        .any(|a| matches!(a, SessionAction::StartTransfer(_, 0))));
    assert!(matches!(s.phase, SessionPhase::Transferring));
}

#[test]
fn test_whole_file_present_starts_fresh() {
    let mut s = new_session(true);
    let _ = s.on_input(&line(":server 366 nick #moviegods :end"));
    let _ = s.on_input(&line(
        ":Bot PRIVMSG nick :\u{1}DCC SEND file.bin 3232235521 6667 1000\u{1}",
    ));
    // Already complete on disk: no resume request, fresh transfer.
    let acts = s.on_input(&SessionInput::FileSize(1000));
    assert!(acts
        .iter()
        .any(|a| matches!(a, SessionAction::StartTransfer(_, 0))));
}

#[test]
fn test_resume_disabled_starts_at_zero() {
    let mut s = new_session(false);
    let _ = s.on_input(&line(":server 366 nick #moviegods :end"));
    let acts = s.on_input(&line(
        ":Bot PRIVMSG nick :\u{1}DCC SEND file.bin 3232235521 6667 1000\u{1}",
    ));
    assert!(acts
        .iter()
        .any(|a| matches!(a, SessionAction::StartTransfer(_, 0))));
    assert!(!acts
        .iter()
        .any(|a| matches!(a, SessionAction::QueryFileSize(_))));
}

#[test]
fn test_transfer_done_quits_and_completes() {
    let mut s = new_session(false);
    let _ = s.on_input(&line(":server 366 nick #moviegods :end"));
    let _ = s.on_input(&line(
        ":Bot PRIVMSG nick :\u{1}DCC SEND file.bin 3232235521 6667 1000\u{1}",
    ));
    let acts = s.on_input(&SessionInput::TransferDone);
    let lines = sent_lines(&acts);
    assert_eq!(lines, vec!["QUIT :Transfer complete".to_string()]);
    assert!(acts.iter().any(|a| matches!(a, SessionAction::Emit(XdccEvent::Completed))));
    assert!(matches!(s.phase, SessionPhase::Done));
}

#[test]
fn test_error_lines_classified() {
    let mut s = new_session(true);
    let acts = s.on_input(&line(":server 401 nick Bot :No such nick/channel"));
    assert!(acts.iter().any(|a| matches!(a, SessionAction::Fail(XdccError::BotBusy(_)))));
    assert!(matches!(s.phase, SessionPhase::Failed));

    let mut s = new_session(true);
    let acts = s.on_input(&line(":Bot NOTICE nick :Invalid Pack Number"));
    assert!(acts.iter().any(|a| matches!(a, SessionAction::Fail(XdccError::InvalidPack(_)))));

    let mut s = new_session(true);
    let acts = s.on_input(&line("ERROR :Closing Link: nick[host] (Quit)"));
    assert!(acts.iter().any(|a| matches!(a, SessionAction::Fail(XdccError::ConnectionFailed(_)))));

    let mut s = new_session(true);
    let acts = s.on_input(&line(":Bot NOTICE nick :You already requested that pack"));
    assert!(acts.iter().any(|a| matches!(a, SessionAction::Fail(XdccError::BotBusy(_)))));
}

#[test]
fn test_timeout_before_join_is_fatal_between_join_and_request_is_not() {
    let mut s = new_session(true);
    let acts = s.on_input(&SessionInput::ReadTimeout);
    assert!(acts.iter().any(|a| matches!(a, SessionAction::Fail(XdccError::Timeout(_)))));
    assert!(matches!(s.phase, SessionPhase::Failed));

    // Joined and requested, no resume pending: a timeout is fatal too.
    let mut s = new_session(true);
    let _ = s.on_input(&line(":server 366 nick #moviegods :end"));
    let acts = s.on_input(&SessionInput::ReadTimeout);
    assert!(acts.iter().any(|a| matches!(a, SessionAction::Fail(XdccError::Timeout(_)))));
}

#[test]
fn test_eof_fails_connection() {
    let mut s = new_session(true);
    let acts = s.on_input(&SessionInput::Eof);
    assert!(acts.iter().any(|a| matches!(a, SessionAction::Fail(XdccError::ConnectionFailed(_)))));
}

#[test]
fn test_parse_dcc_send_quoted() {
    let o = parse_dcc_send("DCC SEND \"My File.mkv\" 3232235521 6667 104857600").unwrap();
    assert_eq!(o.filename, "My File.mkv");
    assert_eq!(o.ip, "192.168.0.1");
    assert_eq!(o.port, 6667);
    assert_eq!(o.size, 104857600);
}

#[test]
fn test_parse_dcc_send_unquoted_and_bad() {
    let o = parse_dcc_send("blah DCC SEND file.bin 16909060 5000 77").unwrap();
    assert_eq!(o.filename, "file.bin");
    assert_eq!(o.ip, "1.2.3.4");
    assert_eq!(o.port, 5000);
    assert_eq!(o.size, 77);
    assert!(parse_dcc_send("no offer here").is_none());
    assert!(parse_dcc_send("DCC SEND onlyname").is_none());
    assert!(parse_dcc_send("DCC SEND f 1 2").is_none());
    assert!(parse_dcc_send("DCC SEND f notanip 2 3").is_none());
}

#[test]
fn test_dcc_progress_acks_cumulative_count() {
    let mut p = DccProgress::begin(0, 1000);
    let ack = p.on_chunk(0x01020304);
    assert_eq!(ack, [1, 2, 3, 4]);
    assert_eq!(p.downloaded, 0x01020304);
    let mut p = DccProgress::begin(512, 1024);
    let ack = p.on_chunk(512);
    assert_eq!(ack, [0, 0, 4, 0]);
    assert_eq!(p.percent(), 100);
}

#[test]
fn test_rate_per_sec() {
    assert_eq!(botarr::dcc::rate_per_sec(1000, 500), 2000);
    assert_eq!(botarr::dcc::rate_per_sec(1000, 0), 0);
}

use botarr::locator::XdccUrl;

#[test]
fn test_parse_xdcc_url() {
    let url = XdccUrl::parse("irc://irc.rizon.net/some-channel/TestBot/123").unwrap();
    assert_eq!(url.network, "irc.rizon.net");
    assert_eq!(url.channel, "#some-channel");
    assert_eq!(url.bot, "TestBot");
    assert_eq!(url.slot, 123);
}

#[test]
fn test_parse_xdcc_url_with_hash() {
    let url = XdccUrl::parse("irc://irc.rizon.net/#test/Bot/#42").unwrap();
    assert_eq!(url.channel, "#test");
    assert_eq!(url.slot, 42);
}

#[test]
fn test_invalid_url() {
    assert!(XdccUrl::parse("http://example.com").is_err());
    assert!(XdccUrl::parse("irc://network/channel").is_err());
}

#[test]
fn test_url_roundtrip() {
    let url = XdccUrl::parse("irc://irc.rizon.net/test/Bot/1").unwrap();
    let str = url.to_url();
    let url2 = XdccUrl::parse(&str).unwrap();
    assert_eq!(url, url2);
}

#[test]
fn test_to_url_renders_channel_without_hash() {
    let url = XdccUrl::parse("irc://net/chan/Bot/7").unwrap();
    assert_eq!(url.to_url(), "irc://net/chan/Bot/7");
}

#[test]
fn test_invalid_slot_is_rejected() {
    let e = XdccUrl::parse("irc://net/chan/Bot/notanumber").unwrap_err();
    assert!(matches!(e, botarr::locator::XdccError::InvalidUrl(_)));
    assert!(XdccUrl::parse("irc://net/chan/Bot/").is_err());
    assert!(XdccUrl::parse("irc://net/chan/Bot/99999999999999999999").is_err());
}

#[test]
fn test_five_segments_rejected() {
    assert!(XdccUrl::parse("irc://net/chan/Bot/1/extra").is_err());
}

#[test]
fn test_error_detail_text() {
    let e = XdccUrl::parse("ftp://x").unwrap_err();
    assert_eq!(e.detail(), "URL must start with irc://");
}

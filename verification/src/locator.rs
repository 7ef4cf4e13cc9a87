//! The pack locator: a value naming one download target, its strict
//! parser for `irc://network/channel/bot/slot` text, and the inverse
//! rendering, with the round-trip law.

use vstd::prelude::*;
use vstd::string::StringExecFns;
use crate::chars::is_digit;
use crate::strings::{
    all_digits, chars_of, dec_digits, dec_val, first_idx_of, is_prefix,
    lemma_dec_digits_val, lemma_first_idx_of, lemma_split_step, lemma_split_whole, parse_u64,
    split_on, split_vec, string_from, substr_at, subvec,
};

verus! {

/// The library's error kinds; each carries a human-readable detail.
#[derive(Debug)]
pub enum XdccError {
    InvalidUrl(String),
    ConnectionFailed(String),
    ChannelJoinFailed(String),
    TransferFailed(String),
    SearchFailed(String),
    Timeout(String),
    BotBusy(String),
    InvalidPack(String),
}

impl XdccError {
    /// The detail string the error carries.
    pub fn detail(&self) -> (r: &String)
        ensures
            r == match self {
                XdccError::InvalidUrl(m) => m,
                XdccError::ConnectionFailed(m) => m,
                XdccError::ChannelJoinFailed(m) => m,
                XdccError::TransferFailed(m) => m,
                XdccError::SearchFailed(m) => m,
                XdccError::Timeout(m) => m,
                XdccError::BotBusy(m) => m,
                XdccError::InvalidPack(m) => m,
            },
    {
        match self {
            XdccError::InvalidUrl(m) => m,
            XdccError::ConnectionFailed(m) => m,
            XdccError::ChannelJoinFailed(m) => m,
            XdccError::TransferFailed(m) => m,
            XdccError::SearchFailed(m) => m,
            XdccError::Timeout(m) => m,
            XdccError::BotBusy(m) => m,
            XdccError::InvalidPack(m) => m,
        }
    }
}

impl XdccError {
    /// The retry policy: a bad locator, a missing pack or a busy bot
    /// cannot succeed on a retry against the same target; transport and
    /// timeout conditions can.
    pub fn is_fatal(&self) -> (r: bool)
        ensures
            r == (self is InvalidUrl || self is InvalidPack || self is BotBusy),
    {
        match self {
            XdccError::InvalidUrl(_) => true,
            XdccError::InvalidPack(_) => true,
            XdccError::BotBusy(_) => true,
            _ => false,
        }
    }
}

impl Clone for XdccError {
    fn clone(&self) -> (r: Self)
        ensures
            r == self,
    {
        match self {
            XdccError::InvalidUrl(m) => XdccError::InvalidUrl(m.clone()),
            XdccError::ConnectionFailed(m) => XdccError::ConnectionFailed(m.clone()),
            XdccError::ChannelJoinFailed(m) => XdccError::ChannelJoinFailed(m.clone()),
            XdccError::TransferFailed(m) => XdccError::TransferFailed(m.clone()),
            XdccError::SearchFailed(m) => XdccError::SearchFailed(m.clone()),
            XdccError::Timeout(m) => XdccError::Timeout(m.clone()),
            XdccError::BotBusy(m) => XdccError::BotBusy(m.clone()),
            XdccError::InvalidPack(m) => XdccError::InvalidPack(m.clone()),
        }
    }
}

/// A parsed locator: network, channel (always `#`-prefixed), bot and slot.
#[derive(Debug)]
pub struct XdccUrl {
    pub network: String,
    pub channel: String,
    pub bot: String,
    pub slot: i32,
}

/// The mathematical shadow of a locator.
pub ghost struct LocatorModel {
    pub network: Seq<char>,
    pub channel: Seq<char>,
    pub bot: Seq<char>,
    pub slot: int,
}

impl View for XdccUrl {
    type V = LocatorModel;

    open spec fn view(&self) -> LocatorModel {
        LocatorModel {
            network: self.network@,
            channel: self.channel@,
            bot: self.bot@,
            slot: self.slot as int,
        }
    }
}

impl Clone for XdccUrl {
    fn clone(&self) -> (r: Self)
        ensures
            r == self,
    {
        XdccUrl {
            network: self.network.clone(),
            channel: self.channel.clone(),
            bot: self.bot.clone(),
            slot: self.slot,
        }
    }
}

impl PartialEq for XdccUrl {
    fn eq(&self, other: &Self) -> (r: bool) {
        self.slot == other.slot && self.network.eq(&other.network) && self.channel.eq(
            &other.channel,
        ) && self.bot.eq(&other.bot)
    }
}

impl vstd::std_specs::cmp::PartialEqSpecImpl for XdccUrl {
    open spec fn obeys_eq_spec() -> bool {
        true
    }

    open spec fn eq_spec(&self, other: &Self) -> bool {
        self@ == other@
    }
}

/// The scheme prefix every locator string must carry.
pub open spec fn irc_prefix() -> Seq<char> {
    seq!['i', 'r', 'c', ':', '/', '/']
}

/// A channel rendered for the textual form: its leading `#` dropped.
pub open spec fn strip_hash(s: Seq<char>) -> Seq<char> {
    if s.len() > 0 && s[0] == '#' {
        s.drop_first()
    } else {
        s
    }
}

/// A channel as the parser stores it: `#`-prefixed, prepending one if the
/// segment lacked it.
pub open spec fn norm_channel(s: Seq<char>) -> Seq<char> {
    if s.len() > 0 && s[0] == '#' {
        s
    } else {
        seq!['#'] + s
    }
}

/// What parsing a locator string yields, if anything: the scheme prefix,
/// then exactly four `/`-separated segments; the channel normalised to a
/// leading `#`; the slot's optional leading `#` dropped and the rest read
/// as a decimal that fits an `i32`.
pub open spec fn parse_model(s: Seq<char>) -> Option<LocatorModel> {
    if !substr_at(s, irc_prefix(), 0) {
        None
    } else {
        let parts = split_on(s.subrange(6, s.len() as int), '/');
        if parts.len() != 4 {
            None
        } else {
            let digits = strip_hash(parts[3]);
            if digits.len() == 0 || !all_digits(digits) || dec_val(digits) > i32::MAX {
                None
            } else {
                Some(
                    LocatorModel {
                        network: parts[0],
                        channel: norm_channel(parts[1]),
                        bot: parts[2],
                        slot: dec_val(digits) as int,
                    },
                )
            }
        }
    }
}

/// The textual form: `irc://network/channel-sans-#/bot/slot-digits`.
pub open spec fn to_text_model(l: LocatorModel) -> Seq<char> {
    irc_prefix() + l.network + seq!['/'] + strip_hash(l.channel) + seq!['/'] + l.bot + seq!['/']
        + dec_digits(l.slot as nat)
}

/// A locator the constructors hand out: channel `#`-prefixed, slot
/// non-negative.
pub open spec fn locator_wf(l: LocatorModel) -> bool {
    &&& l.channel.len() > 0
    &&& l.channel[0] == '#'
    &&& 0 <= l.slot <= i32::MAX
}

impl XdccUrl {
    /// The locator is one the parser could have produced.
    pub open spec fn wf(&self) -> bool {
        locator_wf(self@)
    }

    /// Parse a locator string; rejects anything but the scheme prefix
    /// followed by exactly four segments with a numeric slot.
    pub fn parse(url: &str) -> (r: Result<XdccUrl, XdccError>)
        ensures
            match r {
                Ok(u) => parse_model(url@) == Some(u@) && u.wf(),
                Err(e) => parse_model(url@) is None && e is InvalidUrl,
            },
    {
        let v = chars_of(url);
        let pre = chars_of("irc://");
        proof {
            reveal_strlit("irc://");
            assert(pre@ =~= irc_prefix());
        }
        if !is_prefix(v.as_slice(), pre.as_slice()) {
            return Err(XdccError::InvalidUrl("URL must start with irc://".to_owned()));
        }
        let rest = subvec(v.as_slice(), 6, v.len());
        let parts = split_vec(rest.as_slice(), '/');
        proof {
            assert(rest@ == v@.subrange(6, v@.len() as int));
        }
        if parts.len() != 4 {
            return Err(
                XdccError::InvalidUrl(
                    "URL must have format: irc://network/channel/bot/slot".to_owned(),
                ),
            );
        }
        proof {
            assert(parts@.map_values(|p: Vec<char>| p@)[0] == parts@[0]@);
            assert(parts@.map_values(|p: Vec<char>| p@)[1] == parts@[1]@);
            assert(parts@.map_values(|p: Vec<char>| p@)[2] == parts@[2]@);
            assert(parts@.map_values(|p: Vec<char>| p@)[3] == parts@[3]@);
        }
        let network = string_from(parts[0].as_slice());
        let chanseg = &parts[1];
        let channel: String = if chanseg.len() > 0 && chanseg[0] == '#' {
            string_from(chanseg.as_slice())
        } else {
            let mut c = "#".to_owned();
            proof {
                reveal_strlit("#");
            }
            c.append(string_from(chanseg.as_slice()).as_str());
            proof {
                assert(c@ =~= norm_channel(chanseg@));
            }
            c
        };
        let bot = string_from(parts[2].as_slice());
        let slotseg = &parts[3];
        let digits: Vec<char> = if slotseg.len() > 0 && slotseg[0] == '#' {
            let d = subvec(slotseg.as_slice(), 1, slotseg.len());
            proof {
                assert(d@ =~= strip_hash(slotseg@));
            }
            d
        } else {
            let d = subvec(slotseg.as_slice(), 0, slotseg.len());
            proof {
                assert(d@ =~= strip_hash(slotseg@));
            }
            d
        };
        let slot: i32 = match parse_u64(digits.as_slice()) {
            Some(n) => {
                if n > i32::MAX as u64 {
                    return Err(XdccError::InvalidUrl("Invalid slot number".to_owned()));
                }
                n as i32
            },
            None => {
                return Err(XdccError::InvalidUrl("Invalid slot number".to_owned()));
            },
        };
        let u = XdccUrl { network, channel, bot, slot };
        Ok(u)
    }

    /// Render the locator back to its textual form, the channel's leading
    /// `#` dropped.
    pub fn to_url(&self) -> (r: String)
        requires
            self.wf(),
        ensures
            r@ == to_text_model(self@),
    {
        let mut s = "irc://".to_owned();
        proof {
            reveal_strlit("irc://");
            assert(s@ =~= irc_prefix());
        }
        s.append(self.network.as_str());
        s.append("/");
        let ch = chars_of(self.channel.as_str());
        let stripped = subvec(ch.as_slice(), 1, ch.len());
        proof {
            assert(stripped@ =~= strip_hash(self.channel@));
        }
        s.append(string_from(stripped.as_slice()).as_str());
        s.append("/");
        s.append(self.bot.as_str());
        s.append("/");
        crate::strings::append_dec_u64(&mut s, self.slot as u64);
        proof {
            reveal_strlit("/");
            assert(s@ =~= to_text_model(self@));
        }
        s
    }
}


/// Pieces produced by `split_on` never contain the separator.
pub proof fn lemma_split_pieces_no_sep(s: Seq<char>, c: char, k: int, j: int)
    requires
        0 <= k < split_on(s, c).len(),
        0 <= j < split_on(s, c)[k].len(),
    ensures
        split_on(s, c)[k][j] != c,
    decreases s.len(),
{
    lemma_first_idx_of(s, c);
    let i = first_idx_of(s, c);
    if i < s.len() {
        if k > 0 {
            lemma_split_pieces_no_sep(s.subrange(i + 1, s.len() as int), c, k - 1, j);
        }
    }
}

/// A parse that succeeds yields a well-formed locator.
pub proof fn lemma_parse_wf(s: Seq<char>)
    requires
        parse_model(s) is Some,
    ensures
        locator_wf(parse_model(s)->0),
{
}

/// Rendering a parsed locator and parsing it again gives the same
/// locator, provided the channel does not carry a second leading `#`
/// (the renderer drops only the first, which the parser re-adds).
pub proof fn lemma_locator_round_trip(s: Seq<char>)
    requires
        parse_model(s) is Some,
        !(parse_model(s)->0.channel.len() > 1 && parse_model(s)->0.channel[1] == '#'),
    ensures
        parse_model(to_text_model(parse_model(s)->0)) == parse_model(s),
{
    let l = parse_model(s)->0;
    let rest = s.subrange(6, s.len() as int);
    let parts = split_on(rest, '/');
    let ch = strip_hash(l.channel);
    let digits = dec_digits(l.slot as nat);
    lemma_dec_digits_val(l.slot as nat);

    // The rendered pieces never contain the separator.
    assert forall|j: int| 0 <= j < l.network.len() implies l.network[j] != '/' by {
        lemma_split_pieces_no_sep(rest, '/', 0, j);
    }
    assert forall|j: int| 0 <= j < l.bot.len() implies l.bot[j] != '/' by {
        lemma_split_pieces_no_sep(rest, '/', 2, j);
    }
    assert forall|j: int| 0 <= j < ch.len() implies ch[j] != '/' by {
        if parts[1].len() > 0 && parts[1][0] == '#' {
            assert(ch[j] == parts[1][j + 1]);
            lemma_split_pieces_no_sep(rest, '/', 1, j + 1);
        } else {
            assert(ch =~= parts[1]);
            lemma_split_pieces_no_sep(rest, '/', 1, j);
        }
    }
    assert forall|j: int| 0 <= j < digits.len() implies digits[j] != '/' by {
        assert(is_digit(digits[j]));
    }

    let t = to_text_model(l);
    let sep = seq!['/'];

    // The rendering starts with the scheme prefix.
    assert(t.subrange(0, 6) =~= irc_prefix());
    assert(substr_at(t, irc_prefix(), 0));

    // Splitting what follows the prefix recovers the four pieces.
    let tail2 = ch + sep + (l.bot + sep + digits);
    let tail3 = l.bot + sep + digits;
    let rest2 = t.subrange(6, t.len() as int);
    assert(rest2 =~= l.network + sep + tail2);
    lemma_split_step(l.network, tail2, '/');
    assert(tail2 =~= ch + sep + tail3);
    lemma_split_step(ch, tail3, '/');
    lemma_split_step(l.bot, digits, '/');
    lemma_split_whole(digits, '/');
    let parts2 = split_on(rest2, '/');
    assert(parts2 =~= seq![l.network, ch, l.bot, digits]);

    // The slot segment reads back to the same slot.
    assert(digits[0] != '#') by {
        assert(is_digit(digits[0]));
    }
    assert(strip_hash(digits) == digits);
    assert(dec_val(digits) == l.slot);

    // The channel regains its single leading `#`.
    assert(norm_channel(ch) =~= l.channel) by {
        if ch.len() > 0 && ch[0] == '#' {
            assert(l.channel[0] == '#');
            assert(ch[0] == l.channel[1]);
            assert(false);
        } else {
            assert(l.channel[0] == '#');
            assert(seq!['#'] + ch =~= l.channel);
        }
    }

    assert(parse_model(t) == Some(l));
}

/// Parsing rejects any other scheme and any segment count but four.
pub proof fn lemma_parse_rejects(s: Seq<char>)
    ensures
        !substr_at(s, irc_prefix(), 0) ==> parse_model(s) is None,
        split_on(s.subrange(6, s.len() as int), '/').len() != 4 ==> parse_model(s) is None,
{
}

} // verus!

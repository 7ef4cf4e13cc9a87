//! Search support: the size-string parser, the search result type, the
//! provider row mappers and the aggregator's selection and
//! deduplication. The HTTP fetching itself lives with the callers.

use vstd::prelude::*;
use crate::chars::is_digit;
use crate::config::{eq_icase, eq_ignore_case};
use crate::locator::{XdccUrl, norm_channel};
use crate::strings::{
    all_digits, chars_of, dec_val, first_idx_of, lemma_first_idx_of, parse_u64, string_from,
    strip_end_all, strip_end_vec, subvec, trim, trim_vec,
};

verus! {

/// Powers of ten.
pub open spec fn pow10(k: nat) -> int
    decreases k,
{
    if k == 0 {
        1
    } else {
        10 * pow10((k - 1) as nat)
    }
}

proof fn lemma_pow10_pos(k: nat)
    ensures
        pow10(k) >= 1,
    decreases k,
{
    if k > 0 {
        lemma_pow10_pos((k - 1) as nat);
    }
}

/// `s` ends with the unit letter, ASCII-case-insensitively.
pub open spec fn ends_icase_char(s: Seq<char>, c: char) -> bool {
    s.len() >= 1 && crate::config::lower_code(s[s.len() - 1]) == crate::config::lower_code(c)
}

/// `s` ends with the two-letter unit, ASCII-case-insensitively.
pub open spec fn ends_icase2(s: Seq<char>, a: char, b: char) -> bool {
    s.len() >= 2 && crate::config::lower_code(s[s.len() - 2]) == crate::config::lower_code(a)
        && crate::config::lower_code(s[s.len() - 1]) == crate::config::lower_code(b)
}

/// Matching one of the unit letters case-insensitively is exactly
/// matching its capital or its lowercase form.
proof fn lemma_unit_char(c: char, up: char, low: char)
    requires
        'A' <= up <= 'Z',
        low as u32 == up as u32 + 32,
    ensures
        (c == up || c == low) <==> crate::config::lower_code(c) == crate::config::lower_code(up),
{
}

/// Every trailing copy of the unit (two-letter form first, then the
/// single letter) dropped, ASCII-case-insensitively.
pub open spec fn strip_unit(s: Seq<char>, a: char, b: char) -> Seq<char>
    decreases s.len(),
{
    if ends_icase2(s, a, b) {
        strip_unit(s.subrange(0, s.len() - 2), a, b)
    } else if ends_icase_char(s, a) {
        strip_unit(s.subrange(0, s.len() - 1), a, b)
    } else {
        s
    }
}

/// The numeric text and byte multiplier of a size string, after its
/// brackets and padding are gone: a `G`, `M` or `K` unit (with optional
/// `B`) selects its power of 1024.
pub open spec fn size_parts(core: Seq<char>) -> (Seq<char>, int) {
    if ends_icase2(core, 'G', 'B') || ends_icase_char(core, 'G') {
        (strip_unit(core, 'G', 'B'), 0x40000000)
    } else if ends_icase2(core, 'M', 'B') || ends_icase_char(core, 'M') {
        (strip_unit(core, 'M', 'B'), 0x100000)
    } else if ends_icase2(core, 'K', 'B') || ends_icase_char(core, 'K') {
        (strip_unit(core, 'K', 'B'), 0x400)
    } else {
        (core, 1)
    }
}

/// The value of a decimal numeral with an optional fraction, scaled by
/// `mult` and rounded down; nothing for anything else, for an empty
/// numeral, or past fifteen digits on either side of the point.
pub open spec fn scaled_value(num: Seq<char>, mult: int) -> Option<int> {
    let dot = first_idx_of(num, '.');
    if dot >= num.len() {
        if num.len() > 0 && num.len() <= 15 && all_digits(num) {
            Some(dec_val(num) * mult)
        } else {
            None
        }
    } else {
        let intp = num.subrange(0, dot);
        let frac = num.subrange(dot + 1, num.len() as int);
        if intp.len() <= 15 && frac.len() <= 15 && (intp.len() > 0 || frac.len() > 0)
            && all_digits(intp) && all_digits(frac) && !frac.contains('.') {
            Some(dec_val(intp) * mult + dec_val(frac) * mult / pow10(frac.len()))
        } else {
            None
        }
    }
}

/// What the size-string parser yields: brackets and padding dropped, the
/// unit recognised case-insensitively, the number scaled by the unit's
/// power of 1024 and rounded down, saturating at the 64-bit maximum.
pub open spec fn parse_size_model(s: Seq<char>) -> Option<int> {
    let core = strip_end_all(
        crate::strings::strip_prefix_all(trim(s), seq!['[']),
        ']',
    );
    if core.len() == 0 {
        None
    } else {
        let (num, mult) = size_parts(core);
        match scaled_value(trim(num), mult) {
            Some(v) => Some(
                if v <= u64::MAX as int {
                    v
                } else {
                    u64::MAX as int
                },
            ),
            None => None,
        }
    }
}

/// Drop every trailing unit copy, case-insensitively.
fn strip_unit_vec(v: Vec<char>, a: char, b: char) -> (r: Vec<char>)
    requires
        a == 'G' || a == 'M' || a == 'K',
        b == 'B',
    ensures
        r@ == strip_unit(v@, a, b),
    decreases v@.len(),
{
    let n: usize = v.len();
    let lower_a: char = char_lower_of_upper(a);
    let lower_b: char = char_lower_of_upper(b);
    proof {
        if n >= 2 {
            lemma_unit_char(v@[n - 2], a, lower_a);
            lemma_unit_char(v@[n - 1], b, lower_b);
        }
        if n >= 1 {
            lemma_unit_char(v@[n - 1], a, lower_a);
        }
    }
    if n >= 2 && (v[n - 2] == a || v[n - 2] == lower_a) && (v[n - 1] == b || v[n - 1]
        == lower_b) {
        let w = subvec(v.as_slice(), 0, n - 2);
        strip_unit_vec(w, a, b)
    } else if n >= 1 && (v[n - 1] == a || v[n - 1] == lower_a) {
        let w = subvec(v.as_slice(), 0, n - 1);
        strip_unit_vec(w, a, b)
    } else {
        v
    }
}

/// The lowercase letter of one of the unit capitals.
fn char_lower_of_upper(c: char) -> (r: char)
    requires
        c == 'G' || c == 'M' || c == 'K' || c == 'B',
    ensures
        r as u32 == c as u32 + 32,
{
    if c == 'G' {
        'g'
    } else if c == 'M' {
        'm'
    } else if c == 'K' {
        'k'
    } else {
        'b'
    }
}

/// Whether the trailing unit matches, case-insensitively.
fn ends_unit(v: &[char], a: char, b: char) -> (r: (bool, bool))
    requires
        a == 'G' || a == 'M' || a == 'K',
        b == 'B',
    ensures
        r.0 == ends_icase2(v@, a, b),
        r.1 == ends_icase_char(v@, a),
{
    let n: usize = v.len();
    let lower_a: char = char_lower_of_upper(a);
    let lower_b: char = char_lower_of_upper(b);
    proof {
        if n >= 2 {
            lemma_unit_char(v@[n - 2], a, lower_a);
            lemma_unit_char(v@[n - 1], b, lower_b);
        }
        if n >= 1 {
            lemma_unit_char(v@[n - 1], a, lower_a);
        }
    }
    let two = n >= 2 && (v[n - 2] == a || v[n - 2] == lower_a) && (v[n - 1] == b || v[n - 1]
        == lower_b);
    let one = n >= 1 && (v[n - 1] == a || v[n - 1] == lower_a);
    (two, one)
}

/// Parse a human-readable size such as `1.5G`, `[500M]` or `100KB` into
/// bytes; `None` for anything unreadable, including the empty string.
pub fn parse_size(size_str: &str) -> (r: Option<u64>)
    ensures
        match r {
            Some(n) => parse_size_model(size_str@) == Some(n as int),
            None => parse_size_model(size_str@) is None,
        },
{
    let v = chars_of(size_str);
    let t = trim_vec(v.as_slice());
    let ob = chars_of("[");
    proof {
        reveal_strlit("[");
        assert(ob@ =~= seq!['[']);
    }
    let t2 = crate::strings::strip_prefix_vec(t.as_slice(), ob.as_slice());
    let core = strip_end_vec(t2.as_slice(), ']');
    if core.len() == 0 {
        return None;
    }
    let (g2, g1) = ends_unit(core.as_slice(), 'G', 'B');
    let (m2, m1) = ends_unit(core.as_slice(), 'M', 'B');
    let (k2, k1) = ends_unit(core.as_slice(), 'K', 'B');
    let (num, mult): (Vec<char>, u64) = if g2 || g1 {
        (strip_unit_vec(core, 'G', 'B'), 0x40000000)
    } else if m2 || m1 {
        (strip_unit_vec(core, 'M', 'B'), 0x100000)
    } else if k2 || k1 {
        (strip_unit_vec(core, 'K', 'B'), 0x400)
    } else {
        (core, 1)
    };
    let numt = trim_vec(num.as_slice());
    scaled(numt, mult)
}

/// Evaluate the trimmed numeral against the multiplier.
fn scaled(numt: Vec<char>, mult: u64) -> (r: Option<u64>)
    requires
        1 <= mult <= 0x40000000,
    ensures
        match r {
            Some(n) => scaled_value(numt@, mult as int) == Some(n as int) || (
            scaled_value(numt@, mult as int) is Some && scaled_value(numt@, mult as int)->0
                > u64::MAX && n == u64::MAX),
            None => scaled_value(numt@, mult as int) is None,
        },
{
    let n: usize = numt.len();
    proof {
        lemma_first_idx_of(numt@, '.');
    }
    let mut dot: usize = 0;
    while dot < n && numt[dot] != '.'
        invariant
            dot <= n,
            n == numt@.len(),
            forall|j: int| 0 <= j < dot ==> numt@[j] != '.',
        decreases n - dot,
    {
        dot = dot + 1;
    }
    proof {
        if dot < n {
            crate::strings::lemma_first_idx_bound(numt@, '.', dot as int);
        } else {
            lemma_first_idx_of(numt@, '.');
            if first_idx_of(numt@, '.') < n {
                assert(numt@[first_idx_of(numt@, '.')] == '.');
            }
        }
    }
    if dot == n {
        // No fraction.
        if n == 0 || n > 15 {
            return None;
        }
        match parse_u64(numt.as_slice()) {
            Some(iv) => {
                proof {
                    lemma_dec_val_digits_bound(numt@);
                }
                proof {
                    assert(iv as int * mult as int <= 0x38D7EA4C68000 * 0x40000000)
                        by (nonlinear_arith)
                        requires
                            0 <= iv < 0x38D7EA4C68000,
                            0 <= mult <= 0x40000000,
                    ;
                }
                let total: u128 = iv as u128 * mult as u128;
                if total > u64::MAX as u128 {
                    Some(u64::MAX)
                } else {
                    Some(total as u64)
                }
            },
            None => {
                proof {
                    if all_digits(numt@) {
                        lemma_dec_val_digits_bound(numt@);
                    }
                }
                None
            },
        }
    } else {
        let intp = subvec(numt.as_slice(), 0, dot);
        let frac = subvec(numt.as_slice(), dot + 1, n);
        if intp.len() > 15 || frac.len() > 15 || (intp.len() == 0 && frac.len() == 0) {
            return None;
        }
        let mut frac_has_dot = false;
        let fn_len: usize = frac.len();
        let mut q: usize = 0;
        while q < fn_len
            invariant
                q <= fn_len,
                fn_len == frac@.len(),
                frac_has_dot == exists|j: int| 0 <= j < q && frac@[j] == '.',
            decreases fn_len - q,
        {
            if frac[q] == '.' {
                frac_has_dot = true;
            }
            q = q + 1;
        }
        proof {
            assert(frac_has_dot == frac@.contains('.'));
        }
        if frac_has_dot {
            return None;
        }
        let iv: u64 = if intp.len() == 0 {
            proof {
                assert(dec_val(intp@) == 0);
            }
            0
        } else {
            match parse_u64(intp.as_slice()) {
                Some(x) => {
                    proof {
                        lemma_dec_val_digits_bound(intp@);
                    }
                    x
                },
                None => {
                    proof {
                        if all_digits(intp@) {
                            lemma_dec_val_digits_bound(intp@);
                        }
                    }
                    return None;
                },
            }
        };
        let fv: u64 = if frac.len() == 0 {
            proof {
                assert(dec_val(frac@) == 0);
            }
            0
        } else {
            match parse_u64(frac.as_slice()) {
                Some(x) => {
                    proof {
                        lemma_dec_val_digits_bound(frac@);
                    }
                    x
                },
                None => {
                    proof {
                        if all_digits(frac@) {
                            lemma_dec_val_digits_bound(frac@);
                        }
                    }
                    return None;
                },
            }
        };
        let mut p10: u128 = 1;
        let fk: usize = frac.len();
        let mut q2: usize = 0;
        while q2 < fk
            invariant
                q2 <= fk <= 15,
                p10 == pow10(q2 as nat),
                p10 <= 0x38D7EA4C68000,
            decreases fk - q2,
        {
            proof {
                lemma_pow10_mono((q2 + 1) as nat, 15);
                assert(pow10(15) == 0x38D7EA4C68000) by {
                    reveal_with_fuel(pow10, 16);
                }
            }
            p10 = p10 * 10;
            q2 = q2 + 1;
        }
        proof {
            lemma_pow10_pos(fk as nat);
        }
        proof {
            assert(iv as int * mult as int <= 0x38D7EA4C68000 * 0x40000000) by (nonlinear_arith)
                requires
                    0 <= iv < 0x38D7EA4C68000,
                    0 <= mult <= 0x40000000,
            ;
            assert(fv as int * mult as int <= 0x38D7EA4C68000 * 0x40000000) by (nonlinear_arith)
                requires
                    0 <= fv < 0x38D7EA4C68000,
                    0 <= mult <= 0x40000000,
            ;
            assert((fv as int * mult as int) / p10 as int <= fv as int * mult as int) by {
                vstd::arithmetic::div_mod::lemma_div_is_ordered_by_denominator(
                    fv as int * mult as int,
                    1,
                    p10 as int,
                );
            }
        }
        let total: u128 = iv as u128 * mult as u128 + (fv as u128 * mult as u128) / p10;
        proof {
            assert(iv as int * mult as int + fv as int * mult as int / pow10(frac@.len())
                == total as int) by {
                vstd::arithmetic::div_mod::lemma_div_pos_is_pos(
                    fv as int * mult as int,
                    pow10(frac@.len()),
                );
            }
        }
        if total > u64::MAX as u128 {
            Some(u64::MAX)
        } else {
            Some(total as u64)
        }
    }
}

/// A numeral of at most fifteen digits stays below `10^15`.
proof fn lemma_dec_val_digits_bound(s: Seq<char>)
    requires
        all_digits(s),
        s.len() <= 15,
    ensures
        dec_val(s) < 0x38D7EA4C68000,
    decreases s.len(),
{
    lemma_dec_val_len_bound(s);
    lemma_pow10_mono(s.len(), 15);
    assert(pow10(15) == 0x38D7EA4C68000) by {
        reveal_with_fuel(pow10, 16);
    }
}

/// A numeral's value is below ten to its length.
proof fn lemma_dec_val_len_bound(s: Seq<char>)
    requires
        all_digits(s),
    ensures
        dec_val(s) < pow10(s.len()),
    decreases s.len(),
{
    if s.len() > 0 {
        let pre = s.drop_last();
        assert(all_digits(pre)) by {
            assert(forall|i: int| 0 <= i < pre.len() ==> pre[i] == #[trigger] s[i]);
        }
        lemma_dec_val_len_bound(pre);
        assert(is_digit(s.last()));
        assert(dec_val(pre) * 10 + crate::chars::digit_val(s.last()) < pow10(pre.len()) * 10)
            by (nonlinear_arith)
            requires
                dec_val(pre) < pow10(pre.len()),
                0 <= crate::chars::digit_val(s.last()) <= 9,
        ;
    } else {
        lemma_pow10_pos(0);
    }
}

/// Powers of ten grow with the exponent.
proof fn lemma_pow10_mono(a: nat, b: nat)
    requires
        a <= b,
    ensures
        pow10(a) <= pow10(b),
    decreases b,
{
    if a < b {
        lemma_pow10_mono(a, (b - 1) as nat);
        lemma_pow10_pos((b - 1) as nat);
    }
}


/// One search hit: the locator plus its presentation fields.
#[derive(Debug)]
pub struct XdccSearchResult {
    pub url: XdccUrl,
    pub filename: String,
    pub size: Option<u64>,
    pub size_str: String,
    pub bot: String,
    pub network: String,
    pub channel: String,
    pub slot: i32,
    pub gets: Option<u32>,
}

impl Clone for XdccSearchResult {
    fn clone(&self) -> (r: Self)
        ensures
            r == self,
    {
        XdccSearchResult {
            url: self.url.clone(),
            filename: self.filename.clone(),
            size: self.size,
            size_str: self.size_str.clone(),
            bot: self.bot.clone(),
            network: self.network.clone(),
            channel: self.channel.clone(),
            slot: self.slot,
            gets: self.gets,
        }
    }
}

/// A channel name with its `#` guaranteed.
fn hash_channel(channel: &str) -> (r: String)
    ensures
        r@ == norm_channel(channel@),
{
    let v = chars_of(channel);
    if v.len() > 0 && v[0] == '#' {
        string_from(v.as_slice())
    } else {
        let mut c = "#".to_owned();
        proof {
            reveal_strlit("#");
        }
        vstd::string::StringExecFns::append(&mut c, channel);
        proof {
            assert(c@ =~= norm_channel(channel@));
        }
        c
    }
}

/// A search hit built from one provider row, if the row names a network,
/// a bot and a file: the channel normalised to its `#`, the size string
/// read by the size parser.
pub open spec fn row_result_ok(
    r: XdccSearchResult,
    network: Seq<char>,
    channel: Seq<char>,
    bot: Seq<char>,
    slot: int,
    filename: Seq<char>,
    size_str: Seq<char>,
    gets: Option<u32>,
) -> bool {
    &&& r.url@.network == network
    &&& r.url@.channel == norm_channel(channel)
    &&& r.url@.bot == bot
    &&& r.url@.slot == slot
    &&& r.filename@ == filename
    &&& (match r.size {
        Some(n) => parse_size_model(size_str) == Some(n as int),
        None => parse_size_model(size_str) is None,
    })
    &&& r.size_str@ == size_str
    &&& r.bot@ == bot
    &&& r.network@ == network
    &&& r.channel@ == norm_channel(channel)
    &&& r.slot == slot
    &&& r.gets == gets
}

/// Build a search hit from one provider row; rows without a network, bot
/// or filename are dropped.
pub fn result_from_row(
    network: String,
    channel: String,
    bot: String,
    slot: i32,
    filename: String,
    size_str: String,
    gets: Option<u32>,
) -> (r: Option<XdccSearchResult>)
    ensures
        (r is Some) == (network@.len() > 0 && bot@.len() > 0 && filename@.len() > 0),
        r is Some ==> row_result_ok(
            r->0,
            network@,
            channel@,
            bot@,
            slot as int,
            filename@,
            size_str@,
            gets,
        ),
{
    if network.as_str().is_empty() || bot.as_str().is_empty() || filename.as_str().is_empty() {
        return None;
    }
    let chan = hash_channel(channel.as_str());
    let size = parse_size(size_str.as_str());
    let url = XdccUrl {
        network: network.clone(),
        channel: chan.clone(),
        bot: bot.clone(),
        slot,
    };
    Some(
        XdccSearchResult {
            url,
            filename,
            size,
            size_str,
            bot,
            network,
            channel: chan,
            slot,
            gets,
        },
    )
}

/// A search hit from a scraped table row, which also carries its slot
/// and popularity as text: a slot that does not read as a positive
/// number, or a row missing its fields, is dropped.
pub fn result_from_text_row(
    network: String,
    channel: String,
    bot: String,
    slot_str: String,
    gets_str: String,
    size_str: String,
    filename: String,
) -> (r: Option<XdccSearchResult>)
    ensures
        r is Some ==> r->0.slot > 0 && row_result_ok(
            r->0,
            network@,
            channel@,
            bot@,
            r->0.slot as int,
            filename@,
            size_str@,
            r->0.gets,
        ),
{
    let sv = chars_of(slot_str.as_str());
    let digits: Vec<char> = if sv.len() > 0 && sv[0] == '#' {
        subvec(sv.as_slice(), 1, sv.len())
    } else {
        subvec(sv.as_slice(), 0, sv.len())
    };
    let slot: i32 = match parse_u64(digits.as_slice()) {
        Some(n) if n <= i32::MAX as u64 => n as i32,
        _ => 0,
    };
    if slot == 0 {
        return None;
    }
    let gv = chars_of(gets_str.as_str());
    let gets: Option<u32> = match parse_u64(gv.as_slice()) {
        Some(n) if n <= u32::MAX as u64 => Some(n as u32),
        _ => None,
    };
    result_from_row(network, channel, bot, slot, filename, size_str, gets)
}

/// The aggregator: the names of the providers it queries. The HTTP
/// fetching runs with the caller; the aggregator decides who is asked
/// and folds the answers together.
pub struct SearchAggregator {
    pub providers: Vec<String>,
}

impl SearchAggregator {
    /// An aggregator with no providers.
    pub fn new() -> (r: Self)
        ensures
            r.providers@.len() == 0,
    {
        SearchAggregator { providers: Vec::new() }
    }

    /// The aggregator over the built-in providers. The proxy setting
    /// belongs to the HTTP layer and does not change the selection.
    pub fn with_default_providers(proxy_url: Option<&str>) -> (r: Self)
        ensures
            r.providers@.len() == 3,
            r.providers@[0]@ == "SkullXDCC"@,
            r.providers@[1]@ == "XDCC.rocks"@,
            r.providers@[2]@ == "XDCC.eu"@,
    {
        let _ = proxy_url;
        let mut agg = Self::new();
        agg.add_provider("SkullXDCC".to_owned());
        agg.add_provider("XDCC.rocks".to_owned());
        agg.add_provider("XDCC.eu".to_owned());
        agg
    }

    /// Register one more provider name.
    pub fn add_provider(&mut self, name: String)
        ensures
            final(self).providers@ == old(self).providers@.push(name),
    {
        self.providers.push(name);
    }

    /// Whether a provider is selected: every provider when no targets
    /// are given, otherwise any case-insensitive match.
    pub fn should_query(name: &str, targets: Option<&Vec<String>>) -> (r: bool)
        ensures
            r == (match targets {
                None => true,
                Some(ts) => exists|i: int|
                    0 <= i < ts@.len() && eq_icase((#[trigger] ts@[i])@, name@),
            }),
    {
        match targets {
            None => true,
            Some(ts) => name_among(ts, name),
        }
    }
}

/// Whether any of the names matches, ASCII-case-insensitively.
fn name_among(ts: &Vec<String>, name: &str) -> (r: bool)
    ensures
        r == exists|i: int| 0 <= i < ts@.len() && eq_icase((#[trigger] ts@[i])@, name@),
{
    let n: usize = ts.len();
    let mut i: usize = 0;
    while i < n
        invariant
            i <= n,
            n == ts@.len(),
            forall|j: int| 0 <= j < i ==> !eq_icase((#[trigger] ts@[j])@, name@),
        decreases n - i,
    {
        if eq_ignore_case(ts[i].as_str(), name) {
            proof {
                assert(eq_icase((ts@[i as int])@, name@));
            }
            return true;
        }
        i = i + 1;
    }
    false
}

/// The hits with every repeated locator dropped, keeping first
/// occurrences in order.
pub open spec fn dedup_urls(s: Seq<XdccSearchResult>) -> Seq<XdccSearchResult>
    decreases s.len(),
{
    if s.len() == 0 {
        s
    } else {
        let pre = dedup_urls(s.drop_last());
        if exists|j: int| 0 <= j < s.len() - 1 && (#[trigger] s[j]).url@ == s.last().url@ {
            pre
        } else {
            pre.push(s.last())
        }
    }
}

/// Drop every hit whose locator already appeared.
pub fn dedup_results(results: Vec<XdccSearchResult>) -> (r: Vec<XdccSearchResult>)
    ensures
        r@ == dedup_urls(results@),
{
    let n: usize = results.len();
    let mut r: Vec<XdccSearchResult> = Vec::new();
    let mut i: usize = 0;
    proof {
        assert(results@.subrange(0, 0) =~= Seq::<XdccSearchResult>::empty());
    }
    while i < n
        invariant
            i <= n,
            n == results@.len(),
            r@ == dedup_urls(results@.subrange(0, i as int)),
        decreases n - i,
    {
        let mut seen = false;
        let mut k: usize = 0;
        while k < i
            invariant
                k <= i < n,
                n == results@.len(),
                seen == exists|j: int|
                    0 <= j < k && (#[trigger] results@[j]).url@ == results@[i as int].url@,
            decreases i - k,
        {
            if results[k].url.eq(&results[i].url) {
                seen = true;
                proof {
                    assert(results@[k as int].url@ == results@[i as int].url@);
                }
            }
            k = k + 1;
        }
        proof {
            let pre = results@.subrange(0, i + 1);
            assert(pre.drop_last() =~= results@.subrange(0, i as int));
            assert(pre.last() == results@[i as int]);
            assert((exists|j: int|
                0 <= j < pre.len() - 1 && (#[trigger] pre[j]).url@ == pre.last().url@) == seen)
                by {
                if seen {
                    let w = choose|j: int|
                        0 <= j < i && (#[trigger] results@[j]).url@ == results@[i as int].url@;
                    assert(pre[w].url@ == pre.last().url@);
                } else {
                    if exists|j: int|
                        0 <= j < pre.len() - 1 && (#[trigger] pre[j]).url@ == pre.last().url@ {
                        let w = choose|j: int|
                            0 <= j < pre.len() - 1 && (#[trigger] pre[j]).url@
                                == pre.last().url@;
                        assert(results@[w].url@ == results@[i as int].url@);
                    }
                }
            }
        }
        if !seen {
            r.push(results[i].clone());
        }
        i = i + 1;
    }
    proof {
        assert(results@.subrange(0, n as int) =~= results@);
    }
    r
}

} // verus!

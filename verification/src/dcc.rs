//! DCC negotiation and transfer arithmetic: the CTCP `DCC SEND` payload
//! parser, the dotted-quad rendering of the offered address, and the
//! cumulative flow-control acknowledgment the receiver writes back after
//! every chunk.

use vstd::prelude::*;
use crate::strings::{
    all_digits, chars_of, dec_digits, dec_val, find_sub, parse_u64, string_from, strip_end_all,
    strip_end_vec, strip_prefix_all, strip_prefix_vec, substr_at, subvec, tokens, tokens_vec, trim,
    trim_vec, has_substr, append_dec_u64,
};

verus! {

/// A file offer parsed from a `DCC SEND` payload.
#[derive(Debug)]
pub struct DccOffer {
    pub filename: String,
    pub ip: String,
    pub port: u16,
    pub size: u64,
}

/// The mathematical shadow of an offer.
pub ghost struct DccOfferModel {
    pub filename: Seq<char>,
    pub ip: Seq<char>,
    pub port: int,
    pub size: int,
}

impl View for DccOffer {
    type V = DccOfferModel;

    open spec fn view(&self) -> DccOfferModel {
        DccOfferModel {
            filename: self.filename@,
            ip: self.ip@,
            port: self.port as int,
            size: self.size as int,
        }
    }
}

impl Clone for DccOffer {
    fn clone(&self) -> (r: Self)
        ensures
            r == self,
    {
        DccOffer {
            filename: self.filename.clone(),
            ip: self.ip.clone(),
            port: self.port,
            size: self.size,
        }
    }
}

/// The payload marker every offer line carries.
pub open spec fn dcc_send_pat() -> Seq<char> {
    seq!['D', 'C', 'C', ' ', 'S', 'E', 'N', 'D']
}

/// Index of the first occurrence of `sub` in `s`; one past the end when
/// there is none.
pub open spec fn first_sub_idx(s: Seq<char>, sub: Seq<char>) -> int
    decreases s.len(),
{
    if substr_at(s, sub, 0) {
        0
    } else if s.len() == 0 {
        1
    } else {
        1 + first_sub_idx(s.drop_first(), sub)
    }
}

/// A first occurrence pins `first_sub_idx` down.
pub proof fn lemma_first_sub_idx(s: Seq<char>, sub: Seq<char>, k: int)
    requires
        substr_at(s, sub, k),
        forall|j: int| 0 <= j < k ==> !substr_at(s, sub, j),
    ensures
        first_sub_idx(s, sub) == k,
    decreases k,
{
    if k == 0 {
    } else {
        assert(!substr_at(s, sub, 0));
        assert(s.len() > 0);
        let t = s.drop_first();
        assert(substr_at(t, sub, k - 1)) by {
            assert(t.subrange(k - 1, k - 1 + sub.len() as int) =~= s.subrange(
                k,
                k + sub.len() as int,
            ));
        }
        assert forall|j: int| 0 <= j < k - 1 implies !substr_at(t, sub, j) by {
            if substr_at(t, sub, j) {
                assert(substr_at(s, sub, j + 1)) by {
                    assert(s.subrange(j + 1, j + 1 + sub.len() as int) =~= t.subrange(
                        j,
                        j + sub.len() as int,
                    ));
                }
            }
        }
        lemma_first_sub_idx(t, sub, k - 1);
    }
}

/// The dotted-quad rendering of a 32-bit address read big-endian.
pub open spec fn dotted_quad(ip: int) -> Seq<char> {
    dec_digits((ip / 0x1000000 % 256) as nat) + seq!['.'] + dec_digits((ip / 0x10000 % 256) as nat)
        + seq!['.'] + dec_digits((ip / 0x100 % 256) as nat) + seq!['.'] + dec_digits(
        (ip % 256) as nat,
    )
}

/// The filename and remainder of the cleaned payload: a quoted filename
/// runs to the closing quote; otherwise it runs to the first space, which
/// must exist.
pub open spec fn split_filename(s: Seq<char>) -> Option<(Seq<char>, Seq<char>)> {
    if s.len() > 0 && s[0] == '"' {
        let body = s.drop_first();
        let q = crate::strings::first_idx_of(body, '"');
        if q >= body.len() {
            None
        } else {
            Some((body.subrange(0, q), body.subrange(q + 1, body.len() as int)))
        }
    } else {
        let k = crate::strings::first_idx_of(s, ' ');
        if k >= s.len() {
            None
        } else {
            Some((s.subrange(0, k), s.subrange(k + 1, s.len() as int)))
        }
    }
}

/// A decimal token read as an integer no larger than `max`.
pub open spec fn num_token(t: Seq<char>, max: int) -> Option<int> {
    if t.len() > 0 && all_digits(t) && dec_val(t) <= max {
        Some(dec_val(t) as int)
    } else {
        None
    }
}

/// What parsing a `DCC SEND` line yields, if anything: everything from
/// the first `DCC SEND` on, the markers stripped and the ends trimmed;
/// then the (possibly quoted) filename; then address, port and size as
/// the next three whitespace-separated decimals, the address rendered as
/// a dotted quad.
pub open spec fn parse_dcc_model(line: Seq<char>) -> Option<DccOfferModel> {
    if !has_substr(line, dcc_send_pat()) {
        None
    } else {
        let start = first_sub_idx(line, dcc_send_pat());
        let tail = line.subrange(start, line.len() as int);
        let cleaned = trim(
            strip_end_all(trim(strip_prefix_all(tail, dcc_send_pat())), '\u{1}'),
        );
        match split_filename(cleaned) {
            None => None,
            Some((filename, rest)) => {
                let toks = tokens(rest);
                if toks.len() < 3 {
                    None
                } else {
                    match (num_token(toks[0], 0xFFFF_FFFF), num_token(toks[1], 0xFFFF), num_token(
                        toks[2],
                        0xFFFF_FFFF_FFFF_FFFF,
                    )) {
                        (Some(ip), Some(port), Some(size)) => Some(
                            DccOfferModel { filename, ip: dotted_quad(ip), port, size },
                        ),
                        _ => None,
                    }
                }
            },
        }
    }
}

/// Render a 32-bit address as its dotted quad.
pub fn ip_to_dotted(ip: u32) -> (r: String)
    ensures
        r@ == dotted_quad(ip as int),
{
    let mut s = String::new();
    append_dec_u64(&mut s, ((ip >> 24) & 0xFF) as u64);
    crate::trusted::push_char(&mut s, '.');
    append_dec_u64(&mut s, ((ip >> 16) & 0xFF) as u64);
    crate::trusted::push_char(&mut s, '.');
    append_dec_u64(&mut s, ((ip >> 8) & 0xFF) as u64);
    crate::trusted::push_char(&mut s, '.');
    append_dec_u64(&mut s, (ip & 0xFF) as u64);
    proof {
        assert((ip >> 24) & 0xFF == ip / 0x1000000 % 256) by (bit_vector);
        assert((ip >> 16) & 0xFF == ip / 0x10000 % 256) by (bit_vector);
        assert((ip >> 8) & 0xFF == ip / 0x100 % 256) by (bit_vector);
        assert(ip & 0xFF == ip % 256) by (bit_vector);
        assert(s@ =~= dotted_quad(ip as int));
    }
    s
}

/// Parse a CTCP `DCC SEND` payload out of an IRC line.
pub fn parse_dcc_send(line: &str) -> (r: Option<DccOffer>)
    ensures
        match r {
            Some(o) => parse_dcc_model(line@) == Some(o@),
            None => parse_dcc_model(line@) is None,
        },
{
    let v = chars_of(line);
    let pat = chars_of("DCC SEND");
    proof {
        reveal_strlit("DCC SEND");
        assert(pat@ =~= dcc_send_pat());
    }
    let start: usize = match find_sub(v.as_slice(), pat.as_slice()) {
        None => {
            return None;
        },
        Some(i) => {
            proof {
                lemma_first_sub_idx(v@, pat@, i as int);
            }
            i
        },
    };
    let tail = subvec(v.as_slice(), start, v.len());
    let stripped = strip_prefix_vec(tail.as_slice(), pat.as_slice());
    let t1 = trim_vec(stripped.as_slice());
    let t2 = strip_end_vec(t1.as_slice(), '\u{1}');
    let cleaned = trim_vec(t2.as_slice());

    let ghost gm = parse_dcc_model(line@);

    let (filename, rest): (Vec<char>, Vec<char>) = if cleaned.len() > 0 && cleaned[0] == '"' {
        let body = subvec(cleaned.as_slice(), 1, cleaned.len());
        proof {
            assert(body@ =~= cleaned@.drop_first());
            crate::strings::lemma_first_idx_of(body@, '"');
        }
        let mut q: usize = 0;
        let bn: usize = body.len();
        while q < bn && body[q] != '"'
            invariant
                q <= bn,
                bn == body@.len(),
                forall|j: int| 0 <= j < q ==> body@[j] != '"',
            decreases bn - q,
        {
            q = q + 1;
        }
        if q == bn {
            proof {
                crate::strings::lemma_first_idx_of(body@, '"');
                if crate::strings::first_idx_of(body@, '"') < bn {
                    assert(body@[crate::strings::first_idx_of(body@, '"')] == '"');
                }
            }
            return None;
        }
        proof {
            crate::strings::lemma_first_idx_bound(body@, '"', q as int);
        }
        let f = subvec(body.as_slice(), 0, q);
        let r = subvec(body.as_slice(), q + 1, bn);
        (f, r)
    } else {
        proof {
            crate::strings::lemma_first_idx_of(cleaned@, ' ');
        }
        let cn: usize = cleaned.len();
        let mut k: usize = 0;
        while k < cn && cleaned[k] != ' '
            invariant
                k <= cn,
                cn == cleaned@.len(),
                forall|j: int| 0 <= j < k ==> cleaned@[j] != ' ',
            decreases cn - k,
        {
            k = k + 1;
        }
        if k == cn {
            proof {
                crate::strings::lemma_first_idx_of(cleaned@, ' ');
                if crate::strings::first_idx_of(cleaned@, ' ') < cn {
                    assert(cleaned@[crate::strings::first_idx_of(cleaned@, ' ')] == ' ');
                }
            }
            return None;
        }
        proof {
            crate::strings::lemma_first_idx_bound(cleaned@, ' ', k as int);
        }
        let f = subvec(cleaned.as_slice(), 0, k);
        let r = subvec(cleaned.as_slice(), k + 1, cn);
        (f, r)
    };

    let toks = tokens_vec(rest.as_slice());
    if toks.len() < 3 {
        return None;
    }
    proof {
        assert(toks@.map_values(|p: Vec<char>| p@)[0] == toks@[0]@);
        assert(toks@.map_values(|p: Vec<char>| p@)[1] == toks@[1]@);
        assert(toks@.map_values(|p: Vec<char>| p@)[2] == toks@[2]@);
    }
    let ip_n: u32 = match parse_u64(toks[0].as_slice()) {
        Some(n) if n <= 0xFFFF_FFFF => n as u32,
        _ => {
            return None;
        },
    };
    let port: u16 = match parse_u64(toks[1].as_slice()) {
        Some(n) if n <= 0xFFFF => n as u16,
        _ => {
            return None;
        },
    };
    let size: u64 = match parse_u64(toks[2].as_slice()) {
        Some(n) => n,
        None => {
            return None;
        },
    };
    let offer = DccOffer {
        filename: string_from(filename.as_slice()),
        ip: ip_to_dotted(ip_n),
        port,
        size,
    };
    Some(offer)
}

/// Running state of one DCC byte transfer: how much has arrived against
/// what was announced.
pub struct DccProgress {
    pub downloaded: u64,
    pub total: u64,
}

impl DccProgress {
    /// Begin a transfer at `offset` (non-zero when resuming a partial
    /// file) toward `total` announced bytes.
    pub fn begin(offset: u64, total: u64) -> (r: DccProgress)
        ensures
            r.downloaded == offset,
            r.total == total,
    {
        DccProgress { downloaded: offset, total }
    }

    /// Account for one received chunk and produce the 4-byte big-endian
    /// cumulative acknowledgment the DCC protocol requires, the count
    /// truncated to 32 bits as on the wire.
    pub fn on_chunk(&mut self, n: u64) -> (ack: [u8; 4])
        requires
            old(self).downloaded + n <= u64::MAX,
        ensures
            final(self).downloaded == old(self).downloaded + n,
            final(self).total == old(self).total,
            ack@ == ack_bytes(old(self).downloaded + n),
    {
        self.downloaded = self.downloaded + n;
        let w: u32 = (self.downloaded & 0xFFFF_FFFF) as u32;
        proof {
            let d = self.downloaded;
            assert(d & 0xFFFF_FFFF == d % 0x1_0000_0000) by (bit_vector);
            assert((w >> 24) & 0xFF == w / 0x1000000 % 256) by (bit_vector);
            assert((w >> 16) & 0xFF == w / 0x10000 % 256) by (bit_vector);
            assert((w >> 8) & 0xFF == w / 0x100 % 256) by (bit_vector);
            assert(w & 0xFF == w % 256) by (bit_vector);
        }
        let b0 = ((w >> 24) & 0xFF) as u8;
        let b1 = ((w >> 16) & 0xFF) as u8;
        let b2 = ((w >> 8) & 0xFF) as u8;
        let b3 = (w & 0xFF) as u8;
        let ack = [b0, b1, b2, b3];
        proof {
            assert(ack@ =~= ack_bytes(self.downloaded as int));
        }
        ack
    }

    /// Whole-percent progress toward the announced size, capped at 100;
    /// zero when the size is unknown.
    pub fn percent(&self) -> (p: u64)
        ensures
            self.total > 0 && self.downloaded <= self.total ==> p == self.downloaded as int * 100
                / self.total as int,
            self.total > 0 && self.downloaded > self.total ==> p == 100,
            self.total == 0 ==> p == 0,
    {
        if self.total == 0 {
            0
        } else if self.downloaded > self.total {
            100
        } else {
            let p = ((self.downloaded as u128 * 100) / self.total as u128) as u64;
            proof {
                assert(self.downloaded as int * 100 / self.total as int <= 100) by {
                    vstd::arithmetic::div_mod::lemma_div_is_ordered(
                        self.downloaded as int * 100,
                        self.total as int * 100,
                        self.total as int,
                    );
                    vstd::arithmetic::div_mod::lemma_div_by_multiple(100, self.total as int);
                }
            }
            p
        }
    }
}

/// The 4-byte big-endian acknowledgment for a cumulative count, truncated
/// to 32 bits.
pub open spec fn ack_bytes(count: int) -> Seq<u8> {
    let w = count % 0x1_0000_0000;
    seq![
        (w / 0x1000000 % 256) as u8,
        (w / 0x10000 % 256) as u8,
        (w / 0x100 % 256) as u8,
        (w % 256) as u8,
    ]
}

/// Bytes-per-second rate over an interval, rounding down and saturating;
/// zero over an empty interval.
pub fn rate_per_sec(bytes: u64, elapsed_ms: u64) -> (r: u64)
    ensures
        elapsed_ms > 0 && bytes as int * 1000 / elapsed_ms as int <= u64::MAX ==> r == bytes as int
            * 1000 / elapsed_ms as int,
        elapsed_ms > 0 && bytes as int * 1000 / elapsed_ms as int > u64::MAX ==> r == u64::MAX,
        elapsed_ms == 0 ==> r == 0,
{
    if elapsed_ms > 0 {
        let q: u128 = (bytes as u128 * 1000) / elapsed_ms as u128;
        if q > u64::MAX as u128 {
            u64::MAX
        } else {
            q as u64
        }
    } else {
        0
    }
}


/// Characters never written into a filename on disk.
pub open spec fn is_bad_file_char(c: char) -> bool {
    c == '/' || c == '\\' || c == ':' || c == '*' || c == '?' || c == '"' || c == '<' || c == '>'
        || c == '|'
}

/// A filename with every unsafe character replaced by an underscore.
pub open spec fn sanitize_name(s: Seq<char>) -> Seq<char> {
    s.map_values(|c: char| if is_bad_file_char(c) { '_' } else { c })
}

/// Sanitize a filename before it touches the filesystem.
pub fn sanitize_filename(name: &str) -> (r: String)
    ensures
        r@ == sanitize_name(name@),
{
    let v = chars_of(name);
    let n: usize = v.len();
    let mut out: Vec<char> = Vec::new();
    let mut i: usize = 0;
    while i < n
        invariant
            i <= n,
            n == v@.len(),
            v@ == name@,
            out@ =~= sanitize_name(name@.subrange(0, i as int)),
        decreases n - i,
    {
        let c = v[i];
        if c == '/' || c == '\\' || c == ':' || c == '*' || c == '?' || c == '"' || c == '<'
            || c == '>' || c == '|' {
            out.push('_');
        } else {
            out.push(c);
        }
        proof {
            assert(out@ =~= sanitize_name(name@.subrange(0, i + 1)));
        }
        i = i + 1;
    }
    proof {
        assert(name@.subrange(0, n as int) =~= name@);
    }
    string_from(out.as_slice())
}

} // verus!

//! Network primitive tokens of an SDP line: the network-type and
//! address-family keywords, and literal IP addresses, modelled as the
//! library's own values (four octets, or eight 16-bit groups).
use vstd::prelude::*;
use vstd::string::StrSliceExecFns;
use vstd::string::StringExecFns;

use crate::error::SdpParserError;
use crate::strutil::all_digits;
use crate::strutil::dec_val;
use crate::strutil::digits_part;
use crate::strutil::first_idx;
use crate::strutil::has_char;
use crate::strutil::is_digit;
use crate::strutil::ci_eq;
use crate::strutil::eq_ignore_case;
use crate::strutil::parse_u32;
use crate::strutil::split_on;
use crate::strutil::split_char_vec;
use crate::strutil::u32_from_str;

verus! {

/// The network-type token; only the Internet is recognized.
#[derive(Clone, Copy, Debug, PartialEq, Eq, Structural)]
pub enum SdpNetType {
    Internet,
}

/// The address-family token of an SDP address.
#[derive(Clone, Copy, Debug, PartialEq, Eq, Structural)]
pub enum SdpAddrType {
    IP4,
    IP6,
}

/// A validated literal IP address: four decimal octets, or eight 16-bit
/// hexadecimal groups.
#[derive(Clone, Debug, PartialEq)]
pub enum SdpIpAddr {
    V4 { octets: Vec<u8> },
    V6 { groups: Vec<u16> },
}

impl SdpIpAddr {
    /// Shape invariant: a version-4 address has exactly four octets, a
    /// version-6 address exactly eight groups.
    pub open spec fn wf(&self) -> bool {
        match self {
            SdpIpAddr::V4 { octets } => octets@.len() == 4,
            SdpIpAddr::V6 { groups } => groups@.len() == 8,
        }
    }

    /// Whether the address belongs to the given family.
    pub open spec fn has_family(&self, at: SdpAddrType) -> bool {
        match at {
            SdpAddrType::IP4 => self is V4,
            SdpAddrType::IP6 => self is V6,
        }
    }
}

impl SdpNetType {
    /// The canonical spelling of the network-type token.
    pub fn display_string(&self) -> (r: String)
        ensures
            r@ == "IN"@,
    {
        String::from_str("IN")
    }
}

impl SdpAddrType {
    /// The canonical spelling of the address-family token.
    pub fn display_string(&self) -> (r: String)
        ensures
            self is IP4 ==> r@ == "Ip4"@,
            self is IP6 ==> r@ == "Ip6"@,
    {
        match self {
            SdpAddrType::IP4 => String::from_str("Ip4"),
            SdpAddrType::IP6 => String::from_str("Ip6"),
        }
    }
}

/// Recognizes the network-type token: exactly a case-insensitive `IN`.
pub fn parse_nettype(value: &str) -> (r: Result<SdpNetType, SdpParserError>)
    ensures
        r is Ok <==> ci_eq(value@, "IN"@),
        r matches Err(e) ==> e.kind() is Malformed && e.offending() == value@,
{
    if eq_ignore_case(value, "IN") {
        Ok(SdpNetType::Internet)
    } else {
        Err(SdpParserError::Malformed {
            message: String::from_str("nettype needs to be IN"),
            line: String::from_str(value),
        })
    }
}

/// Which address family a token names, if any: a case-insensitive `IP4`
/// or `IP6`.
pub open spec fn addrtype_of(s: Seq<char>) -> Option<SdpAddrType> {
    if ci_eq(s, "IP4"@) {
        Some(SdpAddrType::IP4)
    } else if ci_eq(s, "IP6"@) {
        Some(SdpAddrType::IP6)
    } else {
        None
    }
}

/// Recognizes the address-family token, exactly as specified by
/// [`addrtype_of`].
pub fn parse_addrtype(value: &str) -> (r: Result<SdpAddrType, SdpParserError>)
    ensures
        r matches Ok(a) ==> addrtype_of(value@) == Some(a),
        r is Ok <==> addrtype_of(value@) is Some,
        r matches Err(e) ==> e.kind() is Malformed && e.offending() == value@,
{
    if eq_ignore_case(value, "IP4") {
        Ok(SdpAddrType::IP4)
    } else if eq_ignore_case(value, "IP6") {
        Ok(SdpAddrType::IP6)
    } else {
        Err(SdpParserError::Malformed {
            message: String::from_str("address type needs to be IP4 or IP6"),
            line: String::from_str(value),
        })
    }
}

} // verus!

verus! {

/// Value of one dotted-quad octet text: one to three decimal digits, no
/// leading zero unless the octet is `0` itself, at most 255.
pub open spec fn ipv4_octet(t: Seq<char>) -> Option<u8> {
    if 1 <= t.len() && t.len() <= 3 && all_digits(t) && !(t.len() > 1 && t[0] == '0') && dec_val(t)
        <= 255 {
        Some(dec_val(t) as u8)
    } else {
        None
    }
}

/// The four octets of a version-4 literal (`a.b.c.d`), when valid.
pub open spec fn ipv4_octets(s: Seq<char>) -> Option<Seq<u8>> {
    let parts = split_on(s, '.');
    if parts.len() == 4 && (forall|k: int| 0 <= k < 4 ==> ipv4_octet(parts[k]) is Some) {
        Some(Seq::new(4, |k: int| ipv4_octet(parts[k])->0))
    } else {
        None
    }
}

/// Value of one 16-bit group text: one to four hexadecimal digits.
pub open spec fn ipv6_piece(t: Seq<char>) -> Option<u16> {
    if 1 <= t.len() && t.len() <= 4 && crate::strutil::all_hex(t) {
        Some(crate::strutil::hex_val(t) as u16)
    } else {
        None
    }
}

/// Whether every piece is a valid 16-bit group text.
pub open spec fn hex_pieces_ok(ps: Seq<Seq<char>>) -> bool {
    forall|k: int| 0 <= k < ps.len() ==> ipv6_piece(ps[k]) is Some
}

/// The group values of a run of 16-bit group texts.
pub open spec fn hex_pieces_vals(ps: Seq<Seq<char>>) -> Seq<u16> {
    Seq::new(ps.len(), |k: int| ipv6_piece(ps[k])->0)
}

/// The two 16-bit groups carried by an embedded dotted quad.
pub open spec fn v4_as_groups(o: Seq<u8>) -> Seq<u16> {
    seq![
        (o[0] as int * 256 + o[1] as int) as u16,
        (o[2] as int * 256 + o[3] as int) as u16,
    ]
}

/// Whether a colon-separated run, possibly ending in an embedded dotted
/// quad, is valid.
pub open spec fn tail_ok(ps: Seq<Seq<char>>) -> bool {
    if ps.len() == 0 {
        true
    } else if has_char(ps.last(), '.') {
        hex_pieces_ok(ps.drop_last()) && ipv4_octets(ps.last()) is Some
    } else {
        hex_pieces_ok(ps)
    }
}

/// The group values of a valid colon-separated run, an embedded dotted
/// quad counting as two groups.
pub open spec fn tail_vals(ps: Seq<Seq<char>>) -> Seq<u16> {
    if ps.len() == 0 {
        Seq::empty()
    } else if has_char(ps.last(), '.') {
        hex_pieces_vals(ps.drop_last()) + v4_as_groups(ipv4_octets(ps.last())->0)
    } else {
        hex_pieces_vals(ps)
    }
}

/// Whether `s` contains the two-colon compression marker.
pub open spec fn has_dc(s: Seq<char>) -> bool {
    exists|k: int| 0 <= k < s.len() - 1 && #[trigger] s[k] == ':' && s[k + 1] == ':'
}

/// Index of the first compression marker (meaningful only under
/// [`has_dc`]).
pub open spec fn dc_idx(s: Seq<char>) -> int
    decreases s.len(),
{
    if s.len() < 2 {
        0
    } else if s[0] == ':' && s[1] == ':' {
        0
    } else {
        1 + dc_idx(s.drop_first())
    }
}

proof fn lemma_dc_idx_is(s: Seq<char>, m: int)
    requires
        0 <= m <= s.len(),
        forall|k: int| 0 <= k < m ==> !(#[trigger] s[k] == ':' && s[k + 1] == ':'),
        m >= s.len() - 1 || (s[m] == ':' && s[m + 1] == ':'),
    ensures
        m < s.len() - 1 ==> has_dc(s) && dc_idx(s) == m,
        m >= s.len() - 1 ==> !has_dc(s),
    decreases s.len(),
{
    if m >= s.len() - 1 {
    } else if s.len() < 2 || (s[0] == ':' && s[1] == ':') {
    } else {
        assert forall|k: int| 0 <= k < m - 1 implies !(#[trigger] s.drop_first()[k] == ':'
            && s.drop_first()[k + 1] == ':') by {
            assert(s.drop_first()[k] == s[k + 1]);
            assert(s.drop_first()[k + 1] == s[k + 2]);
        }
        assert(s.drop_first()[m - 1] == s[m]);
        assert(s.drop_first()[m] == s[m + 1]);
        lemma_dc_idx_is(s.drop_first(), m - 1);
        let w = choose|k: int|
            0 <= k < s.drop_first().len() - 1 && #[trigger] s.drop_first()[k] == ':'
                && s.drop_first()[k + 1] == ':';
        assert(s[w + 1] == ':' && s[w + 2] == ':');
    }
}

/// The eight groups of a version-6 literal, when valid: colon-separated
/// 16-bit groups, at most one two-colon compression standing for the
/// missing zero groups, and optionally a trailing embedded dotted quad.
pub open spec fn ipv6_groups(s: Seq<char>) -> Option<Seq<u16>> {
    if !has_dc(s) {
        let ps = split_on(s, ':');
        if tail_ok(ps) && tail_vals(ps).len() == 8 {
            Some(tail_vals(ps))
        } else {
            None
        }
    } else {
        let left = s.take(dc_idx(s));
        let right = s.skip(dc_idx(s) + 2);
        let lps = if left.len() == 0 {
            Seq::<Seq<char>>::empty()
        } else {
            split_on(left, ':')
        };
        let rps = if right.len() == 0 {
            Seq::<Seq<char>>::empty()
        } else {
            split_on(right, ':')
        };
        if hex_pieces_ok(lps) && tail_ok(rps) && lps.len() + tail_vals(rps).len() <= 7 {
            Some(
                hex_pieces_vals(lps) + Seq::new(
                    (8 - lps.len() - tail_vals(rps).len()) as nat,
                    |k: int| 0u16,
                ) + tail_vals(rps),
            )
        } else {
            None
        }
    }
}

fn parse_ipv4_octet(t: &str) -> (r: Option<u8>)
    ensures
        r == ipv4_octet(t@),
{
    let n: usize = t.unicode_len();
    if n < 1 || n > 3 {
        return None;
    }
    if n > 1 && t.get_char(0) == '0' {
        return None;
    }
    if t.get_char(0) == '+' {
        return None;
    }
    match parse_u32(t) {
        None => {
            proof {
                if all_digits(t@) {
                    crate::strutil::lemma_dec_val_small(t@);
                }
            }
            None
        },
        Some(v) => {
            proof {
                crate::strutil::lemma_dec_val_small(t@);
            }
            if v <= 255 {
                Some(v as u8)
            } else {
                None
            }
        },
    }
}

fn parse_ipv4_vec(s: &str) -> (r: Option<Vec<u8>>)
    ensures
        r matches Some(v) ==> ipv4_octets(s@) == Some(v@),
        r is None ==> ipv4_octets(s@) is None,
{
    let parts = split_char_vec(s, '.');
    if parts.len() != 4 {
        return None;
    }
    let mut out: Vec<u8> = Vec::new();
    let mut i: usize = 0;
    while i < 4
        invariant
            0 <= i <= 4,
            parts.deep_view() == split_on(s@, '.'),
            parts@.len() == 4,
            out@.len() == i,
            forall|k: int| 0 <= k < i ==> ipv4_octet(parts.deep_view()[k]) == Some(out@[k]),
        decreases 4 - i,
    {
        match parse_ipv4_octet(parts[i].as_str()) {
            None => {
                proof {
                    assert(parts.deep_view()[i as int] == parts@[i as int]@);
                }
                return None;
            },
            Some(b) => {
                proof {
                    assert(parts.deep_view()[i as int] == parts@[i as int]@);
                }
                out.push(b);
            },
        }
        i += 1;
    }
    proof {
        assert(out@ =~= Seq::new(4, |k: int| ipv4_octet(split_on(s@, '.')[k])->0));
    }
    Some(out)
}

fn parse_hex_piece(t: &str) -> (r: Option<u16>)
    ensures
        r == ipv6_piece(t@),
{
    let n: usize = t.unicode_len();
    if n < 1 || n > 4 {
        return None;
    }
    let mut acc: u32 = 0;
    let mut i: usize = 0;
    while i < n
        invariant
            0 <= i <= n,
            n == t@.len(),
            n <= 4,
            forall|k: int| 0 <= k < i ==> crate::strutil::is_hex_digit(t@[k]),
            acc == crate::strutil::hex_val(t@.take(i as int)),
            acc <= 65535,
        decreases n - i,
    {
        let c = t.get_char(i);
        let dv: u32 = if '0' <= c && c <= '9' {
            (c as u32) - ('0' as u32)
        } else if 'a' <= c && c <= 'f' {
            (c as u32) - ('a' as u32) + 10
        } else if 'A' <= c && c <= 'F' {
            (c as u32) - ('A' as u32) + 10
        } else {
            proof {
                assert(!crate::strutil::is_hex_digit(t@[i as int]));
            }
            return None;
        };
        proof {
            let m: int = i as int + 1;
            assert(t@.take(m).drop_last() =~= t@.take(i as int));
            assert(t@.take(m).last() == t@[i as int]);
            assert forall|k: int| 0 <= k < m implies crate::strutil::is_hex_digit(
                t@.take(m)[k],
            ) by {}
            crate::strutil::lemma_hex_val_bound(t@.take(m));
        }
        acc = acc * 16 + dv;
        i += 1;
    }
    proof {
        assert(t@.take(n as int) =~= t@);
    }
    Some(acc as u16)
}

fn parse_hex_pieces(ps: &Vec<String>, upto: usize) -> (r: Option<Vec<u16>>)
    requires
        upto <= ps@.len(),
    ensures
        r matches Some(v) ==> hex_pieces_ok(ps.deep_view().take(upto as int)) && v@
            == hex_pieces_vals(ps.deep_view().take(upto as int)),
        r is None ==> !hex_pieces_ok(ps.deep_view().take(upto as int)),
{
    let mut out: Vec<u16> = Vec::new();
    let mut i: usize = 0;
    while i < upto
        invariant
            0 <= i <= upto <= ps@.len(),
            out@.len() == i,
            forall|k: int| 0 <= k < i ==> ipv6_piece(ps.deep_view()[k]) == Some(out@[k]),
        decreases upto - i,
    {
        match parse_hex_piece(ps[i].as_str()) {
            None => {
                proof {
                    assert(ps.deep_view()[i as int] == ps@[i as int]@);
                    assert(ps.deep_view().take(upto as int)[i as int] == ps.deep_view()[i as int]);
                }
                return None;
            },
            Some(g) => {
                proof {
                    assert(ps.deep_view()[i as int] == ps@[i as int]@);
                }
                out.push(g);
            },
        }
        i += 1;
    }
    proof {
        assert forall|k: int| 0 <= k < upto implies ipv6_piece(
            ps.deep_view().take(upto as int)[k],
        ) is Some by {
            assert(ps.deep_view().take(upto as int)[k] == ps.deep_view()[k]);
        }
        assert(out@ =~= hex_pieces_vals(ps.deep_view().take(upto as int)));
    }
    Some(out)
}

fn parse_tail(ps: &Vec<String>) -> (r: Option<Vec<u16>>)
    ensures
        r matches Some(v) ==> tail_ok(ps.deep_view()) && v@ == tail_vals(ps.deep_view()),
        r is None ==> !tail_ok(ps.deep_view()),
{
    let m = ps.len();
    if m == 0 {
        let out: Vec<u16> = Vec::new();
        proof {
            assert(out@ =~= tail_vals(ps.deep_view()));
        }
        return Some(out);
    }
    proof {
        assert(ps.deep_view().last() == ps@[m - 1]@);
    }
    if crate::strutil::str_contains_char(ps[m - 1].as_str(), '.') {
        let head = match parse_hex_pieces(ps, m - 1) {
            None => {
                proof {
                    assert(ps.deep_view().drop_last() =~= ps.deep_view().take(m - 1));
                }
                return None;
            },
            Some(v) => v,
        };
        let quad = match parse_ipv4_vec(ps[m - 1].as_str()) {
            None => {
                return None;
            },
            Some(v) => v,
        };
        let mut out = head;
        let a: u16 = (quad[0] as u16) * 256 + (quad[1] as u16);
        let b: u16 = (quad[2] as u16) * 256 + (quad[3] as u16);
        out.push(a);
        out.push(b);
        proof {
            assert(ps.deep_view().drop_last() =~= ps.deep_view().take(m - 1));
            assert(out@ =~= tail_vals(ps.deep_view()));
        }
        Some(out)
    } else {
        match parse_hex_pieces(ps, m) {
            None => {
                proof {
                    assert(ps.deep_view().take(m as int) =~= ps.deep_view());
                }
                None
            },
            Some(v) => {
                proof {
                    assert(ps.deep_view().take(m as int) =~= ps.deep_view());
                }
                Some(v)
            },
        }
    }
}

fn parse_ipv6_vec(s: &str) -> (r: Option<Vec<u16>>)
    ensures
        r matches Some(v) ==> ipv6_groups(s@) == Some(v@),
        r is None ==> ipv6_groups(s@) is None,
{
    let n: usize = s.unicode_len();
    let mut j: usize = 0;
    while n >= 1 && j < n - 1 && !(s.get_char(j) == ':' && s.get_char(j + 1) == ':')
        invariant
            0 <= j <= n,
            n == s@.len(),
            forall|k: int| 0 <= k < j ==> !(#[trigger] s@[k] == ':' && s@[k + 1] == ':'),
        decreases n - j,
    {
        j += 1;
    }
    if n < 1 || j >= n - 1 {
        proof {
            lemma_dc_idx_is(s@, j as int);
        }
        let parts = split_char_vec(s, ':');
        match parse_tail(&parts) {
            None => None,
            Some(v) => {
                if v.len() == 8 {
                    Some(v)
                } else {
                    None
                }
            },
        }
    } else {
        proof {
            lemma_dc_idx_is(s@, j as int);
        }
        let left = s.substring_char(0, j);
        let right = s.substring_char(j + 2, n);
        proof {
            assert(left@ =~= s@.take(j as int));
            assert(right@ =~= s@.skip(j as int + 2));
        }
        let mut lvals: Vec<u16> = Vec::new();
        if left.unicode_len() > 0 {
            let lparts = split_char_vec(left, ':');
            lvals = match parse_hex_pieces(&lparts, lparts.len()) {
                None => {
                    proof {
                        assert(lparts.deep_view().take(lparts@.len() as int)
                            =~= lparts.deep_view());
                    }
                    return None;
                },
                Some(v) => v,
            };
            proof {
                assert(lparts.deep_view().take(lparts@.len() as int) =~= lparts.deep_view());
            }
        }
        let mut rvals: Vec<u16> = Vec::new();
        if right.unicode_len() > 0 {
            let rparts = split_char_vec(right, ':');
            rvals = match parse_tail(&rparts) {
                None => {
                    return None;
                },
                Some(v) => v,
            };
        }
        let l = lvals.len();
        let rl = rvals.len();
        if l > 7 || rl > 7 - l {
            return None;
        }
        let ghost lseq = lvals@;
        let ghost rseq = rvals@;
        let mut out = lvals;
        let mut z: usize = 0;
        while z < 8 - l - rl
            invariant
                0 <= z <= 8 - l - rl,
                l + rl <= 7,
                l == lseq.len(),
                rl == rseq.len(),
                out@ == lseq + Seq::new(z as nat, |k: int| 0u16),
            decreases 8 - l - rl - z,
        {
            out.push(0u16);
            proof {
                assert(out@ =~= lseq + Seq::new(z as nat + 1, |k: int| 0u16));
            }
            z += 1;
        }
        let mut w: usize = 0;
        while w < rl
            invariant
                0 <= w <= rl,
                l == lseq.len(),
                rl == rseq.len(),
                l + rl <= 7,
                rseq.len() == rl,
                rvals@ == rseq,
                out@ == lseq + Seq::new((8 - l - rl) as nat, |k: int| 0u16) + rseq.take(w as int),
            decreases rl - w,
        {
            out.push(rvals[w]);
            proof {
                assert(out@ =~= lseq + Seq::new((8 - l - rl) as nat, |k: int| 0u16) + rseq.take(
                    w as int + 1,
                ));
            }
            w += 1;
        }
        proof {
            assert(rseq.take(rl as int) =~= rseq);
            assert(out@ =~= lseq + Seq::new((8 - l - rl) as nat, |k: int| 0u16) + rseq);
        }
        Some(out)
    }
}

/// Which family a bare literal is tried as: the dot-presence heuristic
/// (a token with a `.` is read as version 4, anything else as version 6).
pub open spec fn inferred_family(s: Seq<char>) -> SdpAddrType {
    if has_char(s, '.') {
        SdpAddrType::IP4
    } else {
        SdpAddrType::IP6
    }
}

/// Whether a token is a valid literal of the given family.
pub open spec fn addr_valid(at: SdpAddrType, s: Seq<char>) -> bool {
    match at {
        SdpAddrType::IP4 => ipv4_octets(s) is Some,
        SdpAddrType::IP6 => ipv6_groups(s) is Some,
    }
}

/// Parses a literal IP address of the requested family; fails exactly when
/// the token is not a valid literal of that family.
pub fn parse_unicast_addr(addrtype: &SdpAddrType, value: &str) -> (r: Result<
    SdpIpAddr,
    SdpParserError,
>)
    ensures
        r matches Ok(a) ==> a.wf() && a.has_family(*addrtype) && (match a {
            SdpIpAddr::V4 { octets } => Some(octets@) == ipv4_octets(value@),
            SdpIpAddr::V6 { groups } => Some(groups@) == ipv6_groups(value@),
        }),
        r is Ok <==> addr_valid(*addrtype, value@),
        r matches Err(e) ==> e.kind() is Malformed && e.offending() == value@,
{
    let ok = match addrtype {
        SdpAddrType::IP4 => {
            match parse_ipv4_vec(value) {
                Some(octets) => Some(SdpIpAddr::V4 { octets }),
                None => None,
            }
        },
        SdpAddrType::IP6 => {
            match parse_ipv6_vec(value) {
                Some(groups) => Some(SdpIpAddr::V6 { groups }),
                None => None,
            }
        },
    };
    match ok {
        Some(a) => Ok(a),
        None => Err(SdpParserError::Malformed {
            message: String::from_str("Failed to parse unicast address attribute"),
            line: String::from_str(value),
        }),
    }
}

/// Parses a literal IP address whose family is inferred by the
/// dot-presence heuristic, exactly as [`inferred_family`] says.
pub fn parse_unicast_addr_unknown_type(value: &str) -> (r: Result<SdpIpAddr, SdpParserError>)
    ensures
        r matches Ok(a) ==> a.wf() && a.has_family(inferred_family(value@)) && (match a {
            SdpIpAddr::V4 { octets } => Some(octets@) == ipv4_octets(value@),
            SdpIpAddr::V6 { groups } => Some(groups@) == ipv6_groups(value@),
        }),
        r is Ok <==> addr_valid(inferred_family(value@), value@),
        r matches Err(e) ==> e.kind() is Malformed && e.offending() == value@,
{
    if crate::strutil::str_contains_char(value, '.') {
        parse_unicast_addr(&SdpAddrType::IP4, value)
    } else {
        parse_unicast_addr(&SdpAddrType::IP6, value)
    }
}

} // verus!

verus! {

/// Whether `a` is exactly the address written by token `t` under the
/// dot-presence heuristic.
pub open spec fn addr_matches(a: SdpIpAddr, t: Seq<char>) -> bool {
    &&& a.wf()
    &&& a.has_family(inferred_family(t))
    &&& match a {
        SdpIpAddr::V4 { octets } => Some(octets@) == ipv4_octets(t),
        SdpIpAddr::V6 { groups } => Some(groups@) == ipv6_groups(t),
    }
}

/// Whether `a` is exactly the address written by token `t` read as the
/// explicitly requested family.
pub open spec fn addr_matches_typed(at: SdpAddrType, a: SdpIpAddr, t: Seq<char>) -> bool {
    &&& a.wf()
    &&& a.has_family(at)
    &&& match a {
        SdpIpAddr::V4 { octets } => Some(octets@) == ipv4_octets(t),
        SdpIpAddr::V6 { groups } => Some(groups@) == ipv6_groups(t),
    }
}

} // verus!

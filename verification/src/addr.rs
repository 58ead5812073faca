//! Endpoints and network patterns, and the text forms they are read from.
//!
//! An IPv4 address is written `a.b.c.d`: each part a decimal octet of one
//! to three digits, at most 255, without a leading zero unless it is `0`
//! itself. An IPv6 address is written as eight groups of one to four
//! hexadecimal digits with colons between them, where one run of groups
//! that are all zero may be left out and written `::`. The forms with a
//! dotted tail or with a zone are not read.
//!
//! A host name is written as labels with dots between them, 253 characters
//! at the most: each label one to 63 letters, digits and hyphens, with no
//! hyphen at either end, and the last label not all digits. What address a
//! name stands for is not known here: that takes a resolver.
//!
//! An endpoint is written `a.b.c.d:port`, `[ipv6]:port` or `name:port`,
//! where `port` has one to five digits and is at most 65535. Only the first
//! two are socket addresses. A network pattern is written as
//! an address (that one address) or as `address/n` (the addresses that
//! share the leading `n` bits), with `n` up to 32 in one or two digits for
//! IPv4 and up to 128 in one to three digits for IPv6.

use crate::text::{
    all_digits, bounded_decimal, bounded_hex, chars_of, fields, first_index_of, is_digit,
    lemma_first_index_of, parse_decimal, parse_hex, pieces_view, slice_of, split,
};
use vstd::prelude::*;

verus! {

/// An IP address of either family.
#[derive(Clone, Copy, Debug, PartialEq, Eq, Hash, Structural)]
pub enum IpAddress {
    /// An IPv4 address, first octet in the most significant byte.
    V4(u32),
    /// An IPv6 address as its upper and its lower 64 bits, first group in
    /// the most significant bits of the upper half.
    V6(u64, u64),
}

/// An IP address and a port.
#[derive(Clone, Copy, Debug, PartialEq, Eq, Hash, Structural)]
pub struct SocketAddress {
    pub ip: IpAddress,
    pub port: u16,
}

/// A set of addresses of one family, given by a prefix.
#[derive(Clone, Copy, Debug, PartialEq, Eq, Hash, Structural)]
pub struct NetPattern {
    /// An address inside the network; only its leading `prefix_len` bits count.
    pub network: IpAddress,
    /// How many leading bits an address must share with `network`.
    pub prefix_len: u8,
}

/// The octet that `s` stands for.
pub open spec fn octet_of(s: Seq<char>) -> Option<u8> {
    if s.len() > 1 && s[0] == '0' {
        None
    } else {
        match bounded_decimal(s, 3, 255) {
            Some(v) => Some(v as u8),
            None => None,
        }
    }
}

/// The address with octets `a.b.c.d`.
pub open spec fn ipv4_from_octets(a: u8, b: u8, c: u8, d: u8) -> u32 {
    (((a as int * 256 + b as int) * 256 + c as int) * 256 + d as int) as u32
}

/// The address that the dotted text `s` stands for.
pub open spec fn ipv4_of(s: Seq<char>) -> Option<u32> {
    let f = fields(s, '.');
    if f.len() == 4 {
        match (octet_of(f[0]), octet_of(f[1]), octet_of(f[2]), octet_of(f[3])) {
            (Some(a), Some(b), Some(c), Some(d)) => Some(ipv4_from_octets(a, b, c, d)),
            _ => None,
        }
    } else {
        None
    }
}

/// The group of sixteen bits that `s` stands for.
pub open spec fn group_of(s: Seq<char>) -> Option<u16> {
    match bounded_hex(s, 4, 65535) {
        Some(v) => Some(v as u16),
        None => None,
    }
}

/// Whether every piece stands for a group.
pub open spec fn all_groups(pieces: Seq<Seq<char>>) -> bool {
    forall|i: int| 0 <= i < pieces.len() ==> group_of(#[trigger] pieces[i]) is Some
}

/// The groups that the pieces stand for.
pub open spec fn groups_of(pieces: Seq<Seq<char>>) -> Seq<u16> {
    pieces.map_values(|p: Seq<char>| group_of(p).unwrap())
}

/// The position of the first empty piece, or the number of pieces if none
/// is empty.
pub open spec fn first_empty(pieces: Seq<Seq<char>>) -> int
    decreases pieces.len(),
{
    if pieces.len() == 0 {
        0
    } else if pieces[0].len() == 0 {
        0
    } else {
        1 + first_empty(pieces.drop_first())
    }
}

/// So many groups that are zero.
pub open spec fn zero_groups(n: int) -> Seq<u16> {
    Seq::new(n as nat, |i: int| 0u16)
}

/// The eight groups of the IPv6 address that `s` stands for.
///
/// The text is cut at its colons. A `::` at either end shows as two empty
/// pieces there, of which the outer one is set aside. Among the pieces left
/// an empty one marks where groups were left out: the groups before it
/// lead, those after it trail, and zeros fill the gap between them, which is
/// one group wide at the least. Without such a mark there are eight pieces.
pub open spec fn ipv6_groups_of(s: Seq<char>) -> Option<Seq<u16>> {
    let f = fields(s, ':');
    let n = f.len() as int;
    let leading = f[0].len() == 0;
    let trailing = f[n - 1].len() == 0;
    if n < 2 || (leading && f[1].len() != 0) || (trailing && f[n - 2].len() != 0) {
        None
    } else {
        let p = f.subrange(
            if leading {
                1
            } else {
                0
            },
            if trailing {
                n - 1
            } else {
                n
            },
        );
        let gap = first_empty(p);
        if gap >= p.len() {
            if p.len() == 8 && all_groups(p) {
                Some(groups_of(p))
            } else {
                None
            }
        } else {
            let head = p.take(gap);
            let tail = p.skip(gap + 1);
            if head.len() + tail.len() <= 7 && all_groups(head) && all_groups(tail) {
                Some(
                    groups_of(head) + zero_groups(8 - head.len() - tail.len()) + groups_of(tail),
                )
            } else {
                None
            }
        }
    }
}

/// Four groups as 64 bits, the first group in the most significant bits.
pub open spec fn pack_groups(a: u16, b: u16, c: u16, d: u16) -> u64 {
    (((a as int * 65536 + b as int) * 65536 + c as int) * 65536 + d as int) as u64
}

/// The upper and lower half of the IPv6 address that `s` stands for.
pub open spec fn ipv6_of(s: Seq<char>) -> Option<(u64, u64)> {
    match ipv6_groups_of(s) {
        Some(g) => Some((pack_groups(g[0], g[1], g[2], g[3]), pack_groups(g[4], g[5], g[6], g[7]))),
        None => None,
    }
}

/// The address of either family that `s` stands for.
pub open spec fn ip_of(s: Seq<char>) -> Option<IpAddress> {
    match ipv4_of(s) {
        Some(a) => Some(IpAddress::V4(a)),
        None => match ipv6_of(s) {
            Some((hi, lo)) => Some(IpAddress::V6(hi, lo)),
            None => None,
        },
    }
}

/// The port that `s` stands for.
pub open spec fn port_of(s: Seq<char>) -> Option<u16> {
    match bounded_decimal(s, 5, 65535) {
        Some(v) => Some(v as u16),
        None => None,
    }
}

/// The endpoint that the text `s` stands for.
pub open spec fn socket_address_of(s: Seq<char>) -> Option<SocketAddress> {
    if s.len() > 0 && s[0] == '[' {
        let close = first_index_of(s, ']');
        if close + 1 < s.len() && s[close + 1] == ':' {
            match (ipv6_of(s.subrange(1, close)), port_of(s.skip(close + 2))) {
                (Some((hi, lo)), Some(port)) => Some(
                    SocketAddress { ip: IpAddress::V6(hi, lo), port },
                ),
                _ => None,
            }
        } else {
            None
        }
    } else {
        let f = fields(s, ':');
        if f.len() == 2 {
            match (ipv4_of(f[0]), port_of(f[1])) {
                (Some(ip), Some(port)) => Some(SocketAddress { ip: IpAddress::V4(ip), port }),
                _ => None,
            }
        } else {
            None
        }
    }
}

/// Whether `c` may stand in a label of a host name.
pub open spec fn is_label_char(c: char) -> bool {
    ('a' <= c && c <= 'z') || ('A' <= c && c <= 'Z') || ('0' <= c && c <= '9') || c == '-'
}

/// Whether `s` is a label of a host name.
pub open spec fn is_label(s: Seq<char>) -> bool {
    &&& 1 <= s.len() <= 63
    &&& forall|i: int| 0 <= i < s.len() ==> is_label_char(#[trigger] s[i])
    &&& s[0] != '-'
    &&& s[s.len() - 1] != '-'
}

/// Whether every piece is a label.
pub open spec fn all_labels(pieces: Seq<Seq<char>>) -> bool {
    forall|i: int| 0 <= i < pieces.len() ==> is_label(#[trigger] pieces[i])
}

/// Whether `s` is a host name.
pub open spec fn is_host_name(s: Seq<char>) -> bool {
    &&& s.len() <= 253
    &&& all_labels(fields(s, '.'))
    &&& !all_digits(fields(s, '.').last())
}

/// Whether the text `s` is a host name, a colon and a port.
pub open spec fn is_named_endpoint(s: Seq<char>) -> bool {
    let f = fields(s, ':');
    f.len() == 2 && is_host_name(f[0]) && port_of(f[1]) is Some
}

/// Whether the text `s` is an endpoint: a socket address, or a host name
/// with a port.
pub open spec fn is_endpoint(s: Seq<char>) -> bool {
    socket_address_of(s) is Some || is_named_endpoint(s)
}

impl IpAddress {
    /// How many bits an address of this family has.
    pub open spec fn bits(self) -> int {
        match self {
            IpAddress::V4(_) => 32,
            IpAddress::V6(_, _) => 128,
        }
    }

    /// How many digits the prefix length of a pattern of this family may
    /// have.
    pub open spec fn prefix_digits(self) -> int {
        match self {
            IpAddress::V4(_) => 2,
            IpAddress::V6(_, _) => 3,
        }
    }
}

/// The network pattern that the text `s` stands for.
pub open spec fn net_pattern_of(s: Seq<char>) -> Option<NetPattern> {
    let f = fields(s, '/');
    if f.len() > 2 {
        None
    } else {
        match ip_of(f[0]) {
            None => None,
            Some(network) => if f.len() == 1 {
                Some(NetPattern { network, prefix_len: network.bits() as u8 })
            } else {
                match bounded_decimal(f[1], network.prefix_digits(), network.bits()) {
                    Some(n) => Some(NetPattern { network, prefix_len: n as u8 }),
                    None => None,
                }
            },
        }
    }
}

/// Whether `a` and `b` share their leading `n` bits; all their 32 bits for
/// a greater `n`.
pub open spec fn same_prefix_32(a: u32, b: u32, n: int) -> bool {
    if n <= 0 {
        true
    } else if n >= 32 {
        a == b
    } else {
        a >> ((32 - n) as u32) == b >> ((32 - n) as u32)
    }
}

/// Whether `a` and `b` share their leading `n` bits; all their 64 bits for
/// a greater `n`.
pub open spec fn same_prefix_64(a: u64, b: u64, n: int) -> bool {
    if n <= 0 {
        true
    } else if n >= 64 {
        a == b
    } else {
        a >> ((64 - n) as u64) == b >> ((64 - n) as u64)
    }
}

/// The first empty piece is where the scan from the left meets it.
pub proof fn lemma_first_empty(pieces: Seq<Seq<char>>, k: int)
    requires
        0 <= k <= pieces.len(),
        forall|i: int| 0 <= i < k ==> (#[trigger] pieces[i]).len() != 0,
        k < pieces.len() ==> pieces[k].len() == 0,
    ensures
        first_empty(pieces) == k,
    decreases pieces.len(),
{
    if pieces.len() > 0 && k > 0 {
        let rest = pieces.drop_first();
        assert(pieces[0].len() != 0);
        assert forall|i: int| 0 <= i < k - 1 implies (#[trigger] rest[i]).len() != 0 by {
            assert(rest[i] == pieces[i + 1]);
        }
        lemma_first_empty(rest, k - 1);
    }
}

fn parse_octet(s: &Vec<char>) -> (r: Option<u8>)
    ensures
        r == octet_of(s@),
{
    if s.len() > 1 && s[0] == '0' {
        return None;
    }
    match parse_decimal(s, 3, 255) {
        Some(v) => Some(v as u8),
        None => None,
    }
}

fn parse_ipv4_chars(s: &Vec<char>) -> (r: Option<u32>)
    ensures
        r == ipv4_of(s@),
{
    let parts = split(s, '.');
    if parts.len() != 4 {
        return None;
    }
    assert(forall|i: int| 0 <= i < 4 ==> parts@[i]@ == #[trigger] pieces_view(parts@)[i]);
    let a = parse_octet(&parts[0]);
    let b = parse_octet(&parts[1]);
    let c = parse_octet(&parts[2]);
    let d = parse_octet(&parts[3]);
    match (a, b, c, d) {
        (Some(a), Some(b), Some(c), Some(d)) => {
            let ab: u32 = (a as u32) * 256 + (b as u32);
            let abc: u32 = ab * 256 + (c as u32);
            Some(abc * 256 + (d as u32))
        },
        _ => None,
    }
}

fn pack(a: u16, b: u16, c: u16, d: u16) -> (r: u64)
    ensures
        r == pack_groups(a, b, c, d),
{
    let ab: u64 = (a as u64) * 65536 + (b as u64);
    let abc: u64 = ab * 65536 + (c as u64);
    abc * 65536 + (d as u64)
}

/// Reads the groups of the pieces from position `from` up to position `to`,
/// with at most one empty piece among them. The result is the groups
/// before the empty piece, or all of them if there is none, and those after
/// it.
fn parse_groups(pieces: &Vec<Vec<char>>, from: usize, to: usize) -> (r: Option<
    (Vec<u16>, Option<Vec<u16>>),
>)
    requires
        from <= to <= pieces.len(),
    ensures
        ({
            let p = pieces_view(pieces@).subrange(from as int, to as int);
            let gap = first_empty(p);
            match r {
                Some((head, None)) => gap == p.len() && all_groups(p) && head@ == groups_of(p),
                Some((head, Some(tail))) => gap < p.len() && all_groups(p.take(gap))
                    && all_groups(p.skip(gap + 1)) && head@ == groups_of(p.take(gap)) && tail@
                    == groups_of(p.skip(gap + 1)),
                None => if gap >= p.len() {
                    !all_groups(p)
                } else {
                    !all_groups(p.take(gap)) || !all_groups(p.skip(gap + 1))
                },
            }
        }),
{
    let ghost p = pieces_view(pieces@).subrange(from as int, to as int);
    let mut head: Vec<u16> = Vec::new();
    let mut i: usize = from;
    while i < to && pieces[i].len() != 0
        invariant
            from <= i <= to,
            to <= pieces.len(),
            p == pieces_view(pieces@).subrange(from as int, to as int),
            forall|j: int| 0 <= j < i - from ==> (#[trigger] p[j]).len() != 0,
            all_groups(p.take(i - from)),
            head@ == groups_of(p.take(i - from)),
        decreases to - i,
    {
        assert(p[i - from] == pieces@[i as int]@);
        match parse_hex(&pieces[i], 4, 65535) {
            Some(v) => {
                proof {
                    let before = p.take(i - from);
                    let after = p.take(i - from + 1);
                    assert(after =~= before.push(p[i - from]));
                    assert(all_groups(after)) by {
                        assert forall|j: int| 0 <= j < after.len() implies group_of(
                            #[trigger] after[j],
                        ) is Some by {
                            if j < before.len() {
                                assert(after[j] == before[j]);
                            }
                        }
                    }
                    assert(groups_of(after) =~= groups_of(before).push(v as u16));
                }
                head.push(v as u16);
            },
            None => {
                proof {
                    let k = i - from;
                    assert(group_of(p[k]) is None);
                    if first_empty(p) >= p.len() {
                        assert(!all_groups(p));
                    } else {
                        let gap = first_empty(p);
                        lemma_first_empty_is_empty(p);
                        assert(k < gap) by {
                            if gap <= k {
                                assert(p[gap].len() == 0);
                            }
                        }
                        assert(p.take(gap)[k] == p[k]);
                        assert(!all_groups(p.take(gap)));
                    }
                }
                return None;
            },
        }
        i = i + 1;
    }
    proof {
        lemma_first_empty(p, i - from);
    }
    if i == to {
        assert(p.take(i - from) =~= p);
        return Some((head, None));
    }
    let ghost gap = i - from;
    let mut tail: Vec<u16> = Vec::new();
    let mut j: usize = i + 1;
    assert(p.skip(gap + 1).take(0) =~= Seq::<Seq<char>>::empty());
    while j < to
        invariant
            from <= i < j <= to,
            to <= pieces.len(),
            gap == i - from,
            p == pieces_view(pieces@).subrange(from as int, to as int),
            first_empty(p) == gap,
            all_groups(p.take(gap)),
            head@ == groups_of(p.take(gap)),
            all_groups(p.skip(gap + 1).take(j - i - 1)),
            tail@ == groups_of(p.skip(gap + 1).take(j - i - 1)),
        decreases to - j,
    {
        let ghost rest = p.skip(gap + 1);
        let ghost k = j - i - 1;
        assert(rest[k] == pieces@[j as int]@);
        match parse_hex(&pieces[j], 4, 65535) {
            Some(v) => {
                proof {
                    let before = rest.take(k);
                    let after = rest.take(k + 1);
                    assert(after =~= before.push(rest[k]));
                    assert(all_groups(after)) by {
                        assert forall|m: int| 0 <= m < after.len() implies group_of(
                            #[trigger] after[m],
                        ) is Some by {
                            if m < before.len() {
                                assert(after[m] == before[m]);
                            }
                        }
                    }
                    assert(groups_of(after) =~= groups_of(before).push(v as u16));
                }
                tail.push(v as u16);
            },
            None => {
                assert(group_of(rest[k]) is None);
                assert(!all_groups(rest));
                return None;
            },
        }
        j = j + 1;
    }
    assert(p.skip(gap + 1).take(j - i - 1) =~= p.skip(gap + 1));
    Some((head, Some(tail)))
}

/// Where there is an empty piece, the first of them is one.
pub proof fn lemma_first_empty_is_empty(pieces: Seq<Seq<char>>)
    ensures
        0 <= first_empty(pieces) <= pieces.len(),
        first_empty(pieces) < pieces.len() ==> pieces[first_empty(pieces)].len() == 0,
    decreases pieces.len(),
{
    if pieces.len() > 0 && pieces[0].len() != 0 {
        lemma_first_empty_is_empty(pieces.drop_first());
    }
}

fn parse_ipv6_chars(s: &Vec<char>) -> (r: Option<(u64, u64)>)
    ensures
        r == ipv6_of(s@),
{
    let f = split(s, ':');
    let n: usize = f.len();
    if n < 2 {
        return None;
    }
    assert(forall|i: int| 0 <= i < n ==> f@[i]@ == #[trigger] pieces_view(f@)[i]);
    let leading = f[0].len() == 0;
    let trailing = f[n - 1].len() == 0;
    if (leading && f[1].len() != 0) || (trailing && f[n - 2].len() != 0) {
        return None;
    }
    let from: usize = if leading {
        1
    } else {
        0
    };
    let to: usize = if trailing {
        n - 1
    } else {
        n
    };
    let ghost p = pieces_view(f@).subrange(from as int, to as int);
    let groups: Vec<u16> = match parse_groups(&f, from, to) {
        None => return None,
        Some((head, None)) => {
            if head.len() != 8 {
                return None;
            }
            head
        },
        Some((head, Some(tail))) => {
            if head.len() > 7 || tail.len() > 7 - head.len() {
                return None;
            }
            let mut all: Vec<u16> = head;
            let ghost h = all@;
            let fill: usize = 8 - all.len() - tail.len();
            let mut i: usize = 0;
            while i < fill
                invariant
                    0 <= i <= fill,
                    all@ == h + zero_groups(i as int),
                decreases fill - i,
            {
                all.push(0);
                assert(all@ =~= h + zero_groups(i + 1));
                i = i + 1;
            }
            let mut j: usize = 0;
            while j < tail.len()
                invariant
                    0 <= j <= tail.len(),
                    all@ == h + zero_groups(fill as int) + tail@.take(j as int),
                decreases tail.len() - j,
            {
                all.push(tail[j]);
                assert(all@ =~= h + zero_groups(fill as int) + tail@.take(j + 1));
                j = j + 1;
            }
            assert(tail@.take(tail.len() as int) =~= tail@);
            all
        },
    };
    assert(ipv6_groups_of(s@) == Some(groups@));
    assert(groups@.len() == 8);
    Some(
        (
            pack(groups[0], groups[1], groups[2], groups[3]),
            pack(groups[4], groups[5], groups[6], groups[7]),
        ),
    )
}

fn parse_ip_chars(s: &Vec<char>) -> (r: Option<IpAddress>)
    ensures
        r == ip_of(s@),
{
    match parse_ipv4_chars(s) {
        Some(a) => Some(IpAddress::V4(a)),
        None => match parse_ipv6_chars(s) {
            Some((hi, lo)) => Some(IpAddress::V6(hi, lo)),
            None => None,
        },
    }
}

fn is_label_chars(s: &Vec<char>) -> (b: bool)
    ensures
        b == is_label(s@),
{
    let n: usize = s.len();
    if n == 0 || n > 63 || s[0] == '-' || s[n - 1] == '-' {
        return false;
    }
    let mut i: usize = 0;
    while i < n
        invariant
            n == s.len(),
            0 <= i <= n,
            forall|j: int| 0 <= j < i ==> is_label_char(#[trigger] s@[j]),
        decreases n - i,
    {
        let c: char = s[i];
        if !((c >= 'a' && c <= 'z') || (c >= 'A' && c <= 'Z') || (c >= '0' && c <= '9') || c
            == '-') {
            assert(!is_label_char(s@[i as int]));
            return false;
        }
        i = i + 1;
    }
    true
}

fn is_all_digits(s: &Vec<char>) -> (b: bool)
    ensures
        b == all_digits(s@),
{
    let n: usize = s.len();
    let mut i: usize = 0;
    while i < n
        invariant
            n == s.len(),
            0 <= i <= n,
            forall|j: int| 0 <= j < i ==> is_digit(#[trigger] s@[j]),
        decreases n - i,
    {
        let c: char = s[i];
        if !(c >= '0' && c <= '9') {
            assert(!is_digit(s@[i as int]));
            return false;
        }
        i = i + 1;
    }
    true
}

fn is_host_name_chars(s: &Vec<char>) -> (b: bool)
    ensures
        b == is_host_name(s@),
{
    if s.len() > 253 {
        return false;
    }
    let labels = split(s, '.');
    let n: usize = labels.len();
    let mut i: usize = 0;
    while i < n
        invariant
            n == labels.len(),
            0 <= i <= n,
            pieces_view(labels@) == fields(s@, '.'),
            forall|j: int| 0 <= j < i ==> is_label(#[trigger] fields(s@, '.')[j]),
        decreases n - i,
    {
        assert(labels@[i as int]@ == pieces_view(labels@)[i as int]);
        if !is_label_chars(&labels[i]) {
            return false;
        }
        i = i + 1;
    }
    if n == 0 {
        return false;
    }
    assert(labels@[n - 1]@ == pieces_view(labels@)[n - 1]);
    !is_all_digits(&labels[n - 1])
}

/// Tests whether a text is an endpoint: a socket address, or a host name
/// with a port.
pub fn is_endpoint_text(s: &str) -> (b: bool)
    ensures
        b == is_endpoint(s@),
{
    if SocketAddress::parse(s).is_some() {
        return true;
    }
    let chars = chars_of(s);
    let parts = split(&chars, ':');
    if parts.len() != 2 {
        return false;
    }
    assert(forall|i: int| 0 <= i < 2 ==> parts@[i]@ == #[trigger] pieces_view(parts@)[i]);
    is_host_name_chars(&parts[0]) && parse_decimal(&parts[1], 5, 65535).is_some()
}

/// Reads a dotted IPv4 address.
pub fn parse_ipv4(s: &str) -> (r: Option<u32>)
    ensures
        r == ipv4_of(s@),
{
    let chars = chars_of(s);
    parse_ipv4_chars(&chars)
}

/// Reads an IPv6 address as its upper and lower 64 bits.
pub fn parse_ipv6(s: &str) -> (r: Option<(u64, u64)>)
    ensures
        r == ipv6_of(s@),
{
    let chars = chars_of(s);
    parse_ipv6_chars(&chars)
}

impl SocketAddress {
    /// Reads an endpoint from its text form `a.b.c.d:port` or `[ipv6]:port`.
    pub fn parse(s: &str) -> (r: Option<SocketAddress>)
        ensures
            r == socket_address_of(s@),
    {
        let chars = chars_of(s);
        let n: usize = chars.len();
        if n > 0 && chars[0] == '[' {
            let mut close: usize = 0;
            while close < n && chars[close] != ']'
                invariant
                    n == chars.len(),
                    0 <= close <= n,
                    forall|i: int| 0 <= i < close ==> chars@[i] != ']',
                decreases n - close,
            {
                close = close + 1;
            }
            proof {
                lemma_first_index_of(chars@, ']', close as int);
            }
            if close >= n - 1 || chars[close + 1] != ':' {
                return None;
            }
            let host = slice_of(&chars, 1, close);
            let port_text = slice_of(&chars, close + 2, n);
            assert(chars@.subrange(close + 2, n as int) =~= chars@.skip(close + 2));
            let ip = parse_ipv6_chars(&host);
            let port = parse_decimal(&port_text, 5, 65535);
            match (ip, port) {
                (Some((hi, lo)), Some(port)) => Some(
                    SocketAddress { ip: IpAddress::V6(hi, lo), port: port as u16 },
                ),
                _ => None,
            }
        } else {
            let parts = split(&chars, ':');
            if parts.len() != 2 {
                return None;
            }
            assert(forall|i: int| 0 <= i < 2 ==> parts@[i]@ == #[trigger] pieces_view(parts@)[i]);
            let ip = parse_ipv4_chars(&parts[0]);
            let port = parse_decimal(&parts[1], 5, 65535);
            match (ip, port) {
                (Some(ip), Some(port)) => Some(
                    SocketAddress { ip: IpAddress::V4(ip), port: port as u16 },
                ),
                _ => None,
            }
        }
    }
}

impl NetPattern {
    /// Whether `ip` lies in the network: never if it is of the other
    /// family, and else if it shares the leading `prefix_len` bits with
    /// `network`. A prefix of length 0 holds all addresses of the family,
    /// one as long as the address or longer holds the one address.
    pub open spec fn contains(self, ip: IpAddress) -> bool {
        match (self.network, ip) {
            (IpAddress::V4(n), IpAddress::V4(a)) => same_prefix_32(a, n, self.prefix_len as int),
            (IpAddress::V6(nh, nl), IpAddress::V6(ah, al)) => if self.prefix_len <= 64 {
                same_prefix_64(ah, nh, self.prefix_len as int)
            } else {
                ah == nh && same_prefix_64(al, nl, self.prefix_len - 64)
            },
            _ => false,
        }
    }

    /// Reads a pattern from its text form: an address, or an address, `/`
    /// and a prefix length.
    pub fn parse(s: &str) -> (r: Option<NetPattern>)
        ensures
            r == net_pattern_of(s@),
    {
        let chars = chars_of(s);
        let parts = split(&chars, '/');
        if parts.len() > 2 {
            return None;
        }
        assert(parts@[0]@ == pieces_view(parts@)[0]);
        let network = match parse_ip_chars(&parts[0]) {
            Some(network) => network,
            None => return None,
        };
        let (digits, bits): (usize, u32) = match network {
            IpAddress::V4(_) => (2, 32),
            IpAddress::V6(_, _) => (3, 128),
        };
        if parts.len() == 1 {
            Some(NetPattern { network, prefix_len: bits as u8 })
        } else {
            assert(parts@[1]@ == pieces_view(parts@)[1]);
            match parse_decimal(&parts[1], digits, bits) {
                Some(n) => Some(NetPattern { network, prefix_len: n as u8 }),
                None => None,
            }
        }
    }

    /// Tests whether `ip` lies in the network.
    pub fn matches(&self, ip: IpAddress) -> (b: bool)
        ensures
            b == self.contains(ip),
    {
        match (self.network, ip) {
            (IpAddress::V4(n), IpAddress::V4(a)) => {
                if self.prefix_len == 0 {
                    true
                } else if self.prefix_len >= 32 {
                    a == n
                } else {
                    let shift: u32 = 32 - (self.prefix_len as u32);
                    (a >> shift) == (n >> shift)
                }
            },
            (IpAddress::V6(nh, nl), IpAddress::V6(ah, al)) => {
                if self.prefix_len == 0 {
                    true
                } else if self.prefix_len < 64 {
                    let shift: u64 = 64 - (self.prefix_len as u64);
                    (ah >> shift) == (nh >> shift)
                } else if self.prefix_len == 64 {
                    ah == nh
                } else if self.prefix_len >= 128 {
                    ah == nh && al == nl
                } else {
                    let shift: u64 = 128 - (self.prefix_len as u64);
                    ah == nh && (al >> shift) == (nl >> shift)
                }
            },
            _ => false,
        }
    }
}

} // verus!

//! IP addresses in text.

use vstd::prelude::*;
use crate::text;
use crate::text::{
    add_text, ascii_digit, decimal_of, digit, digits, digits_value, free_of, hex_digit, joined,
    lemma_decimal_digits, lemma_one_piece, lemma_pieces_joined, lemma_pieces_make_the_text,
    lemma_pieces_push, pieces, texts,
};

verus! {

/// An IP address: four octets, or eight groups of 16 bits.
#[derive(Debug, Clone, Copy)]
pub enum IpAddress {
    V4([u8; 4]),
    V6([u16; 8]),
}

/// What an IP address is.
#[verifier::ext_equal]
pub enum IpView {
    V4(Seq<u8>),
    V6(Seq<u16>),
}

impl View for IpAddress {
    type V = IpView;

    open spec fn view(&self) -> IpView {
        match self {
            IpAddress::V4(octets) => IpView::V4(octets@),
            IpAddress::V6(groups) => IpView::V6(groups@),
        }
    }
}

/// The octet that `s` stands for: up to three digits, without a zero in front.
pub open spec fn octet_of(s: Seq<char>) -> Option<u8> {
    if digits(s) && s.len() <= 3 && (s.len() == 1 || s[0] != '0') && digits_value(s) <= 255 {
        Some(digits_value(s) as u8)
    } else {
        None
    }
}

fn parse_octet(s: &str) -> (octet: Option<u8>)
    ensures
        octet == octet_of(s@),
{
    let chars = text::chars_of(s);
    if chars.len() == 0 || chars.len() > 3 {
        return None;
    }
    if chars[0] == '+' {
        assert(!text::ascii_digit(s@[0]));
        return None;
    }
    if chars.len() > 1 && chars[0] == '0' {
        return None;
    }
    match text::parse_u16(s) {
        Some(value) if value <= 255 => Some(value as u8),
        _ => None,
    }
}

/// The IPv4 address that `s` stands for: four octets with full stops between them.
pub open spec fn ipv4_of(s: Seq<char>) -> Option<Seq<u8>> {
    let parts = pieces(s, '.');
    if parts.len() == 4 && octet_of(parts[0]) is Some && octet_of(parts[1]) is Some && octet_of(
        parts[2],
    ) is Some && octet_of(parts[3]) is Some {
        Some(
            seq![
                octet_of(parts[0])->Some_0,
                octet_of(parts[1])->Some_0,
                octet_of(parts[2])->Some_0,
                octet_of(parts[3])->Some_0,
            ],
        )
    } else {
        None
    }
}

fn parse_ipv4(s: &str) -> (address: Option<[u8; 4]>)
    ensures
        match ipv4_of(s@) {
            Some(octets) => address matches Some(a) && a@ == octets,
            None => address is None,
        },
{
    let parts = text::split(s, '.');
    assert(texts(parts@).len() == parts@.len());
    if parts.len() != 4 {
        return None;
    }
    assert(forall|i: int| 0 <= i < 4 ==> texts(parts@)[i] == #[trigger] parts@[i]@);
    match (
        parse_octet(parts[0].as_str()),
        parse_octet(parts[1].as_str()),
        parse_octet(parts[2].as_str()),
        parse_octet(parts[3].as_str()),
    ) {
        (Some(a), Some(b), Some(c), Some(d)) => {
            let octets: [u8; 4] = [a, b, c, d];
            assert(octets@ =~= seq![a, b, c, d]);
            Some(octets)
        },
        _ => None,
    }
}

/// The value of a hexadecimal digit.
pub open spec fn hex_digit_value(c: char) -> nat {
    let code = c as u32;
    if code <= 0x39 {
        (code - 0x30) as nat
    } else if code <= 0x46 {
        (code - 0x41 + 10) as nat
    } else {
        (code - 0x61 + 10) as nat
    }
}

/// The number that a run of hexadecimal digits stands for.
pub open spec fn hex_value(s: Seq<char>) -> nat
    decreases s.len(),
{
    if s.len() == 0 {
        0
    } else {
        hex_value(s.drop_last()) * 16 + hex_digit_value(s.last())
    }
}

/// The group that `s` stands for: one to four hexadecimal digits.
pub open spec fn group_of(s: Seq<char>) -> Option<u16> {
    if 0 < s.len() <= 4 && forall|i: int| 0 <= i < s.len() ==> hex_digit(#[trigger] s[i]) {
        Some(hex_value(s) as u16)
    } else {
        None
    }
}

fn parse_group(s: &str) -> (group: Option<u16>)
    ensures
        group == group_of(s@),
{
    let chars = text::chars_of(s);
    let n: usize = chars.len();
    if n == 0 || n > 4 {
        return None;
    }
    let mut value: u32 = 0;
    let mut i: usize = 0;
    assert(s@.take(0) =~= Seq::empty());
    while i < n
        invariant
            i <= n <= 4,
            chars@ == s@,
            n == s@.len(),
            forall|j: int| 0 <= j < i ==> hex_digit(#[trigger] s@[j]),
            value == hex_value(s@.take(i as int)),
            i == 0 ==> value == 0,
            i <= 1 ==> value < 0x10,
            i <= 2 ==> value < 0x100,
            i <= 3 ==> value < 0x1000,
            value < 0x10000,
        decreases n - i,
    {
        let code: u32 = chars[i] as u32;
        let digit: u32 = if 0x30 <= code && code <= 0x39 {
            code - 0x30
        } else if 0x41 <= code && code <= 0x46 {
            code - 0x41 + 10
        } else if 0x61 <= code && code <= 0x66 {
            code - 0x61 + 10
        } else {
            assert(!hex_digit(s@[i as int]));
            return None;
        };
        assert(s@.take(i as int + 1).drop_last() =~= s@.take(i as int));
        value = value * 16 + digit;
        i = i + 1;
    }
    assert(s@.take(n as int) =~= s@);
    Some(value as u16)
}

/// The two groups that the octets of an IPv4 address make.
pub open spec fn groups_of_octets(octets: Seq<u8>) -> Seq<u16> {
    seq![
        (octets[0] as int * 256 + octets[1] as int) as u16,
        (octets[2] as int * 256 + octets[3] as int) as u16,
    ]
}

/// The groups that `parts` stand for. The last of them may be an IPv4 address where `tail` says
/// so.
pub open spec fn part_groups(parts: Seq<Seq<char>>, tail: bool) -> Option<Seq<u16>>
    decreases parts.len(),
{
    if parts.len() == 0 {
        Some(Seq::empty())
    } else {
        match part_groups(parts.drop_last(), false) {
            None => None,
            Some(before) => match group_of(parts.last()) {
                Some(group) => Some(before.push(group)),
                None => match ipv4_of(parts.last()) {
                    Some(octets) if tail => Some(before + groups_of_octets(octets)),
                    _ => None,
                },
            },
        }
    }
}

/// The groups that `s` stands for, with colons between them.
pub open spec fn colon_groups(s: Seq<char>, tail: bool) -> Option<Seq<u16>> {
    if s.len() == 0 {
        Some(Seq::empty())
    } else {
        part_groups(pieces(s, ':'), tail)
    }
}

proof fn lemma_part_groups_fail(parts: Seq<Seq<char>>, n: int, tail: bool)
    requires
        0 < n <= parts.len(),
        part_groups(parts.take(n), if n == parts.len() {
            tail
        } else {
            false
        }) is None,
    ensures
        part_groups(parts, tail) is None,
    decreases parts.len(),
{
    if n < parts.len() {
        assert(parts.drop_last().take(n) =~= parts.take(n));
        if n == parts.len() - 1 {
            assert(parts.drop_last() =~= parts.take(n));
        } else {
            lemma_part_groups_fail(parts.drop_last(), n, false);
        }
    } else {
        assert(parts.take(n) =~= parts);
    }
}

fn parse_colon_groups(s: &str, tail: bool) -> (groups: Option<Vec<u16>>)
    ensures
        match colon_groups(s@, tail) {
            Some(view) => groups matches Some(v) && v@ == view,
            None => groups is None,
        },
{
    let mut groups: Vec<u16> = Vec::new();
    if s.is_empty() {
        assert(groups@ =~= Seq::empty());
        return Some(groups);
    }
    let parts = text::split(s, ':');
    let ghost all = pieces(s@, ':');
    let n: usize = parts.len();
    let mut i: usize = 0;
    proof {
        assert(all.len() == parts@.len());
        assert(all.take(0) =~= Seq::empty());
        assert(groups@ =~= Seq::empty());
    }
    while i < n
        invariant
            i <= n,
            n == parts@.len(),
            s@.len() > 0,
            all == pieces(s@, ':'),
            all == texts(parts@),
            i < n ==> part_groups(all.take(i as int), false) == Some(groups@),
            i == n ==> part_groups(all, tail) == Some(groups@),
        decreases n - i,
    {
        let last: bool = i + 1 == n;
        let ghost now = all.take(i as int + 1);
        let ghost before = groups@;
        proof {
            assert(now.drop_last() =~= all.take(i as int));
            assert(now.last() == parts@[i as int]@);
            if last {
                assert(now =~= all);
            }
        }
        match parse_group(parts[i].as_str()) {
            Some(group) => {
                groups.push(group);
            },
            None => {
                if !last || !tail {
                    proof {
                        lemma_part_groups_fail(all, i as int + 1, tail);
                    }
                    return None;
                }
                match parse_ipv4(parts[i].as_str()) {
                    Some(octets) => {
                        groups.push(octets[0] as u16 * 256 + octets[1] as u16);
                        groups.push(octets[2] as u16 * 256 + octets[3] as u16);
                        assert(groups@ =~= before + groups_of_octets(octets@));
                    },
                    None => {
                        proof {
                            lemma_part_groups_fail(all, i as int + 1, tail);
                        }
                        return None;
                    },
                }
            },
        }
        i = i + 1;
    }
    Some(groups)
}

/// The place of the first two colons side by side in `s`, or the length of `s` where there are
/// none.
pub open spec fn gap_at(s: Seq<char>) -> int
    decreases s.len(),
{
    if s.len() == 0 {
        0
    } else if s.len() > 1 && s[0] == ':' && s[1] == ':' {
        0
    } else {
        1 + gap_at(s.drop_first())
    }
}

proof fn lemma_gap_at(s: Seq<char>, n: int)
    requires
        0 <= n <= s.len(),
        forall|i: int| 0 <= i < n && i + 1 < s.len() ==> !(#[trigger] s[i] == ':' && s[i + 1] == ':'),
        n < s.len() ==> n + 1 < s.len() && s[n] == ':' && s[n + 1] == ':',
    ensures
        gap_at(s) == n,
    decreases s.len(),
{
    if n > 0 {
        let rest = s.drop_first();
        assert(!(s[0] == ':' && s.len() > 1 && s[1] == ':'));
        assert forall|i: int| 0 <= i < n - 1 && i + 1 < rest.len() implies !(#[trigger] rest[i]
            == ':' && rest[i + 1] == ':') by {
            assert(rest[i] == s[i + 1] && rest[i + 1] == s[i + 2]);
        }
        if n < s.len() {
            assert(rest[n - 1] == s[n] && rest[n] == s[n + 1]);
        }
        lemma_gap_at(rest, n - 1);
    }
}

fn find_gap(chars: &Vec<char>) -> (at: usize)
    ensures
        at == gap_at(chars@),
        at <= chars@.len(),
        at < chars@.len() ==> at + 1 < chars@.len(),
{
    let n: usize = chars.len();
    let mut i: usize = 0;
    while i < n
        invariant
            i <= n,
            n == chars@.len(),
            forall|j: int|
                0 <= j < i && j + 1 < n ==> !(#[trigger] chars@[j] == ':' && chars@[j + 1] == ':'),
        decreases n - i,
    {
        if i + 1 < n && chars[i] == ':' && chars[i + 1] == ':' {
            proof {
                lemma_gap_at(chars@, i as int);
            }
            return i;
        }
        i = i + 1;
    }
    proof {
        lemma_gap_at(chars@, n as int);
    }
    n
}

/// The IPv6 address that `s` stands for: eight groups, or fewer around one gap of zeros. Its last
/// two groups may be written as an IPv4 address.
pub open spec fn ipv6_of(s: Seq<char>) -> Option<Seq<u16>> {
    let at = gap_at(s);
    if at >= s.len() {
        match part_groups(pieces(s, ':'), true) {
            Some(groups) if groups.len() == 8 => Some(groups),
            _ => None,
        }
    } else {
        match (colon_groups(s.take(at), false), colon_groups(s.skip(at + 2), true)) {
            (Some(head), Some(tail)) if head.len() + tail.len() <= 7 => Some(
                head + Seq::new((8 - head.len() - tail.len()) as nat, |i: int| 0u16) + tail,
            ),
            _ => None,
        }
    }
}

fn eight(groups: &Vec<u16>) -> (address: [u16; 8])
    requires
        groups@.len() == 8,
    ensures
        address@ == groups@,
{
    let address: [u16; 8] = [
        groups[0],
        groups[1],
        groups[2],
        groups[3],
        groups[4],
        groups[5],
        groups[6],
        groups[7],
    ];
    assert(address@ =~= groups@);
    address
}

fn parse_ipv6(s: &str) -> (address: Option<[u16; 8]>)
    ensures
        match ipv6_of(s@) {
            Some(groups) => address matches Some(a) && a@ == groups,
            None => address is None,
        },
{
    let chars = text::chars_of(s);
    let at: usize = find_gap(&chars);
    if at == chars.len() {
        if s.is_empty() {
            proof {
                assert(pieces(s@, ':') =~= seq![s@]);
                assert(pieces(s@, ':').drop_last() =~= Seq::empty());
                lemma_empty_is_no_address(s@);
            }
            return None;
        }
        return match parse_colon_groups(s, true) {
            Some(groups) if groups.len() == 8 => Some(eight(&groups)),
            _ => None,
        };
    }
    let head_text = text::text_of(&chars, 0, at);
    let tail_text = text::text_of(&chars, at + 2, chars.len());
    proof {
        assert(head_text@ =~= s@.take(at as int));
        assert(tail_text@ =~= s@.skip(at + 2));
    }
    let head = match parse_colon_groups(head_text.as_str(), false) {
        Some(groups) => groups,
        None => return None,
    };
    let tail = match parse_colon_groups(tail_text.as_str(), true) {
        Some(groups) => groups,
        None => return None,
    };
    if head.len() > 7 || tail.len() > 7 - head.len() {
        return None;
    }
    let zeros: usize = 8 - head.len() - tail.len();
    let mut groups: Vec<u16> = Vec::new();
    let mut i: usize = 0;
    while i < 8
        invariant
            i <= 8,
            groups@.len() == i,
            head@.len() + zeros + tail@.len() == 8,
            forall|j: int|
                0 <= j < i ==> #[trigger] groups@[j] == (if j < head@.len() {
                    head@[j]
                } else if j < head@.len() + zeros {
                    0u16
                } else {
                    tail@[j - head@.len() - zeros]
                }),
        decreases 8 - i,
    {
        if i < head.len() {
            groups.push(head[i]);
        } else if i < head.len() + zeros {
            groups.push(0);
        } else {
            groups.push(tail[i - head.len() - zeros]);
        }
        i = i + 1;
    }
    assert(groups@ =~= head@ + Seq::new(zeros as nat, |i: int| 0u16) + tail@);
    Some(eight(&groups))
}

proof fn lemma_empty_is_no_address(s: Seq<char>)
    requires
        s.len() == 0,
    ensures
        part_groups(seq![s], true) is None,
{
    assert(group_of(s) is None);
    assert(pieces(s, '.') =~= seq![s]);
    assert(seq![s].last() == s);
}

/// The address that `s` stands for.
pub open spec fn ip_of(s: Seq<char>) -> Option<IpView> {
    match ipv4_of(s) {
        Some(octets) => Some(IpView::V4(octets)),
        None => match ipv6_of(s) {
            Some(groups) => Some(IpView::V6(groups)),
            None => None,
        },
    }
}

/// Whether an address is this machine's own: of the network 127.0.0.0/8, or `::1`.
pub open spec fn loopback(address: IpView) -> bool {
    match address {
        IpView::V4(octets) => octets[0] == 127,
        IpView::V6(groups) => groups == seq![0u16, 0u16, 0u16, 0u16, 0u16, 0u16, 0u16, 1u16],
    }
}

/// The octets of an IPv4 address in text.
pub open spec fn ipv4_text(a: u8, b: u8, c: u8, d: u8) -> Seq<char> {
    decimal_of(a as nat) + "."@ + decimal_of(b as nat) + "."@ + decimal_of(c as nat) + "."@
        + decimal_of(d as nat)
}

fn show_ipv4(a: u8, b: u8, c: u8, d: u8) -> (s: String)
    ensures
        s@ == ipv4_text(a, b, c, d),
{
    let mut s = text::decimal(a as u64);
    s.append(".");
    s.append(text::decimal(b as u64).as_str());
    s.append(".");
    s.append(text::decimal(c as u64).as_str());
    s.append(".");
    s.append(text::decimal(d as u64).as_str());
    s
}

/// The small hexadecimal digit for `n`.
pub open spec fn hex_digit_of(n: nat) -> char {
    if n < 10 {
        (0x30 + n) as char
    } else {
        (0x61 + n - 10) as char
    }
}

/// The hexadecimal form of `n`.
pub open spec fn hex_of(n: nat) -> Seq<char>
    decreases n,
{
    if n < 16 {
        seq![hex_digit_of(n)]
    } else {
        hex_of(n / 16).push(hex_digit_of(n % 16))
    }
}

fn show_group(n: u16) -> (s: String)
    ensures
        s@ == hex_of(n as nat),
    decreases n,
{
    let digit: u8 = (n % 16) as u8;
    let c: char = if digit < 10 {
        (0x30u8 + digit) as char
    } else {
        (0x61u8 + (digit - 10)) as char
    };
    if n < 16 {
        text::char_text(c)
    } else {
        let mut s = show_group(n / 16);
        s.push(c);
        s
    }
}

/// The hexadecimal forms of several groups.
pub open spec fn group_texts(groups: Seq<u16>) -> Seq<Seq<char>> {
    groups.map_values(|group: u16| hex_of(group as nat))
}

fn show_groups(groups: &[u16; 8], from: usize, to: usize) -> (s: String)
    requires
        from <= to <= 8,
    ensures
        s@ == joined(group_texts(groups@.subrange(from as int, to as int)), ":"@),
{
    let mut parts: Vec<String> = Vec::new();
    let mut i: usize = from;
    while i < to
        invariant
            from <= i <= to <= 8,
            texts(parts@) =~= group_texts(groups@.subrange(from as int, i as int)),
        decreases to - i,
    {
        add_text(&mut parts, show_group(groups[i]));
        i = i + 1;
    }
    text::join(&parts, ":")
}

/// The number of zeros in `groups` from place `i` on.
pub open spec fn zeros_from(groups: Seq<u16>, i: int) -> int
    decreases groups.len() - i,
{
    if i < 0 || i >= groups.len() || groups[i] != 0 {
        0
    } else {
        1 + zeros_from(groups, i + 1)
    }
}

/// The place and the length of the longest run of zeros in `groups` from place `i` on, the first
/// of several.
pub open spec fn longest_zeros(groups: Seq<u16>, i: int) -> (int, int)
    decreases groups.len() - i,
{
    if i < 0 || i >= groups.len() {
        (0, 0)
    } else {
        let rest = longest_zeros(groups, i + 1);
        let run = zeros_from(groups, i);
        if run > 0 && run >= rest.1 {
            (i, run)
        } else {
            rest
        }
    }
}

fn find_zeros(groups: &[u16; 8]) -> (found: (usize, usize))
    ensures
        (found.0 as int, found.1 as int) == longest_zeros(groups@, 0),
        found.0 + found.1 <= 8,
{
    let mut at: usize = 0;
    let mut len: usize = 0;
    let mut run: usize = 0;
    let mut i: usize = 8;
    while i > 0
        invariant
            i <= 8,
            groups@.len() == 8,
            (at as int, len as int) == longest_zeros(groups@, i as int),
            run == zeros_from(groups@, i as int),
            run + i <= 8,
            at + len <= 8,
        decreases i,
    {
        i = i - 1;
        if groups[i] == 0 {
            run = run + 1;
            if run >= len {
                at = i;
                len = run;
            }
        } else {
            run = 0;
        }
    }
    (at, len)
}

/// Whether an IPv6 address stands for one of IPv4.
pub open spec fn mapped(groups: Seq<u16>) -> bool {
    groups.take(5) == seq![0u16, 0u16, 0u16, 0u16, 0u16] && groups[5] == 0xffff
}

/// An address in text: that of an IPv6 address leaves the longest run of two or more zeros out.
pub open spec fn ip_text(address: IpView) -> Seq<char> {
    match address {
        IpView::V4(octets) => ipv4_text(octets[0], octets[1], octets[2], octets[3]),
        IpView::V6(groups) => if mapped(groups) {
            "::ffff:"@ + ipv4_text(
                (groups[6] / 256) as u8,
                (groups[6] % 256) as u8,
                (groups[7] / 256) as u8,
                (groups[7] % 256) as u8,
            )
        } else {
            let (at, len) = longest_zeros(groups, 0);
            if len > 1 {
                joined(group_texts(groups.take(at)), ":"@) + "::"@ + joined(
                    group_texts(groups.skip(at + len)),
                    ":"@,
                )
            } else {
                joined(group_texts(groups), ":"@)
            }
        },
    }
}

impl IpAddress {
    /// The address that `s` stands for.
    pub fn parse(s: &str) -> (address: Option<IpAddress>)
        ensures
            match ip_of(s@) {
                Some(view) => address matches Some(a) && a@ == view,
                None => address is None,
            },
    {
        match parse_ipv4(s) {
            Some(octets) => Some(IpAddress::V4(octets)),
            None => match parse_ipv6(s) {
                Some(groups) => Some(IpAddress::V6(groups)),
                None => None,
            },
        }
    }

    /// Whether the address is this machine's own.
    pub fn is_loopback(&self) -> (yes: bool)
        ensures
            yes == loopback(self@),
    {
        match self {
            IpAddress::V4(octets) => octets[0] == 127,
            IpAddress::V6(groups) => {
                let yes = groups[0] == 0 && groups[1] == 0 && groups[2] == 0 && groups[3] == 0
                    && groups[4] == 0 && groups[5] == 0 && groups[6] == 0 && groups[7] == 1;
                proof {
                    let own = seq![0u16, 0u16, 0u16, 0u16, 0u16, 0u16, 0u16, 1u16];
                    if yes {
                        assert(groups@ =~= own);
                    } else {
                        assert(own[0] == 0 && own[1] == 0 && own[2] == 0 && own[3] == 0);
                        assert(own[4] == 0 && own[5] == 0 && own[6] == 0 && own[7] == 1);
                    }
                }
                yes
            },
        }
    }

    /// The address in text.
    pub fn describe(&self) -> (s: String)
        ensures
            s@ == ip_text(self@),
    {
        match self {
            IpAddress::V4(octets) => show_ipv4(octets[0], octets[1], octets[2], octets[3]),
            IpAddress::V6(groups) => {
                let is_mapped = groups[0] == 0 && groups[1] == 0 && groups[2] == 0 && groups[3]
                    == 0 && groups[4] == 0 && groups[5] == 0xffff;
                proof {
                    let zeros = seq![0u16, 0u16, 0u16, 0u16, 0u16];
                    let front = groups@.take(5);
                    assert(front[0] == groups[0] && front[1] == groups[1] && front[2] == groups[2]
                        && front[3] == groups[3] && front[4] == groups[4]);
                    if is_mapped {
                        assert(front =~= zeros);
                    } else {
                        assert(zeros[0] == 0 && zeros[1] == 0 && zeros[2] == 0 && zeros[3] == 0
                            && zeros[4] == 0);
                    }
                }
                if is_mapped {
                    return text::together(
                        "::ffff:",
                        show_ipv4(
                            (groups[6] / 256) as u8,
                            (groups[6] % 256) as u8,
                            (groups[7] / 256) as u8,
                            (groups[7] % 256) as u8,
                        ).as_str(),
                    );
                }
                let (at, len) = find_zeros(groups);
                if len > 1 {
                    let mut s = show_groups(groups, 0, at);
                    s.append("::");
                    s.append(show_groups(groups, at + len, 8).as_str());
                    proof {
                        assert(groups@.subrange(0, at as int) =~= groups@.take(at as int));
                        assert(groups@.subrange(at + len, 8) =~= groups@.skip(at + len));
                    }
                    s
                } else {
                    assert(groups@.subrange(0, 8) =~= groups@);
                    show_groups(groups, 0, 8)
                }
            },
        }
    }
}

/// Whether an address has the parts that one of its sort has.
pub open spec fn whole(address: IpView) -> bool {
    match address {
        IpView::V4(octets) => octets.len() == 4,
        IpView::V6(groups) => groups.len() == 8,
    }
}

/// The decimal form of an octet is read as the octet.
proof fn lemma_octet_text(n: u8)
    ensures
        octet_of(decimal_of(n as nat)) == Some(n),
        free_of(decimal_of(n as nat), '.'),
        free_of(decimal_of(n as nat), ':'),
{
    let s = decimal_of(n as nat);
    lemma_decimal_digits(n as nat);
    assert forall|i: int| 0 <= i < s.len() implies #[trigger] s[i] != '.' && s[i] != ':' by {
        assert(text::ascii_digit(s[i]));
    }
}

/// The octets of an IPv4 address in text are its pieces.
proof fn lemma_ipv4_pieces(a: u8, b: u8, c: u8, d: u8)
    ensures
        pieces(ipv4_text(a, b, c, d), '.') == seq![
            decimal_of(a as nat),
            decimal_of(b as nat),
            decimal_of(c as nat),
            decimal_of(d as nat),
        ],
{
    reveal_strlit(".");
    let dot = seq!['.'];
    assert("."@ =~= dot);
    let (ta, tb, tc, td) = (
        decimal_of(a as nat),
        decimal_of(b as nat),
        decimal_of(c as nat),
        decimal_of(d as nat),
    );
    lemma_octet_text(a);
    lemma_octet_text(b);
    lemma_octet_text(c);
    lemma_octet_text(d);
    lemma_one_piece(ta, '.');
    lemma_pieces_push(ta, '.', tb);
    lemma_pieces_push(ta + dot + tb, '.', tc);
    lemma_pieces_push(ta + dot + tb + dot + tc, '.', td);
    assert(seq![ta].push(tb).push(tc).push(td) =~= seq![ta, tb, tc, td]);
}

/// An IPv4 address in text is read as the address.
proof fn lemma_ipv4_text(a: u8, b: u8, c: u8, d: u8)
    ensures
        ipv4_of(ipv4_text(a, b, c, d)) == Some(seq![a, b, c, d]),
        free_of(ipv4_text(a, b, c, d), ':'),
        !free_of(ipv4_text(a, b, c, d), '.'),
{
    lemma_ipv4_pieces(a, b, c, d);
    lemma_octet_text(a);
    lemma_octet_text(b);
    lemma_octet_text(c);
    lemma_octet_text(d);
    reveal_strlit(".");
    let s = ipv4_text(a, b, c, d);
    assert(s[decimal_of(a as nat).len() as int] == '.');
    let front = decimal_of(a as nat) + "."@ + decimal_of(b as nat) + "."@;
    let back = decimal_of(c as nat) + "."@ + decimal_of(d as nat);
    assert(free_of(front, ':'));
    assert(free_of(back, ':'));
    assert(s =~= front + back);
}

/// The hexadecimal form of a number is a run of hexadecimal digits that stands for it.
proof fn lemma_hex_digits(n: nat)
    ensures
        hex_of(n).len() > 0,
        n < 0x10000 ==> hex_of(n).len() <= 4,
        forall|i: int| 0 <= i < hex_of(n).len() ==> hex_digit(#[trigger] hex_of(n)[i]),
        hex_value(hex_of(n)) == n,
    decreases n,
{
    reveal_with_fuel(hex_of, 4);
    if n < 16 {
        assert(hex_of(n).drop_last() =~= Seq::empty());
        assert(hex_value(hex_of(n).drop_last()) == 0);
    } else {
        lemma_hex_digits(n / 16);
        assert(hex_of(n).drop_last() =~= hex_of(n / 16));
        assert forall|i: int| 0 <= i < hex_of(n).len() implies hex_digit(
            #[trigger] hex_of(n)[i],
        ) by {
            if i < hex_of(n / 16).len() {
                assert(hex_of(n)[i] == hex_of(n / 16)[i]);
            }
        }
    }
}

/// The hexadecimal form of a group is read as the group.
proof fn lemma_group_text(group: u16)
    ensures
        group_of(hex_of(group as nat)) == Some(group),
        free_of(hex_of(group as nat), ':'),
{
    let s = hex_of(group as nat);
    lemma_hex_digits(group as nat);
    assert forall|i: int| 0 <= i < s.len() implies #[trigger] s[i] != ':' by {
        assert(hex_digit(s[i]));
    }
}

/// The texts of groups are read as the groups.
proof fn lemma_part_texts(groups: Seq<u16>, tail: bool)
    ensures
        part_groups(group_texts(groups), tail) == Some(groups),
    decreases groups.len(),
{
    if groups.len() == 0 {
        assert(group_texts(groups).len() == 0);
        assert(groups =~= Seq::empty());
    } else {
        assert(group_texts(groups).drop_last() =~= group_texts(groups.drop_last()));
        lemma_part_texts(groups.drop_last(), false);
        lemma_group_text(groups.last());
        assert(groups.drop_last().push(groups.last()) =~= groups);
    }
}

/// Whether `s` is made of hexadecimal digits and colons, of which none stands at its ends or beside
/// another.
pub open spec fn tidy(s: Seq<char>) -> bool {
    &&& s.len() > 0
    &&& s[0] != ':'
    &&& s.last() != ':'
    &&& forall|i: int| 0 <= i < s.len() ==> (#[trigger] s[i] == ':' || hex_digit(s[i]))
    &&& forall|i: int|
        0 <= i && i + 1 < s.len() ==> !(#[trigger] s[i] == ':' && s[i + 1] == ':')
}

/// Groups in text are tidy, and come apart into the texts of the groups.
proof fn lemma_groups_text(groups: Seq<u16>)
    requires
        groups.len() > 0,
    ensures
        tidy(joined(group_texts(groups), ":"@)),
        pieces(joined(group_texts(groups), ":"@), ':') == group_texts(groups),
    decreases groups.len(),
{
    reveal_strlit(":");
    assert(":"@ =~= seq![':']);
    let parts = group_texts(groups);
    assert forall|i: int| 0 <= i < parts.len() implies free_of(#[trigger] parts[i], ':') by {
        lemma_group_text(groups[i]);
    }
    lemma_pieces_joined(parts, ':');
    let last = parts.last();
    lemma_hex_digits(groups.last() as nat);
    lemma_group_text(groups.last());
    if groups.len() > 1 {
        lemma_groups_text(groups.drop_last());
        assert(parts.drop_last() =~= group_texts(groups.drop_last()));
        let before = joined(parts.drop_last(), ":"@);
        let s = before + ":"@ + last;
        assert(s == joined(parts, ":"@));
        let n = before.len() as int;
        assert(s[0] == before[0]);
        assert(s.last() == last.last());
        assert forall|i: int| 0 <= i < s.len() implies (#[trigger] s[i] == ':' || hex_digit(
            s[i],
        )) by {
            if i < n {
                assert(s[i] == before[i]);
            } else if i > n {
                assert(s[i] == last[i - n - 1]);
            }
        }
        assert forall|i: int| 0 <= i && i + 1 < s.len() implies !(#[trigger] s[i] == ':' && s[i + 1]
            == ':') by {
            if i < n {
                assert(s[i] == before[i]);
                if i + 1 < n {
                    assert(s[i + 1] == before[i + 1]);
                } else {
                    assert(before[i] == before.last());
                }
            } else {
                assert(s[i + 1] == last[i - n]);
            }
        }
    } else {
        assert(joined(parts, ":"@) == parts[0]);
        assert(parts[0] == last);
        assert(forall|i: int| 0 <= i < last.len() ==> hex_digit(#[trigger] last[i]));
        assert(hex_digit(last[last.len() - 1]));
    }
}

/// Groups in text are read as the groups.
proof fn lemma_colon_text(groups: Seq<u16>, tail: bool)
    ensures
        colon_groups(joined(group_texts(groups), ":"@), tail) == Some(groups),
{
    if groups.len() == 0 {
        assert(groups =~= Seq::empty());
    } else {
        lemma_groups_text(groups);
        lemma_part_texts(groups, tail);
    }
}

/// From place `i` on there are as many zeros as are counted.
proof fn lemma_zeros_from(groups: Seq<u16>, i: int)
    requires
        0 <= i,
    ensures
        0 <= zeros_from(groups, i),
        i <= groups.len() ==> i + zeros_from(groups, i) <= groups.len(),
        forall|k: int| i <= k < i + zeros_from(groups, i) ==> #[trigger] groups[k] == 0,
    decreases groups.len() - i,
{
    if i < groups.len() && groups[i] == 0 {
        lemma_zeros_from(groups, i + 1);
    }
}

/// The longest run of zeros is one.
proof fn lemma_longest_zeros(groups: Seq<u16>, i: int)
    requires
        0 <= i <= groups.len(),
    ensures
        ({
            let (at, len) = longest_zeros(groups, i);
            &&& 0 <= at
            &&& 0 <= len
            &&& at + len <= groups.len()
            &&& forall|k: int| at <= k < at + len ==> #[trigger] groups[k] == 0
        }),
    decreases groups.len() - i,
{
    if i < groups.len() {
        lemma_longest_zeros(groups, i + 1);
        lemma_zeros_from(groups, i);
    }
}

/// A text without a full stop is no IPv4 address.
proof fn lemma_no_ipv4(s: Seq<char>)
    requires
        free_of(s, '.'),
    ensures
        ipv4_of(s) is None,
{
    lemma_one_piece(s, '.');
}

/// An IPv6 address whose text leaves no zeros out is read as the address.
proof fn lemma_full_text(groups: Seq<u16>)
    requires
        groups.len() == 8,
    ensures
        ip_of(joined(group_texts(groups), ":"@)) == Some(IpView::V6(groups)),
{
    let s = joined(group_texts(groups), ":"@);
    lemma_groups_text(groups);
    lemma_part_texts(groups, true);
    lemma_gap_at(s, s.len() as int);
    assert forall|i: int| 0 <= i < s.len() implies #[trigger] s[i] != '.' by {
        assert(s[i] == ':' || hex_digit(s[i]));
    }
    lemma_no_ipv4(s);
}

/// An IPv6 address whose text leaves a run of zeros out is read as the address.
proof fn lemma_short_text(groups: Seq<u16>, at: int, len: int)
    requires
        groups.len() == 8,
        0 <= at,
        1 < len,
        at + len <= 8,
        forall|k: int| at <= k < at + len ==> #[trigger] groups[k] == 0,
    ensures
        ip_of(
            joined(group_texts(groups.take(at)), ":"@) + "::"@ + joined(
                group_texts(groups.skip(at + len)),
                ":"@,
            ),
        ) == Some(IpView::V6(groups)),
{
    reveal_strlit("::");
    let head = joined(group_texts(groups.take(at)), ":"@);
    let tail = joined(group_texts(groups.skip(at + len)), ":"@);
    let s = head + "::"@ + tail;
    let n = head.len() as int;
    if at > 0 {
        lemma_groups_text(groups.take(at));
    } else {
        assert(head.len() == 0);
    }
    if at + len < 8 {
        lemma_groups_text(groups.skip(at + len));
    } else {
        assert(tail.len() == 0);
    }
    assert forall|i: int| 0 <= i < n && i + 1 < s.len() implies !(#[trigger] s[i] == ':' && s[i + 1]
        == ':') by {
        assert(s[i] == head[i]);
        if i + 1 < n {
            assert(s[i + 1] == head[i + 1]);
        } else {
            assert(head[i] == head.last());
        }
    }
    assert(s[n] == ':' && s[n + 1] == ':');
    lemma_gap_at(s, n);
    assert(s.take(n) =~= head);
    assert(s.skip(n + 2) =~= tail);
    lemma_colon_text(groups.take(at), false);
    lemma_colon_text(groups.skip(at + len), true);
    assert forall|i: int| 0 <= i < s.len() implies #[trigger] s[i] != '.' by {
        if i < n {
            assert(s[i] == head[i]);
            assert(head[i] == ':' || hex_digit(head[i]));
        } else if i >= n + 2 {
            assert(s[i] == tail[i - n - 2]);
            assert(tail[i - n - 2] == ':' || hex_digit(tail[i - n - 2]));
        }
    }
    lemma_no_ipv4(s);
    assert(groups.take(at) + Seq::new((8 - at - (8 - at - len)) as nat, |i: int| 0u16)
        + groups.skip(at + len) =~= groups);
}

/// An IPv6 address that stands for one of IPv4 is read from its text as the address.
proof fn lemma_mapped_text(groups: Seq<u16>)
    requires
        groups.len() == 8,
        mapped(groups),
    ensures
        ip_of(ip_text(IpView::V6(groups))) == Some(IpView::V6(groups)),
{
    reveal_strlit("::ffff:");
    let (a, b, c, d) = (
        (groups[6] / 256) as u8,
        (groups[6] % 256) as u8,
        (groups[7] / 256) as u8,
        (groups[7] % 256) as u8,
    );
    let v4 = ipv4_text(a, b, c, d);
    let s = "::ffff:"@ + v4;
    lemma_ipv4_text(a, b, c, d);
    lemma_gap_at(s, 0);
    assert(s.take(0) =~= Seq::empty());
    let label = seq!['f', 'f', 'f', 'f'];
    let tail = s.skip(2);
    assert(tail =~= label + seq![':'] + v4);
    lemma_one_piece(label, ':');
    lemma_pieces_push(label, ':', v4);
    let parts = pieces(tail, ':');
    assert(parts =~= seq![label, v4]);
    assert(parts.drop_last() =~= seq![label]);
    assert(seq![label].drop_last() =~= Seq::empty());
    assert(group_of(label) == Some(0xffffu16)) by {
        assert(forall|i: int| 0 <= i < 4 ==> hex_digit(#[trigger] label[i]));
        reveal_with_fuel(hex_value, 5);
        assert(label.drop_last() =~= seq!['f', 'f', 'f']);
        assert(seq!['f', 'f', 'f'].drop_last() =~= seq!['f', 'f']);
        assert(seq!['f', 'f'].drop_last() =~= seq!['f']);
        assert(seq!['f'].drop_last() =~= Seq::empty());
    }
    assert(part_groups(seq![label], false) == Some(seq![0xffffu16])) by {
        assert(part_groups(Seq::empty(), false) == Some(Seq::<u16>::empty()));
        assert(seq![label].last() == label);
        assert(Seq::<u16>::empty().push(0xffffu16) =~= seq![0xffffu16]);
    }
    assert(group_of(v4) is None) by {
        let i = choose|i: int| 0 <= i < v4.len() && v4[i] == '.';
        assert(!hex_digit(v4[i]));
    }
    let octets = seq![a, b, c, d];
    assert(groups_of_octets(octets) =~= seq![groups[6], groups[7]]);
    assert(parts.last() == v4);
    let read = seq![0xffffu16] + groups_of_octets(octets);
    assert(part_groups(parts, true) == Some(read));
    assert(colon_groups(tail, true) == Some(read));
    let zeros = Seq::new(5nat, |i: int| 0u16);
    let front = groups.take(5);
    let five = seq![0u16, 0u16, 0u16, 0u16, 0u16];
    assert(front == five);
    assert forall|i: int| 0 <= i < 5 implies #[trigger] groups[i] == 0 by {
        assert(front[i] == groups[i]);
        assert(five[i] == 0);
    }
    assert(Seq::<u16>::empty() + zeros + read =~= groups);
    assert(ipv6_of(s) == Some(groups)) by {
        assert(Seq::<u16>::empty() + Seq::new((8 - 0 - 3) as nat, |i: int| 0u16) + read =~= groups);
    }
    assert(ipv4_of(s) is None) by {
        text::lemma_first_at_is(v4, '.');
        lemma_ipv4_pieces(a, b, c, d);
        let at = 7 + text::first_at(v4, '.');
        assert forall|i: int| 0 <= i < at implies #[trigger] s[i] != '.' by {
            if i >= 7 {
                assert(s[i] == v4[i - 7]);
            }
        }
        let k = choose|i: int| 0 <= i < v4.len() && v4[i] == '.';
        assert(text::first_at(v4, '.') < v4.len());
        assert(s[at] == v4[at - 7]);
        text::lemma_first_at(s, '.', at);
        let first = pieces(s, '.')[0];
        assert(first == s.take(at));
        assert(first[0] == ':');
        assert(!text::ascii_digit(first[0]));
    }
}

/// An address in text is read as the address.
pub proof fn lemma_text_is_read_back(address: IpView)
    requires
        whole(address),
    ensures
        ip_of(ip_text(address)) == Some(address),
{
    match address {
        IpView::V4(octets) => {
            lemma_ipv4_text(octets[0], octets[1], octets[2], octets[3]);
            assert(seq![octets[0], octets[1], octets[2], octets[3]] =~= octets);
        },
        IpView::V6(groups) => {
            if mapped(groups) {
                lemma_mapped_text(groups);
            } else {
                lemma_longest_zeros(groups, 0);
                let (at, len) = longest_zeros(groups, 0);
                if len > 1 {
                    lemma_short_text(groups, at, len);
                } else {
                    lemma_full_text(groups);
                }
            }
        },
    }
}

/// An address that is read from a text has the parts that one of its sort has.
pub proof fn lemma_read_address_is_whole(s: Seq<char>)
    ensures
        ip_of(s) matches Some(address) ==> whole(address),
{
}

/// This machine's own addresses are those whose first octet is 127, and the one that is all zeros
/// but for a one at the end.
pub proof fn lemma_own_addresses(octets: Seq<u8>, groups: Seq<u16>)
    ensures
        loopback(IpView::V4(octets)) <==> octets[0] == 127,
        groups.len() == 8 ==> (loopback(IpView::V6(groups)) <==> groups[7] == 1 && forall|i: int|
            0 <= i < 7 ==> #[trigger] groups[i] == 0),
{
    if groups.len() == 8 && groups[7] == 1 && (forall|i: int|
        0 <= i < 7 ==> #[trigger] groups[i] == 0) {
        assert(groups =~= seq![0u16, 0u16, 0u16, 0u16, 0u16, 0u16, 0u16, 1u16]);
    }
    let own = seq![0u16, 0u16, 0u16, 0u16, 0u16, 0u16, 0u16, 1u16];
    assert(own[7] == 1);
    assert forall|i: int| 0 <= i < 7 implies #[trigger] own[i] == 0 by {}
}

/// A digit is the one for its value.
proof fn lemma_digit_stands_for_itself(c: char)
    requires
        ascii_digit(c),
    ensures
        0x30 <= c as u32 <= 0x39,
        digit((c as u32 - 0x30) as nat) == c,
{
}

/// The digits of an octet are the decimal form of the octet.
proof fn lemma_octet_digits(s: Seq<char>)
    requires
        octet_of(s) is Some,
    ensures
        s == decimal_of(octet_of(s)->0 as nat),
{
    let n = digits_value(s);
    reveal_with_fuel(digits_value, 4);
    reveal_with_fuel(decimal_of, 4);
    assert forall|i: int| 0 <= i < s.len() implies {
        &&& 0x30 <= (#[trigger] s[i]) as u32 <= 0x39
        &&& digit((s[i] as u32 - 0x30) as nat) == s[i]
    } by {
        lemma_digit_stands_for_itself(s[i]);
    }
    if s.len() == 1 {
        assert(s.drop_last() =~= Seq::empty());
        assert(decimal_of(n) =~= s);
    } else if s.len() == 2 {
        let a = s.drop_last();
        assert(a.drop_last() =~= Seq::empty());
        assert(a[0] == s[0] && s[1] == s.last());
        assert(n == (s[0] as u32 - 0x30) * 10 + (s[1] as u32 - 0x30));
        assert(n / 10 == s[0] as u32 - 0x30);
        assert(decimal_of(n) =~= s);
    } else {
        let a = s.drop_last();
        let b = a.drop_last();
        assert(b.drop_last() =~= Seq::empty());
        assert(b[0] == s[0] && a.last() == s[1] && s[2] == s.last());
        assert(n == (s[0] as u32 - 0x30) * 100 + (s[1] as u32 - 0x30) * 10 + (s[2] as u32 - 0x30));
        assert(n / 10 == (s[0] as u32 - 0x30) * 10 + (s[1] as u32 - 0x30));
        assert(n / 10 / 10 == s[0] as u32 - 0x30);
        assert(decimal_of(n) =~= s);
    }
}

/// An IPv4 address is read from one text alone: its four octets in their order, in decimal form
/// with full stops between them.
pub proof fn lemma_octets_stand_in_order(s: Seq<char>)
    ensures
        ip_of(s) matches Some(IpView::V4(octets)) ==> octets.len() == 4 && s == decimal_of(
            octets[0] as nat,
        ) + "."@ + decimal_of(octets[1] as nat) + "."@ + decimal_of(octets[2] as nat) + "."@
            + decimal_of(octets[3] as nat),
{
    if let Some(IpView::V4(octets)) = ip_of(s) {
        let parts = pieces(s, '.');
        lemma_octet_digits(parts[0]);
        lemma_octet_digits(parts[1]);
        lemma_octet_digits(parts[2]);
        lemma_octet_digits(parts[3]);
        lemma_pieces_make_the_text(s, '.');
        reveal_strlit(".");
        assert("."@ =~= seq!['.']);
        reveal_with_fuel(joined, 5);
        assert(parts =~= seq![parts[0], parts[1], parts[2], parts[3]]);
        assert(joined(parts, seq!['.']) =~= parts[0] + "."@ + parts[1] + "."@ + parts[2] + "."@
            + parts[3]);
    }
}

/// A group of an IPv6 address counts by sixteen: one more digit makes it sixteen times as large,
/// and adds the value of the digit, which is the same in letters of either case.
pub proof fn lemma_groups_count_by_sixteen(s: Seq<char>, c: char)
    ensures
        c as u32 >= 0x30 && c as u32 <= 0x39 ==> group_of(seq![c]) == Some((c as u32 - 0x30) as u16),
        c as u32 >= 0x61 && c as u32 <= 0x66 ==> group_of(seq![c]) == Some(
            (c as u32 - 0x61 + 10) as u16,
        ),
        c as u32 >= 0x41 && c as u32 <= 0x46 ==> group_of(seq![c]) == Some(
            (c as u32 - 0x41 + 10) as u16,
        ),
        group_of(s) is Some && s.len() < 4 && group_of(seq![c]) is Some ==> group_of(s.push(c))
            == Some((group_of(s)->0 * 16 + group_of(seq![c])->0) as u16),
        s.len() == 0 || s.len() > 4 ==> group_of(s) is None,
{
    reveal_with_fuel(hex_value, 5);
    assert(seq![c].drop_last() =~= Seq::empty());
    assert(seq![c].last() == c);
    assert(seq![c][0] == c);
    assert(s.push(c).drop_last() =~= s);
    if group_of(s) is Some && s.len() < 4 && group_of(seq![c]) is Some {
        lemma_group_value(s);
        assert(hex_digit(seq![c][0]));
        assert forall|i: int| 0 <= i < s.push(c).len() implies hex_digit(#[trigger] s.push(c)[i]) by {
            if i < s.len() {
                assert(s.push(c)[i] == s[i]);
            }
        }
    }
}

/// Up to three hexadecimal digits stand for a number below 4096.
proof fn lemma_group_value(s: Seq<char>)
    requires
        s.len() < 4,
        forall|i: int| 0 <= i < s.len() ==> hex_digit(#[trigger] s[i]),
    ensures
        s.len() == 0 ==> hex_value(s) == 0,
        s.len() == 1 ==> hex_value(s) < 16,
        s.len() == 2 ==> hex_value(s) < 256,
        hex_value(s) < 4096,
    decreases s.len(),
{
    if s.len() > 0 {
        let before = s.drop_last();
        assert forall|i: int| 0 <= i < before.len() implies hex_digit(#[trigger] before[i]) by {
            assert(before[i] == s[i]);
        }
        assert(hex_digit(s[s.len() - 1]));
        lemma_group_value(before);
    }
}

} // verus!

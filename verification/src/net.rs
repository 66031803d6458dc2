//! Network-origin model: IP addresses as plain values, the textual grammar
//! of allowlist entries (single addresses and CIDR ranges), and the
//! membership test used at connection time.
//!
//! An IPv4 address is held as its 32-bit value, an IPv6 address as its
//! 128-bit value; the parsers below define the accepted text forms.

use vstd::prelude::*;
use crate::text::{all_digits, dec_value, parse_decimal, split_on, split_str};

verus! {

/// A client network address, as plain bits.
#[derive(Clone, Copy, Debug, PartialEq, Eq, Structural)]
pub enum IpAddress {
    V4(u32),
    V6(u128),
}

/// One entry of the origin allowlist: a single address, or an
/// address-plus-prefix-length range.
#[derive(Clone, Copy, Debug, PartialEq, Eq, Structural)]
pub enum AllowRule {
    Exact(IpAddress),
    Net(IpAddress, u8),
}

/// Text of one dotted-quad octet: one to three digits, no superfluous
/// leading zero, value at most 255.
pub open spec fn is_octet_text(s: Seq<char>) -> bool {
    &&& all_digits(s)
    &&& 1 <= s.len() <= 3
    &&& (s.len() > 1 ==> s[0] != '0')
    &&& dec_value(s) <= 255
}

/// The octet denoted by `s`, if `s` is octet text.
pub open spec fn octet_spec(s: Seq<char>) -> Option<u8> {
    if is_octet_text(s) {
        Some(dec_value(s) as u8)
    } else {
        None
    }
}

/// Parses one dotted-quad octet.
pub fn parse_octet(s: &str) -> (r: Option<u8>)
    ensures
        r == octet_spec(s@),
{
    let len = s.unicode_len();
    if len == 0 || len > 3 {
        return None;
    }
    if len > 1 && s.get_char(0) == '0' {
        return None;
    }
    match parse_decimal(s) {
        Some(v) => {
            if v <= 255 {
                Some(v as u8)
            } else {
                None
            }
        },
        None => {
            proof {
                assert(!all_digits(s@) || dec_value(s@) > u64::MAX);
                if all_digits(s@) {
                    lemma_dec_value_len_bound(s@);
                }
            }
            None
        },
    }
}

/// A digit string of at most three characters denotes a value under 1000.
proof fn lemma_dec_value_len_bound(s: Seq<char>)
    requires
        all_digits(s),
    ensures
        s.len() == 0 ==> dec_value(s) == 0,
        s.len() <= 1 ==> dec_value(s) < 10,
        s.len() <= 2 ==> dec_value(s) < 100,
        s.len() <= 3 ==> dec_value(s) < 1000,
    decreases s.len(),
{
    if s.len() > 0 {
        assert(all_digits(s.drop_last()));
        lemma_dec_value_len_bound(s.drop_last());
        assert('0' <= s.last() <= '9');
    }
}

/// The 32-bit value of a dotted quad.
pub open spec fn ipv4_of_octets(o0: u8, o1: u8, o2: u8, o3: u8) -> u32 {
    (((o0 as int) * 0x1000000 + (o1 as int) * 0x10000 + (o2 as int) * 0x100 + (o3 as int))) as u32
}

/// The address denoted by dotted-quad text, if any.
pub open spec fn parse_ipv4_spec(s: Seq<char>) -> Option<u32> {
    let parts = split_on(s, '.');
    if parts.len() == 4 {
        match (octet_spec(parts[0]), octet_spec(parts[1])) {
            (Some(o0), Some(o1)) => match (octet_spec(parts[2]), octet_spec(parts[3])) {
                (Some(o2), Some(o3)) => Some(ipv4_of_octets(o0, o1, o2, o3)),
                _ => None,
            },
            _ => None,
        }
    } else {
        None
    }
}

/// Parses dotted-quad IPv4 text.
pub fn parse_ipv4(s: &str) -> (r: Option<u32>)
    ensures
        r == parse_ipv4_spec(s@),
{
    let parts = split_str(s, '.');
    if parts.len() != 4 {
        return None;
    }
    let o0 = parse_octet(parts[0].as_str());
    let o1 = parse_octet(parts[1].as_str());
    let o2 = parse_octet(parts[2].as_str());
    let o3 = parse_octet(parts[3].as_str());
    proof {
        assert(parts@.map_values(|x: String| x@)[0] == parts@[0]@);
        assert(parts@.map_values(|x: String| x@)[1] == parts@[1]@);
        assert(parts@.map_values(|x: String| x@)[2] == parts@[2]@);
        assert(parts@.map_values(|x: String| x@)[3] == parts@[3]@);
    }
    match (o0, o1, o2, o3) {
        (Some(a), Some(b), Some(c), Some(d)) => Some(
            (a as u32) * 0x1000000 + (b as u32) * 0x10000 + (c as u32) * 0x100 + (d as u32),
        ),
        _ => None,
    }
}

} // verus!

verus! {

/// A hexadecimal digit.
pub open spec fn is_hex_digit(c: char) -> bool {
    ('0' <= c && c <= '9') || ('a' <= c && c <= 'f') || ('A' <= c && c <= 'F')
}

/// Value of a hexadecimal digit.
pub open spec fn hex_digit_value(c: char) -> nat {
    if '0' <= c && c <= '9' {
        ((c as int) - ('0' as int)) as nat
    } else if 'a' <= c && c <= 'f' {
        ((c as int) - ('a' as int) + 10) as nat
    } else {
        ((c as int) - ('A' as int) + 10) as nat
    }
}

/// Every character of `s` is a hexadecimal digit.
pub open spec fn all_hex_digits(s: Seq<char>) -> bool {
    forall|i: int| 0 <= i < s.len() ==> is_hex_digit(#[trigger] s[i])
}

/// Value of a sequence of hexadecimal digits, most significant first.
pub open spec fn hex_value(s: Seq<char>) -> nat
    decreases s.len(),
{
    if s.len() == 0 {
        0
    } else {
        hex_value(s.drop_last()) * 16 + hex_digit_value(s.last())
    }
}

/// A hexadecimal digit string of at most four characters denotes a value
/// under 65536.
proof fn lemma_hex_value_len_bound(s: Seq<char>)
    requires
        all_hex_digits(s),
    ensures
        s.len() == 0 ==> hex_value(s) == 0,
        s.len() <= 1 ==> hex_value(s) < 16,
        s.len() <= 2 ==> hex_value(s) < 256,
        s.len() <= 3 ==> hex_value(s) < 4096,
        s.len() <= 4 ==> hex_value(s) < 65536,
    decreases s.len(),
{
    if s.len() > 0 {
        assert(all_hex_digits(s.drop_last()));
        lemma_hex_value_len_bound(s.drop_last());
        assert(is_hex_digit(s.last()));
        assert(hex_digit_value(s.last()) < 16);
    }
}

/// Text of one colon-separated group: one to four hexadecimal digits.
pub open spec fn is_hex_group_text(s: Seq<char>) -> bool {
    all_hex_digits(s) && 1 <= s.len() <= 4
}

/// The group denoted by `s`, if `s` is hex-group text.
pub open spec fn hex_group_spec(s: Seq<char>) -> Option<u16> {
    if is_hex_group_text(s) {
        Some(hex_value(s) as u16)
    } else {
        None
    }
}

/// Parses one hexadecimal group.
pub fn parse_hex_group(s: &str) -> (r: Option<u16>)
    ensures
        r == hex_group_spec(s@),
{
    let len = s.unicode_len();
    if len == 0 || len > 4 {
        return None;
    }
    let mut i: usize = 0;
    let mut v: u32 = 0;
    while i < len
        invariant
            len == s@.len(),
            1 <= len <= 4,
            0 <= i <= len,
            all_hex_digits(s@.subrange(0, i as int)),
            v as nat == hex_value(s@.subrange(0, i as int)),
            v < 65536,
        decreases len - i,
    {
        let c = s.get_char(i);
        let d: u32;
        if '0' <= c && c <= '9' {
            d = (c as u32) - 48;
        } else if 'a' <= c && c <= 'f' {
            d = (c as u32) - 97 + 10;
        } else if 'A' <= c && c <= 'F' {
            d = (c as u32) - 65 + 10;
        } else {
            proof {
                assert(s@[i as int] == c);
                assert(!is_hex_digit(c));
            }
            return None;
        }
        proof {
            assert(s@.subrange(0, i + 1 as int).drop_last() =~= s@.subrange(0, i as int));
            assert(s@.subrange(0, i + 1 as int).last() == c);
            assert(d as nat == hex_digit_value(c));
            assert(all_hex_digits(s@.subrange(0, i + 1 as int)));
            lemma_hex_value_len_bound(s@.subrange(0, i + 1 as int));
        }
        v = v * 16 + d;
        i = i + 1;
    }
    proof {
        assert(s@.subrange(0, len as int) =~= s@);
        lemma_hex_value_len_bound(s@);
    }
    Some(v as u16)
}

/// The group values denoted by a list of colon-separated parts. Each part
/// must be a hex group; when `v4_last` holds, the final part may instead be
/// dotted-quad text, contributing its upper and lower sixteen bits as two
/// groups.
pub open spec fn hex_groups_spec(parts: Seq<Seq<char>>, v4_last: bool) -> Option<Seq<u16>>
    decreases parts.len(),
{
    if parts.len() == 0 {
        Some(Seq::<u16>::empty())
    } else if parts.len() == 1 {
        match hex_group_spec(parts[0]) {
            Some(g) => Some(seq![g]),
            None => {
                if v4_last {
                    match parse_ipv4_spec(parts[0]) {
                        Some(v) => Some(seq![(v >> 16) as u16, (v & 0xffff) as u16]),
                        None => None,
                    }
                } else {
                    None
                }
            },
        }
    } else {
        match hex_group_spec(parts[0]) {
            Some(g) => match hex_groups_spec(parts.drop_first(), v4_last) {
                Some(rest) => Some(seq![g] + rest),
                None => None,
            },
            None => None,
        }
    }
}

/// Parses the parts from index `idx` on as hex groups.
fn parse_hex_groups_from(parts: &Vec<String>, idx: usize, v4_last: bool) -> (r: Option<Vec<u16>>)
    requires
        idx <= parts@.len(),
    ensures
        match r {
            Some(gs) => hex_groups_spec(
                parts@.map_values(|x: String| x@).skip(idx as int),
                v4_last,
            ) == Some(gs@),
            None => hex_groups_spec(parts@.map_values(|x: String| x@).skip(idx as int), v4_last)
                is None,
        },
    decreases parts@.len() - idx,
{
    let n = parts.len();
    let ghost tail = parts@.map_values(|x: String| x@).skip(idx as int);
    if idx == n {
        proof {
            assert(tail =~= Seq::<Seq<char>>::empty());
        }
        return Some(Vec::new());
    }
    proof {
        assert(tail[0] == parts@[idx as int]@);
    }
    if idx == n - 1 {
        match parse_hex_group(parts[idx].as_str()) {
            Some(g) => {
                let mut out: Vec<u16> = Vec::new();
                out.push(g);
                proof {
                    assert(out@ =~= seq![g]);
                }
                Some(out)
            },
            None => {
                if v4_last {
                    match parse_ipv4(parts[idx].as_str()) {
                        Some(v) => {
                            let mut out: Vec<u16> = Vec::new();
                            out.push(#[verifier::truncate] ((v >> 16u32) as u16));
                            out.push(#[verifier::truncate] ((v & 0xffff) as u16));
                            proof {
                                assert(out@ =~= seq![(v >> 16) as u16, (v & 0xffff) as u16]);
                            }
                            Some(out)
                        },
                        None => None,
                    }
                } else {
                    None
                }
            },
        }
    } else {
        proof {
            assert(tail.drop_first() =~= parts@.map_values(|x: String| x@).skip(idx + 1));
        }
        match parse_hex_group(parts[idx].as_str()) {
            Some(g) => match parse_hex_groups_from(parts, idx + 1, v4_last) {
                Some(rest) => {
                    let mut out: Vec<u16> = Vec::new();
                    out.push(g);
                    let mut rest = rest;
                    let ghost rest0 = rest@;
                    out.append(&mut rest);
                    proof {
                        assert(out@ =~= seq![g] + rest0);
                    }
                    Some(out)
                },
                None => None,
            },
            None => None,
        }
    }
}

} // verus!

verus! {

/// Index of the first `::` in `s`, or -1 if there is none.
pub open spec fn first_dc(s: Seq<char>) -> int
    decreases s.len(),
{
    if s.len() < 2 {
        -1
    } else if s[0] == ':' && s[1] == ':' {
        0
    } else {
        let r = first_dc(s.drop_first());
        if r == -1 {
            -1
        } else {
            r + 1
        }
    }
}

/// A double colon stands at position `j` of `s`.
pub open spec fn dc_at(s: Seq<char>, j: int) -> bool {
    0 <= j && j + 2 <= s.len() && s[j] == ':' && s[j + 1] == ':'
}

/// `first_dc` finds the first double colon, and nothing earlier.
proof fn lemma_first_dc(s: Seq<char>)
    ensures
        first_dc(s) >= -1,
        first_dc(s) == -1 ==> forall|j: int| !#[trigger] dc_at(s, j),
        first_dc(s) >= 0 ==> dc_at(s, first_dc(s)) && forall|j: int|
            0 <= j < first_dc(s) ==> !#[trigger] dc_at(s, j),
    decreases s.len(),
{
    if s.len() >= 2 && !(s[0] == ':' && s[1] == ':') {
        lemma_first_dc(s.drop_first());
        if first_dc(s) == -1 {
            assert(first_dc(s.drop_first()) == -1);
            assert forall|j: int| !#[trigger] dc_at(s, j) by {
                if 0 <= j && j + 2 <= s.len() {
                    if j > 0 {
                        assert(dc_at(s.drop_first(), j - 1) == dc_at(s, j));
                    }
                }
            }
        } else {
            let fd = first_dc(s);
            assert(first_dc(s.drop_first()) == fd - 1);
            assert(dc_at(s.drop_first(), fd - 1) == dc_at(s, fd));
            assert forall|j: int| 0 <= j < fd implies !#[trigger] dc_at(s, j) by {
                if j > 0 {
                    assert(dc_at(s.drop_first(), j - 1) == dc_at(s, j));
                }
            }
        }
    }
}

/// Scans for the first `::`.
pub fn find_double_colon(s: &str) -> (r: Option<usize>)
    ensures
        match r {
            Some(i) => first_dc(s@) == i,
            None => first_dc(s@) == -1,
        },
{
    proof {
        lemma_first_dc(s@);
    }
    let len = s.unicode_len();
    if len < 2 {
        proof {
            if first_dc(s@) >= 0 {
                assert(dc_at(s@, first_dc(s@)));
            }
        }
        return None;
    }
    let mut i: usize = 0;
    while i < len - 1
        invariant
            len == s@.len(),
            2 <= len,
            0 <= i <= len - 1,
            forall|j: int| 0 <= j < i ==> !#[trigger] dc_at(s@, j),
        decreases len - i,
    {
        if s.get_char(i) == ':' && s.get_char(i + 1) == ':' {
            proof {
                assert(dc_at(s@, i as int));
                lemma_first_dc(s@);
                assert(first_dc(s@) == i);
            }
            return Some(i);
        }
        proof {
            assert(!dc_at(s@, i as int));
        }
        i = i + 1;
    }
    proof {
        lemma_first_dc(s@);
        if first_dc(s@) >= 0 {
            let fd = first_dc(s@);
            assert(dc_at(s@, fd));
            assert(fd < len - 1);
            assert(false);
        }
    }
    None
}

/// Powers of 65536.
pub open spec fn pow65536(n: nat) -> nat
    decreases n,
{
    if n == 0 {
        1nat
    } else {
        65536nat * pow65536((n - 1) as nat)
    }
}

/// Value of a group sequence, read big-endian base 65536.
pub open spec fn groups_value(gs: Seq<u16>) -> nat
    decreases gs.len(),
{
    if gs.len() == 0 {
        0
    } else {
        groups_value(gs.drop_last()) * 65536 + (gs.last() as nat)
    }
}

/// `groups_value` is bounded by the base raised to the group count.
proof fn lemma_groups_value_bound(gs: Seq<u16>)
    ensures
        groups_value(gs) < pow65536(gs.len() as nat),
    decreases gs.len(),
{
    if gs.len() > 0 {
        lemma_groups_value_bound(gs.drop_last());
        assert(groups_value(gs.drop_last()) <= pow65536((gs.len() - 1) as nat) - 1);
        assert(groups_value(gs.drop_last()) * 65536 <= (pow65536((gs.len() - 1) as nat) - 1)
            * 65536) by (nonlinear_arith)
            requires
                groups_value(gs.drop_last()) <= pow65536((gs.len() - 1) as nat) - 1,
        ;
    }
}

/// Concrete powers of 65536 up to eight groups.
proof fn lemma_pow65536_values()
    ensures
        pow65536(7) == 0x10000000000000000000000000000,
        pow65536(8) == 0x100000000000000000000000000000000,
{
    assert(pow65536(0) == 1);
    assert(pow65536(1) == 0x10000);
    assert(pow65536(2) == 0x100000000);
    assert(pow65536(3) == 0x1000000000000);
    assert(pow65536(4) == 0x10000000000000000);
    assert(pow65536(5) == 0x100000000000000000000);
    assert(pow65536(6) == 0x1000000000000000000000000);
    assert(pow65536(7) == 0x10000000000000000000000000000);
    assert(pow65536(8) == 0x100000000000000000000000000000000);
}

/// `pow65536` grows monotonically.
proof fn lemma_pow65536_mono(a: nat, b: nat)
    requires
        a <= b,
    ensures
        pow65536(a) <= pow65536(b),
    decreases b,
{
    if a < b {
        lemma_pow65536_mono(a, (b - 1) as nat);
        assert(pow65536(b) == 65536 * pow65536((b - 1) as nat));
        assert(pow65536((b - 1) as nat) <= 65536 * pow65536((b - 1) as nat)) by (nonlinear_arith)
            requires
                pow65536((b - 1) as nat) >= 0,
        ;
    }
}

/// The eight groups of an address written with a gap: the groups left of
/// the gap, zeros, then the groups right of the gap.
pub open spec fn ipv6_full_groups(left: Seq<u16>, right: Seq<u16>) -> Seq<u16> {
    left + Seq::new((8 - left.len() - right.len()) as nat, |i: int| 0u16) + right
}

/// Assembles eight groups (given as a gap form) into a 128-bit value.
fn assemble_v6(left: &Vec<u16>, right: &Vec<u16>) -> (r: u128)
    requires
        left@.len() + right@.len() <= 8,
    ensures
        r as nat == groups_value(ipv6_full_groups(left@, right@)),
{
    let mut full: Vec<u16> = Vec::new();
    let mut i: usize = 0;
    let llen = left.len();
    let rlen = right.len();
    while i < llen
        invariant
            llen == left@.len(),
            0 <= i <= llen,
            full@ =~= left@.take(i as int),
        decreases llen - i,
    {
        full.push(left[i]);
        i = i + 1;
    }
    let zeros: usize = 8 - llen - rlen;
    let mut z: usize = 0;
    while z < zeros
        invariant
            llen == left@.len(),
            zeros == 8 - llen - rlen,
            rlen == right@.len(),
            llen + rlen <= 8,
            0 <= z <= zeros,
            full@ =~= left@ + Seq::new(z as nat, |k: int| 0u16),
        decreases zeros - z,
    {
        full.push(0u16);
        proof {
            assert(full@ =~= left@ + Seq::new((z + 1) as nat, |k: int| 0u16));
        }
        z = z + 1;
    }
    let mut j: usize = 0;
    while j < rlen
        invariant
            llen == left@.len(),
            rlen == right@.len(),
            llen + rlen <= 8,
            zeros == 8 - llen - rlen,
            0 <= j <= rlen,
            full@ =~= left@ + Seq::new(zeros as nat, |k: int| 0u16) + right@.take(j as int),
        decreases rlen - j,
    {
        full.push(right[j]);
        proof {
            assert(full@ =~= left@ + Seq::new(zeros as nat, |k: int| 0u16) + right@.take(j + 1));
        }
        j = j + 1;
    }
    proof {
        assert(full@ =~= ipv6_full_groups(left@, right@));
        assert(full@.len() == 8);
        lemma_pow65536_values();
    }
    let mut acc: u128 = 0;
    let mut k: usize = 0;
    while k < 8
        invariant
            full@ =~= ipv6_full_groups(left@, right@),
            full@.len() == 8,
            0 <= k <= 8,
            acc as nat == groups_value(full@.take(k as int)),
            pow65536(7) == 0x10000000000000000000000000000,
            pow65536(8) == 0x100000000000000000000000000000000,
        decreases 8 - k,
    {
        proof {
            lemma_groups_value_bound(full@.take(k as int));
            lemma_pow65536_mono(k as nat, 7);
            assert(acc as nat <= pow65536(7) - 1);
            assert(full@.take(k + 1).drop_last() =~= full@.take(k as int));
            assert(full@.take(k + 1).last() == full@[k as int]);
        }
        acc = acc * 65536 + (full[k] as u128);
        k = k + 1;
    }
    proof {
        assert(full@.take(8) =~= full@);
    }
    acc
}

/// The address denoted by IPv6 text, if any. The accepted grammar is the
/// standard one: colon-separated groups of one to four hexadecimal digits,
/// at most one `::` gap standing for the missing zero groups, and an
/// optional trailing dotted quad standing for the final two groups.
pub open spec fn parse_ipv6_spec(s: Seq<char>) -> Option<u128> {
    let d = first_dc(s);
    if d >= 0 {
        let left = s.take(d);
        let right = s.skip(d + 2);
        let lg = if left.len() == 0 {
            Some(Seq::<u16>::empty())
        } else {
            hex_groups_spec(split_on(left, ':'), false)
        };
        let rg = if right.len() == 0 {
            Some(Seq::<u16>::empty())
        } else {
            hex_groups_spec(split_on(right, ':'), true)
        };
        match (lg, rg) {
            (Some(l), Some(r)) => {
                if l.len() + r.len() <= 7 {
                    Some(groups_value(ipv6_full_groups(l, r)) as u128)
                } else {
                    None
                }
            },
            _ => None,
        }
    } else {
        match hex_groups_spec(split_on(s, ':'), true) {
            Some(gs) => {
                if gs.len() == 8 {
                    Some(groups_value(ipv6_full_groups(gs, Seq::<u16>::empty())) as u128)
                } else {
                    None
                }
            },
            None => None,
        }
    }
}

/// Parses IPv6 text.
pub fn parse_ipv6(s: &str) -> (r: Option<u128>)
    ensures
        r == parse_ipv6_spec(s@),
{
    let len = s.unicode_len();
    match find_double_colon(s) {
        Some(d) => {
            proof {
                lemma_first_dc(s@);
                assert(dc_at(s@, d as int));
            }
            let left_s = s.substring_char(0, d);
            let right_s = s.substring_char(d + 2, len);
            proof {
                assert(left_s@ =~= s@.take(d as int));
                assert(right_s@ =~= s@.skip(d + 2));
            }
            let lg: Option<Vec<u16>> = if left_s.unicode_len() == 0 {
                Some(Vec::new())
            } else {
                let parts = split_str(left_s, ':');
                proof {
                    assert(parts@.map_values(|x: String| x@).skip(0) =~= parts@.map_values(
                        |x: String| x@,
                    ));
                }
                parse_hex_groups_from(&parts, 0, false)
            };
            let rg: Option<Vec<u16>> = if right_s.unicode_len() == 0 {
                Some(Vec::new())
            } else {
                let parts = split_str(right_s, ':');
                proof {
                    assert(parts@.map_values(|x: String| x@).skip(0) =~= parts@.map_values(
                        |x: String| x@,
                    ));
                }
                parse_hex_groups_from(&parts, 0, true)
            };
            match (lg, rg) {
                (Some(l), Some(r)) => {
                    if l.len() <= 7 && r.len() <= 7 - l.len() {
                        proof {
                            lemma_groups_value_bound(ipv6_full_groups(l@, r@));
                            lemma_pow65536_values();
                            lemma_pow65536_mono(ipv6_full_groups(l@, r@).len() as nat, 8);
                        }
                        Some(assemble_v6(&l, &r))
                    } else {
                        None
                    }
                },
                _ => None,
            }
        },
        None => {
            let parts = split_str(s, ':');
            proof {
                assert(parts@.map_values(|x: String| x@).skip(0) =~= parts@.map_values(
                    |x: String| x@,
                ));
            }
            match parse_hex_groups_from(&parts, 0, true) {
                Some(gs) => {
                    if gs.len() == 8 {
                        proof {
                            lemma_groups_value_bound(ipv6_full_groups(gs@, Seq::<u16>::empty()));
                            lemma_pow65536_values();
                            lemma_pow65536_mono(
                                ipv6_full_groups(gs@, Seq::<u16>::empty()).len() as nat,
                                8,
                            );
                        }
                        let empty: Vec<u16> = Vec::new();
                        Some(assemble_v6(&gs, &empty))
                    } else {
                        None
                    }
                },
                None => None,
            }
        },
    }
}

} // verus!

verus! {

/// The address denoted by `s`: dotted-quad IPv4 or standard IPv6 text.
pub open spec fn parse_ip_spec(s: Seq<char>) -> Option<IpAddress> {
    match parse_ipv4_spec(s) {
        Some(v) => Some(IpAddress::V4(v)),
        None => match parse_ipv6_spec(s) {
            Some(v) => Some(IpAddress::V6(v)),
            None => None,
        },
    }
}

/// Parses an IP address, IPv4 or IPv6.
pub fn parse_ip(s: &str) -> (r: Option<IpAddress>)
    ensures
        r == parse_ip_spec(s@),
{
    match parse_ipv4(s) {
        Some(v) => Some(IpAddress::V4(v)),
        None => match parse_ipv6(s) {
            Some(v) => Some(IpAddress::V6(v)),
            None => None,
        },
    }
}

/// Text of a prefix length no greater than `max`: one to three digits.
pub open spec fn is_prefix_len_text(s: Seq<char>, max: nat) -> bool {
    all_digits(s) && 1 <= s.len() <= 3 && dec_value(s) <= max
}

/// The allowlist rule denoted by `s`: either a single address, or an
/// address and prefix length separated by `/`.
pub open spec fn parse_rule_spec(s: Seq<char>) -> Option<AllowRule> {
    let parts = split_on(s, '/');
    if parts.len() == 1 {
        match parse_ip_spec(s) {
            Some(ip) => Some(AllowRule::Exact(ip)),
            None => None,
        }
    } else if parts.len() == 2 {
        match parse_ip_spec(parts[0]) {
            Some(ip) => {
                let max: nat = match ip {
                    IpAddress::V4(_) => 32nat,
                    IpAddress::V6(_) => 128nat,
                };
                if is_prefix_len_text(parts[1], max) {
                    Some(AllowRule::Net(ip, dec_value(parts[1]) as u8))
                } else {
                    None
                }
            },
            None => None,
        }
    } else {
        None
    }
}

/// Parses one allowlist entry.
pub fn parse_rule(s: &str) -> (r: Option<AllowRule>)
    ensures
        r == parse_rule_spec(s@),
{
    let parts = split_str(s, '/');
    if parts.len() == 1 {
        match parse_ip(s) {
            Some(ip) => Some(AllowRule::Exact(ip)),
            None => None,
        }
    } else if parts.len() == 2 {
        proof {
            assert(parts@.map_values(|x: String| x@)[0] == parts@[0]@);
            assert(parts@.map_values(|x: String| x@)[1] == parts@[1]@);
        }
        match parse_ip(parts[0].as_str()) {
            Some(ip) => {
                let max: u64 = match ip {
                    IpAddress::V4(_) => 32,
                    IpAddress::V6(_) => 128,
                };
                let ptext = parts[1].as_str();
                let plen_chars = ptext.unicode_len();
                if plen_chars == 0 || plen_chars > 3 {
                    return None;
                }
                match parse_decimal(ptext) {
                    Some(v) => {
                        if v <= max {
                            Some(AllowRule::Net(ip, v as u8))
                        } else {
                            None
                        }
                    },
                    None => {
                        proof {
                            if all_digits(ptext@) {
                                lemma_dec_value_len_bound(ptext@);
                            }
                        }
                        None
                    },
                }
            },
            None => None,
        }
    } else {
        None
    }
}

/// `addr` lies in the network of `net` with prefix length `plen` bits,
/// for 32-bit addresses.
pub open spec fn v4_in_net(addr: u32, net: u32, plen: u8) -> bool {
    plen == 0 || (addr >> ((32 - plen) as u32)) == (net >> ((32 - plen) as u32))
}

/// `addr` lies in the network of `net` with prefix length `plen` bits,
/// for 128-bit addresses.
pub open spec fn v6_in_net(addr: u128, net: u128, plen: u8) -> bool {
    plen == 0 || (addr >> ((128 - plen) as u128)) == (net >> ((128 - plen) as u128))
}

/// The rule admits the address: exact equality for a single-address rule,
/// or membership in the range for a CIDR rule of the same family.
pub open spec fn rule_admits(rule: AllowRule, ip: IpAddress) -> bool {
    match rule {
        AllowRule::Exact(a) => a == ip,
        AllowRule::Net(IpAddress::V4(n), p) => match ip {
            IpAddress::V4(x) => p <= 32 && v4_in_net(x, n, p),
            IpAddress::V6(_) => false,
        },
        AllowRule::Net(IpAddress::V6(n), p) => match ip {
            IpAddress::V6(x) => p <= 128 && v6_in_net(x, n, p),
            IpAddress::V4(_) => false,
        },
    }
}

/// Tests whether a rule admits an address.
pub fn check_rule(rule: &AllowRule, ip: &IpAddress) -> (r: bool)
    ensures
        r == rule_admits(*rule, *ip),
{
    match rule {
        AllowRule::Exact(a) => *a == *ip,
        AllowRule::Net(IpAddress::V4(n), p) => match ip {
            IpAddress::V4(x) => *p <= 32 && (*p == 0 || (*x >> ((32 - *p) as u32)) == (*n >> ((32
                - *p) as u32))),
            IpAddress::V6(_) => false,
        },
        AllowRule::Net(IpAddress::V6(n), p) => match ip {
            IpAddress::V6(x) => *p <= 128 && (*p == 0 || (*x >> ((128 - *p) as u128)) == (*n >> ((
            128 - *p) as u128))),
            IpAddress::V4(_) => false,
        },
    }
}

/// The textual allowlist entry admits the address: it parses to a rule,
/// and that rule admits the address.
pub open spec fn entry_admits(entry: Seq<char>, ip: IpAddress) -> bool {
    match parse_rule_spec(entry) {
        Some(r) => rule_admits(r, ip),
        None => false,
    }
}

/// Tests whether one textual allowlist entry admits an address.
pub fn check_entry(entry: &str, ip: &IpAddress) -> (r: bool)
    ensures
        r == entry_admits(entry@, *ip),
{
    match parse_rule(entry) {
        Some(rule) => check_rule(&rule, ip),
        None => false,
    }
}

} // verus!

verus! {

/// The character standing for a single hexadecimal digit, lower case.
pub open spec fn lower_hex_char(d: nat) -> char {
    if d < 10 {
        crate::text::digit_char(d)
    } else if d == 10 {
        'a'
    } else if d == 11 {
        'b'
    } else if d == 12 {
        'c'
    } else if d == 13 {
        'd'
    } else if d == 14 {
        'e'
    } else {
        'f'
    }
}

/// Lower-case hexadecimal rendering of a natural number, most significant
/// digit first.
pub open spec fn hexadecimal_of(n: nat) -> Seq<char>
    decreases n,
{
    if n < 16 {
        seq![lower_hex_char(n)]
    } else {
        hexadecimal_of(n / 16) + seq![lower_hex_char(n % 16)]
    }
}

/// A one-character string slice for the hexadecimal digit `d`.
fn lower_hex_str(d: u64) -> (r: &'static str)
    requires
        d < 16,
    ensures
        r@ =~= seq![lower_hex_char(d as nat)],
{
    proof {
        reveal_strlit("a");
        reveal_strlit("b");
        reveal_strlit("c");
        reveal_strlit("d");
        reveal_strlit("e");
        reveal_strlit("f");
    }
    if d < 10 {
        crate::text::digit_str(d)
    } else {
        match d {
            10 => "a",
            11 => "b",
            12 => "c",
            13 => "d",
            14 => "e",
            _ => "f",
        }
    }
}

/// Renders `n` in lower-case hexadecimal.
fn u64_to_hex_string(n: u64) -> (r: String)
    ensures
        r@ == hexadecimal_of(n as nat),
    decreases n,
{
    if n < 16 {
        String::from_str(lower_hex_str(n))
    } else {
        let mut s = u64_to_hex_string(n / 16);
        s.append(lower_hex_str(n % 16));
        s
    }
}

/// Canonical text of an address: dotted quads for IPv4; eight
/// colon-separated lower-case hexadecimal groups, uncompressed and without
/// leading zeros, for IPv6.
pub open spec fn ip_text_spec(ip: IpAddress) -> Seq<char> {
    match ip {
        IpAddress::V4(v) => crate::text::decimal_of(((v >> 24) as u8) as nat) + seq!['.']
            + crate::text::decimal_of(((v >> 16) as u8) as nat) + seq!['.']
            + crate::text::decimal_of(((v >> 8) as u8) as nat) + seq!['.']
            + crate::text::decimal_of((v as u8) as nat),
        IpAddress::V6(v) => hexadecimal_of(((v >> 112) as u16) as nat) + seq![':']
            + hexadecimal_of(((v >> 96) as u16) as nat) + seq![':'] + hexadecimal_of(
            ((v >> 80) as u16) as nat,
        ) + seq![':'] + hexadecimal_of(((v >> 64) as u16) as nat) + seq![':'] + hexadecimal_of(
            ((v >> 48) as u16) as nat,
        ) + seq![':'] + hexadecimal_of(((v >> 32) as u16) as nat) + seq![':'] + hexadecimal_of(
            ((v >> 16) as u16) as nat,
        ) + seq![':'] + hexadecimal_of((v as u16) as nat),
    }
}

/// Renders an address as text.
pub fn ip_to_string(ip: &IpAddress) -> (r: String)
    ensures
        r@ == ip_text_spec(*ip),
{
    match ip {
        IpAddress::V4(v) => {
            let v = *v;
            let mut s = crate::text::u64_to_string((#[verifier::truncate] ((v >> 24) as u8)) as u64);
            s.append(".");
            s.append(crate::text::u64_to_string((#[verifier::truncate] ((v >> 16) as u8)) as u64).as_str());
            s.append(".");
            s.append(crate::text::u64_to_string((#[verifier::truncate] ((v >> 8) as u8)) as u64).as_str());
            s.append(".");
            s.append(crate::text::u64_to_string((#[verifier::truncate] (v as u8)) as u64).as_str());
            proof {
                reveal_strlit(".");
            }
            s
        },
        IpAddress::V6(v) => {
            let v = *v;
            let mut s = u64_to_hex_string((#[verifier::truncate] ((v >> 112) as u16)) as u64);
            s.append(":");
            s.append(u64_to_hex_string((#[verifier::truncate] ((v >> 96) as u16)) as u64).as_str());
            s.append(":");
            s.append(u64_to_hex_string((#[verifier::truncate] ((v >> 80) as u16)) as u64).as_str());
            s.append(":");
            s.append(u64_to_hex_string((#[verifier::truncate] ((v >> 64) as u16)) as u64).as_str());
            s.append(":");
            s.append(u64_to_hex_string((#[verifier::truncate] ((v >> 48) as u16)) as u64).as_str());
            s.append(":");
            s.append(u64_to_hex_string((#[verifier::truncate] ((v >> 32) as u16)) as u64).as_str());
            s.append(":");
            s.append(u64_to_hex_string((#[verifier::truncate] ((v >> 16) as u16)) as u64).as_str());
            s.append(":");
            s.append(u64_to_hex_string((#[verifier::truncate] (v as u16)) as u64).as_str());
            proof {
                reveal_strlit(":");
            }
            s
        },
    }
}

} // verus!

//! Network addresses and their textual forms.
//!
//! A text is an address when it is a dotted quad (`192.0.2.1`) or one of the
//! colon-separated forms of a 128-bit address (`2001:db8::1`,
//! `::ffff:192.0.2.1`). The grammar is stated over bytes by the spec functions
//! of this module; [`parse`] decides it for a string. The module `forms`
//! shows which texts the grammar takes.
use vstd::prelude::*;

verus! {

/// A validated IPv4 or IPv6 address.
///
/// `V4` holds the four octets, `V6` the eight 16-bit groups, both in the
/// order in which they are written.
#[derive(Clone, Copy, Debug, PartialEq, Eq)]
pub enum Address {
    V4([u8; 4]),
    V6([u16; 8]),
}

/// The byte `.`, which separates the octets of a dotted quad.
pub const DOT: u8 = 46;

/// The byte `:`, which separates the groups of a 128-bit address.
pub const COLON: u8 = 58;

/// The value of a byte read as a hexadecimal digit, in either case.
pub open spec fn digit_value(b: u8) -> Option<nat> {
    if 48 <= b <= 57 {
        Some((b - 48) as nat)
    } else if 97 <= b <= 102 {
        Some((b - 87) as nat)
    } else if 65 <= b <= 70 {
        Some((b - 55) as nat)
    } else {
        None
    }
}

/// Whether every byte of `s` is a digit below `radix`.
pub open spec fn all_digits(s: Seq<u8>, radix: nat) -> bool {
    forall|i: int| 0 <= i < s.len() ==> (#[trigger] digit_value(s[i])) is Some && digit_value(s[i])->0 < radix
}

/// The number that the digits of `s` write in the given radix, the first
/// digit being the most significant.
pub open spec fn number(s: Seq<u8>, radix: nat) -> nat
    decreases s.len(),
{
    if s.len() == 0 {
        0
    } else {
        let d = match digit_value(s.last()) {
            Some(d) => d,
            None => 0,
        };
        number(s.drop_last(), radix) * radix + d
    }
}

/// One octet of a dotted quad: one to three decimal digits, without a
/// leading zero unless the octet is `0` itself, writing at most 255.
pub open spec fn is_octet(s: Seq<u8>) -> bool {
    &&& 1 <= s.len() <= 3
    &&& all_digits(s, 10)
    &&& (s.len() > 1 ==> s[0] != 48)
    &&& number(s, 10) <= 255
}

/// One group of a 128-bit address: one to four hexadecimal digits.
pub open spec fn is_group(s: Seq<u8>) -> bool {
    &&& 1 <= s.len() <= 4
    &&& all_digits(s, 16)
}

/// The index of the first `sep` in `s`, or the length of `s` if there is none.
pub open spec fn first(s: Seq<u8>, sep: u8) -> int
    decreases s.len(),
{
    if s.len() == 0 || s[0] == sep {
        0
    } else {
        1 + first(s.drop_first(), sep)
    }
}

/// The fields of `s`: the runs of bytes between its separators. A text
/// without a separator is one field; an empty text is one empty field.
pub open spec fn split(s: Seq<u8>, sep: u8) -> Seq<Seq<u8>>
    decreases s.len(),
{
    let i = first(s, sep);
    if 0 <= i < s.len() {
        seq![s.subrange(0, i)] + split(s.subrange(i + 1, s.len() as int), sep)
    } else {
        seq![s]
    }
}

/// The four octets that a dotted quad writes, if `s` is one: exactly four
/// fields between dots, each an octet.
pub open spec fn quad(s: Seq<u8>) -> Option<(u8, u8, u8, u8)> {
    let f = split(s, DOT);
    if f.len() == 4 && is_octet(f[0]) && is_octet(f[1]) && is_octet(f[2]) && is_octet(f[3]) {
        Some(
            (
                number(f[0], 10) as u8,
                number(f[1], 10) as u8,
                number(f[2], 10) as u8,
                number(f[3], 10) as u8,
            ),
        )
    } else {
        None
    }
}

/// The 16-bit group made of two octets, the first being the high one.
pub open spec fn pair(high: u8, low: u8) -> u16 {
    (high * 256 + low) as u16
}

/// The groups that the fields write, if every field is a group.
pub open spec fn groups_of(fields: Seq<Seq<u8>>) -> Option<Seq<u16>> {
    if forall|i: int| 0 <= i < fields.len() ==> is_group(#[trigger] fields[i]) {
        Some(Seq::new(fields.len(), |i: int| number(fields[i], 16) as u16))
    } else {
        None
    }
}

/// The groups that the fields write, where the last field may be a dotted
/// quad, which stands for two groups.
pub open spec fn units_of(fields: Seq<Seq<u8>>) -> Option<Seq<u16>> {
    if fields.len() > 0 && quad(fields.last()) is Some {
        let q = quad(fields.last())->0;
        match groups_of(fields.drop_last()) {
            Some(g) => Some(g.push(pair(q.0, q.1)).push(pair(q.2, q.3))),
            None => None,
        }
    } else {
        groups_of(fields)
    }
}

/// The groups of one side of `::`. An empty side has none; otherwise the
/// side is split at its colons, and only the right side may end in a
/// dotted quad.
pub open spec fn side(s: Seq<u8>, quad_allowed: bool) -> Option<Seq<u16>> {
    if s.len() == 0 {
        Some(Seq::empty())
    } else if quad_allowed {
        units_of(split(s, COLON))
    } else {
        groups_of(split(s, COLON))
    }
}

/// Whether two colons stand side by side at index `i` of `s`.
pub open spec fn pair_at(s: Seq<u8>, i: int) -> bool {
    0 <= i && i + 1 < s.len() && s[i] == COLON && s[i + 1] == COLON
}

/// Whether `i` is the first index of `s` at which two colons stand side by
/// side.
pub open spec fn first_pair_at(s: Seq<u8>, i: int) -> bool {
    pair_at(s, i) && forall|j: int| 0 <= j < i ==> !pair_at(s, j)
}

/// The first index at which two colons stand side by side, if any.
pub open spec fn first_pair(s: Seq<u8>) -> Option<int> {
    if exists|i: int| first_pair_at(s, i) {
        Some(choose|i: int| first_pair_at(s, i))
    } else {
        None
    }
}

/// The gap of a compressed address: `n` zero groups.
pub open spec fn zeros(n: nat) -> Seq<u16> {
    Seq::new(n, |i: int| 0u16)
}

/// The eight groups that `s` writes, if it is a textual 128-bit address.
///
/// Without `::` the text is one side that holds eight groups, the last two
/// of which may be written as a dotted quad. With `::`, the text is cut at
/// its first `::`; the sides hold at most seven groups together, and the
/// gap is filled with zero groups.
pub open spec fn groups(s: Seq<u8>) -> Option<Seq<u16>> {
    match first_pair(s) {
        None => match side(s, true) {
            Some(u) => if u.len() == 8 {
                Some(u)
            } else {
                None
            },
            None => None,
        },
        Some(p) => match (side(s.subrange(0, p), false), side(s.subrange(p + 2, s.len() as int), true)) {
            (Some(h), Some(t)) => if h.len() + t.len() <= 7 {
                Some(h + zeros((8 - h.len() - t.len()) as nat) + t)
            } else {
                None
            },
            _ => None,
        },
    }
}

/// The address that the bytes `s` write, if any.
pub open spec fn address_of(s: Seq<u8>) -> Option<Address> {
    match quad(s) {
        Some(q) => Some(Address::V4([q.0, q.1, q.2, q.3])),
        None => match groups(s) {
            Some(g) => Some(Address::V6([g[0], g[1], g[2], g[3], g[4], g[5], g[6], g[7]])),
            None => None,
        },
    }
}

/// The bytes of an ASCII text.
pub open spec fn ascii_bytes(text: Seq<char>) -> Seq<u8> {
    Seq::new(text.len(), |i: int| text[i] as u8)
}

/// The address that a text writes, if any. Every character of an address
/// is ASCII, so a text with any other character writes none.
pub open spec fn parse_address(text: Seq<char>) -> Option<Address> {
    if vstd::utf8::is_ascii_chars(text) {
        address_of(ascii_bytes(text))
    } else {
        None
    }
}

/// A text that holds a character beyond ASCII writes no address.
pub proof fn lemma_address_is_ascii(text: Seq<char>, i: int)
    requires
        0 <= i < text.len(),
        text[i] > '\u{7f}',
    ensures
        parse_address(text) is None,
{
}

/// `first` is the index `k` before which no separator stands and at which
/// one does, or the text ends.
pub proof fn lemma_first(s: Seq<u8>, sep: u8, k: int)
    requires
        0 <= k <= s.len(),
        forall|j: int| 0 <= j < k ==> s[j] != sep,
        k < s.len() ==> s[k] == sep,
    ensures
        first(s, sep) == k,
    decreases k,
{
    if k > 0 {
        lemma_first(s.drop_first(), sep, k - 1);
    }
}

/// One step of `split`, for a text that is a window of `b`.
proof fn lemma_split_at(b: Seq<u8>, lo: int, e: int, hi: int, sep: u8)
    requires
        0 <= lo <= e <= hi <= b.len(),
        e - lo == first(b.subrange(lo, hi), sep),
    ensures
        e < hi ==> split(b.subrange(lo, hi), sep) == seq![b.subrange(lo, e)] + split(
            b.subrange(e + 1, hi),
            sep,
        ),
        e == hi ==> split(b.subrange(lo, hi), sep) == seq![b.subrange(lo, hi)],
{
    let s = b.subrange(lo, hi);
    if e < hi {
        assert(s.subrange(0, e - lo) =~= b.subrange(lo, e));
        assert(s.subrange(e - lo + 1, s.len() as int) =~= b.subrange(e + 1, hi));
    }
}

/// A text always has at least one field.
proof fn lemma_split_nonempty(s: Seq<u8>, sep: u8)
    ensures
        split(s, sep).len() >= 1,
{
}

/// A group holds no dot, so it is no dotted quad.
proof fn lemma_group_not_quad(s: Seq<u8>)
    requires
        is_group(s),
    ensures
        quad(s) is None,
{
    assert forall|j: int| 0 <= j < s.len() implies s[j] != DOT by {
        assert(digit_value(s[j]) is Some);
    }
    lemma_first(s, DOT, s.len() as int);
}

/// The end of the field that starts at `lo`: the index of the first `sep`
/// in `b[lo..hi]`, or `hi`.
fn scan(b: &[u8], lo: usize, hi: usize, sep: u8) -> (e: usize)
    requires
        lo <= hi <= b.len(),
    ensures
        lo <= e <= hi,
        e - lo == first(b@.subrange(lo as int, hi as int), sep),
{
    let mut e: usize = lo;
    while e < hi && b[e] != sep
        invariant
            lo <= e <= hi <= b.len(),
            forall|j: int| lo <= j < e ==> b@[j] != sep,
        decreases hi - e,
    {
        e = e + 1;
    }
    proof {
        lemma_first(b@.subrange(lo as int, hi as int), sep, e - lo);
    }
    e
}

/// The value of a byte as a digit below `radix`, for radix 10 or 16.
fn digit(b: u8, radix: u32) -> (r: Option<u32>)
    requires
        radix == 10 || radix == 16,
    ensures
        match r {
            Some(d) => digit_value(b) == Some(d as nat) && d < radix,
            None => digit_value(b) is None || digit_value(b)->0 >= radix,
        },
{
    if 48 <= b && b <= 57 {
        Some((b - 48) as u32)
    } else if radix == 16 && 97 <= b && b <= 102 {
        Some((b - 87) as u32)
    } else if radix == 16 && 65 <= b && b <= 70 {
        Some((b - 55) as u32)
    } else {
        None
    }
}

/// Reads `b[lo..hi]` as a number of at most four digits.
fn digits(b: &[u8], lo: usize, hi: usize, radix: u32) -> (r: Option<u32>)
    requires
        lo <= hi <= b.len(),
        hi - lo <= 4,
        radix == 10 || radix == 16,
    ensures
        match r {
            Some(v) => all_digits(b@.subrange(lo as int, hi as int), radix as nat) && v == number(
                b@.subrange(lo as int, hi as int),
                radix as nat,
            ),
            None => !all_digits(b@.subrange(lo as int, hi as int), radix as nat),
        },
{
    let ghost s = b@.subrange(lo as int, hi as int);
    let mut acc: u32 = 0;
    let mut i: usize = lo;
    while i < hi
        invariant
            lo <= i <= hi <= b.len(),
            hi - lo <= 4,
            radix == 10 || radix == 16,
            s == b@.subrange(lo as int, hi as int),
            all_digits(s.subrange(0, i - lo), radix as nat),
            acc == number(s.subrange(0, i - lo), radix as nat),
            i - lo == 0 ==> acc == 0,
            i - lo == 1 ==> acc < 16,
            i - lo == 2 ==> acc < 256,
            i - lo == 3 ==> acc < 4096,
        decreases hi - i,
    {
        match digit(b[i], radix) {
            None => {
                assert(s[i - lo] == b@[i as int]);
                return None;
            },
            Some(d) => {
                proof {
                    let next = s.subrange(0, i - lo + 1);
                    assert(next.drop_last() =~= s.subrange(0, i - lo));
                    assert(next.last() == b@[i as int]);
                    assert forall|j: int| 0 <= j < next.len() implies (#[trigger] digit_value(
                        next[j],
                    )) is Some && digit_value(next[j])->0 < radix by {
                        if j < i - lo {
                            assert(next[j] == s.subrange(0, i - lo)[j]);
                        }
                    }
                }
                acc = acc * radix + d;
                i = i + 1;
            },
        }
    }
    proof {
        assert(s.subrange(0, hi - lo) =~= s);
    }
    Some(acc)
}

/// Reads `b[lo..hi]` as one octet of a dotted quad.
fn octet(b: &[u8], lo: usize, hi: usize) -> (r: Option<u8>)
    requires
        lo <= hi <= b.len(),
    ensures
        match r {
            Some(v) => is_octet(b@.subrange(lo as int, hi as int)) && v == number(
                b@.subrange(lo as int, hi as int),
                10,
            ),
            None => !is_octet(b@.subrange(lo as int, hi as int)),
        },
{
    let len: usize = hi - lo;
    if len < 1 || len > 3 {
        return None;
    }
    if len > 1 && b[lo] == 48 {
        return None;
    }
    match digits(b, lo, hi, 10) {
        Some(v) => if v <= 255 {
            Some(v as u8)
        } else {
            None
        },
        None => None,
    }
}

/// Reads `b[lo..hi]` as one group of a 128-bit address.
fn group(b: &[u8], lo: usize, hi: usize) -> (r: Option<u16>)
    requires
        lo <= hi <= b.len(),
    ensures
        match r {
            Some(v) => is_group(b@.subrange(lo as int, hi as int)) && v == number(
                b@.subrange(lo as int, hi as int),
                16,
            ),
            None => !is_group(b@.subrange(lo as int, hi as int)),
        },
{
    let len: usize = hi - lo;
    if len < 1 || len > 4 {
        return None;
    }
    match digits(b, lo, hi, 16) {
        Some(v) => {
            proof {
                lemma_number_below(b@.subrange(lo as int, hi as int));
            }
            Some(v as u16)
        },
        None => None,
    }
}

/// Four hexadecimal digits write a number below 65536.
proof fn lemma_number_below(s: Seq<u8>)
    requires
        s.len() <= 4,
        all_digits(s, 16),
    ensures
        number(s, 16) < 65536,
{
    let s0 = s.subrange(0, 0);
    assert(number(s0, 16) == 0);
    if s.len() >= 1 {
        let s1 = s.subrange(0, 1);
        assert(s1.drop_last() =~= s0);
        assert(digit_value(s[0]) is Some);
        assert(number(s1, 16) < 16);
        if s.len() >= 2 {
            let s2 = s.subrange(0, 2);
            assert(s2.drop_last() =~= s1);
            assert(digit_value(s[1]) is Some);
            assert(number(s2, 16) < 256);
            if s.len() >= 3 {
                let s3 = s.subrange(0, 3);
                assert(s3.drop_last() =~= s2);
                assert(digit_value(s[2]) is Some);
                assert(number(s3, 16) < 4096);
                if s.len() >= 4 {
                    let s4 = s.subrange(0, 4);
                    assert(s4.drop_last() =~= s3);
                    assert(digit_value(s[3]) is Some);
                    assert(s4 =~= s);
                } else {
                    assert(s3 =~= s);
                }
            } else {
                assert(s2 =~= s);
            }
        } else {
            assert(s1 =~= s);
        }
    } else {
        assert(s0 =~= s);
    }
}

/// Reads `b[lo..hi]` as a dotted quad.
fn dotted_quad(b: &[u8], lo: usize, hi: usize) -> (r: Option<(u8, u8, u8, u8)>)
    requires
        lo <= hi <= b.len(),
    ensures
        r == quad(b@.subrange(lo as int, hi as int)),
{
    let e0 = scan(b, lo, hi, DOT);
    proof {
        lemma_split_at(b@, lo as int, e0 as int, hi as int, DOT);
    }
    if e0 == hi {
        return None;
    }
    let e1 = scan(b, e0 + 1, hi, DOT);
    proof {
        lemma_split_at(b@, e0 + 1, e1 as int, hi as int, DOT);
    }
    if e1 == hi {
        return None;
    }
    let e2 = scan(b, e1 + 1, hi, DOT);
    proof {
        lemma_split_at(b@, e1 + 1, e2 as int, hi as int, DOT);
    }
    if e2 == hi {
        return None;
    }
    let e3 = scan(b, e2 + 1, hi, DOT);
    proof {
        lemma_split_at(b@, e2 + 1, e3 as int, hi as int, DOT);
        if e3 < hi {
            lemma_split_nonempty(b@.subrange(e3 + 1, hi as int), DOT);
        }
    }
    if e3 != hi {
        return None;
    }
    let o0 = octet(b, lo, e0);
    let o1 = octet(b, e0 + 1, e1);
    let o2 = octet(b, e1 + 1, e2);
    let o3 = octet(b, e2 + 1, hi);
    match (o0, o1, o2, o3) {
        (Some(a), Some(b), Some(c), Some(d)) => Some((a, b, c, d)),
        _ => None,
    }
}

/// The 16-bit group made of two octets, the first being the high one.
fn pair_of(high: u8, low: u8) -> (r: u16)
    ensures
        r == pair(high, low),
{
    let h: u16 = high as u16;
    let l: u16 = low as u16;
    h * 256 + l
}

/// Reads `b[lo..hi]` as one side of `::`.
fn side_units(b: &[u8], lo: usize, hi: usize, quad_allowed: bool) -> (r: Option<Vec<u16>>)
    requires
        lo <= hi <= b.len(),
    ensures
        match side(b@.subrange(lo as int, hi as int), quad_allowed) {
            Some(u) => r is Some && r->0@ == u,
            None => r is None,
        },
{
    let mut out: Vec<u16> = Vec::new();
    if lo == hi {
        return Some(out);
    }
    let ghost all = split(b@.subrange(lo as int, hi as int), COLON);
    let ghost done: Seq<Seq<u8>> = Seq::empty();
    let mut pos: usize = lo;
    loop
        invariant
            lo <= pos <= hi <= b.len(),
            lo < hi,
            all == split(b@.subrange(lo as int, hi as int), COLON),
            all == done + split(b@.subrange(pos as int, hi as int), COLON),
            groups_of(done) == Some(out@),
        decreases hi - pos,
    {
        let e = scan(b, pos, hi, COLON);
        let ghost field = b@.subrange(pos as int, e as int);
        proof {
            lemma_split_at(b@, pos as int, e as int, hi as int, COLON);
        }
        if e < hi {
            proof {
                lemma_split_nonempty(b@.subrange(e + 1, hi as int), COLON);
                assert(all[done.len() as int] == field);
                assert(all.drop_last()[done.len() as int] == field);
            }
            match group(b, pos, e) {
                None => {
                    return None;
                },
                Some(g) => {
                    out.push(g);
                    proof {
                        let next = done.push(field);
                        assert(groups_of(next) == Some(out@)) by {
                            assert forall|i: int| 0 <= i < next.len() implies is_group(
                                #[trigger] next[i],
                            ) by {
                                if i < done.len() {
                                    assert(next[i] == done[i]);
                                }
                            }
                            assert(groups_of(next)->0 =~= out@);
                        }
                        assert(next + split(b@.subrange(e + 1, hi as int), COLON) =~= all);
                        done = next;
                    }
                    pos = e + 1;
                },
            }
        } else {
            proof {
                assert(all =~= done.push(field));
                assert(all.last() == field);
                assert(all.drop_last() =~= done);
            }
            match group(b, pos, hi) {
                Some(g) => {
                    out.push(g);
                    proof {
                        lemma_group_not_quad(field);
                        assert forall|i: int| 0 <= i < all.len() implies is_group(
                            #[trigger] all[i],
                        ) by {
                            if i < done.len() {
                                assert(all[i] == done[i]);
                            }
                        }
                        assert(groups_of(all)->0 =~= out@);
                    }
                    return Some(out);
                },
                None => {
                    if !quad_allowed {
                        return None;
                    }
                    match dotted_quad(b, pos, hi) {
                        Some(q) => {
                            out.push(pair_of(q.0, q.1));
                            out.push(pair_of(q.2, q.3));
                            return Some(out);
                        },
                        None => {
                            return None;
                        },
                    }
                },
            }
        }
    }
}

/// The first index of `b` at which two colons stand side by side.
fn find_pair(b: &[u8]) -> (r: Option<usize>)
    ensures
        match r {
            Some(p) => first_pair(b@) == Some(p as int) && p + 2 <= b.len(),
            None => first_pair(b@) is None,
        },
{
    if b.len() < 2 {
        return None;
    }
    let last: usize = b.len() - 1;
    let mut i: usize = 0;
    while i < last
        invariant
            last == b.len() - 1,
            i <= last,
            forall|j: int| 0 <= j < i ==> !pair_at(b@, j),
        decreases last - i,
    {
        if b[i] == COLON && b[i + 1] == COLON {
            proof {
                assert(first_pair_at(b@, i as int));
                let c = choose|c: int| first_pair_at(b@, c);
                assert(first_pair_at(b@, c));
                if c < i {
                    assert(!pair_at(b@, c));
                }
                if i < c {
                    assert(!pair_at(b@, i as int));
                }
            }
            return Some(i);
        }
        i = i + 1;
    }
    proof {
        assert forall|c: int| !first_pair_at(b@, c) by {
            if pair_at(b@, c) {
                assert(c < i);
            }
        }
    }
    None
}

/// Reads `b` as a textual 128-bit address.
fn address_groups(b: &[u8]) -> (r: Option<Vec<u16>>)
    ensures
        match groups(b@) {
            Some(g) => r is Some && r->0@ == g,
            None => r is None,
        },
{
    match find_pair(b) {
        None => {
            proof {
                assert(b@.subrange(0, b.len() as int) =~= b@);
            }
            match side_units(b, 0, b.len(), true) {
                Some(u) => if u.len() == 8 {
                    Some(u)
                } else {
                    None
                },
                None => None,
            }
        },
        Some(p) => {
            let head = side_units(b, 0, p, false);
            let tail = side_units(b, p + 2, b.len(), true);
            match (head, tail) {
                (Some(h), Some(t)) => {
                    if h.len() > 7 || t.len() > 7 - h.len() {
                        return None;
                    }
                    let gap: usize = 8 - h.len() - t.len();
                    let ghost filler = zeros(gap as nat);
                    let mut out: Vec<u16> = h;
                    let ghost front = out@;
                    let mut k: usize = 0;
                    while k < gap
                        invariant
                            k <= gap,
                            filler == zeros(gap as nat),
                            out@ == front + filler.subrange(0, k as int),
                        decreases gap - k,
                    {
                        out.push(0);
                        k = k + 1;
                        proof {
                            assert(out@ =~= front + filler.subrange(0, k as int));
                        }
                    }
                    let mut j: usize = 0;
                    while j < t.len()
                        invariant
                            j <= t.len(),
                            out@ == front + filler + t@.subrange(0, j as int),
                        decreases t.len() - j,
                    {
                        out.push(t[j]);
                        j = j + 1;
                        proof {
                            assert(out@ =~= front + filler + t@.subrange(0, j as int));
                        }
                    }
                    proof {
                        assert(t@.subrange(0, t.len() as int) =~= t@);
                    }
                    Some(out)
                },
                _ => None,
            }
        },
    }
}

/// Reads the bytes `b` as an address.
pub fn parse_bytes(b: &[u8]) -> (r: Option<Address>)
    ensures
        r == address_of(b@),
{
    proof {
        assert(b@.subrange(0, b.len() as int) =~= b@);
    }
    match dotted_quad(b, 0, b.len()) {
        Some(q) => Some(Address::V4([q.0, q.1, q.2, q.3])),
        None => match address_groups(b) {
            Some(g) => Some(Address::V6([g[0], g[1], g[2], g[3], g[4], g[5], g[6], g[7]])),
            None => None,
        },
    }
}

/// Reads a text as an address: a dotted quad, or a textual 128-bit
/// address. Any other text, the empty one included, gives `None`.
pub fn parse(text: &str) -> (r: Option<Address>)
    ensures
        r == parse_address(text@),
{
    if !text.is_ascii() {
        return None;
    }
    let b = text.as_bytes();
    proof {
        vstd::string::is_ascii_spec_bytes(text);
        assert(b@ =~= ascii_bytes(text@));
    }
    parse_bytes(b)
}

} // verus!

//! The texts that write an address.
//!
//! The grammar cuts a text into fields. This module goes the other way: it
//! joins fields into a text and shows that the grammar reads the text as
//! those fields. A dotted quad is exactly the dotted decimal text of four
//! octets; eight groups with colons between them, and the forms with `::`,
//! are read as the groups that they are made of.
use vstd::prelude::*;
use crate::address::{
    digit_value, first, first_pair, first_pair_at, groups, groups_of, is_group, is_octet,
    lemma_first, number, pair_at, quad, side, split, units_of, zeros, COLON, DOT,
};

verus! {

/// The text that holds the given fields with one `sep` between each two.
pub open spec fn join(fields: Seq<Seq<u8>>, sep: u8) -> Seq<u8>
    decreases fields.len(),
{
    if fields.len() == 0 {
        Seq::empty()
    } else if fields.len() == 1 {
        fields[0]
    } else {
        fields[0] + seq![sep] + join(fields.drop_first(), sep)
    }
}

/// Whether no byte of `s` is `sep`.
pub open spec fn free_of(s: Seq<u8>, sep: u8) -> bool {
    forall|i: int| 0 <= i < s.len() ==> s[i] != sep
}

/// The decimal digits of `n`, without leading zeros.
pub open spec fn decimal_bytes(n: nat) -> Seq<u8>
    decreases n,
{
    if n < 10 {
        seq![(48 + n) as u8]
    } else {
        decimal_bytes(n / 10).push((48 + n % 10) as u8)
    }
}

/// The dotted decimal text of four octets.
pub open spec fn dotted(a: u8, b: u8, c: u8, d: u8) -> Seq<u8> {
    join(
        seq![
            decimal_bytes(a as nat),
            decimal_bytes(b as nat),
            decimal_bytes(c as nat),
            decimal_bytes(d as nat),
        ],
        DOT,
    )
}

/// `first` lies within the text; no separator stands before it, and one
/// stands at it unless it is the end of the text.
pub proof fn lemma_first_is_first(s: Seq<u8>, sep: u8)
    ensures
        0 <= first(s, sep) <= s.len(),
        forall|j: int| 0 <= j < first(s, sep) ==> s[j] != sep,
        first(s, sep) < s.len() ==> s[first(s, sep)] == sep,
    decreases s.len(),
{
    if s.len() > 0 && s[0] != sep {
        let rest = s.drop_first();
        lemma_first_is_first(rest, sep);
        assert forall|j: int| 0 <= j < first(s, sep) implies s[j] != sep by {
            if j > 0 {
                assert(s[j] == rest[j - 1]);
            }
        }
    }
}

/// The fields of a text hold no separator, and joined they give the text
/// back.
pub proof fn lemma_join_split(s: Seq<u8>, sep: u8)
    ensures
        split(s, sep).len() >= 1,
        forall|k: int| 0 <= k < split(s, sep).len() ==> free_of(#[trigger] split(s, sep)[k], sep),
        join(split(s, sep), sep) == s,
    decreases s.len(),
{
    lemma_first_is_first(s, sep);
    let i = first(s, sep);
    if i < s.len() {
        let head = s.subrange(0, i);
        let rest = s.subrange(i + 1, s.len() as int);
        lemma_join_split(rest, sep);
        let fields = split(s, sep);
        assert(fields.drop_first() =~= split(rest, sep));
        assert(fields[0] == head);
        assert forall|k: int| 0 <= k < fields.len() implies free_of(#[trigger] fields[k], sep) by {
            if k > 0 {
                assert(fields[k] == split(rest, sep)[k - 1]);
            }
        }
        assert(head + seq![sep] + rest =~= s);
    } else {
        assert(split(s, sep) =~= seq![s]);
    }
}

/// Fields that hold no separator are the fields of their joined text: a
/// text has one list of fields only.
pub proof fn lemma_split_join(fields: Seq<Seq<u8>>, sep: u8)
    requires
        fields.len() >= 1,
        forall|k: int| 0 <= k < fields.len() ==> free_of(#[trigger] fields[k], sep),
    ensures
        split(join(fields, sep), sep) == fields,
    decreases fields.len(),
{
    let s = join(fields, sep);
    assert(free_of(fields[0], sep));
    if fields.len() == 1 {
        lemma_first(s, sep, s.len() as int);
        assert(split(s, sep) =~= fields);
    } else {
        let rest = fields.drop_first();
        assert forall|k: int| 0 <= k < rest.len() implies free_of(#[trigger] rest[k], sep) by {
            assert(rest[k] == fields[k + 1]);
        }
        lemma_split_join(rest, sep);
        let k = fields[0].len() as int;
        lemma_first(s, sep, k);
        assert(s.subrange(0, k) =~= fields[0]);
        assert(s.subrange(k + 1, s.len() as int) =~= join(rest, sep));
        assert(split(s, sep) =~= fields);
    }
}

/// The number that a text with one more digit writes.
proof fn lemma_number_push(s: Seq<u8>, b: u8, radix: nat)
    requires
        digit_value(b) is Some,
    ensures
        number(s.push(b), radix) == number(s, radix) * radix + digit_value(b)->0,
{
    assert(s.push(b).drop_last() =~= s);
}

/// The decimal digits of an octet are an octet that writes it.
pub proof fn lemma_decimal_is_octet(n: nat)
    requires
        n <= 255,
    ensures
        is_octet(decimal_bytes(n)),
        number(decimal_bytes(n), 10) == n,
        free_of(decimal_bytes(n), DOT),
{
    reveal_with_fuel(decimal_bytes, 3);
    let empty = Seq::<u8>::empty();
    assert(number(empty, 10) == 0);
    if n < 10 {
        assert(decimal_bytes(n) =~= empty.push((48 + n) as u8));
        lemma_number_push(empty, (48 + n) as u8, 10);
    } else if n < 100 {
        let one = empty.push((48 + n / 10) as u8);
        assert(decimal_bytes(n / 10) =~= one);
        lemma_number_push(empty, (48 + n / 10) as u8, 10);
        lemma_number_push(one, (48 + n % 10) as u8, 10);
    } else {
        let one = empty.push((48 + n / 100) as u8);
        let two = one.push((48 + (n / 10) % 10) as u8);
        assert(decimal_bytes(n / 10 / 10) =~= one);
        assert(decimal_bytes(n / 10) =~= two);
        lemma_number_push(empty, (48 + n / 100) as u8, 10);
        lemma_number_push(one, (48 + (n / 10) % 10) as u8, 10);
        lemma_number_push(two, (48 + n % 10) as u8, 10);
    }
}

/// An octet is the decimal digits of the number that it writes.
pub proof fn lemma_octet_is_decimal(s: Seq<u8>)
    requires
        is_octet(s),
    ensures
        s == decimal_bytes(number(s, 10)),
{
    reveal_with_fuel(decimal_bytes, 3);
    let empty = Seq::<u8>::empty();
    assert(number(empty, 10) == 0);
    assert(digit_value(s[0]) is Some);
    let one = empty.push(s[0]);
    lemma_number_push(empty, s[0], 10);
    if s.len() == 1 {
        assert(s =~= one);
    } else {
        assert(digit_value(s[1]) is Some);
        let two = one.push(s[1]);
        lemma_number_push(one, s[1], 10);
        if s.len() == 2 {
            assert(s =~= two);
            assert(decimal_bytes(number(s, 10)) =~= two);
        } else {
            assert(digit_value(s[2]) is Some);
            let three = two.push(s[2]);
            lemma_number_push(two, s[2], 10);
            assert(s =~= three);
            assert(decimal_bytes(number(s, 10)) =~= three);
        }
    }
}

/// A text is a dotted quad exactly when it is the dotted decimal text of
/// four octets, and these are the octets that it writes.
pub proof fn lemma_quad_is_dotted(s: Seq<u8>, a: u8, b: u8, c: u8, d: u8)
    ensures
        quad(s) == Some((a, b, c, d)) <==> s == dotted(a, b, c, d),
{
    let fields = seq![
        decimal_bytes(a as nat),
        decimal_bytes(b as nat),
        decimal_bytes(c as nat),
        decimal_bytes(d as nat),
    ];
    lemma_decimal_is_octet(a as nat);
    lemma_decimal_is_octet(b as nat);
    lemma_decimal_is_octet(c as nat);
    lemma_decimal_is_octet(d as nat);
    if quad(s) == Some((a, b, c, d)) {
        let f = split(s, DOT);
        lemma_join_split(s, DOT);
        lemma_octet_is_decimal(f[0]);
        lemma_octet_is_decimal(f[1]);
        lemma_octet_is_decimal(f[2]);
        lemma_octet_is_decimal(f[3]);
        assert(f =~= fields);
    }
    if s == dotted(a, b, c, d) {
        lemma_split_join(fields, DOT);
    }
}

/// Whether every field is a piece of a colon-separated text: not empty,
/// and without a colon.
pub open spec fn pieces(fields: Seq<Seq<u8>>) -> bool {
    forall|k: int| 0 <= k < fields.len() ==> (#[trigger] fields[k]).len() >= 1 && free_of(fields[k], COLON)
}

/// Joined fields hold a byte only if a field holds it or it is the
/// separator.
proof fn lemma_join_free(fields: Seq<Seq<u8>>, sep: u8, c: u8)
    requires
        sep != c,
        forall|k: int| 0 <= k < fields.len() ==> free_of(#[trigger] fields[k], c),
    ensures
        free_of(join(fields, sep), c),
    decreases fields.len(),
{
    if fields.len() == 1 {
        assert(free_of(fields[0], c));
    } else if fields.len() > 1 {
        let rest = fields.drop_first();
        assert forall|k: int| 0 <= k < rest.len() implies free_of(#[trigger] rest[k], c) by {
            assert(rest[k] == fields[k + 1]);
        }
        lemma_join_free(rest, sep, c);
        assert(free_of(fields[0], c));
    }
}

/// Groups, and a dotted quad at the end, are pieces.
proof fn lemma_units_are_pieces(fields: Seq<Seq<u8>>)
    requires
        units_of(fields) is Some,
    ensures
        pieces(fields),
{
    assert forall|k: int| 0 <= k < fields.len() implies (#[trigger] fields[k]).len() >= 1 && free_of(
        fields[k],
        COLON,
    ) by {
        let f = fields[k];
        if quad(fields.last()) is Some && k == fields.len() - 1 {
            let parts = split(f, DOT);
            lemma_join_split(f, DOT);
            assert forall|i: int| 0 <= i < parts.len() implies free_of(#[trigger] parts[i], COLON) by {
                assert(is_octet(parts[i]));
                assert forall|j: int| 0 <= j < parts[i].len() implies parts[i][j] != COLON by {
                    assert(digit_value(parts[i][j]) is Some);
                }
            }
            lemma_join_free(parts, DOT, COLON);
        } else {
            if quad(fields.last()) is Some {
                assert(fields.drop_last()[k] == f);
            }
            assert(is_group(f));
            assert forall|j: int| 0 <= j < f.len() implies f[j] != COLON by {
                assert(digit_value(f[j]) is Some);
            }
        }
    }
}

/// The text of joined pieces neither begins nor ends with a colon, and no
/// two colons stand side by side in it.
proof fn lemma_joined_pieces(fields: Seq<Seq<u8>>)
    requires
        fields.len() >= 1,
        pieces(fields),
    ensures
        join(fields, COLON).len() >= 1,
        join(fields, COLON)[0] != COLON,
        join(fields, COLON).last() != COLON,
        forall|j: int| !pair_at(join(fields, COLON), j),
    decreases fields.len(),
{
    let s = join(fields, COLON);
    let head = fields[0];
    assert(head.len() >= 1 && free_of(head, COLON));
    if fields.len() > 1 {
        let rest = fields.drop_first();
        assert forall|k: int| 0 <= k < rest.len() implies (#[trigger] rest[k]).len() >= 1 && free_of(
            rest[k],
            COLON,
        ) by {
            assert(rest[k] == fields[k + 1]);
        }
        lemma_joined_pieces(rest);
        let r = join(rest, COLON);
        assert(s =~= head + seq![COLON] + r);
        assert forall|j: int| !pair_at(s, j) by {
            if pair_at(s, j) {
                if j > head.len() {
                    assert(pair_at(r, j - head.len() - 1));
                }
            }
        }
    }
}

/// The value of a colon-separated text of pieces that has no `::`.
proof fn lemma_side_of_joined(fields: Seq<Seq<u8>>, quad_allowed: bool)
    requires
        pieces(fields),
    ensures
        side(join(fields, COLON), quad_allowed) == if quad_allowed {
            units_of(fields)
        } else {
            groups_of(fields)
        },
{
    if fields.len() == 0 {
        assert(groups_of(fields)->0 =~= Seq::<u16>::empty());
    } else {
        lemma_joined_pieces(fields);
        lemma_split_join(fields, COLON);
    }
}

/// An address written in full is read as its eight groups: eight groups
/// with a colon between each two, or six groups and a dotted quad.
pub proof fn lemma_full_form(fields: Seq<Seq<u8>>)
    requires
        units_of(fields) is Some,
        units_of(fields)->0.len() == 8,
    ensures
        groups(join(fields, COLON)) == units_of(fields),
{
    lemma_units_are_pieces(fields);
    lemma_joined_pieces(fields);
    lemma_side_of_joined(fields, true);
    let s = join(fields, COLON);
    assert forall|i: int| !first_pair_at(s, i) by {
        assert(!pair_at(s, i));
    }
}

/// A compressed address is read as the groups before `::`, the groups
/// after it, and as many zero groups between them as make eight. The
/// groups after `::` may end in a dotted quad; either side may be empty.
pub proof fn lemma_compressed_form(head: Seq<Seq<u8>>, tail: Seq<Seq<u8>>)
    requires
        groups_of(head) is Some,
        units_of(tail) is Some,
        head.len() + units_of(tail)->0.len() <= 7,
    ensures
        groups(join(head, COLON) + seq![COLON, COLON] + join(tail, COLON)) == Some(
            groups_of(head)->0 + zeros((8 - head.len() - units_of(tail)->0.len()) as nat) + units_of(
                tail,
            )->0,
        ),
{
    let front = join(head, COLON);
    let back = join(tail, COLON);
    let s = front + seq![COLON, COLON] + back;
    let p = front.len() as int;
    assert(pieces(head)) by {
        assert forall|k: int| 0 <= k < head.len() implies (#[trigger] head[k]).len() >= 1 && free_of(
            head[k],
            COLON,
        ) by {
            assert(is_group(head[k]));
            assert forall|j: int| 0 <= j < head[k].len() implies head[k][j] != COLON by {
                assert(digit_value(head[k][j]) is Some);
            }
        }
    }
    lemma_units_are_pieces(tail);
    lemma_side_of_joined(head, false);
    lemma_side_of_joined(tail, true);
    assert(first_pair_at(s, p)) by {
        assert(s[p] == COLON && s[p + 1] == COLON);
        if head.len() >= 1 {
            lemma_joined_pieces(head);
            assert forall|j: int| 0 <= j < p implies !pair_at(s, j) by {
                if j + 1 < p {
                    assert(!pair_at(front, j));
                    assert(s[j] == front[j] && s[j + 1] == front[j + 1]);
                } else {
                    assert(s[j] == front.last());
                }
            }
        }
    }
    let c = choose|c: int| first_pair_at(s, c);
    assert(c == p) by {
        if c < p {
            assert(!pair_at(s, c));
        }
        if p < c {
            assert(!pair_at(s, p));
        }
    }
    assert(s.subrange(0, p) =~= front);
    assert(s.subrange(p + 2, s.len() as int) =~= back);
}

/// Whether `s` is an address written in full: fields joined by colons
/// that write eight groups.
pub open spec fn full_form(s: Seq<u8>, fields: Seq<Seq<u8>>) -> bool {
    &&& s == join(fields, COLON)
    &&& units_of(fields) is Some
    &&& units_of(fields)->0.len() == 8
}

/// Whether `s` is a compressed address: the fields of `head`, `::`, and the
/// fields of `tail`, which write at most seven groups together.
pub open spec fn compressed_form(s: Seq<u8>, head: Seq<Seq<u8>>, tail: Seq<Seq<u8>>) -> bool {
    &&& s == join(head, COLON) + seq![COLON, COLON] + join(tail, COLON)
    &&& groups_of(head) is Some
    &&& units_of(tail) is Some
    &&& head.len() + units_of(tail)->0.len() <= 7
}

/// The fields of one side of `::`: none for an empty side.
pub open spec fn side_fields(s: Seq<u8>) -> Seq<Seq<u8>> {
    if s.len() == 0 {
        Seq::empty()
    } else {
        split(s, COLON)
    }
}

/// Every text that is read as an address is written in full or compressed:
/// the grammar takes the two forms and nothing else.
pub proof fn lemma_address_has_form(s: Seq<u8>)
    requires
        groups(s) is Some,
    ensures
        (exists|fields: Seq<Seq<u8>>| full_form(s, fields)) || (exists|
            head: Seq<Seq<u8>>,
            tail: Seq<Seq<u8>>,
        | compressed_form(s, head, tail)),
{
    match first_pair(s) {
        None => {
            let fields = side_fields(s);
            lemma_join_split(s, COLON);
            assert(s.len() > 0) by {
                if s.len() == 0 {
                    assert(side(s, true)->0.len() == 0);
                }
            }
            assert(full_form(s, fields));
        },
        Some(p) => {
            assert(first_pair_at(s, p));
            let front = s.subrange(0, p);
            let back = s.subrange(p + 2, s.len() as int);
            let head = side_fields(front);
            let tail = side_fields(back);
            lemma_join_split(front, COLON);
            lemma_join_split(back, COLON);
            assert(groups_of(Seq::<Seq<u8>>::empty())->0 =~= Seq::<u16>::empty());
            assert(s =~= front + seq![COLON, COLON] + back);
            assert(compressed_form(s, head, tail));
        },
    }
}

} // verus!

//! Text building blocks: decimal and hexadecimal rendering, joining, and the
//! byte-wise order on strings with a sort by it.

use vstd::prelude::*;
use vstd::relations::{sorted_by, total_ordering};
use vstd::seq_lib::{lemma_sorted_unique, to_multiset_build, to_multiset_insert};
use vstd::utf8::{encode_utf8, encode_utf8_decode_utf8};

verus! {

/// The texts that a sequence of strings holds, in order.
pub open spec fn texts(strings: Seq<String>) -> Seq<Seq<char>> {
    Seq::new(strings.len(), |i: int| strings[i]@)
}

/// The character that writes the digit `d`, for digits below sixteen, with
/// lower-case letters from ten on.
pub open spec fn digit_char(d: nat) -> char
    recommends
        d < 16,
{
    if d == 0 {
        '0'
    } else if d == 1 {
        '1'
    } else if d == 2 {
        '2'
    } else if d == 3 {
        '3'
    } else if d == 4 {
        '4'
    } else if d == 5 {
        '5'
    } else if d == 6 {
        '6'
    } else if d == 7 {
        '7'
    } else if d == 8 {
        '8'
    } else if d == 9 {
        '9'
    } else if d == 10 {
        'a'
    } else if d == 11 {
        'b'
    } else if d == 12 {
        'c'
    } else if d == 13 {
        'd'
    } else if d == 14 {
        'e'
    } else {
        'f'
    }
}

/// The decimal numeral of `n`: most significant digit first, no leading zero,
/// and `0` for zero.
pub open spec fn decimal(n: nat) -> Seq<char>
    decreases n,
{
    if n < 10 {
        seq![digit_char(n)]
    } else {
        decimal(n / 10).push(digit_char(n % 10))
    }
}

/// The bytes written in hexadecimal, two lower-case digits for each.
pub open spec fn hex(bytes: Seq<u8>) -> Seq<char>
    decreases bytes.len(),
{
    if bytes.len() == 0 {
        Seq::empty()
    } else {
        hex(bytes.drop_last()).push(digit_char(bytes.last() as nat / 16)).push(
            digit_char(bytes.last() as nat % 16),
        )
    }
}

/// The parts in order, with the separator between neighbours.
pub open spec fn join(parts: Seq<Seq<char>>, separator: Seq<char>) -> Seq<char>
    decreases parts.len(),
{
    if parts.len() == 0 {
        Seq::empty()
    } else if parts.len() == 1 {
        parts[0]
    } else {
        join(parts.drop_last(), separator) + separator + parts.last()
    }
}

/// The text between double quotes, with the escapes that the standard
/// library's `Debug` formatting of `str` applies.
pub uninterp spec fn quoted(text: Seq<char>) -> Seq<char>;

/// Calls the standard library's `Debug` formatting of `str`. Trusted: the
/// result is a function of the text alone, named `quoted`.
#[verifier::external_body]
pub(crate) fn debug_quoted(text: &str) -> (rendered: String)
    ensures
        rendered@ == quoted(text@),
{
    format!("{:?}", text)
}

/// The lexicographic order on byte strings: the first byte that differs
/// decides, and a proper prefix comes first.
pub open spec fn bytes_le(a: Seq<u8>, b: Seq<u8>) -> bool
    decreases a.len(),
{
    if a.len() == 0 {
        true
    } else if b.len() == 0 {
        false
    } else if a[0] == b[0] {
        bytes_le(a.drop_first(), b.drop_first())
    } else {
        a[0] < b[0]
    }
}

/// The order of strings: that of their UTF-8 encodings, byte by byte.
pub open spec fn text_le(a: Seq<char>, b: Seq<char>) -> bool {
    bytes_le(encode_utf8(a), encode_utf8(b))
}

/// The order of strings as a relation.
pub open spec fn text_order() -> spec_fn(Seq<char>, Seq<char>) -> bool {
    |a: Seq<char>, b: Seq<char>| text_le(a, b)
}

proof fn bytes_le_reflexive(a: Seq<u8>)
    ensures
        bytes_le(a, a),
    decreases a.len(),
{
    if a.len() > 0 {
        bytes_le_reflexive(a.drop_first());
    }
}

proof fn bytes_le_antisymmetric(a: Seq<u8>, b: Seq<u8>)
    requires
        bytes_le(a, b),
        bytes_le(b, a),
    ensures
        a == b,
    decreases a.len(),
{
    if a.len() == 0 {
        assert(a =~= b);
    } else {
        bytes_le_antisymmetric(a.drop_first(), b.drop_first());
        assert(a =~= seq![a[0]] + a.drop_first());
        assert(b =~= seq![b[0]] + b.drop_first());
    }
}

proof fn bytes_le_transitive(a: Seq<u8>, b: Seq<u8>, c: Seq<u8>)
    requires
        bytes_le(a, b),
        bytes_le(b, c),
    ensures
        bytes_le(a, c),
    decreases a.len(),
{
    if a.len() > 0 && a[0] == b[0] && b[0] == c[0] {
        bytes_le_transitive(a.drop_first(), b.drop_first(), c.drop_first());
    }
}

proof fn bytes_le_connected(a: Seq<u8>, b: Seq<u8>)
    ensures
        bytes_le(a, b) || bytes_le(b, a),
    decreases a.len(),
{
    if a.len() > 0 && b.len() > 0 && a[0] == b[0] {
        bytes_le_connected(a.drop_first(), b.drop_first());
    }
}

/// The order of strings is total: reflexive, antisymmetric, transitive, and
/// any two strings are comparable.
pub proof fn text_order_is_total()
    ensures
        total_ordering(text_order()),
{
    let order = text_order();
    assert forall|x: Seq<char>| #[trigger] order(x, x) by {
        bytes_le_reflexive(encode_utf8(x));
    }
    assert forall|x: Seq<char>, y: Seq<char>| #[trigger] order(x, y) && #[trigger] order(
        y,
        x,
    ) implies x == y by {
        bytes_le_antisymmetric(encode_utf8(x), encode_utf8(y));
        encode_utf8_decode_utf8(x);
        encode_utf8_decode_utf8(y);
    }
    assert forall|x: Seq<char>, y: Seq<char>, z: Seq<char>| #[trigger] order(x, y)
        && #[trigger] order(y, z) implies order(x, z) by {
        bytes_le_transitive(encode_utf8(x), encode_utf8(y), encode_utf8(z));
    }
    assert forall|x: Seq<char>, y: Seq<char>| #[trigger] order(x, y) || #[trigger] order(y, x) by {
        bytes_le_connected(encode_utf8(x), encode_utf8(y));
    }
}

/// Hexadecimal takes two characters for each byte.
pub proof fn hex_len(bytes: Seq<u8>)
    ensures
        hex(bytes).len() == 2 * bytes.len(),
    decreases bytes.len(),
{
    if bytes.len() > 0 {
        hex_len(bytes.drop_last());
    }
}

/// Different bytes are written differently in hexadecimal.
pub proof fn hex_is_injective(a: Seq<u8>, b: Seq<u8>)
    requires
        hex(a) == hex(b),
    ensures
        a == b,
    decreases a.len(),
{
    hex_len(a);
    hex_len(b);
    if a.len() == 0 {
        assert(a =~= b);
    } else {
        let shorter = hex(a.drop_last());
        let high = digit_char(a.last() as nat / 16);
        let low = digit_char(a.last() as nat % 16);
        hex_len(a.drop_last());
        hex_len(b.drop_last());
        assert(hex(a)[2 * a.len() - 2] == high);
        assert(hex(a)[2 * a.len() - 1] == low);
        assert(hex(b)[2 * b.len() - 2] == digit_char(b.last() as nat / 16));
        assert(hex(b)[2 * b.len() - 1] == digit_char(b.last() as nat % 16));
        assert(a.last() == b.last());
        assert(hex(a.drop_last()) =~= hex(a).subrange(0, 2 * a.len() - 2));
        assert(hex(b.drop_last()) =~= hex(b).subrange(0, 2 * b.len() - 2));
        hex_is_injective(a.drop_last(), b.drop_last());
        assert(a =~= a.drop_last().push(a.last()));
        assert(b =~= b.drop_last().push(b.last()));
    }
}

/// No character of `text` is `c`.
pub open spec fn free_of(text: Seq<char>, c: char) -> bool {
    forall|i: int| 0 <= i < text.len() ==> text[i] != c
}

/// The one-character string that writes a digit.
fn digit_str(d: u32) -> (s: &'static str)
    requires
        d < 16,
    ensures
        s@ == seq![digit_char(d as nat)],
{
    let s: &'static str = match d {
        0 => "0",
        1 => "1",
        2 => "2",
        3 => "3",
        4 => "4",
        5 => "5",
        6 => "6",
        7 => "7",
        8 => "8",
        9 => "9",
        10 => "a",
        11 => "b",
        12 => "c",
        13 => "d",
        14 => "e",
        _ => "f",
    };
    proof {
        reveal_strlit("0");
        reveal_strlit("1");
        reveal_strlit("2");
        reveal_strlit("3");
        reveal_strlit("4");
        reveal_strlit("5");
        reveal_strlit("6");
        reveal_strlit("7");
        reveal_strlit("8");
        reveal_strlit("9");
        reveal_strlit("a");
        reveal_strlit("b");
        reveal_strlit("c");
        reveal_strlit("d");
        reveal_strlit("e");
        reveal_strlit("f");
        assert(s@ =~= seq![digit_char(d as nat)]);
    }
    s
}

/// Writes `n` in base ten.
pub fn decimal_string(n: u32) -> (s: String)
    ensures
        s@ == decimal(n as nat),
    decreases n,
{
    if n < 10 {
        String::from_str(digit_str(n))
    } else {
        let mut s = decimal_string(n / 10);
        s.append(digit_str(n % 10));
        s
    }
}

/// Writes the bytes in hexadecimal, two lower-case digits for each.
pub fn hex_string(bytes: &[u8]) -> (s: String)
    ensures
        s@ == hex(bytes@),
{
    let mut s = String::new();
    let mut i: usize = 0;
    while i < bytes.len()
        invariant
            i <= bytes.len(),
            s@ == hex(bytes@.take(i as int)),
        decreases bytes.len() - i,
    {
        let byte = bytes[i];
        s.append(digit_str((byte / 16) as u32));
        s.append(digit_str((byte % 16) as u32));
        proof {
            let done = bytes@.take(i + 1);
            assert(done.drop_last() =~= bytes@.take(i as int));
            assert(s@ =~= hex(done));
        }
        i += 1;
    }
    assert(bytes@.take(i as int) =~= bytes@);
    s
}

/// Joins the strings, with the separator between neighbours.
pub fn join_strings(parts: &Vec<String>, separator: &str) -> (joined: String)
    ensures
        joined@ == join(texts(parts@), separator@),
{
    let mut joined = String::new();
    let mut i: usize = 0;
    assert(texts(parts@).take(0) =~= Seq::<Seq<char>>::empty());
    while i < parts.len()
        invariant
            i <= parts.len(),
            joined@ == join(texts(parts@).take(i as int), separator@),
        decreases parts.len() - i,
    {
        if i > 0 {
            joined.append(separator);
        }
        joined.append(parts[i].as_str());
        proof {
            let done = texts(parts@).take(i + 1);
            assert(done.drop_last() =~= texts(parts@).take(i as int));
            assert(joined@ =~= join(done, separator@));
        }
        i += 1;
    }
    assert(texts(parts@).take(i as int) =~= texts(parts@));
    joined
}

/// Whether `a` comes before `b`, or is equal to it, byte by byte.
fn bytes_precede(a: &[u8], b: &[u8]) -> (le: bool)
    ensures
        le == bytes_le(a@, b@),
{
    let mut i: usize = 0;
    assert(a@.skip(0) =~= a@ && b@.skip(0) =~= b@);
    while i < a.len() && i < b.len()
        invariant
            i <= a.len(),
            i <= b.len(),
            bytes_le(a@, b@) == bytes_le(a@.skip(i as int), b@.skip(i as int)),
        decreases a.len() - i,
    {
        if a[i] != b[i] {
            return a[i] < b[i];
        }
        proof {
            assert(a@.skip(i as int).drop_first() =~= a@.skip(i + 1));
            assert(b@.skip(i as int).drop_first() =~= b@.skip(i + 1));
        }
        i += 1;
    }
    i == a.len()
}

/// Whether `a` comes before `b`, or is equal to it, in the order of strings.
pub fn string_le(a: &String, b: &String) -> (le: bool)
    ensures
        le == text_le(a@, b@),
{
    bytes_precede(a.as_str().as_bytes(), b.as_str().as_bytes())
}

/// The strings in ascending order.
pub fn sort_strings(items: &Vec<String>) -> (sorted: Vec<String>)
    ensures
        texts(sorted@) == texts(items@).sort_by(text_order()),
{
    let mut sorted: Vec<String> = Vec::new();
    let mut i: usize = 0;
    proof {
        text_order_is_total();
        assert(texts(items@).take(0) =~= texts(sorted@));
    }
    while i < items.len()
        invariant
            i <= items.len(),
            total_ordering(text_order()),
            sorted_by(texts(sorted@), text_order()),
            texts(sorted@).to_multiset() == texts(items@).take(i as int).to_multiset(),
        decreases items.len() - i,
    {
        let item = items[i].clone();
        let mut j: usize = sorted.len();
        let mut searching = true;
        while searching && j > 0
            invariant
                j <= sorted.len(),
                total_ordering(text_order()),
                forall|k: int| j <= k < sorted.len() ==> text_le(item@, (#[trigger] sorted[k])@),
                !searching ==> j > 0 && text_le(sorted[j - 1]@, item@),
            decreases j + (if searching { 1nat } else { 0nat }),
        {
            if string_le(&sorted[j - 1], &item) {
                searching = false;
            } else {
                assert(text_order()(sorted[j - 1]@, item@) || text_order()(item@, sorted[j - 1]@));
                j -= 1;
            }
        }
        proof {
            let order = text_order();
            let before = texts(sorted@);
            let after = before.insert(j as int, item@);
            assert forall|p: int, q: int| 0 <= p < q < after.len() implies #[trigger] order(
                after[p],
                after[q],
            ) by {
                if q < j {
                    assert(order(before[p], before[q]));
                } else if q == j {
                    assert(order(before[j - 1], item@));
                    if p < j - 1 {
                        assert(order(before[p], before[j - 1]));
                    }
                } else if p < j {
                    assert(order(before[p], before[q - 1]));
                } else if p == j {
                    assert(text_le(item@, sorted[q - 1]@));
                } else {
                    assert(order(before[p - 1], before[q - 1]));
                }
            }
            to_multiset_insert(before, j as int, item@);
            to_multiset_build(texts(items@).take(i as int), item@);
            assert(texts(items@).take(i + 1) =~= texts(items@).take(i as int).push(item@));
        }
        let ghost before = texts(sorted@);
        sorted.insert(j, item);
        assert(texts(sorted@) =~= before.insert(j as int, item@));
        i += 1;
    }
    proof {
        let all = texts(items@);
        assert(all.take(i as int) =~= all);
        all.lemma_sort_by_ensures(text_order());
        lemma_sorted_unique(texts(sorted@), all.sort_by(text_order()), text_order());
    }
    sorted
}

} // verus!

//! The fingerprint of a layout: the key under which the settings for a set of
//! hardware are remembered.

use crate::digest::sha256;
use crate::layout::{hardware, hardware_identity, identity, merged, Hardware, OutputView};
use crate::text::{free_of, hex, hex_is_injective, join, text_order, text_order_is_total};
use vstd::prelude::*;
use vstd::seq_lib::{
    lemma_sorted_unique, to_multiset_build, to_multiset_insert, to_multiset_len,
    to_multiset_remove,
};
use vstd::utf8::{encode_utf8, encode_utf8_decode_utf8};

verus! {

/// The hardware behind each output of a layout, in order.
pub open spec fn hardware_of(layout: Seq<OutputView>) -> Seq<Hardware> {
    Seq::new(layout.len(), |i: int| hardware(layout[i]))
}

/// The hardware identities of a layout, in the order of its outputs.
pub open spec fn identities(layout: Seq<OutputView>) -> Seq<Seq<char>> {
    Seq::new(layout.len(), |i: int| identity(layout[i]))
}

/// The hardware identities of a layout in ascending order.
pub open spec fn sorted_identities(layout: Seq<OutputView>) -> Seq<Seq<char>> {
    identities(layout).sort_by(text_order())
}

/// The text that is digested for the fingerprint: the sorted identities,
/// joined by `+++`.
pub open spec fn fingerprint_input(layout: Seq<OutputView>) -> Seq<char> {
    join(sorted_identities(layout), "+++"@)
}

/// The fingerprint of a layout: the SHA-256 digest of the UTF-8 bytes of its
/// fingerprint input, in lower-case hexadecimal.
pub open spec fn fingerprint_text(layout: Seq<OutputView>) -> Seq<char> {
    hex(sha256(encode_utf8(fingerprint_input(layout))))
}

/// Applying a function to each element of two sequences that hold the same
/// elements, counted with multiplicity, gives two such sequences again.
pub proof fn map_keeps_multiset<A, B>(x: Seq<A>, y: Seq<A>, f: spec_fn(A) -> B)
    requires
        x.to_multiset() == y.to_multiset(),
    ensures
        x.map_values(f).to_multiset() == y.map_values(f).to_multiset(),
    decreases x.len(),
{
    broadcast use vstd::seq_lib::group_to_multiset_ensures;
    broadcast use vstd::multiset::group_multiset_axioms;

    to_multiset_len(x);
    to_multiset_len(y);
    if x.len() == 0 {
        assert(x.map_values(f) =~= y.map_values(f));
    } else {
        let last = x.last();
        assert(x.to_multiset().count(last) > 0);
        assert(y.contains(last));
        let j = choose|j: int| 0 <= j < y.len() && y[j] == last;
        let x_rest = x.drop_last();
        let y_rest = y.remove(j);
        assert(x_rest =~= x.remove(x.len() - 1));
        to_multiset_remove(x, x.len() - 1);
        to_multiset_remove(y, j);
        map_keeps_multiset(x_rest, y_rest, f);
        assert(x.map_values(f) =~= x_rest.map_values(f).push(f(last)));
        to_multiset_build(x_rest.map_values(f), f(last));
        assert(y.map_values(f) =~= y_rest.map_values(f).insert(j, f(last)));
        to_multiset_insert(y_rest.map_values(f), j, f(last));
    }
}

/// Two layouts with the same hardware, counted with multiplicity, have the
/// same fingerprint: neither the order of the outputs nor their names,
/// geometry, rotation or activity enter into it.
pub proof fn fingerprint_depends_on_hardware_alone(a: Seq<OutputView>, b: Seq<OutputView>)
    requires
        hardware_of(a).to_multiset() == hardware_of(b).to_multiset(),
    ensures
        sorted_identities(a) == sorted_identities(b),
        fingerprint_input(a) == fingerprint_input(b),
        fingerprint_text(a) == fingerprint_text(b),
{
    let f = |h: Hardware| hardware_identity(h);
    map_keeps_multiset(hardware_of(a), hardware_of(b), f);
    assert(identities(a) =~= hardware_of(a).map_values(f));
    assert(identities(b) =~= hardware_of(b).map_values(f));
    text_order_is_total();
    identities(a).lemma_sort_by_ensures(text_order());
    identities(b).lemma_sort_by_ensures(text_order());
    lemma_sorted_unique(sorted_identities(a), sorted_identities(b), text_order());
}

/// The fingerprint does not change when the outputs are reported in another
/// order.
pub proof fn fingerprint_ignores_order(a: Seq<OutputView>, b: Seq<OutputView>)
    requires
        a.to_multiset() == b.to_multiset(),
    ensures
        fingerprint_text(a) == fingerprint_text(b),
{
    let f = |o: OutputView| hardware(o);
    map_keeps_multiset(a, b, f);
    assert(hardware_of(a) =~= a.map_values(f));
    assert(hardware_of(b) =~= b.map_values(f));
    fingerprint_depends_on_hardware_alone(a, b);
}

/// The fingerprint of a layout is that of the layout in reverse order.
pub proof fn fingerprint_of_reverse(layout: Seq<OutputView>)
    ensures
        fingerprint_text(layout.reverse()) == fingerprint_text(layout),
{
    layout.lemma_reverse_to_multiset();
    fingerprint_ignores_order(layout.reverse(), layout);
}

/// The fingerprint does not change when names, geometry, rotation or
/// activity change and the hardware of each output stays.
pub proof fn fingerprint_ignores_settings(a: Seq<OutputView>, b: Seq<OutputView>)
    requires
        a.len() == b.len(),
        forall|i: int| 0 <= i < a.len() ==> hardware(a[i]) == hardware(b[i]),
    ensures
        fingerprint_text(a) == fingerprint_text(b),
{
    assert(hardware_of(a) =~= hardware_of(b));
    fingerprint_depends_on_hardware_alone(a, b);
}

/// A merge leaves the fingerprint as it is: the settings that are remembered
/// under a key are looked up under the same key after they were applied.
pub proof fn merge_keeps_fingerprint(live: Seq<OutputView>, stored: Seq<OutputView>)
    ensures
        fingerprint_text(merged(live, stored)) == fingerprint_text(live),
{
    fingerprint_ignores_settings(merged(live, stored), live);
}

/// Hardware whose identity can be taken apart again: make and model hold no
/// `|`, and no part holds `+`.
pub open spec fn separable(h: Hardware) -> bool {
    &&& free_of(h.make, '|')
    &&& free_of(h.model, '|')
    &&& free_of(h.make, '+')
    &&& free_of(h.model, '+')
    &&& free_of(h.serial, '+')
}

/// Every output of the layout has separable hardware.
pub open spec fn all_separable(layout: Seq<OutputView>) -> bool {
    forall|i: int| 0 <= i < layout.len() ==> separable(hardware(#[trigger] layout[i]))
}

/// Parts that can be found again in a text that joins them by `+++`: none is
/// empty and none holds `+`.
pub open spec fn plain_parts(parts: Seq<Seq<char>>) -> bool {
    forall|i: int|
        0 <= i < parts.len() ==> (#[trigger] parts[i]).len() > 0 && free_of(parts[i], '+')
}

proof fn split_at_bar(a1: Seq<char>, r1: Seq<char>, a2: Seq<char>, r2: Seq<char>)
    requires
        free_of(a1, '|'),
        free_of(a2, '|'),
        a1 + "|"@ + r1 == a2 + "|"@ + r2,
    ensures
        a1 == a2,
        r1 == r2,
{
    reveal_strlit("|");
    let s1 = a1 + "|"@ + r1;
    let s2 = a2 + "|"@ + r2;
    if a1.len() < a2.len() {
        assert(s1[a1.len() as int] == '|');
        assert(s2[a1.len() as int] == a2[a1.len() as int]);
    }
    if a2.len() < a1.len() {
        assert(s2[a2.len() as int] == '|');
        assert(s1[a2.len() as int] == a1[a2.len() as int]);
    }
    assert(a1 =~= s1.subrange(0, a1.len() as int));
    assert(a2 =~= s2.subrange(0, a2.len() as int));
    assert(r1 =~= s1.subrange(a1.len() as int + 1, s1.len() as int));
    assert(r2 =~= s2.subrange(a2.len() as int + 1, s2.len() as int));
}

/// Separable hardware is told by its identity.
pub proof fn identity_determines_hardware(h1: Hardware, h2: Hardware)
    requires
        separable(h1),
        separable(h2),
        hardware_identity(h1) == hardware_identity(h2),
    ensures
        h1 == h2,
{
    let r1 = h1.model + "|"@ + h1.serial;
    let r2 = h2.model + "|"@ + h2.serial;
    assert(hardware_identity(h1) =~= h1.make + "|"@ + r1);
    assert(hardware_identity(h2) =~= h2.make + "|"@ + r2);
    split_at_bar(h1.make, r1, h2.make, r2);
    split_at_bar(h1.model, h1.serial, h2.model, h2.serial);
}

proof fn joined_shape(parts: Seq<Seq<char>>)
    requires
        plain_parts(parts),
    ensures
        parts.len() == 0 ==> join(parts, "+++"@).len() == 0,
        parts.len() == 1 ==> join(parts, "+++"@) == parts[0],
        parts.len() >= 2 ==> ({
            let s = join(parts, "+++"@);
            let t = parts.last();
            &&& s.len() >= t.len() + 3
            &&& s[s.len() - t.len() - 1] == '+'
            &&& s.subrange(s.len() - t.len(), s.len() as int) == t
            &&& s.subrange(0, s.len() - t.len() - 3) == join(parts.drop_last(), "+++"@)
        }),
{
    reveal_strlit("+++");
    if parts.len() >= 2 {
        let s = join(parts, "+++"@);
        let t = parts.last();
        let head = join(parts.drop_last(), "+++"@);
        assert(s == head + "+++"@ + t);
        assert(s.subrange(s.len() - t.len(), s.len() as int) =~= t);
        assert(s.subrange(0, s.len() - t.len() - 3) =~= head);
    }
}

/// The parts of a text that was joined by `+++` are told by the text, where
/// none of them is empty or holds `+`.
pub proof fn join_determines_parts(p: Seq<Seq<char>>, q: Seq<Seq<char>>)
    requires
        plain_parts(p),
        plain_parts(q),
        join(p, "+++"@) == join(q, "+++"@),
    ensures
        p == q,
    decreases p.len(),
{
    joined_shape(p);
    joined_shape(q);
    let s = join(p, "+++"@);
    if p.len() <= 1 || q.len() <= 1 {
        // A text without `+` is a single part or none, and an empty text is none.
        if p.len() == 1 {
            assert(p[0].len() > 0 && free_of(p[0], '+'));
        }
        if q.len() == 1 {
            assert(q[0].len() > 0 && free_of(q[0], '+'));
        }
        assert(p =~= q);
    } else {
        let tp = p.last();
        let tq = q.last();
        assert(free_of(tp, '+') && free_of(tq, '+'));
        if tp.len() < tq.len() {
            let k = s.len() - tp.len() - 1;
            let from = s.len() - tq.len();
            assert(s.subrange(from, s.len() as int)[k - from] == s[k]);
        }
        if tq.len() < tp.len() {
            let k = s.len() - tq.len() - 1;
            let from = s.len() - tp.len();
            assert(s.subrange(from, s.len() as int)[k - from] == s[k]);
        }
        assert(tp == tq);
        assert(plain_parts(p.drop_last())) by {
            assert forall|i: int| 0 <= i < p.drop_last().len() implies (#[trigger] p.drop_last()[i]).len()
                > 0 && free_of(p.drop_last()[i], '+') by {
                assert(p.drop_last()[i] == p[i]);
            }
        }
        assert(plain_parts(q.drop_last())) by {
            assert forall|i: int| 0 <= i < q.drop_last().len() implies (#[trigger] q.drop_last()[i]).len()
                > 0 && free_of(q.drop_last()[i], '+') by {
                assert(q.drop_last()[i] == q[i]);
            }
        }
        join_determines_parts(p.drop_last(), q.drop_last());
        assert(p =~= p.drop_last().push(tp));
        assert(q =~= q.drop_last().push(tq));
    }
}

/// Two sequences hold the same elements, counted with multiplicity, where
/// applying a function to each element gives two such sequences and the
/// function tells the elements apart.
pub proof fn injective_map_reflects_multiset<A, B>(x: Seq<A>, y: Seq<A>, f: spec_fn(A) -> B)
    requires
        x.map_values(f).to_multiset() == y.map_values(f).to_multiset(),
        forall|i: int, j: int|
            0 <= i < x.len() && 0 <= j < y.len() && f(x[i]) == f(y[j]) ==> x[i] == y[j],
    ensures
        x.to_multiset() == y.to_multiset(),
    decreases x.len(),
{
    broadcast use vstd::seq_lib::group_to_multiset_ensures;
    broadcast use vstd::multiset::group_multiset_axioms;

    let fx = x.map_values(f);
    let fy = y.map_values(f);
    to_multiset_len(fx);
    to_multiset_len(fy);
    if x.len() == 0 {
        assert(x =~= y);
    } else {
        let last = x.last();
        assert(fx[x.len() - 1] == f(last));
        assert(fx.to_multiset().count(f(last)) > 0);
        assert(fy.contains(f(last)));
        let j = choose|j: int| 0 <= j < fy.len() && fy[j] == f(last);
        assert(y[j] == last);
        let x_rest = x.drop_last();
        let y_rest = y.remove(j);
        assert(x_rest.map_values(f) =~= fx.remove(x.len() - 1));
        assert(y_rest.map_values(f) =~= fy.remove(j));
        to_multiset_remove(fx, x.len() - 1);
        to_multiset_remove(fy, j);
        injective_map_reflects_multiset(x_rest, y_rest, f);
        assert(x =~= x_rest.push(last));
        to_multiset_build(x_rest, last);
        assert(y =~= y_rest.insert(j, last));
        to_multiset_insert(y_rest, j, last);
    }
}

/// Layouts of separable hardware for which the same text is digested have
/// the same hardware, counted with multiplicity. So where the hardware
/// differs the fingerprints differ, unless the digests of two different
/// texts coincide.
pub proof fn fingerprint_input_determines_hardware(a: Seq<OutputView>, b: Seq<OutputView>)
    requires
        all_separable(a),
        all_separable(b),
        fingerprint_input(a) == fingerprint_input(b),
    ensures
        hardware_of(a).to_multiset() == hardware_of(b).to_multiset(),
{
    broadcast use vstd::seq_lib::group_to_multiset_ensures;

    reveal_strlit("|");
    text_order_is_total();
    identities(a).lemma_sort_by_ensures(text_order());
    identities(b).lemma_sort_by_ensures(text_order());
    assert forall|layout: Seq<OutputView>|
        all_separable(layout) && (layout == a || layout == b) implies plain_parts(
        #[trigger] sorted_identities(layout),
    ) by {
        let sorted = sorted_identities(layout);
        assert forall|i: int| 0 <= i < sorted.len() implies (#[trigger] sorted[i]).len() > 0
            && free_of(sorted[i], '+') by {
            assert(sorted.contains(sorted[i]));
            assert(identities(layout).contains(sorted[i]));
            let k = choose|k: int|
                0 <= k < identities(layout).len() && identities(layout)[k] == sorted[i];
            assert(separable(hardware(layout[k])));
            assert(sorted[i] == identity(layout[k]));
        }
    }
    join_determines_parts(sorted_identities(a), sorted_identities(b));
    let f = |h: Hardware| hardware_identity(h);
    assert(identities(a) =~= hardware_of(a).map_values(f));
    assert(identities(b) =~= hardware_of(b).map_values(f));
    assert forall|i: int, j: int|
        0 <= i < hardware_of(a).len() && 0 <= j < hardware_of(b).len() && f(hardware_of(a)[i])
            == f(hardware_of(b)[j]) implies hardware_of(a)[i] == hardware_of(b)[j] by {
        assert(separable(hardware(a[i])));
        assert(separable(hardware(b[j])));
        identity_determines_hardware(hardware_of(a)[i], hardware_of(b)[j]);
    }
    injective_map_reflects_multiset(hardware_of(a), hardware_of(b), f);
}

/// For layouts of separable hardware the text that is digested changes
/// exactly where the hardware changes, counted with multiplicity.
pub proof fn fingerprint_input_tells_hardware(a: Seq<OutputView>, b: Seq<OutputView>)
    requires
        all_separable(a),
        all_separable(b),
    ensures
        fingerprint_input(a) == fingerprint_input(b) <==> hardware_of(a).to_multiset()
            == hardware_of(b).to_multiset(),
{
    if fingerprint_input(a) == fingerprint_input(b) {
        fingerprint_input_determines_hardware(a, b);
    }
    if hardware_of(a).to_multiset() == hardware_of(b).to_multiset() {
        fingerprint_depends_on_hardware_alone(a, b);
    }
}

/// Two fingerprints are equal exactly where the digests are: neither the
/// encoding of the text nor the hexadecimal notation loses anything.
pub proof fn fingerprints_agree_with_digests(a: Seq<OutputView>, b: Seq<OutputView>)
    ensures
        fingerprint_text(a) == fingerprint_text(b) <==> sha256(encode_utf8(fingerprint_input(a)))
            == sha256(encode_utf8(fingerprint_input(b))),
        encode_utf8(fingerprint_input(a)) == encode_utf8(fingerprint_input(b))
            <==> fingerprint_input(a) == fingerprint_input(b),
{
    if fingerprint_text(a) == fingerprint_text(b) {
        hex_is_injective(
            sha256(encode_utf8(fingerprint_input(a))),
            sha256(encode_utf8(fingerprint_input(b))),
        );
    }
    encode_utf8_decode_utf8(fingerprint_input(a));
    encode_utf8_decode_utf8(fingerprint_input(b));
}

} // verus!

//! Names in alphabetical order.

use vstd::prelude::*;

use crate::text::chars_of;

verus! {

/// `a` does not come after `b`: at the first place where they differ, `a` has the lesser
/// character or no character at all.
pub open spec fn text_le(a: Seq<char>, b: Seq<char>) -> bool
    decreases a.len(),
{
    if a.len() == 0 {
        true
    } else if b.len() == 0 {
        false
    } else if a[0] != b[0] {
        a[0] < b[0]
    } else {
        text_le(a.skip(1), b.skip(1))
    }
}

/// The characters of each name.
pub open spec fn texts(names: Seq<String>) -> Seq<Seq<char>> {
    names.map_values(|n: String| n@)
}

/// No name comes after a later one.
pub open spec fn in_order(names: Seq<Seq<char>>) -> bool {
    forall|i: int, j: int|
        #![trigger names[i], names[j]]
        0 <= i < j < names.len() ==> text_le(names[i], names[j])
}

/// Of two texts one does not come after the other, and only equal texts stand either way.
pub proof fn law_order_is_total(a: Seq<char>, b: Seq<char>)
    ensures
        text_le(a, b) || text_le(b, a),
        text_le(a, b) && text_le(b, a) ==> a == b,
        text_le(a, a),
    decreases a.len(),
{
    if a.len() > 0 {
        law_order_is_total(a.skip(1), a.skip(1));
        if b.len() > 0 && a[0] == b[0] {
            law_order_is_total(a.skip(1), b.skip(1));
            if a.skip(1) == b.skip(1) {
                assert(a =~= seq![a[0]] + a.skip(1));
                assert(b =~= seq![b[0]] + b.skip(1));
            }
        }
    } else if b.len() == 0 {
        assert(a =~= b);
    }
}

/// The order carries over.
pub proof fn law_order_is_transitive(a: Seq<char>, b: Seq<char>, c: Seq<char>)
    requires
        text_le(a, b),
        text_le(b, c),
    ensures
        text_le(a, c),
    decreases a.len(),
{
    if a.len() > 0 && a[0] == b[0] && b[0] == c[0] {
        law_order_is_transitive(a.skip(1), b.skip(1), c.skip(1));
    }
}

/// Whether `a` does not come after `b`.
pub fn not_after(a: &str, b: &str) -> (r: bool)
    ensures
        r == text_le(a@, b@),
{
    let left: Vec<char> = chars_of(a);
    let right: Vec<char> = chars_of(b);
    let mut i: usize = 0;
    assert(left@.skip(0) == a@);
    assert(right@.skip(0) == b@);
    while i < left.len()
        invariant
            i <= left@.len(),
            i <= right@.len(),
            text_le(a@, b@) == text_le(left@.skip(i as int), right@.skip(i as int)),
        decreases left@.len() - i,
    {
        if i >= right.len() {
            return false;
        }
        if left[i] != right[i] {
            return left[i] < right[i];
        }
        assert(left@.skip(i as int).skip(1) == left@.skip(i + 1));
        assert(right@.skip(i as int).skip(1) == right@.skip(i + 1));
        i = i + 1;
    }
    true
}

/// Where `name` goes among names that are in order.
fn place(names: &Vec<String>, name: &String) -> (p: usize)
    requires
        in_order(texts(names@)),
    ensures
        p <= names@.len(),
        forall|i: int| 0 <= i < p ==> text_le(#[trigger] names@[i]@, name@),
        forall|i: int| p <= i < names@.len() ==> text_le(name@, #[trigger] names@[i]@),
{
    let mut p: usize = 0;
    while p < names.len() && !not_after(name.as_str(), names[p].as_str())
        invariant
            p <= names@.len(),
            forall|i: int| 0 <= i < p ==> text_le(#[trigger] names@[i]@, name@),
        decreases names@.len() - p,
    {
        proof {
            law_order_is_total(name@, names@[p as int]@);
        }
        p = p + 1;
    }
    proof {
        assert forall|i: int| p <= i < names@.len() implies text_le(name@, #[trigger] names@[i]@) by {
            if i > p {
                assert(text_le(texts(names@)[p as int], texts(names@)[i]));
                law_order_is_transitive(name@, names@[p as int]@, names@[i]@);
            }
        }
    }
    p
}

/// The same names in alphabetical order.
pub fn sort_names(names: Vec<String>) -> (sorted: Vec<String>)
    ensures
        in_order(texts(sorted@)),
        texts(sorted@).to_multiset() == texts(names@).to_multiset(),
{
    let ghost all = names@;
    let mut sorted: Vec<String> = Vec::new();
    assert(texts(sorted@) =~= texts(all).take(0));
    for name in it: names
        invariant
            it.seq() == all,
            in_order(texts(sorted@)),
            texts(sorted@).to_multiset() == texts(all).take(it.index() as int).to_multiset(),
    {
        let p: usize = place(&sorted, &name);
        let ghost before = sorted@;
        proof {
            broadcast use vstd::multiset::group_multiset_axioms;

            let whole = texts(before).insert(p as int, name@);
            assert(whole.remove(p as int) =~= texts(before));
            vstd::seq_lib::to_multiset_remove(whole, p as int);
            whole.to_multiset_ensures();
            assert(whole.contains(whole[p as int]));
            assert(whole.to_multiset() =~= texts(before).to_multiset().insert(name@));
            let so_far = texts(all).take(it.index() as int);
            assert(texts(all).take(it.index() + 1) =~= so_far.push(name@));
            vstd::seq_lib::to_multiset_build(so_far, name@);
        }
        sorted.insert(p, name);
        proof {
            assert(texts(sorted@) =~= texts(before).insert(p as int, name@));
            assert forall|i: int, j: int|
                #![trigger texts(sorted@)[i], texts(sorted@)[j]]
                0 <= i < j < texts(sorted@).len() implies text_le(
                texts(sorted@)[i],
                texts(sorted@)[j],
            ) by {
                let i0 = if i < p { i } else { i - 1 };
                let j0 = if j < p { j } else { j - 1 };
                if i != p && j != p {
                    assert(text_le(texts(before)[i0], texts(before)[j0]));
                } else if i == p {
                    assert(text_le(name@, before[j0]@));
                } else {
                    assert(text_le(before[i0]@, name@));
                }
            }
        }
    }
    assert(texts(all).take(all.len() as int) =~= texts(all));
    sorted
}

/// Sorting keeps names apart, and keeps each of them.
pub proof fn lemma_same_names(a: Seq<Seq<char>>, b: Seq<Seq<char>>)
    requires
        a.to_multiset() == b.to_multiset(),
        b.no_duplicates(),
    ensures
        a.no_duplicates(),
        a.to_set() == b.to_set(),
{
    broadcast use vstd::multiset::group_multiset_axioms;

    b.lemma_multiset_has_no_duplicates();
    a.lemma_multiset_has_no_duplicates_conv();
    a.to_multiset_ensures();
    b.to_multiset_ensures();
    assert forall|x: Seq<char>| #[trigger] a.to_set().contains(x) <==> b.to_set().contains(x) by {
        assert(a.contains(x) <==> a.to_multiset().count(x) > 0);
        assert(b.contains(x) <==> b.to_multiset().count(x) > 0);
    }
    assert(a.to_set() =~= b.to_set());
}

/// There is only one way to put names in order.
pub proof fn law_order_is_unique(a: Seq<Seq<char>>, b: Seq<Seq<char>>)
    requires
        in_order(a),
        in_order(b),
        a.no_duplicates(),
        b.no_duplicates(),
        a.to_set() == b.to_set(),
    ensures
        a == b,
    decreases a.len(),
{
    if a.len() == 0 || b.len() == 0 {
        if a.len() > 0 {
            assert(a.contains(a[0]));
            assert(b.to_set().contains(a[0]));
        }
        if b.len() > 0 {
            assert(b.contains(b[0]));
            assert(a.to_set().contains(b[0]));
        }
        assert(a =~= b);
    } else {
        assert(a.contains(a[0]));
        assert(b.to_set().contains(a[0]));
        let i = choose|i: int| 0 <= i < b.len() && b[i] == a[0];
        assert(b.contains(b[0]));
        assert(a.to_set().contains(b[0]));
        let j = choose|j: int| 0 <= j < a.len() && a[j] == b[0];
        if i > 0 && j > 0 {
            assert(text_le(b[0], b[i]));
            assert(text_le(a[0], a[j]));
        }
        law_order_is_total(a[0], b[0]);
        assert(a[0] == b[0]);
        let a1 = a.skip(1);
        let b1 = b.skip(1);
        lemma_rest_in_order(a);
        lemma_rest_in_order(b);
        assert forall|x: Seq<char>| #[trigger] a1.to_set().contains(x) <==> b1.to_set().contains(x) by {
            lemma_rest_has(a, x);
            lemma_rest_has(b, x);
            assert(a.to_set().contains(x) <==> b.to_set().contains(x));
        }
        assert(a1.to_set() =~= b1.to_set());
        law_order_is_unique(a1, b1);
        assert(a =~= seq![a[0]] + a1);
        assert(b =~= seq![b[0]] + b1);
    }
}

proof fn lemma_rest_in_order(a: Seq<Seq<char>>)
    requires
        in_order(a),
        a.no_duplicates(),
        a.len() > 0,
    ensures
        in_order(a.skip(1)),
        a.skip(1).no_duplicates(),
{
    let rest = a.skip(1);
    assert forall|i: int, j: int|
        #![trigger rest[i], rest[j]]
        0 <= i < j < rest.len() implies text_le(rest[i], rest[j]) by {
        assert(text_le(a[i + 1], a[j + 1]));
    }
}

proof fn lemma_rest_has(a: Seq<Seq<char>>, x: Seq<char>)
    requires
        a.no_duplicates(),
        a.len() > 0,
    ensures
        a.skip(1).to_set().contains(x) <==> a.to_set().contains(x) && x != a[0],
{
    let rest = a.skip(1);
    if rest.contains(x) {
        let i = choose|i: int| 0 <= i < rest.len() && rest[i] == x;
        assert(a[i + 1] == x);
    }
    if a.contains(x) && x != a[0] {
        let i = choose|i: int| 0 <= i < a.len() && a[i] == x;
        assert(rest[i - 1] == x);
    }
}

/// At the first place where two texts differ, the lesser character comes first; a text comes
/// before what continues it. Nothing else decides.
pub proof fn law_the_first_difference_decides(
    common: Seq<char>,
    x: char,
    y: char,
    s: Seq<char>,
    t: Seq<char>,
)
    ensures
        x < y ==> text_le(common + seq![x] + s, common + seq![y] + t),
        x < y ==> !text_le(common + seq![y] + t, common + seq![x] + s),
        text_le(common, common + t),
        t.len() > 0 ==> !text_le(common + t, common),
    decreases common.len(),
{
    let a = common + seq![x] + s;
    let b = common + seq![y] + t;
    if common.len() == 0 {
        assert(a[0] == x && b[0] == y);
        assert(common + t =~= t);
    } else {
        assert(a.skip(1) =~= common.skip(1) + seq![x] + s);
        assert(b.skip(1) =~= common.skip(1) + seq![y] + t);
        assert(a[0] == common[0] && b[0] == common[0]);
        assert((common + t).skip(1) =~= common.skip(1) + t);
        assert((common + t)[0] == common[0]);
        law_the_first_difference_decides(common.skip(1), x, y, s, t);
    }
}

/// Names in order are just those of which no earlier one comes after a later one.
pub proof fn law_in_order_means_no_name_comes_after_a_later(names: Seq<Seq<char>>)
    ensures
        in_order(names) <==> (forall|i: int, j: int|
            #![trigger names[i], names[j]]
            0 <= i < j < names.len() ==> text_le(names[i], names[j])),
{
}

/// The texts of names are their characters, one by one.
pub proof fn law_texts_are_the_characters(names: Seq<String>, i: int)
    ensures
        texts(names).len() == names.len(),
        0 <= i < names.len() ==> texts(names)[i] == names[i]@,
{
}

} // verus!

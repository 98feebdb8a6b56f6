//! Engineering types of sheets and their sorted, duplicate-free list.
//!
//! A sheet named `"<type> <short name>"` belongs to the type before its first
//! space; a name without a space is a type of its own with an empty short name.
use vstd::prelude::*;
use crate::text::text_eq;

verus! {

/// The first index at or after `j` of a space in `s`.
pub open spec fn space_from(s: Seq<char>, j: int) -> Option<int>
    decreases s.len() - j,
{
    if j < 0 || j >= s.len() {
        None
    } else if s[j] == ' ' {
        Some(j)
    } else {
        space_from(s, j + 1)
    }
}

/// The engineering type of a sheet name: the text before its first space.
pub open spec fn type_of(name: Seq<char>) -> Seq<char> {
    match space_from(name, 0) {
        Some(i) => name.subrange(0, i),
        None => name,
    }
}

/// The short name of a sheet name: the text after its first space.
pub open spec fn short_of(name: Seq<char>) -> Seq<char> {
    match space_from(name, 0) {
        Some(i) => name.subrange(i + 1, name.len() as int),
        None => Seq::empty(),
    }
}

/// Lexicographic order of texts by code point, as `str` orders them.
pub open spec fn text_lt(a: Seq<char>, b: Seq<char>) -> bool
    decreases a.len(),
{
    if a.len() == 0 {
        b.len() > 0
    } else if b.len() == 0 {
        false
    } else if a[0] != b[0] {
        a[0] < b[0]
    } else {
        text_lt(a.drop_first(), b.drop_first())
    }
}

/// `keys` with `x` put in place: before the first key that `x` precedes,
/// and not at all if `x` is already there ahead of such a key.
pub open spec fn insert_key(keys: Seq<Seq<char>>, x: Seq<char>) -> Seq<Seq<char>>
    decreases keys.len(),
{
    if keys.len() == 0 {
        seq![x]
    } else if keys[0] == x {
        keys
    } else if text_lt(x, keys[0]) {
        seq![x] + keys
    } else {
        seq![keys[0]] + insert_key(keys.drop_first(), x)
    }
}

/// The types of the first `k` names, in ascending order without repeats.
pub open spec fn group_keys(names: Seq<Seq<char>>, k: int) -> Seq<Seq<char>>
    decreases k,
{
    if k <= 0 {
        Seq::empty()
    } else {
        insert_key(group_keys(names, k - 1), type_of(names[k - 1]))
    }
}

pub open spec fn sorted(keys: Seq<Seq<char>>) -> bool {
    forall|i: int, j: int| 0 <= i < j < keys.len() ==> text_lt(#[trigger] keys[i], #[trigger] keys[j])
}

fn find_space(s: &str) -> (r: Option<usize>)
    ensures
        r matches Some(i) ==> space_from(s@, 0) == Some(i as int) && i < s@.len(),
        r is None ==> space_from(s@, 0) is None,
{
    let n = s.unicode_len();
    let mut j: usize = 0;
    while j < n
        invariant
            n == s@.len(),
            j <= n,
            space_from(s@, 0) == space_from(s@, j as int),
        decreases n - j,
    {
        if s.get_char(j) == ' ' {
            return Some(j);
        }
        j = j + 1;
    }
    None
}

/// Whether a sheet name has a space, that is a short name part.
pub fn sheet_has_space(name: &str) -> (r: bool)
    ensures
        r == space_from(name@, 0) is Some,
{
    find_space(name).is_some()
}

/// The engineering type of a sheet name.
pub fn sheet_type(name: &str) -> (r: String)
    ensures
        r@ == type_of(name@),
{
    match find_space(name) {
        Some(i) => String::from_str(name.substring_char(0, i)),
        None => String::from_str(name),
    }
}

/// The short name of a sheet name.
pub fn sheet_short_name(name: &str) -> (r: String)
    ensures
        r@ == short_of(name@),
{
    match find_space(name) {
        Some(i) => {
            let n = name.unicode_len();
            String::from_str(name.substring_char(i + 1, n))
        },
        None => String::new(),
    }
}

/// Whether `a` comes before `b` in code-point order.
pub fn text_less(a: &str, b: &str) -> (r: bool)
    ensures
        r == text_lt(a@, b@),
{
    let n = a.unicode_len();
    let m = b.unicode_len();
    let mut i: usize = 0;
    assert(a@.subrange(0, n as int) =~= a@);
    assert(b@.subrange(0, m as int) =~= b@);
    while i < n && i < m && a.get_char(i) == b.get_char(i)
        invariant
            n == a@.len(),
            m == b@.len(),
            i <= n,
            i <= m,
            text_lt(a@, b@) == text_lt(
                a@.subrange(i as int, n as int),
                b@.subrange(i as int, m as int),
            ),
        decreases n - i,
    {
        assert(a@.subrange(i as int, n as int).drop_first() =~= a@.subrange(i + 1, n as int));
        assert(b@.subrange(i as int, m as int).drop_first() =~= b@.subrange(i + 1, m as int));
        i = i + 1;
    }
    if i == n {
        i < m
    } else if i == m {
        false
    } else {
        a.get_char(i) < b.get_char(i)
    }
}

proof fn lemma_insert_skip(keys: Seq<Seq<char>>, x: Seq<char>, i: int)
    requires
        0 <= i <= keys.len(),
        forall|j: int| 0 <= j < i ==> keys[j] != x && !text_lt(x, #[trigger] keys[j]),
    ensures
        insert_key(keys, x) == keys.subrange(0, i) + insert_key(keys.subrange(i, keys.len() as int), x),
    decreases i,
{
    if i > 0 {
        lemma_insert_skip(keys.drop_first(), x, i - 1);
        assert(keys.drop_first().subrange(0, i - 1) =~= keys.subrange(1, i));
        assert(keys.drop_first().subrange(i - 1, keys.len() - 1) =~= keys.subrange(i, keys.len() as int));
        assert(keys.subrange(0, i) =~= seq![keys[0]] + keys.subrange(1, i));
        assert(seq![keys[0]] + (keys.subrange(1, i) + insert_key(keys.subrange(i, keys.len() as int), x))
            =~= keys.subrange(0, i) + insert_key(keys.subrange(i, keys.len() as int), x));
    } else {
        assert(keys.subrange(0, 0) + insert_key(keys.subrange(0, keys.len() as int), x) =~= insert_key(keys, x)) by {
            assert(keys.subrange(0, keys.len() as int) =~= keys);
        }
    }
}

/// Puts `x` into the ascending, duplicate-free `keys` (see `insert_key`).
pub fn insert_type(keys: &mut Vec<String>, x: String)
    ensures
        final(keys).deep_view() == insert_key(old(keys).deep_view(), x@),
{
    let ghost old_keys = keys.deep_view();
    let mut i: usize = 0;
    while i < keys.len()
        invariant
            keys.deep_view() == old_keys,
            old_keys == old(keys).deep_view(),
            i <= keys.len(),
            forall|j: int| 0 <= j < i ==> old_keys[j] != x@ && !text_lt(x@, #[trigger] old_keys[j]),
        decreases keys.len() - i,
    {
        assert(old_keys[i as int] == keys@[i as int]@);
        if text_eq(keys[i].as_str(), x.as_str()) {
            proof {
                lemma_insert_skip(old_keys, x@, i as int);
                let rest = old_keys.subrange(i as int, old_keys.len() as int);
                assert(rest[0] == x@);
                assert(insert_key(rest, x@) == rest);
                assert(old_keys.subrange(0, i as int) + rest =~= old_keys);
            }
            return;
        }
        if text_less(x.as_str(), keys[i].as_str()) {
            let ghost old_vec = keys@;
            proof {
                lemma_insert_skip(old_keys, x@, i as int);
                let rest = old_keys.subrange(i as int, old_keys.len() as int);
                assert(rest[0] == old_keys[i as int]);
                assert(insert_key(rest, x@) == seq![x@] + rest);
            }
            keys.insert(i, x);
            proof {
                let rest = old_keys.subrange(i as int, old_keys.len() as int);
                assert(keys@ == old_vec.insert(i as int, x));
                assert(keys.deep_view() =~= old_keys.subrange(0, i as int) + (seq![x@] + rest));
            }
            return;
        }
        i = i + 1;
    }
    proof {
        lemma_insert_skip(old_keys, x@, i as int);
        assert(old_keys.subrange(i as int, old_keys.len() as int) =~= Seq::<Seq<char>>::empty());
    }
    keys.push(x);
    assert(keys.deep_view() =~= old_keys.subrange(0, i as int) + seq![x@]);
}

proof fn lemma_text_lt_irreflexive(a: Seq<char>)
    ensures
        !text_lt(a, a),
    decreases a.len(),
{
    if a.len() > 0 {
        lemma_text_lt_irreflexive(a.drop_first());
    }
}

proof fn lemma_text_lt_transitive(a: Seq<char>, b: Seq<char>, c: Seq<char>)
    requires
        text_lt(a, b),
        text_lt(b, c),
    ensures
        text_lt(a, c),
    decreases a.len(),
{
    if a.len() > 0 && b.len() > 0 && c.len() > 0 && a[0] == b[0] && b[0] == c[0] {
        lemma_text_lt_transitive(a.drop_first(), b.drop_first(), c.drop_first());
    }
}

proof fn lemma_text_lt_total(a: Seq<char>, b: Seq<char>)
    requires
        a != b,
    ensures
        text_lt(a, b) || text_lt(b, a),
    decreases a.len(),
{
    if a.len() > 0 && b.len() > 0 {
        if a[0] == b[0] {
            if a.drop_first() == b.drop_first() {
                assert(a =~= seq![a[0]] + a.drop_first());
                assert(b =~= seq![b[0]] + b.drop_first());
            }
            lemma_text_lt_total(a.drop_first(), b.drop_first());
        }
    } else if a.len() == 0 && b.len() == 0 {
        assert(a =~= b);
    }
}

proof fn lemma_insert_key(keys: Seq<Seq<char>>, x: Seq<char>)
    requires
        sorted(keys),
    ensures
        sorted(insert_key(keys, x)),
        forall|y: Seq<char>| #[trigger]
            insert_key(keys, x).contains(y) <==> (keys.contains(y) || y == x),
    decreases keys.len(),
{
    if keys.len() == 0 {
        assert(insert_key(keys, x) =~= seq![x]);
        assert forall|y: Seq<char>| insert_key(keys, x).contains(y) <==> (keys.contains(y) || y == x) by {
            if insert_key(keys, x).contains(y) {
                assert(insert_key(keys, x)[0] == x);
            }
            if y == x {
                assert(insert_key(keys, x)[0] == y);
            }
        }
    } else if keys[0] == x {
        assert forall|y: Seq<char>| insert_key(keys, x).contains(y) <==> (keys.contains(y) || y == x) by {
            if y == x {
                assert(keys[0] == y);
            }
        }
    } else if text_lt(x, keys[0]) {
        let r = seq![x] + keys;
        assert(r == insert_key(keys, x));
        assert forall|i: int, j: int| 0 <= i < j < r.len() implies text_lt(#[trigger] r[i], #[trigger] r[j]) by {
            if i == 0 {
                assert(r[j] == keys[j - 1]);
                if j > 1 {
                    assert(text_lt(keys[0], keys[j - 1]));
                    lemma_text_lt_transitive(x, keys[0], keys[j - 1]);
                }
            } else {
                assert(r[i] == keys[i - 1] && r[j] == keys[j - 1]);
            }
        }
        assert forall|y: Seq<char>| r.contains(y) <==> (keys.contains(y) || y == x) by {
            if r.contains(y) {
                let i = choose|i: int| 0 <= i < r.len() && r[i] == y;
                if i > 0 {
                    assert(keys[i - 1] == y);
                }
            }
            if keys.contains(y) {
                let i = choose|i: int| 0 <= i < keys.len() && keys[i] == y;
                assert(r[i + 1] == y);
            }
            if y == x {
                assert(r[0] == y);
            }
        }
    } else {
        let rest = keys.drop_first();
        assert(sorted(rest)) by {
            assert forall|i: int, j: int| 0 <= i < j < rest.len() implies text_lt(#[trigger] rest[i], #[trigger] rest[j]) by {
                assert(rest[i] == keys[i + 1] && rest[j] == keys[j + 1]);
            }
        }
        lemma_insert_key(rest, x);
        lemma_text_lt_total(x, keys[0]);
        let t = insert_key(rest, x);
        let r = seq![keys[0]] + t;
        assert(r == insert_key(keys, x));
        assert forall|y: Seq<char>| t.contains(y) implies text_lt(keys[0], y) by {
            if rest.contains(y) {
                let i = choose|i: int| 0 <= i < rest.len() && rest[i] == y;
                assert(keys[i + 1] == y);
            }
        }
        assert forall|i: int, j: int| 0 <= i < j < r.len() implies text_lt(#[trigger] r[i], #[trigger] r[j]) by {
            if i == 0 {
                assert(r[j] == t[j - 1]);
                assert(t.contains(t[j - 1]));
            } else {
                assert(r[i] == t[i - 1] && r[j] == t[j - 1]);
            }
        }
        assert forall|y: Seq<char>| r.contains(y) <==> (keys.contains(y) || y == x) by {
            if r.contains(y) {
                let i = choose|i: int| 0 <= i < r.len() && r[i] == y;
                if i > 0 {
                    assert(t[i - 1] == y);
                    assert(t.contains(y));
                    if rest.contains(y) {
                        let k = choose|k: int| 0 <= k < rest.len() && rest[k] == y;
                        assert(keys[k + 1] == y);
                    }
                } else {
                    assert(keys[0] == y);
                }
            }
            if keys.contains(y) {
                let i = choose|i: int| 0 <= i < keys.len() && keys[i] == y;
                if i == 0 {
                    assert(r[0] == y);
                } else {
                    assert(rest[i - 1] == y);
                    assert(rest.contains(y));
                    assert(t.contains(y));
                    let k = choose|k: int| 0 <= k < t.len() && t[k] == y;
                    assert(r[k + 1] == y);
                }
            }
            if y == x {
                assert(t.contains(y));
                let k = choose|k: int| 0 <= k < t.len() && t[k] == y;
                assert(r[k + 1] == y);
            }
        }
    }
}

/// The type keys of the first `k` names are in strictly ascending code-point
/// order, so without repeats, and are exactly the types of those names.
pub proof fn lemma_group_keys(names: Seq<Seq<char>>, k: int)
    requires
        0 <= k <= names.len(),
    ensures
        sorted(group_keys(names, k)),
        forall|y: Seq<char>|
            group_keys(names, k).contains(y) <==> exists|j: int|
                0 <= j < k && #[trigger] type_of(names[j]) == y,
    decreases k,
{
    if k > 0 {
        lemma_group_keys(names, k - 1);
        lemma_insert_key(group_keys(names, k - 1), type_of(names[k - 1]));
        assert forall|y: Seq<char>|
            group_keys(names, k).contains(y) <==> exists|j: int|
                0 <= j < k && #[trigger] type_of(names[j]) == y by {
            if group_keys(names, k - 1).contains(y) {
                let j = choose|j: int| 0 <= j < k - 1 && #[trigger] type_of(names[j]) == y;
                assert(0 <= j < k && type_of(names[j]) == y);
            }
            if exists|j: int| 0 <= j < k && #[trigger] type_of(names[j]) == y {
                let j = choose|j: int| 0 <= j < k && #[trigger] type_of(names[j]) == y;
                if j < k - 1 {
                    assert(exists|j2: int| 0 <= j2 < k - 1 && #[trigger] type_of(names[j2]) == y);
                }
            }
        }
    } else {
        assert forall|y: Seq<char>| !group_keys(names, k).contains(y) by {}
    }
}

} // verus!

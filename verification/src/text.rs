//! String helpers shared by the path and file-tree code.
//!
//! Strings are modelled by their sequence of characters. Names are ordered
//! character by character, each character by its code point, which is the
//! order of the standard library on strings.

use vstd::prelude::*;
use vstd::std_specs::iter::IteratorSpec;
use vstd::string::*;

verus! {

broadcast use vstd::string::group_string_axioms;

/// The marker that starts the name of a hidden entry.
pub open spec fn hidden_marker() -> char {
    '.'
}

/// A name is hidden when its first character is the hidden marker.
pub open spec fn is_hidden_name(name: Seq<char>) -> bool {
    name.len() > 0 && name[0] == hidden_marker()
}

/// Tells whether `name` is the name of a hidden entry.
pub fn is_hidden(name: &str) -> (hidden: bool)
    ensures
        hidden == is_hidden_name(name@),
{
    let mut chars = name.chars();
    match chars.next() {
        Some(c) => c == '.',
        None => false,
    }
}

/// The characters of a string that may be absent.
pub open spec fn optional_text(text: Option<String>) -> Option<Seq<char>> {
    match text {
        Some(t) => Some(t@),
        None => None,
    }
}

/// Tells whether two strings hold the same characters.
pub fn same_text(a: &str, b: &str) -> (same: bool)
    ensures
        same == (a@ == b@),
{
    let mut left = a.chars();
    let mut right = b.chars();
    let ghost mut matched: int = 0;
    loop
        invariant
            left.obeys_prophetic_iter_laws(),
            right.obeys_prophetic_iter_laws(),
            left.decrease() is Some,
            0 <= matched <= a@.len(),
            matched <= b@.len(),
            left.remaining() == a@.subrange(matched, a@.len() as int),
            right.remaining() == b@.subrange(matched, b@.len() as int),
            a@.subrange(0, matched) == b@.subrange(0, matched),
        decreases left.decrease()->0,
    {
        let x = left.next();
        let y = right.next();
        match (x, y) {
            (None, None) => {
                assert(a@ =~= a@.subrange(0, matched));
                assert(b@ =~= b@.subrange(0, matched));
                return true;
            },
            (Some(p), Some(q)) => {
                if p != q {
                    assert(a@[matched] != b@[matched]);
                    return false;
                }
                proof {
                    let u = a@.subrange(0, matched + 1);
                    let v = b@.subrange(0, matched + 1);
                    assert forall|k: int| 0 <= k < u.len() implies u[k] == v[k] by {
                        if k < matched {
                            assert(u[k] == a@.subrange(0, matched)[k]);
                            assert(v[k] == b@.subrange(0, matched)[k]);
                        }
                    }
                    assert(u =~= v);
                    matched = matched + 1;
                }
            },
            _ => {
                assert(a@.len() != b@.len());
                return false;
            },
        }
    }
}

/// `a` comes before `b`, or equals it, in the case-sensitive order of names:
/// the first position where the two differ decides, by code point, and a
/// proper prefix comes first.
pub open spec fn name_le(a: Seq<char>, b: Seq<char>) -> bool
    decreases a.len(),
{
    if a.len() == 0 {
        true
    } else if b.len() == 0 {
        false
    } else if a[0] != b[0] {
        (a[0] as int) < (b[0] as int)
    } else {
        name_le(a.drop_first(), b.drop_first())
    }
}

/// Compares two names in the case-sensitive order of names.
pub fn name_precedes(a: &str, b: &str) -> (le: bool)
    ensures
        le == name_le(a@, b@),
{
    let mut left = a.chars();
    let mut right = b.chars();
    loop
        invariant
            name_le(a@, b@) == name_le(left.remaining(), right.remaining()),
            left.obeys_prophetic_iter_laws(),
            right.obeys_prophetic_iter_laws(),
            left.decrease() is Some,
        decreases left.decrease()->0,
    {
        let x = left.next();
        let y = right.next();
        match (x, y) {
            (None, _) => {
                return true;
            },
            (Some(_), None) => {
                return false;
            },
            (Some(p), Some(q)) => {
                if p != q {
                    return p < q;
                }
            },
        }
    }
}


/// `a` is the start of `b`.
pub open spec fn is_prefix(a: Seq<char>, b: Seq<char>) -> bool {
    a.len() <= b.len() && b.subrange(0, a.len() as int) == a
}

/// The two names agree in front of position `k`, where `a` has the smaller
/// character.
pub open spec fn differs_below(a: Seq<char>, b: Seq<char>, k: int) -> bool {
    &&& 0 <= k < a.len()
    &&& k < b.len()
    &&& a.subrange(0, k) == b.subrange(0, k)
    &&& (a[k] as int) < (b[k] as int)
}

/// The order of names is the order of a dictionary: `a` comes no later than
/// `b` exactly when `a` is the start of `b`, or has the smaller character at
/// the first position where the two differ.
pub proof fn lemma_name_le_is_lexicographic(a: Seq<char>, b: Seq<char>)
    ensures
        name_le(a, b) <==> is_prefix(a, b) || exists|k: int| differs_below(a, b, k),
    decreases a.len(),
{
    if a.len() == 0 {
        assert(b.subrange(0, 0) =~= a);
    } else if b.len() == 0 {
    } else if a[0] != b[0] {
        assert(b.subrange(0, a.len() as int)[0] == b[0] || !is_prefix(a, b));
        if (a[0] as int) < (b[0] as int) {
            assert(a.subrange(0, 0) =~= b.subrange(0, 0));
            assert(differs_below(a, b, 0));
        } else {
            assert forall|k: int| !differs_below(a, b, k) by {
                if 0 < k < a.len() && k < b.len() && a.subrange(0, k) == b.subrange(0, k) {
                    assert(a.subrange(0, k)[0] == a[0]);
                    assert(b.subrange(0, k)[0] == b[0]);
                }
            }
        }
    } else {
        let x = a.drop_first();
        let y = b.drop_first();
        lemma_name_le_is_lexicographic(x, y);
        if is_prefix(x, y) {
            let u = b.subrange(0, a.len() as int);
            assert(u =~= a) by {
                assert forall|i: int| 0 <= i < a.len() implies #[trigger] u[i] == a[i] by {
                    if i > 0 {
                        assert(y.subrange(0, x.len() as int)[i - 1] == x[i - 1]);
                    }
                }
            }
        }
        if is_prefix(a, b) {
            let u = y.subrange(0, x.len() as int);
            assert(u =~= x) by {
                assert forall|i: int| 0 <= i < x.len() implies #[trigger] u[i] == x[i] by {
                    assert(b.subrange(0, a.len() as int)[i + 1] == a[i + 1]);
                }
            }
        }
        if exists|k: int| differs_below(x, y, k) {
            let k = choose|k: int| differs_below(x, y, k);
            let u = a.subrange(0, k + 1);
            let v = b.subrange(0, k + 1);
            assert(u =~= v) by {
                assert forall|i: int| 0 <= i < u.len() implies #[trigger] u[i] == v[i] by {
                    if i > 0 {
                        assert(x.subrange(0, k)[i - 1] == y.subrange(0, k)[i - 1]);
                    }
                }
            }
            assert(differs_below(a, b, k + 1));
        }
        if exists|k: int| differs_below(a, b, k) {
            let k = choose|k: int| differs_below(a, b, k);
            assert(k > 0);
            let u = x.subrange(0, k - 1);
            let v = y.subrange(0, k - 1);
            assert(u =~= v) by {
                assert forall|i: int| 0 <= i < u.len() implies #[trigger] u[i] == v[i] by {
                    assert(a.subrange(0, k)[i + 1] == b.subrange(0, k)[i + 1]);
                }
            }
            assert(differs_below(x, y, k - 1));
        }
    }
}

/// Every name ranks with itself.
pub proof fn lemma_name_le_reflexive(a: Seq<char>)
    ensures
        name_le(a, a),
    decreases a.len(),
{
    if a.len() > 0 {
        lemma_name_le_reflexive(a.drop_first());
    }
}

/// Of two names one comes before the other, or they rank together.
pub proof fn lemma_name_le_total(a: Seq<char>, b: Seq<char>)
    ensures
        name_le(a, b) || name_le(b, a),
    decreases a.len(),
{
    if a.len() > 0 && b.len() > 0 && a[0] == b[0] {
        lemma_name_le_total(a.drop_first(), b.drop_first());
    }
}

/// The order of names carries over a name in between.
pub proof fn lemma_name_le_transitive(a: Seq<char>, b: Seq<char>, c: Seq<char>)
    requires
        name_le(a, b),
        name_le(b, c),
    ensures
        name_le(a, c),
    decreases a.len(),
{
    if a.len() > 0 && b.len() > 0 && c.len() > 0 && a[0] == b[0] && b[0] == c[0] {
        lemma_name_le_transitive(a.drop_first(), b.drop_first(), c.drop_first());
    }
}

/// Two names that rank together are the same name.
pub proof fn lemma_name_le_antisymmetric(a: Seq<char>, b: Seq<char>)
    requires
        name_le(a, b),
        name_le(b, a),
    ensures
        a == b,
    decreases a.len(),
{
    if a.len() > 0 && b.len() > 0 {
        lemma_name_le_antisymmetric(a.drop_first(), b.drop_first());
        assert(a =~= seq![a[0]] + a.drop_first());
        assert(b =~= seq![b[0]] + b.drop_first());
    } else {
        assert(a =~= b);
    }
}

} // verus!

//! Feature names: what can serve as one, and their order, which compares strings character by
//! character.

use std::borrow::Cow;
use vstd::prelude::*;
use vstd::string::*;

verus! {

/// How one name stands to another in the order of names.
#[derive(Clone, Copy, Debug, PartialEq, Eq, Structural)]
pub enum NameOrder {
    Before,
    Same,
    After,
}

/// `a` and `b` agree on their first `k` characters, and at position `k` either `a` has ended
/// while `b` goes on, or `a` holds the smaller character.
pub open spec fn precedes_at(a: Seq<char>, b: Seq<char>, k: int) -> bool {
    &&& 0 <= k <= a.len()
    &&& k < b.len()
    &&& forall|j: int| 0 <= j < k ==> a[j] == b[j]
    &&& (k < a.len() ==> a[k] < b[k])
}

/// The strict lexicographic order of names by character code.
pub open spec fn name_lt(a: Seq<char>, b: Seq<char>) -> bool {
    exists|k: int| precedes_at(a, b, k)
}

/// What `order` says of `a` relative to `b`.
pub open spec fn order_of(a: Seq<char>, b: Seq<char>) -> NameOrder {
    if a == b {
        NameOrder::Same
    } else if name_lt(a, b) {
        NameOrder::Before
    } else {
        NameOrder::After
    }
}

/// No name precedes itself.
pub proof fn lemma_name_lt_irreflexive(a: Seq<char>)
    ensures
        !name_lt(a, a),
{
}

/// The order of names is transitive.
pub proof fn lemma_name_lt_transitive(a: Seq<char>, b: Seq<char>, c: Seq<char>)
    requires
        name_lt(a, b),
        name_lt(b, c),
    ensures
        name_lt(a, c),
{
    let k1 = choose|k: int| precedes_at(a, b, k);
    let k2 = choose|k: int| precedes_at(b, c, k);
    let k = if k1 <= k2 { k1 } else { k2 };
    assert(precedes_at(a, c, k));
}

/// Of two different names, one precedes the other.
pub proof fn lemma_name_lt_total(a: Seq<char>, b: Seq<char>)
    ensures
        a == b || name_lt(a, b) || name_lt(b, a),
        !(name_lt(a, b) && name_lt(b, a)),
{
    if name_lt(a, b) && name_lt(b, a) {
        lemma_name_lt_transitive(a, b, a);
    }
    if a != b && !name_lt(a, b) && !name_lt(b, a) {
        lemma_common_prefix(a, b, 0);
    }
}

/// Two names that agree up to `k`, neither preceding the other at or after `k`, are equal.
proof fn lemma_common_prefix(a: Seq<char>, b: Seq<char>, k: int)
    requires
        0 <= k <= a.len(),
        k <= b.len(),
        forall|j: int| 0 <= j < k ==> a[j] == b[j],
        !name_lt(a, b),
        !name_lt(b, a),
    ensures
        a == b,
    decreases a.len() - k,
{
    if k == a.len() {
        if k < b.len() {
            assert(precedes_at(a, b, k));
        }
        assert(a =~= b);
    } else if k == b.len() {
        assert(precedes_at(b, a, k));
    } else {
        if a[k] != b[k] {
            if a[k] < b[k] {
                assert(precedes_at(a, b, k));
            } else {
                assert(precedes_at(b, a, k));
            }
        }
        lemma_common_prefix(a, b, k + 1);
    }
}

/// Whether `c` is an ASCII letter, an ASCII digit or an underscore.
pub open spec fn is_plain_char(c: char) -> bool {
    ('a' <= c && c <= 'z') || ('A' <= c && c <= 'Z') || ('0' <= c && c <= '9') || c == '_'
}

/// Whether every character of `s` is an ASCII letter, an ASCII digit or an underscore.
pub open spec fn is_plain(s: Seq<char>) -> bool {
    forall|i: int| 0 <= i < s.len() ==> is_plain_char(#[trigger] s[i])
}

/// Compares two names character by character.
pub fn order(a: &str, b: &str) -> (r: NameOrder)
    ensures
        r == order_of(a@, b@),
{
    let la: usize = a.unicode_len();
    let lb: usize = b.unicode_len();
    let mut i: usize = 0;
    while i < la && i < lb
        invariant
            la == a@.len(),
            lb == b@.len(),
            i <= la,
            i <= lb,
            forall|j: int| 0 <= j < i ==> a@[j] == b@[j],
        decreases la - i,
    {
        let ca: char = a.get_char(i);
        let cb: char = b.get_char(i);
        if ca < cb {
            proof {
                assert(precedes_at(a@, b@, i as int));
                lemma_name_lt_total(a@, b@);
                lemma_name_lt_irreflexive(a@);
            }
            return NameOrder::Before;
        }
        if cb < ca {
            proof {
                assert(precedes_at(b@, a@, i as int));
                lemma_name_lt_total(a@, b@);
                lemma_name_lt_irreflexive(a@);
            }
            return NameOrder::After;
        }
        i = i + 1;
    }
    if la < lb {
        proof {
            assert(precedes_at(a@, b@, i as int));
            lemma_name_lt_irreflexive(a@);
        }
        NameOrder::Before
    } else if lb < la {
        proof {
            assert(precedes_at(b@, a@, i as int));
            lemma_name_lt_total(a@, b@);
            lemma_name_lt_irreflexive(a@);
        }
        NameOrder::After
    } else {
        proof {
            assert(a@ =~= b@);
        }
        NameOrder::Same
    }
}

/// Name of a feature, as recognized by this crate.
///
/// Two values with the same text are the same name.
pub trait FeatureName {
    /// The text of the name.
    spec fn text(&self) -> Seq<char>;

    /// The name as a string slice.
    fn as_name(&self) -> (s: &str)
        ensures
            s@ == self.text(),
    ;
}

impl FeatureName for String {
    open spec fn text(&self) -> Seq<char> {
        self@
    }

    fn as_name(&self) -> (s: &str) {
        self.as_str()
    }
}

impl<'a> FeatureName for &'a str {
    open spec fn text(&self) -> Seq<char> {
        self@
    }

    fn as_name(&self) -> (s: &str) {
        *self
    }
}

impl<'a> FeatureName for Cow<'a, str> {
    open spec fn text(&self) -> Seq<char> {
        self@
    }

    fn as_name(&self) -> (s: &str) {
        match self {
            Cow::Borrowed(borrowed) => borrowed,
            Cow::Owned(owned) => owned.as_str(),
        }
    }
}

impl<'a, T: FeatureName> FeatureName for &'a T {
    open spec fn text(&self) -> Seq<char> {
        (**self).text()
    }

    fn as_name(&self) -> (s: &str) {
        (**self).as_name()
    }
}

impl<T: FeatureName> FeatureName for std::rc::Rc<T> {
    open spec fn text(&self) -> Seq<char> {
        (**self).text()
    }

    fn as_name(&self) -> (s: &str) {
        (**self).as_name()
    }
}

impl<T: FeatureName> FeatureName for std::sync::Arc<T> {
    open spec fn text(&self) -> Seq<char> {
        (**self).text()
    }

    fn as_name(&self) -> (s: &str) {
        (**self).as_name()
    }
}

impl<T: FeatureName> FeatureName for Box<T> {
    open spec fn text(&self) -> Seq<char> {
        (**self).text()
    }

    fn as_name(&self) -> (s: &str) {
        (**self).as_name()
    }
}

} // verus!

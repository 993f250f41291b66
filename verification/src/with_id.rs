//! The identity wrapper: a value together with a unique string
//! identifier, handed out at construction and never changed afterwards.
//! Cloning re-wraps a clone of the inner value under a fresh identifier;
//! equality and ordering compare identifier and wrapped value together,
//! so two separately constructed wrappers of equal values compare
//! unequal.

use vstd::prelude::*;
use vstd::pervasive::cloned;
use vstd::std_specs::cmp::{PartialEqSpec, PartialEqSpecImpl, PartialOrdSpec, PartialOrdSpecImpl};
use vstd::std_specs::convert::FromSpecImpl;

verus! {

/// A character of the URL-safe alphabet: a letter, a digit, `-` or `_`.
pub open spec fn url_safe_char(c: char) -> bool {
    (97 <= c as u32 && c as u32 <= 122)  // 'a' ..= 'z'
    || (65 <= c as u32 && c as u32 <= 90)  // 'A' ..= 'Z'
    || (48 <= c as u32 && c as u32 <= 57)  // '0' ..= '9'
    || c == '-' || c == '_'
}

/// Relies on `nanoid::format` with the URL-safe 64-character alphabet:
/// it draws random bytes from the operating system and returns a token
/// of exactly 21 characters, one per byte drawn, each taken from that
/// alphabet. Which token comes back depends on the random source, so
/// nothing more is stated of it.
#[verifier::external_body]
fn random_token() -> (r: String)
    ensures
        r@.len() == 21,
        forall|i: int| 0 <= i < r@.len() ==> url_safe_char(#[trigger] r@[i]),
{
    nanoid::format(nanoid::rngs::default, &nanoid::alphabet::SAFE, 21)
}

/// Lexicographic order on character sequences: the first differing
/// position decides by code point, and a proper prefix comes first.
pub open spec fn lex_cmp(a: Seq<char>, b: Seq<char>) -> core::cmp::Ordering
    decreases a.len(),
{
    if a.len() == 0 && b.len() == 0 {
        core::cmp::Ordering::Equal
    } else if a.len() == 0 {
        core::cmp::Ordering::Less
    } else if b.len() == 0 {
        core::cmp::Ordering::Greater
    } else if a[0] == b[0] {
        lex_cmp(a.drop_first(), b.drop_first())
    } else if (a[0] as u32) < (b[0] as u32) {
        core::cmp::Ordering::Less
    } else {
        core::cmp::Ordering::Greater
    }
}

/// Law: the lexicographic order finds two sequences equal exactly when
/// they are the same sequence.
pub proof fn lemma_lex_cmp_equal_iff(a: Seq<char>, b: Seq<char>)
    ensures
        (lex_cmp(a, b) == core::cmp::Ordering::Equal) <==> (a == b),
    decreases a.len(),
{
    if a.len() == 0 && b.len() == 0 {
        assert(a =~= b);
    } else if a.len() == 0 || b.len() == 0 {
        assert(a.len() != b.len());
    } else if a[0] == b[0] {
        lemma_lex_cmp_equal_iff(a.drop_first(), b.drop_first());
        if a.drop_first() == b.drop_first() {
            assert forall|i: int| 0 <= i < a.len() implies a[i] == b[i] by {
                if i > 0 {
                    assert(a.drop_first()[i - 1] == b.drop_first()[i - 1]);
                }
            }
            assert(a =~= b);
        }
        if a == b {
            assert(a.drop_first() =~= b.drop_first());
        }
    }
}

fn cmp_chars_from(a: &str, b: &str, i: usize) -> (r: core::cmp::Ordering)
    requires
        i <= a@.len(),
        i <= b@.len(),
    ensures
        r == lex_cmp(a@.skip(i as int), b@.skip(i as int)),
    decreases a@.len() - i,
{
    let an = a.unicode_len();
    let bn = b.unicode_len();
    if i >= an && i >= bn {
        core::cmp::Ordering::Equal
    } else if i >= an {
        core::cmp::Ordering::Less
    } else if i >= bn {
        core::cmp::Ordering::Greater
    } else {
        let ca = a.get_char(i);
        let cb = b.get_char(i);
        if ca == cb {
            proof {
                assert(a@.skip(i as int).drop_first() =~= a@.skip(i as int + 1));
                assert(b@.skip(i as int).drop_first() =~= b@.skip(i as int + 1));
            }
            cmp_chars_from(a, b, i + 1)
        } else if (ca as u32) < (cb as u32) {
            core::cmp::Ordering::Less
        } else {
            core::cmp::Ordering::Greater
        }
    }
}

/// Compares two strings lexicographically by character.
fn cmp_str(a: &str, b: &str) -> (r: core::cmp::Ordering)
    ensures
        r == lex_cmp(a@, b@),
{
    proof {
        assert(a@.skip(0) =~= a@);
        assert(b@.skip(0) =~= b@);
    }
    cmp_chars_from(a, b, 0)
}

/// A value of `T` together with its identifier. The fields are exposed
/// so that contracts elsewhere can speak of them; the library itself
/// writes `id` only at construction.
#[derive(Debug)]
pub struct WithId<T> {
    pub id: String,
    pub inner: T,
}

impl<T> WithId<T> {
    /// The identifier, as the sequence of its characters.
    pub open spec fn id_view(&self) -> Seq<char> {
        self.id@
    }

    /// Wraps a value, attaching a freshly generated identifier: a bare
    /// random token. The token is random, so two calls on equal values
    /// are expected - though not promised by the random source - to hand
    /// out distinct identifiers. `with_label` builds the qualified form
    /// of the identifier from a label that the host supplies, such as
    /// the wrapped type's name.
    pub fn new(inner: T) -> (r: WithId<T>)
        ensures
            r.inner == inner,
            r.id_view().len() == 21,
            forall|i: int| 0 <= i < r.id_view().len() ==> url_safe_char(#[trigger] r.id_view()[i]),
    {
        let id = random_token();
        WithId { id, inner }
    }

    /// Wraps a value under a qualified identifier: the given label (the
    /// host passes the wrapped type's name there), the `::` separator,
    /// then a fresh 21-character URL-safe random token. The token is
    /// random, so only the identifier's shape is stated.
    pub fn with_label(label: &str, inner: T) -> (r: WithId<T>)
        ensures
            r.inner == inner,
            r.id_view().len() == label@.len() + 23,
            r.id_view().subrange(0, label@.len() as int) == label@,
            r.id_view().subrange(label@.len() as int, label@.len() as int + 2) == "::"@,
            forall|i: int|
                label@.len() + 2 <= i < r.id_view().len() ==> url_safe_char(
                    #[trigger] r.id_view()[i],
                ),
    {
        let mut id = String::from_str(label);
        id.append("::");
        let token = random_token();
        id.append(token.as_str());
        proof {
            reveal_strlit("::");
            assert(id@ =~= label@ + "::"@ + token@);
            assert(id@.subrange(0, label@.len() as int) =~= label@);
            assert(id@.subrange(label@.len() as int, label@.len() as int + 2) =~= "::"@);
            assert forall|i: int| label@.len() + 2 <= i < id@.len() implies url_safe_char(
                id@[i],
            ) by {
                assert(id@[i] == token@[i - (label@.len() + 2)]);
            }
        }
        WithId { id, inner }
    }

    /// The identifier attached at construction.
    pub fn id(&self) -> (r: &str)
        ensures
            r@ == self.id_view(),
    {
        self.id.as_str()
    }
}

impl<T> core::ops::Deref for WithId<T> {
    type Target = T;

    /// Read access reaches the wrapped value.
    fn deref(&self) -> (r: &T)
        ensures
            *r == self.inner,
    {
        &self.inner
    }
}

impl<T> core::ops::DerefMut for WithId<T> {
    /// Write access reaches the wrapped value; the identifier stays.
    fn deref_mut(&mut self) -> (r: &mut T)
        ensures
            *r == old(self).inner,
            final(self).inner == *final(r),
            final(self).id == old(self).id,
    {
        &mut self.inner
    }
}

impl<T: Clone> Clone for WithId<T> {
    /// Cloning wraps a clone of the inner value under a fresh
    /// identifier: the clone gets an identity of its own.
    fn clone(&self) -> (r: Self)
        ensures
            cloned::<T>(self.inner, r.inner),
            r.id_view().len() == 21,
            forall|i: int| 0 <= i < r.id_view().len() ==> url_safe_char(#[trigger] r.id_view()[i]),
    {
        WithId::new(self.inner.clone())
    }
}

impl<T: PartialEq> PartialEq for WithId<T> {
    /// Two wrappers are equal only when both the identifiers and the
    /// wrapped values are.
    fn eq(&self, other: &Self) -> (r: bool) {
        self.id == other.id && self.inner == other.inner
    }
}

impl<T: PartialEq> PartialEqSpecImpl for WithId<T> {
    open spec fn obeys_eq_spec() -> bool {
        T::obeys_eq_spec()
    }

    open spec fn eq_spec(&self, other: &Self) -> bool {
        self.id_view() == other.id_view() && self.inner.eq_spec(&other.inner)
    }
}

impl<T: Eq> Eq for WithId<T> {

}

impl<T: PartialOrd> PartialOrd for WithId<T> {
    /// Ordering compares identifier and wrapped value together: the
    /// identifiers decide lexicographically, and only wrappers with the
    /// same identifier fall through to the wrapped values. So equal
    /// wrapped values under distinct identifiers never compare equal,
    /// which keeps the order consistent with equality.
    fn partial_cmp(&self, other: &Self) -> (r: Option<core::cmp::Ordering>) {
        match cmp_str(self.id.as_str(), other.id.as_str()) {
            core::cmp::Ordering::Equal => self.inner.partial_cmp(&other.inner),
            core::cmp::Ordering::Less => Some(core::cmp::Ordering::Less),
            core::cmp::Ordering::Greater => Some(core::cmp::Ordering::Greater),
        }
    }
}

impl<T: PartialOrd> PartialOrdSpecImpl for WithId<T> {
    open spec fn obeys_partial_cmp_spec() -> bool {
        T::obeys_partial_cmp_spec()
    }

    open spec fn partial_cmp_spec(&self, other: &Self) -> Option<core::cmp::Ordering> {
        if lex_cmp(self.id@, other.id@) == core::cmp::Ordering::Equal {
            self.inner.partial_cmp_spec(&other.inner)
        } else {
            Some(lex_cmp(self.id@, other.id@))
        }
    }
}

/// Law: two wrappers with equal wrapped values but distinct identifiers
/// compare unequal: not equal by the equality spec, and never
/// `Some(Equal)` by the ordering spec.
pub proof fn lemma_distinct_identifiers_compare_unequal<T: PartialOrd>(a: WithId<T>, b: WithId<T>)
    requires
        a.id_view() != b.id_view(),
    ensures
        !PartialEqSpec::eq_spec(&a, &b),
        PartialOrdSpec::partial_cmp_spec(&a, &b) != Some(core::cmp::Ordering::Equal),
{
    lemma_lex_cmp_equal_iff(a.id@, b.id@);
}

impl<T: Default> Default for WithId<T> {
    /// The default wrapper holds the default inner value, under a fresh
    /// identifier.
    fn default() -> (r: Self)
        ensures
            call_ensures(T::default, (), r.inner),
            r.id_view().len() == 21,
            forall|i: int| 0 <= i < r.id_view().len() ==> url_safe_char(#[trigger] r.id_view()[i]),
    {
        WithId::new(T::default())
    }
}

impl<T> From<T> for WithId<T> {
    /// Wrapping through `From` is construction: the value is kept and a
    /// fresh identifier attached, so no fixed identifier can be promised.
    fn from(value: T) -> (r: Self)
        ensures
            r.inner == value,
            r.id_view().len() == 21,
            forall|i: int| 0 <= i < r.id_view().len() ==> url_safe_char(#[trigger] r.id_view()[i]),
    {
        WithId::new(value)
    }
}

impl<T> FromSpecImpl<T> for WithId<T> {
    open spec fn obeys_from_spec() -> bool {
        false
    }

    open spec fn from_spec(t: T) -> Self {
        arbitrary()
    }
}

} // verus!

//! The channel roster handed in by the chat service, and the set used to
//! deduplicate it before a bulk reward.
use vstd::prelude::*;

verus! {

/// The three-way roster of a channel as the external provider lists it:
/// current viewers, moderators, and the broadcaster.
pub struct Chatters {
    pub viewers: Vec<String>,
    pub moderators: Vec<String>,
    pub broadcaster: Vec<String>,
}

/// The set of user names a roster contributes.
pub open spec fn set_of_names(s: Seq<String>) -> Set<Seq<char>> {
    s.map_values(|u: String| u@).to_set()
}

pub proof fn lemma_set_of_names_take_step(s: Seq<String>, i: int)
    requires
        0 <= i < s.len(),
    ensures
        set_of_names(s.take(i + 1)) == set_of_names(s.take(i)).insert(s[i]@),
{
    let a = s.take(i + 1).map_values(|u: String| u@);
    let b = s.take(i).map_values(|u: String| u@);
    assert(a =~= b.push(s[i]@));
    assert forall|x: Seq<char>| a.to_set().contains(x) implies b.to_set().insert(
        s[i]@,
    ).contains(x) by {
        let j = choose|j: int| 0 <= j < a.len() && a[j] == x;
        if j < i {
            assert(b[j] == x);
            assert(b.contains(x));
        }
    }
    assert forall|x: Seq<char>| b.to_set().insert(s[i]@).contains(x) implies a.to_set().contains(
        x,
    ) by {
        if b.to_set().contains(x) {
            let j = choose|j: int| 0 <= j < b.len() && b[j] == x;
            assert(a[j] == x);
            assert(a.contains(x));
        } else {
            assert(a[i] == s[i]@);
            assert(a.contains(s[i]@));
        }
    }
    assert(set_of_names(s.take(i + 1)) =~= set_of_names(s.take(i)).insert(s[i]@));
}

/// A deduplicated set of user names, backed by a hash set whose walk
/// order is arbitrary.
#[verifier::external_body]
pub struct UserSet {
    inner: hashbrown::HashSet<String>,
}

/// The names a `UserSet` holds.
pub uninterp spec fn user_set_contents(s: UserSet) -> Set<Seq<char>>;

impl UserSet {
    /// Relies on `hashbrown::HashSet::new`: a fresh set is empty.
    #[verifier::external_body]
    pub fn new() -> (r: UserSet)
        ensures
            user_set_contents(r) == Set::<Seq<char>>::empty(),
    {
        UserSet { inner: hashbrown::HashSet::new() }
    }

    /// Relies on `hashbrown::HashSet::insert`: the value joins the set,
    /// and the result says whether it was newly inserted.
    #[verifier::external_body]
    pub fn insert(&mut self, value: String) -> (r: bool)
        ensures
            user_set_contents(*final(self)) == user_set_contents(*old(self)).insert(value@),
            r == !user_set_contents(*old(self)).contains(value@),
    {
        self.inner.insert(value)
    }

    /// Relies on `hashbrown::HashSet::len`: the number of held names.
    #[verifier::external_body]
    pub fn len(&self) -> (r: usize)
        ensures
            user_set_contents(*self).finite() ==> r as nat == user_set_contents(*self).len(),
    {
        self.inner.len()
    }

    /// Relies on `hashbrown::HashSet::into_iter`: every held name exactly
    /// once, in an order that is not specified.
    #[verifier::external_body]
    pub fn into_names(self) -> (r: Vec<String>)
        ensures
            forall|i: int| 0 <= i < r@.len() ==> user_set_contents(self).contains(#[trigger] r@[i]@),
            forall|i: int, j: int| 0 <= i < j < r@.len() ==> r@[i]@ != r@[j]@,
            forall|x: Seq<char>| user_set_contents(self).contains(x) ==> exists|i: int|
                0 <= i < r@.len() && #[trigger] r@[i]@ == x,
            user_set_contents(self).finite() ==> r@.len() == user_set_contents(self).len(),
    {
        self.inner.into_iter().collect()
    }
}

} // verus!

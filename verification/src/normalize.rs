//! Identifier normalization.  Every backend addresses rows the same way:
//! channel names carry a single leading `#` marker, and user names are
//! case-folded before any storage access.
use vstd::prelude::*;

verus! {

/// Number of leading `#` characters of `s`.
pub open spec fn leading_marks(s: Seq<char>) -> int
    decreases s.len(),
{
    if s.len() == 0 || s[0] != '#' {
        0
    } else {
        1 + leading_marks(s.drop_first())
    }
}

/// The canonical form of a channel name: one `#` marker followed by the
/// name stripped of every leading `#`.
pub open spec fn canon_channel(s: Seq<char>) -> Seq<char> {
    seq!['#'] + s.skip(leading_marks(s))
}

/// Whether a channel name is already in canonical form.
pub open spec fn is_canon_channel(s: Seq<char>) -> bool {
    &&& s.len() >= 1
    &&& s[0] == '#'
    &&& (s.len() == 1 || s[1] != '#')
}

pub proof fn lemma_leading_marks_bounds(s: Seq<char>)
    ensures
        0 <= leading_marks(s) <= s.len(),
        forall|j: int| 0 <= j < leading_marks(s) ==> s[j] == '#',
        leading_marks(s) < s.len() ==> s[leading_marks(s)] != '#',
    decreases s.len(),
{
    if s.len() == 0 || s[0] != '#' {
    } else {
        lemma_leading_marks_bounds(s.drop_first());
        assert forall|j: int| 0 <= j < leading_marks(s) implies s[j] == '#' by {
            if j > 0 {
                assert(s.drop_first()[j - 1] == s[j]);
            }
        }
    }
}

pub proof fn lemma_canon_is_canon(s: Seq<char>)
    ensures
        is_canon_channel(canon_channel(s)),
{
    lemma_leading_marks_bounds(s);
    let c = canon_channel(s);
    if c.len() > 1 {
        assert(c[1] == s[leading_marks(s)]);
    }
}

pub proof fn lemma_canon_idempotent(s: Seq<char>)
    requires
        is_canon_channel(s),
    ensures
        canon_channel(s) == s,
{
    assert(leading_marks(s.drop_first()) == 0);
    assert(leading_marks(s) == 1);
    assert(canon_channel(s) =~= s);
}

/// Rewrite a channel name to its canonical form: a single `#` marker
/// followed by the name with all leading `#` characters removed.
pub fn channel_id(channel: &str) -> (r: String)
    ensures
        r@ == canon_channel(channel@),
        is_canon_channel(r@),
{
    proof {
        reveal_strlit("#");
        lemma_leading_marks_bounds(channel@);
    }
    let n = channel.unicode_len();
    let mut i: usize = 0;
    while i < n && channel.get_char(i) == '#'
        invariant
            0 <= i <= n,
            n == channel@.len(),
            forall|j: int| 0 <= j < i ==> channel@[j] == '#',
        decreases n - i,
    {
        i = i + 1;
    }
    proof {
        let lm = leading_marks(channel@);
        if i < lm {
            assert(channel@[i as int] == '#');
            assert(false);
        }
        if lm < i {
            assert(channel@[lm] == '#');
            assert(false);
        }
    }
    let rest = channel.substring_char(i, n);
    let mut r = String::from_str("#");
    r.append(rest);
    proof {
        assert(r@ =~= canon_channel(channel@));
        lemma_canon_is_canon(channel@);
    }
    r
}

/// What `str::to_lowercase` returns: a pure function of the characters of
/// its input.
pub uninterp spec fn lower_of(s: Seq<char>) -> Seq<char>;

/// Case-fold a user name before it is used as a storage key.
///
/// Relies on `str::to_lowercase`: the result depends on the characters of
/// the input alone, and an empty input stays empty.
#[verifier::external_body]
pub fn user_id(user: &str) -> (r: String)
    ensures
        r@ == lower_of(user@),
        user@.len() == 0 ==> r@.len() == 0,
{
    user.to_lowercase()
}

} // verus!

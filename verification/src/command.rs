//! Shared plumbing for chat commands: the alias that was expanded for a
//! command invocation, and the word arithmetic it needs.  Words are the
//! maximal runs of non-space characters of a string.
use vstd::assert_seqs_equal;
use vstd::prelude::*;

use crate::builtin::names_of;

verus! {

/// Length of the leading run of non-space characters.
pub open spec fn word_end(s: Seq<char>) -> int
    decreases s.len(),
{
    if s.len() == 0 || s[0] == ' ' {
        0
    } else {
        1 + word_end(s.drop_first())
    }
}

pub proof fn lemma_word_end_bounds(s: Seq<char>)
    ensures
        0 <= word_end(s) <= s.len(),
        forall|j: int| 0 <= j < word_end(s) ==> s[j] != ' ',
        word_end(s) < s.len() ==> s[word_end(s)] == ' ',
    decreases s.len(),
{
    if s.len() == 0 || s[0] == ' ' {
    } else {
        lemma_word_end_bounds(s.drop_first());
        assert forall|j: int| 0 <= j < word_end(s) implies s[j] != ' ' by {
            if j > 0 {
                assert(s.drop_first()[j - 1] == s[j]);
            }
        }
        if word_end(s) < s.len() {
            assert(s.drop_first()[word_end(s) - 1] == s[word_end(s)]);
        }
    }
}

/// The words of a string: its maximal runs of non-space characters, in
/// order.
pub open spec fn words_of(s: Seq<char>) -> Seq<Seq<char>>
    decreases s.len(),
    via words_of_decreases
{
    if s.len() == 0 {
        Seq::empty()
    } else if s[0] == ' ' {
        words_of(s.drop_first())
    } else {
        seq![s.take(word_end(s))] + words_of(s.skip(word_end(s)))
    }
}

#[via_fn]
proof fn words_of_decreases(s: Seq<char>) {
    if s.len() > 0 && s[0] != ' ' {
        lemma_word_end_bounds(s);
        assert(word_end(s) >= 1);
    }
}

/// Words joined by single spaces.
pub open spec fn join_words(ws: Seq<Seq<char>>) -> Seq<char>
    decreases ws.len(),
{
    if ws.len() == 0 {
        Seq::empty()
    } else if ws.len() == 1 {
        ws[0]
    } else {
        join_words(ws.drop_last()) + seq![' '] + ws.last()
    }
}

/// Split a string into its words.
pub fn words(s: &str) -> (r: Vec<String>)
    ensures
        names_of(r@) == words_of(s@),
{
    let n = s.unicode_len();
    let mut r: Vec<String> = Vec::new();
    let mut p: usize = 0;
    proof {
        assert(s@.skip(0) =~= s@);
        assert(names_of(r@) + words_of(s@) =~= words_of(s@));
    }
    while p < n
        invariant
            0 <= p <= n,
            n == s@.len(),
            words_of(s@) == names_of(r@) + words_of(s@.skip(p as int)),
        decreases n - p,
    {
        if s.get_char(p) == ' ' {
            proof {
                assert(s@.skip(p as int).drop_first() =~= s@.skip(p as int + 1));
            }
            p = p + 1;
        } else {
            let ghost sub = s@.skip(p as int);
            let mut e: usize = p + 1;
            while e < n && s.get_char(e) != ' '
                invariant
                    p < e <= n,
                    n == s@.len(),
                    forall|j: int| p <= j < e ==> s@[j] != ' ',
                decreases n - e,
            {
                e = e + 1;
            }
            proof {
                lemma_word_end_bounds(sub);
                let we = word_end(sub);
                assert forall|j: int| 0 <= j < e - p implies sub[j] != ' ' by {
                    assert(sub[j] == s@[p + j]);
                }
                if we < e - p {
                    assert(sub[we] == ' ');
                }
                if we > e - p {
                    assert(e < n || e - p < sub.len() && we <= sub.len());
                    assert(e < n);
                    assert(s@[e as int] == ' ');
                    assert(sub[e - p] == ' ');
                }
                assert(we == e - p);
            }
            let w = s.substring_char(p, e);
            let ghost r0 = r@;
            r.push(String::from_str(w));
            proof {
                assert(sub.take(e - p) =~= s@.subrange(p as int, e as int));
                assert(sub.skip(e - p) =~= s@.skip(e as int));
                assert(words_of(sub) == seq![w@] + words_of(s@.skip(e as int)));
                assert(names_of(r@) =~= names_of(r0).push(w@));
                assert(names_of(r0) + words_of(sub) =~= names_of(r@) + words_of(
                    s@.skip(e as int),
                ));
            }
            p = e;
        }
    }
    proof {
        assert(s@.skip(n as int) =~= Seq::<char>::empty());
        assert(names_of(r@) + words_of(s@.skip(n as int)) =~= names_of(r@));
    }
    r
}

/// Join parts with single spaces.
pub fn join_spaced(parts: &Vec<String>) -> (r: String)
    ensures
        r@ == join_words(names_of(parts@)),
{
    let n = parts.len();
    if n == 0 {
        return String::new();
    }
    let mut r = parts[0].clone();
    let mut i: usize = 1;
    while i < n
        invariant
            1 <= i <= n,
            n == parts@.len(),
            r@ == join_words(names_of(parts@).take(i as int)),
        decreases n - i,
    {
        r.append(" ");
        r.append(parts[i].as_str());
        proof {
            reveal_strlit(" ");
            let ws = names_of(parts@);
            assert(ws.take(i as int + 1).drop_last() =~= ws.take(i as int));
            assert(ws.take(i as int + 1).last() == parts@[i as int]@);
            assert(" "@ =~= seq![' ']);
        }
        i = i + 1;
    }
    proof {
        assert(names_of(parts@).take(n as int) =~= names_of(parts@));
    }
    r
}

/// The alias that was expanded for a command invocation: the alias name
/// and what it expanded to, if any.
pub struct Alias<'a> {
    pub alias: Option<(&'a str, &'a str)>,
}

/// What `unwrap_or` returns when an alias was expanded: the alias name
/// followed by the words of the command line that lie beyond the
/// expansion, joined by spaces.
pub open spec fn unexpanded(alias: Seq<char>, expanded: Seq<char>, default: Seq<char>)
    -> Seq<char> {
    let ws = words_of(default);
    let k = words_of(expanded).len() as int;
    let tail = if k >= ws.len() {
        Seq::<Seq<char>>::empty()
    } else {
        ws.skip(k)
    };
    join_words(seq![alias] + tail)
}

impl Alias<'_> {
    /// Decode the command line the alias stands for, or hand the given
    /// command line back when no alias was expanded.
    pub fn unwrap_or(&self, default: &str) -> (r: String)
        ensures
            r@ == match self.alias {
                Some((alias, expanded)) => unexpanded(alias@, expanded@, default@),
                None => default@,
            },
    {
        let (alias, expanded) = match self.alias {
            Some((alias, expanded)) => (alias, expanded),
            None => {
                return default.to_owned();
            },
        };

        let skip_n = words(expanded).len();
        let ws = words(default);
        let ghost wsv = names_of(ws@);

        let mut parts: Vec<String> = Vec::new();
        parts.push(alias.to_owned());

        let n = ws.len();
        let mut i: usize = skip_n;
        if i > n {
            i = n;
        }
        let ghost start = i as int;
        while i < n
            invariant
                0 <= start <= i <= n,
                n == ws@.len(),
                wsv == names_of(ws@),
                names_of(parts@) =~= seq![alias@] + wsv.subrange(start, i as int),
            decreases n - i,
        {
            let ghost p0 = parts@;
            parts.push(ws[i].clone());
            proof {
                assert(names_of(parts@) =~= names_of(p0).push(wsv[i as int]));
                assert(wsv.len() == ws@.len());
                assert_seqs_equal!(wsv.subrange(start, i as int + 1), wsv.subrange(
                    start,
                    i as int,
                ).push(wsv[i as int]));
                assert((seq![alias@] + wsv.subrange(start, i as int)).push(wsv[i as int]) =~= seq![
                    alias@,
                ] + wsv.subrange(start, i as int).push(wsv[i as int]));
            }
            i = i + 1;
        }
        proof {
            let k = words_of(expanded@).len() as int;
            if k >= wsv.len() {
                assert(wsv.subrange(start, n as int) =~= Seq::<Seq<char>>::empty());
                assert(names_of(parts@) =~= seq![alias@]);
            } else {
                assert(wsv.subrange(start, n as int) =~= wsv.skip(k));
            }
        }
        join_spaced(&parts)
    }
}

} // verus!

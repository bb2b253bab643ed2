//! Small verified string utilities: comparison, prefix tests, and joining.

use vstd::prelude::*;

verus! {

/// Whether two strings hold the same characters.
pub fn str_eq(a: &str, b: &str) -> (r: bool)
    ensures
        r == (a@ == b@),
{
    let na = a.unicode_len();
    let nb = b.unicode_len();
    if na != nb {
        return false;
    }
    let mut i: usize = 0;
    while i < na
        invariant
            0 <= i <= na,
            na == a@.len(),
            na == b@.len(),
            forall|j: int| 0 <= j < i ==> a@[j] == b@[j],
        decreases na - i,
    {
        if a.get_char(i) != b.get_char(i) {
            return false;
        }
        i = i + 1;
    }
    proof {
        assert(a@ =~= b@);
    }
    true
}

/// Whether `s` begins with `prefix`.
pub fn str_starts_with(s: &str, prefix: &str) -> (r: bool)
    ensures
        r == (prefix@.len() <= s@.len() && s@.subrange(0, prefix@.len() as int) == prefix@),
{
    let np = prefix.unicode_len();
    let ns = s.unicode_len();
    if np > ns {
        return false;
    }
    let mut i: usize = 0;
    while i < np
        invariant
            0 <= i <= np,
            np == prefix@.len(),
            ns == s@.len(),
            np <= ns,
            forall|j: int| 0 <= j < i ==> s@[j] == prefix@[j],
        decreases np - i,
    {
        if s.get_char(i) != prefix.get_char(i) {
            proof {
                assert(s@.subrange(0, np as int)[i as int] != prefix@[i as int]);
            }
            return false;
        }
        i = i + 1;
    }
    proof {
        assert(s@.subrange(0, np as int) =~= prefix@);
    }
    true
}

/// The pieces joined by a separator, first to last.
pub open spec fn joined(msgs: Seq<Seq<char>>, sep: Seq<char>) -> Seq<char>
    decreases msgs.len(),
{
    if msgs.len() == 0 {
        Seq::empty()
    } else if msgs.len() == 1 {
        msgs[0]
    } else {
        msgs[0] + sep + joined(msgs.drop_first(), sep)
    }
}

pub proof fn lemma_joined_push(msgs: Seq<Seq<char>>, x: Seq<char>, sep: Seq<char>)
    ensures
        msgs.len() == 0 ==> joined(msgs.push(x), sep) == x,
        msgs.len() > 0 ==> joined(msgs.push(x), sep) == joined(msgs, sep) + sep + x,
    decreases msgs.len(),
{
    if msgs.len() == 0 {
        assert(joined(msgs.push(x), sep) =~= x);
    } else if msgs.len() == 1 {
        let pushed = msgs.push(x);
        assert(pushed.drop_first() =~= seq![x]);
        assert(joined(seq![x], sep) == x);
        assert(pushed[0] == msgs[0]);
        assert(joined(pushed, sep) == pushed[0] + sep + joined(pushed.drop_first(), sep));
        assert(joined(msgs, sep) == msgs[0]);
    } else {
        lemma_joined_push(msgs.drop_first(), x, sep);
        assert(msgs.push(x).drop_first() =~= msgs.drop_first().push(x));
    }
}

} // verus!

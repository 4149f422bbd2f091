//! Scanning helpers over strings: the longest prefix satisfying a
//! character predicate, both as a specification and as executable code.
use vstd::prelude::*;
use vstd::string::StrSliceExecFns;

verus! {

/// Length of the longest prefix of `s` whose characters all satisfy `p`.
pub open spec fn prefix_while_len(s: Seq<char>, p: spec_fn(char) -> bool) -> nat
    decreases s.len(),
{
    if s.len() == 0 || !p(s[0]) {
        0
    } else {
        1 + prefix_while_len(s.drop_first(), p)
    }
}

/// Every character before the longest prefix's end satisfies `p`, and the
/// character at its end (when there is one) does not.
pub proof fn lemma_prefix_while_props(s: Seq<char>, p: spec_fn(char) -> bool)
    ensures
        prefix_while_len(s, p) <= s.len(),
        forall|j: int| 0 <= j < prefix_while_len(s, p) ==> p(s[j]),
        prefix_while_len(s, p) < s.len() ==> !p(s[prefix_while_len(s, p) as int]),
    decreases s.len(),
{
    if s.len() > 0 && p(s[0]) {
        lemma_prefix_while_props(s.drop_first(), p);
        let n = prefix_while_len(s, p);
        assert forall|j: int| 0 <= j < n implies p(s[j]) by {
            if j > 0 {
                assert(p(s.drop_first()[j - 1]));
            }
        }
        if n < s.len() {
            assert(!p(s.drop_first()[n - 1]));
        }
    }
}

/// Any index with the boundary property of the longest satisfying prefix
/// is that prefix's length.
pub proof fn lemma_prefix_while_unique(s: Seq<char>, p: spec_fn(char) -> bool, i: int)
    requires
        0 <= i <= s.len(),
        forall|j: int| 0 <= j < i ==> p(s[j]),
        i < s.len() ==> !p(s[i]),
    ensures
        i == prefix_while_len(s, p),
    decreases s.len(),
{
    if s.len() == 0 {
    } else if !p(s[0]) {
        assert(i == 0);
    } else {
        assert(i >= 1);
        let t = s.drop_first();
        assert forall|j: int| 0 <= j < i - 1 implies p(t[j]) by {
            assert(t[j] == s[j + 1]);
        }
        assert(i - 1 < t.len() ==> !p(t[i - 1]));
        lemma_prefix_while_unique(t, p, i - 1);
    }
}

/// The longest prefix of `s` whose characters all satisfy `predicate`, as
/// the original slice's leading substring.
pub fn take_while<'a, P: Fn(char) -> bool>(s: &'a str, predicate: P) -> (r: &'a str)
    requires
        forall|c: char| call_requires(predicate, (c,)),
    ensures
        exists|i: int|
            {
                &&& 0 <= i <= s@.len()
                &&& r@ == s@.subrange(0, i)
                &&& (forall|j: int| 0 <= j < i ==> call_ensures(predicate, (s@[j],), true))
                &&& (i < s@.len() ==> call_ensures(predicate, (s@[i],), false))
            },
{
    let len = s.unicode_len();
    let mut i: usize = 0;
    let mut go = true;
    while go && i < len
        invariant
            0 <= i <= len,
            len == s@.len(),
            forall|c: char| call_requires(predicate, (c,)),
            forall|j: int| 0 <= j < i ==> call_ensures(predicate, (s@[j],), true),
            !go ==> i < len && call_ensures(predicate, (s@[i as int],), false),
        decreases len - i + (if go {
            1int
        } else {
            0int
        }),
    {
        let c = s.get_char(i);
        if predicate(c) {
            i = i + 1;
        } else {
            go = false;
        }
    }
    s.substring_char(0, i)
}

/// The suffix of `s` that starts at the first character failing
/// `predicate` (empty when every character satisfies it).
pub fn skip_while<'a, P: Fn(char) -> bool>(s: &'a str, predicate: P) -> (r: &'a str)
    requires
        forall|c: char| call_requires(predicate, (c,)),
    ensures
        exists|i: int|
            {
                &&& 0 <= i <= s@.len()
                &&& r@ == s@.subrange(i, s@.len() as int)
                &&& (forall|j: int| 0 <= j < i ==> call_ensures(predicate, (s@[j],), true))
                &&& (i < s@.len() ==> call_ensures(predicate, (s@[i],), false))
            },
{
    let len = s.unicode_len();
    let mut i: usize = 0;
    let mut go = true;
    while go && i < len
        invariant
            0 <= i <= len,
            len == s@.len(),
            forall|c: char| call_requires(predicate, (c,)),
            forall|j: int| 0 <= j < i ==> call_ensures(predicate, (s@[j],), true),
            !go ==> i < len && call_ensures(predicate, (s@[i as int],), false),
        decreases len - i + (if go {
            1int
        } else {
            0int
        }),
    {
        let c = s.get_char(i);
        if predicate(c) {
            i = i + 1;
        } else {
            go = false;
        }
    }
    s.substring_char(i, len)
}

/// Scans `s` from `from` while `predicate` holds; `sp` is the
/// specification the predicate is known to decide.  Returns the index of
/// the first failing character at or after `from`.
pub(crate) fn scan_while<P: Fn(char) -> bool>(
    s: &str,
    from: usize,
    predicate: P,
    Ghost(sp): Ghost<spec_fn(char) -> bool>,
) -> (i: usize)
    requires
        from <= s@.len(),
        forall|c: char| call_requires(predicate, (c,)),
        forall|c: char, b: bool| call_ensures(predicate, (c,), b) ==> b == sp(c),
    ensures
        from <= i <= s@.len(),
        i - from == prefix_while_len(s@.subrange(from as int, s@.len() as int), sp),
{
    let len = s.unicode_len();
    let mut i: usize = from;
    let mut go = true;
    while go && i < len
        invariant
            from <= i <= len,
            len == s@.len(),
            forall|c: char| call_requires(predicate, (c,)),
            forall|c: char, b: bool| call_ensures(predicate, (c,), b) ==> b == sp(c),
            forall|j: int| from <= j < i ==> sp(s@[j]),
            !go ==> i < len && !sp(s@[i as int]),
        decreases len - i + (if go {
            1int
        } else {
            0int
        }),
    {
        let c = s.get_char(i);
        if predicate(c) {
            i = i + 1;
        } else {
            go = false;
        }
    }
    proof {
        let sub = s@.subrange(from as int, s@.len() as int);
        assert forall|j: int| 0 <= j < i - from implies sp(sub[j]) by {
            assert(sub[j] == s@[from + j]);
        }
        assert(i - from < sub.len() ==> !sp(sub[i - from]));
        lemma_prefix_while_unique(sub, sp, i - from);
    }
    i
}

} // verus!

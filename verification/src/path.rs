//! Paths as the index and the host know them: text with `/` between the
//! components and no `/` in front.

use vstd::prelude::*;
use vstd::string::*;

verus! {

/// `s` without the slashes in front of it.
pub open spec fn trim_slashes(s: Seq<char>) -> Seq<char>
    decreases s.len(),
{
    if s.len() > 0 && s[0] == '/' {
        trim_slashes(s.drop_first())
    } else {
        s
    }
}

/// `s` without the slashes at its end.
pub open spec fn trim_end_slashes(s: Seq<char>) -> Seq<char>
    decreases s.len(),
{
    if s.len() > 0 && s.last() == '/' {
        trim_end_slashes(s.drop_last())
    } else {
        s
    }
}

/// `s` up to its last slash, that slash left out; empty where `s` has none.
pub open spec fn before_last_slash(s: Seq<char>) -> Seq<char>
    decreases s.len(),
{
    if s.len() == 0 {
        s
    } else if s.last() == '/' {
        s.drop_last()
    } else {
        before_last_slash(s.drop_last())
    }
}

/// The path of `sub` below `rel`: both lose the slashes in front of them,
/// and one slash stands between them unless `rel` is empty or ends in one.
pub open spec fn joined(rel: Seq<char>, sub: Seq<char>) -> Seq<char> {
    let a = trim_slashes(rel);
    let b = trim_slashes(sub);
    if a.len() == 0 {
        b
    } else if a.last() == '/' {
        a + b
    } else {
        a + seq!['/'] + b
    }
}

/// The path one level above `path`: `path` loses the slashes at its end, then
/// its last component with the slashes in front of that. A path of one
/// component has the empty path above it.
pub open spec fn parent_of(path: Seq<char>) -> Seq<char> {
    trim_end_slashes(before_last_slash(trim_end_slashes(path)))
}

/// Slashes in front do not change what trimming gives.
proof fn lemma_trim_skip(s: Seq<char>, i: int)
    requires
        0 <= i <= s.len(),
        forall|j: int| 0 <= j < i ==> s[j] == '/',
    ensures
        trim_slashes(s) == trim_slashes(s.skip(i)),
    decreases i,
{
    if i > 0 {
        assert(s.drop_first().skip(i - 1) =~= s.skip(i));
        lemma_trim_skip(s.drop_first(), i - 1);
    } else {
        assert(s.skip(0) =~= s);
    }
}

/// Slashes at the end do not change what trimming the end gives.
proof fn lemma_trim_end_take(s: Seq<char>, i: int)
    requires
        0 <= i <= s.len(),
        forall|j: int| i <= j < s.len() ==> s[j] == '/',
    ensures
        trim_end_slashes(s) == trim_end_slashes(s.take(i)),
    decreases s.len() - i,
{
    if i < s.len() {
        assert(s.drop_last().take(i) =~= s.take(i));
        lemma_trim_end_take(s.drop_last(), i);
    } else {
        assert(s.take(i) =~= s);
    }
}

/// Characters behind the last slash do not change what stands before it.
proof fn lemma_before_last_slash_take(s: Seq<char>, i: int)
    requires
        0 <= i <= s.len(),
        forall|j: int| i <= j < s.len() ==> s[j] != '/',
    ensures
        before_last_slash(s) == before_last_slash(s.take(i)),
    decreases s.len() - i,
{
    if i < s.len() {
        assert(s.drop_last().take(i) =~= s.take(i));
        lemma_before_last_slash_take(s.drop_last(), i);
    } else {
        assert(s.take(i) =~= s);
    }
}

/// `s` without the slashes in front of it.
pub fn trim_leading_slashes<'a>(s: &'a str) -> (r: &'a str)
    ensures
        r@ == trim_slashes(s@),
{
    let n: usize = s.unicode_len();
    let mut i: usize = 0;
    while i < n && s.get_char(i) == '/'
        invariant
            n == s@.len(),
            i <= n,
            forall|j: int| 0 <= j < i ==> s@[j] == '/',
        decreases n - i,
    {
        i += 1;
    }
    proof {
        lemma_trim_skip(s@, i as int);
        assert(s@.subrange(i as int, n as int) =~= s@.skip(i as int));
    }
    s.substring_char(i, n)
}

/// The number of characters of `s` that are left when the slashes at the
/// end of its first `end` characters are dropped.
fn end_without_slashes(s: &str, end: usize) -> (e: usize)
    requires
        end <= s@.len(),
    ensures
        e <= end,
        s@.take(e as int) == trim_end_slashes(s@.take(end as int)),
{
    let mut e: usize = end;
    while e > 0 && s.get_char(e - 1) == '/'
        invariant
            e <= end <= s@.len(),
            forall|j: int| e <= j < end ==> s@[j] == '/',
        decreases e,
    {
        e -= 1;
    }
    proof {
        let t = s@.take(end as int);
        lemma_trim_end_take(t, e as int);
        assert(t.take(e as int) =~= s@.take(e as int));
    }
    e
}

/// The path of `sub` below `rel`.
pub fn join_paths(rel: &str, sub: &str) -> (path: String)
    ensures
        path@ == joined(rel@, sub@),
{
    let a = trim_leading_slashes(rel);
    let b = trim_leading_slashes(sub);
    let n: usize = a.unicode_len();
    if n == 0 {
        return String::from_str(b);
    }
    let mut out = String::from_str(a);
    if a.get_char(n - 1) != '/' {
        proof {
            reveal_strlit("/");
            assert("/"@ =~= seq!['/']);
        }
        out.append("/");
    }
    out.append(b);
    out
}

/// The path one level above `path`.
pub fn parent_path(path: &str) -> (parent: String)
    ensures
        parent@ == parent_of(path@),
{
    let n: usize = path.unicode_len();
    proof {
        assert(path@.take(n as int) =~= path@);
    }
    let end: usize = end_without_slashes(path, n);
    let mut k: usize = end;
    while k > 0 && path.get_char(k - 1) != '/'
        invariant
            k <= end <= path@.len(),
            forall|j: int| k <= j < end ==> path@[j] != '/',
        decreases k,
    {
        k -= 1;
    }
    let ghost trimmed = path@.take(end as int);
    proof {
        lemma_before_last_slash_take(trimmed, k as int);
        assert(trimmed.take(k as int) =~= path@.take(k as int));
    }
    if k == 0 {
        proof {
            assert(path@.take(0) =~= Seq::<char>::empty());
        }
        return String::new();
    }
    proof {
        assert(path@.take(k as int).drop_last() =~= path@.take(k - 1));
    }
    let e: usize = end_without_slashes(path, k - 1);
    proof {
        assert(path@.subrange(0, e as int) =~= path@.take(e as int));
    }
    String::from_str(path.substring_char(0, e))
}

} // verus!

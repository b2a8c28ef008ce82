//! Checks on lists of names: the first repeated name, and path joining.
use vstd::prelude::*;
use vstd::string::StrSliceExecFns;
use crate::text::push_str;

verus! {

/// The first position from `j` on whose name occurs earlier in `s`.
pub open spec fn first_dup_from(s: Seq<String>, j: int) -> Option<int>
    decreases s.len() - j,
{
    if j < 0 || j >= s.len() {
        None
    } else if exists|i: int| 0 <= i < j && s[i]@ == s[j]@ {
        Some(j)
    } else {
        first_dup_from(s, j + 1)
    }
}

/// The first position whose name occurs earlier in `s`, if any.
pub open spec fn first_dup(s: Seq<String>) -> Option<int> {
    first_dup_from(s, 0)
}

/// A found repeat is a repeat, and none comes before it; when none is found
/// every name is distinct.
pub proof fn lemma_first_dup(s: Seq<String>)
    ensures
        first_dup(s) matches Some(j) ==> 0 <= j < s.len() && (exists|i: int|
            0 <= i < j && s[i]@ == s[j]@) && forall|a: int, b: int|
            0 <= a < b < j ==> s[a]@ != s[b]@,
        first_dup(s) is None ==> forall|a: int, b: int| 0 <= a < b < s.len() ==> s[a]@ != s[b]@,
{
    lemma_first_dup_from(s, 0);
}

proof fn lemma_first_dup_from(s: Seq<String>, j: int)
    requires
        0 <= j,
        forall|a: int, b: int| 0 <= a < b < j && b < s.len() ==> s[a]@ != s[b]@,
    ensures
        first_dup_from(s, j) matches Some(k) ==> j <= k < s.len() && (exists|i: int|
            0 <= i < k && s[i]@ == s[k]@) && forall|a: int, b: int|
            0 <= a < b < k ==> s[a]@ != s[b]@,
        first_dup_from(s, j) is None ==> forall|a: int, b: int|
            0 <= a < b < s.len() ==> s[a]@ != s[b]@,
    decreases s.len() - j,
{
    if j < s.len() {
        if !(exists|i: int| 0 <= i < j && s[i]@ == s[j]@) {
            lemma_first_dup_from(s, j + 1);
        }
    }
}

/// The first name that repeats an earlier one: its position.
pub fn first_duplicate(items: &Vec<String>) -> (r: Option<usize>)
    ensures
        match r {
            Some(j) => first_dup(items@) == Some(j as int),
            None => first_dup(items@) is None,
        },
{
    let n = items.len();
    let mut j: usize = 0;
    while j < n
        invariant
            n == items@.len(),
            j <= n,
            first_dup_from(items@, 0) == first_dup_from(items@, j as int),
        decreases n - j,
    {
        let mut i: usize = 0;
        let mut found = false;
        while i < j && !found
            invariant
                j < n,
                n == items@.len(),
                i <= j,
                found ==> exists|k: int| 0 <= k < j && items@[k]@ == items@[j as int]@,
                !found ==> forall|k: int| 0 <= k < i ==> items@[k]@ != items@[j as int]@,
            decreases j - i + (if found { 0int } else { 1int }),
        {
            if items[i] == items[j] {
                found = true;
            } else {
                i = i + 1;
            }
        }
        if found {
            return Some(j);
        }
        j = j + 1;
    }
    None
}

/// Appends clones of `src` to `out`.
pub fn append_strings(out: &mut Vec<String>, src: &Vec<String>)
    ensures
        final(out)@ == old(out)@ + src@,
{
    let ghost start = out@;
    let n = src.len();
    let mut i: usize = 0;
    while i < n
        invariant
            n == src@.len(),
            i <= n,
            out@ == start + src@.take(i as int),
        decreases n - i,
    {
        out.push(src[i].clone());
        i = i + 1;
        proof {
            assert(out@ =~= start + src@.take(i as int));
        }
    }
    proof {
        assert(src@.take(n as int) =~= src@);
    }
}

/// `rel` below directory `dir`, as `Path::join` places it: an absolute
/// `rel` replaces `dir`, and a separator is added unless `dir` is empty or
/// already ends with one.
pub open spec fn path_join(dir: Seq<char>, rel: Seq<char>) -> Seq<char> {
    if rel.len() > 0 && rel[0] == '/' {
        rel
    } else if dir.len() == 0 {
        rel
    } else if dir.last() == '/' {
        dir + rel
    } else {
        dir + "/"@ + rel
    }
}

/// `rel` joined below `dir`.
pub fn join_path(dir: &str, rel: &str) -> (r: String)
    ensures
        r@ == path_join(dir@, rel@),
{
    proof {
        reveal_strlit("/");
    }
    let rel_len = rel.unicode_len();
    if rel_len > 0 && rel.get_char(0) == '/' {
        return rel.to_owned();
    }
    let dir_len = dir.unicode_len();
    if dir_len == 0 {
        return rel.to_owned();
    }
    let mut s = dir.to_owned();
    if dir.get_char(dir_len - 1) != '/' {
        push_str(&mut s, "/");
    }
    push_str(&mut s, rel);
    s
}

} // verus!

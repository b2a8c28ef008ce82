//! What the service attribute does with the methods of an impl block:
//! `run`, `startup` and `shutdown` move aside under a prefixed name, and
//! the service trait delegates to them.
use vstd::prelude::*;
use crate::strutil::text_equal;
use crate::text::push_str;

verus! {

/// The methods of a service impl block, as the attribute sees them.
#[derive(Debug, Clone)]
pub struct ServiceMethods {
    /// Some method is named `run`.
    pub has_run: bool,
    /// Some method is named `startup`.
    pub has_startup: bool,
    /// Some method is named `shutdown`.
    pub has_shutdown: bool,
    /// For each method in order, its new name when it is renamed.
    pub renamed: Vec<Option<String>>,
}

/// The lifecycle methods that the attribute renames.
pub open spec fn is_lifecycle(name: Seq<char>) -> bool {
    name == "run"@ || name == "startup"@ || name == "shutdown"@
}

/// Some name in the list equals `name`.
pub open spec fn has_name(names: Seq<String>, name: Seq<char>) -> bool {
    exists|i: int| 0 <= i < names.len() && (#[trigger] names[i])@ == name
}

/// The new name of a method: lifecycle methods get the `__service_` prefix.
pub open spec fn renamed_as(name: Seq<char>) -> Option<Seq<char>> {
    if is_lifecycle(name) {
        Some("__service_"@ + name)
    } else {
        None
    }
}

/// Decides, for the method names of an impl block in order, which are
/// renamed and to what, and which lifecycle methods exist.
pub fn plan_service_methods(names: &Vec<String>) -> (r: ServiceMethods)
    ensures
        r.has_run == has_name(names@, "run"@),
        r.has_startup == has_name(names@, "startup"@),
        r.has_shutdown == has_name(names@, "shutdown"@),
        r.renamed@.len() == names@.len(),
        forall|i: int|
            0 <= i < names@.len() ==> match renamed_as(names@[i]@) {
                Some(t) => (#[trigger] r.renamed@[i]) matches Some(s) && s@ == t,
                None => r.renamed@[i] is None,
            },
{
    let n = names.len();
    let mut has_run = false;
    let mut has_startup = false;
    let mut has_shutdown = false;
    let mut renamed: Vec<Option<String>> = Vec::new();
    let mut i: usize = 0;
    while i < n
        invariant
            n == names@.len(),
            i <= n,
            renamed@.len() == i,
            has_run == has_name(names@.take(i as int), "run"@),
            has_startup == has_name(names@.take(i as int), "startup"@),
            has_shutdown == has_name(names@.take(i as int), "shutdown"@),
            forall|k: int|
                0 <= k < i ==> match renamed_as(names@[k]@) {
                    Some(t) => (#[trigger] renamed@[k]) matches Some(s) && s@ == t,
                    None => renamed@[k] is None,
                },
        decreases n - i,
    {
        let name = names[i].as_str();
        let is_run = text_equal(name, "run");
        let is_startup = text_equal(name, "startup");
        let is_shutdown = text_equal(name, "shutdown");
        proof {
            let pre = names@.take(i as int);
            let post = names@.take(i + 1);
            assert(post[i as int] == names@[i as int]);
            assert forall|w: Seq<char>| has_name(post, w) == (has_name(pre, w) || names@[i as int]@ == w) by {
                if has_name(post, w) {
                    let j = choose|j: int| 0 <= j < post.len() && (#[trigger] post[j])@ == w;
                    if j < i {
                        assert(pre[j] == post[j]);
                    }
                }
                if has_name(pre, w) {
                    let j = choose|j: int| 0 <= j < pre.len() && (#[trigger] pre[j])@ == w;
                    assert(post[j] == pre[j]);
                }
            }
        }
        if is_run || is_startup || is_shutdown {
            let mut t = String::new();
            push_str(&mut t, "__service_");
            push_str(&mut t, name);
            proof {
                assert(Seq::<char>::empty() + "__service_"@ =~= "__service_"@);
            }
            renamed.push(Some(t));
        } else {
            renamed.push(None);
        }
        has_run = has_run || is_run;
        has_startup = has_startup || is_startup;
        has_shutdown = has_shutdown || is_shutdown;
        i = i + 1;
    }
    proof {
        assert(names@.take(n as int) =~= names@);
    }
    ServiceMethods { has_run, has_startup, has_shutdown, renamed }
}

} // verus!

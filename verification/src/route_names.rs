//! Names that the routing code generator gives to handler fields and
//! routing methods, derived from the text of a type.
use vstd::prelude::*;
use heck::ToSnakeCase;
use crate::strutil::{replace_all, replace_str, strip_char, strip_chars};
use crate::text::push_str;
use vstd::string::StrSliceExecFns;

verus! {

/// True for ASCII letters and digits.
pub open spec fn is_alnum(c: char) -> bool {
    ('0' <= c && c <= '9') || ('a' <= c && c <= 'z') || ('A' <= c && c <= 'Z')
}

/// `s` with every character other than an ASCII letter or digit made `_`.
pub open spec fn underscored(s: Seq<char>) -> Seq<char> {
    s.map_values(|c: char| if is_alnum(c) { c } else { '_' })
}

/// `s` with each run of `_` made a single `_`.
pub open spec fn squeeze(s: Seq<char>) -> Seq<char>
    decreases s.len(),
{
    if s.len() < 2 {
        s
    } else if s[0] == '_' && s[1] == '_' {
        squeeze(s.subrange(1, s.len() as int))
    } else {
        seq![s[0]] + squeeze(s.subrange(1, s.len() as int))
    }
}

/// `_` stands twice in a row somewhere in `s`.
pub open spec fn has_double_underscore(s: Seq<char>) -> bool {
    exists|i: int| 0 <= i < s.len() - 1 && s[i] == '_' && #[trigger] s[i + 1] == '_'
}

/// The normalized name of a type's text: characters other than ASCII
/// letters and digits made `_`, runs of `_` made one, and `_` at both ends
/// removed.
pub open spec fn normalized_name(t: Seq<char>) -> Seq<char> {
    strip_char(squeeze(underscored(t)), '_')
}

/// `s` starts with `c`.
pub open spec fn starts_with_char(s: Seq<char>, c: char) -> bool {
    s.len() > 0 && s[0] == c
}

proof fn lemma_squeeze_first(s: Seq<char>)
    ensures
        squeeze(s).len() > 0 <==> s.len() > 0,
        s.len() > 0 ==> squeeze(s)[0] == s[0],
    decreases s.len(),
{
    if s.len() >= 2 {
        lemma_squeeze_first(s.subrange(1, s.len() as int));
    }
}

proof fn lemma_squeeze_cons(c: char, y: Seq<char>)
    ensures
        squeeze(seq![c] + y) == if c == '_' && starts_with_char(y, '_') {
            squeeze(y)
        } else {
            seq![c] + squeeze(y)
        },
{
    let s = seq![c] + y;
    assert(s.subrange(1, s.len() as int) =~= y);
    if y.len() == 0 {
        assert(s =~= seq![c]);
    } else {
        assert(s[1] == y[0]);
    }
}

proof fn lemma_squeeze_plain(s: Seq<char>)
    requires
        !has_double_underscore(s),
    ensures
        squeeze(s) == s,
    decreases s.len(),
{
    if s.len() >= 2 {
        let t = s.subrange(1, s.len() as int);
        assert(!has_double_underscore(t)) by {
            if has_double_underscore(t) {
                let i = choose|i: int| 0 <= i < t.len() - 1 && t[i] == '_' && #[trigger] t[i + 1] == '_';
                assert(s[i + 1] == '_' && s[i + 2] == '_');
            }
        }
        assert(!(s[0] == '_' && s[1] == '_')) by {
            if s[0] == '_' && s[1] == '_' {
                assert(s[0int + 1] == '_');
            }
        }
        lemma_squeeze_plain(t);
        assert(s =~= seq![s[0]] + t);
    }
}

/// The pattern of two underscores.
pub open spec fn two_underscores() -> Seq<char> {
    seq!['_', '_']
}

/// One underscore.
pub open spec fn one_underscore() -> Seq<char> {
    seq!['_']
}

proof fn lemma_replace_first(s: Seq<char>)
    ensures
        starts_with_char(replace_all(s, two_underscores(), one_underscore()), '_') <==> starts_with_char(s, '_'),
        replace_all(s, two_underscores(), one_underscore()).len() <= s.len(),
        has_double_underscore(s) ==> replace_all(s, two_underscores(), one_underscore()).len()
            < s.len(),
    decreases s.len(),
{
    let p = two_underscores();
    let r = one_underscore();
    if s.len() > 0 {
        if 2 <= s.len() && s.subrange(0, 2) == p {
            let t = s.subrange(2, s.len() as int);
            lemma_replace_first(t);
        } else {
            let t = s.subrange(1, s.len() as int);
            lemma_replace_first(t);
            if has_double_underscore(s) {
                let i = choose|i: int| 0 <= i < s.len() - 1 && s[i] == '_' && #[trigger] s[i + 1] == '_';
                if i == 0 {
                    assert(s.subrange(0, 2) =~= p);
                }
                assert(t[i - 1] == '_' && t[(i - 1) + 1] == '_');
            }
        }
    }
}

proof fn lemma_squeeze_replace(s: Seq<char>)
    ensures
        squeeze(replace_all(s, two_underscores(), one_underscore())) == squeeze(s),
    decreases s.len(),
{
    let p = two_underscores();
    let r = one_underscore();
    if s.len() > 0 {
        if 2 <= s.len() && s.subrange(0, 2) == p {
            let t = s.subrange(2, s.len() as int);
            let x = replace_all(t, p, r);
            lemma_squeeze_replace(t);
            lemma_replace_first(t);
            lemma_squeeze_cons('_', x);
            lemma_squeeze_cons('_', t);
            assert(s[0] == '_' && s[1] == '_') by {
                assert(s.subrange(0, 2)[0] == '_' && s.subrange(0, 2)[1] == '_');
            }
            let u = s.subrange(1, s.len() as int);
            assert(u =~= seq!['_'] + t);
            assert(r + x =~= seq!['_'] + x);
        } else {
            let t = s.subrange(1, s.len() as int);
            let x = replace_all(t, p, r);
            lemma_squeeze_replace(t);
            lemma_replace_first(t);
            lemma_squeeze_cons(s[0], x);
            lemma_squeeze_cons(s[0], t);
            assert(s =~= seq![s[0]] + t);
            if s[0] == '_' && starts_with_char(t, '_') {
                assert(s.subrange(0, 2) =~= p);
            }
        }
    }
}


/// What `heck::ToSnakeCase::to_snake_case` returns for a text (words split
/// at case changes and separators, lower-cased, joined by `_`).
pub uninterp spec fn snake_case(s: Seq<char>) -> Seq<char>;

/// Calls `heck::ToSnakeCase::to_snake_case`.
#[verifier::external_body]
fn snake_cased(s: &str) -> (r: String)
    ensures
        r@ == snake_case(s@),
{
    s.to_snake_case()
}

/// True when `_` stands twice in a row in `s`.
fn contains_double_underscore(s: &str) -> (r: bool)
    ensures
        r == has_double_underscore(s@),
{
    let n = s.unicode_len();
    let mut i: usize = 0;
    while n > 0 && i < n - 1
        invariant
            n == s@.len(),
            i <= n,
            forall|k: int| 0 <= k < i && k < n - 1 ==> !(s@[k] == '_' && #[trigger] s@[k + 1] == '_'),
        decreases n - i,
    {
        if s.get_char(i) == '_' && s.get_char(i + 1) == '_' {
            return true;
        }
        i = i + 1;
    }
    false
}

/// The text of a type with every character other than an ASCII letter or
/// digit made `_`.
fn underscore_text(t: &str) -> (r: String)
    ensures
        r@ == underscored(t@),
{
    let n = t.unicode_len();
    let mut out = String::new();
    let mut i: usize = 0;
    while i < n
        invariant
            n == t@.len(),
            i <= n,
            out@ == underscored(t@.take(i as int)),
        decreases n - i,
    {
        let ch = t.get_char(i);
        if ('0' <= ch && ch <= '9') || ('a' <= ch && ch <= 'z') || ('A' <= ch && ch <= 'Z') {
            push_str(&mut out, t.substring_char(i, i + 1));
        } else {
            push_str(&mut out, "_");
            proof {
                reveal_strlit("_");
            }
        }
        proof {
            assert(t@.subrange(i as int, i + 1) =~= seq![ch]);
            assert(underscored(t@.take(i + 1)) =~= underscored(t@.take(i as int)).push(
                if is_alnum(ch) {
                    ch
                } else {
                    '_'
                },
            ));
        }
        i = i + 1;
    }
    proof {
        assert(t@.take(n as int) =~= t@);
    }
    out
}

/// The normalized name of a type's text: characters other than ASCII
/// letters and digits become `_`, doubled `_` are merged until none is
/// left, and `_` at both ends is removed.
pub fn normalized_type_name(type_text: &str) -> (r: String)
    ensures
        r@ == normalized_name(type_text@),
{
    let mut normalized = underscore_text(type_text);
    proof {
        reveal_strlit("__");
        reveal_strlit("_");
        assert("__"@ =~= two_underscores());
        assert("_"@ =~= one_underscore());
    }
    while contains_double_underscore(normalized.as_str())
        invariant
            squeeze(normalized@) == squeeze(underscored(type_text@)),
            "__"@ == two_underscores(),
            "_"@ == one_underscore(),
        decreases normalized@.len(),
    {
        proof {
            lemma_squeeze_replace(normalized@);
            lemma_replace_first(normalized@);
        }
        normalized = replace_str(normalized.as_str(), "__", "_");
    }
    proof {
        lemma_squeeze_plain(normalized@);
    }
    strip_chars(normalized.as_str(), '_')
}

/// The handler field name for a type: its normalized name in snake case,
/// `_` removed at both ends, or `handler` when nothing is left.
pub open spec fn field_name_of(t: Seq<char>) -> Seq<char> {
    let cleaned = strip_char(snake_case(normalized_name(t)), '_');
    if cleaned.len() == 0 {
        "handler"@
    } else {
        cleaned
    }
}

/// The routing method name for a message type: `route_` and its
/// normalized name in snake case, `_` removed at both ends, or
/// `route_handler` when nothing is left.
pub open spec fn method_name_of(t: Seq<char>) -> Seq<char> {
    let cleaned = strip_char(snake_case(normalized_name(t)), '_');
    if cleaned.len() == 0 {
        "route_handler"@
    } else {
        "route_"@ + cleaned
    }
}

/// The field name of a handler type (such as `arbitrage_service` for
/// `ArbitrageService`).
pub fn type_to_field_name(type_text: &str) -> (r: String)
    ensures
        r@ == field_name_of(type_text@),
{
    let normalized = normalized_type_name(type_text);
    let snake = snake_cased(normalized.as_str());
    let cleaned = strip_chars(snake.as_str(), '_');
    if cleaned.unicode_len() == 0 {
        let mut r = String::new();
        push_str(&mut r, "handler");
        proof {
            assert(Seq::<char>::empty() + "handler"@ =~= "handler"@);
        }
        r
    } else {
        cleaned
    }
}

/// The routing method name of a message type (such as `route_v2_swap` for
/// `V2Swap`).
pub fn type_to_method_name(type_text: &str) -> (r: String)
    ensures
        r@ == method_name_of(type_text@),
{
    let normalized = normalized_type_name(type_text);
    let snake = snake_cased(normalized.as_str());
    let cleaned = strip_chars(snake.as_str(), '_');
    let mut r = String::new();
    if cleaned.unicode_len() == 0 {
        push_str(&mut r, "route_handler");
        proof {
            assert(Seq::<char>::empty() + "route_handler"@ =~= "route_handler"@);
        }
    } else {
        push_str(&mut r, "route_");
        push_str(&mut r, cleaned.as_str());
        proof {
            assert(Seq::<char>::empty() + "route_"@ =~= "route_"@);
        }
    }
    r
}

/// The positions of the keys that no earlier key equals, ascending.
pub open spec fn first_positions(keys: Seq<Seq<char>>) -> Seq<usize>
    decreases keys.len(),
{
    if keys.len() == 0 {
        Seq::empty()
    } else if keys.drop_last().contains(keys.last()) {
        first_positions(keys.drop_last())
    } else {
        first_positions(keys.drop_last()).push((keys.len() - 1) as usize)
    }
}

/// The normalized names of the types' texts.
pub open spec fn normalized_names(ts: Seq<String>) -> Seq<Seq<char>> {
    ts.map_values(|t: String| normalized_name(t@))
}

/// The handlers that get a field: for each normalized name, the first
/// handler that has it, in order.
pub fn unique_handlers(handlers: &Vec<String>) -> (r: Vec<usize>)
    ensures
        r@ == first_positions(normalized_names(handlers@)),
{
    let n = handlers.len();
    let mut keys: Vec<String> = Vec::new();
    let mut out: Vec<usize> = Vec::new();
    let mut i: usize = 0;
    proof {
        assert(normalized_names(handlers@).take(0) =~= Seq::<Seq<char>>::empty());
    }
    while i < n
        invariant
            n == handlers@.len(),
            i <= n,
            keys@.len() == i,
            forall|k: int| 0 <= k < i ==> (#[trigger] keys@[k])@ == normalized_names(handlers@)[k],
            out@ == first_positions(normalized_names(handlers@).take(i as int)),
        decreases n - i,
    {
        let key = normalized_type_name(handlers[i].as_str());
        let ghost all = normalized_names(handlers@);
        let mut seen = false;
        let mut j: usize = 0;
        while j < i
            invariant
                n == handlers@.len(),
                i < n,
                j <= i,
                keys@.len() == i,
                all == normalized_names(handlers@),
                key@ == all[i as int],
                forall|k: int| 0 <= k < i ==> (#[trigger] keys@[k])@ == all[k],
                seen == exists|k: int| 0 <= k < j && all[k] == all[i as int],
            decreases i - j,
        {
            if crate::strutil::text_equal(keys[j].as_str(), key.as_str()) {
                seen = true;
            }
            proof {
                assert(keys@[j as int]@ == all[j as int]);
                if exists|k: int| 0 <= k < j + 1 && all[k] == all[i as int] {
                    let k = choose|k: int| 0 <= k < j + 1 && all[k] == all[i as int];
                    if k == j {
                        assert(seen);
                    }
                }
            }
            j = j + 1;
        }
        proof {
            let pre = all.take(i + 1);
            assert(pre.drop_last() =~= all.take(i as int));
            assert(pre.last() == all[i as int]);
            if seen {
                let k = choose|k: int| 0 <= k < i && all[k] == all[i as int];
                assert(all.take(i as int)[k] == all[i as int]);
                assert(pre.drop_last().contains(pre.last()));
            } else {
                if pre.drop_last().contains(pre.last()) {
                    let k = choose|k: int| 0 <= k < i && pre.drop_last()[k] == pre.last();
                    assert(all[k] == all[i as int]);
                }
            }
        }
        if !seen {
            out.push(i);
        }
        keys.push(key);
        i = i + 1;
    }
    proof {
        assert(normalized_names(handlers@).take(n as int) =~= normalized_names(handlers@));
    }
    out
}

} // verus!

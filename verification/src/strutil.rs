//! Character-level string operations: replacing, comparing, parsing
//! unsigned integers, trimming white space, and the case conversions of the
//! standard library.
use vstd::prelude::*;
use vstd::string::StrSliceExecFns;
use crate::text::push_str;

verus! {

/// What `str::to_lowercase` returns for a text (Unicode lower-casing).
pub uninterp spec fn lowercase(s: Seq<char>) -> Seq<char>;

/// What `str::to_uppercase` returns for a text (Unicode upper-casing).
pub uninterp spec fn uppercase(s: Seq<char>) -> Seq<char>;

/// A character with the Unicode `White_Space` property (what
/// `char::is_whitespace` tests): tab through carriage return, space, next
/// line, no-break space, ogham space mark, the spaces from en quad to hair
/// space, line and paragraph separators, narrow no-break space, medium
/// mathematical space and ideographic space.
pub open spec fn is_white_space(c: char) -> bool {
    let n = c as u32;
    ||| 0x9 <= n <= 0xD
    ||| n == 0x20
    ||| n == 0x85
    ||| n == 0xA0
    ||| n == 0x1680
    ||| 0x2000 <= n <= 0x200A
    ||| n == 0x2028
    ||| n == 0x2029
    ||| n == 0x202F
    ||| n == 0x205F
    ||| n == 0x3000
}

/// The text without its leading white space.
pub open spec fn trim_start(s: Seq<char>) -> Seq<char>
    decreases s.len(),
{
    if s.len() > 0 && is_white_space(s[0]) {
        trim_start(s.drop_first())
    } else {
        s
    }
}

/// The text without its trailing white space.
pub open spec fn trim_end(s: Seq<char>) -> Seq<char>
    decreases s.len(),
{
    if s.len() > 0 && is_white_space(s.last()) {
        trim_end(s.drop_last())
    } else {
        s
    }
}

/// What `str::trim` gives: the text without white space at either end.
pub open spec fn trimmed(s: Seq<char>) -> Seq<char> {
    trim_end(trim_start(s))
}

/// Calls `str::to_lowercase`.
#[verifier::external_body]
pub(crate) fn to_lowercase(s: &str) -> (r: String)
    ensures
        r@ == lowercase(s@),
{
    s.to_lowercase()
}

/// Calls `str::to_uppercase`.
#[verifier::external_body]
pub(crate) fn to_uppercase(s: &str) -> (r: String)
    ensures
        r@ == uppercase(s@),
{
    s.to_uppercase()
}

/// True when `c` is Unicode white space.
pub fn white_space(c: char) -> (r: bool)
    ensures
        r == is_white_space(c),
{
    let n = c as u32;
    (0x9 <= n && n <= 0xD) || n == 0x20 || n == 0x85 || n == 0xA0 || n == 0x1680 || (0x2000 <= n
        && n <= 0x200A) || n == 0x2028 || n == 0x2029 || n == 0x202F || n == 0x205F || n == 0x3000
}

/// The text without white space at either end, as `str::trim` gives it.
pub fn trim_whitespace(s: &str) -> (r: &str)
    ensures
        r@ == trimmed(s@),
{
    let n = s.unicode_len();
    proof {
        assert(s@.subrange(0, n as int) =~= s@);
    }
    let mut i: usize = 0;
    while i < n && white_space(s.get_char(i))
        invariant
            n == s@.len(),
            i <= n,
            trim_start(s@) == trim_start(s@.subrange(i as int, n as int)),
        decreases n - i,
    {
        proof {
            let t = s@.subrange(i as int, n as int);
            assert(t.drop_first() =~= s@.subrange(i + 1, n as int));
        }
        i = i + 1;
    }
    proof {
        let t = s@.subrange(i as int, n as int);
        if i == 0 {
            assert(t =~= s@);
        }
        assert(trim_start(t) == t);
    }
    let mut j: usize = n;
    while j > i && white_space(s.get_char(j - 1))
        invariant
            n == s@.len(),
            i <= j <= n,
            trim_end(s@.subrange(i as int, n as int)) == trim_end(s@.subrange(i as int, j as int)),
        decreases j - i,
    {
        proof {
            let t = s@.subrange(i as int, j as int);
            assert(t.drop_last() =~= s@.subrange(i as int, j - 1));
        }
        j = j - 1;
    }
    proof {
        let t = s@.subrange(i as int, j as int);
        assert(trim_end(t) == t);
    }
    s.substring_char(i, j)
}

/// The characters of `s`.
pub fn chars_of(s: &str) -> (r: Vec<char>)
    ensures
        r@ == s@,
{
    let n = s.unicode_len();
    let mut out: Vec<char> = Vec::new();
    let mut i: usize = 0;
    while i < n
        invariant
            n == s@.len(),
            i <= n,
            out@ == s@.take(i as int),
        decreases n - i,
    {
        out.push(s.get_char(i));
        i = i + 1;
        proof {
            assert(out@ =~= s@.take(i as int));
        }
    }
    proof {
        assert(s@.take(n as int) =~= s@);
    }
    out
}

/// `s` with every non-overlapping occurrence of `pat`, from the left,
/// replaced by `rep` (as `str::replace` does for a non-empty pattern).
pub open spec fn replace_all(s: Seq<char>, pat: Seq<char>, rep: Seq<char>) -> Seq<char>
    decreases s.len(),
{
    if s.len() == 0 {
        Seq::empty()
    } else if pat.len() > 0 && pat.len() <= s.len() && s.subrange(0, pat.len() as int) == pat {
        rep + replace_all(s.subrange(pat.len() as int, s.len() as int), pat, rep)
    } else {
        seq![s[0]] + replace_all(s.subrange(1, s.len() as int), pat, rep)
    }
}

/// True when `pat` occurs in `s` at position `i`.
fn occurs_at(s: &Vec<char>, i: usize, pat: &Vec<char>) -> (r: bool)
    requires
        i <= s@.len(),
    ensures
        r == (pat@.len() <= s@.len() - i && s@.subrange(i as int, i + pat@.len()) == pat@),
{
    let n = s.len();
    let m = pat.len();
    if m > n - i {
        return false;
    }
    let mut k: usize = 0;
    while k < m
        invariant
            n == s@.len(),
            m == pat@.len(),
            i + m <= n,
            k <= m,
            forall|j: int| 0 <= j < k ==> s@[i + j] == pat@[j],
        decreases m - k,
    {
        if s[i + k] != pat[k] {
            proof {
                assert(s@.subrange(i as int, i + m)[k as int] != pat@[k as int]);
            }
            return false;
        }
        k = k + 1;
    }
    proof {
        assert(s@.subrange(i as int, i + m) =~= pat@);
    }
    true
}

/// `s` with every occurrence of `pat` replaced by `rep`.
pub fn replace_str(s: &str, pat: &str, rep: &str) -> (r: String)
    requires
        pat@.len() > 0,
    ensures
        r@ == replace_all(s@, pat@, rep@),
{
    let cs = chars_of(s);
    let ps = chars_of(pat);
    let n = cs.len();
    let m = ps.len();
    let mut out = String::new();
    let mut i: usize = 0;
    proof {
        assert(cs@.subrange(0, n as int) =~= s@);
    }
    while i < n
        invariant
            cs@ == s@,
            ps@ == pat@,
            n == cs@.len(),
            m == ps@.len(),
            m > 0,
            i <= n,
            out@ + replace_all(cs@.subrange(i as int, n as int), pat@, rep@) == replace_all(
                s@,
                pat@,
                rep@,
            ),
        decreases n - i,
    {
        let ghost rest = cs@.subrange(i as int, n as int);
        if occurs_at(&cs, i, &ps) {
            proof {
                assert(rest.subrange(0, m as int) =~= cs@.subrange(i as int, i + m));
                assert(rest.subrange(m as int, rest.len() as int) =~= cs@.subrange(
                    i + m,
                    n as int,
                ));
            }
            push_str(&mut out, rep);
            i = i + m;
        } else {
            proof {
                assert(rest.subrange(1, rest.len() as int) =~= cs@.subrange(i + 1, n as int));
                if m <= rest.len() {
                    assert(rest.subrange(0, m as int) =~= cs@.subrange(i as int, i + m));
                }
            }
            push_str(&mut out, s.substring_char(i, i + 1));
            proof {
                assert(s@.subrange(i as int, i + 1) =~= seq![rest[0]]);
            }
            i = i + 1;
        }
        proof {
            assert(out@ + replace_all(cs@.subrange(i as int, n as int), pat@, rep@) =~= replace_all(
                s@,
                pat@,
                rep@,
            ));
        }
    }
    proof {
        assert(cs@.subrange(n as int, n as int) =~= Seq::<char>::empty());
        assert(out@ =~= replace_all(s@, pat@, rep@));
    }
    out
}

/// `s` without its `c` characters.
pub open spec fn without_char(s: Seq<char>, c: char) -> Seq<char> {
    s.filter(|x: char| x != c)
}

/// `s` with every `c` removed.
pub fn remove_char(s: &str, c: char) -> (r: String)
    ensures
        r@ == without_char(s@, c),
{
    let n = s.unicode_len();
    let mut out = String::new();
    let mut i: usize = 0;
    while i < n
        invariant
            n == s@.len(),
            i <= n,
            out@ == without_char(s@.take(i as int), c),
        decreases n - i,
    {
        let ch = s.get_char(i);
        proof {
            assert(s@.take(i + 1).drop_last() =~= s@.take(i as int));
            reveal(Seq::filter);
        }
        if ch != c {
            push_str(&mut out, s.substring_char(i, i + 1));
            proof {
                assert(s@.subrange(i as int, i + 1) =~= seq![ch]);
            }
        }
        i = i + 1;
        proof {
            assert(out@ =~= without_char(s@.take(i as int), c));
        }
    }
    proof {
        assert(s@.take(n as int) =~= s@);
    }
    out
}

/// `a` comes before `b` in the order of `String` (code point by code
/// point, a proper prefix first).
pub open spec fn text_lt(a: Seq<char>, b: Seq<char>) -> bool
    decreases a.len(),
{
    if a.len() == 0 {
        b.len() > 0
    } else if b.len() == 0 {
        false
    } else if (a[0] as u32) < (b[0] as u32) {
        true
    } else if (a[0] as u32) > (b[0] as u32) {
        false
    } else {
        text_lt(a.subrange(1, a.len() as int), b.subrange(1, b.len() as int))
    }
}

/// No text comes before itself.
pub proof fn lemma_text_lt_irreflexive(a: Seq<char>)
    ensures
        !text_lt(a, a),
    decreases a.len(),
{
    if a.len() > 0 {
        lemma_text_lt_irreflexive(a.subrange(1, a.len() as int));
    }
}

/// The order of texts is transitive.
pub proof fn lemma_text_lt_transitive(a: Seq<char>, b: Seq<char>, c: Seq<char>)
    requires
        text_lt(a, b),
        text_lt(b, c),
    ensures
        text_lt(a, c),
    decreases a.len(),
{
    if a.len() > 0 && b.len() > 0 && c.len() > 0 && (a[0] as u32) == (b[0] as u32) && (b[0]
        as u32) == (c[0] as u32) {
        lemma_text_lt_transitive(
            a.subrange(1, a.len() as int),
            b.subrange(1, b.len() as int),
            c.subrange(1, c.len() as int),
        );
    }
}

/// Of two different texts, one comes before the other.
pub proof fn lemma_text_lt_total(a: Seq<char>, b: Seq<char>)
    requires
        a != b,
    ensures
        text_lt(a, b) || text_lt(b, a),
    decreases a.len(),
{
    if a.len() == 0 {
        assert(b.len() > 0) by {
            if b.len() == 0 {
                assert(a =~= b);
            }
        }
    } else if b.len() > 0 && (a[0] as u32) == (b[0] as u32) {
        let ta = a.subrange(1, a.len() as int);
        let tb = b.subrange(1, b.len() as int);
        vstd::utf8::char_u32_cast(a[0], a[0] as u32);
        vstd::utf8::char_u32_cast(b[0], b[0] as u32);
        if ta == tb {
            assert(a =~= seq![a[0]] + ta);
            assert(b =~= seq![b[0]] + tb);
        }
        lemma_text_lt_total(ta, tb);
    }
}

/// True when `a` comes before `b`.
pub fn text_less(a: &str, b: &str) -> (r: bool)
    ensures
        r == text_lt(a@, b@),
{
    let x = chars_of(a);
    let y = chars_of(b);
    let n = x.len();
    let m = y.len();
    let mut i: usize = 0;
    proof {
        assert(x@.subrange(0, n as int) =~= a@);
        assert(y@.subrange(0, m as int) =~= b@);
    }
    while i < n && i < m
        invariant
            x@ == a@,
            y@ == b@,
            n == x@.len(),
            m == y@.len(),
            i <= n,
            i <= m,
            text_lt(a@, b@) == text_lt(x@.subrange(i as int, n as int), y@.subrange(i as int, m as int)),
        decreases n - i,
    {
        let cx = x[i] as u32;
        let cy = y[i] as u32;
        let ghost xs = x@.subrange(i as int, n as int);
        let ghost ys = y@.subrange(i as int, m as int);
        if cx < cy {
            return true;
        }
        if cx > cy {
            return false;
        }
        proof {
            assert(xs.subrange(1, xs.len() as int) =~= x@.subrange(i + 1, n as int));
            assert(ys.subrange(1, ys.len() as int) =~= y@.subrange(i + 1, m as int));
        }
        i = i + 1;
    }
    i >= n && i < m
}

/// Why a text is not an unsigned integer, or its value.
#[derive(Debug, Clone, Copy, PartialEq, Eq, Structural)]
pub enum UintParse {
    Value(u64),
    Empty,
    InvalidDigit,
    PosOverflow,
}

/// Value of a decimal digit character.
pub open spec fn digit_value(c: char) -> int {
    (c as u32) - ('0' as u32)
}

/// True for `0` to `9`.
pub open spec fn is_digit(c: char) -> bool {
    '0' <= c && c <= '9'
}

/// Reads digits after `acc` was read, failing at the first non-digit or at
/// the first digit that takes the value above `max`.
pub open spec fn parse_digits(d: Seq<char>, acc: nat, max: nat) -> UintParse
    decreases d.len(),
{
    if d.len() == 0 {
        UintParse::Value(acc as u64)
    } else if !is_digit(d[0]) {
        UintParse::InvalidDigit
    } else if acc * 10 + digit_value(d[0]) > max {
        UintParse::PosOverflow
    } else {
        parse_digits(d.subrange(1, d.len() as int), (acc * 10 + digit_value(d[0])) as nat, max)
    }
}

/// How `from_str` of an unsigned integer type with maximum `max` reads a
/// text: an optional `+`, then decimal digits.
pub open spec fn parse_uint(s: Seq<char>, max: nat) -> UintParse {
    if s.len() == 0 {
        UintParse::Empty
    } else if s.len() == 1 && (s[0] == '+' || s[0] == '-') {
        UintParse::InvalidDigit
    } else if s[0] == '+' {
        parse_digits(s.subrange(1, s.len() as int), 0, max)
    } else {
        parse_digits(s, 0, max)
    }
}

proof fn lemma_parse_digits_bound(d: Seq<char>, acc: nat, max: nat)
    requires
        acc <= max,
        max <= u64::MAX,
    ensures
        parse_digits(d, acc, max) matches UintParse::Value(v) ==> v <= max,
    decreases d.len(),
{
    if d.len() > 0 && is_digit(d[0]) && acc * 10 + digit_value(d[0]) <= max {
        lemma_parse_digits_bound(
            d.subrange(1, d.len() as int),
            (acc * 10 + digit_value(d[0])) as nat,
            max,
        );
    }
}

/// Reads an unsigned integer no larger than `max`.
pub fn parse_unsigned(s: &str, max: u64) -> (r: UintParse)
    ensures
        r == parse_uint(s@, max as nat),
        r matches UintParse::Value(v) ==> v <= max,
{
    let cs = chars_of(s);
    let n = cs.len();
    if n == 0 {
        return UintParse::Empty;
    }
    if n == 1 && (cs[0] == '+' || cs[0] == '-') {
        return UintParse::InvalidDigit;
    }
    let start: usize = if cs[0] == '+' {
        1
    } else {
        0
    };
    let ghost digits = cs@.subrange(start as int, n as int);
    proof {
        if start == 0 {
            assert(digits =~= s@);
        }
        assert(parse_uint(s@, max as nat) == parse_digits(digits, 0, max as nat));
        lemma_parse_digits_bound(digits, 0, max as nat);
    }
    let mut acc: u64 = 0;
    let mut i: usize = start;
    while i < n
        invariant
            cs@ == s@,
            n == cs@.len(),
            start <= i <= n,
            acc <= max,
            parse_digits(digits, 0, max as nat) == parse_digits(
                cs@.subrange(i as int, n as int),
                acc as nat,
                max as nat,
            ),
            digits == cs@.subrange(start as int, n as int),
            parse_uint(s@, max as nat) == parse_digits(digits, 0, max as nat),
        decreases n - i,
    {
        let c = cs[i];
        let ghost rest = cs@.subrange(i as int, n as int);
        proof {
            assert(rest[0] == c);
        }
        if !('0' <= c && c <= '9') {
            return UintParse::InvalidDigit;
        }
        let d = (c as u32 - '0' as u32) as u64;
        if d > max {
            return UintParse::PosOverflow;
        }
        if acc > (max - d) / 10 {
            proof {
                assert(acc * 10 + d > max) by (nonlinear_arith)
                    requires
                        acc > (max - d) / 10,
                        d <= max,
                ;
            }
            return UintParse::PosOverflow;
        }
        proof {
            assert(acc * 10 + d <= max) by (nonlinear_arith)
                requires
                    acc <= (max - d) / 10,
                    d <= max,
            ;
            assert(rest.subrange(1, rest.len() as int) =~= cs@.subrange(i + 1, n as int));
        }
        acc = acc * 10 + d;
        i = i + 1;
    }
    proof {
        assert(cs@.subrange(n as int, n as int) =~= Seq::<char>::empty());
    }
    UintParse::Value(acc)
}

/// The text of a failed parse, as `ParseIntError` displays it.
pub open spec fn parse_error_text(p: UintParse) -> Seq<char> {
    match p {
        UintParse::Empty => "cannot parse integer from empty string"@,
        UintParse::InvalidDigit => "invalid digit found in string"@,
        _ => "number too large to fit in target type"@,
    }
}

/// Appends the text of a failed parse.
pub fn push_parse_error(out: &mut String, p: UintParse)
    ensures
        final(out)@ == old(out)@ + parse_error_text(p),
{
    match p {
        UintParse::Empty => push_str(out, "cannot parse integer from empty string"),
        UintParse::InvalidDigit => push_str(out, "invalid digit found in string"),
        _ => push_str(out, "number too large to fit in target type"),
    }
}

/// True when the two texts are equal.
pub fn text_equal(a: &str, b: &str) -> (r: bool)
    ensures
        r == (a@ == b@),
{
    let x = chars_of(a);
    let y = chars_of(b);
    if x.len() != y.len() {
        return false;
    }
    let n = x.len();
    let mut i: usize = 0;
    while i < n
        invariant
            x@ == a@,
            y@ == b@,
            n == x@.len(),
            n == y@.len(),
            i <= n,
            forall|k: int| 0 <= k < i ==> x@[k] == y@[k],
        decreases n - i,
    {
        if x[i] != y[i] {
            return false;
        }
        i = i + 1;
    }
    proof {
        assert(a@ =~= b@);
    }
    true
}

/// True when `s` begins with `p`.
pub open spec fn has_prefix(s: Seq<char>, p: Seq<char>) -> bool {
    p.len() <= s.len() && s.subrange(0, p.len() as int) == p
}

/// True when `s` ends with `p`.
pub open spec fn has_suffix(s: Seq<char>, p: Seq<char>) -> bool {
    p.len() <= s.len() && s.subrange(s.len() - p.len(), s.len() as int) == p
}

/// True when `s` begins with `p`.
pub fn starts_with(s: &str, p: &str) -> (r: bool)
    ensures
        r == has_prefix(s@, p@),
{
    let x = chars_of(s);
    let y = chars_of(p);
    if y.len() > x.len() {
        return false;
    }
    let n = y.len();
    let mut i: usize = 0;
    while i < n
        invariant
            x@ == s@,
            y@ == p@,
            n == y@.len(),
            n <= x@.len(),
            i <= n,
            forall|k: int| 0 <= k < i ==> x@[k] == y@[k],
        decreases n - i,
    {
        if x[i] != y[i] {
            proof {
                assert(s@.subrange(0, n as int)[i as int] != p@[i as int]);
            }
            return false;
        }
        i = i + 1;
    }
    proof {
        assert(s@.subrange(0, n as int) =~= p@);
    }
    true
}

/// True when `s` ends with `p`.
pub fn ends_with(s: &str, p: &str) -> (r: bool)
    ensures
        r == has_suffix(s@, p@),
{
    let x = chars_of(s);
    let y = chars_of(p);
    if y.len() > x.len() {
        return false;
    }
    let n = y.len();
    let xl = x.len();
    let off = xl - n;
    let mut i: usize = 0;
    while i < n
        invariant
            xl == x@.len(),
            x@ == s@,
            y@ == p@,
            n == y@.len(),
            off + n == x@.len(),
            i <= n,
            forall|k: int| 0 <= k < i ==> x@[off + k] == y@[k],
        decreases n - i,
    {
        if x[off + i] != y[i] {
            proof {
                assert(s@.subrange(off as int, x@.len() as int)[i as int] != p@[i as int]);
            }
            return false;
        }
        i = i + 1;
    }
    proof {
        assert(s@.subrange(off as int, x@.len() as int) =~= p@);
    }
    true
}

/// `s` without the `c` characters at its two ends.
pub open spec fn strip_char(s: Seq<char>, c: char) -> Seq<char>
    decreases s.len(),
{
    if s.len() > 0 && s[0] == c {
        strip_char(s.subrange(1, s.len() as int), c)
    } else if s.len() > 0 && s.last() == c {
        strip_char(s.drop_last(), c)
    } else {
        s
    }
}

/// `s` without the `c` characters at its two ends (as `trim_matches`).
pub fn strip_chars(s: &str, c: char) -> (r: String)
    ensures
        r@ == strip_char(s@, c),
{
    let n = s.unicode_len();
    let mut lo: usize = 0;
    let mut hi: usize = n;
    proof {
        assert(s@.subrange(0, n as int) =~= s@);
    }
    while lo < hi && s.get_char(lo) == c
        invariant
            n == s@.len(),
            lo <= hi == n,
            strip_char(s@, c) == strip_char(s@.subrange(lo as int, n as int), c),
        decreases hi - lo,
    {
        proof {
            let t = s@.subrange(lo as int, n as int);
            assert(t.subrange(1, t.len() as int) =~= s@.subrange(lo + 1, n as int));
        }
        lo = lo + 1;
    }
    proof {
        if lo < hi {
            assert(s@.subrange(lo as int, n as int)[0] != c);
        }
    }
    while lo < hi && s.get_char(hi - 1) == c
        invariant
            n == s@.len(),
            lo <= hi <= n,
            lo < hi ==> s@[lo as int] != c,
            strip_char(s@, c) == strip_char(s@.subrange(lo as int, hi as int), c),
        decreases hi - lo,
    {
        proof {
            let t = s@.subrange(lo as int, hi as int);
            assert(t.drop_last() =~= s@.subrange(lo as int, hi - 1));
            assert(t[0] != c);
        }
        hi = hi - 1;
    }
    proof {
        let t = s@.subrange(lo as int, hi as int);
        if t.len() > 0 {
            assert(t[0] != c);
            assert(t.last() != c);
        }
    }
    s.substring_char(lo, hi).to_owned()
}

} // verus!

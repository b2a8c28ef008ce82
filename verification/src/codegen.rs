//! Code generation from message contracts: tag-range checks, message sizes,
//! buffer classes and type mappings.
//!
//! A contract lists messages, each with a TLV type id, a domain and fields
//! in declaration order. Type ids must stay out of the reserved `core` range;
//! ids in the `experimental` range, or outside both the `app` and
//! `experimental` ranges, draw warnings.
use vstd::prelude::*;
use crate::pow2::{
    is_power_of_two,
    lemma_next_pow2_bounds,
    lemma_next_pow2_smallest,
    next_pow2,
    next_power_of_two as pow2_at_least,
};
use crate::strutil::{
    chars_of,
    ends_with,
    has_prefix,
    has_suffix,
    lowercase,
    parse_error_text,
    parse_uint,
    parse_unsigned,
    push_parse_error,
    remove_char,
    replace_all,
    replace_str,
    starts_with,
    strip_char,
    strip_chars,
    text_equal,
    text_less,
    text_lt,
    lemma_text_lt_irreflexive,
    lemma_text_lt_total,
    lemma_text_lt_transitive,
    to_lowercase,
    to_uppercase,
    uppercase,
    trim_whitespace,
    trimmed,
    without_char,
    UintParse,
};
use crate::text::{decimal, push_decimal, push_str};
use crate::error::{invalid_data_error, invalid_data_of, io_error_text};

verus! {

#[verifier::external_type_specification]
#[verifier::external_body]
pub struct ExYamlError(serde_yaml::Error);

/// Errors of code generation.
#[derive(Debug)]
pub enum CodegenError {
    IoError(std::io::Error),
    YamlError(serde_yaml::Error),
}

/// Calls `Display` of `serde_yaml::Error` (through `to_string`); the text
/// of a parse error is not stated.
#[verifier::external_body]
fn yaml_error_text(e: &serde_yaml::Error) -> String {
    e.to_string()
}

/// What the text of a code generation error begins with.
pub open spec fn codegen_error_prefix(e: CodegenError) -> Seq<char> {
    match e {
        CodegenError::IoError(_) => "IO error: "@,
        CodegenError::YamlError(_) => "YAML error: "@,
    }
}

impl CodegenError {
    /// Text of the error: its kind, then the text of the error it carries.
    pub fn to_string(&self) -> (r: String)
        ensures
            codegen_error_prefix(*self).is_prefix_of(r@),
    {
        let mut s = String::new();
        match self {
            CodegenError::IoError(e) => {
                push_str(&mut s, "IO error: ");
                let t = io_error_text(e);
                push_str(&mut s, t.as_str());
                proof {
                    reveal_strlit("IO error: ");
                    assert(s@.subrange(0, 10) =~= "IO error: "@);
                }
            },
            CodegenError::YamlError(e) => {
                push_str(&mut s, "YAML error: ");
                let t = yaml_error_text(e);
                push_str(&mut s, t.as_str());
                proof {
                    reveal_strlit("YAML error: ");
                    assert(s@.subrange(0, 12) =~= "YAML error: "@);
                }
            },
        }
        s
    }
}

impl From<std::io::Error> for CodegenError {
    fn from(e: std::io::Error) -> (r: Self) {
        CodegenError::IoError(e)
    }
}

impl vstd::std_specs::convert::FromSpecImpl<std::io::Error> for CodegenError {
    open spec fn obeys_from_spec() -> bool {
        true
    }

    open spec fn from_spec(e: std::io::Error) -> Self {
        CodegenError::IoError(e)
    }
}

impl From<serde_yaml::Error> for CodegenError {
    fn from(e: serde_yaml::Error) -> (r: Self) {
        CodegenError::YamlError(e)
    }
}

impl vstd::std_specs::convert::FromSpecImpl<serde_yaml::Error> for CodegenError {
    open spec fn obeys_from_spec() -> bool {
        true
    }

    open spec fn from_spec(e: serde_yaml::Error) -> Self {
        CodegenError::YamlError(e)
    }
}

/// Versioning of a contract file.
#[derive(Debug, Clone)]
pub struct SchemaConfig {
    pub id: u32,
    pub version: u16,
    pub min_compatible: Option<u16>,
}

/// Type-id ranges, each written `start-end`.
#[derive(Debug, Clone)]
pub struct TagRanges {
    pub core: Option<String>,
    pub app: Option<String>,
    pub experimental: Option<String>,
}

/// One validation rule of a field.
#[derive(Debug, Clone)]
pub struct ValidationRule {
    /// The rule has a `not_empty` entry.
    pub not_empty: bool,
    /// The rule's `min_length`, when it is an unsigned integer.
    pub min_length: Option<u64>,
    /// The rule's `max_length`, when it is an unsigned integer.
    pub max_length: Option<u64>,
}

/// A field of a message contract.
#[derive(Debug, Clone)]
pub struct FieldContract {
    pub field_type: String,
    pub description: String,
    pub optional: Option<bool>,
    pub validation: Vec<ValidationRule>,
}

/// A message contract; its fields keep their declaration order.
#[derive(Debug, Clone)]
pub struct MessageContract {
    pub tlv_type: u16,
    pub domain: String,
    pub description: String,
    pub required_prior_messages: Vec<String>,
    pub sensitivity: Option<String>,
    pub log_payload: Option<bool>,
    pub fields: Vec<(String, FieldContract)>,
}

/// A contract file: its messages by name.
#[derive(Debug, Clone)]
pub struct Contracts {
    pub schema: Option<SchemaConfig>,
    pub tag_ranges: Option<TagRanges>,
    pub messages: Vec<(String, MessageContract)>,
}

/// A closed range of type ids.
#[derive(Debug, Clone, Copy, PartialEq, Eq, Structural)]
pub struct Range {
    pub start: u16,
    pub end: u16,
}

/// Number of `c` characters in `s`.
pub open spec fn count_char(s: Seq<char>, c: char) -> nat
    decreases s.len(),
{
    if s.len() == 0 {
        0
    } else {
        count_char(s.drop_last(), c) + if s.last() == c {
            1nat
        } else {
            0nat
        }
    }
}

/// Position of the first `c` in `s` (its length when there is none).
pub open spec fn first_pos(s: Seq<char>, c: char) -> int
    decreases s.len(),
{
    if s.len() == 0 {
        0
    } else if s[0] == c {
        0
    } else {
        1 + first_pos(s.subrange(1, s.len() as int), c)
    }
}

/// What `Range::parse` gives for a text: the range, or the message of why
/// it is not one.
pub open spec fn range_parse(s: Seq<char>) -> Result<Range, Seq<char>> {
    if count_char(s, '-') != 1 {
        Err("Invalid range format: '"@ + s + "' (expected 'start-end')"@)
    } else {
        let k = first_pos(s, '-');
        let a = s.subrange(0, k);
        let b = s.subrange(k + 1, s.len() as int);
        match parse_uint(a, 65535) {
            UintParse::Value(x) => match parse_uint(b, 65535) {
                UintParse::Value(y) => if x > y {
                    Err(
                        "Invalid range "@ + decimal(x as nat) + "-"@ + decimal(y as nat)
                            + ": start > end"@,
                    )
                } else {
                    Ok(Range { start: x as u16, end: y as u16 })
                },
                e => Err("Invalid range end '"@ + b + "': "@ + parse_error_text(e)),
            },
            e => Err("Invalid range start '"@ + a + "': "@ + parse_error_text(e)),
        }
    }
}

/// The first position of `c` is the first index holding it.
proof fn lemma_first_pos_at(s: Seq<char>, c: char, k: int)
    requires
        0 <= k <= s.len(),
        forall|j: int| 0 <= j < k ==> s[j] != c,
        k < s.len() ==> s[k] == c,
    ensures
        first_pos(s, c) == k,
    decreases s.len(),
{
    if s.len() > 0 && k > 0 {
        let t = s.subrange(1, s.len() as int);
        lemma_first_pos_at(t, c, k - 1);
    }
}

/// Number of dashes in `cs`, and the position of the first.
fn scan_dashes(cs: &Vec<char>) -> (r: (usize, usize))
    ensures
        r.0 == count_char(cs@, '-'),
        r.1 == first_pos(cs@, '-'),
{
    let n = cs.len();
    let mut count: usize = 0;
    let mut i: usize = 0;
    while i < n
        invariant
            n == cs@.len(),
            i <= n,
            count <= i,
            count == count_char(cs@.take(i as int), '-'),
        decreases n - i,
    {
        proof {
            assert(cs@.take(i + 1).drop_last() =~= cs@.take(i as int));
        }
        if cs[i] == '-' {
            count = count + 1;
        }
        i = i + 1;
    }
    proof {
        assert(cs@.take(n as int) =~= cs@);
    }
    let mut first: usize = 0;
    while first < n && cs[first] != '-'
        invariant
            n == cs@.len(),
            first <= n,
            forall|j: int| 0 <= j < first ==> cs@[j] != '-',
        decreases n - first,
    {
        first = first + 1;
    }
    proof {
        lemma_first_pos_at(cs@, '-', first as int);
    }
    (count, first)
}

impl Range {
    /// Reads `start-end`.
    pub fn parse(s: &str) -> (r: Result<Range, String>)
        ensures
            match range_parse(s@) {
                Ok(x) => r == Ok::<Range, String>(x),
                Err(m) => r matches Err(t) && t@ == m,
            },
    {
        let cs = chars_of(s);
        let (count, k) = scan_dashes(&cs);
        if count != 1 {
            let mut m = String::new();
            push_str(&mut m, "Invalid range format: '");
            push_str(&mut m, s);
            push_str(&mut m, "' (expected 'start-end')");
            return Err(m);
        }
        proof {
            lemma_first_pos_bound(s@, '-');
        }
        let n = cs.len();
        let a = s.substring_char(0, k);
        let b = s.substring_char(k + 1, n);
        match parse_unsigned(a, 65535) {
            UintParse::Value(x) => match parse_unsigned(b, 65535) {
                UintParse::Value(y) => {
                    if x > y {
                        let mut m = String::new();
                        push_str(&mut m, "Invalid range ");
                        push_decimal(&mut m, x);
                        push_str(&mut m, "-");
                        push_decimal(&mut m, y);
                        push_str(&mut m, ": start > end");
                        Err(m)
                    } else {
                        Ok(Range { start: x as u16, end: y as u16 })
                    }
                },
                e => {
                    let mut m = String::new();
                    push_str(&mut m, "Invalid range end '");
                    push_str(&mut m, b);
                    push_str(&mut m, "': ");
                    push_parse_error(&mut m, e);
                    Err(m)
                },
            },
            e => {
                let mut m = String::new();
                push_str(&mut m, "Invalid range start '");
                push_str(&mut m, a);
                push_str(&mut m, "': ");
                push_parse_error(&mut m, e);
                Err(m)
            },
        }
    }

    /// True when `value` is in the range, ends included.
    pub fn contains(&self, value: u16) -> (r: bool)
        ensures
            r == (self.start <= value && value <= self.end),
    {
        value >= self.start && value <= self.end
    }
}

proof fn lemma_first_pos_bound(s: Seq<char>, c: char)
    requires
        count_char(s, c) >= 1,
    ensures
        0 <= first_pos(s, c) < s.len(),
        s[first_pos(s, c)] == c,
    decreases s.len(),
{
    if s.len() > 0 && s[0] != c {
        let t = s.subrange(1, s.len() as int);
        lemma_count_char_front(s, c);
        lemma_first_pos_bound(t, c);
    }
}

proof fn lemma_count_char_front(s: Seq<char>, c: char)
    requires
        s.len() > 0,
    ensures
        count_char(s, c) == count_char(s.subrange(1, s.len() as int), c) + if s[0] == c {
            1nat
        } else {
            0nat
        },
    decreases s.len(),
{
    if s.len() > 1 {
        lemma_count_char_front(s.drop_last(), c);
        assert(s.drop_last().subrange(1, s.len() - 1) =~= s.subrange(1, s.len() as int).drop_last());
    } else {
        assert(s.subrange(1, s.len() as int) =~= Seq::<char>::empty());
        assert(s.drop_last() =~= Seq::<char>::empty());
    }
}

/// A range given or not, read: `Err` with the message when it is given and
/// malformed.
pub open spec fn opt_range(r: Option<String>) -> Result<Option<Range>, Seq<char>> {
    match r {
        None => Ok(None),
        Some(t) => match range_parse(t@) {
            Ok(x) => Ok(Some(x)),
            Err(m) => Err(m),
        },
    }
}

/// `t` lies in a range that is given.
pub open spec fn in_range(r: Option<Range>, t: u16) -> bool {
    r matches Some(x) && x.start <= t && t <= x.end
}

/// Message for a type id in the reserved range.
pub open spec fn core_message(name: Seq<char>, t: u16, r: Range) -> Seq<char> {
    "Message '"@ + name + "' uses type_id "@ + decimal(t as nat) + " which is in 'core' range ("@
        + decimal(r.start as nat) + "-"@ + decimal(r.end as nat)
        + ") - reserved for Mycelium framework"@
}

/// Warning for a type id in the experimental range.
pub open spec fn experimental_warning(name: Seq<char>, t: u16, r: Range) -> Seq<char> {
    "cargo:warning=Message '"@ + name + "' uses type_id "@ + decimal(t as nat)
        + " in 'experimental' range ("@ + decimal(r.start as nat) + "-"@ + decimal(r.end as nat)
        + ") - can change without version bump"@
}

/// Warning for a type id outside the app and experimental ranges.
pub open spec fn outside_app_warning(name: Seq<char>, t: u16, r: Range) -> Seq<char> {
    "cargo:warning=Message '"@ + name + "' uses type_id "@ + decimal(t as nat)
        + " which is outside 'app' range ("@ + decimal(r.start as nat) + "-"@ + decimal(
        r.end as nat,
    ) + ") and not in 'experimental' range"@
}

/// The warnings for one message.
pub open spec fn message_warnings(name: Seq<char>, t: u16, app: Option<Range>, exp: Option<Range>) -> Seq<Seq<char>> {
    (if in_range(exp, t) {
        seq![experimental_warning(name, t, exp->0)]
    } else {
        Seq::empty()
    }) + (if app is Some && !in_range(app, t) && exp is Some && !in_range(exp, t) {
        seq![outside_app_warning(name, t, app->0)]
    } else {
        Seq::empty()
    })
}

/// Warnings and error of the messages from the first on: the warnings of
/// each message until one lies in the reserved range.
pub open spec fn scan_messages(
    msgs: Seq<(String, MessageContract)>,
    core: Option<Range>,
    app: Option<Range>,
    exp: Option<Range>,
) -> (Seq<Seq<char>>, Option<Seq<char>>)
    decreases msgs.len(),
{
    if msgs.len() == 0 {
        (Seq::empty(), None)
    } else {
        let name = msgs[0].0@;
        let t = msgs[0].1.tlv_type;
        if in_range(core, t) {
            (Seq::empty(), Some(core_message(name, t, core->0)))
        } else {
            let rest = scan_messages(msgs.subrange(1, msgs.len() as int), core, app, exp);
            (message_warnings(name, t, app, exp) + rest.0, rest.1)
        }
    }
}

/// The warnings and the error, if any, of checking the type ids of a
/// contract against its ranges.
pub open spec fn tag_check(c: Contracts) -> (Seq<Seq<char>>, Option<Seq<char>>) {
    match c.tag_ranges {
        None => (Seq::empty(), None),
        Some(tr) => match opt_range(tr.core) {
            Err(m) => (Seq::empty(), Some(m)),
            Ok(core) => match opt_range(tr.app) {
                Err(m) => (Seq::empty(), Some(m)),
                Ok(app) => match opt_range(tr.experimental) {
                    Err(m) => (Seq::empty(), Some(m)),
                    Ok(exp) => scan_messages(c.messages@, core, app, exp),
                },
            },
        },
    }
}

/// The texts of a list of strings.
pub open spec fn texts(v: Seq<String>) -> Seq<Seq<char>> {
    v.map_values(|s: String| s@)
}

/// Outcome of checking type ids: warnings to show, then the error if one
/// stopped the check.
#[derive(Debug, Clone)]
pub struct TagReport {
    pub warnings: Vec<String>,
    pub error: Option<String>,
}

/// Reads an optional range.
fn parse_opt_range(r: &Option<String>) -> (res: Result<Option<Range>, String>)
    ensures
        match opt_range(*r) {
            Ok(x) => res == Ok::<Option<Range>, String>(x),
            Err(m) => res matches Err(t) && t@ == m,
        },
{
    match r {
        None => Ok(None),
        Some(t) => match Range::parse(t.as_str()) {
            Ok(x) => Ok(Some(x)),
            Err(m) => Err(m),
        },
    }
}

fn opt_contains(r: &Option<Range>, t: u16) -> (res: bool)
    ensures
        res == in_range(*r, t),
{
    match r {
        Some(x) => x.contains(t),
        None => false,
    }
}

fn push_range_text(m: &mut String, r: &Range)
    ensures
        final(m)@ == old(m)@ + decimal(r.start as nat) + "-"@ + decimal(r.end as nat),
{
    push_decimal(m, r.start as u64);
    push_str(m, "-");
    push_decimal(m, r.end as u64);
}

/// Checks the type ids of the contract's messages against its ranges.
pub fn check_tag_ranges(contracts: &Contracts) -> (r: TagReport)
    ensures
        texts(r.warnings@) == tag_check(*contracts).0,
        match tag_check(*contracts).1 {
            Some(m) => r.error matches Some(t) && t@ == m,
            None => r.error is None,
        },
{
    let tr = match &contracts.tag_ranges {
        None => {
            proof {
                assert(texts(Seq::<String>::empty()) =~= Seq::<Seq<char>>::empty());
            }
            return TagReport { warnings: Vec::new(), error: None };
        },
        Some(t) => t,
    };
    proof {
        assert(texts(Seq::<String>::empty()) =~= Seq::<Seq<char>>::empty());
    }
    let core = match parse_opt_range(&tr.core) {
        Ok(x) => x,
        Err(m) => return TagReport { warnings: Vec::new(), error: Some(m) },
    };
    let app = match parse_opt_range(&tr.app) {
        Ok(x) => x,
        Err(m) => return TagReport { warnings: Vec::new(), error: Some(m) },
    };
    let exp = match parse_opt_range(&tr.experimental) {
        Ok(x) => x,
        Err(m) => return TagReport { warnings: Vec::new(), error: Some(m) },
    };
    let msgs = &contracts.messages;
    let n = msgs.len();
    let mut warnings: Vec<String> = Vec::new();
    let mut i: usize = 0;
    proof {
        assert(msgs@.subrange(0, n as int) =~= msgs@);
    }
    while i < n
        invariant
            n == msgs@.len(),
            i <= n,
            tag_check(*contracts) == scan_messages(msgs@, core, app, exp),
            texts(warnings@) + scan_messages(msgs@.subrange(i as int, n as int), core, app, exp).0
                == scan_messages(msgs@, core, app, exp).0,
            scan_messages(msgs@.subrange(i as int, n as int), core, app, exp).1 == scan_messages(
                msgs@,
                core,
                app,
                exp,
            ).1,
        decreases n - i,
    {
        let ghost rest = msgs@.subrange(i as int, n as int);
        let name = &msgs[i].0;
        let t = msgs[i].1.tlv_type;
        proof {
            assert(rest[0] == msgs@[i as int]);
            assert(rest.subrange(1, rest.len() as int) =~= msgs@.subrange(i + 1, n as int));
        }
        if opt_contains(&core, t) {
            let c = match &core {
                Some(c) => c,
                None => {
                    return TagReport { warnings, error: None };
                },
            };
            let mut m = String::new();
            push_str(&mut m, "Message '");
            push_str(&mut m, name.as_str());
            push_str(&mut m, "' uses type_id ");
            push_decimal(&mut m, t as u64);
            push_str(&mut m, " which is in 'core' range (");
            push_range_text(&mut m, c);
            push_str(&mut m, ") - reserved for Mycelium framework");
            proof {
                assert(texts(warnings@) + Seq::<Seq<char>>::empty() =~= texts(warnings@));
            }
            return TagReport { warnings, error: Some(m) };
        }
        let ghost before = texts(warnings@);
        if opt_contains(&exp, t) {
            match &exp {
                Some(e) => {
                    let mut w = String::new();
                    push_str(&mut w, "cargo:warning=Message '");
                    push_str(&mut w, name.as_str());
                    push_str(&mut w, "' uses type_id ");
                    push_decimal(&mut w, t as u64);
                    push_str(&mut w, " in 'experimental' range (");
                    push_range_text(&mut w, e);
                    push_str(&mut w, ") - can change without version bump");
                    warnings.push(w);
                },
                None => {},
            }
        }
        match (&app, &exp) {
            (Some(a), Some(_)) => {
                if !opt_contains(&app, t) && !opt_contains(&exp, t) {
                    let mut w = String::new();
                    push_str(&mut w, "cargo:warning=Message '");
                    push_str(&mut w, name.as_str());
                    push_str(&mut w, "' uses type_id ");
                    push_decimal(&mut w, t as u64);
                    push_str(&mut w, " which is outside 'app' range (");
                    push_range_text(&mut w, a);
                    push_str(&mut w, ") and not in 'experimental' range");
                    warnings.push(w);
                }
            },
            _ => {},
        }
        proof {
            assert(texts(warnings@) =~= before + message_warnings(name@, t, app, exp));
        }
        i = i + 1;
    }
    proof {
        assert(msgs@.subrange(n as int, n as int) =~= Seq::<(String, MessageContract)>::empty());
        assert(texts(warnings@) + Seq::<Seq<char>>::empty() =~= texts(warnings@));
    }
    TagReport { warnings, error: None }
}

/// Checks the type ids against the ranges: the warnings to show, and an
/// `InvalidData` I/O error carrying the message when the check fails.
pub fn validate_tag_ranges(contracts: &Contracts) -> (r: (Vec<String>, Result<(), CodegenError>))
    ensures
        texts(r.0@) == tag_check(*contracts).0,
        tag_check(*contracts).1 is None ==> r.1 is Ok,
        tag_check(*contracts).1 matches Some(m) ==> (r.1 matches Err(CodegenError::IoError(e)) && e
            == invalid_data_of(m)),
{
    let report = check_tag_ranges(contracts);
    match report.error {
        Some(m) => (report.warnings, Err(CodegenError::IoError(invalid_data_error(m)))),
        None => (report.warnings, Ok(())),
    }
}


/// The `max_length` of the first rule that has one.
pub open spec fn max_length_rule(rules: Seq<ValidationRule>) -> Option<u64>
    decreases rules.len(),
{
    if rules.len() == 0 {
        None
    } else if rules[0].max_length is Some {
        rules[0].max_length
    } else {
        max_length_rule(rules.subrange(1, rules.len() as int))
    }
}

/// The field's `max_length` rule as a `usize`, or `default` without one.
pub open spec fn max_len_or(f: FieldContract, default: nat) -> nat {
    match max_length_rule(f.validation@) {
        Some(v) => (v as usize) as nat,
        None => default,
    }
}

/// The `max_length` of the first validation rule of the field that has one.
pub fn get_max_length_from_validation(field: &FieldContract) -> (r: Option<usize>)
    ensures
        match max_length_rule(field.validation@) {
            Some(v) => r == Some(v as usize),
            None => r is None,
        },
{
    let rules = &field.validation;
    let n = rules.len();
    let mut i: usize = 0;
    proof {
        assert(rules@.subrange(0, n as int) =~= rules@);
    }
    while i < n
        invariant
            rules@ == field.validation@,
            n == rules@.len(),
            i <= n,
            max_length_rule(rules@) == max_length_rule(rules@.subrange(i as int, n as int)),
        decreases n - i,
    {
        let ghost rest = rules@.subrange(i as int, n as int);
        proof {
            assert(rest[0] == rules@[i as int]);
            assert(rest.subrange(1, rest.len() as int) =~= rules@.subrange(i + 1, n as int));
        }
        match rules[i].max_length {
            Some(v) => {
                assert(max_length_rule(rest) == Some(v));
                return Some(v as usize);
            },
            None => {},
        }
        i = i + 1;
    }
    None
}

/// Bytes that a field of the contract takes in a message, for the field
/// types that have a size.
pub open spec fn field_size(f: FieldContract) -> Option<nat> {
    let t = f.field_type@;
    if t == "u8"@ {
        Some(1)
    } else if t == "u16"@ {
        Some(2)
    } else if t == "u32"@ {
        Some(4)
    } else if t == "u64"@ {
        Some(8)
    } else if t == "i32"@ {
        Some(4)
    } else if t == "f64"@ {
        Some(8)
    } else if t == "[u8; 16]"@ {
        Some(16)
    } else if t == "[u8; 20]"@ {
        Some(20)
    } else if t == "[u8; 32]"@ {
        Some(32)
    } else if t == "[u8; 6]"@ {
        Some(6)
    } else if t == "U256"@ {
        Some(32)
    } else if t == "String"@ {
        Some(40)
    } else if t == "Vec<[u8; 20]>"@ {
        Some(8 + 20 * max_len_or(f, 4))
    } else if t == "Vec<[u8; 32]>"@ {
        Some(8 + 32 * max_len_or(f, 4))
    } else if t == "Vec<u8>"@ {
        Some(8 + max_len_or(f, 16))
    } else if t == "[[u8; 32]; 256]"@ {
        Some(8192)
    } else if t == "[[u8; 32]; 6]"@ {
        Some(192)
    } else if t == "[[u8; 20]; 6]"@ {
        Some(120)
    } else {
        None
    }
}

/// Every field has a type with a size.
pub open spec fn fields_sized(fs: Seq<(String, FieldContract)>) -> bool {
    forall|i: int| 0 <= i < fs.len() ==> (#[trigger] fs[i]).1.field_type@ == fs[i].1.field_type@
        && field_size(fs[i].1) is Some
}

/// Sum of the sizes of the fields.
pub open spec fn fields_size(fs: Seq<(String, FieldContract)>) -> nat
    decreases fs.len(),
{
    if fs.len() == 0 {
        0
    } else {
        fields_size(fs.drop_last()) + match field_size(fs.last().1) {
            Some(n) => n,
            None => 0,
        }
    }
}

/// Bytes that a message of the contract takes.
pub open spec fn message_size(c: MessageContract) -> nat {
    fields_size(c.fields@)
}

proof fn lemma_fields_size_prefix(fs: Seq<(String, FieldContract)>, i: int)
    requires
        0 <= i <= fs.len(),
    ensures
        fields_size(fs.take(i)) <= fields_size(fs),
    decreases fs.len(),
{
    if i < fs.len() {
        assert(fs.drop_last().take(i) =~= fs.take(i));
        lemma_fields_size_prefix(fs.drop_last(), i);
    } else {
        assert(fs.take(i) =~= fs);
    }
}

/// The size of one field.
fn field_size_of(f: &FieldContract) -> (r: usize)
    requires
        field_size(*f) is Some,
        field_size(*f)->0 <= usize::MAX,
    ensures
        r == field_size(*f)->0,
{
    let t = f.field_type.as_str();
    if text_equal(t, "u8") {
        1
    } else if text_equal(t, "u16") {
        2
    } else if text_equal(t, "u32") {
        4
    } else if text_equal(t, "u64") {
        8
    } else if text_equal(t, "i32") {
        4
    } else if text_equal(t, "f64") {
        8
    } else if text_equal(t, "[u8; 16]") {
        16
    } else if text_equal(t, "[u8; 20]") {
        20
    } else if text_equal(t, "[u8; 32]") {
        32
    } else if text_equal(t, "[u8; 6]") {
        6
    } else if text_equal(t, "U256") {
        32
    } else if text_equal(t, "String") {
        2 + 6 + 32
    } else if text_equal(t, "Vec<[u8; 20]>") {
        let max_len = unwrap_or(get_max_length_from_validation(f), 4);
        2 + 6 + (20 * max_len)
    } else if text_equal(t, "Vec<[u8; 32]>") {
        let max_len = unwrap_or(get_max_length_from_validation(f), 4);
        2 + 6 + (32 * max_len)
    } else if text_equal(t, "Vec<u8>") {
        let max_len = unwrap_or(get_max_length_from_validation(f), 16);
        2 + 6 + max_len
    } else if text_equal(t, "[[u8; 32]; 256]") {
        32 * 256
    } else if text_equal(t, "[[u8; 32]; 6]") {
        32 * 6
    } else {
        20 * 6
    }
}

/// `o`'s value, or `d`.
fn unwrap_or(o: Option<usize>, d: usize) -> (r: usize)
    ensures
        r == match o {
            Some(v) => v,
            None => d,
        },
{
    match o {
        Some(v) => v,
        None => d,
    }
}

/// Bytes that a message of the contract takes: the sum of its fields'
/// sizes.
pub fn calculate_message_size(contract: &MessageContract) -> (r: usize)
    requires
        fields_sized(contract.fields@),
        message_size(*contract) <= usize::MAX,
    ensures
        r == message_size(*contract),
{
    let fs = &contract.fields;
    let n = fs.len();
    let mut total: usize = 0;
    let mut i: usize = 0;
    proof {
        assert(fs@.take(0) =~= Seq::<(String, FieldContract)>::empty());
    }
    while i < n
        invariant
            n == fs@.len(),
            i <= n,
            fields_sized(fs@),
            fields_size(fs@) <= usize::MAX,
            total == fields_size(fs@.take(i as int)),
        decreases n - i,
    {
        proof {
            assert(fs@.take(i + 1).drop_last() =~= fs@.take(i as int));
            lemma_fields_size_prefix(fs@, i + 1);
            assert(fs@[i as int].1.field_type@ == fs@[i as int].1.field_type@);
        }
        let size = field_size_of(&fs[i].1);
        total = total + size;
        i = i + 1;
    }
    proof {
        assert(fs@.take(n as int) =~= fs@);
    }
    total
}

/// Buffer class of a message size: the next power of two, at least 128.
pub open spec fn buffer_class(n: nat) -> nat {
    if n <= 128 {
        128
    } else {
        next_pow2(n)
    }
}

/// Rounds up to the next power of two, with 128 at least.
pub fn next_power_of_two(n: usize) -> (r: usize)
    requires
        n <= usize::MAX / 2 + 1,
    ensures
        r == buffer_class(n as nat),
{
    if n <= 128 {
        return 128;
    }
    pow2_at_least(n)
}

/// A buffer class holds its message: it is a power of two, at least 128
/// and at least the size, and the smallest such (its half is below the
/// size, or it is 128).
pub proof fn lemma_buffer_class(n: nat)
    ensures
        is_power_of_two(buffer_class(n)),
        buffer_class(n) >= 128,
        buffer_class(n) >= n,
        buffer_class(n) == 128 || buffer_class(n) / 2 < n,
{
    lemma_next_pow2_bounds(n);
    lemma_next_pow2_smallest(n);
    assert(is_power_of_two(128)) by {
        reveal_with_fuel(is_power_of_two, 8);
    }
}

/// The topic of a domain: lower-cased, with `marketdata` written
/// `market-data`.
pub open spec fn domain_topic(domain: Seq<char>) -> Seq<char> {
    replace_all(lowercase(domain), "marketdata"@, "market-data"@)
}

/// The topic of a domain.
pub fn topic_from_domain(domain: &str) -> (r: String)
    ensures
        r@ == domain_topic(domain@),
{
    let lower = to_lowercase(domain);
    proof {
        reveal_strlit("marketdata");
    }
    replace_str(lower.as_str(), "marketdata", "market-data")
}


/// Appends the decimal text of `n`.
fn push_usize(out: &mut String, n: usize)
    ensures
        final(out)@ == old(out)@ + decimal(n as nat),
{
    push_decimal(out, n as u64);
}

/// A copy of `s`.
fn copy_str(s: &str) -> (r: String)
    ensures
        r@ == s@,
{
    let mut r = String::new();
    push_str(&mut r, s);
    proof {
        assert(Seq::<char>::empty() + s@ =~= s@);
    }
    r
}

/// The Rust type that a contract type stands for in generated code.
pub open spec fn rust_type(t: Seq<char>, f: FieldContract) -> Option<Seq<char>> {
    if t == "u8"@ || t == "u16"@ || t == "u32"@ || t == "u64"@ || t == "i32"@ || t == "f64"@
        || t == "[u8; 16]"@ || t == "[u8; 20]"@ || t == "[u8; 32]"@ || t == "[u8; 6]"@ {
        Some(t)
    } else if t == "U256"@ {
        Some("[u8; 32]"@)
    } else if t == "String"@ {
        Some("FixedStr<"@ + decimal(max_len_or(f, 32)) + ">"@)
    } else if t == "Vec<[u8; 20]>"@ {
        Some("FixedVec<[u8; 20], "@ + decimal(max_len_or(f, 4)) + ">"@)
    } else if t == "Vec<[u8; 32]>"@ {
        Some("FixedVec<[u8; 32], "@ + decimal(max_len_or(f, 4)) + ">"@)
    } else if t == "Vec<u8>"@ {
        Some("FixedVec<u8, "@ + decimal(max_len_or(f, 16)) + ">"@)
    } else if has_prefix(t, "[[u8;"@) && has_suffix(t, "]"@) {
        Some(t)
    } else {
        None
    }
}

/// The `max_length` rule of the field, or `default`.
fn max_len_or_default(field: &FieldContract, default: usize) -> (r: usize)
    ensures
        r == max_len_or(*field, default as nat),
{
    unwrap_or(get_max_length_from_validation(field), default)
}

/// Writes `prefix`, the field's maximum length (or `default`), then
/// `suffix`.
fn sized_text(prefix: &str, field: &FieldContract, default: usize, suffix: &str) -> (r: String)
    ensures
        r@ == prefix@ + decimal(max_len_or(*field, default as nat)) + suffix@,
{
    let mut r = copy_str(prefix);
    push_usize(&mut r, max_len_or_default(field, default));
    push_str(&mut r, suffix);
    r
}

/// The Rust type of a contract type in generated code.
pub fn map_contract_type_to_rust(contract_type: &str, field: &FieldContract) -> (r: String)
    requires
        rust_type(contract_type@, *field) is Some,
    ensures
        r@ == rust_type(contract_type@, *field)->0,
{
    let t = contract_type;
    if text_equal(t, "u8") || text_equal(t, "u16") || text_equal(t, "u32") || text_equal(t, "u64")
        || text_equal(t, "i32") || text_equal(t, "f64") || text_equal(t, "[u8; 16]") || text_equal(
        t,
        "[u8; 20]",
    ) || text_equal(t, "[u8; 32]") || text_equal(t, "[u8; 6]") {
        copy_str(t)
    } else if text_equal(t, "U256") {
        copy_str("[u8; 32]")
    } else if text_equal(t, "String") {
        sized_text("FixedStr<", field, 32, ">")
    } else if text_equal(t, "Vec<[u8; 20]>") {
        sized_text("FixedVec<[u8; 20], ", field, 4, ">")
    } else if text_equal(t, "Vec<[u8; 32]>") {
        sized_text("FixedVec<[u8; 32], ", field, 4, ">")
    } else if text_equal(t, "Vec<u8>") {
        sized_text("FixedVec<u8, ", field, 16, ">")
    } else {
        copy_str(t)
    }
}

/// The value of a `usize` text, as `str::parse::<usize>` reads it.
pub open spec fn usize_value(s: Seq<char>) -> Option<nat> {
    match parse_uint(s, usize::MAX as nat) {
        UintParse::Value(v) => Some(v as nat),
        _ => None,
    }
}

/// The length `n` of a `[u8; n]` type text, surrounding whitespace and
/// spaces around `n` allowed.
pub open spec fn fixed_u8_len(s: Seq<char>) -> Option<nat> {
    let t = trimmed(s);
    if has_prefix(t, "[u8;"@) && has_suffix(t, "]"@) {
        usize_value(strip_char(t.subrange(4, t.len() - 1), ' '))
    } else {
        None
    }
}

/// Reads the length of a `[u8; n]` type text.
pub fn parse_fixed_u8_array(spec: &str) -> (r: Option<usize>)
    ensures
        match fixed_u8_len(spec@) {
            Some(v) => r == Some(v as usize),
            None => r is None,
        },
{
    let trimmed_spec = trim_whitespace(spec);
    if starts_with(trimmed_spec, "[u8;") && ends_with(trimmed_spec, "]") {
        let n = trimmed_spec.unicode_len();
        proof {
            reveal_strlit("[u8;");
            reveal_strlit("]");
            assert(trimmed_spec@.subrange(0, 4)[3] == ';');
            assert(trimmed_spec@.subrange(n - 1, n as int)[0] == ']');
        }
        let inner = trimmed_spec.substring_char(4, n - 1);
        let len_str = strip_chars(inner, ' ');
        match parse_unsigned(len_str.as_str(), usize::MAX as u64) {
            UintParse::Value(v) => Some(v as usize),
            _ => None,
        }
    } else {
        None
    }
}

/// `[u8;` then a character skipped, as the slicing of a `Vec<[u8;N]>` text
/// reads it, can be cut at its ninth character and before its closing
/// `]>`: the text is long enough and that character is a single byte.
pub open spec fn vec_slice_ok(s: Seq<char>) -> bool {
    has_prefix(s, "Vec<[u8;"@) && has_suffix(s, "]>"@) ==> s.len() >= 11 && (s[8] as u32) < 128
}

/// The element length `n` of a `Vec<[u8;n]>` type text: the text between
/// the ninth character and the closing `]>`.
pub open spec fn vec_fixed_u8_len(s: Seq<char>) -> Option<nat> {
    if has_prefix(s, "Vec<[u8;"@) && has_suffix(s, "]>"@) {
        usize_value(s.subrange(9, s.len() - 2))
    } else {
        None
    }
}

/// Reads the element length of a `Vec<[u8;n]>` type text.
pub fn parse_vec_fixed_u8_array(spec: &str) -> (r: Option<usize>)
    requires
        vec_slice_ok(spec@),
    ensures
        match vec_fixed_u8_len(spec@) {
            Some(v) => r == Some(v as usize),
            None => r is None,
        },
{
    if starts_with(spec, "Vec<[u8;") && ends_with(spec, "]>") {
        let n = spec.unicode_len();
        let inner = spec.substring_char(9, n - 2);
        match parse_unsigned(inner, usize::MAX as u64) {
            UintParse::Value(v) => Some(v as usize),
            _ => None,
        }
    } else {
        None
    }
}

/// A field of a generated Python dataclass: its type hint and its codec.
#[derive(Debug, Clone)]
pub struct PythonFieldSpec {
    pub type_hint: String,
    pub field_expr: String,
}

/// The Python type hint and codec of a contract type (spaces ignored), when
/// the type is known.
pub open spec fn python_field(t: Seq<char>, f: FieldContract) -> Option<(Seq<char>, Seq<char>)> {
    let n = without_char(t, ' ');
    if n == "u8"@ {
        Some(("int"@, "Primitive.U8"@))
    } else if n == "u16"@ {
        Some(("int"@, "Primitive.U16"@))
    } else if n == "u32"@ {
        Some(("int"@, "Primitive.U32"@))
    } else if n == "u64"@ {
        Some(("int"@, "Primitive.U64"@))
    } else if n == "i32"@ {
        Some(("int"@, "Primitive.I32"@))
    } else if n == "f64"@ {
        Some(("float"@, "Primitive.F64"@))
    } else if n == "U256"@ {
        Some(("bytes"@, "FixedBytes(32)"@))
    } else if n == "String"@ {
        Some(("str"@, "FixedStr("@ + decimal(max_len_or(f, 32)) + ")"@))
    } else if n == "Vec<u8>"@ {
        Some(
            (
                "List[int]"@,
                "FixedVecBytes(element_size=1, capacity="@ + decimal(max_len_or(f, 16)) + ")"@,
            ),
        )
    } else if fixed_u8_len(n) is Some {
        Some(("bytes"@, "FixedBytes("@ + decimal(((fixed_u8_len(n)->0) as usize) as nat) + ")"@))
    } else if vec_slice_ok(n) && vec_fixed_u8_len(n) is Some {
        Some(
            (
                "List[bytes]"@,
                "FixedVecBytes(element_size="@ + decimal(((vec_fixed_u8_len(n)->0) as usize) as nat)
                    + ", capacity="@ + decimal(max_len_or(f, 4)) + ")"@,
            ),
        )
    } else {
        None
    }
}

fn python_spec(type_hint: &str, field_expr: String) -> (r: PythonFieldSpec)
    ensures
        r.type_hint@ == type_hint@,
        r.field_expr@ == field_expr@,
{
    PythonFieldSpec { type_hint: copy_str(type_hint), field_expr }
}

/// The Python type hint and codec of a contract type.
pub fn map_contract_type_to_python(contract_type: &str, field: &FieldContract) -> (r: PythonFieldSpec)
    requires
        python_field(contract_type@, *field) is Some,
    ensures
        (r.type_hint@, r.field_expr@) == python_field(contract_type@, *field)->0,
{
    let normalized = remove_char(contract_type, ' ');
    let n = normalized.as_str();
    if text_equal(n, "u8") {
        python_spec("int", copy_str("Primitive.U8"))
    } else if text_equal(n, "u16") {
        python_spec("int", copy_str("Primitive.U16"))
    } else if text_equal(n, "u32") {
        python_spec("int", copy_str("Primitive.U32"))
    } else if text_equal(n, "u64") {
        python_spec("int", copy_str("Primitive.U64"))
    } else if text_equal(n, "i32") {
        python_spec("int", copy_str("Primitive.I32"))
    } else if text_equal(n, "f64") {
        python_spec("float", copy_str("Primitive.F64"))
    } else if text_equal(n, "U256") {
        python_spec("bytes", copy_str("FixedBytes(32)"))
    } else if text_equal(n, "String") {
        python_spec("str", sized_text("FixedStr(", field, 32, ")"))
    } else if text_equal(n, "Vec<u8>") {
        python_spec(
            "List[int]",
            sized_text("FixedVecBytes(element_size=1, capacity=", field, 16, ")"),
        )
    } else {
        match parse_fixed_u8_array(n) {
            Some(len) => {
                let mut e = copy_str("FixedBytes(");
                push_usize(&mut e, len);
                push_str(&mut e, ")");
                return python_spec("bytes", e);
            },
            None => {},
        }
        match parse_vec_fixed_u8_array(n) {
            Some(element_len) => {
                let mut e = copy_str("FixedVecBytes(element_size=");
                push_usize(&mut e, element_len);
                push_str(&mut e, ", capacity=");
                push_usize(&mut e, max_len_or_default(field, 4));
                push_str(&mut e, ")");
                python_spec("List[bytes]", e)
            },
            None => {
                python_spec("", String::new())
            },
        }
    }
}


/// Generated check that a text field is not empty.
pub open spec fn not_empty_check(f: Seq<char>) -> Seq<char> {
    "        // Validate "@ + f + " is not empty\n"@ + "        let "@ + f + "_str = self."@ + f
        + ".as_str()\n"@ + "            .map_err(|_| ValidationError::InvalidField(\""@ + f
        + "\".to_string()))?;\n"@ + "        if "@ + f + "_str.is_empty() {\n"@
        + "            return Err(ValidationError::InvalidField(\""@ + f
        + " cannot be empty\".to_string()));\n"@ + "        }\n\n"@
}

/// Generated check of a length bound: `op` is the comparison that fails,
/// `what` the comment's words and `words` those of the message.
pub open spec fn length_check(
    f: Seq<char>,
    v: u64,
    what: Seq<char>,
    op: Seq<char>,
    words: Seq<char>,
) -> Seq<char> {
    "        // Validate "@ + f + what + "        if self."@ + f + ".len() "@ + op + decimal(v as nat)
        + " {\n"@ + "            return Err(ValidationError::InvalidField(\n"@
        + "                format!(\""@ + f + " length {} "@ + words + decimal(v as nat)
        + "\", self."@ + f + ".len())\n"@ + "            ));\n"@ + "        }\n\n"@
}

/// Generated checks of one validation rule of a field.
pub open spec fn rule_checks(f: Seq<char>, r: ValidationRule) -> Seq<char> {
    (if r.not_empty {
        not_empty_check(f)
    } else {
        Seq::empty()
    }) + (match r.min_length {
        Some(v) => length_check(f, v, " has minimum length\n"@, "< "@, "below minimum "@),
        None => Seq::empty(),
    }) + (match r.max_length {
        Some(v) => length_check(
            f,
            v,
            " does not exceed maximum length\n"@,
            "> "@,
            "exceeds maximum "@,
        ),
        None => Seq::empty(),
    })
}

/// Generated checks of the rules of a field, in order.
pub open spec fn rules_checks(f: Seq<char>, rules: Seq<ValidationRule>) -> Seq<char>
    decreases rules.len(),
{
    if rules.len() == 0 {
        Seq::empty()
    } else {
        rules_checks(f, rules.drop_last()) + rule_checks(f, rules.last())
    }
}

/// Generated checks of all fields, in order.
pub open spec fn fields_checks(fs: Seq<(String, FieldContract)>) -> Seq<char>
    decreases fs.len(),
{
    if fs.len() == 0 {
        Seq::empty()
    } else {
        fields_checks(fs.drop_last()) + rules_checks(fs.last().0@, fs.last().1.validation@)
    }
}

/// Some field has a validation rule.
pub open spec fn has_rules(fs: Seq<(String, FieldContract)>) -> bool {
    exists|i: int| 0 <= i < fs.len() && (#[trigger] fs[i]).1.validation@.len() > 0
}

/// The generated `validate` method of a message.
pub open spec fn validate_method(c: MessageContract) -> Seq<char> {
    "\n    /// Validate message after deserialization\n"@ + "    ///\n"@
        + "    /// This MUST be called after zerocopy deserialization to ensure\n"@
        + "    /// the message satisfies all invariants, since deserialization\n"@
        + "    /// bypasses the constructor validation.\n"@
        + "    pub fn validate(&self) -> Result<(), ValidationError> {\n"@ + fields_checks(
        c.fields@,
    ) + (if has_rules(c.fields@) {
        Seq::empty()
    } else {
        "        // No validation rules defined in contract\n"@
    }) + "        Ok(())\n"@ + "    }\n"@
}

fn not_empty_text(f: &str) -> (r: String)
    ensures
        r@ == not_empty_check(f@),
{
    let mut c = copy_str("        // Validate ");
    push_str(&mut c, f);
    push_str(&mut c, " is not empty\n");
    push_str(&mut c, "        let ");
    push_str(&mut c, f);
    push_str(&mut c, "_str = self.");
    push_str(&mut c, f);
    push_str(&mut c, ".as_str()\n");
    push_str(&mut c, "            .map_err(|_| ValidationError::InvalidField(\"");
    push_str(&mut c, f);
    push_str(&mut c, "\".to_string()))?;\n");
    push_str(&mut c, "        if ");
    push_str(&mut c, f);
    push_str(&mut c, "_str.is_empty() {\n");
    push_str(&mut c, "            return Err(ValidationError::InvalidField(\"");
    push_str(&mut c, f);
    push_str(&mut c, " cannot be empty\".to_string()));\n");
    push_str(&mut c, "        }\n\n");
    c
}

fn length_text(f: &str, v: u64, what: &str, op: &str, words: &str) -> (r: String)
    ensures
        r@ == length_check(f@, v, what@, op@, words@),
{
    let mut c = copy_str("        // Validate ");
    push_str(&mut c, f);
    push_str(&mut c, what);
    push_str(&mut c, "        if self.");
    push_str(&mut c, f);
    push_str(&mut c, ".len() ");
    push_str(&mut c, op);
    push_decimal(&mut c, v);
    push_str(&mut c, " {\n");
    push_str(&mut c, "            return Err(ValidationError::InvalidField(\n");
    push_str(&mut c, "                format!(\"");
    push_str(&mut c, f);
    push_str(&mut c, " length {} ");
    push_str(&mut c, words);
    push_decimal(&mut c, v);
    push_str(&mut c, "\", self.");
    push_str(&mut c, f);
    push_str(&mut c, ".len())\n");
    push_str(&mut c, "            ));\n");
    push_str(&mut c, "        }\n\n");
    c
}

fn push_rule_checks(code: &mut String, f: &str, r: &ValidationRule)
    ensures
        final(code)@ == old(code)@ + rule_checks(f@, *r),
{
    let ghost start = code@;
    if r.not_empty {
        let t = not_empty_text(f);
        push_str(code, t.as_str());
    }
    let ghost mid1 = code@;
    match r.min_length {
        Some(v) => {
            let t = length_text(f, v, " has minimum length\n", "< ", "below minimum ");
            push_str(code, t.as_str());
        },
        None => {},
    }
    let ghost mid2 = code@;
    match r.max_length {
        Some(v) => {
            let t = length_text(
                f,
                v,
                " does not exceed maximum length\n",
                "> ",
                "exceeds maximum ",
            );
            push_str(code, t.as_str());
        },
        None => {},
    }
    proof {
        let a = if r.not_empty {
            not_empty_check(f@)
        } else {
            Seq::<char>::empty()
        };
        assert(mid1 =~= start + a);
        assert(code@ =~= start + rule_checks(f@, *r));
    }
}

/// The `validate` method generated for a message: one check per
/// validation rule of its fields, in order.
pub fn generate_validate_method(_name: &str, contract: &MessageContract) -> (r: String)
    ensures
        r@ == validate_method(*contract),
{
    let mut code = copy_str("\n    /// Validate message after deserialization\n");
    push_str(&mut code, "    ///\n");
    push_str(&mut code, "    /// This MUST be called after zerocopy deserialization to ensure\n");
    push_str(&mut code, "    /// the message satisfies all invariants, since deserialization\n");
    push_str(&mut code, "    /// bypasses the constructor validation.\n");
    push_str(&mut code, "    pub fn validate(&self) -> Result<(), ValidationError> {\n");
    let ghost head = code@;
    let fs = &contract.fields;
    let n = fs.len();
    let mut has_validation = false;
    let mut i: usize = 0;
    proof {
        assert(fs@.take(0) =~= Seq::<(String, FieldContract)>::empty());
        assert(head + Seq::<char>::empty() =~= head);
    }
    while i < n
        invariant
            fs@ == contract.fields@,
            n == fs@.len(),
            i <= n,
            code@ == head + fields_checks(fs@.take(i as int)),
            has_validation == has_rules(fs@.take(i as int)),
        decreases n - i,
    {
        let name = fs[i].0.as_str();
        let rules = &fs[i].1.validation;
        let m = rules.len();
        let ghost before = code@;
        proof {
            assert(fs@.take(i + 1).drop_last() =~= fs@.take(i as int));
            assert(fs@.take(i + 1).last() == fs@[i as int]);
        }
        if m > 0 {
            has_validation = true;
            proof {
                assert(fs@.take(i + 1)[i as int] == fs@[i as int]);
            }
        } else {
            proof {
                assert forall|k: int| 0 <= k < i + 1 implies (#[trigger] fs@.take(i + 1)[k]).1.validation@.len()
                    > 0 ==> fs@.take(i as int)[k].1.validation@.len() > 0 by {
                    if k < i {
                        assert(fs@.take(i + 1)[k] == fs@.take(i as int)[k]);
                    }
                }
            }
        }
        let mut j: usize = 0;
        proof {
            assert(rules@.take(0) =~= Seq::<ValidationRule>::empty());
            assert(before + Seq::<char>::empty() =~= before);
        }
        while j < m
            invariant
                m == rules@.len(),
                j <= m,
                code@ == before + rules_checks(name@, rules@.take(j as int)),
            decreases m - j,
        {
            proof {
                assert(rules@.take(j + 1).drop_last() =~= rules@.take(j as int));
            }
            push_rule_checks(&mut code, name, &rules[j]);
            j = j + 1;
            proof {
                assert(code@ =~= before + rules_checks(name@, rules@.take(j as int)));
            }
        }
        proof {
            assert(rules@.take(m as int) =~= rules@);
            assert(code@ =~= head + fields_checks(fs@.take(i + 1)));
        }
        i = i + 1;
    }
    proof {
        assert(fs@.take(n as int) =~= fs@);
    }
    if !has_validation {
        push_str(&mut code, "        // No validation rules defined in contract\n");
    }
    push_str(&mut code, "        Ok(())\n");
    push_str(&mut code, "    }\n");
    proof {
        assert(code@ =~= validate_method(*contract));
    }
    code
}


/// The generated `ValidationError` enum.
pub open spec fn validation_error_text() -> Seq<char> {
    "/// Validation errors for message construction and deserialization\n"@
        + "#[derive(Debug, Clone, PartialEq, thiserror::Error)]\n"@ + "pub enum ValidationError {\n"@
        + "    /// Generic field validation error with message\n"@
        + "    #[error(\"Field validation failed: {0}\")]\n"@ + "    InvalidField(String),\n"@
        + "}\n\n"@
}

/// The `ValidationError` enum of generated code; the same for every
/// contract.
pub fn generate_validation_error(_contracts: &Contracts) -> (r: String)
    ensures
        r@ == validation_error_text(),
{
    let mut code = copy_str("/// Validation errors for message construction and deserialization\n");
    push_str(&mut code, "#[derive(Debug, Clone, PartialEq, thiserror::Error)]\n");
    push_str(&mut code, "pub enum ValidationError {\n");
    push_str(&mut code, "    /// Generic field validation error with message\n");
    push_str(&mut code, "    #[error(\"Field validation failed: {0}\")]\n");
    push_str(&mut code, "    InvalidField(String),\n");
    push_str(&mut code, "}\n\n");
    code
}

/// Every field has a type that maps to a Rust type.
pub open spec fn fields_typed(fs: Seq<(String, FieldContract)>) -> bool {
    forall|i: int| 0 <= i < fs.len() ==> rust_type((#[trigger] fs[i]).1.field_type@, fs[i].1) is Some
}

/// Generated struct fields, in order.
pub open spec fn struct_fields(fs: Seq<(String, FieldContract)>) -> Seq<char>
    decreases fs.len(),
{
    if fs.len() == 0 {
        Seq::empty()
    } else {
        let f = fs.last();
        struct_fields(fs.drop_last()) + "    /// "@ + f.1.description@ + "\n"@ + "    pub "@ + f.0@
            + ": "@ + rust_type(f.1.field_type@, f.1)->0 + ",\n"@
    }
}

/// Generated `unsafe impl` of a zerocopy marker trait.
pub open spec fn marker_impl(tr: Seq<char>, name: Seq<char>) -> Seq<char> {
    "unsafe impl zerocopy::"@ + tr + " for "@ + name + " {\n"@
        + "    fn only_derive_is_allowed_to_implement_this_trait() {}\n"@ + "}\n\n"@
}

/// The generated struct of a message, with its zerocopy impls.
pub open spec fn struct_text(name: Seq<char>, c: MessageContract) -> Seq<char> {
    "/// "@ + c.description@ + " (TLV type "@ + decimal(c.tlv_type as nat) + ", "@ + c.domain@
        + " domain)\n"@ + "///\n"@ + "/// Contract: contracts.yaml → "@ + name + "\n"@ + (
    if c.sensitivity is Some {
        "///\n"@ + "/// CRITICAL: Contains financially sensitive data - never log payload!\n"@
    } else {
        Seq::empty()
    }) + "///\n"@
        + "/// **Note**: U256 values are stored as [u8; 32] for zerocopy compatibility.\n"@
        + "#[derive(Debug, Clone, Copy, PartialEq)]\n"@ + "#[repr(C)]\n"@ + "pub struct "@ + name
        + " {\n"@ + struct_fields(c.fields@) + "}\n\n"@ + marker_impl("AsBytes"@, name)
        + marker_impl("FromBytes"@, name) + marker_impl("FromZeroes"@, name)
}

fn marker_impl_text(tr: &str, name: &str) -> (r: String)
    ensures
        r@ == marker_impl(tr@, name@),
{
    let mut c = copy_str("unsafe impl zerocopy::");
    push_str(&mut c, tr);
    push_str(&mut c, " for ");
    push_str(&mut c, name);
    push_str(&mut c, " {\n");
    push_str(&mut c, "    fn only_derive_is_allowed_to_implement_this_trait() {}\n");
    push_str(&mut c, "}\n\n");
    c
}

/// The struct generated for a message: a documented field per contract
/// field, in order, and its zerocopy impls.
pub fn generate_message_struct(name: &str, contract: &MessageContract) -> (r: String)
    requires
        fields_typed(contract.fields@),
    ensures
        r@ == struct_text(name@, *contract),
{
    let mut code = copy_str("/// ");
    push_str(&mut code, contract.description.as_str());
    push_str(&mut code, " (TLV type ");
    push_decimal(&mut code, contract.tlv_type as u64);
    push_str(&mut code, ", ");
    push_str(&mut code, contract.domain.as_str());
    push_str(&mut code, " domain)\n");
    push_str(&mut code, "///\n");
    push_str(&mut code, "/// Contract: contracts.yaml → ");
    push_str(&mut code, name);
    push_str(&mut code, "\n");
    let ghost top = code@;
    if contract.sensitivity.is_some() {
        push_str(&mut code, "///\n");
        push_str(&mut code, "/// CRITICAL: Contains financially sensitive data - never log payload!\n");
    }
    proof {
        if contract.sensitivity is None {
            assert(code@ =~= top + Seq::<char>::empty());
        } else {
            assert(code@ =~= top + ("///\n"@
                + "/// CRITICAL: Contains financially sensitive data - never log payload!\n"@));
        }
    }
    push_str(&mut code, "///\n");
    push_str(&mut code, "/// **Note**: U256 values are stored as [u8; 32] for zerocopy compatibility.\n");
    push_str(&mut code, "#[derive(Debug, Clone, Copy, PartialEq)]\n");
    push_str(&mut code, "#[repr(C)]\n");
    push_str(&mut code, "pub struct ");
    push_str(&mut code, name);
    push_str(&mut code, " {\n");
    let ghost head = code@;
    let fs = &contract.fields;
    let n = fs.len();
    let mut i: usize = 0;
    proof {
        assert(fs@.take(0) =~= Seq::<(String, FieldContract)>::empty());
        assert(head + Seq::<char>::empty() =~= head);
    }
    while i < n
        invariant
            fs@ == contract.fields@,
            fields_typed(fs@),
            n == fs@.len(),
            i <= n,
            code@ == head + struct_fields(fs@.take(i as int)),
        decreases n - i,
    {
        proof {
            assert(fs@.take(i + 1).drop_last() =~= fs@.take(i as int));
            assert(fs@.take(i + 1).last() == fs@[i as int]);
            assert(rust_type(fs@[i as int].1.field_type@, fs@[i as int].1) is Some);
        }
        let ghost before = code@;
        push_str(&mut code, "    /// ");
        push_str(&mut code, fs[i].1.description.as_str());
        push_str(&mut code, "\n");
        push_str(&mut code, "    pub ");
        push_str(&mut code, fs[i].0.as_str());
        push_str(&mut code, ": ");
        let rust_type_text = map_contract_type_to_rust(fs[i].1.field_type.as_str(), &fs[i].1);
        push_str(&mut code, rust_type_text.as_str());
        push_str(&mut code, ",\n");
        i = i + 1;
        proof {
            assert(code@ =~= head + struct_fields(fs@.take(i as int)));
        }
    }
    proof {
        assert(fs@.take(n as int) =~= fs@);
    }
    push_str(&mut code, "}\n\n");
    let a = marker_impl_text("AsBytes", name);
    push_str(&mut code, a.as_str());
    let b = marker_impl_text("FromBytes", name);
    push_str(&mut code, b.as_str());
    let z = marker_impl_text("FromZeroes", name);
    push_str(&mut code, z.as_str());
    proof {
        assert(code@ =~= struct_text(name@, *contract));
    }
    code
}

/// The generated inherent impl of a message.
pub open spec fn impl_text(name: Seq<char>, c: MessageContract) -> Seq<char> {
    "impl "@ + name + " {\n"@ + validate_method(c) + "}\n\n"@
}

/// The inherent impl generated for a message: its `validate` method.
pub fn generate_message_impl(name: &str, contract: &MessageContract) -> (r: String)
    ensures
        r@ == impl_text(name@, *contract),
{
    let mut code = copy_str("impl ");
    push_str(&mut code, name);
    push_str(&mut code, " {\n");
    let v = generate_validate_method(name, contract);
    push_str(&mut code, v.as_str());
    push_str(&mut code, "}\n\n");
    code
}

/// The generated `Message` impl of a message.
pub open spec fn trait_text(name: Seq<char>, c: MessageContract) -> Seq<char> {
    "impl Message for "@ + name + " {\n"@ + "    const TYPE_ID: u16 = "@ + decimal(
        c.tlv_type as nat,
    ) + ";\n"@ + "    const TOPIC: &'static str = \""@ + domain_topic(c.domain@) + "\";\n"@
        + "}\n\n"@
}

/// The `Message` impl generated for a message: its type id and the topic of
/// its domain.
pub fn generate_message_trait(name: &str, contract: &MessageContract) -> (r: String)
    ensures
        r@ == trait_text(name@, *contract),
{
    let topic = topic_from_domain(contract.domain.as_str());
    let mut code = copy_str("impl Message for ");
    push_str(&mut code, name);
    push_str(&mut code, " {\n");
    push_str(&mut code, "    const TYPE_ID: u16 = ");
    push_decimal(&mut code, contract.tlv_type as u64);
    push_str(&mut code, ";\n");
    push_str(&mut code, "    const TOPIC: &'static str = \"");
    push_str(&mut code, topic.as_str());
    push_str(&mut code, "\";\n");
    push_str(&mut code, "}\n\n");
    code
}

/// The generated tests of a message: its type id and its topic.
pub open spec fn tests_text(name: Seq<char>, c: MessageContract) -> Seq<char> {
    "    #[test]\n"@ + "    fn test_"@ + lowercase(name) + "_type_id() {\n"@ + "        assert_eq!("@
        + name + "::TYPE_ID, "@ + decimal(c.tlv_type as nat) + ");\n"@ + "    }\n\n"@
        + "    #[test]\n"@ + "    fn test_"@ + lowercase(name) + "_topic() {\n"@
        + "        assert_eq!("@ + name + "::TOPIC, \""@ + domain_topic(c.domain@) + "\");\n"@
        + "    }\n\n"@
}

/// The tests generated for a message.
pub fn generate_message_tests(name: &str, contract: &MessageContract) -> (r: String)
    ensures
        r@ == tests_text(name@, *contract),
{
    let lower = to_lowercase(name);
    let mut code = copy_str("    #[test]\n");
    push_str(&mut code, "    fn test_");
    push_str(&mut code, lower.as_str());
    push_str(&mut code, "_type_id() {\n");
    push_str(&mut code, "        assert_eq!(");
    push_str(&mut code, name);
    push_str(&mut code, "::TYPE_ID, ");
    push_decimal(&mut code, contract.tlv_type as u64);
    push_str(&mut code, ");\n");
    push_str(&mut code, "    }\n\n");
    let topic = topic_from_domain(contract.domain.as_str());
    push_str(&mut code, "    #[test]\n");
    push_str(&mut code, "    fn test_");
    let lower_again = to_lowercase(name);
    push_str(&mut code, lower_again.as_str());
    push_str(&mut code, "_topic() {\n");
    push_str(&mut code, "        assert_eq!(");
    push_str(&mut code, name);
    push_str(&mut code, "::TOPIC, \"");
    push_str(&mut code, topic.as_str());
    push_str(&mut code, "\");\n");
    push_str(&mut code, "    }\n\n");
    code
}


/// Buffer class of a message.
pub open spec fn class_of(m: (String, MessageContract)) -> nat {
    buffer_class(message_size(m.1))
}

/// Every message has fields with sizes, and a size whose buffer class fits
/// in a `usize`.
pub open spec fn sized_messages(ms: Seq<(String, MessageContract)>) -> bool {
    forall|i: int|
        0 <= i < ms.len() ==> fields_sized((#[trigger] ms[i]).1.fields@) && message_size(ms[i].1)
            <= usize::MAX / 2 + 1
}

/// Each element is smaller than the next.
pub open spec fn increasing(s: Seq<usize>) -> bool {
    forall|i: int, j: int| 0 <= i < j < s.len() ==> s[i] < s[j]
}

/// `s` lists the buffer classes of the messages, ascending, each once.
pub open spec fn is_class_list(s: Seq<usize>, ms: Seq<(String, MessageContract)>) -> bool {
    &&& increasing(s)
    &&& forall|x: usize|
        #[trigger] s.contains(x) <==> exists|i: int|
            0 <= i < ms.len() && #[trigger] class_of(ms[i]) == x as nat
}

/// The buffer classes of the messages, ascending, each once.
pub open spec fn class_list(ms: Seq<(String, MessageContract)>) -> Seq<usize> {
    choose|s: Seq<usize>| is_class_list(s, ms)
}

/// Two ascending lists with the same elements are equal.
pub proof fn lemma_increasing_unique(a: Seq<usize>, b: Seq<usize>)
    requires
        increasing(a),
        increasing(b),
        forall|x: usize| #[trigger] a.contains(x) <==> b.contains(x),
    ensures
        a == b,
    decreases a.len(),
{
    if a.len() == 0 {
        if b.len() > 0 {
            assert(b.contains(b[0]));
            assert(a.contains(b[0]));
        }
        assert(a =~= b);
    } else {
        assert(a.contains(a[0]));
        assert(b.contains(a[0]));
        assert(b.len() > 0);
        assert(b.contains(b[0]));
        assert(a.contains(b[0]));
        let i = choose|i: int| 0 <= i < a.len() && a[i] == b[0];
        let j = choose|j: int| 0 <= j < b.len() && b[j] == a[0];
        assert(a[0] == b[0]) by {
            if i > 0 {
                assert(a[0] < a[i]);
            }
            if j > 0 {
                assert(b[0] < b[j]);
            }
        }
        let ta = a.drop_first();
        let tb = b.drop_first();
        assert forall|x: usize| #[trigger] ta.contains(x) <==> tb.contains(x) by {
            if ta.contains(x) {
                let k = choose|k: int| 0 <= k < ta.len() && ta[k] == x;
                assert(a[k + 1] == x);
                assert(a.contains(x));
                assert(x != a[0]);
                let m = choose|m: int| 0 <= m < b.len() && b[m] == x;
                assert(m != 0);
                assert(tb[m - 1] == x);
            }
            if tb.contains(x) {
                let k = choose|k: int| 0 <= k < tb.len() && tb[k] == x;
                assert(b[k + 1] == x);
                assert(b.contains(x));
                assert(a.contains(x));
                assert(x != b[0]);
                let m = choose|m: int| 0 <= m < a.len() && a[m] == x;
                assert(m != 0);
                assert(ta[m - 1] == x);
            }
        }
        lemma_increasing_unique(ta, tb);
        assert(a =~= seq![a[0]] + ta);
        assert(b =~= seq![b[0]] + tb);
    }
}

/// Adds `c` to an ascending list, where it is missing.
fn insert_class(cs: &mut Vec<usize>, c: usize)
    requires
        increasing(old(cs)@),
    ensures
        increasing(final(cs)@),
        forall|x: usize| #[trigger] final(cs)@.contains(x) <==> (old(cs)@.contains(x) || x == c),
{
    let n = cs.len();
    let mut p: usize = 0;
    while p < n && cs[p] < c
        invariant
            n == cs@.len(),
            p <= n,
            forall|k: int| 0 <= k < p ==> cs@[k] < c,
        decreases n - p,
    {
        p = p + 1;
    }
    if p < n && cs[p] == c {
        return;
    }
    let ghost before = cs@;
    cs.insert(p, c);
    proof {
        assert(cs@ == before.insert(p as int, c));
        assert forall|i: int, j: int| 0 <= i < j < cs@.len() implies cs@[i] < cs@[j] by {
            if j < p {
                assert(cs@[i] == before[i] && cs@[j] == before[j]);
            } else if j == p {
                assert(cs@[i] == before[i]);
            } else if i < p {
                assert(cs@[i] == before[i] && cs@[j] == before[j - 1]);
                assert(before[p as int] > c);
                if j - 1 > p {
                    assert(before[p as int] < before[j - 1]);
                }
            } else if i == p {
                assert(cs@[j] == before[j - 1]);
                assert(before[p as int] > c);
                if j - 1 > p {
                    assert(before[p as int] < before[j - 1]);
                }
            } else {
                assert(cs@[i] == before[i - 1] && cs@[j] == before[j - 1]);
            }
        }
        assert forall|x: usize| #[trigger] cs@.contains(x) <==> (before.contains(x) || x == c) by {
            if cs@.contains(x) {
                let k = choose|k: int| 0 <= k < cs@.len() && cs@[k] == x;
                if k < p {
                    assert(before[k] == x);
                } else if k > p {
                    assert(before[k - 1] == x);
                }
            }
            if before.contains(x) {
                let k = choose|k: int| 0 <= k < before.len() && before[k] == x;
                if k < p {
                    assert(cs@[k] == x);
                } else {
                    assert(cs@[k + 1] == x);
                }
            }
            if x == c {
                assert(cs@[p as int] == c);
            }
        }
    }
}


/// The sizes and buffer classes of the messages, in order.
fn message_sizes(ms: &Vec<(String, MessageContract)>) -> (r: (Vec<usize>, Vec<usize>))
    requires
        sized_messages(ms@),
    ensures
        r.0@.len() == ms@.len(),
        r.1@.len() == ms@.len(),
        forall|i: int| 0 <= i < ms@.len() ==> r.0@[i] == message_size(#[trigger] ms@[i].1),
        forall|i: int| 0 <= i < ms@.len() ==> r.1@[i] == class_of(#[trigger] ms@[i]),
{
    let n = ms.len();
    let mut sizes: Vec<usize> = Vec::new();
    let mut classes: Vec<usize> = Vec::new();
    let mut i: usize = 0;
    while i < n
        invariant
            n == ms@.len(),
            i <= n,
            sized_messages(ms@),
            sizes@.len() == i,
            classes@.len() == i,
            forall|k: int| 0 <= k < i ==> sizes@[k] == message_size(#[trigger] ms@[k].1),
            forall|k: int| 0 <= k < i ==> classes@[k] == class_of(#[trigger] ms@[k]),
        decreases n - i,
    {
        proof {
            assert(fields_sized(ms@[i as int].1.fields@));
        }
        let size = calculate_message_size(&ms[i].1);
        let class = next_power_of_two(size);
        sizes.push(size);
        classes.push(class);
        i = i + 1;
    }
    (sizes, classes)
}

/// The ascending list of the buffer classes, each once.
fn collect_classes(ms: &Vec<(String, MessageContract)>, classes: &Vec<usize>) -> (r: Vec<usize>)
    requires
        classes@.len() == ms@.len(),
        forall|i: int| 0 <= i < ms@.len() ==> classes@[i] == class_of(#[trigger] ms@[i]),
    ensures
        is_class_list(r@, ms@),
{
    let n = classes.len();
    let mut cs: Vec<usize> = Vec::new();
    let mut i: usize = 0;
    while i < n
        invariant
            n == classes@.len(),
            n == ms@.len(),
            i <= n,
            forall|k: int| 0 <= k < ms@.len() ==> classes@[k] == class_of(#[trigger] ms@[k]),
            increasing(cs@),
            forall|x: usize|
                #[trigger] cs@.contains(x) <==> exists|k: int|
                    0 <= k < i && #[trigger] class_of(ms@[k]) == x as nat,
        decreases n - i,
    {
        let ghost before = cs@;
        insert_class(&mut cs, classes[i]);
        proof {
            assert(classes@[i as int] == class_of(ms@[i as int]));
            assert forall|x: usize| #[trigger] cs@.contains(x) <==> exists|k: int|
                0 <= k < i + 1 && #[trigger] class_of(ms@[k]) == x as nat by {
                if cs@.contains(x) {
                    if before.contains(x) {
                        let k = choose|k: int| 0 <= k < i && #[trigger] class_of(ms@[k]) == x as nat;
                        assert(0 <= k < i + 1 && class_of(ms@[k]) == x as nat);
                    } else {
                        assert(x == classes@[i as int]);
                        assert(class_of(ms@[i as int]) == x as nat);
                    }
                }
                if exists|k: int| 0 <= k < i + 1 && #[trigger] class_of(ms@[k]) == x as nat {
                    let k = choose|k: int| 0 <= k < i + 1 && #[trigger] class_of(ms@[k]) == x as nat;
                    if k < i {
                        assert(before.contains(x));
                    } else {
                        assert(x == classes@[i as int]);
                    }
                }
            }
        }
        i = i + 1;
    }
    cs
}

/// No two messages have the same name.
pub open spec fn distinct_names(ms: Seq<(String, MessageContract)>) -> bool {
    forall|i: int, j: int| 0 <= i < j < ms.len() ==> (#[trigger] ms[i]).0@ != (#[trigger] ms[j]).0@
}

/// `p` lists the positions of the messages once each, by ascending name.
pub open spec fn is_name_order(p: Seq<usize>, ms: Seq<(String, MessageContract)>) -> bool {
    &&& p.len() == ms.len()
    &&& forall|x: usize| #[trigger] p.contains(x) <==> x < ms.len()
    &&& forall|i: int, j: int|
        0 <= i < j < p.len() ==> text_lt(ms[#[trigger] p[i] as int].0@, ms[#[trigger] p[j] as int].0@)
}

/// The positions of the messages by ascending name.
pub open spec fn name_order(ms: Seq<(String, MessageContract)>) -> Seq<usize> {
    choose|p: Seq<usize>| is_name_order(p, ms)
}


/// The positions of the messages by ascending name.
fn sort_by_name(ms: &Vec<(String, MessageContract)>) -> (p: Vec<usize>)
    requires
        distinct_names(ms@),
    ensures
        is_name_order(p@, ms@),
{
    let n = ms.len();
    let mut p: Vec<usize> = Vec::new();
    let mut i: usize = 0;
    while i < n
        invariant
            n == ms@.len(),
            i <= n,
            distinct_names(ms@),
            p@.len() == i,
            forall|x: usize| #[trigger] p@.contains(x) <==> x < i,
            forall|a: int, b: int|
                0 <= a < b < p@.len() ==> text_lt(
                    ms@[#[trigger] p@[a] as int].0@,
                    ms@[#[trigger] p@[b] as int].0@,
                ),
        decreases n - i,
    {
        let ghost name_i = ms@[i as int].0@;
        proof {
            assert forall|a: int| 0 <= a < p@.len() implies #[trigger] p@[a] < i by {
                assert(p@.contains(p@[a]));
            }
        }
        let mut k: usize = 0;
        while k < i && text_less(ms[p[k]].0.as_str(), ms[i].0.as_str())
            invariant
                n == ms@.len(),
                i < n,
                p@.len() == i,
                k <= i,
                name_i == ms@[i as int].0@,
                forall|x: usize| #[trigger] p@.contains(x) <==> x < i,
                forall|a: int| 0 <= a < p@.len() ==> #[trigger] p@[a] < i,
                forall|a: int| 0 <= a < k ==> text_lt(ms@[#[trigger] p@[a] as int].0@, name_i),
            decreases i - k,
        {
            proof {
                assert(p@.contains(p@[k as int]));
            }
            k = k + 1;
        }
        let ghost before = p@;
        proof {
            if k < i {
                assert(before.contains(before[k as int]));
                let j = before[k as int];
                assert(j < i);
                assert(ms@[j as int].0@ != name_i);
                assert(!text_lt(ms@[j as int].0@, name_i));
                lemma_text_lt_total(ms@[j as int].0@, name_i);
            }
        }
        p.insert(k, i);
        proof {
            assert(p@ == before.insert(k as int, i));
            assert forall|a: int, b: int| 0 <= a < b < p@.len() implies text_lt(
                ms@[#[trigger] p@[a] as int].0@,
                ms@[#[trigger] p@[b] as int].0@,
            ) by {
                if b < k {
                    assert(p@[a] == before[a] && p@[b] == before[b]);
                } else if b == k {
                    assert(p@[a] == before[a]);
                } else if a < k {
                    assert(p@[a] == before[a] && p@[b] == before[b - 1]);
                    let nk = ms@[before[k as int] as int].0@;
                    if b - 1 > k {
                        lemma_text_lt_transitive(name_i, nk, ms@[before[b - 1] as int].0@);
                    }
                    lemma_text_lt_transitive(
                        ms@[before[a] as int].0@,
                        name_i,
                        ms@[before[b - 1] as int].0@,
                    );
                } else if a == k {
                    assert(p@[b] == before[b - 1]);
                    let nk = ms@[before[k as int] as int].0@;
                    if b - 1 > k {
                        lemma_text_lt_transitive(name_i, nk, ms@[before[b - 1] as int].0@);
                    }
                } else {
                    assert(p@[a] == before[a - 1] && p@[b] == before[b - 1]);
                }
            }
            assert forall|x: usize| #[trigger] p@.contains(x) <==> x < i + 1 by {
                if p@.contains(x) {
                    let m = choose|m: int| 0 <= m < p@.len() && p@[m] == x;
                    if m < k {
                        assert(before[m] == x);
                        assert(before.contains(x));
                    } else if m > k {
                        assert(before[m - 1] == x);
                        assert(before.contains(x));
                    }
                }
                if x < i + 1 {
                    if x < i {
                        assert(before.contains(x));
                        let m = choose|m: int| 0 <= m < before.len() && before[m] == x;
                        if m < k {
                            assert(p@[m] == x);
                        } else {
                            assert(p@[m + 1] == x);
                        }
                    } else {
                        assert(p@[k as int] == x);
                    }
                }
            }
        }
        i = i + 1;
    }
    p
}


/// Each position's name comes before the next one's.
pub open spec fn by_ascending_name(p: Seq<usize>, ms: Seq<(String, MessageContract)>) -> bool {
    forall|i: int, j: int|
        0 <= i < j < p.len() ==> text_lt(ms[#[trigger] p[i] as int].0@, ms[#[trigger] p[j] as int].0@)
}

proof fn lemma_by_name_unique(p: Seq<usize>, q: Seq<usize>, ms: Seq<(String, MessageContract)>)
    requires
        by_ascending_name(p, ms),
        by_ascending_name(q, ms),
        forall|x: usize| #[trigger] p.contains(x) <==> q.contains(x),
    ensures
        p == q,
    decreases p.len(),
{
    if p.len() == 0 {
        if q.len() > 0 {
            assert(q.contains(q[0]));
            assert(p.contains(q[0]));
        }
        assert(p =~= q);
    } else {
        assert(p.contains(p[0]));
        assert(q.contains(p[0]));
        assert(q.contains(q[0]));
        assert(p.contains(q[0]));
        let i = choose|i: int| 0 <= i < p.len() && p[i] == q[0];
        let j = choose|j: int| 0 <= j < q.len() && q[j] == p[0];
        assert(p[0] == q[0]) by {
            if i > 0 && j > 0 {
                let a = ms[p[0] as int].0@;
                let b = ms[q[0] as int].0@;
                assert(text_lt(ms[p[0] as int].0@, ms[p[i] as int].0@));
                assert(text_lt(ms[q[0] as int].0@, ms[q[j] as int].0@));
                lemma_text_lt_transitive(a, b, a);
                lemma_text_lt_irreflexive(a);
            }
        }
        let tp = p.drop_first();
        let tq = q.drop_first();
        assert forall|x: usize| #[trigger] tp.contains(x) <==> tq.contains(x) by {
            if tp.contains(x) {
                let k = choose|k: int| 0 <= k < tp.len() && tp[k] == x;
                assert(p[k + 1] == x);
                assert(p.contains(x));
                assert(q.contains(x));
                assert(x != p[0]) by {
                    if x == p[0] {
                        assert(text_lt(ms[p[0] as int].0@, ms[p[k + 1] as int].0@));
                        lemma_text_lt_irreflexive(ms[x as int].0@);
                    }
                }
                let m = choose|m: int| 0 <= m < q.len() && q[m] == x;
                assert(m != 0);
                assert(tq[m - 1] == x);
            }
            if tq.contains(x) {
                let k = choose|k: int| 0 <= k < tq.len() && tq[k] == x;
                assert(q[k + 1] == x);
                assert(q.contains(x));
                assert(p.contains(x));
                assert(x != q[0]) by {
                    if x == q[0] {
                        assert(text_lt(ms[q[0] as int].0@, ms[q[k + 1] as int].0@));
                        lemma_text_lt_irreflexive(ms[x as int].0@);
                    }
                }
                let m = choose|m: int| 0 <= m < p.len() && p[m] == x;
                assert(m != 0);
                assert(tp[m - 1] == x);
            }
        }
        assert(by_ascending_name(tp, ms)) by {
            assert forall|a: int, b: int| 0 <= a < b < tp.len() implies text_lt(
                ms[#[trigger] tp[a] as int].0@,
                ms[#[trigger] tp[b] as int].0@,
            ) by {
                assert(tp[a] == p[a + 1] && tp[b] == p[b + 1]);
            }
        }
        assert(by_ascending_name(tq, ms)) by {
            assert forall|a: int, b: int| 0 <= a < b < tq.len() implies text_lt(
                ms[#[trigger] tq[a] as int].0@,
                ms[#[trigger] tq[b] as int].0@,
            ) by {
                assert(tq[a] == q[a + 1] && tq[b] == q[b + 1]);
            }
        }
        lemma_by_name_unique(tp, tq, ms);
        assert(p =~= seq![p[0]] + tp);
        assert(q =~= seq![q[0]] + tq);
    }
}

/// There is one order of the messages by ascending name: any two lists of
/// their positions by ascending name are equal.
pub proof fn lemma_name_order_unique(p: Seq<usize>, q: Seq<usize>, ms: Seq<(String, MessageContract)>)
    requires
        is_name_order(p, ms),
        is_name_order(q, ms),
    ensures
        p == q,
{
    assert(by_ascending_name(p, ms));
    assert(by_ascending_name(q, ms));
    assert forall|x: usize| #[trigger] p.contains(x) <==> q.contains(x) by {
        if p.contains(x) {
            assert(x < ms.len());
        }
        if q.contains(x) {
            assert(x < ms.len());
        }
    }
    lemma_by_name_unique(p, q, ms);
}


/// A message as the comment of its buffer class lists it.
pub open spec fn entry_item(m: (String, MessageContract)) -> Seq<char> {
    m.0@ + " ("@ + decimal(message_size(m.1)) + "B)"@
}

/// The entries of the messages of buffer class `c`, in order.
pub open spec fn class_items(ms: Seq<(String, MessageContract)>, c: nat) -> Seq<Seq<char>>
    decreases ms.len(),
{
    if ms.len() == 0 {
        Seq::empty()
    } else {
        class_items(ms.drop_last(), c) + if class_of(ms.last()) == c {
            seq![entry_item(ms.last())]
        } else {
            Seq::<Seq<char>>::empty()
        }
    }
}

/// The items with `sep` between each two.
pub open spec fn join(items: Seq<Seq<char>>, sep: Seq<char>) -> Seq<char>
    decreases items.len(),
{
    if items.len() == 0 {
        Seq::empty()
    } else if items.len() == 1 {
        items[0]
    } else {
        join(items.drop_last(), sep) + sep + items.last()
    }
}

/// The generated lines of one buffer class: the messages in it, then its
/// capacity, 64 KiB worth of buffers.
pub open spec fn class_block(ms: Seq<(String, MessageContract)>, c: usize) -> Seq<char> {
    "    // "@ + join(class_items(ms, c as nat), ", "@) + "\n"@ + "    config.insert("@ + decimal(
        c as nat,
    ) + ", "@ + decimal((65536usize / c) as nat) + ");\n\n"@
}

/// The lines of the classes, in the order given.
pub open spec fn class_blocks(ms: Seq<(String, MessageContract)>, cs: Seq<usize>) -> Seq<char>
    decreases cs.len(),
{
    if cs.len() == 0 {
        Seq::empty()
    } else {
        class_blocks(ms, cs.drop_last()) + class_block(ms, cs.last())
    }
}

/// The generated size constants of a message.
pub open spec fn size_constants(m: (String, MessageContract)) -> Seq<char> {
    "pub const "@ + uppercase(m.0@) + "_MAX_SIZE: usize = "@ + decimal(message_size(m.1))
        + ";\n"@ + "pub const "@ + uppercase(m.0@) + "_BUFFER_CLASS: usize = "@ + decimal(
        class_of(m),
    ) + ";\n"@
}

/// The size constants of the messages at the positions given, in order.
pub open spec fn constants_at(ms: Seq<(String, MessageContract)>, p: Seq<usize>) -> Seq<char>
    decreases p.len(),
{
    if p.len() == 0 {
        Seq::empty()
    } else {
        constants_at(ms, p.drop_last()) + size_constants(ms[p.last() as int])
    }
}

/// Start of the generated buffer pool configuration.
pub open spec fn pool_header() -> Seq<char> {
    "\n"@ + "// ============================================================\n"@
        + "// Buffer Pool Configuration (Auto-generated)\n"@
        + "// ============================================================\n\n"@
        + "use std::collections::HashMap;\n\n"@
        + "/// Create buffer pool configuration derived from message sizes\n"@ + "///\n"@
        + "/// Returns HashMap<size_class, capacity> where:\n"@
        + "/// - size_class: Buffer size in bytes (power of 2, min 128)\n"@
        + "/// - capacity: Max number of buffers to pool for this size class\n"@ + "///\n"@
        + "/// Capacity heuristic: 64KB per size class (e.g., 128-byte buffers get 512 capacity)\n"@
        + "pub fn create_buffer_pool_config() -> HashMap<usize, usize> {\n"@
        + "    let mut config = HashMap::new();\n\n"@
}

/// The generated buffer pool configuration: a block per buffer class,
/// ascending, then the size constants of the messages by ascending name.
pub open spec fn pool_config_text(ms: Seq<(String, MessageContract)>) -> Seq<char> {
    pool_header() + class_blocks(ms, class_list(ms)) + "    config\n"@ + "}\n\n"@
        + "// Per-message size constants for debugging and validation\n"@ + constants_at(
        ms,
        name_order(ms),
    ) + "\n"@
}

/// A buffer class is at least 128.
proof fn lemma_class_at_least_128(n: nat)
    ensures
        buffer_class(n) >= 128,
{
    lemma_next_pow2_bounds(n);
}

/// The comment and insert of one buffer class.
fn class_block_text(
    ms: &Vec<(String, MessageContract)>,
    sizes: &Vec<usize>,
    classes: &Vec<usize>,
    c: usize,
) -> (r: String)
    requires
        c > 0,
        sizes@.len() == ms@.len(),
        classes@.len() == ms@.len(),
        forall|i: int| 0 <= i < ms@.len() ==> sizes@[i] == message_size(#[trigger] ms@[i].1),
        forall|i: int| 0 <= i < ms@.len() ==> classes@[i] == class_of(#[trigger] ms@[i]),
    ensures
        r@ == class_block(ms@, c),
{
    let n = ms.len();
    let mut list = String::new();
    let mut first = true;
    let mut i: usize = 0;
    proof {
        assert(ms@.take(0) =~= Seq::<(String, MessageContract)>::empty());
    }
    while i < n
        invariant
            n == ms@.len(),
            i <= n,
            sizes@.len() == n,
            classes@.len() == n,
            forall|k: int| 0 <= k < ms@.len() ==> sizes@[k] == message_size(#[trigger] ms@[k].1),
            forall|k: int| 0 <= k < ms@.len() ==> classes@[k] == class_of(#[trigger] ms@[k]),
            list@ == join(class_items(ms@.take(i as int), c as nat), ", "@),
            first == (class_items(ms@.take(i as int), c as nat).len() == 0),
        decreases n - i,
    {
        let ghost items = class_items(ms@.take(i as int), c as nat);
        proof {
            assert(ms@.take(i + 1).drop_last() =~= ms@.take(i as int));
            assert(ms@.take(i + 1).last() == ms@[i as int]);
            assert(sizes@[i as int] == message_size(ms@[i as int].1));
            assert(classes@[i as int] == class_of(ms@[i as int]));
        }
        if classes[i] == c {
            let ghost old_list = list@;
            if !first {
                push_str(&mut list, ", ");
            }
            push_str(&mut list, ms[i].0.as_str());
            push_str(&mut list, " (");
            push_usize(&mut list, sizes[i]);
            push_str(&mut list, "B)");
            first = false;
            proof {
                let items2 = class_items(ms@.take(i + 1), c as nat);
                assert(items2 =~= items.push(entry_item(ms@[i as int])));
                assert(items2.drop_last() =~= items);
                if items.len() == 0 {
                    assert(list@ =~= entry_item(ms@[i as int]));
                } else {
                    assert(list@ =~= old_list + ", "@ + entry_item(ms@[i as int]));
                }
            }
        } else {
            proof {
                assert(class_items(ms@.take(i + 1), c as nat) =~= items);
            }
        }
        i = i + 1;
    }
    proof {
        assert(ms@.take(n as int) =~= ms@);
    }
    let mut code = copy_str("    // ");
    push_str(&mut code, list.as_str());
    push_str(&mut code, "\n");
    push_str(&mut code, "    config.insert(");
    push_usize(&mut code, c);
    push_str(&mut code, ", ");
    push_usize(&mut code, 65536 / c);
    push_str(&mut code, ");\n\n");
    code
}

fn constants_text(name: &str, size: usize, class: usize) -> (r: String)
    ensures
        r@ == "pub const "@ + uppercase(name@) + "_MAX_SIZE: usize = "@ + decimal(size as nat)
            + ";\n"@ + "pub const "@ + uppercase(name@) + "_BUFFER_CLASS: usize = "@ + decimal(
            class as nat,
        ) + ";\n"@,
{
    let upper = to_uppercase(name);
    let mut code = copy_str("pub const ");
    push_str(&mut code, upper.as_str());
    push_str(&mut code, "_MAX_SIZE: usize = ");
    push_usize(&mut code, size);
    push_str(&mut code, ";\n");
    push_str(&mut code, "pub const ");
    push_str(&mut code, upper.as_str());
    push_str(&mut code, "_BUFFER_CLASS: usize = ");
    push_usize(&mut code, class);
    push_str(&mut code, ";\n");
    code
}

/// The buffer pool configuration generated for the messages: their buffer
/// classes, ascending, each with the messages in it and a capacity of 64 KiB
/// worth of buffers, then each message's size and class by ascending name.
pub fn generate_buffer_pool_config(contracts: &Contracts) -> (r: String)
    requires
        sized_messages(contracts.messages@),
        distinct_names(contracts.messages@),
    ensures
        r@ == pool_config_text(contracts.messages@),
{
    let ms = &contracts.messages;
    let n = ms.len();
    let (sizes, classes) = message_sizes(ms);
    let cs = collect_classes(ms, &classes);
    proof {
        let l = class_list(ms@);
        assert(is_class_list(l, ms@));
        assert forall|x: usize| #[trigger] cs@.contains(x) <==> l.contains(x) by {
            if cs@.contains(x) {
                assert(l.contains(x));
            }
            if l.contains(x) {
                assert(cs@.contains(x));
            }
        }
        lemma_increasing_unique(cs@, l);
    }
    let mut code = copy_str("\n");
    push_str(&mut code, "// ============================================================\n");
    push_str(&mut code, "// Buffer Pool Configuration (Auto-generated)\n");
    push_str(&mut code, "// ============================================================\n\n");
    push_str(&mut code, "use std::collections::HashMap;\n\n");
    push_str(&mut code, "/// Create buffer pool configuration derived from message sizes\n");
    push_str(&mut code, "///\n");
    push_str(&mut code, "/// Returns HashMap<size_class, capacity> where:\n");
    push_str(&mut code, "/// - size_class: Buffer size in bytes (power of 2, min 128)\n");
    push_str(&mut code, "/// - capacity: Max number of buffers to pool for this size class\n");
    push_str(&mut code, "///\n");
    push_str(
        &mut code,
        "/// Capacity heuristic: 64KB per size class (e.g., 128-byte buffers get 512 capacity)\n",
    );
    push_str(&mut code, "pub fn create_buffer_pool_config() -> HashMap<usize, usize> {\n");
    push_str(&mut code, "    let mut config = HashMap::new();\n\n");
    let ghost head = code@;
    let m = cs.len();
    let mut k: usize = 0;
    proof {
        assert(cs@.take(0) =~= Seq::<usize>::empty());
        assert(head + Seq::<char>::empty() =~= head);
    }
    while k < m
        invariant
            m == cs@.len(),
            k <= m,
            n == ms@.len(),
            is_class_list(cs@, ms@),
            sizes@.len() == n,
            classes@.len() == n,
            forall|i: int| 0 <= i < ms@.len() ==> sizes@[i] == message_size(#[trigger] ms@[i].1),
            forall|i: int| 0 <= i < ms@.len() ==> classes@[i] == class_of(#[trigger] ms@[i]),
            code@ == head + class_blocks(ms@, cs@.take(k as int)),
        decreases m - k,
    {
        let c = cs[k];
        proof {
            assert(cs@.contains(c));
            let i = choose|i: int| 0 <= i < ms@.len() && #[trigger] class_of(ms@[i]) == c as nat;
            lemma_class_at_least_128(message_size(ms@[i].1));
            assert(cs@.take(k + 1).drop_last() =~= cs@.take(k as int));
        }
        let block = class_block_text(ms, &sizes, &classes, c);
        push_str(&mut code, block.as_str());
        k = k + 1;
    }
    proof {
        assert(cs@.take(m as int) =~= cs@);
    }
    push_str(&mut code, "    config\n");
    push_str(&mut code, "}\n\n");
    push_str(&mut code, "// Per-message size constants for debugging and validation\n");
    let ghost mid = code@;
    let order = sort_by_name(ms);
    proof {
        assert(is_name_order(name_order(ms@), ms@));
        lemma_name_order_unique(order@, name_order(ms@), ms@);
        assert(order@.take(0) =~= Seq::<usize>::empty());
        assert(mid + Seq::<char>::empty() =~= mid);
    }
    let mut j: usize = 0;
    while j < n
        invariant
            n == ms@.len(),
            j <= n,
            is_name_order(order@, ms@),
            sizes@.len() == n,
            classes@.len() == n,
            forall|i: int| 0 <= i < ms@.len() ==> sizes@[i] == message_size(#[trigger] ms@[i].1),
            forall|i: int| 0 <= i < ms@.len() ==> classes@[i] == class_of(#[trigger] ms@[i]),
            code@ == mid + constants_at(ms@, order@.take(j as int)),
        decreases n - j,
    {
        let x = order[j];
        proof {
            assert(order@.contains(x));
            assert(order@.take(j + 1).drop_last() =~= order@.take(j as int));
            assert(sizes@[x as int] == message_size(ms@[x as int].1));
            assert(classes@[x as int] == class_of(ms@[x as int]));
        }
        let t = constants_text(ms[x].0.as_str(), sizes[x], classes[x]);
        push_str(&mut code, t.as_str());
        j = j + 1;
    }
    proof {
        assert(order@.take(n as int) =~= order@);
    }
    push_str(&mut code, "\n");
    code
}


/// Every message's fields have Rust types.
pub open spec fn typed_messages(ms: Seq<(String, MessageContract)>) -> bool {
    forall|i: int| 0 <= i < ms.len() ==> fields_typed((#[trigger] ms[i]).1.fields@)
}

/// The generated struct, impls of the messages, in order.
pub open spec fn message_defs(ms: Seq<(String, MessageContract)>) -> Seq<char>
    decreases ms.len(),
{
    if ms.len() == 0 {
        Seq::empty()
    } else {
        message_defs(ms.drop_last()) + message_def(ms.last())
    }
}

/// The generated struct and impls of a message.
pub open spec fn message_def(m: (String, MessageContract)) -> Seq<char> {
    struct_text(m.0@, m.1) + impl_text(m.0@, m.1) + trait_text(m.0@, m.1)
}

fn message_def_text(name: &str, contract: &MessageContract) -> (r: String)
    requires
        fields_typed(contract.fields@),
    ensures
        r@ == struct_text(name@, *contract) + impl_text(name@, *contract) + trait_text(
            name@,
            *contract,
        ),
{
    let mut code = generate_message_struct(name, contract);
    let im = generate_message_impl(name, contract);
    push_str(&mut code, im.as_str());
    let tr = generate_message_trait(name, contract);
    push_str(&mut code, tr.as_str());
    code
}

/// The generated tests of the messages, in order.
pub open spec fn message_tests(ms: Seq<(String, MessageContract)>) -> Seq<char>
    decreases ms.len(),
{
    if ms.len() == 0 {
        Seq::empty()
    } else {
        message_tests(ms.drop_last()) + tests_text(ms.last().0@, ms.last().1)
    }
}

/// The imports of generated code, from inside the protocol crate or from
/// another crate.
pub open spec fn imports_text(external: bool) -> Seq<char> {
    if external {
        "#[allow(unused_imports)]\n"@ + "use mycelium_protocol::fixed_vec::{FixedStr, FixedVec};\n"@
            + "use mycelium_protocol::Message;\n\n"@
    } else {
        "#[allow(unused_imports)]\n"@ + "use crate::fixed_vec::{FixedStr, FixedVec};\n"@
            + "use crate::Message;\n\n"@
    }
}

/// The generated Rust module of a contract file.
pub open spec fn messages_text(c: Contracts, external: bool) -> Seq<char> {
    "// AUTO-GENERATED from contracts.yaml - DO NOT EDIT MANUALLY\n"@ + "//\n"@
        + "// This file is generated at build time by build.rs\n"@
        + "// To modify, edit contracts.yaml and rebuild\n\n"@ + imports_text(external)
        + "pub use primitive_types::U256;\n\n"@ + validation_error_text() + message_defs(
        c.messages@,
    ) + pool_config_text(c.messages@) + "\n#[cfg(test)]\n"@ + "mod generated_tests {\n"@
        + "    use super::*;\n\n"@ + message_tests(c.messages@) + "}\n"@
}

/// The Rust module generated for a contract file: the validation error,
/// each message's struct and impls, the buffer pool configuration, and
/// each message's tests.
pub fn generate_messages(contracts: &Contracts, use_external_imports: bool) -> (r: String)
    requires
        typed_messages(contracts.messages@),
        sized_messages(contracts.messages@),
        distinct_names(contracts.messages@),
    ensures
        r@ == messages_text(*contracts, use_external_imports),
{
    let mut code = copy_str("// AUTO-GENERATED from contracts.yaml - DO NOT EDIT MANUALLY\n");
    push_str(&mut code, "//\n");
    push_str(&mut code, "// This file is generated at build time by build.rs\n");
    push_str(&mut code, "// To modify, edit contracts.yaml and rebuild\n\n");
    let ghost top = code@;
    if use_external_imports {
        push_str(&mut code, "#[allow(unused_imports)]\n");
        push_str(&mut code, "use mycelium_protocol::fixed_vec::{FixedStr, FixedVec};\n");
        push_str(&mut code, "use mycelium_protocol::Message;\n\n");
    } else {
        push_str(&mut code, "#[allow(unused_imports)]\n");
        push_str(&mut code, "use crate::fixed_vec::{FixedStr, FixedVec};\n");
        push_str(&mut code, "use crate::Message;\n\n");
    }
    proof {
        assert(code@ =~= top + imports_text(use_external_imports));
    }
    push_str(&mut code, "pub use primitive_types::U256;\n\n");
    let v = generate_validation_error(contracts);
    push_str(&mut code, v.as_str());
    let ghost head = code@;
    let ms = &contracts.messages;
    let n = ms.len();
    let mut i: usize = 0;
    proof {
        assert(ms@.take(0) =~= Seq::<(String, MessageContract)>::empty());
        assert(head + Seq::<char>::empty() =~= head);
    }
    while i < n
        invariant
            ms@ == contracts.messages@,
            n == ms@.len(),
            i <= n,
            typed_messages(ms@),
            code@ == head + message_defs(ms@.take(i as int)),
        decreases n - i,
    {
        proof {
            assert(ms@.take(i + 1).drop_last() =~= ms@.take(i as int));
            assert(ms@.take(i + 1).last() == ms@[i as int]);
            assert(fields_typed(ms@[i as int].1.fields@));
        }
        let def = message_def_text(ms[i].0.as_str(), &ms[i].1);
        let ghost before = code@;
        push_str(&mut code, def.as_str());
        proof {
            assert(def@ == message_def(ms@[i as int]));
            vstd::seq_lib::lemma_concat_associative(
                head,
                message_defs(ms@.take(i as int)),
                def@,
            );
        }
        i = i + 1;
    }
    proof {
        assert(ms@.take(n as int) =~= ms@);
    }
    let pool = generate_buffer_pool_config(contracts);
    push_str(&mut code, pool.as_str());
    push_str(&mut code, "\n#[cfg(test)]\n");
    push_str(&mut code, "mod generated_tests {\n");
    push_str(&mut code, "    use super::*;\n\n");
    let ghost mid = code@;
    let mut j: usize = 0;
    proof {
        assert(ms@.take(0) =~= Seq::<(String, MessageContract)>::empty());
        assert(mid + Seq::<char>::empty() =~= mid);
    }
    while j < n
        invariant
            n == ms@.len(),
            j <= n,
            code@ == mid + message_tests(ms@.take(j as int)),
        decreases n - j,
    {
        proof {
            assert(ms@.take(j + 1).drop_last() =~= ms@.take(j as int));
            assert(ms@.take(j + 1).last() == ms@[j as int]);
        }
        let t = generate_message_tests(ms[j].0.as_str(), &ms[j].1);
        push_str(&mut code, t.as_str());
        proof {
            vstd::seq_lib::lemma_concat_associative(mid, message_tests(ms@.take(j as int)), t@);
        }
        j = j + 1;
    }
    proof {
        assert(ms@.take(n as int) =~= ms@);
    }
    push_str(&mut code, "}\n");
    code
}


/// Every field has a type known to the Python mapping.
pub open spec fn python_typed(fs: Seq<(String, FieldContract)>) -> bool {
    forall|i: int|
        0 <= i < fs.len() ==> python_field((#[trigger] fs[i]).1.field_type@, fs[i].1) is Some
}

/// Every message's fields have Python types.
pub open spec fn python_messages(ms: Seq<(String, MessageContract)>) -> bool {
    forall|i: int| 0 <= i < ms.len() ==> python_typed((#[trigger] ms[i]).1.fields@)
}

/// The Python hint of a field.
pub open spec fn field_hint(f: (String, FieldContract)) -> Seq<char> {
    let (hint, _codec) = python_field(f.1.field_type@, f.1)->0;
    hint
}

/// The Python codec of a field.
pub open spec fn field_codec(f: (String, FieldContract)) -> Seq<char> {
    let (_hint, codec) = python_field(f.1.field_type@, f.1)->0;
    codec
}

/// The annotated attributes of a dataclass, in order.
pub open spec fn python_attrs(fs: Seq<(String, FieldContract)>) -> Seq<char>
    decreases fs.len(),
{
    if fs.len() == 0 {
        Seq::empty()
    } else {
        python_attrs(fs.drop_last()) + "    "@ + fs.last().0@ + ": "@ + field_hint(fs.last()) + "\n"@
    }
}

/// The field definitions of a message definition, in order.
pub open spec fn python_field_defs(fs: Seq<(String, FieldContract)>) -> Seq<char>
    decreases fs.len(),
{
    if fs.len() == 0 {
        Seq::empty()
    } else {
        python_field_defs(fs.drop_last()) + "        FieldDef(\""@ + fs.last().0@ + "\", "@
            + field_codec(fs.last()) + "),\n"@
    }
}

/// The generated Python dataclass of a message and its registration.
pub open spec fn python_class_text(name: Seq<char>, c: MessageContract) -> Seq<char> {
    let topic = domain_topic(c.domain@);
    "@dataclass\n"@ + "class "@ + name + ":\n"@ + "    \"\"\""@ + c.description@ + " (domain: "@
        + c.domain@ + ")\"\"\"\n\n"@ + "    TYPE_ID: ClassVar[int] = "@ + decimal(c.tlv_type as nat)
        + "\n"@ + "    TOPIC: ClassVar[str] = \""@ + topic + "\"\n"@
        + "    __definition__: ClassVar[MessageDef]\n\n"@ + python_attrs(c.fields@) + (
    if c.fields@.len() > 0 {
        "\n"@
    } else {
        Seq::empty()
    }) + "    def to_bytes(self) -> bytes:\n"@ + "        return self.__definition__.encode(self)\n\n"@
        + "    @classmethod\n"@ + "    def from_bytes(cls, payload: bytes) -> \""@ + name + "\":\n"@
        + "        return cls.__definition__.decode(cls, payload)\n\n"@ + name
        + ".__definition__ = MessageDef(\n"@ + "    name=\""@ + name + "\",\n"@ + "    type_id="@
        + decimal(c.tlv_type as nat) + ",\n"@ + "    topic=\""@ + topic + "\",\n"@ + "    fields=[\n"@
        + python_field_defs(c.fields@) + "    ],\n"@ + "    dataclass="@ + name + ",\n"@ + ")\n"@
        + "register_message("@ + name + ".__definition__)\n\n"@
}

/// Appends the Python dataclass generated for a message: its type id and
/// topic, an attribute per field in order, and its registration.
pub fn generate_python_class(code: &mut String, name: &str, contract: &MessageContract)
    requires
        python_typed(contract.fields@),
    ensures
        final(code)@ == old(code)@ + python_class_text(name@, *contract),
{
    let ghost start = code@;
    let topic = topic_from_domain(contract.domain.as_str());
    let mut out = copy_str("@dataclass\n");
    push_str(&mut out, "class ");
    push_str(&mut out, name);
    push_str(&mut out, ":\n");
    push_str(&mut out, "    \"\"\"");
    push_str(&mut out, contract.description.as_str());
    push_str(&mut out, " (domain: ");
    push_str(&mut out, contract.domain.as_str());
    push_str(&mut out, ")\"\"\"\n\n");
    push_str(&mut out, "    TYPE_ID: ClassVar[int] = ");
    push_decimal(&mut out, contract.tlv_type as u64);
    push_str(&mut out, "\n");
    push_str(&mut out, "    TOPIC: ClassVar[str] = \"");
    push_str(&mut out, topic.as_str());
    push_str(&mut out, "\"\n");
    push_str(&mut out, "    __definition__: ClassVar[MessageDef]\n\n");
    let ghost head = out@;
    let fs = &contract.fields;
    let n = fs.len();
    let mut field_specs: Vec<PythonFieldSpec> = Vec::new();
    let mut i: usize = 0;
    proof {
        assert(fs@.take(0) =~= Seq::<(String, FieldContract)>::empty());
        assert(head + Seq::<char>::empty() =~= head);
    }
    while i < n
        invariant
            fs@ == contract.fields@,
            python_typed(fs@),
            n == fs@.len(),
            i <= n,
            field_specs@.len() == i,
            forall|k: int|
                0 <= k < i ==> (#[trigger] field_specs@[k]).type_hint@ == field_hint(fs@[k])
                    && field_specs@[k].field_expr@ == field_codec(fs@[k]),
            out@ == head + python_attrs(fs@.take(i as int)),
        decreases n - i,
    {
        proof {
            assert(fs@.take(i + 1).drop_last() =~= fs@.take(i as int));
            assert(fs@.take(i + 1).last() == fs@[i as int]);
            assert(python_field(fs@[i as int].1.field_type@, fs@[i as int].1) is Some);
        }
        let spec = map_contract_type_to_python(fs[i].1.field_type.as_str(), &fs[i].1);
        push_str(&mut out, "    ");
        push_str(&mut out, fs[i].0.as_str());
        push_str(&mut out, ": ");
        push_str(&mut out, spec.type_hint.as_str());
        push_str(&mut out, "\n");
        field_specs.push(spec);
        i = i + 1;
        proof {
            assert(out@ =~= head + python_attrs(fs@.take(i as int)));
        }
    }
    proof {
        assert(fs@.take(n as int) =~= fs@);
    }
    let ghost attrs_end = out@;
    if n > 0 {
        push_str(&mut out, "\n");
    }
    proof {
        if n > 0 {
            assert(out@ =~= attrs_end + "\n"@);
        } else {
            assert(out@ =~= attrs_end + Seq::<char>::empty());
        }
    }
    push_str(&mut out, "    def to_bytes(self) -> bytes:\n");
    push_str(&mut out, "        return self.__definition__.encode(self)\n\n");
    push_str(&mut out, "    @classmethod\n");
    push_str(&mut out, "    def from_bytes(cls, payload: bytes) -> \"");
    push_str(&mut out, name);
    push_str(&mut out, "\":\n");
    push_str(&mut out, "        return cls.__definition__.decode(cls, payload)\n\n");
    push_str(&mut out, name);
    push_str(&mut out, ".__definition__ = MessageDef(\n");
    push_str(&mut out, "    name=\"");
    push_str(&mut out, name);
    push_str(&mut out, "\",\n");
    push_str(&mut out, "    type_id=");
    push_decimal(&mut out, contract.tlv_type as u64);
    push_str(&mut out, ",\n");
    push_str(&mut out, "    topic=\"");
    push_str(&mut out, topic.as_str());
    push_str(&mut out, "\",\n");
    push_str(&mut out, "    fields=[\n");
    let ghost defs_start = out@;
    let mut j: usize = 0;
    proof {
        assert(fs@.take(0) =~= Seq::<(String, FieldContract)>::empty());
        assert(defs_start + Seq::<char>::empty() =~= defs_start);
    }
    while j < n
        invariant
            fs@ == contract.fields@,
            n == fs@.len(),
            j <= n,
            field_specs@.len() == n,
            forall|k: int|
                0 <= k < n ==> (#[trigger] field_specs@[k]).type_hint@ == field_hint(fs@[k])
                    && field_specs@[k].field_expr@ == field_codec(fs@[k]),
            out@ == defs_start + python_field_defs(fs@.take(j as int)),
        decreases n - j,
    {
        proof {
            assert(fs@.take(j + 1).drop_last() =~= fs@.take(j as int));
            assert(fs@.take(j + 1).last() == fs@[j as int]);
            assert(field_specs@[j as int].field_expr@ == field_codec(fs@[j as int]));
        }
        push_str(&mut out, "        FieldDef(\"");
        push_str(&mut out, fs[j].0.as_str());
        push_str(&mut out, "\", ");
        push_str(&mut out, field_specs[j].field_expr.as_str());
        push_str(&mut out, "),\n");
        j = j + 1;
        proof {
            assert(out@ =~= defs_start + python_field_defs(fs@.take(j as int)));
        }
    }
    proof {
        assert(fs@.take(n as int) =~= fs@);
    }
    push_str(&mut out, "    ],\n");
    push_str(&mut out, "    dataclass=");
    push_str(&mut out, name);
    push_str(&mut out, ",\n");
    push_str(&mut out, ")\n");
    push_str(&mut out, "register_message(");
    push_str(&mut out, name);
    push_str(&mut out, ".__definition__)\n\n");
    push_str(code, out.as_str());
}


/// The names of the messages at the positions given, quoted.
pub open spec fn quoted_names(ms: Seq<(String, MessageContract)>, p: Seq<usize>) -> Seq<Seq<char>>
    decreases p.len(),
{
    if p.len() == 0 {
        Seq::empty()
    } else {
        quoted_names(ms, p.drop_last()).push("\""@ + ms[p.last() as int].0@ + "\""@)
    }
}

/// The Python classes of the messages at the positions given, in order.
pub open spec fn python_classes(ms: Seq<(String, MessageContract)>, p: Seq<usize>) -> Seq<char>
    decreases p.len(),
{
    if p.len() == 0 {
        Seq::empty()
    } else {
        python_classes(ms, p.drop_last()) + python_class_text(
            ms[p.last() as int].0@,
            ms[p.last() as int].1,
        )
    }
}

/// Start of the generated Python module.
pub open spec fn python_header() -> Seq<char> {
    "\"\"\"AUTO-GENERATED from contracts.yaml - DO NOT EDIT\n"@
        + "Generated by mycelium-protocol codegen.\n"@
        + "Edit contracts.yaml and rerun code generation.\n\"\"\"\n\n"@
        + "from __future__ import annotations\n\n"@ + "from dataclasses import dataclass\n"@
        + "from typing import ClassVar, List\n\n"@ + "from mycelium.protocol.runtime import (\n"@
        + "    FieldDef,\n"@ + "    FixedBytes,\n"@ + "    FixedStr,\n"@ + "    FixedVecBytes,\n"@
        + "    MessageDef,\n"@ + "    Primitive,\n"@ + "    register_message,\n"@ + ")\n\n"@
}

/// The generated Python module of a contract file: the exported names and
/// a dataclass per message, by ascending name.
pub open spec fn python_module_text(c: Contracts) -> Seq<char> {
    let ms = c.messages@;
    python_header() + "__all__ = ["@ + join(quoted_names(ms, name_order(ms)), ", "@) + "]\n\n"@
        + python_classes(ms, name_order(ms))
}

/// The Python module generated for a contract file.
pub fn generate_python_module(contracts: &Contracts) -> (r: String)
    requires
        python_messages(contracts.messages@),
        distinct_names(contracts.messages@),
    ensures
        r@ == python_module_text(*contracts),
{
    let mut code = copy_str("\"\"\"AUTO-GENERATED from contracts.yaml - DO NOT EDIT\n");
    push_str(&mut code, "Generated by mycelium-protocol codegen.\n");
    push_str(&mut code, "Edit contracts.yaml and rerun code generation.\n\"\"\"\n\n");
    push_str(&mut code, "from __future__ import annotations\n\n");
    push_str(&mut code, "from dataclasses import dataclass\n");
    push_str(&mut code, "from typing import ClassVar, List\n\n");
    push_str(&mut code, "from mycelium.protocol.runtime import (\n");
    push_str(&mut code, "    FieldDef,\n");
    push_str(&mut code, "    FixedBytes,\n");
    push_str(&mut code, "    FixedStr,\n");
    push_str(&mut code, "    FixedVecBytes,\n");
    push_str(&mut code, "    MessageDef,\n");
    push_str(&mut code, "    Primitive,\n");
    push_str(&mut code, "    register_message,\n");
    push_str(&mut code, ")\n\n");
    let ms = &contracts.messages;
    let n = ms.len();
    let sorted = sort_by_name(ms);
    proof {
        assert(is_name_order(name_order(ms@), ms@));
        lemma_name_order_unique(sorted@, name_order(ms@), ms@);
    }
    push_str(&mut code, "__all__ = [");
    let mut list = String::new();
    let mut idx: usize = 0;
    proof {
        assert(sorted@.take(0) =~= Seq::<usize>::empty());
    }
    while idx < n
        invariant
            n == ms@.len(),
            idx <= n,
            is_name_order(sorted@, ms@),
            list@ == join(quoted_names(ms@, sorted@.take(idx as int)), ", "@),
        decreases n - idx,
    {
        let x = sorted[idx];
        let ghost old_list = list@;
        proof {
            assert(sorted@.contains(x));
            assert(sorted@.take(idx + 1).drop_last() =~= sorted@.take(idx as int));
        }
        if idx > 0 {
            push_str(&mut list, ", ");
        }
        push_str(&mut list, "\"");
        push_str(&mut list, ms[x].0.as_str());
        push_str(&mut list, "\"");
        proof {
            let items = quoted_names(ms@, sorted@.take(idx as int));
            let item = "\""@ + ms@[x as int].0@ + "\""@;
            let items2 = quoted_names(ms@, sorted@.take(idx + 1));
            assert(items2 == items.push(item));
            assert(items2.drop_last() =~= items);
            if idx == 0 {
                assert(list@ =~= item);
            } else {
                assert(list@ =~= old_list + ", "@ + item);
            }
        }
        idx = idx + 1;
    }
    proof {
        assert(sorted@.take(n as int) =~= sorted@);
    }
    push_str(&mut code, list.as_str());
    push_str(&mut code, "]\n\n");
    let ghost head = code@;
    let mut k: usize = 0;
    proof {
        assert(head + Seq::<char>::empty() =~= head);
    }
    while k < n
        invariant
            n == ms@.len(),
            k <= n,
            python_messages(ms@),
            is_name_order(sorted@, ms@),
            code@ == head + python_classes(ms@, sorted@.take(k as int)),
        decreases n - k,
    {
        let x = sorted[k];
        proof {
            assert(sorted@.contains(x));
            assert(sorted@.take(k + 1).drop_last() =~= sorted@.take(k as int));
            assert(python_typed(ms@[x as int].1.fields@));
        }
        let ghost before = code@;
        let mut class_code = String::new();
        generate_python_class(&mut class_code, ms[x].0.as_str(), &ms[x].1);
        proof {
            assert(class_code@ =~= python_class_text(ms@[x as int].0@, ms@[x as int].1));
        }
        push_str(&mut code, class_code.as_str());
        proof {
            vstd::seq_lib::lemma_concat_associative(
                head,
                python_classes(ms@, sorted@.take(k as int)),
                class_code@,
            );
        }
        k = k + 1;
    }
    proof {
        assert(sorted@.take(n as int) =~= sorted@);
    }
    code
}


/// True when the contract type has a Rust type.
fn rust_type_known(t: &str, f: &FieldContract) -> (r: bool)
    ensures
        r == (rust_type(t@, *f) is Some),
{
    text_equal(t, "u8") || text_equal(t, "u16") || text_equal(t, "u32") || text_equal(t, "u64")
        || text_equal(t, "i32") || text_equal(t, "f64") || text_equal(t, "[u8; 16]") || text_equal(
        t,
        "[u8; 20]",
    ) || text_equal(t, "[u8; 32]") || text_equal(t, "[u8; 6]") || text_equal(t, "U256")
        || text_equal(t, "String") || text_equal(t, "Vec<[u8; 20]>") || text_equal(
        t,
        "Vec<[u8; 32]>",
    ) || text_equal(t, "Vec<u8>") || (starts_with(t, "[[u8;") && ends_with(t, "]"))
}

/// The size of a field, when its type has one.
fn field_size_checked(f: &FieldContract) -> (r: Option<u128>)
    ensures
        match field_size(*f) {
            Some(v) => r == Some(v as u128),
            None => r is None,
        },
{
    let t = f.field_type.as_str();
    if text_equal(t, "u8") || text_equal(t, "u16") || text_equal(t, "u32") || text_equal(t, "u64")
        || text_equal(t, "i32") || text_equal(t, "f64") || text_equal(t, "[u8; 16]") || text_equal(
        t,
        "[u8; 20]",
    ) || text_equal(t, "[u8; 32]") || text_equal(t, "[u8; 6]") || text_equal(t, "U256")
        || text_equal(t, "String") {
        Some(field_size_of(f) as u128)
    } else if text_equal(t, "Vec<[u8; 20]>") {
        let m = max_len_or_default(f, 4) as u128;
        Some(8 + 20 * m)
    } else if text_equal(t, "Vec<[u8; 32]>") {
        let m = max_len_or_default(f, 4) as u128;
        Some(8 + 32 * m)
    } else if text_equal(t, "Vec<u8>") {
        let m = max_len_or_default(f, 16) as u128;
        Some(8 + m)
    } else if text_equal(t, "[[u8; 32]; 256]") || text_equal(t, "[[u8; 32]; 6]") || text_equal(
        t,
        "[[u8; 20]; 6]",
    ) {
        Some(field_size_of(f) as u128)
    } else {
        None
    }
}

/// True when every field has a Rust type and a size, and the message's
/// buffer class fits in a `usize`.
fn message_generatable(c: &MessageContract) -> (r: bool)
    ensures
        r == (fields_typed(c.fields@) && fields_sized(c.fields@) && message_size(*c) <= usize::MAX
            / 2 + 1),
{
    let fs = &c.fields;
    let n = fs.len();
    let bound: u128 = (usize::MAX / 2 + 1) as u128;
    let mut total: u128 = 0;
    let mut i: usize = 0;
    proof {
        assert(fs@.take(0) =~= Seq::<(String, FieldContract)>::empty());
    }
    while i < n
        invariant
            fs@ == c.fields@,
            n == fs@.len(),
            i <= n,
            bound == usize::MAX / 2 + 1,
            total == fields_size(fs@.take(i as int)),
            total <= bound,
            fields_typed(fs@.take(i as int)),
            fields_sized(fs@.take(i as int)),
        decreases n - i,
    {
        proof {
            assert(fs@.take(i + 1).drop_last() =~= fs@.take(i as int));
            assert(fs@.take(i + 1).last() == fs@[i as int]);
        }
        if !rust_type_known(fs[i].1.field_type.as_str(), &fs[i].1) {
            proof {
                assert(fs@[i as int] == fs@[i as int]);
            }
            return false;
        }
        let size = match field_size_checked(&fs[i].1) {
            Some(v) => v,
            None => {
                proof {
                    assert(fs@[i as int].1.field_type@ == fs@[i as int].1.field_type@);
                }
                return false;
            },
        };
        proof {
            assert(size <= 8 + 32 * (usize::MAX as u128));
        }
        if size > bound - total {
            proof {
                lemma_fields_size_prefix(fs@, i + 1);
            }
            return false;
        }
        total = total + size;
        i = i + 1;
        proof {
            assert forall|k: int| 0 <= k < i implies rust_type(
                (#[trigger] fs@.take(i as int)[k]).1.field_type@,
                fs@.take(i as int)[k].1,
            ) is Some by {
                if k < i - 1 {
                    assert(fs@.take(i as int)[k] == fs@.take(i - 1)[k]);
                }
            }
            assert forall|k: int| 0 <= k < i implies (#[trigger] fs@.take(i as int)[k]).1.field_type@
                == fs@.take(i as int)[k].1.field_type@ && field_size(fs@.take(i as int)[k].1) is Some by {
                if k < i - 1 {
                    assert(fs@.take(i as int)[k] == fs@.take(i - 1)[k]);
                }
            }
        }
    }
    proof {
        assert(fs@.take(n as int) =~= fs@);
    }
    true
}

/// True when the Rust module can be generated: every message has typed and
/// sized fields and its buffer class fits, and no two messages share a
/// name.
pub fn messages_generatable(contracts: &Contracts) -> (r: bool)
    ensures
        r == (typed_messages(contracts.messages@) && sized_messages(contracts.messages@)
            && distinct_names(contracts.messages@)),
{
    let ms = &contracts.messages;
    let n = ms.len();
    let mut i: usize = 0;
    while i < n
        invariant
            ms@ == contracts.messages@,
            n == ms@.len(),
            i <= n,
            forall|k: int| 0 <= k < i ==> fields_typed((#[trigger] ms@[k]).1.fields@),
            forall|k: int|
                0 <= k < i ==> fields_sized((#[trigger] ms@[k]).1.fields@) && message_size(ms@[k].1)
                    <= usize::MAX / 2 + 1,
        decreases n - i,
    {
        if !message_generatable(&ms[i].1) {
            proof {
                assert(ms@[i as int] == ms@[i as int]);
            }
            return false;
        }
        i = i + 1;
    }
    names_are_distinct(ms)
}

/// True when no two messages share a name.
fn names_are_distinct(ms: &Vec<(String, MessageContract)>) -> (r: bool)
    ensures
        r == distinct_names(ms@),
{
    let n = ms.len();
    let mut j: usize = 0;
    while j < n
        invariant
            n == ms@.len(),
            j <= n,
            forall|a: int, b: int| 0 <= a < b < j ==> (#[trigger] ms@[a]).0@ != (#[trigger] ms@[b]).0@,
        decreases n - j,
    {
        let mut a: usize = 0;
        while a < j
            invariant
                n == ms@.len(),
                a <= j < n,
                forall|k: int| 0 <= k < a ==> (#[trigger] ms@[k]).0@ != ms@[j as int].0@,
            decreases j - a,
        {
            if text_equal(ms[a].0.as_str(), ms[j].0.as_str()) {
                proof {
                    assert(ms@[a as int].0@ == ms@[j as int].0@);
                }
                return false;
            }
            a = a + 1;
        }
        j = j + 1;
    }
    true
}

/// True when the contract type has a Python type and codec.
fn python_type_known(t: &str, f: &FieldContract) -> (r: bool)
    ensures
        r == (python_field(t@, *f) is Some),
{
    let normalized = remove_char(t, ' ');
    let n = normalized.as_str();
    if text_equal(n, "u8") || text_equal(n, "u16") || text_equal(n, "u32") || text_equal(n, "u64")
        || text_equal(n, "i32") || text_equal(n, "f64") || text_equal(n, "U256") || text_equal(
        n,
        "String",
    ) || text_equal(n, "Vec<u8>") {
        return true;
    }
    if parse_fixed_u8_array(n).is_some() {
        return true;
    }
    if starts_with(n, "Vec<[u8;") && ends_with(n, "]>") {
        let len = n.unicode_len();
        if len < 11 {
            return false;
        }
        let c = n.get_char(8);
        if !((c as u32) < 128) {
            return false;
        }
    }
    parse_vec_fixed_u8_array(n).is_some()
}

/// True when the Python module can be generated: every field has a Python
/// type, and no two messages share a name.
pub fn python_generatable(contracts: &Contracts) -> (r: bool)
    ensures
        r == (python_messages(contracts.messages@) && distinct_names(contracts.messages@)),
{
    let ms = &contracts.messages;
    let n = ms.len();
    let mut i: usize = 0;
    while i < n
        invariant
            ms@ == contracts.messages@,
            n == ms@.len(),
            i <= n,
            forall|k: int| 0 <= k < i ==> python_typed((#[trigger] ms@[k]).1.fields@),
        decreases n - i,
    {
        let fs = &ms[i].1.fields;
        let m = fs.len();
        let mut j: usize = 0;
        while j < m
            invariant
                ms@ == contracts.messages@,
                i < n,
                n == ms@.len(),
                fs@ == ms@[i as int].1.fields@,
                m == fs@.len(),
                j <= m,
                forall|k: int|
                    0 <= k < j ==> python_field((#[trigger] fs@[k]).1.field_type@, fs@[k].1) is Some,
            decreases m - j,
        {
            if !python_type_known(fs[j].1.field_type.as_str(), &fs[j].1) {
                proof {
                    assert(!python_typed(ms@[i as int].1.fields@)) by {
                        assert(fs@[j as int] == fs@[j as int]);
                    }
                }
                return false;
            }
            j = j + 1;
        }
        i = i + 1;
    }
    names_are_distinct(ms)
}

/// What generating the Rust module of a contract file gives: the warnings of
/// the type-id check, then the module, or the error of the check.
pub fn generate_from_yaml_with_imports(contracts: &Contracts, use_external_imports: bool) -> (r: (
    Vec<String>,
    Result<String, CodegenError>,
))
    requires
        distinct_names(contracts.messages@),
        tag_check(*contracts).1 is None ==> typed_messages(contracts.messages@) && sized_messages(
            contracts.messages@,
        ),
    ensures
        texts(r.0@) == tag_check(*contracts).0,
        tag_check(*contracts).1 is None ==> (r.1 matches Ok(code) && code@ == messages_text(
            *contracts,
            use_external_imports,
        )),
        tag_check(*contracts).1 is Some ==> r.1 matches Err(CodegenError::IoError(_)),
{
    let (warnings, checked) = validate_tag_ranges(contracts);
    match checked {
        Err(e) => (warnings, Err(e)),
        Ok(()) => (warnings, Ok(generate_messages(contracts, use_external_imports))),
    }
}

/// The Rust module of a contract file, for use inside the protocol crate.
pub fn generate_from_yaml(contracts: &Contracts) -> (r: (Vec<String>, Result<String, CodegenError>))
    requires
        distinct_names(contracts.messages@),
        tag_check(*contracts).1 is None ==> typed_messages(contracts.messages@) && sized_messages(
            contracts.messages@,
        ),
    ensures
        texts(r.0@) == tag_check(*contracts).0,
        tag_check(*contracts).1 is None ==> (r.1 matches Ok(code) && code@ == messages_text(
            *contracts,
            false,
        )),
        tag_check(*contracts).1 is Some ==> r.1 matches Err(CodegenError::IoError(_)),
{
    generate_from_yaml_with_imports(contracts, false)
}

/// The Rust module of a contract file, for crates that depend on the
/// protocol crate.
pub fn generate_from_yaml_external(contracts: &Contracts) -> (r: (
    Vec<String>,
    Result<String, CodegenError>,
))
    requires
        distinct_names(contracts.messages@),
        tag_check(*contracts).1 is None ==> typed_messages(contracts.messages@) && sized_messages(
            contracts.messages@,
        ),
    ensures
        texts(r.0@) == tag_check(*contracts).0,
        tag_check(*contracts).1 is None ==> (r.1 matches Ok(code) && code@ == messages_text(
            *contracts,
            true,
        )),
        tag_check(*contracts).1 is Some ==> r.1 matches Err(CodegenError::IoError(_)),
{
    generate_from_yaml_with_imports(contracts, true)
}

/// The Python module of a contract file: the warnings of the type-id check,
/// then the module, or the error of the check.
pub fn generate_python_from_yaml(contracts: &Contracts) -> (r: (
    Vec<String>,
    Result<String, CodegenError>,
))
    requires
        distinct_names(contracts.messages@),
        tag_check(*contracts).1 is None ==> python_messages(contracts.messages@),
    ensures
        texts(r.0@) == tag_check(*contracts).0,
        tag_check(*contracts).1 is None ==> (r.1 matches Ok(code) && code@ == python_module_text(
            *contracts,
        )),
        tag_check(*contracts).1 is Some ==> r.1 matches Err(CodegenError::IoError(_)),
{
    let (warnings, checked) = validate_tag_ranges(contracts);
    match checked {
        Err(e) => (warnings, Err(e)),
        Ok(()) => (warnings, Ok(generate_python_module(contracts))),
    }
}

} // verus!

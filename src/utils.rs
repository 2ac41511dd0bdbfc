//! Small helpers: the larger of two values, splitting and matching text, and
//! formatting values for reports.

use vstd::prelude::*;
use crate::global::GwGlobalData;

verus! {

/// The larger of `a` and `b` (`a` when they are equal).
pub open spec fn larger(a: int, b: int) -> int {
    if a < b {
        b
    } else {
        a
    }
}

/// The larger of two values; `a` when they are equal.
pub fn select_largest(a: i32, b: i32) -> (r: i32)
    ensures
        r == larger(a as int, b as int),
{
    if a < b {
        b
    } else {
        a
    }
}

/// The lowercase form of a text, as `str::to_lowercase` gives it.
pub uninterp spec fn lower_of(s: Seq<char>) -> Seq<char>;

/// Relies on `str::to_lowercase`: the lowercase form of a text depends on its
/// characters alone.
#[verifier::external_body]
pub(crate) fn lowercase(s: &str) -> (r: String)
    ensures
        r@ == lower_of(s@),
{
    s.to_lowercase()
}

/// Whether `t` and `u` hold the same text.
pub fn same_text(t: &str, u: &str) -> (r: bool)
    ensures
        r == (t@ == u@),
{
    String::from_str(t) == String::from_str(u)
}

/// The message for a name `s` of a `what` that is not recognised.
pub open spec fn parse_failure(what: Seq<char>, s: Seq<char>) -> Seq<char> {
    what + " "@ + s + " failed to parse!"@
}

/// The message for a name `s` of a `what` that is not recognised.
pub fn failed_to_parse(what: &str, s: &str) -> (r: String)
    ensures
        r@ == parse_failure(what@, s@),
{
    let mut r = String::from_str(what);
    r.append(" ");
    r.append(s);
    r.append(" failed to parse!");
    r
}

/// The ten decimal digits, in order.
pub open spec fn digit_chars() -> Seq<char> {
    seq!['0', '1', '2', '3', '4', '5', '6', '7', '8', '9']
}

/// The decimal digits of `n`, without leading zeros.
pub open spec fn digits_of(n: nat) -> Seq<char>
    decreases n,
{
    if n < 10 {
        seq![digit_chars()[n as int]]
    } else {
        digits_of(n / 10).push(digit_chars()[(n % 10) as int])
    }
}

/// `n` written in decimal, with a leading `-` when negative.
pub open spec fn decimal(n: int) -> Seq<char> {
    if n < 0 {
        seq!['-'] + digits_of((-n) as nat)
    } else {
        digits_of(n as nat)
    }
}

/// Relies on `ToString::to_string` for `i64`, which writes the number in
/// decimal with a leading `-` when it is negative.
#[verifier::external_body]
pub(crate) fn int_text(n: i64) -> (r: String)
    ensures
        r@ == decimal(n as int),
{
    n.to_string()
}

pub open spec fn is_digit(c: char) -> bool {
    '0' <= c <= '9'
}

/// The number that a nonempty run of decimal digits stands for.
pub open spec fn digits_value(d: Seq<char>) -> int
    decreases d.len(),
{
    if d.len() == 0 {
        0
    } else {
        10 * digits_value(d.drop_last()) + (d.last() as u32 - '0' as u32)
    }
}

/// The integer that `s` writes: an optional `+` or `-`, then one or more
/// decimal digits and nothing else.
pub open spec fn written_int(s: Seq<char>) -> Option<int> {
    let signed = s.len() > 0 && (s[0] == '-' || s[0] == '+');
    let d = if signed {
        s.drop_first()
    } else {
        s
    };
    if d.len() > 0 && forall|i: int| 0 <= i < d.len() ==> is_digit(#[trigger] d[i]) {
        Some(if s[0] == '-' { -digits_value(d) } else { digits_value(d) })
    } else {
        None
    }
}

/// The `i32` that `s` writes, if it writes one in range.
pub open spec fn written_i32(s: Seq<char>) -> Option<i32> {
    match written_int(s) {
        Some(v) => if i32::MIN <= v <= i32::MAX {
            Some(v as i32)
        } else {
            None
        },
        None => None,
    }
}

/// Relies on `str::parse::<i32>`: it accepts an optional `+` or `-` followed
/// by one or more ASCII digits, and fails on anything else or on a value out
/// of range.
#[verifier::external_body]
pub(crate) fn parse_i32(s: &str) -> (r: Option<i32>)
    ensures
        r == written_i32(s@),
{
    s.parse::<i32>().ok()
}

/// The position of the last `c` in `s`.
pub open spec fn last_index_of(s: Seq<char>, c: char) -> Option<int>
    decreases s.len(),
{
    if s.len() == 0 {
        None
    } else if s.last() == c {
        Some(s.len() - 1)
    } else {
        last_index_of(s.drop_last(), c)
    }
}

/// `s` split at its last `c`: the text before it and the text after it.
/// Without a `c`, the first part is empty and the second is all of `s`.
pub open spec fn split_at_last(s: Seq<char>, c: char) -> (Seq<char>, Seq<char>) {
    match last_index_of(s, c) {
        Some(p) => (s.subrange(0, p), s.subrange(p + 1, s.len() as int)),
        None => (Seq::empty(), s),
    }
}

/// Splits `s` at the last `delim`: the text before it and the text after it.
/// Without a `delim`, the first part is empty and the second is all of `s`.
pub fn get_last(s: &str, delim: char) -> (r: (&str, &str))
    ensures
        (r.0@, r.1@) == split_at_last(s@, delim),
{
    let n = s.unicode_len();
    let mut i: usize = n;
    assert(s@.subrange(0, n as int) =~= s@);
    while i > 0
        invariant
            i <= n,
            n == s@.len(),
            last_index_of(s@, delim) == last_index_of(s@.subrange(0, i as int), delim),
        decreases i,
    {
        if s.get_char(i - 1) == delim {
            assert(s@.subrange(0, i as int).last() == delim);
            return (s.substring_char(0, i - 1), s.substring_char(i, n));
        }
        assert(s@.subrange(0, i as int).drop_last() =~= s@.subrange(0, i - 1));
        i = i - 1;
    }
    assert(s@.subrange(0, 0) =~= Seq::<char>::empty());
    (s.substring_char(0, 0), s)
}

/// `stem_k.ext`: the name numbered `k`.
pub open spec fn numbered_name(stem: Seq<char>, k: int, ext: Seq<char>) -> Seq<char> {
    stem + "_"@ + decimal(k) + "."@ + ext
}

/// Whether one of `names` is `name`.
pub open spec fn name_taken(names: Seq<String>, name: Seq<char>) -> bool {
    exists|i: int| 0 <= i < names.len() && (#[trigger] names[i])@ == name
}

/// The least number from `k` on, below `limit`, whose numbered name is not
/// taken; `limit` if there is none.
pub open spec fn first_free(names: Seq<String>, stem: Seq<char>, ext: Seq<char>, k: int, limit: int) -> int
    decreases limit - k,
{
    if k >= limit || !name_taken(names, numbered_name(stem, k, ext)) {
        k
    } else {
        first_free(names, stem, ext, k + 1, limit)
    }
}

/// The path that `non_repeating_filename` gives for `full_path` in a folder
/// holding `names`.
pub open spec fn free_path(full_path: Seq<char>, names: Seq<String>) -> Seq<char> {
    let (dir, file) = split_at_last(full_path, '/');
    let folder = if dir.len() == 0 {
        "."@
    } else {
        dir
    };
    let (stem, ext) = split_at_last(file, '.');
    if !name_taken(names, file) {
        full_path
    } else {
        folder + "/"@ + numbered_name(stem, first_free(names, stem, ext, 1, names.len() + 1int), ext)
    }
}

/// Whether one of `names` is `name`.
fn is_taken(names: &Vec<String>, name: &String) -> (r: bool)
    ensures
        r == name_taken(names@, name@),
{
    let mut i: usize = 0;
    while i < names.len()
        invariant
            i <= names@.len(),
            forall|j: int| 0 <= j < i ==> (#[trigger] names@[j])@ != name@,
        decreases names@.len() - i,
    {
        if names[i] == *name {
            return true;
        }
        i = i + 1;
    }
    false
}

/// The name numbered `k`.
fn numbered(stem: &str, k: i64, ext: &str) -> (r: String)
    ensures
        r@ == numbered_name(stem@, k as int, ext@),
{
    let mut r = String::from_str(stem);
    r.append("_");
    let digits = int_text(k);
    r.append(digits.as_str());
    r.append(".");
    r.append(ext);
    r
}

/// A path for a new file like `full_path` that none of `names`, the names
/// already in its folder, takes: `full_path` itself if its name is free, else
/// `folder/stem_k.ext` for the least free `k` from 1 (at most one more than
/// the number of names, so a free one is always among them).
pub fn non_repeating_filename(full_path: &str, names: &Vec<String>) -> (r: String)
    requires
        names@.len() < i64::MAX,
    ensures
        r@ == free_path(full_path@, names@),
{
    let (dir, file) = get_last(full_path, '/');
    let folder = if dir.unicode_len() == 0 {
        "."
    } else {
        dir
    };
    let (stem, ext) = get_last(file, '.');
    if !is_taken(names, &String::from_str(file)) {
        return String::from_str(full_path);
    }
    let limit: i64 = names.len() as i64 + 1;
    let mut k: i64 = 1;
    let mut candidate = numbered(stem, k, ext);
    while k < limit && is_taken(names, &candidate)
        invariant
            1 <= k <= limit,
            limit == names@.len() + 1,
            candidate@ == numbered_name(stem@, k as int, ext@),
            first_free(names@, stem@, ext@, 1, limit as int) == first_free(names@, stem@, ext@, k as int, limit as int),
        decreases limit - k,
    {
        k = k + 1;
        candidate = numbered(stem, k, ext);
    }
    let mut r = String::from_str(folder);
    r.append("/");
    r.append(candidate.as_str());
    r
}

/// Whether `s` ends with `e`.
pub fn string_ends_with(s: &str, e: &str) -> (r: bool)
    ensures
        r == (e@.len() <= s@.len() && s@.subrange(s@.len() - e@.len(), s@.len() as int) == e@),
{
    let ls = s.unicode_len();
    let le = e.unicode_len();
    if le > ls {
        return false;
    }
    let start = ls - le;
    let mut i: usize = 0;
    while i < le
        invariant
            i <= le,
            le == e@.len(),
            ls == s@.len(),
            start == ls - le,
            forall|j: int| 0 <= j < i ==> s@[start + j] == e@[j],
        decreases le - i,
    {
        if s.get_char(start + i) != e.get_char(i) {
            assert(s@.subrange(start as int, ls as int)[i as int] != e@[i as int]);
            return false;
        }
        i = i + 1;
    }
    assert(s@.subrange(start as int, ls as int) =~= e@);
    true
}

/// The parts joined with `", "` between them.
pub open spec fn comma_joined(parts: Seq<Seq<char>>) -> Seq<char>
    decreases parts.len(),
{
    if parts.len() <= 1 {
        if parts.len() == 0 {
            Seq::empty()
        } else {
            parts[0]
        }
    } else {
        comma_joined(parts.drop_last()) + ", "@ + parts.last()
    }
}

/// The numbers of `v` in decimal, separated by `", "`.
pub fn fmt_vec(v: &Vec<i32>) -> (r: String)
    requires
        v@.len() > 0,
    ensures
        r@ == comma_joined(v@.map_values(|x: i32| decimal(x as int))),
{
    let ghost parts = v@.map_values(|x: i32| decimal(x as int));
    let mut r = int_text(v[0] as i64);
    assert(parts.subrange(0, 1) =~= seq![parts[0]]);
    let mut i: usize = 1;
    while i < v.len()
        invariant
            1 <= i <= v@.len(),
            parts == v@.map_values(|x: i32| decimal(x as int)),
            r@ == comma_joined(parts.subrange(0, i as int)),
        decreases v@.len() - i,
    {
        let t = int_text(v[i] as i64);
        r.append(", ");
        r.append(t.as_str());
        assert(parts.subrange(0, i + 1).drop_last() =~= parts.subrange(0, i as int));
        i = i + 1;
    }
    assert(parts.subrange(0, v@.len() as int) =~= parts);
    r
}

/// The number in decimal, or `"none"`.
pub fn fmt_option(o: &Option<i32>) -> (r: String)
    ensures
        r@ == match o {
            Some(v) => decimal(*v as int),
            None => "none"@,
        },
{
    match o {
        Some(v) => int_text(*v as i64),
        None => String::from_str("none"),
    }
}

/// `s` written `k` times in a row.
pub open spec fn repeated(s: Seq<char>, k: nat) -> Seq<char>
    decreases k,
{
    if k == 0 {
        Seq::empty()
    } else {
        repeated(s, (k - 1) as nat) + s
    }
}

/// Each part on a line of its own, indented by `tabs` tabs.
pub open spec fn tabbed_lines(parts: Seq<Seq<char>>, tabs: nat) -> Seq<char>
    decreases parts.len(),
{
    if parts.len() == 0 {
        Seq::empty()
    } else {
        tabbed_lines(parts.drop_last(), tabs) + repeated("\t"@, tabs) + parts.last() + "\n"@
    }
}

/// Each text of `v` on a line of its own, indented by `number_of_tabs` tabs.
pub fn fmt_vec_with_tabs(v: &Vec<String>, number_of_tabs: usize) -> (r: String)
    ensures
        r@ == tabbed_lines(v@.map_values(|s: String| s@), number_of_tabs as nat),
{
    let ghost parts = v@.map_values(|s: String| s@);
    let mut r = String::new();
    let mut i: usize = 0;
    assert(parts.subrange(0, 0) =~= Seq::<Seq<char>>::empty());
    while i < v.len()
        invariant
            i <= v@.len(),
            parts == v@.map_values(|s: String| s@),
            r@ == tabbed_lines(parts.subrange(0, i as int), number_of_tabs as nat),
        decreases v@.len() - i,
    {
        let ghost before = r@;
        let mut k: usize = 0;
        while k < number_of_tabs
            invariant
                k <= number_of_tabs,
                r@ == before + repeated("\t"@, k as nat),
            decreases number_of_tabs - k,
        {
            r.append("\t");
            k = k + 1;
        }
        r.append(v[i].as_str());
        r.append("\n");
        assert(parts.subrange(0, i + 1).drop_last() =~= parts.subrange(0, i as int));
        i = i + 1;
    }
    assert(parts.subrange(0, v@.len() as int) =~= parts);
    r
}

/// Options that hold for one run of the program.
#[derive(Clone, Debug)]
pub struct ProgramOptions {
    pub global_data: GwGlobalData,
    /// How much is printed: below 0 quiet, above 0 verbose.
    pub verbosity: i32,
    /// Whether battle logs are written to files.
    pub logging: bool,
}

impl Default for ProgramOptions {
    fn default() -> (r: ProgramOptions)
        ensures
            r.global_data.saves@.len() == 0,
            r.global_data.default_batlog_name@ == "%S_batlog_%R.txt"@,
            r.verbosity == 0,
            !r.logging,
    {
        ProgramOptions { global_data: GwGlobalData::default(), verbosity: 0, logging: false }
    }
}

impl ProgramOptions {
    /// Options with `global_data`, normal verbosity and no logging.
    pub fn new(global_data: GwGlobalData) -> (r: ProgramOptions)
        ensures
            r.global_data == global_data,
            r.verbosity == 0,
            !r.logging,
    {
        ProgramOptions { global_data, verbosity: 0, logging: false }
    }
}

} // verus!

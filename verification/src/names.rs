//! The identifier, digest and name grammars that the adapters accept.
use vstd::prelude::*;
use crate::text::{
    chars_of, contains, find_in, split, split_of, trim, trim_end_len, trim_start_len, views,
};

verus! {

pub open spec fn is_upper(c: char) -> bool {
    'A' <= c && c <= 'Z'
}

pub open spec fn is_lower(c: char) -> bool {
    'a' <= c && c <= 'z'
}

pub open spec fn is_dec(c: char) -> bool {
    '0' <= c && c <= '9'
}

pub open spec fn is_alnum(c: char) -> bool {
    is_upper(c) || is_lower(c) || is_dec(c)
}

/// The character classes that the grammars below are built from.
#[derive(Clone, Copy, Debug, PartialEq, Eq)]
pub enum CharClass {
    /// ASCII letters, digits, `-`, `_` and `.`.
    Atom,
    /// ASCII letters, digits and `_`.
    Word,
    /// Lowercase hexadecimal digits.
    LowerHex,
    /// Uppercase letters, digits and `_`.
    UpperWord,
    /// Uppercase letters, digits and `-`.
    UpperDash,
    /// Lowercase letters, digits and `-`.
    LowerDash,
    /// Lowercase letters and digits.
    LowerDigit,
    /// ASCII letters, digits, `_`, `-`, `[`, `]` and `.`.
    TestTail,
    /// Lowercase letters, digits, `.`, `_` and `-`.
    NpmName,
    /// ASCII letters, digits, `_` and `$`.
    JsIdent,
    /// Printable ASCII: space through `~`.
    Printable,
    /// Decimal digits.
    Digit,
    /// Lowercase letters, digits, `-`, `_`, `.` and `+`.
    FormatName,
}

pub open spec fn in_class(c: char, class: CharClass) -> bool {
    match class {
        CharClass::Atom => is_alnum(c) || c == '-' || c == '_' || c == '.',
        CharClass::Word => is_alnum(c) || c == '_',
        CharClass::LowerHex => is_dec(c) || ('a' <= c && c <= 'f'),
        CharClass::UpperWord => is_upper(c) || is_dec(c) || c == '_',
        CharClass::UpperDash => is_upper(c) || is_dec(c) || c == '-',
        CharClass::LowerDash => is_lower(c) || is_dec(c) || c == '-',
        CharClass::LowerDigit => is_lower(c) || is_dec(c),
        CharClass::TestTail => is_alnum(c) || c == '_' || c == '-' || c == '[' || c == ']' || c
            == '.',
        CharClass::NpmName => is_lower(c) || is_dec(c) || c == '.' || c == '_' || c == '-',
        CharClass::JsIdent => is_alnum(c) || c == '_' || c == '$',
        CharClass::Printable => ' ' <= c && c <= '~',
        CharClass::Digit => is_dec(c),
        CharClass::FormatName => is_lower(c) || is_dec(c) || is_format_separator(c),
    }
}

/// The separators between the segments of a format name.
pub open spec fn is_format_separator(c: char) -> bool {
    c == '-' || c == '_' || c == '.' || c == '+'
}

/// Every character of `s` is in `class`.
pub open spec fn all_in(s: Seq<char>, class: CharClass) -> bool {
    forall|i: int| 0 <= i < s.len() ==> in_class(#[trigger] s[i], class)
}

pub fn char_in(c: char, class: CharClass) -> (b: bool)
    ensures
        b == in_class(c, class),
{
    let alnum = ('A' <= c && c <= 'Z') || ('a' <= c && c <= 'z') || ('0' <= c && c <= '9');
    match class {
        CharClass::Atom => alnum || c == '-' || c == '_' || c == '.',
        CharClass::Word => alnum || c == '_',
        CharClass::LowerHex => ('0' <= c && c <= '9') || ('a' <= c && c <= 'f'),
        CharClass::UpperWord => ('A' <= c && c <= 'Z') || ('0' <= c && c <= '9') || c == '_',
        CharClass::UpperDash => ('A' <= c && c <= 'Z') || ('0' <= c && c <= '9') || c == '-',
        CharClass::LowerDash => ('a' <= c && c <= 'z') || ('0' <= c && c <= '9') || c == '-',
        CharClass::LowerDigit => ('a' <= c && c <= 'z') || ('0' <= c && c <= '9'),
        CharClass::TestTail => alnum || c == '_' || c == '-' || c == '[' || c == ']' || c == '.',
        CharClass::NpmName => ('a' <= c && c <= 'z') || ('0' <= c && c <= '9') || c == '.' || c
            == '_' || c == '-',
        CharClass::JsIdent => alnum || c == '_' || c == '$',
        CharClass::Printable => ' ' <= c && c <= '~',
        CharClass::Digit => '0' <= c && c <= '9',
        CharClass::FormatName => ('a' <= c && c <= 'z') || ('0' <= c && c <= '9') || c == '-' || c
            == '_' || c == '.' || c == '+',
    }
}

/// Whether every character of `s[from..]` is in `class`.
pub fn all_chars_in(s: &[char], from: usize, class: CharClass) -> (b: bool)
    requires
        from <= s@.len(),
    ensures
        b == all_in(s@.skip(from as int), class),
{
    let mut i = from;
    while i < s.len()
        invariant
            from <= i <= s@.len(),
            forall|j: int| from <= j < i ==> in_class(#[trigger] s@[j], class),
        decreases s@.len() - i,
    {
        if !char_in(s[i], class) {
            proof {
                assert(s@.skip(from as int)[i - from] == s@[i as int]);
            }
            return false;
        }
        i = i + 1;
    }
    proof {
        assert forall|j: int| 0 <= j < s@.skip(from as int).len() implies in_class(
            #[trigger] s@.skip(from as int)[j],
            class,
        ) by {
            assert(s@.skip(from as int)[j] == s@[from + j]);
        }
    }
    true
}

/// `sha256:` followed by exactly 64 lowercase hexadecimal digits.
pub open spec fn is_sha256_text(s: Seq<char>) -> bool {
    &&& s.len() == 71
    &&& s.take(7) == "sha256:"@
    &&& all_in(s.skip(7), CharClass::LowerHex)
}

/// Whether `value` is `sha256:` and 64 lowercase hexadecimal digits.
pub fn valid_digest(value: &str) -> (b: bool)
    ensures
        b == is_sha256_text(value@),
{
    let s = chars_of(value);
    let prefix = chars_of("sha256:");
    proof {
        reveal_strlit("sha256:");
    }
    if s.len() != 71 {
        return false;
    }
    if !crate::text::matches_at(s.as_slice(), prefix.as_slice(), 0) {
        proof {
            assert(s@.subrange(0, 7) =~= s@.take(7));
        }
        return false;
    }
    proof {
        assert(s@.subrange(0, 7) =~= s@.take(7));
    }
    all_chars_in(s.as_slice(), 7, CharClass::LowerHex)
}

/// A safe atom: 1 to 256 ASCII letters, digits, `-`, `_` or `.`, not
/// starting with `-` (so it can never read as an option).
pub open spec fn is_safe_atom(s: Seq<char>) -> bool {
    &&& 0 < s.len() <= 256
    &&& s[0] != '-'
    &&& all_in(s, CharClass::Atom)
}

/// Whether `value` is a safe atom.
pub fn safe_atom(value: &str) -> (b: bool)
    ensures
        b == is_safe_atom(value@),
{
    let s = chars_of(value);
    safe_atom_chars(s.as_slice())
}

pub fn safe_atom_chars(s: &[char]) -> (b: bool)
    ensures
        b == is_safe_atom(s@),
{
    proof {
        assert(s@.skip(0) =~= s@);
    }
    s.len() > 0 && s.len() <= 256 && s[0] != '-' && all_chars_in(s, 0, CharClass::Atom)
}

/// A path symbol: at most 1024 characters whose `::`-separated parts are all
/// safe atoms.
pub open spec fn is_safe_symbol(s: Seq<char>) -> bool {
    &&& 0 < s.len() <= 1024
    &&& forall|k: int|
        0 <= k < split(s, "::"@).len() ==> is_safe_atom(#[trigger] split(s, "::"@)[k])
}

/// Whether every part is a safe atom.
fn all_parts_atoms(parts: &Vec<Vec<char>>) -> (b: bool)
    ensures
        b == forall|k: int| 0 <= k < parts@.len() ==> is_safe_atom(#[trigger] views(parts@)[k]),
{
    let mut k: usize = 0;
    while k < parts.len()
        invariant
            k <= parts@.len(),
            forall|j: int| 0 <= j < k ==> is_safe_atom(#[trigger] views(parts@)[j]),
        decreases parts@.len() - k,
    {
        if !safe_atom_chars(parts[k].as_slice()) {
            proof {
                assert(views(parts@)[k as int] == parts@[k as int]@);
            }
            return false;
        }
        proof {
            assert(views(parts@)[k as int] == parts@[k as int]@);
        }
        k = k + 1;
    }
    true
}

/// Whether `value` is a `::`-separated path of safe atoms.
pub fn safe_symbol(value: &str) -> (b: bool)
    ensures
        b == is_safe_symbol(value@),
{
    let s = chars_of(value);
    if s.len() == 0 || s.len() > 1024 {
        return false;
    }
    let sep = chars_of("::");
    proof {
        reveal_strlit("::");
    }
    let parts = split_of(s.as_slice(), sep.as_slice());
    all_parts_atoms(&parts)
}

/// An environment variable name: an uppercase letter or `_`, then
/// uppercase letters, digits or `_`.
pub open spec fn is_environment_name(s: Seq<char>) -> bool {
    &&& s.len() > 0
    &&& (is_upper(s[0]) || s[0] == '_')
    &&& all_in(s, CharClass::UpperWord)
}

/// Whether `name` is a portable environment variable name.
pub fn valid_environment_name(name: &str) -> (b: bool)
    ensures
        b == is_environment_name(name@),
{
    let s = chars_of(name);
    if s.len() == 0 {
        return false;
    }
    proof {
        assert(s@.skip(0) =~= s@);
    }
    (('A' <= s[0] && s[0] <= 'Z') || s[0] == '_') && all_chars_in(s.as_slice(), 0, CharClass::UpperWord)
}

/// Whether any of `needles` occurs in `s`.
pub open spec fn contains_any(s: Seq<char>, needles: Seq<Seq<char>>) -> bool {
    exists|k: int| 0 <= k < needles.len() && contains(s, #[trigger] needles[k])
}

/// Whether any of `needles` occurs in `s`.
pub fn contains_any_of(s: &[char], needles: &Vec<Vec<char>>) -> (b: bool)
    ensures
        b == contains_any(s@, views(needles@)),
{
    let mut k: usize = 0;
    while k < needles.len()
        invariant
            k <= needles@.len(),
            forall|j: int| 0 <= j < k ==> !contains(s@, #[trigger] views(needles@)[j]),
        decreases needles@.len() - k,
    {
        let found = find_in(s, needles[k].as_slice(), 0);
        proof {
            assert(views(needles@)[k as int] == needles@[k as int]@);
        }
        if found.is_some() {
            return true;
        }
        k = k + 1;
    }
    false
}

/// The markers that identify a secret-bearing variable name.
pub open spec fn secret_markers() -> Seq<Seq<char>> {
    seq!["TOKEN"@, "SECRET"@, "PASSWORD"@, "PASSWD"@, "API_KEY"@, "PRIVATE_KEY"@]
}

/// The list of secret markers, built for execution.
pub fn markers_of(words: &[&str]) -> (out: Vec<Vec<char>>)
    ensures
        out@.len() == words@.len(),
        forall|k: int| 0 <= k < words@.len() ==> #[trigger] views(out@)[k] == words@[k]@,
{
    let mut out: Vec<Vec<char>> = Vec::new();
    let mut i: usize = 0;
    while i < words.len()
        invariant
            i <= words@.len(),
            out@.len() == i,
            forall|k: int| 0 <= k < i ==> #[trigger] views(out@)[k] == words@[k]@,
        decreases words@.len() - i,
    {
        let ghost before = out@;
        let w: &str = words[i];
        let v = chars_of(w);
        proof {
            assert(v@ == words@[i as int]@);
        }
        out.push(v);
        proof {
            assert(out@[i as int] == v);
            assert forall|k: int| 0 <= k < i + 1 implies #[trigger] views(out@)[k] == words@[k]@ by {
                assert(views(out@)[k] == out@[k]@);
                if k < i {
                    assert(out@[k] == before[k]);
                    assert(views(before)[k] == before[k]@);
                } else {
                    assert(out@[k] == v);
                }
            }
        }
        i = i + 1;
    }
    out
}

/// Whether a variable name marks its value as secret, so that only its
/// presence is observed.
pub fn is_secret_name(name: &str) -> (b: bool)
    ensures
        b == contains_any(name@, secret_markers()),
{
    let words = ["TOKEN", "SECRET", "PASSWORD", "PASSWD", "API_KEY", "PRIVATE_KEY"];
    let needles = markers_of(&words);
    let s = chars_of(name);
    proof {
        assert(views(needles@) =~= secret_markers());
    }
    contains_any_of(s.as_slice(), &needles)
}

/// No `-` of `s` is first, last, or next to another `-`.
pub open spec fn dashes_inside_spec(s: Seq<char>) -> bool {
    forall|i: int|
        0 <= i < s.len() && #[trigger] s[i] == '-' ==> 0 < i && i + 1 < s.len() && s[i + 1] != '-'
            && s[i - 1] != '-'
}

/// No format separator of `s` is first, last, or next to another.
pub open spec fn format_separators_inside_spec(s: Seq<char>) -> bool {
    forall|i: int|
        0 <= i < s.len() && is_format_separator(#[trigger] s[i]) ==> 0 < i && i + 1 < s.len()
            && !is_format_separator(s[i + 1]) && !is_format_separator(s[i - 1])
}

/// Whether no `-` of `s` is first, last, or next to another `-`.
pub fn dashes_inside(s: &[char]) -> (b: bool)
    ensures
        b == dashes_inside_spec(s@),
{
    let n = s.len();
    let mut i: usize = 0;
    while i < n
        invariant
            n == s@.len(),
            i <= n,
            forall|j: int|
                0 <= j < i && #[trigger] s@[j] == '-' ==> 0 < j && j + 1 < n && s@[j + 1] != '-' && s@[j
                    - 1] != '-',
        decreases n - i,
    {
        if s[i] == '-' {
            if i == 0 || i + 1 >= n || s[i + 1] == '-' || s[i - 1] == '-' {
                return false;
            }
        }
        i = i + 1;
    }
    true
}

/// Whether no format separator of `s` is first, last, or next to another.
fn format_separators_inside(s: &[char]) -> (b: bool)
    ensures
        b == format_separators_inside_spec(s@),
{
    let n = s.len();
    let mut i: usize = 0;
    while i < n
        invariant
            n == s@.len(),
            i <= n,
            forall|j: int|
                0 <= j < i && is_format_separator(#[trigger] s@[j]) ==> 0 < j && j + 1 < n
                    && !is_format_separator(s@[j + 1]) && !is_format_separator(s@[j - 1]),
        decreases n - i,
    {
        let c = s[i];
        if c == '-' || c == '_' || c == '.' || c == '+' {
            if i == 0 || i + 1 >= n {
                return false;
            }
            let next = s[i + 1];
            let prev = s[i - 1];
            if next == '-' || next == '_' || next == '.' || next == '+' || prev == '-' || prev
                == '_' || prev == '.' || prev == '+' {
                return false;
            }
        }
        i = i + 1;
    }
    true
}

/// A data format name such as `proofbound-example/1`: a lowercase name of
/// `-_.+`-separated lowercase/digit segments, a `/`, and a positive decimal
/// version without leading zeros; at most 128 characters in all.
pub open spec fn is_safe_format(s: Seq<char>) -> bool {
    &&& s.len() <= 128
    &&& match crate::text::split_once(s, "/"@) {
        Some((name, version)) => {
            &&& name.len() > 0
            &&& is_lower(name[0])
            &&& all_in(name, CharClass::FormatName)
            &&& format_separators_inside_spec(name)
            &&& version.len() > 0
            &&& is_dec(version[0])
            &&& version[0] != '0'
            &&& all_in(version, CharClass::Digit)
        },
        None => false,
    }
}

/// Whether `value` is a versioned format name.
pub fn safe_format(value: &str) -> (b: bool)
    ensures
        b == is_safe_format(value@),
{
    let s = chars_of(value);
    if s.len() > 128 {
        return false;
    }
    let slash = chars_of("/");
    match crate::text::split_once_of(s.as_slice(), slash.as_slice()) {
        None => false,
        Some((name, version)) => {
            proof {
                assert(name@.skip(0) =~= name@);
                assert(version@.skip(0) =~= version@);
            }
            name.len() > 0 && ('a' <= name[0] && name[0] <= 'z') && all_chars_in(
                name.as_slice(),
                0,
                CharClass::FormatName,
            ) && format_separators_inside(name.as_slice()) && version.len() > 0 && ('1'
                <= version[0] && version[0] <= '9') && all_chars_in(
                version.as_slice(),
                0,
                CharClass::Digit,
            )
        },
    }
}

/// A safe atom that starts with a lowercase letter.
pub open spec fn is_safe_id(s: Seq<char>) -> bool {
    is_safe_atom(s) && is_lower(s[0])
}

/// Whether `value` is a safe atom starting with a lowercase letter.
pub fn safe_id(value: &str) -> (b: bool)
    ensures
        b == is_safe_id(value@),
{
    let s = chars_of(value);
    safe_atom_chars(s.as_slice()) && 'a' <= s[0] && s[0] <= 'z'
}

/// A local identifier: `-`-separated nonempty segments of lowercase letters
/// and digits, the first starting with a letter; at most 128 characters.
pub open spec fn is_local_id(s: Seq<char>) -> bool {
    &&& 0 < s.len() <= 128
    &&& is_lower(s[0])
    &&& all_in(s, CharClass::LowerDash)
    &&& dashes_inside_spec(s)
}

/// Whether `value` is a canonical local identifier.
pub fn valid_local_id(value: &str) -> (b: bool)
    ensures
        b == is_local_id(value@),
{
    let s = chars_of(value);
    proof {
        assert(s@.skip(0) =~= s@);
    }
    s.len() > 0 && s.len() <= 128 && 'a' <= s[0] && s[0] <= 'z' && all_chars_in(
        s.as_slice(),
        0,
        CharClass::LowerDash,
    ) && dashes_inside(s.as_slice())
}

/// The last part of a test name: 1 to 1024 ASCII letters, digits, `_`, `-`,
/// `[`, `]` or `.`.
pub open spec fn is_test_tail(s: Seq<char>) -> bool {
    0 < s.len() <= 1024 && all_in(s, CharClass::TestTail)
}

/// Whether `value` is a safe last part of a test name.
pub fn safe_test_tail(value: &str) -> (b: bool)
    ensures
        b == is_test_tail(value@),
{
    let s = chars_of(value);
    test_tail_chars(s.as_slice())
}

fn test_tail_chars(s: &[char]) -> (b: bool)
    ensures
        b == is_test_tail(s@),
{
    proof {
        assert(s@.skip(0) =~= s@);
    }
    s.len() > 0 && s.len() <= 1024 && all_chars_in(s, 0, CharClass::TestTail)
}

/// Every `::`-separated part of `s` is a test tail.
pub open spec fn tails_only(s: Seq<char>) -> bool {
    forall|k: int| 0 <= k < split(s, "::"@).len() ==> is_test_tail(#[trigger] split(s, "::"@)[k])
}

fn all_parts_tails(s: &[char]) -> (b: bool)
    ensures
        b == tails_only(s@),
{
    let sep = chars_of("::");
    proof {
        reveal_strlit("::");
    }
    let parts = split_of(s, sep.as_slice());
    let mut k: usize = 0;
    while k < parts.len()
        invariant
            k <= parts@.len(),
            views(parts@) == split(s@, "::"@),
            forall|j: int| 0 <= j < k ==> is_test_tail(#[trigger] views(parts@)[j]),
        decreases parts@.len() - k,
    {
        proof {
            assert(views(parts@)[k as int] == parts@[k as int]@);
        }
        if !test_tail_chars(parts[k].as_slice()) {
            return false;
        }
        k = k + 1;
    }
    true
}

/// A libtest test name: at most 1024 characters of `::`-separated tails.
pub open spec fn is_libtest_name(s: Seq<char>) -> bool {
    0 < s.len() <= 1024 && tails_only(s)
}

/// Whether `value` is a safe libtest test name.
pub fn safe_libtest_name(value: &str) -> (b: bool)
    ensures
        b == is_libtest_name(value@),
{
    let s = chars_of(value);
    s.len() > 0 && s.len() <= 1024 && all_parts_tails(s.as_slice())
}

/// A pytest node suffix: at most 2048 characters of `::`-separated tails.
pub open spec fn is_pytest_suffix(s: Seq<char>) -> bool {
    0 < s.len() <= 2048 && tails_only(s)
}

/// Whether `value` is a safe pytest node suffix.
pub fn safe_pytest_suffix(value: &str) -> (b: bool)
    ensures
        b == is_pytest_suffix(value@),
{
    let s = chars_of(value);
    s.len() > 0 && s.len() <= 2048 && all_parts_tails(s.as_slice())
}

/// `char::is_control`: the Unicode `Cc` category.
pub open spec fn is_control(c: char) -> bool {
    c <= '\u{1f}' || ('\u{7f}' <= c && c <= '\u{9f}')
}

/// A registered inventory item: not blank, at most 4096 characters, and
/// free of control characters.
pub open spec fn is_inventory_item(s: Seq<char>) -> bool {
    &&& trim(s).len() > 0
    &&& s.len() <= 4096
    &&& forall|i: int| 0 <= i < s.len() ==> !is_control(#[trigger] s[i])
}

/// Whether `value` may stand in a registered inventory.
pub fn valid_inventory_item(value: &str) -> (b: bool)
    ensures
        b == is_inventory_item(value@),
{
    let s = chars_of(value);
    let k = trim_start_len(s.as_slice());
    let mut rest: Vec<char> = Vec::new();
    crate::text::extend_range(&mut rest, s.as_slice(), k, s.len());
    let n = trim_end_len(rest.as_slice());
    proof {
        assert(rest@ =~= s@.skip(k as int));
        assert(trim(s@) == crate::text::trim_end(rest@));
    }
    if n == 0 || s.len() > 4096 {
        return false;
    }
    let mut i: usize = 0;
    while i < s.len()
        invariant
            s@ == value@,
            i <= s@.len(),
            forall|j: int| 0 <= j < i ==> !is_control(#[trigger] s@[j]),
        decreases s@.len() - i,
    {
        let c = s[i];
        if c <= '\u{1f}' || ('\u{7f}' <= c && c <= '\u{9f}') {
            proof {
                assert(is_control(s@[i as int]));
            }
            return false;
        }
        i = i + 1;
    }
    true
}

} // verus!

//! Character-level helpers: the IDTF and file-name sanitizers, FBX object
//! label cleanup, ASCII case-insensitive comparison and decimal rendering.
use vstd::prelude::*;
use vstd::string::*;

verus! {

/// Appends one character to a string (`String::push`).
#[verifier::external_body]
pub(crate) fn push_char(s: &mut String, c: char)
    ensures
        final(s)@ == old(s)@.push(c),
{
    s.push(c);
}

/// The characters of a `&str`, one by one, into a fresh `String`.
pub fn string_from(s: &str) -> (out: String)
    ensures
        out@ == s@,
{
    String::from_str(s)
}

/// `a` followed by `b`.
pub fn concat(a: &str, b: &str) -> (out: String)
    ensures
        out@ == a@ + b@,
{
    let mut out = String::from_str(a);
    out.append(b);
    out
}

// ---------------------------------------------------------------- decimal

/// The decimal digit character of `d` (for `d < 10`).
pub open spec fn digit_char(d: nat) -> char {
    if d == 0 {
        '0'
    } else if d == 1 {
        '1'
    } else if d == 2 {
        '2'
    } else if d == 3 {
        '3'
    } else if d == 4 {
        '4'
    } else if d == 5 {
        '5'
    } else if d == 6 {
        '6'
    } else if d == 7 {
        '7'
    } else if d == 8 {
        '8'
    } else {
        '9'
    }
}

/// The decimal representation of `n`, without leading zeros.
pub open spec fn decimal(n: nat) -> Seq<char>
    decreases n,
{
    if n < 10 {
        seq![digit_char(n)]
    } else {
        decimal(n / 10).push(digit_char(n % 10))
    }
}

fn exec_digit_char(d: u64) -> (c: char)
    requires
        d < 10,
    ensures
        c == digit_char(d as nat),
{
    if d == 0 {
        '0'
    } else if d == 1 {
        '1'
    } else if d == 2 {
        '2'
    } else if d == 3 {
        '3'
    } else if d == 4 {
        '4'
    } else if d == 5 {
        '5'
    } else if d == 6 {
        '6'
    } else if d == 7 {
        '7'
    } else if d == 8 {
        '8'
    } else {
        '9'
    }
}

/// Renders `n` in decimal, as `format!("{}", n)` does.
pub fn decimal_string(n: u64) -> (s: String)
    ensures
        s@ == decimal(n as nat),
    decreases n,
{
    if n < 10 {
        let mut s = String::new();
        push_char(&mut s, exec_digit_char(n));
        s
    } else {
        let mut s = decimal_string(n / 10);
        push_char(&mut s, exec_digit_char(n % 10));
        s
    }
}

/// Digits are distinct characters.
proof fn lemma_digit_char_injective(a: nat, b: nat)
    requires
        a < 10,
        b < 10,
        digit_char(a) == digit_char(b),
    ensures
        a == b,
{
}

/// A decimal rendering is never empty, and has one character exactly for
/// numbers below ten.
pub proof fn lemma_decimal_len(n: nat)
    ensures
        decimal(n).len() >= 1,
        decimal(n).len() == 1 <==> n < 10,
    decreases n,
{
    if n >= 10 {
        lemma_decimal_len(n / 10);
    }
}

/// Different numbers have different decimal renderings.
pub proof fn lemma_decimal_injective(a: nat, b: nat)
    requires
        decimal(a) == decimal(b),
    ensures
        a == b,
    decreases a,
{
    lemma_decimal_len(a);
    lemma_decimal_len(b);
    if a < 10 {
        assert(decimal(a)[0] == digit_char(a));
        lemma_digit_char_injective(a, b);
    } else {
        let da = decimal(a);
        let db = decimal(b);
        assert(da.last() == digit_char(a % 10));
        assert(db.last() == digit_char(b % 10));
        lemma_digit_char_injective(a % 10, b % 10);
        assert(da.drop_last() =~= decimal(a / 10));
        assert(db.drop_last() =~= decimal(b / 10));
        lemma_decimal_injective(a / 10, b / 10);
    }
}

// ---------------------------------------------------------------- sanitizers

/// The character that an IDTF name holds in place of `c`: a quote or a line
/// or tab break would end the quoted name, so it becomes an underscore.
pub open spec fn idtf_name_char(c: char) -> char {
    if c == '"' || c == '\n' || c == '\r' || c == '\t' {
        '_'
    } else {
        c
    }
}

/// `name` with every character made safe for a quoted IDTF name.
pub open spec fn spec_sanitize_idtf_name(name: Seq<char>) -> Seq<char> {
    name.map_values(|c: char| idtf_name_char(c))
}

/// Replaces the characters that cannot stand inside a quoted IDTF name
/// (quote, newline, carriage return, tab) with `_`.
pub fn sanitize_idtf_name(name: &str) -> (out: String)
    ensures
        out@ == spec_sanitize_idtf_name(name@),
{
    let n = name.unicode_len();
    let mut out = String::new();
    let mut i: usize = 0;
    while i < n
        invariant
            n == name@.len(),
            i <= n,
            out@ == spec_sanitize_idtf_name(name@.take(i as int)),
        decreases n - i,
    {
        let c = name.get_char(i);
        let d = if c == '"' || c == '\n' || c == '\r' || c == '\t' {
            '_'
        } else {
            c
        };
        push_char(&mut out, d);
        assert(name@.take(i + 1) =~= name@.take(i as int).push(c));
        i = i + 1;
    }
    assert(name@.take(n as int) =~= name@);
    out
}

/// The character that a staged file name holds in place of `c`: characters
/// that Windows refuses in file names become underscores.
pub open spec fn file_name_char(c: char) -> char {
    if c == '<' || c == '>' || c == ':' || c == '"' || c == '/' || c == '\\' || c == '|' || c
        == '?' || c == '*' {
        '_'
    } else {
        c
    }
}

/// `name` made usable as one file name component; an empty name becomes
/// `texture`.
pub open spec fn spec_sanitize_file_component(name: Seq<char>) -> Seq<char> {
    if name.len() == 0 {
        "texture"@
    } else {
        name.map_values(|c: char| file_name_char(c))
    }
}

/// Replaces the characters that a file name cannot hold with `_`; an empty
/// name becomes `texture`.
pub fn sanitize_file_component(name: &str) -> (out: String)
    ensures
        out@ == spec_sanitize_file_component(name@),
{
    let n = name.unicode_len();
    if n == 0 {
        return String::from_str("texture");
    }
    let mut out = String::new();
    let mut i: usize = 0;
    while i < n
        invariant
            n == name@.len(),
            i <= n,
            out@ == name@.take(i as int).map_values(|c: char| file_name_char(c)),
        decreases n - i,
    {
        let c = name.get_char(i);
        let d = if c == '<' || c == '>' || c == ':' || c == '"' || c == '/' || c == '\\' || c
            == '|' || c == '?' || c == '*' {
            '_'
        } else {
            c
        };
        push_char(&mut out, d);
        assert(name@.take(i + 1) =~= name@.take(i as int).push(c));
        i = i + 1;
    }
    assert(name@.take(n as int) =~= name@);
    out
}

// ---------------------------------------------------------------- FBX labels

/// The length of the part of `s` before its first NUL character, looking
/// from position `i` on.
pub open spec fn nul_free_len_from(s: Seq<char>, i: int) -> int
    decreases s.len() - i,
{
    if i >= s.len() || i < 0 {
        s.len() as int
    } else if s[i] == '\0' {
        i
    } else {
        nul_free_len_from(s, i + 1)
    }
}

/// Where the last `::` in the first `n` characters of `s` ends; 0 when there
/// is none.
pub open spec fn label_start(s: Seq<char>, n: int) -> int
    decreases n,
{
    if n < 2 {
        0
    } else if s[n - 2] == ':' && s[n - 1] == ':' {
        n
    } else {
        label_start(s, n - 1)
    }
}

/// The object name inside an FBX label: the text before the first NUL
/// (FBX separates `Name\0\x01Class` that way), then the part after the last
/// `::` (FBX prefixes `Class::Name`).
pub open spec fn spec_clean_fbx_object_label(raw: Seq<char>) -> Seq<char> {
    let head = raw.take(nul_free_len_from(raw, 0));
    head.skip(label_start(head, head.len() as int))
}

proof fn lemma_nul_free_len_from(s: Seq<char>, i: int)
    requires
        0 <= i <= s.len(),
    ensures
        i <= nul_free_len_from(s, i) <= s.len(),
        forall|j: int| i <= j < nul_free_len_from(s, i) ==> s[j] != '\0',
        nul_free_len_from(s, i) < s.len() ==> s[nul_free_len_from(s, i)] == '\0',
    decreases s.len() - i,
{
    if i < s.len() && s[i] != '\0' {
        lemma_nul_free_len_from(s, i + 1);
    }
}

proof fn lemma_label_start(s: Seq<char>, n: int)
    requires
        0 <= n <= s.len(),
    ensures
        0 <= label_start(s, n) <= n,
        label_start(s, n) == 0 || label_start(s, n) >= 2,
        label_start(s, n) >= 2 ==> s[label_start(s, n) - 2] == ':' && s[label_start(s, n) - 1]
            == ':',
        forall|j: int|
            #![trigger s[j]]
            label_start(s, n) <= j && j + 1 < n ==> !(s[j] == ':' && s[j + 1] == ':'),
    decreases n,
{
    if n >= 2 && !(s[n - 2] == ':' && s[n - 1] == ':') {
        lemma_label_start(s, n - 1);
    }
}

/// Reduces an FBX object label such as `Model::Body` (or `Body\0\x01Model`)
/// to the object's own name.
pub fn clean_fbx_object_label(raw: &str) -> (out: String)
    ensures
        out@ == spec_clean_fbx_object_label(raw@),
{
    let n = raw.unicode_len();
    let mut end: usize = 0;
    while end < n && raw.get_char(end) != '\0'
        invariant
            n == raw@.len(),
            end <= n,
            nul_free_len_from(raw@, end as int) == nul_free_len_from(raw@, 0),
        decreases n - end,
    {
        end = end + 1;
    }
    proof {
        lemma_nul_free_len_from(raw@, end as int);
        assert(nul_free_len_from(raw@, end as int) == end);
    }
    let ghost head = raw@.take(end as int);
    let mut start: usize = end;
    while start >= 2 && !(raw.get_char(start - 2) == ':' && raw.get_char(start - 1) == ':')
        invariant
            n == raw@.len(),
            end <= n,
            start <= end,
            head == raw@.take(end as int),
            label_start(head, start as int) == label_start(head, end as int),
        decreases start,
    {
        assert(head[start - 2] == raw@[start - 2]);
        assert(head[start - 1] == raw@[start - 1]);
        start = start - 1;
    }
    if start < 2 {
        start = 0;
    }
    proof {
        if start >= 2 {
            assert(head[start - 2] == raw@[start - 2]);
            assert(head[start - 1] == raw@[start - 1]);
        }
        assert(label_start(head, start as int) == start);
    }
    let piece = raw.substring_char(start, end);
    assert(piece@ =~= head.skip(start as int));
    String::from_str(piece)
}

/// A cleaned label holds no NUL and no `::`.
pub proof fn lemma_clean_label_is_plain(raw: Seq<char>)
    ensures
        !spec_clean_fbx_object_label(raw).contains('\0'),
        forall|j: int|
            #![trigger spec_clean_fbx_object_label(raw)[j]]
            0 <= j && j + 1 < spec_clean_fbx_object_label(raw).len() ==> !(
            spec_clean_fbx_object_label(raw)[j] == ':' && spec_clean_fbx_object_label(raw)[j
                + 1] == ':'),
{
    lemma_nul_free_len_from(raw, 0);
    let head = raw.take(nul_free_len_from(raw, 0));
    lemma_label_start(head, head.len() as int);
    let k = label_start(head, head.len() as int);
    let out = spec_clean_fbx_object_label(raw);
    assert(out =~= head.skip(k));
    assert forall|j: int| 0 <= j < out.len() implies out[j] != '\0' by {
        assert(out[j] == raw[k + j]);
    }
    assert forall|j: int| #![trigger out[j]] 0 <= j && j + 1 < out.len() implies !(out[j] == ':'
        && out[j + 1] == ':') by {
        assert(out[j] == head[k + j]);
        assert(out[j + 1] == head[k + j + 1]);
    }
}

// ---------------------------------------------------------------- ASCII case

/// `c` with ASCII upper-case letters lowered (`char::to_ascii_lowercase`),
/// as a code point.
pub open spec fn ascii_lower_code(c: char) -> u32 {
    if 'A' <= c && c <= 'Z' {
        (c as u32 + 32) as u32
    } else {
        c as u32
    }
}

/// ASCII case-insensitive equality (`str::eq_ignore_ascii_case`).
pub open spec fn spec_eq_ignore_ascii_case(a: Seq<char>, b: Seq<char>) -> bool {
    &&& a.len() == b.len()
    &&& forall|i: int| 0 <= i < a.len() ==> ascii_lower_code(a[i]) == ascii_lower_code(b[i])
}

fn exec_ascii_lower_code(c: char) -> (r: u32)
    ensures
        r == ascii_lower_code(c),
{
    if 'A' <= c && c <= 'Z' {
        c as u32 + 32
    } else {
        c as u32
    }
}

/// Whether `a` and `b` are equal when ASCII letters are compared without
/// regard to case.
pub fn eq_ignore_ascii_case(a: &str, b: &str) -> (r: bool)
    ensures
        r == spec_eq_ignore_ascii_case(a@, b@),
{
    let n = a.unicode_len();
    if n != b.unicode_len() {
        return false;
    }
    let mut i: usize = 0;
    while i < n
        invariant
            n == a@.len(),
            n == b@.len(),
            i <= n,
            forall|j: int| 0 <= j < i ==> ascii_lower_code(a@[j]) == ascii_lower_code(b@[j]),
        decreases n - i,
    {
        if exec_ascii_lower_code(a.get_char(i)) != exec_ascii_lower_code(b.get_char(i)) {
            return false;
        }
        i = i + 1;
    }
    true
}

/// Whether the ASCII-lowered `haystack` holds `needle` at position `at`.
pub open spec fn lowered_match_at(haystack: Seq<char>, needle: Seq<char>, at: int) -> bool {
    &&& 0 <= at
    &&& at + needle.len() <= haystack.len()
    &&& forall|j: int|
        0 <= j < needle.len() ==> ascii_lower_code(haystack[at + j]) == needle[j] as u32
}

/// `haystack.to_ascii_lowercase().contains(needle)`.
pub open spec fn spec_lowered_contains(haystack: Seq<char>, needle: Seq<char>) -> bool {
    exists|at: int| lowered_match_at(haystack, needle, at)
}

/// Whether `haystack`, with its ASCII letters lowered, contains `needle`.
pub fn lowered_contains(haystack: &str, needle: &str) -> (r: bool)
    ensures
        r == spec_lowered_contains(haystack@, needle@),
{
    let n = haystack.unicode_len();
    let m = needle.unicode_len();
    if m > n {
        assert forall|at: int| !lowered_match_at(haystack@, needle@, at) by {}
        return false;
    }
    let mut at: usize = 0;
    while at <= n - m
        invariant
            n == haystack@.len(),
            m == needle@.len(),
            m <= n,
            at <= n - m + 1,
            forall|k: int| 0 <= k < at ==> !lowered_match_at(haystack@, needle@, k),
        decreases n - m + 1 - at,
    {
        let mut j: usize = 0;
        let mut matched = true;
        while j < m
            invariant
                n == haystack@.len(),
                m == needle@.len(),
                at + m <= n,
                j <= m,
                matched ==> forall|q: int|
                    0 <= q < j ==> ascii_lower_code(haystack@[at + q]) == needle@[q] as u32,
                !matched ==> !lowered_match_at(haystack@, needle@, at as int),
            decreases m - j,
        {
            if matched && exec_ascii_lower_code(haystack.get_char(at + j)) != needle.get_char(
                j,
            ) as u32 {
                matched = false;
            }
            j = j + 1;
        }
        if matched {
            assert(lowered_match_at(haystack@, needle@, at as int));
            return true;
        }
        at = at + 1;
    }
    assert forall|k: int| !lowered_match_at(haystack@, needle@, k) by {
        if 0 <= k && k + m <= n {
            assert(k < at);
        }
    }
    false
}

// ---------------------------------------------------------------- whitespace

/// Unicode `White_Space` (`char::is_whitespace`).
pub open spec fn is_unicode_whitespace(c: char) -> bool {
    let u = c as u32;
    (0x09 <= u && u <= 0x0d) || u == 0x20 || u == 0x85 || u == 0xa0 || u == 0x1680 || (0x2000
        <= u && u <= 0x200a) || u == 0x2028 || u == 0x2029 || u == 0x202f || u == 0x205f || u
        == 0x3000
}

/// Whether `s.trim()` is empty: every character is white space.
pub open spec fn spec_is_blank(s: Seq<char>) -> bool {
    forall|i: int| 0 <= i < s.len() ==> is_unicode_whitespace(s[i])
}

fn exec_is_whitespace(c: char) -> (r: bool)
    ensures
        r == is_unicode_whitespace(c),
{
    let u = c as u32;
    (0x09 <= u && u <= 0x0d) || u == 0x20 || u == 0x85 || u == 0xa0 || u == 0x1680 || (0x2000
        <= u && u <= 0x200a) || u == 0x2028 || u == 0x2029 || u == 0x202f || u == 0x205f || u
        == 0x3000
}

/// Whether `s` is empty once white space is trimmed from both ends.
pub fn is_blank(s: &str) -> (r: bool)
    ensures
        r == spec_is_blank(s@),
{
    let n = s.unicode_len();
    let mut i: usize = 0;
    while i < n
        invariant
            n == s@.len(),
            i <= n,
            forall|j: int| 0 <= j < i ==> is_unicode_whitespace(s@[j]),
        decreases n - i,
    {
        if !exec_is_whitespace(s.get_char(i)) {
            return false;
        }
        i = i + 1;
    }
    true
}

// ---------------------------------------------------------------- equality

/// Character-by-character equality of two strings.
pub fn str_equal(a: &str, b: &str) -> (r: bool)
    ensures
        r == (a@ == b@),
{
    let n = a.unicode_len();
    if n != b.unicode_len() {
        return false;
    }
    let mut i: usize = 0;
    while i < n
        invariant
            n == a@.len(),
            n == b@.len(),
            i <= n,
            forall|j: int| 0 <= j < i ==> a@[j] == b@[j],
        decreases n - i,
    {
        if a.get_char(i) != b.get_char(i) {
            return false;
        }
        i = i + 1;
    }
    assert(a@ =~= b@);
    true
}

} // verus!

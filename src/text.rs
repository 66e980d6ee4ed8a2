//! Character-level text helpers used to build and inspect SQL text.

use vstd::prelude::*;
use vstd::string::*;

verus! {

/// The characters of `s`, in order.
/// Relies on `str::chars`, collected into a `Vec`: it yields each character of the string once, in order.
#[verifier::external_body]
pub(crate) fn chars_of(s: &str) -> (r: Vec<char>)
    ensures
        r@ == s@,
{
    s.chars().collect()
}

/// A string made of the given characters.
/// Relies on `String: FromIterator<char>`: the string holds exactly the characters, in order.
#[verifier::external_body]
pub(crate) fn string_of(v: &Vec<char>) -> (r: String)
    ensures
        r@ == v@,
{
    v.iter().collect()
}

/// Relies on `String::push`: appends one character at the end.
#[verifier::external_body]
pub(crate) fn push_char(s: &mut String, c: char)
    ensures
        final(s)@ == old(s)@.push(c),
{
    s.push(c);
}

/// The Unicode `White_Space` characters, which `str::trim` removes.
pub open spec fn is_space(c: char) -> bool {
    let u = c as u32;
    (0x09 <= u <= 0x0D) || u == 0x20 || u == 0x85 || u == 0xA0 || u == 0x1680 || (0x2000 <= u
        <= 0x200A) || u == 0x2028 || u == 0x2029 || u == 0x202F || u == 0x205F || u == 0x3000
}

pub fn space(c: char) -> (r: bool)
    ensures
        r == is_space(c),
{
    let u = c as u32;
    (0x09 <= u && u <= 0x0D) || u == 0x20 || u == 0x85 || u == 0xA0 || u == 0x1680 || (0x2000 <= u
        && u <= 0x200A) || u == 0x2028 || u == 0x2029 || u == 0x202F || u == 0x205F || u == 0x3000
}

/// The decimal digit or lower-case hexadecimal digit for `d < 16`.
pub open spec fn digit_char(d: int) -> char {
    if d < 10 {
        (d + 48) as char
    } else {
        (d + 87) as char
    }
}

fn digit(d: u8) -> (c: char)
    requires
        d < 16,
    ensures
        c == digit_char(d as int),
{
    if d < 10 {
        (d + 48) as char
    } else {
        (d + 87) as char
    }
}


/// `s` without its leading white space.
pub open spec fn trim_start(s: Seq<char>) -> Seq<char>
    decreases s.len(),
{
    if s.len() > 0 && is_space(s[0]) {
        trim_start(s.drop_first())
    } else {
        s
    }
}

/// `s` without its trailing white space.
pub open spec fn trim_end(s: Seq<char>) -> Seq<char>
    decreases s.len(),
{
    if s.len() > 0 && is_space(s.last()) {
        trim_end(s.drop_last())
    } else {
        s
    }
}

/// `s` without white space at either end, as `str::trim` gives it.
pub open spec fn trim(s: Seq<char>) -> Seq<char> {
    trim_end(trim_start(s))
}

/// The characters of `v` from `lo` up to `hi`, copied.
pub fn copy_range(v: &Vec<char>, lo: usize, hi: usize) -> (r: Vec<char>)
    requires
        lo <= hi <= v@.len(),
    ensures
        r@ == v@.subrange(lo as int, hi as int),
{
    let mut r: Vec<char> = Vec::new();
    let mut i: usize = lo;
    while i < hi
        invariant
            lo <= i <= hi <= v@.len(),
            r@ == v@.subrange(lo as int, i as int),
        decreases hi - i,
    {
        r.push(v[i]);
        i = i + 1;
        assert(r@ =~= v@.subrange(lo as int, i as int));
    }
    r
}

/// The characters of `v` with white space removed at both ends.
pub fn trim_chars(v: &Vec<char>) -> (r: Vec<char>)
    ensures
        r@ == trim(v@),
{
    let n = v.len();
    let mut i: usize = 0;
    assert(v@.subrange(0, n as int) =~= v@);
    while i < n && space(v[i])
        invariant
            i <= n == v@.len(),
            trim_start(v@) == trim_start(v@.subrange(i as int, n as int)),
        decreases n - i,
    {
        assert(v@.subrange(i as int, n as int).drop_first() =~= v@.subrange(i + 1, n as int));
        i = i + 1;
    }
    assert(trim_start(v@) == v@.subrange(i as int, n as int));
    let ghost t = v@.subrange(i as int, n as int);
    let mut j: usize = n;
    while j > i && space(v[j - 1])
        invariant
            i <= j <= n == v@.len(),
            t == v@.subrange(i as int, n as int),
            trim_end(t) == trim_end(v@.subrange(i as int, j as int)),
        decreases j,
    {
        assert(v@.subrange(i as int, j as int).drop_last() =~= v@.subrange(i as int, j - 1));
        j = j - 1;
    }
    copy_range(v, i, j)
}

/// The pieces of `s` between occurrences of `sep`, as `str::split` gives them:
/// one more piece than there are separators.
pub open spec fn split_on(s: Seq<char>, sep: char) -> Seq<Seq<char>>
    decreases s.len(),
{
    if s.len() == 0 {
        seq![Seq::empty()]
    } else {
        let prev = split_on(s.drop_last(), sep);
        if s.last() == sep {
            prev.push(Seq::empty())
        } else {
            prev.update(prev.len() - 1, prev.last().push(s.last()))
        }
    }
}

/// The trimmed, non-empty pieces of `parts`, in order.
pub open spec fn kept_pieces(parts: Seq<Seq<char>>) -> Seq<Seq<char>>
    decreases parts.len(),
{
    if parts.len() == 0 {
        Seq::empty()
    } else {
        let prev = kept_pieces(parts.drop_last());
        if trim(parts.last()).len() > 0 {
            prev.push(trim(parts.last()))
        } else {
            prev
        }
    }
}

/// Where a scanner of SQL text stands before a character: in plain code
/// (just after a `-` or `/`, or not), inside a quoted literal or identifier,
/// or inside a comment.
#[derive(Clone, Copy, Debug, PartialEq, Eq, Structural)]
pub enum ScanState {
    Code,
    CodeAfterDash,
    CodeAfterSlash,
    SingleQuoted,
    DoubleQuoted,
    Backticked,
    Bracketed,
    LineComment,
    BlockComment,
    BlockCommentAfterStar,
}

/// The scanner's state after character `c`.
pub open spec fn next_state(st: ScanState, c: char) -> ScanState {
    match st {
        ScanState::SingleQuoted => if c == '\'' { ScanState::Code } else { ScanState::SingleQuoted },
        ScanState::DoubleQuoted => if c == '"' { ScanState::Code } else { ScanState::DoubleQuoted },
        ScanState::Backticked => if c == '`' { ScanState::Code } else { ScanState::Backticked },
        ScanState::Bracketed => if c == ']' { ScanState::Code } else { ScanState::Bracketed },
        ScanState::LineComment => if c == '\n' { ScanState::Code } else { ScanState::LineComment },
        ScanState::BlockComment => if c == '*' { ScanState::BlockCommentAfterStar } else { ScanState::BlockComment },
        ScanState::BlockCommentAfterStar => if c == '/' {
            ScanState::Code
        } else if c == '*' {
            ScanState::BlockCommentAfterStar
        } else {
            ScanState::BlockComment
        },
        _ => if st == ScanState::CodeAfterDash && c == '-' {
            ScanState::LineComment
        } else if st == ScanState::CodeAfterSlash && c == '*' {
            ScanState::BlockComment
        } else if c == '\'' {
            ScanState::SingleQuoted
        } else if c == '"' {
            ScanState::DoubleQuoted
        } else if c == '`' {
            ScanState::Backticked
        } else if c == '[' {
            ScanState::Bracketed
        } else if c == '-' {
            ScanState::CodeAfterDash
        } else if c == '/' {
            ScanState::CodeAfterSlash
        } else {
            ScanState::Code
        },
    }
}

pub open spec fn in_code(st: ScanState) -> bool {
    st == ScanState::Code || st == ScanState::CodeAfterDash || st == ScanState::CodeAfterSlash
}

/// The scanner's state before character `i` of `s`.
pub open spec fn state_at(s: Seq<char>, i: int) -> ScanState
    decreases i,
{
    if i <= 0 {
        ScanState::Code
    } else {
        next_state(state_at(s, i - 1), s[i - 1])
    }
}

/// The pieces of the first `n` characters of `s` between terminators: the
/// `;` characters that stand in code, not inside a literal, a quoted
/// identifier or a comment.
pub open spec fn split_code(s: Seq<char>, n: int) -> Seq<Seq<char>>
    decreases n,
{
    if n <= 0 {
        seq![Seq::empty()]
    } else {
        let prev = split_code(s, n - 1);
        let c = s[n - 1];
        if c == ';' && in_code(state_at(s, n - 1)) {
            prev.push(Seq::empty())
        } else {
            prev.update(prev.len() - 1, prev.last().push(c))
        }
    }
}

proof fn lemma_split_code_nonempty(s: Seq<char>, n: int)
    ensures
        split_code(s, n).len() >= 1,
    decreases n,
{
    if n > 0 {
        lemma_split_code_nonempty(s, n - 1);
    }
}

fn step(st: ScanState, c: char) -> (r: ScanState)
    ensures
        r == next_state(st, c),
{
    match st {
        ScanState::SingleQuoted => if c == '\'' { ScanState::Code } else { ScanState::SingleQuoted },
        ScanState::DoubleQuoted => if c == '"' { ScanState::Code } else { ScanState::DoubleQuoted },
        ScanState::Backticked => if c == '`' { ScanState::Code } else { ScanState::Backticked },
        ScanState::Bracketed => if c == ']' { ScanState::Code } else { ScanState::Bracketed },
        ScanState::LineComment => if c == '\n' { ScanState::Code } else { ScanState::LineComment },
        ScanState::BlockComment => if c == '*' { ScanState::BlockCommentAfterStar } else { ScanState::BlockComment },
        ScanState::BlockCommentAfterStar => if c == '/' {
            ScanState::Code
        } else if c == '*' {
            ScanState::BlockCommentAfterStar
        } else {
            ScanState::BlockComment
        },
        _ => if st == ScanState::CodeAfterDash && c == '-' {
            ScanState::LineComment
        } else if st == ScanState::CodeAfterSlash && c == '*' {
            ScanState::BlockComment
        } else if c == '\'' {
            ScanState::SingleQuoted
        } else if c == '"' {
            ScanState::DoubleQuoted
        } else if c == '`' {
            ScanState::Backticked
        } else if c == '[' {
            ScanState::Bracketed
        } else if c == '-' {
            ScanState::CodeAfterDash
        } else if c == '/' {
            ScanState::CodeAfterSlash
        } else {
            ScanState::Code
        },
    }
}

/// The statements of a script: the text between terminators, trimmed, with
/// empty fragments left out. A `;` inside a quoted literal, a quoted
/// identifier or a comment is part of the statement.
pub open spec fn statements_of(s: Seq<char>) -> Seq<Seq<char>> {
    kept_pieces(split_code(s, s.len() as int))
}

/// The views of a sequence of strings.
pub open spec fn texts(v: Seq<String>) -> Seq<Seq<char>> {
    v.map_values(|x: String| x@)
}

/// Splits a script into its statements (see `statements_of`).
pub fn split_statements(script: &str) -> (r: Vec<String>)
    ensures
        texts(r@) == statements_of(script@),
{
    let v = chars_of(script);
    let n = v.len();
    let mut out: Vec<String> = Vec::new();
    let mut cur: Vec<char> = Vec::new();
    let ghost mut done: Seq<Seq<char>> = Seq::empty();
    let mut st = ScanState::Code;
    let mut i: usize = 0;
    assert(done.push(cur@) =~= seq![Seq::<char>::empty()]);
    while i < n
        invariant
            i <= n == v@.len(),
            v@ == script@,
            st == state_at(v@, i as int),
            split_code(v@, i as int) == done.push(cur@),
            texts(out@) == kept_pieces(done),
        decreases n - i,
    {
        let c = v[i];
        proof {
            lemma_split_code_nonempty(v@, i as int);
        }
        if c == ';' && (st == ScanState::Code || st == ScanState::CodeAfterDash || st
            == ScanState::CodeAfterSlash) {
            let t = trim_chars(&cur);
            let ghost done2 = done.push(cur@);
            assert(done2.drop_last() =~= done);
            if t.len() > 0 {
                out.push(string_of(&t));
                assert(texts(out@) =~= kept_pieces(done2));
            }
            proof {
                done = done2;
            }
            cur = Vec::new();
            assert(split_code(v@, i + 1) =~= done.push(cur@));
        } else {
            cur.push(c);
            assert(split_code(v@, i + 1) =~= done.push(cur@));
        }
        st = step(st, c);
        i = i + 1;
    }
    let t = trim_chars(&cur);
    let ghost fin = done.push(cur@);
    assert(fin.drop_last() =~= done);
    if t.len() > 0 {
        out.push(string_of(&t));
        assert(texts(out@) =~= kept_pieces(fin));
    }
    out
}

/// The text of `s` from its first character that is neither white space nor
/// part of a comment line (a line whose first non-blank characters are `--`).
/// `in_comment` says that `s` starts inside such a line.
pub open spec fn code_from(s: Seq<char>, in_comment: bool) -> Seq<char>
    decreases s.len(),
{
    if s.len() == 0 {
        s
    } else if in_comment {
        code_from(s.drop_first(), s[0] != '\n')
    } else if is_space(s[0]) {
        code_from(s.drop_first(), false)
    } else if s.len() >= 2 && s[0] == '-' && s[1] == '-' {
        code_from(s.drop_first(), true)
    } else {
        s
    }
}

/// The ASCII lower-case form of `c`; other characters are kept.
pub open spec fn ascii_lower(c: char) -> char {
    if 'A' <= c && c <= 'Z' {
        ((c as u32) + 32) as char
    } else {
        c
    }
}

/// `s` starts with the word `w`, ignoring ASCII case.
pub open spec fn starts_with_word(s: Seq<char>, w: Seq<char>) -> bool {
    s.len() >= w.len() && forall|i: int| 0 <= i < w.len() ==> ascii_lower(#[trigger] s[i]) == ascii_lower(w[i])
}

pub open spec fn begin_word() -> Seq<char> {
    seq!['B', 'E', 'G', 'I', 'N']
}

pub open spec fn commit_word() -> Seq<char> {
    seq!['C', 'O', 'M', 'M', 'I', 'T']
}

fn lower(c: char) -> (r: char)
    ensures
        r == ascii_lower(c),
{
    if 'A' <= c && c <= 'Z' {
        ((c as u8) + 32) as char
    } else {
        c
    }
}

fn has_word_at(v: &Vec<char>, at: usize, w: &Vec<char>) -> (r: bool)
    requires
        at <= v@.len(),
    ensures
        r == starts_with_word(v@.subrange(at as int, v@.len() as int), w@),
{
    let ghost s = v@.subrange(at as int, v@.len() as int);
    let vl = v.len();
    if vl - at < w.len() {
        return false;
    }
    let mut i: usize = 0;
    while i < w.len()
        invariant
            at + w@.len() <= v@.len(),
            vl == v@.len(),
            s == v@.subrange(at as int, v@.len() as int),
            i <= w@.len(),
            forall|k: int| 0 <= k < i ==> ascii_lower(#[trigger] s[k]) == ascii_lower(w@[k]),
        decreases w@.len() - i,
    {
        assert(at + i < v@.len());
        if lower(v[at + i]) != lower(w[i]) {
            assert(ascii_lower(s[i as int]) != ascii_lower(w@[i as int]));
            return false;
        }
        i = i + 1;
    }
    true
}

/// A statement that the executor runs: it holds code, and that code does not
/// open or close a transaction (those are the executor's own).
pub open spec fn is_runnable(stmt: Seq<char>) -> bool {
    let c = code_from(stmt, false);
    c.len() > 0 && !starts_with_word(c, begin_word()) && !starts_with_word(c, commit_word())
}

/// Tells whether the executor runs `stmt` (see `is_runnable`). Comment lines
/// are only set aside for this test; the statement itself is left as it is.
pub fn runnable(stmt: &str) -> (r: bool)
    ensures
        r == is_runnable(stmt@),
{
    let v = chars_of(stmt);
    let n = v.len();
    let mut i: usize = 0;
    let mut in_comment = false;
    assert(v@.subrange(0, n as int) =~= v@);
    let begin = vec!['B', 'E', 'G', 'I', 'N'];
    let commit = vec!['C', 'O', 'M', 'M', 'I', 'T'];
    assert(begin@ =~= begin_word());
    assert(commit@ =~= commit_word());
    loop
        invariant
            i <= n == v@.len(),
            v@ == stmt@,
            begin@ == begin_word(),
            commit@ == commit_word(),
            code_from(v@, false) == code_from(v@.subrange(i as int, n as int), in_comment),
        decreases n - i,
    {
        let ghost rest = v@.subrange(i as int, n as int);
        if i == n {
            assert(rest.len() == 0);
            return false;
        }
        assert(rest.drop_first() =~= v@.subrange(i + 1, n as int));
        assert(rest[0] == v[i as int]);
        if in_comment {
            in_comment = v[i] != '\n';
        } else if space(v[i]) {
        } else if i + 1 < n && v[i] == '-' && v[i + 1] == '-' {
            assert(rest[1] == v[i + 1]);
            in_comment = true;
        } else {
            assert(code_from(v@, false) == v@.subrange(i as int, n as int));
            let b = has_word_at(&v, i, &begin);
            let c = has_word_at(&v, i, &commit);
            return !b && !c;
        }
        i = i + 1;
    }
}

/// The decimal text of `n`.
pub open spec fn decimal(n: nat) -> Seq<char>
    decreases n,
{
    if n < 10 {
        seq![digit_char(n as int)]
    } else {
        decimal(n / 10).push(digit_char((n % 10) as int))
    }
}

/// The decimal text of a signed number, with `-` before a negative one.
pub open spec fn signed_decimal(n: int) -> Seq<char> {
    if n < 0 {
        seq!['-'] + decimal((-n) as nat)
    } else {
        decimal(n as nat)
    }
}

/// Writes `n` in decimal.
pub fn decimal_text(n: u64) -> (r: String)
    ensures
        r@ == decimal(n as nat),
    decreases n,
{
    if n < 10 {
        let mut s = String::new();
        push_char(&mut s, digit(n as u8));
        assert(s@ =~= decimal(n as nat));
        s
    } else {
        let mut s = decimal_text(n / 10);
        push_char(&mut s, digit((n % 10) as u8));
        s
    }
}

/// Writes a signed `n` in decimal.
pub fn signed_decimal_text(n: i64) -> (r: String)
    ensures
        r@ == signed_decimal(n as int),
{
    if n < 0 {
        let m: u64 = ((-(n + 1)) as u64) + 1;
        let mut s = String::from_str("-");
        let d = decimal_text(m);
        proof { reveal_strlit("-"); }
        s.append(d.as_str());
        assert(s@ =~= signed_decimal(n as int));
        s
    } else {
        decimal_text(n as u64)
    }
}

/// Two lower-case hexadecimal digits for each byte.
pub open spec fn hex_of(b: Seq<u8>) -> Seq<char>
    decreases b.len(),
{
    if b.len() == 0 {
        Seq::empty()
    } else {
        hex_of(b.drop_last()).push(digit_char((b.last() / 16) as int)).push(digit_char((b.last() % 16) as int))
    }
}

/// Appends the hexadecimal text of `b` to `out`.
pub fn push_hex(out: &mut String, b: &[u8])
    ensures
        final(out)@ == old(out)@ + hex_of(b@),
{
    let mut i: usize = 0;
    let ghost start = out@;
    assert(b@.subrange(0, 0) =~= Seq::<u8>::empty());
    assert(start + hex_of(Seq::<u8>::empty()) =~= start);
    while i < b.len()
        invariant
            i <= b@.len(),
            start == old(out)@,
            out@ == start + hex_of(b@.subrange(0, i as int)),
        decreases b@.len() - i,
    {
        let x = b[i];
        push_char(out, digit(x / 16));
        push_char(out, digit(x % 16));
        assert(b@.subrange(0, i + 1).drop_last() =~= b@.subrange(0, i as int));
        i = i + 1;
        assert(out@ =~= start + hex_of(b@.subrange(0, i as int)));
    }
    assert(b@.subrange(0, i as int) =~= b@);
}

} // verus!

//! Values of rows and their SQL literal text.

use vstd::prelude::*;
use vstd::string::*;
use vstd::utf8::encode_utf8;
use crate::text::{chars_of, string_of, hex_of, push_hex};

verus! {

/// A value of a row, as the row-level diff supplies it.
#[derive(Clone, Debug)]
pub enum SqlValue {
    Null,
    Bool(bool),
    /// A number, held as its canonical decimal text.
    Number(String),
    Text(String),
    /// Any other structured value, held as its serialized text.
    Other(String),
}

/// A string holding a newline, carriage return or tab, which is written in
/// hexadecimal to avoid any quoting ambiguity.
pub open spec fn needs_hex(s: Seq<char>) -> bool {
    exists|i: int| 0 <= i < s.len() && (s[i] == '\n' || s[i] == '\r' || s[i] == '\t')
}

/// `s` with each single quote doubled.
pub open spec fn quote_doubled(s: Seq<char>) -> Seq<char>
    decreases s.len(),
{
    if s.len() == 0 {
        Seq::empty()
    } else if s.last() == '\'' {
        quote_doubled(s.drop_last()) + seq!['\'', '\'']
    } else {
        quote_doubled(s.drop_last()).push(s.last())
    }
}

/// `s` between single quotes, its own quotes doubled.
pub open spec fn quoted_text(s: Seq<char>) -> Seq<char> {
    seq!['\''] + quote_doubled(s) + seq!['\'']
}

/// A text value written as the UTF-8 bytes `h` in hexadecimal.
pub open spec fn hex_text(h: Seq<char>) -> Seq<char> {
    "CAST(x'"@ + h + "' AS TEXT)"@
}

/// The literal for a text value.
pub open spec fn text_literal(s: Seq<char>) -> Seq<char> {
    if needs_hex(s) {
        hex_text(hex_of(encode_utf8(s)))
    } else {
        quoted_text(s)
    }
}

/// The SQL literal for a value: `NULL`, `1`/`0`, the number's text, a text
/// literal, or the quoted serialized text of any other value.
pub open spec fn literal_of(v: SqlValue) -> Seq<char> {
    match v {
        SqlValue::Null => "NULL"@,
        SqlValue::Bool(b) => if b {
            "1"@
        } else {
            "0"@
        },
        SqlValue::Number(t) => t@,
        SqlValue::Text(s) => text_literal(s@),
        SqlValue::Other(t) => quoted_text(t@),
    }
}

fn has_break(v: &Vec<char>) -> (r: bool)
    ensures
        r == needs_hex(v@),
{
    let mut i: usize = 0;
    while i < v.len()
        invariant
            i <= v@.len(),
            forall|k: int| 0 <= k < i ==> !(v@[k] == '\n' || v@[k] == '\r' || v@[k] == '\t'),
        decreases v@.len() - i,
    {
        if v[i] == '\n' || v[i] == '\r' || v[i] == '\t' {
            return true;
        }
        i = i + 1;
    }
    false
}

fn quoted(s: &str) -> (r: String)
    ensures
        r@ == quoted_text(s@),
{
    let v = chars_of(s);
    let mut out: Vec<char> = Vec::new();
    out.push('\'');
    let mut i: usize = 0;
    assert(v@.subrange(0, 0) =~= Seq::<char>::empty());
    assert(out@ =~= seq!['\''] + quote_doubled(v@.subrange(0, 0)));
    while i < v.len()
        invariant
            i <= v@.len(),
            out@ == seq!['\''] + quote_doubled(v@.subrange(0, i as int)),
        decreases v@.len() - i,
    {
        assert(v@.subrange(0, i + 1).drop_last() =~= v@.subrange(0, i as int));
        assert(v@.subrange(0, i + 1).last() == v@[i as int]);
        if v[i] == '\'' {
            out.push('\'');
            out.push('\'');
        } else {
            out.push(v[i]);
        }
        i = i + 1;
        assert(out@ =~= seq!['\''] + quote_doubled(v@.subrange(0, i as int)));
    }
    assert(v@.subrange(0, i as int) =~= v@);
    out.push('\'');
    string_of(&out)
}

/// Writes the SQL literal of a value (see `literal_of`).
pub fn sql_literal(v: &SqlValue) -> (r: String)
    ensures
        r@ == literal_of(*v),
{
    match v {
        SqlValue::Null => String::from_str("NULL"),
        SqlValue::Bool(b) => if *b {
            String::from_str("1")
        } else {
            String::from_str("0")
        },
        SqlValue::Number(t) => t.clone(),
        SqlValue::Text(s) => {
            let cs = chars_of(s.as_str());
            if has_break(&cs) {
                let mut out = String::from_str("CAST(x'");
                push_hex(&mut out, s.as_str().as_bytes());
                out.append("' AS TEXT)");
                out
            } else {
                quoted(s.as_str())
            }
        },
        SqlValue::Other(t) => quoted(t.as_str()),
    }
}


/// The value of a hexadecimal digit.
pub open spec fn hex_value(c: char) -> int {
    if '0' <= c && c <= '9' {
        c as int - 48
    } else if 'a' <= c && c <= 'f' {
        c as int - 87
    } else if 'A' <= c && c <= 'F' {
        c as int - 55
    } else {
        0
    }
}

/// The bytes that pairs of hexadecimal digits stand for.
pub open spec fn unhex(h: Seq<char>) -> Seq<u8>
    decreases h.len(),
{
    if h.len() < 2 {
        Seq::empty()
    } else {
        unhex(h.subrange(0, h.len() - 2)).push(
            (hex_value(h[h.len() - 2]) * 16 + hex_value(h[h.len() - 1])) as u8,
        )
    }
}

/// The text between the quotes of a quoted literal, each doubled quote read
/// as one.
pub open spec fn unquote(b: Seq<char>) -> Seq<char>
    decreases b.len(),
{
    if b.len() == 0 {
        b
    } else if b.len() >= 2 && b.last() == '\'' && b[b.len() - 2] == '\'' {
        unquote(b.subrange(0, b.len() - 2)).push('\'')
    } else {
        unquote(b.drop_last()).push(b.last())
    }
}

/// What reading a text literal yields: bytes from a hexadecimal cast,
/// characters from a quoted literal.
pub ghost enum ReadBack {
    Bytes(Seq<u8>),
    Chars(Seq<char>),
    Unreadable,
}

/// How SQL reads the two literal shapes written for text: a hexadecimal
/// blob cast to text gives its bytes, a quoted literal its characters.
pub open spec fn read_text_literal(lit: Seq<char>) -> ReadBack {
    let pre = "CAST(x'"@;
    let post = "' AS TEXT)"@;
    if lit.len() >= pre.len() + post.len() && lit.subrange(0, pre.len() as int) == pre
        && lit.subrange(lit.len() - post.len(), lit.len() as int) == post {
        ReadBack::Bytes(unhex(lit.subrange(pre.len() as int, lit.len() - post.len())))
    } else if lit.len() >= 2 && lit[0] == '\'' && lit.last() == '\'' {
        ReadBack::Chars(unquote(lit.subrange(1, lit.len() - 1)))
    } else {
        ReadBack::Unreadable
    }
}

proof fn lemma_hex_digit(d: int)
    requires
        0 <= d < 16,
    ensures
        hex_value(crate::text::digit_char(d)) == d,
{
}

proof fn lemma_unhex_hex(b: Seq<u8>)
    ensures
        hex_of(b).len() == 2 * b.len(),
        unhex(hex_of(b)) == b,
    decreases b.len(),
{
    if b.len() > 0 {
        let p = b.drop_last();
        lemma_unhex_hex(p);
        let x = b.last();
        let h = hex_of(b);
        assert(h.subrange(0, h.len() - 2) =~= hex_of(p));
        lemma_hex_digit((x / 16) as int);
        lemma_hex_digit((x % 16) as int);
        assert(((x / 16) as int) * 16 + (x % 16) as int == x as int);
        assert(b =~= p.push(x));
    }
}

proof fn lemma_unquote_quote(s: Seq<char>)
    ensures
        unquote(quote_doubled(s)) == s,
    decreases s.len(),
{
    if s.len() > 0 {
        let p = s.drop_last();
        lemma_unquote_quote(p);
        let q = quote_doubled(s);
        if s.last() == '\'' {
            assert(q.subrange(0, q.len() - 2) =~= quote_doubled(p));
        } else {
            assert(q.drop_last() =~= quote_doubled(p));
        }
        assert(s =~= p.push(s.last()));
    }
}

/// Text literals read back exactly: a string holding a newline, carriage
/// return or tab reads back as its UTF-8 bytes, and any other string, single
/// quotes included, as its characters.
pub proof fn lemma_text_literal_round_trip(s: Seq<char>)
    ensures
        read_text_literal(text_literal(s)) == (if needs_hex(s) {
            ReadBack::Bytes(encode_utf8(s))
        } else {
            ReadBack::Chars(s)
        }),
{
    reveal_strlit("CAST(x'");
    reveal_strlit("' AS TEXT)");
    let pre = "CAST(x'"@;
    let post = "' AS TEXT)"@;
    let lit = text_literal(s);
    if needs_hex(s) {
        let h = hex_of(encode_utf8(s));
        lemma_unhex_hex(encode_utf8(s));
        assert(lit.subrange(0, pre.len() as int) =~= pre);
        assert(lit.subrange(lit.len() - post.len(), lit.len() as int) =~= post);
        assert(lit.subrange(pre.len() as int, lit.len() - post.len()) =~= h);
    } else {
        lemma_unquote_quote(s);
        assert(lit[0] == '\'');
        assert(pre[0] == 'C');
        if lit.len() >= pre.len() + post.len() {
            assert(lit.subrange(0, pre.len() as int)[0] == '\'');
            assert(lit.subrange(0, pre.len() as int) != pre);
        }
        assert(lit.subrange(1, lit.len() - 1) =~= quote_doubled(s));
    }
}

} // verus!

//! Pieces of SQL text shared by the patch generators: quoted identifiers,
//! lists, collation fix-ups, and scripts held as lines.

use vstd::prelude::*;
use vstd::string::*;
use crate::text::{chars_of, string_of, texts};

verus! {

/// A patch is a sequence of lines; its text ends each line with a newline.
pub open spec fn lines_text(ls: Seq<Seq<char>>) -> Seq<char>
    decreases ls.len(),
{
    if ls.len() == 0 {
        Seq::empty()
    } else {
        lines_text(ls.drop_last()) + ls.last() + seq!['\n']
    }
}

/// The text of a patch held as lines.
pub fn join_lines(ls: &Vec<String>) -> (r: String)
    ensures
        r@ == lines_text(texts(ls@)),
{
    let mut r = String::new();
    let mut i: usize = 0;
    assert(texts(ls@.subrange(0, 0)) =~= Seq::<Seq<char>>::empty());
    while i < ls.len()
        invariant
            i <= ls@.len(),
            r@ == lines_text(texts(ls@.subrange(0, i as int))),
        decreases ls@.len() - i,
    {
        r.append(ls[i].as_str());
        r.append("\n");
        proof {
            reveal_strlit("\n");
        }
        assert(texts(ls@.subrange(0, i + 1)).drop_last() =~= texts(ls@.subrange(0, i as int)));
        assert(texts(ls@.subrange(0, i + 1)).last() == ls@[i as int]@);
        i = i + 1;
        assert(r@ =~= lines_text(texts(ls@.subrange(0, i as int))));
    }
    assert(ls@.subrange(0, i as int) =~= ls@);
    r
}

/// Appends `more` to the lines `out`.
pub fn extend_lines(out: &mut Vec<String>, more: Vec<String>)
    ensures
        texts(final(out)@) == texts(old(out)@) + texts(more@),
{
    let ghost start = texts(out@);
    let mut i: usize = 0;
    assert(start + texts(more@.subrange(0, 0)) =~= start);
    while i < more.len()
        invariant
            i <= more@.len(),
            start == texts(old(out)@),
            texts(out@) == start + texts(more@.subrange(0, i as int)),
        decreases more@.len() - i,
    {
        let ghost before = out@;
        let x = more[i].clone();
        out.push(x);
        assert(texts(out@) =~= texts(before).push(more@[i as int]@));
        assert(texts(more@.subrange(0, i + 1)) =~= texts(more@.subrange(0, i as int)).push(
            more@[i as int]@,
        ));
        i = i + 1;
        assert(texts(out@) =~= start + texts(more@.subrange(0, i as int)));
    }
    assert(more@.subrange(0, i as int) =~= more@);
}

/// Pushes one line.
pub fn push_line(out: &mut Vec<String>, line: String)
    ensures
        texts(final(out)@) == texts(old(out)@).push(line@),
{
    out.push(line);
    assert(texts(out@) =~= texts(old(out)@).push(line@));
}

/// A name between backticks.
pub open spec fn quoted_name(n: Seq<char>) -> Seq<char> {
    "`"@ + n + "`"@
}

pub fn quote_name(n: &str) -> (r: String)
    ensures
        r@ == quoted_name(n@),
{
    let mut s = String::from_str("`");
    s.append(n);
    s.append("`");
    s
}

/// The items joined with `sep` between them.
pub open spec fn joined(items: Seq<Seq<char>>, sep: Seq<char>) -> Seq<char>
    decreases items.len(),
{
    if items.len() == 0 {
        Seq::empty()
    } else if items.len() == 1 {
        items[0]
    } else {
        joined(items.drop_last(), sep) + sep + items.last()
    }
}

/// Joins the items with `sep` between them.
pub fn join_with(items: &Vec<String>, sep: &str) -> (r: String)
    ensures
        r@ == joined(texts(items@), sep@),
{
    let mut r = String::new();
    let mut i: usize = 0;
    assert(texts(items@.subrange(0, 0)) =~= Seq::<Seq<char>>::empty());
    while i < items.len()
        invariant
            i <= items@.len(),
            r@ == joined(texts(items@.subrange(0, i as int)), sep@),
        decreases items@.len() - i,
    {
        let ghost prev = texts(items@.subrange(0, i as int));
        if i > 0 {
            r.append(sep);
        }
        r.append(items[i].as_str());
        assert(texts(items@.subrange(0, i + 1)).drop_last() =~= prev);
        assert(texts(items@.subrange(0, i + 1)).last() == items@[i as int]@);
        i = i + 1;
        if i == 1 {
            assert(r@ =~= items@[0]@);
        }
        assert(r@ =~= joined(texts(items@.subrange(0, i as int)), sep@));
    }
    assert(items@.subrange(0, i as int) =~= items@);
    r
}

pub open spec fn collate_word() -> Seq<char> {
    seq!['C', 'O', 'L', 'L', 'A', 'T', 'E', ' ']
}

pub open spec fn binary_collation() -> Seq<char> {
    collate_word() + seq!['B', 'I', 'N', 'A', 'R', 'Y']
}

/// `s` starts with `p`.
pub open spec fn starts_with(s: Seq<char>, p: Seq<char>) -> bool {
    s.len() >= p.len() && s.subrange(0, p.len() as int) == p
}

/// The length of the collation clause naming UTF-16 or UTF-8 (in upper or
/// lower case) that `s` starts with, or 0.
pub open spec fn unsupported_collation_len(s: Seq<char>) -> int {
    if starts_with(s, collate_word() + seq!['U', 'T', 'F', '1', '6']) || starts_with(
        s,
        collate_word() + seq!['u', 't', 'f', '1', '6'],
    ) {
        13
    } else if starts_with(s, collate_word() + seq!['U', 'T', 'F', '8']) || starts_with(
        s,
        collate_word() + seq!['u', 't', 'f', '8'],
    ) {
        12
    } else {
        0
    }
}

/// `s` with each collation clause naming UTF-16 or UTF-8 rewritten to
/// `COLLATE BINARY`, the collation the encrypted engine supports.
pub open spec fn fix_collations(s: Seq<char>) -> Seq<char>
    decreases s.len(),
{
    if s.len() == 0 {
        s
    } else if unsupported_collation_len(s) > 0 {
        binary_collation() + fix_collations(s.skip(unsupported_collation_len(s)))
    } else {
        seq![s[0]] + fix_collations(s.drop_first())
    }
}

fn starts_at(v: &Vec<char>, at: usize, p: &Vec<char>) -> (r: bool)
    requires
        at <= v@.len(),
    ensures
        r == starts_with(v@.skip(at as int), p@),
{
    let vl = v.len();
    if vl - at < p.len() {
        return false;
    }
    let mut i: usize = 0;
    while i < p.len()
        invariant
            at + p@.len() <= v@.len(),
            vl == v@.len(),
            i <= p@.len(),
            forall|k: int| 0 <= k < i ==> v@[at + k] == #[trigger] p@[k],
        decreases p@.len() - i,
    {
        if v[at + i] != p[i] {
            assert(v@.skip(at as int).subrange(0, p@.len() as int)[i as int] != p@[i as int]);
            return false;
        }
        i = i + 1;
    }
    assert(v@.skip(at as int).subrange(0, p@.len() as int) =~= p@);
    true
}

/// Rewrites the unsupported collations of a `CREATE TABLE` text (see `fix_collations`).
pub fn fixed_collations(sql: &str) -> (r: String)
    ensures
        r@ == fix_collations(sql@),
{
    let v = chars_of(sql);
    let n = v.len();
    let mut out: Vec<char> = Vec::new();
    let mut w16u = vec!['C', 'O', 'L', 'L', 'A', 'T', 'E', ' ', 'U', 'T', 'F', '1', '6'];
    let mut w16l = vec!['C', 'O', 'L', 'L', 'A', 'T', 'E', ' ', 'u', 't', 'f', '1', '6'];
    let mut w8u = vec!['C', 'O', 'L', 'L', 'A', 'T', 'E', ' ', 'U', 'T', 'F', '8'];
    let mut w8l = vec!['C', 'O', 'L', 'L', 'A', 'T', 'E', ' ', 'u', 't', 'f', '8'];
    let bin = vec!['C', 'O', 'L', 'L', 'A', 'T', 'E', ' ', 'B', 'I', 'N', 'A', 'R', 'Y'];
    assert(w16u@ =~= collate_word() + seq!['U', 'T', 'F', '1', '6']);
    assert(w16l@ =~= collate_word() + seq!['u', 't', 'f', '1', '6']);
    assert(w8u@ =~= collate_word() + seq!['U', 'T', 'F', '8']);
    assert(w8l@ =~= collate_word() + seq!['u', 't', 'f', '8']);
    assert(bin@ =~= binary_collation());
    let mut i: usize = 0;
    assert(v@.skip(0) =~= v@);
    assert(out@ + fix_collations(v@.skip(0)) =~= fix_collations(v@));
    while i < n
        invariant
            i <= n == v@.len(),
            v@ == sql@,
            w16u@ == collate_word() + seq!['U', 'T', 'F', '1', '6'],
            w16l@ == collate_word() + seq!['u', 't', 'f', '1', '6'],
            w8u@ == collate_word() + seq!['U', 'T', 'F', '8'],
            w8l@ == collate_word() + seq!['u', 't', 'f', '8'],
            bin@ == binary_collation(),
            fix_collations(v@) == out@ + fix_collations(v@.skip(i as int)),
        decreases n - i,
    {
        let ghost rest = v@.skip(i as int);
        let k: usize = if starts_at(&v, i, &w16u) || starts_at(&v, i, &w16l) {
            13
        } else if starts_at(&v, i, &w8u) || starts_at(&v, i, &w8l) {
            12
        } else {
            0
        };
        assert(k == unsupported_collation_len(rest));
        if k > 0 {
            let mut j: usize = 0;
            let ghost before = out@;
            while j < bin.len()
                invariant
                    j <= bin@.len(),
                    out@ == before + bin@.subrange(0, j as int),
                decreases bin@.len() - j,
            {
                out.push(bin[j]);
                j = j + 1;
                assert(out@ =~= before + bin@.subrange(0, j as int));
            }
            assert(bin@.subrange(0, j as int) =~= bin@);
            assert(rest.skip(k as int) =~= v@.skip(i + k));
            assert(out@ + fix_collations(v@.skip(i + k)) =~= before + fix_collations(rest));
            i = i + k;
        } else {
            let ghost before = out@;
            out.push(v[i]);
            assert(rest.drop_first() =~= v@.skip(i + 1));
            assert(rest[0] == v@[i as int]);
            assert(out@ + fix_collations(v@.skip(i + 1)) =~= before + fix_collations(rest));
            i = i + 1;
        }
    }
    assert(v@.skip(i as int) =~= Seq::<char>::empty());
    assert(out@ =~= fix_collations(v@));
    string_of(&out)
}

} // verus!

//! Conversions between strings and character vectors.
//!
//! The library's text is modelled as sequences of characters; strings cross
//! its boundary only here.

use vstd::prelude::*;

verus! {

/// Relies on String::push: appends exactly the one character.
#[verifier::external_body]
pub(crate) fn push_char(s: &mut String, c: char)
    ensures
        final(s)@ == old(s)@.push(c),
{
    s.push(c);
}

/// The characters of a string slice, as a vector.
pub fn str_to_chars(s: &str) -> (r: Vec<char>)
    ensures
        r@ == s@,
{
    let n = s.unicode_len();
    let mut r: Vec<char> = Vec::new();
    let mut i: usize = 0;
    while i < n
        invariant
            i <= n,
            n == s@.len(),
            r@ == s@.subrange(0, i as int),
        decreases n - i,
    {
        r.push(s.get_char(i));
        proof {
            assert(r@ =~= s@.subrange(0, i as int + 1));
        }
        i += 1;
    }
    proof {
        assert(r@ =~= s@);
    }
    r
}

/// A string with the given characters.
pub fn chars_to_string(v: &Vec<char>) -> (r: String)
    ensures
        r@ == v@,
{
    let mut r = String::new();
    let mut i: usize = 0;
    while i < v.len()
        invariant
            i <= v@.len(),
            r@ == v@.subrange(0, i as int),
        decreases v@.len() - i,
    {
        push_char(&mut r, v[i]);
        proof {
            assert(r@ =~= v@.subrange(0, i as int + 1));
        }
        i += 1;
    }
    proof {
        assert(r@ =~= v@);
    }
    r
}

/// Whether two character vectors hold the same text as a string slice.
pub fn chars_eq_str(v: &Vec<char>, s: &str) -> (r: bool)
    ensures
        r == (v@ == s@),
{
    let n = s.unicode_len();
    if v.len() != n {
        proof {
            assert(v@ != s@);
        }
        return false;
    }
    let mut i: usize = 0;
    while i < n
        invariant
            i <= n,
            n == s@.len(),
            v@.len() == n,
            forall|j: int| 0 <= j < i ==> v@[j] == s@[j],
        decreases n - i,
    {
        if v[i] != s.get_char(i) {
            return false;
        }
        i += 1;
    }
    proof {
        assert(v@ =~= s@);
    }
    true
}

/// The characters before `lo` followed by those from `from` on: a copy
/// with the middle removed.
pub fn copy_prefix_suffix(v: &Vec<char>, lo: usize, from: usize) -> (r: Vec<char>)
    requires
        lo <= v@.len(),
        from <= v@.len(),
    ensures
        r@ == v@.take(lo as int) + v@.skip(from as int),
{
    let mut r: Vec<char> = Vec::new();
    let mut i: usize = 0;
    while i < lo
        invariant
            i <= lo <= v@.len(),
            r@ == v@.subrange(0, i as int),
        decreases lo - i,
    {
        r.push(v[i]);
        proof {
            assert(r@ =~= v@.subrange(0, i as int + 1));
        }
        i += 1;
    }
    let mut j: usize = from;
    while j < v.len()
        invariant
            from <= j <= v@.len(),
            lo <= v@.len(),
            r@ == v@.subrange(0, lo as int) + v@.subrange(from as int, j as int),
        decreases v@.len() - j,
    {
        r.push(v[j]);
        proof {
            assert(r@ =~= v@.subrange(0, lo as int) + v@.subrange(from as int, j as int + 1));
        }
        j += 1;
    }
    proof {
        assert(r@ =~= v@.take(lo as int) + v@.skip(from as int));
    }
    r
}

/// A copy of a whole line.
pub fn copy_chars_vec(v: &Vec<char>) -> (r: Vec<char>)
    ensures
        r@ == v@,
{
    let n = v.len();
    let r = copy_range(v, 0, n);
    proof {
        assert(v@.subrange(0, v@.len() as int) =~= v@);
    }
    r
}

/// A copy of the characters in `from .. to`.
pub fn copy_range(v: &Vec<char>, from: usize, to: usize) -> (r: Vec<char>)
    requires
        from <= to <= v@.len(),
    ensures
        r@ == v@.subrange(from as int, to as int),
{
    let mut r: Vec<char> = Vec::new();
    let mut i: usize = from;
    while i < to
        invariant
            from <= i <= to <= v@.len(),
            r@ == v@.subrange(from as int, i as int),
        decreases to - i,
    {
        r.push(v[i]);
        proof {
            assert(r@ =~= v@.subrange(from as int, i as int + 1));
        }
        i += 1;
    }
    r
}

/// Whether two string slices hold the same characters.
pub fn str_eq(a: &str, b: &str) -> (r: bool)
    ensures
        r == (a@ == b@),
{
    let na = a.unicode_len();
    let nb = b.unicode_len();
    if na != nb {
        proof {
            assert(a@ != b@);
        }
        return false;
    }
    let mut i: usize = 0;
    while i < na
        invariant
            i <= na,
            na == a@.len(),
            na == b@.len(),
            forall|j: int| 0 <= j < i ==> a@[j] == b@[j],
        decreases na - i,
    {
        if a.get_char(i) != b.get_char(i) {
            return false;
        }
        i += 1;
    }
    proof {
        assert(a@ =~= b@);
    }
    true
}

/// Whether a string holds the same characters as a string slice.
pub fn chars_eq_str_string(a: &String, b: &str) -> (r: bool)
    ensures
        r == (a@ == b@),
{
    str_eq(a.as_str(), b)
}

/// Index of the first line break, or the length when there is none.
pub open spec fn find_nl(s: Seq<char>) -> nat
    decreases s.len(),
{
    if s.len() == 0 {
        0
    } else if s[0] == '\n' {
        0
    } else {
        1 + find_nl(s.drop_first())
    }
}

/// A sequence with one trailing carriage return removed.
pub open spec fn trim_cr(s: Seq<char>) -> Seq<char> {
    if s.len() > 0 && s.last() == '\r' {
        s.drop_last()
    } else {
        s
    }
}

/// The pieces of `s` split at every line break; each piece that was
/// followed by a break loses one trailing carriage return.
pub open spec fn split_nl(s: Seq<char>) -> Seq<Seq<char>>
    decreases s.len(),
{
    let i = find_nl(s);
    if i >= s.len() {
        seq![s]
    } else {
        seq![trim_cr(s.take(i as int))] + split_nl(s.skip(i + 1int))
    }
}

/// The line contents of a text: split at line breaks, with the final
/// empty piece of a trailing break dropped, and never empty (empty text
/// is one empty line).
pub open spec fn spec_lines_of_text(s: Seq<char>) -> Seq<Seq<char>> {
    let ps = split_nl(s);
    let kept = if ps.last().len() == 0 {
        ps.drop_last()
    } else {
        ps
    };
    if kept.len() == 0 {
        seq![Seq::<char>::empty()]
    } else {
        kept
    }
}

/// The text of a sequence of lines, joined with line breaks.
pub open spec fn spec_text_of_lines(ls: Seq<Seq<char>>) -> Seq<char>
    decreases ls.len(),
{
    if ls.len() == 0 {
        Seq::empty()
    } else if ls.len() == 1 {
        ls[0]
    } else {
        ls[0] + seq!['\n'] + spec_text_of_lines(ls.drop_first())
    }
}

/// When nothing before `m` is a line break and `m` is one (or the end),
/// `m` is where the first break is found.
proof fn lemma_find_nl_at(t: Seq<char>, m: int)
    requires
        0 <= m <= t.len(),
        forall|idx: int| 0 <= idx < m ==> t[idx] != '\n',
        m == t.len() || t[m] == '\n',
    ensures
        find_nl(t) == m,
    decreases m,
{
    if m == 0 {
    } else {
        assert(t[0] != '\n');
        let tail = t.drop_first();
        assert(forall|idx: int| 0 <= idx < m - 1 ==> tail[idx] == t[idx + 1]);
        if m - 1 < tail.len() {
            assert(tail[m - 1] == t[m]);
        }
        lemma_find_nl_at(tail, m - 1);
    }
}

/// The line contents of a text, as vectors.
pub fn text_to_lines(s: &str) -> (r: Vec<Vec<char>>)
    ensures
        Seq::new(r@.len(), |i: int| r@[i]@) == spec_lines_of_text(s@),
        r@.len() >= 1,
{
    let chars = str_to_chars(s);
    let ghost full = s@;
    let mut acc: Vec<Vec<char>> = Vec::new();
    let mut cur: Vec<char> = Vec::new();
    let mut j: usize = 0;
    let mut k: usize = 0;
    proof {
        assert(full.skip(0) =~= full);
        assert(full.subrange(0, 0) =~= Seq::<char>::empty());
    }
    while k < chars.len()
        invariant
            j <= k <= full.len(),
            chars@ == full,
            split_nl(full) == Seq::new(acc@.len(), |i: int| acc@[i]@) + split_nl(
                full.skip(j as int),
            ),
            cur@ == full.subrange(j as int, k as int),
            forall|idx: int| j <= idx < k ==> full[idx] != '\n',
        decreases full.len() - k,
    {
        let c = chars[k];
        if c == '\n' {
            proof {
                let t = full.skip(j as int);
                assert(forall|idx: int| 0 <= idx < k - j ==> t[idx] == full[j + idx]);
                assert(t[k - j] == full[k as int]);
                lemma_find_nl_at(t, k - j);
                assert(t.take(k - j) =~= full.subrange(j as int, k as int));
                assert(t.skip(k - j + 1) =~= full.skip(k + 1));
                assert(split_nl(t) == seq![trim_cr(cur@)] + split_nl(full.skip(k + 1)));
            }
            let mut piece = cur;
            if piece.len() > 0 && piece[piece.len() - 1] == '\r' {
                let _cr = piece.pop();
                proof {
                    assert(piece@ =~= trim_cr(full.subrange(j as int, k as int)));
                }
            }
            proof {
                assert(piece@ == trim_cr(full.subrange(j as int, k as int)));
            }
            acc.push(piece);
            cur = Vec::new();
            proof {
                assert(Seq::new(acc@.len(), |i: int| acc@[i]@)
                    =~= Seq::new((acc@.len() - 1) as nat, |i: int| acc@[i]@).push(
                    trim_cr(full.subrange(j as int, k as int))));
                assert(split_nl(full) =~= Seq::new(acc@.len(), |i: int| acc@[i]@)
                    + split_nl(full.skip(k + 1)));
                assert(full.subrange(k + 1, k + 1) =~= Seq::<char>::empty());
            }
            j = k + 1;
            k = k + 1;
        } else {
            cur.push(c);
            proof {
                assert(cur@ =~= full.subrange(j as int, k as int + 1));
            }
            k = k + 1;
        }
    }
    proof {
        let t = full.skip(j as int);
        assert(forall|idx: int| 0 <= idx < t.len() ==> t[idx] == full[j + idx]);
        lemma_find_nl_at(t, t.len() as int);
        assert(t.take(t.len() as int) =~= t);
        assert(split_nl(t) == seq![t]);
        assert(cur@ =~= t);
    }
    let ghost acc_before = Seq::new(acc@.len(), |i: int| acc@[i]@);
    if cur.len() > 0 {
        acc.push(cur);
        proof {
            assert(Seq::new(acc@.len(), |i: int| acc@[i]@)
                =~= acc_before.push(full.skip(j as int)));
            assert(split_nl(full) =~= acc_before + seq![full.skip(j as int)]);
            assert(split_nl(full).last() == full.skip(j as int));
            assert(split_nl(full).last().len() > 0);
            assert(Seq::new(acc@.len(), |i: int| acc@[i]@) =~= spec_lines_of_text(full));
        }
    } else {
        proof {
            assert(split_nl(full) =~= acc_before + seq![full.skip(j as int)]);
            assert(split_nl(full).last().len() == 0);
            assert(split_nl(full).drop_last() =~= acc_before);
        }
        if acc.len() == 0 {
            acc.push(Vec::new());
            proof {
                assert(Seq::new(acc@.len(), |i: int| acc@[i]@)
                    =~= seq![Seq::<char>::empty()]);
                assert(Seq::new(acc@.len(), |i: int| acc@[i]@) =~= spec_lines_of_text(full));
            }
        } else {
            proof {
                assert(Seq::new(acc@.len(), |i: int| acc@[i]@) =~= spec_lines_of_text(full));
            }
        }
    }
    acc
}

/// The text of the lines, joined with line breaks.
pub fn lines_to_text(lines: &Vec<Vec<char>>) -> (r: String)
    ensures
        r@ == spec_text_of_lines(Seq::new(lines@.len(), |i: int| lines@[i]@)),
{
    let ghost ls = Seq::new(lines@.len(), |i: int| lines@[i]@);
    let mut out: Vec<char> = Vec::new();
    let mut i: usize = 0;
    proof {
        assert(ls.skip(0) =~= ls);
    }
    while i < lines.len()
        invariant
            i <= ls.len(),
            ls == Seq::new(lines@.len(), |k: int| lines@[k]@),
            ls.len() == lines@.len(),
            spec_text_of_lines(ls) == out@ + spec_text_of_lines(ls.skip(i as int)),
            i == ls.len() ==> out@ == spec_text_of_lines(ls),
        decreases ls.len() - i,
    {
        let ghost out_at_entry = out@;
        let line = &lines[i];
        let mut m: usize = 0;
        while m < line.len()
            invariant
                m <= line@.len(),
                out@ == out_at_entry + line@.subrange(0, m as int),
            decreases line@.len() - m,
        {
            out.push(line[m]);
            proof {
                assert(out@ =~= out_at_entry + line@.subrange(0, m as int + 1));
            }
            m += 1;
        }
        proof {
            assert(out@ =~= out_at_entry + ls[i as int]);
        }
        if i + 1 < lines.len() {
            out.push('\n');
            proof {
                let rest = ls.skip(i as int);
                assert(rest.len() >= 2);
                assert(rest[0] == ls[i as int]);
                assert(rest.drop_first() =~= ls.skip(i as int + 1));
                assert(spec_text_of_lines(rest)
                    == rest[0] + seq!['\n'] + spec_text_of_lines(ls.skip(i as int + 1)));
                assert(out@ =~= out_at_entry + ls[i as int] + seq!['\n']);
                assert(spec_text_of_lines(ls) =~= out@ + spec_text_of_lines(
                    ls.skip(i as int + 1)));
            }
        } else {
            proof {
                let rest = ls.skip(i as int);
                assert(rest.len() == 1);
                assert(rest[0] == ls[i as int]);
                assert(spec_text_of_lines(rest) == rest[0]);
                assert(ls.skip(i as int + 1) =~= Seq::<Seq<char>>::empty());
                assert(spec_text_of_lines(ls) =~= out@ + spec_text_of_lines(
                    ls.skip(i as int + 1)));
            }
        }
        i += 1;
    }
    proof {
        assert(ls.skip(i as int) =~= Seq::<Seq<char>>::empty());
        assert(out@ =~= spec_text_of_lines(ls));
    }
    chars_to_string(&out)
}

} // verus!

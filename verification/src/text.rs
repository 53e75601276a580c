//! Splitting source text into lines and tokens, mnemonic capitalization,
//! and the nibble-group formatting of binary words.

use vstd::prelude::*;
use vstd::string::StrSliceExecFns;
use vstd::string::StringExecFns;

verus! {

/// The views of a sequence of strings, each a sequence of characters.
pub open spec fn str_views(ts: Seq<String>) -> Seq<Seq<char>> {
    ts.map_values(|t: String| t@)
}

/// The pieces of `s` delimited by `sep`: always one more piece than there
/// are separators, so an empty string yields one empty piece.
pub open spec fn spec_split(s: Seq<char>, sep: char) -> Seq<Seq<char>>
    decreases s.len(),
{
    if s.len() == 0 {
        seq![Seq::<char>::empty()]
    } else if s[0] == sep {
        seq![Seq::<char>::empty()] + spec_split(s.drop_first(), sep)
    } else {
        let rest = spec_split(s.drop_first(), sep);
        seq![seq![s[0]] + rest[0]] + rest.drop_first()
    }
}

pub proof fn lemma_split_len(s: Seq<char>, sep: char)
    ensures
        spec_split(s, sep).len() >= 1,
    decreases s.len(),
{
    if s.len() > 0 {
        lemma_split_len(s.drop_first(), sep);
    }
}

/// Appending one character to the input either starts a fresh piece (a
/// separator) or extends the final piece (any other character).
pub proof fn lemma_split_snoc(s: Seq<char>, c: char, sep: char)
    ensures
        c == sep ==> spec_split(s.push(c), sep) == spec_split(s, sep).push(
            Seq::<char>::empty(),
        ),
        c != sep ==> spec_split(s.push(c), sep) == spec_split(s, sep).update(
            spec_split(s, sep).len() - 1,
            spec_split(s, sep).last().push(c),
        ),
    decreases s.len(),
{
    lemma_split_len(s, sep);
    if s.len() == 0 {
        assert(s.push(c).drop_first() =~= Seq::<char>::empty());
        assert(s.push(c)[0] == c);
        assert(spec_split(Seq::<char>::empty(), sep) == seq![Seq::<char>::empty()]);
        if c == sep {
            assert(spec_split(s.push(c), sep) == seq![Seq::<char>::empty()] + seq![
                Seq::<char>::empty(),
            ]);
            assert(spec_split(s.push(c), sep) =~~= spec_split(s, sep).push(Seq::<char>::empty()));
        } else {
            let rest = spec_split(Seq::<char>::empty(), sep);
            assert(spec_split(s.push(c), sep) == seq![seq![c] + rest[0]] + rest.drop_first());
            assert(seq![c] + rest[0] =~= seq![c]);
            assert(rest.drop_first() =~~= Seq::<Seq<char>>::empty());
            assert(spec_split(s, sep).last().push(c) =~= seq![c]);
            assert(spec_split(s.push(c), sep) =~~= spec_split(s, sep).update(
                spec_split(s, sep).len() - 1,
                spec_split(s, sep).last().push(c),
            ));
        }
    } else {
        let q = spec_split(s.drop_first(), sep);
        lemma_split_len(s.drop_first(), sep);
        assert(s.push(c).drop_first() =~= s.drop_first().push(c));
        lemma_split_snoc(s.drop_first(), c, sep);
        let r = spec_split(s.drop_first().push(c), sep);
        assert(s.push(c)[0] == s[0]);
        if s[0] == sep {
            assert(spec_split(s.push(c), sep) == seq![Seq::<char>::empty()] + r);
            if c == sep {
                assert(seq![Seq::<char>::empty()] + q.push(Seq::<char>::empty()) =~~= (seq![
                    Seq::<char>::empty(),
                ] + q).push(Seq::<char>::empty()));
            } else {
                let p = seq![Seq::<char>::empty()] + q;
                assert(p.last() == q.last());
                assert(seq![Seq::<char>::empty()] + q.update(q.len() - 1, q.last().push(c)) =~~= p.update(
                    p.len() - 1,
                    p.last().push(c),
                ));
            }
        } else {
            let p = seq![seq![s[0]] + q[0]] + q.drop_first();
            assert(spec_split(s, sep) == p);
            assert(spec_split(s.push(c), sep) == seq![seq![s[0]] + r[0]] + r.drop_first());
            if c == sep {
                assert(r == q.push(Seq::<char>::empty()));
                assert(r[0] == q[0]);
                assert(r.drop_first() =~~= q.drop_first().push(Seq::<char>::empty()));
                assert(seq![seq![s[0]] + q[0]] + q.drop_first().push(Seq::<char>::empty()) =~~= p.push(
                    Seq::<char>::empty(),
                ));
            } else {
                assert(r == q.update(q.len() - 1, q.last().push(c)));
                if q.len() == 1 {
                    assert(r[0] == q[0].push(c));
                    assert(r.drop_first() =~~= q.drop_first());
                    assert(q.drop_first() =~~= Seq::<Seq<char>>::empty());
                    assert(seq![s[0]] + q[0].push(c) =~= (seq![s[0]] + q[0]).push(c));
                    assert(p.len() == 1);
                    assert(p.last() == seq![s[0]] + q[0]);
                    assert(seq![seq![s[0]] + r[0]] + r.drop_first() =~~= p.update(
                        p.len() - 1,
                        p.last().push(c),
                    ));
                } else {
                    assert(r[0] == q[0]);
                    assert(r.drop_first() =~~= q.drop_first().update(
                        q.len() - 2,
                        q.last().push(c),
                    ));
                    assert(p.last() == q.last());
                    assert(seq![seq![s[0]] + q[0]] + q.drop_first().update(
                        q.len() - 2,
                        q.last().push(c),
                    ) =~~= p.update(p.len() - 1, p.last().push(c)));
                }
            }
        }
    }
}

/// Splits `s` at every occurrence of `sep`.
pub fn split_char(s: &str, sep: char) -> (v: Vec<String>)
    ensures
        str_views(v@) == spec_split(s@, sep),
{
    let n = s.unicode_len();
    let mut v: Vec<String> = Vec::new();
    let mut start: usize = 0;
    let mut i: usize = 0;
    proof {
        assert(s@.take(0) =~= Seq::<char>::empty());
        assert(str_views(v@) =~~= Seq::<Seq<char>>::empty());
    }
    while i < n
        invariant
            n == s@.len(),
            0 <= start <= i <= n,
            spec_split(s@.take(i as int), sep).len() >= 1,
            str_views(v@) == spec_split(s@.take(i as int), sep).drop_last(),
            s@.subrange(start as int, i as int) == spec_split(s@.take(i as int), sep).last(),
        decreases n - i,
    {
        let ghost pre = spec_split(s@.take(i as int), sep);
        proof {
            assert(s@.take(i + 1) =~= s@.take(i as int).push(s@[i as int]));
            lemma_split_snoc(s@.take(i as int), s@[i as int], sep);
            lemma_split_len(s@.take(i + 1), sep);
        }
        let c = s.get_char(i);
        if c == sep {
            let piece = String::from_str(s.substring_char(start, i));
            v.push(piece);
            proof {
                assert(spec_split(s@.take(i + 1), sep) == pre.push(Seq::<char>::empty()));
                assert(piece@ == pre.last());
                assert(str_views(v@) =~~= pre.drop_last().push(pre.last()));
                assert(pre.drop_last().push(pre.last()) =~~= pre);
                assert(pre.push(Seq::<char>::empty()).drop_last() =~~= pre);
                assert(s@.subrange(i + 1, i + 1) =~= spec_split(s@.take(i + 1), sep).last());
            }
            start = i + 1;
        } else {
            proof {
                let post = spec_split(s@.take(i + 1), sep);
                assert(post == pre.update(pre.len() - 1, pre.last().push(s@[i as int])));
                assert(post.drop_last() =~~= pre.drop_last());
                assert(s@.subrange(start as int, i + 1) =~= pre.last().push(s@[i as int]));
                assert(post.last() == pre.last().push(s@[i as int]));
            }
        }
        i = i + 1;
    }
    let piece = String::from_str(s.substring_char(start, n));
    v.push(piece);
    proof {
        assert(s@.take(n as int) =~= s@);
        let p = spec_split(s@, sep);
        assert(piece@ == p.last());
        assert(str_views(v@) =~~= p.drop_last().push(p.last()));
        assert(p.drop_last().push(p.last()) =~~= p);
    }
    v
}

/// `spec_split`, with a single trailing empty piece dropped, as the
/// standard terminator-style splitting behaves.
pub open spec fn spec_split_term(s: Seq<char>, sep: char) -> Seq<Seq<char>> {
    let p = spec_split(s, sep);
    if p.last().len() == 0 {
        p.drop_last()
    } else {
        p
    }
}

/// Splits `s` at every `sep`, dropping one trailing empty piece.
pub fn split_term_char(s: &str, sep: char) -> (v: Vec<String>)
    ensures
        str_views(v@) == spec_split_term(s@, sep),
{
    let mut v = split_char(s, sep);
    proof {
        lemma_split_len(s@, sep);
        assert(str_views(v@).len() == v@.len());
    }
    if v.len() > 0 && v[v.len() - 1].as_str().is_empty() {
        proof {
            assert(str_views(v@)[v@.len() - 1] == v@[v@.len() - 1]@);
        }
        v.pop();
        proof {
            assert(str_views(v@) =~~= spec_split(s@, sep).drop_last());
        }
    }
    v
}

/// `l` with one trailing carriage return removed, as line splitting
/// treats a `"\r\n"` terminator like a bare `"\n"`.
pub open spec fn spec_strip_cr(l: Seq<char>) -> Seq<char> {
    if l.len() > 0 && l.last() == '\r' {
        l.drop_last()
    } else {
        l
    }
}

/// The lines of `s`: pieces between newlines, one trailing empty line
/// dropped, and a trailing carriage return removed from each line.
pub open spec fn spec_lines(s: Seq<char>) -> Seq<Seq<char>> {
    spec_split_term(s, '\n').map_values(|l: Seq<char>| spec_strip_cr(l))
}

/// Splits `s` into its lines.
pub fn split_lines(s: &str) -> (v: Vec<String>)
    ensures
        str_views(v@) == spec_lines(s@),
{
    let raw = split_term_char(s, '\n');
    let mut v: Vec<String> = Vec::new();
    let mut i: usize = 0;
    proof {
        assert(str_views(v@) =~~= spec_lines(s@).take(0));
    }
    while i < raw.len()
        invariant
            str_views(raw@) == spec_split_term(s@, '\n'),
            0 <= i <= raw@.len(),
            spec_lines(s@).len() == raw@.len(),
            str_views(v@) == spec_lines(s@).take(i as int),
        decreases raw@.len() - i,
    {
        let line = &raw[i];
        let n = line.as_str().unicode_len();
        proof {
            assert(str_views(raw@)[i as int] == line@);
        }
        let stripped: String = if n > 0 && line.as_str().get_char(n - 1) == '\r' {
            line.as_str().substring_char(0, n - 1).to_owned()
        } else {
            line.as_str().to_owned()
        };
        proof {
            assert(stripped@ =~= spec_strip_cr(line@));
        }
        let ghost prev = str_views(v@);
        v.push(stripped);
        proof {
            assert(spec_lines(s@)[i as int] == spec_strip_cr(line@));
            assert(str_views(v@) =~~= prev.push(spec_strip_cr(line@)));
            assert(prev.push(spec_strip_cr(line@)) =~~= spec_lines(s@).take(i + 1));
        }
        i = i + 1;
    }
    proof {
        assert(spec_lines(s@).take(raw@.len() as int) =~= spec_lines(s@));
    }
    v
}

/// The subsequence of non-empty lines, in order.
pub open spec fn spec_nonempty_lines(ls: Seq<Seq<char>>) -> Seq<Seq<char>>
    decreases ls.len(),
{
    if ls.len() == 0 {
        Seq::empty()
    } else if ls.last().len() > 0 {
        spec_nonempty_lines(ls.drop_last()).push(ls.last())
    } else {
        spec_nonempty_lines(ls.drop_last())
    }
}

pub proof fn lemma_nonempty_lines_all_nonempty(ls: Seq<Seq<char>>)
    ensures
        forall|i: int|
            0 <= i < spec_nonempty_lines(ls).len() ==> #[trigger] spec_nonempty_lines(
                ls,
            )[i].len() > 0,
    decreases ls.len(),
{
    if ls.len() > 0 {
        lemma_nonempty_lines_all_nonempty(ls.drop_last());
        let q = spec_nonempty_lines(ls.drop_last());
        assert forall|i: int|
            0 <= i < spec_nonempty_lines(ls).len() implies #[trigger] spec_nonempty_lines(
            ls,
        )[i].len() > 0 by {
            if ls.last().len() > 0 {
                if i < q.len() {
                    assert(spec_nonempty_lines(ls)[i] == q[i]);
                } else {
                    assert(spec_nonempty_lines(ls)[i] == ls.last());
                }
            } else {
                assert(spec_nonempty_lines(ls)[i] == q[i]);
            }
        };
    }
}

/// Keeps the non-empty strings of `v`, in order.
pub fn filter_nonempty(v: &Vec<String>) -> (r: Vec<String>)
    ensures
        str_views(r@) == spec_nonempty_lines(str_views(v@)),
{
    let ghost all = str_views(v@);
    let mut r: Vec<String> = Vec::new();
    let mut i: usize = 0;
    proof {
        assert(all.take(0) =~~= Seq::<Seq<char>>::empty());
        assert(str_views(r@) =~~= spec_nonempty_lines(all.take(0)));
    }
    while i < v.len()
        invariant
            all == str_views(v@),
            0 <= i <= v@.len(),
            str_views(r@) == spec_nonempty_lines(all.take(i as int)),
        decreases v@.len() - i,
    {
        proof {
            assert(all.take(i + 1).drop_last() =~~= all.take(i as int));
            assert(all.take(i + 1).last() == all[i as int]);
            assert(all[i as int] == v@[i as int]@);
        }
        if !v[i].as_str().is_empty() {
            let kept = String::from_str(v[i].as_str());
            r.push(kept);
            proof {
                assert(str_views(r@) =~~= spec_nonempty_lines(all.take(i + 1)));
            }
        } else {
            proof {
                assert(str_views(r@) =~~= spec_nonempty_lines(all.take(i + 1)));
            }
        }
        i = i + 1;
    }
    proof {
        assert(all.take(v@.len() as int) =~= all);
    }
    r
}

/// The Unicode uppercase mapping of a character, which depends on the
/// character alone.
pub uninterp spec fn upper_of(c: char) -> Seq<char>;

/// Relies on `char::to_uppercase`: yields the uppercase mapping of the
/// character as one or more characters, a function of the character alone.
#[verifier::external_body]
pub(crate) fn uppercase_char(c: char) -> (r: String)
    ensures
        r@ == upper_of(c),
        r@.len() >= 1,
{
    c.to_uppercase().collect()
}

/// `s` with its first character replaced by that character's uppercase
/// mapping; the remaining characters are untouched.
pub open spec fn spec_capitalize(s: Seq<char>) -> Seq<char> {
    if s.len() == 0 {
        Seq::empty()
    } else {
        upper_of(s[0]) + s.skip(1)
    }
}

/// `s` regrouped for readability: a `'_'` after every four characters,
/// as long as at least four more follow.
pub open spec fn spec_underscored(s: Seq<char>) -> Seq<char>
    decreases s.len(),
{
    if s.len() < 8 {
        s
    } else {
        s.take(4) + seq!['_'] + spec_underscored(s.skip(4))
    }
}

/// Inserts a `'_'` separator after every full four-character group of
/// `line`, leaving the final group (of four to seven characters) bare.
pub fn underscored(line: &str) -> (r: String)
    ensures
        r@ == spec_underscored(line@),
    decreases line@.len(),
{
    let n = line.unicode_len();
    if n < 8 {
        String::from_str(line)
    } else {
        let mut r = String::from_str(line.substring_char(0, 4));
        r.append("_");
        let tail = underscored(line.substring_char(4, n));
        r.append(tail.as_str());
        proof {
            reveal_strlit("_");
            assert(line@.subrange(4, n as int) =~= line@.skip(4));
            assert(line@.subrange(0, 4) =~= line@.take(4));
            assert("_"@ =~= seq!['_']);
            assert(r@ =~= spec_underscored(line@));
        }
        r
    }
}

/// A non-empty string always splits into at least one piece, even under
/// terminator-style splitting.
pub proof fn lemma_split_term_nonempty(s: Seq<char>, sep: char)
    requires
        s.len() > 0,
    ensures
        spec_split_term(s, sep).len() >= 1,
    decreases s.len(),
{
    lemma_split_len(s, sep);
    let p = spec_split(s, sep);
    if p.last().len() == 0 {
        if s[0] == sep {
            lemma_split_len(s.drop_first(), sep);
        } else {
            let rest = spec_split(s.drop_first(), sep);
            lemma_split_len(s.drop_first(), sep);
            if p.len() == 1 {
                assert(p.last() == seq![s[0]] + rest[0]);
                assert(p.last().len() >= 1);
            }
        }
    }
}

} // verus!

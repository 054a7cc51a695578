//! Verified text utilities: trimming, line splitting and prefix tests over
//! `Seq<char>` views, shared by the free-text grouping and the record model.
use vstd::prelude::*;

verus! {

/// The whitespace characters that build output is trimmed by: the characters
/// with Unicode's White_Space property, the set the standard trim family
/// goes by.
pub open spec fn is_space(c: char) -> bool {
    ||| c == '\u{0009}'
    ||| c == '\u{000A}'
    ||| c == '\u{000B}'
    ||| c == '\u{000C}'
    ||| c == '\u{000D}'
    ||| c == '\u{0020}'
    ||| c == '\u{0085}'
    ||| c == '\u{00A0}'
    ||| c == '\u{1680}'
    ||| c == '\u{2000}'
    ||| c == '\u{2001}'
    ||| c == '\u{2002}'
    ||| c == '\u{2003}'
    ||| c == '\u{2004}'
    ||| c == '\u{2005}'
    ||| c == '\u{2006}'
    ||| c == '\u{2007}'
    ||| c == '\u{2008}'
    ||| c == '\u{2009}'
    ||| c == '\u{200A}'
    ||| c == '\u{2028}'
    ||| c == '\u{2029}'
    ||| c == '\u{202F}'
    ||| c == '\u{205F}'
    ||| c == '\u{3000}'
}

/// `s` without its leading whitespace.
pub open spec fn trim_front(s: Seq<char>) -> Seq<char>
    decreases s.len(),
{
    if s.len() > 0 && is_space(s[0]) {
        trim_front(s.drop_first())
    } else {
        s
    }
}

/// `s` without its trailing whitespace.
pub open spec fn trim_back(s: Seq<char>) -> Seq<char>
    decreases s.len(),
{
    if s.len() > 0 && is_space(s[s.len() - 1]) {
        trim_back(s.drop_last())
    } else {
        s
    }
}

/// `s` without leading and trailing whitespace.
pub open spec fn trimmed(s: Seq<char>) -> Seq<char> {
    trim_back(trim_front(s))
}

/// A line is blank when every character of it is whitespace.
pub open spec fn blank(l: Seq<char>) -> bool {
    forall|j: int| 0 <= j < l.len() ==> is_space(l[j])
}

/// `p` is a prefix of `s`.
pub open spec fn starts_with(s: Seq<char>, p: Seq<char>) -> bool {
    p.len() <= s.len() && forall|j: int| 0 <= j < p.len() ==> s[j] == p[j]
}

/// A line segment loses one trailing carriage return, so that a break
/// written `\r\n` leaves the same line as a bare `\n`.
pub open spec fn strip_cr(l: Seq<char>) -> Seq<char> {
    if l.len() > 0 && l[l.len() - 1] == '\r' { l.drop_last() } else { l }
}

/// The lines of `s`: segments split at `\n` or `\r\n`, with an optional
/// final break producing no empty last line.
pub open spec fn line_seq(s: Seq<char>) -> Seq<Seq<char>>
    decreases s.len(),
{
    if s.len() == 0 {
        seq![]
    } else if s[0] == '\n' {
        seq![Seq::<char>::empty()] + line_seq(s.drop_first())
    } else if s.len() >= 2 && s[0] == '\r' && s[1] == '\n' {
        seq![Seq::<char>::empty()] + line_seq(s.subrange(2, s.len() as int))
    } else {
        let rest = line_seq(s.drop_first());
        if rest.len() == 0 {
            seq![seq![s[0]]]
        } else {
            rest.update(0, seq![s[0]] + rest[0])
        }
    }
}

proof fn lemma_trim_front_at(s: Seq<char>, i: int)
    requires
        0 <= i <= s.len(),
        forall|j: int| 0 <= j < i ==> is_space(s[j]),
        i == s.len() || !is_space(s[i]),
    ensures
        trim_front(s) == s.subrange(i, s.len() as int),
    decreases i,
{
    if i == 0 {
        assert(s.subrange(0, s.len() as int) =~= s);
    } else {
        lemma_trim_front_at(s.drop_first(), i - 1);
        assert(s.drop_first().subrange(i - 1, s.drop_first().len() as int) =~= s.subrange(
            i,
            s.len() as int,
        ));
    }
}

proof fn lemma_trim_back_at(s: Seq<char>, i: int)
    requires
        0 <= i <= s.len(),
        forall|j: int| i <= j < s.len() ==> is_space(s[j]),
        i == 0 || !is_space(s[i - 1]),
    ensures
        trim_back(s) == s.subrange(0, i),
    decreases s.len() - i,
{
    if i == s.len() {
        assert(s.subrange(0, s.len() as int) =~= s);
    } else {
        lemma_trim_back_at(s.drop_last(), i);
        assert(s.drop_last().subrange(0, i) =~= s.subrange(0, i));
    }
}

/// Whether `c` counts as whitespace.
pub fn space(c: char) -> (b: bool)
    ensures
        b == is_space(c),
{
    c == '\u{0009}' || c == '\u{000A}' || c == '\u{000B}' || c == '\u{000C}' || c == '\u{000D}'
        || c == '\u{0020}' || c == '\u{0085}' || c == '\u{00A0}' || c == '\u{1680}'
        || c == '\u{2000}' || c == '\u{2001}' || c == '\u{2002}' || c == '\u{2003}'
        || c == '\u{2004}' || c == '\u{2005}' || c == '\u{2006}' || c == '\u{2007}'
        || c == '\u{2008}' || c == '\u{2009}' || c == '\u{200A}' || c == '\u{2028}'
        || c == '\u{2029}' || c == '\u{202F}' || c == '\u{205F}' || c == '\u{3000}'
}

/// `s` with leading and trailing whitespace removed.
pub fn trim_str<'a>(s: &'a str) -> (r: &'a str)
    ensures
        r@ == trimmed(s@),
{
    let n = s.unicode_len();
    let mut start: usize = 0;
    while start < n && space(s.get_char(start))
        invariant
            0 <= start <= n,
            n == s@.len(),
            forall|j: int| 0 <= j < start ==> is_space(s@[j]),
        decreases n - start,
    {
        start = start + 1;
    }
    let mut end: usize = n;
    while end > start && space(s.get_char(end - 1))
        invariant
            start <= end <= n,
            n == s@.len(),
            forall|j: int| end <= j < n ==> is_space(s@[j]),
        decreases end,
    {
        end = end - 1;
    }
    let r = s.substring_char(start, end);
    proof {
        lemma_trim_front_at(s@, start as int);
        let t = s@.subrange(start as int, n as int);
        lemma_trim_back_at(t, end - start);
        assert(t.subrange(0, end - start) =~= s@.subrange(start as int, end as int));
    }
    r
}

/// Whether every character of `l` is whitespace.
pub fn is_blank_str(l: &str) -> (b: bool)
    ensures
        b == blank(l@),
{
    let n = l.unicode_len();
    let mut j: usize = 0;
    while j < n
        invariant
            0 <= j <= n,
            n == l@.len(),
            forall|k: int| 0 <= k < j ==> is_space(l@[k]),
        decreases n - j,
    {
        if !space(l.get_char(j)) {
            return false;
        }
        j = j + 1;
    }
    true
}

/// Whether `p` is a prefix of `s`.
pub fn str_starts_with(s: &str, p: &str) -> (r: bool)
    ensures
        r == starts_with(s@, p@),
{
    let sn = s.unicode_len();
    let pn = p.unicode_len();
    if pn > sn {
        return false;
    }
    let mut j: usize = 0;
    while j < pn
        invariant
            0 <= j <= pn <= sn,
            sn == s@.len(),
            pn == p@.len(),
            forall|k: int| 0 <= k < j ==> s@[k] == p@[k],
        decreases pn - j,
    {
        if s.get_char(j) != p.get_char(j) {
            return false;
        }
        j = j + 1;
    }
    true
}

proof fn lemma_line_seq_no_break(s: Seq<char>)
    requires
        s.len() > 0,
        forall|j: int| 0 <= j < s.len() ==> s[j] != '\n',
    ensures
        line_seq(s) == seq![s],
    decreases s.len(),
{
    if s.len() == 1 {
        reveal_with_fuel(line_seq, 2);
        assert(seq![s[0]] =~= s);
        assert(line_seq(s) =~= seq![s]);
    } else {
        lemma_line_seq_no_break(s.drop_first());
        let rest = line_seq(s.drop_first());
        assert(rest == seq![s.drop_first()]);
        assert(rest[0] == s.drop_first());
        assert(seq![s[0]] + s.drop_first() =~= s);
        assert(line_seq(s) == rest.update(0, seq![s[0]] + rest[0]));
        assert(line_seq(s) =~= seq![s]);
    }
}

proof fn lemma_line_seq_first_break(s: Seq<char>, k: int)
    requires
        0 <= k < s.len(),
        s[k] == '\n',
        forall|j: int| 0 <= j < k ==> s[j] != '\n',
    ensures
        line_seq(s) == seq![strip_cr(s.subrange(0, k))] + line_seq(
            s.subrange(k + 1, s.len() as int),
        ),
    decreases s.len(),
{
    if k == 0 {
        assert(strip_cr(s.subrange(0, 0)) =~= Seq::<char>::empty());
        assert(s.drop_first() =~= s.subrange(1, s.len() as int));
        assert(line_seq(s) == seq![Seq::<char>::empty()] + line_seq(s.drop_first()));
    } else if k == 1 && s[0] == '\r' {
        assert(strip_cr(s.subrange(0, 1)) =~= Seq::<char>::empty());
        assert(line_seq(s) == seq![Seq::<char>::empty()] + line_seq(s.subrange(2, s.len() as int)));
    } else {
        let t = s.drop_first();
        lemma_line_seq_first_break(t, k - 1);
        assert(t.subrange(k, t.len() as int) =~= s.subrange(k + 1, s.len() as int));
        assert(t.subrange(0, k - 1) =~= s.subrange(1, k));
        let head = strip_cr(s.subrange(1, k));
        let rest = line_seq(s.subrange(k + 1, s.len() as int));
        assert(line_seq(t) == seq![head] + rest);
        assert(line_seq(t).len() == 1 + rest.len());
        assert(line_seq(t)[0] == head);
        assert(line_seq(s) == line_seq(t).update(0, seq![s[0]] + head));
        let full = line_seq(t).update(0, seq![s[0]] + head);
        assert(full =~= seq![seq![s[0]] + head] + rest);
        assert(seq![s[0]] + strip_cr(s.subrange(1, k)) =~= strip_cr(s.subrange(0, k)));
    }
}

/// The lines of `s`, each a slice of `s`, split at `\n` or `\r\n`.
pub fn split_lines<'a>(s: &'a str) -> (r: Vec<&'a str>)
    ensures
        r@.map_values(|l: &str| l@) == line_seq(s@),
{
    let n = s.unicode_len();
    let mut out: Vec<&'a str> = Vec::new();
    let mut seg_start: usize = 0;
    let mut i: usize = 0;
    proof {
        assert(out@.map_values(|l: &str| l@) =~= Seq::<Seq<char>>::empty());
        assert(s@.subrange(0, n as int) =~= s@);
        assert(Seq::<Seq<char>>::empty() + line_seq(s@) =~= line_seq(s@));
    }
    while i < n
        invariant
            0 <= seg_start <= i <= n,
            n == s@.len(),
            forall|j: int| seg_start <= j < i ==> s@[j] != '\n',
            out@.map_values(|l: &str| l@) + line_seq(s@.subrange(seg_start as int, n as int))
                == line_seq(s@),
        decreases n - i,
    {
        if s.get_char(i) == '\n' {
            let end = if i > seg_start && s.get_char(i - 1) == '\r' {
                i - 1
            } else {
                i
            };
            let seg = s.substring_char(seg_start, end);
            proof {
                let t = s@.subrange(seg_start as int, n as int);
                lemma_line_seq_first_break(t, i - seg_start);
                assert(t.subrange(0, i - seg_start) =~= s@.subrange(seg_start as int, i as int));
                assert(strip_cr(s@.subrange(seg_start as int, i as int)) =~= seg@);
                assert(t.subrange(i - seg_start + 1, t.len() as int) =~= s@.subrange(
                    i + 1,
                    n as int,
                ));
                assert(out@.push(seg).map_values(|l: &str| l@) =~= out@.map_values(|l: &str| l@)
                    + seq![seg@]);
                assert((out@.map_values(|l: &str| l@) + seq![seg@]) + line_seq(
                    s@.subrange(i + 1, n as int),
                ) =~= out@.map_values(|l: &str| l@) + (seq![seg@] + line_seq(
                    s@.subrange(i + 1, n as int),
                )));
            }
            out.push(seg);
            seg_start = i + 1;
        }
        i = i + 1;
    }
    if seg_start < n {
        let seg = s.substring_char(seg_start, n);
        proof {
            lemma_line_seq_no_break(s@.subrange(seg_start as int, n as int));
            assert(out@.push(seg).map_values(|l: &str| l@) =~= out@.map_values(|l: &str| l@)
                + seq![seg@]);
            assert(out@.map_values(|l: &str| l@) + seq![seg@] =~= line_seq(s@));
        }
        out.push(seg);
    } else {
        proof {
            assert(out@.map_values(|l: &str| l@) =~= line_seq(s@));
        }
    }
    out
}

} // verus!

//! Lines and white-space separated words of text, as the system's status
//! files and command outputs are read.

use crate::text::strings_view;
use vstd::prelude::*;

verus! {

/// Whether `c` is white space as `char::is_whitespace` counts it: a character
/// with the Unicode `White_Space` property.
pub open spec fn is_white(c: char) -> bool {
    let n = c as u32;
    ||| 0x09 <= n <= 0x0D
    ||| n == 0x20
    ||| n == 0x85
    ||| n == 0xA0
    ||| n == 0x1680
    ||| 0x2000 <= n <= 0x200A
    ||| n == 0x2028
    ||| n == 0x2029
    ||| n == 0x202F
    ||| n == 0x205F
    ||| n == 0x3000
}

/// Whether `c` is white space.
pub fn white(c: char) -> (b: bool)
    ensures
        b == is_white(c),
{
    let n = c as u32;
    (0x09 <= n && n <= 0x0D) || n == 0x20 || n == 0x85 || n == 0xA0 || n == 0x1680 || (0x2000 <= n
        && n <= 0x200A) || n == 0x2028 || n == 0x2029 || n == 0x202F || n == 0x205F || n == 0x3000
}

/// The maximal runs of characters other than white space, in order, as
/// `str::split_whitespace` gives them.
pub open spec fn words(s: Seq<char>) -> Seq<Seq<char>>
    decreases s.len(),
{
    if s.len() == 0 {
        Seq::empty()
    } else {
        let w = words(s.drop_last());
        let c = s.last();
        if is_white(c) {
            w
        } else if s.len() >= 2 && !is_white(s[s.len() - 2]) && w.len() > 0 {
            w.update(w.len() - 1, w.last().push(c))
        } else {
            w.push(seq![c])
        }
    }
}

/// The words of `s`, as `str::split_whitespace` gives them.
pub fn split_words(s: &str) -> (r: Vec<String>)
    ensures
        strings_view(r@) == words(s@),
{
    let n = s.unicode_len();
    let mut out: Vec<String> = Vec::new();
    let mut in_word = false;
    let mut start: usize = 0;
    let mut i: usize = 0;
    while i < n
        invariant
            n == s@.len(),
            0 <= i <= n,
            !in_word ==> strings_view(out@) == words(s@.take(i as int)),
            !in_word ==> (i == 0 || is_white(s@[i - 1])),
            in_word ==> start < i,
            in_word ==> strings_view(out@).push(s@.subrange(start as int, i as int)) == words(
                s@.take(i as int),
            ),
            in_word ==> forall|k: int| start <= k < i ==> !is_white(#[trigger] s@[k]),
        decreases n - i,
    {
        let c = s.get_char(i);
        let ghost t = s@.take(i + 1);
        assert(t.drop_last() =~= s@.take(i as int));
        assert(t.last() == c);
        if white(c) {
            if in_word {
                let piece = s.substring_char(start, i);
                let ghost before = out@;
                out.push(String::from_str(piece));
                assert(strings_view(out@) =~= strings_view(before).push(piece@)) by {
                    assert(out@ == before.push(out@.last()));
                }
                in_word = false;
            }
            assert(words(t) == words(s@.take(i as int)));
        } else {
            if in_word {
                assert(s@[i - 1] == t[t.len() - 2]);
                assert(!is_white(s@[i - 1]));
                assert(s@.subrange(start as int, i + 1) =~= s@.subrange(start as int, i as int).push(c));
                let ghost w = words(s@.take(i as int));
                assert(w.len() > 0);
                assert(words(t) == w.update(w.len() - 1, w.last().push(c)));
                assert(words(t) =~= strings_view(out@).push(s@.subrange(start as int, i + 1)));
            } else {
                if i > 0 {
                    assert(s@[i - 1] == t[t.len() - 2]);
                }
                assert(s@.subrange(i as int, i + 1) =~= seq![c]);
                assert(words(t) =~= strings_view(out@).push(s@.subrange(i as int, i + 1)));
                start = i;
                in_word = true;
            }
        }
        i = i + 1;
    }
    assert(s@.take(n as int) =~= s@);
    if in_word {
        let piece = s.substring_char(start, n);
        let ghost before = out@;
        out.push(String::from_str(piece));
        assert(strings_view(out@) =~= strings_view(before).push(piece@)) by {
            assert(out@ == before.push(out@.last()));
        }
    }
    out
}

/// The pieces of `s` between newline characters, as `str::split('\n')`
/// gives them.
pub open spec fn pieces(s: Seq<char>) -> Seq<Seq<char>>
    decreases s.len(),
{
    if s.len() == 0 {
        seq![Seq::empty()]
    } else {
        let p = pieces(s.drop_last());
        if s.last() == '\n' {
            p.push(Seq::empty())
        } else {
            p.update(p.len() - 1, p.last().push(s.last()))
        }
    }
}

/// A piece that a newline ended, without the carriage return before that
/// newline.
pub open spec fn without_cr(piece: Seq<char>) -> Seq<char> {
    if piece.len() > 0 && piece.last() == '\r' {
        piece.drop_last()
    } else {
        piece
    }
}

/// The lines of `s`, as `str::lines` gives them: the pieces between
/// newlines, each one that a newline ends without a carriage return before
/// that newline, and the piece after the last newline only when it is not
/// empty.
pub open spec fn lines(s: Seq<char>) -> Seq<Seq<char>> {
    let p = pieces(s);
    let ended = p.drop_last().map_values(|q: Seq<char>| without_cr(q));
    if p.last().len() == 0 {
        ended
    } else {
        ended.push(p.last())
    }
}

proof fn lemma_pieces_nonempty(s: Seq<char>)
    ensures
        pieces(s).len() > 0,
    decreases s.len(),
{
    if s.len() > 0 {
        lemma_pieces_nonempty(s.drop_last());
    }
}

/// The lines of `s`, as `str::lines` gives them.
pub fn split_lines(s: &str) -> (r: Vec<String>)
    ensures
        strings_view(r@) == lines(s@),
{
    let n = s.unicode_len();
    let mut out: Vec<String> = Vec::new();
    let ghost mut done: Seq<Seq<char>> = Seq::empty();
    let mut start: usize = 0;
    let mut i: usize = 0;
    assert(s@.take(0) =~= Seq::<char>::empty());
    assert(s@.subrange(0, 0) =~= Seq::<char>::empty());
    assert(pieces(s@.take(0)) =~= done.push(s@.subrange(0, 0)));
    assert(strings_view(out@) =~= done.map_values(|q: Seq<char>| without_cr(q)));
    while i < n
        invariant
            n == s@.len(),
            0 <= start <= i <= n,
            pieces(s@.take(i as int)) == done.push(s@.subrange(start as int, i as int)),
            strings_view(out@) == done.map_values(|q: Seq<char>| without_cr(q)),
        decreases n - i,
    {
        let c = s.get_char(i);
        let ghost t = s@.take(i + 1);
        assert(t.drop_last() =~= s@.take(i as int));
        assert(t.last() == c);
        proof {
            lemma_pieces_nonempty(s@.take(i as int));
        }
        if c == '\n' {
            let ghost piece = s@.subrange(start as int, i as int);
            let end = if i > start && s.get_char(i - 1) == '\r' {
                i - 1
            } else {
                i
            };
            assert(piece.len() > 0 ==> piece.last() == s@[i - 1]);
            let line = s.substring_char(start, end);
            assert(line@ =~= without_cr(piece));
            let ghost before = out@;
            out.push(String::from_str(line));
            proof {
                assert(out@ == before.push(out@.last()));
                let ghost old_done = done;
                done = done.push(piece);
                assert(strings_view(out@) =~= done.map_values(|q: Seq<char>| without_cr(q))) by {
                    assert(done.map_values(|q: Seq<char>| without_cr(q)) =~= old_done.map_values(
                        |q: Seq<char>| without_cr(q),
                    ).push(without_cr(piece)));
                }
                assert(s@.subrange(i + 1, i + 1) =~= Seq::<char>::empty());
                assert(pieces(t) =~= done.push(s@.subrange(i + 1, i + 1)));
            }
            start = i + 1;
        } else {
            assert(s@.subrange(start as int, i + 1) =~= s@.subrange(start as int, i as int).push(c));
            assert(pieces(t) =~= done.push(s@.subrange(start as int, i + 1)));
        }
        i = i + 1;
    }
    assert(s@.take(n as int) =~= s@);
    let ghost p = pieces(s@);
    assert(p.drop_last() =~= done);
    assert(p.last() == s@.subrange(start as int, n as int));
    if start < n {
        let last = s.substring_char(start, n);
        let ghost before = out@;
        out.push(String::from_str(last));
        assert(out@ == before.push(out@.last()));
        assert(strings_view(out@) =~= strings_view(before).push(last@));
    }
    out
}

/// Where `c` first occurs in `s`.
pub fn find_char(s: &str, c: char) -> (r: Option<usize>)
    ensures
        match r {
            Some(i) => i < s@.len() && s@.index_of_first(c) == Some(i as int),
            None => s@.index_of_first(c) is None,
        },
{
    let n = s.unicode_len();
    let mut i: usize = 0;
    proof {
        s@.index_of_first_ensures(c);
    }
    while i < n
        invariant
            n == s@.len(),
            0 <= i <= n,
            forall|j: int| 0 <= j < i ==> s@[j] != c,
            match s@.index_of_first(c) {
                Some(index) => {
                    &&& s@.contains(c)
                    &&& 0 <= index < s@.len()
                    &&& s@[index] == c
                    &&& forall|j: int| 0 <= j < index < s@.len() ==> s@[j] != c
                },
                None => !s@.contains(c),
            },
        decreases n - i,
    {
        if s.get_char(i) == c {
            assert(s@.contains(c));
            return Some(i);
        }
        i = i + 1;
    }
    assert(!s@.contains(c));
    None
}

/// Where `c` last occurs in `s`.
pub fn rfind_char(s: &str, c: char) -> (r: Option<usize>)
    ensures
        match r {
            Some(i) => i < s@.len() && s@.index_of_last(c) == Some(i as int),
            None => s@.index_of_last(c) is None,
        },
{
    let n = s.unicode_len();
    let mut i: usize = n;
    proof {
        s@.index_of_last_ensures(c);
    }
    while i > 0
        invariant
            n == s@.len(),
            0 <= i <= n,
            forall|j: int| i <= j < n ==> s@[j] != c,
            match s@.index_of_last(c) {
                Some(index) => {
                    &&& s@.contains(c)
                    &&& 0 <= index < s@.len()
                    &&& s@[index] == c
                    &&& forall|j: int| 0 <= index < j < s@.len() ==> s@[j] != c
                },
                None => !s@.contains(c),
            },
        decreases i,
    {
        if s.get_char(i - 1) == c {
            assert(s@.contains(c));
            return Some(i - 1);
        }
        i = i - 1;
    }
    assert(!s@.contains(c));
    None
}

/// `s` without the white space at its start.
pub open spec fn trim_start(s: Seq<char>) -> Seq<char>
    decreases s.len(),
{
    if s.len() > 0 && is_white(s[0]) {
        trim_start(s.drop_first())
    } else {
        s
    }
}

/// `s` without the white space at its end.
pub open spec fn trim_end(s: Seq<char>) -> Seq<char>
    decreases s.len(),
{
    if s.len() > 0 && is_white(s.last()) {
        trim_end(s.drop_last())
    } else {
        s
    }
}

/// `s` without the copies of `c` at its end, as `str::trim_end_matches`
/// gives it for one character.
pub open spec fn strip_end(s: Seq<char>, c: char) -> Seq<char>
    decreases s.len(),
{
    if s.len() > 0 && s.last() == c {
        strip_end(s.drop_last(), c)
    } else {
        s
    }
}

/// `s` without white space at either end, as `str::trim` gives it.
pub open spec fn trim(s: Seq<char>) -> Seq<char> {
    trim_end(trim_start(s))
}

/// The index where `trim_start` starts in `s`.
fn start_of_text(s: &str) -> (i: usize)
    ensures
        i <= s@.len(),
        trim_start(s@) == s@.skip(i as int),
{
    let n = s.unicode_len();
    let mut i: usize = 0;
    assert(s@.skip(0) =~= s@);
    while i < n && white(s.get_char(i))
        invariant
            n == s@.len(),
            0 <= i <= n,
            trim_start(s@) == trim_start(s@.skip(i as int)),
        decreases n - i,
    {
        assert(s@.skip(i as int).drop_first() =~= s@.skip(i + 1));
        i = i + 1;
    }
    proof {
        if i < n {
            assert(s@.skip(i as int)[0] == s@[i as int]);
        }
    }
    i
}

/// Whether the character before `j` goes: it is `c`, or white space when
/// `c` is `None`.
fn strippable(s: &str, j: usize, c: Option<char>) -> (b: bool)
    requires
        0 < j <= s@.len(),
    ensures
        b == match c {
            Some(c) => s@[j - 1] == c,
            None => is_white(s@[j - 1]),
        },
{
    match c {
        Some(ch) => s.get_char(j - 1) == ch,
        None => white(s.get_char(j - 1)),
    }
}

/// The index where `strip_end(.., c)`, or `trim_end` when `c` is `None`,
/// ends in `s[..end]`.
fn end_of_text(s: &str, end: usize, c: Option<char>) -> (j: usize)
    requires
        end <= s@.len(),
    ensures
        j <= end,
        match c {
            Some(c) => strip_end(s@.take(end as int), c) == s@.take(j as int),
            None => trim_end(s@.take(end as int)) == s@.take(j as int),
        },
{
    let mut j: usize = end;
    while j > 0 && strippable(s, j, c)
        invariant
            end <= s@.len(),
            0 <= j <= end,
            match c {
                Some(c) => strip_end(s@.take(end as int), c) == strip_end(s@.take(j as int), c),
                None => trim_end(s@.take(end as int)) == trim_end(s@.take(j as int)),
            },
        decreases j,
    {
        assert(s@.take(j as int).drop_last() =~= s@.take(j - 1));
        assert(s@.take(j as int).last() == s@[j - 1]);
        j = j - 1;
    }
    proof {
        if j > 0 {
            assert(s@.take(j as int).last() == s@[j - 1]);
        }
    }
    j
}

/// `s` without white space at either end.
pub fn trim_str(s: &str) -> (r: String)
    ensures
        r@ == trim(s@),
{
    let a = start_of_text(s);
    let rest = s.substring_char(a, s.unicode_len());
    assert(rest@ =~= s@.skip(a as int));
    let b = end_of_text(&rest, rest.unicode_len(), None);
    assert(rest@.take(rest@.len() as int) =~= rest@);
    let r = rest.substring_char(0, b);
    assert(r@ =~= rest@.take(b as int));
    String::from_str(r)
}

/// `s` without the copies of `c` at its end.
pub fn strip_end_str(s: &str, c: char) -> (r: String)
    ensures
        r@ == strip_end(s@, c),
{
    let b = end_of_text(s, s.unicode_len(), Some(c));
    assert(s@.take(s@.len() as int) =~= s@);
    let r = s.substring_char(0, b);
    assert(r@ =~= s@.take(b as int));
    String::from_str(r)
}

/// Where `sub` first occurs in `s`, as `str::find` tells (counted in
/// characters).
pub open spec fn first_occurrence(s: Seq<char>, sub: Seq<char>) -> Option<nat>
    decreases s.len(),
{
    if sub.len() <= s.len() && s.subrange(0, sub.len() as int) == sub {
        Some(0)
    } else if s.len() == 0 {
        None
    } else {
        match first_occurrence(s.drop_first(), sub) {
            Some(i) => Some(i + 1),
            None => None,
        }
    }
}

/// Where `sub` first occurs in `s`.
pub fn find_str(s: &str, sub: &str) -> (r: Option<usize>)
    ensures
        match r {
            Some(i) => i + sub@.len() <= s@.len() && first_occurrence(s@, sub@) == Some(i as nat),
            None => first_occurrence(s@, sub@) is None,
        },
{
    let n = s.unicode_len();
    let m = sub.unicode_len();
    let mut i: usize = 0;
    assert(s@.skip(0) =~= s@);
    loop
        invariant
            n == s@.len(),
            m == sub@.len(),
            0 <= i <= n,
            first_occurrence(s@, sub@) == match first_occurrence(s@.skip(i as int), sub@) {
                Some(k) => Some((k + i) as nat),
                None => None::<nat>,
            },
        decreases n - i,
    {
        let ghost t = s@.skip(i as int);
        if m <= n - i && crate::text::occurs_at(s, sub, i) {
            assert(t.subrange(0, m as int) =~= s@.subrange(i as int, i + m));
            return Some(i);
        }
        assert(!(m <= t.len() && t.subrange(0, m as int) == sub@)) by {
            if m <= t.len() {
                assert(t.subrange(0, m as int) =~= s@.subrange(i as int, i + m));
            }
        }
        if i == n {
            assert(t.len() == 0);
            return None;
        }
        assert(t.drop_first() =~= s@.skip(i + 1));
        i = i + 1;
    }
}

} // verus!

//! Character-level text handling for control-file contents and configuration
//! text: lines, prefixes, trimming and words.
//!
//! Every function works on the characters of a string (`Seq<char>` in
//! contracts, `Vec<char>` in code), so that what a contract says of a text is
//! what holds of the string it came from.

use vstd::prelude::*;
use vstd::string::*;

verus! {

/// The characters of `s`, in order.
pub fn to_chars(s: &str) -> (v: Vec<char>)
    ensures
        v@ == s@,
{
    broadcast use vstd::string::group_string_axioms;

    let mut v: Vec<char> = Vec::new();
    let chars = s.chars();
    for c in it: chars
        invariant
            it.seq() == s@,
            v@ == it.seq().take(it.index()),
    {
        v.push(c);
    }
    v
}

/// A copy of `v[from..to]`.
pub fn slice(v: &Vec<char>, from: usize, to: usize) -> (r: Vec<char>)
    requires
        from <= to <= v.len(),
    ensures
        r@ == v@.subrange(from as int, to as int),
{
    let mut r: Vec<char> = Vec::new();
    let mut i: usize = from;
    while i < to
        invariant
            from <= i <= to <= v.len(),
            r@ == v@.subrange(from as int, i as int),
        decreases to - i,
    {
        r.push(v[i]);
        i += 1;
    }
    r
}

/// Whether two character sequences are the same text.
pub fn chars_eq(a: &Vec<char>, b: &Vec<char>) -> (r: bool)
    ensures
        r == (a@ == b@),
{
    if a.len() != b.len() {
        return false;
    }
    let mut i: usize = 0;
    while i < a.len()
        invariant
            i <= a.len() == b.len(),
            a@.take(i as int) == b@.take(i as int),
        decreases a.len() - i,
    {
        if a[i] != b[i] {
            return false;
        }
        assert(a@.take(i + 1) == a@.take(i as int).push(a@[i as int]));
        assert(b@.take(i + 1) == b@.take(i as int).push(b@[i as int]));
        i += 1;
    }
    assert(a@ == a@.take(a.len() as int));
    assert(b@ == b@.take(b.len() as int));
    true
}

/// Whether two string slices hold the same text.
pub fn str_eq(a: &str, b: &str) -> (r: bool)
    ensures
        r == (a@ == b@),
{
    a.to_owned() == b.to_owned()
}

/// `p` is the beginning of `s`.
pub open spec fn starts_with(s: Seq<char>, p: Seq<char>) -> bool {
    p.len() <= s.len() && s.subrange(0, p.len() as int) == p
}

/// `p` is the end of `s`.
pub open spec fn ends_with(s: Seq<char>, p: Seq<char>) -> bool {
    p.len() <= s.len() && s.subrange(s.len() - p.len(), s.len() as int) == p
}

/// `n` occurs in `h` at offset `at`.
pub open spec fn occurs_at(h: Seq<char>, n: Seq<char>, at: int) -> bool {
    0 <= at && at + n.len() <= h.len() && h.subrange(at, at + n.len()) == n
}

/// `n` occurs somewhere in `h`. The empty text occurs in every text.
pub open spec fn contains(h: Seq<char>, n: Seq<char>) -> bool {
    exists|at: int| occurs_at(h, n, at)
}

/// Whether `n` stands in `h` at offset `at`.
pub fn has_at(h: &Vec<char>, n: &Vec<char>, at: usize) -> (r: bool)
    ensures
        r == occurs_at(h@, n@, at as int),
{
    if n.len() > h.len() || at > h.len() - n.len() {
        return false;
    }
    let mut i: usize = 0;
    while i < n.len()
        invariant
            i <= n.len(),
            at + n.len() <= h.len(),
            h@.subrange(at as int, at + i) == n@.take(i as int),
        decreases n.len() - i,
    {
        if h[at + i] != n[i] {
            assert(h@.subrange(at as int, at + n.len())[i as int] != n@[i as int]);
            return false;
        }
        assert(h@.subrange(at as int, at + i + 1) == h@.subrange(at as int, at + i).push(
            h@[at + i],
        ));
        assert(n@.take(i + 1) == n@.take(i as int).push(n@[i as int]));
        i += 1;
    }
    assert(n@ == n@.take(n.len() as int));
    true
}

/// Whether `s` begins with `p`.
pub fn begins_with(s: &Vec<char>, p: &Vec<char>) -> (r: bool)
    ensures
        r == starts_with(s@, p@),
{
    has_at(s, p, 0)
}

/// Whether `s` ends with `p`.
pub fn finishes_with(s: &Vec<char>, p: &Vec<char>) -> (r: bool)
    ensures
        r == ends_with(s@, p@),
{
    if p.len() > s.len() {
        return false;
    }
    has_at(s, p, s.len() - p.len())
}

/// Whether `n` occurs in `h`.
pub fn has(h: &Vec<char>, n: &Vec<char>) -> (r: bool)
    ensures
        r == contains(h@, n@),
{
    if n.len() > h.len() {
        assert(forall|at: int| !occurs_at(h@, n@, at));
        return false;
    }
    let last: usize = h.len() - n.len();
    let mut at: usize = 0;
    while at < last
        invariant
            at <= last,
            last == h.len() - n.len(),
            forall|k: int| 0 <= k < at ==> !occurs_at(h@, n@, k),
        decreases last - at,
    {
        if has_at(h, n, at) {
            return true;
        }
        at += 1;
    }
    let r = has_at(h, n, last);
    assert(!r ==> forall|k: int| !occurs_at(h@, n@, k));
    r
}

/// `s` without the characters equal to `c`.
pub open spec fn without(s: Seq<char>, c: char) -> Seq<char>
    decreases s.len(),
{
    if s.len() == 0 {
        s
    } else if s.last() == c {
        without(s.drop_last(), c)
    } else {
        without(s.drop_last(), c).push(s.last())
    }
}

/// A copy of `s` that leaves out every `c`.
pub fn remove_char(s: &Vec<char>, c: char) -> (r: Vec<char>)
    ensures
        r@ == without(s@, c),
{
    let mut r: Vec<char> = Vec::new();
    let mut i: usize = 0;
    proof {
        assert(s@.take(0) =~= Seq::<char>::empty());
    }
    while i < s.len()
        invariant
            i <= s.len(),
            r@ == without(s@.take(i as int), c),
        decreases s.len() - i,
    {
        proof {
            let next = s@.take(i + 1);
            assert(next.drop_last() =~= s@.take(i as int));
        }
        if s[i] != c {
            r.push(s[i]);
        }
        i += 1;
    }
    assert(s@.take(s.len() as int) =~= s@);
    r
}

/// The offset of the first `c` in `s`, or the length of `s` where there is
/// none.
pub open spec fn first_of(s: Seq<char>, c: char) -> nat
    decreases s.len(),
{
    if s.len() == 0 || s[0] == c {
        0
    } else {
        1 + first_of(s.skip(1), c)
    }
}

/// `n` is where the first `c` of `s` stands, or the length of `s`.
spec fn is_first_of(s: Seq<char>, c: char, n: int) -> bool {
    &&& 0 <= n <= s.len()
    &&& forall|k: int| 0 <= k < n ==> s[k] != c
    &&& n < s.len() ==> s[n] == c
}

proof fn lemma_first_of(s: Seq<char>, c: char, n: int)
    requires
        is_first_of(s, c, n),
    ensures
        first_of(s, c) == n,
    decreases n,
{
    if n > 0 {
        let t = s.skip(1);
        assert forall|k: int| 0 <= k < n - 1 implies t[k] != c by {
            assert(t[k] == s[k + 1]);
        }
        lemma_first_of(t, c, n - 1);
    }
}

/// The offset of the first `c` at or after `from`, or the length of `s`.
pub fn find_char(s: &Vec<char>, from: usize, c: char) -> (r: usize)
    requires
        from <= s.len(),
    ensures
        r == from + first_of(s@.skip(from as int), c),
        from <= r <= s.len(),
{
    let mut i: usize = from;
    while i < s.len() && s[i] != c
        invariant
            from <= i <= s.len(),
            forall|k: int| from <= k < i ==> s@[k] != c,
        decreases s.len() - i,
    {
        i += 1;
    }
    proof {
        lemma_first_of(s@.skip(from as int), c, i - from);
    }
    i
}

/// A line without the carriage return that may end it.
pub open spec fn strip_cr(l: Seq<char>) -> Seq<char> {
    if l.len() > 0 && l.last() == '\r' {
        l.drop_last()
    } else {
        l
    }
}

/// The lines of a text. A line ends at a line feed; a carriage return just
/// before that line feed belongs to the line ending. The last line needs no
/// line ending, and is then kept as it stands. The empty text has no line.
pub open spec fn lines(s: Seq<char>) -> Seq<Seq<char>>
    decreases s.len(),
{
    if s.len() == 0 {
        Seq::empty()
    } else {
        let n = first_of(s, '\n');
        if n < s.len() {
            seq![strip_cr(s.take(n as int))] + lines(s.skip(n as int + 1))
        } else {
            seq![s]
        }
    }
}

/// The texts that a vector of character vectors holds.
pub open spec fn views(v: Seq<Vec<char>>) -> Seq<Seq<char>> {
    Seq::new(v.len(), |i: int| v[i]@)
}

/// Splits a text into its lines.
pub fn split_lines(text: &Vec<char>) -> (out: Vec<Vec<char>>)
    ensures
        views(out@) == lines(text@),
{
    let mut out: Vec<Vec<char>> = Vec::new();
    let mut pos: usize = 0;
    let n: usize = text.len();
    proof {
        assert(text@.skip(0) =~= text@);
        assert(views(out@) =~= Seq::<Seq<char>>::empty());
    }
    while pos < n
        invariant
            pos <= n == text.len(),
            lines(text@) == views(out@) + lines(text@.skip(pos as int)),
        decreases n - pos,
    {
        let end: usize = find_char(text, pos, '\n');
        let ghost rest = text@.skip(pos as int);
        let ghost before = views(out@);
        if end < n {
            let mut stop: usize = end;
            if stop > pos && text[stop - 1] == '\r' {
                stop -= 1;
            }
            let line = slice(text, pos, stop);
            proof {
                assert(rest.take(end - pos) =~= text@.subrange(pos as int, end as int));
                assert(line@ =~= strip_cr(rest.take(end - pos)));
                assert(rest.skip(end - pos + 1) =~= text@.skip(end + 1));
            }
            out.push(line);
            pos = end + 1;
        } else {
            let line = slice(text, pos, n);
            proof {
                assert(line@ =~= rest);
                assert(text@.skip(n as int) =~= Seq::<char>::empty());
                assert(lines(Seq::<char>::empty()) =~= Seq::<Seq<char>>::empty());
            }
            out.push(line);
            pos = n;
        }
        proof {
            assert(views(out@) =~= before.push(out@.last()@));
        }
    }
    proof {
        assert(text@.skip(n as int) =~= Seq::<char>::empty());
    }
    out
}

/// Whether a line has `pat` at its end (`at_end`) or at its beginning.
pub open spec fn line_matches(l: Seq<char>, pat: Seq<char>, at_end: bool) -> bool {
    if at_end {
        ends_with(l, pat)
    } else {
        starts_with(l, pat)
    }
}

/// The index of the first line at or after `from` that matches `pat`.
pub open spec fn first_line(ls: Seq<Seq<char>>, from: int, pat: Seq<char>, at_end: bool) -> Option<
    int,
>
    decreases ls.len() - from,
{
    if from < 0 || from >= ls.len() {
        None
    } else if line_matches(ls[from], pat, at_end) {
        Some(from)
    } else {
        first_line(ls, from + 1, pat, at_end)
    }
}

/// Finds the first line at or after `from` that ends (`at_end`) or begins
/// with `pat`.
pub fn find_line(ls: &Vec<Vec<char>>, from: usize, pat: &Vec<char>, at_end: bool) -> (r: Option<
    usize,
>)
    ensures
        r.is_some() == first_line(views(ls@), from as int, pat@, at_end).is_some(),
        r matches Some(i) ==> first_line(views(ls@), from as int, pat@, at_end) == Some(i as int)
            && from <= i < ls.len(),
{
    let mut i: usize = from;
    while i < ls.len()
        invariant
            from <= i,
            first_line(views(ls@), from as int, pat@, at_end) == first_line(
                views(ls@),
                i as int,
                pat@,
                at_end,
            ),
        decreases ls.len() - i,
    {
        assert(views(ls@)[i as int] == ls@[i as int]@);
        let hit = if at_end {
            finishes_with(&ls[i], pat)
        } else {
            begins_with(&ls[i], pat)
        };
        if hit {
            return Some(i);
        }
        i += 1;
    }
    None
}

/// `s` after every leading repetition of `pat` is taken away. An empty `pat`
/// takes nothing away.
pub open spec fn trim_start_matches(s: Seq<char>, pat: Seq<char>) -> Seq<char>
    decreases s.len(),
{
    if pat.len() > 0 && starts_with(s, pat) {
        trim_start_matches(s.skip(pat.len() as int), pat)
    } else {
        s
    }
}

/// Takes every leading repetition of `pat` away from `s`.
pub fn strip_leading(s: &Vec<char>, pat: &Vec<char>) -> (r: Vec<char>)
    ensures
        r@ == trim_start_matches(s@, pat@),
{
    let mut pos: usize = 0;
    proof {
        assert(s@.skip(0) =~= s@);
    }
    if pat.len() > 0 {
        while has_at(s, pat, pos)
            invariant
                pos <= s.len(),
                pat.len() > 0,
                trim_start_matches(s@, pat@) == trim_start_matches(s@.skip(pos as int), pat@),
            decreases s.len() - pos,
        {
            proof {
                let rest = s@.skip(pos as int);
                assert(rest.subrange(0, pat.len() as int) =~= s@.subrange(
                    pos as int,
                    pos + pat.len(),
                ));
                assert(rest.skip(pat.len() as int) =~= s@.skip(pos + pat.len()));
            }
            pos += pat.len();
        }
        proof {
            let rest = s@.skip(pos as int);
            if pat.len() <= rest.len() {
                assert(rest.subrange(0, pat.len() as int) =~= s@.subrange(
                    pos as int,
                    pos + pat.len(),
                ));
            }
        }
    }
    let r = slice(s, pos, s.len());
    assert(r@ =~= s@.skip(pos as int));
    r
}

/// White space, as Unicode's property `White_Space` has it.
pub open spec fn is_whitespace(c: char) -> bool {
    let n = c as u32;
    ||| 0x09 <= n <= 0x0D
    ||| n == 0x20
    ||| n == 0x85
    ||| n == 0xA0
    ||| n == 0x1680
    ||| 0x2000 <= n <= 0x200A
    ||| n == 0x2028
    ||| n == 0x2029
    ||| n == 0x202F
    ||| n == 0x205F
    ||| n == 0x3000
}

/// Whether `c` is white space.
pub fn char_is_whitespace(c: char) -> (r: bool)
    ensures
        r == is_whitespace(c),
{
    let n: u32 = c as u32;
    (0x09 <= n && n <= 0x0D) || n == 0x20 || n == 0x85 || n == 0xA0 || n == 0x1680 || (0x2000 <= n
        && n <= 0x200A) || n == 0x2028 || n == 0x2029 || n == 0x202F || n == 0x205F || n == 0x3000
}

/// The number of characters at the beginning of `s` that are white space
/// (`white`) or are not.
pub open spec fn run_len(s: Seq<char>, white: bool) -> nat
    decreases s.len(),
{
    if s.len() == 0 || is_whitespace(s[0]) != white {
        0
    } else {
        1 + run_len(s.skip(1), white)
    }
}

/// `s` without the white space that ends it.
pub open spec fn trim_end(s: Seq<char>) -> Seq<char>
    decreases s.len(),
{
    if s.len() > 0 && is_whitespace(s.last()) {
        trim_end(s.drop_last())
    } else {
        s
    }
}

/// Takes the white space at the end of `s` away.
pub fn strip_trailing_whitespace(s: &Vec<char>) -> (r: Vec<char>)
    ensures
        r@ == trim_end(s@),
{
    let mut end: usize = s.len();
    proof {
        assert(s@.take(end as int) =~= s@);
    }
    while end > 0 && char_is_whitespace(s[end - 1])
        invariant
            end <= s.len(),
            trim_end(s@) == trim_end(s@.take(end as int)),
        decreases end,
    {
        proof {
            assert(s@.take(end as int).drop_last() =~= s@.take(end - 1));
        }
        end -= 1;
    }
    let r = slice(s, 0, end);
    assert(r@ =~= s@.take(end as int));
    r
}

proof fn lemma_run_len_bound(s: Seq<char>, white: bool)
    ensures
        run_len(s, white) <= s.len(),
    decreases s.len(),
{
    if s.len() == 0 || is_whitespace(s[0]) != white {
    } else {
        lemma_run_len_bound(s.skip(1), white);
    }
}

/// The words of a text: the longest runs of characters that are not white
/// space, in order.
pub open spec fn words(s: Seq<char>) -> Seq<Seq<char>>
    decreases s.len(),
    via words_decreases
{
    let gap = run_len(s, true);
    let rest = s.skip(gap as int);
    let len = run_len(rest, false);
    if len == 0 {
        Seq::empty()
    } else {
        seq![rest.take(len as int)] + words(rest.skip(len as int))
    }
}

#[via_fn]
proof fn words_decreases(s: Seq<char>) {
    lemma_run_len_bound(s, true);
    lemma_run_len_bound(s.skip(run_len(s, true) as int), false);
}

/// `n` characters of one kind begin `s`, and the next one is of the other
/// kind.
spec fn is_run(s: Seq<char>, white: bool, n: int) -> bool {
    &&& 0 <= n <= s.len()
    &&& forall|k: int| 0 <= k < n ==> is_whitespace(s[k]) == white
    &&& n < s.len() ==> is_whitespace(s[n]) != white
}

proof fn lemma_run_len(s: Seq<char>, white: bool, n: int)
    requires
        is_run(s, white, n),
    ensures
        run_len(s, white) == n,
    decreases n,
{
    if n > 0 {
        let t = s.skip(1);
        assert forall|k: int| 0 <= k < n - 1 implies is_whitespace(t[k]) == white by {
            assert(t[k] == s[k + 1]);
        }
        lemma_run_len(t, white, n - 1);
    }
}

/// The end of the run of white space (`white`), or of other characters, that
/// begins at `from`.
pub fn run_end(s: &Vec<char>, from: usize, white: bool) -> (r: usize)
    requires
        from <= s.len(),
    ensures
        r == from + run_len(s@.skip(from as int), white),
        from <= r <= s.len(),
{
    let mut i: usize = from;
    while i < s.len() && char_is_whitespace(s[i]) == white
        invariant
            from <= i <= s.len(),
            forall|k: int| from <= k < i ==> is_whitespace(s@[k]) == white,
        decreases s.len() - i,
    {
        i += 1;
    }
    proof {
        lemma_run_len(s@.skip(from as int), white, i - from);
    }
    i
}

/// Splits a text into its words.
pub fn split_words(s: &Vec<char>) -> (out: Vec<Vec<char>>)
    ensures
        views(out@) == words(s@),
{
    let mut out: Vec<Vec<char>> = Vec::new();
    let mut pos: usize = 0;
    let n: usize = s.len();
    proof {
        assert(s@.skip(0) =~= s@);
        assert(views(out@) =~= Seq::<Seq<char>>::empty());
    }
    loop
        invariant
            pos <= n == s.len(),
            words(s@) == views(out@) + words(s@.skip(pos as int)),
        ensures
            words(s@) == views(out@),
        decreases n - pos,
    {
        let start: usize = run_end(s, pos, true);
        let end: usize = run_end(s, start, false);
        let ghost before = views(out@);
        proof {
            assert(s@.skip(pos as int).skip(start - pos) =~= s@.skip(start as int));
        }
        if end == start {
            break;
        }
        let word = slice(s, start, end);
        proof {
            let rest = s@.skip(start as int);
            assert(word@ =~= rest.take(end - start));
            assert(rest.skip(end - start) =~= s@.skip(end as int));
        }
        out.push(word);
        pos = end;
        proof {
            assert(views(out@) =~= before.push(out@.last()@));
        }
    }
    out
}

/// The number of bytes that `c` takes in UTF-8.
pub open spec fn utf8_width(c: char) -> nat {
    let n = c as u32;
    if n < 0x80 {
        1
    } else if n < 0x800 {
        2
    } else if n < 0x10000 {
        3
    } else {
        4
    }
}

/// The number of bytes that `s` takes in UTF-8.
pub open spec fn utf8_len(s: Seq<char>) -> nat
    decreases s.len(),
{
    if s.len() == 0 {
        0
    } else {
        utf8_len(s.drop_last()) + utf8_width(s.last())
    }
}

/// `s` without its last `n` bytes of UTF-8, where `s` has that many and the
/// cut falls between two characters.
pub open spec fn drop_last_bytes(s: Seq<char>, n: nat) -> Option<Seq<char>>
    decreases s.len(),
{
    if n == 0 {
        Some(s)
    } else if s.len() == 0 || utf8_width(s.last()) > n {
        None
    } else {
        drop_last_bytes(s.drop_last(), (n - utf8_width(s.last())) as nat)
    }
}

/// The number of bytes that `c` takes in UTF-8.
pub fn char_width(c: char) -> (r: usize)
    ensures
        r == utf8_width(c),
        1 <= r <= 4,
{
    let n: u32 = c as u32;
    if n < 0x80 {
        1
    } else if n < 0x800 {
        2
    } else if n < 0x10000 {
        3
    } else {
        4
    }
}

/// Cuts the last `n` bytes of UTF-8 off `s`.
pub fn cut_last_bytes(s: &Vec<char>, n: usize) -> (r: Option<Vec<char>>)
    ensures
        r.is_some() == drop_last_bytes(s@, n as nat).is_some(),
        r matches Some(v) ==> drop_last_bytes(s@, n as nat) == Some(v@),
{
    let mut end: usize = s.len();
    let mut left: usize = n;
    proof {
        assert(s@.take(end as int) =~= s@);
    }
    while left > 0
        invariant
            end <= s.len(),
            drop_last_bytes(s@, n as nat) == drop_last_bytes(s@.take(end as int), left as nat),
        decreases left,
    {
        if end == 0 {
            return None;
        }
        let w: usize = char_width(s[end - 1]);
        if w > left {
            return None;
        }
        proof {
            assert(s@.take(end as int).drop_last() =~= s@.take(end - 1));
        }
        left -= w;
        end -= 1;
    }
    let r = slice(s, 0, end);
    assert(r@ =~= s@.take(end as int));
    Some(r)
}

} // verus!

//! Character-level text handling: Unicode white space, trimming and splitting.

use vstd::prelude::*;
use vstd::string::*;

verus! {

/// The Unicode `White_Space` property, which `char::is_whitespace` tests.
pub open spec fn is_white_space(c: char) -> bool {
    let u = c as u32;
    ||| 0x9 <= u <= 0xd
    ||| u == 0x20
    ||| u == 0x85
    ||| u == 0xa0
    ||| u == 0x1680
    ||| 0x2000 <= u <= 0x200a
    ||| u == 0x2028
    ||| u == 0x2029
    ||| u == 0x202f
    ||| u == 0x205f
    ||| u == 0x3000
}

/// `s` without its leading white space.
pub open spec fn trim_start(s: Seq<char>) -> Seq<char>
    decreases s.len(),
{
    if s.len() > 0 && is_white_space(s[0]) {
        trim_start(s.drop_first())
    } else {
        s
    }
}

/// `s` without its trailing white space.
pub open spec fn trim_end(s: Seq<char>) -> Seq<char>
    decreases s.len(),
{
    if s.len() > 0 && is_white_space(s.last()) {
        trim_end(s.drop_last())
    } else {
        s
    }
}

/// `s` without white space at either end, as `str::trim` gives it.
pub open spec fn trimmed(s: Seq<char>) -> Seq<char> {
    trim_end(trim_start(s))
}

/// The pieces of `s` between occurrences of `sep`, in order, as `str::split`
/// with a `char` pattern yields them: `n` separators give `n + 1` pieces, some
/// of which may be empty.
pub open spec fn split_on(s: Seq<char>, sep: char) -> Seq<Seq<char>>
    decreases s.len(),
{
    if s.len() == 0 {
        seq![Seq::<char>::empty()]
    } else {
        let init = split_on(s.drop_last(), sep);
        if s.last() == sep {
            init.push(Seq::<char>::empty())
        } else {
            init.update(init.len() - 1, init.last().push(s.last()))
        }
    }
}

/// The views of a vector of strings.
pub open spec fn string_views(v: Seq<String>) -> Seq<Seq<char>> {
    v.map_values(|x: String| x@)
}

/// Splitting always yields at least one piece.
pub proof fn lemma_split_nonempty(s: Seq<char>, sep: char)
    ensures
        split_on(s, sep).len() >= 1,
    decreases s.len(),
{
    if s.len() > 0 {
        lemma_split_nonempty(s.drop_last(), sep);
    }
}

/// No piece of a split holds the separator.
pub proof fn lemma_split_pieces_lack_sep(s: Seq<char>, sep: char)
    ensures
        forall|i: int|
            0 <= i < split_on(s, sep).len() ==> !(#[trigger] split_on(s, sep)[i]).contains(sep),
    decreases s.len(),
{
    if s.len() > 0 {
        let init = split_on(s.drop_last(), sep);
        lemma_split_nonempty(s.drop_last(), sep);
        lemma_split_pieces_lack_sep(s.drop_last(), sep);
        if s.last() != sep {
            let last = init.last().push(s.last());
            assert forall|j: int| 0 <= j < last.len() implies last[j] != sep by {
                if j < init.last().len() {
                    assert(last[j] == init.last()[j]);
                    assert(init[init.len() - 1] == init.last());
                }
            }
        }
    }
}

/// `pieces` written one after another with `sep` between them, as
/// `[T]::join` with a one-character separator writes them.
pub open spec fn join_with(pieces: Seq<Seq<char>>, sep: char) -> Seq<char>
    decreases pieces.len(),
{
    if pieces.len() == 0 {
        Seq::<char>::empty()
    } else if pieces.len() == 1 {
        pieces[0]
    } else {
        join_with(pieces.drop_last(), sep).push(sep) + pieces.last()
    }
}

/// Text without the separator splits into itself alone.
pub proof fn lemma_split_without_sep(w: Seq<char>, sep: char)
    requires
        !w.contains(sep),
    ensures
        split_on(w, sep) == seq![w],
    decreases w.len(),
{
    if w.len() == 0 {
        assert(w =~= Seq::<char>::empty());
    } else {
        let init = w.drop_last();
        assert(!init.contains(sep)) by {
            if init.contains(sep) {
                let k = choose|k: int| 0 <= k < init.len() && init[k] == sep;
                assert(w[k] == sep);
            }
        }
        lemma_split_without_sep(init, sep);
        assert(w.last() != sep) by {
            assert(w[w.len() - 1] == w.last());
        }
        assert(init.push(w.last()) =~= w);
        assert(seq![init].update(0, init.push(w.last())) =~= seq![w]);
    }
}

/// Splitting text that ends in a separator and separator-free `w` gives the
/// pieces before the separator, then `w`.
pub proof fn lemma_split_after_sep(s: Seq<char>, w: Seq<char>, sep: char)
    requires
        !w.contains(sep),
    ensures
        split_on(s.push(sep) + w, sep) == split_on(s, sep).push(w),
    decreases w.len(),
{
    let t = s.push(sep) + w;
    if w.len() == 0 {
        assert(t =~= s.push(sep));
        assert(t.drop_last() =~= s);
        assert(w =~= Seq::<char>::empty());
    } else {
        let init = w.drop_last();
        assert(!init.contains(sep)) by {
            if init.contains(sep) {
                let k = choose|k: int| 0 <= k < init.len() && init[k] == sep;
                assert(w[k] == sep);
            }
        }
        lemma_split_after_sep(s, init, sep);
        assert(t.drop_last() =~= s.push(sep) + init);
        assert(t.last() == w.last());
        assert(w.last() != sep) by {
            assert(w[w.len() - 1] == w.last());
        }
        let before = split_on(s, sep).push(init);
        assert(init.push(w.last()) =~= w);
        assert(before.update(before.len() - 1, before.last().push(w.last())) =~= split_on(s, sep).push(w));
    }
}

/// Splitting pieces that were joined with a separator they do not hold gives
/// the pieces back.
pub proof fn lemma_split_join(pieces: Seq<Seq<char>>, sep: char)
    requires
        pieces.len() >= 1,
        forall|i: int| 0 <= i < pieces.len() ==> !(#[trigger] pieces[i]).contains(sep),
    ensures
        split_on(join_with(pieces, sep), sep) == pieces,
    decreases pieces.len(),
{
    if pieces.len() == 1 {
        lemma_split_without_sep(pieces[0], sep);
        assert(seq![pieces[0]] =~= pieces);
    } else {
        let init = pieces.drop_last();
        assert forall|i: int| 0 <= i < init.len() implies !(#[trigger] init[i]).contains(sep) by {
            assert(init[i] == pieces[i]);
        }
        lemma_split_join(init, sep);
        assert(!pieces.last().contains(sep)) by {
            assert(pieces[pieces.len() - 1] == pieces.last());
        }
        lemma_split_after_sep(join_with(init, sep), pieces.last(), sep);
        assert(init.push(pieces.last()) =~= pieces);
    }
}

/// Trimming takes a contiguous part of its input.
pub proof fn lemma_trimmed_bounds(s: Seq<char>) -> (r: (int, int))
    ensures
        0 <= r.0 <= r.1 <= s.len(),
        trimmed(s) == s.subrange(r.0, r.1),
        r.0 < r.1 ==> !is_white_space(s[r.0]),
        r.0 < r.1 ==> !is_white_space(s[r.1 - 1]),
{
    let a = lemma_trim_start_bounds(s);
    let t = s.subrange(a, s.len() as int);
    let b = lemma_trim_end_bounds(t);
    assert(t.subrange(0, b) =~= s.subrange(a, a + b));
    if b > 0 {
        assert(t[b - 1] == s[a + b - 1]);
    }
    (a, a + b)
}

proof fn lemma_trim_start_bounds(s: Seq<char>) -> (a: int)
    ensures
        0 <= a <= s.len(),
        trim_start(s) == s.subrange(a, s.len() as int),
        a < s.len() ==> !is_white_space(s[a]),
    decreases s.len(),
{
    if s.len() > 0 && is_white_space(s[0]) {
        let a = lemma_trim_start_bounds(s.drop_first());
        assert(s.drop_first().subrange(a, s.len() - 1) =~= s.subrange(a + 1, s.len() as int));
        a + 1
    } else {
        assert(s.subrange(0, s.len() as int) =~= s);
        0
    }
}

proof fn lemma_trim_end_bounds(s: Seq<char>) -> (b: int)
    ensures
        0 <= b <= s.len(),
        trim_end(s) == s.subrange(0, b),
        b > 0 ==> !is_white_space(s[b - 1]),
    decreases s.len(),
{
    if s.len() > 0 && is_white_space(s.last()) {
        let b = lemma_trim_end_bounds(s.drop_last());
        assert(s.drop_last().subrange(0, b) =~= s.subrange(0, b));
        b
    } else {
        assert(s.subrange(0, s.len() as int) =~= s);
        s.len() as int
    }
}

/// Trimming twice is trimming once.
pub proof fn lemma_trimmed_idempotent(s: Seq<char>)
    ensures
        trimmed(trimmed(s)) == trimmed(s),
{
    let (a, b) = lemma_trimmed_bounds(s);
    let t = trimmed(s);
    if t.len() > 0 {
        assert(t[0] == s[a]);
        assert(t.last() == s[b - 1]);
        assert(trim_start(t) == t);
        assert(trim_end(t) == t);
    }
}

/// Tests a character for the `White_Space` property.
pub fn char_is_white_space(c: char) -> (b: bool)
    ensures
        b == is_white_space(c),
{
    let u = c as u32;
    (0x9 <= u && u <= 0xd) || u == 0x20 || u == 0x85 || u == 0xa0 || u == 0x1680 || (0x2000 <= u
        && u <= 0x200a) || u == 0x2028 || u == 0x2029 || u == 0x202f || u == 0x205f || u == 0x3000
}

/// The characters of `s`, in order.
pub fn chars_of(s: &str) -> (v: Vec<char>)
    ensures
        v@ == s@,
{
    let n = s.unicode_len();
    let mut v: Vec<char> = Vec::new();
    let mut i: usize = 0;
    while i < n
        invariant
            n == s@.len(),
            i <= n,
            v@ == s@.take(i as int),
        decreases n - i,
    {
        v.push(s.get_char(i));
        i += 1;
        assert(v@ =~= s@.take(i as int));
    }
    assert(v@ =~= s@);
    v
}

/// `s` without leading and trailing white space (`str::trim`).
pub fn trim(s: &str) -> (r: String)
    ensures
        r@ == trimmed(s@),
{
    let chars = chars_of(s);
    let n = chars.len();
    let mut a: usize = 0;
    assert(s@.subrange(0, n as int) =~= s@);
    while a < n && char_is_white_space(chars[a])
        invariant
            n == s@.len(),
            chars@ == s@,
            a <= n,
            trim_start(s@) == trim_start(s@.subrange(a as int, n as int)),
        decreases n - a,
    {
        assert(s@.subrange(a as int, n as int).drop_first() =~= s@.subrange(a + 1, n as int));
        a += 1;
    }
    assert(trim_start(s@) == s@.subrange(a as int, n as int));
    let mut b: usize = n;
    while b > a && char_is_white_space(chars[b - 1])
        invariant
            n == s@.len(),
            chars@ == s@,
            a <= b <= n,
            trimmed(s@) == trim_end(s@.subrange(a as int, b as int)),
        decreases b - a,
    {
        assert(s@.subrange(a as int, b as int).drop_last() =~= s@.subrange(a as int, b - 1));
        b -= 1;
    }
    String::from_str(s.substring_char(a, b))
}

/// The pieces of `s` between occurrences of `sep` (`str::split`).
pub fn split_on_char(s: &str, sep: char) -> (r: Vec<String>)
    ensures
        string_views(r@) == split_on(s@, sep),
{
    let chars = chars_of(s);
    let n = chars.len();
    let mut pieces: Vec<String> = Vec::new();
    let mut start: usize = 0;
    let mut i: usize = 0;
    assert(s@.take(0) =~= Seq::<char>::empty());
    assert(s@.subrange(0, 0) =~= Seq::<char>::empty());
    assert(string_views(pieces@) =~= Seq::<Seq<char>>::empty());
    assert(string_views(pieces@).push(s@.subrange(0, 0)) =~= split_on(s@.take(0), sep));
    while i < n
        invariant
            n == s@.len(),
            chars@ == s@,
            start <= i <= n,
            string_views(pieces@).push(s@.subrange(start as int, i as int)) == split_on(
                s@.take(i as int),
                sep,
            ),
        decreases n - i,
    {
        let ghost before = string_views(pieces@);
        assert(s@.take(i + 1).drop_last() =~= s@.take(i as int));
        assert(s@.take(i + 1).last() == s@[i as int]);
        if chars[i] == sep {
            pieces.push(String::from_str(s.substring_char(start, i)));
            assert(string_views(pieces@) =~= before.push(s@.subrange(start as int, i as int)));
            start = i + 1;
            assert(s@.subrange(start as int, start as int) =~= Seq::<char>::empty());
        } else {
            assert(s@.subrange(start as int, i + 1) =~= s@.subrange(start as int, i as int).push(
                s@[i as int],
            ));
        }
        i += 1;
        assert(string_views(pieces@).push(s@.subrange(start as int, i as int)) =~= split_on(
            s@.take(i as int),
            sep,
        ));
    }
    let ghost before = string_views(pieces@);
    pieces.push(String::from_str(s.substring_char(start, n)));
    assert(string_views(pieces@) =~= before.push(s@.subrange(start as int, n as int)));
    assert(s@.take(n as int) =~= s@);
    pieces
}

} // verus!

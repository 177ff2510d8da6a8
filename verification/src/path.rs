//! File system paths held as strings, joined and inspected the way
//! `std::path` does it on each platform.
//!
//! A path is a string of characters. On Unix `/` separates components; on
//! Windows both `\` and `/` do, and `\` is written between joined components.
//! On Unix a part that starts with `/` replaces whatever it is joined to.
//!
//! On Windows a path may begin with a prefix, as `std` parses it: a drive
//! (`C:`); a network share (`\\server\share`, both names non-empty); a
//! device (`\\.\COM1`); or a verbatim prefix (`\\?\name`, `\\?\C:`,
//! `\\?\UNC\server\share`), in which only `\` separates components and `.`
//! is a component of its own. A part with a prefix replaces the base; a part
//! that starts with a separator keeps only the base's prefix; nothing is
//! written between a bare drive (`C:`) and the part. Joining to a verbatim
//! path rebuilds it from its components, as `std` does: the part's `.`
//! components are dropped and each `..` removes the normal component before
//! it. The last component is looked for after the prefix.

use vstd::prelude::*;
use vstd::string::*;

use crate::text::{chars_of, join_with};

verus! {

/// The operating system family whose path rules apply.
#[derive(Clone, Copy, Debug, PartialEq, Eq, Structural)]
pub enum Platform {
    Unix,
    Windows,
}

/// Whether `c` separates path components on `p`.
pub open spec fn is_separator(p: Platform, c: char) -> bool {
    c == '/' || (p == Platform::Windows && c == '\\')
}

/// Whether `c` separates components in a path that is verbatim or not:
/// in verbatim paths only `\` does.
pub open spec fn is_component_separator(p: Platform, verbatim: bool, c: char) -> bool {
    if verbatim {
        c == '\\'
    } else {
        is_separator(p, c)
    }
}

/// The separator written between joined components on `p`.
pub open spec fn main_separator(p: Platform) -> char {
    match p {
        Platform::Unix => '/',
        Platform::Windows => '\\',
    }
}

/// An ASCII letter, as a Windows drive is named.
pub open spec fn is_drive_letter(c: char) -> bool {
    let u = c as u32;
    (0x41 <= u <= 0x5a) || (0x61 <= u <= 0x7a)
}

/// Whether `s` starts with a drive such as `C:`.
pub open spec fn has_drive(s: Seq<char>) -> bool {
    s.len() >= 2 && s[1] == ':' && is_drive_letter(s[0])
}

/// Where the component that starts at `i` ends: the first component
/// separator at or after `i`, or the end of `s`.
pub open spec fn component_end(p: Platform, verbatim: bool, s: Seq<char>, i: int) -> int
    decreases s.len() - i,
{
    if i < 0 || i >= s.len() {
        s.len() as int
    } else if is_component_separator(p, verbatim, s[i]) {
        i
    } else {
        component_end(p, verbatim, s, i + 1)
    }
}

/// Whether `s` starts with two separators, as network, device and verbatim
/// prefixes do on Windows.
pub open spec fn starts_with_two_separators(p: Platform, s: Seq<char>) -> bool {
    p == Platform::Windows && s.len() >= 2 && is_separator(p, s[0]) && is_separator(p, s[1])
}

/// Whether `s` is a verbatim path: it starts with `\\?\`, written with
/// backslashes.
pub open spec fn is_verbatim(p: Platform, s: Seq<char>) -> bool {
    p == Platform::Windows && s.len() >= 4 && s[0] == '\\' && s[1] == '\\' && s[2] == '?' && s[3]
        == '\\'
}

/// Whether `s` starts with `\\?\UNC\`.
pub open spec fn is_verbatim_unc(p: Platform, s: Seq<char>) -> bool {
    is_verbatim(p, s) && s.len() >= 8 && s[4] == 'U' && s[5] == 'N' && s[6] == 'C' && is_separator(
        p,
        s[7],
    )
}

/// Whether `s` starts with a verbatim drive such as `\\?\C:`, followed by
/// `\` or nothing.
pub open spec fn is_verbatim_disk(p: Platform, s: Seq<char>) -> bool {
    is_verbatim(p, s) && s.len() >= 6 && s[5] == ':' && is_drive_letter(s[4]) && (s.len() == 6
        || s[6] == '\\')
}

/// Whether `s` starts with a device prefix such as `\\.\`.
pub open spec fn is_device(p: Platform, s: Seq<char>) -> bool {
    starts_with_two_separators(p, s) && s.len() >= 4 && s[2] == '.' && is_separator(p, s[3])
}

/// Where a prefix of two names from `start` ends: after the first name, and
/// after the second one when that is not empty.
pub open spec fn two_part_end(p: Platform, verbatim: bool, s: Seq<char>, start: int) -> int {
    let first = component_end(p, verbatim, s, start);
    if first < s.len() {
        let second = component_end(p, verbatim, s, first + 1);
        if second > first + 1 {
            second
        } else {
            first
        }
    } else {
        first
    }
}

/// The length of the prefix of `s` on `p`, zero when it has none.
pub open spec fn prefix_len(p: Platform, s: Seq<char>) -> int {
    match p {
        Platform::Unix => 0,
        Platform::Windows => {
            if starts_with_two_separators(p, s) {
                if is_verbatim(p, s) {
                    if is_verbatim_unc(p, s) {
                        two_part_end(p, true, s, 8)
                    } else if is_verbatim_disk(p, s) {
                        6
                    } else {
                        component_end(p, true, s, 4)
                    }
                } else if is_device(p, s) {
                    component_end(p, false, s, 4)
                } else {
                    let server = component_end(p, false, s, 2);
                    if server > 2 && server < s.len() && component_end(p, false, s, server + 1)
                        > server + 1 {
                        component_end(p, false, s, server + 1)
                    } else {
                        0
                    }
                }
            } else if has_drive(s) {
                2
            } else {
                0
            }
        },
    }
}

/// Whether `s` starts with a separator.
pub open spec fn starts_with_separator(p: Platform, s: Seq<char>) -> bool {
    s.len() > 0 && is_separator(p, s[0])
}

/// Whether `s` replaces any path it is joined to: on Unix an absolute path,
/// on Windows a path with a prefix.
pub open spec fn is_rooted(p: Platform, s: Seq<char>) -> bool {
    ||| p == Platform::Unix && starts_with_separator(p, s)
    ||| prefix_len(p, s) > 0
}

/// Whether `s` is a bare Windows drive such as `C:`.
pub open spec fn is_bare_drive(p: Platform, s: Seq<char>) -> bool {
    p == Platform::Windows && s.len() == 2 && has_drive(s)
}

/// The pieces of `s` between component separators, as `split_on` gives them
/// for one separator.
pub open spec fn split_components(p: Platform, verbatim: bool, s: Seq<char>) -> Seq<Seq<char>>
    decreases s.len(),
{
    if s.len() == 0 {
        seq![Seq::<char>::empty()]
    } else {
        let init = split_components(p, verbatim, s.drop_last());
        if is_component_separator(p, verbatim, s.last()) {
            init.push(Seq::<char>::empty())
        } else {
            init.update(init.len() - 1, init.last().push(s.last()))
        }
    }
}

/// Whether a piece stands for a component: it is not empty, and, where
/// `.` components are dropped, it is not `.`.
pub open spec fn keeps_piece(x: Seq<char>, skip_dots: bool) -> bool {
    x.len() > 0 && !(skip_dots && x == seq!['.'])
}

/// The pieces that stand for components, in order.
pub open spec fn kept_pieces(pieces: Seq<Seq<char>>, skip_dots: bool) -> Seq<Seq<char>>
    decreases pieces.len(),
{
    if pieces.len() == 0 {
        Seq::<Seq<char>>::empty()
    } else {
        let init = kept_pieces(pieces.drop_last(), skip_dots);
        if keeps_piece(pieces.last(), skip_dots) {
            init.push(pieces.last())
        } else {
            init
        }
    }
}

/// The components of `s`, a path without prefix and root, as text.
pub open spec fn components_of(p: Platform, verbatim: bool, skip_dots: bool, s: Seq<char>) -> Seq<Seq<char>> {
    kept_pieces(split_components(p, verbatim, s), skip_dots)
}

/// Whether a component is a normal one, not `.` or `..`.
pub open spec fn is_normal_text(x: Seq<char>) -> bool {
    x != seq!['.'] && x != seq!['.', '.']
}

/// `body` after the components `pieces` are pushed onto it as joining to a
/// verbatim path does: `..` removes a normal component before it, and is
/// otherwise dropped.
pub open spec fn apply_pieces(body: Seq<Seq<char>>, pieces: Seq<Seq<char>>) -> Seq<Seq<char>>
    decreases pieces.len(),
{
    if pieces.len() == 0 {
        body
    } else {
        let before = apply_pieces(body, pieces.drop_last());
        if pieces.last() == seq!['.', '.'] {
            if before.len() > 0 && is_normal_text(before.last()) {
                before.drop_last()
            } else {
                before
            }
        } else {
            before.push(pieces.last())
        }
    }
}

/// `part` joined to the verbatim path `base`: the path is rebuilt from the
/// base's prefix, root and components with the part's components applied.
pub open spec fn verbatim_join(p: Platform, base: Seq<char>, part: Seq<char>) -> Seq<char> {
    let pl = prefix_len(p, base);
    let after = base.skip(pl);
    let base_root = starts_with_separator(p, after);
    let base_body = components_of(
        p,
        true,
        false,
        if base_root {
            after.skip(1)
        } else {
            after
        },
    );
    let part_root = starts_with_separator(p, part);
    let part_body = components_of(
        p,
        false,
        true,
        if part_root {
            part.skip(1)
        } else {
            part
        },
    );
    let body = apply_pieces(
        if part_root {
            Seq::<Seq<char>>::empty()
        } else {
            base_body
        },
        part_body,
    );
    base.take(pl) + (if base_root || part_root || body.len() > 0 {
        seq!['\\']
    } else {
        Seq::<char>::empty()
    }) + join_with(body, '\\')
}

/// `base` joined with `part` (`Path::join`): a rooted `part` replaces
/// `base`; joining to a verbatim path rebuilds it; a `part` that starts with
/// a separator keeps only the prefix of `base`; otherwise a separator is put
/// between the two unless `base` is empty, ends in one, or is a bare drive.
pub open spec fn join_path(p: Platform, base: Seq<char>, part: Seq<char>) -> Seq<char> {
    if is_rooted(p, part) {
        part
    } else if is_verbatim(p, base) && part.len() > 0 {
        verbatim_join(p, base, part)
    } else if starts_with_separator(p, part) {
        base.take(prefix_len(p, base)) + part
    } else if base.len() == 0 || is_separator(p, base.last()) || is_bare_drive(p, base) {
        base + part
    } else {
        base.push(main_separator(p)) + part
    }
}

/// A single normal component: not empty, not `.` or `..`, free of separators
/// and without a prefix.
pub open spec fn is_plain_name(p: Platform, name: Seq<char>) -> bool {
    &&& name.len() > 0
    &&& name != seq!['.']
    &&& name != seq!['.', '.']
    &&& forall|k: int| 0 <= k < name.len() ==> !is_separator(p, #[trigger] name[k])
    &&& !is_rooted(p, name)
}

/// The characters after the last component separator of `s`.
pub open spec fn trailing_segment(p: Platform, verbatim: bool, s: Seq<char>) -> Seq<char>
    decreases s.len(),
{
    if s.len() == 0 || is_component_separator(p, verbatim, s.last()) {
        Seq::<char>::empty()
    } else {
        trailing_segment(p, verbatim, s.drop_last()).push(s.last())
    }
}

/// The last component of `s`, a path without prefix: trailing separators are
/// passed over, and so are `.` components unless the path is verbatim.
/// Empty when `s` has none.
pub open spec fn last_component_in(p: Platform, verbatim: bool, s: Seq<char>) -> Seq<char>
    decreases s.len(),
{
    if s.len() == 0 {
        Seq::<char>::empty()
    } else if is_component_separator(p, verbatim, s.last()) {
        last_component_in(p, verbatim, s.drop_last())
    } else if !verbatim && trailing_segment(p, verbatim, s) == seq!['.'] {
        last_component_in(p, verbatim, s.drop_last())
    } else {
        trailing_segment(p, verbatim, s)
    }
}

/// The last component of `s` after its prefix, as `Path::components` yields
/// it. Empty when there is none.
pub open spec fn last_component(p: Platform, s: Seq<char>) -> Seq<char> {
    last_component_in(p, is_verbatim(p, s), s.skip(prefix_len(p, s)))
}

/// Whether the last component of `s` is `name` (`Path::ends_with` with a
/// single normal component as its argument).
pub open spec fn ends_with_component(p: Platform, s: Seq<char>, name: Seq<char>) -> bool {
    name.len() > 0 && last_component(p, s) == name
}

/// Appending separator-free text `w` to a path that is empty or ends in a
/// separator makes `w` its trailing segment.
pub proof fn lemma_trailing_segment_append(p: Platform, verbatim: bool, y: Seq<char>, w: Seq<char>)
    requires
        y.len() == 0 || is_component_separator(p, verbatim, y.last()),
        forall|k: int| 0 <= k < w.len() ==> !is_component_separator(p, verbatim, #[trigger] w[k]),
    ensures
        trailing_segment(p, verbatim, y + w) == w,
    decreases w.len(),
{
    if w.len() == 0 {
        assert(y + w =~= y);
    } else {
        let init = w.drop_last();
        assert forall|k: int| 0 <= k < init.len() implies !is_component_separator(
            p,
            verbatim,
            #[trigger] init[k],
        ) by {
            assert(init[k] == w[k]);
        }
        lemma_trailing_segment_append(p, verbatim, y, init);
        assert((y + w).drop_last() =~= y + init);
        assert((y + w).last() == w.last());
        assert(init.push(w.last()) =~= w);
    }
}

/// Text without component separators splits into itself alone.
pub proof fn lemma_split_components_single(p: Platform, verbatim: bool, w: Seq<char>)
    requires
        forall|k: int| 0 <= k < w.len() ==> !is_component_separator(p, verbatim, #[trigger] w[k]),
    ensures
        split_components(p, verbatim, w) == seq![w],
    decreases w.len(),
{
    if w.len() == 0 {
        assert(w =~= Seq::<char>::empty());
    } else {
        let init = w.drop_last();
        assert forall|k: int| 0 <= k < init.len() implies !is_component_separator(
            p,
            verbatim,
            #[trigger] init[k],
        ) by {
            assert(init[k] == w[k]);
        }
        lemma_split_components_single(p, verbatim, init);
        assert(!is_component_separator(p, verbatim, w.last())) by {
            assert(w[w.len() - 1] == w.last());
        }
        assert(init.push(w.last()) =~= w);
        assert(seq![init].update(0, init.push(w.last())) =~= seq![w]);
    }
}

/// A plain name is one component of its own.
pub proof fn lemma_plain_name_components(p: Platform, name: Seq<char>)
    requires
        is_plain_name(p, name),
    ensures
        components_of(p, false, true, name) == seq![name],
        !starts_with_separator(p, name),
{
    lemma_split_components_single(p, false, name);
    let pieces = seq![name];
    assert(split_components(p, false, name) == pieces);
    assert(pieces.drop_last() =~= Seq::<Seq<char>>::empty());
    assert(kept_pieces(Seq::<Seq<char>>::empty(), true) == Seq::<Seq<char>>::empty());
    assert(kept_pieces(pieces.drop_last(), true) == Seq::<Seq<char>>::empty());
    assert(pieces.last() == name);
    assert(keeps_piece(name, true));
    assert(Seq::<Seq<char>>::empty().push(name) =~= seq![name]);
    assert(kept_pieces(pieces, true) == seq![name]);
    assert(!is_separator(p, name[0]));
}

/// Lengthening a plain name by separator-free text lengthens the joined path
/// by the same text.
pub proof fn lemma_join_extend_name(p: Platform, base: Seq<char>, name: Seq<char>, ext: Seq<char>)
    requires
        is_plain_name(p, name),
        is_plain_name(p, name + ext),
    ensures
        join_path(p, base, name + ext) == join_path(p, base, name) + ext,
{
    let long = name + ext;
    lemma_plain_name_components(p, name);
    lemma_plain_name_components(p, long);
    if is_verbatim(p, base) {
        let pl = prefix_len(p, base);
        let after = base.skip(pl);
        let base_root = starts_with_separator(p, after);
        let base_body = components_of(
            p,
            true,
            false,
            if base_root {
                after.skip(1)
            } else {
                after
            },
        );
        assert(seq![name].drop_last() =~= Seq::<Seq<char>>::empty());
        assert(seq![long].drop_last() =~= Seq::<Seq<char>>::empty());
        assert(seq![name].last() == name);
        assert(seq![long].last() == long);
        assert(name != seq!['.', '.']);
        assert(long != seq!['.', '.']);
        assert(apply_pieces(base_body, Seq::<Seq<char>>::empty()) == base_body);
        assert(apply_pieces(base_body, seq![name].drop_last()) == base_body);
        assert(apply_pieces(base_body, seq![long].drop_last()) == base_body);
        let short_body = apply_pieces(base_body, seq![name]);
        let long_body = apply_pieces(base_body, seq![long]);
        assert(short_body == base_body.push(name));
        assert(long_body == base_body.push(long));
        assert(short_body.drop_last() =~= base_body);
        assert(long_body.drop_last() =~= base_body);
        let head = base.take(pl) + seq!['\\'];
        if base_body.len() == 0 {
            assert(short_body =~= seq![name]);
            assert(long_body =~= seq![long]);
            assert(join_with(short_body, '\\') == name);
            assert(join_with(long_body, '\\') == long);
            assert(head + long =~= (head + name) + ext);
        } else {
            let j = join_with(base_body, '\\').push('\\');
            assert(join_with(short_body, '\\') == j + name);
            assert(join_with(long_body, '\\') == j + long);
            assert(head + (j + long) =~= (head + (j + name)) + ext);
        }
    } else if base.len() == 0 || is_separator(p, base.last()) || is_bare_drive(p, base) {
        assert(base + long =~= (base + name) + ext);
    } else {
        assert(base.push(main_separator(p)) + long =~= (base.push(main_separator(p)) + name) + ext);
    }
}

/// Joining a plain name to a path without a network, device or verbatim
/// prefix gives a path whose last component is that name.
pub proof fn lemma_join_ends_with_name(p: Platform, base: Seq<char>, name: Seq<char>)
    requires
        is_plain_name(p, name),
        !starts_with_two_separators(p, base),
    ensures
        ends_with_component(p, join_path(p, base, name), name),
{
    let sep = main_separator(p);
    let kept = base.len() == 0 || is_separator(p, base.last()) || is_bare_drive(p, base);
    let b2 = if kept {
        base
    } else {
        base.push(sep)
    };
    let j = b2 + name;
    assert(!is_separator(p, name[0]));
    assert(!is_verbatim(p, base));
    assert(join_path(p, base, name) == j);
    assert(b2.len() > 0 && !is_bare_drive(p, b2) ==> is_separator(p, b2.last())) by {
        if !kept {
            assert(b2.last() == sep);
        }
    }
    assert(forall|k: int| 0 <= k < b2.len() ==> j[k] == b2[k]);
    assert(forall|k: int| b2.len() <= k < j.len() ==> j[k] == name[k - b2.len()]);
    assert(!starts_with_two_separators(p, j)) by {
        if p == Platform::Windows && b2.len() >= 2 {
            if base.len() >= 2 {
                assert(b2[0] == base[0] && b2[1] == base[1]);
            } else if base.len() == 1 {
                assert(b2[0] == base[0]);
                assert(!kept);
            }
        } else if b2.len() == 1 {
            assert(j[1] == name[0]);
        } else if b2.len() == 0 {
            assert(j[0] == name[0]);
        }
    }
    assert(!is_verbatim(p, j));
    let pl = prefix_len(p, j);
    if p == Platform::Windows && has_drive(j) {
        if b2.len() == 0 {
            assert(j =~= name);
            assert(prefix_len(p, name) == 2);
        } else if b2.len() == 1 {
            assert(is_separator(p, b2[0]));
            assert(j[0] == b2[0]);
        }
    }
    assert(0 <= pl <= b2.len());
    let y = b2.skip(pl);
    assert(j.skip(pl) =~= y + name);
    assert(y.len() == 0 || is_separator(p, y.last())) by {
        if y.len() > 0 {
            assert(y.last() == b2.last());
            if is_bare_drive(p, b2) {
                assert(pl == 2);
            }
        }
    }
    lemma_trailing_segment_append(p, false, y, name);
    let rest = y + name;
    assert(rest.last() == name.last());
    assert(!is_separator(p, name[name.len() - 1]));
    assert(last_component_in(p, false, rest) == name);
}

/// `base` as a path that a component can be written after: unchanged when it
/// is empty, ends in a separator or is a bare drive, else with the main
/// separator appended.
pub open spec fn with_separator(p: Platform, base: Seq<char>) -> Seq<char> {
    if base.len() == 0 || is_separator(p, base.last()) || is_bare_drive(p, base) {
        base
    } else {
        base.push(main_separator(p))
    }
}

/// Joining a plain name to a path without a network, device or verbatim
/// prefix writes the name after the path, with a separator between them where
/// one is needed, and the result again has no such prefix.
pub proof fn lemma_join_plain_appends(p: Platform, base: Seq<char>, name: Seq<char>)
    requires
        is_plain_name(p, name),
        !starts_with_two_separators(p, base),
    ensures
        join_path(p, base, name) == with_separator(p, base) + name,
        !starts_with_two_separators(p, join_path(p, base, name)),
        join_path(p, base, name).len() > with_separator(p, base).len(),
        !is_separator(p, join_path(p, base, name).last()),
{
    let b2 = with_separator(p, base);
    let j = b2 + name;
    assert(!is_separator(p, name[0]));
    assert(!is_verbatim(p, base));
    assert(join_path(p, base, name) == j);
    assert(forall|k: int| 0 <= k < b2.len() ==> j[k] == b2[k]);
    assert(forall|k: int| b2.len() <= k < j.len() ==> j[k] == name[k - b2.len()]);
    assert(!starts_with_two_separators(p, j)) by {
        if p == Platform::Windows && b2.len() >= 2 {
            if base.len() >= 2 {
                assert(b2[0] == base[0] && b2[1] == base[1]);
            } else if base.len() == 1 {
                assert(b2[0] == base[0]);
                assert(b2 == base.push(main_separator(p)));
            }
        } else if b2.len() == 1 {
            assert(j[1] == name[0]);
        } else if b2.len() == 0 {
            assert(j[0] == name[0]);
        }
    }
    assert(j.last() == name[name.len() - 1]);
}

/// The views of a vector of character vectors.
pub open spec fn piece_views(v: Seq<Vec<char>>) -> Seq<Seq<char>> {
    v.map_values(|x: Vec<char>| x@)
}

/// Tests `c` for a separator on `p`.
pub fn char_is_separator(p: Platform, c: char) -> (b: bool)
    ensures
        b == is_separator(p, c),
{
    match p {
        Platform::Unix => c == '/',
        Platform::Windows => c == '/' || c == '\\',
    }
}

/// Tests `c` for a component separator in a path that is verbatim or not.
fn char_is_component_separator(p: Platform, verbatim: bool, c: char) -> (b: bool)
    ensures
        b == is_component_separator(p, verbatim, c),
{
    if verbatim {
        c == '\\'
    } else {
        char_is_separator(p, c)
    }
}

/// The separator that `join` writes on `p`, as a string.
fn separator_str(p: Platform) -> (s: &'static str)
    ensures
        s@ == seq![main_separator(p)],
{
    match p {
        Platform::Unix => {
            proof {
                reveal_strlit("/");
            }
            "/"
        },
        Platform::Windows => {
            proof {
                reveal_strlit("\\");
            }
            "\\"
        },
    }
}

/// Tests `c` for an ASCII letter.
fn char_is_drive_letter(c: char) -> (b: bool)
    ensures
        b == is_drive_letter(c),
{
    let u = c as u32;
    (0x41 <= u && u <= 0x5a) || (0x61 <= u && u <= 0x7a)
}

/// Where the component of `s` that starts at `i` ends.
fn component_end_at(p: Platform, verbatim: bool, s: &Vec<char>, i: usize) -> (e: usize)
    requires
        i <= s@.len(),
    ensures
        e == component_end(p, verbatim, s@, i as int),
        i <= e <= s@.len(),
{
    let mut j = i;
    while j < s.len() && !char_is_component_separator(p, verbatim, s[j])
        invariant
            i <= j <= s@.len(),
            component_end(p, verbatim, s@, i as int) == component_end(p, verbatim, s@, j as int),
        decreases s.len() - j,
    {
        j += 1;
    }
    j
}

/// Tests whether the path with characters `s` is verbatim.
fn chars_are_verbatim(p: Platform, s: &Vec<char>) -> (b: bool)
    ensures
        b == is_verbatim(p, s@),
{
    match p {
        Platform::Unix => false,
        Platform::Windows => s.len() >= 4 && s[0] == '\\' && s[1] == '\\' && s[2] == '?' && s[3]
            == '\\',
    }
}

/// The length of the prefix of `s` on `p`.
fn prefix_length(p: Platform, s: &Vec<char>) -> (n: usize)
    ensures
        n == prefix_len(p, s@),
        n <= s@.len(),
{
    match p {
        Platform::Unix => 0,
        Platform::Windows => {
            let n = s.len();
            if n >= 2 && char_is_separator(p, s[0]) && char_is_separator(p, s[1]) {
                if chars_are_verbatim(p, s) {
                    if n >= 8 && s[4] == 'U' && s[5] == 'N' && s[6] == 'C' && char_is_separator(
                        p,
                        s[7],
                    ) {
                        let first = component_end_at(p, true, s, 8);
                        if first < n {
                            let second = component_end_at(p, true, s, first + 1);
                            if second > first + 1 {
                                second
                            } else {
                                first
                            }
                        } else {
                            first
                        }
                    } else if n >= 6 && s[5] == ':' && char_is_drive_letter(s[4]) && (n == 6 || s[6]
                        == '\\') {
                        6
                    } else {
                        component_end_at(p, true, s, 4)
                    }
                } else if n >= 4 && s[2] == '.' && char_is_separator(p, s[3]) {
                    component_end_at(p, false, s, 4)
                } else {
                    let server = component_end_at(p, false, s, 2);
                    if server > 2 && server < n {
                        let share = component_end_at(p, false, s, server + 1);
                        if share > server + 1 {
                            share
                        } else {
                            0
                        }
                    } else {
                        0
                    }
                }
            } else if n >= 2 && s[1] == ':' && char_is_drive_letter(s[0]) {
                2
            } else {
                0
            }
        },
    }
}

/// Tests whether the path with characters `s` is rooted on `p`.
fn chars_are_rooted(p: Platform, s: &Vec<char>) -> (b: bool)
    ensures
        b == is_rooted(p, s@),
{
    let unix_absolute = match p {
        Platform::Unix => s.len() > 0 && s[0] == '/',
        Platform::Windows => false,
    };
    unix_absolute || prefix_length(p, s) > 0
}

/// Tests whether `s` is rooted on `p`.
pub fn path_is_rooted(p: Platform, s: &str) -> (b: bool)
    ensures
        b == is_rooted(p, s@),
{
    let chars = chars_of(s);
    chars_are_rooted(p, &chars)
}

/// Tests whether `name` is a single normal component on `p`.
pub fn is_plain_component(p: Platform, name: &str) -> (b: bool)
    ensures
        b == is_plain_name(p, name@),
{
    let chars = chars_of(name);
    let n = chars.len();
    if n == 0 || (n == 1 && chars[0] == '.') || (n == 2 && chars[0] == '.' && chars[1] == '.') {
        proof {
            if n == 1 {
                assert(name@ =~= seq!['.']);
            }
            if n == 2 {
                assert(name@ =~= seq!['.', '.']);
            }
        }
        return false;
    }
    assert(name@ != seq!['.']) by {
        if n == 1 {
            assert(seq!['.'][0] == '.');
        }
    }
    assert(name@ != seq!['.', '.']) by {
        if n == 2 {
            assert(seq!['.', '.'][0] == '.');
            assert(seq!['.', '.'][1] == '.');
        }
    }
    let mut i: usize = 0;
    while i < n
        invariant
            n == chars@.len(),
            chars@ == name@,
            i <= n,
            forall|k: int| 0 <= k < i ==> !is_separator(p, #[trigger] name@[k]),
        decreases n - i,
    {
        if char_is_separator(p, chars[i]) {
            return false;
        }
        i += 1;
    }
    !chars_are_rooted(p, &chars)
}

/// A copy of `v`.
fn copy_chars(v: &Vec<char>) -> (r: Vec<char>)
    ensures
        r@ == v@,
{
    let mut r: Vec<char> = Vec::new();
    let mut i: usize = 0;
    while i < v.len()
        invariant
            i <= v@.len(),
            r@ == v@.take(i as int),
        decreases v.len() - i,
    {
        r.push(v[i]);
        i += 1;
        assert(r@ =~= v@.take(i as int));
    }
    assert(r@ =~= v@);
    r
}

/// Tests whether piece `x` stands for a component.
fn piece_is_kept(x: &Vec<char>, skip_dots: bool) -> (b: bool)
    ensures
        b == keeps_piece(x@, skip_dots),
{
    let dot = x.len() == 1 && x[0] == '.';
    proof {
        if x@.len() == 1 && x@[0] == '.' {
            assert(x@ =~= seq!['.']);
        }
        if x@ == seq!['.'] {
            assert(seq!['.'][0] == '.');
        }
    }
    x.len() > 0 && !(skip_dots && dot)
}

/// The components of `s` from position `from` on, as text.
fn components_from(p: Platform, verbatim: bool, skip_dots: bool, s: &Vec<char>, from: usize) -> (r: Vec<Vec<char>>)
    requires
        from <= s@.len(),
    ensures
        piece_views(r@) == components_of(p, verbatim, skip_dots, s@.skip(from as int)),
{
    let ghost t = s@.skip(from as int);
    let mut pieces: Vec<Vec<char>> = Vec::new();
    let mut cur: Vec<char> = Vec::new();
    let ghost mut raw: Seq<Seq<char>> = Seq::<Seq<char>>::empty();
    let mut i: usize = from;
    assert(t.take(0) =~= Seq::<char>::empty());
    assert(raw.push(cur@) =~= seq![Seq::<char>::empty()]);
    assert(piece_views(pieces@) =~= Seq::<Seq<char>>::empty());
    while i < s.len()
        invariant
            from <= i <= s@.len(),
            t == s@.skip(from as int),
            split_components(p, verbatim, t.take(i - from)) == raw.push(cur@),
            kept_pieces(raw, skip_dots) == piece_views(pieces@),
        decreases s.len() - i,
    {
        let c = s[i];
        let ghost k = i - from;
        assert(t.take(k + 1).drop_last() =~= t.take(k));
        assert(t.take(k + 1).last() == c);
        if char_is_component_separator(p, verbatim, c) {
            let ghost old_raw = raw;
            proof {
                raw = raw.push(cur@);
            }
            assert(raw.drop_last() =~= old_raw);
            assert(raw.last() == cur@);
            if piece_is_kept(&cur, skip_dots) {
                let ghost before = piece_views(pieces@);
                pieces.push(cur);
                assert(piece_views(pieces@) =~= before.push(raw.last()));
            }
            cur = Vec::new();
            assert(raw.push(cur@) =~= old_raw.push(raw.last()).push(Seq::<char>::empty()));
        } else {
            let ghost old_cur = cur@;
            cur.push(c);
            assert(raw.push(cur@) =~= raw.push(old_cur).update(raw.len() as int, old_cur.push(c)));
        }
        i += 1;
    }
    assert(t.take(s.len() - from) =~= t);
    let ghost all = raw.push(cur@);
    assert(all.drop_last() =~= raw);
    if piece_is_kept(&cur, skip_dots) {
        let ghost before = piece_views(pieces@);
        pieces.push(cur);
        assert(piece_views(pieces@) =~= before.push(all.last()));
    }
    pieces
}

/// `body` with the components `pieces` applied as joining to a verbatim path
/// applies them.
fn apply_components(body: Vec<Vec<char>>, pieces: &Vec<Vec<char>>) -> (r: Vec<Vec<char>>)
    ensures
        piece_views(r@) == apply_pieces(piece_views(body@), piece_views(pieces@)),
{
    let ghost start = piece_views(body@);
    let ghost all = piece_views(pieces@);
    let mut out = body;
    let mut i: usize = 0;
    assert(all.take(0) =~= Seq::<Seq<char>>::empty());
    while i < pieces.len()
        invariant
            i <= pieces@.len(),
            all == piece_views(pieces@),
            piece_views(out@) == apply_pieces(start, all.take(i as int)),
        decreases pieces.len() - i,
    {
        let c = &pieces[i];
        assert(all.take(i + 1).drop_last() =~= all.take(i as int));
        assert(all.take(i + 1).last() == c@);
        let ghost before = piece_views(out@);
        let dotdot = c.len() == 2 && c[0] == '.' && c[1] == '.';
        proof {
            if c@.len() == 2 && c@[0] == '.' && c@[1] == '.' {
                assert(c@ =~= seq!['.', '.']);
            }
            if c@ == seq!['.', '.'] {
                assert(seq!['.', '.'][0] == '.' && seq!['.', '.'][1] == '.');
            }
        }
        if dotdot {
            let n = out.len();
            if n > 0 {
                let last = &out[n - 1];
                assert(before.last() == last@);
                let dot = last.len() == 1 && last[0] == '.';
                let twodots = last.len() == 2 && last[0] == '.' && last[1] == '.';
                proof {
                    if last@.len() == 1 && last@[0] == '.' {
                        assert(last@ =~= seq!['.']);
                    }
                    if last@ == seq!['.'] {
                        assert(seq!['.'][0] == '.');
                    }
                    if last@.len() == 2 && last@[0] == '.' && last@[1] == '.' {
                        assert(last@ =~= seq!['.', '.']);
                    }
                    if last@ == seq!['.', '.'] {
                        assert(seq!['.', '.'][0] == '.' && seq!['.', '.'][1] == '.');
                    }
                }
                if !dot && !twodots {
                    out.pop();
                    assert(piece_views(out@) =~= before.drop_last());
                }
            }
        } else {
            out.push(copy_chars(c));
            assert(piece_views(out@) =~= before.push(c@));
        }
        i += 1;
    }
    assert(all.take(pieces.len() as int) =~= all);
    out
}

/// `chars` followed by the characters of `tail`.
fn append_chars(chars: &mut Vec<char>, tail: &Vec<char>)
    ensures
        final(chars)@ == old(chars)@ + tail@,
{
    let mut i: usize = 0;
    while i < tail.len()
        invariant
            i <= tail@.len(),
            chars@ == old(chars)@ + tail@.take(i as int),
        decreases tail.len() - i,
    {
        chars.push(tail[i]);
        i += 1;
        assert(chars@ =~= old(chars)@ + tail@.take(i as int));
    }
    assert(tail@.take(tail.len() as int) =~= tail@);
}

/// The components `body` written one after another with `\` between them.
fn join_components(body: &Vec<Vec<char>>) -> (r: Vec<char>)
    ensures
        r@ == join_with(piece_views(body@), '\\'),
{
    let ghost all = piece_views(body@);
    let mut r: Vec<char> = Vec::new();
    let mut i: usize = 0;
    assert(all.take(0) =~= Seq::<Seq<char>>::empty());
    while i < body.len()
        invariant
            i <= body@.len(),
            all == piece_views(body@),
            r@ == join_with(all.take(i as int), '\\'),
        decreases body.len() - i,
    {
        let ghost before = r@;
        assert(all.take(i + 1).drop_last() =~= all.take(i as int));
        assert(all.take(i + 1).last() == body@[i as int]@);
        if i > 0 {
            r.push('\\');
        } else {
            assert(all.take(1) =~= seq![body@[0]@]);
        }
        append_chars(&mut r, &body[i]);
        i += 1;
    }
    assert(all.take(body.len() as int) =~= all);
    r
}

/// `part` joined to the verbatim path `base`, as characters.
fn verbatim_join_chars(p: Platform, base: &Vec<char>, part: &Vec<char>) -> (r: Vec<char>)
    ensures
        r@ == verbatim_join(p, base@, part@),
{
    let pl = prefix_length(p, base);
    let ghost after = base@.skip(pl as int);
    let base_root = pl < base.len() && char_is_separator(p, base[pl]);
    assert(base_root == starts_with_separator(p, after));
    if base_root {
        assert(after.skip(1) =~= base@.skip(pl + 1));
    }
    let base_body = components_from(p, true, false, base, if base_root { pl + 1 } else { pl });
    let part_root = part.len() > 0 && char_is_separator(p, part[0]);
    let part_body = components_from(p, false, true, part, if part_root { 1 } else { 0 });
    assert(part@.skip(0) =~= part@);
    let start = if part_root {
        Vec::new()
    } else {
        base_body
    };
    assert(part_root ==> piece_views(start@) =~= Seq::<Seq<char>>::empty());
    let body = apply_components(start, &part_body);
    let mut r: Vec<char> = Vec::new();
    let mut i: usize = 0;
    while i < pl
        invariant
            pl <= base@.len(),
            i <= pl,
            r@ == base@.take(i as int),
        decreases pl - i,
    {
        r.push(base[i]);
        i += 1;
        assert(r@ =~= base@.take(i as int));
    }
    let ghost head = r@;
    if base_root || part_root || body.len() > 0 {
        r.push('\\');
        assert(r@ =~= head + seq!['\\']);
    } else {
        assert(r@ =~= head + Seq::<char>::empty());
    }
    let joined = join_components(&body);
    append_chars(&mut r, &joined);
    r
}

/// Appends `c` to `s` (`String::push`). The contract claims that the new
/// text is the old text followed by `c`.
#[verifier::external_body]
fn push_char(s: &mut String, c: char)
    ensures
        final(s)@ == old(s)@.push(c),
{
    s.push(c)
}

/// The string made of `chars`.
fn string_of(chars: &Vec<char>) -> (r: String)
    ensures
        r@ == chars@,
{
    let mut r = String::new();
    let mut i: usize = 0;
    while i < chars.len()
        invariant
            i <= chars@.len(),
            r@ == chars@.take(i as int),
        decreases chars.len() - i,
    {
        push_char(&mut r, chars[i]);
        i += 1;
        assert(r@ =~= chars@.take(i as int));
    }
    assert(chars@.take(chars.len() as int) =~= chars@);
    r
}

/// `base` joined with `part` (`Path::join`).
pub fn join(p: Platform, base: &str, part: &str) -> (r: String)
    ensures
        r@ == join_path(p, base@, part@),
{
    let part_chars = chars_of(part);
    if chars_are_rooted(p, &part_chars) {
        return String::from_str(part);
    }
    let base_chars = chars_of(base);
    if chars_are_verbatim(p, &base_chars) && part_chars.len() > 0 {
        return string_of(&verbatim_join_chars(p, &base_chars, &part_chars));
    }
    if part_chars.len() > 0 && char_is_separator(p, part_chars[0]) {
        let k = prefix_length(p, &base_chars);
        return String::from_str(base.substring_char(0, k)).concat(part);
    }
    let n = base_chars.len();
    let bare_drive = match p {
        Platform::Windows => n == 2 && base_chars[1] == ':' && char_is_drive_letter(base_chars[0]),
        Platform::Unix => false,
    };
    if n == 0 || char_is_separator(p, base_chars[n - 1]) || bare_drive {
        String::from_str(base).concat(part)
    } else {
        let with_sep = String::from_str(base).concat(separator_str(p));
        assert(with_sep@ =~= base@.push(main_separator(p)));
        with_sep.concat(part)
    }
}

/// Where the last component of `s` lies: `s[start..end]`.
fn last_component_bounds(p: Platform, verbatim: bool, s: &Vec<char>) -> (r: (usize, usize))
    ensures
        r.0 <= r.1 <= s@.len(),
        s@.subrange(r.0 as int, r.1 as int) == last_component_in(p, verbatim, s@),
{
    let n = s.len();
    let mut j: usize = n;
    assert(s@.take(n as int) =~= s@);
    loop
        invariant
            n == s@.len(),
            j <= n,
            last_component_in(p, verbatim, s@) == last_component_in(p, verbatim, s@.take(j as int)),
        decreases j,
    {
        if j == 0 {
            assert(s@.subrange(0, 0) =~= Seq::<char>::empty());
            return (0, 0);
        }
        assert(s@.take(j as int).drop_last() =~= s@.take(j - 1));
        assert(s@.take(j as int).last() == s@[j - 1]);
        if char_is_component_separator(p, verbatim, s[j - 1]) {
            j -= 1;
        } else {
            let mut k: usize = j;
            assert(s@.subrange(j as int, j as int) =~= Seq::<char>::empty());
            assert(trailing_segment(p, verbatim, s@.take(j as int)) =~= trailing_segment(
                p,
                verbatim,
                s@.take(j as int),
            ) + s@.subrange(j as int, j as int));
            while k > 0 && !char_is_component_separator(p, verbatim, s[k - 1])
                invariant
                    n == s@.len(),
                    k <= j <= n,
                    trailing_segment(p, verbatim, s@.take(j as int)) == trailing_segment(
                        p,
                        verbatim,
                        s@.take(k as int),
                    ) + s@.subrange(k as int, j as int),
                decreases k,
            {
                assert(s@.take(k as int).drop_last() =~= s@.take(k - 1));
                assert(s@.take(k as int).last() == s@[k - 1]);
                assert(s@.subrange(k - 1, j as int) =~= seq![s@[k - 1]] + s@.subrange(
                    k as int,
                    j as int,
                ));
                assert(trailing_segment(p, verbatim, s@.take(k - 1)).push(s@[k - 1]) + s@.subrange(
                    k as int,
                    j as int,
                ) =~= trailing_segment(p, verbatim, s@.take(k - 1)) + s@.subrange(k - 1, j as int));
                k -= 1;
            }
            assert(trailing_segment(p, verbatim, s@.take(k as int)) =~= Seq::<char>::empty());
            assert(trailing_segment(p, verbatim, s@.take(j as int)) =~= s@.subrange(
                k as int,
                j as int,
            ));
            if !verbatim && j - k == 1 && s[k] == '.' {
                assert(s@.subrange(k as int, j as int) =~= seq!['.']);
                j -= 1;
            } else {
                if j - k == 1 {
                    assert(s@.subrange(k as int, j as int)[0] == s@[k as int]);
                }
                return (k, j);
            }
        }
    }
}

/// Whether the last component of `path` is `name` (`Path::ends_with` with a
/// single normal component as its argument).
pub fn path_ends_with_component(p: Platform, path: &str, name: &str) -> (b: bool)
    requires
        is_plain_name(p, name@),
    ensures
        b == ends_with_component(p, path@, name@),
{
    let all = chars_of(path);
    let k = prefix_length(p, &all);
    let verbatim = chars_are_verbatim(p, &all);
    let mut chars: Vec<char> = Vec::new();
    let mut i: usize = k;
    while i < all.len()
        invariant
            k <= i <= all@.len(),
            chars@ == all@.subrange(k as int, i as int),
        decreases all.len() - i,
    {
        chars.push(all[i]);
        i += 1;
        assert(chars@ =~= all@.subrange(k as int, i as int));
    }
    assert(chars@ =~= path@.skip(k as int));
    let wanted = chars_of(name);
    let (start, end) = last_component_bounds(p, verbatim, &chars);
    let ghost last = chars@.subrange(start as int, end as int);
    assert(last == last_component(p, path@));
    if wanted.len() == 0 || end - start != wanted.len() {
        return false;
    }
    let mut i: usize = 0;
    while i < wanted.len()
        invariant
            wanted@ == name@,
            start <= end <= chars@.len(),
            end - start == wanted@.len(),
            last == chars@.subrange(start as int, end as int),
            last == last_component(p, path@),
            i <= wanted@.len(),
            forall|k: int| 0 <= k < i ==> last[k] == wanted@[k],
        decreases wanted.len() - i,
    {
        assert(last[i as int] == chars@[start + i]);
        if chars[start + i] != wanted[i] {
            assert(last[i as int] != name@[i as int]);
            assert(last != name@);
            return false;
        }
        i += 1;
    }
    assert(last =~= name@);
    true
}

/// Whether something exists at `path` on the file system
/// (`std::path::Path::exists`). The answer depends on the disk at the moment
/// of the call, so nothing is stated about it.
#[verifier::external_body]
pub(crate) fn path_exists(path: &str) -> bool {
    std::path::Path::new(path).exists()
}

} // verus!

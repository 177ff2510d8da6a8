//! The command line: `--items <id>[,<id>...]`.

use vstd::prelude::*;
use vstd::string::*;

use crate::text::{
    join_with, lemma_split_join, lemma_split_pieces_lack_sep, lemma_trimmed_bounds,
    lemma_trimmed_idempotent, split_on, split_on_char, string_views, trim, trimmed,
};

verus! {

/// The items of a comma-separated list, each trimmed of white space.
pub open spec fn list_items(raw: Seq<char>) -> Seq<Seq<char>> {
    split_on(raw, ',').map_values(|piece: Seq<char>| trimmed(piece))
}

/// A comma-separated list read as items: refused, naming the list, when an
/// item is empty once trimmed.
pub open spec fn parse_list_of(raw: Seq<char>) -> Result<Seq<Seq<char>>, Seq<char>> {
    if list_items(raw).contains(Seq::<char>::empty()) {
        Err("empty item in list: '"@ + raw + "'"@)
    } else {
        Ok(list_items(raw))
    }
}

/// The view of a list of strings or of an error.
pub open spec fn list_result_view(r: Result<Vec<String>, String>) -> Result<Seq<Seq<char>>, Seq<char>> {
    match r {
        Ok(v) => Ok(string_views(v@)),
        Err(e) => Err(e@),
    }
}

/// Reads a comma-separated list of workshop item ids. Each item is trimmed of
/// white space; an item that is then empty makes the whole list invalid.
pub fn parse_list_arg(raw: &str) -> (r: Result<Vec<String>, String>)
    ensures
        list_result_view(r) == parse_list_of(raw@),
{
    let pieces = split_on_char(raw, ',');
    let ghost wanted = list_items(raw@);
    let mut items: Vec<String> = Vec::new();
    let mut any_empty = false;
    let mut i: usize = 0;
    while i < pieces.len()
        invariant
            string_views(pieces@) == split_on(raw@, ','),
            wanted == list_items(raw@),
            wanted.len() == pieces@.len(),
            i <= pieces@.len(),
            string_views(items@) == wanted.take(i as int),
            any_empty == wanted.take(i as int).contains(Seq::<char>::empty()),
        decreases pieces.len() - i,
    {
        let item = trim(pieces[i].as_str());
        assert(item@ == wanted[i as int]);
        let empty = item.as_str().unicode_len() == 0;
        let ghost before = string_views(items@);
        items.push(item);
        assert(string_views(items@) =~= before.push(wanted[i as int]));
        assert(wanted.take(i + 1) =~= wanted.take(i as int).push(wanted[i as int]));
        proof {
            if empty {
                assert(wanted[i as int] =~= Seq::<char>::empty());
                assert(wanted.take(i + 1)[i as int] == wanted[i as int]);
            }
            if wanted.take(i + 1).contains(Seq::<char>::empty()) && !empty {
                let k = choose|k: int|
                    0 <= k < wanted.take(i + 1).len() && #[trigger] wanted.take(i + 1)[k]
                        == Seq::<char>::empty();
                if k == i {
                    assert(wanted[i as int].len() == 0);
                } else {
                    assert(wanted.take(i as int)[k] == Seq::<char>::empty());
                }
            }
            if any_empty {
                let k = choose|k: int|
                    0 <= k < wanted.take(i as int).len() && #[trigger] wanted.take(i as int)[k]
                        == Seq::<char>::empty();
                assert(wanted.take(i + 1)[k] == Seq::<char>::empty());
            }
        }
        any_empty = any_empty || empty;
        i += 1;
    }
    assert(wanted.take(pieces.len() as int) =~= wanted);
    if any_empty {
        Err(String::from_str("empty item in list: '").concat(raw).concat("'"))
    } else {
        Ok(items)
    }
}

/// The items of an accepted list hold no comma and no surrounding white
/// space, and are not empty.
pub proof fn lemma_accepted_items_are_clean(raw: Seq<char>)
    requires
        parse_list_of(raw) is Ok,
    ensures
        forall|i: int|
            0 <= i < parse_list_of(raw)->Ok_0.len() ==> {
                let item = #[trigger] parse_list_of(raw)->Ok_0[i];
                &&& item.len() > 0
                &&& !item.contains(',')
                &&& trimmed(item) == item
            },
{
    let items = list_items(raw);
    lemma_split_pieces_lack_sep(raw, ',');
    assert forall|i: int| 0 <= i < items.len() implies {
        let item = #[trigger] items[i];
        &&& item.len() > 0
        &&& !item.contains(',')
        &&& trimmed(item) == item
    } by {
        let piece = split_on(raw, ',')[i];
        assert(items[i] == trimmed(piece));
        if items[i].len() == 0 {
            assert(items[i] =~= Seq::<char>::empty());
            assert(items.contains(Seq::<char>::empty()));
        }
        if items[i].contains(',') {
            let k = choose|k: int| 0 <= k < items[i].len() && #[trigger] items[i][k] == ',';
            let (a, b) = lemma_trimmed_bounds(piece);
            assert(piece[a + k] == ',');
        }
        lemma_trimmed_idempotent(piece);
    }
}

/// Clean items joined with commas are read back as the same items: a
/// non-empty list of items that are not empty, hold no comma and have no
/// surrounding white space is accepted unchanged.
pub proof fn lemma_parse_list_round_trip(items: Seq<Seq<char>>)
    requires
        items.len() >= 1,
        forall|i: int|
            0 <= i < items.len() ==> {
                let item = #[trigger] items[i];
                &&& item.len() > 0
                &&& !item.contains(',')
                &&& trimmed(item) == item
            },
    ensures
        parse_list_of(join_with(items, ',')) == Ok::<Seq<Seq<char>>, Seq<char>>(items),
{
    lemma_split_join(items, ',');
    let raw = join_with(items, ',');
    let listed = list_items(raw);
    assert(listed =~= items);
    assert(!listed.contains(Seq::<char>::empty())) by {
        if listed.contains(Seq::<char>::empty()) {
            let k = choose|k: int| 0 <= k < listed.len() && listed[k] == Seq::<char>::empty();
            assert(items[k].len() > 0);
        }
    }
}

/// Why the command line could not be read.
#[derive(Clone, Debug, PartialEq, Eq)]
pub enum CliError {
    /// `--items` was the last argument.
    MissingItemsValue,
    /// The list after `--items` was refused; the message says why.
    InvalidItemList(String),
}

/// What the command line asks for. Reading stops at the first error; the
/// arguments read before it are kept.
#[derive(Clone, Debug, PartialEq, Eq)]
pub struct CliArgs {
    /// The workshop item ids of the last `--items` read.
    pub item_ids: Vec<String>,
    /// Arguments that were not understood, in order.
    pub unknown: Vec<String>,
    /// The error that stopped reading, if any.
    pub error: Option<CliError>,
}

/// The view of a `CliError`.
pub enum CliErrorView {
    MissingItemsValue,
    InvalidItemList(Seq<char>),
}

/// The view of a `CliArgs`.
pub struct CliArgsView {
    pub item_ids: Seq<Seq<char>>,
    pub unknown: Seq<Seq<char>>,
    pub error: Option<CliErrorView>,
}

impl View for CliError {
    type V = CliErrorView;

    open spec fn view(&self) -> CliErrorView {
        match self {
            CliError::MissingItemsValue => CliErrorView::MissingItemsValue,
            CliError::InvalidItemList(m) => CliErrorView::InvalidItemList(m@),
        }
    }
}

impl View for CliArgs {
    type V = CliArgsView;

    open spec fn view(&self) -> CliArgsView {
        CliArgsView {
            item_ids: string_views(self.item_ids@),
            unknown: string_views(self.unknown@),
            error: match self.error {
                Some(e) => Some(e@),
                None => None,
            },
        }
    }
}

/// Nothing read yet.
pub open spec fn cli_start() -> CliArgsView {
    CliArgsView {
        item_ids: Seq::<Seq<char>>::empty(),
        unknown: Seq::<Seq<char>>::empty(),
        error: None,
    }
}

/// Reads `args` from position `i` on, after `acc` was read from the ones
/// before: `--items` takes the next argument as the item list, replacing any
/// earlier one; anything else is set aside as unknown.
pub open spec fn cli_from(args: Seq<Seq<char>>, i: int, acc: CliArgsView) -> CliArgsView
    decreases args.len() - i,
{
    if i < 0 || i >= args.len() {
        acc
    } else if args[i] == "--items"@ {
        if i + 1 >= args.len() {
            CliArgsView { error: Some(CliErrorView::MissingItemsValue), ..acc }
        } else {
            match parse_list_of(args[i + 1]) {
                Ok(items) => cli_from(args, i + 2, CliArgsView { item_ids: items, ..acc }),
                Err(msg) => CliArgsView { error: Some(CliErrorView::InvalidItemList(msg)), ..acc },
            }
        }
    } else {
        cli_from(args, i + 1, CliArgsView { unknown: acc.unknown.push(args[i]), ..acc })
    }
}

/// Reads the command line, without the program's name.
pub fn parse_args(args: &Vec<String>) -> (r: CliArgs)
    ensures
        r@ == cli_from(string_views(args@), 0, cli_start()),
{
    let ghost all = string_views(args@);
    let flag = String::from_str("--items");
    let mut item_ids: Vec<String> = Vec::new();
    let mut unknown: Vec<String> = Vec::new();
    let mut i: usize = 0;
    assert(string_views(item_ids@) =~= Seq::<Seq<char>>::empty());
    assert(string_views(unknown@) =~= Seq::<Seq<char>>::empty());
    while i < args.len()
        invariant
            all == string_views(args@),
            flag@ == "--items"@,
            i <= args@.len(),
            cli_from(all, 0, cli_start()) == cli_from(
                all,
                i as int,
                CliArgsView {
                    item_ids: string_views(item_ids@),
                    unknown: string_views(unknown@),
                    error: None,
                },
            ),
        decreases args.len() - i,
    {
        assert(all[i as int] == args@[i as int]@);
        if args[i] == flag {
            if i + 1 >= args.len() {
                return CliArgs { item_ids, unknown, error: Some(CliError::MissingItemsValue) };
            }
            assert(all[i + 1] == args@[i + 1]@);
            match parse_list_arg(args[i + 1].as_str()) {
                Ok(items) => {
                    item_ids = items;
                },
                Err(msg) => {
                    return CliArgs { item_ids, unknown, error: Some(CliError::InvalidItemList(msg)) };
                },
            }
            i += 2;
        } else {
            let ghost before = string_views(unknown@);
            unknown.push(args[i].clone());
            assert(string_views(unknown@) =~= before.push(all[i as int]));
            i += 1;
        }
    }
    CliArgs { item_ids, unknown, error: None }
}

} // verus!

use pzmod_dli::cli::{parse_args, parse_list_arg, CliError};
use pzmod_dli::text::trim;

fn strings(v: &[&str]) -> Vec<String> {
    v.iter().map(|s| s.to_string()).collect()
}

#[test]
fn single_item_list() {
    assert_eq!(parse_list_arg("3792740760"), Ok(strings(&["3792740760"])));
}

#[test]
fn readme_example_list() {
    assert_eq!(
        parse_list_arg("3792740760,3790573197,3794379457"),
        Ok(strings(&["3792740760", "3790573197", "3794379457"]))
    );
}

#[test]
fn items_are_trimmed() {
    assert_eq!(parse_list_arg(" 1 ,\t2,3\n"), Ok(strings(&["1", "2", "3"])));
}

#[test]
fn empty_item_is_refused() {
    assert_eq!(parse_list_arg("1,,2"), Err("empty item in list: '1,,2'".to_string()));
    assert_eq!(parse_list_arg("1, ,2"), Err("empty item in list: '1, ,2'".to_string()));
    assert_eq!(parse_list_arg("1,"), Err("empty item in list: '1,'".to_string()));
    assert_eq!(parse_list_arg(""), Err("empty item in list: ''".to_string()));
}

#[test]
fn accepted_items_are_clean() {
    let items = parse_list_arg(" a b , c ").unwrap();
    for item in &items {
        assert!(!item.is_empty());
        assert!(!item.contains(','));
        assert_eq!(trim(item), *item);
    }
    assert_eq!(items, strings(&["a b", "c"]));
}

#[test]
fn items_flag_reads_list() {
    let r = parse_args(&strings(&["--items", "1,2"]));
    assert_eq!(r.item_ids, strings(&["1", "2"]));
    assert!(r.unknown.is_empty());
    assert_eq!(r.error, None);
}

#[test]
fn unknown_arguments_are_kept_in_order() {
    let r = parse_args(&strings(&["-x", "--items", "7", "foo"]));
    assert_eq!(r.item_ids, strings(&["7"]));
    assert_eq!(r.unknown, strings(&["-x", "foo"]));
    assert_eq!(r.error, None);
}

#[test]
fn later_items_flag_replaces_earlier() {
    let r = parse_args(&strings(&["--items", "1,2", "--items", "3"]));
    assert_eq!(r.item_ids, strings(&["3"]));
}

#[test]
fn missing_items_value() {
    let r = parse_args(&strings(&["-v", "--items"]));
    assert_eq!(r.unknown, strings(&["-v"]));
    assert_eq!(r.error, Some(CliError::MissingItemsValue));
    assert!(r.item_ids.is_empty());
}

#[test]
fn invalid_list_stops_reading() {
    let r = parse_args(&strings(&["--items", "1", "--items", "2,,3", "later"]));
    assert_eq!(r.item_ids, strings(&["1"]));
    assert!(r.unknown.is_empty());
    assert_eq!(r.error, Some(CliError::InvalidItemList("empty item in list: '2,,3'".to_string())));
}

#[test]
fn no_arguments() {
    let r = parse_args(&Vec::new());
    assert!(r.item_ids.is_empty());
    assert!(r.unknown.is_empty());
    assert_eq!(r.error, None);
}

#[test]
fn clean_items_round_trip() {
    for items in [vec!["1"], vec!["3792740760", "3790573197", "3794379457"], vec!["a b", "c"]] {
        let joined = items.join(",");
        assert_eq!(parse_list_arg(&joined), Ok(strings(&items)));
    }
}

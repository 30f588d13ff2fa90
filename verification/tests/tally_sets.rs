use unidpp_kit::tally::{distinct_sorted, missing, sort_texts, tally, tally_text};

fn strings(items: &[&str]) -> Vec<String> {
    items.iter().map(|x| x.to_string()).collect()
}

#[test]
fn a_tally_counts_each_text_in_key_order() {
    let t = tally(&strings(&["si-base", "dpp", "si-base", "Zed"]));
    assert_eq!(
        t,
        vec![("Zed".to_string(), 1), ("dpp".to_string(), 1), ("si-base".to_string(), 2)]
    );
    assert_eq!(tally_text(&t), "Zed 1, dpp 1, si-base 2");
    assert_eq!(tally_text(&tally(&strings(&[]))), "");
}

#[test]
fn nothing_is_missing_exactly_when_everything_is_listed() {
    let expected = strings(&["a", "b", "c"]);
    assert!(missing(&expected, &strings(&["c", "b", "a", "extra"])).is_empty());
    assert_eq!(missing(&expected, &strings(&["b"])), strings(&["a", "c"]));
}

#[test]
fn sorting_and_distinct_texts() {
    assert_eq!(
        sort_texts(&strings(&["b", "ä", "a", "b", "B"])),
        strings(&["B", "a", "b", "b", "ä"])
    );
    assert_eq!(
        distinct_sorted(&strings(&["b", "a", "b"])),
        strings(&["a", "b"])
    );
}

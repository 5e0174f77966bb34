use chia_vanity::variants::{expand_variants, generate_variants};

fn sorted(mut list: Vec<String>) -> Vec<String> {
    list.sort();
    list
}

#[test]
fn os_has_four_variants() {
    let variants = generate_variants("os");
    assert_eq!(variants, vec!["os", "o5", "0s", "05"]);
}

#[test]
fn variants_ignore_input_casing() {
    assert_eq!(generate_variants("OS"), generate_variants("os"));
    assert_eq!(sorted(generate_variants("Os")), vec!["05", "0s", "o5", "os"]);
}

#[test]
fn empty_target_has_one_empty_variant() {
    assert_eq!(generate_variants(""), vec![String::new()]);
    assert_eq!(expand_variants(""), vec![String::new()]);
}

#[test]
fn target_without_substitutable_letters_is_its_only_variant() {
    assert_eq!(generate_variants("xch"), vec!["xch"]);
    assert_eq!(generate_variants("XCH"), vec!["xch"]);
}

#[test]
fn every_table_entry_has_its_digit() {
    assert_eq!(generate_variants("o"), vec!["o", "0"]);
    assert_eq!(generate_variants("i"), vec!["i", "1"]);
    assert_eq!(generate_variants("l"), vec!["l", "1"]);
    assert_eq!(generate_variants("s"), vec!["s", "5"]);
    assert_eq!(generate_variants("a"), vec!["a", "4"]);
    assert_eq!(generate_variants("e"), vec!["e", "3"]);
    assert_eq!(generate_variants("z"), vec!["z", "2"]);
    assert_eq!(generate_variants("b"), vec!["b"]);
    assert_eq!(generate_variants("0"), vec!["0"]);
}

#[test]
fn variant_count_is_product_of_option_counts() {
    // "seal" has four substitutable letters, "chia" two.
    assert_eq!(generate_variants("seal").len(), 16);
    assert_eq!(generate_variants("chia").len(), 4);
    assert_eq!(generate_variants("lazies").len(), 64);
}

#[test]
fn variants_are_distinct_and_keep_the_length() {
    let variants = generate_variants("lease");
    let mut unique = variants.clone();
    unique.sort();
    unique.dedup();
    assert_eq!(unique.len(), variants.len());
    assert_eq!(variants.len(), 32);
    for v in &variants {
        assert_eq!(v.chars().count(), 5);
    }
}

#[test]
fn last_character_varies_fastest() {
    assert_eq!(
        generate_variants("sea"),
        vec!["sea", "se4", "s3a", "s34", "5ea", "5e4", "53a", "534"]
    );
}

#[test]
fn expand_variants_takes_the_text_as_it_is() {
    // No case folding here: an upper-case letter has no substitute.
    assert_eq!(expand_variants("Os"), vec!["Os", "O5"]);
}

use czkawka_core::common::regex_check;
use czkawka_core::common_items::new_excluded_item;

#[test]
fn test_regex() {
    assert!(regex_check(&new_excluded_item("*"), "/home/rafal"));
    assert!(regex_check(&new_excluded_item("*home*"), "/home/rafal"));
    assert!(regex_check(&new_excluded_item("*home"), "/home"));
    assert!(regex_check(&new_excluded_item("*home/"), "/home/"));
    assert!(regex_check(&new_excluded_item("*home/*"), "/home/"));
    assert!(regex_check(&new_excluded_item("*.git*"), "/home/.git"));
    assert!(regex_check(&new_excluded_item("*/home/rafal*rafal*rafal*rafal*"), "/home/rafal/rafalrafalrafal"));
    assert!(regex_check(&new_excluded_item("AAA"), "AAA"));
    assert!(regex_check(&new_excluded_item("AAA*"), "AAABDGG/QQPW*"));
    assert!(!regex_check(&new_excluded_item("*home"), "/home/"));
    assert!(!regex_check(&new_excluded_item("*home"), "/homefasfasfasfasf/"));
    assert!(!regex_check(&new_excluded_item("*home"), "/homefasfasfasfasf"));
    assert!(!regex_check(&new_excluded_item("rafal*afal*fal"), "rafal"));
    assert!(!regex_check(&new_excluded_item("rafal*a"), "rafal"));
    assert!(!regex_check(&new_excluded_item("AAAAAAAA****"), "/AAAAAAAAAAAAAAAAA"));
    assert!(!regex_check(&new_excluded_item("*.git/*"), "/home/.git"));
    assert!(!regex_check(&new_excluded_item("*home/*koc"), "/koc/home/"));
    assert!(!regex_check(&new_excluded_item("*home/"), "/home"));
    assert!(!regex_check(&new_excluded_item("*TTT"), "/GGG"));
    assert!(regex_check(
        &new_excluded_item("*/home/*/.local/share/containers"),
        "/var/home/roman/.local/share/containers"
    ));
}

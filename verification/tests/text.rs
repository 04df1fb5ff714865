use pomc::text::{ends_with, starts_with, str_eq, strip_prefix, strip_prefix_or_self};

#[test]
fn string_helpers_work_on_characters() {
    assert!(str_eq("abc", "abc"));
    assert!(!str_eq("abc", "abd"));
    assert!(starts_with("minecraft:stone", "minecraft:"));
    assert!(!starts_with("mine", "minecraft:"));
    assert!(ends_with("oak_leaves", "_leaves"));
    assert!(!ends_with("leaves", "_leaves"));
    assert_eq!(strip_prefix("#side", "#"), Some("side"));
    assert_eq!(strip_prefix("side", "#"), None);
    assert_eq!(strip_prefix_or_self("minecraft:dirt", "minecraft:"), "dirt");
    assert_eq!(strip_prefix_or_self("dirt", "minecraft:"), "dirt");
    assert_eq!(strip_prefix("ünï:x", "ünï:"), Some("x"));
}

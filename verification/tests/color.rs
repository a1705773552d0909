use gj_jobs::prompt::{color_from_lowered, extract_color_from_prompt};
use gj_jobs::text::{str_contains, str_eq, str_starts_with};

#[test]
fn test_color_extraction() {
    let red = extract_color_from_prompt("a red apple");
    assert!(red[0] > red[1] && red[0] > red[2]);

    let blue = extract_color_from_prompt("a blue ocean");
    assert!(blue[2] > blue[0] && blue[2] > blue[1]);
}

#[test]
fn colors_have_exact_values() {
    assert_eq!(extract_color_from_prompt("A RED mug"), [255, 100, 100]);
    assert_eq!(extract_color_from_prompt("deep Blue sea"), [100, 100, 255]);
    assert_eq!(extract_color_from_prompt("green field"), [100, 255, 100]);
    assert_eq!(extract_color_from_prompt("yellow sun"), [255, 255, 100]);
    assert_eq!(extract_color_from_prompt("purple haze"), [200, 100, 255]);
    assert_eq!(extract_color_from_prompt("plain mug"), [150, 150, 180]);
}

#[test]
fn first_color_word_listed_wins() {
    assert_eq!(extract_color_from_prompt("blue and red"), [255, 100, 100]);
}

#[test]
fn lowered_text_is_matched_as_given() {
    assert_eq!(color_from_lowered("a red cube"), [255, 100, 100]);
    // this entry point does not lowercase by itself
    assert_eq!(color_from_lowered("RED"), [150, 150, 180]);
}

#[test]
fn text_helpers() {
    assert!(str_eq("abc", "abc"));
    assert!(!str_eq("abc", "abd"));
    assert!(!str_eq("abc", "ab"));
    assert!(str_contains("a red apple", "red"));
    assert!(!str_contains("a green apple", "red"));
    assert!(str_contains("anything", ""));
    assert!(str_starts_with("outputs/a.ply", "outputs/"));
    assert!(!str_starts_with("out/a.ply", "outputs/"));
}

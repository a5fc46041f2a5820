use token_maker::data::{
    frame_category, has_invalid_characters, is_mask_name, mask_file_name, sanitize_file_name,
    sanitize_file_name_allow_path, sanitize_file_name_ends, FrameImage,
};
use token_maker::image::RgbaImage;
use token_maker::strings::{contains_str, parse_u32, replace_all, u32_to_decimal};

fn strings(v: &[&str]) -> Vec<String> {
    v.iter().map(|s| s.to_string()).collect()
}

#[test]
fn sanitize_file_name_lowers_and_replaces_whitespace() {
    assert_eq!(sanitize_file_name("Hello World!".to_string()), "hello-world");
    assert_eq!(sanitize_file_name("$project_name-Token".to_string()), "$project_name-token");
    assert_eq!(sanitize_file_name("a/b\\c".to_string()), "abc");
    assert_eq!(sanitize_file_name(String::new()), "");
}

#[test]
fn sanitize_file_name_keeps_unicode_letters() {
    assert_eq!(sanitize_file_name("Ñame ü".to_string()), "ñame-ü");
    assert_eq!(sanitize_file_name("Émile".to_string()), "émile");
}

#[test]
fn allow_path_keeps_separator_and_dollar() {
    let sep = std::path::MAIN_SEPARATOR;
    let input = format!("My Dir{}Sub$", sep);
    assert_eq!(sanitize_file_name_allow_path(input), format!("my-dir{}sub$", sep));
    assert_eq!(sanitize_file_name_allow_path("$a B!".to_string()), sanitize_file_name("$a B!".to_string()));
    assert_eq!(sanitize_file_name_allow_path("$".to_string()), "$");
}

#[test]
fn invalid_characters_flag_everything_but_separators_and_marks() {
    assert!(!has_invalid_characters("- _$"));
    assert!(!has_invalid_characters(""));
    assert!(has_invalid_characters("abc"));
    assert!(has_invalid_characters("!"));
    let sep = std::path::MAIN_SEPARATOR.to_string();
    assert!(!has_invalid_characters(&sep));
}

#[test]
fn sanitize_ends_trims_special_characters_at_both_ends() {
    assert_eq!(sanitize_file_name_ends(&"--name--".to_string()), "name");
    assert_eq!(sanitize_file_name_ends(&"é!".to_string()), "é");
    assert_eq!(sanitize_file_name_ends(&"!!".to_string()), "");
    assert_eq!(sanitize_file_name_ends(&"a-b".to_string()), "a-b");
    assert_eq!(sanitize_file_name_ends(&"name".to_string()), "name");
    assert_eq!(sanitize_file_name_ends(&"/cat/".to_string()), "cat");
    assert_eq!(sanitize_file_name_ends(&String::new()), "");
}

#[test]
fn frame_image_names_untitled_and_trims_category() {
    let img = RgbaImage::from_pixel(1, 1, [1, 2, 3, 4]);
    let f = FrameImage::new("  ".to_string(), "cat/".to_string(), img, None);
    assert_eq!(f.name(), "untitled");
    assert_eq!(f.category(), "cat");
    assert_eq!(f.id(), "cat/untitled");
    assert_eq!(f.file_name(), "untitled.webp");
    assert_eq!(f.mask_file_name(), "untitled-mask.webp");
    assert!(f.mask().is_none());
    assert_eq!(f.image().as_raw(), &vec![1, 2, 3, 4]);
}

#[test]
fn frame_category_lists_folders_below_frames_deepest_first() {
    assert_eq!(frame_category(&strings(&["home", "u", "frames", "a", "b"])), "b/a/");
    assert_eq!(frame_category(&strings(&["frames", "round"])), "round/");
    assert_eq!(frame_category(&strings(&["home", "frames"])), "Uncategoriezed");
    assert_eq!(frame_category(&strings(&["x", "y"])), "Uncategoriezed");
}

#[test]
fn mask_files_are_recognised_and_named() {
    assert!(is_mask_name("ring-mask"));
    assert!(!is_mask_name("ring"));
    assert_eq!(mask_file_name("ring", Some("png")), "ring-mask.png");
    assert_eq!(mask_file_name("ring", None), "ring-mask");
    // what a save writes is recognised as a mask when loading
    let saved = mask_file_name("gold", Some("webp"));
    assert!(is_mask_name(saved.trim_end_matches(".webp")));
}

#[test]
fn replace_all_replaces_from_the_left_without_overlap() {
    assert_eq!(replace_all("a$b$", "$", ""), "ab");
    assert_eq!(replace_all("aaa", "aa", "b"), "ba");
    assert_eq!(replace_all("$project_name-token", "$project_name", "hero"), "hero-token");
    assert_eq!(replace_all("", "x", "y"), "");
}

#[test]
fn contains_str_finds_substrings() {
    assert!(contains_str("x-mask", "-mask"));
    assert!(!contains_str("mask", "-mask"));
    assert!(contains_str("abc", ""));
}

#[test]
fn parse_u32_reads_as_from_str() {
    assert_eq!(parse_u32("64"), Some(64));
    assert_eq!(parse_u32("+5"), Some(5));
    assert_eq!(parse_u32("4294967295"), Some(u32::MAX));
    assert_eq!(parse_u32("4294967296"), None);
    assert_eq!(parse_u32("-5"), None);
    assert_eq!(parse_u32("+"), None);
    assert_eq!(parse_u32(""), None);
    assert_eq!(parse_u32("12a"), None);
    for s in ["0", "+0", "007", "123456"] {
        assert_eq!(parse_u32(s), s.parse::<u32>().ok());
    }
}

#[test]
fn decimal_form_reads_back() {
    for n in [0u32, 7, 10, 512, 4294967295] {
        let s = u32_to_decimal(n);
        assert_eq!(s, n.to_string());
        assert_eq!(parse_u32(&s), Some(n));
    }
}

#[test]
fn path_keeping_sanitiser_matches_plain_without_separators() {
    for s in ["Hello World!", "$Project Name", "a_b-c", "Émile Zola", ""] {
        assert_eq!(sanitize_file_name_allow_path(s.to_string()), sanitize_file_name(s.to_string()));
    }
    assert_eq!(sanitize_file_name("My Token!".to_string()), "my-token");
}

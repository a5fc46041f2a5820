use token_maker::data::FrameImage;
use token_maker::image::{downloaded_image, Download, RgbaImage};
use token_maker::modifier::{find_frame, frame_categories, shown_frames, BackgroundType, ModifierList};

fn frame(name: &str, category: &str) -> FrameImage {
    FrameImage::new(name.to_string(), category.to_string(), RgbaImage::from_pixel(1, 1, [0, 0, 0, 0]), None)
}

fn frames() -> Vec<FrameImage> {
    vec![frame("a", "round"), frame("b", "square"), frame("c", "round"), frame("a", "round")]
}

#[test]
fn frames_are_found_by_id() {
    let f = frames();
    assert_eq!(find_frame(&f, "round/a"), Some(0));
    assert_eq!(find_frame(&f, "square/b"), Some(1));
    assert_eq!(find_frame(&f, "round/b"), None);
}

#[test]
fn categories_are_listed_once_in_order() {
    assert_eq!(frame_categories(&frames()), vec!["round".to_string(), "square".to_string()]);
    assert!(frame_categories(&vec![]).is_empty());
}

#[test]
fn filter_shows_frames_of_the_category() {
    let f = frames();
    assert_eq!(shown_frames(&f, ""), vec![0, 1, 2, 3]);
    assert_eq!(shown_frames(&f, "round"), vec![0, 2, 3]);
    assert_eq!(shown_frames(&f, "oval"), Vec::<usize>::new());
    assert_ne!(BackgroundType::Image, BackgroundType::Solid);
}

fn png_bytes() -> Vec<u8> {
    let img = image::RgbaImage::from_pixel(2, 1, image::Rgba([1, 2, 3, 4]));
    let mut out = std::io::Cursor::new(Vec::new());
    img.write_to(&mut out, image::ImageOutputFormat::Png).unwrap();
    out.into_inner()
}

#[test]
fn downloads_decode_or_explain() {
    match downloaded_image(Download::Body(png_bytes())) {
        Ok(img) => {
            assert_eq!((img.width(), img.height()), (2, 1));
            assert_eq!(img.as_raw(), &vec![1, 2, 3, 4, 1, 2, 3, 4]);
        }
        Err(e) => panic!("{}", e),
    }
    assert_eq!(downloaded_image(Download::Body(vec![1, 2, 3])).err(), Some("Error: URL doesn't point to a valid image".to_string()));
    assert_eq!(downloaded_image(Download::NoResponse).err(), Some("Error: Clipboard doesn't contain a valid URL".to_string()));
    assert_eq!(downloaded_image(Download::NoBody).err(), Some("Error: Couldn't download image".to_string()));
}

#[test]
fn modifier_list_adds_selects_and_removes() {

    let mut l: ModifierList<&str> = ModifierList::new();
    assert_eq!(l.add("frame"), 0);
    assert_eq!(l.add("tint"), 1);
    assert_eq!(l.selected(), 1);
    l.select(0);
    assert_eq!(l.selected(), 0);
    assert!(!l.remove(5));
    assert!(l.remove(0));
    assert_eq!(l.items(), &vec!["tint"]);
    l.items_mut().push("more");
    assert_eq!(l.items().len(), 2);
    assert!(token_maker::workspace::WorkspaceTemplate::Token.uses_frame());
    assert!(!token_maker::workspace::WorkspaceTemplate::Blank.uses_frame());
}

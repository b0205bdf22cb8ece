use slide_parser::{generate_slides, Slide};

#[test]
fn buncha_slides() {
    let presentation = String::from(
        "
* test
* test
* test

This is another slide.

Another one!

@image.png
",
    );
    let slides = generate_slides(presentation);
    assert_eq!(slides.len(), 4)
}

#[test]
fn comments_work() {
    let presentation = String::from(
        "
* test
* test
* test

# This is a comment.

Another one!

@image.png
",
    );
    let slides = generate_slides(presentation);
    assert_eq!(slides.len(), 3)
}

#[test]
fn four_slides_with_payloads() {
    let presentation = String::from(
        "* test\n* test\n* test\n\nThis is another slide.\n\nAnother one!\n\n@image.png\n",
    );
    let slides = generate_slides(presentation);
    assert_eq!(slides.len(), 4);
    match &slides[0] {
        Slide::TextSlide(t) => assert_eq!(t.text, "* test\n* test\n* test"),
        _ => panic!("expected a text slide"),
    }
    match &slides[1] {
        Slide::TextSlide(t) => assert_eq!(t.text, "This is another slide."),
        _ => panic!("expected a text slide"),
    }
    match &slides[2] {
        Slide::TextSlide(t) => assert_eq!(t.text, "Another one!"),
        _ => panic!("expected a text slide"),
    }
    match &slides[3] {
        Slide::ImageSlide(i) => assert_eq!(i.image_path, "image.png"),
        _ => panic!("expected an image slide"),
    }
}

#[test]
fn comment_segment_fully_removed() {
    let presentation = String::from(
        "* test\n* test\n* test\n\n# This is a comment.\n\nAnother one!\n\n@image.png\n",
    );
    let slides = generate_slides(presentation);
    assert_eq!(slides.len(), 3);
    match &slides[0] {
        Slide::TextSlide(t) => assert_eq!(t.text, "* test\n* test\n* test"),
        _ => panic!("expected a text slide"),
    }
    match &slides[1] {
        Slide::TextSlide(t) => assert_eq!(t.text, "Another one!"),
        _ => panic!("expected a text slide"),
    }
    match &slides[2] {
        Slide::ImageSlide(i) => assert_eq!(i.image_path, "image.png"),
        _ => panic!("expected an image slide"),
    }
}

#[test]
fn slash_gives_empty_slide() {
    let slides = generate_slides(String::from("/"));
    assert_eq!(slides.len(), 1);
    assert!(matches!(slides[0], Slide::EmptySlide));
}

#[test]
fn slash_discards_rest_of_segment() {
    let slides = generate_slides(String::from("/this content is ignored"));
    assert_eq!(slides.len(), 1);
    assert!(matches!(slides[0], Slide::EmptySlide));
}

#[test]
fn empty_segment_is_skipped() {
    let slides = generate_slides(String::from("first\n\n\n\nsecond"));
    assert_eq!(slides.len(), 2);
    match &slides[0] {
        Slide::TextSlide(t) => assert_eq!(t.text, "first"),
        _ => panic!("expected a text slide"),
    }
    match &slides[1] {
        Slide::TextSlide(t) => assert_eq!(t.text, "second"),
        _ => panic!("expected a text slide"),
    }
}

#[test]
fn image_path_is_rest_of_segment() {
    let slides = generate_slides(String::from("@a/b.png"));
    assert_eq!(slides.len(), 1);
    match &slides[0] {
        Slide::ImageSlide(i) => assert_eq!(i.image_path, "a/b.png"),
        _ => panic!("expected an image slide"),
    }
}

#[test]
fn at_alone_gives_empty_path() {
    let slides = generate_slides(String::from("@"));
    assert_eq!(slides.len(), 1);
    match &slides[0] {
        Slide::ImageSlide(i) => assert_eq!(i.image_path, ""),
        _ => panic!("expected an image slide"),
    }
}

#[test]
fn comment_inside_segment_does_not_split_it() {
    let slides = generate_slides(String::from("line one\n# hidden\nline two"));
    assert_eq!(slides.len(), 1);
    match &slides[0] {
        Slide::TextSlide(t) => assert_eq!(t.text, "line one\nline two"),
        _ => panic!("expected a text slide"),
    }
}

#[test]
fn empty_input_gives_no_slides() {
    let slides = generate_slides(String::new());
    assert_eq!(slides.len(), 0);
}

#[test]
fn whitespace_only_input_gives_no_slides() {
    let slides = generate_slides(String::from("  \n\t \n"));
    assert_eq!(slides.len(), 0);
}

#[test]
fn comment_only_input_gives_no_slides() {
    let slides = generate_slides(String::from("# one comment\n# another comment\n"));
    assert_eq!(slides.len(), 0);
}

#[test]
fn segments_are_trimmed() {
    let slides = generate_slides(String::from("   hello world   \n\n\t@pic.png\n"));
    assert_eq!(slides.len(), 2);
    match &slides[0] {
        Slide::TextSlide(t) => assert_eq!(t.text, "hello world"),
        _ => panic!("expected a text slide"),
    }
    match &slides[1] {
        Slide::ImageSlide(i) => assert_eq!(i.image_path, "pic.png"),
        _ => panic!("expected an image slide"),
    }
}

#[test]
fn order_follows_first_appearance() {
    let slides = generate_slides(String::from("b\n\na\n\n/\n\n@z.png\n\nc"));
    assert_eq!(slides.len(), 5);
    match &slides[0] {
        Slide::TextSlide(t) => assert_eq!(t.text, "b"),
        _ => panic!("expected a text slide"),
    }
    match &slides[1] {
        Slide::TextSlide(t) => assert_eq!(t.text, "a"),
        _ => panic!("expected a text slide"),
    }
    assert!(matches!(slides[2], Slide::EmptySlide));
    match &slides[3] {
        Slide::ImageSlide(i) => assert_eq!(i.image_path, "z.png"),
        _ => panic!("expected an image slide"),
    }
    match &slides[4] {
        Slide::TextSlide(t) => assert_eq!(t.text, "c"),
        _ => panic!("expected a text slide"),
    }
}

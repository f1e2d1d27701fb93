use cgrustplot::helper::rendering::RenderableTextBuilder;

#[test]
fn renderable_text_defaults() {
    let b = RenderableTextBuilder::from(String::from("hello"));
    let r = b.build();
    assert_eq!(r.s, "hello");
    assert_eq!(r.font_path, "DejaVu-Sans-Mono");
    assert_eq!(r.font_color, "white");
    assert_eq!(r.font_size, 24);
    assert_eq!(r.background_color, "black");
}

#[test]
fn renderable_text_overrides() {
    let mut b = RenderableTextBuilder::from(String::from("plot"));
    b.set_font_path("/fonts/mono.ttf");
    b.set_font_color("green");
    b.set_font_size(12);
    b.set_background_color("gray");
    let r = b.build();
    assert_eq!(r.font_path, "/fonts/mono.ttf");
    assert_eq!(r.font_color, "green");
    assert_eq!(r.font_size, 12);
    assert_eq!(r.background_color, "gray");
}

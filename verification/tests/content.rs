use devzen_bots::feed::content::preprocess_content;

const IMAGE: &str =
    "<p><img class=\"x\" src=\"https://devzen.ru/wp-content/uploads/2024/1.jpg\" alt=\"\"></p>";

#[test]
fn lines_with_own_images_are_dropped() {
    let content = format!("<p>one</p>\n{IMAGE}\n<p>two</p>\n");
    assert_eq!(preprocess_content(&content), "<p>one</p>\n<p>two</p>\n");
}

#[test]
fn other_images_stay() {
    for line in [
        "<img src=\"https://example.com/a.png\">",
        "<img src=\"https://devzen_ru/wp-content/uploads/a.png\">",
        "<img alt=\">\" src=\"https://devzen.ru/wp-content/uploads/a.png\">",
        "<imgsrc=\"https://devzen.ru/wp-content/uploads/a.png\">",
        "src=\"https://devzen.ru/wp-content/uploads/a.png\" <img ",
        "<IMG src=\"https://devzen.ru/wp-content/uploads/a.png\">",
    ] {
        assert_eq!(preprocess_content(line), line);
    }
}

#[test]
fn the_source_may_follow_at_once() {
    assert_eq!(
        preprocess_content("a\n<img src=\"https://devzen.ru/wp-content/uploads/\nb"),
        "a\nb"
    );
}

#[test]
fn nothing_is_left_of_an_image_alone() {
    assert_eq!(preprocess_content(IMAGE), "");
    assert_eq!(preprocess_content(""), "");
}

#[test]
fn preprocessing_twice_is_preprocessing_once() {
    for content in ["", "a\n\nb", &format!("{IMAGE}\n{IMAGE}"), &format!("a\n{IMAGE}\n\n")] {
        let once = preprocess_content(content);
        assert_eq!(preprocess_content(&once), once);
    }
}

use devzen_bots::feed::avatar::{
    avatar_content_type, avatar_plan, content_type_of, read_error, upload_error, AvatarPlan,
};

#[test]
fn content_types_by_extension() {
    for (path, expected) in [
        ("a.jpg", "image/jpeg"),
        ("/x/y.z/a.JPEG", "image/jpeg"),
        ("./a.b.Png", "image/png"),
        ("dir/.hidden.gif", "image/gif"),
        ("a.WebP", "image/webp"),
        ("pics/a.png/", "image/png"),
        ("pics/a.png/.", "image/png"),
        ("C:/pics/a.png", "image/png"),
        ("C:\\pics\\a.PNG", "image/png"),
        ("C:a.gif", "image/gif"),
        ("pics\\a.png/", "image/png"),
        ("pics\\a.png/.", "image/png"),
        ("//host/share/a.jpg", "image/jpeg"),
        ("\\\\host\\share\\a.jpg", "image/jpeg"),
    ] {
        assert_eq!(avatar_content_type(path).unwrap(), expected);
    }
}

#[test]
fn other_extensions_are_refused() {
    for (path, ext) in [
        ("a.BMP", "bmp"),
        ("png", ""),
        (".png", ""),
        ("dir.png/a", ""),
        ("a.", ""),
        ("...", ""),
        ("a.png.ÄX", "äx"),
        ("a.png/..", ""),
        ("/", ""),
        ("d\\e/.png", ""),
        ("C:/my.pics/png", ""),
        ("//host/share/d/.png", ""),
        ("C:\\png", ""),
        ("//png", ""),
        ("C:\\pics.d\\a.bmp", "bmp"),
        ("", ""),
    ] {
        assert_eq!(
            avatar_content_type(path).unwrap_err(),
            format!("Unsupported avatar file extension: '{ext}'")
        );
    }
}

#[test]
fn content_types_of_small_extensions() {
    assert_eq!(content_type_of("webp").unwrap(), "image/webp");
    assert_eq!(content_type_of("jpeg").unwrap(), "image/jpeg");
    assert_eq!(
        content_type_of("JPG").unwrap_err(),
        "Unsupported avatar file extension: 'JPG'"
    );
}

#[test]
fn plans_for_the_picture() {
    let path = Some("a.png".to_owned());
    assert!(matches!(avatar_plan(None, &path), AvatarPlan::Keep));
    assert!(matches!(avatar_plan(Some(false), &path), AvatarPlan::Keep));
    assert!(matches!(avatar_plan(Some(true), &path), AvatarPlan::Change { path } if path == "a.png"));
    assert!(matches!(
        avatar_plan(Some(true), &None),
        AvatarPlan::NoPath { error } if error == "change_avatar is true but avatar_path is not set in config"
    ));
}

#[test]
fn errors_of_the_picture() {
    assert_eq!(read_error("p", "c"), "Failed to read avatar file 'p': c");
    assert_eq!(upload_error("c"), "Failed to upload avatar: c");
}

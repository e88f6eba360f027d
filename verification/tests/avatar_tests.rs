use bongo_chat::avatar::{
    avatar_file_name, avatar_files_except, avatar_relative_path, check_avatar_file,
    detect_image_extension, MAX_AVATAR_SIZE,
};

#[test]
fn image_extension_should_detect_supported_headers() {
    assert_eq!(detect_image_extension(&[0x89, b'P', b'N', b'G', 0x0D, 0x0A, 0x1A, 0x0A]), Ok("png"));
    assert_eq!(detect_image_extension(&[0xFF, 0xD8, 0xFF]), Ok("jpg"));
    assert_eq!(detect_image_extension(b"RIFF0000WEBP"), Ok("webp"));
    assert_eq!(detect_image_extension(b"GIF89a"), Ok("gif"));
    assert_eq!(detect_image_extension(b"GIF87a"), Ok("gif"));
    assert_eq!(detect_image_extension(b"BM"), Ok("bmp"));
    assert_eq!(detect_image_extension(&[0x00, 0x00, 0x01, 0x00, 1, 0]), Ok("ico"));
}

#[test]
fn image_extension_should_reject_unknown_content() {
    assert_eq!(detect_image_extension(b"not an image"), Err("avatarInvalidType".to_string()));
    assert_eq!(detect_image_extension(b"RIFF0000WEB"), Err("avatarInvalidType".to_string()));
    assert_eq!(detect_image_extension(&[]), Err("avatarInvalidType".to_string()));
}

#[test]
fn file_checks() {
    assert_eq!(check_avatar_file(false, 1), Err("avatarNotFound".to_string()));
    assert_eq!(check_avatar_file(true, MAX_AVATAR_SIZE + 1), Err("avatarTooLarge".to_string()));
    assert_eq!(check_avatar_file(true, MAX_AVATAR_SIZE), Ok(()));
    assert_eq!(MAX_AVATAR_SIZE, 20 * 1024 * 1024);
}

#[test]
fn avatar_names() {
    assert_eq!(avatar_file_name("png"), "user-avatar.png");
    assert_eq!(avatar_relative_path("webp"), "chat/avatar/user-avatar.webp");
    assert_eq!(
        avatar_files_except(Some("gif")),
        vec![
            "user-avatar.png",
            "user-avatar.jpg",
            "user-avatar.webp",
            "user-avatar.bmp",
            "user-avatar.ico"
        ]
    );
    assert_eq!(avatar_files_except(None).len(), 6);
}

use taarof_app::peek::{
    classify, classify_as, human_size, is_image_path, load_peek_data, looks_binary, peek_key,
    FileFacts, PeekClass, PeekKey, PeekLoad, PeekPage, PeekState, PEEK_MAX_RENDER_BYTES,
};

#[test]
fn image_paths_are_detected_by_extension() {
    assert!(is_image_path("/tmp/a.png"));
    assert!(is_image_path("/tmp/a.jpg"));
    assert!(is_image_path("/tmp/a.jpeg"));
    assert!(is_image_path("/tmp/a.svg"));
    assert!(!is_image_path("/tmp/a.rs"));
    assert!(!is_image_path("/tmp/a.md"));
    assert!(!is_image_path("/tmp/a.txt"));
}

#[test]
fn binary_detection_uses_nul_byte() {
    assert!(!looks_binary(b"hello world"));
    assert!(!looks_binary(b""));
    assert!(looks_binary(&[0x68, 0x00, 0x69]));
    assert!(looks_binary(&[0x00]));
}

#[test]
fn classify_covers_each_case() {
    let cap = PEEK_MAX_RENDER_BYTES;
    assert_eq!(
        classify("/tmp/big.rs", 2 * 1024 * 1024, b"fn main() {}", cap),
        PeekClass::TooLarge
    );
    assert_eq!(
        classify("/tmp/logo.png", 512, &[0x89, 0x50, 0x4e, 0x47], cap),
        PeekClass::Image
    );
    assert_eq!(
        classify("/tmp/data.bin", 3, &[0x00, 0x01, 0x02], cap),
        PeekClass::Binary
    );
    assert_eq!(
        classify("/tmp/main.rs", 12, b"fn main() {}", cap),
        PeekClass::Text
    );
    assert_eq!(classify_as(true, 3, &[0], cap), PeekClass::Image);
}

#[test]
fn human_size_formats_units() {
    assert_eq!(human_size(512), "512 B");
    assert_eq!(human_size(1536), "1.5 KB");
    assert_eq!(human_size(2 * 1024 * 1024), "2.0 MB");
}

/// The size as a rounded binary fraction shows it.
fn shown(bytes: u64) -> String {
    let value = bytes as f64;
    let (kb, mb, gb) = (1024.0, 1024.0 * 1024.0, 1024.0 * 1024.0 * 1024.0);
    if value >= gb {
        format!("{:.1} GB", value / gb)
    } else if value >= mb {
        format!("{:.1} MB", value / mb)
    } else if value >= kb {
        format!("{:.1} KB", value / kb)
    } else {
        format!("{bytes} B")
    }
}

#[test]
fn sizes_are_rounded_like_binary_fractions() {
    for bytes in [
        0, 1, 1023, 1024, 1025, 1075, 1076, 1126, 1127, 1228, 1229, 1332, 1333, 10_189, 102_349,
        1_047_000, 1_048_524, 1_048_525, 1_048_575, 1_048_576, 1_100_000, 5_242_880, 6_553_600,
        123_456_789, 99_999_999_999, u64::MAX / 3, u64::MAX - 1, u64::MAX,
    ] {
        assert_eq!(human_size(bytes), shown(bytes));
    }
}

fn load_file(path: &str, facts: FileFacts, bytes: &[u8], cap: u64) -> PeekLoad {
    match taarof_app::peek::peek_before_reading(&Ok(facts), cap) {
        Some(load) => load,
        None => load_peek_data(path, facts.size, Ok(bytes.to_vec()), cap),
    }
}

fn file(size: u64) -> FileFacts {
    FileFacts {
        is_file: true,
        size,
    }
}

#[test]
fn load_peek_data_classifies_files() {
    let content = b"fn main() {}\n";
    assert!(matches!(
        load_file("/tmp/hello.rs", file(13), content, PEEK_MAX_RENDER_BYTES),
        PeekLoad::Text(text) if text == "fn main() {}\n"
    ));
    assert!(matches!(
        load_file("/tmp/blob.dat", file(4), &[0x00, 0x01, 0x02, 0x03], PEEK_MAX_RENDER_BYTES),
        PeekLoad::Binary
    ));
    assert!(matches!(
        load_file("/tmp/big.txt", file(2048), &[b'a'; 2048], 1024),
        PeekLoad::TooLarge(2048)
    ));
    assert!(matches!(
        load_file("/tmp/logo.png", file(3), &[1, 2, 3], 1024),
        PeekLoad::Image(bytes) if bytes == vec![1, 2, 3]
    ));
    assert!(matches!(
        load_file("/tmp/odd.txt", file(2), &[b'a', 0xff], 1024),
        PeekLoad::Text(text) if text == "a\u{fffd}"
    ));
    assert!(matches!(
        load_peek_data("/tmp/x", 1, Err("denied".into()), 1024),
        PeekLoad::Error(message) if message == "Could not read file: denied"
    ));
}

#[test]
fn load_peek_data_rejects_non_regular_files_explicitly() {
    let dir = FileFacts {
        is_file: false,
        size: 4096,
    };
    assert!(matches!(
        load_file("/tmp", dir, b"", PEEK_MAX_RENDER_BYTES),
        PeekLoad::Error(message) if message == "Could not peek path: not a regular file"
    ));
}

#[test]
fn a_replaced_preview_drops_its_load() {
    let mut state = PeekState::new();
    let first = state.show_for("/src/a.rs", Some(12), Some(3));
    let second = state.show_for("/src/b.rs", None, None);
    assert_eq!(state.title, "b.rs");
    assert_eq!(state.subtitle, "/src");
    assert!(!state.apply_load(first, PeekLoad::Text("a".into())));
    assert!(matches!(state.page, PeekPage::Loading));
    assert!(state.apply_load(second, PeekLoad::Text("b".into())));
    assert!(matches!(&state.page, PeekPage::Text { content, scroll_to: None } if content == "b"));
    assert_eq!(state.content_to_copy().as_deref(), Some("b"));
    assert_eq!(state.path_to_copy().as_deref(), Some("/src/b.rs"));
    assert_eq!(state.eject(), Some(("/src/b.rs".to_string(), 1, None)));
    assert!(!state.visible);
    assert!(!state.dismiss_if_visible());
    let third = state.show_for("/src/a.rs", Some(12), Some(3));
    assert!(state.apply_load(third, PeekLoad::TooLarge(2 * 1024 * 1024)));
    assert!(matches!(
        &state.page,
        PeekPage::Summary(message)
            if message == "File is 2.0 MB — too large to preview (limit 1.0 MB)."
    ));
    assert!(state.apply_load(third, PeekLoad::Text("a".into())));
    assert!(matches!(&state.page, PeekPage::Text { scroll_to: Some(11), .. }));
    assert!(state.dismiss_if_visible());
    assert_eq!(peek_key(true, None), PeekKey::Hide);
    assert_eq!(peek_key(false, Some('E')), PeekKey::Eject);
    assert_eq!(peek_key(false, Some('c')), PeekKey::CopyContent);
    assert_eq!(peek_key(false, Some('y')), PeekKey::CopyPath);
    assert_eq!(peek_key(false, Some('x')), PeekKey::Proceed);
}

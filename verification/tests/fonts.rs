use window_switcher::font_resources::formats::{accepts_text, FormatCache, TextBox, MAX_FORMATS};
use window_switcher::font_resources::loader::{
    first_family, font_attempts, is_fallback, private_family, requested, system_family,
    FamilyError, FontAttempt,
};
use window_switcher::font_resources::local_file::{
    accepts_length, is_font_extension, require_local, LocalError, PathStart,
};
use window_switcher::font_resources::{line_height, FontMetrics, FontRole};

#[test]
fn lines_are_rounded_up_and_bounded() {
    let metrics = FontMetrics {
        units_per_em: 1000,
        ascent: 900,
        descent: 250,
        line_gap: 0,
    };
    assert!(metrics.is_usable());
    assert_eq!(line_height(&metrics, 10), 12);
    assert_eq!(line_height(&metrics, 20), 23);
    assert_eq!(line_height(&metrics, 1000), 256);
    let broken = FontMetrics {
        units_per_em: 0,
        ascent: 0,
        descent: 0,
        line_gap: -5,
    };
    assert!(!broken.is_usable());
    assert_eq!(line_height(&broken, 7), 7);
    let tall = FontMetrics {
        units_per_em: 100,
        ascent: 401,
        descent: 0,
        line_gap: 0,
    };
    assert!(!tall.is_usable());
}

#[test]
fn formats_are_bounded_and_the_longest_unused_goes_first() {
    let mut cache = FormatCache::new();
    for pixels in 8..100 {
        for role in [FontRole::Badge, FontRole::Name] {
            assert_eq!(cache.find(role, pixels), None);
            cache.store(role, pixels, u64::from(pixels));
            assert_eq!(cache.find(role, pixels), Some(u64::from(pixels)));
        }
    }
    assert_eq!(cache.formats.len(), MAX_FORMATS);
    assert_eq!(cache.find(FontRole::Badge, 67), None);
    assert_eq!(cache.find(FontRole::Badge, 68), Some(68));
    cache.store(FontRole::Name, 5, 5);
    assert_eq!(cache.find(FontRole::Name, 68), None);
    assert_eq!(cache.find(FontRole::Badge, 68), Some(68));
}

#[test]
fn texts_and_boxes_are_limited() {
    let bounds = TextBox {
        role: FontRole::Name,
        pixels: 20,
        width: 400,
        height: 80,
        ellipsis: false,
    };
    assert!(accepts_text("text", &bounds));
    assert!(accepts_text(&"a".repeat(4096), &bounds));
    assert!(!accepts_text(&"a".repeat(4097), &bounds));
    assert!(!accepts_text(&"\u{1f600}".repeat(2049), &bounds));
    assert!(!accepts_text("text", &TextBox { pixels: 0, ..bounds }));
    assert!(!accepts_text("text", &TextBox { width: 0, ..bounds }));
    assert!(!accepts_text("text", &TextBox { height: 0, ..bounds }));
    assert_eq!(FontRole::Badge.label(), "badge");
    assert_eq!(FontRole::Name.index(), 0);
}

#[test]
fn fonts_are_tried_from_the_file_to_the_system() {
    assert_eq!(requested("auto", "System"), "System");
    assert_eq!(requested("Mine", "System"), "Mine");
    assert_eq!(
        font_attempts("Mine", "System", true, true),
        [
            FontAttempt::File,
            FontAttempt::Family("Mine".to_string()),
            FontAttempt::Family("System".to_string()),
            FontAttempt::Family("Segoe UI".to_string())
        ]
    );
    assert_eq!(font_attempts("Mine", "System", true, false).len(), 3);
    assert!(is_fallback("Segoe UI", "Mine"));
    assert!(!is_fallback("MINE", "mine"));
}

#[test]
fn the_first_family_is_found_by_name() {
    let families = |names: &[&str]| names.iter().map(|name| name.to_string()).collect::<Vec<_>>();
    assert_eq!(first_family(&families(&["beta", "Alpha", "gamma"])), "Alpha");
    assert_eq!(first_family(&families(&["a", "A"])), "A");
    assert_eq!(first_family(&families(&["Ä", "z"])), "z");
    assert_eq!(first_family(&families(&["ab", "a"])), "a");
}

#[test]
fn a_font_file_gives_the_requested_family_or_its_first() {
    let units = |name: &str| name.encode_utf16().collect::<Vec<u16>>();
    let names = vec![units("beta"), units("Alpha")];
    assert_eq!(private_family("mine", true, &names), Ok("mine".to_string()));
    assert_eq!(
        private_family("mine", false, &names),
        Ok("Alpha".to_string())
    );
    assert_eq!(
        private_family("mine", false, &Vec::new()),
        Err(FamilyError::Count)
    );
    assert_eq!(
        private_family("mine", false, &vec![units("a"); 129]),
        Err(FamilyError::Count)
    );
    assert_eq!(
        private_family("mine", false, &vec![units("a"), units(&"a".repeat(129))]),
        Err(FamilyError::Length)
    );
    assert_eq!(
        private_family("mine", false, &vec![vec![0xd800], Vec::new()]),
        Err(FamilyError::Text)
    );
}

#[test]
fn the_system_family_ends_at_zero_and_is_never_blank() {
    let name: Vec<u16> = "Tahoma\0rest".encode_utf16().collect();
    assert_eq!(system_family(&name), "Tahoma");
    assert_eq!(system_family(&[0]), "Segoe UI");
    assert_eq!(system_family(&[32, 32]), "Segoe UI");
    assert_eq!(system_family(&[0xd800, 65]), "\u{fffd}A");
    assert_eq!(system_family(&[0xd83d, 0xde00]), "\u{1f600}");
}

#[test]
fn font_files_are_local_and_of_a_known_kind() {
    assert!(is_font_extension(Some("TTF")));
    assert!(is_font_extension(Some("otf")));
    assert!(!is_font_extension(Some("woff")));
    assert!(!is_font_extension(None));
    assert_eq!(require_local(PathStart::Drive, 3), Ok(()));
    assert_eq!(
        require_local(PathStart::Drive, 4),
        Err(LocalError::RemoteDrive)
    );
    assert_eq!(
        require_local(PathStart::Remote, 3),
        Err(LocalError::DriveRequired)
    );
    assert_eq!(
        require_local(PathStart::Relative, 3),
        Err(LocalError::AbsoluteRequired)
    );
    assert!(accepts_length(1) && accepts_length(16 * 1024 * 1024));
    assert!(!accepts_length(0) && !accepts_length(16 * 1024 * 1024 + 1));
}

use window_switcher::config::schema::Config;
use window_switcher::config::document::parse_ini;
use window_switcher::icon_cache::{
    FileVersion, IconBegin, IconCache, IconKey, SourceStamp, ICON_BYTES,
};
use window_switcher::icon_loader::file::{
    big, crc32, ico_resource, icon_resource, little, png_dimensions, valid_dib,
};
use window_switcher::icon_loader::native::{
    accepts_image, icon_dimensions, icon_frame, next_list, next_question, remaining_ms,
    topleft_only, IconFrame, PixelImage, WindowQuestion,
};
use window_switcher::icon_loader::query::{
    accepts_icon, group_parts, icon_sources, override_for, override_path, request_step, IconQuery,
    IconSource, PathForm, RequestPoint, RequestStep,
};
use window_switcher::window_identity::{ProcessIdentity, WindowIdentity};

#[test]
fn ui_references_continue_to_count_after_eviction() {
    let config = Config::default();
    let mut cache = IconCache::new(&config);
    cache.status.byte_limit = ICON_BYTES;
    let icon = cache.reserve().unwrap();
    assert!(cache.retain(icon));
    assert!(cache.release(icon));
    assert_eq!(cache.bytes(), ICON_BYTES);
    assert!(cache.reserve().is_none());
    assert!(cache.release(icon));
    assert_eq!(cache.bytes(), 0);
    assert!(cache.reserve().is_some());
}

fn key(index: u64) -> IconKey {
    IconKey {
        group: format!("fixture-{index}"),
        identity: WindowIdentity {
            window: index,
            process: ProcessIdentity {
                pid: 1,
                created: 1,
            },
            epoch: 0,
            lifetime: 0,
        },
    }
}

fn version(length: u64) -> Option<FileVersion> {
    Some(FileVersion {
        length,
        modified: Some(1),
        created: None,
    })
}

#[test]
fn entries_are_bounded_expire_and_follow_their_sources() {
    let mut cache = IconCache::new(&Config::default());
    cache.status.limit = 2;
    let source = SourceStamp {
        path: "source.ico".to_string(),
        version: version(6),
    };
    cache.insert(key(1), None, vec![source], false, 0);
    assert_eq!(cache.sources(&key(1)).unwrap()[0].path, "source.ico");
    assert_eq!(cache.get(&key(1), 1, &[version(6)]), Some(None));
    assert_eq!(cache.get(&key(1), 1, &[version(14)]), None);
    for index in 1..=3 {
        cache.insert(key(index), None, Vec::new(), false, 0);
    }
    assert_eq!(cache.len(), 2);
    assert_eq!(cache.get(&key(1), 1, &[]), None);
    assert_eq!(cache.get(&key(2), 1_000_000, &[]), None);
    let lease = cache.reserve().unwrap();
    let icon = cache.insert(key(4), Some(lease), Vec::new(), true, 50).unwrap();
    assert_eq!(icon.expires, 30_050);
    assert_eq!(cache.bytes(), ICON_BYTES);
    assert_eq!(cache.get(&key(4), 60, &[]), Some(Some(icon)));
    assert!(cache.release(icon.id));
    cache.insert(key(4), None, Vec::new(), true, 70);
    assert_eq!(cache.bytes(), ICON_BYTES);
    assert!(cache.release(icon.id));
    assert_eq!(cache.bytes(), 0);
    assert!(!cache.release(icon.id));
    assert!(!cache.retain(icon.id));
}

#[test]
fn failures_and_fallbacks_are_counted_and_expire_sooner() {
    let mut cache = IconCache::new(&Config::default());
    let lease = cache.reserve().unwrap();
    let icon = cache.insert(key(1), Some(lease), Vec::new(), false, 10).unwrap();
    assert_eq!(icon.expires, 10 + cache.status.failure_ttl);
    assert_eq!((cache.status.failures, cache.status.fallbacks), (1, 1));
    cache.insert(key(2), None, Vec::new(), true, 10);
    assert_eq!((cache.status.failures, cache.status.fallbacks), (2, 1));
    assert_eq!(cache.get(&key(9), 10, &[]), None);
    assert_eq!((cache.status.hits, cache.status.misses), (0, 1));
}

#[test]
fn requests_are_answered_from_the_cache_or_loaded_or_refused() {
    let mut cache = IconCache::new(&Config::default());
    cache.status.byte_limit = ICON_BYTES;
    let lease = match cache.begin(key(1), 0, &[]) {
        IconBegin::Load(lease) => lease,
        other => panic!("{other:?}"),
    };
    let icon = cache.insert(key(1), Some(lease), Vec::new(), true, 0).unwrap();
    assert_eq!(cache.begin(key(1), 1, &[]), IconBegin::Cached(Some(icon)));
    assert_eq!(cache.begin(key(2), 1, &[]), IconBegin::Full);
    assert_eq!(cache.begin(key(2), 2, &[]), IconBegin::Cached(None));
}

#[test]
fn malformed_icon_tables_and_oversized_pngs_never_reach_native_decode() {
    assert!(ico_resource(&[0, 0, 1, 0, 255, 255]).is_none());
    let mut bytes = vec![0; 22];
    bytes[..6].copy_from_slice(&[0, 0, 1, 0, 1, 0]);
    bytes[14..18].copy_from_slice(&100u32.to_le_bytes());
    bytes[18..22].copy_from_slice(&u32::MAX.to_le_bytes());
    assert!(ico_resource(&bytes).is_none());
    let mut png = b"\x89PNG\r\n\x1a\n\0\0\0\rIHDR".to_vec();
    png.extend_from_slice(&u32::MAX.to_be_bytes());
    png.extend_from_slice(&1u32.to_be_bytes());
    png.extend_from_slice(&[8, 6, 0, 0, 0]);
    assert!(png_dimensions(&png).is_none());
    assert_eq!(crc32(b"123456789"), 0xcbf43926);
}

fn bitmap() -> Vec<u8> {
    let mut bitmap = vec![0u8; 64];
    bitmap[..4].copy_from_slice(&40u32.to_le_bytes());
    bitmap[4..8].copy_from_slice(&2u32.to_le_bytes());
    bitmap[8..12].copy_from_slice(&4u32.to_le_bytes());
    bitmap[12..16].copy_from_slice(&[1, 0, 32, 0]);
    bitmap
}

fn table(images: &[(u8, Vec<u8>)]) -> Vec<u8> {
    let mut file = vec![0, 0, 1, 0, images.len() as u8, 0];
    let mut offset = 6 + images.len() * 16;
    for (size, image) in images {
        file.extend_from_slice(&[*size, *size, 0, 0, 1, 0, 32, 0]);
        file.extend_from_slice(&(image.len() as u32).to_le_bytes());
        file.extend_from_slice(&(offset as u32).to_le_bytes());
        offset += image.len();
    }
    for (_, image) in images {
        file.extend_from_slice(image);
    }
    file
}

fn png(width: u32, height: u32) -> Vec<u8> {
    let mut png = b"\x89PNG\r\n\x1a\n".to_vec();
    let mut header = Vec::new();
    header.extend_from_slice(&width.to_be_bytes());
    header.extend_from_slice(&height.to_be_bytes());
    header.extend_from_slice(&[8, 6, 0, 0, 0]);
    for (kind, data) in [
        (b"IHDR", header),
        (b"IDAT", vec![1, 2, 3]),
        (b"IEND", Vec::new()),
    ] {
        png.extend_from_slice(&(data.len() as u32).to_be_bytes());
        let start = png.len();
        png.extend_from_slice(kind);
        png.extend_from_slice(&data);
        let sum = crc32(&png[start..]);
        png.extend_from_slice(&sum.to_be_bytes());
    }
    png
}

#[test]
fn sound_images_are_accepted_and_the_largest_is_taken() {
    assert!(valid_dib(&bitmap(), 2, 2));
    assert!(!valid_dib(&bitmap(), 3, 2));
    assert!(!valid_dib(&bitmap()[..55], 2, 2));
    assert_eq!(png_dimensions(&png(1, 1)), Some((1, 1)));
    assert_eq!(png_dimensions(&png(1024, 7)), Some((1024, 7)));
    assert_eq!(png_dimensions(&png(1025, 7)), None);
    let mut damaged = png(1, 1);
    *damaged.last_mut().unwrap() ^= 1;
    assert_eq!(png_dimensions(&damaged), None);
    assert!(icon_resource(&damaged).is_none());
    assert_eq!(icon_resource(&png(3, 3)), Some(png(3, 3).as_slice()));
    let file = table(&[(2, bitmap()), (4, png(4, 4))]);
    assert_eq!(ico_resource(&file), Some(png(4, 4).as_slice()));
    assert_eq!(icon_resource(&file), Some(png(4, 4).as_slice()));
    let wrong = table(&[(2, bitmap()), (5, png(4, 4))]);
    assert!(ico_resource(&wrong).is_none());
    assert!(icon_resource(&[]).is_none());
}

#[test]
fn numbers_are_read_in_both_orders() {
    let bytes = [1, 2, 3, 4, 5];
    assert_eq!(little(&bytes, 0), Some(0x04030201));
    assert_eq!(big(&bytes, 1), Some(0x02030405));
    assert_eq!(little(&bytes, 2), None);
    assert_eq!(big(&bytes, usize::MAX), None);
}

fn image(width: u32, height: u32, visible: &[(u32, u32)]) -> PixelImage {
    let mut data = vec![0u8; (width * height * 4) as usize];
    for (x, y) in visible {
        data[((y * width + x) * 4 + 3) as usize] = 255;
    }
    PixelImage {
        width,
        height,
        data,
    }
}

#[test]
fn images_in_the_corner_are_told_from_full_ones() {
    assert!(topleft_only(&image(8, 8, &[])));
    assert!(topleft_only(&image(8, 8, &[(0, 0), (2, 2)])));
    assert!(!topleft_only(&image(8, 8, &[(0, 0), (7, 7)])));
    assert!(!topleft_only(&image(8, 8, &[(6, 6)])));
    // A centre at exactly three tenths is not before it.
    assert!(!topleft_only(&image(10, 10, &[(3, 3)])));
    assert!(topleft_only(&image(10, 10, &[(2, 2)])));
}

#[test]
fn icons_are_fitted_into_their_square() {
    assert_eq!(
        icon_frame(32, 16, 64),
        Some(IconFrame {
            left: 0,
            top: 16,
            width: 64,
            height: 32
        })
    );
    assert_eq!(icon_frame(1024, 1, 16).unwrap().height, 1);
    assert_eq!(icon_frame(0, 1, 16), None);
    assert_eq!(icon_frame(1, 1025, 16), None);
    assert_eq!(icon_frame(1, 1, 1025), None);
    assert_eq!(icon_dimensions(16, 32, false), (16, 16));
    assert_eq!(icon_dimensions(16, 32, true), (16, 32));
    assert_eq!(icon_dimensions(16, -33, false), (16, -16));
    assert_eq!(remaining_ms(60, 20), 40);
    assert_eq!(remaining_ms(60, 61), 0);
    assert_eq!(remaining_ms(u64::MAX, 0), u32::MAX);
}

#[test]
fn windows_and_files_are_asked_from_large_to_small() {
    assert_eq!(next_question(None, 60, 60), None);
    assert_eq!(
        next_question(None, 60, 10),
        Some((WindowQuestion::Large, 50))
    );
    assert_eq!(
        next_question(Some(WindowQuestion::Large), 60, 70),
        Some((WindowQuestion::Class, 0))
    );
    assert_eq!(next_question(Some(WindowQuestion::Class), 60, 70), None);
    assert_eq!(
        next_question(Some(WindowQuestion::Class), 60, 59),
        Some((WindowQuestion::Small, 1))
    );
    assert_eq!(next_question(Some(WindowQuestion::Small), 60, 0), None);
    assert_eq!(next_list(None, true), Some(4));
    assert_eq!(next_list(Some(4), true), Some(2));
    assert_eq!(next_list(Some(2), true), Some(0));
    assert_eq!(next_list(Some(0), true), None);
    assert_eq!(next_list(None, false), None);
    assert!(accepts_image(Some(&image(8, 8, &[(0, 0), (7, 7)]))));
    assert!(!accepts_image(Some(&image(8, 8, &[(0, 0)]))));
    assert!(!accepts_image(None));
}

#[test]
fn outdated_requests_are_given_up() {
    assert_eq!(
        request_step(RequestPoint::Begin, false, true),
        RequestStep::Stop
    );
    assert_eq!(
        request_step(RequestPoint::Begin, true, false),
        RequestStep::Skip
    );
    assert_eq!(
        request_step(RequestPoint::Loaded, true, false),
        RequestStep::Discard
    );
    assert_eq!(
        request_step(RequestPoint::Naming, true, false),
        RequestStep::Proceed
    );
    assert_eq!(
        request_step(RequestPoint::Publish, true, false),
        RequestStep::Skip
    );
    assert_eq!(
        request_step(RequestPoint::Publish, true, true),
        RequestStep::Proceed
    );
}

#[test]
fn icons_are_looked_for_in_order() {
    assert_eq!(
        group_parts("C:\\app.exe::appx::Name"),
        ["C:\\app.exe", "appx", "Name"]
    );
    assert_eq!(
        icon_sources("app.exe::appx::Name", true),
        [
            IconSource::Override,
            IconSource::Package,
            IconSource::ExecutableLogo,
            IconSource::Executable,
            IconSource::Window
        ]
    );
    assert_eq!(
        icon_sources("app.exe::Default::Name", false)[0],
        IconSource::Shortcut
    );
    assert_eq!(
        icon_sources("app.exe::Default", false)[0],
        IconSource::Profile
    );
    assert_eq!(
        icon_sources("app.exe", false)[0],
        IconSource::ExecutableLogo
    );
    assert_eq!(
        icon_sources("a::b::c::d", false)[0],
        IconSource::ExecutableLogo
    );
    let executable = SourceStamp {
        path: "app.exe".to_string(),
        version: None,
    };
    let mut query = IconQuery::new("app.exe", executable.clone(), None);
    assert_eq!(
        query.next_source(0, 10, true),
        Some(IconSource::ExecutableLogo)
    );
    query.note(executable.clone());
    assert_eq!(query.next_source(11, 10, true), None);
    assert_eq!(query.next_source(9, 10, false), None);
    assert_eq!(query.next_source(9, 10, true), Some(IconSource::Executable));
    assert_eq!(query.next_source(9, 10, true), Some(IconSource::Window));
    assert_eq!(query.next_source(9, 10, true), None);
    assert_eq!(query.stamps, [executable.clone(), executable]);
    assert!(accepts_icon(9, 10, true));
    assert!(!accepts_icon(10, 10, true));
}

#[test]
fn overrides_match_names_in_lower_case() {
    let config = Config::load(
        &parse_ini("[switch-apps]\noverride_icons = Ä.exe=first.ico, app=second.ico\n").unwrap(),
    )
    .unwrap();
    let overrides = &config.switch_apps_override_icons;
    assert_eq!(
        override_for(overrides, "C:\\Ä.EXE::App").as_deref(),
        Some("first.ico")
    );
    assert_eq!(
        override_for(overrides, "C:\\MyApp.exe").as_deref(),
        Some("second.ico")
    );
    assert_eq!(override_for(overrides, "C:\\other.exe"), None);
}

#[test]
fn each_key_names_its_own_files() {
    let mut cache = IconCache::new(&Config::default());
    let absent = |path: &str| SourceStamp {
        path: path.to_string(),
        version: None,
    };
    cache.insert(key(1), None, vec![absent("first.ico")], false, 0);
    cache.insert(key(2), None, vec![absent("second.ico")], false, 0);
    assert_eq!(cache.sources(&key(1)), Some(&vec![absent("first.ico")]));
    assert_eq!(cache.sources(&key(2)), Some(&vec![absent("second.ico")]));
    assert_eq!(cache.sources(&key(3)), None);
    cache.insert(key(1), None, vec![absent("a.exe"), absent("b.ico")], false, 0);
    assert_eq!(
        cache.sources(&key(1)),
        Some(&vec![absent("a.exe"), absent("b.ico")])
    );
    assert_eq!(cache.sources(&key(2)), Some(&vec![absent("second.ico")]));
}

#[test]
fn overrides_lie_beside_the_executable_or_where_they_say() {
    let below = |folder, volume, path| {
        override_path(folder, volume, false, path, PathForm::Relative).unwrap()
    };
    let folder = "C:\\Program Files\\App";
    assert_eq!(
        below(folder, "C:", "icons\\app.ico"),
        "C:\\Program Files\\App\\icons\\app.ico"
    );
    assert_eq!(below("C:\\", "C:", "app.ico"), "C:\\app.ico");
    assert_eq!(below("C:/apps/", "C:", "app.ico"), "C:/apps/app.ico");
    assert_eq!(below("C:", "C:", "app.ico"), "C:app.ico");
    assert_eq!(below("ab", "", "app.ico"), "ab\\app.ico");
    assert_eq!(below("", "", "app.ico"), "app.ico");
    let place = |path, form| override_path(folder, "C:", false, path, form);
    for path in ["D:\\app.ico", "D:app.ico", "\\\\server\\share\\app.ico"] {
        assert_eq!(place(path, PathForm::Whole).as_deref(), Some(path));
    }
    assert_eq!(
        place("\\icons\\a.ico", PathForm::Rooted).as_deref(),
        Some("C:\\icons\\a.ico")
    );
    assert_eq!(
        override_path("", "", false, "\\icons\\a.ico", PathForm::Rooted).as_deref(),
        Some("\\icons\\a.ico")
    );
    let verbatim = |path, form| override_path("\\\\?\\C:\\App", "\\\\?\\C:", true, path, form);
    assert_eq!(verbatim("app.ico", PathForm::Relative), None);
    assert_eq!(verbatim("\\app.ico", PathForm::Rooted), None);
    assert_eq!(
        verbatim("D:\\app.ico", PathForm::Whole).as_deref(),
        Some("D:\\app.ico")
    );
}

#[test]
fn the_file_of_an_override_is_watched_even_where_the_search_is_late() {
    let stamp = |path: &str| SourceStamp {
        path: path.to_string(),
        version: version(3),
    };
    let mut query = IconQuery::new("app.exe", stamp("app.exe"), Some(stamp("app.ico")));
    assert_eq!(query.next_source(10, 10, true), None);
    assert_eq!(query.stamps, [stamp("app.exe"), stamp("app.ico")]);
    assert_eq!(query.next_source(9, 10, true), Some(IconSource::Override));
}

#[test]
fn bitmaps_of_any_size_are_checked() {
    let mut wide = vec![0u8; 40 + 300 * 4 * 2];
    wide[..40].copy_from_slice(&bitmap()[..40]);
    wide[4..8].copy_from_slice(&300u32.to_le_bytes());
    assert!(valid_dib(&wide, 300, 2));
    assert!(!valid_dib(&wide[..wide.len() - 1], 300, 2));
    assert!(!valid_dib(&bitmap(), 2, 0x8000_0002));
    let mut huge = bitmap();
    huge[4..8].copy_from_slice(&u32::MAX.to_le_bytes());
    huge[8..12].copy_from_slice(&0xffff_fffeu32.to_le_bytes());
    assert!(!valid_dib(&huge, u32::MAX, 0x7fff_ffff));
}

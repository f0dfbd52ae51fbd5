use osvwm::display::{DisplayBackend, ImageFile, Transform, WallpaperMode};

const WLR: &str = "eDP-1 \"BOE 0x0BCA Unknown\"
  Enabled: yes
  Modes:
    2256x1504 px, 59.999001 Hz (preferred, current)
    1920x1200 px, 59.950001 Hz
  Position: 0,0
  Transform: normal
  Scale: 1.500000
  Physical size: 285x190 mm
HDMI-A-1 \"Dell Inc. U2720Q ABC123\"
  Enabled: no
  Modes:
    3840x2160 px, 60.000000 Hz (preferred)
  Position: 1504,-200
  Transform: 90
";

#[test]
fn transforms_of_wlr_randr() {
    assert_eq!(Transform::from_str("ROTATE90"), Transform::Rotate90);
    assert_eq!(Transform::from_str("flipped180"), Transform::Flipped180);
    assert_eq!(Transform::from_str("sideways"), Transform::Normal);
    assert_eq!(Transform::Flipped270.to_wlr_randr(), "flipped-270");
    for t in [Transform::Normal, Transform::Rotate90, Transform::Flipped90, Transform::Flipped270] {
        assert_eq!(Transform::from_str(t.to_wlr_randr()), t);
    }
    assert_eq!(WallpaperMode::default(), WallpaperMode::Fill);
}

#[test]
fn mode_lines() {
    let m = DisplayBackend::parse_mode_line("1920x1080 px, 60.000000 Hz (preferred, current)").unwrap();
    assert_eq!((m.width, m.height), (1920, 1080));
    assert!(m.preferred);
    assert_eq!(m.refresh, Some("60.000000".to_string()));
    let hi = DisplayBackend::parse_mode_line("2560x1440 px, 144.000000 Hz (preferred, current)").unwrap();
    assert_eq!(hi.refresh, Some("144.000000".to_string()));
    assert!(hi.preferred);
    let r = DisplayBackend::parse_mode_line("1920x1200 px, 59.950001 Hz").unwrap();
    assert_eq!(r.refresh, Some("59.950001".to_string()));
    let n = DisplayBackend::parse_mode_line("800x600 px").unwrap();
    assert!(!n.preferred);
    assert_eq!(n.refresh, None);
    assert!(DisplayBackend::parse_mode_line("garbage").is_none());
}

#[test]
fn displays_of_wlr_randr() {
    let d = DisplayBackend::list_displays_text(WLR);
    assert_eq!(d.len(), 2);
    assert_eq!(d[0].name, "eDP-1");
    assert_eq!(d[0].make, "BOE");
    assert_eq!(d[0].model, "0x0BCA");
    assert!(d[0].enabled);
    assert_eq!(d[0].modes.len(), 2);
    assert_eq!(d[0].current_mode.as_ref().unwrap().width, 2256);
    assert_eq!(d[0].scale, Some("1.500000".to_string()));
    assert_eq!((d[0].physical_size.width_mm, d[0].physical_size.height_mm), (285, 190));
    assert_eq!(d[1].name, "HDMI-A-1");
    assert!(!d[1].enabled);
    assert!(d[1].current_mode.is_none());
    assert_eq!((d[1].position.x, d[1].position.y), (1504, -200));
    assert_eq!(d[1].transform, Transform::Rotate90);
    assert_eq!(d[1].serial, "U2720Q");
}

fn file(path: &str, name: Option<&str>, ext: Option<&str>) -> ImageFile {
    ImageFile {
        path: path.to_string(),
        file_name: name.map(|s| s.to_string()),
        extension: ext.map(|s| s.to_string()),
    }
}

#[test]
fn wallpapers_are_images_sorted_by_file_name() {
    let found = vec![
        file("/usr/share/backgrounds/z/sunset.JPG", Some("sunset.JPG"), Some("JPG")),
        file("/usr/share/backgrounds/README", Some("README"), None),
        file("/home/u/.local/share/wallpapers/aurora.webp", Some("aurora.webp"), Some("webp")),
        file("/usr/share/backgrounds/notes.txt", Some("notes.txt"), Some("txt")),
        file("/usr/share/backgrounds/forest.png", Some("forest.png"), Some("png")),
    ];
    assert_eq!(
        DisplayBackend::list_wallpapers(&found),
        vec![
            "/home/u/.local/share/wallpapers/aurora.webp".to_string(),
            "/usr/share/backgrounds/forest.png".to_string(),
            "/usr/share/backgrounds/z/sunset.JPG".to_string(),
        ]
    );
}

#[test]
fn position_arguments() {
    assert_eq!(DisplayBackend::position_argument(0, 0), "0,0");
    assert_eq!(DisplayBackend::position_argument(1920, -1080), "1920,-1080");
}

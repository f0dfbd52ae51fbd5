use core::time::Duration;
use osvwm::ipc::{
    scale_is_auto, LayoutSwitchTarget, ModeText, SizeChangeText, Timestamp, Transform,
    WorkspaceReferenceArg,
};

#[test]
fn workspace_references() {
    assert_eq!("3".parse::<WorkspaceReferenceArg>(), Ok(WorkspaceReferenceArg::Index(3)));
    assert_eq!(
        WorkspaceReferenceArg::parse("browser"),
        Ok(WorkspaceReferenceArg::Name("browser".to_string()))
    );
    assert_eq!(
        WorkspaceReferenceArg::parse("256"),
        Err("workspace index must be between 0 and 255")
    );
    assert_eq!(
        WorkspaceReferenceArg::parse("-1"),
        Err("workspace index must be between 0 and 255")
    );
}

#[test]
fn layout_targets() {
    assert_eq!("next".parse::<LayoutSwitchTarget>(), Ok(LayoutSwitchTarget::Next));
    assert_eq!(LayoutSwitchTarget::parse("prev"), Ok(LayoutSwitchTarget::Prev));
    assert_eq!(LayoutSwitchTarget::parse("2"), Ok(LayoutSwitchTarget::Index(2)));
    assert!(LayoutSwitchTarget::parse("300").is_err());
    assert!(LayoutSwitchTarget::parse("Next").is_err());
}

#[test]
fn transforms_by_name() {
    assert_eq!("flipped-90".parse::<Transform>(), Ok(Transform::Flipped90));
    assert_eq!(Transform::parse("normal"), Ok(Transform::Normal));
    assert_eq!(Transform::parse("270"), Ok(Transform::_270));
    assert!(Transform::parse("45").is_err());
}

#[test]
fn size_changes() {
    assert_eq!(SizeChangeText::parse("100"), Ok(SizeChangeText::SetFixed(100)));
    assert_eq!(SizeChangeText::parse("-20"), Ok(SizeChangeText::AdjustFixed(-20)));
    assert_eq!(
        SizeChangeText::parse("+10%"),
        Ok(SizeChangeText::AdjustProportion("+10".to_string()))
    );
    assert_eq!(
        SizeChangeText::parse("50%"),
        Ok(SizeChangeText::SetProportion("50".to_string()))
    );
    assert_eq!(
        SizeChangeText::parse("50%x"),
        Err("trailing characters after '%' are not allowed")
    );
    assert_eq!(SizeChangeText::parse(""), Err("value is missing"));
    assert_eq!(SizeChangeText::parse("%"), Err("value is missing"));
    assert_eq!(SizeChangeText::parse("abc"), Err("error parsing value"));
}

#[test]
fn modes_and_scales() {
    let m = ModeText::parse("1920x1080@60.000").unwrap().unwrap();
    assert_eq!((m.width, m.height), (1920, 1080));
    assert_eq!(m.refresh, Some("60.000".to_string()));
    let n = ModeText::parse("1280x720").unwrap().unwrap();
    assert_eq!(n.refresh, None);
    assert!(ModeText::parse("AUTO").unwrap().is_none());
    assert_eq!(ModeText::parse("1920").unwrap_err(), "no 'x' separator found");
    assert_eq!(ModeText::parse("axb").unwrap_err(), "error parsing width");
    assert_eq!(ModeText::parse("10x").unwrap_err(), "error parsing height");
    assert!(scale_is_auto("Auto"));
    assert!(!scale_is_auto("1.5"));
}

#[test]
fn timestamps_and_durations() {
    let t = Timestamp::from(Duration::new(5, 250));
    assert_eq!(t, Timestamp { secs: 5, nanos: 250 });
    assert_eq!(t.to_duration(), Duration::new(5, 250));
    let carried = Timestamp { secs: 1, nanos: 2_500_000_000 }.to_duration();
    assert_eq!(carried, Duration::new(3, 500_000_000));
}

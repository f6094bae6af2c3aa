use cmd_utils::controls::{brightness_step, device_settings, icon_level, write_mode_enabled};

#[test]
fn icon_level_rounds_to_five() {
    assert_eq!(icon_level(0), 0);
    assert_eq!(icon_level(2), 0);
    assert_eq!(icon_level(3), 5);
    assert_eq!(icon_level(75), 75);
    assert_eq!(icon_level(77), 75);
    assert_eq!(icon_level(78), 80);
    assert_eq!(icon_level(u32::MAX), 4294967295);
}

#[test]
fn brightness_steps() {
    assert_eq!(brightness_step(true, 9, false), "set +1%");
    assert_eq!(brightness_step(true, 10, false), "set +5%");
    assert_eq!(brightness_step(true, 50, true), "set +1%");
    assert_eq!(brightness_step(false, 10, false), "set 1%-");
    assert_eq!(brightness_step(false, 11, false), "set 5%-");
    assert_eq!(brightness_step(false, 50, true), "set 1%-");
}

#[test]
fn device_settings_text() {
    let devices = vec![String::from("pad"), String::from("pen")];
    assert_eq!(
        device_settings(&devices, false),
        "device {\n  name = pad\n  enabled = false\n}\ndevice {\n  name = pen\n  enabled = false\n}\n"
    );
    assert_eq!(device_settings(&Vec::new(), true), "");
}

#[test]
fn write_mode_state() {
    assert!(write_mode_enabled("1\n"));
    assert!(write_mode_enabled(" 1 "));
    assert!(!write_mode_enabled("0\n"));
    assert!(!write_mode_enabled(""));
    assert!(!write_mode_enabled("11"));
}

use screenpipe_audio::device::{should_include_output_device, DeviceLookup};
use screenpipe_audio::{parse_audio_device, AudioDevice, DeviceParseError, DeviceType};

#[test]
fn device_parse_round_trip_scenario() {
    let mic = parse_audio_device("Mic 1 (input)").unwrap();
    assert_eq!(mic, AudioDevice::new("Mic 1".to_string(), DeviceType::Input));
    assert_eq!(mic.to_string(), "Mic 1 (input)");

    let display = parse_audio_device("Display 1 (output)").unwrap();
    assert_eq!(display, AudioDevice::new("Display 1".to_string(), DeviceType::Output));
    assert_eq!(display.to_string(), "Display 1 (output)");

    assert_eq!(parse_audio_device("Bad name"), Err(DeviceParseError::MissingKind));
}

#[test]
fn parse_of_display_gives_device_back() {
    for (name, kind) in [
        ("MacBook Pro Microphone", DeviceType::Input),
        ("Mic (input)", DeviceType::Output),
        ("x", DeviceType::Input),
        ("Display 2: HDMI", DeviceType::Output),
    ] {
        let d = AudioDevice::new(name.to_string(), kind);
        assert_eq!(AudioDevice::from_name(&d.to_string()), Ok(d.clone()));
    }
}

#[test]
fn empty_and_blank_names_are_refused() {
    assert_eq!(AudioDevice::from_name(""), Err(DeviceParseError::EmptyName));
    assert_eq!(AudioDevice::from_name("   \t"), Err(DeviceParseError::EmptyName));
    assert_eq!(AudioDevice::from_name("(input)"), Err(DeviceParseError::EmptyName));
    assert_eq!(AudioDevice::from_name("  (output) "), Err(DeviceParseError::MissingKind));
}

#[test]
fn kind_label_ignores_ascii_case_and_trims_name() {
    let d = AudioDevice::from_name("  USB Mic   (input)").unwrap();
    assert_eq!(d.name, "USB Mic");
    assert_eq!(d.device_type, DeviceType::Input);
    // The label is recognised and cut off in any ASCII case.
    let upper = AudioDevice::from_name("Mic (INPUT)").unwrap();
    assert_eq!(upper.name, "Mic");
    assert_eq!(upper.device_type, DeviceType::Input);
    let twice = AudioDevice::from_name("Mic (Output)(output)").unwrap();
    assert_eq!(twice.name, "Mic");
    assert_eq!(twice.device_type, DeviceType::Output);
}

#[test]
fn lookup_strips_labels_and_picks_config() {
    let d = AudioDevice::new("Speakers (output) left".to_string(), DeviceType::Output);
    let l: DeviceLookup = d.lookup();
    assert_eq!(l.host_name, "Speakers left");
    assert!(l.use_output_config);

    let display = AudioDevice::new("Display 1".to_string(), DeviceType::Output);
    let l = display.lookup();
    assert_eq!(l.host_name, "Display 1");
    assert!(!l.use_output_config);

    let default = AudioDevice::new("default".to_string(), DeviceType::Output);
    assert_eq!(default.lookup().host_name, "default");

    let mic = AudioDevice::new(" Mic ".to_string(), DeviceType::Input);
    let l = mic.lookup();
    assert_eq!(l.host_name, "Mic");
    assert!(!l.use_output_config);
}

#[test]
fn output_filter_lowercases_names() {
    assert!(!should_include_output_device("MacBook Pro SPEAKERS"));
    assert!(!should_include_output_device("Jo's AirPods Pro"));
    assert!(should_include_output_device("Display 1"));
    assert!(should_include_output_device("BlackHole 2ch"));
}

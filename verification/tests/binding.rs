use edgetpu::marshal::{is_c_safe, text_from_native, text_to_native};
use edgetpu::{
    set_verbosity, version, DeviceOptions, DeviceRecord, DeviceType, EdgeTPUError, EdgeTpuContext,
    ExternalContext, NativeDevice, NativeOption, OpenRequest, VerbosityRequest,
};

fn options_of(pairs: &[(&str, &str)]) -> DeviceOptions {
    let mut options = DeviceOptions::new();
    for (key, value) in pairs {
        options.insert(key.to_string(), value.to_string());
    }
    options
}

fn native_option(key: &str, value: &str) -> NativeOption {
    NativeOption { key: key.as_bytes().to_vec(), value: value.as_bytes().to_vec() }
}

fn sorted(mut entries: Vec<(String, String)>) -> Vec<(String, String)> {
    entries.sort();
    entries
}

#[test]
fn test_version() {
    let reply = b"BuildLabel(COMPILER=6.3.0 20170516,DATE=redacted,TIME=redacted), RuntimeVersion(13)"
        .to_vec();
    let text = version(&reply);
    println!("{}", text);
    assert_eq!(
        text,
        "BuildLabel(COMPILER=6.3.0 20170516,DATE=redacted,TIME=redacted), RuntimeVersion(13)"
    );
}

#[test]
fn test_open() {
    for (session, status) in [(0usize, 0i32), (0x7f3a_1000usize, 1i32)] {
        match EdgeTpuContext::open_device().complete(session) {
            Ok(ctx) => assert!(ctx.is_ready(status), "if edge tpu was opened, it must be ready"),
            Err(err) => println!("failed to connect to edge tpu: {}", err.message()),
        }
    }
}

#[test]
fn test_enumerate() {
    let listing = vec![
        NativeDevice { type_tag: 0, path: b"/dev/apex_0".to_vec() },
        NativeDevice { type_tag: 1, path: b"/sys/bus/usb/devices/2-1".to_vec() },
    ];
    let devices = EdgeTpuContext::enumerate_devices(&listing);
    println!("{} TPU Devices", devices.len());
    assert_eq!(devices.len(), 2);
    let mut lines = Vec::new();
    for device in devices {
        let line = format!(
            "\t{}: {}",
            device.path,
            match device.device_type {
                DeviceType::ApexPCI => "PCI",
                DeviceType::ApexUSB => "USB",
            }
        );
        println!("{}", line);
        lines.push(line);
    }
    assert_eq!(lines, vec!["\t/dev/apex_0: PCI", "\t/sys/bus/usb/devices/2-1: USB"]);
}

#[test]
fn test_options() {
    let options = options_of(&[
        ("Performance", "Low"),
        ("Usb.AlwaysDfu", "False"),
        ("Usb.MaxBulkInQueueLength", "32"),
    ]);
    assert!(is_c_safe(""));
    assert!(options.is_sendable());
    let request = EdgeTpuContext::open_device_options(DeviceType::ApexUSB, "", &options);
    let sent = match &request {
        OpenRequest::WithOptions { type_tag, path, options } => {
            assert_eq!(*type_tag, 1);
            assert!(path.is_empty());
            options.clone()
        }
        other => panic!("unexpected request {:?}", other),
    };
    assert_eq!(sent.len(), 3);
    for session in [0usize, 0x5000usize] {
        match request.clone().complete(session) {
            Ok(ctx) => {
                let options = ctx.device_options(&sent);
                println!("options map size: {}", options.len());
                assert_eq!(options.len(), 3);
                let entries = sorted(options.into_entries());
                entries.iter().for_each(|(key, value)| println!("\t{}: {}", key, value));
                assert_eq!(
                    entries,
                    vec![
                        ("Performance".to_string(), "Low".to_string()),
                        ("Usb.AlwaysDfu".to_string(), "False".to_string()),
                        ("Usb.MaxBulkInQueueLength".to_string(), "32".to_string()),
                    ]
                );
            }
            Err(err) => println!("failed to connect to edge tpu: {}", err.message()),
        }
    }
}

#[test]
fn test_set_verbosity() {
    assert!(set_verbosity(1).complete(0).is_ok(), "failed to set verbosity");
}

#[test]
fn no_devices_gives_empty_listing_and_open_failure() {
    let records = EdgeTpuContext::enumerate_devices(&Vec::new());
    assert!(records.is_empty());
    let outcome = EdgeTpuContext::open_device().complete(0);
    assert_eq!(outcome.err(), Some(EdgeTPUError::OpenFailed));
}

#[test]
fn one_usb_device_is_listed_and_opened() {
    let listing = vec![NativeDevice { type_tag: 1, path: b"/dev/accel0".to_vec() }];
    let records = EdgeTpuContext::enumerate_devices(&listing);
    assert_eq!(
        records,
        vec![DeviceRecord { device_type: DeviceType::ApexUSB, path: "/dev/accel0".to_string() }]
    );
    assert!(is_c_safe("/dev/accel0"));
    let request = EdgeTpuContext::open_device_path(DeviceType::ApexUSB, "/dev/accel0");
    assert_eq!(request, OpenRequest::AtPath { type_tag: 1, path: b"/dev/accel0".to_vec() });
    let ctx = request.complete(0x1000).expect("a session was handed back");
    assert!(ctx.is_ready(1));
}

#[test]
fn enumeration_does_not_depend_on_listing_order() {
    let a = NativeDevice { type_tag: 1, path: b"/dev/accel0".to_vec() };
    let b = NativeDevice { type_tag: 0, path: b"/dev/apex_0".to_vec() };
    let c = NativeDevice { type_tag: 1, path: b"/dev/accel1".to_vec() };
    let first = EdgeTpuContext::enumerate_devices(&vec![a.clone(), b.clone(), c.clone()]);
    let second = EdgeTpuContext::enumerate_devices(&vec![c, a, b]);
    let again = EdgeTpuContext::enumerate_devices(&vec![
        NativeDevice { type_tag: 1, path: b"/dev/accel0".to_vec() },
        NativeDevice { type_tag: 0, path: b"/dev/apex_0".to_vec() },
        NativeDevice { type_tag: 1, path: b"/dev/accel1".to_vec() },
    ]);
    assert_eq!(first, again);
    assert_eq!(first.len(), second.len());
    for record in &first {
        assert_eq!(
            first.iter().filter(|r| *r == record).count(),
            second.iter().filter(|r| *r == record).count()
        );
    }
}

#[test]
fn only_two_tags_stand_for_a_device_type() {
    for tag in 0..=255u8 {
        match DeviceType::from_native_tag(tag) {
            Some(device_type) => {
                assert!(tag == 0 || tag == 1);
                assert!(device_type == DeviceType::ApexPCI || device_type == DeviceType::ApexUSB);
                assert_eq!(device_type.native_tag(), tag);
            }
            None => assert!(tag > 1),
        }
    }
    assert_eq!(DeviceType::from_native_tag(0), Some(DeviceType::ApexPCI));
    assert_eq!(DeviceType::from_native_tag(1), Some(DeviceType::ApexUSB));
    assert_eq!(DeviceType::from_native_tag(2), None);
    assert_eq!(DeviceType::ApexPCI.native_tag(), 0);
    assert_eq!(DeviceType::ApexUSB.native_tag(), 1);
}

#[test]
fn every_kind_of_request_fails_alike_without_a_session() {
    let options = options_of(&[("Performance", "Max")]);
    let requests = vec![
        EdgeTpuContext::open_device(),
        EdgeTpuContext::open_device_type(DeviceType::ApexPCI),
        EdgeTpuContext::open_device_path(DeviceType::ApexUSB, "/dev/accel0"),
        EdgeTpuContext::open_device_options(DeviceType::ApexUSB, "/dev/accel0", &options),
    ];
    for request in requests {
        assert_eq!(request.clone().complete(0).err(), Some(EdgeTPUError::OpenFailed));
        let ctx = request.complete(1).expect("any address but null is a session");
        assert_eq!(ctx.to_external_context(), ExternalContext { address: 1 });
    }
}

#[test]
fn requests_carry_the_native_tag() {
    assert_eq!(EdgeTpuContext::open_device(), OpenRequest::Any);
    assert_eq!(
        EdgeTpuContext::open_device_type(DeviceType::ApexPCI),
        OpenRequest::OfType { type_tag: 0 }
    );
    assert_eq!(
        EdgeTpuContext::open_device_type(DeviceType::ApexUSB),
        OpenRequest::OfType { type_tag: 1 }
    );
    assert_eq!(
        EdgeTpuContext::open_device_path(DeviceType::ApexPCI, "/dev/apex_0"),
        OpenRequest::AtPath { type_tag: 0, path: b"/dev/apex_0".to_vec() }
    );
}

#[test]
fn request_with_options_holds_one_entry_for_each_option() {
    let options = options_of(&[("Performance", "Low"), ("Usb.AlwaysDfu", "False")]);
    let request = EdgeTpuContext::open_device_options(DeviceType::ApexUSB, "/dev/accel0", &options);
    assert_eq!(
        request,
        OpenRequest::WithOptions {
            type_tag: 1,
            path: b"/dev/accel0".to_vec(),
            options: vec![
                native_option("Performance", "Low"),
                native_option("Usb.AlwaysDfu", "False"),
            ],
        }
    );
}

#[test]
fn clones_stand_for_the_same_session() {
    let ctx = EdgeTpuContext::open_device().complete(0xdead_b000).unwrap();
    let copy = ctx.clone();
    assert_eq!(copy.to_external_context().address, 0xdead_b000);
    drop(ctx);
    assert_eq!(copy.to_external_context().address, 0xdead_b000);
    assert!(copy.is_ready(1));
}

#[test]
fn external_context_is_the_session_address() {
    let ctx = EdgeTpuContext::open_device_type(DeviceType::ApexPCI).complete(0x7000_0040).unwrap();
    assert_eq!(ctx.to_external_context(), ExternalContext { address: 0x7000_0040 });
    assert_ne!(ctx.to_external_context().address, 0);
    let largest = EdgeTpuContext::open_device().complete(usize::MAX).unwrap();
    assert_eq!(largest.to_external_context().address, usize::MAX);
}

#[test]
fn readiness_follows_the_native_status() {
    let ctx = EdgeTpuContext::open_device().complete(8).unwrap();
    assert!(!ctx.is_ready(0));
    assert!(ctx.is_ready(1));
    assert!(ctx.is_ready(-1));
    assert!(ctx.is_ready(i32::MAX));
    assert!(ctx.is_ready(i32::MIN));
}

#[test]
fn options_sent_come_back_among_the_effective_ones() {
    let options = options_of(&[("Performance", "Low"), ("Usb.MaxBulkInQueueLength", "32")]);
    let mut reply = vec![native_option("Usb.AlwaysDfu", "True")];
    reply.extend(options.to_native());
    reply.push(native_option("Pci.Watchdog", "5000"));
    let ctx = EdgeTpuContext::open_device().complete(0x2000).unwrap();
    let effective = ctx.device_options(&reply);
    assert_eq!(effective.len(), 4);
    for (key, value) in options.clone().into_entries() {
        assert_eq!(effective.get(&key), Some(&value));
    }
    assert_eq!(effective.get(&"Usb.AlwaysDfu".to_string()), Some(&"True".to_string()));
    assert_eq!(effective.get(&"Pci.Watchdog".to_string()), Some(&"5000".to_string()));
    assert_eq!(effective.get(&"Missing".to_string()), None);
}

#[test]
fn options_survive_the_round_trip_unchanged() {
    let options = options_of(&[
        ("Performance", "Low"),
        ("Usb.AlwaysDfu", "False"),
        ("Gr\u{fc}\u{df}e", "\u{4f60}\u{597d} \u{1f600}"),
        ("", ""),
    ]);
    let back = DeviceOptions::from_native(&options.to_native());
    assert_eq!(sorted(back.into_entries()), sorted(options.into_entries()));
}

#[test]
fn a_name_listed_twice_keeps_its_last_value() {
    let reply = vec![
        native_option("Performance", "Low"),
        native_option("Usb.AlwaysDfu", "False"),
        native_option("Performance", "High"),
    ];
    let options = DeviceOptions::from_native(&reply);
    assert_eq!(options.len(), 2);
    assert_eq!(options.get(&"Performance".to_string()), Some(&"High".to_string()));
    assert_eq!(options.get(&"Usb.AlwaysDfu".to_string()), Some(&"False".to_string()));
}

#[test]
fn insert_replaces_and_reports_the_previous_value() {
    let mut options = DeviceOptions::new();
    assert!(options.is_empty());
    assert_eq!(options.len(), 0);
    assert_eq!(options.insert("Performance".to_string(), "Low".to_string()), None);
    assert_eq!(options.insert("Usb.AlwaysDfu".to_string(), "False".to_string()), None);
    assert_eq!(
        options.insert("Performance".to_string(), "Max".to_string()),
        Some("Low".to_string())
    );
    assert!(!options.is_empty());
    assert_eq!(options.len(), 2);
    assert!(options.contains_key(&"Performance".to_string()));
    assert!(!options.contains_key(&"performance".to_string()));
    assert_eq!(options.get(&"Performance".to_string()), Some(&"Max".to_string()));
    assert_eq!(
        options.into_entries(),
        vec![
            ("Performance".to_string(), "Max".to_string()),
            ("Usb.AlwaysDfu".to_string(), "False".to_string()),
        ]
    );
}

#[test]
fn a_copy_of_options_holds_buffers_of_its_own() {
    let mut options = options_of(&[("Performance", "Low")]);
    let copy = options.clone();
    options.insert("Performance".to_string(), "High".to_string());
    assert_eq!(copy.get(&"Performance".to_string()), Some(&"Low".to_string()));
    assert_eq!(options.get(&"Performance".to_string()), Some(&"High".to_string()));
}

#[test]
fn equal_values_are_sent_in_separate_buffers() {
    let options = options_of(&[("Usb.AlwaysDfu", "False"), ("Usb.SkipReset", "False")]);
    let native = options.to_native();
    assert_eq!(native[0].value, native[1].value);
    assert_ne!(native[0].value.as_ptr(), native[1].value.as_ptr());
}

#[test]
fn text_with_nul_cannot_be_sent() {
    assert!(is_c_safe(""));
    assert!(is_c_safe("/dev/accel0"));
    assert!(is_c_safe("Gr\u{fc}\u{df}e \u{1f600}"));
    assert!(!is_c_safe("\0"));
    assert!(!is_c_safe("/dev/\0accel0"));
    assert!(!is_c_safe("/dev/accel0\0"));
    assert!(options_of(&[("Performance", "Low")]).is_sendable());
    assert!(DeviceOptions::new().is_sendable());
    assert!(!options_of(&[("Performance", "Low"), ("Usb.AlwaysDfu", "Fal\0se")]).is_sendable());
    assert!(!options_of(&[("Perf\0ormance", "Low")]).is_sendable());
}

#[test]
fn text_is_sent_as_its_utf8_bytes() {
    assert_eq!(text_to_native(""), Vec::<u8>::new());
    assert_eq!(text_to_native("Low"), vec![0x4c, 0x6f, 0x77]);
    assert_eq!(text_to_native("\u{e9}"), vec![0xc3, 0xa9]);
    assert_eq!(text_to_native("\u{20ac}"), vec![0xe2, 0x82, 0xac]);
    assert_eq!(text_to_native("\u{1f600}"), vec![0xf0, 0x9f, 0x98, 0x80]);
}

#[test]
fn bytes_from_the_native_side_are_read_as_text() {
    assert_eq!(text_from_native(&Vec::new()), "");
    assert_eq!(text_from_native(&vec![0x4c, 0x6f, 0x77]), "Low");
    assert_eq!(text_from_native(&vec![0xe2, 0x82, 0xac, 0x20, 0xc3, 0xa9]), "\u{20ac} \u{e9}");
    assert_eq!(text_from_native(&text_to_native("\u{1f600} /dev/accel0")), "\u{1f600} /dev/accel0");
}

#[test]
fn bytes_that_are_no_utf8_are_still_read() {
    assert_eq!(text_from_native(&vec![0x4c, 0xff, 0x77]), "L\u{fffd}w");
    assert_eq!(text_from_native(&vec![0xc3]), "\u{fffd}");
    assert_eq!(version(&vec![0x31, 0x2e, 0x30, 0x80]), "1.0\u{fffd}");
    let listing = vec![NativeDevice { type_tag: 0, path: vec![0x2f, 0xfe, 0x2f] }];
    let records = EdgeTpuContext::enumerate_devices(&listing);
    assert_eq!(records[0].path, "/\u{fffd}/");
    assert_eq!(records[0].device_type, DeviceType::ApexPCI);
}

#[test]
fn verbosity_is_settled_by_the_native_status() {
    assert_eq!(set_verbosity(0), VerbosityRequest { level: 0 });
    assert_eq!(set_verbosity(2), VerbosityRequest { level: 2 });
    assert_eq!(set_verbosity(255), VerbosityRequest { level: 255 });
    for level in [0u8, 1, 2] {
        assert_eq!(set_verbosity(level).complete(0), Ok(()));
    }
    for status in [1, -1, 2, i32::MAX, i32::MIN] {
        assert_eq!(set_verbosity(11).complete(status), Err(EdgeTPUError::SetVerbosityFailed));
    }
}

#[test]
fn errors_describe_themselves() {
    assert_eq!(EdgeTPUError::OpenFailed.message(), "failed to open device");
    assert_eq!(EdgeTPUError::SetVerbosityFailed.message(), "failed to set verbosity");
    assert_ne!(EdgeTPUError::OpenFailed, EdgeTPUError::SetVerbosityFailed);
}

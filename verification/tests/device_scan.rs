use eqforbeginner::audio::{AudioDirection, AudioScanWarning, ProjectStreamConfig};
use eqforbeginner::devices::{BufferSizeRange, DeviceMetadata, SampleFormat, StreamConfigRange};
use eqforbeginner::scan::{enumeration_error, inventory_from_probes, ConfigListing, DeviceProbe, ScanScope};

fn range(channels: u16, min: u32, max: u32) -> StreamConfigRange {
    StreamConfigRange {
        channels,
        min_sample_rate_hz: min,
        max_sample_rate_hz: max,
        buffer_size: BufferSizeRange::Unknown,
        sample_format: SampleFormat::F32,
        sample_format_name: "f32".to_string(),
    }
}

fn metadata(name: &str) -> DeviceMetadata {
    DeviceMetadata {
        name: name.to_string(),
        manufacturer: Some("Acme".to_string()),
        device_type: "microphone".to_string(),
        interface_type: "usb".to_string(),
    }
}

fn probe(id: &str, name: &str, input: ConfigListing, output: ConfigListing) -> DeviceProbe {
    DeviceProbe {
        id: Ok(id.to_string()),
        metadata: Ok(metadata(name)),
        input,
        output,
        current_input_rate_hz: Some(48_000),
        current_output_rate_hz: Some(44_100),
    }
}

fn warning(device_id: Option<&str>, direction: Option<AudioDirection>, message: &str) -> AudioScanWarning {
    AudioScanWarning { device_id: device_id.map(str::to_string), direction, message: message.to_string() }
}

#[test]
fn a_full_scan_lists_both_directions_in_presentation_order() {
    let probes = vec![
        probe("b", "Zed", ConfigListing::Listed(vec![range(2, 44_100, 96_000)]), ConfigListing::Unsupported),
        probe("a", "alpha", ConfigListing::Listed(vec![range(1, 48_000, 48_000)]), ConfigListing::Listed(vec![range(2, 48_000, 48_000)])),
        probe("c", "Mid", ConfigListing::Listed(vec![range(1, 44_100, 44_100)]), ConfigListing::Unsupported),
    ];
    let inventory = inventory_from_probes("CoreAudio".to_string(), ScanScope::Both, &Some("b".to_string()), &None, &probes);

    assert_eq!(inventory.host, "CoreAudio");
    assert_eq!(inventory.sample_rate_hz, 48_000);
    let input_ids: Vec<&str> = inventory.inputs.iter().map(|d| d.id.as_str()).collect();
    assert_eq!(input_ids, ["b", "a", "c"]);
    assert!(inventory.inputs[0].is_default);
    assert_eq!(inventory.inputs[0].current_sample_rate_hz, Some(48_000));
    // A reported direction without a 48 kHz range still lists the device.
    assert!(inventory.inputs[2].configurations.is_empty());
    assert_eq!(
        inventory.inputs[1].configurations,
        vec![ProjectStreamConfig {
            sample_rate_hz: 48_000,
            channels: 1,
            sample_format: "f32".to_string(),
            minimum_buffer_size_frames: None,
            maximum_buffer_size_frames: None,
        }]
    );
    assert_eq!(inventory.outputs.len(), 1);
    assert_eq!(inventory.outputs[0].id, "a");
    assert!(!inventory.outputs[0].is_default);
    assert_eq!(inventory.outputs[0].current_sample_rate_hz, Some(44_100));
    assert!(inventory.warnings.is_empty());
}

#[test]
fn scan_problems_become_warnings() {
    let probes = vec![
        DeviceProbe {
            id: Err("no id".to_string()),
            metadata: Ok(metadata("ghost")),
            input: ConfigListing::Listed(vec![range(1, 48_000, 48_000)]),
            output: ConfigListing::Unsupported,
            current_input_rate_hz: None,
            current_output_rate_hz: None,
        },
        DeviceProbe {
            id: Ok("m".to_string()),
            metadata: Err("busy".to_string()),
            input: ConfigListing::Failed("denied".to_string()),
            output: ConfigListing::Listed(vec![range(2, 48_000, 48_000)]),
            current_input_rate_hz: None,
            current_output_rate_hz: None,
        },
    ];
    let inventory = inventory_from_probes("ALSA".to_string(), ScanScope::Both, &None, &None, &probes);
    assert!(inventory.inputs.is_empty());
    assert_eq!(inventory.outputs.len(), 1);
    assert_eq!(inventory.outputs[0].name, "Audio device (metadata unavailable)");
    assert_eq!(inventory.outputs[0].manufacturer, None);
    assert_eq!(inventory.outputs[0].device_type, "unknown");
    assert_eq!(inventory.outputs[0].interface_type, "unknown");
    assert_eq!(
        inventory.warnings,
        vec![
            warning(None, None, "ignored an audio device without a usable host ID: no id"),
            warning(Some("m"), None, "device metadata was unavailable: busy"),
            warning(Some("m"), Some(AudioDirection::Input), "input configurations were unavailable: denied"),
        ]
    );
}

#[test]
fn an_input_scan_never_reads_the_output_side() {
    let probes = vec![
        DeviceProbe {
            id: Ok("m".to_string()),
            metadata: Err("busy".to_string()),
            input: ConfigListing::Listed(vec![range(1, 48_000, 48_000)]),
            output: ConfigListing::Failed("ignored".to_string()),
            current_input_rate_hz: None,
            current_output_rate_hz: None,
        },
        DeviceProbe {
            id: Err("gone".to_string()),
            metadata: Err("gone".to_string()),
            input: ConfigListing::Unsupported,
            output: ConfigListing::Unsupported,
            current_input_rate_hz: None,
            current_output_rate_hz: None,
        },
    ];
    let inventory = inventory_from_probes("WASAPI".to_string(), ScanScope::Inputs, &Some("m".to_string()), &None, &probes);
    assert!(inventory.outputs.is_empty());
    assert_eq!(inventory.inputs.len(), 1);
    assert_eq!(inventory.inputs[0].name, "Audio input (metadata unavailable)");
    assert!(inventory.inputs[0].is_default);
    assert_eq!(
        inventory.warnings,
        vec![
            warning(Some("m"), Some(AudioDirection::Input), "input device metadata was unavailable: busy"),
            warning(None, Some(AudioDirection::Input), "ignored an input device without a usable host ID: gone"),
        ]
    );
}

#[test]
fn an_output_scan_words_its_warnings_for_outputs() {
    let probes = vec![DeviceProbe {
        id: Ok("s".to_string()),
        metadata: Err("x".to_string()),
        input: ConfigListing::Failed("ignored".to_string()),
        output: ConfigListing::Failed("denied".to_string()),
        current_input_rate_hz: None,
        current_output_rate_hz: None,
    }];
    let inventory = inventory_from_probes("CoreAudio".to_string(), ScanScope::Outputs, &None, &None, &probes);
    assert!(inventory.inputs.is_empty() && inventory.outputs.is_empty());
    assert_eq!(
        inventory.warnings,
        vec![
            warning(Some("s"), Some(AudioDirection::Output), "output device metadata was unavailable: x"),
            warning(Some("s"), Some(AudioDirection::Output), "output configurations were unavailable: denied"),
        ]
    );
}

#[test]
fn enumeration_failures_name_the_host_and_direction() {
    assert_eq!(
        enumeration_error("CoreAudio", ScanScope::Inputs, "boom").to_string(),
        "could not enumerate CoreAudio input devices: boom"
    );
    assert_eq!(
        enumeration_error("ALSA", ScanScope::Both, "x").to_string(),
        "could not enumerate ALSA audio devices: x"
    );
}

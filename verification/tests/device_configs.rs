use eqforbeginner::audio::{AudioDeviceDescriptor, ProjectStreamConfig};
use eqforbeginner::devices::{
    descriptor, direction_project_configs, is_supported_pcm_format, project_rate_configs,
    sample_format_priority, select_output_config, select_project_input_config, sort_devices,
    BufferSizeRange, DeviceMetadata, SampleFormat, StreamConfigRange,
};

fn range(channels: u16, min: u32, max: u32, buffer_size: BufferSizeRange, format: SampleFormat, name: &str) -> StreamConfigRange {
    StreamConfigRange {
        channels,
        min_sample_rate_hz: min,
        max_sample_rate_hz: max,
        buffer_size,
        sample_format: format,
        sample_format_name: name.to_string(),
    }
}

#[test]
fn keeps_only_48k_configs_and_deduplicates_them() {
    let configurations = vec![
        range(2, 44_100, 96_000, BufferSizeRange::Range { min: 64, max: 512 }, SampleFormat::F32, "f32"),
        range(2, 44_100, 96_000, BufferSizeRange::Range { min: 64, max: 512 }, SampleFormat::F32, "f32"),
        range(1, 44_100, 44_100, BufferSizeRange::Unknown, SampleFormat::I16, "i16"),
    ];

    let selected = project_rate_configs(&configurations);

    assert_eq!(selected.len(), 1);
    assert_eq!(selected[0].sample_rate_hz, 48_000);
    assert_eq!(selected[0].channels, 2);
    assert_eq!(selected[0].sample_format, "f32");
    assert_eq!(selected[0].minimum_buffer_size_frames, Some(64));
    assert_eq!(selected[0].maximum_buffer_size_frames, Some(512));
}

#[test]
fn project_configs_come_out_sorted() {
    let configurations = vec![
        range(2, 48_000, 48_000, BufferSizeRange::Unknown, SampleFormat::I16, "i16"),
        range(1, 48_000, 48_000, BufferSizeRange::Range { min: 64, max: 512 }, SampleFormat::F32, "f32"),
        range(2, 48_000, 48_000, BufferSizeRange::Unknown, SampleFormat::F32, "f32"),
        range(2, 48_000, 48_000, BufferSizeRange::Range { min: 32, max: 64 }, SampleFormat::F32, "f32"),
        range(1, 48_000, 48_000, BufferSizeRange::Range { min: 64, max: 512 }, SampleFormat::F32, "f32"),
    ];
    let selected = project_rate_configs(&configurations);
    let mut expected: Vec<ProjectStreamConfig> = configurations
        .iter()
        .map(|r| ProjectStreamConfig {
            sample_rate_hz: 48_000,
            channels: r.channels,
            sample_format: r.sample_format_name.clone(),
            minimum_buffer_size_frames: match r.buffer_size {
                BufferSizeRange::Range { min, .. } => Some(min),
                BufferSizeRange::Unknown => None,
            },
            maximum_buffer_size_frames: match r.buffer_size {
                BufferSizeRange::Range { max, .. } => Some(max),
                BufferSizeRange::Unknown => None,
            },
        })
        .collect();
    expected.sort();
    expected.dedup();
    assert_eq!(selected, expected);
    assert_eq!(selected.len(), 4);
}

#[test]
fn direction_requires_a_reported_range_but_keeps_ineligible_devices_visible() {
    assert_eq!(direction_project_configs(&Vec::new()), None);

    let only_44k = vec![range(1, 44_100, 44_100, BufferSizeRange::Unknown, SampleFormat::F32, "f32")];
    assert_eq!(direction_project_configs(&only_44k), Some(Vec::new()));
}

#[test]
fn selects_the_lowest_channel_48k_pcm_stream_containing_the_requested_channel() {
    let configurations = vec![
        range(2, 48_000, 48_000, BufferSizeRange::Unknown, SampleFormat::F32, "f32"),
        range(1, 48_000, 48_000, BufferSizeRange::Unknown, SampleFormat::I16, "i16"),
        range(1, 48_000, 48_000, BufferSizeRange::Unknown, SampleFormat::F32, "f32"),
        range(1, 48_000, 48_000, BufferSizeRange::Unknown, SampleFormat::DsdU8, "dsdu8"),
    ];

    let selected = select_project_input_config(&configurations, 0)
        .expect("48 kHz mono PCM should be selected for channel one");
    let chosen = &configurations[selected];
    assert_eq!(chosen.channels, 1);
    assert!(chosen.min_sample_rate_hz <= 48_000 && 48_000 <= chosen.max_sample_rate_hz);
    assert_eq!(chosen.sample_format, SampleFormat::F32);

    let second_channel = select_project_input_config(&configurations, 1)
        .expect("48 kHz stereo PCM should be selected for channel two");
    assert_eq!(configurations[second_channel].channels, 2);
    assert_eq!(configurations[second_channel].sample_format, SampleFormat::F32);
}

#[test]
fn the_output_config_search_takes_the_narrowest_48k_pcm_configuration() {
    let configurations = vec![
        range(1, 48_000, 48_000, BufferSizeRange::Range { min: 64, max: 512 }, SampleFormat::F32, "f32"),
        range(2, 48_000, 48_000, BufferSizeRange::Range { min: 64, max: 512 }, SampleFormat::F32, "f32"),
        range(4, 48_000, 48_000, BufferSizeRange::Range { min: 64, max: 512 }, SampleFormat::F32, "f32"),
    ];

    let selected = select_output_config(&configurations, 2, 48_000)
        .expect("a 48 kHz stereo output configuration exists");
    assert_eq!(configurations[selected].channels, 2);

    assert!(select_output_config(&configurations, 6, 48_000).is_none());
}

#[test]
fn the_output_config_search_never_substitutes_a_different_rate() {
    let configurations = vec![range(2, 44_100, 44_100, BufferSizeRange::Range { min: 64, max: 512 }, SampleFormat::F32, "f32")];

    assert!(select_output_config(&configurations, 2, 48_000).is_none());
    let selected = select_output_config(&configurations, 2, 44_100)
        .expect("the device's own rate is selectable");
    assert_eq!(configurations[selected].max_sample_rate_hz, 44_100);
}

#[test]
fn equal_priorities_keep_the_first_range() {
    let configurations = vec![
        range(2, 48_000, 48_000, BufferSizeRange::Unknown, SampleFormat::F32, "f32"),
        range(2, 44_100, 96_000, BufferSizeRange::Unknown, SampleFormat::F32, "f32"),
    ];
    assert_eq!(select_output_config(&configurations, 2, 48_000), Some(0));
}

#[test]
fn pcm_formats_and_their_priorities() {
    assert!(is_supported_pcm_format(SampleFormat::I24));
    assert!(!is_supported_pcm_format(SampleFormat::DsdU32));
    assert!(!is_supported_pcm_format(SampleFormat::Unrecognized));
    assert_eq!(sample_format_priority(SampleFormat::F32), 0);
    assert_eq!(sample_format_priority(SampleFormat::U64), 11);
    assert_eq!(sample_format_priority(SampleFormat::DsdU8), u8::MAX);
}

fn metadata(name: &str) -> DeviceMetadata {
    DeviceMetadata {
        name: name.to_string(),
        manufacturer: None,
        device_type: "unknown".to_string(),
        interface_type: "unknown".to_string(),
    }
}

#[test]
fn default_device_sorts_before_named_devices() {
    let mut devices = vec![
        descriptor("coreaudio:z", &metadata("Alpha"), false, None, Vec::new()),
        descriptor("coreaudio:a", &metadata("Zulu"), true, None, Vec::new()),
    ];

    sort_devices(&mut devices);

    assert!(devices[0].is_default);
    assert_eq!(devices[1].name, "Alpha");
}

#[test]
fn devices_sort_case_insensitively_then_by_id() {
    let mut devices: Vec<AudioDeviceDescriptor> = vec![
        descriptor("id-3", &metadata("beta"), false, None, Vec::new()),
        descriptor("id-2", &metadata("Alpha"), false, None, Vec::new()),
        descriptor("id-1", &metadata("ALPHA"), false, Some(44_100), Vec::new()),
        descriptor("id-0", &metadata("Beta"), false, None, Vec::new()),
    ];
    sort_devices(&mut devices);
    let ids: Vec<&str> = devices.iter().map(|d| d.id.as_str()).collect();
    assert_eq!(ids, vec!["id-1", "id-2", "id-0", "id-3"]);
    assert_eq!(devices[0].current_sample_rate_hz, Some(44_100));
}

#[test]
fn devices_that_tie_keep_their_order() {
    let mut devices: Vec<AudioDeviceDescriptor> = vec![
        descriptor("id-9", &metadata("Zed"), false, None, Vec::new()),
        descriptor("id-1", &metadata("MIC"), false, Some(48_000), Vec::new()),
        descriptor("id-1", &metadata("mic"), false, Some(44_100), Vec::new()),
        descriptor("id-1", &metadata("Mic"), false, None, Vec::new()),
    ];
    sort_devices(&mut devices);
    let names: Vec<&str> = devices.iter().map(|d| d.name.as_str()).collect();
    assert_eq!(names, vec!["MIC", "mic", "Mic", "Zed"]);
}

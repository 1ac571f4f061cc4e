use clock_rs::visualizer::{
    columns_per_side, parse_avfoundation_audio_devices, resolve_audio_device_name,
};

const LISTING: &str = "[AVFoundation indev @ 0x1] AVFoundation video devices:\n\
[AVFoundation indev @ 0x1] [0] FaceTime HD Camera\n\
[AVFoundation indev @ 0x1] AVFoundation audio devices:\n\
[AVFoundation indev @ 0x1] [0] BlackHole 2ch\n\
[AVFoundation indev @ 0x1] [1] MacBook Pro Microphone  \r\n\
[AVFoundation indev @ 0x1] [2] \n\
no bracket here\n\
[AVFoundation indev @ 0x1] [3] Multi-Output Device\n";

fn names(v: &[&str]) -> Vec<String> {
    v.iter().map(|s| s.to_string()).collect()
}

#[test]
fn parses_audio_section_only() {
    assert_eq!(
        parse_avfoundation_audio_devices(LISTING),
        names(&["BlackHole 2ch", "MacBook Pro Microphone", "Multi-Output Device"])
    );
    assert!(parse_avfoundation_audio_devices("").is_empty());
    assert!(parse_avfoundation_audio_devices("[x] [0] Camera\n").is_empty());
}

#[test]
fn audio_section_closes_at_video_header() {
    let listing = "AVFoundation audio devices:\n[0] Mic\nAVFoundation video devices:\n[0] Cam\n";
    assert_eq!(parse_avfoundation_audio_devices(listing), names(&["Mic"]));
}

#[test]
fn resolves_device_names() {
    let devices = names(&["BlackHole 2ch", "MacBook Pro Microphone", "Multi-Output Device"]);
    assert_eq!(resolve_audio_device_name("  ", &devices), None);
    assert_eq!(resolve_audio_device_name("mic", &Vec::new()), None);
    assert_eq!(resolve_audio_device_name("blackhole 2CH", &devices), Some("BlackHole 2ch".to_string()));
    assert_eq!(resolve_audio_device_name("microphone", &devices), Some("MacBook Pro Microphone".to_string()));
    assert_eq!(resolve_audio_device_name(" Multi-Output ", &devices), Some("Multi-Output Device".to_string()));
    assert_eq!(resolve_audio_device_name("speakers", &devices), None);
    let only = names(&["BlackHole 16ch", "Speakers"]);
    assert_eq!(resolve_audio_device_name("My Multi-Output Mix", &only), Some("BlackHole 16ch".to_string()));
}

#[test]
fn columns_are_clamped() {
    assert_eq!(columns_per_side(0), 6);
    assert_eq!(columns_per_side(6), 6);
    assert_eq!(columns_per_side(17), 17);
    assert_eq!(columns_per_side(30), 30);
    assert_eq!(columns_per_side(1000), 30);
}

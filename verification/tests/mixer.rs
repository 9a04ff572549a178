use volume_mixer_core::device::AudioDevice;
use volume_mixer_core::device::DeviceKind;
use volume_mixer_core::device::DeviceProbe;
use volume_mixer_core::device::find_set_target;
use volume_mixer_core::device::get_device_volume;
use volume_mixer_core::device::list_devices;
use volume_mixer_core::device::plan_app_volume_update;
use volume_mixer_core::icon::ICON_BYTES;
use volume_mixer_core::icon::encode_icon;
use volume_mixer_core::icon::swap_red_blue;
use volume_mixer_core::naming::decimal_of_u32;
use volume_mixer_core::naming::display_name;
use volume_mixer_core::naming::sanitize_name;
use volume_mixer_core::process::resolve_name;
use volume_mixer_core::process::session_display_name;
use volume_mixer_core::session::AudioSession;
use volume_mixer_core::session::EndpointProbe;
use volume_mixer_core::session::SessionProbe;
use volume_mixer_core::session::collect_sessions;
use volume_mixer_core::session::session_of_probe;
use volume_mixer_core::text::chars_of_str;
use volume_mixer_core::text::names_match;
use volume_mixer_core::text::string_of_chars;
use volume_mixer_core::volume::PERCENT_FULL;
use volume_mixer_core::volume::SCALAR_FULL;
use volume_mixer_core::volume::VolumePercent;
use volume_mixer_core::volume::VolumeScalar;
use volume_mixer_core::volume::percent_of_scalar;
use volume_mixer_core::volume::scalar_of_percent;

fn probe(pid: Option<u32>, control: bool) -> SessionProbe {
    SessionProbe {
        pid,
        has_volume_control: control,
        volume: Some(VolumeScalar { units: 250_000 }),
        muted: Some(false),
        raw_name: None,
        icon: None,
    }
}

#[test]
fn sanitize_strips_exe_and_capitalizes() {
    assert_eq!(sanitize_name("Spotify.exe"), "Spotify");
    assert_eq!(sanitize_name("game.EXE"), "Game");
    assert_eq!(sanitize_name(""), "");
}

#[test]
fn sanitize_edge_cases() {
    assert_eq!(sanitize_name(".exe"), "");
    assert_eq!(sanitize_name("code"), "Code");
    assert_eq!(sanitize_name("a.b.exe"), "A.b");
    // only a trailing suffix is stripped, and only those two spellings
    assert_eq!(sanitize_name("game.Exe"), "Game.Exe");
    assert_eq!(sanitize_name("exe"), "Exe");
    // the first character is uppercased by the Unicode mapping
    assert_eq!(sanitize_name("δelta.exe"), "Δelta");
}

#[test]
fn fallback_name_is_app_id_pid() {
    assert_eq!(display_name(1234, None), "App ID 1234");
    assert_eq!(display_name(7, None), "App ID 7");
    assert_eq!(display_name(4294967295, None), "App ID 4294967295");
}

#[test]
fn resolved_name_is_sanitized() {
    assert_eq!(display_name(42, Some("Spotify.exe".to_string())), "Spotify");
}

#[test]
fn decimal_rendering() {
    let v = decimal_of_u32(0);
    assert_eq!(string_of_chars(&v), "0");
    let v = decimal_of_u32(90105);
    assert_eq!(string_of_chars(&v), "90105");
}

#[test]
fn chars_round_trip() {
    let v = chars_of_str("héllo wörld");
    assert_eq!(string_of_chars(&v), "héllo wörld");
}

#[test]
fn name_matching_is_bidirectional() {
    assert!(names_match("Speakers (Realtek High Definition Audio)", "Realtek"));
    assert!(names_match("Re", "Realtek"));
    assert!(names_match("Realtek", "Realtek"));
    assert!(!names_match("Speakers", "Headphones"));
    // the empty query is contained in every name
    assert!(names_match("Speakers", ""));
}

#[test]
fn device_volume_matches_substring() {
    let devs = vec![
        DeviceProbe {
            name: Some("Headphones (USB)".to_string()),
            volume: Some(VolumeScalar { units: 800_000 }),
            can_control: true,
        },
        DeviceProbe {
            name: Some("Speakers (Realtek High Definition Audio)".to_string()),
            volume: Some(VolumeScalar { units: 300_000 }),
            can_control: true,
        },
    ];
    // scalar 0.3 reads as 30 percent
    assert_eq!(get_device_volume(&devs, "Realtek").units, 300_000);
}

#[test]
fn device_volume_unmatched_is_zero() {
    let devs = vec![DeviceProbe {
        name: Some("Speakers (Realtek High Definition Audio)".to_string()),
        volume: Some(VolumeScalar { units: 300_000 }),
        can_control: true,
    }];
    assert_eq!(get_device_volume(&devs, "NoSuchDevice").units, 0);
    assert_eq!(get_device_volume(&Vec::new(), "Realtek").units, 0);
}

#[test]
fn device_volume_skips_unreadable_endpoints() {
    let devs = vec![
        DeviceProbe { name: None, volume: Some(VolumeScalar { units: 100_000 }), can_control: true },
        DeviceProbe {
            name: Some("Realtek Audio".to_string()),
            volume: None,
            can_control: true,
        },
        DeviceProbe {
            name: Some("Speakers (Realtek)".to_string()),
            volume: Some(VolumeScalar { units: 450_000 }),
            can_control: true,
        },
    ];
    assert_eq!(get_device_volume(&devs, "Realtek").units, 450_000);
}

#[test]
fn set_target_is_first_controllable_match() {
    let devs = vec![
        DeviceProbe {
            name: Some("Realtek front".to_string()),
            volume: None,
            can_control: false,
        },
        DeviceProbe {
            name: Some("Realtek rear".to_string()),
            volume: None,
            can_control: true,
        },
        DeviceProbe {
            name: Some("Realtek side".to_string()),
            volume: None,
            can_control: true,
        },
    ];
    assert_eq!(find_set_target(&devs, "Realtek"), Some(1));
    assert_eq!(find_set_target(&devs, "NoSuchDevice"), None);
}

#[test]
fn device_list_keeps_render_before_capture() {
    let devs: Vec<AudioDevice> = list_devices(
        vec!["Speakers".to_string(), "HDMI".to_string()],
        vec!["Microphone".to_string()],
    );
    assert_eq!(devs.len(), 3);
    assert_eq!(devs[0].name, "Speakers");
    assert!(devs[0].device_type == DeviceKind::Output);
    assert_eq!(devs[1].name, "HDMI");
    assert!(devs[1].device_type == DeviceKind::Output);
    assert_eq!(devs[2].name, "Microphone");
    assert!(devs[2].device_type == DeviceKind::Input);
}

#[test]
fn update_plan_hits_every_matching_session() {
    let eps = vec![
        EndpointProbe {
            sessions: Some(vec![probe(Some(9), true), probe(Some(4), true)]),
        },
        EndpointProbe { sessions: None },
        EndpointProbe {
            sessions: Some(vec![
                probe(Some(4), true),
                probe(Some(4), false),
                probe(None, true),
                probe(Some(4), true),
            ]),
        },
    ];
    let plan = plan_app_volume_update(&eps, 4);
    assert_eq!(plan, vec![(0, 1), (2, 0), (2, 3)]);
}

#[test]
fn update_plan_for_unknown_pid_is_empty() {
    let eps = vec![EndpointProbe {
        sessions: Some(vec![probe(Some(9), true), probe(Some(4), true)]),
    }];
    let plan = plan_app_volume_update(&eps, 12345);
    assert!(plan.is_empty());
}

#[test]
fn volume_rescaling_round_trips() {
    // setting 50 percent and reading it back through the scalar gives 50
    let p = VolumePercent { units: 500_000 };
    assert_eq!(percent_of_scalar(scalar_of_percent(p)).units, 500_000);
    // a full scalar reads as exactly 100 percent
    let s = VolumeScalar { units: SCALAR_FULL };
    assert_eq!(percent_of_scalar(s).units, PERCENT_FULL);
}

#[test]
fn sessions_with_failed_reads_are_skipped() {
    // a session whose volume or mute state cannot be queried is not reported
    let unreadable_volume = SessionProbe { volume: None, ..probe(Some(31), true) };
    assert!(session_of_probe(unreadable_volume).is_none());
    let unreadable_mute = SessionProbe { muted: None, ..probe(Some(31), true) };
    assert!(session_of_probe(unreadable_mute).is_none());
}

#[test]
fn reported_session_carries_its_readings() {
    let p = SessionProbe {
        pid: Some(31),
        has_volume_control: true,
        volume: Some(VolumeScalar { units: 750_000 }),
        muted: Some(true),
        raw_name: Some("vlc.exe".to_string()),
        icon: None,
    };
    let s = session_of_probe(p).expect("session is reported");
    assert_eq!(s.pid, 31);
    assert_eq!(s.name, "Vlc");
    assert_eq!(s.volume.units, 750_000);
    assert!(s.is_muted);
    assert!(s.icon.is_none());
}

#[test]
fn system_sessions_and_uncontrollable_sessions_are_dropped() {
    assert!(session_of_probe(probe(Some(0), true)).is_none());
    assert!(session_of_probe(probe(None, true)).is_none());
    assert!(session_of_probe(probe(Some(5), false)).is_none());
}

#[test]
fn collected_sessions_are_sorted_and_deduplicated() {
    let mk = |pid: u32, name: &str, units: u32| SessionProbe {
        pid: Some(pid),
        has_volume_control: true,
        volume: Some(VolumeScalar { units }),
        muted: Some(false),
        raw_name: Some(name.to_string()),
        icon: None,
    };
    let eps = vec![
        EndpointProbe {
            sessions: Some(vec![
                mk(900, "late.exe", 100_000),
                mk(20, "first.exe", 200_000),
                probe(Some(0), true),
                probe(Some(77), false),
            ]),
        },
        EndpointProbe { sessions: None },
        EndpointProbe {
            sessions: Some(vec![mk(20, "second.exe", 999_000), mk(5, "tiny.exe", 300_000)]),
        },
    ];
    let out: Vec<AudioSession> = collect_sessions(eps);
    let pids: Vec<u32> = out.iter().map(|s| s.pid).collect();
    assert_eq!(pids, vec![5, 20, 900]);
    // the first occurrence in walk order is the one that is kept
    assert_eq!(out[1].name, "First");
    assert_eq!(out[1].volume.units, 200_000);
}

#[test]
fn icon_failure_leaves_session_without_icon() {
    let p = SessionProbe { icon: None, ..probe(Some(8), true) };
    let s = session_of_probe(p).expect("session is reported despite the missing icon");
    assert!(s.icon.is_none());
    let q = SessionProbe {
        icon: Some("aWNvbg==".to_string()),
        ..probe(Some(8), true)
    };
    let t = session_of_probe(q).expect("session is reported");
    assert_eq!(t.icon.as_deref(), Some("aWNvbg=="));
}

#[test]
fn byte_swap_exchanges_red_and_blue() {
    let out = swap_red_blue(vec![1, 2, 3, 4, 5, 6, 7, 8]);
    assert_eq!(out, vec![3, 2, 1, 4, 7, 6, 5, 8]);
}

#[test]
fn icon_encoding_produces_base64_png() {
    // a solid red icon, in the surface's blue-first byte order
    let mut pixels: Vec<u8> = Vec::with_capacity(ICON_BYTES);
    for _ in 0..(ICON_BYTES / 4) {
        pixels.extend_from_slice(&[0, 0, 255, 255]);
    }
    let blob = encode_icon(pixels).expect("encoding an in-memory bitmap succeeds");
    let png = base64::Engine::decode(&base64::engine::general_purpose::STANDARD, &blob)
        .expect("the blob is valid base64");
    assert_eq!(&png[0..8], &[137, 80, 78, 71, 13, 10, 26, 10]);
    let img = image::load_from_memory(&png).expect("the bytes are a valid image");
    let rgba = img.to_rgba8();
    assert_eq!(rgba.width(), 32);
    assert_eq!(rgba.height(), 32);
    assert_eq!(rgba.get_pixel(0, 0).0, [255, 0, 0, 255]);
}

#[test]
fn snapshot_resolution() {
    let sys = sysinfo::System::new_all();
    let me = sysinfo::get_current_pid().expect("current pid is known").as_u32();
    assert!(resolve_name(&sys, me).is_some());
    // the largest possible pid is not a running process
    assert_eq!(session_display_name(&sys, 4294967295), "App ID 4294967295");
}

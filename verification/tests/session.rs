use wmctl::client::{negotiated_version, Event, Global, WaylandClient};
use wmctl::session::BindRequest;
use wmctl::display::{mode_summaries, subpixel_to_string, DisplayOutput};
use wmctl::output::{subpixel_from_code, Mode, OutputEntry, OutputEvent, OutputInfo, Subpixel};
use wmctl::wire::ProtocolError;

fn word(v: u32) -> Vec<u8> {
    v.to_le_bytes().to_vec()
}

fn text(s: &str) -> Vec<u8> {
    let mut out: Vec<u8> = word(s.len() as u32 + 1);
    out.extend_from_slice(s.as_bytes());
    out.push(0);
    while out.len() % 4 != 0 {
        out.push(0);
    }
    out
}

fn frame(object_id: u32, opcode: u16, payload: Vec<u8>) -> Vec<u8> {
    let size: u32 = payload.len() as u32 + 8;
    let mut out: Vec<u8> = word(object_id);
    out.extend(word((size << 16) | opcode as u32));
    out.extend(payload);
    out
}

fn global_frame(name: u32, interface: &str, version: u32) -> Vec<u8> {
    let mut p: Vec<u8> = word(name);
    p.extend(text(interface));
    p.extend(word(version));
    frame(2, 0, p)
}

fn geometry_frame(object_id: u32, make: &str, model: &str) -> Vec<u8> {
    let mut p: Vec<u8> = Vec::new();
    p.extend(word(100));
    p.extend(word(200));
    p.extend(word(340));
    p.extend(word(190));
    p.extend(word(1));
    p.extend(text(make));
    p.extend(text(model));
    p.extend(word(0));
    frame(object_id, 0, p)
}

fn mode_frame(object_id: u32, flags: u32, width: u32, height: u32, refresh: u32) -> Vec<u8> {
    let mut p: Vec<u8> = word(flags);
    p.extend(word(width));
    p.extend(word(height));
    p.extend(word(refresh));
    frame(object_id, 1, p)
}

fn announce(name: u32, version: u32) -> Event {
    Event::Global { name, interface: "wl_output".to_string(), version }
}

fn to_output(object_id: u32, event: OutputEvent) -> Event {
    Event::Output { object_id, event }
}

fn named(name: &str) -> OutputEvent {
    OutputEvent::Name { name: name.to_string() }
}

fn geometry(make: &str, model: &str) -> OutputEvent {
    OutputEvent::Geometry {
        x: 1,
        y: 2,
        physical_width: 300,
        physical_height: 200,
        subpixel: 2,
        make: make.to_string(),
        model: model.to_string(),
        transform: 0,
    }
}

#[test]
fn new_client_has_nothing() {
    let client = WaylandClient::new();
    assert!(client.list_outputs().is_empty());
    assert!(!client.output_changed());
    assert_eq!(client.pending_outputs(), 0);
}

#[test]
fn version_is_clamped_to_advertised() {
    assert_eq!(negotiated_version(5, 3), 3);
    assert_eq!(negotiated_version(3, 5), 3);
    assert_eq!(negotiated_version(4, 4), 4);
    assert_eq!(negotiated_version(0, 7), 0);
}

#[test]
fn binding_clamps_the_version() {
    let mut client = WaylandClient::new();
    assert_eq!(
        client.dispatch(announce(40, 3)),
        Ok(Some(BindRequest { name: 40, version: 3, new_id: 3 }))
    );
    assert_eq!(
        client.dispatch(announce(41, 9)),
        Ok(Some(BindRequest { name: 41, version: 4, new_id: 4 }))
    );
}

#[test]
fn other_interfaces_are_not_bound() {
    let mut client = WaylandClient::new();
    let seat = Event::Global { name: 5, interface: "wl_seat".to_string(), version: 7 };
    assert_eq!(client.dispatch(seat), Ok(None));
    assert_eq!(client.pending_outputs(), 0);
    assert_eq!(
        client.dispatch(announce(6, 4)),
        Ok(Some(BindRequest { name: 6, version: 4, new_id: 3 }))
    );
}

#[test]
fn ids_run_out() {
    let mut client = WaylandClient::starting_at(0xFEFF_FFFF);
    assert_eq!(
        client.dispatch(announce(1, 4)),
        Ok(Some(BindRequest { name: 1, version: 4, new_id: 0xFEFF_FFFF }))
    );
    assert_eq!(client.dispatch(announce(2, 4)), Err(ProtocolError::IdsExhausted));
    assert_eq!(client.pending_outputs(), 1);
}

#[test]
fn unknown_object_is_fatal() {
    let mut client = WaylandClient::new();
    assert_eq!(
        client.dispatch(to_output(3, OutputEvent::Done)),
        Err(ProtocolError::UnknownObject)
    );
    assert_eq!(
        client.dispatch_frame(&frame(9, 2, Vec::new())),
        Err(ProtocolError::UnknownObject)
    );
    assert!(!client.output_changed());
}

#[test]
fn pending_outputs_are_not_listed() {
    let mut client = WaylandClient::new();
    client.dispatch(announce(1, 4)).unwrap();
    client.dispatch(announce(2, 4)).unwrap();
    client.dispatch(to_output(3, named("A"))).unwrap();
    client.dispatch(to_output(4, named("B"))).unwrap();
    assert!(client.list_outputs().is_empty());
    assert_eq!(client.pending_outputs(), 2);
    client.dispatch(to_output(4, OutputEvent::Done)).unwrap();
    let listed = client.list_outputs();
    assert_eq!(listed.len(), 1);
    assert_eq!(listed[0].name, Some("B".to_string()));
    assert_eq!(client.pending_outputs(), 1);
}

#[test]
fn listing_keeps_binding_order() {
    let mut client = WaylandClient::new();
    client.dispatch(announce(1, 4)).unwrap();
    client.dispatch(announce(2, 4)).unwrap();
    client.dispatch(announce(3, 4)).unwrap();
    client.dispatch(to_output(5, named("third"))).unwrap();
    client.dispatch(to_output(5, OutputEvent::Done)).unwrap();
    client.dispatch(to_output(3, named("first"))).unwrap();
    client.dispatch(to_output(3, OutputEvent::Done)).unwrap();
    let names: Vec<Option<String>> = client.list_outputs().into_iter().map(|o| o.name).collect();
    assert_eq!(names, vec![Some("first".to_string()), Some("third".to_string())]);
}

#[test]
fn done_alone_gives_defaults() {
    let mut client = WaylandClient::new();
    client.dispatch(announce(1, 4)).unwrap();
    client.dispatch(to_output(3, OutputEvent::Done)).unwrap();
    let listed = client.list_outputs();
    assert_eq!(
        listed,
        vec![DisplayOutput {
            model: String::new(),
            name: None,
            description: None,
            make: String::new(),
            location: (0, 0),
            subpixel: "Unknown".to_string(),
            physical_size: (0, 0),
            logical_position: None,
            logical_size: None,
            modes: Vec::new(),
        }]
    );
}

#[test]
fn second_generation_replaces_the_first() {
    let mut client = WaylandClient::new();
    client.dispatch(announce(1, 4)).unwrap();
    client.dispatch(to_output(3, named("eDP-1"))).unwrap();
    client.dispatch(to_output(3, geometry("ACME", "One"))).unwrap();
    client.dispatch(to_output(3, OutputEvent::Done)).unwrap();
    assert_eq!(client.list_outputs()[0].name, Some("eDP-1".to_string()));
    client.dispatch(to_output(3, OutputEvent::Scale { factor: 2 })).unwrap();
    assert!(client.list_outputs().is_empty());
    client.dispatch(to_output(3, OutputEvent::Done)).unwrap();
    let listed = client.list_outputs();
    assert_eq!(listed.len(), 1);
    assert_eq!(listed[0].name, None);
    assert_eq!(listed[0].model, "");
    assert_eq!(listed[0].make, "");
    assert_eq!(listed[0].physical_size, (0, 0));
}

#[test]
fn properties_add_up_within_a_generation() {
    let mut entry = OutputEntry::fresh(3, 1, 4);
    assert!(!entry.accept(named("eDP-1")));
    assert!(!entry.accept(geometry("ACME", "One")));
    assert!(!entry.accept(OutputEvent::Mode { flags: 1, width: 800, height: 600, refresh: 60_000 }));
    assert!(!entry.accept(OutputEvent::Mode { flags: 2, width: 640, height: 480, refresh: 75_000 }));
    assert!(!entry.accept(OutputEvent::Description { description: "desk".to_string() }));
    assert!(!entry.accept(OutputEvent::Scale { factor: 3 }));
    assert!(entry.accept(OutputEvent::Done));
    assert!(entry.complete);
    assert!(entry.announced);
    assert_eq!(
        entry.info,
        OutputInfo {
            model: "One".to_string(),
            name: Some("eDP-1".to_string()),
            description: Some("desk".to_string()),
            make: "ACME".to_string(),
            location: (1, 2),
            subpixel: Subpixel::HorizontalRgb,
            physical_size: (300, 200),
            scale_factor: 3,
            logical_position: None,
            logical_size: None,
            modes: vec![
                Mode { width: 800, height: 600, refresh_rate: 60_000, current: true, preferred: false },
                Mode { width: 640, height: 480, refresh_rate: 75_000, current: false, preferred: true },
            ],
        }
    );
    assert!(!entry.accept(OutputEvent::Done));
    assert!(entry.complete);
    assert_eq!(entry.info.model, "One");
}

#[test]
fn repeated_done_keeps_the_record() {
    let mut client = WaylandClient::new();
    client.dispatch(announce(1, 4)).unwrap();
    client.dispatch(to_output(3, named("eDP-1"))).unwrap();
    client.dispatch(to_output(3, OutputEvent::Done)).unwrap();
    client.dispatch(to_output(3, OutputEvent::Done)).unwrap();
    assert_eq!(client.list_outputs()[0].name, Some("eDP-1".to_string()));
}

#[test]
fn removal_of_a_bound_output_is_a_change() {
    let mut client = WaylandClient::new();
    client.dispatch(announce(7, 4)).unwrap();
    client.dispatch(to_output(3, OutputEvent::Done)).unwrap();
    client.begin_watch();
    assert!(!client.output_changed());
    assert_eq!(
        client.watch_for_output_changes(true, vec![Event::GlobalRemove { name: 7 }]),
        Ok((true, Vec::new()))
    );
    assert!(client.list_outputs().is_empty());
    assert_eq!(client.dispatch(to_output(3, OutputEvent::Done)), Err(ProtocolError::UnknownObject));
}

#[test]
fn removal_of_an_unbound_global_is_no_change() {
    let mut client = WaylandClient::new();
    client.dispatch(announce(7, 4)).unwrap();
    client.dispatch(to_output(3, OutputEvent::Done)).unwrap();
    assert_eq!(
        client.watch_for_output_changes(true, vec![Event::GlobalRemove { name: 8 }]),
        Ok((false, Vec::new()))
    );
    assert_eq!(client.list_outputs().len(), 1);
}

#[test]
fn new_output_is_a_change_once_done() {
    let mut client = WaylandClient::new();
    assert_eq!(
        client.watch_for_output_changes(true, vec![announce(7, 4)]),
        Ok((false, vec![BindRequest { name: 7, version: 4, new_id: 3 }]))
    );
    assert_eq!(
        client.watch_for_output_changes(false, vec![to_output(3, named("HDMI-A-1"))]),
        Ok((false, Vec::new()))
    );
    assert_eq!(
        client.watch_for_output_changes(false, vec![to_output(3, OutputEvent::Done)]),
        Ok((true, Vec::new()))
    );
}

#[test]
fn property_update_is_no_change() {
    let mut client = WaylandClient::new();
    client.dispatch(announce(7, 4)).unwrap();
    client.dispatch(to_output(3, OutputEvent::Done)).unwrap();
    assert!(client.output_changed());
    let batch = vec![
        to_output(3, OutputEvent::Scale { factor: 2 }),
        to_output(3, OutputEvent::Done),
    ];
    assert_eq!(client.watch_for_output_changes(true, batch), Ok((false, Vec::new())));
    assert!(!client.output_changed());
    assert_eq!(client.list_outputs().len(), 1);
}

#[test]
fn watch_keeps_the_flag_between_turns() {
    let mut client = WaylandClient::new();
    client.dispatch(announce(7, 4)).unwrap();
    client.dispatch(to_output(3, OutputEvent::Done)).unwrap();
    assert_eq!(client.watch_for_output_changes(false, Vec::new()), Ok((true, Vec::new())));
    assert_eq!(client.watch_for_output_changes(true, Vec::new()), Ok((false, Vec::new())));
}

#[test]
fn batch_stops_at_the_first_error() {
    let mut client = WaylandClient::new();
    let batch = vec![
        announce(7, 4),
        to_output(9, OutputEvent::Done),
        announce(8, 4),
    ];
    assert_eq!(client.dispatch_all(batch), Err(ProtocolError::UnknownObject));
    assert_eq!(client.pending_outputs(), 1);
}

#[test]
fn batch_collects_the_requests() {
    let mut client = WaylandClient::new();
    let batch = vec![
        announce(7, 2),
        Event::Global { name: 3, interface: "wl_shm".to_string(), version: 1 },
        announce(8, 4),
    ];
    assert_eq!(
        client.dispatch_all(batch),
        Ok(vec![
            BindRequest { name: 7, version: 2, new_id: 3 },
            BindRequest { name: 8, version: 4, new_id: 4 },
        ])
    );
}

#[test]
fn interleaving_does_not_mix_outputs() {
    let mut one = WaylandClient::new();
    one.dispatch(announce(1, 4)).unwrap();
    one.dispatch(announce(2, 4)).unwrap();
    one.dispatch(to_output(3, named("A"))).unwrap();
    one.dispatch(to_output(4, named("B"))).unwrap();
    one.dispatch(to_output(3, geometry("ma", "a"))).unwrap();
    one.dispatch(to_output(4, geometry("mb", "b"))).unwrap();
    one.dispatch(to_output(4, OutputEvent::Done)).unwrap();
    one.dispatch(to_output(3, OutputEvent::Done)).unwrap();

    let mut other = WaylandClient::new();
    other.dispatch(announce(1, 4)).unwrap();
    other.dispatch(announce(2, 4)).unwrap();
    other.dispatch(to_output(4, named("B"))).unwrap();
    other.dispatch(to_output(4, geometry("mb", "b"))).unwrap();
    other.dispatch(to_output(4, OutputEvent::Done)).unwrap();
    other.dispatch(to_output(3, named("A"))).unwrap();
    other.dispatch(to_output(3, geometry("ma", "a"))).unwrap();
    other.dispatch(to_output(3, OutputEvent::Done)).unwrap();

    let first = one.list_outputs();
    assert_eq!(first, other.list_outputs());
    assert_eq!(first[0].name, Some("A".to_string()));
    assert_eq!(first[0].model, "a");
    assert_eq!(first[1].name, Some("B".to_string()));
    assert_eq!(first[1].make, "mb");
}

#[test]
fn listing_twice_gives_the_same() {
    let mut client = WaylandClient::new();
    client.dispatch(announce(1, 4)).unwrap();
    client.dispatch(to_output(3, geometry("ACME", "One"))).unwrap();
    client.dispatch(to_output(3, OutputEvent::Mode { flags: 3, width: 1, height: 2, refresh: 3 })).unwrap();
    client.dispatch(to_output(3, OutputEvent::Done)).unwrap();
    let once = client.list_outputs();
    let again = client.list_outputs();
    assert_eq!(once, again);
    assert_eq!(once.len(), 1);
}

#[test]
fn frames_end_to_end() {
    let mut client = WaylandClient::new();
    let announced = client.dispatch_pending(&global_frame(31, "wl_output", 2));
    assert_eq!(announced, Ok(vec![BindRequest { name: 31, version: 2, new_id: 3 }]));
    let mut stream: Vec<u8> = geometry_frame(3, "ACME", "Panel 9");
    stream.extend(mode_frame(3, 3, 1920, 1080, 60_000));
    stream.extend(frame(3, 4, text("eDP-1")));
    stream.extend(frame(3, 2, Vec::new()));
    assert_eq!(client.dispatch_pending(&stream), Ok(Vec::new()));
    assert!(client.output_changed());
    assert_eq!(
        client.list_outputs(),
        vec![DisplayOutput {
            model: "Panel 9".to_string(),
            name: Some("eDP-1".to_string()),
            description: None,
            make: "ACME".to_string(),
            location: (100, 200),
            subpixel: "None".to_string(),
            physical_size: (340, 190),
            logical_position: None,
            logical_size: None,
            modes: vec!["(current) (preferred) 1920×1080px @ 60.000 Hz".to_string()],
        }]
    );
}

#[test]
fn frames_with_name_and_description() {
    let mut client = WaylandClient::new();
    let mut stream: Vec<u8> = global_frame(31, "wl_output", 4);
    stream.extend(geometry_frame(3, "ACME", "Panel 9"));
    stream.extend(frame(3, 4, text("eDP-1")));
    stream.extend(frame(3, 5, text("Built-in")));
    stream.extend(frame(3, 2, Vec::new()));
    assert_eq!(
        client.dispatch_pending(&stream),
        Ok(vec![BindRequest { name: 31, version: 4, new_id: 3 }])
    );
    let listed = client.list_outputs();
    assert_eq!(listed.len(), 1);
    assert_eq!(listed[0].name, Some("eDP-1".to_string()));
    assert_eq!(listed[0].description, Some("Built-in".to_string()));
    assert!(listed[0].modes.is_empty());
}

#[test]
fn pass_stops_at_the_first_bad_frame() {
    let mut client = WaylandClient::new();
    let mut stream: Vec<u8> = global_frame(31, "wl_output", 2);
    stream.extend(frame(3, 9, Vec::new()));
    stream.extend(global_frame(32, "wl_output", 2));
    assert_eq!(client.dispatch_pending(&stream), Err(ProtocolError::UnknownOpcode));
    assert_eq!(client.pending_outputs(), 1);
    assert!(client.has_output(3));
    assert!(!client.has_output(4));
}

#[test]
fn frame_by_frame() {
    let mut client = WaylandClient::new();
    let first: Vec<u8> = global_frame(31, "wl_output", 3);
    assert_eq!(
        client.decode_frame(&first),
        Ok((Event::Global { name: 31, interface: "wl_output".to_string(), version: 3 }, first.len()))
    );
    assert_eq!(
        client.dispatch_frame(&first),
        Ok((first.len(), Some(BindRequest { name: 31, version: 3, new_id: 3 })))
    );
    let mut two: Vec<u8> = frame(3, 3, word(2));
    two.extend(frame(3, 2, Vec::new()));
    assert_eq!(client.dispatch_frame(&two), Ok((12, None)));
    assert_eq!(client.dispatch_frame(&two[12..]), Ok((8, None)));
    assert_eq!(client.list_outputs().len(), 1);
    let gone: Vec<u8> = frame(2, 1, word(31));
    assert_eq!(client.dispatch_frame(&gone), Ok((12, None)));
    assert!(client.list_outputs().is_empty());
}

#[test]
fn leftover_bytes_are_a_truncated_frame() {
    let mut client = WaylandClient::new();
    let mut stream: Vec<u8> = global_frame(31, "wl_output", 3);
    stream.extend(vec![3, 0, 0]);
    assert_eq!(client.dispatch_pending(&stream), Err(ProtocolError::Truncated));
    assert_eq!(client.pending_outputs(), 1);
    assert_eq!(client.dispatch_pending(&[]), Ok(Vec::new()));
}

#[test]
fn malformed_frames_are_refused() {
    let mut client = WaylandClient::new();
    assert_eq!(client.dispatch_frame(&frame(2, 7, Vec::new())), Err(ProtocolError::UnknownOpcode));
    assert_eq!(client.dispatch_frame(&frame(2, 1, Vec::new())), Err(ProtocolError::BadArgument));
    assert_eq!(client.dispatch_frame(&[2, 0, 0, 0, 0, 0, 6, 0]), Err(ProtocolError::BadSize));
}

#[test]
fn subpixel_words() {
    assert_eq!(subpixel_to_string(Subpixel::NoSubpixels), "None");
    assert_eq!(subpixel_to_string(Subpixel::HorizontalRgb), "Horizontal RGB");
    assert_eq!(subpixel_to_string(Subpixel::HorizontalBgr), "Horizontal BGR");
    assert_eq!(subpixel_to_string(Subpixel::VerticalRgb), "Vertical RGB");
    assert_eq!(subpixel_to_string(Subpixel::VerticalBgr), "Vertical BGR");
    assert_eq!(subpixel_to_string(Subpixel::Unknown), "Unknown");
}

#[test]
fn subpixel_codes() {
    assert_eq!(subpixel_from_code(0), Subpixel::Unknown);
    assert_eq!(subpixel_from_code(1), Subpixel::NoSubpixels);
    assert_eq!(subpixel_from_code(2), Subpixel::HorizontalRgb);
    assert_eq!(subpixel_from_code(3), Subpixel::HorizontalBgr);
    assert_eq!(subpixel_from_code(4), Subpixel::VerticalRgb);
    assert_eq!(subpixel_from_code(5), Subpixel::VerticalBgr);
    assert_eq!(subpixel_from_code(6), Subpixel::Unknown);
    assert_eq!(subpixel_from_code(-1), Subpixel::Unknown);
}

#[test]
fn mode_flags() {
    assert_eq!(
        Mode::from_message(0, 1, 2, 3),
        Mode { width: 1, height: 2, refresh_rate: 3, current: false, preferred: false }
    );
    assert_eq!(
        Mode::from_message(1, 1, 2, 3),
        Mode { width: 1, height: 2, refresh_rate: 3, current: true, preferred: false }
    );
    assert_eq!(
        Mode::from_message(2, 1, 2, 3),
        Mode { width: 1, height: 2, refresh_rate: 3, current: false, preferred: true }
    );
    assert_eq!(
        Mode::from_message(7, 1, 2, 3),
        Mode { width: 1, height: 2, refresh_rate: 3, current: true, preferred: true }
    );
}

#[test]
fn modes_are_summarised() {
    let modes = vec![
        Mode { width: 1920, height: 1080, refresh_rate: 59_951, current: true, preferred: false },
        Mode { width: 800, height: 600, refresh_rate: 60_000, current: false, preferred: true },
        Mode { width: 640, height: 480, refresh_rate: 75_025, current: false, preferred: false },
    ];
    assert_eq!(
        mode_summaries(&modes),
        vec![
            "(current) 1920×1080px @ 59.951 Hz".to_string(),
            "(preferred) 800×600px @ 60.000 Hz".to_string(),
            "640×480px @ 75.025 Hz".to_string(),
        ]
    );
}

#[test]
fn display_output_copies_the_record() {
    let info = OutputInfo {
        model: "One".to_string(),
        name: Some("eDP-1".to_string()),
        description: Some("desk".to_string()),
        make: "ACME".to_string(),
        location: (-5, 7),
        subpixel: Subpixel::VerticalBgr,
        physical_size: (300, 200),
        scale_factor: 2,
        logical_position: Some((10, 20)),
        logical_size: Some((1280, 720)),
        modes: vec![Mode { width: 2560, height: 1440, refresh_rate: 144_000, current: true, preferred: true }],
    };
    let shown = DisplayOutput::new(&info);
    assert_eq!(
        shown,
        DisplayOutput {
            model: "One".to_string(),
            name: Some("eDP-1".to_string()),
            description: Some("desk".to_string()),
            make: "ACME".to_string(),
            location: (-5, 7),
            subpixel: "Vertical BGR".to_string(),
            physical_size: (300, 200),
            logical_position: Some((10, 20)),
            logical_size: Some((1280, 720)),
            modes: vec!["(current) (preferred) 2560×1440px @ 144.000 Hz".to_string()],
        }
    );
    let assembled = DisplayOutput::assemble(&info, vec!["x".to_string()]);
    assert_eq!(assembled.modes, vec!["x".to_string()]);
    assert_eq!(assembled.model, "One");
}

#[test]
fn blank_info_is_empty() {
    let info = OutputInfo::blank();
    assert_eq!(info.model, "");
    assert_eq!(info.make, "");
    assert_eq!(info.name, None);
    assert_eq!(info.description, None);
    assert_eq!(info.location, (0, 0));
    assert_eq!(info.physical_size, (0, 0));
    assert_eq!(info.scale_factor, 1);
    assert_eq!(info.subpixel, Subpixel::Unknown);
    assert!(info.modes.is_empty());
}

#[test]
fn decimal_is_appended() {
    let cases: Vec<i32> = vec![0, 7, 9, 10, 11, 99, 100, 1080, -1, -10, -999, i32::MAX, i32::MIN];
    for n in cases {
        let mut out = String::from("n=");
        wmctl::text::push_decimal(&mut out, n);
        assert_eq!(out, format!("n={}", n));
    }
}

#[test]
fn full_text_of_an_output() {
    let shown = DisplayOutput {
        model: "One".to_string(),
        name: Some("eDP-1".to_string()),
        description: Some("desk".to_string()),
        make: "ACME".to_string(),
        location: (-5, 7),
        subpixel: "Vertical BGR".to_string(),
        physical_size: (300, 200),
        logical_position: Some((10, 20)),
        logical_size: Some((1280, 720)),
        modes: vec![
            "(current) 2560×1440px @ 144.000 Hz".to_string(),
            "800×600px @ 60.000 Hz".to_string(),
        ],
    };
    assert_eq!(
        shown.to_text(),
        "One\n\tname: eDP-1\n\tdescription: desk\n\tmake: ACME\n\tx: -5, y: 7\n\
         \tsubpixel: \"Vertical BGR\"\n\tphysical_size: 300×200mm\n\
         \tlogical x: 10, y: 20\n\tlogical width: 1280, height: 720\n\tmodes:\n\
         \t\t(current) 2560×1440px @ 144.000 Hz\n\t\t800×600px @ 60.000 Hz\n"
    );
}

#[test]
fn short_text_of_an_output() {
    let shown = DisplayOutput {
        model: String::new(),
        name: None,
        description: None,
        make: "a \"b\"".to_string(),
        location: (0, 0),
        subpixel: "x\ty".to_string(),
        physical_size: (0, 0),
        logical_position: None,
        logical_size: None,
        modes: Vec::new(),
    };
    assert_eq!(
        shown.to_text(),
        "\n\tmake: a \"b\"\n\tx: 0, y: 0\n\tsubpixel: \"x\\ty\"\n\tphysical_size: 0×0mm\n\tmodes:\n"
    );
}

#[test]
fn globals_are_kept_until_removed() {
    let mut client = WaylandClient::new();
    let batch = vec![
        Event::Global { name: 1, interface: "wl_compositor".to_string(), version: 6 },
        announce(2, 4),
        Event::Global { name: 3, interface: "wl_seat".to_string(), version: 9 },
    ];
    client.dispatch_all(batch).unwrap();
    assert_eq!(
        client.globals(),
        &vec![
            Global { name: 1, interface: "wl_compositor".to_string(), version: 6 },
            Global { name: 2, interface: "wl_output".to_string(), version: 4 },
            Global { name: 3, interface: "wl_seat".to_string(), version: 9 },
        ]
    );
    client.begin_watch();
    client.dispatch(Event::GlobalRemove { name: 1 }).unwrap();
    assert!(!client.output_changed());
    assert_eq!(client.globals().len(), 2);
    assert_eq!(client.globals()[0].name, 2);
    client.dispatch(Event::GlobalRemove { name: 2 }).unwrap();
    assert!(client.output_changed());
    assert_eq!(
        client.globals(),
        &vec![Global { name: 3, interface: "wl_seat".to_string(), version: 9 }]
    );
    assert!(!client.has_output(3));
}

#[test]
fn rejected_global_is_not_recorded() {
    let mut client = WaylandClient::starting_at(0xFF00_0000);
    assert_eq!(client.dispatch(announce(2, 4)), Err(ProtocolError::IdsExhausted));
    assert!(client.globals().is_empty());
    let seat = Event::Global { name: 3, interface: "wl_seat".to_string(), version: 9 };
    assert_eq!(client.dispatch(seat), Ok(None));
    assert_eq!(client.globals().len(), 1);
}

use std::sync::atomic::{AtomicU32, Ordering};
use std::sync::Arc;

use nestri_server::args::app_args::AppArgs;
use nestri_server::args::device_args::DeviceArgs;
use nestri_server::args::encoding_args::{
    AudioCaptureMethod, AudioEncodingOptions, EncodingArgs, EncodingOptionsBase, RateControl,
    RateControlCBR, RateControlMethod, RateControlVBR, VideoEncodingOptions,
};
use nestri_server::args::Args;
use nestri_server::enc_helper::{
    codec_from_encoder_name, encoder_cbr_params, encoder_cqp_params, encoder_gop_params,
    encoder_low_latency_params, encoder_vbr_params, get_best_compatible_encoder,
    get_encoder_api, get_encoder_by_name, get_encoders_by_type, get_encoders_by_videocodec,
    AudioCodec, Codec, EncoderAPI, EncoderType, VideoCodec, VideoEncoderInfo,
};
use nestri_server::errors::{CapacityError, ProtocolError};
use nestri_server::gpu::{
    get_gpu_by_card_path, get_gpu_by_index, get_gpu_vendor, get_gpus_by_device_name,
    get_gpus_by_vendor, GPUInfo, GPUVendor,
};
use nestri_server::input::{
    decode_input, encode_input, handle_input_message, relay_data_channel_message, InputEvent,
    PipelineEvent,
};
use nestri_server::json::json_to_bytes;
use nestri_server::messages::{
    AnswerStatus, IceCandidateInit, JoinerRole, MessageBase, MessageSDP, SessionDescription,
};
use nestri_server::registry::{Callback, CallbackRegistry, Handler};
use nestri_server::signaling::{
    Announcement, SessionPhase, SignalAction, SignalingMachine,
};
use nestri_server::transport::{
    BoundedQueue, DispatchOutcome, SocketTransportCore, StreamTransportCore,
    STREAM_QUEUE_CAPACITY,
};

/// A handler that records which registration got the message.
struct TaggedHandler {
    tag: u32,
    hits: Arc<AtomicU32>,
    last_tag: Arc<AtomicU32>,
}

impl Handler for TaggedHandler {
    fn handle(&self, _data: Vec<u8>) {
        self.hits.fetch_add(1, Ordering::SeqCst);
        self.last_tag.store(self.tag, Ordering::SeqCst);
    }
}

fn tagged(tag: u32, hits: &Arc<AtomicU32>, last: &Arc<AtomicU32>) -> TaggedHandler {
    TaggedHandler { tag, hits: hits.clone(), last_tag: last.clone() }
}

// ---------------------------------------------------------------------
// Callback registry
// ---------------------------------------------------------------------

#[test]
fn registering_twice_dispatches_only_the_second_handler() {
    let hits = Arc::new(AtomicU32::new(0));
    let last = Arc::new(AtomicU32::new(0));
    let mut registry: CallbackRegistry<TaggedHandler> = CallbackRegistry::new();
    registry.register("ice".to_string(), tagged(1, &hits, &last));
    registry.register("ice".to_string(), tagged(2, &hits, &last));
    assert!(registry.dispatch("ice", vec![1, 2, 3]));
    assert_eq!(hits.load(Ordering::SeqCst), 1);
    assert_eq!(last.load(Ordering::SeqCst), 2);
}

#[test]
fn dispatch_without_handler_reports_it() {
    let registry: CallbackRegistry<TaggedHandler> = CallbackRegistry::new();
    assert!(!registry.dispatch("sdp", Vec::new()));
}

#[test]
fn lookup_finds_the_latest_registration() {
    let hits = Arc::new(AtomicU32::new(0));
    let last = Arc::new(AtomicU32::new(0));
    let mut registry: CallbackRegistry<TaggedHandler> = CallbackRegistry::new();
    registry.register("a".to_string(), tagged(1, &hits, &last));
    registry.register("b".to_string(), tagged(2, &hits, &last));
    registry.register("a".to_string(), tagged(3, &hits, &last));
    assert_eq!(registry.lookup("a").unwrap().tag, 3);
    assert_eq!(registry.lookup("b").unwrap().tag, 2);
    assert!(registry.lookup("c").is_none());
}

#[test]
fn callback_wraps_a_function() {
    let hits = Arc::new(AtomicU32::new(0));
    let hits_inner = hits.clone();
    let cb = Callback::new(move |data: Vec<u8>| {
        hits_inner.fetch_add(data.len() as u32, Ordering::SeqCst);
    });
    cb.call(vec![1, 2, 3]);
    assert_eq!(hits.load(Ordering::SeqCst), 3);
}

// ---------------------------------------------------------------------
// Transports
// ---------------------------------------------------------------------

#[test]
fn bounded_queue_rejects_only_when_full() {
    let mut q = BoundedQueue::new(2);
    assert!(q.try_send(vec![1]).is_ok());
    assert!(q.try_send(vec![2]).is_ok());
    assert_eq!(q.try_send(vec![3]), Err(CapacityError));
    assert_eq!(q.pop(), Some(vec![1]));
    assert!(q.try_send(vec![4]).is_ok());
    assert_eq!(q.pop(), Some(vec![2]));
    assert_eq!(q.pop(), Some(vec![4]));
    assert_eq!(q.pop(), None);
}

#[test]
fn stream_backend_backpressure_at_capacity() {
    let mut core: StreamTransportCore<TaggedHandler> = StreamTransportCore::new();
    for i in 0..STREAM_QUEUE_CAPACITY {
        assert!(core.send_message(vec![(i % 256) as u8]).is_ok(), "send {} should fit", i);
    }
    // The queue is at capacity: one more send fails at once, the
    // transport stays usable.
    assert_eq!(core.send_message(vec![0xff]), Err(CapacityError));
    assert_eq!(core.pop_outbound(), Some(vec![0]));
    assert!(core.send_message(vec![0xfe]).is_ok());
}

#[test]
fn socket_backend_retries_the_failed_message_in_order() {
    let mut core: SocketTransportCore<TaggedHandler> = SocketTransportCore::new();
    core.send_message(b"first".to_vec());
    core.send_message(b"second".to_vec());
    assert_eq!(core.next_outbound().unwrap(), &b"first".to_vec());
    // A failed transmit keeps the message at the front.
    core.on_transmit_failed();
    assert_eq!(core.next_outbound().unwrap(), &b"first".to_vec());
    // Only a confirmed transmit removes it; order is preserved.
    core.on_transmit_ok();
    assert_eq!(core.next_outbound().unwrap(), &b"second".to_vec());
    core.on_transmit_ok();
    assert!(core.next_outbound().is_none());
}

#[test]
fn stream_reader_dispatches_on_the_discriminant() {
    let hits = Arc::new(AtomicU32::new(0));
    let last = Arc::new(AtomicU32::new(0));
    let mut core: StreamTransportCore<TaggedHandler> = StreamTransportCore::new();
    core.register_callback("sdp".to_string(), tagged(7, &hits, &last));
    let m = MessageSDP {
        base: MessageBase { payload_type: "sdp".to_string(), latency: None },
        sdp: SessionDescription { sdp_type: "answer".to_string(), sdp: "v=0".to_string() },
    };
    let bytes = json_to_bytes(&m.to_json());
    assert_eq!(core.handle_frame(bytes), DispatchOutcome::Dispatched);
    assert_eq!(hits.load(Ordering::SeqCst), 1);
    assert_eq!(last.load(Ordering::SeqCst), 7);
    // An unknown kind is a warning, not a fault.
    assert_eq!(
        core.handle_frame(br#"{"payload_type":"metrics"}"#.to_vec()),
        DispatchOutcome::NoHandler
    );
    // Malformed bytes are dropped and the loop goes on.
    assert_eq!(core.handle_frame(b"not a document".to_vec()), DispatchOutcome::DecodeFailed);
    assert_eq!(core.handle_frame(br#"{"no_discriminant":1}"#.to_vec()), DispatchOutcome::DecodeFailed);
    assert_eq!(hits.load(Ordering::SeqCst), 1);
}

#[test]
fn socket_reader_dispatches_and_counts_reconnects() {
    let hits = Arc::new(AtomicU32::new(0));
    let last = Arc::new(AtomicU32::new(0));
    let mut core: SocketTransportCore<TaggedHandler> = SocketTransportCore::new();
    core.register_callback("answer".to_string(), tagged(3, &hits, &last));
    assert_eq!(
        core.handle_incoming(br#"{"payload_type":"answer","status":"ok"}"#.to_vec()),
        DispatchOutcome::Dispatched
    );
    assert_eq!(hits.load(Ordering::SeqCst), 1);
    core.on_reconnected();
    core.on_reconnected();
    // The queue and callbacks survive reconnection untouched.
    assert_eq!(
        core.handle_incoming(br#"{"payload_type":"answer","status":"ok"}"#.to_vec()),
        DispatchOutcome::Dispatched
    );
    assert_eq!(hits.load(Ordering::SeqCst), 2);
}

// ---------------------------------------------------------------------
// Signaling machine
// ---------------------------------------------------------------------

fn started_machine() -> SignalingMachine {
    let mut machine = SignalingMachine::new();
    machine.set_announcement(Announcement::PushRoom("room-1".to_string()));
    let actions = machine.start().expect("configured");
    assert_eq!(actions.len(), 1);
    assert!(matches!(&actions[0], SignalAction::SendAnnounce(Announcement::PushRoom(r)) if r == "room-1"));
    machine
}

#[test]
fn start_without_announcement_is_a_protocol_error() {
    let mut machine = SignalingMachine::new();
    assert_eq!(machine.start().unwrap_err(), ProtocolError::NotConfigured);
}

#[test]
fn end_to_end_negotiation_reaches_the_pipeline() {
    // Announce, get accepted, exchange descriptions and a candidate,
    // open the channel, then relay one key press into the pipeline.
    let mut machine = started_machine();

    let accepted = machine.on_push_ok();
    assert_eq!(accepted.len(), 1);
    assert!(matches!(accepted[0], SignalAction::RequestLocalDescription));

    let offer = machine.on_local_offer("v=0 local".to_string());
    assert_eq!(offer.len(), 1);
    assert!(
        matches!(&offer[0], SignalAction::SendSdp(d) if d.sdp_type == "offer" && d.sdp == "v=0 local")
    );

    let answer = machine.on_remote_sdp(SessionDescription {
        sdp_type: "answer".to_string(),
        sdp: "v=0 remote".to_string(),
    });
    assert_eq!(answer.len(), 1);
    assert!(matches!(&answer[0], SignalAction::ApplyRemoteDescription(d) if d.sdp == "v=0 remote"));

    let ice = machine.on_remote_ice(IceCandidateInit {
        candidate: "candidate:1".to_string(),
        sdp_mid: Some("0".to_string()),
        sdp_mline_index: Some(0),
        username_fragment: None,
    });
    assert_eq!(ice.len(), 1);
    assert!(
        matches!(&ice[0], SignalAction::ApplyRemoteCandidate(c) if c.candidate == "candidate:1")
    );

    let channel = machine.on_data_channel_ready();
    assert_eq!(channel.len(), 1);
    match &channel[0] {
        SignalAction::CreateDataChannel(cfg) => {
            assert!(cfg.ordered);
            assert_eq!(cfg.max_retransmits, 2);
            assert!(cfg.high_priority);
        },
        other => panic!("expected the channel action, got {:?}", other),
    }

    // One key press arrives on the channel and reaches the pipeline.
    let wire = encode_input(&InputEvent::KeyDown { keycode: 65 });
    let event = relay_data_channel_message(&wire).expect("decodes");
    assert_eq!(event, PipelineEvent::KeyboardKey { key: 65, pressed: true });
}

#[test]
fn rejected_room_ends_the_session_without_an_offer() {
    let mut machine = started_machine();
    let actions = machine.on_answer(AnswerStatus::InUse);
    assert_eq!(actions.len(), 1);
    assert!(matches!(actions[0], SignalAction::ReportFailure(ProtocolError::RoomInUse)));
    // The session is over: nothing further is requested or sent, so no
    // offer is ever generated.
    assert!(machine.on_push_ok().is_empty());
    assert!(machine.on_answer(AnswerStatus::Accepted).is_empty());
    assert!(machine.on_local_offer("v=0".to_string()).is_empty());
    assert!(machine.on_data_channel_ready().is_empty());
}

#[test]
fn offline_answer_ends_the_session() {
    let mut machine = started_machine();
    let actions = machine.on_answer(AnswerStatus::Offline);
    assert!(matches!(actions[0], SignalAction::ReportFailure(ProtocolError::PeerOffline)));
    assert!(machine.on_local_offer("v=0".to_string()).is_empty());
}

#[test]
fn each_reconnect_restarts_exactly_once() {
    let mut machine = started_machine();
    machine.on_push_ok();
    for _ in 0..3 {
        let actions = machine.on_reconnected();
        assert_eq!(actions.len(), 2);
        assert!(matches!(actions[0], SignalAction::EndEngineSession));
        assert!(
            matches!(&actions[1], SignalAction::SendAnnounce(Announcement::PushRoom(r)) if r == "room-1")
        );
    }
    // After a restart the machine is announced again and negotiation
    // can proceed from the join step.
    let accepted = machine.on_push_ok();
    assert_eq!(accepted.len(), 1);
    assert!(matches!(accepted[0], SignalAction::RequestLocalDescription));
}

#[test]
fn stray_events_on_a_dead_handle_are_ignored() {
    let mut machine = SignalingMachine::new();
    // No session yet: inbound events do nothing.
    assert!(machine.on_answer(AnswerStatus::Accepted).is_empty());
    assert!(machine
        .on_remote_sdp(SessionDescription {
            sdp_type: "answer".to_string(),
            sdp: "v=0".to_string()
        })
        .is_empty());
    assert!(machine.on_data_channel_ready().is_empty());
    assert!(machine.on_reconnected().is_empty());
}

#[test]
fn non_answer_descriptions_are_dropped() {
    let mut machine = started_machine();
    machine.on_push_ok();
    let actions = machine.on_remote_sdp(SessionDescription {
        sdp_type: "offer".to_string(),
        sdp: "v=0".to_string(),
    });
    assert!(actions.is_empty());
}

#[test]
fn shutdown_silences_the_machine() {
    let mut machine = started_machine();
    let actions = machine.shutdown();
    assert_eq!(actions.len(), 1);
    assert!(matches!(actions[0], SignalAction::EndEngineSession));
    assert!(machine.on_reconnected().is_empty());
    assert!(machine.on_push_ok().is_empty());
}

#[test]
fn session_phases_are_distinct() {
    assert_ne!(SessionPhase::Announced, SessionPhase::Negotiating);
    assert_ne!(SessionPhase::Negotiating, SessionPhase::DataChannelOpen);
    assert_ne!(SessionPhase::DataChannelOpen, SessionPhase::Ended);
}

// ---------------------------------------------------------------------
// Input relay
// ---------------------------------------------------------------------

#[test]
fn every_input_kind_round_trips() {
    let events = [
        InputEvent::MouseMove { dx: -3, dy: 4 },
        InputEvent::MouseMoveAbs { x: 800, y: 600 },
        InputEvent::KeyDown { keycode: 65 },
        InputEvent::KeyUp { keycode: 65 },
        InputEvent::MouseWheel { dx: 0, dy: -1 },
        InputEvent::MouseKeyDown { button: 1 },
        InputEvent::MouseKeyUp { button: 1 },
    ];
    for e in events {
        let wire = encode_input(&e);
        assert_eq!(decode_input(&wire), Some(e), "{:?} should round-trip", e);
    }
}

#[test]
fn input_translation_matches_the_pipeline_vocabulary() {
    assert_eq!(
        handle_input_message(&InputEvent::MouseMove { dx: -3, dy: 4 }),
        PipelineEvent::MouseMoveRelative { pointer_x: -3, pointer_y: 4 }
    );
    assert_eq!(
        handle_input_message(&InputEvent::MouseMoveAbs { x: 1, y: 2 }),
        PipelineEvent::MouseMoveAbsolute { pointer_x: 1, pointer_y: 2 }
    );
    assert_eq!(
        handle_input_message(&InputEvent::KeyUp { keycode: 9 }),
        PipelineEvent::KeyboardKey { key: 9, pressed: false }
    );
    assert_eq!(
        handle_input_message(&InputEvent::MouseWheel { dx: 0, dy: -1 }),
        PipelineEvent::MouseAxis { x: 0, y: -1 }
    );
    assert_eq!(
        handle_input_message(&InputEvent::MouseKeyDown { button: 2 }),
        PipelineEvent::MouseButton { button: 2, pressed: true }
    );
    assert_eq!(
        handle_input_message(&InputEvent::MouseKeyUp { button: 2 }),
        PipelineEvent::MouseButton { button: 2, pressed: false }
    );
}

#[test]
fn malformed_input_messages_are_dropped_not_fatal() {
    assert_eq!(relay_data_channel_message(&Vec::new()), None);
    assert_eq!(relay_data_channel_message(&vec![9, 0, 0, 0, 65]), None);
    assert_eq!(relay_data_channel_message(&vec![3, 0, 0]), None);
    let mut too_long = encode_input(&InputEvent::KeyDown { keycode: 65 });
    too_long.push(0);
    assert_eq!(relay_data_channel_message(&too_long), None);
}

// ---------------------------------------------------------------------
// GPU queries
// ---------------------------------------------------------------------

fn sample_gpus() -> Vec<GPUInfo> {
    vec![
        GPUInfo::new(
            GPUVendor::INTEL,
            "/dev/dri/card0".to_string(),
            "/dev/dri/renderD128".to_string(),
            "Intel Arc A770".to_string(),
        ),
        GPUInfo::new(
            GPUVendor::NVIDIA,
            "/dev/dri/card1".to_string(),
            "/dev/dri/renderD129".to_string(),
            "NVIDIA GeForce RTX 4070".to_string(),
        ),
        GPUInfo::new(
            GPUVendor::AMD,
            "/dev/dri/card2".to_string(),
            "/dev/dri/renderD130".to_string(),
            "AMD Radeon RX 7800".to_string(),
        ),
    ]
}

#[test]
fn vendor_ids_map_to_vendors() {
    assert_eq!(get_gpu_vendor("8086"), GPUVendor::INTEL);
    assert_eq!(get_gpu_vendor("10de"), GPUVendor::NVIDIA);
    assert_eq!(get_gpu_vendor("1002"), GPUVendor::AMD);
    assert_eq!(get_gpu_vendor("ffff"), GPUVendor::UNKNOWN);
}

#[test]
fn gpus_filter_by_vendor_ignoring_case() {
    let gpus = sample_gpus();
    let intel = get_gpus_by_vendor(&gpus, "intel");
    assert_eq!(intel.len(), 1);
    assert_eq!(intel[0].device_name(), "Intel Arc A770");
    assert_eq!(get_gpus_by_vendor(&gpus, "NVIDIA").len(), 1);
    assert_eq!(get_gpus_by_vendor(&gpus, "matrox").len(), 0);
}

#[test]
fn gpus_filter_by_device_name_fragment() {
    let gpus = sample_gpus();
    let hits = get_gpus_by_device_name(&gpus, "geforce");
    assert_eq!(hits.len(), 1);
    assert_eq!(hits[0].device_name(), "NVIDIA GeForce RTX 4070");
    assert_eq!(get_gpus_by_device_name(&gpus, "A77").len(), 1);
    assert_eq!(get_gpus_by_device_name(&gpus, "").len(), 3);
    assert!(get_gpus_by_device_name(&gpus, "voodoo").is_empty());
}

#[test]
fn gpu_found_by_either_path_ignoring_case() {
    let gpus = sample_gpus();
    let by_card = get_gpu_by_card_path(&gpus, "/DEV/DRI/CARD1").expect("found");
    assert_eq!(by_card.device_name(), "NVIDIA GeForce RTX 4070");
    let by_render = get_gpu_by_card_path(&gpus, "/dev/dri/renderD130").expect("found");
    assert_eq!(by_render.device_name(), "AMD Radeon RX 7800");
    assert!(get_gpu_by_card_path(&gpus, "/dev/dri/card9").is_none());
}

#[test]
fn gpu_by_index_bounds() {
    let gpus = sample_gpus();
    assert!(get_gpu_by_index(&gpus, -1).is_none());
    assert_eq!(get_gpu_by_index(&gpus, 0).unwrap().device_name(), "Intel Arc A770");
    assert_eq!(get_gpu_by_index(&gpus, 2).unwrap().device_name(), "AMD Radeon RX 7800");
    assert!(get_gpu_by_index(&gpus, 3).is_none());
}

#[test]
fn gpu_selection_follows_the_configuration() {
    let gpus = sample_gpus();
    // An explicit path wins over everything.
    let g = nestri_server::gpu::select_gpu(&gpus, "amd", "radeon", 2, "/dev/dri/card0").unwrap();
    assert_eq!(g.device_name(), "Intel Arc A770");
    // Filters narrow, the index then picks within the narrowed list.
    let g = nestri_server::gpu::select_gpu(&gpus, "nvidia", "", 0, "").unwrap();
    assert_eq!(g.device_name(), "NVIDIA GeForce RTX 4070");
    assert!(nestri_server::gpu::select_gpu(&gpus, "nvidia", "", 1, "").is_none());
    // Without an index, the first entry with a known vendor is taken.
    let g = nestri_server::gpu::select_gpu(&gpus, "", "", -1, "").unwrap();
    assert_eq!(g.device_name(), "Intel Arc A770");
    let g = nestri_server::gpu::select_gpu(&gpus, "", "radeon", -1, "").unwrap();
    assert_eq!(g.device_name(), "AMD Radeon RX 7800");
}

#[test]
fn gpu_selection_skips_unknown_vendors() {
    let gpus = vec![
        GPUInfo::new(
            GPUVendor::UNKNOWN,
            "/dev/dri/card5".to_string(),
            "/dev/dri/renderD133".to_string(),
            "Mystery Device".to_string(),
        ),
        GPUInfo::new(
            GPUVendor::AMD,
            "/dev/dri/card6".to_string(),
            "/dev/dri/renderD134".to_string(),
            "AMD Radeon".to_string(),
        ),
    ];
    let g = nestri_server::gpu::select_gpu(&gpus, "", "", -1, "").unwrap();
    assert_eq!(g.device_name(), "AMD Radeon");
}

#[test]
fn gpu_getters_expose_the_entry() {
    let g = &sample_gpus()[0];
    assert_eq!(*g.vendor(), GPUVendor::INTEL);
    assert_eq!(g.vendor_string(), "Intel");
    assert_eq!(g.card_path(), "/dev/dri/card0");
    assert_eq!(g.render_path(), "/dev/dri/renderD128");
}

#[test]
fn pci_lines_parse_into_device_facts() {
    let line = r#"01:00.0 "VGA compatible controller [0300]" "NVIDIA Corporation [10de]" "GA104 [GeForce RTX 3070] [2484]" -ra1 "ASUSTeK Computer Inc. [1043]" "Device [87c8]""#;
    let (class_id, vendor_id, name, addr) =
        nestri_server::gpu::parse_pci_device(line).expect("well-formed line");
    assert_eq!(class_id, "0300");
    assert_eq!(vendor_id, "10de");
    assert_eq!(name, "GA104 [GeForce RTX 3070]");
    assert_eq!(addr, "01:00.0");
}

#[test]
fn pci_lines_without_the_expected_shape_yield_nothing() {
    assert!(nestri_server::gpu::parse_pci_device("").is_none());
    assert!(nestri_server::gpu::parse_pci_device("00:02.0").is_none());
    assert!(nestri_server::gpu::parse_pci_device("00:02.0 \"no brackets\"").is_none());
    assert!(nestri_server::gpu::parse_pci_device("00:02.0 \"bad id [XYZW]\"").is_none());
}

#[test]
fn dri_nodes_are_selected_by_prefix() {
    let names = vec![
        "version".to_string(),
        "card1".to_string(),
        "renderD129".to_string(),
    ];
    let (card, render) = nestri_server::gpu::select_dri_nodes(&names);
    assert_eq!(card.as_deref(), Some("/dev/dri/card1"));
    assert_eq!(render.as_deref(), Some("/dev/dri/renderD129"));
    let (card, render) = nestri_server::gpu::select_dri_nodes(&vec!["misc".to_string()]);
    assert!(card.is_none() && render.is_none());
}

#[test]
fn prefix_test_is_exact() {
    assert!(nestri_server::gpu::starts_with("renderD129", "renderD"));
    assert!(!nestri_server::gpu::starts_with("render", "renderD"));
    assert!(nestri_server::gpu::starts_with("card0", "card"));
    assert!(!nestri_server::gpu::starts_with("vcard0", "card"));
}

// ---------------------------------------------------------------------
// Configuration vocabulary
// ---------------------------------------------------------------------

#[test]
fn rate_control_and_capture_names() {
    assert_eq!(RateControlMethod::CQP.as_str(), "cqp");
    assert_eq!(RateControlMethod::VBR.as_str(), "vbr");
    assert_eq!(RateControlMethod::CBR.as_str(), "cbr");
    assert_eq!(AudioCaptureMethod::PULSEAUDIO.as_str(), "PulseAudio");
    assert_eq!(AudioCaptureMethod::PIPEWIRE.as_str(), "PipeWire");
    assert_eq!(AudioCaptureMethod::ALSA.as_str(), "ALSA");
}

#[test]
fn codec_names() {
    assert_eq!(AudioCodec::OPUS.as_str(), "Opus");
    assert_eq!(VideoCodec::H264.as_str(), "H.264");
    assert_eq!(Codec::Video(VideoCodec::AV1).as_str(), "AV1");
    assert_eq!(Codec::Audio(AudioCodec::OPUS).as_str(), "Opus");
    assert_eq!(EncoderAPI::NVENC.to_str(), "NVIDIA NVENC");
    assert_eq!(EncoderType::HARDWARE.as_str(), "Hardware");
}

#[test]
fn configuration_names_parse_back() {
    assert_eq!("cqp".parse::<RateControlMethod>(), Ok(RateControlMethod::CQP));
    assert_eq!("cbr".parse::<RateControlMethod>(), Ok(RateControlMethod::CBR));
    assert!("CBR".parse::<RateControlMethod>().is_err());
    assert_eq!("PipeWire".parse::<AudioCaptureMethod>(), Ok(AudioCaptureMethod::PIPEWIRE));
    assert_eq!("alsa".parse::<AudioCaptureMethod>(), Ok(AudioCaptureMethod::ALSA));
    assert!("jack".parse::<AudioCaptureMethod>().is_err());
    assert_eq!("hevc".parse::<VideoCodec>(), Ok(VideoCodec::H265));
    assert_eq!("H.264".parse::<VideoCodec>(), Ok(VideoCodec::H264));
    assert_eq!("av1".parse::<VideoCodec>(), Ok(VideoCodec::AV1));
    assert!("vp9".parse::<VideoCodec>().is_err());
    assert_eq!("Opus".parse::<AudioCodec>(), Ok(AudioCodec::OPUS));
    assert!("mp3".parse::<AudioCodec>().is_err());
}

#[test]
fn encoder_interfaces_follow_the_name() {
    assert_eq!(get_encoder_api("qsvh264enc", &EncoderType::HARDWARE), EncoderAPI::QSV);
    assert_eq!(get_encoder_api("vah264lpenc", &EncoderType::HARDWARE), EncoderAPI::VAAPI);
    assert_eq!(get_encoder_api("nvh265enc", &EncoderType::HARDWARE), EncoderAPI::NVENC);
    assert_eq!(get_encoder_api("amfh264enc", &EncoderType::HARDWARE), EncoderAPI::AMF);
    assert_eq!(get_encoder_api("mystery", &EncoderType::HARDWARE), EncoderAPI::UNKNOWN);
    assert_eq!(get_encoder_api("x264enc", &EncoderType::SOFTWARE), EncoderAPI::SOFTWARE);
}

#[test]
fn encoder_names_reveal_their_codec() {
    assert_eq!(codec_from_encoder_name("NVH264Enc"), Some(VideoCodec::H264));
    assert_eq!(codec_from_encoder_name("vah265lpenc"), Some(VideoCodec::H265));
    assert_eq!(codec_from_encoder_name("rav1e"), Some(VideoCodec::AV1));
    assert_eq!(codec_from_encoder_name("opusenc"), None);
}

fn sample_encoders() -> Vec<VideoEncoderInfo> {
    vec![
        VideoEncoderInfo::new(
            "x264enc".to_string(),
            VideoCodec::H264,
            EncoderType::SOFTWARE,
            EncoderAPI::SOFTWARE,
        ),
        VideoEncoderInfo::new(
            "vah264lpenc".to_string(),
            VideoCodec::H264,
            EncoderType::HARDWARE,
            EncoderAPI::VAAPI,
        ),
        VideoEncoderInfo::new(
            "nvh264enc".to_string(),
            VideoCodec::H264,
            EncoderType::HARDWARE,
            EncoderAPI::NVENC,
        ),
        VideoEncoderInfo::new(
            "svtav1enc".to_string(),
            VideoCodec::AV1,
            EncoderType::SOFTWARE,
            EncoderAPI::SOFTWARE,
        ),
    ]
}

#[test]
fn encoders_filter_and_look_up() {
    let encoders = sample_encoders();
    assert_eq!(get_encoders_by_videocodec(&encoders, &VideoCodec::H264).len(), 3);
    assert_eq!(get_encoders_by_videocodec(&encoders, &VideoCodec::H265).len(), 0);
    assert_eq!(get_encoders_by_type(&encoders, &EncoderType::HARDWARE).len(), 2);
    let found = get_encoder_by_name(&encoders, "NVH264ENC").expect("found despite case");
    assert_eq!(found.name, "nvh264enc");
    assert!(get_encoder_by_name(&encoders, "wavpackenc").is_err());
}

#[test]
fn best_encoder_prefers_dedicated_hardware() {
    let encoders = sample_encoders();
    let best = get_best_compatible_encoder(
        &encoders,
        &Codec::Video(VideoCodec::H264),
        &EncoderType::HARDWARE,
    )
    .expect("candidates exist");
    assert_eq!(best.name, "nvh264enc");
    let soft = get_best_compatible_encoder(
        &encoders,
        &Codec::Video(VideoCodec::H264),
        &EncoderType::SOFTWARE,
    )
    .expect("software fallback");
    assert_eq!(soft.name, "x264enc");
    assert!(get_best_compatible_encoder(
        &encoders,
        &Codec::Audio(AudioCodec::OPUS),
        &EncoderType::HARDWARE
    )
    .is_err());
    assert!(get_best_compatible_encoder(
        &encoders,
        &Codec::Video(VideoCodec::H265),
        &EncoderType::HARDWARE
    )
    .is_err());
}

#[test]
fn rate_control_rules_set_the_matching_properties() {
    let base = VideoEncoderInfo::new(
        "x264enc".to_string(),
        VideoCodec::H264,
        EncoderType::SOFTWARE,
        EncoderAPI::SOFTWARE,
    );
    let props: Vec<String> =
        vec!["qp-i".to_string(), "qp-p".to_string(), "quantizer".to_string(), "bitrate".to_string()];
    let cqp = encoder_cqp_params(&base, &props, 25);
    assert_eq!(cqp.get_parameters_string(), "qp-i=25 qp-p=27");
    let props2: Vec<String> = vec!["bitrate".to_string(), "max-bitrate".to_string()];
    let vbr = encoder_vbr_params(&base, &props2, 4000, 6000);
    assert_eq!(vbr.get_parameters_string(), "bitrate=4000 max-bitrate=6000");
    let cbr = encoder_cbr_params(&base, &props2, 4000);
    assert_eq!(cbr.get_parameters_string(), "bitrate=4000");
    let props3: Vec<String> = vec!["gop-size".to_string(), "key-int-max".to_string()];
    let gop = encoder_gop_params(&base, &props3, 120);
    assert_eq!(gop.get_parameters_string(), "gop-size=120 key-int-max=120");
}

#[test]
fn vbr_spares_the_av1_cap_property() {
    let base = VideoEncoderInfo::new(
        "svtav1enc".to_string(),
        VideoCodec::AV1,
        EncoderType::SOFTWARE,
        EncoderAPI::SOFTWARE,
    );
    let props: Vec<String> = vec!["bitrate".to_string(), "max-bitrate".to_string()];
    let vbr = encoder_vbr_params(&base, &props, 4000, 6000);
    assert_eq!(vbr.get_parameters_string(), "bitrate=4000");
}

#[test]
fn low_latency_tuning_appends_the_fixed_settings() {
    let base = VideoEncoderInfo::new(
        "x264enc".to_string(),
        VideoCodec::H264,
        EncoderType::SOFTWARE,
        EncoderAPI::SOFTWARE,
    );
    let props: Vec<String> = vec!["key-int-max".to_string()];
    let tuned = encoder_low_latency_params(&base, &props, 60);
    assert_eq!(
        tuned.get_parameters_string(),
        "key-int-max=120 rc-lookahead=0 speed-preset=ultrafast tune=zerolatency"
    );
    let nv = VideoEncoderInfo::new(
        "nvh264enc".to_string(),
        VideoCodec::H264,
        EncoderType::HARDWARE,
        EncoderAPI::NVENC,
    );
    let tuned = encoder_low_latency_params(&nv, &Vec::new(), 60);
    assert_eq!(
        tuned.get_parameters_string(),
        "multi-pass=disabled preset=p1 tune=ultra-low-latency"
    );
}

#[test]
fn configuration_prints_as_lines() {
    let args = Args {
        app: AppArgs {
            verbose: true,
            debug: false,
            resolution: (1280, 720),
            framerate: 60,
            relay_url: "relay.example:8088".to_string(),
            room: "room-1".to_string(),
            dma_buf: false,
        },
        device: DeviceArgs {
            gpu_vendor: "intel".to_string(),
            gpu_name: String::new(),
            gpu_index: -1,
            gpu_card_path: String::new(),
        },
        encoding: EncodingArgs {
            video: VideoEncodingOptions {
                base: EncodingOptionsBase {
                    codec: Codec::Video(VideoCodec::H264),
                    encoder: "x264enc".to_string(),
                    rate_control: RateControl::VBR(RateControlVBR {
                        target_bitrate: 4000,
                        max_bitrate: 6000,
                    }),
                },
                encoder_type: EncoderType::SOFTWARE,
            },
            audio: AudioEncodingOptions {
                base: EncodingOptionsBase {
                    codec: Codec::Audio(AudioCodec::OPUS),
                    encoder: String::new(),
                    rate_control: RateControl::CBR(RateControlCBR { target_bitrate: 128 }),
                },
                capture_method: AudioCaptureMethod::PIPEWIRE,
            },
        },
    };
    let lines = args.debug_print();
    // App (8), device (5), encoding header (1), video (1+2+3+1), audio
    // (1+2+2+1).
    assert_eq!(lines.len(), 8 + 5 + 1 + 7 + 6);
    assert_eq!(lines[0], "AppArgs:");
    assert_eq!(lines[1], "> verbose: true");
    assert_eq!(lines[3], "> resolution: '1280x720'");
    assert_eq!(lines[5], "> relay_url: 'relay.example:8088'");
    assert_eq!(lines[8], "DeviceArgs:");
    assert_eq!(lines[11], "> gpu_index: -1");
    assert_eq!(lines[13], "Encoding Arguments:");
    assert_eq!(lines[14], "Video Encoding Options:");
    assert_eq!(lines[15], "> Codec: 'H.264'");
    assert_eq!(lines[17], "> Rate Control: VBR");
    assert_eq!(lines[19], "-> Max Bitrate: 6000");
    assert_eq!(lines[20], "> Encoder Type: Software");
    assert_eq!(lines[21], "Audio Encoding Options:");
    assert_eq!(lines[26], "> Capture Method: PipeWire");
}

#[test]
fn encoder_info_builds_a_parameter_line() {
    let mut info = VideoEncoderInfo::new(
        "vah264lpenc".to_string(),
        VideoCodec::H264,
        EncoderType::HARDWARE,
        EncoderAPI::VAAPI,
    );
    assert_eq!(info.get_parameters_string(), "");
    info.set_parameter("rate-control", "cbr");
    assert_eq!(info.get_parameters_string(), "rate-control=cbr");
    info.set_parameter("bitrate", "4000");
    assert_eq!(info.get_parameters_string(), "rate-control=cbr bitrate=4000");
    assert_eq!(info.name, "vah264lpenc");
}

use vst3_host::error::{io_message, Vst3Error};
use vst3_host::plugin::{component_missing_message, processor_linked, setup_outcome};
use vst3_host::graph::{Channel, Node, NodeId, Track};
use vst3_host::sample::{sample_display_name, sample_rate_or_default};
use vst3_host::shared::NoDebug;
use vst3_host::stream::{clamp_rate, format_to_internal, get_sample_rate, SampleFormat, SampleRate};
use vst3_host::{default_vst_paths, MainThreadMessage};

#[test]
fn error_messages() {
    let e = Vst3Error::MissingSymbol { path: "/p/x.so".to_string(), symbol: "GetPluginFactory" };
    assert_eq!(e.message(), "/p/x.so: missing symbol `GetPluginFactory`");
    assert!(e.source().is_none());
    let e = Vst3Error::NullFactory { path: "/p/x.so".to_string() };
    assert_eq!(e.message(), "/p/x.so: GetPluginFactory returned null");
    let e = Vst3Error::NotAnAudioEffect { class_id: "abcd".to_string() };
    assert_eq!(e.message(), "class abcd is not a kVstAudioEffectClass");
    let e = Vst3Error::InstantiationFailed { class_id: "abcd".to_string(), code: -2147467263 };
    assert_eq!(e.message(), "createInstance(abcd) failed with code -2147467263");
    let io = std::io::Error::new(std::io::ErrorKind::NotFound, "gone");
    let e = Vst3Error::Io { path: "/p/x.so".to_string(), source: io };
    assert_eq!(e.message(), "/p/x.so: gone");
    assert_eq!(e.source().map(|s| s.kind()), Some(std::io::ErrorKind::NotFound));
}

#[test]
fn nodes_forward_to_their_channel() {
    let mut track = Node::Track(Track { channel: Channel { id: NodeId(4) } });
    let mut channel: Node = Node::from(Channel { id: NodeId(9) });
    assert_eq!(track.id(), NodeId(4));
    assert_eq!(channel.id(), NodeId(9));
    let mut updates: Vec<u8> = vec![1, 2];
    track.collect_updates(&mut updates);
    channel.collect_updates(&mut updates);
    assert_eq!(updates, vec![1, 2]);
    track.reset();
    track.clear_updates();
    track.restart_all_plugins();
    track.apply((), &());
    channel.apply(5u8, &"state");
    assert_eq!(track.id(), NodeId(4));
    assert_eq!(channel.id(), NodeId(9));
    assert_eq!(Channel::default().id(), NodeId(0));
}

#[test]
fn sample_rates_and_formats() {
    assert_eq!(get_sample_rate(48000), 48000);
    let (lo, hi) = (SampleRate(44100), SampleRate(96000));
    assert_eq!(clamp_rate(SampleRate(22050), lo, hi), lo);
    assert_eq!(clamp_rate(SampleRate(48000), lo, hi), SampleRate(48000));
    assert_eq!(clamp_rate(SampleRate(192000), lo, hi), hi);
    assert_eq!(clamp_rate(SampleRate(5), SampleRate(7), SampleRate(7)), SampleRate(7));
    assert_eq!(format_to_internal(SampleFormat::I16), "I16");
    assert_eq!(format_to_internal(SampleFormat::U64), "U64");
    assert_eq!(format_to_internal(SampleFormat::F32), "F32");
    assert_eq!(format_to_internal(SampleFormat::Other), "Unknown");
}

#[test]
fn samples_fall_back_to_44100_hz() {
    assert_eq!(sample_rate_or_default(0), 44100);
    assert_eq!(sample_rate_or_default(48000), 48000);
    assert_eq!(sample_display_name(&"/lib/kick.wav".to_string()), Some("kick.wav".to_string()));
    assert_eq!(sample_display_name(&"/".to_string()), None);
    assert_eq!(sample_display_name(&"/lib/..".to_string()), None);
}

#[test]
fn default_paths_order() {
    let paths = default_vst_paths(Some("/home/u".to_string()), true, vec!["/extra/a".to_string(), "".to_string()]);
    assert_eq!(
        paths,
        vec![
            "/home/u/.vst".to_string(),
            "/home/u/.vst3".to_string(),
            "/usr/lib/vst".to_string(),
            "/usr/lib/vst3".to_string(),
            "/usr/local/lib/vst3".to_string(),
            "/extra/a".to_string(),
            "".to_string(),
        ]
    );
    assert_eq!(default_vst_paths(None, true, vec![]).len(), 3);
    assert_eq!(default_vst_paths(Some("/h".to_string()), false, vec!["/x".to_string()]), vec!["/x".to_string()]);
}

#[test]
fn no_debug_hides_contents_but_derefs() {
    let wrapped = NoDebug(41u32);
    assert_eq!(*wrapped + 1, 42);
    assert_eq!(wrapped.debug_text(), "Pointer");
}

#[test]
fn restart_message_carries_flags() {
    let m = MainThreadMessage::RestartComponent(3);
    assert_eq!(m, MainThreadMessage::RestartComponent(3));
    assert_ne!(m, MainThreadMessage::RestartComponent(1));
}

#[test]
fn io_message_joins_path_and_os_text() {
    assert_eq!(
        io_message(&"/x/a.so".to_string(), &"No such file or directory (os error 2)".to_string()),
        "/x/a.so: No such file or directory (os error 2)"
    );
    assert_eq!(io_message(&String::new(), &String::new()), ": ");
}

#[test]
fn plugin_loading_decisions() {
    let name = "Surge XT".to_string();
    assert_eq!(component_missing_message(&name), "Surge XT: No se pudo instanciar el componente");
    assert!(processor_linked(0, false));
    assert!(!processor_linked(0, true));
    assert!(!processor_linked(1, false));
    assert_eq!(setup_outcome(&name, false, -3), Ok(()));
    assert_eq!(setup_outcome(&name, true, 0), Ok(()));
    assert_eq!(setup_outcome(&name, true, -3), Err("Fallo setup_processing en Surge XT: -3".to_string()));
}

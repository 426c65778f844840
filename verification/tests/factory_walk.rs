use vst3_host::factory::{
    class_to_offer, factory_step, null_factory_message, ClassInfo, ClassInfo2, FactoryAction, FactoryEvent,
    FactoryState,
};
use vst3_host::loading::{missing_rows, progress_style, MissingItem, ProgressStyle};

fn c_field<const N: usize>(text: &str) -> [i8; N] {
    let mut out = [0i8; N];
    for (slot, b) in out.iter_mut().zip(text.bytes()) {
        *slot = b as i8;
    }
    out
}

fn info2(name: &str, category: &str) -> ClassInfo2 {
    ClassInfo2 {
        cid: [7; 16],
        category: c_field(category),
        name: c_field(name),
        vendor: c_field("Vendor"),
        version: c_field("2.0"),
    }
}

fn info1(name: &str, category: &str) -> ClassInfo {
    ClassInfo { cid: [9; 16], category: c_field(category), name: c_field(name) }
}

#[test]
fn only_audio_module_classes_are_offered() {
    let path = "/p/x.so".to_string();
    let d = class_to_offer(&Some(info2("Synth", "Audio Module Class")), &None, &path).unwrap();
    assert_eq!(d.name, "Synth");
    assert_eq!(d.vendor, "Vendor");
    assert_eq!(d.binary_path, "/p/x.so");
    assert!(class_to_offer(&Some(info2("Editor", "Component Controller Class")), &None, &path).is_none());
    let legacy = class_to_offer(&None, &Some(info1("Old", "Audio Module Class")), &path).unwrap();
    assert_eq!(legacy.vendor, "Unknown (Legacy Factory)");
    assert_eq!(legacy.version, "1.0.0 (Legacy)");
    assert!(class_to_offer(&None, &None, &path).is_none());
}

#[test]
fn walk_without_factory_fails() {
    let path = "/p/x.so".to_string();
    let (state, action, offer) = factory_step(FactoryState::Start, FactoryEvent::Begin { factory_present: false }, &path);
    assert!(matches!(state, FactoryState::Done));
    assert_eq!(action, FactoryAction::FailNullFactory);
    assert!(offer.is_none());
    assert_eq!(null_factory_message(), "El puntero a la factoría es nulo.");
}

#[test]
fn walk_with_version_two_factory() {
    let path = "/p/x.so".to_string();
    let mut offered = Vec::new();
    let (s, a, _) = factory_step(FactoryState::Start, FactoryEvent::Begin { factory_present: true }, &path);
    assert_eq!(a, FactoryAction::QueryFactory2);
    let (s, a, _) = factory_step(s, FactoryEvent::Factory2 { present: true }, &path);
    assert_eq!(a, FactoryAction::CountClasses);
    let (s, a, _) = factory_step(s, FactoryEvent::Count(3), &path);
    assert_eq!(a, FactoryAction::ReadClassInfo2(0));
    let (s, a, o) = factory_step(s, FactoryEvent::Info2(Some(info2("Fx", "Audio Module Class"))), &path);
    offered.extend(o);
    assert_eq!(a, FactoryAction::ReadClassInfo2(1));
    let (s, a, o) = factory_step(s, FactoryEvent::Info2(Some(info2("Ctl", "Component Controller Class"))), &path);
    assert!(o.is_none());
    assert_eq!(a, FactoryAction::ReadClassInfo2(2));
    let (s, a, o) = factory_step(s, FactoryEvent::Info2(None), &path);
    assert!(o.is_none());
    assert_eq!(a, FactoryAction::ReadClassInfo(2));
    let (s, a, o) = factory_step(s, FactoryEvent::Info(Some(info1("Old", "Audio Module Class"))), &path);
    offered.extend(o);
    assert_eq!(a, FactoryAction::ReleaseFactory2);
    let (s, a, o) = factory_step(s, FactoryEvent::Released, &path);
    assert!(o.is_none());
    assert!(matches!(s, FactoryState::Done));
    assert_eq!(a, FactoryAction::Finish);
    let names: Vec<String> = offered.iter().map(|d| d.name.clone()).collect();
    assert_eq!(names, vec!["Fx".to_string(), "Old".to_string()]);
}

#[test]
fn walk_with_version_one_factory_and_no_classes() {
    let path = "/p/x.so".to_string();
    let (s, _, _) = factory_step(FactoryState::Start, FactoryEvent::Begin { factory_present: true }, &path);
    let (s, _, _) = factory_step(s, FactoryEvent::Factory2 { present: false }, &path);
    let (s, a, _) = factory_step(s, FactoryEvent::Count(1), &path);
    assert_eq!(a, FactoryAction::ReadClassInfo(0));
    let (s, a, o) = factory_step(s, FactoryEvent::Info(None), &path);
    assert!(o.is_none());
    assert!(matches!(s, FactoryState::Done));
    assert_eq!(a, FactoryAction::Finish);

    let (s, _, _) = factory_step(FactoryState::Start, FactoryEvent::Begin { factory_present: true }, &path);
    let (s, _, _) = factory_step(s, FactoryEvent::Factory2 { present: true }, &path);
    let (_, a, _) = factory_step(s, FactoryEvent::Count(-4), &path);
    assert_eq!(a, FactoryAction::ReleaseFactory2);
}

#[test]
fn walk_ignores_answers_that_do_not_fit() {
    let path = "/p/x.so".to_string();
    let (s, a, o) = factory_step(FactoryState::AwaitingCount { has_factory2: true }, FactoryEvent::Released, &path);
    assert!(matches!(s, FactoryState::AwaitingCount { has_factory2: true }));
    assert_eq!(a, FactoryAction::CountClasses);
    assert!(o.is_none());
}

#[test]
fn progress_bar_turns_danger_when_anything_is_missing() {
    assert_eq!(progress_style(0, 0), ProgressStyle::Primary);
    assert_eq!(progress_style(1, 0), ProgressStyle::Danger);
    assert_eq!(progress_style(0, 2), ProgressStyle::Danger);
}

#[test]
fn missing_rows_list_plugins_then_samples() {
    let rows = missing_rows(&vec!["Surge XT".to_string()], &vec!["kick.wav".to_string(), "snare.wav".to_string()]);
    assert_eq!(rows.len(), 3);
    assert_eq!(rows[0].item, MissingItem::Plugin(0));
    assert_eq!(rows[0].label, "can't find plugin");
    assert_eq!(rows[0].name, "Surge XT");
    assert_eq!(rows[1].item, MissingItem::Sample(0));
    assert_eq!(rows[2].item, MissingItem::Sample(1));
    assert_eq!(rows[2].label, "can't find sample");
    assert_eq!(rows[2].name, "snare.wav");
}

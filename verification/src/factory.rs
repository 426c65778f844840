//! Turning what a VST3 plugin factory reports about its classes into
//! plugin descriptors.
use crate::plugin_descriptor::PluginDescriptor;
use crate::text::{c_string_bytes, i8_bits, lemma_c_string_len, string_from_utf8_lossy, u8_as_i8, utf8_lossy};
use vstd::prelude::*;
use vstd::string::*;
use vstd::utf8::*;

verus! {

/// Converts a fixed-width, NUL-terminated C `char` buffer into text: the bytes
/// up to the first NUL are decoded as UTF-8, invalid runs replaced.
pub fn i8_array_to_string(arr: &[i8]) -> (s: String)
    ensures
        s@ == utf8_lossy(c_string_bytes(arr@)),
        valid_utf8(c_string_bytes(arr@)) ==> s@ == decode_utf8(c_string_bytes(arr@)),
        !s@.contains('\0'),
{
    let mut bytes: Vec<u8> = Vec::new();
    let mut i: usize = 0;
    while i < arr.len() && arr[i] != 0
        invariant
            i <= arr@.len(),
            forall|j: int| 0 <= j < i ==> arr@[j] != 0,
            bytes@ == arr@.take(i as int).map_values(|b: i8| i8_bits(b)),
        decreases arr@.len() - i,
    {
        let c: i8 = arr[i];
        let b: u8 = c as u8;
        assert(b == i8_bits(c)) by {
            assert(c < 0 ==> (c as u8) as int == c as int + 256) by (bit_vector);
            assert(c >= 0 ==> (c as u8) as int == c as int) by (bit_vector);
        }
        bytes.push(b);
        assert(arr@.take(i + 1).map_values(|b: i8| i8_bits(b)) =~= arr@.take(i as int).map_values(
            |b: i8| i8_bits(b),
        ).push(b));
        i = i + 1;
    }
    proof {
        lemma_c_string_len(arr@, i as int);
        assert forall|j: int| 0 <= j < bytes@.len() implies bytes@[j] != 0u8 by {
            assert(bytes@[j] == i8_bits(arr@[j]));
            assert(arr@[j] != 0);
        }
    }
    string_from_utf8_lossy(bytes.as_slice())
}


/// What `IPluginFactory::getClassInfo` fills in (`PClassInfo`), as plain values.
#[derive(Clone, Copy)]
pub struct ClassInfo {
    pub cid: [u8; 16],
    pub category: [i8; 32],
    pub name: [i8; 64],
}

/// What `IPluginFactory2::getClassInfo2` fills in (`PClassInfo2`), as plain
/// values: the fields the host reads.
#[derive(Clone, Copy)]
pub struct ClassInfo2 {
    pub cid: [u8; 16],
    pub category: [i8; 32],
    pub name: [i8; 64],
    pub vendor: [i8; 64],
    pub version: [i8; 64],
}

/// The text a fixed-width C string field holds.
pub open spec fn c_text(field: Seq<i8>) -> Seq<char> {
    utf8_lossy(c_string_bytes(field))
}

/// A class id reported as unsigned bytes, stored as C `char`s.
pub open spec fn cid_as_i8(cid: Seq<u8>) -> Seq<i8> {
    cid.map_values(|b: u8| u8_as_i8(b))
}

/// Vendor recorded for classes only the version-1 factory describes.
pub open spec fn legacy_vendor() -> Seq<char> {
    "Unknown (Legacy Factory)"@
}

/// Version recorded for classes only the version-1 factory describes.
pub open spec fn legacy_version() -> Seq<char> {
    "1.0.0 (Legacy)"@
}

fn cid_to_i8(cid: &[u8; 16]) -> (out: [i8; 16])
    ensures
        out@ == cid_as_i8(cid@),
{
    let mut out: [i8; 16] = [0i8; 16];
    let mut i: usize = 0;
    while i < 16
        invariant
            i <= 16,
            cid@.len() == 16,
            out@.len() == 16,
            forall|j: int| 0 <= j < i ==> out@[j] == u8_as_i8(cid@[j]),
        decreases 16 - i,
    {
        let b: u8 = cid[i];
        let c: i8 = b as i8;
        assert(c == u8_as_i8(b)) by {
            assert(b < 128 ==> (b as i8) as int == b as int) by (bit_vector);
            assert(b >= 128 ==> (b as i8) as int == b as int - 256) by (bit_vector);
        }
        out[i] = c;
        i = i + 1;
    }
    assert(out@ =~= cid_as_i8(cid@));
    out
}

/// `d` is the descriptor of a class described by `info2` (the version-2
/// answer, which wins when there is one) or else `info1`, from the binary
/// at `binary_path`: without a version-2 answer the legacy vendor and
/// version are recorded, and without either answer the id is all zeros and
/// the texts are empty.
pub open spec fn describes(
    d: PluginDescriptor,
    info2: Option<ClassInfo2>,
    info1: Option<ClassInfo>,
    binary_path: Seq<char>,
) -> bool {
    &&& d.binary_path@ == binary_path
    &&& match info2 {
        Some(i2) => {
            &&& d.class_id@ == cid_as_i8(i2.cid@)
            &&& d.name@ == c_text(i2.name@)
            &&& d.category@ == c_text(i2.category@)
            &&& d.vendor@ == c_text(i2.vendor@)
            &&& d.version@ == c_text(i2.version@)
        },
        None => match info1 {
            Some(i1) => {
                &&& d.class_id@ == cid_as_i8(i1.cid@)
                &&& d.name@ == c_text(i1.name@)
                &&& d.category@ == c_text(i1.category@)
                &&& d.vendor@ == legacy_vendor()
                &&& d.version@ == legacy_version()
            },
            None => {
                &&& d.class_id@ == Seq::new(16, |i: int| 0i8)
                &&& d.name@ == Seq::<char>::empty()
                &&& d.category@ == Seq::<char>::empty()
                &&& d.vendor@ == Seq::<char>::empty()
                &&& d.version@ == Seq::<char>::empty()
            },
        },
    }
}

/// Builds the descriptor of one factory class.  The version-2 description
/// wins when the factory gave one; otherwise the version-1 description is
/// used with a fixed legacy vendor and version; when neither call succeeded
/// the descriptor keeps an all-zero id and empty texts.
pub fn describe_class(
    info2: &Option<ClassInfo2>,
    info1: &Option<ClassInfo>,
    binary_path: &String,
) -> (d: PluginDescriptor)
    ensures
        describes(d, *info2, *info1, binary_path@),
{
    match info2 {
        Some(i2) => PluginDescriptor {
            class_id: cid_to_i8(&i2.cid),
            name: i8_array_to_string(i2.name.as_slice()),
            vendor: i8_array_to_string(i2.vendor.as_slice()),
            category: i8_array_to_string(i2.category.as_slice()),
            version: i8_array_to_string(i2.version.as_slice()),
            binary_path: binary_path.clone(),
        },
        None => match info1 {
            Some(i1) => PluginDescriptor {
                class_id: cid_to_i8(&i1.cid),
                name: i8_array_to_string(i1.name.as_slice()),
                vendor: String::from_str("Unknown (Legacy Factory)"),
                category: i8_array_to_string(i1.category.as_slice()),
                version: String::from_str("1.0.0 (Legacy)"),
                binary_path: binary_path.clone(),
            },
            None => {
                let d = PluginDescriptor {
                    class_id: [0i8; 16],
                    name: String::new(),
                    vendor: String::new(),
                    category: String::new(),
                    version: String::new(),
                    binary_path: binary_path.clone(),
                };
                assert(d.class_id@ =~= Seq::new(16, |i: int| 0i8));
                d
            },
        },
    }
}

/// The category of the classes a host can instantiate as audio processors
/// (`kVstAudioEffectClass`).
pub open spec fn audio_module_class() -> Seq<char> {
    "Audio Module Class"@
}

/// The category text of the description chosen for a class: the version-2
/// answer when there is one, else the version-1 answer.
pub open spec fn chosen_category(info2: Option<ClassInfo2>, info1: Option<ClassInfo>) -> Option<
    Seq<char>,
> {
    match info2 {
        Some(i2) => Some(c_text(i2.category@)),
        None => match info1 {
            Some(i1) => Some(c_text(i1.category@)),
            None => None,
        },
    }
}

/// Whether the class is offered as an audio effect: the factory described it
/// and its category is the audio-module class.
pub open spec fn offered(info2: Option<ClassInfo2>, info1: Option<ClassInfo>) -> bool {
    chosen_category(info2, info1) == Some(audio_module_class())
}

/// The descriptor of a class when the class is an audio effect, and `None`
/// for every other class, and for a class the factory could not describe.
pub fn class_to_offer(
    info2: &Option<ClassInfo2>,
    info1: &Option<ClassInfo>,
    binary_path: &String,
) -> (d: Option<PluginDescriptor>)
    ensures
        d is Some <==> offered(*info2, *info1),
        d matches Some(x) ==> describes(x, *info2, *info1, binary_path@),
{
    let described = info2.is_some() || info1.is_some();
    let d = describe_class(info2, info1, binary_path);
    let audio = String::from_str("Audio Module Class");
    proof {
        reveal_strlit("Audio Module Class");
    }
    if described && d.category.eq(&audio) {
        Some(d)
    } else {
        None
    }
}

/// Law: a descriptor handed out for an offered class names the audio-module
/// category and the binary it was read from.
pub proof fn lemma_offered_descriptor_is_audio(
    d: PluginDescriptor,
    info2: Option<ClassInfo2>,
    info1: Option<ClassInfo>,
    binary_path: Seq<char>,
)
    requires
        describes(d, info2, info1, binary_path),
        offered(info2, info1),
    ensures
        d.category@ == audio_module_class(),
        d.binary_path@ == binary_path,
{
}

/// The text of the error given when a module hands out no factory.
pub open spec fn null_factory_text() -> Seq<char> {
    "El puntero a la factoría es nulo."@
}

/// The error given when a module hands out no factory.
pub fn null_factory_message() -> (m: String)
    ensures
        m@ == null_factory_text(),
{
    String::from_str("El puntero a la factoría es nulo.")
}

/// Where the walk over a module's factory stands.
pub enum FactoryState {
    /// Nothing asked yet.
    Start,
    /// The factory was asked for its version-2 interface.
    AwaitingFactory2,
    /// The factory was asked how many classes it exports.
    AwaitingCount { has_factory2: bool },
    /// Class `index` of `count` was asked of the version-2 interface.
    AwaitingInfo2 { index: i32, count: i32 },
    /// Class `index` of `count` was asked of the version-1 interface.
    AwaitingInfo { has_factory2: bool, index: i32, count: i32 },
    /// The version-2 interface is being released.
    AwaitingRelease,
    /// The walk is over.
    Done,
}

/// What the host reports back after carrying out a request.
pub enum FactoryEvent {
    /// The walk begins; whether the module handed out a factory at all.
    Begin { factory_present: bool },
    /// Whether the factory offered its version-2 interface.
    Factory2 { present: bool },
    /// The number of classes the factory reported.
    Count(i32),
    /// The version-2 description of the class asked for, when the call
    /// succeeded.
    Info2(Option<ClassInfo2>),
    /// The version-1 description of the class asked for, when the call
    /// succeeded.
    Info(Option<ClassInfo>),
    /// The version-2 interface was released.
    Released,
}

/// What the host is asked to do next.
#[derive(Clone, Copy, Debug, PartialEq, Eq, Structural)]
pub enum FactoryAction {
    /// Stop with the null-factory error.
    FailNullFactory,
    /// Ask the factory for its version-2 interface.
    QueryFactory2,
    /// Ask the factory how many classes it exports.
    CountClasses,
    /// Ask the version-2 interface to describe class `i`.
    ReadClassInfo2(i32),
    /// Ask the version-1 interface to describe class `i`.
    ReadClassInfo(i32),
    /// Release the version-2 interface.
    ReleaseFactory2,
    /// Stop: the walk succeeded.
    Finish,
}

/// A state the walk can reach: a class being read is one of those counted.
pub open spec fn walk_state_ok(state: FactoryState) -> bool {
    match state {
        FactoryState::AwaitingInfo2 { index, count } => 0 <= index < count,
        FactoryState::AwaitingInfo { index, count, .. } => 0 <= index < count,
        _ => true,
    }
}

/// The request that a state waits to see answered.
pub open spec fn pending(state: FactoryState) -> FactoryAction {
    match state {
        FactoryState::Start => FactoryAction::QueryFactory2,
        FactoryState::AwaitingFactory2 => FactoryAction::QueryFactory2,
        FactoryState::AwaitingCount { .. } => FactoryAction::CountClasses,
        FactoryState::AwaitingInfo2 { index, .. } => FactoryAction::ReadClassInfo2(index),
        FactoryState::AwaitingInfo { index, .. } => FactoryAction::ReadClassInfo(index),
        FactoryState::AwaitingRelease => FactoryAction::ReleaseFactory2,
        FactoryState::Done => FactoryAction::Finish,
    }
}

/// Where the walk goes once class `index` is to be read next (or all
/// `count` classes are read): the version-2 interface is asked first when
/// there is one; after the last class it is released.
pub open spec fn next_class(has_factory2: bool, index: int, count: i32) -> (
    FactoryState,
    FactoryAction,
) {
    if index < count {
        if has_factory2 {
            (
                FactoryState::AwaitingInfo2 { index: index as i32, count },
                FactoryAction::ReadClassInfo2(index as i32),
            )
        } else {
            (
                FactoryState::AwaitingInfo { has_factory2: false, index: index as i32, count },
                FactoryAction::ReadClassInfo(index as i32),
            )
        }
    } else if has_factory2 {
        (FactoryState::AwaitingRelease, FactoryAction::ReleaseFactory2)
    } else {
        (FactoryState::Done, FactoryAction::Finish)
    }
}

fn step_to_class(has_factory2: bool, index: i32, count: i32) -> (r: (FactoryState, FactoryAction))
    requires
        0 <= index,
    ensures
        r == next_class(has_factory2, index as int, count),
{
    if index < count {
        if has_factory2 {
            (FactoryState::AwaitingInfo2 { index, count }, FactoryAction::ReadClassInfo2(index))
        } else {
            (
                FactoryState::AwaitingInfo { has_factory2: false, index, count },
                FactoryAction::ReadClassInfo(index),
            )
        }
    } else if has_factory2 {
        (FactoryState::AwaitingRelease, FactoryAction::ReleaseFactory2)
    } else {
        (FactoryState::Done, FactoryAction::Finish)
    }
}

/// One step of the walk over a module's factory: from where the walk stands
/// and the host's answer to the pending request, the next state, the next
/// request, and the class to hand to the caller, if any.
///
/// A module without a factory fails the walk.  Otherwise the factory is
/// asked for its version-2 interface, then for its class count; each class
/// is asked of the version-2 interface when there is one, and of the
/// version-1 interface when there is none or it could not describe the
/// class; each audio-effect class is offered (`class_to_offer`); after the
/// last class the version-2 interface, if obtained, is released, and the
/// walk succeeds.  An answer that does not fit the pending request changes
/// nothing: the request stands.
pub fn factory_step(state: FactoryState, event: FactoryEvent, binary_path: &String) -> (r: (
    FactoryState,
    FactoryAction,
    Option<PluginDescriptor>,
))
    requires
        walk_state_ok(state),
    ensures
        walk_state_ok(r.0),
        match (state, event) {
            (FactoryState::Start, FactoryEvent::Begin { factory_present }) => if factory_present {
                r.0 == FactoryState::AwaitingFactory2 && r.1 == FactoryAction::QueryFactory2
                    && r.2 is None
            } else {
                r.0 == FactoryState::Done && r.1 == FactoryAction::FailNullFactory && r.2 is None
            },
            (FactoryState::AwaitingFactory2, FactoryEvent::Factory2 { present }) => {
                &&& r.0 == FactoryState::AwaitingCount { has_factory2: present }
                &&& r.1 == FactoryAction::CountClasses
                &&& r.2 is None
            },
            (FactoryState::AwaitingCount { has_factory2 }, FactoryEvent::Count(n)) => {
                &&& (r.0, r.1) == next_class(has_factory2, 0, n)
                &&& r.2 is None
            },
            (FactoryState::AwaitingInfo2 { index, count }, FactoryEvent::Info2(info2)) => match info2 {
                Some(i2) => {
                    &&& (r.0, r.1) == next_class(true, index + 1, count)
                    &&& (r.2 is Some <==> offered(info2, None))
                    &&& (r.2 matches Some(d) ==> describes(d, info2, None, binary_path@))
                },
                None => {
                    &&& r.0 == FactoryState::AwaitingInfo { has_factory2: true, index, count }
                    &&& r.1 == FactoryAction::ReadClassInfo(index)
                    &&& r.2 is None
                },
            },
            (
                FactoryState::AwaitingInfo { has_factory2, index, count },
                FactoryEvent::Info(info1),
            ) => {
                &&& (r.0, r.1) == next_class(has_factory2, index + 1, count)
                &&& (r.2 is Some <==> offered(None, info1))
                &&& (r.2 matches Some(d) ==> describes(d, None, info1, binary_path@))
            },
            (FactoryState::AwaitingRelease, FactoryEvent::Released) => {
                &&& r.0 == FactoryState::Done
                &&& r.1 == FactoryAction::Finish
                &&& r.2 is None
            },
            _ => r.0 == state && r.1 == pending(state) && r.2 is None,
        },
{
    match (state, event) {
        (FactoryState::Start, FactoryEvent::Begin { factory_present }) => {
            if factory_present {
                (FactoryState::AwaitingFactory2, FactoryAction::QueryFactory2, None)
            } else {
                (FactoryState::Done, FactoryAction::FailNullFactory, None)
            }
        },
        (FactoryState::AwaitingFactory2, FactoryEvent::Factory2 { present }) => {
            (FactoryState::AwaitingCount { has_factory2: present }, FactoryAction::CountClasses, None)
        },
        (FactoryState::AwaitingCount { has_factory2 }, FactoryEvent::Count(n)) => {
            let (s, a) = step_to_class(has_factory2, 0, n);
            (s, a, None)
        },
        (FactoryState::AwaitingInfo2 { index, count }, FactoryEvent::Info2(info2)) => {
            match info2 {
                Some(_) => {
                    let offer = class_to_offer(&info2, &None, binary_path);
                    let (s, a) = step_to_class(true, index + 1, count);
                    (s, a, offer)
                },
                None => (
                    FactoryState::AwaitingInfo { has_factory2: true, index, count },
                    FactoryAction::ReadClassInfo(index),
                    None,
                ),
            }
        },
        (FactoryState::AwaitingInfo { has_factory2, index, count }, FactoryEvent::Info(info1)) => {
            let offer = class_to_offer(&None, &info1, binary_path);
            let (s, a) = step_to_class(has_factory2, index + 1, count);
            (s, a, offer)
        },
        (FactoryState::AwaitingRelease, FactoryEvent::Released) => {
            (FactoryState::Done, FactoryAction::Finish, None)
        },
        (state, _) => {
            let a = match state {
                FactoryState::Start => FactoryAction::QueryFactory2,
                FactoryState::AwaitingFactory2 => FactoryAction::QueryFactory2,
                FactoryState::AwaitingCount { .. } => FactoryAction::CountClasses,
                FactoryState::AwaitingInfo2 { index, .. } => FactoryAction::ReadClassInfo2(index),
                FactoryState::AwaitingInfo { index, .. } => FactoryAction::ReadClassInfo(index),
                FactoryState::AwaitingRelease => FactoryAction::ReleaseFactory2,
                FactoryState::Done => FactoryAction::Finish,
            };
            (state, a, None)
        },
    }
}

/// The class id of the description chosen for a class, when there is one.
pub open spec fn chosen_cid(info2: Option<ClassInfo2>, info1: Option<ClassInfo>) -> Option<Seq<u8>> {
    match info2 {
        Some(i2) => Some(i2.cid@),
        None => match info1 {
            Some(i1) => Some(i1.cid@),
            None => None,
        },
    }
}

/// Law: a descriptor carries the chosen description's whole 16-byte class
/// id, byte for byte (each byte read back from its C `char` is the byte the
/// factory reported); without a description the id is all zeros.
pub proof fn lemma_descriptor_keeps_class_id(
    d: PluginDescriptor,
    info2: Option<ClassInfo2>,
    info1: Option<ClassInfo>,
    binary_path: Seq<char>,
)
    requires
        describes(d, info2, info1, binary_path),
    ensures
        d.class_id@.len() == 16,
        chosen_cid(info2, info1) matches Some(cid) ==> forall|j: int|
            0 <= j < 16 ==> #[trigger] d.class_id@[j] == u8_as_i8(cid[j]) && i8_bits(d.class_id@[j])
                == cid[j],
        chosen_cid(info2, info1) is None ==> forall|j: int| 0 <= j < 16 ==> #[trigger] d.class_id@[j] == 0,
{
    if let Some(cid) = chosen_cid(info2, info1) {
        assert(cid.len() == 16);
        assert forall|j: int| 0 <= j < 16 implies #[trigger] d.class_id@[j] == u8_as_i8(cid[j]) && i8_bits(
            d.class_id@[j],
        ) == cid[j] by {
            assert(d.class_id@ == cid_as_i8(cid));
            assert(d.class_id@[j] == u8_as_i8(cid[j]));
            let b = cid[j];
            assert(b < 128 ==> (b as i8) as int == b as int) by (bit_vector);
            assert(b >= 128 ==> ((b - 256) as i8) as int == b as int - 256) by (bit_vector);
        }
    }
}

/// Law: the walk asks about every class below the count, in index order.
/// While `index` is below `count`, the next request reads class `index`
/// (through the version-2 interface when there is one, else version 1) and
/// the walk neither releases nor finishes; once `index` reaches `count` it
/// reads nothing more and releases the version-2 interface, if obtained, or
/// finishes.
pub proof fn lemma_walk_reads_every_class(has_factory2: bool, index: int, count: i32)
    requires
        0 <= index,
        index <= count,
    ensures
        index < count ==> next_class(has_factory2, index, count).1 == (if has_factory2 {
            FactoryAction::ReadClassInfo2(index as i32)
        } else {
            FactoryAction::ReadClassInfo(index as i32)
        }),
        index < count ==> pending(next_class(has_factory2, index, count).0) == next_class(
            has_factory2,
            index,
            count,
        ).1,
        index < count ==> walk_state_ok(next_class(has_factory2, index, count).0),
        index == count ==> next_class(has_factory2, index, count).1 == (if has_factory2 {
            FactoryAction::ReleaseFactory2
        } else {
            FactoryAction::Finish
        }),
{
}

} // verus!

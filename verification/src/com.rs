//! The decisions behind the host's own COM objects (the component handler
//! and the host application): which interfaces they answer to, how their
//! reference count moves, and what `getName` writes.
use crate::text::{encode_utf16, u16_as_i16, u16_to_i16, utf16_of};
use vstd::prelude::*;

verus! {

/// Interface id of `FUnknown`.
pub const IID_IUNKNOWN: [u8; 16] = [
    0x00, 0x00, 0x00, 0x00, 0x00, 0x00, 0x00, 0x00, 0xC0, 0x00, 0x00, 0x00, 0x00, 0x00, 0x00, 0x46,
];

/// Interface id of `IComponentHandler`.
pub const IID_ICOMPONENTHANDLER: [u8; 16] = [
    0x93, 0xA0, 0xBE, 0xA3, 0x0B, 0xD0, 0x45, 0xDB, 0x8E, 0x89, 0x0B, 0x0C, 0xC1, 0xE4, 0x6A, 0xC6,
];

/// Interface id of `IHostApplication`.
pub const IID_IHOSTAPPLICATION: [u8; 16] = [
    0x58, 0x22, 0xFA, 0x58, 0x0B, 0xAB, 0x4B, 0x2E, 0xB8, 0x11, 0xEB, 0xFA, 0x24, 0x56, 0x93, 0x96,
];

/// Interface id of `IPluginFactory2`.
pub const IID_IPLUGINFACTORY2: [u8; 16] = [
    0x50, 0xB6, 0x07, 0x00, 0x4B, 0xF2, 0x0B, 0x4C, 0xA4, 0x64, 0xED, 0xB9, 0xF0, 0x0B, 0x2A, 0xBB,
];

/// The name the host reports to plugins.
pub const HOST_NAME: &'static str = "Hikaru OpenStudio";

fn same_iid(a: &[u8], b: &[u8; 16]) -> (r: bool)
    ensures
        r == (a@ == b@),
{
    if a.len() != 16 {
        return false;
    }
    let mut i: usize = 0;
    while i < 16
        invariant
            a@.len() == 16,
            b@.len() == 16,
            i <= 16,
            forall|j: int| 0 <= j < i ==> a@[j] == b@[j],
        decreases 16 - i,
    {
        if a[i] != b[i] {
            return false;
        }
        i = i + 1;
    }
    assert(a@ =~= b@);
    true
}

/// `queryInterface` of a host object: it answers to `FUnknown` and to its
/// own interface, and to nothing else.
pub fn answers_interface(iid: &[u8], own: &[u8; 16]) -> (r: bool)
    ensures
        r == (iid@ == IID_IUNKNOWN@ || iid@ == own@),
{
    let unknown = IID_IUNKNOWN;
    same_iid(iid, &unknown) || same_iid(iid, own)
}

/// The count after `addRef` on an object whose count was `prev`.
pub open spec fn add_ref_count(prev: nat) -> nat {
    prev + 1
}

/// The count after `release` on an object whose count was `prev`.
pub open spec fn release_count(prev: nat) -> nat {
    (prev - 1) as nat
}

/// Whether `release` on an object whose count was `prev` destroys it.
pub open spec fn release_destroys(prev: nat) -> bool {
    prev == 1
}

/// What `addRef` returns: the new count.  The count must not be saturated.
pub fn add_ref_result(prev: u32) -> (count: u32)
    requires
        prev < u32::MAX,
    ensures
        count == add_ref_count(prev as nat),
{
    prev + 1
}

/// What `release` decides for an object whose count was `prev`.
#[derive(Clone, Copy, Debug, PartialEq, Eq, Structural)]
pub struct ReleaseOutcome {
    /// The count `release` returns.
    pub remaining: u32,
    /// Whether the last reference is gone and the object must be freed.
    pub destroy: bool,
}

/// What `release` returns and whether it frees the object.  A live object
/// holds at least one reference.
pub fn release_result(prev: u32) -> (outcome: ReleaseOutcome)
    requires
        prev >= 1,
    ensures
        outcome.remaining == release_count(prev as nat),
        outcome.destroy == release_destroys(prev as nat),
{
    if prev == 1 {
        ReleaseOutcome { remaining: 0, destroy: true }
    } else {
        ReleaseOutcome { remaining: prev - 1, destroy: false }
    }
}

/// Law: an `addRef` followed by a `release` gives the count back and never
/// frees the object; an object holding one reference is freed by `release`.
pub proof fn lemma_add_ref_then_release(prev: nat)
    requires
        prev >= 1,
    ensures
        release_count(add_ref_count(prev)) == prev,
        !release_destroys(add_ref_count(prev)),
        release_destroys(1),
        release_count(1) == 0,
{
}

/// The code units `getName` writes before its terminator: the UTF-16 form of
/// the name, cut to 127 units, each stored as a signed 16-bit value.
pub open spec fn name_units(name: Seq<char>) -> Seq<i16> {
    let units = utf16_of(name);
    let n = if units.len() < 127 {
        units.len()
    } else {
        127
    };
    units.take(n as int).map_values(|u: u16| u16_as_i16(u))
}

/// Fills a `String128` buffer with a name: its UTF-16 units, at most 127 of
/// them, then a NUL; the rest of the buffer is left as it was.
pub fn write_utf16_name(buf: &mut [i16], name: &str)
    requires
        old(buf)@.len() == 128,
    ensures
        final(buf)@ == name_units(name@) + seq![0i16] + old(buf)@.skip(
            name_units(name@).len() + 1int,
        ),
{
    let units = encode_utf16(name);
    let n: usize = if units.len() < 127 {
        units.len()
    } else {
        127
    };
    let ghost expected = name_units(name@);
    assert(expected.len() == n);
    let mut i: usize = 0;
    while i < n
        invariant
            n <= 127,
            n <= units@.len(),
            units@ == utf16_of(name@),
            expected == name_units(name@),
            expected.len() == n,
            i <= n,
            buf@.len() == 128,
            forall|j: int| 0 <= j < i ==> buf@[j] == expected[j],
            forall|j: int| i <= j < 128 ==> buf@[j] == old(buf)@[j],
        decreases n - i,
    {
        buf[i] = u16_to_i16(units[i]);
        i = i + 1;
    }
    buf[n] = 0;
    assert(buf@ =~= expected + seq![0i16] + old(buf)@.skip(n + 1));
}

/// What the host application's `getName` writes into the plugin's buffer.
pub fn write_host_name(buf: &mut [i16])
    requires
        old(buf)@.len() == 128,
    ensures
        final(buf)@ == name_units(HOST_NAME@) + seq![0i16] + old(buf)@.skip(
            name_units(HOST_NAME@).len() + 1int,
        ),
{
    write_utf16_name(buf, HOST_NAME);
}

} // verus!

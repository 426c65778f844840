//! Metadata of one VST3 plugin class found while scanning.
use crate::text::{hex_of, hex_string, i8_bits};
use vstd::prelude::*;

verus! {

/// Metadata of a VST3 plugin class, as its factory reports it.
#[derive(Debug, Clone)]
pub struct PluginDescriptor {
    /// The class's 16-byte identifier (a C `char` array in the SDK).
    pub class_id: [i8; 16],
    pub name: String,
    pub vendor: String,
    pub category: String,
    pub version: String,
    /// Where the module binary that exports this class lives.
    pub binary_path: String,
}

/// The class id read as unsigned bytes.
pub open spec fn class_id_bytes(class_id: Seq<i8>) -> Seq<u8> {
    class_id.map_values(|b: i8| i8_bits(b))
}

impl PluginDescriptor {
    /// The class id as 32 lowercase hex digits, two per byte.
    pub fn class_id_hex(&self) -> (s: String)
        ensures
            s@ == hex_of(class_id_bytes(self.class_id@)),
    {
        let mut bytes: Vec<u8> = Vec::new();
        let mut i: usize = 0;
        while i < 16
            invariant
                i <= 16,
                self.class_id@.len() == 16,
                bytes@ == class_id_bytes(self.class_id@.take(i as int)),
            decreases 16 - i,
        {
            let c: i8 = self.class_id[i];
            let b: u8 = c as u8;
            assert(b == i8_bits(c)) by {
                assert(c < 0 ==> (c as u8) as int == c as int + 256) by (bit_vector);
                assert(c >= 0 ==> (c as u8) as int == c as int) by (bit_vector);
            }
            bytes.push(b);
            assert(class_id_bytes(self.class_id@.take(i + 1)) =~= class_id_bytes(
                self.class_id@.take(i as int),
            ).push(b));
            i = i + 1;
        }
        assert(self.class_id@.take(16) =~= self.class_id@);
        hex_string(bytes.as_slice())
    }
}

} // verus!

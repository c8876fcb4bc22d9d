//! The receiver's description of itself.

use vstd::prelude::*;
use crate::value::{Dictionary, Value};
use crate::dto::int_entry;

verus! {

/// The digit of `n` (below 16) in upper-case hexadecimal.
pub open spec fn hex_digit(n: int) -> char {
    seq!['0', '1', '2', '3', '4', '5', '6', '7', '8', '9', 'A', 'B', 'C', 'D', 'E', 'F'][n]
}

/// An octet as two upper-case hexadecimal digits.
pub open spec fn octet_text(b: u8) -> Seq<char> {
    seq![hex_digit(b as int / 16), hex_digit(b as int % 16)]
}

/// A hardware address written as six octets joined by colons, e.g. `AC:DE:48:23:45:67`.
pub open spec fn mac_text_spec(o: Seq<u8>) -> Seq<char> {
    octet_text(o[0]) + seq![':'] + octet_text(o[1]) + seq![':'] + octet_text(o[2]) + seq![':']
        + octet_text(o[3]) + seq![':'] + octet_text(o[4]) + seq![':'] + octet_text(o[5])
}

/// Relies on macaddr's `Display` for `MacAddr6`, which writes each octet as two
/// upper-case hexadecimal digits separated by colons.
#[verifier::external_body]
fn mac_text(octets: [u8; 6]) -> (r: String)
    ensures
        r@ == mac_text_spec(octets@),
{
    macaddr::MacAddr6::from(octets).to_string()
}

/// Entry `e` carries `key` with a string whose characters are `s`.
pub open spec fn text_entry(e: (String, Value), key: Seq<char>, s: Seq<char>) -> bool {
    e.0@ == key && e.1 is String && e.1->String_0@ == s
}

/// A display that the receiver offers.
pub struct Display {
    pub width: u32,
    pub height: u32,
    pub uuid: String,
    pub max_fps: u32,
    pub features: u32,
}

impl Display {
    /// The encoded form: `widthPixels`, `heightPixels`, `uuid`, `maxFPS`, `features`.
    pub open spec fn encoded(self, d: Dictionary) -> bool {
        let e = d.entries@;
        &&& e.len() == 5
        &&& int_entry(e[0], "widthPixels"@, self.width as int)
        &&& int_entry(e[1], "heightPixels"@, self.height as int)
        &&& text_entry(e[2], "uuid"@, self.uuid@)
        &&& int_entry(e[3], "maxFPS"@, self.max_fps as int)
        &&& int_entry(e[4], "features"@, self.features as int)
    }

    pub fn encode(&self) -> (d: Dictionary)
        ensures
            self.encoded(d),
    {
        let mut d = Dictionary::new();
        d.insert("widthPixels", Value::Integer(self.width as i128));
        d.insert("heightPixels", Value::Integer(self.height as i128));
        d.insert("uuid", Value::String(self.uuid.clone()));
        d.insert("maxFPS", Value::Integer(self.max_fps as i128));
        d.insert("features", Value::Integer(self.features as i128));
        d
    }
}

/// The answer to an information request.
pub struct InfoResponse {
    pub device_id: [u8; 6],
    pub mac_addr: [u8; 6],
    pub features: u64,
    pub manufacturer: String,
    pub model: String,
    pub name: String,
    pub protocol_version: String,
    pub source_version: String,
    pub displays: Vec<Display>,
}

impl InfoResponse {
    /// The encoded form: `deviceid`, `macAddress`, `features`, `manufacturer`,
    /// `model`, `name`, `protocolVersion`, `sourceVersion` and `displays`, the
    /// addresses written as colon-separated hexadecimal.
    pub open spec fn encoded(self, d: Dictionary) -> bool {
        let e = d.entries@;
        &&& e.len() == 9
        &&& text_entry(e[0], "deviceid"@, mac_text_spec(self.device_id@))
        &&& text_entry(e[1], "macAddress"@, mac_text_spec(self.mac_addr@))
        &&& int_entry(e[2], "features"@, self.features as int)
        &&& text_entry(e[3], "manufacturer"@, self.manufacturer@)
        &&& text_entry(e[4], "model"@, self.model@)
        &&& text_entry(e[5], "name"@, self.name@)
        &&& text_entry(e[6], "protocolVersion"@, self.protocol_version@)
        &&& text_entry(e[7], "sourceVersion"@, self.source_version@)
        &&& e[8].0@ == "displays"@
        &&& e[8].1 is Array
        &&& e[8].1->Array_0@.len() == self.displays@.len()
        &&& forall|i: int| 0 <= i < self.displays@.len() ==> {
            let item = #[trigger] e[8].1->Array_0@[i];
            item is Dictionary && self.displays@[i].encoded(item->Dictionary_0)
        }
    }

    pub fn encode(&self) -> (d: Dictionary)
        ensures
            self.encoded(d),
    {
        let mut items: Vec<Value> = Vec::new();
        let mut i: usize = 0;
        while i < self.displays.len()
            invariant
                0 <= i <= self.displays@.len(),
                items@.len() == i,
                forall|j: int| 0 <= j < i ==> {
                    let item = #[trigger] items@[j];
                    item is Dictionary && self.displays@[j].encoded(item->Dictionary_0)
                },
            decreases self.displays@.len() - i,
        {
            items.push(Value::Dictionary(self.displays[i].encode()));
            i = i + 1;
        }
        let mut d = Dictionary::new();
        d.insert("deviceid", Value::String(mac_text(self.device_id)));
        d.insert("macAddress", Value::String(mac_text(self.mac_addr)));
        d.insert("features", Value::Integer(self.features as i128));
        d.insert("manufacturer", Value::String(self.manufacturer.clone()));
        d.insert("model", Value::String(self.model.clone()));
        d.insert("name", Value::String(self.name.clone()));
        d.insert("protocolVersion", Value::String(self.protocol_version.clone()));
        d.insert("sourceVersion", Value::String(self.source_version.clone()));
        d.insert("displays", Value::Array(items));
        d
    }
}

} // verus!

//! The request/response protocol of the system management controller (SMC): request
//! records, reply checking, four-character key codes, the key-information cache and
//! the enumeration of readable keys. The transport itself lies outside this crate.
use vstd::prelude::*;
use vstd::string::StringSliceAdditionalSpecFns;
use vstd::utf8::{encode_utf8, valid_utf8};
use crate::text::{is_prefix, starts_with};
use std::collections::HashMap;

verus! {

broadcast use vstd::std_specs::hash::group_hash_axioms;

/// Result code of a reply for a key that the controller does not have.
pub const KEY_NOT_FOUND: u8 = 132;

/// Selector: read a key's value.
pub const CMD_READ_VALUE: u8 = 5;

/// Selector: the key at an index.
pub const CMD_KEY_BY_INDEX: u8 = 8;

/// Selector: a key's type and size.
pub const CMD_KEY_INFO: u8 = 9;

/// Type code of a 32-bit float value: the four characters `flt `.
pub const FLOAT_TYPE: u32 = 1718383648;

/// Payload bytes that a reply can carry.
pub const PAYLOAD_LEN: usize = 32;

#[derive(Clone, Copy, Debug, PartialEq, Eq, Structural)]
pub struct KeyDataVer {
    pub major: u8,
    pub minor: u8,
    pub build: u8,
    pub reserved: u8,
    pub release: u16,
}

#[derive(Clone, Copy, Debug, PartialEq, Eq, Structural)]
pub struct PLimitData {
    pub version: u16,
    pub length: u16,
    pub cpu_p_limit: u32,
    pub gpu_p_limit: u32,
    pub mem_p_limit: u32,
}

/// A key's value type (a four-character code) and size in bytes.
#[derive(Clone, Copy, Debug, PartialEq, Eq, Structural)]
pub struct KeyInfo {
    pub data_size: u32,
    pub data_type: u32,
    pub data_attributes: u8,
}

/// The fixed-size record exchanged with the controller, as request and as reply.
#[derive(Clone, Copy, Debug)]
pub struct KeyData {
    pub key: u32,
    pub vers: KeyDataVer,
    pub p_limit_data: PLimitData,
    pub key_info: KeyInfo,
    pub result: u8,
    pub status: u8,
    pub data8: u8,
    pub data32: u32,
    pub bytes: [u8; 32],
}

/// A key's value: its name, its type code as text, and its payload bytes.
#[derive(Clone, Debug)]
pub struct SensorVal {
    pub name: String,
    pub unit: String,
    pub data: Vec<u8>,
}

/// Ways in which a controller exchange fails.
#[derive(Clone, Copy, Debug, PartialEq, Eq, Structural)]
pub enum SmcError {
    /// The call into the controller's service failed with this status.
    Transport(i32),
    /// The controller does not have the key.
    KeyNotFound,
    /// The controller answered with this other non-zero result code.
    Protocol(u8),
    /// A key name that is not four bytes long.
    KeyLength,
    /// A key code whose bytes are not text.
    KeyText,
    /// A key whose stated size exceeds the reply's payload.
    DataSize,
}

/// The record with every field zero but the key, the selector (`data8`), `data32` and
/// the key information.
pub open spec fn is_zeroed_except(d: KeyData, key: u32, data8: u8, data32: u32, info: KeyInfo) -> bool {
    &&& d.key == key
    &&& d.data8 == data8
    &&& d.data32 == data32
    &&& d.key_info == info
    &&& d.vers == KeyDataVer { major: 0, minor: 0, build: 0, reserved: 0, release: 0 }
    &&& d.p_limit_data == PLimitData {
        version: 0,
        length: 0,
        cpu_p_limit: 0,
        gpu_p_limit: 0,
        mem_p_limit: 0,
    }
    &&& d.result == 0
    &&& d.status == 0
    &&& forall|i: int| 0 <= i < 32 ==> d.bytes@[i] == 0
}

pub open spec fn no_info() -> KeyInfo {
    KeyInfo { data_size: 0, data_type: 0, data_attributes: 0 }
}

fn request(key: u32, data8: u8, data32: u32, info: KeyInfo) -> (r: KeyData)
    ensures
        is_zeroed_except(r, key, data8, data32, info),
{
    KeyData {
        key,
        vers: KeyDataVer { major: 0, minor: 0, build: 0, reserved: 0, release: 0 },
        p_limit_data: PLimitData {
            version: 0,
            length: 0,
            cpu_p_limit: 0,
            gpu_p_limit: 0,
            mem_p_limit: 0,
        },
        key_info: info,
        result: 0,
        status: 0,
        data8,
        data32,
        bytes: [0u8; 32],
    }
}

/// The key code of four bytes, first byte most significant.
pub open spec fn fourcc_of(b: Seq<u8>) -> int {
    b[0] * 16777216 + b[1] * 65536 + b[2] * 256 + b[3]
}

/// The four bytes of a key code, most significant first.
pub open spec fn fourcc_bytes(code: u32) -> Seq<u8> {
    seq![
        (code / 16777216) as u8,
        ((code / 65536) % 256) as u8,
        ((code / 256) % 256) as u8,
        (code % 256) as u8,
    ]
}

/// Relies on std::str::from_utf8: it succeeds exactly on valid UTF-8 (ASCII among it),
/// and what it returns holds exactly the given bytes.
#[verifier::external_body]
fn utf8_str(b: &[u8]) -> (r: Option<&str>)
    ensures
        r is Some <==> valid_utf8(b@),
        (forall|i: int| 0 <= i < b@.len() ==> b@[i] < 128) ==> r is Some,
        r matches Some(s) ==> s.spec_bytes() == b@,
{
    std::str::from_utf8(b).ok()
}

/// The name of a key code: its four bytes read as text.
pub fn key_name(code: u32) -> (r: Result<String, SmcError>)
    ensures
        r matches Ok(s) ==> encode_utf8(s@) == fourcc_bytes(code),
        (forall|i: int| 0 <= i < 4 ==> fourcc_bytes(code)[i] < 128) ==> r is Ok,
        r matches Err(e) ==> e == SmcError::KeyText,
{
    let b: [u8; 4] = [
        (code / 16777216) as u8,
        ((code / 65536) % 256) as u8,
        ((code / 256) % 256) as u8,
        (code % 256) as u8,
    ];
    assert(b@ =~= fourcc_bytes(code));
    match utf8_str(b.as_slice()) {
        Some(s) => Ok(s.to_owned()),
        None => Err(SmcError::KeyText),
    }
}

/// The code of a four-byte key name.
pub fn key_code(key: &str) -> (r: Result<u32, SmcError>)
    ensures
        key.spec_bytes().len() != 4 <==> r is Err,
        r matches Err(e) ==> e == SmcError::KeyLength,
        r matches Ok(c) ==> c == fourcc_of(key.spec_bytes()),
{
    let b = key.as_bytes();
    if b.len() != 4 {
        return Err(SmcError::KeyLength);
    }
    let c: u32 = b[0] as u32 * 16777216 + b[1] as u32 * 65536 + b[2] as u32 * 256 + b[3] as u32;
    Ok(c)
}

/// The outcome of an exchange with transport status `rc` and reply `reply`.
pub open spec fn read_spec(rc: i32, reply: KeyData) -> Result<KeyData, SmcError> {
    if rc != 0 {
        Err(SmcError::Transport(rc))
    } else if reply.result == KEY_NOT_FOUND {
        Err(SmcError::KeyNotFound)
    } else if reply.result != 0 {
        Err(SmcError::Protocol(reply.result))
    } else {
        Ok(reply)
    }
}

/// The first step of reading a key's information.
#[derive(Clone, Copy, Debug)]
pub enum KeyInfoStep {
    /// The information was cached: no request is needed.
    Cached(KeyInfo),
    /// The request to send to the controller.
    Request(KeyData),
}

/// Sizes and type code of a value reply that `read_val` turns into a value.
pub open spec fn value_fits(info: KeyInfo) -> bool {
    info.data_size <= PAYLOAD_LEN
}

/// The key-information cache of one controller connection: each key's type and size,
/// fetched once (keys never change type).
pub struct SMC {
    keys: HashMap<u32, KeyInfo>,
}

impl SMC {
    /// Cached key information by key code.
    pub closed spec fn cache(&self) -> Map<u32, KeyInfo> {
        self.keys@
    }

    /// A connection state with nothing cached.
    pub fn new() -> (r: SMC)
        ensures
            r.cache() == Map::<u32, KeyInfo>::empty(),
    {
        SMC { keys: HashMap::new() }
    }

    /// Checks a reply: a failed call, a missing key and any other non-zero result
    /// code are errors.
    pub fn read(rc: i32, reply: KeyData) -> (r: Result<KeyData, SmcError>)
        ensures
            r == read_spec(rc, reply),
    {
        if rc != 0 {
            return Err(SmcError::Transport(rc));
        }
        if reply.result == KEY_NOT_FOUND {
            return Err(SmcError::KeyNotFound);
        }
        if reply.result != 0 {
            return Err(SmcError::Protocol(reply.result));
        }
        Ok(reply)
    }

    /// The request for the key at `index`.
    pub fn key_by_index_request(index: u32) -> (r: KeyData)
        ensures
            is_zeroed_except(r, 0, CMD_KEY_BY_INDEX, index, no_info()),
    {
        request(0, CMD_KEY_BY_INDEX, index, KeyInfo { data_size: 0, data_type: 0, data_attributes: 0 })
    }

    /// The name of the key in a (checked) reply to `key_by_index_request`.
    pub fn key_by_index(reply: Result<KeyData, SmcError>) -> (r: Result<String, SmcError>)
        ensures
            reply matches Err(e) ==> r == Err::<String, SmcError>(e),
            reply matches Ok(d) ==> (r matches Ok(s) ==> encode_utf8(s@) == fourcc_bytes(d.key)),
            reply matches Ok(d) ==> ((forall|i: int| 0 <= i < 4 ==> fourcc_bytes(d.key)[i] < 128) ==> r is Ok),
    {
        match reply {
            Ok(d) => key_name(d.key),
            Err(e) => Err(e),
        }
    }

    /// The first step of reading a key's information: the cached entry when there is
    /// one (no request is needed), otherwise the request to send. Fails for a name that
    /// is not four bytes.
    pub fn key_info_step(&self, key: &str) -> (r: Result<KeyInfoStep, SmcError>)
        ensures
            key.spec_bytes().len() != 4 <==> r is Err,
            r matches Err(e) ==> e == SmcError::KeyLength,
            r matches Ok(step) ==> {
                let code = fourcc_of(key.spec_bytes()) as u32;
                if self.cache().contains_key(code) {
                    step == KeyInfoStep::Cached(self.cache()[code])
                } else {
                    step matches KeyInfoStep::Request(d) && is_zeroed_except(d, code, CMD_KEY_INFO, 0, no_info())
                }
            },
    {
        let code = key_code(key)?;
        match self.keys.get(&code) {
            Some(info) => Ok(KeyInfoStep::Cached(*info)),
            None => Ok(
                KeyInfoStep::Request(
                    request(code, CMD_KEY_INFO, 0, KeyInfo { data_size: 0, data_type: 0, data_attributes: 0 }),
                ),
            ),
        }
    }

    /// Takes the (checked) reply to the request of `key_info_step`: on success the key's information
    /// is cached and returned; an error leaves the cache as it was.
    pub fn read_key_info(&mut self, key: &str, reply: Result<KeyData, SmcError>) -> (r: Result<KeyInfo, SmcError>)
        ensures
            key.spec_bytes().len() != 4 ==> r == Err::<KeyInfo, SmcError>(SmcError::KeyLength)
                && final(self).cache() == old(self).cache(),
            key.spec_bytes().len() == 4 ==> match reply {
                Ok(d) => r == Ok::<KeyInfo, SmcError>(d.key_info) && final(self).cache() == old(
                    self,
                ).cache().insert(fourcc_of(key.spec_bytes()) as u32, d.key_info),
                Err(e) => r == Err::<KeyInfo, SmcError>(e) && final(self).cache() == old(self).cache(),
            },
    {
        let code = key_code(key)?;
        match reply {
            Ok(d) => {
                self.keys.insert(code, d.key_info);
                Ok(d.key_info)
            },
            Err(e) => Err(e),
        }
    }

    /// The request for a key's value, given its information.
    pub fn read_val_request(key: &str, info: KeyInfo) -> (r: Result<KeyData, SmcError>)
        ensures
            key.spec_bytes().len() != 4 <==> r is Err,
            r matches Err(e) ==> e == SmcError::KeyLength,
            r matches Ok(d) ==> is_zeroed_except(d, fourcc_of(key.spec_bytes()) as u32, CMD_READ_VALUE, 0, info),
    {
        let code = key_code(key)?;
        Ok(request(code, CMD_READ_VALUE, 0, info))
    }

    /// The value in a (checked) reply to `read_val_request`: the first `data_size`
    /// payload bytes, with the type code as text.
    pub fn read_val(key: &str, info: KeyInfo, reply: Result<KeyData, SmcError>) -> (r: Result<SensorVal, SmcError>)
        ensures
            reply matches Err(e) ==> r == Err::<SensorVal, SmcError>(e),
            reply is Ok && !value_fits(info) ==> r == Err::<SensorVal, SmcError>(SmcError::DataSize),
            reply is Ok && value_fits(info) && (forall|i: int| 0 <= i < 4 ==> fourcc_bytes(info.data_type)[i] < 128)
                ==> r is Ok,
            r matches Ok(v) ==> {
                &&& v.name@ == key@
                &&& encode_utf8(v.unit@) == fourcc_bytes(info.data_type)
                &&& reply matches Ok(d) && v.data@ == d.bytes@.subrange(0, info.data_size as int)
            },
    {
        let d = match reply {
            Ok(d) => d,
            Err(e) => return Err(e),
        };
        if info.data_size as usize > PAYLOAD_LEN {
            return Err(SmcError::DataSize);
        }
        let unit = key_name(info.data_type)?;
        let size = info.data_size as usize;
        let mut data: Vec<u8> = Vec::new();
        let mut i: usize = 0;
        while i < size
            invariant
                size <= 32,
                i <= size,
                data@ == d.bytes@.subrange(0, i as int),
            decreases size - i,
        {
            data.push(d.bytes[i]);
            i = i + 1;
            assert(data@ =~= d.bytes@.subrange(0, i as int));
        }
        Ok(SensorVal { name: key.to_owned(), unit, data })
    }
}

/// The 32-bit big-endian integer in the first four bytes.
pub open spec fn be_u32(b: Seq<u8>) -> int {
    fourcc_of(b)
}

/// Progress through the enumeration of the controller's keys: keys at indices below
/// `next` have been tried, and `keys` holds, in order, those whose value could be read.
#[derive(Debug)]
pub struct KeyScan {
    pub count: u32,
    pub next: u32,
    pub keys: Vec<String>,
}

impl KeyScan {
    /// Starts an enumeration from the value of the key-count key: a big-endian count.
    pub fn new(count_val: &SensorVal) -> (r: Result<KeyScan, SmcError>)
        ensures
            count_val.data@.len() < 4 <==> r is Err,
            r matches Err(e) ==> e == SmcError::DataSize,
            r matches Ok(s) ==> s.count == be_u32(count_val.data@) && s.next == 0 && s.keys@.len() == 0,
    {
        if count_val.data.len() < 4 {
            return Err(SmcError::DataSize);
        }
        let b = &count_val.data;
        let count: u32 = b[0] as u32 * 16777216 + b[1] as u32 * 65536 + b[2] as u32 * 256 + b[3] as u32;
        Ok(KeyScan { count, next: 0, keys: Vec::new() })
    }

    /// The index to try next, if any remain.
    pub fn next_index(&self) -> (r: Option<u32>)
        ensures
            r == (if self.next < self.count { Some(self.next) } else { None::<u32> }),
    {
        if self.next < self.count {
            Some(self.next)
        } else {
            None
        }
    }

    /// Records the outcome of reading the value of the key `name` found at the next
    /// index: a key whose read failed (a missing key among them) is skipped.
    pub fn record(&mut self, name: String, read: &Result<SensorVal, SmcError>)
        requires
            old(self).next < old(self).count,
        ensures
            final(self).count == old(self).count,
            final(self).next == old(self).next + 1,
            read is Ok ==> final(self).keys@ == old(self).keys@.push(name),
            read is Err ==> final(self).keys@ == old(self).keys@,
    {
        if read.is_ok() {
            self.keys.push(name);
        }
        self.next = self.next + 1;
    }
}

/// The sensor group that a temperature key belongs to.
#[derive(Clone, Copy, Debug, PartialEq, Eq, Structural)]
pub enum SensorKind {
    Cpu,
    Gpu,
}

/// A key that holds a four-byte float is a CPU temperature when its name starts with
/// `Tp` (performance cores) or `Te` (efficiency cores), a GPU temperature when it
/// starts with `Tg`.
pub open spec fn temp_sensor_spec(name: Seq<char>, info: KeyInfo) -> Option<SensorKind> {
    if info.data_size != 4 || info.data_type != FLOAT_TYPE {
        None
    } else if is_prefix("Tp"@, name) || is_prefix("Te"@, name) {
        Some(SensorKind::Cpu)
    } else if is_prefix("Tg"@, name) {
        Some(SensorKind::Gpu)
    } else {
        None
    }
}

/// Which temperature group, if any, a key belongs to.
pub fn temp_sensor_kind(name: &str, info: KeyInfo) -> (r: Option<SensorKind>)
    ensures
        r == temp_sensor_spec(name@, info),
{
    if info.data_size != 4 || info.data_type != FLOAT_TYPE {
        None
    } else if starts_with(name, "Tp") || starts_with(name, "Te") {
        Some(SensorKind::Cpu)
    } else if starts_with(name, "Tg") {
        Some(SensorKind::Gpu)
    } else {
        None
    }
}

} // verus!

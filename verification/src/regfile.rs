use vstd::prelude::*;
use crate::byte_stream::{le32_at, read_u32};
use crate::shared_types::{cp866_decoded, decode_cp866};

verus! {

/// Failures of the registry reader.  A failed byte read maps to
/// `Truncated` (the stored registry is a plain in-memory buffer, so the
/// only read failure is running out of bytes); `CyclicStructure` reports
/// a directory graph that revisits nodes endlessly.
#[derive(Clone, Copy, PartialEq, Eq, Structural, Debug)]
pub enum RegistryError {
    IncorrectSignature,
    NonExistentIntValue,
    NonExistentFloatValue,
    NonExistentStringValue,
    NonExistentIntArrayValue,
    Truncated,
    CyclicStructure,
}

/// The kind tag of one registry node.
#[derive(Clone, Copy, PartialEq, Eq, Structural, Debug)]
pub enum NodeKind {
    Directory,
    Int,
    Float,
    String,
    IntArray,
}

pub open spec fn spec_nodekind_from(tag: u32) -> Option<NodeKind> {
    match tag {
        0u32 => Option::Some(NodeKind::String),
        1u32 => Option::Some(NodeKind::Directory),
        2u32 => Option::Some(NodeKind::Int),
        4u32 => Option::Some(NodeKind::Float),
        6u32 => Option::Some(NodeKind::IntArray),
        _ => Option::None,
    }
}

impl NodeKind {
    /// Maps a stored tag to its node kind; other tags are malformed.
    pub fn from_tag(tag: u32) -> (r: Result<NodeKind, RegistryError>)
        ensures
            match r {
                Ok(v) => spec_nodekind_from(tag) == Option::Some(v),
                Err(e) => e == RegistryError::Truncated && spec_nodekind_from(tag) is None,
            },
    {
        match tag {
            0u32 => Ok(NodeKind::String),
            1u32 => Ok(NodeKind::Directory),
            2u32 => Ok(NodeKind::Int),
            4u32 => Ok(NodeKind::Float),
            6u32 => Ok(NodeKind::IntArray),
            _ => Err(RegistryError::Truncated),
        }
    }
}

/// The fixed registry file header after the signature.
#[derive(Clone, Copy, PartialEq, Eq, Structural, Debug)]
pub struct RootRegistryHeader {
    pub root_offset: u32,
    pub root_size: u32,
    pub registry_eat_size: u32,
}

impl RootRegistryHeader {
    pub open spec fn parsed_at(self, b: Seq<u8>, pos: int) -> bool {
        &&& self.root_offset == le32_at(b, pos)
        &&& self.root_size == le32_at(b, pos + 4)
        &&& self.registry_eat_size == le32_at(b, pos + 12)
    }

    /// Where node payload data begins: past the fixed header and the
    /// allocation table.
    pub fn get_data_origin(&self) -> (r: u64)
        ensures
            r == 0x1C + 0x20 * (self.registry_eat_size as int),
    {
        0x1C + 0x20 * (self.registry_eat_size as u64)
    }
}

/// One registry value, with strings and arrays still as raw byte ranges
/// resolved on demand; floats are kept as raw bit patterns.
#[derive(Clone, PartialEq, Debug)]
pub enum RegistryValue {
    Int(i32),
    FloatBits(u64),
    StringRange(usize, usize),
    IntArrayRange(usize, usize),
}


/// The value stored under a path: the first entry whose name matches.
pub open spec fn spec_registry_lookup(
    entries: Seq<(String, RegistryValue)>,
    path: Seq<char>,
) -> Option<RegistryValue>
    decreases entries.len(),
{
    if entries.len() == 0 {
        Option::None
    } else if entries[0].0@ == path {
        Option::Some(entries[0].1)
    } else {
        spec_registry_lookup(entries.skip(1), path)
    }
}

/// A parsed registry: a flat list of full paths with their values.
#[derive(Clone, PartialEq, Debug)]
pub struct Registry {
    pub data: Vec<u8>,
    pub entries: Vec<(String, RegistryValue)>,
}

/// The names of every entry of one kind, in insertion order.
#[derive(Clone, PartialEq, Debug)]
pub struct RegistryInfoEnumeration {
    pub ints: Vec<String>,
    pub floats: Vec<String>,
    pub strings: Vec<String>,
    pub int_arrays: Vec<String>,
}

impl Registry {
    /// Parses a registry blob: the signature, the root header, then a
    /// breadth-first walk of the node table.  Every node is a 32-byte
    /// record of a skipped word, two payload words, a kind tag and a
    /// 16-byte name.  A walk visiting more nodes than the buffer could
    /// hold is cyclic and is reported rather than looping forever.
    #[verifier::loop_isolation(false)]
    pub fn read_from_bytes(bytes: &Vec<u8>) -> (r: Result<Registry, RegistryError>)
        ensures
            match r {
                Ok(v) => {
                    &&& bytes@.len() >= 24
                    &&& le32_at(bytes@, 0) == 0x3141_5926
                    &&& v.data@ == bytes@
                },
                Err(e) => {
                    ||| e == RegistryError::IncorrectSignature
                    ||| e == RegistryError::Truncated
                    ||| e == RegistryError::CyclicStructure
                },
            },
    {
        let mut pos: usize = 0;
        if bytes.len() < 24 {
            return Err(RegistryError::Truncated);
        }
        let signature = match read_u32(bytes, &mut pos) {
            Ok(v) => v,
            Err(_) => {
                return Err(RegistryError::Truncated);
            },
        };
        if signature != 0x3141_5926 {
            return Err(RegistryError::IncorrectSignature);
        }
        let root_offset = match read_u32(bytes, &mut pos) {
            Ok(v) => v,
            Err(_) => {
                return Err(RegistryError::Truncated);
            },
        };
        let root_size = match read_u32(bytes, &mut pos) {
            Ok(v) => v,
            Err(_) => {
                return Err(RegistryError::Truncated);
            },
        };
        let header = RootRegistryHeader {
            root_offset,
            root_size,
            registry_eat_size: {
                let mut p2 = 16usize;
                match read_u32(bytes, &mut p2) {
                    Ok(v) => v,
                    Err(_) => {
                        return Err(RegistryError::Truncated);
                    },
                }
            },
        };
        let data_origin64 = header.get_data_origin();
        let mut queue: Vec<u64> = Vec::new();
        let first64 = 0x18u64 + 0x20 * (root_offset as u64);
        let mut i: u32 = 0;
        while i < root_size
            invariant
                i <= root_size,
            decreases root_size - i,
        {
            let off = first64 + 0x20 * (i as u64);
            queue.push(off);
            i = i + 1;
        }
        let mut entries: Vec<(String, RegistryValue)> = Vec::new();
        let mut head: usize = 0;
        let cap: usize = bytes.len() / 0x20 + 1;
        let mut processed: usize = 0;
        while head < queue.len()
            invariant
                head <= queue@.len(),
                processed <= cap,
            decreases cap - processed,
        {
            if processed >= cap {
                return Err(RegistryError::CyclicStructure);
            }
            processed = processed + 1;
            let off64 = queue[head];
            head = head + 1;
            if off64 > usize::MAX as u64 - 36 {
                return Err(RegistryError::Truncated);
            }
            let off = off64 as usize;
            if bytes.len() < 36 || off > bytes.len() - 36 {
                return Err(RegistryError::Truncated);
            }
            let mut p = off + 4;
            let data0 = match read_u32(bytes, &mut p) {
                Ok(v) => v,
                Err(_) => {
                    return Err(RegistryError::Truncated);
                },
            };
            let data1 = match read_u32(bytes, &mut p) {
                Ok(v) => v,
                Err(_) => {
                    return Err(RegistryError::Truncated);
                },
            };
            let tag = match read_u32(bytes, &mut p) {
                Ok(v) => v,
                Err(_) => {
                    return Err(RegistryError::Truncated);
                },
            };
            let kind = NodeKind::from_tag(tag)?;
            let mut name_raw: Vec<u8> = Vec::new();
            let mut q: usize = 0;
            while q < 16
                invariant
                    q <= 16,
                    off + 36 <= bytes@.len(),
                decreases 16 - q,
            {
                let b = bytes[off + 16 + q];
                if b == 0 {
                    break ;
                }
                name_raw.push(b);
                q = q + 1;
            }
            let name = decode_cp866(&name_raw);
            match kind {
                NodeKind::Directory => {
                    let start64 = data_origin64 + 0x20 * (data0 as u64);
                    let count = data1;
                    let mut c: u32 = 0;
                    while c < count
                        invariant
                            c <= count,
                            head <= queue@.len(),
                        decreases count - c,
                    {
                        queue.push(start64 + 0x20 * (c as u64));
                        c = c + 1;
                    }
                },
                NodeKind::Int => {
                    entries.push((name, RegistryValue::Int(data0 as i32)));
                },
                NodeKind::Float => {
                    let bits = (data0 as u64) + 0x1_0000_0000 * (data1 as u64);
                    entries.push((name, RegistryValue::FloatBits(bits)));
                },
                NodeKind::String => {
                    let start64 = data_origin64 + 0x20 * (data0 as u64);
                    if start64 > usize::MAX as u64 - (data1 as u64) {
                        return Err(RegistryError::Truncated);
                    }
                    entries.push(
                        (
                            name,
                            RegistryValue::StringRange(start64 as usize, data1 as usize),
                        ),
                    );
                },
                NodeKind::IntArray => {
                    let start64 = data_origin64 + 0x20 * (data0 as u64);
                    if start64 > usize::MAX as u64 - (data1 as u64) {
                        return Err(RegistryError::Truncated);
                    }
                    entries.push(
                        (
                            name,
                            RegistryValue::IntArrayRange(start64 as usize, data1 as usize),
                        ),
                    );
                },
            }
        }
        Ok(Registry { data: bytes.clone(), entries })
    }

    /// The value stored under `path`, by linear scan.
    #[verifier::loop_isolation(false)]
    fn find(&self, path: &String) -> (r: Option<&RegistryValue>)
        ensures
            match r {
                Some(v) => spec_registry_lookup(self.entries@, path@) == Option::Some(*v),
                None => spec_registry_lookup(self.entries@, path@) is None,
            },
    {
        proof {
            assert(self.entries@.skip(0) =~= self.entries@);
        }
        let mut i: usize = 0;
        while i < self.entries.len()
            invariant
                i <= self.entries@.len(),
                spec_registry_lookup(self.entries@.skip(i as int), path@) == spec_registry_lookup(
                    self.entries@,
                    path@,
                ),
            decreases self.entries@.len() - i,
        {
            let pair = &self.entries[i];
            proof {
                assert(self.entries@.skip(i as int)[0] == self.entries@[i as int]);
                assert(self.entries@.skip(i as int).skip(1) =~= self.entries@.skip(i as int + 1));
            }
            if pair.0 == *path {
                return Some(&pair.1);
            }
            i = i + 1;
        }
        proof {
            assert(self.entries@.skip(self.entries@.len() as int) =~= Seq::<(
                String,
                RegistryValue,
            )>::empty());
        }
        None
    }

    /// The integer stored under `path`.
    pub fn get_int(&self, path: &String) -> (r: Result<i32, RegistryError>)
        ensures
            match r {
                Ok(v) => spec_registry_lookup(self.entries@, path@) == Option::Some(
                    RegistryValue::Int(v),
                ),
                Err(e) => {
                    &&& e == RegistryError::NonExistentIntValue
                    &&& match spec_registry_lookup(self.entries@, path@) {
                        Option::Some(v) => !(v is Int),
                        Option::None => true,
                    }
                },
            },
    {
        match self.find(path) {
            Some(RegistryValue::Int(v)) => Ok(*v),
            _ => Err(RegistryError::NonExistentIntValue),
        }
    }

    /// The raw bits of the stored 64-bit float under `path`.
    pub fn get_float_bits(&self, path: &String) -> (r: Result<u64, RegistryError>)
        ensures
            match r {
                Ok(v) => spec_registry_lookup(self.entries@, path@) == Option::Some(
                    RegistryValue::FloatBits(v),
                ),
                Err(e) => {
                    &&& e == RegistryError::NonExistentFloatValue
                    &&& match spec_registry_lookup(self.entries@, path@) {
                        Option::Some(v) => !(v is FloatBits),
                        Option::None => true,
                    }
                },
            },
    {
        match self.find(path) {
            Some(RegistryValue::FloatBits(v)) => Ok(*v),
            _ => Err(RegistryError::NonExistentFloatValue),
        }
    }

    /// The text stored under `path`, decoded from its byte range.
    pub fn get_string(&self, path: &String) -> (r: Result<String, RegistryError>)
        ensures
            match r {
                Ok(text) => match spec_registry_lookup(self.entries@, path@) {
                    Option::Some(v) => v is StringRange && text@ == cp866_decoded(
                        self.data@.subrange(
                            v->StringRange_0 as int,
                            v->StringRange_0 + v->StringRange_1,
                        ),
                    ),
                    Option::None => false,
                },
                Err(e) => match e {
                    RegistryError::NonExistentStringValue => match spec_registry_lookup(
                        self.entries@,
                        path@,
                    ) {
                        Option::Some(v) => !(v is StringRange),
                        Option::None => true,
                    },
                    RegistryError::Truncated => match spec_registry_lookup(
                        self.entries@,
                        path@,
                    ) {
                        Option::Some(v) => v is StringRange && v->StringRange_0
                            + v->StringRange_1 > self.data@.len(),
                        Option::None => false,
                    },
                    _ => false,
                },
            },
    {
        let (start, size) = match self.find(path) {
            Some(RegistryValue::StringRange(s, z)) => (*s, *z),
            _ => {
                return Err(RegistryError::NonExistentStringValue);
            },
        };
        if size > self.data.len() || start > self.data.len() - size {
            return Err(RegistryError::Truncated);
        }
        let mut raw: Vec<u8> = Vec::new();
        let mut i: usize = 0;
        while i < size
            invariant
                start + size <= self.data@.len(),
                i <= size,
                raw@.len() == i,
                forall|j: int| 0 <= j < i ==> raw@[j] == self.data@[start + j],
            decreases size - i,
        {
            proof {
                assert(self.data@.len() == self.data.len());
            }
            raw.push(self.data[start + i]);
            i = i + 1;
        }
        proof {
            assert(raw@ =~= self.data@.subrange(start as int, start + size));
        }
        Ok(decode_cp866(&raw))
    }

    /// The integer array stored under `path`.
    pub fn get_int_slice(&self, path: &String) -> (r: Result<Vec<i32>, RegistryError>)
        ensures
            match r {
                Ok(v) => match spec_registry_lookup(self.entries@, path@) {
                    Option::Some(e) => {
                        &&& e is IntArrayRange
                        &&& v@.len() == e->IntArrayRange_1
                        &&& forall|k: int|
                            0 <= k < v@.len() ==> #[trigger] v@[k] == (le32_at(
                                self.data@,
                                e->IntArrayRange_0 + 4 * k,
                            ) as u32) as i32
                    },
                    Option::None => false,
                },
                Err(e) => match e {
                    RegistryError::NonExistentIntArrayValue => match spec_registry_lookup(
                        self.entries@,
                        path@,
                    ) {
                        Option::Some(v) => !(v is IntArrayRange),
                        Option::None => true,
                    },
                    RegistryError::Truncated => true,
                    _ => false,
                },
            },
    {
        let (start, count) = match self.find(path) {
            Some(RegistryValue::IntArrayRange(s, z)) => (*s, *z),
            _ => {
                return Err(RegistryError::NonExistentIntArrayValue);
            },
        };
        if count > usize::MAX / 4 {
            return Err(RegistryError::Truncated);
        }
        if 4 * count > self.data.len() || start > self.data.len() - 4 * count {
            return Err(RegistryError::Truncated);
        }
        let mut out: Vec<i32> = Vec::new();
        let mut p = start;
        let mut i: usize = 0;
        while i < count
            invariant
                start + 4 * count <= self.data@.len(),
                i <= count,
                p == start + 4 * i,
                out@.len() == i,
                forall|k: int|
                    0 <= k < i ==> #[trigger] out@[k] == (le32_at(self.data@, start + 4 * k)
                        as u32) as i32,
            decreases count - i,
        {
            let v = match read_u32(&self.data, &mut p) {
                Ok(v) => v,
                Err(_) => {
                    proof {
                        assert(false);
                    }
                    0
                },
            };
            out.push(v as i32);
            i = i + 1;
        }
        Ok(out)
    }

    /// Every stored name, grouped by kind, in insertion order.
    pub fn list_all(&self) -> (r: RegistryInfoEnumeration)
    {
        let mut ints: Vec<String> = Vec::new();
        let mut floats: Vec<String> = Vec::new();
        let mut strings: Vec<String> = Vec::new();
        let mut int_arrays: Vec<String> = Vec::new();
        let mut i: usize = 0;
        while i < self.entries.len()
            decreases self.entries@.len() - i,
        {
            let pair = &self.entries[i];
            match &pair.1 {
                RegistryValue::Int(_) => ints.push(pair.0.clone()),
                RegistryValue::FloatBits(_) => floats.push(pair.0.clone()),
                RegistryValue::StringRange(_, _) => strings.push(pair.0.clone()),
                RegistryValue::IntArrayRange(_, _) => int_arrays.push(pair.0.clone()),
            }
            i = i + 1;
        }
        RegistryInfoEnumeration { ints, floats, strings, int_arrays }
    }
}

} // verus!

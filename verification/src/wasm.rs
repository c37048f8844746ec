//! Plugins that are run in a sandbox: what they are allowed, and how values
//! pass between them and the program.
use vstd::prelude::*;

use vstd::utf8::encode_utf8;

verus! {

pub const DEFAULT_TIMEOUT_SECS: u64 = 30;

/// Pages have 64 KiB.
pub const DEFAULT_MAX_MEMORY_PAGES: u32 = 256;

pub const DEFAULT_FUEL: u64 = 5_000_000;

/// A directory that a plugin sees.
pub struct FsCapability {
    pub host_dir: String,
    pub guest_dir: String,
    pub read_only: bool,
}

/// What a plugin may use up.
#[derive(Clone, Copy, Debug, PartialEq, Eq, Structural)]
pub struct Limits {
    pub timeout_secs: u64,
    pub max_memory_pages: u32,
    pub fuel: u64,
}

impl Default for Limits {
    fn default() -> (r: Limits)
        ensures
            r.timeout_secs == DEFAULT_TIMEOUT_SECS,
            r.max_memory_pages == DEFAULT_MAX_MEMORY_PAGES,
            r.fuel == DEFAULT_FUEL,
    {
        Limits {
            timeout_secs: DEFAULT_TIMEOUT_SECS,
            max_memory_pages: DEFAULT_MAX_MEMORY_PAGES,
            fuel: DEFAULT_FUEL,
        }
    }
}

/// What a plugin is allowed.
pub struct Manifest {
    pub network: bool,
    pub fs: Vec<FsCapability>,
    pub limits: Limits,
}

impl Default for Manifest {
    /// Nothing but the usual limits.
    fn default() -> (r: Manifest)
        ensures
            !r.network,
            r.fs@.len() == 0,
            r.limits == (Limits {
                timeout_secs: DEFAULT_TIMEOUT_SECS,
                max_memory_pages: DEFAULT_MAX_MEMORY_PAGES,
                fuel: DEFAULT_FUEL,
            }),
    {
        Manifest { network: false, fs: Vec::new(), limits: Limits::default() }
    }
}

/// Limits as they are written: each of them may be missing.
pub struct WrittenLimits {
    pub timeout_secs: Option<u64>,
    pub max_memory_pages: Option<u32>,
    pub fuel: Option<u64>,
}

impl WrittenLimits {
    /// The limits, with the usual ones for those that are missing.
    pub fn resolve(&self) -> (r: Limits)
        ensures
            r.timeout_secs == (match self.timeout_secs {
                Some(n) => n,
                None => DEFAULT_TIMEOUT_SECS,
            }),
            r.max_memory_pages == (match self.max_memory_pages {
                Some(n) => n,
                None => DEFAULT_MAX_MEMORY_PAGES,
            }),
            r.fuel == (match self.fuel {
                Some(n) => n,
                None => DEFAULT_FUEL,
            }),
    {
        let mut r = Limits::default();
        if let Some(n) = self.timeout_secs {
            r.timeout_secs = n;
        }
        if let Some(n) = self.max_memory_pages {
            r.max_memory_pages = n;
        }
        if let Some(n) = self.fuel {
            r.fuel = n;
        }
        r
    }
}

/// The number that the bits of a signed one stand for.
pub open spec fn bits(n: i64) -> nat {
    if n < 0 {
        (n + 0x1_0000_0000_0000_0000) as nat
    } else {
        n as nat
    }
}

/// A place and a length in one number: the place in the upper half.
pub fn pack(ptr: u32, len: u32) -> (r: i64)
    ensures
        bits(r) == ptr * 0x1_0000_0000 + len,
{
    let packed: u64 = ((ptr as u64) << 32) | (len as u64);
    assert(packed == (ptr as u64) * 0x1_0000_0000 + (len as u64)) by (bit_vector)
        requires
            packed == ((ptr as u64) << 32) | (len as u64),
    ;
    let r: i64 = packed as i64;
    assert(r < 0 ==> r + 0x1_0000_0000_0000_0000 == packed) by (bit_vector)
        requires
            r == packed as i64,
    ;
    assert(r >= 0 ==> r == packed) by (bit_vector)
        requires
            r == packed as i64,
    ;
    r
}

/// The place and the length in a number.
pub fn unpack(packed: i64) -> (r: (u32, u32))
    ensures
        r.0 == bits(packed) / 0x1_0000_0000,
        r.1 == bits(packed) % 0x1_0000_0000,
{
    let u: u64 = packed as u64;
    assert(packed < 0 ==> packed + 0x1_0000_0000_0000_0000 == u) by (bit_vector)
        requires
            u == packed as u64,
    ;
    assert(packed >= 0 ==> packed == u) by (bit_vector)
        requires
            u == packed as u64,
    ;
    assert(u / 0x1_0000_0000 < 0x1_0000_0000) by (bit_vector);
    let ptr: u32 = (u / 0x1_0000_0000) as u32;
    let len: u32 = (u % 0x1_0000_0000) as u32;
    (ptr, len)
}

/// What was packed is what is unpacked.
pub proof fn law_unpack_undoes_pack(ptr: u32, len: u32, packed: i64)
    requires
        bits(packed) == ptr * 0x1_0000_0000 + len,
    ensures
        bits(packed) / 0x1_0000_0000 == ptr,
        bits(packed) % 0x1_0000_0000 == len,
{
}

/// The bytes of a memory from a place on, as far as it goes.
pub open spec fn bytes_at(data: Seq<u8>, ptr: u32, len: u32) -> Seq<u8> {
    let end = if ptr + len < data.len() {
        ptr + len
    } else {
        data.len() as int
    };
    if ptr >= end {
        Seq::empty()
    } else {
        data.subrange(ptr as int, end)
    }
}

/// The bytes of a memory from a place on, as far as it goes.
pub fn read_bytes(data: &Vec<u8>, ptr: u32, len: u32) -> (r: Vec<u8>)
    ensures
        r@ == bytes_at(data@, ptr, len),
{
    let n: usize = data.len();
    let start: usize = ptr as usize;
    let mut r: Vec<u8> = Vec::new();
    if start >= n {
        return r;
    }
    let end: usize = if len as usize <= n - start {
        start + len as usize
    } else {
        n
    };
    for i in start..end
        invariant
            start <= end <= n == data@.len(),
            r@ == data@.subrange(start as int, i as int),
    {
        r.push(data[i]);
        assert(data@.subrange(start as int, i + 1) == data@.subrange(start as int, i as int).push(
            data@[i as int],
        ));
    }
    assert(r@ =~= bytes_at(data@, ptr, len));
    r
}

/// The text that `String::from_utf8_lossy` makes of some bytes.
pub uninterp spec fn lossy_text(bytes: Seq<u8>) -> Seq<char>;

/// `String::from_utf8_lossy`: bytes that encode a text become that text; in
/// others what is wrong is replaced.
#[verifier::external_body]
fn decode_lossy(bytes: &Vec<u8>) -> (r: String)
    ensures
        r@ == lossy_text(bytes@),
        forall|s: Seq<char>| #[trigger] encode_utf8(s) == bytes@ ==> r@ == s,
{
    String::from_utf8_lossy(bytes).into_owned()
}

/// The text at the place and of the length that are packed in a number.
pub fn read_packed_string(data: &Vec<u8>, packed: i64) -> (r: String)
    ensures
        r@ == lossy_text(
            bytes_at(
                data@,
                (bits(packed) / 0x1_0000_0000) as u32,
                (bits(packed) % 0x1_0000_0000) as u32,
            ),
        ),
        forall|s: Seq<char>| #[trigger]
            encode_utf8(s) == bytes_at(
                data@,
                (bits(packed) / 0x1_0000_0000) as u32,
                (bits(packed) % 0x1_0000_0000) as u32,
            ) ==> r@ == s,
{
    let (ptr, len) = unpack(packed);
    decode_lossy(&read_bytes(data, ptr, len))
}

} // verus!

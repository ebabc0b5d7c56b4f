//! The sample model: the parts of a system sample that the monitor's rules
//! read, and the conversions from the raw fixed-size records the sampler
//! fills.

use vstd::prelude::*;

use crate::text::{from_utf8_lossy, utf8_lossy};

verus! {

/// Memory and swap figures, in KiB.
#[derive(Clone, Copy, PartialEq, Eq, Structural, Debug, Default)]
pub struct Mem {
    pub total_kb: u64,
    pub used_kb: u64,
    pub available_kb: u64,
    pub buffers_kb: u64,
    pub cached_kb: u64,
    pub swap_total_kb: u64,
    pub swap_used_kb: u64,
}

/// One traced socket.
pub struct Conn {
    pub proto: String,
    pub local: String,
    pub remote: String,
    pub state: String,
    pub uid: i32,
}

impl Clone for Conn {
    fn clone(&self) -> (r: Self)
        ensures
            r == *self,
    {
        Conn {
            proto: self.proto.clone(),
            local: self.local.clone(),
            remote: self.remote.clone(),
            state: self.state.clone(),
            uid: self.uid,
        }
    }
}

/// One process of a top-N table.
///
/// `cpu_order` stands for the process's CPU share: it orders processes as
/// their CPU percentages do (a larger key is a larger share); the sampler
/// side keeps the percentage itself for display.
pub struct Proc {
    pub pid: i32,
    pub ppid: i32,
    pub name: String,
    pub state: char,
    pub threads: i32,
    pub uid: i32,
    pub cpu_order: u64,
    pub rss_kb: u64,
}

impl Clone for Proc {
    fn clone(&self) -> (r: Self)
        ensures
            r == *self,
    {
        Proc {
            pid: self.pid,
            ppid: self.ppid,
            name: self.name.clone(),
            state: self.state,
            threads: self.threads,
            uid: self.uid,
            cpu_order: self.cpu_order,
            rss_kb: self.rss_kb,
        }
    }
}

/// The discrete part of one system sample: counters, the process tables and
/// the descriptive strings.
pub struct Snapshot {
    pub mem: Mem,
    pub conns: Vec<Conn>,
    pub top_cpu: Vec<Proc>,
    pub top_mem: Vec<Proc>,
    pub proc_total: u32,
    pub hostname: String,
    pub kernel: String,
    pub ctx_switches: u64,
    pub interrupts: u64,
}

impl Snapshot {
    /// The snapshot before any sample arrived: everything empty or zero.
    pub open spec fn spec_empty(self) -> bool {
        &&& self.mem == Mem::default_spec()
        &&& self.conns@.len() == 0
        &&& self.top_cpu@.len() == 0
        &&& self.top_mem@.len() == 0
        &&& self.proc_total == 0
        &&& self.hostname@.len() == 0
        &&& self.kernel@.len() == 0
        &&& self.ctx_switches == 0
        &&& self.interrupts == 0
    }

    /// An empty snapshot.
    pub fn empty() -> (s: Snapshot)
        ensures
            s.spec_empty(),
    {
        Snapshot {
            mem: Mem::zero(),
            conns: Vec::new(),
            top_cpu: Vec::new(),
            top_mem: Vec::new(),
            proc_total: 0,
            hostname: String::new(),
            kernel: String::new(),
            ctx_switches: 0,
            interrupts: 0,
        }
    }
}

impl Mem {
    /// All figures zero.
    pub open spec fn default_spec() -> Mem {
        Mem {
            total_kb: 0,
            used_kb: 0,
            available_kb: 0,
            buffers_kb: 0,
            cached_kb: 0,
            swap_total_kb: 0,
            swap_used_kb: 0,
        }
    }

    /// All figures zero.
    pub fn zero() -> (m: Mem)
        ensures
            m == Mem::default_spec(),
    {
        Mem {
            total_kb: 0,
            used_kb: 0,
            available_kb: 0,
            buffers_kb: 0,
            cached_kb: 0,
            swap_total_kb: 0,
            swap_used_kb: 0,
        }
    }
}

/// The values of one sample that the history windows record, already
/// rounded to whole units: CPU and memory use in percent, throughput in
/// KiB/s.
#[derive(Clone, Copy, PartialEq, Eq, Structural, Debug)]
pub struct Reading {
    pub cpu_percent: u64,
    pub mem_percent: u64,
    pub rx_kib: u64,
    pub tx_kib: u64,
    pub disk_read_kib: u64,
    pub disk_write_kib: u64,
}

/// The order key of a 64-bit float given by its bit pattern: keys compare as
/// the floats do (`f64::total_cmp`). Non-negative floats keep their bits with
/// the top bit set; negative ones have all bits flipped.
pub open spec fn order_key(bits: u64) -> u64 {
    if bits >> 63u64 == 0 {
        bits | 0x8000_0000_0000_0000
    } else {
        !bits
    }
}

/// The bit pattern of the float with a given order key.
pub open spec fn bits_of_key(key: u64) -> u64 {
    if key >> 63u64 == 1 {
        key & 0x7fff_ffff_ffff_ffff
    } else {
        !key
    }
}

/// The order key of a float's bit pattern.
pub fn order_key_of_bits(bits: u64) -> (k: u64)
    ensures
        k == order_key(bits),
{
    if bits >> 63u64 == 0 {
        bits | 0x8000_0000_0000_0000
    } else {
        !bits
    }
}

/// The float bit pattern behind an order key.
pub fn bits_of_order_key(key: u64) -> (b: u64)
    ensures
        b == bits_of_key(key),
{
    if key >> 63u64 == 1 {
        key & 0x7fff_ffff_ffff_ffff
    } else {
        !key
    }
}

/// Order keys lose nothing: the bit pattern comes back, and non-negative
/// floats (top bit clear) order by key as by their bits, above every
/// negative one.
pub proof fn lemma_order_key(bits: u64, other: u64)
    ensures
        bits_of_key(order_key(bits)) == bits,
        bits >> 63u64 == 0 && other >> 63u64 == 0 ==> (order_key(bits) < order_key(other) <==> bits
            < other),
        bits >> 63u64 == 0 && other >> 63u64 == 1 ==> order_key(other) < order_key(bits),
        bits >> 63u64 == 1 && other >> 63u64 == 1 ==> (order_key(bits) < order_key(other) <==> bits
            > other),
{
    assert(bits >> 63u64 == 0 || bits >> 63u64 == 1) by (bit_vector);
    assert(bits >> 63u64 == 0 ==> (bits | 0x8000_0000_0000_0000) >> 63u64 == 1 && ((bits
        | 0x8000_0000_0000_0000) & 0x7fff_ffff_ffff_ffff) == bits) by (bit_vector);
    assert(bits >> 63u64 == 1 ==> (!bits) >> 63u64 == 0 && !(!bits) == bits) by (bit_vector);
    assert(bits >> 63u64 == 0 && other >> 63u64 == 0 ==> ((bits | 0x8000_0000_0000_0000) < (other
        | 0x8000_0000_0000_0000) <==> bits < other)) by (bit_vector);
    assert(bits >> 63u64 == 0 && other >> 63u64 == 1 ==> !other < (bits | 0x8000_0000_0000_0000))
        by (bit_vector);
    assert(bits >> 63u64 == 1 && other >> 63u64 == 1 ==> (!bits < !other <==> bits > other))
        by (bit_vector);
}

/// The number of valid entries of a fixed-capacity record array whose fill
/// count the sampler reports as `count`: a negative count is none, and the
/// count never passes the capacity.
pub open spec fn visible(count: int, cap: int) -> int {
    if count <= 0 {
        0
    } else if count < cap {
        count
    } else {
        cap
    }
}

/// How many entries of a record array of capacity `cap` to read.
pub fn visible_count(count: i32, cap: usize) -> (n: usize)
    ensures
        n == visible(count as int, cap as int),
{
    if count <= 0 {
        0
    } else if (count as usize) < cap {
        count as usize
    } else {
        cap
    }
}

/// The bytes of a NUL-terminated C string held in a fixed buffer: those
/// before the first NUL, or the whole buffer when it holds none.
pub open spec fn c_bytes(buf: Seq<i8>) -> Seq<u8>
    decreases buf.len(),
{
    if buf.len() == 0 || buf[0] == 0 {
        Seq::empty()
    } else {
        seq![buf[0] as u8] + c_bytes(buf.drop_first())
    }
}

/// The text of a NUL-terminated C string held in a fixed buffer, invalid
/// UTF-8 replaced.
pub fn c_str(buf: &[i8]) -> (s: String)
    ensures
        s@ == utf8_lossy(c_bytes(buf@)),
{
    let mut bytes: Vec<u8> = Vec::new();
    let mut i: usize = 0;
    assert(buf@.skip(0) =~= buf@);
    while i < buf.len() && buf[i] != 0
        invariant
            i <= buf@.len(),
            bytes@ + c_bytes(buf@.skip(i as int)) == c_bytes(buf@),
        decreases buf@.len() - i,
    {
        assert(buf@.skip(i as int).drop_first() =~= buf@.skip(i + 1));
        assert(bytes@.push(buf[i as int] as u8) + c_bytes(buf@.skip(i + 1)) =~= bytes@ + c_bytes(
            buf@.skip(i as int),
        ));
        bytes.push(buf[i] as u8);
        i = i + 1;
    }
    assert(c_bytes(buf@.skip(i as int)) =~= Seq::<u8>::empty());
    assert(bytes@ =~= c_bytes(buf@));
    from_utf8_lossy(bytes.as_slice())
}

/// A C string ends at its first NUL: its bytes are those in front of it,
/// read as unsigned bytes.
pub proof fn lemma_c_bytes_prefix(buf: Seq<i8>, n: int)
    requires
        0 <= n <= buf.len(),
        n < buf.len() ==> buf[n] == 0,
        forall|k: int| 0 <= k < n ==> buf[k] != 0,
    ensures
        c_bytes(buf).len() == n,
        forall|k: int| 0 <= k < n ==> #[trigger] c_bytes(buf)[k] == buf[k] as u8,
    decreases n,
{
    if n > 0 {
        let t = buf.drop_first();
        assert forall|k: int| 0 <= k < n - 1 implies t[k] != 0 by {
            assert(t[k] == buf[k + 1]);
        }
        if n < buf.len() {
            assert(t[n - 1] == buf[n]);
        }
        lemma_c_bytes_prefix(t, n - 1);
        assert forall|k: int| 0 <= k < n implies #[trigger] c_bytes(buf)[k] == buf[k] as u8 by {
            if k > 0 {
                assert(c_bytes(buf)[k] == c_bytes(t)[k - 1]);
                assert(t[k - 1] == buf[k]);
            }
        }
    }
}

/// The number of entries read never passes the capacity nor the reported
/// count, and is never negative.
pub proof fn lemma_visible_bounds(count: int, cap: int)
    requires
        cap >= 0,
    ensures
        0 <= visible(count, cap) <= cap,
        visible(count, cap) <= if count > 0 {
            count
        } else {
            0
        },
{
}

/// A signal that the process table can send to a process.
#[derive(Clone, Copy, PartialEq, Eq, Structural, Debug)]
pub enum Signal {
    Term,
    Kill,
    Int,
    Hup,
}

/// `libc::SIGTERM`; the crate defines it as 15 for Linux targets.
#[verifier::external_body]
fn sigterm() -> (n: i32)
    ensures
        n == 15,
{
    libc::SIGTERM
}

/// `libc::SIGKILL`; the crate defines it as 9 for Linux targets.
#[verifier::external_body]
fn sigkill() -> (n: i32)
    ensures
        n == 9,
{
    libc::SIGKILL
}

/// `libc::SIGINT`; the crate defines it as 2 for Linux targets.
#[verifier::external_body]
fn sigint() -> (n: i32)
    ensures
        n == 2,
{
    libc::SIGINT
}

/// `libc::SIGHUP`; the crate defines it as 1 for Linux targets.
#[verifier::external_body]
fn sighup() -> (n: i32)
    ensures
        n == 1,
{
    libc::SIGHUP
}

impl Signal {
    /// The POSIX signal number on Linux.
    pub open spec fn spec_number(self) -> int {
        match self {
            Signal::Term => 15,
            Signal::Kill => 9,
            Signal::Int => 2,
            Signal::Hup => 1,
        }
    }

    /// The number that is handed to `kill(2)` for this signal.
    pub fn number(self) -> (n: i32)
        ensures
            n == self.spec_number(),
    {
        match self {
            Signal::Term => sigterm(),
            Signal::Kill => sigkill(),
            Signal::Int => sigint(),
            Signal::Hup => sighup(),
        }
    }
}

} // verus!

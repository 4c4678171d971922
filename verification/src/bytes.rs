//! Fixed-width integers and byte runs at given offsets of a byte image.

use vstd::prelude::*;
use vstd::slice::{slice_subrange, slice_to_vec};

verus! {

/// Byte order of the multi-byte integers in an archive.
#[derive(Clone, Copy, Debug, PartialEq, Eq, Structural)]
pub enum Endian {
    Big,
    Little,
}

/// The `n` bytes from `at` on lie inside `s`.
pub open spec fn spec_in_bounds(s: Seq<u8>, at: int, n: int) -> bool {
    0 <= at && 0 <= n && at + n <= s.len()
}

/// The 16-bit integer stored at `at`.
pub open spec fn spec_u16(s: Seq<u8>, at: int, e: Endian) -> u16 {
    match e {
        Endian::Little => (s[at] as int + 0x100 * (s[at + 1] as int)) as u16,
        Endian::Big => (0x100 * (s[at] as int) + s[at + 1] as int) as u16,
    }
}

/// The 32-bit integer stored at `at`.
pub open spec fn spec_u32(s: Seq<u8>, at: int, e: Endian) -> u32 {
    match e {
        Endian::Little => (spec_u16(s, at, e) as int + 0x1_0000 * (spec_u16(s, at + 2, e) as int)) as u32,
        Endian::Big => (0x1_0000 * (spec_u16(s, at, e) as int) + spec_u16(s, at + 2, e) as int) as u32,
    }
}

/// The 64-bit integer stored at `at`.
pub open spec fn spec_u64(s: Seq<u8>, at: int, e: Endian) -> u64 {
    match e {
        Endian::Little => (spec_u32(s, at, e) as int + 0x1_0000_0000 * (spec_u32(s, at + 4, e) as int)) as u64,
        Endian::Big => (0x1_0000_0000 * (spec_u32(s, at, e) as int) + spec_u32(s, at + 4, e) as int) as u64,
    }
}

/// Whether `n` bytes can be read at `at`.
pub fn in_bounds(data: &[u8], at: usize, n: usize) -> (b: bool)
    ensures
        b == spec_in_bounds(data@, at as int, n as int),
        b ==> at + n <= usize::MAX,
{
    n <= data.len() && at <= data.len() - n
}

/// Reads a 16-bit integer, or nothing when it would reach past the end.
pub fn read_u16(data: &[u8], at: usize, e: Endian) -> (r: Option<u16>)
    ensures
        r == if spec_in_bounds(data@, at as int, 2) {
            Some(spec_u16(data@, at as int, e))
        } else {
            None
        },
{
    if !in_bounds(data, at, 2) {
        return None;
    }
    let a: u16 = data[at] as u16;
    let b: u16 = data[at + 1] as u16;
    match e {
        Endian::Little => Some(a + 0x100 * b),
        Endian::Big => Some(0x100 * a + b),
    }
}

/// Reads a 32-bit integer, or nothing when it would reach past the end.
pub fn read_u32(data: &[u8], at: usize, e: Endian) -> (r: Option<u32>)
    ensures
        r == if spec_in_bounds(data@, at as int, 4) {
            Some(spec_u32(data@, at as int, e))
        } else {
            None
        },
{
    if !in_bounds(data, at, 4) {
        return None;
    }
    let a: u32 = match read_u16(data, at, e) {
        Some(v) => v as u32,
        None => 0,
    };
    let b: u32 = match read_u16(data, at + 2, e) {
        Some(v) => v as u32,
        None => 0,
    };
    match e {
        Endian::Little => Some(a + 0x1_0000 * b),
        Endian::Big => Some(0x1_0000 * a + b),
    }
}

/// Reads a 64-bit integer, or nothing when it would reach past the end.
pub fn read_u64(data: &[u8], at: usize, e: Endian) -> (r: Option<u64>)
    ensures
        r == if spec_in_bounds(data@, at as int, 8) {
            Some(spec_u64(data@, at as int, e))
        } else {
            None
        },
{
    if !in_bounds(data, at, 8) {
        return None;
    }
    let a: u64 = match read_u32(data, at, e) {
        Some(v) => v as u64,
        None => 0,
    };
    let b: u64 = match read_u32(data, at + 4, e) {
        Some(v) => v as u64,
        None => 0,
    };
    match e {
        Endian::Little => Some(a + 0x1_0000_0000 * b),
        Endian::Big => Some(0x1_0000_0000 * a + b),
    }
}

/// Copies `N` bytes from `at` into an array, or nothing when they reach past
/// the end.
pub fn read_array<const N: usize>(data: &[u8], at: usize) -> (r: Option<[u8; N]>)
    ensures
        r is Some <==> spec_in_bounds(data@, at as int, N as int),
        r matches Some(a) ==> a@ == data@.subrange(at as int, at + N),
{
    if !in_bounds(data, at, N) {
        return None;
    }
    let mut out: [u8; N] = vstd::array::array_fill_for_copy_types(0u8);
    let mut i: usize = 0;
    while i < N
        invariant
            i <= N,
            at + N <= data.len(),
            forall|j: int| 0 <= j < i ==> out@[j] == data@[at + j],
        decreases N - i,
    {
        out[i] = data[at + i];
        i = i + 1;
    }
    assert(out@ =~= data@.subrange(at as int, at + N));
    Some(out)
}

/// The bytes of `s` from `at` up to the first zero byte, when there is one.
pub open spec fn spec_c_string(s: Seq<u8>, at: int) -> Option<Seq<u8>> {
    if 0 <= at <= s.len() && exists|k: int| at <= k < s.len() && s[k] == 0 {
        let end = choose|k: int|
            at <= k < s.len() && s[k] == 0 && forall|j: int| at <= j < k ==> s[j] != 0;
        Some(s.subrange(at, end))
    } else {
        None
    }
}

/// Copies the zero-terminated byte string that starts at `at`, without its
/// terminator; nothing when `at` is past the end or no zero byte follows.
pub fn read_c_string(data: &[u8], at: usize) -> (r: Option<Vec<u8>>)
    ensures
        match r {
            Some(v) => {
                &&& spec_c_string(data@, at as int) == Some(v@)
                &&& at + v@.len() < data@.len()
                &&& data@[at + v@.len()] == 0
                &&& forall|j: int| 0 <= j < v@.len() ==> v@[j] != 0
            },
            None => spec_c_string(data@, at as int) is None,
        },
{
    if at > data.len() {
        return None;
    }
    let mut end: usize = at;
    while end < data.len() && data[end] != 0
        invariant
            at <= end <= data.len(),
            forall|j: int| at <= j < end ==> data@[j] != 0,
        decreases data.len() - end,
    {
        end = end + 1;
    }
    if end >= data.len() {
        return None;
    }
    proof {
        let s = data@;
        let a = at as int;
        let k = end as int;
        assert(a <= k < s.len() && s[k] == 0 && forall|j: int| a <= j < k ==> s[j] != 0);
        let c = choose|k: int|
            a <= k < s.len() && s[k] == 0 && forall|j: int| a <= j < k ==> s[j] != 0;
        assert(c == k) by {
            if c < k {
                assert(s[c] != 0);
            }
            if k < c {
                assert(s[k] != 0);
            }
        }
    }
    Some(slice_to_vec(slice_subrange(data, at, end)))
}


/// The first index from `from` on at which `s` holds `b`; the length of `s`
/// when there is none.
pub open spec fn spec_find(s: Seq<u8>, b: u8, from: int) -> int
    decreases s.len() - from,
{
    if from >= s.len() {
        s.len() as int
    } else if from >= 0 && s[from] == b {
        from
    } else {
        spec_find(s, b, from + 1)
    }
}

/// `spec_find` gives the least index at or after `from` that holds `b`.
pub proof fn lemma_find(s: Seq<u8>, b: u8, from: int)
    requires
        0 <= from <= s.len(),
    ensures
        from <= spec_find(s, b, from) <= s.len(),
        spec_find(s, b, from) < s.len() ==> s[spec_find(s, b, from)] == b,
        forall|j: int| from <= j < spec_find(s, b, from) ==> s[j] != b,
    decreases s.len() - from,
{
    if from < s.len() && s[from] != b {
        lemma_find(s, b, from + 1);
    }
}

/// Finds the first index from `from` on at which `data` holds `b`.
pub fn find(data: &[u8], b: u8, from: usize) -> (r: usize)
    requires
        from <= data@.len(),
    ensures
        r == spec_find(data@, b, from as int),
        from <= r <= data@.len(),
{
    let mut i: usize = from;
    while i < data.len() && data[i] != b
        invariant
            from <= i <= data.len(),
            spec_find(data@, b, from as int) == spec_find(data@, b, i as int),
        decreases data.len() - i,
    {
        i = i + 1;
    }
    proof {
        lemma_find(data@, b, from as int);
    }
    i
}


/// Reads the 16-bit integer at `at`, which lies inside the image.
pub fn get_u16(data: &[u8], at: usize, e: Endian) -> (r: u16)
    requires
        spec_in_bounds(data@, at as int, 2),
    ensures
        r == spec_u16(data@, at as int, e),
{
    match read_u16(data, at, e) {
        Some(v) => v,
        None => 0,
    }
}

/// Reads the 32-bit integer at `at`, which lies inside the image.
pub fn get_u32(data: &[u8], at: usize, e: Endian) -> (r: u32)
    requires
        spec_in_bounds(data@, at as int, 4),
    ensures
        r == spec_u32(data@, at as int, e),
{
    match read_u32(data, at, e) {
        Some(v) => v,
        None => 0,
    }
}

/// Reads the 64-bit integer at `at`, which lies inside the image.
pub fn get_u64(data: &[u8], at: usize, e: Endian) -> (r: u64)
    requires
        spec_in_bounds(data@, at as int, 8),
    ensures
        r == spec_u64(data@, at as int, e),
{
    match read_u64(data, at, e) {
        Some(v) => v,
        None => 0,
    }
}

/// Copies the `N` bytes at `at`, which lie inside the image.
pub fn get_array<const N: usize>(data: &[u8], at: usize) -> (r: [u8; N])
    requires
        spec_in_bounds(data@, at as int, N as int),
    ensures
        r@ == data@.subrange(at as int, at + N),
{
    match read_array::<N>(data, at) {
        Some(v) => v,
        None => vstd::array::array_fill_for_copy_types(0u8),
    }
}

/// The bytes without the zero bytes at their end.
pub open spec fn spec_trim_nul(s: Seq<u8>) -> Seq<u8>
    decreases s.len(),
{
    if s.len() > 0 && s.last() == 0 {
        spec_trim_nul(s.drop_last())
    } else {
        s
    }
}

/// Copies `n` bytes from `at`, which lie inside the image, without the zero
/// bytes at their end.
pub fn get_trimmed(data: &[u8], at: usize, n: usize) -> (r: Vec<u8>)
    requires
        spec_in_bounds(data@, at as int, n as int),
    ensures
        r@ == spec_trim_nul(data@.subrange(at as int, at + n)),
{
    let len: usize = data.len();
    let mut end: usize = n;
    assert(data@.subrange(at as int, at + n) =~= data@.subrange(at as int, at + end));
    while end > 0 && data[at + end - 1] == 0
        invariant
            end <= n,
            at + n <= data@.len() == len,
            spec_trim_nul(data@.subrange(at as int, at + n)) == spec_trim_nul(data@.subrange(at as int, at + end)),
        decreases end,
    {
        proof {
            assert(data@.subrange(at as int, at + end).drop_last() =~= data@.subrange(at as int, at + end - 1));
        }
        end = end - 1;
    }
    slice_to_vec(slice_subrange(data, at, at + end))
}

/// The place of a table that is reached through a reference at `at`: the
/// reference holds the number of records and then, as a signed 64-bit
/// number, the distance from that number's own place to a sixteen-byte
/// table header, after which the records follow. Nothing when the reference
/// reaches past the end of the image or the place would lie before its
/// start.
pub open spec fn spec_table_ref(s: Seq<u8>, at: int, e: Endian) -> Option<(u64, int)> {
    if spec_in_bounds(s, at, 16) {
        let distance = spec_u64(s, at + 8, e);
        let signed: int = if distance < 0x8000_0000_0000_0000 {
            distance as int
        } else {
            distance - 0x1_0000_0000_0000_0000
        };
        let place = at + 8 + signed + 16;
        if place >= 0 {
            Some((spec_u64(s, at, e), place))
        } else {
            None
        }
    } else {
        None
    }
}

/// Follows a table reference to a place inside the image. Nothing when the
/// reference cannot be read or the place lies outside the image.
pub fn follow_table_ref(data: &[u8], at: usize, e: Endian) -> (r: Option<(u64, usize)>)
    ensures
        match r {
            Some((count, place)) => spec_table_ref(data@, at as int, e) == Some((count, place as int))
                && place <= data@.len(),
            None => spec_table_ref(data@, at as int, e) matches Some((c, p)) ==> p > data@.len(),
        },
{
    if !in_bounds(data, at, 16) {
        return None;
    }
    let len: usize = data.len();
    let count: u64 = get_u64(data, at, e);
    let distance: u64 = get_u64(data, at + 8, e);
    let origin: usize = at + 8;
    let room: usize = len - origin;
    if distance < 0x8000_0000_0000_0000 {
        if room < 16 || distance > (room - 16) as u64 {
            return None;
        }
        Some((count, origin + 16 + distance as usize))
    } else {
        let back: u64 = u64::MAX - distance + 1;
        if back <= 16 {
            let forward: usize = (16 - back) as usize;
            if forward > room {
                return None;
            }
            Some((count, origin + forward))
        } else {
            let rest: u64 = back - 16;
            if rest > origin as u64 {
                return None;
            }
            Some((count, origin - rest as usize))
        }
    }
}

} // verus!

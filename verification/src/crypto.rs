//! The per-archive state for opening encrypted blocks: the two built-in
//! keys, the nonce derived from the archive id, and a key registered for the
//! archive's group.

use std::collections::HashMap;
use aes_gcm::{AeadInPlace, Aes128Gcm, KeyInit};
use vstd::prelude::*;
use vstd::slice::slice_subrange;
use vstd::string::StringSliceAdditionalSpecFns;
use crate::bytes::{find, spec_find};
use crate::error::PkgError;
use crate::text::{parse_unsigned, spec_digit, spec_parse_unsigned};
use crate::version::{GameVersion, Version};

verus! {

broadcast use vstd::std_specs::hash::group_hash_axioms;

/// The block flag that marks a compressed block.
pub const FLAG_COMPRESSED: u16 = 0x1;

/// The block flag that marks an encrypted block.
pub const FLAG_ENCRYPTED: u16 = 0x2;

/// The block flag that selects the second built-in key.
pub const FLAG_ALT_KEY: u16 = 0x4;

/// The block flag that selects the key registered for the archive's group.
pub const FLAG_GROUP_KEY: u16 = 0x8;

/// What AES-128-GCM with a 96-bit nonce, a 128-bit tag and no associated
/// data opens `sealed` to under `key` and `nonce`; nothing when `tag` does
/// not authenticate it or `sealed` is longer than the mode allows.
pub uninterp spec fn aes128_gcm_open(key: Seq<u8>, nonce: Seq<u8>, tag: Seq<u8>, sealed: Seq<u8>) -> Option<Seq<u8>>;

/// Calls `decrypt_in_place_detached` of `aes_gcm::Aes128Gcm`, on a cipher
/// made by `new` from `key`, with no associated data. The call refuses a
/// buffer that is too long for the mode; else it computes the tag of the
/// buffer and compares it with `tag`: when they agree it replaces the buffer
/// by the plain text and succeeds, else it leaves the buffer as it was and
/// fails. The buffer keeps its length either way. What it computes is a
/// function of key, nonce, tag and buffer alone.
#[verifier::external_body]
fn aes128_gcm_decrypt(key: &[u8; 16], nonce: &[u8; 12], tag: &[u8; 16], data: &mut Vec<u8>) -> (ok: bool)
    ensures
        final(data)@.len() == old(data)@.len(),
        ok == aes128_gcm_open(key@, nonce@, tag@, old(data)@).is_some(),
        final(data)@ == match aes128_gcm_open(key@, nonce@, tag@, old(data)@) {
            Some(plain) => plain,
            None => old(data)@,
        },
{
    let cipher = Aes128Gcm::new(key.into());
    cipher.decrypt_in_place_detached(nonce.into(), &[], data.as_mut_slice(), tag.into()).is_ok()
}

/// A key registered for a group of archives.
#[derive(Clone, Copy, Debug)]
pub struct GroupKey {
    pub key: [u8; 16],
    pub iv: [u8; 12],
}

/// The keys registered by group id.
pub struct KeyTable {
    keys: HashMap<u64, GroupKey>,
}

impl KeyTable {
    /// The registered keys by group id.
    pub closed spec fn view(&self) -> Map<u64, GroupKey> {
        self.keys@
    }

    /// A table without keys.
    pub fn new() -> (t: KeyTable)
        ensures
            t@ == Map::<u64, GroupKey>::empty(),
    {
        KeyTable { keys: HashMap::new() }
    }

    /// The key registered for `group`, when there is one.
    pub fn get(&self, group: u64) -> (r: Option<GroupKey>)
        ensures
            r == if self@.contains_key(group) {
                Some(self@[group])
            } else {
                None
            },
    {
        match self.keys.get(&group) {
            Some(k) => Some(*k),
            None => None,
        }
    }

    /// The number of groups with a key.
    pub fn len(&self) -> (n: usize)
        ensures
            n == self@.len(),
    {
        self.keys.len()
    }

    /// A table of the given keys; of two for one group, the later stands.
    pub fn from_keys(keys: &Vec<(u64, [u8; 16], [u8; 12])>) -> (t: KeyTable)
        ensures
            t@ == spec_table_of(keys@, keys@.len() as int),
    {
        let mut t = KeyTable::new();
        let mut i: usize = 0;
        while i < keys.len()
            invariant
                i <= keys.len(),
                t@ == spec_table_of(keys@, i as int),
            decreases keys.len() - i,
        {
            register_pkg_key(&mut t, keys[i].0, keys[i].1, keys[i].2);
            i = i + 1;
        }
        t
    }
}

/// The table that holds the first `n` of `keys`, each registered in turn.
pub open spec fn spec_table_of(keys: Seq<(u64, [u8; 16], [u8; 12])>, n: int) -> Map<u64, GroupKey>
    decreases n,
{
    if n <= 0 {
        Map::empty()
    } else {
        spec_table_of(keys, n - 1).insert(
            keys[n - 1].0,
            GroupKey { key: keys[n - 1].1, iv: keys[n - 1].2 },
        )
    }
}

/// Registers `key` and `iv` for the archives of `group`, in place of what was
/// registered for it before.
pub fn register_pkg_key(table: &mut KeyTable, group: u64, key: [u8; 16], iv: [u8; 12])
    ensures
        final(table)@ == old(table)@.insert(group, GroupKey { key, iv }),
{
    table.keys.insert(group, GroupKey { key, iv });
}

/// The nonce of archive `pkg_id`: the base with the high byte of the id
/// folded into its first byte, the low byte into its last, and the
/// generation's marker as its second byte.
pub open spec fn spec_shift_nonce(base: Seq<u8>, pkg_id: u16, marker: u8) -> Seq<u8> {
    base.update(0, base[0] ^ ((pkg_id >> 8) as u8)).update(1, marker).update(
        11,
        base[11] ^ (pkg_id as u8),
    )
}

/// The second nonce byte of a generation.
pub open spec fn spec_nonce_marker(version: GameVersion) -> u8 {
    match version {
        GameVersion::Destiny(v) => v.spec_nonce_marker(),
        GameVersion::Marathon(_) => 0xea,
    }
}

/// The state for opening the encrypted blocks of one archive.
pub struct PkgGcmState {
    nonce: [u8; 12],
    key_0: [u8; 16],
    key_1: [u8; 16],
    key_extra: Option<GroupKey>,
    group: u64,
}

impl PkgGcmState {
    /// The nonce used with the built-in keys.
    pub closed spec fn nonce(&self) -> Seq<u8> {
        self.nonce@
    }

    /// The first built-in key.
    pub closed spec fn key_0(&self) -> Seq<u8> {
        self.key_0@
    }

    /// The second built-in key.
    pub closed spec fn key_1(&self) -> Seq<u8> {
        self.key_1@
    }

    /// The key registered for the archive's group when the state was made.
    pub closed spec fn key_extra(&self) -> Option<GroupKey> {
        self.key_extra
    }

    /// The group id of the archive.
    pub closed spec fn group(&self) -> u64 {
        self.group
    }

    /// The state for archive `pkg_id` of the given generation and group,
    /// with the group's key as `keys` holds it now.
    pub fn new(pkg_id: u16, version: GameVersion, group: u64, keys: &KeyTable) -> (g: PkgGcmState)
        ensures
            g.nonce() == spec_shift_nonce(version.spec_nonce_base(), pkg_id, spec_nonce_marker(version)),
            g.key_0() == version.spec_key_0(),
            g.key_1() == version.spec_key_1(),
            g.key_extra() == if keys@.contains_key(group) {
                Some(keys@[group])
            } else {
                None
            },
            g.group() == group,
    {
        let mut g = PkgGcmState {
            nonce: version.aes_nonce_base(),
            key_0: version.aes_key_0(),
            key_1: version.aes_key_1(),
            key_extra: keys.get(group),
            group,
        };
        g.shift_nonce(pkg_id, version);
        g
    }

    fn shift_nonce(&mut self, pkg_id: u16, version: GameVersion)
        ensures
            final(self).nonce@ == spec_shift_nonce(old(self).nonce@, pkg_id, spec_nonce_marker(version)),
            final(self).key_0 == old(self).key_0,
            final(self).key_1 == old(self).key_1,
            final(self).key_extra == old(self).key_extra,
            final(self).group == old(self).group,
    {
        let marker: u8 = match version {
            GameVersion::Destiny(v) => v.nonce_marker(),
            GameVersion::Marathon(_) => 0xea,
        };
        let mut nonce: [u8; 12] = self.nonce;
        nonce[0] = nonce[0] ^ ((pkg_id >> 8) as u8);
        nonce[1] = marker;
        nonce[11] = nonce[11] ^ (pkg_id as u8);
        self.nonce = nonce;
        assert(self.nonce@ =~= spec_shift_nonce(old(self).nonce@, pkg_id, spec_nonce_marker(version)));
    }

    /// What opening a block with the given flags and tag comes to: the plain
    /// text, or the error.
    ///
    /// With the group-key flag the registered key and its nonce are used, and
    /// any failure is `RedactedUnavailable`. Without it the second built-in
    /// key is used when its flag is set, else the first, with the archive's
    /// nonce, and a failure is `DecryptFailed`.
    pub open spec fn spec_decrypt(&self, flags: u16, tag: Seq<u8>, sealed: Seq<u8>) -> Result<
        Seq<u8>,
        PkgError,
    > {
        if flags & FLAG_GROUP_KEY != 0 {
            match self.key_extra() {
                Some(k) => match aes128_gcm_open(k.key@, k.iv@, tag, sealed) {
                    Some(plain) => Ok(plain),
                    None => Err(PkgError::RedactedUnavailable),
                },
                None => Err(PkgError::RedactedUnavailable),
            }
        } else {
            let key = if flags & FLAG_ALT_KEY != 0 {
                self.key_1()
            } else {
                self.key_0()
            };
            match aes128_gcm_open(key, self.nonce(), tag, sealed) {
                Some(plain) => Ok(plain),
                None => Err(PkgError::DecryptFailed),
            }
        }
    }

    /// Opens an encrypted block in place. On failure the data is left as it
    /// was.
    pub fn decrypt_block_in_place(&self, flags: u16, tag: &[u8; 16], data: &mut Vec<u8>) -> (r: Result<
        (),
        PkgError,
    >)
        ensures
            final(data)@.len() == old(data)@.len(),
            match r {
                Ok(()) => self.spec_decrypt(flags, tag@, old(data)@) == Ok::<Seq<u8>, PkgError>(final(data)@),
                Err(e) => self.spec_decrypt(flags, tag@, old(data)@) == Err::<Seq<u8>, PkgError>(e)
                    && final(data)@ == old(data)@,
            },
    {
        if (flags & FLAG_GROUP_KEY) != 0 {
            match &self.key_extra {
                Some(k) => {
                    if aes128_gcm_decrypt(&k.key, &k.iv, tag, data) {
                        return Ok(());
                    }
                },
                None => {},
            }
            return Err(PkgError::RedactedUnavailable);
        }
        let ok: bool = if (flags & FLAG_ALT_KEY) != 0 {
            aes128_gcm_decrypt(&self.key_1, &self.nonce, tag, data)
        } else {
            aes128_gcm_decrypt(&self.key_0, &self.nonce, tag, data)
        };
        if ok {
            Ok(())
        } else {
            Err(PkgError::DecryptFailed)
        }
    }
}

/// What `hex::decode` gives for a text: nothing when its length is odd or a
/// byte is no hexadecimal digit, else the bytes that the pairs of digits
/// write.
pub open spec fn spec_hex_decode(s: Seq<u8>) -> Option<Seq<u8>> {
    if s.len() % 2 != 0 {
        None
    } else if forall|i: int| 0 <= i < s.len() ==> spec_digit(#[trigger] s[i], 16) is Some {
        Some(
            Seq::new(
                s.len() / 2,
                |i: int| (16 * spec_digit(s[2 * i], 16)->0 + spec_digit(s[2 * i + 1], 16)->0) as u8,
            ),
        )
    } else {
        None
    }
}

/// Calls `hex::decode`. It refuses a text of odd length and one with a byte
/// other than `0-9`, `a-f`, `A-F`; else it gives one byte for each pair of
/// digits, the first digit being the high half.
#[verifier::external_body]
fn hex_decode(text: &[u8]) -> (r: Option<Vec<u8>>)
    ensures
        match r {
            Some(v) => spec_hex_decode(text@) == Some(v@),
            None => spec_hex_decode(text@) is None,
        },
{
    hex::decode(text).ok()
}

/// The lines of a text as `str::lines` gives them: the text is cut after
/// every line feed, the line feed is dropped from each piece and one
/// carriage return before it too; a last piece without line feed is kept
/// whole.
pub open spec fn spec_lines(s: Seq<u8>) -> Seq<Seq<u8>>
    decreases s.len(),
{
    if s.len() == 0 {
        Seq::empty()
    } else {
        let n = spec_find(s, 0x0a, 0);
        if n < 0 || n >= s.len() {
            seq![s]
        } else {
            seq![spec_strip_cr(s.subrange(0, n))] + spec_lines(s.subrange(n + 1, s.len() as int))
        }
    }
}

/// The line without one trailing carriage return.
pub open spec fn spec_strip_cr(line: Seq<u8>) -> Seq<u8> {
    if line.len() > 0 && line.last() == 0x0d {
        line.drop_last()
    } else {
        line
    }
}

/// The key that one line of a key file registers: `group:key:iv`, where the
/// group is a hexadecimal number, the key 32 hexadecimal digits and the iv
/// the first 24 bytes of what stands between the second colon and the next,
/// 24 hexadecimal digits. Nothing for any other line.
pub open spec fn spec_key_line(line: Seq<u8>) -> Option<(u64, Seq<u8>, Seq<u8>)> {
    let c1 = spec_find(line, 0x3a, 0);
    let c2 = spec_find(line, 0x3a, c1 + 1);
    let c3 = spec_find(line, 0x3a, c2 + 1);
    if c1 >= line.len() || c2 >= line.len() {
        None
    } else {
        let iv_end = if c3 - (c2 + 1) > 24 {
            c2 + 1 + 24
        } else {
            c3
        };
        match (
            spec_parse_unsigned(line.subrange(0, c1), 16, u64::MAX as int),
            spec_hex_decode(line.subrange(c1 + 1, c2)),
            spec_hex_decode(line.subrange(c2 + 1, iv_end)),
        ) {
            (Some(group), Some(key), Some(iv)) => if key.len() == 16 && iv.len() == 12 {
                Some((group as u64, key, iv))
            } else {
                None
            },
            _ => None,
        }
    }
}

/// The keys that the given lines register, in the order of the lines.
pub open spec fn spec_keys_of_lines(lines: Seq<Seq<u8>>) -> Seq<(u64, Seq<u8>, Seq<u8>)>
    decreases lines.len(),
{
    if lines.len() == 0 {
        Seq::empty()
    } else {
        match spec_key_line(lines[0]) {
            Some(k) => seq![k] + spec_keys_of_lines(lines.drop_first()),
            None => spec_keys_of_lines(lines.drop_first()),
        }
    }
}

/// The keys of a list as sequences of bytes.
pub open spec fn spec_keys_view(keys: Seq<(u64, [u8; 16], [u8; 12])>) -> Seq<(u64, Seq<u8>, Seq<u8>)> {
    Seq::new(keys.len(), |i: int| (keys[i].0, keys[i].1@, keys[i].2@))
}

fn array_of<const N: usize>(v: &Vec<u8>) -> (a: [u8; N])
    requires
        v@.len() == N,
    ensures
        a@ == v@,
{
    match crate::bytes::read_array::<N>(v.as_slice(), 0) {
        Some(a) => {
            assert(v@.subrange(0, N as int) =~= v@);
            a
        },
        None => vstd::array::array_fill_for_copy_types(0u8),
    }
}

/// Reads one line of a key file.
fn parse_key_line(line: &[u8]) -> (r: Option<(u64, [u8; 16], [u8; 12])>)
    ensures
        match r {
            Some(k) => spec_key_line(line@) == Some((k.0, k.1@, k.2@)),
            None => spec_key_line(line@) is None,
        },
{
    let len: usize = line.len();
    let c1: usize = find(line, 0x3a, 0);
    if c1 >= len {
        return None;
    }
    let c2: usize = find(line, 0x3a, c1 + 1);
    if c2 >= len {
        return None;
    }
    let c3: usize = find(line, 0x3a, c2 + 1);
    let iv_end: usize = if c3 - (c2 + 1) > 24 {
        c2 + 1 + 24
    } else {
        c3
    };
    let group: u64 = match parse_unsigned(slice_subrange(line, 0, c1), 16, u64::MAX) {
        Some(g) => g,
        None => {
            return None;
        },
    };
    let key: Vec<u8> = match hex_decode(slice_subrange(line, c1 + 1, c2)) {
        Some(k) => k,
        None => {
            return None;
        },
    };
    if key.len() != 16 {
        return None;
    }
    let iv: Vec<u8> = match hex_decode(slice_subrange(line, c2 + 1, iv_end)) {
        Some(v) => v,
        None => {
            return None;
        },
    };
    if iv.len() != 12 {
        return None;
    }
    Some((group, array_of::<16>(&key), array_of::<12>(&iv)))
}

/// Reads the keys of a key file, one per line, skipping every line that
/// does not register a key.
pub fn parse_keys(data: &str) -> (keys: Vec<(u64, [u8; 16], [u8; 12])>)
    ensures
        spec_keys_view(keys@) == spec_keys_of_lines(spec_lines(data.spec_bytes())),
{
    let bytes: &[u8] = data.as_bytes();
    let total: usize = bytes.len();
    let mut keys: Vec<(u64, [u8; 16], [u8; 12])> = Vec::new();
    let mut pos: usize = 0;
    assert(bytes@.subrange(0, total as int) =~= bytes@);
    assert(spec_keys_view(keys@) =~= Seq::empty());
    while pos < total
        invariant
            pos <= total == bytes@.len(),
            spec_keys_view(keys@) + spec_keys_of_lines(spec_lines(bytes@.subrange(pos as int, total as int)))
                == spec_keys_of_lines(spec_lines(bytes@)),
        decreases total - pos,
    {
        let rest: &[u8] = slice_subrange(bytes, pos, total);
        let n: usize = find(rest, 0x0a, 0);
        let ghost before = spec_keys_view(keys@);
        let ghost lines = spec_lines(rest@);
        let raw: &[u8] = slice_subrange(rest, 0, n);
        let line: &[u8] = if n < rest.len() && n > 0 && raw[n - 1] == 0x0d {
            slice_subrange(raw, 0, n - 1)
        } else {
            raw
        };
        let next: usize = if n < rest.len() {
            pos + n + 1
        } else {
            total
        };
        proof {
            if n < rest.len() {
                assert(line@ =~= spec_strip_cr(rest@.subrange(0, n as int)));
                assert(bytes@.subrange(next as int, total as int) =~= rest@.subrange(
                    n + 1,
                    rest@.len() as int,
                ));
            } else {
                assert(raw@ =~= rest@);
                assert(line@ == rest@);
                assert(spec_lines(bytes@.subrange(next as int, total as int)) =~= Seq::<Seq<u8>>::empty());
                assert(lines =~= seq![rest@] + Seq::<Seq<u8>>::empty());
            }
            assert(lines[0] == line@);
            assert(lines.drop_first() =~= spec_lines(bytes@.subrange(next as int, total as int)));
        }
        match parse_key_line(line) {
            Some(k) => {
                keys.push(k);
                proof {
                    assert(spec_keys_view(keys@) =~= before + seq![(k.0, k.1@, k.2@)]);
                    assert((before + seq![(k.0, k.1@, k.2@)]) + spec_keys_of_lines(lines.drop_first())
                        =~= before + (seq![(k.0, k.1@, k.2@)] + spec_keys_of_lines(lines.drop_first())));
                }
            },
            None => {},
        }
        pos = next;
    }
    proof {
        assert(bytes@.subrange(total as int, total as int) =~= Seq::<u8>::empty());
        assert(spec_keys_view(keys@) + Seq::<(u64, Seq<u8>, Seq<u8>)>::empty() =~= spec_keys_view(keys@));
    }
    keys
}

} // verus!

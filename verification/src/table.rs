//! Tables of fixed-size records in a byte image.

use vstd::prelude::*;
use crate::bytes::{follow_table_ref, spec_in_bounds, spec_table_ref, Endian};
use crate::error::PkgError;

verus! {

/// A record that is stored in a fixed number of bytes.
pub trait Record: Sized {
    /// The number of bytes that a record takes.
    spec fn spec_size() -> nat;

    /// Whether `self` is the record that the bytes from `at` on store.
    spec fn decodes(&self, s: Seq<u8>, at: int, e: Endian) -> bool;

    /// The bytes store one record only.
    proof fn decodes_one(a: Self, b: Self, s: Seq<u8>, at: int, e: Endian)
        requires
            a.decodes(s, at, e),
            b.decodes(s, at, e),
        ensures
            a == b,
    ;

    /// The number of bytes that a record takes.
    fn size() -> (n: usize)
        ensures
            n == Self::spec_size(),
            0 < n <= 0x1000,
    ;

    /// Reads the record stored from `at` on.
    fn decode(data: &[u8], at: usize, e: Endian) -> (r: Self)
        requires
            spec_in_bounds(data@, at as int, Self::spec_size() as int),
        ensures
            r.decodes(data@, at as int, e),
    ;
}

/// Whether `table` holds the `count` records stored back to back from
/// `offset` on.
pub open spec fn spec_is_table<T: Record>(table: Seq<T>, s: Seq<u8>, offset: int, count: int, e: Endian) -> bool {
    &&& table.len() == count
    &&& forall|i: int|
        0 <= i < count ==> (#[trigger] table[i]).decodes(s, offset + i * T::spec_size(), e)
}

/// The bytes of an image store one table only.
pub proof fn table_is_determined<T: Record>(a: Seq<T>, b: Seq<T>, s: Seq<u8>, offset: int, count: int, e: Endian)
    requires
        spec_is_table(a, s, offset, count, e),
        spec_is_table(b, s, offset, count, e),
    ensures
        a == b,
{
    assert forall|i: int| 0 <= i < count implies a[i] == b[i] by {
        T::decodes_one(a[i], b[i], s, offset + i * T::spec_size(), e);
    }
    assert(a =~= b);
}

/// Whether `count` records from `offset` on lie inside the image.
pub open spec fn spec_table_in_bounds<T: Record>(s: Seq<u8>, offset: int, count: int) -> bool {
    0 <= offset && 0 <= count && offset + count * T::spec_size() <= s.len()
}

/// Reads the `count` records stored back to back from `offset` on. Fails
/// with `TableOutOfBounds`, before it reads anything, exactly when the table
/// reaches past the end of the image.
pub fn read_table<T: Record>(data: &[u8], offset: usize, count: usize, e: Endian) -> (r: Result<
    Vec<T>,
    PkgError,
>)
    ensures
        match r {
            Ok(table) => spec_table_in_bounds::<T>(data@, offset as int, count as int) && spec_is_table(
                table@,
                data@,
                offset as int,
                count as int,
                e,
            ),
            Err(err) => err == PkgError::TableOutOfBounds && !spec_table_in_bounds::<T>(
                data@,
                offset as int,
                count as int,
            ),
        },
{
    let size: usize = T::size();
    let len: usize = data.len();
    if offset > len {
        proof {
            assert(count * T::spec_size() >= 0) by (nonlinear_arith)
                requires
                    count >= 0,
                    T::spec_size() >= 0,
            ;
        }
        return Err(PkgError::TableOutOfBounds);
    }
    if count > (len - offset) / size {
        proof {
            assert(count * size > len - offset) by (nonlinear_arith)
                requires
                    count > (len - offset) / (size as int),
                    size > 0,
                    len - offset >= 0,
            ;
        }
        return Err(PkgError::TableOutOfBounds);
    }
    proof {
        assert(count * size <= len - offset) by (nonlinear_arith)
            requires
                count <= (len - offset) / (size as int),
                size > 0,
                len - offset >= 0,
        ;
    }
    let mut table: Vec<T> = Vec::new();
    let mut i: usize = 0;
    while i < count
        invariant
            i <= count,
            size == T::spec_size(),
            size > 0,
            offset + count * size <= len == data@.len(),
            spec_is_table(table@, data@, offset as int, i as int, e),
        decreases count - i,
    {
        proof {
            assert(i * size + size <= count * size) by (nonlinear_arith)
                requires
                    i < count,
                    size > 0,
            ;
            assert(i * size >= 0) by (nonlinear_arith)
                requires
                    i >= 0,
                    size > 0,
            ;
        }
        let at: usize = offset + i * size;
        let record: T = T::decode(data, at, e);
        let ghost before = table@;
        table.push(record);
        proof {
            assert forall|k: int| 0 <= k < i + 1 implies (#[trigger] table@[k]).decodes(
                data@,
                offset + k * T::spec_size(),
                e,
            ) by {
                if k < i {
                    assert(table@[k] == before[k]);
                }
            }
        }
        i = i + 1;
    }
    Ok(table)
}

/// Whether the table behind the table reference at `at` lies inside the
/// image.
pub open spec fn spec_ref_table_in_bounds<T: Record>(s: Seq<u8>, at: int, e: Endian) -> bool {
    match spec_table_ref(s, at, e) {
        Some((count, place)) => spec_table_in_bounds::<T>(s, place, count as int),
        None => false,
    }
}

/// Whether `table` holds the records behind the table reference at `at`.
pub open spec fn spec_is_ref_table<T: Record>(table: Seq<T>, s: Seq<u8>, at: int, e: Endian) -> bool {
    match spec_table_ref(s, at, e) {
        Some((count, place)) => spec_is_table(table, s, place, count as int, e),
        None => false,
    }
}

/// Reads the records that a table reference at `at` leads to.
/// `TableOutOfBounds` exactly when the reference or the table reaches
/// outside the image.
pub fn read_ref_table<T: Record>(data: &[u8], at: usize, e: Endian) -> (r: Result<Vec<T>, PkgError>)
    ensures
        match r {
            Ok(table) => spec_ref_table_in_bounds::<T>(data@, at as int, e) && spec_is_ref_table(
                table@,
                data@,
                at as int,
                e,
            ),
            Err(err) => err == PkgError::TableOutOfBounds && !spec_ref_table_in_bounds::<T>(data@, at as int, e),
        },
{
    let len: usize = data.len();
    match follow_table_ref(data, at, e) {
        None => Err(PkgError::TableOutOfBounds),
        Some((count, place)) => {
            if count > len as u64 {
                let _size: usize = T::size();
                proof {
                    assert(count * T::spec_size() > len) by (nonlinear_arith)
                        requires
                            count > len,
                            T::spec_size() >= 1,
                            len >= 0,
                    ;
                }
                return Err(PkgError::TableOutOfBounds);
            }
            read_table::<T>(data, place, count as usize, e)
        },
    }
}

} // verus!

//! A plugin's linear memory as the hub sees it: every access is checked before
//! it is made, and a bad one is an answer, never a crash.

use vstd::prelude::*;
use vstd::slice::slice_subrange;
use vstd::string::*;
use vstd::utf8::*;

use crate::outside::utf8_text;
use crate::text::{char_boundary_end, clipped};

verus! {

broadcast use vstd::seq_lib::group_seq_properties;

/// A range is out of bounds, a text is no UTF-8, or a value is too large.
pub const ERR_BOUNDS: i32 = -1;

/// A range of the memory that can be read.
pub open spec fn readable(mem: Seq<u8>, ptr: i32, len: i32) -> bool {
    0 <= ptr && 0 <= len && ptr + len <= mem.len()
}

/// The bytes in a range of the memory.
pub open spec fn guest_bytes(mem: Seq<u8>, ptr: i32, len: i32) -> Option<Seq<u8>> {
    if readable(mem, ptr, len) {
        Some(mem.subrange(ptr as int, ptr + len))
    } else {
        None
    }
}

/// The text in a range of the memory.
pub open spec fn guest_text(mem: Seq<u8>, ptr: i32, len: i32) -> Option<Seq<char>> {
    match guest_bytes(mem, ptr, len) {
        Some(bytes) => if valid_utf8(bytes) {
            Some(decode_utf8(bytes))
        } else {
            None
        },
        None => None,
    }
}

/// The bytes can be written from `ptr` on.
pub open spec fn writable(mem: Seq<u8>, ptr: i32, bytes: Seq<u8>) -> bool {
    0 <= ptr && ptr + bytes.len() <= mem.len()
}

/// The memory with the bytes written from `ptr` on.
pub open spec fn written(mem: Seq<u8>, ptr: i32, bytes: Seq<u8>) -> Seq<u8> {
    mem.take(ptr as int) + bytes + mem.skip(ptr + bytes.len())
}

/// Reads `len` bytes from `ptr` on. `None` where they are not all there.
pub fn read_mem(mem: &[u8], ptr: i32, len: i32) -> (r: Option<Vec<u8>>)
    ensures
        match r {
            Some(v) => guest_bytes(mem@, ptr, len) == Some(v@),
            None => guest_bytes(mem@, ptr, len) is None,
        },
{
    if ptr < 0 || len < 0 {
        return None;
    }
    let start: usize = ptr as usize;
    let end: usize = match start.checked_add(len as usize) {
        Some(end) => end,
        None => {
            return None;
        },
    };
    if end > mem.len() {
        return None;
    }
    Some(vstd::slice::slice_to_vec(slice_subrange(mem, start, end)))
}

/// Reads a text of `len` bytes from `ptr` on. `None` where they are not all
/// there or are no UTF-8.
pub fn read_text(mem: &[u8], ptr: i32, len: i32) -> (r: Option<String>)
    ensures
        crate::db::opt_text(r) == guest_text(mem@, ptr, len),
{
    match read_mem(mem, ptr, len) {
        Some(bytes) => utf8_text(bytes),
        None => None,
    }
}

/// Writes bytes from `ptr` on. Where they do not fit, it returns false and
/// writes none.
pub fn write_mem(mem: &mut [u8], ptr: i32, bytes: &[u8]) -> (r: bool)
    ensures
        r == writable(old(mem)@, ptr, bytes@),
        final(mem)@ == (if r {
            written(old(mem)@, ptr, bytes@)
        } else {
            old(mem)@
        }),
{
    if ptr < 0 {
        return false;
    }
    let size: usize = mem.len();
    let start: usize = ptr as usize;
    let end: usize = match start.checked_add(bytes.len()) {
        Some(end) => end,
        None => {
            return false;
        },
    };
    if end > size {
        return false;
    }
    let ghost before = mem@;
    let mut i: usize = 0;
    while i < bytes.len()
        invariant
            i <= bytes@.len(),
            start + bytes@.len() == end,
            end <= mem@.len(),
            end <= usize::MAX,
            mem@.len() == before.len(),
            forall|j: int|
                0 <= j < mem@.len() ==> mem@[j] == (if start <= j < start + i {
                    bytes@[j - start]
                } else {
                    before[j]
                }),
        decreases bytes@.len() - i,
    {
        mem[start + i] = bytes[i];
        i = i + 1;
    }
    assert(mem@ =~= written(before, ptr, bytes@));
    true
}

/// The answer of a read into the plugin's memory, and the memory after it: the
/// longest front part of the value that fits `cap` bytes without cutting a
/// character, and how many bytes that is.
pub open spec fn copied_out(mem: Seq<u8>, value: Seq<char>, ptr: i32, cap: i32) -> (i32, Seq<u8>) {
    let bytes = encode_utf8(clipped(value, cap as int));
    if ptr < 0 || cap < 0 || !writable(mem, ptr, bytes) {
        (ERR_BOUNDS, mem)
    } else {
        (bytes.len() as i32, written(mem, ptr, bytes))
    }
}

/// Copies a value to the plugin, cut to `cap` bytes on a character boundary.
pub fn copy_out(mem: &mut [u8], value: &str, ptr: i32, cap: i32) -> (r: i32)
    ensures
        (r, final(mem)@) == copied_out(old(mem)@, value@, ptr, cap),
{
    if ptr < 0 || cap < 0 {
        return ERR_BOUNDS;
    }
    let end: usize = char_boundary_end(value, cap as usize);
    proof {
        crate::text::lemma_clipped(value@, cap as int);
    }
    let bytes = slice_subrange(value.as_bytes(), 0, end);
    if !write_mem(mem, ptr, bytes) {
        return ERR_BOUNDS;
    }
    end as i32
}

/// What was written is what a read of the same range gives back, and nothing
/// else has changed.
pub proof fn law_read_gives_back_the_write(mem: Seq<u8>, ptr: i32, bytes: Seq<u8>)
    requires
        writable(mem, ptr, bytes),
        bytes.len() <= i32::MAX,
    ensures
        written(mem, ptr, bytes).len() == mem.len(),
        guest_bytes(written(mem, ptr, bytes), ptr, bytes.len() as i32) == Some(bytes),
        forall|i: int|
            0 <= i < mem.len() && !(ptr <= i < ptr + bytes.len()) ==> written(mem, ptr, bytes)[i]
                == mem[i],
{
    let after = written(mem, ptr, bytes);
    assert(after.subrange(ptr as int, ptr + bytes.len()) =~= bytes);
}

/// What is copied to a plugin is a text: a front part of the value, whole where
/// it fits.
pub proof fn law_copied_value_is_a_text(mem: Seq<u8>, value: Seq<char>, ptr: i32, cap: i32)
    requires
        copied_out(mem, value, ptr, cap).0 >= 0,
    ensures
        ({
            let (n, after) = copied_out(mem, value, ptr, cap);
            &&& n <= cap
            &&& guest_text(after, ptr, n) matches Some(front) && front.is_prefix_of(value) && (
            encode_utf8(value).len() <= cap ==> front == value)
        }),
{
    let front = clipped(value, cap as int);
    let bytes = encode_utf8(front);
    crate::text::lemma_clipped(value, cap as int);
    if encode_utf8(value).len() <= cap {
        crate::text::lemma_clipped_whole(value, cap as int);
    }
    law_read_gives_back_the_write(mem, ptr, bytes);
    encode_utf8_valid_utf8(front);
    encode_utf8_decode_utf8(front);
}

} // verus!

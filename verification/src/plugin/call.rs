//! Handing data to a plugin and taking its answer.

use vstd::prelude::*;
use vstd::string::*;

use crate::text::{decimal_i64, same_text};

use super::memory::{guest_bytes, read_mem, writable, write_mem, written};

verus! {

/// Why data could not be handed to a plugin or its answer not be taken.
#[derive(Debug)]
pub enum CallError {
    /// The allocator gave no address.
    NoAddress { ptr: i32 },
    /// The allocator's address is outside the memory.
    OutsideMemory { ptr: i32 },
    /// The plugin answered with an error code of its own.
    ErrorCode { code: i32 },
    /// The answer is outside the memory.
    AnswerOutsideMemory,
}

impl CallError {
    /// What the error says; `hook` is the entry that was called.
    pub open spec fn headline(self, hook: Seq<char>) -> Seq<char> {
        match self {
            CallError::NoAddress { ptr } => (if hook == "on_event"@ {
                "__alloc 返回了非正指针 "@
            } else {
                "__alloc 返回非正指针 "@
            }) + crate::text::signed_decimal(ptr as int),
            CallError::OutsideMemory { ptr } => "__alloc 指针 "@ + crate::text::signed_decimal(
                ptr as int,
            ) + " 超出线性内存"@,
            CallError::ErrorCode { code } => hook + " 返回错误码 "@ + crate::text::signed_decimal(
                code as int,
            ),
            CallError::AnswerOutsideMemory => "响应超出线性内存"@,
        }
    }

    /// The error in words; `hook` is the entry that was called.
    pub fn message(&self, hook: &str) -> (r: String)
        ensures
            r@ == self.headline(hook@),
    {
        match self {
            CallError::NoAddress { ptr } => {
                let mut r = if same_text(hook, "on_event") {
                    "__alloc 返回了非正指针 ".to_owned()
                } else {
                    "__alloc 返回非正指针 ".to_owned()
                };
                r.append(decimal_i64(*ptr as i64).as_str());
                r
            },
            CallError::OutsideMemory { ptr } => {
                let mut r = "__alloc 指针 ".to_owned();
                r.append(decimal_i64(*ptr as i64).as_str());
                r.append(" 超出线性内存");
                r
            },
            CallError::ErrorCode { code } => {
                let mut r = hook.to_owned();
                r.append(" 返回错误码 ");
                r.append(decimal_i64(*code as i64).as_str());
                r
            },
            CallError::AnswerOutsideMemory => "响应超出线性内存".to_owned(),
        }
    }
}

/// How many bytes the plugin's allocator is asked for before data is handed to
/// an entry: as many as there are, and at least one but for events, which are
/// never empty.
pub open spec fn bytes_wanted(hook: Seq<char>, len: nat) -> nat {
    if hook != "on_event"@ && len == 0 {
        1
    } else {
        len
    }
}

/// The argument of the plugin's allocator for data of this length.
pub fn allocation(hook: &str, len: usize) -> (r: i32)
    ensures
        bytes_wanted(hook@, len as nat) <= i32::MAX ==> r == bytes_wanted(hook@, len as nat),
        r == bytes_wanted(hook@, len as nat) as i32,
{
    let wanted: usize = if len == 0 && !same_text(hook, "on_event") {
        1
    } else {
        len
    };
    #[verifier::truncate]
    let size: i32 = wanted as i32;
    size
}

/// Writes data to the address that the plugin's allocator gave for it. Returns
/// the arguments of the entry: the address and the length.
pub fn hand_over(mem: &mut [u8], ptr: i32, data: &[u8]) -> (r: Result<(i32, i32), CallError>)
    ensures
        match r {
            Ok(arguments) => {
                &&& ptr > 0
                &&& writable(old(mem)@, ptr, data@)
                &&& final(mem)@ == written(old(mem)@, ptr, data@)
                &&& arguments == (ptr, data@.len() as i32)
            },
            Err(e) => {
                &&& final(mem)@ == old(mem)@
                &&& if ptr <= 0 {
                    e == CallError::NoAddress { ptr }
                } else {
                    !writable(old(mem)@, ptr, data@) && e == (CallError::OutsideMemory { ptr })
                }
            },
        },
{
    if ptr <= 0 {
        return Err(CallError::NoAddress { ptr });
    }
    if write_mem(mem, ptr, data) {
        #[verifier::truncate]
        let len: i32 = data.len() as i32;
        Ok((ptr, len))
    } else {
        Err(CallError::OutsideMemory { ptr })
    }
}

/// How many bytes of the answer buffer are taken: the plugin's word is cut to
/// what it had allocated, because it is not to be trusted. An allocation of 0
/// counts as none.
pub open spec fn answer_len(n: i32, resp_cap: i32) -> i32 {
    if 0 < resp_cap < n {
        resp_cap
    } else {
        n
    }
}

/// The answer of an entry that returned `n`: an error code of its own, nothing,
/// or the front of the buffer that it had allocated last.
pub open spec fn answer_model(mem: Seq<u8>, n: i32, resp_ptr: i32, resp_cap: i32) -> Result<
    Seq<u8>,
    CallError,
> {
    if n < 0 {
        Err(CallError::ErrorCode { code: n })
    } else if n == 0 || resp_ptr <= 0 {
        Ok(Seq::empty())
    } else {
        match guest_bytes(mem, resp_ptr, answer_len(n, resp_cap)) {
            Some(bytes) => Ok(bytes),
            None => Err(CallError::AnswerOutsideMemory),
        }
    }
}

/// Takes the answer of an entry that returned `n`.
pub fn take_answer(mem: &[u8], n: i32, resp_ptr: i32, resp_cap: i32) -> (r: Result<
    Vec<u8>,
    CallError,
>)
    ensures
        match r {
            Ok(bytes) => answer_model(mem@, n, resp_ptr, resp_cap) == Ok::<Seq<u8>, CallError>(
                bytes@,
            ),
            Err(e) => answer_model(mem@, n, resp_ptr, resp_cap) == Err::<Seq<u8>, CallError>(e),
        },
{
    if n < 0 {
        return Err(CallError::ErrorCode { code: n });
    }
    if n == 0 || resp_ptr <= 0 {
        let none: Vec<u8> = Vec::new();
        assert(none@ =~= Seq::<u8>::empty());
        return Ok(none);
    }
    let len: i32 = if 0 < resp_cap && resp_cap < n {
        resp_cap
    } else {
        n
    };
    match read_mem(mem, resp_ptr, len) {
        Some(bytes) => Ok(bytes),
        None => Err(CallError::AnswerOutsideMemory),
    }
}

/// An answer is never longer than the buffer that the plugin had allocated.
pub proof fn law_answer_is_no_longer_than_its_buffer(
    mem: Seq<u8>,
    n: i32,
    resp_ptr: i32,
    resp_cap: i32,
)
    requires
        resp_cap > 0,
    ensures
        answer_model(mem, n, resp_ptr, resp_cap) matches Ok(bytes) ==> bytes.len() <= resp_cap,
{
}

} // verus!

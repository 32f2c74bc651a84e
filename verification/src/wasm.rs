//! The WASM demo's host side: checking the memory range a module asks
//! the kernel to write, and the demo's report.
//!
//! The interpreter itself runs in the caller, which hands in the module's
//! exported memory and the interpreter's outcome.

use vstd::prelude::*;
use crate::serial::LogPiece;

verus! {

/// The byte range `start..end` of linear memory that a write of `len`
/// bytes at `ptr` covers, or the message the kernel logs instead: for a
/// negative argument, a module without exported memory, or a range past
/// the memory's end.
pub open spec fn write_range_of(ptr: i32, len: i32, memory_len: Option<usize>) -> Result<(int, int), &'static str> {
    if ptr < 0 || len < 0 {
        Err("wasm: invalid write arguments\n")
    } else {
        match memory_len {
            None => Err("wasm: module has no exported memory\n"),
            Some(n) => if ptr + len > n {
                Err("wasm: write outside linear memory\n")
            } else {
                Ok((ptr as int, ptr + len))
            },
        }
    }
}

/// The host's `rusty.write(ptr, len)`: the bytes to write to the serial
/// console, taken from the module's exported `memory`, or the message to
/// log instead. The bytes must be UTF-8 text.
pub fn host_write(ptr: i32, len: i32, memory: Option<&[u8]>) -> (r: Result<Vec<u8>, &'static str>)
    ensures
        match write_range_of(
            ptr,
            len,
            match memory {
                Some(m) => Some(m@.len() as usize),
                None => None,
            },
        ) {
            Err(message) => r == Err::<Vec<u8>, &'static str>(message),
            Ok((start, end)) => match r {
                Ok(bytes) => bytes@ == memory->0@.subrange(start, end) && vstd::utf8::valid_utf8(bytes@),
                Err(message) => message == "wasm: invalid UTF-8\n" && !vstd::utf8::valid_utf8(
                    memory->0@.subrange(start, end),
                ),
            },
        },
{
    if ptr < 0 || len < 0 {
        return Err("wasm: invalid write arguments\n");
    }
    let data = match memory {
        Some(m) => m,
        None => {
            return Err("wasm: module has no exported memory\n");
        },
    };
    let start = ptr as usize;
    let length = len as usize;
    let end = match start.checked_add(length) {
        Some(e) => e,
        None => {
            return Err("wasm: write range overflow\n");
        },
    };
    if end > data.len() {
        return Err("wasm: write outside linear memory\n");
    }
    let mut bytes: Vec<u8> = Vec::new();
    let mut i = start;
    while i < end
        invariant
            start <= i <= end,
            end <= data@.len(),
            bytes@ == data@.subrange(start as int, i as int),
        decreases end - i,
    {
        bytes.push(data[i]);
        proof {
            assert(bytes@ =~= data@.subrange(start as int, i + 1));
        }
        i = i + 1;
    }
    match crate::wm::window::utf8_str(bytes.as_slice()) {
        Some(_) => Ok(bytes),
        None => Err("wasm: invalid UTF-8\n"),
    }
}

/// The demo's report around the interpreter's run: a banner, whether the
/// application completed or failed, and a closing banner.
pub fn run_demo(completed: bool) -> (r: Vec<LogPiece>)
    ensures
        r@ == (if completed {
            seq![
                LogPiece::Text("\n=== Rusty WASM Demo ===\n"),
                LogPiece::Text("wasm: application completed successfully\n"),
                LogPiece::Text("=== End WASM Demo ===\n\n"),
            ]
        } else {
            seq![
                LogPiece::Text("\n=== Rusty WASM Demo ===\n"),
                LogPiece::Text("wasm: application failed\n"),
                LogPiece::Text("wasm: runtime returned an error\n"),
                LogPiece::Text("=== End WASM Demo ===\n\n"),
            ]
        }),
{
    let mut pieces: Vec<LogPiece> = Vec::new();
    pieces.push(LogPiece::Text("\n=== Rusty WASM Demo ===\n"));
    if completed {
        pieces.push(LogPiece::Text("wasm: application completed successfully\n"));
    } else {
        pieces.push(LogPiece::Text("wasm: application failed\n"));
        pieces.push(LogPiece::Text("wasm: runtime returned an error\n"));
    }
    pieces.push(LogPiece::Text("=== End WASM Demo ===\n\n"));
    proof {
        if completed {
            assert(pieces@ =~= seq![
                LogPiece::Text("\n=== Rusty WASM Demo ===\n"),
                LogPiece::Text("wasm: application completed successfully\n"),
                LogPiece::Text("=== End WASM Demo ===\n\n"),
            ]);
        } else {
            assert(pieces@ =~= seq![
                LogPiece::Text("\n=== Rusty WASM Demo ===\n"),
                LogPiece::Text("wasm: application failed\n"),
                LogPiece::Text("wasm: runtime returned an error\n"),
                LogPiece::Text("=== End WASM Demo ===\n\n"),
            ]);
        }
    }
    pieces
}

} // verus!

use vstd::prelude::*;

verus! {

/// Allocates the byte buffer handed to the rendering collaborator: an owned,
/// zero-filled vector of exactly `size` bytes.
///
/// The buffer is plain owned memory; handing it out and taking it back in
/// `free` cannot disturb any dataset or network state, which only ever
/// travels by its own ownership.
pub fn allocate(size: u32) -> (buffer: Vec<u8>)
    ensures
        buffer@.len() == size as int,
        forall|i: int| 0 <= i < size as int ==> #[trigger] buffer@[i] == 0,
{
    let mut buffer: Vec<u8> = Vec::new();
    let mut i: u32 = 0;
    while i < size
        invariant
            i <= size,
            buffer@.len() == i as int,
            forall|j: int| 0 <= j < i as int ==> #[trigger] buffer@[j] == 0,
        decreases size - i,
    {
        buffer.push(0);
        i = i + 1;
    }
    buffer
}

/// Releases a buffer obtained from `allocate`. The buffer is taken back by
/// value and dropped; `size` names the length it was allocated with.
pub fn free(buffer: Vec<u8>, size: u32)
    requires
        buffer@.len() == size as int,
{
    let _ = buffer;
}

} // verus!

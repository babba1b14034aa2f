//! Which part of a buffer may be read back for validation.
use vstd::prelude::*;

verus! {

/// The bit of `wgpu::BufferUsages::COPY_SRC`.
pub const COPY_SRC_BIT: u32 = 4;

/// The value of `wgpu::COPY_BUFFER_ALIGNMENT`.
pub const COPY_ALIGNMENT: u64 = 4;

/// Why a part of a buffer cannot be read back.
#[derive(Clone, Copy, Debug, PartialEq, Eq, Structural)]
pub enum ReadbackError {
    /// The buffer cannot be copied from.
    MissingCopySource,
    /// The offset is not aligned to what can be copied.
    UnalignedOffset,
    /// The size is not aligned to what can be copied.
    UnalignedSize,
    /// The part does not lie within the buffer.
    ExceedsBuffer,
}

impl ReadbackError {
    /// The text of the error.
    pub open spec fn text(self) -> Seq<char> {
        match self {
            ReadbackError::MissingCopySource => "validation source needs COPY_SRC usage"@,
            ReadbackError::UnalignedOffset => "source offset must be copy-aligned"@,
            ReadbackError::UnalignedSize => "readback size must be copy-aligned"@,
            ReadbackError::ExceedsBuffer => "readback exceeds source buffer"@,
        }
    }

    /// Says why the part cannot be read back.
    pub fn message(&self) -> (message: &'static str)
        ensures
            message@ == self.text(),
    {
        match self {
            ReadbackError::MissingCopySource => "validation source needs COPY_SRC usage",
            ReadbackError::UnalignedOffset => "source offset must be copy-aligned",
            ReadbackError::UnalignedSize => "readback size must be copy-aligned",
            ReadbackError::ExceedsBuffer => "readback exceeds source buffer",
        }
    }
}

/// Whether `size` bytes from `offset` of a buffer of `source_size` bytes can be read back;
/// the first condition that fails is the error.
pub open spec fn readback_outcome(usage_bits: u32, offset: int, size: int, source_size: int) -> Result<
    (),
    ReadbackError,
> {
    if usage_bits & COPY_SRC_BIT != COPY_SRC_BIT {
        Err(ReadbackError::MissingCopySource)
    } else if offset % COPY_ALIGNMENT as int != 0 {
        Err(ReadbackError::UnalignedOffset)
    } else if size % COPY_ALIGNMENT as int != 0 {
        Err(ReadbackError::UnalignedSize)
    } else if offset + size > source_size {
        Err(ReadbackError::ExceedsBuffer)
    } else {
        Ok(())
    }
}

/// `wgpu::BufferUsages::contains` tells whether all bits of `COPY_SRC`, of which there is
/// one, are set.
#[verifier::external_body]
fn allows_copy_source(usage_bits: u32) -> (allowed: bool)
    ensures
        allowed == (usage_bits & COPY_SRC_BIT == COPY_SRC_BIT),
{
    wgpu::BufferUsages::from_bits_retain(usage_bits).contains(wgpu::BufferUsages::COPY_SRC)
}

/// `wgpu::COPY_BUFFER_ALIGNMENT` is a constant.
#[verifier::external_body]
fn copy_alignment() -> (alignment: u64)
    ensures
        alignment == COPY_ALIGNMENT,
{
    wgpu::COPY_BUFFER_ALIGNMENT
}

/// Checks that `size` bytes from `source_offset` of a buffer can be read back.
///
/// `usage_bits` are the bits of the usages that the buffer was created with.
pub fn check_readback(usage_bits: u32, source_offset: u64, size: u64, source_size: u64) -> (result: Result<
    (),
    ReadbackError,
>)
    ensures
        result == readback_outcome(usage_bits, source_offset as int, size as int, source_size as int),
{
    let alignment: u64 = copy_alignment();
    if !allows_copy_source(usage_bits) {
        return Err(ReadbackError::MissingCopySource);
    }
    if !source_offset.is_multiple_of(alignment) {
        return Err(ReadbackError::UnalignedOffset);
    }
    if !size.is_multiple_of(alignment) {
        return Err(ReadbackError::UnalignedSize);
    }
    match source_offset.checked_add(size) {
        Some(end) => if end <= source_size {
            Ok(())
        } else {
            Err(ReadbackError::ExceedsBuffer)
        },
        None => Err(ReadbackError::ExceedsBuffer),
    }
}

/// Where a part can be read back, every aligned part of it can.
pub proof fn law_parts_of_a_readable_part_are_readable(
    usage_bits: u32,
    offset: int,
    size: int,
    source_size: int,
    inner_offset: int,
    inner_size: int,
)
    requires
        readback_outcome(usage_bits, offset, size, source_size) is Ok,
        offset <= inner_offset,
        inner_offset + inner_size <= offset + size,
        inner_offset % COPY_ALIGNMENT as int == 0,
        inner_size % COPY_ALIGNMENT as int == 0,
    ensures
        readback_outcome(usage_bits, inner_offset, inner_size, source_size) is Ok,
{
}

/// Exactly those parts can be read back that lie within a buffer which can be copied from and
/// whose offset and size are whole numbers of words of four bytes.
pub proof fn law_aligned_parts_within_the_buffer_are_readable(
    usage_bits: u32,
    offset: int,
    size: int,
    source_size: int,
)
    ensures
        readback_outcome(usage_bits, offset, size, source_size) is Ok <==> {
            &&& usage_bits & 4 != 0
            &&& offset % 4 == 0
            &&& size % 4 == 0
            &&& offset + size <= source_size
        },
{
    assert(usage_bits & 4 == 4 <==> usage_bits & 4 != 0) by (bit_vector);
}

/// The whole of a buffer of any number of words can be read back, and no word more.
pub proof fn law_whole_buffers_are_readable(usage_bits: u32, words: nat, extra: nat)
    requires
        usage_bits & 4 != 0,
    ensures
        readback_outcome(usage_bits, 0, (4 * words) as int, (4 * words) as int) is Ok,
        extra > 0 ==> readback_outcome(usage_bits, (4 * extra) as int, (4 * words) as int, (4 * words) as int)
            == Err::<(), ReadbackError>(ReadbackError::ExceedsBuffer),
{
    assert(usage_bits & 4 == 4 <==> usage_bits & 4 != 0) by (bit_vector);
}

/// What can be read back of a buffer can be read back of any larger one, and moved by whole
/// words with the end of the buffer.
pub proof fn law_larger_buffers_are_readable(
    usage_bits: u32,
    offset: int,
    size: int,
    source_size: int,
    words: nat,
)
    requires
        readback_outcome(usage_bits, offset, size, source_size) is Ok,
    ensures
        readback_outcome(usage_bits, offset, size, source_size + words) is Ok,
        readback_outcome(usage_bits, offset + 4 * words, size, source_size + 4 * words) is Ok,
        readback_outcome(usage_bits, offset, size + 4 * words, source_size + 4 * words) is Ok,
{
}

/// Why a part cannot be read back: a buffer that cannot be copied from is told first, then the
/// offset, then the size, then the end of the buffer.
pub proof fn law_first_obstacle_is_told(usage_bits: u32, offset: int, size: int, source_size: int)
    ensures
        ({
            let outcome = readback_outcome(usage_bits, offset, size, source_size);
            &&& outcome == Err::<(), ReadbackError>(ReadbackError::MissingCopySource) <==> usage_bits & 4 == 0
            &&& outcome == Err::<(), ReadbackError>(ReadbackError::UnalignedOffset) <==> usage_bits & 4 != 0
                && offset % 4 != 0
            &&& outcome == Err::<(), ReadbackError>(ReadbackError::UnalignedSize) <==> usage_bits & 4 != 0
                && offset % 4 == 0 && size % 4 != 0
            &&& outcome == Err::<(), ReadbackError>(ReadbackError::ExceedsBuffer) <==> usage_bits & 4 != 0
                && offset % 4 == 0 && size % 4 == 0 && offset + size > source_size
        }),
{
    assert(usage_bits & 4 == 4 <==> usage_bits & 4 != 0) by (bit_vector);
}

}

use vstd::prelude::*;

verus! {

/// What a GPU buffer is used for.
#[derive(Copy, Clone, Debug, PartialEq, Eq, Structural)]
pub enum BufferType {
    Vertex,
    Index,
    Instance,
    Uniform,
    Storage,
    Read,
}

/// The usages a buffer is created with.
#[derive(Copy, Clone, Debug, PartialEq, Eq, Structural)]
pub struct BufferUsage {
    pub vertex: bool,
    pub index: bool,
    pub uniform: bool,
    pub copy_dst: bool,
    pub map_read: bool,
}

pub open spec fn usage_of(t: BufferType) -> BufferUsage {
    match t {
        BufferType::Vertex | BufferType::Instance => BufferUsage {
            vertex: true,
            index: false,
            uniform: false,
            copy_dst: true,
            map_read: false,
        },
        BufferType::Index => BufferUsage {
            vertex: false,
            index: true,
            uniform: false,
            copy_dst: true,
            map_read: false,
        },
        BufferType::Uniform => BufferUsage {
            vertex: false,
            index: false,
            uniform: true,
            copy_dst: true,
            map_read: false,
        },
        _ => BufferUsage {
            vertex: false,
            index: false,
            uniform: false,
            copy_dst: true,
            map_read: true,
        },
    }
}

impl BufferType {
    /// The usages of a buffer of this type; storage buffers are not supported.
    pub fn usage(&self) -> (r: BufferUsage)
        requires
            *self != BufferType::Storage,
        ensures
            r == usage_of(*self),
    {
        match *self {
            BufferType::Vertex | BufferType::Instance => BufferUsage {
                vertex: true,
                index: false,
                uniform: false,
                copy_dst: true,
                map_read: false,
            },
            BufferType::Index => BufferUsage {
                vertex: false,
                index: true,
                uniform: false,
                copy_dst: true,
                map_read: false,
            },
            BufferType::Uniform => BufferUsage {
                vertex: false,
                index: false,
                uniform: true,
                copy_dst: true,
                map_read: false,
            },
            _ => BufferUsage {
                vertex: false,
                index: false,
                uniform: false,
                copy_dst: true,
                map_read: true,
            },
        }
    }
}

/// What an upload has to do to the GPU buffer.
#[derive(Copy, Clone, Debug, PartialEq, Eq, Structural)]
pub enum UploadAction {
    /// Destroy the buffer and create one of this many bytes holding the data.
    Recreate(usize),
    /// Write the data over the start of the existing buffer.
    Overwrite,
}

/// A growable GPU buffer: its capacity in bytes and how many bytes of the
/// current frame it holds.
pub struct SizedBuffer {
    pub size: usize,
    pub used: usize,
    pub buffer_type: BufferType,
}

impl SizedBuffer {
    pub fn new(size: usize, buffer_type: BufferType) -> (r: SizedBuffer)
        ensures
            r.size == size,
            r.used == 0,
            r.buffer_type == buffer_type,
    {
        SizedBuffer { size, used: 0, buffer_type }
    }

    /// Makes room for `data_len` bytes: the buffer grows to exactly that size
    /// when it is too small, and is written over in place otherwise.
    pub fn ensure_size_and_copy(&mut self, data_len: usize) -> (r: UploadAction)
        ensures
            data_len > old(self).size ==> r == UploadAction::Recreate(data_len) && final(self).size
                == data_len,
            data_len <= old(self).size ==> r == UploadAction::Overwrite && final(self).size == old(
                self,
            ).size,
            final(self).used == data_len,
            final(self).buffer_type == old(self).buffer_type,
    {
        self.used = data_len;
        if data_len > self.size {
            self.size = data_len;
            UploadAction::Recreate(data_len)
        } else {
            UploadAction::Overwrite
        }
    }

    /// Empties the buffer at the end of a frame; its capacity is kept.
    pub fn clear(&mut self)
        ensures
            final(self).used == 0,
            final(self).size == old(self).size,
            final(self).buffer_type == old(self).buffer_type,
    {
        self.used = 0;
    }
}

} // verus!

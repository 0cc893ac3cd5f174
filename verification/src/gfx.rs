//! The bookkeeping around the OpenGL objects of the renderer: error codes,
//! vertex layouts and the attribute pointers they make, buffer sizes, fences
//! and the planes of an upload slot. The GL calls themselves are made by the
//! caller with the values computed here.
use crate::texture::{channel_bytes, channels, format_supported, InternalFormat, Texture};
use vstd::prelude::*;

verus! {

/// `GL_NO_ERROR`.
pub const GL_NO_ERROR: u32 = 0;
/// `GL_INVALID_ENUM`.
pub const GL_INVALID_ENUM: u32 = 0x0500;
/// `GL_INVALID_VALUE`.
pub const GL_INVALID_VALUE: u32 = 0x0501;
/// `GL_INVALID_OPERATION`.
pub const GL_INVALID_OPERATION: u32 = 0x0502;
/// `GL_STACK_OVERFLOW`.
pub const GL_STACK_OVERFLOW: u32 = 0x0503;
/// `GL_STACK_UNDERFLOW`.
pub const GL_STACK_UNDERFLOW: u32 = 0x0504;
/// `GL_OUT_OF_MEMORY`.
pub const GL_OUT_OF_MEMORY: u32 = 0x0505;
/// `GL_INVALID_FRAMEBUFFER_OPERATION`.
pub const GL_INVALID_FRAMEBUFFER_OPERATION: u32 = 0x0506;
/// `GL_INT`.
pub const GL_INT: u32 = 0x1404;
/// `GL_FLOAT`.
pub const GL_FLOAT: u32 = 0x1406;
/// `GL_ALREADY_SIGNALED`.
pub const GL_ALREADY_SIGNALED: u32 = 0x911A;
/// `GL_CONDITION_SATISFIED`.
pub const GL_CONDITION_SATISFIED: u32 = 0x911C;

/// An OpenGL error.
#[derive(PartialEq, Eq, Structural, Clone, Copy, Debug)]
pub enum ErrorType {
    NoError,
    InvalidEnum,
    InvalidValue,
    InvalidOperation,
    InvalidFramebufferOperation,
    OutOfMemory,
    StackOverflow,
    StackUnderflow,
}

impl ErrorType {
    /// The error a `glGetError` code stands for; unknown codes count as no
    /// error.
    pub fn from_code(code: u32) -> (e: ErrorType)
        ensures
            e == (if code == GL_INVALID_ENUM {
                ErrorType::InvalidEnum
            } else if code == GL_INVALID_VALUE {
                ErrorType::InvalidValue
            } else if code == GL_INVALID_OPERATION {
                ErrorType::InvalidOperation
            } else if code == GL_INVALID_FRAMEBUFFER_OPERATION {
                ErrorType::InvalidFramebufferOperation
            } else if code == GL_OUT_OF_MEMORY {
                ErrorType::OutOfMemory
            } else if code == GL_STACK_OVERFLOW {
                ErrorType::StackOverflow
            } else if code == GL_STACK_UNDERFLOW {
                ErrorType::StackUnderflow
            } else {
                ErrorType::NoError
            }),
    {
        if code == GL_NO_ERROR {
            ErrorType::NoError
        } else if code == GL_INVALID_ENUM {
            ErrorType::InvalidEnum
        } else if code == GL_INVALID_VALUE {
            ErrorType::InvalidValue
        } else if code == GL_INVALID_OPERATION {
            ErrorType::InvalidOperation
        } else if code == GL_INVALID_FRAMEBUFFER_OPERATION {
            ErrorType::InvalidFramebufferOperation
        } else if code == GL_OUT_OF_MEMORY {
            ErrorType::OutOfMemory
        } else if code == GL_STACK_OVERFLOW {
            ErrorType::StackOverflow
        } else if code == GL_STACK_UNDERFLOW {
            ErrorType::StackUnderflow
        } else {
            ErrorType::NoError
        }
    }

    /// Whether this is no error (the error loop stops there).
    pub fn is_no_error(&self) -> (b: bool)
        ensures
            b == (*self == ErrorType::NoError),
    {
        match self {
            ErrorType::NoError => true,
            _ => false,
        }
    }
}

/// The component type of a vertex attribute.
#[derive(PartialEq, Eq, Structural, Clone, Copy)]
pub enum LayoutElementType {
    Float,
    Integer,
}

/// Whether an attribute advances per vertex or per instance.
#[derive(PartialEq, Eq, Structural, Clone, Copy)]
pub enum LayoutElementStep {
    Vertex,
    Instance,
}

impl LayoutElementType {
    /// Bytes of one component (four for both kinds).
    pub fn byte_count(&self) -> (n: usize)
        ensures
            n == 4,
    {
        match self {
            LayoutElementType::Float => 4,
            LayoutElementType::Integer => 4,
        }
    }

    /// The GL type of a component.
    pub fn gl_type(&self) -> (t: u32)
        ensures
            t == match *self {
                LayoutElementType::Float => GL_FLOAT,
                LayoutElementType::Integer => GL_INT,
            },
    {
        match self {
            LayoutElementType::Float => GL_FLOAT,
            LayoutElementType::Integer => GL_INT,
        }
    }
}

impl LayoutElementStep {
    /// The attribute divisor: 0 per vertex, 1 per instance.
    pub fn divisor(&self) -> (d: u32)
        ensures
            d == match *self {
                LayoutElementStep::Vertex => 0u32,
                LayoutElementStep::Instance => 1u32,
            },
    {
        match self {
            LayoutElementStep::Vertex => 0,
            LayoutElementStep::Instance => 1,
        }
    }
}

/// One attribute of a vertex layout: its component type and count and how
/// it advances.
#[derive(Clone, Copy)]
pub struct LayoutElement {
    pub layout_element: LayoutElementType,
    pub count: usize,
    pub step: LayoutElementStep,
}

/// The arguments of one attribute pointer: attribute index, component
/// count, GL type, stride and offset in bytes, and divisor.
#[derive(PartialEq, Eq, Structural, Clone, Copy, Debug)]
pub struct AttributePointer {
    pub index: usize,
    pub count: usize,
    pub gl_type: u32,
    pub stride: usize,
    pub offset: usize,
    pub divisor: u32,
}

/// Bytes of the first `n` attributes of a layout.
pub open spec fn layout_bytes(layout: Seq<LayoutElement>, n: int) -> int
    decreases n,
{
    if n <= 0 {
        0
    } else {
        layout_bytes(layout, n - 1) + layout[n - 1].count * 4
    }
}

proof fn lemma_layout_bytes_monotone(layout: Seq<LayoutElement>, a: int, b: int)
    requires
        0 <= a <= b <= layout.len(),
    ensures
        layout_bytes(layout, a) <= layout_bytes(layout, b),
    decreases b - a,
{
    if a < b {
        lemma_layout_bytes_monotone(layout, a, b - 1);
        assert(layout[b - 1].count * 4 >= 0) by (nonlinear_arith)
            requires
                layout[b - 1].count >= 0,
        ;
    }
}

/// The attribute pointer of the `k`-th attribute of a layout attached from
/// attribute index `first`.
pub open spec fn attribute_at(layout: Seq<LayoutElement>, first: int, k: int) -> AttributePointer {
    AttributePointer {
        index: (first + k) as usize,
        count: layout[k].count,
        gl_type: match layout[k].layout_element {
            LayoutElementType::Float => GL_FLOAT,
            LayoutElementType::Integer => GL_INT,
        },
        stride: layout_bytes(layout, layout.len() as int) as usize,
        offset: layout_bytes(layout, k) as usize,
        divisor: match layout[k].step {
            LayoutElementStep::Vertex => 0u32,
            LayoutElementStep::Instance => 1u32,
        },
    }
}

/// A vertex array and the next free attribute index.
pub struct VertexArray {
    id: u32,
    current_index: usize,
}

impl VertexArray {
    /// The array of GL name `id`, no attributes yet.
    pub fn from_id(id: u32) -> (v: VertexArray)
        ensures
            v.id_spec() == id,
            v.current_index_spec() == 0,
    {
        VertexArray { id, current_index: 0 }
    }

    pub closed spec fn id_spec(&self) -> u32 {
        self.id
    }

    /// The GL name.
    pub fn id(&self) -> (i: u32)
        ensures
            i == self.id_spec(),
    {
        self.id
    }

    pub closed spec fn current_index_spec(&self) -> nat {
        self.current_index as nat
    }

    /// The next free attribute index.
    pub fn current_index(&self) -> (i: usize)
        ensures
            i == self.current_index_spec(),
    {
        self.current_index
    }

    /// The attribute pointers of a vertex buffer laid out as `layout`: one
    /// per element, at consecutive attribute indices from the next free one,
    /// all with the layout's total size as stride, each at the offset of the
    /// bytes before it. The indices they take are used up.
    pub fn attach_vertex_buffer(&mut self, layout: &Vec<LayoutElement>) -> (ptrs: Vec<AttributePointer>)
        requires
            layout_bytes(layout@, layout.len() as int) <= usize::MAX,
            old(self).current_index_spec() + layout.len() <= usize::MAX,
        ensures
            final(self).id_spec() == old(self).id_spec(),
            final(self).current_index_spec() == old(self).current_index_spec() + layout.len(),
            ptrs@.len() == layout.len(),
            forall|k: int|
                0 <= k < layout.len() ==> #[trigger] ptrs@[k] == attribute_at(
                    layout@,
                    old(self).current_index_spec() as int,
                    k,
                ),
    {
        let mut stride: usize = 0;
        let mut i: usize = 0;
        while i < layout.len()
            invariant
                i <= layout.len(),
                stride == layout_bytes(layout@, i as int),
                layout_bytes(layout@, layout.len() as int) <= usize::MAX,
            decreases layout.len() - i,
        {
            proof {
                lemma_layout_bytes_monotone(layout@, i + 1, layout.len() as int);
            }
            let size = layout[i].count * layout[i].layout_element.byte_count();
            stride = stride + size;
            i = i + 1;
        }
        let first = self.current_index;
        let mut ptrs: Vec<AttributePointer> = Vec::new();
        let mut offset: usize = 0;
        let mut k: usize = 0;
        while k < layout.len()
            invariant
                k <= layout.len(),
                offset == layout_bytes(layout@, k as int),
                stride == layout_bytes(layout@, layout.len() as int),
                layout_bytes(layout@, layout.len() as int) <= usize::MAX,
                first + layout.len() <= usize::MAX,
                self.current_index == first + k,
                self.id == old(self).id,
                first == old(self).current_index_spec(),
                ptrs@.len() == k,
                forall|m: int| 0 <= m < k ==> #[trigger] ptrs@[m] == attribute_at(layout@, first as int, m),
            decreases layout.len() - k,
        {
            proof {
                lemma_layout_bytes_monotone(layout@, k + 1, layout.len() as int);
            }
            let element = layout[k];
            let size = element.count * element.layout_element.byte_count();
            ptrs.push(
                AttributePointer {
                    index: self.current_index,
                    count: element.count,
                    gl_type: element.layout_element.gl_type(),
                    stride,
                    offset,
                    divisor: element.step.divisor(),
                },
            );
            offset = offset + size;
            self.current_index = self.current_index + 1;
            k = k + 1;
        }
        ptrs
    }
}

/// A GL buffer of vertex data and the bytes last uploaded to it.
pub struct VertexBuffer {
    pub id: u32,
    pub size: Option<usize>,
}

impl VertexBuffer {
    /// The buffer of GL name `id`, nothing uploaded.
    pub fn from_id(id: u32) -> (b: VertexBuffer)
        ensures
            b.id == id,
            b.size is None,
    {
        VertexBuffer { id, size: None }
    }

    /// Records an upload of `len` `f32` values; returns the bytes uploaded.
    pub fn record_upload_f32(&mut self, len: usize) -> (n: usize)
        requires
            len * 4 <= usize::MAX,
        ensures
            n == len * 4,
            final(self).id == old(self).id,
            final(self).size == Some(n),
    {
        let n = len * 4;
        self.size = Some(n);
        n
    }
}

/// A GL buffer of element indices and the bytes last uploaded to it.
pub struct ElementBuffer {
    pub id: u32,
    pub size: Option<usize>,
}

impl ElementBuffer {
    /// The buffer of GL name `id`, nothing uploaded.
    pub fn from_id(id: u32) -> (b: ElementBuffer)
        ensures
            b.id == id,
            b.size is None,
    {
        ElementBuffer { id, size: None }
    }

    /// Records an upload of `len` `u16` indices; returns the bytes uploaded.
    pub fn record_upload_u16(&mut self, len: usize) -> (n: usize)
        requires
            len * 2 <= usize::MAX,
        ensures
            n == len * 2,
            final(self).id == old(self).id,
            final(self).size == Some(n),
    {
        let n = len * 2;
        self.size = Some(n);
        n
    }
}

/// A fence in the GL command stream, by the handle `H` of its sync object.
pub struct Fence<H> {
    handle: Option<H>,
}

impl<H: Copy> Fence<H> {
    pub closed spec fn handle_spec(&self) -> Option<H> {
        self.handle
    }

    /// A fence not placed: it counts as passed.
    pub fn new() -> (f: Fence<H>)
        ensures
            f.handle_spec() is None,
    {
        Fence { handle: None }
    }

    /// The sync object to wait on, if the fence is placed.
    pub fn pending(&self) -> (h: Option<H>)
        ensures
            h == self.handle_spec(),
    {
        self.handle
    }

    /// Takes the result of waiting on the sync object: signalled or satisfied
    /// means the GPU passed the fence, which is then gone (its sync object is
    /// returned for deletion). Says whether the fence is passed.
    pub fn on_wait_result(&mut self, result: u32) -> (r: (bool, Option<H>))
        requires
            old(self).handle_spec() is Some,
        ensures
            (result == GL_ALREADY_SIGNALED || result == GL_CONDITION_SATISFIED) ==> r == (
            true,
            old(self).handle_spec(),
            ) && final(self).handle_spec() is None,
            !(result == GL_ALREADY_SIGNALED || result == GL_CONDITION_SATISFIED) ==> r == (
            false,
            None::<H>,
            ) && final(self).handle_spec() == old(self).handle_spec(),
    {
        if result == GL_ALREADY_SIGNALED || result == GL_CONDITION_SATISFIED {
            let h = self.handle;
            self.handle = None;
            (true, h)
        } else {
            (false, None)
        }
    }

    /// Places the fence at sync object `handle`; the one it replaces is
    /// returned for deletion.
    pub fn place(&mut self, handle: H) -> (old_handle: Option<H>)
        ensures
            old_handle == old(self).handle_spec(),
            final(self).handle_spec() == Some(handle),
    {
        let previous = self.handle;
        self.handle = Some(handle);
        previous
    }
}

/// Number of upload slots of the video surface.
pub const SURFACE_SLOTS: u8 = 3;

/// The ring of upload slots of the video surface: frames are uploaded into
/// the write slot and converted for display from the read slot.
pub struct SurfaceSlots {
    size: u8,
    write_index: u8,
    read_index: u8,
}

/// Plain value of `SurfaceSlots`: filled slots, write slot, read slot.
pub struct SlotsState {
    pub size: nat,
    pub write_index: nat,
    pub read_index: nat,
}

/// Consistency of the ring: the write slot is `size` slots after the read
/// slot.
pub open spec fn slots_wf(s: SlotsState) -> bool {
    &&& s.size <= SURFACE_SLOTS
    &&& s.read_index < SURFACE_SLOTS
    &&& s.write_index < SURFACE_SLOTS
    &&& s.write_index == (s.read_index + s.size) as int % (SURFACE_SLOTS as int)
}

impl SurfaceSlots {
    pub closed spec fn state(&self) -> SlotsState {
        SlotsState {
            size: self.size as nat,
            write_index: self.write_index as nat,
            read_index: self.read_index as nat,
        }
    }

    /// No slot filled, both at the first.
    pub fn new() -> (s: SurfaceSlots)
        ensures
            slots_wf(s.state()),
            s.state() == (SlotsState { size: 0, write_index: 0, read_index: 0 }),
    {
        SurfaceSlots { size: 0, write_index: 0, read_index: 0 }
    }

    /// Whether a slot is free for an upload.
    pub fn can_upload(&self) -> (b: bool)
        ensures
            b == (self.state().size < SURFACE_SLOTS),
    {
        self.size < SURFACE_SLOTS
    }

    /// The slot to upload into.
    pub fn write_slot(&self) -> (i: usize)
        ensures
            i == self.state().write_index,
    {
        self.write_index as usize
    }

    /// The slot to convert from, when one is filled.
    pub fn read_slot(&self) -> (i: Option<usize>)
        ensures
            i == (if self.state().size > 0 {
                Some(self.state().read_index as usize)
            } else {
                None
            }),
    {
        if self.size > 0 {
            Some(self.read_index as usize)
        } else {
            None
        }
    }

    /// Marks the write slot filled and moves on to the next.
    pub fn commit_upload(&mut self)
        requires
            slots_wf(old(self).state()),
            old(self).state().size < SURFACE_SLOTS,
        ensures
            slots_wf(final(self).state()),
            final(self).state() == (SlotsState {
                size: old(self).state().size + 1,
                write_index: ((old(self).state().write_index + 1) as int % (SURFACE_SLOTS as int)) as nat,
                read_index: old(self).state().read_index,
            }),
    {
        self.write_index = (self.write_index + 1) % SURFACE_SLOTS;
        self.size = self.size + 1;
    }

    /// Marks the read slot converted and moves on to the next.
    pub fn commit_convert(&mut self)
        requires
            slots_wf(old(self).state()),
            old(self).state().size > 0,
        ensures
            slots_wf(final(self).state()),
            final(self).state() == (SlotsState {
                size: (old(self).state().size - 1) as nat,
                write_index: old(self).state().write_index,
                read_index: ((old(self).state().read_index + 1) as int % (SURFACE_SLOTS as int)) as nat,
            }),
    {
        self.read_index = (self.read_index + 1) % SURFACE_SLOTS;
        self.size = self.size - 1;
    }
}

/// Size and format of one uploaded plane; `stride` is in bytes.
#[derive(PartialEq, Eq, Structural, Clone, Copy, Debug)]
pub struct SlotPlaneDescription {
    pub width: u32,
    pub height: u32,
    pub stride: usize,
    pub format: InternalFormat,
}

/// The description of plane `plane` of a frame of `width` by `height` whose
/// rows of that plane are `stride` bytes apart: planes after the first are
/// subsampled by `chroma` (when given) in both directions.
pub fn plane_description(
    width: usize,
    height: usize,
    stride: usize,
    plane: usize,
    chroma: Option<usize>,
    format: InternalFormat,
) -> (d: SlotPlaneDescription)
    requires
        chroma matches Some(c) ==> c > 0,
        width <= u32::MAX,
        height <= u32::MAX,
    ensures
        ({
            let c: int = if plane > 0 {
                match chroma {
                    Some(c) => c as int,
                    None => 1,
                }
            } else {
                1
            };
            d == SlotPlaneDescription {
                width: (width as int / c) as u32,
                height: (height as int / c) as u32,
                stride,
                format,
            }
        }),
{
    let c: usize = if plane > 0 {
        match chroma {
            Some(c) => c,
            None => 1,
        }
    } else {
        1
    };
    SlotPlaneDescription { width: (width / c) as u32, height: (height / c) as u32, stride, format }
}

/// Rows of plane `plane` of a frame of `height` rows: planes after the first
/// have `height / chroma` rows (when `chroma` is given).
pub open spec fn plane_rows(height: usize, plane: usize, chroma: Option<usize>) -> int {
    height as int / if plane > 0 {
        match chroma {
            Some(c) => c as int,
            None => 1,
        }
    } else {
        1
    }
}

/// Bytes of plane `plane` of a frame of `height` rows whose rows of that
/// plane are `line_size` bytes apart.
pub fn plane_bytes(line_size: usize, height: usize, plane: usize, chroma: Option<usize>) -> (n: usize)
    requires
        chroma matches Some(c) ==> c > 0,
        line_size * plane_rows(height, plane, chroma) <= usize::MAX,
    ensures
        n == line_size * plane_rows(height, plane, chroma),
{
    let c: usize = if plane > 0 {
        match chroma {
            Some(c) => c,
            None => 1,
        }
    } else {
        1
    };
    let rows = height / c;
    line_size * rows
}

/// Whether a plane's pixel buffer must be allocated anew: there is none,
/// it is not mapped, or it does not have `height * stride` bytes.
pub fn needs_allocation(mapped_len: Option<Option<usize>>, height: usize, stride: usize) -> (b: bool)
    requires
        height * stride <= usize::MAX,
    ensures
        b == match mapped_len {
            Some(Some(len)) => len != height * stride,
            _ => true,
        },
{
    match mapped_len {
        Some(Some(len)) => len != height * stride,
        _ => true,
    }
}

/// Bytes per texel of a format.
pub open spec fn texel_bytes(f: InternalFormat) -> int {
    (channels(f) * channel_bytes(f)) as int
}

/// One texture upload from an upload slot: into texture `index` (bound to
/// that texture unit) from the pixel buffer of plane `index`, with the
/// plane's row length and size.
#[derive(PartialEq, Eq, Structural, Clone, Copy, Debug)]
pub struct PlaneUpload {
    pub index: usize,
    pub row_length: usize,
    pub width: u32,
    pub height: u32,
}

/// The upload of a plane described by `d` into texture `i`, whose storage
/// has format `f`.
pub open spec fn plane_upload(d: SlotPlaneDescription, f: InternalFormat, i: int) -> PlaneUpload {
    PlaneUpload {
        index: i as usize,
        row_length: (d.stride as int / texel_bytes(f)) as usize,
        width: d.width,
        height: d.height,
    }
}

/// Whether a texture has storage, in a supported format.
pub open spec fn holds_supported(t: Texture) -> bool {
    match t.format {
        Some(f) => format_supported(f),
        None => false,
    }
}

/// The bookkeeping of an upload slot: the description of each of its four
/// planes, which planes have a pixel buffer, and how many planes the last
/// upload filled.
pub struct UploadSlot {
    planes: [SlotPlaneDescription; 4],
    has_buffer: [bool; 4],
    uploaded_planes: Option<usize>,
}

impl UploadSlot {
    pub closed spec fn planes_spec(&self) -> Seq<SlotPlaneDescription> {
        self.planes@
    }

    pub closed spec fn buffers_spec(&self) -> Seq<bool> {
        self.has_buffer@
    }

    pub closed spec fn uploaded_spec(&self) -> Option<usize> {
        self.uploaded_planes
    }

    /// A slot with no pixel buffers, nothing uploaded, and every plane
    /// described as 0 by 0 with stride 0 in format `R(0)`.
    pub fn new() -> (s: UploadSlot)
        ensures
            s.uploaded_spec() is None,
            forall|i: int| 0 <= i < 4 ==> !#[trigger] s.buffers_spec()[i],
            forall|i: int|
                0 <= i < 4 ==> #[trigger] s.planes_spec()[i] == (SlotPlaneDescription {
                    width: 0,
                    height: 0,
                    stride: 0,
                    format: InternalFormat::R(0),
                }),
            s.planes_spec().len() == 4,
            s.buffers_spec().len() == 4,
    {
        let d = SlotPlaneDescription { width: 0, height: 0, stride: 0, format: InternalFormat::R(0) };
        UploadSlot { planes: [d, d, d, d], has_buffer: [false, false, false, false], uploaded_planes: None }
    }

    /// The description of plane `plane`.
    pub fn plane(&self, plane: usize) -> (d: SlotPlaneDescription)
        requires
            plane < 4,
        ensures
            d == self.planes_spec()[plane as int],
    {
        self.planes[plane]
    }

    /// Records the description of plane `plane` and that it has a pixel
    /// buffer.
    pub fn describe_plane(&mut self, plane: usize, d: SlotPlaneDescription)
        requires
            plane < 4,
        ensures
            final(self).planes_spec() == old(self).planes_spec().update(plane as int, d),
            final(self).buffers_spec() == old(self).buffers_spec().update(plane as int, true),
            final(self).uploaded_spec() == old(self).uploaded_spec(),
    {
        self.planes[plane] = d;
        self.has_buffer[plane] = true;
    }

    /// Records that the last upload filled `n` planes.
    pub fn set_uploaded(&mut self, n: usize)
        ensures
            final(self).uploaded_spec() == Some(n),
            final(self).planes_spec() == old(self).planes_spec(),
            final(self).buffers_spec() == old(self).buffers_spec(),
    {
        self.uploaded_planes = Some(n);
    }

    /// The texture uploads that move the slot's uploaded planes into the
    /// first textures: plane `i` into texture `i`, with the plane's size and
    /// the row length its stride gives in the texels of the texture's format.
    pub fn upload_to_textures_bind(&self, textures: &Vec<Texture>) -> (ups: Vec<PlaneUpload>)
        requires
            (self.uploaded_spec() matches Some(n) && n <= textures.len() && n <= 4 && forall|i: int|
                0 <= i < n ==> #[trigger] self.buffers_spec()[i] && holds_supported(textures@[i])),
        ensures
            ups@.len() == self.uploaded_spec()->0,
            forall|i: int|
                0 <= i < ups@.len() ==> #[trigger] ups@[i] == plane_upload(
                    self.planes_spec()[i],
                    textures@[i].format->0,
                    i,
                ),
    {
        let n = match self.uploaded_planes {
            Some(n) => n,
            None => 0,
        };
        let mut ups: Vec<PlaneUpload> = Vec::new();
        let mut i: usize = 0;
        while i < n
            invariant
                i <= n,
                n == self.uploaded_spec()->0,
                n <= 4,
                n <= textures.len(),
                forall|j: int|
                    0 <= j < n ==> #[trigger] self.buffers_spec()[j] && holds_supported(textures@[j]),
                ups@.len() == i,
                forall|j: int|
                    0 <= j < i ==> #[trigger] ups@[j] == plane_upload(
                        self.planes_spec()[j],
                        textures@[j].format->0,
                        j,
                    ),
            decreases n - i,
        {
            let d = self.planes[i];
            assert(self.buffers_spec()[i as int]);
            let format = match textures[i].format {
                Some(f) => f,
                None => InternalFormat::R(8),
            };
            let row_length = crate::texture::row_length(d.stride, format);
            ups.push(PlaneUpload { index: i, row_length, width: d.width, height: d.height });
            i = i + 1;
        }
        ups
    }
}

} // verus!

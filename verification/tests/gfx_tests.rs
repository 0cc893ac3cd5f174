use player::float_bits::{is_nan, less, less_eq, positive, total_less, INFINITY_BITS, MINUS_ONE_BITS, NAN_BITS, SIGN_BIT};
use player::gfx::{
    needs_allocation, plane_description, AttributePointer, ElementBuffer, ErrorType, Fence, LayoutElement,
    LayoutElementStep, LayoutElementType, PlaneUpload, SlotPlaneDescription, UploadSlot, VertexArray, VertexBuffer,
    GL_ALREADY_SIGNALED, GL_CONDITION_SATISFIED, GL_FLOAT, GL_INT,
};
use player::texture::{row_length, InternalFormat, Texture};

const SAMPLES: [f64; 13] = [
    0.0,
    -0.0,
    1.0,
    -1.0,
    0.5,
    -2.5,
    1e300,
    -1e-300,
    f64::MIN_POSITIVE,
    f64::INFINITY,
    f64::NEG_INFINITY,
    f64::NAN,
    5.0,
];

#[test]
fn float_comparisons_match_f64() {
    for a in SAMPLES {
        assert_eq!(is_nan(a.to_bits()), a.is_nan());
        assert_eq!(positive(a.to_bits()), a > 0.0);
        for b in SAMPLES {
            assert_eq!(less(a.to_bits(), b.to_bits()), a < b, "{a} < {b}");
            assert_eq!(less_eq(a.to_bits(), b.to_bits()), a <= b, "{a} <= {b}");
            assert_eq!(
                total_less(a.to_bits(), b.to_bits()),
                a.total_cmp(&b) == std::cmp::Ordering::Less,
                "total {a} {b}"
            );
        }
    }
}

#[test]
fn float_constants() {
    assert_eq!(SIGN_BIT, (-0.0f64).to_bits());
    assert_eq!(INFINITY_BITS, f64::INFINITY.to_bits());
    assert_eq!(MINUS_ONE_BITS, (-1.0f64).to_bits());
    assert!(f64::from_bits(NAN_BITS).is_nan());
}

#[test]
fn negative_nan_orders_first() {
    let neg_nan = f64::from_bits(NAN_BITS | SIGN_BIT);
    assert!(total_less(neg_nan.to_bits(), f64::NEG_INFINITY.to_bits()));
    assert!(!less(neg_nan.to_bits(), 0.0f64.to_bits()));
}

#[test]
fn gl_error_codes() {
    assert!(ErrorType::from_code(gl::NO_ERROR) == ErrorType::NoError);
    assert!(ErrorType::from_code(gl::INVALID_ENUM) == ErrorType::InvalidEnum);
    assert!(ErrorType::from_code(gl::INVALID_VALUE) == ErrorType::InvalidValue);
    assert!(ErrorType::from_code(gl::INVALID_OPERATION) == ErrorType::InvalidOperation);
    assert!(ErrorType::from_code(gl::INVALID_FRAMEBUFFER_OPERATION) == ErrorType::InvalidFramebufferOperation);
    assert!(ErrorType::from_code(gl::OUT_OF_MEMORY) == ErrorType::OutOfMemory);
    assert!(ErrorType::from_code(gl::STACK_OVERFLOW) == ErrorType::StackOverflow);
    assert!(ErrorType::from_code(gl::STACK_UNDERFLOW) == ErrorType::StackUnderflow);
    assert!(ErrorType::from_code(0x1234) == ErrorType::NoError);
    assert!(ErrorType::from_code(gl::NO_ERROR).is_no_error());
    assert!(!ErrorType::from_code(gl::OUT_OF_MEMORY).is_no_error());
}

#[test]
fn gl_constants_match() {
    assert_eq!(GL_FLOAT, gl::FLOAT);
    assert_eq!(GL_INT, gl::INT);
    assert_eq!(GL_ALREADY_SIGNALED, gl::ALREADY_SIGNALED);
    assert_eq!(GL_CONDITION_SATISFIED, gl::CONDITION_SATISFIED);
}

#[test]
fn layout_attribute_pointers() {
    let layout = vec![
        LayoutElement { layout_element: LayoutElementType::Float, count: 2, step: LayoutElementStep::Vertex },
        LayoutElement { layout_element: LayoutElementType::Integer, count: 1, step: LayoutElementStep::Instance },
        LayoutElement { layout_element: LayoutElementType::Float, count: 4, step: LayoutElementStep::Vertex },
    ];
    let mut vao = VertexArray::from_id(7);
    let ptrs = vao.attach_vertex_buffer(&layout);
    assert!(
        ptrs == vec![
            AttributePointer { index: 0, count: 2, gl_type: gl::FLOAT, stride: 28, offset: 0, divisor: 0 },
            AttributePointer { index: 1, count: 1, gl_type: gl::INT, stride: 28, offset: 8, divisor: 1 },
            AttributePointer { index: 2, count: 4, gl_type: gl::FLOAT, stride: 28, offset: 12, divisor: 0 },
        ]
    );
    assert_eq!(vao.current_index(), 3);
    let more = vao.attach_vertex_buffer(&vec![LayoutElement {
        layout_element: LayoutElementType::Integer,
        count: 3,
        step: LayoutElementStep::Vertex,
    }]);
    assert_eq!(more[0].index, 3);
    assert_eq!(more[0].stride, 12);
    assert_eq!(vao.id(), 7);
}

#[test]
fn layout_byte_counts() {
    assert_eq!(LayoutElementType::Float.byte_count(), std::mem::size_of::<f32>());
    assert_eq!(LayoutElementType::Integer.byte_count(), std::mem::size_of::<i32>());
}

#[test]
fn buffers_record_bytes() {
    let mut v = VertexBuffer::from_id(1);
    assert_eq!(v.size, None);
    assert_eq!(v.record_upload_f32(6), 24);
    assert_eq!(v.size, Some(24));
    let mut e = ElementBuffer::from_id(2);
    assert_eq!(e.record_upload_u16(6), 12);
    assert_eq!(e.size, Some(12));
    assert_eq!(e.id, 2);
}

#[test]
fn fence_lifecycle() {
    let mut f: Fence<u32> = Fence::new();
    assert_eq!(f.pending(), None);
    assert_eq!(f.place(5), None);
    assert_eq!(f.pending(), Some(5));
    assert_eq!(f.on_wait_result(gl::TIMEOUT_EXPIRED), (false, None));
    assert_eq!(f.pending(), Some(5));
    assert_eq!(f.place(6), Some(5));
    assert_eq!(f.on_wait_result(gl::CONDITION_SATISFIED), (true, Some(6)));
    assert_eq!(f.pending(), None);
    f.place(7);
    assert_eq!(f.on_wait_result(gl::ALREADY_SIGNALED), (true, Some(7)));
}

#[test]
fn plane_descriptions() {
    let luma = plane_description(1920, 1080, 2048, 0, Some(2), InternalFormat::R(8));
    assert!(luma == SlotPlaneDescription { width: 1920, height: 1080, stride: 2048, format: InternalFormat::R(8) });
    let chroma = plane_description(1920, 1080, 2048, 1, Some(2), InternalFormat::Rg(8));
    assert!(chroma == SlotPlaneDescription { width: 960, height: 540, stride: 2048, format: InternalFormat::Rg(8) });
    let whole = plane_description(1921, 1081, 2048, 1, None, InternalFormat::Rg(8));
    assert_eq!((whole.width, whole.height), (1921, 1081));
}

#[test]
fn allocation_needed() {
    assert!(needs_allocation(None, 4, 8));
    assert!(needs_allocation(Some(None), 4, 8));
    assert!(needs_allocation(Some(Some(31)), 4, 8));
    assert!(!needs_allocation(Some(Some(32)), 4, 8));
}

#[test]
fn upload_slot_plan() {
    let mut slot = UploadSlot::new();
    assert!(slot.plane(3) == SlotPlaneDescription { width: 0, height: 0, stride: 0, format: InternalFormat::R(0) });
    slot.describe_plane(0, plane_description(64, 32, 64, 0, Some(2), InternalFormat::R(8)));
    slot.describe_plane(1, plane_description(64, 32, 64, 1, Some(2), InternalFormat::Rg(8)));
    slot.set_uploaded(2);
    let mut textures = vec![Texture::from_id(1), Texture::from_id(2), Texture::from_id(3)];
    textures[0].record_upload(64, 32, InternalFormat::R(8));
    textures[1].record_upload(32, 16, InternalFormat::Rg(8));
    let ups = slot.upload_to_textures_bind(&textures);
    assert!(
        ups == vec![
            PlaneUpload { index: 0, row_length: 64, width: 64, height: 32 },
            PlaneUpload { index: 1, row_length: 32, width: 32, height: 16 },
        ]
    );
}

#[test]
fn texture_row_length() {
    assert_eq!(row_length(2048, InternalFormat::R(8)), 2048);
    assert_eq!(row_length(2048, InternalFormat::Rg(8)), 1024);
    assert_eq!(row_length(2048, InternalFormat::Rgba(16)), 256);
    assert_eq!(row_length(10, InternalFormat::Rgb(8)), 3);
}

#[test]
fn texture_formats_match_gl() {
    assert_eq!(InternalFormat::Rgba(8).get_internal_format(), gl::RGBA8 as i32);
    assert_eq!(InternalFormat::Rgba(16).get_internal_format(), gl::RGBA16 as i32);
    assert_eq!(InternalFormat::Rgb(8).get_internal_format(), gl::RGB8 as i32);
    assert_eq!(InternalFormat::Rgb(12).get_internal_format(), gl::RGB16 as i32);
    assert_eq!(InternalFormat::R(8).get_internal_format(), gl::R8 as i32);
    assert_eq!(InternalFormat::R(16).get_internal_format(), gl::R16 as i32);
    assert_eq!(InternalFormat::Rg(1).get_internal_format(), gl::RG8 as i32);
    assert_eq!(InternalFormat::Rg(9).get_internal_format(), gl::RG16 as i32);
    assert_eq!(InternalFormat::Bgr.get_internal_format(), gl::BGR as i32);
    assert_eq!(InternalFormat::Bgra.get_internal_format(), gl::BGRA as i32);
    assert_eq!(InternalFormat::Rgba(8).get_format(), gl::RGBA);
    assert_eq!(InternalFormat::Rgb(16).get_format(), gl::RGB);
    assert_eq!(InternalFormat::R(8).get_format(), gl::RED);
    assert_eq!(InternalFormat::Rg(8).get_format(), gl::RG);
    assert_eq!(InternalFormat::Bgr.get_format(), gl::BGR);
    assert_eq!(InternalFormat::Bgra.get_format(), gl::BGRA);
    assert_eq!(InternalFormat::R(8).get_type(), gl::UNSIGNED_BYTE);
    assert_eq!(InternalFormat::R(16).get_type(), gl::UNSIGNED_SHORT);
    assert_eq!(InternalFormat::Bgra.get_type(), gl::UNSIGNED_BYTE);
}

#[test]
fn texel_sizes() {
    assert_eq!(InternalFormat::Rgba(8).get_texel_size_bytes(), 4);
    assert_eq!(InternalFormat::Rgba(16).get_texel_size_bytes(), 8);
    assert_eq!(InternalFormat::Rgb(8).get_texel_size_bytes(), 3);
    assert_eq!(InternalFormat::Rgb(10).get_texel_size_bytes(), 6);
    assert_eq!(InternalFormat::Bgr.get_texel_size_bytes(), 3);
    assert_eq!(InternalFormat::Bgra.get_texel_size_bytes(), 4);
    assert_eq!(InternalFormat::R(8).get_texel_size_bytes(), 1);
    assert_eq!(InternalFormat::R(16).get_texel_size_bytes(), 2);
    assert_eq!(InternalFormat::Rg(8).get_texel_size_bytes(), 2);
    assert_eq!(InternalFormat::Rg(16).get_texel_size_bytes(), 4);
}

#[test]
fn texture_space() {
    let mut tex = Texture::from_id(3);
    assert!(!tex.has_space(4, 4, InternalFormat::Rgba(8)));
    tex.record_upload(4, 4, InternalFormat::Rgba(8));
    assert!(tex.has_space(4, 4, InternalFormat::Rgba(8)));
    assert!(!tex.has_space(4, 5, InternalFormat::Rgba(8)));
    assert!(!tex.has_space(4, 4, InternalFormat::Rgba(16)));
}

use player::gfx::{SurfaceSlots, SURFACE_SLOTS};

#[test]
fn surface_slots_ring() {
    let mut s = SurfaceSlots::new();
    assert_eq!(SURFACE_SLOTS, 3);
    assert!(s.can_upload());
    assert_eq!(s.read_slot(), None);
    assert_eq!(s.write_slot(), 0);
    s.commit_upload();
    s.commit_upload();
    s.commit_upload();
    assert!(!s.can_upload());
    assert_eq!(s.write_slot(), 0);
    assert_eq!(s.read_slot(), Some(0));
    s.commit_convert();
    assert_eq!(s.read_slot(), Some(1));
    assert!(s.can_upload());
    s.commit_upload();
    assert_eq!(s.write_slot(), 1);
}

use player::gfx::plane_bytes;

#[test]
fn plane_sizes_in_bytes() {
    assert_eq!(plane_bytes(2048, 1080, 0, Some(2)), 2048 * 1080);
    assert_eq!(plane_bytes(2048, 1080, 1, Some(2)), 2048 * 540);
    assert_eq!(plane_bytes(2048, 1081, 2, Some(2)), 2048 * 540);
    assert_eq!(plane_bytes(100, 10, 1, None), 1000);
}

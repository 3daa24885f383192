//! Decoded pictures in planar I420 layout.
use vstd::prelude::*;

verus! {

/// A decoded picture: tightly packed Y, U and V planes (I420) and its
/// presentation time in microseconds.
#[derive(Clone)]
pub struct DecodedFrame {
    pub pts_us: i64,
    pub width: u32,
    pub height: u32,
    pub y_plane: Vec<u8>,
    pub u_plane: Vec<u8>,
    pub v_plane: Vec<u8>,
    pub y_stride: usize,
    pub uv_stride: usize,
}

/// Row `r` of a `width`-wide plane can be copied: it lies within both the
/// source (rows `stride` apart) and the destination (rows `width` apart).
pub open spec fn row_fits(src_len: int, stride: int, dst_len: int, width: int, r: int) -> bool {
    r * stride + width <= src_len && r * width + width <= dst_len
}

/// `dst` is `old_dst` with every row that fits copied from `src`.
pub open spec fn plane_copied(
    src: Seq<u8>,
    stride: int,
    old_dst: Seq<u8>,
    dst: Seq<u8>,
    width: int,
    height: int,
) -> bool {
    &&& dst.len() == old_dst.len()
    &&& forall|r: int, c: int|
        #![trigger dst[r * width + c]]
        0 <= r < height && 0 <= c < width && row_fits(src.len() as int, stride, dst.len() as int, width, r)
            ==> dst[r * width + c] == src[r * stride + c]
    &&& forall|i: int|
        0 <= i < dst.len() && (forall|r: int|
            #![trigger row_fits(src.len() as int, stride, dst.len() as int, width, r)]
            0 <= r < height && row_fits(src.len() as int, stride, dst.len() as int, width, r) ==> !(r
                * width <= i < r * width + width)) ==> dst[i] == old_dst[i]
}

/// Half of `x`, rounded up.
pub open spec fn half_up(x: nat) -> nat {
    (x + 1) / 2
}

/// Copies `height` rows of `width` bytes from a plane whose rows are
/// `src_stride` bytes apart into the tightly packed `dst`; rows that do not
/// fit in either buffer are left untouched.
pub fn copy_yuv420_plane(src: &[u8], src_stride: usize, dst: &mut [u8], width: usize, height: usize)
    requires
        height == 0 || (height - 1) * src_stride + width <= usize::MAX,
        height == 0 || height * width <= usize::MAX,
    ensures
        plane_copied(src@, src_stride as int, old(dst)@, final(dst)@, width as int, height as int),
{
    let mut row: usize = 0;
    while row < height
        invariant
            row <= height,
            height == 0 || (height - 1) * src_stride + width <= usize::MAX,
            height == 0 || height * width <= usize::MAX,
            dst@.len() == old(dst)@.len(),
            forall|r: int, c: int|
                #![trigger dst@[r * width + c]]
                0 <= r < row && 0 <= c < width && row_fits(
                    src@.len() as int,
                    src_stride as int,
                    dst@.len() as int,
                    width as int,
                    r,
                ) ==> dst@[r * width + c] == src@[r * src_stride + c],
            forall|i: int|
                0 <= i < dst@.len() && (forall|r: int|
                    #![trigger row_fits(src@.len() as int, src_stride as int, dst@.len() as int, width as int, r)]
                    0 <= r < row && row_fits(
                        src@.len() as int,
                        src_stride as int,
                        dst@.len() as int,
                        width as int,
                        r,
                    ) ==> !(r * width <= i < r * width + width)) ==> dst@[i] == old(dst)@[i],
        decreases height - row,
    {
        assert(row * src_stride <= (height - 1) * src_stride) by (nonlinear_arith)
            requires
                row < height,
        ;
        assert(row * width + width <= height * width) by (nonlinear_arith)
            requires
                row < height,
        ;
        let src_start = row * src_stride;
        let dst_start = row * width;
        let ghost before = dst@;
        if src_start + width <= src.len() && dst_start + width <= dst.len() {
            let mut c: usize = 0;
            while c < width
                invariant
                    c <= width,
                    src_start + width <= src.len(),
                    dst_start + width <= dst.len(),
                    dst@.len() == before.len(),
                    forall|k: int| 0 <= k < c ==> #[trigger] dst@[dst_start + k] == src@[src_start + k],
                    forall|i: int|
                        0 <= i < dst@.len() && !(dst_start <= i < dst_start + c) ==> dst@[i]
                            == before[i],
                decreases width - c,
            {
                dst[dst_start + c] = src[src_start + c];
                c = c + 1;
            }
            proof {
                assert forall|r: int, c: int|
                    0 <= r < row + 1 && 0 <= c < width && row_fits(
                        src@.len() as int,
                        src_stride as int,
                        dst@.len() as int,
                        width as int,
                        r,
                    ) implies #[trigger] dst@[r * width + c] == src@[r * src_stride + c] by {
                    if r < row {
                        assert(r * width + width <= row * width) by (nonlinear_arith)
                            requires
                                r < row,
                        ;
                        assert(before[r * width + c] == src@[r * src_stride + c]);
                    }
                }
                assert forall|i: int|
                    0 <= i < dst@.len() && (forall|r: int|
                        #![trigger row_fits(src@.len() as int, src_stride as int, dst@.len() as int, width as int, r)]
                        0 <= r < row + 1 && row_fits(
                            src@.len() as int,
                            src_stride as int,
                            dst@.len() as int,
                            width as int,
                            r,
                        ) ==> !(r * width <= i < r * width + width)) implies dst@[i] == old(dst)@[i] by {
                    assert(row_fits(
                        src@.len() as int,
                        src_stride as int,
                        dst@.len() as int,
                        width as int,
                        row as int,
                    ));
                }
            }
        } else {
            proof {
                assert forall|i: int|
                    0 <= i < dst@.len() && (forall|r: int|
                        #![trigger row_fits(src@.len() as int, src_stride as int, dst@.len() as int, width as int, r)]
                        0 <= r < row + 1 && row_fits(
                            src@.len() as int,
                            src_stride as int,
                            dst@.len() as int,
                            width as int,
                            r,
                        ) ==> !(r * width <= i < r * width + width)) implies dst@[i] == old(dst)@[i] by {
                    assert forall|r: int|
                        0 <= r < row && row_fits(
                            src@.len() as int,
                            src_stride as int,
                            dst@.len() as int,
                            width as int,
                            r,
                        ) implies !(r * width <= i < r * width + width) by {
                        assert(row_fits(
                            src@.len() as int,
                            src_stride as int,
                            dst@.len() as int,
                            width as int,
                            r,
                        ));
                    }
                }
            }
        }
        row = row + 1;
    }
}

/// `n` zero bytes.
pub open spec fn zeros(n: nat) -> Seq<u8> {
    Seq::new(n, |i: int| 0u8)
}

/// A plane of `width` x `height` is addressable without overflow.
pub open spec fn plane_addressable(stride: nat, width: nat, height: nat) -> bool {
    height == 0 || ((height - 1) * stride + width <= usize::MAX && height * width <= usize::MAX)
}

fn packed_plane(src: &[u8], stride: usize, width: usize, height: usize) -> (out: Vec<u8>)
    requires
        plane_addressable(stride as nat, width as nat, height as nat),
        width * height <= usize::MAX,
    ensures
        out@.len() == width * height,
        plane_copied(src@, stride as int, zeros((width * height) as nat), out@, width as int, height as int),
{
    let mut out: Vec<u8> = vec![0u8; width * height];
    assert(out@ =~= zeros((width * height) as nat));
    copy_yuv420_plane(src, stride, out.as_mut_slice(), width, height);
    out
}

/// Packs strided Y, U and V planes of a `width` x `height` picture into a
/// tightly packed I420 frame; the chroma planes are half the size, rounded up.
#[allow(clippy::too_many_arguments)]
pub fn pack_i420(
    pts_us: i64,
    width: u32,
    height: u32,
    y: &[u8],
    y_stride: usize,
    u: &[u8],
    u_stride: usize,
    v: &[u8],
    v_stride: usize,
) -> (f: DecodedFrame)
    requires
        width * height <= usize::MAX,
        plane_addressable(y_stride as nat, width as nat, height as nat),
        plane_addressable(u_stride as nat, half_up(width as nat), half_up(height as nat)),
        plane_addressable(v_stride as nat, half_up(width as nat), half_up(height as nat)),
    ensures
        f.pts_us == pts_us,
        f.width == width,
        f.height == height,
        f.y_stride == width,
        f.uv_stride == half_up(width as nat),
        f.y_plane@.len() == width * height,
        f.u_plane@.len() == half_up(width as nat) * half_up(height as nat),
        f.v_plane@.len() == half_up(width as nat) * half_up(height as nat),
        plane_copied(y@, y_stride as int, zeros((width * height) as nat), f.y_plane@, width as int, height as int),
        plane_copied(
            u@,
            u_stride as int,
            zeros(half_up(width as nat) * half_up(height as nat)),
            f.u_plane@,
            half_up(width as nat) as int,
            half_up(height as nat) as int,
        ),
        plane_copied(
            v@,
            v_stride as int,
            zeros(half_up(width as nat) * half_up(height as nat)),
            f.v_plane@,
            half_up(width as nat) as int,
            half_up(height as nat) as int,
        ),
{
    let w = width as usize;
    let h = height as usize;
    let uv_w = w / 2 + w % 2;
    let uv_h = h / 2 + h % 2;
    assert(uv_w == half_up(w as nat));
    assert(uv_h == half_up(h as nat));
    assert(uv_w * uv_h <= w * h) by (nonlinear_arith)
        requires
            uv_w <= w,
            uv_h <= h,
    ;
    let y_plane = packed_plane(y, y_stride, w, h);
    let u_plane = packed_plane(u, u_stride, uv_w, uv_h);
    let v_plane = packed_plane(v, v_stride, uv_w, uv_h);
    DecodedFrame {
        pts_us,
        width,
        height,
        y_plane,
        u_plane,
        v_plane,
        y_stride: w,
        uv_stride: uv_w,
    }
}

/// Every plane of a `width` x `height` I420 picture with these strides is
/// addressable without overflow (what `pack_i420` needs).
pub open spec fn i420_fits(width: u32, height: u32, y_stride: usize, u_stride: usize, v_stride: usize) -> bool {
    &&& width * height <= usize::MAX
    &&& plane_addressable(y_stride as nat, width as nat, height as nat)
    &&& plane_addressable(u_stride as nat, half_up(width as nat), half_up(height as nat))
    &&& plane_addressable(v_stride as nat, half_up(width as nat), half_up(height as nat))
}

fn addressable(stride: usize, width: u64, height: u64) -> (b: bool)
    requires
        width <= u32::MAX as u64 + 1,
        height <= u32::MAX as u64 + 1,
    ensures
        b == plane_addressable(stride as nat, width as nat, height as nat),
{
    if height == 0 {
        return true;
    }
    assert((height as u128 - 1) * (stride as u128) <= 0x1_0000_0000 * 0xffff_ffff_ffff_ffff) by (nonlinear_arith)
        requires
            1 <= height <= 0x1_0000_0000,
            stride <= 0xffff_ffff_ffff_ffff,
    ;
    assert((height as u128) * (width as u128) <= 0x1_0000_0000 * 0x1_0000_0000) by (nonlinear_arith)
        requires
            height <= 0x1_0000_0000,
            width <= 0x1_0000_0000,
    ;
    let a = (height as u128 - 1) * (stride as u128) + width as u128;
    let b = (height as u128) * (width as u128);
    a <= usize::MAX as u128 && b <= usize::MAX as u128
}

/// Whether `pack_i420` can pack a picture of this size with these strides.
pub fn i420_fits_exec(width: u32, height: u32, y_stride: usize, u_stride: usize, v_stride: usize) -> (b: bool)
    ensures
        b == i420_fits(width, height, y_stride, u_stride, v_stride),
{
    assert((width as u128) * (height as u128) <= 0xffff_ffff * 0xffff_ffff) by (nonlinear_arith)
        requires
            width <= 0xffff_ffff,
            height <= 0xffff_ffff,
    ;
    let area = (width as u128) * (height as u128);
    let hw = (width as u64 + 1) / 2;
    let hh = (height as u64 + 1) / 2;
    area <= usize::MAX as u128 && addressable(y_stride, width as u64, height as u64)
        && addressable(u_stride, hw, hh) && addressable(v_stride, hw, hh)
}

} // verus!

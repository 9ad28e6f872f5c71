//! Texture atlases: small images packed into one large RGBA page to cut
//! texture switches.
//!
//! A [`TextureAtlas`] keeps the CPU copy of a page: the packing tree, the
//! rectangle of every image placed so far and the page's pixels. Uploading
//! the pixels to a GL texture is left to the caller, which asks
//! [`TextureAtlas::needs_upload`] and reports [`TextureAtlas::mark_uploaded`].

use crate::atlas_pack::{
    area_within, areas_disjoint, law_fresh_node_refines_root, law_placements_inside_root,
    law_refines_transitive, lemma_within_disjoint, refines, Area, PackNode,
};
use std::collections::HashMap;
use vstd::prelude::*;

verus! {

broadcast use vstd::std_specs::hash::group_hash_axioms;

/// Default page size (2048 x 2048).
pub const DEFAULT_SIZE: u32 = 2048;

/// Largest page size.
pub const MAX_SIZE: u32 = 4096;

/// Default padding around every image, in pixels.
pub const DEFAULT_PADDING: u32 = 1;

/// Largest image side packed into an atlas.
pub const MAX_ATLAS_IMAGE_SIZE: u32 = 512;

/// The rectangle of an image inside its page, in pixels.
#[derive(Debug, Clone, Copy, PartialEq, Eq, Structural)]
pub struct AtlasRect {
    pub x: u32,
    pub y: u32,
    pub width: u32,
    pub height: u32,
}

/// Why an image could not be added.
#[derive(Debug, Clone, Copy, PartialEq, Eq, Structural)]
pub enum AtlasError {
    /// No free space of the padded image's size is left.
    Full,
}

/// A rectangle as an area of the packing model.
pub open spec fn rect_area(r: AtlasRect) -> Area {
    (r.x as int, r.y as int, r.width as int, r.height as int)
}

// ---------------------------------------------------------------------------
// Pixel layout: rows of `width` RGBA pixels, 4 bytes each.
// ---------------------------------------------------------------------------

/// Byte `i` of a page `width` pixels wide shows a pixel of rectangle `r`.
pub open spec fn byte_in_rect(i: int, width: int, r: AtlasRect) -> bool {
    let p = i / 4;
    &&& r.x <= p % width < r.x + r.width
    &&& r.y <= p / width < r.y + r.height
}

/// Row of `r` that byte `i` falls in.
pub open spec fn rel_row(i: int, width: int, r: AtlasRect) -> int {
    (i / 4) / width - r.y
}

/// Byte offset within that row of `r`.
pub open spec fn rel_col(i: int, width: int, r: AtlasRect) -> int {
    ((i / 4) % width - r.x) * 4 + i % 4
}

/// `dst` with the bytes of rectangle `r` taken from the row-major image
/// `src` (which is `r.width` pixels wide).
pub open spec fn blit(dst: Seq<u8>, width: int, r: AtlasRect, src: Seq<u8>) -> Seq<u8> {
    Seq::new(
        dst.len(),
        |i: int|
            if byte_in_rect(i, width, r) {
                src[rel_row(i, width, r) * r.width * 4 + rel_col(i, width, r)]
            } else {
                dst[i]
            },
    )
}

/// `blit` done for the rows before `row` and the first `col` bytes of
/// `row`.
pub open spec fn blit_upto(
    dst: Seq<u8>,
    width: int,
    r: AtlasRect,
    src: Seq<u8>,
    row: int,
    col: int,
) -> Seq<u8> {
    Seq::new(
        dst.len(),
        |i: int|
            if byte_in_rect(i, width, r) && (rel_row(i, width, r) < row || (rel_row(i, width, r)
                == row && rel_col(i, width, r) < col)) {
                src[rel_row(i, width, r) * r.width * 4 + rel_col(i, width, r)]
            } else {
                dst[i]
            },
    )
}

/// The byte at row `row`, byte column `col` of rectangle `r` is byte
/// `((r.y + row) * width + r.x) * 4 + col` of the page, and no other byte
/// is.
proof fn lemma_byte_position(i: int, width: int, r: AtlasRect, row: int, col: int)
    requires
        0 <= row < r.height,
        0 <= col < r.width * 4,
        r.x + r.width <= width,
        0 <= i,
    ensures
        (i == ((r.y + row) * width + r.x) * 4 + col) <==> (byte_in_rect(i, width, r) && rel_row(
            i,
            width,
            r,
        ) == row && rel_col(i, width, r) == col),
{
    let k = ((r.y + row) * width + r.x) * 4 + col;
    let q = (r.y + row) * width + r.x + col / 4;
    assert(col == (col / 4) * 4 + col % 4) by {
        vstd::arithmetic::div_mod::lemma_fundamental_div_mod(col, 4);
    }
    assert(0 <= col / 4 < r.width) by {
        vstd::arithmetic::div_mod::lemma_div_pos_is_pos(col, 4);
        vstd::arithmetic::div_mod::lemma_div_is_ordered(col, r.width * 4 - 1, 4);
        vstd::arithmetic::div_mod::lemma_div_multiples_vanish_fancy(r.width as int - 1, 3, 4);
    }
    assert(k == q * 4 + col % 4) by (nonlinear_arith)
        requires
            k == ((r.y + row) * width + r.x) * 4 + col,
            q == (r.y + row) * width + r.x + col / 4,
            col == (col / 4) * 4 + col % 4,
    ;
    if i == k {
        vstd::arithmetic::div_mod::lemma_fundamental_div_mod_converse(i, 4, q, col % 4);
        vstd::arithmetic::div_mod::lemma_fundamental_div_mod_converse(
            q,
            width,
            r.y + row,
            r.x + col / 4,
        );
        assert(rel_col(i, width, r) == (col / 4) * 4 + col % 4);
    }
    if byte_in_rect(i, width, r) && rel_row(i, width, r) == row && rel_col(i, width, r) == col {
        let p = i / 4;
        vstd::arithmetic::div_mod::lemma_fundamental_div_mod(i, 4);
        vstd::arithmetic::div_mod::lemma_fundamental_div_mod(p, width);
        assert(0 <= i % 4 < 4);
        let cx = p % width - r.x;
        assert(col == cx * 4 + i % 4);
        vstd::arithmetic::div_mod::lemma_fundamental_div_mod_converse(col, 4, cx, i % 4);
        assert(p == width * (r.y + row) + (r.x + col / 4));
        assert(i == 4 * p + i % 4);
        assert(i == k) by (nonlinear_arith)
            requires
                i == 4 * p + i % 4,
                p == width * (r.y + row) + (r.x + col / 4),
                k == q * 4 + col % 4,
                q == (r.y + row) * width + r.x + col / 4,
                i % 4 == col % 4,
        ;
    }
}

/// A byte of `r` sits in a row below `r.height` and a byte column below
/// `4 * r.width`.
proof fn lemma_rel_bounds(i: int, width: int, r: AtlasRect)
    requires
        byte_in_rect(i, width, r),
        width > 0,
        0 <= i,
    ensures
        0 <= rel_row(i, width, r) < r.height,
        0 <= rel_col(i, width, r) < r.width * 4,
{
    vstd::arithmetic::div_mod::lemma_fundamental_div_mod(i, 4);
    assert(0 <= i % 4 < 4);
}

// ---------------------------------------------------------------------------
// The atlas page
// ---------------------------------------------------------------------------

/// One atlas page: the packing tree, the placed images and the pixels.
pub struct TextureAtlas {
    width: u32,
    height: u32,
    root: PackNode,
    regions: HashMap<u32, AtlasRect>,
    padding: u32,
    dirty: bool,
    pixels: Vec<u8>,
    used_area: u64,
}

impl TextureAtlas {
    /// Page width in pixels.
    pub closed spec fn spec_width(&self) -> u32 {
        self.width
    }

    /// Page height in pixels.
    pub closed spec fn spec_height(&self) -> u32 {
        self.height
    }

    /// Padding put around each new image.
    pub closed spec fn spec_padding(&self) -> u32 {
        self.padding
    }

    /// The rectangle of every image placed, by image id.
    pub closed spec fn regions(&self) -> Map<u32, AtlasRect> {
        self.regions@
    }

    /// The page's pixels, row-major RGBA.
    pub closed spec fn spec_pixels(&self) -> Seq<u8> {
        self.pixels@
    }

    /// Whether the pixels changed since the last upload.
    pub closed spec fn spec_dirty(&self) -> bool {
        self.dirty
    }

    /// Pixels covered by placed images (saturating).
    pub closed spec fn spec_used_area(&self) -> u64 {
        self.used_area
    }

    /// Where the page's packing tree puts a `w` x `h` image with its
    /// padding: the padded corner of the first free space that is large
    /// enough, right before bottom.
    pub closed spec fn placement_for(&self, w: u32, h: u32) -> Option<(int, int)> {
        self.root.placement(w + 2 * self.padding, h + 2 * self.padding)
    }

    /// Some free space takes a `w` x `h` image with its padding.
    pub closed spec fn has_room(&self, w: u32, h: u32) -> bool {
        exists|f: Area|
            #[trigger] self.root.free().contains(f) && f.2 >= w + 2 * self.padding && f.3 >= h
                + 2 * self.padding
    }

    /// The page: the tree only hands out space of the page, every image lies
    /// in space the tree has handed out, images never overlap and the pixel
    /// buffer has the page's size.
    pub closed spec fn wf(&self) -> bool {
        &&& self.width <= MAX_SIZE
        &&& self.height <= MAX_SIZE
        &&& self.pixels@.len() == self.width * self.height * 4
        &&& self.root.wf()
        &&& refines(self.root.all(), set![(0int, 0int, self.width as int, self.height as int)])
        &&& forall|id: u32| #[trigger]
            self.regions@.contains_key(id) ==> exists|a: Area|
                self.root.occupied().contains(a) && area_within(rect_area(self.regions@[id]), a)
        &&& forall|id: u32| #[trigger]
            self.regions@.contains_key(id) ==> area_within(
                rect_area(self.regions@[id]),
                (0int, 0int, self.width as int, self.height as int),
            )
        &&& forall|a: u32, b: u32|
            #[trigger] self.regions@.contains_key(a) && #[trigger] self.regions@.contains_key(b)
                && a != b ==> areas_disjoint(rect_area(self.regions@[a]), rect_area(self.regions@[b]))
    }

    /// An empty page of `width` x `height` pixels, each side capped at
    /// `MAX_SIZE`, all pixels zero, with the default padding.
    pub fn new(width: u32, height: u32) -> (a: Self)
        ensures
            a.wf(),
            a.spec_width() == (if width < MAX_SIZE { width } else { MAX_SIZE }),
            a.spec_height() == (if height < MAX_SIZE { height } else { MAX_SIZE }),
            a.spec_padding() == DEFAULT_PADDING,
            a.regions() == Map::<u32, AtlasRect>::empty(),
            a.spec_pixels() == Seq::new((a.spec_width() * a.spec_height() * 4) as nat, |i: int| 0u8),
            !a.spec_dirty(),
            a.spec_used_area() == 0,
            forall|w: u32, h: u32|
                #[trigger] a.has_room(w, h) <==> (w + 2 * DEFAULT_PADDING <= a.spec_width() && h + 2
                    * DEFAULT_PADDING <= a.spec_height()),
    {
        let width = if width < MAX_SIZE {
            width
        } else {
            MAX_SIZE
        };
        let height = if height < MAX_SIZE {
            height
        } else {
            MAX_SIZE
        };
        proof {
            assert(width * height <= MAX_SIZE * MAX_SIZE) by (nonlinear_arith)
                requires
                    width <= MAX_SIZE,
                    height <= MAX_SIZE,
            ;
        }
        let n: usize = (width as usize) * (height as usize) * 4;
        let pixels: Vec<u8> = vec![0u8; n];
        let root = PackNode::new(0, 0, width, height);
        proof {
            law_fresh_node_refines_root(root);
            assert(pixels@ =~= Seq::new(n as nat, |i: int| 0u8));
        }
        let a = TextureAtlas {
            width,
            height,
            root,
            regions: HashMap::new(),
            padding: DEFAULT_PADDING,
            dirty: false,
            pixels,
            used_area: 0,
        };
        proof {
            assert forall|w: u32, h: u32|
                #[trigger] a.has_room(w, h) <==> (w + 2 * DEFAULT_PADDING <= a.spec_width() && h + 2
                    * DEFAULT_PADDING <= a.spec_height()) by {
                let whole: Area = (0int, 0int, width as int, height as int);
                assert(a.root.free() == set![whole]);
                assert(a.root.free().contains(whole));
                if a.has_room(w, h) {
                    let f = choose|f: Area|
                        #[trigger] a.root.free().contains(f) && f.2 >= w + 2 * a.padding && f.3 >= h
                            + 2 * a.padding;
                    assert(f == whole);
                }
            }
        }
        a
    }

    /// `(width, height)` of the page.
    pub fn size(&self) -> (s: (u32, u32))
        ensures
            s == (self.spec_width(), self.spec_height()),
    {
        (self.width, self.height)
    }

    /// Set the padding put around images added from now on.
    pub fn set_padding(&mut self, padding: u32)
        requires
            old(self).wf(),
        ensures
            final(self).wf(),
            final(self).spec_padding() == padding,
            final(self).spec_width() == old(self).spec_width(),
            final(self).spec_height() == old(self).spec_height(),
            final(self).regions() == old(self).regions(),
            final(self).spec_pixels() == old(self).spec_pixels(),
            final(self).spec_dirty() == old(self).spec_dirty(),
            final(self).spec_used_area() == old(self).spec_used_area(),
    {
        self.padding = padding;
    }

    /// Add a `width` x `height` image (row-major RGBA in `rgba`) under
    /// `image_id`. An id already present gives back its rectangle and
    /// changes nothing; otherwise the image is packed with the page's
    /// padding and its pixels copied in, or `AtlasError::Full` is returned
    /// when no free space is large enough.
    pub fn add_image(&mut self, image_id: u32, width: u32, height: u32, rgba: &[u8]) -> (res:
        Result<AtlasRect, AtlasError>)
        requires
            old(self).wf(),
            width + 2 * old(self).spec_padding() <= u32::MAX,
            height + 2 * old(self).spec_padding() <= u32::MAX,
            rgba@.len() >= width * height * 4,
        ensures
            final(self).wf(),
            final(self).spec_width() == old(self).spec_width(),
            final(self).spec_height() == old(self).spec_height(),
            final(self).spec_padding() == old(self).spec_padding(),
            old(self).regions().contains_key(image_id) ==> res == Ok::<AtlasRect, AtlasError>(
                old(self).regions()[image_id],
            ),
            !old(self).regions().contains_key(image_id) ==> (res is Err <==> !old(self).has_room(
                width,
                height,
            )),
            res is Err ==> res == Err::<AtlasRect, AtlasError>(AtlasError::Full),
            old(self).regions().contains_key(image_id) || res is Err ==> *final(self) == *old(self),
            !old(self).regions().contains_key(image_id) && res is Ok ==> {
                let r = res->Ok_0;
                &&& r.width == width && r.height == height
                &&& old(self).placement_for(width, height) == Some(
                    (r.x - old(self).spec_padding(), r.y - old(self).spec_padding()),
                )
                &&& final(self).regions() == old(self).regions().insert(image_id, r)
                &&& final(self).spec_pixels() == blit(
                    old(self).spec_pixels(),
                    old(self).spec_width() as int,
                    r,
                    rgba@,
                )
                &&& final(self).spec_dirty()
                &&& final(self).spec_used_area() == (if old(self).spec_used_area() + width
                    * height <= u64::MAX {
                    (old(self).spec_used_area() + width * height) as u64
                } else {
                    u64::MAX
                })
            },
    {
        match self.regions.get(&image_id) {
            Some(r) => {
                return Ok(*r);
            },
            None => {},
        }
        let ghost old_root = self.root;
        let ghost page: Area = (0int, 0int, self.width as int, self.height as int);
        let pos = self.root.insert(image_id, width, height, self.padding);
        let (x, y) = match pos {
            Some(p) => p,
            None => {
                return Err(AtlasError::Full);
            },
        };
        let r = AtlasRect { x, y, width, height };
        let ghost pad = self.padding as int;
        let ghost p: Area = (x - pad, y - pad, width + 2 * pad, height + 2 * pad);
        proof {
            law_refines_transitive(self.root.all(), old_root.all(), set![page]);
            law_placements_inside_root(self.root, page);
            assert(self.root.occupied().contains(p));
            assert(area_within(rect_area(r), p));
        }
        if width > 0 && height > 0 {
            proof {
                assert(area_within(p, page));
                assert(x + width <= self.width && y + height <= self.height);
            }
            self.copy_rows(r, rgba);
        } else {
            proof {
                assert(self.pixels@ =~= blit(self.pixels@, self.width as int, r, rgba@));
            }
        }
        let ghost old_regions = self.regions@;
        proof {
            assert forall|id: u32| #[trigger]
                old_regions.contains_key(id) implies areas_disjoint(
                rect_area(r),
                rect_area(old_regions[id]),
            ) by {
                let a = choose|a: Area|
                    old_root.occupied().contains(a) && area_within(rect_area(old_regions[id]), a);
                assert(areas_disjoint(p, a));
                lemma_within_disjoint(rect_area(r), p, a);
                lemma_within_disjoint(rect_area(old_regions[id]), a, rect_area(r));
            }
        }
        self.regions.insert(image_id, r);
        self.dirty = true;
        proof {
            assert(width * height <= 0xFFFF_FFFF * 0xFFFF_FFFF) by (nonlinear_arith)
                requires
                    width <= 0xFFFF_FFFF,
                    height <= 0xFFFF_FFFF,
            ;
        }
        self.used_area = self.used_area.saturating_add((width as u64) * (height as u64));
        proof {
            assert forall|id: u32| #[trigger]
                self.regions@.contains_key(id) implies exists|a: Area|
                self.root.occupied().contains(a) && area_within(rect_area(self.regions@[id]), a) by {
                if id != image_id {
                    let a = choose|a: Area|
                        old_root.occupied().contains(a) && area_within(
                            rect_area(old_regions[id]),
                            a,
                        );
                    assert(self.root.occupied().contains(a));
                } else {
                    assert(self.root.occupied().contains(p) && area_within(
                        rect_area(self.regions@[id]),
                        p,
                    ));
                }
            }
            assert forall|id: u32| #[trigger]
                self.regions@.contains_key(id) implies area_within(
                rect_area(self.regions@[id]),
                page,
            ) by {
                if id == image_id {
                    if width > 0 && height > 0 {
                        assert(area_within(p, page));
                    }
                }
            }
        }
        Ok(r)
    }

    /// Copy the rows of a `r.width` x `r.height` image into rectangle `r`.
    fn copy_rows(&mut self, r: AtlasRect, rgba: &[u8])
        requires
            old(self).pixels@.len() == old(self).width * old(self).height * 4,
            old(self).width <= MAX_SIZE,
            old(self).height <= MAX_SIZE,
            r.x + r.width <= old(self).width,
            r.y + r.height <= old(self).height,
            rgba@.len() >= r.width * r.height * 4,
        ensures
            final(self).pixels@ == blit(old(self).pixels@, old(self).width as int, r, rgba@),
            final(self).width == old(self).width,
            final(self).height == old(self).height,
            final(self).root == old(self).root,
            final(self).regions == old(self).regions,
            final(self).padding == old(self).padding,
            final(self).dirty == old(self).dirty,
            final(self).used_area == old(self).used_area,
    {
        let ghost w = self.width as int;
        let ghost base = self.pixels@;
        let row_size: usize = (r.width as usize) * 4;
        let mut row: u32 = 0;
        proof {
            assert(base =~= blit_upto(base, w, r, rgba@, 0, 0));
        }
        while row < r.height
            invariant
                row <= r.height,
                self.pixels@ == blit_upto(base, w, r, rgba@, row as int, 0),
                w == self.width,
                base.len() == self.width * self.height * 4,
                self.width <= MAX_SIZE,
                self.height <= MAX_SIZE,
                r.x + r.width <= self.width,
                r.y + r.height <= self.height,
                rgba@.len() >= r.width * r.height * 4,
                row_size == r.width * 4,
                self.root == old(self).root,
                self.regions == old(self).regions,
                self.padding == old(self).padding,
                self.dirty == old(self).dirty,
                self.used_area == old(self).used_area,
                self.height == old(self).height,
            decreases r.height - row,
        {
            proof {
                assert((r.y + row) * self.width + r.x + r.width <= self.width * self.height)
                    by (nonlinear_arith)
                    requires
                        row < r.height,
                        r.y + r.height <= self.height,
                        r.x + r.width <= self.width,
                ;
                assert(self.width * self.height <= MAX_SIZE * MAX_SIZE) by (nonlinear_arith)
                    requires
                        self.width <= MAX_SIZE,
                        self.height <= MAX_SIZE,
                ;
                assert((row + 1) * r.width <= r.width * r.height) by (nonlinear_arith)
                    requires
                        row < r.height,
                ;
                assert(r.width * r.height <= MAX_SIZE * MAX_SIZE) by (nonlinear_arith)
                    requires
                        r.width <= MAX_SIZE,
                        r.height <= MAX_SIZE,
                ;
                assert(row * (r.width * 4) <= MAX_SIZE * MAX_SIZE * 4) by (nonlinear_arith)
                    requires
                        row < r.height,
                        r.width <= MAX_SIZE,
                        r.height <= MAX_SIZE,
                ;
                assert(((r.y + row) * self.width + r.x) * 4 <= MAX_SIZE * MAX_SIZE * 4)
                    by (nonlinear_arith)
                    requires
                        (r.y + row) * self.width + r.x + r.width <= self.width * self.height,
                        self.width * self.height <= MAX_SIZE * MAX_SIZE,
                ;
            }
            let src_off: usize = (row as usize) * row_size;
            let dst_off: usize = (((r.y + row) as usize) * (self.width as usize) + (r.x as usize))
                * 4;
            let mut c: usize = 0;
            while c < row_size
                invariant
                    c <= row_size,
                    row < r.height,
                    self.pixels@ == blit_upto(base, w, r, rgba@, row as int, c as int),
                    w == self.width,
                    base.len() == self.width * self.height * 4,
                    r.x + r.width <= self.width,
                    r.y + r.height <= self.height,
                    rgba@.len() >= r.width * r.height * 4,
                    row_size == r.width * 4,
                    src_off == row * (r.width * 4),
                    dst_off == ((r.y + row) * self.width + r.x) * 4,
                    src_off <= MAX_SIZE * MAX_SIZE * 4,
                    dst_off <= MAX_SIZE * MAX_SIZE * 4,
                    r.width <= MAX_SIZE,
                    (r.y + row) * self.width + r.x + r.width <= self.width * self.height,
                    (row + 1) * r.width <= r.width * r.height,
                    self.root == old(self).root,
                    self.regions == old(self).regions,
                    self.padding == old(self).padding,
                    self.dirty == old(self).dirty,
                    self.used_area == old(self).used_area,
                    self.height == old(self).height,
                decreases row_size - c,
            {
                let ghost before = self.pixels@;
                proof {
                    assert(src_off + c < rgba@.len()) by (nonlinear_arith)
                        requires
                            src_off == row * (r.width * 4),
                            c < r.width * 4,
                            (row + 1) * r.width <= r.width * r.height,
                            rgba@.len() >= r.width * r.height * 4,
                    ;
                    assert(dst_off + c < base.len()) by (nonlinear_arith)
                        requires
                            dst_off == ((r.y + row) * self.width + r.x) * 4,
                            c < r.width * 4,
                            (r.y + row) * self.width + r.x + r.width <= self.width * self.height,
                            base.len() == self.width * self.height * 4,
                    ;
                }
                let b = rgba[src_off + c];
                self.pixels.set(dst_off + c, b);
                proof {
                    let target = blit_upto(base, w, r, rgba@, row as int, c + 1);
                    assert forall|i: int| 0 <= i < base.len() implies #[trigger] self.pixels@[i]
                        == target[i] by {
                        lemma_byte_position(i, w, r, row as int, c as int);
                        if i == dst_off + c {
                            assert(src_off + c == row * r.width * 4 + c) by (nonlinear_arith)
                                requires
                                    src_off == row * (r.width * 4),
                            ;
                        } else {
                            assert(self.pixels@[i] == before[i]);
                        }
                    }
                    assert(self.pixels@ =~= target);
                }
                c = c + 1;
            }
            proof {
                let next = blit_upto(base, w, r, rgba@, row + 1, 0);
                assert forall|i: int| 0 <= i < base.len() implies #[trigger] self.pixels@[i]
                    == next[i] by {
                    if byte_in_rect(i, w, r) {
                        lemma_rel_bounds(i, w, r);
                    }
                }
                assert(self.pixels@ =~= next);
            }
            row = row + 1;
        }
        proof {
            let full = blit(base, w, r, rgba@);
            assert forall|i: int| 0 <= i < base.len() implies #[trigger] self.pixels@[i]
                == full[i] by {
                if byte_in_rect(i, w, r) {
                    lemma_rel_bounds(i, w, r);
                }
            }
            assert(self.pixels@ =~= full);
        }
    }

    /// The rectangle of `image_id`, if it was added.
    pub fn get_region(&self, image_id: u32) -> (r: Option<AtlasRect>)
        ensures
            r == (if self.regions().contains_key(image_id) {
                Some(self.regions()[image_id])
            } else {
                None
            }),
    {
        match self.regions.get(&image_id) {
            Some(r) => Some(*r),
            None => None,
        }
    }

    /// Whether `image_id` was added.
    pub fn contains(&self, image_id: u32) -> (b: bool)
        ensures
            b == self.regions().contains_key(image_id),
    {
        self.regions.contains_key(&image_id)
    }

    /// Number of images in the page.
    pub fn image_count(&self) -> (n: usize)
        ensures
            n == self.regions().len(),
    {
        self.regions.len()
    }

    /// Pixels covered by images (saturating at `u64::MAX`).
    pub fn used_area(&self) -> (n: u64)
        ensures
            n == self.spec_used_area(),
    {
        self.used_area
    }

    /// The page's pixels, row-major RGBA.
    pub fn pixels(&self) -> (p: &[u8])
        ensures
            p@ == self.spec_pixels(),
    {
        self.pixels.as_slice()
    }

    /// Whether the pixels changed since the last upload.
    pub fn needs_upload(&self) -> (b: bool)
        ensures
            b == self.spec_dirty(),
    {
        self.dirty
    }

    /// Record that the pixels were uploaded.
    pub fn mark_uploaded(&mut self)
        requires
            old(self).wf(),
        ensures
            final(self).wf(),
            !final(self).spec_dirty(),
            final(self).spec_width() == old(self).spec_width(),
            final(self).spec_height() == old(self).spec_height(),
            final(self).spec_padding() == old(self).spec_padding(),
            final(self).regions() == old(self).regions(),
            final(self).spec_pixels() == old(self).spec_pixels(),
            final(self).spec_used_area() == old(self).spec_used_area(),
    {
        self.dirty = false;
    }
}

/// The page takes image `image_id` of `w` x `h` pixels: it has it already
/// or has room for it.
pub open spec fn page_accepts(page: TextureAtlas, image_id: u32, w: u32, h: u32) -> bool {
    page.regions().contains_key(image_id) || page.has_room(w, h)
}

/// Side of a page the manager opens for `atlas_size`.
pub open spec fn fresh_page_side(atlas_size: u32) -> u32 {
    if atlas_size < MAX_SIZE {
        atlas_size
    } else {
        MAX_SIZE
    }
}

/// A freshly opened page takes a `w` x `h` image with its padding.
pub open spec fn fresh_page_takes(atlas_size: u32, w: u32, h: u32) -> bool {
    w + 2 * DEFAULT_PADDING <= fresh_page_side(atlas_size) && h + 2 * DEFAULT_PADDING
        <= fresh_page_side(atlas_size)
}

/// Several atlas pages, filled in order.
pub struct AtlasManager {
    atlases: Vec<TextureAtlas>,
    image_atlas_map: HashMap<u32, usize>,
    atlas_size: u32,
    max_image_size: u32,
}

impl AtlasManager {
    /// The pages, in creation order.
    pub closed spec fn pages(&self) -> Seq<TextureAtlas> {
        self.atlases@
    }

    /// Page index of every image, as last added.
    pub closed spec fn page_of(&self) -> Map<u32, usize> {
        self.image_atlas_map@
    }

    /// Side of new pages.
    pub closed spec fn spec_atlas_size(&self) -> u32 {
        self.atlas_size
    }

    /// Every page is a well-formed page with the default padding.
    pub closed spec fn wf(&self) -> bool {
        &&& self.max_image_size == MAX_ATLAS_IMAGE_SIZE
        &&& forall|i: int|
            0 <= i < self.atlases@.len() ==> (#[trigger] self.atlases@[i]).wf()
                && self.atlases@[i].spec_padding() == DEFAULT_PADDING
    }

    /// No pages yet; new pages are `atlas_size` pixels square.
    pub fn new(atlas_size: u32) -> (m: Self)
        ensures
            m.wf(),
            m.pages() == Seq::<TextureAtlas>::empty(),
            m.page_of() == Map::<u32, usize>::empty(),
            m.spec_atlas_size() == atlas_size,
    {
        AtlasManager {
            atlases: Vec::new(),
            image_atlas_map: HashMap::new(),
            atlas_size,
            max_image_size: MAX_ATLAS_IMAGE_SIZE,
        }
    }

    /// Whether a `width` x `height` image is small enough for a page.
    pub fn should_atlas(&self, width: u32, height: u32) -> (b: bool)
        requires
            self.wf(),
        ensures
            b == (width <= MAX_ATLAS_IMAGE_SIZE && height <= MAX_ATLAS_IMAGE_SIZE),
    {
        width <= self.max_image_size && height <= self.max_image_size
    }

    /// Add an image to the first page that takes it, or to a new page when
    /// none does. Returns `Ok(None)` for an image too large for pages,
    /// `Ok(Some((page, rect)))` once placed, and `AtlasError::Full` when
    /// even a new page has no room (the new page is then dropped).
    pub fn add_image(&mut self, image_id: u32, width: u32, height: u32, rgba: &[u8]) -> (res:
        Result<Option<(usize, AtlasRect)>, AtlasError>)
        requires
            old(self).wf(),
            rgba@.len() >= width * height * 4,
        ensures
            final(self).wf(),
            final(self).spec_atlas_size() == old(self).spec_atlas_size(),
            !(width <= MAX_ATLAS_IMAGE_SIZE && height <= MAX_ATLAS_IMAGE_SIZE) ==> res == Ok::<
                Option<(usize, AtlasRect)>,
                AtlasError,
            >(None) && final(self).pages() == old(self).pages() && final(self).page_of() == old(self).page_of(),
            res == Ok::<Option<(usize, AtlasRect)>, AtlasError>(None) ==> !(width <= MAX_ATLAS_IMAGE_SIZE
                && height <= MAX_ATLAS_IMAGE_SIZE),
            width <= MAX_ATLAS_IMAGE_SIZE && height <= MAX_ATLAS_IMAGE_SIZE ==> (res is Err <==> (
            (forall|j: int|
                0 <= j < old(self).pages().len() ==> !page_accepts(
                    #[trigger] old(self).pages()[j],
                    image_id,
                    width,
                    height,
                )) && !fresh_page_takes(old(self).spec_atlas_size(), width, height))),
            res is Err ==> res == Err::<Option<(usize, AtlasRect)>, AtlasError>(AtlasError::Full)
                && final(self).pages() == old(self).pages() && final(self).page_of() == old(self).page_of(),
            res is Err ==> forall|j: int|
                0 <= j < old(self).pages().len() ==> !page_accepts(
                    #[trigger] old(self).pages()[j],
                    image_id,
                    width,
                    height,
                ),
            res matches Ok(Some((idx, r))) ==> {
                &&& idx <= old(self).pages().len()
                &&& forall|j: int|
                    0 <= j < idx ==> !page_accepts(
                        #[trigger] old(self).pages()[j],
                        image_id,
                        width,
                        height,
                    )
                &&& idx < old(self).pages().len() ==> page_accepts(
                    old(self).pages()[idx as int],
                    image_id,
                    width,
                    height,
                ) && final(self).pages().len() == old(self).pages().len()
                &&& idx == old(self).pages().len() ==> final(self).pages().len() == idx + 1
                    && final(self).pages()[idx as int].spec_width() == (if old(self).spec_atlas_size() < MAX_SIZE {
                    old(self).spec_atlas_size()
                } else {
                    MAX_SIZE
                })
                &&& final(self).pages()[idx as int].regions().contains_key(image_id)
                &&& final(self).pages()[idx as int].regions()[image_id] == r
                &&& forall|j: int|
                    0 <= j < old(self).pages().len() && j != idx ==> #[trigger] final(self).pages()[j] == old(self).pages()[j]
                &&& final(self).page_of() == old(self).page_of().insert(image_id, idx)
            },
            res matches Ok(Some((idx, r))) ==> r.width == width && r.height == height || old(self).pages()[idx as int].regions().contains_key(image_id),
    {
        if !self.should_atlas(width, height) {
            return Ok(None);
        }
        let n = self.atlases.len();
        for i in 0..n
            invariant
                n == old(self).atlases@.len(),
                self.atlases@ == old(self).atlases@,
                self.image_atlas_map == old(self).image_atlas_map,
                self.atlas_size == old(self).atlas_size,
                self.max_image_size == old(self).max_image_size,
                old(self).wf(),
                width <= MAX_ATLAS_IMAGE_SIZE && height <= MAX_ATLAS_IMAGE_SIZE,
                rgba@.len() >= width * height * 4,
                forall|j: int|
                    0 <= j < i ==> !page_accepts(
                        #[trigger] old(self).atlases@[j],
                        image_id,
                        width,
                        height,
                    ),
        {
            let ghost before = self.atlases@[i as int];
            let mut page = self.atlases.remove(i);
            let res = page.add_image(image_id, width, height, rgba);
            self.atlases.insert(i, page);
            proof {
                assert(self.atlases@ =~= old(self).atlases@.update(i as int, page));
            }
            match res {
                Ok(r) => {
                    proof {
                        assert(page_accepts(before, image_id, width, height));
                        assert(page_accepts(old(self).pages()[i as int], image_id, width, height));
                    }
                    self.image_atlas_map.insert(image_id, i);
                    proof {
                        assert forall|j: int|
                            0 <= j < self.atlases@.len() implies (#[trigger] self.atlases@[j]).wf()
                            && self.atlases@[j].spec_padding() == DEFAULT_PADDING by {
                            if j != i {
                                assert(self.atlases@[j] == old(self).atlases@[j]);
                            }
                        }
                    }
                    return Ok(Some((i, r)));
                },
                Err(_) => {
                    proof {
                        assert(page == before);
                        assert(self.atlases@ =~= old(self).atlases@);
                    }
                },
            }
        }
        let mut page = TextureAtlas::new(self.atlas_size, self.atlas_size);
        let res = page.add_image(image_id, width, height, rgba);
        match res {
            Ok(r) => {
                self.image_atlas_map.insert(image_id, n);
                self.atlases.push(page);
                proof {
                    assert forall|j: int|
                        0 <= j < self.atlases@.len() implies (#[trigger] self.atlases@[j]).wf()
                        && self.atlases@[j].spec_padding() == DEFAULT_PADDING by {
                        if j < n {
                            assert(self.atlases@[j] == old(self).atlases@[j]);
                        }
                    }
                }
                Ok(Some((n, r)))
            },
            Err(e) => Err(e),
        }
    }

    /// The page and rectangle of `image_id`, if it was added.
    pub fn get_image(&self, image_id: u32) -> (r: Option<(usize, AtlasRect)>)
        ensures
            match r {
                Some((idx, rect)) => {
                    &&& self.page_of().contains_key(image_id)
                    &&& idx == self.page_of()[image_id]
                    &&& idx < self.pages().len()
                    &&& self.pages()[idx as int].regions().contains_key(image_id)
                    &&& rect == self.pages()[idx as int].regions()[image_id]
                },
                None => !(self.page_of().contains_key(image_id) && self.page_of()[image_id]
                    < self.pages().len() && self.pages()[self.page_of()[image_id] as int].regions().contains_key(
                    image_id,
                )),
            },
    {
        let idx = match self.image_atlas_map.get(&image_id) {
            Some(i) => *i,
            None => {
                return None;
            },
        };
        if idx >= self.atlases.len() {
            return None;
        }
        match self.atlases[idx].get_region(image_id) {
            Some(rect) => Some((idx, rect)),
            None => None,
        }
    }

    /// Number of pages.
    pub fn page_count(&self) -> (n: usize)
        ensures
            n == self.pages().len(),
    {
        self.atlases.len()
    }

    /// Number of images with a page.
    pub fn image_count(&self) -> (n: usize)
        ensures
            n == self.page_of().len(),
    {
        self.image_atlas_map.len()
    }

    /// Page `i`.
    pub fn page(&self, i: usize) -> (p: &TextureAtlas)
        requires
            i < self.pages().len(),
        ensures
            *p == self.pages()[i as int],
    {
        &self.atlases[i]
    }

    /// Record that page `i` was uploaded.
    pub fn mark_page_uploaded(&mut self, i: usize)
        requires
            old(self).wf(),
            i < old(self).pages().len(),
        ensures
            final(self).wf(),
            final(self).pages().len() == old(self).pages().len(),
            !final(self).pages()[i as int].spec_dirty(),
            final(self).pages()[i as int].regions() == old(self).pages()[i as int].regions(),
            final(self).pages()[i as int].spec_pixels() == old(self).pages()[i as int].spec_pixels(),
            forall|j: int|
                0 <= j < old(self).pages().len() && j != i ==> #[trigger] final(self).pages()[j]
                    == old(self).pages()[j],
            final(self).page_of() == old(self).page_of(),
            final(self).spec_atlas_size() == old(self).spec_atlas_size(),
    {
        let mut page = self.atlases.remove(i);
        page.mark_uploaded();
        self.atlases.insert(i, page);
        proof {
            assert(self.atlases@ =~= old(self).atlases@.update(i as int, page));
            assert forall|j: int|
                0 <= j < self.atlases@.len() implies (#[trigger] self.atlases@[j]).wf()
                && self.atlases@[j].spec_padding() == DEFAULT_PADDING by {
                if j != i {
                    assert(self.atlases@[j] == old(self).atlases@[j]);
                }
            }
        }
    }

    /// Drop every page and forget every image.
    pub fn clear(&mut self)
        requires
            old(self).wf(),
        ensures
            final(self).wf(),
            final(self).pages() == Seq::<TextureAtlas>::empty(),
            final(self).page_of() == Map::<u32, usize>::empty(),
            final(self).spec_atlas_size() == old(self).spec_atlas_size(),
    {
        self.atlases = Vec::new();
        self.image_atlas_map = HashMap::new();
    }
}

/// Images placed in one page never overlap.
pub proof fn law_atlas_images_disjoint(atlas: TextureAtlas, a: u32, b: u32)
    requires
        atlas.wf(),
        atlas.regions().contains_key(a),
        atlas.regions().contains_key(b),
        a != b,
    ensures
        areas_disjoint(rect_area(atlas.regions()[a]), rect_area(atlas.regions()[b])),
{
}

/// Every image lies inside its page.
pub proof fn law_atlas_images_inside_page(atlas: TextureAtlas, a: u32)
    requires
        atlas.wf(),
        atlas.regions().contains_key(a),
    ensures
        area_within(
            rect_area(atlas.regions()[a]),
            (0int, 0int, atlas.spec_width() as int, atlas.spec_height() as int),
        ),
{
}

} // verus!

//! Binary-tree rectangle packing for texture atlases.
//!
//! Every node of the tree owns a rectangle of the atlas.  A node without an
//! image and without children is free space; inserting an image into a free
//! node that is larger than the (padded) image shrinks the node to the image
//! and hands the remaining space to two new free children.  The model below
//! states which rectangles are occupied and which are free, and the laws show
//! that placed images never overlap and never leave the space they were
//! carved from.

use vstd::prelude::*;

verus! {

/// A rectangle `(x, y, width, height)` with integer coordinates.
pub type Area = (int, int, int, int);

/// The rectangle covers no pixel.
pub open spec fn area_empty(a: Area) -> bool {
    a.2 <= 0 || a.3 <= 0
}

/// The two rectangles share no pixel.
pub open spec fn areas_disjoint(a: Area, b: Area) -> bool {
    ||| area_empty(a)
    ||| area_empty(b)
    ||| a.0 + a.2 <= b.0
    ||| b.0 + b.2 <= a.0
    ||| a.1 + a.3 <= b.1
    ||| b.1 + b.3 <= a.1
}

/// Every pixel of `a` lies in `b`.
pub open spec fn area_within(a: Area, b: Area) -> bool {
    area_empty(a) || (b.0 <= a.0 && a.0 + a.2 <= b.0 + b.2 && b.1 <= a.1 && a.1 + a.3 <= b.1 + b.3)
}

/// Every rectangle of `s` is disjoint from every rectangle of `t`.
pub open spec fn sets_disjoint(s: Set<Area>, t: Set<Area>) -> bool {
    forall|a: Area, b: Area| s.contains(a) && t.contains(b) ==> areas_disjoint(a, b)
}

/// Every rectangle of `s` lies in some rectangle of `t`.
pub open spec fn refines(s: Set<Area>, t: Set<Area>) -> bool {
    forall|a: Area| #[trigger] s.contains(a) ==> exists|b: Area| t.contains(b) && area_within(a, b)
}

/// A rectangle inside a rectangle disjoint from `c` is disjoint from `c`.
pub proof fn lemma_within_disjoint(a: Area, b: Area, c: Area)
    requires
        area_within(a, b),
        areas_disjoint(b, c),
    ensures
        areas_disjoint(a, c),
{
}

/// Containment is transitive.
pub proof fn lemma_within_trans(a: Area, b: Area, c: Area)
    requires
        area_within(a, b),
        area_within(b, c),
    ensures
        area_within(a, c),
{
}

/// Disjointness of two sets of rectangles is symmetric.
pub proof fn lemma_sets_disjoint_sym(s: Set<Area>, t: Set<Area>)
    requires
        sets_disjoint(s, t),
    ensures
        sets_disjoint(t, s),
{
    assert forall|a: Area, b: Area| t.contains(a) && s.contains(b) implies areas_disjoint(a, b) by {
        assert(areas_disjoint(b, a));
    }
}

/// A node of the packing tree.
#[derive(Debug)]
pub struct PackNode {
    x: u32,
    y: u32,
    width: u32,
    height: u32,
    /// Image stored in this node, if any.
    image_id: Option<u32>,
    /// Child nodes (right, bottom).
    children: Option<Box<(PackNode, PackNode)>>,
}

impl PackNode {
    /// The rectangle this node owns.
    pub closed spec fn own(self) -> Area {
        (self.x as int, self.y as int, self.width as int, self.height as int)
    }

    /// The image stored in this node itself.
    pub closed spec fn image(self) -> Option<u32> {
        self.image_id
    }

    /// Whether this node has been split.
    pub closed spec fn is_split(self) -> bool {
        self.children is Some
    }

    /// Rectangles of the tree that hold an image.
    pub closed spec fn occupied(self) -> Set<Area>
        decreases self,
    {
        let mine = if self.image_id is Some {
            set![self.own()]
        } else {
            Set::empty()
        };
        match self.children {
            Some(ch) => mine + ch.0.occupied() + ch.1.occupied(),
            None => mine,
        }
    }

    /// Rectangles of the tree that are still free.
    pub closed spec fn free(self) -> Set<Area>
        decreases self,
    {
        match self.children {
            Some(ch) => ch.0.free() + ch.1.free(),
            None => if self.image_id is Some {
                Set::empty()
            } else {
                set![self.own()]
            },
        }
    }

    /// Every rectangle the tree accounts for, occupied or free.
    pub open spec fn all(self) -> Set<Area> {
        self.occupied() + self.free()
    }

    /// Well-formedness: coordinates do not overflow, split nodes hold an
    /// image, and the rectangles of a node, its right subtree and its bottom
    /// subtree are pairwise disjoint.
    pub closed spec fn wf(self) -> bool
        decreases self,
    {
        &&& self.x + self.width <= u32::MAX
        &&& self.y + self.height <= u32::MAX
        &&& match self.children {
            Some(ch) => {
                &&& self.image_id is Some
                &&& ch.0.wf()
                &&& ch.1.wf()
                &&& sets_disjoint(set![self.own()], ch.0.all())
                &&& sets_disjoint(set![self.own()], ch.1.all())
                &&& sets_disjoint(ch.0.all(), ch.1.all())
            },
            None => true,
        }
    }

    /// Where the search places a `pw` x `ph` padded image: the corner of
    /// the first free node, right subtree before bottom, that is large
    /// enough; `None` when no free node is.
    pub closed spec fn placement(self, pw: int, ph: int) -> Option<(int, int)>
        decreases self,
    {
        match self.children {
            Some(ch) => match ch.0.placement(pw, ph) {
                Some(p) => Some(p),
                None => ch.1.placement(pw, ph),
            },
            None => if self.image_id is Some {
                None
            } else if pw <= self.width && ph <= self.height {
                Some((self.x as int, self.y as int))
            } else {
                None
            },
        }
    }

    /// A fresh, empty node covering `(x, y, width, height)`.
    pub fn new(x: u32, y: u32, width: u32, height: u32) -> (n: Self)
        ensures
            n.own() == (x as int, y as int, width as int, height as int),
            n.image() is None,
            !n.is_split(),
            n.occupied() == Set::<Area>::empty(),
            n.free() == set![n.own()],
            x + width <= u32::MAX && y + height <= u32::MAX ==> n.wf(),
    {
        let n = PackNode { x, y, width, height, image_id: None, children: None };
        proof {
            assert(n.occupied() =~= Set::<Area>::empty());
        }
        n
    }

    /// Try to place a `w` x `h` image, surrounded by `padding` pixels on
    /// every side, into this node or its descendants.  Returns the position
    /// of the image itself (inside the padding).
    ///
    /// The search visits the right subtree before the bottom one; it fails
    /// exactly when no free rectangle is large enough for the padded image.
    pub fn insert(&mut self, image_id: u32, w: u32, h: u32, padding: u32) -> (res: Option<(u32, u32)>)
        requires
            old(self).wf(),
            w + 2 * padding <= u32::MAX,
            h + 2 * padding <= u32::MAX,
        ensures
            final(self).wf(),
            res is None <==> !(exists|f: Area|
                #[trigger] old(self).free().contains(f) && f.2 >= w + 2 * padding && f.3 >= h + 2
                    * padding),
            res is None ==> *final(self) == *old(self),
            res is None <==> old(self).placement(w + 2 * padding, h + 2 * padding) is None,
            res matches Some((px, py)) ==> old(self).placement(w + 2 * padding, h + 2 * padding)
                == Some((px - padding, py - padding)),
            res is Some ==> {
                let (px, py) = res->0;
                let p: Area = (px - padding, py - padding, w + 2 * padding, h + 2 * padding);
                &&& px >= padding && py >= padding
                &&& final(self).occupied() == old(self).occupied().insert(p)
                &&& exists|f: Area|
                    #[trigger] old(self).free().contains(f) && area_within(p, f) && f.2 >= p.2 && f.3
                        >= p.3
                &&& sets_disjoint(set![p], old(self).occupied())
                &&& refines(final(self).all(), old(self).all())
            },
        decreases *old(self),
    {
        let pw = w + padding * 2;
        let ph = h + padding * 2;
        let ghost pw_i: int = w + 2 * padding;
        let ghost ph_i: int = h + 2 * padding;
        let ghost old_self = *self;
        match self.children.take() {
            Some(ch) => {
                let (mut right, mut bottom) = *ch;
                let r0 = right.insert(image_id, w, h, padding);
                if r0.is_some() {
                    self.children = Some(Box::new((right, bottom)));
                    proof {
                        Self::lemma_split_after_insert(
                            old_self,
                            *self,
                            true,
                            (old_self.children->0).0,
                            right,
                            bottom,
                            r0->0,
                            padding,
                            pw_i,
                            ph_i,
                        );
                    }
                    return r0;
                }
                let r1 = bottom.insert(image_id, w, h, padding);
                self.children = Some(Box::new((right, bottom)));
                proof {
                    if r1 is Some {
                        Self::lemma_split_after_insert(
                            old_self,
                            *self,
                            false,
                            (old_self.children->0).1,
                            bottom,
                            right,
                            r1->0,
                            padding,
                            pw_i,
                            ph_i,
                        );
                    } else {
                        assert(self.free() =~= old_self.free());
                        assert(*self == old_self);
                    }
                }
                return r1;
            },
            None => {},
        }
        if self.image_id.is_some() {
            proof {
                assert(old_self.free() =~= Set::<Area>::empty());
            }
            return None;
        }
        proof {
            assert(old_self.free() =~= set![old_self.own()]);
            assert(old_self.occupied() =~= Set::<Area>::empty());
        }
        if pw > self.width || ph > self.height {
            return None;
        }
        if pw == self.width && ph == self.height {
            self.image_id = Some(image_id);
            proof {
                let p: Area = (self.x as int, self.y as int, pw_i, ph_i);
                assert(self.occupied() =~= set![p]);
                assert(self.free() =~= Set::<Area>::empty());
                assert(self.occupied() =~= old_self.occupied().insert(p));
                assert(old_self.free().contains(old_self.own()));
                assert(area_within(p, old_self.own()));
                assert forall|a: Area| #[trigger] self.all().contains(a) implies exists|b: Area|
                    old_self.all().contains(b) && area_within(a, b) by {
                    assert(old_self.all().contains(old_self.own()));
                }
            }
            return Some((self.x + padding, self.y + padding));
        }
        let dw = self.width - pw;
        let dh = self.height - ph;
        let (right, bottom) = if dw > dh {
            (
                PackNode::new(self.x + pw, self.y, dw, self.height),
                PackNode::new(self.x, self.y + ph, pw, dh),
            )
        } else {
            (
                PackNode::new(self.x + pw, self.y, dw, ph),
                PackNode::new(self.x, self.y + ph, self.width, dh),
            )
        };
        self.children = Some(Box::new((right, bottom)));
        self.width = pw;
        self.height = ph;
        self.image_id = Some(image_id);
        proof {
            let o = old_self.own();
            let p: Area = (self.x as int, self.y as int, pw_i, ph_i);
            let r = right.own();
            let b = bottom.own();
            assert(self.own() == p);
            assert(self.occupied() =~= set![p]);
            assert(self.free() =~= set![r, b]);
            assert(right.all() =~= set![r]);
            assert(bottom.all() =~= set![b]);
            assert(self.all() =~= set![p, r, b]);
            assert(self.occupied() =~= old_self.occupied().insert(p));
            assert(old_self.free().contains(o));
            assert(area_within(p, o));
            assert(area_within(r, o));
            assert(area_within(b, o));
            assert forall|a: Area| #[trigger] self.all().contains(a) implies exists|c: Area|
                old_self.all().contains(c) && area_within(a, c) by {
                assert(old_self.all().contains(o));
            }
        }
        Some((self.x + padding, self.y + padding))
    }

    /// The rectangles of a well-formed tree are pairwise disjoint.
    proof fn lemma_all_pairwise(self)
        requires
            self.wf(),
        ensures
            forall|a: Area, b: Area|
                self.all().contains(a) && self.all().contains(b) && a != b ==> areas_disjoint(a, b),
        decreases self,
    {
        match self.children {
            Some(ch) => {
                ch.0.lemma_all_pairwise();
                ch.1.lemma_all_pairwise();
                let own = self.own();
                assert(self.all() =~= set![own] + ch.0.all() + ch.1.all());
                lemma_sets_disjoint_sym(set![own], ch.0.all());
                lemma_sets_disjoint_sym(set![own], ch.1.all());
                lemma_sets_disjoint_sym(ch.0.all(), ch.1.all());
                assert forall|a: Area, b: Area|
                    self.all().contains(a) && self.all().contains(b) && a != b implies areas_disjoint(
                    a,
                    b,
                ) by {
                    assert(set![own].contains(own));
                }
            },
            None => {
                assert(self.all() =~= set![self.own()]);
            },
        }
    }

    /// A rectangle that is both occupied and free is empty.
    proof fn lemma_occupied_free_distinct(self, a: Area)
        requires
            self.wf(),
            self.occupied().contains(a),
            self.free().contains(a),
        ensures
            area_empty(a),
        decreases self,
    {
        match self.children {
            Some(ch) => {
                let own = self.own();
                assert(set![own].contains(own));
                if ch.0.occupied().contains(a) && ch.0.free().contains(a) {
                    ch.0.lemma_occupied_free_distinct(a);
                } else if ch.1.occupied().contains(a) && ch.1.free().contains(a) {
                    ch.1.lemma_occupied_free_distinct(a);
                } else if ch.0.all().contains(a) && ch.1.all().contains(a) {
                    assert(areas_disjoint(a, a));
                } else {
                    assert(a == own);
                    assert(areas_disjoint(own, a));
                }
            },
            None => {},
        }
    }

    /// After a successful insert into the right (`into_right`) or bottom
    /// subtree of a split node, the node satisfies `insert`'s promises.
    proof fn lemma_split_after_insert(
        old_node: PackNode,
        new_node: PackNode,
        into_right: bool,
        changed_old: PackNode,
        changed_new: PackNode,
        same: PackNode,
        pos: (u32, u32),
        padding: u32,
        pw: int,
        ph: int,
    )
        requires
            old_node.wf(),
            old_node.children is Some,
            new_node.children is Some,
            new_node.x == old_node.x,
            new_node.y == old_node.y,
            new_node.width == old_node.width,
            new_node.height == old_node.height,
            new_node.image_id == old_node.image_id,
            into_right ==> (old_node.children->0).0 == changed_old && (old_node.children->0).1 == same
                && (new_node.children->0).0 == changed_new && (new_node.children->0).1 == same,
            !into_right ==> (old_node.children->0).1 == changed_old && (old_node.children->0).0 == same
                && (new_node.children->0).1 == changed_new && (new_node.children->0).0 == same,
            !into_right ==> !(exists|f: Area|
                #[trigger] same.free().contains(f) && f.2 >= pw && f.3 >= ph),
            changed_new.wf(),
            pos.0 >= padding && pos.1 >= padding,
            changed_new.occupied() == changed_old.occupied().insert(
                (pos.0 - padding, pos.1 - padding, pw, ph),
            ),
            exists|f: Area|
                #[trigger] changed_old.free().contains(f) && area_within(
                    (pos.0 - padding, pos.1 - padding, pw, ph),
                    f,
                ) && f.2 >= pw && f.3 >= ph,
            sets_disjoint(set![(pos.0 - padding, pos.1 - padding, pw, ph)], changed_old.occupied()),
            refines(changed_new.all(), changed_old.all()),
        ensures
            new_node.wf(),
            exists|f: Area| #[trigger] old_node.free().contains(f) && f.2 >= pw && f.3 >= ph,
            ({
                let p: Area = (pos.0 - padding, pos.1 - padding, pw, ph);
                &&& new_node.occupied() == old_node.occupied().insert(p)
                &&& exists|f: Area|
                    #[trigger] old_node.free().contains(f) && area_within(p, f) && f.2 >= pw && f.3
                        >= ph
                &&& sets_disjoint(set![p], old_node.occupied())
                &&& refines(new_node.all(), old_node.all())
            }),
    {
        let own = old_node.own();
        assert(new_node.own() == own);
        let p: Area = (pos.0 - padding, pos.1 - padding, pw, ph);
        let same_old = same;
        let same_new = same;
        assert(old_node.wf());
        assert(changed_old.wf() && same.wf());
        assert(sets_disjoint(set![own], changed_old.all()));
        assert(sets_disjoint(set![own], same.all()));
        assert(sets_disjoint(changed_old.all(), same.all())) by {
            if !into_right {
                lemma_sets_disjoint_sym(same.all(), changed_old.all());
            }
        }
        // The free rectangle that received the image.
        let f = choose|f: Area|
            #[trigger] changed_old.free().contains(f) && area_within(p, f) && f.2 >= pw && f.3 >= ph;
        assert(old_node.free().contains(f));
        assert(changed_old.all().contains(f));
        // Every new rectangle of the changed subtree lies in an old one.
        assert(sets_disjoint(set![own], changed_new.all())) by {
            assert forall|a: Area, b: Area|
                set![own].contains(a) && changed_new.all().contains(b) implies areas_disjoint(
                a,
                b,
            ) by {
                let c = choose|c: Area| changed_old.all().contains(c) && area_within(b, c);
                assert(set![own].contains(own));
                assert(areas_disjoint(own, c));
                lemma_within_disjoint(b, c, own);
            }
        }
        assert(sets_disjoint(changed_new.all(), same_new.all())) by {
            assert forall|a: Area, b: Area|
                changed_new.all().contains(a) && same_new.all().contains(b) implies areas_disjoint(
                a,
                b,
            ) by {
                let c = choose|c: Area| changed_old.all().contains(c) && area_within(a, c);
                assert(areas_disjoint(c, b));
                lemma_within_disjoint(a, c, b);
            }
        }
        if into_right {
            assert(new_node.wf());
        } else {
            lemma_sets_disjoint_sym(changed_new.all(), same.all());
            assert(new_node.wf());
        }
        assert(f.2 >= pw && f.3 >= ph);
        if into_right {
            assert(new_node.occupied() =~= old_node.occupied().insert(p));
        } else {
            assert(new_node.occupied() =~= old_node.occupied().insert(p));
        }
        assert(sets_disjoint(set![p], old_node.occupied())) by {
            assert forall|a: Area, b: Area|
                set![p].contains(a) && old_node.occupied().contains(b) implies areas_disjoint(
                a,
                b,
            ) by {
                assert(a == p);
                if changed_old.occupied().contains(b) {
                } else if b == own {
                    assert(areas_disjoint(own, f));
                    lemma_within_disjoint(p, f, own);
                } else {
                    assert(same_old.occupied().contains(b));
                    assert(same_old.all().contains(b));
                    if into_right {
                        assert(areas_disjoint(f, b));
                    } else {
                        assert(areas_disjoint(b, f));
                    }
                    lemma_within_disjoint(p, f, b);
                }
            }
        }
        assert(refines(new_node.all(), old_node.all())) by {
            assert forall|a: Area| #[trigger] new_node.all().contains(a) implies exists|b: Area|
                old_node.all().contains(b) && area_within(a, b) by {
                if changed_new.all().contains(a) {
                    let c = choose|c: Area| changed_old.all().contains(c) && area_within(a, c);
                    assert(old_node.all().contains(c));
                } else {
                    assert(old_node.all().contains(a));
                    assert(area_within(a, a));
                }
            }
        }
    }
}

/// Images placed in a well-formed packing tree never overlap.
pub proof fn law_placements_disjoint(n: PackNode)
    requires
        n.wf(),
    ensures
        forall|a: Area, b: Area|
            n.occupied().contains(a) && n.occupied().contains(b) && a != b ==> areas_disjoint(a, b),
        sets_disjoint(n.occupied(), n.free()),
{
    n.lemma_all_pairwise();
    assert forall|a: Area, b: Area| n.occupied().contains(a) && n.free().contains(b) implies areas_disjoint(
        a,
        b,
    ) by {
        if a == b {
            n.lemma_occupied_free_distinct(a);
        }
    }
}

/// Rectangles carved from rectangles carved from `u` are carved from `u`:
/// over any sequence of inserts every rectangle of the tree lies in a
/// rectangle of the tree it started from.
pub proof fn law_refines_transitive(s: Set<Area>, t: Set<Area>, u: Set<Area>)
    requires
        refines(s, t),
        refines(t, u),
    ensures
        refines(s, u),
{
    assert forall|a: Area| #[trigger] s.contains(a) implies exists|c: Area| u.contains(c) && area_within(a, c) by {
        let b = choose|b: Area| t.contains(b) && area_within(a, b);
        let c = choose|c: Area| u.contains(c) && area_within(b, c);
        lemma_within_trans(a, b, c);
    }
}

/// A tree whose rectangles all come from `root` only places images inside
/// `root`; a fresh `PackNode::new` over `root` is such a tree.
pub proof fn law_placements_inside_root(n: PackNode, root: Area)
    requires
        refines(n.all(), set![root]),
    ensures
        forall|a: Area| #[trigger] n.occupied().contains(a) ==> area_within(a, root),
{
    assert forall|a: Area| #[trigger] n.occupied().contains(a) implies area_within(a, root) by {
        assert(n.all().contains(a));
        let b = choose|b: Area| set![root].contains(b) && area_within(a, b);
    }
}

/// A fresh node refines its own rectangle.
pub proof fn law_fresh_node_refines_root(n: PackNode)
    requires
        n.image() is None,
        !n.is_split(),
    ensures
        refines(n.all(), set![n.own()]),
        n.occupied() == Set::<Area>::empty(),
{
    assert(n.all() =~= set![n.own()]);
    assert(n.occupied() =~= Set::<Area>::empty());
    assert forall|a: Area| #[trigger] n.all().contains(a) implies exists|c: Area|
        set![n.own()].contains(c) && area_within(a, c) by {
        assert(a == n.own());
        assert(set![n.own()].contains(n.own()));
        assert(area_within(a, n.own()));
    }
}

} // verus!

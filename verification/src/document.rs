//! The world description document: the plain data a world is loaded from
//! and saved to. It mirrors the wire format's four arrays — `objects`,
//! `poly_objects`, `moving_objects`, `speed_increases` — with every number
//! in milliunits. Loading validates the data and fails as a whole on the
//! first invalid entry; saving a well-formed world always yields a valid
//! document, and loading that document reproduces the world's geometry.

use vstd::prelude::*;
use crate::geometry::{COORD_LIMIT, Vec2};
use crate::hitbox::{Hitbox, PolygonHitbox};
use crate::moving::MovingObject;
use crate::portal::{SpeedPortal, PORTAL_HEIGHT, PORTAL_WIDTH};
use crate::world::{hitbox_valid, poly_valid, World};

verus! {

/// One `moving_objects` entry: the two endpoints, the platform extent and
/// the per-tick speed.
#[derive(Clone, Copy, PartialEq, Eq, Structural, Debug)]
pub struct MovingObjectDoc {
    pub from: Vec2,
    pub to: Vec2,
    pub width: i64,
    pub height: i64,
    pub speed: i64,
}

/// One `speed_increases` entry: the portal corner and its factor.
#[derive(Clone, Copy, PartialEq, Eq, Structural, Debug)]
pub struct SpeedPortalDoc {
    pub x: i64,
    pub y: i64,
    pub speed_change: i64,
}

/// A whole world description.
#[derive(Debug)]
pub struct WorldDoc {
    pub objects: Vec<Hitbox>,
    pub poly_objects: Vec<PolygonHitbox>,
    pub moving_objects: Vec<MovingObjectDoc>,
    pub speed_increases: Vec<SpeedPortalDoc>,
}

/// Why a document was rejected.
#[derive(Clone, Copy, PartialEq, Eq, Structural, Debug)]
pub enum WorldError {
    /// A static rectangle is out of range or has a nonpositive extent.
    InvalidObject,
    /// A polygon has fewer than three vertices or one out of range.
    InvalidPolygon,
    /// A moving object has coincident endpoints, a negative speed, an
    /// out-of-range value or a nonpositive extent.
    InvalidMovingObject,
    /// A portal is out of range or has a negative factor.
    InvalidPortal,
}

/// A valid `moving_objects` entry: everything in range, distinct endpoints,
/// nonnegative speed, positive extent.
pub open spec fn mover_doc_valid(d: MovingObjectDoc) -> bool {
    &&& -COORD_LIMIT <= d.from.x <= COORD_LIMIT
    &&& -COORD_LIMIT <= d.from.y <= COORD_LIMIT
    &&& -COORD_LIMIT <= d.to.x <= COORD_LIMIT
    &&& -COORD_LIMIT <= d.to.y <= COORD_LIMIT
    &&& !(d.from.x == d.to.x && d.from.y == d.to.y)
    &&& 0 <= d.speed <= COORD_LIMIT
    &&& 0 < d.width <= COORD_LIMIT
    &&& 0 < d.height <= COORD_LIMIT
}

/// A valid `speed_increases` entry: corner in range, factor nonnegative and
/// bounded.
pub open spec fn portal_doc_valid(d: SpeedPortalDoc) -> bool {
    &&& -COORD_LIMIT <= d.x <= COORD_LIMIT
    &&& -COORD_LIMIT <= d.y <= COORD_LIMIT
    &&& 0 <= d.speed_change <= COORD_LIMIT
}

pub open spec fn objects_valid(d: WorldDoc) -> bool {
    forall|i: int| 0 <= i < d.objects@.len() ==> hitbox_valid(#[trigger] d.objects@[i])
}

pub open spec fn polys_valid(d: WorldDoc) -> bool {
    forall|i: int| 0 <= i < d.poly_objects@.len() ==> poly_valid(#[trigger] d.poly_objects@[i])
}

pub open spec fn movers_valid(d: WorldDoc) -> bool {
    forall|i: int|
        0 <= i < d.moving_objects@.len() ==> mover_doc_valid(#[trigger] d.moving_objects@[i])
}

pub open spec fn portals_valid(d: WorldDoc) -> bool {
    forall|i: int|
        0 <= i < d.speed_increases@.len() ==> portal_doc_valid(#[trigger] d.speed_increases@[i])
}

/// A document the loader accepts in full.
pub open spec fn doc_valid(d: WorldDoc) -> bool {
    objects_valid(d) && polys_valid(d) && movers_valid(d) && portals_valid(d)
}

/// The moving object the loader builds from one entry: at `from`, headed
/// forward, with the step the parameters call for.
pub open spec fn mover_built(d: MovingObjectDoc, m: MovingObject) -> bool {
    &&& m.from == d.from
    &&& m.to == d.to
    &&& m.speed == d.speed
    &&& m.forward == true
    &&& m.hitbox == (Hitbox { x: d.from.x, y: d.from.y, width: d.width, height: d.height })
    &&& m.step.x == m.step_x_of()
    &&& m.step.y == m.step_y_of()
}

/// The portal the loader builds from one entry: unspent, with the fixed
/// portal extent.
pub open spec fn portal_built(d: SpeedPortalDoc, s: SpeedPortal) -> bool {
    s == (SpeedPortal {
        used: false,
        speed_change: d.speed_change,
        hitbox: Hitbox { x: d.x, y: d.y, width: PORTAL_WIDTH, height: PORTAL_HEIGHT },
    })
}

/// `w` is the world the loader builds from `d`.
pub open spec fn built_from(d: WorldDoc, w: World) -> bool {
    &&& w.objects@ == d.objects@
    &&& w.poly_objects@ == d.poly_objects@
    &&& w.moving_objects@.len() == d.moving_objects@.len()
    &&& forall|i: int|
        0 <= i < d.moving_objects@.len() ==> mover_built(
            d.moving_objects@[i],
            #[trigger] w.moving_objects@[i],
        )
    &&& w.speed_increases@.len() == d.speed_increases@.len()
    &&& forall|i: int|
        0 <= i < d.speed_increases@.len() ==> portal_built(
            d.speed_increases@[i],
            #[trigger] w.speed_increases@[i],
        )
}

/// `d` is the document the writer produces for `w`: the same rectangles and
/// vertices, and for the dynamic entries the motion parameters — not the
/// current position, direction or latch.
pub open spec fn describes(w: World, d: WorldDoc) -> bool {
    &&& d.objects@ == w.objects@
    &&& d.poly_objects@.len() == w.poly_objects@.len()
    &&& forall|i: int|
        0 <= i < w.poly_objects@.len() ==> (#[trigger] d.poly_objects@[i]).points@
            == w.poly_objects@[i].points@
    &&& d.moving_objects@.len() == w.moving_objects@.len()
    &&& forall|i: int|
        0 <= i < w.moving_objects@.len() ==> #[trigger] d.moving_objects@[i]
            == (MovingObjectDoc {
            from: w.moving_objects@[i].from,
            to: w.moving_objects@[i].to,
            width: w.moving_objects@[i].hitbox.width,
            height: w.moving_objects@[i].hitbox.height,
            speed: w.moving_objects@[i].speed,
        })
    &&& d.speed_increases@.len() == w.speed_increases@.len()
    &&& forall|i: int|
        0 <= i < w.speed_increases@.len() ==> #[trigger] d.speed_increases@[i]
            == (SpeedPortalDoc {
            x: w.speed_increases@[i].hitbox.x,
            y: w.speed_increases@[i].hitbox.y,
            speed_change: w.speed_increases@[i].speed_change,
        })
}

/// A world no tick has touched yet: every platform still at its start,
/// headed forward, and every portal unspent.
pub open spec fn pristine(w: World) -> bool {
    &&& forall|i: int|
        0 <= i < w.moving_objects@.len() ==> {
            let m = #[trigger] w.moving_objects@[i];
            m.forward && m.hitbox.x == m.from.x && m.hitbox.y == m.from.y
        }
    &&& forall|i: int|
        0 <= i < w.speed_increases@.len() ==> !(#[trigger] w.speed_increases@[i]).used
}

fn hitbox_ok(h: &Hitbox) -> (ok: bool)
    ensures
        ok == hitbox_valid(*h),
{
    h.x >= -COORD_LIMIT && h.x <= COORD_LIMIT && h.y >= -COORD_LIMIT && h.y <= COORD_LIMIT
        && h.width > 0 && h.width <= COORD_LIMIT && h.height > 0 && h.height <= COORD_LIMIT
}

fn poly_ok(p: &PolygonHitbox) -> (ok: bool)
    ensures
        ok == poly_valid(*p),
{
    let n = p.points.len();
    if n < 3 {
        return false;
    }
    for k in 0..n
        invariant
            n == p.points@.len(),
            3 <= n,
            forall|j: int|
                0 <= j < k ==> -COORD_LIMIT <= (#[trigger] p.points@[j]).x <= COORD_LIMIT
                    && -COORD_LIMIT <= p.points@[j].y <= COORD_LIMIT,
    {
        let v = p.points[k];
        if v.x < -COORD_LIMIT || v.x > COORD_LIMIT || v.y < -COORD_LIMIT || v.y > COORD_LIMIT {
            return false;
        }
    }
    true
}

fn mover_doc_ok(d: &MovingObjectDoc) -> (ok: bool)
    ensures
        ok == mover_doc_valid(*d),
{
    d.from.x >= -COORD_LIMIT && d.from.x <= COORD_LIMIT && d.from.y >= -COORD_LIMIT && d.from.y
        <= COORD_LIMIT && d.to.x >= -COORD_LIMIT && d.to.x <= COORD_LIMIT && d.to.y
        >= -COORD_LIMIT && d.to.y <= COORD_LIMIT && !(d.from.x == d.to.x && d.from.y == d.to.y)
        && d.speed >= 0 && d.speed <= COORD_LIMIT && d.width > 0 && d.width <= COORD_LIMIT
        && d.height > 0 && d.height <= COORD_LIMIT
}

fn portal_doc_ok(d: &SpeedPortalDoc) -> (ok: bool)
    ensures
        ok == portal_doc_valid(*d),
{
    d.x >= -COORD_LIMIT && d.x <= COORD_LIMIT && d.y >= -COORD_LIMIT && d.y <= COORD_LIMIT
        && d.speed_change >= 0 && d.speed_change <= COORD_LIMIT
}

impl World {
    /// Loads a world from a document. The whole load fails on the first
    /// invalid entry, in document order — rectangles, polygons, moving
    /// objects, portals — and nothing is substituted for bad data.
    pub fn from_document(doc: WorldDoc) -> (r: Result<World, WorldError>)
        ensures
            r is Ok <==> doc_valid(doc),
            (r == Err::<World, WorldError>(WorldError::InvalidObject)) <==> !objects_valid(doc),
            (r == Err::<World, WorldError>(WorldError::InvalidPolygon)) <==> (objects_valid(doc)
                && !polys_valid(doc)),
            (r == Err::<World, WorldError>(WorldError::InvalidMovingObject)) <==> (objects_valid(
                doc,
            ) && polys_valid(doc) && !movers_valid(doc)),
            (r == Err::<World, WorldError>(WorldError::InvalidPortal)) <==> (objects_valid(doc)
                && polys_valid(doc) && movers_valid(doc) && !portals_valid(doc)),
            r is Ok ==> built_from(doc, r->Ok_0) && (r->Ok_0).wf(),
    {
        let n = doc.objects.len();
        for i in 0..n
            invariant
                n == doc.objects@.len(),
                forall|j: int| 0 <= j < i ==> hitbox_valid(#[trigger] doc.objects@[j]),
        {
            if !hitbox_ok(&doc.objects[i]) {
                return Err(WorldError::InvalidObject);
            }
        }
        let np = doc.poly_objects.len();
        for i in 0..np
            invariant
                np == doc.poly_objects@.len(),
                objects_valid(doc),
                forall|j: int| 0 <= j < i ==> poly_valid(#[trigger] doc.poly_objects@[j]),
        {
            if !poly_ok(&doc.poly_objects[i]) {
                return Err(WorldError::InvalidPolygon);
            }
        }
        let nm = doc.moving_objects.len();
        for i in 0..nm
            invariant
                nm == doc.moving_objects@.len(),
                objects_valid(doc),
                polys_valid(doc),
                forall|j: int| 0 <= j < i ==> mover_doc_valid(#[trigger] doc.moving_objects@[j]),
        {
            if !mover_doc_ok(&doc.moving_objects[i]) {
                return Err(WorldError::InvalidMovingObject);
            }
        }
        let ns = doc.speed_increases.len();
        for i in 0..ns
            invariant
                ns == doc.speed_increases@.len(),
                objects_valid(doc),
                polys_valid(doc),
                movers_valid(doc),
                forall|j: int|
                    0 <= j < i ==> portal_doc_valid(#[trigger] doc.speed_increases@[j]),
        {
            if !portal_doc_ok(&doc.speed_increases[i]) {
                return Err(WorldError::InvalidPortal);
            }
        }
        let mut moving_objects: Vec<MovingObject> = Vec::new();
        for i in 0..nm
            invariant
                nm == doc.moving_objects@.len(),
                moving_objects@.len() == i,
                forall|j: int|
                    0 <= j < nm ==> mover_doc_valid(#[trigger] doc.moving_objects@[j]),
                forall|j: int|
                    0 <= j < i ==> mover_built(
                        doc.moving_objects@[j],
                        #[trigger] moving_objects@[j],
                    ),
                forall|j: int| 0 <= j < i ==> (#[trigger] moving_objects@[j]).wf(),
        {
            let d = doc.moving_objects[i];
            moving_objects.push(MovingObject::new(d.from, d.to, d.width, d.height, d.speed));
        }
        let mut speed_increases: Vec<SpeedPortal> = Vec::new();
        for i in 0..ns
            invariant
                ns == doc.speed_increases@.len(),
                speed_increases@.len() == i,
                forall|j: int|
                    0 <= j < ns ==> portal_doc_valid(#[trigger] doc.speed_increases@[j]),
                forall|j: int|
                    0 <= j < i ==> portal_built(
                        doc.speed_increases@[j],
                        #[trigger] speed_increases@[j],
                    ),
                forall|j: int| 0 <= j < i ==> (#[trigger] speed_increases@[j]).wf(),
        {
            let d = doc.speed_increases[i];
            speed_increases.push(SpeedPortal::new(d.x, d.y, d.speed_change));
        }
        let w = World {
            objects: doc.objects,
            poly_objects: doc.poly_objects,
            moving_objects,
            speed_increases,
        };
        Ok(w)
    }

    /// Writes the world out as a document: the static geometry verbatim,
    /// and for platforms and portals their parameters — current positions,
    /// directions and latches are not part of the description.
    pub fn to_document(&self) -> (d: WorldDoc)
        requires
            self.wf(),
        ensures
            describes(*self, d),
            doc_valid(d),
    {
        let n = self.objects.len();
        let mut objects: Vec<Hitbox> = Vec::new();
        for i in 0..n
            invariant
                n == self.objects@.len(),
                objects@.len() == i,
                forall|j: int| 0 <= j < i ==> #[trigger] objects@[j] == self.objects@[j],
        {
            objects.push(self.objects[i]);
        }
        let np = self.poly_objects.len();
        let mut poly_objects: Vec<PolygonHitbox> = Vec::new();
        for i in 0..np
            invariant
                np == self.poly_objects@.len(),
                poly_objects@.len() == i,
                forall|j: int|
                    0 <= j < i ==> (#[trigger] poly_objects@[j]).points@
                        == self.poly_objects@[j].points@,
        {
            let src = &self.poly_objects[i];
            let npts = src.points.len();
            let mut points: Vec<Vec2> = Vec::new();
            for k in 0..npts
                invariant
                    npts == src.points@.len(),
                    points@.len() == k,
                    forall|j: int| 0 <= j < k ==> #[trigger] points@[j] == src.points@[j],
            {
                points.push(src.points[k]);
            }
            proof {
                assert(points@ =~= src.points@);
            }
            poly_objects.push(PolygonHitbox::new(points));
        }
        let nm = self.moving_objects.len();
        let mut moving_objects: Vec<MovingObjectDoc> = Vec::new();
        for i in 0..nm
            invariant
                nm == self.moving_objects@.len(),
                moving_objects@.len() == i,
                forall|j: int|
                    0 <= j < i ==> #[trigger] moving_objects@[j] == (MovingObjectDoc {
                        from: self.moving_objects@[j].from,
                        to: self.moving_objects@[j].to,
                        width: self.moving_objects@[j].hitbox.width,
                        height: self.moving_objects@[j].hitbox.height,
                        speed: self.moving_objects@[j].speed,
                    }),
        {
            let m = &self.moving_objects[i];
            moving_objects.push(
                MovingObjectDoc {
                    from: m.from,
                    to: m.to,
                    width: m.hitbox.width,
                    height: m.hitbox.height,
                    speed: m.speed,
                },
            );
        }
        let ns = self.speed_increases.len();
        let mut speed_increases: Vec<SpeedPortalDoc> = Vec::new();
        for i in 0..ns
            invariant
                ns == self.speed_increases@.len(),
                speed_increases@.len() == i,
                forall|j: int|
                    0 <= j < i ==> #[trigger] speed_increases@[j] == (SpeedPortalDoc {
                        x: self.speed_increases@[j].hitbox.x,
                        y: self.speed_increases@[j].hitbox.y,
                        speed_change: self.speed_increases@[j].speed_change,
                    }),
        {
            let s = &self.speed_increases[i];
            speed_increases.push(
                SpeedPortalDoc {
                    x: s.hitbox.x,
                    y: s.hitbox.y,
                    speed_change: s.speed_change,
                },
            );
        }
        let d = WorldDoc { objects, poly_objects, moving_objects, speed_increases };
        proof {
            assert(d.objects@ =~= self.objects@);
            assert forall|i: int| 0 <= i < d.objects@.len() implies hitbox_valid(
                #[trigger] d.objects@[i],
            ) by {
                assert(hitbox_valid(self.objects@[i]));
            }
            assert forall|i: int| 0 <= i < d.poly_objects@.len() implies poly_valid(
                #[trigger] d.poly_objects@[i],
            ) by {
                assert(poly_valid(self.poly_objects@[i]));
            }
            assert forall|i: int| 0 <= i < d.moving_objects@.len() implies mover_doc_valid(
                #[trigger] d.moving_objects@[i],
            ) by {
                assert(self.moving_objects@[i].wf());
            }
            assert forall|i: int| 0 <= i < d.speed_increases@.len() implies portal_doc_valid(
                #[trigger] d.speed_increases@[i],
            ) by {
                assert(self.speed_increases@[i].wf());
            }
        }
        d
    }
}

/// Saving and loading round-trips: loading the document a well-formed world
/// was saved to succeeds and reproduces its geometry and motion parameters
/// field for field. For a pristine world — platforms at their start and no
/// spent portal — the loaded world carries exactly the same platforms and
/// portals.
pub proof fn lemma_document_round_trip(w: World, d: WorldDoc, w2: World)
    requires
        w.wf(),
        describes(w, d),
        built_from(d, w2),
    ensures
        w2.objects@ == w.objects@,
        w2.poly_objects@.len() == w.poly_objects@.len(),
        forall|i: int|
            0 <= i < w.poly_objects@.len() ==> (#[trigger] w2.poly_objects@[i]).points@
                == w.poly_objects@[i].points@,
        w2.moving_objects@.len() == w.moving_objects@.len(),
        forall|i: int|
            0 <= i < w.moving_objects@.len() ==> {
                let m2 = #[trigger] w2.moving_objects@[i];
                let m = w.moving_objects@[i];
                m2.from == m.from && m2.to == m.to && m2.speed == m.speed && m2.step == m.step
                    && m2.hitbox.width == m.hitbox.width && m2.hitbox.height == m.hitbox.height
            },
        w2.speed_increases@.len() == w.speed_increases@.len(),
        forall|i: int|
            0 <= i < w.speed_increases@.len() ==> {
                let s2 = #[trigger] w2.speed_increases@[i];
                let s = w.speed_increases@[i];
                s2.hitbox == s.hitbox && s2.speed_change == s.speed_change && !s2.used
            },
        pristine(w) ==> w2.moving_objects@ == w.moving_objects@ && w2.speed_increases@
            == w.speed_increases@,
{
    assert forall|i: int| 0 <= i < w.moving_objects@.len() implies {
        let m2 = #[trigger] w2.moving_objects@[i];
        let m = w.moving_objects@[i];
        m2.from == m.from && m2.to == m.to && m2.speed == m.speed && m2.step == m.step
            && m2.hitbox.width == m.hitbox.width && m2.hitbox.height == m.hitbox.height
    } by {
        let m2 = w2.moving_objects@[i];
        let m = w.moving_objects@[i];
        assert(mover_built(d.moving_objects@[i], m2));
        assert(m.wf());
        // The cached step is a function of the endpoints and the speed
        // alone, so the loaded platform computes the same one.
        assert(m2.step_x_of() == m.step_x_of());
        assert(m2.step_y_of() == m.step_y_of());
    }
    if pristine(w) {
        assert forall|i: int| 0 <= i < w.moving_objects@.len() implies #[trigger] w2
            .moving_objects@[i] == w.moving_objects@[i] by {
            assert(mover_built(d.moving_objects@[i], w2.moving_objects@[i]));
            assert(w.moving_objects@[i].wf());
        }
        assert(w2.moving_objects@ =~= w.moving_objects@);
        assert forall|i: int| 0 <= i < w.speed_increases@.len() implies #[trigger] w2
            .speed_increases@[i] == w.speed_increases@[i] by {
            assert(portal_built(d.speed_increases@[i], w2.speed_increases@[i]));
            assert(w.speed_increases@[i].wf());
        }
        assert(w2.speed_increases@ =~= w.speed_increases@);
    }
}

} // verus!

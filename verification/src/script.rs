//! The parsed form of an NFF scene: a script whose numeric scalars are kept
//! as the validated words of the source text.  A rendering front end binds
//! the words to its own arithmetic; the parser here guarantees the structure
//! (counts, ordering, fill references) and the numeric syntax.

use crate::text::is_float_text;
use vstd::prelude::*;

verus! {

/// Three scalar words: a point, a direction, or a color as written.
#[derive(Clone, Debug)]
pub struct Triple {
    pub x: Vec<u8>,
    pub y: Vec<u8>,
    pub z: Vec<u8>,
}

pub ghost struct TripleView {
    pub x: Seq<u8>,
    pub y: Seq<u8>,
    pub z: Seq<u8>,
}

impl View for Triple {
    type V = TripleView;

    open spec fn view(&self) -> TripleView {
        TripleView { x: self.x@, y: self.y@, z: self.z@ }
    }
}

impl DeepView for Triple {
    type V = TripleView;

    open spec fn deep_view(&self) -> TripleView {
        self.view()
    }
}

pub open spec fn wf_triple(t: TripleView) -> bool {
    is_float_text(t.x) && is_float_text(t.y) && is_float_text(t.z)
}

/// The `v` viewing block: eye position, look-at point, up direction,
/// vertical field-of-view angle, near-clip distance, and image resolution.
#[derive(Clone, Debug)]
pub struct ViewDesc {
    pub from: Triple,
    pub at: Triple,
    pub up: Triple,
    pub angle: Vec<u8>,
    pub hither: Vec<u8>,
    pub width: u32,
    pub height: u32,
}

pub ghost struct ViewDescView {
    pub from: TripleView,
    pub at: TripleView,
    pub up: TripleView,
    pub angle: Seq<u8>,
    pub hither: Seq<u8>,
    pub width: u32,
    pub height: u32,
}

impl View for ViewDesc {
    type V = ViewDescView;

    open spec fn view(&self) -> ViewDescView {
        ViewDescView {
            from: self.from@,
            at: self.at@,
            up: self.up@,
            angle: self.angle@,
            hither: self.hither@,
            width: self.width,
            height: self.height,
        }
    }
}

pub open spec fn wf_view_desc(v: ViewDescView) -> bool {
    wf_triple(v.from) && wf_triple(v.at) && wf_triple(v.up) && is_float_text(v.angle)
        && is_float_text(v.hither)
}

/// An `f` fill: surface color and the Phong coefficients, plus the shading
/// model chosen for the whole run.
#[derive(Clone, Debug)]
pub struct FillDesc {
    pub color: Triple,
    pub diffuse: Vec<u8>,
    pub specular: Vec<u8>,
    pub shine: Vec<u8>,
    pub transmittance: Vec<u8>,
    pub refraction_index: Vec<u8>,
    pub phong: bool,
}

pub ghost struct FillDescView {
    pub color: TripleView,
    pub diffuse: Seq<u8>,
    pub specular: Seq<u8>,
    pub shine: Seq<u8>,
    pub transmittance: Seq<u8>,
    pub refraction_index: Seq<u8>,
    pub phong: bool,
}

impl View for FillDesc {
    type V = FillDescView;

    open spec fn view(&self) -> FillDescView {
        FillDescView {
            color: self.color@,
            diffuse: self.diffuse@,
            specular: self.specular@,
            shine: self.shine@,
            transmittance: self.transmittance@,
            refraction_index: self.refraction_index@,
            phong: self.phong,
        }
    }
}

impl DeepView for FillDesc {
    type V = FillDescView;

    open spec fn deep_view(&self) -> FillDescView {
        self.view()
    }
}

pub open spec fn wf_fill(f: FillDescView) -> bool {
    wf_triple(f.color) && is_float_text(f.diffuse) && is_float_text(f.specular) && is_float_text(
        f.shine,
    ) && is_float_text(f.transmittance) && is_float_text(f.refraction_index)
}

/// An `l` light: a position, and a color unless the light is plain white.
#[derive(Clone, Debug)]
pub struct LightDesc {
    pub position: Triple,
    pub color: Option<Triple>,
}

pub ghost struct LightDescView {
    pub position: TripleView,
    pub color: Option<TripleView>,
}

impl View for LightDesc {
    type V = LightDescView;

    open spec fn view(&self) -> LightDescView {
        LightDescView {
            position: self.position@,
            color: match self.color {
                Some(ref c) => Some(c@),
                None => None,
            },
        }
    }
}

impl DeepView for LightDesc {
    type V = LightDescView;

    open spec fn deep_view(&self) -> LightDescView {
        self.view()
    }
}

pub open spec fn wf_light(l: LightDescView) -> bool {
    wf_triple(l.position) && match l.color {
        Some(c) => wf_triple(c),
        None => true,
    }
}

/// A `pp` vertex: a position and its shading normal.
#[derive(Clone, Debug)]
pub struct PatchVertex {
    pub position: Triple,
    pub normal: Triple,
}

pub ghost struct PatchVertexView {
    pub position: TripleView,
    pub normal: TripleView,
}

impl View for PatchVertex {
    type V = PatchVertexView;

    open spec fn view(&self) -> PatchVertexView {
        PatchVertexView { position: self.position@, normal: self.normal@ }
    }
}

impl DeepView for PatchVertex {
    type V = PatchVertexView;

    open spec fn deep_view(&self) -> PatchVertexView {
        self.view()
    }
}

pub open spec fn wf_patch_vertex(v: PatchVertexView) -> bool {
    wf_triple(v.position) && wf_triple(v.normal)
}

/// A primitive's geometry as described by `s`, `c`, `p`, or `pp`.
#[derive(Clone, Debug)]
pub enum ShapeDesc {
    Sphere { center: Triple, radius: Vec<u8> },
    Cone { base: Triple, base_radius: Vec<u8>, apex: Triple, apex_radius: Vec<u8> },
    Polygon { vertices: Vec<Triple> },
    PolygonPatch { vertices: Vec<PatchVertex> },
}

pub ghost enum ShapeDescView {
    Sphere { center: TripleView, radius: Seq<u8> },
    Cone { base: TripleView, base_radius: Seq<u8>, apex: TripleView, apex_radius: Seq<u8> },
    Polygon { vertices: Seq<TripleView> },
    PolygonPatch { vertices: Seq<PatchVertexView> },
}

impl View for ShapeDesc {
    type V = ShapeDescView;

    open spec fn view(&self) -> ShapeDescView {
        match self {
            ShapeDesc::Sphere { center, radius } => ShapeDescView::Sphere {
                center: center@,
                radius: radius@,
            },
            ShapeDesc::Cone { base, base_radius, apex, apex_radius } => ShapeDescView::Cone {
                base: base@,
                base_radius: base_radius@,
                apex: apex@,
                apex_radius: apex_radius@,
            },
            ShapeDesc::Polygon { vertices } => ShapeDescView::Polygon {
                vertices: vertices.deep_view(),
            },
            ShapeDesc::PolygonPatch { vertices } => ShapeDescView::PolygonPatch {
                vertices: vertices.deep_view(),
            },
        }
    }
}

pub open spec fn wf_shape(s: ShapeDescView) -> bool {
    match s {
        ShapeDescView::Sphere { center, radius } => wf_triple(center) && is_float_text(radius),
        ShapeDescView::Cone { base, base_radius, apex, apex_radius } => wf_triple(base)
            && is_float_text(base_radius) && wf_triple(apex) && is_float_text(apex_radius),
        ShapeDescView::Polygon { vertices } => vertices.len() >= 3 && forall|i: int|
            0 <= i < vertices.len() ==> wf_triple(#[trigger] vertices[i]),
        ShapeDescView::PolygonPatch { vertices } => vertices.len() >= 3 && forall|i: int|
            0 <= i < vertices.len() ==> wf_patch_vertex(#[trigger] vertices[i]),
    }
}

/// A shape bound to the fill that was current when it was declared; `None`
/// refers to the built-in default surface.
#[derive(Clone, Debug)]
pub struct PrimitiveDesc {
    pub shape: ShapeDesc,
    pub fill: Option<usize>,
}

pub ghost struct PrimitiveDescView {
    pub shape: ShapeDescView,
    pub fill: Option<usize>,
}

impl View for PrimitiveDesc {
    type V = PrimitiveDescView;

    open spec fn view(&self) -> PrimitiveDescView {
        PrimitiveDescView { shape: self.shape@, fill: self.fill }
    }
}

impl DeepView for PrimitiveDesc {
    type V = PrimitiveDescView;

    open spec fn deep_view(&self) -> PrimitiveDescView {
        self.view()
    }
}

pub open spec fn wf_primitive(p: PrimitiveDescView, fill_count: int) -> bool {
    wf_shape(p.shape) && match p.fill {
        Some(i) => i < fill_count,
        None => true,
    }
}

/// A whole scene as read from NFF text: the view, the optional background
/// color, the lights, the fills, the primitives, and the raw lines whose
/// command was not recognized (the reader reports and ignores them).
#[derive(Clone, Debug)]
pub struct SceneScript {
    pub view: ViewDesc,
    pub background: Option<Triple>,
    pub lights: Vec<LightDesc>,
    pub fills: Vec<FillDesc>,
    pub primitives: Vec<PrimitiveDesc>,
    pub unrecognized: Vec<Vec<u8>>,
}

pub ghost struct SceneScriptView {
    pub scene_view: ViewDescView,
    pub background: Option<TripleView>,
    pub lights: Seq<LightDescView>,
    pub fills: Seq<FillDescView>,
    pub primitives: Seq<PrimitiveDescView>,
    pub unrecognized: Seq<Seq<u8>>,
}

impl View for SceneScript {
    type V = SceneScriptView;

    open spec fn view(&self) -> SceneScriptView {
        SceneScriptView {
            scene_view: self.view@,
            background: match self.background {
                Some(ref b) => Some(b@),
                None => None,
            },
            lights: self.lights.deep_view(),
            fills: self.fills.deep_view(),
            primitives: self.primitives.deep_view(),
            unrecognized: self.unrecognized.deep_view(),
        }
    }
}

/// Every scalar word in the script is numeric text the renderer can bind,
/// and every fill reference points at a declared fill.
pub open spec fn wf_script(s: SceneScriptView) -> bool {
    wf_view_desc(s.scene_view) && (match s.background {
        Some(b) => wf_triple(b),
        None => true,
    }) && (forall|i: int| 0 <= i < s.lights.len() ==> wf_light(#[trigger] s.lights[i])) && (forall|
        i: int,
    |
        0 <= i < s.fills.len() ==> wf_fill(#[trigger] s.fills[i])) && (forall|i: int|
        0 <= i < s.primitives.len() ==> wf_primitive(
            #[trigger] s.primitives[i],
            s.fills.len() as int,
        ))
}

} // verus!

//! Reader for the NFF scene format.  The input is consumed line by line by a
//! small state machine: most commands complete on their own line, while the
//! `v` viewing block, polygons, and the two-line cone form consume
//! continuation lines.  Numeric scalars are validated against the float
//! grammar and kept as text; vertex counts and the image resolution are
//! parsed as integers because they shape the scene structure itself.

use crate::script::{
    FillDesc, FillDescView, LightDesc, LightDescView, PatchVertex, PatchVertexView, PrimitiveDesc,
    PrimitiveDescView, SceneScript, SceneScriptView, ShapeDesc, ShapeDescView, Triple, TripleView,
    ViewDesc, ViewDescView, wf_fill, wf_light, wf_patch_vertex, wf_primitive, wf_script,
    wf_triple, wf_view_desc,
};
use crate::text::{
    is_float_text, is_float_word, lines_of, parse_u32, spec_parse_u32, spec_starts_with,
    split_lines, starts_with, tokenize, tokens_of,
};
use vstd::prelude::*;

verus! {

/// Failure to honor an NFF command.
#[derive(Clone, Debug)]
pub struct NFFError {
    pub command: String,
    pub message: String,
}

pub ghost struct NFFErrorView {
    pub command: Seq<char>,
    pub message: Seq<char>,
}

impl View for NFFError {
    type V = NFFErrorView;

    open spec fn view(&self) -> NFFErrorView {
        NFFErrorView { command: self.command@, message: self.message@ }
    }
}

impl NFFError {
    /// Record that `command` could not be honored, and why.
    pub fn new(command: &str, message: &str) -> (e: NFFError)
        ensures
            e@ == (NFFErrorView { command: command@, message: message@ }),
    {
        NFFError { command: command.to_owned(), message: message.to_owned() }
    }
}

pub open spec fn err_view(command: Seq<char>, message: Seq<char>) -> NFFErrorView {
    NFFErrorView { command, message }
}

/// Fields of the `v` viewing block gathered so far; the block ends once all
/// six are present.
pub struct ViewPartial {
    pub from: Option<Triple>,
    pub at: Option<Triple>,
    pub up: Option<Triple>,
    pub angle: Option<Vec<u8>>,
    pub hither: Option<Vec<u8>>,
    pub resolution: Option<(u32, u32)>,
}

pub ghost struct ViewPartialView {
    pub from: Option<TripleView>,
    pub at: Option<TripleView>,
    pub up: Option<TripleView>,
    pub angle: Option<Seq<u8>>,
    pub hither: Option<Seq<u8>>,
    pub resolution: Option<(u32, u32)>,
}

pub open spec fn opt_triple_view(o: Option<Triple>) -> Option<TripleView> {
    match o {
        Some(t) => Some(t@),
        None => None,
    }
}

pub open spec fn opt_word_view(o: Option<Vec<u8>>) -> Option<Seq<u8>> {
    match o {
        Some(w) => Some(w@),
        None => None,
    }
}

impl View for ViewPartial {
    type V = ViewPartialView;

    open spec fn view(&self) -> ViewPartialView {
        ViewPartialView {
            from: opt_triple_view(self.from),
            at: opt_triple_view(self.at),
            up: opt_triple_view(self.up),
            angle: opt_word_view(self.angle),
            hither: opt_word_view(self.hither),
            resolution: self.resolution,
        }
    }
}

/// What the reader is in the middle of: plain commands, a viewing block, a
/// polygon's or patch's vertex lines, or a cone's two endpoint lines.
pub enum Mode {
    Top,
    ViewBlock { partial: ViewPartial },
    PolygonBlock { remaining: u32, vertices: Vec<Triple> },
    PatchBlock { remaining: u32, vertices: Vec<PatchVertex> },
    ConeBlock { base: Option<(Triple, Vec<u8>)> },
}

pub ghost enum ModeView {
    Top,
    ViewBlock { partial: ViewPartialView },
    PolygonBlock { remaining: u32, vertices: Seq<TripleView> },
    PatchBlock { remaining: u32, vertices: Seq<PatchVertexView> },
    ConeBlock { base: Option<(TripleView, Seq<u8>)> },
}

impl View for Mode {
    type V = ModeView;

    open spec fn view(&self) -> ModeView {
        match self {
            Mode::Top => ModeView::Top,
            Mode::ViewBlock { partial } => ModeView::ViewBlock { partial: partial@ },
            Mode::PolygonBlock { remaining, vertices } => ModeView::PolygonBlock {
                remaining: *remaining,
                vertices: vertices.deep_view(),
            },
            Mode::PatchBlock { remaining, vertices } => ModeView::PatchBlock {
                remaining: *remaining,
                vertices: vertices.deep_view(),
            },
            Mode::ConeBlock { base } => ModeView::ConeBlock {
                base: match base {
                    Some(b) => Some((b.0@, b.1@)),
                    None => None,
                },
            },
        }
    }
}

/// The reader's whole state between lines.
pub struct Parser {
    pub view: Option<ViewDesc>,
    pub background: Option<Triple>,
    pub lights: Vec<LightDesc>,
    pub fills: Vec<FillDesc>,
    pub primitives: Vec<PrimitiveDesc>,
    pub unrecognized: Vec<Vec<u8>>,
    pub mode: Mode,
    pub use_phong: bool,
}

pub ghost struct ParserView {
    pub view: Option<ViewDescView>,
    pub background: Option<TripleView>,
    pub lights: Seq<LightDescView>,
    pub fills: Seq<FillDescView>,
    pub primitives: Seq<PrimitiveDescView>,
    pub unrecognized: Seq<Seq<u8>>,
    pub mode: ModeView,
    pub use_phong: bool,
}

impl View for Parser {
    type V = ParserView;

    open spec fn view(&self) -> ParserView {
        ParserView {
            view: match self.view {
                Some(ref v) => Some(v@),
                None => None,
            },
            background: opt_triple_view(self.background),
            lights: self.lights.deep_view(),
            fills: self.fills.deep_view(),
            primitives: self.primitives.deep_view(),
            unrecognized: self.unrecognized.deep_view(),
            mode: self.mode@,
            use_phong: self.use_phong,
        }
    }
}

pub open spec fn wf_mode(m: ModeView) -> bool {
    match m {
        ModeView::Top => true,
        ModeView::ViewBlock { partial } => (match partial.from {
            Some(t) => wf_triple(t),
            None => true,
        }) && (match partial.at {
            Some(t) => wf_triple(t),
            None => true,
        }) && (match partial.up {
            Some(t) => wf_triple(t),
            None => true,
        }) && (match partial.angle {
            Some(w) => is_float_text(w),
            None => true,
        }) && (match partial.hither {
            Some(w) => is_float_text(w),
            None => true,
        }),
        ModeView::PolygonBlock { remaining, vertices } => remaining >= 1 && vertices.len()
            + remaining >= 3 && forall|i: int|
            0 <= i < vertices.len() ==> wf_triple(#[trigger] vertices[i]),
        ModeView::PatchBlock { remaining, vertices } => remaining >= 1 && vertices.len() + remaining
            >= 3 && forall|i: int|
            0 <= i < vertices.len() ==> wf_patch_vertex(#[trigger] vertices[i]),
        ModeView::ConeBlock { base } => match base {
            Some(b) => wf_triple(b.0) && is_float_text(b.1),
            None => true,
        },
    }
}

/// Everything gathered so far is well formed: numeric words validated and
/// fill references in range.
pub open spec fn wf_state(st: ParserView) -> bool {
    (match st.view {
        Some(v) => wf_view_desc(v),
        None => true,
    }) && (match st.background {
        Some(b) => wf_triple(b),
        None => true,
    }) && (forall|i: int| 0 <= i < st.lights.len() ==> wf_light(#[trigger] st.lights[i])) && (forall|
        i: int,
    |
        0 <= i < st.fills.len() ==> wf_fill(#[trigger] st.fills[i])) && (forall|i: int|
        0 <= i < st.primitives.len() ==> wf_primitive(
            #[trigger] st.primitives[i],
            st.fills.len() as int,
        )) && wf_mode(st.mode)
}

pub open spec fn spec_init(use_phong: bool) -> ParserView {
    ParserView {
        view: None,
        background: None,
        lights: Seq::empty(),
        fills: Seq::empty(),
        primitives: Seq::empty(),
        unrecognized: Seq::empty(),
        mode: ModeView::Top,
        use_phong,
    }
}

pub open spec fn empty_partial_view() -> ViewPartialView {
    ViewPartialView { from: None, at: None, up: None, angle: None, hither: None, resolution: None }
}

/// Primitives take the fill declared last, or the default surface when no
/// fill has been declared yet.
pub open spec fn current_fill(fills: Seq<FillDescView>) -> Option<usize> {
    if fills.len() == 0 {
        None
    } else {
        Some((fills.len() - 1) as usize)
    }
}

/// The value words of a line: the line must hold exactly `start + count`
/// words, and the words from `start` on are returned.
pub open spec fn spec_parse_values(line: Seq<u8>, start: int, count: int) -> Result<
    Seq<Seq<u8>>,
    NFFErrorView,
> {
    let toks = tokens_of(line);
    if toks.len() == start + count {
        Ok(toks.skip(start))
    } else {
        Err(err_view(""@, "wrong value count"@))
    }
}

pub open spec fn all_floats(ws: Seq<Seq<u8>>) -> bool {
    forall|i: int| 0 <= i < ws.len() ==> is_float_text(#[trigger] ws[i])
}

pub open spec fn triple_of(ws: Seq<Seq<u8>>) -> TripleView
    recommends
        ws.len() >= 3,
{
    TripleView { x: ws[0], y: ws[1], z: ws[2] }
}

// Keywords of the viewing block.
pub open spec fn kw_from() -> Seq<u8> {
    seq![102u8, 114u8, 111u8, 109u8]
}

pub open spec fn kw_at() -> Seq<u8> {
    seq![97u8, 116u8]
}

pub open spec fn kw_up() -> Seq<u8> {
    seq![117u8, 112u8]
}

pub open spec fn kw_angle() -> Seq<u8> {
    seq![97u8, 110u8, 103u8, 108u8, 101u8]
}

pub open spec fn kw_hither() -> Seq<u8> {
    seq![104u8, 105u8, 116u8, 104u8, 101u8, 114u8]
}

pub open spec fn kw_resolution() -> Seq<u8> {
    seq![114u8, 101u8, 115u8, 111u8, 108u8, 117u8, 116u8, 105u8, 111u8, 110u8]
}

/// One plain command line.  Comments and blank lines pass; a recognized
/// command with its exact argument count acts; anything else is kept to be
/// reported and ignored.
pub open spec fn spec_step_top(st: ParserView, line: Seq<u8>) -> Result<ParserView, NFFErrorView> {
    if line.len() > 0 && line[0] == 35 {
        // '#': comment
        Ok(st)
    } else {
        let toks = tokens_of(line);
        if toks.len() == 0 {
            Ok(st)
        } else {
            let cmd = toks[0];
            let nargs = toks.len() - 1;
            if cmd == seq![118u8] && nargs == 0 {
                // v
                Ok(ParserView { mode: ModeView::ViewBlock { partial: empty_partial_view() }, ..st })
            } else if cmd == seq![98u8] && nargs == 3 {
                // b r g b
                if !is_float_text(toks[1]) {
                    Err(err_view("b"@, "invalid red value"@))
                } else if !is_float_text(toks[2]) {
                    Err(err_view("b"@, "invalid green value"@))
                } else if !is_float_text(toks[3]) {
                    Err(err_view("b"@, "invalid blue value"@))
                } else {
                    Ok(ParserView { background: Some(triple_of(toks.skip(1))), ..st })
                }
            } else if cmd == seq![112u8, 112u8] && nargs == 1 {
                // pp n
                match spec_parse_u32(toks[1]) {
                    Some(n) => if n < 3 {
                        Err(err_view("pp"@, "insufficient vertex count"@))
                    } else {
                        Ok(
                            ParserView {
                                mode: ModeView::PatchBlock { remaining: n, vertices: Seq::empty() },
                                ..st
                            },
                        )
                    },
                    None => Err(err_view("pp"@, "invalid vertex count"@)),
                }
            } else if cmd == seq![112u8] && nargs == 1 {
                // p n
                match spec_parse_u32(toks[1]) {
                    Some(n) => if n < 3 {
                        Err(err_view("p"@, "insufficient vertex count"@))
                    } else {
                        Ok(
                            ParserView {
                                mode: ModeView::PolygonBlock {
                                    remaining: n,
                                    vertices: Seq::empty(),
                                },
                                ..st
                            },
                        )
                    },
                    None => Err(err_view("p"@, "invalid vertex count"@)),
                }
            } else if cmd == seq![102u8] && nargs == 8 {
                // f r g b kd ks shine T n
                if !all_floats(toks.skip(1)) {
                    Err(err_view("f"@, "invalid value"@))
                } else {
                    Ok(
                        ParserView {
                            fills: st.fills.push(
                                FillDescView {
                                    color: triple_of(toks.skip(1)),
                                    diffuse: toks[4],
                                    specular: toks[5],
                                    shine: toks[6],
                                    transmittance: toks[7],
                                    refraction_index: toks[8],
                                    phong: st.use_phong,
                                },
                            ),
                            ..st
                        },
                    )
                }
            } else if cmd == seq![108u8] && nargs == 3 {
                // l x y z: white light
                if !all_floats(toks.skip(1)) {
                    Err(err_view("l"@, "invalid value"@))
                } else {
                    Ok(
                        ParserView {
                            lights: st.lights.push(
                                LightDescView { position: triple_of(toks.skip(1)), color: None },
                            ),
                            ..st
                        },
                    )
                }
            } else if cmd == seq![108u8] && nargs == 6 {
                // l x y z r g b
                if !all_floats(toks.skip(1)) {
                    Err(err_view("l"@, "invalid value"@))
                } else {
                    Ok(
                        ParserView {
                            lights: st.lights.push(
                                LightDescView {
                                    position: triple_of(toks.skip(1)),
                                    color: Some(TripleView { x: toks[4], y: toks[5], z: toks[6] }),
                                },
                            ),
                            ..st
                        },
                    )
                }
            } else if cmd == seq![115u8] && nargs == 4 {
                // s x y z r
                if !all_floats(toks.skip(1)) {
                    Err(err_view("s"@, "invalid value"@))
                } else {
                    Ok(
                        ParserView {
                            primitives: st.primitives.push(
                                PrimitiveDescView {
                                    shape: ShapeDescView::Sphere {
                                        center: triple_of(toks.skip(1)),
                                        radius: toks[4],
                                    },
                                    fill: current_fill(st.fills),
                                },
                            ),
                            ..st
                        },
                    )
                }
            } else if cmd == seq![99u8] && nargs == 0 {
                // c, endpoints on two continuation lines
                Ok(ParserView { mode: ModeView::ConeBlock { base: None }, ..st })
            } else if cmd == seq![99u8] && nargs == 8 {
                // c bx by bz br ax ay az ar
                if !all_floats(toks.skip(1)) {
                    Err(err_view("c"@, "invalid value"@))
                } else {
                    Ok(
                        ParserView {
                            primitives: st.primitives.push(
                                PrimitiveDescView {
                                    shape: ShapeDescView::Cone {
                                        base: triple_of(toks.skip(1)),
                                        base_radius: toks[4],
                                        apex: TripleView { x: toks[5], y: toks[6], z: toks[7] },
                                        apex_radius: toks[8],
                                    },
                                    fill: current_fill(st.fills),
                                },
                            ),
                            ..st
                        },
                    )
                }
            } else {
                Ok(ParserView { unrecognized: st.unrecognized.push(line), ..st })
            }
        }
    }
}

pub open spec fn view_complete(p: ViewPartialView) -> bool {
    p.from is Some && p.at is Some && p.up is Some && p.angle is Some && p.hither is Some
        && p.resolution is Some
}

pub open spec fn make_view_desc(p: ViewPartialView) -> ViewDescView
    recommends
        view_complete(p),
{
    ViewDescView {
        from: p.from->Some_0,
        at: p.at->Some_0,
        up: p.up->Some_0,
        angle: p.angle->Some_0,
        hither: p.hither->Some_0,
        width: p.resolution->Some_0.0,
        height: p.resolution->Some_0.1,
    }
}

/// After a viewing-block line: once all six fields are present the view is
/// emitted and plain commands resume; otherwise the block continues.
pub open spec fn spec_after_view_line(st: ParserView, p: ViewPartialView) -> Result<
    ParserView,
    NFFErrorView,
> {
    if view_complete(p) {
        Ok(ParserView { view: Some(make_view_desc(p)), mode: ModeView::Top, ..st })
    } else {
        Ok(ParserView { mode: ModeView::ViewBlock { partial: p }, ..st })
    }
}

/// One line of the `v` block.  A line starting with a known keyword sets that
/// field (later lines overwrite earlier ones); other lines are ignored.
pub open spec fn spec_step_view(st: ParserView, p: ViewPartialView, line: Seq<u8>) -> Result<
    ParserView,
    NFFErrorView,
> {
    if spec_starts_with(line, kw_from()) {
        match spec_parse_values(line, 1, 3) {
            Ok(vals) => if all_floats(vals) {
                spec_after_view_line(st, ViewPartialView { from: Some(triple_of(vals)), ..p })
            } else {
                Err(err_view("v"@, "invalid value"@))
            },
            Err(e) => Err(e),
        }
    } else if spec_starts_with(line, kw_at()) {
        match spec_parse_values(line, 1, 3) {
            Ok(vals) => if all_floats(vals) {
                spec_after_view_line(st, ViewPartialView { at: Some(triple_of(vals)), ..p })
            } else {
                Err(err_view("v"@, "invalid value"@))
            },
            Err(e) => Err(e),
        }
    } else if spec_starts_with(line, kw_up()) {
        match spec_parse_values(line, 1, 3) {
            Ok(vals) => if all_floats(vals) {
                spec_after_view_line(st, ViewPartialView { up: Some(triple_of(vals)), ..p })
            } else {
                Err(err_view("v"@, "invalid value"@))
            },
            Err(e) => Err(e),
        }
    } else if spec_starts_with(line, kw_angle()) {
        match spec_parse_values(line, 1, 1) {
            Ok(vals) => if all_floats(vals) {
                spec_after_view_line(st, ViewPartialView { angle: Some(vals[0]), ..p })
            } else {
                Err(err_view("v"@, "invalid value"@))
            },
            Err(e) => Err(e),
        }
    } else if spec_starts_with(line, kw_hither()) {
        match spec_parse_values(line, 1, 1) {
            Ok(vals) => if all_floats(vals) {
                spec_after_view_line(st, ViewPartialView { hither: Some(vals[0]), ..p })
            } else {
                Err(err_view("v"@, "invalid value"@))
            },
            Err(e) => Err(e),
        }
    } else if spec_starts_with(line, kw_resolution()) {
        match spec_parse_values(line, 1, 2) {
            Ok(vals) => match (spec_parse_u32(vals[0]), spec_parse_u32(vals[1])) {
                (Some(w), Some(h)) => spec_after_view_line(
                    st,
                    ViewPartialView { resolution: Some((w, h)), ..p },
                ),
                _ => Err(err_view("v"@, "invalid value"@)),
            },
            Err(e) => Err(e),
        }
    } else {
        Ok(ParserView { mode: ModeView::ViewBlock { partial: p }, ..st })
    }
}

/// One vertex line of a `p` polygon.
pub open spec fn spec_step_poly(
    st: ParserView,
    remaining: u32,
    vertices: Seq<TripleView>,
    line: Seq<u8>,
) -> Result<ParserView, NFFErrorView> {
    match spec_parse_values(line, 0, 3) {
        Ok(vals) => if all_floats(vals) {
            let vs = vertices.push(triple_of(vals));
            if remaining <= 1 {
                Ok(
                    ParserView {
                        primitives: st.primitives.push(
                            PrimitiveDescView {
                                shape: ShapeDescView::Polygon { vertices: vs },
                                fill: current_fill(st.fills),
                            },
                        ),
                        mode: ModeView::Top,
                        ..st
                    },
                )
            } else {
                Ok(
                    ParserView {
                        mode: ModeView::PolygonBlock {
                            remaining: (remaining - 1) as u32,
                            vertices: vs,
                        },
                        ..st
                    },
                )
            }
        } else {
            Err(err_view("p"@, "invalid value"@))
        },
        Err(e) => Err(e),
    }
}

/// One vertex line of a `pp` patch: a position and its normal.
pub open spec fn spec_step_patch(
    st: ParserView,
    remaining: u32,
    vertices: Seq<PatchVertexView>,
    line: Seq<u8>,
) -> Result<ParserView, NFFErrorView> {
    match spec_parse_values(line, 0, 6) {
        Ok(vals) => if all_floats(vals) {
            let vs = vertices.push(
                PatchVertexView {
                    position: triple_of(vals),
                    normal: TripleView { x: vals[3], y: vals[4], z: vals[5] },
                },
            );
            if remaining <= 1 {
                Ok(
                    ParserView {
                        primitives: st.primitives.push(
                            PrimitiveDescView {
                                shape: ShapeDescView::PolygonPatch { vertices: vs },
                                fill: current_fill(st.fills),
                            },
                        ),
                        mode: ModeView::Top,
                        ..st
                    },
                )
            } else {
                Ok(
                    ParserView {
                        mode: ModeView::PatchBlock {
                            remaining: (remaining - 1) as u32,
                            vertices: vs,
                        },
                        ..st
                    },
                )
            }
        } else {
            Err(err_view("pp"@, "invalid value"@))
        },
        Err(e) => Err(e),
    }
}

/// One endpoint line of a two-line `c` cone: first the base, then the apex.
pub open spec fn spec_step_cone(
    st: ParserView,
    base: Option<(TripleView, Seq<u8>)>,
    line: Seq<u8>,
) -> Result<ParserView, NFFErrorView> {
    match spec_parse_values(line, 0, 4) {
        Ok(vals) => if all_floats(vals) {
            match base {
                None => Ok(
                    ParserView {
                        mode: ModeView::ConeBlock { base: Some((triple_of(vals), vals[3])) },
                        ..st
                    },
                ),
                Some(b) => Ok(
                    ParserView {
                        primitives: st.primitives.push(
                            PrimitiveDescView {
                                shape: ShapeDescView::Cone {
                                    base: b.0,
                                    base_radius: b.1,
                                    apex: triple_of(vals),
                                    apex_radius: vals[3],
                                },
                                fill: current_fill(st.fills),
                            },
                        ),
                        mode: ModeView::Top,
                        ..st
                    },
                ),
            }
        } else {
            Err(err_view("c"@, "invalid value"@))
        },
        Err(e) => Err(e),
    }
}

/// Consume one input line.
pub open spec fn spec_step(st: ParserView, line: Seq<u8>) -> Result<ParserView, NFFErrorView> {
    match st.mode {
        ModeView::Top => spec_step_top(st, line),
        ModeView::ViewBlock { partial } => spec_step_view(st, partial, line),
        ModeView::PolygonBlock { remaining, vertices } => spec_step_poly(
            st,
            remaining,
            vertices,
            line,
        ),
        ModeView::PatchBlock { remaining, vertices } => spec_step_patch(
            st,
            remaining,
            vertices,
            line,
        ),
        ModeView::ConeBlock { base } => spec_step_cone(st, base, line),
    }
}

/// End of input: plain commands with a view emitted make a scene; anything
/// still in progress is an error, as is a scene without a view.
pub open spec fn spec_finish(st: ParserView) -> Result<SceneScriptView, NFFErrorView> {
    match st.mode {
        ModeView::Top => match st.view {
            Some(v) => Ok(
                SceneScriptView {
                    scene_view: v,
                    background: st.background,
                    lights: st.lights,
                    fills: st.fills,
                    primitives: st.primitives,
                    unrecognized: st.unrecognized,
                },
            ),
            None => Err(err_view("v"@, "missing view"@)),
        },
        ModeView::ViewBlock { .. } => Err(err_view("v"@, "missing parameters"@)),
        ModeView::PolygonBlock { .. } => Err(err_view("p"@, "missing parameters"@)),
        ModeView::PatchBlock { .. } => Err(err_view("pp"@, "missing parameters"@)),
        ModeView::ConeBlock { .. } => Err(err_view(""@, "wrong value count"@)),
    }
}

/// Run the reader over the remaining lines.
pub open spec fn spec_run(lines: Seq<Seq<u8>>, st: ParserView) -> Result<
    SceneScriptView,
    NFFErrorView,
>
    decreases lines.len(),
{
    if lines.len() == 0 {
        spec_finish(st)
    } else {
        match spec_step(st, lines[0]) {
            Ok(st2) => spec_run(lines.skip(1), st2),
            Err(e) => Err(e),
        }
    }
}

/// What reading a whole NFF input yields.
pub open spec fn spec_read(input: Seq<u8>, use_phong: bool) -> Result<
    SceneScriptView,
    NFFErrorView,
> {
    spec_run(lines_of(input), spec_init(use_phong))
}

/// The value words of `line`: the line must hold exactly `start_word + count`
/// words, and those from `start_word` on are returned.
pub fn parse_values(line: &Vec<u8>, start_word: usize, count: usize) -> (r: Result<
    Vec<Vec<u8>>,
    NFFError,
>)
    ensures
        (match r {
            Ok(vals) => spec_parse_values(line@, start_word as int, count as int) == Ok::<
                Seq<Seq<u8>>,
                NFFErrorView,
            >(vals.deep_view()) && vals@.len() == count,
            Err(e) => spec_parse_values(line@, start_word as int, count as int) == Err::<
                Seq<Seq<u8>>,
                NFFErrorView,
            >(e@),
        }),
{
    let words = tokenize(line.as_slice());
    if words.len() < start_word || words.len() - start_word != count {
        return Err(NFFError::new("", "wrong value count"));
    }
    let mut vals: Vec<Vec<u8>> = Vec::new();
    let mut k: usize = start_word;
    proof {
        assert(vals.deep_view() =~= words.deep_view().subrange(
            start_word as int,
            start_word as int,
        ));
    }
    while k < words.len()
        invariant
            start_word <= k <= words@.len(),
            words.deep_view() == tokens_of(line@),
            words@.len() == start_word + count,
            vals.deep_view() == words.deep_view().subrange(start_word as int, k as int),
        decreases words@.len() - k,
    {
        let w = words[k].clone();
        proof {
            assert(w.deep_view() =~= words@[k as int]@);
            assert(words.deep_view()[k as int] == words@[k as int].deep_view());
        }
        let ghost prev = vals.deep_view();
        let ghost wv = w.deep_view();
        vals.push(w);
        proof {
            assert(vals.deep_view() =~~= prev.push(wv));
            assert(vals.deep_view() =~= words.deep_view().subrange(start_word as int, k + 1));
        }
        k += 1;
    }
    proof {
        assert(words.deep_view().subrange(start_word as int, words.deep_view().len() as int) =~= words.deep_view().skip(start_word as int));
    }
    Ok(vals)
}

/// Whether the words from `start` on are all float literals.
#[verifier::loop_isolation(false)]
fn floats_ok(words: &Vec<Vec<u8>>, start: usize) -> (r: bool)
    requires
        start <= words@.len(),
    ensures
        r == all_floats(words.deep_view().skip(start as int)),
{
    broadcast use crate::text::lemma_bytes_deep_view;

    let ghost tail = words.deep_view().skip(start as int);
    let mut k: usize = start;
    while k < words.len()
        invariant
            start <= k <= words@.len(),
            forall|i: int| start <= i < k ==> is_float_text(#[trigger] words.deep_view()[i]),
        decreases words@.len() - k,
    {
        if !is_float_word(words[k].as_slice()) {
            proof {
                assert(tail[k - start as int] == words.deep_view()[k as int]);
            }
            return false;
        }
        k += 1;
    }
    proof {
        assert forall|i: int| 0 <= i < tail.len() implies is_float_text(#[trigger] tail[i]) by {
            assert(tail[i] == words.deep_view()[i + start]);
        }
    }
    true
}

/// Clone three consecutive words into a triple.
fn triple_from(words: &Vec<Vec<u8>>, at: usize) -> (t: Triple)
    requires
        at + 3 <= words@.len(),
    ensures
        t@ == (TripleView {
            x: words.deep_view()[at as int],
            y: words.deep_view()[at + 1],
            z: words.deep_view()[at + 2],
        }),
{
    broadcast use crate::text::lemma_bytes_deep_view;

    let _n = words.len();
    Triple { x: words[at].clone(), y: words[at + 1].clone(), z: words[at + 2].clone() }
}

fn word_eq1(w: &Vec<u8>, b: u8) -> (r: bool)
    ensures
        r == (w@ == seq![b]),
{
    let res = w.len() == 1 && w[0] == b;
    proof {
        if res {
            assert(w@ =~= seq![b]);
        }
    }
    res
}

fn word_is_pp(w: &Vec<u8>) -> (r: bool)
    ensures
        r == (w@ == seq![112u8, 112u8]),
{
    let res = w.len() == 2 && w[0] == 112 && w[1] == 112;
    proof {
        if res {
            assert(w@ =~= seq![112u8, 112u8]);
        }
    }
    res
}

fn cur_fill(fills: &Vec<FillDesc>) -> (r: Option<usize>)
    ensures
        r == current_fill(fills.deep_view()),
{
    if fills.len() == 0 {
        None
    } else {
        Some(fills.len() - 1)
    }
}

proof fn lemma_all_floats_unskip(ws: Seq<Seq<u8>>, k: int)
    requires
        0 <= k <= ws.len(),
        all_floats(ws.skip(k)),
    ensures
        forall|i: int| k <= i < ws.len() ==> is_float_text(#[trigger] ws[i]),
{
    assert forall|i: int| k <= i < ws.len() implies is_float_text(#[trigger] ws[i]) by {
        assert(ws.skip(k)[i - k] == ws[i]);
    }
}

proof fn lemma_wf_lights_push(lights: Seq<LightDescView>, l: LightDescView)
    requires
        forall|i: int| 0 <= i < lights.len() ==> wf_light(#[trigger] lights[i]),
        wf_light(l),
    ensures
        forall|i: int| 0 <= i < lights.push(l).len() ==> wf_light(#[trigger] lights.push(l)[i]),
{
    assert forall|i: int| 0 <= i < lights.push(l).len() implies wf_light(
        #[trigger] lights.push(l)[i],
    ) by {
        if i < lights.len() {
            assert(lights.push(l)[i] == lights[i]);
        }
    }
}

proof fn lemma_wf_fills_push(fills: Seq<FillDescView>, f: FillDescView)
    requires
        forall|i: int| 0 <= i < fills.len() ==> wf_fill(#[trigger] fills[i]),
        wf_fill(f),
    ensures
        forall|i: int| 0 <= i < fills.push(f).len() ==> wf_fill(#[trigger] fills.push(f)[i]),
{
    assert forall|i: int| 0 <= i < fills.push(f).len() implies wf_fill(
        #[trigger] fills.push(f)[i],
    ) by {
        if i < fills.len() {
            assert(fills.push(f)[i] == fills[i]);
        }
    }
}

proof fn lemma_wf_prims_push(
    prims: Seq<PrimitiveDescView>,
    p: PrimitiveDescView,
    n1: int,
    n2: int,
)
    requires
        forall|i: int| 0 <= i < prims.len() ==> wf_primitive(#[trigger] prims[i], n1),
        wf_primitive(p, n2),
        n1 <= n2,
    ensures
        forall|i: int|
            0 <= i < prims.push(p).len() ==> wf_primitive(#[trigger] prims.push(p)[i], n2),
{
    assert forall|i: int| 0 <= i < prims.push(p).len() implies wf_primitive(
        #[trigger] prims.push(p)[i],
        n2,
    ) by {
        if i < prims.len() {
            assert(prims.push(p)[i] == prims[i]);
            assert(wf_primitive(prims[i], n1));
        }
    }
}

proof fn lemma_wf_triples_push(vs: Seq<TripleView>, t: TripleView)
    requires
        forall|i: int| 0 <= i < vs.len() ==> wf_triple(#[trigger] vs[i]),
        wf_triple(t),
    ensures
        forall|i: int| 0 <= i < vs.push(t).len() ==> wf_triple(#[trigger] vs.push(t)[i]),
{
    assert forall|i: int| 0 <= i < vs.push(t).len() implies wf_triple(#[trigger] vs.push(t)[i]) by {
        if i < vs.len() {
            assert(vs.push(t)[i] == vs[i]);
        }
    }
}

proof fn lemma_wf_patch_push(vs: Seq<PatchVertexView>, v: PatchVertexView)
    requires
        forall|i: int| 0 <= i < vs.len() ==> wf_patch_vertex(#[trigger] vs[i]),
        wf_patch_vertex(v),
    ensures
        forall|i: int|
            0 <= i < vs.push(v).len() ==> wf_patch_vertex(#[trigger] vs.push(v)[i]),
{
    assert forall|i: int| 0 <= i < vs.push(v).len() implies wf_patch_vertex(
        #[trigger] vs.push(v)[i],
    ) by {
        if i < vs.len() {
            assert(vs.push(v)[i] == vs[i]);
        }
    }
}

/// Consume one input line, as `spec_step` describes.  Well-formed states stay
/// well formed.
#[verifier::rlimit(100)]
pub fn step(st: Parser, line: &Vec<u8>) -> (r: Result<Parser, NFFError>)
    ensures
        (match r {
            Ok(st2) => spec_step(st@, line@) == Ok::<ParserView, NFFErrorView>(st2@) && (wf_state(
                st@,
            ) ==> wf_state(st2@)),
            Err(e) => spec_step(st@, line@) == Err::<ParserView, NFFErrorView>(e@),
        }),
{
    broadcast use crate::text::lemma_bytes_deep_view;

    let ghost st0 = st@;
    let Parser { view, background, lights, fills, primitives, unrecognized, mode, use_phong } = st;
    match mode {
        Mode::Top => {
            if line.len() > 0 && line[0] == 35 {
                return Ok(
                    Parser {
                        view,
                        background,
                        lights,
                        fills,
                        primitives,
                        unrecognized,
                        mode: Mode::Top,
                        use_phong,
                    },
                );
            }
            let toks = tokenize(line.as_slice());
            let ghost tv = tokens_of(line@);
            if toks.len() == 0 {
                return Ok(
                    Parser {
                        view,
                        background,
                        lights,
                        fills,
                        primitives,
                        unrecognized,
                        mode: Mode::Top,
                        use_phong,
                    },
                );
            }
            let nargs = toks.len() - 1;
            if word_eq1(&toks[0], 118) && nargs == 0 {
                // v
                return Ok(
                    Parser {
                        view,
                        background,
                        lights,
                        fills,
                        primitives,
                        unrecognized,
                        mode: Mode::ViewBlock {
                            partial: ViewPartial {
                                from: None,
                                at: None,
                                up: None,
                                angle: None,
                                hither: None,
                                resolution: None,
                            },
                        },
                        use_phong,
                    },
                );
            }
            if word_eq1(&toks[0], 98) && nargs == 3 {
                // b r g b
                if !is_float_word(toks[1].as_slice()) {
                    return Err(NFFError::new("b", "invalid red value"));
                }
                if !is_float_word(toks[2].as_slice()) {
                    return Err(NFFError::new("b", "invalid green value"));
                }
                if !is_float_word(toks[3].as_slice()) {
                    return Err(NFFError::new("b", "invalid blue value"));
                }
                let t = triple_from(&toks, 1);
                proof {
                    assert(t@ == triple_of(tv.skip(1)));
                }
                return Ok(
                    Parser {
                        view,
                        background: Some(t),
                        lights,
                        fills,
                        primitives,
                        unrecognized,
                        mode: Mode::Top,
                        use_phong,
                    },
                );
            }
            if word_is_pp(&toks[0]) && nargs == 1 {
                // pp n
                match parse_u32(toks[1].as_slice()) {
                    Some(n) => {
                        if n < 3 {
                            return Err(NFFError::new("pp", "insufficient vertex count"));
                        }
                        let vs: Vec<PatchVertex> = Vec::new();
                        proof {
                            assert(vs.deep_view() =~= Seq::<PatchVertexView>::empty());
                        }
                        return Ok(
                            Parser {
                                view,
                                background,
                                lights,
                                fills,
                                primitives,
                                unrecognized,
                                mode: Mode::PatchBlock { remaining: n, vertices: vs },
                                use_phong,
                            },
                        );
                    },
                    None => {
                        return Err(NFFError::new("pp", "invalid vertex count"));
                    },
                }
            }
            if word_eq1(&toks[0], 112) && nargs == 1 {
                // p n
                match parse_u32(toks[1].as_slice()) {
                    Some(n) => {
                        if n < 3 {
                            return Err(NFFError::new("p", "insufficient vertex count"));
                        }
                        let vs: Vec<Triple> = Vec::new();
                        proof {
                            assert(vs.deep_view() =~= Seq::<TripleView>::empty());
                        }
                        return Ok(
                            Parser {
                                view,
                                background,
                                lights,
                                fills,
                                primitives,
                                unrecognized,
                                mode: Mode::PolygonBlock { remaining: n, vertices: vs },
                                use_phong,
                            },
                        );
                    },
                    None => {
                        return Err(NFFError::new("p", "invalid vertex count"));
                    },
                }
            }
            if word_eq1(&toks[0], 102) && nargs == 8 {
                // f r g b kd ks shine T n
                if !floats_ok(&toks, 1) {
                    return Err(NFFError::new("f", "invalid value"));
                }
                let color = triple_from(&toks, 1);
                let f = FillDesc {
                    color,
                    diffuse: toks[4].clone(),
                    specular: toks[5].clone(),
                    shine: toks[6].clone(),
                    transmittance: toks[7].clone(),
                    refraction_index: toks[8].clone(),
                    phong: use_phong,
                };
                let ghost prev = fills.deep_view();
                let ghost fv = f@;
                let mut fills = fills;
                fills.push(f);
                proof {
                    assert(fills.deep_view() =~~= prev.push(fv));
                    if wf_state(st0) {
                        lemma_all_floats_unskip(tv, 1);
                        assert(wf_fill(fv));
                        lemma_wf_fills_push(prev, fv);
                        lemma_wf_prims_push_none(st0.primitives, prev.len() as int);
                    }
                }
                return Ok(
                    Parser {
                        view,
                        background,
                        lights,
                        fills,
                        primitives,
                        unrecognized,
                        mode: Mode::Top,
                        use_phong,
                    },
                );
            }
            if word_eq1(&toks[0], 108) && nargs == 3 {
                // l x y z
                if !floats_ok(&toks, 1) {
                    return Err(NFFError::new("l", "invalid value"));
                }
                let l = LightDesc { position: triple_from(&toks, 1), color: None };
                let ghost prev = lights.deep_view();
                let ghost lv = l@;
                let mut lights = lights;
                lights.push(l);
                proof {
                    assert(lights.deep_view() =~~= prev.push(lv));
                    if wf_state(st0) {
                        lemma_all_floats_unskip(tv, 1);
                        assert(wf_light(lv));
                        lemma_wf_lights_push(prev, lv);
                    }
                }
                return Ok(
                    Parser {
                        view,
                        background,
                        lights,
                        fills,
                        primitives,
                        unrecognized,
                        mode: Mode::Top,
                        use_phong,
                    },
                );
            }
            if word_eq1(&toks[0], 108) && nargs == 6 {
                // l x y z r g b
                if !floats_ok(&toks, 1) {
                    return Err(NFFError::new("l", "invalid value"));
                }
                let l = LightDesc {
                    position: triple_from(&toks, 1),
                    color: Some(triple_from(&toks, 4)),
                };
                let ghost prev = lights.deep_view();
                let ghost lv = l@;
                let mut lights = lights;
                lights.push(l);
                proof {
                    assert(lights.deep_view() =~~= prev.push(lv));
                    if wf_state(st0) {
                        lemma_all_floats_unskip(tv, 1);
                        assert(wf_light(lv));
                        lemma_wf_lights_push(prev, lv);
                    }
                }
                return Ok(
                    Parser {
                        view,
                        background,
                        lights,
                        fills,
                        primitives,
                        unrecognized,
                        mode: Mode::Top,
                        use_phong,
                    },
                );
            }
            if word_eq1(&toks[0], 115) && nargs == 4 {
                // s x y z r
                if !floats_ok(&toks, 1) {
                    return Err(NFFError::new("s", "invalid value"));
                }
                let prim = PrimitiveDesc {
                    shape: ShapeDesc::Sphere {
                        center: triple_from(&toks, 1),
                        radius: toks[4].clone(),
                    },
                    fill: cur_fill(&fills),
                };
                let ghost prev = primitives.deep_view();
                let ghost pv = prim@;
                let mut primitives = primitives;
                primitives.push(prim);
                proof {
                    assert(primitives.deep_view() =~~= prev.push(pv));
                    if wf_state(st0) {
                        lemma_all_floats_unskip(tv, 1);
                        assert(wf_primitive(pv, st0.fills.len() as int));
                        lemma_wf_prims_push(prev, pv, st0.fills.len() as int, st0.fills.len() as int);
                    }
                }
                return Ok(
                    Parser {
                        view,
                        background,
                        lights,
                        fills,
                        primitives,
                        unrecognized,
                        mode: Mode::Top,
                        use_phong,
                    },
                );
            }
            if word_eq1(&toks[0], 99) && nargs == 0 {
                // c with two continuation lines
                return Ok(
                    Parser {
                        view,
                        background,
                        lights,
                        fills,
                        primitives,
                        unrecognized,
                        mode: Mode::ConeBlock { base: None },
                        use_phong,
                    },
                );
            }
            if word_eq1(&toks[0], 99) && nargs == 8 {
                // c bx by bz br ax ay az ar
                if !floats_ok(&toks, 1) {
                    return Err(NFFError::new("c", "invalid value"));
                }
                let prim = PrimitiveDesc {
                    shape: ShapeDesc::Cone {
                        base: triple_from(&toks, 1),
                        base_radius: toks[4].clone(),
                        apex: triple_from(&toks, 5),
                        apex_radius: toks[8].clone(),
                    },
                    fill: cur_fill(&fills),
                };
                let ghost prev = primitives.deep_view();
                let ghost pv = prim@;
                let mut primitives = primitives;
                primitives.push(prim);
                proof {
                    assert(primitives.deep_view() =~~= prev.push(pv));
                    if wf_state(st0) {
                        lemma_all_floats_unskip(tv, 1);
                        assert(wf_primitive(pv, st0.fills.len() as int));
                        lemma_wf_prims_push(prev, pv, st0.fills.len() as int, st0.fills.len() as int);
                    }
                }
                return Ok(
                    Parser {
                        view,
                        background,
                        lights,
                        fills,
                        primitives,
                        unrecognized,
                        mode: Mode::Top,
                        use_phong,
                    },
                );
            }
            // Not a recognized command: keep the line to be reported, and go on.
            let ghost prev = unrecognized.deep_view();
            let mut unrecognized = unrecognized;
            unrecognized.push(line.clone());
            proof {
                assert(unrecognized.deep_view() =~~= prev.push(line@));
            }
            Ok(
                Parser {
                    view,
                    background,
                    lights,
                    fills,
                    primitives,
                    unrecognized,
                    mode: Mode::Top,
                    use_phong,
                },
            )
        },
        Mode::ViewBlock { partial } => {
            let ghost pv = partial@;
            let kf: [u8; 4] = [102, 114, 111, 109];
            let ka: [u8; 2] = [97, 116];
            let ku: [u8; 2] = [117, 112];
            let kn: [u8; 5] = [97, 110, 103, 108, 101];
            let kh: [u8; 6] = [104, 105, 116, 104, 101, 114];
            let kr: [u8; 10] = [114, 101, 115, 111, 108, 117, 116, 105, 111, 110];
            proof {
                assert(kf@ =~= kw_from());
                assert(ka@ =~= kw_at());
                assert(ku@ =~= kw_up());
                assert(kn@ =~= kw_angle());
                assert(kh@ =~= kw_hither());
                assert(kr@ =~= kw_resolution());
            }
            let p2: ViewPartial;
            if starts_with(line.as_slice(), kf.as_slice()) {
                let vals = match parse_values(line, 1, 3) {
                    Ok(v) => v,
                    Err(e) => {
                        return Err(e);
                    },
                };
                proof {
                    assert(vals.deep_view().skip(0) =~= vals.deep_view());
                }
                if !floats_ok(&vals, 0) {
                    return Err(NFFError::new("v", "invalid value"));
                }
                p2 = ViewPartial { from: Some(triple_from(&vals, 0)), ..partial };
            } else if starts_with(line.as_slice(), ka.as_slice()) {
                let vals = match parse_values(line, 1, 3) {
                    Ok(v) => v,
                    Err(e) => {
                        return Err(e);
                    },
                };
                proof {
                    assert(vals.deep_view().skip(0) =~= vals.deep_view());
                }
                if !floats_ok(&vals, 0) {
                    return Err(NFFError::new("v", "invalid value"));
                }
                p2 = ViewPartial { at: Some(triple_from(&vals, 0)), ..partial };
            } else if starts_with(line.as_slice(), ku.as_slice()) {
                let vals = match parse_values(line, 1, 3) {
                    Ok(v) => v,
                    Err(e) => {
                        return Err(e);
                    },
                };
                proof {
                    assert(vals.deep_view().skip(0) =~= vals.deep_view());
                }
                if !floats_ok(&vals, 0) {
                    return Err(NFFError::new("v", "invalid value"));
                }
                p2 = ViewPartial { up: Some(triple_from(&vals, 0)), ..partial };
            } else if starts_with(line.as_slice(), kn.as_slice()) {
                let vals = match parse_values(line, 1, 1) {
                    Ok(v) => v,
                    Err(e) => {
                        return Err(e);
                    },
                };
                proof {
                    assert(vals.deep_view().skip(0) =~= vals.deep_view());
                }
                if !floats_ok(&vals, 0) {
                    return Err(NFFError::new("v", "invalid value"));
                }
                p2 = ViewPartial { angle: Some(vals[0].clone()), ..partial };
            } else if starts_with(line.as_slice(), kh.as_slice()) {
                let vals = match parse_values(line, 1, 1) {
                    Ok(v) => v,
                    Err(e) => {
                        return Err(e);
                    },
                };
                proof {
                    assert(vals.deep_view().skip(0) =~= vals.deep_view());
                }
                if !floats_ok(&vals, 0) {
                    return Err(NFFError::new("v", "invalid value"));
                }
                p2 = ViewPartial { hither: Some(vals[0].clone()), ..partial };
            } else if starts_with(line.as_slice(), kr.as_slice()) {
                let vals = match parse_values(line, 1, 2) {
                    Ok(v) => v,
                    Err(e) => {
                        return Err(e);
                    },
                };
                let w = match parse_u32(vals[0].as_slice()) {
                    Some(w) => w,
                    None => {
                        return Err(NFFError::new("v", "invalid value"));
                    },
                };
                let h = match parse_u32(vals[1].as_slice()) {
                    Some(h) => h,
                    None => {
                        return Err(NFFError::new("v", "invalid value"));
                    },
                };
                p2 = ViewPartial { resolution: Some((w, h)), ..partial };
            } else {
                return Ok(
                    Parser {
                        view,
                        background,
                        lights,
                        fills,
                        primitives,
                        unrecognized,
                        mode: Mode::ViewBlock { partial },
                        use_phong,
                    },
                );
            }
            proof {
                assert(spec_step_view(st0, pv, line@) == spec_after_view_line(st0, p2@));
            }
            match (p2.from, p2.at, p2.up, p2.angle, p2.hither, p2.resolution) {
                (Some(from), Some(at), Some(up), Some(angle), Some(hither), Some(res)) => {
                    let vd = ViewDesc {
                        from,
                        at,
                        up,
                        angle,
                        hither,
                        width: res.0,
                        height: res.1,
                    };
                    Ok(
                        Parser {
                            view: Some(vd),
                            background,
                            lights,
                            fills,
                            primitives,
                            unrecognized,
                            mode: Mode::Top,
                            use_phong,
                        },
                    )
                },
                (from, at, up, angle, hither, res) => Ok(
                    Parser {
                        view,
                        background,
                        lights,
                        fills,
                        primitives,
                        unrecognized,
                        mode: Mode::ViewBlock {
                            partial: ViewPartial { from, at, up, angle, hither, resolution: res },
                        },
                        use_phong,
                    },
                ),
            }
        },
        Mode::PolygonBlock { remaining, vertices } => {
            let vals = match parse_values(line, 0, 3) {
                Ok(v) => v,
                Err(e) => {
                    return Err(e);
                },
            };
            proof {
                assert(vals.deep_view().skip(0) =~= vals.deep_view());
            }
            if !floats_ok(&vals, 0) {
                return Err(NFFError::new("p", "invalid value"));
            }
            let t = triple_from(&vals, 0);
            let ghost prevvs = vertices.deep_view();
            let ghost tvv = t@;
            let mut vertices = vertices;
            vertices.push(t);
            proof {
                assert(vertices.deep_view() =~~= prevvs.push(tvv));
                if wf_state(st0) {
                    lemma_wf_triples_push(prevvs, tvv);
                }
            }
            if remaining <= 1 {
                let prim = PrimitiveDesc {
                    shape: ShapeDesc::Polygon { vertices },
                    fill: cur_fill(&fills),
                };
                let ghost prev = primitives.deep_view();
                let ghost pvv = prim@;
                let mut primitives = primitives;
                primitives.push(prim);
                proof {
                    assert(primitives.deep_view() =~~= prev.push(pvv));
                    if wf_state(st0) {
                        lemma_wf_prims_push(prev, pvv, st0.fills.len() as int, st0.fills.len() as int);
                    }
                }
                Ok(
                    Parser {
                        view,
                        background,
                        lights,
                        fills,
                        primitives,
                        unrecognized,
                        mode: Mode::Top,
                        use_phong,
                    },
                )
            } else {
                Ok(
                    Parser {
                        view,
                        background,
                        lights,
                        fills,
                        primitives,
                        unrecognized,
                        mode: Mode::PolygonBlock { remaining: remaining - 1, vertices },
                        use_phong,
                    },
                )
            }
        },
        Mode::PatchBlock { remaining, vertices } => {
            let vals = match parse_values(line, 0, 6) {
                Ok(v) => v,
                Err(e) => {
                    return Err(e);
                },
            };
            proof {
                assert(vals.deep_view().skip(0) =~= vals.deep_view());
            }
            if !floats_ok(&vals, 0) {
                return Err(NFFError::new("pp", "invalid value"));
            }
            let v = PatchVertex { position: triple_from(&vals, 0), normal: triple_from(&vals, 3) };
            let ghost prevvs = vertices.deep_view();
            let ghost vv = v@;
            let mut vertices = vertices;
            vertices.push(v);
            proof {
                assert(vertices.deep_view() =~~= prevvs.push(vv));
                if wf_state(st0) {
                    lemma_wf_patch_push(prevvs, vv);
                }
            }
            if remaining <= 1 {
                let prim = PrimitiveDesc {
                    shape: ShapeDesc::PolygonPatch { vertices },
                    fill: cur_fill(&fills),
                };
                let ghost prev = primitives.deep_view();
                let ghost pvv = prim@;
                let mut primitives = primitives;
                primitives.push(prim);
                proof {
                    assert(primitives.deep_view() =~~= prev.push(pvv));
                    if wf_state(st0) {
                        lemma_wf_prims_push(prev, pvv, st0.fills.len() as int, st0.fills.len() as int);
                    }
                }
                Ok(
                    Parser {
                        view,
                        background,
                        lights,
                        fills,
                        primitives,
                        unrecognized,
                        mode: Mode::Top,
                        use_phong,
                    },
                )
            } else {
                Ok(
                    Parser {
                        view,
                        background,
                        lights,
                        fills,
                        primitives,
                        unrecognized,
                        mode: Mode::PatchBlock { remaining: remaining - 1, vertices },
                        use_phong,
                    },
                )
            }
        },
        Mode::ConeBlock { base } => {
            let vals = match parse_values(line, 0, 4) {
                Ok(v) => v,
                Err(e) => {
                    return Err(e);
                },
            };
            proof {
                assert(vals.deep_view().skip(0) =~= vals.deep_view());
            }
            if !floats_ok(&vals, 0) {
                return Err(NFFError::new("c", "invalid value"));
            }
            let t = triple_from(&vals, 0);
            let rw = vals[3].clone();
            match base {
                None => Ok(
                    Parser {
                        view,
                        background,
                        lights,
                        fills,
                        primitives,
                        unrecognized,
                        mode: Mode::ConeBlock { base: Some((t, rw)) },
                        use_phong,
                    },
                ),
                Some(b) => {
                    let prim = PrimitiveDesc {
                        shape: ShapeDesc::Cone {
                            base: b.0,
                            base_radius: b.1,
                            apex: t,
                            apex_radius: rw,
                        },
                        fill: cur_fill(&fills),
                    };
                    let ghost prev = primitives.deep_view();
                    let ghost pvv = prim@;
                    let mut primitives = primitives;
                    primitives.push(prim);
                    proof {
                        assert(primitives.deep_view() =~~= prev.push(pvv));
                        if wf_state(st0) {
                            lemma_wf_prims_push(prev, pvv, st0.fills.len() as int, st0.fills.len() as int);
                        }
                    }
                    Ok(
                        Parser {
                            view,
                            background,
                            lights,
                            fills,
                            primitives,
                            unrecognized,
                            mode: Mode::Top,
                            use_phong,
                        },
                    )
                },
            }
        },
    }
}

proof fn lemma_wf_prims_push_none(prims: Seq<PrimitiveDescView>, n1: int)
    requires
        forall|i: int| 0 <= i < prims.len() ==> wf_primitive(#[trigger] prims[i], n1),
    ensures
        forall|i: int| 0 <= i < prims.len() ==> wf_primitive(#[trigger] prims[i], n1 + 1),
{
    assert forall|i: int| 0 <= i < prims.len() implies wf_primitive(#[trigger] prims[i], n1 + 1) by {
        assert(wf_primitive(prims[i], n1));
    }
}

/// A fresh reader: no view, no fills, default white background handling left
/// to the renderer, plain-command mode.
pub fn init(use_phong: bool) -> (st: Parser)
    ensures
        st@ == spec_init(use_phong),
        wf_state(st@),
{
    let st = Parser {
        view: None,
        background: None,
        lights: Vec::new(),
        fills: Vec::new(),
        primitives: Vec::new(),
        unrecognized: Vec::new(),
        mode: Mode::Top,
        use_phong,
    };
    proof {
        assert(st@.lights =~= spec_init(use_phong).lights);
        assert(st@.fills =~= spec_init(use_phong).fills);
        assert(st@.primitives =~= spec_init(use_phong).primitives);
        assert(st@.unrecognized =~= spec_init(use_phong).unrecognized);
    }
    st
}

/// Close the reader at end of input, as `spec_finish` describes.
pub fn finish(st: Parser) -> (r: Result<SceneScript, NFFError>)
    ensures
        (match r {
            Ok(s) => spec_finish(st@) == Ok::<SceneScriptView, NFFErrorView>(s@) && (wf_state(st@)
                ==> wf_script(s@)),
            Err(e) => spec_finish(st@) == Err::<SceneScriptView, NFFErrorView>(e@),
        }),
{
    let Parser { view, background, lights, fills, primitives, unrecognized, mode, use_phong: _ } =
        st;
    match mode {
        Mode::Top => match view {
            Some(v) => Ok(
                SceneScript { view: v, background, lights, fills, primitives, unrecognized },
            ),
            None => Err(NFFError::new("v", "missing view")),
        },
        Mode::ViewBlock { .. } => Err(NFFError::new("v", "missing parameters")),
        Mode::PolygonBlock { .. } => Err(NFFError::new("p", "missing parameters")),
        Mode::PatchBlock { .. } => Err(NFFError::new("pp", "missing parameters")),
        Mode::ConeBlock { .. } => Err(NFFError::new("", "wrong value count")),
    }
}

/// Read a whole NFF input.  On success every numeric word in the scene script
/// has been validated against the float grammar, every fill reference is
/// in range; the exact outcome, errors too, is `spec_read`.
pub fn read(input: &[u8], use_phong: bool) -> (r: Result<SceneScript, NFFError>)
    ensures
        (match r {
            Ok(s) => spec_read(input@, use_phong) == Ok::<SceneScriptView, NFFErrorView>(s@)
                && wf_script(s@),
            Err(e) => spec_read(input@, use_phong) == Err::<SceneScriptView, NFFErrorView>(e@),
        }),
{
    broadcast use crate::text::lemma_bytes_deep_view;

    let lines = split_lines(input);
    let ghost linesv = lines.deep_view();
    let mut st = init(use_phong);
    let mut i: usize = 0;
    proof {
        assert(linesv.skip(0) =~= linesv);
    }
    while i < lines.len()
        invariant
            i <= lines@.len(),
            linesv == lines.deep_view(),
            linesv == lines_of(input@),
            wf_state(st@),
            spec_run(linesv.skip(i as int), st@) == spec_read(input@, use_phong),
        decreases lines@.len() - i,
    {
        proof {
            assert(linesv.skip(i as int)[0] == linesv[i as int]);
            assert(linesv.skip(i as int).skip(1) =~= linesv.skip(i as int + 1));
            assert(linesv[i as int] == lines@[i as int].deep_view());
        }
        let line = &lines[i];
        proof {
            assert(line@ == lines@[i as int]@);
            assert(line@ == linesv.skip(i as int)[0]);
        }
        st = match step(st, line) {
            Ok(s2) => s2,
            Err(e) => {
                return Err(e);
            },
        };
        i += 1;
    }
    proof {
        assert(linesv.skip(lines@.len() as int) =~= Seq::<Seq<u8>>::empty());
    }
    finish(st)
}

} // verus!

//! The names by which meshes refer to cell kinds, and their VTK cell types.
use crate::model::CellType;
use crate::model::CellType::{
    Hexahedron, Line, Other, Pixel, PolyLine, PolyVertex, Polygon, Pyramid, Quad, QuadraticEdge,
    QuadraticHexahedron, QuadraticPyramid, QuadraticQuad, QuadraticTetra, QuadraticTriangle,
    QuadraticWedge, Tetra, Triangle, TriangleStrip, Vertex, Voxel, Wedge,
};
use crate::text::text_eq;
use vstd::prelude::*;

verus! {

broadcast use vstd::string::group_string_axioms;

/// The mesh name of a VTK cell type. Pixels are named as quads and voxels as
/// hexahedra; cell types without a mesh name are `"unknown"`.
pub open spec fn cell_type_name(ct: CellType) -> Seq<char> {
    match ct {
        Pixel => "quad"@,
        Voxel => "hexahedron"@,
        Other(_) => "unknown"@,
        Hexahedron => "hexahedron"@,
        Line => "line"@,
        PolyLine => "poly_line"@,
        PolyVertex => "poly_vertex"@,
        Polygon => "polygon"@,
        Pyramid => "pyramid"@,
        Quad => "quad"@,
        QuadraticEdge => "quadratic_edge"@,
        QuadraticHexahedron => "quadratic_hexahedron"@,
        QuadraticPyramid => "quadratic_pyramid"@,
        QuadraticQuad => "quadratic_quad"@,
        QuadraticTetra => "quadratic_tetra"@,
        QuadraticTriangle => "quadratic_triangle"@,
        QuadraticWedge => "quadratic_wedge"@,
        Tetra => "tetra"@,
        Triangle => "triangle"@,
        TriangleStrip => "triangle_strip"@,
        Vertex => "vertex"@,
        Wedge => "wedge"@,
    }
}

/// The VTK cell type written for a mesh cell name, if the name is one the
/// library writes.
pub open spec fn cell_type_of_name(s: Seq<char>) -> Option<CellType> {
    if s == "hexahedron"@ {
        Some(Hexahedron)
    } else if s == "line"@ {
        Some(Line)
    } else if s == "poly_line"@ {
        Some(PolyLine)
    } else if s == "poly_vertex"@ {
        Some(PolyVertex)
    } else if s == "polygon"@ {
        Some(Polygon)
    } else if s == "pyramid"@ {
        Some(Pyramid)
    } else if s == "quad"@ {
        Some(Quad)
    } else if s == "quadratic_edge"@ {
        Some(QuadraticEdge)
    } else if s == "quadratic_hexahedron"@ {
        Some(QuadraticHexahedron)
    } else if s == "quadratic_pyramid"@ {
        Some(QuadraticPyramid)
    } else if s == "quadratic_quad"@ {
        Some(QuadraticQuad)
    } else if s == "quadratic_tetra"@ {
        Some(QuadraticTetra)
    } else if s == "quadratic_triangle"@ {
        Some(QuadraticTriangle)
    } else if s == "quadratic_wedge"@ {
        Some(QuadraticWedge)
    } else if s == "tetra"@ {
        Some(Tetra)
    } else if s == "triangle"@ {
        Some(Triangle)
    } else if s == "triangle_strip"@ {
        Some(TriangleStrip)
    } else if s == "vertex"@ {
        Some(Vertex)
    } else if s == "wedge"@ {
        Some(Wedge)
    } else {
        None
    }
}

/// The names of the named kinds, in the same order.
pub open spec fn kind_names() -> Seq<Seq<char>> {
    seq![
        "hexahedron"@,
        "line"@,
        "poly_line"@,
        "poly_vertex"@,
        "polygon"@,
        "pyramid"@,
        "quad"@,
        "quadratic_edge"@,
        "quadratic_hexahedron"@,
        "quadratic_pyramid"@,
        "quadratic_quad"@,
        "quadratic_tetra"@,
        "quadratic_triangle"@,
        "quadratic_wedge"@,
        "tetra"@,
        "triangle"@,
        "triangle_strip"@,
        "vertex"@,
        "wedge"@,
    ]
}

fn kind_name_list() -> (v: Vec<&'static str>)
    ensures
        v@.len() == kind_names().len(),
        forall|i: int| 0 <= i < v@.len() ==> #[trigger] v@[i]@ == kind_names()[i],
{
    let v = vec![
        "hexahedron",
        "line",
        "poly_line",
        "poly_vertex",
        "polygon",
        "pyramid",
        "quad",
        "quadratic_edge",
        "quadratic_hexahedron",
        "quadratic_pyramid",
        "quadratic_quad",
        "quadratic_tetra",
        "quadratic_triangle",
        "quadratic_wedge",
        "tetra",
        "triangle",
        "triangle_strip",
        "vertex",
        "wedge",
    ];
    v
}

/// The kind whose name a cell type is written under: pixels are written as
/// quads and voxels as hexahedra.
pub open spec fn named_as(ct: CellType) -> CellType {
    match ct {
        Pixel => Quad,
        Voxel => Hexahedron,
        _ => ct,
    }
}

/// Each named kind is named by the name at its position.
proof fn lemma_kind_names()
    ensures
        forall|i: int|
            0 <= i < named_kinds().len() ==> cell_type_name(#[trigger] named_kinds()[i])
                == kind_names()[i],
        named_kinds().len() == kind_names().len(),
        forall|ct: CellType| cell_type_name(ct) == cell_type_name(#[trigger] named_as(ct)),
{
    let k = named_kinds();
    let n = kind_names();
    assert(cell_type_name(k[0]) == n[0]);
    assert(cell_type_name(k[1]) == n[1]);
    assert(cell_type_name(k[2]) == n[2]);
    assert(cell_type_name(k[3]) == n[3]);
    assert(cell_type_name(k[4]) == n[4]);
    assert(cell_type_name(k[5]) == n[5]);
    assert(cell_type_name(k[6]) == n[6]);
    assert(cell_type_name(k[7]) == n[7]);
    assert(cell_type_name(k[8]) == n[8]);
    assert(cell_type_name(k[9]) == n[9]);
    assert(cell_type_name(k[10]) == n[10]);
    assert(cell_type_name(k[11]) == n[11]);
    assert(cell_type_name(k[12]) == n[12]);
    assert(cell_type_name(k[13]) == n[13]);
    assert(cell_type_name(k[14]) == n[14]);
    assert(cell_type_name(k[15]) == n[15]);
    assert(cell_type_name(k[16]) == n[16]);
    assert(cell_type_name(k[17]) == n[17]);
    assert(cell_type_name(k[18]) == n[18]);
}

/// The mesh name of a VTK cell type: the name of the kind it is written as,
/// `unknown` for a cell type that has none.
pub fn cell_type_to_string(ct: &CellType) -> (r: &'static str)
    ensures
        r@ == cell_type_name(*ct),
{
    let named = match ct {
        Pixel => Quad,
        Voxel => Hexahedron,
        other => *other,
    };
    let kinds = named_cell_types();
    let names = kind_name_list();
    proof {
        lemma_kind_names();
        assert(cell_type_name(*ct) == cell_type_name(named_as(*ct)));
    }
    let mut i: usize = 0;
    while i < kinds.len()
        invariant
            kinds@ == named_kinds(),
            names@.len() == kind_names().len(),
            forall|j: int| 0 <= j < names@.len() ==> #[trigger] names@[j]@ == kind_names()[j],
            forall|j: int| 0 <= j < named_kinds().len() ==> cell_type_name(#[trigger] named_kinds()[j])
                == kind_names()[j],
            named_kinds().len() == kind_names().len(),
            named == named_as(*ct),
            cell_type_name(*ct) == cell_type_name(named),
            i <= kinds.len(),
            forall|j: int| 0 <= j < i ==> #[trigger] kinds@[j] != named,
        decreases kinds.len() - i,
    {
        if kinds[i] == named {
            let name: &'static str = names[i];
            assert(cell_type_name(named_kinds()[i as int]) == kind_names()[i as int]);
            return name;
        }
        i = i + 1;
    }
    proof {
        lemma_named_kinds_cover(*ct);
    }
    "unknown"
}

/// A cell type that is not among the named kinds, even as the kind it is
/// written as, has no name of its own.
proof fn lemma_named_kinds_cover(ct: CellType)
    ensures
        named_kinds().contains(named_as(ct)) || cell_type_name(ct) == "unknown"@,
{
    let k = named_kinds();
    assert(k[0] == Hexahedron);
    assert(k[1] == Line);
    assert(k[2] == PolyLine);
    assert(k[3] == PolyVertex);
    assert(k[4] == Polygon);
    assert(k[5] == Pyramid);
    assert(k[6] == Quad);
    assert(k[7] == QuadraticEdge);
    assert(k[8] == QuadraticHexahedron);
    assert(k[9] == QuadraticPyramid);
    assert(k[10] == QuadraticQuad);
    assert(k[11] == QuadraticTetra);
    assert(k[12] == QuadraticTriangle);
    assert(k[13] == QuadraticWedge);
    assert(k[14] == Tetra);
    assert(k[15] == Triangle);
    assert(k[16] == TriangleStrip);
    assert(k[17] == Vertex);
    assert(k[18] == Wedge);
}

/// The cell types that a mesh names by their own name, in the order of their
/// names.
pub open spec fn named_kinds() -> Seq<CellType> {
    seq![
        Hexahedron,
        Line,
        PolyLine,
        PolyVertex,
        Polygon,
        Pyramid,
        Quad,
        QuadraticEdge,
        QuadraticHexahedron,
        QuadraticPyramid,
        QuadraticQuad,
        QuadraticTetra,
        QuadraticTriangle,
        QuadraticWedge,
        Tetra,
        Triangle,
        TriangleStrip,
        Vertex,
        Wedge,
    ]
}

fn named_cell_types() -> (v: Vec<CellType>)
    ensures
        v@ == named_kinds(),
{
    let v = vec![
        Hexahedron,
        Line,
        PolyLine,
        PolyVertex,
        Polygon,
        Pyramid,
        Quad,
        QuadraticEdge,
        QuadraticHexahedron,
        QuadraticPyramid,
        QuadraticQuad,
        QuadraticTetra,
        QuadraticTriangle,
        QuadraticWedge,
        Tetra,
        Triangle,
        TriangleStrip,
        Vertex,
        Wedge,
    ];
    assert(v@ =~= named_kinds());
    v
}

/// Every cell type a name maps to is one of the named kinds.
proof fn lemma_parsed_type_named(s: Seq<char>)
    ensures
        cell_type_of_name(s) matches Some(ct) ==> named_kinds().contains(ct),
{
    let k = named_kinds();
    assert(k[0] == Hexahedron);
    assert(k[1] == Line);
    assert(k[2] == PolyLine);
    assert(k[3] == PolyVertex);
    assert(k[4] == Polygon);
    assert(k[5] == Pyramid);
    assert(k[6] == Quad);
    assert(k[7] == QuadraticEdge);
    assert(k[8] == QuadraticHexahedron);
    assert(k[9] == QuadraticPyramid);
    assert(k[10] == QuadraticQuad);
    assert(k[11] == QuadraticTetra);
    assert(k[12] == QuadraticTriangle);
    assert(k[13] == QuadraticWedge);
    assert(k[14] == Tetra);
    assert(k[15] == Triangle);
    assert(k[16] == TriangleStrip);
    assert(k[17] == Vertex);
    assert(k[18] == Wedge);
}

/// The VTK cell type of a mesh cell name, or `None` for a name the library
/// does not write: the named kind whose name it is.
pub fn string_to_cell_type(s: &str) -> (r: Option<CellType>)
    ensures
        r == cell_type_of_name(s@),
{
    let kinds = named_cell_types();
    let mut i: usize = 0;
    while i < kinds.len()
        invariant
            kinds@ == named_kinds(),
            i <= kinds.len(),
            forall|j: int| 0 <= j < i ==> cell_type_name(#[trigger] kinds@[j]) != s@,
        decreases kinds.len() - i,
    {
        let kind = kinds[i];
        if text_eq(cell_type_to_string(&kind), s) {
            proof {
                lemma_parse_of_type_name(kind);
            }
            return Some(kind);
        }
        i = i + 1;
    }
    proof {
        lemma_parsed_type_named(s@);
        lemma_name_of_parsed_type(s@);
        if let Some(ct) = cell_type_of_name(s@) {
            let j = choose|j: int| 0 <= j < kinds.len() && kinds@[j] == ct;
            assert(cell_type_name(kinds@[j]) != s@);
        }
    }
    None
}

/// Whether a cell type is written back under the type it was read as: every
/// named cell type except pixels and voxels, which are read as quads and
/// hexahedra.
pub open spec fn name_round_trips(ct: CellType) -> bool {
    match ct {
        Pixel | Voxel | Other(_) => false,
        _ => true,
    }
}

/// A name that maps to a cell type is that cell type's name.
pub proof fn lemma_name_of_parsed_type(s: Seq<char>)
    ensures
        cell_type_of_name(s) matches Some(ct) ==> cell_type_name(ct) == s,
{
}

/// Naming a cell type and parsing the name gives the cell type back, for every
/// cell type other than pixels, voxels and the unnamed kinds.
#[verifier::spinoff_prover]
pub proof fn lemma_parse_of_type_name(ct: CellType)
    requires
        name_round_trips(ct),
    ensures
        cell_type_of_name(cell_type_name(ct)) == Some(ct),
{
    reveal_strlit("hexahedron");
    reveal_strlit("line");
    reveal_strlit("poly_line");
    reveal_strlit("poly_vertex");
    reveal_strlit("polygon");
    reveal_strlit("pyramid");
    reveal_strlit("quad");
    reveal_strlit("quadratic_edge");
    reveal_strlit("quadratic_hexahedron");
    reveal_strlit("quadratic_pyramid");
    reveal_strlit("quadratic_quad");
    reveal_strlit("quadratic_tetra");
    reveal_strlit("quadratic_triangle");
    reveal_strlit("quadratic_wedge");
    reveal_strlit("tetra");
    reveal_strlit("triangle");
    reveal_strlit("triangle_strip");
    reveal_strlit("unknown");
    reveal_strlit("vertex");
    reveal_strlit("wedge");
    match ct {
        Pixel | Voxel | Other(_) => {},
        Hexahedron => {
        },
        Line => {
            assert("line"@.len() != "hexahedron"@.len());
        },
        PolyLine => {
            assert("poly_line"@.len() != "hexahedron"@.len());
            assert("poly_line"@.len() != "line"@.len());
        },
        PolyVertex => {
            assert("poly_vertex"@.len() != "hexahedron"@.len());
            assert("poly_vertex"@.len() != "line"@.len());
            assert("poly_vertex"@.len() != "poly_line"@.len());
        },
        Polygon => {
            assert("polygon"@.len() != "hexahedron"@.len());
            assert("polygon"@.len() != "line"@.len());
            assert("polygon"@.len() != "poly_line"@.len());
            assert("polygon"@.len() != "poly_vertex"@.len());
        },
        Pyramid => {
            assert("pyramid"@.len() != "hexahedron"@.len());
            assert("pyramid"@.len() != "line"@.len());
            assert("pyramid"@.len() != "poly_line"@.len());
            assert("pyramid"@.len() != "poly_vertex"@.len());
            assert("pyramid"@[1] != "polygon"@[1]);
        },
        Quad => {
            assert("quad"@.len() != "hexahedron"@.len());
            assert("quad"@[0] != "line"@[0]);
            assert("quad"@.len() != "poly_line"@.len());
            assert("quad"@.len() != "poly_vertex"@.len());
            assert("quad"@.len() != "polygon"@.len());
            assert("quad"@.len() != "pyramid"@.len());
        },
        QuadraticEdge => {
            assert("quadratic_edge"@.len() != "hexahedron"@.len());
            assert("quadratic_edge"@.len() != "line"@.len());
            assert("quadratic_edge"@.len() != "poly_line"@.len());
            assert("quadratic_edge"@.len() != "poly_vertex"@.len());
            assert("quadratic_edge"@.len() != "polygon"@.len());
            assert("quadratic_edge"@.len() != "pyramid"@.len());
            assert("quadratic_edge"@.len() != "quad"@.len());
        },
        QuadraticHexahedron => {
            assert("quadratic_hexahedron"@.len() != "hexahedron"@.len());
            assert("quadratic_hexahedron"@.len() != "line"@.len());
            assert("quadratic_hexahedron"@.len() != "poly_line"@.len());
            assert("quadratic_hexahedron"@.len() != "poly_vertex"@.len());
            assert("quadratic_hexahedron"@.len() != "polygon"@.len());
            assert("quadratic_hexahedron"@.len() != "pyramid"@.len());
            assert("quadratic_hexahedron"@.len() != "quad"@.len());
            assert("quadratic_hexahedron"@.len() != "quadratic_edge"@.len());
        },
        QuadraticPyramid => {
            assert("quadratic_pyramid"@.len() != "hexahedron"@.len());
            assert("quadratic_pyramid"@.len() != "line"@.len());
            assert("quadratic_pyramid"@.len() != "poly_line"@.len());
            assert("quadratic_pyramid"@.len() != "poly_vertex"@.len());
            assert("quadratic_pyramid"@.len() != "polygon"@.len());
            assert("quadratic_pyramid"@.len() != "pyramid"@.len());
            assert("quadratic_pyramid"@.len() != "quad"@.len());
            assert("quadratic_pyramid"@.len() != "quadratic_edge"@.len());
            assert("quadratic_pyramid"@.len() != "quadratic_hexahedron"@.len());
        },
        QuadraticQuad => {
            assert("quadratic_quad"@.len() != "hexahedron"@.len());
            assert("quadratic_quad"@.len() != "line"@.len());
            assert("quadratic_quad"@.len() != "poly_line"@.len());
            assert("quadratic_quad"@.len() != "poly_vertex"@.len());
            assert("quadratic_quad"@.len() != "polygon"@.len());
            assert("quadratic_quad"@.len() != "pyramid"@.len());
            assert("quadratic_quad"@.len() != "quad"@.len());
            assert("quadratic_quad"@[10] != "quadratic_edge"@[10]);
            assert("quadratic_quad"@.len() != "quadratic_hexahedron"@.len());
            assert("quadratic_quad"@.len() != "quadratic_pyramid"@.len());
        },
        QuadraticTetra => {
            assert("quadratic_tetra"@.len() != "hexahedron"@.len());
            assert("quadratic_tetra"@.len() != "line"@.len());
            assert("quadratic_tetra"@.len() != "poly_line"@.len());
            assert("quadratic_tetra"@.len() != "poly_vertex"@.len());
            assert("quadratic_tetra"@.len() != "polygon"@.len());
            assert("quadratic_tetra"@.len() != "pyramid"@.len());
            assert("quadratic_tetra"@.len() != "quad"@.len());
            assert("quadratic_tetra"@.len() != "quadratic_edge"@.len());
            assert("quadratic_tetra"@.len() != "quadratic_hexahedron"@.len());
            assert("quadratic_tetra"@.len() != "quadratic_pyramid"@.len());
            assert("quadratic_tetra"@.len() != "quadratic_quad"@.len());
        },
        QuadraticTriangle => {
            assert("quadratic_triangle"@.len() != "hexahedron"@.len());
            assert("quadratic_triangle"@.len() != "line"@.len());
            assert("quadratic_triangle"@.len() != "poly_line"@.len());
            assert("quadratic_triangle"@.len() != "poly_vertex"@.len());
            assert("quadratic_triangle"@.len() != "polygon"@.len());
            assert("quadratic_triangle"@.len() != "pyramid"@.len());
            assert("quadratic_triangle"@.len() != "quad"@.len());
            assert("quadratic_triangle"@.len() != "quadratic_edge"@.len());
            assert("quadratic_triangle"@.len() != "quadratic_hexahedron"@.len());
            assert("quadratic_triangle"@.len() != "quadratic_pyramid"@.len());
            assert("quadratic_triangle"@.len() != "quadratic_quad"@.len());
            assert("quadratic_triangle"@.len() != "quadratic_tetra"@.len());
        },
        QuadraticWedge => {
            assert("quadratic_wedge"@.len() != "hexahedron"@.len());
            assert("quadratic_wedge"@.len() != "line"@.len());
            assert("quadratic_wedge"@.len() != "poly_line"@.len());
            assert("quadratic_wedge"@.len() != "poly_vertex"@.len());
            assert("quadratic_wedge"@.len() != "polygon"@.len());
            assert("quadratic_wedge"@.len() != "pyramid"@.len());
            assert("quadratic_wedge"@.len() != "quad"@.len());
            assert("quadratic_wedge"@.len() != "quadratic_edge"@.len());
            assert("quadratic_wedge"@.len() != "quadratic_hexahedron"@.len());
            assert("quadratic_wedge"@.len() != "quadratic_pyramid"@.len());
            assert("quadratic_wedge"@.len() != "quadratic_quad"@.len());
            assert("quadratic_wedge"@[10] != "quadratic_tetra"@[10]);
            assert("quadratic_wedge"@.len() != "quadratic_triangle"@.len());
        },
        Tetra => {
            assert("tetra"@.len() != "hexahedron"@.len());
            assert("tetra"@.len() != "line"@.len());
            assert("tetra"@.len() != "poly_line"@.len());
            assert("tetra"@.len() != "poly_vertex"@.len());
            assert("tetra"@.len() != "polygon"@.len());
            assert("tetra"@.len() != "pyramid"@.len());
            assert("tetra"@.len() != "quad"@.len());
            assert("tetra"@.len() != "quadratic_edge"@.len());
            assert("tetra"@.len() != "quadratic_hexahedron"@.len());
            assert("tetra"@.len() != "quadratic_pyramid"@.len());
            assert("tetra"@.len() != "quadratic_quad"@.len());
            assert("tetra"@.len() != "quadratic_tetra"@.len());
            assert("tetra"@.len() != "quadratic_triangle"@.len());
            assert("tetra"@.len() != "quadratic_wedge"@.len());
        },
        Triangle => {
            assert("triangle"@.len() != "hexahedron"@.len());
            assert("triangle"@.len() != "line"@.len());
            assert("triangle"@.len() != "poly_line"@.len());
            assert("triangle"@.len() != "poly_vertex"@.len());
            assert("triangle"@.len() != "polygon"@.len());
            assert("triangle"@.len() != "pyramid"@.len());
            assert("triangle"@.len() != "quad"@.len());
            assert("triangle"@.len() != "quadratic_edge"@.len());
            assert("triangle"@.len() != "quadratic_hexahedron"@.len());
            assert("triangle"@.len() != "quadratic_pyramid"@.len());
            assert("triangle"@.len() != "quadratic_quad"@.len());
            assert("triangle"@.len() != "quadratic_tetra"@.len());
            assert("triangle"@.len() != "quadratic_triangle"@.len());
            assert("triangle"@.len() != "quadratic_wedge"@.len());
            assert("triangle"@.len() != "tetra"@.len());
        },
        TriangleStrip => {
            assert("triangle_strip"@.len() != "hexahedron"@.len());
            assert("triangle_strip"@.len() != "line"@.len());
            assert("triangle_strip"@.len() != "poly_line"@.len());
            assert("triangle_strip"@.len() != "poly_vertex"@.len());
            assert("triangle_strip"@.len() != "polygon"@.len());
            assert("triangle_strip"@.len() != "pyramid"@.len());
            assert("triangle_strip"@.len() != "quad"@.len());
            assert("triangle_strip"@[0] != "quadratic_edge"@[0]);
            assert("triangle_strip"@.len() != "quadratic_hexahedron"@.len());
            assert("triangle_strip"@.len() != "quadratic_pyramid"@.len());
            assert("triangle_strip"@[0] != "quadratic_quad"@[0]);
            assert("triangle_strip"@.len() != "quadratic_tetra"@.len());
            assert("triangle_strip"@.len() != "quadratic_triangle"@.len());
            assert("triangle_strip"@.len() != "quadratic_wedge"@.len());
            assert("triangle_strip"@.len() != "tetra"@.len());
            assert("triangle_strip"@.len() != "triangle"@.len());
        },
        Vertex => {
            assert("vertex"@.len() != "hexahedron"@.len());
            assert("vertex"@.len() != "line"@.len());
            assert("vertex"@.len() != "poly_line"@.len());
            assert("vertex"@.len() != "poly_vertex"@.len());
            assert("vertex"@.len() != "polygon"@.len());
            assert("vertex"@.len() != "pyramid"@.len());
            assert("vertex"@.len() != "quad"@.len());
            assert("vertex"@.len() != "quadratic_edge"@.len());
            assert("vertex"@.len() != "quadratic_hexahedron"@.len());
            assert("vertex"@.len() != "quadratic_pyramid"@.len());
            assert("vertex"@.len() != "quadratic_quad"@.len());
            assert("vertex"@.len() != "quadratic_tetra"@.len());
            assert("vertex"@.len() != "quadratic_triangle"@.len());
            assert("vertex"@.len() != "quadratic_wedge"@.len());
            assert("vertex"@.len() != "tetra"@.len());
            assert("vertex"@.len() != "triangle"@.len());
            assert("vertex"@.len() != "triangle_strip"@.len());
        },
        Wedge => {
            assert("wedge"@.len() != "hexahedron"@.len());
            assert("wedge"@.len() != "line"@.len());
            assert("wedge"@.len() != "poly_line"@.len());
            assert("wedge"@.len() != "poly_vertex"@.len());
            assert("wedge"@.len() != "polygon"@.len());
            assert("wedge"@.len() != "pyramid"@.len());
            assert("wedge"@.len() != "quad"@.len());
            assert("wedge"@.len() != "quadratic_edge"@.len());
            assert("wedge"@.len() != "quadratic_hexahedron"@.len());
            assert("wedge"@.len() != "quadratic_pyramid"@.len());
            assert("wedge"@.len() != "quadratic_quad"@.len());
            assert("wedge"@.len() != "quadratic_tetra"@.len());
            assert("wedge"@.len() != "quadratic_triangle"@.len());
            assert("wedge"@.len() != "quadratic_wedge"@.len());
            assert("wedge"@[0] != "tetra"@[0]);
            assert("wedge"@.len() != "triangle"@.len());
            assert("wedge"@.len() != "triangle_strip"@.len());
            assert("wedge"@.len() != "vertex"@.len());
        },
    }
}

} // verus!

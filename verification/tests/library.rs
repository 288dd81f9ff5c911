use panmesh::assoc::lookup;
use panmesh::cell_types::{cell_type_to_string, string_to_cell_type};
use panmesh::mesh::{CellBlock, Mesh};
use panmesh::model::{
    Attribute, Attributes, CellType, Cells, DataArray, DataSet, ElementType, FieldArray, Piece,
    PolyDataPiece, UnstructuredGridPiece, VertexNumbers,
};
use panmesh::read::{
    extract_cell_attributes, extract_field_attributes, extract_point_attributes, read_vtk,
    vtk_readable_check,
};
use panmesh::topology::{
    expand_triangle_strip, pixel_to_quad_reorder, vertex_numbers_to_cells, voxel_to_hex_reorder,
};
use panmesh::write::{
    build_cell_attributes, build_field_attributes, build_point_attributes, write_vtk,
};

fn array(name: &str, num_comp: u32, data: Vec<f64>) -> Attribute<f64> {
    Attribute::DataArray(DataArray {
        name: name.to_string(),
        elem: ElementType::Scalars { num_comp, lookup_table: Some("default".to_string()) },
        data,
    })
}

fn grid_piece(
    num_points: usize,
    cell_verts: VertexNumbers,
    types: Vec<CellType>,
    point: Vec<Attribute<f64>>,
    cell: Vec<Attribute<f64>>,
) -> UnstructuredGridPiece<f64> {
    UnstructuredGridPiece {
        points: vec![0.5; 3 * num_points],
        cells: Cells { cell_verts, types },
        data: Attributes { point, cell },
    }
}

fn legacy(vertices: Vec<u32>) -> VertexNumbers {
    VertexNumbers::Legacy { num_cells: 0, vertices }
}

fn inline_grid(piece: UnstructuredGridPiece<f64>) -> DataSet<f64> {
    DataSet::UnstructuredGrid { pieces: vec![Piece::Inline(piece)] }
}

fn read(data: &DataSet<f64>) -> Result<Mesh<f64>, String> {
    assert!(vtk_readable_check(data));
    read_vtk(data)
}

fn write_then_read(mesh: &Mesh<f64>) -> Mesh<f64> {
    let file = write_vtk(mesh).expect("write failed");
    read(&file.data).expect("read failed")
}

fn names<V>(entries: &Vec<(String, V)>) -> Vec<String> {
    entries.iter().map(|e| e.0.clone()).collect()
}

fn mixed_mesh(field_data: Option<Vec<(String, Vec<f64>)>>) -> Mesh<f64> {
    Mesh::new(
        vec![[0.0, 0.0, 0.0], [1.0, 0.0, 0.0], [1.0, 1.0, 0.0], [0.0, 1.0, 0.0]],
        vec![
            CellBlock::new("triangle".to_string(), vec![vec![0, 1, 2], vec![0, 2, 3]]),
            CellBlock::new("quad".to_string(), vec![vec![0, 1, 2, 3]]),
        ],
        Some(vec![("height".to_string(), vec![1.0, 2.0, 3.0, 4.0])]),
        Some(vec![(
            "flux".to_string(),
            vec![vec![1.0, 2.0, 3.0, 4.0], vec![5.0, 6.0]],
        )]),
        field_data,
    )
}

#[test]
fn test_round_trip_gives_mesh_back() {
    let mesh = mixed_mesh(None);
    let back = write_then_read(&mesh);
    assert_eq!(back.points, mesh.points);
    assert_eq!(back.cells.len(), 2);
    for (a, b) in mesh.cells.iter().zip(back.cells.iter()) {
        assert_eq!(a.cell_type, b.cell_type);
        assert_eq!(a.data, b.data);
    }
    assert_eq!(back.point_data, mesh.point_data);
    assert_eq!(back.cell_data, mesh.cell_data);
    assert!(back.field_data.is_empty());
}

#[test]
fn test_round_trip_field_data_joins_point_data() {
    let mesh = mixed_mesh(Some(vec![("time".to_string(), vec![7.0, 8.0])]));
    let back = write_then_read(&mesh);
    assert_eq!(names(&back.point_data), vec!["height".to_string(), "panmesh_field.time".to_string()]);
    assert_eq!(lookup(&back.point_data, "panmesh_field.time"), Some(&vec![7.0, 8.0]));
    assert_eq!(back.field_data, vec![("time".to_string(), vec![7.0, 8.0])]);
    assert_eq!(back.cell_data, mesh.cell_data);
}

#[test]
fn test_unknown_cell_type_message() {
    let mesh = Mesh::new(
        vec![[0.0, 0.0, 0.0]],
        vec![
            CellBlock::new("vertex".to_string(), vec![vec![0]]),
            CellBlock::new("blob".to_string(), vec![vec![0]]),
            CellBlock::new("goo".to_string(), vec![vec![0]]),
        ],
        None,
        None,
        None,
    );
    match write_vtk(&mesh) {
        Err(e) => assert_eq!(e, "Unknown cell type: blob"),
        Ok(_) => panic!("expected an error"),
    }
}

#[test]
fn test_write_layout() {
    let mesh = mixed_mesh(Some(vec![("time".to_string(), vec![7.0])]));
    let file = write_vtk(&mesh).expect("write failed");
    assert_eq!((file.version_major, file.version_minor), (4, 2));
    assert_eq!(file.title, "panmesh");
    let pieces = match &file.data {
        DataSet::UnstructuredGrid { pieces } => pieces,
        _ => panic!("expected an unstructured grid"),
    };
    assert_eq!(pieces.len(), 1);
    let piece = match &pieces[0] {
        Piece::Inline(p) => p,
        _ => panic!("expected an inline piece"),
    };
    assert_eq!(piece.points, vec![0.0, 0.0, 0.0, 1.0, 0.0, 0.0, 1.0, 1.0, 0.0, 0.0, 1.0, 0.0]);
    match &piece.cells.cell_verts {
        VertexNumbers::Legacy { num_cells, vertices } => {
            assert_eq!(*num_cells, 3);
            assert_eq!(vertices, &vec![3, 0, 1, 2, 3, 0, 2, 3, 4, 0, 1, 2, 3]);
        }
        _ => panic!("expected legacy vertex numbers"),
    }
    assert_eq!(piece.cells.types.len(), 3);
    assert!(matches!(piece.cells.types[0], CellType::Triangle));
    assert!(matches!(piece.cells.types[1], CellType::Triangle));
    assert!(matches!(piece.cells.types[2], CellType::Quad));
    assert_eq!(piece.data.point.len(), 2);
    match &piece.data.point[0] {
        Attribute::DataArray(da) => {
            assert_eq!(da.name, "height");
            assert_eq!(da.elem.num_comp(), 1);
            assert!(matches!(
                &da.elem,
                ElementType::Scalars { lookup_table: Some(t), .. } if t == "default"
            ));
        }
        _ => panic!("expected a data array"),
    }
    match &piece.data.point[1] {
        Attribute::Field { name, data_array } => {
            assert_eq!(name, "panmesh_field");
            assert_eq!(data_array.len(), 1);
            assert_eq!(data_array[0].name, "time");
            assert_eq!(data_array[0].elem, 1);
            assert_eq!(data_array[0].data, vec![7.0]);
        }
        _ => panic!("expected a field"),
    }
    match &piece.data.cell[0] {
        Attribute::DataArray(da) => {
            assert_eq!(da.name, "flux");
            assert_eq!(da.elem.num_comp(), 2);
            assert_eq!(da.data, vec![1.0, 2.0, 3.0, 4.0, 5.0, 6.0]);
        }
        _ => panic!("expected a data array"),
    }
}

#[test]
fn test_write_components_per_element() {
    let mesh = Mesh::new(
        vec![[0.0, 0.0, 0.0], [1.0, 0.0, 0.0]],
        vec![],
        Some(vec![
            ("vec".to_string(), vec![1.0, 2.0, 3.0, 4.0, 5.0, 6.0]),
            ("short".to_string(), vec![1.0]),
        ]),
        None,
        None,
    );
    let file = write_vtk(&mesh).expect("write failed");
    let piece = match &file.data {
        DataSet::UnstructuredGrid { pieces } => match &pieces[0] {
            Piece::Inline(p) => p,
            _ => panic!("expected an inline piece"),
        },
        _ => panic!("expected an unstructured grid"),
    };
    let comps: Vec<u32> = piece
        .data
        .point
        .iter()
        .map(|a| match a {
            Attribute::DataArray(da) => da.elem.num_comp(),
            _ => 0,
        })
        .collect();
    assert_eq!(comps, vec![3, 1]);

    let no_points = Mesh::new(vec![], vec![], Some(vec![("x".to_string(), vec![1.0, 2.0])]), None, None);
    let file = write_vtk(&no_points).expect("write failed");
    match &file.data {
        DataSet::UnstructuredGrid { pieces } => match &pieces[0] {
            Piece::Inline(p) => match &p.data.point[0] {
                Attribute::DataArray(da) => assert_eq!(da.elem.num_comp(), 1),
                _ => panic!("expected a data array"),
            },
            _ => panic!("expected an inline piece"),
        },
        _ => panic!("expected an unstructured grid"),
    }
}

#[test]
fn test_cell_type_names_round_trip() {
    let kinds = vec![
        CellType::Vertex,
        CellType::PolyVertex,
        CellType::Line,
        CellType::PolyLine,
        CellType::Triangle,
        CellType::TriangleStrip,
        CellType::Polygon,
        CellType::Quad,
        CellType::Tetra,
        CellType::Hexahedron,
        CellType::Wedge,
        CellType::Pyramid,
        CellType::QuadraticEdge,
        CellType::QuadraticTriangle,
        CellType::QuadraticQuad,
        CellType::QuadraticTetra,
        CellType::QuadraticHexahedron,
        CellType::QuadraticWedge,
        CellType::QuadraticPyramid,
    ];
    for ct in kinds {
        let name = cell_type_to_string(&ct);
        let back = string_to_cell_type(name).expect("name not parsed");
        assert_eq!(cell_type_to_string(&back), name);
        assert_eq!(format!("{:?}", back), format!("{:?}", ct));
    }
    assert_eq!(cell_type_to_string(&CellType::Voxel), "hexahedron");
    assert_eq!(cell_type_to_string(&CellType::Pixel), "quad");
    assert_eq!(cell_type_to_string(&CellType::Other(42)), "unknown");
    assert!(string_to_cell_type("unknown").is_none());
    assert!(string_to_cell_type("Tetra").is_none());
    assert!(matches!(string_to_cell_type("tetra"), Some(CellType::Tetra)));
}

#[test]
fn test_reorder_voxel_and_pixel() {
    let voxel = vec![10, 11, 12, 13, 14, 15, 16, 17];
    let hex = voxel_to_hex_reorder(&voxel);
    assert_eq!(hex, vec![10, 11, 13, 12, 14, 15, 17, 16]);
    assert_eq!(voxel_to_hex_reorder(&hex), voxel);
    assert_eq!(voxel_to_hex_reorder(&[1, 2, 3]), vec![1, 2, 3]);

    let pixel = vec![5, 6, 7, 8];
    let quad = pixel_to_quad_reorder(&pixel);
    assert_eq!(quad, vec![5, 6, 8, 7]);
    assert_eq!(pixel_to_quad_reorder(&quad), pixel);
    assert_eq!(pixel_to_quad_reorder(&[1, 2, 3, 4, 5]), vec![1, 2, 3, 4, 5]);
}

#[test]
fn test_expand_triangle_strip() {
    assert_eq!(
        expand_triangle_strip(&[0, 1, 2, 3, 4]),
        vec![vec![0, 1, 2], vec![2, 1, 3], vec![2, 3, 4]]
    );
    assert_eq!(expand_triangle_strip(&[7, 8, 9]), vec![vec![7, 8, 9]]);
    assert!(expand_triangle_strip(&[0, 1]).is_empty());
    assert!(expand_triangle_strip(&[]).is_empty());
}

#[test]
fn test_vertex_numbers_to_cells() {
    assert_eq!(
        vertex_numbers_to_cells(&legacy(vec![2, 5, 6, 0, 3, 1, 2, 3])),
        vec![vec![5, 6], vec![], vec![1, 2, 3]]
    );
    let xml = VertexNumbers::Xml { connectivity: vec![0, 1, 2, 2, 3, 0], offsets: vec![3, 3, 6] };
    assert_eq!(vertex_numbers_to_cells(&xml), vec![vec![0, 1, 2], vec![], vec![2, 3, 0]]);
}

#[test]
fn test_cell_count_mismatch() {
    let data = inline_grid(grid_piece(
        3,
        legacy(vec![3, 0, 1, 2]),
        vec![CellType::Triangle, CellType::Triangle],
        vec![],
        vec![],
    ));
    match read(&data) {
        Err(e) => assert_eq!(e, "Cell count mismatch: 1 cells vs 2 cell types"),
        Ok(_) => panic!("expected an error"),
    }
}

#[test]
fn test_data_sets_without_pieces() {
    let grid: DataSet<f64> = DataSet::UnstructuredGrid { pieces: vec![] };
    assert_eq!(read(&grid).err(), Some("No pieces in UnstructuredGrid".to_string()));
    let poly: DataSet<f64> = DataSet::PolyData { pieces: vec![] };
    assert_eq!(read(&poly).err(), Some("No pieces in PolyData".to_string()));
}

#[test]
fn test_pieces_not_inline() {
    let source: DataSet<f64> =
        DataSet::UnstructuredGrid { pieces: vec![Piece::Source("part0.vtu".to_string())] };
    assert_eq!(
        read(&source).err(),
        Some("Referenced piece not loaded. Use load_all_pieces() first.".to_string())
    );
    let failed: DataSet<f64> =
        DataSet::PolyData { pieces: vec![Piece::Loaded(Err("bad piece".to_string()))] };
    assert_eq!(read(&failed).err(), Some("Failed to convert loaded piece: bad piece".to_string()));
    let loaded = DataSet::UnstructuredGrid {
        pieces: vec![Piece::Loaded(Ok(grid_piece(
            3,
            legacy(vec![3, 0, 1, 2]),
            vec![CellType::Triangle],
            vec![],
            vec![],
        )))],
    };
    let mesh = read(&loaded).expect("read failed");
    assert_eq!(mesh.cells.len(), 1);
    assert_eq!(mesh.cells[0].cell_type, "triangle");
}

#[test]
fn test_unsupported_data_set() {
    let other: DataSet<f64> = DataSet::Other { description: "ImageData".to_string() };
    assert_eq!(read(&other).err(), Some("Unsupported dataset type: ImageData".to_string()));
}

#[test]
fn test_read_xml_topology() {
    let data = inline_grid(grid_piece(
        4,
        VertexNumbers::Xml { connectivity: vec![0, 1, 2, 0, 2, 3], offsets: vec![3, 6] },
        vec![CellType::Triangle, CellType::Triangle],
        vec![],
        vec![],
    ));
    let mesh = read(&data).expect("read failed");
    assert_eq!(mesh.points.len(), 4);
    assert_eq!(mesh.cells.len(), 1);
    assert_eq!(mesh.cells[0].data, vec![vec![0, 1, 2], vec![0, 2, 3]]);
}

#[test]
fn test_read_voxel_and_pixel() {
    let data = inline_grid(grid_piece(
        8,
        legacy(vec![8, 0, 1, 2, 3, 4, 5, 6, 7, 4, 0, 1, 2, 3, 8, 7, 6, 5, 4, 3, 2, 1, 0]),
        vec![CellType::Voxel, CellType::Pixel, CellType::Hexahedron],
        vec![],
        vec![],
    ));
    let mesh = read(&data).expect("read failed");
    assert_eq!(mesh.cells.len(), 2);
    assert_eq!(mesh.cells[0].cell_type, "hexahedron");
    assert_eq!(
        mesh.cells[0].data,
        vec![vec![0, 1, 3, 2, 4, 5, 7, 6], vec![7, 6, 5, 4, 3, 2, 1, 0]]
    );
    assert_eq!(mesh.cells[1].cell_type, "quad");
    assert_eq!(mesh.cells[1].data, vec![vec![0, 1, 3, 2]]);
}

#[test]
fn test_read_polydata_kinds() {
    let piece = PolyDataPiece {
        points: vec![0.0; 15],
        verts: Some(legacy(vec![1, 0])),
        lines: Some(legacy(vec![2, 0, 1])),
        polys: Some(legacy(vec![3, 0, 1, 2, 4, 0, 1, 2, 3, 5, 0, 1, 2, 3, 4])),
        strips: Some(legacy(vec![4, 0, 1, 2, 3])),
        data: Attributes {
            point: vec![],
            cell: vec![array("id", 1, vec![1.0, 2.0, 3.0, 4.0, 5.0, 6.0, 7.0])],
        },
    };
    let data = DataSet::PolyData { pieces: vec![Piece::Inline(piece)] };
    let mesh = read(&data).expect("read failed");
    let kinds: Vec<String> = mesh.cells.iter().map(|b| b.cell_type.clone()).collect();
    assert_eq!(kinds, vec!["vertex", "line", "triangle", "quad", "polygon"]);
    assert_eq!(mesh.cells[0].data, vec![vec![0]]);
    assert_eq!(mesh.cells[1].data, vec![vec![0, 1]]);
    assert_eq!(mesh.cells[2].data, vec![vec![0, 1, 2], vec![0, 1, 2], vec![2, 1, 3]]);
    assert_eq!(mesh.cells[3].data, vec![vec![0, 1, 2, 3]]);
    assert_eq!(mesh.cells[4].data, vec![vec![0, 1, 2, 3, 4]]);
    let ids = lookup(&mesh.cell_data, "id").expect("missing id");
    assert_eq!(ids, &vec![vec![1.0], vec![2.0], vec![3.0, 6.0, 7.0], vec![4.0], vec![5.0]]);
}

#[test]
fn test_read_field_data() {
    let field = |name: &str, arrays: Vec<(&str, Vec<f64>)>| Attribute::Field {
        name: name.to_string(),
        data_array: arrays
            .into_iter()
            .map(|(n, d)| FieldArray { name: n.to_string(), elem: 1, data: d })
            .collect(),
    };
    let data = inline_grid(grid_piece(
        1,
        legacy(vec![1, 0]),
        vec![CellType::Vertex],
        vec![array("p", 1, vec![1.0]), field("fd", vec![("a", vec![2.0]), ("b", vec![3.0])])],
        vec![field("cf", vec![("a", vec![4.0])]), array("c", 1, vec![5.0])],
    ));
    let mesh = read(&data).expect("read failed");
    assert_eq!(
        mesh.point_data,
        vec![
            ("p".to_string(), vec![1.0]),
            ("fd.a".to_string(), vec![2.0]),
            ("fd.b".to_string(), vec![3.0]),
        ]
    );
    assert_eq!(mesh.field_data, vec![("a".to_string(), vec![4.0]), ("b".to_string(), vec![3.0])]);
    assert_eq!(mesh.cell_data, vec![("c".to_string(), vec![vec![5.0]])]);
}

#[test]
fn test_later_value_replaces_earlier() {
    let data = inline_grid(grid_piece(
        1,
        legacy(vec![]),
        vec![],
        vec![array("p", 1, vec![1.0]), array("q", 1, vec![0.0]), array("p", 1, vec![2.0])],
        vec![],
    ));
    let mesh = read(&data).expect("read failed");
    assert_eq!(
        mesh.point_data,
        vec![("p".to_string(), vec![2.0]), ("q".to_string(), vec![0.0])]
    );
}

#[test]
fn test_cell_data_components() {
    let data = inline_grid(grid_piece(
        4,
        legacy(vec![3, 0, 1, 2, 4, 0, 1, 2, 3, 3, 1, 2, 3]),
        vec![CellType::Triangle, CellType::Tetra, CellType::Triangle],
        vec![],
        vec![array("v", 2, vec![1.0, 2.0, 3.0, 4.0, 5.0, 6.0]), array("s", 1, vec![9.0])],
    ));
    let mesh = read(&data).expect("read failed");
    let v = lookup(&mesh.cell_data, "v").expect("missing v");
    assert_eq!(v, &vec![vec![1.0, 2.0, 5.0, 6.0], vec![3.0, 4.0]]);
    let s = lookup(&mesh.cell_data, "s").expect("missing s");
    assert_eq!(s, &vec![vec![9.0], vec![]]);
}

#[test]
fn test_readable_check() {
    let broken = inline_grid(grid_piece(3, legacy(vec![4, 0, 1]), vec![CellType::Tetra], vec![], vec![]));
    assert!(!vtk_readable_check(&broken));
    let mut ragged = grid_piece(3, legacy(vec![3, 0, 1, 2]), vec![CellType::Triangle], vec![], vec![]);
    ragged.points.push(1.0);
    assert!(!vtk_readable_check(&inline_grid(ragged)));
    let bad_offsets = inline_grid(grid_piece(
        3,
        VertexNumbers::Xml { connectivity: vec![0, 1, 2], offsets: vec![3, 2] },
        vec![CellType::Triangle, CellType::Triangle],
        vec![],
        vec![],
    ));
    assert!(!vtk_readable_check(&bad_offsets));
    let other: DataSet<f64> = DataSet::Other { description: String::new() };
    assert!(vtk_readable_check(&other));
}

#[test]
fn test_repr() {
    let mesh = Mesh::new(
        vec![[0.0, 0.0, 0.0]; 12],
        vec![CellBlock::new("tetra".to_string(), vec![vec![0, 1, 2, 3]; 10])],
        None,
        None,
        None,
    );
    assert_eq!(mesh.__repr__(), "Mesh(points=12, cells=1)");
    assert_eq!(mesh.cells[0].__repr__(), "CellBlock(type=tetra, n_cells=10)");
}

#[test]
fn test_mesh_new_defaults() {
    let mesh: Mesh<f64> = Mesh::new(vec![], vec![], None, None, None);
    assert!(mesh.point_data.is_empty());
    assert!(mesh.cell_data.is_empty());
    assert!(mesh.field_data.is_empty());
    let given = Mesh::new(vec![], vec![], None, None, Some(vec![("f".to_string(), vec![1.0])]));
    assert_eq!(given.field_data, vec![("f".to_string(), vec![1.0])]);
}

#[test]
fn test_lookup_and_components() {
    let entries = vec![("a".to_string(), 1), ("b".to_string(), 2)];
    assert_eq!(lookup(&entries, "b"), Some(&2));
    assert_eq!(lookup(&entries, "c"), None);
    assert_eq!(ElementType::Vectors.num_comp(), 3);
    assert_eq!(ElementType::Normals.num_comp(), 3);
    assert_eq!(ElementType::Tensors.num_comp(), 9);
    assert_eq!(ElementType::LookupTable.num_comp(), 4);
    assert_eq!(ElementType::ColorScalars(5).num_comp(), 5);
    assert_eq!(ElementType::TCoords(2).num_comp(), 2);
    assert_eq!(ElementType::Generic(7).num_comp(), 7);
}

#[test]
fn test_written_data_is_readable() {
    let mesh = Mesh::new(
        vec![[0.0, 0.0, 0.0]; 4],
        vec![
            CellBlock::new("triangle".to_string(), vec![vec![0, 1, 2]]),
            CellBlock::new("line".to_string(), vec![]),
            CellBlock::new("triangle".to_string(), vec![vec![1, 2, 3]]),
        ],
        None,
        None,
        None,
    );
    let file = write_vtk(&mesh).expect("write failed");
    assert!(vtk_readable_check(&file.data));
    let back = read_vtk(&file.data).expect("read failed");
    assert_eq!(back.cells.len(), 1);
    assert_eq!(back.cells[0].cell_type, "triangle");
    assert_eq!(back.cells[0].data, vec![vec![0, 1, 2], vec![1, 2, 3]]);
}

#[test]
fn test_builders_round_trip() {
    let cell_data = vec![
        ("flux".to_string(), vec![vec![1.0, 2.0, 3.0, 4.0], vec![], vec![5.0, 6.0]]),
        ("id".to_string(), vec![vec![1.0, 2.0], vec![], vec![3.0]]),
    ];
    let blocks = vec![vec![0, 1], vec![], vec![2]];
    let attrs = build_cell_attributes(&cell_data, 3);
    assert_eq!(extract_cell_attributes(&attrs, &blocks), cell_data);

    let point_data = vec![("a".to_string(), vec![1.0, 2.0]), ("b".to_string(), vec![3.0])];
    let attrs = build_point_attributes(&point_data, 2);
    assert_eq!(extract_point_attributes(&attrs), point_data);

    let field_data = vec![("t".to_string(), vec![7.0]), ("u".to_string(), vec![8.0, 9.0])];
    let fields = build_field_attributes(&field_data);
    assert_eq!(
        extract_point_attributes(&fields),
        vec![
            ("panmesh_field.t".to_string(), vec![7.0]),
            ("panmesh_field.u".to_string(), vec![8.0, 9.0]),
        ]
    );
    assert_eq!(extract_field_attributes(&fields, &vec![]), field_data);
    assert_eq!(extract_field_attributes(&vec![], &fields), field_data);
}

#[test]
fn test_read_mesh_is_well_formed() {
    let data = inline_grid(grid_piece(
        1,
        legacy(vec![1, 0]),
        vec![CellType::Vertex],
        vec![array("p", 1, vec![1.0]), array("p", 1, vec![2.0])],
        vec![array("c", 1, vec![1.0]), array("c", 1, vec![3.0])],
    ));
    let mesh = read(&data).expect("read failed");
    assert_eq!(names(&mesh.point_data), vec!["p".to_string()]);
    assert_eq!(mesh.cell_data, vec![("c".to_string(), vec![vec![3.0]])]);
}

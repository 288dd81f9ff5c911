use panmesh::assoc::lookup;
use panmesh::mesh::{CellBlock, Mesh};
use panmesh::model::{
    Attribute, Attributes, CellType, Cells, DataArray, DataSet, ElementType, FieldArray, Piece,
    PolyDataPiece, UnstructuredGridPiece, VertexNumbers,
};
use panmesh::read::{read_vtk, vtk_readable_check};
use panmesh::write::write_vtk;

fn scalars(name: &str, data: Vec<f64>) -> Attribute<f64> {
    Attribute::DataArray(DataArray {
        name: name.to_string(),
        elem: ElementType::Scalars { num_comp: 1, lookup_table: Some("default".to_string()) },
        data,
    })
}

fn grid(
    points: Vec<f64>,
    vertices: Vec<u32>,
    types: Vec<CellType>,
    point: Vec<Attribute<f64>>,
    cell: Vec<Attribute<f64>>,
) -> DataSet<f64> {
    let num_cells = types.len() as u32;
    DataSet::UnstructuredGrid {
        pieces: vec![Piece::Inline(UnstructuredGridPiece {
            points,
            cells: Cells { cell_verts: VertexNumbers::Legacy { num_cells, vertices }, types },
            data: Attributes { point, cell },
        })],
    }
}

/// The tetrahedron mesh: four points, one tetrahedron, pressure per point and a
/// material id per cell.
fn tet_vtk() -> DataSet<f64> {
    grid(
        vec![0.0, 0.0, 0.0, 1.0, 0.0, 0.0, 0.0, 1.0, 0.0, 0.0, 0.0, 1.0],
        vec![4, 0, 1, 2, 3],
        vec![CellType::Tetra],
        vec![scalars("pressure", vec![1.0, 2.0, 3.0, 4.0])],
        vec![scalars("material_id", vec![42.0])],
    )
}

/// The mixed mesh: six points, two triangles and a tetrahedron.
fn mixed_vtk() -> DataSet<f64> {
    grid(
        vec![
            0.0, 0.0, 0.0, 1.0, 0.0, 0.0, 1.0, 1.0, 0.0, 0.0, 1.0, 0.0, 0.0, 0.0, 1.0, 1.0, 0.0,
            1.0,
        ],
        vec![3, 0, 1, 2, 3, 0, 2, 3, 4, 0, 1, 4, 5],
        vec![CellType::Triangle, CellType::Triangle, CellType::Tetra],
        vec![scalars("temperature", vec![10.0, 20.0, 30.0, 40.0, 50.0, 60.0])],
        vec![scalars("region", vec![1.0, 2.0, 3.0])],
    )
}

/// A piece of poly data with one triangle.
fn tri_polydata_vtk() -> DataSet<f64> {
    DataSet::PolyData {
        pieces: vec![Piece::Inline(PolyDataPiece {
            points: vec![0.0, 0.0, 0.0, 1.0, 0.0, 0.0, 0.0, 1.0, 0.0],
            verts: None,
            lines: None,
            polys: Some(VertexNumbers::Legacy { num_cells: 1, vertices: vec![3, 0, 1, 2] }),
            strips: None,
            data: Attributes { point: vec![scalars("scalar_data", vec![1.0, 2.0, 3.0])], cell: vec![] },
        })],
    }
}

fn read(data: &DataSet<f64>) -> Result<Mesh<f64>, String> {
    assert!(vtk_readable_check(data));
    read_vtk(data)
}

fn write_then_read(mesh: &Mesh<f64>) -> Result<Mesh<f64>, String> {
    let file = write_vtk(mesh)?;
    read(&file.data)
}

fn empty_mesh(points: Vec<[f64; 3]>, cells: Vec<CellBlock>) -> Mesh<f64> {
    Mesh::new(points, cells, None, None, None)
}

#[test]
fn test_read_tet_unstructured_grid() {
    let mesh = read(&tet_vtk()).expect("Failed to read tet VTK");

    assert_eq!(mesh.points.len(), 4);
    assert_eq!(mesh.points[0], [0.0, 0.0, 0.0]);
    assert_eq!(mesh.points[1], [1.0, 0.0, 0.0]);
    assert_eq!(mesh.points[2], [0.0, 1.0, 0.0]);
    assert_eq!(mesh.points[3], [0.0, 0.0, 1.0]);

    assert_eq!(mesh.cells.len(), 1);
    assert_eq!(mesh.cells[0].cell_type, "tetra");
    assert_eq!(mesh.cells[0].data.len(), 1);
    assert_eq!(mesh.cells[0].data[0], vec![0, 1, 2, 3]);

    let pressure = lookup(&mesh.point_data, "pressure").expect("Missing pressure");
    assert_eq!(pressure.len(), 4);
    assert!((pressure[0] - 1.0).abs() < 1e-10);
    assert!((pressure[1] - 2.0).abs() < 1e-10);
    assert!((pressure[2] - 3.0).abs() < 1e-10);
    assert!((pressure[3] - 4.0).abs() < 1e-10);

    let material = lookup(&mesh.cell_data, "material_id").expect("Missing material_id");
    assert_eq!(material.len(), 1);
    assert_eq!(material[0].len(), 1);
    assert!((material[0][0] - 42.0).abs() < 1e-10);
}

#[test]
fn test_read_mixed_unstructured_grid() {
    let mesh = read(&mixed_vtk()).expect("Failed to read mixed VTK");

    assert_eq!(mesh.points.len(), 6);

    assert_eq!(mesh.cells.len(), 2);
    assert_eq!(mesh.cells[0].cell_type, "triangle");
    assert_eq!(mesh.cells[0].data.len(), 2);
    assert_eq!(mesh.cells[0].data[0], vec![0, 1, 2]);
    assert_eq!(mesh.cells[0].data[1], vec![0, 2, 3]);

    assert_eq!(mesh.cells[1].cell_type, "tetra");
    assert_eq!(mesh.cells[1].data.len(), 1);
    assert_eq!(mesh.cells[1].data[0], vec![0, 1, 4, 5]);

    let temp = lookup(&mesh.point_data, "temperature").expect("Missing temperature");
    assert_eq!(temp.len(), 6);

    let region = lookup(&mesh.cell_data, "region").expect("Missing region");
    assert_eq!(region.len(), 2);
    assert_eq!(region[0].len(), 2);
    assert!((region[0][0] - 1.0).abs() < 1e-10);
    assert!((region[0][1] - 2.0).abs() < 1e-10);
    assert_eq!(region[1].len(), 1);
    assert!((region[1][0] - 3.0).abs() < 1e-10);
}

#[test]
fn test_read_polydata_triangle() {
    let mesh = read(&tri_polydata_vtk()).expect("Failed to read polydata VTK");

    assert_eq!(mesh.points.len(), 3);
    assert_eq!(mesh.points[0], [0.0, 0.0, 0.0]);
    assert_eq!(mesh.points[1], [1.0, 0.0, 0.0]);
    assert_eq!(mesh.points[2], [0.0, 1.0, 0.0]);

    assert_eq!(mesh.cells.len(), 1);
    assert_eq!(mesh.cells[0].cell_type, "triangle");
    assert_eq!(mesh.cells[0].data.len(), 1);
    assert_eq!(mesh.cells[0].data[0], vec![0, 1, 2]);

    let scalar = lookup(&mesh.point_data, "scalar_data").expect("Missing scalar_data");
    assert_eq!(scalar.len(), 3);
    assert!((scalar[0] - 1.0).abs() < 1e-10);
    assert!((scalar[1] - 2.0).abs() < 1e-10);
    assert!((scalar[2] - 3.0).abs() < 1e-10);
}

#[test]
fn test_write_tet_round_trip() {
    let mesh = read(&tet_vtk()).expect("Failed to read source");
    let mesh2 = write_then_read(&mesh).expect("Failed to read back");

    assert_eq!(mesh2.points.len(), mesh.points.len());
    for (a, b) in mesh.points.iter().zip(mesh2.points.iter()) {
        assert!((a[0] - b[0]).abs() < 1e-10);
        assert!((a[1] - b[1]).abs() < 1e-10);
        assert!((a[2] - b[2]).abs() < 1e-10);
    }

    assert_eq!(mesh2.cells.len(), 1);
    assert_eq!(mesh2.cells[0].cell_type, "tetra");
    assert_eq!(mesh2.cells[0].data.len(), 1);
    assert_eq!(mesh2.cells[0].data[0], vec![0, 1, 2, 3]);

    let pressure = lookup(&mesh2.point_data, "pressure").expect("Missing pressure");
    assert_eq!(pressure.len(), 4);
    assert!((pressure[0] - 1.0).abs() < 1e-10);
    assert!((pressure[3] - 4.0).abs() < 1e-10);

    let material = lookup(&mesh2.cell_data, "material_id").expect("Missing material_id");
    assert_eq!(material.len(), 1);
    assert_eq!(material[0].len(), 1);
    assert!((material[0][0] - 42.0).abs() < 1e-10);
}

#[test]
fn test_write_mixed_round_trip() {
    let mesh = read(&mixed_vtk()).expect("Failed to read source");
    let mesh2 = write_then_read(&mesh).expect("Failed to read back");

    assert_eq!(mesh2.points.len(), mesh.points.len());

    assert_eq!(mesh2.cells.len(), 2);
    assert_eq!(mesh2.cells[0].cell_type, "triangle");
    assert_eq!(mesh2.cells[0].data.len(), 2);
    assert_eq!(mesh2.cells[0].data[0], vec![0, 1, 2]);
    assert_eq!(mesh2.cells[0].data[1], vec![0, 2, 3]);

    assert_eq!(mesh2.cells[1].cell_type, "tetra");
    assert_eq!(mesh2.cells[1].data.len(), 1);
    assert_eq!(mesh2.cells[1].data[0], vec![0, 1, 4, 5]);

    let temp = lookup(&mesh2.point_data, "temperature").expect("Missing temperature");
    assert_eq!(temp.len(), 6);
    assert!((temp[0] - 10.0).abs() < 1e-10);
    assert!((temp[5] - 60.0).abs() < 1e-10);

    let region = lookup(&mesh2.cell_data, "region").expect("Missing region");
    assert_eq!(region.len(), 2);
    assert_eq!(region[0].len(), 2);
    assert!((region[0][0] - 1.0).abs() < 1e-10);
    assert!((region[0][1] - 2.0).abs() < 1e-10);
    assert_eq!(region[1].len(), 1);
    assert!((region[1][0] - 3.0).abs() < 1e-10);
}

#[test]
fn test_write_from_scratch() {
    let mesh = Mesh::new(
        vec![[0.0, 0.0, 0.0], [1.0, 0.0, 0.0], [0.0, 1.0, 0.0], [0.0, 0.0, 1.0]],
        vec![CellBlock::new("tetra".to_string(), vec![vec![0, 1, 2, 3]])],
        Some(vec![("pressure".to_string(), vec![1.0, 2.0, 3.0, 4.0])]),
        Some(vec![("material_id".to_string(), vec![vec![42.0]])]),
        None,
    );

    let mesh2 = write_then_read(&mesh).expect("Failed to read back");

    assert_eq!(mesh2.points.len(), 4);
    assert_eq!(mesh2.cells.len(), 1);
    assert_eq!(mesh2.cells[0].cell_type, "tetra");
    assert_eq!(mesh2.cells[0].data[0], vec![0, 1, 2, 3]);

    let pressure = lookup(&mesh2.point_data, "pressure").expect("Missing pressure");
    assert_eq!(pressure.len(), 4);
    assert!((pressure[0] - 1.0).abs() < 1e-10);

    let material = lookup(&mesh2.cell_data, "material_id").expect("Missing material_id");
    assert_eq!(material.len(), 1);
    assert!((material[0][0] - 42.0).abs() < 1e-10);
}

#[test]
fn test_write_unknown_cell_type() {
    let mesh = empty_mesh(
        vec![[0.0, 0.0, 0.0]],
        vec![CellBlock::new("nonexistent".to_string(), vec![vec![0]])],
    );
    let result = write_vtk(&mesh);
    assert!(result.is_err());
}

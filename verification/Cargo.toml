[package]
name = "panmesh"
version = "0.1.0"
edition = "2021"
publish = false

[dependencies]
vtkio = "0.6"
pyo3 = "0.22"

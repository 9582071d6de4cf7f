//! The scene core of a path tracer.

pub mod bits;
pub mod buffers;
pub mod building;
pub mod caching;
pub mod changeset;
pub mod codec;
pub mod coverage;
pub mod curves;
pub mod dds;
pub mod defaults;
pub mod demo;
pub mod description;
pub mod equality;
pub mod error;
pub mod formula;
pub mod geometry;
pub mod hair;
pub mod host;
pub mod images;
pub mod laws;
pub mod layouts;
pub mod lower;
pub mod lowering;
pub mod many_lights;
pub mod material;
pub mod measuring;
pub mod media;
pub mod mesh;
pub mod moving;
pub mod numbers;
pub mod orders;
pub mod outcomes;
pub mod patches;
pub mod path;
pub mod pictures;
pub mod prep;
pub mod replay;
pub mod residence;
pub mod rounds;
pub mod rules;
pub mod runs;
pub mod scene;
pub mod scenes;
pub mod shaders;
pub mod shading;
pub mod shapes;
pub mod spheres;
pub mod standing;
pub mod stats;
pub mod surface;
pub mod table;
pub mod tables;
pub mod tabling;
pub mod telling;
pub mod texels;
pub mod text;
pub mod texture;
pub mod validate;
pub mod value;
pub mod verdicts;

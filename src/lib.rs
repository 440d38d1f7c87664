//! Text extraction from PowerPoint (PPTX) packages: a tolerant scanner for the
//! slide XML dialect, slide ordering and assembly, and the sequence of policy
//! and file-system checks that every request passes before its file is read.
pub mod text;
pub mod scanner;
pub mod slides;
pub mod archive;
pub mod access;

//! Classifies the symbols of a statically linked binary by source language and
//! sums up their memory usage per language and memory region.

pub mod atlas;
pub mod detect;
pub mod error;
pub mod line;
pub mod report;
pub mod sym;
pub mod table;
pub mod text;

pub use atlas::Atlas;
pub use detect::{LangDetector, Library, Listing, ParsedLibrary};
pub use error::{Error, ErrorKind};
pub use report::{LangReport, SymbolReport, SymbolReportIter, TotalMem};
pub use table::{ColumnWidths, SymbolRow, TableFrame};
pub use sym::{MemoryRegion, RawSymbol, Symbol, SymbolLang, SymbolType};

//! A checked facade over a handle-based spreadsheet engine: the wide-string
//! codec used at the engine boundary, the resolution of sheet addresses, and
//! the workbook state that decides which engine call each operation makes.
pub mod book;
pub mod codec;
